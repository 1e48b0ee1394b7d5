//! Capability delegation.
//!
//! Any container of a capability-typed value is itself
//! capability-typed: a handle around a capable backend forwards every
//! capability call unchanged, so generic call sites accept a handle to
//! a backend interchangeably with the backend itself. The handle's
//! abstract ledger is its backend's.

use vstd::prelude::*;
use crate::account::Account;
use crate::addr::{Address, BlockHash};
use crate::capability::{
    Client, GetAccount, GetLatestBlockhash, GetMinimumBalanceForRentExemption,
    GetMultipleAccounts, GetProgramAccounts, ProgramAccountsFilter, SetAccount,
};
use crate::errors::ClientError;
use crate::execution::{ExecutionEffect, ExecutionOutput};
use crate::executor::{ProcessTransaction, SimulateTransaction};
use crate::transaction::VersionedTransaction;

verus! {

/// A handle that owns a capable backend and forwards every capability
/// call to it.
pub struct ClientHandle<C> {
    pub backend: C,
}

impl<C> ClientHandle<C> {
    /// Wraps a backend.
    pub fn new(backend: C) -> (r: ClientHandle<C>)
        ensures
            r.backend == backend,
    {
        ClientHandle { backend }
    }
}

impl<C: Client> Client for ClientHandle<C> {
    open spec fn inv(&self) -> bool {
        self.backend.inv()
    }

    open spec fn ledger(&self) -> Map<Address, crate::account::AccountValue> {
        self.backend.ledger()
    }
}

impl<C: GetAccount> GetAccount for ClientHandle<C> {
    fn get_account(&self, address: &Address) -> (r: Result<Option<Account>, ClientError>) {
        self.backend.get_account(address)
    }
}

impl<C: GetMultipleAccounts> GetMultipleAccounts for ClientHandle<C> {
    fn get_multiple_accounts(&self, addresses: &Vec<Address>) -> (r: Result<
        Vec<Option<Account>>,
        ClientError,
    >) {
        self.backend.get_multiple_accounts(addresses)
    }
}

impl<C: GetProgramAccounts> GetProgramAccounts for ClientHandle<C> {
    fn get_program_accounts(
        &self,
        program_id: &Address,
        filters: &Vec<ProgramAccountsFilter>,
    ) -> (r: Result<Vec<(Address, Account)>, ClientError>) {
        self.backend.get_program_accounts(program_id, filters)
    }
}

impl<C: SetAccount> SetAccount for ClientHandle<C> {
    fn set_account(&mut self, address: Address, account: Account) {
        self.backend.set_account(address, account)
    }
}

impl<C: GetMinimumBalanceForRentExemption> GetMinimumBalanceForRentExemption for ClientHandle<C> {
    fn get_minimum_balance_for_rent_exemption(&self, data_len: usize) -> (r: Result<
        u64,
        ClientError,
    >) {
        self.backend.get_minimum_balance_for_rent_exemption(data_len)
    }
}

impl<C: GetLatestBlockhash> GetLatestBlockhash for ClientHandle<C> {
    open spec fn current_blockhash(&self) -> BlockHash {
        self.backend.current_blockhash()
    }

    fn get_latest_blockhash(&self) -> (r: Result<BlockHash, ClientError>) {
        self.backend.get_latest_blockhash()
    }
}

impl<C: ProcessTransaction> ProcessTransaction for ClientHandle<C> {
    fn process_transaction(&self, transaction: VersionedTransaction) -> (r: Result<
        ExecutionOutput,
        ClientError,
    >) {
        self.backend.process_transaction(transaction)
    }
}

impl<C: SimulateTransaction> SimulateTransaction for ClientHandle<C> {
    fn simulate_transaction_effect(&self, transaction: VersionedTransaction) -> (r: Result<
        ExecutionEffect,
        ClientError,
    >) {
        self.backend.simulate_transaction_effect(transaction)
    }
}

} // verus!
