//! Convenience capabilities composed from the base ones.
//!
//! Strict reads that demand presence, a lossy multi-read that keeps
//! only the accounts that exist, and compile-then-submit and
//! compile-then-simulate compositions.

use vstd::prelude::*;
use crate::account::{Account, AccountValue};
use crate::addr::{Address, Signature};
use crate::capability::{
    spec_account_read, Client, GetAccount, GetLatestBlockhash, GetMultipleAccounts,
};
use crate::compile::CompileTransaction;
use crate::errors::ClientError;
use crate::execution::{ExecutionEffect, ExecutionOutput};
use crate::executor::{ProcessTransaction, SimulateTransaction};
use crate::transaction::{AddressLookupTableAccount, Instruction};

verus! {

/// A read that demands the account to exist.
pub trait GetAccountExt: GetAccount {
    /// Returns the account at `address`; a missing account is an
    /// error.
    fn try_get_account(&self, address: &Address) -> (r: Result<Account, ClientError>)
        requires
            self.inv(),
        ensures
            (match r {
                Ok(a) => self.ledger().contains_key(*address) && a@ == self.ledger()[*address],
                Err(_) => true,
            }),
            !self.ledger().contains_key(*address) ==> r is Err,
    {
        match self.get_account(address) {
            Ok(Some(account)) => Ok(account),
            Ok(None) => Err(ClientError::AccountNotFound { address: *address }),
            Err(e) => Err(e),
        }
    }
}

impl<C: GetAccount> GetAccountExt for C {

}

/// The keyed accounts that exist among `keys`, in request order.
pub open spec fn spec_present_accounts(
    m: Map<Address, AccountValue>,
    keys: Seq<Address>,
) -> Seq<(Address, AccountValue)>
    decreases keys.len(),
{
    if keys.len() == 0 {
        Seq::empty()
    } else {
        let prefix = spec_present_accounts(m, keys.drop_last());
        if m.contains_key(keys.last()) {
            prefix.push((keys.last(), m[keys.last()]))
        } else {
            prefix
        }
    }
}

/// The views of a keyed account list.
pub open spec fn spec_keyed_account_views(s: Seq<(Address, Account)>) -> Seq<
    (Address, AccountValue),
> {
    Seq::new(s.len(), |i: int| (s[i].0, s[i].1@))
}

/// Multi-reads that post-process the per-key options.
pub trait GetMultipleAccountsExt: GetMultipleAccounts {
    /// Returns every requested account; any missing one is an error.
    #[verifier::loop_isolation(false)]
    fn try_get_multiple_accounts(&self, addresses: &Vec<Address>) -> (r: Result<
        Vec<Account>,
        ClientError,
    >)
        requires
            self.inv(),
        ensures
            (match r {
                Ok(accounts) => {
                    &&& accounts@.len() == addresses@.len()
                    &&& forall|i: int|
                        0 <= i < addresses@.len() ==> spec_account_read(
                            self.ledger(),
                            addresses@[i],
                            Some(#[trigger] accounts@[i]),
                        )
                },
                Err(_) => true,
            }),
            (exists|i: int|
                0 <= i < addresses@.len() && !self.ledger().contains_key(
                    #[trigger] addresses@[i],
                )) ==> r is Err,
    {
        let fetched = match self.get_multiple_accounts(addresses) {
            Ok(v) => v,
            Err(e) => {
                return Err(e);
            },
        };
        let mut out: Vec<Account> = Vec::new();
        let mut i: usize = 0;
        while i < fetched.len()
            invariant
                0 <= i <= fetched@.len(),
                fetched@.len() == addresses@.len(),
                forall|j: int|
                    0 <= j < addresses@.len() ==> spec_account_read(
                        self.ledger(),
                        addresses@[j],
                        #[trigger] fetched@[j],
                    ),
                out@.len() == i,
                forall|j: int|
                    0 <= j < i ==> spec_account_read(
                        self.ledger(),
                        addresses@[j],
                        Some(#[trigger] out@[j]),
                    ),
            decreases fetched@.len() - i,
        {
            proof {
                assert(spec_account_read(self.ledger(), addresses@[i as int], fetched@[i as int]));
            }
            match &fetched[i] {
                Some(account) => {
                    out.push(account.clone());
                    proof {
                        assert(spec_account_read(
                            self.ledger(),
                            addresses@[i as int],
                            Some(out@[i as int]),
                        ));
                    }
                },
                None => {
                    return Err(ClientError::AccountNotFound { address: addresses[i] });
                },
            }
            i = i + 1;
        }
        proof {
            assert forall|j: int| 0 <= j < addresses@.len() implies self.ledger().contains_key(
                #[trigger] addresses@[j],
            ) by {
                assert(spec_account_read(self.ledger(), addresses@[j], Some(out@[j])));
            }
        }
        Ok(out)
    }

    /// Returns the requested accounts that exist, keyed, keeping
    /// request order and dropping the missing ones.
    #[verifier::loop_isolation(false)]
    fn get_multiple_accounts_lossy(&self, addresses: &Vec<Address>) -> (r: Result<
        Vec<(Address, Account)>,
        ClientError,
    >)
        requires
            self.inv(),
        ensures
            (match r {
                Ok(found) => spec_keyed_account_views(found@) == spec_present_accounts(
                    self.ledger(),
                    addresses@,
                ),
                Err(_) => true,
            }),
    {
        let fetched = match self.get_multiple_accounts(addresses) {
            Ok(v) => v,
            Err(e) => {
                return Err(e);
            },
        };
        let mut out: Vec<(Address, Account)> = Vec::new();
        let mut i: usize = 0;
        proof {
            assert(addresses@.subrange(0, 0) =~= Seq::<Address>::empty());
            assert(spec_keyed_account_views(out@) =~= spec_present_accounts(
                self.ledger(),
                addresses@.subrange(0, 0),
            ));
        }
        while i < fetched.len()
            invariant
                0 <= i <= fetched@.len(),
                fetched@.len() == addresses@.len(),
                forall|j: int|
                    0 <= j < addresses@.len() ==> spec_account_read(
                        self.ledger(),
                        addresses@[j],
                        #[trigger] fetched@[j],
                    ),
                spec_keyed_account_views(out@) == spec_present_accounts(
                    self.ledger(),
                    addresses@.subrange(0, i as int),
                ),
            decreases fetched@.len() - i,
        {
            let ghost pre = out@;
            proof {
                assert(addresses@.subrange(0, i as int + 1).drop_last() =~= addresses@.subrange(
                    0,
                    i as int,
                ));
                assert(addresses@.subrange(0, i as int + 1).last() == addresses@[i as int]);
            }
            match &fetched[i] {
                Some(account) => {
                    out.push((addresses[i], account.clone()));
                    proof {
                        assert(spec_keyed_account_views(out@) =~= spec_keyed_account_views(
                            pre,
                        ).push((addresses@[i as int], fetched@[i as int].unwrap()@)));
                    }
                },
                None => {
                },
            }
            i = i + 1;
        }
        proof {
            assert(addresses@.subrange(0, addresses@.len() as int) =~= addresses@);
        }
        Ok(out)
    }
}

impl<C: GetMultipleAccounts> GetMultipleAccountsExt for C {

}

/// Compile-then-submit in one call.
pub trait CompilingProcessTransaction: CompileTransaction + ProcessTransaction {
    /// Compiles `instructions` against the latest blockhash, then
    /// submits the result.
    fn compiling_process_transaction(
        &self,
        instructions: &Vec<Instruction>,
        payer: Address,
        signers: &Vec<(Address, Signature)>,
        lookup_tables: &Vec<AddressLookupTableAccount>,
    ) -> (r: Result<ExecutionOutput, ClientError>)
        requires
            self.inv(),
            forall|p: int, q: int|
                0 <= p < q < lookup_tables@.len() ==> lookup_tables@[p].key
                    != lookup_tables@[q].key,
        ensures
            (match r {
                Ok(out) => out.transaction.recent_blockhash == self.current_blockhash()
                    && out.transaction.static_keys@.len() > 0 && out.transaction.static_keys@[0]
                    == payer,
                Err(_) => true,
            }),
    {
        let transaction = match self.compile_transaction(instructions, payer, signers, lookup_tables) {
            Ok(tx) => tx,
            Err(e) => {
                return Err(e);
            },
        };
        self.process_transaction(transaction)
    }
}

impl<C: Client + GetLatestBlockhash + ProcessTransaction> CompilingProcessTransaction for C {

}

/// Compile-then-simulate in one call.
pub trait CompilingSimulateTransaction: CompileTransaction + SimulateTransaction {
    /// Compiles `instructions` against the latest blockhash, then
    /// simulates the result.
    fn compiling_simulate_transaction(
        &self,
        instructions: &Vec<Instruction>,
        payer: Address,
        signers: &Vec<(Address, Signature)>,
        lookup_tables: &Vec<AddressLookupTableAccount>,
    ) -> (r: Result<ExecutionEffect, ClientError>)
        requires
            self.inv(),
            forall|p: int, q: int|
                0 <= p < q < lookup_tables@.len() ==> lookup_tables@[p].key
                    != lookup_tables@[q].key,
        ensures
            (match r {
                Ok(eff) => eff.transaction.recent_blockhash == self.current_blockhash()
                    && eff.transaction.static_keys@.len() > 0 && eff.transaction.static_keys@[0]
                    == payer && eff.compute_units_consumed != 0,
                Err(_) => true,
            }),
    {
        let transaction = match self.compile_transaction(instructions, payer, signers, lookup_tables) {
            Ok(tx) => tx,
            Err(e) => {
                return Err(e);
            },
        };
        self.simulate_transaction_effect(transaction)
    }
}

impl<C: Client + GetLatestBlockhash + SimulateTransaction> CompilingSimulateTransaction for C {

}

} // verus!
