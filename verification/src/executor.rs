//! The transaction submit and simulate capabilities.
//!
//! Backends implement these against their native execution APIs and
//! normalize the native result shapes into the canonical model. The
//! contracts hold for every backend: a returned outcome belongs to the
//! submitted transaction, and a simulation that consumed zero compute
//! units is never a success value — it must surface the underlying
//! transaction error instead.

use vstd::prelude::*;
use crate::capability::Client;
use crate::errors::ClientError;
use crate::execution::{ExecutionEffect, ExecutionOutput};
use crate::transaction::VersionedTransaction;

verus! {

/// Submitting a transaction for execution.
pub trait ProcessTransaction: Client {
    /// Executes `transaction` and returns the canonical outcome.
    fn process_transaction(&self, transaction: VersionedTransaction) -> (r: Result<
        ExecutionOutput,
        ClientError,
    >)
        requires
            self.inv(),
        ensures
            (match r {
                Ok(out) => out.transaction == transaction,
                Err(_) => true,
            }),
    ;
}

/// Simulating a transaction without committing its effects.
pub trait SimulateTransaction: Client {
    /// Simulates `transaction` and returns the canonical outcome with
    /// the post-execution account set.
    fn simulate_transaction_effect(&self, transaction: VersionedTransaction) -> (r: Result<
        ExecutionEffect,
        ClientError,
    >)
        requires
            self.inv(),
        ensures
            (match r {
                Ok(eff) => eff.transaction == transaction && eff.compute_units_consumed != 0,
                Err(_) => true,
            }),
    ;

    /// Simulates `transaction` and returns the canonical outcome alone.
    fn simulate_transaction(&self, transaction: VersionedTransaction) -> (r: Result<
        ExecutionOutput,
        ClientError,
    >)
        requires
            self.inv(),
        ensures
            (match r {
                Ok(out) => out.transaction == transaction && out.compute_units_consumed != 0,
                Err(_) => true,
            }),
    {
        match self.simulate_transaction_effect(transaction) {
            Ok(effect) => Ok(effect.into_output()),
            Err(e) => Err(e),
        }
    }
}

} // verus!
