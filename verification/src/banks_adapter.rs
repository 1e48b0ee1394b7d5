//! Result normalization for the local test service backend.
//!
//! The local test service combines "submit" with "fetch result
//! metadata" in one round trip, and answers simulation and fee queries
//! in separate round trips. Its native results carry optional parts;
//! missing metadata means the transaction was rejected, and a
//! simulation reporting zero consumed compute units surfaces the
//! underlying error, never a zero-cost success.

use vstd::prelude::*;
use crate::errors::{ClientError, TransactionError};
use crate::execution::{ExecutionOutput, ReturnData};
use crate::transaction::VersionedTransaction;

verus! {

/// The metadata the service attaches to an executed transaction.
pub struct TransactionMetadata {
    pub log_messages: Vec<String>,
    pub compute_units_consumed: u64,
    pub return_data: Option<ReturnData>,
}

/// The service's native execution result: the verdict, and metadata
/// when the transaction executed.
pub struct BanksExecutionResult {
    pub result: Result<(), TransactionError>,
    pub metadata: Option<TransactionMetadata>,
}

/// The details the service attaches to a simulation.
pub struct BanksSimulationDetails {
    pub logs: Vec<String>,
    pub units_consumed: u64,
    pub return_data: Option<ReturnData>,
}

/// The service's native simulation result.
pub struct BanksSimulationResult {
    pub result: Option<Result<(), TransactionError>>,
    pub simulation_details: Option<BanksSimulationDetails>,
}

/// Normalizes the service's execution result: missing metadata means
/// the transaction was rejected and its error is surfaced; otherwise
/// the canonical outcome carries the metadata and the separately
/// queried fee.
pub fn normalize_banks_execution(
    transaction: VersionedTransaction,
    outcome: BanksExecutionResult,
    fee: Option<u64>,
) -> (r: Result<ExecutionOutput, ClientError>)
    requires
        outcome.metadata is None ==> outcome.result is Err,
        outcome.metadata is Some ==> fee is Some,
    ensures
        (match outcome.metadata {
            None => (match outcome.result {
                Err(e) => r == Err::<ExecutionOutput, ClientError>(
                    ClientError::Transaction { error: e },
                ),
                Ok(_) => false,
            }),
            Some(md) => (match r {
                Ok(out) => {
                    &&& out.transaction == transaction
                    &&& out.result == outcome.result
                    &&& out.logs == md.log_messages
                    &&& out.compute_units_consumed == md.compute_units_consumed
                    &&& out.return_data == md.return_data
                    &&& out.fee == fee.unwrap()
                },
                Err(_) => false,
            }),
        }),
{
    let BanksExecutionResult { result, metadata } = outcome;
    let md = match metadata {
        None => {
            match result {
                Err(error) => {
                    return Err(ClientError::Transaction { error });
                },
                Ok(_) => {
                    proof {
                        assert(false);
                    }
                    return Err(
                        ClientError::BackendSpecific { error: crate::errors::BackendError::Custom },
                    );
                },
            }
        },
        Some(md) => md,
    };
    let fee_paid = match fee {
        Some(f) => f,
        None => {
            proof {
                assert(false);
            }
            return Err(ClientError::BackendSpecific { error: crate::errors::BackendError::Custom });
        },
    };
    Ok(
        ExecutionOutput {
            transaction,
            result,
            logs: md.log_messages,
            compute_units_consumed: md.compute_units_consumed,
            return_data: md.return_data,
            fee: fee_paid,
        },
    )
}

/// Normalizes the service's simulation result: zero consumed compute
/// units surfaces the underlying transaction error; otherwise the
/// canonical outcome carries the details and the separately queried
/// fee.
pub fn normalize_banks_simulation(
    transaction: VersionedTransaction,
    sim: BanksSimulationResult,
    fee: Option<u64>,
) -> (r: Result<ExecutionOutput, ClientError>)
    requires
        sim.result is Some,
        sim.simulation_details is Some,
        sim.simulation_details.unwrap().units_consumed == 0 ==> sim.result.unwrap() is Err,
        sim.simulation_details.unwrap().units_consumed != 0 ==> fee is Some,
    ensures
        (match r {
            Ok(out) => {
                &&& sim.simulation_details.unwrap().units_consumed != 0
                &&& out.transaction == transaction
                &&& out.result == sim.result.unwrap()
                &&& out.logs == sim.simulation_details.unwrap().logs
                &&& out.compute_units_consumed == sim.simulation_details.unwrap().units_consumed
                &&& out.return_data == sim.simulation_details.unwrap().return_data
                &&& out.fee == fee.unwrap()
            },
            Err(e) => {
                &&& sim.simulation_details.unwrap().units_consumed == 0
                &&& (match sim.result.unwrap() {
                    Err(cause) => e == ClientError::Transaction { error: cause },
                    Ok(_) => false,
                })
            },
        }),
{
    let BanksSimulationResult { result, simulation_details } = sim;
    let verdict = match result {
        Some(v) => v,
        None => {
            proof {
                assert(false);
            }
            return Err(ClientError::BackendSpecific { error: crate::errors::BackendError::Custom });
        },
    };
    let details = match simulation_details {
        Some(d) => d,
        None => {
            proof {
                assert(false);
            }
            return Err(ClientError::BackendSpecific { error: crate::errors::BackendError::Custom });
        },
    };
    if details.units_consumed == 0 {
        match verdict {
            Err(error) => {
                return Err(ClientError::Transaction { error });
            },
            Ok(_) => {
                proof {
                    assert(false);
                }
                return Err(
                    ClientError::BackendSpecific { error: crate::errors::BackendError::Custom },
                );
            },
        }
    }
    let fee_paid = match fee {
        Some(f) => f,
        None => {
            proof {
                assert(false);
            }
            return Err(ClientError::BackendSpecific { error: crate::errors::BackendError::Custom });
        },
    };
    Ok(
        ExecutionOutput {
            transaction,
            result: verdict,
            logs: details.logs,
            compute_units_consumed: details.units_consumed,
            return_data: details.return_data,
            fee: fee_paid,
        },
    )
}

} // verus!
