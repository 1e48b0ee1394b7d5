//! Result normalization and submission decisions for the remote
//! network backend.
//!
//! The remote endpoint is asynchronous and polled; this module holds
//! the backend's decision logic as pure functions so the blocking
//! driver outside the library only performs transport work. Submission
//! runs in three steps: a preflight simulation whose zero-compute-unit
//! failure is a hard rejection; a broadcast whose confirmation still
//! counts as signature-level success when the transaction was included
//! but reverted; and a bounded metadata poll with a fixed attempt
//! count and interval.

use vstd::prelude::*;
use crate::account::{spec_is_empty_system_account, Account, AccountValue};
use crate::addr::Address;
use crate::capability::{spec_account_read, Client, GetMultipleAccounts};
use crate::encode::{decode_return_data, spec_decode_return_data, UiReturnData};
use crate::errors::{BackendError, ClientError, TransactionError};
use crate::execution::{
    ExecutionEffect, ExecutionOutput, PostAccountEntry, PostAccounts, ReturnData,
};
use crate::lookup::{spec_system_program_address, system_program_address};
use crate::sanitize::spec_opt_account_view;
use crate::transaction::VersionedTransaction;

verus! {

/// How many times transaction metadata is fetched before giving up.
pub const REMOTE_FETCH_MAX_RETRIES: u64 = 10;

/// Milliseconds between metadata fetch attempts.
pub const REMOTE_FETCH_RETRY_INTERVAL_MS: u64 = 1000;

/// The outcome of the initial send with preflight.
pub enum SendAttemptOutcome {
    /// The endpoint accepted the transaction.
    Sent,
    /// Preflight simulation rejected the transaction.
    PreflightFailure { error: Option<TransactionError>, units_consumed: Option<u64> },
    /// Any other send failure; broadcast is still attempted.
    OtherFailure,
}

/// What to do after the initial send.
#[derive(Clone, Copy, PartialEq, Eq, Structural, Debug)]
pub enum SubmitDecision {
    /// The preflight consumed zero compute units: the transaction
    /// never entered the ledger; surface the underlying error.
    Reject { error: TransactionError },
    /// Broadcast and await confirmation.
    Broadcast,
}

/// Decides whether a send outcome is a hard preflight rejection: only
/// a preflight failure reporting zero consumed compute units is; it
/// surfaces the underlying transaction error.
pub fn preflight_decision(outcome: SendAttemptOutcome) -> (r: SubmitDecision)
    requires
        (outcome matches SendAttemptOutcome::PreflightFailure { units_consumed, .. } ==>
            units_consumed is Some),
        (outcome matches SendAttemptOutcome::PreflightFailure { error, units_consumed } ==> (
        units_consumed == Some(0u64) ==> error is Some)),
    ensures
        (match outcome {
            SendAttemptOutcome::PreflightFailure { error, units_consumed } => {
                if units_consumed == Some(0u64) {
                    r == SubmitDecision::Reject { error: error.unwrap() }
                } else {
                    r == SubmitDecision::Broadcast
                }
            },
            _ => r == SubmitDecision::Broadcast,
        }),
{
    match outcome {
        SendAttemptOutcome::PreflightFailure { error, units_consumed } => {
            let units = match units_consumed {
                Some(u) => u,
                None => {
                    proof {
                        assert(false);
                    }
                    return SubmitDecision::Broadcast;
                },
            };
            if units == 0 {
                match error {
                    Some(e) => SubmitDecision::Reject { error: e },
                    None => {
                        proof {
                            assert(false);
                        }
                        SubmitDecision::Broadcast
                    },
                }
            } else {
                SubmitDecision::Broadcast
            }
        },
        _ => SubmitDecision::Broadcast,
    }
}

/// The outcome of broadcasting and awaiting confirmation.
pub enum ConfirmOutcome {
    /// Confirmed successfully.
    Confirmed,
    /// Confirmed, but the transaction reverted on the ledger.
    LedgerError { error: TransactionError },
    /// The broadcast or confirmation itself failed.
    TransportFailure { error: BackendError },
}

/// Decides the signature-level verdict after confirmation: a
/// ledger-level transaction error still counts as success, because the
/// transaction was accepted and included even though it reverted; only
/// transport failures are errors.
pub fn confirmation_decision(outcome: ConfirmOutcome) -> (r: Result<(), ClientError>)
    ensures
        (match outcome {
            ConfirmOutcome::Confirmed => r is Ok,
            ConfirmOutcome::LedgerError { .. } => r is Ok,
            ConfirmOutcome::TransportFailure { error } => r == Err::<(), ClientError>(
                ClientError::BackendSpecific { error },
            ),
        }),
{
    match outcome {
        ConfirmOutcome::Confirmed => Ok(()),
        ConfirmOutcome::LedgerError { .. } => Ok(()),
        ConfirmOutcome::TransportFailure { error } => Err(
            ClientError::BackendSpecific { error },
        ),
    }
}

/// What to do after a failed metadata fetch.
#[derive(Clone, Copy, PartialEq, Eq, Structural, Debug)]
pub enum RetryDecision {
    /// Sleep for the fixed interval and fetch again.
    RetryAfterMs { ms: u64 },
    /// Retries are exhausted: surface the final fetch error.
    GiveUp,
}

/// Decides whether a failed metadata fetch is retried: a fixed number
/// of attempts with a fixed interval between them, never indefinitely.
pub fn retry_decision(attempts_so_far: u64) -> (r: RetryDecision)
    ensures
        r == (if attempts_so_far < REMOTE_FETCH_MAX_RETRIES {
            RetryDecision::RetryAfterMs { ms: REMOTE_FETCH_RETRY_INTERVAL_MS }
        } else {
            RetryDecision::GiveUp
        }),
{
    if attempts_so_far < REMOTE_FETCH_MAX_RETRIES {
        RetryDecision::RetryAfterMs { ms: REMOTE_FETCH_RETRY_INTERVAL_MS }
    } else {
        RetryDecision::GiveUp
    }
}

/// Confirmed-transaction metadata as the remote endpoint reports it.
pub struct ConfirmedTransactionMeta {
    pub err: Option<TransactionError>,
    pub fee: u64,
    pub log_messages: Option<Vec<String>>,
    pub return_data: Option<UiReturnData>,
    pub compute_units_consumed: Option<u64>,
}

/// Normalizes confirmed-transaction metadata into the canonical
/// outcome. The reported return data is decoded here; a record that
/// does not decode is a backend decode failure.
pub fn normalize_rpc_confirmed(
    transaction: VersionedTransaction,
    meta: ConfirmedTransactionMeta,
) -> (r: Result<ExecutionOutput, ClientError>)
    requires
        meta.log_messages is Some,
        meta.compute_units_consumed is Some,
    ensures
        (match r {
            Ok(out) => {
                &&& out.transaction == transaction
                &&& out.result == (match meta.err {
                    None => Ok::<(), TransactionError>(()),
                    Some(e) => Err::<(), TransactionError>(e),
                })
                &&& out.logs == meta.log_messages.unwrap()
                &&& out.compute_units_consumed == meta.compute_units_consumed.unwrap()
                &&& out.fee == meta.fee
                &&& (match meta.return_data {
                    None => out.return_data is None,
                    Some(ui) => out.return_data matches Some(rd) && spec_decode_return_data(
                        ui.program_id_base58@,
                        ui.data_base64@,
                    ) == Some((rd.program_id, rd.data@)),
                })
            },
            Err(e) => {
                &&& meta.return_data matches Some(ui) && spec_decode_return_data(
                    ui.program_id_base58@,
                    ui.data_base64@,
                ) is None
                &&& e == ClientError::BackendSpecific { error: BackendError::Decode }
            },
        }),
{
    let ConfirmedTransactionMeta { err, fee, log_messages, return_data, compute_units_consumed } =
        meta;
    let logs = match log_messages {
        Some(l) => l,
        None => {
            proof {
                assert(false);
            }
            return Err(ClientError::BackendSpecific { error: BackendError::Custom });
        },
    };
    let units = match compute_units_consumed {
        Some(u) => u,
        None => {
            proof {
                assert(false);
            }
            return Err(ClientError::BackendSpecific { error: BackendError::Custom });
        },
    };
    let decoded_return_data: Option<ReturnData> = match return_data {
        None => None,
        Some(ui) => {
            match decode_return_data(&ui) {
                Ok(rd) => Some(rd),
                Err(e) => {
                    return Err(e);
                },
            }
        },
    };
    let result = match err {
        None => Ok(()),
        Some(e) => Err(e),
    };
    Ok(
        ExecutionOutput {
            transaction,
            result,
            logs,
            compute_units_consumed: units,
            return_data: decoded_return_data,
            fee,
        },
    )
}

/// A simulation result as the remote endpoint reports it; the
/// post-state accounts arrive already decoded into model accounts,
/// aligned with the sanitized account key list.
pub struct RpcSimulationResult {
    pub err: Option<TransactionError>,
    pub logs: Option<Vec<String>>,
    pub accounts: Option<Vec<Option<Account>>>,
    pub units_consumed: Option<u64>,
    pub return_data: Option<UiReturnData>,
}

/// The canonical post-state of one account key, given what the remote
/// simulation reported for it: a missing or empty system-owned
/// zero-balance account is gone; an executable account is replaced by
/// a fresh full read; anything else is taken as reported.
pub open spec fn spec_rpc_post_value(
    m: Map<Address, AccountValue>,
    k: Address,
    reported: Option<AccountValue>,
) -> Option<AccountValue> {
    match reported {
        None => None,
        Some(a) => {
            if spec_is_empty_system_account(a, spec_system_program_address()) {
                None
            } else if a.executable {
                Some(m[k])
            } else {
                Some(a)
            }
        },
    }
}

/// Whether the reported post-state at `k` needs a fresh full read: it
/// is alive, not empty-system, and executable.
pub open spec fn spec_rpc_needs_fresh_read(reported: Option<AccountValue>) -> bool {
    match reported {
        None => false,
        Some(a) => !spec_is_empty_system_account(a, spec_system_program_address()) && a.executable,
    }
}

/// Normalizes the remote endpoint's simulation result against the
/// sanitized account key list. Zero consumed compute units surfaces
/// the underlying transaction error, never a zero-cost success.
/// Executable post-accounts are re-read in one multi-account request;
/// one of them missing from the ledger is an account-not-found error.
#[verifier::loop_isolation(false)]
pub fn normalize_rpc_simulation<C: GetMultipleAccounts>(
    client: &C,
    transaction: VersionedTransaction,
    account_keys: &Vec<Address>,
    sim: RpcSimulationResult,
    fee: u64,
) -> (r: Result<ExecutionEffect, ClientError>)
    requires
        client.inv(),
        sim.units_consumed is Some,
        sim.units_consumed.unwrap() == 0 ==> sim.err is Some,
        sim.units_consumed.unwrap() != 0 ==> sim.accounts is Some && sim.accounts.unwrap()@.len()
            == account_keys@.len() && sim.logs is Some,
    ensures
        (sim.units_consumed.unwrap() == 0 ==> (match sim.err {
            Some(e) => r == Err::<ExecutionEffect, ClientError>(
                ClientError::Transaction { error: e },
            ),
            None => false,
        })),
        (match r {
            Ok(eff) => {
                &&& sim.units_consumed.unwrap() != 0
                &&& eff.transaction == transaction
                &&& eff.result == (match sim.err {
                    None => Ok::<(), TransactionError>(()),
                    Some(e) => Err::<(), TransactionError>(e),
                })
                &&& eff.logs == sim.logs.unwrap()
                &&& eff.compute_units_consumed == sim.units_consumed.unwrap()
                &&& eff.fee == fee
                &&& (match sim.return_data {
                    None => eff.return_data is None,
                    Some(ui) => eff.return_data matches Some(rd) && spec_decode_return_data(
                        ui.program_id_base58@,
                        ui.data_base64@,
                    ) == Some((rd.program_id, rd.data@)),
                })
                &&& eff.post_accounts.entries_seq().len() == account_keys@.len()
                &&& forall|i: int|
                    0 <= i < account_keys@.len() ==> {
                        let reported = spec_opt_account_view(sim.accounts.unwrap()@[i]);
                        &&& (#[trigger] eff.post_accounts.entries_seq()[i]).0 == account_keys@[i]
                        &&& spec_opt_account_view(eff.post_accounts.entries_seq()[i].1)
                            == spec_rpc_post_value(client.ledger(), account_keys@[i], reported)
                        &&& (spec_rpc_needs_fresh_read(reported) ==> client.ledger().contains_key(
                            account_keys@[i],
                        ))
                    }
            },
            Err(_) => true,
        }),
        (sim.units_consumed.unwrap() != 0 && (sim.return_data matches Some(ui)
            && spec_decode_return_data(ui.program_id_base58@, ui.data_base64@) is None) ==> r
            == Err::<ExecutionEffect, ClientError>(
            ClientError::BackendSpecific { error: BackendError::Decode },
        )),
        (r is Err ==> sim.units_consumed.unwrap() == 0 || (sim.return_data matches Some(ui)
            && spec_decode_return_data(ui.program_id_base58@, ui.data_base64@) is None)
            || exists|i: int|
            0 <= i < account_keys@.len() && spec_rpc_needs_fresh_read(
                spec_opt_account_view(#[trigger] sim.accounts.unwrap()@[i]),
            )),
{
    let units = match sim.units_consumed {
        Some(u) => u,
        None => {
            proof {
                assert(false);
            }
            return Err(ClientError::BackendSpecific { error: BackendError::Custom });
        },
    };
    if units == 0 {
        match sim.err {
            Some(error) => {
                return Err(ClientError::Transaction { error });
            },
            None => {
                proof {
                    assert(false);
                }
                return Err(ClientError::BackendSpecific { error: BackendError::Custom });
            },
        }
    }
    let RpcSimulationResult { err, logs, accounts, units_consumed: _, return_data } = sim;
    let reported_accounts = match accounts {
        Some(a) => a,
        None => {
            proof {
                assert(false);
            }
            return Err(ClientError::BackendSpecific { error: BackendError::Custom });
        },
    };
    let log_lines = match logs {
        Some(l) => l,
        None => {
            proof {
                assert(false);
            }
            return Err(ClientError::BackendSpecific { error: BackendError::Custom });
        },
    };
    let decoded_return_data: Option<ReturnData> = match return_data {
        None => None,
        Some(ui) => {
            match decode_return_data(&ui) {
                Ok(rd) => Some(rd),
                Err(e) => {
                    return Err(e);
                },
            }
        },
    };
    let ghost m = client.ledger();
    let system_owner = system_program_address();
    // First pass: provisional entries, and which positions need a
    // fresh full read of an executable account.
    let mut entries: Vec<PostAccountEntry> = Vec::new();
    let mut fresh_positions: Vec<usize> = Vec::new();
    let mut fresh_keys: Vec<Address> = Vec::new();
    let mut i: usize = 0;
    while i < account_keys.len()
        invariant
            0 <= i <= account_keys@.len(),
            reported_accounts@.len() == account_keys@.len(),
            entries@.len() == i,
            fresh_positions@.len() == fresh_keys@.len(),
            forall|j: int|
                0 <= j < i ==> (#[trigger] entries@[j]).0 == account_keys@[j],
            forall|j: int|
                0 <= j < i && !spec_rpc_needs_fresh_read(
                    spec_opt_account_view(reported_accounts@[j]),
                ) ==> spec_opt_account_view((#[trigger] entries@[j]).1) == spec_rpc_post_value(
                    m,
                    account_keys@[j],
                    spec_opt_account_view(reported_accounts@[j]),
                ),
            forall|p: int|
                0 <= p < fresh_positions@.len() ==> 0 <= (#[trigger] fresh_positions@[p]) < i
                    && fresh_keys@[p] == account_keys@[fresh_positions@[p] as int]
                    && spec_rpc_needs_fresh_read(
                    spec_opt_account_view(reported_accounts@[fresh_positions@[p] as int]),
                ),
            forall|j: int|
                0 <= j < i && spec_rpc_needs_fresh_read(
                    spec_opt_account_view(#[trigger] reported_accounts@[j]),
                ) ==> exists|p: int|
                    0 <= p < fresh_positions@.len() && fresh_positions@[p] == j,
        decreases account_keys@.len() - i,
    {
        let key = account_keys[i];
        match &reported_accounts[i] {
            None => {
                entries.push((key, None));
            },
            Some(reported) => {
                if reported.is_empty_system_account(&system_owner) {
                    entries.push((key, None));
                } else if reported.executable {
                    let ghost old_positions = fresh_positions@;
                    entries.push((key, None));
                    fresh_positions.push(i);
                    fresh_keys.push(key);
                    proof {
                        assert forall|j: int|
                            0 <= j < i + 1 && spec_rpc_needs_fresh_read(
                                spec_opt_account_view(#[trigger] reported_accounts@[j]),
                            ) implies exists|p: int|
                            0 <= p < fresh_positions@.len() && fresh_positions@[p] == j by {
                            if j < i {
                                let p = choose|p: int|
                                    0 <= p < old_positions.len() && old_positions[p] == j;
                                assert(fresh_positions@[p] == j);
                            } else {
                                assert(fresh_positions@[fresh_positions@.len() - 1] == j);
                            }
                        }
                    }
                } else {
                    entries.push((key, Some(reported.clone())));
                }
            },
        }
        i = i + 1;
    }
    // One multi-account read for every executable post-account; no
    // read at all when none is needed.
    let fresh_accounts: Vec<Option<Account>> = if fresh_positions.len() == 0 {
        Vec::new()
    } else {
        match client.get_multiple_accounts(&fresh_keys) {
            Ok(v) => v,
            Err(e) => {
                proof {
                    let j = fresh_positions@[0] as int;
                    assert(spec_rpc_needs_fresh_read(
                        spec_opt_account_view(reported_accounts@[j]),
                    ));
                }
                return Err(e);
            },
        }
    };
    // Second pass: substitute the fresh full accounts.
    let mut p: usize = 0;
    while p < fresh_positions.len()
        invariant
            0 <= p <= fresh_positions@.len(),
            entries@.len() == account_keys@.len(),
            fresh_accounts@.len() == fresh_keys@.len(),
            fresh_positions@.len() == fresh_keys@.len(),
            reported_accounts@.len() == account_keys@.len(),
            forall|j: int|
                0 <= j < entries@.len() ==> (#[trigger] entries@[j]).0 == account_keys@[j],
            forall|q: int|
                0 <= q < fresh_positions@.len() ==> 0 <= (#[trigger] fresh_positions@[q])
                    < entries@.len() && fresh_keys@[q] == account_keys@[fresh_positions@[q] as int]
                    && spec_rpc_needs_fresh_read(
                    spec_opt_account_view(reported_accounts@[fresh_positions@[q] as int]),
                ),
            forall|j: int|
                0 <= j < entries@.len() && !spec_rpc_needs_fresh_read(
                    spec_opt_account_view(reported_accounts@[j]),
                ) ==> spec_opt_account_view((#[trigger] entries@[j]).1) == spec_rpc_post_value(
                    m,
                    account_keys@[j],
                    spec_opt_account_view(reported_accounts@[j]),
                ),
            forall|q: int|
                0 <= q < p ==> {
                    let j = (#[trigger] fresh_positions@[q]) as int;
                    m.contains_key(account_keys@[j]) && spec_opt_account_view(entries@[j].1)
                        == spec_rpc_post_value(
                        m,
                        account_keys@[j],
                        spec_opt_account_view(reported_accounts@[j]),
                    )
                },
            forall|j: int|
                0 <= j < entries@.len() && spec_rpc_needs_fresh_read(
                    spec_opt_account_view(#[trigger] reported_accounts@[j]),
                ) ==> exists|q: int|
                    0 <= q < fresh_positions@.len() && fresh_positions@[q] == j,
        decreases fresh_positions@.len() - p,
    {
        let position = fresh_positions[p];
        let key = fresh_keys[p];
        let ghost old_entries = entries@;
        match &fresh_accounts[p] {
            Some(full_account) => {
                proof {
                    assert(spec_account_read(m, fresh_keys@[p as int], fresh_accounts@[p as int]));
                }
                entries.set(position, (key, Some(full_account.clone())));
                proof {
                    assert forall|q: int| 0 <= q < p + 1 implies {
                        let j = (#[trigger] fresh_positions@[q]) as int;
                        m.contains_key(account_keys@[j]) && spec_opt_account_view(entries@[j].1)
                            == spec_rpc_post_value(
                            m,
                            account_keys@[j],
                            spec_opt_account_view(reported_accounts@[j]),
                        )
                    } by {
                        let j = fresh_positions@[q] as int;
                        if q < p {
                            if j != position as int {
                                assert(entries@[j] == old_entries[j]);
                            } else {
                                assert(spec_rpc_post_value(
                                    m,
                                    account_keys@[j],
                                    spec_opt_account_view(reported_accounts@[j]),
                                ) == Some(m[account_keys@[j]]));
                            }
                        } else {
                            assert(j == position as int);
                        }
                    }
                }
            },
            None => {
                proof {
                    assert(spec_account_read(m, fresh_keys@[p as int], fresh_accounts@[p as int]));
                    let j = fresh_positions@[p as int] as int;
                    assert(spec_rpc_needs_fresh_read(
                        spec_opt_account_view(reported_accounts@[j]),
                    ));
                }
                return Err(ClientError::AccountNotFound { address: key });
            },
        }
        p = p + 1;
    }
    let result = match err {
        None => Ok(()),
        Some(e) => Err(e),
    };
    Ok(
        ExecutionEffect {
            transaction,
            result,
            logs: log_lines,
            compute_units_consumed: units,
            return_data: decoded_return_data,
            fee,
            post_accounts: PostAccounts::new(entries),
        },
    )
}

} // verus!
