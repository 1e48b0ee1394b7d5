//! Result normalization for the in-process ledger backend.
//!
//! The in-process ledger executes synchronously and yields rich native
//! results. Execution either produces details or a "not executed"
//! error; simulation additionally yields a post-state snapshot that
//! must be projected onto the sanitized account key list. Program
//! (executable) accounts in the snapshot may be abbreviated, so their
//! post-state entries are replaced by a fresh direct read from the
//! canonical ledger; an empty system-owned zero-balance account is
//! normalized to "account does not exist".

use vstd::prelude::*;
use crate::account::{spec_is_empty_system_account, Account, AccountValue};
use crate::addr::Address;
use crate::capability::{Client, GetAccount};
use crate::errors::{ClientError, TransactionError};
use crate::execution::{ExecutionEffect, ExecutionOutput, PostAccountEntry, PostAccounts, ReturnData};
use crate::lookup::{spec_system_program_address, system_program_address};
use crate::sanitize::spec_opt_account_view;
use crate::transaction::VersionedTransaction;

verus! {

/// The in-process ledger's native execution result.
pub enum BankExecutionResult {
    /// The transaction entered execution and produced details.
    Executed {
        status: Result<(), TransactionError>,
        log_messages: Option<Vec<String>>,
        return_data: Option<ReturnData>,
        executed_units: u64,
    },
    /// The transaction never entered execution.
    NotExecuted { error: TransactionError },
}

/// The in-process ledger's native simulation result.
pub struct BankSimulationResult {
    pub result: Result<(), TransactionError>,
    pub logs: Vec<String>,
    /// The copy-on-write snapshot's post-state, one entry per touched
    /// account, in no particular order.
    pub post_simulation_accounts: Vec<(Address, Account)>,
    pub units_consumed: u64,
    pub return_data: Option<ReturnData>,
}

/// First-match lookup in a snapshot.
pub open spec fn spec_snapshot_lookup(s: Seq<(Address, Account)>, k: Address) -> Option<
    AccountValue,
>
    decreases s.len(),
{
    if s.len() == 0 {
        None
    } else if s[0].0 == k {
        Some(s[0].1@)
    } else {
        spec_snapshot_lookup(s.drop_first(), k)
    }
}

/// See [`spec_snapshot_lookup`].
#[verifier::loop_isolation(false)]
pub fn snapshot_find<'a>(s: &'a Vec<(Address, Account)>, k: &Address) -> (r: Option<&'a Account>)
    ensures
        (match r {
            Some(a) => spec_snapshot_lookup(s@, *k) == Some(a@),
            None => spec_snapshot_lookup(s@, *k) is None,
        }),
{
    let n = s.len();
    proof {
        assert(s@.subrange(0, n as int) =~= s@);
    }
    let mut i: usize = 0;
    while i < n
        invariant
            0 <= i <= n,
            n == s@.len(),
            spec_snapshot_lookup(s@, *k) == spec_snapshot_lookup(
                s@.subrange(i as int, n as int),
                *k,
            ),
        decreases n - i,
    {
        proof {
            assert(s@.subrange(i as int, n as int).drop_first() =~= s@.subrange(
                i as int + 1,
                n as int,
            ));
            assert(s@.subrange(i as int, n as int)[0] == s@[i as int]);
        }
        if s[i].0 == *k {
            return Some(&s[i].1);
        }
        i = i + 1;
    }
    None
}

/// Whether the snapshot's entry for `k` needs a fresh full read from
/// the canonical ledger: it exists, is not an empty system-owned
/// zero-balance account, and is executable.
pub open spec fn spec_bank_needs_fresh_read(snapshot: Seq<(Address, Account)>, k: Address) -> bool {
    match spec_snapshot_lookup(snapshot, k) {
        None => false,
        Some(a) => !spec_is_empty_system_account(a, spec_system_program_address()) && a.executable,
    }
}

/// The canonical post-state of one account key, projected from the
/// simulation snapshot: an empty system-owned zero-balance snapshot
/// entry means the account is gone; an executable entry is replaced by
/// the canonical ledger's full account; anything else is taken from
/// the snapshot.
pub open spec fn spec_bank_post_value(
    m: Map<Address, AccountValue>,
    snapshot: Seq<(Address, Account)>,
    k: Address,
) -> Option<AccountValue>
    recommends
        spec_snapshot_lookup(snapshot, k) is Some,
{
    let a = spec_snapshot_lookup(snapshot, k).unwrap();
    if spec_is_empty_system_account(a, spec_system_program_address()) {
        None
    } else if a.executable {
        Some(m[k])
    } else {
        Some(a)
    }
}

/// Normalizes the in-process ledger's execution result: a transaction
/// that never entered execution surfaces its error; an executed one
/// yields the canonical outcome with the given fee.
pub fn normalize_bank_execution(
    transaction: VersionedTransaction,
    result: BankExecutionResult,
    fee: u64,
) -> (r: Result<ExecutionOutput, ClientError>)
    ensures
        (match result {
            BankExecutionResult::NotExecuted { error } => r == Err::<ExecutionOutput, ClientError>(
                ClientError::Transaction { error },
            ),
            BankExecutionResult::Executed { status, log_messages, return_data, executed_units } => (
            match r {
                Ok(out) => {
                    &&& out.transaction == transaction
                    &&& out.result == status
                    &&& (match log_messages {
                        Some(l) => out.logs == l,
                        None => out.logs@.len() == 0,
                    })
                    &&& out.return_data == return_data
                    &&& out.compute_units_consumed == executed_units
                    &&& out.fee == fee
                },
                Err(_) => false,
            }),
        }),
{
    match result {
        BankExecutionResult::NotExecuted { error } => Err(ClientError::Transaction { error }),
        BankExecutionResult::Executed { status, log_messages, return_data, executed_units } => {
            let logs = match log_messages {
                Some(l) => l,
                None => Vec::new(),
            };
            Ok(
                ExecutionOutput {
                    transaction,
                    result: status,
                    logs,
                    compute_units_consumed: executed_units,
                    return_data,
                    fee,
                },
            )
        },
    }
}

/// Normalizes the in-process ledger's simulation result against the
/// sanitized account key list. Zero consumed compute units means the
/// transaction was not executed: its error is surfaced, never a
/// zero-cost success — and no post-account set is fabricated for a
/// transaction that failed before entering execution. Otherwise every
/// key receives its projected post-state; the set has exactly one
/// entry per sanitized key.
#[verifier::loop_isolation(false)]
pub fn normalize_bank_simulation<C: GetAccount>(
    client: &C,
    transaction: VersionedTransaction,
    account_keys: &Vec<Address>,
    sim: BankSimulationResult,
    fee: u64,
) -> (r: Result<ExecutionEffect, ClientError>)
    requires
        client.inv(),
        sim.units_consumed == 0 ==> sim.result is Err,
        sim.units_consumed != 0 ==> sim.post_simulation_accounts@.len() == account_keys@.len(),
        sim.units_consumed != 0 ==> forall|i: int|
            0 <= i < account_keys@.len() ==> spec_snapshot_lookup(
                sim.post_simulation_accounts@,
                #[trigger] account_keys@[i],
            ) is Some,
        sim.units_consumed != 0 ==> forall|i: int|
            0 <= i < account_keys@.len() && (spec_snapshot_lookup(
                sim.post_simulation_accounts@,
                #[trigger] account_keys@[i],
            ).unwrap().executable) ==> client.ledger().contains_key(account_keys@[i]),
    ensures
        (sim.units_consumed == 0 ==> (match sim.result {
            Err(e) => r == Err::<ExecutionEffect, ClientError>(ClientError::Transaction { error: e }),
            Ok(_) => false,
        })),
        (match r {
            Ok(eff) => {
                &&& sim.units_consumed != 0
                &&& eff.transaction == transaction
                &&& eff.result == sim.result
                &&& eff.logs == sim.logs
                &&& eff.compute_units_consumed == sim.units_consumed
                &&& eff.return_data == sim.return_data
                &&& eff.fee == fee
                &&& eff.post_accounts.entries_seq().len() == account_keys@.len()
                &&& forall|i: int|
                    0 <= i < account_keys@.len() ==> (#[trigger] eff.post_accounts.entries_seq()[i]).0
                        == account_keys@[i] && spec_opt_account_view(
                        eff.post_accounts.entries_seq()[i].1,
                    ) == spec_bank_post_value(
                        client.ledger(),
                        sim.post_simulation_accounts@,
                        account_keys@[i],
                    )
            },
            Err(_) => true,
        }),
        (r is Err ==> sim.units_consumed == 0 || exists|i: int|
            0 <= i < account_keys@.len() && spec_bank_needs_fresh_read(
                sim.post_simulation_accounts@,
                #[trigger] account_keys@[i],
            )),
{
    if sim.units_consumed == 0 {
        match sim.result {
            Err(error) => {
                return Err(ClientError::Transaction { error });
            },
            Ok(_) => {
                proof {
                    assert(false);
                }
                return Err(ClientError::BackendSpecific { error: crate::errors::BackendError::Custom });
            },
        }
    }
    let BankSimulationResult { result, logs, post_simulation_accounts, units_consumed, return_data }
        = sim;
    let system_owner = system_program_address();
    let mut entries: Vec<PostAccountEntry> = Vec::new();
    let mut i: usize = 0;
    while i < account_keys.len()
        invariant
            0 <= i <= account_keys@.len(),
            entries@.len() == i,
            forall|j: int|
                0 <= j < i ==> (#[trigger] entries@[j]).0 == account_keys@[j]
                    && spec_opt_account_view(entries@[j].1) == spec_bank_post_value(
                    client.ledger(),
                    post_simulation_accounts@,
                    account_keys@[j],
                ),
        decreases account_keys@.len() - i,
    {
        let key = account_keys[i];
        let snapshot_account = match snapshot_find(&post_simulation_accounts, &key) {
            Some(a) => a,
            None => {
                proof {
                    assert(false);
                }
                return Err(ClientError::AccountNotFound { address: key });
            },
        };
        if snapshot_account.is_empty_system_account(&system_owner) {
            entries.push((key, None));
        } else if snapshot_account.executable {
            match client.get_account(&key) {
                Err(e) => {
                    proof {
                        assert(spec_bank_needs_fresh_read(
                            post_simulation_accounts@,
                            account_keys@[i as int],
                        ));
                    }
                    return Err(e);
                },
                Ok(Some(full_account)) => {
                    entries.push((key, Some(full_account)));
                },
                Ok(None) => {
                    proof {
                        assert(false);
                    }
                    return Err(ClientError::AccountNotFound { address: key });
                },
            }
        } else {
            entries.push((key, Some(snapshot_account.clone())));
        }
        i = i + 1;
    }
    Ok(
        ExecutionEffect {
            transaction,
            result,
            logs,
            compute_units_consumed: units_consumed,
            return_data,
            fee,
            post_accounts: PostAccounts::new(entries),
        },
    )
}

} // verus!
