//! The canonical execution result model.
//!
//! Every backend adapter normalizes its native result shape into these
//! types: an outcome (result, logs, compute units, return data, fee),
//! and an effect, which adds the ordered mapping from every account key
//! referenced by the sanitized transaction to its optional
//! post-execution account — `None` meaning the account no longer
//! exists.

use vstd::prelude::*;
use crate::account::{Account, AccountValue};
use crate::addr::Address;
use crate::errors::{InstructionFailure, TransactionError};
use crate::sanitize::spec_opt_account_view;
use crate::transaction::VersionedTransaction;

verus! {

/// Data returned by the executed program, if any.
#[derive(Debug)]
pub struct ReturnData {
    /// The program that set the return data.
    pub program_id: Address,
    /// The returned bytes.
    pub data: Vec<u8>,
}

/// A post-execution account entry: the key, and the account's state
/// after execution (`None` when it no longer exists).
pub type PostAccountEntry = (Address, Option<Account>);

/// The view of one post-account entry.
pub open spec fn spec_post_entry_view(e: PostAccountEntry) -> (Address, Option<AccountValue>) {
    (e.0, spec_opt_account_view(e.1))
}

/// First-match lookup in a post-account list: `None` when the key is
/// absent, `Some(state)` for the first entry holding the key.
pub open spec fn spec_post_lookup(s: Seq<PostAccountEntry>, k: Address) -> Option<
    Option<AccountValue>,
>
    decreases s.len(),
{
    if s.len() == 0 {
        None
    } else if s[0].0 == k {
        Some(spec_opt_account_view(s[0].1))
    } else {
        spec_post_lookup(s.drop_first(), k)
    }
}

/// The reasons a post-account lookup can fail.
#[derive(Clone, Copy, PartialEq, Eq, Structural, Debug)]
pub enum PostAccountsError {
    /// The key is not referenced by the sanitized transaction at all.
    AccountNotFound { address: Address },
    /// The key is referenced, but the account no longer exists.
    AccountClosed { address: Address },
}

/// The ordered post-execution account set.
#[derive(Debug)]
pub struct PostAccounts {
    entries: Vec<PostAccountEntry>,
}

impl PostAccounts {
    /// The entries, in order.
    pub closed spec fn entries_seq(&self) -> Seq<PostAccountEntry> {
        self.entries@
    }

    /// Wraps an ordered entry list.
    pub fn new(entries: Vec<PostAccountEntry>) -> (r: PostAccounts)
        ensures
            r.entries_seq() == entries@,
    {
        PostAccounts { entries }
    }

    /// How many account keys the set maps.
    pub fn len(&self) -> (r: usize)
        ensures
            r == self.entries_seq().len(),
    {
        self.entries.len()
    }

    /// Whether the set maps no keys.
    pub fn is_empty(&self) -> (r: bool)
        ensures
            r == (self.entries_seq().len() == 0),
    {
        self.entries.len() == 0
    }

    /// Three-state lookup: key absent, key present but account gone, or
    /// key present with its account.
    #[verifier::loop_isolation(false)]
    pub fn try_get_account(&self, address: &Address) -> (r: Result<&Account, PostAccountsError>)
        ensures
            (match r {
                Ok(a) => spec_post_lookup(self.entries_seq(), *address) == Some(Some(a@)),
                Err(PostAccountsError::AccountClosed { address: a }) => a == *address
                    && spec_post_lookup(self.entries_seq(), *address) == Some(
                    None::<AccountValue>,
                ),
                Err(PostAccountsError::AccountNotFound { address: a }) => a == *address
                    && spec_post_lookup(self.entries_seq(), *address) is None,
            }),
    {
        let n = self.entries.len();
        proof {
            assert(self.entries@.subrange(0, n as int) =~= self.entries@);
        }
        let mut i: usize = 0;
        while i < n
            invariant
                0 <= i <= n,
                n == self.entries@.len(),
                spec_post_lookup(self.entries@, *address) == spec_post_lookup(
                    self.entries@.subrange(i as int, n as int),
                    *address,
                ),
            decreases n - i,
        {
            proof {
                assert(self.entries@.subrange(i as int, n as int).drop_first()
                    =~= self.entries@.subrange(i as int + 1, n as int));
                assert(self.entries@.subrange(i as int, n as int)[0] == self.entries@[i as int]);
            }
            if self.entries[i].0 == *address {
                match &self.entries[i].1 {
                    Some(account) => {
                        return Ok(account);
                    },
                    None => {
                        return Err(PostAccountsError::AccountClosed { address: *address });
                    },
                }
            }
            i = i + 1;
        }
        Err(PostAccountsError::AccountNotFound { address: *address })
    }

    /// Lookup that flattens "absent" and "gone" into `None`.
    pub fn get_account(&self, address: &Address) -> (r: Option<&Account>)
        ensures
            (match r {
                Some(a) => spec_post_lookup(self.entries_seq(), *address) == Some(Some(a@)),
                None => spec_post_lookup(self.entries_seq(), *address) matches Some(v) ==> v
                    is None,
            }),
    {
        match self.try_get_account(address) {
            Ok(account) => Some(account),
            Err(_) => None,
        }
    }

    /// The entry at one position.
    pub fn entry_at(&self, i: usize) -> (r: &PostAccountEntry)
        requires
            i < self.entries_seq().len(),
        ensures
            *r == self.entries_seq()[i as int],
    {
        &self.entries[i]
    }
}

/// The canonical result of submitting or simulating a transaction.
#[derive(Debug)]
pub struct ExecutionOutput {
    /// The transaction that was executed.
    pub transaction: VersionedTransaction,
    /// The ledger's verdict; an error is passed through verbatim.
    pub result: Result<(), TransactionError>,
    /// The execution log lines.
    pub logs: Vec<String>,
    /// Metered execution cost; never 0 for an executed transaction.
    pub compute_units_consumed: u64,
    /// Data returned by the executed program, if any.
    pub return_data: Option<ReturnData>,
    /// The fee paid, in balance units.
    pub fee: u64,
}

impl ExecutionOutput {
    /// Whether the ledger accepted the transaction.
    pub fn is_success(&self) -> (r: bool)
        ensures
            r == (self.result is Ok),
    {
        self.result.is_ok()
    }

    /// Passes the output through on success, or surfaces the
    /// transaction error.
    pub fn try_success(self) -> (r: Result<ExecutionOutput, TransactionError>)
        ensures
            (match r {
                Ok(o) => self.result is Ok && o == self,
                Err(e) => self.result == Err::<(), TransactionError>(e),
            }),
    {
        match self.result {
            Ok(_) => Ok(self),
            Err(e) => Err(e),
        }
    }

    /// The transaction's identifying signature.
    pub fn signature(&self) -> (r: crate::addr::Signature)
        requires
            self.transaction.signatures@.len() > 0,
        ensures
            r == self.transaction.signatures@[0],
    {
        self.transaction.signature()
    }
}

/// An execution outcome together with the post-execution account set.
#[derive(Debug)]
pub struct ExecutionEffect {
    pub transaction: VersionedTransaction,
    pub result: Result<(), TransactionError>,
    pub logs: Vec<String>,
    pub compute_units_consumed: u64,
    pub return_data: Option<ReturnData>,
    pub fee: u64,
    /// One entry per account key of the sanitized transaction.
    pub post_accounts: PostAccounts,
}

impl ExecutionEffect {
    /// Whether the ledger accepted the transaction.
    pub fn is_success(&self) -> (r: bool)
        ensures
            r == (self.result is Ok),
    {
        self.result.is_ok()
    }

    /// Three-state post-account lookup; see
    /// [`PostAccounts::try_get_account`].
    pub fn get_post_account(&self, address: &Address) -> (r: Option<Option<&Account>>)
        ensures
            (match r {
                Some(Some(a)) => spec_post_lookup(self.post_accounts.entries_seq(), *address)
                    == Some(Some(a@)),
                Some(None) => spec_post_lookup(self.post_accounts.entries_seq(), *address)
                    == Some(None::<AccountValue>),
                None => spec_post_lookup(self.post_accounts.entries_seq(), *address) is None,
            }),
    {
        match self.post_accounts.try_get_account(address) {
            Ok(account) => Some(Some(account)),
            Err(PostAccountsError::AccountClosed { .. }) => Some(None),
            Err(PostAccountsError::AccountNotFound { .. }) => None,
        }
    }

    /// The program-defined numeric error code, when the failure is a
    /// custom instruction error.
    pub fn custom_error_code(&self) -> (r: Option<u32>)
        ensures
            r == (match self.result {
                Err(
                    TransactionError::InstructionError {
                        failure: InstructionFailure::Custom { code },
                        ..
                    },
                ) => Some(code),
                _ => None::<u32>,
            }),
    {
        match &self.result {
            Err(
                TransactionError::InstructionError {
                    failure: InstructionFailure::Custom { code }, ..
                },
            ) => Some(*code),
            _ => None,
        }
    }

    /// Drops the post-account set, keeping the outcome.
    pub fn into_output(self) -> (r: ExecutionOutput)
        ensures
            r.transaction == self.transaction,
            r.result == self.result,
            r.logs == self.logs,
            r.compute_units_consumed == self.compute_units_consumed,
            r.return_data == self.return_data,
            r.fee == self.fee,
    {
        let ExecutionEffect {
            transaction,
            result,
            logs,
            compute_units_consumed,
            return_data,
            fee,
            post_accounts: _,
        } = self;
        ExecutionOutput { transaction, result, logs, compute_units_consumed, return_data, fee }
    }
}

impl vstd::std_specs::convert::FromSpecImpl<ExecutionEffect> for ExecutionOutput {
    open spec fn obeys_from_spec() -> bool {
        true
    }

    open spec fn from_spec(e: ExecutionEffect) -> ExecutionOutput {
        ExecutionOutput {
            transaction: e.transaction,
            result: e.result,
            logs: e.logs,
            compute_units_consumed: e.compute_units_consumed,
            return_data: e.return_data,
            fee: e.fee,
        }
    }
}

impl From<ExecutionEffect> for ExecutionOutput {
    /// Drops the post-account set, keeping the outcome.
    fn from(effect: ExecutionEffect) -> (r: ExecutionOutput) {
        effect.into_output()
    }
}

} // verus!
