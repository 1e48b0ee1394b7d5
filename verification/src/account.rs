//! The account value model.
//!
//! An account is an immutable snapshot of ledger state: an owning program,
//! a balance in lamport-equivalent units, raw data bytes, an executable
//! flag and a rent epoch. Backends own the authoritative copy; this crate
//! only projects it.

use vstd::prelude::*;
use crate::addr::Address;

verus! {

/// An account snapshot.
#[derive(Debug)]
pub struct Account {
    /// Balance in lamport-equivalent units.
    pub lamports: u64,
    /// Raw account data bytes.
    pub data: Vec<u8>,
    /// The owning program's address.
    pub owner: Address,
    /// Whether the account holds an executable program.
    pub executable: bool,
    /// The rent epoch recorded for the account.
    pub rent_epoch: u64,
}

/// The mathematical value of an account: every field, with the data as a
/// byte sequence.
pub struct AccountValue {
    pub lamports: u64,
    pub data: Seq<u8>,
    pub owner: Address,
    pub executable: bool,
    pub rent_epoch: u64,
}

impl View for Account {
    type V = AccountValue;

    open spec fn view(&self) -> AccountValue {
        AccountValue {
            lamports: self.lamports,
            data: self.data@,
            owner: self.owner,
            executable: self.executable,
            rent_epoch: self.rent_epoch,
        }
    }
}

impl Clone for Account {
    /// Clones the snapshot; the copy has the same value in every field.
    fn clone(&self) -> (r: Account)
        ensures
            r@ == self@,
    {
        Account {
            lamports: self.lamports,
            data: vstd::slice::slice_to_vec(self.data.as_slice()),
            owner: self.owner,
            executable: self.executable,
            rent_epoch: self.rent_epoch,
        }
    }
}

impl Account {
    /// True when the account is indistinguishable from an account that
    /// does not exist: owned by `system_owner`, empty and unfunded.
    /// Backends normalize such post-execution snapshots to "closed".
    pub fn is_empty_system_account(&self, system_owner: &Address) -> (r: bool)
        ensures
            r == spec_is_empty_system_account(self@, *system_owner),
    {
        self.owner == *system_owner && self.data.len() == 0 && self.lamports == 0
    }
}

/// See [`Account::is_empty_system_account`].
pub open spec fn spec_is_empty_system_account(a: AccountValue, system_owner: Address) -> bool {
    a.owner == system_owner && a.data.len() == 0 && a.lamports == 0
}

} // verus!
