//! The capability trait registry.
//!
//! Capabilities are narrow, independently composable views of a backend:
//! account read, multi-read, program scan, write, rent oracle, blockhash
//! oracle. No backend supports all of them identically, so callers bound
//! generic code by exactly the capabilities they use.
//!
//! Every capability is specified against one abstract piece of state: the
//! backend's ledger, a map from address to account value. A backend that
//! holds its state elsewhere (a remote endpoint) still has such a map in
//! the abstract; its implementations live outside this crate and are not
//! verified, but verified callers rely only on these contracts.

use vstd::prelude::*;
use crate::account::{Account, AccountValue};
use crate::addr::{spec_address_lt, Address, BlockHash};
use crate::errors::ClientError;

verus! {

/// The marker capability: a backend mediating access to a ledger.
///
/// The `ledger` spec function is the abstract state every other
/// capability's contract speaks of.
pub trait Client {
    /// The backend value's own validity condition; every capability
    /// method asks for it and every mutator preserves it. Backends
    /// without an internal invariant keep the default.
    open spec fn inv(&self) -> bool {
        true
    }

    /// The accounts this backend currently holds, by address. The
    /// default leaves the state abstract; backends whose state this
    /// crate can see refine it.
    open spec fn ledger(&self) -> Map<Address, AccountValue> {
        Map::empty()
    }
}

/// What a single-account read must return: the ledger's entry for the
/// address, or `None` exactly when the address is absent.
pub open spec fn spec_account_read(
    m: Map<Address, AccountValue>,
    address: Address,
    r: Option<Account>,
) -> bool {
    match r {
        Some(account) => m.contains_key(address) && account@ == m[address],
        None => !m.contains_key(address),
    }
}

/// Reading one account.
pub trait GetAccount: Client {
    /// Returns the account at `address`, or `None` if it does not exist.
    fn get_account(&self, address: &Address) -> (r: Result<Option<Account>, ClientError>)
        requires
            self.inv(),
        ensures
            (match r {
                Ok(account) => spec_account_read(self.ledger(), *address, account),
                Err(_) => true,
            }),
    ;
}

/// Reading many accounts in one request.
pub trait GetMultipleAccounts: Client + GetAccount {
    /// Returns one entry per requested address, in request order:
    /// element `i` is `None` exactly when address `i` is absent.
    fn get_multiple_accounts(&self, addresses: &Vec<Address>) -> (r: Result<
        Vec<Option<Account>>,
        ClientError,
    >)
        requires
            self.inv(),
        ensures
            (match r {
                Ok(accounts) => {
                    &&& accounts@.len() == addresses@.len()
                    &&& forall|i: int|
                        0 <= i < addresses@.len() ==> spec_account_read(
                            self.ledger(),
                            addresses@[i],
                            #[trigger] accounts@[i],
                        )
                },
                Err(_) => true,
            }),
    ;
}

/// A scan filter: either an exact data length, or equality of a byte
/// range of the account's data.
#[derive(Clone, Debug)]
pub enum ProgramAccountsFilter {
    /// The account's data must be exactly `size` bytes long.
    DataSize { size: u64 },
    /// The account's data must contain `bytes` at `offset`.
    MemcmpRange { offset: usize, bytes: Vec<u8> },
}

/// Whether one filter lets an account value through.
pub open spec fn spec_filter_allows(f: ProgramAccountsFilter, a: AccountValue) -> bool {
    match f {
        ProgramAccountsFilter::DataSize { size } => a.data.len() == size,
        ProgramAccountsFilter::MemcmpRange { offset, bytes } => {
            &&& offset + bytes@.len() <= a.data.len()
            &&& a.data.subrange(offset as int, offset + bytes@.len()) == bytes@
        },
    }
}

/// Whether every filter in a list lets an account value through.
pub open spec fn spec_filters_allow(fs: Seq<ProgramAccountsFilter>, a: AccountValue) -> bool {
    forall|i: int| 0 <= i < fs.len() ==> spec_filter_allows(#[trigger] fs[i], a)
}

/// Whether the ledger entry at `k` belongs in a scan of `program_id`
/// under `fs`.
pub open spec fn spec_scan_selects(
    m: Map<Address, AccountValue>,
    program_id: Address,
    fs: Seq<ProgramAccountsFilter>,
    k: Address,
) -> bool {
    m.contains_key(k) && m[k].owner == program_id && spec_filters_allow(fs, m[k])
}

/// Whether a sequence of keyed accounts is strictly sorted by address.
pub open spec fn spec_sorted_by_address(s: Seq<(Address, Account)>) -> bool {
    forall|i: int, j: int| 0 <= i < j < s.len() ==> spec_address_lt(s[i].0, s[j].0)
}

impl ProgramAccountsFilter {
    /// Whether this filter lets `account` through.
    pub fn allows(&self, account: &Account) -> (r: bool)
        ensures
            r == spec_filter_allows(*self, account@),
    {
        match self {
            ProgramAccountsFilter::DataSize { size } => account.data.len() as u64 == *size,
            ProgramAccountsFilter::MemcmpRange { offset, bytes } => {
                if *offset > account.data.len() || bytes.len() > account.data.len() - *offset {
                    proof {
                        assert(offset + bytes@.len() > account@.data.len());
                    }
                    false
                } else {
                    let ghost o = *offset as int;
                    let ghost n = bytes@.len() as int;
                    let mut i: usize = 0;
                    let mut matches = true;
                    while i < bytes.len()
                        invariant
                            0 <= i <= bytes@.len(),
                            o == *offset as int,
                            n == bytes@.len() as int,
                            o + n <= account@.data.len(),
                            o + n <= usize::MAX,
                            matches == (forall|j: int|
                                0 <= j < i ==> account@.data[o + j] == bytes@[j]),
                        decreases bytes@.len() - i,
                    {
                        let same = account.data[*offset + i] == bytes[i];
                        proof {
                            if matches && same {
                                assert(forall|j: int|
                                    0 <= j < i + 1 ==> account@.data[o + j] == bytes@[j]);
                            }
                        }
                        matches = matches && same;
                        i = i + 1;
                    }
                    proof {
                        let sub = account@.data.subrange(o, o + n);
                        if matches {
                            assert(sub =~= bytes@);
                        } else {
                            let j = choose|j: int|
                                0 <= j < n && account@.data[o + j] != bytes@[j];
                            assert(sub[j] == account@.data[o + j]);
                            assert(sub != bytes@);
                        }
                    }
                    matches
                }
            },
        }
    }
}

/// Whether every filter in `filters` lets `account` through.
pub fn filters_allow(filters: &Vec<ProgramAccountsFilter>, account: &Account) -> (r: bool)
    ensures
        r == spec_filters_allow(filters@, account@),
{
    let mut i: usize = 0;
    let mut ok = true;
    while i < filters.len()
        invariant
            0 <= i <= filters@.len(),
            ok == (forall|k: int| 0 <= k < i ==> spec_filter_allows(#[trigger] filters@[k], account@)),
        decreases filters@.len() - i,
    {
        let allowed = filters[i].allows(account);
        proof {
            if ok && allowed {
                assert(forall|k: int|
                    0 <= k < i + 1 ==> spec_filter_allows(#[trigger] filters@[k], account@));
            }
        }
        ok = ok && allowed;
        i = i + 1;
    }
    ok
}

/// Scanning every account owned by one program.
pub trait GetProgramAccounts: Client + GetAccount {
    /// Returns every account owned by `program_id` that passes all of
    /// `filters`, sorted strictly by address — regardless of how the
    /// backend indexes accounts internally.
    fn get_program_accounts(
        &self,
        program_id: &Address,
        filters: &Vec<ProgramAccountsFilter>,
    ) -> (r: Result<Vec<(Address, Account)>, ClientError>)
        requires
            self.inv(),
        ensures
            (match r {
                Ok(found) => {
                    &&& spec_sorted_by_address(found@)
                    &&& forall|i: int|
                        0 <= i < found@.len() ==> spec_scan_selects(
                            self.ledger(),
                            *program_id,
                            filters@,
                            (#[trigger] found@[i]).0,
                        ) && found@[i].1@ == self.ledger()[found@[i].0]
                    &&& forall|k: Address|
                        #[trigger] spec_scan_selects(self.ledger(), *program_id, filters@, k)
                            ==> exists|i: int| 0 <= i < found@.len() && (#[trigger] found@[i]).0 == k
                },
                Err(_) => true,
            }),
    ;
}

/// Writing one account into a backend that holds mutable local state.
pub trait SetAccount: Client {
    /// Overwrites the account at `address` unconditionally.
    fn set_account(&mut self, address: Address, account: Account)
        requires
            old(self).inv(),
        ensures
            final(self).inv(),
            final(self).ledger() == old(self).ledger().insert(address, account@),
    ;
}

/// The rent oracle.
pub trait GetMinimumBalanceForRentExemption: Client {
    /// The minimum balance exempting an account of `data_len` data bytes
    /// from rent; at least 1.
    fn get_minimum_balance_for_rent_exemption(&self, data_len: usize) -> (r: Result<
        u64,
        ClientError,
    >)
        requires
            self.inv(),
        ensures
            (match r {
                Ok(v) => v >= 1,
                Err(_) => true,
            }),
    ;
}

/// Round trip through the writer and reader capabilities: after
/// writing `account` at `address` into a ledger — which the writer
/// contract says produces `m.insert(address, account)` — any read of
/// `address` that meets the reader contract yields an account equal to
/// the written one in every field.
pub proof fn lemma_write_then_read_round_trip(
    m: Map<Address, AccountValue>,
    address: Address,
    account: AccountValue,
)
    ensures
        forall|r: Option<Account>|
            spec_account_read(m.insert(address, account), address, r) ==> (match r {
                Some(read_back) => read_back@ == account,
                None => false,
            }),
{
}

/// The blockhash oracle.
pub trait GetLatestBlockhash: Client {
    /// The backend's latest blockhash, as an abstract observation.
    open spec fn current_blockhash(&self) -> BlockHash {
        BlockHash { hi: 0, lo: 0 }
    }

    /// Returns the latest blockhash.
    fn get_latest_blockhash(&self) -> (r: Result<BlockHash, ClientError>)
        requires
            self.inv(),
        ensures
            (match r {
                Ok(h) => h == self.current_blockhash(),
                Err(_) => true,
            }),
    ;
}

} // verus!
