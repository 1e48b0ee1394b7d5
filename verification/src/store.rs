//! An in-memory ledger backend.
//!
//! Holds mutable local account state behind the full set of read and
//! write capabilities. Writes overwrite unconditionally; scans filter
//! and then sort, since entries are kept in insertion order.

use vstd::prelude::*;
use crate::account::{Account, AccountValue};
use crate::addr::{Address, BlockHash};
use crate::capability::{
    filters_allow, spec_account_read, spec_scan_selects, Client, GetAccount, GetLatestBlockhash,
    GetMinimumBalanceForRentExemption, GetMultipleAccounts, GetProgramAccounts,
    ProgramAccountsFilter, SetAccount,
};
use crate::errors::ClientError;
use crate::rent::{spec_minimum_balance, HasRent, Rent};
use crate::sort::{
    lemma_permutation_keeps_distinct_addresses, lemma_permutation_same_members,
    lemma_sorted_le_distinct_is_strict, sort_by_address,
};

verus! {

/// The map from address to account value held by a sequence of entries;
/// later entries shadow earlier ones.
pub open spec fn spec_entries_map(s: Seq<(Address, Account)>) -> Map<Address, AccountValue>
    decreases s.len(),
{
    if s.len() == 0 {
        Map::empty()
    } else {
        spec_entries_map(s.drop_last()).insert(s.last().0, s.last().1@)
    }
}

/// Entry sequences with pairwise distinct addresses represent their map
/// exactly: an address is present iff some entry holds it, and it maps
/// to that entry's account value.
pub proof fn lemma_entries_map_characterize(s: Seq<(Address, Account)>)
    requires
        forall|i: int, j: int| 0 <= i < j < s.len() ==> s[i].0 != s[j].0,
    ensures
        forall|k: Address|
            #[trigger] spec_entries_map(s).contains_key(k) <==> exists|i: int|
                0 <= i < s.len() && s[i].0 == k,
        forall|i: int|
            0 <= i < s.len() ==> spec_entries_map(s).contains_key((#[trigger] s[i]).0)
                && spec_entries_map(s)[s[i].0] == s[i].1@,
    decreases s.len(),
{
    if s.len() > 0 {
        let s0 = s.drop_last();
        let last = s.last();
        assert(forall|i: int| 0 <= i < s0.len() ==> s0[i] == s[i]);
        lemma_entries_map_characterize(s0);
        let m0 = spec_entries_map(s0);
        let m = spec_entries_map(s);
        assert(m == m0.insert(last.0, last.1@));
        assert forall|k: Address| #[trigger] m.contains_key(k) implies exists|i: int|
            0 <= i < s.len() && s[i].0 == k by {
            if k == last.0 {
                assert(s[s.len() - 1].0 == k);
            } else {
                assert(m0.contains_key(k));
                let i = choose|i: int| 0 <= i < s0.len() && s0[i].0 == k;
                assert(s[i].0 == k);
            }
        }
        assert forall|k: Address| (exists|i: int| 0 <= i < s.len() && s[i].0 == k) implies
            #[trigger] m.contains_key(k) by {
            let i = choose|i: int| 0 <= i < s.len() && s[i].0 == k;
            if i < s.len() - 1 {
                assert(s0[i].0 == k);
                assert(m0.contains_key(k));
            }
        }
        assert forall|i: int| 0 <= i < s.len() implies m.contains_key((#[trigger] s[i]).0)
            && m[s[i].0] == s[i].1@ by {
            if i < s.len() - 1 {
                assert(s[i].0 != last.0);
                assert(s0[i] == s[i]);
                assert(m0.contains_key(s0[i].0) && m0[s0[i].0] == s0[i].1@);
            }
        }
    }
}

/// An in-memory ledger: accounts, a latest blockhash and a rent
/// schedule, owned locally and mutable through the writer capability.
pub struct MemoryLedger {
    entries: Vec<(Address, Account)>,
    latest: BlockHash,
    schedule: Rent,
}

impl MemoryLedger {
    /// An empty ledger with the given blockhash and rent schedule.
    pub fn new(latest_blockhash: BlockHash, schedule: Rent) -> (r: MemoryLedger)
        ensures
            r.inv(),
            r.ledger() == Map::<Address, AccountValue>::empty(),
            r.current_blockhash() == latest_blockhash,
            r.rent_schedule() == schedule,
    {
        let r = MemoryLedger { entries: Vec::new(), latest: latest_blockhash, schedule };
        proof {
            assert(r.ledger() =~= Map::<Address, AccountValue>::empty());
        }
        r
    }
}

impl Client for MemoryLedger {
    /// Addresses in the entry list are pairwise distinct.
    closed spec fn inv(&self) -> bool {
        forall|i: int, j: int|
            0 <= i < j < self.entries@.len() ==> self.entries@[i].0 != self.entries@[j].0
    }

    closed spec fn ledger(&self) -> Map<Address, AccountValue> {
        spec_entries_map(self.entries@)
    }
}

impl GetAccount for MemoryLedger {
    /// The in-memory backend never fails a read.
    #[verifier::loop_isolation(false)]
    fn get_account(&self, address: &Address) -> (r: Result<Option<Account>, ClientError>)
        ensures
            r is Ok,
    {
        proof {
            lemma_entries_map_characterize(self.entries@);
        }
        let mut i: usize = 0;
        while i < self.entries.len()
            invariant
                0 <= i <= self.entries@.len(),
                forall|j: int| 0 <= j < i ==> self.entries@[j].0 != *address,
            decreases self.entries@.len() - i,
        {
            if self.entries[i].0 == *address {
                return Ok(Some(self.entries[i].1.clone()));
            }
            i = i + 1;
        }
        Ok(None)
    }
}

impl GetMultipleAccounts for MemoryLedger {
    #[verifier::loop_isolation(false)]
    fn get_multiple_accounts(&self, addresses: &Vec<Address>) -> (r: Result<
        Vec<Option<Account>>,
        ClientError,
    >)
        ensures
            r is Ok,
    {
        let mut out: Vec<Option<Account>> = Vec::new();
        let mut i: usize = 0;
        while i < addresses.len()
            invariant
                0 <= i <= addresses@.len(),
                out@.len() == i,
                forall|j: int|
                    0 <= j < i ==> spec_account_read(
                        self.ledger(),
                        addresses@[j],
                        #[trigger] out@[j],
                    ),
            decreases addresses@.len() - i,
        {
            match self.get_account(&addresses[i]) {
                Ok(account) => out.push(account),
                Err(e) => {
                    return Err(e);
                },
            }
            i = i + 1;
        }
        Ok(out)
    }
}

impl GetProgramAccounts for MemoryLedger {
    #[verifier::loop_isolation(false)]
    fn get_program_accounts(
        &self,
        program_id: &Address,
        filters: &Vec<ProgramAccountsFilter>,
    ) -> (r: Result<Vec<(Address, Account)>, ClientError>)
        ensures
            r is Ok,
    {
        proof {
            lemma_entries_map_characterize(self.entries@);
        }
        let ghost m = self.ledger();
        let mut matched: Vec<(Address, Account)> = Vec::new();
        let mut i: usize = 0;
        while i < self.entries.len()
            invariant
                0 <= i <= self.entries@.len(),
                forall|x: int|
                    0 <= x < matched@.len() ==> exists|j: int|
                        0 <= j < i && self.entries@[j].0 == (#[trigger] matched@[x]).0,
                forall|x: int|
                    0 <= x < matched@.len() ==> spec_scan_selects(
                        m,
                        *program_id,
                        filters@,
                        (#[trigger] matched@[x]).0,
                    ) && matched@[x].1@ == m[matched@[x].0],
                forall|j: int|
                    0 <= j < i && spec_scan_selects(m, *program_id, filters@, (
                    #[trigger] self.entries@[j]).0) ==> exists|x: int|
                        0 <= x < matched@.len() && matched@[x].0 == self.entries@[j].0,
                forall|x: int, y: int|
                    0 <= x < y < matched@.len() ==> matched@[x].0 != matched@[y].0,
            decreases self.entries@.len() - i,
        {
            let owner_matches = self.entries[i].1.owner == *program_id;
            let passes = owner_matches && filters_allow(filters, &self.entries[i].1);
            if passes {
                let entry = (self.entries[i].0, self.entries[i].1.clone());
                proof {
                    assert(m.contains_key(self.entries@[i as int].0));
                    assert(m[self.entries@[i as int].0] == self.entries@[i as int].1@);
                }
                let ghost old_matched = matched@;
                matched.push(entry);
                proof {
                    assert forall|j: int|
                        0 <= j < i + 1 && spec_scan_selects(m, *program_id, filters@, (
                        #[trigger] self.entries@[j]).0) implies exists|x: int|
                            0 <= x < matched@.len() && matched@[x].0 == self.entries@[j].0 by {
                        if j < i {
                            let x = choose|x: int|
                                0 <= x < old_matched.len() && old_matched[x].0
                                    == self.entries@[j].0;
                            assert(matched@[x].0 == self.entries@[j].0);
                        } else {
                            assert(matched@[matched@.len() - 1].0 == self.entries@[i as int].0);
                        }
                    }
                }
            } else {
                proof {
                    assert(m.contains_key(self.entries@[i as int].0));
                    assert(m[self.entries@[i as int].0] == self.entries@[i as int].1@);
                    assert(!spec_scan_selects(m, *program_id, filters@, self.entries@[i as int].0));
                }
            }
            i = i + 1;
        }
        let ghost before = matched@;
        let sorted = sort_by_address(matched);
        proof {
            lemma_permutation_same_members(before, sorted@);
            lemma_permutation_keeps_distinct_addresses(before, sorted@);
            lemma_sorted_le_distinct_is_strict(sorted@);
            assert forall|x: int| 0 <= x < sorted@.len() implies spec_scan_selects(
                m,
                *program_id,
                filters@,
                (#[trigger] sorted@[x]).0,
            ) && sorted@[x].1@ == m[sorted@[x].0] by {
                assert(sorted@.contains(sorted@[x]));
                assert(before.contains(sorted@[x]));
                let y = choose|y: int| 0 <= y < before.len() && before[y] == sorted@[x];
                assert(spec_scan_selects(m, *program_id, filters@, before[y].0));
            }
            assert forall|k: Address| #[trigger] spec_scan_selects(
                m,
                *program_id,
                filters@,
                k,
            ) implies exists|x: int| 0 <= x < sorted@.len() && (#[trigger] sorted@[x]).0 == k by {
                assert(m.contains_key(k));
                let j = choose|j: int| 0 <= j < self.entries@.len() && self.entries@[j].0 == k;
                let y = choose|y: int| 0 <= y < before.len() && before[y].0 == k;
                assert(before.contains(before[y]));
                assert(sorted@.contains(before[y]));
                let x = choose|x: int| 0 <= x < sorted@.len() && sorted@[x] == before[y];
                assert(sorted@[x].0 == k);
            }
        }
        Ok(sorted)
    }
}

impl SetAccount for MemoryLedger {
    #[verifier::loop_isolation(false)]
    fn set_account(&mut self, address: Address, account: Account) {
        let ghost s_old = self.entries@;
        let ghost m_old = self.ledger();
        proof {
            lemma_entries_map_characterize(s_old);
        }
        let n = self.entries.len();
        let mut i: usize = 0;
        let mut found_idx: usize = n;
        while i < n
            invariant
                0 <= i <= n,
                found_idx == n || (found_idx < i && s_old[found_idx as int].0 == address),
                found_idx == n ==> forall|j: int| 0 <= j < i ==> s_old[j].0 != address,
                self.entries@ == s_old,
            decreases n - i,
        {
            if found_idx == n && self.entries[i].0 == address {
                found_idx = i;
            }
            i = i + 1;
        }
        if found_idx < n {
            let _existing = self.entries.remove(found_idx);
            self.entries.push((address, account));
            proof {
                let t = self.entries@;
                assert(t.len() == s_old.len());
                assert forall|x: int| 0 <= x < t.len() - 1 implies t[x] == (if x < found_idx {
                    s_old[x]
                } else {
                    s_old[x + 1]
                }) by {}
                assert(t.last() == (address, account));
                assert forall|x: int, y: int| 0 <= x < y < t.len() implies t[x].0 != t[y].0 by {
                    if y < t.len() - 1 {
                        let xs: int = if x < found_idx {
                            x
                        } else {
                            x + 1
                        };
                        let ys: int = if y < found_idx {
                            y
                        } else {
                            y + 1
                        };
                        assert(t[x].0 == s_old[xs].0);
                        assert(t[y].0 == s_old[ys].0);
                    } else {
                        let xs: int = if x < found_idx {
                            x
                        } else {
                            x + 1
                        };
                        assert(t[x].0 == s_old[xs].0);
                        assert(xs != found_idx);
                        assert(s_old[xs].0 != s_old[found_idx as int].0);
                    }
                }
                lemma_entries_map_characterize(t);
                let m_new = spec_entries_map(t);
                let target = m_old.insert(address, account@);
                assert forall|k: Address| #[trigger] m_new.contains_key(k) implies
                    target.contains_key(k) && m_new[k] == target[k] by {
                    let x = choose|x: int| 0 <= x < t.len() && t[x].0 == k;
                    if x == t.len() - 1 {
                        assert(k == address);
                        assert(m_new[k] == account@);
                    } else {
                        let xs: int = if x < found_idx {
                            x
                        } else {
                            x + 1
                        };
                        assert(t[x] == s_old[xs]);
                        assert(k != address);
                        assert(m_old.contains_key(k) && m_old[k] == s_old[xs].1@);
                        assert(m_new[k] == t[x].1@);
                    }
                }
                assert forall|k: Address| #[trigger] target.contains_key(k) implies
                    m_new.contains_key(k) by {
                    if k == address {
                        assert(t[t.len() - 1].0 == k);
                    } else {
                        assert(m_old.contains_key(k));
                        let j = choose|j: int| 0 <= j < s_old.len() && s_old[j].0 == k;
                        assert(j != found_idx);
                        let x: int = if j < found_idx {
                            j
                        } else {
                            j - 1
                        };
                        assert(t[x] == s_old[j]);
                    }
                }
                assert(m_new =~= target);
            }
        } else {
            self.entries.push((address, account));
            proof {
                let t = self.entries@;
                assert(t.drop_last() =~= s_old);
                assert(spec_entries_map(t) == spec_entries_map(s_old).insert(address, account@));
                assert forall|x: int, y: int| 0 <= x < y < t.len() implies t[x].0 != t[y].0 by {
                    if y == t.len() - 1 {
                        assert(t[x] == s_old[x]);
                        assert(s_old[x].0 != address);
                    } else {
                        assert(t[x] == s_old[x]);
                        assert(t[y] == s_old[y]);
                    }
                }
            }
        }
    }
}

impl GetLatestBlockhash for MemoryLedger {
    closed spec fn current_blockhash(&self) -> BlockHash {
        self.latest
    }

    fn get_latest_blockhash(&self) -> (r: Result<BlockHash, ClientError>)
        ensures
            r is Ok,
    {
        Ok(self.latest)
    }
}

impl GetMinimumBalanceForRentExemption for MemoryLedger {
    fn get_minimum_balance_for_rent_exemption(&self, data_len: usize) -> (r: Result<
        u64,
        ClientError,
    >)
        ensures
            r matches Ok(v) && v == spec_minimum_balance(self.rent_schedule(), data_len as int),
    {
        Ok(self.schedule.minimum_balance(data_len))
    }
}

impl HasRent for MemoryLedger {
    closed spec fn rent_schedule(&self) -> Rent {
        self.schedule
    }

    fn rent(&self) -> (r: Rent) {
        self.schedule
    }
}

} // verus!
