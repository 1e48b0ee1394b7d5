//! The transaction sanitizer.
//!
//! Resolves a compiled transaction's compressed address-table references
//! into a fully expanded account key list, using the on-chain lookup
//! table state and the slot-hash history fetched through the reader
//! capability. Any consumer needing full account identities replays
//! this resolution deterministically and gets the same ordering the
//! execution engine itself uses.

use vstd::prelude::*;
use vstd::slice::slice_to_vec;
use crate::account::{Account, AccountValue};
use crate::addr::Address;
use crate::capability::{spec_account_read, Client, GetMultipleAccounts};
use crate::errors::{AddressLookupError, ClientError};
use crate::lookup::{
    deserialize_lookup_table, lookup_table_program_address, parse_slot_hashes,
    slot_hashes_sysvar_address, spec_lookup_table_program_address, spec_slot_hashes_of,
    spec_slot_hashes_sysvar_address, spec_slot_hashes_valid, spec_table_of, spec_table_usable,
    spec_table_valid, table_usable,
};
use crate::addr::BlockHash;
use crate::transaction::{LookupTableReference, SanitizedTransaction, VersionedTransaction};

verus! {

/// Resolving an index list against a table's addresses: every index
/// must fall inside the table; the result keeps list order.
pub open spec fn spec_resolve_indexes(idxs: Seq<u8>, addrs: Seq<Address>) -> Option<Seq<Address>> {
    if forall|k: int| 0 <= k < idxs.len() ==> (#[trigger] idxs[k]) < addrs.len() {
        Some(Seq::new(idxs.len(), |k: int| addrs[idxs[k] as int]))
    } else {
        None
    }
}

/// Resolving one table reference against the fetched table account:
/// the account must exist, be owned by the lookup-table program, hold
/// well-formed table bytes, and still be usable at the reference slot;
/// then both index lists must resolve.
pub open spec fn spec_resolve_one(
    reference: LookupTableReference,
    table_account: Option<AccountValue>,
    sh: Seq<(u64, BlockHash)>,
    current_slot: u64,
) -> Result<(Seq<Address>, Seq<Address>), AddressLookupError> {
    match table_account {
        None => Err(AddressLookupError::TableNotFound),
        Some(a) => {
            if a.owner != spec_lookup_table_program_address() {
                Err(AddressLookupError::WrongOwner)
            } else if !spec_table_valid(a.data) {
                Err(AddressLookupError::CorruptData)
            } else {
                let t = spec_table_of(a.data);
                if !spec_table_usable(t, sh, current_slot) {
                    Err(AddressLookupError::TableNotFound)
                } else {
                    match (
                        spec_resolve_indexes(reference.writable_indexes@, t.addresses),
                        spec_resolve_indexes(reference.readonly_indexes@, t.addresses),
                    ) {
                        (Some(w), Some(r)) => Ok((w, r)),
                        _ => Err(AddressLookupError::IndexOutOfRange),
                    }
                }
            }
        },
    }
}

/// Resolving every table reference, in reference order; the first
/// failing table determines the error. On success the writable
/// resolutions of all tables are concatenated in table order, and the
/// read-only resolutions likewise.
pub open spec fn spec_resolve_tables(
    lookups: Seq<LookupTableReference>,
    tables: Seq<Option<AccountValue>>,
    sh: Seq<(u64, BlockHash)>,
    current_slot: u64,
) -> Result<(Seq<Address>, Seq<Address>), AddressLookupError>
    recommends
        lookups.len() == tables.len(),
    decreases lookups.len(),
{
    if lookups.len() == 0 {
        Ok((Seq::empty(), Seq::empty()))
    } else {
        match spec_resolve_tables(lookups.drop_last(), tables.drop_last(), sh, current_slot) {
            Err(e) => Err(e),
            Ok(wr) => match spec_resolve_one(lookups.last(), tables.last(), sh, current_slot) {
                Err(e) => Err(e),
                Ok(wr1) => Ok((wr.0 + wr1.0, wr.1 + wr1.1)),
            },
        }
    }
}

/// Once some prefix of the tables fails, the whole resolution fails
/// with that same error.
pub proof fn lemma_resolve_tables_prefix_error(
    lookups: Seq<LookupTableReference>,
    tables: Seq<Option<AccountValue>>,
    sh: Seq<(u64, BlockHash)>,
    current_slot: u64,
    j: int,
)
    requires
        lookups.len() == tables.len(),
        0 <= j <= lookups.len(),
        spec_resolve_tables(lookups.subrange(0, j), tables.subrange(0, j), sh, current_slot) is Err,
    ensures
        spec_resolve_tables(lookups, tables, sh, current_slot) == spec_resolve_tables(
            lookups.subrange(0, j),
            tables.subrange(0, j),
            sh,
            current_slot,
        ),
    decreases lookups.len() - j,
{
    if j == lookups.len() {
        assert(lookups.subrange(0, j) =~= lookups);
        assert(tables.subrange(0, j) =~= tables);
    } else {
        assert(lookups.subrange(0, j + 1).drop_last() =~= lookups.subrange(0, j));
        assert(tables.subrange(0, j + 1).drop_last() =~= tables.subrange(0, j));
        lemma_resolve_tables_prefix_error(lookups, tables, sh, current_slot, j + 1);
    }
}

/// The account values fetched for each table reference, as the ledger
/// determines them.
pub open spec fn spec_ledger_tables(
    m: Map<Address, AccountValue>,
    lookups: Seq<LookupTableReference>,
) -> Seq<Option<AccountValue>> {
    Seq::new(
        lookups.len(),
        |i: int|
            if m.contains_key(lookups[i].table_address) {
                Some(m[lookups[i].table_address])
            } else {
                None
            },
    )
}

/// The account value the ledger holds at `address`, if any.
pub open spec fn spec_ledger_account(
    m: Map<Address, AccountValue>,
    address: Address,
) -> Option<AccountValue> {
    if m.contains_key(address) {
        Some(m[address])
    } else {
        None
    }
}

/// The view of one fetched account.
pub open spec fn spec_opt_account_view(o: Option<Account>) -> Option<AccountValue> {
    match o {
        Some(a) => Some(a@),
        None => None,
    }
}

/// The views of a fetched account list.
pub open spec fn spec_account_views(s: Seq<Option<Account>>) -> Seq<Option<AccountValue>> {
    Seq::new(s.len(), |i: int| spec_opt_account_view(s[i]))
}

/// The whole sanitization, as a function of the transaction, the
/// fetched table accounts, the fetched slot-hash history account and
/// the reference slot. A transaction without table references needs no
/// fetched state and always sanitizes to its static keys. Otherwise
/// the slot-hash history account must exist and parse, every table must
/// resolve, and the key list is the static keys, then all writable
/// resolutions (tables in reference order), then all read-only
/// resolutions (tables in reference order).
pub open spec fn spec_sanitize_keys(
    tx: VersionedTransaction,
    tables: Seq<Option<AccountValue>>,
    sh_account: Option<AccountValue>,
    current_slot: u64,
) -> Result<Seq<Address>, ClientError>
    recommends
        tables.len() == tx.lookups@.len(),
{
    if tx.lookups@.len() == 0 {
        Ok(tx.static_keys@)
    } else {
        match sh_account {
            None => Err(
                ClientError::AccountNotFound { address: spec_slot_hashes_sysvar_address() },
            ),
            Some(a) => {
                if !spec_slot_hashes_valid(a.data) {
                    Err(
                        ClientError::AccountDeserializeFailed {
                            address: spec_slot_hashes_sysvar_address(),
                        },
                    )
                } else {
                    match spec_resolve_tables(
                        tx.lookups@,
                        tables,
                        spec_slot_hashes_of(a.data),
                        current_slot,
                    ) {
                        Err(e) => Err(ClientError::AddressLookup { error: e }),
                        Ok(wr) => Ok(tx.static_keys@ + wr.0 + wr.1),
                    }
                }
            },
        }
    }
}

/// Resolves one index list against a table's address array.
#[verifier::loop_isolation(false)]
fn resolve_indexes(idxs: &Vec<u8>, addrs: &Vec<Address>) -> (r: Option<Vec<Address>>)
    ensures
        (match r {
            Some(v) => spec_resolve_indexes(idxs@, addrs@) == Some(v@),
            None => spec_resolve_indexes(idxs@, addrs@) is None,
        }),
{
    let mut out: Vec<Address> = Vec::new();
    let mut k: usize = 0;
    while k < idxs.len()
        invariant
            0 <= k <= idxs@.len(),
            out@.len() == k,
            forall|j: int| 0 <= j < k ==> (#[trigger] idxs@[j]) < addrs@.len(),
            forall|j: int| 0 <= j < k ==> out@[j] == addrs@[idxs@[j] as int],
        decreases idxs@.len() - k,
    {
        let idx = idxs[k] as usize;
        if idx >= addrs.len() {
            proof {
                assert(idxs@[k as int] >= addrs@.len());
            }
            return None;
        }
        out.push(addrs[idx]);
        k = k + 1;
    }
    proof {
        let target = Seq::new(idxs@.len(), |j: int| addrs@[idxs@[j] as int]);
        assert(out@ =~= target);
    }
    Some(out)
}

/// Resolves a transaction's full account key list from the fetched
/// table accounts and slot-hash history account: the verified core of
/// sanitization, exact in both its success and its failure cases.
#[verifier::loop_isolation(false)]
pub fn resolve_transaction_keys(
    transaction: VersionedTransaction,
    table_accounts: &Vec<Option<Account>>,
    slot_hashes_account: &Option<Account>,
    current_slot: u64,
) -> (r: Result<SanitizedTransaction, ClientError>)
    requires
        table_accounts@.len() == transaction.lookups@.len(),
    ensures
        (match r {
            Ok(st) => {
                &&& st.transaction == transaction
                &&& spec_sanitize_keys(
                    transaction,
                    spec_account_views(table_accounts@),
                    spec_opt_account_view(*slot_hashes_account),
                    current_slot,
                ) == Ok::<Seq<Address>, ClientError>(st.account_keys@)
            },
            Err(e) => spec_sanitize_keys(
                transaction,
                spec_account_views(table_accounts@),
                spec_opt_account_view(*slot_hashes_account),
                current_slot,
            ) == Err::<Seq<Address>, ClientError>(e),
        }),
{
    let ghost tables = spec_account_views(table_accounts@);
    let ghost sh_view = spec_opt_account_view(*slot_hashes_account);
    if transaction.lookups.len() == 0 {
        let account_keys = slice_to_vec(transaction.static_keys.as_slice());
        return Ok(SanitizedTransaction { transaction, account_keys });
    }
    let slot_hashes_data = match slot_hashes_account {
        None => {
            return Err(
                ClientError::AccountNotFound { address: slot_hashes_sysvar_address() },
            );
        },
        Some(a) => &a.data,
    };
    let slot_hashes = match parse_slot_hashes(slot_hashes_data) {
        None => {
            return Err(
                ClientError::AccountDeserializeFailed { address: slot_hashes_sysvar_address() },
            );
        },
        Some(sh) => sh,
    };
    let ghost sh = spec_slot_hashes_of(sh_view.unwrap().data);
    let table_program = lookup_table_program_address();
    let mut writable: Vec<Address> = Vec::new();
    let mut readonly: Vec<Address> = Vec::new();
    let mut i: usize = 0;
    while i < transaction.lookups.len()
        invariant
            0 <= i <= transaction.lookups@.len(),
            spec_resolve_tables(
                transaction.lookups@.subrange(0, i as int),
                tables.subrange(0, i as int),
                sh,
                current_slot,
            ) == Ok::<(Seq<Address>, Seq<Address>), AddressLookupError>((writable@, readonly@)),
        decreases transaction.lookups@.len() - i,
    {
        let ghost prefix_l = transaction.lookups@.subrange(0, i as int);
        let ghost prefix_t = tables.subrange(0, i as int);
        let ghost next_l = transaction.lookups@.subrange(0, i as int + 1);
        let ghost next_t = tables.subrange(0, i as int + 1);
        proof {
            assert(next_l.drop_last() =~= prefix_l);
            assert(next_t.drop_last() =~= prefix_t);
            assert(next_l.last() == transaction.lookups@[i as int]);
            assert(next_t.last() == tables[i as int]);
        }
        let reference = &transaction.lookups[i];
        let ghost one = spec_resolve_one(
            transaction.lookups@[i as int],
            tables[i as int],
            sh,
            current_slot,
        );
        let table_account = match &table_accounts[i] {
            None => {
                proof {
                    lemma_resolve_tables_prefix_error(
                        transaction.lookups@,
                        tables,
                        sh,
                        current_slot,
                        i as int + 1,
                    );
                }
                return Err(
                    ClientError::AddressLookup { error: AddressLookupError::TableNotFound },
                );
            },
            Some(a) => a,
        };
        if !(table_account.owner == table_program) {
            proof {
                lemma_resolve_tables_prefix_error(
                    transaction.lookups@,
                    tables,
                    sh,
                    current_slot,
                    i as int + 1,
                );
            }
            return Err(ClientError::AddressLookup { error: AddressLookupError::WrongOwner });
        }
        let table = match deserialize_lookup_table(&table_account.data) {
            None => {
                proof {
                    lemma_resolve_tables_prefix_error(
                        transaction.lookups@,
                        tables,
                        sh,
                        current_slot,
                        i as int + 1,
                    );
                }
                return Err(
                    ClientError::AddressLookup { error: AddressLookupError::CorruptData },
                );
            },
            Some(t) => t,
        };
        if !table_usable(&table, &slot_hashes, current_slot) {
            proof {
                lemma_resolve_tables_prefix_error(
                    transaction.lookups@,
                    tables,
                    sh,
                    current_slot,
                    i as int + 1,
                );
            }
            return Err(ClientError::AddressLookup { error: AddressLookupError::TableNotFound });
        }
        let mut resolved_writable = match resolve_indexes(
            &reference.writable_indexes,
            &table.addresses,
        ) {
            None => {
                proof {
                    lemma_resolve_tables_prefix_error(
                        transaction.lookups@,
                        tables,
                        sh,
                        current_slot,
                        i as int + 1,
                    );
                }
                return Err(
                    ClientError::AddressLookup { error: AddressLookupError::IndexOutOfRange },
                );
            },
            Some(v) => v,
        };
        let mut resolved_readonly = match resolve_indexes(
            &reference.readonly_indexes,
            &table.addresses,
        ) {
            None => {
                proof {
                    lemma_resolve_tables_prefix_error(
                        transaction.lookups@,
                        tables,
                        sh,
                        current_slot,
                        i as int + 1,
                    );
                }
                return Err(
                    ClientError::AddressLookup { error: AddressLookupError::IndexOutOfRange },
                );
            },
            Some(v) => v,
        };
        writable.append(&mut resolved_writable);
        readonly.append(&mut resolved_readonly);
        i = i + 1;
    }
    proof {
        assert(transaction.lookups@.subrange(0, transaction.lookups@.len() as int)
            =~= transaction.lookups@);
        assert(tables.subrange(0, transaction.lookups@.len() as int) =~= tables);
    }
    let mut account_keys = slice_to_vec(transaction.static_keys.as_slice());
    let ghost w = writable@;
    let ghost ro = readonly@;
    account_keys.append(&mut writable);
    account_keys.append(&mut readonly);
    proof {
        assert(account_keys@ =~= transaction.static_keys@ + w + ro);
    }
    Ok(SanitizedTransaction { transaction, account_keys })
}

/// The writable indexes referenced across all table references.
pub open spec fn spec_total_writable(lookups: Seq<LookupTableReference>) -> int
    decreases lookups.len(),
{
    if lookups.len() == 0 {
        0
    } else {
        spec_total_writable(lookups.drop_last()) + lookups.last().writable_indexes@.len()
    }
}

/// The read-only indexes referenced across all table references.
pub open spec fn spec_total_readonly(lookups: Seq<LookupTableReference>) -> int
    decreases lookups.len(),
{
    if lookups.len() == 0 {
        0
    } else {
        spec_total_readonly(lookups.drop_last()) + lookups.last().readonly_indexes@.len()
    }
}

/// A successful table resolution yields exactly one address per
/// referenced index: as many writable resolutions as writable indexes
/// across all tables, and likewise for the read-only ones.
pub proof fn lemma_resolve_tables_counts(
    lookups: Seq<LookupTableReference>,
    tables: Seq<Option<AccountValue>>,
    sh: Seq<(u64, BlockHash)>,
    current_slot: u64,
)
    requires
        lookups.len() == tables.len(),
        spec_resolve_tables(lookups, tables, sh, current_slot) is Ok,
    ensures
        ({
            let wr = spec_resolve_tables(lookups, tables, sh, current_slot).unwrap();
            wr.0.len() == spec_total_writable(lookups) && wr.1.len() == spec_total_readonly(
                lookups,
            )
        }),
    decreases lookups.len(),
{
    if lookups.len() > 0 {
        lemma_resolve_tables_counts(lookups.drop_last(), tables.drop_last(), sh, current_slot);
        let one = spec_resolve_one(lookups.last(), tables.last(), sh, current_slot);
        assert(one.unwrap().0.len() == lookups.last().writable_indexes@.len());
        assert(one.unwrap().1.len() == lookups.last().readonly_indexes@.len());
    }
}

/// A transaction referencing tables with given writable and read-only
/// index counts sanitizes to exactly their total of resolved
/// addresses, appended after the static key list, which stays a
/// prefix; the resolved order itself — every table's writable
/// resolutions in reference order, then every table's read-only
/// resolutions — is pinned by [`spec_sanitize_keys`].
pub proof fn lemma_sanitized_key_count(
    tx: VersionedTransaction,
    tables: Seq<Option<AccountValue>>,
    sh_account: Option<AccountValue>,
    current_slot: u64,
    keys: Seq<Address>,
)
    requires
        tables.len() == tx.lookups@.len(),
        spec_sanitize_keys(tx, tables, sh_account, current_slot) == Ok::<Seq<Address>, ClientError>(
            keys,
        ),
    ensures
        keys.len() == tx.static_keys@.len() + spec_total_writable(tx.lookups@)
            + spec_total_readonly(tx.lookups@),
        keys.subrange(0, tx.static_keys@.len() as int) == tx.static_keys@,
{
    if tx.lookups@.len() == 0 {
        assert(keys == tx.static_keys@);
        assert(keys.subrange(0, keys.len() as int) =~= keys);
    } else {
        let a = sh_account.unwrap();
        let sh = spec_slot_hashes_of(a.data);
        lemma_resolve_tables_counts(tx.lookups@, tables, sh, current_slot);
        let wr = spec_resolve_tables(tx.lookups@, tables, sh, current_slot).unwrap();
        assert(keys == tx.static_keys@ + wr.0 + wr.1);
        assert(keys.subrange(0, tx.static_keys@.len() as int) =~= tx.static_keys@);
    }
}

/// Sanitizing a transaction whose first not-yet-failed lookup table
/// account exists but is owned by a foreign program fails with the
/// wrong-owner error.
pub proof fn lemma_foreign_owner_fails(
    tx: VersionedTransaction,
    tables: Seq<Option<AccountValue>>,
    sh_account: Option<AccountValue>,
    current_slot: u64,
    t: int,
)
    requires
        tables.len() == tx.lookups@.len(),
        tx.lookups@.len() > 0,
        sh_account matches Some(a) && spec_slot_hashes_valid(a.data),
        0 <= t < tables.len(),
        spec_resolve_tables(
            tx.lookups@.subrange(0, t),
            tables.subrange(0, t),
            spec_slot_hashes_of(sh_account.unwrap().data),
            current_slot,
        ) is Ok,
        tables[t] matches Some(table_account) && table_account.owner
            != spec_lookup_table_program_address(),
    ensures
        spec_sanitize_keys(tx, tables, sh_account, current_slot) == Err::<Seq<Address>, ClientError>(
            ClientError::AddressLookup { error: AddressLookupError::WrongOwner },
        ),
{
    let sh = spec_slot_hashes_of(sh_account.unwrap().data);
    assert(spec_resolve_one(tx.lookups@[t], tables[t], sh, current_slot) == Err::<
        (Seq<Address>, Seq<Address>),
        AddressLookupError,
    >(AddressLookupError::WrongOwner));
    assert(tx.lookups@.subrange(0, t + 1).drop_last() =~= tx.lookups@.subrange(0, t));
    assert(tables.subrange(0, t + 1).drop_last() =~= tables.subrange(0, t));
    assert(tx.lookups@.subrange(0, t + 1).last() == tx.lookups@[t]);
    assert(tables.subrange(0, t + 1).last() == tables[t]);
    assert(spec_resolve_tables(
        tx.lookups@.subrange(0, t + 1),
        tables.subrange(0, t + 1),
        sh,
        current_slot,
    ) == Err::<(Seq<Address>, Seq<Address>), AddressLookupError>(AddressLookupError::WrongOwner));
    lemma_resolve_tables_prefix_error(tx.lookups@, tables, sh, current_slot, t + 1);
}

/// The sanitizer as a capability: fetch the referenced tables and the
/// slot-hash history in one multi-account read, then resolve.
pub trait SanitizeTransaction: Client + GetMultipleAccounts {
    /// Sanitizes `transaction` against this backend's ledger state,
    /// judged at `current_slot`.
    fn sanitize_transaction(&self, transaction: VersionedTransaction, current_slot: u64) -> (r:
        Result<SanitizedTransaction, ClientError>)
        requires
            self.inv(),
        ensures
            (match r {
                Ok(st) => {
                    &&& st.transaction == transaction
                    &&& spec_sanitize_keys(
                        transaction,
                        spec_ledger_tables(self.ledger(), transaction.lookups@),
                        spec_ledger_account(self.ledger(), spec_slot_hashes_sysvar_address()),
                        current_slot,
                    ) == Ok::<Seq<Address>, ClientError>(st.account_keys@)
                },
                Err(_) => true,
            }),
            transaction.lookups@.len() == 0 ==> r is Ok,
    {
        if transaction.lookups.len() == 0 {
            let empty_tables: Vec<Option<Account>> = Vec::new();
            return resolve_transaction_keys(transaction, &empty_tables, &None, current_slot);
        }
        let ghost m = self.ledger();
        let mut addresses: Vec<Address> = Vec::new();
        let mut i: usize = 0;
        #[verifier::loop_isolation(false)]
        while i < transaction.lookups.len()
            invariant
                0 <= i <= transaction.lookups@.len(),
                addresses@.len() == i,
                forall|j: int|
                    0 <= j < i ==> addresses@[j] == (#[trigger] transaction.lookups@[j]).table_address,
            decreases transaction.lookups@.len() - i,
        {
            addresses.push(transaction.lookups[i].table_address);
            i = i + 1;
        }
        addresses.push(slot_hashes_sysvar_address());
        let mut fetched = match self.get_multiple_accounts(&addresses) {
            Ok(v) => v,
            Err(e) => {
                return Err(e);
            },
        };
        let slot_hashes_account = match fetched.pop() {
            Some(a) => a,
            None => {
                proof {
                    assert(false);
                }
                return Err(
                    ClientError::AccountNotFound { address: slot_hashes_sysvar_address() },
                );
            },
        };
        proof {
            assert(fetched@.len() == transaction.lookups@.len());
            assert(spec_account_views(fetched@) =~= spec_ledger_tables(m, transaction.lookups@))
                by {
                assert forall|j: int| 0 <= j < fetched@.len() implies spec_account_views(
                    fetched@,
                )[j] == spec_ledger_tables(m, transaction.lookups@)[j] by {
                    assert(spec_account_read(m, addresses@[j], fetched@[j]));
                }
            }
            assert(spec_account_read(
                m,
                spec_slot_hashes_sysvar_address(),
                slot_hashes_account,
            ));
        }
        resolve_transaction_keys(transaction, &fetched, &slot_hashes_account, current_slot)
    }
}

impl<C: Client + GetMultipleAccounts> SanitizeTransaction for C {

}

} // verus!
