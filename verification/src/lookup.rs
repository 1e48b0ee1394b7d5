//! On-chain address lookup tables and the slot-hash history.
//!
//! A lookup table account's data is a fixed-size meta header — a
//! discriminant, the deactivation slot, extension bookkeeping, and an
//! optional authority — followed by a flat array of 32-byte addresses.
//! The slot-hash history sysvar holds a count followed by (slot, hash)
//! records; a deactivated table stays resolvable only while its
//! deactivation slot is still in that history.

use vstd::prelude::*;
use vstd::bytes::{spec_u32_from_le_bytes, spec_u64_from_le_bytes, u32_from_le_bytes, u64_from_le_bytes};
use vstd::slice::slice_subrange;
use crate::addr::{spec_address_of_bytes, spec_hash_of_bytes, Address, BlockHash};

verus! {

/// Size in bytes of a lookup table's meta header.
pub const LOOKUP_TABLE_META_SIZE: usize = 56;

/// Bytes per (slot, hash) record in the slot-hash history.
pub const SLOT_HASH_RECORD_SIZE: usize = 40;

/// The deactivation-slot value meaning "not deactivated".
pub const NO_DEACTIVATION_SLOT: u64 = u64::MAX;

/// The address of the program that owns every lookup table account.
pub open spec fn spec_lookup_table_program_address() -> Address {
    Address { hi: 0xf54604c992188dc87a9b3397afa67702u128, lo: 0x82492418c1532ef66692300200u128 }
}

/// See [`spec_lookup_table_program_address`].
pub fn lookup_table_program_address() -> (r: Address)
    ensures
        r == spec_lookup_table_program_address(),
{
    Address { hi: 0xf54604c992188dc87a9b3397afa67702u128, lo: 0x82492418c1532ef66692300200u128 }
}

/// The address of the slot-hash history sysvar account.
pub open spec fn spec_slot_hashes_sysvar_address() -> Address {
    Address { hi: 0x7acc77fbe365f2c6af0a2f1917d5a706u128, lo: 0x2055002d6e133bbed029c582dau128 }
}

/// See [`spec_slot_hashes_sysvar_address`].
pub fn slot_hashes_sysvar_address() -> (r: Address)
    ensures
        r == spec_slot_hashes_sysvar_address(),
{
    Address { hi: 0x7acc77fbe365f2c6af0a2f1917d5a706u128, lo: 0x2055002d6e133bbed029c582dau128 }
}

/// The system program's address (all zero bytes).
pub open spec fn spec_system_program_address() -> Address {
    Address { hi: 0u128, lo: 0u128 }
}

/// See [`spec_system_program_address`].
pub fn system_program_address() -> (r: Address)
    ensures
        r == spec_system_program_address(),
{
    Address { hi: 0u128, lo: 0u128 }
}

/// A deserialized address lookup table.
#[derive(Debug)]
pub struct AddressLookupTable {
    /// The slot the table was deactivated in; `NO_DEACTIVATION_SLOT`
    /// while the table is active.
    pub deactivation_slot: u64,
    /// The authority allowed to manage the table, if it has one.
    pub authority: Option<Address>,
    /// The table's addresses, in table order.
    pub addresses: Vec<Address>,
}

/// The mathematical value of a lookup table.
pub struct LookupTableValue {
    pub deactivation_slot: u64,
    pub authority: Option<Address>,
    pub addresses: Seq<Address>,
}

impl View for AddressLookupTable {
    type V = LookupTableValue;

    open spec fn view(&self) -> LookupTableValue {
        LookupTableValue {
            deactivation_slot: self.deactivation_slot,
            authority: self.authority,
            addresses: self.addresses@,
        }
    }
}

/// Whether `s` is a well-formed lookup table account's data: long
/// enough for the meta header, the initialized discriminant, a whole
/// number of 32-byte addresses, and a boolean authority tag.
pub open spec fn spec_table_valid(s: Seq<u8>) -> bool {
    &&& s.len() >= LOOKUP_TABLE_META_SIZE
    &&& spec_u32_from_le_bytes(s.subrange(0, 4)) == 1
    &&& (s.len() - LOOKUP_TABLE_META_SIZE) % 32 == 0
    &&& (s[21] == 0 || s[21] == 1)
}

/// The lookup table a well-formed byte string holds.
pub open spec fn spec_table_of(s: Seq<u8>) -> LookupTableValue
    recommends
        spec_table_valid(s),
{
    LookupTableValue {
        deactivation_slot: spec_u64_from_le_bytes(s.subrange(4, 12)),
        authority: if s[21] == 1 {
            Some(spec_address_of_bytes(s.subrange(22, 54)))
        } else {
            None
        },
        addresses: Seq::new(
            ((s.len() - LOOKUP_TABLE_META_SIZE) / 32) as nat,
            |i: int| spec_address_of_bytes(s.subrange(56 + 32 * i, 56 + 32 * i + 32)),
        ),
    }
}

/// Deserializes a lookup table account's data; `None` on malformed
/// bytes.
#[verifier::loop_isolation(false)]
pub fn deserialize_lookup_table(data: &Vec<u8>) -> (r: Option<AddressLookupTable>)
    ensures
        (match r {
            Some(t) => spec_table_valid(data@) && t@ == spec_table_of(data@),
            None => !spec_table_valid(data@),
        }),
{
    if data.len() < LOOKUP_TABLE_META_SIZE {
        return None;
    }
    let discriminant = u32_from_le_bytes(slice_subrange(data.as_slice(), 0, 4));
    if discriminant != 1 {
        return None;
    }
    if (data.len() - LOOKUP_TABLE_META_SIZE) % 32 != 0 {
        return None;
    }
    let tag = data[21];
    if tag > 1 {
        return None;
    }
    let deactivation_slot = u64_from_le_bytes(slice_subrange(data.as_slice(), 4, 12));
    let authority = if tag == 1 {
        Some(Address::from_bytes(slice_subrange(data.as_slice(), 22, 54)))
    } else {
        None
    };
    let count = (data.len() - LOOKUP_TABLE_META_SIZE) / 32;
    let ghost target = spec_table_of(data@);
    proof {
        assert(56 + 32 * count <= data@.len()) by {
            assert(data@.len() - 56 == 32 * ((data@.len() - 56) / 32) + (data@.len() - 56) % 32);
        }
    }
    let mut addresses: Vec<Address> = Vec::new();
    let mut i: usize = 0;
    while i < count
        invariant
            0 <= i <= count,
            addresses@.len() == i,
            forall|k: int| 0 <= k < i ==> addresses@[k] == target.addresses[k],
        decreases count - i,
    {
        let base = LOOKUP_TABLE_META_SIZE + 32 * i;
        let address = Address::from_bytes(slice_subrange(data.as_slice(), base, base + 32));
        addresses.push(address);
        i = i + 1;
    }
    let table = AddressLookupTable { deactivation_slot, authority, addresses };
    proof {
        assert(table@.addresses =~= target.addresses);
    }
    Some(table)
}

/// Whether `s` is a well-formed slot-hash history: a record count
/// followed by exactly that many 40-byte records.
pub open spec fn spec_slot_hashes_valid(s: Seq<u8>) -> bool {
    &&& s.len() >= 8
    &&& (s.len() - 8) % (SLOT_HASH_RECORD_SIZE as int) == 0
    &&& spec_u64_from_le_bytes(s.subrange(0, 8)) == ((s.len() - 8) / (
    SLOT_HASH_RECORD_SIZE as int))
}

/// The (slot, hash) records a well-formed slot-hash history holds.
pub open spec fn spec_slot_hashes_of(s: Seq<u8>) -> Seq<(u64, BlockHash)>
    recommends
        spec_slot_hashes_valid(s),
{
    Seq::new(
        ((s.len() - 8) / (SLOT_HASH_RECORD_SIZE as int)) as nat,
        |i: int|
            (
                spec_u64_from_le_bytes(s.subrange(8 + 40 * i, 8 + 40 * i + 8)),
                spec_hash_of_bytes(s.subrange(8 + 40 * i + 8, 8 + 40 * i + 40)),
            ),
    )
}

/// Deserializes the slot-hash history sysvar's data; `None` on
/// malformed bytes.
#[verifier::loop_isolation(false)]
pub fn parse_slot_hashes(data: &Vec<u8>) -> (r: Option<Vec<(u64, BlockHash)>>)
    ensures
        (match r {
            Some(sh) => spec_slot_hashes_valid(data@) && sh@ == spec_slot_hashes_of(data@),
            None => !spec_slot_hashes_valid(data@),
        }),
{
    if data.len() < 8 {
        return None;
    }
    if (data.len() - 8) % SLOT_HASH_RECORD_SIZE != 0 {
        return None;
    }
    let declared = u64_from_le_bytes(slice_subrange(data.as_slice(), 0, 8));
    let count = (data.len() - 8) / SLOT_HASH_RECORD_SIZE;
    if declared != count as u64 {
        return None;
    }
    let ghost target = spec_slot_hashes_of(data@);
    proof {
        assert(8 + 40 * count <= data@.len()) by {
            assert(data@.len() - 8 == 40 * ((data@.len() - 8) / 40) + (data@.len() - 8) % 40);
        }
    }
    let mut records: Vec<(u64, BlockHash)> = Vec::new();
    let mut i: usize = 0;
    while i < count
        invariant
            0 <= i <= count,
            records@.len() == i,
            forall|k: int| 0 <= k < i ==> records@[k] == target[k],
        decreases count - i,
    {
        let base = 8 + SLOT_HASH_RECORD_SIZE * i;
        let slot = u64_from_le_bytes(slice_subrange(data.as_slice(), base, base + 8));
        let hash = BlockHash::from_bytes(slice_subrange(data.as_slice(), base + 8, base + 40));
        records.push((slot, hash));
        i = i + 1;
    }
    proof {
        assert(records@ =~= target);
    }
    Some(records)
}

/// Whether the slot-hash history still contains `slot`.
pub open spec fn spec_slot_hashes_contain(sh: Seq<(u64, BlockHash)>, slot: u64) -> bool {
    exists|i: int| 0 <= i < sh.len() && sh[i].0 == slot
}

/// See [`spec_slot_hashes_contain`].
pub fn slot_hashes_contain(sh: &Vec<(u64, BlockHash)>, slot: u64) -> (r: bool)
    ensures
        r == spec_slot_hashes_contain(sh@, slot),
{
    let mut i: usize = 0;
    while i < sh.len()
        invariant
            0 <= i <= sh@.len(),
            forall|j: int| 0 <= j < i ==> sh@[j].0 != slot,
        decreases sh@.len() - i,
    {
        if sh[i].0 == slot {
            return true;
        }
        i = i + 1;
    }
    false
}

/// Whether a table may still be resolved against, judged at a
/// reference slot: it is active, deactivated in that very slot, or its
/// deactivation slot is still within the slot-hash retention window.
pub open spec fn spec_table_usable(
    t: LookupTableValue,
    sh: Seq<(u64, BlockHash)>,
    current_slot: u64,
) -> bool {
    ||| t.deactivation_slot == NO_DEACTIVATION_SLOT
    ||| t.deactivation_slot == current_slot
    ||| spec_slot_hashes_contain(sh, t.deactivation_slot)
}

/// See [`spec_table_usable`].
pub fn table_usable(t: &AddressLookupTable, sh: &Vec<(u64, BlockHash)>, current_slot: u64) -> (r:
    bool)
    ensures
        r == spec_table_usable(t@, sh@, current_slot),
{
    t.deactivation_slot == NO_DEACTIVATION_SLOT || t.deactivation_slot == current_slot
        || slot_hashes_contain(sh, t.deactivation_slot)
}

} // verus!
