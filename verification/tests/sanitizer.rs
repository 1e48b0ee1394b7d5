//! Sanitizing transactions against on-chain lookup table state.

use dexter_client::account::Account;
use dexter_client::addr::{Address, BlockHash, Signature};
use dexter_client::capability::SetAccount;
use dexter_client::errors::{AddressLookupError, ClientError};
use dexter_client::lookup::{
    deserialize_lookup_table, lookup_table_program_address, parse_slot_hashes,
    slot_hashes_sysvar_address,
};
use dexter_client::rent::Rent;
use dexter_client::sanitize::SanitizeTransaction;
use dexter_client::store::MemoryLedger;
use dexter_client::compile::compile_transaction_with_blockhash;
use dexter_client::transaction::{
    AccountMeta, AddressLookupTableAccount, Instruction, LookupTableReference, MessageHeader,
    VersionedTransaction,
};

fn addr(tag: u8) -> Address {
    Address::from_bytes(&[tag; 32])
}

fn ledger() -> MemoryLedger {
    MemoryLedger::new(
        BlockHash::from_bytes(&[9; 32]),
        Rent { lamports_per_byte_year: 1, exemption_threshold_years: 1 },
    )
}

fn signature(tag: u8) -> Signature {
    Signature { q0: tag as u128, q1: 0, q2: 0, q3: 0 }
}

/// A well-formed lookup table account's data: initialized
/// discriminant, deactivation slot, bookkeeping, no authority, then
/// the 32-byte addresses.
fn table_bytes(deactivation_slot: u64, entries: &[[u8; 32]]) -> Vec<u8> {
    let mut data = Vec::new();
    data.extend_from_slice(&1u32.to_le_bytes());
    data.extend_from_slice(&deactivation_slot.to_le_bytes());
    data.extend_from_slice(&0u64.to_le_bytes());
    data.push(0);
    data.push(0);
    data.extend_from_slice(&[0u8; 32]);
    data.extend_from_slice(&[0u8; 2]);
    for entry in entries {
        data.extend_from_slice(entry);
    }
    data
}

/// A slot-hash history holding the given slots.
fn slot_hashes_bytes(slots: &[u64]) -> Vec<u8> {
    let mut data = Vec::new();
    data.extend_from_slice(&(slots.len() as u64).to_le_bytes());
    for slot in slots {
        data.extend_from_slice(&slot.to_le_bytes());
        data.extend_from_slice(&[0u8; 32]);
    }
    data
}

fn table_account(owner: Address, data: Vec<u8>) -> Account {
    Account { lamports: 1, data, owner, executable: false, rent_epoch: 0 }
}

fn transaction_with_lookup(table_address: Address) -> VersionedTransaction {
    VersionedTransaction {
        signatures: vec![signature(1)],
        header: MessageHeader {
            num_required_signatures: 1,
            num_readonly_signed: 0,
            num_readonly_unsigned: 0,
        },
        static_keys: vec![addr(1)],
        recent_blockhash: BlockHash::from_bytes(&[9; 32]),
        instructions: vec![],
        lookups: vec![
            LookupTableReference {
                table_address,
                writable_indexes: vec![0, 2],
                readonly_indexes: vec![1],
            },
        ],
    }
}

fn store_slot_hashes(store: &mut MemoryLedger, slots: &[u64]) {
    store.set_account(
        slot_hashes_sysvar_address(),
        table_account(addr(99), slot_hashes_bytes(slots)),
    );
}

#[test]
fn lookup_table_parses_exactly() {
    let data = table_bytes(u64::MAX, &[[7; 32], [8; 32]]);
    let table = deserialize_lookup_table(&data).unwrap();
    assert_eq!(table.deactivation_slot, u64::MAX);
    assert!(table.authority.is_none());
    assert_eq!(table.addresses.len(), 2);
    assert_eq!(table.addresses[0], addr(7));
    assert_eq!(table.addresses[1], addr(8));
}

#[test]
fn lookup_table_rejects_malformed_bytes() {
    assert!(deserialize_lookup_table(&vec![1, 0, 0]).is_none());
    // Uninitialized discriminant.
    let mut uninitialized = table_bytes(0, &[]);
    uninitialized[0] = 0;
    assert!(deserialize_lookup_table(&uninitialized).is_none());
    // A ragged address region.
    let mut ragged = table_bytes(0, &[[7; 32]]);
    ragged.push(0);
    assert!(deserialize_lookup_table(&ragged).is_none());
}

#[test]
fn slot_hashes_parse_exactly() {
    let records = parse_slot_hashes(&slot_hashes_bytes(&[44, 43])).unwrap();
    assert_eq!(records.len(), 2);
    assert_eq!(records[0].0, 44);
    assert_eq!(records[1].0, 43);
    // A count that disagrees with the byte length is rejected.
    let mut lying = slot_hashes_bytes(&[44]);
    lying[0] = 2;
    assert!(parse_slot_hashes(&lying).is_none());
}

#[test]
fn sanitize_without_lookups_keeps_static_keys() {
    let store = ledger();
    let mut tx = transaction_with_lookup(addr(50));
    tx.lookups = vec![];
    let sanitized = store.sanitize_transaction(tx, u64::MAX).unwrap();
    assert_eq!(sanitized.account_keys, vec![addr(1)]);
}

#[test]
fn sanitize_resolves_writable_then_readonly_in_table_order() {
    let mut store = ledger();
    let table_address = addr(50);
    store_slot_hashes(&mut store, &[100]);
    store.set_account(
        table_address,
        table_account(
            lookup_table_program_address(),
            table_bytes(u64::MAX, &[[7; 32], [8; 32], [9; 32]]),
        ),
    );
    let sanitized = store.sanitize_transaction(transaction_with_lookup(table_address), u64::MAX)
        .unwrap();
    // Static key, then writable resolutions 0 and 2, then read-only 1.
    assert_eq!(sanitized.account_keys, vec![addr(1), addr(7), addr(9), addr(8)]);
    assert_eq!(sanitized.transaction.static_keys, vec![addr(1)]);
}

#[test]
fn sanitize_missing_table_fails_with_table_not_found() {
    let mut store = ledger();
    store_slot_hashes(&mut store, &[100]);
    let result = store.sanitize_transaction(transaction_with_lookup(addr(50)), u64::MAX);
    assert_eq!(
        result.err().unwrap(),
        ClientError::AddressLookup { error: AddressLookupError::TableNotFound }
    );
}

#[test]
fn sanitize_foreign_owner_fails_with_wrong_owner() {
    let mut store = ledger();
    let table_address = addr(50);
    store_slot_hashes(&mut store, &[100]);
    store.set_account(
        table_address,
        table_account(addr(66), table_bytes(u64::MAX, &[[7; 32], [8; 32], [9; 32]])),
    );
    let result = store.sanitize_transaction(transaction_with_lookup(table_address), u64::MAX);
    assert_eq!(
        result.err().unwrap(),
        ClientError::AddressLookup { error: AddressLookupError::WrongOwner }
    );
}

#[test]
fn sanitize_corrupt_table_fails_with_corrupt_data() {
    let mut store = ledger();
    let table_address = addr(50);
    store_slot_hashes(&mut store, &[100]);
    store.set_account(
        table_address,
        table_account(lookup_table_program_address(), vec![0, 1, 2]),
    );
    let result = store.sanitize_transaction(transaction_with_lookup(table_address), u64::MAX);
    assert_eq!(
        result.err().unwrap(),
        ClientError::AddressLookup { error: AddressLookupError::CorruptData }
    );
}

#[test]
fn sanitize_index_beyond_table_fails_with_index_out_of_range() {
    let mut store = ledger();
    let table_address = addr(50);
    store_slot_hashes(&mut store, &[100]);
    store.set_account(
        table_address,
        table_account(lookup_table_program_address(), table_bytes(u64::MAX, &[[7; 32], [8; 32]])),
    );
    // The reference asks for index 2, which the table does not have.
    let result = store.sanitize_transaction(transaction_with_lookup(table_address), u64::MAX);
    assert_eq!(
        result.err().unwrap(),
        ClientError::AddressLookup { error: AddressLookupError::IndexOutOfRange }
    );
}

#[test]
fn sanitize_deactivated_table_within_retention_still_resolves() {
    let mut store = ledger();
    let table_address = addr(50);
    store_slot_hashes(&mut store, &[123]);
    store.set_account(
        table_address,
        table_account(
            lookup_table_program_address(),
            table_bytes(123, &[[7; 32], [8; 32], [9; 32]]),
        ),
    );
    let sanitized = store.sanitize_transaction(transaction_with_lookup(table_address), u64::MAX)
        .unwrap();
    assert_eq!(sanitized.account_keys.len(), 4);
}

#[test]
fn sanitize_deactivated_table_beyond_retention_fails() {
    let mut store = ledger();
    let table_address = addr(50);
    store_slot_hashes(&mut store, &[500]);
    store.set_account(
        table_address,
        table_account(
            lookup_table_program_address(),
            table_bytes(123, &[[7; 32], [8; 32], [9; 32]]),
        ),
    );
    let result = store.sanitize_transaction(transaction_with_lookup(table_address), u64::MAX);
    assert_eq!(
        result.err().unwrap(),
        ClientError::AddressLookup { error: AddressLookupError::TableNotFound }
    );
}

#[test]
fn sanitize_missing_slot_hashes_fails() {
    let mut store = ledger();
    let table_address = addr(50);
    store.set_account(
        table_address,
        table_account(
            lookup_table_program_address(),
            table_bytes(u64::MAX, &[[7; 32], [8; 32], [9; 32]]),
        ),
    );
    let result = store.sanitize_transaction(transaction_with_lookup(table_address), u64::MAX);
    assert_eq!(
        result.err().unwrap(),
        ClientError::AccountNotFound { address: slot_hashes_sysvar_address() }
    );
}

#[test]
fn sanitized_key_count_matches_reference_totals() {
    let mut store = ledger();
    store_slot_hashes(&mut store, &[100]);
    let first = addr(50);
    let second = addr(51);
    store.set_account(
        first,
        table_account(lookup_table_program_address(), table_bytes(u64::MAX, &[[7; 32], [8; 32]])),
    );
    store.set_account(
        second,
        table_account(lookup_table_program_address(), table_bytes(u64::MAX, &[[17; 32], [18; 32]])),
    );
    let mut tx = transaction_with_lookup(first);
    tx.lookups = vec![
        LookupTableReference {
            table_address: first,
            writable_indexes: vec![0],
            readonly_indexes: vec![1],
        },
        LookupTableReference {
            table_address: second,
            writable_indexes: vec![1, 0],
            readonly_indexes: vec![],
        },
    ];
    let sanitized = store.sanitize_transaction(tx, u64::MAX).unwrap();
    // 1 static + (1 + 2) writable + (1 + 0) read-only, writables of
    // both tables before any read-only key.
    assert_eq!(
        sanitized.account_keys,
        vec![addr(1), addr(7), addr(18), addr(17), addr(8)]
    );
}

#[test]
fn compiled_table_references_sanitize_to_the_same_key_space() {
    // Compile against a provided table, store the same table on
    // chain, and sanitize: the resolved key list is the compiler's
    // key space — static keys, then the claimed writable key, then
    // the claimed read-only key.
    let payer = addr(1);
    let table_address = addr(50);
    let instructions = vec![
        Instruction {
            program_id: addr(100),
            accounts: vec![
                AccountMeta { address: addr(2), is_signer: false, is_writable: true },
                AccountMeta { address: addr(3), is_signer: false, is_writable: false },
            ],
            data: vec![],
        },
    ];
    let tables = vec![
        AddressLookupTableAccount {
            key: table_address,
            addresses: vec![addr(9), addr(3), addr(2)],
        },
    ];
    let signers = vec![(payer, signature(7))];
    let tx = compile_transaction_with_blockhash(
        &instructions,
        payer,
        &signers,
        &tables,
        BlockHash::from_bytes(&[9; 32]),
    )
    .unwrap();
    let mut store = ledger();
    store_slot_hashes(&mut store, &[100]);
    store.set_account(
        table_address,
        table_account(
            lookup_table_program_address(),
            table_bytes(u64::MAX, &[[9; 32], [3; 32], [2; 32]]),
        ),
    );
    let sanitized = store.sanitize_transaction(tx, u64::MAX).unwrap();
    assert_eq!(sanitized.account_keys, vec![addr(1), addr(100), addr(2), addr(3)]);
}
