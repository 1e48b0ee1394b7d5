//! The reader, writer, scan, rent and blockhash capabilities of the
//! in-memory ledger, and capability delegation.

use dexter_client::account::Account;
use dexter_client::addr::{Address, BlockHash};
use dexter_client::capability::{
    GetAccount, GetLatestBlockhash, GetMinimumBalanceForRentExemption, GetMultipleAccounts,
    GetProgramAccounts, ProgramAccountsFilter, SetAccount,
};
use dexter_client::delegate::ClientHandle;
use dexter_client::errors::ClientError;
use dexter_client::exts::{GetAccountExt, GetMultipleAccountsExt};
use dexter_client::rent::{HasRent, Rent};
use dexter_client::sort::sort_by_address;
use dexter_client::store::MemoryLedger;

fn addr(tag: u8) -> Address {
    Address::from_bytes(&[tag; 32])
}

fn blockhash(tag: u8) -> BlockHash {
    BlockHash::from_bytes(&[tag; 32])
}

fn rent() -> Rent {
    Rent { lamports_per_byte_year: 3480, exemption_threshold_years: 2 }
}

fn account(lamports: u64, owner: Address, data: Vec<u8>) -> Account {
    Account { lamports, data, owner, executable: false, rent_epoch: 7 }
}

fn ledger() -> MemoryLedger {
    MemoryLedger::new(blockhash(9), rent())
}

#[test]
fn write_then_read_round_trip() {
    let mut store = ledger();
    let key = addr(1);
    let written = Account {
        lamports: 42,
        data: vec![1, 2, 3],
        owner: addr(2),
        executable: true,
        rent_epoch: 11,
    };
    store.set_account(key, written);
    let read_back = store.get_account(&key).unwrap().unwrap();
    assert_eq!(read_back.lamports, 42);
    assert_eq!(read_back.data, vec![1, 2, 3]);
    assert_eq!(read_back.owner, addr(2));
    assert!(read_back.executable);
    assert_eq!(read_back.rent_epoch, 11);
}

#[test]
fn write_overwrites_unconditionally() {
    let mut store = ledger();
    let key = addr(1);
    store.set_account(key, account(10, addr(2), vec![]));
    store.set_account(key, account(20, addr(3), vec![5]));
    let read_back = store.get_account(&key).unwrap().unwrap();
    assert_eq!(read_back.lamports, 20);
    assert_eq!(read_back.owner, addr(3));
    assert_eq!(read_back.data, vec![5]);
}

#[test]
fn get_account_absent_is_none() {
    let store = ledger();
    assert!(store.get_account(&addr(1)).unwrap().is_none());
}

#[test]
fn multi_read_preserves_length_and_order() {
    let mut store = ledger();
    store.set_account(addr(1), account(1, addr(9), vec![]));
    store.set_account(addr(3), account(3, addr(9), vec![]));
    let keys = vec![addr(3), addr(2), addr(1), addr(3)];
    let fetched = store.get_multiple_accounts(&keys).unwrap();
    assert_eq!(fetched.len(), 4);
    assert_eq!(fetched[0].as_ref().unwrap().lamports, 3);
    assert!(fetched[1].is_none());
    assert_eq!(fetched[2].as_ref().unwrap().lamports, 1);
    assert_eq!(fetched[3].as_ref().unwrap().lamports, 3);
}

#[test]
fn program_scan_is_sorted_and_filtered() {
    let mut store = ledger();
    let program = addr(200);
    // Inserted out of address order, with varying data.
    store.set_account(addr(5), account(5, program, vec![1, 2, 3, 4]));
    store.set_account(addr(1), account(1, program, vec![9, 9, 9, 9]));
    store.set_account(addr(3), account(3, program, vec![1, 2]));
    store.set_account(addr(4), account(4, addr(201), vec![1, 2, 3, 4]));
    let no_filters: Vec<ProgramAccountsFilter> = Vec::new();
    let all = store.get_program_accounts(&program, &no_filters).unwrap();
    assert_eq!(all.len(), 3);
    assert_eq!(all[0].0, addr(1));
    assert_eq!(all[1].0, addr(3));
    assert_eq!(all[2].0, addr(5));
    let sized = store
        .get_program_accounts(&program, &vec![ProgramAccountsFilter::DataSize { size: 4 }])
        .unwrap();
    assert_eq!(sized.len(), 2);
    assert_eq!(sized[0].0, addr(1));
    assert_eq!(sized[1].0, addr(5));
    let matched = store
        .get_program_accounts(
            &program,
            &vec![
                ProgramAccountsFilter::DataSize { size: 4 },
                ProgramAccountsFilter::MemcmpRange { offset: 1, bytes: vec![2, 3] },
            ],
        )
        .unwrap();
    assert_eq!(matched.len(), 1);
    assert_eq!(matched[0].0, addr(5));
}

#[test]
fn memcmp_filter_out_of_range_rejects() {
    let mut store = ledger();
    let program = addr(200);
    store.set_account(addr(1), account(1, program, vec![1, 2]));
    let found = store
        .get_program_accounts(
            &program,
            &vec![ProgramAccountsFilter::MemcmpRange { offset: 1, bytes: vec![2, 3] }],
        )
        .unwrap();
    assert!(found.is_empty());
}

#[test]
fn sort_by_address_orders_entries() {
    let entries = vec![
        (addr(3), account(3, addr(9), vec![])),
        (addr(1), account(1, addr(9), vec![])),
        (addr(2), account(2, addr(9), vec![])),
    ];
    let sorted = sort_by_address(entries);
    assert_eq!(sorted.len(), 3);
    assert_eq!(sorted[0].0, addr(1));
    assert_eq!(sorted[1].0, addr(2));
    assert_eq!(sorted[2].0, addr(3));
}

#[test]
fn latest_blockhash_is_reported() {
    let store = ledger();
    assert_eq!(store.get_latest_blockhash().unwrap(), blockhash(9));
}

#[test]
fn rent_exemption_has_floor_of_one() {
    let zero_rent = MemoryLedger::new(blockhash(1), Rent {
        lamports_per_byte_year: 0,
        exemption_threshold_years: 2,
    });
    assert_eq!(zero_rent.get_minimum_balance_for_rent_exemption(100).unwrap(), 1);
}

#[test]
fn rent_exemption_exact_value() {
    let store = ledger();
    // (128 + 10) * 3480 * 2
    assert_eq!(store.get_minimum_balance_for_rent_exemption(10).unwrap(), 960_480);
    assert_eq!(store.minimum_balance_for_rent_exemption(10), 960_480);
    assert_eq!(store.rent(), rent());
}

#[test]
fn try_get_account_errors_on_missing() {
    let store = ledger();
    match store.try_get_account(&addr(1)) {
        Err(ClientError::AccountNotFound { address }) => assert_eq!(address, addr(1)),
        other => panic!("unexpected result: {:?}", other.map(|a| a.lamports)),
    }
}

#[test]
fn try_get_multiple_accounts_errors_on_first_missing() {
    let mut store = ledger();
    store.set_account(addr(1), account(1, addr(9), vec![]));
    match store.try_get_multiple_accounts(&vec![addr(1), addr(2)]) {
        Err(ClientError::AccountNotFound { address }) => assert_eq!(address, addr(2)),
        other => panic!("unexpected result: {:?}", other.map(|v| v.len())),
    }
    let ok = store.try_get_multiple_accounts(&vec![addr(1)]).unwrap();
    assert_eq!(ok.len(), 1);
    assert_eq!(ok[0].lamports, 1);
}

#[test]
fn lossy_multi_read_drops_missing_and_keeps_order() {
    let mut store = ledger();
    store.set_account(addr(1), account(1, addr(9), vec![]));
    store.set_account(addr(3), account(3, addr(9), vec![]));
    let found = store.get_multiple_accounts_lossy(&vec![addr(3), addr(2), addr(1)]).unwrap();
    assert_eq!(found.len(), 2);
    assert_eq!(found[0].0, addr(3));
    assert_eq!(found[0].1.lamports, 3);
    assert_eq!(found[1].0, addr(1));
}

#[test]
fn handle_forwards_capabilities() {
    let mut store = ledger();
    store.set_account(addr(1), account(5, addr(9), vec![]));
    let mut handle = ClientHandle::new(store);
    assert_eq!(handle.get_account(&addr(1)).unwrap().unwrap().lamports, 5);
    handle.set_account(addr(2), account(6, addr(9), vec![]));
    assert_eq!(handle.get_account(&addr(2)).unwrap().unwrap().lamports, 6);
    assert_eq!(handle.get_latest_blockhash().unwrap(), blockhash(9));
    assert_eq!(handle.get_minimum_balance_for_rent_exemption(0).unwrap(), 890_880);
}
