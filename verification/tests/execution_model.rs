//! The canonical execution result model and the per-backend result
//! normalization.

use dexter_client::account::Account;
use dexter_client::addr::{Address, BlockHash, Signature};
use dexter_client::bank_adapter::{
    normalize_bank_execution, normalize_bank_simulation, BankExecutionResult, BankSimulationResult,
};
use dexter_client::banks_adapter::{
    normalize_banks_execution, normalize_banks_simulation, BanksExecutionResult,
    BanksSimulationDetails, BanksSimulationResult, TransactionMetadata,
};
use dexter_client::capability::SetAccount;
use dexter_client::errors::{BackendError, ClientError, InstructionFailure, TransactionError};
use dexter_client::execution::{PostAccounts, PostAccountsError};
use dexter_client::lookup::system_program_address;
use dexter_client::rent::Rent;
use dexter_client::rpc_adapter::{
    confirmation_decision, normalize_rpc_confirmed, normalize_rpc_simulation, preflight_decision,
    retry_decision, ConfirmOutcome, ConfirmedTransactionMeta, RetryDecision, RpcSimulationResult,
    SendAttemptOutcome, SubmitDecision, REMOTE_FETCH_MAX_RETRIES, REMOTE_FETCH_RETRY_INTERVAL_MS,
};
use dexter_client::store::MemoryLedger;
use dexter_client::transaction::{MessageHeader, VersionedTransaction};

fn addr(tag: u8) -> Address {
    Address::from_bytes(&[tag; 32])
}

fn simple_transaction() -> VersionedTransaction {
    VersionedTransaction {
        signatures: vec![Signature { q0: 5, q1: 0, q2: 0, q3: 0 }],
        header: MessageHeader {
            num_required_signatures: 1,
            num_readonly_signed: 0,
            num_readonly_unsigned: 0,
        },
        static_keys: vec![addr(1), addr(2)],
        recent_blockhash: BlockHash::from_bytes(&[9; 32]),
        instructions: vec![],
        lookups: vec![],
    }
}

fn plain_account(lamports: u64, owner: Address) -> Account {
    Account { lamports, data: vec![], owner, executable: false, rent_epoch: 0 }
}

fn ledger() -> MemoryLedger {
    MemoryLedger::new(
        BlockHash::from_bytes(&[9; 32]),
        Rent { lamports_per_byte_year: 1, exemption_threshold_years: 1 },
    )
}

#[test]
fn post_accounts_three_state_lookup() {
    let set = PostAccounts::new(vec![
        (addr(1), Some(plain_account(10, addr(9)))),
        (addr(2), None),
    ]);
    assert_eq!(set.len(), 2);
    assert!(!set.is_empty());
    assert_eq!(set.try_get_account(&addr(1)).unwrap().lamports, 10);
    assert_eq!(
        set.try_get_account(&addr(2)).err().unwrap(),
        PostAccountsError::AccountClosed { address: addr(2) }
    );
    assert_eq!(
        set.try_get_account(&addr(3)).err().unwrap(),
        PostAccountsError::AccountNotFound { address: addr(3) }
    );
    assert_eq!(set.get_account(&addr(1)).unwrap().lamports, 10);
    assert!(set.get_account(&addr(2)).is_none());
    assert!(set.get_account(&addr(3)).is_none());
}

#[test]
fn bank_execution_not_executed_surfaces_error() {
    let result = normalize_bank_execution(
        simple_transaction(),
        BankExecutionResult::NotExecuted { error: TransactionError::BlockhashNotFound },
        0,
    );
    assert_eq!(
        result.err().unwrap(),
        ClientError::Transaction { error: TransactionError::BlockhashNotFound }
    );
}

#[test]
fn bank_execution_executed_yields_outcome() {
    let out = normalize_bank_execution(
        simple_transaction(),
        BankExecutionResult::Executed {
            status: Ok(()),
            log_messages: Some(vec!["one".to_string()]),
            return_data: None,
            executed_units: 150,
        },
        5000,
    )
    .unwrap();
    assert!(out.is_success());
    assert_eq!(out.logs, vec!["one".to_string()]);
    assert_eq!(out.compute_units_consumed, 150);
    assert_eq!(out.fee, 5000);
}

#[test]
fn fund_and_transfer_effect_balances() {
    // Fund A with 1,000,000 and B with 0, then normalize the
    // simulated post-state of a transfer of 1,000 from A to B with a
    // positive fee: A ends at 1,000,000 - 1,000 - fee, B at 1,000.
    let store = ledger();
    let fee = 5000u64;
    let a_post = 1_000_000 - 1_000 - fee;
    let sim = BankSimulationResult {
        result: Ok(()),
        logs: vec![],
        post_simulation_accounts: vec![
            (addr(1), plain_account(a_post, system_program_address())),
            (addr(2), plain_account(1_000, system_program_address())),
        ],
        units_consumed: 150,
        return_data: None,
    };
    let effect = normalize_bank_simulation(
        &store,
        simple_transaction(),
        &vec![addr(1), addr(2)],
        sim,
        fee,
    )
    .unwrap();
    assert!(effect.is_success());
    assert!(effect.fee > 0);
    assert_eq!(effect.post_accounts.len(), 2);
    assert_eq!(effect.post_accounts.try_get_account(&addr(1)).unwrap().lamports, 994_000);
    assert_eq!(effect.post_accounts.try_get_account(&addr(2)).unwrap().lamports, 1_000);
}

#[test]
fn bank_simulation_zero_units_surfaces_error() {
    let store = ledger();
    let sim = BankSimulationResult {
        result: Err(TransactionError::InsufficientFunds),
        logs: vec![],
        post_simulation_accounts: vec![],
        units_consumed: 0,
        return_data: None,
    };
    let result = normalize_bank_simulation(
        &store,
        simple_transaction(),
        &vec![],
        sim,
        0,
    );
    assert_eq!(
        result.err().unwrap(),
        ClientError::Transaction { error: TransactionError::InsufficientFunds }
    );
}

#[test]
fn bank_simulation_normalizes_empty_system_account_to_closed() {
    let store = ledger();
    let sim = BankSimulationResult {
        result: Ok(()),
        logs: vec![],
        post_simulation_accounts: vec![(addr(1), plain_account(0, system_program_address()))],
        units_consumed: 1,
        return_data: None,
    };
    let effect = normalize_bank_simulation(
        &store,
        simple_transaction(),
        &vec![addr(1)],
        sim,
        1,
    )
    .unwrap();
    assert_eq!(effect.post_accounts.len(), 1);
    assert_eq!(
        effect.post_accounts.try_get_account(&addr(1)).err().unwrap(),
        PostAccountsError::AccountClosed { address: addr(1) }
    );
}

#[test]
fn bank_simulation_replaces_executable_with_fresh_read() {
    let mut store = ledger();
    let full_program = Account {
        lamports: 77,
        data: vec![1, 2, 3, 4, 5],
        owner: addr(9),
        executable: true,
        rent_epoch: 0,
    };
    store.set_account(addr(3), full_program);
    let abbreviated = Account {
        lamports: 77,
        data: vec![],
        owner: addr(9),
        executable: true,
        rent_epoch: 0,
    };
    let sim = BankSimulationResult {
        result: Ok(()),
        logs: vec![],
        post_simulation_accounts: vec![(addr(3), abbreviated)],
        units_consumed: 1,
        return_data: None,
    };
    let effect = normalize_bank_simulation(
        &store,
        simple_transaction(),
        &vec![addr(3)],
        sim,
        1,
    )
    .unwrap();
    let fresh = effect.post_accounts.try_get_account(&addr(3)).unwrap();
    assert_eq!(fresh.data, vec![1, 2, 3, 4, 5]);
}

#[test]
fn banks_execution_missing_metadata_surfaces_error() {
    let result = normalize_banks_execution(
        simple_transaction(),
        BanksExecutionResult {
            result: Err(TransactionError::AlreadyProcessed),
            metadata: None,
        },
        None,
    );
    assert_eq!(
        result.err().unwrap(),
        ClientError::Transaction { error: TransactionError::AlreadyProcessed }
    );
}

#[test]
fn banks_execution_with_metadata_yields_outcome() {
    let out = normalize_banks_execution(
        simple_transaction(),
        BanksExecutionResult {
            result: Ok(()),
            metadata: Some(TransactionMetadata {
                log_messages: vec!["log".to_string()],
                compute_units_consumed: 321,
                return_data: None,
            }),
        },
        Some(5000),
    )
    .unwrap();
    assert_eq!(out.compute_units_consumed, 321);
    assert_eq!(out.fee, 5000);
}

#[test]
fn banks_simulation_zero_units_surfaces_error() {
    let result = normalize_banks_simulation(
        simple_transaction(),
        BanksSimulationResult {
            result: Some(Err(TransactionError::AccountNotFound)),
            simulation_details: Some(BanksSimulationDetails {
                logs: vec![],
                units_consumed: 0,
                return_data: None,
            }),
        },
        None,
    );
    assert_eq!(
        result.err().unwrap(),
        ClientError::Transaction { error: TransactionError::AccountNotFound }
    );
}

#[test]
fn rpc_simulation_zero_units_surfaces_error() {
    let store = ledger();
    let result = normalize_rpc_simulation(
        &store,
        simple_transaction(),
        &vec![],
        RpcSimulationResult {
            err: Some(TransactionError::InsufficientFunds),
            logs: None,
            accounts: None,
            units_consumed: Some(0),
            return_data: None,
        },
        0,
    );
    assert_eq!(
        result.err().unwrap(),
        ClientError::Transaction { error: TransactionError::InsufficientFunds }
    );
}

#[test]
fn rpc_simulation_builds_post_account_set() {
    let store = ledger();
    let effect = normalize_rpc_simulation(
        &store,
        simple_transaction(),
        &vec![addr(1), addr(2)],
        RpcSimulationResult {
            err: None,
            logs: Some(vec![]),
            accounts: Some(vec![
                Some(plain_account(44, addr(9))),
                Some(plain_account(0, system_program_address())),
            ]),
            units_consumed: Some(7),
            return_data: None,
        },
        99,
    )
    .unwrap();
    assert_eq!(effect.post_accounts.len(), 2);
    assert_eq!(effect.post_accounts.try_get_account(&addr(1)).unwrap().lamports, 44);
    assert_eq!(
        effect.post_accounts.try_get_account(&addr(2)).err().unwrap(),
        PostAccountsError::AccountClosed { address: addr(2) }
    );
    assert_eq!(effect.fee, 99);
    assert_eq!(effect.compute_units_consumed, 7);
}

#[test]
fn rpc_confirmed_metadata_yields_outcome() {
    let out = normalize_rpc_confirmed(
        simple_transaction(),
        ConfirmedTransactionMeta {
            err: Some(TransactionError::InstructionError {
                index: 0,
                failure: InstructionFailure::Custom { code: 6001 },
            }),
            fee: 5000,
            log_messages: Some(vec![]),
            return_data: None,
            compute_units_consumed: Some(200),
        },
    )
    .unwrap();
    assert!(!out.is_success());
    assert_eq!(out.fee, 5000);
}

#[test]
fn custom_error_code_extracts_custom_failures_only() {
    let store = ledger();
    let failing = normalize_bank_simulation(
        &store,
        simple_transaction(),
        &vec![],
        BankSimulationResult {
            result: Err(TransactionError::InstructionError {
                index: 2,
                failure: InstructionFailure::Custom { code: 6001 },
            }),
            logs: vec![],
            post_simulation_accounts: vec![],
            units_consumed: 9,
            return_data: None,
        },
        1,
    )
    .unwrap();
    assert_eq!(failing.custom_error_code(), Some(6001));
    assert!(!failing.is_success());
}

#[test]
fn try_success_passes_or_surfaces() {
    let out = normalize_bank_execution(
        simple_transaction(),
        BankExecutionResult::Executed {
            status: Err(TransactionError::InsufficientFunds),
            log_messages: None,
            return_data: None,
            executed_units: 9,
        },
        1,
    )
    .unwrap();
    assert_eq!(out.signature(), Signature { q0: 5, q1: 0, q2: 0, q3: 0 });
    assert_eq!(out.try_success().err().unwrap(), TransactionError::InsufficientFunds);
}

#[test]
fn insufficient_funds_submission_is_not_a_success() {
    // A backend lacking funds in the payer account rejects the
    // transfer before execution: the error is surfaced and no
    // signature-level success is produced.
    let result = normalize_bank_execution(
        simple_transaction(),
        BankExecutionResult::NotExecuted { error: TransactionError::InsufficientFunds },
        0,
    );
    assert_eq!(
        result.err().unwrap(),
        ClientError::Transaction { error: TransactionError::InsufficientFunds }
    );
}

#[test]
fn preflight_zero_units_is_hard_rejection() {
    let decision = preflight_decision(SendAttemptOutcome::PreflightFailure {
        error: Some(TransactionError::BlockhashNotFound),
        units_consumed: Some(0),
    });
    assert_eq!(
        decision,
        SubmitDecision::Reject { error: TransactionError::BlockhashNotFound }
    );
}

#[test]
fn preflight_with_consumed_units_still_broadcasts() {
    let decision = preflight_decision(SendAttemptOutcome::PreflightFailure {
        error: Some(TransactionError::InsufficientFunds),
        units_consumed: Some(42),
    });
    assert_eq!(decision, SubmitDecision::Broadcast);
    assert_eq!(preflight_decision(SendAttemptOutcome::Sent), SubmitDecision::Broadcast);
    assert_eq!(preflight_decision(SendAttemptOutcome::OtherFailure), SubmitDecision::Broadcast);
}

#[test]
fn confirmation_counts_ledger_errors_as_signature_success() {
    assert!(confirmation_decision(ConfirmOutcome::Confirmed).is_ok());
    assert!(
        confirmation_decision(ConfirmOutcome::LedgerError {
            error: TransactionError::InsufficientFunds,
        })
        .is_ok()
    );
    assert_eq!(
        confirmation_decision(ConfirmOutcome::TransportFailure { error: BackendError::Io })
            .err()
            .unwrap(),
        ClientError::BackendSpecific { error: BackendError::Io }
    );
}

#[test]
fn metadata_fetch_retries_are_bounded() {
    assert_eq!(
        retry_decision(0),
        RetryDecision::RetryAfterMs { ms: REMOTE_FETCH_RETRY_INTERVAL_MS }
    );
    assert_eq!(
        retry_decision(REMOTE_FETCH_MAX_RETRIES - 1),
        RetryDecision::RetryAfterMs { ms: 1000 }
    );
    assert_eq!(retry_decision(REMOTE_FETCH_MAX_RETRIES), RetryDecision::GiveUp);
}
