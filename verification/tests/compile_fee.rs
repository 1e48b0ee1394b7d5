//! Compiling transactions, the fee estimator, and the wire encodings.

use dexter_client::addr::{Address, BlockHash, Signature};
use dexter_client::compile::compile_transaction_with_blockhash;
use dexter_client::encode::{
    decode_return_data, encode_serialized_message, UiReturnData, WireEncoding,
};
use dexter_client::errors::{
    ClientError, CompileFailure, InstructionFailure, TransactionError,
};
use dexter_client::fee::{
    build_set_compute_unit_limit, build_set_compute_unit_price, calculate_prioritization_fee,
    compute_budget_program_address,
};
use dexter_client::transaction::{
    AccountMeta, AddressLookupTableAccount, Instruction, SanitizedTransaction,
    VersionedTransaction,
};

fn addr(tag: u8) -> Address {
    Address::from_bytes(&[tag; 32])
}

fn signature(tag: u8) -> Signature {
    Signature { q0: tag as u128, q1: 0, q2: 0, q3: 0 }
}

fn blockhash() -> BlockHash {
    BlockHash::from_bytes(&[9; 32])
}

fn no_tables() -> Vec<AddressLookupTableAccount> {
    Vec::new()
}

fn transfer_instruction(from: Address, to: Address) -> Instruction {
    Instruction {
        program_id: addr(100),
        accounts: vec![
            AccountMeta { address: from, is_signer: true, is_writable: true },
            AccountMeta { address: to, is_signer: false, is_writable: true },
        ],
        data: vec![2, 0, 0, 0],
    }
}

fn budget_instruction(data: Vec<u8>) -> Instruction {
    Instruction { program_id: compute_budget_program_address(), accounts: vec![], data }
}

fn set_limit(limit: u32) -> Instruction {
    build_set_compute_unit_limit(limit)
}

fn set_price(price: u64) -> Instruction {
    build_set_compute_unit_price(price)
}

#[test]
fn compile_dedups_repeated_signer_keys() {
    let payer = addr(1);
    let instructions = vec![transfer_instruction(payer, addr(2))];
    // The same signer offered twice: only one signature is used.
    let signers = vec![(payer, signature(7)), (payer, signature(8))];
    let tx = compile_transaction_with_blockhash(&instructions, payer, &signers, &no_tables(), blockhash())
        .unwrap();
    assert_eq!(tx.header.num_required_signatures, 1);
    assert_eq!(tx.signatures, vec![signature(7)]);
    assert_eq!(tx.static_keys[0], payer);
    assert_eq!(tx.static_keys.len(), 3);
    assert_eq!(tx.recent_blockhash, blockhash());
    assert!(tx.lookups.is_empty());
}

#[test]
fn compile_indexes_every_instruction_account() {
    let payer = addr(1);
    let instructions = vec![transfer_instruction(payer, addr(2))];
    let signers = vec![(payer, signature(7))];
    let tx = compile_transaction_with_blockhash(&instructions, payer, &signers, &no_tables(), blockhash())
        .unwrap();
    let compiled = &tx.instructions[0];
    assert_eq!(tx.static_keys[compiled.program_id_index as usize], addr(100));
    assert_eq!(tx.static_keys[compiled.account_indexes[0] as usize], payer);
    assert_eq!(tx.static_keys[compiled.account_indexes[1] as usize], addr(2));
    assert_eq!(compiled.data, vec![2, 0, 0, 0]);
}

#[test]
fn compile_partitions_signers_and_writability() {
    let payer = addr(1);
    let instructions = vec![
        Instruction {
            program_id: addr(100),
            accounts: vec![
                AccountMeta { address: addr(2), is_signer: true, is_writable: false },
                AccountMeta { address: addr(3), is_signer: false, is_writable: true },
                AccountMeta { address: addr(4), is_signer: false, is_writable: false },
            ],
            data: vec![],
        },
    ];
    let signers = vec![(payer, signature(7)), (addr(2), signature(8))];
    let tx = compile_transaction_with_blockhash(&instructions, payer, &signers, &no_tables(), blockhash())
        .unwrap();
    assert_eq!(tx.header.num_required_signatures, 2);
    assert_eq!(tx.header.num_readonly_signed, 1);
    // Read-only unsigned: addr(4) and the program id.
    assert_eq!(tx.header.num_readonly_unsigned, 2);
    assert_eq!(tx.static_keys[0], payer);
    assert_eq!(tx.static_keys[1], addr(2));
    assert_eq!(tx.static_keys[2], addr(3));
    assert_eq!(tx.signatures, vec![signature(7), signature(8)]);
}

#[test]
fn compile_missing_signature_is_an_error() {
    let payer = addr(1);
    let instructions = vec![transfer_instruction(payer, addr(2))];
    let signers: Vec<(Address, Signature)> = vec![];
    let result = compile_transaction_with_blockhash(&instructions, payer, &signers, &no_tables(), blockhash());
    assert_eq!(
        result.err().unwrap(),
        ClientError::Compile { error: CompileFailure::MissingSignature { address: payer } }
    );
}

fn sanitized(instructions: Vec<Instruction>, payer: Address) -> SanitizedTransaction {
    let signers = vec![(payer, signature(7))];
    let tx: VersionedTransaction =
        compile_transaction_with_blockhash(&instructions, payer, &signers, &no_tables(), blockhash()).unwrap();
    let account_keys = tx.static_keys.clone();
    SanitizedTransaction { transaction: tx, account_keys }
}

#[test]
fn prioritization_fee_from_requested_limit_and_price() {
    let payer = addr(1);
    let st = sanitized(
        vec![set_limit(2_000), set_price(1_000_000), transfer_instruction(payer, addr(2))],
        payer,
    );
    let details = calculate_prioritization_fee(&st).unwrap();
    // 2,000 units at 1,000,000 micro units each: exactly 2,000.
    assert_eq!(details.fee, 2_000);
    assert_eq!(details.priority, 1_000_000);
}

#[test]
fn prioritization_fee_rounds_up() {
    let payer = addr(1);
    let st = sanitized(vec![set_limit(1_000), set_price(1)], payer);
    // 1,000 micro units is less than one whole unit: rounded up to 1.
    assert_eq!(calculate_prioritization_fee(&st).unwrap().fee, 1);
}

#[test]
fn prioritization_fee_defaults_without_requests() {
    let payer = addr(1);
    let st = sanitized(
        vec![transfer_instruction(payer, addr(2)), transfer_instruction(payer, addr(3))],
        payer,
    );
    let details = calculate_prioritization_fee(&st).unwrap();
    assert_eq!(details.fee, 0);
    assert_eq!(details.priority, 0);
}

#[test]
fn prioritization_fee_caps_requested_limit() {
    let payer = addr(1);
    let st = sanitized(vec![set_limit(2_000_000), set_price(1_000_000)], payer);
    // Capped at 1,400,000 units.
    assert_eq!(calculate_prioritization_fee(&st).unwrap().fee, 1_400_000);
}

#[test]
fn duplicate_budget_instruction_is_an_error() {
    let payer = addr(1);
    let st = sanitized(vec![set_limit(1_000), set_limit(2_000)], payer);
    assert_eq!(
        calculate_prioritization_fee(&st).err().unwrap(),
        ClientError::Transaction { error: TransactionError::DuplicateInstruction { index: 1 } }
    );
}

#[test]
fn malformed_budget_instruction_is_an_error() {
    let payer = addr(1);
    let st = sanitized(vec![budget_instruction(vec![9, 9])], payer);
    assert_eq!(
        calculate_prioritization_fee(&st).err().unwrap(),
        ClientError::Transaction {
            error: TransactionError::InstructionError {
                index: 0,
                failure: InstructionFailure::InvalidData,
            },
        }
    );
}

#[test]
fn message_encoding_base64_and_base58() {
    let bytes = vec![0u8, 0, 0];
    assert_eq!(
        encode_serialized_message(&bytes, WireEncoding::Base64).unwrap(),
        "AAAA".to_string()
    );
    assert_eq!(
        encode_serialized_message(&bytes, WireEncoding::Base58).unwrap(),
        "111".to_string()
    );
    assert!(encode_serialized_message(&bytes, WireEncoding::Json).is_err());
}

#[test]
fn return_data_decodes_program_id_and_bytes() {
    // 32 one-bytes in base58, and [1, 2, 3] in base64.
    let ui = UiReturnData {
        program_id_base58: "4vJ9JU1bJJE96FWSJKvHsmmFADCg4gpZQff4P3bkLKi".to_string(),
        data_base64: "AQID".to_string(),
    };
    let rd = decode_return_data(&ui).unwrap();
    assert_eq!(rd.program_id, Address::from_bytes(&[1; 32]));
    assert_eq!(rd.data, vec![1, 2, 3]);
}

#[test]
fn return_data_rejects_invalid_encodings() {
    let bad_b58 = UiReturnData {
        program_id_base58: "0O".to_string(),
        data_base64: "AQID".to_string(),
    };
    assert!(decode_return_data(&bad_b58).is_err());
    let bad_len = UiReturnData {
        program_id_base58: "abc".to_string(),
        data_base64: "AQID".to_string(),
    };
    assert!(decode_return_data(&bad_len).is_err());
    let bad_b64 = UiReturnData {
        program_id_base58: "4vJ9JU1bJJE96FWSJKvHsmmFADCg4gpZQff4P3bkLKi".to_string(),
        data_base64: "@@".to_string(),
    };
    assert!(decode_return_data(&bad_b64).is_err());
}

#[test]
fn compile_extracts_table_keys_into_references() {
    let payer = addr(1);
    // addr(2) writable non-signer, addr(3) read-only non-signer; both
    // in the provided table; the program id stays static.
    let instructions = vec![
        Instruction {
            program_id: addr(100),
            accounts: vec![
                AccountMeta { address: addr(2), is_signer: false, is_writable: true },
                AccountMeta { address: addr(3), is_signer: false, is_writable: false },
            ],
            data: vec![7],
        },
    ];
    let tables = vec![
        AddressLookupTableAccount {
            key: addr(50),
            addresses: vec![addr(9), addr(3), addr(2)],
        },
    ];
    let signers = vec![(payer, signature(7))];
    let tx = compile_transaction_with_blockhash(&instructions, payer, &signers, &tables, blockhash())
        .unwrap();
    // Static: payer and the invoked program only.
    assert_eq!(tx.static_keys, vec![addr(1), addr(100)]);
    assert_eq!(tx.lookups.len(), 1);
    assert_eq!(tx.lookups[0].table_address, addr(50));
    assert_eq!(tx.lookups[0].writable_indexes, vec![2]);
    assert_eq!(tx.lookups[0].readonly_indexes, vec![1]);
    // Indexes resolve through the full key space: static keys, then
    // the claimed writable key, then the claimed read-only key.
    let compiled = &tx.instructions[0];
    assert_eq!(compiled.account_indexes, vec![2, 3]);
    assert_eq!(tx.header.num_required_signatures, 1);
    assert_eq!(tx.header.num_readonly_unsigned, 1);
}

#[test]
fn compile_keeps_signers_and_invoked_programs_static()
{
    let payer = addr(1);
    // The payer and the program are both listed in the table, but
    // signers and invoked programs are never compressed.
    let instructions = vec![transfer_instruction(payer, addr(2))];
    let tables = vec![
        AddressLookupTableAccount {
            key: addr(50),
            addresses: vec![addr(1), addr(100)],
        },
    ];
    let signers = vec![(payer, signature(7))];
    let tx = compile_transaction_with_blockhash(&instructions, payer, &signers, &tables, blockhash())
        .unwrap();
    assert!(tx.lookups.is_empty() || tx.lookups[0].writable_indexes == vec![0u8; 0]);
    assert!(tx.static_keys.contains(&addr(1)));
    assert!(tx.static_keys.contains(&addr(100)));
}

#[test]
fn compile_first_table_claims_a_shared_key() {
    let payer = addr(1);
    let instructions = vec![
        Instruction {
            program_id: addr(100),
            accounts: vec![
                AccountMeta { address: addr(2), is_signer: false, is_writable: true },
            ],
            data: vec![],
        },
    ];
    let tables = vec![
        AddressLookupTableAccount { key: addr(50), addresses: vec![addr(2)] },
        AddressLookupTableAccount { key: addr(51), addresses: vec![addr(2)] },
    ];
    let signers = vec![(payer, signature(7))];
    let tx = compile_transaction_with_blockhash(&instructions, payer, &signers, &tables, blockhash())
        .unwrap();
    assert_eq!(tx.lookups.len(), 1);
    assert_eq!(tx.lookups[0].table_address, addr(50));
    assert_eq!(tx.lookups[0].writable_indexes, vec![0]);
}
