//! The fee estimator: prioritization-fee parameters derived from a
//! sanitized transaction's compiled instructions.
//!
//! Compute-budget instructions request a compute unit limit and a
//! compute unit price (in micro units per compute unit). Scanning the
//! instructions yields the effective limit and price; the
//! prioritization fee is the price times the limit, divided by one
//! million and rounded up. Each kind of compute-budget instruction may
//! appear at most once; malformed compute-budget data is an error.

use vstd::prelude::*;
use vstd::bytes::{spec_u32_from_le_bytes, spec_u32_to_le_bytes, spec_u64_from_le_bytes, spec_u64_to_le_bytes, u32_from_le_bytes, u32_to_le_bytes, u64_from_le_bytes, u64_to_le_bytes};
use vstd::slice::slice_subrange;
use crate::addr::Address;
use crate::capability::Client;
use crate::errors::{ClientError, InstructionFailure, TransactionError};
use crate::transaction::{CompiledInstruction, Instruction, SanitizedTransaction};

verus! {

/// The compute-budget program's address.
pub open spec fn spec_compute_budget_program_address() -> Address {
    Address { hi: 0xe79bc372baadecff321721e56f460603u128, lo: 0x403a9b432c6b12f7c5bbe58cbcu128 }
}

/// See [`spec_compute_budget_program_address`].
pub fn compute_budget_program_address() -> (r: Address)
    ensures
        r == spec_compute_budget_program_address(),
{
    Address { hi: 0xe79bc372baadecff321721e56f460603u128, lo: 0x403a9b432c6b12f7c5bbe58cbcu128 }
}

/// The largest compute unit limit a transaction can request.
pub const MAX_COMPUTE_UNIT_LIMIT: u32 = 1_400_000;

/// The default compute unit limit granted per instruction that is not
/// a compute-budget instruction.
pub const DEFAULT_INSTRUCTION_COMPUTE_UNIT_LIMIT: u32 = 200_000;

/// Micro units per unit, the denominator of the fee formula.
pub const MICRO_UNITS_PER_UNIT: u64 = 1_000_000;

/// One compute-budget instruction, classified by its data bytes.
#[derive(Clone, Copy, PartialEq, Eq, Structural, Debug)]
pub enum BudgetInstruction {
    /// Requests a heap frame; irrelevant to the fee, but tracked for
    /// the at-most-once rule.
    RequestHeapFrame,
    /// Requests the compute unit limit.
    SetComputeUnitLimit { limit: u32 },
    /// Requests the compute unit price in micro units.
    SetComputeUnitPrice { price: u64 },
    /// Requests a loaded-accounts data size limit; irrelevant to the
    /// fee, but tracked for the at-most-once rule.
    SetLoadedAccountsDataSizeLimit,
    /// Anything else: malformed compute-budget data.
    Invalid,
}

/// Classifies a compute-budget instruction's data bytes: a one-byte
/// tag followed by a little-endian value of the tag's width.
pub open spec fn spec_classify_budget_data(data: Seq<u8>) -> BudgetInstruction {
    if data.len() == 5 && data[0] == 1 {
        BudgetInstruction::RequestHeapFrame
    } else if data.len() == 5 && data[0] == 2 {
        BudgetInstruction::SetComputeUnitLimit { limit: spec_u32_from_le_bytes(data.subrange(1, 5)) }
    } else if data.len() == 9 && data[0] == 3 {
        BudgetInstruction::SetComputeUnitPrice { price: spec_u64_from_le_bytes(data.subrange(1, 9)) }
    } else if data.len() == 5 && data[0] == 4 {
        BudgetInstruction::SetLoadedAccountsDataSizeLimit
    } else {
        BudgetInstruction::Invalid
    }
}

/// See [`spec_classify_budget_data`].
pub fn classify_budget_data(data: &Vec<u8>) -> (r: BudgetInstruction)
    ensures
        r == spec_classify_budget_data(data@),
{
    if data.len() == 5 && data[0] == 1 {
        BudgetInstruction::RequestHeapFrame
    } else if data.len() == 5 && data[0] == 2 {
        BudgetInstruction::SetComputeUnitLimit {
            limit: u32_from_le_bytes(slice_subrange(data.as_slice(), 1, 5)),
        }
    } else if data.len() == 9 && data[0] == 3 {
        BudgetInstruction::SetComputeUnitPrice {
            price: u64_from_le_bytes(slice_subrange(data.as_slice(), 1, 9)),
        }
    } else if data.len() == 5 && data[0] == 4 {
        BudgetInstruction::SetLoadedAccountsDataSizeLimit
    } else {
        BudgetInstruction::Invalid
    }
}

/// The running state of a compute-budget scan.
#[derive(Clone, Copy, PartialEq, Eq, Structural, Debug)]
pub struct BudgetScan {
    pub requested_limit: Option<u32>,
    pub requested_price: Option<u64>,
    pub seen_heap_frame: bool,
    pub seen_data_size_limit: bool,
    /// Instructions that are not compute-budget instructions.
    pub non_budget_count: u64,
}

/// The scan's starting state.
pub open spec fn spec_budget_scan_start() -> BudgetScan {
    BudgetScan {
        requested_limit: None,
        requested_price: None,
        seen_heap_frame: false,
        seen_data_size_limit: false,
        non_budget_count: 0,
    }
}

/// One scan step: instruction `index` with program `prog` and data
/// `data`. A repeated compute-budget instruction kind is a duplicate-
/// instruction error; malformed compute-budget data is an instruction
/// error.
pub open spec fn spec_budget_scan_step(
    state: BudgetScan,
    prog: Address,
    data: Seq<u8>,
    index: u8,
) -> Result<BudgetScan, TransactionError> {
    if prog != spec_compute_budget_program_address() {
        Ok(BudgetScan { non_budget_count: (state.non_budget_count + 1) as u64, ..state })
    } else {
        match spec_classify_budget_data(data) {
            BudgetInstruction::Invalid => Err(
                TransactionError::InstructionError {
                    index,
                    failure: InstructionFailure::InvalidData,
                },
            ),
            BudgetInstruction::RequestHeapFrame => {
                if state.seen_heap_frame {
                    Err(TransactionError::DuplicateInstruction { index })
                } else {
                    Ok(BudgetScan { seen_heap_frame: true, ..state })
                }
            },
            BudgetInstruction::SetComputeUnitLimit { limit } => {
                if state.requested_limit is Some {
                    Err(TransactionError::DuplicateInstruction { index })
                } else {
                    Ok(BudgetScan { requested_limit: Some(limit), ..state })
                }
            },
            BudgetInstruction::SetComputeUnitPrice { price } => {
                if state.requested_price is Some {
                    Err(TransactionError::DuplicateInstruction { index })
                } else {
                    Ok(BudgetScan { requested_price: Some(price), ..state })
                }
            },
            BudgetInstruction::SetLoadedAccountsDataSizeLimit => {
                if state.seen_data_size_limit {
                    Err(TransactionError::DuplicateInstruction { index })
                } else {
                    Ok(BudgetScan { seen_data_size_limit: true, ..state })
                }
            },
        }
    }
}

/// Scanning the first `n` compiled instructions, resolving each
/// program through the account key list; the first failing
/// instruction determines the error.
pub open spec fn spec_budget_scan(
    instructions: Seq<CompiledInstruction>,
    keys: Seq<Address>,
    n: int,
) -> Result<BudgetScan, TransactionError>
    recommends
        0 <= n <= instructions.len(),
    decreases n,
{
    if n <= 0 {
        Ok(spec_budget_scan_start())
    } else {
        match spec_budget_scan(instructions, keys, n - 1) {
            Err(e) => Err(e),
            Ok(state) => spec_budget_scan_step(
                state,
                keys[instructions[n - 1].program_id_index as int],
                instructions[n - 1].data@,
                (n - 1) as u8,
            ),
        }
    }
}

/// Once a prefix of the scan fails, the whole scan fails the same way.
pub proof fn lemma_budget_scan_prefix_error(
    instructions: Seq<CompiledInstruction>,
    keys: Seq<Address>,
    n: int,
    j: int,
)
    requires
        0 <= j <= n <= instructions.len(),
        spec_budget_scan(instructions, keys, j) is Err,
    ensures
        spec_budget_scan(instructions, keys, n) == spec_budget_scan(instructions, keys, j),
    decreases n - j,
{
    if j < n {
        lemma_budget_scan_prefix_error(instructions, keys, n - 1, j);
    }
}

/// The effective compute unit limit: the requested one, or the
/// per-instruction default for every non-budget instruction, in both
/// cases capped at the maximum.
pub open spec fn spec_effective_limit(state: BudgetScan) -> u32 {
    match state.requested_limit {
        Some(requested) => {
            if requested > MAX_COMPUTE_UNIT_LIMIT {
                MAX_COMPUTE_UNIT_LIMIT
            } else {
                requested
            }
        },
        None => {
            let granted = state.non_budget_count * DEFAULT_INSTRUCTION_COMPUTE_UNIT_LIMIT;
            if granted > MAX_COMPUTE_UNIT_LIMIT {
                MAX_COMPUTE_UNIT_LIMIT
            } else {
                granted as u32
            }
        },
    }
}

/// The effective compute unit price: the requested one, or zero.
pub open spec fn spec_effective_price(state: BudgetScan) -> u64 {
    match state.requested_price {
        Some(p) => p,
        None => 0,
    }
}

/// The prioritization fee for a limit and price: price times limit in
/// micro units, divided by one million and rounded up, saturated.
pub open spec fn spec_prioritization_fee(limit: u32, price: u64) -> u64 {
    let micro = (price as int) * (limit as int);
    let fee = (micro + (MICRO_UNITS_PER_UNIT - 1) as int) / (MICRO_UNITS_PER_UNIT as int);
    if fee > u64::MAX {
        u64::MAX
    } else {
        fee as u64
    }
}

/// Prioritization-fee parameters: the fee in balance units and the
/// per-unit price that produced it.
#[derive(Clone, Copy, PartialEq, Eq, Structural, Debug)]
pub struct PrioritizationFeeDetails {
    pub fee: u64,
    pub priority: u64,
}

/// Derives prioritization-fee parameters from a sanitized
/// transaction's compiled instructions.
#[verifier::loop_isolation(false)]
pub fn calculate_prioritization_fee(sanitized: &SanitizedTransaction) -> (r: Result<
    PrioritizationFeeDetails,
    ClientError,
>)
    requires
        sanitized.transaction.instructions@.len() <= u8::MAX,
        forall|i: int|
            0 <= i < sanitized.transaction.instructions@.len() ==> (
            #[trigger] sanitized.transaction.instructions@[i]).program_id_index
                < sanitized.account_keys@.len(),
    ensures
        (match spec_budget_scan(
            sanitized.transaction.instructions@,
            sanitized.account_keys@,
            sanitized.transaction.instructions@.len() as int,
        ) {
            Err(e) => r == Err::<PrioritizationFeeDetails, ClientError>(
                ClientError::Transaction { error: e },
            ),
            Ok(state) => r == Ok::<PrioritizationFeeDetails, ClientError>(
                PrioritizationFeeDetails {
                    fee: spec_prioritization_fee(
                        spec_effective_limit(state),
                        spec_effective_price(state),
                    ),
                    priority: spec_effective_price(state),
                },
            ),
        }),
{
    let instructions = &sanitized.transaction.instructions;
    let keys = &sanitized.account_keys;
    let budget_program = compute_budget_program_address();
    let mut requested_limit: Option<u32> = None;
    let mut requested_price: Option<u64> = None;
    let mut seen_heap_frame = false;
    let mut seen_data_size_limit = false;
    let mut non_budget_count: u64 = 0;
    let mut i: usize = 0;
    while i < instructions.len()
        invariant
            0 <= i <= instructions@.len(),
            spec_budget_scan(instructions@, keys@, i as int) == Ok::<BudgetScan, TransactionError>(
                BudgetScan {
                    requested_limit,
                    requested_price,
                    seen_heap_frame,
                    seen_data_size_limit,
                    non_budget_count,
                },
            ),
            non_budget_count <= i,
        decreases instructions@.len() - i,
    {
        let ghost pre = BudgetScan {
            requested_limit,
            requested_price,
            seen_heap_frame,
            seen_data_size_limit,
            non_budget_count,
        };
        let instruction = &instructions[i];
        let prog = keys[instruction.program_id_index as usize];
        if prog == budget_program {
            match classify_budget_data(&instruction.data) {
                BudgetInstruction::Invalid => {
                    proof {
                        lemma_budget_scan_prefix_error(
                            instructions@,
                            keys@,
                            instructions@.len() as int,
                            i as int + 1,
                        );
                    }
                    return Err(
                        ClientError::Transaction {
                            error: TransactionError::InstructionError {
                                index: i as u8,
                                failure: InstructionFailure::InvalidData,
                            },
                        },
                    );
                },
                BudgetInstruction::RequestHeapFrame => {
                    if seen_heap_frame {
                        proof {
                            lemma_budget_scan_prefix_error(
                                instructions@,
                                keys@,
                                instructions@.len() as int,
                                i as int + 1,
                            );
                        }
                        return Err(
                            ClientError::Transaction {
                                error: TransactionError::DuplicateInstruction { index: i as u8 },
                            },
                        );
                    }
                    seen_heap_frame = true;
                },
                BudgetInstruction::SetComputeUnitLimit { limit } => {
                    if requested_limit.is_some() {
                        proof {
                            lemma_budget_scan_prefix_error(
                                instructions@,
                                keys@,
                                instructions@.len() as int,
                                i as int + 1,
                            );
                        }
                        return Err(
                            ClientError::Transaction {
                                error: TransactionError::DuplicateInstruction { index: i as u8 },
                            },
                        );
                    }
                    requested_limit = Some(limit);
                },
                BudgetInstruction::SetComputeUnitPrice { price } => {
                    if requested_price.is_some() {
                        proof {
                            lemma_budget_scan_prefix_error(
                                instructions@,
                                keys@,
                                instructions@.len() as int,
                                i as int + 1,
                            );
                        }
                        return Err(
                            ClientError::Transaction {
                                error: TransactionError::DuplicateInstruction { index: i as u8 },
                            },
                        );
                    }
                    requested_price = Some(price);
                },
                BudgetInstruction::SetLoadedAccountsDataSizeLimit => {
                    if seen_data_size_limit {
                        proof {
                            lemma_budget_scan_prefix_error(
                                instructions@,
                                keys@,
                                instructions@.len() as int,
                                i as int + 1,
                            );
                        }
                        return Err(
                            ClientError::Transaction {
                                error: TransactionError::DuplicateInstruction { index: i as u8 },
                            },
                        );
                    }
                    seen_data_size_limit = true;
                },
            }
        } else {
            non_budget_count = non_budget_count + 1;
        }
        i = i + 1;
    }
    let ghost final_state = BudgetScan {
        requested_limit,
        requested_price,
        seen_heap_frame,
        seen_data_size_limit,
        non_budget_count,
    };
    let limit: u32 = match requested_limit {
        Some(requested) => {
            if requested > MAX_COMPUTE_UNIT_LIMIT {
                MAX_COMPUTE_UNIT_LIMIT
            } else {
                requested
            }
        },
        None => {
            proof {
                assert(non_budget_count <= 255);
                assert(non_budget_count * (DEFAULT_INSTRUCTION_COMPUTE_UNIT_LIMIT as u64) <= 255u64
                    * 200_000u64) by (nonlinear_arith)
                    requires
                        non_budget_count <= 255u64,
                ;
            }
            let granted: u64 = non_budget_count * (DEFAULT_INSTRUCTION_COMPUTE_UNIT_LIMIT as u64);
            if granted > MAX_COMPUTE_UNIT_LIMIT as u64 {
                MAX_COMPUTE_UNIT_LIMIT
            } else {
                granted as u32
            }
        },
    };
    let price: u64 = match requested_price {
        Some(p) => p,
        None => 0,
    };
    proof {
        assert(limit == spec_effective_limit(final_state));
        assert(price == spec_effective_price(final_state));
    }
    proof {
        assert((price as int) * (limit as int) <= 0xffff_ffff_ffff_ffffu64 * 0xffff_ffffu32)
            by (nonlinear_arith)
            requires
                price <= 0xffff_ffff_ffff_ffffu64,
                limit <= 0xffff_ffffu32,
        ;
    }
    let micro: u128 = (price as u128) * (limit as u128);
    let fee_wide: u128 = (micro + ((MICRO_UNITS_PER_UNIT - 1) as u128)) / (
    MICRO_UNITS_PER_UNIT as u128);
    let fee: u64 = if fee_wide > u64::MAX as u128 {
        u64::MAX
    } else {
        fee_wide as u64
    };
    Ok(PrioritizationFeeDetails { fee, priority: price })
}

/// Builds the instruction requesting a compute unit limit.
pub fn build_set_compute_unit_limit(limit: u32) -> (r: Instruction)
    ensures
        r.program_id == spec_compute_budget_program_address(),
        r.accounts@.len() == 0,
        spec_classify_budget_data(r.data@) == (BudgetInstruction::SetComputeUnitLimit { limit }),
{
    let mut data: Vec<u8> = Vec::new();
    data.push(2);
    let mut value = u32_to_le_bytes(limit);
    data.append(&mut value);
    proof {
        assert(data@.subrange(1, 5) =~= spec_u32_to_le_bytes(limit));
        vstd::bytes::lemma_auto_spec_u32_to_from_le_bytes();
    }
    Instruction { program_id: compute_budget_program_address(), accounts: Vec::new(), data }
}

/// Builds the instruction requesting a compute unit price, in micro
/// units per compute unit.
pub fn build_set_compute_unit_price(price: u64) -> (r: Instruction)
    ensures
        r.program_id == spec_compute_budget_program_address(),
        r.accounts@.len() == 0,
        spec_classify_budget_data(r.data@) == (BudgetInstruction::SetComputeUnitPrice { price }),
{
    let mut data: Vec<u8> = Vec::new();
    data.push(3);
    let mut value = u64_to_le_bytes(price);
    data.append(&mut value);
    proof {
        assert(data@.subrange(1, 9) =~= spec_u64_to_le_bytes(price));
        vstd::bytes::lemma_auto_spec_u64_to_from_le_bytes();
    }
    Instruction { program_id: compute_budget_program_address(), accounts: Vec::new(), data }
}

/// The fee estimator as a capability, shared by every backend.
pub trait CalculatePrioritizationFee: Client {
    /// Derives prioritization-fee parameters from a sanitized
    /// transaction's compiled instructions.
    fn calculate_prioritization_fee(&self, sanitized: &SanitizedTransaction) -> (r: Result<
        PrioritizationFeeDetails,
        ClientError,
    >)
        requires
            sanitized.transaction.instructions@.len() <= u8::MAX,
            forall|i: int|
                0 <= i < sanitized.transaction.instructions@.len() ==> (
                #[trigger] sanitized.transaction.instructions@[i]).program_id_index
                    < sanitized.account_keys@.len(),
        ensures
            (match spec_budget_scan(
                sanitized.transaction.instructions@,
                sanitized.account_keys@,
                sanitized.transaction.instructions@.len() as int,
            ) {
                Err(e) => r == Err::<PrioritizationFeeDetails, ClientError>(
                    ClientError::Transaction { error: e },
                ),
                Ok(state) => r == Ok::<PrioritizationFeeDetails, ClientError>(
                    PrioritizationFeeDetails {
                        fee: spec_prioritization_fee(
                            spec_effective_limit(state),
                            spec_effective_price(state),
                        ),
                        priority: spec_effective_price(state),
                    },
                ),
            }),
    {
        calculate_prioritization_fee(sanitized)
    }
}

impl<C: Client> CalculatePrioritizationFee for C {

}

} // verus!
