//! The transaction model.
//!
//! A versioned transaction carries ordered signatures and a compiled
//! message: a header, the statically compiled account keys, a recent
//! blockhash, compiled instructions, and zero or more address-lookup-
//! table references. Sanitization resolves the references into a fully
//! explicit account key list.

use vstd::prelude::*;
use crate::addr::{Address, BlockHash, Signature};

verus! {

/// One account required by an instruction, with its access flags.
#[derive(Clone, Copy, PartialEq, Eq, Structural, Debug)]
pub struct AccountMeta {
    pub address: Address,
    pub is_signer: bool,
    pub is_writable: bool,
}

/// An instruction as a caller assembles it, with explicit addresses.
#[derive(Debug)]
pub struct Instruction {
    /// The program that executes the instruction.
    pub program_id: Address,
    /// The accounts the instruction touches, in order.
    pub accounts: Vec<AccountMeta>,
    /// The instruction's input bytes.
    pub data: Vec<u8>,
}

/// An instruction compiled against a message's account key list: every
/// account is a compact index into that list.
#[derive(Debug)]
pub struct CompiledInstruction {
    /// Index of the program's address in the account key list.
    pub program_id_index: u8,
    /// Indexes of the instruction's accounts in the account key list.
    pub account_indexes: Vec<u8>,
    /// The instruction's input bytes.
    pub data: Vec<u8>,
}

/// An address lookup table as handed to the compiler: the on-chain
/// table account's address and its full address list.
#[derive(Debug)]
pub struct AddressLookupTableAccount {
    /// The table account's address.
    pub key: Address,
    /// The table's addresses, in table order.
    pub addresses: Vec<Address>,
}

/// A compressed reference into one on-chain address lookup table.
#[derive(Debug)]
pub struct LookupTableReference {
    /// The table account's address.
    pub table_address: Address,
    /// Table indexes resolved as writable, in order.
    pub writable_indexes: Vec<u8>,
    /// Table indexes resolved as read-only, in order.
    pub readonly_indexes: Vec<u8>,
}

/// The message header: how the static account key list is partitioned
/// into signing and read-only sections.
#[derive(Clone, Copy, PartialEq, Eq, Structural, Debug)]
pub struct MessageHeader {
    pub num_required_signatures: u8,
    pub num_readonly_signed: u8,
    pub num_readonly_unsigned: u8,
}

/// A compiled transaction: signatures plus a versioned message.
#[derive(Debug)]
pub struct VersionedTransaction {
    /// One signature per required signer, in key-list order.
    pub signatures: Vec<Signature>,
    pub header: MessageHeader,
    /// The statically compiled account keys.
    pub static_keys: Vec<Address>,
    pub recent_blockhash: BlockHash,
    pub instructions: Vec<CompiledInstruction>,
    /// References into address lookup tables, in reference order.
    pub lookups: Vec<LookupTableReference>,
}

impl VersionedTransaction {
    /// The transaction's identifying signature: the fee payer's, which
    /// comes first.
    pub fn signature(&self) -> (r: Signature)
        requires
            self.signatures@.len() > 0,
        ensures
            r == self.signatures@[0],
    {
        self.signatures[0]
    }
}

/// Field-level equality of compiled instructions, data as sequences.
pub open spec fn spec_compiled_instruction_eq(a: CompiledInstruction, b: CompiledInstruction) -> bool {
    &&& a.program_id_index == b.program_id_index
    &&& a.account_indexes@ == b.account_indexes@
    &&& a.data@ == b.data@
}

/// Field-level equality of table references, index lists as sequences.
pub open spec fn spec_lookup_reference_eq(a: LookupTableReference, b: LookupTableReference) -> bool {
    &&& a.table_address == b.table_address
    &&& a.writable_indexes@ == b.writable_indexes@
    &&& a.readonly_indexes@ == b.readonly_indexes@
}

impl Clone for CompiledInstruction {
    /// Clones the instruction; the copy has the same value in every
    /// field.
    fn clone(&self) -> (r: CompiledInstruction)
        ensures
            spec_compiled_instruction_eq(r, *self),
    {
        CompiledInstruction {
            program_id_index: self.program_id_index,
            account_indexes: vstd::slice::slice_to_vec(self.account_indexes.as_slice()),
            data: vstd::slice::slice_to_vec(self.data.as_slice()),
        }
    }
}

impl Clone for LookupTableReference {
    /// Clones the reference; the copy has the same value in every
    /// field.
    fn clone(&self) -> (r: LookupTableReference)
        ensures
            spec_lookup_reference_eq(r, *self),
    {
        LookupTableReference {
            table_address: self.table_address,
            writable_indexes: vstd::slice::slice_to_vec(self.writable_indexes.as_slice()),
            readonly_indexes: vstd::slice::slice_to_vec(self.readonly_indexes.as_slice()),
        }
    }
}

impl Clone for VersionedTransaction {
    /// Clones the transaction; the copy has the same value in every
    /// field.
    #[verifier::loop_isolation(false)]
    fn clone(&self) -> (r: VersionedTransaction)
        ensures
            r.signatures@ == self.signatures@,
            r.header == self.header,
            r.static_keys@ == self.static_keys@,
            r.recent_blockhash == self.recent_blockhash,
            r.instructions@.len() == self.instructions@.len(),
            forall|i: int|
                0 <= i < self.instructions@.len() ==> spec_compiled_instruction_eq(
                    #[trigger] r.instructions@[i],
                    self.instructions@[i],
                ),
            r.lookups@.len() == self.lookups@.len(),
            forall|i: int|
                0 <= i < self.lookups@.len() ==> spec_lookup_reference_eq(
                    #[trigger] r.lookups@[i],
                    self.lookups@[i],
                ),
    {
        let mut instructions: Vec<CompiledInstruction> = Vec::new();
        let mut i: usize = 0;
        while i < self.instructions.len()
            invariant
                0 <= i <= self.instructions@.len(),
                instructions@.len() == i,
                forall|j: int|
                    0 <= j < i ==> spec_compiled_instruction_eq(
                        #[trigger] instructions@[j],
                        self.instructions@[j],
                    ),
            decreases self.instructions@.len() - i,
        {
            instructions.push(self.instructions[i].clone());
            i = i + 1;
        }
        let mut lookups: Vec<LookupTableReference> = Vec::new();
        let mut k: usize = 0;
        while k < self.lookups.len()
            invariant
                0 <= k <= self.lookups@.len(),
                lookups@.len() == k,
                forall|j: int|
                    0 <= j < k ==> spec_lookup_reference_eq(
                        #[trigger] lookups@[j],
                        self.lookups@[j],
                    ),
            decreases self.lookups@.len() - k,
        {
            lookups.push(self.lookups[k].clone());
            k = k + 1;
        }
        VersionedTransaction {
            signatures: vstd::slice::slice_to_vec(self.signatures.as_slice()),
            header: self.header,
            static_keys: vstd::slice::slice_to_vec(self.static_keys.as_slice()),
            recent_blockhash: self.recent_blockhash,
            instructions,
            lookups,
        }
    }
}

/// A transaction together with its fully resolved account key list:
/// the static keys, then every writable lookup-resolved key (tables in
/// reference order), then every read-only lookup-resolved key (tables
/// in reference order).
#[derive(Debug)]
pub struct SanitizedTransaction {
    pub transaction: VersionedTransaction,
    /// The full ordered account key list.
    pub account_keys: Vec<Address>,
}

} // verus!
