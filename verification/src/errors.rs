//! The error taxonomy.
//!
//! Every capability method returns a result in this taxonomy. Each adapter
//! translates its native error shape at the boundary; no backend-native
//! error type crosses into caller code. A ledger-defined transaction
//! error is passed through verbatim.

use vstd::prelude::*;
use crate::addr::Address;

verus! {

/// Failures of address-lookup-table resolution.
#[derive(Clone, Copy, PartialEq, Eq, Structural, Debug)]
pub enum AddressLookupError {
    /// The referenced table account does not exist.
    TableNotFound,
    /// The table account is owned by a foreign program.
    WrongOwner,
    /// The table account's bytes are malformed.
    CorruptData,
    /// A referenced index lies beyond the table's valid addresses.
    IndexOutOfRange,
}

/// The cause of a failed instruction inside a transaction.
#[derive(Clone, Copy, PartialEq, Eq, Structural, Debug)]
pub enum InstructionFailure {
    /// A program-defined numeric error code.
    Custom { code: u32 },
    /// The instruction's data bytes are malformed.
    InvalidData,
    /// Any other ledger-defined instruction failure, carried as an opaque
    /// numeric tag.
    Other { code: u32 },
}

/// A ledger-defined transaction error, passed through verbatim.
#[derive(Clone, Copy, PartialEq, Eq, Structural, Debug)]
pub enum TransactionError {
    /// A referenced account does not exist.
    AccountNotFound,
    /// The recent blockhash is not in the ledger's history.
    BlockhashNotFound,
    /// The fee payer cannot cover the transaction fee or transfer.
    InsufficientFunds,
    /// The transaction was already processed.
    AlreadyProcessed,
    /// Instruction `index` repeats an instruction kind allowed at most
    /// once per transaction.
    DuplicateInstruction { index: u8 },
    /// Instruction `index` failed with the given cause.
    InstructionError { index: u8, failure: InstructionFailure },
    /// Any other ledger-defined cause, carried as an opaque numeric tag.
    Other { code: u32 },
}

/// Failures of compiling instructions into a transaction.
#[derive(Clone, Copy, PartialEq, Eq, Structural, Debug)]
pub enum CompileFailure {
    /// The message references more account keys than compact indexes
    /// can address.
    TooManyKeys,
    /// A required signer provided no signature.
    MissingSignature { address: Address },
}

/// Transport, io or decode failures particular to one backend adapter.
#[derive(Clone, Copy, PartialEq, Eq, Structural, Debug)]
pub enum BackendError {
    /// A transport-level failure (connection, protocol).
    Transport,
    /// An io failure.
    Io,
    /// A response that could not be decoded.
    Decode,
    /// Any other backend-specific failure.
    Custom,
}

/// The client error taxonomy shared by every capability method.
#[derive(Clone, Copy, PartialEq, Eq, Structural, Debug)]
pub enum ClientError {
    /// An account that was required to be absent already exists.
    AccountAlreadyExists { address: Address },
    /// A required account was not found.
    AccountNotFound { address: Address },
    /// An account's data could not be deserialized.
    AccountDeserializeFailed { address: Address },
    /// An account's data could not be serialized.
    AccountSerializeFailed { address: Address },
    /// Address-lookup-table resolution failed.
    AddressLookup { error: AddressLookupError },
    /// Compiling instructions into a transaction failed.
    Compile { error: CompileFailure },
    /// The ledger rejected the transaction; the cause is passed through.
    Transaction { error: TransactionError },
    /// A failure particular to one backend adapter.
    BackendSpecific { error: BackendError },
}

impl ClientError {
    /// The contained ledger-defined transaction error, if that is what
    /// this error is.
    pub fn get_transaction_error(&self) -> (r: Option<TransactionError>)
        ensures
            r == (match *self {
                ClientError::Transaction { error } => Some(error),
                _ => None::<TransactionError>,
            }),
    {
        match *self {
            ClientError::Transaction { error } => Some(error),
            _ => None,
        }
    }
}

} // verus!
