//! Wire encodings used at the remote network boundary.
//!
//! The remote endpoint carries serialized messages and return data as
//! base58 or base64 text. The encodings themselves come from outside
//! crates; their results are named here and everything around them is
//! verified against those names.

use vstd::prelude::*;
use base64::Engine;
use crate::addr::{spec_address_of_bytes, Address};
use crate::errors::{BackendError, ClientError};
use crate::execution::ReturnData;

verus! {

/// What base64's standard-alphabet encoder returns for `b`.
pub uninterp spec fn base64_encoding(b: Seq<u8>) -> Seq<char>;

/// What base64's standard-alphabet decoder returns for `s`: the bytes,
/// or `None` for text that is not valid base64.
pub uninterp spec fn base64_decoding(s: Seq<char>) -> Option<Seq<u8>>;

/// What the base58 encoder returns for `b`.
pub uninterp spec fn base58_encoding(b: Seq<u8>) -> Seq<char>;

/// What the base58 decoder returns for `s`: the bytes, or `None` for
/// text that is not valid base58.
pub uninterp spec fn base58_decoding(s: Seq<char>) -> Option<Seq<u8>>;

/// Relies on base64's standard-alphabet `Engine::encode`: the result
/// depends on the input bytes alone.
#[verifier::external_body]
fn base64_encode(bytes: &Vec<u8>) -> (r: String)
    ensures
        r@ == base64_encoding(bytes@),
{
    base64::engine::general_purpose::STANDARD.encode(bytes.as_slice())
}

/// Relies on base64's standard-alphabet `Engine::decode`: the result
/// depends on the input text alone, and decoding fails exactly on
/// invalid base64.
#[verifier::external_body]
fn base64_decode(text: &str) -> (r: Option<Vec<u8>>)
    ensures
        (match r {
            Some(v) => base64_decoding(text@) == Some(v@),
            None => base64_decoding(text@) is None,
        }),
{
    match base64::engine::general_purpose::STANDARD.decode(text.as_bytes()) {
        Ok(v) => Some(v),
        Err(_) => None,
    }
}

/// Relies on `bs58::encode`: the result depends on the input bytes
/// alone.
#[verifier::external_body]
fn base58_encode(bytes: &Vec<u8>) -> (r: String)
    ensures
        r@ == base58_encoding(bytes@),
{
    bs58::encode(bytes.as_slice()).into_string()
}

/// Relies on `bs58::decode`: the result depends on the input text
/// alone, and decoding fails exactly on invalid base58.
#[verifier::external_body]
fn base58_decode(text: &str) -> (r: Option<Vec<u8>>)
    ensures
        (match r {
            Some(v) => base58_decoding(text@) == Some(v@),
            None => base58_decoding(text@) is None,
        }),
{
    match bs58::decode(text.as_bytes()).into_vec() {
        Ok(v) => Some(v),
        Err(_) => None,
    }
}

/// The text encodings a serialized message can be sent in.
#[derive(Clone, Copy, PartialEq, Eq, Structural, Debug)]
pub enum WireEncoding {
    Base58,
    Base64,
    /// A structured encoding; serialized messages do not support it.
    Json,
}

/// Encodes an already-serialized message for the wire: base58 or
/// base64 text; any other encoding is rejected.
pub fn encode_serialized_message(bytes: &Vec<u8>, encoding: WireEncoding) -> (r: Result<
    String,
    ClientError,
>)
    ensures
        (match encoding {
            WireEncoding::Base58 => (match r {
                Ok(s) => s@ == base58_encoding(bytes@),
                Err(_) => false,
            }),
            WireEncoding::Base64 => (match r {
                Ok(s) => s@ == base64_encoding(bytes@),
                Err(_) => false,
            }),
            WireEncoding::Json => r == Err::<String, ClientError>(
                ClientError::BackendSpecific { error: BackendError::Custom },
            ),
        }),
{
    match encoding {
        WireEncoding::Base58 => Ok(base58_encode(bytes)),
        WireEncoding::Base64 => Ok(base64_encode(bytes)),
        WireEncoding::Json => Err(ClientError::BackendSpecific { error: BackendError::Custom }),
    }
}

/// Return data as the remote endpoint reports it: a base58 program
/// address and base64 data bytes.
#[derive(Debug)]
pub struct UiReturnData {
    pub program_id_base58: String,
    pub data_base64: String,
}

/// What decoding a reported return-data record yields: the program
/// address (whose base58 text must decode to exactly 32 bytes) and the
/// data bytes, or nothing if either decoding fails.
pub open spec fn spec_decode_return_data(pid: Seq<char>, data: Seq<char>) -> Option<
    (Address, Seq<u8>),
> {
    match (base58_decoding(pid), base64_decoding(data)) {
        (Some(pb), Some(db)) => {
            if pb.len() == 32 {
                Some((spec_address_of_bytes(pb), db))
            } else {
                None
            }
        },
        _ => None,
    }
}

/// Decodes a reported return-data record.
pub fn decode_return_data(ui: &UiReturnData) -> (r: Result<ReturnData, ClientError>)
    ensures
        (match r {
            Ok(rd) => spec_decode_return_data(ui.program_id_base58@, ui.data_base64@) == Some(
                (rd.program_id, rd.data@),
            ),
            Err(e) => spec_decode_return_data(ui.program_id_base58@, ui.data_base64@) is None && e
                == ClientError::BackendSpecific { error: BackendError::Decode },
        }),
{
    let pid_bytes = match base58_decode(ui.program_id_base58.as_str()) {
        Some(v) => v,
        None => {
            return Err(ClientError::BackendSpecific { error: BackendError::Decode });
        },
    };
    if pid_bytes.len() != 32 {
        return Err(ClientError::BackendSpecific { error: BackendError::Decode });
    }
    let data = match base64_decode(ui.data_base64.as_str()) {
        Some(v) => v,
        None => {
            return Err(ClientError::BackendSpecific { error: BackendError::Decode });
        },
    };
    let program_id = Address::from_bytes(pid_bytes.as_slice());
    Ok(ReturnData { program_id, data })
}

} // verus!
