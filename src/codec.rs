use vstd::prelude::*;
use crate::error::WalletError;

verus! {

#[verifier::external_type_specification]
#[verifier::external_body]
pub struct ExBase64DecodeError(base64::DecodeError);

/// The standard padded base64 text of some bytes.
pub uninterp spec fn base64_text(b: Seq<u8>) -> Seq<char>;

/// The bytes that a standard padded base64 text denotes, if it is well formed.
pub uninterp spec fn base64_bytes(s: Seq<char>) -> Option<Seq<u8>>;

/// Relies on `base64::encode` (standard alphabet, padded); decoding its text
/// gives the same bytes back.
#[verifier::external_body]
fn encode_base64(b: &Vec<u8>) -> (r: String)
    ensures
        r@ == base64_text(b@),
        base64_bytes(r@) == Some(b@),
{
    base64::encode(b)
}

/// Relies on `base64::decode` (standard alphabet, padded): the bytes, or an
/// error for text that is not well-formed base64.
#[verifier::external_body]
fn decode_base64(s: &str) -> (r: Result<Vec<u8>, base64::DecodeError>)
    ensures
        match r {
            Ok(v) => base64_bytes(s@) == Some(v@),
            Err(_) => base64_bytes(s@) is None,
        },
{
    base64::decode(s)
}

/// Whether bytes decode as a binary PSBT: magic, a global map holding the
/// unsigned transaction, and consistent per-input and per-output maps.
pub uninterp spec fn psbt_decodes(b: Seq<u8>) -> bool;

/// Relies on `bitcoin::consensus::deserialize::<PartiallySignedTransaction>`
/// (bitcoin 0.27, through bdk): whether the bytes are one well-formed PSBT.
#[verifier::external_body]
fn psbt_structure_ok(b: &Vec<u8>) -> (r: bool)
    ensures
        r == psbt_decodes(b@),
{
    bdk::bitcoin::consensus::deserialize::<bdk::bitcoin::util::psbt::PartiallySignedTransaction>(b).is_ok()
}

/// The magic that opens every binary PSBT: "psbt" followed by 0xff.
pub open spec fn has_psbt_magic(b: Seq<u8>) -> bool {
    b.len() >= 5 && b[0] == 0x70 && b[1] == 0x73 && b[2] == 0x62 && b[3] == 0x74 && b[4] == 0xff
}

/// The binary PSBT that a transport text carries, if any.
pub open spec fn psbt_of_text(s: Seq<char>) -> Option<Seq<u8>> {
    match base64_bytes(s) {
        Some(b) => if has_psbt_magic(b) && psbt_decodes(b) {
            Some(b)
        } else {
            None
        },
        None => None,
    }
}

/// Accepts decoded transport bytes as a binary PSBT only if they open with
/// the PSBT magic and decode as one.
pub fn accept_psbt_bytes(decoded: Option<Vec<u8>>) -> (r: Result<Vec<u8>, WalletError>)
    ensures
        match decoded {
            Some(b) => if has_psbt_magic(b@) && psbt_decodes(b@) {
                r matches Ok(v) && v@ == b@
            } else {
                r == Err::<Vec<u8>, WalletError>(WalletError::Decode)
            },
            None => r == Err::<Vec<u8>, WalletError>(WalletError::Decode),
        },
{
    match decoded {
        None => Err(WalletError::Decode),
        Some(b) => {
            if b.len() >= 5 && b[0] == 0x70 && b[1] == 0x73 && b[2] == 0x62 && b[3] == 0x74 && b[4]
                == 0xff && psbt_structure_ok(&b) {
                Ok(b)
            } else {
                Err(WalletError::Decode)
            }
        },
    }
}

/// The transport text of a binary PSBT; it decodes back to the same bytes.
pub fn psbt_to_text(psbt: &Vec<u8>) -> (r: String)
    ensures
        r@ == base64_text(psbt@),
        has_psbt_magic(psbt@) && psbt_decodes(psbt@) ==> psbt_of_text(r@) == Some(psbt@),
{
    encode_base64(psbt)
}

/// The binary PSBT carried by a transport text, or `Decode` when the text is
/// not base64, or the bytes lack the PSBT magic or do not decode as a PSBT.
pub fn psbt_from_text(s: &str) -> (r: Result<Vec<u8>, WalletError>)
    ensures
        match psbt_of_text(s@) {
            Some(b) => r matches Ok(v) && v@ == b,
            None => r == Err::<Vec<u8>, WalletError>(WalletError::Decode),
        },
{
    let decoded = match decode_base64(s) {
        Ok(v) => Some(v),
        Err(_) => None,
    };
    accept_psbt_bytes(decoded)
}

} // verus!
