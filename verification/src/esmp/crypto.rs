//! Signatures over messages: Ed25519 keys and signatures, carried as
//! standard base64 text.

use vstd::prelude::*;
use base64::Engine;
use base64::engine::general_purpose::STANDARD;
use ed25519_dalek::{Keypair, PublicKey, Signature, Signer, Verifier};

verus! {

/// What the standard base64 alphabet, with padding, decodes `text` to;
/// `None` where `text` is not valid base64.
pub uninterp spec fn base64_decoded(text: Seq<char>) -> Option<Seq<u8>>;

/// The standard base64 text, with padding, of `bytes`.
pub uninterp spec fn base64_encoded(bytes: Seq<u8>) -> Seq<char>;

/// Whether `signature` is a valid Ed25519 signature of `message` under the
/// public key `key`. It is not where `key` or `signature` is not the
/// encoding of a key or of a signature.
pub uninterp spec fn ed25519_valid(key: Seq<u8>, message: Seq<u8>, signature: Seq<u8>) -> bool;

/// An Ed25519 key pair of the `ed25519_dalek` crate.
#[verifier::external_type_specification]
#[verifier::external_body]
pub struct ExKeypair(Keypair);

/// Calls `decode` of base64's `STANDARD` engine. The result is the decoding
/// that the engine defines for the text, or `None` where it reports an
/// error.
#[verifier::external_body]
fn decode_base64(text: &str) -> (bytes: Option<Vec<u8>>)
    ensures
        match bytes {
            Some(decoded) => base64_decoded(text@) == Some(decoded@),
            None => base64_decoded(text@) is None,
        },
{
    STANDARD.decode(text).ok()
}

/// Calls `encode` of base64's `STANDARD` engine, which defines the text for
/// the bytes. The input is kept well below the size at which the engine
/// cannot compute the length of its output.
#[verifier::external_body]
fn encode_base64(bytes: &[u8]) -> (text: String)
    requires
        bytes@.len() <= 0x8000_0000,
    ensures
        text@ == base64_encoded(bytes@),
{
    STANDARD.encode(bytes)
}

/// Calls `PublicKey::from_bytes`, `Signature::from_bytes` and
/// `PublicKey::verify` of `ed25519_dalek`. The result is whether all three
/// succeed. A key is refused unless it has 32 bytes, a signature unless it
/// has 64.
#[verifier::external_body]
fn ed25519_verify(key: &[u8], message: &[u8], signature: &[u8]) -> (valid: bool)
    ensures
        valid == ed25519_valid(key@, message@, signature@),
        valid ==> key@.len() == 32 && signature@.len() == 64,
{
    match (PublicKey::from_bytes(key), Signature::from_bytes(signature)) {
        (Ok(key), Ok(signature)) => key.verify(message, &signature).is_ok(),
        _ => false,
    }
}

/// Calls `Keypair::sign` of `ed25519_dalek` and hands out the signature's
/// bytes, of which there are always 64.
#[verifier::external_body]
fn ed25519_sign(keypair: &Keypair, message: &[u8]) -> (signature: Vec<u8>)
    ensures
        signature@.len() == 64,
{
    keypair.sign(message).to_bytes().to_vec()
}

/// Whether the signature verifies, given what the key text and the
/// signature text decoded to. A text that did not decode verifies nothing.
pub open spec fn decoded_verifies(
    key: Option<Seq<u8>>,
    signature: Option<Seq<u8>>,
    message: Seq<u8>,
) -> bool {
    match (key, signature) {
        (Some(k), Some(s)) => ed25519_valid(k, message, s),
        _ => false,
    }
}

/// Whether `signature_b64` is the base64 text of a valid signature of
/// `message` under the key whose base64 text is `pubkey_b64`.
pub open spec fn signature_verifies(
    pubkey_b64: Seq<char>,
    signature_b64: Seq<char>,
    message: Seq<u8>,
) -> bool {
    decoded_verifies(base64_decoded(pubkey_b64), base64_decoded(signature_b64), message)
}

/// The view of bytes that may be absent.
pub open spec fn bytes_of(bytes: Option<Vec<u8>>) -> Option<Seq<u8>> {
    match bytes {
        Some(b) => Some(b@),
        None => None,
    }
}

/// Checks a signature given the decoded key and the decoded signature. The
/// check fails if either is absent; otherwise it is the Ed25519
/// verification of `message`.
pub fn verify_decoded(key: &Option<Vec<u8>>, signature: &Option<Vec<u8>>, message: &[u8]) -> (ok:
    bool)
    ensures
        ok == decoded_verifies(bytes_of(*key), bytes_of(*signature), message@),
{
    match key {
        None => false,
        Some(key) => match signature {
            None => false,
            Some(signature) => ed25519_verify(key.as_slice(), message, signature.as_slice()),
        },
    }
}

/// Checks that `signature_b64` is a valid signature of `message` under the
/// public key `pubkey_b64`, both given as base64 text. Text that is not
/// base64, a key or a signature of the wrong form, and a signature that
/// does not match all give `false`.
pub fn verify_signature(pubkey_b64: &str, signature_b64: &str, message: &[u8]) -> (ok: bool)
    ensures
        ok == signature_verifies(pubkey_b64@, signature_b64@, message@),
{
    let key = decode_base64(pubkey_b64);
    if key.is_none() {
        return false;
    }
    let signature = decode_base64(signature_b64);
    verify_decoded(&key, &signature, message)
}

/// Signs `message` with `keypair` and returns the signature as base64 text:
/// the encoding of the 64 bytes of the signature.
pub fn sign_message(keypair: &Keypair, message: &[u8]) -> (text: String)
    ensures
        exists|signature: Seq<u8>| signature.len() == 64 && text@ == #[trigger] base64_encoded(signature),
{
    let signature = ed25519_sign(keypair, message);
    encode_base64(signature.as_slice())
}

} // verus!
