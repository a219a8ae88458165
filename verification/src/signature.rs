//! Signing and verifying with Ed25519, and the base64 form in which keys and
//! signatures are kept as text.
//!
//! Signing is deterministic: the signature depends on the key and the
//! message alone. A signature made with a key is accepted under the public
//! key that belongs to it; that a different message is turned down rests on
//! the strength of the scheme and is not a theorem of this crate.
use crate::blockchain::{PaymentTx, PaymentTxView};
use crate::error::LedgerError;
use crate::model::Resident;
use crate::text::{
    decimal, lemma_decimal_is_digits, lemma_decimal_is_injective, lemma_digit_runs_split_alike,
    push_char, push_decimal,
};
use base64::Engine;
use ed25519_dalek::{Signer, Verifier};
use rand::RngCore;
use vstd::prelude::*;
use vstd::utf8::encode_utf8;

verus! {

/// The length of a signing key and of a public key, in bytes.
pub const KEY_LENGTH: usize = 32;

/// The length of a signature, in bytes.
pub const SIGNATURE_LENGTH: usize = 64;

/// The Ed25519 public key that belongs to the 32-byte signing key `secret`.
pub uninterp spec fn ed25519_public_key(secret: Seq<u8>) -> Seq<u8>;

/// The Ed25519 signature of `message` under the 32-byte signing key
/// `secret`.
pub uninterp spec fn ed25519_signature(secret: Seq<u8>, message: Seq<u8>) -> Seq<u8>;

/// Whether `signature` parses as a signature, `public_key` as a public key,
/// and the one is a valid signature of `message` under the other.
pub uninterp spec fn ed25519_accepts(public_key: Seq<u8>, message: Seq<u8>, signature: Seq<u8>) -> bool;

/// The standard base64 text of `bytes`, with padding.
pub uninterp spec fn base64_text(bytes: Seq<u8>) -> Seq<char>;

/// The bytes that the standard base64 text `text` stands for, if it is
/// well-formed.
pub uninterp spec fn base64_bytes(text: Seq<char>) -> Option<Seq<u8>>;

/// `ed25519_dalek::PublicKey::from(&SecretKey)`, on the key that
/// `SecretKey::from_bytes` makes of `secret`. The latter fails exactly when
/// `secret` is not 32 bytes long; the public key depends on the secret bytes
/// alone.
#[verifier::external_body]
fn derive_public_key(secret: &[u8]) -> (public_key: Option<[u8; 32]>)
    ensures
        public_key.is_some() == (secret@.len() == KEY_LENGTH),
        public_key.is_some() ==> public_key.unwrap()@ == ed25519_public_key(secret@),
{
    match ed25519_dalek::SecretKey::from_bytes(secret) {
        Ok(secret) => Some(ed25519_dalek::PublicKey::from(&secret).to_bytes()),
        Err(_) => None,
    }
}

/// `ed25519_dalek::Keypair::sign`, on the key pair that belongs to `secret`.
/// Making the key fails exactly when `secret` is not 32 bytes long. The
/// signature depends on the secret bytes and the message alone, and the
/// crate's verification accepts it under the public key of the same secret.
#[verifier::external_body]
fn sign_with(secret: &[u8], message: &[u8]) -> (signature: Option<[u8; 64]>)
    ensures
        signature.is_some() == (secret@.len() == KEY_LENGTH),
        signature.is_some() ==> signature.unwrap()@ == ed25519_signature(secret@, message@),
        signature.is_some() ==> ed25519_accepts(
            ed25519_public_key(secret@),
            message@,
            signature.unwrap()@,
        ),
{
    match ed25519_dalek::SecretKey::from_bytes(secret) {
        Ok(secret) => {
            let public = ed25519_dalek::PublicKey::from(&secret);
            Some(ed25519_dalek::Keypair { secret, public }.sign(message).to_bytes())
        },
        Err(_) => None,
    }
}

/// `ed25519_dalek::PublicKey::verify`, on the key and the signature that
/// `PublicKey::from_bytes` and `Signature::from_bytes` make of the bytes.
/// Either parse fails when the length is not 32 or 64 bytes; a failed parse
/// counts as a rejection.
#[verifier::external_body]
fn accepts(public_key: &[u8], message: &[u8], signature: &[u8]) -> (ok: bool)
    ensures
        ok == ed25519_accepts(public_key@, message@, signature@),
        ok ==> public_key@.len() == KEY_LENGTH && signature@.len() == SIGNATURE_LENGTH,
{
    let key = ed25519_dalek::PublicKey::from_bytes(public_key);
    let signature = ed25519_dalek::Signature::from_bytes(signature);
    match (key, signature) {
        (Ok(key), Ok(signature)) => key.verify(message, &signature).is_ok(),
        _ => false,
    }
}

/// `base64::Engine::encode` of the standard engine. The text depends on the
/// bytes alone, and decoding it gives the bytes back. The call fails for
/// inputs so long that the text's length does not fit in `usize`.
#[verifier::external_body]
pub(crate) fn base64_encode(bytes: &[u8]) -> (text: String)
    requires
        bytes@.len() <= usize::MAX / 2,
    ensures
        text@ == base64_text(bytes@),
        base64_bytes(text@) == Some(bytes@),
{
    base64::engine::general_purpose::STANDARD.encode(bytes)
}

/// `base64::Engine::decode` of the standard engine: the bytes that the text
/// stands for, or nothing where the text is not well-formed base64.
#[verifier::external_body]
pub(crate) fn base64_decode(text: &str) -> (bytes: Option<Vec<u8>>)
    ensures
        bytes.is_some() == base64_bytes(text@).is_some(),
        bytes.is_some() ==> bytes.unwrap()@ == base64_bytes(text@).unwrap(),
{
    base64::engine::general_purpose::STANDARD.decode(text).ok()
}

/// What [`sign`] returns for a key and a message.
pub open spec fn signed(private_key: Seq<u8>, message: Seq<u8>) -> Result<Seq<u8>, LedgerError> {
    if private_key.len() == KEY_LENGTH {
        Ok(ed25519_signature(private_key, message))
    } else {
        Err(LedgerError::InvalidKey)
    }
}

/// Signs `message` with `private_key`. The key must be 32 bytes long; any
/// other length is rejected as [`LedgerError::InvalidKey`]. The signature is
/// accepted by [`verify`] under the public key of `private_key`.
pub fn sign(private_key: &[u8], message: &[u8]) -> (signature: Result<[u8; 64], LedgerError>)
    ensures
        signature is Ok <==> private_key@.len() == KEY_LENGTH,
        signature matches Ok(s) ==> s@ == ed25519_signature(private_key@, message@)
            && ed25519_accepts(ed25519_public_key(private_key@), message@, s@),
        signature matches Err(e) ==> e == LedgerError::InvalidKey,
{
    match sign_with(private_key, message) {
        Some(signature) => Ok(signature),
        None => Err(LedgerError::InvalidKey),
    }
}

/// The public key that belongs to `private_key`. The key must be 32 bytes
/// long; any other length is rejected as [`LedgerError::InvalidKey`].
pub fn public_key_of(private_key: &[u8]) -> (public_key: Result<[u8; 32], LedgerError>)
    ensures
        public_key is Ok <==> private_key@.len() == KEY_LENGTH,
        public_key matches Ok(k) ==> k@ == ed25519_public_key(private_key@),
        public_key matches Err(e) ==> e == LedgerError::InvalidKey,
{
    match derive_public_key(private_key) {
        Some(public_key) => Ok(public_key),
        None => Err(LedgerError::InvalidKey),
    }
}

/// Tells whether `signature` is a valid signature of `message` under
/// `public_key`. Bytes that are no key or no signature, because of their
/// length or their content, are turned down like a signature that does not
/// match.
pub fn verify(public_key: &[u8], message: &[u8], signature: &[u8]) -> (ok: bool)
    ensures
        ok == ed25519_accepts(public_key@, message@, signature@),
        ok ==> public_key@.len() == KEY_LENGTH && signature@.len() == SIGNATURE_LENGTH,
{
    accepts(public_key, message, signature)
}

/// The text that is signed for a payment: the resident's identifier, the
/// amount and the timestamp as decimal numerals, separated by colons.
pub open spec fn canonical_message(resident_id: u32, amount: u64, timestamp: u64) -> Seq<char> {
    decimal(resident_id as nat) + seq![':'] + decimal(amount as nat) + seq![':'] + decimal(
        timestamp as nat,
    )
}

/// Two payments that differ in the resident, the amount or the timestamp
/// have different canonical messages, so a signature covers all three.
pub proof fn lemma_canonical_message_is_injective(
    resident1: u32,
    amount1: u64,
    timestamp1: u64,
    resident2: u32,
    amount2: u64,
    timestamp2: u64,
)
    requires
        canonical_message(resident1, amount1, timestamp1) == canonical_message(
            resident2,
            amount2,
            timestamp2,
        ),
    ensures
        resident1 == resident2,
        amount1 == amount2,
        timestamp1 == timestamp2,
{
    let colon = seq![':'];
    let tail1 = decimal(amount1 as nat) + colon + decimal(timestamp1 as nat);
    let tail2 = decimal(amount2 as nat) + colon + decimal(timestamp2 as nat);
    lemma_decimal_is_digits(resident1 as nat);
    lemma_decimal_is_digits(resident2 as nat);
    lemma_decimal_is_digits(amount1 as nat);
    lemma_decimal_is_digits(amount2 as nat);
    assert(canonical_message(resident1, amount1, timestamp1) =~= decimal(resident1 as nat) + colon
        + tail1);
    assert(canonical_message(resident2, amount2, timestamp2) =~= decimal(resident2 as nat) + colon
        + tail2);
    lemma_digit_runs_split_alike(
        decimal(resident1 as nat),
        tail1,
        decimal(resident2 as nat),
        tail2,
        ':',
    );
    lemma_digit_runs_split_alike(
        decimal(amount1 as nat),
        decimal(timestamp1 as nat),
        decimal(amount2 as nat),
        decimal(timestamp2 as nat),
        ':',
    );
    lemma_decimal_is_injective(resident1 as nat, resident2 as nat);
    lemma_decimal_is_injective(amount1 as nat, amount2 as nat);
    lemma_decimal_is_injective(timestamp1 as nat, timestamp2 as nat);
}

/// The signing key that the base64 text `key_text` stands for, if it stands
/// for one.
pub open spec fn signing_key(key_text: Seq<char>) -> Option<Seq<u8>> {
    match base64_bytes(key_text) {
        Some(key) => if key.len() == KEY_LENGTH {
            Some(key)
        } else {
            None
        },
        None => None,
    }
}

/// The signature, in base64, of a payment's canonical message under the
/// signing key `key`.
pub open spec fn payment_signature(key: Seq<u8>, resident_id: u32, amount: u64, timestamp: u64)
    -> Seq<char> {
    base64_text(
        ed25519_signature(key, encode_utf8(canonical_message(resident_id, amount, timestamp))),
    )
}

/// Whether the signature that `tx` carries is well-formed base64 and a valid
/// signature of the canonical message of `tx` under `public_key`.
pub open spec fn is_signed_by(tx: PaymentTxView, public_key: Seq<u8>) -> bool {
    match base64_bytes(tx.hash_firma) {
        Some(signature) => ed25519_accepts(
            public_key,
            encode_utf8(canonical_message(tx.resident_id, tx.amount, tx.timestamp)),
            signature,
        ),
        None => false,
    }
}

/// Writes the canonical message of a payment.
pub fn payment_message(resident_id: u32, amount: u64, timestamp: u64) -> (message: String)
    ensures
        message@ == canonical_message(resident_id, amount, timestamp),
{
    let mut message = String::new();
    push_decimal(&mut message, resident_id as u64);
    push_char(&mut message, ':');
    push_decimal(&mut message, amount);
    push_char(&mut message, ':');
    push_decimal(&mut message, timestamp);
    assert(message@ =~= canonical_message(resident_id, amount, timestamp));
    message
}

/// Decodes a signing key from its base64 text. Text that is not base64, or
/// that does not stand for 32 bytes, is rejected as
/// [`LedgerError::InvalidKey`].
pub fn decode_signing_key(key_text: &str) -> (key: Result<Vec<u8>, LedgerError>)
    ensures
        key is Ok <==> signing_key(key_text@) is Some,
        key matches Ok(k) ==> signing_key(key_text@) == Some(k@),
        key matches Err(e) ==> e == LedgerError::InvalidKey,
{
    match base64_decode(key_text) {
        Some(key) => if key.len() == KEY_LENGTH {
            Ok(key)
        } else {
            Err(LedgerError::InvalidKey)
        },
        None => Err(LedgerError::InvalidKey),
    }
}

/// `rand::rngs::OsRng::try_fill_bytes` on a buffer of 32 bytes: random bytes
/// from the operating system, or nothing where it gives none. Nothing is
/// claimed of the bytes.
#[verifier::external_body]
fn random_key_bytes() -> (bytes: Option<[u8; 32]>) {
    let mut bytes = [0u8; 32];
    match rand::rngs::OsRng.try_fill_bytes(&mut bytes) {
        Ok(()) => Some(bytes),
        Err(_) => None,
    }
}

/// The base64 text under which the signing key `secret` is kept. Decoding
/// the text gives the key back.
pub fn encode_signing_key(secret: &[u8; 32]) -> (key_text: String)
    ensures
        key_text@ == base64_text(secret@),
        signing_key(key_text@) == Some(secret@),
{
    base64_encode(secret.as_slice())
}

/// Makes a fresh signing key from the system's random source and returns
/// its base64 text. Where the source gives no bytes, the call fails with
/// [`LedgerError::KeySourceUnavailable`].
pub fn generate_signing_key() -> (key_text: Result<String, LedgerError>)
    ensures
        key_text matches Ok(t) ==> signing_key(t@) is Some,
        key_text matches Err(e) ==> e == LedgerError::KeySourceUnavailable,
{
    match random_key_bytes() {
        Some(secret) => Ok(encode_signing_key(&secret)),
        None => Err(LedgerError::KeySourceUnavailable),
    }
}

/// Signs the payment of `amount` by resident `resident_id` at `timestamp`
/// with the key of `resident`, and returns the signature in base64. The
/// resident's key must be the base64 text of 32 bytes; otherwise the payment
/// is rejected with [`LedgerError::InvalidKey`]. A transaction that carries
/// the signature is signed by the public key of the resident's key.
pub fn sign_payment(resident: &Resident, resident_id: u32, amount: u64, timestamp: u64) -> (signature:
    Result<String, LedgerError>)
    ensures
        signature is Ok <==> signing_key(resident@.private_key) is Some,
        signature matches Ok(s) ==> {
            let key = signing_key(resident@.private_key).unwrap();
            &&& s@ == payment_signature(key, resident_id, amount, timestamp)
            &&& is_signed_by(
                PaymentTxView { resident_id, amount, timestamp, hash_firma: s@ },
                ed25519_public_key(key),
            )
        },
        signature matches Err(e) ==> e == LedgerError::InvalidKey,
{
    let key = decode_signing_key(resident.private_key.as_str())?;
    let message = payment_message(resident_id, amount, timestamp);
    let signature = sign(key.as_slice(), message.as_str().as_bytes())?;
    Ok(base64_encode(signature.as_slice()))
}

/// Tells whether `tx` carries a valid signature of its own canonical message
/// under `public_key`. A signature that is not base64, and bytes that are no
/// key or no signature, count as invalid.
pub fn verify_payment(public_key: &[u8], tx: &PaymentTx) -> (ok: bool)
    ensures
        ok == is_signed_by(tx@, public_key@),
{
    match base64_decode(tx.hash_firma.as_str()) {
        Some(signature) => {
            let message = payment_message(tx.resident_id, tx.amount, tx.timestamp);
            verify(public_key, message.as_str().as_bytes(), signature.as_slice())
        },
        None => false,
    }
}

} // verus!
