//! Sealing and opening secrets with ChaCha20-Poly1305 under a 32-byte key
//! and a fresh random 12-byte nonce for every sealing.
use crate::codec::{base64_bytes, base64_text, encode_base64, has_foreign_char};
use crate::secret::SecretBase64;
use crate::store::SecretStore;
use chacha20poly1305::aead::{Aead, AeadCore, KeyInit};
use vstd::prelude::*;

verus! {

#[verifier::external_type_specification]
#[verifier::external_body]
pub struct ExAeadError(chacha20poly1305::aead::Error);

/// Length of a key, in bytes.
pub const KEY_LEN: usize = 32;

/// Length of a nonce, in bytes.
pub const NONCE_LEN: usize = 12;

/// Length of the authentication tag that follows the encrypted bytes.
pub const TAG_LEN: usize = 16;

/// Plaintexts of this many bytes or more are refused by the cipher.
pub const MAX_PLAINTEXT_LEN: u64 = 274877906880;

/// The ChaCha20-Poly1305 ciphertext (with its tag) of `plaintext` under
/// `key` and `nonce`, with no associated data.
pub uninterp spec fn chacha_sealed(key: Seq<u8>, nonce: Seq<u8>, plaintext: Seq<u8>) -> Seq<u8>;

/// The plaintext that ChaCha20-Poly1305 recovers from `ciphertext` under
/// `key` and `nonce`, or `None` where the tag does not verify.
pub uninterp spec fn chacha_opened(key: Seq<u8>, nonce: Seq<u8>, ciphertext: Seq<u8>) -> Option<
    Seq<u8>,
>;

/// Why sealing or opening a secret failed.
#[derive(PartialEq, Eq, Structural, Debug, Clone, Copy)]
pub enum CryptoError {
    /// The key is not `KEY_LEN` bytes long.
    InvalidKeyLength,
    /// The plaintext is too long for the cipher.
    PlaintextTooLong,
    /// A field of the envelope is not valid base64, or the nonce has the wrong length.
    Malformed,
    /// The tag did not verify: wrong key, or altered nonce or ciphertext.
    WrongKeyOrCorrupt,
    /// No secret is stored under the requested name.
    NotFound,
}

/// What opening an envelope with text fields `nonce` and `ciphertext` under
/// `key` gives.
pub open spec fn open_outcome(nonce: Seq<char>, ciphertext: Seq<char>, key: Seq<u8>) -> Result<
    Seq<u8>,
    CryptoError,
> {
    if key.len() != KEY_LEN {
        Err(CryptoError::InvalidKeyLength)
    } else {
        match (base64_bytes(nonce), base64_bytes(ciphertext)) {
            (Some(n), Some(c)) => if n.len() != NONCE_LEN {
                Err(CryptoError::Malformed)
            } else {
                match chacha_opened(key, n, c) {
                    Some(p) => Ok(p),
                    None => Err(CryptoError::WrongKeyOrCorrupt),
                }
            },
            _ => Err(CryptoError::Malformed),
        }
    }
}

/// Envelope `e` holds `plaintext` sealed under `key` and `nonce`: the nonce
/// field is the nonce's base64 text, and the ciphertext field is the base64
/// text of the cipher's output, which is `TAG_LEN` bytes longer than the
/// plaintext.
pub open spec fn sealed_envelope(
    e: (Seq<char>, Seq<char>),
    key: Seq<u8>,
    nonce: Seq<u8>,
    plaintext: Seq<u8>,
) -> bool {
    let c = chacha_sealed(key, nonce, plaintext);
    &&& e.0 == base64_text(nonce)
    &&& e.1 == base64_text(c)
    &&& base64_bytes(e.0) == Some(nonce)
    &&& base64_bytes(e.1) == Some(c)
    &&& c.len() == plaintext.len() + TAG_LEN
}

/// Envelope `e` holds `plaintext` sealed under `key` with some nonce of
/// `NONCE_LEN` bytes.
pub open spec fn sealed_with(e: (Seq<char>, Seq<char>), key: Seq<u8>, plaintext: Seq<u8>) -> bool {
    exists|n: Seq<u8>| n.len() == NONCE_LEN && #[trigger] sealed_envelope(e, key, n, plaintext)
}

/// Relies on chacha20poly1305's `KeyInit::generate_key` over `OsRng`:
/// a key of 32 random bytes.
#[verifier::external_body]
fn random_key() -> (r: Vec<u8>)
    ensures
        r@.len() == KEY_LEN,
{
    chacha20poly1305::ChaCha20Poly1305::generate_key(chacha20poly1305::aead::OsRng).to_vec()
}

/// Relies on chacha20poly1305's `AeadCore::generate_nonce` over `OsRng`:
/// a nonce of 12 random bytes.
#[verifier::external_body]
fn random_nonce() -> (r: Vec<u8>)
    ensures
        r@.len() == NONCE_LEN,
{
    chacha20poly1305::ChaCha20Poly1305::generate_nonce(chacha20poly1305::aead::OsRng).to_vec()
}

/// Relies on chacha20poly1305's `Aead::encrypt`: the ciphertext followed by
/// a 16-byte tag, which `Aead::decrypt` opens again; it refuses a plaintext
/// only when it spans `u32::MAX` blocks of 64 bytes or more.
#[verifier::external_body]
fn chacha_encrypt(key: &[u8], nonce: &[u8], plaintext: &[u8]) -> (r: Result<
    Vec<u8>,
    chacha20poly1305::aead::Error,
>)
    requires
        key@.len() == KEY_LEN,
        nonce@.len() == NONCE_LEN,
    ensures
        match r {
            Ok(c) => c@ == chacha_sealed(key@, nonce@, plaintext@) && chacha_opened(
                key@,
                nonce@,
                c@,
            ) == Some(plaintext@) && c@.len() == plaintext@.len() + TAG_LEN,
            Err(_) => plaintext@.len() >= MAX_PLAINTEXT_LEN,
        },
{
    let cipher = chacha20poly1305::ChaCha20Poly1305::new(chacha20poly1305::Key::from_slice(key));
    cipher.encrypt(chacha20poly1305::Nonce::from_slice(nonce), plaintext)
}

/// Relies on chacha20poly1305's `Aead::decrypt`: the plaintext where the tag
/// verifies, an error otherwise.
#[verifier::external_body]
fn chacha_decrypt(key: &[u8], nonce: &[u8], ciphertext: &[u8]) -> (r: Result<
    Vec<u8>,
    chacha20poly1305::aead::Error,
>)
    requires
        key@.len() == KEY_LEN,
        nonce@.len() == NONCE_LEN,
    ensures
        match r {
            Ok(p) => chacha_opened(key@, nonce@, ciphertext@) == Some(p@),
            Err(_) => chacha_opened(key@, nonce@, ciphertext@).is_none(),
        },
{
    let cipher = chacha20poly1305::ChaCha20Poly1305::new(chacha20poly1305::Key::from_slice(key));
    cipher.decrypt(chacha20poly1305::Nonce::from_slice(nonce), ciphertext)
}

/// A fresh random key.
pub fn generate_key() -> (r: Vec<u8>)
    ensures
        r@.len() == KEY_LEN,
{
    random_key()
}

/// Seals `plaintext` under `key` and the given `nonce`.
///
/// Succeeds exactly when the key has `KEY_LEN` bytes, the nonce `NONCE_LEN`
/// bytes and the plaintext is shorter than `MAX_PLAINTEXT_LEN`; the envelope
/// then opens under the same key to `plaintext`. A nonce must never be used
/// twice with one key.
pub fn seal_with_nonce(key: &[u8], nonce: &[u8], plaintext: &[u8]) -> (r: Result<
    SecretBase64,
    CryptoError,
>)
    ensures
        match r {
            Ok(e) => key@.len() == KEY_LEN && nonce@.len() == NONCE_LEN && plaintext@.len()
                < MAX_PLAINTEXT_LEN && sealed_envelope(e@, key@, nonce@, plaintext@) && open_outcome(
                e.nonce@,
                e.ciphertext@,
                key@,
            ) == Ok::<Seq<u8>, CryptoError>(plaintext@),
            Err(err) => if key@.len() != KEY_LEN {
                err == CryptoError::InvalidKeyLength
            } else if nonce@.len() != NONCE_LEN {
                err == CryptoError::Malformed
            } else {
                err == CryptoError::PlaintextTooLong && plaintext@.len() >= MAX_PLAINTEXT_LEN
            },
        },
{
    if key.len() != KEY_LEN {
        return Err(CryptoError::InvalidKeyLength);
    }
    if nonce.len() != NONCE_LEN {
        return Err(CryptoError::Malformed);
    }
    if plaintext.len() as u64 >= MAX_PLAINTEXT_LEN {
        return Err(CryptoError::PlaintextTooLong);
    }
    match chacha_encrypt(key, nonce, plaintext) {
        Ok(ciphertext) => {
            Ok(
                SecretBase64 {
                    nonce: encode_base64(nonce),
                    ciphertext: encode_base64(ciphertext.as_slice()),
                },
            )
        },
        Err(_) => Err(CryptoError::PlaintextTooLong),
    }
}

/// Seals `plaintext` under `key` with a fresh random nonce.
///
/// Succeeds exactly when the key has `KEY_LEN` bytes and the plaintext is
/// shorter than `MAX_PLAINTEXT_LEN`; the envelope then opens under the same
/// key to `plaintext`.
pub fn encrypt(key: &[u8], plaintext: &[u8]) -> (r: Result<SecretBase64, CryptoError>)
    ensures
        match r {
            Ok(e) => key@.len() == KEY_LEN && plaintext@.len() < MAX_PLAINTEXT_LEN && sealed_with(
                e@,
                key@,
                plaintext@,
            ) && open_outcome(e.nonce@, e.ciphertext@, key@) == Ok::<Seq<u8>, CryptoError>(
                plaintext@,
            ),
            Err(err) => if key@.len() != KEY_LEN {
                err == CryptoError::InvalidKeyLength
            } else {
                err == CryptoError::PlaintextTooLong && plaintext@.len() >= MAX_PLAINTEXT_LEN
            },
        },
{
    let nonce = random_nonce();
    let r = seal_with_nonce(key, nonce.as_slice(), plaintext);
    proof {
        if r is Ok {
            assert(sealed_envelope(r->Ok_0@, key@, nonce@, plaintext@));
        }
    }
    r
}

/// Opens `envelope` under `key`: decodes both fields, then verifies and
/// decrypts.
pub fn open(envelope: &SecretBase64, key: &[u8]) -> (r: Result<Vec<u8>, CryptoError>)
    ensures
        match r {
            Ok(p) => open_outcome(envelope.nonce@, envelope.ciphertext@, key@) == Ok::<
                Seq<u8>,
                CryptoError,
            >(p@),
            Err(err) => open_outcome(envelope.nonce@, envelope.ciphertext@, key@) == Err::<
                Seq<u8>,
                CryptoError,
            >(err),
        },
        key@.len() == KEY_LEN && (has_foreign_char(envelope.nonce@) || has_foreign_char(
            envelope.ciphertext@,
        )) ==> r == Err::<Vec<u8>, CryptoError>(CryptoError::Malformed),
{
    if key.len() != KEY_LEN {
        return Err(CryptoError::InvalidKeyLength);
    }
    let bytes = match envelope.base64_decode() {
        Ok(b) => b,
        Err(_) => {
            return Err(CryptoError::Malformed);
        },
    };
    if bytes.nonce.len() != NONCE_LEN {
        return Err(CryptoError::Malformed);
    }
    match chacha_decrypt(key, bytes.nonce.as_slice(), bytes.ciphertext.as_slice()) {
        Ok(p) => Ok(p),
        Err(_) => Err(CryptoError::WrongKeyOrCorrupt),
    }
}

/// Opens the secret stored under `name` with `key`.
pub fn decrypt(secrets: &SecretStore, key: &[u8], name: &str) -> (r: Result<Vec<u8>, CryptoError>)
    requires
        secrets.wf(),
    ensures
        !secrets@.contains_key(name@) ==> r == Err::<Vec<u8>, CryptoError>(CryptoError::NotFound),
        secrets@.contains_key(name@) ==> match r {
            Ok(p) => open_outcome(secrets@[name@].0, secrets@[name@].1, key@) == Ok::<
                Seq<u8>,
                CryptoError,
            >(p@),
            Err(err) => open_outcome(secrets@[name@].0, secrets@[name@].1, key@) == Err::<
                Seq<u8>,
                CryptoError,
            >(err),
        },
{
    match secrets.get(name) {
        Some(envelope) => open(envelope, key),
        None => Err(CryptoError::NotFound),
    }
}

} // verus!
