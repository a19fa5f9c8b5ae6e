pub mod aead;
pub mod aes_gcm;
pub mod chacha20_poly1305;

use vstd::prelude::*;
use crate::cipher::aead::{
    AeadAlgorithm, aead_max_input, CipherError, ENCRYPTION_RESERVED, opened_payload, random_nonce_part,
    sealed_payload,
};
use crate::cipher::aes_gcm::{AesGcmCipher, aes_params, password_aes_params};
use crate::cipher::chacha20_poly1305::ChaCha20Poly1305Cipher;
use crate::cipher::aead::spec_sha256;
use crate::protocol::node_id::NodeID;
use vstd::utf8::encode_utf8;

verus! {

/// Active cipher for encrypting and decrypting payloads.
#[derive(Clone)]
pub enum Cipher {
    AesGcm(AesGcmCipher),
    ChaCha20Poly1305(ChaCha20Poly1305Cipher),
    Unencrypted,
}

/// Encryption algorithm together with the password its key is derived from.
#[derive(Clone, Eq, PartialEq, Debug)]
pub enum Algorithm {
    /// AES-GCM encryption with the given password.
    AesGcm(String),
    /// ChaCha20-Poly1305 encryption with the given password.
    ChaCha20Poly1305(String),
}

/// The algorithm and key a cipher uses, or `None` for no encryption.
pub open spec fn cipher_params(c: Cipher) -> Option<(AeadAlgorithm, Seq<u8>)> {
    match c {
        Cipher::AesGcm(a) => Some(aes_params(a)),
        Cipher::ChaCha20Poly1305(k) => Some((AeadAlgorithm::ChaCha20Poly1305, k.key())),
        Cipher::Unencrypted => None,
    }
}

impl Cipher {
    /// An AES-GCM cipher keyed from `password` (see [`password_aes_params`]).
    pub fn new_aes_gcm(password: String) -> (r: Cipher)
        ensures
            cipher_params(r) == Some(password_aes_params(encode_utf8(password@))),
    {
        Cipher::AesGcm(crate::cipher::aes_gcm::cipher(password))
    }

    /// A ChaCha20-Poly1305 cipher keyed with the SHA-256 digest of `password`.
    pub fn new_chacha20_poly1305(password: String) -> (r: Cipher)
        ensures
            cipher_params(r) == Some(
                (AeadAlgorithm::ChaCha20Poly1305, spec_sha256(encode_utf8(password@))),
            ),
    {
        Cipher::ChaCha20Poly1305(crate::cipher::chacha20_poly1305::cipher(password))
    }

    /// The cipher an algorithm specification stands for.
    pub fn from_algorithm(value: Algorithm) -> (r: Cipher)
        ensures
            value matches Algorithm::AesGcm(p) ==> cipher_params(r) == Some(
                password_aes_params(encode_utf8(p@)),
            ),
            value matches Algorithm::ChaCha20Poly1305(p) ==> cipher_params(r) == Some(
                (AeadAlgorithm::ChaCha20Poly1305, spec_sha256(encode_utf8(p@))),
            ),
    {
        match value {
            Algorithm::AesGcm(p) => Cipher::new_aes_gcm(p),
            Algorithm::ChaCha20Poly1305(p) => Cipher::new_chacha20_poly1305(p),
        }
    }

    /// Decrypts `payload` in place with the nonce part carried in its last 12 bytes mixed with
    /// `extra_info`, and returns the plaintext length. Without encryption the payload is
    /// left as it is and its whole length returned.
    pub fn decrypt(&self, extra_info: [u8; 12], payload: &mut [u8]) -> (r: Result<usize, CipherError>)
        ensures
            final(payload)@.len() == old(payload)@.len(),
            cipher_params(*self) is None ==> r == Ok::<usize, CipherError>(old(payload)@.len() as usize)
                && final(payload)@ == old(payload)@,
            cipher_params(*self) matches Some((alg, key)) ==> {
                &&& old(payload)@.len() < ENCRYPTION_RESERVED ==> r == Err::<usize, CipherError>(
                    CipherError::TooShort,
                ) && final(payload)@ == old(payload)@
                &&& old(payload)@.len() >= ENCRYPTION_RESERVED ==> (r is Ok <==> opened_payload(
                    alg,
                    key,
                    extra_info@,
                    old(payload)@,
                ) is Some)
                &&& old(payload)@.len() >= ENCRYPTION_RESERVED && r is Err ==> r == Err::<
                    usize,
                    CipherError,
                >(CipherError::Open)
                &&& r matches Ok(n) ==> n == old(payload)@.len() - ENCRYPTION_RESERVED
                    && final(payload)@.subrange(0, n as int) == opened_payload(
                    alg,
                    key,
                    extra_info@,
                    old(payload)@,
                ).unwrap()
            },
    {
        match self {
            Cipher::AesGcm(c) => c.decrypt(extra_info, payload),
            Cipher::ChaCha20Poly1305(c) => c.decrypt(extra_info, payload),
            Cipher::Unencrypted => Ok(payload.len()),
        }
    }

    /// Encrypts `payload` in place with a fresh random nonce part; see
    /// [`Cipher::encrypt_with_random`].
    pub fn encrypt(&self, extra_info: [u8; 12], payload: &mut [u8]) -> (r: Result<(), CipherError>)
        ensures
            final(payload)@.len() == old(payload)@.len(),
            cipher_params(*self) is None ==> r is Ok && final(payload)@ == old(payload)@,
            cipher_params(*self) matches Some((alg, key)) ==> {
                &&& old(payload)@.len() < ENCRYPTION_RESERVED ==> r == Err::<(), CipherError>(
                    CipherError::TooShort,
                ) && final(payload)@ == old(payload)@
                &&& old(payload)@.len() >= ENCRYPTION_RESERVED ==> r is Ok || r == Err::<
                    (),
                    CipherError,
                >(CipherError::Seal)
                &&& old(payload)@.len() >= ENCRYPTION_RESERVED && old(payload)@.len()
                    - ENCRYPTION_RESERVED <= aead_max_input(alg) ==> r is Ok
                &&& old(payload)@.len() >= ENCRYPTION_RESERVED && r is Ok ==> opened_payload(
                    alg,
                    key,
                    extra_info@,
                    final(payload)@,
                ) == Some(old(payload)@.subrange(0, old(payload)@.len() - ENCRYPTION_RESERVED))
                &&& old(payload)@.len() >= ENCRYPTION_RESERVED && r is Ok ==> exists|rnd: Seq<u8>|
                    rnd.len() == 12 && final(payload)@ == #[trigger] sealed_payload(
                        alg,
                        key,
                        extra_info@,
                        rnd,
                        old(payload)@.subrange(0, old(payload)@.len() - ENCRYPTION_RESERVED),
                    )
            },
    {
        match self {
            Cipher::Unencrypted => Ok(()),
            _ => {
                let random = random_nonce_part();
                self.encrypt_with_random(extra_info, random, payload)
            },
        }
    }

    /// Encrypts `payload` in place with the nonce part `random`: all but its last 28 bytes are
    /// sealed, followed by the tag and `random`. Without encryption nothing changes. Whatever
    /// was encrypted decrypts back to its plaintext.
    pub fn encrypt_with_random(&self, extra_info: [u8; 12], random: [u8; 12], payload: &mut [u8]) -> (r:
        Result<(), CipherError>)
        ensures
            final(payload)@.len() == old(payload)@.len(),
            cipher_params(*self) is None ==> r is Ok && final(payload)@ == old(payload)@,
            cipher_params(*self) matches Some((alg, key)) ==> {
                &&& old(payload)@.len() < ENCRYPTION_RESERVED ==> r == Err::<(), CipherError>(
                    CipherError::TooShort,
                ) && final(payload)@ == old(payload)@
                &&& old(payload)@.len() >= ENCRYPTION_RESERVED ==> r is Ok || r == Err::<
                    (),
                    CipherError,
                >(CipherError::Seal)
                &&& old(payload)@.len() >= ENCRYPTION_RESERVED && old(payload)@.len()
                    - ENCRYPTION_RESERVED <= aead_max_input(alg) ==> r is Ok
                &&& old(payload)@.len() >= ENCRYPTION_RESERVED && r is Ok ==> final(payload)@
                    == sealed_payload(
                    alg,
                    key,
                    extra_info@,
                    random@,
                    old(payload)@.subrange(0, old(payload)@.len() - ENCRYPTION_RESERVED),
                )
                &&& old(payload)@.len() >= ENCRYPTION_RESERVED && r is Ok ==> opened_payload(
                    alg,
                    key,
                    extra_info@,
                    final(payload)@,
                ) == Some(old(payload)@.subrange(0, old(payload)@.len() - ENCRYPTION_RESERVED))
            },
    {
        match self {
            Cipher::AesGcm(c) => c.encrypt_with_random(extra_info, random, payload),
            Cipher::ChaCha20Poly1305(c) => c.encrypt_with_random(extra_info, random, payload),
            Cipher::Unencrypted => Ok(()),
        }
    }

    /// Bytes an encrypted payload reserves: 28 with encryption, none without.
    pub fn reserved_len(&self) -> (r: usize)
        ensures
            cipher_params(*self) is None ==> r == 0,
            cipher_params(*self) is Some ==> r == ENCRYPTION_RESERVED,
    {
        match self {
            Cipher::AesGcm(c) => c.reserved_len(),
            Cipher::ChaCha20Poly1305(c) => c.reserved_len(),
            Cipher::Unencrypted => 0,
        }
    }
}

impl From<Algorithm> for Cipher {
    fn from(value: Algorithm) -> (r: Cipher)
        ensures
            value matches Algorithm::AesGcm(p) ==> cipher_params(r) == Some(
                password_aes_params(encode_utf8(p@)),
            ),
            value matches Algorithm::ChaCha20Poly1305(p) ==> cipher_params(r) == Some(
                (AeadAlgorithm::ChaCha20Poly1305, spec_sha256(encode_utf8(p@))),
            ),
    {
        Cipher::from_algorithm(value)
    }
}

impl vstd::std_specs::convert::FromSpecImpl<Algorithm> for Cipher {
    // The key is a digest of the password, which no specification value names as a `Cipher`;
    // the exact result is stated on `from` itself.
    open spec fn obeys_from_spec() -> bool {
        false
    }

    open spec fn from_spec(value: Algorithm) -> Cipher {
        Cipher::Unencrypted
    }
}

/// The 12 bytes of extra nonce information for a payload from `src_id` to `dest_id`: the two
/// identifiers followed by four zero bytes.
pub fn tag(src_id: &NodeID, dest_id: &NodeID) -> (r: [u8; 12])
    ensures
        r@ == src_id.bytes() + dest_id.bytes() + seq![0u8, 0u8, 0u8, 0u8],
{
    let s = src_id.octets();
    let d = dest_id.octets();
    let r = [s[0], s[1], s[2], s[3], d[0], d[1], d[2], d[3], 0, 0, 0, 0];
    assert(r@ =~= src_id.bytes() + dest_id.bytes() + seq![0u8, 0u8, 0u8, 0u8]);
    r
}

} // verus!
