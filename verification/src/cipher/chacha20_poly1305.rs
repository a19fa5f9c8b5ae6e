use vstd::prelude::*;
use crate::cipher::aead::{
    AeadAlgorithm, aead_max_input, CipherError, ENCRYPTION_RESERVED, open_payload, opened_payload, seal_payload,
    sealed_payload, sha256_digest, spec_sha256,
};
use vstd::utf8::encode_utf8;

verus! {

/// ChaCha20-Poly1305 with a 256-bit key.
#[derive(Clone)]
pub struct ChaCha20Poly1305Cipher {
    key: [u8; 32],
}

/// The ChaCha20-Poly1305 cipher keyed with the SHA-256 digest of `password`.
pub fn cipher(password: String) -> (r: ChaCha20Poly1305Cipher)
    ensures
        r.key() == spec_sha256(encode_utf8(password@)),
{
    let key = sha256_digest(password.as_str().as_bytes());
    ChaCha20Poly1305Cipher::new_256(key)
}

impl ChaCha20Poly1305Cipher {
    /// The key.
    pub closed spec fn key(self) -> Seq<u8> {
        self.key@
    }

    /// The cipher with `key`.
    pub fn new_256(key: [u8; 32]) -> (r: ChaCha20Poly1305Cipher)
        ensures
            r.key() == key@,
    {
        ChaCha20Poly1305Cipher { key }
    }

    /// Bytes an encrypted payload reserves.
    pub fn reserved_len(&self) -> (r: usize)
        ensures
            r == ENCRYPTION_RESERVED,
    {
        ENCRYPTION_RESERVED
    }

    /// Decrypts `payload` in place; see [`open_payload`].
    pub fn decrypt(&self, extra_info: [u8; 12], payload: &mut [u8]) -> (r: Result<usize, CipherError>)
        ensures
            final(payload)@.len() == old(payload)@.len(),
            old(payload)@.len() < ENCRYPTION_RESERVED ==> r == Err::<usize, CipherError>(
                CipherError::TooShort,
            ) && final(payload)@ == old(payload)@,
            old(payload)@.len() >= ENCRYPTION_RESERVED ==> (r is Ok <==> opened_payload(
                AeadAlgorithm::ChaCha20Poly1305,
                self.key(),
                extra_info@,
                old(payload)@,
            ) is Some),
            old(payload)@.len() >= ENCRYPTION_RESERVED && r is Err ==> r == Err::<usize, CipherError>(
                CipherError::Open,
            ),
            r matches Ok(n) ==> n == old(payload)@.len() - ENCRYPTION_RESERVED && final(payload)@.subrange(0, n as int) == opened_payload(
                AeadAlgorithm::ChaCha20Poly1305,
                self.key(),
                extra_info@,
                old(payload)@,
            ).unwrap(),
    {
        open_payload(AeadAlgorithm::ChaCha20Poly1305, self.key.as_slice(), extra_info, payload)
    }

    /// Encrypts `payload` in place with a fresh random nonce part; see
    /// [`ChaCha20Poly1305Cipher::encrypt_with_random`].
    pub fn encrypt(&self, extra_info: [u8; 12], payload: &mut [u8]) -> (r: Result<(), CipherError>)
        ensures
            final(payload)@.len() == old(payload)@.len(),
            old(payload)@.len() < ENCRYPTION_RESERVED ==> r == Err::<(), CipherError>(
                CipherError::TooShort,
            ) && final(payload)@ == old(payload)@,
            old(payload)@.len() >= ENCRYPTION_RESERVED ==> r is Ok || r == Err::<(), CipherError>(
                CipherError::Seal,
            ),
            old(payload)@.len() >= ENCRYPTION_RESERVED && old(payload)@.len() - ENCRYPTION_RESERVED
                <= aead_max_input(AeadAlgorithm::ChaCha20Poly1305) ==> r is Ok,
            old(payload)@.len() >= ENCRYPTION_RESERVED && r is Ok ==> opened_payload(
                AeadAlgorithm::ChaCha20Poly1305,
                self.key(),
                extra_info@,
                final(payload)@,
            ) == Some(old(payload)@.subrange(0, old(payload)@.len() - ENCRYPTION_RESERVED)),
            old(payload)@.len() >= ENCRYPTION_RESERVED && r is Ok ==> exists|rnd: Seq<u8>|
                rnd.len() == 12 && final(payload)@ == #[trigger] sealed_payload(
                    AeadAlgorithm::ChaCha20Poly1305,
                    self.key(),
                    extra_info@,
                    rnd,
                    old(payload)@.subrange(0, old(payload)@.len() - ENCRYPTION_RESERVED),
                ),
    {
        let random = crate::cipher::aead::random_nonce_part();
        self.encrypt_with_random(extra_info, random, payload)
    }

    /// Encrypts `payload` in place with the nonce part `random`; see [`seal_payload`].
    pub fn encrypt_with_random(&self, extra_info: [u8; 12], random: [u8; 12], payload: &mut [u8]) -> (r:
        Result<(), CipherError>)
        ensures
            final(payload)@.len() == old(payload)@.len(),
            old(payload)@.len() < ENCRYPTION_RESERVED ==> r == Err::<(), CipherError>(
                CipherError::TooShort,
            ) && final(payload)@ == old(payload)@,
            old(payload)@.len() >= ENCRYPTION_RESERVED ==> r is Ok || r == Err::<(), CipherError>(
                CipherError::Seal,
            ),
            old(payload)@.len() >= ENCRYPTION_RESERVED && old(payload)@.len() - ENCRYPTION_RESERVED
                <= aead_max_input(AeadAlgorithm::ChaCha20Poly1305) ==> r is Ok,
            old(payload)@.len() >= ENCRYPTION_RESERVED && r is Ok ==> final(payload)@
                == sealed_payload(
                AeadAlgorithm::ChaCha20Poly1305,
                self.key(),
                extra_info@,
                random@,
                old(payload)@.subrange(0, old(payload)@.len() - ENCRYPTION_RESERVED),
            ),
            old(payload)@.len() >= ENCRYPTION_RESERVED && r is Ok ==> opened_payload(
                AeadAlgorithm::ChaCha20Poly1305,
                self.key(),
                extra_info@,
                final(payload)@,
            ) == Some(old(payload)@.subrange(0, old(payload)@.len() - ENCRYPTION_RESERVED)),
    {
        seal_payload(AeadAlgorithm::ChaCha20Poly1305, self.key.as_slice(), extra_info, random, payload)
    }
}

} // verus!
