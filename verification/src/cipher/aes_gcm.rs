use vstd::prelude::*;
use crate::cipher::aead::{
    AeadAlgorithm, aead_max_input, CipherError, ENCRYPTION_RESERVED, open_payload, opened_payload, seal_payload,
    sealed_payload, sha256_digest, spec_sha256,
};
use vstd::utf8::encode_utf8;
use vstd::string::StringSliceAdditionalSpecFns;

verus! {

/// AES-GCM with a 128-bit or a 256-bit key.
#[derive(Clone)]
pub enum AesGcmCipher {
    AesGCM128([u8; 16]),
    AesGCM256([u8; 32]),
}

/// The algorithm and key of an AES-GCM cipher.
pub open spec fn aes_params(c: AesGcmCipher) -> (AeadAlgorithm, Seq<u8>) {
    match c {
        AesGcmCipher::AesGCM128(k) => (AeadAlgorithm::Aes128Gcm, k@),
        AesGcmCipher::AesGCM256(k) => (AeadAlgorithm::Aes256Gcm, k@),
    }
}

/// A 32-byte digest folded to 16 bytes: its second half xor'ed with its first.
pub open spec fn fold_key(k: Seq<u8>) -> Seq<u8> {
    Seq::new(16, |i: int| k[16 + i] ^ k[i])
}

/// The algorithm and key derived from the password bytes `pw`: AES-256 keyed with their
/// SHA-256 digest when they are longer than 12 bytes, else AES-128 keyed with the folded
/// digest.
pub open spec fn password_aes_params(pw: Seq<u8>) -> (AeadAlgorithm, Seq<u8>) {
    if pw.len() > 12 {
        (AeadAlgorithm::Aes256Gcm, spec_sha256(pw))
    } else {
        (AeadAlgorithm::Aes128Gcm, fold_key(spec_sha256(pw)))
    }
}

/// How a password keys AES-GCM: a password of more than 12 bytes gives AES-256 keyed with its
/// SHA-256 digest; a shorter one gives AES-128 whose key byte `i` is byte `16 + i` of the
/// digest xor'ed with byte `i`.
pub proof fn law_password_key(pw: Seq<u8>)
    ensures
        pw.len() > 12 ==> password_aes_params(pw) == (AeadAlgorithm::Aes256Gcm, spec_sha256(pw)),
        pw.len() <= 12 ==> {
            &&& password_aes_params(pw).0 == AeadAlgorithm::Aes128Gcm
            &&& password_aes_params(pw).1.len() == 16
            &&& forall|i: int|
                0 <= i < 16 ==> #[trigger] password_aes_params(pw).1[i] == spec_sha256(pw)[16 + i]
                    ^ spec_sha256(pw)[i]
        },
{
}

/// The AES-GCM cipher for `password`.
pub fn cipher(password: String) -> (r: AesGcmCipher)
    ensures
        aes_params(r) == password_aes_params(encode_utf8(password@)),
{
    let pw = password.as_str();
    let bytes = pw.as_bytes();
    let key = sha256_digest(bytes);
    assert(bytes@ == encode_utf8(password@));
    if bytes.len() > 12 {
        AesGcmCipher::new_256(key)
    } else {
        let mut key_ = [0u8; 16];
        let mut i: usize = 0;
        while i < 16
            invariant
                i <= 16,
                key@.len() == 32,
                forall|j: int| 0 <= j < i ==> key_@[j] == key@[16 + j] ^ key@[j],
            decreases 16 - i,
        {
            key_[i] = key[16 + i] ^ key[i];
            i = i + 1;
        }
        assert(key_@ =~= fold_key(key@));
        AesGcmCipher::new_128(key_)
    }
}

impl AesGcmCipher {
    /// AES-128-GCM with `key`.
    pub fn new_128(key: [u8; 16]) -> (r: AesGcmCipher)
        ensures
            aes_params(r) == (AeadAlgorithm::Aes128Gcm, key@),
    {
        AesGcmCipher::AesGCM128(key)
    }

    /// AES-256-GCM with `key`.
    pub fn new_256(key: [u8; 32]) -> (r: AesGcmCipher)
        ensures
            aes_params(r) == (AeadAlgorithm::Aes256Gcm, key@),
    {
        AesGcmCipher::AesGCM256(key)
    }

    /// Bytes an encrypted payload reserves.
    pub fn reserved_len(&self) -> (r: usize)
        ensures
            r == ENCRYPTION_RESERVED,
    {
        ENCRYPTION_RESERVED
    }

    /// Decrypts `payload` in place; see [`open_payload`].
    pub fn decrypt(&self, extra_info: [u8; 12], payload: &mut [u8]) -> (r: Result<usize, CipherError>)
        ensures
            final(payload)@.len() == old(payload)@.len(),
            old(payload)@.len() < ENCRYPTION_RESERVED ==> r == Err::<usize, CipherError>(
                CipherError::TooShort,
            ) && final(payload)@ == old(payload)@,
            old(payload)@.len() >= ENCRYPTION_RESERVED ==> (r is Ok <==> opened_payload(
                aes_params(*self).0,
                aes_params(*self).1,
                extra_info@,
                old(payload)@,
            ) is Some),
            old(payload)@.len() >= ENCRYPTION_RESERVED && r is Err ==> r == Err::<usize, CipherError>(
                CipherError::Open,
            ),
            r matches Ok(n) ==> n == old(payload)@.len() - ENCRYPTION_RESERVED && final(payload)@.subrange(0, n as int) == opened_payload(
                aes_params(*self).0,
                aes_params(*self).1,
                extra_info@,
                old(payload)@,
            ).unwrap(),
    {
        match self {
            AesGcmCipher::AesGCM128(k) => open_payload(
                AeadAlgorithm::Aes128Gcm,
                k.as_slice(),
                extra_info,
                payload,
            ),
            AesGcmCipher::AesGCM256(k) => open_payload(
                AeadAlgorithm::Aes256Gcm,
                k.as_slice(),
                extra_info,
                payload,
            ),
        }
    }

    /// Encrypts `payload` in place with a fresh random nonce part; see
    /// [`AesGcmCipher::encrypt_with_random`].
    pub fn encrypt(&self, extra_info: [u8; 12], payload: &mut [u8]) -> (r: Result<(), CipherError>)
        ensures
            final(payload)@.len() == old(payload)@.len(),
            old(payload)@.len() < ENCRYPTION_RESERVED ==> r == Err::<(), CipherError>(
                CipherError::TooShort,
            ) && final(payload)@ == old(payload)@,
            old(payload)@.len() >= ENCRYPTION_RESERVED ==> r is Ok || r == Err::<(), CipherError>(
                CipherError::Seal,
            ),
            old(payload)@.len() >= ENCRYPTION_RESERVED && old(payload)@.len() - ENCRYPTION_RESERVED
                <= aead_max_input(aes_params(*self).0) ==> r is Ok,
            old(payload)@.len() >= ENCRYPTION_RESERVED && r is Ok ==> opened_payload(
                aes_params(*self).0,
                aes_params(*self).1,
                extra_info@,
                final(payload)@,
            ) == Some(old(payload)@.subrange(0, old(payload)@.len() - ENCRYPTION_RESERVED)),
            old(payload)@.len() >= ENCRYPTION_RESERVED && r is Ok ==> exists|rnd: Seq<u8>|
                rnd.len() == 12 && final(payload)@ == #[trigger] sealed_payload(
                    aes_params(*self).0,
                    aes_params(*self).1,
                    extra_info@,
                    rnd,
                    old(payload)@.subrange(0, old(payload)@.len() - ENCRYPTION_RESERVED),
                ),
    {
        let random = crate::cipher::aead::random_nonce_part();
        self.encrypt_with_random(extra_info, random, payload)
    }

    /// Encrypts `payload` in place with the nonce part `random`; see [`seal_payload`].
    pub fn encrypt_with_random(&self, extra_info: [u8; 12], random: [u8; 12], payload: &mut [u8]) -> (r:
        Result<(), CipherError>)
        ensures
            final(payload)@.len() == old(payload)@.len(),
            old(payload)@.len() < ENCRYPTION_RESERVED ==> r == Err::<(), CipherError>(
                CipherError::TooShort,
            ) && final(payload)@ == old(payload)@,
            old(payload)@.len() >= ENCRYPTION_RESERVED ==> r is Ok || r == Err::<(), CipherError>(
                CipherError::Seal,
            ),
            old(payload)@.len() >= ENCRYPTION_RESERVED && old(payload)@.len() - ENCRYPTION_RESERVED
                <= aead_max_input(aes_params(*self).0) ==> r is Ok,
            old(payload)@.len() >= ENCRYPTION_RESERVED && r is Ok ==> final(payload)@
                == sealed_payload(
                aes_params(*self).0,
                aes_params(*self).1,
                extra_info@,
                random@,
                old(payload)@.subrange(0, old(payload)@.len() - ENCRYPTION_RESERVED),
            ),
            old(payload)@.len() >= ENCRYPTION_RESERVED && r is Ok ==> opened_payload(
                aes_params(*self).0,
                aes_params(*self).1,
                extra_info@,
                final(payload)@,
            ) == Some(old(payload)@.subrange(0, old(payload)@.len() - ENCRYPTION_RESERVED)),
    {
        match self {
            AesGcmCipher::AesGCM128(k) => seal_payload(
                AeadAlgorithm::Aes128Gcm,
                k.as_slice(),
                extra_info,
                random,
                payload,
            ),
            AesGcmCipher::AesGCM256(k) => seal_payload(
                AeadAlgorithm::Aes256Gcm,
                k.as_slice(),
                extra_info,
                random,
                payload,
            ),
        }
    }
}

} // verus!
