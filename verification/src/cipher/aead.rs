use vstd::prelude::*;
use crate::error::IoKind;

verus! {

/// The authenticated ciphers the library uses.
#[derive(Clone, Copy, PartialEq, Eq, Structural, Debug)]
pub enum AeadAlgorithm {
    Aes128Gcm,
    Aes256Gcm,
    ChaCha20Poly1305,
}

/// Key length in bytes of `alg`.
pub open spec fn aead_key_len(alg: AeadAlgorithm) -> nat {
    match alg {
        AeadAlgorithm::Aes128Gcm => 16,
        _ => 32,
    }
}

/// The longest input `ring` seals or opens with `alg`, in bytes: its 32-bit block counter
/// covers `(2^32 - 2) * 16` bytes for AES-GCM and `(2^32 - 1) * 64` bytes for
/// ChaCha20-Poly1305.
pub open spec fn aead_max_input(alg: AeadAlgorithm) -> nat {
    match alg {
        AeadAlgorithm::ChaCha20Poly1305 => 274_877_906_880,
        _ => 68_719_476_704,
    }
}

/// Length of the authentication tag of every algorithm here.
pub const TAG_LEN: usize = 16;

/// Length of a nonce.
pub const NONCE_LEN: usize = 12;

/// Bytes every encrypted payload reserves: the tag and the random nonce part.
pub const ENCRYPTION_RESERVED: usize = 16 + 12;

/// The SHA-256 digest of `data`.
pub uninterp spec fn spec_sha256(data: Seq<u8>) -> Seq<u8>;

/// Ciphertext followed by the tag that sealing `plaintext` under `key` and `nonce` with no
/// associated data gives.
pub uninterp spec fn spec_aead_seal(
    alg: AeadAlgorithm,
    key: Seq<u8>,
    nonce: Seq<u8>,
    plaintext: Seq<u8>,
) -> Seq<u8>;

/// The plaintext that opening `sealed` (ciphertext followed by tag) gives, or `None` when
/// authentication fails.
pub uninterp spec fn spec_aead_open(
    alg: AeadAlgorithm,
    key: Seq<u8>,
    nonce: Seq<u8>,
    sealed: Seq<u8>,
) -> Option<Seq<u8>>;

/// The error value of `ring`.
#[verifier::external_type_specification]
#[verifier::external_body]
pub struct ExRingUnspecified(ring::error::Unspecified);

/// The SHA-256 digest of `data`.
///
/// Calls `sha2::Sha256::digest`; the contract names the 32-byte digest and claims nothing
/// more about it.
#[verifier::external_body]
pub(crate) fn sha256_digest(data: &[u8]) -> (r: [u8; 32])
    ensures
        r@ == spec_sha256(data@),
{
    <sha2::Sha256 as sha2::Digest>::digest(data).into()
}

/// Twelve random bytes.
///
/// Calls `rand::random`; the contract claims nothing of the bytes.
#[verifier::external_body]
pub(crate) fn random_nonce_part() -> (r: [u8; 12]) {
    rand::random::<[u8; 12]>()
}

/// Seals `data` in place under `key` and `nonce` with no associated data and returns the tag.
///
/// Builds a `ring::aead::LessSafeKey` from the key bytes and calls its
/// `seal_in_place_separate_tag`. The contract claims: the length is kept; sealing succeeds
/// for inputs up to `ring`'s length limit (a key of the right length is always accepted);
/// on success the new bytes followed by the tag are the named sealing of the old bytes, and
/// opening them under the same key and nonce gives back the old bytes (the defining property
/// of an AEAD).
#[verifier::external_body]
pub(crate) fn aead_seal_in_place(alg: AeadAlgorithm, key: &[u8], nonce: [u8; 12], data: &mut [u8]) -> (r:
    Result<[u8; 16], ring::error::Unspecified>)
    requires
        key@.len() == aead_key_len(alg),
    ensures
        final(data)@.len() == old(data)@.len(),
        old(data)@.len() <= aead_max_input(alg) ==> r is Ok,
        r matches Ok(tag) ==> final(data)@ + tag@ == spec_aead_seal(alg, key@, nonce@, old(data)@),
        r matches Ok(tag) ==> spec_aead_open(alg, key@, nonce@, final(data)@ + tag@) == Some(
            old(data)@,
        ),
{
    let algorithm = match alg {
        AeadAlgorithm::Aes128Gcm => &ring::aead::AES_128_GCM,
        AeadAlgorithm::Aes256Gcm => &ring::aead::AES_256_GCM,
        AeadAlgorithm::ChaCha20Poly1305 => &ring::aead::CHACHA20_POLY1305,
    };
    let key = ring::aead::LessSafeKey::new(ring::aead::UnboundKey::new(algorithm, key)?);
    let tag = key.seal_in_place_separate_tag(
        ring::aead::Nonce::assume_unique_for_key(nonce),
        ring::aead::Aad::empty(),
        data,
    )?;
    let mut out = [0u8; 16];
    out.copy_from_slice(tag.as_ref());
    Ok(out)
}

/// Opens `data` (ciphertext followed by a 16-byte tag) in place under `key` and `nonce` with
/// no associated data and returns the plaintext length.
///
/// Builds a `ring::aead::LessSafeKey` from the key bytes and calls its `open_in_place`. The
/// contract claims: the length is kept; it succeeds exactly when the named opening succeeds,
/// and then the plaintext, 16 bytes shorter than the input, stands at the start of `data`.
#[verifier::external_body]
pub(crate) fn aead_open_in_place(alg: AeadAlgorithm, key: &[u8], nonce: [u8; 12], data: &mut [u8]) -> (r:
    Result<usize, ring::error::Unspecified>)
    requires
        key@.len() == aead_key_len(alg),
    ensures
        final(data)@.len() == old(data)@.len(),
        r is Ok <==> spec_aead_open(alg, key@, nonce@, old(data)@) is Some,
        r matches Ok(n) ==> n + 16 == old(data)@.len() && final(data)@.subrange(0, n as int)
            == spec_aead_open(alg, key@, nonce@, old(data)@).unwrap(),
{
    let algorithm = match alg {
        AeadAlgorithm::Aes128Gcm => &ring::aead::AES_128_GCM,
        AeadAlgorithm::Aes256Gcm => &ring::aead::AES_256_GCM,
        AeadAlgorithm::ChaCha20Poly1305 => &ring::aead::CHACHA20_POLY1305,
    };
    let key = ring::aead::LessSafeKey::new(ring::aead::UnboundKey::new(algorithm, key)?);
    let plain = key.open_in_place(
        ring::aead::Nonce::assume_unique_for_key(nonce),
        ring::aead::Aad::empty(),
        data,
    )?;
    Ok(plain.len())
}

} // verus!

verus! {

/// Why a payload could not be encrypted or decrypted.
#[derive(Clone, Copy, PartialEq, Eq, Structural, Debug)]
pub enum CipherError {
    /// The payload is shorter than the 28 reserved bytes.
    TooShort,
    /// The cipher refused to seal the payload.
    Seal,
    /// Authentication of the payload failed.
    Open,
}

impl CipherError {
    /// Every failure to encrypt or decrypt is invalid data.
    pub fn kind(&self) -> (r: IoKind)
        ensures
            r == IoKind::InvalidData,
    {
        IoKind::InvalidData
    }
}

/// The nonce used for a payload: the random part xor'ed with the extra information.
pub open spec fn mixed_nonce(random: Seq<u8>, extra: Seq<u8>) -> Seq<u8> {
    Seq::new(12, |i: int| random[i] ^ extra[i])
}

/// What encryption leaves in a payload whose leading part (all but the 28 reserved bytes) is
/// `body`: the sealed body with its tag, then the random nonce part.
pub open spec fn sealed_payload(
    alg: AeadAlgorithm,
    key: Seq<u8>,
    extra: Seq<u8>,
    random: Seq<u8>,
    body: Seq<u8>,
) -> Seq<u8> {
    spec_aead_seal(alg, key, mixed_nonce(random, extra), body) + random
}

/// What decryption makes of `payload`: opening all but its last 12 bytes under the nonce
/// made from those 12 bytes and `extra`.
pub open spec fn opened_payload(alg: AeadAlgorithm, key: Seq<u8>, extra: Seq<u8>, payload: Seq<u8>) -> Option<Seq<u8>> {
    let n = payload.len() as int;
    spec_aead_open(alg, key, mixed_nonce(payload.subrange(n - 12, n), extra), payload.subrange(0, n - 12))
}

/// Opening `x` followed by a random nonce part opens `x` under the nonce made of that part.
proof fn lemma_opened_of(alg: AeadAlgorithm, key: Seq<u8>, extra: Seq<u8>, x: Seq<u8>, random: Seq<u8>)
    requires
        random.len() == 12,
    ensures
        opened_payload(alg, key, extra, x + random) == spec_aead_open(
            alg,
            key,
            mixed_nonce(random, extra),
            x,
        ),
{
    let s = x + random;
    let n = s.len() as int;
    assert(s.subrange(n - 12, n) =~= random);
    assert(s.subrange(0, n - 12) =~= x);
}

fn xor_nonce(random: &[u8], extra: [u8; 12]) -> (r: [u8; 12])
    requires
        random@.len() == 12,
    ensures
        r@ == mixed_nonce(random@, extra@),
{
    let mut nonce = [0u8; 12];
    let mut i: usize = 0;
    while i < NONCE_LEN
        invariant
            i <= 12,
            random@.len() == 12,
            forall|j: int| 0 <= j < i ==> nonce@[j] == random@[j] ^ extra@[j],
        decreases 12 - i,
    {
        nonce[i] = random[i] ^ extra[i];
        i = i + 1;
    }
    assert(nonce@ =~= mixed_nonce(random@, extra@));
    nonce
}

/// Encrypts `payload` in place: its last 28 bytes are reserved; the rest is sealed under the
/// nonce made of `random` and `extra`, the tag goes into the next 16 bytes and `random` into
/// the last 12. What was encrypted decrypts back.
pub fn seal_payload(
    alg: AeadAlgorithm,
    key: &[u8],
    extra: [u8; 12],
    random: [u8; 12],
    payload: &mut [u8],
) -> (r: Result<(), CipherError>)
    requires
        key@.len() == aead_key_len(alg),
    ensures
        final(payload)@.len() == old(payload)@.len(),
        old(payload)@.len() < ENCRYPTION_RESERVED ==> r == Err::<(), CipherError>(
            CipherError::TooShort,
        ) && final(payload)@ == old(payload)@,
        old(payload)@.len() >= ENCRYPTION_RESERVED ==> r is Ok || r == Err::<(), CipherError>(
            CipherError::Seal,
        ),
        old(payload)@.len() >= ENCRYPTION_RESERVED && old(payload)@.len() - ENCRYPTION_RESERVED
            <= aead_max_input(alg) ==> r is Ok,
        old(payload)@.len() >= ENCRYPTION_RESERVED && r is Ok ==> final(payload)@ == sealed_payload(
            alg,
            key@,
            extra@,
            random@,
            old(payload)@.subrange(0, old(payload)@.len() - ENCRYPTION_RESERVED),
        ),
        old(payload)@.len() >= ENCRYPTION_RESERVED && r is Ok ==> opened_payload(
            alg,
            key@,
            extra@,
            final(payload)@,
        ) == Some(old(payload)@.subrange(0, old(payload)@.len() - ENCRYPTION_RESERVED)),
{
    let len = payload.len();
    if len < ENCRYPTION_RESERVED {
        return Err(CipherError::TooShort);
    }
    let nonce = xor_nonce(random.as_slice(), extra);
    let ghost body_old = payload@.subrange(0, len - ENCRYPTION_RESERVED);
    let (body, tail) = payload.split_at_mut(len - ENCRYPTION_RESERVED);
    match aead_seal_in_place(alg, key, nonce, body) {
        Ok(tag) => {
            let mut i: usize = 0;
            while i < TAG_LEN
                invariant
                    i <= 16,
                    tail@.len() == 28,
                    forall|j: int| 0 <= j < i ==> tail@[j] == tag@[j],
                decreases 16 - i,
            {
                tail[i] = tag[i];
                i = i + 1;
            }
            let mut k: usize = 0;
            while k < NONCE_LEN
                invariant
                    k <= 12,
                    tail@.len() == 28,
                    forall|j: int| 0 <= j < 16 ==> tail@[j] == tag@[j],
                    forall|j: int| 0 <= j < k ==> tail@[16 + j] == random@[j],
                decreases 12 - k,
            {
                tail[16 + k] = random[k];
                k = k + 1;
            }
            assert(tail@ =~= tag@ + random@);
            proof {
                lemma_opened_of(alg, key@, extra@, body@ + tag@, random@);
                assert(body@ + tail@ =~= (body@ + tag@) + random@);
            }
            Ok(())
        },
        Err(_) => Err(CipherError::Seal),
    }
}

/// Decrypts `payload` in place and returns the plaintext length, 28 bytes less than the
/// payload; the plaintext stands at its start.
pub fn open_payload(alg: AeadAlgorithm, key: &[u8], extra: [u8; 12], payload: &mut [u8]) -> (r:
    Result<usize, CipherError>)
    requires
        key@.len() == aead_key_len(alg),
    ensures
        final(payload)@.len() == old(payload)@.len(),
        old(payload)@.len() < ENCRYPTION_RESERVED ==> r == Err::<usize, CipherError>(
            CipherError::TooShort,
        ) && final(payload)@ == old(payload)@,
        old(payload)@.len() >= ENCRYPTION_RESERVED ==> (r is Ok <==> opened_payload(
            alg,
            key@,
            extra@,
            old(payload)@,
        ) is Some),
        old(payload)@.len() >= ENCRYPTION_RESERVED && r is Err ==> r == Err::<usize, CipherError>(
            CipherError::Open,
        ),
        r matches Ok(n) ==> n == old(payload)@.len() - ENCRYPTION_RESERVED && final(payload)@.subrange(
            0,
            n as int,
        ) == opened_payload(alg, key@, extra@, old(payload)@).unwrap(),
{
    let len = payload.len();
    if len < ENCRYPTION_RESERVED {
        return Err(CipherError::TooShort);
    }
    let nonce = {
        let s: &[u8] = payload;
        xor_nonce(&s[len - NONCE_LEN..len], extra)
    };
    let (sealed, _random) = payload.split_at_mut(len - NONCE_LEN);
    match aead_open_in_place(alg, key, nonce, sealed) {
        Ok(n) => Ok(n),
        Err(_) => Err(CipherError::Open),
    }
}

} // verus!
