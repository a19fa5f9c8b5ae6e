use vstd::prelude::*;
use crate::bytes::push_all;
use crate::cipher::aead::{sha256_digest, spec_sha256};
use crate::error::IoKind;
use crate::quic::peer_id::PeerId;

verus! {

/// The PKCS#8 v1 DER header of an Ed25519 private key, followed in a key by its 32-byte seed.
pub open spec fn pkcs8_ed25519_prefix() -> Seq<u8> {
    seq![
        0x30u8, 0x2eu8, 0x02u8, 0x01u8, 0x00u8, 0x30u8, 0x05u8, 0x06u8, 0x03u8, 0x2bu8, 0x65u8,
        0x70u8, 0x04u8, 0x22u8, 0x04u8, 0x20u8,
    ]
}

/// The DER certificate that `rcgen` makes for the subject alternative name `name`,
/// self-signed with the Ed25519 key given as PKCS#8 DER `key_pkcs8`.
pub uninterp spec fn spec_self_signed_cert(key_pkcs8: Seq<u8>, name: Seq<char>) -> Seq<u8>;

/// A self-signed certificate for `name` under the Ed25519 key `key_pkcs8`.
///
/// Converts the key to `rustls::pki_types::PrivateKeyDer`, then calls
/// `rcgen::KeyPair::from_der_and_sign_algo` with `rcgen::PKCS_ED25519`,
/// `rcgen::CertificateParams::new` with `name` as the only subject alternative name, clears
/// the distinguished name and calls `CertificateParams::self_signed`. rcgen fixes the
/// validity dates, derives the serial number from the public key, and Ed25519 signing is
/// deterministic, so the certificate is a function of the arguments: the contract names it.
/// It also claims success for a 48-byte PKCS#8 v1 Ed25519 key (the header above and a seed)
/// and an ASCII name: rcgen parses such a key, takes an ASCII name as an IP address or a DNS
/// name, and Ed25519 signing does not fail. It claims failure for a name with a non-ASCII
/// character: such a name is no IP address, and rcgen's `Ia5String` refuses it as a DNS name.
/// Whether other keys are refused is not stated.
#[verifier::external_body]
fn self_signed_cert_der(key_pkcs8: &[u8], name: &str) -> (r: Option<Vec<u8>>)
    ensures
        r matches Some(d) ==> d@ == spec_self_signed_cert(key_pkcs8@, name@),
        key_pkcs8@.len() == 48 && key_pkcs8@.subrange(0, 16) == pkcs8_ed25519_prefix() && (forall|
            i: int,
        | 0 <= i < name@.len() ==> (name@[i] as u32) < 128) ==> r is Some,
        (exists|i: int| 0 <= i < name@.len() && (name@[i] as u32) >= 128) ==> r is None,
{
    let key = rustls::pki_types::PrivateKeyDer::Pkcs8(
        rustls::pki_types::PrivatePkcs8KeyDer::from(key_pkcs8.to_vec()),
    );
    let key_pair = rcgen::KeyPair::from_der_and_sign_algo(&key, &rcgen::PKCS_ED25519).ok()?;
    let mut params = rcgen::CertificateParams::new(vec![name.to_string()]).ok()?;
    params.distinguished_name = rcgen::DistinguishedName::new();
    let cert = params.self_signed(&key_pair).ok()?;
    Some(cert.der().to_vec())
}

/// Why an identity could not be made.
#[derive(Clone, Copy, PartialEq, Eq, Structural, Debug)]
pub enum IdentityError {
    /// The peer id is empty or `*`.
    InvalidPeerId,
    /// The certificate could not be made.
    Certificate,
}

impl IdentityError {
    /// The category of the failure.
    pub fn kind(&self) -> (r: IoKind)
        ensures
            *self == IdentityError::InvalidPeerId ==> r == IoKind::InvalidInput,
            *self == IdentityError::Certificate ==> r == IoKind::Other,
    {
        match self {
            IdentityError::InvalidPeerId => IoKind::InvalidInput,
            IdentityError::Certificate => IoKind::Other,
        }
    }
}

/// Local overlay identity: a peer id and a certificate whose key comes from a seed; the two
/// are independent.
#[derive(Clone)]
pub struct Identity {
    peer_id: PeerId,
    seed_hash: [u8; 32],
    cert_der: Vec<u8>,
    key_der: Vec<u8>,
}

/// The Ed25519 PKCS#8 private key whose seed is `seed`.
pub fn ed25519_pkcs8_from_seed(seed: &[u8; 32]) -> (r: Vec<u8>)
    ensures
        r@ == pkcs8_ed25519_prefix() + seed@,
{
    let mut der: Vec<u8> = Vec::with_capacity(48);
    let prefix: [u8; 16] = [
        0x30, 0x2e, 0x02, 0x01, 0x00, 0x30, 0x05, 0x06, 0x03, 0x2b, 0x65, 0x70, 0x04, 0x22, 0x04,
        0x20,
    ];
    push_all(&mut der, prefix.as_slice());
    push_all(&mut der, seed.as_slice());
    assert(prefix@ =~= pkcs8_ed25519_prefix());
    der
}

impl Identity {
    /// The peer id.
    pub closed spec fn spec_peer_id(self) -> PeerId {
        self.peer_id
    }

    /// The SHA-256 digest of the seed.
    pub closed spec fn spec_seed_hash(self) -> Seq<u8> {
        self.seed_hash@
    }

    /// The DER certificate.
    pub closed spec fn spec_cert_der(self) -> Seq<u8> {
        self.cert_der@
    }

    /// The PKCS#8 DER private key.
    pub closed spec fn spec_key_der(self) -> Seq<u8> {
        self.key_der@
    }

    /// The identity `peer_id` whose key is derived from the SHA-256 digest of `seed` and whose
    /// certificate is self-signed for `peer_id`. An empty or `*` peer id is refused; for any other
    /// ASCII peer id the identity is always made, and with any other peer id the certificate
    /// cannot be made.
    pub fn new(peer_id: &str, seed: &[u8]) -> (r: Result<Identity, IdentityError>)
        ensures
            peer_id@.len() == 0 || peer_id@ == seq!['*'] ==> r == Err::<Identity, IdentityError>(
                IdentityError::InvalidPeerId,
            ),
            !(peer_id@.len() == 0 || peer_id@ == seq!['*']) ==> r is Ok || r == Err::<
                Identity,
                IdentityError,
            >(IdentityError::Certificate),
            !(peer_id@.len() == 0 || peer_id@ == seq!['*']) && (forall|i: int|
                0 <= i < peer_id@.len() ==> (peer_id@[i] as u32) < 128) ==> r is Ok,
            !(peer_id@.len() == 0 || peer_id@ == seq!['*']) && (exists|i: int|
                0 <= i < peer_id@.len() && (peer_id@[i] as u32) >= 128) ==> r == Err::<
                Identity,
                IdentityError,
            >(IdentityError::Certificate),
            r matches Ok(id) ==> {
                &&& id.spec_peer_id().0@ == peer_id@
                &&& id.spec_seed_hash() == spec_sha256(seed@)
                &&& id.spec_key_der() == pkcs8_ed25519_prefix() + spec_sha256(seed@)
                &&& id.spec_cert_der() == spec_self_signed_cert(
                    pkcs8_ed25519_prefix() + spec_sha256(seed@),
                    peer_id@,
                )
            },
    {
        let peer = PeerId::from(peer_id);
        if peer.is_unspecified() || peer.is_broadcast() {
            return Err(IdentityError::InvalidPeerId);
        }
        let seed_hash = sha256_digest(seed);
        let key_der = ed25519_pkcs8_from_seed(&seed_hash);
        assert(key_der@.subrange(0, 16) =~= pkcs8_ed25519_prefix());
        let cert_der = match self_signed_cert_der(key_der.as_slice(), peer.as_str()) {
            Some(d) => d,
            None => return Err(IdentityError::Certificate),
        };
        Ok(Identity { peer_id: peer, seed_hash, cert_der, key_der })
    }

    /// The peer id.
    pub fn peer_id(&self) -> (r: PeerId)
        ensures
            r == self.spec_peer_id(),
    {
        self.peer_id.duplicate()
    }

    /// The DER certificate.
    pub fn certificate_der(&self) -> (r: &[u8])
        ensures
            r@ == self.spec_cert_der(),
    {
        self.cert_der.as_slice()
    }

    /// The PKCS#8 DER private key.
    pub fn private_key_der(&self) -> (r: &[u8])
        ensures
            r@ == self.spec_key_der(),
    {
        self.key_der.as_slice()
    }

    /// The SHA-256 digest of the seed.
    pub fn seed_hash(&self) -> (r: [u8; 32])
        ensures
            r@ == self.spec_seed_hash(),
    {
        self.seed_hash
    }
}

} // verus!
