//! Node certificates and certificate pinning.
//!
//! A node derives a self-signed certificate from its signing key. Clients pin
//! the SHA-256 fingerprint of that certificate; an all-zero fingerprint stands
//! for trust on first use and accepts any certificate.

use crate::bytes::{is_zero, same_array, zeros};
use crate::crypto::primitives::{sha256, sha256_digest};
use ed25519_dalek::pkcs8::EncodePrivateKey;
use vstd::prelude::*;

verus! {

/// The DNS name in every node certificate.
pub const NODE_DNS_NAME: &'static str = "bitcord-node";

/// PKCS#8 DER of an Ed25519 signing key.
pub uninterp spec fn pkcs8_of(signing_key: Seq<u8>) -> Option<Seq<u8>>;

/// DER of the self-signed certificate for an Ed25519 key in PKCS#8 form and a
/// DNS name.
pub uninterp spec fn self_signed_der(pkcs8: Seq<u8>, dns_name: Seq<char>) -> Option<Seq<u8>>;

/// `SigningKey::to_pkcs8_der`.
#[verifier::external_body]
fn pkcs8_der(signing_key: &[u8; 32]) -> (r: Option<Vec<u8>>)
    ensures
        match r {
            Some(d) => pkcs8_of(signing_key@) == Some(d@),
            None => pkcs8_of(signing_key@) is None,
        },
{
    let key = ed25519_dalek::SigningKey::from_bytes(signing_key);
    key.to_pkcs8_der().ok().map(|doc| doc.as_bytes().to_vec())
}

/// Whether the bytes are the PKCS#8 DER of an Ed25519 signing key.
pub open spec fn is_ed25519_pkcs8(pkcs8: Seq<u8>) -> bool {
    exists|signing_key: Seq<u8>|
        signing_key.len() == 32 && #[trigger] pkcs8_of(signing_key) == Some(pkcs8)
}

/// `rcgen::CertificateParams::self_signed` for the Ed25519 key that `pkcs8`
/// encodes and one DNS name. Dates, names and serial number are fixed by the key
/// and the defaults, and Ed25519 signatures are deterministic; the other kinds
/// of key that `rcgen::KeyPair` reads sign with chance and are left out.
#[verifier::external_body]
fn self_signed(pkcs8: &[u8], dns_name: &str) -> (r: Option<Vec<u8>>)
    requires
        is_ed25519_pkcs8(pkcs8@),
    ensures
        match r {
            Some(d) => self_signed_der(pkcs8@, dns_name@) == Some(d@),
            None => self_signed_der(pkcs8@, dns_name@) is None,
        },
{
    let key_pair = rcgen::KeyPair::try_from(pkcs8).ok()?;
    let params = rcgen::CertificateParams::new(vec![dns_name.to_owned()]).ok()?;
    params.self_signed(&key_pair).ok().map(|cert| cert.der().to_vec())
}

/// A self-signed TLS certificate derived from the node's signing key.
pub struct NodeTlsCert {
    /// DER of the X.509 certificate.
    pub cert_der: Vec<u8>,
    /// DER of the PKCS#8 private key.
    pub key_der: Vec<u8>,
    /// SHA-256 of `cert_der`.
    pub fingerprint: [u8; 32],
}

/// The certificate of a signing key: DER and private-key DER.
pub open spec fn node_cert(signing_key: Seq<u8>) -> Option<(Seq<u8>, Seq<u8>)> {
    match pkcs8_of(signing_key) {
        Some(key) => match self_signed_der(key, NODE_DNS_NAME@) {
            Some(cert) => Some((cert, key)),
            None => None,
        },
        None => None,
    }
}

/// The fingerprint of a signing key's certificate.
pub open spec fn node_fingerprint(signing_key: Seq<u8>) -> Option<Seq<u8>> {
    match node_cert(signing_key) {
        Some(c) => Some(sha256_digest(c.0)),
        None => None,
    }
}

impl NodeTlsCert {
    /// Whether this is the certificate of a signing key.
    pub open spec fn generated_from(self, signing_key: Seq<u8>) -> bool {
        &&& node_cert(signing_key) == Some((self.cert_der@, self.key_der@))
        &&& self.fingerprint@ == sha256_digest(self.cert_der@)
        &&& node_fingerprint(signing_key) == Some(self.fingerprint@)
    }

    /// Generate the self-signed certificate of a signing key. The same key
    /// always gives the same certificate and so the same fingerprint.
    pub fn generate(signing_key: &[u8; 32]) -> (r: Option<NodeTlsCert>)
        ensures
            match r {
                Some(c) => c.generated_from(signing_key@),
                None => node_cert(signing_key@) is None,
            },
    {
        match pkcs8_der(signing_key) {
            Some(key_der) => {
                assert(pkcs8_of(signing_key@) == Some(key_der@));
                match self_signed(key_der.as_slice(), NODE_DNS_NAME) {
                    Some(cert_der) => {
                        let fingerprint = sha256(cert_der.as_slice());
                        Some(NodeTlsCert { cert_der, key_der, fingerprint })
                    },
                    None => None,
                }
            },
            None => None,
        }
    }
}

/// Two certificates that fit the same signing key are one: the same DER, the
/// same private key and the same fingerprint.
pub proof fn certificates_are_deterministic(signing_key: Seq<u8>, a: NodeTlsCert, b: NodeTlsCert)
    requires
        a.generated_from(signing_key),
        b.generated_from(signing_key),
    ensures
        a.cert_der@ == b.cert_der@,
        a.key_der@ == b.key_der@,
        a.fingerprint@ == b.fingerprint@,
{
}

/// Whether a certificate is acceptable for an expected fingerprint.
pub open spec fn pinned(expected: Seq<u8>, cert_der: Seq<u8>) -> bool {
    expected == zeros(32) || sha256_digest(cert_der) == expected
}

/// A server-certificate check that looks at the fingerprint alone.
#[derive(Clone, Copy, Debug)]
pub struct FingerprintVerifier {
    pub expected: [u8; 32],
}

impl FingerprintVerifier {
    /// A check for the given fingerprint.
    pub fn new(expected: [u8; 32]) -> (r: FingerprintVerifier)
        ensures
            r.expected == expected,
    {
        FingerprintVerifier { expected }
    }

    /// Whether the presented certificate is acceptable.
    pub fn verify_server_cert(&self, cert_der: &[u8]) -> (r: bool)
        ensures
            r == pinned(self.expected@, cert_der@),
    {
        is_zero(&self.expected) || same_array(&sha256(cert_der), &self.expected)
    }
}

/// A client that pins a real fingerprint accepts a certificate exactly when the
/// certificate has it; a client without one accepts every certificate.
pub proof fn pinning_is_exact(expected: Seq<u8>, cert_der: Seq<u8>)
    ensures
        expected != zeros(32) ==> (pinned(expected, cert_der) <==> sha256_digest(cert_der)
            == expected),
        pinned(zeros(32), cert_der),
        pinned(sha256_digest(cert_der), cert_der),
{
}

} // verus!
