//! Hosting certificates: proof that a community admin authorised a node to
//! host their community.

use crate::bytes::{append, le64, le64_bytes, same_array, to_vec};
use crate::crypto::primitives::{
    ed25519_accepts, ed25519_public, ed25519_public_key, ed25519_sign, ed25519_signature,
    ed25519_verify, unix_seconds,
};
use vstd::prelude::*;

verus! {

/// Why a certificate was refused.
#[derive(Clone, Copy, Debug, PartialEq, Eq, Structural)]
pub enum CertError {
    /// The certificate was issued by another community.
    KeyMismatch,
    /// The signature does not verify.
    SignatureInvalid,
    /// The certificate is past its expiry time.
    Expired,
}

/// Ed25519-signed certificate granting a node the right to host a community.
///
/// It is valid only if the signature verifies against `community_pk` and the
/// current time is at most `expires_at`.
#[derive(Clone, Copy, Debug)]
pub struct HostingCert {
    /// Community's Ed25519 public key.
    pub community_pk: [u8; 32],
    /// Node's Ed25519 public key.
    pub node_pk: [u8; 32],
    /// Unix timestamp (seconds) after which the certificate is not valid.
    pub expires_at: u64,
    /// Signature over `community_pk || node_pk || expires_at` (little endian).
    pub signature: [u8; 64],
}

/// The 72 bytes that a certificate signs.
pub open spec fn cert_message(community_pk: Seq<u8>, node_pk: Seq<u8>, expires_at: u64) -> Seq<u8> {
    community_pk + node_pk + le64(expires_at)
}

impl HostingCert {
    /// The bytes this certificate signs.
    pub open spec fn message(&self) -> Seq<u8> {
        cert_message(self.community_pk@, self.node_pk@, self.expires_at)
    }

    /// Whether the signature verifies under the community key.
    pub open spec fn signed(&self) -> bool {
        ed25519_accepts(self.community_pk@, self.message(), self.signature@)
    }

    /// What verification answers at time `now`.
    pub open spec fn verdict(&self, community_pk: Seq<u8>, now: u64) -> Result<(), CertError> {
        if community_pk != self.community_pk@ {
            Err(CertError::KeyMismatch)
        } else if !self.signed() {
            Err(CertError::SignatureInvalid)
        } else if now > self.expires_at {
            Err(CertError::Expired)
        } else {
            Ok(())
        }
    }

    /// Canonical byte sequence that is signed and verified.
    pub fn signable(community_pk: &[u8; 32], node_pk: &[u8; 32], expires_at: u64) -> (r: Vec<u8>)
        ensures
            r@ == cert_message(community_pk@, node_pk@, expires_at),
            r@.len() == 72,
    {
        let mut out = to_vec(community_pk.as_slice());
        append(&mut out, node_pk.as_slice());
        append(&mut out, le64_bytes(expires_at).as_slice());
        out
    }

    /// Issue a new hosting certificate signed by the community admin.
    pub fn new(community_sk: &[u8; 32], node_pk: [u8; 32], expires_at: u64) -> (r: HostingCert)
        ensures
            r.community_pk@ == ed25519_public_key(community_sk@),
            r.node_pk == node_pk,
            r.expires_at == expires_at,
            r.signature@ == ed25519_signature(community_sk@, r.message()),
            r.signed(),
    {
        let community_pk = ed25519_public(community_sk);
        let msg = Self::signable(&community_pk, &node_pk, expires_at);
        let signature = ed25519_sign(community_sk, msg.as_slice());
        HostingCert { community_pk, node_pk, expires_at, signature }
    }

    /// Verify this certificate against the expected community key at `now`.
    pub fn verify_at(&self, community_pk: &[u8; 32], now: u64) -> (r: Result<(), CertError>)
        ensures
            r == self.verdict(community_pk@, now),
    {
        if !same_array(community_pk, &self.community_pk) {
            return Err(CertError::KeyMismatch);
        }
        let msg = Self::signable(&self.community_pk, &self.node_pk, self.expires_at);
        if !ed25519_verify(community_pk, msg.as_slice(), &self.signature) {
            return Err(CertError::SignatureInvalid);
        }
        if now > self.expires_at {
            return Err(CertError::Expired);
        }
        Ok(())
    }

    /// Verify this certificate against the expected community key at the
    /// present time. The clock decides between success and expiry alone.
    pub fn verify(&self, community_pk: &[u8; 32]) -> (r: Result<(), CertError>)
        ensures
            exists|now: u64| r == self.verdict(community_pk@, now),
            r == Err::<(), CertError>(CertError::KeyMismatch) <==> community_pk@
                != self.community_pk@,
            r == Err::<(), CertError>(CertError::SignatureInvalid) <==> community_pk@
                == self.community_pk@ && !self.signed(),
            community_pk@ == self.community_pk@ && self.signed() && self.expires_at == u64::MAX
                ==> r is Ok,
    {
        let now: u64 = unix_seconds();
        let r = self.verify_at(community_pk, now);
        assert(r == self.verdict(community_pk@, now));
        r
    }
}

/// A certificate that [`HostingCert::new`] issued is accepted until it expires
/// and refused afterwards.
pub proof fn issued_cert_is_accepted_until_expiry(cert: HostingCert, now: u64)
    requires
        cert.signed(),
    ensures
        cert.verdict(cert.community_pk@, now) is Ok <==> now <= cert.expires_at,
        now > cert.expires_at ==> cert.verdict(cert.community_pk@, now) == Err::<(), CertError>(
            CertError::Expired,
        ),
{
}

/// No certificate is accepted under a key other than the one it names.
pub proof fn foreign_community_key_is_refused(cert: HostingCert, community_pk: Seq<u8>, now: u64)
    requires
        community_pk != cert.community_pk@,
    ensures
        cert.verdict(community_pk, now) == Err::<(), CertError>(CertError::KeyMismatch),
{
}

} // verus!
