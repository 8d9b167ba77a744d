//! Invite links.
//!
//! An invite is a JSON object in base64url text. The admin signs five of its
//! fields in a fixed order.

use crate::api::rpc_server::RpcError;
use crate::bytes::{append, is_zero, to_vec, zeros};
use crate::crypto::primitives::{ed25519_accepts, ed25519_verify};
use crate::text::{all_hex, byte_len, hex, hex_round_trip, join2, parse_hex, unhex};
use base64::Engine;
use vstd::prelude::*;
use vstd::string::*;
use vstd::utf8::*;

verus! {

/// JSON of one string.
pub uninterp spec fn json_text(s: Seq<char>) -> Seq<u8>;

/// JSON of a list of strings.
pub uninterp spec fn json_texts(list: Seq<Seq<char>>) -> Seq<u8>;

/// Base64url (without padding) of a byte string.
pub uninterp spec fn base64url_text(bytes: Seq<u8>) -> Seq<char>;

/// The byte string that a base64url text (without padding) stands for.
pub uninterp spec fn base64url_bytes(s: Seq<char>) -> Option<Seq<u8>>;

/// `serde_json::to_vec` of a string.
#[verifier::external_body]
fn encode_json_text(s: &str) -> (r: Vec<u8>)
    ensures
        r@ == json_text(s@),
{
    serde_json::to_vec(s).expect("strings always serialise")
}

/// `serde_json::to_vec` of a list of strings.
#[verifier::external_body]
fn encode_json_texts(list: &Vec<String>) -> (r: Vec<u8>)
    ensures
        r@ == json_texts(list.deep_view()),
{
    serde_json::to_vec(list).expect("strings always serialise")
}

/// `base64` encoding with the URL-safe alphabet and no padding. Decoding gives
/// the bytes back.
#[verifier::external_body]
fn encode_base64url(bytes: &[u8]) -> (r: String)
    ensures
        r@ == base64url_text(bytes@),
        base64url_bytes(r@) == Some(bytes@),
{
    base64::engine::general_purpose::URL_SAFE_NO_PAD.encode(bytes)
}

/// `base64` decoding with the URL-safe alphabet and no padding.
#[verifier::external_body]
fn decode_base64url(s: &str) -> (r: Option<Vec<u8>>)
    ensures
        match r {
            Some(b) => base64url_bytes(s@) == Some(b@),
            None => base64url_bytes(s@) is None,
        },
{
    base64::engine::general_purpose::URL_SAFE_NO_PAD.decode(s).ok()
}

/// The fields of an invite.
#[derive(Debug)]
pub struct InvitePayload {
    pub community_id: String,
    pub name: String,
    pub description: String,
    pub seed_nodes: Vec<String>,
    pub public_key_hex: String,
    /// The admin's signature in hexadecimal; empty in unsigned invites.
    pub sig_hex: String,
    /// The seed node's certificate fingerprint in hexadecimal; may be empty.
    pub cert_fingerprint_hex: String,
}

/// What an [`InvitePayload`] holds.
pub struct InvitePayloadView {
    pub community_id: Seq<char>,
    pub name: Seq<char>,
    pub description: Seq<char>,
    pub seed_nodes: Seq<Seq<char>>,
    pub public_key_hex: Seq<char>,
    pub sig_hex: Seq<char>,
    pub cert_fingerprint_hex: Seq<char>,
}

impl DeepView for InvitePayload {
    type V = InvitePayloadView;

    open spec fn deep_view(&self) -> InvitePayloadView {
        InvitePayloadView {
            community_id: self.community_id@,
            name: self.name@,
            description: self.description@,
            seed_nodes: self.seed_nodes.deep_view(),
            public_key_hex: self.public_key_hex@,
            sig_hex: self.sig_hex@,
            cert_fingerprint_hex: self.cert_fingerprint_hex@,
        }
    }
}

/// The bytes of an invite that the admin signs.
pub open spec fn invite_message(
    community_id: Seq<char>,
    name: Seq<char>,
    description: Seq<char>,
    public_key_hex: Seq<char>,
    seed_nodes: Seq<Seq<char>>,
) -> Seq<u8> {
    encode_utf8("{\"community_id\":"@) + json_text(community_id) + encode_utf8(",\"name\":"@)
        + json_text(name) + encode_utf8(",\"description\":"@) + json_text(description)
        + encode_utf8(",\"public_key_hex\":"@) + json_text(public_key_hex) + encode_utf8(
        ",\"seed_nodes\":"@,
    ) + json_texts(seed_nodes) + encode_utf8("}"@)
}

/// The JSON of an invite.
pub open spec fn invite_json(i: InvitePayloadView) -> Seq<u8> {
    encode_utf8("{\"cert_fingerprint_hex\":"@) + json_text(i.cert_fingerprint_hex) + encode_utf8(
        ",\"community_id\":"@,
    ) + json_text(i.community_id) + encode_utf8(",\"description\":"@) + json_text(i.description)
        + encode_utf8(",\"name\":"@) + json_text(i.name) + encode_utf8(",\"public_key_hex\":"@)
        + json_text(i.public_key_hex) + encode_utf8(",\"seed_nodes\":"@) + json_texts(i.seed_nodes)
        + encode_utf8(",\"sig_hex\":"@) + json_text(i.sig_hex) + encode_utf8("}"@)
}

/// The link of an invite.
pub open spec fn invite_link(i: InvitePayloadView) -> Seq<char> {
    "bitcord://join/"@ + base64url_text(invite_json(i))
}

impl InvitePayloadView {
    /// The bytes that the admin signs.
    pub open spec fn message(self) -> Seq<u8> {
        invite_message(
            self.community_id,
            self.name,
            self.description,
            self.public_key_hex,
            self.seed_nodes,
        )
    }

    /// The community key: 32 zero bytes when the text is no key.
    pub open spec fn public_key(self) -> Seq<u8> {
        if self.public_key_hex.len() == 64 && all_hex(self.public_key_hex) {
            unhex(self.public_key_hex)
        } else {
            zeros(32)
        }
    }

    /// Whether the invite carries a signature that must verify.
    pub open spec fn claims_signature(self) -> bool {
        self.sig_hex.len() > 0 && self.public_key() != zeros(32)
    }

    /// Whether the signature verifies under the community key.
    pub open spec fn signed(self) -> bool {
        self.sig_hex.len() == 128 && all_hex(self.sig_hex) && ed25519_accepts(
            self.public_key(),
            self.message(),
            unhex(self.sig_hex),
        )
    }

    /// The pinned fingerprint: zero bytes when the invite names none.
    pub open spec fn fingerprint(self) -> Result<Seq<u8>, RpcError> {
        let n = encode_utf8(self.cert_fingerprint_hex).len();
        if n == 64 {
            if self.cert_fingerprint_hex.len() == 64 && all_hex(self.cert_fingerprint_hex) {
                Ok(unhex(self.cert_fingerprint_hex))
            } else {
                Err(RpcError::InviteFingerprintMalformed)
            }
        } else if self.cert_fingerprint_hex.len() == 0 {
            Ok(zeros(32))
        } else {
            Err(RpcError::InviteFingerprintLength)
        }
    }
}

/// The bytes of an invite that the admin signs.
pub fn invite_bytes(
    community_id: &str,
    name: &str,
    description: &str,
    public_key_hex: &str,
    seed_nodes: &Vec<String>,
) -> (r: Vec<u8>)
    ensures
        r@ == invite_message(
            community_id@,
            name@,
            description@,
            public_key_hex@,
            seed_nodes.deep_view(),
        ),
{
    let mut out = to_vec("{\"community_id\":".as_bytes());
    append(&mut out, encode_json_text(community_id).as_slice());
    append(&mut out, ",\"name\":".as_bytes());
    append(&mut out, encode_json_text(name).as_slice());
    append(&mut out, ",\"description\":".as_bytes());
    append(&mut out, encode_json_text(description).as_slice());
    append(&mut out, ",\"public_key_hex\":".as_bytes());
    append(&mut out, encode_json_text(public_key_hex).as_slice());
    append(&mut out, ",\"seed_nodes\":".as_bytes());
    append(&mut out, encode_json_texts(seed_nodes).as_slice());
    append(&mut out, "}".as_bytes());
    out
}

/// The link of an invite. The part behind the prefix decodes to its JSON.
pub fn make_link(i: &InvitePayload) -> (r: String)
    ensures
        r@ == invite_link(i.deep_view()),
        base64url_bytes(base64url_text(invite_json(i.deep_view()))) == Some(
            invite_json(i.deep_view()),
        ),
{
    let mut out = to_vec("{\"cert_fingerprint_hex\":".as_bytes());
    append(&mut out, encode_json_text(i.cert_fingerprint_hex.as_str()).as_slice());
    append(&mut out, ",\"community_id\":".as_bytes());
    append(&mut out, encode_json_text(i.community_id.as_str()).as_slice());
    append(&mut out, ",\"description\":".as_bytes());
    append(&mut out, encode_json_text(i.description.as_str()).as_slice());
    append(&mut out, ",\"name\":".as_bytes());
    append(&mut out, encode_json_text(i.name.as_str()).as_slice());
    append(&mut out, ",\"public_key_hex\":".as_bytes());
    append(&mut out, encode_json_text(i.public_key_hex.as_str()).as_slice());
    append(&mut out, ",\"seed_nodes\":".as_bytes());
    append(&mut out, encode_json_texts(&i.seed_nodes).as_slice());
    append(&mut out, ",\"sig_hex\":".as_bytes());
    append(&mut out, encode_json_text(i.sig_hex.as_str()).as_slice());
    append(&mut out, "}".as_bytes());
    let b64 = encode_base64url(out.as_slice());
    join2("bitcord://join/", b64.as_str())
}

/// The JSON bytes of a base64url invite.
pub fn invite_json_bytes(invite: &str) -> (r: Result<Vec<u8>, RpcError>)
    ensures
        match r {
            Ok(b) => base64url_bytes(invite@) == Some(b@),
            Err(e) => base64url_bytes(invite@) is None && e == RpcError::InviteEncoding,
        },
{
    match decode_base64url(invite) {
        Some(b) => Ok(b),
        None => Err(RpcError::InviteEncoding),
    }
}

impl InvitePayload {
    /// The community key: 32 zero bytes when the text is no key.
    pub fn public_key(&self) -> (r: [u8; 32])
        ensures
            r@ == self.deep_view().public_key(),
    {
        match parse_hex::<32>(self.public_key_hex.as_str()) {
            Some(k) => k,
            None => {
                let zero: [u8; 32] = [0u8; 32];
                assert(zero@ =~= zeros(32));
                zero
            },
        }
    }

    /// Whether the invite carries a signature that must verify and does not.
    pub fn signature_is_bad(&self) -> (r: bool)
        ensures
            r == (self.deep_view().claims_signature() && !self.deep_view().signed()),
    {
        let pk = self.public_key();
        if self.sig_hex.as_str().is_empty() || is_zero(&pk) {
            return false;
        }
        match parse_hex::<64>(self.sig_hex.as_str()) {
            Some(sig) => {
                let msg = invite_bytes(
                    self.community_id.as_str(),
                    self.name.as_str(),
                    self.description.as_str(),
                    self.public_key_hex.as_str(),
                    &self.seed_nodes,
                );
                !ed25519_verify(&pk, msg.as_slice(), &sig)
            },
            None => true,
        }
    }

    /// The pinned fingerprint; a present but malformed one is an error.
    pub fn fingerprint(&self) -> (r: Result<[u8; 32], RpcError>)
        ensures
            match r {
                Ok(f) => self.deep_view().fingerprint() == Ok::<Seq<u8>, RpcError>(f@),
                Err(e) => self.deep_view().fingerprint() == Err::<Seq<u8>, RpcError>(e),
            },
    {
        let h = self.cert_fingerprint_hex.as_str();
        if byte_len(h) == 64 {
            match parse_hex::<32>(h) {
                Some(f) => Ok(f),
                None => Err(RpcError::InviteFingerprintMalformed),
            }
        } else if h.is_empty() {
            let zero: [u8; 32] = [0u8; 32];
            assert(zero@ =~= zeros(32));
            Ok(zero)
        } else {
            Err(RpcError::InviteFingerprintLength)
        }
    }
}

/// An invite whose signature the holder of the community key made verifies.
pub proof fn creator_invites_verify(i: InvitePayloadView, pk: Seq<u8>, sig: Seq<u8>)
    requires
        pk.len() == 32,
        sig.len() == 64,
        i.public_key_hex == hex(pk),
        i.sig_hex == hex(sig),
        ed25519_accepts(pk, i.message(), sig),
    ensures
        i.public_key() == pk,
        i.signed(),
{
    hex_round_trip(pk);
    hex_round_trip(sig);
}

} // verus!
