//! Canonical byte encodings.
//!
//! The node's binary format is postcard. A record is encoded as the tuple of
//! its fields, identifiers and instants as text. What postcard produces for
//! such a tuple is a name; the contracts add that decoding gives the fields
//! back.

use crate::model::message::AttachmentRef;
use crate::time::Timestamp;
use vstd::prelude::*;

verus! {

/// Postcard of a community manifest's fields.
pub uninterp spec fn manifest_encoding(
    id: Seq<char>,
    name: Seq<char>,
    description: Seq<char>,
    public_key: Seq<u8>,
    created_at: Seq<char>,
    admin_ids: Seq<Seq<char>>,
    channel_ids: Seq<Seq<char>>,
    seed_nodes: Seq<Seq<char>>,
    version: u64,
    deleted: bool,
) -> Seq<u8>;

/// Postcard of a channel manifest's fields.
pub uninterp spec fn channel_encoding(
    id: Seq<char>,
    community_id: Seq<char>,
    name: Seq<char>,
    kind: u32,
    keys: Seq<(Seq<char>, Seq<u8>)>,
    created_at: Seq<char>,
    version: u64,
) -> Seq<u8>;

/// Postcard of a list of variant indices.
pub uninterp spec fn indices_encoding(indices: Seq<u32>) -> Seq<u8>;

/// The fields of a text message as they travel: body, attachments, the number
/// of the message replied to, and seconds and nanoseconds of the last edit.
pub struct TextFields {
    pub body: String,
    pub attachments: Vec<AttachmentRef>,
    pub reply_to: Option<u128>,
    pub edited_at: Option<(i64, u32)>,
}

/// The fields of a reaction as they travel.
pub struct ReactionFields {
    pub target_message_id: String,
    pub emoji: String,
    pub is_add: bool,
}

/// What [`TextFields`] hold.
pub struct TextFieldsView {
    pub body: Seq<char>,
    pub attachments: Seq<(Seq<char>, Seq<char>, u64, Seq<char>)>,
    pub reply_to: Option<u128>,
    pub edited_at: Option<(i64, u32)>,
}

/// What [`ReactionFields`] hold.
pub struct ReactionFieldsView {
    pub target_message_id: Seq<char>,
    pub emoji: Seq<char>,
    pub is_add: bool,
}

impl DeepView for TextFields {
    type V = TextFieldsView;

    open spec fn deep_view(&self) -> TextFieldsView {
        TextFieldsView {
            body: self.body@,
            attachments: self.attachments.deep_view(),
            reply_to: self.reply_to,
            edited_at: self.edited_at,
        }
    }
}

impl DeepView for ReactionFields {
    type V = ReactionFieldsView;

    open spec fn deep_view(&self) -> ReactionFieldsView {
        ReactionFieldsView {
            target_message_id: self.target_message_id@,
            emoji: self.emoji@,
            is_add: self.is_add,
        }
    }
}

/// Postcard of a tagged text message.
pub uninterp spec fn text_encoding(fields: TextFieldsView) -> Seq<u8>;

/// Postcard of a tagged reaction.
pub uninterp spec fn reaction_encoding(fields: ReactionFieldsView) -> Seq<u8>;

/// The variant index that leads a postcard byte string, and what follows it.
pub uninterp spec fn variant_prefix(bytes: Seq<u8>) -> Option<(u32, Seq<u8>)>;

/// The text-message fields that a postcard byte string starts with.
pub uninterp spec fn text_decoding(bytes: Seq<u8>) -> Option<TextFieldsView>;

/// The reaction fields that a postcard byte string starts with.
pub uninterp spec fn reaction_decoding(bytes: Seq<u8>) -> Option<ReactionFieldsView>;

/// Postcard of a direct-message payload: body, reply target, message id.
pub uninterp spec fn dm_payload_encoding(
    body: Seq<char>,
    reply_to: Option<Seq<char>>,
    id: Seq<char>,
) -> Seq<u8>;

/// The direct-message payload that a postcard byte string starts with.
pub uninterp spec fn dm_payload_decoding(bytes: Seq<u8>) -> Option<
    (Seq<char>, Option<Seq<char>>, Seq<char>),
>;

/// Postcard of a direct-message envelope: sender key, ephemeral key, nonce and
/// ciphertext.
pub uninterp spec fn envelope_encoding(
    sender_pk: Seq<u8>,
    ephem_pk: Seq<u8>,
    nonce: Seq<u8>,
    ciphertext: Seq<u8>,
) -> Seq<u8>;

/// The direct-message envelope that a postcard byte string starts with: sender
/// key, ephemeral key, nonce and ciphertext.
pub uninterp spec fn envelope_decoding(bytes: Seq<u8>) -> Option<
    (Seq<u8>, Seq<u8>, Seq<u8>, Seq<u8>),
>;

/// The text fields that follow variant index zero.
pub open spec fn tagged_text(bytes: Seq<u8>) -> Option<TextFieldsView> {
    match variant_prefix(bytes) {
        Some((v, rest)) => if v == 0 {
            text_decoding(rest)
        } else {
            None
        },
        None => None,
    }
}

/// The reaction fields that follow variant index one.
pub open spec fn tagged_reaction(bytes: Seq<u8>) -> Option<ReactionFieldsView> {
    match variant_prefix(bytes) {
        Some((v, rest)) => if v == 1 {
            reaction_decoding(rest)
        } else {
            None
        },
        None => None,
    }
}

/// Text fields as one value.
pub open spec fn text_view(
    body: Seq<char>,
    attachments: Seq<(Seq<char>, Seq<char>, u64, Seq<char>)>,
    reply_to: Option<u128>,
    edited_at: Option<(i64, u32)>,
) -> TextFieldsView {
    TextFieldsView { body, attachments, reply_to, edited_at }
}

/// Reaction fields as one value.
pub open spec fn reaction_view(
    target_message_id: Seq<char>,
    emoji: Seq<char>,
    is_add: bool,
) -> ReactionFieldsView {
    ReactionFieldsView { target_message_id, emoji, is_add }
}

/// The text of an optional string.
pub open spec fn opt_text(s: Option<String>) -> Option<Seq<char>> {
    match s {
        Some(t) => Some(t@),
        None => None,
    }
}

/// `postcard::to_allocvec` of the tuple of a community manifest's fields.
#[verifier::external_body]
pub(crate) fn encode_manifest(
    id: &str,
    name: &str,
    description: &str,
    public_key: &[u8; 32],
    created_at: &str,
    admin_ids: &Vec<String>,
    channel_ids: &Vec<String>,
    seed_nodes: &Vec<String>,
    version: u64,
    deleted: bool,
) -> (r: Vec<u8>)
    ensures
        r@ == manifest_encoding(
            id@,
            name@,
            description@,
            public_key@,
            created_at@,
            admin_ids.deep_view(),
            channel_ids.deep_view(),
            seed_nodes.deep_view(),
            version,
            deleted,
        ),
{
    let head = (id, name, description, public_key, created_at);
    let fields = (head, admin_ids, channel_ids, seed_nodes, version, deleted);
    postcard::to_allocvec(&fields).expect("strings and integers always encode")
}

/// `postcard::to_allocvec` of the tuple of a channel manifest's fields; the
/// kind is its variant index and the keys are a list of pairs.
#[verifier::external_body]
pub(crate) fn encode_channel(
    id: &str,
    community_id: &str,
    name: &str,
    kind: u32,
    keys: &Vec<(String, Vec<u8>)>,
    created_at: &str,
    version: u64,
) -> (r: Vec<u8>)
    ensures
        r@ == channel_encoding(
            id@,
            community_id@,
            name@,
            kind,
            keys.deep_view(),
            created_at@,
            version,
        ),
{
    let fields = (id, community_id, name, kind, keys, created_at, version);
    postcard::to_allocvec(&fields).expect("strings and integers always encode")
}

/// `postcard::to_allocvec` of a list of variant indices.
#[verifier::external_body]
pub(crate) fn encode_indices(indices: &Vec<u32>) -> (r: Vec<u8>)
    ensures
        r@ == indices_encoding(indices@),
{
    postcard::to_allocvec(indices).expect("integers always encode")
}

/// `postcard::to_allocvec` of one variant index: a single byte below 128.
#[verifier::external_body]
pub(crate) fn encode_index(index: u32) -> (r: Vec<u8>)
    requires
        index < 128,
    ensures
        r@ == seq![index as u8],
{
    postcard::to_allocvec(&index).expect("integers always encode")
}

/// `postcard::to_allocvec` of variant index zero and a text message's fields.
/// Decoding gives the fields back, provided the edit time is an ordinary
/// instant.
#[verifier::external_body]
pub(crate) fn encode_text(
    body: &str,
    attachments: &Vec<AttachmentRef>,
    reply_to: Option<u128>,
    edited_at: Option<(i64, u32)>,
) -> (r: Vec<u8>)
    ensures
        r@ == text_encoding(text_view(body@, attachments.deep_view(), reply_to, edited_at)),
        (edited_at matches Some(t) ==> Timestamp { secs: t.0, nanos: t.1 }.ordinary())
            ==> tagged_text(r@) == Some(
            text_view(body@, attachments.deep_view(), reply_to, edited_at),
        ),
{
    let files: Vec<_> = attachments.iter().map(|a| (&a.cid, &a.name, a.size, &a.mime_type)).collect();
    let at = edited_at.map(|t| chrono::DateTime::from_timestamp(t.0, t.1).unwrap_or_default());
    let fields = (0u32, body, files, reply_to.map(ulid::Ulid), at);
    postcard::to_allocvec(&fields).expect("strings and integers always encode")
}

/// `postcard::to_allocvec` of variant index one and a reaction's fields.
/// Decoding gives the fields back.
#[verifier::external_body]
pub(crate) fn encode_reaction(target_message_id: &str, emoji: &str, is_add: bool) -> (r: Vec<u8>)
    ensures
        r@ == reaction_encoding(reaction_view(target_message_id@, emoji@, is_add)),
        tagged_reaction(r@) == Some(reaction_view(target_message_id@, emoji@, is_add)),
{
    postcard::to_allocvec(&(1u32, target_message_id, emoji, is_add)).expect("strings always encode")
}

/// `postcard::take_from_bytes::<u32>`: the leading variant index and the rest.
#[verifier::external_body]
pub(crate) fn take_variant(bytes: &[u8]) -> (r: Option<(u32, Vec<u8>)>)
    ensures
        match r {
            Some((v, rest)) => variant_prefix(bytes@) == Some((v, rest@)),
            None => variant_prefix(bytes@) is None,
        },
{
    postcard::take_from_bytes::<u32>(bytes).ok().map(|p| (p.0, p.1.to_vec()))
}

/// An attachment as it travels.
type AttachmentTuple = (String, String, u64, String);

/// The fields of a text message as they travel.
type TextTuple = (
    String,
    Vec<AttachmentTuple>,
    Option<ulid::Ulid>,
    Option<chrono::DateTime<chrono::Utc>>,
);

/// The attachment of travelled fields.
fn attachment_of(f: AttachmentTuple) -> (r: AttachmentRef)
    ensures
        r.deep_view() == (f.0@, f.1@, f.2, f.3@),
{
    AttachmentRef { cid: f.0, name: f.1, size: f.2, mime_type: f.3 }
}

/// `postcard::from_bytes` into the tuple of a text message's fields.
#[verifier::external_body]
pub(crate) fn decode_text(bytes: &[u8]) -> (r: Option<TextFields>)
    ensures
        match r {
            Some(f) => text_decoding(bytes@) == Some(f.deep_view()),
            None => text_decoding(bytes@) is None,
        },
{
    let (body, files, reply, at) = postcard::from_bytes::<TextTuple>(bytes).ok()?;
    let attachments = files.into_iter().map(attachment_of).collect();
    let edited_at = at.map(|t| (t.timestamp(), t.timestamp_subsec_nanos()));
    Some(TextFields { body, attachments, reply_to: reply.map(|u| u.0), edited_at })
}

/// `postcard::from_bytes` into the tuple of a reaction's fields.
#[verifier::external_body]
pub(crate) fn decode_reaction(bytes: &[u8]) -> (r: Option<ReactionFields>)
    ensures
        match r {
            Some(f) => reaction_decoding(bytes@) == Some(f.deep_view()),
            None => reaction_decoding(bytes@) is None,
        },
{
    let (target_message_id, emoji, is_add) = postcard::from_bytes(bytes).ok()?;
    Some(ReactionFields { target_message_id, emoji, is_add })
}

/// `postcard::to_allocvec` of a direct-message payload's fields. Decoding
/// gives the fields back.
#[verifier::external_body]
pub(crate) fn encode_dm_payload(body: &str, reply_to: &Option<String>, id: &str) -> (r: Vec<u8>)
    ensures
        r@ == dm_payload_encoding(body@, opt_text(*reply_to), id@),
        dm_payload_decoding(r@) == Some((body@, opt_text(*reply_to), id@)),
{
    postcard::to_allocvec(&(body, reply_to, id)).expect("strings always encode")
}

/// `postcard::from_bytes` into a direct-message payload's fields.
#[verifier::external_body]
pub(crate) fn decode_dm_payload(bytes: &[u8]) -> (r: Option<(String, Option<String>, String)>)
    ensures
        match r {
            Some(f) => dm_payload_decoding(bytes@) == Some((f.0@, opt_text(f.1), f.2@)),
            None => dm_payload_decoding(bytes@) is None,
        },
{
    postcard::from_bytes(bytes).ok()
}

/// `postcard::to_allocvec` of a direct-message envelope's fields. Decoding
/// gives the fields back.
#[verifier::external_body]
pub(crate) fn encode_envelope(
    sender_pk: &[u8; 32],
    ephem_pk: &[u8; 32],
    nonce: &[u8; 24],
    ciphertext: &Vec<u8>,
) -> (r: Vec<u8>)
    ensures
        r@ == envelope_encoding(sender_pk@, ephem_pk@, nonce@, ciphertext@),
        envelope_decoding(r@) == Some((sender_pk@, ephem_pk@, nonce@, ciphertext@)),
{
    postcard::to_allocvec(&(sender_pk, ephem_pk, nonce, ciphertext)).expect("bytes always encode")
}

/// `postcard::from_bytes` into a direct-message envelope's fields.
#[verifier::external_body]
pub(crate) fn decode_envelope(bytes: &[u8]) -> (r: Option<([u8; 32], [u8; 32], [u8; 24], Vec<u8>)>)
    ensures
        match r {
            Some(f) => envelope_decoding(bytes@) == Some((f.0@, f.1@, f.2@, f.3@)),
            None => envelope_decoding(bytes@) is None,
        },
{
    postcard::from_bytes(bytes).ok()
}

} // verus!
