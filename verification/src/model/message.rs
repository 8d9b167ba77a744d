//! Channel messages.

use crate::bytes::{append, le64, le64_bytes, to_array, to_vec};
use crate::crypto::primitives::{
    ed25519_accepts, ed25519_public, ed25519_public_key, ed25519_sign, ed25519_signature,
    ed25519_verify, sha256_digest,
};
use crate::model::types::{ulid_bytes, ChannelId, MessageId, UserId};
use crate::time::Timestamp;
use crate::wire::{
    decode_reaction, decode_text, encode_reaction, encode_text, reaction_decoding,
    reaction_encoding, take_variant, text_decoding, text_encoding, variant_prefix,
    ReactionFieldsView, TextFields, TextFieldsView,
};
use vstd::prelude::*;

verus! {

/// A reference to a file attachment stored by content address.
#[derive(Debug)]
pub struct AttachmentRef {
    /// Content identifier.
    pub cid: String,
    pub name: String,
    pub size: u64,
    pub mime_type: String,
}

impl DeepView for AttachmentRef {
    type V = (Seq<char>, Seq<char>, u64, Seq<char>);

    open spec fn deep_view(&self) -> (Seq<char>, Seq<char>, u64, Seq<char>) {
        (self.cid@, self.name@, self.size, self.mime_type@)
    }
}

/// The decrypted content of a channel log entry: a user message, or a reaction
/// that is added to or removed from one.
#[derive(Debug)]
pub enum MessageContent {
    Text {
        body: String,
        attachments: Vec<AttachmentRef>,
        reply_to: Option<MessageId>,
        edited_at: Option<Timestamp>,
    },
    Reaction {
        /// The id of the message reacted to.
        target_message_id: String,
        emoji: String,
        is_add: bool,
    },
}

/// What a [`MessageContent`] holds.
pub enum MessageContentView {
    Text {
        body: Seq<char>,
        attachments: Seq<(Seq<char>, Seq<char>, u64, Seq<char>)>,
        reply_to: Option<MessageId>,
        edited_at: Option<Timestamp>,
    },
    Reaction { target_message_id: Seq<char>, emoji: Seq<char>, is_add: bool },
}

impl DeepView for MessageContent {
    type V = MessageContentView;

    open spec fn deep_view(&self) -> MessageContentView {
        match self {
            MessageContent::Text { body, attachments, reply_to, edited_at } => {
                MessageContentView::Text {
                    body: body@,
                    attachments: attachments.deep_view(),
                    reply_to: *reply_to,
                    edited_at: *edited_at,
                }
            },
            MessageContent::Reaction { target_message_id, emoji, is_add } => {
                MessageContentView::Reaction {
                    target_message_id: target_message_id@,
                    emoji: emoji@,
                    is_add: *is_add,
                }
            },
        }
    }
}

/// The text message that decoded fields stand for.
pub open spec fn text_content(f: TextFieldsView) -> MessageContentView {
    MessageContentView::Text {
        body: f.body,
        attachments: f.attachments,
        reply_to: match f.reply_to {
            Some(v) => Some(MessageId(v)),
            None => None,
        },
        edited_at: match f.edited_at {
            Some(t) => Some(Timestamp { secs: t.0, nanos: t.1 }),
            None => None,
        },
    }
}

/// The fields of a text message as they travel.
pub open spec fn text_fields(
    body: Seq<char>,
    attachments: Seq<(Seq<char>, Seq<char>, u64, Seq<char>)>,
    reply_to: Option<MessageId>,
    edited_at: Option<Timestamp>,
) -> TextFieldsView {
    TextFieldsView {
        body,
        attachments,
        reply_to: match reply_to {
            Some(m) => Some(m.0),
            None => None,
        },
        edited_at: match edited_at {
            Some(t) => Some((t.secs, t.nanos)),
            None => None,
        },
    }
}

/// The content that tagged bytes stand for.
pub open spec fn tagged_content(bytes: Seq<u8>) -> Option<MessageContentView> {
    match variant_prefix(bytes) {
        Some((v, rest)) => if v == 0 {
            match text_decoding(rest) {
                Some(f) => Some(text_content(f)),
                None => None,
            }
        } else if v == 1 {
            match reaction_decoding(rest) {
                Some(f) => Some(
                    MessageContentView::Reaction {
                        target_message_id: f.target_message_id,
                        emoji: f.emoji,
                        is_add: f.is_add,
                    },
                ),
                None => None,
            }
        } else {
            None
        },
        None => None,
    }
}

/// The content that plaintext bytes stand for: the tagged format, or the older
/// untagged text format.
pub open spec fn decoded_content(bytes: Seq<u8>) -> Option<MessageContentView> {
    match tagged_content(bytes) {
        Some(c) => Some(c),
        None => match text_decoding(bytes) {
            Some(f) => Some(text_content(f)),
            None => None,
        },
    }
}

/// The plaintext bytes of a content.
pub open spec fn content_encoding(c: MessageContentView) -> Seq<u8> {
    match c {
        MessageContentView::Text { body, attachments, reply_to, edited_at } => text_encoding(
            text_fields(body, attachments, reply_to, edited_at),
        ),
        MessageContentView::Reaction { target_message_id, emoji, is_add } => reaction_encoding(
            ReactionFieldsView { target_message_id, emoji, is_add },
        ),
    }
}

/// The text message of decoded fields.
fn text_of(f: TextFields) -> (r: MessageContent)
    ensures
        r.deep_view() == text_content(f.deep_view()),
{
    MessageContent::Text {
        body: f.body,
        attachments: f.attachments,
        reply_to: match f.reply_to {
            Some(v) => Some(MessageId(v)),
            None => None,
        },
        edited_at: match f.edited_at {
            Some(t) => Some(Timestamp { secs: t.0, nanos: t.1 }),
            None => None,
        },
    }
}

impl MessageContent {
    /// Encode to bytes. Decoding gives the content back, provided an edit time
    /// is an ordinary instant.
    pub fn encode(&self) -> (r: Vec<u8>)
        ensures
            r@ == content_encoding(self.deep_view()),
            (self matches MessageContent::Text { edited_at: Some(t), .. } ==> t.ordinary())
                ==> decoded_content(r@) == Some(self.deep_view()),
    {
        match self {
            MessageContent::Text { body, attachments, reply_to, edited_at } => {
                let reply: Option<u128> = match reply_to {
                    Some(m) => Some(m.0),
                    None => None,
                };
                let at: Option<(i64, u32)> = match edited_at {
                    Some(t) => Some((t.secs, t.nanos)),
                    None => None,
                };
                encode_text(body.as_str(), attachments, reply, at)
            },
            MessageContent::Reaction { target_message_id, emoji, is_add } => encode_reaction(
                target_message_id.as_str(),
                emoji.as_str(),
                *is_add,
            ),
        }
    }

    /// Decode from bytes: the tagged format first, then the untagged one that
    /// older entries use.
    pub fn decode(plaintext: &[u8]) -> (r: Option<MessageContent>)
        ensures
            match r {
                Some(c) => decoded_content(plaintext@) == Some(c.deep_view()),
                None => decoded_content(plaintext@) is None,
            },
    {
        if let Some((v, rest)) = take_variant(plaintext) {
            if v == 0 {
                if let Some(f) = decode_text(rest.as_slice()) {
                    return Some(text_of(f));
                }
            } else if v == 1 {
                if let Some(f) = decode_reaction(rest.as_slice()) {
                    return Some(
                        MessageContent::Reaction {
                            target_message_id: f.target_message_id,
                            emoji: f.emoji,
                            is_add: f.is_add,
                        },
                    );
                }
            }
        }
        match decode_text(plaintext) {
            Some(f) => Some(text_of(f)),
            None => None,
        }
    }
}

/// The encrypted message that travels between nodes. The author's signature
/// covers `id || channel_id || timestamp_ms (le) || ciphertext`.
#[derive(Debug)]
pub struct RawMessage {
    pub id: MessageId,
    pub channel_id: ChannelId,
    pub author_id: UserId,
    pub timestamp: Timestamp,
    pub ciphertext: Vec<u8>,
    pub nonce: [u8; 24],
    /// Ed25519 signature (64 bytes when well formed).
    pub signature: Vec<u8>,
}

/// What a [`RawMessage`] holds.
pub struct RawMessageView {
    pub id: MessageId,
    pub channel_id: ChannelId,
    pub author_id: UserId,
    pub timestamp: Timestamp,
    pub ciphertext: Seq<u8>,
    pub nonce: Seq<u8>,
    pub signature: Seq<u8>,
}

impl DeepView for RawMessage {
    type V = RawMessageView;

    open spec fn deep_view(&self) -> RawMessageView {
        RawMessageView {
            id: self.id,
            channel_id: self.channel_id,
            author_id: self.author_id,
            timestamp: self.timestamp,
            ciphertext: self.ciphertext@,
            nonce: self.nonce@,
            signature: self.signature@,
        }
    }
}

impl Clone for RawMessage {
    fn clone(&self) -> (r: Self)
        ensures
            r.deep_view() == self.deep_view(),
    {
        RawMessage {
            id: self.id,
            channel_id: self.channel_id,
            author_id: self.author_id,
            timestamp: self.timestamp,
            ciphertext: to_vec(self.ciphertext.as_slice()),
            nonce: self.nonce,
            signature: to_vec(self.signature.as_slice()),
        }
    }
}

/// The bytes that the author of a message signs.
pub open spec fn message_bytes(
    id: MessageId,
    channel_id: ChannelId,
    timestamp: Timestamp,
    ciphertext: Seq<u8>,
) -> Seq<u8> {
    ulid_bytes(id.0) + ulid_bytes(channel_id.0) + le64(timestamp.millis_spec() as u64) + ciphertext
}

/// The message that `author_key` makes.
pub open spec fn new_message(
    id: MessageId,
    channel_id: ChannelId,
    author_key: Seq<u8>,
    author_id: UserId,
    timestamp: Timestamp,
    ciphertext: Seq<u8>,
    nonce: Seq<u8>,
) -> RawMessageView {
    RawMessageView {
        id,
        channel_id,
        author_id,
        timestamp,
        ciphertext,
        nonce,
        signature: ed25519_signature(
            author_key,
            message_bytes(id, channel_id, timestamp, ciphertext),
        ),
    }
}

impl RawMessageView {
    /// Whether `pk` signed this message.
    pub open spec fn signed_by(self, pk: Seq<u8>) -> bool {
        self.signature.len() == 64 && ed25519_accepts(
            pk,
            message_bytes(self.id, self.channel_id, self.timestamp, self.ciphertext),
            self.signature,
        )
    }
}

impl RawMessage {
    /// Build the canonical byte string that the author must sign.
    pub fn signable_bytes(
        id: &MessageId,
        channel_id: &ChannelId,
        timestamp: &Timestamp,
        ciphertext: &[u8],
    ) -> (r: Vec<u8>)
        ensures
            r@ == message_bytes(*id, *channel_id, *timestamp, ciphertext@),
    {
        let mut out = to_vec(id.to_bytes().as_slice());
        append(&mut out, channel_id.to_bytes().as_slice());
        append(&mut out, le64_bytes(timestamp.millis() as u64).as_slice());
        append(&mut out, ciphertext);
        out
    }

    /// Create and sign a message with the given id.
    pub fn create_with(
        id: MessageId,
        channel_id: ChannelId,
        author_key: &[u8; 32],
        timestamp: Timestamp,
        ciphertext: Vec<u8>,
        nonce: [u8; 24],
    ) -> (r: RawMessage)
        ensures
            r.author_id.0@ == sha256_digest(ed25519_public_key(author_key@)),
            r.deep_view() == new_message(
                id,
                channel_id,
                author_key@,
                r.author_id,
                timestamp,
                ciphertext@,
                nonce@,
            ),
            r.deep_view().signed_by(ed25519_public_key(author_key@)),
    {
        let author_id = UserId::from_verifying_key(&ed25519_public(author_key));
        let signable = Self::signable_bytes(&id, &channel_id, &timestamp, ciphertext.as_slice());
        let signature = to_vec(ed25519_sign(author_key, signable.as_slice()).as_slice());
        RawMessage { id, channel_id, author_id, timestamp, ciphertext, nonce, signature }
    }

    /// Create and sign a new message under a fresh id.
    pub fn create(
        channel_id: ChannelId,
        author_key: &[u8; 32],
        timestamp: Timestamp,
        ciphertext: Vec<u8>,
        nonce: [u8; 24],
    ) -> (r: RawMessage)
        ensures
            r.author_id.0@ == sha256_digest(ed25519_public_key(author_key@)),
            r.deep_view() == new_message(
                r.id,
                channel_id,
                author_key@,
                r.author_id,
                timestamp,
                ciphertext@,
                nonce@,
            ),
            r.deep_view().signed_by(ed25519_public_key(author_key@)),
    {
        Self::create_with(MessageId::new(), channel_id, author_key, timestamp, ciphertext, nonce)
    }

    /// Verify that `author_pubkey` signed this message.
    pub fn verify(&self, author_pubkey: &[u8; 32]) -> (r: bool)
        ensures
            r == self.deep_view().signed_by(author_pubkey@),
    {
        match to_array::<64>(self.signature.as_slice()) {
            Some(sig) => {
                let signable = Self::signable_bytes(
                    &self.id,
                    &self.channel_id,
                    &self.timestamp,
                    self.ciphertext.as_slice(),
                );
                ed25519_verify(author_pubkey, signable.as_slice(), &sig)
            },
            None => false,
        }
    }
}

} // verus!
