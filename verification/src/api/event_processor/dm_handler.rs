//! Direct messages that came in.

use crate::api::effects::{emit, no_effects, Effect, EffectView, TableFile};
use crate::api::push_broadcaster::{DmEventData, PushEvent};
use crate::api::rpc_server::dm::{carries, conversation, dm_push, with_dm};
use crate::api::types::{DmMessageInfo, DmMessageInfoView};
use crate::api::{AppState, AppStateView};
use crate::bytes::same_array;
use crate::crypto::dm::{bytes_opened, DmEnvelope};
use crate::crypto::primitives::x25519_public_key;
use crate::identity::x25519_secret_of;
use crate::lists::{vec_deep_view, views, views_push};
use crate::state::message_log::{LogEntry, LogEntryView};
use crate::text::{same_text, utf8_text};
use crate::time::Timestamp;
use crate::wire::{decode_dm_payload, dm_payload_decoding};
use vstd::prelude::*;
use vstd::utf8::*;

verus! {

/// The body, the reply target and the id that a plaintext carries. A plaintext
/// that is no payload but valid UTF-8 is a body without an id.
pub open spec fn dm_content(plain: Seq<u8>) -> Option<
    (Seq<char>, Option<Seq<char>>, Option<Seq<char>>),
> {
    match dm_payload_decoding(plain) {
        Some((body, reply_to, id)) => Some(
            (
                body,
                reply_to,
                if id.len() == 0 {
                    None
                } else {
                    Some(id)
                },
            ),
        ),
        None => if valid_utf8(plain) {
            Some((decode_utf8(plain), None, None))
        } else {
            None
        },
    }
}

/// The message in an entry addressed to `recipient_pk`, if it is one for the
/// local user.
pub open spec fn incoming_dm(
    s: AppStateView,
    e: LogEntryView,
    recipient_pk: Seq<u8>,
    now: Timestamp,
) -> Option<DmMessageInfoView> {
    let sk = x25519_secret_of(s.local.key);
    if recipient_pk != x25519_public_key(sk) {
        None
    } else {
        match bytes_opened(e.ciphertext, sk) {
            None => None,
            Some(plain) => match dm_content(plain) {
                None => None,
                Some((body, reply_to, id)) => Some(
                    DmMessageInfoView {
                        id: match id {
                            Some(i) => i,
                            None => e.message_id,
                        },
                        peer_id: e.author_id,
                        author_id: e.author_id,
                        timestamp: Timestamp::of_millis_or(e.timestamp_ms, now),
                        body,
                        reply_to,
                        edited_at: None,
                    },
                ),
            },
        }
    }
}

/// Whether a conversation holds a message with the given id.
pub open spec fn has_dm(list: Seq<DmMessageInfoView>, id: Seq<char>) -> bool {
    exists|i: int| 0 <= i < list.len() && #[trigger] list[i].id == id
}

/// The state after an entry came in.
pub open spec fn dm_received(s: AppStateView, m: Option<DmMessageInfoView>) -> AppStateView {
    match m {
        None => s,
        Some(m) => if has_dm(conversation(s, m.peer_id), m.id) {
            s
        } else {
            AppStateView { dms: with_dm(s, m.peer_id, m), ..s }
        },
    }
}

/// What is done after an entry came in.
pub open spec fn dm_received_effects(s: AppStateView, m: Option<DmMessageInfoView>) -> Seq<EffectView> {
    match m {
        None => Seq::empty(),
        Some(m) => if has_dm(conversation(s, m.peer_id), m.id) {
            Seq::empty()
        } else {
            seq![EffectView::Save(TableFile::Dms), dm_push(m)]
        },
    }
}

/// What an entry that came in at some time leads to.
pub open spec fn dm_handled(
    s: AppStateView,
    after: AppStateView,
    e: LogEntryView,
    recipient_pk: Seq<u8>,
    fx: Seq<EffectView>,
) -> bool {
    exists|now: Timestamp|
        {
            let m = #[trigger] incoming_dm(s, e, recipient_pk, now);
            after == dm_received(s, m) && fx == dm_received_effects(s, m)
        }
}

/// Whether a conversation holds a message with the given id.
fn holds_dm(list: &Vec<DmMessageInfo>, id: &str) -> (r: bool)
    ensures
        r == has_dm(list.deep_view(), id@),
{
    let ghost all = list.deep_view();
    let mut i: usize = 0;
    while i < list.len()
        invariant
            i <= list@.len(),
            all == list.deep_view(),
            forall|j: int| 0 <= j < i ==> (#[trigger] all[j]).id != id@,
        decreases list@.len() - i,
    {
        if same_text(list[i].id.as_str(), id) {
            assert(all[i as int].id == id@);
            return true;
        }
        i += 1;
    }
    false
}

impl AppState {
    /// Read an entry that was addressed to `recipient_pk`.
    fn read_dm(&self, entry: LogEntry, recipient_pk: &[u8; 32], now: Timestamp) -> (r: Option<
        DmMessageInfo,
    >)
        ensures
            r.deep_view() == incoming_dm(
                self.deep_view(),
                entry.deep_view(),
                recipient_pk@,
                now,
            ),
    {
        if !same_array(recipient_pk, &self.local.x25519_public()) {
            return None;
        }
        let envelope = match DmEnvelope::from_bytes(entry.ciphertext.as_slice()) {
            Some(e) => e,
            None => {
                return None;
            },
        };
        let plain = match envelope.open(self.local.x25519_secret()) {
            Ok(p) => p,
            Err(_) => {
                return None;
            },
        };
        let (body, reply_to, id): (String, Option<String>, String) = match decode_dm_payload(
            plain.as_slice(),
        ) {
            Some((body, reply_to, id)) => {
                if id.as_str().is_empty() {
                    (body, reply_to, entry.message_id)
                } else {
                    (body, reply_to, id)
                }
            },
            None => match utf8_text(plain.as_slice()) {
                Some(body) => (body, None, entry.message_id),
                None => {
                    return None;
                },
            },
        };
        let timestamp = Timestamp::from_millis_or(entry.timestamp_ms, now);
        Some(
            DmMessageInfo {
                id,
                peer_id: entry.author_id.clone(),
                author_id: entry.author_id,
                timestamp,
                body,
                reply_to,
                edited_at: None,
            },
        )
    }

    /// Decrypt and keep a direct message that came in, at the given time.
    pub fn handle_dm_received_at(
        &mut self,
        entry: LogEntry,
        recipient_pk: [u8; 32],
        now: Timestamp,
    ) -> (r: Vec<Effect>)
        ensures
            ({
                let s = old(self).deep_view();
                let m = incoming_dm(s, entry.deep_view(), recipient_pk@, now);
                &&& final(self).deep_view() == dm_received(s, m)
                &&& r.deep_view() == dm_received_effects(s, m)
            }),
    {
        broadcast use vec_deep_view, views_push;

        let ghost s = old(self).deep_view();
        let ghost mv = incoming_dm(s, entry.deep_view(), recipient_pk@, now);
        let msg = match self.read_dm(entry, &recipient_pk, now) {
            Some(m) => m,
            None => {
                return no_effects();
            },
        };
        let ghost m = msg.deep_view();
        let known = match self.dms.get(msg.peer_id.as_str()) {
            Some(list) => holds_dm(list, msg.id.as_str()),
            None => false,
        };
        assert(known == has_dm(conversation(s, m.peer_id), m.id));
        if known {
            return no_effects();
        }
        let mut list: Vec<DmMessageInfo> = match self.dms.remove(msg.peer_id.as_str()) {
            Some(v) => v,
            None => Vec::new(),
        };
        assert(views(list@) =~= conversation(s, m.peer_id));
        list.push(msg.clone());
        self.dms.insert(msg.peer_id.as_str(), list);
        let mut out = no_effects();
        emit(&mut out, Effect::Save(TableFile::Dms));
        emit(&mut out, Effect::Push(PushEvent::DmNew(DmEventData { message: msg })));
        assert(self.deep_view().dms =~= with_dm(s, m.peer_id, m));
        assert(out.deep_view() =~= dm_received_effects(s, mv));
        out
    }

    /// Decrypt and keep a direct message that came in now.
    pub fn handle_dm_received(&mut self, entry: LogEntry, recipient_pk: [u8; 32]) -> (r: Vec<Effect>)
        ensures
            dm_handled(
                old(self).deep_view(),
                final(self).deep_view(),
                entry.deep_view(),
                recipient_pk@,
                r.deep_view(),
            ),
    {
        let now = Timestamp::now();
        let ghost m = incoming_dm(self.deep_view(), entry.deep_view(), recipient_pk@, now);
        self.handle_dm_received_at(entry, recipient_pk, now)
    }
}

/// A direct message that is delivered twice is kept once.
pub proof fn dms_are_kept_once(s: AppStateView, m: DmMessageInfoView)
    ensures
        ({
            let t = dm_received(s, Some(m));
            &&& dm_received(t, Some(m)) == t
            &&& dm_received_effects(t, Some(m)).len() == 0
        }),
{
    let t = dm_received(s, Some(m));
    let list = conversation(t, m.peer_id);
    if !has_dm(conversation(s, m.peer_id), m.id) {
        assert(list[list.len() - 1].id == m.id);
    }
}

/// What one user sends another receives: the body, the reply target and the id
/// that the sender gave arrive unchanged, provided the bytes of the entry open
/// as the envelope does.
pub proof fn sent_dms_arrive(
    sender: AppStateView,
    receiver: AppStateView,
    env: DmEnvelope,
    m: DmMessageInfoView,
    e: LogEntryView,
    now: Timestamp,
)
    requires
        carries(sender, env, x25519_public_key(x25519_secret_of(receiver.local.key)), m),
        x25519_secret_of(receiver.local.key).len() == 32,
        m.id.len() > 0,
        forall|sk: Seq<u8>| #[trigger] bytes_opened(e.ciphertext, sk) == env.opened(sk),
    ensures
        incoming_dm(
            receiver,
            e,
            x25519_public_key(x25519_secret_of(receiver.local.key)),
            now,
        ) matches Some(r) && r.id == m.id && r.body == m.body && r.reply_to == m.reply_to
            && r.author_id == e.author_id,
{
    let sk = x25519_secret_of(receiver.local.key);
    assert(bytes_opened(e.ciphertext, sk) == env.opened(sk));
}

} // verus!
