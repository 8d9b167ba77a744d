//! Identity requests.

use crate::api::effects::{emit, no_effects, Effect, EffectView, TableFile};
use crate::api::push_broadcaster::{
    MemberEventData, MemberEventDataView, PresenceChangedData, PushEvent, PushEventView,
};
use crate::api::rpc_server::member::presence_push;
use crate::api::rpc_server::RpcError;
use crate::api::types::{
    ChangePassphraseParams, IdentityInfo, IdentityInfoView, IdentityStateView, SetDisplayNameParams,
    SetStatusParams, UserStatus,
};
use crate::api::{community_topic, topic_of_community, AppState, AppStateView};
use crate::config::NodeConfigView;
use crate::crypto::primitives::ed25519_public_key;
use crate::identity::keystore::{keystore_key, usable_passphrase, KeyStore, KeyStoreError};
use crate::identity::NodeIdentity;
use crate::lists::copy_text_opt;
use crate::model::membership::{MembershipRecord, MembershipRecordView};
use crate::model::network_event::{NetworkEvent, NetworkEventView};
use crate::table::{entries_map, entry_in_map, has_key, keys_distinct, lists, position, Table};
use crate::text::{byte_len, hex, text};
use crate::time::Timestamp;
use vstd::prelude::*;
use vstd::string::*;
use vstd::utf8::*;

verus! {

/// The local identity as shown to clients.
pub open spec fn identity_info(s: AppStateView) -> IdentityInfoView {
    IdentityInfoView {
        peer_id: s.me(),
        display_name: s.identity_state.display_name,
        status: s.identity_state.status,
        public_key_hex: hex(ed25519_public_key(s.local.key)),
        public_addr: s.public_addr,
        tls_fingerprint_hex: s.local_tls_fingerprint_hex,
    }
}

/// A status in the older, joined-up spelling.
pub open spec fn joined_status_name(status: UserStatus) -> Seq<char> {
    match status {
        UserStatus::Online => "online"@,
        UserStatus::Idle => "idle"@,
        UserStatus::DoNotDisturb => "donotdisturb"@,
        UserStatus::Invisible => "invisible"@,
        UserStatus::Offline => "offline"@,
    }
}

/// A status in the older, joined-up spelling.
fn joined_status_text(status: UserStatus) -> (r: String)
    ensures
        r@ == joined_status_name(status),
{
    match status {
        UserStatus::Online => text("online"),
        UserStatus::Idle => text("idle"),
        UserStatus::DoNotDisturb => text("donotdisturb"),
        UserStatus::Invisible => text("invisible"),
        UserStatus::Offline => text("offline"),
    }
}

/// Whether a display name has a length between 1 and 64 bytes.
pub open spec fn good_display_name(name: Seq<char>) -> bool {
    1 <= encode_utf8(name).len() <= 64
}

/// A member list in which `user`, if present, has the given display name.
pub open spec fn renamed_list(
    list: Map<Seq<char>, MembershipRecordView>,
    user: Seq<char>,
    name: Seq<char>,
) -> Map<Seq<char>, MembershipRecordView> {
    if list.contains_key(user) {
        list.insert(user, MembershipRecordView { display_name: name, ..list[user] })
    } else {
        list
    }
}

/// All member lists in which `user` has the given display name.
pub open spec fn renamed_everywhere(
    members: Map<Seq<char>, Map<Seq<char>, MembershipRecordView>>,
    user: Seq<char>,
    name: Seq<char>,
) -> Map<Seq<char>, Map<Seq<char>, MembershipRecordView>> {
    Map::new(
        |c: Seq<char>| members.contains_key(c),
        |c: Seq<char>| renamed_list(members[c], user, name),
    )
}

/// The announcements of a new display name, one push and one publication for
/// each listed community of which the user is a member.
pub open spec fn rename_effects(
    order: Seq<(Seq<char>, Map<Seq<char>, MembershipRecordView>)>,
    user: Seq<char>,
    name: Seq<char>,
) -> Seq<EffectView>
    decreases order.len(),
{
    if order.len() == 0 {
        Seq::empty()
    } else {
        let head = rename_effects(order.drop_last(), user, name);
        let c = order.last().0;
        let list = order.last().1;
        if list.contains_key(user) {
            head + seq![
                EffectView::Push(
                    PushEventView::MemberJoined(
                        MemberEventDataView { user_id: user, community_id: c, display_name: name },
                    ),
                ),
                EffectView::Publish {
                    topic: community_topic(c),
                    event: NetworkEventView::MemberJoined(
                        MembershipRecordView { display_name: name, ..list[user] },
                    ),
                },
            ]
        } else {
            head
        }
    }
}

impl AppState {
    /// The local identity.
    pub fn identity_get(&self) -> (r: IdentityInfo)
        ensures
            r.deep_view() == identity_info(self.deep_view()),
    {
        IdentityInfo {
            peer_id: self.local.peer_id(),
            display_name: copy_text_opt(&self.identity_state.display_name),
            status: self.identity_state.status,
            public_key_hex: self.local.public_key_hex(),
            public_addr: copy_text_opt(&self.public_addr),
            tls_fingerprint_hex: copy_text_opt(&self.local_tls_fingerprint_hex),
        }
    }

    /// Change the display name, in the configuration and in every community.
    #[verifier::rlimit(60)]
    pub fn identity_set_display_name(&mut self, p: SetDisplayNameParams) -> (r: (
        Result<bool, RpcError>,
        Vec<Effect>,
    ))
        ensures
            ({
                let s = old(self).deep_view();
                let name = p.display_name@;
                if !good_display_name(name) {
                    &&& r.0 == Err::<bool, RpcError>(RpcError::DisplayNameLength)
                    &&& r.1.deep_view().len() == 0
                    &&& final(self).deep_view() == s
                } else {
                    &&& r.0 == Ok::<bool, RpcError>(true)
                    &&& final(self).deep_view() == (AppStateView {
                        identity_state: IdentityStateView {
                            display_name: Some(name),
                            ..s.identity_state
                        },
                        config: NodeConfigView { display_name: Some(name), ..s.config },
                        members: renamed_everywhere(s.members, s.me(), name),
                        ..s
                    })
                    &&& exists|order: Seq<(Seq<char>, Map<Seq<char>, MembershipRecordView>)>|
                        lists(order, s.members) && r.1.deep_view() == seq![
                            EffectView::SaveConfig,
                            EffectView::Save(TableFile::Members),
                        ] + #[trigger] rename_effects(order, s.me(), name)
                }
            }),
    {
        let ghost s = old(self).deep_view();
        let ghost name = p.display_name@;
        let n: usize = byte_len(p.display_name.as_str());
        if n == 0 || n > 64 {
            return (Err(RpcError::DisplayNameLength), no_effects());
        }
        self.identity_state.display_name = Some(p.display_name.clone());
        self.config.display_name = Some(p.display_name.clone());
        let me = self.local.peer_id();
        let mut out = no_effects();
        emit(&mut out, Effect::SaveConfig);
        emit(&mut out, Effect::Save(TableFile::Members));
        let ghost head = out.deep_view();
        let total: usize = self.members.len();
        let ghost order = self.members.order();
        let mut renamed: Table<Table<MembershipRecord>> = Table::new();
        let mut i: usize = 0;
        assert(renamed.deep_view() =~= entries_map(
            renamed_entries(order.subrange(0, 0), s.me(), name),
        ));
        assert(head + rename_effects(order.subrange(0, 0), s.me(), name) =~= head);
        while i < total
            invariant
                i <= total,
                total == order.len(),
                order == self.members.order(),
                lists(order, s.members),
                me@ == s.me(),
                name == p.display_name@,
                renamed.deep_view() == entries_map(
                    renamed_entries(order.subrange(0, i as int), s.me(), name),
                ),
                out.deep_view() == head + rename_effects(
                    order.subrange(0, i as int),
                    s.me(),
                    name,
                ),
            decreases total - i,
        {
            let c = self.members.key_at(i);
            let list = self.members.value_at(i);
            let mut fresh = copy_members(list);
            let ghost lv = order[i as int].1;
            if let Some(rec) = fresh.remove(me.as_str()) {
                let mut changed = rec;
                changed.display_name = p.display_name.clone();
                fresh.insert(me.as_str(), changed.clone());
                emit(
                    &mut out,
                    Effect::Push(
                        PushEvent::MemberJoined(
                            MemberEventData {
                                user_id: me.clone(),
                                community_id: c.clone(),
                                display_name: p.display_name.clone(),
                            },
                        ),
                    ),
                );
                emit(
                    &mut out,
                    Effect::Publish {
                        topic: topic_of_community(c.as_str()),
                        event: NetworkEvent::MemberJoined(changed),
                    },
                );
            }
            assert(fresh.deep_view() =~= renamed_list(lv, s.me(), name));
            renamed.insert(c.as_str(), fresh);
            proof {
                let prev = order.subrange(0, i as int);
                let next = order.subrange(0, i + 1);
                assert(next.drop_last() =~= prev);
                let pe = renamed_entries(prev, s.me(), name);
                let k = order[i as int].0;
                assert(renamed_entries(next, s.me(), name) =~= pe.push(
                    (k, renamed_list(lv, s.me(), name)),
                ));
                assert(keys_distinct(pe)) by {
                    assert forall|a: int, b: int|
                        0 <= a < pe.len() && 0 <= b < pe.len() && a != b implies #[trigger] pe[a].0
                        != #[trigger] pe[b].0 by {
                        assert(order[a].0 != order[b].0);
                    }
                }
                assert(!has_key(pe, k)) by {
                    if has_key(pe, k) {
                        let q = position(pe, k);
                        assert(order[q].0 != order[i as int].0);
                    }
                }
                crate::table::entries_push(pe, k, renamed_list(lv, s.me(), name));
                assert(out.deep_view() =~= head + rename_effects(next, s.me(), name));
            }
            i += 1;
        }
        assert(order.subrange(0, order.len() as int) =~= order);
        proof {
            let e = renamed_entries(order, s.me(), name);
            let want = renamed_everywhere(s.members, s.me(), name);
            assert forall|c: Seq<char>| has_key(e, c) == has_key(order, c) by {
                if has_key(e, c) {
                    let q = position(e, c);
                    assert(order[q].0 == c);
                }
                if has_key(order, c) {
                    let q = position(order, c);
                    assert(e[q].0 == c);
                }
            }
            assert(keys_distinct(e)) by {
                assert forall|a: int, b: int|
                    0 <= a < e.len() && 0 <= b < e.len() && a != b implies #[trigger] e[a].0
                    != #[trigger] e[b].0 by {
                    assert(order[a].0 != order[b].0);
                }
            }
            assert forall|c: Seq<char>| has_key(e, c) implies entries_map(e)[c] == want[c] by {
                let q = position(e, c);
                entry_in_map(e, q);
                entry_in_map(order, q);
                assert(order[q].0 == c);
            }
            assert(renamed.deep_view() =~= want);
        }
        self.members = renamed;
        (Ok(true), out)
    }

    /// Change the presence status at the given time.
    pub fn identity_set_status_at(&mut self, p: SetStatusParams, now: Timestamp) -> (r: (
        Result<bool, RpcError>,
        Vec<Effect>,
    ))
        ensures
            r.0 == Ok::<bool, RpcError>(true),
            final(self).deep_view() == (AppStateView {
                identity_state: IdentityStateView {
                    status: p.status,
                    ..old(self).deep_view().identity_state
                },
                ..old(self).deep_view()
            }),
            r.1.deep_view() == seq![
                presence_push(old(self).deep_view().me(), joined_status_name(p.status), now),
            ],
    {
        self.identity_state.status = p.status;
        let mut out = no_effects();
        emit(
            &mut out,
            Effect::Push(
                PushEvent::PresenceChanged(
                    PresenceChangedData {
                        user_id: self.local.peer_id(),
                        status: joined_status_text(p.status),
                        last_seen: now,
                    },
                ),
            ),
        );
        (Ok(true), out)
    }

    /// Change the presence status now.
    pub fn identity_set_status(&mut self, p: SetStatusParams) -> (r: (
        Result<bool, RpcError>,
        Vec<Effect>,
    ))
        ensures
            r.0 == Ok::<bool, RpcError>(true),
            final(self).deep_view() == (AppStateView {
                identity_state: IdentityStateView {
                    status: p.status,
                    ..old(self).deep_view().identity_state
                },
                ..old(self).deep_view()
            }),
            exists|now: Timestamp|
                r.1.deep_view() == seq![
                    #[trigger] presence_push(
                        old(self).deep_view().me(),
                        joined_status_name(p.status),
                        now,
                    ),
                ],
    {
        let now = Timestamp::now();
        let ghost push = presence_push(old(self).deep_view().me(), joined_status_name(p.status), now);
        self.identity_set_status_at(p, now)
    }

    /// Re-encrypt the key file under a new passphrase of at least eight bytes,
    /// after the old one proved right on the current file. The answer is the
    /// new content of the file.
    pub fn identity_change_passphrase(&self, key_file: &[u8], p: &ChangePassphraseParams) -> (r:
        Result<Vec<u8>, RpcError>)
        requires
            usable_passphrase(p.old_passphrase@),
            usable_passphrase(p.new_passphrase@),
        ensures
            match r {
                Ok(file) => encode_utf8(p.new_passphrase@).len() >= 8 && keystore_key(
                    key_file@,
                    p.old_passphrase@,
                ) is Ok && file@.len() == 104 && keystore_key(file@, p.new_passphrase@) == Ok::<
                    Seq<u8>,
                    KeyStoreError,
                >(self.deep_view().local.key),
                Err(e) => if encode_utf8(p.new_passphrase@).len() < 8 {
                    e == RpcError::PassphraseLength
                } else {
                    e == RpcError::WrongPassphrase && keystore_key(
                        key_file@,
                        p.old_passphrase@,
                    ) is Err
                },
            },
    {
        if byte_len(p.new_passphrase.as_str()) < 8 {
            return Err(RpcError::PassphraseLength);
        }
        match KeyStore::load(key_file, p.old_passphrase.as_str()) {
            Ok(_) => {
                let identity = NodeIdentity::from_signing_key_bytes(self.local.signing_key());
                Ok(KeyStore::save(&identity, p.new_passphrase.as_str()))
            },
            Err(_) => Err(RpcError::WrongPassphrase),
        }
    }
}

/// The listed member lists with a user renamed.
pub open spec fn renamed_entries(
    order: Seq<(Seq<char>, Map<Seq<char>, MembershipRecordView>)>,
    user: Seq<char>,
    name: Seq<char>,
) -> Seq<(Seq<char>, Map<Seq<char>, MembershipRecordView>)> {
    Seq::new(order.len(), |i: int| (order[i].0, renamed_list(order[i].1, user, name)))
}

/// A copy of a member list.
pub fn copy_members(list: &Table<MembershipRecord>) -> (r: Table<MembershipRecord>)
    ensures
        r.deep_view() == list.deep_view(),
{
    let n: usize = list.len();
    let ghost order = list.order();
    let mut out: Table<MembershipRecord> = Table::new();
    let mut i: usize = 0;
    assert(out.deep_view() =~= entries_map(order.subrange(0, 0)));
    while i < n
        invariant
            i <= n,
            n == order.len(),
            order == list.order(),
            keys_distinct(order),
            out.deep_view() == entries_map(order.subrange(0, i as int)),
        decreases n - i,
    {
        let copied = list.value_at(i).clone();
        proof {
            let prev = order.subrange(0, i as int);
            let k = order[i as int].0;
            assert(order.subrange(0, i + 1) =~= prev.push(order[i as int]));
            assert(keys_distinct(prev)) by {
                assert forall|a: int, b: int|
                    0 <= a < prev.len() && 0 <= b < prev.len() && a != b implies #[trigger] prev[a].0
                    != #[trigger] prev[b].0 by {
                    assert(order[a].0 != order[b].0);
                }
            }
            assert(!has_key(prev, k)) by {
                if has_key(prev, k) {
                    let q = position(prev, k);
                    assert(order[q].0 != order[i as int].0);
                }
            }
            crate::table::entries_push(prev, k, order[i as int].1);
        }
        out.insert(list.key_at(i).as_str(), copied);
        i += 1;
    }
    assert(order.subrange(0, order.len() as int) =~= order);
    out
}

} // verus!
