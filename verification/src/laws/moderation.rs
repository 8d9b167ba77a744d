//! Members: who joins, who leaves, who may act on whom.

use crate::api::effects::EffectView;
use crate::api::event_processor::member_handler::{
    heartbeat_handled, heartbeat_signed, join_accepted, member_joined, member_left, role_changed,
    status_of_text,
};
use crate::api::invite::InvitePayloadView;
use crate::api::rpc_server::community::join_refusal;
use crate::api::rpc_server::member::{
    ban_list, heartbeats, is_creator, member_infos, removal_effects, removal_refusal,
    role_effects, role_of_dto, role_refusal, status_name, with_ban, with_role, without_member,
    Needed,
};
use crate::api::types::{RoleDto, UserStatus};
use crate::api::{community_topic, is_record_of, not_a_member, AppStateView};
use crate::crypto::primitives::{ed25519_public_key, ed25519_signature};
use crate::model::community::SignedManifestView;
use crate::model::membership::{MembershipRecordView, Role};
use crate::model::network_event::{
    accepts, leave_message, presence_message, role_message, NetworkEventView,
};
use crate::model::types::{ulid_parse, ulid_text, CommunityId, UserId};
use crate::table::{has_key, lists, position};
use crate::time::Timestamp;
use vstd::prelude::*;

verus! {

/// Whether the signatures of the local user verify under the local public key.
pub open spec fn own_signature_verifies(s: AppStateView, msg: Seq<u8>) -> bool {
    accepts(ed25519_public_key(s.local.key), msg, ed25519_signature(s.local.key, msg))
}

/// Whether `t` is `s` but for the members of one community.
pub open spec fn only_members_differ(s: AppStateView, t: AppStateView, c: Seq<char>) -> bool {
    &&& t == (AppStateView { members: t.members, bans: t.bans, ..s })
    &&& forall|d: Seq<char>| d != c ==> #[trigger] t.member_list(d) == s.member_list(d)
}

/// Whether exactly one user is gone from a community.
pub open spec fn one_member_gone(
    s: AppStateView,
    t: AppStateView,
    c: Seq<char>,
    u: Seq<char>,
) -> bool {
    &&& only_members_differ(s, t, c)
    &&& !t.member_list(c).contains_key(u)
    &&& forall|v: Seq<char>|
        v != u ==> (#[trigger] t.member_list(c).contains_key(v) <==> s.member_list(c).contains_key(
            v,
        ))
    &&& forall|v: Seq<char>|
        t.member_list(c).contains_key(v) ==> #[trigger] t.member_list(c)[v] == s.member_list(c)[v]
}

/// Whether one more user is banned from a community, and everybody who was
/// banned from any community still is.
pub open spec fn one_more_ban(
    s: AppStateView,
    t: AppStateView,
    c: Seq<char>,
    u: Seq<char>,
) -> bool {
    &&& ban_list(t, c).contains(u)
    &&& forall|v: Seq<char>| ban_list(s, c).contains(v) ==> #[trigger] ban_list(t, c).contains(v)
    &&& forall|v: Seq<char>|
        #[trigger] ban_list(t, c).contains(v) ==> v == u || ban_list(s, c).contains(v)
    &&& forall|d: Seq<char>| d != c ==> #[trigger] ban_list(t, d) == ban_list(s, d)
}

/// Removing a member takes out that one and nobody else.
pub proof fn removals_take_out_one(s: AppStateView, c: Seq<char>, u: Seq<char>)
    requires
        s.member_list(c).contains_key(u),
    ensures
        one_member_gone(s, without_member(s, c, u), c, u),
        without_member(s, c, u).bans == s.bans,
{
}

/// A ban takes the member out and only adds to the list of the banned: whoever
/// was banned before is still refused, and so is the user from now on.
pub proof fn bans_only_add(
    s: AppStateView,
    c: Seq<char>,
    u: Seq<char>,
    m: MembershipRecordView,
    i: InvitePayloadView,
)
    requires
        s.member_list(c).contains_key(u),
    ensures
        ({
            let t = with_ban(without_member(s, c, u), c, u);
            &&& one_member_gone(s, t, c, u)
            &&& one_more_ban(s, t, c, u)
            &&& m.community_id.name() == c && (m.user_id.name() == u || ban_list(s, c).contains(
                m.user_id.name(),
            )) ==> !join_accepted(t, m)
            &&& m.community_id.name() != c ==> join_accepted(t, m) == join_accepted(s, m)
            &&& m.user_id.name() != u ==> join_accepted(t, m) == join_accepted(s, m)
            &&& ulid_parse(i.community_id) is Some && ulid_text(ulid_parse(i.community_id)->0) == c
                && ban_list(s, c).contains(s.me()) ==> join_refusal(t, i) is Some
        }),
{
    let t = with_ban(without_member(s, c, u), c, u);
    let before = ban_list(s, c);
    let after = ban_list(t, c);
    bans_grow(s, c, u);
    assert(forall|v: Seq<char>| after.contains(v) <==> v == u || before.contains(v));
    if m.user_id.name() != u && m.community_id.name() == c {
        assert(after.contains(m.user_id.name()) <==> before.contains(m.user_id.name()));
    }
}

/// One more ban is a ban more, and takes none away.
pub proof fn bans_grow(s: AppStateView, c: Seq<char>, u: Seq<char>)
    requires
        s.member_list(c).contains_key(u),
    ensures
        one_more_ban(s, with_ban(without_member(s, c, u), c, u), c, u),
        one_member_gone(s, with_ban(without_member(s, c, u), c, u), c, u),
{
    let t = with_ban(without_member(s, c, u), c, u);
    let before = ban_list(s, c);
    let after = ban_list(t, c);
    assert(after =~= before.push(u));
    assert(after[before.len() as int] == u);
    assert forall|v: Seq<char>| before.contains(v) implies #[trigger] after.contains(v) by {
        assert(after[before.index_of(v)] == v);
    }
    assert forall|v: Seq<char>| #[trigger] after.contains(v) implies v == u || before.contains(
        v,
    ) by {
        let j = after.index_of(v);
        if j < before.len() {
            assert(before[j] == v);
        }
    }
    assert forall|d: Seq<char>| d != c implies #[trigger] ban_list(t, d) == ban_list(s, d) by {}
    assert(one_more_ban(s, t, c, u));
}

/// A removal is announced to the peers of the community, signed by whoever
/// removed the member.
pub proof fn removals_are_announced(
    s: AppStateView,
    community: CommunityId,
    u: Seq<char>,
    banned: bool,
    now: Timestamp,
)
    requires
        s.member_list(community.name()).contains_key(u),
    ensures
        ({
            let c = community.name();
            let user = s.member_list(c)[u].user_id;
            removal_effects(s, c, u, banned, now).contains(
                EffectView::Publish {
                    topic: community_topic(c),
                    event: NetworkEventView::MemberLeft {
                        user_id: user,
                        community_id: community,
                        timestamp: now,
                        signature: ed25519_signature(s.local.key, leave_message(user, community)),
                    },
                },
            )
        }),
{
    let c = community.name();
    crate::model::types::ulid_text_round_trip(community.0);
    let fx = removal_effects(s, c, u, banned, now);
    let user = s.member_list(c)[u].user_id;
    let e = EffectView::Publish {
        topic: community_topic(c),
        event: NetworkEventView::MemberLeft {
            user_id: user,
            community_id: community,
            timestamp: now,
            signature: ed25519_signature(s.local.key, leave_message(user, community)),
        },
    };
    if banned {
        assert(fx[2] == e);
    } else {
        assert(fx[1] == e);
    }
}

/// A departure that a moderator or the member announced takes effect with every
/// peer who knows the announcer's record.
pub proof fn announced_departures_take_effect(
    sender: AppStateView,
    receiver: AppStateView,
    after: AppStateView,
    user: UserId,
    community: CommunityId,
    by: Seq<char>,
    fx: Seq<EffectView>,
)
    requires
        own_signature_verifies(sender, leave_message(user, community)),
        receiver.member_list(community.name()).contains_key(by),
        receiver.member_list(community.name())[by].public_key == ed25519_public_key(
            sender.local.key,
        ),
        receiver.member_list(community.name())[by].is_privileged() || receiver.member_list(
            community.name(),
        )[by].user_id == user,
        receiver.member_list(community.name()).contains_key(user.name()),
        member_left(
            receiver,
            after,
            user,
            community,
            ed25519_signature(sender.local.key, leave_message(user, community)),
            fx,
        ),
    ensures
        one_member_gone(receiver, after, community.name(), user.name()),
        after.bans == receiver.bans,
{
    let r = receiver.member_list(community.name())[by];
}

/// Nobody is removed by gossip unless a member of the community signed it who is
/// that user, a moderator or an admin.
pub proof fn departures_need_authority(
    s: AppStateView,
    after: AppStateView,
    user: UserId,
    community: CommunityId,
    signature: Seq<u8>,
    fx: Seq<EffectView>,
)
    requires
        member_left(s, after, user, community, signature, fx),
        after != s,
    ensures
        one_member_gone(s, after, community.name(), user.name()),
        exists|k: Seq<char>|
            #![trigger s.member_list(community.name())[k]]
            s.member_list(community.name()).contains_key(k) && (s.member_list(
                community.name(),
            )[k].user_id == user || s.member_list(community.name())[k].roles.contains(Role::Admin)
                || s.member_list(community.name())[k].roles.contains(Role::Moderator)) && accepts(
                s.member_list(community.name())[k].public_key,
                leave_message(user, community),
                signature,
            ),
{
}

/// Whether exactly one member has other roles: the given one alone.
pub open spec fn one_role_differs(
    s: AppStateView,
    t: AppStateView,
    c: Seq<char>,
    u: Seq<char>,
    role: Role,
) -> bool {
    &&& only_members_differ(s, t, c)
    &&& t.bans == s.bans
    &&& t.member_list(c).dom() == s.member_list(c).dom()
    &&& t.member_list(c)[u].roles == seq![role]
    &&& t.member_list(c)[u] == (MembershipRecordView {
        roles: t.member_list(c)[u].roles,
        ..s.member_list(c)[u]
    })
    &&& forall|v: Seq<char>|
        v != u && s.member_list(c).contains_key(v) ==> #[trigger] t.member_list(c)[v]
            == s.member_list(c)[v]
}

/// A new role goes to one member and replaces the roles they had.
pub proof fn roles_go_to_one(s: AppStateView, c: Seq<char>, u: Seq<char>, role: RoleDto)
    requires
        s.member_list(c).contains_key(u),
    ensures
        one_role_differs(s, with_role(s, c, u, role_of_dto(role)), c, u, role_of_dto(role)),
        role_of_dto(role) == Role::Admin <==> role == RoleDto::Admin,
        role_of_dto(role) == Role::Moderator <==> role == RoleDto::Moderator,
        role_of_dto(role) == Role::Member <==> role == RoleDto::Member,
{
    let t = with_role(s, c, u, role_of_dto(role));
    assert(t.member_list(c).dom() =~= s.member_list(c).dom());
}

/// A role change is announced, signed by the admin who made it.
pub proof fn role_changes_are_announced(
    s: AppStateView,
    community: CommunityId,
    u: Seq<char>,
    role: Role,
    now: Timestamp,
)
    requires
        s.member_list(community.name()).contains_key(u),
    ensures
        ({
            let c = community.name();
            let user = s.member_list(c)[u].user_id;
            role_effects(s, c, u, role, now).contains(
                EffectView::Publish {
                    topic: community_topic(c),
                    event: NetworkEventView::MemberRoleUpdated {
                        user_id: user,
                        community_id: community,
                        new_role: role,
                        timestamp: now,
                        signature: ed25519_signature(
                            s.local.key,
                            role_message(user, community, role),
                        ),
                    },
                },
            )
        }),
{
    let c = community.name();
    crate::model::types::ulid_text_round_trip(community.0);
    let user = s.member_list(c)[u].user_id;
    let fx = role_effects(s, c, u, role, now);
    assert(fx[1] == EffectView::Publish {
        topic: community_topic(c),
        event: NetworkEventView::MemberRoleUpdated {
            user_id: user,
            community_id: community,
            new_role: role,
            timestamp: now,
            signature: ed25519_signature(s.local.key, role_message(user, community, role)),
        },
    });
}

/// A role change that an admin announced takes effect with every peer who knows
/// the admin's record, unless it is the creator's role.
pub proof fn announced_roles_take_effect(
    sender: AppStateView,
    receiver: AppStateView,
    after: AppStateView,
    user: UserId,
    community: CommunityId,
    role: Role,
    by: Seq<char>,
    fx: Seq<EffectView>,
)
    requires
        own_signature_verifies(sender, role_message(user, community, role)),
        receiver.member_list(community.name()).contains_key(by),
        receiver.member_list(community.name())[by].public_key == ed25519_public_key(
            sender.local.key,
        ),
        receiver.member_list(community.name())[by].is_admin(),
        receiver.member_list(community.name()).contains_key(user.name()),
        !is_creator(receiver, community.name(), user.name()),
        role_changed(
            receiver,
            after,
            user,
            community,
            role,
            ed25519_signature(sender.local.key, role_message(user, community, role)),
            fx,
        ),
    ensures
        one_role_differs(receiver, after, community.name(), user.name(), role),
{
    let r = receiver.member_list(community.name())[by];
    assert(after.member_list(community.name()).dom() =~= receiver.member_list(
        community.name(),
    ).dom());
}

/// No role changes by gossip unless an admin of the community signed exactly
/// that change.
pub proof fn role_changes_need_an_admin(
    s: AppStateView,
    after: AppStateView,
    user: UserId,
    community: CommunityId,
    role: Role,
    signature: Seq<u8>,
    fx: Seq<EffectView>,
)
    requires
        role_changed(s, after, user, community, role, signature, fx),
        after != s,
    ensures
        one_role_differs(s, after, community.name(), user.name(), role),
        exists|k: Seq<char>|
            #![trigger s.member_list(community.name())[k]]
            s.member_list(community.name()).contains_key(k) && s.member_list(
                community.name(),
            )[k].roles.contains(Role::Admin) && accepts(
                s.member_list(community.name())[k].public_key,
                role_message(user, community, role),
                signature,
            ),
{
    assert(after.member_list(community.name()).dom() =~= s.member_list(community.name()).dom());
}

/// Whether a request on other members is refused depends on the caller's roles
/// and on whether the member exists, and on nothing else.
pub proof fn authority_suffices(s: AppStateView, c: Seq<char>, u: Seq<char>)
    requires
        s.member_list(c).contains_key(s.me()),
        s.member_list(c).contains_key(u),
    ensures
        removal_refusal(s, c, u, Needed::Moderator) is None <==> s.member_list(
            c,
        )[s.me()].roles.contains(Role::Admin) || s.member_list(c)[s.me()].roles.contains(
            Role::Moderator,
        ),
        removal_refusal(s, c, u, Needed::Admin) is None <==> s.member_list(
            c,
        )[s.me()].roles.contains(Role::Admin),
        role_refusal(s, c, u) is None <==> s.member_list(c)[s.me()].roles.contains(Role::Admin)
            && !is_creator(s, c, u),
{
}

/// A record that is accepted is stored as it is, under its user and its
/// community; everybody else stays as they are, and the user can be written to.
pub proof fn accepted_records_are_stored(
    s: AppStateView,
    after: AppStateView,
    m: MembershipRecordView,
    fx: Seq<EffectView>,
)
    requires
        member_joined(s, after, m, fx),
        join_accepted(s, m),
    ensures
        ({
            let c = m.community_id.name();
            let u = m.user_id.name();
            &&& after.member_list(c).contains_key(u)
            &&& after.member_list(c)[u] == m
            &&& forall|v: Seq<char>|
                v != u ==> (#[trigger] after.member_list(c).contains_key(v) <==> s.member_list(
                    c,
                ).contains_key(v))
            &&& forall|v: Seq<char>|
                v != u && s.member_list(c).contains_key(v) ==> #[trigger] after.member_list(c)[v]
                    == s.member_list(c)[v]
            &&& forall|d: Seq<char>| d != c ==> #[trigger] after.member_list(d) == s.member_list(d)
            &&& after.dm_peers.contains_key(u)
            &&& after.dm_peers[u].x25519_public_key == m.x25519_public_key
            &&& after.dm_peers[u].display_name == m.display_name
            &&& forall|v: Seq<char>|
                v != u && s.dm_peers.contains_key(v) ==> #[trigger] after.dm_peers.contains_key(v)
                    && after.dm_peers[v] == s.dm_peers[v]
            &&& after.bans == s.bans
            &&& after.communities == s.communities
            &&& after.channel_keys == s.channel_keys
            &&& after.message_log == s.message_log
        }),
{
}

/// Every status survives the way through its text.
pub proof fn statuses_read_back(status: UserStatus)
    ensures
        status_of_text(status_name(status)) == status,
{
    reveal_strlit("online");
    reveal_strlit("idle");
    reveal_strlit("do_not_disturb");
    reveal_strlit("invisible");
    reveal_strlit("offline");
    assert("online"@.len() == 6);
    assert("idle"@.len() == 4);
    assert("do_not_disturb"@.len() == 14);
    assert("invisible"@.len() == 9);
    assert("offline"@.len() == 7);
}

/// A heartbeat that a user signed sets the status of that user with every peer
/// who knows one record of theirs, and of nobody else.
pub proof fn heartbeats_set_one_status(
    sender: AppStateView,
    receiver: AppStateView,
    after: AppStateView,
    user: UserId,
    status: UserStatus,
    at: Timestamp,
    fx: Seq<EffectView>,
)
    requires
        own_signature_verifies(sender, presence_message(user, status_name(status), at)),
        !not_a_member(receiver, user.name()),
        forall|m: MembershipRecordView| #[trigger]
            is_record_of(receiver, user.name(), m) ==> m.public_key == ed25519_public_key(
                sender.local.key,
            ),
        heartbeat_handled(
            receiver,
            after,
            user,
            status_name(status),
            at,
            ed25519_signature(
                sender.local.key,
                presence_message(user, status_name(status), at),
            ),
            fx,
        ),
    ensures
        after.presence.contains_key(user.name()),
        after.presence[user.name()] == status,
        forall|v: Seq<char>|
            v != user.name() ==> (#[trigger] after.presence.contains_key(v)
                == receiver.presence.contains_key(v)),
        forall|v: Seq<char>|
            v != user.name() ==> #[trigger] after.presence[v] == receiver.presence[v],
        after == (AppStateView { presence: after.presence, ..receiver }),
{
    statuses_read_back(status);
}

/// No status changes by gossip unless the user's own key signed it.
pub proof fn heartbeats_need_the_users_key(
    s: AppStateView,
    after: AppStateView,
    user: UserId,
    status: Seq<char>,
    at: Timestamp,
    signature: Seq<u8>,
    fx: Seq<EffectView>,
)
    requires
        heartbeat_handled(s, after, user, status, at, signature, fx),
        after != s,
    ensures
        exists|m: MembershipRecordView|
            #[trigger] is_record_of(s, user.name(), m) && heartbeat_signed(
                m.public_key,
                user,
                status,
                at,
                signature,
            ),
        after == (AppStateView { presence: after.presence, ..s }),
        forall|v: Seq<char>|
            v != user.name() ==> #[trigger] after.presence[v] == s.presence[v],
{
}

/// A member list shows every member once, with their name, their roles in order,
/// and the status they last announced.
pub proof fn member_lists_show_everybody(
    s: AppStateView,
    order: Seq<(Seq<char>, MembershipRecordView)>,
    i: int,
)
    requires
        0 <= i < order.len(),
    ensures
        member_infos(s, order).len() == order.len(),
        ({
            let m = order[i].1;
            let shown = member_infos(s, order)[i];
            &&& shown.user_id == m.user_id.name()
            &&& shown.display_name == m.display_name
            &&& shown.joined_at == m.joined_at
            &&& shown.public_key_hex == crate::text::hex(m.public_key)
            &&& shown.roles.len() == m.roles.len()
            &&& forall|k: int|
                0 <= k < m.roles.len() ==> role_of_dto(#[trigger] shown.roles[k]) == m.roles[k]
            &&& s.presence.contains_key(m.user_id.name()) ==> shown.status
                == s.presence[m.user_id.name()]
            &&& !s.presence.contains_key(m.user_id.name()) ==> shown.status == UserStatus::Offline
        }),
{
}

/// A heartbeat goes to every community, signed by the local user.
pub proof fn heartbeats_go_everywhere(
    s: AppStateView,
    order: Seq<(Seq<char>, SignedManifestView)>,
    status: UserStatus,
    now: Timestamp,
    c: Seq<char>,
)
    requires
        lists(order, s.communities),
        s.communities.contains_key(c),
    ensures
        heartbeats(s, order, status, now).contains(
            EffectView::Publish {
                topic: community_topic(c),
                event: NetworkEventView::PresenceHeartbeat {
                    user_id: s.local.user_id,
                    status: status_name(status),
                    timestamp: now,
                    signature: ed25519_signature(
                        s.local.key,
                        presence_message(s.local.user_id, status_name(status), now),
                    ),
                },
            },
        ),
{
    assert(has_key(order, c));
    let i = position(order, c);
    let fx = heartbeats(s, order, status, now);
    assert(fx.contains(fx[i]));
}

} // verus!
