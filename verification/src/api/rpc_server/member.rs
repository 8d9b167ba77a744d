//! Member, role and presence requests.

use crate::api::effects::{emit, no_effects, Effect, EffectView, TableFile};
use crate::api::push_broadcaster::{
    MemberEventData, MemberEventDataView, MemberRoleUpdatedData, MemberRoleUpdatedDataView,
    PresenceChangedData, PresenceChangedDataView, PushEvent, PushEventView,
};
use crate::api::rpc_server::RpcError;
use crate::api::types::{
    KickBanParams, MemberInfo, MemberInfoView, RoleDto, SetStatusParams, UpdateRoleParams,
    UserStatus,
};
use crate::api::{community_topic, topic_of_community, AppState, AppStateView};
use crate::bytes::{same_array, to_vec};
use crate::crypto::primitives::ed25519_signature;
use crate::laws::moderation::{
    bans_grow, one_member_gone, one_more_ban, one_role_differs, own_signature_verifies,
    removals_take_out_one, roles_go_to_one,
};
use crate::lists::{copy_text_opt, vec_deep_view, views, views_push};
use crate::model::community::SignedManifestView;
use crate::model::membership::{MembershipRecord, MembershipRecordView, Role};
use crate::model::network_event::{
    leave_bytes, leave_message, presence_bytes, presence_message, role_bytes, role_message,
    sign_bytes, MemberLeftPayload, MemberRoleUpdatedPayload, NetworkEvent, NetworkEventView,
    PresenceHeartbeatPayload,
};
use crate::model::types::{ulid_parse, CommunityId, UserId};
use crate::table::{entries_map, lists};
use crate::text::{bytes_to_hex, hex, text};
use crate::time::Timestamp;
use vstd::prelude::*;

verus! {

/// A role in responses.
pub open spec fn role_dto(role: Role) -> RoleDto {
    match role {
        Role::Admin => RoleDto::Admin,
        Role::Moderator => RoleDto::Moderator,
        Role::Member => RoleDto::Member,
    }
}

/// A role that a request names.
pub open spec fn role_of_dto(role: RoleDto) -> Role {
    match role {
        RoleDto::Admin => Role::Admin,
        RoleDto::Moderator => Role::Moderator,
        RoleDto::Member => Role::Member,
    }
}

/// The text of a role.
pub open spec fn role_name(role: Role) -> Seq<char> {
    match role {
        Role::Admin => "admin"@,
        Role::Moderator => "moderator"@,
        Role::Member => "member"@,
    }
}

/// The text of a role.
pub fn role_text(role: Role) -> (r: String)
    ensures
        r@ == role_name(role),
{
    match role {
        Role::Admin => text("admin"),
        Role::Moderator => text("moderator"),
        Role::Member => text("member"),
    }
}

/// The text of a presence status.
pub open spec fn status_name(status: UserStatus) -> Seq<char> {
    match status {
        UserStatus::Online => "online"@,
        UserStatus::Idle => "idle"@,
        UserStatus::DoNotDisturb => "do_not_disturb"@,
        UserStatus::Invisible => "invisible"@,
        UserStatus::Offline => "offline"@,
    }
}

/// The text of a presence status.
pub fn status_text(status: UserStatus) -> (r: String)
    ensures
        r@ == status_name(status),
{
    match status {
        UserStatus::Online => text("online"),
        UserStatus::Idle => text("idle"),
        UserStatus::DoNotDisturb => text("do_not_disturb"),
        UserStatus::Invisible => text("invisible"),
        UserStatus::Offline => text("offline"),
    }
}

/// The presence of a user; offline when nothing is known.
pub open spec fn presence_of(s: AppStateView, user: Seq<char>) -> UserStatus {
    if s.presence.contains_key(user) {
        s.presence[user]
    } else {
        UserStatus::Offline
    }
}

/// A member as shown to clients.
pub open spec fn member_info(s: AppStateView, m: MembershipRecordView) -> MemberInfoView {
    MemberInfoView {
        user_id: m.user_id.name(),
        display_name: m.display_name,
        avatar_cid: m.avatar_cid,
        roles: Seq::new(m.roles.len(), |i: int| role_dto(m.roles[i])),
        joined_at: m.joined_at,
        public_key_hex: hex(m.public_key),
        status: presence_of(s, m.user_id.name()),
    }
}

/// The listed members as shown to clients.
pub open spec fn member_infos(
    s: AppStateView,
    order: Seq<(Seq<char>, MembershipRecordView)>,
) -> Seq<MemberInfoView> {
    Seq::new(order.len(), |i: int| member_info(s, order[i].1))
}

/// What the caller must be for a request on other members.
#[derive(Clone, Copy, Debug, PartialEq, Eq, Structural)]
pub enum Needed {
    /// A moderator or an admin.
    Moderator,
    /// An admin.
    Admin,
}

/// Why the local user may not act on the members of a community.
pub open spec fn rank_refusal(s: AppStateView, community_id: Seq<char>, needed: Needed) -> Option<
    RpcError,
> {
    if !s.members.contains_key(community_id) {
        Some(RpcError::CommunityNotFound)
    } else if !s.members[community_id].contains_key(s.me()) {
        Some(RpcError::NotAMember)
    } else {
        let caller = s.members[community_id][s.me()];
        match needed {
            Needed::Moderator => if caller.is_privileged() {
                None
            } else {
                Some(RpcError::ModeratorRequired)
            },
            Needed::Admin => if caller.is_admin() {
                None
            } else {
                Some(RpcError::AdminRequired)
            },
        }
    }
}

/// Why a member cannot be removed.
pub open spec fn removal_refusal(
    s: AppStateView,
    community_id: Seq<char>,
    user_id: Seq<char>,
    needed: Needed,
) -> Option<RpcError> {
    match rank_refusal(s, community_id, needed) {
        Some(e) => Some(e),
        None => if !s.members[community_id].contains_key(user_id) {
            Some(RpcError::MemberNotFound)
        } else {
            None
        },
    }
}

/// The state without one member of a community.
pub open spec fn without_member(s: AppStateView, community_id: Seq<char>, user_id: Seq<char>) -> AppStateView {
    AppStateView {
        members: s.members.insert(community_id, s.members[community_id].remove(user_id)),
        ..s
    }
}

/// Announce that a member left, when the community id is well formed.
pub open spec fn leave_publication(
    s: AppStateView,
    community_id: Seq<char>,
    user: UserId,
    now: Timestamp,
) -> Seq<EffectView> {
    match ulid_parse(community_id) {
        Some(v) => seq![
            EffectView::Publish {
                topic: community_topic(community_id),
                event: NetworkEventView::MemberLeft {
                    user_id: user,
                    community_id: CommunityId(v),
                    timestamp: now,
                    signature: ed25519_signature(
                        s.local.key,
                        leave_message(user, CommunityId(v)),
                    ),
                },
            },
        ],
        None => Seq::empty(),
    }
}

/// Tell clients that a member left.
pub open spec fn member_left_push(
    community_id: Seq<char>,
    user_id: Seq<char>,
    display_name: Seq<char>,
) -> EffectView {
    EffectView::Push(
        PushEventView::MemberLeft(MemberEventDataView { user_id, community_id, display_name }),
    )
}

/// What is done after a member was kicked or banned.
pub open spec fn removal_effects(
    s: AppStateView,
    community_id: Seq<char>,
    user_id: Seq<char>,
    banned: bool,
    now: Timestamp,
) -> Seq<EffectView> {
    let m = s.members[community_id][user_id];
    let saves = if banned {
        seq![EffectView::Save(TableFile::Members), EffectView::Save(TableFile::Bans)]
    } else {
        seq![EffectView::Save(TableFile::Members)]
    };
    saves + leave_publication(s, community_id, m.user_id, now) + seq![
        member_left_push(community_id, user_id, m.display_name),
    ]
}

/// Why a role cannot be changed.
pub open spec fn role_refusal(s: AppStateView, community_id: Seq<char>, user_id: Seq<char>) -> Option<
    RpcError,
> {
    match rank_refusal(s, community_id, Needed::Admin) {
        Some(e) => Some(e),
        None => if !s.members[community_id].contains_key(user_id) {
            Some(RpcError::MemberNotFound)
        } else if is_creator(s, community_id, user_id) {
            Some(RpcError::CreatorRole)
        } else {
            None
        },
    }
}

/// Whether a member is the creator of the community: the holder of its key.
pub open spec fn is_creator(s: AppStateView, community_id: Seq<char>, user_id: Seq<char>) -> bool {
    s.communities.contains_key(community_id) && s.member_list(community_id).contains_key(user_id)
        && s.member_list(community_id)[user_id].public_key
        == s.communities[community_id].manifest.public_key
}

/// The state after a member got a new role.
pub open spec fn with_role(
    s: AppStateView,
    community_id: Seq<char>,
    user_id: Seq<char>,
    role: Role,
) -> AppStateView {
    let m = s.members[community_id][user_id];
    AppStateView {
        members: s.members.insert(
            community_id,
            s.members[community_id].insert(
                user_id,
                MembershipRecordView { roles: seq![role], ..m },
            ),
        ),
        ..s
    }
}

/// What is done after a member got a new role.
pub open spec fn role_effects(
    s: AppStateView,
    community_id: Seq<char>,
    user_id: Seq<char>,
    role: Role,
    now: Timestamp,
) -> Seq<EffectView> {
    let user = s.members[community_id][user_id].user_id;
    let publication = match ulid_parse(community_id) {
        Some(v) => seq![
            EffectView::Publish {
                topic: community_topic(community_id),
                event: NetworkEventView::MemberRoleUpdated {
                    user_id: user,
                    community_id: CommunityId(v),
                    new_role: role,
                    timestamp: now,
                    signature: ed25519_signature(
                        s.local.key,
                        role_message(user, CommunityId(v), role),
                    ),
                },
            },
        ],
        None => Seq::empty(),
    };
    seq![EffectView::Save(TableFile::Members)] + publication + seq![role_push(community_id, user_id, role)]
}

/// Tell clients about a member's new role.
pub open spec fn role_push(community_id: Seq<char>, user_id: Seq<char>, role: Role) -> EffectView {
    EffectView::Push(
        PushEventView::MemberRoleUpdated(
            MemberRoleUpdatedDataView { user_id, community_id, new_role: role_name(role) },
        ),
    )
}

/// The heartbeat of the local user on every listed community.
pub open spec fn heartbeats(
    s: AppStateView,
    order: Seq<(Seq<char>, SignedManifestView)>,
    status: UserStatus,
    now: Timestamp,
) -> Seq<EffectView> {
    Seq::new(
        order.len(),
        |i: int|
            EffectView::Publish {
                topic: community_topic(order[i].0),
                event: NetworkEventView::PresenceHeartbeat {
                    user_id: s.local.user_id,
                    status: status_name(status),
                    timestamp: now,
                    signature: ed25519_signature(
                        s.local.key,
                        presence_message(s.local.user_id, status_name(status), now),
                    ),
                },
            },
    )
}

/// Tell clients about a presence change.
pub open spec fn presence_push(user_id: Seq<char>, status: Seq<char>, now: Timestamp) -> EffectView {
    EffectView::Push(
        PushEventView::PresenceChanged(
            PresenceChangedDataView { user_id, status, last_seen: now },
        ),
    )
}

impl AppState {
    /// The members of a community.
    pub fn member_list(&self, community_id: &str) -> (r: Vec<MemberInfo>)
        ensures
            exists|order: Seq<(Seq<char>, MembershipRecordView)>|
                lists(order, self.deep_view().member_list(community_id@)) && r.deep_view()
                    == #[trigger] member_infos(self.deep_view(), order),
    {
        broadcast use vec_deep_view, views_push;

        let mut out: Vec<MemberInfo> = Vec::new();
        let ghost s = self.deep_view();
        match self.members.get(community_id) {
            Some(list) => {
                let n: usize = list.len();
                let ghost order = list.order();
                let mut i: usize = 0;
                while i < n
                    invariant
                        i <= n,
                        n == order.len(),
                        order == list.order(),
                        s == self.deep_view(),
                        views(out@) == member_infos(s, order.subrange(0, i as int)),
                    decreases n - i,
                {
                    let m = list.value_at(i);
                    let info = self.info_of_member(m);
                    out.push(info);
                    i += 1;
                    assert(member_infos(s, order.subrange(0, i as int)) =~= member_infos(
                        s,
                        order.subrange(0, i - 1),
                    ).push(member_info(s, order[i - 1].1)));
                }
                assert(order.subrange(0, order.len() as int) =~= order);
            },
            None => {
                let ghost order = Seq::<(Seq<char>, MembershipRecordView)>::empty();
                assert(entries_map(order) =~= Map::<Seq<char>, MembershipRecordView>::empty());
                assert(lists(order, s.member_list(community_id@)));
                assert(views(out@) =~= member_infos(s, order));
            },
        }
        out
    }

    /// A member as shown to clients.
    fn info_of_member(&self, m: &MembershipRecord) -> (r: MemberInfo)
        ensures
            r.deep_view() == member_info(self.deep_view(), m.deep_view()),
    {
        let user_id = m.user_id.to_string();
        let status = match self.presence.get(user_id.as_str()) {
            Some(s) => *s,
            None => UserStatus::Offline,
        };
        let mut roles: Vec<RoleDto> = Vec::new();
        let mut i: usize = 0;
        while i < m.roles.len()
            invariant
                i <= m.roles@.len(),
                roles@.len() == i,
                forall|j: int| 0 <= j < i ==> roles@[j] == role_dto(m.roles@[j]),
            decreases m.roles@.len() - i,
        {
            let role = match m.roles[i] {
                Role::Admin => RoleDto::Admin,
                Role::Moderator => RoleDto::Moderator,
                Role::Member => RoleDto::Member,
            };
            roles.push(role);
            i += 1;
        }
        assert(roles@ =~= member_info(self.deep_view(), m.deep_view()).roles);
        MemberInfo {
            user_id,
            display_name: m.display_name.clone(),
            avatar_cid: copy_text_opt(&m.avatar_cid),
            roles,
            joined_at: m.joined_at,
            public_key_hex: bytes_to_hex(m.public_key.as_slice()),
            status,
        }
    }

    /// Whether the local user may act on the members of a community.
    fn check_rank(&self, community_id: &str, needed: Needed) -> (r: Option<RpcError>)
        ensures
            r == rank_refusal(self.deep_view(), community_id@, needed),
    {
        match self.members.get(community_id) {
            None => Some(RpcError::CommunityNotFound),
            Some(list) => match list.get(self.local.peer_id().as_str()) {
                None => Some(RpcError::NotAMember),
                Some(caller) => match needed {
                    Needed::Moderator => if caller.is_privileged() {
                        None
                    } else {
                        Some(RpcError::ModeratorRequired)
                    },
                    Needed::Admin => if caller.is_admin() {
                        None
                    } else {
                        Some(RpcError::AdminRequired)
                    },
                },
            },
        }
    }

    /// Take a member out of a community.
    pub fn take_member(&mut self, community_id: &str, user_id: &str) -> (r: Option<MembershipRecord>)
        ensures
            match r {
                Some(m) => old(self).deep_view().members.contains_key(community_id@) && old(self).deep_view().members[community_id@].contains_key(user_id@) && m.deep_view() == old(self).deep_view().members[community_id@][user_id@] && final(self).deep_view()
                    == without_member(old(self).deep_view(), community_id@, user_id@),
                None => !old(self).deep_view().member_list(community_id@).contains_key(user_id@)
                    && final(self).deep_view() == old(self).deep_view(),
            },
    {
        let known = match self.members.get(community_id) {
            Some(list) => list.contains_key(user_id),
            None => false,
        };
        if !known {
            return None;
        }
        let ghost s = old(self).deep_view();
        match self.members.remove(community_id) {
            Some(list) => {
                let mut rest = list;
                let taken = rest.remove(user_id);
                self.members.insert(community_id, rest);
                assert(self.deep_view().members =~= without_member(
                    s,
                    community_id@,
                    user_id@,
                ).members);
                taken
            },
            None => None,
        }
    }

    /// Publish that a member left.
    pub fn publish_leave(
        &self,
        community_id: &str,
        user: UserId,
        now: Timestamp,
        out: &mut Vec<Effect>,
    )
        ensures
            ulid_parse(community_id@) matches Some(v) ==> own_signature_verifies(
                self.deep_view(),
                leave_message(user, CommunityId(v)),
            ),
            final(out).deep_view() == old(out).deep_view() + leave_publication(
                self.deep_view(),
                community_id@,
                user,
                now,
            ),
    {
        if let Some(c) = CommunityId::from_string(community_id) {
            let signature = sign_bytes(
                self.local.signing_key(),
                leave_bytes(&user, &c).as_slice(),
            );
            emit(
                out,
                Effect::Publish {
                    topic: topic_of_community(community_id),
                    event: NetworkEvent::MemberLeft(
                        MemberLeftPayload { user_id: user, community_id: c, timestamp: now, signature },
                    ),
                },
            );
        }
        assert(out.deep_view() =~= old(out).deep_view() + leave_publication(
            self.deep_view(),
            community_id@,
            user,
            now,
        ));
    }

    /// Kick a member at the given time. Moderators and admins may.
    pub fn member_kick_at(&mut self, p: KickBanParams, now: Timestamp) -> (r: (
        Result<bool, RpcError>,
        Vec<Effect>,
    ))
        ensures
            r.0 is Ok ==> one_member_gone(
                old(self).deep_view(),
                final(self).deep_view(),
                p.community_id@,
                p.user_id@,
            ) && final(self).deep_view().bans == old(self).deep_view().bans,
            ({
                let s = old(self).deep_view();
                match removal_refusal(s, p.community_id@, p.user_id@, Needed::Moderator) {
                    Some(e) => r.0 == Err::<bool, RpcError>(e) && r.1.deep_view().len() == 0
                        && final(self).deep_view() == s,
                    None => {
                        &&& r.0 == Ok::<bool, RpcError>(true)
                        &&& final(self).deep_view() == without_member(
                            s,
                            p.community_id@,
                            p.user_id@,
                        )
                        &&& r.1.deep_view() == removal_effects(
                            s,
                            p.community_id@,
                            p.user_id@,
                            false,
                            now,
                        )
                    },
                }
            }),
    {
        let ghost s = old(self).deep_view();
        if let Some(e) = self.check_rank(p.community_id.as_str(), Needed::Moderator) {
            return (Err(e), no_effects());
        }
        let removed = match self.take_member(p.community_id.as_str(), p.user_id.as_str()) {
            Some(m) => m,
            None => {
                return (Err(RpcError::MemberNotFound), no_effects());
            },
        };
        let mut out = no_effects();
        emit(&mut out, Effect::Save(TableFile::Members));
        self.publish_leave(p.community_id.as_str(), removed.user_id, now, &mut out);
        emit(
            &mut out,
            Effect::Push(
                PushEvent::MemberLeft(
                    MemberEventData {
                        user_id: p.user_id,
                        community_id: p.community_id,
                        display_name: removed.display_name,
                    },
                ),
            ),
        );
        assert(out.deep_view() =~= removal_effects(s, p.community_id@, p.user_id@, false, now));
        proof {
            removals_take_out_one(s, p.community_id@, p.user_id@);
        }
        (Ok(true), out)
    }

    /// Ban a member at the given time. Admins may. The ban is recorded so that
    /// the user cannot come back.
    pub fn member_ban_at(&mut self, p: KickBanParams, now: Timestamp) -> (r: (
        Result<bool, RpcError>,
        Vec<Effect>,
    ))
        ensures
            r.0 is Ok ==> one_member_gone(
                old(self).deep_view(),
                final(self).deep_view(),
                p.community_id@,
                p.user_id@,
            ) && one_more_ban(
                old(self).deep_view(),
                final(self).deep_view(),
                p.community_id@,
                p.user_id@,
            ),
            ({
                let s = old(self).deep_view();
                match removal_refusal(s, p.community_id@, p.user_id@, Needed::Admin) {
                    Some(e) => r.0 == Err::<bool, RpcError>(e) && r.1.deep_view().len() == 0
                        && final(self).deep_view() == s,
                    None => {
                        &&& r.0 == Ok::<bool, RpcError>(true)
                        &&& final(self).deep_view() == with_ban(
                            without_member(s, p.community_id@, p.user_id@),
                            p.community_id@,
                            p.user_id@,
                        )
                        &&& r.1.deep_view() == removal_effects(
                            s,
                            p.community_id@,
                            p.user_id@,
                            true,
                            now,
                        )
                    },
                }
            }),
    {
        broadcast use vec_deep_view, views_push;

        let ghost s = old(self).deep_view();
        if let Some(e) = self.check_rank(p.community_id.as_str(), Needed::Admin) {
            return (Err(e), no_effects());
        }
        let removed = match self.take_member(p.community_id.as_str(), p.user_id.as_str()) {
            Some(m) => m,
            None => {
                return (Err(RpcError::MemberNotFound), no_effects());
            },
        };
        let mut out = no_effects();
        emit(&mut out, Effect::Save(TableFile::Members));
        let mut banned: Vec<String> = match self.bans.remove(p.community_id.as_str()) {
            Some(v) => v,
            None => Vec::new(),
        };
        assert(views(banned@) =~= ban_list(s, p.community_id@));
        banned.push(p.user_id.clone());
        self.bans.insert(p.community_id.as_str(), banned);
        emit(&mut out, Effect::Save(TableFile::Bans));
        self.publish_leave(p.community_id.as_str(), removed.user_id, now, &mut out);
        emit(
            &mut out,
            Effect::Push(
                PushEvent::MemberLeft(
                    MemberEventData {
                        user_id: p.user_id,
                        community_id: p.community_id,
                        display_name: removed.display_name,
                    },
                ),
            ),
        );
        proof {
            let after = with_ban(
                without_member(s, p.community_id@, p.user_id@),
                p.community_id@,
                p.user_id@,
            );
            assert(self.deep_view().bans =~= after.bans);
            removals_take_out_one(s, p.community_id@, p.user_id@);
            bans_grow(s, p.community_id@, p.user_id@);
            assert(out.deep_view() =~= removal_effects(s, p.community_id@, p.user_id@, true, now));
        }
        (Ok(true), out)
    }

    /// Give a member a new role at the given time. Admins may; the creator's
    /// role cannot be changed.
    #[verifier::rlimit(40)]
    pub fn member_update_role_at(&mut self, p: UpdateRoleParams, now: Timestamp) -> (r: (
        Result<bool, RpcError>,
        Vec<Effect>,
    ))
        ensures
            r.0 is Ok ==> one_role_differs(
                old(self).deep_view(),
                final(self).deep_view(),
                p.community_id@,
                p.user_id@,
                role_of_dto(p.role),
            ),
            ({
                let s = old(self).deep_view();
                let role = role_of_dto(p.role);
                match role_refusal(s, p.community_id@, p.user_id@) {
                    Some(e) => r.0 == Err::<bool, RpcError>(e) && r.1.deep_view().len() == 0
                        && final(self).deep_view() == s,
                    None => {
                        &&& r.0 == Ok::<bool, RpcError>(true)
                        &&& final(self).deep_view() == with_role(
                            s,
                            p.community_id@,
                            p.user_id@,
                            role,
                        )
                        &&& r.1.deep_view() == role_effects(
                            s,
                            p.community_id@,
                            p.user_id@,
                            role,
                            now,
                        )
                    },
                }
            }),
    {
        let ghost s = old(self).deep_view();
        if let Some(e) = self.check_rank(p.community_id.as_str(), Needed::Admin) {
            return (Err(e), no_effects());
        }
        let user: UserId = match self.members.get(p.community_id.as_str()) {
            None => {
                return (Err(RpcError::CommunityNotFound), no_effects());
            },
            Some(list) => match list.get(p.user_id.as_str()) {
                None => {
                    return (Err(RpcError::MemberNotFound), no_effects());
                },
                Some(target) => {
                    if let Some(signed) = self.communities.get(p.community_id.as_str()) {
                        if same_array(&target.public_key, &signed.manifest.public_key) {
                            return (Err(RpcError::CreatorRole), no_effects());
                        }
                    }
                    target.user_id
                },
            },
        };
        let role = match p.role {
            RoleDto::Admin => Role::Admin,
            RoleDto::Moderator => Role::Moderator,
            RoleDto::Member => Role::Member,
        };
        proof {
            roles_go_to_one(s, p.community_id@, p.user_id@, p.role);
        }
        let done = self.set_role(p.community_id.as_str(), p.user_id.as_str(), role);
        assert(done);
        let mut out = no_effects();
        emit(&mut out, Effect::Save(TableFile::Members));
        if let Some(c) = CommunityId::from_string(p.community_id.as_str()) {
            let signature = sign_bytes(
                self.local.signing_key(),
                role_bytes(&user, &c, role).as_slice(),
            );
            emit(
                &mut out,
                Effect::Publish {
                    topic: topic_of_community(p.community_id.as_str()),
                    event: NetworkEvent::MemberRoleUpdated(
                        MemberRoleUpdatedPayload {
                            user_id: user,
                            community_id: c,
                            new_role: role,
                            timestamp: now,
                            signature,
                        },
                    ),
                },
            );
        }
        emit(
            &mut out,
            Effect::Push(
                PushEvent::MemberRoleUpdated(
                    MemberRoleUpdatedData {
                        user_id: p.user_id,
                        community_id: p.community_id,
                        new_role: role_text(role),
                    },
                ),
            ),
        );
        assert(out.deep_view() =~= role_effects(s, p.community_id@, p.user_id@, role, now));
        (Ok(true), out)
    }

    /// Set the role of a member. False when there is no such member.
    pub fn set_role(&mut self, community_id: &str, user_id: &str, role: Role) -> (r: bool)
        ensures
            r == old(self).deep_view().member_list(community_id@).contains_key(user_id@),
            final(self).deep_view() == if r {
                with_role(old(self).deep_view(), community_id@, user_id@, role)
            } else {
                old(self).deep_view()
            },
    {
        let ghost s = old(self).deep_view();
        let known = match self.members.get(community_id) {
            Some(list) => list.contains_key(user_id),
            None => false,
        };
        if !known {
            return false;
        }
        if let Some(list) = self.members.remove(community_id) {
            let mut rest = list;
            if let Some(m) = rest.remove(user_id) {
                let mut changed = m;
                let mut roles: Vec<Role> = Vec::new();
                roles.push(role);
                assert(roles@ =~= seq![role]);
                changed.roles = roles;
                rest.insert(user_id, changed);
            }
            assert(rest.deep_view() =~= with_role(
                s,
                community_id@,
                user_id@,
                role,
            ).members[community_id@]);
            self.members.insert(community_id, rest);
            assert(self.deep_view().members =~= with_role(
                s,
                community_id@,
                user_id@,
                role,
            ).members);
        }
        true
    }

    /// Kick a member now.
    pub fn member_kick(&mut self, p: KickBanParams) -> (r: (Result<bool, RpcError>, Vec<Effect>))
        ensures
            r.0 is Ok ==> one_member_gone(
                old(self).deep_view(),
                final(self).deep_view(),
                p.community_id@,
                p.user_id@,
            ) && final(self).deep_view().bans == old(self).deep_view().bans,
            r.0 == match removal_refusal(
                old(self).deep_view(),
                p.community_id@,
                p.user_id@,
                Needed::Moderator,
            ) {
                Some(e) => Err(e),
                None => Ok(true),
            },
            final(self).deep_view() == if r.0 is Ok {
                without_member(old(self).deep_view(), p.community_id@, p.user_id@)
            } else {
                old(self).deep_view()
            },
            if r.0 is Ok {
                exists|now: Timestamp| r.1.deep_view() == #[trigger] removal_effects(old(self).deep_view(), p.community_id@, p.user_id@, false, now)
            } else {
                r.1.deep_view().len() == 0
            },
    {
        let now = Timestamp::now();
        let ghost s = old(self).deep_view();
        let ghost fx = removal_effects(s, p.community_id@, p.user_id@, false, now);
        self.member_kick_at(p, now)
    }

    /// Ban a member now.
    pub fn member_ban(&mut self, p: KickBanParams) -> (r: (Result<bool, RpcError>, Vec<Effect>))
        ensures
            r.0 is Ok ==> one_member_gone(
                old(self).deep_view(),
                final(self).deep_view(),
                p.community_id@,
                p.user_id@,
            ) && one_more_ban(
                old(self).deep_view(),
                final(self).deep_view(),
                p.community_id@,
                p.user_id@,
            ),
            r.0 == match removal_refusal(
                old(self).deep_view(),
                p.community_id@,
                p.user_id@,
                Needed::Admin,
            ) {
                Some(e) => Err(e),
                None => Ok(true),
            },
            final(self).deep_view() == if r.0 is Ok {
                with_ban(
                    without_member(old(self).deep_view(), p.community_id@, p.user_id@),
                    p.community_id@,
                    p.user_id@,
                )
            } else {
                old(self).deep_view()
            },
            if r.0 is Ok {
                exists|now: Timestamp| r.1.deep_view() == #[trigger] removal_effects(old(self).deep_view(), p.community_id@, p.user_id@, true, now)
            } else {
                r.1.deep_view().len() == 0
            },
    {
        let now = Timestamp::now();
        let ghost s = old(self).deep_view();
        let ghost fx = removal_effects(s, p.community_id@, p.user_id@, true, now);
        self.member_ban_at(p, now)
    }

    /// Give a member a new role now.
    pub fn member_update_role(&mut self, p: UpdateRoleParams) -> (r: (
        Result<bool, RpcError>,
        Vec<Effect>,
    ))
        ensures
            r.0 is Ok ==> one_role_differs(
                old(self).deep_view(),
                final(self).deep_view(),
                p.community_id@,
                p.user_id@,
                role_of_dto(p.role),
            ),
            r.0 == match role_refusal(old(self).deep_view(), p.community_id@, p.user_id@) {
                Some(e) => Err(e),
                None => Ok(true),
            },
            final(self).deep_view() == if r.0 is Ok {
                with_role(
                    old(self).deep_view(),
                    p.community_id@,
                    p.user_id@,
                    role_of_dto(p.role),
                )
            } else {
                old(self).deep_view()
            },
            if r.0 is Ok {
                exists|now: Timestamp| r.1.deep_view() == #[trigger] role_effects(old(self).deep_view(), p.community_id@, p.user_id@, role_of_dto(p.role), now)
            } else {
                r.1.deep_view().len() == 0
            },
    {
        let now = Timestamp::now();
        let ghost s = old(self).deep_view();
        let ghost fx = role_effects(s, p.community_id@, p.user_id@, role_of_dto(p.role), now);
        self.member_update_role_at(p, now)
    }

    /// Record and gossip the local user's presence at the given time.
    pub fn presence_heartbeat_at(&mut self, p: SetStatusParams, now: Timestamp) -> (r: (
        Result<bool, RpcError>,
        Vec<Effect>,
    ))
        ensures
            r.0 == Ok::<bool, RpcError>(true),
            final(self).deep_view() == (AppStateView {
                presence: old(self).deep_view().presence.insert(
                    old(self).deep_view().me(),
                    p.status,
                ),
                ..old(self).deep_view()
            }),
            exists|order: Seq<(Seq<char>, SignedManifestView)>|
                lists(order, old(self).deep_view().communities) && r.1.deep_view() == seq![
                    presence_push(old(self).deep_view().me(), status_name(p.status), now),
                ] + #[trigger] heartbeats(old(self).deep_view(), order, p.status, now),
    {
        let ghost s = old(self).deep_view();
        let me = self.local.peer_id();
        let user = self.local.user_id();
        self.presence.insert(me.as_str(), p.status);
        let status = status_text(p.status);
        let mut out = no_effects();
        emit(
            &mut out,
            Effect::Push(
                PushEvent::PresenceChanged(
                    PresenceChangedData { user_id: me, status: status.clone(), last_seen: now },
                ),
            ),
        );
        let signature = sign_bytes(
            self.local.signing_key(),
            presence_bytes(&user, status.as_str(), &now).as_slice(),
        );
        let n: usize = self.communities.len();
        let ghost order = self.communities.order();
        let ghost head = out.deep_view();
        let mut i: usize = 0;
        assert(head + heartbeats(s, order.subrange(0, 0), p.status, now) =~= head);
        while i < n
            invariant
                i <= n,
                n == order.len(),
                order == self.communities.order(),
                status@ == status_name(p.status),
                user == s.local.user_id,
                signature@ == ed25519_signature(
                    s.local.key,
                    presence_message(s.local.user_id, status_name(p.status), now),
                ),
                out.deep_view() == head + heartbeats(
                    s,
                    order.subrange(0, i as int),
                    p.status,
                    now,
                ),
            decreases n - i,
        {
            emit(
                &mut out,
                Effect::Publish {
                    topic: topic_of_community(self.communities.key_at(i).as_str()),
                    event: NetworkEvent::PresenceHeartbeat(
                        PresenceHeartbeatPayload {
                            user_id: user,
                            status: status.clone(),
                            timestamp: now,
                            signature: to_vec(signature.as_slice()),
                        },
                    ),
                },
            );
            i += 1;
            let ghost beats = heartbeats(s, order.subrange(0, i as int), p.status, now);
            assert(beats =~= heartbeats(s, order.subrange(0, i - 1), p.status, now).push(
                beats[i - 1],
            ));
            assert(out.deep_view() =~= head + beats);
        }
        assert(order.subrange(0, order.len() as int) =~= order);
        assert(lists(order, s.communities));
        (Ok(true), out)
    }

    /// Record and gossip the local user's presence now.
    pub fn presence_heartbeat(&mut self, p: SetStatusParams) -> (r: (
        Result<bool, RpcError>,
        Vec<Effect>,
    ))
        ensures
            r.0 == Ok::<bool, RpcError>(true),
            final(self).deep_view() == (AppStateView {
                presence: old(self).deep_view().presence.insert(
                    old(self).deep_view().me(),
                    p.status,
                ),
                ..old(self).deep_view()
            }),
            exists|order: Seq<(Seq<char>, SignedManifestView)>, now: Timestamp|
                lists(order, old(self).deep_view().communities) && r.1.deep_view() == seq![
                    presence_push(old(self).deep_view().me(), status_name(p.status), now),
                ] + #[trigger] heartbeats(old(self).deep_view(), order, p.status, now),
    {
        let now = Timestamp::now();
        self.presence_heartbeat_at(p, now)
    }
}

/// The users banned from a community.
pub open spec fn ban_list(s: AppStateView, community_id: Seq<char>) -> Seq<Seq<char>> {
    if s.bans.contains_key(community_id) {
        s.bans[community_id]
    } else {
        Seq::empty()
    }
}

/// The state with one more ban.
pub open spec fn with_ban(s: AppStateView, community_id: Seq<char>, user_id: Seq<char>) -> AppStateView {
    AppStateView {
        bans: s.bans.insert(community_id, ban_list(s, community_id).push(user_id)),
        ..s
    }
}

/// Moderators and admins may kick; only admins may ban or change roles.
pub proof fn permissions_follow_roles(s: AppStateView, community_id: Seq<char>, user_id: Seq<char>)
    ensures
        removal_refusal(s, community_id, user_id, Needed::Moderator) is None ==> s.member_list(
            community_id,
        ).contains_key(s.me()) && s.member_list(community_id)[s.me()].is_privileged(),
        removal_refusal(s, community_id, user_id, Needed::Admin) is None ==> s.member_list(
            community_id,
        ).contains_key(s.me()) && s.member_list(community_id)[s.me()].is_admin(),
        role_refusal(s, community_id, user_id) is None ==> s.member_list(
            community_id,
        ).contains_key(s.me()) && s.member_list(community_id)[s.me()].is_admin(),
{
}

/// Nobody can change the role of the community creator.
pub proof fn creator_cannot_be_demoted(s: AppStateView, community_id: Seq<char>, user_id: Seq<char>)
    requires
        is_creator(s, community_id, user_id),
    ensures
        role_refusal(s, community_id, user_id) is Some,
{
}

} // verus!
