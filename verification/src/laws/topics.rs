//! Topics, subscriptions and whether a community can be reached.

use crate::api::rpc_server::{seed_check, RpcError};
use crate::api::{channel_topic, community_topic, without_community, AppStateView};
use crate::text::begins_with;
use vstd::prelude::*;

verus! {

/// Different channels have different topics, different communities have
/// different topics, and no channel shares one with a community.
pub proof fn topics_tell_apart(a: Seq<char>, b: Seq<char>)
    ensures
        channel_topic(a) == channel_topic(b) ==> a == b,
        community_topic(a) == community_topic(b) ==> a == b,
        channel_topic(a) != community_topic(b),
        begins_with(channel_topic(a), "/bitcord/channel/"@),
        begins_with(community_topic(a), "/bitcord/community/"@),
        !begins_with(community_topic(a), "/bitcord/channel/"@),
        !begins_with(channel_topic(a), "/bitcord/community/"@),
{
    reveal_strlit("/bitcord/channel/");
    reveal_strlit("/bitcord/community/");
    reveal_strlit("/1.0.0");
    let p = "/bitcord/channel/"@;
    let q = "/bitcord/community/"@;
    let e = "/1.0.0"@;
    assert(p.len() == 17 && q.len() == 19 && e.len() == 6);
    assert(p[10] == 'h' && q[10] == 'o');
    assert(channel_topic(a)[10] == 'h' && community_topic(b)[10] == 'o');
    assert(community_topic(a)[10] == 'o');
    if channel_topic(a) == channel_topic(b) {
        assert(channel_topic(a).len() == 17 + a.len() + 6);
        assert(channel_topic(a).subrange(17, 17 + a.len() as int) =~= a);
        assert(channel_topic(b).subrange(17, 17 + b.len() as int) =~= b);
    }
    if community_topic(a) == community_topic(b) {
        assert(community_topic(a).len() == 19 + a.len() + 6);
        assert(community_topic(a).subrange(19, 19 + a.len() as int) =~= a);
        assert(community_topic(b).subrange(19, 19 + b.len() as int) =~= b);
    }
    assert(channel_topic(a).subrange(0, 17) =~= p);
    assert(community_topic(a).subrange(0, 19) =~= q);
    assert(community_topic(a).subrange(0, 17)[10] == 'o');
    if channel_topic(a).len() >= 19 {
        assert(channel_topic(a).subrange(0, 19)[10] == 'h');
    }
}

/// A community can be used when it needs no seed node, when one is connected, or
/// when this node is one; otherwise requests on it say that the seed is missing,
/// and requests on an unknown community say that.
pub proof fn reachability(s: AppStateView, c: Seq<char>)
    ensures
        !s.communities.contains_key(c) ==> seed_check(s, c) == Err::<(), RpcError>(
            RpcError::CommunityNotFound,
        ),
        s.communities.contains_key(c) ==> {
            let seeds = s.communities[c].manifest.seed_nodes;
            let own = (s.public_addr is Some && seeds.contains(s.public_addr->0)) || exists|i: int|
                0 <= i < seeds.len() && s.actual_listen_addrs.contains(#[trigger] seeds[i]);
            &&& seed_check(s, c) is Ok <==> seeds.len() == 0 || own
                || s.seed_connected_communities.contains(c)
            &&& seed_check(s, c) is Err ==> seed_check(s, c) == Err::<(), RpcError>(
                RpcError::SeedUnavailable,
            )
        },
{
}

/// Forgetting a community touches nothing that belongs to another: members,
/// keys, conversations, the log and the settings stay.
pub proof fn forgetting_spares_the_rest(s: AppStateView, c: Seq<char>, k: Seq<char>)
    ensures
        ({
            let t = without_community(s, c);
            &&& k != c ==> t.member_list(k) == s.member_list(k)
            &&& k != c && s.hosting_passwords.contains_key(k) ==> t.hosting_passwords.contains_key(k)
                && t.hosting_passwords[k] == s.hosting_passwords[k]
            &&& s.channel_keys.contains_key(k) && !s.channels_of(c).contains(k)
                ==> t.channel_keys.contains_key(k) && t.channel_keys[k] == s.channel_keys[k]
            &&& s.channels_of(c).contains(k) ==> !t.channel_keys.contains_key(k)
                && !t.channels.contains_key(k)
            &&& t.dms == s.dms
            &&& t.dm_peers == s.dm_peers
            &&& t.message_log == s.message_log
            &&& t.bans == s.bans
            &&& t.config == s.config
            &&& t.local == s.local
            &&& t.seed_fingerprints == s.seed_fingerprints
        }),
{
}

} // verus!
