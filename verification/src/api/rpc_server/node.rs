//! Node requests.

use crate::api::effects::{emit, no_effects, Effect, EffectView};
use crate::api::rpc_server::RpcError;
use crate::api::types::{
    NodeConfigDto, NodeConfigDtoView, NodeLocalInfo, NodeLocalInfoView, PeerSummary,
    PeerSummaryView, SetConfigParams,
};
use crate::api::{AppState, AppStateView};
use crate::config::NodeConfigView;
use crate::crypto::primitives::ed25519_public_key;
use crate::identity::base58_text;
use crate::lists::{copy_text_opt, copy_texts, vec_deep_view, views, views_push};
use crate::table::lists;
use vstd::prelude::*;

verus! {

/// The part of the configuration shown to clients.
pub open spec fn config_dto(c: NodeConfigView) -> NodeConfigDtoView {
    NodeConfigDtoView {
        listen_addrs: c.listen_addrs,
        max_connections: c.max_connections,
        storage_limit_mb: c.storage_limit_mb,
        bandwidth_limit_kbps: c.bandwidth_limit_kbps,
        node_mode: c.node_mode,
        seed_priority: c.seed_priority,
        log_level: c.log_level,
        preferred_mailbox_node: c.preferred_mailbox_node,
    }
}

/// `new` when given, else `current`.
pub open spec fn or_current<A>(new: Option<A>, current: A) -> A {
    match new {
        Some(v) => v,
        None => current,
    }
}

/// The configuration after a partial update.
pub open spec fn updated_config(c: NodeConfigView, p: SetConfigParams) -> NodeConfigView {
    NodeConfigView {
        listen_addrs: or_current(p.listen_addrs.deep_view(), c.listen_addrs),
        max_connections: or_current(p.max_connections, c.max_connections),
        storage_limit_mb: or_current(p.storage_limit_mb, c.storage_limit_mb),
        bandwidth_limit_kbps: or_current(p.bandwidth_limit_kbps, c.bandwidth_limit_kbps),
        node_mode: or_current(p.node_mode, c.node_mode),
        seed_priority: or_current(p.seed_priority, c.seed_priority),
        log_level: or_current(p.log_level.deep_view(), c.log_level),
        preferred_mailbox_node: or_current(
            p.preferred_mailbox_node.deep_view(),
            c.preferred_mailbox_node,
        ),
        ..c
    }
}

/// The connected peers of the listed communities, one list after the other.
pub open spec fn all_peers(order: Seq<(Seq<char>, Seq<PeerSummaryView>)>) -> Seq<PeerSummaryView>
    decreases order.len(),
{
    if order.len() == 0 {
        Seq::empty()
    } else {
        all_peers(order.drop_last()) + order.last().1
    }
}

impl AppState {
    /// The part of the configuration shown to clients.
    pub fn node_get_config(&self) -> (r: NodeConfigDto)
        ensures
            r.deep_view() == config_dto(self.deep_view().config),
    {
        let c = &self.config;
        NodeConfigDto {
            listen_addrs: copy_texts(&c.listen_addrs),
            max_connections: c.max_connections,
            storage_limit_mb: c.storage_limit_mb,
            bandwidth_limit_kbps: c.bandwidth_limit_kbps,
            node_mode: c.node_mode,
            seed_priority: c.seed_priority,
            log_level: c.log_level.clone(),
            preferred_mailbox_node: copy_text_opt(&c.preferred_mailbox_node),
        }
    }

    /// Change the given parts of the configuration.
    pub fn node_set_config(&mut self, p: SetConfigParams) -> (r: (
        Result<bool, RpcError>,
        Vec<Effect>,
    ))
        ensures
            r.0 == Ok::<bool, RpcError>(true),
            r.1.deep_view() == seq![EffectView::SaveConfig],
            final(self).deep_view() == (AppStateView {
                config: updated_config(old(self).deep_view().config, p),
                ..old(self).deep_view()
            }),
    {
        if let Some(v) = p.listen_addrs {
            self.config.listen_addrs = v;
        }
        if let Some(v) = p.max_connections {
            self.config.max_connections = v;
        }
        if let Some(v) = p.storage_limit_mb {
            self.config.storage_limit_mb = v;
        }
        if let Some(v) = p.bandwidth_limit_kbps {
            self.config.bandwidth_limit_kbps = v;
        }
        if let Some(v) = p.node_mode {
            self.config.node_mode = v;
        }
        if let Some(v) = p.seed_priority {
            self.config.seed_priority = v;
        }
        if let Some(v) = p.log_level {
            self.config.log_level = v;
        }
        if let Some(v) = p.preferred_mailbox_node {
            self.config.preferred_mailbox_node = v;
        }
        let mut out = no_effects();
        emit(&mut out, Effect::SaveConfig);
        (Ok(true), out)
    }

    /// All connected peers.
    pub fn node_get_peers(&self) -> (r: Vec<PeerSummary>)
        ensures
            exists|order: Seq<(Seq<char>, Seq<PeerSummaryView>)>|
                lists(order, self.deep_view().connected_peers) && r.deep_view()
                    == #[trigger] all_peers(order),
    {
        broadcast use vec_deep_view, views_push;

        let n: usize = self.connected_peers.len();
        let ghost order = self.connected_peers.order();
        let mut out: Vec<PeerSummary> = Vec::new();
        assert(views(out@) =~= all_peers(order.subrange(0, 0)));
        let mut i: usize = 0;
        while i < n
            invariant
                i <= n,
                n == order.len(),
                order == self.connected_peers.order(),
                views(out@) == all_peers(order.subrange(0, i as int)),
            decreases n - i,
        {
            let list = self.connected_peers.value_at(i);
            let ghost before = views(out@);
            let ghost lv = views(list@);
            let mut j: usize = 0;
            assert(before + lv.subrange(0, 0) =~= before);
            while j < list.len()
                invariant
                    j <= list@.len(),
                    lv == views(list@),
                    views(out@) == before + lv.subrange(0, j as int),
                decreases list@.len() - j,
            {
                let ghost prior = out@;
                out.push(list[j].clone());
                j += 1;
                assert(views(out@) == views(prior).push(lv[j - 1]));
                assert(lv.subrange(0, j as int) =~= lv.subrange(0, j - 1).push(lv[j - 1]));
                assert(views(out@) =~= before + lv.subrange(0, j as int));
            }
            assert(lv.subrange(0, lv.len() as int) =~= lv);
            assert(order.subrange(0, i + 1).drop_last() =~= order.subrange(0, i as int));
            i += 1;
        }
        assert(order.subrange(0, order.len() as int) =~= order);
        out
    }

    /// The addresses of the local node.
    pub fn node_get_local_addrs(&self) -> (r: NodeLocalInfo)
        ensures
            r.deep_view() == (NodeLocalInfoView {
                node_address: base58_text(ed25519_public_key(self.deep_view().local.key)),
                listen_addrs: self.deep_view().actual_listen_addrs,
            }),
    {
        NodeLocalInfo {
            node_address: self.local.node_address(),
            listen_addrs: copy_texts(&self.actual_listen_addrs),
        }
    }
}

} // verus!
