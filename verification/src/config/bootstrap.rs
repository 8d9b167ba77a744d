//! Bootstrap addresses.
//!
//! A node without known peers tries the configured seed nodes first and the
//! built-in ones after them.

use crate::config::NodeConfig;
use crate::lists::{copy_texts, vec_deep_view, views, views_push, with_text};
use crate::network::node_addr::NodeAddr;
use crate::table::Table;
use crate::text::text;
use vstd::prelude::*;

verus! {

/// The well-known public bootstrap node, as `host:port`.
pub const BOOTSTRAP_NODE: &'static str = "bitcord.net:9042";

/// The items of `s`, each kept where it first occurs.
pub open spec fn first_occurrences(s: Seq<Seq<char>>) -> Seq<Seq<char>>
    decreases s.len(),
{
    if s.len() == 0 {
        s
    } else {
        with_text(first_occurrences(s.drop_last()), s.last())
    }
}

/// The addresses to try, as text: configured ones first, then the built-in
/// one, without repetition.
pub open spec fn candidates(seed_nodes: Seq<Seq<char>>) -> Seq<Seq<char>> {
    first_occurrences(seed_nodes.push(BOOTSTRAP_NODE@))
}

/// The addresses that a list of names resolves to, in order; a name that does
/// not resolve is skipped.
pub open spec fn resolved_addrs(
    names: Seq<Seq<char>>,
    resolved: Map<Seq<char>, Seq<NodeAddr>>,
) -> Seq<NodeAddr>
    decreases names.len(),
{
    if names.len() == 0 {
        Seq::empty()
    } else {
        resolved_addrs(names.drop_last(), resolved) + (if resolved.contains_key(names.last()) {
            resolved[names.last()]
        } else {
            Seq::empty()
        })
    }
}

/// The addresses to try, as text.
pub fn bootstrap_candidates(config: &NodeConfig) -> (r: Vec<String>)
    ensures
        r.deep_view() == candidates(config.seed_nodes.deep_view()),
{
    broadcast use vec_deep_view, views_push;

    let mut all = copy_texts(&config.seed_nodes);
    all.push(text(BOOTSTRAP_NODE));
    let ghost names = views(all@);
    let mut out: Vec<String> = Vec::new();
    let mut i: usize = 0;
    while i < all.len()
        invariant
            i <= all@.len(),
            names == views(all@),
            views(out@) == first_occurrences(names.subrange(0, i as int)),
        decreases all@.len() - i,
    {
        assert(names.subrange(0, i + 1).drop_last() =~= names.subrange(0, i as int));
        crate::lists::add_text(&mut out, all[i].as_str());
        i += 1;
    }
    assert(names.subrange(0, names.len() as int) =~= names);
    out
}

/// The effective list of bootstrap addresses, given what each name resolves to
/// (one address for a literal `ip:port`, any number for a host name).
pub fn effective_seed_addrs(config: &NodeConfig, resolved: &Table<Vec<NodeAddr>>) -> (r: Vec<
    NodeAddr,
>)
    ensures
        r@ == resolved_addrs(
            candidates(config.seed_nodes.deep_view()),
            resolved.deep_view(),
        ),
{
    broadcast use vec_deep_view, views_push;

    let names = bootstrap_candidates(config);
    let ghost all = views(names@);
    let mut out: Vec<NodeAddr> = Vec::new();
    let mut i: usize = 0;
    while i < names.len()
        invariant
            i <= names@.len(),
            all == views(names@),
            out@ == resolved_addrs(all.subrange(0, i as int), resolved.deep_view()),
        decreases names@.len() - i,
    {
        assert(all.subrange(0, i + 1).drop_last() =~= all.subrange(0, i as int));
        let ghost before = out@;
        match resolved.get(names[i].as_str()) {
            Some(addrs) => {
                let mut j: usize = 0;
                while j < addrs.len()
                    invariant
                        j <= addrs@.len(),
                        out@ == before + addrs@.subrange(0, j as int),
                    decreases addrs@.len() - j,
                {
                    out.push(addrs[j]);
                    j += 1;
                    assert(out@ =~= before + addrs@.subrange(0, j as int));
                }
                assert(addrs.deep_view() =~= addrs@);
                assert(addrs@.subrange(0, addrs@.len() as int) =~= addrs@);
            },
            None => {
                assert(before + Seq::<NodeAddr>::empty() =~= before);
            },
        }
        i += 1;
    }
    assert(all.subrange(0, all.len() as int) =~= all);
    out
}

/// Every candidate occurs once, and every configured name is a candidate.
pub proof fn candidates_are_distinct(s: Seq<Seq<char>>)
    ensures
        first_occurrences(s).no_duplicates(),
        forall|t: Seq<char>| first_occurrences(s).contains(t) <==> s.contains(t),
    decreases s.len(),
{
    if s.len() > 0 {
        let head = s.drop_last();
        let x = s.last();
        candidates_are_distinct(head);
        let f = first_occurrences(head);
        assert forall|t: Seq<char>| first_occurrences(s).contains(t) <==> s.contains(t) by {
            assert(s.contains(t) <==> head.contains(t) || t == x) by {
                if s.contains(t) {
                    let i = s.index_of(t);
                    if i < head.len() {
                        assert(head[i] == t);
                    }
                }
                if head.contains(t) {
                    let i = head.index_of(t);
                    assert(s[i] == t);
                }
                assert(s[s.len() - 1] == x);
            }
            assert(f.push(x).contains(t) <==> f.contains(t) || t == x) by {
                if f.contains(t) {
                    let i = f.index_of(t);
                    assert(f.push(x)[i] == t);
                }
                assert(f.push(x)[f.len() as int] == x);
            }
        }
    }
}

/// Configured names are tried before the built-in one: the first candidate is
/// the first configured name, when there is one.
pub proof fn configured_seeds_come_first(seeds: Seq<Seq<char>>)
    requires
        seeds.len() > 0,
    ensures
        candidates(seeds).len() > 0,
        candidates(seeds)[0] == seeds[0],
{
    let all = seeds.push(BOOTSTRAP_NODE@);
    first_stays_first(all);
}

proof fn first_stays_first(s: Seq<Seq<char>>)
    requires
        s.len() > 0,
    ensures
        first_occurrences(s).len() > 0,
        first_occurrences(s)[0] == s[0],
    decreases s.len(),
{
    if s.len() > 1 {
        first_stays_first(s.drop_last());
    } else {
        assert(first_occurrences(s.drop_last()).len() == 0);
    }
}

} // verus!
