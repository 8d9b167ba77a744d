//! Routing walks: who is asked, in which order, and what is found.

use crate::dht::kademlia::{
    closer, deduped, deduping_is_strict, distance, first_of, ids, less_from, less_is_total, ranked,
    sorted, sorting_sorts, strictly_in_order, unasked, Candidate, WalkView, ALPHA, K_CLOSEST,
};
use vstd::prelude::*;

verus! {

/// Whether a list holds a node with the given id.
pub open spec fn holds_id(list: Seq<Candidate>, id: Seq<u8>) -> bool {
    exists|i: int| 0 <= i < list.len() && #[trigger] list[i].id@ == id
}

/// Which of two nodes is closer shows at the first byte in which their ids
/// differ: there the closer one differs less from the target.
pub proof fn closeness_is_xor(target: Seq<u8>, x: Candidate, y: Candidate, i: int)
    requires
        target.len() == 32,
        0 <= i < 32,
        forall|j: int| 0 <= j < i ==> x.id@[j] == y.id@[j],
        x.id@[i] != y.id@[i],
    ensures
        closer(target, x, y) <==> (target[i] ^ x.id@[i]) < (target[i] ^ y.id@[i]),
        x.id@[i] == target[i] ==> closer(target, x, y),
        y.id@[i] == target[i] ==> !closer(target, x, y),
{
    let a = distance(target, x.id@);
    let b = distance(target, y.id@);
    same_prefix(a, b, i);
    let t = target[i];
    let p = x.id@[i];
    let q = y.id@[i];
    assert(t ^ p != t ^ q && (p == t ==> (t ^ p) == 0u8) && (q == t ==> (t ^ q) == 0u8)) by (bit_vector)
        requires
            p != q,
    ;
}

proof fn same_prefix(a: Seq<u8>, b: Seq<u8>, i: int)
    requires
        0 <= i <= 32,
        forall|j: int| 0 <= j < i ==> a[j] == b[j],
    ensures
        less_from(a, b, 0) == less_from(a, b, i),
    decreases i,
{
    if i > 0 {
        same_prefix(a, b, i - 1);
    }
}

/// The target itself is closer than any other node, and nothing is closer than
/// itself.
pub proof fn the_target_is_closest(target: Seq<u8>, x: Candidate, y: Candidate)
    requires
        target.len() == 32,
    ensures
        !closer(target, x, x),
        closer(target, x, y) ==> !closer(target, y, x),
        x.id@ == target && y.id@ != target ==> closer(target, x, y),
{
    let a = distance(target, x.id@);
    let b = distance(target, y.id@);
    less_is_total(a, a, 0);
    less_is_total(a, b, 0);
    if x.id@ == target && y.id@ != target {
        if forall|j: int| 0 <= j < 32 ==> x.id@[j] == y.id@[j] {
            assert(x.id@ =~= y.id@);
        }
        let j = choose|j: int| 0 <= j < 32 && x.id@[j] != y.id@[j];
        let i = first_difference(x.id@, y.id@, j);
        closeness_is_xor(target, x, y, i);
    }
}

proof fn first_difference(a: Seq<u8>, b: Seq<u8>, j: int) -> (i: int)
    requires
        0 <= j < 32,
        a[j] != b[j],
    ensures
        0 <= i <= j,
        a[i] != b[i],
        forall|k: int| 0 <= k < i ==> a[k] == b[k],
    decreases j,
{
    if forall|k: int| 0 <= k < j ==> a[k] == b[k] {
        j
    } else {
        let k = choose|k: int| 0 <= k < j && a[k] != b[k];
        first_difference(a, b, k)
    }
}

/// Dropping repeats loses no node and invents none.
proof fn deduping_keeps_nodes(list: Seq<Candidate>)
    ensures
        forall|id: Seq<u8>| #[trigger] holds_id(deduped(list), id) <==> holds_id(list, id),
        forall|i: int|
            0 <= i < deduped(list).len() ==> list.contains(#[trigger] deduped(list)[i]),
    decreases list.len(),
{
    if list.len() > 0 {
        let short = list.drop_last();
        let x = list.last();
        let head = deduped(short);
        let all = deduped(list);
        deduping_keeps_nodes(short);
        assert forall|id: Seq<u8>| #[trigger] holds_id(all, id) <==> holds_id(list, id) by {
            pushed_id(short, x, id);
            assert(short.push(x) =~= list);
            pushed_id(head, x, id);
            assert(holds_id(head, id) <==> holds_id(short, id));
            if head.len() > 0 && head.last().id@ == x.id@ && x.id@ == id {
                assert(head[head.len() - 1].id@ == id);
            }
        }
        assert forall|i: int| 0 <= i < all.len() implies list.contains(#[trigger] all[i]) by {
            if i < head.len() {
                assert(all[i] == head[i]);
                assert(short.contains(head[i]));
                assert(list[short.index_of(head[i])] == all[i]);
            } else {
                assert(list[list.len() - 1] == all[i]);
            }
        }
    } else {
        assert forall|id: Seq<u8>| #[trigger] holds_id(deduped(list), id) <==> holds_id(list, id) by {}
    }
}

proof fn pushed_id(list: Seq<Candidate>, x: Candidate, id: Seq<u8>)
    ensures
        holds_id(list.push(x), id) <==> holds_id(list, id) || x.id@ == id,
{
    let all = list.push(x);
    if holds_id(list, id) {
        let i = choose|i: int| 0 <= i < list.len() && #[trigger] list[i].id@ == id;
        assert(all[i].id@ == id);
    }
    if x.id@ == id {
        assert(all[list.len() as int].id@ == id);
    }
    if holds_id(all, id) {
        let i = choose|i: int| 0 <= i < all.len() && #[trigger] all[i].id@ == id;
        if i < list.len() {
            assert(list[i].id@ == id);
        }
    }
}

/// Ranking puts the nodes strictly nearest first, loses none, invents none and
/// lists none twice.
pub proof fn ranking_keeps_nodes(target: Seq<u8>, list: Seq<Candidate>)
    requires
        target.len() == 32,
    ensures
        strictly_in_order(target, ranked(target, list)),
        forall|id: Seq<u8>| #[trigger] holds_id(ranked(target, list), id) <==> holds_id(list, id),
        forall|i: int|
            0 <= i < ranked(target, list).len() ==> list.contains(
                #[trigger] ranked(target, list)[i],
            ),
{
    let s = sorted(target, list);
    let r = ranked(target, list);
    sorting_sorts(target, list);
    deduping_is_strict(target, s);
    deduping_keeps_nodes(s);
    broadcast use vstd::seq_lib::group_to_multiset_ensures;

    assert forall|x: Candidate| s.contains(x) <==> list.contains(x) by {
        assert(s.to_multiset().count(x) == list.to_multiset().count(x));
    }
    assert forall|id: Seq<u8>| #[trigger] holds_id(r, id) <==> holds_id(list, id) by {
        assert(holds_id(r, id) <==> holds_id(s, id));
        if holds_id(s, id) {
            let i = choose|i: int| 0 <= i < s.len() && #[trigger] s[i].id@ == id;
            assert(s.contains(s[i]));
            let j = list.index_of(s[i]);
            assert(list[j].id@ == id);
        }
        if holds_id(list, id) {
            let i = choose|i: int| 0 <= i < list.len() && #[trigger] list[i].id@ == id;
            assert(list.contains(list[i]));
            let j = s.index_of(list[i]);
            assert(s[j].id@ == id);
        }
    }
    assert forall|i: int| 0 <= i < r.len() implies list.contains(#[trigger] r[i]) by {
        assert(s.contains(r[i]));
    }
}

/// After a round the candidates stand strictly nearest first, seen from the
/// walk's own target; they are the same nodes, and nothing else about the walk
/// changes.
pub proof fn rounds_order_by_the_target(w: WalkView)
    requires
        w.target.len() == 32,
    ensures
        ({
            let t = w.round_ended();
            &&& t == (WalkView { to_visit: t.to_visit, ..w })
            &&& forall|i: int, j: int|
                0 <= i < j < t.to_visit.len() ==> closer(
                    w.target,
                    #[trigger] t.to_visit[i],
                    #[trigger] t.to_visit[j],
                )
            &&& forall|id: Seq<u8>| #[trigger]
                holds_id(t.to_visit, id) <==> holds_id(w.to_visit, id)
            &&& forall|i: int|
                0 <= i < t.to_visit.len() ==> w.to_visit.contains(#[trigger] t.to_visit[i])
        }),
{
    ranking_keeps_nodes(w.target, w.to_visit);
}

/// What is left of a list when those asked before are taken out.
proof fn unasked_nodes(list: Seq<Candidate>, visited: Seq<Seq<u8>>)
    ensures
        forall|id: Seq<u8>| #[trigger]
            holds_id(unasked(list, visited), id) <==> holds_id(list, id) && !visited.contains(id),
        forall|i: int|
            0 <= i < unasked(list, visited).len() ==> list.contains(
                #[trigger] unasked(list, visited)[i],
            ),
    decreases list.len(),
{
    let out = unasked(list, visited);
    if list.len() > 0 {
        let short = list.drop_last();
        let x = list.last();
        let head = unasked(short, visited);
        unasked_nodes(short, visited);
        assert forall|id: Seq<u8>| #[trigger] holds_id(out, id) <==> holds_id(list, id)
            && !visited.contains(id) by {
            pushed_id(short, x, id);
            assert(short.push(x) =~= list);
            pushed_id(head, x, id);
            assert(holds_id(head, id) <==> holds_id(short, id) && !visited.contains(id));
        }
        assert forall|i: int| 0 <= i < out.len() implies list.contains(#[trigger] out[i]) by {
            if i < head.len() {
                assert(out[i] == head[i]);
                assert(short.contains(head[i]));
                assert(list[short.index_of(head[i])] == out[i]);
            } else {
                assert(list[list.len() - 1] == out[i]);
            }
        }
    } else {
        assert forall|id: Seq<u8>| #[trigger] holds_id(out, id) <==> holds_id(list, id)
            && !visited.contains(id) by {}
    }
}

/// After a round, the nearest are asked next: nobody who is left for later is
/// closer to the target than anybody who is asked now.
pub proof fn the_nearest_are_asked_next(w: WalkView, x: Candidate, y: Candidate)
    requires
        w.target.len() == 32,
        w.round_ended().batch().contains(x),
        w.round_ended().asking().to_visit.contains(y),
    ensures
        closer(w.target, x, y),
        w.to_visit.contains(x),
        !w.visited.contains(x.id@),
{
    rounds_order_by_the_target(w);
    let t = w.round_ended();
    let head = first_of(t.to_visit, ALPHA as nat);
    unasked_nodes(head, t.visited);
    let b = t.batch();
    let i = b.index_of(x);
    assert(head.contains(b[i]));
    let p = head.index_of(x);
    assert(t.to_visit[p] == x);
    let rest = t.asking().to_visit;
    let q = rest.index_of(y);
    assert(t.to_visit[ALPHA + q] == y);
    assert(holds_id(b, x.id@)) by {
        assert(b[i].id@ == x.id@);
    }
}

/// Asking loses nobody: each candidate is asked now, was asked before, or stays
/// for later. Who is asked now counts as asked and as found from then on, and
/// who was stays so.
pub proof fn asking_loses_nobody(w: WalkView, id: Seq<u8>)
    requires
        w.rounds_left > 0,
        holds_id(w.to_visit, id),
    ensures
        holds_id(w.batch(), id) || w.visited.contains(id) || holds_id(w.asking().to_visit, id),
        holds_id(w.batch(), id) ==> w.asking().visited.contains(id) && holds_id(
            w.asking().found,
            id,
        ),
        w.visited.contains(id) ==> w.asking().visited.contains(id),
        holds_id(w.found, id) ==> holds_id(w.asking().found, id),
        w.asking().target == w.target,
{
    let head = first_of(w.to_visit, ALPHA as nat);
    let b = w.batch();
    let t = w.asking();
    unasked_nodes(head, w.visited);
    let i = choose|i: int| 0 <= i < w.to_visit.len() && #[trigger] w.to_visit[i].id@ == id;
    if i < head.len() {
        assert(head[i].id@ == id);
        assert(holds_id(head, id));
        assert(holds_id(b, id) <==> holds_id(head, id) && !w.visited.contains(id));
    } else {
        assert(t.to_visit[i - ALPHA].id@ == id);
    }
    if holds_id(b, id) {
        let j = choose|j: int| 0 <= j < b.len() && #[trigger] b[j].id@ == id;
        assert(ids(b)[j] == id);
        assert(t.visited[w.visited.len() + j] == id);
        assert(t.found[w.found.len() + j].id@ == id);
    }
    if w.visited.contains(id) {
        assert(t.visited[w.visited.index_of(id)] == id);
    }
    if holds_id(w.found, id) {
        let j = choose|j: int| 0 <= j < w.found.len() && #[trigger] w.found[j].id@ == id;
        assert(t.found[j].id@ == id);
    }
}

/// A walk learns of every node that it is told of and has not asked, and forgets
/// nobody.
pub proof fn told_nodes_become_candidates(w: WalkView, peers: Seq<Candidate>, id: Seq<u8>)
    ensures
        holds_id(w.told(peers).to_visit, id) <==> holds_id(w.to_visit, id) || (holds_id(peers, id)
            && !w.visited.contains(id)),
        w.told(peers).visited == w.visited,
        w.told(peers).found == w.found,
        w.told(peers).target == w.target,
        w.told(peers).rounds_left == w.rounds_left,
{
    let fresh = unasked(peers, w.visited);
    let all = w.told(peers).to_visit;
    unasked_nodes(peers, w.visited);
    assert(holds_id(fresh, id) <==> holds_id(peers, id) && !w.visited.contains(id));
    if holds_id(w.to_visit, id) {
        let i = choose|i: int| 0 <= i < w.to_visit.len() && #[trigger] w.to_visit[i].id@ == id;
        assert(all[i].id@ == id);
    }
    if holds_id(fresh, id) {
        let i = choose|i: int| 0 <= i < fresh.len() && #[trigger] fresh[i].id@ == id;
        assert(all[w.to_visit.len() + i].id@ == id);
    }
    if holds_id(all, id) {
        let i = choose|i: int| 0 <= i < all.len() && #[trigger] all[i].id@ == id;
        if i < w.to_visit.len() {
            assert(w.to_visit[i].id@ == id);
        } else {
            assert(fresh[i - w.to_visit.len()].id@ == id);
        }
    }
}

/// At the end of a walk the nearest of the nodes found are asked: at most a fixed
/// number, nearest first, and nobody found who is left out is closer than anybody
/// chosen.
pub proof fn the_nearest_found_are_chosen(w: WalkView, x: Candidate, id: Seq<u8>)
    requires
        w.target.len() == 32,
        w.nearest().contains(x),
    ensures
        w.nearest().len() <= K_CLOSEST,
        w.found.contains(x),
        strictly_in_order(w.target, w.nearest()),
        holds_id(w.found, id) && !holds_id(w.nearest(), id) ==> w.nearest().len() == K_CLOSEST
            && exists|y: Candidate| #[trigger]
            w.found.contains(y) && y.id@ == id && closer(w.target, x, y),
{
    let r = ranked(w.target, w.found);
    let n = w.nearest();
    ranking_keeps_nodes(w.target, w.found);
    let i = n.index_of(x);
    assert(r[i] == x);
    assert(strictly_in_order(w.target, n)) by {
        assert forall|a: int, b: int| 0 <= a < b < n.len() implies closer(
            w.target,
            #[trigger] n[a],
            #[trigger] n[b],
        ) by {
            assert(closer(w.target, r[a], r[b]));
        }
    }
    if holds_id(w.found, id) && !holds_id(n, id) {
        assert(holds_id(r, id));
        let j = choose|j: int| 0 <= j < r.len() && #[trigger] r[j].id@ == id;
        if j < n.len() {
            assert(n[j].id@ == id);
        }
        assert(closer(w.target, r[i], r[j]));
        assert(w.found.contains(r[j]));
    }
}

} // verus!
