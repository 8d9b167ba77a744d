//! Iterative walks towards the nodes closest to a target.
//!
//! A walk asks a few of the closest candidates per round for closer ones. The
//! surrounding program makes the calls; the walk decides whom to ask next.

use crate::bytes::same_array;
use crate::laws::walks::{holds_id, ranking_keeps_nodes};
use crate::network::node_addr::NodeAddr;
use crate::network::protocol::CommunityPeerRecord;
use vstd::prelude::*;

verus! {

/// How many candidates are asked per round.
pub const ALPHA: usize = 3;

/// The largest number of rounds.
pub const MAX_ROUNDS: u32 = 8;

/// How many of the closest nodes a walk starts from, and how many are asked at
/// its end.
pub const K_CLOSEST: usize = 20;

/// A node that may be asked.
#[derive(Clone, Copy, Debug)]
pub struct Candidate {
    pub id: [u8; 32],
    pub addr: NodeAddr,
}

/// The distance of an id from a target: the bytes in which they differ.
pub open spec fn distance(target: Seq<u8>, id: Seq<u8>) -> Seq<u8> {
    Seq::new(32, |i: int| target[i] ^ id[i])
}

/// Whether `a` is less than `b` as a number, the first byte counting most;
/// bytes before `i` are taken as equal.
pub open spec fn less_from(a: Seq<u8>, b: Seq<u8>, i: int) -> bool
    decreases 32 - i,
{
    if i < 0 || i >= 32 {
        false
    } else if a[i] == b[i] {
        less_from(a, b, i + 1)
    } else {
        a[i] < b[i]
    }
}

/// Whether `x` is strictly closer to the target than `y`.
pub open spec fn closer(target: Seq<u8>, x: Candidate, y: Candidate) -> bool {
    less_from(distance(target, x.id@), distance(target, y.id@), 0)
}

/// Whether `x` is strictly closer to the target than `y`.
pub fn is_closer(target: &[u8; 32], x: &Candidate, y: &Candidate) -> (r: bool)
    ensures
        r == closer(target@, *x, *y),
{
    let ghost a = distance(target@, x.id@);
    let ghost b = distance(target@, y.id@);
    let mut i: usize = 0;
    while i < 32
        invariant
            i <= 32,
            a == distance(target@, x.id@),
            b == distance(target@, y.id@),
            less_from(a, b, 0) == less_from(a, b, i as int),
        decreases 32 - i,
    {
        let p: u8 = target[i] ^ x.id[i];
        let q: u8 = target[i] ^ y.id[i];
        assert(a[i as int] == p && b[i as int] == q);
        if p < q {
            return true;
        }
        if q < p {
            return false;
        }
        i += 1;
    }
    false
}

/// A list with one candidate put before the farther ones at its end.
pub open spec fn inserted(target: Seq<u8>, list: Seq<Candidate>, x: Candidate) -> Seq<Candidate>
    decreases list.len(),
{
    if list.len() == 0 || !closer(target, x, list.last()) {
        list.push(x)
    } else {
        inserted(target, list.drop_last(), x).push(list.last())
    }
}

/// A list sorted by distance; candidates at the same distance keep their
/// order.
pub open spec fn sorted(target: Seq<u8>, list: Seq<Candidate>) -> Seq<Candidate>
    decreases list.len(),
{
    if list.len() == 0 {
        list
    } else {
        inserted(target, sorted(target, list.drop_last()), list.last())
    }
}

/// A list without candidates that have the id of the one before.
pub open spec fn deduped(list: Seq<Candidate>) -> Seq<Candidate>
    decreases list.len(),
{
    if list.len() == 0 {
        list
    } else {
        let head = deduped(list.drop_last());
        if head.len() > 0 && head.last().id@ == list.last().id@ {
            head
        } else {
            head.push(list.last())
        }
    }
}

/// The nearest candidates first, each once.
pub open spec fn ranked(target: Seq<u8>, list: Seq<Candidate>) -> Seq<Candidate> {
    deduped(sorted(target, list))
}

/// The first items of a list.
pub open spec fn first_of<A>(list: Seq<A>, n: nat) -> Seq<A> {
    if list.len() <= n {
        list
    } else {
        list.subrange(0, n as int)
    }
}

/// The rest of a list after its first items.
pub open spec fn rest_of<A>(list: Seq<A>, n: nat) -> Seq<A> {
    if list.len() <= n {
        Seq::empty()
    } else {
        list.subrange(n as int, list.len() as int)
    }
}

/// The candidates that were not asked yet.
pub open spec fn unasked(list: Seq<Candidate>, visited: Seq<Seq<u8>>) -> Seq<Candidate>
    decreases list.len(),
{
    if list.len() == 0 {
        list
    } else {
        let head = unasked(list.drop_last(), visited);
        if visited.contains(list.last().id@) {
            head
        } else {
            head.push(list.last())
        }
    }
}

/// The ids of a list.
pub open spec fn ids(list: Seq<Candidate>) -> Seq<Seq<u8>> {
    Seq::new(list.len(), |i: int| list[i].id@)
}

/// A walk in progress.
pub struct Walk {
    pub target: [u8; 32],
    /// Candidates, the nearest first.
    pub to_visit: Vec<Candidate>,
    /// The ids of the nodes that were asked.
    pub visited: Vec<[u8; 32]>,
    /// The nodes that were asked, in order.
    pub found: Vec<Candidate>,
    pub rounds_left: u32,
}

/// What a [`Walk`] holds.
pub struct WalkView {
    pub target: Seq<u8>,
    pub to_visit: Seq<Candidate>,
    pub visited: Seq<Seq<u8>>,
    pub found: Seq<Candidate>,
    pub rounds_left: u32,
}

impl DeepView for Walk {
    type V = WalkView;

    open spec fn deep_view(&self) -> WalkView {
        WalkView {
            target: self.target@,
            to_visit: self.to_visit@,
            visited: Seq::new(self.visited@.len(), |i: int| self.visited@[i]@),
            found: self.found@,
            rounds_left: self.rounds_left,
        }
    }
}

impl WalkView {
    /// The candidates to ask in the next round: those among the nearest that
    /// were not asked yet. None once the rounds are used up.
    pub open spec fn batch(self) -> Seq<Candidate> {
        if self.rounds_left == 0 {
            Seq::empty()
        } else {
            unasked(first_of(self.to_visit, ALPHA as nat), self.visited)
        }
    }

    /// The walk once its next batch is being asked. An empty batch ends it.
    pub open spec fn asking(self) -> WalkView {
        let b = self.batch();
        if self.rounds_left == 0 {
            self
        } else {
            WalkView {
                to_visit: rest_of(self.to_visit, ALPHA as nat),
                visited: self.visited + ids(b),
                found: self.found + b,
                rounds_left: if b.len() == 0 {
                    0
                } else {
                    (self.rounds_left - 1) as u32
                },
                ..self
            }
        }
    }

    /// The walk after a node named the given peers.
    pub open spec fn told(self, peers: Seq<Candidate>) -> WalkView {
        WalkView { to_visit: self.to_visit + unasked(peers, self.visited), ..self }
    }

    /// The walk after all answers of a round are in.
    pub open spec fn round_ended(self) -> WalkView {
        WalkView { to_visit: ranked(self.target, self.to_visit), ..self }
    }

    /// The nodes to ask at the end: the nearest of those that were asked.
    pub open spec fn nearest(self) -> Seq<Candidate> {
        first_of(ranked(self.target, self.found), K_CLOSEST as nat)
    }
}

/// Whether an id was asked.
fn was_asked(visited: &Vec<[u8; 32]>, id: &[u8; 32]) -> (r: bool)
    ensures
        r == Seq::new(visited@.len(), |i: int| visited@[i]@).contains(id@),
{
    let ghost all = Seq::new(visited@.len(), |i: int| visited@[i]@);
    let mut i: usize = 0;
    while i < visited.len()
        invariant
            i <= visited@.len(),
            all == Seq::new(visited@.len(), |i: int| visited@[i]@),
            forall|j: int| 0 <= j < i ==> #[trigger] all[j] != id@,
        decreases visited@.len() - i,
    {
        if same_array(&visited[i], id) {
            assert(all[i as int] == id@);
            return true;
        }
        i += 1;
    }
    false
}

/// The candidates that were not asked yet.
fn filter_unasked(list: &Vec<Candidate>, visited: &Vec<[u8; 32]>) -> (r: Vec<Candidate>)
    ensures
        r@ == unasked(list@, Seq::new(visited@.len(), |i: int| visited@[i]@)),
{
    let ghost seen = Seq::new(visited@.len(), |i: int| visited@[i]@);
    let mut out: Vec<Candidate> = Vec::new();
    let mut i: usize = 0;
    assert(out@ =~= unasked(list@.subrange(0, 0), seen));
    while i < list.len()
        invariant
            i <= list@.len(),
            seen == Seq::new(visited@.len(), |i: int| visited@[i]@),
            out@ == unasked(list@.subrange(0, i as int), seen),
        decreases list@.len() - i,
    {
        assert(list@.subrange(0, i + 1).drop_last() =~= list@.subrange(0, i as int));
        if !was_asked(visited, &list[i].id) {
            out.push(list[i]);
        }
        i += 1;
    }
    assert(list@.subrange(0, list@.len() as int) =~= list@);
    out
}

/// Where a candidate goes in a list, if all behind are farther.
proof fn inserted_at(target: Seq<u8>, list: Seq<Candidate>, x: Candidate, j: int)
    requires
        0 <= j <= list.len(),
        forall|k: int| j <= k < list.len() ==> closer(target, x, #[trigger] list[k]),
        j > 0 ==> !closer(target, x, list[j - 1]),
    ensures
        inserted(target, list, x) == list.subrange(0, j).push(x) + list.subrange(
            j,
            list.len() as int,
        ),
    decreases list.len(),
{
    let n = list.len() as int;
    if j == n {
        assert(list.subrange(0, n) =~= list);
        assert(list.subrange(0, j).push(x) + list.subrange(j, n) =~= list.push(x));
    } else {
        let short = list.drop_last();
        assert forall|k: int| j <= k < short.len() implies closer(
            target,
            x,
            #[trigger] short[k],
        ) by {
            assert(closer(target, x, list[k]));
        }
        assert(closer(target, x, list[n - 1]));
        inserted_at(target, short, x, j);
        assert(short.subrange(0, j) =~= list.subrange(0, j));
        assert((list.subrange(0, j).push(x) + short.subrange(j, n - 1)).push(list[n - 1])
            =~= list.subrange(0, j).push(x) + list.subrange(j, n));
    }
}

/// Sort a list by distance.
fn sort_by_distance(target: &[u8; 32], list: &Vec<Candidate>) -> (r: Vec<Candidate>)
    ensures
        r@ == sorted(target@, list@),
{
    let mut out: Vec<Candidate> = Vec::new();
    let mut i: usize = 0;
    assert(out@ =~= sorted(target@, list@.subrange(0, 0)));
    while i < list.len()
        invariant
            i <= list@.len(),
            out@ == sorted(target@, list@.subrange(0, i as int)),
        decreases list@.len() - i,
    {
        assert(list@.subrange(0, i + 1).drop_last() =~= list@.subrange(0, i as int));
        let x = list[i];
        let ghost before = out@;
        let mut j: usize = out.len();
        while j > 0 && is_closer(target, &x, &out[j - 1])
            invariant
                j <= out@.len(),
                out@ == before,
                forall|k: int| j <= k < before.len() ==> closer(target@, x, #[trigger] before[k]),
            ensures
                j <= out@.len(),
                j > 0 ==> !closer(target@, x, before[j - 1]),
            decreases j,
        {
            j -= 1;
        }
        proof {
            inserted_at(target@, before, x, j as int);
        }
        out.insert(j, x);
        assert(out@ =~= before.subrange(0, j as int).push(x) + before.subrange(
            j as int,
            before.len() as int,
        ));
        i += 1;
    }
    assert(list@.subrange(0, list@.len() as int) =~= list@);
    out
}

/// Drop candidates that have the id of the one before.
fn dedup(list: &Vec<Candidate>) -> (r: Vec<Candidate>)
    ensures
        r@ == deduped(list@),
{
    let mut out: Vec<Candidate> = Vec::new();
    let mut i: usize = 0;
    assert(out@ =~= deduped(list@.subrange(0, 0)));
    while i < list.len()
        invariant
            i <= list@.len(),
            out@ == deduped(list@.subrange(0, i as int)),
        decreases list@.len() - i,
    {
        assert(list@.subrange(0, i + 1).drop_last() =~= list@.subrange(0, i as int));
        let n: usize = out.len();
        let repeated = n > 0 && same_array(&out[n - 1].id, &list[i].id);
        if !repeated {
            out.push(list[i]);
        }
        i += 1;
    }
    assert(list@.subrange(0, list@.len() as int) =~= list@);
    out
}

/// The items of a list from `from` up to `to`.
fn slice_of(list: &Vec<Candidate>, from: usize, to: usize) -> (r: Vec<Candidate>)
    requires
        from <= to <= list@.len(),
    ensures
        r@ == list@.subrange(from as int, to as int),
{
    let mut out: Vec<Candidate> = Vec::new();
    let mut i: usize = from;
    while i < to
        invariant
            from <= i <= to,
            to <= list@.len(),
            out@ == list@.subrange(from as int, i as int),
        decreases to - i,
    {
        out.push(list[i]);
        i += 1;
        assert(list@.subrange(from as int, i as int) =~= list@.subrange(from as int, i - 1).push(
            list@[i - 1],
        ));
    }
    out
}

/// A list of candidates, nearest first, each once.
pub fn rank(target: &[u8; 32], list: &Vec<Candidate>) -> (r: Vec<Candidate>)
    ensures
        r@ == ranked(target@, list@),
{
    dedup(&sort_by_distance(target, list))
}

impl Walk {
    /// A walk towards `target` from the given candidates.
    pub fn new(target: [u8; 32], start: Vec<Candidate>) -> (r: Walk)
        ensures
            r.deep_view() == (WalkView {
                target: target@,
                to_visit: start@,
                visited: Seq::empty(),
                found: Seq::empty(),
                rounds_left: MAX_ROUNDS,
            }),
    {
        let visited: Vec<[u8; 32]> = Vec::new();
        let found: Vec<Candidate> = Vec::new();
        let r = Walk { target, to_visit: start, visited, found, rounds_left: MAX_ROUNDS };
        assert(r.deep_view().visited =~= Seq::<Seq<u8>>::empty());
        assert(r.deep_view().found =~= Seq::<Candidate>::empty());
        r
    }

    /// The candidates to ask next; none when the walk is over.
    pub fn next_batch(&mut self) -> (r: Vec<Candidate>)
        ensures
            r@ == old(self).deep_view().batch(),
            final(self).deep_view() == old(self).deep_view().asking(),
    {
        let ghost w = self.deep_view();
        if self.rounds_left == 0 {
            let none: Vec<Candidate> = Vec::new();
            assert(none@ =~= w.batch());
            return none;
        }
        let n: usize = self.to_visit.len();
        let k: usize = if n <= ALPHA {
            n
        } else {
            ALPHA
        };
        let head = slice_of(&self.to_visit, 0, k);
        let rest = slice_of(&self.to_visit, k, n);
        assert(head@ =~= first_of(w.to_visit, ALPHA as nat));
        assert(rest@ =~= rest_of(w.to_visit, ALPHA as nat));
        let batch = filter_unasked(&head, &self.visited);
        self.to_visit = rest;
        let ghost seen = w.visited;
        let mut i: usize = 0;
        assert(self.deep_view().visited =~= seen + ids(batch@.subrange(0, 0)));
        assert(self.found@ =~= w.found + batch@.subrange(0, 0));
        while i < batch.len()
            invariant
                i <= batch@.len(),
                self.target@ == w.target,
                self.to_visit@ == rest@,
                self.rounds_left == w.rounds_left,
                self.deep_view().visited == seen + ids(batch@.subrange(0, i as int)),
                self.found@ == w.found + batch@.subrange(0, i as int),
            decreases batch@.len() - i,
        {
            let ghost before = self.deep_view().visited;
            self.visited.push(batch[i].id);
            self.found.push(batch[i]);
            i += 1;
            proof {
                assert(self.deep_view().visited =~= before.push(batch@[i - 1].id@));
                assert(ids(batch@.subrange(0, i as int)) =~= ids(batch@.subrange(0, i - 1)).push(
                    batch@[i - 1].id@,
                ));
                assert(self.deep_view().visited =~= seen + ids(batch@.subrange(0, i as int)));
                assert(self.found@ =~= w.found + batch@.subrange(0, i as int));
            }
        }
        assert(batch@.subrange(0, batch@.len() as int) =~= batch@);
        self.rounds_left = if batch.len() == 0 {
            0
        } else {
            self.rounds_left - 1
        };
        assert(self.deep_view() == w.asking());
        batch
    }

    /// A node named peers; the answer is those that are worth remembering.
    pub fn learn(&mut self, peers: &Vec<Candidate>) -> (r: Vec<Candidate>)
        ensures
            r@ == unasked(peers@, old(self).deep_view().visited),
            final(self).deep_view() == old(self).deep_view().told(peers@),
    {
        let ghost w = self.deep_view();
        let fresh = filter_unasked(peers, &self.visited);
        let mut i: usize = 0;
        assert(self.to_visit@ =~= w.to_visit + fresh@.subrange(0, 0));
        while i < fresh.len()
            invariant
                i <= fresh@.len(),
                self.to_visit@ == w.to_visit + fresh@.subrange(0, i as int),
                self.deep_view() == (WalkView { to_visit: self.to_visit@, ..w }),
            decreases fresh@.len() - i,
        {
            self.to_visit.push(fresh[i]);
            i += 1;
            assert(self.to_visit@ =~= w.to_visit + fresh@.subrange(0, i as int));
        }
        assert(fresh@.subrange(0, fresh@.len() as int) =~= fresh@);
        fresh
    }

    /// All answers of a round are in: sort the candidates, nearest first.
    pub fn end_round(&mut self)
        ensures
            strictly_in_order(old(self).target@, final(self).to_visit@),
            forall|id: Seq<u8>| #[trigger]
                holds_id(final(self).to_visit@, id) <==> holds_id(old(self).to_visit@, id),
            final(self).deep_view() == old(self).deep_view().round_ended(),
    {
        proof {
            ranking_keeps_nodes(self.target@, self.to_visit@);
        }
        self.to_visit = rank(&self.target, &self.to_visit);
    }

    /// The nodes to ask at the end of the walk.
    pub fn closest(&self) -> (r: Vec<Candidate>)
        ensures
            r@ == self.deep_view().nearest(),
    {
        let all = rank(&self.target, &self.found);
        let n: usize = all.len();
        if n <= K_CLOSEST {
            all
        } else {
            slice_of(&all, 0, K_CLOSEST)
        }
    }
}

/// Whether a list of records names a node.
pub open spec fn names_node(list: Seq<CommunityPeerRecord>, pk: Seq<u8>) -> bool {
    exists|i: int| 0 <= i < list.len() && #[trigger] list[i].node_pk@ == pk
}

/// Records with those of a list added whose node is not named yet.
pub open spec fn merged(out: Seq<CommunityPeerRecord>, list: Seq<CommunityPeerRecord>) -> Seq<
    CommunityPeerRecord,
>
    decreases list.len(),
{
    if list.len() == 0 {
        out
    } else {
        let head = merged(out, list.drop_last());
        if names_node(head, list.last().node_pk@) {
            head
        } else {
            head.push(list.last())
        }
    }
}

/// Add records for nodes that are not listed yet. A walk passes the answers in
/// order, then what is known locally.
pub fn merge_records(out: &mut Vec<CommunityPeerRecord>, list: &Vec<CommunityPeerRecord>)
    ensures
        final(out)@ == merged(old(out)@, list@),
{
    let ghost start = out@;
    let mut i: usize = 0;
    while i < list.len()
        invariant
            i <= list@.len(),
            out@ == merged(start, list@.subrange(0, i as int)),
        decreases list@.len() - i,
    {
        let ghost prior = out@;
        let mut known = false;
        let mut j: usize = 0;
        while j < out.len()
            invariant
                j <= out@.len(),
                i < list@.len(),
                out@ == prior,
                known == names_node(prior.subrange(0, j as int), list@[i as int].node_pk@),
            decreases out@.len() - j,
        {
            let here = same_array(&out[j].node_pk, &list[i].node_pk);
            proof {
                let pk = list@[i as int].node_pk@;
                let a = prior.subrange(0, j as int);
                let b = prior.subrange(0, j + 1);
                if names_node(a, pk) {
                    let q = choose|q: int| 0 <= q < a.len() && #[trigger] a[q].node_pk@ == pk;
                    assert(b[q].node_pk@ == pk);
                }
                if here {
                    assert(b[j as int].node_pk@ == pk);
                }
                if names_node(b, pk) {
                    let q = choose|q: int| 0 <= q < b.len() && #[trigger] b[q].node_pk@ == pk;
                    if q < j {
                        assert(a[q].node_pk@ == pk);
                    }
                }
            }
            known = known || here;
            j += 1;
        }
        assert(prior.subrange(0, prior.len() as int) =~= prior);
        if !known {
            out.push(list[i]);
        }
        assert(list@.subrange(0, i + 1).drop_last() =~= list@.subrange(0, i as int));
        i += 1;
    }
    assert(list@.subrange(0, list@.len() as int) =~= list@);
}

/// Whether every candidate is at least as close as those behind it.
pub open spec fn in_order(target: Seq<u8>, list: Seq<Candidate>) -> bool {
    forall|i: int, j: int|
        0 <= i < j < list.len() ==> !closer(target, #[trigger] list[j], #[trigger] list[i])
}

/// Whether every candidate is strictly closer than those behind it.
pub open spec fn strictly_in_order(target: Seq<u8>, list: Seq<Candidate>) -> bool {
    forall|i: int, j: int|
        0 <= i < j < list.len() ==> closer(target, #[trigger] list[i], #[trigger] list[j])
}

/// Comparing bytes is asymmetric, and distinct distances compare one way or
/// the other.
pub proof fn less_is_total(a: Seq<u8>, b: Seq<u8>, i: int)
    requires
        0 <= i <= 32,
    ensures
        less_from(a, b, i) ==> !less_from(b, a, i),
        !less_from(a, b, i) && !less_from(b, a, i) ==> forall|k: int|
            i <= k < 32 ==> #[trigger] a[k] == b[k],
    decreases 32 - i,
{
    if i < 32 && a[i] == b[i] {
        less_is_total(a, b, i + 1);
    }
}

/// If `b` is not less than `a` and `c` not less than `b`, then `c` is not less
/// than `a`; and if one of the two is strict, so is the result.
pub proof fn less_is_transitive(a: Seq<u8>, b: Seq<u8>, c: Seq<u8>, i: int)
    requires
        0 <= i <= 32,
        !less_from(b, a, i),
        !less_from(c, b, i),
    ensures
        !less_from(c, a, i),
        less_from(a, b, i) || less_from(b, c, i) ==> less_from(a, c, i),
    decreases 32 - i,
{
    if i < 32 {
        if a[i] == b[i] && b[i] == c[i] {
            less_is_transitive(a, b, c, i + 1);
        }
    }
}

/// Inserting keeps a list in order.
proof fn inserting_keeps_order(target: Seq<u8>, list: Seq<Candidate>, x: Candidate)
    requires
        in_order(target, list),
    ensures
        in_order(target, inserted(target, list, x)),
        inserted(target, list, x).to_multiset() == list.to_multiset().insert(x),
        forall|i: int|
            0 <= i < inserted(target, list, x).len() ==> list.contains(
                #[trigger] inserted(target, list, x)[i],
            ) || inserted(target, list, x)[i] == x,
    decreases list.len(),
{
    broadcast use vstd::seq_lib::group_to_multiset_ensures;

    let t = inserted(target, list, x);
    if list.len() == 0 || !closer(target, x, list.last()) {
        assert forall|i: int, j: int| 0 <= i < j < t.len() implies !closer(
            target,
            #[trigger] t[j],
            #[trigger] t[i],
        ) by {
            if j == list.len() && i < list.len() - 1 {
                assert(!closer(target, list[list.len() - 1], list[i]));
                less_is_transitive(
                    distance(target, list[i].id@),
                    distance(target, list.last().id@),
                    distance(target, x.id@),
                    0,
                );
            }
        }
        assert forall|i: int| 0 <= i < t.len() implies list.contains(#[trigger] t[i]) || t[i]
            == x by {
            if i < list.len() {
                assert(list[i] == t[i]);
            }
        }
    } else {
        let short = list.drop_last();
        assert(in_order(target, short)) by {
            assert forall|i: int, j: int| 0 <= i < j < short.len() implies !closer(
                target,
                #[trigger] short[j],
                #[trigger] short[i],
            ) by {
                assert(!closer(target, list[j], list[i]));
            }
        }
        inserting_keeps_order(target, short, x);
        let u = inserted(target, short, x);
        let last = list.last();
        assert(t == u.push(last));
        assert(list =~= short.push(last));
        assert(t.to_multiset() =~= list.to_multiset().insert(x));
        assert forall|i: int, j: int| 0 <= i < j < t.len() implies !closer(
            target,
            #[trigger] t[j],
            #[trigger] t[i],
        ) by {
            if j == u.len() {
                assert(short.contains(u[i]) || u[i] == x);
                if u[i] == x {
                    less_is_total(
                        distance(target, x.id@),
                        distance(target, last.id@),
                        0,
                    );
                } else {
                    let q = short.index_of(u[i]);
                    assert(list[q] == u[i]);
                    assert(!closer(target, list[list.len() - 1], list[q]));
                }
            } else {
                assert(t[i] == u[i] && t[j] == u[j]);
            }
        }
        assert forall|i: int| 0 <= i < t.len() implies list.contains(#[trigger] t[i]) || t[i]
            == x by {
            if i < u.len() {
                assert(t[i] == u[i]);
                if short.contains(u[i]) {
                    let q = short.index_of(u[i]);
                    assert(list[q] == u[i]);
                }
            } else {
                assert(list[list.len() - 1] == t[i]);
            }
        }
    }
}

/// Sorting puts the candidates in the order of their distance, and neither
/// loses nor adds any.
pub proof fn sorting_sorts(target: Seq<u8>, list: Seq<Candidate>)
    ensures
        in_order(target, sorted(target, list)),
        sorted(target, list).to_multiset() == list.to_multiset(),
    decreases list.len(),
{
    broadcast use vstd::seq_lib::group_to_multiset_ensures;

    if list.len() > 0 {
        sorting_sorts(target, list.drop_last());
        inserting_keeps_order(target, sorted(target, list.drop_last()), list.last());
        assert(list =~= list.drop_last().push(list.last()));
        assert(sorted(target, list).to_multiset() =~= list.to_multiset());
    }
}

/// Two ids at the same distance from a target are the same.
pub proof fn same_distance_same_id(target: Seq<u8>, x: Candidate, y: Candidate)
    requires
        !closer(target, x, y),
        !closer(target, y, x),
        target.len() == 32,
    ensures
        x.id@ == y.id@,
{
    let a = distance(target, x.id@);
    let b = distance(target, y.id@);
    less_is_total(a, b, 0);
    assert forall|k: int| 0 <= k < 32 implies x.id@[k] == y.id@[k] by {
        assert(a[k] == b[k]);
        let t = target[k];
        let p = x.id@[k];
        let q = y.id@[k];
        assert(t ^ p == t ^ q);
        assert(p == q) by (bit_vector)
            requires
                t ^ p == t ^ q,
        ;
    }
    assert(x.id@ =~= y.id@);
}

/// Dropping repeats from a list in order leaves it strictly in order.
pub proof fn deduping_is_strict(target: Seq<u8>, list: Seq<Candidate>)
    requires
        in_order(target, list),
        target.len() == 32,
    ensures
        strictly_in_order(target, deduped(list)),
        list.len() > 0 ==> deduped(list).len() > 0 && deduped(list).last().id@ == list.last().id@,
    decreases list.len(),
{
    if list.len() > 0 {
        let short = list.drop_last();
        let n = list.len() as int;
        assert(in_order(target, short)) by {
            assert forall|i: int, j: int| 0 <= i < j < short.len() implies !closer(
                target,
                #[trigger] short[j],
                #[trigger] short[i],
            ) by {
                assert(!closer(target, list[j], list[i]));
            }
        }
        deduping_is_strict(target, short);
        let head = deduped(short);
        let all = deduped(list);
        if all != head {
            let last = list.last();
            assert forall|i: int, j: int| 0 <= i < j < all.len() implies closer(
                target,
                #[trigger] all[i],
                #[trigger] all[j],
            ) by {
                if j < head.len() {
                    assert(all[i] == head[i] && all[j] == head[j]);
                } else {
                    let h = head.last();
                    let dh = distance(target, h.id@);
                    let dl = distance(target, last.id@);
                    assert(h.id@ == list[n - 2].id@);
                    assert(!closer(target, list[n - 1], list[n - 2]));
                    assert(!less_from(dl, dh, 0));
                    if !less_from(dh, dl, 0) {
                        same_distance_same_id(target, h, last);
                    }
                    if i < head.len() - 1 {
                        assert(closer(target, head[i], head[head.len() - 1]));
                        let di = distance(target, head[i].id@);
                        less_is_total(di, dh, 0);
                        less_is_transitive(di, dh, dl, 0);
                    }
                }
            }
        }
    }
}

/// The candidates of a round stand strictly nearest first; in particular no
/// node is listed twice.
pub proof fn ranking_is_strict(target: Seq<u8>, list: Seq<Candidate>, i: int, j: int)
    requires
        target.len() == 32,
        0 <= i < j < ranked(target, list).len(),
    ensures
        closer(target, ranked(target, list)[i], ranked(target, list)[j]),
        ranked(target, list)[i].id@ != ranked(target, list)[j].id@,
{
    sorting_sorts(target, list);
    deduping_is_strict(target, sorted(target, list));
    let r = ranked(target, list);
    assert(closer(target, r[i], r[j]));
    let d = distance(target, r[i].id@);
    if r[i].id@ == r[j].id@ {
        less_is_total(d, d, 0);
    }
}

/// A walk never asks a node that it asked before, and asks at most a fixed
/// number per round.
pub proof fn nodes_are_asked_once(w: WalkView, i: int)
    ensures
        w.batch().len() <= ALPHA,
        0 <= i < w.batch().len() ==> !w.visited.contains(w.batch()[i].id@),
{
    if w.rounds_left > 0 {
        unasked_are_new(first_of(w.to_visit, ALPHA as nat), w.visited, i);
    }
}

/// The candidates that are left were not asked.
proof fn unasked_are_new(list: Seq<Candidate>, visited: Seq<Seq<u8>>, i: int)
    ensures
        unasked(list, visited).len() <= list.len(),
        0 <= i < unasked(list, visited).len() ==> !visited.contains(unasked(list, visited)[i].id@),
    decreases list.len(),
{
    if list.len() > 0 {
        unasked_are_new(list.drop_last(), visited, i);
    }
}

/// A walk ends: every round that asks anybody uses up one of the rounds, and an
/// empty round ends it at once.
pub proof fn walks_end(w: WalkView)
    ensures
        w.rounds_left > 0 ==> w.asking().rounds_left < w.rounds_left,
        w.batch().len() == 0 ==> w.asking().rounds_left == 0,
        w.rounds_left == 0 ==> w.batch().len() == 0,
{
}

/// Whether no node is named twice.
pub open spec fn named_once(list: Seq<CommunityPeerRecord>) -> bool {
    forall|i: int, j: int|
        0 <= i < j < list.len() ==> (#[trigger] list[i]).node_pk@ != (#[trigger] list[j]).node_pk@
}

/// Merging loses no node that was reported, keeps the records that were there,
/// and names no node twice.
pub proof fn merging_keeps_every_node(
    out: Seq<CommunityPeerRecord>,
    list: Seq<CommunityPeerRecord>,
)
    ensures
        forall|pk: Seq<u8>| #[trigger]
            names_node(merged(out, list), pk) <==> names_node(out, pk) || names_node(list, pk),
        out.is_prefix_of(merged(out, list)),
        named_once(out) ==> named_once(merged(out, list)),
    decreases list.len(),
{
    let all = merged(out, list);
    if list.len() > 0 {
        let short = list.drop_last();
        let x = list.last();
        let head = merged(out, short);
        merging_keeps_every_node(out, short);
        assert forall|pk: Seq<u8>| #[trigger] names_node(all, pk) <==> names_node(out, pk)
            || names_node(list, pk) by {
            assert(names_node(list, pk) <==> names_node(short, pk) || x.node_pk@ == pk) by {
                named_after_push(short, x, pk);
                assert(short.push(x) =~= list);
            }
            assert(names_node(head, pk) <==> names_node(out, pk) || names_node(short, pk));
            named_after_push(head, x, pk);
        }
        if named_once(out) && !names_node(head, x.node_pk@) {
            assert forall|i: int, j: int| 0 <= i < j < all.len() implies (
            #[trigger] all[i]).node_pk@ != (#[trigger] all[j]).node_pk@ by {
                if j == head.len() {
                    assert(head[i].node_pk@ != x.node_pk@);
                } else {
                    assert(head[i].node_pk@ != head[j].node_pk@);
                }
            }
        }
    } else {
        assert forall|pk: Seq<u8>| #[trigger] names_node(all, pk) <==> names_node(out, pk)
            || names_node(list, pk) by {}
    }
}

/// One more record names its own node and no other.
proof fn named_after_push(list: Seq<CommunityPeerRecord>, x: CommunityPeerRecord, pk: Seq<u8>)
    ensures
        names_node(list.push(x), pk) <==> names_node(list, pk) || x.node_pk@ == pk,
{
    let all = list.push(x);
    if names_node(list, pk) {
        let i = choose|i: int| 0 <= i < list.len() && #[trigger] list[i].node_pk@ == pk;
        assert(all[i].node_pk@ == pk);
    }
    if x.node_pk@ == pk {
        assert(all[list.len() as int].node_pk@ == pk);
    }
    if names_node(all, pk) {
        let i = choose|i: int| 0 <= i < all.len() && #[trigger] all[i].node_pk@ == pk;
        if i < list.len() {
            assert(list[i].node_pk@ == pk);
        }
    }
}

} // verus!
