//! Vectors seen through the deep views of their items.

use vstd::prelude::*;
use vstd::string::*;

verus! {

/// The deep views of a sequence of values.
pub open spec fn views<T: DeepView>(s: Seq<T>) -> Seq<T::V> {
    Seq::new(s.len(), |i: int| s[i].deep_view())
}

/// A vector's deep view lists the deep views of its items.
pub broadcast proof fn vec_deep_view<T: DeepView>(v: Vec<T>)
    ensures
        #[trigger] v.deep_view() == views(v@),
{
    assert(v.deep_view() =~= views(v@));
}

/// A byte array's deep view is its view.
pub broadcast proof fn array_deep_view<const N: usize>(a: [u8; N])
    ensures
        #[trigger] a.deep_view() == a@,
{
    assert(a.deep_view() =~= a@);
}

/// A byte vector's deep view is its view.
pub broadcast proof fn bytes_deep_view(v: Vec<u8>)
    ensures
        #[trigger] v.deep_view() == v@,
{
    assert(v.deep_view() =~= v@);
}

/// Pushing an item pushes its deep view.
pub broadcast proof fn views_push<T: DeepView>(s: Seq<T>, x: T)
    ensures
        #[trigger] views(s.push(x)) == views(s).push(x.deep_view()),
{
    assert(views(s.push(x)) =~= views(s).push(x.deep_view()));
}

/// A copy of a vector of plain values.
pub fn copy_all<T: Copy>(v: &Vec<T>) -> (r: Vec<T>)
    ensures
        r@ == v@,
{
    let mut out: Vec<T> = Vec::new();
    let mut i: usize = 0;
    while i < v.len()
        invariant
            i <= v@.len(),
            out@ == v@.subrange(0, i as int),
        decreases v@.len() - i,
    {
        out.push(v[i]);
        i += 1;
        assert(out@ =~= v@.subrange(0, i as int));
    }
    assert(out@ =~= v@);
    out
}

/// A copy of a list of strings.
pub fn copy_texts(v: &Vec<String>) -> (r: Vec<String>)
    ensures
        r.deep_view() == v.deep_view(),
        r@ == v@,
{
    let mut out: Vec<String> = Vec::new();
    let mut i: usize = 0;
    while i < v.len()
        invariant
            i <= v@.len(),
            out@ == v@.subrange(0, i as int),
        decreases v@.len() - i,
    {
        out.push(v[i].clone());
        i += 1;
        assert(out@ =~= v@.subrange(0, i as int));
    }
    assert(out@ =~= v@);
    out
}

/// A copy of an optional string.
pub fn copy_text_opt(v: &Option<String>) -> (r: Option<String>)
    ensures
        r == *v,
{
    match v {
        Some(s) => Some(s.clone()),
        None => None,
    }
}

/// Whether `s` is one of the strings of `v`.
pub fn has_text(v: &Vec<String>, s: &str) -> (r: bool)
    ensures
        r == v.deep_view().contains(s@),
{
    let mut i: usize = 0;
    while i < v.len()
        invariant
            i <= v@.len(),
            forall|j: int| 0 <= j < i ==> v@[j]@ != s@,
        decreases v@.len() - i,
    {
        if crate::text::same_text(v[i].as_str(), s) {
            assert(v.deep_view()[i as int] == s@);
            return true;
        }
        i += 1;
    }
    assert(!v.deep_view().contains(s@));
    false
}

/// Add `s` to `v` unless it is there already.
pub fn add_text(v: &mut Vec<String>, s: &str)
    ensures
        final(v).deep_view() == with_text(old(v).deep_view(), s@),
{
    broadcast use vec_deep_view, views_push;

    if !has_text(v, s) {
        v.push(crate::text::text(s));
    }
}

/// `v` with `s` added at the end, unless it is there already.
pub open spec fn with_text(v: Seq<Seq<char>>, s: Seq<char>) -> Seq<Seq<char>> {
    if v.contains(s) {
        v
    } else {
        v.push(s)
    }
}

/// `v` without any occurrence of `s`.
pub open spec fn without_text(v: Seq<Seq<char>>, s: Seq<char>) -> Seq<Seq<char>> {
    v.filter(|t: Seq<char>| t != s)
}

/// Drop every occurrence of `s` from `v`.
pub fn remove_text(v: &mut Vec<String>, s: &str)
    ensures
        final(v).deep_view() == without_text(old(v).deep_view(), s@),
{
    broadcast use vec_deep_view, views_push;

    let ghost all = v.deep_view();
    let ghost keep = |t: Seq<char>| t != s@;
    let mut out: Vec<String> = Vec::new();
    let mut i: usize = 0;
    while i < v.len()
        invariant
            i <= v@.len(),
            all == v.deep_view(),
            keep == (|t: Seq<char>| t != s@),
            out.deep_view() == all.subrange(0, i as int).filter(keep),
        decreases v@.len() - i,
    {
        let item = v[i].clone();
        assert(all.subrange(0, i + 1).drop_last() =~= all.subrange(0, i as int));
        reveal(Seq::filter);
        if !crate::text::same_text(item.as_str(), s) {
            out.push(item);
        }
        i += 1;
    }
    assert(all.subrange(0, all.len() as int) =~= all);
    *v = out;
}

/// What [`remove_text`] leaves: nothing equal to `s`, and every other item.
pub proof fn without_text_membership(v: Seq<Seq<char>>, s: Seq<char>, t: Seq<char>)
    ensures
        without_text(v, s).contains(t) <==> v.contains(t) && t != s,
    decreases v.len(),
{
    reveal(Seq::filter);
    if v.len() > 0 {
        let keep = |x: Seq<char>| x != s;
        without_text_membership(v.drop_last(), s, t);
        let head = v.drop_last().filter(keep);
        assert(v.contains(t) <==> v.drop_last().contains(t) || v.last() == t) by {
            if v.contains(t) {
                let i = v.index_of(t);
                if i < v.len() - 1 {
                    assert(v.drop_last()[i] == t);
                }
            }
            if v.drop_last().contains(t) {
                let i = v.drop_last().index_of(t);
                assert(v[i] == t);
            }
        }
        if keep(v.last()) {
            assert(head.push(v.last()).contains(t) <==> head.contains(t) || v.last() == t) by {
                if head.contains(t) {
                    let i = head.index_of(t);
                    assert(head.push(v.last())[i] == t);
                }
                assert(head.push(v.last())[head.len() as int] == v.last());
            }
        }
    }
}

} // verus!
