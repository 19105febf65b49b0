//! The order of texts, and sorting by it.
use crate::text::to_chars;
use crate::text::views;
use vstd::prelude::*;
use vstd::relations::*;
use vstd::string::*;

verus! {

/// Whether `a` comes before `b` or is the same: the order of the first characters in
/// which they differ; a text comes after its own beginnings.
pub open spec fn text_le(a: Seq<char>, b: Seq<char>) -> bool
    decreases a.len(),
{
    if a.len() == 0 {
        true
    } else if b.len() == 0 {
        false
    } else if a[0] == b[0] {
        text_le(a.drop_first(), b.drop_first())
    } else {
        a[0] < b[0]
    }
}

/// Whether `a` comes before `b` or is the same.
pub fn at_most(a: &str, b: &str) -> (r: bool)
    ensures
        r == text_le(a@, b@),
{
    let x = to_chars(a);
    let y = to_chars(b);
    let mut i: usize = 0;
    assert(x@.skip(0) =~= x@);
    assert(y@.skip(0) =~= y@);
    while i < x.len() && i < y.len()
        invariant
            i <= x@.len(),
            i <= y@.len(),
            x@ == a@,
            y@ == b@,
            text_le(x@.skip(i as int), y@.skip(i as int)) == text_le(a@, b@),
        decreases x@.len() - i,
    {
        assert(x@.skip(i as int)[0] == x@[i as int]);
        assert(y@.skip(i as int)[0] == y@[i as int]);
        if x[i] != y[i] {
            return x[i] < y[i];
        }
        assert(x@.skip(i as int).drop_first() =~= x@.skip(i + 1));
        assert(y@.skip(i as int).drop_first() =~= y@.skip(i + 1));
        i += 1;
    }
    i == x.len()
}

/// The order of texts as a relation.
pub open spec fn text_order() -> spec_fn(Seq<char>, Seq<char>) -> bool {
    |a: Seq<char>, b: Seq<char>| text_le(a, b)
}

proof fn lemma_reflexive(a: Seq<char>)
    ensures
        text_le(a, a),
    decreases a.len(),
{
    if a.len() > 0 {
        lemma_reflexive(a.drop_first());
    }
}

proof fn lemma_antisymmetric(a: Seq<char>, b: Seq<char>)
    requires
        text_le(a, b),
        text_le(b, a),
    ensures
        a == b,
    decreases a.len(),
{
    if a.len() > 0 && b.len() > 0 {
        lemma_antisymmetric(a.drop_first(), b.drop_first());
        assert(a =~= seq![a[0]] + a.drop_first());
        assert(b =~= seq![b[0]] + b.drop_first());
    } else {
        assert(a =~= b);
    }
}

proof fn lemma_transitive(a: Seq<char>, b: Seq<char>, c: Seq<char>)
    requires
        text_le(a, b),
        text_le(b, c),
    ensures
        text_le(a, c),
    decreases a.len(),
{
    if a.len() > 0 && b.len() > 0 && c.len() > 0 && a[0] == b[0] && b[0] == c[0] {
        lemma_transitive(a.drop_first(), b.drop_first(), c.drop_first());
    }
}

proof fn lemma_total(a: Seq<char>, b: Seq<char>)
    ensures
        text_le(a, b) || text_le(b, a),
    decreases a.len(),
{
    if a.len() > 0 && b.len() > 0 {
        lemma_total(a.drop_first(), b.drop_first());
    }
}

/// The order of texts is total.
pub proof fn text_order_is_total()
    ensures
        total_ordering(text_order()),
{
    let r = text_order();
    assert forall|a: Seq<char>| #[trigger] r(a, a) by {
        lemma_reflexive(a);
    }
    assert forall|a: Seq<char>, b: Seq<char>| #[trigger] r(a, b) && #[trigger] r(b, a) implies a
        == b by {
        lemma_antisymmetric(a, b);
    }
    assert forall|a: Seq<char>, b: Seq<char>, c: Seq<char>| #[trigger]
        r(a, b) && #[trigger] r(b, c) implies r(a, c) by {
        lemma_transitive(a, b, c);
    }
    assert forall|a: Seq<char>, b: Seq<char>| #[trigger] r(a, b) || #[trigger] r(b, a) by {
        lemma_total(a, b);
    }
}

/// A sorted sequence with `x` at its place, after what is equal to it.
pub open spec fn inserted(s: Seq<Seq<char>>, x: Seq<char>) -> Seq<Seq<char>>
    decreases s.len(),
{
    if s.len() == 0 || text_le(s.last(), x) {
        s.push(x)
    } else {
        inserted(s.drop_last(), x).push(s.last())
    }
}

/// The texts in order.
pub open spec fn sorted_texts(s: Seq<Seq<char>>) -> Seq<Seq<char>>
    decreases s.len(),
{
    if s.len() == 0 {
        s
    } else {
        inserted(sorted_texts(s.drop_last()), s.last())
    }
}

/// The position at which `x` goes.
pub open spec fn place_of(s: Seq<Seq<char>>, x: Seq<char>) -> int
    decreases s.len(),
{
    if s.len() == 0 || text_le(s.last(), x) {
        s.len() as int
    } else {
        place_of(s.drop_last(), x)
    }
}

/// Inserting puts `x` at its position.
pub proof fn lemma_inserted(s: Seq<Seq<char>>, x: Seq<char>)
    ensures
        0 <= place_of(s, x) <= s.len(),
        inserted(s, x) == s.insert(place_of(s, x), x),
    decreases s.len(),
{
    if s.len() == 0 || text_le(s.last(), x) {
        assert(s.insert(s.len() as int, x) =~= s.push(x));
    } else {
        lemma_inserted(s.drop_last(), x);
        let k = place_of(s, x);
        assert(s.drop_last().insert(k, x).push(s.last()) =~= s.insert(k, x));
    }
}

/// Sorting keeps the texts and puts them in order.
pub proof fn sorting_sorts(s: Seq<Seq<char>>)
    ensures
        sorted_texts(s).to_multiset() == s.to_multiset(),
        sorted_texts(s).len() == s.len(),
        sorted_by(sorted_texts(s), text_order()),
    decreases s.len(),
{
    broadcast use vstd::multiset::group_multiset_axioms;
    broadcast use vstd::seq_lib::group_to_multiset_ensures;

    if s.len() > 0 {
        let rest = s.drop_last();
        sorting_sorts(rest);
        lemma_insert_sorted(sorted_texts(rest), s.last());
        lemma_inserted(sorted_texts(rest), s.last());
        let sorted = sorted_texts(rest);
        let k = place_of(sorted, s.last());
        sorted.insert_ensures(k, s.last());
        assert(s =~= rest.push(s.last()));
        vstd::seq_lib::to_multiset_build(rest, s.last());
        vstd::seq_lib::to_multiset_insert(sorted, k, s.last());
        assert(sorted_texts(s).to_multiset() =~= s.to_multiset());
    }
}

proof fn lemma_insert_sorted(s: Seq<Seq<char>>, x: Seq<char>)
    requires
        sorted_by(s, text_order()),
    ensures
        sorted_by(inserted(s, x), text_order()),
    decreases s.len(),
{
    text_order_is_total();
    let r = text_order();
    let t = inserted(s, x);
    lemma_inserted(s, x);
    let k = place_of(s, x);
    lemma_place(s, x);
    assert forall|i: int, j: int| 0 <= i < j < t.len() implies #[trigger] r(t[i], t[j]) by {
        let a = if i < k {
            i
        } else {
            i - 1
        };
        let b = if j < k {
            j
        } else {
            j - 1
        };
        if i != k && j != k {
            assert(t[i] == s[a]);
            assert(t[j] == s[b]);
            assert(r(s[a], s[b]));
        } else if i == k {
            assert(t[j] == s[b]);
            assert(r(x, s[b]));
        } else {
            assert(t[i] == s[a]);
            assert(r(s[a], x));
        }
    }
}

proof fn lemma_place(s: Seq<Seq<char>>, x: Seq<char>)
    requires
        sorted_by(s, text_order()),
    ensures
        forall|i: int| 0 <= i < place_of(s, x) ==> text_order()(#[trigger] s[i], x),
        forall|i: int| place_of(s, x) <= i < s.len() ==> text_order()(x, #[trigger] s[i]),
    decreases s.len(),
{
    text_order_is_total();
    let r = text_order();
    lemma_inserted(s, x);
    if s.len() > 0 {
        if text_le(s.last(), x) {
            assert forall|i: int| 0 <= i < s.len() implies r(#[trigger] s[i], x) by {
                if i < s.len() - 1 {
                    assert(r(s[i], s[s.len() - 1]));
                }
                assert(r(s[s.len() - 1], x));
            }
        } else {
            let t = s.drop_last();
            assert forall|i: int, j: int| 0 <= i < j < t.len() implies #[trigger] r(
                t[i],
                t[j],
            ) by {
                assert(r(s[i], s[j]));
            }
            lemma_place(t, x);
            lemma_inserted(t, x);
            assert(r(s.last(), x) || r(x, s.last()));
            assert forall|i: int| place_of(s, x) <= i < s.len() implies r(x, #[trigger] s[i]) by {
                if i < s.len() - 1 {
                    assert(t[i] == s[i]);
                    assert(r(x, t[i]));
                }
            }
            assert forall|i: int| 0 <= i < place_of(s, x) implies r(#[trigger] s[i], x) by {
                assert(t[i] == s[i]);
                assert(r(t[i], x));
            }
        }
    }
}

/// Texts in another order sort to the same sequence.
pub proof fn sorting_forgets_order(a: Seq<Seq<char>>, b: Seq<Seq<char>>)
    requires
        a.to_multiset() == b.to_multiset(),
    ensures
        sorted_texts(a) == sorted_texts(b),
{
    text_order_is_total();
    sorting_sorts(a);
    sorting_sorts(b);
    vstd::seq_lib::lemma_sorted_unique(sorted_texts(a), sorted_texts(b), text_order());
}

/// The position at which `x` goes in a sorted list.
pub fn place(list: &Vec<String>, x: &str) -> (r: usize)
    ensures
        r == place_of(views(list@), x@),
        r <= list@.len(),
{
    let mut i: usize = list.len();
    assert(views(list@).take(i as int) =~= views(list@));
    while i > 0
        invariant
            i <= list@.len(),
            place_of(views(list@).take(i as int), x@) == place_of(views(list@), x@),
        decreases i,
    {
        let ghost part = views(list@).take(i as int);
        assert(part.last() == list@[i - 1]@);
        assert(part.drop_last() =~= views(list@).take(i - 1));
        if at_most(list[i - 1].as_str(), x) {
            return i;
        }
        i -= 1;
    }
    0
}

/// The texts in order.
pub fn sort(list: Vec<String>) -> (r: Vec<String>)
    ensures
        views(r@) == sorted_texts(views(list@)),
{
    let mut out: Vec<String> = Vec::new();
    let mut i: usize = 0;
    assert(views(out@) =~= views(list@).take(0));
    while i < list.len()
        invariant
            i <= list@.len(),
            views(out@) == sorted_texts(views(list@).take(i as int)),
        decreases list@.len() - i,
    {
        let ghost part = views(list@).take(i + 1);
        assert(part.drop_last() =~= views(list@).take(i as int));
        assert(part.last() == list@[i as int]@);
        let k = place(&out, list[i].as_str());
        let ghost before = out@;
        let copy = list[i].clone();
        out.insert(k, copy);
        proof {
            lemma_inserted(views(before), copy@);
            assert(views(out@) =~= views(before).insert(k as int, copy@));
        }
        i += 1;
    }
    assert(views(list@).take(i as int) =~= views(list@));
    out
}

} // verus!
