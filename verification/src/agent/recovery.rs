//! Joining the text of a resumed generation to what was already shown.
//!
//! After a dropped stream a provider often replays text that it had sent before.
//! The functions here find how much of a replay is already there.
use crate::bytes::lemma_encode_concat;
use crate::text::has_prefix;
use crate::text::starts_with;
use vstd::prelude::*;
use vstd::string::*;
use vstd::utf8::*;

verus! {

/// The least number of bytes that counts as a replay of the end of a text.
pub const MIN_RECOVERY_OVERLAP_BYTES: usize = 8;

/// Whether the last `m` bytes of `t` are the first `m` bytes of `p`.
pub open spec fn shared(t: Seq<u8>, p: Seq<u8>, m: int) -> bool {
    &&& 0 <= m <= t.len()
    &&& m <= p.len()
    &&& t.subrange(t.len() - m, t.len() as int) == p.subrange(0, m)
}

/// Whether `replayed` starts with the last `m` bytes of `existing`, where `m` bytes are
/// whole characters of both.
pub open spec fn replays(existing: Seq<char>, replayed: Seq<char>, m: int) -> bool {
    let e = encode_utf8(existing);
    let p = encode_utf8(replayed);
    &&& shared(e, p, m)
    &&& is_char_boundary(p, m)
    &&& is_char_boundary(e, e.len() - m)
}

/// The largest `m` up to `bound` for which `replays` holds, or 0.
pub open spec fn longest_replay(existing: Seq<char>, replayed: Seq<char>, bound: int) -> int
    decreases bound,
{
    if bound <= 0 {
        0
    } else if replays(existing, replayed, bound) {
        bound
    } else {
        longest_replay(existing, replayed, bound - 1)
    }
}

/// How many bytes of `replayed` are already at the end of `existing`.
pub open spec fn overlap_of(existing: Seq<char>, replayed: Seq<char>) -> int {
    let whole = encode_utf8(replayed).len() as int;
    if existing.len() == 0 || replayed.len() == 0 {
        0
    } else if has_prefix(replayed, existing) {
        encode_utf8(existing).len() as int
    } else if has_prefix(existing, replayed) {
        whole
    } else if longest_replay(existing, replayed, whole) >= MIN_RECOVERY_OVERLAP_BYTES {
        longest_replay(existing, replayed, whole)
    } else {
        0
    }
}

/// `q` is the largest number below `lim` of bytes that `t` and `p` share.
spec fn best(t: Seq<u8>, p: Seq<u8>, q: int, lim: int) -> bool {
    &&& q < lim
    &&& shared(t, p, q)
    &&& forall|m: int| q < m < lim ==> !#[trigger] shared(t, p, m)
}

/// Entry `j` of `table` is the longest proper border of the first `j + 1` bytes of `p`.
spec fn table_ok(p: Seq<u8>, table: Seq<usize>, count: int) -> bool {
    &&& count <= table.len()
    &&& count <= p.len()
    &&& forall|j: int|
        0 <= j < count ==> best(p.subrange(0, j + 1), p, #[trigger] table[j] as int, j + 1)
}

proof fn lemma_shared_chain(t: Seq<u8>, p: Seq<u8>, q: int, m: int)
    requires
        shared(t, p, q),
        0 <= m < q,
    ensures
        shared(t, p, m) == shared(p.subrange(0, q), p, m),
{
    let u = p.subrange(0, q);
    assert(t.subrange(t.len() - q, t.len() as int) == u);
    assert(t.subrange(t.len() - m, t.len() as int) =~= u.subrange(q - m, q));
}

proof fn lemma_shared_push(t: Seq<u8>, p: Seq<u8>, b: u8, m: int)
    requires
        0 <= m,
    ensures
        shared(t.push(b), p, m + 1) == (m < p.len() && shared(t, p, m) && p[m] == b),
{
    let tb = t.push(b);
    if m + 1 <= tb.len() && m < p.len() {
        let x = tb.subrange(tb.len() - (m + 1), tb.len() as int);
        let y = p.subrange(0, m + 1);
        assert(x.subrange(0, m) =~= t.subrange(t.len() - m, t.len() as int));
        assert(y.subrange(0, m) =~= p.subrange(0, m));
        assert(x[m] == b);
        assert(y[m] == p[m]);
        if x == y {
        } else if shared(t, p, m) && p[m] == b {
            assert forall|i: int| 0 <= i < x.len() implies x[i] == y[i] by {
                if i < m {
                    assert(x.subrange(0, m)[i] == x[i]);
                    assert(y.subrange(0, m)[i] == y[i]);
                }
            }
            assert(x =~= y);
        }
    }
}

proof fn lemma_longest(existing: Seq<char>, replayed: Seq<char>, q: int, bound: int)
    requires
        0 <= q <= bound,
        q > 0 ==> replays(existing, replayed, q),
        forall|m: int| q < m <= bound ==> !#[trigger] replays(existing, replayed, m),
    ensures
        longest_replay(existing, replayed, bound) == q,
    decreases bound - q,
{
    if bound > q {
        assert(!replays(existing, replayed, bound));
        lemma_longest(existing, replayed, q, bound - 1);
    }
}

/// One step of the scan: from the longest share of `t` and `p` below `lim` to that of
/// `t` followed by `b` up to `lim`.
fn step(p: &[u8], table: &Vec<usize>, q0: usize, b: u8, Ghost(t): Ghost<Seq<u8>>, Ghost(lim): Ghost<int>) -> (r: usize)
    requires
        1 <= lim <= p@.len(),
        best(t, p@, q0 as int, lim),
        table_ok(p@, table@, lim),
    ensures
        best(t.push(b), p@, r as int, lim + 1),
{
    let mut q: usize = q0;
    while q > 0 && b != p[q as usize]
        invariant
            1 <= lim <= p@.len(),
            0 <= q < lim,
            shared(t, p@, q as int),
            forall|m: int| q < m < lim && #[trigger] shared(t, p@, m) ==> p@[m] != b,
            table_ok(p@, table@, lim),
        decreases q,
    {
        let next: usize = table[q - 1];
        proof {
            let u = p@.subrange(0, q as int);
            assert(best(u, p@, next as int, q as int));
            lemma_shared_chain(t, p@, q as int, next as int);
            assert forall|m: int| next < m < lim && #[trigger] shared(t, p@, m) implies p@[m]
                != b by {
                if m < q {
                    lemma_shared_chain(t, p@, q as int, m);
                    assert(!shared(u, p@, m));
                } else if m == q {
                }
            }
        }
        q = next;
    }
    let ghost found = b == p@[q as int];
    if b == p[q] {
        q += 1;
    }
    proof {
        let r = q as int;
        assert forall|m: int| r < m < lim + 1 implies !#[trigger] shared(t.push(b), p@, m) by {
            lemma_shared_push(t, p@, b, m - 1);
        }
        if found {
            lemma_shared_push(t, p@, b, r - 1);
        } else {
            assert(t.push(b).subrange(t.push(b).len() as int, t.push(b).len() as int) =~= p@.subrange(0, 0));
        }
    }
    q
}

/// The table of longest proper borders of the prefixes of `p`.
fn border_table(p: &[u8]) -> (table: Vec<usize>)
    requires
        p@.len() > 0,
    ensures
        table@.len() == p@.len(),
        table_ok(p@, table@, p@.len() as int),
{
    let mut table: Vec<usize> = Vec::new();
    table.push(0);
    proof {
        assert(p@.subrange(0, 1).subrange(1, 1) =~= p@.subrange(0, 0));
    }
    let mut i: usize = 1;
    while i < p.len()
        invariant
            1 <= i <= p@.len(),
            table@.len() == i,
            table_ok(p@, table@, i as int),
        decreases p@.len() - i,
    {
        let before: usize = table[i - 1];
        let ghost old_table = table@;
        let next = step(
            p,
            &table,
            before,
            p[i],
            Ghost(p@.subrange(0, i as int)),
            Ghost(i as int),
        );
        table.push(next);
        proof {
            assert(p@.subrange(0, i as int).push(p@[i as int]) =~= p@.subrange(0, i + 1));
            assert forall|j: int| 0 <= j < i + 1 implies best(
                p@.subrange(0, j + 1),
                p@,
                #[trigger] table@[j] as int,
                j + 1,
            ) by {
                if j < i {
                    assert(table@[j] == old_table[j]);
                }
            }
        }
        i += 1;
    }
    table
}

/// How many bytes at the start of `replayed` are already at the end of `existing`.
///
/// A replay of everything, or of the beginning, counts whole. Otherwise the longest
/// share of the end of `existing` and the start of `replayed` counts, where it is at
/// least [`MIN_RECOVERY_OVERLAP_BYTES`] long. The scan is linear in both texts.
pub fn recovery_overlap_bytes(existing: &str, replayed: &str) -> (r: usize)
    ensures
        r == overlap_of(existing@, replayed@),
        r <= encode_utf8(replayed@).len(),
        is_char_boundary(encode_utf8(replayed@), r as int),
{
    proof {
        lemma_prefix_bytes(replayed@, existing@);
        encode_utf8_valid_utf8(replayed@);
        encode_utf8_valid_utf8(existing@);
        is_char_boundary_start_end_of_seq(encode_utf8(replayed@));
    }
    if existing.is_empty() || replayed.is_empty() {
        return 0;
    }
    if starts_with(replayed, existing) {
        return existing.as_bytes().len();
    }
    if starts_with(existing, replayed) {
        return replayed.as_bytes().len();
    }
    let p = replayed.as_bytes();
    let e = existing.as_bytes();
    proof {
        lemma_not_empty(replayed@);
        lemma_not_empty(existing@);
    }
    let table = border_table(p);
    let mut matched: usize = 0;
    let mut i: usize = 0;
    proof {
        assert(e@.subrange(0, 0).subrange(0, 0) =~= p@.subrange(0, 0));
    }
    while i < e.len()
        invariant
            i <= e@.len(),
            e@.len() > 0,
            p@.len() > 0,
            table@.len() == p@.len(),
            table_ok(p@, table@, p@.len() as int),
            i < e@.len() ==> best(e@.subrange(0, i as int), p@, matched as int, p@.len() as int),
            i == e@.len() ==> best(e@, p@, matched as int, p@.len() as int + 1),
        decreases e@.len() - i,
    {
        let ghost t = e@.subrange(0, i as int);
        matched = step(p, &table, matched, e[i], Ghost(t), Ghost(p@.len() as int));
        let ghost tb = e@.subrange(0, i + 1);
        proof {
            assert(t.push(e@[i as int]) =~= tb);
        }
        if matched == p.len() && i + 1 < e.len() {
            let next: usize = table[matched - 1];
            proof {
                assert(p@.subrange(0, matched as int) =~= p@);
                assert(best(p@, p@, next as int, matched as int));
                lemma_shared_chain(tb, p@, matched as int, next as int);
                assert forall|m: int| next < m < p@.len() implies !#[trigger] shared(tb, p@, m) by {
                    lemma_shared_chain(tb, p@, matched as int, m);
                }
            }
            matched = next;
        }
        i += 1;
        proof {
            if i == e@.len() {
                assert(tb =~= e@);
            }
        }
    }
    let ghost whole = p@.len() as int;
    while matched > 0 && (!replayed.is_char_boundary(matched) || !existing.is_char_boundary(
        e.len() - matched,
    ))
        invariant
            p@ == encode_utf8(replayed@),
            e@ == encode_utf8(existing@),
            p@.len() > 0,
            whole == p@.len(),
            table@.len() == p@.len(),
            table_ok(p@, table@, p@.len() as int),
            matched <= whole,
            shared(e@, p@, matched as int),
            forall|m: int|
                matched < m <= whole ==> !#[trigger] replays(existing@, replayed@, m),
        decreases matched,
    {
        let next: usize = table[matched - 1];
        proof {
            let u = p@.subrange(0, matched as int);
            assert(best(u, p@, next as int, matched as int));
            lemma_shared_chain(e@, p@, matched as int, next as int);
            assert forall|m: int| next < m <= whole implies !#[trigger] replays(
                existing@,
                replayed@,
                m,
            ) by {
                if m < matched {
                    lemma_shared_chain(e@, p@, matched as int, m);
                    assert(!shared(u, p@, m));
                }
            }
        }
        matched = next;
    }
    proof {
        lemma_longest(existing@, replayed@, matched as int, whole);
    }
    if matched >= MIN_RECOVERY_OVERLAP_BYTES {
        matched
    } else {
        0
    }
}

proof fn lemma_not_empty(s: Seq<char>)
    requires
        s.len() > 0,
    ensures
        encode_utf8(s).len() > 0,
{
}

proof fn lemma_prefix_bytes(s: Seq<char>, p: Seq<char>)
    ensures
        has_prefix(s, p) ==> encode_utf8(p).len() <= encode_utf8(s).len() && is_char_boundary(
            encode_utf8(s),
            encode_utf8(p).len() as int,
        ),
{
    if has_prefix(s, p) {
        let rest = s.subrange(p.len() as int, s.len() as int);
        assert(s =~= p + rest);
        lemma_encode_concat(p, rest);
        lemma_boundary_concat(p, rest);
    }
}

proof fn lemma_boundary_concat(a: Seq<char>, b: Seq<char>)
    ensures
        is_char_boundary(encode_utf8(a + b), encode_utf8(a).len() as int),
    decreases a.len(),
{
    encode_utf8_valid_utf8(a + b);
    is_char_boundary_start_end_of_seq(encode_utf8(a + b));
    if a.len() > 0 {
        let s = a + b;
        assert(s.drop_first() =~= a.drop_first() + b);
        lemma_boundary_concat(a.drop_first(), b);
        encode_utf8_first_scalar(s);
        assert(pop_first_scalar(encode_utf8(s)) =~= encode_utf8(s.drop_first()));
    }
}

} // verus!
