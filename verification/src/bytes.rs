//! The size of texts in bytes, and texts cut to a size.
use crate::text::slice;
use crate::text::to_chars;
use vstd::prelude::*;
use vstd::string::*;
use vstd::utf8::*;

verus! {

/// The bytes of two texts in a row are the bytes of each in a row.
pub proof fn lemma_encode_concat(a: Seq<char>, b: Seq<char>)
    ensures
        encode_utf8(a + b) == encode_utf8(a) + encode_utf8(b),
    decreases a.len(),
{
    if a.len() == 0 {
        assert(a + b =~= b);
        assert(encode_utf8(a) + encode_utf8(b) =~= encode_utf8(b));
    } else {
        assert((a + b).drop_first() =~= a.drop_first() + b);
        lemma_encode_concat(a.drop_first(), b);
        assert(encode_utf8(a + b) =~= encode_utf8(a) + encode_utf8(b));
    }
}

/// How many bytes a text takes.
pub open spec fn size_of(text: Seq<char>) -> int {
    encode_utf8(text).len() as int
}

/// How many bytes a text takes.
pub fn size(text: &str) -> (r: usize)
    ensures
        r == size_of(text@),
{
    text.as_bytes().len()
}

/// How many of the first `count` characters of a text fit into `budget` bytes.
pub open spec fn fitting(text: Seq<char>, budget: int, count: int) -> int
    decreases count,
{
    if count <= 0 {
        0
    } else if size_of(text.take(count)) <= budget {
        count
    } else {
        fitting(text, budget, count - 1)
    }
}

/// The longest beginning of a text that fits into `budget` bytes.
pub open spec fn cut_of(text: Seq<char>, budget: int) -> Seq<char> {
    text.take(fitting(text, budget, text.len() as int))
}

/// What fits is no longer than the text, and fits.
pub proof fn cut_fits(text: Seq<char>, budget: int)
    requires
        budget >= 0,
    ensures
        0 <= fitting(text, budget, text.len() as int) <= text.len(),
        size_of(cut_of(text, budget)) <= budget,
{
    lemma_fitting(text, budget, text.len() as int);
}

proof fn lemma_fitting(text: Seq<char>, budget: int, count: int)
    requires
        budget >= 0,
        0 <= count <= text.len(),
    ensures
        0 <= fitting(text, budget, count) <= count,
        size_of(text.take(fitting(text, budget, count))) <= budget,
    decreases count,
{
    if count > 0 && size_of(text.take(count)) > budget {
        lemma_fitting(text, budget, count - 1);
    } else if count == 0 {
        assert(text.take(0) =~= Seq::<char>::empty());
    }
}

proof fn lemma_fitting_is(text: Seq<char>, budget: int, k: int, count: int)
    requires
        0 <= k <= count <= text.len(),
        k > 0 ==> size_of(text.take(k)) <= budget,
        forall|m: int| k < m <= count ==> size_of(#[trigger] text.take(m)) > budget,
    ensures
        fitting(text, budget, count) == k,
    decreases count - k,
{
    if count > k {
        assert(size_of(text.take(count)) > budget);
        lemma_fitting_is(text, budget, k, count - 1);
    }
}

fn width(c: char) -> (r: usize)
    ensures
        r == encode_scalar(c as u32).len(),
        1 <= r <= 4,
{
    let u: u32 = c as u32;
    if u <= 0x7f {
        1
    } else if u <= 0x7ff {
        2
    } else if u <= 0xffff {
        3
    } else {
        4
    }
}

proof fn lemma_size_push(text: Seq<char>, c: char)
    ensures
        size_of(text.push(c)) == size_of(text) + encode_scalar(c as u32).len(),
{
    assert(text.push(c) =~= text + seq![c]);
    lemma_encode_concat(text, seq![c]);
    assert(seq![c].drop_first() =~= Seq::<char>::empty());
    assert(encode_utf8(seq![c].drop_first()) =~= Seq::<u8>::empty());
    assert(encode_utf8(seq![c]) =~= encode_scalar(c as u32));
}

proof fn lemma_size_grows(text: Seq<char>, k: int, m: int)
    requires
        0 <= k <= m <= text.len(),
    ensures
        size_of(text.take(k)) <= size_of(text.take(m)),
{
    assert(text.take(m) =~= text.take(k) + text.subrange(k, m));
    lemma_encode_concat(text.take(k), text.subrange(k, m));
}

/// The longest beginning of a text that fits into `budget` bytes.
pub fn cut(text: &str, budget: usize) -> (r: String)
    ensures
        r@ == cut_of(text@, budget as int),
{
    let chars = to_chars(text);
    let count: usize = chars.len();
    let mut used: usize = 0;
    let mut k: usize = 0;
    assert(text@.take(0) =~= Seq::<char>::empty());
    while k < count
        invariant_except_break
            used <= budget,
        invariant
            k <= count == chars@.len(),
            chars@ == text@,
            used == size_of(text@.take(k as int)),
            used <= budget,
        ensures
            k < count ==> size_of(text@.take(k + 1)) > budget,
        decreases count - k,
    {
        let w: usize = width(chars[k]);
        proof {
            assert(text@.take(k + 1) =~= text@.take(k as int).push(text@[k as int]));
            lemma_size_push(text@.take(k as int), text@[k as int]);
        }
        if w > budget - used {
            break;
        }
        used += w;
        k += 1;
    }
    proof {
        assert forall|m: int| k < m <= count implies size_of(#[trigger] text@.take(m))
            > budget by {
            lemma_size_grows(text@, k + 1, m);
        }
        lemma_fitting_is(text@, budget as int, k as int, count as int);
        assert(text@.take(k as int) =~= chars@.subrange(0, k as int));
    }
    slice(&chars, 0, k)
}

/// The text that bytes hold, with a mark in place of what is no text.
pub uninterp spec fn lossy_text(bytes: Seq<u8>) -> Seq<char>;

/// `String::from_utf8_lossy`: bytes that are text are that text; elsewhere there are marks
/// in place of what is none.
#[verifier::external_body]
pub(crate) fn lossy(bytes: &[u8]) -> (r: String)
    ensures
        r@ == lossy_text(bytes@),
        valid_utf8(bytes@) ==> r@ == decode_utf8(bytes@),
{
    String::from_utf8_lossy(bytes).into_owned()
}

/// Adds a part of some bytes to others.
pub fn append_range(buffer: &mut Vec<u8>, bytes: &[u8], lo: usize, hi: usize)
    requires
        lo <= hi <= bytes@.len(),
    ensures
        final(buffer)@ == old(buffer)@ + bytes@.subrange(lo as int, hi as int),
{
    let ghost before = buffer@;
    let mut i: usize = lo;
    assert(before + bytes@.subrange(lo as int, lo as int) =~= before);
    while i < hi
        invariant
            lo <= i <= hi <= bytes@.len(),
            buffer@ == before + bytes@.subrange(lo as int, i as int),
        decreases hi - i,
    {
        buffer.push(bytes[i]);
        i += 1;
        assert(buffer@ =~= before + bytes@.subrange(lo as int, i as int));
    }
}

/// A copy of a part of some bytes.
pub fn copy_range(bytes: &[u8], lo: usize, hi: usize) -> (r: Vec<u8>)
    requires
        lo <= hi <= bytes@.len(),
    ensures
        r@ == bytes@.subrange(lo as int, hi as int),
{
    let mut out: Vec<u8> = Vec::new();
    append_range(&mut out, bytes, lo, hi);
    assert(out@ =~= bytes@.subrange(lo as int, hi as int));
    out
}

/// The number that four bytes stand for, the least first.
pub open spec fn le_value(bytes: Seq<u8>) -> int {
    bytes[0] + 256 * bytes[1] + 65536 * bytes[2] + 16777216 * bytes[3]
}

/// The four bytes of a number, the least first.
pub open spec fn le_bytes(n: u32) -> Seq<u8> {
    seq![
        (n % 256) as u8,
        (n / 256 % 256) as u8,
        (n / 65536 % 256) as u8,
        (n / 16777216) as u8,
    ]
}

/// The four bytes of a number, the least first.
pub fn to_le(n: u32) -> (r: Vec<u8>)
    ensures
        r@ == le_bytes(n),
{
    let mut out: Vec<u8> = Vec::new();
    out.push((n % 256) as u8);
    out.push((n / 256 % 256) as u8);
    out.push((n / 65536 % 256) as u8);
    out.push((n / 16777216) as u8);
    assert(out@ =~= le_bytes(n));
    out
}

/// The number that the four bytes from `at` on stand for, the least first.
pub fn from_le(bytes: &[u8], at: usize) -> (r: u32)
    requires
        at + 4 <= bytes@.len(),
    ensures
        r == le_value(bytes@.subrange(at as int, at + 4)),
{
    let a: u32 = bytes[at] as u32;
    let b: u32 = bytes[at + 1] as u32;
    let c: u32 = bytes[at + 2] as u32;
    let d: u32 = bytes[at + 3] as u32;
    a + 256 * b + 65536 * c + 16777216 * d
}

/// A number is read back from its bytes.
pub proof fn le_round_trip(n: u32)
    ensures
        le_value(le_bytes(n)) == n,
{
    let a = n % 256;
    let b = n / 256 % 256;
    let c = n / 65536 % 256;
    let d = n / 16777216;
    assert(n / 256 / 256 == n / 65536);
    assert(n / 65536 / 256 == n / 16777216);
    assert(a + 256 * b + 65536 * c + 16777216 * d == n);
}

} // verus!
