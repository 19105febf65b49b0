//! Text as sequences of Unicode scalar values: the handful of string
//! operations that the rest of the library is written with.
use vstd::prelude::*;
use vstd::string::*;
use vstd::utf8::*;

verus! {

/// The views of a sequence of values, one for one.
pub open spec fn views<T: View>(items: Seq<T>) -> Seq<T::V> {
    Seq::new(items.len(), |i: int| items[i]@)
}

/// The view of an optional value.
pub open spec fn opt_view<T: View>(item: Option<T>) -> Option<T::V> {
    match item {
        Some(value) => Some(value@),
        None => None,
    }
}

/// Pushing a value pushes its view.
pub broadcast proof fn views_push<T: View>(items: Seq<T>, item: T)
    ensures
        #[trigger] views(items.push(item)) == views(items).push(item@),
{
    assert(views(items.push(item)) =~= views(items).push(item@));
}

/// Joining two sequences joins their views.
pub proof fn views_add<T: View>(a: Seq<T>, b: Seq<T>)
    ensures
        views(a + b) == views(a) + views(b),
{
    assert(views(a + b) =~= views(a) + views(b));
}

/// `String::push` of std appends one character.
pub assume_specification[ String::push ](s: &mut String, c: char)
    ensures
        final(s)@ == old(s)@.push(c),
;

/// The characters of `text`, in order.
pub fn to_chars(text: &str) -> (r: Vec<char>)
    ensures
        r@ == text@,
{
    let mut out: Vec<char> = Vec::new();
    for c in it: text.chars()
        invariant
            it.seq() == text@,
            out@ == text@.take(it.index() as int),
    {
        proof {
            assert(text@.take(it.index() as int + 1) =~= text@.take(it.index() as int).push(c));
        }
        out.push(c);
    }
    proof {
        assert(text@.take(text@.len() as int) =~= text@);
    }
    out
}

/// The string of the characters at positions `lo..hi`.
pub fn slice(chars: &Vec<char>, lo: usize, hi: usize) -> (r: String)
    requires
        lo <= hi <= chars@.len(),
    ensures
        r@ == chars@.subrange(lo as int, hi as int),
{
    let mut out = String::new();
    let mut i: usize = lo;
    while i < hi
        invariant
            lo <= i <= hi <= chars@.len(),
            out@ == chars@.subrange(lo as int, i as int),
        decreases hi - i,
    {
        out.push(chars[i]);
        i += 1;
        assert(out@ =~= chars@.subrange(lo as int, i as int));
    }
    out
}

/// The string of all of `chars`.
pub fn from_chars(chars: &Vec<char>) -> (r: String)
    ensures
        r@ == chars@,
{
    let r = slice(chars, 0, chars.len());
    assert(chars@.subrange(0, chars@.len() as int) =~= chars@);
    r
}

/// A string of its own with the contents of `text`.
pub fn owned(text: &str) -> (r: String)
    ensures
        r@ == text@,
{
    text.to_owned()
}

/// Two texts with the same UTF-8 bytes are the same text.
pub proof fn lemma_bytes_determine_text(a: Seq<char>, b: Seq<char>)
    requires
        encode_utf8(a) == encode_utf8(b),
    ensures
        a == b,
{
    encode_utf8_decode_utf8(a);
    encode_utf8_decode_utf8(b);
}

/// Whether two texts are equal.
pub fn same(a: &str, b: &str) -> (r: bool)
    ensures
        r == (a@ == b@),
{
    let x = a.as_bytes();
    let y = b.as_bytes();
    if x.len() != y.len() {
        return false;
    }
    let mut i: usize = 0;
    while i < x.len()
        invariant
            x@.len() == y@.len(),
            i <= x@.len(),
            x@ == encode_utf8(a@),
            y@ == encode_utf8(b@),
            forall|j: int| 0 <= j < i ==> x@[j] == y@[j],
        decreases x@.len() - i,
    {
        if x[i] != y[i] {
            return false;
        }
        i += 1;
    }
    proof {
        assert(x@ =~= y@);
        lemma_bytes_determine_text(a@, b@);
    }
    true
}

/// Whether two lists hold the same texts in the same order.
pub fn same_list(a: &Vec<String>, b: &Vec<String>) -> (r: bool)
    ensures
        r == (views(a@) == views(b@)),
{
    if a.len() != b.len() {
        proof {
            assert(views(a@).len() != views(b@).len());
        }
        return false;
    }
    let mut i: usize = 0;
    while i < a.len()
        invariant
            a@.len() == b@.len(),
            i <= a@.len(),
            forall|j: int| 0 <= j < i ==> a@[j]@ == b@[j]@,
        decreases a@.len() - i,
    {
        if !same(a[i].as_str(), b[i].as_str()) {
            proof {
                assert(views(a@)[i as int] != views(b@)[i as int]);
            }
            return false;
        }
        i += 1;
    }
    assert(views(a@) =~= views(b@));
    true
}

/// The characters with Unicode's White_Space property.
pub open spec fn is_white_space(c: char) -> bool {
    let u = c as u32;
    ||| 0x09 <= u <= 0x0d
    ||| u == 0x20
    ||| u == 0x85
    ||| u == 0xa0
    ||| u == 0x1680
    ||| 0x2000 <= u <= 0x200a
    ||| u == 0x2028
    ||| u == 0x2029
    ||| u == 0x202f
    ||| u == 0x205f
    ||| u == 0x3000
}

/// Whether `c` is white space.
pub fn white_space(c: char) -> (r: bool)
    ensures
        r == is_white_space(c),
{
    let u: u32 = c as u32;
    (0x09 <= u && u <= 0x0d) || u == 0x20 || u == 0x85 || u == 0xa0 || u == 0x1680 || (0x2000 <= u
        && u <= 0x200a) || u == 0x2028 || u == 0x2029 || u == 0x202f || u == 0x205f || u == 0x3000
}

/// `s` without its leading white space.
pub open spec fn trim_start_of(s: Seq<char>) -> Seq<char>
    decreases s.len(),
{
    if s.len() > 0 && is_white_space(s[0]) {
        trim_start_of(s.drop_first())
    } else {
        s
    }
}

/// `s` without its trailing white space.
pub open spec fn trim_end_of(s: Seq<char>) -> Seq<char>
    decreases s.len(),
{
    if s.len() > 0 && is_white_space(s.last()) {
        trim_end_of(s.drop_last())
    } else {
        s
    }
}

/// `s` without white space at either end.
pub open spec fn trim_of(s: Seq<char>) -> Seq<char> {
    trim_end_of(trim_start_of(s))
}

proof fn lemma_trim_start(s: Seq<char>, lo: int)
    requires
        0 <= lo <= s.len(),
        forall|j: int| 0 <= j < lo ==> is_white_space(s[j]),
        lo < s.len() ==> !is_white_space(s[lo]),
    ensures
        trim_start_of(s) == s.subrange(lo, s.len() as int),
    decreases lo,
{
    if lo == 0 {
        assert(s.subrange(0, s.len() as int) =~= s);
    } else {
        let t = s.drop_first();
        assert forall|j: int| 0 <= j < lo - 1 implies is_white_space(t[j]) by {
            assert(t[j] == s[j + 1]);
        }
        lemma_trim_start(t, lo - 1);
        assert(t.subrange(lo - 1, t.len() as int) =~= s.subrange(lo, s.len() as int));
    }
}

proof fn lemma_trim_end(s: Seq<char>, hi: int)
    requires
        0 <= hi <= s.len(),
        forall|j: int| hi <= j < s.len() ==> is_white_space(s[j]),
        hi > 0 ==> !is_white_space(s[hi - 1]),
    ensures
        trim_end_of(s) == s.subrange(0, hi),
    decreases s.len() - hi,
{
    if hi == s.len() {
        assert(s.subrange(0, hi) =~= s);
    } else {
        lemma_trim_end(s.drop_last(), hi);
        assert(s.drop_last().subrange(0, hi) =~= s.subrange(0, hi));
    }
}

/// The first position at or after `lo` and before `hi` without white space.
fn skip_white(chars: &Vec<char>, lo: usize, hi: usize) -> (r: usize)
    requires
        lo <= hi <= chars@.len(),
    ensures
        lo <= r <= hi,
        forall|j: int| lo <= j < r ==> is_white_space(chars@[j]),
        r < hi ==> !is_white_space(chars@[r as int]),
{
    let mut i: usize = lo;
    while i < hi && white_space(chars[i])
        invariant
            lo <= i <= hi <= chars@.len(),
            forall|j: int| lo <= j < i ==> is_white_space(chars@[j]),
        decreases hi - i,
    {
        i += 1;
    }
    i
}

/// `text` without its leading white space.
pub fn trim_start(text: &str) -> (r: String)
    ensures
        r@ == trim_start_of(text@),
{
    let chars = to_chars(text);
    let lo = skip_white(&chars, 0, chars.len());
    proof {
        lemma_trim_start(text@, lo as int);
    }
    slice(&chars, lo, chars.len())
}

/// `text` without its trailing white space.
pub fn trim_end(text: &str) -> (r: String)
    ensures
        r@ == trim_end_of(text@),
{
    let chars = to_chars(text);
    let mut hi: usize = chars.len();
    while hi > 0 && white_space(chars[hi - 1])
        invariant
            hi <= chars@.len(),
            forall|j: int| hi <= j < chars@.len() ==> is_white_space(chars@[j]),
        decreases hi,
    {
        hi -= 1;
    }
    proof {
        lemma_trim_end(text@, hi as int);
    }
    slice(&chars, 0, hi)
}

/// `text` without white space at either end.
pub fn trim(text: &str) -> (r: String)
    ensures
        r@ == trim_of(text@),
{
    let front = trim_start(text);
    trim_end(front.as_str())
}

/// Trimming never makes a text longer.
pub proof fn lemma_trim_len(s: Seq<char>)
    ensures
        trim_start_of(s).len() <= s.len(),
        trim_end_of(s).len() <= s.len(),
    decreases s.len(),
{
    if s.len() > 0 {
        lemma_trim_len(s.drop_first());
        lemma_trim_len(s.drop_last());
    }
}

/// Whether `p` stands in `s` at position `i`.
pub open spec fn occurs_at(s: Seq<char>, p: Seq<char>, i: int) -> bool {
    0 <= i && i + p.len() <= s.len() && s.subrange(i, i + p.len()) == p
}

/// Whether `s` begins with `p`.
pub open spec fn has_prefix(s: Seq<char>, p: Seq<char>) -> bool {
    occurs_at(s, p, 0)
}

/// Whether `p` occurs somewhere in `s`.
pub open spec fn has_text(s: Seq<char>, p: Seq<char>) -> bool {
    exists|i: int| occurs_at(s, p, i)
}

/// The first position of `p` in `s`, if there is one.
pub open spec fn find_of(s: Seq<char>, p: Seq<char>) -> Option<int>
    decreases s.len(),
{
    if has_prefix(s, p) {
        Some(0)
    } else if s.len() == 0 {
        None
    } else {
        match find_of(s.drop_first(), p) {
            Some(k) => Some(k + 1),
            None => None,
        }
    }
}

/// What `find_of` gives is the first occurrence; where it gives none there is none.
pub proof fn lemma_find(s: Seq<char>, p: Seq<char>)
    ensures
        match find_of(s, p) {
            Some(k) => occurs_at(s, p, k) && forall|j: int| 0 <= j < k ==> !occurs_at(s, p, j),
            None => forall|j: int| !occurs_at(s, p, j),
        },
    decreases s.len(),
{
    if has_prefix(s, p) {
    } else if s.len() == 0 {
        assert forall|j: int| !occurs_at(s, p, j) by {
            if occurs_at(s, p, j) {
                assert(s.subrange(0, p.len() as int) =~= p);
            }
        }
    } else {
        let t = s.drop_first();
        lemma_find(t, p);
        assert forall|j: int| j > 0 implies occurs_at(s, p, j) == occurs_at(t, p, j - 1) by {
            if j + p.len() <= s.len() {
                assert(s.subrange(j, j + p.len()) =~= t.subrange(j - 1, j - 1 + p.len()));
            }
        }
        match find_of(t, p) {
            Some(k) => {
                assert(occurs_at(s, p, k + 1));
            },
            None => {
                assert forall|j: int| !occurs_at(s, p, j) by {
                    if j > 0 {
                        assert(!occurs_at(t, p, j - 1));
                    }
                }
            },
        }
    }
}

/// A first occurrence is what `find_of` gives.
pub proof fn lemma_find_unique(s: Seq<char>, p: Seq<char>, k: int)
    requires
        occurs_at(s, p, k),
        forall|j: int| 0 <= j < k ==> !occurs_at(s, p, j),
    ensures
        find_of(s, p) == Some(k),
{
    lemma_find(s, p);
    let f = find_of(s, p);
    if f is None {
        assert(false);
    } else if f->0 < k {
        assert(!occurs_at(s, p, f->0));
    } else if f->0 > k {
        assert(!occurs_at(s, p, k));
    }
}

/// Whether `p` stands in `chars` at position `i`.
pub fn at(chars: &Vec<char>, p: &Vec<char>, i: usize) -> (r: bool)
    ensures
        r == occurs_at(chars@, p@, i as int),
{
    if i > chars.len() || chars.len() - i < p.len() {
        return false;
    }
    let n: usize = chars.len();
    let mut j: usize = 0;
    while j < p.len()
        invariant
            n == chars@.len(),
            i + p@.len() <= n,
            j <= p@.len(),
            forall|k: int| 0 <= k < j ==> chars@[i + k] == p@[k],
        decreases p@.len() - j,
    {
        if chars[i + j] != p[j] {
            proof {
                assert(chars@.subrange(i as int, i + p@.len())[j as int] != p@[j as int]);
            }
            return false;
        }
        j += 1;
    }
    assert(chars@.subrange(i as int, i + p@.len()) =~= p@);
    true
}

/// The first position of `p` in `chars`, if there is one.
pub fn find_chars(chars: &Vec<char>, p: &Vec<char>) -> (r: Option<usize>)
    ensures
        match r {
            Some(i) => find_of(chars@, p@) == Some(i as int) && i + p@.len() <= chars@.len(),
            None => find_of(chars@, p@) is None,
        },
{
    let mut i: usize = 0;
    while i < chars.len()
        invariant
            i <= chars@.len(),
            forall|j: int| 0 <= j < i ==> !occurs_at(chars@, p@, j),
        decreases chars@.len() - i,
    {
        if at(chars, p, i) {
            proof {
                lemma_find_unique(chars@, p@, i as int);
            }
            return Some(i);
        }
        i += 1;
    }
    if at(chars, p, i) {
        proof {
            lemma_find_unique(chars@, p@, i as int);
        }
        return Some(i);
    }
    proof {
        lemma_find(chars@, p@);
        if find_of(chars@, p@) is Some {
            let k = find_of(chars@, p@)->0;
            assert(occurs_at(chars@, p@, k));
            assert(k > i);
        }
    }
    None
}

/// The first position of `p` in `text`, counted in characters.
pub fn find(text: &str, p: &str) -> (r: Option<usize>)
    ensures
        match r {
            Some(i) => find_of(text@, p@) == Some(i as int) && i + p@.len() <= text@.len(),
            None => find_of(text@, p@) is None,
        },
{
    let chars = to_chars(text);
    let pat = to_chars(p);
    find_chars(&chars, &pat)
}

/// Whether `text` begins with `p`.
pub fn starts_with(text: &str, p: &str) -> (r: bool)
    ensures
        r == has_prefix(text@, p@),
{
    let chars = to_chars(text);
    let pat = to_chars(p);
    at(&chars, &pat, 0)
}

/// Whether `p` occurs in `text`.
pub fn contains(text: &str, p: &str) -> (r: bool)
    ensures
        r == has_text(text@, p@),
{
    let found = find(text, p);
    proof {
        lemma_find(text@, p@);
    }
    match found {
        Some(i) => {
            assert(occurs_at(text@, p@, i as int));
            true
        },
        None => false,
    }
}

/// What follows the first occurrence of `p`, where there is one.
pub open spec fn behind_of(s: Seq<char>, p: Seq<char>) -> Option<Seq<char>> {
    match find_of(s, p) {
        Some(k) => Some(s.subrange(k + p.len(), s.len() as int)),
        None => None,
    }
}

/// What follows the first occurrence of `p`, where there is one.
pub fn behind(text: &str, p: &str) -> (r: Option<String>)
    ensures
        opt_view(r) == behind_of(text@, p@),
{
    let chars = to_chars(text);
    let part = to_chars(p);
    let skip: usize = part.len();
    let end: usize = chars.len();
    match find_chars(&chars, &part) {
        Some(k) => Some(slice(&chars, k + skip, end)),
        None => None,
    }
}

/// What comes before the first occurrence of `p`, where there is one.
pub open spec fn ahead_of(s: Seq<char>, p: Seq<char>) -> Option<Seq<char>> {
    match find_of(s, p) {
        Some(k) => Some(s.subrange(0, k)),
        None => None,
    }
}

/// What comes before the first occurrence of `p`, where there is one.
pub fn ahead(text: &str, p: &str) -> (r: Option<String>)
    ensures
        opt_view(r) == ahead_of(text@, p@),
{
    let chars = to_chars(text);
    let part = to_chars(p);
    match find_chars(&chars, &part) {
        Some(k) => Some(slice(&chars, 0, k)),
        None => None,
    }
}

/// A text cut after `max` characters, with a mark where it was cut.
pub open spec fn clipped(s: Seq<char>, max: int) -> Seq<char> {
    if s.len() <= max {
        s
    } else {
        s.subrange(0, max) + "…"@
    }
}

/// A text cut after `max` characters, with a mark where it was cut.
pub fn clip(text: &str, max: usize) -> (r: String)
    ensures
        r@ == clipped(text@, max as int),
{
    let chars = to_chars(text);
    if chars.len() <= max {
        text.to_owned()
    } else {
        slice(&chars, 0, max).concat("…")
    }
}

/// Whether `text` ends with `p`.
pub open spec fn has_suffix(s: Seq<char>, p: Seq<char>) -> bool {
    p.len() <= s.len() && occurs_at(s, p, s.len() - p.len())
}

/// Whether `text` ends with `p`.
pub fn ends_with(text: &str, p: &str) -> (r: bool)
    ensures
        r == has_suffix(text@, p@),
{
    let chars = to_chars(text);
    let pat = to_chars(p);
    if pat.len() > chars.len() {
        return false;
    }
    at(&chars, &pat, chars.len() - pat.len())
}

/// What follows `p` at the start of `s`.
pub open spec fn strip_prefix_of(s: Seq<char>, p: Seq<char>) -> Option<Seq<char>> {
    if has_prefix(s, p) {
        Some(s.subrange(p.len() as int, s.len() as int))
    } else {
        None
    }
}

/// What follows `p` at the start of `text`.
pub fn strip_prefix(text: &str, p: &str) -> (r: Option<String>)
    ensures
        opt_view(r) == strip_prefix_of(text@, p@),
{
    let chars = to_chars(text);
    let pat = to_chars(p);
    if at(&chars, &pat, 0) {
        Some(slice(&chars, pat.len(), chars.len()))
    } else {
        None
    }
}

/// The position of the first `c` in `s`, or the length of `s`.
pub open spec fn first_index(s: Seq<char>, c: char) -> int
    decreases s.len(),
{
    if s.len() == 0 || s[0] == c {
        0
    } else {
        1 + first_index(s.drop_first(), c)
    }
}

/// `first_index` is where the first `c` stands, if one does.
pub proof fn lemma_first_index(s: Seq<char>, c: char, k: int)
    requires
        0 <= k <= s.len(),
        forall|j: int| 0 <= j < k ==> s[j] != c,
        k < s.len() ==> s[k] == c,
    ensures
        first_index(s, c) == k,
    decreases s.len(),
{
    if k > 0 {
        let t = s.drop_first();
        assert forall|j: int| 0 <= j < k - 1 implies t[j] != c by {
            assert(t[j] == s[j + 1]);
        }
        lemma_first_index(t, c, k - 1);
    }
}

/// Every `first_index` is a position of the sequence or its end.
pub proof fn lemma_first_index_range(s: Seq<char>, c: char)
    ensures
        0 <= first_index(s, c) <= s.len(),
        forall|j: int| 0 <= j < first_index(s, c) ==> s[j] != c,
        first_index(s, c) < s.len() ==> s[first_index(s, c)] == c,
    decreases s.len(),
{
    if s.len() > 0 && s[0] != c {
        let t = s.drop_first();
        lemma_first_index_range(t, c);
        assert forall|j: int| 0 <= j < first_index(s, c) implies s[j] != c by {
            if j > 0 {
                assert(t[j - 1] == s[j]);
            }
        }
    }
}

/// The position of the first `c` at or after `lo`, or the length.
pub fn index_from(chars: &Vec<char>, c: char, lo: usize) -> (r: usize)
    requires
        lo <= chars@.len(),
    ensures
        lo <= r <= chars@.len(),
        r - lo == first_index(chars@.subrange(lo as int, chars@.len() as int), c),
        forall|j: int| lo <= j < r ==> chars@[j] != c,
        r < chars@.len() ==> chars@[r as int] == c,
{
    let mut i: usize = lo;
    while i < chars.len() && chars[i] != c
        invariant
            lo <= i <= chars@.len(),
            forall|j: int| lo <= j < i ==> chars@[j] != c,
        decreases chars@.len() - i,
    {
        i += 1;
    }
    proof {
        lemma_first_index(chars@.subrange(lo as int, chars@.len() as int), c, i - lo);
    }
    i
}

/// The text before and after the first `c` of `s`, if there is one.
pub open spec fn split_once_of(s: Seq<char>, c: char) -> Option<(Seq<char>, Seq<char>)> {
    let k = first_index(s, c);
    if k < s.len() {
        Some((s.subrange(0, k), s.subrange(k + 1, s.len() as int)))
    } else {
        None
    }
}

/// The text before and after the first `c` of `text`, if there is one.
pub fn split_once(text: &str, c: char) -> (r: Option<(String, String)>)
    ensures
        match r {
            Some((a, b)) => split_once_of(text@, c) == Some((a@, b@)),
            None => split_once_of(text@, c) is None,
        },
{
    let chars = to_chars(text);
    let k = index_from(&chars, c, 0);
    assert(chars@.subrange(0, chars@.len() as int) =~= chars@);
    if k < chars.len() {
        Some((slice(&chars, 0, k), slice(&chars, k + 1, chars.len())))
    } else {
        None
    }
}

/// `s` without one carriage return at its end.
pub open spec fn strip_cr(s: Seq<char>) -> Seq<char> {
    if s.len() > 0 && s.last() == '\r' {
        s.drop_last()
    } else {
        s
    }
}

/// The lines of `s`: what stands between line feeds, without the line feed, or the
/// carriage return and line feed, that ends a line; nothing after a final line feed.
pub open spec fn lines_of(s: Seq<char>) -> Seq<Seq<char>>
    decreases s.len(),
{
    let k = first_index(s, '\n');
    if s.len() == 0 {
        Seq::empty()
    } else if 0 <= k < s.len() {
        seq![strip_cr(s.subrange(0, k))] + lines_of(s.subrange(k + 1, s.len() as int))
    } else {
        seq![s]
    }
}

/// The lines of `text`.
pub fn lines(text: &str) -> (r: Vec<String>)
    ensures
        views(r@) == lines_of(text@),
{
    let chars = to_chars(text);
    let mut out: Vec<String> = Vec::new();
    let mut start: usize = 0;
    proof {
        assert(chars@.subrange(0, chars@.len() as int) =~= text@);
        assert(views(out@) + lines_of(text@) =~= lines_of(text@));
    }
    while start < chars.len()
        invariant
            start <= chars@.len(),
            chars@ == text@,
            views(out@) + lines_of(chars@.subrange(start as int, chars@.len() as int)) == lines_of(
                text@,
            ),
        decreases chars@.len() - start,
    {
        let ghost rest = chars@.subrange(start as int, chars@.len() as int);
        let ghost before = views(out@);
        let k = index_from(&chars, '\n', start);
        if k < chars.len() {
            let mut end: usize = k;
            if end > start && chars[end - 1] == '\r' {
                end = end - 1;
            }
            let line = slice(&chars, start, end);
            proof {
                let j = k - start;
                assert(rest.subrange(0, j) =~= chars@.subrange(start as int, k as int));
                assert(line@ =~= strip_cr(rest.subrange(0, j)));
                assert(rest.subrange(j + 1, rest.len() as int) =~= chars@.subrange(
                    k + 1,
                    chars@.len() as int,
                ));
                views_push(out@, line);
                let tail = lines_of(chars@.subrange(k + 1, chars@.len() as int));
                assert(before + (seq![line@] + tail) =~= before.push(line@) + tail);
            }
            out.push(line);
            start = k + 1;
        } else {
            let line = slice(&chars, start, chars.len());
            proof {
                views_push(out@, line);
                let tail = lines_of(chars@.subrange(chars@.len() as int, chars@.len() as int));
                assert(tail =~= Seq::<Seq<char>>::empty());
                assert(before + seq![rest] =~= before.push(line@) + tail);
            }
            out.push(line);
            start = chars.len();
        }
    }
    proof {
        assert(lines_of(chars@.subrange(start as int, chars@.len() as int)) =~= Seq::<
            Seq<char>,
        >::empty());
        assert(views(out@) + Seq::<Seq<char>>::empty() =~= views(out@));
    }
    out
}

/// The maximal runs of `s` without white space, in order.
pub open spec fn words_of(s: Seq<char>) -> Seq<Seq<char>>
    decreases s.len(),
{
    if s.len() == 0 {
        Seq::empty()
    } else if is_white_space(s[0]) {
        words_of(s.drop_first())
    } else {
        let k = word_len(s);
        if 0 < k <= s.len() {
            seq![s.subrange(0, k)] + words_of(s.subrange(k, s.len() as int))
        } else {
            Seq::empty()
        }
    }
}

/// How many characters stand before the first white space of `s`.
pub open spec fn word_len(s: Seq<char>) -> int
    decreases s.len(),
{
    if s.len() == 0 || is_white_space(s[0]) {
        0
    } else {
        1 + word_len(s.drop_first())
    }
}

proof fn lemma_word_len(s: Seq<char>, k: int)
    requires
        0 <= k <= s.len(),
        forall|j: int| 0 <= j < k ==> !is_white_space(s[j]),
        k < s.len() ==> is_white_space(s[k]),
    ensures
        word_len(s) == k,
    decreases k,
{
    if k > 0 {
        let t = s.drop_first();
        assert forall|j: int| 0 <= j < k - 1 implies !is_white_space(t[j]) by {
            assert(t[j] == s[j + 1]);
        }
        lemma_word_len(t, k - 1);
    }
}

/// The maximal runs of `text` without white space, in order.
pub fn words(text: &str) -> (r: Vec<String>)
    ensures
        views(r@) == words_of(text@),
{
    let chars = to_chars(text);
    let mut out: Vec<String> = Vec::new();
    let mut start: usize = 0;
    proof {
        assert(chars@.subrange(0, chars@.len() as int) =~= text@);
        assert(views(out@) + words_of(text@) =~= words_of(text@));
    }
    while start < chars.len()
        invariant
            start <= chars@.len(),
            chars@ == text@,
            views(out@) + words_of(chars@.subrange(start as int, chars@.len() as int)) == words_of(
                text@,
            ),
        decreases chars@.len() - start,
    {
        let ghost rest = chars@.subrange(start as int, chars@.len() as int);
        let ghost before = views(out@);
        if white_space(chars[start]) {
            start += 1;
            assert(rest.drop_first() =~= chars@.subrange(start as int, chars@.len() as int));
        } else {
            let mut k: usize = start;
            while k < chars.len() && !white_space(chars[k])
                invariant
                    start <= k <= chars@.len(),
                    forall|j: int| start <= j < k ==> !is_white_space(chars@[j]),
                decreases chars@.len() - k,
            {
                k += 1;
            }
            let word = slice(&chars, start, k);
            proof {
                lemma_word_len(rest, k - start);
                assert(rest.subrange(0, k - start) =~= word@);
                assert(rest.subrange(k - start, rest.len() as int) =~= chars@.subrange(
                    k as int,
                    chars@.len() as int,
                ));
                views_push(out@, word);
                let tail = words_of(chars@.subrange(k as int, chars@.len() as int));
                assert(before + (seq![word@] + tail) =~= before.push(word@) + tail);
            }
            out.push(word);
            start = k;
        }
    }
    proof {
        assert(words_of(chars@.subrange(start as int, chars@.len() as int)) =~= Seq::<
            Seq<char>,
        >::empty());
        assert(views(out@) + Seq::<Seq<char>>::empty() =~= views(out@));
    }
    out
}

/// The parts in order, with `sep` between each two.
pub open spec fn join_of(parts: Seq<Seq<char>>, sep: Seq<char>) -> Seq<char>
    decreases parts.len(),
{
    if parts.len() == 0 {
        Seq::empty()
    } else if parts.len() == 1 {
        parts[0]
    } else {
        join_of(parts.drop_last(), sep) + sep + parts.last()
    }
}

/// The parts in order, with `sep` between each two.
pub fn join(parts: &Vec<String>, sep: &str) -> (r: String)
    ensures
        r@ == join_of(views(parts@), sep@),
{
    let mut out = String::new();
    let mut i: usize = 0;
    while i < parts.len()
        invariant
            i <= parts@.len(),
            out@ == join_of(views(parts@).take(i as int), sep@),
        decreases parts@.len() - i,
    {
        proof {
            let next = views(parts@).take(i + 1);
            assert(next.drop_last() =~= views(parts@).take(i as int));
            assert(next.last() == parts@[i as int]@);
        }
        if i > 0 {
            out.append(sep);
        }
        out.append(parts[i].as_str());
        i += 1;
        proof {
            if i == 1 {
                assert(out@ =~= parts@[0]@);
            }
        }
    }
    assert(views(parts@).take(i as int) =~= views(parts@));
    out
}

/// `s` with every occurrence of `from`, taken from the left, replaced by `to`.
pub open spec fn replace_of(s: Seq<char>, from: Seq<char>, to: Seq<char>) -> Seq<char>
    decreases s.len(),
{
    match find_of(s, from) {
        Some(k) => if from.len() > 0 && 0 <= k && k + from.len() <= s.len() {
            s.subrange(0, k) + to + replace_of(
                s.subrange(k + from.len(), s.len() as int),
                from,
                to,
            )
        } else {
            s
        },
        None => s,
    }
}

/// `text` with every occurrence of `from` replaced by `to`.
pub fn replace(text: &str, from: &str, to: &str) -> (r: String)
    requires
        from@.len() > 0,
    ensures
        r@ == replace_of(text@, from@, to@),
{
    let pat = to_chars(from);
    let mut rest = to_chars(text);
    let mut out = String::new();
    assert(out@ + replace_of(rest@, from@, to@) =~= replace_of(text@, from@, to@));
    loop
        invariant
            pat@ == from@,
            from@.len() > 0,
            out@ + replace_of(rest@, from@, to@) == replace_of(text@, from@, to@),
        decreases rest@.len(),
    {
        match find_chars(&rest, &pat) {
            Some(k) => {
                let head = slice(&rest, 0, k);
                let ghost before = out@;
                out.append(head.as_str());
                out.append(to);
                let n: usize = rest.len();
                assert(k + pat@.len() <= n);
                let tail = rest.split_off(k + pat.len());
                proof {
                    assert(before + (head@ + to@ + replace_of(tail@, from@, to@)) =~= out@
                        + replace_of(tail@, from@, to@));
                }
                rest = tail;
            },
            None => {
                let end = from_chars(&rest);
                out.append(end.as_str());
                return out;
            },
        }
    }
}

/// At most the first `max` characters of `s`.
pub open spec fn take_of(s: Seq<char>, max: int) -> Seq<char> {
    if s.len() <= max {
        s
    } else {
        s.subrange(0, max)
    }
}

/// At most the first `max` characters of `text`.
pub fn take(text: &str, max: usize) -> (r: String)
    ensures
        r@ == take_of(text@, max as int),
{
    let chars = to_chars(text);
    if chars.len() <= max {
        from_chars(&chars)
    } else {
        slice(&chars, 0, max)
    }
}

/// The decimal digit of value `d`.
pub open spec fn digit_of(d: int) -> char {
    (48 + d) as char
}

/// `n` in decimal notation.
pub open spec fn decimal_of(n: nat) -> Seq<char>
    decreases n,
{
    if n < 10 {
        seq![digit_of(n as int)]
    } else {
        decimal_of(n / 10).push(digit_of((n % 10) as int))
    }
}

fn digit(d: u8) -> (r: char)
    requires
        d < 10,
    ensures
        r == digit_of(d as int),
{
    (48u8 + d) as char
}

/// A number is written in digits, at least one.
pub proof fn lemma_decimal_digits(n: nat)
    ensures
        decimal_of(n).len() > 0,
        forall|i: int| 0 <= i < decimal_of(n).len() ==> '0' <= #[trigger] decimal_of(n)[i] <= '9',
    decreases n,
{
    if n >= 10 {
        lemma_decimal_digits(n / 10);
    }
}

/// No two numbers are written the same way.
pub proof fn lemma_decimal_unique(m: nat, n: nat)
    requires
        decimal_of(m) == decimal_of(n),
    ensures
        m == n,
    decreases m,
{
    let x = decimal_of(m);
    let y = decimal_of(n);
    lemma_decimal_digits(m / 10);
    lemma_decimal_digits(n / 10);
    assert(x.last() == digit_of((m % 10) as int));
    assert(y.last() == digit_of((n % 10) as int));
    assert(digit_of((m % 10) as int) as int == 48 + m % 10);
    assert(digit_of((n % 10) as int) as int == 48 + n % 10);
    assert(m < 10 ==> x.len() == 1);
    assert(n < 10 ==> y.len() == 1);
    if m >= 10 && n >= 10 {
        assert(x.drop_last() =~= decimal_of(m / 10));
        assert(y.drop_last() =~= decimal_of(n / 10));
        lemma_decimal_unique(m / 10, n / 10);
    }
}

/// `n` in decimal notation.
pub fn decimal(n: u128) -> (r: String)
    ensures
        r@ == decimal_of(n as nat),
    decreases n,
{
    if n < 10 {
        let mut out = String::new();
        out.push(digit(n as u8));
        assert(out@ =~= seq![digit_of(n as int)]);
        out
    } else {
        let mut out = decimal(n / 10);
        out.push(digit((n % 10) as u8));
        out
    }
}

/// `n` in decimal notation, with a minus sign where it is negative.
pub open spec fn signed_of(n: int) -> Seq<char> {
    if n < 0 {
        seq!['-'] + decimal_of((-n) as nat)
    } else {
        decimal_of(n as nat)
    }
}

/// `n` in decimal notation, with a minus sign where it is negative.
pub fn signed(n: i64) -> (r: String)
    ensures
        r@ == signed_of(n as int),
{
    if n < 0 {
        let mut out = String::new();
        out.push('-');
        let rest = decimal((0i128 - n as i128) as u128);
        out.append(rest.as_str());
        assert(out@ =~= seq!['-'] + rest@);
        out
    } else {
        decimal(n as u128)
    }
}

/// The character with an ASCII upper-case letter made lower case.
pub open spec fn lower_of(c: char) -> char {
    if 'A' <= c <= 'Z' {
        (c as u32 + 32) as char
    } else {
        c
    }
}

/// `text` with its ASCII upper-case letters made lower case.
pub fn lower(text: &str) -> (r: String)
    ensures
        r@ == text@.map_values(|c: char| lower_of(c)),
{
    let chars = to_chars(text);
    let mut out = String::new();
    let mut i: usize = 0;
    while i < chars.len()
        invariant
            i <= chars@.len(),
            chars@ == text@,
            out@ == text@.take(i as int).map_values(|c: char| lower_of(c)),
        decreases chars@.len() - i,
    {
        let c = chars[i];
        if 'A' <= c && c <= 'Z' {
            out.push((c as u8 + 32) as char);
        } else {
            out.push(c);
        }
        i += 1;
        assert(out@ =~= text@.take(i as int).map_values(|c: char| lower_of(c)));
    }
    assert(text@.take(i as int) =~= text@);
    out
}

/// Whether `c` is a decimal digit.
pub open spec fn is_digit(c: char) -> bool {
    '0' <= c <= '9'
}

/// The number that some decimal digits stand for.
pub open spec fn digits_value(s: Seq<char>) -> int
    decreases s.len(),
{
    if s.len() == 0 {
        0
    } else {
        10 * digits_value(s.drop_last()) + (s.last() as int - 48)
    }
}

/// The digits of an unsigned number: what follows an optional plus sign.
pub open spec fn unsigned_digits(s: Seq<char>) -> Seq<char> {
    if s.len() > 0 && s[0] == '+' {
        s.drop_first()
    } else {
        s
    }
}

/// The number up to `max` that `s` stands for: decimal digits, at least one, after an
/// optional plus sign.
pub open spec fn unsigned_value(s: Seq<char>, max: int) -> Option<int> {
    let digits = unsigned_digits(s);
    if digits.len() > 0 && (forall|i: int| 0 <= i < digits.len() ==> is_digit(#[trigger] digits[i]))
        && digits_value(digits) <= max {
        Some(digits_value(digits))
    } else {
        None
    }
}

proof fn lemma_digits_grow(s: Seq<char>, k: int)
    requires
        0 <= k <= s.len(),
        forall|i: int| 0 <= i < s.len() ==> is_digit(#[trigger] s[i]),
    ensures
        0 <= digits_value(s.take(k)) <= digits_value(s),
    decreases s.len(),
{
    if s.len() == 0 {
    } else if k == s.len() {
        assert(s.take(k) =~= s);
        let t = s.drop_last();
        assert forall|i: int| 0 <= i < t.len() implies is_digit(#[trigger] t[i]) by {
            assert(t[i] == s[i]);
        }
        lemma_digits_grow(t, 0);
        assert(t.take(0) =~= Seq::<char>::empty());
        assert(is_digit(s.last()));
    } else {
        let t = s.drop_last();
        assert forall|i: int| 0 <= i < t.len() implies is_digit(#[trigger] t[i]) by {
            assert(t[i] == s[i]);
        }
        assert(s.take(k) =~= t.take(k));
        lemma_digits_grow(t, k);
        assert(is_digit(s.last()));
    }
}

/// The number up to `max` that `text` stands for, if it is one.
pub fn parse_unsigned(text: &str, max: u64) -> (r: Option<u64>)
    ensures
        match r {
            Some(n) => unsigned_value(text@, max as int) == Some(n as int),
            None => unsigned_value(text@, max as int) is None,
        },
{
    let chars = to_chars(text);
    let start: usize = if chars.len() > 0 && chars[0] == '+' {
        1
    } else {
        0
    };
    let ghost digits = unsigned_digits(text@);
    assert(digits =~= chars@.subrange(start as int, chars@.len() as int));
    if start == chars.len() {
        return None;
    }
    let mut value: u64 = 0;
    let mut i: usize = start;
    while i < chars.len()
        invariant
            chars@ == text@,
            start <= i <= chars@.len(),
            start < chars@.len(),
            digits == unsigned_digits(text@),
            digits == chars@.subrange(start as int, chars@.len() as int),
            value <= max,
            value == digits_value(digits.take(i - start)),
            forall|j: int| 0 <= j < i - start ==> is_digit(#[trigger] digits[j]),
        decreases chars@.len() - i,
    {
        let c = chars[i];
        let ghost k = i - start;
        proof {
            assert(digits[k] == c);
            assert(digits.take(k + 1).drop_last() =~= digits.take(k));
        }
        if !('0' <= c && c <= '9') {
            return None;
        }
        let d: u64 = (c as u32 - 48) as u64;
        if value > (u64::MAX - d) / 10 || value * 10 + d > max {
            proof {
                assert(10 * value + d > max);
                assert(digits_value(digits.take(k + 1)) > max);
                if forall|j: int| 0 <= j < digits.len() ==> is_digit(#[trigger] digits[j]) {
                    lemma_digits_grow(digits, k + 1);
                }
            }
            return None;
        }
        value = value * 10 + d;
        i += 1;
    }
    assert(digits.take(i - start) =~= digits);
    Some(value)
}

/// The parts of a text between the occurrences of `c`.
pub open spec fn split_of(s: Seq<char>, c: char) -> Seq<Seq<char>>
    decreases s.len(),
{
    let k = first_index(s, c);
    if 0 <= k < s.len() {
        seq![s.subrange(0, k)] + split_of(s.subrange(k + 1, s.len() as int), c)
    } else {
        seq![s]
    }
}

/// The parts of a text between the occurrences of `c`.
pub fn split(text: &str, c: char) -> (r: Vec<String>)
    ensures
        views(r@) == split_of(text@, c),
{
    let chars = to_chars(text);
    let end: usize = chars.len();
    let mut out: Vec<String> = Vec::new();
    let mut lo: usize = 0;
    let ghost whole = text@;
    assert(whole.subrange(0, end as int) =~= whole);
    assert(views(out@) + split_of(whole, c) =~= split_of(whole, c));
    loop
        invariant_except_break
            views(out@) + split_of(whole.subrange(lo as int, end as int), c) == split_of(whole, c),
        invariant
            lo <= end == chars@.len(),
            chars@ == whole,
        ensures
            views(out@) == split_of(whole, c),
        decreases end - lo,
    {
        let k: usize = index_from(&chars, c, lo);
        let ghost rest = whole.subrange(lo as int, end as int);
        proof {
            lemma_first_index_range(rest, c);
        }
        let part = slice(&chars, lo, k);
        let ghost before = views(out@);
        proof {
            views_push(out@, part);
            assert(rest.subrange(0, k - lo) =~= part@);
        }
        out.push(part);
        if k >= end {
            assert(rest.subrange(0, k - lo) =~= rest);
            assert(views(out@) =~= before + split_of(rest, c));
            break;
        }
        proof {
            assert(rest.subrange(k - lo + 1, rest.len() as int) =~= whole.subrange(
                k + 1,
                end as int,
            ));
            assert(views(out@) + split_of(whole.subrange(k + 1, end as int), c) =~= before
                + split_of(rest, c));
        }
        lo = k + 1;
    }
    out
}

/// A text without the characters `c` at its start.
pub open spec fn skip_of(s: Seq<char>, c: char) -> Seq<char>
    decreases s.len(),
{
    if s.len() > 0 && s[0] == c {
        skip_of(s.drop_first(), c)
    } else {
        s
    }
}

/// A text without the characters `c` at its start.
pub fn skip(text: &str, c: char) -> (r: String)
    ensures
        r@ == skip_of(text@, c),
{
    let chars = to_chars(text);
    let end: usize = chars.len();
    let mut lo: usize = 0;
    assert(text@.skip(0) =~= text@);
    while lo < end && chars[lo] == c
        invariant
            lo <= end == chars@.len(),
            chars@ == text@,
            skip_of(text@.skip(lo as int), c) == skip_of(text@, c),
        decreases end - lo,
    {
        assert(text@.skip(lo as int).drop_first() =~= text@.skip(lo + 1));
        lo += 1;
    }
    assert(text@.skip(lo as int) =~= chars@.subrange(lo as int, end as int));
    slice(&chars, lo, end)
}

/// A text in lower case, by the rules of Unicode.
pub uninterp spec fn lowercase_of(text: Seq<char>) -> Seq<char>;

/// `str::to_lowercase`: a text in lower case, by the rules of Unicode.
#[verifier::external_body]
pub(crate) fn lowercase(text: &str) -> (r: String)
    ensures
        r@ == lowercase_of(text@),
{
    text.to_lowercase()
}

/// How std prints a text for debugging.
pub uninterp spec fn debug_text(text: Seq<char>) -> Seq<char>;

/// `format!` with `{:?}` on a text.
#[verifier::external_body]
pub(crate) fn debug_string(text: &str) -> (r: String)
    ensures
        r@ == debug_text(text@),
{
    format!("{:?}", text)
}

} // verus!
