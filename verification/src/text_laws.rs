//! What the functions on texts undo and keep.

use crate::order::text_le;
use crate::text::ahead_of;
use crate::text::behind_of;
use crate::text::clipped;
use crate::text::decimal_of;
use crate::text::digits_value;
use crate::text::find_of;
use crate::text::has_prefix;
use crate::text::has_text;
use crate::text::is_digit;
use crate::text::is_white_space;
use crate::text::join_of;
use crate::text::lemma_decimal_digits;
use crate::text::lemma_find;
use crate::text::lemma_find_unique;
use crate::text::lemma_first_index_range;
use crate::text::lines_of;
use crate::text::lower_of;
use crate::text::occurs_at;
use crate::text::replace_of;
use crate::text::signed_of;
use crate::text::skip_of;
use crate::text::split_of;
use crate::text::split_once_of;
use crate::text::strip_prefix_of;
use crate::text::take_of;
use crate::text::trim_end_of;
use crate::text::trim_of;
use crate::text::trim_start_of;
use crate::text::unsigned_digits;
use crate::text::unsigned_value;
use crate::text::words_of;
use vstd::prelude::*;
use vstd::string::*;

verus! {

/// A text occurs in whatever it is put into.
pub proof fn a_part_occurs(before: Seq<char>, part: Seq<char>, after: Seq<char>)
    ensures
        occurs_at(before + part + after, part, before.len() as int),
        has_text(before + part + after, part),
        has_text(before + (part + after), part),
{
    let whole = before + part + after;
    assert(whole.subrange(before.len() as int, before.len() as int + part.len()) =~= part);
    assert(before + (part + after) =~= whole);
    assert(occurs_at(whole, part, before.len() as int));
}

/// What occurs in a part occurs in the whole.
pub proof fn parts_of_parts_occur(
    before: Seq<char>,
    part: Seq<char>,
    after: Seq<char>,
    sought: Seq<char>,
)
    requires
        has_text(part, sought),
    ensures
        has_text(before + part + after, sought),
{
    let i = choose|i: int| occurs_at(part, sought, i);
    let whole = before + part + after;
    assert(whole.subrange(before.len() + i, before.len() + i + sought.len()) =~= part.subrange(
        i,
        i + sought.len(),
    ));
    assert(occurs_at(whole, sought, before.len() + i));
}

proof fn lemma_trim_start_parts(s: Seq<char>) -> (k: int)
    ensures
        0 <= k <= s.len(),
        trim_start_of(s) == s.subrange(k, s.len() as int),
        forall|i: int| 0 <= i < k ==> is_white_space(#[trigger] s[i]),
        k < s.len() ==> !is_white_space(s[k]),
    decreases s.len(),
{
    if s.len() > 0 && is_white_space(s[0]) {
        let rest = s.drop_first();
        let k = lemma_trim_start_parts(rest);
        assert(rest.subrange(k, rest.len() as int) =~= s.subrange(k + 1, s.len() as int));
        assert forall|i: int| 0 <= i < k + 1 implies is_white_space(#[trigger] s[i]) by {
            if i > 0 {
                assert(rest[i - 1] == s[i]);
            }
        }
        k + 1
    } else {
        assert(s.subrange(0, s.len() as int) =~= s);
        0
    }
}

proof fn lemma_trim_end_parts(s: Seq<char>) -> (k: int)
    ensures
        0 <= k <= s.len(),
        trim_end_of(s) == s.subrange(0, k),
        forall|i: int| k <= i < s.len() ==> is_white_space(#[trigger] s[i]),
        k > 0 ==> !is_white_space(s[k - 1]),
    decreases s.len(),
{
    if s.len() > 0 && is_white_space(s.last()) {
        let rest = s.drop_last();
        let k = lemma_trim_end_parts(rest);
        assert(rest.subrange(0, k) =~= s.subrange(0, k));
        assert forall|i: int| k <= i < s.len() implies is_white_space(#[trigger] s[i]) by {
            if i < rest.len() {
                assert(rest[i] == s[i]);
            }
        }
        k
    } else {
        assert(s.subrange(0, s.len() as int) =~= s);
        s.len() as int
    }
}

/// Trimming takes white space off both ends, all of it and nothing else.
pub proof fn trimming_takes_off_white_space(s: Seq<char>)
    ensures
        has_text(s, trim_of(s)),
        trim_of(s).len() > 0 ==> !is_white_space(trim_of(s)[0]) && !is_white_space(
            trim_of(s).last(),
        ),
        (trim_of(s).len() == 0) == (forall|i: int|
            0 <= i < s.len() ==> is_white_space(#[trigger] s[i])),
        trim_of(trim_of(s)) == trim_of(s),
{
    let lo = lemma_trim_start_parts(s);
    let front = trim_start_of(s);
    let hi = lemma_trim_end_parts(front);
    let r = trim_of(s);
    assert(r =~= s.subrange(lo, lo + hi));
    assert(occurs_at(s, r, lo));
    if r.len() > 0 {
        assert(r[0] == s[lo]);
        assert(r.last() == front[hi - 1]);
        let again = lemma_trim_start_parts(r);
        if again > 0 {
            assert(is_white_space(r[0]));
        }
        assert(r.subrange(0, r.len() as int) =~= r);
        let more = lemma_trim_end_parts(r);
        if more < r.len() {
            assert(is_white_space(r[r.len() - 1]));
        }
        assert(!is_white_space(s[lo]));
    } else {
        assert forall|i: int| 0 <= i < s.len() implies is_white_space(#[trigger] s[i]) by {
            if i >= lo {
                assert(front[i - lo] == s[i]);
            }
        }
        assert(trim_start_of(r) == r);
    }
}

/// Blanks, tabs and line ends are white space, and what can be seen of ASCII is not.
pub proof fn what_white_space_is(c: char)
    ensures
        c == ' ' || c == '\t' || c == '\n' || c == '\r' ==> is_white_space(c),
        '!' <= c && c <= '~' ==> !is_white_space(c),
        is_white_space(c) && (c as u32) < 128 ==> c == ' ' || ('\t' <= c && c <= '\r'),
{
}

/// A text is split at the first mark: before it there is none, and the three make the text.
pub proof fn splitting_once(s: Seq<char>, c: char)
    ensures
        (split_once_of(s, c) is Some) == s.contains(c),
        split_once_of(s, c) matches Some((a, b)) ==> s == a.push(c) + b && !a.contains(c),
{
    lemma_first_index_range(s, c);
    let k = crate::text::first_index(s, c);
    if k < s.len() {
        assert(s[k] == c);
        assert(s.contains(c));
        let a = s.subrange(0, k);
        let b = s.subrange(k + 1, s.len() as int);
        assert(s =~= a.push(c) + b);
        if a.contains(c) {
            let i = choose|i: int| 0 <= i < a.len() && a[i] == c;
            assert(s[i] == c);
        }
    } else if s.contains(c) {
        let i = choose|i: int| 0 <= i < s.len() && s[i] == c;
        assert(s[i] == c);
    }
}

/// Parts that were split off hold no mark, and put together with it they make the text.
pub proof fn splitting_and_joining(s: Seq<char>, c: char)
    ensures
        split_of(s, c).len() >= 1,
        forall|i: int| 0 <= i < split_of(s, c).len() ==> !(#[trigger] split_of(s, c)[i]).contains(
            c,
        ),
        join_of(split_of(s, c), seq![c]) == s,
    decreases s.len(),
{
    lemma_first_index_range(s, c);
    let k = crate::text::first_index(s, c);
    if 0 <= k < s.len() {
        let head = s.subrange(0, k);
        let rest = s.subrange(k + 1, s.len() as int);
        splitting_and_joining(rest, c);
        let parts = split_of(rest, c);
        assert(split_of(s, c) =~= seq![head] + parts);
        if head.contains(c) {
            let i = choose|i: int| 0 <= i < head.len() && head[i] == c;
            assert(s[i] == c);
        }
        assert forall|i: int| 0 <= i < split_of(s, c).len() implies !(#[trigger] split_of(
            s,
            c,
        )[i]).contains(c) by {
            if i > 0 {
                assert(split_of(s, c)[i] == parts[i - 1]);
            }
        }
        joining_starts_anywhere(head, parts, seq![c]);
        assert(head + seq![c] + rest =~= s);
    } else {
        assert(split_of(s, c) =~= seq![s]);
        if s.contains(c) {
            let i = choose|i: int| 0 <= i < s.len() && s[i] == c;
            assert(s[i] == c);
        }
    }
}

/// Joined parts begin with the first, and go on with the others after a mark.
pub proof fn joining_starts_anywhere(head: Seq<char>, parts: Seq<Seq<char>>, sep: Seq<char>)
    requires
        parts.len() >= 1,
    ensures
        join_of(seq![head] + parts, sep) == head + sep + join_of(parts, sep),
    decreases parts.len(),
{
    let all = seq![head] + parts;
    assert(all.drop_last() =~= seq![head] + parts.drop_last());
    assert(all.last() == parts.last());
    if parts.len() == 1 {
        assert(all.drop_last() =~= seq![head]);
        assert(join_of(seq![head], sep) == head);
        assert(join_of(all, sep) =~= head + sep + parts[0]);
    } else {
        joining_starts_anywhere(head, parts.drop_last(), sep);
        assert(join_of(all, sep) =~= head + sep + join_of(parts, sep));
    }
}

/// Every part occurs in what they are joined to.
pub proof fn joined_parts_occur(parts: Seq<Seq<char>>, sep: Seq<char>, k: int)
    requires
        0 <= k < parts.len(),
    ensures
        has_text(join_of(parts, sep), parts[k]),
    decreases parts.len(),
{
    let none = Seq::<char>::empty();
    let last = parts.last();
    if parts.len() == 1 {
        a_part_occurs(none, parts[0], none);
        assert(none + parts[0] + none =~= parts[0]);
    } else {
        let front = join_of(parts.drop_last(), sep);
        if k == parts.len() - 1 {
            a_part_occurs(front + sep, last, none);
            assert(front + sep + last + none =~= join_of(parts, sep));
        } else {
            joined_parts_occur(parts.drop_last(), sep, k);
            parts_of_parts_occur(none, front, sep + last, parts[k]);
            assert(none + front + (sep + last) =~= join_of(parts, sep));
        }
    }
}

/// No line holds a line feed, and a text without one is a single line.
pub proof fn lines_hold_no_line_feed(s: Seq<char>)
    ensures
        forall|i: int| 0 <= i < lines_of(s).len() ==> !(#[trigger] lines_of(s)[i]).contains('\n'),
        s.len() > 0 && !s.contains('\n') ==> lines_of(s) == seq![s],
        s.len() == 0 ==> lines_of(s).len() == 0,
        s.len() > 0 ==> lines_of(s).len() >= 1,
    decreases s.len(),
{
    lemma_first_index_range(s, '\n');
    let k = crate::text::first_index(s, '\n');
    if s.len() == 0 {
    } else if 0 <= k < s.len() {
        let head = s.subrange(0, k);
        let rest = s.subrange(k + 1, s.len() as int);
        lines_hold_no_line_feed(rest);
        let first = crate::text::strip_cr(head);
        assert(s[k] == '\n');
        if first.contains('\n') {
            let i = choose|i: int| 0 <= i < first.len() && first[i] == '\n';
            assert(s[i] == '\n');
        }
        assert forall|i: int| 0 <= i < lines_of(s).len() implies !(#[trigger] lines_of(
            s,
        )[i]).contains('\n') by {
            if i > 0 {
                assert(lines_of(s)[i] == lines_of(rest)[i - 1]);
            }
        }
    } else if s.contains('\n') {
        let i = choose|i: int| 0 <= i < s.len() && s[i] == '\n';
        assert(s[i] == '\n');
    }
}

/// A line, ended by a line feed, in front of a text is its first line; a carriage return
/// before the line feed belongs to the end.
pub proof fn a_line_in_front(line: Seq<char>, rest: Seq<char>)
    requires
        !line.contains('\n'),
    ensures
        line.len() == 0 || line.last() != '\r' ==> lines_of(line + seq!['\n'] + rest) == seq![line]
            + lines_of(rest),
        lines_of(line + seq!['\r', '\n'] + rest) == seq![line] + lines_of(rest),
{
    let plain = line + seq!['\n'] + rest;
    assert forall|i: int| 0 <= i < line.len() implies plain[i] != '\n' by {
        if plain[i] == '\n' {
            assert(line[i] == '\n');
            assert(line.contains('\n'));
        }
    }
    crate::text::lemma_first_index(plain, '\n', line.len() as int);
    assert(plain.subrange(0, line.len() as int) =~= line);
    assert(plain.subrange(line.len() as int + 1, plain.len() as int) =~= rest);
    let other = line + seq!['\r', '\n'] + rest;
    assert forall|i: int| 0 <= i < line.len() + 1 implies other[i] != '\n' by {
        if i < line.len() && other[i] == '\n' {
            assert(line[i] == '\n');
            assert(line.contains('\n'));
        }
    }
    crate::text::lemma_first_index(other, '\n', line.len() as int + 1);
    assert(other.subrange(0, line.len() as int + 1) =~= line.push('\r'));
    assert(line.push('\r').drop_last() =~= line);
    assert(other.subrange(line.len() as int + 2, other.len() as int) =~= rest);
}

/// Whether a text is a word: it holds no white space and is not empty.
pub open spec fn is_word(s: Seq<char>) -> bool {
    s.len() > 0 && forall|i: int| 0 <= i < s.len() ==> !is_white_space(#[trigger] s[i])
}

/// Words hold no white space and are not empty.
pub proof fn words_hold_no_white_space(s: Seq<char>)
    ensures
        forall|i: int| 0 <= i < words_of(s).len() ==> is_word(#[trigger] words_of(s)[i]),
    decreases s.len(),
{
    if s.len() == 0 {
        assert(words_of(s).len() == 0);
    } else if is_white_space(s[0]) {
        words_hold_no_white_space(s.drop_first());
        assert(words_of(s) == words_of(s.drop_first()));
    } else {
        let k = crate::text::word_len(s);
        lemma_word_len(s);
        let head = s.subrange(0, k);
        let rest = s.subrange(k, s.len() as int);
        words_hold_no_white_space(rest);
        assert forall|i: int| 0 <= i < words_of(s).len() implies is_word(
            #[trigger] words_of(s)[i],
        ) by {
            if i > 0 {
                assert(words_of(s)[i] == words_of(rest)[i - 1]);
            } else {
                assert(words_of(s)[0] == head);
            }
        }
    }
}

proof fn lemma_word_len(s: Seq<char>)
    ensures
        0 <= crate::text::word_len(s) <= s.len(),
        s.len() > 0 && !is_white_space(s[0]) ==> crate::text::word_len(s) > 0,
        forall|i: int| 0 <= i < crate::text::word_len(s) ==> !is_white_space(#[trigger] s[i]),
    decreases s.len(),
{
    if s.len() > 0 && !is_white_space(s[0]) {
        let rest = s.drop_first();
        lemma_word_len(rest);
        assert forall|i: int| 0 <= i < crate::text::word_len(s) implies !is_white_space(
            #[trigger] s[i],
        ) by {
            if i > 0 {
                assert(rest[i - 1] == s[i]);
            }
        }
    }
}

/// Replacing leaves a text without the mark as it is, and puts the new text in the place of
/// the first mark of any other.
pub proof fn replacing_fills_in(before: Seq<char>, from: Seq<char>, after: Seq<char>, to: Seq<char>)
    requires
        from.len() > 0,
        find_is_first(before, from, after),
    ensures
        replace_of(before + from + after, from, to) == before + to + replace_of(after, from, to),
        has_text(replace_of(before + from + after, from, to), to),
{
    let s = before + from + after;
    let k = before.len() as int;
    a_part_occurs(before, from, after);
    lemma_find_unique(s, from, k);
    assert(s.subrange(0, k) =~= before);
    assert(s.subrange(k + from.len(), s.len() as int) =~= after);
    a_part_occurs(before, to, replace_of(after, from, to));
}

/// Whether the mark between two texts is the first of its kind.
pub open spec fn find_is_first(before: Seq<char>, from: Seq<char>, after: Seq<char>) -> bool {
    forall|j: int| 0 <= j < before.len() ==> !occurs_at(before + from + after, from, j)
}

/// A text without the mark is left as it is.
pub proof fn nothing_to_replace(s: Seq<char>, from: Seq<char>, to: Seq<char>)
    requires
        !has_text(s, from),
    ensures
        replace_of(s, from, to) == s,
{
    lemma_find(s, from);
    if let Some(k) = crate::text::find_of(s, from) {
        assert(occurs_at(s, from, k));
    }
}

/// What is cut is the start of the text, as long as may be; what fits is left as it is, and
/// a cut is marked.
pub proof fn cutting_keeps_the_start(s: Seq<char>, max: int)
    requires
        0 <= max,
    ensures
        has_prefix(s, take_of(s, max)),
        take_of(s, max).len() == if s.len() <= max {
            s.len() as int
        } else {
            max
        },
        s.len() <= max ==> clipped(s, max) == s,
        s.len() > max ==> clipped(s, max) == take_of(s, max) + "…"@,
        clipped(s, max).len() <= max + 1,
{
    reveal_strlit("…");
    assert(s.subrange(0, take_of(s, max).len() as int) =~= take_of(s, max));
}

/// What follows a prefix is what was put behind it.
pub proof fn a_prefix_comes_off(prefix: Seq<char>, rest: Seq<char>)
    ensures
        strip_prefix_of(prefix + rest, prefix) == Some(rest),
        has_prefix(prefix + rest, prefix),
{
    let s = prefix + rest;
    assert(s.subrange(0, prefix.len() as int) =~= prefix);
    assert(s.subrange(prefix.len() as int, s.len() as int) =~= rest);
}

/// Characters at the start are skipped, all of them and no others.
pub proof fn skipping_stops_in_time(s: Seq<char>, c: char)
    ensures
        skip_of(s, c).len() <= s.len(),
        skip_of(s, c) == s.subrange(s.len() - skip_of(s, c).len(), s.len() as int),
        skip_of(s, c).len() > 0 ==> skip_of(s, c)[0] != c,
        forall|i: int| 0 <= i < s.len() - skip_of(s, c).len() ==> #[trigger] s[i] == c,
    decreases s.len(),
{
    if s.len() > 0 && s[0] == c {
        let rest = s.drop_first();
        skipping_stops_in_time(rest, c);
        let n = skip_of(s, c).len() as int;
        assert(s.subrange(s.len() - n, s.len() as int) =~= rest.subrange(
            rest.len() - n,
            rest.len() as int,
        ));
        assert forall|i: int| 0 <= i < s.len() - n implies #[trigger] s[i] == c by {
            if i > 0 {
                assert(rest[i - 1] == s[i]);
            }
        }
    } else {
        assert(s.subrange(0, s.len() as int) =~= s);
    }
}

/// A number that was written can be read again.
pub proof fn numbers_can_be_read_again(n: nat, max: int)
    ensures
        digits_value(decimal_of(n)) == n,
        n <= max ==> unsigned_value(decimal_of(n), max) == Some(n as int),
        n > max ==> unsigned_value(decimal_of(n), max) is None,
        decimal_of(n)[0] == '0' ==> n == 0,
{
    lemma_value(n);
    lemma_decimal_digits(n);
    let digits = decimal_of(n);
    assert(is_digit(digits[0]));
    assert(unsigned_digits(digits) == digits);
    lemma_leading(n);
}

proof fn lemma_leading(n: nat)
    ensures
        decimal_of(n).len() > 0,
        decimal_of(n)[0] == '0' ==> n == 0,
    decreases n,
{
    if n >= 10 {
        lemma_leading(n / 10);
    } else {
        assert(crate::text::digit_of(n as int) as int == 48 + n);
    }
}

proof fn lemma_value(n: nat)
    ensures
        digits_value(decimal_of(n)) == n,
    decreases n,
{
    let none = Seq::<char>::empty();
    if n < 10 {
        assert(decimal_of(n).drop_last() =~= none);
        assert(digits_value(none) == 0);
        assert(crate::text::digit_of(n as int) as int == 48 + n);
    } else {
        lemma_value(n / 10);
        assert(decimal_of(n).drop_last() =~= decimal_of(n / 10));
        assert(crate::text::digit_of((n % 10) as int) as int == 48 + n % 10);
    }
}

/// A number has a sign where it is below zero, and then only.
pub proof fn signs_are_for_negative_numbers(n: int)
    ensures
        n >= 0 ==> signed_of(n) == decimal_of(n as nat),
        n < 0 ==> signed_of(n)[0] == '-' && signed_of(n).skip(1) == decimal_of((-n) as nat),
{
    if n < 0 {
        assert(signed_of(n).skip(1) =~= decimal_of((-n) as nat));
    }
}

/// Letters are made small, and nothing else is changed.
pub proof fn small_letters(c: char)
    ensures
        lower_of('A') == 'a',
        lower_of('Z') == 'z',
        c < 'A' || c > 'Z' ==> lower_of(c) == c,
        'A' <= c && c <= 'Z' ==> 'a' <= lower_of(c) && lower_of(c) <= 'z' && lower_of(c) as int
            - 'a' as int == c as int - 'A' as int,
        lower_of(lower_of(c)) == lower_of(c),
{
}

/// Texts are in the order of their first difference, and a text comes before what goes on from
/// it.
pub proof fn the_first_difference_counts(a: Seq<char>, b: Seq<char>, k: int)
    requires
        0 <= k <= a.len(),
        k <= b.len(),
        forall|i: int| 0 <= i < k ==> #[trigger] a[i] == b[i],
    ensures
        k == a.len() ==> text_le(a, b),
        k < a.len() && k == b.len() ==> !text_le(a, b),
        k < a.len() && k < b.len() && a[k] < b[k] ==> text_le(a, b) && !text_le(b, a),
    decreases k,
{
    if k > 0 {
        let x = a.drop_first();
        let y = b.drop_first();
        assert(a[0] == b[0]);
        assert forall|i: int| 0 <= i < k - 1 implies #[trigger] x[i] == y[i] by {
            assert(a[i + 1] == b[i + 1]);
        }
        the_first_difference_counts(x, y, k - 1);
        if k < a.len() && k < b.len() {
            assert(x[k - 1] == a[k] && y[k - 1] == b[k]);
        }
    }
}

/// What stands ahead of a mark, the mark, and what stands behind it make up the text.
pub proof fn a_mark_parts_a_text(s: Seq<char>, p: Seq<char>)
    ensures
        (ahead_of(s, p) is Some) == (behind_of(s, p) is Some),
        ahead_of(s, p) is Some && 0 <= find_of(s, p)->0 && find_of(s, p)->0 + p.len() <= s.len()
            && s.subrange(find_of(s, p)->0, find_of(s, p)->0 + p.len()) == p ==> ahead_of(s, p)->0
            + p + behind_of(s, p)->0 == s,
{
    if ahead_of(s, p) is Some {
        let k = find_of(s, p)->0;
        if 0 <= k && k + p.len() <= s.len() && s.subrange(k, k + p.len()) == p {
            assert(s =~= s.subrange(0, k) + s.subrange(k, k + p.len()) + s.subrange(
                k + p.len(),
                s.len() as int,
            ));
        }
    }
}

} // verus!
