//! Character-level scanning shared by the request parser and the router.
//!
//! Text is modelled as `Seq<char>`. The scanners are stated as functions from
//! a sequence and a position to a position, so that executable loops and
//! their contracts speak of the same indices.
use vstd::prelude::*;
use vstd::std_specs::iter::IteratorSpec;

verus! {

/// Whether `c` has the Unicode `White_Space` property.
pub open spec fn is_space(c: char) -> bool {
    let u = c as u32;
    (0x09 <= u && u <= 0x0D) || u == 0x20 || u == 0x85 || u == 0xA0 || u == 0x1680 || (0x2000 <= u
        && u <= 0x200A) || u == 0x2028 || u == 0x2029 || u == 0x202F || u == 0x205F || u == 0x3000
}

/// Whether `c` is one of the decimal digits `0` to `9`.
pub open spec fn is_digit(c: char) -> bool {
    0x30 <= c as u32 && c as u32 <= 0x39
}

/// Whether `a` and `b` are the same character once ASCII letters are folded to one case.
pub open spec fn same_letter(a: char, b: char) -> bool {
    let x = a as u32;
    let y = b as u32;
    a == b || (0x41 <= x && x <= 0x5A && y == x + 0x20) || (0x41 <= y && y <= 0x5A && x == y
        + 0x20)
}

/// Whether `a` and `b` are equal up to the case of their ASCII letters.
pub open spec fn same_text_ignoring_case(a: Seq<char>, b: Seq<char>) -> bool {
    a.len() == b.len() && forall|i: int| 0 <= i < a.len() ==> same_letter(#[trigger] a[i], b[i])
}

/// The first position at or after `i` that holds `c`, or the length of `s` if there is none.
pub open spec fn find_from(s: Seq<char>, i: int, c: char) -> int
    decreases s.len() - i,
{
    if 0 <= i < s.len() && s[i] != c {
        find_from(s, i + 1, c)
    } else {
        i
    }
}

/// The first position at or after `i` that holds no white space, or the length of `s`.
pub open spec fn skip_spaces(s: Seq<char>, i: int) -> int
    decreases s.len() - i,
{
    if 0 <= i < s.len() && is_space(s[i]) {
        skip_spaces(s, i + 1)
    } else {
        i
    }
}

/// The first position at or after `i` that holds white space, or the length of `s`.
pub open spec fn skip_word(s: Seq<char>, i: int) -> int
    decreases s.len() - i,
{
    if 0 <= i < s.len() && !is_space(s[i]) {
        skip_word(s, i + 1)
    } else {
        i
    }
}

/// Where the part of `s` between `lo` and `hi` starts once leading white space is dropped.
pub open spec fn trim_front(s: Seq<char>, lo: int, hi: int) -> int
    decreases hi - lo,
{
    if 0 <= lo < hi && lo < s.len() && is_space(s[lo]) {
        trim_front(s, lo + 1, hi)
    } else {
        lo
    }
}

/// Where the part of `s` between `lo` and `hi` ends once trailing white space is dropped.
pub open spec fn trim_back(s: Seq<char>, lo: int, hi: int) -> int
    decreases hi - lo,
{
    if 0 <= lo < hi && hi <= s.len() && is_space(s[hi - 1]) {
        trim_back(s, lo, hi - 1)
    } else {
        hi
    }
}

/// The part of `s` between `lo` and `hi` without leading and trailing white space.
pub open spec fn trimmed_between(s: Seq<char>, lo: int, hi: int) -> Seq<char> {
    let a = trim_front(s, lo, hi);
    s.subrange(a, trim_back(s, a, hi))
}

/// `s` without leading and trailing white space.
pub open spec fn trimmed(s: Seq<char>) -> Seq<char> {
    trimmed_between(s, 0, s.len() as int)
}

/// The maximal runs of characters other than white space in `s`, from position `i` on.
pub open spec fn words_from(s: Seq<char>, i: int) -> Seq<Seq<char>>
    decreases s.len() - i,
{
    let a = skip_spaces(s, i);
    let b = skip_word(s, a);
    if 0 <= i <= a && a < b && b <= s.len() {
        seq![s.subrange(a, b)] + words_from(s, b)
    } else {
        Seq::empty()
    }
}

/// The maximal runs of characters other than white space in `s`.
pub open spec fn words(s: Seq<char>) -> Seq<Seq<char>> {
    words_from(s, 0)
}

/// Whether one of the parts that `sep` divides `s` into, from position `i` on, is `word`
/// once trimmed.
pub open spec fn some_item_is(s: Seq<char>, i: int, sep: char, word: Seq<char>) -> bool
    decreases s.len() - i,
{
    let k = find_from(s, i, sep);
    if 0 <= i <= k && k <= s.len() {
        trimmed_between(s, i, k) == word || (k < s.len() && some_item_is(s, k + 1, sep, word))
    } else {
        false
    }
}

/// A search for `c` ends at the first `c`, and at the end where there is none.
pub proof fn lemma_find_from_bounds(s: Seq<char>, i: int, c: char)
    requires
        0 <= i <= s.len(),
    ensures
        i <= find_from(s, i, c) <= s.len(),
        forall|j: int| i <= j < find_from(s, i, c) ==> s[j] != c,
        find_from(s, i, c) < s.len() ==> s[find_from(s, i, c)] == c,
    decreases s.len() - i,
{
    if i < s.len() && s[i] != c {
        lemma_find_from_bounds(s, i + 1, c);
    }
}

/// Skipping white space ends at the first character that is none, or at the end.
pub proof fn lemma_skip_spaces_bounds(s: Seq<char>, i: int)
    requires
        0 <= i <= s.len(),
    ensures
        i <= skip_spaces(s, i) <= s.len(),
        skip_spaces(s, i) < s.len() ==> !is_space(s[skip_spaces(s, i)]),
    decreases s.len() - i,
{
    if i < s.len() && is_space(s[i]) {
        lemma_skip_spaces_bounds(s, i + 1);
    }
}

/// Skipping a word passes only characters that are no white space, and at least one if
/// it starts on such a character.
pub proof fn lemma_skip_word_bounds(s: Seq<char>, i: int)
    requires
        0 <= i <= s.len(),
    ensures
        i <= skip_word(s, i) <= s.len(),
        i < s.len() && !is_space(s[i]) ==> i < skip_word(s, i),
        forall|j: int| i <= j < skip_word(s, i) ==> !is_space(s[j]),
    decreases s.len() - i,
{
    if i < s.len() && !is_space(s[i]) {
        lemma_skip_word_bounds(s, i + 1);
    }
}

/// Whether the stretch of `s` from `lo` up to `hi` is one of the parts that `sep` divides
/// `s` into: it holds no `sep`, and on each side it ends at a `sep` or at an end of `s`.
pub open spec fn is_item(s: Seq<char>, sep: char, lo: int, hi: int) -> bool {
    &&& 0 <= lo <= hi <= s.len()
    &&& (lo == 0 || s[lo - 1] == sep)
    &&& (hi == s.len() || s[hi] == sep)
    &&& forall|j: int| lo <= j < hi ==> s[j] != sep
}

/// Whether a part of `s` that starts at or after `i` is `word` once trimmed.
pub open spec fn has_item_from(s: Seq<char>, i: int, sep: char, word: Seq<char>) -> bool {
    exists|lo: int, hi: int|
        i <= lo && #[trigger] is_item(s, sep, lo, hi) && trimmed_between(s, lo, hi) == word
}

proof fn lemma_items_from(s: Seq<char>, i: int, sep: char, word: Seq<char>)
    requires
        0 <= i <= s.len(),
        i == 0 || s[i - 1] == sep,
    ensures
        some_item_is(s, i, sep, word) <==> has_item_from(s, i, sep, word),
    decreases s.len() - i,
{
    lemma_find_from_bounds(s, i, sep);
    let k = find_from(s, i, sep);
    if k < s.len() {
        lemma_items_from(s, k + 1, sep, word);
    }
    if some_item_is(s, i, sep, word) {
        if trimmed_between(s, i, k) == word {
            assert(is_item(s, sep, i, k));
        } else {
            let (lo, hi) = choose|lo: int, hi: int|
                k + 1 <= lo && #[trigger] is_item(s, sep, lo, hi) && trimmed_between(s, lo, hi)
                    == word;
            assert(i <= lo && is_item(s, sep, lo, hi));
        }
    }
    if has_item_from(s, i, sep, word) {
        let (lo, hi) = choose|lo: int, hi: int|
            i <= lo && #[trigger] is_item(s, sep, lo, hi) && trimmed_between(s, lo, hi) == word;
        if lo == i {
            assert(hi == k);
        } else {
            assert(s[lo - 1] == sep);
            assert(k <= lo - 1);
            assert(k + 1 <= lo && is_item(s, sep, lo, hi));
        }
    }
}

/// Only membership counts: a list holds `word` as an item exactly if some part between
/// two separators, wherever in the list it stands, is `word` once trimmed.
pub proof fn lemma_some_item_is_membership(s: Seq<char>, sep: char, word: Seq<char>)
    ensures
        some_item_is(s, 0, sep, word) <==> exists|lo: int, hi: int| #[trigger]
            is_item(s, sep, lo, hi) && trimmed_between(s, lo, hi) == word,
{
    lemma_items_from(s, 0, sep, word);
    if has_item_from(s, 0, sep, word) {
        let (lo, hi) = choose|lo: int, hi: int|
            0 <= lo && #[trigger] is_item(s, sep, lo, hi) && trimmed_between(s, lo, hi) == word;
        assert(is_item(s, sep, lo, hi) && trimmed_between(s, lo, hi) == word);
    }
    if exists|lo: int, hi: int| #[trigger]
        is_item(s, sep, lo, hi) && trimmed_between(s, lo, hi) == word {
        let (lo, hi) = choose|lo: int, hi: int| #[trigger]
            is_item(s, sep, lo, hi) && trimmed_between(s, lo, hi) == word;
        assert(0 <= lo && is_item(s, sep, lo, hi));
    }
}

/// Whether `part` stands in `text` at position `i`.
pub open spec fn occurs_at(text: Seq<char>, part: Seq<char>, i: int) -> bool {
    0 <= i && i + part.len() <= text.len() && text.subrange(i, i + part.len()) == part
}

/// Whether `s` ends with `part`.
pub open spec fn ends_with(s: Seq<char>, part: Seq<char>) -> bool {
    part.len() <= s.len() && s.subrange(s.len() - part.len(), s.len() as int) == part
}

/// Whether `s` holds neither a carriage return nor a line feed.
pub open spec fn is_one_line(s: Seq<char>) -> bool {
    forall|j: int| 0 <= j < s.len() ==> s[j] != '\r' && s[j] != '\n'
}

/// The end of a line on the wire: a carriage return and a line feed.
pub open spec fn line_end() -> Seq<char> {
    seq!['\r', '\n']
}

/// The text made of `lines`, each followed by the end of a line.
pub open spec fn joined(lines: Seq<Seq<char>>) -> Seq<char>
    decreases lines.len(),
{
    if lines.len() == 0 {
        Seq::empty()
    } else {
        joined(lines.drop_last()) + lines.last() + line_end()
    }
}

/// Where line `k` starts in the text made of `lines`.
pub open spec fn line_start(lines: Seq<Seq<char>>, k: int) -> int {
    joined(lines.take(k)).len() as int
}

/// One more line adds that line and its end to the text.
pub proof fn lemma_joined_push(lines: Seq<Seq<char>>, line: Seq<char>)
    ensures
        joined(lines.push(line)) == joined(lines) + line + line_end(),
{
    assert(lines.push(line).drop_last() =~= lines);
}

/// Two texts of one line each make one line.
pub proof fn lemma_one_line_concat(a: Seq<char>, b: Seq<char>)
    requires
        is_one_line(a),
        is_one_line(b),
    ensures
        is_one_line(a + b),
{
    assert forall|j: int| 0 <= j < (a + b).len() implies (a + b)[j] != '\r' && (a + b)[j]
        != '\n' by {
        if j < a.len() {
            assert((a + b)[j] == a[j]);
        } else {
            assert((a + b)[j] == b[j - a.len()]);
        }
    }
}

/// In a text made of lines, a line followed by its end stands only where one of the
/// lines ends with it: at no other place, and not across two lines.
pub proof fn lemma_line_stands_at_a_line_end(lines: Seq<Seq<char>>, line: Seq<char>, i: int)
    requires
        forall|k: int| 0 <= k < lines.len() ==> is_one_line(#[trigger] lines[k]),
        is_one_line(line),
        line.len() > 0,
        occurs_at(joined(lines), line + line_end(), i),
    ensures
        exists|k: int|
            0 <= k < lines.len() && ends_with(#[trigger] lines[k], line) && i == line_start(
                lines,
                k,
            ) + lines[k].len() - line.len(),
    decreases lines.len(),
{
    let text = joined(lines);
    let part = line + line_end();
    let m = line.len() as int;
    assert(part.len() == m + 2);
    assert(part[m] == '\r' && part[m + 1] == '\n');
    assert(text.subrange(i, i + m + 2)[m] == text[i + m]);
    assert(text.subrange(i, i + m + 2)[m + 1] == text[i + m + 1]);
    assert forall|j: int| 0 <= j < m implies text[i + j] == line[j] by {
        assert(text.subrange(i, i + m + 2)[j] == text[i + j]);
        assert(part[j] == line[j]);
    }
    if lines.len() == 0 {
        assert(text.len() == 0);
    } else {
        let init = lines.drop_last();
        let last = lines.last();
        let head = joined(init);
        let a = head.len() as int;
        let b = last.len() as int;
        assert(text == head + last + line_end());
        assert(text.len() == a + b + 2);
        let p = i + m;
        if init.len() > 0 {
            assert(head == joined(init.drop_last()) + init.last() + line_end());
            assert(head[a - 1] == '\n');
        } else {
            assert(a == 0);
        }
        if p < a {
            assert(text[p] == head[p]);
            assert(p != a - 1);
            assert(text.subrange(i, i + m + 2) =~= head.subrange(i, i + m + 2));
            assert(occurs_at(head, part, i));
            assert forall|k: int| 0 <= k < init.len() implies is_one_line(
                #[trigger] init[k],
            ) by {
                assert(init[k] == lines[k]);
            }
            lemma_line_stands_at_a_line_end(init, line, i);
            let k = choose|k: int|
                0 <= k < init.len() && ends_with(#[trigger] init[k], line) && i == line_start(
                    init,
                    k,
                ) + init[k].len() - line.len();
            assert(init[k] == lines[k]);
            assert(init.take(k) =~= lines.take(k));
            assert(ends_with(lines[k], line));
        } else if p < a + b {
            assert(text[p] == last[p - a]);
            assert(false);
        } else if p == a + b {
            if m > b {
                assert(a >= 1);
                assert(text[a - 1] == head[a - 1]);
                assert(text[i + (a - 1 - i)] == line[a - 1 - i]);
                assert(false);
            }
            assert(last.subrange(b - m, b) =~= line) by {
                assert forall|j: int| 0 <= j < m implies last.subrange(b - m, b)[j]
                    == line[j] by {
                    assert(text[i + j] == last[i + j - a]);
                }
            }
            let k = lines.len() - 1;
            assert(lines.take(k) =~= init);
            assert(ends_with(lines[k], line));
        } else {
            assert(text[a + b + 1] == '\n');
            assert(false);
        }
    }
}

/// The characters of `s`, in order, as a vector that can be indexed in constant time.
pub fn chars_of(s: &str) -> (out: Vec<char>)
    ensures
        out@ == s@,
{
    let mut out: Vec<char> = Vec::new();
    let mut it = s.chars();
    loop
        invariant
            it.obeys_prophetic_iter_laws(),
            out@ + it.remaining() == s@,
            it.decrease() is Some,
        decreases it.decrease()->0,
    {
        let next = it.next();
        proof {
            broadcast use vstd::string::next_postcondition;

        }
        match next {
            Some(c) => {
                out.push(c);
                assert(out@ + it.remaining() =~= s@);
            },
            None => {
                assert(out@ =~= s@);
                return out;
            },
        }
    }
}

/// Whether `c` is white space.
pub(crate) fn char_is_space(c: char) -> (b: bool)
    ensures
        b == is_space(c),
{
    let u: u32 = c as u32;
    (0x09 <= u && u <= 0x0D) || u == 0x20 || u == 0x85 || u == 0xA0 || u == 0x1680 || (0x2000 <= u
        && u <= 0x200A) || u == 0x2028 || u == 0x2029 || u == 0x202F || u == 0x205F || u == 0x3000
}

/// Whether `c` is a decimal digit.
pub(crate) fn char_is_digit(c: char) -> (b: bool)
    ensures
        b == is_digit(c),
{
    let u: u32 = c as u32;
    0x30 <= u && u <= 0x39
}

/// Whether `a` and `b` are the same character up to the case of ASCII letters.
pub(crate) fn chars_same_letter(a: char, b: char) -> (r: bool)
    ensures
        r == same_letter(a, b),
{
    let x: u32 = a as u32;
    let y: u32 = b as u32;
    a == b || (0x41 <= x && x <= 0x5A && y == x + 0x20) || (0x41 <= y && y <= 0x5A && x == y
        + 0x20)
}

/// Whether the characters of `v` between `lo` and `hi` are exactly those of `w`.
pub(crate) fn range_equals(v: &Vec<char>, lo: usize, hi: usize, w: &Vec<char>) -> (r: bool)
    requires
        lo <= hi <= v.len(),
    ensures
        r == (v@.subrange(lo as int, hi as int) == w@),
{
    if hi - lo != w.len() {
        return false;
    }
    let mut i: usize = 0;
    while i < w.len()
        invariant
            lo <= hi <= v.len(),
            hi - lo == w.len(),
            i <= w.len(),
            forall|j: int| 0 <= j < i ==> v@[lo + j] == w@[j],
        decreases w.len() - i,
    {
        if v[lo + i] != w[i] {
            assert(v@.subrange(lo as int, hi as int)[i as int] != w@[i as int]);
            return false;
        }
        i += 1;
    }
    assert(v@.subrange(lo as int, hi as int) =~= w@);
    true
}

/// Whether `v` and `w` hold the same characters.
pub(crate) fn chars_equal(v: &Vec<char>, w: &Vec<char>) -> (r: bool)
    ensures
        r == (v@ == w@),
{
    assert(v@.subrange(0, v@.len() as int) =~= v@);
    range_equals(v, 0, v.len(), w)
}

/// Whether `a` and `b` hold the same characters.
pub fn str_equal(a: &str, b: &str) -> (r: bool)
    ensures
        r == (a@ == b@),
{
    let x = chars_of(a);
    let y = chars_of(b);
    chars_equal(&x, &y)
}

/// Whether `v` and `w` are equal up to the case of their ASCII letters.
pub(crate) fn chars_equal_ignoring_case(v: &Vec<char>, w: &Vec<char>) -> (r: bool)
    ensures
        r == same_text_ignoring_case(v@, w@),
{
    if v.len() != w.len() {
        return false;
    }
    let mut i: usize = 0;
    while i < v.len()
        invariant
            v.len() == w.len(),
            i <= v.len(),
            forall|j: int| 0 <= j < i ==> same_letter(#[trigger] v@[j], w@[j]),
        decreases v.len() - i,
    {
        if !chars_same_letter(v[i], w[i]) {
            return false;
        }
        i += 1;
    }
    true
}

/// Whether `v` begins with the characters of `p`.
pub(crate) fn has_prefix(v: &Vec<char>, p: &Vec<char>) -> (r: bool)
    ensures
        r == p@.is_prefix_of(v@),
{
    if p.len() > v.len() {
        return false;
    }
    let r = range_equals(v, 0, p.len(), p);
    r
}

/// Whether `v` holds `c`.
pub(crate) fn contains_char(v: &Vec<char>, c: char) -> (r: bool)
    ensures
        r == v@.contains(c),
{
    let mut i: usize = 0;
    while i < v.len()
        invariant
            i <= v.len(),
            forall|j: int| 0 <= j < i ==> v@[j] != c,
        decreases v.len() - i,
    {
        if v[i] == c {
            return true;
        }
        i += 1;
    }
    false
}

/// The first position at or after `start` that holds `c`, or the length of `v`.
pub(crate) fn find_char(v: &Vec<char>, start: usize, c: char) -> (k: usize)
    requires
        start <= v.len(),
    ensures
        k == find_from(v@, start as int, c),
        start <= k <= v.len(),
{
    let mut i: usize = start;
    while i < v.len() && v[i] != c
        invariant
            start <= i <= v.len(),
            find_from(v@, start as int, c) == find_from(v@, i as int, c),
        decreases v.len() - i,
    {
        i += 1;
    }
    i
}

/// The first position at or after `start` that holds no white space, or the length of `v`.
pub(crate) fn skip_spaces_at(v: &Vec<char>, start: usize) -> (k: usize)
    requires
        start <= v.len(),
    ensures
        k == skip_spaces(v@, start as int),
        start <= k <= v.len(),
{
    let mut i: usize = start;
    while i < v.len() && char_is_space(v[i])
        invariant
            start <= i <= v.len(),
            skip_spaces(v@, start as int) == skip_spaces(v@, i as int),
        decreases v.len() - i,
    {
        i += 1;
    }
    i
}

/// The first position at or after `start` that holds white space, or the length of `v`.
pub(crate) fn skip_word_at(v: &Vec<char>, start: usize) -> (k: usize)
    requires
        start <= v.len(),
    ensures
        k == skip_word(v@, start as int),
        start <= k <= v.len(),
{
    let mut i: usize = start;
    while i < v.len() && !char_is_space(v[i])
        invariant
            start <= i <= v.len(),
            skip_word(v@, start as int) == skip_word(v@, i as int),
        decreases v.len() - i,
    {
        i += 1;
    }
    i
}

/// The bounds of the part of `v` between `lo` and `hi` without its leading and trailing
/// white space.
pub(crate) fn trim_bounds(v: &Vec<char>, lo: usize, hi: usize) -> (r: (usize, usize))
    requires
        lo <= hi <= v.len(),
    ensures
        r.0 == trim_front(v@, lo as int, hi as int),
        r.1 == trim_back(v@, r.0 as int, hi as int),
        lo <= r.0 <= r.1 <= hi,
        v@.subrange(r.0 as int, r.1 as int) == trimmed_between(v@, lo as int, hi as int),
{
    let mut a: usize = lo;
    while a < hi && char_is_space(v[a])
        invariant
            lo <= a <= hi <= v.len(),
            trim_front(v@, lo as int, hi as int) == trim_front(v@, a as int, hi as int),
        decreases hi - a,
    {
        a += 1;
    }
    let mut b: usize = hi;
    while a < b && char_is_space(v[b - 1])
        invariant
            a <= b <= hi <= v.len(),
            trim_back(v@, a as int, hi as int) == trim_back(v@, a as int, b as int),
        decreases b - a,
    {
        b -= 1;
    }
    (a, b)
}

/// The bounds of the words of `v`, in order.
pub(crate) fn word_bounds(v: &Vec<char>) -> (r: Vec<(usize, usize)>)
    ensures
        r@.len() == words(v@).len(),
        forall|k: int|
            0 <= k < r@.len() ==> (#[trigger] r@[k]).0 <= r@[k].1 <= v@.len() && v@.subrange(
                r@[k].0 as int,
                r@[k].1 as int,
            ) == words(v@)[k],
{
    let mut out: Vec<(usize, usize)> = Vec::new();
    let mut pos: usize = 0;
    let ghost mut found: Seq<Seq<char>> = Seq::empty();
    loop
        invariant
            pos <= v.len(),
            found.len() == out@.len(),
            words(v@) == found + words_from(v@, pos as int),
            forall|k: int|
                0 <= k < out@.len() ==> (#[trigger] out@[k]).0 <= out@[k].1 <= v@.len()
                    && v@.subrange(out@[k].0 as int, out@[k].1 as int) == found[k],
        decreases v.len() - pos,
    {
        let a = skip_spaces_at(v, pos);
        proof {
            lemma_skip_spaces_bounds(v@, pos as int);
            lemma_skip_word_bounds(v@, a as int);
        }
        if a >= v.len() {
            assert(words_from(v@, pos as int) =~= Seq::<Seq<char>>::empty());
            assert(words(v@) =~= found);
            return out;
        }
        let b = skip_word_at(v, a);
        proof {
            let word = v@.subrange(a as int, b as int);
            assert(words_from(v@, pos as int) == seq![word] + words_from(v@, b as int));
            assert(found + (seq![word] + words_from(v@, b as int)) =~= found.push(word)
                + words_from(v@, b as int));
            found = found.push(word);
        }
        out.push((a, b));
        pos = b;
    }
}

} // verus!
