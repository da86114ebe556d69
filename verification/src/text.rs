//! Text primitives over sequences of characters.
//!
//! A `&str` is viewed as its sequence of characters (`s@`). Every function
//! here says what it returns as a function of that sequence.

use vstd::prelude::*;
use vstd::string::StringExecFns;
use vstd::string::StrSliceExecFns;

verus! {

/// The characters with the Unicode property `White_Space`.
pub open spec fn is_whitespace(c: char) -> bool {
    let n: u32 = c as u32;
    ||| 0x09 <= n <= 0x0D
    ||| n == 0x20
    ||| n == 0x85
    ||| n == 0xA0
    ||| n == 0x1680
    ||| 0x2000 <= n <= 0x200A
    ||| n == 0x2028
    ||| n == 0x2029
    ||| n == 0x202F
    ||| n == 0x205F
    ||| n == 0x3000
}

/// `s` without its leading whitespace.
pub open spec fn trim_start(s: Seq<char>) -> Seq<char>
    decreases s.len(),
{
    if s.len() > 0 && is_whitespace(s[0]) {
        trim_start(s.skip(1))
    } else {
        s
    }
}

/// `s` without its trailing whitespace.
pub open spec fn trim_end(s: Seq<char>) -> Seq<char>
    decreases s.len(),
{
    if s.len() > 0 && is_whitespace(s.last()) {
        trim_end(s.drop_last())
    } else {
        s
    }
}

/// `s` without its leading and trailing whitespace.
pub open spec fn trimmed(s: Seq<char>) -> Seq<char> {
    trim_end(trim_start(s))
}

/// What `trim_start` returns is what is left of `s` from some index on,
/// and does not start with whitespace.
pub proof fn lemma_trim_start(s: Seq<char>)
    ensures
        exists|k: int| 0 <= k <= s.len() && trim_start(s) == #[trigger] s.skip(k),
        trim_start(s).len() > 0 ==> !is_whitespace(trim_start(s)[0]),
    decreases s.len(),
{
    if s.len() > 0 && is_whitespace(s[0]) {
        lemma_trim_start(s.skip(1));
        let k = choose|k: int| 0 <= k <= s.skip(1).len() && trim_start(s.skip(1)) == #[trigger] s.skip(1).skip(k);
        assert(s.skip(1).skip(k) =~= s.skip(k + 1));
    } else {
        assert(s.skip(0) =~= s);
    }
}

/// What `trim_end` returns is what `s` holds up to some index, and does not
/// end with whitespace.
pub proof fn lemma_trim_end(s: Seq<char>)
    ensures
        exists|k: int| 0 <= k <= s.len() && trim_end(s) == #[trigger] s.take(k),
        trim_end(s).len() > 0 ==> !is_whitespace(trim_end(s).last()),
    decreases s.len(),
{
    if s.len() > 0 && is_whitespace(s.last()) {
        lemma_trim_end(s.drop_last());
        let k = choose|k: int| 0 <= k <= s.drop_last().len() && trim_end(s.drop_last()) == #[trigger] s.drop_last().take(k);
        assert(s.drop_last().take(k) =~= s.take(k));
    } else {
        assert(s.take(s.len() as int) =~= s);
    }
}

/// Trimmed text neither starts nor ends with whitespace.
pub proof fn lemma_trimmed_ends(s: Seq<char>)
    ensures
        trimmed(s).len() > 0 ==> !is_whitespace(trimmed(s)[0]) && !is_whitespace(
            trimmed(s).last(),
        ),
{
    let t = trim_start(s);
    lemma_trim_start(s);
    lemma_trim_end(t);
    let k = choose|k: int| 0 <= k <= t.len() && trim_end(t) == #[trigger] t.take(k);
    if trimmed(s).len() > 0 {
        assert(t.take(k)[0] == t[0]);
    }
}

/// Trimming what is trimmed changes nothing.
pub proof fn lemma_trimmed_idempotent(s: Seq<char>)
    ensures
        trimmed(trimmed(s)) == trimmed(s),
{
    lemma_trimmed_ends(s);
}

/// The least index at or after `from` at which `s` holds `c`, or `s.len()`
/// if there is none.
pub open spec fn index_of_from(s: Seq<char>, c: char, from: int) -> int
    decreases s.len() - from,
{
    if from < 0 || from >= s.len() {
        s.len() as int
    } else if s[from] == c {
        from
    } else {
        index_of_from(s, c, from + 1)
    }
}

/// The least index at which `s` holds `c`, if any.
pub open spec fn index_of(s: Seq<char>, c: char) -> Option<int> {
    let i: int = index_of_from(s, c, 0);
    if i < s.len() {
        Some(i)
    } else {
        None
    }
}

/// `index_of_from` is the first occurrence: nothing before it matches, and
/// it matches unless it is the length.
pub proof fn lemma_index_of_from(s: Seq<char>, c: char, from: int)
    requires
        0 <= from <= s.len(),
    ensures
        from <= index_of_from(s, c, from) <= s.len(),
        index_of_from(s, c, from) < s.len() ==> s[index_of_from(s, c, from)] == c,
        forall|j: int| from <= j < index_of_from(s, c, from) ==> s[j] != c,
    decreases s.len() - from,
{
    if from < s.len() && s[from] != c {
        lemma_index_of_from(s, c, from + 1);
    }
}

/// The end of the run of non-whitespace characters that starts at `i`.
pub open spec fn word_end(s: Seq<char>, i: int) -> int
    decreases s.len() - i,
{
    if i < 0 || i >= s.len() || is_whitespace(s[i]) {
        i
    } else {
        word_end(s, i + 1)
    }
}

/// `word_end` stops at or after `i`, within `s`, on whitespace or at the
/// end, and passes over no whitespace.
pub proof fn lemma_word_end(s: Seq<char>, i: int)
    requires
        0 <= i <= s.len(),
    ensures
        i <= word_end(s, i) <= s.len(),
        word_end(s, i) < s.len() ==> is_whitespace(s[word_end(s, i)]),
        forall|j: int| i <= j < word_end(s, i) ==> !is_whitespace(s[j]),
    decreases s.len() - i,
{
    if i < s.len() && !is_whitespace(s[i]) {
        lemma_word_end(s, i + 1);
    }
}

/// The maximal runs of non-whitespace characters of `s` from `i` on, in
/// order.
pub open spec fn words_from(s: Seq<char>, i: int) -> Seq<Seq<char>>
    decreases s.len() - i,
    via words_from_decreases
{
    if i < 0 || i >= s.len() {
        Seq::empty()
    } else if is_whitespace(s[i]) {
        words_from(s, i + 1)
    } else {
        seq![s.subrange(i, word_end(s, i + 1))] + words_from(s, word_end(s, i + 1))
    }
}

#[via_fn]
proof fn words_from_decreases(s: Seq<char>, i: int) {
    if 0 <= i < s.len() {
        lemma_word_end(s, i + 1);
    }
}

/// The words of `s`: its maximal runs of non-whitespace characters.
pub open spec fn words(s: Seq<char>) -> Seq<Seq<char>> {
    words_from(s, 0)
}

/// What a text that may be missing holds, as a sequence of characters.
pub open spec fn text_of(text: Option<String>) -> Option<Seq<char>> {
    match text {
        Some(t) => Some(t@),
        None => None,
    }
}

/// What a sequence of string slices holds, as sequences of characters.
pub open spec fn str_views(v: Seq<&str>) -> Seq<Seq<char>> {
    v.map_values(|t: &str| t@)
}

/// What a sequence of strings holds, as sequences of characters.
pub open spec fn string_views(v: Seq<String>) -> Seq<Seq<char>> {
    v.map_values(|t: String| t@)
}

/// Whether `a` stands before `b` in the order of characters, which is that
/// of their code points.
pub open spec fn char_lt(a: char, b: char) -> bool {
    (a as u32) < (b as u32)
}

/// Whether `a` stands before `b` in the lexicographic order of their
/// characters, which is the order of the strings.
pub open spec fn lex_lt(a: Seq<char>, b: Seq<char>) -> bool
    decreases a.len(),
{
    if b.len() == 0 {
        false
    } else if a.len() == 0 {
        true
    } else if a[0] != b[0] {
        char_lt(a[0], b[0])
    } else {
        lex_lt(a.skip(1), b.skip(1))
    }
}

/// No text stands before itself.
pub proof fn lemma_lex_lt_irreflexive(a: Seq<char>)
    ensures
        !lex_lt(a, a),
    decreases a.len(),
{
    if a.len() > 0 {
        lemma_lex_lt_irreflexive(a.skip(1));
    }
}

/// The order of texts is transitive.
pub proof fn lemma_lex_lt_transitive(a: Seq<char>, b: Seq<char>, c: Seq<char>)
    requires
        lex_lt(a, b),
        lex_lt(b, c),
    ensures
        lex_lt(a, c),
    decreases a.len(),
{
    if a.len() > 0 && a[0] == b[0] && b[0] == c[0] {
        lemma_lex_lt_transitive(a.skip(1), b.skip(1), c.skip(1));
    }
}

/// Where two texts stand to each other.
#[derive(Clone, Copy, Debug, PartialEq, Eq, Structural)]
pub enum Rank {
    /// The first stands before the second.
    Before,
    /// They are the same text.
    Same,
    /// The first stands after the second.
    After,
}

/// What stands between the occurrences of `c` in `s`, from `from` on.
pub open spec fn split_from(s: Seq<char>, c: char, from: int) -> Seq<Seq<char>>
    decreases s.len() - from,
    via split_from_decreases
{
    if from < 0 || from > s.len() {
        Seq::empty()
    } else if index_of_from(s, c, from) >= s.len() {
        seq![s.subrange(from, s.len() as int)]
    } else {
        seq![s.subrange(from, index_of_from(s, c, from))] + split_from(
            s,
            c,
            index_of_from(s, c, from) + 1,
        )
    }
}

#[via_fn]
proof fn split_from_decreases(s: Seq<char>, c: char, from: int) {
    if 0 <= from <= s.len() {
        lemma_index_of_from(s, c, from);
    }
}

/// What stands between the occurrences of `c` in `s`: one more piece than
/// there are occurrences, each perhaps empty.
pub open spec fn split_on(s: Seq<char>, c: char) -> Seq<Seq<char>> {
    split_from(s, c, 0)
}

/// Whether a character is an upper-case letter of ASCII.
pub open spec fn is_ascii_upper(c: char) -> bool {
    0x41 <= (c as u32) <= 0x5A
}

/// Whether two characters are the same but for the case of an ASCII
/// letter.
pub open spec fn char_eq_ignore_ascii_case(a: char, b: char) -> bool {
    ||| a == b
    ||| is_ascii_upper(a) && (b as u32) == (a as u32) + 32
    ||| is_ascii_upper(b) && (a as u32) == (b as u32) + 32
}

/// Whether two texts are the same but for the case of their ASCII
/// letters.
pub open spec fn eq_ignore_ascii_case(a: Seq<char>, b: Seq<char>) -> bool {
    &&& a.len() == b.len()
    &&& forall|i: int| 0 <= i < a.len() ==> char_eq_ignore_ascii_case(#[trigger] a[i], b[i])
}

/// The list with one more text at its end, unless the list holds it.
pub open spec fn with_once(list: Seq<Seq<char>>, item: Seq<char>) -> Seq<Seq<char>> {
    if list.contains(item) {
        list
    } else {
        list.push(item)
    }
}

/// The list but for one text, the others in their order.
pub open spec fn without(list: Seq<Seq<char>>, item: Seq<char>) -> Seq<Seq<char>>
    decreases list.len(),
{
    if list.len() == 0 {
        list
    } else if list.last() == item {
        without(list.drop_last(), item)
    } else {
        without(list.drop_last(), item).push(list.last())
    }
}

/// Whether `sep` stands in `s` at the index `i`.
pub open spec fn stands_at(s: Seq<char>, sep: Seq<char>, i: int) -> bool {
    0 <= i && i + sep.len() <= s.len() && s.subrange(i, i + sep.len()) == sep
}

/// The least index at or after `from` at which `sep` stands in `s`; `-1`
/// where there is none.
pub open spec fn find_from(s: Seq<char>, sep: Seq<char>, from: int) -> int
    decreases s.len() + 1 - from,
{
    if from < 0 || from + sep.len() > s.len() {
        -1
    } else if stands_at(s, sep, from) {
        from
    } else {
        find_from(s, sep, from + 1)
    }
}

/// What `find_from` finds is at or after `from`, and `sep` stands there.
pub proof fn lemma_find_from(s: Seq<char>, sep: Seq<char>, from: int)
    requires
        0 <= from,
    ensures
        find_from(s, sep, from) >= 0 ==> from <= find_from(s, sep, from) && stands_at(
            s,
            sep,
            find_from(s, sep, from),
        ),
    decreases s.len() + 1 - from,
{
    if from + sep.len() <= s.len() && !stands_at(s, sep, from) {
        lemma_find_from(s, sep, from + 1);
    }
}

/// What stands between the occurrences of a separator that is not empty,
/// from `from` on: the occurrences are taken from left to right, and do
/// not overlap.
pub open spec fn split_str_from(s: Seq<char>, sep: Seq<char>, from: int) -> Seq<Seq<char>>
    decreases s.len() - from,
    via split_str_from_decreases
{
    if sep.len() == 0 || from < 0 || from > s.len() {
        Seq::empty()
    } else if find_from(s, sep, from) < 0 {
        seq![s.subrange(from, s.len() as int)]
    } else {
        seq![s.subrange(from, find_from(s, sep, from))] + split_str_from(
            s,
            sep,
            find_from(s, sep, from) + sep.len(),
        )
    }
}

#[via_fn]
proof fn split_str_from_decreases(s: Seq<char>, sep: Seq<char>, from: int) {
    if 0 <= from {
        lemma_find_from(s, sep, from);
    }
}

/// What an empty separator cuts a text into: each character by itself,
/// with an empty text before the first and after the last.
pub open spec fn split_empty(s: Seq<char>) -> Seq<Seq<char>> {
    seq![Seq::<char>::empty()] + s.map_values(|c: char| seq![c]) + seq![Seq::<char>::empty()]
}

/// What stands between the occurrences of a separator in a text.
pub open spec fn split_by(s: Seq<char>, sep: Seq<char>) -> Seq<Seq<char>> {
    if sep.len() == 0 {
        split_empty(s)
    } else {
        split_str_from(s, sep, 0)
    }
}

/// The texts, each after the other, with the separator before each that
/// does not come first.
pub open spec fn join_indexed(items: Seq<Seq<char>>, sep: Seq<char>) -> Seq<char>
    decreases items.len(),
{
    if items.len() == 0 {
        Seq::empty()
    } else if items.len() == 1 {
        items[0]
    } else {
        join_indexed(items.drop_last(), sep) + sep + items.last()
    }
}

/// The texts, each after the other, with the separator before each that
/// follows some text already.
pub open spec fn join_with(items: Seq<Seq<char>>, sep: Seq<char>) -> Seq<char>
    decreases items.len(),
{
    if items.len() == 0 {
        Seq::empty()
    } else {
        let before = join_with(items.drop_last(), sep);
        if before.len() > 0 {
            before + sep + items.last()
        } else {
            items.last()
        }
    }
}

/// The texts on lines of `max` each: a line feed comes before every text
/// whose index is a multiple of `max` but the first, and a space before
/// every text that follows anything.
pub open spec fn join_multiline_max(items: Seq<Seq<char>>, max: int) -> Seq<char>
    decreases items.len(),
{
    if items.len() == 0 {
        Seq::empty()
    } else {
        let before = join_multiline_max(items.drop_last(), max);
        let i = items.len() - 1;
        let broken = if i > 0 && i % max == 0 {
            before.push('\n')
        } else {
            before
        };
        let spaced = if broken.len() > 0 {
            broken.push(' ')
        } else {
            broken
        };
        spaced + items.last()
    }
}

/// Whether no text occurs twice in the list.
pub open spec fn distinct(list: Seq<Seq<char>>) -> bool {
    forall|i: int, j: int| 0 <= i < j < list.len() ==> #[trigger] list[i] != #[trigger] list[j]
}

/// What `without` leaves is what the list holds but for the text; and it
/// holds no text twice where the list holds none twice.
pub proof fn lemma_without(list: Seq<Seq<char>>, item: Seq<char>)
    ensures
        forall|t: Seq<char>| without(list, item).contains(t) <==> list.contains(t) && t != item,
        distinct(list) ==> distinct(without(list, item)),
    decreases list.len(),
{
    if list.len() > 0 {
        let front = list.drop_last();
        let last = list.last();
        lemma_without(front, item);
        let kept = without(front, item);
        assert forall|t: Seq<char>| without(list, item).contains(t) <==> list.contains(t) && t
            != item by {
            if list.contains(t) {
                let i = choose|i: int| 0 <= i < list.len() && list[i] == t;
                if i < front.len() {
                    assert(front[i] == t);
                    assert(front.contains(t));
                }
            }
            if front.contains(t) {
                let i = choose|i: int| 0 <= i < front.len() && front[i] == t;
                assert(list[i] == t);
            }
            if last != item {
                let out = kept.push(last);
                if out.contains(t) {
                    let i = choose|i: int| 0 <= i < out.len() && out[i] == t;
                    if i < kept.len() {
                        assert(kept[i] == t);
                        assert(kept.contains(t));
                    } else {
                        assert(list[list.len() - 1] == t);
                    }
                }
                if kept.contains(t) {
                    let i = choose|i: int| 0 <= i < kept.len() && kept[i] == t;
                    assert(out[i] == t);
                }
                if t == last {
                    assert(out[out.len() - 1] == t);
                }
            } else {
                if t == last {
                } else if list.contains(t) {
                    assert(front.contains(t));
                }
            }
        }
        if distinct(list) {
            assert forall|i: int, j: int| 0 <= i < j < front.len() implies #[trigger] front[i]
                != #[trigger] front[j] by {
                assert(list[i] != list[j]);
            }
            if last != item {
                let out = kept.push(last);
                assert forall|i: int, j: int| 0 <= i < j < out.len() implies #[trigger] out[i]
                    != #[trigger] out[j] by {
                    if j == kept.len() {
                        assert(kept[i] == out[i]);
                        assert(kept.contains(out[i]));
                        assert(front.contains(out[i]));
                        let k = choose|k: int| 0 <= k < front.len() && front[k] == out[i];
                        assert(list[k] != list[list.len() - 1]);
                    } else {
                        assert(kept[i] != kept[j]);
                    }
                }
            }
        }
    }
}

/// What `with_once` gives holds no text twice where the list holds none
/// twice.
pub proof fn lemma_with_once(list: Seq<Seq<char>>, item: Seq<char>)
    requires
        distinct(list),
    ensures
        distinct(with_once(list, item)),
        with_once(list, item).contains(item),
{
    if !list.contains(item) {
        let out = list.push(item);
        assert forall|i: int, j: int| 0 <= i < j < out.len() implies #[trigger] out[i]
            != #[trigger] out[j] by {
            if j == list.len() {
                assert(list[i] == out[i]);
            } else {
                assert(list[i] != list[j]);
            }
        }
        assert(out[out.len() - 1] == item);
    }
}

/// Whether `p` is a prefix of `s`.
pub open spec fn is_prefix(p: Seq<char>, s: Seq<char>) -> bool {
    p.len() <= s.len() && s.take(p.len() as int) == p
}

/// Tells whether a character is whitespace.
pub fn char_is_whitespace(c: char) -> (b: bool)
    ensures
        b == is_whitespace(c),
{
    let n: u32 = c as u32;
    (0x09 <= n && n <= 0x0D) || n == 0x20 || n == 0x85 || n == 0xA0 || n == 0x1680 || (0x2000 <= n
        && n <= 0x200A) || n == 0x2028 || n == 0x2029 || n == 0x202F || n == 0x205F || n == 0x3000
}

/// The characters of `s`, in order.
pub fn chars_of(s: &str) -> (v: Vec<char>)
    ensures
        v@ == s@,
{
    let mut v: Vec<char> = Vec::new();
    for c in it: s.chars()
        invariant
            v@ == it.seq().take(it.index() as int),
            it.seq() == s@,
    {
        v.push(c);
    }
    v
}

/// Tells whether two texts hold the same characters.
pub fn text_eq(a: &str, b: &str) -> (r: bool)
    ensures
        r == (a@ == b@),
{
    let x = chars_of(a);
    let y = chars_of(b);
    if x.len() != y.len() {
        return false;
    }
    let mut i: usize = 0;
    while i < x.len()
        invariant
            i <= x.len(),
            x.len() == y.len(),
            x@ == a@,
            y@ == b@,
            forall|j: int| 0 <= j < i ==> x@[j] == y@[j],
        decreases x.len() - i,
    {
        if x[i] != y[i] {
            return false;
        }
        i = i + 1;
    }
    assert(x@ =~= y@);
    true
}

/// Tells whether `s` starts with `p`.
pub fn starts_with(s: &str, p: &str) -> (r: bool)
    ensures
        r == is_prefix(p@, s@),
{
    let x = chars_of(s);
    let y = chars_of(p);
    if y.len() > x.len() {
        return false;
    }
    let mut i: usize = 0;
    while i < y.len()
        invariant
            i <= y.len() <= x.len(),
            x@ == s@,
            y@ == p@,
            forall|j: int| 0 <= j < i ==> x@[j] == y@[j],
        decreases y.len() - i,
    {
        if x[i] != y[i] {
            assert(s@.take(p@.len() as int)[i as int] != p@[i as int]);
            return false;
        }
        i = i + 1;
    }
    assert(s@.take(p@.len() as int) =~= p@);
    true
}

/// The index of the first `c` in `s`, counted in characters.
pub fn find_char(s: &str, c: char) -> (r: Option<usize>)
    ensures
        match r {
            Some(i) => index_of(s@, c) == Some(i as int),
            None => index_of(s@, c) is None,
        },
{
    let v = chars_of(s);
    let mut i: usize = 0;
    while i < v.len()
        invariant
            i <= v.len(),
            v@ == s@,
            index_of_from(s@, c, 0) == index_of_from(s@, c, i as int),
        decreases v.len() - i,
    {
        if v[i] == c {
            return Some(i);
        }
        i = i + 1;
    }
    None
}

/// `s` from its character `from` up to, not including, its character `to`.
pub fn slice(s: &str, from: usize, to: usize) -> (r: &str)
    requires
        from <= to <= s@.len(),
    ensures
        r@ == s@.subrange(from as int, to as int),
{
    s.substring_char(from, to)
}

/// The words of `s`, in order: what is left between runs of whitespace.
pub fn split_whitespace(s: &str) -> (out: Vec<&str>)
    ensures
        str_views(out@) == words(s@),
{
    let v = chars_of(s);
    let mut out: Vec<&str> = Vec::new();
    let mut i: usize = 0;
    while i < v.len()
        invariant
            i <= v.len(),
            v@ == s@,
            words(s@) == str_views(out@) + words_from(s@, i as int),
        decreases v.len() - i,
    {
        if char_is_whitespace(v[i]) {
            i = i + 1;
        } else {
            let mut j: usize = i + 1;
            while j < v.len() && !char_is_whitespace(v[j])
                invariant
                    i < j <= v.len(),
                    v@ == s@,
                    word_end(s@, i as int + 1) == word_end(s@, j as int),
                decreases v.len() - j,
            {
                j = j + 1;
            }
            let word = slice(s, i, j);
            proof {
                let before = str_views(out@);
                let rest = words_from(s@, j as int);
                assert(str_views(out@.push(word)) =~= before.push(word@));
                assert(before + (seq![word@] + rest) =~= before.push(word@) + rest);
            }
            out.push(word);
            i = j;
        }
    }
    assert(str_views(out@) + Seq::<Seq<char>>::empty() =~= str_views(out@));
    out
}

/// Tells where `a` stands to `b` in the order of characters.
pub fn compare_chars(a: char, b: char) -> (r: Rank)
    ensures
        match r {
            Rank::Before => char_lt(a, b),
            Rank::Same => a == b,
            Rank::After => char_lt(b, a),
        },
{
    if a == b {
        Rank::Same
    } else if a < b {
        Rank::Before
    } else {
        Rank::After
    }
}

/// Tells where `a` stands to `b` in the order of texts.
pub fn compare(a: &str, b: &str) -> (r: Rank)
    ensures
        match r {
            Rank::Before => lex_lt(a@, b@),
            Rank::Same => a@ == b@,
            Rank::After => lex_lt(b@, a@),
        },
{
    let x = chars_of(a);
    let y = chars_of(b);
    let mut i: usize = 0;
    assert(a@.skip(0) =~= a@ && b@.skip(0) =~= b@);
    while i < x.len() && i < y.len()
        invariant
            i <= x.len(),
            i <= y.len(),
            x@ == a@,
            y@ == b@,
            forall|j: int| 0 <= j < i ==> a@[j] == b@[j],
            lex_lt(a@, b@) == lex_lt(a@.skip(i as int), b@.skip(i as int)),
            lex_lt(b@, a@) == lex_lt(b@.skip(i as int), a@.skip(i as int)),
        decreases x.len() - i,
    {
        match compare_chars(x[i], y[i]) {
            Rank::Before => {
                return Rank::Before;
            },
            Rank::After => {
                return Rank::After;
            },
            Rank::Same => {},
        }
        assert(a@.skip(i as int).skip(1) =~= a@.skip(i as int + 1));
        assert(b@.skip(i as int).skip(1) =~= b@.skip(i as int + 1));
        i = i + 1;
    }
    if i < y.len() {
        Rank::Before
    } else if i < x.len() {
        Rank::After
    } else {
        assert(a@ =~= b@);
        Rank::Same
    }
}

/// What stands between the occurrences of `c` in `s`, in order.
pub fn split_char(s: &str, c: char) -> (out: Vec<&str>)
    ensures
        str_views(out@) == split_on(s@, c),
{
    let v = chars_of(s);
    let mut out: Vec<&str> = Vec::new();
    let mut start: usize = 0;
    let mut j: usize = 0;
    assert(str_views(out@) + split_from(s@, c, 0) =~= split_from(s@, c, 0));
    while j < v.len()
        invariant
            start <= j <= v.len(),
            v@ == s@,
            split_on(s@, c) == str_views(out@) + split_from(s@, c, start as int),
            index_of_from(s@, c, start as int) == index_of_from(s@, c, j as int),
        decreases v.len() - j,
    {
        if v[j] == c {
            let piece = slice(s, start, j);
            proof {
                let before = str_views(out@);
                let rest = split_from(s@, c, j as int + 1);
                assert(str_views(out@.push(piece)) =~= before.push(piece@));
                assert(before + (seq![piece@] + rest) =~= before.push(piece@) + rest);
            }
            out.push(piece);
            start = j + 1;
        }
        j = j + 1;
    }
    let piece = slice(s, start, j);
    proof {
        let before = str_views(out@);
        assert(str_views(out@.push(piece)) =~= before.push(piece@));
        assert(before + seq![piece@] =~= before.push(piece@));
    }
    out.push(piece);
    out
}

/// Tells whether two characters are the same but for the case of an ASCII
/// letter.
pub fn chars_eq_ignore_ascii_case(a: char, b: char) -> (r: bool)
    ensures
        r == char_eq_ignore_ascii_case(a, b),
{
    let x: u32 = a as u32;
    let y: u32 = b as u32;
    a == b || (0x41 <= x && x <= 0x5A && y == x + 32) || (0x41 <= y && y <= 0x5A && x == y + 32)
}

/// Tells whether two texts are the same but for the case of their ASCII
/// letters.
pub fn text_eq_ignore_ascii_case(a: &str, b: &str) -> (r: bool)
    ensures
        r == eq_ignore_ascii_case(a@, b@),
{
    let x = chars_of(a);
    let y = chars_of(b);
    if x.len() != y.len() {
        return false;
    }
    let mut i: usize = 0;
    while i < x.len()
        invariant
            i <= x.len(),
            x.len() == y.len(),
            x@ == a@,
            y@ == b@,
            forall|j: int| 0 <= j < i ==> char_eq_ignore_ascii_case(#[trigger] a@[j], b@[j]),
        decreases x.len() - i,
    {
        if !chars_eq_ignore_ascii_case(x[i], y[i]) {
            return false;
        }
        i = i + 1;
    }
    true
}

/// Tells whether the list holds the text.
pub fn list_contains(list: &Vec<String>, item: &str) -> (b: bool)
    ensures
        b == string_views(list@).contains(item@),
{
    let mut i: usize = 0;
    while i < list.len()
        invariant
            i <= list.len(),
            forall|j: int| 0 <= j < i ==> string_views(list@)[j] != item@,
        decreases list.len() - i,
    {
        if text_eq(list[i].as_str(), item) {
            assert(string_views(list@)[i as int] == item@);
            return true;
        }
        i = i + 1;
    }
    false
}

/// The list but for one text, the others in their order.
pub fn list_without(list: &Vec<String>, item: &str) -> (r: Vec<String>)
    ensures
        string_views(r@) == without(string_views(list@), item@),
{
    let ghost all = string_views(list@);
    let mut r: Vec<String> = Vec::new();
    let mut i: usize = 0;
    assert(all.take(0) =~= Seq::<Seq<char>>::empty());
    assert(string_views(r@) =~= Seq::<Seq<char>>::empty());
    while i < list.len()
        invariant
            i <= list.len(),
            all == string_views(list@),
            string_views(r@) == without(all.take(i as int), item@),
        decreases list.len() - i,
    {
        proof {
            assert(all.take(i as int + 1).drop_last() =~= all.take(i as int));
            assert(all.take(i as int + 1).last() == list@[i as int]@);
        }
        if !text_eq(list[i].as_str(), item) {
            let kept = list[i].clone();
            assert(string_views(r@.push(kept)) =~= string_views(r@).push(kept@));
            r.push(kept);
        }
        i = i + 1;
    }
    assert(all.take(i as int) =~= all);
    r
}

/// A copy of the list.
pub fn list_copy(list: &Vec<String>) -> (r: Vec<String>)
    ensures
        r@ == list@,
{
    let mut r: Vec<String> = Vec::new();
    let mut i: usize = 0;
    while i < list.len()
        invariant
            i <= list.len(),
            r@ == list@.take(i as int),
        decreases list.len() - i,
    {
        r.push(list[i].clone());
        assert(r@ =~= list@.take(i as int + 1));
        i = i + 1;
    }
    assert(list@.take(i as int) =~= list@);
    r
}

/// Tells whether `sep` stands in `s` at the index `i`.
fn sep_stands_at(s: &Vec<char>, sep: &Vec<char>, i: usize) -> (b: bool)
    requires
        i + sep.len() <= s.len(),
    ensures
        b == stands_at(s@, sep@, i as int),
{
    let mut k: usize = 0;
    while k < sep.len()
        invariant
            k <= sep.len(),
            i + sep.len() <= s.len(),
            forall|j: int| 0 <= j < k ==> s@[i + j] == sep@[j],
        decreases sep.len() - k,
    {
        if s[i + k] != sep[k] {
            assert(s@.subrange(i as int, i + sep.len())[k as int] != sep@[k as int]);
            return false;
        }
        k = k + 1;
    }
    assert(s@.subrange(i as int, i + sep.len()) =~= sep@);
    true
}

/// What stands between the occurrences of a separator in a text, in
/// order.
pub fn split_text<'a>(s: &'a str, sep: &str) -> (out: Vec<&'a str>)
    ensures
        str_views(out@) == split_by(s@, sep@),
{
    let v = chars_of(s);
    let p = chars_of(sep);
    let mut out: Vec<&str> = Vec::new();
    if p.len() == 0 {
        out.push(slice(s, 0, 0));
        let mut i: usize = 0;
        let ghost singles = s@.map_values(|c: char| seq![c]);
        assert(out@[0]@ =~= Seq::<char>::empty());
        assert(str_views(out@) =~= seq![Seq::<char>::empty()] + singles.take(0));
        while i < v.len()
            invariant
                i <= v.len(),
                v@ == s@,
                singles == s@.map_values(|c: char| seq![c]),
                str_views(out@) == seq![Seq::<char>::empty()] + singles.take(i as int),
            decreases v.len() - i,
        {
            let piece = slice(s, i, i + 1);
            proof {
                let before = str_views(out@);
                assert(piece@ =~= seq![s@[i as int]]);
                assert(str_views(out@.push(piece)) =~= before.push(piece@));
                assert(singles.take(i as int + 1) =~= singles.take(i as int).push(
                    singles[i as int],
                ));
                assert(before.push(piece@) =~= seq![Seq::<char>::empty()] + singles.take(
                    i as int + 1,
                ));
            }
            out.push(piece);
            i = i + 1;
        }
        let last = slice(s, v.len(), v.len());
        proof {
            let before = str_views(out@);
            assert(singles.take(i as int) =~= singles);
            assert(str_views(out@.push(last)) =~= before.push(last@));
            assert(last@ =~= Seq::<char>::empty());
            assert(before == seq![Seq::<char>::empty()] + singles);
            assert(before.push(last@) =~= (seq![Seq::<char>::empty()] + singles) + seq![
                Seq::<char>::empty(),
            ]);
        }
        out.push(last);
        return out;
    }
    let mut start: usize = 0;
    let mut j: usize = 0;
    let limit: usize = if p.len() <= v.len() {
        v.len() - p.len() + 1
    } else {
        0
    };
    assert(str_views(out@) + split_str_from(s@, sep@, 0) =~= split_str_from(s@, sep@, 0));
    while j < limit
        invariant
            start <= j,
            start <= v.len(),
            p.len() > 0,
            limit + p.len() == v.len() + 1 || (limit == 0 && p.len() > v.len()),
            v@ == s@,
            p@ == sep@,
            split_by(s@, sep@) == str_views(out@) + split_str_from(s@, sep@, start as int),
            find_from(s@, sep@, start as int) == find_from(s@, sep@, j as int),
        decreases v.len() - j,
    {
        if sep_stands_at(&v, &p, j) {
            let piece = slice(s, start, j);
            proof {
                let before = str_views(out@);
                let rest = split_str_from(s@, sep@, j + p.len());
                assert(str_views(out@.push(piece)) =~= before.push(piece@));
                assert(before + (seq![piece@] + rest) =~= before.push(piece@) + rest);
            }
            out.push(piece);
            start = j + p.len();
            j = start;
        } else {
            j = j + 1;
        }
    }
    let piece = slice(s, start, v.len());
    proof {
        let before = str_views(out@);
        assert(str_views(out@.push(piece)) =~= before.push(piece@));
        assert(before + seq![piece@] =~= before.push(piece@));
    }
    out.push(piece);
    out
}

/// Copies of the texts.
pub fn to_strings(items: &Vec<&str>) -> (r: Vec<String>)
    ensures
        string_views(r@) == str_views(items@),
{
    let mut r: Vec<String> = Vec::new();
    let mut i: usize = 0;
    assert(string_views(r@) =~= str_views(items@).take(0));
    while i < items.len()
        invariant
            i <= items.len(),
            string_views(r@) == str_views(items@).take(i as int),
        decreases items.len() - i,
    {
        let copy = String::from_str(items[i]);
        proof {
            let all = str_views(items@);
            assert(string_views(r@.push(copy)) =~= string_views(r@).push(copy@));
            assert(all.take(i as int + 1) =~= all.take(i as int).push(all[i as int]));
        }
        r.push(copy);
        i = i + 1;
    }
    assert(str_views(items@).take(i as int) =~= str_views(items@));
    r
}

/// Joins texts, the separator before each that does not come first.
pub fn join_by_index(items: &Vec<String>, sep: &str) -> (r: String)
    ensures
        r@ == join_indexed(string_views(items@), sep@),
{
    let ghost all = string_views(items@);
    let mut r = String::new();
    let mut i: usize = 0;
    assert(all.take(0) =~= Seq::<Seq<char>>::empty());
    while i < items.len()
        invariant
            i <= items.len(),
            all == string_views(items@),
            r@ == join_indexed(all.take(i as int), sep@),
        decreases items.len() - i,
    {
        proof {
            assert(all.take(i as int + 1).drop_last() =~= all.take(i as int));
            assert(all.take(i as int + 1).last() == items@[i as int]@);
        }
        if i > 0 {
            r.append(sep);
        } else {
            assert(r@ + items@[i as int]@ =~= items@[i as int]@);
            assert(all.take(1)[0] == items@[0]@);
        }
        r.append(items[i].as_str());
        i = i + 1;
    }
    assert(all.take(i as int) =~= all);
    r
}

/// Joins texts, the separator before each that follows some text already.
pub fn join_nonempty(items: &Vec<String>, sep: &str) -> (r: String)
    ensures
        r@ == join_with(string_views(items@), sep@),
{
    let ghost all = string_views(items@);
    let mut r = String::new();
    let mut i: usize = 0;
    assert(all.take(0) =~= Seq::<Seq<char>>::empty());
    while i < items.len()
        invariant
            i <= items.len(),
            all == string_views(items@),
            r@ == join_with(all.take(i as int), sep@),
        decreases items.len() - i,
    {
        proof {
            assert(all.take(i as int + 1).drop_last() =~= all.take(i as int));
            assert(all.take(i as int + 1).last() == items@[i as int]@);
        }
        if r.as_str().unicode_len() > 0 {
            r.append(sep);
        } else {
            assert(r@ + items@[i as int]@ =~= items@[i as int]@);
        }
        r.append(items[i].as_str());
        i = i + 1;
    }
    assert(all.take(i as int) =~= all);
    r
}

/// Joins texts on lines of `max` each.
pub fn join_lines_max(items: &Vec<String>, max: usize) -> (r: String)
    requires
        max > 0,
    ensures
        r@ == join_multiline_max(string_views(items@), max as int),
{
    let ghost all = string_views(items@);
    let mut r = String::new();
    let mut i: usize = 0;
    assert(all.take(0) =~= Seq::<Seq<char>>::empty());
    while i < items.len()
        invariant
            i <= items.len(),
            max > 0,
            all == string_views(items@),
            r@ == join_multiline_max(all.take(i as int), max as int),
        decreases items.len() - i,
    {
        proof {
            assert(all.take(i as int + 1).drop_last() =~= all.take(i as int));
            assert(all.take(i as int + 1).last() == items@[i as int]@);
            reveal_strlit("\n");
            reveal_strlit(" ");
        }
        let ghost before = r@;
        if i > 0 && i % max == 0 {
            r.append("\n");
            assert(r@ =~= before.push('\n'));
        }
        let ghost broken = r@;
        if r.as_str().unicode_len() > 0 {
            r.append(" ");
            assert(r@ =~= broken.push(' '));
        }
        r.append(items[i].as_str());
        i = i + 1;
    }
    assert(all.take(i as int) =~= all);
    r
}

/// `s` without its leading and trailing whitespace.
pub fn trim(s: &str) -> (r: &str)
    ensures
        r@ == trimmed(s@),
{
    let v = chars_of(s);
    let mut a: usize = 0;
    assert(s@.skip(0) =~= s@);
    while a < v.len() && char_is_whitespace(v[a])
        invariant
            a <= v.len(),
            v@ == s@,
            trim_start(s@) == trim_start(s@.skip(a as int)),
        decreases v.len() - a,
    {
        assert(s@.skip(a as int).skip(1) =~= s@.skip(a as int + 1));
        a = a + 1;
    }
    assert(trim_start(s@) == s@.skip(a as int));
    let mut b: usize = v.len();
    assert(s@.skip(a as int) =~= s@.subrange(a as int, b as int));
    while b > a && char_is_whitespace(v[b - 1])
        invariant
            a <= b <= v.len(),
            v@ == s@,
            trimmed(s@) == trim_end(s@.subrange(a as int, b as int)),
        decreases b - a,
    {
        assert(s@.subrange(a as int, b as int).drop_last() =~= s@.subrange(a as int, b as int - 1));
        b = b - 1;
    }
    slice(s, a, b)
}

} // verus!
