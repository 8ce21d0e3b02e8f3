//! Text as sequences of characters: trimming, splitting and reading unsigned numbers.
use vstd::prelude::*;
use vstd::slice::slice_subrange;

verus! {

// ---------------------------------------------------------------------------
// Characters and strings
// ---------------------------------------------------------------------------

/// `String::push`: the character is appended to the string, and nothing else changes.
pub assume_specification[ String::push ](s: &mut String, ch: char)
    ensures
        final(s)@ == old(s)@.push(ch),
;

/// The characters of a string.
pub fn chars_of(s: &str) -> (chars: Vec<char>)
    ensures
        chars@ == s@,
{
    let mut chars: Vec<char> = Vec::new();
    for c in iter: s.chars()
        invariant
            iter.seq() == s@,
            chars@ == s@.take(iter.index() as int),
    {
        chars.push(c);
        assert(chars@ =~= s@.take(iter.index() + 1));
    }
    assert(chars@ =~= s@);
    chars
}

/// The string made of the given characters.
pub fn string_of(chars: &[char]) -> (s: String)
    ensures
        s@ == chars@,
{
    let mut s = String::new();
    let mut i: usize = 0;
    while i < chars.len()
        invariant
            i <= chars.len(),
            s@ == chars@.take(i as int),
        decreases chars.len() - i,
    {
        s.push(chars[i]);
        assert(chars@.take(i as int).push(chars@[i as int]) =~= chars@.take(i + 1));
        i = i + 1;
    }
    assert(chars@.take(i as int) =~= chars@);
    s
}

/// Whether two character sequences are the same.
pub fn same_chars(a: &[char], b: &[char]) -> (r: bool)
    ensures
        r == (a@ == b@),
{
    if a.len() != b.len() {
        return false;
    }
    let mut i: usize = 0;
    while i < a.len()
        invariant
            i <= a.len(),
            a.len() == b.len(),
            forall|j: int| 0 <= j < i ==> a@[j] == b@[j],
        decreases a.len() - i,
    {
        if a[i] != b[i] {
            return false;
        }
        i = i + 1;
    }
    assert(a@ =~= b@);
    true
}

/// Whether the characters spell the given word.
pub fn spells(chars: &[char], word: &str) -> (r: bool)
    ensures
        r == (chars@ == word@),
{
    let w = chars_of(word);
    same_chars(chars, w.as_slice())
}

// ---------------------------------------------------------------------------
// Trimming
// ---------------------------------------------------------------------------

/// The characters with the Unicode property `White_Space`.
pub open spec fn white_space(c: char) -> bool {
    ||| '\u{9}' <= c <= '\u{d}'
    ||| c == '\u{20}'
    ||| c == '\u{85}'
    ||| c == '\u{a0}'
    ||| c == '\u{1680}'
    ||| '\u{2000}' <= c <= '\u{200a}'
    ||| c == '\u{2028}'
    ||| c == '\u{2029}'
    ||| c == '\u{202f}'
    ||| c == '\u{205f}'
    ||| c == '\u{3000}'
}

/// Whether a character is white space.
pub fn is_white_space(c: char) -> (r: bool)
    ensures
        r == white_space(c),
{
    ('\u{9}' <= c && c <= '\u{d}') || c == '\u{20}' || c == '\u{85}' || c == '\u{a0}' || c
        == '\u{1680}' || ('\u{2000}' <= c && c <= '\u{200a}') || c == '\u{2028}' || c == '\u{2029}'
        || c == '\u{202f}' || c == '\u{205f}' || c == '\u{3000}'
}

/// Which characters a trim takes off.
#[derive(Clone, Copy, Debug, PartialEq, Eq)]
pub enum Trim {
    /// White space.
    White,
    /// Either of two characters.
    Either(char, char),
}

impl Trim {
    /// Whether the trim takes `c` off.
    pub open spec fn takes(self, c: char) -> bool {
        match self {
            Trim::White => white_space(c),
            Trim::Either(a, b) => c == a || c == b,
        }
    }

    fn applies(self, c: char) -> (r: bool)
        ensures
            r == self.takes(c),
    {
        match self {
            Trim::White => is_white_space(c),
            Trim::Either(a, b) => c == a || c == b,
        }
    }
}

/// `s` without the characters in front that the trim takes off.
pub open spec fn trim_start(s: Seq<char>, trim: Trim) -> Seq<char>
    decreases s.len(),
{
    if s.len() > 0 && trim.takes(s[0]) {
        trim_start(s.skip(1), trim)
    } else {
        s
    }
}

/// `s` without the characters at its end that the trim takes off.
pub open spec fn trim_end(s: Seq<char>, trim: Trim) -> Seq<char>
    decreases s.len(),
{
    if s.len() > 0 && trim.takes(s.last()) {
        trim_end(s.drop_last(), trim)
    } else {
        s
    }
}

/// `s` without the characters at both ends that the trim takes off.
pub open spec fn trimmed(s: Seq<char>, trim: Trim) -> Seq<char> {
    trim_end(trim_start(s, trim), trim)
}

/// Takes the trimmed characters off both ends.
pub fn trim_chars<'a>(s: &'a [char], trim: Trim) -> (r: &'a [char])
    ensures
        r@ == trimmed(s@, trim),
{
    let n: usize = s.len();
    let mut from: usize = 0;
    assert(s@.skip(0) =~= s@);
    while from < n && trim.applies(s[from])
        invariant
            from <= n,
            n == s.len(),
            trim_start(s@.skip(from as int), trim) == trim_start(s@, trim),
        ensures
            from < n ==> !trim.takes(s@[from as int]),
        decreases n - from,
    {
        assert(s@.skip(from as int).skip(1) =~= s@.skip(from + 1));
        from = from + 1;
    }
    assert(trim_start(s@, trim) == s@.skip(from as int));
    let mut to: usize = n;
    assert(s@.subrange(from as int, n as int) =~= s@.skip(from as int));
    while from < to && trim.applies(s[to - 1])
        invariant
            from <= to <= n,
            n == s.len(),
            trim_end(s@.subrange(from as int, to as int), trim) == trim_end(
                s@.skip(from as int),
                trim,
            ),
        ensures
            from < to ==> !trim.takes(s@[to - 1]),
        decreases to - from,
    {
        assert(s@.subrange(from as int, to as int).drop_last() =~= s@.subrange(
            from as int,
            to - 1,
        ));
        to = to - 1;
    }
    slice_subrange(s, from, to)
}

// ---------------------------------------------------------------------------
// Splitting
// ---------------------------------------------------------------------------

/// The number of characters of `s` in front of the first `c`; all of them where there is none.
pub open spec fn until(s: Seq<char>, c: char) -> nat
    decreases s.len(),
{
    if s.len() == 0 || s[0] == c {
        0
    } else {
        1 + until(s.skip(1), c)
    }
}

/// `until` is the first position of `c`, or the length.
pub proof fn until_is_first(s: Seq<char>, c: char)
    ensures
        until(s, c) <= s.len(),
        until(s, c) < s.len() ==> s[until(s, c) as int] == c,
        forall|j: int| 0 <= j < until(s, c) ==> s[j] != c,
    decreases s.len(),
{
    if s.len() > 0 && s[0] != c {
        until_is_first(s.skip(1), c);
        assert forall|j: int| 0 <= j < until(s, c) implies s[j] != c by {
            if j > 0 {
                assert(s[j] == s.skip(1)[j - 1]);
            }
        }
    }
}

/// A position with `c` on it and none before it is where `until` points.
pub(crate) proof fn first_is_until(s: Seq<char>, c: char, i: int)
    requires
        0 <= i <= s.len(),
        i < s.len() ==> s[i] == c,
        forall|j: int| 0 <= j < i ==> s[j] != c,
    ensures
        until(s, c) == i,
{
    until_is_first(s, c);
    if until(s, c) < i {
        assert(s[until(s, c) as int] != c);
    }
}

/// Finds the first `c`, or the length where there is none.
pub fn find_char(s: &[char], c: char) -> (i: usize)
    ensures
        i == until(s@, c),
        i <= s.len(),
{
    let mut i: usize = 0;
    while i < s.len() && s[i] != c
        invariant
            i <= s.len(),
            forall|j: int| 0 <= j < i ==> s@[j] != c,
        ensures
            i < s.len() ==> s@[i as int] == c,
        decreases s.len() - i,
    {
        i = i + 1;
    }
    proof {
        first_is_until(s@, c, i as int);
    }
    i
}

/// What a list of slices holds.
pub open spec fn pieces(parts: Seq<&[char]>) -> Seq<Seq<char>> {
    Seq::new(parts.len(), |i: int| parts[i]@)
}

/// The pieces of `s` between one `c` and the next: one more than there are `c`s in it.
pub open spec fn split(s: Seq<char>, c: char) -> Seq<Seq<char>>
    decreases s.len(),
{
    let i = until(s, c) as int;
    if i >= s.len() {
        seq![s]
    } else {
        seq![s.take(i)] + split(s.skip(i + 1), c)
    }
}

/// Splits at every `c`.
pub fn split_chars<'a>(s: &'a [char], c: char) -> (parts: Vec<&'a [char]>)
    ensures
        pieces(parts@) == split(s@, c),
{
    let mut parts: Vec<&'a [char]> = Vec::new();
    let mut rest: &'a [char] = s;
    assert(pieces(parts@) + split(rest@, c) =~= split(s@, c));
    loop
        invariant_except_break
            pieces(parts@) + split(rest@, c) == split(s@, c),
        ensures
            pieces(parts@) == split(s@, c),
        decreases rest.len(),
    {
        let i: usize = find_char(rest, c);
        let ghost before = parts@;
        if i == rest.len() {
            parts.push(rest);
            assert(pieces(parts@) =~= pieces(before) + split(rest@, c));
            break;
        }
        let piece: &'a [char] = slice_subrange(rest, 0, i);
        parts.push(piece);
        let next: &'a [char] = slice_subrange(rest, i + 1, rest.len());
        proof {
            assert(piece@ =~= rest@.take(i as int));
            assert(next@ =~= rest@.skip(i + 1));
            assert(split(rest@, c) =~= seq![piece@] + split(next@, c));
            assert(pieces(parts@) + split(next@, c) =~= pieces(before) + split(rest@, c));
        }
        rest = next;
    }
    parts
}

/// A line without the carriage return that ends it.
pub open spec fn without_cr(s: Seq<char>) -> Seq<char> {
    if s.len() > 0 && s.last() == '\r' {
        s.drop_last()
    } else {
        s
    }
}

/// The lines of a text. A line ends with a line feed, or with a carriage return and a line feed;
/// the last one may do without.
pub open spec fn lines(s: Seq<char>) -> Seq<Seq<char>>
    decreases s.len(),
{
    let i = until(s, '\n') as int;
    if s.len() == 0 {
        seq![]
    } else if i >= s.len() {
        seq![s]
    } else {
        seq![without_cr(s.take(i))] + lines(s.skip(i + 1))
    }
}

/// Splits a text into its lines.
pub fn split_lines<'a>(s: &'a [char]) -> (parts: Vec<&'a [char]>)
    ensures
        pieces(parts@) == lines(s@),
{
    let mut parts: Vec<&'a [char]> = Vec::new();
    let mut rest: &'a [char] = s;
    assert(pieces(parts@) + lines(rest@) =~= lines(s@));
    while rest.len() > 0
        invariant
            pieces(parts@) + lines(rest@) == lines(s@),
        decreases rest.len(),
    {
        let i: usize = find_char(rest, '\n');
        let ghost before = parts@;
        let end: usize = if i > 0 && i < rest.len() && rest[i - 1] == '\r' {
            i - 1
        } else {
            i
        };
        let line: &'a [char] = slice_subrange(rest, 0, end);
        parts.push(line);
        let start: usize = if i < rest.len() {
            i + 1
        } else {
            i
        };
        let next: &'a [char] = slice_subrange(rest, start, rest.len());
        proof {
            if i < rest.len() {
                assert(line@ =~= without_cr(rest@.take(i as int)));
                assert(next@ =~= rest@.skip(i + 1));
            } else {
                assert(line@ =~= rest@);
                assert(next@ =~= Seq::<char>::empty());
            }
            assert(lines(rest@) =~= seq![line@] + lines(next@));
            assert(pieces(parts@) + lines(next@) =~= pieces(before) + lines(rest@));
        }
        rest = next;
    }
    assert(pieces(parts@) =~= lines(s@));
    parts
}

/// Whether `needle` stands somewhere in `s`.
pub open spec fn contains(s: Seq<char>, needle: Seq<char>) -> bool {
    exists|i: int|
        0 <= i <= s.len() - needle.len() && #[trigger] s.subrange(i, i + needle.len()) == needle
}

/// Looks for `needle` in `s`.
pub fn contains_chars(s: &[char], needle: &[char]) -> (r: bool)
    ensures
        r == contains(s@, needle@),
{
    let n: usize = needle.len();
    if s.len() < n {
        return false;
    }
    let mut i: usize = 0;
    while i <= s.len() - n
        invariant
            n == needle.len(),
            n <= s.len(),
            i <= s.len() - n + 1,
            forall|j: int| 0 <= j < i ==> #[trigger] s@.subrange(j, j + n) != needle@,
        decreases s.len() - n + 1 - i,
    {
        if same_chars(slice_subrange(s, i, i + n), needle) {
            return true;
        }
        if i == s.len() - n {
            return false;
        }
        i = i + 1;
    }
    false
}

// ---------------------------------------------------------------------------
// Unsigned numbers
// ---------------------------------------------------------------------------

/// Whether a character is a decimal digit.
pub open spec fn digit(c: char) -> bool {
    '0' <= c <= '9'
}

/// What a sequence of decimal digits stands for.
pub open spec fn digits_value(s: Seq<char>) -> nat
    decreases s.len(),
{
    if s.len() == 0 {
        0
    } else {
        (digits_value(s.drop_last()) * 10 + (s.last() as int - '0' as int)) as nat
    }
}

/// A number without the plus sign in front of it.
pub open spec fn without_plus(s: Seq<char>) -> Seq<char> {
    if s.len() > 0 && s[0] == '+' {
        s.skip(1)
    } else {
        s
    }
}

/// The unsigned decimal number that `s` spells: digits, at least one of them, with or without a
/// plus sign in front. `None` where `s` spells none, or one above `max`.
pub open spec fn unsigned(s: Seq<char>, max: nat) -> Option<nat> {
    let d = without_plus(s);
    if d.len() > 0 && (forall|i: int| 0 <= i < d.len() ==> digit(#[trigger] d[i])) && digits_value(d)
        <= max {
        Some(digits_value(d))
    } else {
        None
    }
}

/// A longer number is not smaller.
proof fn digits_value_grows(s: Seq<char>, i: int)
    requires
        0 <= i <= s.len(),
        forall|j: int| 0 <= j < s.len() ==> digit(#[trigger] s[j]),
    ensures
        digits_value(s.take(i)) <= digits_value(s),
    decreases s.len() - i,
{
    if i < s.len() {
        digits_value_grows(s, i + 1);
        assert(s.take(i + 1).drop_last() =~= s.take(i));
        assert(s.take(i + 1).last() == s[i]);
    } else {
        assert(s.take(i) =~= s);
    }
}

/// Reads an unsigned decimal number.
pub fn parse_unsigned(s: &[char], max: u64) -> (r: Option<u64>)
    ensures
        r is Some <==> unsigned(s@, max as nat) is Some,
        r matches Some(v) ==> unsigned(s@, max as nat) == Some(v as nat),
        r matches Some(v) ==> v <= max,
{
    let start: usize = if s.len() > 0 && s[0] == '+' {
        1
    } else {
        0
    };
    let d: &[char] = slice_subrange(s, start, s.len());
    assert(d@ =~= without_plus(s@));
    if d.len() == 0 {
        return None;
    }
    let mut value: u64 = 0;
    let mut i: usize = 0;
    while i < d.len()
        invariant
            i <= d.len(),
            d@ == without_plus(s@),
            d.len() > 0,
            value == digits_value(d@.take(i as int)),
            value <= max,
            forall|j: int| 0 <= j < i ==> digit(#[trigger] d@[j]),
        decreases d.len() - i,
    {
        let c: char = d[i];
        if c < '0' || c > '9' {
            assert(!digit(d@[i as int]));
            return None;
        }
        let v: u64 = (c as u32 - '0' as u32) as u64;
        let wide: u128 = value as u128 * 10 + v as u128;
        assert(d@.take(i + 1).drop_last() =~= d@.take(i as int));
        assert(d@.take(i + 1).last() == c);
        assert(wide == digits_value(d@.take(i + 1)));
        if wide > max as u128 {
            proof {
                if forall|j: int| 0 <= j < d.len() ==> digit(#[trigger] d@[j]) {
                    digits_value_grows(d@, i + 1);
                }
            }
            return None;
        }
        value = wide as u64;
        i = i + 1;
    }
    assert(d@.take(i as int) =~= d@);
    Some(value)
}

} // verus!
