//! Laws of trimming, splitting and reading numbers.
use crate::text::Trim;
use vstd::prelude::*;

verus! {

/// Whether all characters are white space.
pub open spec fn blank(s: Seq<char>) -> bool {
    forall|i: int| 0 <= i < s.len() ==> crate::text::white_space(#[trigger] s[i])
}

/// Whether a character does not occur in a text.
pub open spec fn lacks(s: Seq<char>, c: char) -> bool {
    forall|i: int| 0 <= i < s.len() ==> #[trigger] s[i] != c
}

// ---------------------------------------------------------------------------
// Trimming
// ---------------------------------------------------------------------------

/// White space by its code points.
pub proof fn white_space_by_code_points(c: char)
    ensures
        crate::text::white_space(c) <==> set![
            0x9int, 0xa, 0xb, 0xc, 0xd, 0x20, 0x85, 0xa0, 0x1680, 0x2000, 0x2001, 0x2002, 0x2003,
            0x2004, 0x2005, 0x2006, 0x2007, 0x2008, 0x2009, 0x200a, 0x2028, 0x2029, 0x202f, 0x205f,
            0x3000
        ].contains(c as int),
{
}

/// A trim takes off white space, or either of its two characters.
pub proof fn trims_take_what_they_name(c: char, a: char, b: char)
    ensures
        Trim::White.takes(c) <==> crate::text::white_space(c),
        Trim::Either(a, b).takes(a),
        Trim::Either(a, b).takes(b),
        Trim::Either(a, b).takes(c) ==> c == a || c == b,
{
}

proof fn front_goes(front: Seq<char>, rest: Seq<char>, trim: Trim)
    requires
        forall|i: int| 0 <= i < front.len() ==> trim.takes(#[trigger] front[i]),
    ensures
        crate::text::trim_start(front + rest, trim) == crate::text::trim_start(rest, trim),
    decreases front.len(),
{
    if front.len() == 0 {
        assert(front + rest =~= rest);
    } else {
        assert((front + rest)[0] == front[0]);
        assert((front + rest).skip(1) =~= front.skip(1) + rest);
        front_goes(front.skip(1), rest, trim);
    }
}

pub(crate) proof fn back_goes(rest: Seq<char>, back: Seq<char>, trim: Trim)
    requires
        forall|i: int| 0 <= i < back.len() ==> trim.takes(#[trigger] back[i]),
    ensures
        crate::text::trim_end(rest + back, trim) == crate::text::trim_end(rest, trim),
    decreases back.len(),
{
    if back.len() == 0 {
        assert(rest + back =~= rest);
    } else {
        assert((rest + back).last() == back[back.len() - 1]);
        assert((rest + back).drop_last() =~= rest + back.drop_last());
        back_goes(rest, back.drop_last(), trim);
    }
}

/// What stands in front of a character that stays is not touched from behind.
pub(crate) proof fn front_stays(front: Seq<char>, rest: Seq<char>, trim: Trim)
    requires
        front.len() > 0,
        !trim.takes(front.last()),
    ensures
        crate::text::trim_end(front + rest, trim) == front + crate::text::trim_end(rest, trim),
    decreases rest.len(),
{
    if rest.len() == 0 {
        assert(front + rest =~= front);
        assert(front + crate::text::trim_end(rest, trim) =~= front);
    } else if trim.takes(rest.last()) {
        assert((front + rest).drop_last() =~= front + rest.drop_last());
        front_stays(front, rest.drop_last(), trim);
    }
}

/// Trimming takes off all that a trim takes at both ends, and nothing more.
pub proof fn trimming_leaves_the_core(
    front: Seq<char>,
    core: Seq<char>,
    back: Seq<char>,
    trim: Trim,
)
    requires
        forall|i: int| 0 <= i < front.len() ==> trim.takes(#[trigger] front[i]),
        forall|i: int| 0 <= i < back.len() ==> trim.takes(#[trigger] back[i]),
        core.len() > 0 ==> !trim.takes(core[0]) && !trim.takes(core.last()),
    ensures
        crate::text::trimmed(front + core + back, trim) == core,
{
    assert(front + core + back =~= front + (core + back));
    front_goes(front, core + back, trim);
    if core.len() == 0 {
        assert(core + back =~= back + core);
        front_goes(back, core, trim);
        assert(crate::text::trim_start(core, trim) =~= core);
    } else {
        assert((core + back)[0] == core[0]);
        back_goes(core, back, trim);
    }
}

// ---------------------------------------------------------------------------
// Splitting
// ---------------------------------------------------------------------------

/// The parts with a character between one and the next.
pub open spec fn joined(parts: Seq<Seq<char>>, c: char) -> Seq<char>
    decreases parts.len(),
{
    if parts.len() == 0 {
        seq![]
    } else if parts.len() == 1 {
        parts[0]
    } else {
        parts[0] + seq![c] + joined(parts.skip(1), c)
    }
}

/// The first `c` ends the first piece, and the rest is split by itself.
pub proof fn first_separator_ends_the_first_piece(a: Seq<char>, c: char, b: Seq<char>)
    requires
        lacks(a, c),
    ensures
        crate::text::split(a, c) == seq![a],
        crate::text::split(a + seq![c] + b, c) == seq![a] + crate::text::split(b, c),
{
    let s = a + seq![c] + b;
    crate::text::first_is_until(a, c, a.len() as int);
    assert forall|j: int| 0 <= j < a.len() implies s[j] != c by {
        assert(s[j] == a[j]);
    }
    crate::text::first_is_until(s, c, a.len() as int);
    assert(s.take(a.len() as int) =~= a);
    assert(s.skip(a.len() as int + 1) =~= b);
}

/// Splitting undoes joining.
pub proof fn splitting_undoes_joining(parts: Seq<Seq<char>>, c: char)
    requires
        parts.len() > 0,
        forall|i: int| 0 <= i < parts.len() ==> lacks(#[trigger] parts[i], c),
    ensures
        crate::text::split(joined(parts, c), c) == parts,
    decreases parts.len(),
{
    assert(lacks(parts[0], c));
    if parts.len() == 1 {
        first_separator_ends_the_first_piece(parts[0], c, seq![]);
        assert(parts =~= seq![parts[0]]);
    } else {
        let rest = parts.skip(1);
        assert forall|i: int| 0 <= i < rest.len() implies lacks(#[trigger] rest[i], c) by {
            assert(lacks(parts[i + 1], c));
        }
        splitting_undoes_joining(rest, c);
        first_separator_ends_the_first_piece(parts[0], c, joined(rest, c));
        assert(seq![parts[0]] + rest =~= parts);
    }
}

/// Joining undoes splitting, and no piece holds the character that it was split at.
pub proof fn joining_undoes_splitting(s: Seq<char>, c: char)
    ensures
        joined(crate::text::split(s, c), c) == s,
        forall|i: int|
            0 <= i < crate::text::split(s, c).len() ==> lacks(
                #[trigger] crate::text::split(s, c)[i],
                c,
            ),
    decreases s.len(),
{
    let i = crate::text::until(s, c) as int;
    let parts = crate::text::split(s, c);
    crate::text::until_is_first(s, c);
    if i < s.len() {
        let rest = s.skip(i + 1);
        joining_undoes_splitting(rest, c);
        let others = crate::text::split(rest, c);
        assert(others.len() > 0) by {
            crate::text::until_is_first(rest, c);
        }
        assert(parts.skip(1) =~= others);
        assert(s =~= s.take(i) + seq![c] + rest);
        assert forall|k: int| 0 <= k < parts.len() implies lacks(#[trigger] parts[k], c) by {
            if k > 0 {
                assert(parts[k] == others[k - 1]);
            }
        }
    }
}

/// A text holds another one wherever that stands between two texts, and nowhere else.
pub proof fn held_text_stands_between_others(
    a: Seq<char>,
    needle: Seq<char>,
    b: Seq<char>,
    s: Seq<char>,
) -> (r: (Seq<char>, Seq<char>))
    ensures
        crate::text::contains(a + needle + b, needle),
        crate::text::contains(s, needle) ==> s == r.0 + needle + r.1,
{
    let all = a + needle + b;
    assert(all.subrange(a.len() as int, a.len() as int + needle.len()) =~= needle);
    if crate::text::contains(s, needle) {
        let i = choose|i: int|
            0 <= i <= s.len() - needle.len() && #[trigger] s.subrange(i, i + needle.len())
                == needle;
        let r = (s.take(i), s.skip(i + needle.len()));
        assert(s =~= r.0 + s.subrange(i, i + needle.len()) + r.1);
        r
    } else {
        (seq![], seq![])
    }
}

// ---------------------------------------------------------------------------
// Lines
// ---------------------------------------------------------------------------

/// A line feed ends a line, and so does a carriage return with a line feed. The last line may do
/// without. What follows is a text of its own.
pub proof fn line_feeds_end_lines(line: Seq<char>, rest: Seq<char>)
    requires
        lacks(line, '\n'),
    ensures
        crate::text::lines(seq![]) == Seq::<Seq<char>>::empty(),
        line.len() > 0 ==> crate::text::lines(line) == seq![line],
        line.len() == 0 || line.last() != '\r' ==> crate::text::lines(line + seq!['\n'] + rest)
            == seq![line] + crate::text::lines(rest),
        crate::text::lines(line + seq!['\r', '\n'] + rest) == seq![line] + crate::text::lines(rest),
{
    let plain = line + seq!['\n'] + rest;
    let both = line + seq!['\r', '\n'] + rest;
    let n = line.len() as int;
    crate::text::first_is_until(line, '\n', n);
    assert forall|j: int| 0 <= j < n implies plain[j] != '\n' by {
        assert(plain[j] == line[j]);
    }
    crate::text::first_is_until(plain, '\n', n);
    assert(plain.take(n) =~= line);
    assert(plain.skip(n + 1) =~= rest);
    assert forall|j: int| 0 <= j < n + 1 implies both[j] != '\n' by {
        if j < n {
            assert(both[j] == line[j]);
        }
    }
    crate::text::first_is_until(both, '\n', n + 1);
    assert(both.take(n + 1) =~= line.push('\r'));
    assert(line.push('\r').drop_last() =~= line);
    assert(both.skip(n + 2) =~= rest);
}

// ---------------------------------------------------------------------------
// Numbers
// ---------------------------------------------------------------------------

/// A decimal digit.
pub open spec fn numeral(d: nat) -> char {
    seq!['0', '1', '2', '3', '4', '5', '6', '7', '8', '9'][d as int]
}

/// A number in decimal digits.
pub open spec fn decimal(n: nat) -> Seq<char>
    decreases n,
{
    if n < 10 {
        seq![numeral(n)]
    } else {
        decimal(n / 10).push(numeral(n % 10))
    }
}

/// Whether a character is one of the ten digits.
pub open spec fn is_numeral(c: char) -> bool {
    '0' as int <= c as int <= '9' as int
}

/// A number in decimal digits is made of digits and stands for the number.
pub(crate) proof fn decimal_is_made_of_digits(n: nat)
    ensures
        decimal(n).len() > 0,
        forall|i: int| 0 <= i < decimal(n).len() ==> is_numeral(#[trigger] decimal(n)[i]),
        forall|i: int| 0 <= i < decimal(n).len() ==> crate::text::digit(#[trigger] decimal(n)[i]),
        crate::text::digits_value(decimal(n)) == n,
    decreases n,
{
    if n < 10 {
        let s = decimal(n);
        assert(s.drop_last() =~= seq![]);
        assert(crate::text::digits_value(s.drop_last()) == 0);
    } else {
        decimal_is_made_of_digits(n / 10);
        assert(decimal(n).drop_last() =~= decimal(n / 10));
    }
}

/// Zeros in front of a number do not change it.
proof fn zeros_in_front_count_nothing(zeros: Seq<char>, s: Seq<char>)
    requires
        forall|i: int| 0 <= i < zeros.len() ==> #[trigger] zeros[i] == '0',
    ensures
        crate::text::digits_value(zeros + s) == crate::text::digits_value(s),
    decreases zeros.len() + s.len(),
{
    let all = zeros + s;
    if s.len() > 0 {
        assert(all.drop_last() =~= zeros + s.drop_last());
        zeros_in_front_count_nothing(zeros, s.drop_last());
    } else if zeros.len() > 0 {
        assert(all =~= zeros);
        assert(zeros.drop_last() + s =~= zeros.drop_last());
        zeros_in_front_count_nothing(zeros.drop_last(), s);
    } else {
        assert(all =~= s);
    }
}

/// Every number up to the largest one allowed is read back from its decimal digits, with or without
/// zeros or a plus sign in front; a larger one is not.
pub proof fn decimal_numbers_are_read_back(n: nat, zeros: Seq<char>, max: nat)
    requires
        forall|i: int| 0 <= i < zeros.len() ==> #[trigger] zeros[i] == '0',
    ensures
        n <= max ==> crate::text::unsigned(decimal(n), max) == Some(n),
        n <= max ==> crate::text::unsigned(zeros + decimal(n), max) == Some(n),
        n <= max ==> crate::text::unsigned(seq!['+'] + zeros + decimal(n), max) == Some(n),
        n > max ==> crate::text::unsigned(zeros + decimal(n), max) is None,
        n > max ==> crate::text::unsigned(seq!['+'] + zeros + decimal(n), max) is None,
{
    decimal_is_made_of_digits(n);
    zeros_in_front_count_nothing(zeros, decimal(n));
    let d = zeros + decimal(n);
    let signed = seq!['+'] + zeros + decimal(n);
    assert forall|i: int| 0 <= i < d.len() implies crate::text::digit(#[trigger] d[i]) by {
        if i < zeros.len() {
            assert(zeros[i] == '0');
        } else {
            assert(d[i] == decimal(n)[i - zeros.len()]);
        }
    }
    assert(crate::text::digit(d[0]));
    assert(crate::text::digit(decimal(n)[0]));
    assert(crate::text::without_plus(signed) =~= d);
}

/// What has another character than a digit behind at most one plus sign, and what has no digit, is no
/// number.
pub proof fn other_texts_are_no_numbers(s: Seq<char>, max: nat, i: int)
    requires
        s.len() == 0 || s == seq!['+'] || (0 <= i < s.len() && !is_numeral(s[i]) && (i == 0
            ==> s[i] != '+')),
    ensures
        crate::text::unsigned(s, max) is None,
{
    let d = crate::text::without_plus(s);
    if s.len() > 0 && s != seq!['+'] {
        if s[0] == '+' {
            assert(d[i - 1] == s[i]);
        } else {
            assert(d[i] == s[i]);
        }
    } else {
        assert(d.len() == 0);
    }
}

} // verus!
