//! Laws of the grammar of the configuration file: how a line that spells something is read.
use crate::entry::{CountKey, EntryView, LineView, NumberKey, TextKey};
use crate::text::Trim;
use vstd::prelude::*;

verus! {

// ---------------------------------------------------------------------------
// Lines
// ---------------------------------------------------------------------------

/// Whether a text neither starts nor ends with white space.
pub open spec fn tight(s: Seq<char>) -> bool {
    s.len() > 0 ==> !crate::text::white_space(s[0]) && !crate::text::white_space(s.last())
}

/// Whether a text says nothing behind a value: white space, with or without a comment behind it.
pub open spec fn says_nothing(rest: Seq<char>, gap: Seq<char>, comment: Seq<char>) -> bool {
    &&& crate::text_laws::blank(gap)
    &&& rest == gap || rest == gap + seq!['#'] + comment
}

/// Whether all characters are double quotes.
pub open spec fn only_quotes(s: Seq<char>) -> bool {
    forall|i: int| 0 <= i < s.len() ==> #[trigger] s[i] == '"'
}

/// Whether all characters are square brackets.
pub open spec fn only_brackets(s: Seq<char>) -> bool {
    forall|i: int| 0 <= i < s.len() ==> #[trigger] s[i] == '[' || s[i] == ']'
}

/// Whether a text neither starts nor ends with a square bracket.
pub open spec fn free_of_brackets(s: Seq<char>) -> bool {
    s.len() > 0 ==> s[0] != '[' && s[0] != ']' && s.last() != '[' && s.last() != ']'
}

/// A value is what stands in front of a comment, without the white space around it and without
/// quotes.
proof fn value_is_read(
    front: Seq<char>,
    raw: Seq<char>,
    open: Seq<char>,
    value: Seq<char>,
    close: Seq<char>,
    rest: Seq<char>,
    gap: Seq<char>,
    comment: Seq<char>,
)
    requires
        crate::text_laws::blank(front),
        crate::text_laws::lacks(raw, '#'),
        tight(raw),
        only_quotes(open),
        only_quotes(close),
        raw == open + value + close,
        value.len() > 0 ==> value[0] != '"' && value.last() != '"',
        says_nothing(rest, gap, comment),
    ensures
        crate::entry::value_of(crate::text::trim_end(front + raw + rest, Trim::White)) == value,
{
    let body = front + raw;
    let all = body + rest;
    let s = crate::text::trim_end(all, Trim::White);
    let cut = s.take(crate::text::until(s, '#') as int);
    assert(crate::text::trimmed(cut, Trim::White) == raw) by {
        assert forall|j: int| 0 <= j < (body + gap).len() implies (body + gap)[j] != '#' by {
            if j < front.len() {
                assert(crate::text::white_space(front[j]));
            } else if j < body.len() {
                assert(raw[j - front.len()] != '#');
            } else {
                assert(crate::text::white_space(gap[j - body.len()]));
            }
        }
        if rest == gap {
            crate::text_laws::back_goes(body, gap, Trim::White);
            if raw.len() == 0 {
                assert(body =~= seq![] + front);
                crate::text_laws::back_goes(seq![], front, Trim::White);
                assert(s =~= seq![]);
                crate::text_laws::trimming_leaves_the_core(seq![], seq![], seq![], Trim::White);
                assert(cut =~= Seq::<char>::empty() + Seq::<char>::empty() + Seq::<char>::empty());
                assert(raw =~= seq![]);
            } else {
                assert(body.last() == raw.last());
                assert(s == body);
                assert forall|j: int| 0 <= j < body.len() implies body[j] != '#' by {
                    assert((body + gap)[j] == body[j]);
                }
                crate::text::first_is_until(s, '#', s.len() as int);
                assert(cut =~= front + raw + seq![]);
                crate::text_laws::trimming_leaves_the_core(front, raw, seq![], Trim::White);
            }
        } else {
            let head = (body + gap).push('#');
            assert(all =~= head + comment);
            crate::text_laws::front_stays(head, comment, Trim::White);
            let n = (body + gap).len() as int;
            assert forall|j: int| 0 <= j < n implies s[j] != '#' by {
                assert(s[j] == (body + gap)[j]);
            }
            assert(s[n] == '#');
            crate::text::first_is_until(s, '#', n);
            assert(cut =~= front + raw + gap);
            crate::text_laws::trimming_leaves_the_core(front, raw, gap, Trim::White);
        }
    }
    crate::text_laws::trimming_leaves_the_core(open, value, close, Trim::Either('"', '"'));
}

/// A line with a key, an equals sign and a value is a setting, however it is indented and spaced. The
/// value may stand in quotes, and a comment may follow it. The key ends at the first equals sign.
pub proof fn setting_is_read(
    indent: Seq<char>,
    key: Seq<char>,
    before: Seq<char>,
    after: Seq<char>,
    raw: Seq<char>,
    open: Seq<char>,
    value: Seq<char>,
    close: Seq<char>,
    rest: Seq<char>,
    gap: Seq<char>,
    comment: Seq<char>,
)
    requires
        crate::text_laws::blank(indent),
        crate::text_laws::blank(before),
        crate::text_laws::blank(after),
        key.len() > 0 || before.len() == 0,
        tight(key),
        key.len() > 0 ==> key[0] != '#' && key[0] != '[',
        crate::text_laws::lacks(key, '='),
        crate::text_laws::lacks(raw, '#'),
        tight(raw),
        only_quotes(open),
        only_quotes(close),
        raw == open + value + close,
        value.len() > 0 ==> value[0] != '"' && value.last() != '"',
        says_nothing(rest, gap, comment),
    ensures
        crate::entry::line_of(indent + key + before + seq!['='] + after + raw + rest)
            == LineView::Setting(key, value),
{
    let s = indent + key + before + seq!['='] + after + raw + rest;
    let head = key + before + seq!['='];
    let tail = after + raw + rest;
    let t = crate::text::trimmed(s, Trim::White);
    let end = crate::text::trim_end(tail, Trim::White);
    assert(t == head + end) by {
        let whole = head + tail;
        assert(s =~= indent + whole);
        assert(whole[0] == if key.len() > 0 {
            key[0]
        } else {
            '='
        });
        indent_goes(indent, whole);
        crate::text_laws::front_stays(head, tail, Trim::White);
    }
    let n = (key + before).len() as int;
    assert forall|j: int| 0 <= j < n implies t[j] != '=' by {
        if j < key.len() {
            assert(t[j] == key[j]);
        } else {
            assert(t[j] == before[j - key.len()]);
            assert(crate::text::white_space(before[j - key.len()]));
        }
    }
    assert(t[n] == '=');
    crate::text::first_is_until(t, '=', n);
    assert(t[0] == if key.len() > 0 {
        key[0]
    } else {
        '='
    });
    assert(t.take(n) =~= seq![] + key + before);
    crate::text_laws::trimming_leaves_the_core(seq![], key, before, Trim::White);
    assert(t.skip(n + 1) =~= end);
    value_is_read(after, raw, open, value, close, rest, gap, comment);
}

/// White space in front of a text is trimmed off.
proof fn indent_goes(indent: Seq<char>, s: Seq<char>)
    requires
        crate::text_laws::blank(indent),
        s.len() > 0,
        !crate::text::white_space(s[0]),
    ensures
        crate::text::trimmed(indent + s, Trim::White) == crate::text::trim_end(s, Trim::White),
    decreases indent.len(),
{
    let all = indent + s;
    if indent.len() == 0 {
        assert(all =~= s);
    } else {
        assert(all[0] == indent[0]);
        assert(all.skip(1) =~= indent.skip(1) + s);
        indent_goes(indent.skip(1), s);
    }
}

/// A line that starts with an opening bracket opens the section that is named between the brackets,
/// however it is indented, however many brackets there are, and whether or not there is a closing one.
pub proof fn header_is_read(
    indent: Seq<char>,
    open: Seq<char>,
    name: Seq<char>,
    close: Seq<char>,
    gap: Seq<char>,
)
    requires
        crate::text_laws::blank(indent),
        crate::text_laws::blank(gap),
        open.len() > 0 && open[0] == '[',
        only_brackets(open),
        only_brackets(close),
        free_of_brackets(name),
        close.len() == 0 && name.len() > 0 ==> !crate::text::white_space(name.last()),
    ensures
        crate::entry::line_of(indent + open + name + close + gap) == LineView::Header(name),
{
    let core = open + name + close;
    assert(indent + open + name + close + gap =~= indent + core + gap);
    assert(core[0] == '[');
    if close.len() > 0 {
        assert(core.last() == close[close.len() - 1]);
    } else if name.len() > 0 {
        assert(core.last() == name.last());
    } else {
        assert(core.last() == open[open.len() - 1]);
    }
    crate::text_laws::trimming_leaves_the_core(indent, core, gap, Trim::White);
    crate::text_laws::trimming_leaves_the_core(open, name, close, Trim::Either('[', ']'));
}

/// A blank line, a comment and a line without an equals sign say nothing.
pub proof fn other_lines_say_nothing(indent: Seq<char>, text: Seq<char>, gap: Seq<char>)
    requires
        crate::text_laws::blank(indent),
        crate::text_laws::blank(gap),
        text.len() == 0 || text[0] == '#' || (tight(text) && text[0] != '['
            && crate::text_laws::lacks(text, '=')),
    ensures
        crate::entry::line_of(indent + text + gap) == LineView::Nothing,
{
    let s = indent + text + gap;
    if text.len() == 0 {
        crate::text_laws::trimming_leaves_the_core(indent, text, gap, Trim::White);
    } else if text[0] == '#' {
        let rest = text + gap;
        assert(s =~= indent + rest);
        assert(rest[0] == '#');
        indent_goes(indent, rest);
        let one = seq!['#'];
        assert(rest =~= one + rest.skip(1));
        crate::text_laws::front_stays(one, rest.skip(1), Trim::White);
        assert(crate::text::trimmed(s, Trim::White)[0] == '#');
    } else {
        crate::text_laws::trimming_leaves_the_core(indent, text, gap, Trim::White);
        crate::text::until_is_first(text, '=');
    }
}

// ---------------------------------------------------------------------------
// Sections
// ---------------------------------------------------------------------------

/// What lines without a header say, one after the other, in the given section.
pub open spec fn said(section: Seq<char>, lines: Seq<Seq<char>>) -> Seq<EntryView>
    decreases lines.len(),
{
    if lines.len() == 0 {
        seq![]
    } else {
        said(section, lines.drop_last()) + (match crate::entry::line_of(lines.last()) {
            LineView::Setting(key, value) => match crate::entry::entry_of(section, key, value) {
                Some(e) => seq![e],
                None => seq![],
            },
            _ => seq![],
        })
    }
}

/// The settings in front of all headers belong to no section.
pub proof fn settings_in_front_belong_to_no_section(lines: Seq<Seq<char>>)
    requires
        forall|i: int|
            0 <= i < lines.len() ==> !(crate::entry::line_of(#[trigger] lines[i]) is Header),
    ensures
        crate::entry::entries(lines) == said(seq![], lines),
        crate::entry::section_after(lines) == Seq::<char>::empty(),
    decreases lines.len(),
{
    if lines.len() > 0 {
        assert(!(crate::entry::line_of(lines[lines.len() - 1]) is Header));
        let before = lines.drop_last();
        assert forall|i: int| 0 <= i < before.len() implies !(crate::entry::line_of(
            #[trigger] before[i],
        ) is Header) by {
            assert(!(crate::entry::line_of(lines[i]) is Header));
        }
        settings_in_front_belong_to_no_section(before);
        assert(crate::entry::entries(lines) =~= said(seq![], lines));
    }
}

/// The settings behind a header belong to its section, whatever stands in front of it.
pub proof fn settings_belong_to_the_header_in_front(
    before: Seq<Seq<char>>,
    header: Seq<char>,
    name: Seq<char>,
    lines: Seq<Seq<char>>,
)
    requires
        crate::entry::line_of(header) == LineView::Header(name),
        forall|i: int|
            0 <= i < lines.len() ==> !(crate::entry::line_of(#[trigger] lines[i]) is Header),
    ensures
        crate::entry::entries(before + seq![header] + lines) == crate::entry::entries(before)
            + said(name, lines),
        crate::entry::section_after(before + seq![header] + lines) == name,
    decreases lines.len(),
{
    let all = before + seq![header] + lines;
    if lines.len() == 0 {
        assert(all.drop_last() =~= before);
        assert(all.last() == header);
        assert(crate::entry::entries(all) =~= crate::entry::entries(before) + said(name, lines));
    } else {
        assert(!(crate::entry::line_of(lines[lines.len() - 1]) is Header));
        let shorter = lines.drop_last();
        assert forall|i: int| 0 <= i < shorter.len() implies !(crate::entry::line_of(
            #[trigger] shorter[i],
        ) is Header) by {
            assert(!(crate::entry::line_of(lines[i]) is Header));
        }
        settings_belong_to_the_header_in_front(before, header, name, shorter);
        assert(all.drop_last() =~= before + seq![header] + shorter);
        assert(all.last() == lines.last());
        assert(crate::entry::entries(all) =~= crate::entry::entries(before) + said(name, lines));
    }
}

// ---------------------------------------------------------------------------
// Lists
// ---------------------------------------------------------------------------

/// The parts of a list with white space on either side of the commas between them.
pub open spec fn spaced(parts: Seq<Seq<char>>, before: Seq<char>, after: Seq<char>) -> Seq<
    Seq<char>,
> {
    Seq::new(
        parts.len(),
        |i: int|
            (if i > 0 {
                after
            } else {
                seq![]
            }) + parts[i] + (if i < parts.len() - 1 {
                before
            } else {
                seq![]
            }),
    )
}

/// The text of a list: its parts with commas between them, and white space on either side of those.
pub open spec fn list_text(parts: Seq<Seq<char>>, before: Seq<char>, after: Seq<char>) -> Seq<
    char,
> {
    crate::text_laws::joined(spaced(parts, before, after), ',')
}

/// Numbers in decimal digits.
pub open spec fn decimals(nums: Seq<nat>) -> Seq<Seq<char>> {
    Seq::new(nums.len(), |i: int| crate::text_laws::decimal(nums[i]))
}

/// Whether a text can be a part of a list: it has a character, no comma, and no white space at its
/// ends.
pub open spec fn listable(part: Seq<char>) -> bool {
    part.len() > 0 && tight(part) && crate::text_laws::lacks(part, ',')
}

proof fn decimals_are_listable(nums: Seq<nat>)
    ensures
        forall|i: int| 0 <= i < nums.len() ==> listable(#[trigger] decimals(nums)[i]),
{
    assert forall|i: int| 0 <= i < nums.len() implies listable(#[trigger] decimals(nums)[i]) by {
        crate::text_laws::decimal_is_made_of_digits(nums[i]);
        let d = crate::text_laws::decimal(nums[i]);
        assert(crate::text_laws::is_numeral(d[0]));
        assert(crate::text_laws::is_numeral(d[d.len() - 1]));
        assert forall|j: int| 0 <= j < d.len() implies #[trigger] d[j] != ',' by {
            assert(crate::text_laws::is_numeral(d[j]));
        }
    }
}

/// A list is split into its parts, and trimming gives each of them back.
proof fn list_is_split(parts: Seq<Seq<char>>, before: Seq<char>, after: Seq<char>)
    requires
        parts.len() > 0,
        crate::text_laws::blank(before),
        crate::text_laws::blank(after),
        forall|i: int| 0 <= i < parts.len() ==> listable(#[trigger] parts[i]),
    ensures
        crate::text::split(list_text(parts, before, after), ',') == spaced(parts, before, after),
        forall|i: int|
            0 <= i < parts.len() ==> crate::text::trimmed(
                #[trigger] spaced(parts, before, after)[i],
                Trim::White,
            ) == parts[i],
        list_text(parts, before, after).len() > 0,
        list_text(parts, before, after)[0] == parts[0][0],
        list_text(parts, before, after).last() == parts.last().last(),
{
    let all = spaced(parts, before, after);
    assert forall|i: int| 0 <= i < all.len() implies crate::text_laws::lacks(
        #[trigger] all[i],
        ',',
    ) && all[i].len() > 0 && crate::text::trimmed(all[i], Trim::White) == parts[i] by {
        assert(listable(parts[i]));
        let front = if i > 0 {
            after
        } else {
            seq![]
        };
        let back = if i < parts.len() - 1 {
            before
        } else {
            seq![]
        };
        assert(all[i] == front + parts[i] + back);
        crate::text_laws::trimming_leaves_the_core(front, parts[i], back, Trim::White);
        assert forall|j: int| 0 <= j < all[i].len() implies #[trigger] all[i][j] != ',' by {
            if j < front.len() {
                assert(crate::text::white_space(front[j]));
            } else if j < front.len() + parts[i].len() {
                assert(all[i][j] == parts[i][j - front.len()]);
            } else {
                assert(crate::text::white_space(back[j - front.len() - parts[i].len()]));
            }
        }
    }
    crate::text_laws::splitting_undoes_joining(all, ',');
    assert(listable(parts[0]));
    assert(listable(parts[parts.len() - 1]));
    ends_of_joined(all, ',');
    assert(all[0][0] == parts[0][0]);
    assert(all.last().last() == parts.last().last());
}

/// Joined parts start with the first of them and end with the last.
proof fn ends_of_joined(parts: Seq<Seq<char>>, c: char)
    requires
        parts.len() > 0,
        parts[0].len() > 0,
        parts.last().len() > 0,
    ensures
        crate::text_laws::joined(parts, c).len() > 0,
        crate::text_laws::joined(parts, c)[0] == parts[0][0],
        crate::text_laws::joined(parts, c).last() == parts.last().last(),
    decreases parts.len(),
{
    if parts.len() > 1 {
        let rest = parts.skip(1);
        ends_of_joined_last(rest, c);
        assert(rest.last() == parts.last());
    }
}

proof fn ends_of_joined_last(parts: Seq<Seq<char>>, c: char)
    requires
        parts.len() > 0,
        parts.last().len() > 0,
    ensures
        crate::text_laws::joined(parts, c).len() > 0,
        crate::text_laws::joined(parts, c).last() == parts.last().last(),
    decreases parts.len(),
{
    if parts.len() > 1 {
        ends_of_joined_last(parts.skip(1), c);
    }
}

/// Joined parts lack what each of them lacks.
proof fn joined_lacks(parts: Seq<Seq<char>>, c: char, x: char)
    requires
        x != c,
        forall|i: int| 0 <= i < parts.len() ==> crate::text_laws::lacks(#[trigger] parts[i], x),
    ensures
        crate::text_laws::lacks(crate::text_laws::joined(parts, c), x),
    decreases parts.len(),
{
    if parts.len() > 0 {
        assert(crate::text_laws::lacks(parts[0], x));
        if parts.len() > 1 {
            let rest = parts.skip(1);
            assert forall|i: int| 0 <= i < rest.len() implies crate::text_laws::lacks(
                #[trigger] rest[i],
                x,
            ) by {
                assert(crate::text_laws::lacks(parts[i + 1], x));
            }
            joined_lacks(rest, c, x);
            let all = crate::text_laws::joined(parts, c);
            let behind = crate::text_laws::joined(rest, c);
            assert forall|j: int| 0 <= j < all.len() implies #[trigger] all[j] != x by {
                if j < parts[0].len() {
                    assert(all[j] == parts[0][j]);
                } else if j > parts[0].len() {
                    assert(all[j] == behind[j - parts[0].len() - 1]);
                }
            }
        }
    }
}

/// A list of numbers has digits, commas and white space only.
proof fn number_list_lacks(nums: Seq<nat>, before: Seq<char>, after: Seq<char>, x: char)
    requires
        crate::text_laws::blank(before),
        crate::text_laws::blank(after),
        x != ',',
        !crate::text_laws::is_numeral(x),
        !crate::text::white_space(x),
    ensures
        crate::text_laws::lacks(list_text(decimals(nums), before, after), x),
{
    let parts = decimals(nums);
    let all = spaced(parts, before, after);
    assert forall|i: int| 0 <= i < all.len() implies crate::text_laws::lacks(#[trigger] all[i], x) by {
        crate::text_laws::decimal_is_made_of_digits(nums[i]);
        let front = if i > 0 {
            after
        } else {
            seq![]
        };
        let back = if i < parts.len() - 1 {
            before
        } else {
            seq![]
        };
        assert(all[i] == front + parts[i] + back);
        assert forall|j: int| 0 <= j < all[i].len() implies #[trigger] all[i][j] != x by {
            if j < front.len() {
                assert(crate::text::white_space(front[j]));
            } else if j < front.len() + parts[i].len() {
                assert(all[i][j] == parts[i][j - front.len()]);
                assert(crate::text_laws::is_numeral(parts[i][j - front.len()]));
            } else {
                assert(crate::text::white_space(back[j - front.len() - parts[i].len()]));
            }
        }
    }
    joined_lacks(all, ',', x);
}

/// The numbers up to the largest one allowed.
pub open spec fn up_to(nums: Seq<nat>, max: nat) -> Seq<u64> {
    nums.filter(|n: nat| n <= max).map_values(|n: nat| n as u64)
}

/// Where all numbers are allowed, all of them are kept.
pub proof fn all_are_kept(nums: Seq<nat>, max: nat)
    requires
        forall|i: int| 0 <= i < nums.len() ==> #[trigger] nums[i] <= max,
    ensures
        up_to(nums, max) == nums.map_values(|n: nat| n as u64),
    decreases nums.len(),
{
    reveal(Seq::filter);
    let allowed = |n: nat| n <= max;
    if nums.len() > 0 {
        assert(nums[nums.len() - 1] <= max);
        let before = nums.drop_last();
        assert forall|i: int| 0 <= i < before.len() implies #[trigger] before[i] <= max by {
            assert(nums[i] <= max);
        }
        all_are_kept(before, max);
        assert(nums.filter(allowed) =~= before.filter(allowed).push(nums.last()));
        assert(up_to(nums, max) =~= up_to(before, max).push(nums.last() as u64));
        assert(nums.map_values(|n: nat| n as u64) =~= before.map_values(|n: nat| n as u64).push(
            nums.last() as u64,
        ));
    } else {
        assert(nums.filter(allowed) =~= nums);
        assert(up_to(nums, max) =~= nums.map_values(|n: nat| n as u64));
    }
}

/// Numbers in decimal digits are found among the parts of a list, but for those that are too large.
proof fn decimals_are_found(parts: Seq<Seq<char>>, nums: Seq<nat>, max: nat)
    requires
        parts.len() == nums.len(),
        forall|i: int|
            0 <= i < nums.len() ==> crate::text::trimmed(#[trigger] parts[i], Trim::White)
                == crate::text_laws::decimal(nums[i]),
    ensures
        crate::entry::numbers_among(parts, max) == up_to(nums, max),
    decreases nums.len(),
{
    reveal(Seq::filter);
    let allowed = |n: nat| n <= max;
    if nums.len() > 0 {
        let n = nums.last();
        assert(crate::text::trimmed(parts[nums.len() - 1], Trim::White)
            == crate::text_laws::decimal(nums[nums.len() - 1]));
        let before = nums.drop_last();
        decimals_are_found(parts.drop_last(), before, max);
        crate::text_laws::decimal_numbers_are_read_back(n, seq![], max);
        assert(Seq::<char>::empty() + crate::text_laws::decimal(n) =~= crate::text_laws::decimal(
            n,
        ));
        if n <= max {
            assert(nums.filter(allowed) =~= before.filter(allowed).push(n));
            assert(up_to(nums, max) =~= up_to(before, max).push(n as u64));
        } else {
            assert(nums.filter(allowed) =~= before.filter(allowed));
        }
    } else {
        assert(nums.filter(allowed) =~= nums);
        assert(up_to(nums, max) =~= seq![]);
    }
}

/// A part of a list that is no number is passed over, and the other parts count as if it were not
/// there.
pub proof fn other_parts_are_passed_over(
    before: Seq<Seq<char>>,
    part: Seq<char>,
    after: Seq<Seq<char>>,
    max: nat,
)
    requires
        crate::text::unsigned(crate::text::trimmed(part, Trim::White), max) is None,
    ensures
        crate::entry::numbers_among(before.push(part) + after, max) == crate::entry::numbers_among(
            before + after,
            max,
        ),
    decreases after.len(),
{
    let with = before.push(part) + after;
    let without = before + after;
    if after.len() == 0 {
        assert(with.drop_last() =~= before);
        assert(without =~= before);
    } else {
        other_parts_are_passed_over(before, part, after.drop_last(), max);
        assert(with.drop_last() =~= before.push(part) + after.drop_last());
        assert(without.drop_last() =~= before + after.drop_last());
    }
}

/// The numbers of a list in two parts are those of the first part and then those of the second, and a
/// single part gives the number that it spells between its white space, if it spells one.
pub proof fn numbers_come_in_order(
    before: Seq<Seq<char>>,
    after: Seq<Seq<char>>,
    part: Seq<char>,
    max: nat,
)
    ensures
        crate::entry::numbers_among(before + after, max) == crate::entry::numbers_among(before, max)
            + crate::entry::numbers_among(after, max),
        crate::entry::numbers_among(seq![part], max) == (match crate::text::unsigned(
            crate::text::trimmed(part, Trim::White),
            max,
        ) {
            Some(n) => seq![n as u64],
            None => seq![],
        }),
    decreases after.len(),
{
    reveal_with_fuel(crate::entry::numbers_among, 2);
    assert(seq![part].drop_last() =~= seq![]);
    assert(crate::entry::numbers_among(seq![part], max) =~= (match crate::text::unsigned(
        crate::text::trimmed(part, Trim::White),
        max,
    ) {
        Some(n) => seq![n as u64],
        None => seq![],
    }));
    let all = before + after;
    if after.len() == 0 {
        assert(all =~= before);
    } else {
        numbers_come_in_order(before, after.drop_last(), part, max);
        assert(all.drop_last() =~= before + after.drop_last());
    }
    assert(crate::entry::numbers_among(all, max) =~= crate::entry::numbers_among(before, max)
        + crate::entry::numbers_among(after, max));
}

// ---------------------------------------------------------------------------
// Layouts and frequency sets
// ---------------------------------------------------------------------------

/// Layouts and frequency sets are lists: brackets around them do not count, commas divide them, a
/// layout holds the numbers among the parts, and a frequency set all parts without the white space
/// around them.
pub proof fn lists_are_divided_by_commas(
    name: Seq<char>,
    open: Seq<char>,
    parts: Seq<Seq<char>>,
    close: Seq<char>,
    i: int,
)
    requires
        only_brackets(open),
        only_brackets(close),
        parts.len() > 0,
        forall|k: int| 0 <= k < parts.len() ==> crate::text_laws::lacks(#[trigger] parts[k], ','),
        free_of_brackets(crate::text_laws::joined(parts, ',')),
    ensures
        ({
            let value = open + crate::text_laws::joined(parts, ',') + close;
            &&& crate::entry::entry_of("layouts"@, name, value) == Some(
                EntryView::Layout {
                    name,
                    columns: crate::entry::numbers_among(parts, usize::MAX as nat),
                },
            )
            &&& crate::entry::entry_of("freq_sets"@, name, value) matches Some(e) && (
            e matches EntryView::FreqSet { name: n, texts } && n == name && texts.len()
                == parts.len() && (0 <= i < parts.len() ==> texts[i] == crate::text::trimmed(
                parts[i],
                Trim::White,
            )))
        }),
{
    let text = crate::text_laws::joined(parts, ',');
    crate::text_laws::trimming_leaves_the_core(open, text, close, Trim::Either('[', ']'));
    crate::text_laws::splitting_undoes_joining(parts, ',');
    section_names_differ();
}

/// A layout that lists its numbers in square brackets holds them, in their order, whatever white space
/// there is around the commas.
pub proof fn layout_is_read(
    name: Seq<char>,
    nums: Seq<nat>,
    before: Seq<char>,
    after: Seq<char>,
)
    requires
        nums.len() > 0,
        crate::text_laws::blank(before),
        crate::text_laws::blank(after),
        forall|i: int| 0 <= i < nums.len() ==> #[trigger] nums[i] <= usize::MAX,
    ensures
        crate::entry::entry_of(
            "layouts"@,
            name,
            seq!['['] + list_text(decimals(nums), before, after) + seq![']'],
        ) == Some(EntryView::Layout { name, columns: nums.map_values(|n: nat| n as u64) }),
{
    let parts = decimals(nums);
    let text = list_text(parts, before, after);
    let value = seq!['['] + text + seq![']'];
    decimals_are_listable(nums);
    list_is_split(parts, before, after);
    number_list_lacks(nums, before, after, '[');
    number_list_lacks(nums, before, after, ']');
    crate::text_laws::trimming_leaves_the_core(
        seq!['['],
        text,
        seq![']'],
        Trim::Either('[', ']'),
    );
    decimals_are_found(spaced(parts, before, after), nums, usize::MAX as nat);
    all_are_kept(nums, usize::MAX as nat);
    section_names_differ();
}

/// A frequency set that lists texts in square brackets holds them, in their order, whatever white space
/// there is around the commas.
pub proof fn freq_set_is_read(
    name: Seq<char>,
    texts: Seq<Seq<char>>,
    before: Seq<char>,
    after: Seq<char>,
)
    requires
        texts.len() > 0,
        crate::text_laws::blank(before),
        crate::text_laws::blank(after),
        forall|i: int| 0 <= i < texts.len() ==> listable(#[trigger] texts[i]),
        texts[0][0] != '[' && texts[0][0] != ']',
        texts.last().last() != '[' && texts.last().last() != ']',
    ensures
        crate::entry::entry_of(
            "freq_sets"@,
            name,
            seq!['['] + list_text(texts, before, after) + seq![']'],
        ) == Some(EntryView::FreqSet { name, texts }),
{
    let text = list_text(texts, before, after);
    list_is_split(texts, before, after);
    crate::text_laws::trimming_leaves_the_core(
        seq!['['],
        text,
        seq![']'],
        Trim::Either('[', ']'),
    );
    assert(crate::entry::all_trimmed(spaced(texts, before, after)) =~= texts);
    section_names_differ();
}

proof fn section_names_differ()
    ensures
        "band_sensitivity"@.len() == 16,
        "band_smoothing"@.len() == 14,
        "freq_sets"@.len() == 9,
        "layouts"@.len() == 7,
        "palettes"@.len() == 8,
{
    reveal_strlit("band_sensitivity");
    reveal_strlit("band_smoothing");
    reveal_strlit("freq_sets");
    reveal_strlit("layouts");
    reveal_strlit("palettes");
}

// ---------------------------------------------------------------------------
// Palettes
// ---------------------------------------------------------------------------

/// Groups of numbers, each in square brackets.
pub open spec fn bracketed(groups: Seq<Seq<nat>>, before: Seq<char>, after: Seq<char>) -> Seq<
    Seq<char>,
> {
    Seq::new(
        groups.len(),
        |i: int| seq!['['] + list_text(decimals(groups[i]), before, after) + seq![']'],
    )
}

/// The text of a palette, as in `[[255,0,0],[0,0,255]]`, with white space on either side of the commas
/// between numbers.
pub open spec fn palette_text(groups: Seq<Seq<nat>>, before: Seq<char>, after: Seq<char>) -> Seq<
    char,
> {
    seq!['['] + crate::text_laws::joined(bracketed(groups, before, after), ',') + seq![']']
}

/// The colors that groups of numbers stand for: numbers above 255 are passed over, and then the groups
/// that do not have three numbers.
pub open spec fn colors_in(groups: Seq<Seq<nat>>) -> Seq<(u8, u8, u8)>
    decreases groups.len(),
{
    if groups.len() == 0 {
        seq![]
    } else {
        let n = up_to(groups.last(), 255);
        colors_in(groups.drop_last()) + (if n.len() == 3 {
            seq![(n[0] as u8, n[1] as u8, n[2] as u8)]
        } else {
            seq![]
        })
    }
}

/// What is left of a palette between one closing bracket and the next.
spec fn between_brackets(groups: Seq<Seq<nat>>, before: Seq<char>, after: Seq<char>) -> Seq<
    Seq<char>,
> {
    Seq::new(
        groups.len(),
        |i: int|
            (if i > 0 {
                seq![',', '[']
            } else {
                seq![]
            }) + list_text(decimals(groups[i]), before, after),
    )
}

/// What stands in front of the first part stands in front of the joined parts.
proof fn joined_with_a_front(front: Seq<char>, parts: Seq<Seq<char>>, c: char)
    requires
        parts.len() > 0,
    ensures
        crate::text_laws::joined(parts.update(0, front + parts[0]), c) == front
            + crate::text_laws::joined(parts, c),
{
    let p = parts.update(0, front + parts[0]);
    if parts.len() > 1 {
        assert(p.skip(1) =~= parts.skip(1));
    }
    assert(crate::text_laws::joined(p, c) =~= front + crate::text_laws::joined(parts, c));
}

proof fn brackets_move_outward(groups: Seq<Seq<nat>>, before: Seq<char>, after: Seq<char>)
    requires
        groups.len() > 0,
    ensures
        crate::text_laws::joined(bracketed(groups, before, after), ',') == seq!['[']
            + crate::text_laws::joined(between_brackets(groups, before, after), ']') + seq![']'],
    decreases groups.len(),
{
    let outer = bracketed(groups, before, after);
    let inner = between_brackets(groups, before, after);
    if groups.len() == 1 {
        assert(inner[0] =~= list_text(decimals(groups[0]), before, after));
        assert(crate::text_laws::joined(outer, ',') =~= seq!['['] + crate::text_laws::joined(
            inner,
            ']',
        ) + seq![']']);
    } else {
        let rest = groups.skip(1);
        brackets_move_outward(rest, before, after);
        assert(outer.skip(1) =~= bracketed(rest, before, after));
        let behind = between_brackets(rest, before, after);
        let front = seq![',', '['];
        assert(behind[0] =~= list_text(decimals(groups[1]), before, after));
        assert(inner.skip(1) =~= behind.update(0, front + behind[0])) by {
            assert forall|i: int| 0 <= i < rest.len() implies inner.skip(1)[i] == behind.update(
                0,
                front + behind[0],
            )[i] by {
                assert(inner.skip(1)[i] == inner[i + 1]);
                assert(rest[i] == groups[i + 1]);
            }
        }
        joined_with_a_front(front, behind, ']');
        assert(inner[0] =~= list_text(decimals(groups[0]), before, after));
        assert(crate::text_laws::joined(outer, ',') =~= seq!['['] + crate::text_laws::joined(
            inner,
            ']',
        ) + seq![']']);
    }
}

/// The numbers of a group are found in what stands between the brackets.
proof fn group_is_read(
    groups: Seq<Seq<nat>>,
    before: Seq<char>,
    after: Seq<char>,
    i: int,
)
    requires
        0 <= i < groups.len(),
        groups[i].len() > 0,
        crate::text_laws::blank(before),
        crate::text_laws::blank(after),
    ensures
        crate::entry::channels_of(between_brackets(groups, before, after)[i]) == up_to(
            groups[i],
            255,
        ),
        crate::text_laws::lacks(between_brackets(groups, before, after)[i], ']'),
        between_brackets(groups, before, after)[i].len() > 0,
        crate::text_laws::is_numeral(between_brackets(groups, before, after)[i].last()),
        i == 0 ==> crate::text_laws::is_numeral(between_brackets(groups, before, after)[i][0]),
{
    let nums = groups[i];
    let parts = decimals(nums);
    let text = list_text(parts, before, after);
    let front = if i > 0 {
        seq![',', '[']
    } else {
        seq![]
    };
    let piece = between_brackets(groups, before, after)[i];
    assert(piece == front + text);
    decimals_are_listable(nums);
    list_is_split(parts, before, after);
    crate::text_laws::decimal_is_made_of_digits(nums[0]);
    crate::text_laws::decimal_is_made_of_digits(nums.last());
    let first = parts[0];
    let last = parts[parts.len() - 1];
    assert(crate::text_laws::is_numeral(first[0]));
    assert(crate::text_laws::is_numeral(last[last.len() - 1]));
    assert(parts.last().last() == last[last.len() - 1]);
    assert(piece =~= seq![] + piece + seq![]);
    crate::text_laws::trimming_leaves_the_core(seq![], piece, seq![], Trim::White);
    assert(piece =~= front + text + seq![]);
    crate::text_laws::trimming_leaves_the_core(front, text, seq![], Trim::Either('[', ','));
    decimals_are_found(spaced(parts, before, after), nums, 255);
    number_list_lacks(nums, before, after, ']');
    assert forall|j: int| 0 <= j < piece.len() implies #[trigger] piece[j] != ']' by {
        if j >= front.len() {
            assert(piece[j] == text[j - front.len()]);
        }
    }
}

proof fn groups_are_read(
    pieces: Seq<Seq<char>>,
    groups: Seq<Seq<nat>>,
)
    requires
        pieces.len() == groups.len(),
        forall|i: int|
            0 <= i < groups.len() ==> crate::entry::channels_of(#[trigger] pieces[i]) == up_to(
                groups[i],
                255,
            ),
    ensures
        crate::entry::colors_among(pieces) == colors_in(groups),
    decreases groups.len(),
{
    if groups.len() > 0 {
        assert(crate::entry::channels_of(pieces[groups.len() - 1]) == up_to(
            groups[groups.len() - 1],
            255,
        ));
        groups_are_read(pieces.drop_last(), groups.drop_last());
        assert(crate::entry::colors_among(pieces) =~= colors_in(groups));
    }
}

/// A palette holds the colors that its groups of numbers stand for, in their order, whatever white
/// space there is around the commas between numbers.
#[verifier::spinoff_prover]
#[verifier::rlimit(40)]
pub proof fn palette_is_read(
    name: Seq<char>,
    groups: Seq<Seq<nat>>,
    before: Seq<char>,
    after: Seq<char>,
)
    requires
        groups.len() > 0,
        forall|i: int| 0 <= i < groups.len() ==> (#[trigger] groups[i]).len() > 0,
        crate::text_laws::blank(before),
        crate::text_laws::blank(after),
    ensures
        crate::entry::palette_colors(palette_text(groups, before, after)) == colors_in(groups),
        crate::entry::entry_of("palettes"@, name, palette_text(groups, before, after)) == Some(
            EntryView::Palette { name, colors: colors_in(groups) },
        ),
{
    let value = palette_text(groups, before, after);
    let pieces = between_brackets(groups, before, after);
    let core = crate::text_laws::joined(pieces, ']');
    brackets_move_outward(groups, before, after);
    assert forall|i: int| 0 <= i < pieces.len() implies crate::text_laws::lacks(
        #[trigger] pieces[i],
        ']',
    ) && crate::entry::channels_of(pieces[i]) == up_to(groups[i], 255) by {
        assert(groups[i].len() > 0);
        group_is_read(groups, before, after, i);
    }
    assert(groups[0].len() > 0);
    assert(groups[groups.len() - 1].len() > 0);
    group_is_read(groups, before, after, 0);
    group_is_read(groups, before, after, groups.len() - 1);
    ends_of_joined(pieces, ']');
    assert(value =~= seq!['[', '['] + core + seq![']', ']']);
    assert(value =~= seq![] + value + seq![]);
    crate::text_laws::trimming_leaves_the_core(seq![], value, seq![], Trim::White);
    crate::text_laws::trimming_leaves_the_core(
        seq!['[', '['],
        core,
        seq![']', ']'],
        Trim::Either('[', ']'),
    );
    crate::text_laws::splitting_undoes_joining(pieces, ']');
    groups_are_read(pieces, groups);
    section_names_differ();
}

/// A palette is divided by closing brackets: white space and brackets around it do not count.
pub proof fn palettes_are_divided_by_brackets(
    name: Seq<char>,
    front: Seq<char>,
    open: Seq<char>,
    pieces: Seq<Seq<char>>,
    close: Seq<char>,
    back: Seq<char>,
)
    requires
        crate::text_laws::blank(front),
        crate::text_laws::blank(back),
        only_brackets(open),
        only_brackets(close),
        pieces.len() > 0,
        forall|k: int| 0 <= k < pieces.len() ==> crate::text_laws::lacks(#[trigger] pieces[k], ']'),
        free_of_brackets(crate::text_laws::joined(pieces, ']')),
        tight(open + crate::text_laws::joined(pieces, ']') + close),
    ensures
        crate::entry::entry_of(
            "palettes"@,
            name,
            front + (open + crate::text_laws::joined(pieces, ']') + close) + back,
        ) == Some(EntryView::Palette { name, colors: crate::entry::colors_among(pieces) }),
{
    let text = crate::text_laws::joined(pieces, ']');
    crate::text_laws::trimming_leaves_the_core(front, open + text + close, back, Trim::White);
    crate::text_laws::trimming_leaves_the_core(open, text, close, Trim::Either('[', ']'));
    crate::text_laws::splitting_undoes_joining(pieces, ']');
    section_names_differ();
}

/// Whether all characters are opening brackets or commas.
pub open spec fn only_openers(s: Seq<char>) -> bool {
    forall|i: int| 0 <= i < s.len() ==> #[trigger] s[i] == '[' || s[i] == ','
}

/// A piece of a palette holds the numbers up to 255 between its commas: white space around it does not
/// count, and then the opening brackets and commas around it.
pub proof fn channels_stand_between_commas(
    front: Seq<char>,
    open: Seq<char>,
    parts: Seq<Seq<char>>,
    close: Seq<char>,
    back: Seq<char>,
)
    requires
        crate::text_laws::blank(front),
        crate::text_laws::blank(back),
        only_openers(open),
        only_openers(close),
        parts.len() > 0,
        forall|k: int| 0 <= k < parts.len() ==> crate::text_laws::lacks(#[trigger] parts[k], ','),
        ({
            let text = crate::text_laws::joined(parts, ',');
            &&& text.len() > 0 ==> text[0] != '[' && text[0] != ',' && text.last() != '['
                && text.last() != ','
            &&& tight(open + text + close)
        }),
    ensures
        crate::entry::channels_of(
            front + (open + crate::text_laws::joined(parts, ',') + close) + back,
        ) == crate::entry::numbers_among(parts, 255),
{
    let text = crate::text_laws::joined(parts, ',');
    crate::text_laws::trimming_leaves_the_core(front, open + text + close, back, Trim::White);
    crate::text_laws::trimming_leaves_the_core(open, text, close, Trim::Either('[', ','));
    crate::text_laws::splitting_undoes_joining(parts, ',');
}

/// The colors of a palette in two parts are those of the first part and then those of the second, and a
/// single piece gives a color where it holds three numbers.
pub proof fn colors_come_in_order(
    before: Seq<Seq<char>>,
    after: Seq<Seq<char>>,
    piece: Seq<char>,
)
    ensures
        crate::entry::colors_among(before + after) == crate::entry::colors_among(before)
            + crate::entry::colors_among(after),
        ({
            let n = crate::entry::channels_of(piece);
            crate::entry::colors_among(seq![piece]) == (if n.len() == 3 {
                seq![(n[0] as u8, n[1] as u8, n[2] as u8)]
            } else {
                seq![]
            })
        }),
    decreases after.len(),
{
    reveal_with_fuel(crate::entry::colors_among, 2);
    let n = crate::entry::channels_of(piece);
    assert(seq![piece].drop_last() =~= seq![]);
    assert(crate::entry::colors_among(seq![piece]) =~= (if n.len() == 3 {
        seq![(n[0] as u8, n[1] as u8, n[2] as u8)]
    } else {
        seq![]
    }));
    let all = before + after;
    if after.len() == 0 {
        assert(all =~= before);
    } else {
        colors_come_in_order(before, after.drop_last(), piece);
        assert(all.drop_last() =~= before + after.drop_last());
    }
    assert(crate::entry::colors_among(all) =~= crate::entry::colors_among(before)
        + crate::entry::colors_among(after));
}

/// The channels of colors as groups of numbers.
pub open spec fn channels(colors: Seq<(u8, u8, u8)>) -> Seq<Seq<nat>> {
    Seq::new(
        colors.len(),
        |i: int| seq![colors[i].0 as nat, colors[i].1 as nat, colors[i].2 as nat],
    )
}

proof fn channels_make_the_colors(colors: Seq<(u8, u8, u8)>)
    ensures
        colors_in(channels(colors)) == colors,
    decreases colors.len(),
{
    let groups = channels(colors);
    if colors.len() > 0 {
        channels_make_the_colors(colors.drop_last());
        assert(groups.drop_last() =~= channels(colors.drop_last()));
        all_are_kept(groups.last(), 255);
        assert(colors_in(groups) =~= colors);
    } else {
        assert(colors_in(groups) =~= colors);
    }
}

/// Every color can be configured: a palette that spells colors holds exactly those, in their order.
pub proof fn every_color_can_be_configured(
    name: Seq<char>,
    colors: Seq<(u8, u8, u8)>,
    before: Seq<char>,
    after: Seq<char>,
)
    requires
        colors.len() > 0,
        crate::text_laws::blank(before),
        crate::text_laws::blank(after),
    ensures
        crate::entry::palette_colors(palette_text(channels(colors), before, after)) == colors,
        crate::entry::entry_of("palettes"@, name, palette_text(channels(colors), before, after))
            == Some(EntryView::Palette { name, colors }),
{
    palette_is_read(name, channels(colors), before, after);
    channels_make_the_colors(colors);
}

// ---------------------------------------------------------------------------
// Keys
// ---------------------------------------------------------------------------

/// The keys that may stand in front of all sections.
pub open spec fn general_keys() -> Seq<Seq<char>> {
    seq![
        "source"@,
        "color_mode"@,
        "dazzle_palette"@,
        "layout"@,
        "freq_set"@,
        "base_hue"@,
        "sensitivity"@,
        "smoothing"@,
        "bass_amplify"@,
        "global_mix"@,
        "local_mix"@,
        "global_decay"@,
        "band_decay"@,
        "response_curve"@,
        "fps"@,
        "dazzle_band_frames"@,
    ]
}

/// No two of the general keys are the same.
proof fn general_keys_differ()
    ensures
        general_keys().no_duplicates(),
{
    reveal_strlit("source");
    reveal_strlit("color_mode");
    reveal_strlit("dazzle_palette");
    reveal_strlit("layout");
    reveal_strlit("freq_set");
    reveal_strlit("base_hue");
    reveal_strlit("sensitivity");
    reveal_strlit("smoothing");
    reveal_strlit("bass_amplify");
    reveal_strlit("global_mix");
    reveal_strlit("local_mix");
    reveal_strlit("global_decay");
    reveal_strlit("band_decay");
    reveal_strlit("response_curve");
    reveal_strlit("fps");
    reveal_strlit("dazzle_band_frames");
    let k = general_keys();
    assert(k[0] == "source"@ && k[0].len() == 6);
    assert(k[1] == "color_mode"@ && k[1].len() == 10);
    assert(k[2] == "dazzle_palette"@ && k[2].len() == 14);
    assert(k[3] == "layout"@ && k[3].len() == 6);
    assert(k[4] == "freq_set"@ && k[4].len() == 8);
    assert(k[5] == "base_hue"@ && k[5].len() == 8);
    assert(k[6] == "sensitivity"@ && k[6].len() == 11);
    assert(k[7] == "smoothing"@ && k[7].len() == 9);
    assert(k[8] == "bass_amplify"@ && k[8].len() == 12);
    assert(k[9] == "global_mix"@ && k[9].len() == 10);
    assert(k[10] == "local_mix"@ && k[10].len() == 9);
    assert(k[11] == "global_decay"@ && k[11].len() == 12);
    assert(k[12] == "band_decay"@ && k[12].len() == 10);
    assert(k[13] == "response_curve"@ && k[13].len() == 14);
    assert(k[14] == "fps"@ && k[14].len() == 3);
    assert(k[15] == "dazzle_band_frames"@ && k[15].len() == 18);
    assert forall|i: int, j: int| 0 <= i < k.len() && 0 <= j < k.len() && i != j implies k[i]
        != k[j] by {
        assert(k[i].len() != k[j].len() || k[i][0] != k[j][0]);
    }
}

/// Each general key sets what it names: a text, a number or a whole number.
pub proof fn general_keys_set_what_they_name(value: Seq<char>)
    ensures
        crate::entry::general_entry("source"@, value) == Some(
            EntryView::Text { key: TextKey::Source, value },
        ),
        crate::entry::general_entry("color_mode"@, value) == Some(
            EntryView::Text { key: TextKey::ColorMode, value },
        ),
        crate::entry::general_entry("dazzle_palette"@, value) == Some(
            EntryView::Text { key: TextKey::DazzlePalette, value },
        ),
        crate::entry::general_entry("layout"@, value) == Some(
            EntryView::Text { key: TextKey::Layout, value },
        ),
        crate::entry::general_entry("freq_set"@, value) == Some(
            EntryView::Text { key: TextKey::FreqSet, value },
        ),
        crate::entry::general_entry("base_hue"@, value) == Some(
            EntryView::Number { number: NumberKey::BaseHue, text: value },
        ),
        crate::entry::general_entry("sensitivity"@, value) == Some(
            EntryView::Number { number: NumberKey::Sensitivity, text: value },
        ),
        crate::entry::general_entry("smoothing"@, value) == Some(
            EntryView::Number { number: NumberKey::Smoothing, text: value },
        ),
        crate::entry::general_entry("bass_amplify"@, value) == Some(
            EntryView::Number { number: NumberKey::BassAmplify, text: value },
        ),
        crate::entry::general_entry("global_mix"@, value) == Some(
            EntryView::Number { number: NumberKey::GlobalMix, text: value },
        ),
        crate::entry::general_entry("local_mix"@, value) == Some(
            EntryView::Number { number: NumberKey::LocalMix, text: value },
        ),
        crate::entry::general_entry("global_decay"@, value) == Some(
            EntryView::Number { number: NumberKey::GlobalDecay, text: value },
        ),
        crate::entry::general_entry("band_decay"@, value) == Some(
            EntryView::Number { number: NumberKey::BandDecay, text: value },
        ),
        crate::entry::general_entry("response_curve"@, value) == Some(
            EntryView::Number { number: NumberKey::ResponseCurve, text: value },
        ),
        crate::entry::general_entry("fps"@, value) == Some(
            EntryView::Count { count: CountKey::Fps, amount: crate::entry::count_of(value) },
        ),
        crate::entry::general_entry("dazzle_band_frames"@, value) == Some(
            EntryView::Count { count: CountKey::DazzleBandFrames, amount: crate::entry::count_of(value) },
        ),
{
    general_keys_differ();
    let k = general_keys();
    assert(k[0] == "source"@);
    assert(k[1] == "color_mode"@);
    assert(k[2] == "dazzle_palette"@);
    assert(k[3] == "layout"@);
    assert(k[4] == "freq_set"@);
    assert(k[5] == "base_hue"@);
    assert(k[6] == "sensitivity"@);
    assert(k[7] == "smoothing"@);
    assert(k[8] == "bass_amplify"@);
    assert(k[9] == "global_mix"@);
    assert(k[10] == "local_mix"@);
    assert(k[11] == "global_decay"@);
    assert(k[12] == "band_decay"@);
    assert(k[13] == "response_curve"@);
    assert(k[14] == "fps"@);
    assert(k[15] == "dazzle_band_frames"@);
}

/// No other key sets anything in front of all sections.
pub proof fn other_keys_set_nothing(key: Seq<char>, value: Seq<char>)
    requires
        !general_keys().contains(key),
    ensures
        crate::entry::general_entry(key, value) is None,
{
    let k = general_keys();
    assert(k[0] == "source"@);
    assert(k[1] == "color_mode"@);
    assert(k[2] == "dazzle_palette"@);
    assert(k[3] == "layout"@);
    assert(k[4] == "freq_set"@);
    assert(k[5] == "base_hue"@);
    assert(k[6] == "sensitivity"@);
    assert(k[7] == "smoothing"@);
    assert(k[8] == "bass_amplify"@);
    assert(k[9] == "global_mix"@);
    assert(k[10] == "local_mix"@);
    assert(k[11] == "global_decay"@);
    assert(k[12] == "band_decay"@);
    assert(k[13] == "response_curve"@);
    assert(k[14] == "fps"@);
    assert(k[15] == "dazzle_band_frames"@);
}

/// Every whole number of 32 bits can be configured, with or without zeros or a plus sign in front, and
/// no larger one.
pub proof fn whole_numbers_can_be_configured(n: nat, zeros: Seq<char>)
    requires
        forall|i: int| 0 <= i < zeros.len() ==> #[trigger] zeros[i] == '0',
    ensures
        ({
            let d = zeros + crate::text_laws::decimal(n);
            if n <= 0xFFFF_FFFF {
                &&& crate::entry::count_of(d) == Some(n as u32)
                &&& crate::entry::count_of(seq!['+'] + d) == Some(n as u32)
            } else {
                &&& crate::entry::count_of(d) is None
                &&& crate::entry::count_of(seq!['+'] + d) is None
            }
        }),
{
    let d = crate::text_laws::decimal(n);
    crate::text_laws::decimal_numbers_are_read_back(n, zeros, 0xFFFF_FFFF);
    assert(seq!['+'] + (zeros + d) =~= seq!['+'] + zeros + d);
}

/// A text that spells no whole number sets none.
pub proof fn other_texts_are_no_whole_numbers(value: Seq<char>, i: int)
    requires
        value.len() == 0 || value == seq!['+'] || (0 <= i < value.len()
            && !crate::text_laws::is_numeral(value[i]) && (i == 0 ==> value[i] != '+')),
    ensures
        crate::entry::count_of(value) is None,
{
    crate::text_laws::other_texts_are_no_numbers(value, u32::MAX as nat, i);
}

/// The names of the bands, from low to high.
pub open spec fn band_names() -> Seq<Seq<char>> {
    seq![
        "sub_bass"@,
        "bass"@,
        "low_mid"@,
        "mid"@,
        "upper_mid"@,
        "presence"@,
        "brilliance"@,
        "air"@,
    ]
}

proof fn band_names_differ()
    ensures
        band_names().no_duplicates(),
{
    reveal_strlit("sub_bass");
    reveal_strlit("bass");
    reveal_strlit("low_mid");
    reveal_strlit("mid");
    reveal_strlit("upper_mid");
    reveal_strlit("presence");
    reveal_strlit("brilliance");
    reveal_strlit("air");
    let k = band_names();
    assert(k[0] == "sub_bass"@ && k[0].len() == 8);
    assert(k[1] == "bass"@ && k[1].len() == 4);
    assert(k[2] == "low_mid"@ && k[2].len() == 7);
    assert(k[3] == "mid"@ && k[3].len() == 3);
    assert(k[4] == "upper_mid"@ && k[4].len() == 9);
    assert(k[5] == "presence"@ && k[5].len() == 8);
    assert(k[6] == "brilliance"@ && k[6].len() == 10);
    assert(k[7] == "air"@ && k[7].len() == 3);
    assert forall|i: int, j: int| 0 <= i < k.len() && 0 <= j < k.len() && i != j implies k[i]
        != k[j] by {
        assert(k[i].len() != k[j].len() || k[i][0] != k[j][0]);
    }
}

/// In the sections about bands a key that names a band sets that band, and every other key nothing.
pub proof fn band_keys_set_their_bands(band: int, key: Seq<char>, value: Seq<char>)
    requires
        0 <= band < 8,
    ensures
        crate::entry::entry_of("band_sensitivity"@, band_names()[band], value) == Some(
            EntryView::Sensitivity { band, text: value },
        ),
        crate::entry::entry_of("band_smoothing"@, band_names()[band], value) == Some(
            EntryView::Smoothing { band, text: value },
        ),
        !band_names().contains(key) ==> crate::entry::entry_of("band_sensitivity"@, key, value) is None,
        !band_names().contains(key) ==> crate::entry::entry_of("band_smoothing"@, key, value) is None,
{
    section_names_differ();
    band_names_differ();
    let k = band_names();
    assert(k[0] == "sub_bass"@);
    assert(k[1] == "bass"@);
    assert(k[2] == "low_mid"@);
    assert(k[3] == "mid"@);
    assert(k[4] == "upper_mid"@);
    assert(k[5] == "presence"@);
    assert(k[6] == "brilliance"@);
    assert(k[7] == "air"@);
}

/// The bass that amplifies the other bands is that of the two bands whose names say so.
pub proof fn bass_is_bass(band: int)
    requires
        0 <= band < 8,
    ensures
        band < crate::frame::BASS_BANDS <==> band_names()[band] == "sub_bass"@
            || band_names()[band] == "bass"@,
{
    band_names_differ();
    let k = band_names();
    assert(k[0] == "sub_bass"@ && k[1] == "bass"@);
}

/// In front of all sections a setting is a general one, and in an unknown section it is none.
pub proof fn sections_hold_their_settings(section: Seq<char>, key: Seq<char>, value: Seq<char>)
    ensures
        crate::entry::entry_of(seq![], key, value) == crate::entry::general_entry(key, value),
        !(seq![
            Seq::<char>::empty(),
            "band_sensitivity"@,
            "band_smoothing"@,
            "freq_sets"@,
            "layouts"@,
            "palettes"@,
        ].contains(section)) ==> crate::entry::entry_of(section, key, value) is None,
{
    let known = seq![
        Seq::<char>::empty(),
        "band_sensitivity"@,
        "band_smoothing"@,
        "freq_sets"@,
        "layouts"@,
        "palettes"@,
    ];
    assert(known[0] == Seq::<char>::empty());
    assert(known[1] == "band_sensitivity"@);
    assert(known[2] == "band_smoothing"@);
    assert(known[3] == "freq_sets"@);
    assert(known[4] == "layouts"@);
    assert(known[5] == "palettes"@);
    if section.len() == 0 {
        assert(section =~= known[0]);
    }
}

} // verus!
