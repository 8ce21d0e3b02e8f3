//! Which audio device to listen to, and what to tell about the devices there are.
use crate::text::{chars_of, contains_chars, pieces, spells, split_chars, split_lines, string_of};
use vstd::prelude::*;

verus! {

// ---------------------------------------------------------------------------
// Monitor sources
// ---------------------------------------------------------------------------

/// The name of the monitor source that a line of the source listing is about: its second field, where
/// that holds `.monitor`. Fields are separated by tabs.
pub open spec fn monitor_of(line: Seq<char>) -> Option<Seq<char>> {
    let fields = crate::text::split(line, '\t');
    if fields.len() >= 2 && crate::text::contains(fields[1], ".monitor"@) {
        Some(fields[1])
    } else {
        None
    }
}

/// The monitor sources that the lines are about, in their order.
pub open spec fn monitors_in(lines: Seq<Seq<char>>) -> Seq<Seq<char>>
    decreases lines.len(),
{
    if lines.len() == 0 {
        seq![]
    } else {
        let before = monitors_in(lines.drop_last());
        match monitor_of(lines.last()) {
            Some(name) => before.push(name),
            None => before,
        }
    }
}

/// The monitor sources of a listing.
pub open spec fn listed_monitors(listing: Seq<char>) -> Seq<Seq<char>> {
    monitors_in(crate::text::lines(listing))
}

fn read_monitor(line: &[char]) -> (r: Option<String>)
    ensures
        crate::config::text_view(r) == monitor_of(line@),
{
    let fields: Vec<&[char]> = split_chars(line, '\t');
    let ghost parts = pieces(fields@);
    if fields.len() >= 2 {
        let wanted: Vec<char> = chars_of(".monitor");
        assert(parts[1] == fields@[1]@);
        if contains_chars(fields[1], wanted.as_slice()) {
            return Some(string_of(fields[1]));
        }
    }
    None
}

/// Finds the monitor sources of a listing.
pub fn monitor_sources(listing: &str) -> (r: Vec<String>)
    ensures
        crate::entry::string_views(r@) == listed_monitors(listing@),
{
    let chars: Vec<char> = chars_of(listing);
    let parts: Vec<&[char]> = split_lines(chars.as_slice());
    let ghost all = pieces(parts@);
    let mut r: Vec<String> = Vec::new();
    let mut i: usize = 0;
    assert(all.take(0) =~= seq![]);
    assert(crate::entry::string_views(r@) =~= seq![]);
    while i < parts.len()
        invariant
            i <= parts.len(),
            all == pieces(parts@),
            crate::entry::string_views(r@) == monitors_in(all.take(i as int)),
        decreases parts.len() - i,
    {
        let ghost before = r@;
        assert(all.take(i + 1).drop_last() =~= all.take(i as int));
        assert(all.take(i + 1).last() == parts@[i as int]@);
        if let Some(name) = read_monitor(parts[i]) {
            r.push(name);
            assert(crate::entry::string_views(r@) =~= crate::entry::string_views(before).push(
                name@,
            ));
        }
        i = i + 1;
    }
    assert(all.take(i as int) =~= all);
    r
}

/// What a result of strings holds.
pub open spec fn result_view(r: Result<String, String>) -> Result<Seq<char>, Seq<char>> {
    match r {
        Ok(s) => Ok(s@),
        Err(s) => Err(s@),
    }
}

/// The first monitor source of a listing, or the message that there is none.
pub open spec fn first_listed(listing: Seq<char>) -> Result<Seq<char>, Seq<char>> {
    if listed_monitors(listing).len() > 0 {
        Ok(listed_monitors(listing)[0])
    } else {
        Err("No monitor source found"@)
    }
}

/// Finds the first monitor source of a listing.
pub fn first_monitor(listing: &str) -> (r: Result<String, String>)
    ensures
        result_view(r) == first_listed(listing@),
{
    let found: Vec<String> = monitor_sources(listing);
    if found.len() > 0 {
        assert(crate::entry::string_views(found@)[0] == found@[0]@);
        Ok(found[0].clone())
    } else {
        Err("No monitor source found".to_string())
    }
}

// ---------------------------------------------------------------------------
// Output of the listing command
// ---------------------------------------------------------------------------

/// The text that bytes are decoded to, with the replacement character for what is not UTF-8.
pub uninterp spec fn utf8_lossy(bytes: Seq<u8>) -> Seq<char>;

/// `String::from_utf8_lossy`: bytes that are UTF-8 are decoded as such. Which characters take the
/// place of other bytes is not said here, only that it depends on the bytes alone.
#[verifier::external_body]
fn decode_lossy(bytes: &[u8]) -> (r: String)
    ensures
        r@ == utf8_lossy(bytes@),
        vstd::utf8::valid_utf8(bytes@) ==> r@ == vstd::utf8::decode_utf8(bytes@),
{
    String::from_utf8_lossy(bytes).into_owned()
}

/// Finds the first monitor source in the output of the listing command.
pub fn monitor_in_output(stdout: &[u8]) -> (r: Result<String, String>)
    ensures
        result_view(r) == first_listed(utf8_lossy(stdout@)),
        vstd::utf8::valid_utf8(stdout@) ==> result_view(r) == first_listed(
            vstd::utf8::decode_utf8(stdout@),
        ),
{
    first_monitor(decode_lossy(stdout).as_str())
}

// ---------------------------------------------------------------------------
// Reports
// ---------------------------------------------------------------------------

/// A name as an item of a list.
pub open spec fn bullet(name: Seq<char>) -> Seq<char> {
    "  - "@ + name
}

/// Names as a list.
pub open spec fn bullets(names: Seq<Seq<char>>) -> Seq<Seq<char>> {
    Seq::new(names.len(), |i: int| bullet(names[i]))
}

/// Makes a list of names.
pub fn bulleted(names: &Vec<String>) -> (r: Vec<String>)
    ensures
        crate::entry::string_views(r@) == bullets(crate::entry::string_views(names@)),
{
    let mut r: Vec<String> = Vec::new();
    let mut i: usize = 0;
    while i < names.len()
        invariant
            i <= names.len(),
            r.len() == i,
            forall|j: int| 0 <= j < i ==> (#[trigger] r@[j])@ == bullet(names@[j]@),
        decreases names.len() - i,
    {
        let mut line: String = "  - ".to_string();
        line.append(names[i].as_str());
        r.push(line);
        i = i + 1;
    }
    assert(crate::entry::string_views(r@) =~= bullets(crate::entry::string_views(names@)));
    r
}

/// What is told about the monitor sources of a listing.
pub open spec fn monitor_lines(listing: Seq<char>) -> Seq<Seq<char>> {
    if listed_monitors(listing).len() > 0 {
        bullets(listed_monitors(listing))
    } else {
        seq!["  (none found)"@]
    }
}

/// Tells about the monitor sources of a listing.
pub fn report_monitors(listing: &str) -> (r: Vec<String>)
    ensures
        crate::entry::string_views(r@) == monitor_lines(listing@),
{
    let found: Vec<String> = monitor_sources(listing);
    if found.len() > 0 {
        bulleted(&found)
    } else {
        let mut r: Vec<String> = Vec::new();
        r.push("  (none found)".to_string());
        assert(crate::entry::string_views(r@) =~= monitor_lines(listing@));
        r
    }
}

/// Tells about the monitor sources in the output of the listing command; `None` where the command
/// could not be run.
pub fn report_output(stdout: Option<&[u8]>) -> (r: Vec<String>)
    ensures
        crate::entry::string_views(r@) == (match stdout {
            Some(bytes) => monitor_lines(utf8_lossy(bytes@)),
            None => seq!["  (pactl not available)"@],
        }),
        stdout matches Some(bytes) ==> vstd::utf8::valid_utf8(bytes@)
            ==> crate::entry::string_views(r@) == monitor_lines(vstd::utf8::decode_utf8(bytes@)),
{
    match stdout {
        Some(bytes) => report_monitors(decode_lossy(bytes).as_str()),
        None => {
            let mut r: Vec<String> = Vec::new();
            r.push("  (pactl not available)".to_string());
            assert(crate::entry::string_views(r@) =~= seq!["  (pactl not available)"@]);
            r
        },
    }
}

/// Number of characters of a level meter.
pub const METER_LEN: usize = 50;

/// A meter of `bars` bars, filled up with blanks.
pub fn level_meter(bars: usize) -> (r: String)
    requires
        bars <= METER_LEN,
    ensures
        r@ == Seq::new(
            METER_LEN as nat,
            |i: int|
                if i < bars {
                    '#'
                } else {
                    ' '
                },
        ),
        r@.len() == 50,
        forall|i: int| 0 <= i < bars ==> #[trigger] r@[i] == '#',
        forall|i: int| bars <= i < 50 ==> #[trigger] r@[i] == ' ',
{
    let mut r: String = String::new();
    let mut i: usize = 0;
    let ghost meter = Seq::new(
        METER_LEN as nat,
        |i: int|
            if i < bars {
                '#'
            } else {
                ' '
            },
    );
    assert(r@ =~= meter.take(0));
    while i < METER_LEN
        invariant
            i <= METER_LEN,
            meter == Seq::new(
                METER_LEN as nat,
                |i: int|
                    if i < bars {
                        '#'
                    } else {
                        ' '
                    },
            ),
            r@ == meter.take(i as int),
        decreases METER_LEN - i,
    {
        if i < bars {
            r.push('#');
        } else {
            r.push(' ');
        }
        assert(meter.take(i as int).push(meter[i as int]) =~= meter.take(i + 1));
        i = i + 1;
    }
    assert(meter.take(i as int) =~= meter);
    r
}

// ---------------------------------------------------------------------------
// The search for a device
// ---------------------------------------------------------------------------

/// What the search for a device does next.
#[derive(Debug)]
pub enum SearchStep {
    /// Ask the sound server for a monitor source.
    AskMonitor,
    /// Direct the sound server to a source and list the devices. `required` says that only this
    /// source will do.
    ListDevices { source: String, required: bool },
    /// Take the device at that place of the list.
    Take(usize),
    /// Take the default device, if there is one.
    TryDefault,
    /// Give up with a message.
    Fail(String),
}

/// What a step holds.
pub enum SearchStepView {
    AskMonitor,
    ListDevices { source: Seq<char>, required: bool },
    Take(int),
    TryDefault,
    Fail(Seq<char>),
}

impl View for SearchStep {
    type V = SearchStepView;

    open spec fn view(&self) -> SearchStepView {
        match *self {
            SearchStep::AskMonitor => SearchStepView::AskMonitor,
            SearchStep::ListDevices { source, required } => SearchStepView::ListDevices {
                source: source@,
                required,
            },
            SearchStep::Take(i) => SearchStepView::Take(i as int),
            SearchStep::TryDefault => SearchStepView::TryDefault,
            SearchStep::Fail(message) => SearchStepView::Fail(message@),
        }
    }
}

/// The first step: a source that the user names is the only one to try.
pub fn start_search(source: Option<&str>) -> (r: SearchStep)
    ensures
        r@ == (match source {
            Some(s) => SearchStepView::ListDevices { source: s@, required: true },
            None => SearchStepView::AskMonitor,
        }),
        r@ is AskMonitor <==> source is None,
        source matches Some(s) ==> (r@ matches SearchStepView::ListDevices { source: t, required }
            && t == s@ && required),
{
    match source {
        Some(s) => SearchStep::ListDevices { source: s.to_string(), required: true },
        None => SearchStep::AskMonitor,
    }
}

/// The step after the sound server was asked for a monitor source.
pub fn monitor_answered(answer: Result<String, String>) -> (r: SearchStep)
    ensures
        r@ == (match answer {
            Ok(s) => SearchStepView::ListDevices { source: s@, required: false },
            Err(_) => SearchStepView::TryDefault,
        }),
        r@ is TryDefault <==> answer is Err,
        answer matches Ok(s) ==> (r@ matches SearchStepView::ListDevices { source: t, required }
            && t == s@ && !required),
{
    match answer {
        Ok(s) => SearchStep::ListDevices { source: s, required: false },
        Err(_) => SearchStep::TryDefault,
    }
}

/// Whether a device is the one of the sound server.
pub open spec fn is_pulse(name: Option<String>) -> bool {
    name matches Some(s) && s@ == "pulse"@
}

/// The number of devices in front of the first one of the sound server.
pub open spec fn first_pulse(names: Seq<Option<String>>) -> nat
    decreases names.len(),
{
    if names.len() == 0 || is_pulse(names[0]) {
        0
    } else {
        1 + first_pulse(names.skip(1))
    }
}

/// The message that a source which the user named cannot be had.
pub open spec fn source_missing(source: Seq<char>) -> Seq<char> {
    "Specified source '"@ + source + "' not found — is 'pulse' device available?"@
}

/// The step after the devices were listed. The name of a device is `None` where it could not be
/// found out.
pub fn devices_listed(source: &str, required: bool, names: &Vec<Option<String>>) -> (r: SearchStep)
    ensures
        r@ == (if first_pulse(names@) < names@.len() {
            SearchStepView::Take(first_pulse(names@) as int)
        } else if required {
            SearchStepView::Fail(source_missing(source@))
        } else {
            SearchStepView::TryDefault
        }),
        r@ matches SearchStepView::Take(i) ==> 0 <= i < names@.len() && is_pulse(names@[i])
            && forall|j: int| 0 <= j < i ==> !is_pulse(#[trigger] names@[j]),
        r@ is Take || forall|j: int| 0 <= j < names@.len() ==> !is_pulse(#[trigger] names@[j]),
        r@ is Fail ==> required,
        r@ is TryDefault ==> !required,
        !(r@ is AskMonitor) && !(r@ is ListDevices),
{
    proof {
        first_pulse_is_first(names@);
    }
    let mut i: usize = 0;
    assert(names@.skip(0) =~= names@);
    while i < names.len()
        invariant
            i <= names.len(),
            first_pulse(names@) == i + first_pulse(names@.skip(i as int)),
        decreases names.len() - i,
    {
        if let Some(name) = &names[i] {
            if spells(chars_of(name.as_str()).as_slice(), "pulse") {
                proof {
                    first_pulse_is_first(names@);
                }
                return SearchStep::Take(i);
            }
        }
        assert(names@.skip(i as int).skip(1) =~= names@.skip(i + 1));
        i = i + 1;
    }
    if required {
        let mut message: String = "Specified source '".to_string();
        message.append(source);
        message.append("' not found — is 'pulse' device available?");
        SearchStep::Fail(message)
    } else {
        SearchStep::TryDefault
    }
}

/// How the search ends after the default device was asked for.
pub fn default_answered<T>(device: Option<T>) -> (r: Result<T, String>)
    ensures
        device matches Some(d) ==> r == Ok::<T, String>(d),
        device is None ==> (r matches Err(message) && message@ == "No audio input device found"@),
{
    match device {
        Some(d) => Ok(d),
        None => Err("No audio input device found".to_string()),
    }
}

// ---------------------------------------------------------------------------
// Laws
// ---------------------------------------------------------------------------

/// Only sources whose names hold `.monitor` are listed as monitors.
pub proof fn monitors_are_monitors(lines: Seq<Seq<char>>)
    ensures
        forall|i: int|
            0 <= i < monitors_in(lines).len() ==> crate::text::contains(
                #[trigger] monitors_in(lines)[i],
                ".monitor"@,
            ),
        monitors_in(lines).len() <= lines.len(),
    decreases lines.len(),
{
    if lines.len() > 0 {
        monitors_are_monitors(lines.drop_last());
        let before = monitors_in(lines.drop_last());
        let all = monitors_in(lines);
        assert forall|i: int| 0 <= i < all.len() implies crate::text::contains(
            #[trigger] all[i],
            ".monitor"@,
        ) by {
            if i < before.len() {
                assert(before[i] == all[i]);
            }
        }
    }
}

/// `first_pulse` is the first place of a device of the sound server, or the number of devices.
pub proof fn first_pulse_is_first(names: Seq<Option<String>>)
    ensures
        first_pulse(names) <= names.len(),
        first_pulse(names) < names.len() ==> is_pulse(names[first_pulse(names) as int]),
        forall|j: int| 0 <= j < first_pulse(names) ==> !is_pulse(#[trigger] names[j]),
    decreases names.len(),
{
    if names.len() > 0 && !is_pulse(names[0]) {
        first_pulse_is_first(names.skip(1));
        assert forall|j: int| 0 <= j < first_pulse(names) implies !is_pulse(#[trigger] names[j]) by {
            if j > 0 {
                assert(names[j] == names.skip(1)[j - 1]);
            }
        }
    }
}

/// A line of a listing whose second field holds `.monitor` gives that field, however many fields
/// follow. A line with another second field, and a line without a tab, gives nothing.
pub proof fn second_field_names_the_monitor(id: Seq<char>, name: Seq<char>, rest: Seq<char>)
    requires
        crate::text_laws::lacks(id, '\t'),
        crate::text_laws::lacks(name, '\t'),
    ensures
        monitor_of(id) is None,
        crate::text::contains(name, ".monitor"@) ==> monitor_of(id + seq!['\t'] + name) == Some(name),
        crate::text::contains(name, ".monitor"@) ==> monitor_of(
            id + seq!['\t'] + name + seq!['\t'] + rest,
        ) == Some(name),
        !crate::text::contains(name, ".monitor"@) ==> monitor_of(id + seq!['\t'] + name) is None,
        !crate::text::contains(name, ".monitor"@) ==> monitor_of(
            id + seq!['\t'] + name + seq!['\t'] + rest,
        ) is None,
{
    let tail = name + seq!['\t'] + rest;
    crate::text_laws::first_separator_ends_the_first_piece(id, '\t', name);
    crate::text_laws::first_separator_ends_the_first_piece(name, '\t', rest);
    crate::text_laws::first_separator_ends_the_first_piece(id, '\t', tail);
    assert(id + seq!['\t'] + name + seq!['\t'] + rest =~= id + seq!['\t'] + tail);
    let short = seq![id] + crate::text::split(name, '\t');
    let long = seq![id] + crate::text::split(tail, '\t');
    assert(short[1] == name);
    assert(long[1] == name);
}

/// The monitors of lines in two parts are those of the first part and then those of the second, and a
/// single line gives the monitor that it is about.
pub proof fn monitors_come_in_order(before: Seq<Seq<char>>, after: Seq<Seq<char>>, line: Seq<char>)
    ensures
        monitors_in(before + after) == monitors_in(before) + monitors_in(after),
        monitors_in(seq![line]) == (match monitor_of(line) {
            Some(name) => seq![name],
            None => seq![],
        }),
    decreases after.len(),
{
    reveal_with_fuel(monitors_in, 2);
    assert(seq![line].drop_last() =~= seq![]);
    assert(monitors_in(seq![line]) =~= (match monitor_of(line) {
        Some(name) => seq![name],
        None => seq![],
    }));
    let all = before + after;
    if after.len() == 0 {
        assert(all =~= before);
        assert(monitors_in(all) =~= monitors_in(before) + monitors_in(after));
    } else {
        monitors_come_in_order(before, after.drop_last(), line);
        assert(all.drop_last() =~= before + after.drop_last());
        assert(monitors_in(all) =~= monitors_in(before) + monitors_in(after));
    }
}

/// Every monitor of a listing is found: a line about one adds its name in front of those of the lines
/// that follow, and is then the first monitor; any other line adds nothing. Lines end with a line
/// feed.
pub proof fn every_monitor_is_listed(
    id: Seq<char>,
    name: Seq<char>,
    rest: Seq<char>,
    more: Seq<char>,
)
    requires
        crate::text_laws::lacks(id, '\t') && crate::text_laws::lacks(id, '\n'),
        crate::text_laws::lacks(name, '\t') && crate::text_laws::lacks(name, '\n'),
        crate::text_laws::lacks(rest, '\n') && crate::text_laws::lacks(rest, '\r'),
    ensures
        ({
            let listing = id + seq!['\t'] + name + seq!['\t'] + rest + seq!['\n'] + more;
            if crate::text::contains(name, ".monitor"@) {
                &&& listed_monitors(listing) == seq![name] + listed_monitors(more)
                &&& first_listed(listing) == Ok::<Seq<char>, Seq<char>>(name)
            } else {
                &&& listed_monitors(listing) == listed_monitors(more)
                &&& first_listed(listing) == first_listed(more)
            }
        }),
{
    let line = id + seq!['\t'] + name + seq!['\t'] + rest;
    let listing = line + seq!['\n'] + more;
    let n = id.len() + 1 + name.len() + 1;
    assert forall|j: int| 0 <= j < line.len() implies #[trigger] line[j] != '\n' by {
        if j < id.len() {
            assert(line[j] == id[j]);
        } else if id.len() < j < n - 1 {
            assert(line[j] == name[j - id.len() - 1]);
        } else if n <= j {
            assert(line[j] == rest[j - n]);
        }
    }
    if rest.len() > 0 {
        assert(line.last() == rest[rest.len() - 1]);
    } else {
        assert(line.last() == '\t');
    }
    crate::text_laws::line_feeds_end_lines(line, more);
    second_field_names_the_monitor(id, name, rest);
    monitors_come_in_order(seq![line], crate::text::lines(more), line);
    if crate::text::contains(name, ".monitor"@) {
        assert(listed_monitors(listing)[0] == name);
    } else {
        assert(listed_monitors(listing) =~= listed_monitors(more));
    }
}

/// A listing is read line by line, and its last line may do without a line feed.
pub proof fn listings_are_read_line_by_line(line: Seq<char>, more: Seq<char>)
    requires
        crate::text_laws::lacks(line, '\n'),
    ensures
        listed_monitors(line) == (if line.len() > 0 {
            monitors_in(seq![line])
        } else {
            seq![]
        }),
        line.len() == 0 || line.last() != '\r' ==> listed_monitors(line + seq!['\n'] + more)
            == monitors_in(seq![line]) + listed_monitors(more),
        listed_monitors(line + seq!['\r', '\n'] + more) == monitors_in(seq![line])
            + listed_monitors(more),
{
    crate::text_laws::line_feeds_end_lines(line, more);
    monitors_come_in_order(seq![line], crate::text::lines(more), line);
    if line.len() == 0 {
        assert(line =~= seq![]);
        assert(listed_monitors(line) =~= seq![]);
    }
}

/// A listing without a monitor says so, and a report has a dash in front of each name.
pub proof fn reports_name_the_monitors(listing: Seq<char>, names: Seq<Seq<char>>, i: int)
    requires
        0 <= i < names.len(),
    ensures
        listed_monitors(seq![]).len() == 0,
        listed_monitors(listing).len() == 0 ==> first_listed(listing) == Err::<Seq<char>, Seq<char>>(
            "No monitor source found"@,
        ) && monitor_lines(listing) == seq!["  (none found)"@],
        listed_monitors(listing).len() > 0 ==> first_listed(listing) == Ok::<Seq<char>, Seq<char>>(
            listed_monitors(listing)[0],
        ) && monitor_lines(listing) == bullets(listed_monitors(listing)),
        bullets(names).len() == names.len(),
        bullets(names)[i] == seq![' ', ' ', '-', ' '] + names[i],
{
    reveal_strlit("  - ");
    assert("  - "@ =~= seq![' ', ' ', '-', ' ']);
    assert(crate::text::lines(seq![]) =~= seq![]);
}

/// The device of the sound server is the one with its name.
pub proof fn pulse_is_named_pulse(name: String)
    ensures
        is_pulse(Some(name)) <==> name@ == seq!['p', 'u', 'l', 's', 'e'],
        !is_pulse(None),
{
    reveal_strlit("pulse");
    assert("pulse"@ =~= seq!['p', 'u', 'l', 's', 'e']);
}

/// The message about a source that cannot be had names it in quotes.
pub proof fn message_names_the_source(source: Seq<char>)
    ensures
        crate::text::contains(source_missing(source), seq!['\''] + source + seq!['\'']),
{
    reveal_strlit("Specified source '");
    reveal_strlit("' not found — is 'pulse' device available?");
    let front = "Specified source '"@;
    let back = "' not found — is 'pulse' device available?"@;
    let quoted = seq!['\''] + source + seq!['\''];
    assert(source_missing(source) =~= front.drop_last() + quoted + back.skip(1));
    crate::text_laws::held_text_stands_between_others(
        front.drop_last(),
        quoted,
        back.skip(1),
        seq![],
    );
}

} // verus!
