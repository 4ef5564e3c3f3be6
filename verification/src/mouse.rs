//! Minimal SGR mouse-protocol parser.
//!
//! A terminal reports the mouse on the same stream as the keyboard, as
//! `ESC [ < Cb ; Cx ; Cy M` for a press and `... m` for a release. Three things
//! can happen to such a report on its way in:
//!
//! * it concerns a button this program has no use for: it is recognised as
//!   mouse input and swallowed, so that it never reaches a pane as text;
//! * several reports arrive in one read: [`parse_all`] peels them off the
//!   front one at a time;
//! * one report is cut in two by the end of a read: [`parse_all`] hands the
//!   unfinished tail back separately, for the caller to put in front of what
//!   it reads next ([`split_reports_reassemble`]).

use crate::bytes;
use crate::bytes::starts_with;
use vstd::prelude::*;
use vstd::slice::slice_subrange;

verus! {

/// A mouse event at a terminal cell position, counted from zero.
#[derive(Debug, Clone, Copy, PartialEq, Eq, Structural)]
pub enum MouseEvent {
    Down { col: u16, row: u16 },
    Drag { col: u16, row: u16 },
    Up { col: u16, row: u16 },
    /// One wheel tick back into a pane's history.
    ScrollUp { col: u16, row: u16 },
    /// One wheel tick toward a pane's live tail.
    ScrollDown { col: u16, row: u16 },
}

/// What one input chunk is, seen as a mouse report.
#[derive(Debug, Clone, Copy, PartialEq, Eq, Structural)]
pub enum ParsedInput {
    /// An event to act on.
    Mouse(MouseEvent),
    /// A well-formed report of something of no interest (another button, bare
    /// movement): mouse input, but nothing to do.
    Ignored,
    /// Not a mouse report.
    NotMouse,
}

/// What stands at the start of a buffer.
#[derive(Debug, Clone, Copy, PartialEq, Eq, Structural)]
pub enum ParseOneResult {
    /// Something shaped like a report, of this meaning and this many bytes.
    /// The meaning is `NotMouse` where the shape is right and the content is
    /// not.
    Complete(ParsedInput, usize),
    /// The start of a report whose end has not arrived.
    Incomplete,
    /// Not the start of a report.
    NoMatch,
}

/// The bytes every report starts with: `ESC [ <`.
pub open spec fn report_prefix() -> Seq<u8> {
    seq![0x1bu8, 0x5bu8, 0x3cu8]
}

/// Whether `b` ends a report.
pub open spec fn is_terminator(b: u8) -> bool {
    b == 'M' as u8 || b == 'm' as u8
}

/// Where the first report terminator stands.
pub open spec fn terminator_index(s: Seq<u8>) -> Option<int> {
    bytes::first_where(|i: int| is_terminator(s[i]), 0, s.len() as int)
}

/// Where the first `;` stands.
pub open spec fn separator_index(s: Seq<u8>) -> Option<int> {
    bytes::first_where(|i: int| s[i] == ';' as u8, 0, s.len() as int)
}

/// The pieces of `s` between its `;`s.
pub open spec fn fields(s: Seq<u8>) -> Seq<Seq<u8>>
    decreases s.len(),
{
    match separator_index(s) {
        Some(i) if 0 <= i < s.len() => seq![s.take(i)] + fields(s.skip(i + 1)),
        _ => seq![s],
    }
}

pub open spec fn is_digit(b: u8) -> bool {
    '0' as u8 <= b <= '9' as u8
}

pub open spec fn all_digits(s: Seq<u8>) -> bool {
    forall|i: int| 0 <= i < s.len() ==> is_digit(#[trigger] s[i])
}

/// The number that a run of decimal digits writes.
pub open spec fn digits_value(s: Seq<u8>) -> int
    decreases s.len(),
{
    if s.len() == 0 {
        0
    } else {
        10 * digits_value(s.drop_last()) + (s.last() - '0' as u8)
    }
}

/// `s` without one leading `+`.
pub open spec fn unsigned_digits(s: Seq<u8>) -> Seq<u8> {
    if s.len() > 0 && s[0] == '+' as u8 {
        s.skip(1)
    } else {
        s
    }
}

/// The number that `s` writes in decimal, an optional `+` in front, if it
/// writes one that is at most `max`.
pub open spec fn number(s: Seq<u8>, max: int) -> Option<int> {
    let d = unsigned_digits(s);
    if d.len() > 0 && all_digits(d) && digits_value(d) <= max {
        Some(digits_value(d))
    } else {
        None
    }
}

/// The button number in a report's first field: its two low bits and, above
/// them, bits 6 and 7.
pub open spec fn button_number(cb: int) -> int {
    cb % 4 + 4 * ((cb / 64) % 4)
}

/// Whether a report's first field says that the pointer moved (bit 5).
pub open spec fn is_motion(cb: int) -> bool {
    (cb / 32) % 2 == 1
}

/// What a report with first field `cb` says about the cell `(col, row)`.
pub open spec fn report_meaning(cb: int, col: u16, row: u16, released: bool) -> ParsedInput {
    let button = button_number(cb);
    if button == 4 {
        ParsedInput::Mouse(MouseEvent::ScrollUp { col, row })
    } else if button == 5 {
        ParsedInput::Mouse(MouseEvent::ScrollDown { col, row })
    } else if button != 0 {
        ParsedInput::Ignored
    } else if released {
        ParsedInput::Mouse(MouseEvent::Up { col, row })
    } else if is_motion(cb) {
        ParsedInput::Mouse(MouseEvent::Drag { col, row })
    } else {
        ParsedInput::Mouse(MouseEvent::Down { col, row })
    }
}

/// What the bytes between prefix and terminator say. Columns and rows are
/// counted from one on the wire. One `;` may trail the row; anything else after it
/// is malformed.
pub open spec fn body_meaning(body: Seq<u8>, released: bool) -> ParsedInput {
    let f = fields(body);
    if vstd::utf8::valid_utf8(body) && (f.len() == 3 || (f.len() == 4 && f[3].len() == 0)) {
        match (number(f[0], u32::MAX as int), number(f[1], u16::MAX as int), number(f[2], u16::MAX as int)) {
            (Some(cb), Some(col), Some(row)) if col >= 1 && row >= 1 => report_meaning(
                cb,
                (col - 1) as u16,
                (row - 1) as u16,
                released,
            ),
            _ => ParsedInput::NotMouse,
        }
    } else {
        ParsedInput::NotMouse
    }
}

/// What stands at the start of `bytes`.
pub open spec fn one_report(bytes: Seq<u8>) -> ParseOneResult {
    if !report_prefix().is_prefix_of(bytes) {
        ParseOneResult::NoMatch
    } else {
        let rest = bytes.skip(3);
        match terminator_index(rest) {
            None => ParseOneResult::Incomplete,
            Some(t) => ParseOneResult::Complete(
                body_meaning(rest.take(t), rest[t] == 'm' as u8),
                (3 + t + 1) as usize,
            ),
        }
    }
}

/// `std::str::from_utf8` succeeds exactly on well-formed UTF-8, and the string
/// it returns is the one those bytes encode.
pub assume_specification[ std::str::from_utf8 ](v: &[u8]) -> (r: Result<&str, std::str::Utf8Error>)
    ensures
        r is Ok <==> vstd::utf8::valid_utf8(v@),
        r matches Ok(s) ==> vstd::utf8::encode_utf8(s@) == v@,
;

/// The error of `std::str::from_utf8`; only whether there is one is looked at.
#[verifier::external_type_specification]
#[verifier::external_body]
pub struct ExUtf8Error(std::str::Utf8Error);

/// The index of the first report terminator.
fn find_terminator(s: &[u8]) -> (at: Option<usize>)
    ensures
        match at {
            Some(i) => terminator_index(s@) == Some(i as int) && i < s@.len(),
            None => terminator_index(s@) is None,
        },
{
    let ghost p = |i: int| is_terminator(s@[i]);
    let mut i: usize = 0;
    while i < s.len()
        invariant
            i <= s.len(),
            p == (|i: int| is_terminator(s@[i])),
            forall|j: int| 0 <= j < i ==> !#[trigger] p(j),
        decreases s.len() - i,
    {
        if s[i] == 'M' as u8 || s[i] == 'm' as u8 {
            proof {
                bytes::first_where_is(p, 0, s@.len() as int, i as int);
            }
            return Some(i);
        }
        i += 1;
    }
    proof {
        bytes::first_where_none(p, 0, s@.len() as int);
    }
    None
}

/// The pieces of `s` between its `;`s.
fn split_fields(s: &[u8]) -> (out: Vec<&[u8]>)
    ensures
        out@.len() == fields(s@).len(),
        forall|i: int| 0 <= i < out@.len() ==> (#[trigger] out@[i])@ == fields(s@)[i],
{
    let mut out: Vec<&[u8]> = Vec::new();
    let mut start: usize = 0;
    let mut i: usize = 0;
    let ghost mut done: Seq<Seq<u8>> = Seq::empty();
    assert(s@.skip(0) =~= s@);
    assert(done + fields(s@) =~= fields(s@));
    while i < s.len()
        invariant
            start <= i <= s.len(),
            fields(s@) == done + fields(s@.skip(start as int)),
            out@.len() == done.len(),
            forall|k: int| 0 <= k < out@.len() ==> (#[trigger] out@[k])@ == done[k],
            forall|j: int| start <= j < i ==> s@[j] != ';' as u8,
        decreases s.len() - i,
    {
        if s[i] == ';' as u8 {
            let piece = slice_subrange(s, start, i);
            proof {
                let tail = s@.skip(start as int);
                let k = i - start;
                let p = |j: int| tail[j] == ';' as u8;
                assert(p(k));
                assert forall|j: int| 0 <= j < k implies !#[trigger] p(j) by {
                    assert(tail[j] == s@[start + j]);
                }
                bytes::first_where_is(p, 0, tail.len() as int, k as int);
                assert(separator_index(tail) == Some(k as int));
                assert(tail.take(k as int) =~= piece@);
                assert(tail.skip(k + 1) =~= s@.skip(i + 1));
                let next = done.push(piece@);
                assert(done + (seq![piece@] + fields(s@.skip(i + 1))) =~= next + fields(
                    s@.skip(i + 1),
                ));
                done = next;
            }
            out.push(piece);
            start = i + 1;
        }
        i += 1;
    }
    let piece = slice_subrange(s, start, s.len());
    proof {
        let tail = s@.skip(start as int);
        let p = |j: int| tail[j] == ';' as u8;
        assert forall|j: int| 0 <= j < tail.len() implies !#[trigger] p(j) by {
            assert(tail[j] == s@[start + j]);
        }
        bytes::first_where_none(p, 0, tail.len() as int);
        assert(separator_index(tail) is None);
        assert(piece@ =~= tail);
        assert(fields(tail) == seq![tail]);
        assert(done + seq![tail] =~= done.push(tail));
    }
    out.push(piece);
    out
}

/// The value of a prefix of a digit run is at most the value of the run.
proof fn digits_value_grows(s: Seq<u8>, k: int)
    requires
        all_digits(s),
        0 <= k <= s.len(),
    ensures
        0 <= digits_value(s.take(k)) <= digits_value(s),
    decreases s.len(),
{
    if s.len() == 0 {
        assert(s.take(k) =~= s);
    } else {
        assert(is_digit(s.last()));
        assert(all_digits(s.drop_last())) by {
            assert forall|i: int| 0 <= i < s.drop_last().len() implies is_digit(
                #[trigger] s.drop_last()[i],
            ) by {
                assert(s.drop_last()[i] == s[i]);
            }
        }
        if k == s.len() {
            digits_value_grows(s.drop_last(), s.len() - 1);
            assert(s.take(k) =~= s);
        } else {
            digits_value_grows(s.drop_last(), k);
            assert(s.drop_last().take(k) =~= s.take(k));
        }
    }
}

/// The number that `s` writes in decimal, if it is at most `max`.
fn parse_number(s: &[u8], max: u32) -> (r: Option<u32>)
    ensures
        match r {
            Some(n) => number(s@, max as int) == Some(n as int),
            None => number(s@, max as int) is None,
        },
{
    let start: usize = if s.len() > 0 && s[0] == '+' as u8 {
        1
    } else {
        0
    };
    let ghost d = unsigned_digits(s@);
    assert(d =~= s@.skip(start as int));
    if start == s.len() {
        return None;
    }
    let mut value: u64 = 0;
    let mut i: usize = start;
    assert(d.take(0) =~= Seq::empty());
    while i < s.len()
        invariant
            start <= i <= s.len(),
            d == s@.skip(start as int),
            d == unsigned_digits(s@),
            forall|j: int| 0 <= j < i - start ==> is_digit(#[trigger] d[j]),
            value == digits_value(d.take(i - start)),
            value <= max,
        decreases s.len() - i,
    {
        let b = s[i];
        assert(d[i - start] == b);
        if b < '0' as u8 || b > '9' as u8 {
            return None;
        }
        assert(d.take(i - start + 1).drop_last() =~= d.take(i - start));
        assert(d.take(i - start + 1).last() == b);
        let next: u64 = 10 * value + (b - '0' as u8) as u64;
        if next > max as u64 {
            proof {
                if all_digits(d) {
                    digits_value_grows(d, i - start + 1);
                }
            }
            return None;
        }
        value = next;
        i += 1;
    }
    assert(d.take(d.len() as int) =~= d);
    Some(value as u32)
}

/// What a report with first field `cb` says about the cell `(col, row)`.
fn meaning(cb: u32, col: u16, row: u16, released: bool) -> (r: ParsedInput)
    ensures
        r == report_meaning(cb as int, col, row, released),
{
    let button: u32 = (cb & 0b0000_0011) | ((cb & 0b1100_0000) >> 4);
    let dragging = cb & 0b0010_0000 != 0;
    assert(button == cb % 4 + 4 * ((cb / 64) % 4)) by (bit_vector)
        requires
            button == (cb & 0b0000_0011) | ((cb & 0b1100_0000) >> 4),
    ;
    assert((cb & 0b0010_0000 != 0) == ((cb / 32) % 2 == 1)) by (bit_vector);
    if button == 4 {
        ParsedInput::Mouse(MouseEvent::ScrollUp { col, row })
    } else if button == 5 {
        ParsedInput::Mouse(MouseEvent::ScrollDown { col, row })
    } else if button != 0 {
        ParsedInput::Ignored
    } else if released {
        ParsedInput::Mouse(MouseEvent::Up { col, row })
    } else if dragging {
        ParsedInput::Mouse(MouseEvent::Drag { col, row })
    } else {
        ParsedInput::Mouse(MouseEvent::Down { col, row })
    }
}

/// What the bytes between prefix and terminator say.
fn parse_body(body: &[u8], released: bool) -> (r: ParsedInput)
    ensures
        r == body_meaning(body@, released),
{
    if std::str::from_utf8(body).is_err() {
        return ParsedInput::NotMouse;
    }
    let parts = split_fields(body);
    if parts.len() < 3 || parts.len() > 4 {
        return ParsedInput::NotMouse;
    }
    if parts.len() == 4 && parts[3].len() != 0 {
        return ParsedInput::NotMouse;
    }
    match (parse_number(parts[0], u32::MAX), parse_number(parts[1], 0xffff), parse_number(parts[2], 0xffff)) {
        (Some(cb), Some(col), Some(row)) => {
            if col == 0 || row == 0 {
                return ParsedInput::NotMouse;
            }
            meaning(cb, (col - 1) as u16, (row - 1) as u16, released)
        },
        _ => ParsedInput::NotMouse,
    }
}

/// Parse what stands at the start of `bytes`.
pub fn parse_one(bytes: &[u8]) -> (r: ParseOneResult)
    ensures
        r == one_report(bytes@),
        r matches ParseOneResult::Complete(_, consumed) ==> 4 <= consumed <= bytes@.len(),
{
    let prefix: [u8; 3] = [0x1b, 0x5b, 0x3c];
    assert(prefix@ =~= report_prefix());
    if !starts_with(bytes, &prefix) {
        return ParseOneResult::NoMatch;
    }
    let rest = slice_subrange(bytes, 3, bytes.len());
    assert(rest@ =~= bytes@.skip(3));
    match find_terminator(rest) {
        None => ParseOneResult::Incomplete,
        Some(t) => {
            let body = slice_subrange(rest, 0, t);
            assert(body@ =~= rest@.take(t as int));
            ParseOneResult::Complete(parse_body(body, rest[t] == 'm' as u8), 3 + t + 1)
        },
    }
}

/// What `bytes` is as a whole: the meaning of the report it consists of.
pub open spec fn whole_report(bytes: Seq<u8>) -> ParsedInput {
    match one_report(bytes) {
        ParseOneResult::Complete(parsed, consumed) if consumed == bytes.len() => parsed,
        _ => ParsedInput::NotMouse,
    }
}

/// Parse `bytes` as exactly one complete report.
pub fn parse(bytes: &[u8]) -> (r: ParsedInput)
    ensures
        r == whole_report(bytes@),
{
    match parse_one(bytes) {
        ParseOneResult::Complete(parsed, consumed) => {
            if consumed == bytes.len() {
                parsed
            } else {
                ParsedInput::NotMouse
            }
        },
        _ => ParsedInput::NotMouse,
    }
}

/// What a chunk of input holds: the events of the reports at its front, the
/// start of a report that its end cuts off, and what is not mouse input.
#[verifier::ext_equal]
pub struct Reports {
    pub events: Seq<MouseEvent>,
    pub incomplete: Seq<u8>,
    pub leftover: Seq<u8>,
}

impl Reports {
    /// These reports with `event` in front.
    pub open spec fn after(self, event: MouseEvent) -> Reports {
        Reports { events: seq![event] + self.events, ..self }
    }
}

/// What `bytes` holds. Reports are taken off the front for as long as one
/// stands there.
pub open spec fn all_reports(bytes: Seq<u8>) -> Reports
    decreases bytes.len(),
{
    match one_report(bytes) {
        ParseOneResult::Complete(ParsedInput::Mouse(event), consumed) if 0 < consumed
            <= bytes.len() => all_reports(bytes.skip(consumed as int)).after(event),
        ParseOneResult::Complete(ParsedInput::Ignored, consumed) if 0 < consumed
            <= bytes.len() => all_reports(bytes.skip(consumed as int)),
        ParseOneResult::Incomplete => Reports {
            events: Seq::empty(),
            incomplete: bytes,
            leftover: Seq::empty(),
        },
        _ => Reports { events: Seq::empty(), incomplete: Seq::empty(), leftover: bytes },
    }
}

/// Parse every complete report at the front of `bytes`: the events to act on,
/// the unfinished report at the end, which must be put in front of what is read
/// next, and the rest, which is not mouse input.
pub fn parse_all(bytes: &[u8]) -> (r: (Vec<MouseEvent>, &[u8], &[u8]))
    ensures
        r.0@ == all_reports(bytes@).events,
        r.1@ == all_reports(bytes@).incomplete,
        r.2@ == all_reports(bytes@).leftover,
{
    let mut events: Vec<MouseEvent> = Vec::new();
    let mut at: usize = 0;
    assert(bytes@.skip(0) =~= bytes@);
    loop
        invariant
            at <= bytes@.len(),
            all_reports(bytes@).events == events@ + all_reports(bytes@.skip(at as int)).events,
            all_reports(bytes@).incomplete == all_reports(bytes@.skip(at as int)).incomplete,
            all_reports(bytes@).leftover == all_reports(bytes@.skip(at as int)).leftover,
        decreases bytes@.len() - at,
    {
        let rest = slice_subrange(bytes, at, bytes.len());
        assert(rest@ =~= bytes@.skip(at as int));
        match parse_one(rest) {
            ParseOneResult::Complete(ParsedInput::Mouse(event), consumed) => {
                assert(rest@.skip(consumed as int) =~= bytes@.skip(at + consumed));
                assert(events@ + (seq![event] + all_reports(bytes@.skip(at + consumed)).events)
                    =~= events@.push(event) + all_reports(bytes@.skip(at + consumed)).events);
                events.push(event);
                at = at + consumed;
            },
            ParseOneResult::Complete(ParsedInput::Ignored, consumed) => {
                assert(rest@.skip(consumed as int) =~= bytes@.skip(at + consumed));
                at = at + consumed;
            },
            ParseOneResult::Incomplete => {
                let nothing = slice_subrange(bytes, 0, 0);
                assert(nothing@ =~= Seq::empty());
                assert(events@ + Seq::<MouseEvent>::empty() =~= events@);
                return (events, rest, nothing);
            },
            _ => {
                let nothing = slice_subrange(bytes, 0, 0);
                assert(nothing@ =~= Seq::empty());
                assert(events@ + Seq::<MouseEvent>::empty() =~= events@);
                return (events, nothing, rest);
            },
        }
    }
}

/// What follows a complete report does not change it.
proof fn complete_report_stays(x: Seq<u8>, y: Seq<u8>)
    requires
        x.len() <= usize::MAX,
        one_report(x) is Complete,
    ensures
        one_report(x + y) == one_report(x),
        4 <= one_report(x)->Complete_1 <= x.len(),
{
    let p = |i: int| is_terminator(x.skip(3)[i]);
    let n = x.skip(3).len() as int;
    bytes::first_where_props(p, 0, n);
    let t = terminator_index(x.skip(3))->0;
    let q = |i: int| is_terminator((x + y).skip(3)[i]);
    assert(q(t)) by {
        assert(p(t));
    }
    assert forall|j: int| 0 <= j < t implies !#[trigger] q(j) by {
        assert(!p(j));
    }
    bytes::first_where_is(q, 0, (x + y).skip(3).len() as int, t);
    assert((x + y).skip(3).take(t) =~= x.skip(3).take(t));
    assert(report_prefix().is_prefix_of(x + y)) by {
        assert((x + y).subrange(0, 3) =~= x.subrange(0, 3));
    }
}

/// A report in front of other input is taken off it as if it stood alone: its
/// event, if it has one, comes first, and the rest is read as before.
pub proof fn bundled_report_is_peeled(report: Seq<u8>, rest: Seq<u8>)
    requires
        report.len() <= usize::MAX,
        whole_report(report) != ParsedInput::NotMouse,
    ensures
        all_reports(report + rest) == match whole_report(report) {
            ParsedInput::Mouse(event) => all_reports(rest).after(event),
            _ => all_reports(rest),
        },
{
    complete_report_stays(report, rest);
    assert((report + rest).skip(report.len() as int) =~= rest);
}

/// Reports cut by the end of a read are put together again: reading `x`, and
/// then what was left unfinished of it followed by `y`, yields the events of
/// `x + y` in order and the same remainder, wherever the cut falls within mouse
/// input.
pub proof fn split_reports_reassemble(x: Seq<u8>, y: Seq<u8>)
    requires
        x.len() <= usize::MAX,
        all_reports(x).leftover.len() == 0,
    ensures
        all_reports(x + y) == (Reports {
            events: all_reports(x).events + all_reports(all_reports(x).incomplete + y).events,
            ..all_reports(all_reports(x).incomplete + y)
        }),
    decreases x.len(),
{
    match one_report(x) {
        ParseOneResult::Complete(parsed, consumed) => {
            complete_report_stays(x, y);
            let tail = x.skip(consumed as int);
            assert((x + y).skip(consumed as int) =~= tail + y);
            if parsed != ParsedInput::NotMouse {
                split_reports_reassemble(tail, y);
                match parsed {
                    ParsedInput::Mouse(event) => {
                        assert(seq![event] + (all_reports(tail).events + all_reports(
                            all_reports(tail).incomplete + y,
                        ).events) =~= (seq![event] + all_reports(tail).events) + all_reports(
                            all_reports(tail).incomplete + y,
                        ).events);
                    },
                    _ => {},
                }
            }
        },
        ParseOneResult::Incomplete => {
            assert(all_reports(x).events + all_reports(x + y).events =~= all_reports(x + y).events);
        },
        ParseOneResult::NoMatch => {
            assert(x =~= Seq::empty());
            assert(x + y =~= y);
            assert(all_reports(x).incomplete + y =~= y);
            assert(all_reports(x).events + all_reports(y).events =~= all_reports(y).events);
        },
    }
}

/// Only whole reports are swallowed: the input is a run of them, which alone
/// accounts for every event, followed by the unfinished report or by what is
/// not mouse input, never by both.
pub proof fn only_whole_reports_are_taken(bytes: Seq<u8>) -> (taken: int)
    requires
        bytes.len() <= usize::MAX,
    ensures
        0 <= taken <= bytes.len(),
        bytes.skip(taken) == all_reports(bytes).incomplete + all_reports(bytes).leftover,
        all_reports(bytes).incomplete.len() == 0 || all_reports(bytes).leftover.len() == 0,
        all_reports(bytes.take(taken)) == (Reports {
            events: all_reports(bytes).events,
            incomplete: Seq::empty(),
            leftover: Seq::empty(),
        }),
    decreases bytes.len(),
{
    let r = all_reports(bytes);
    match one_report(bytes) {
        ParseOneResult::Complete(parsed, consumed) => {
            complete_report_stays(bytes, Seq::empty());
            if parsed == ParsedInput::NotMouse {
                assert(bytes.skip(0) =~= r.incomplete + r.leftover);
                assert(bytes.take(0) =~= Seq::empty());
                0
            } else {
                let tail = bytes.skip(consumed as int);
                let k = only_whole_reports_are_taken(tail);
                let head = bytes.take(consumed as int);
                assert(tail.skip(k) =~= bytes.skip(consumed + k));
                assert(bytes.take(consumed + k) =~= head + tail.take(k));
                prefix_is_whole(bytes);
                bundled_report_is_peeled(head, tail.take(k));
                consumed + k
            }
        },
        _ => {
            assert(bytes.skip(0) =~= r.incomplete + r.leftover);
            assert(bytes.take(0) =~= Seq::empty());
            0
        },
    }
}

/// The bytes of a complete report, taken alone, are that report.
proof fn prefix_is_whole(bytes: Seq<u8>)
    requires
        bytes.len() <= usize::MAX,
        one_report(bytes) is Complete,
    ensures
        0 <= one_report(bytes)->Complete_1 <= bytes.len(),
        whole_report(bytes.take(one_report(bytes)->Complete_1 as int)) == one_report(
            bytes,
        )->Complete_0,
{
    complete_report_stays(bytes, Seq::empty());
    let consumed = one_report(bytes)->Complete_1 as int;
    let head = bytes.take(consumed);
    let p = |i: int| is_terminator(bytes.skip(3)[i]);
    bytes::first_where_props(p, 0, bytes.skip(3).len() as int);
    let t = terminator_index(bytes.skip(3))->0;
    let q = |i: int| is_terminator(head.skip(3)[i]);
    assert(q(t)) by {
        assert(p(t));
    }
    assert forall|j: int| 0 <= j < t implies !#[trigger] q(j) by {
        assert(!p(j));
    }
    bytes::first_where_is(q, 0, head.skip(3).len() as int, t);
    assert(head.skip(3).take(t) =~= bytes.skip(3).take(t));
    assert(report_prefix().is_prefix_of(head)) by {
        assert(head.subrange(0, 3) =~= bytes.subrange(0, 3));
    }
}

/// No well-formed report, whatever its button, is left for the keyboard, and
/// what is carried over really is the start of a report.
pub proof fn mouse_input_never_leaks(bytes: Seq<u8>)
    requires
        bytes.len() <= usize::MAX,
    ensures
        match one_report(all_reports(bytes).leftover) {
            ParseOneResult::Complete(parsed, _) => parsed == ParsedInput::NotMouse,
            ParseOneResult::Incomplete => false,
            ParseOneResult::NoMatch => true,
        },
        all_reports(bytes).incomplete.len() > 0 ==> one_report(all_reports(bytes).incomplete)
            == ParseOneResult::Incomplete,
    decreases bytes.len(),
{
    match one_report(bytes) {
        ParseOneResult::Complete(_, consumed) => {
            complete_report_stays(bytes, Seq::empty());
            mouse_input_never_leaks(bytes.skip(consumed as int));
        },
        _ => {},
    }
}

} // verus!
