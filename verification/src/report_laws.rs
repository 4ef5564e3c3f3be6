//! What holds of terminal input: that a mouse report means what it writes, and that
//! everything else is keyboard input.

use crate::bytes::{first_where_is, first_where_none};
use crate::input::{Input, InputBuffer};
use crate::mouse::{
    all_digits, all_reports, body_meaning, bundled_report_is_peeled, digits_value, fields,
    is_digit, is_terminator, number, one_report, report_prefix, separator_index,
    terminator_index, unsigned_digits, whole_report, MouseEvent, ParseOneResult, ParsedInput,
};
use vstd::prelude::*;

verus! {

/// `n` in decimal, as bytes.
pub open spec fn digits(n: nat) -> Seq<u8>
    decreases n,
{
    if n < 10 {
        seq![('0' as u8 + n) as u8]
    } else {
        digits(n / 10).push(('0' as u8 + n % 10) as u8)
    }
}

/// What a terminal writes between the start of a report and its end.
pub open spec fn report_body(cb: u32, x: u16, y: u16) -> Seq<u8> {
    digits(cb as nat) + seq![';' as u8] + (digits(x as nat) + seq![';' as u8] + digits(y as nat))
}

/// What a terminal writes to report a button at column `x` and row `y`, counted from
/// one.
pub open spec fn report(cb: u32, x: u16, y: u16, released: bool) -> Seq<u8> {
    seq![0x1bu8, '[' as u8, '<' as u8] + (report_body(cb, x, y) + seq![
        (if released {
            'm'
        } else {
            'M'
        }) as u8,
    ])
}

proof fn digits_write_their_number(n: nat)
    ensures
        digits(n).len() > 0,
        all_digits(digits(n)),
        digits_value(digits(n)) == n,
    decreases n,
{
    let d = digits(n);
    if n < 10 {
        assert(d.drop_last() =~= Seq::empty());
        assert(digits_value(d.drop_last()) == 0);
    } else {
        digits_write_their_number(n / 10);
        assert(d.drop_last() =~= digits(n / 10));
        assert forall|i: int| 0 <= i < d.len() implies is_digit(#[trigger] d[i]) by {
            if i < digits(n / 10).len() {
                assert(d[i] == digits(n / 10)[i]);
            }
        }
    }
}

proof fn number_of_digits(n: nat, max: int)
    requires
        n <= max,
    ensures
        number(digits(n), max) == Some(n as int),
{
    digits_write_their_number(n);
    assert(is_digit(digits(n)[0]));
    assert(unsigned_digits(digits(n)) == digits(n));
}

proof fn fields_begin(d: Seq<u8>, rest: Seq<u8>)
    requires
        all_digits(d),
    ensures
        fields(d + seq![';' as u8] + rest) == seq![d] + fields(rest),
        fields(d) == seq![d],
{
    let s = d + seq![';' as u8] + rest;
    let n = d.len() as int;
    let p = |i: int| s[i] == ';' as u8;
    assert(p(n));
    assert forall|j: int| 0 <= j < n implies !#[trigger] p(j) by {
        assert(s[j] == d[j]);
        assert(is_digit(d[j]));
    }
    first_where_is(p, 0, s.len() as int, n);
    assert(separator_index(s) == Some(n));
    assert(s.take(n) =~= d);
    assert(s.skip(n + 1) =~= rest);
    let q = |i: int| d[i] == ';' as u8;
    assert forall|j: int| 0 <= j < n implies !#[trigger] q(j) by {
        assert(is_digit(d[j]));
    }
    first_where_none(q, 0, n);
    assert(separator_index(d) is None);
}

proof fn ascii_is_text(s: Seq<u8>)
    requires
        forall|i: int| 0 <= i < s.len() ==> #[trigger] s[i] < 0x80,
    ensures
        vstd::utf8::valid_utf8(s),
{
    let chars = Seq::new(s.len(), |i: int| s[i] as char);
    assert(vstd::utf8::is_ascii_chars(chars));
    vstd::utf8::is_ascii_chars_encode_utf8(chars);
    vstd::utf8::encode_utf8_valid_utf8(chars);
    assert(vstd::utf8::encode_utf8(chars) =~= s);
}

/// Whether a byte is a digit or a separator.
spec fn is_body_byte(b: u8) -> bool {
    is_digit(b) || b == ';' as u8
}

proof fn body_is_plain(cb: u32, x: u16, y: u16)
    ensures
        forall|i: int|
            0 <= i < report_body(cb, x, y).len() ==> is_body_byte(
                #[trigger] report_body(cb, x, y)[i],
            ),
{
    digits_write_their_number(cb as nat);
    digits_write_their_number(x as nat);
    digits_write_their_number(y as nat);
    let a = digits(cb as nat);
    let b = digits(x as nat);
    let c = digits(y as nat);
    let s = report_body(cb, x, y);
    assert forall|i: int| 0 <= i < s.len() implies is_body_byte(#[trigger] s[i]) by {
        if i < a.len() {
            assert(is_digit(a[i]));
        } else if i == a.len() {
        } else if i < a.len() + 1 + b.len() {
            assert(is_digit(b[i - a.len() - 1]));
        } else if i == a.len() + 1 + b.len() {
        } else {
            assert(is_digit(c[i - a.len() - 2 - b.len()]));
        }
    }
}

/// A report means what it writes. The wheel scrolls, the left button is pressed,
/// dragged or released, at the column and row written, counted from one; every other
/// button is ignored.
pub proof fn a_report_means_what_it_writes(cb: u32, x: u16, y: u16, released: bool)
    requires
        x >= 1,
        y >= 1,
    ensures
        ({
            let col = (x - 1) as u16;
            let row = (y - 1) as u16;
            let button = cb % 4;
            let bank = (cb / 64) % 4;
            let moved = (cb / 32) % 2 == 1;
            whole_report(report(cb, x, y, released)) == if bank == 1 && button == 0 {
                ParsedInput::Mouse(MouseEvent::ScrollUp { col, row })
            } else if bank == 1 && button == 1 {
                ParsedInput::Mouse(MouseEvent::ScrollDown { col, row })
            } else if bank != 0 || button != 0 {
                ParsedInput::Ignored
            } else if released {
                ParsedInput::Mouse(MouseEvent::Up { col, row })
            } else if moved {
                ParsedInput::Mouse(MouseEvent::Drag { col, row })
            } else {
                ParsedInput::Mouse(MouseEvent::Down { col, row })
            }
        }),
{
    let bytes = report(cb, x, y, released);
    let body = report_body(cb, x, y);
    let n = body.len() as int;
    body_is_plain(cb, x, y);
    digits_write_their_number(cb as nat);
    digits_write_their_number(x as nat);
    digits_write_their_number(y as nat);
    number_of_digits(cb as nat, u32::MAX as int);
    number_of_digits(x as nat, u16::MAX as int);
    number_of_digits(y as nat, u16::MAX as int);
    fields_begin(
        digits(cb as nat),
        digits(x as nat) + seq![';' as u8] + digits(y as nat),
    );
    fields_begin(digits(x as nat), digits(y as nat));
    fields_begin(digits(y as nat), Seq::empty());
    let f = fields(body);
    assert(f =~= seq![digits(cb as nat), digits(x as nat), digits(y as nat)]);
    ascii_is_text(body);
    assert(bytes.subrange(0, 3) =~= report_prefix());
    assert(report_prefix().is_prefix_of(bytes));
    let rest = bytes.skip(3);
    assert(rest =~= body + seq![
        (if released {
            'm'
        } else {
            'M'
        }) as u8,
    ]);
    let p = |i: int| is_terminator(rest[i]);
    assert(p(n));
    assert forall|j: int| 0 <= j < n implies !#[trigger] p(j) by {
        assert(rest[j] == body[j]);
        assert(is_body_byte(body[j]));
    }
    first_where_is(p, 0, rest.len() as int, n);
    assert(terminator_index(rest) == Some(n));
    assert(rest.take(n) =~= body);
    assert(power_of_ten(10) == 10_000_000_000) by {
        reveal_with_fuel(power_of_ten, 11);
    }
    digits_are_few(cb as nat, 10);
    digits_are_few(x as nat, 10);
    digits_are_few(y as nat, 10);
    assert(one_report(bytes) == ParseOneResult::Complete(
        body_meaning(body, released),
        (3 + n + 1) as usize,
    ));
    assert(cb as int % 4 == cb % 4 && (cb as int / 64) % 4 == (cb / 64) % 4);
}

proof fn digits_are_few(n: nat, k: nat)
    requires
        n < power_of_ten(k),
        k > 0,
    ensures
        digits(n).len() <= k,
    decreases k,
{
    reveal_with_fuel(power_of_ten, 2);
    if n >= 10 {
        if k == 1 {
            assert(power_of_ten(1) == 10);
        } else {
            assert(power_of_ten(k) == 10 * power_of_ten((k - 1) as nat));
            digits_are_few(n / 10, (k - 1) as nat);
        }
    }
}

spec fn power_of_ten(k: nat) -> nat
    decreases k,
{
    if k == 0 {
        1
    } else {
        10 * power_of_ten((k - 1) as nat)
    }
}

/// Input that does not begin like a mouse report is keyboard input, all of it, byte
/// for byte. Ctrl-Q alone leaves the program.
pub proof fn other_input_is_the_keyboards(
    buffer: InputBuffer,
    chunk: Seq<u8>,
    after: InputBuffer,
    input: Input,
)
    requires
        buffer.takes(chunk, after, input),
        buffer.pending_mouse@.len() == 0,
        chunk.len() < 3 || chunk[0] != 0x1b || chunk[1] != '[' as u8 || chunk[2] != '<' as u8,
    ensures
        input is Quit <==> chunk == seq![0x11u8],
        chunk != seq![0x11u8] ==> (input matches Input::Events { mouse, keys } && mouse@.len() == 0
            && keys@ == chunk && after.pending_mouse@.len() == 0),
{
    assert(buffer.pending_mouse@ + chunk =~= chunk);
    let prefix = report_prefix();
    if prefix.is_prefix_of(chunk) {
        assert(chunk.subrange(0, 3) == prefix);
        assert(chunk[0] == prefix[0] && chunk[1] == prefix[1] && chunk[2] == prefix[2]);
    }
}

/// A whole report yields its event, if it has one, and never reaches the keyboard;
/// what follows it is taken as if it stood alone.
pub proof fn a_report_is_no_keyboard_input(
    buffer: InputBuffer,
    whole: Seq<u8>,
    rest: Seq<u8>,
    after: InputBuffer,
    input: Input,
)
    requires
        buffer.takes(whole + rest, after, input),
        buffer.pending_mouse@.len() == 0,
        whole.len() <= usize::MAX,
        whole_report(whole) != ParsedInput::NotMouse,
        rest.len() < 3 || rest[0] != 0x1b || rest[1] != '[' as u8 || rest[2] != '<' as u8,
    ensures
        input matches Input::Events { mouse, keys } && keys@ == rest && mouse@ == (
        match whole_report(whole) {
            ParsedInput::Mouse(event) => seq![event],
            _ => Seq::empty(),
        }),
{
    let bytes = whole + rest;
    assert(buffer.pending_mouse@ + bytes =~= bytes);
    bundled_report_is_peeled(whole, rest);
    let prefix = report_prefix();
    if prefix.is_prefix_of(rest) {
        assert(rest.subrange(0, 3) == prefix);
        assert(rest[0] == prefix[0] && rest[1] == prefix[1] && rest[2] == prefix[2]);
    }
    assert(all_reports(rest).events =~= Seq::empty());
    assert(whole.len() > 1) by {
        if whole.len() <= 1 {
            assert(!prefix.is_prefix_of(whole));
        }
    }
    assert(bytes != seq![0x11u8]) by {
        assert(seq![0x11u8].len() == 1);
    }
    match whole_report(whole) {
        ParsedInput::Mouse(event) => {
            assert(seq![event] + Seq::empty() =~= seq![event]);
        },
        _ => {},
    }
}

} // verus!
