//! What holds of texts: numbers, columns and lines, the fields that edit them, and
//! what of them is painted.

use crate::bytes::{first_where_is, first_where_none};
use crate::edit::{edit_of, edited, Edit};
use crate::first_run::{label_of, row_below, Wizard, WizardOutcome, WizardStep};
use crate::geometry::Rect;
use crate::layout::centered;
use crate::menu::{AttachMenu, AttachMenuRow};
use crate::pointer_laws::{reads_up_to, selected_cells_lie_between_the_ends};
use crate::protocol::{
    Cell, ClientPane, ClientPaneId, GridSnapshot, ServerPaneId, ServerPaneInfo, ServerPaneStatus,
};
use crate::render::{
    attached_text, below_title, body_of, cursor_in, display_name, header_text, menu_areas,
    preview_text, preview_title, row_lines, row_runs, rows_lines, rows_within_border,
    selected_server, server_row_style, server_row_text, spawn_in_group_text, style_of, tag_of,
    title_of, Color, PaneBody, PaneView,
};
use crate::screen_laws::{centered_leaves_equal_margins, panel_stands_at_the_bottom};
use crate::selection::TextSelection;
use crate::text::{decimal, joined, lines_of, newline_at, padded, truncated};
use vstd::prelude::*;

verus! {

/// The number that decimal digits write.
pub open spec fn number_written(digits: Seq<char>) -> int
    decreases digits.len(),
{
    if digits.len() == 0 {
        0
    } else {
        10 * number_written(digits.drop_last()) + (digits.last() as u32 - '0' as u32)
    }
}

/// A number is written in digits that write it, without a zero in front.
pub proof fn numbers_are_written_in_digits(n: nat)
    ensures
        number_written(decimal(n)) == n,
        decimal(n).len() > 0,
        forall|i: int|
            0 <= i < decimal(n).len() ==> '0' as u32 <= #[trigger] decimal(n)[i] as u32 <= '9' as u32,
        n > 0 ==> decimal(n)[0] != '0',
    decreases n,
{
    if n < 10 {
        let d = decimal(n);
        assert(d.drop_last() =~= Seq::empty());
        assert(number_written(d.drop_last()) == 0);
        assert(d.last() as u32 == '0' as u32 + n);
    } else {
        numbers_are_written_in_digits(n / 10);
        let d = decimal(n);
        assert(d.drop_last() =~= decimal(n / 10));
        assert(d.last() as u32 == '0' as u32 + n % 10);
        assert(d[0] == decimal(n / 10)[0]);
        assert forall|i: int| 0 <= i < d.len() implies '0' as u32 <= #[trigger] d[i] as u32
            <= '9' as u32 by {
            if i < decimal(n / 10).len() {
                assert(d[i] == decimal(n / 10)[i]);
            }
        }
    }
}

/// A text that fits is not cut. One that does not keeps its start, as much as leaves
/// room for three dots, and fills the width.
pub proof fn cut_texts_keep_their_start(s: Seq<char>, width: int)
    requires
        width >= 0,
    ensures
        s.len() <= width ==> truncated(s, width) == s,
        s.len() > width ==> truncated(s, width).len() == width && forall|i: int|
            0 <= i < width ==> #[trigger] truncated(s, width)[i] == if i < width - 3 {
                s[i]
            } else {
                '.'
            },
{
}

/// A column begins with its text and is filled up with blanks, never cut.
pub proof fn columns_are_filled_with_blanks(s: Seq<char>, width: int)
    ensures
        padded(s, width).len() == if s.len() >= width {
            s.len() as int
        } else {
            width
        },
        forall|i: int|
            0 <= i < padded(s, width).len() ==> #[trigger] padded(s, width)[i] == if i < s.len() {
                s[i]
            } else {
                ' '
            },
{
}

/// A newline ends a line, with a carriage return before it or without. What follows
/// the last one is a line if it is not empty.
pub proof fn lines_end_at_newlines(line: Seq<char>, rest: Seq<char>)
    requires
        forall|i: int| 0 <= i < line.len() ==> #[trigger] line[i] != '\n',
    ensures
        lines_of(Seq::empty()) == Seq::<Seq<char>>::empty(),
        line.len() > 0 ==> lines_of(line) == seq![line],
        line.len() == 0 || line.last() != '\r' ==> lines_of(line + seq!['\n'] + rest) == seq![line]
            + lines_of(rest),
        lines_of(line + seq!['\r', '\n'] + rest) == seq![line] + lines_of(rest),
{
    let none = Seq::<char>::empty();
    first_where_none(newline_at(none), 0, 0);
    first_where_none(newline_at(line), 0, line.len() as int);
    let n = line.len() as int;
    let plain = line + seq!['\n'] + rest;
    let p = newline_at(plain);
    assert(p(n));
    assert forall|j: int| 0 <= j < n implies !#[trigger] p(j) by {
        assert(plain[j] == line[j]);
    }
    first_where_is(p, 0, plain.len() as int, n);
    assert(plain.take(n) =~= line);
    assert(plain.skip(n + 1) =~= rest);
    let returned = line + seq!['\r', '\n'] + rest;
    let q = newline_at(returned);
    assert(q(n + 1));
    assert forall|j: int| 0 <= j < n + 1 implies !#[trigger] q(j) by {
        if j < n {
            assert(returned[j] == line[j]);
        }
    }
    first_where_is(q, 0, returned.len() as int, n + 1);
    assert(returned.take(n + 1) =~= line.push('\r'));
    assert(line.push('\r').drop_last() =~= line);
    assert(returned.skip(n + 2) =~= rest);
}

/// Joined texts stand one after the other, with the separator between each two.
pub proof fn joined_texts_follow_one_another(
    parts: Seq<Seq<char>>,
    last: Seq<char>,
    separator: Seq<char>,
)
    ensures
        joined(Seq::empty(), separator) == Seq::<char>::empty(),
        joined(seq![last], separator) == last,
        parts.len() > 0 ==> joined(parts.push(last), separator) == joined(parts, separator)
            + separator + last,
{
    assert(parts.push(last).drop_last() =~= parts);
}

/// The preview shows the last lines of the selected server-pane's screen, as many as
/// there is room for, and all of them if there is room; of another one's screen, or
/// without a server-pane selected, nothing.
pub proof fn the_preview_shows_the_last_lines(
    selected: Option<ServerPaneInfo>,
    id: ServerPaneId,
    text: String,
    interior: int,
)
    requires
        interior >= 0,
    ensures
        !(selected matches Some(server) && server.id == id) ==> preview_text(
            selected,
            Some((id, text)),
            interior,
        ).len() == 0,
        preview_text(selected, None, interior).len() == 0,
        selected matches Some(server) && server.id == id ==> exists|above: Seq<Seq<char>>,
            below: Seq<Seq<char>>| #[trigger]
            (above + below) == lines_of(text@) && below.len() <= interior && (above.len() > 0
                ==> below.len() == interior) && preview_text(selected, Some((id, text)), interior)
                == joined(below, seq!['\n']),
{
    if selected matches Some(server) && server.id == id {
        let lines = lines_of(text@);
        let n = if lines.len() > interior {
            lines.len() - interior
        } else {
            0
        };
        assert(lines.take(n) + lines.skip(n) =~= lines);
    }
}

/// The delete key does what going right and then backspace does.
pub proof fn delete_is_right_and_backspace(text: Seq<char>, k: int)
    requires
        0 <= k < text.len(),
    ensures
        ({
            let delete = seq![0x1bu8, 0x5b, 0x33, 0x7e];
            let right = seq![0x1bu8, 0x5b, 0x43];
            let backspace = seq![0x7fu8];
            &&& edited(text, k, right) matches Some((t, j))
            &&& edited(text, k, delete) == edited(t, j, backspace)
            &&& edited(text, k, delete) matches Some((u, i))
            &&& i == k && u == text.take(k) + text.skip(k + 1)
        }),
{
    editing_keys_differ();
    assert(text.remove(k) =~= text.take(k) + text.skip(k + 1));
}

proof fn editing_keys_differ()
    ensures
        edit_of(seq![0x7fu8]) == Edit::Backspace,
        edit_of(seq![0x08u8]) == Edit::Backspace,
        edit_of(seq![0x1bu8, 0x5b, 0x33, 0x7e]) == Edit::Delete,
        edit_of(seq![0x1bu8, 0x5b, 0x44]) == Edit::Left,
        edit_of(seq![0x1bu8, 0x5b, 0x43]) == Edit::Right,
        edit_of(seq![0x1bu8, 0x5b, 0x48]) == Edit::Home,
        edit_of(seq![0x1bu8, 0x5b, 0x31, 0x7e]) == Edit::Home,
        edit_of(seq![0x1bu8, 0x5b, 0x46]) == Edit::End,
        edit_of(seq![0x1bu8, 0x5b, 0x34, 0x7e]) == Edit::End,
{
    let backspace = seq![0x7fu8];
    let ctrl_h = seq![0x08u8];
    let delete = seq![0x1bu8, 0x5b, 0x33, 0x7e];
    let left = seq![0x1bu8, 0x5b, 0x44];
    let right = seq![0x1bu8, 0x5b, 0x43];
    let home = seq![0x1bu8, 0x5b, 0x48];
    let home_tilde = seq![0x1bu8, 0x5b, 0x31, 0x7e];
    let end = seq![0x1bu8, 0x5b, 0x46];
    let end_tilde = seq![0x1bu8, 0x5b, 0x34, 0x7e];
    assert(backspace.len() == 1 && ctrl_h.len() == 1 && backspace[0] != ctrl_h[0]);
    assert(left.len() == 3 && right.len() == 3 && home.len() == 3 && end.len() == 3);
    assert(delete.len() == 4 && home_tilde.len() == 4 && end_tilde.len() == 4);
    assert(left[2] == 0x44 && right[2] == 0x43 && home[2] == 0x48 && end[2] == 0x46);
    assert(delete[2] == 0x33 && home_tilde[2] == 0x31 && end_tilde[2] == 0x34);
}

/// Home and End go to the ends of the text and change nothing in it; at that end
/// already they do nothing.
pub proof fn home_and_end_go_to_the_ends(text: Seq<char>, k: int, to_end: bool, tilde: bool)
    requires
        0 <= k <= text.len(),
    ensures
        ({
            let key = if to_end {
                if tilde {
                    seq![0x1bu8, 0x5b, 0x34, 0x7e]
                } else {
                    seq![0x1bu8, 0x5b, 0x46]
                }
            } else {
                if tilde {
                    seq![0x1bu8, 0x5b, 0x31, 0x7e]
                } else {
                    seq![0x1bu8, 0x5b, 0x48]
                }
            };
            let target = if to_end {
                text.len() as int
            } else {
                0
            };
            edited(text, k, key) == if k == target {
                None
            } else {
                Some((text, target))
            }
        }),
{
    editing_keys_differ();
}

/// What is typed stands between what was before and what was behind the cursor, and
/// the cursor stands behind it.
pub proof fn typed_text_stands_at_the_cursor(text: Seq<char>, k: int, typed: Seq<char>)
    requires
        0 <= k <= text.len(),
        edit_of(vstd::utf8::encode_utf8(typed)) == Edit::Insert,
    ensures
        edited(text, k, vstd::utf8::encode_utf8(typed)) matches Some((t, j)) && j == k
            + typed.len() && t.len() == text.len() + typed.len() && t.take(k) == text.take(k)
            && t.subrange(k, j) == typed && t.skip(j) == text.skip(k),
{
    vstd::utf8::encode_utf8_decode_utf8(typed);
    vstd::utf8::encode_utf8_valid_utf8(typed);
    let t = text.take(k) + typed + text.skip(k);
    let j = k + typed.len();
    assert(t.take(k) =~= text.take(k));
    assert(t.subrange(k, j) =~= typed);
    assert(t.skip(j) =~= text.skip(k));
}

/// Only text is typed: no escape sequence ever is, nor bytes that are no text.
pub proof fn only_text_is_typed(text: Seq<char>, k: int, bytes: Seq<u8>)
    requires
        0 <= k <= text.len(),
        edited(text, k, bytes) matches Some((t, _)) && t.len() > text.len(),
    ensures
        bytes.len() > 0 ==> bytes[0] != 0x1b,
        vstd::utf8::valid_utf8(bytes),
{
    let delete = seq![0x1bu8, 0x5b, 0x33, 0x7e];
    if bytes.len() > 0 && bytes[0] == 0x1b {
        assert(edit_of(bytes) != Edit::Insert) by {
            assert(edit_of(bytes) == Edit::Insert ==> !(bytes.len() > 0 && bytes[0] == 0x1b));
        }
    }
}

/// A pane whose active tab has a screen shows that screen, one whose tab has none is
/// shown as closed, and one without a tab as unbound.
pub proof fn a_pane_shows_its_active_tab(
    pane: ClientPane,
    grids: Map<ServerPaneId, GridSnapshot>,
)
    ensures
        body_of(pane, grids) == if pane.active_tab < pane.tabs@.len() {
            let id = pane.tabs@[pane.active_tab as int];
            if grids.contains_key(id) {
                PaneBody::Screen(id)
            } else {
                PaneBody::Closed
            }
        } else {
            PaneBody::Unbound
        },
{
}

/// A title says that the screen is scrolled back, by those words at its end, exactly
/// where it is.
pub proof fn a_scrolled_screen_says_so(
    pane: ClientPane,
    grids: Map<ServerPaneId, GridSnapshot>,
    names: Map<ServerPaneId, ServerPaneInfo>,
    id: ServerPaneId,
    live: GridSnapshot,
)
    requires
        body_of(pane, grids) == PaneBody::Screen(id),
        live.scroll_offset == 0,
    ensures
        grids[id].scroll_offset > 0 ==> title_of(pane, grids, names) == title_of(
            pane,
            grids.insert(id, live),
            names,
        ) + " [scrollback]"@,
        grids[id].scroll_offset == 0 ==> title_of(pane, grids, names) == title_of(
            pane,
            grids.insert(id, live),
            names,
        ),
{
    assert(title_of(pane, grids.insert(id, live), names) + " [scrollback]"@ =~= title_of(
        pane,
        grids.insert(id, live),
        names,
    ) + " [scrollback]"@);
    if grids[id].scroll_offset > 0 {
        assert(title_of(pane, grids, names) =~= title_of(pane, grids.insert(id, live), names)
            + " [scrollback]"@);
    }
}

/// A title begins with the short id of the server-pane shown, in brackets, and its
/// name, once these are known; until then with the pane's own short id.
pub proof fn a_title_begins_with_whom_it_shows(
    pane: ClientPane,
    grids: Map<ServerPaneId, GridSnapshot>,
    names: Map<ServerPaneId, ServerPaneInfo>,
)
    ensures
        ({
            let start = if pane.active_tab < pane.tabs@.len() && names.contains_key(
                pane.tabs@[pane.active_tab as int],
            ) {
                let server = names[pane.tabs@[pane.active_tab as int]];
                "["@ + server.short_id@ + "]"@ + match server.name {
                    Some(name) => " "@ + name@,
                    None => Seq::empty(),
                }
            } else {
                pane.short_id@
            };
            &&& start.is_prefix_of(title_of(pane, grids, names))
            &&& pane.tabs@.len() <= 1 && !(body_of(pane, grids) is Screen) ==> title_of(
                pane,
                grids,
                names,
            ) == start
        }),
{
    reveal_strlit("] ");
    reveal_strlit("]");
    reveal_strlit(" ");
    reveal_strlit("[");
    let title = title_of(pane, grids, names);
    if pane.active_tab < pane.tabs@.len() && names.contains_key(
        pane.tabs@[pane.active_tab as int],
    ) {
        let server = names[pane.tabs@[pane.active_tab as int]];
        match server.name {
            Some(name) => {
                let start = "["@ + server.short_id@ + "]"@ + (" "@ + name@);
                assert(title.take(start.len() as int) =~= start);
                assert(pane.tabs@.len() <= 1 && !(body_of(pane, grids) is Screen) ==> title
                    =~= start);
            },
            None => {
                let start = "["@ + server.short_id@ + "]"@ + Seq::empty();
                assert(title.take(start.len() as int) =~= start);
                assert(pane.tabs@.len() <= 1 && !(body_of(pane, grids) is Screen) ==> title
                    =~= start);
            },
        }
    } else {
        assert(title.take(pane.short_id@.len() as int) =~= pane.short_id@);
        assert(pane.tabs@.len() <= 1 && !(body_of(pane, grids) is Screen) ==> title
            =~= pane.short_id@);
    }
}

/// The terminal's cursor stands where the screen's does, counted from the pane's
/// content; it is hidden while the screen is scrolled back, or where its cursor lies
/// outside.
pub proof fn the_cursor_stands_where_the_screens_does(snapshot: GridSnapshot, inner: Rect)
    requires
        inner.x + inner.width <= u16::MAX,
        inner.y + inner.height <= u16::MAX,
    ensures
        match cursor_in(snapshot, inner) {
            Some((col, row)) => col - inner.x == snapshot.cursor.col && row - inner.y
                == snapshot.cursor.row && snapshot.scroll_offset == 0,
            None => snapshot.scroll_offset > 0 || snapshot.cursor.col >= inner.width
                || snapshot.cursor.row >= inner.height,
        },
{
}

/// A selected cell looks selected whatever its own colours; any other cell keeps
/// what its process asked for.
pub proof fn only_selected_cells_look_selected(a: Cell, b: Cell)
    ensures
        style_of(a, true).fg == style_of(b, true).fg,
        style_of(a, true).bg == style_of(b, true).bg,
        style_of(a, true) != style_of(b, false),
        !style_of(a, true).reverse,
        style_of(a, false).fg == match a.fg {
            Some(rgb) => Some(Color::Rgb(rgb)),
            None => None,
        },
        style_of(a, false).bg == match a.bg {
            Some(rgb) => Some(Color::Rgb(rgb)),
            None => None,
        },
        style_of(a, false).reverse == a.reverse,
        forall|s: bool| (#[trigger] style_of(a, s)).bold == a.bold && style_of(a, s).italic == a.italic
            && style_of(a, s).underline == a.underline,
{
}

/// A server-pane's row marks what was just detached with a star and the selection
/// with an arrow, and its name begins at the sixth column.
pub proof fn a_row_is_marked(
    server: ServerPaneInfo,
    selected: bool,
    armed: bool,
    just_detached: bool,
)
    ensures
        ({
            let text = server_row_text(server, selected, armed, None, just_detached);
            &&& text.len() > 33
            &&& text[2] == if just_detached {
                '*'
            } else {
                ' '
            }
            &&& text[3] == if selected {
                '>'
            } else {
                ' '
            }
            &&& forall|i: int|
                0 <= i < 28 && i < display_name(server).len() && display_name(server).len() <= 28
                    ==> #[trigger] text[5 + i] == display_name(server)[i]
        }),
        display_name(server) == match server.name {
            Some(name) => name@,
            None => server.short_id@,
        },
{
    reveal_strlit("  ");
    reveal_strlit("*");
    reveal_strlit(">");
    reveal_strlit(" ");
    crate::text::truncated_fits(display_name(server), 28);
    let text = server_row_text(server, selected, armed, None, just_detached);
    assert forall|i: int|
        0 <= i < 28 && i < display_name(server).len() && display_name(server).len()
            <= 28 implies #[trigger] text[5 + i] == display_name(server)[i] by {
        assert(padded(truncated(display_name(server), 28), 28)[i] == display_name(server)[i]);
    }
}

/// While no field is open the menu has one line for each row, and a line is
/// highlighted if its row is selected, or its deletion is armed, and no other.
pub proof fn each_row_has_its_line(
    menu: AttachMenu,
    collapsed: Set<Seq<char>>,
    pinned: Seq<Seq<char>>,
    rows: Seq<AttachMenuRow>,
    n: int,
)
    requires
        menu.rename is None,
        menu.spawn_in_group is None,
        0 <= n <= rows.len(),
    ensures
        rows_lines(menu, collapsed, pinned, rows, n).len() == n,
        forall|r: int|
            0 <= r < n ==> #[trigger] rows_lines(menu, collapsed, pinned, rows, n)[r] == row_lines(
                menu,
                collapsed,
                pinned,
                rows[r],
                r == menu.selected,
            )[0],
        forall|r: int|
            0 <= r < n ==> (#[trigger] rows_lines(menu, collapsed, pinned, rows, n)[r]).1.reversed
                == (r == menu.selected || (rows[r] matches AttachMenuRow::Server(i)
                && menu.pending_delete == Some(i))),
    decreases n,
{
    if n > 0 {
        each_row_has_its_line(menu, collapsed, pinned, rows, n - 1);
        let before = rows_lines(menu, collapsed, pinned, rows, n - 1);
        let all = rows_lines(menu, collapsed, pinned, rows, n);
        assert forall|r: int| 0 <= r < n implies #[trigger] all[r] == row_lines(
            menu,
            collapsed,
            pinned,
            rows[r],
            r == menu.selected,
        )[0] by {
            if r < n - 1 {
                assert(all[r] == before[r]);
            }
        }
        assert forall|r: int| 0 <= r < n implies (#[trigger] all[r]).1.reversed == (r
            == menu.selected || (rows[r] matches AttachMenuRow::Server(i) && menu.pending_delete
            == Some(i))) by {
            if r < n - 1 {
                assert(all[r] == before[r]);
            }
        }
    }
}

/// What the wizard marks is what is chosen: the mode on the marked line, and the
/// skill as answered last.
pub proof fn the_marked_mode_is_chosen(w: Wizard, enter: Seq<u8>, answer: Seq<u8>, yes: bool)
    requires
        w.mode_selected < 4,
        w.step == WizardStep::Keybindings,
        enter == seq![0x0du8] || enter == seq![0x0au8],
        answer == seq![(if yes {
            'y'
        } else {
            'n'
        }) as u8],
    ensures
        ({
            let asked = w.after(enter).0;
            let answered = asked.after(answer).0;
            &&& w.after(enter).1 == WizardOutcome::Continue
            &&& asked.after(answer).1 == WizardOutcome::Continue
            &&& answered.after(enter).1 matches WizardOutcome::Done { mode, install_skill }
            &&& install_skill == yes
            &&& w.mode_line_text(w.mode_selected as int) == "> "@ + label_of(mode)
        }),
{
    reveal_strlit(">");
    reveal_strlit(" ");
    reveal_strlit("> ");
    assert(enter.len() == 1 && (enter[0] == 0x0d || enter[0] == 0x0a)) by {
        assert(seq![0x0du8].len() == 1 && seq![0x0au8].len() == 1);
    }
    assert(seq![0x1bu8, 0x5b, 0x41].len() == 3 && seq![0x1bu8, 0x5b, 0x42].len() == 3);
    assert(answer.len() == 1);
    assert(">"@ + " "@ =~= "> "@);
}

/// The arrows go through the modes one by one, and from one end to the other.
pub proof fn arrows_go_through_the_modes(w: Wizard, down: Seq<u8>)
    requires
        w.mode_selected < 4,
        w.step == WizardStep::Keybindings,
        down == seq![0x1bu8, 0x5b, 0x42] || down == seq!['j' as u8],
    ensures
        ({
            let after = w.after(down).0;
            &&& w.after(down).1 == WizardOutcome::Continue
            &&& after == (Wizard { mode_selected: after.mode_selected, ..w })
            &&& after.mode_selected == if w.mode_selected == 3 {
                0
            } else {
                w.mode_selected + 1
            }
        }),
{
    let arrow = seq![0x1bu8, 0x5b, 0x42];
    assert(arrow.len() == 3 && arrow[2] == 0x42 && seq![0x1bu8, 0x5b, 0x41][2] == 0x41);
    assert(seq!['j' as u8].len() == 1 && seq!['j' as u8][0] == 'j' as u8);
    assert(seq![0x1bu8, 0x5b, 0x41].len() == 3);
}

/// Escape ends the wizard at either question with what is marked then.
pub proof fn escape_takes_what_is_marked(w: Wizard)
    requires
        w.mode_selected < 4,
    ensures
        w.after(seq![0x1bu8]).1 matches WizardOutcome::Done { mode, install_skill }
            && install_skill == w.install_skill && w.mode_line_text(w.mode_selected as int)
            == "> "@ + label_of(mode),
{
    reveal_strlit(">");
    reveal_strlit(" ");
    reveal_strlit("> ");
    let escape = seq![0x1bu8];
    assert(escape.len() == 1 && escape[0] == 0x1b);
    assert(seq![0x0du8][0] == 0x0d && seq![0x0au8][0] == 0x0a);
    assert(seq![0x1bu8, 0x5b, 0x41].len() == 3 && seq![0x1bu8, 0x5b, 0x42].len() == 3);
    assert(">"@ + " "@ =~= "> "@);
}

/// A recognised coding tool is named in brackets; anything else gets no tag.
pub proof fn tools_are_named_in_brackets(server: ServerPaneInfo)
    ensures
        match server.foreground {
            Some(process) => match process.session_kind {
                Some(kind) => tag_of(server).len() == kind@.len() + 2 && tag_of(server)[0] == '['
                    && tag_of(server).last() == ']' && tag_of(server).subrange(1, kind@.len() as int + 1)
                    == kind@,
                None => tag_of(server).len() == 0,
            },
            None => tag_of(server).len() == 0,
        },
{
    reveal_strlit("[");
    reveal_strlit("]");
    if let Some(process) = server.foreground {
        if let Some(kind) = process.session_kind {
            assert(tag_of(server).subrange(1, kind@.len() as int + 1) =~= kind@);
        }
    }
}

/// Where a server-pane is shown: nowhere is a dash. The first place is its
/// workspace's number and its pane's short id, with a plus if it is a hidden tab
/// there. Further places are counted behind it.
pub proof fn places_are_counted(server: ServerPaneInfo, alone: ServerPaneInfo)
    requires
        server.attached_to@.len() > 0,
        alone.attached_to@ == seq![server.attached_to@[0]],
    ensures
        ({
            let place = server.attached_to@[0];
            &&& attached_text(alone) == decimal(place.workspace_number as nat) + "/"@
                + place.client_short_id@ + (if place.active {
                ""@
            } else {
                "+"@
            })
            &&& server.attached_to@.len() == 1 ==> attached_text(server) == attached_text(alone)
            &&& server.attached_to@.len() > 1 ==> attached_text(server) == attached_text(alone)
                + " +"@ + decimal((server.attached_to@.len() - 1) as nat)
        }),
{
    reveal_strlit("");
    let place = server.attached_to@[0];
    assert(""@ =~= Seq::empty());
    let text = decimal(place.workspace_number as nat) + "/"@ + place.client_short_id@ + (
    if place.active {
        ""@
    } else {
        "+"@
    });
    assert(alone.attached_to@[0] == place);
    assert(attached_text(alone) =~= text);
    if server.attached_to@.len() == 1 {
        assert(attached_text(server) =~= text);
    } else {
        assert(attached_text(server) =~= text + " +"@ + decimal(
            (server.attached_to@.len() - 1) as nat,
        ));
    }
}

/// A header ends in its directory and tells by its marks whether the group is pinned
/// and whether it is collapsed.
pub proof fn a_header_tells_its_group(
    group: Seq<char>,
    collapsed: bool,
    pinned: bool,
    other_collapsed: bool,
    other_pinned: bool,
)
    ensures
        header_text(group, collapsed, pinned).len() >= group.len() && header_text(
            group,
            collapsed,
            pinned,
        ).skip(header_text(group, collapsed, pinned).len() - group.len()) == group,
        pinned <==> header_text(group, collapsed, pinned)[0] == '📌',
        header_text(group, collapsed, pinned)[header_text(group, collapsed, pinned).len()
            - group.len() - 2] == if collapsed {
            '▸'
        } else {
            '▾'
        },
        header_text(group, collapsed, pinned) == header_text(group, other_collapsed, other_pinned)
            ==> collapsed == other_collapsed && pinned == other_pinned,
{
    reveal_strlit("📌");
    reveal_strlit("  ");
    reveal_strlit("▸");
    reveal_strlit("▾");
    reveal_strlit(" ");
    let a = header_text(group, collapsed, pinned);
    let b = header_text(group, other_collapsed, other_pinned);
    assert(a.skip(a.len() - group.len()) =~= group);
    if a == b {
        assert(a[0] == b[0] && a.len() == b.len());
        if pinned {
            assert(a[1] == b[1]);
        } else {
            assert(a[2] == b[2]);
        }
    }
}

/// A group's "spawn new" row ends in its directory and shows what is typed.
pub proof fn a_spawn_row_tells_its_group(group: Seq<char>, selected: bool, typed: Seq<char>)
    ensures
        ({
            let closed = spawn_in_group_text(group, selected, None);
            let open = spawn_in_group_text(group, selected, Some(typed));
            &&& closed.skip(closed.len() - group.len()) == group
            &&& open.skip(open.len() - group.len()) == group
            &&& open.subrange(7, 7 + typed.len() as int) == typed
            &&& closed[2] == (if selected {
                '>'
            } else {
                ' '
            }) && open[2] == closed[2]
        }),
{
    reveal_strlit("  ");
    reveal_strlit(">");
    reveal_strlit(" ");
    reveal_strlit(" + [");
    reveal_strlit("] in ");
    reveal_strlit(" + spawn new in ");
    let closed = spawn_in_group_text(group, selected, None);
    let open = spawn_in_group_text(group, selected, Some(typed));
    assert(closed.skip(closed.len() - group.len()) =~= group);
    assert(open.skip(open.len() - group.len()) =~= group);
    assert(open.subrange(7, 7 + typed.len() as int) =~= typed);
}

/// The preview is about the selected row's server-pane, by its name; about none where
/// another row is selected.
pub proof fn the_preview_is_about_the_selected_row(menu: AttachMenu, rows: Seq<AttachMenuRow>)
    requires
        menu.selected < rows.len(),
    ensures
        match rows[menu.selected as int] {
            AttachMenuRow::Server(i) => selected_server(menu, rows) == Some(
                menu.servers@[i as int].1,
            ) && preview_title(selected_server(menu, rows)) == (
            match menu.servers@[i as int].1.name {
                Some(name) => name@,
                None => menu.servers@[i as int].1.short_id@,
            }),
            _ => selected_server(menu, rows) is None && preview_title(None) == "Preview"@,
        },
{
}

/// A complaint about a field is shown right below the field, indented.
pub proof fn complaints_stand_below_their_field(
    menu: AttachMenu,
    collapsed: Set<Seq<char>>,
    pinned: Seq<Seq<char>>,
    i: usize,
    selected: bool,
)
    ensures
        match menu.rename {
            Some(field) if field.index == i => {
                let lines = row_lines(menu, collapsed, pinned, AttachMenuRow::Server(i), selected);
                match field.error {
                    Some(error) => lines.len() == 2 && lines[1].0 == "    "@ + error@,
                    None => lines.len() == 1,
                }
            },
            _ => true,
        },
        match menu.spawn_in_group {
            Some(field) if field.group_server_index == i => {
                let lines = row_lines(
                    menu,
                    collapsed,
                    pinned,
                    AttachMenuRow::SpawnNewInGroup(i),
                    selected,
                );
                match field.error {
                    Some(error) => lines.len() == 2 && lines[1].0 == "    "@ + error@,
                    None => lines.len() == 1,
                }
            },
            _ => true,
        },
{
}

/// A pane with several tabs says in its title which of them is active, counted from
/// one, and how many there are; a pane with one tab does not.
pub proof fn a_title_counts_the_tabs(
    pane: ClientPane,
    one_tab: ClientPane,
    grids: Map<ServerPaneId, GridSnapshot>,
    names: Map<ServerPaneId, ServerPaneInfo>,
)
    requires
        pane.active_tab < pane.tabs@.len(),
        one_tab.tabs@ == seq![pane.tabs@[pane.active_tab as int]],
        one_tab.active_tab == 0,
        one_tab.short_id == pane.short_id,
        !grids.contains_key(pane.tabs@[pane.active_tab as int]),
    ensures
        pane.tabs@.len() > 1 ==> title_of(pane, grids, names) == title_of(one_tab, grids, names)
            + " ("@ + decimal((pane.active_tab + 1) as nat) + "/"@ + decimal(pane.tabs@.len())
            + ")"@,
        pane.tabs@.len() == 1 ==> title_of(pane, grids, names) == title_of(one_tab, grids, names),
{
    assert(one_tab.tabs@[0] == pane.tabs@[pane.active_tab as int]);
    if pane.tabs@.len() > 1 {
        assert(title_of(pane, grids, names) =~= title_of(one_tab, grids, names) + " ("@ + decimal(
            (pane.active_tab + 1) as nat,
        ) + "/"@ + decimal(pane.tabs@.len()) + ")"@);
    }
}

/// A server-pane's row has its columns at fixed places: the name, where it is shown,
/// its tool, its process, and then its short id and whether it runs. An armed
/// deletion is pointed out at the end.
pub proof fn a_row_has_its_columns(
    server: ServerPaneInfo,
    selected: bool,
    armed: bool,
    just_detached: bool,
)
    requires
        tag_of(server).len() <= 10,
    ensures
        ({
            let text = server_row_text(server, selected, armed, None, just_detached);
            let process = match server.foreground {
                Some(process) => process.process_name@,
                None => "-"@,
            };
            let status = match server.status {
                ServerPaneStatus::Running => "Running"@,
                ServerPaneStatus::Dead => "Dead"@,
            };
            &&& text.subrange(5, 33) == padded(truncated(display_name(server), 28), 28)
            &&& text.subrange(34, 44) == padded(truncated(attached_text(server), 10), 10)
            &&& text.subrange(45, 55) == padded(tag_of(server), 10)
            &&& text.subrange(56, 66) == padded(truncated(process, 10), 10)
            &&& text.skip(67) == server.short_id@ + " "@ + status + (if armed {
                "  [x/Enter: confirm delete]"@
            } else {
                ""@
            })
        }),
{
    reveal_strlit("  ");
    reveal_strlit("*");
    reveal_strlit(">");
    reveal_strlit(" ");
    reveal_strlit("");
    let text = server_row_text(server, selected, armed, None, just_detached);
    let process = match server.foreground {
        Some(process) => process.process_name@,
        None => "-"@,
    };
    let status = match server.status {
        ServerPaneStatus::Running => "Running"@,
        ServerPaneStatus::Dead => "Dead"@,
    };
    crate::text::truncated_fits(display_name(server), 28);
    crate::text::truncated_fits(attached_text(server), 10);
    crate::text::truncated_fits(process, 10);
    columns_are_filled_with_blanks(tag_of(server), 10);
    assert(text.subrange(5, 33) =~= padded(truncated(display_name(server), 28), 28));
    assert(text.subrange(34, 44) =~= padded(truncated(attached_text(server), 10), 10));
    assert(text.subrange(45, 55) =~= padded(tag_of(server), 10));
    assert(text.subrange(56, 66) =~= padded(truncated(process, 10), 10));
    assert(text.skip(67) =~= server.short_id@ + " "@ + status + (if armed {
        "  [x/Enter: confirm delete]"@
    } else {
        ""@
    }));
}

/// While a server-pane is renamed its row shows, in brackets, what is typed.
pub proof fn a_renamed_row_shows_what_is_typed(
    server: ServerPaneInfo,
    selected: bool,
    armed: bool,
    just_detached: bool,
    typed: Seq<char>,
)
    ensures
        ({
            let text = server_row_text(server, selected, armed, Some(typed), just_detached);
            let n = typed.len() as int;
            text.len() > 7 + n && text[5] == '[' && text.subrange(6, 6 + n) == typed && text[6 + n]
                == ']'
        }),
{
    reveal_strlit("  ");
    reveal_strlit("*");
    reveal_strlit(">");
    reveal_strlit(" ");
    reveal_strlit("[");
    reveal_strlit("]");
    let text = server_row_text(server, selected, armed, Some(typed), just_detached);
    let n = typed.len() as int;
    assert(text.subrange(6, 6 + n) =~= typed);
}

/// The last run of a row, and so of every start of it, looks as its last cell is to
/// look: as selected if the cell lies between the selection's ends, else as its
/// process asked.
pub proof fn a_run_looks_like_its_cells(
    cells: Seq<Cell>,
    row: int,
    selection: Option<TextSelection>,
)
    requires
        cells.len() > 0,
    ensures
        row_runs(cells, row, selection).len() > 0,
        row_runs(cells, row, selection).last().1 == style_of(
            cells.last(),
            match selection {
                Some(s) => {
                    let col = cells.len() - 1;
                    ||| reads_up_to(s.start.row as int, s.start.col as int, row, col)
                        && reads_up_to(row, col, s.end.row as int, s.end.col as int)
                    ||| reads_up_to(s.end.row as int, s.end.col as int, row, col) && reads_up_to(
                        row,
                        col,
                        s.start.row as int,
                        s.start.col as int,
                    )
                },
                None => false,
            },
        ),
        row_runs(cells.drop_last(), row, selection).len() > 0 ==> row_runs(
            cells,
            row,
            selection,
        )[row_runs(cells.drop_last(), row, selection).len() - 1].1 == row_runs(
            cells.drop_last(),
            row,
            selection,
        ).last().1,
{
    if let Some(s) = selection {
        selected_cells_lie_between_the_ends(s, row, cells.len() - 1);
    }
}

/// A pane's content is its area without the title row.
pub proof fn the_title_takes_one_row(area: Rect)
    requires
        area.height > 0,
        area.y + area.height <= u16::MAX,
    ensures
        ({
            let inner = below_title(area);
            &&& inner.x == area.x && inner.width == area.width
            &&& inner.y == area.y + 1
            &&& inner.y + inner.height == area.y + area.height
        }),
{
}

/// The menu takes 85 percent of the screen's width and 60 of its height, in its
/// middle; its preview is twelve rows at the bottom of it, or all of it where there
/// are not that many.
pub proof fn the_menu_stands_in_the_middle(frame: Rect)
    requires
        frame.x + frame.width <= u16::MAX,
        frame.y + frame.height <= u16::MAX,
    ensures
        ({
            let (popup, list, panel) = menu_areas(frame);
            &&& 85 * frame.width - 100 <= 100 * popup.width <= 85 * frame.width + 100
            &&& 60 * frame.height - 100 <= 100 * popup.height <= 60 * frame.height + 100
            &&& -1 <= (popup.y - frame.y) - (frame.y + frame.height - popup.y - popup.height) <= 1
            &&& list.y == popup.y && panel.y == list.y + list.height
            &&& panel.y + panel.height == popup.y + popup.height
            &&& panel.height == if popup.height >= 12 {
                12
            } else {
                popup.height as int
            }
            &&& list.x == popup.x && panel.x == popup.x
            &&& list.width == popup.width && panel.width == popup.width
        }),
{
    centered_leaves_equal_margins(85, 60, frame);
    panel_stands_at_the_bottom(centered(85, 60, frame), 12);
}

/// A row whose deletion is armed is red; a selected row, an armed one and one that is
/// renamed stand out, any other does not.
pub proof fn an_armed_row_is_red(selected: bool, armed: bool, renaming: bool)
    ensures
        server_row_style(selected, armed, renaming).reversed == (selected || armed || renaming),
        armed && !renaming <==> server_row_style(selected, armed, renaming).fg == Some(Color::Red),
        !(armed && !renaming) ==> server_row_style(selected, armed, renaming).fg is None,
{
}

/// A border takes the first and the last row of a panel.
pub proof fn a_border_takes_two_rows(height: u16)
    ensures
        height >= 2 ==> rows_within_border(height) + 2 == height,
        height < 2 ==> rows_within_border(height) == 0,
{
}

/// Of two different panes at most one looks focused, and the one with the focus does.
/// A selection is painted in its own pane only, and only while that shows the
/// server-pane that was selected in.
pub proof fn focus_and_selection_show_in_one_pane(
    pane: ClientPane,
    view: PaneView,
    other: ClientPane,
    other_view: PaneView,
    grids: Map<ServerPaneId, GridSnapshot>,
    names: Map<ServerPaneId, ServerPaneInfo>,
    focused: Option<ClientPaneId>,
    selection: Option<TextSelection>,
)
    requires
        view.shows(pane, grids, names, focused, selection),
        other_view.shows(other, grids, names, focused, selection),
        pane.id != other.id,
    ensures
        !(view.is_focused && other_view.is_focused),
        focused == Some(pane.id) ==> view.is_focused,
        focused is None ==> !view.is_focused,
        view.selection is None || other_view.selection is None,
        view.selection matches Some(s) ==> selection == Some(s) && s.pane == pane.id && (
        view.body matches PaneBody::Screen(id) && s.server_pane == grids[id].server_pane),
        selection matches Some(s) && s.pane == pane.id && (view.body matches PaneBody::Screen(id)
            && s.server_pane == grids[id].server_pane) ==> view.selection == selection,
{
}

/// The hint stands right below the last of the lines, within the panel, wherever
/// there is a row left for it.
pub proof fn the_hint_stands_below_the_lines(rows: Seq<Rect>, inner: Rect)
    requires
        rows.len() > 0,
        inner.y + inner.height <= u16::MAX,
    ensures
        match row_below(rows, inner) {
            Some(hint) => hint.y == rows.last().y + 1 && hint.height == 1 && hint.y + hint.height
                <= inner.y + inner.height && hint.x == rows.last().x && hint.width
                == rows.last().width,
            None => rows.last().y + 2 > inner.y + inner.height,
        },
{
}

} // verus!
