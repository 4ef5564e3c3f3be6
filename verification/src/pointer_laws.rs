//! What holds of the mouse: what a press takes hold of, what a drag moves, what a
//! release sends, and which text a selection copies.

use crate::app::{App, Drag, Pending, Step};
use crate::bytes::{first_where_is, first_where_none, first_where_props};
use crate::geometry::Rect;
use crate::layout::{divides, grabbed_at, is_pane, shows_at, DividerHit, Placement};
use crate::mouse::MouseEvent;
use crate::protocol::{GridSnapshot, Request};
use crate::screen_laws::{distinct_panes, has_cell, lies_before};
use crate::selection::{
    cell_nearest, cells_text, clamped, has_content_row, row_text, selection_text, text_between,
    GridPosition, TextSelection,
};
use crate::text::{is_white_space, joined, trimmed_end};
use vstd::prelude::*;

verus! {

/// A wheel tick scrolls the pane under the pointer, focused or not, by three rows:
/// back in its history for a tick up, toward its end for a tick down. It ends the
/// selection and changes nothing else.
pub proof fn the_wheel_scrolls_what_is_under_it(
    before: App,
    placement: Placement,
    col: u16,
    row: u16,
    up: bool,
    after: App,
    step: Step,
)
    requires
        before.takes_mouse_on(
            Some(placement),
            if up {
                MouseEvent::ScrollUp { col, row }
            } else {
                MouseEvent::ScrollDown { col, row }
            },
            after,
            step,
        ),
    ensures
        after == (App { text_selection: None, ..before }),
        match step {
            Step::Send(Request::ScrollClientPane { pane, delta }, pending) => {
                &&& pending == Pending::Discard
                &&& delta == if up {
                    3int
                } else {
                    -3
                }
                &&& exists|i: int|
                    0 <= i < placement.leaves().len() && (#[trigger] placement.leaves()[i]).0
                        == pane && has_cell(placement.leaves()[i].1, col, row)
            },
            _ => step == Step::Done && forall|i: int|
                0 <= i < placement.leaves().len() ==> !has_cell(
                    (#[trigger] placement.leaves()[i]).1,
                    col,
                    row,
                ),
        },
{
    let leaves = placement.leaves();
    let p = shows_at(leaves, col, row);
    first_where_props(p, 0, leaves.len() as int);
    assert forall|i: int| 0 <= i < leaves.len() implies p(i) == has_cell(
        (#[trigger] leaves[i]).1,
        col,
        row,
    ) by {}
}

/// No two dividers belong to one split.
pub open spec fn distinct_splits(hits: Seq<DividerHit>) -> bool {
    forall|i: int, j: int|
        0 <= i < j < hits.len() ==> (#[trigger] hits[i]).split != (#[trigger] hits[j]).split
}

proof fn divider_is_found(hits: Seq<DividerHit>, i: int)
    requires
        distinct_splits(hits),
        0 <= i < hits.len(),
    ensures
        crate::layout::divider_of(hits, hits[i].split) == Some(hits[i]),
{
    let p = divides(hits, hits[i].split);
    first_where_props(p, 0, hits.len() as int);
    assert(p(i));
}

/// A press on a divider takes hold of that divider where the pointer is, and
/// neither moves the focus nor selects; a press beside every divider takes hold of
/// none.
pub proof fn a_press_takes_hold_of_the_divider_there(
    before: App,
    placement: Placement,
    col: u16,
    row: u16,
    after: App,
    step: Step,
    i: int,
)
    requires
        before.takes_mouse_on(Some(placement), MouseEvent::Down { col, row }, after, step),
        distinct_splits(placement.dividers()),
        0 <= i < placement.dividers().len(),
        has_cell(placement.dividers()[i].grab_zone, col, row),
        forall|j: int|
            0 <= j < i ==> !has_cell((#[trigger] placement.dividers()[j]).grab_zone, col, row),
    ensures
        step == Step::Done,
        after.dragging_split matches Some(drag) && drag.split == placement.dividers()[i].split
            && lies_before(placement.dividers()[i], col, row, drag.ratio),
        after == (App {
            dragging_split: after.dragging_split,
            text_selection: None,
            ..before
        }),
{
    let hits = placement.dividers();
    let p = grabbed_at(hits, col, row);
    first_where_is(p, 0, hits.len() as int, i);
    divider_is_found(hits, i);
}

/// A divider that is held follows the pointer, and nothing else happens; one that
/// is no longer there is let go.
pub proof fn a_held_divider_follows_the_pointer(
    before: App,
    placement: Placement,
    col: u16,
    row: u16,
    after: App,
    step: Step,
    i: int,
)
    requires
        before.takes_mouse_on(Some(placement), MouseEvent::Drag { col, row }, after, step),
        distinct_splits(placement.dividers()),
        0 <= i < placement.dividers().len(),
        before.dragging_split matches Some(drag) && drag.split == placement.dividers()[i].split,
    ensures
        step == Step::Done,
        after.dragging_split matches Some(drag) && drag.split == placement.dividers()[i].split
            && lies_before(placement.dividers()[i], col, row, drag.ratio),
        after == (App { dragging_split: after.dragging_split, ..before }),
{
    divider_is_found(placement.dividers(), i);
}

/// Releasing a held divider asks the daemon to move exactly that divider of the
/// workspace shown to where it was last dragged, and lets go.
pub proof fn a_release_moves_the_held_divider(
    before: App,
    placement: Option<Placement>,
    col: u16,
    row: u16,
    after: App,
    step: Step,
    drag: Drag,
)
    requires
        before.takes_mouse_on(placement, MouseEvent::Up { col, row }, after, step),
        before.dragging_split == Some(drag),
    ensures
        step matches Step::Send(Request::ResizeSplit { workspace, split, new_ratio }, pending)
            && workspace == before.workspace.id && split == drag.split && new_ratio == drag.ratio
            && pending == Pending::Discard,
        after == (App { dragging_split: None, ..before }),
{
}

/// A press in a pane, beside every divider, focuses it. On a cell of its screen,
/// which begins below the title row, it begins a selection of that one cell; on
/// the title row it selects nothing.
pub proof fn a_press_selects_the_cell_under_it(
    before: App,
    placement: Placement,
    col: u16,
    row: u16,
    after: App,
    step: Step,
    i: int,
)
    requires
        before.takes_mouse_on(Some(placement), MouseEvent::Down { col, row }, after, step),
        forall|j: int|
            0 <= j < placement.dividers().len() ==> !has_cell(
                (#[trigger] placement.dividers()[j]).grab_zone,
                col,
                row,
            ),
        0 <= i < placement.leaves().len(),
        has_cell(placement.leaves()[i].1, col, row),
        forall|j: int|
            0 <= j < i ==> !has_cell((#[trigger] placement.leaves()[j]).1, col, row),
        col < u16::MAX,
        row < u16::MAX,
    ensures
        ({
            let (pane, area) = placement.leaves()[i];
            &&& step == Step::Done
            &&& after == (App {
                focused: Some(pane),
                dragging_split: None,
                text_selection: after.text_selection,
                ..before
            })
            &&& match before.workspace.pane_bound(pane) {
                Some(shown) if before.grids@.contains_key(shown) && row > area.y => {
                    let lines = before.grids@[shown].lines@;
                    let r = row - area.y - 1;
                    let c = col - area.x;
                    if r < lines.len() && c < lines[r]@.len() {
                        after.text_selection matches Some(s) && s.pane == pane && s.server_pane
                            == shown && s.start.row == r && s.start.col == c && s.end == s.start
                            && s.dragging
                    } else {
                        after.text_selection is None
                    }
                },
                _ => after.text_selection is None,
            }
        }),
{
    let hits = placement.dividers();
    let p = grabbed_at(hits, col, row);
    assert forall|j: int| 0 <= j < hits.len() implies !#[trigger] p(j) by {
        assert(!has_cell(hits[j].grab_zone, col, row));
    }
    first_where_none(p, 0, hits.len() as int);
    let leaves = placement.leaves();
    let q = shows_at(leaves, col, row);
    assert forall|j: int| 0 <= j < i implies !#[trigger] q(j) by {
        assert(!has_cell(leaves[j].1, col, row));
    }
    first_where_is(q, 0, leaves.len() as int, i);
}

/// A number is no farther from `a` than from `b`.
pub open spec fn no_farther(at: int, a: int, b: int) -> bool {
    &&& at <= a ==> (b <= at ==> a - at <= at - b) && (at <= b ==> a <= b)
    &&& a <= at ==> (at <= b ==> at - a <= b - at) && (b <= at ==> b <= a)
}

/// The nearest cell is in the nearest row that shows, and there in the nearest
/// column that shows.
pub proof fn the_nearest_cell_is_nearest(
    leaf: Rect,
    snapshot: GridSnapshot,
    col: u16,
    row: u16,
    other_row: int,
    other_col: int,
)
    requires
        has_content_row(leaf),
        cell_nearest(leaf, snapshot, col, row) is Some,
        0 <= other_row < snapshot.lines@.len() && other_row < leaf.height - 1,
        0 <= other_col < leaf.width,
    ensures
        ({
            let p = cell_nearest(leaf, snapshot, col, row)->0;
            &&& no_farther(row as int, leaf.y + 1 + p.row, leaf.y + 1 + other_row)
            &&& other_col < snapshot.lines@[p.row as int]@.len() ==> no_farther(
                col as int,
                leaf.x + p.col,
                leaf.x + other_col,
            )
        }),
{
}

/// While a selection is dragged its end is the nearest cell of its own pane; its
/// start and its pane stay, and nothing is sent.
pub proof fn a_dragged_selection_ends_nearest_to_the_pointer(
    before: App,
    placement: Placement,
    col: u16,
    row: u16,
    after: App,
    step: Step,
    s: TextSelection,
    i: int,
)
    requires
        before.takes_mouse_on(Some(placement), MouseEvent::Drag { col, row }, after, step),
        before.dragging_split is None,
        before.text_selection == Some(s) && s.dragging,
        distinct_panes(placement.leaves()),
        0 <= i < placement.leaves().len() && placement.leaves()[i].0 == s.pane,
        before.grids@.contains_key(s.server_pane),
        cell_nearest(
            placement.leaves()[i].1,
            before.grids@[s.server_pane],
            col,
            row,
        ) is Some,
    ensures
        step == Step::Done,
        after == (App { text_selection: after.text_selection, ..before }),
        after.text_selection matches Some(t) && t.pane == s.pane && t.server_pane == s.server_pane
            && t.start == s.start && t.dragging && Some(t.end) == cell_nearest(
            placement.leaves()[i].1,
            before.grids@[s.server_pane],
            col,
            row,
        ),
{
    let leaves = placement.leaves();
    let p = is_pane(leaves, s.pane);
    first_where_props(p, 0, leaves.len() as int);
    assert(p(i));
}

/// A release on another cell than the selection began on ends the drag there and
/// copies the selected text, if there is any.
pub proof fn a_release_copies_the_selected_text(
    before: App,
    placement: Placement,
    col: u16,
    row: u16,
    after: App,
    step: Step,
    s: TextSelection,
    i: int,
    end: GridPosition,
)
    requires
        before.takes_mouse_on(Some(placement), MouseEvent::Up { col, row }, after, step),
        before.dragging_split is None,
        before.text_selection == Some(s) && s.dragging,
        distinct_panes(placement.leaves()),
        0 <= i < placement.leaves().len() && placement.leaves()[i].0 == s.pane,
        before.grids@.contains_key(s.server_pane),
        cell_nearest(placement.leaves()[i].1, before.grids@[s.server_pane], col, row) == Some(end),
    ensures
        ({
            let done = TextSelection { end, dragging: false, ..s };
            let text = selection_text(before.grids@[s.server_pane], done);
            if end == s.start {
                after.text_selection is None && step == Step::Done
            } else {
                &&& after.text_selection == Some(done)
                &&& match text {
                    Some(t) if t.len() > 0 => step matches Step::Copy(copied) && copied@ == t,
                    _ => step == Step::Done,
                }
            }
        }),
        after == (App { text_selection: after.text_selection, ..before }),
{
    let leaves = placement.leaves();
    let p = is_pane(leaves, s.pane);
    first_where_props(p, 0, leaves.len() as int);
    assert(p(i));
}

/// Whether `(row, col)` comes no later than `(other_row, other_col)` in reading
/// order.
pub open spec fn reads_up_to(row: int, col: int, other_row: int, other_col: int) -> bool {
    row < other_row || (row == other_row && col <= other_col)
}

/// A cell is selected if it lies between the two ends in reading order, both
/// included, whichever was first.
pub proof fn selected_cells_lie_between_the_ends(s: TextSelection, row: int, col: int)
    ensures
        s.covers(row, col) <==> {
            ||| reads_up_to(s.start.row as int, s.start.col as int, row, col) && reads_up_to(
                row,
                col,
                s.end.row as int,
                s.end.col as int,
            )
            ||| reads_up_to(s.end.row as int, s.end.col as int, row, col) && reads_up_to(
                row,
                col,
                s.start.row as int,
                s.start.col as int,
            )
        },
{
}

/// Whether the screen has the cell `p`.
pub open spec fn on_screen(snapshot: GridSnapshot, p: GridPosition) -> bool {
    p.row < snapshot.lines@.len() && p.col < snapshot.lines@[p.row as int]@.len()
}

/// The selected text is that between the two ends, from the earlier one on, and
/// only of the server-pane that was selected in.
pub proof fn selected_text_lies_between_the_ends(snapshot: GridSnapshot, s: TextSelection)
    requires
        on_screen(snapshot, s.start),
        on_screen(snapshot, s.end),
    ensures
        selection_text(snapshot, s) == if snapshot.server_pane != s.server_pane {
            None
        } else if reads_up_to(
            s.start.row as int,
            s.start.col as int,
            s.end.row as int,
            s.end.col as int,
        ) {
            Some(text_between(snapshot, s.start, s.end))
        } else {
            Some(text_between(snapshot, s.end, s.start))
        },
{
}

/// Ends that a shrunken screen has lost move to its last row, or to the last cell
/// of their row.
pub proof fn lost_ends_move_onto_the_screen(snapshot: GridSnapshot, p: GridPosition)
    ensures
        on_screen(snapshot, p) ==> clamped(snapshot, p) == Some(p),
        clamped(snapshot, p) matches Some(q) ==> on_screen(snapshot, q) && (p.row
            < snapshot.lines@.len() ==> q.row == p.row) && (p.row >= snapshot.lines@.len() ==> q.row
            == snapshot.lines@.len() - 1) && (p.col < snapshot.lines@[q.row as int]@.len() ==> q.col
            == p.col) && (p.col >= snapshot.lines@[q.row as int]@.len() ==> q.col
            == snapshot.lines@[q.row as int]@.len() - 1),
{
}

/// Trimming cuts white space off the end, all of it and nothing else.
pub proof fn trimming_cuts_only_white_space(s: Seq<char>)
    ensures
        ({
            let t = trimmed_end(s);
            &&& t.len() <= s.len()
            &&& t == s.take(t.len() as int)
            &&& forall|i: int| t.len() <= i < s.len() ==> is_white_space(#[trigger] s[i])
            &&& t.len() > 0 ==> !is_white_space(t.last())
        }),
    decreases s.len(),
{
    if s.len() > 0 && is_white_space(s.last()) {
        let rest = s.drop_last();
        trimming_cuts_only_white_space(rest);
        let t = trimmed_end(rest);
        assert(t == s.take(t.len() as int));
        assert forall|i: int| t.len() <= i < s.len() implies is_white_space(#[trigger] s[i]) by {
            if i < rest.len() {
                assert(rest[i] == s[i]);
            }
        }
    } else {
        assert(s.take(s.len() as int) =~= s);
    }
}

/// Blanks and tabs are white space; letters, digits and signs are not.
pub proof fn white_space_is_blank(c: char)
    ensures
        c == ' ' || c == '\t' || c == '\n' || c == '\r' ==> is_white_space(c),
        '!' as u32 <= c as u32 <= '~' as u32 ==> !is_white_space(c),
{
}

/// Within one row the selected text is that of the cells from the first to the
/// last, without the white space at its end.
pub proof fn a_row_is_selected_from_cell_to_cell(
    snapshot: GridSnapshot,
    first: GridPosition,
    last: GridPosition,
)
    requires
        on_screen(snapshot, first),
        on_screen(snapshot, last),
        first.row == last.row,
        first.col <= last.col,
    ensures
        text_between(snapshot, first, last) == trimmed_end(
            cells_text(
                snapshot.lines@[first.row as int]@.subrange(first.col as int, last.col + 1),
            ),
        ),
{
    let parts = Seq::new(
        (last.row - first.row + 1) as nat,
        |i: int| row_text(snapshot, first.row + i, first, last),
    );
    assert(parts.len() == 1);
    assert(parts[0] == row_text(snapshot, first.row as int, first, last));
}

proof fn joined_from_the_front(parts: Seq<Seq<char>>, separator: Seq<char>)
    requires
        parts.len() > 1,
    ensures
        joined(parts, separator) == parts[0] + separator + joined(parts.skip(1), separator),
    decreases parts.len(),
{
    let rest = parts.skip(1);
    if parts.len() == 2 {
        assert(parts.drop_last().len() == 1);
        assert(rest.len() == 1);
        assert(joined(parts.drop_last(), separator) == parts[0]);
        assert(joined(rest, separator) == parts[1]);
    } else {
        joined_from_the_front(parts.drop_last(), separator);
        assert(parts.drop_last().skip(1) =~= rest.drop_last());
        assert(joined(parts, separator) =~= parts[0] + separator + (joined(
            rest.drop_last(),
            separator,
        ) + separator + parts.last()));
    }
}

/// Over several rows the selected text is that of the first row from the first
/// cell to the row's end, a newline, and what is selected from the next row's start
/// on.
pub proof fn rows_are_selected_one_after_the_other(
    snapshot: GridSnapshot,
    first: GridPosition,
    last: GridPosition,
)
    requires
        on_screen(snapshot, first),
        on_screen(snapshot, last),
        first.row < last.row,
    ensures
        text_between(snapshot, first, last) == trimmed_end(
            cells_text(
                snapshot.lines@[first.row as int]@.subrange(
                    first.col as int,
                    snapshot.lines@[first.row as int]@.len() as int,
                ),
            ),
        ) + seq!['\n'] + text_between(
            snapshot,
            GridPosition { row: (first.row + 1) as usize, col: 0 },
            last,
        ),
{
    let next = GridPosition { row: (first.row + 1) as usize, col: 0 };
    let parts = Seq::new(
        (last.row - first.row + 1) as nat,
        |i: int| row_text(snapshot, first.row + i, first, last),
    );
    let rest = Seq::new(
        (last.row - next.row + 1) as nat,
        |i: int| row_text(snapshot, next.row + i, next, last),
    );
    joined_from_the_front(parts, seq!['\n']);
    assert(parts.skip(1) =~= rest);
}

/// A press where there is neither a pane nor a divider only ends the selection and
/// lets go of a divider.
pub proof fn a_press_beside_everything_lets_go(
    before: App,
    placement: Placement,
    col: u16,
    row: u16,
    after: App,
    step: Step,
)
    requires
        before.takes_mouse_on(Some(placement), MouseEvent::Down { col, row }, after, step),
        forall|j: int|
            0 <= j < placement.dividers().len() ==> !has_cell(
                (#[trigger] placement.dividers()[j]).grab_zone,
                col,
                row,
            ),
        forall|j: int|
            0 <= j < placement.leaves().len() ==> !has_cell(
                (#[trigger] placement.leaves()[j]).1,
                col,
                row,
            ),
    ensures
        step == Step::Done,
        after == (App { dragging_split: None, text_selection: None, ..before }),
{
    let hits = placement.dividers();
    let p = grabbed_at(hits, col, row);
    assert forall|j: int| 0 <= j < hits.len() implies !#[trigger] p(j) by {
        assert(!has_cell(hits[j].grab_zone, col, row));
    }
    first_where_none(p, 0, hits.len() as int);
    let leaves = placement.leaves();
    let q = shows_at(leaves, col, row);
    assert forall|j: int| 0 <= j < leaves.len() implies !#[trigger] q(j) by {
        assert(!has_cell(leaves[j].1, col, row));
    }
    first_where_none(q, 0, leaves.len() as int);
}

/// A divider that is held but no longer there is let go.
pub proof fn a_lost_divider_is_let_go(
    before: App,
    placement: Placement,
    col: u16,
    row: u16,
    after: App,
    step: Step,
    drag: Drag,
)
    requires
        before.takes_mouse_on(Some(placement), MouseEvent::Drag { col, row }, after, step),
        before.dragging_split == Some(drag),
        forall|j: int|
            0 <= j < placement.dividers().len() ==> (#[trigger] placement.dividers()[j]).split
                != drag.split,
    ensures
        step == Step::Done,
        after == (App { dragging_split: None, ..before }),
{
    let hits = placement.dividers();
    let p = divides(hits, drag.split);
    assert forall|j: int| 0 <= j < hits.len() implies !#[trigger] p(j) by {
        assert(hits[j].split != drag.split);
    }
    first_where_none(p, 0, hits.len() as int);
}

/// Without a divider held and without a selection under way, moving the pointer and
/// releasing the button do nothing.
pub proof fn an_idle_pointer_does_nothing(
    before: App,
    placement: Option<Placement>,
    event: MouseEvent,
    after: App,
    step: Step,
)
    requires
        before.takes_mouse_on(placement, event, after, step),
        event is Drag || event is Up,
        before.dragging_split is None,
        !(before.text_selection matches Some(s) && s.dragging),
    ensures
        after == before,
        step == Step::Done,
{
}

} // verus!
