//! What holds of the screen: where panes and dividers stand, where the focus goes,
//! and what the pointer takes hold of.

use crate::app::{App, Step};
use crate::bindings::Action;
use crate::bytes::first_where_props;
use crate::geometry::{Direction, Ratio, Rect};
use crate::layout::{
    area_of, centered, complement, dragged_ratio, focus_moves, is_neighbour, is_pane,
    lies_toward, list_above_panel, middle_of, nearer, overlap_across, places, share,
    size_changes, with_live_share, DividerHit, LiveShare, Placement,
};
use crate::protocol::{ClientPaneId, Size, SplitDir, SplitId, SplitTree};
use vstd::prelude::*;

verus! {

/// Whether `b` stands wholly to that side of `a`.
pub open spec fn stands(direction: Direction, a: Rect, b: Rect) -> bool {
    match direction {
        Direction::Left => b.x + b.width <= a.x,
        Direction::Right => a.x + a.width <= b.x,
        Direction::Up => b.y + b.height <= a.y,
        Direction::Down => a.y + a.height <= b.y,
    }
}

/// How many cells lie between `a` and `b`, which stands to that side of it.
pub open spec fn cells_between(direction: Direction, a: Rect, b: Rect) -> int {
    match direction {
        Direction::Left => a.x - (b.x + b.width),
        Direction::Right => b.x - (a.x + a.width),
        Direction::Up => a.y - (b.y + b.height),
        Direction::Down => b.y - (a.y + a.height),
    }
}

/// Whether `a` and `b` both have the column `line`, looked at up or down, or both
/// have the row `line`, looked at to the left or right.
pub open spec fn face_in(direction: Direction, a: Rect, b: Rect, line: int) -> bool {
    match direction {
        Direction::Left | Direction::Right => a.y <= line < a.y + a.height && b.y <= line < b.y
            + b.height,
        Direction::Up | Direction::Down => a.x <= line < a.x + a.width && b.x <= line < b.x
            + b.width,
    }
}

/// Whether `a` and `b` face each other in `n` lines from `start` on.
pub open spec fn face_along(direction: Direction, a: Rect, b: Rect, start: int, n: int) -> bool {
    forall|line: int| start <= line < start + n ==> #[trigger] face_in(direction, a, b, line)
}

/// The panes, no two of which are the same.
pub open spec fn distinct_panes(leaves: Seq<(ClientPaneId, Rect)>) -> bool {
    forall|i: int, j: int|
        0 <= i < j < leaves.len() ==> (#[trigger] leaves[i]).0 != (#[trigger] leaves[j]).0
}

proof fn area_of_pane(leaves: Seq<(ClientPaneId, Rect)>, i: int)
    requires
        distinct_panes(leaves),
        0 <= i < leaves.len(),
    ensures
        area_of(leaves, leaves[i].0) == Some(leaves[i].1),
{
    let p = is_pane(leaves, leaves[i].0);
    first_where_props(p, 0, leaves.len() as int);
    assert(p(i));
}

/// Lines in which two rectangles face each other form one run, as long as their
/// overlap.
proof fn overlap_is_a_run(direction: Direction, a: Rect, b: Rect) -> (start: int)
    ensures
        overlap_across(a, b, direction) >= 0,
        face_along(direction, a, b, start, overlap_across(a, b, direction)),
{
    match direction {
        Direction::Left | Direction::Right => if a.y >= b.y {
            a.y as int
        } else {
            b.y as int
        },
        Direction::Up | Direction::Down => if a.x >= b.x {
            a.x as int
        } else {
            b.x as int
        },
    }
}

proof fn run_fits_overlap(direction: Direction, a: Rect, b: Rect, start: int, n: int)
    requires
        n > 0,
        face_along(direction, a, b, start, n),
    ensures
        n <= overlap_across(a, b, direction),
{
    assert(face_in(direction, a, b, start));
    assert(face_in(direction, a, b, start + n - 1));
}

/// The focus moves to a pane on that side. No pane there is nearer. Of those as
/// near, none faces the focused pane in more lines, and none that comes earlier
/// faces it in as many.
pub proof fn focus_goes_to_the_nearest_pane(
    leaves: Seq<(ClientPaneId, Rect)>,
    from: int,
    direction: Direction,
    to: int,
    other: int,
)
    requires
        distinct_panes(leaves),
        0 <= from < leaves.len(),
        0 <= to < leaves.len(),
        focus_moves(leaves, Some(leaves[from].0), direction, Some(leaves[to].0)),
        0 <= other < leaves.len(),
        stands(direction, leaves[from].1, leaves[other].1),
    ensures
        stands(direction, leaves[from].1, leaves[to].1),
        cells_between(direction, leaves[from].1, leaves[to].1) <= cells_between(
            direction,
            leaves[from].1,
            leaves[other].1,
        ),
        cells_between(direction, leaves[from].1, leaves[to].1) == cells_between(
            direction,
            leaves[from].1,
            leaves[other].1,
        ) ==> forall|start: int, n: int|
            n > 0 && #[trigger] face_along(direction, leaves[from].1, leaves[other].1, start, n)
                ==> exists|at: int| #[trigger]
                face_along(direction, leaves[from].1, leaves[to].1, at, n),
        cells_between(direction, leaves[from].1, leaves[to].1) == cells_between(
            direction,
            leaves[from].1,
            leaves[other].1,
        ) && other < to ==> exists|start: int, n: int| #[trigger]
            face_along(direction, leaves[from].1, leaves[to].1, start, n) && n > 0 && forall|
                at: int,
            |
                !#[trigger] face_along(direction, leaves[from].1, leaves[other].1, at, n),
{
    let a = leaves[from].1;
    area_of_pane(leaves, from);
    let i = choose|i: int| #[trigger]
        is_neighbour(leaves, a, direction, i) && leaves[i].0 == leaves[to].0;
    assert(i == to);
    let b = leaves[to].1;
    let c = leaves[other].1;
    assert(lies_toward(a, c, direction));
    assert(!nearer(a, c, b, direction));
    if cells_between(direction, a, b) == cells_between(direction, a, c) {
        let at = overlap_is_a_run(direction, a, b);
        assert forall|start: int, n: int|
            n > 0 && #[trigger] face_along(direction, a, c, start, n) implies exists|at: int|
         #[trigger] face_along(direction, a, b, at, n) by {
            run_fits_overlap(direction, a, c, start, n);
            assert(face_along(direction, a, b, at, n));
        }
        if other < to {
            let n = overlap_across(a, b, direction);
            assert(nearer(a, b, c, direction));
            overlap_is_a_run(direction, a, c);
            assert(face_along(direction, a, b, at, n));
            assert forall|q: int| !#[trigger] face_along(direction, a, c, q, n) by {
                if face_along(direction, a, c, q, n) {
                    run_fits_overlap(direction, a, c, q, n);
                }
            }
        }
    }
}

/// A pane that faces the focused one goes before one as near that does not.
pub proof fn focus_prefers_a_pane_that_faces(
    leaves: Seq<(ClientPaneId, Rect)>,
    from: int,
    direction: Direction,
    to: Option<ClientPaneId>,
    facing: int,
    line: int,
    aside: int,
)
    requires
        distinct_panes(leaves),
        0 <= from < leaves.len(),
        0 <= facing < leaves.len(),
        0 <= aside < leaves.len(),
        focus_moves(leaves, Some(leaves[from].0), direction, to),
        stands(direction, leaves[from].1, leaves[facing].1),
        stands(direction, leaves[from].1, leaves[aside].1),
        cells_between(direction, leaves[from].1, leaves[facing].1) <= cells_between(
            direction,
            leaves[from].1,
            leaves[aside].1,
        ),
        face_in(direction, leaves[from].1, leaves[facing].1, line),
        forall|l: int| !#[trigger] face_in(direction, leaves[from].1, leaves[aside].1, l),
    ensures
        to != Some(leaves[aside].0),
{
    if to == Some(leaves[aside].0) {
        focus_goes_to_the_nearest_pane(leaves, from, direction, aside, facing);
        assert(face_along(direction, leaves[from].1, leaves[facing].1, line, 1));
        let at = choose|at: int| #[trigger]
            face_along(direction, leaves[from].1, leaves[aside].1, at, 1);
        assert(face_in(direction, leaves[from].1, leaves[aside].1, at));
    }
}

/// The focus stays only where no pane stands on that side, and moves to a pane of
/// the screen where one does.
pub proof fn focus_moves_wherever_it_can(
    leaves: Seq<(ClientPaneId, Rect)>,
    from: int,
    direction: Direction,
    to: Option<ClientPaneId>,
)
    requires
        distinct_panes(leaves),
        0 <= from < leaves.len(),
        focus_moves(leaves, Some(leaves[from].0), direction, to),
    ensures
        to is None <==> forall|i: int|
            0 <= i < leaves.len() ==> !stands(
                direction,
                leaves[from].1,
                (#[trigger] leaves[i]).1,
            ),
        to matches Some(id) ==> exists|i: int|
            0 <= i < leaves.len() && (#[trigger] leaves[i]).0 == id,
{
    area_of_pane(leaves, from);
    let a = leaves[from].1;
    assert forall|i: int| 0 <= i < leaves.len() implies lies_toward(
        a,
        (#[trigger] leaves[i]).1,
        direction,
    ) == stands(direction, a, leaves[i].1) by {}
    if let Some(id) = to {
        let i = choose|i: int| #[trigger]
            is_neighbour(leaves, a, direction, i) && leaves[i].0 == id;
        assert(stands(direction, a, leaves[i].1));
        assert(leaves[i].0 == id);
    }
}

/// A focus that is not on screen moves to the first pane, whatever the direction.
pub proof fn lost_focus_goes_to_the_first_pane(
    leaves: Seq<(ClientPaneId, Rect)>,
    current: Option<ClientPaneId>,
    direction: Direction,
    to: Option<ClientPaneId>,
)
    requires
        focus_moves(leaves, current, direction, to),
        current matches Some(id) ==> forall|i: int|
            0 <= i < leaves.len() ==> (#[trigger] leaves[i]).0 != id,
    ensures
        leaves.len() > 0 ==> to == Some(leaves[0].0),
        leaves.len() == 0 ==> to is None,
{
    if let Some(id) = current {
        first_where_props(is_pane(leaves, id), 0, leaves.len() as int);
    }
}

/// The direction of a focus key.
pub open spec fn way_of(action: Action) -> Option<Direction> {
    match action {
        Action::FocusLeft => Some(Direction::Left),
        Action::FocusRight => Some(Direction::Right),
        Action::FocusUp => Some(Direction::Up),
        Action::FocusDown => Some(Direction::Down),
        _ => None,
    }
}

/// The focus keys move the focus their way on the screen, and change nothing else
/// but that the selection ends.
pub proof fn focus_keys_move_their_way(
    before: App,
    action: Action,
    raw: Seq<u8>,
    after: App,
    step: Step,
)
    requires
        before.acts(action, raw, after, step),
        way_of(action) is Some,
    ensures
        step == Step::Done,
        after == (App { focused: after.focused, text_selection: None, ..before }),
        match before.workspace.tree {
            None => after.focused == before.focused,
            Some(tree) => exists|p: Placement| #[trigger]
                places(tree, before.frame_area, p) && exists|to: Option<ClientPaneId>| #[trigger]
                    focus_moves(p.leaves(), before.focused, way_of(action)->0, to)
                        && after.focused == if to is Some {
                        to
                    } else {
                        before.focused
                    },
        },
{
    let app = App { text_selection: None, ..before };
    match before.workspace.tree {
        None => {},
        Some(tree) => {
            let d = way_of(action)->0;
            let p = choose|p: Placement| #[trigger]
                places(tree, app.frame_area, p) && app.moves_focus_on(p.leaves(), d, after);
            assert(places(tree, before.frame_area, p));
            let to = choose|to: Option<ClientPaneId>| #[trigger]
                focus_moves(p.leaves(), app.focused, d, to) && after == match to {
                    Some(_) => App { focused: to, ..app },
                    None => app,
                };
        },
    }
}

/// Where an area begins in the direction in which a divider can be dragged.
pub open spec fn begin_across(hit: DividerHit) -> int {
    match hit.dir {
        SplitDir::Vertical => hit.parent_area.x as int,
        SplitDir::Horizontal => hit.parent_area.y as int,
    }
}

/// How many cells an area has in the direction in which a divider can be dragged.
pub open spec fn cells_across(hit: DividerHit) -> int {
    match hit.dir {
        SplitDir::Vertical => hit.parent_area.width as int,
        SplitDir::Horizontal => hit.parent_area.height as int,
    }
}

/// The coordinate of the pointer that moves a divider.
pub open spec fn pointer_across(hit: DividerHit, col: u16, row: u16) -> int {
    match hit.dir {
        SplitDir::Vertical => col as int,
        SplitDir::Horizontal => row as int,
    }
}

/// Whether `ratio` is the part of the divided area that lies before the pointer.
pub open spec fn lies_before(hit: DividerHit, col: u16, row: u16, ratio: Ratio) -> bool {
    &&& pointer_across(hit, col, row) >= begin_across(hit) ==> begin_across(hit) + ratio.offset
        == pointer_across(hit, col, row)
    &&& pointer_across(hit, col, row) <= begin_across(hit) ==> ratio.offset == 0
    &&& cells_across(hit) > 0 ==> ratio.span == cells_across(hit)
    &&& ratio.span > 0
}

/// A dragged divider stands for the part of the divided area before the pointer:
/// none of it at its first cell, less than all of it within it.
pub proof fn dragged_ratio_lies_before_the_pointer(hit: DividerHit, col: u16, row: u16)
    ensures
        lies_before(hit, col, row, dragged_ratio(hit, col, row)),
        hit.parent_area.covers(col as int, row as int) ==> dragged_ratio(hit, col, row).offset
            < dragged_ratio(hit, col, row).span,
{
}

/// Moving the area and the pointer by the same amount changes no ratio, and of the
/// pointer only the coordinate across the divider counts.
pub proof fn dragged_ratio_moves_with_the_area(
    hit: DividerHit,
    col: u16,
    row: u16,
    moved: DividerHit,
    moved_col: u16,
    moved_row: u16,
)
    requires
        moved.dir == hit.dir,
        cells_across(moved) == cells_across(hit),
        begin_across(moved) - begin_across(hit) == pointer_across(moved, moved_col, moved_row)
            - pointer_across(hit, col, row),
    ensures
        dragged_ratio(moved, moved_col, moved_row) == dragged_ratio(hit, col, row),
{
}

/// Whether the cell `(col, row)` is one of `area`'s.
pub open spec fn has_cell(area: Rect, col: u16, row: u16) -> bool {
    area.x <= col < area.x + area.width && area.y <= row < area.y + area.height
}

/// A vertical divider has the first side to its left and the second to its right,
/// both as high as the area; a horizontal one has the first above it and is the
/// second's title row. The first side gets its percentage of the area, but for the
/// gap and for rounding.
pub proof fn sides_stand_as_the_divider_says(tree: SplitTree, area: Rect, placement: Placement)
    requires
        places(tree, area, placement),
        tree is Split,
        area.x + area.width <= u16::MAX,
        area.y + area.height <= u16::MAX,
    ensures
        ({
            let percent = tree->percent;
            let a = placement->Split_a.bounds();
            let b = placement->Split_b.bounds();
            let zone = placement->divider;
            match tree->dir {
                SplitDir::Vertical => {
                    &&& a.y == area.y && b.y == area.y && zone.y == area.y
                    &&& a.height == area.height && b.height == area.height && zone.height
                        == area.height
                    &&& a.x == area.x
                    &&& zone.x == a.x + a.width
                    &&& b.x == zone.x + zone.width
                    &&& b.x + b.width == area.x + area.width
                    &&& zone.width <= 3
                    &&& area.width >= 3 ==> zone.width == 3
                    &&& percent <= 100 ==> percent * area.width - 350 <= 100 * a.width <= percent
                        * area.width + 50
                },
                SplitDir::Horizontal => {
                    &&& a.x == area.x && b.x == area.x && zone.x == area.x
                    &&& a.width == area.width && b.width == area.width && zone.width == area.width
                    &&& a.y == area.y
                    &&& b.y == a.y + a.height
                    &&& b.y + b.height == area.y + area.height
                    &&& zone.y == b.y && zone.height == 1
                    &&& percent <= 100 ==> percent * area.height - 50 <= 100 * a.height <= percent
                        * area.height + 50
                },
            }
        }),
{
    let percent = tree->percent;
    let w = area.width as int;
    let h = area.height as int;
    assert(w * percent == percent * w && h * percent == percent * h) by (nonlinear_arith);
    if percent <= 100 {
        assert(0 <= percent * w <= 100 * w && 0 <= percent * h <= 100 * h) by (nonlinear_arith)
            requires
                0 <= percent <= 100,
                w >= 0,
                h >= 0,
        ;
    }
}

/// Each split has one divider, in the order of the tree, which knows the split and
/// the area it divides, and each pane is laid out once.
pub proof fn dividers_belong_to_their_splits(tree: SplitTree, area: Rect, placement: Placement)
    requires
        places(tree, area, placement),
        tree is Split,
    ensures
        placement.dividers() == seq![
            DividerHit {
                split: tree->id,
                dir: tree->dir,
                grab_zone: placement->divider,
                parent_area: area,
            },
        ] + placement->Split_a.dividers() + placement->Split_b.dividers(),
        placement.leaves() == placement->Split_a.leaves() + placement->Split_b.leaves(),
        places(*tree->a, placement->Split_a.bounds(), *placement->Split_a),
        places(*tree->b, placement->Split_b.bounds(), *placement->Split_b),
{
}

/// The splits of a tree with their shares, each before those of its two sides.
pub open spec fn shares(tree: SplitTree) -> Seq<(SplitId, SplitDir, u16)>
    decreases tree,
{
    match tree {
        SplitTree::Leaf(_) => seq![],
        SplitTree::Split { id, dir, percent, a, b } => seq![(id, dir, percent)] + shares(*a)
            + shares(*b),
    }
}

/// While a divider is dragged the tree looks as before but for that split's share.
pub proof fn a_drag_moves_only_its_divider(tree: SplitTree, live: LiveShare)
    ensures
        with_live_share(tree, None) == tree,
        with_live_share(tree, Some(live)).panes() == tree.panes(),
        shares(with_live_share(tree, Some(live))).len() == shares(tree).len(),
        forall|i: int|
            0 <= i < shares(tree).len() ==> #[trigger] shares(with_live_share(tree, Some(live)))[i]
                == (
                shares(tree)[i].0,
                shares(tree)[i].1,
                if shares(tree)[i].0 == live.split {
                    live.percent
                } else {
                    shares(tree)[i].2
                },
            ),
    decreases tree,
{
    match tree {
        SplitTree::Leaf(_) => {},
        SplitTree::Split { id, dir, percent, a, b } => {
            a_drag_moves_only_its_divider(*a, live);
            a_drag_moves_only_its_divider(*b, live);
            let moved = with_live_share(tree, Some(live));
            let na = shares(*a).len() as int;
            assert forall|i: int| 0 <= i < shares(tree).len() implies #[trigger] shares(moved)[i]
                == (
                shares(tree)[i].0,
                shares(tree)[i].1,
                if shares(tree)[i].0 == live.split {
                    live.percent
                } else {
                    shares(tree)[i].2
                },
            ) by {
                if 1 <= i < 1 + na {
                    assert(shares(with_live_share(*a, Some(live)))[i - 1] == shares(moved)[i]);
                    assert(shares(*a)[i - 1] == shares(tree)[i]);
                } else if i >= 1 + na {
                    assert(shares(with_live_share(*b, Some(live)))[i - 1 - na] == shares(moved)[i]);
                    assert(shares(*b)[i - 1 - na] == shares(tree)[i]);
                }
            }
        },
    }
}

/// A rectangle in the middle: as much of the area as asked for, and where an even
/// share is left, as much of it before as behind, but for rounding.
pub proof fn centered_leaves_equal_margins(percent_x: u16, percent_y: u16, area: Rect)
    requires
        percent_x <= 100,
        percent_y <= 100,
        area.x + area.width <= u16::MAX,
        area.y + area.height <= u16::MAX,
    ensures
        ({
            let r = centered(percent_x, percent_y, area);
            let before_x = r.x - area.x;
            let behind_x = area.width - r.width - before_x;
            let before_y = r.y - area.y;
            let behind_y = area.height - r.height - before_y;
            &&& before_x >= 0 && behind_x >= 0 && before_y >= 0 && behind_y >= 0
            &&& percent_x * area.width - 100 <= 100 * r.width <= percent_x * area.width + 100
            &&& percent_y * area.height - 100 <= 100 * r.height <= percent_y * area.height + 100
            &&& percent_x % 2 == 0 ==> -1 <= before_x - behind_x <= 1
            &&& percent_y % 2 == 0 ==> -1 <= before_y - behind_y <= 1
        }),
{
    let rows = middle_of(false, percent_y, area);
    middle_leaves_equal_margins(area.height as int, percent_y);
    middle_leaves_equal_margins(area.width as int, percent_x);
}

proof fn middle_leaves_equal_margins(s: int, percent: u16)
    requires
        0 <= s <= u16::MAX,
        percent <= 100,
    ensures
        ({
            let margin = (complement(percent) / 2) as int;
            let from = share(s, margin);
            let to = share(s, margin + percent);
            &&& 0 <= from <= to <= s
            &&& percent * s - 100 <= 100 * (to - from) <= percent * s + 100
            &&& percent % 2 == 0 ==> -1 <= from - (s - to) <= 1
        }),
{
    let margin = (complement(percent) / 2) as int;
    let m = margin * s;
    let p = percent * s;
    assert(s * margin == m && s * (margin + percent) == m + p) by (nonlinear_arith)
        requires
            m == margin * s,
            p == percent * s,
    ;
    assert(0 <= m && 0 <= p && m + p <= 100 * s) by (nonlinear_arith)
        requires
            m == margin * s,
            p == percent * s,
            0 <= margin,
            0 <= percent,
            margin + percent <= 100,
            s >= 0,
    ;
    if percent % 2 == 0 {
        assert(m + p + m == 100 * s) by (nonlinear_arith)
            requires
                m == margin * s,
                p == percent * s,
                margin + percent + margin == 100,
        ;
    }
}

/// The panel stands at the bottom, as high as asked for or as there is room, and
/// the list has all the rest above it.
pub proof fn panel_stands_at_the_bottom(area: Rect, height: u16)
    requires
        area.y + area.height <= u16::MAX,
    ensures
        ({
            let (list, panel) = list_above_panel(area, height);
            &&& list.x == area.x && panel.x == area.x
            &&& list.width == area.width && panel.width == area.width
            &&& list.y == area.y
            &&& panel.y == list.y + list.height
            &&& panel.y + panel.height == area.y + area.height
            &&& panel.height <= height
            &&& panel.height < height ==> list.height == 0
        }),
{
}

/// The sizes to report are those of the panes whose terminal is not as last
/// reported: as wide as the pane, and without its title row.
pub proof fn changed_sizes_are_reported(
    reported: Map<ClientPaneId, Size>,
    leaves: Seq<(ClientPaneId, Rect)>,
    i: int,
)
    requires
        distinct_panes(leaves),
        0 <= i < leaves.len(),
        leaves[i].1.height > 0,
    ensures
        ({
            let size = Size {
                rows: (leaves[i].1.height - 1) as u16,
                cols: leaves[i].1.width,
            };
            let changes = size_changes(reported, leaves);
            &&& changes.contains((leaves[i].0, size)) <==> !(reported.contains_key(leaves[i].0)
                && reported[leaves[i].0] == size)
            &&& forall|k: int|
                0 <= k < changes.len() && (#[trigger] changes[k]).0 == leaves[i].0 ==> changes[k].1
                    == size
        }),
    decreases leaves.len(),
{
    let size = Size { rows: (leaves[i].1.height - 1) as u16, cols: leaves[i].1.width };
    let rest = leaves.drop_last();
    let before = size_changes(reported, rest);
    let changes = size_changes(reported, leaves);
    let pair = (leaves[i].0, size);
    assert(distinct_panes(rest)) by {
        assert forall|a: int, b: int| 0 <= a < b < rest.len() implies (#[trigger] rest[a]).0 != (
        #[trigger] rest[b]).0 by {
            assert(rest[a] == leaves[a] && rest[b] == leaves[b]);
        }
    }
    if i < rest.len() {
        assert(rest[i] == leaves[i]);
        changed_sizes_are_reported(reported, rest, i);
        assert(leaves[i].0 != leaves[leaves.len() - 1].0);
        if before.contains(pair) {
            let k = choose|k: int| 0 <= k < before.len() && before[k] == pair;
            assert(changes[k] == pair);
        }
        if changes.contains(pair) {
            let k = choose|k: int| 0 <= k < changes.len() && changes[k] == pair;
            assert(k < before.len());
            assert(before[k] == pair);
        }
        assert forall|k: int|
            0 <= k < changes.len() && (#[trigger] changes[k]).0 == leaves[i].0 implies changes[k].1
            == size by {
            assert(k < before.len());
            assert(before[k] == changes[k]);
        }
    } else {
        only_listed_panes_change(reported, rest);
        assert forall|k: int| 0 <= k < before.len() implies (#[trigger] before[k]).0
            != leaves[i].0 by {
            let j = choose|j: int|
                0 <= j < rest.len() && (#[trigger] rest[j]).0 == before[k].0;
            assert(rest[j] == leaves[j]);
        }
        if !(reported.contains_key(leaves[i].0) && reported[leaves[i].0] == size) {
            assert(changes.last() == pair);
            assert(changes[changes.len() - 1] == pair);
        } else if changes.contains(pair) {
            let k = choose|k: int| 0 <= k < changes.len() && changes[k] == pair;
            assert(before[k] == pair);
        }
        assert forall|k: int|
            0 <= k < changes.len() && (#[trigger] changes[k]).0 == leaves[i].0 implies changes[k].1
            == size by {
            if k < before.len() {
                assert(before[k] == changes[k]);
            }
        }
    }
}

/// Only panes of the screen are reported.
pub proof fn only_listed_panes_change(
    reported: Map<ClientPaneId, Size>,
    leaves: Seq<(ClientPaneId, Rect)>,
)
    ensures
        forall|k: int|
            0 <= k < size_changes(reported, leaves).len() ==> exists|j: int|
                0 <= j < leaves.len() && (#[trigger] leaves[j]).0 == (#[trigger] size_changes(
                    reported,
                    leaves,
                )[k]).0,
    decreases leaves.len(),
{
    if leaves.len() > 0 {
        let rest = leaves.drop_last();
        only_listed_panes_change(reported, rest);
        let before = size_changes(reported, rest);
        let changes = size_changes(reported, leaves);
        assert forall|k: int| 0 <= k < changes.len() implies exists|j: int|
            0 <= j < leaves.len() && (#[trigger] leaves[j]).0 == (#[trigger] changes[k]).0 by {
            if k < before.len() {
                assert(before[k] == changes[k]);
                let j = choose|j: int|
                    0 <= j < rest.len() && (#[trigger] rest[j]).0 == before[k].0;
                assert(leaves[j].0 == changes[k].0);
            } else {
                assert(leaves[leaves.len() - 1].0 == changes[k].0);
            }
        }
    }
}

} // verus!
