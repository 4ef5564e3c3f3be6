//! Where a workspace's panes and dividers stand on the screen.
//!
//! Dividing an area among shares is left to ratatui's constraint solver. Stacked
//! panes come out in one way only; of panes that stand side by side either may be
//! the one that gives up columns for the gap. [`place`] makes the calls, once for a
//! whole layout; everything else is a function of the [`Placement`] that came back.

use crate::bytes::{first_where, first_where_is, first_where_none};
use crate::geometry::{Direction, Ratio, Rect};
use crate::protocol::{ClientPaneId, Size, SplitDir, SplitId, SplitTree};
use ratatui::layout::{Constraint, Layout};
use std::collections::HashMap;
use vstd::prelude::*;

verus! {

/// The columns between two panes that stand side by side: the divider line with
/// a blank column on either side.
pub const PANE_GAP: u16 = 3;

/// How much of an area a part asks for.
#[derive(Debug, Clone, Copy, PartialEq, Eq, Structural)]
pub enum Measure {
    Percentage(u16),
    Length(u16),
    Min(u16),
}

/// Whether `parts` is one of the ways in which the solver may divide `area`, from
/// left to right if `side_by_side`, else from top to bottom, among parts that ask
/// for `measures`.
pub uninterp spec fn possible_split(
    side_by_side: bool,
    measures: Seq<Measure>,
    area: Rect,
    parts: Seq<Rect>,
) -> bool;

/// Where a rectangle begins in the direction of a split.
pub open spec fn start(side_by_side: bool, area: Rect) -> int {
    if side_by_side {
        area.x as int
    } else {
        area.y as int
    }
}

/// How many cells a rectangle has in the direction of a split.
pub open spec fn length(side_by_side: bool, area: Rect) -> int {
    if side_by_side {
        area.width as int
    } else {
        area.height as int
    }
}

/// How many cells of an area can be divided: those whose place can be counted.
pub open spec fn span(side_by_side: bool, area: Rect) -> int {
    if start(side_by_side, area) + length(side_by_side, area) <= u16::MAX {
        length(side_by_side, area)
    } else {
        u16::MAX - start(side_by_side, area)
    }
}

/// Whether `part` is a slice of `area`: as wide or high as the area across the
/// direction of the split, and within it along that direction.
pub open spec fn is_slice(side_by_side: bool, area: Rect, part: Rect) -> bool {
    &&& side_by_side ==> part.y == area.y && part.height == area.height
    &&& !side_by_side ==> part.x == area.x && part.width == area.width
    &&& start(side_by_side, area) <= start(side_by_side, part)
    &&& start(side_by_side, part) + length(side_by_side, part) <= start(side_by_side, area) + span(
        side_by_side,
        area,
    )
}

/// Whether the parts follow one another from the start of `area` on, with no gap
/// between them and no overlap.
pub open spec fn in_order(side_by_side: bool, area: Rect, parts: Seq<Rect>) -> bool {
    forall|i: int|
        0 <= i < parts.len() ==> start(side_by_side, #[trigger] parts[i]) == if i == 0 {
            start(side_by_side, area)
        } else {
            start(side_by_side, parts[i - 1]) + length(side_by_side, parts[i - 1])
        }
}

/// What the first `n` of some parts of `span` cells ask for together, in
/// hundredths of a cell.
pub open spec fn asked(measures: Seq<Measure>, span: int, n: int) -> int
    decreases n,
{
    if n <= 0 {
        0
    } else {
        asked(measures, span, n - 1) + match measures[n - 1] {
            Measure::Percentage(percent) => percent * span,
            Measure::Length(cells) => 100 * cells,
            Measure::Min(cells) => 100 * cells,
        }
    }
}

/// Hundredths of a cell, rounded to whole cells.
pub open spec fn rounded(hundredths: int) -> int {
    (hundredths + 50) / 100
}

/// Whether `end` is where the part `i` may end, counted from the start of the
/// area. If the parts together ask for no more than there is, each gets what it
/// asks for. If they ask for more, the area is used up, and no part gets more
/// than it asks for.
pub open spec fn ends_at(measures: Seq<Measure>, span: int, i: int, end: int) -> bool {
    let before = asked(measures, span, i + 1);
    let total = asked(measures, span, measures.len() as int);
    if total <= 100 * span {
        end == rounded(before)
    } else {
        rounded(100 * span - (total - before)) <= end <= rounded(before)
    }
}

/// Whether no part asks for a minimum.
pub open spec fn has_no_minimum(measures: Seq<Measure>) -> bool {
    forall|i: int| 0 <= i < measures.len() ==> !((#[trigger] measures[i]) is Min)
}

/// Whether the part `i` asks for a length, and all others for percentages.
pub open spec fn is_lone_length(measures: Seq<Measure>, i: int) -> bool {
    &&& measures[i] is Length
    &&& forall|j: int|
        0 <= j < measures.len() && j != i ==> (#[trigger] measures[j]) is Percentage
}

pub open spec fn smaller(a: int, b: int) -> int {
    if a <= b {
        a
    } else {
        b
    }
}

/// `ratatui::layout::Layout::split`, for a layout made by `Layout::new`: no margin,
/// no spacing, aligned to the start. It returns one rectangle for each constraint;
/// across the direction of the split each has the area's own position and size,
/// and along it each lies within the area, which the solver is given as a required
/// constraint.
///
/// Without minimums, the documentation of the constraints and of their priorities
/// gives the rest. The parts follow one another from the area's start, as spacing
/// zero says. Lengths and percentages of the whole area are met where they fit,
/// positions rounded to cells. Where they do not fit nothing is left over and none
/// is exceeded, and a length goes before percentages. A minimum of nothing before a
/// length leaves the length what it asks for and takes the rest.
///
/// How a shortage is shared among percentages is not stated: the documentation
/// calls that result indeterminate, and the solver walks hash maps that each
/// process seeds anew. `possible_split` only ties it to what was asked for.
#[verifier::external_body]
fn split(side_by_side: bool, measures: &[Measure], area: Rect) -> (parts: Vec<Rect>)
    ensures
        possible_split(side_by_side, measures@, area, parts@),
        parts@.len() == measures@.len(),
        forall|i: int| 0 <= i < parts@.len() ==> is_slice(side_by_side, area, #[trigger] parts@[i]),
        has_no_minimum(measures@) ==> in_order(side_by_side, area, parts@),
        has_no_minimum(measures@) ==> forall|i: int|
            0 <= i < parts@.len() ==> ends_at(
                measures@,
                span(side_by_side, area),
                i,
                start(side_by_side, #[trigger] parts@[i]) + length(side_by_side, parts@[i]) - start(
                    side_by_side,
                    area,
                ),
            ),
        forall|i: int|
            0 <= i < parts@.len() && is_lone_length(measures@, i) ==> length(
                side_by_side,
                #[trigger] parts@[i],
            ) == smaller(measures@[i]->Length_0 as int, span(side_by_side, area)),
        measures@.len() == 2 && measures@[0] == Measure::Min(0) && measures@[1] is Length ==> {
            &&& in_order(side_by_side, area, parts@)
            &&& length(side_by_side, parts@[1]) == smaller(
                measures@[1]->Length_0 as int,
                span(side_by_side, area),
            )
            &&& length(side_by_side, parts@[0]) + length(side_by_side, parts@[1]) == span(
                side_by_side,
                area,
            )
        },
{
    let direction = match side_by_side {
        true => ratatui::layout::Direction::Horizontal,
        false => ratatui::layout::Direction::Vertical,
    };
    let constraints = measures.iter().map(|m| match m {
        Measure::Percentage(p) => Constraint::Percentage(*p),
        Measure::Length(n) => Constraint::Length(*n),
        Measure::Min(n) => Constraint::Min(*n),
    });
    let area = ratatui::layout::Rect { x: area.x, y: area.y, width: area.width, height: area.height };
    let parts = Layout::new(direction, constraints).split(area);
    parts.iter().map(|r| Rect { x: r.x, y: r.y, width: r.width, height: r.height }).collect()
}

/// What is left of a hundred percent.
pub open spec fn complement(percent: u16) -> u16 {
    if percent <= 100 {
        (100 - percent) as u16
    } else {
        0
    }
}

/// What the parts of a split ask for: the two shares, and between panes that
/// stand side by side the gap.
pub open spec fn split_measures(dir: SplitDir, percent: u16) -> Seq<Measure> {
    match dir {
        SplitDir::Vertical => seq![
            Measure::Percentage(percent),
            Measure::Length(PANE_GAP),
            Measure::Percentage(complement(percent)),
        ],
        SplitDir::Horizontal => seq![
            Measure::Percentage(percent),
            Measure::Percentage(complement(percent)),
        ],
    }
}

/// A layout with the area of each of its parts. `divider` is where a split can be
/// grabbed: the gap between panes that stand side by side, or the title row of
/// the lower one of two stacked panes.
#[derive(Debug, PartialEq, Eq)]
pub enum Placement {
    Leaf { pane: ClientPaneId, area: Rect },
    Split {
        split: SplitId,
        dir: SplitDir,
        area: Rect,
        divider: Rect,
        a: Box<Placement>,
        b: Box<Placement>,
    },
}

impl Placement {
    /// The area of the whole.
    pub open spec fn bounds(self) -> Rect {
        match self {
            Placement::Leaf { area, .. } => area,
            Placement::Split { area, .. } => area,
        }
    }

    /// The panes with their areas, first child before second.
    pub open spec fn leaves(self) -> Seq<(ClientPaneId, Rect)>
        decreases self,
    {
        match self {
            Placement::Leaf { pane, area } => seq![(pane, area)],
            Placement::Split { a, b, .. } => a.leaves() + b.leaves(),
        }
    }

    /// The dividers, each before those of the two sides it divides.
    pub open spec fn dividers(self) -> Seq<DividerHit>
        decreases self,
    {
        match self {
            Placement::Leaf { .. } => seq![],
            Placement::Split { split, dir, area, divider, a, b } => seq![
                DividerHit { split, dir, grab_zone: divider, parent_area: area },
            ] + a.dividers() + b.dividers(),
        }
    }
}

/// The cells that `percent` percent of `span` cells are, no more than there are.
pub open spec fn share(span: int, percent: int) -> int {
    smaller(rounded(span * percent), span)
}

/// The first `n` rows of `area`.
pub open spec fn upper_rows(area: Rect, n: int) -> Rect {
    Rect { height: n as u16, ..area }
}

/// The rows of `area` below the first `n`.
pub open spec fn lower_rows(area: Rect, n: int) -> Rect {
    Rect { y: (area.y + n) as u16, height: (span(false, area) - n) as u16, ..area }
}

/// Whether `a`, `b` and `divider` are how a split of `area` may come out. Stacked
/// panes share the rows out by percentage. Panes that stand side by side do so too,
/// but for the columns of the gap, which may come off either.
pub open spec fn is_divided(
    dir: SplitDir,
    percent: u16,
    area: Rect,
    a: Rect,
    divider: Rect,
    b: Rect,
) -> bool {
    match dir {
        SplitDir::Vertical => {
            let wanted = share(span(true, area), percent as int);
            &&& possible_split(true, split_measures(dir, percent), area, seq![a, divider, b])
            &&& is_slice(true, area, a)
            &&& is_slice(true, area, divider)
            &&& is_slice(true, area, b)
            &&& a.x == area.x
            &&& wanted - PANE_GAP <= a.width <= wanted
            &&& divider.x == a.x + a.width
            &&& divider.width == smaller(PANE_GAP as int, span(true, area))
            &&& b.x == divider.x + divider.width
            &&& b.x + b.width == area.x + span(true, area)
        },
        SplitDir::Horizontal => {
            let rows = share(span(false, area), percent as int);
            &&& a == upper_rows(area, rows)
            &&& b == lower_rows(area, rows)
            &&& divider == Rect { height: 1, ..b }
        },
    }
}

/// Whether `placement` is a way in which `tree` may fill `area`.
pub open spec fn places(tree: SplitTree, area: Rect, placement: Placement) -> bool
    decreases tree,
{
    match (tree, placement) {
        (SplitTree::Leaf(pane), Placement::Leaf { pane: id, area: bounds }) => id == pane.id
            && bounds == area,
        (
            SplitTree::Split { id, dir, percent, a, b },
            Placement::Split { split, dir: placed_dir, area: bounds, divider, a: pa, b: pb },
        ) => {
            &&& split == id
            &&& placed_dir == dir
            &&& bounds == area
            &&& is_divided(dir, percent, area, pa.bounds(), divider, pb.bounds())
            &&& places(*a, pa.bounds(), *pa)
            &&& places(*b, pb.bounds(), *pb)
        },
        _ => false,
    }
}

/// A split's share while its divider is dragged.
#[derive(Debug, Clone, Copy, PartialEq, Eq, Structural)]
pub struct LiveShare {
    pub split: SplitId,
    pub percent: u16,
}

/// The tree as it looks during a drag.
pub open spec fn with_live_share(tree: SplitTree, live: Option<LiveShare>) -> SplitTree {
    match live {
        Some(live) => tree.with_share(live.split, live.percent),
        None => tree,
    }
}

/// How the columns come apart: the percentages ask for all of them, so the gap is
/// short on either side.
proof fn columns_are_divided(percent: u16, area: Rect, parts: Seq<Rect>)
    requires
        ({
            let measures = split_measures(SplitDir::Vertical, percent);
            &&& parts.len() == 3
            &&& possible_split(true, measures, area, parts)
            &&& in_order(true, area, parts)
            &&& forall|i: int| 0 <= i < 3 ==> is_slice(true, area, #[trigger] parts[i])
            &&& forall|i: int|
                0 <= i < 3 ==> ends_at(
                    measures,
                    span(true, area),
                    i,
                    start(true, #[trigger] parts[i]) + length(true, parts[i]) - start(true, area),
                )
            &&& length(true, parts[1]) == smaller(PANE_GAP as int, span(true, area))
        }),
    ensures
        is_divided(SplitDir::Vertical, percent, area, parts[0], parts[1], parts[2]),
{
    let measures = split_measures(SplitDir::Vertical, percent);
    let s = span(true, area);
    let rest = complement(percent);
    reveal_with_fuel(asked, 4);
    assert(parts =~= seq![parts[0], parts[1], parts[2]]);
    assert(percent * s + rest * s >= 100 * s) by (nonlinear_arith)
        requires
            percent + rest >= 100,
            s >= 0,
    ;
    assert(percent <= 100 ==> percent * s + rest * s == 100 * s) by (nonlinear_arith)
        requires
            percent <= 100 ==> percent + rest == 100,
    ;
    assert(rest == 0 ==> rest * s == 0) by (nonlinear_arith);
    assert(percent > 100 ==> percent * s >= 100 * s) by (nonlinear_arith)
        requires
            s >= 0,
    ;
    assert(s * percent == percent * s) by (nonlinear_arith);
    assert(start(true, parts[0]) == start(true, area));
    assert(start(true, parts[1]) == start(true, parts[0]) + length(true, parts[0]));
    assert(start(true, parts[2]) == start(true, parts[1]) + length(true, parts[1]));
}

/// How the rows come apart: the percentages ask for all of them.
proof fn rows_are_divided(percent: u16, area: Rect, parts: Seq<Rect>)
    requires
        ({
            let measures = split_measures(SplitDir::Horizontal, percent);
            &&& parts.len() == 2
            &&& in_order(false, area, parts)
            &&& forall|i: int| 0 <= i < 2 ==> is_slice(false, area, #[trigger] parts[i])
            &&& forall|i: int|
                0 <= i < 2 ==> ends_at(
                    measures,
                    span(false, area),
                    i,
                    start(false, #[trigger] parts[i]) + length(false, parts[i]) - start(false, area),
                )
        }),
    ensures
        is_divided(
            SplitDir::Horizontal,
            percent,
            area,
            parts[0],
            Rect { height: 1, ..parts[1] },
            parts[1],
        ),
{
    let s = span(false, area);
    let rest = complement(percent);
    reveal_with_fuel(asked, 3);
    assert(percent <= 100 ==> percent * s + rest * s == 100 * s) by (nonlinear_arith)
        requires
            percent <= 100 ==> percent + rest == 100,
    ;
    assert(percent <= 100 ==> percent * s <= 100 * s) by (nonlinear_arith)
        requires
            s >= 0,
    ;
    assert(rest == 0 ==> rest * s == 0) by (nonlinear_arith);
    assert(percent > 100 ==> percent * s >= 100 * s) by (nonlinear_arith)
        requires
            s >= 0,
    ;
    assert(s * percent == percent * s) by (nonlinear_arith);
    assert(start(false, parts[0]) == start(false, area));
    assert(start(false, parts[1]) == start(false, parts[0]) + length(false, parts[0]));
}

/// Lay `tree` out in `area`, a dragged divider where it is now.
pub fn place(tree: &SplitTree, area: Rect, live: Option<LiveShare>) -> (r: Placement)
    ensures
        places(with_live_share(*tree, live), area, r),
        r.bounds() == area,
    decreases tree,
{
    match tree {
        SplitTree::Leaf(pane) => Placement::Leaf { pane: pane.id, area },
        SplitTree::Split { id, dir, percent, a, b } => {
            let percent: u16 = match live {
                Some(live) => if live.split == *id {
                    live.percent
                } else {
                    *percent
                },
                None => *percent,
            };
            let rest: u16 = if percent <= 100 {
                100 - percent
            } else {
                0
            };
            match dir {
                SplitDir::Vertical => {
                    let measures: [Measure; 3] = [
                        Measure::Percentage(percent),
                        Measure::Length(PANE_GAP),
                        Measure::Percentage(rest),
                    ];
                    let parts = split(true, &measures, area);
                    proof {
                        assert(measures@ =~= split_measures(*dir, percent));
                        assert(parts@ =~= seq![parts@[0], parts@[1], parts@[2]]);
                        columns_are_divided(percent, area, parts@);
                    }
                    let pa = place(a, parts[0], live);
                    let pb = place(b, parts[2], live);
                    Placement::Split {
                        split: *id,
                        dir: *dir,
                        area,
                        divider: parts[1],
                        a: Box::new(pa),
                        b: Box::new(pb),
                    }
                },
                SplitDir::Horizontal => {
                    let measures: [Measure; 2] = [
                        Measure::Percentage(percent),
                        Measure::Percentage(rest),
                    ];
                    let parts = split(false, &measures, area);
                    proof {
                        assert(measures@ =~= split_measures(*dir, percent));
                        rows_are_divided(percent, area, parts@);
                    }
                    let pa = place(a, parts[0], live);
                    let pb = place(b, parts[1], live);
                    Placement::Split {
                        split: *id,
                        dir: *dir,
                        area,
                        divider: Rect { height: 1, ..parts[1] },
                        a: Box::new(pa),
                        b: Box::new(pb),
                    }
                },
            }
        },
    }
}

/// A divider on the screen: where it can be grabbed, and the area it divides.
#[derive(Debug, Clone, Copy, PartialEq, Eq, Structural)]
pub struct DividerHit {
    pub split: SplitId,
    pub dir: SplitDir,
    pub grab_zone: Rect,
    pub parent_area: Rect,
}

fn collect_leaf_rects(placement: &Placement, out: &mut Vec<(ClientPaneId, Rect)>)
    ensures
        final(out)@ == old(out)@ + placement.leaves(),
    decreases placement,
{
    match placement {
        Placement::Leaf { pane, area } => {
            out.push((*pane, *area));
        },
        Placement::Split { a, b, .. } => {
            collect_leaf_rects(a, out);
            collect_leaf_rects(b, out);
        },
    }
    assert(out@ =~= old(out)@ + placement.leaves());
}

fn collect_divider_rects(placement: &Placement, out: &mut Vec<DividerHit>)
    ensures
        final(out)@ == old(out)@ + placement.dividers(),
    decreases placement,
{
    match placement {
        Placement::Leaf { .. } => {},
        Placement::Split { split, dir, area, divider, a, b } => {
            out.push(
                DividerHit { split: *split, dir: *dir, grab_zone: *divider, parent_area: *area },
            );
            collect_divider_rects(a, out);
            collect_divider_rects(b, out);
        },
    }
    assert(out@ =~= old(out)@ + placement.dividers());
}

impl Placement {
    /// The panes with their areas.
    pub fn leaf_rects(&self) -> (r: Vec<(ClientPaneId, Rect)>)
        ensures
            r@ == self.leaves(),
    {
        let mut out: Vec<(ClientPaneId, Rect)> = Vec::new();
        collect_leaf_rects(self, &mut out);
        assert(out@ =~= self.leaves());
        out
    }

    /// The dividers.
    pub fn divider_rects(&self) -> (r: Vec<DividerHit>)
        ensures
            r@ == self.dividers(),
    {
        let mut out: Vec<DividerHit> = Vec::new();
        collect_divider_rects(self, &mut out);
        assert(out@ =~= self.dividers());
        out
    }
}

/// Every pane's area on screen.
pub fn leaf_rects(tree: &SplitTree, area: Rect) -> (r: Vec<(ClientPaneId, Rect)>)
    ensures
        exists|p: Placement| #[trigger] places(*tree, area, p) && r@ == p.leaves(),
{
    place(tree, area, None).leaf_rects()
}

/// Every divider's place on screen.
pub fn divider_rects(tree: &SplitTree, area: Rect) -> (r: Vec<DividerHit>)
    ensures
        exists|p: Placement| #[trigger] places(*tree, area, p) && r@ == p.dividers(),
{
    place(tree, area, None).divider_rects()
}

/// However the solver shares out the cells, a layout shows exactly the tree's
/// panes, in order, and each within the area.
pub proof fn panes_lie_in_the_area(tree: SplitTree, area: Rect, placement: Placement)
    requires
        places(tree, area, placement),
    ensures
        placement.bounds() == area,
        placement.leaves().len() == tree.panes().len(),
        forall|i: int|
            0 <= i < tree.panes().len() ==> (#[trigger] placement.leaves()[i]).0
                == tree.panes()[i].id && placement.leaves()[i].1.inside(area),
    decreases tree,
{
    match (tree, placement) {
        (SplitTree::Split { a, b, .. }, Placement::Split { a: pa, b: pb, .. }) => {
            panes_lie_in_the_area(*a, pa.bounds(), *pa);
            panes_lie_in_the_area(*b, pb.bounds(), *pb);
            assert(pa.bounds().inside(area));
            assert(pb.bounds().inside(area));
            assert forall|i: int| 0 <= i < tree.panes().len() implies (
            #[trigger] placement.leaves()[i]).0 == tree.panes()[i].id
                && placement.leaves()[i].1.inside(area) by {
                if i < a.panes().len() {
                    assert(placement.leaves()[i] == pa.leaves()[i]);
                } else {
                    assert(placement.leaves()[i] == pb.leaves()[i - a.panes().len()]);
                }
            }
        },
        _ => {},
    }
}

/// How many of the panes have the cell `(col, row)`.
pub open spec fn panes_over(leaves: Seq<(ClientPaneId, Rect)>, col: int, row: int) -> nat
    decreases leaves.len(),
{
    if leaves.len() == 0 {
        0
    } else {
        panes_over(leaves.drop_last(), col, row) + if leaves.last().1.covers(col, row) {
            1nat
        } else {
            0
        }
    }
}

/// How many of the gaps between panes that stand side by side have the cell
/// `(col, row)`.
pub open spec fn gaps_over(dividers: Seq<DividerHit>, col: int, row: int) -> nat
    decreases dividers.len(),
{
    if dividers.len() == 0 {
        0
    } else {
        gaps_over(dividers.drop_last(), col, row) + if dividers.last().dir == SplitDir::Vertical
            && dividers.last().grab_zone.covers(col, row) {
            1nat
        } else {
            0
        }
    }
}

proof fn panes_over_both(
    a: Seq<(ClientPaneId, Rect)>,
    b: Seq<(ClientPaneId, Rect)>,
    col: int,
    row: int,
)
    ensures
        panes_over(a + b, col, row) == panes_over(a, col, row) + panes_over(b, col, row),
    decreases b.len(),
{
    if b.len() == 0 {
        assert(a + b =~= a);
    } else {
        assert((a + b).drop_last() =~= a + b.drop_last());
        panes_over_both(a, b.drop_last(), col, row);
    }
}

proof fn gaps_over_both(a: Seq<DividerHit>, b: Seq<DividerHit>, col: int, row: int)
    ensures
        gaps_over(a + b, col, row) == gaps_over(a, col, row) + gaps_over(b, col, row),
    decreases b.len(),
{
    if b.len() == 0 {
        assert(a + b =~= a);
    } else {
        assert((a + b).drop_last() =~= a + b.drop_last());
        gaps_over_both(a, b.drop_last(), col, row);
    }
}

/// However the solver shares out the cells, each cell of the area belongs to
/// exactly one pane, or to exactly one gap between panes that stand side by side;
/// and no pane or gap has a cell outside of it.
pub proof fn every_cell_has_one_place(
    tree: SplitTree,
    area: Rect,
    placement: Placement,
    col: int,
    row: int,
)
    requires
        places(tree, area, placement),
        area.x + area.width <= u16::MAX,
        area.y + area.height <= u16::MAX,
    ensures
        panes_over(placement.leaves(), col, row) + gaps_over(placement.dividers(), col, row)
            == if area.covers(col, row) {
            1nat
        } else {
            0
        },
    decreases tree,
{
    match (tree, placement) {
        (
            SplitTree::Split { percent, a, b, .. },
            Placement::Split { split, dir, area: bounds, divider, a: pa, b: pb },
        ) => {
            every_cell_has_one_place(*a, pa.bounds(), *pa, col, row);
            every_cell_has_one_place(*b, pb.bounds(), *pb, col, row);
            let own = seq![DividerHit { split, dir, grab_zone: divider, parent_area: bounds }];
            panes_over_both(pa.leaves(), pb.leaves(), col, row);
            gaps_over_both(own + pa.dividers(), pb.dividers(), col, row);
            gaps_over_both(own, pa.dividers(), col, row);
            reveal_with_fuel(gaps_over, 2);
            assert(own.drop_last() =~= seq![]);
        },
        (SplitTree::Leaf(_), Placement::Leaf { pane, area: bounds }) => {
            reveal_with_fuel(panes_over, 2);
            let own = seq![(pane, bounds)];
            assert(own.drop_last() =~= seq![]);
            assert(placement.leaves() =~= own);
            assert(gaps_over(placement.dividers(), col, row) == 0);
        },
        _ => {},
    }
}

/// Which dividers can be grabbed at `(col, row)`.
pub open spec fn grabbed_at(hits: Seq<DividerHit>, col: u16, row: u16) -> spec_fn(int) -> bool {
    |i: int| hits[i].grab_zone.covers(col as int, row as int)
}

/// The first divider whose grab zone holds `(col, row)`.
pub open spec fn divider_at(hits: Seq<DividerHit>, col: u16, row: u16) -> Option<DividerHit> {
    match first_where(grabbed_at(hits, col, row), 0, hits.len() as int) {
        Some(i) => Some(hits[i]),
        None => None,
    }
}

/// The first divider whose grab zone holds `(col, row)`.
pub fn find_divider_at(hits: &Vec<DividerHit>, col: u16, row: u16) -> (r: Option<DividerHit>)
    ensures
        r == divider_at(hits@, col, row),
{
    let ghost p = grabbed_at(hits@, col, row);
    let mut i: usize = 0;
    while i < hits.len()
        invariant
            i <= hits@.len(),
            p == grabbed_at(hits@, col, row),
            forall|j: int| 0 <= j < i ==> !#[trigger] p(j),
        decreases hits@.len() - i,
    {
        if hits[i].grab_zone.contains(col, row) {
            proof {
                first_where_is(p, 0, hits@.len() as int, i as int);
            }
            return Some(hits[i]);
        }
        i += 1;
    }
    proof {
        first_where_none(p, 0, hits@.len() as int);
    }
    None
}

/// The split whose divider can be grabbed at `(col, row)`.
pub fn hit_test_dividers(hits: &Vec<DividerHit>, col: u16, row: u16) -> (r: Option<SplitId>)
    ensures
        r == match divider_at(hits@, col, row) {
            Some(hit) => Some(hit.split),
            None => None::<SplitId>,
        },
{
    match find_divider_at(hits, col, row) {
        Some(hit) => Some(hit.split),
        None => None,
    }
}

/// Which dividers belong to `split`.
pub open spec fn divides(hits: Seq<DividerHit>, split: SplitId) -> spec_fn(int) -> bool {
    |i: int| hits[i].split == split
}

/// The first divider of `split`.
pub open spec fn divider_of(hits: Seq<DividerHit>, split: SplitId) -> Option<DividerHit> {
    match first_where(divides(hits, split), 0, hits.len() as int) {
        Some(i) => Some(hits[i]),
        None => None,
    }
}

/// The first divider of `split`.
pub fn find_divider_of(hits: &Vec<DividerHit>, split: SplitId) -> (r: Option<DividerHit>)
    ensures
        r == divider_of(hits@, split),
{
    let ghost p = divides(hits@, split);
    let mut i: usize = 0;
    while i < hits.len()
        invariant
            i <= hits@.len(),
            p == divides(hits@, split),
            forall|j: int| 0 <= j < i ==> !#[trigger] p(j),
        decreases hits@.len() - i,
    {
        if hits[i].split == split {
            proof {
                first_where_is(p, 0, hits@.len() as int, i as int);
            }
            return Some(hits[i]);
        }
        i += 1;
    }
    proof {
        first_where_none(p, 0, hits@.len() as int);
    }
    None
}

/// The share that a divider dragged to `(col, row)` stands for: how much of the
/// divided area lies before that position, along the direction of the split.
pub open spec fn dragged_ratio(hit: DividerHit, col: u16, row: u16) -> Ratio {
    match hit.dir {
        SplitDir::Vertical => Ratio {
            offset: if col >= hit.parent_area.x {
                (col - hit.parent_area.x) as u16
            } else {
                0
            },
            span: if hit.parent_area.width >= 1 {
                hit.parent_area.width
            } else {
                1
            },
        },
        SplitDir::Horizontal => Ratio {
            offset: if row >= hit.parent_area.y {
                (row - hit.parent_area.y) as u16
            } else {
                0
            },
            span: if hit.parent_area.height >= 1 {
                hit.parent_area.height
            } else {
                1
            },
        },
    }
}

/// The share that a divider dragged to `(col, row)` stands for.
pub fn ratio_at(hit: &DividerHit, col: u16, row: u16) -> (r: Ratio)
    ensures
        r == dragged_ratio(*hit, col, row),
        r.span > 0,
{
    let (offset, span): (u16, u16) = match hit.dir {
        SplitDir::Vertical => (
            if col >= hit.parent_area.x {
                col - hit.parent_area.x
            } else {
                0
            },
            hit.parent_area.width,
        ),
        SplitDir::Horizontal => (
            if row >= hit.parent_area.y {
                row - hit.parent_area.y
            } else {
                0
            },
            hit.parent_area.height,
        ),
    };
    Ratio {
        offset,
        span: if span >= 1 {
            span
        } else {
            1
        },
    }
}

/// Which panes show at `(col, row)`.
pub open spec fn shows_at(leaves: Seq<(ClientPaneId, Rect)>, col: u16, row: u16) -> spec_fn(
    int,
) -> bool {
    |i: int| leaves[i].1.covers(col as int, row as int)
}

/// The first pane that shows at `(col, row)`.
pub open spec fn leaf_at(leaves: Seq<(ClientPaneId, Rect)>, col: u16, row: u16) -> Option<
    (ClientPaneId, Rect),
> {
    match first_where(shows_at(leaves, col, row), 0, leaves.len() as int) {
        Some(i) => Some(leaves[i]),
        None => None,
    }
}

/// The first pane that shows at `(col, row)`.
pub fn find_leaf_at(leaves: &Vec<(ClientPaneId, Rect)>, col: u16, row: u16) -> (r: Option<
    (ClientPaneId, Rect),
>)
    ensures
        r == leaf_at(leaves@, col, row),
{
    let ghost p = shows_at(leaves@, col, row);
    let mut i: usize = 0;
    while i < leaves.len()
        invariant
            i <= leaves@.len(),
            p == shows_at(leaves@, col, row),
            forall|j: int| 0 <= j < i ==> !#[trigger] p(j),
        decreases leaves@.len() - i,
    {
        if leaves[i].1.contains(col, row) {
            proof {
                first_where_is(p, 0, leaves@.len() as int, i as int);
            }
            return Some(leaves[i]);
        }
        i += 1;
    }
    proof {
        first_where_none(p, 0, leaves@.len() as int);
    }
    None
}

/// Which entries are the pane `id`.
pub open spec fn is_pane(leaves: Seq<(ClientPaneId, Rect)>, id: ClientPaneId) -> spec_fn(
    int,
) -> bool {
    |i: int| leaves[i].0 == id
}

/// The area of the pane `id`.
pub open spec fn area_of(leaves: Seq<(ClientPaneId, Rect)>, id: ClientPaneId) -> Option<Rect> {
    match first_where(is_pane(leaves, id), 0, leaves.len() as int) {
        Some(i) => Some(leaves[i].1),
        None => None,
    }
}

/// The area of the pane `id`.
pub fn find_area_of(leaves: &Vec<(ClientPaneId, Rect)>, id: ClientPaneId) -> (r: Option<Rect>)
    ensures
        r == area_of(leaves@, id),
{
    let ghost p = is_pane(leaves@, id);
    let mut i: usize = 0;
    while i < leaves.len()
        invariant
            i <= leaves@.len(),
            p == is_pane(leaves@, id),
            forall|j: int| 0 <= j < i ==> !#[trigger] p(j),
        decreases leaves@.len() - i,
    {
        if leaves[i].0 == id {
            proof {
                first_where_is(p, 0, leaves@.len() as int, i as int);
            }
            return Some(leaves[i].1);
        }
        i += 1;
    }
    proof {
        first_where_none(p, 0, leaves@.len() as int);
    }
    None
}

/// Whether `other` lies wholly on that side of `focused`.
pub open spec fn lies_toward(focused: Rect, other: Rect, direction: Direction) -> bool {
    match direction {
        Direction::Left => other.x + other.width <= focused.x,
        Direction::Right => other.x >= focused.x + focused.width,
        Direction::Up => other.y + other.height <= focused.y,
        Direction::Down => other.y >= focused.y + focused.height,
    }
}

/// How far `other` is away in that direction.
pub open spec fn gap_toward(focused: Rect, other: Rect, direction: Direction) -> int {
    match direction {
        Direction::Left => focused.x - (other.x + other.width),
        Direction::Right => other.x - (focused.x + focused.width),
        Direction::Up => focused.y - (other.y + other.height),
        Direction::Down => other.y - (focused.y + focused.height),
    }
}

/// The number of cells that two ranges have in common.
pub open spec fn common(a: int, a_end: int, b: int, b_end: int) -> int {
    let start = if a >= b {
        a
    } else {
        b
    };
    let end = if a_end <= b_end {
        a_end
    } else {
        b_end
    };
    if end > start {
        end - start
    } else {
        0
    }
}

/// How much the two face each other, across that direction.
pub open spec fn overlap_across(focused: Rect, other: Rect, direction: Direction) -> int {
    match direction {
        Direction::Left | Direction::Right => common(
            focused.y as int,
            focused.y + focused.height,
            other.y as int,
            other.y + other.height,
        ),
        Direction::Up | Direction::Down => common(
            focused.x as int,
            focused.x + focused.width,
            other.x as int,
            other.x + other.width,
        ),
    }
}

/// Whether `a` is a better neighbour than `b`: nearer, or as near and more
/// directly opposite.
pub open spec fn nearer(focused: Rect, a: Rect, b: Rect, direction: Direction) -> bool {
    let gap_a = gap_toward(focused, a, direction);
    let gap_b = gap_toward(focused, b, direction);
    gap_a < gap_b || (gap_a == gap_b && overlap_across(focused, a, direction) > overlap_across(
        focused,
        b,
        direction,
    ))
}

/// Whether the `i`th pane is the neighbour in that direction: none is better,
/// and of equally good ones it is the first.
pub open spec fn is_neighbour(
    leaves: Seq<(ClientPaneId, Rect)>,
    focused: Rect,
    direction: Direction,
    i: int,
) -> bool {
    &&& 0 <= i < leaves.len()
    &&& lies_toward(focused, leaves[i].1, direction)
    &&& forall|j: int|
        0 <= j < leaves.len() && lies_toward(focused, (#[trigger] leaves[j]).1, direction)
            ==> !nearer(focused, leaves[j].1, leaves[i].1, direction) && (j < i ==> nearer(
            focused,
            leaves[i].1,
            leaves[j].1,
            direction,
        ))
}

/// Whether `to` is the neighbour in that direction of a pane at `focused`, or
/// `None` if it has none.
pub open spec fn is_neighbour_of(
    leaves: Seq<(ClientPaneId, Rect)>,
    focused: Rect,
    direction: Direction,
    to: Option<ClientPaneId>,
) -> bool {
    match to {
        Some(id) => exists|i: int| #[trigger]
            is_neighbour(leaves, focused, direction, i) && leaves[i].0 == id,
        None => forall|j: int|
            0 <= j < leaves.len() ==> !lies_toward(focused, (#[trigger] leaves[j]).1, direction),
    }
}

/// The area of the focused pane, if it is on screen.
pub open spec fn focused_area(
    leaves: Seq<(ClientPaneId, Rect)>,
    current: Option<ClientPaneId>,
) -> Option<Rect> {
    match current {
        Some(id) => area_of(leaves, id),
        None => None,
    }
}

/// Whether focus moves to `to` from `current` in that direction. A focus that is
/// not on screen moves to the first pane; where there is no neighbour it does not
/// move.
pub open spec fn focus_moves(
    leaves: Seq<(ClientPaneId, Rect)>,
    current: Option<ClientPaneId>,
    direction: Direction,
    to: Option<ClientPaneId>,
) -> bool {
    if leaves.len() == 0 {
        to is None
    } else {
        match focused_area(leaves, current) {
            None => to == Some(leaves[0].0),
            Some(rect) => is_neighbour_of(leaves, rect, direction, to),
        }
    }
}

fn is_in_direction(focused: Rect, other: Rect, direction: Direction) -> (r: bool)
    ensures
        r == lies_toward(focused, other, direction),
{
    match direction {
        Direction::Left => other.x as u32 + other.width as u32 <= focused.x as u32,
        Direction::Right => other.x as u32 >= focused.x as u32 + focused.width as u32,
        Direction::Up => other.y as u32 + other.height as u32 <= focused.y as u32,
        Direction::Down => other.y as u32 >= focused.y as u32 + focused.height as u32,
    }
}

fn axis_gap(focused: Rect, other: Rect, direction: Direction) -> (r: u32)
    requires
        lies_toward(focused, other, direction),
    ensures
        r == gap_toward(focused, other, direction),
{
    match direction {
        Direction::Left => focused.x as u32 - (other.x as u32 + other.width as u32),
        Direction::Right => other.x as u32 - (focused.x as u32 + focused.width as u32),
        Direction::Up => focused.y as u32 - (other.y as u32 + other.height as u32),
        Direction::Down => other.y as u32 - (focused.y as u32 + focused.height as u32),
    }
}

fn perpendicular_overlap(focused: Rect, other: Rect, direction: Direction) -> (r: u32)
    ensures
        r == overlap_across(focused, other, direction),
{
    let (a, a_end, b, b_end): (u32, u32, u32, u32) = match direction {
        Direction::Left | Direction::Right => (
            focused.y as u32,
            focused.y as u32 + focused.height as u32,
            other.y as u32,
            other.y as u32 + other.height as u32,
        ),
        Direction::Up | Direction::Down => (
            focused.x as u32,
            focused.x as u32 + focused.width as u32,
            other.x as u32,
            other.x as u32 + other.width as u32,
        ),
    };
    let start: u32 = if a >= b {
        a
    } else {
        b
    };
    let end: u32 = if a_end <= b_end {
        a_end
    } else {
        b_end
    };
    if end > start {
        end - start
    } else {
        0
    }
}

fn is_nearer(focused: Rect, a: Rect, b: Rect, direction: Direction) -> (r: bool)
    requires
        lies_toward(focused, a, direction),
        lies_toward(focused, b, direction),
    ensures
        r == nearer(focused, a, b, direction),
{
    let gap_a = axis_gap(focused, a, direction);
    let gap_b = axis_gap(focused, b, direction);
    gap_a < gap_b || (gap_a == gap_b && perpendicular_overlap(focused, a, direction)
        > perpendicular_overlap(focused, b, direction))
}

/// The pane that focus moves to.
pub fn neighbour_of(
    leaves: &Vec<(ClientPaneId, Rect)>,
    current: Option<ClientPaneId>,
    direction: Direction,
) -> (r: Option<ClientPaneId>)
    ensures
        focus_moves(leaves@, current, direction, r),
{
    if leaves.len() == 0 {
        return None;
    }
    let focused = match current {
        Some(id) => find_area_of(leaves, id),
        None => None,
    };
    let focused = match focused {
        None => {
            return Some(leaves[0].0);
        },
        Some(rect) => rect,
    };
    let mut best: Option<usize> = None;
    let mut i: usize = 0;
    while i < leaves.len()
        invariant
            i <= leaves@.len(),
            match best {
                None => forall|j: int|
                    0 <= j < i ==> !lies_toward(focused, (#[trigger] leaves@[j]).1, direction),
                Some(b) => b < i && is_neighbour(leaves@.take(i as int), focused, direction, b as int),
            },
        decreases leaves@.len() - i,
    {
        let ghost before = leaves@.take(i as int);
        let ghost after = leaves@.take(i + 1);
        let rect = leaves[i].1;
        if is_in_direction(focused, rect, direction) {
            let better = match best {
                None => true,
                Some(b) => {
                    assert(before[b as int] == leaves@[b as int]);
                    is_nearer(focused, rect, leaves[b].1, direction)
                },
            };
            if better {
                best = Some(i);
            }
        }
        proof {
            match best {
                None => {},
                Some(b) => {
                    assert(after[i as int] == leaves@[i as int]);
                    assert(after[b as int] == leaves@[b as int]);
                    assert forall|j: int|
                        0 <= j < after.len() && lies_toward(
                            focused,
                            (#[trigger] after[j]).1,
                            direction,
                        ) implies !nearer(focused, after[j].1, after[b as int].1, direction) && (j
                        < b ==> nearer(focused, after[b as int].1, after[j].1, direction)) by {
                        if j < i {
                            assert(before[j] == after[j]);
                            assert(leaves@[j] == after[j]);
                        }
                    }
                },
            }
        }
        i += 1;
    }
    assert(leaves@.take(leaves@.len() as int) =~= leaves@);
    match best {
        None => None,
        Some(b) => {
            assert(is_neighbour(leaves@, focused, direction, b as int));
            Some(leaves[b].0)
        },
    }
}

/// The pane nearest to `current` in that direction on screen.
pub fn nearest_leaf_in_direction(
    tree: &SplitTree,
    area: Rect,
    current: Option<ClientPaneId>,
    direction: Direction,
) -> (r: Option<ClientPaneId>)
    ensures
        exists|p: Placement| #[trigger]
            places(*tree, area, p) && focus_moves(p.leaves(), current, direction, r),
{
    let placement = place(tree, area, None);
    neighbour_of(&placement.leaf_rects(), current, direction)
}

/// A pane's terminal is one row lower than its area: the top row is its title.
pub open spec fn terminal_size(area: Rect) -> Size {
    Size {
        rows: if area.height >= 1 {
            (area.height - 1) as u16
        } else {
            0
        },
        cols: area.width,
    }
}

/// The panes whose terminal size is not the one reported last.
pub open spec fn size_changes(
    reported: Map<ClientPaneId, Size>,
    leaves: Seq<(ClientPaneId, Rect)>,
) -> Seq<(ClientPaneId, Size)>
    decreases leaves.len(),
{
    if leaves.len() == 0 {
        seq![]
    } else {
        let (id, area) = leaves.last();
        let before = size_changes(reported, leaves.drop_last());
        if reported.contains_key(id) && reported[id] == terminal_size(area) {
            before
        } else {
            before.push((id, terminal_size(area)))
        }
    }
}

/// The panes whose terminal size is not the one reported last.
pub fn changed_sizes(
    reported: &HashMap<ClientPaneId, Size>,
    leaves: &Vec<(ClientPaneId, Rect)>,
) -> (r: Vec<(ClientPaneId, Size)>)
    ensures
        r@ == size_changes(reported@, leaves@),
{
    broadcast use vstd::std_specs::hash::group_hash_axioms;

    let mut out: Vec<(ClientPaneId, Size)> = Vec::new();
    let mut i: usize = 0;
    while i < leaves.len()
        invariant
            i <= leaves@.len(),
            out@ == size_changes(reported@, leaves@.take(i as int)),
        decreases leaves@.len() - i,
    {
        let (id, area) = leaves[i];
        let size = Size {
            rows: if area.height >= 1 {
                area.height - 1
            } else {
                0
            },
            cols: area.width,
        };
        let known = match reported.get(&id) {
            Some(last) => *last == size,
            None => false,
        };
        assert(leaves@.take(i + 1).drop_last() =~= leaves@.take(i as int));
        if !known {
            out.push((id, size));
        }
        i += 1;
    }
    assert(leaves@.take(leaves@.len() as int) =~= leaves@);
    out
}

/// The panes of `tree`, laid out in `area`, whose terminal size is not the one
/// reported last.
pub fn changed_pane_sizes(
    current: &HashMap<ClientPaneId, Size>,
    tree: &SplitTree,
    area: Rect,
) -> (r: Vec<(ClientPaneId, Size)>)
    ensures
        exists|p: Placement| #[trigger]
            places(*tree, area, p) && r@ == size_changes(current@, p.leaves()),
{
    let placement = place(tree, area, None);
    changed_sizes(current, &placement.leaf_rects())
}

/// What the three parts ask for when the middle one takes `percent` percent.
pub open spec fn centering_measures(percent: u16) -> Seq<Measure> {
    let margin = (complement(percent) / 2) as u16;
    seq![Measure::Percentage(margin), Measure::Percentage(percent), Measure::Percentage(margin)]
}

/// The middle part of `area`, of `percent` percent of its width or height: half of
/// what is left of a hundred percent lies before it.
pub open spec fn middle_of(side_by_side: bool, percent: u16, area: Rect) -> Rect {
    let s = span(side_by_side, area);
    let margin = (complement(percent) / 2) as int;
    let from = share(s, margin);
    let to = share(s, margin + percent);
    if side_by_side {
        Rect { x: (area.x + from) as u16, width: (to - from) as u16, ..area }
    } else {
        Rect { y: (area.y + from) as u16, height: (to - from) as u16, ..area }
    }
}

/// The middle part of `area`, of `percent` percent of its width or height.
fn middle(side_by_side: bool, percent: u16, area: Rect) -> (r: Rect)
    ensures
        r == middle_of(side_by_side, percent, area),
        is_slice(side_by_side, area, r),
{
    let rest: u16 = if percent <= 100 {
        100 - percent
    } else {
        0
    };
    let margin: u16 = rest / 2;
    let measures: [Measure; 3] = [
        Measure::Percentage(margin),
        Measure::Percentage(percent),
        Measure::Percentage(margin),
    ];
    let parts = split(side_by_side, &measures, area);
    proof {
        let s = span(side_by_side, area);
        assert(measures@ =~= centering_measures(percent));
        reveal_with_fuel(asked, 4);
        assert(start(side_by_side, parts@[0]) == start(side_by_side, area));
        assert(start(side_by_side, parts@[1]) == start(side_by_side, parts@[0]) + length(
            side_by_side,
            parts@[0],
        ));
        assert(s * margin == margin * s && s * (margin + percent) == margin * s + percent * s)
            by (nonlinear_arith);
        if percent <= 100 {
            assert(margin * s + percent * s + margin * s <= 100 * s) by (nonlinear_arith)
                requires
                    margin + percent + margin <= 100,
                    s >= 0,
            ;
            assert(0 <= margin * s) by (nonlinear_arith)
                requires
                    s >= 0,
            ;
        } else {
            assert(margin * s == 0) by (nonlinear_arith)
                requires
                    margin == 0,
            ;
            assert(100 * s <= percent * s) by (nonlinear_arith)
                requires
                    percent > 100,
                    s >= 0,
            ;
        }
    }
    parts[1]
}

/// A rectangle of that share of `area`, in its middle: the middle `percent_y`
/// percent of its rows, and of those the middle `percent_x` percent of the columns.
pub open spec fn centered(percent_x: u16, percent_y: u16, area: Rect) -> Rect {
    middle_of(true, percent_x, middle_of(false, percent_y, area))
}

/// A rectangle of that share of `area`, in its middle.
pub fn centered_rect(percent_x: u16, percent_y: u16, area: Rect) -> (r: Rect)
    ensures
        r == centered(percent_x, percent_y, area),
        r.inside(area),
{
    let row = middle(false, percent_y, area);
    middle(true, percent_x, row)
}

/// `area` as a list above a panel of `height` rows, or of as many as there are.
pub open spec fn list_above_panel(area: Rect, height: u16) -> (Rect, Rect) {
    let rows = span(false, area) - smaller(height as int, span(false, area));
    (upper_rows(area, rows), lower_rows(area, rows))
}

/// A list above a panel of `height` rows.
pub fn list_and_panel(area: Rect, height: u16) -> (r: (Rect, Rect))
    ensures
        r == list_above_panel(area, height),
        r.0.inside(area),
        r.1.inside(area),
{
    let measures: [Measure; 2] = [Measure::Min(0), Measure::Length(height)];
    let parts = split(false, &measures, area);
    assert(start(false, parts@[0]) == start(false, area));
    assert(start(false, parts@[1]) == start(false, parts@[0]) + length(false, parts@[0]));
    (parts[0], parts[1])
}

/// What `n` rows of one line each ask for.
pub open spec fn line_measures(n: int) -> Seq<Measure> {
    Seq::new(n as nat, |i: int| Measure::Length(1))
}

/// Whether `rows` are the first `n` lines of `area`. Where there are not that many,
/// they use up what there is.
pub open spec fn are_lines(area: Rect, n: int, rows: Seq<Rect>) -> bool {
    &&& possible_split(false, line_measures(n), area, rows)
    &&& rows.len() == n
    &&& in_order(false, area, rows)
    &&& forall|i: int| 0 <= i < n ==> is_slice(false, area, #[trigger] rows[i])
    &&& n <= span(false, area) ==> forall|i: int|
        0 <= i < n ==> #[trigger] rows[i] == (Rect { y: (area.y + i) as u16, height: 1, ..area })
    &&& n > span(false, area) ==> rows.last().y + rows.last().height == area.y + span(false, area)
}

proof fn lines_ask_for_their_number(n: int, s: int, k: int)
    requires
        0 <= k <= n,
    ensures
        asked(line_measures(n), s, k) == 100 * k,
    decreases k,
{
    if k > 0 {
        lines_ask_for_their_number(n, s, k - 1);
    }
}

/// `n` rows of one line each.
pub fn lines_of(area: Rect, n: usize) -> (r: Vec<Rect>)
    ensures
        are_lines(area, n as int, r@),
{
    let mut measures: Vec<Measure> = Vec::new();
    let mut i: usize = 0;
    while i < n
        invariant
            i <= n,
            measures@ =~= line_measures(i as int),
        decreases n - i,
    {
        measures.push(Measure::Length(1));
        i += 1;
    }
    let rows = split(false, measures.as_slice(), area);
    proof {
        let s = span(false, area);
        lines_ask_for_their_number(n as int, s, n as int);
        if n > s {
            lines_ask_for_their_number(n as int, s, n as int);
            let last = n - 1;
            assert(is_slice(false, area, rows@[last]));
            assert(rows@.last() == rows@[last]);
        } else {
            assert forall|i: int| 0 <= i < n implies #[trigger] rows@[i] == (Rect {
                y: (area.y + i) as u16,
                height: 1,
                ..area
            }) by {
                lines_ask_for_their_number(n as int, s, i + 1);
                if i > 0 {
                    lines_ask_for_their_number(n as int, s, i);
                    assert(start(false, rows@[i - 1]) >= 0);
                }
            }
        }
    }
    rows
}

} // verus!
