//! Selecting text in a pane with the mouse.

use crate::geometry::Rect;
use crate::protocol::{Cell, ClientPaneId, GridSnapshot, ServerPaneId};
use crate::text::{join_lines, joined, trim_end, trimmed_end, views};
use base64::Engine;
use vstd::prelude::*;
use vstd::utf8::encode_utf8;

verus! {

/// A cell of a pane's screen.
#[derive(Debug, Clone, Copy, PartialEq, Eq, PartialOrd, Ord, Structural)]
pub struct GridPosition {
    pub row: usize,
    pub col: usize,
}

impl GridPosition {
    /// Reading order: row by row, each from left to right.
    pub open spec fn up_to(self, other: GridPosition) -> bool {
        self.row < other.row || (self.row == other.row && self.col <= other.col)
    }

    /// Whether this comes no later than `other` in reading order.
    pub fn is_up_to(&self, other: &GridPosition) -> (r: bool)
        ensures
            r == self.up_to(*other),
    {
        self.row < other.row || (self.row == other.row && self.col <= other.col)
    }
}

/// A selection in one pane. It never crosses the pane's edges: a drag outside
/// clamps to the nearest cell that shows.
#[derive(Debug, Clone, Copy, PartialEq, Eq, Structural)]
pub struct TextSelection {
    pub pane: ClientPaneId,
    pub server_pane: ServerPaneId,
    pub start: GridPosition,
    pub end: GridPosition,
    pub dragging: bool,
}

impl TextSelection {
    /// The two ends in reading order.
    pub open spec fn ends(self) -> (GridPosition, GridPosition) {
        if self.start.up_to(self.end) {
            (self.start, self.end)
        } else {
            (self.end, self.start)
        }
    }

    /// Whether a cell is selected.
    pub open spec fn covers(self, row: int, col: int) -> bool {
        let (first, last) = self.ends();
        &&& first.row < row || (first.row == row && first.col <= col)
        &&& row < last.row || (row == last.row && col <= last.col)
    }

    /// A selection of one cell, being dragged.
    pub fn new(pane: ClientPaneId, server_pane: ServerPaneId, start: GridPosition) -> (r: Self)
        ensures
            r == (TextSelection { pane, server_pane, start, end: start, dragging: true }),
    {
        TextSelection { pane, server_pane, start, end: start, dragging: true }
    }

    pub fn pane(&self) -> (r: ClientPaneId)
        ensures
            r == self.pane,
    {
        self.pane
    }

    pub fn server_pane(&self) -> (r: ServerPaneId)
        ensures
            r == self.server_pane,
    {
        self.server_pane
    }

    pub fn is_dragging(&self) -> (r: bool)
        ensures
            r == self.dragging,
    {
        self.dragging
    }

    /// Drag the end elsewhere.
    pub fn update(&mut self, end: GridPosition)
        ensures
            *final(self) == (TextSelection { end, ..*old(self) }),
    {
        self.end = end;
    }

    /// End the drag and tell whether it went anywhere: a plain click selects
    /// nothing.
    pub fn finish(&mut self, end: GridPosition) -> (r: bool)
        ensures
            *final(self) == (TextSelection { end, dragging: false, ..*old(self) }),
            r == (old(self).start != end),
    {
        self.end = end;
        self.dragging = false;
        self.start != self.end
    }

    /// Whether a cell is selected.
    pub fn contains(&self, row: usize, col: usize) -> (r: bool)
        ensures
            r == self.covers(row as int, col as int),
    {
        let point = GridPosition { row, col };
        let (first, last) = self.ordered();
        first.is_up_to(&point) && point.is_up_to(&last)
    }

    /// The two ends in reading order.
    pub fn ordered(&self) -> (r: (GridPosition, GridPosition))
        ensures
            r == self.ends(),
    {
        if self.start.is_up_to(&self.end) {
            (self.start, self.end)
        } else {
            (self.end, self.start)
        }
    }
}

/// A selection is the same dragged from either end.
pub proof fn selection_is_symmetric(s: TextSelection, row: int, col: int)
    ensures
        s.covers(row, col) == (TextSelection { start: s.end, end: s.start, ..s }).covers(row, col),
        s.covers(s.start.row as int, s.start.col as int),
        s.covers(s.end.row as int, s.end.col as int),
{
}

/// Where a pane's screen shows: below its title row.
pub open spec fn content_area(leaf: Rect) -> Option<Rect> {
    if leaf.width > 0 && leaf.height > 1 {
        Some(
            Rect {
                x: leaf.x,
                y: (leaf.y + 1) as u16,
                width: leaf.width,
                height: (leaf.height - 1) as u16,
            },
        )
    } else {
        None
    }
}

/// Whether a row below a pane's title row can be counted at all.
pub open spec fn has_content_row(leaf: Rect) -> bool {
    leaf.width > 0 && leaf.height > 1 ==> leaf.y < u16::MAX
}

fn content_rect(leaf: Rect) -> (r: Option<Rect>)
    requires
        has_content_row(leaf),
    ensures
        r == content_area(leaf),
{
    if leaf.width > 0 && leaf.height > 1 {
        Some(Rect { x: leaf.x, y: leaf.y + 1, width: leaf.width, height: leaf.height - 1 })
    } else {
        None
    }
}

/// The cell of the screen under `(col, row)`, if the screen has one there. The
/// last column and row that can be counted belong to no screen.
pub open spec fn cell_under(leaf: Rect, snapshot: GridSnapshot, col: u16, row: u16) -> Option<
    GridPosition,
> {
    match content_area(leaf) {
        Some(content) if content.covers(col as int, row as int) && col < u16::MAX && row
            < u16::MAX => {
            let r = row - content.y;
            let c = col - content.x;
            if r < snapshot.lines@.len() && c < snapshot.lines@[r]@.len() {
                Some(GridPosition { row: r as usize, col: c as usize })
            } else {
                None
            }
        },
        _ => None,
    }
}

/// The cell of the screen under `(col, row)`.
pub fn position_at(leaf: Rect, snapshot: &GridSnapshot, col: u16, row: u16) -> (r: Option<
    GridPosition,
>)
    requires
        has_content_row(leaf),
    ensures
        r == cell_under(leaf, *snapshot, col, row),
{
    let content = match content_rect(leaf) {
        Some(content) => content,
        None => {
            return None;
        },
    };
    if !content.contains(col, row) || col == u16::MAX || row == u16::MAX {
        return None;
    }
    let grid_row: usize = (row - content.y) as usize;
    let grid_col: usize = (col - content.x) as usize;
    if grid_row < snapshot.lines.len() && grid_col < snapshot.lines[grid_row].len() {
        Some(GridPosition { row: grid_row, col: grid_col })
    } else {
        None
    }
}

/// The lesser of two numbers.
pub open spec fn least(a: int, b: int) -> int {
    if a <= b {
        a
    } else {
        b
    }
}

/// How far `to` lies beyond `from`.
pub open spec fn beyond(from: u16, to: u16) -> int {
    if to >= from {
        to - from
    } else {
        0
    }
}

/// The cell of the screen nearest to `(col, row)`, if any cell of that row shows.
pub open spec fn cell_nearest(leaf: Rect, snapshot: GridSnapshot, col: u16, row: u16) -> Option<
    GridPosition,
> {
    match content_area(leaf) {
        Some(content) => {
            let rows = least(content.height as int, snapshot.lines@.len() as int);
            let r = least(beyond(content.y, row), rows - 1);
            let cols = least(content.width as int, snapshot.lines@[r]@.len() as int);
            let c = least(beyond(content.x, col), cols - 1);
            if rows == 0 || cols == 0 {
                None
            } else {
                Some(GridPosition { row: r as usize, col: c as usize })
            }
        },
        None => None,
    }
}

/// The cell of the screen nearest to `(col, row)`.
pub fn clamped_position(leaf: Rect, snapshot: &GridSnapshot, col: u16, row: u16) -> (r: Option<
    GridPosition,
>)
    requires
        has_content_row(leaf),
    ensures
        r == cell_nearest(leaf, *snapshot, col, row),
{
    let content = match content_rect(leaf) {
        Some(content) => content,
        None => {
            return None;
        },
    };
    let height: usize = content.height as usize;
    let rows: usize = if height <= snapshot.lines.len() {
        height
    } else {
        snapshot.lines.len()
    };
    if rows == 0 {
        return None;
    }
    let down: usize = if row >= content.y {
        (row - content.y) as usize
    } else {
        0
    };
    let grid_row: usize = if down <= rows - 1 {
        down
    } else {
        rows - 1
    };
    let width: usize = content.width as usize;
    let len: usize = snapshot.lines[grid_row].len();
    let cols: usize = if width <= len {
        width
    } else {
        len
    };
    if cols == 0 {
        return None;
    }
    let across: usize = if col >= content.x {
        (col - content.x) as usize
    } else {
        0
    };
    let grid_col: usize = if across <= cols - 1 {
        across
    } else {
        cols - 1
    };
    Some(GridPosition { row: grid_row, col: grid_col })
}

/// Dragging over a cell that shows is the same as pointing at it.
pub proof fn clamping_keeps_visible_cells(leaf: Rect, snapshot: GridSnapshot, col: u16, row: u16)
    requires
        has_content_row(leaf),
        cell_under(leaf, snapshot, col, row) is Some,
    ensures
        cell_nearest(leaf, snapshot, col, row) == cell_under(leaf, snapshot, col, row),
{
}

/// A drag never leaves the pane: the nearest cell is one the screen has, within
/// the pane's content.
pub proof fn clamped_cell_shows(leaf: Rect, snapshot: GridSnapshot, col: u16, row: u16)
    requires
        has_content_row(leaf),
    ensures
        cell_nearest(leaf, snapshot, col, row) matches Some(p) ==> {
            &&& p.row < snapshot.lines@.len()
            &&& p.col < snapshot.lines@[p.row as int]@.len()
            &&& p.row < leaf.height - 1
            &&& p.col < leaf.width
        },
{
}

/// `position` moved back onto the screen; `None` where there is no cell to move
/// it to.
pub open spec fn clamped(snapshot: GridSnapshot, position: GridPosition) -> Option<GridPosition> {
    let lines = snapshot.lines@;
    if lines.len() == 0 {
        None
    } else {
        let row = least(position.row as int, lines.len() - 1);
        if lines[row]@.len() == 0 {
            None
        } else {
            Some(
                GridPosition {
                    row: row as usize,
                    col: least(position.col as int, lines[row]@.len() - 1) as usize,
                },
            )
        }
    }
}

/// Move `position` back onto the screen.
pub fn clamp_grid_position(snapshot: &GridSnapshot, position: GridPosition) -> (r: Option<
    GridPosition,
>)
    ensures
        r == clamped(*snapshot, position),
{
    if snapshot.lines.len() == 0 {
        return None;
    }
    let last_row: usize = snapshot.lines.len() - 1;
    let row: usize = if position.row <= last_row {
        position.row
    } else {
        last_row
    };
    if snapshot.lines[row].len() == 0 {
        return None;
    }
    let last_col: usize = snapshot.lines[row].len() - 1;
    let col: usize = if position.col <= last_col {
        position.col
    } else {
        last_col
    };
    Some(GridPosition { row, col })
}

/// The text of some cells.
pub open spec fn cells_text(cells: Seq<Cell>) -> Seq<char>
    decreases cells.len(),
{
    if cells.len() == 0 {
        Seq::empty()
    } else {
        cells_text(cells.drop_last()) + cells.last().text@
    }
}

/// The columns of `row` that lie between two positions, the end one included.
pub open spec fn columns_between(len: int, row: int, first: GridPosition, last: GridPosition) -> (
    int,
    int,
) {
    (
        if row == first.row {
            first.col as int
        } else {
            0
        },
        if row == last.row {
            last.col + 1
        } else {
            len
        },
    )
}

/// The text of `row` between two positions, without the padding at its end.
pub open spec fn row_text(
    snapshot: GridSnapshot,
    row: int,
    first: GridPosition,
    last: GridPosition,
) -> Seq<char> {
    let cells = snapshot.lines@[row]@;
    let (from, to) = columns_between(cells.len() as int, row, first, last);
    trimmed_end(cells_text(cells.subrange(from, to)))
}

/// The text between two positions of the screen, row by row.
pub open spec fn text_between(
    snapshot: GridSnapshot,
    first: GridPosition,
    last: GridPosition,
) -> Seq<char> {
    joined(
        Seq::new(
            (last.row - first.row + 1) as nat,
            |i: int| row_text(snapshot, first.row + i, first, last),
        ),
        seq!['\n'],
    )
}

/// What a selection covers of a screen: nothing of another server-pane's, nothing
/// where an end falls on a row without cells, else the text between its ends.
pub open spec fn selection_text(snapshot: GridSnapshot, selection: TextSelection) -> Option<
    Seq<char>,
> {
    if snapshot.server_pane != selection.server_pane {
        None
    } else {
        match (clamped(snapshot, selection.ends().0), clamped(snapshot, selection.ends().1)) {
            (Some(a), Some(b)) => if a.up_to(b) {
                Some(text_between(snapshot, a, b))
            } else {
                Some(text_between(snapshot, b, a))
            },
            _ => None,
        }
    }
}

/// The text of the cells `from..to` of a row.
fn collect_cells(row: &Vec<Cell>, from: usize, to: usize) -> (r: String)
    requires
        from <= to <= row@.len(),
    ensures
        r@ == cells_text(row@.subrange(from as int, to as int)),
{
    let mut out = String::new();
    let mut i: usize = from;
    assert(row@.subrange(from as int, from as int) =~= Seq::empty());
    while i < to
        invariant
            from <= i <= to <= row@.len(),
            out@ == cells_text(row@.subrange(from as int, i as int)),
        decreases to - i,
    {
        out.append(row[i].text.as_str());
        assert(row@.subrange(from as int, i + 1).drop_last() =~= row@.subrange(
            from as int,
            i as int,
        ));
        i += 1;
    }
    out
}

/// The selected cells as plain text, without the padding at the end of each row.
pub fn selected_text(snapshot: &GridSnapshot, selection: &TextSelection) -> (r: Option<String>)
    ensures
        match r {
            Some(text) => selection_text(*snapshot, *selection) == Some(text@),
            None => selection_text(*snapshot, *selection) is None,
        },
{
    if snapshot.server_pane != selection.server_pane {
        return None;
    }
    let (a, b) = selection.ordered();
    let (a, b) = match (clamp_grid_position(snapshot, a), clamp_grid_position(snapshot, b)) {
        (Some(a), Some(b)) => (a, b),
        _ => {
            return None;
        },
    };
    let (first, last) = if a.is_up_to(&b) {
        (a, b)
    } else {
        (b, a)
    };
    let mut lines: Vec<String> = Vec::new();
    let mut row: usize = first.row;
    let ghost texts = Seq::new(
        (last.row - first.row + 1) as nat,
        |i: int| row_text(*snapshot, first.row + i, first, last),
    );
    let total: usize = snapshot.lines.len();
    while row <= last.row
        invariant
            first.row <= row <= last.row + 1,
            last.row < total,
            total == snapshot.lines@.len(),
            first.col < snapshot.lines@[first.row as int]@.len(),
            last.col < snapshot.lines@[last.row as int]@.len(),
            first.up_to(last),
            texts == Seq::new(
                (last.row - first.row + 1) as nat,
                |i: int| row_text(*snapshot, first.row + i, first, last),
            ),
            views(lines@) =~= texts.take(row - first.row),
        decreases last.row + 1 - row,
    {
        let cells = &snapshot.lines[row];
        let len: usize = cells.len();
        let from: usize = if row == first.row {
            first.col
        } else {
            0
        };
        let to: usize = if row == last.row {
            last.col + 1
        } else {
            len
        };
        let text = collect_cells(cells, from, to);
        let line = trim_end(text.as_str()).to_owned();
        assert(line@ == texts[row - first.row]);
        let ghost before = lines@;
        lines.push(line);
        assert(views(lines@) =~= views(before).push(line@));
        row += 1;
    }
    assert(texts.take(texts.len() as int) =~= texts);
    assert(views(lines@).skip(0) =~= views(lines@));
    Some(join_lines(&lines, 0))
}

/// The character for six bits in base64's standard alphabet.
pub open spec fn base64_char(six_bits: int) -> char {
    if six_bits < 26 {
        ('A' as u8 + six_bits) as char
    } else if six_bits < 52 {
        ('a' as u8 + six_bits - 26) as char
    } else if six_bits < 62 {
        ('0' as u8 + six_bits - 52) as char
    } else if six_bits == 62 {
        '+'
    } else {
        '/'
    }
}

/// The base64 text of `bytes`: four characters for every three bytes, the last
/// group padded with `=`.
pub open spec fn base64_text(bytes: Seq<u8>) -> Seq<char>
    decreases bytes.len(),
{
    if bytes.len() == 0 {
        seq![]
    } else {
        let n = if bytes.len() < 3 {
            bytes.len() as int
        } else {
            3
        };
        let a = bytes[0] as int;
        let b = if n > 1 {
            bytes[1] as int
        } else {
            0
        };
        let c = if n > 2 {
            bytes[2] as int
        } else {
            0
        };
        seq![
            base64_char(a / 4),
            base64_char(a % 4 * 16 + b / 16),
            if n > 1 {
                base64_char(b % 16 * 4 + c / 64)
            } else {
                '='
            },
            if n > 2 {
                base64_char(c % 64)
            } else {
                '='
            },
        ] + base64_text(bytes.skip(n))
    }
}

/// How many characters the base64 text of `n` bytes has.
pub open spec fn base64_len(n: int) -> int {
    4 * ((n + 2) / 3)
}

/// `base64::engine::general_purpose::STANDARD.encode` writes the bytes in the
/// standard alphabet, with padding. A length whose encoding no buffer can hold, on
/// which the call panics, is left out.
#[verifier::external_body]
fn encode_base64(bytes: &[u8]) -> (r: String)
    requires
        base64_len(bytes@.len() as int) <= isize::MAX,
    ensures
        r@ == base64_text(bytes@),
{
    base64::engine::general_purpose::STANDARD.encode(bytes)
}

/// The sequence that asks a terminal to put a base64 payload on its clipboard.
pub open spec fn osc52(payload: Seq<char>) -> Seq<char> {
    seq!['\u{1b}', ']', '5', '2', ';', 'c', ';'] + payload + seq!['\u{1b}', '\\']
}

/// The sequence that asks a terminal to put a base64 payload on its clipboard.
pub fn osc52_request(payload: &str) -> (r: String)
    ensures
        r@ == osc52(payload@),
{
    let mut out = String::new();
    out.push('\u{1b}');
    out.append("]52;c;");
    out.append(payload);
    out.push('\u{1b}');
    out.push('\\');
    proof {
        reveal_strlit("]52;c;");
    }
    assert(out@ =~= osc52(payload@));
    out
}

/// The sequence that asks a terminal to put `text` on its clipboard.
pub fn osc52_sequence(text: &str) -> (r: String)
    requires
        base64_len(encode_utf8(text@).len() as int) <= isize::MAX,
    ensures
        r@ == osc52(base64_text(encode_utf8(text@))),
{
    let payload = encode_base64(text.as_bytes());
    osc52_request(payload.as_str())
}

} // verus!
