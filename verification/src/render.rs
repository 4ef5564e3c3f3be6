//! What is painted: titles, screens, the attach menu and its preview, as plain
//! text with styles. Painting it is the embedding program's business.

use crate::geometry::Rect;
use crate::layout::{centered, centered_rect, list_above_panel, list_and_panel};
use crate::menu::{
    keys, menu_rows, row_index, rows_name_listed_panes, visible_attach_menu_rows, AttachMenu,
    AttachMenuRow, RenameState, SpawnInGroupState,
};
use crate::protocol::{
    Cell, ClientPane, ClientPaneId, GridSnapshot, Rgb, ServerPaneId, ServerPaneInfo,
    ServerPaneStatus,
};
use crate::selection::{cells_text, TextSelection};
use crate::text::{
    decimal, join_lines, joined, padded, push_decimal, push_padded, same_text, truncate_end,
    truncated, views,
};
use std::collections::HashMap;
use vstd::hash_set::StringHashSet;
use vstd::prelude::*;

verus! {

#[derive(Debug, Clone, Copy, PartialEq, Eq, Structural)]
pub enum Color {
    White,
    Red,
    Rgb(Rgb),
}

/// The style of screen cells. `plain_order` says that reversing is switched off,
/// as it is in a selection.
#[derive(Debug, Clone, Copy, PartialEq, Eq, Structural)]
pub struct CellStyle {
    pub fg: Option<Color>,
    pub bg: Option<Color>,
    pub bold: bool,
    pub italic: bool,
    pub underline: bool,
    pub reverse: bool,
    pub plain_order: bool,
}

pub open spec fn color_of(rgb: Option<Rgb>) -> Option<Color> {
    match rgb {
        Some(rgb) => Some(Color::Rgb(rgb)),
        None => None,
    }
}

/// How a cell is painted: a selected one white on blue and never reversed, any
/// other as its process asked.
pub open spec fn style_of(cell: Cell, selected: bool) -> CellStyle {
    CellStyle {
        fg: if selected {
            Some(Color::White)
        } else {
            color_of(cell.fg)
        },
        bg: if selected {
            Some(Color::Rgb(Rgb(70, 110, 170)))
        } else {
            color_of(cell.bg)
        },
        bold: cell.bold,
        italic: cell.italic,
        underline: cell.underline,
        reverse: cell.reverse && !selected,
        plain_order: selected,
    }
}

/// How a cell is painted.
pub fn cell_style(cell: &Cell, selected: bool) -> (r: CellStyle)
    ensures
        r == style_of(*cell, selected),
{
    let fg = match cell.fg {
        Some(rgb) => Some(Color::Rgb(rgb)),
        None => None,
    };
    let bg = match cell.bg {
        Some(rgb) => Some(Color::Rgb(rgb)),
        None => None,
    };
    CellStyle {
        fg: if selected {
            Some(Color::White)
        } else {
            fg
        },
        bg: if selected {
            Some(Color::Rgb(Rgb(70, 110, 170)))
        } else {
            bg
        },
        bold: cell.bold,
        italic: cell.italic,
        underline: cell.underline,
        reverse: cell.reverse && !selected,
        plain_order: selected,
    }
}

/// Some cells of one style.
#[derive(Debug, PartialEq, Eq)]
pub struct Run {
    pub text: String,
    pub style: CellStyle,
}

/// Runs as text and style.
pub open spec fn run_views(runs: Seq<Run>) -> Seq<(Seq<char>, CellStyle)> {
    Seq::new(runs.len(), |i: int| (runs[i].text@, runs[i].style))
}

/// The style of the cell `col` of the row `row`.
pub open spec fn style_at(
    cells: Seq<Cell>,
    row: int,
    col: int,
    selection: Option<TextSelection>,
) -> CellStyle {
    style_of(cells[col], selection matches Some(s) && s.covers(row, col))
}

/// A row as runs: neighbouring cells of one style are one run.
pub open spec fn row_runs(cells: Seq<Cell>, row: int, selection: Option<TextSelection>) -> Seq<
    (Seq<char>, CellStyle),
>
    decreases cells.len(),
{
    if cells.len() == 0 {
        seq![]
    } else {
        let before = row_runs(cells.drop_last(), row, selection);
        let text = cells.last().text@;
        let style = style_at(cells, row, cells.len() - 1, selection);
        if before.len() > 0 && before.last().1 == style {
            before.drop_last().push((before.last().0 + text, style))
        } else {
            before.push((text, style))
        }
    }
}

/// The text of some runs.
pub open spec fn runs_text(runs: Seq<(Seq<char>, CellStyle)>) -> Seq<char>
    decreases runs.len(),
{
    if runs.len() == 0 {
        seq![]
    } else {
        runs_text(runs.drop_last()) + runs.last().0
    }
}

/// Merging cells into runs changes nothing on screen: the text is the row's, in
/// order, and no two neighbouring runs have the same style.
pub proof fn runs_show_the_row(cells: Seq<Cell>, row: int, selection: Option<TextSelection>)
    ensures
        runs_text(row_runs(cells, row, selection)) == cells_text(cells),
        forall|i: int|
            0 < i < row_runs(cells, row, selection).len() ==> (#[trigger] row_runs(
                cells,
                row,
                selection,
            )[i]).1 != row_runs(cells, row, selection)[i - 1].1,
    decreases cells.len(),
{
    if cells.len() > 0 {
        let rest = cells.drop_last();
        runs_show_the_row(rest, row, selection);
        let before = row_runs(rest, row, selection);
        let text = cells.last().text@;
        let style = style_at(cells, row, cells.len() - 1, selection);
        let after = row_runs(cells, row, selection);
        if before.len() > 0 && before.last().1 == style {
            assert(after.drop_last() =~= before.drop_last());
            assert(runs_text(after) == runs_text(before.drop_last()) + (before.last().0 + text));
            assert(runs_text(after) =~= runs_text(before) + text);
            assert forall|i: int| 0 < i < after.len() implies (#[trigger] after[i]).1 != after[i
                - 1].1 by {
                assert(before[i].1 == after[i].1);
                assert(before[i - 1].1 == after[i - 1].1);
            }
        } else {
            assert(after.drop_last() =~= before);
            assert forall|i: int| 0 < i < after.len() implies (#[trigger] after[i]).1 != after[i
                - 1].1 by {
                if i < before.len() {
                    assert(before[i] == after[i]);
                }
                assert(before[i - 1] == after[i - 1]);
            }
        }
    }
}

/// A row as runs.
pub fn row_to_runs(cells: &Vec<Cell>, row: usize, selection: Option<TextSelection>) -> (r: Vec<Run>)
    ensures
        run_views(r@) == row_runs(cells@, row as int, selection),
{
    let mut out: Vec<Run> = Vec::new();
    let mut col: usize = 0;
    assert(cells@.take(0) =~= Seq::empty());
    while col < cells.len()
        invariant
            col <= cells@.len(),
            run_views(out@) =~= row_runs(cells@.take(col as int), row as int, selection),
        decreases cells@.len() - col,
    {
        let ghost before = run_views(out@);
        let cell = &cells[col];
        let selected = match selection {
            Some(s) => s.contains(row, col),
            None => false,
        };
        let style = cell_style(cell, selected);
        assert(cells@.take(col + 1).drop_last() =~= cells@.take(col as int));
        assert(style == style_at(cells@.take(col + 1), row as int, col as int, selection));
        let n = out.len();
        if n > 0 && out[n - 1].style == style {
            let mut last = match out.pop() {
                Some(last) => last,
                None => {
                    return out;
                },
            };
            last.text.append(cell.text.as_str());
            out.push(last);
            assert(run_views(out@) =~= before.drop_last().push(
                (before.last().0 + cell.text@, style),
            ));
        } else {
            let mut text = String::new();
            text.append(cell.text.as_str());
            assert(text@ =~= cell.text@);
            out.push(Run { text, style });
            assert(run_views(out@) =~= before.push((cell.text@, style)));
        }
        col += 1;
    }
    assert(cells@.take(cells@.len() as int) =~= cells@);
    out
}

/// A screen as rows of runs.
pub fn grid_to_text(snapshot: &GridSnapshot, selection: Option<TextSelection>) -> (r: Vec<Vec<Run>>)
    ensures
        r@.len() == snapshot.lines@.len(),
        forall|i: int|
            0 <= i < r@.len() ==> run_views((#[trigger] r@[i])@) == row_runs(
                snapshot.lines@[i]@,
                i,
                selection,
            ),
{
    let mut out: Vec<Vec<Run>> = Vec::new();
    let mut row: usize = 0;
    while row < snapshot.lines.len()
        invariant
            row <= snapshot.lines@.len(),
            out@.len() == row,
            forall|i: int|
                0 <= i < row ==> run_views((#[trigger] out@[i])@) == row_runs(
                    snapshot.lines@[i]@,
                    i,
                    selection,
                ),
        decreases snapshot.lines@.len() - row,
    {
        out.push(row_to_runs(&snapshot.lines[row], row, selection));
        row += 1;
    }
    out
}

/// What a pane shows below its title.
#[derive(Debug, Clone, Copy, PartialEq, Eq, Structural)]
pub enum PaneBody {
    /// Nothing is bound.
    Unbound,
    /// What was bound has no screen any more.
    Closed,
    /// The screen of this server-pane.
    Screen(ServerPaneId),
}

/// What a pane shows below its title.
pub open spec fn body_of(pane: ClientPane, grids: Map<ServerPaneId, GridSnapshot>) -> PaneBody {
    match pane.bound() {
        None => PaneBody::Unbound,
        Some(id) => if grids.contains_key(id) {
            PaneBody::Screen(id)
        } else {
            PaneBody::Closed
        },
    }
}

/// A pane's title: the server-pane's short id and name, or the pane's own short
/// id while those are not known; which of several tabs is active; and whether the
/// screen is scrolled back.
pub open spec fn title_of(
    pane: ClientPane,
    grids: Map<ServerPaneId, GridSnapshot>,
    names: Map<ServerPaneId, ServerPaneInfo>,
) -> Seq<char> {
    (match pane.bound() {
        Some(id) if names.contains_key(id) => match names[id].name {
            Some(name) => "["@ + names[id].short_id@ + "] "@ + name@,
            None => "["@ + names[id].short_id@ + "]"@,
        },
        _ => pane.short_id@,
    }) + (if pane.tabs@.len() > 1 {
        " ("@ + decimal((pane.active_tab + 1) as nat) + "/"@ + decimal(pane.tabs@.len()) + ")"@
    } else {
        seq![]
    }) + (if body_of(pane, grids) matches PaneBody::Screen(id) && grids[id].scroll_offset > 0 {
        " [scrollback]"@
    } else {
        seq![]
    })
}

/// A pane as it is painted. Its border is highlighted if it has the focus.
#[derive(Debug, PartialEq, Eq)]
pub struct PaneView {
    pub title: String,
    pub is_focused: bool,
    pub body: PaneBody,
    /// The part of the selection that lies in this pane.
    pub selection: Option<TextSelection>,
}

impl PaneView {
    /// Whether this is how `pane` is painted.
    pub open spec fn shows(
        self,
        pane: ClientPane,
        grids: Map<ServerPaneId, GridSnapshot>,
        names: Map<ServerPaneId, ServerPaneInfo>,
        focused: Option<ClientPaneId>,
        selection: Option<TextSelection>,
    ) -> bool {
        &&& self.title@ == title_of(pane, grids, names)
        &&& self.is_focused == (focused == Some(pane.id))
        &&& self.body == body_of(pane, grids)
        &&& self.selection == match (selection, body_of(pane, grids)) {
            (Some(s), PaneBody::Screen(id)) if s.pane == pane.id && s.server_pane
                == grids[id].server_pane => selection,
            _ => None,
        }
    }
}

/// How a pane is painted.
pub fn pane_view(
    pane: &ClientPane,
    grids: &HashMap<ServerPaneId, GridSnapshot>,
    names: &HashMap<ServerPaneId, ServerPaneInfo>,
    focused: Option<ClientPaneId>,
    selection: Option<TextSelection>,
) -> (r: PaneView)
    requires
        pane.tabs@.len() > 1 ==> pane.active_tab < usize::MAX,
    ensures
        r.shows(*pane, grids@, names@, focused, selection),
{
    broadcast use vstd::std_specs::hash::group_hash_axioms;

    let active = pane.active_bound();
    let snapshot: Option<&GridSnapshot> = match active {
        Some(id) => grids.get(&id),
        None => None,
    };
    let server: Option<&ServerPaneInfo> = match active {
        Some(id) => names.get(&id),
        None => None,
    };
    let mut title = String::new();
    match server {
        Some(server) => {
            title.append("[");
            title.append(server.short_id.as_str());
            match &server.name {
                Some(name) => {
                    title.append("] ");
                    title.append(name.as_str());
                },
                None => {
                    title.append("]");
                },
            }
        },
        None => {
            title.append(pane.short_id.as_str());
        },
    }
    if pane.tabs.len() > 1 {
        title.append(" (");
        push_decimal(&mut title, pane.active_tab + 1);
        title.append("/");
        push_decimal(&mut title, pane.tabs.len());
        title.append(")");
    }
    let scrolled = match snapshot {
        Some(snapshot) => snapshot.scroll_offset > 0,
        None => false,
    };
    if scrolled {
        title.append(" [scrollback]");
    }
    assert(title@ =~= title_of(*pane, grids@, names@));
    let body = match active {
        None => PaneBody::Unbound,
        Some(id) => match snapshot {
            Some(_) => PaneBody::Screen(id),
            None => PaneBody::Closed,
        },
    };
    let is_focused = match focused {
        Some(id) => id == pane.id,
        None => false,
    };
    let selection = match (selection, snapshot) {
        (Some(s), Some(snapshot)) => {
            if s.pane == pane.id && s.server_pane == snapshot.server_pane {
                Some(s)
            } else {
                None
            }
        },
        _ => None,
    };
    PaneView { title, is_focused, body, selection }
}

/// What is left of `area` below a title row.
pub open spec fn below_title(area: Rect) -> Rect {
    Rect {
        y: (if area.height >= 1 && area.y < u16::MAX {
            area.y + 1
        } else {
            area.y as int
        }) as u16,
        height: (if area.height >= 1 {
            area.height - 1
        } else {
            0
        }) as u16,
        ..area
    }
}

/// What is left of `area` below a title row.
pub fn title_inner(area: Rect) -> (r: Rect)
    ensures
        r == below_title(area),
{
    Rect {
        x: area.x,
        y: if area.height >= 1 && area.y < u16::MAX {
            area.y + 1
        } else {
            area.y
        },
        width: area.width,
        height: if area.height >= 1 {
            area.height - 1
        } else {
            0
        },
    }
}

/// Where the terminal's cursor belongs, if the screen is live and its cursor
/// within `inner`.
pub open spec fn cursor_in(snapshot: GridSnapshot, inner: Rect) -> Option<(u16, u16)> {
    let cursor = snapshot.cursor;
    if snapshot.scroll_offset > 0 || cursor.col >= inner.width || cursor.row >= inner.height {
        None
    } else {
        Some(((inner.x + cursor.col) as u16, (inner.y + cursor.row) as u16))
    }
}

/// Where the terminal's cursor belongs.
pub fn place_cursor(snapshot: &GridSnapshot, inner: Rect) -> (r: Option<(u16, u16)>)
    requires
        inner.x + inner.width <= u16::MAX,
        inner.y + inner.height <= u16::MAX,
    ensures
        r == cursor_in(*snapshot, inner),
{
    if snapshot.scroll_offset > 0 {
        return None;
    }
    let cursor = snapshot.cursor;
    if cursor.col >= inner.width || cursor.row >= inner.height {
        return None;
    }
    Some((inner.x + cursor.col, inner.y + cursor.row))
}

/// The cursor never leaves its pane.
pub proof fn cursor_stays_inside(snapshot: GridSnapshot, inner: Rect)
    requires
        inner.x + inner.width <= u16::MAX,
        inner.y + inner.height <= u16::MAX,
    ensures
        cursor_in(snapshot, inner) matches Some((col, row)) ==> inner.covers(
            col as int,
            row as int,
        ),
{
}

/// A line of one style.
#[derive(Debug, PartialEq, Eq)]
pub struct StyledLine {
    pub text: String,
    pub style: LineStyle,
}

#[derive(Debug, Clone, Copy, PartialEq, Eq, Structural)]
pub struct LineStyle {
    pub bold: bool,
    pub reversed: bool,
    pub fg: Option<Color>,
}

/// A line as text and style.
pub open spec fn line_view(line: StyledLine) -> (Seq<char>, LineStyle) {
    (line.text@, line.style)
}

/// Lines as text and style.
pub open spec fn line_views(lines: Seq<StyledLine>) -> Seq<(Seq<char>, LineStyle)> {
    Seq::new(lines.len(), |i: int| line_view(lines[i]))
}

/// The style of a line that is reversed if it is highlighted.
pub open spec fn highlight(on: bool) -> LineStyle {
    LineStyle { bold: false, reversed: on, fg: None }
}

/// A mark that is there or not.
pub open spec fn mark(on: bool, sign: Seq<char>) -> Seq<char> {
    if on {
        sign
    } else {
        " "@
    }
}

fn push_mark(out: &mut String, on: bool, sign: &str)
    ensures
        final(out)@ == old(out)@ + mark(on, sign@),
{
    out.append(
        if on {
            sign
        } else {
            " "
        },
    );
}

/// A group's header: whether it is pinned, whether it is collapsed, and its
/// directory.
pub open spec fn header_text(group: Seq<char>, collapsed: bool, pinned: bool) -> Seq<char> {
    (if pinned {
        "📌"@
    } else {
        "  "@
    }) + (if collapsed {
        "▸"@
    } else {
        "▾"@
    }) + " "@ + group
}

/// A group's header line.
pub fn group_header_line(group: &str, collapsed: bool, pinned: bool, selected: bool) -> (r:
    StyledLine)
    ensures
        line_view(r) == (
            header_text(group@, collapsed, pinned),
            LineStyle { bold: true, reversed: selected, fg: None },
        ),
{
    let mut text = String::new();
    text.append(
        if pinned {
            "📌"
        } else {
            "  "
        },
    );
    text.append(
        if collapsed {
            "▸"
        } else {
            "▾"
        },
    );
    text.append(" ");
    text.append(group);
    assert(text@ =~= header_text(group@, collapsed, pinned));
    StyledLine { text, style: LineStyle { bold: true, reversed: selected, fg: None } }
}

/// A group's "spawn new" row: what is typed in its field, if that is open.
pub open spec fn spawn_in_group_text(
    group: Seq<char>,
    selected: bool,
    typed: Option<Seq<char>>,
) -> Seq<char> {
    "  "@ + mark(selected, ">"@) + match typed {
        Some(typed) => " + ["@ + typed + "] in "@ + group,
        None => " + spawn new in "@ + group,
    }
}

/// A group's "spawn new" line.
pub fn spawn_new_in_group_line(
    group: &str,
    selected: bool,
    spawning: Option<&SpawnInGroupState>,
) -> (r: StyledLine)
    ensures
        line_view(r) == (
            spawn_in_group_text(
                group@,
                selected,
                match spawning {
                    Some(field) => Some(field.text@),
                    None => None,
                },
            ),
            highlight(selected || spawning is Some),
        ),
{
    let mut text = String::new();
    text.append("  ");
    push_mark(&mut text, selected, ">");
    match spawning {
        Some(field) => {
            text.append(" + [");
            text.append(field.text.as_str());
            text.append("] in ");
            text.append(group);
        },
        None => {
            text.append(" + spawn new in ");
            text.append(group);
        },
    }
    assert(text@ =~= spawn_in_group_text(
        group@,
        selected,
        match spawning {
            Some(field) => Some(field.text@),
            None => None,
        },
    ));
    StyledLine {
        text,
        style: LineStyle { bold: false, reversed: selected || spawning.is_some(), fg: None },
    }
}

pub const NAME_COL_WIDTH: usize = 28;

pub const TAG_COL_WIDTH: usize = 10;

pub const ATTACHED_COL_WIDTH: usize = 10;

pub const PROCESS_COL_WIDTH: usize = 10;

/// The tag of a recognised coding tool; empty for anything else.
pub open spec fn tag_of(server: ServerPaneInfo) -> Seq<char> {
    match server.foreground {
        Some(process) => match process.session_kind {
            Some(kind) => "["@ + kind@ + "]"@,
            None => seq![],
        },
        None => seq![],
    }
}

/// The tag of a recognised coding tool; empty for anything else.
pub fn session_tag(server: &ServerPaneInfo) -> (r: String)
    ensures
        r@ == tag_of(*server),
{
    let mut out = String::new();
    match &server.foreground {
        Some(process) => match &process.session_kind {
            Some(kind) => {
                out.append("[");
                out.append(kind.as_str());
                out.append("]");
            },
            None => {},
        },
        None => {},
    }
    assert(out@ =~= tag_of(*server));
    out
}

/// Where a server-pane is shown: the first place, with a `+` if it is a hidden
/// tab there, and how many more there are; `-` for nowhere.
pub open spec fn attached_text(server: ServerPaneInfo) -> Seq<char> {
    let places = server.attached_to@;
    if places.len() == 0 {
        "-"@
    } else {
        decimal(places[0].workspace_number as nat) + "/"@ + places[0].client_short_id@ + (
        if places[0].active {
            seq![]
        } else {
            "+"@
        }) + (if places.len() == 1 {
            seq![]
        } else {
            " +"@ + decimal((places.len() - 1) as nat)
        })
    }
}

/// Where a server-pane is shown.
pub fn attached_column(server: &ServerPaneInfo) -> (r: String)
    ensures
        r@ == attached_text(*server),
{
    let mut out = String::new();
    let places = &server.attached_to;
    if places.len() == 0 {
        out.append("-");
    } else {
        push_decimal(&mut out, places[0].workspace_number as usize);
        out.append("/");
        out.append(places[0].client_short_id.as_str());
        if !places[0].active {
            out.append("+");
        }
        if places.len() != 1 {
            out.append(" +");
            push_decimal(&mut out, places.len() - 1);
        }
    }
    assert(out@ =~= attached_text(*server));
    out
}

pub open spec fn status_text(status: ServerPaneStatus) -> Seq<char> {
    match status {
        ServerPaneStatus::Running => "Running"@,
        ServerPaneStatus::Dead => "Dead"@,
    }
}

/// The name of the process in the foreground.
pub open spec fn process_text(server: ServerPaneInfo) -> Seq<char> {
    match server.foreground {
        Some(process) => process.process_name@,
        None => "-"@,
    }
}

/// The columns of a server-pane's row after its name.
pub open spec fn columns_text(server: ServerPaneInfo) -> Seq<char> {
    " "@ + padded(truncated(attached_text(server), 10), 10) + " "@ + padded(tag_of(server), 10)
        + " "@ + padded(truncated(process_text(server), 10), 10) + " "@ + server.short_id@ + " "@
        + status_text(server.status)
}

/// The name that a server-pane goes by: its own, else its short id.
pub open spec fn display_name(server: ServerPaneInfo) -> Seq<char> {
    match server.name {
        Some(name) => name@,
        None => server.short_id@,
    }
}

/// A server-pane's row: a mark if it was just detached, one if it is selected, its
/// name or the rename field, and its columns.
pub open spec fn server_row_text(
    server: ServerPaneInfo,
    selected: bool,
    delete_armed: bool,
    renaming: Option<Seq<char>>,
    just_detached: bool,
) -> Seq<char> {
    "  "@ + mark(just_detached, "*"@) + mark(selected, ">"@) + " "@ + match renaming {
        Some(typed) => "["@ + typed + "]"@ + columns_text(server),
        None => padded(truncated(display_name(server), 28), 28) + columns_text(server) + (
        if delete_armed {
            "  [x/Enter: confirm delete]"@
        } else {
            seq![]
        }),
    }
}

/// The style of a server-pane's row.
pub open spec fn server_row_style(selected: bool, delete_armed: bool, renaming: bool) -> LineStyle {
    LineStyle {
        bold: false,
        reversed: selected || delete_armed || renaming,
        fg: if delete_armed && !renaming {
            Some(Color::Red)
        } else {
            None
        },
    }
}

fn push_columns(text: &mut String, server: &ServerPaneInfo)
    ensures
        final(text)@ == old(text)@ + columns_text(*server),
{
    let attached = attached_column(server);
    let attached = truncate_end(attached.as_str(), ATTACHED_COL_WIDTH);
    let tag = session_tag(server);
    let process = match &server.foreground {
        Some(process) => truncate_end(process.process_name.as_str(), PROCESS_COL_WIDTH),
        None => truncate_end("-", PROCESS_COL_WIDTH),
    };
    text.append(" ");
    push_padded(text, attached.as_str(), ATTACHED_COL_WIDTH);
    text.append(" ");
    push_padded(text, tag.as_str(), TAG_COL_WIDTH);
    text.append(" ");
    push_padded(text, process.as_str(), PROCESS_COL_WIDTH);
    text.append(" ");
    text.append(server.short_id.as_str());
    text.append(" ");
    match server.status {
        ServerPaneStatus::Running => {
            text.append("Running");
        },
        ServerPaneStatus::Dead => {
            text.append("Dead");
        },
    }
    assert(text@ =~= old(text)@ + columns_text(*server));
}

/// What is typed in a rename field, if there is one.
pub open spec fn typed_name(renaming: Option<&RenameState>) -> Option<Seq<char>> {
    match renaming {
        Some(field) => Some(field.text@),
        None => None,
    }
}

/// A server-pane's line.
pub fn attach_menu_line(
    server: &ServerPaneInfo,
    selected: bool,
    delete_armed: bool,
    renaming: Option<&RenameState>,
    just_detached: bool,
) -> (r: StyledLine)
    ensures
        line_view(r) == (
            server_row_text(*server, selected, delete_armed, typed_name(renaming), just_detached),
            server_row_style(selected, delete_armed, renaming is Some),
        ),
{
    let mut text = String::new();
    text.append("  ");
    push_mark(&mut text, just_detached, "*");
    push_mark(&mut text, selected, ">");
    text.append(" ");
    match renaming {
        Some(field) => {
            text.append("[");
            text.append(field.text.as_str());
            text.append("]");
            push_columns(&mut text, server);
        },
        None => {
            let name = match &server.name {
                Some(name) => truncate_end(name.as_str(), NAME_COL_WIDTH),
                None => truncate_end(server.short_id.as_str(), NAME_COL_WIDTH),
            };
            push_padded(&mut text, name.as_str(), NAME_COL_WIDTH);
            push_columns(&mut text, server);
            if delete_armed {
                text.append("  [x/Enter: confirm delete]");
            }
        },
    }
    assert(text@ =~= server_row_text(
        *server,
        selected,
        delete_armed,
        typed_name(renaming),
        just_detached,
    ));
    let is_renaming = renaming.is_some();
    StyledLine {
        text,
        style: LineStyle {
            bold: false,
            reversed: selected || delete_armed || is_renaming,
            fg: if delete_armed && !is_renaming {
                Some(Color::Red)
            } else {
                None
            },
        },
    }
}

/// The line that spawns a new server-pane.
pub fn spawn_new_line(selected: bool) -> (r: StyledLine)
    ensures
        line_view(r) == (mark(selected, ">"@) + " spawn new..."@, highlight(selected)),
{
    let mut text = String::new();
    push_mark(&mut text, selected, ">");
    text.append(" spawn new...");
    assert(text@ =~= mark(selected, ">"@) + " spawn new..."@);
    StyledLine { text, style: LineStyle { bold: false, reversed: selected, fg: None } }
}

/// The line below a field that shows the last complaint about it.
pub open spec fn error_lines(error: Option<String>) -> Seq<(Seq<char>, LineStyle)> {
    match error {
        Some(error) => seq![
            (
                "    "@ + error@,
                LineStyle { bold: false, reversed: false, fg: Some(Color::Red) },
            ),
        ],
        None => seq![],
    }
}

fn push_error(lines: &mut Vec<StyledLine>, error: &Option<String>)
    ensures
        line_views(final(lines)@) == line_views(old(lines)@) + error_lines(*error),
{
    let ghost before = line_views(lines@);
    match error {
        Some(error) => {
            let mut text = String::new();
            text.append("    ");
            text.append(error.as_str());
            assert(text@ =~= "    "@ + error@);
            lines.push(
                StyledLine {
                    text,
                    style: LineStyle { bold: false, reversed: false, fg: Some(Color::Red) },
                },
            );
        },
        None => {},
    }
    assert(line_views(lines@) =~= before + error_lines(*error));
}

/// The lines of one row of the menu.
pub open spec fn row_lines(
    menu: AttachMenu,
    collapsed: Set<Seq<char>>,
    pinned: Seq<Seq<char>>,
    row: AttachMenuRow,
    selected: bool,
) -> Seq<(Seq<char>, LineStyle)> {
    match row {
        AttachMenuRow::GroupHeader(i) => {
            let group = menu.servers@[i as int].0@;
            seq![
                (
                    header_text(group, collapsed.contains(group), pinned.contains(group)),
                    LineStyle { bold: true, reversed: selected, fg: None },
                ),
            ]
        },
        AttachMenuRow::Server(i) => {
            let server = menu.servers@[i as int].1;
            let armed = menu.pending_delete == Some(i);
            let detached = menu.previously_bound == Some(server.id);
            match menu.rename {
                Some(field) if field.index == i => seq![
                    (
                        server_row_text(server, selected, armed, Some(field.text@), detached),
                        server_row_style(selected, armed, true),
                    ),
                ] + error_lines(field.error),
                _ => seq![
                    (
                        server_row_text(server, selected, armed, None, detached),
                        server_row_style(selected, armed, false),
                    ),
                ],
            }
        },
        AttachMenuRow::SpawnNewInGroup(i) => {
            let group = menu.servers@[i as int].0@;
            match menu.spawn_in_group {
                Some(field) if field.group_server_index == i => seq![
                    (spawn_in_group_text(group, selected, Some(field.text@)), highlight(true)),
                ] + error_lines(field.error),
                _ => seq![(spawn_in_group_text(group, selected, None), highlight(selected))],
            }
        },
        AttachMenuRow::SpawnNew => seq![
            (mark(selected, ">"@) + " spawn new..."@, highlight(selected)),
        ],
    }
}

/// The lines of the first `n` of the menu's rows.
pub open spec fn rows_lines(
    menu: AttachMenu,
    collapsed: Set<Seq<char>>,
    pinned: Seq<Seq<char>>,
    rows: Seq<AttachMenuRow>,
    n: int,
) -> Seq<(Seq<char>, LineStyle)>
    decreases n,
{
    if n <= 0 {
        seq![]
    } else {
        rows_lines(menu, collapsed, pinned, rows, n - 1) + row_lines(
            menu,
            collapsed,
            pinned,
            rows[n - 1],
            n - 1 == menu.selected,
        )
    }
}

fn is_pinned(group: &str, pinned: &Vec<String>) -> (r: bool)
    ensures
        r == views(pinned@).contains(group@),
{
    let mut i: usize = 0;
    while i < pinned.len()
        invariant
            i <= pinned@.len(),
            forall|j: int| 0 <= j < i ==> (#[trigger] views(pinned@)[j]) != group@,
        decreases pinned@.len() - i,
    {
        assert(views(pinned@)[i as int] == pinned@[i as int]@);
        if same_text(pinned[i].as_str(), group) {
            return true;
        }
        i += 1;
    }
    false
}

fn push_row(
    lines: &mut Vec<StyledLine>,
    menu: &AttachMenu,
    collapsed: &StringHashSet,
    pinned: &Vec<String>,
    row: AttachMenuRow,
    selected: bool,
)
    requires
        row_index(row) matches Some(i) ==> i < menu.servers@.len(),
    ensures
        line_views(final(lines)@) == line_views(old(lines)@) + row_lines(
            *menu,
            collapsed@,
            views(pinned@),
            row,
            selected,
        ),
{
    let ghost before = line_views(lines@);
    match row {
        AttachMenuRow::GroupHeader(i) => {
            let group = menu.servers[i].0.as_str();
            lines.push(
                group_header_line(
                    group,
                    collapsed.contains(group),
                    is_pinned(group, pinned),
                    selected,
                ),
            );
        },
        AttachMenuRow::Server(i) => {
            let server = &menu.servers[i].1;
            let armed = match menu.pending_delete {
                Some(k) => k == i,
                None => false,
            };
            let detached = match menu.previously_bound {
                Some(id) => id == server.id,
                None => false,
            };
            match &menu.rename {
                Some(field) => {
                    if field.index == i {
                        lines.push(attach_menu_line(server, selected, armed, Some(field), detached));
                        assert(line_views(lines@) =~= before.push(line_view(lines@.last())));
                        push_error(lines, &field.error);
                    } else {
                        lines.push(attach_menu_line(server, selected, armed, None, detached));
                    }
                },
                None => {
                    lines.push(attach_menu_line(server, selected, armed, None, detached));
                },
            }
        },
        AttachMenuRow::SpawnNewInGroup(i) => {
            let group = menu.servers[i].0.as_str();
            match &menu.spawn_in_group {
                Some(field) => {
                    if field.group_server_index == i {
                        lines.push(spawn_new_in_group_line(group, selected, Some(field)));
                        assert(line_views(lines@) =~= before.push(line_view(lines@.last())));
                        push_error(lines, &field.error);
                    } else {
                        lines.push(spawn_new_in_group_line(group, selected, None));
                    }
                },
                None => {
                    lines.push(spawn_new_in_group_line(group, selected, None));
                },
            }
        },
        AttachMenuRow::SpawnNew => {
            lines.push(spawn_new_line(selected));
        },
    }
    assert(line_views(lines@) =~= before + row_lines(
        *menu,
        collapsed@,
        views(pinned@),
        row,
        selected,
    ));
}

/// The lines of the attach menu.
pub fn attach_menu_lines(
    menu: &AttachMenu,
    collapsed: &StringHashSet,
    grouped: bool,
    pinned: &Vec<String>,
) -> (r: Vec<StyledLine>)
    ensures
        line_views(r@) == ({
            let rows = menu_rows(keys(menu.servers@), collapsed@, grouped);
            rows_lines(*menu, collapsed@, views(pinned@), rows, rows.len() as int)
        }),
{
    let count: usize = menu.servers.len();
    let rows = visible_attach_menu_rows(&menu.servers, collapsed, grouped);
    proof {
        assert(count == menu.servers@.len());
        rows_name_listed_panes(keys(menu.servers@), collapsed@, grouped);
    }
    let mut out: Vec<StyledLine> = Vec::new();
    let mut i: usize = 0;
    while i < rows.len()
        invariant
            i <= rows@.len(),
            rows@ == menu_rows(keys(menu.servers@), collapsed@, grouped),
            forall|r: int|
                0 <= r < rows@.len() ==> (row_index(#[trigger] rows@[r]) matches Some(k) ==> k
                    < menu.servers@.len()),
            line_views(out@) =~= rows_lines(
                *menu,
                collapsed@,
                views(pinned@),
                rows@,
                i as int,
            ),
        decreases rows@.len() - i,
    {
        push_row(&mut out, menu, collapsed, pinned, rows[i], i == menu.selected);
        i += 1;
    }
    out
}

/// The server-pane whose row is selected.
pub open spec fn selected_server(menu: AttachMenu, rows: Seq<AttachMenuRow>) -> Option<
    ServerPaneInfo,
> {
    if menu.selected < rows.len() {
        match rows[menu.selected as int] {
            AttachMenuRow::Server(i) => Some(menu.servers@[i as int].1),
            _ => None,
        }
    } else {
        None
    }
}

/// What the preview shows: the end of the selected server-pane's screen, as much
/// as fits; nothing while that screen has not been fetched.
pub open spec fn preview_text(
    selected: Option<ServerPaneInfo>,
    preview: Option<(ServerPaneId, String)>,
    interior: int,
) -> Seq<char> {
    match (selected, preview) {
        (Some(server), Some((id, text))) if id == server.id => {
            let lines = crate::text::lines_of(text@);
            joined(
                lines.skip(
                    if lines.len() > interior {
                        lines.len() - interior
                    } else {
                        0
                    },
                ),
                seq!['\n'],
            )
        },
        _ => seq![],
    }
}

/// The preview's title: the selected server-pane's name.
pub open spec fn preview_title(selected: Option<ServerPaneInfo>) -> Seq<char> {
    match selected {
        Some(server) => display_name(server),
        None => "Preview"@,
    }
}

/// The last `interior` lines of a text.
pub fn last_lines(text: &str, interior: usize) -> (r: String)
    ensures
        r@ == ({
            let lines = crate::text::lines_of(text@);
            joined(
                lines.skip(
                    if lines.len() > interior {
                        lines.len() - interior
                    } else {
                        0
                    },
                ),
                seq!['\n'],
            )
        }),
{
    let lines = crate::text::lines(text);
    let from: usize = if lines.len() > interior {
        lines.len() - interior
    } else {
        0
    };
    join_lines(&lines, from)
}

/// The rows within the border of a panel that is `height` rows high.
pub open spec fn rows_within_border(height: u16) -> int {
    if height >= 2 {
        height - 2
    } else {
        0
    }
}

/// The title and the text of the preview, whose panel is `height` rows high with
/// its border.
pub fn attach_menu_preview(
    menu: &AttachMenu,
    collapsed: &StringHashSet,
    grouped: bool,
    preview: &Option<(ServerPaneId, String)>,
    height: u16,
) -> (r: (String, String))
    ensures
        ({
            let rows = menu_rows(keys(menu.servers@), collapsed@, grouped);
            let selected = selected_server(*menu, rows);
            let interior: int = if height >= 2 {
                height - 2
            } else {
                0
            };
            &&& r.0@ == preview_title(selected)
            &&& r.1@ == preview_text(selected, *preview, interior)
            &&& interior == rows_within_border(height)
        }),
{
    let count: usize = menu.servers.len();
    let rows = visible_attach_menu_rows(&menu.servers, collapsed, grouped);
    proof {
        assert(count == menu.servers@.len());
        rows_name_listed_panes(keys(menu.servers@), collapsed@, grouped);
    }
    let interior: usize = if height >= 2 {
        (height - 2) as usize
    } else {
        0
    };
    let selected: Option<usize> = if menu.selected < rows.len() {
        match rows[menu.selected] {
            AttachMenuRow::Server(i) => Some(i),
            _ => None,
        }
    } else {
        None
    };
    match selected {
        None => {
            let nothing = String::new();
            assert(nothing@ =~= seq![]);
            ("Preview".to_owned(), nothing)
        },
        Some(i) => {
            let server = &menu.servers[i].1;
            let title = match &server.name {
                Some(name) => name.clone(),
                None => server.short_id.clone(),
            };
            let text = match preview {
                Some((id, text)) => {
                    if *id == server.id {
                        last_lines(text.as_str(), interior)
                    } else {
                        String::new()
                    }
                },
                None => String::new(),
            };
            (title, text)
        },
    }
}

/// How many rows the preview panel has, with its border. It never changes, so
/// that the list above it does not jump.
pub const PREVIEW_PANEL_HEIGHT: u16 = 12;

/// Where the menu stands on a screen: the whole of it, the list and the preview
/// panel.
pub open spec fn menu_areas(frame: Rect) -> (Rect, Rect, Rect) {
    let popup = centered(85, 60, frame);
    let (list, panel) = list_above_panel(popup, PREVIEW_PANEL_HEIGHT);
    (popup, list, panel)
}

/// Where the menu stands on a screen: the whole of it, the list and the preview
/// panel.
pub fn attach_menu_areas(frame: Rect) -> (r: (Rect, Rect, Rect))
    ensures
        r == menu_areas(frame),
        r.0 == centered(85, 60, frame),
        (r.1, r.2) == list_above_panel(r.0, PREVIEW_PANEL_HEIGHT),
        r.0.inside(frame),
        r.1.inside(r.0),
        r.2.inside(r.0),
{
    let popup = centered_rect(85, 60, frame);
    let (list, panel) = list_and_panel(popup, PREVIEW_PANEL_HEIGHT);
    (popup, list, panel)
}

/// The keys of the menu, shown below its rows.
pub fn attach_menu_key_hints() -> (r: &'static str)
    ensures
        r@ == "↑↓ move · Enter attach · x del · r rename · p pin · f agents · g group · d detach · q quit · Esc cancel"@,
{
    "↑↓ move · Enter attach · x del · r rename · p pin · f agents · g group · d detach · q quit · Esc cancel"
}

} // verus!
