use dimax::geometry::Rect;
use dimax::layout::place;
use dimax::menu::{AttachMenu, RenameState, SpawnInGroupState, StringHashSet};
use dimax::protocol::{
    AttachedBinding, Cell, ClientPane, ClientPaneId, CursorPosition, ForegroundProcessInfo,
    GridSnapshot, Rgb, ServerPaneId, ServerPaneInfo, ServerPaneStatus, SplitDir, SplitTree,
    WorkspaceInfo,
};
use dimax::render::{
    attach_menu_areas, attach_menu_key_hints, attach_menu_lines, attach_menu_preview,
    attached_column, grid_to_text, group_header_line, last_lines, pane_view, place_cursor,
    session_tag, spawn_new_in_group_line, spawn_new_line, title_inner, CellStyle, Color,
    LineStyle, PaneBody, Run, StyledLine,
};
use dimax::selection::{GridPosition, TextSelection};
use dimax::text::{lines, trim_end, truncate_end, white_space};
use ratatui::backend::TestBackend;
use ratatui::layout::{Alignment, Position};
use ratatui::style::{Color as PaintColor, Modifier, Style};
use ratatui::text::{Line, Span, Text};
use ratatui::widgets::{Block, Borders, Clear, Paragraph};
use ratatui::{Frame, Terminal};
use std::collections::HashMap;

fn fresh() -> u128 {
    uuid::Uuid::new_v4().as_u128()
}

#[derive(Debug, Clone, Copy)]
enum SessionKind {
    Claude,
}

impl SessionKind {
    fn name(self) -> String {
        format!("{self:?}").to_lowercase()
    }
}

fn blank_lines(rows: usize, cols: usize) -> Vec<Vec<Cell>> {
    (0..rows)
        .map(|_| (0..cols).map(|_| simple_cell(" ")).collect())
        .collect()
}

fn area_of(frame: &Frame) -> Rect {
    let area = frame.area();
    Rect { x: area.x, y: area.y, width: area.width, height: area.height }
}

fn paint_area(area: Rect) -> ratatui::layout::Rect {
    ratatui::layout::Rect { x: area.x, y: area.y, width: area.width, height: area.height }
}

fn paint_color(color: Color) -> PaintColor {
    match color {
        Color::White => PaintColor::White,
        Color::Red => PaintColor::Red,
        Color::Rgb(Rgb(r, g, b)) => PaintColor::Rgb(r, g, b),
    }
}

fn paint_run(run: Run) -> Span<'static> {
    let mut style = Style::new();
    if let Some(fg) = run.style.fg {
        style = style.fg(paint_color(fg));
    }
    if let Some(bg) = run.style.bg {
        style = style.bg(paint_color(bg));
    }
    if run.style.reverse {
        style = style.add_modifier(Modifier::REVERSED);
    }
    Span::styled(run.text, style)
}

fn paint_line(line: StyledLine) -> Line<'static> {
    let mut style = Style::new();
    if line.style.bold {
        style = style.add_modifier(Modifier::BOLD);
    }
    if line.style.reversed {
        style = style.add_modifier(Modifier::REVERSED);
    }
    if let Some(fg) = line.style.fg {
        style = style.fg(paint_color(fg));
    }
    Line::styled(line.text, style)
}

fn draw(
    frame: &mut Frame,
    workspace: &WorkspaceInfo,
    grids: &HashMap<ServerPaneId, GridSnapshot>,
    names: &HashMap<ServerPaneId, ServerPaneInfo>,
    focused: Option<ClientPaneId>,
) {
    draw_with_selection(frame, workspace, grids, names, focused, None);
}

fn draw_with_selection(
    frame: &mut Frame,
    workspace: &WorkspaceInfo,
    grids: &HashMap<ServerPaneId, GridSnapshot>,
    names: &HashMap<ServerPaneId, ServerPaneInfo>,
    focused: Option<ClientPaneId>,
    selection: Option<&TextSelection>,
) {
    let Some(tree) = &workspace.tree else {
        let placeholder = Paragraph::new("(empty workspace \u{2014} press cmd-d to spawn a pane)");
        frame.render_widget(placeholder.block(Block::bordered().title("dimax")), frame.area());
        return;
    };
    let placement = place(tree, area_of(frame), None);
    for hit in placement.divider_rects() {
        if hit.dir == SplitDir::Vertical {
            let line = Line::from("\u{2502}").alignment(Alignment::Center);
            let text = Text::from(vec![line; hit.grab_zone.height as usize]);
            frame.render_widget(Paragraph::new(text), paint_area(hit.grab_zone));
        }
    }
    for (id, area) in placement.leaf_rects() {
        let pane = workspace.find(id).unwrap();
        draw_leaf(frame, pane, paint_area(area), grids, names, focused, selection);
    }
}

fn draw_leaf(
    frame: &mut Frame,
    pane: &ClientPane,
    area: ratatui::layout::Rect,
    grids: &HashMap<ServerPaneId, GridSnapshot>,
    names: &HashMap<ServerPaneId, ServerPaneInfo>,
    focused: Option<ClientPaneId>,
    selection: Option<&TextSelection>,
) {
    let view = pane_view(pane, grids, names, focused, selection.copied());
    let block = Block::default().borders(Borders::TOP).title(view.title);
    let inner = title_inner(Rect { x: area.x, y: area.y, width: area.width, height: area.height });
    assert_eq!(paint_area(inner), block.inner(area));
    match view.body {
        PaneBody::Unbound => {
            frame.render_widget(Paragraph::new("(unbound)").block(block), area);
        }
        PaneBody::Closed => {
            frame.render_widget(Paragraph::new("(server-pane closed)").block(block), area);
        }
        PaneBody::Screen(id) => {
            let text: Vec<Line> = grid_to_text(&grids[&id], view.selection)
                .into_iter()
                .map(|row| Line::from(row.into_iter().map(paint_run).collect::<Vec<_>>()))
                .collect();
            frame.render_widget(Paragraph::new(text).block(block), area);
            if view.is_focused {
                if let Some(cursor) = place_cursor(&grids[&id], inner) {
                    frame.set_cursor_position(cursor);
                }
            }
        }
    }
}

fn draw_attach_menu(
    frame: &mut Frame,
    menu: &AttachMenu,
    collapsed: &StringHashSet,
    grouped: bool,
    preview: Option<&(ServerPaneId, String)>,
    pinned: &Vec<String>,
) {
    let (popup, list, panel) = attach_menu_areas(area_of(frame));
    frame.render_widget(Clear, paint_area(popup));
    let lines: Vec<Line> = attach_menu_lines(menu, collapsed, grouped, pinned)
        .into_iter()
        .map(paint_line)
        .collect();
    let block = Block::bordered()
        .title("Attach server-pane")
        .title_bottom(Line::from(attach_menu_key_hints()).right_aligned());
    frame.render_widget(Paragraph::new(lines).block(block), paint_area(list));
    let (title, text) = attach_menu_preview(menu, collapsed, grouped, &preview.cloned(), panel.height);
    frame.render_widget(
        Paragraph::new(text).block(Block::bordered().title(title)),
        paint_area(panel),
    );
}

fn buffer_contains(terminal: &Terminal<TestBackend>, needle: &str) -> bool {
    let buffer = terminal.backend().buffer();
    let content: String = buffer.content().iter().map(|c| c.symbol()).collect();
    content.contains(needle)
}

#[test]
fn grid_to_text_merges_adjacent_cells_with_identical_style() {
    let snapshot = GridSnapshot {
        server_pane: fresh(),
        cursor: CursorPosition { col: 0, row: 0 },
        lines: vec![vec![
            simple_cell("a"),
            simple_cell("b"),
            Cell {
                text: "c".to_string(),
                fg: Some(Rgb(80, 200, 120)),
                bg: None,
                bold: false,
                italic: false,
                underline: false,
                reverse: false,
            },
        ]],
        scroll_offset: 0,
    };

    let text = grid_to_text(&snapshot, None);
    assert_eq!(text.len(), 1);
    let spans = &text[0];
    assert_eq!(
        spans.len(),
        2,
        "expected \"ab\" merged into one span and \"c\" as a second, distinctly-styled span: {spans:?}"
    );
    assert_eq!(spans[0].text, "ab");
    assert_eq!(spans[1].text, "c");
}

#[test]
fn grid_to_text_breaks_merge_at_a_selection_boundary() {
    let snapshot = GridSnapshot {
        server_pane: fresh(),
        cursor: CursorPosition { col: 0, row: 0 },
        lines: vec![vec![simple_cell("a"), simple_cell("b"), simple_cell("c")]],
        scroll_offset: 0,
    };
    let pane_id = fresh();
    let mut selection = TextSelection::new(
        pane_id,
        snapshot.server_pane,
        GridPosition { row: 0, col: 1 },
    );
    selection.finish(GridPosition { row: 0, col: 1 });

    let text = grid_to_text(&snapshot, Some(selection));
    let spans = &text[0];
    assert_eq!(
        spans.len(),
        3,
        "\"a\" | \"b\" (selected) | \"c\" must stay three distinct spans: {spans:?}"
    );
    assert_eq!(spans[0].text, "a");
    assert_eq!(spans[1].text, "b");
    assert_eq!(spans[2].text, "c");
}

fn buffer_row_containing(terminal: &Terminal<TestBackend>, needle: &str) -> String {
    let buffer = terminal.backend().buffer();
    let width = buffer.area.width as usize;
    let symbols: Vec<&str> = buffer.content().iter().map(|c| c.symbol()).collect();
    symbols
        .chunks(width)
        .map(|row| row.concat())
        .find(|row| row.contains(needle))
        .unwrap_or_else(|| panic!("no row in the buffer contained {needle:?}"))
}

fn buffer_row_index_containing(terminal: &Terminal<TestBackend>, needle: &str) -> usize {
    let buffer = terminal.backend().buffer();
    let width = buffer.area.width as usize;
    let symbols: Vec<&str> = buffer.content().iter().map(|c| c.symbol()).collect();
    symbols
        .chunks(width)
        .map(|row| row.concat())
        .position(|row| row.contains(needle))
        .unwrap_or_else(|| panic!("no row in the buffer contained {needle:?}"))
}

fn empty_workspace() -> WorkspaceInfo {
    WorkspaceInfo {
        id: fresh(),
        tree: None,
    }
}

fn leaf_pane(bound: Option<ServerPaneId>) -> ClientPane {
    ClientPane {
        id: fresh(),
        tabs: bound.into_iter().collect(),
        active_tab: 0,
        short_id: "aa".to_string(),
    }
}

fn workspace_with_tree(tree: SplitTree) -> WorkspaceInfo {
    WorkspaceInfo {
        id: fresh(),
        tree: Some(tree),
    }
}

fn simple_cell(text: &str) -> Cell {
    Cell {
        text: text.to_string(),
        fg: None,
        bg: None,
        bold: false,
        italic: false,
        underline: false,
        reverse: false,
    }
}

#[test]
fn draw_empty_workspace_shows_placeholder() {
    let workspace = empty_workspace();
    let grids = HashMap::new();
    let backend = TestBackend::new(40, 10);
    let mut terminal = Terminal::new(backend).unwrap();
    terminal
        .draw(|frame| draw(frame, &workspace, &grids, &HashMap::new(), None))
        .unwrap();
    assert!(buffer_contains(&terminal, "empty workspace"));
}

#[test]
fn draw_unbound_leaf_shows_placeholder() {
    let pane = leaf_pane(None);
    let workspace = workspace_with_tree(SplitTree::Leaf(pane));
    let grids = HashMap::new();
    let backend = TestBackend::new(40, 10);
    let mut terminal = Terminal::new(backend).unwrap();
    terminal
        .draw(|frame| draw(frame, &workspace, &grids, &HashMap::new(), None))
        .unwrap();
    assert!(buffer_contains(&terminal, "unbound"));
}

#[test]
fn draw_leaf_falls_back_to_short_id_when_unnamed() {
    let pane = leaf_pane(None);
    let backend = TestBackend::new(40, 6);
    let mut terminal = Terminal::new(backend).unwrap();
    let grids = HashMap::new();
    terminal
        .draw(|frame| {
            draw_leaf(
                frame,
                &pane,
                frame.area(),
                &grids,
                &HashMap::new(),
                None,
                None,
            )
        })
        .unwrap();
    assert!(buffer_contains(&terminal, &pane.short_id));
}

#[test]
fn draw_bound_leaf_with_missing_snapshot_shows_closed_placeholder() {
    let server_pane_id = fresh();
    let pane = leaf_pane(Some(server_pane_id));
    let workspace = workspace_with_tree(SplitTree::Leaf(pane));
    let grids = HashMap::new();
    let backend = TestBackend::new(40, 10);
    let mut terminal = Terminal::new(backend).unwrap();
    terminal
        .draw(|frame| draw(frame, &workspace, &grids, &HashMap::new(), None))
        .unwrap();
    assert!(buffer_contains(&terminal, "server-pane closed"));
}

#[test]
fn draw_bound_leaf_with_snapshot_renders_grid_text() {
    let server_pane_id = fresh();
    let pane = leaf_pane(Some(server_pane_id));
    let workspace = workspace_with_tree(SplitTree::Leaf(pane));
    let mut grids = HashMap::new();
    grids.insert(
        server_pane_id,
        GridSnapshot {
            server_pane: server_pane_id,
            cursor: CursorPosition { col: 0, row: 0 },
            lines: vec![vec![simple_cell("h"), simple_cell("i")]],
            scroll_offset: 0,
        },
    );
    let backend = TestBackend::new(40, 10);
    let mut terminal = Terminal::new(backend).unwrap();
    terminal
        .draw(|frame| draw(frame, &workspace, &grids, &HashMap::new(), None))
        .unwrap();
    assert!(buffer_contains(&terminal, "hi"));
}

#[test]
fn draw_places_the_real_cursor_at_the_snapshots_reported_position_when_focused() {
    let pane_id = fresh();
    let server_pane_id = fresh();
    let pane = ClientPane {
        id: pane_id,
        tabs: vec![server_pane_id],
        active_tab: 0,
        short_id: "aa".to_string(),
    };
    let workspace = workspace_with_tree(SplitTree::Leaf(pane));
    let mut grids = HashMap::new();
    grids.insert(
        server_pane_id,
        GridSnapshot {
            server_pane: server_pane_id,
            cursor: CursorPosition { col: 4, row: 1 },
            lines: blank_lines(3, 10),
            scroll_offset: 0,
        },
    );
    let backend = TestBackend::new(40, 10);
    let mut terminal = Terminal::new(backend).unwrap();
    terminal
        .draw(|frame| draw(frame, &workspace, &grids, &HashMap::new(), Some(pane_id)))
        .unwrap();
    assert_eq!(
        terminal.get_cursor_position().unwrap(),
        Position { x: 4, y: 2 }
    );
    assert!(terminal.backend().cursor_visible());
}

#[test]
fn draw_selection_highlights_only_selected_cells() {
    let pane_id = fresh();
    let server_pane_id = fresh();
    let pane = ClientPane {
        id: pane_id,
        tabs: vec![server_pane_id],
        active_tab: 0,
        short_id: "aa".to_string(),
    };
    let workspace = workspace_with_tree(SplitTree::Leaf(pane));
    let mut grids = HashMap::new();
    grids.insert(
        server_pane_id,
        GridSnapshot {
            server_pane: server_pane_id,
            cursor: CursorPosition { col: 0, row: 0 },
            lines: vec![vec![simple_cell("a"), simple_cell("b"), simple_cell("c")]],
            scroll_offset: 0,
        },
    );
    let mut selection = TextSelection::new(
        pane_id,
        server_pane_id,
        GridPosition { row: 0, col: 1 },
    );
    selection.finish(GridPosition { row: 0, col: 2 });

    let backend = TestBackend::new(10, 3);
    let mut terminal = Terminal::new(backend).unwrap();
    terminal
        .draw(|frame| {
            draw_with_selection(
                frame,
                &workspace,
                &grids,
                &HashMap::new(),
                None,
                Some(&selection),
            );
        })
        .unwrap();

    let buffer = terminal.backend().buffer();
    assert_eq!(buffer.cell((0, 1)).unwrap().bg, PaintColor::Reset);
    assert_eq!(buffer.cell((1, 1)).unwrap().bg, PaintColor::Rgb(70, 110, 170));
    assert_eq!(buffer.cell((2, 1)).unwrap().bg, PaintColor::Rgb(70, 110, 170));
}

#[test]
fn draw_does_not_place_the_cursor_when_the_leaf_is_not_focused() {
    let pane_id = fresh();
    let server_pane_id = fresh();
    let pane = ClientPane {
        id: pane_id,
        tabs: vec![server_pane_id],
        active_tab: 0,
        short_id: "aa".to_string(),
    };
    let workspace = workspace_with_tree(SplitTree::Leaf(pane));
    let mut grids = HashMap::new();
    grids.insert(
        server_pane_id,
        GridSnapshot {
            server_pane: server_pane_id,
            cursor: CursorPosition { col: 4, row: 1 },
            lines: blank_lines(3, 10),
            scroll_offset: 0,
        },
    );
    let backend = TestBackend::new(40, 10);
    let mut terminal = Terminal::new(backend).unwrap();
    terminal
        .draw(|frame| draw(frame, &workspace, &grids, &HashMap::new(), None))
        .unwrap();
    assert!(
        !terminal.backend().cursor_visible(),
        "cursor should stay hidden when unfocused"
    );
}

#[test]
fn draw_does_not_place_the_cursor_when_the_leaf_is_scrolled_back() {
    let pane_id = fresh();
    let server_pane_id = fresh();
    let pane = ClientPane {
        id: pane_id,
        tabs: vec![server_pane_id],
        active_tab: 0,
        short_id: "aa".to_string(),
    };
    let workspace = workspace_with_tree(SplitTree::Leaf(pane));
    let mut grids = HashMap::new();
    grids.insert(
        server_pane_id,
        GridSnapshot {
            server_pane: server_pane_id,
            cursor: CursorPosition { col: 4, row: 1 },
            lines: blank_lines(3, 10),
            scroll_offset: 2,
        },
    );
    let backend = TestBackend::new(40, 10);
    let mut terminal = Terminal::new(backend).unwrap();
    terminal
        .draw(|frame| draw(frame, &workspace, &grids, &HashMap::new(), Some(pane_id)))
        .unwrap();
    assert!(
        !terminal.backend().cursor_visible(),
        "cursor should stay hidden while scrolled back"
    );
}

#[test]
fn draw_leaf_shows_scrollback_indicator_when_scrolled() {
    let pane_id = fresh();
    let server_id = fresh();
    let pane = ClientPane {
        id: pane_id,
        tabs: vec![server_id],
        active_tab: 0,
        short_id: "aa".to_string(),
    };
    let mut grids = HashMap::new();
    grids.insert(
        server_id,
        GridSnapshot {
            server_pane: server_id,
            cursor: CursorPosition { col: 0, row: 0 },
            lines: blank_lines(5, 0),
            scroll_offset: 3,
        },
    );
    let backend = TestBackend::new(20, 6);
    let mut terminal = Terminal::new(backend).unwrap();
    terminal
        .draw(|frame| {
            draw_leaf(
                frame,
                &pane,
                frame.area(),
                &grids,
                &HashMap::new(),
                None,
                None,
            );
        })
        .unwrap();
    assert!(buffer_contains(&terminal, "scrollback"));
}

#[test]
fn draw_leaf_shows_no_scrollback_indicator_when_live() {
    let pane_id = fresh();
    let server_id = fresh();
    let pane = ClientPane {
        id: pane_id,
        tabs: vec![server_id],
        active_tab: 0,
        short_id: "aa".to_string(),
    };
    let mut grids = HashMap::new();
    grids.insert(
        server_id,
        GridSnapshot {
            server_pane: server_id,
            cursor: CursorPosition { col: 0, row: 0 },
            lines: blank_lines(5, 0),
            scroll_offset: 0,
        },
    );
    let backend = TestBackend::new(20, 6);
    let mut terminal = Terminal::new(backend).unwrap();
    terminal
        .draw(|frame| {
            draw_leaf(
                frame,
                &pane,
                frame.area(),
                &grids,
                &HashMap::new(),
                None,
                None,
            );
        })
        .unwrap();
    assert!(!buffer_contains(&terminal, "scrollback"));
}

#[test]
fn draw_leaf_shows_tab_count_only_when_multiple_tabs() {
    let pane_id = fresh();
    let sp1 = fresh();
    let sp2 = fresh();
    let pane = ClientPane {
        id: pane_id,
        tabs: vec![sp1, sp2],
        active_tab: 0,
        short_id: "aa".to_string(),
    };
    let grids = HashMap::new();
    let backend = TestBackend::new(40, 6);
    let mut terminal = Terminal::new(backend).unwrap();
    terminal
        .draw(|frame| {
            draw_leaf(
                frame,
                &pane,
                frame.area(),
                &grids,
                &HashMap::new(),
                None,
                None,
            )
        })
        .unwrap();
    assert!(buffer_contains(&terminal, "(1/2)"));
}

#[test]
fn draw_leaf_hides_tab_count_for_single_tab() {
    let pane_id = fresh();
    let sp = fresh();
    let pane = ClientPane {
        id: pane_id,
        tabs: vec![sp],
        active_tab: 0,
        short_id: "aa".to_string(),
    };
    let grids = HashMap::new();
    let mut names = HashMap::new();
    names.insert(
        sp,
        ServerPaneInfo {
            id: sp,
            name: Some("shell".to_string()),
            status: ServerPaneStatus::Running,
            foreground: None,
            short_id: "aa".to_string(),
            attached_to: Vec::new(),
        },
    );
    let backend = TestBackend::new(40, 6);
    let mut terminal = Terminal::new(backend).unwrap();
    terminal
        .draw(|frame| draw_leaf(frame, &pane, frame.area(), &grids, &names, None, None))
        .unwrap();
    assert!(!buffer_contains(&terminal, "(1/1)"));
    assert!(buffer_contains(&terminal, "shell"));
}

#[test]
fn draw_split_produces_no_panic_and_both_leaves_render() {
    let left_id = fresh();
    let right_id = fresh();
    let left = ClientPane {
        id: fresh(),
        tabs: vec![left_id],
        active_tab: 0,
        short_id: "aa".to_string(),
    };
    let right = ClientPane {
        id: fresh(),
        tabs: vec![right_id],
        active_tab: 0,
        short_id: "aa".to_string(),
    };
    let mut names = HashMap::new();
    names.insert(
        left_id,
        ServerPaneInfo {
            id: left_id,
            name: Some("left".to_string()),
            status: ServerPaneStatus::Running,
            foreground: None,
            short_id: "aa".to_string(),
            attached_to: Vec::new(),
        },
    );
    names.insert(
        right_id,
        ServerPaneInfo {
            id: right_id,
            name: Some("right".to_string()),
            status: ServerPaneStatus::Running,
            foreground: None,
            short_id: "ab".to_string(),
            attached_to: Vec::new(),
        },
    );
    let tree = SplitTree::Split {
        id: fresh(),
        dir: SplitDir::Vertical,
        percent: 50,
        a: Box::new(SplitTree::Leaf(left)),
        b: Box::new(SplitTree::Leaf(right)),
    };
    let workspace = workspace_with_tree(tree);
    let mut grids = HashMap::new();
    grids.insert(
        left_id,
        GridSnapshot {
            server_pane: left_id,
            cursor: CursorPosition { col: 0, row: 0 },
            lines: vec![vec![
                simple_cell("L"),
                simple_cell("E"),
                simple_cell("F"),
                simple_cell("T"),
            ]],
            scroll_offset: 0,
        },
    );
    grids.insert(
        right_id,
        GridSnapshot {
            server_pane: right_id,
            cursor: CursorPosition { col: 0, row: 0 },
            lines: vec![vec![
                simple_cell("R"),
                simple_cell("I"),
                simple_cell("G"),
                simple_cell("H"),
                simple_cell("T"),
            ]],
            scroll_offset: 0,
        },
    );
    let backend = TestBackend::new(40, 10);
    let mut terminal = Terminal::new(backend).unwrap();
    terminal
        .draw(|frame| draw(frame, &workspace, &grids, &names, None))
        .unwrap();
    assert!(buffer_contains(&terminal, "LEFT"));
    assert!(buffer_contains(&terminal, "RIGHT"));
    let buffer = terminal.backend().buffer();
    let width = buffer.area().width;
    let mut left_half = String::new();
    let mut right_half = String::new();
    for y in 0..buffer.area().height {
        for x in 0..width {
            let symbol = buffer.cell((x, y)).unwrap().symbol();
            if x < width / 2 {
                left_half.push_str(symbol);
            } else {
                right_half.push_str(symbol);
            }
        }
    }
    assert!(left_half.contains("left"));
    assert!(right_half.contains("right"));
}

#[test]
fn vertical_split_draws_single_shared_divider_column() {
    let left = ClientPane {
        id: fresh(),
        tabs: vec![],
        active_tab: 0,
        short_id: "aa".to_string(),
    };
    let right = ClientPane {
        id: fresh(),
        tabs: vec![],
        active_tab: 0,
        short_id: "aa".to_string(),
    };
    let tree = SplitTree::Split {
        id: fresh(),
        dir: SplitDir::Vertical,
        percent: 50,
        a: Box::new(SplitTree::Leaf(left)),
        b: Box::new(SplitTree::Leaf(right)),
    };
    let workspace = workspace_with_tree(tree);
    let grids = HashMap::new();
    let backend = TestBackend::new(41, 10);
    let mut terminal = Terminal::new(backend).unwrap();
    terminal
        .draw(|frame| draw(frame, &workspace, &grids, &HashMap::new(), None))
        .unwrap();

    let buffer = terminal.backend().buffer();
    let divider_columns = (0..buffer.area().width)
        .filter(|&x| buffer.cell((x, 1)).unwrap().symbol() == "│")
        .count();
    assert_eq!(
        divider_columns, 1,
        "expected exactly one shared divider column, not a doubled seam"
    );
}

#[test]
fn leaf_uses_top_only_border_not_a_full_box() {
    let pane = ClientPane {
        id: fresh(),
        tabs: vec![],
        active_tab: 0,
        short_id: "aa".to_string(),
    };
    let workspace = workspace_with_tree(SplitTree::Leaf(pane));
    let grids = HashMap::new();
    let backend = TestBackend::new(20, 6);
    let mut terminal = Terminal::new(backend).unwrap();
    terminal
        .draw(|frame| draw(frame, &workspace, &grids, &HashMap::new(), None))
        .unwrap();

    let buffer = terminal.backend().buffer();
    let last_row = buffer.area().height - 1;
    for x in 0..buffer.area().width {
        let symbol = buffer.cell((x, last_row)).unwrap().symbol();
        assert_ne!(symbol, "└", "bottom border should not be drawn");
        assert_ne!(symbol, "┘", "bottom border should not be drawn");
        assert_ne!(symbol, "─", "bottom border should not be drawn");
    }
}

#[test]
fn draw_attach_menu_shows_selected_item() {
    let server = ServerPaneInfo {
        id: fresh(),
        name: Some("editor".to_string()),
        status: ServerPaneStatus::Running,
        foreground: Some(ForegroundProcessInfo {
            process_name: "vim".to_string(),
            cwd: Some("/home/dev/project".to_string()),
            session_kind: None,
        }),
        short_id: "aa".to_string(),
        attached_to: Vec::new(),
    };
    let servers = vec![("/home/dev/project".to_string(), server)];
    let menu = AttachMenu {
        servers,
        selected: 0,
        pending_delete: None,
        rename: None,
        previously_bound: None,
        spawn_in_group: None,
        adding_tab: false,
    };
    let backend = TestBackend::new(100, 30);
    let mut terminal = Terminal::new(backend).unwrap();
    terminal
        .draw(|frame| draw_attach_menu(frame, &menu, &StringHashSet::new(), true, None, &vec![]))
        .unwrap();
    assert!(buffer_contains(&terminal, "editor"));
    assert!(buffer_contains(&terminal, "vim"));
    assert!(buffer_contains(&terminal, "/home/dev/project"));
    assert!(buffer_contains(&terminal, "spawn new"));
    assert!(buffer_contains(&terminal, "Attach server-pane"));
}

#[test]
fn session_tag_is_bracketed_kind_or_blank() {
    let mut server = ServerPaneInfo {
        id: fresh(),
        name: None,
        status: ServerPaneStatus::Running,
        foreground: Some(ForegroundProcessInfo {
            process_name: SessionKind::Claude.name(),
            cwd: None,
            session_kind: Some(SessionKind::Claude.name()),
        }),
        short_id: "aa".to_string(),
        attached_to: Vec::new(),
    };
    assert_eq!(session_tag(&server), format!("[{}]", SessionKind::Claude.name()));

    server.foreground = Some(ForegroundProcessInfo {
        process_name: "bash".to_string(),
        cwd: None,
        session_kind: None,
    });
    assert_eq!(session_tag(&server), "");

    server.foreground = None;
    assert_eq!(session_tag(&server), "");
}

#[test]
fn draw_attach_menu_shows_recognized_session_tag() {
    let server = ServerPaneInfo {
        id: fresh(),
        name: Some("my-session".to_string()),
        status: ServerPaneStatus::Running,
        foreground: Some(ForegroundProcessInfo {
            process_name: SessionKind::Claude.name(),
            cwd: Some("/home/dev/project".to_string()),
            session_kind: Some(SessionKind::Claude.name()),
        }),
        short_id: "aa".to_string(),
        attached_to: Vec::new(),
    };
    let servers = vec![("/home/dev/project".to_string(), server)];
    let menu = AttachMenu {
        servers,
        selected: 0,
        pending_delete: None,
        rename: None,
        previously_bound: None,
        spawn_in_group: None,
        adding_tab: false,
    };
    let backend = TestBackend::new(100, 30);
    let mut terminal = Terminal::new(backend).unwrap();
    terminal
        .draw(|frame| draw_attach_menu(frame, &menu, &StringHashSet::new(), true, None, &vec![]))
        .unwrap();
    assert!(buffer_contains(&terminal, "my-session"));
    assert!(buffer_contains(&terminal, &format!("[{}]", SessionKind::Claude.name())));
}

#[test]
fn draw_attach_menu_shows_no_tag_for_an_unrecognized_process() {
    let server = ServerPaneInfo {
        id: fresh(),
        name: Some("plain-shell".to_string()),
        status: ServerPaneStatus::Running,
        foreground: Some(ForegroundProcessInfo {
            process_name: "bash".to_string(),
            cwd: Some("/home/dev".to_string()),
            session_kind: None,
        }),
        short_id: "aa".to_string(),
        attached_to: Vec::new(),
    };
    let servers = vec![("/home/dev".to_string(), server)];
    let menu = AttachMenu {
        servers,
        selected: 0,
        pending_delete: None,
        rename: None,
        previously_bound: None,
        spawn_in_group: None,
        adding_tab: false,
    };
    let backend = TestBackend::new(100, 30);
    let mut terminal = Terminal::new(backend).unwrap();
    terminal
        .draw(|frame| draw_attach_menu(frame, &menu, &StringHashSet::new(), true, None, &vec![]))
        .unwrap();
    assert!(buffer_contains(&terminal, "plain-shell"));
    assert!(!buffer_contains(&terminal, "["));
}

#[test]
fn attached_column_renders_dash_for_no_bindings() {
    let server = ServerPaneInfo {
        id: fresh(),
        name: None,
        status: ServerPaneStatus::Running,
        foreground: None,
        short_id: "aa".to_string(),
        attached_to: Vec::new(),
    };
    assert_eq!(attached_column(&server), "-");
}

#[test]
fn attached_column_renders_active_binding() {
    let server = ServerPaneInfo {
        id: fresh(),
        name: None,
        status: ServerPaneStatus::Running,
        foreground: None,
        short_id: "aa".to_string(),
        attached_to: vec![AttachedBinding {
            workspace_number: 1,
            client_short_id: "aa".to_string(),
            active: true,
        }],
    };
    assert_eq!(attached_column(&server), "1/aa");
}

#[test]
fn attached_column_marks_background_tab_with_plus() {
    let server = ServerPaneInfo {
        id: fresh(),
        name: None,
        status: ServerPaneStatus::Running,
        foreground: None,
        short_id: "aa".to_string(),
        attached_to: vec![AttachedBinding {
            workspace_number: 2,
            client_short_id: "ab".to_string(),
            active: false,
        }],
    };
    assert_eq!(attached_column(&server), "2/ab+");
}

#[test]
fn attached_column_shows_overflow_count_for_multiple_bindings() {
    let server = ServerPaneInfo {
        id: fresh(),
        name: None,
        status: ServerPaneStatus::Running,
        foreground: None,
        short_id: "aa".to_string(),
        attached_to: vec![
            AttachedBinding {
                workspace_number: 1,
                client_short_id: "aa".to_string(),
                active: true,
            },
            AttachedBinding {
                workspace_number: 2,
                client_short_id: "ab".to_string(),
                active: false,
            },
            AttachedBinding {
                workspace_number: 3,
                client_short_id: "ac".to_string(),
                active: false,
            },
        ],
    };
    assert_eq!(attached_column(&server), "1/aa +2");
}

#[test]
fn draw_attach_menu_shows_the_attached_column() {
    let server = ServerPaneInfo {
        id: fresh(),
        name: Some("attached-session".to_string()),
        status: ServerPaneStatus::Running,
        foreground: None,
        short_id: "aa".to_string(),
        attached_to: vec![AttachedBinding {
            workspace_number: 1,
            client_short_id: "aa".to_string(),
            active: true,
        }],
    };
    let menu = AttachMenu {
        servers: vec![("Unknown".to_string(), server)],
        selected: 0,
        pending_delete: None,
        rename: None,
        previously_bound: None,
        spawn_in_group: None,
        adding_tab: false,
    };
    let backend = TestBackend::new(120, 30);
    let mut terminal = Terminal::new(backend).unwrap();
    terminal
        .draw(|frame| draw_attach_menu(frame, &menu, &StringHashSet::new(), true, None, &vec![]))
        .unwrap();
    assert!(buffer_contains(&terminal, "1/aa"));
}

#[test]
fn draw_attach_menu_shows_key_hints() {
    let menu = AttachMenu {
        servers: vec![],
        selected: 0,
        pending_delete: None,
        rename: None,
        previously_bound: None,
        spawn_in_group: None,
        adding_tab: false,
    };
    let backend = TestBackend::new(140, 30);
    let mut terminal = Terminal::new(backend).unwrap();
    terminal
        .draw(|frame| draw_attach_menu(frame, &menu, &StringHashSet::new(), true, None, &vec![]))
        .unwrap();
    assert!(buffer_contains(&terminal, "move"));
    assert!(buffer_contains(&terminal, "attach"));
    assert!(buffer_contains(&terminal, "cancel"));
}

#[test]
fn draw_attach_menu_key_hints_do_not_panic_on_a_narrow_popup() {
    let menu = AttachMenu {
        servers: vec![],
        selected: 0,
        pending_delete: None,
        rename: None,
        previously_bound: None,
        spawn_in_group: None,
        adding_tab: false,
    };
    let backend = TestBackend::new(40, 15);
    let mut terminal = Terminal::new(backend).unwrap();
    terminal
        .draw(|frame| draw_attach_menu(frame, &menu, &StringHashSet::new(), true, None, &vec![]))
        .unwrap();
}

#[test]
fn draw_attach_menu_preview_shows_text_when_it_matches_the_selected_pane() {
    let server = ServerPaneInfo {
        id: fresh(),
        name: Some("editor".to_string()),
        status: ServerPaneStatus::Running,
        foreground: None,
        short_id: "aa".to_string(),
        attached_to: Vec::new(),
    };
    let selected_id = server.id;
    let menu = AttachMenu {
        servers: vec![("Unknown".to_string(), server)],
        selected: 1,
        pending_delete: None,
        rename: None,
        previously_bound: None,
        spawn_in_group: None,
        adding_tab: false,
    };
    let preview = (selected_id, "some live pane output".to_string());
    let backend = TestBackend::new(100, 30);
    let mut terminal = Terminal::new(backend).unwrap();
    terminal
        .draw(|frame| {
            draw_attach_menu(frame, &menu, &StringHashSet::new(), true, Some(&preview), &vec![])
        })
        .unwrap();
    assert!(buffer_contains(&terminal, "some live pane output"));
    assert!(buffer_contains(&terminal, "editor"));
}

#[test]
fn draw_attach_menu_preview_blank_when_cached_pane_does_not_match_selection() {
    let server = ServerPaneInfo {
        id: fresh(),
        name: Some("editor".to_string()),
        status: ServerPaneStatus::Running,
        foreground: None,
        short_id: "aa".to_string(),
        attached_to: Vec::new(),
    };
    let menu = AttachMenu {
        servers: vec![("Unknown".to_string(), server)],
        selected: 1,
        pending_delete: None,
        rename: None,
        previously_bound: None,
        spawn_in_group: None,
        adding_tab: false,
    };
    let stale_preview = (
        fresh(),
        "stale output from a different pane".to_string(),
    );
    let backend = TestBackend::new(100, 30);
    let mut terminal = Terminal::new(backend).unwrap();
    terminal
        .draw(|frame| {
            draw_attach_menu(
                frame,
                &menu,
                &StringHashSet::new(),
                true,
                Some(&stale_preview),
                &vec![],
            )
        })
        .unwrap();
    assert!(!buffer_contains(
        &terminal,
        "stale output from a different pane"
    ));
}

#[test]
fn draw_attach_menu_preview_blank_when_selection_is_not_a_server_row() {
    let server = ServerPaneInfo {
        id: fresh(),
        name: Some("editor".to_string()),
        status: ServerPaneStatus::Running,
        foreground: Some(ForegroundProcessInfo {
            process_name: "vim".to_string(),
            cwd: Some("/home/dev/project".to_string()),
            session_kind: None,
        }),
        short_id: "aa".to_string(),
        attached_to: Vec::new(),
    };
    let server_id = server.id;
    let menu = AttachMenu {
        servers: vec![("/home/dev/project".to_string(), server)],
        selected: 0,
        pending_delete: None,
        rename: None,
        previously_bound: None,
        spawn_in_group: None,
        adding_tab: false,
    };
    let preview = (
        server_id,
        "should not appear while a header is selected".to_string(),
    );
    let backend = TestBackend::new(100, 30);
    let mut terminal = Terminal::new(backend).unwrap();
    terminal
        .draw(|frame| {
            draw_attach_menu(frame, &menu, &StringHashSet::new(), true, Some(&preview), &vec![])
        })
        .unwrap();
    assert!(!buffer_contains(
        &terminal,
        "should not appear while a header is selected"
    ));
}

#[test]
fn draw_attach_menu_preview_panel_height_is_the_same_with_or_without_content() {
    let server = ServerPaneInfo {
        id: fresh(),
        name: Some("editor".to_string()),
        status: ServerPaneStatus::Running,
        foreground: None,
        short_id: "aa".to_string(),
        attached_to: Vec::new(),
    };
    let server_id = server.id;
    let menu = AttachMenu {
        servers: vec![("Unknown".to_string(), server)],
        selected: 0,
        pending_delete: None,
        rename: None,
        previously_bound: None,
        spawn_in_group: None,
        adding_tab: false,
    };

    let backend_empty = TestBackend::new(100, 30);
    let mut terminal_empty = Terminal::new(backend_empty).unwrap();
    terminal_empty
        .draw(|frame| draw_attach_menu(frame, &menu, &StringHashSet::new(), true, None, &vec![]))
        .unwrap();
    let row_index_empty = buffer_row_index_containing(&terminal_empty, "editor");

    let preview = (server_id, "some content".to_string());
    let backend_filled = TestBackend::new(100, 30);
    let mut terminal_filled = Terminal::new(backend_filled).unwrap();
    terminal_filled
        .draw(|frame| {
            draw_attach_menu(frame, &menu, &StringHashSet::new(), true, Some(&preview), &vec![])
        })
        .unwrap();
    let row_index_filled = buffer_row_index_containing(&terminal_filled, "editor");

    assert_eq!(
        row_index_empty, row_index_filled,
        "the server row must land on the identical screen row whether or not the preview panel has content"
    );
}

#[test]
fn draw_attach_menu_preview_shows_the_last_lines_not_the_first_when_content_overflows() {
    let server = ServerPaneInfo {
        id: fresh(),
        name: Some("editor".to_string()),
        status: ServerPaneStatus::Running,
        foreground: None,
        short_id: "aa".to_string(),
        attached_to: Vec::new(),
    };
    let selected_id = server.id;
    let menu = AttachMenu {
        servers: vec![("Unknown".to_string(), server)],
        selected: 1,
        pending_delete: None,
        rename: None,
        previously_bound: None,
        spawn_in_group: None,
        adding_tab: false,
    };
    let full_text = (0..20)
        .map(|i| format!("line-{i}"))
        .collect::<Vec<_>>()
        .join("\n");
    let preview = (selected_id, full_text);
    let backend = TestBackend::new(100, 30);
    let mut terminal = Terminal::new(backend).unwrap();
    terminal
        .draw(|frame| {
            draw_attach_menu(frame, &menu, &StringHashSet::new(), true, Some(&preview), &vec![])
        })
        .unwrap();
    assert!(
        buffer_contains(&terminal, "line-19"),
        "the most recent line must be visible"
    );
    assert!(
        !buffer_row_matches_exactly(&terminal, "line-0"),
        "the earliest line should have scrolled off, not just be a substring of a later one"
    );
}

fn buffer_row_matches_exactly(terminal: &Terminal<TestBackend>, needle: &str) -> bool {
    let buffer = terminal.backend().buffer();
    let width = buffer.area.width as usize;
    let symbols: Vec<&str> = buffer.content().iter().map(|c| c.symbol()).collect();
    symbols
        .chunks(width)
        .map(|row| row.concat())
        .any(|row| row.trim() == needle)
}

#[test]
fn draw_attach_menu_shows_dash_for_unknown_foreground() {
    let server = ServerPaneInfo {
        id: fresh(),
        name: Some("editor".to_string()),
        status: ServerPaneStatus::Dead,
        foreground: None,
        short_id: "aa".to_string(),
        attached_to: Vec::new(),
    };
    let servers = vec![("Unknown".to_string(), server)];
    let menu = AttachMenu {
        servers,
        selected: 0,
        pending_delete: None,
        rename: None,
        previously_bound: None,
        spawn_in_group: None,
        adding_tab: false,
    };
    let backend = TestBackend::new(100, 30);
    let mut terminal = Terminal::new(backend).unwrap();
    terminal
        .draw(|frame| draw_attach_menu(frame, &menu, &StringHashSet::new(), true, None, &vec![]))
        .unwrap();
    assert!(buffer_contains(&terminal, "editor"));
    assert!(buffer_contains(&terminal, "-"));
}

#[test]
fn truncate_end_keeps_the_head_with_a_trailing_ellipsis() {
    assert_eq!(truncate_end("a-very-long-process-name", 10), "a-very-...");
    assert_eq!(truncate_end("vim", 10), "vim");
    assert_eq!(truncate_end("exact-widt", 10), "exact-widt");
}

#[test]
fn draw_attach_menu_spawn_new_selected_does_not_panic() {
    let menu = AttachMenu {
        servers: vec![],
        selected: 0,
        pending_delete: None,
        rename: None,
        previously_bound: None,
        spawn_in_group: None,
        adding_tab: false,
    };
    let backend = TestBackend::new(60, 30);
    let mut terminal = Terminal::new(backend).unwrap();
    terminal
        .draw(|frame| draw_attach_menu(frame, &menu, &StringHashSet::new(), true, None, &vec![]))
        .unwrap();
    assert!(buffer_contains(&terminal, "spawn new"));
}

#[test]
fn draw_attach_menu_shows_group_headers_for_each_distinct_cwd() {
    let a = ServerPaneInfo {
        id: fresh(),
        name: Some("api-shell".to_string()),
        status: ServerPaneStatus::Running,
        foreground: Some(ForegroundProcessInfo {
            process_name: "bash".to_string(),
            cwd: Some("/home/dev/api".to_string()),
            session_kind: None,
        }),
        short_id: "aa".to_string(),
        attached_to: Vec::new(),
    };
    let b = ServerPaneInfo {
        id: fresh(),
        name: Some("web-shell".to_string()),
        status: ServerPaneStatus::Running,
        foreground: Some(ForegroundProcessInfo {
            process_name: "bash".to_string(),
            cwd: Some("/home/dev/web".to_string()),
            session_kind: None,
        }),
        short_id: "aa".to_string(),
        attached_to: Vec::new(),
    };
    let servers = vec![
        ("/home/dev/api".to_string(), a),
        ("/home/dev/web".to_string(), b),
    ];
    let menu = AttachMenu {
        servers,
        selected: 0,
        pending_delete: None,
        rename: None,
        previously_bound: None,
        spawn_in_group: None,
        adding_tab: false,
    };
    let backend = TestBackend::new(100, 40);
    let mut terminal = Terminal::new(backend).unwrap();
    terminal
        .draw(|frame| draw_attach_menu(frame, &menu, &StringHashSet::new(), true, None, &vec![]))
        .unwrap();
    assert!(buffer_contains(&terminal, "/home/dev/api"));
    assert!(buffer_contains(&terminal, "/home/dev/web"));
    assert!(buffer_contains(&terminal, "api-shell"));
    assert!(buffer_contains(&terminal, "web-shell"));
}

#[test]
fn draw_attach_menu_shows_a_spawn_row_per_real_group_but_not_for_unknown() {
    let a = ServerPaneInfo {
        id: fresh(),
        name: Some("api-shell".to_string()),
        status: ServerPaneStatus::Running,
        foreground: Some(ForegroundProcessInfo {
            process_name: "bash".to_string(),
            cwd: Some("/home/dev/api".to_string()),
            session_kind: None,
        }),
        short_id: "aa".to_string(),
        attached_to: Vec::new(),
    };
    let dead = ServerPaneInfo {
        id: fresh(),
        name: Some("dead-pane".to_string()),
        status: ServerPaneStatus::Dead,
        foreground: None,
        short_id: "aa".to_string(),
        attached_to: Vec::new(),
    };
    let servers = vec![
        ("/home/dev/api".to_string(), a),
        ("Unknown".to_string(), dead),
    ];
    let menu = AttachMenu {
        servers,
        selected: 0,
        pending_delete: None,
        rename: None,
        previously_bound: None,
        spawn_in_group: None,
        adding_tab: false,
    };
    let backend = TestBackend::new(100, 30);
    let mut terminal = Terminal::new(backend).unwrap();
    terminal
        .draw(|frame| draw_attach_menu(frame, &menu, &StringHashSet::new(), true, None, &vec![]))
        .unwrap();
    assert!(buffer_contains(&terminal, "+ spawn new in /home/dev/api"));
    assert!(!buffer_contains(&terminal, "+ spawn new in Unknown"));
}

#[test]
fn draw_attach_menu_collapsed_group_hides_its_rows_but_keeps_its_header() {
    let a = ServerPaneInfo {
        id: fresh(),
        name: Some("api-shell".to_string()),
        status: ServerPaneStatus::Running,
        foreground: Some(ForegroundProcessInfo {
            process_name: "bash".to_string(),
            cwd: Some("/home/dev/api".to_string()),
            session_kind: None,
        }),
        short_id: "aa".to_string(),
        attached_to: Vec::new(),
    };
    let b = ServerPaneInfo {
        id: fresh(),
        name: Some("web-shell".to_string()),
        status: ServerPaneStatus::Running,
        foreground: Some(ForegroundProcessInfo {
            process_name: "bash".to_string(),
            cwd: Some("/home/dev/web".to_string()),
            session_kind: None,
        }),
        short_id: "aa".to_string(),
        attached_to: Vec::new(),
    };
    let servers = vec![
        ("/home/dev/api".to_string(), a),
        ("/home/dev/web".to_string(), b),
    ];
    let menu = AttachMenu {
        servers,
        selected: 0,
        pending_delete: None,
        rename: None,
        previously_bound: None,
        spawn_in_group: None,
        adding_tab: false,
    };
    let mut collapsed = StringHashSet::new();
    collapsed.insert("/home/dev/api".to_string());
    let backend = TestBackend::new(100, 30);
    let mut terminal = Terminal::new(backend).unwrap();
    terminal
        .draw(|frame| draw_attach_menu(frame, &menu, &collapsed, true, None, &vec![]))
        .unwrap();
    assert!(buffer_contains(&terminal, "/home/dev/api"));
    assert!(!buffer_contains(&terminal, "api-shell"));
    assert!(!buffer_contains(&terminal, "spawn new in /home/dev/api"));
    assert!(buffer_contains(&terminal, "/home/dev/web"));
    assert!(buffer_contains(&terminal, "web-shell"));
    assert!(buffer_contains(&terminal, "spawn new in /home/dev/web"));
}

#[test]
fn draw_attach_menu_group_header_disclosure_marker_reflects_collapsed_state() {
    let a = ServerPaneInfo {
        id: fresh(),
        name: Some("api-shell".to_string()),
        status: ServerPaneStatus::Running,
        foreground: Some(ForegroundProcessInfo {
            process_name: "bash".to_string(),
            cwd: Some("/home/dev/api".to_string()),
            session_kind: None,
        }),
        short_id: "aa".to_string(),
        attached_to: Vec::new(),
    };
    let menu = AttachMenu {
        servers: vec![("/home/dev/api".to_string(), a)],
        selected: 0,
        pending_delete: None,
        rename: None,
        previously_bound: None,
        spawn_in_group: None,
        adding_tab: false,
    };

    let backend = TestBackend::new(100, 30);
    let mut terminal = Terminal::new(backend).unwrap();
    terminal
        .draw(|frame| draw_attach_menu(frame, &menu, &StringHashSet::new(), true, None, &vec![]))
        .unwrap();
    assert!(
        buffer_contains(&terminal, "▾"),
        "expanded group should show the expanded marker"
    );

    let mut collapsed = StringHashSet::new();
    collapsed.insert("/home/dev/api".to_string());
    let backend = TestBackend::new(100, 30);
    let mut terminal = Terminal::new(backend).unwrap();
    terminal
        .draw(|frame| draw_attach_menu(frame, &menu, &collapsed, true, None, &vec![]))
        .unwrap();
    assert!(
        buffer_contains(&terminal, "▸"),
        "collapsed group should show the collapsed marker"
    );
}

#[test]
fn draw_attach_menu_group_header_shows_pin_marker_only_when_pinned() {
    let a = ServerPaneInfo {
        id: fresh(),
        name: Some("api-shell".to_string()),
        status: ServerPaneStatus::Running,
        foreground: Some(ForegroundProcessInfo {
            process_name: "bash".to_string(),
            cwd: Some("/home/dev/api".to_string()),
            session_kind: None,
        }),
        short_id: "aa".to_string(),
        attached_to: Vec::new(),
    };
    let menu = AttachMenu {
        servers: vec![("/home/dev/api".to_string(), a)],
        selected: 0,
        pending_delete: None,
        rename: None,
        previously_bound: None,
        spawn_in_group: None,
        adding_tab: false,
    };

    let backend = TestBackend::new(100, 30);
    let mut terminal = Terminal::new(backend).unwrap();
    terminal
        .draw(|frame| draw_attach_menu(frame, &menu, &StringHashSet::new(), true, None, &vec![]))
        .unwrap();
    assert!(
        !buffer_contains(&terminal, "📌"),
        "unpinned group should show no pin marker"
    );

    let pinned = vec!["/home/dev/api".to_string()];
    let backend = TestBackend::new(100, 30);
    let mut terminal = Terminal::new(backend).unwrap();
    terminal
        .draw(|frame| draw_attach_menu(frame, &menu, &StringHashSet::new(), true, None, &pinned))
        .unwrap();
    assert!(
        buffer_contains(&terminal, "📌"),
        "pinned group should show the pin marker"
    );
}

#[test]
fn draw_attach_menu_shows_delete_confirm_hint_on_armed_row() {
    let server = ServerPaneInfo {
        id: fresh(),
        name: Some("editor".to_string()),
        status: ServerPaneStatus::Running,
        foreground: None,
        short_id: "aa".to_string(),
        attached_to: Vec::new(),
    };
    let menu = AttachMenu {
        servers: vec![("Unknown".to_string(), server)],
        selected: 0,
        pending_delete: Some(0),
        rename: None,
        previously_bound: None,
        spawn_in_group: None,
        adding_tab: false,
    };
    let backend = TestBackend::new(140, 30);
    let mut terminal = Terminal::new(backend).unwrap();
    terminal
        .draw(|frame| draw_attach_menu(frame, &menu, &StringHashSet::new(), true, None, &vec![]))
        .unwrap();
    assert!(buffer_contains(&terminal, "confirm delete"));
}

#[test]
fn draw_attach_menu_marks_the_just_detached_row() {
    let detached_from = fresh();
    let other = fresh();
    let server_a = ServerPaneInfo {
        id: detached_from,
        name: Some("detached".to_string()),
        status: ServerPaneStatus::Running,
        foreground: None,
        short_id: "aa".to_string(),
        attached_to: Vec::new(),
    };
    let server_b = ServerPaneInfo {
        id: other,
        name: Some("other-pane".to_string()),
        status: ServerPaneStatus::Running,
        foreground: None,
        short_id: "aa".to_string(),
        attached_to: Vec::new(),
    };
    let menu = AttachMenu {
        servers: vec![
            ("Unknown".to_string(), server_a),
            ("Unknown".to_string(), server_b),
        ],
        selected: 1,
        pending_delete: None,
        rename: None,
        previously_bound: Some(detached_from),
        spawn_in_group: None,
        adding_tab: false,
    };
    let backend = TestBackend::new(100, 30);
    let mut terminal = Terminal::new(backend).unwrap();
    terminal
        .draw(|frame| draw_attach_menu(frame, &menu, &StringHashSet::new(), true, None, &vec![]))
        .unwrap();
    let marked_row = buffer_row_containing(&terminal, "detached");
    let unmarked_row = buffer_row_containing(&terminal, "other-pane");
    assert!(
        marked_row.contains('*'),
        "row previously bound should carry the * marker: {marked_row:?}"
    );
    assert!(
        !unmarked_row.contains('*'),
        "an unrelated row must not carry the marker: {unmarked_row:?}"
    );
}

#[test]
fn draw_attach_menu_shows_no_marker_when_nothing_was_previously_bound() {
    let server = ServerPaneInfo {
        id: fresh(),
        name: Some("fresh".to_string()),
        status: ServerPaneStatus::Running,
        foreground: None,
        short_id: "aa".to_string(),
        attached_to: Vec::new(),
    };
    let menu = AttachMenu {
        servers: vec![("Unknown".to_string(), server)],
        selected: 0,
        pending_delete: None,
        rename: None,
        previously_bound: None,
        spawn_in_group: None,
        adding_tab: false,
    };
    let backend = TestBackend::new(100, 30);
    let mut terminal = Terminal::new(backend).unwrap();
    terminal
        .draw(|frame| draw_attach_menu(frame, &menu, &StringHashSet::new(), true, None, &vec![]))
        .unwrap();
    let row = buffer_row_containing(&terminal, "fresh");
    assert!(
        !row.contains('*'),
        "no row should be marked when previously_bound is None: {row:?}"
    );
}

#[test]
fn draw_attach_menu_shows_live_rename_text_and_error() {
    let server = ServerPaneInfo {
        id: fresh(),
        name: Some("old-name".to_string()),
        status: ServerPaneStatus::Running,
        foreground: None,
        short_id: "aa".to_string(),
        attached_to: Vec::new(),
    };
    let menu = AttachMenu {
        servers: vec![("Unknown".to_string(), server)],
        selected: 0,
        pending_delete: None,
        rename: Some(RenameState {
            index: 0,
            text: "new-name".to_string(),
            cursor: 8,
            error: Some("name taken".to_string()),
        }),
        previously_bound: None,
        spawn_in_group: None,
        adding_tab: false,
    };
    let backend = TestBackend::new(100, 30);
    let mut terminal = Terminal::new(backend).unwrap();
    terminal
        .draw(|frame| draw_attach_menu(frame, &menu, &StringHashSet::new(), true, None, &vec![]))
        .unwrap();
    assert!(buffer_contains(&terminal, "new-name"));
    assert!(buffer_contains(&terminal, "name taken"));
}

fn named_server(name: Option<&str>) -> ServerPaneInfo {
    ServerPaneInfo {
        id: 5,
        name: name.map(|n| n.to_string()),
        status: ServerPaneStatus::Running,
        foreground: Some(ForegroundProcessInfo {
            process_name: "a-very-long-process-name".to_string(),
            cwd: None,
            session_kind: Some("codex".to_string()),
        }),
        short_id: "ab".to_string(),
        attached_to: vec![AttachedBinding {
            workspace_number: 1,
            client_short_id: "aa".to_string(),
            active: false,
        }],
    }
}

fn menu_lines(menu: &AttachMenu) -> Vec<String> {
    attach_menu_lines(menu, &StringHashSet::new(), true, &vec![])
        .into_iter()
        .map(|line| line.text)
        .collect()
}

#[test]
fn menu_rows_are_in_columns() {
    let servers = vec![("/x".to_string(), named_server(Some("editor")))];
    let menu = AttachMenu::opened(servers, 1, Some(5), false);
    assert_eq!(
        menu_lines(&menu),
        vec![
            "  \u{25be} /x".to_string(),
            format!("  *> {:<28} {:<10} {:<10} {:<10} ab Running", "editor", "1/aa+", "[codex]", "a-very-..."),
            "    + spawn new in /x".to_string(),
            "  spawn new...".to_string(),
        ]
    );
}

#[test]
fn armed_and_renamed_rows_say_so() {
    let servers = vec![("/x".to_string(), named_server(None))];
    let mut menu = AttachMenu::opened(servers, 0, None, false);
    menu.pending_delete = Some(0);
    let lines = attach_menu_lines(&menu, &StringHashSet::new(), true, &vec![]);
    assert_eq!(
        lines[1].text,
        format!(
            "     {:<28} {:<10} {:<10} {:<10} ab Running  [x/Enter: confirm delete]",
            "ab", "1/aa+", "[codex]", "a-very-..."
        )
    );
    assert_eq!(
        lines[1].style,
        LineStyle { bold: false, reversed: true, fg: Some(Color::Red) }
    );
    menu.pending_delete = None;
    menu.rename = Some(RenameState {
        index: 0,
        text: "new".to_string(),
        cursor: 3,
        error: Some("taken".to_string()),
    });
    let lines = attach_menu_lines(&menu, &StringHashSet::new(), true, &vec![]);
    assert_eq!(
        lines[1].text,
        format!("     [new] {:<10} {:<10} {:<10} ab Running", "1/aa+", "[codex]", "a-very-...")
    );
    assert!(lines[1].style.reversed);
    assert_eq!(lines[2].text, "    taken");
    assert_eq!(
        lines[2].style,
        LineStyle { bold: false, reversed: false, fg: Some(Color::Red) }
    );
}

#[test]
fn headers_and_spawn_rows_have_their_marks() {
    assert_eq!(group_header_line("/x", true, true, false).text, "\u{1f4cc}\u{25b8} /x");
    let open = group_header_line("/x", false, false, true);
    assert_eq!(open.text, "  \u{25be} /x");
    assert_eq!(open.style, LineStyle { bold: true, reversed: true, fg: None });
    assert_eq!(spawn_new_line(true).text, "> spawn new...");
    assert!(spawn_new_line(true).style.reversed);
    let field = SpawnInGroupState {
        group_server_index: 0,
        text: "make".to_string(),
        cursor: 4,
        error: None,
    };
    let line = spawn_new_in_group_line("/x", false, Some(&field));
    assert_eq!(line.text, "    + [make] in /x");
    assert!(line.style.reversed);
    assert_eq!(spawn_new_in_group_line("/x", true, None).text, "  > + spawn new in /x");
}

#[test]
fn titles_name_the_server_pane_its_tab_and_the_scrollback() {
    let mut pane = leaf_pane(Some(5));
    let mut names = HashMap::new();
    let mut grids = HashMap::new();
    let title = |pane: &ClientPane, grids: &HashMap<_, _>, names: &HashMap<_, _>| {
        pane_view(pane, grids, names, None, None).title
    };
    assert_eq!(title(&pane, &grids, &names), "aa");
    names.insert(5, named_server(None));
    assert_eq!(title(&pane, &grids, &names), "[ab]");
    names.insert(5, named_server(Some("editor")));
    assert_eq!(title(&pane, &grids, &names), "[ab] editor");
    pane.tabs = vec![4, 5, 6];
    pane.active_tab = 1;
    grids.insert(
        5,
        GridSnapshot {
            server_pane: 5,
            cursor: CursorPosition { col: 0, row: 0 },
            lines: vec![],
            scroll_offset: 1,
        },
    );
    assert_eq!(title(&pane, &grids, &names), "[ab] editor (2/3) [scrollback]");
}

#[test]
fn runs_show_the_row() {
    let mut cells = vec![simple_cell("a"), simple_cell("b"), simple_cell("")];
    cells[1].bold = true;
    let snapshot = GridSnapshot {
        server_pane: 1,
        cursor: CursorPosition { col: 0, row: 0 },
        lines: vec![cells, vec![]],
        scroll_offset: 0,
    };
    let plain = CellStyle {
        fg: None,
        bg: None,
        bold: false,
        italic: false,
        underline: false,
        reverse: false,
        plain_order: false,
    };
    let text = grid_to_text(&snapshot, None);
    assert_eq!(
        text,
        vec![
            vec![
                Run { text: "a".to_string(), style: plain },
                Run { text: "b".to_string(), style: CellStyle { bold: true, ..plain } },
                Run { text: String::new(), style: plain },
            ],
            vec![],
        ]
    );
}

#[test]
fn the_cursor_stays_inside() {
    let mut snapshot = GridSnapshot {
        server_pane: 1,
        cursor: CursorPosition { col: 4, row: 2 },
        lines: vec![],
        scroll_offset: 0,
    };
    let inner = Rect { x: 10, y: 20, width: 5, height: 3 };
    assert_eq!(place_cursor(&snapshot, inner), Some((14, 22)));
    snapshot.cursor.col = 5;
    assert_eq!(place_cursor(&snapshot, inner), None);
    snapshot.cursor = CursorPosition { col: 0, row: 3 };
    assert_eq!(place_cursor(&snapshot, inner), None);
}

#[test]
fn lines_end_like_in_std() {
    for text in ["", "\n", "a", "a\n", "a\r\nb", "a\rb\n\n", "\r\n", "x\r", "\u{e9}\n\u{4e2d}"] {
        let expected: Vec<String> = text.lines().map(|l| l.to_string()).collect();
        assert_eq!(lines(text), expected, "{text:?}");
    }
    assert_eq!(last_lines("a\nb\nc", 2), "b\nc");
    assert_eq!(last_lines("a\nb\nc", 0), "");
    assert_eq!(last_lines("a", 9), "a");
}

#[test]
fn white_space_is_that_of_std() {
    for c in '\0'..=char::MAX {
        assert_eq!(white_space(c), c.is_whitespace(), "{c:?}");
    }
    for text in ["", " ", "a \t\u{3000}", " b", "c\u{200b} "] {
        assert_eq!(trim_end(text), text.trim_end());
    }
}

#[test]
fn truncation_fits_the_width() {
    assert_eq!(truncate_end("abcdef", 3), "...");
    assert_eq!(truncate_end("abcdef", 2), "..");
    assert_eq!(truncate_end("abcdef", 0), "");
    assert_eq!(truncate_end("\u{e9}\u{e9}\u{e9}\u{e9}\u{e9}", 4), "\u{e9}...");
    for width in 0..12 {
        assert!(truncate_end("0123456789", width).chars().count() <= width);
    }
}
