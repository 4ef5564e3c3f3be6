use dimax::geometry::Rect;
use dimax::protocol::{Cell, CursorPosition, GridSnapshot};
use dimax::selection::{
    clamp_grid_position, clamped_position, osc52_request, osc52_sequence, position_at,
    selected_text, GridPosition, TextSelection,
};

fn cell(text: &str) -> Cell {
    Cell {
        text: text.to_string(),
        fg: None,
        bg: None,
        bold: false,
        italic: false,
        underline: false,
        reverse: false,
    }
}

fn snapshot(lines: &[&str]) -> GridSnapshot {
    GridSnapshot {
        server_pane: 7,
        cursor: CursorPosition { col: 0, row: 0 },
        lines: lines
            .iter()
            .map(|line| line.chars().map(|ch| cell(&ch.to_string())).collect())
            .collect(),
        scroll_offset: 0,
    }
}

fn selection(snapshot: &GridSnapshot, start: GridPosition, end: GridPosition) -> TextSelection {
    let mut selection = TextSelection::new(1, snapshot.server_pane, start);
    selection.finish(end);
    selection
}

#[test]
fn screen_position_skips_the_title_row() {
    let snapshot = snapshot(&["abcd", "efgh"]);
    let leaf = Rect {
        x: 10,
        y: 5,
        width: 4,
        height: 3,
    };
    assert_eq!(position_at(leaf, &snapshot, 10, 5), None);
    assert_eq!(
        position_at(leaf, &snapshot, 12, 6),
        Some(GridPosition { row: 0, col: 2 })
    );
    assert_eq!(
        position_at(leaf, &snapshot, 13, 7),
        Some(GridPosition { row: 1, col: 3 })
    );
}

#[test]
fn drag_position_clamps_to_the_snapshot_edges() {
    let snapshot = snapshot(&["abcd", "efgh"]);
    let leaf = Rect {
        x: 10,
        y: 5,
        width: 4,
        height: 3,
    };
    assert_eq!(
        clamped_position(leaf, &snapshot, 0, 0),
        Some(GridPosition { row: 0, col: 0 })
    );
    assert_eq!(
        clamped_position(leaf, &snapshot, u16::MAX, u16::MAX),
        Some(GridPosition { row: 1, col: 3 })
    );
}

#[test]
fn extracts_forward_and_reverse_single_line_selections() {
    let snapshot = snapshot(&["abcdef"]);
    let forward = selection(
        &snapshot,
        GridPosition { row: 0, col: 1 },
        GridPosition { row: 0, col: 4 },
    );
    let reverse = selection(
        &snapshot,
        GridPosition { row: 0, col: 4 },
        GridPosition { row: 0, col: 1 },
    );
    assert_eq!(selected_text(&snapshot, &forward).as_deref(), Some("bcde"));
    assert_eq!(selected_text(&snapshot, &reverse).as_deref(), Some("bcde"));
}

#[test]
fn extracts_multiline_selection_without_terminal_padding() {
    let snapshot = snapshot(&["abc ", "def ", "ghi "]);
    let selection = selection(
        &snapshot,
        GridPosition { row: 0, col: 1 },
        GridPosition { row: 2, col: 2 },
    );
    assert_eq!(
        selected_text(&snapshot, &selection).as_deref(),
        Some("bc\ndef\nghi")
    );
}

#[test]
fn plain_click_does_not_count_as_a_drag() {
    let point = GridPosition { row: 1, col: 2 };
    let mut selection = TextSelection::new(1, 2, point);
    assert!(!selection.finish(point));
    assert!(!selection.is_dragging());
}

#[test]
fn osc52_encodes_utf8_for_the_clipboard_selector() {
    assert_eq!(osc52_sequence("hello"), "\x1b]52;c;aGVsbG8=\x1b\\");
}

#[test]
fn the_clipboard_payload_is_base64_with_padding() {
    assert_eq!(osc52_sequence(""), "\x1b]52;c;\x1b\\");
    assert_eq!(osc52_sequence("a"), "\x1b]52;c;YQ==\x1b\\");
    assert_eq!(osc52_sequence("\u{e9}?>"), "\x1b]52;c;w6k/Pg==\x1b\\");
    assert_eq!(osc52_request("QUJD"), "\x1b]52;c;QUJD\x1b\\");
}

#[test]
fn a_selection_is_the_same_from_either_end() {
    let a = GridPosition { row: 1, col: 4 };
    let b = GridPosition { row: 3, col: 2 };
    let mut forward = TextSelection::new(1, 2, a);
    forward.update(b);
    let mut backward = TextSelection::new(1, 2, b);
    backward.update(a);
    assert_eq!(forward.ordered(), backward.ordered());
    for row in 0..5 {
        for col in 0..6 {
            assert_eq!(forward.contains(row, col), backward.contains(row, col));
        }
    }
    assert!(!forward.contains(1, 3));
    assert!(forward.contains(1, 4));
    assert!(forward.contains(2, 0));
    assert!(forward.contains(3, 2));
    assert!(!forward.contains(3, 3));
    assert!(forward.is_dragging());
    assert_eq!((forward.pane(), forward.server_pane()), (1, 2));
}

#[test]
fn nothing_is_selected_in_another_panes_screen() {
    let snapshot = snapshot(&["abc"]);
    let other = TextSelection::new(1, 8, GridPosition { row: 0, col: 0 });
    assert_eq!(selected_text(&snapshot, &other), None);
}

#[test]
fn a_selection_beyond_a_shrunken_screen_clamps() {
    let snapshot = snapshot(&["abc", "de"]);
    let s = selection(
        &snapshot,
        GridPosition { row: 0, col: 1 },
        GridPosition { row: 9, col: 9 },
    );
    assert_eq!(selected_text(&snapshot, &s).as_deref(), Some("bc\nde"));
    assert_eq!(
        clamp_grid_position(&snapshot, GridPosition { row: 9, col: 9 }),
        Some(GridPosition { row: 1, col: 1 })
    );
}

#[test]
fn rows_without_cells_are_empty_lines_but_no_ends() {
    let snapshot = snapshot(&["ab", "", "cd"]);
    let over = selection(
        &snapshot,
        GridPosition { row: 0, col: 0 },
        GridPosition { row: 2, col: 1 },
    );
    assert_eq!(selected_text(&snapshot, &over).as_deref(), Some("ab\n\ncd"));
    let into = selection(
        &snapshot,
        GridPosition { row: 0, col: 0 },
        GridPosition { row: 1, col: 0 },
    );
    assert_eq!(selected_text(&snapshot, &into), None);
    assert_eq!(clamp_grid_position(&snapshot, GridPosition { row: 1, col: 0 }), None);
}

#[test]
fn a_pane_too_small_for_content_has_no_cells() {
    let snapshot = snapshot(&["ab"]);
    let flat = Rect { x: 0, y: 0, width: 5, height: 1 };
    assert_eq!(position_at(flat, &snapshot, 0, 0), None);
    assert_eq!(clamped_position(flat, &snapshot, 0, 0), None);
    let thin = Rect { x: 0, y: 0, width: 0, height: 5 };
    assert_eq!(clamped_position(thin, &snapshot, 0, 0), None);
}

#[test]
fn the_last_countable_column_is_no_cell() {
    let snapshot = snapshot(&["abcd"]);
    let leaf = Rect { x: u16::MAX - 2, y: 0, width: 4, height: 2 };
    assert_eq!(
        position_at(leaf, &snapshot, u16::MAX - 1, 1),
        Some(GridPosition { row: 0, col: 1 })
    );
    assert_eq!(position_at(leaf, &snapshot, u16::MAX, 1), None);
}

/// Letters, digits and both signs, and texts of each length modulo three.
#[test]
fn the_payload_uses_the_standard_alphabet() {
    assert_eq!(
        osc52_sequence("\u{0}\u{10}Qs<~\u{7ff}\u{10ffff}??>"),
        "\x1b]52;c;ABBRczx+37/0j7+/Pz8+\x1b\\"
    );
    assert_eq!(osc52_sequence("abcdef"), "\x1b]52;c;YWJjZGVm\x1b\\");
    assert_eq!(osc52_sequence("abcde"), "\x1b]52;c;YWJjZGU=\x1b\\");
    assert_eq!(osc52_sequence("abcd"), "\x1b]52;c;YWJjZA==\x1b\\");
}
