use dimax::app::{App, Step};
use dimax::geometry::Rect;
use dimax::input::is_quit;
use dimax::menu::{
    apply_rename_edit, apply_spawn_in_group_edit, filter_servers_for_menu, group_servers_by_cwd,
    initial_selection_for, parse_attach_menu_input, visible_attach_menu_rows, AttachMenu,
    AttachMenuAction, AttachMenuRow, Listed, RenameState, SpawnInGroupState, StringHashSet,
};
use dimax::protocol::{ForegroundProcessInfo, ServerPaneInfo, ServerPaneStatus, WorkspaceInfo};

fn fresh() -> u128 {
    uuid::Uuid::new_v4().as_u128()
}

#[derive(Debug, Clone, Copy)]
enum SessionKind {
    Claude,
    Codex,
}

impl SessionKind {
    fn name(self) -> String {
        format!("{self:?}").to_lowercase()
    }
}

/// A client whose menu lists `servers`, with the row `selected` selected.
fn browsing(servers: Vec<Listed>, selected: usize) -> App {
    let workspace = WorkspaceInfo {
        id: fresh(),
        tree: None,
    };
    let (mut app, _) = App::bootstrap(workspace, vec![]);
    app.attach_menu = Some(AttachMenu::opened(servers, selected, None, false));
    app.frame_area = Rect { x: 0, y: 0, width: 0, height: 0 };
    app
}

#[test]
fn attach_menu_input_enter_and_newline_confirm() {
    assert_eq!(parse_attach_menu_input(b"\r"), AttachMenuAction::Confirm);
    assert_eq!(parse_attach_menu_input(b"\n"), AttachMenuAction::Confirm);
}

#[test]
fn attach_menu_input_bare_escape_cancels() {
    assert_eq!(parse_attach_menu_input(b"\x1b"), AttachMenuAction::Cancel);
}

#[test]
fn attach_menu_input_arrow_and_vi_keys_move_selection() {
    assert_eq!(parse_attach_menu_input(b"\x1b[A"), AttachMenuAction::Up);
    assert_eq!(parse_attach_menu_input(b"k"), AttachMenuAction::Up);
    assert_eq!(parse_attach_menu_input(b"\x1b[B"), AttachMenuAction::Down);
    assert_eq!(parse_attach_menu_input(b"j"), AttachMenuAction::Down);
}

#[test]
fn attach_menu_input_unrecognized_bytes_are_ignored() {
    assert_eq!(parse_attach_menu_input(b"z"), AttachMenuAction::Ignore);
    assert_eq!(parse_attach_menu_input(b""), AttachMenuAction::Ignore);
}

#[test]
fn parse_attach_menu_input_x_is_delete() {
    assert_eq!(parse_attach_menu_input(b"x"), AttachMenuAction::Delete);
}

#[test]
fn parse_attach_menu_input_r_is_start_rename() {
    assert_eq!(parse_attach_menu_input(b"r"), AttachMenuAction::StartRename);
}

#[test]
fn parse_attach_menu_input_p_is_toggle_pin() {
    assert_eq!(parse_attach_menu_input(b"p"), AttachMenuAction::TogglePin);
}

#[test]
fn parse_attach_menu_input_g_is_toggle_grouping() {
    assert_eq!(
        parse_attach_menu_input(b"g"),
        AttachMenuAction::ToggleGrouping
    );
}

#[test]
fn parse_attach_menu_input_f_is_toggle_agents_only() {
    assert_eq!(
        parse_attach_menu_input(b"f"),
        AttachMenuAction::ToggleAgentsOnly
    );
}

#[test]
fn parse_attach_menu_input_d_is_detach_all() {
    assert_eq!(parse_attach_menu_input(b"d"), AttachMenuAction::DetachAll);
}

#[test]
fn parse_attach_menu_input_q_is_quit() {
    assert_eq!(parse_attach_menu_input(b"q"), AttachMenuAction::Quit);
}

#[test]
fn quit_byte_is_ctrl_q_not_ctrl_c() {
    assert!(is_quit(&[0x11]));
    assert!(
        !is_quit(&[0x03]),
        "Ctrl-C must remain a pass-through byte, not the quit key"
    );
}

fn server_with_cwd(name: &str, cwd: Option<&str>) -> ServerPaneInfo {
    ServerPaneInfo {
        id: fresh(),
        name: Some(name.to_string()),
        status: ServerPaneStatus::Running,
        foreground: cwd.map(|c| ForegroundProcessInfo {
            process_name: "bash".to_string(),
            cwd: Some(c.to_string()),
            session_kind: None,
        }),
        short_id: "aa".to_string(),
        attached_to: Vec::new(),
    }
}

#[test]
fn group_servers_by_cwd_groups_matching_dirs_together() {
    let servers = vec![
        server_with_cwd("a", Some("/home/dev/api")),
        server_with_cwd("b", Some("/home/dev/web")),
        server_with_cwd("c", Some("/home/dev/api")),
    ];
    let grouped = group_servers_by_cwd(servers, &vec![]);
    let names: Vec<&str> = grouped
        .iter()
        .map(|(_, s)| s.name.as_deref().unwrap())
        .collect();
    // Ascending by cwd: api's two panes (in original relative order),
    // then web's one pane.
    assert_eq!(names, vec!["a", "c", "b"]);
    let keys: Vec<&str> = grouped.iter().map(|(k, _)| k.as_str()).collect();
    assert_eq!(
        keys,
        vec!["/home/dev/api", "/home/dev/api", "/home/dev/web"]
    );
}

#[test]
fn group_servers_by_cwd_sorts_unknown_group_last() {
    let servers = vec![
        server_with_cwd("no-cwd", None),
        server_with_cwd("has-cwd", Some("/zzz/last-alphabetically")),
    ];
    let grouped = group_servers_by_cwd(servers, &vec![]);
    let names: Vec<&str> = grouped
        .iter()
        .map(|(_, s)| s.name.as_deref().unwrap())
        .collect();
    // "/zzz/..." sorts after "Unknown" alphabetically, but Unknown is
    // forced last regardless.
    assert_eq!(names, vec!["has-cwd", "no-cwd"]);
    assert_eq!(grouped[1].0, "Unknown");
}

#[test]
fn group_servers_by_cwd_empty_list_is_empty() {
    assert_eq!(group_servers_by_cwd(vec![], &vec![]).len(), 0);
}

fn server_with_kind(name: &str, kind: Option<SessionKind>) -> ServerPaneInfo {
    let mut s = server_with_cwd(name, Some("/tmp"));
    if let Some(fg) = s.foreground.as_mut() {
        fg.session_kind = kind.map(|k| k.name());
    }
    s
}

#[test]
fn filter_servers_for_menu_agents_only_keeps_only_recognized_sessions() {
    let servers = vec![
        server_with_kind("shell", None),
        server_with_kind("editor", None),
        server_with_kind("agent-a", Some(SessionKind::Claude)),
        server_with_kind("agent-b", Some(SessionKind::Codex)),
    ];
    let filtered = filter_servers_for_menu(servers, true);
    let names: Vec<&str> = filtered
        .iter()
        .map(|s| s.name.as_deref().unwrap())
        .collect();
    assert_eq!(
        names,
        vec!["agent-a", "agent-b"],
        "agents_only must drop every pane whose session_kind is None"
    );
}

#[test]
fn filter_servers_for_menu_agents_only_drops_dead_panes_with_no_foreground() {
    let mut dead = server_with_kind("dead-agent", None);
    dead.status = ServerPaneStatus::Dead;
    dead.foreground = None;
    let servers = vec![
        dead,
        server_with_kind("live-agent", Some(SessionKind::Claude)),
    ];
    let filtered = filter_servers_for_menu(servers, true);
    assert_eq!(filtered.len(), 1);
    assert_eq!(filtered[0].name.as_deref(), Some("live-agent"));
}

#[test]
fn filter_servers_for_menu_not_agents_only_keeps_everything() {
    let servers = vec![
        server_with_kind("shell", None),
        server_with_kind("agent-a", Some(SessionKind::Claude)),
    ];
    let filtered = filter_servers_for_menu(servers, false);
    assert_eq!(
        filtered.len(),
        2,
        "agents_only: false must pass everything through"
    );
}

#[test]
fn group_servers_by_cwd_sorts_pinned_dirs_before_unpinned_ones() {
    let servers = vec![
        server_with_cwd("a", Some("/home/dev/api")), // alphabetically first, but unpinned
        server_with_cwd("b", Some("/home/dev/web")),
        server_with_cwd("c", Some("/home/dev/zzz")),
    ];
    // "/home/dev/zzz" is pinned despite sorting last alphabetically --
    // it must still come out first.
    let pinned = vec!["/home/dev/zzz".to_string()];
    let grouped = group_servers_by_cwd(servers, &pinned);
    let keys: Vec<&str> = grouped.iter().map(|(k, _)| k.as_str()).collect();
    assert_eq!(
        keys,
        vec!["/home/dev/zzz", "/home/dev/api", "/home/dev/web"]
    );
}

#[test]
fn group_servers_by_cwd_orders_multiple_pinned_dirs_by_pin_order_not_alphabetically() {
    let servers = vec![
        server_with_cwd("a", Some("/aaa")),
        server_with_cwd("b", Some("/bbb")),
        server_with_cwd("c", Some("/ccc")),
    ];
    // Pinned in this exact order -- "/ccc" pinned first, so it must
    // sort first despite being alphabetically last.
    let pinned = vec!["/ccc".to_string(), "/aaa".to_string()];
    let grouped = group_servers_by_cwd(servers, &pinned);
    let keys: Vec<&str> = grouped.iter().map(|(k, _)| k.as_str()).collect();
    assert_eq!(keys, vec!["/ccc", "/aaa", "/bbb"]);
}

#[test]
fn group_servers_by_cwd_unknown_group_stays_last_even_when_pinned_dirs_exist() {
    let servers = vec![
        server_with_cwd("no-cwd", None),
        server_with_cwd("has-cwd", Some("/pinned")),
    ];
    let pinned = vec!["/pinned".to_string()];
    let grouped = group_servers_by_cwd(servers, &pinned);
    let keys: Vec<&str> = grouped.iter().map(|(k, _)| k.as_str()).collect();
    assert_eq!(keys, vec!["/pinned", "Unknown"]);
}

#[test]
fn group_servers_by_cwd_a_pinned_dir_with_no_current_servers_has_no_effect() {
    let servers = vec![server_with_cwd("a", Some("/real"))];
    let pinned = vec!["/nonexistent".to_string()];
    let grouped = group_servers_by_cwd(servers, &pinned);
    let keys: Vec<&str> = grouped.iter().map(|(k, _)| k.as_str()).collect();
    assert_eq!(keys, vec!["/real"]);
}

#[test]
fn visible_attach_menu_rows_lists_every_row_when_nothing_collapsed() {
    let servers = vec![
        ("/a".to_string(), server_with_cwd("x", Some("/a"))),
        ("/a".to_string(), server_with_cwd("y", Some("/a"))),
        ("/b".to_string(), server_with_cwd("z", Some("/b"))),
    ];
    let rows = visible_attach_menu_rows(&servers, &StringHashSet::new(), true);
    assert_eq!(
        rows,
        vec![
            AttachMenuRow::GroupHeader(0),
            AttachMenuRow::Server(0),
            AttachMenuRow::Server(1),
            AttachMenuRow::SpawnNewInGroup(0),
            AttachMenuRow::GroupHeader(2),
            AttachMenuRow::Server(2),
            AttachMenuRow::SpawnNewInGroup(2),
            AttachMenuRow::SpawnNew,
        ]
    );
}

#[test]
fn visible_attach_menu_rows_grouped_false_emits_no_headers_or_spawn_in_group_rows() {
    let servers = vec![
        ("/a".to_string(), server_with_cwd("x", Some("/a"))),
        ("/a".to_string(), server_with_cwd("y", Some("/a"))),
        ("/b".to_string(), server_with_cwd("z", Some("/b"))),
    ];
    let mut collapsed = StringHashSet::new();
    collapsed.insert("/a".to_string());
    let rows = visible_attach_menu_rows(&servers, &collapsed, false);
    assert_eq!(
        rows,
        vec![
            AttachMenuRow::Server(0),
            AttachMenuRow::Server(1),
            AttachMenuRow::Server(2),
            AttachMenuRow::SpawnNew,
        ]
    );
}

#[test]
fn visible_attach_menu_rows_omits_all_of_a_collapsed_groups_rows_except_its_header() {
    let servers = vec![
        ("/a".to_string(), server_with_cwd("x", Some("/a"))),
        ("/a".to_string(), server_with_cwd("y", Some("/a"))),
        ("/b".to_string(), server_with_cwd("z", Some("/b"))),
    ];
    let mut collapsed = StringHashSet::new();
    collapsed.insert("/a".to_string());
    let rows = visible_attach_menu_rows(&servers, &collapsed, true);
    assert_eq!(
        rows,
        vec![
            AttachMenuRow::GroupHeader(0),
            AttachMenuRow::GroupHeader(2),
            AttachMenuRow::Server(2),
            AttachMenuRow::SpawnNewInGroup(2),
            AttachMenuRow::SpawnNew,
        ]
    );
}

#[test]
fn visible_attach_menu_rows_omits_spawn_in_group_for_the_unknown_bucket() {
    let servers = vec![server_with_cwd("no-cwd", None)]
        .into_iter()
        .map(|s| ("Unknown".to_string(), s))
        .collect::<Vec<_>>();
    let rows = visible_attach_menu_rows(&servers, &StringHashSet::new(), true);
    assert_eq!(
        rows,
        vec![
            AttachMenuRow::GroupHeader(0),
            AttachMenuRow::Server(0),
            AttachMenuRow::SpawnNew
        ]
    );
}

#[test]
fn initial_selection_for_lands_on_the_previously_bound_servers_row() {
    let a = server_with_cwd("a", Some("/x"));
    let b = server_with_cwd("b", Some("/x"));
    let b_id = b.id;
    let servers = vec![("/x".to_string(), a), ("/x".to_string(), b)];
    // Rows: 0 = header, 1 = a's Server row, 2 = b's Server row, 3 = spawn-in-group.
    assert_eq!(
        initial_selection_for(&servers, &StringHashSet::new(), true, Some(b_id)),
        2
    );
}

#[test]
fn initial_selection_for_falls_back_to_zero_when_nothing_was_previously_bound() {
    let servers = vec![("/x".to_string(), server_with_cwd("a", Some("/x")))];
    assert_eq!(
        initial_selection_for(&servers, &StringHashSet::new(), true, None),
        0
    );
}

#[test]
fn initial_selection_for_falls_back_to_zero_when_the_pane_no_longer_exists() {
    let servers = vec![("/x".to_string(), server_with_cwd("a", Some("/x")))];
    assert_eq!(
        initial_selection_for(&servers, &StringHashSet::new(), true, Some(fresh())),
        0
    );
}

#[test]
fn initial_selection_for_lands_on_the_group_header_when_that_group_is_collapsed() {
    let a = server_with_cwd("a", Some("/x"));
    let a_id = a.id;
    let servers = vec![("/x".to_string(), a)];
    let mut collapsed = StringHashSet::new();
    collapsed.insert("/x".to_string());
    // Rows when collapsed: 0 = header only (Server(0) is hidden).
    assert_eq!(
        initial_selection_for(&servers, &collapsed, true, Some(a_id)),
        0
    );
}

#[test]
fn toggle_group_collapse_collapses_then_expands() {
    let servers = vec![("/a".to_string(), server_with_cwd("x", Some("/a")))];
    let mut app = browsing(servers, 0);
    app.toggle_group_collapse(0);
    assert!(app.collapsed_groups.contains("/a"));
    app.toggle_group_collapse(0);
    assert!(!app.collapsed_groups.contains("/a"));
}

#[test]
fn toggle_group_collapse_clamps_selection_into_the_shrunk_row_list() {
    let servers = vec![("/a".to_string(), server_with_cwd("x", Some("/a")))];
    // Rows before collapse: 0 = header, 1 = server, 2 = "spawn new
    // here", 3 = global spawn-new. Collapsing "/a" hides everything
    // but its header (server row AND its own spawn-here row --
    // see `visible_attach_menu_rows`), shrinking the list to 2 rows
    // (0..=1). Selecting the last row beforehand must not leave
    // `selected` pointing past that shrunk list.
    let mut app = browsing(servers, 3);
    app.toggle_group_collapse(0);
    assert_eq!(
        app.attach_menu.unwrap().selected,
        1,
        "should clamp onto the new last row (global spawn-new)"
    );
}

#[test]
fn toggle_grouping_flips_view_and_clamps_selection() {
    let servers = vec![("/a".to_string(), server_with_cwd("x", Some("/a")))];
    // Grouped rows: 0 = header, 1 = server, 2 = "spawn new here",
    // 3 = global spawn-new -- len 4. Flat rows (grouped_view: false)
    // drop the header and per-group spawn row entirely: 0 = server,
    // 1 = global spawn-new -- len 2. Selecting the last grouped row
    // beforehand must not leave `selected` pointing past the
    // shrunk flat list.
    let mut app = browsing(servers, 3);
    app.toggle_grouping();
    assert!(!app.grouped_view);
    assert_eq!(
        app.attach_menu.as_ref().unwrap().selected,
        1,
        "should clamp onto the new last row (global spawn-new) of the flat list"
    );
    app.toggle_grouping();
    assert!(app.grouped_view);
}

#[test]
fn move_attach_menu_selection_wraps_across_headers_and_spawn_new() {
    let servers = vec![("/a".to_string(), server_with_cwd("x", Some("/a")))];
    // Rows: 0 = header, 1 = server, 2 = "spawn new here", 3 = global
    // spawn-new -- len 4, so moving down from the last row wraps
    // back to 0, and up from 0 wraps to the last row.
    let mut app = browsing(servers, 3);
    app.move_attach_menu_selection(true);
    assert_eq!(app.attach_menu.as_ref().unwrap().selected, 0);
    app.move_attach_menu_selection(false);
    assert_eq!(app.attach_menu.as_ref().unwrap().selected, 3);
}

#[test]
fn arm_delete_sets_pending_delete_on_a_real_row() {
    let servers = vec![("Unknown".to_string(), server_with_cwd("a", None))];
    // Rows: 0 = "Unknown" header, 1 = the server row, 2 = spawn-new.
    let mut app = browsing(servers, 1);
    app.arm_delete();
    assert_eq!(app.attach_menu.unwrap().pending_delete, Some(0));
}

#[test]
fn arm_delete_on_group_header_row_is_a_no_op() {
    let servers = vec![("Unknown".to_string(), server_with_cwd("a", None))];
    let mut app = browsing(servers, 0);
    app.arm_delete();
    assert_eq!(app.attach_menu.unwrap().pending_delete, None);
}

#[test]
fn arm_delete_on_spawn_new_row_is_a_no_op() {
    let servers = vec![("Unknown".to_string(), server_with_cwd("a", None))];
    // Rows: 0 = "Unknown" header, 1 = the server row, 2 = spawn-new.
    let spawn_index = 2;
    let mut app = browsing(servers, spawn_index);
    app.arm_delete();
    assert_eq!(app.attach_menu.unwrap().pending_delete, None);
}

fn rename_state(text: &str, cursor: usize) -> RenameState {
    RenameState {
        index: 0,
        text: text.to_string(),
        cursor,
        error: None,
    }
}

#[test]
fn rename_edit_inserts_printable_bytes_at_cursor() {
    let mut state = rename_state("ab", 1);
    apply_rename_edit(&mut state, b"X");
    assert_eq!(state.text, "aXb");
    assert_eq!(state.cursor, 2);
}

#[test]
fn rename_edit_backspace_removes_char_before_cursor() {
    let mut state = rename_state("abc", 2);
    apply_rename_edit(&mut state, b"\x7f");
    assert_eq!(state.text, "ac");
    assert_eq!(state.cursor, 1);
}

#[test]
fn rename_edit_backspace_at_start_is_a_no_op() {
    let mut state = rename_state("abc", 0);
    apply_rename_edit(&mut state, b"\x7f");
    assert_eq!(state.text, "abc");
    assert_eq!(state.cursor, 0);
}

#[test]
fn rename_edit_delete_removes_char_at_cursor() {
    let mut state = rename_state("abc", 1);
    apply_rename_edit(&mut state, b"\x1b[3~");
    assert_eq!(state.text, "ac");
    assert_eq!(state.cursor, 1);
}

#[test]
fn rename_edit_left_and_right_move_cursor() {
    let mut state = rename_state("abc", 1);
    apply_rename_edit(&mut state, b"\x1b[C");
    assert_eq!(state.cursor, 2);
    apply_rename_edit(&mut state, b"\x1b[D");
    assert_eq!(state.cursor, 1);
}

#[test]
fn rename_edit_left_at_start_and_right_at_end_are_no_ops() {
    let mut state = rename_state("abc", 0);
    apply_rename_edit(&mut state, b"\x1b[D");
    assert_eq!(state.cursor, 0);
    let mut state = rename_state("abc", 3);
    apply_rename_edit(&mut state, b"\x1b[C");
    assert_eq!(state.cursor, 3);
}

#[test]
fn rename_edit_home_and_end_jump_cursor() {
    let mut state = rename_state("abc", 1);
    apply_rename_edit(&mut state, b"\x1b[H");
    assert_eq!(state.cursor, 0);
    apply_rename_edit(&mut state, b"\x1b[F");
    assert_eq!(state.cursor, 3);
}

#[test]
fn rename_edit_clears_stale_error_on_any_edit() {
    let mut state = rename_state("abc", 1);
    state.error = Some("name taken".to_string());
    apply_rename_edit(&mut state, b"X");
    assert_eq!(state.error, None);
}

#[test]
fn rename_edit_unrecognized_escape_is_ignored() {
    let mut state = rename_state("abc", 1);
    apply_rename_edit(&mut state, b"\x1b[99~");
    assert_eq!(state.text, "abc");
    assert_eq!(state.cursor, 1);
}

#[test]
fn start_rename_prefills_current_name_with_cursor_at_end() {
    let servers = vec![("Unknown".to_string(), server_with_cwd("my-name", None))];
    // Rows: 0 = "Unknown" header, 1 = the server row.
    let mut app = browsing(servers, 1);
    app.start_rename();
    let rename = app.attach_menu.unwrap().rename.unwrap();
    assert_eq!(rename.text, "my-name");
    assert_eq!(rename.cursor, "my-name".len());
    assert_eq!(rename.index, 0);
}

#[test]
fn start_rename_on_group_header_row_is_a_no_op() {
    let servers = vec![("Unknown".to_string(), server_with_cwd("a", None))];
    let mut app = browsing(servers, 0);
    app.start_rename();
    assert!(app.attach_menu.unwrap().rename.is_none());
}

#[test]
fn start_rename_on_spawn_new_row_is_a_no_op() {
    let servers = vec![("Unknown".to_string(), server_with_cwd("a", None))];
    // Rows: 0 = "Unknown" header, 1 = the server row, 2 = spawn-new.
    let spawn_index = 2;
    let mut app = browsing(servers, spawn_index);
    app.start_rename();
    assert!(app.attach_menu.unwrap().rename.is_none());
}

fn listed(groups: &[&str]) -> Vec<Listed> {
    groups
        .iter()
        .enumerate()
        .map(|(i, g)| {
            let mut server = server_with_cwd(&format!("p{i}"), Some(g));
            server.id = 100 + i as u128;
            (g.to_string(), server)
        })
        .collect()
}

#[test]
fn grouping_keeps_every_pane_and_the_order_within_a_group() {
    let dirs = ["/b", "/a", "/c", "/a", "/b", "/a"];
    let servers: Vec<ServerPaneInfo> = dirs
        .iter()
        .enumerate()
        .map(|(i, d)| server_with_cwd(&format!("{i}"), Some(d)))
        .collect();
    let grouped = group_servers_by_cwd(servers, &vec!["/c".to_string()]);
    let names: Vec<&str> = grouped.iter().map(|(_, s)| s.name.as_deref().unwrap()).collect();
    assert_eq!(names, vec!["2", "1", "3", "5", "0", "4"]);
}

#[test]
fn a_directory_named_like_the_bucket_is_sorted_with_it() {
    let servers = vec![
        server_with_cwd("odd", Some("Unknown")),
        server_with_cwd("z", Some("zzz")),
    ];
    let grouped = group_servers_by_cwd(servers, &vec![]);
    assert_eq!(grouped[0].0, "zzz");
    assert_eq!(grouped[1].0, "Unknown");
}

#[test]
fn a_process_without_a_directory_is_unknown() {
    let mut server = server_with_cwd("a", Some("/x"));
    server.foreground.as_mut().unwrap().cwd = None;
    assert_eq!(group_servers_by_cwd(vec![server], &vec![])[0].0, "Unknown");
}

#[test]
fn an_empty_menu_offers_to_spawn() {
    for grouped in [true, false] {
        assert_eq!(
            visible_attach_menu_rows(&vec![], &StringHashSet::new(), grouped),
            vec![AttachMenuRow::SpawnNew]
        );
    }
}

#[test]
fn collapsing_hides_all_but_the_header_and_expanding_restores() {
    let mut app = browsing(listed(&["/a", "/a", "/b"]), 0);
    let before = visible_attach_menu_rows(
        &app.attach_menu.as_ref().unwrap().servers,
        &app.collapsed_groups,
        true,
    );
    app.toggle_group_collapse(1);
    let hidden = visible_attach_menu_rows(
        &app.attach_menu.as_ref().unwrap().servers,
        &app.collapsed_groups,
        true,
    );
    assert_eq!(hidden.len(), before.len() - 3);
    app.toggle_group_collapse(0);
    let after = visible_attach_menu_rows(
        &app.attach_menu.as_ref().unwrap().servers,
        &app.collapsed_groups,
        true,
    );
    assert_eq!(before, after);
}

#[test]
fn the_selected_row_is_reported() {
    let mut app = browsing(listed(&["/a"]), 2);
    assert_eq!(
        app.selected_attach_menu_row(),
        Some(AttachMenuRow::SpawnNewInGroup(0))
    );
    app.attach_menu.as_mut().unwrap().selected = 9;
    assert_eq!(app.selected_attach_menu_row(), None);
    app.attach_menu = None;
    assert_eq!(app.selected_attach_menu_row(), None);
}

#[test]
fn deletion_needs_two_presses_and_another_key_disarms_it() {
    let mut app = browsing(listed(&["/a"]), 1);
    assert_eq!(app.handle_attach_menu_input(b"x"), Step::Done);
    assert_eq!(app.attach_menu.as_ref().unwrap().pending_delete, Some(0));
    assert_eq!(app.handle_attach_menu_input(b"j"), Step::Done);
    assert_eq!(app.attach_menu.as_ref().unwrap().pending_delete, None);
    assert_eq!(app.attach_menu.as_ref().unwrap().selected, 2);
}

#[test]
fn a_rename_field_takes_every_key() {
    let mut app = browsing(listed(&["/a"]), 1);
    assert_eq!(app.handle_attach_menu_input(b"r"), Step::Done);
    for key in [&b"x"[..], b"q", b"j", b"d", b"g"] {
        assert_eq!(app.handle_attach_menu_input(key), Step::Done);
    }
    let rename = app.attach_menu.as_ref().unwrap().rename.as_ref().unwrap();
    assert_eq!(rename.text, "p0xqjdg");
    assert_eq!(app.handle_attach_menu_input(b"\x1b"), Step::Done);
    assert!(app.attach_menu.as_ref().unwrap().rename.is_none());
}

#[test]
fn edits_move_by_whole_characters() {
    let mut state = rename_state("a\u{e9}\u{4e2d}", 6);
    apply_rename_edit(&mut state, b"\x1b[D");
    assert_eq!(state.cursor, 3);
    apply_rename_edit(&mut state, b"\x08");
    assert_eq!(state.text, "a\u{4e2d}");
    assert_eq!(state.cursor, 1);
    apply_rename_edit(&mut state, b"\x1b[3~");
    assert_eq!(state.text, "a");
    apply_rename_edit(&mut state, b"\x1b[3~");
    assert_eq!(state.text, "a");
    apply_rename_edit(&mut state, "\u{fc}\u{df}".as_bytes());
    assert_eq!(state.text, "a\u{fc}\u{df}");
    assert_eq!(state.cursor, 5);
}

#[test]
fn backspace_undoes_what_was_typed() {
    for cursor in 0..=3 {
        let mut state = rename_state("abc", cursor);
        apply_rename_edit(&mut state, b"Z");
        apply_rename_edit(&mut state, b"\x7f");
        assert_eq!(state, rename_state("abc", cursor));
    }
}

#[test]
fn unknown_escapes_and_broken_text_are_not_typed() {
    for bytes in [&b"\xff"[..], b"a\xc3", b"\x1bx", b"\x1b[5~"] {
        let mut state = rename_state("abc", 1);
        state.error = Some("taken".to_string());
        apply_rename_edit(&mut state, bytes);
        assert_eq!(state.text, "abc");
        assert_eq!(state.error.as_deref(), Some("taken"));
    }
}

#[test]
fn the_spawn_field_edits_alike() {
    let mut state = SpawnInGroupState {
        group_server_index: 4,
        text: "ls".to_string(),
        cursor: 2,
        error: Some("no".to_string()),
    };
    apply_spawn_in_group_edit(&mut state, b" -l");
    assert_eq!(state.text, "ls -l");
    assert_eq!(state.cursor, 5);
    assert_eq!(state.group_server_index, 4);
    assert_eq!(state.error, None);
}
