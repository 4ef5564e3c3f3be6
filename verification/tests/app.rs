use dimax::app::{App, Pending, Step};
use dimax::bindings::Action;
use dimax::geometry::{Direction, Ratio, Rect};
use dimax::input::{Input, InputBuffer};
use dimax::keys::{BindingMode, PortableParser, SHIFT_ENTER_CHORD};
use dimax::layout::{divider_rects, leaf_rects};
use dimax::menu::{group_servers_by_cwd, AttachMenu, AttachMenuAction, AttachMenuRow};
use dimax::mouse::MouseEvent;
use dimax::protocol::{
    Cell, ClientPane, ClientPaneId, CursorPosition, Event, ForegroundProcessInfo, GridSnapshot,
    Request, Response, ServerPaneId, ServerPaneInfo, ServerPaneStatus, Size, SplitDir, SplitTree,
    WorkspaceInfo,
};
use dimax::reconnect::{reconnect_step, Reconnect, RECONNECT_PAUSE_MILLIS, RECONNECT_TRIES};

fn fresh() -> u128 {
    uuid::Uuid::new_v4().as_u128()
}

fn leaf(id: ClientPaneId) -> SplitTree {
    SplitTree::Leaf(ClientPane {
        id,
        tabs: vec![],
        active_tab: 0,
        short_id: "aa".to_string(),
    })
}

fn split(dir: SplitDir, a: SplitTree, b: SplitTree) -> SplitTree {
    SplitTree::Split {
        id: fresh(),
        dir,
        percent: 50,
        a: Box::new(a),
        b: Box::new(b),
    }
}

fn rect(x: u16, y: u16, width: u16, height: u16) -> Rect {
    Rect { x, y, width, height }
}

struct Server {
    id: ServerPaneId,
    name: Option<String>,
    cwd: Option<String>,
    screen: String,
}

struct Pane {
    id: ClientPaneId,
    tabs: Vec<ServerPaneId>,
    active: usize,
}

/// A daemon with one workspace, whose panes stand side by side.
struct Daemon {
    workspace: u128,
    servers: Vec<Server>,
    panes: Vec<Pane>,
    pins: Vec<String>,
    fallback: bool,
    log: Vec<Request>,
}

impl Daemon {
    fn new() -> Self {
        Daemon {
            workspace: fresh(),
            servers: vec![],
            panes: vec![],
            pins: vec![],
            fallback: true,
            log: vec![],
        }
    }

    fn spawn(&mut self, name: Option<&str>, cwd: Option<&str>) -> ServerPaneId {
        let id = fresh();
        self.servers.push(Server {
            id,
            name: name.map(|n| n.to_string()),
            cwd: cwd.map(|c| c.to_string()),
            screen: String::new(),
        });
        id
    }

    fn add_pane(&mut self, tabs: Vec<ServerPaneId>) -> ClientPaneId {
        let id = fresh();
        let active = tabs.len().saturating_sub(1);
        self.panes.push(Pane { id, tabs, active });
        id
    }

    fn info(server: &Server) -> ServerPaneInfo {
        ServerPaneInfo {
            id: server.id,
            short_id: "aa".to_string(),
            name: server.name.clone(),
            status: ServerPaneStatus::Running,
            foreground: server.cwd.as_ref().map(|cwd| ForegroundProcessInfo {
                process_name: "cat".to_string(),
                cwd: Some(cwd.clone()),
                session_kind: None,
            }),
            attached_to: vec![],
        }
    }

    fn listed(&self, id: ServerPaneId) -> ServerPaneInfo {
        Daemon::info(self.servers.iter().find(|s| s.id == id).unwrap())
    }

    fn list(&self) -> Vec<ServerPaneInfo> {
        self.servers.iter().map(Daemon::info).collect()
    }

    fn tree(&self) -> Option<SplitTree> {
        let leaf = |p: &Pane| {
            SplitTree::Leaf(ClientPane {
                id: p.id,
                short_id: "aa".to_string(),
                tabs: p.tabs.clone(),
                active_tab: p.active,
            })
        };
        let mut panes = self.panes.iter();
        let first = leaf(panes.next()?);
        Some(panes.fold(first, |tree, p| split(SplitDir::Vertical, tree, leaf(p))))
    }

    fn pane(&mut self, id: ClientPaneId) -> &mut Pane {
        self.panes.iter_mut().find(|p| p.id == id).unwrap()
    }

    fn bound(&self, id: ClientPaneId) -> Option<ServerPaneId> {
        let pane = self.panes.iter().find(|p| p.id == id).unwrap();
        pane.tabs.get(pane.active).copied()
    }

    fn drop_tab(&mut self, id: ClientPaneId) {
        let pane = self.pane(id);
        if !pane.tabs.is_empty() {
            pane.tabs.remove(pane.active);
            pane.active = pane.active.min(pane.tabs.len().saturating_sub(1));
        }
    }

    fn answer(&mut self, request: &Request) -> Response {
        match request {
            Request::Subscribe { .. } => Response::Snapshot {
                workspace: WorkspaceInfo { id: self.workspace, tree: self.tree() },
                grids: vec![],
            },
            Request::ConsumeShellFallback => {
                let available = self.fallback;
                self.fallback = false;
                Response::ShellFallback { available }
            }
            Request::ServerSpawn { cwd } => {
                let id = self.spawn(None, cwd.as_deref());
                Response::ServerPane(self.listed(id))
            }
            Request::ServerKill { target } => {
                self.servers.retain(|s| s.id != *target);
                Response::Ack
            }
            Request::ServerRename { target, new_name } => {
                if self.servers.iter().any(|s| s.name.as_ref() == Some(new_name)) {
                    return Response::Error { message: "name taken".to_string() };
                }
                let server = self.servers.iter_mut().find(|s| s.id == *target).unwrap();
                server.name = Some(new_name.clone());
                Response::Ack
            }
            Request::ServerRead { target } => Response::ServerReadOutput {
                text: self.servers.iter().find(|s| s.id == *target).unwrap().screen.clone(),
            },
            Request::ServerSend { target, text, enter } => {
                let server = self.servers.iter_mut().find(|s| s.id == *target).unwrap();
                server.screen.push_str(text);
                if *enter {
                    server.screen.push('\n');
                }
                Response::Ack
            }
            Request::ServerList => Response::ServerPaneList(self.list()),
            Request::PinnedDirsList => Response::PinnedDirsList(self.pins.clone()),
            Request::ToggleDirectoryPin { directory } => {
                if self.pins.contains(directory) {
                    self.pins.retain(|d| d != directory);
                } else {
                    self.pins.push(directory.clone());
                }
                Response::PinnedDirsList(self.pins.clone())
            }
            Request::ClientSpawn { bind, .. } => {
                let pane = self.add_pane(bind.iter().copied().collect());
                Response::ClientPaneCreated { pane }
            }
            Request::ClientBind { pane, target, .. } => {
                let pane = self.pane(*pane);
                if pane.tabs.is_empty() {
                    pane.tabs.push(*target);
                } else {
                    let active = pane.active;
                    pane.tabs[active] = *target;
                }
                Response::Ack
            }
            Request::ClientAddTab { pane, target, .. } => {
                let pane = self.pane(*pane);
                pane.tabs.push(*target);
                pane.active = pane.tabs.len() - 1;
                Response::Ack
            }
            Request::ClientUnbind { pane, .. } | Request::ClientCloseTab { pane, .. } => {
                self.drop_tab(*pane);
                Response::Ack
            }
            Request::ClientCycleTab { pane, forward, .. } => {
                let pane = self.pane(*pane);
                let n = pane.tabs.len().max(1);
                pane.active = (pane.active + if *forward { 1 } else { n - 1 }) % n;
                Response::Ack
            }
            _ => Response::Ack,
        }
    }

    /// Carry out `step` and all that follows from it; the last step is returned.
    fn run(&mut self, app: &mut App, step: Step) -> Step {
        let mut step = step;
        while let Step::Send(request, pending) = step {
            let response = self.answer(&request);
            self.log.push(request);
            app.apply_event(Event::LayoutDelta { workspace: self.workspace, tree: self.tree() });
            step = app.resume(pending, response);
        }
        step
    }

    /// A client of this daemon, which shows everything in its menu.
    fn attach(&mut self) -> App {
        let workspace = WorkspaceInfo { id: self.workspace, tree: self.tree() };
        let (mut app, _) = App::bootstrap(workspace, vec![]);
        app.agents_only_view = false;
        app
    }
}

fn two_side_by_side_leaves() -> (App, ClientPaneId, ClientPaneId) {
    let left = fresh();
    let right = fresh();
    let workspace = WorkspaceInfo {
        id: fresh(),
        tree: Some(split(SplitDir::Vertical, leaf(left), leaf(right))),
    };
    let (mut app, step) = App::bootstrap(workspace, vec![]);
    assert_eq!(step, Step::Done);
    app.set_frame_area(rect(0, 0, 80, 24));
    (app, left, right)
}

fn open_menu_with_one_group(app: &mut App, cwd: &str, existing: ServerPaneInfo) {
    app.attach_menu = Some(AttachMenu::opened(
        vec![(cwd.to_string(), existing)],
        2,
        None,
        false,
    ));
}

fn cells(text: &str) -> Vec<Cell> {
    text.chars()
        .map(|ch| Cell {
            text: ch.to_string(),
            fg: None,
            bg: None,
            bold: false,
            italic: false,
            underline: false,
            reverse: false,
        })
        .collect()
}

fn screen(server_pane: ServerPaneId, text: &str) -> GridSnapshot {
    GridSnapshot {
        server_pane,
        cursor: CursorPosition { col: 0, row: 0 },
        lines: vec![cells(text)],
        scroll_offset: 0,
    }
}

#[test]
fn handle_action_quit_signals_the_caller_to_break() {
    let mut app = Daemon::new().attach();
    assert_eq!(app.handle_action(Action::Quit, &[]), Step::Quit);
}

#[test]
fn handle_action_non_quit_action_does_not_signal_a_break() {
    let mut app = Daemon::new().attach();
    assert_eq!(app.handle_action(Action::PassThrough, b"x"), Step::Done);
}

#[test]
fn dispatch_attach_menu_action_quit_signals_the_caller_to_break() {
    let mut app = Daemon::new().attach();
    assert_eq!(app.dispatch_attach_menu_action(AttachMenuAction::Quit), Step::Quit);
}

#[test]
fn dispatch_attach_menu_action_non_quit_action_does_not_signal_a_break() {
    let mut app = Daemon::new().attach();
    assert_eq!(app.dispatch_attach_menu_action(AttachMenuAction::Ignore), Step::Done);
}

#[test]
fn jump_session_binds_the_numbered_existing_session_without_creating_one() {
    let mut daemon = Daemon::new();
    let alpha = daemon.spawn(Some("alpha"), None);
    let beta = daemon.spawn(Some("beta"), None);
    let pane = daemon.add_pane(vec![alpha]);
    let mut app = daemon.attach();

    let step = app.jump_session(2);
    assert_eq!(daemon.run(&mut app, step), Step::Done);
    assert_eq!(daemon.bound(pane), Some(beta));

    let step = app.jump_session(9);
    assert_eq!(daemon.run(&mut app, step), Step::Done);
    assert_eq!(
        daemon.servers.len(),
        2,
        "a missing number must not create a session"
    );
    assert_eq!(daemon.bound(pane), Some(beta));
}

#[test]
fn bootstrap_on_a_fresh_daemon_with_an_empty_workspace_spawns_a_default_shell() {
    let mut daemon = Daemon::new();
    let workspace = WorkspaceInfo { id: daemon.workspace, tree: None };
    let (mut app, step) = App::bootstrap(workspace, vec![]);
    assert_eq!(daemon.run(&mut app, step), Step::Done);

    assert!(
        app.attach_menu.is_none(),
        "the very first attach should not open the picker"
    );
    assert!(
        app.focused.is_some(),
        "a default shell should already be spawned and focused"
    );
    assert_eq!(daemon.panes.len(), 1, "exactly one default-shell leaf should exist");
    assert_eq!(
        Some(daemon.panes[0].id),
        app.focused,
        "that leaf should be the focused one"
    );
    assert!(
        daemon.bound(daemon.panes[0].id).is_some(),
        "the default shell should be bound to a server-pane"
    );
}

#[test]
fn bootstrap_on_a_second_empty_workspace_attach_opens_the_picker_instead() {
    let mut daemon = Daemon::new();
    daemon.fallback = false;
    let workspace = WorkspaceInfo { id: daemon.workspace, tree: None };
    let (mut second, step) = App::bootstrap(workspace, vec![]);
    assert_eq!(daemon.run(&mut second, step), Step::Done);

    assert!(
        second.attach_menu.is_some(),
        "the second empty-workspace attach should open the picker"
    );
    assert_eq!(
        second.focused, None,
        "no leaf exists yet, so nothing should be focused"
    );
    assert!(
        second.workspace.tree.is_none(),
        "the picker path must not itself create a leaf"
    );
}

#[test]
fn confirm_attach_menu_with_no_focused_pane_spawns_the_first_leaf() {
    let mut daemon = Daemon::new();
    let existing_id = daemon.spawn(None, None);
    let mut app = daemon.attach();
    assert_eq!(app.focused, None);
    app.attach_menu = Some(AttachMenu::opened(
        vec![("Unknown".to_string(), daemon.listed(existing_id))],
        1,
        None,
        false,
    ));
    assert_eq!(
        app.selected_attach_menu_row(),
        Some(AttachMenuRow::Server(0)),
        "row 1 should be the existing server-pane's own row"
    );

    let step = app.confirm_attach_menu();
    assert_eq!(daemon.run(&mut app, step), Step::Done);

    let focused = app
        .focused
        .expect("confirming on a leaf-less workspace should focus the newly created leaf");
    assert_eq!(daemon.bound(focused), Some(existing_id));
}

#[test]
fn close_tab_kills_the_bound_server_pane() {
    let mut daemon = Daemon::new();
    let server = daemon.spawn(None, None);
    daemon.add_pane(vec![server]);
    let mut app = daemon.attach();

    let step = app.close_tab();
    assert_eq!(daemon.run(&mut app, step), Step::Done);

    assert!(
        !daemon.servers.iter().any(|s| s.id == server),
        "closing the tab should have killed its bound server-pane"
    );
}

#[test]
fn close_tab_on_an_already_unbound_pane_is_a_no_op() {
    let mut daemon = Daemon::new();
    let pane = daemon.add_pane(vec![]);
    let mut app = daemon.attach();

    let step = app.close_tab();
    assert_eq!(step, Step::Done);
    assert_eq!(daemon.run(&mut app, step), Step::Done);

    assert!(
        daemon.panes.iter().any(|p| p.id == pane),
        "an already-unbound pane must survive cmd-w, not be removed from the layout"
    );
}

#[test]
fn close_tab_on_a_multi_tab_pane_drops_only_the_active_tab() {
    let mut daemon = Daemon::new();
    let sp1 = daemon.spawn(None, None);
    let sp2 = daemon.spawn(None, None);
    let pane = daemon.add_pane(vec![sp1, sp2]);
    let mut app = daemon.attach();

    let step = app.close_tab();
    assert_eq!(daemon.run(&mut app, step), Step::Done);

    assert!(
        daemon.panes.iter().any(|p| p.id == pane),
        "the leaf must survive closing one of its two tabs"
    );
    assert!(
        !daemon.servers.iter().any(|s| s.id == sp2),
        "the dropped tab's bound server-pane should have been killed"
    );
    assert!(
        daemon.servers.iter().any(|s| s.id == sp1),
        "the remaining tab's server-pane must survive"
    );
}

#[test]
fn detach_and_open_menu_preselects_the_just_detached_pane() {
    let mut daemon = Daemon::new();
    daemon.spawn(None, None);
    let existing_id = daemon.spawn(None, None);
    let pane = daemon.add_pane(vec![existing_id]);
    let mut app = daemon.attach();

    let step = app.detach_and_open_menu();
    assert_eq!(daemon.run(&mut app, step), Step::Done);
    assert_eq!(daemon.bound(pane), None);

    let menu = app.attach_menu.as_ref().unwrap();
    match app.selected_attach_menu_row() {
        Some(AttachMenuRow::Server(server_index)) => {
            assert_eq!(
                menu.servers[server_index].1.id, existing_id,
                "the picker should open with the just-detached pane's own row already selected"
            );
        }
        other => panic!("expected the picker to open on a Server row, got {other:?}"),
    }

    let step = app.confirm_attach_menu();
    assert_eq!(daemon.run(&mut app, step), Step::Done);
    assert_eq!(daemon.bound(pane), Some(existing_id));
}

#[test]
fn escape_from_the_picker_restores_the_previous_binding() {
    let mut daemon = Daemon::new();
    let existing_id = daemon.spawn(None, None);
    let pane = daemon.add_pane(vec![existing_id]);
    let mut app = daemon.attach();

    let step = app.detach_and_open_menu();
    daemon.run(&mut app, step);
    assert!(
        app.attach_menu.is_some(),
        "the picker should be open before Escape"
    );

    let step = app.dispatch_attach_menu_action(AttachMenuAction::Cancel);
    assert_eq!(daemon.run(&mut app, step), Step::Done);

    assert!(app.attach_menu.is_none(), "Escape should close the menu");
    assert_eq!(
        daemon.bound(pane),
        Some(existing_id),
        "Escape should have restored the original binding rather than leaving the leaf unbound"
    );
}

#[test]
fn escape_from_the_picker_with_nothing_previously_bound_is_a_plain_close() {
    let mut daemon = Daemon::new();
    let pane = daemon.add_pane(vec![]);
    let mut app = daemon.attach();

    let step = app.detach_and_open_menu();
    daemon.run(&mut app, step);
    let step = app.dispatch_attach_menu_action(AttachMenuAction::Cancel);
    assert_eq!(step, Step::Done);

    assert!(app.attach_menu.is_none());
    assert_eq!(daemon.bound(pane), None);
}

#[test]
fn detach_all_clears_every_tab_on_the_leaf() {
    let mut daemon = Daemon::new();
    let sp1 = daemon.spawn(None, None);
    let sp2 = daemon.spawn(None, None);
    let pane = daemon.add_pane(vec![sp1, sp2]);
    let mut app = daemon.attach();

    let step = app.detach_and_open_menu();
    daemon.run(&mut app, step);
    assert!(app.attach_menu.is_some());

    let step = app.dispatch_attach_menu_action(AttachMenuAction::DetachAll);
    assert_eq!(daemon.run(&mut app, step), Step::Done);

    assert!(
        app.attach_menu.is_none(),
        "detach-all should close the menu"
    );
    assert!(
        daemon.pane(pane).tabs.is_empty(),
        "every tab should have been detached"
    );
    assert!(daemon.servers.iter().any(|s| s.id == sp1));
    assert!(daemon.servers.iter().any(|s| s.id == sp2));
}

#[test]
fn detach_and_reattach_on_a_multi_tab_leaf_preserves_the_other_tab() {
    let mut daemon = Daemon::new();
    let sp1 = daemon.spawn(None, None);
    let sp2 = daemon.spawn(None, None);
    let sp3 = daemon.spawn(None, None);
    let pane = daemon.add_pane(vec![sp1, sp2]);
    let mut app = daemon.attach();

    let step = app.detach_and_open_menu();
    daemon.run(&mut app, step);
    assert!(app.attach_menu.is_some(), "the picker should open");

    app.attach_menu.as_mut().unwrap().servers = vec![("Unknown".to_string(), daemon.listed(sp3))];
    app.attach_menu.as_mut().unwrap().selected = 1;
    let step = app.confirm_attach_menu();
    assert_eq!(daemon.run(&mut app, step), Step::Done);

    assert_eq!(
        daemon.pane(pane).tabs,
        vec![sp1, sp3],
        "sp1 (the untouched sibling tab) must survive; sp2 (the active tab) should have been replaced by sp3"
    );
}

#[test]
fn open_add_tab_menu_then_confirm_appends_rather_than_replaces() {
    let mut daemon = Daemon::new();
    let sp1 = daemon.spawn(None, None);
    let sp2 = daemon.spawn(None, None);
    let pane = daemon.add_pane(vec![sp1]);
    let mut app = daemon.attach();

    let step = app.open_add_tab_menu();
    daemon.run(&mut app, step);
    assert!(app.attach_menu.is_some(), "cmd-t should open the picker");
    assert!(
        app.attach_menu.as_ref().unwrap().adding_tab,
        "cmd-t's menu must be in add-tab mode"
    );
    assert_eq!(
        app.attach_menu.as_ref().unwrap().previously_bound,
        None,
        "cmd-t must not unbind/detach anything"
    );

    app.attach_menu.as_mut().unwrap().servers = vec![("Unknown".to_string(), daemon.listed(sp2))];
    app.attach_menu.as_mut().unwrap().selected = 1;
    let step = app.confirm_attach_menu();
    assert_eq!(daemon.run(&mut app, step), Step::Done);

    assert_eq!(
        daemon.pane(pane).tabs,
        vec![sp1, sp2],
        "add-tab mode must append sp2 as a new tab, not replace sp1"
    );
    assert_eq!(
        daemon.pane(pane).active, 1,
        "the newly-added tab should become active"
    );
}

#[test]
fn open_add_tab_menu_defaults_selection_to_spawn_new() {
    let mut daemon = Daemon::new();
    let sp1 = daemon.spawn(None, None);
    daemon.add_pane(vec![sp1]);
    let mut app = daemon.attach();

    let step = app.open_add_tab_menu();
    daemon.run(&mut app, step);

    assert_eq!(
        app.selected_attach_menu_row(),
        Some(AttachMenuRow::SpawnNew),
        "cmd-t must default to the generic new-tab row, not row 0"
    );
}

#[test]
fn spawn_in_group_enter_spawns_binds_and_sends_typed_text() {
    let mut daemon = Daemon::new();
    let pane = daemon.add_pane(vec![]);
    let existing_id = daemon.spawn(None, Some("/tmp"));
    let mut app = daemon.attach();
    open_menu_with_one_group(&mut app, "/tmp", daemon.listed(existing_id));

    assert_eq!(app.handle_attach_menu_input(b" "), Step::Done);
    assert_eq!(app.handle_attach_menu_input(b"echo hi"), Step::Done);
    assert_eq!(
        app.attach_menu
            .as_ref()
            .unwrap()
            .spawn_in_group
            .as_ref()
            .unwrap()
            .text,
        "echo hi",
        "space should open the field, then typing should fill it"
    );

    let step = app.handle_attach_menu_input(b"\r");
    assert_eq!(daemon.run(&mut app, step), Step::Done);
    assert!(
        app.attach_menu.is_none(),
        "confirming should close the menu"
    );

    let new_server_pane = daemon
        .bound(pane)
        .expect("Enter should have bound the newly spawned pane");
    assert_ne!(
        new_server_pane, existing_id,
        "should bind the NEW pane, not the pre-existing one"
    );
    let server = daemon.servers.iter().find(|s| s.id == new_server_pane).unwrap();
    assert_eq!(server.cwd.as_deref(), Some("/tmp"));
    assert_eq!(server.screen, "echo hi\n");
}

#[test]
fn spawn_in_group_shift_enter_spawns_and_sends_but_leaves_unbound() {
    let mut daemon = Daemon::new();
    let pane = daemon.add_pane(vec![]);
    let existing_id = daemon.spawn(None, Some("/tmp"));
    let mut app = daemon.attach();
    open_menu_with_one_group(&mut app, "/tmp", daemon.listed(existing_id));

    assert_eq!(app.handle_attach_menu_input(b" "), Step::Done);
    assert_eq!(app.handle_attach_menu_input(b"echo unbound-test"), Step::Done);
    let step = app.handle_attach_menu_input(&SHIFT_ENTER_CHORD);
    assert_eq!(daemon.run(&mut app, step), Step::Done);
    assert!(
        app.attach_menu.is_some(),
        "Shift+Enter should keep the menu open, unlike plain Enter"
    );
    assert!(
        app.attach_menu.as_ref().unwrap().spawn_in_group.is_none(),
        "the just-confirmed field should close even though the menu itself stays open"
    );
    assert!(
        app.attach_menu
            .as_ref()
            .unwrap()
            .servers
            .iter()
            .any(|(_, s)| s.id != existing_id),
        "the newly spawned pane should already be visible in the still-open menu's row list"
    );
    assert_eq!(
        daemon.bound(pane),
        None,
        "Shift+Enter must not bind the new pane into the focused client-pane"
    );
    let new_pane = daemon
        .servers
        .iter()
        .find(|s| s.id != existing_id)
        .expect("a second server-pane should have been spawned");
    assert!(new_pane.screen.contains("unbound-test"));
}

#[test]
fn spawn_in_group_row_nav_keys_move_selection_without_opening_the_field() {
    let mut daemon = Daemon::new();
    let existing = daemon.spawn(None, Some("/tmp"));
    let mut app = daemon.attach();
    open_menu_with_one_group(&mut app, "/tmp", daemon.listed(existing));
    assert_eq!(
        app.selected_attach_menu_row(),
        Some(AttachMenuRow::SpawnNewInGroup(0))
    );

    assert_eq!(app.handle_attach_menu_input(b"j"), Step::Done);
    assert!(
        app.attach_menu.as_ref().unwrap().spawn_in_group.is_none(),
        "`j` should navigate, not open the spawn field"
    );
    assert_eq!(
        app.selected_attach_menu_row(),
        Some(AttachMenuRow::SpawnNew),
        "`j` should move to the next row"
    );

    assert_eq!(app.handle_attach_menu_input(b"\x1b[A"), Step::Done);
    assert_eq!(
        app.selected_attach_menu_row(),
        Some(AttachMenuRow::SpawnNewInGroup(0)),
        "up-arrow should move back"
    );
    assert!(app.attach_menu.as_ref().unwrap().spawn_in_group.is_none());
}

#[test]
fn spawn_in_group_row_still_dispatches_filter_and_action_keys() {
    let mut daemon = Daemon::new();
    let existing = daemon.spawn(None, Some("/tmp"));
    let mut app = daemon.attach();
    open_menu_with_one_group(&mut app, "/tmp", daemon.listed(existing));
    assert_eq!(
        app.selected_attach_menu_row(),
        Some(AttachMenuRow::SpawnNewInGroup(0))
    );
    let before = app.agents_only_view;

    let step = app.handle_attach_menu_input(b"f");
    assert_eq!(daemon.run(&mut app, step), Step::Done);

    assert!(
        app.attach_menu.as_ref().unwrap().spawn_in_group.is_none(),
        "`f` must not open the spawn field"
    );
    assert_eq!(
        app.agents_only_view, !before,
        "`f` must still toggle agents-only even though a spawn row was selected"
    );
}

#[test]
fn refresh_attach_menu_preview_fetches_the_selected_servers_output() {
    let mut daemon = Daemon::new();
    let existing_id = daemon.spawn(None, Some("/tmp"));
    let mut app = daemon.attach();
    open_menu_with_one_group(&mut app, "/tmp", daemon.listed(existing_id));
    app.attach_menu.as_mut().unwrap().selected = 1;
    assert_eq!(
        app.selected_attach_menu_row(),
        Some(AttachMenuRow::Server(0))
    );
    daemon.servers[0].screen = "preview-marker\n".to_string();

    let step = app.refresh_attach_menu_preview();
    assert_eq!(daemon.run(&mut app, step), Step::Done);
    assert_eq!(
        app.attach_menu_preview,
        Some((existing_id, "preview-marker\n".to_string()))
    );
}

#[test]
fn refresh_attach_menu_preview_clears_when_selection_leaves_a_server_row() {
    let mut daemon = Daemon::new();
    let existing = daemon.spawn(None, Some("/tmp"));
    let mut app = daemon.attach();
    open_menu_with_one_group(&mut app, "/tmp", daemon.listed(existing));
    app.attach_menu.as_mut().unwrap().selected = 1;
    let step = app.refresh_attach_menu_preview();
    daemon.run(&mut app, step);
    assert!(
        app.attach_menu_preview.is_some(),
        "expected a preview to be cached for the server row"
    );

    app.attach_menu.as_mut().unwrap().selected = 0;
    assert_eq!(app.refresh_attach_menu_preview(), Step::Done);
    assert!(
        app.attach_menu_preview.is_none(),
        "selecting the header should clear the cached preview"
    );
}

#[test]
fn click_inside_a_pane_focuses_it() {
    let (mut app, _left, right) = two_side_by_side_leaves();
    assert_eq!(
        app.handle_mouse(MouseEvent::Down { col: 75, row: 5 }),
        Step::Done
    );
    assert_eq!(
        app.focused,
        Some(right),
        "clicking inside the right pane should focus it"
    );
}

#[test]
fn dragging_pane_text_returns_it_for_clipboard_copy_and_keeps_highlight() {
    let left = fresh();
    let right = fresh();
    let server_pane = fresh();
    let workspace = WorkspaceInfo {
        id: fresh(),
        tree: Some(split(
            SplitDir::Vertical,
            leaf(left),
            SplitTree::Leaf(ClientPane {
                id: right,
                short_id: "ab".to_string(),
                tabs: vec![server_pane],
                active_tab: 0,
            }),
        )),
    };
    let (mut app, _) = App::bootstrap(workspace, vec![screen(server_pane, "abcdef")]);
    app.set_frame_area(rect(0, 0, 80, 24));
    let (_, right_rect) = leaf_rects(app.workspace.tree.as_ref().unwrap(), app.frame_area)
        .into_iter()
        .find(|(pane, _)| *pane == right)
        .unwrap();
    let start_col = right_rect.x + 1;
    let content_row = right_rect.y + 1;

    assert_eq!(
        app.handle_mouse(MouseEvent::Down { col: start_col, row: content_row }),
        Step::Done
    );
    assert_eq!(
        app.handle_mouse(MouseEvent::Drag { col: start_col + 2, row: content_row }),
        Step::Done
    );
    let copied = app.handle_mouse(MouseEvent::Up { col: start_col + 2, row: content_row });

    assert_eq!(copied, Step::Copy("bcd".to_string()));
    let selection = app
        .text_selection
        .as_ref()
        .expect("highlight should remain after copying");
    assert!(!selection.is_dragging());
    assert!(selection.contains(0, 1));
    assert!(selection.contains(0, 3));
}

#[test]
fn click_on_a_divider_does_not_change_focus() {
    let (mut app, left, _right) = two_side_by_side_leaves();
    let divider = divider_rects(app.workspace.tree.as_ref().unwrap(), app.frame_area);
    let [hit] = divider.as_slice() else {
        panic!("expected exactly one divider, got {divider:?}")
    };
    let col = hit.grab_zone.x;

    assert_eq!(app.handle_mouse(MouseEvent::Down { col, row: 5 }), Step::Done);

    assert_eq!(
        app.focused,
        Some(left),
        "clicking the divider should start a drag, not change focus"
    );
    assert!(
        app.dragging_split.is_some(),
        "the click should have been recognized as a divider grab"
    );
}

#[test]
fn toggle_directory_pin_on_a_header_row_sorts_it_first() {
    let mut daemon = Daemon::new();
    daemon.spawn(None, Some("/tmp/dmx-am-pin-aaa"));
    daemon.spawn(None, Some("/tmp/dmx-am-pin-zzz"));
    let mut app = daemon.attach();
    app.attach_menu = Some(AttachMenu::opened(
        group_servers_by_cwd(daemon.list(), &app.pinned_dirs),
        0,
        None,
        false,
    ));
    let sort_key = |app: &App| app.attach_menu.as_ref().unwrap().servers[0].0.clone();
    assert_eq!(sort_key(&app), "/tmp/dmx-am-pin-aaa");

    app.attach_menu.as_mut().unwrap().selected = 3;
    assert_eq!(
        app.selected_attach_menu_row(),
        Some(AttachMenuRow::GroupHeader(1)),
        "row 3 should be dir_z's header"
    );
    let step = app.toggle_directory_pin();
    assert_eq!(daemon.run(&mut app, step), Step::Done);

    assert_eq!(app.pinned_dirs, vec!["/tmp/dmx-am-pin-zzz".to_string()]);
    assert_eq!(
        sort_key(&app),
        "/tmp/dmx-am-pin-zzz",
        "pinning dir_z should move it to the front of the grouped list"
    );
    assert_eq!(daemon.pins, vec!["/tmp/dmx-am-pin-zzz".to_string()]);
}

#[test]
fn toggle_directory_pin_on_a_server_row_pins_its_group() {
    let mut daemon = Daemon::new();
    let existing = daemon.spawn(None, Some("/tmp/dmx-am-pin-server-row"));
    let mut app = daemon.attach();
    open_menu_with_one_group(&mut app, "/tmp/dmx-am-pin-server-row", daemon.listed(existing));
    app.attach_menu.as_mut().unwrap().selected = 1;
    assert_eq!(
        app.selected_attach_menu_row(),
        Some(AttachMenuRow::Server(0))
    );

    let step = app.toggle_directory_pin();
    assert_eq!(daemon.run(&mut app, step), Step::Done);

    assert_eq!(app.pinned_dirs, vec!["/tmp/dmx-am-pin-server-row".to_string()]);
}

#[test]
fn toggle_directory_pin_on_the_spawn_new_row_is_a_no_op() {
    let mut daemon = Daemon::new();
    let existing = daemon.spawn(None, Some("/tmp"));
    let mut app = daemon.attach();
    open_menu_with_one_group(&mut app, "/tmp", daemon.listed(existing));
    app.attach_menu.as_mut().unwrap().selected = 3;
    assert_eq!(
        app.selected_attach_menu_row(),
        Some(AttachMenuRow::SpawnNew)
    );

    assert_eq!(app.toggle_directory_pin(), Step::Done);
    assert!(
        app.pinned_dirs.is_empty(),
        "toggling on the spawn-new row must not pin anything"
    );
}

#[test]
fn focus_moves_to_the_neighbour_and_stays_at_the_edge() {
    let (mut app, left, right) = two_side_by_side_leaves();
    assert_eq!(app.focused, Some(left));
    app.move_focus(Direction::Right);
    assert_eq!(app.focused, Some(right));
    app.move_focus(Direction::Right);
    assert_eq!(app.focused, Some(right));
    assert_eq!(app.handle_action(Action::FocusLeft, &[]), Step::Done);
    assert_eq!(app.focused, Some(left));
}

#[test]
fn focus_follows_the_layout() {
    let (mut app, left, right) = two_side_by_side_leaves();
    let workspace = app.workspace.id;
    app.apply_event(Event::LayoutDelta { workspace, tree: Some(leaf(right)) });
    assert_eq!(app.focused, Some(right));
    app.apply_event(Event::LayoutDelta { workspace: fresh(), tree: None });
    assert_eq!(app.focused, Some(right));
    app.apply_event(Event::LayoutDelta { workspace, tree: None });
    assert_eq!(app.focused, None);
    app.apply_event(Event::LayoutDelta { workspace, tree: Some(leaf(left)) });
    assert_eq!(app.focused, Some(left));
}

#[test]
fn a_selection_does_not_outlive_its_screen() {
    let pane = fresh();
    let server_pane = fresh();
    let bound_leaf = || {
        SplitTree::Leaf(ClientPane {
            id: pane,
            short_id: "aa".to_string(),
            tabs: vec![server_pane],
            active_tab: 0,
        })
    };
    let select = || {
        let workspace = WorkspaceInfo { id: 1, tree: Some(bound_leaf()) };
        let (mut app, _) = App::bootstrap(workspace, vec![screen(server_pane, "abcdef")]);
        app.set_frame_area(rect(0, 0, 20, 5));
        app.handle_mouse(MouseEvent::Down { col: 1, row: 1 });
        assert!(app.text_selection.is_some());
        app
    };
    let mut app = select();
    app.apply_event(Event::LayoutDelta { workspace: 1, tree: Some(bound_leaf()) });
    assert!(app.text_selection.is_some());
    app.apply_event(Event::LayoutDelta { workspace: 1, tree: None });
    assert!(app.text_selection.is_none());

    let mut app = select();
    app.apply_event(Event::ServerPaneDied { server_pane });
    assert!(app.text_selection.is_none());
    assert!(!app.grids.contains_key(&server_pane));

    let mut app = select();
    app.apply_event(Event::GridDelta { snapshot: screen(server_pane, "xyz") });
    assert_eq!(app.grids[&server_pane], screen(server_pane, "xyz"));
    assert_eq!(app.handle_action(Action::FocusUp, &[]), Step::Done);
    assert!(app.text_selection.is_none());
}

#[test]
fn a_drag_resizes_once_it_is_released() {
    let (mut app, left, _) = two_side_by_side_leaves();
    let hit = divider_rects(app.workspace.tree.as_ref().unwrap(), app.frame_area)[0];
    let col = hit.grab_zone.x;
    assert_eq!(app.handle_mouse(MouseEvent::Down { col, row: 3 }), Step::Done);
    assert_eq!(app.handle_mouse(MouseEvent::Drag { col: 20, row: 3 }), Step::Done);
    assert_eq!(
        app.dragging_split.map(|d| (d.split, d.ratio)),
        Some((hit.split, Ratio { offset: 20, span: 80 }))
    );
    assert_eq!(
        app.handle_mouse(MouseEvent::Up { col: 22, row: 3 }),
        Step::Send(
            Request::ResizeSplit {
                workspace: app.workspace.id,
                split: hit.split,
                new_ratio: Ratio { offset: 20, span: 80 },
            },
            Pending::Discard,
        )
    );
    assert_eq!(app.dragging_split, None);
    assert_eq!(app.focused, Some(left));
}

#[test]
fn the_wheel_scrolls_the_pane_below_it() {
    let (mut app, left, right) = two_side_by_side_leaves();
    assert_eq!(
        app.handle_mouse(MouseEvent::ScrollUp { col: 75, row: 5 }),
        Step::Send(
            Request::ScrollClientPane { pane: right, delta: 3 },
            Pending::Discard,
        )
    );
    assert_eq!(
        app.handle_mouse(MouseEvent::ScrollDown { col: 1, row: 5 }),
        Step::Send(
            Request::ScrollClientPane { pane: left, delta: -3 },
            Pending::Discard,
        )
    );
    assert_eq!(app.focused, Some(left));
}

#[test]
fn sizes_are_reported_once() {
    let (mut app, left, right) = two_side_by_side_leaves();
    let sizes = app.report_sizes();
    assert_eq!(sizes.len(), 2);
    assert_eq!((sizes[0].0, sizes[1].0), (left, right));
    assert_eq!(sizes[0].1.rows, 23);
    assert_eq!(sizes[0].1.cols + sizes[1].1.cols, 77);
    assert!(app.report_sizes().is_empty());
    app.set_frame_area(rect(0, 0, 80, 30));
    assert_eq!(app.report_sizes().len(), 2);
    assert_eq!(app.pane_sizes[&left], Size { rows: 29, cols: sizes[0].1.cols });
}

#[test]
fn keys_go_to_the_focused_pane() {
    let (mut app, left, _) = two_side_by_side_leaves();
    let mut parser = PortableParser::default();
    assert_eq!(
        app.handle_keys(b"ls\r", &mut parser, BindingMode::Portable),
        Step::Send(
            Request::Input { pane: left, bytes: b"ls\r".to_vec() },
            Pending::Discard,
        )
    );
    assert_eq!(
        app.handle_keys(b"\0", &mut parser, BindingMode::Portable),
        Step::Done
    );
    assert_eq!(
        app.handle_keys(b"q", &mut parser, BindingMode::Portable),
        Step::Quit
    );
    app.focused = None;
    assert_eq!(
        app.handle_keys(b"x", &mut parser, BindingMode::Portable),
        Step::Done
    );
}

#[test]
fn tabs_are_cycled_and_workspaces_switched() {
    let mut daemon = Daemon::new();
    let sp1 = daemon.spawn(None, None);
    let sp2 = daemon.spawn(None, None);
    let pane = daemon.add_pane(vec![sp1, sp2]);
    let mut app = daemon.attach();
    let step = app.cycle_tab(true);
    daemon.run(&mut app, step);
    assert_eq!(daemon.bound(pane), Some(sp1));
    let step = app.cycle_tab(false);
    daemon.run(&mut app, step);
    assert_eq!(daemon.bound(pane), Some(sp2));

    app.attach_menu = Some(AttachMenu::opened(vec![], 0, None, false));
    daemon.log.clear();
    let step = app.switch_workspace(4);
    assert_eq!(daemon.run(&mut app, step), Step::Done);
    assert_eq!(
        daemon.log,
        vec![
            Request::Unsubscribe { workspace: daemon.workspace },
            Request::Subscribe { number: 4 },
        ]
    );
    assert!(app.attach_menu.is_none());
    assert_eq!(app.focused, Some(pane));
}

#[test]
fn a_split_shows_a_new_shell_beside_the_focused_pane() {
    let mut daemon = Daemon::new();
    let pane = daemon.add_pane(vec![]);
    let mut app = daemon.attach();
    let step = app.handle_action(Action::SplitHorizontal, &[]);
    assert_eq!(daemon.run(&mut app, step), Step::Done);
    assert_eq!(daemon.servers.len(), 1);
    assert_eq!(
        daemon.log.last(),
        Some(&Request::ClientSpawn {
            workspace: daemon.workspace,
            split_of: Some(pane),
            dir: Some(SplitDir::Horizontal),
            bind: Some(daemon.servers[0].id),
        })
    );
    assert_eq!(app.focused, Some(daemon.panes[1].id));
}

#[test]
fn killing_closes_what_the_pane_shows() {
    let mut daemon = Daemon::new();
    let server = daemon.spawn(None, None);
    daemon.add_pane(vec![server]);
    let mut app = daemon.attach();
    let step = app.kill_focused_server_pane();
    assert_eq!(daemon.run(&mut app, step), Step::Done);
    assert!(daemon.servers.is_empty());
}

#[test]
fn deleting_from_the_menu_needs_a_second_press() {
    let mut daemon = Daemon::new();
    let server = daemon.spawn(None, Some("/tmp"));
    let mut app = daemon.attach();
    open_menu_with_one_group(&mut app, "/tmp", daemon.listed(server));
    app.attach_menu.as_mut().unwrap().selected = 1;
    assert_eq!(app.handle_attach_menu_input(b"x"), Step::Done);
    assert_eq!(daemon.servers.len(), 1);
    let step = app.handle_attach_menu_input(b"x");
    assert_eq!(daemon.run(&mut app, step), Step::Done);
    assert!(daemon.servers.is_empty());
    let menu = app.attach_menu.as_ref().unwrap();
    assert!(menu.servers.is_empty());
    assert_eq!(menu.selected, 0);
    assert_eq!(menu.pending_delete, None);
}

#[test]
fn a_refused_name_stays_in_the_field() {
    let mut daemon = Daemon::new();
    daemon.spawn(Some("taken"), Some("/tmp"));
    let server = daemon.spawn(Some("old"), Some("/tmp"));
    let mut app = daemon.attach();
    open_menu_with_one_group(&mut app, "/tmp", daemon.listed(server));
    app.attach_menu.as_mut().unwrap().selected = 1;
    app.start_rename();
    for _ in 0..3 {
        app.handle_attach_menu_input(b"\x7f");
    }
    app.handle_attach_menu_input(b"taken");
    let step = app.handle_attach_menu_input(b"\r");
    assert_eq!(daemon.run(&mut app, step), Step::Done);
    let rename = app.attach_menu.as_ref().unwrap().rename.as_ref().unwrap();
    assert_eq!(rename.text, "taken");
    assert_eq!(rename.error.as_deref(), Some("name taken"));

    app.handle_attach_menu_input(b"2");
    let step = app.handle_attach_menu_input(b"\r");
    assert_eq!(daemon.run(&mut app, step), Step::Done);
    assert!(app.attach_menu.as_ref().unwrap().rename.is_none());
    assert_eq!(daemon.servers[1].name.as_deref(), Some("taken2"));
}

#[test]
fn names_are_kept_by_server_pane() {
    let mut daemon = Daemon::new();
    let a = daemon.spawn(Some("a"), None);
    let mut app = daemon.attach();
    let step = app.refresh_server_names();
    assert_eq!(daemon.run(&mut app, step), Step::Done);
    assert_eq!(app.server_names[&a].name.as_deref(), Some("a"));
}

#[test]
fn mouse_input_in_pieces_never_reaches_the_keys() {
    let mut buffer = InputBuffer::new();
    assert_eq!(
        buffer.feed(b"\x1b[<0;5"),
        Input::Events { mouse: vec![], keys: vec![] }
    );
    assert_eq!(
        buffer.feed(b";7Mab"),
        Input::Events {
            mouse: vec![MouseEvent::Down { col: 4, row: 6 }],
            keys: b"ab".to_vec(),
        }
    );
    assert_eq!(buffer.feed(&[0x11]), Input::Quit);
    assert_eq!(
        buffer.feed(&[0x11, 0x11]),
        Input::Events { mouse: vec![], keys: vec![0x11, 0x11] }
    );
}

#[test]
fn a_fragment_that_grows_too_long_is_dropped() {
    let mut buffer = InputBuffer::new();
    let mut fragment = b"\x1b[<".to_vec();
    fragment.extend(std::iter::repeat(b'1').take(70));
    assert_eq!(
        buffer.feed(&fragment),
        Input::Events { mouse: vec![], keys: vec![] }
    );
    assert_eq!(
        buffer.feed(b"x"),
        Input::Events { mouse: vec![], keys: b"x".to_vec() }
    );
}

#[test]
fn escape_restores_the_binding_after_moving_about() {
    let mut daemon = Daemon::new();
    let shown = daemon.spawn(None, Some("/tmp"));
    daemon.spawn(None, Some("/tmp"));
    let pane = daemon.add_pane(vec![shown]);
    let mut app = daemon.attach();
    let step = app.detach_and_open_menu();
    daemon.run(&mut app, step);
    assert_eq!(daemon.bound(pane), None);
    for input in [&b"\x1b[A"[..], b"g", b"f", b"f", b"r", b"zz", b"\x1b", b"x"] {
        let step = app.handle_attach_menu_input(input);
        assert_eq!(daemon.run(&mut app, step), Step::Done);
        assert_eq!(app.attach_menu.as_ref().unwrap().previously_bound, Some(shown));
    }
    let step = app.handle_attach_menu_input(b"\x1b");
    assert_eq!(daemon.run(&mut app, step), Step::Done);
    assert!(app.attach_menu.is_none());
    assert_eq!(daemon.bound(pane), Some(shown));
}

#[test]
fn escape_on_a_groups_spawn_row_restores_the_binding() {
    let mut daemon = Daemon::new();
    let shown = daemon.spawn(None, Some("/tmp"));
    let pane = daemon.add_pane(vec![shown]);
    let mut app = daemon.attach();
    let step = app.detach_and_open_menu();
    daemon.run(&mut app, step);
    let menu = app.attach_menu.as_mut().unwrap();
    menu.selected = 2;
    assert_eq!(
        app.selected_attach_menu_row(),
        Some(AttachMenuRow::SpawnNewInGroup(0))
    );
    assert_eq!(daemon.bound(pane), None);
    let step = app.handle_attach_menu_input(b"\x1b");
    assert_eq!(
        step,
        Step::Send(
            Request::ClientBind { workspace: app.workspace.id, pane, target: shown },
            Pending::Discard
        )
    );
    assert_eq!(daemon.run(&mut app, step), Step::Done);
    assert!(app.attach_menu.is_none());
    assert_eq!(daemon.bound(pane), Some(shown));
}

#[test]
fn a_lost_daemon_is_waited_for_before_another_is_started() {
    assert_eq!(RECONNECT_TRIES as u64 * RECONNECT_PAUSE_MILLIS, 2000);
    assert_eq!(reconnect_step(0), Reconnect::TryAgain);
    assert_eq!(reconnect_step(19), Reconnect::TryAgain);
    assert_eq!(reconnect_step(20), Reconnect::StartDaemon);
    assert_eq!(reconnect_step(255), Reconnect::StartDaemon);
}

#[test]
fn any_other_key_disarms_a_deletion() {
    let mut daemon = Daemon::new();
    let server = daemon.spawn(None, Some("/tmp"));
    let mut app = daemon.attach();
    open_menu_with_one_group(&mut app, "/tmp", daemon.listed(server));
    app.attach_menu.as_mut().unwrap().selected = 1;
    assert_eq!(app.handle_attach_menu_input(b"x"), Step::Done);
    assert_eq!(app.attach_menu.as_ref().unwrap().pending_delete, Some(0));
    assert_eq!(app.handle_attach_menu_input(b"z"), Step::Done);
    assert_eq!(app.attach_menu.as_ref().unwrap().pending_delete, None);
    assert_eq!(app.handle_attach_menu_input(b"x"), Step::Done);
    assert_eq!(
        app.handle_attach_menu_input(b"\r"),
        Step::Send(Request::ServerKill { target: server }, Pending::DeleteKilled)
    );
}
