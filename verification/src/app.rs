//! The client's state, and what changes it.
//!
//! An [`App`] never talks to the daemon itself. What is done to it returns a
//! [`Step`]: nothing more to do, leave the program, put a text on the clipboard,
//! or send a request. The reply to a request goes to [`App::resume`] together
//! with the [`Pending`] that came with the request, and may lead to a further
//! one. Events that arrive in between go to [`App::apply_event`].

use crate::geometry::{Ratio, Rect};
use crate::menu::{
    keys, menu_rows, row_index, rows_name_listed_panes, visible_attach_menu_rows, AttachMenu,
    AttachMenuRow,
};
use crate::protocol::{
    first_leaf, ClientPaneId, Event, GridSnapshot, Request, ServerPaneId, ServerPaneInfo, Size,
    SplitDir, SplitId, WorkspaceInfo,
};
use crate::selection::TextSelection;
use std::collections::HashMap;
use vstd::hash_set::StringHashSet;
use vstd::prelude::*;

verus! {

/// A divider being dragged, and where it is now.
#[derive(Debug, Clone, Copy, PartialEq, Eq, Structural)]
pub struct Drag {
    pub split: SplitId,
    pub ratio: Ratio,
}

/// The client's state.
pub struct App {
    pub workspace: WorkspaceInfo,
    pub grids: HashMap<ServerPaneId, GridSnapshot>,
    /// The size last reported to the daemon for each pane.
    pub pane_sizes: HashMap<ClientPaneId, Size>,
    pub focused: Option<ClientPaneId>,
    pub attach_menu: Option<AttachMenu>,
    /// The screen as of the last frame.
    pub frame_area: Rect,
    /// A drag changes nothing but this until the button is released.
    pub dragging_split: Option<Drag>,
    pub text_selection: Option<TextSelection>,
    /// The groups that are collapsed in the menu; they stay so while it is
    /// closed.
    pub collapsed_groups: StringHashSet,
    pub grouped_view: bool,
    pub agents_only_view: bool,
    pub server_names: HashMap<ServerPaneId, ServerPaneInfo>,
    /// What the menu's preview shows, and whose screen it is.
    pub attach_menu_preview: Option<(ServerPaneId, String)>,
    pub pinned_dirs: Vec<String>,
}

/// Why the attach menu opens.
#[derive(Debug, Clone, Copy, PartialEq, Eq, Structural)]
pub enum MenuOpening {
    /// The workspace has no panes.
    Startup,
    /// The focused pane was detached from this server-pane.
    Detached(Option<ServerPaneId>),
    /// The pick is to become a new tab.
    AddTab,
}

/// What a reply is waited for.
#[derive(Debug, PartialEq, Eq)]
pub enum Pending {
    /// The reply does not matter.
    Discard,
    ShellFallback,
    FirstShell,
    ClientSpawned,
    Pins(MenuOpening),
    Servers(MenuOpening),
    Unsubscribed(u8),
    Subscribed,
    SplitSpawned(SplitDir),
    Unbound(Option<ServerPaneId>),
    TabClosed(ServerPaneId),
    Preview(ServerPaneId),
    Names,
    PinToggled,
    Relisted,
    /// The active tab was detached; up to `left` more may follow.
    Detaching { pane: ClientPaneId, left: u8 },
    DeleteKilled,
    Renamed,
    RenameListed,
    MenuSpawned { adding_tab: bool },
    GroupSpawned { bind: bool, text: String },
    GroupBound { server_pane: ServerPaneId, text: String },
    GroupSent { bind: bool },
    GroupListed,
    JumpListed { pane: ClientPaneId, number: u8 },
}

/// What to do next.
#[derive(Debug, PartialEq, Eq)]
pub enum Step {
    Done,
    /// Leave the program.
    Quit,
    /// Send the request, and hand the reply to `App::resume`.
    Send(Request, Pending),
    /// Put the text on the clipboard.
    Copy(String),
}

/// How many tabs are detached at most in one go.
pub const MAX_DETACHED_TABS: u8 = 64;

/// How many rows a wheel tick scrolls.
pub const SCROLL_ROWS_PER_TICK: i32 = 3;

/// The last screen of each server-pane among `grids`.
pub open spec fn grids_by_pane(grids: Seq<GridSnapshot>) -> Map<ServerPaneId, GridSnapshot>
    decreases grids.len(),
{
    if grids.len() == 0 {
        Map::empty()
    } else {
        grids_by_pane(grids.drop_last()).insert(grids.last().server_pane, grids.last())
    }
}

/// The last entry for each server-pane among `servers`.
pub open spec fn servers_by_id(servers: Seq<ServerPaneInfo>) -> Map<ServerPaneId, ServerPaneInfo>
    decreases servers.len(),
{
    if servers.len() == 0 {
        Map::empty()
    } else {
        servers_by_id(servers.drop_last()).insert(servers.last().id, servers.last())
    }
}

pub(crate) fn index_grids(grids: Vec<GridSnapshot>) -> (r: HashMap<ServerPaneId, GridSnapshot>)
    ensures
        r@ == grids_by_pane(grids@),
{
    broadcast use vstd::std_specs::hash::group_hash_axioms;

    let ghost all = grids@;
    let mut out: HashMap<ServerPaneId, GridSnapshot> = HashMap::new();
    for grid in it: grids
        invariant
            it.seq() == all,
            out@ == grids_by_pane(all.take(it.index())),
    {
        broadcast use vstd::std_specs::hash::group_hash_axioms;

        assert(all.take(it.index() + 1).drop_last() =~= all.take(it.index()));
        let _ = out.insert(grid.server_pane, grid);
    }
    assert(all.take(all.len() as int) =~= all);
    out
}

pub(crate) fn index_servers(servers: Vec<ServerPaneInfo>) -> (r: HashMap<ServerPaneId, ServerPaneInfo>)
    ensures
        r@ == servers_by_id(servers@),
{
    broadcast use vstd::std_specs::hash::group_hash_axioms;

    let ghost all = servers@;
    let mut out: HashMap<ServerPaneId, ServerPaneInfo> = HashMap::new();
    for server in it: servers
        invariant
            it.seq() == all,
            out@ == servers_by_id(all.take(it.index())),
    {
        broadcast use vstd::std_specs::hash::group_hash_axioms;

        assert(all.take(it.index() + 1).drop_last() =~= all.take(it.index()));
        let _ = out.insert(server.id, server);
    }
    assert(all.take(all.len() as int) =~= all);
    out
}

/// A selection that a shorter list of `rows` rows may have cut off.
pub open spec fn clamped_row(selected: usize, rows: int) -> usize {
    if selected >= rows {
        (rows - 1) as usize
    } else {
        selected
    }
}

impl App {
    /// The menu, if open, is in order, and the screen's cells can be counted.
    pub open spec fn wf(self) -> bool {
        &&& self.attach_menu matches Some(menu) ==> menu.wf()
        &&& self.frame_area.x + self.frame_area.width <= u16::MAX
        &&& self.frame_area.y + self.frame_area.height <= u16::MAX
    }

    /// The state of a client that has just followed a workspace.
    pub open spec fn is_fresh(self, workspace: WorkspaceInfo, grids: Seq<GridSnapshot>) -> bool {
        &&& self.workspace == workspace
        &&& self.grids@ == grids_by_pane(grids)
        &&& self.pane_sizes@ == Map::<ClientPaneId, Size>::empty()
        &&& self.focused == workspace.first_pane_id()
        &&& self.attach_menu is None
        &&& self.frame_area == Rect { x: 0, y: 0, width: 0, height: 0 }
        &&& self.dragging_split is None
        &&& self.text_selection is None
        &&& self.collapsed_groups@ == Set::<Seq<char>>::empty()
        &&& self.grouped_view
        &&& self.agents_only_view
        &&& self.server_names@ == Map::<ServerPaneId, ServerPaneInfo>::empty()
        &&& self.attach_menu_preview is None
        &&& self.pinned_dirs@.len() == 0
    }

    /// What to do first: a workspace without panes is to be given one.
    pub open spec fn start_step(workspace: WorkspaceInfo) -> Step {
        if workspace.tree is None {
            Step::Send(Request::ConsumeShellFallback, Pending::ShellFallback)
        } else {
            Step::Done
        }
    }

    /// Start from the reply to the first `Subscribe`. A workspace without panes
    /// is given one, or the menu to choose one from.
    pub fn bootstrap(workspace: WorkspaceInfo, grids: Vec<GridSnapshot>) -> (r: (App, Step))
        ensures
            r.0.wf(),
            r.0.is_fresh(workspace, grids@),
            r.1 == Self::start_step(workspace),
            r.1 == if workspace.tree is None {
                Step::Send(Request::ConsumeShellFallback, Pending::ShellFallback)
            } else {
                Step::Done
            },
    {
        let focused = first_leaf(&workspace);
        let is_empty = workspace.tree.is_none();
        let app = App {
            workspace,
            grids: index_grids(grids),
            pane_sizes: HashMap::new(),
            focused,
            attach_menu: None,
            frame_area: Rect { x: 0, y: 0, width: 0, height: 0 },
            dragging_split: None,
            text_selection: None,
            collapsed_groups: StringHashSet::new(),
            grouped_view: true,
            agents_only_view: true,
            server_names: HashMap::new(),
            attach_menu_preview: None,
            pinned_dirs: Vec::new(),
        };
        if is_empty {
            (app, Step::Send(Request::ConsumeShellFallback, Pending::ShellFallback))
        } else {
            (app, Step::Done)
        }
    }

    /// The focus, if the layout still has it, else its first pane.
    pub open spec fn refocused(self) -> App {
        App {
            focused: match self.focused {
                Some(id) if self.workspace.pane(id) is Some => self.focused,
                _ => self.workspace.first_pane_id(),
            },
            ..self
        }
    }

    /// Whether the selection's pane still shows what was selected in.
    pub open spec fn selection_is_current(self) -> bool {
        self.text_selection matches Some(s) && self.workspace.pane_bound(s.pane) == Some(
            s.server_pane,
        ) && self.grids@.contains_key(s.server_pane)
    }

    /// The selection, if it is still current.
    pub open spec fn reselected(self) -> App {
        App {
            text_selection: if self.selection_is_current() {
                self.text_selection
            } else {
                None
            },
            ..self
        }
    }

    /// Move the focus off a pane that is no longer there.
    pub fn reconcile_focus(&mut self)
        ensures
            *final(self) == old(self).refocused(),
    {
        let still_valid = match self.focused {
            Some(id) => self.workspace.find(id).is_some(),
            None => false,
        };
        if !still_valid {
            self.focused = first_leaf(&self.workspace);
        }
    }

    /// Drop a selection whose pane no longer shows what was selected in.
    pub fn reconcile_text_selection(&mut self)
        ensures
            *final(self) == old(self).reselected(),
    {
        broadcast use vstd::std_specs::hash::group_hash_axioms;

        let still_valid = match &self.text_selection {
            Some(selection) => {
                self.workspace.active_bound(selection.pane) == Some(selection.server_pane)
                    && self.grids.contains_key(&selection.server_pane)
            },
            None => false,
        };
        if !still_valid {
            self.text_selection = None;
        }
    }

    /// Whether `after` is this state after `event`.
    pub open spec fn takes_event(self, event: Event, after: App) -> bool {
        match event {
            Event::LayoutDelta { workspace, tree } => if workspace == self.workspace.id {
                after == (App {
                    workspace: WorkspaceInfo { tree, ..self.workspace },
                    ..self
                }).refocused().reselected()
            } else {
                after == self
            },
            Event::GridDelta { snapshot } => {
                &&& after.grids@ == self.grids@.insert(snapshot.server_pane, snapshot)
                &&& after == App { grids: after.grids, ..self }
            },
            Event::ServerPaneDied { server_pane } => {
                &&& after.grids@ == self.grids@.remove(server_pane)
                &&& after == App {
                    grids: after.grids,
                    text_selection: match self.text_selection {
                        Some(s) if s.server_pane == server_pane => None,
                        _ => self.text_selection,
                    },
                    ..self
                }
            },
        }
    }

    /// Take in what the daemon reports unasked.
    pub fn apply_event(&mut self, event: Event)
        requires
            old(self).wf(),
        ensures
            final(self).wf(),
            old(self).takes_event(event, *final(self)),
            final(self).attach_menu == old(self).attach_menu,
    {
        broadcast use vstd::std_specs::hash::group_hash_axioms;

        match event {
            Event::LayoutDelta { workspace, tree } => {
                if workspace == self.workspace.id {
                    self.workspace.tree = tree;
                    self.reconcile_focus();
                    self.reconcile_text_selection();
                }
            },
            Event::GridDelta { snapshot } => {
                let _ = self.grids.insert(snapshot.server_pane, snapshot);
            },
            Event::ServerPaneDied { server_pane } => {
                let _ = self.grids.remove(&server_pane);
                let selected_there = match &self.text_selection {
                    Some(selection) => selection.server_pane == server_pane,
                    None => false,
                };
                if selected_there {
                    self.text_selection = None;
                }
            },
        }
    }

    /// The rows of the menu, if it is open.
    pub open spec fn rows(self) -> Seq<AttachMenuRow> {
        match self.attach_menu {
            Some(menu) => menu_rows(
                keys(menu.servers@),
                self.collapsed_groups@,
                self.grouped_view,
            ),
            None => Seq::empty(),
        }
    }

    /// The selected row, if the menu is open.
    pub open spec fn selected_row(self) -> Option<AttachMenuRow> {
        match self.attach_menu {
            Some(menu) if menu.selected < self.rows().len() => Some(
                self.rows()[menu.selected as int],
            ),
            _ => None,
        }
    }

    /// The selected row, if the menu is open.
    pub fn selected_attach_menu_row(&self) -> (r: Option<AttachMenuRow>)
        ensures
            r == self.selected_row(),
            r matches Some(row) ==> self.attach_menu is Some && (row_index(row) matches Some(i)
                ==> i < self.attach_menu->0.servers@.len()),
    {
        match &self.attach_menu {
            None => None,
            Some(menu) => {
                let count: usize = menu.servers.len();
                let rows = visible_attach_menu_rows(
                    &menu.servers,
                    &self.collapsed_groups,
                    self.grouped_view,
                );
                proof {
                    assert(count == menu.servers@.len());
                    rows_name_listed_panes(
                        keys(menu.servers@),
                        self.collapsed_groups@,
                        self.grouped_view,
                    );
                }
                if menu.selected < rows.len() {
                    Some(rows[menu.selected])
                } else {
                    None
                }
            },
        }
    }

    /// The menu with another row selected.
    pub open spec fn selecting(self, selected: int) -> App {
        match self.attach_menu {
            Some(menu) => App {
                attach_menu: Some(AttachMenu { selected: selected as usize, ..menu }),
                ..self
            },
            None => self,
        }
    }

    /// The next or the previous row selected; the list wraps at both ends.
    pub open spec fn selection_moved(self, forward: bool) -> App {
        let n = self.rows().len() as int;
        match self.attach_menu {
            Some(menu) => self.selecting(
                if forward {
                    (menu.selected + 1) % n
                } else {
                    (menu.selected + n - 1) % n
                },
            ),
            None => self,
        }
    }

    /// How many rows the menu has.
    pub(crate) fn row_count(&self) -> (n: usize)
        requires
            self.attach_menu is Some,
        ensures
            n == self.rows().len(),
            n > 0,
    {
        match &self.attach_menu {
            None => 1,
            Some(menu) => {
                let count: usize = menu.servers.len();
                proof {
                    assert(count == menu.servers@.len());
                    rows_name_listed_panes(
                        keys(menu.servers@),
                        self.collapsed_groups@,
                        self.grouped_view,
                    );
                }
                visible_attach_menu_rows(&menu.servers, &self.collapsed_groups, self.grouped_view).len()
            },
        }
    }

    /// Select the next or the previous row.
    pub fn move_attach_menu_selection(&mut self, forward: bool)
        ensures
            *final(self) == old(self).selection_moved(forward),
            old(self).wf() ==> final(self).wf(),
    {
        if self.attach_menu.is_none() {
            return ;
        }
        let n = self.row_count();
        match &mut self.attach_menu {
            None => {},
            Some(menu) => {
                let at: usize = menu.selected % n;
                proof {
                    wrapping_step(menu.selected as int, n as int);
                }
                menu.selected = if forward {
                    if at + 1 == n {
                        0
                    } else {
                        at + 1
                    }
                } else {
                    if at == 0 {
                        n - 1
                    } else {
                        at - 1
                    }
                };
            },
        }
    }
}

/// One step on from `s`, and one back, counted modulo `n`.
proof fn wrapping_step(s: int, n: int)
    requires
        0 <= s,
        0 < n,
    ensures
        (s + 1) % n == if s % n + 1 == n {
            0
        } else {
            s % n + 1
        },
        (s + n - 1) % n == if s % n == 0 {
            n - 1
        } else {
            s % n - 1
        },
{
    let q = s / n;
    let r = s % n;
    vstd::arithmetic::div_mod::lemma_fundamental_div_mod(s, n);
    assert(s == n * q + r);
    if r + 1 == n {
        assert(s + 1 == (q + 1) * n + 0) by (nonlinear_arith)
            requires
                s == n * q + r,
                r + 1 == n,
        ;
        vstd::arithmetic::div_mod::lemma_fundamental_div_mod_converse(s + 1, n, q + 1, 0);
    } else {
        assert(s + 1 == q * n + (r + 1)) by (nonlinear_arith)
            requires
                s == n * q + r,
        ;
        vstd::arithmetic::div_mod::lemma_fundamental_div_mod_converse(s + 1, n, q, r + 1);
    }
    if r == 0 {
        assert(s + n - 1 == q * n + (n - 1)) by (nonlinear_arith)
            requires
                s == n * q + r,
                r == 0,
        ;
        vstd::arithmetic::div_mod::lemma_fundamental_div_mod_converse(s + n - 1, n, q, n - 1);
    } else {
        assert(s + n - 1 == (q + 1) * n + (r - 1)) by (nonlinear_arith)
            requires
                s == n * q + r,
        ;
        vstd::arithmetic::div_mod::lemma_fundamental_div_mod_converse(s + n - 1, n, q + 1, r - 1);
    }
}

} // verus!
