//! What holds of the requests: what each key asks of the daemon, what the replies
//! lead to, and what the daemon's own reports change.

use crate::app::{grids_by_pane, servers_by_id, App, Pending, Step};
use crate::bindings::Action;
use crate::keys::KeyInput;
use crate::menu::AttachMenuRow;
use crate::protocol::{
    ClientPaneId, Event, GridSnapshot, Request, Response, ServerPaneId, ServerPaneInfo, SplitDir,
    SplitTree, WorkspaceInfo,
};
use crate::screen_laws::way_of;
use vstd::prelude::*;

verus! {

/// A split key asks for a new shell, and then for a pane that shows it, split off
/// the focused pane: beside it for the vertical one, below it for the horizontal
/// one. The new pane gets the focus.
pub proof fn a_split_key_splits_its_way(
    before: App,
    vertical: bool,
    raw: Seq<u8>,
    a: App,
    first: Step,
    info: ServerPaneInfo,
    b: App,
    second: Step,
    pane: ClientPaneId,
    c: App,
    third: Step,
)
    requires
        before.acts(
            if vertical {
                Action::SplitVertical
            } else {
                Action::SplitHorizontal
            },
            raw,
            a,
            first,
        ),
        a.resumes(first->Send_1, Response::ServerPane(info), b, second),
        b.resumes(second->Send_1, Response::ClientPaneCreated { pane }, c, third),
    ensures
        first matches Step::Send(Request::ServerSpawn { cwd }, _) && cwd is None,
        second matches Step::Send(Request::ClientSpawn { workspace, split_of, dir, bind }, _)
            && workspace == before.workspace.id && split_of == before.focused && dir == (
        if vertical {
            Some(SplitDir::Vertical)
        } else {
            Some(SplitDir::Horizontal)
        }) && bind == Some(info.id),
        third == Step::Done,
        c == (App { focused: Some(pane), text_selection: None, ..before }),
{
}

/// A new shell that the daemon refuses leads to no new pane.
pub proof fn a_refused_shell_ends_the_split(
    before: App,
    action: Action,
    raw: Seq<u8>,
    a: App,
    first: Step,
    response: Response,
    b: App,
    second: Step,
)
    requires
        action == Action::SplitVertical || action == Action::SplitHorizontal,
        before.acts(action, raw, a, first),
        a.resumes(first->Send_1, response, b, second),
        !(response is ServerPane),
    ensures
        second == Step::Done && b == a,
{
}

/// The close key closes the active tab of the focused pane and then kills what the
/// tab showed, whatever the daemon answers; then it is done.
pub proof fn the_close_key_closes_and_kills(
    before: App,
    raw: Seq<u8>,
    a: App,
    first: Step,
    pane: ClientPaneId,
    shown: ServerPaneId,
    response: Response,
    b: App,
    second: Step,
    last: Response,
    c: App,
    third: Step,
)
    requires
        before.acts(Action::CloseFocusedPane, raw, a, first),
        before.focused == Some(pane),
        before.workspace.pane(pane) matches Some(leaf) && leaf.active_tab < leaf.tabs@.len()
            && leaf.tabs@[leaf.active_tab as int] == shown,
        a.resumes(first->Send_1, response, b, second),
        b.resumes(second->Send_1, last, c, third),
    ensures
        first matches Step::Send(Request::ClientCloseTab { workspace, pane: closed }, _)
            && workspace == before.workspace.id && closed == pane,
        second matches Step::Send(Request::ServerKill { target }, _) && target == shown,
        third == Step::Done,
        c == (App { text_selection: None, ..before }),
{
}

/// The kill key kills what the focused pane shows and asks for nothing else.
pub proof fn the_kill_key_kills_what_shows(
    before: App,
    raw: Seq<u8>,
    a: App,
    first: Step,
    pane: ClientPaneId,
    shown: ServerPaneId,
    response: Response,
    b: App,
    second: Step,
)
    requires
        before.acts(Action::KillFocusedServerPane, raw, a, first),
        before.focused == Some(pane),
        before.workspace.pane(pane) matches Some(leaf) && leaf.active_tab < leaf.tabs@.len()
            && leaf.tabs@[leaf.active_tab as int] == shown,
        a.resumes(first->Send_1, response, b, second),
    ensures
        first matches Step::Send(Request::ServerKill { target }, _) && target == shown,
        second == Step::Done,
        b == (App { text_selection: None, ..before }),
{
}

/// The tab keys switch the focused pane's tabs, each its way, and ask for nothing
/// else.
pub proof fn the_tab_keys_cycle_their_way(
    before: App,
    forwards: bool,
    raw: Seq<u8>,
    a: App,
    first: Step,
    pane: ClientPaneId,
    response: Response,
    b: App,
    second: Step,
)
    requires
        before.acts(
            if forwards {
                Action::CycleTabForward
            } else {
                Action::CycleTabBackward
            },
            raw,
            a,
            first,
        ),
        before.focused == Some(pane),
        a.resumes(first->Send_1, response, b, second),
    ensures
        first matches Step::Send(Request::ClientCycleTab { workspace, pane: p, forward }, _)
            && workspace == before.workspace.id && p == pane && forward == forwards,
        second == Step::Done,
        b == (App { text_selection: None, ..before }),
{
}

/// What the last of `grids` for each server-pane is, and no other, is indexed.
pub proof fn every_grid_is_indexed(grids: Seq<GridSnapshot>)
    ensures
        forall|i: int|
            0 <= i < grids.len() && (forall|j: int|
                i < j < grids.len() ==> (#[trigger] grids[j]).server_pane != grids[i].server_pane)
                ==> grids_by_pane(grids).contains_key((#[trigger] grids[i]).server_pane)
                && grids_by_pane(grids)[grids[i].server_pane] == grids[i],
        forall|id: ServerPaneId| #[trigger]
            grids_by_pane(grids).contains_key(id) ==> exists|i: int|
                0 <= i < grids.len() && (#[trigger] grids[i]).server_pane == id
                    && grids_by_pane(grids)[id] == grids[i],
    decreases grids.len(),
{
    if grids.len() > 0 {
        let rest = grids.drop_last();
        let n = grids.len() - 1;
        every_grid_is_indexed(rest);
        assert forall|i: int|
            0 <= i < grids.len() && (forall|j: int|
                i < j < grids.len() ==> (#[trigger] grids[j]).server_pane
                    != grids[i].server_pane) implies grids_by_pane(grids).contains_key(
            (#[trigger] grids[i]).server_pane,
        ) && grids_by_pane(grids)[grids[i].server_pane] == grids[i] by {
            if i < n {
                assert(grids[n].server_pane != grids[i].server_pane);
                assert(rest[i] == grids[i]);
                assert forall|j: int| i < j < rest.len() implies (#[trigger] rest[j]).server_pane
                    != rest[i].server_pane by {
                    assert(rest[j] == grids[j]);
                }
            }
        }
        assert forall|id: ServerPaneId| #[trigger]
            grids_by_pane(grids).contains_key(id) implies exists|i: int|
            0 <= i < grids.len() && (#[trigger] grids[i]).server_pane == id && grids_by_pane(
                grids,
            )[id] == grids[i] by {
            if id == grids[n].server_pane {
                assert(grids_by_pane(grids)[id] == grids[n]);
            } else {
                assert(grids_by_pane(rest).contains_key(id));
                let i = choose|i: int|
                    0 <= i < rest.len() && (#[trigger] rest[i]).server_pane == id && grids_by_pane(
                        rest,
                    )[id] == rest[i];
                assert(rest[i] == grids[i]);
            }
        }
    }
}

/// What the last of `servers` with each id is, and no other, is indexed.
pub proof fn every_server_is_indexed(servers: Seq<ServerPaneInfo>)
    ensures
        forall|i: int|
            0 <= i < servers.len() && (forall|j: int|
                i < j < servers.len() ==> (#[trigger] servers[j]).id != servers[i].id)
                ==> servers_by_id(servers).contains_key((#[trigger] servers[i]).id)
                && servers_by_id(servers)[servers[i].id] == servers[i],
        forall|id: ServerPaneId| #[trigger]
            servers_by_id(servers).contains_key(id) ==> exists|i: int|
                0 <= i < servers.len() && (#[trigger] servers[i]).id == id && servers_by_id(
                    servers,
                )[id] == servers[i],
    decreases servers.len(),
{
    if servers.len() > 0 {
        let rest = servers.drop_last();
        let n = servers.len() - 1;
        every_server_is_indexed(rest);
        assert forall|i: int|
            0 <= i < servers.len() && (forall|j: int|
                i < j < servers.len() ==> (#[trigger] servers[j]).id
                    != servers[i].id) implies servers_by_id(servers).contains_key(
            (#[trigger] servers[i]).id,
        ) && servers_by_id(servers)[servers[i].id] == servers[i] by {
            if i < n {
                assert(servers[n].id != servers[i].id);
                assert(rest[i] == servers[i]);
                assert forall|j: int| i < j < rest.len() implies (#[trigger] rest[j]).id
                    != rest[i].id by {
                    assert(rest[j] == servers[j]);
                }
            }
        }
        assert forall|id: ServerPaneId| #[trigger]
            servers_by_id(servers).contains_key(id) implies exists|i: int|
            0 <= i < servers.len() && (#[trigger] servers[i]).id == id && servers_by_id(
                servers,
            )[id] == servers[i] by {
            if id == servers[n].id {
                assert(servers_by_id(servers)[id] == servers[n]);
            } else {
                assert(servers_by_id(rest).contains_key(id));
                let i = choose|i: int|
                    0 <= i < rest.len() && (#[trigger] rest[i]).id == id && servers_by_id(rest)[id]
                        == rest[i];
                assert(rest[i] == servers[i]);
            }
        }
    }
}

/// The screens of a snapshot: of each server-pane one.
pub open spec fn distinct_grids(grids: Seq<GridSnapshot>) -> bool {
    forall|i: int, j: int|
        0 <= i < j < grids.len() ==> (#[trigger] grids[i]).server_pane != (
        #[trigger] grids[j]).server_pane
}

/// Whether `app` holds exactly the screens in `grids`.
pub open spec fn shows_exactly(app: App, grids: Seq<GridSnapshot>) -> bool {
    &&& forall|i: int|
        0 <= i < grids.len() ==> app.grids@.contains_key((#[trigger] grids[i]).server_pane)
            && app.grids@[grids[i].server_pane] == grids[i]
    &&& forall|id: ServerPaneId| #[trigger]
        app.grids@.contains_key(id) ==> exists|i: int|
            0 <= i < grids.len() && (#[trigger] grids[i]).server_pane == id
}

/// The focus is on the layout's first pane; none where there is no layout.
pub open spec fn focuses_the_first_pane(app: App) -> bool {
    match app.workspace.tree {
        Some(tree) => tree.panes().len() > 0 ==> app.focused == Some(tree.panes()[0].id),
        None => app.focused is None,
    }
}

/// A workspace key stops following the workspace shown and follows the one with
/// that number. Of the snapshot that comes back every screen is shown and no other,
/// its layout is, and the focus is on its first pane. Menu, drag and selection are
/// gone, all else stays.
pub proof fn a_workspace_key_shows_that_workspace(
    before: App,
    number: u8,
    raw: Seq<u8>,
    a: App,
    first: Step,
    response: Response,
    b: App,
    second: Step,
    workspace: WorkspaceInfo,
    grids: Vec<GridSnapshot>,
    c: App,
    third: Step,
)
    requires
        before.acts(Action::SwitchWorkspace(number), raw, a, first),
        a.resumes(first->Send_1, response, b, second),
        b.resumes(second->Send_1, Response::Snapshot { workspace, grids }, c, third),
        distinct_grids(grids@),
    ensures
        first matches Step::Send(Request::Unsubscribe { workspace: left }, _) && left
            == before.workspace.id,
        second matches Step::Send(Request::Subscribe { number: n }, _) && n == number,
        third == Step::Done,
        shows_exactly(c, grids@),
        c.workspace == workspace,
        focuses_the_first_pane(c),
        c.attach_menu is None && c.dragging_split is None && c.text_selection is None,
        c.pane_sizes == before.pane_sizes && c.frame_area == before.frame_area,
        c.collapsed_groups == before.collapsed_groups && c.grouped_view == before.grouped_view
            && c.agents_only_view == before.agents_only_view,
        c.server_names == before.server_names && c.pinned_dirs == before.pinned_dirs
            && c.attach_menu_preview == before.attach_menu_preview,
{
    every_grid_is_indexed(grids@);
}

/// A client that starts shows the screens of its first snapshot and no other, is
/// focused on the first pane, has no menu open, and shows the menu's coding tools
/// only and in groups, none of them collapsed.
pub proof fn a_fresh_client_shows_its_snapshot(
    app: App,
    workspace: WorkspaceInfo,
    grids: Seq<GridSnapshot>,
)
    requires
        app.is_fresh(workspace, grids),
        distinct_grids(grids),
    ensures
        shows_exactly(app, grids),
        app.workspace == workspace,
        focuses_the_first_pane(app),
        app.attach_menu is None && app.dragging_split is None && app.text_selection is None,
        app.grouped_view && app.agents_only_view,
        forall|key: Seq<char>| !#[trigger] app.collapsed_groups@.contains(key),
        forall|id: ClientPaneId| !#[trigger] app.pane_sizes@.contains_key(id),
        forall|id: ServerPaneId| !#[trigger] app.server_names@.contains_key(id),
        app.attach_menu_preview is None && app.pinned_dirs@.len() == 0,
{
    every_grid_is_indexed(grids);
}

/// A session key shows the server-pane with that number, counted from one in the
/// daemon's list, in the focused pane, and asks for nothing else.
pub proof fn a_session_key_shows_that_session(
    before: App,
    number: u8,
    raw: Seq<u8>,
    a: App,
    first: Step,
    focused: ClientPaneId,
    servers: Vec<ServerPaneInfo>,
    b: App,
    second: Step,
    response: Response,
    c: App,
    third: Step,
)
    requires
        before.acts(Action::JumpSession(number), raw, a, first),
        before.focused == Some(focused),
        a.resumes(first->Send_1, Response::ServerPaneList(servers), b, second),
        1 <= number <= servers@.len(),
        b.resumes(second->Send_1, response, c, third),
    ensures
        first matches Step::Send(Request::ServerList, _),
        second matches Step::Send(Request::ClientBind { workspace, pane, target }, _) && workspace
            == before.workspace.id && pane == focused && target == servers@[number - 1].id,
        third == Step::Done,
        c == (App { text_selection: None, ..before }),
{
}

/// The menu key on a pane with one tab or none detaches the pane, fetches the pins
/// and the list, and opens the menu for a pick that replaces. What the pane showed
/// is remembered.
pub proof fn the_menu_key_detaches_and_opens_the_menu(
    before: App,
    raw: Seq<u8>,
    a: App,
    first: Step,
    focused: ClientPaneId,
    response: Response,
    b: App,
    second: Step,
    pins: Vec<String>,
    c: App,
    third: Step,
    servers: Vec<ServerPaneInfo>,
    d: App,
    fourth: Step,
)
    requires
        before.acts(Action::DetachAndAttach, raw, a, first),
        before.focused == Some(focused),
        !(before.workspace.pane(focused) matches Some(leaf) && leaf.tabs@.len() > 1),
        a.resumes(first->Send_1, response, b, second),
        b.resumes(second->Send_1, Response::PinnedDirsList(pins), c, third),
        c.resumes(third->Send_1, Response::ServerPaneList(servers), d, fourth),
    ensures
        first matches Step::Send(Request::ClientUnbind { workspace, pane }, _) && workspace
            == before.workspace.id && pane == focused,
        second matches Step::Send(Request::PinnedDirsList, _),
        third matches Step::Send(Request::ServerList, _),
        fourth == Step::Done,
        d.attach_menu matches Some(menu) && menu.is_browsing() && !menu.adding_tab
            && menu.previously_bound == (match before.workspace.pane(focused) {
            Some(leaf) if leaf.active_tab < leaf.tabs@.len() => Some(
                leaf.tabs@[leaf.active_tab as int],
            ),
            _ => None,
        }),
        d == (App {
            attach_menu: d.attach_menu,
            pinned_dirs: pins,
            text_selection: None,
            ..before
        }),
{
}

/// The menu key on a pane with several tabs detaches nothing, and there is nothing
/// to give back.
pub proof fn the_menu_key_spares_several_tabs(
    before: App,
    raw: Seq<u8>,
    a: App,
    first: Step,
    focused: ClientPaneId,
    pins: Vec<String>,
    b: App,
    second: Step,
    servers: Vec<ServerPaneInfo>,
    c: App,
    third: Step,
)
    requires
        before.acts(Action::DetachAndAttach, raw, a, first),
        before.focused == Some(focused),
        before.workspace.pane(focused) matches Some(leaf) && leaf.tabs@.len() > 1,
        a.resumes(first->Send_1, Response::PinnedDirsList(pins), b, second),
        b.resumes(second->Send_1, Response::ServerPaneList(servers), c, third),
    ensures
        first matches Step::Send(Request::PinnedDirsList, _),
        second matches Step::Send(Request::ServerList, _),
        third == Step::Done,
        c.attach_menu matches Some(menu) && menu.is_browsing() && !menu.adding_tab
            && menu.previously_bound is None,
        c == (App {
            attach_menu: c.attach_menu,
            pinned_dirs: pins,
            text_selection: None,
            ..before
        }),
{
}

/// The key for a new tab detaches nothing, fetches the pins and the list, and opens
/// the menu for a pick that becomes a tab, on the row that spawns a new one.
pub proof fn the_tab_key_opens_the_menu_for_a_tab(
    before: App,
    raw: Seq<u8>,
    a: App,
    first: Step,
    focused: ClientPaneId,
    pins: Vec<String>,
    b: App,
    second: Step,
    servers: Vec<ServerPaneInfo>,
    c: App,
    third: Step,
)
    requires
        before.acts(Action::AddTab, raw, a, first),
        before.focused == Some(focused),
        a.resumes(first->Send_1, Response::PinnedDirsList(pins), b, second),
        b.resumes(second->Send_1, Response::ServerPaneList(servers), c, third),
    ensures
        first matches Step::Send(Request::PinnedDirsList, _),
        second matches Step::Send(Request::ServerList, _),
        third == Step::Done,
        c.attach_menu matches Some(menu) && menu.is_browsing() && menu.adding_tab
            && menu.previously_bound is None,
        c.selected_row() == Some(AttachMenuRow::SpawnNew),
        c == (App {
            attach_menu: c.attach_menu,
            pinned_dirs: pins,
            text_selection: None,
            ..before
        }),
{
    let rows = c.rows();
    assert(rows.last() == AttachMenuRow::SpawnNew);
}

/// Keys that are no action go to the focused pane, byte for byte, and nothing else
/// happens but that the selection ends.
pub proof fn other_keys_go_to_the_focused_pane(
    before: App,
    raw: Seq<u8>,
    a: App,
    first: Step,
    response: Response,
    b: App,
    second: Step,
)
    requires
        before.acts(Action::PassThrough, raw, a, first),
        before.focused is Some,
        a.resumes(first->Send_1, response, b, second),
    ensures
        first matches Step::Send(Request::Input { pane, bytes }, _) && Some(pane) == before.focused
            && bytes@ == raw,
        second == Step::Done,
        b == (App { text_selection: None, ..before }),
{
}

/// Without a focused pane only a split, a workspace key, a focus key and the quit
/// key do anything.
pub proof fn without_focus_keys_are_idle(
    before: App,
    action: Action,
    raw: Seq<u8>,
    after: App,
    step: Step,
)
    requires
        before.acts(action, raw, after, step),
        before.focused is None,
        !(action is SwitchWorkspace),
        way_of(action) is None,
        action != Action::SplitVertical && action != Action::SplitHorizontal && action
            != Action::Quit,
    ensures
        step == Step::Done,
        after == (App { text_selection: None, ..before }),
{
}

/// No action but the focus keys changes the client itself before the daemon has
/// answered, other than that the selection ends.
pub proof fn actions_wait_for_the_daemon(
    before: App,
    action: Action,
    raw: Seq<u8>,
    after: App,
    step: Step,
)
    requires
        before.acts(action, raw, after, step),
        way_of(action) is None,
    ensures
        after == (App { text_selection: None, ..before }),
        action == Action::Quit <==> step == Step::Quit,
{
}

/// While the menu is open it gets every key. While it is closed, an action is done,
/// other keys are handed on, and a sequence that has only begun does nothing.
pub proof fn keys_go_where_they_belong(
    before: App,
    keys: Seq<u8>,
    input: KeyInput,
    after: App,
    step: Step,
)
    requires
        before.takes_keys(keys, input, after, step),
    ensures
        before.attach_menu is Some ==> before.takes_menu_input(keys, after, step),
        before.attach_menu is None ==> match input {
            KeyInput::Action(action) => before.acts(action, Seq::empty(), after, step),
            KeyInput::PassThrough(raw) => match before.focused {
                Some(id) => step matches Step::Send(Request::Input { pane, bytes }, _) && pane == id
                    && bytes@ == raw,
                None => step == Step::Done,
            },
            KeyInput::Pending => after == before && step == Step::Done,
        },
{
}

/// A new layout of the workspace shown is taken over as it is; screens, menu and
/// view stay.
pub proof fn a_new_layout_is_taken_over(
    before: App,
    tree: Option<SplitTree>,
    after: App,
)
    requires
        before.takes_event(Event::LayoutDelta { workspace: before.workspace.id, tree }, after),
    ensures
        after.workspace.tree == tree,
        after.workspace.id == before.workspace.id,
        after == (App {
            workspace: after.workspace,
            focused: after.focused,
            text_selection: after.text_selection,
            ..before
        }),
        before.text_selection matches Some(s) && after.workspace.pane_bound(s.pane) == Some(
            s.server_pane,
        ) && before.grids@.contains_key(s.server_pane) ==> after.text_selection
            == before.text_selection,
        before.text_selection is None ==> after.text_selection is None,
        !(before.focused matches Some(id) && after.workspace.pane(id) is Some)
            ==> focuses_the_first_pane(after),
{
}

/// A new screen replaces that server-pane's and no other.
pub proof fn a_new_screen_replaces_the_old(before: App, snapshot: GridSnapshot, after: App)
    requires
        before.takes_event(Event::GridDelta { snapshot }, after),
    ensures
        after.grids@.contains_key(snapshot.server_pane),
        after.grids@[snapshot.server_pane] == snapshot,
        forall|id: ServerPaneId|
            id != snapshot.server_pane ==> (#[trigger] after.grids@.contains_key(id)
                == before.grids@.contains_key(id)) && after.grids@[id] == before.grids@[id],
        after == (App { grids: after.grids, ..before }),
{
}

/// A server-pane that died has no screen any more; the others keep theirs, and only
/// a selection in the dead one is gone.
pub proof fn a_dead_pane_loses_its_screen(before: App, dead: ServerPaneId, after: App)
    requires
        before.takes_event(Event::ServerPaneDied { server_pane: dead }, after),
    ensures
        !after.grids@.contains_key(dead),
        forall|id: ServerPaneId|
            id != dead ==> (#[trigger] after.grids@.contains_key(id) == before.grids@.contains_key(
                id,
            )) && (before.grids@.contains_key(id) ==> after.grids@[id] == before.grids@[id]),
        before.text_selection matches Some(s) && s.server_pane != dead ==> after.text_selection
            == before.text_selection,
        after == (App { grids: after.grids, text_selection: after.text_selection, ..before }),
{
}

/// The preview that is asked for is that of the selected server-pane, and what
/// comes back is shown as its; on any other row there is none.
pub proof fn the_preview_is_the_selected_panes(
    before: App,
    text: String,
    after: App,
    step: Step,
)
    requires
        before.preview_refreshed().0.resumes(
            before.preview_refreshed().1->Send_1,
            Response::ServerReadOutput { text },
            after,
            step,
        ),
    ensures
        match (before.attach_menu, before.selected_row()) {
            (Some(menu), Some(AttachMenuRow::Server(i))) => {
                let id = menu.servers@[i as int].1.id;
                &&& before.preview_refreshed().1 matches Step::Send(Request::ServerRead { target }, _)
                    && target == id
                &&& after == (App { attach_menu_preview: Some((id, text)), ..before })
                &&& step == Step::Done
            },
            _ => before.preview_refreshed() == (
                App { attach_menu_preview: None, ..before },
                Step::Done,
            ),
        },
{
}

/// The names known afterwards are those of the list that came back: each listed
/// server-pane's, and no other's.
pub proof fn names_are_those_listed(
    before: App,
    servers: Vec<ServerPaneInfo>,
    after: App,
    step: Step,
)
    requires
        before.resumes(Pending::Names, Response::ServerPaneList(servers), after, step),
        forall|i: int, j: int|
            0 <= i < j < servers@.len() ==> (#[trigger] servers@[i]).id != (
            #[trigger] servers@[j]).id,
    ensures
        step == Step::Done,
        forall|i: int|
            0 <= i < servers@.len() ==> after.server_names@.contains_key(
                (#[trigger] servers@[i]).id,
            ) && after.server_names@[servers@[i].id] == servers@[i],
        forall|id: ServerPaneId| #[trigger]
            after.server_names@.contains_key(id) ==> exists|i: int|
                0 <= i < servers@.len() && (#[trigger] servers@[i]).id == id,
        after == (App { server_names: after.server_names, ..before }),
{
    every_server_is_indexed(servers@);
}

/// A client that starts on a workspace with panes asks for nothing.
pub proof fn a_workspace_with_panes_is_shown_as_it_is(workspace: WorkspaceInfo)
    requires
        workspace.tree is Some,
    ensures
        App::start_step(workspace) == Step::Done,
{
}

/// A client that starts on an empty workspace, and is granted a shell, gets a first
/// pane that shows it and has the focus.
pub proof fn a_granted_shell_gets_the_first_pane(
    app: App,
    start: Step,
    a: App,
    first: Step,
    info: ServerPaneInfo,
    b: App,
    second: Step,
    pane: ClientPaneId,
    c: App,
    third: Step,
)
    requires
        app.workspace.tree is None,
        start == App::start_step(app.workspace),
        app.resumes(start->Send_1, Response::ShellFallback { available: true }, a, first),
        a.resumes(first->Send_1, Response::ServerPane(info), b, second),
        b.resumes(second->Send_1, Response::ClientPaneCreated { pane }, c, third),
    ensures
        start matches Step::Send(Request::ConsumeShellFallback, _),
        first matches Step::Send(Request::ServerSpawn { cwd }, _) && cwd is None,
        second matches Step::Send(Request::ClientSpawn { workspace, split_of, dir, bind }, _)
            && workspace == app.workspace.id && split_of is None && dir is None && bind == Some(
            info.id,
        ),
        third == Step::Done,
        c == (App { focused: Some(pane), ..app }),
{
}

/// A client that starts on an empty workspace, and is granted no shell, opens the
/// menu at its top, with nothing to give back.
pub proof fn without_a_shell_the_menu_opens(
    app: App,
    start: Step,
    response: Response,
    a: App,
    first: Step,
    pins: Vec<String>,
    b: App,
    second: Step,
    servers: Vec<ServerPaneInfo>,
    c: App,
    third: Step,
)
    requires
        response != (Response::ShellFallback { available: true }),
        app.workspace.tree is None,
        start == App::start_step(app.workspace),
        app.resumes(start->Send_1, response, a, first),
        a.resumes(first->Send_1, Response::PinnedDirsList(pins), b, second),
        b.resumes(second->Send_1, Response::ServerPaneList(servers), c, third),
    ensures
        first matches Step::Send(Request::PinnedDirsList, _),
        second matches Step::Send(Request::ServerList, _),
        third == Step::Done,
        c.attach_menu matches Some(menu) && menu.is_browsing() && menu.selected == 0
            && !menu.adding_tab && menu.previously_bound is None,
        c == (App { attach_menu: c.attach_menu, pinned_dirs: pins, ..app }),
{
}

/// Whether this waits for a reply of one kind, without which there is nothing to do.
pub open spec fn waits_for_one_kind(pending: Pending) -> bool {
    pending is FirstShell || pending is ClientSpawned || pending is Servers || pending is Subscribed
        || pending is SplitSpawned || pending is Preview || pending is Names || pending is Relisted
        || pending is RenameListed || pending is MenuSpawned || pending is GroupSpawned
        || pending is GroupListed || pending is JumpListed || pending is Discard
}

/// A refusal ends what waits for one kind of reply, and changes nothing. A refused
/// list of pins leaves the pins as they were, and the exchange goes on.
pub proof fn a_refusal_changes_nothing(
    before: App,
    pending: Pending,
    message: String,
    after: App,
    step: Step,
)
    requires
        before.resumes(pending, Response::Error { message }, after, step),
    ensures
        waits_for_one_kind(pending) ==> after == before && step == Step::Done,
        pending is Pins || pending is PinToggled ==> after == before && (step matches Step::Send(
            Request::ServerList,
            _,
        )),
{
}

} // verus!
