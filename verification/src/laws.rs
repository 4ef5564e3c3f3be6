//! What holds of the client as a whole.

use crate::actions::with_sizes;
use crate::app::{App, Drag, MenuOpening, Pending, Step};
use crate::bindings::Action;
use crate::bytes::{first_where, first_where_props};
use crate::geometry::Rect;
use crate::keys::is_shift_enter;
use crate::layout::{divider_at, leaf_at, size_changes, terminal_size, Placement};
use crate::menu::{
    initial_selection, is_down, is_enter, is_escape, is_header_of, is_key, is_up, keys,
    menu_action, rows_name_listed_panes, AttachMenu, AttachMenuAction, AttachMenuRow,
};
use crate::mouse::MouseEvent;
use crate::protocol::{
    pane_with_id_is_among, ClientPaneId, Event, Request, Response, ServerPaneId, Size, SplitTree,
};
use vstd::prelude::*;

verus! {

/// Every layout has a first pane.
proof fn tree_has_a_pane(tree: SplitTree)
    ensures
        tree.panes().len() > 0,
    decreases tree,
{
    match tree {
        SplitTree::Leaf(_) => {},
        SplitTree::Split { a, b, .. } => {
            tree_has_a_pane(*a);
        },
    }
}

/// After a change of its layout the focus is on a pane of the workspace, or there
/// is none to be on; and it stays where it was if that pane is still there.
pub proof fn focus_follows_the_layout(before: App, event: Event, after: App)
    requires
        before.takes_event(event, after),
        event matches Event::LayoutDelta { workspace, .. } && workspace == before.workspace.id,
    ensures
        match after.workspace.tree {
            Some(_) => after.focused matches Some(id) && after.workspace.pane(id) is Some,
            None => after.focused is None,
        },
        before.focused matches Some(id) && after.workspace.pane(id) is Some ==> after.focused
            == before.focused,
{
    match after.workspace.tree {
        Some(tree) => {
            tree_has_a_pane(tree);
            let panes = tree.panes();
            let first = panes[0].id;
            pane_with_id_is_among(panes, first);
            assert(panes[0].id == first);
        },
        None => {},
    }
}

/// After a change of layout a selection that is left is one in a pane that still
/// shows what was selected in; and a server-pane's death leaves no selection in
/// it.
pub proof fn selections_do_not_outlive_their_screen(before: App, event: Event, after: App)
    requires
        before.takes_event(event, after),
    ensures
        event matches Event::LayoutDelta { workspace, .. } && workspace == before.workspace.id
            ==> after.text_selection is None || after.selection_is_current(),
        event matches Event::ServerPaneDied { server_pane } ==> (after.text_selection matches Some(
            s,
        ) ==> s.server_pane != server_pane),
{
}

/// An event about another workspace's layout changes nothing.
pub proof fn other_workspaces_do_not_matter(before: App, event: Event, after: App)
    requires
        before.takes_event(event, after),
        event matches Event::LayoutDelta { workspace, .. } && workspace != before.workspace.id,
    ensures
        after == before,
{
}

/// The way into the menu from a pane with one tab or none begins with unbinding
/// it, and takes along what it showed.
pub proof fn detaching_remembers(app: App)
    requires
        app.focused matches Some(pane) && (app.workspace.pane(pane) matches Some(leaf)
            && leaf.tabs@.len() <= 1),
    ensures
        app.detaching_for_menu() == Step::Send(
            Request::ClientUnbind { workspace: app.workspace.id, pane: app.focused->0 },
            Pending::Unbound(app.focused_bound()),
        ),
{
}

/// What was bound is carried from the unbinding to the opened menu, whatever the
/// daemon replies on the way.
pub proof fn detached_pane_is_remembered(
    a: App,
    bound: Option<ServerPaneId>,
    first: Response,
    b: App,
    pins: Step,
    c: App,
    second: Response,
    d: App,
    servers: Step,
)
    requires
        a.resumes(Pending::Unbound(bound), first, b, pins),
        c.resumes(Pending::Pins(MenuOpening::Detached(bound)), second, d, servers),
    ensures
        pins == Step::Send(
            Request::PinnedDirsList,
            Pending::Pins(MenuOpening::Detached(bound)),
        ),
        servers == Step::Send(
            Request::ServerList,
            Pending::Servers(MenuOpening::Detached(bound)),
        ),
{
}

/// Escape in the menu as it opens gives the focused pane back what it was
/// detached from.
pub proof fn escape_undoes_the_opening(
    replied: App,
    bound: Option<ServerPaneId>,
    response: Response,
    opened: App,
    step: Step,
    after: App,
    last: Step,
)
    requires
        response is ServerPaneList,
        replied.resumes(Pending::Servers(MenuOpening::Detached(bound)), response, opened, step),
        opened.takes_menu_input(seq![0x1bu8], after, last),
    ensures
        (after, last) == opened.cancelled(),
        after == (App { attach_menu: None, ..replied }),
        last == match (replied.focused, bound) {
            (Some(pane), Some(target)) => Step::Send(
                Request::ClientBind { workspace: replied.workspace.id, pane, target },
                Pending::Discard,
            ),
            _ => Step::Done,
        },
{
    the_way_back_is_kept(opened, seq![0x1bu8], after, last);
}

/// What Escape means on a row.
proof fn escape_is_cancel()
    ensures
        is_escape(seq![0x1bu8]),
        !is_enter(seq![0x1bu8]) && !is_up(seq![0x1bu8]) && !is_down(seq![0x1bu8]),
        menu_action(seq![0x1bu8]) == AttachMenuAction::Cancel,
{
    assert(seq![0x1bu8, 0x5b, 0x41].len() == 3 && seq![0x1bu8, 0x5b, 0x42].len() == 3);
    assert(seq![0x1bu8].len() == 1 && seq![0x1bu8][0] == 0x1b);
    assert(seq![0x0du8][0] == 0x0d && seq![0x0au8][0] == 0x0a);
}

/// Until the menu closes it remembers what Escape is to give back, whatever is
/// typed into it; and Escape gives it back, whichever row is selected.
pub proof fn the_way_back_is_kept(before: App, bytes: Seq<u8>, after: App, step: Step)
    requires
        before.attach_menu is Some,
        before.takes_menu_input(bytes, after, step),
    ensures
        after.attach_menu matches Some(menu) ==> menu.previously_bound
            == before.attach_menu->0.previously_bound && menu.adding_tab
            == before.attach_menu->0.adding_tab,
        bytes == seq![0x1bu8] && before.attach_menu->0.is_browsing() ==> (after, step)
            == before.cancelled(),
{
    escape_is_cancel();
}

/// No reply that the open menu waits for makes it forget what Escape is to give
/// back.
pub proof fn replies_keep_the_way_back(
    before: App,
    pending: Pending,
    response: Response,
    after: App,
    step: Step,
)
    requires
        before.resumes(pending, response, after, step),
        pending !is Servers,
        before.attach_menu matches Some(menu),
        after.attach_menu is Some,
    ensures
        after.attach_menu->0.previously_bound == before.attach_menu->0.previously_bound,
        after.attach_menu->0.adding_tab == before.attach_menu->0.adding_tab,
{
}

/// A pane with several tabs loses none by opening the menu: nothing is unbound.
pub proof fn tabs_survive_the_menu(app: App)
    requires
        app.focused matches Some(pane) && (app.workspace.pane(pane) matches Some(leaf)
            && leaf.tabs@.len() > 1),
    ensures
        app.detaching_for_menu() == Step::Send(
            Request::PinnedDirsList,
            Pending::Pins(MenuOpening::Detached(None)),
        ),
{
}

/// Where nothing was detached to open the menu, backing out of it sends nothing.
pub proof fn backing_out_is_free(
    replied: App,
    opening: MenuOpening,
    response: Response,
    opened: App,
    step: Step,
)
    requires
        !(opening matches MenuOpening::Detached(Some(_))),
        replied.resumes(Pending::Servers(opening), response, opened, step),
        response is ServerPaneList,
    ensures
        opened.cancelled() == (opened.menu_closed(), Step::Done),
{
}

/// Detaching kills nothing: it asks for nothing but to unbind, and for no tab
/// where there is none left.
pub proof fn detaching_kills_nothing(app: App, pane: ClientPaneId, left: u8)
    ensures
        app.detaching(pane, left) != Step::Done ==> (app.detaching(pane, left) matches Step::Send(
            Request::ClientUnbind { workspace, pane: p },
            Pending::Detaching { .. },
        ) && workspace == app.workspace.id && p == pane),
        app.workspace.pane_bound(pane) is Some && left > 0 ==> app.detaching(pane, left) != Step::Done,
        app.workspace.pane(pane) matches Some(leaf) && leaf.tabs@.len() == 0 ==> app.detaching(
            pane,
            left,
        ) == Step::Done,
{
}

/// Jumping to a numbered server-pane never creates one: a number with no
/// server-pane does nothing.
pub proof fn jumping_creates_nothing(
    app: App,
    pane: ClientPaneId,
    number: u8,
    response: Response,
    after: App,
    step: Step,
)
    requires
        app.resumes(Pending::JumpListed { pane, number }, response, after, step),
    ensures
        after == app,
        step != Step::Done ==> (step matches Step::Send(
            Request::ClientBind { pane: p, .. },
            Pending::Discard,
        ) && p == pane),
        response matches Response::ServerPaneList(servers) && servers@.len() < number ==> step
            == Step::Done,
{
}

/// A pane without tabs is neither closed nor killed.
pub proof fn closing_an_unbound_pane_does_nothing(app: App)
    requires
        app.focused_bound() is None,
    ensures
        app.tab_closing() == Step::Done,
        app.killing() == Step::Done,
{
}

/// Whether the selected row is one of the menu's.
pub open spec fn selects_a_row(app: App) -> bool {
    app.attach_menu matches Some(menu) ==> menu.selected < app.rows().len()
}

proof fn menu_has_rows(app: App)
    requires
        app.attach_menu matches Some(menu) ==> menu.servers@.len() <= usize::MAX,
    ensures
        app.attach_menu is Some ==> app.rows().len() > 0,
{
    match app.attach_menu {
        Some(menu) => {
            rows_name_listed_panes(keys(menu.servers@), app.collapsed_groups@, app.grouped_view);
        },
        None => {},
    }
}

/// Whether the menu's list can be counted.
pub open spec fn countable(app: App) -> bool {
    app.attach_menu matches Some(menu) ==> menu.servers@.len() <= usize::MAX
        && app.rows().len() <= usize::MAX
}

/// Whatever is typed into the menu, a row stays selected, though groups collapse
/// and the list is flattened.
pub proof fn menu_input_keeps_a_row_selected(before: App, bytes: Seq<u8>, after: App, step: Step)
    requires
        before.attach_menu is Some,
        selects_a_row(before),
        countable(before),
        countable(after),
        before.takes_menu_input(bytes, after, step),
    ensures
        selects_a_row(after),
{
    menu_has_rows(before);
    menu_has_rows(after);
    let menu = before.attach_menu->0;
    let n = before.rows().len() as int;
    assert(0 <= (menu.selected + 1) % n < n) by (nonlinear_arith)
        requires
            n > 0,
            menu.selected >= 0,
    ;
    assert(0 <= (menu.selected + n - 1) % n < n) by (nonlinear_arith)
        requires
            n > 0,
            menu.selected >= 0,
    ;
}

/// Whatever the daemon replies, a row stays selected, except that the list
/// fetched after a rename leaves the selection where it was.
pub proof fn replies_keep_a_row_selected(
    before: App,
    pending: Pending,
    response: Response,
    after: App,
    step: Step,
)
    requires
        selects_a_row(before),
        countable(before),
        countable(after),
        pending !is RenameListed,
        before.resumes(pending, response, after, step),
    ensures
        selects_a_row(after),
{
    menu_has_rows(before);
    menu_has_rows(after);
    match (pending, response) {
        (Pending::Servers(MenuOpening::Detached(bound)), Response::ServerPaneList(_)) => {
            match after.attach_menu {
                Some(menu) => {
                    initial_selection_is_a_row(menu, after, bound);
                },
                None => {},
            }
        },
        _ => {},
    }
}

proof fn initial_selection_is_a_row(menu: AttachMenu, app: App, bound: Option<ServerPaneId>)
    requires
        app.rows().len() > 0,
    ensures
        0 <= initial_selection(menu.servers@, app.rows(), bound) < app.rows().len(),
{
    let rows = app.rows();
    let servers = menu.servers@;
    match bound {
        Some(id) => {
            let p = |i: int| servers[i].1.id == id;
            first_where_props(p, 0, servers.len() as int);
            match first_where(p, 0, servers.len() as int) {
                Some(at) => {
                    let q = |r: int| rows[r] == AttachMenuRow::Server(at as usize);
                    first_where_props(q, 0, rows.len() as int);
                    let h = |r: int| is_header_of(servers, rows[r], at);
                    first_where_props(h, 0, rows.len() as int);
                },
                None => {},
            }
        },
        None => {},
    }
}

/// While a field is open every key but Enter and Escape goes into it, and in a
/// group's spawn field all but Shift-Enter: nothing is sent, the menu stays open,
/// and the program is not left.
pub proof fn fields_take_every_key(before: App, bytes: Seq<u8>, after: App, step: Step)
    requires
        before.attach_menu matches Some(menu) && (menu.rename is Some || menu.spawn_in_group
            is Some),
        before.takes_menu_input(bytes, after, step),
        !is_enter(bytes),
        !is_escape(bytes),
        before.attach_menu->0.rename is None ==> !is_shift_enter(bytes),
    ensures
        step == Step::Done,
        after.attach_menu matches Some(menu) && menu.servers == before.attach_menu->0.servers
            && menu.selected == before.attach_menu->0.selected,
{
}

/// Only an armed deletion kills, and only after a further `x` or Enter; no key
/// but `x` arms one, and every key pressed while one is armed disarms it.
pub proof fn deletion_needs_two_keys(before: App, bytes: Seq<u8>, after: App, step: Step)
    requires
        before.attach_menu is Some,
        before.takes_menu_input(bytes, after, step),
    ensures
        step matches Step::Send(Request::ServerKill { target }, _) ==> {
            &&& before.attach_menu matches Some(menu)
            &&& menu.pending_delete matches Some(i)
            &&& target == menu.servers@[i as int].1.id
            &&& is_key(bytes, 'x') || is_enter(bytes)
        },
        before.attach_menu->0.rename is None && before.attach_menu->0.spawn_in_group is None && !(
        before.attach_menu->0.is_browsing() && is_key(bytes, 'x')) ==> (after.attach_menu matches Some(
            menu,
        ) ==> menu.pending_delete is None),
{
}

/// Grouping twice is not grouping at all, but for the selection.
pub proof fn regrouping_twice_changes_nothing_else(app: App)
    ensures
        app.regrouped().regrouped().grouped_view == app.grouped_view,
        app.regrouped().regrouped() == match app.attach_menu {
            Some(menu) => app.selecting(
                app.regrouped().regrouped().attach_menu->0.selected as int,
            ),
            None => app,
        },
{
}

/// Collapsing a group twice leaves the same groups collapsed as before.
pub proof fn collapsing_twice_expands(a: App, i: int, b: App, c: App)
    requires
        a.attach_menu matches Some(menu) && 0 <= i < menu.servers@.len(),
        a.toggles_group(i, b),
        b.toggles_group(i, c),
    ensures
        c.collapsed_groups@ == a.collapsed_groups@,
{
    let key = a.attach_menu->0.servers@[i].0@;
    assert(b.attach_menu->0.servers == a.attach_menu->0.servers);
    if a.collapsed_groups@.contains(key) {
        assert(a.collapsed_groups@.remove(key).insert(key) =~= a.collapsed_groups@);
    } else {
        assert(a.collapsed_groups@.insert(key).remove(key) =~= a.collapsed_groups@);
    }
}

/// Closing the menu keeps what was collapsed and how it was shown.
pub proof fn view_survives_closing(app: App)
    ensures
        app.menu_closed().collapsed_groups == app.collapsed_groups,
        app.menu_closed().grouped_view == app.grouped_view,
        app.menu_closed().agents_only_view == app.agents_only_view,
        app.cancelled().0 == app.menu_closed(),
        app.all_detached().0 == app.menu_closed(),
{
}

/// Dragging sends nothing. A divider's new place is sent once, when the button is
/// released, and the drag is over.
pub proof fn only_a_release_resizes(
    before: App,
    placement: Option<Placement>,
    event: MouseEvent,
    after: App,
    step: Step,
)
    requires
        before.takes_mouse_on(placement, event, after, step),
    ensures
        event is Down || event is Drag ==> step == Step::Done,
        step matches Step::Send(Request::ResizeSplit { split, new_ratio, .. }, _) ==> {
            &&& event is Up
            &&& before.dragging_split == Some(Drag { split, ratio: new_ratio })
            &&& after.dragging_split is None
        },
        event is Up ==> after.dragging_split is None,
{
}

/// A press on a divider leaves the focus alone; a press elsewhere in a pane
/// focuses that pane.
pub proof fn clicks_focus_panes_not_dividers(
    app: App,
    placement: Placement,
    col: u16,
    row: u16,
)
    ensures
        divider_at(placement.dividers(), col, row) is Some ==> app.pressed(
            Some(placement),
            col,
            row,
        ).focused == app.focused,
        divider_at(placement.dividers(), col, row) is None ==> app.pressed(
            Some(placement),
            col,
            row,
        ).focused == match leaf_at(placement.leaves(), col, row) {
            Some((pane, _)) => Some(pane),
            None => app.focused,
        },
{
}

/// The mouse never types: no mouse event leads to keyboard input for a pane.
pub proof fn the_mouse_does_not_type(
    before: App,
    placement: Option<Placement>,
    event: MouseEvent,
    after: App,
    step: Step,
)
    requires
        before.takes_mouse_on(placement, event, after, step),
    ensures
        !(step matches Step::Send(Request::Input { .. }, _)),
        step != Step::Quit,
        after.attach_menu == before.attach_menu,
        after.workspace == before.workspace,
{
}

/// A selection that is copied stays highlighted. A press and a release on one
/// cell copy nothing and leave no selection.
pub proof fn copied_selections_stay(
    before: App,
    placement: Option<Placement>,
    event: MouseEvent,
    after: App,
    step: Step,
)
    requires
        before.takes_mouse_on(placement, event, after, step),
    ensures
        step is Copy ==> (after.text_selection matches Some(s) && !s.dragging && s.start != s.end),
        event is Up && before.dragging_split is None && (before.text_selection matches Some(s)
            && s.dragging) ==> (after.text_selection matches Some(s) ==> !s.dragging && s.start
            != s.end) && (after.text_selection is None ==> step == Step::Done),
{
}

/// Every action ends a selection.
pub proof fn actions_clear_the_selection(
    before: App,
    action: Action,
    raw: Seq<u8>,
    after: App,
    step: Step,
)
    requires
        before.acts(action, raw, after, step),
    ensures
        after.text_selection is None,
        step == Step::Quit <==> action == Action::Quit,
        after.attach_menu == before.attach_menu,
{
}

/// Once reported, a size is not reported again: with the same layout there is
/// nothing left to report.
pub proof fn sizes_are_reported_once(
    reported: Map<ClientPaneId, Size>,
    leaves: Seq<(ClientPaneId, Rect)>,
)
    requires
        forall|i: int, j: int|
            0 <= i < j < leaves.len() ==> (#[trigger] leaves[i]).0 != (#[trigger] leaves[j]).0,
    ensures
        size_changes(with_sizes(reported, size_changes(reported, leaves)), leaves).len() == 0,
{
    let after = with_sizes(reported, size_changes(reported, leaves));
    assert forall|i: int| 0 <= i < leaves.len() implies after.contains_key(
        (#[trigger] leaves[i]).0,
    ) && after[leaves[i].0] == terminal_size(leaves[i].1) by {
        reported_size(reported, leaves, i);
    }
    no_changes(after, leaves);
}

/// After its report, the size last reported for a pane is its size.
proof fn reported_size(
    reported: Map<ClientPaneId, Size>,
    leaves: Seq<(ClientPaneId, Rect)>,
    i: int,
)
    requires
        0 <= i < leaves.len(),
        forall|i: int, j: int|
            0 <= i < j < leaves.len() ==> (#[trigger] leaves[i]).0 != (#[trigger] leaves[j]).0,
    ensures
        ({
            let after = with_sizes(reported, size_changes(reported, leaves));
            after.contains_key(leaves[i].0) && after[leaves[i].0] == terminal_size(leaves[i].1)
        }),
    decreases leaves.len(),
{
    let (id, area) = leaves.last();
    let rest = leaves.drop_last();
    let before = size_changes(reported, rest);
    let changes = size_changes(reported, leaves);
    let known = reported.contains_key(id) && reported[id] == terminal_size(area);
    assert forall|i: int, j: int| 0 <= i < j < rest.len() implies (#[trigger] rest[i]).0
        != (#[trigger] rest[j]).0 by {
        assert(rest[i] == leaves[i] && rest[j] == leaves[j]);
    }
    if !known {
        assert(changes.drop_last() =~= before);
        assert(changes.last() == (id, terminal_size(area)));
    }
    if i < rest.len() {
        reported_size(reported, rest, i);
        assert(rest[i] == leaves[i]);
        assert(leaves[i].0 != leaves[leaves.len() - 1].0);
    } else if known {
        untouched_size(reported, rest, id);
    }
}

/// A report that does not concern a pane leaves the size reported for it.
proof fn untouched_size(
    reported: Map<ClientPaneId, Size>,
    leaves: Seq<(ClientPaneId, Rect)>,
    id: ClientPaneId,
)
    requires
        reported.contains_key(id),
        forall|i: int| 0 <= i < leaves.len() ==> (#[trigger] leaves[i]).0 != id,
    ensures
        ({
            let after = with_sizes(reported, size_changes(reported, leaves));
            after.contains_key(id) && after[id] == reported[id]
        }),
    decreases leaves.len(),
{
    if leaves.len() > 0 {
        let rest = leaves.drop_last();
        assert forall|i: int| 0 <= i < rest.len() implies (#[trigger] rest[i]).0 != id by {
            assert(rest[i] == leaves[i]);
        }
        untouched_size(reported, rest, id);
        let changes = size_changes(reported, leaves);
        let before = size_changes(reported, rest);
        if changes != before {
            assert(changes.drop_last() =~= before);
            assert(changes.last().0 == leaves.last().0);
        }
        assert(leaves[leaves.len() - 1].0 != id);
    }
}

/// Where every size is the one last reported there is nothing to report.
proof fn no_changes(reported: Map<ClientPaneId, Size>, leaves: Seq<(ClientPaneId, Rect)>)
    requires
        forall|i: int|
            0 <= i < leaves.len() ==> reported.contains_key((#[trigger] leaves[i]).0)
                && reported[leaves[i].0] == terminal_size(leaves[i].1),
    ensures
        size_changes(reported, leaves).len() == 0,
    decreases leaves.len(),
{
    if leaves.len() > 0 {
        let rest = leaves.drop_last();
        assert forall|i: int| 0 <= i < rest.len() implies reported.contains_key(
            (#[trigger] rest[i]).0,
        ) && reported[rest[i].0] == terminal_size(rest[i].1) by {
            assert(rest[i] == leaves[i]);
        }
        no_changes(reported, rest);
        assert(leaves[leaves.len() - 1] == leaves.last());
    }
}

/// An empty workspace gets a shell where the daemon grants one and the menu where
/// it does not, and without a focused pane the menu's pick gets the workspace's
/// first pane.
pub proof fn empty_workspaces_get_a_pane(app: App, response: Response, after: App, step: Step)
    requires
        app.resumes(Pending::ShellFallback, response, after, step),
    ensures
        response == (Response::ShellFallback { available: true }) ==> step == Step::Send(
            Request::ServerSpawn { cwd: None },
            Pending::FirstShell,
        ),
        response != (Response::ShellFallback { available: true }) ==> step == Step::Send(
            Request::PinnedDirsList,
            Pending::Pins(MenuOpening::Startup),
        ),
        app.focused is None ==> forall|target: ServerPaneId| #[trigger]
            app.binding(target, false) == Step::Send(
                Request::ClientSpawn {
                    workspace: app.workspace.id,
                    split_of: None,
                    dir: None,
                    bind: Some(target),
                },
                Pending::ClientSpawned,
            ),
{
}

/// A refused name is not lost: the field stays open with its text, and shows why.
pub proof fn refused_names_stay_in_the_field(
    before: App,
    message: String,
    after: App,
    step: Step,
)
    requires
        before.attach_menu matches Some(menu) && menu.rename is Some,
        before.resumes(Pending::Renamed, Response::Error { message }, after, step),
    ensures
        step == Step::Done,
        after.attach_menu matches Some(menu) && (menu.rename matches Some(field) && field.text
            == before.attach_menu->0.rename->0.text && field.error == Some(message)),
{
}

} // verus!
