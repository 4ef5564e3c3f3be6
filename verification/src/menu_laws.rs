//! What holds of the attach menu: what each key does on each row, what it asks of
//! the daemon, and what the menu lists.

use crate::app::{App, Pending, Step};
use crate::edit::{cursor_index, stands_at};
use crate::keys::is_shift_enter;
use crate::menu::{
    collapse_hides_all_but_the_header, group_before, group_before_total, group_key, group_members,
    grouped, grouped_rows, grouping_keeps_every_pane, infos, initial_selection, is_agent,
    is_header_of, keys, menu_rows, pin_rank, pinned_as, rows_of, shown, starts_group,
    AttachMenuRow, Listed, RenameState, SpawnInGroupState,
};
use crate::protocol::{ClientPaneId, Request, Response, ServerPaneId, ServerPaneInfo};
use crate::text::{bytes_before, text_before, views};
use vstd::prelude::*;
use vstd::utf8::encode_utf8;

verus! {

/// Whether `bytes` is the one byte `b`.
pub open spec fn presses(bytes: Seq<u8>, b: u8) -> bool {
    bytes.len() == 1 && bytes[0] == b
}

/// Whether `bytes` is a carriage return or a line feed.
pub open spec fn presses_enter(bytes: Seq<u8>) -> bool {
    presses(bytes, 0x0d) || presses(bytes, 0x0a)
}

/// Whether the menu is open on `row`, with no deletion armed and no field open.
pub open spec fn browses_on(app: App, row: AttachMenuRow) -> bool {
    &&& app.attach_menu matches Some(menu)
    &&& menu.pending_delete is None
    &&& menu.rename is None
    &&& menu.spawn_in_group is None
    &&& app.selected_row() == Some(row)
}

/// The server-pane `i` of the open menu.
pub open spec fn listed_pane(app: App, i: int) -> ServerPaneInfo {
    app.attach_menu->0.servers@[i].1
}

/// The directory under which the server-pane `i` of the open menu is listed.
pub open spec fn listed_directory(app: App, i: int) -> Seq<char> {
    app.attach_menu->0.servers@[i].0@
}

/// Whether `request` shows `target` in the focused pane: as a new tab, or in place
/// of the active one. Without a focused pane it is the first pane that is asked
/// for.
pub open spec fn shows_in_focus(app: App, shown: ServerPaneId, as_tab: bool, request: Request) -> bool {
    match app.focused {
        Some(id) => if as_tab {
            request matches Request::ClientAddTab { workspace, pane, target } && workspace
                == app.workspace.id && pane == id && target == shown
        } else {
            request matches Request::ClientBind { workspace, pane, target } && workspace
                == app.workspace.id && pane == id && target == shown
        },
        None => request matches Request::ClientSpawn { workspace, split_of, dir, bind } && workspace
            == app.workspace.id && split_of is None && dir is None && bind == Some(shown),
    }
}

/// Whether nothing but the menu, if that, differs between the two.
pub open spec fn only_menu_differs(a: App, b: App) -> bool {
    b == App { attach_menu: b.attach_menu, ..a }
}

/// Whether the row with the same number is selected as before, or the last one where
/// there are no longer that many.
pub open spec fn keeps_its_row(before: App, after: App) -> bool {
    after.attach_menu->0.selected == if before.attach_menu->0.selected < after.rows().len() {
        before.attach_menu->0.selected as int
    } else {
        after.rows().len() - 1
    }
}

proof fn has_rows(app: App)
    requires
        app.attach_menu is Some,
    ensures
        app.rows().len() > 0,
{
}

proof fn single_keys_differ(bytes: Seq<u8>)
    requires
        bytes.len() == 1,
    ensures
        bytes != seq![0x1bu8, 0x5b, 0x41] && bytes != seq![0x1bu8, 0x5b, 0x42],
        bytes == seq![0x0du8] <==> bytes[0] == 0x0d,
        bytes == seq![0x0au8] <==> bytes[0] == 0x0a,
        bytes == seq![0x1bu8] <==> bytes[0] == 0x1b,
        !is_shift_enter(bytes),
{
    assert(seq![0x1bu8, 0x5b, 0x41].len() == 3 && seq![0x1bu8, 0x5b, 0x42].len() == 3);
    if bytes[0] == 0x0d {
        assert(bytes =~= seq![0x0du8]);
    }
    if bytes[0] == 0x0a {
        assert(bytes =~= seq![0x0au8]);
    }
    if bytes[0] == 0x1b {
        assert(bytes =~= seq![0x1bu8]);
    }
    assert(seq![0x0du8][0] == 0x0d && seq![0x0au8][0] == 0x0a && seq![0x1bu8][0] == 0x1b);
}

/// Enter on a server-pane closes the menu and shows that server-pane in the focused
/// pane, as a new tab if the menu was opened for one; and that is all.
pub proof fn enter_shows_the_selected_pane(
    before: App,
    i: usize,
    bytes: Seq<u8>,
    after: App,
    step: Step,
)
    requires
        browses_on(before, AttachMenuRow::Server(i)),
        presses_enter(bytes),
        before.takes_menu_input(bytes, after, step),
    ensures
        after.attach_menu is None,
        only_menu_differs(before, after),
        step is Send,
        shows_in_focus(
            before,
            listed_pane(before, i as int).id,
            before.attach_menu->0.adding_tab,
            step->Send_0,
        ),
{
    single_keys_differ(bytes);
}

/// Enter on the plain "spawn new" row asks for a shell in no particular directory,
/// on a group's row for one in that group's directory. The menu closes, and the new
/// server-pane is shown in the focused pane, as a new tab if the menu was opened for
/// one.
pub proof fn enter_spawns_where_the_row_says(
    before: App,
    row: AttachMenuRow,
    bytes: Seq<u8>,
    a: App,
    first: Step,
    info: ServerPaneInfo,
    b: App,
    second: Step,
)
    requires
        row is SpawnNew || row is SpawnNewInGroup,
        browses_on(before, row),
        presses_enter(bytes),
        before.takes_menu_input(bytes, a, first),
        a.resumes(first->Send_1, Response::ServerPane(info), b, second),
    ensures
        first matches Step::Send(Request::ServerSpawn { cwd }, _) && match row {
            AttachMenuRow::SpawnNewInGroup(i) => cwd matches Some(dir) && dir@ == listed_directory(
                before,
                i as int,
            ),
            _ => cwd is None,
        },
        b.attach_menu is None,
        only_menu_differs(before, b),
        second is Send,
        shows_in_focus(before, info.id, before.attach_menu->0.adding_tab, second->Send_0),
{
    single_keys_differ(bytes);
}

/// What a pick was shown with is all that is asked for: the reply only moves the
/// focus to a first pane that was made for it.
pub proof fn a_pick_asks_for_nothing_more(
    before: App,
    target: ServerPaneId,
    as_tab: bool,
    response: Response,
    after: App,
    step: Step,
)
    requires
        before.resumes(before.binding(target, as_tab)->Send_1, response, after, step),
    ensures
        step == Step::Done,
        after == (App { focused: after.focused, ..before }),
        before.focused is Some ==> after.focused == before.focused,
        before.focused is None ==> after.focused == match response {
            Response::ClientPaneCreated { pane } => Some(pane),
            _ => None,
        },
{
}

/// Enter on a header collapses its group, or expands it, and no other; the menu
/// stays open and nothing is sent.
pub proof fn enter_folds_the_selected_group(
    before: App,
    i: usize,
    bytes: Seq<u8>,
    after: App,
    step: Step,
    key: Seq<char>,
)
    requires
        browses_on(before, AttachMenuRow::GroupHeader(i)),
        presses_enter(bytes),
        before.takes_menu_input(bytes, after, step),
        after.rows().len() <= usize::MAX,
    ensures
        keeps_its_row(before, after),
        step == Step::Done,
        after.collapsed_groups@.contains(key) == if key == listed_directory(before, i as int) {
            !before.collapsed_groups@.contains(key)
        } else {
            before.collapsed_groups@.contains(key)
        },
        after.attach_menu matches Some(menu) && menu.servers == before.attach_menu->0.servers
            && menu.previously_bound == before.attach_menu->0.previously_bound && menu.adding_tab
            == before.attach_menu->0.adding_tab && menu.pending_delete is None && menu.rename is None
            && menu.spawn_in_group is None,
        after == (App {
            collapsed_groups: after.collapsed_groups,
            attach_menu: after.attach_menu,
            ..before
        }),
{
    has_rows(after);
    single_keys_differ(bytes);
}

/// `j` and the down arrow select the next row, `k` and the up arrow the previous
/// one; from an end they go to the other. Nothing else happens.
pub proof fn arrows_select_the_next_row(
    before: App,
    row: AttachMenuRow,
    down: bool,
    bytes: Seq<u8>,
    after: App,
    step: Step,
)
    requires
        browses_on(before, row),
        before.rows().len() <= usize::MAX,
        bytes == (if down {
            seq![0x1bu8, 0x5b, 0x42]
        } else {
            seq![0x1bu8, 0x5b, 0x41]
        }) || presses(
            bytes,
            if down {
                'j' as u8
            } else {
                'k' as u8
            },
        ),
        before.takes_menu_input(bytes, after, step),
    ensures
        step == Step::Done,
        only_menu_differs(before, after),
        ({
            let n = before.rows().len() as int;
            let at = before.attach_menu->0.selected as int;
            &&& after.attach_menu matches Some(menu)
            &&& menu == (crate::menu::AttachMenu { selected: menu.selected, ..before.attach_menu->0
            })
            &&& menu.selected == if down {
                if at == n - 1 {
                    0
                } else {
                    at + 1
                }
            } else {
                if at == 0 {
                    n - 1
                } else {
                    at - 1
                }
            }
        }),
{
    let up_arrow = seq![0x1bu8, 0x5b, 0x41];
    let down_arrow = seq![0x1bu8, 0x5b, 0x42];
    assert(up_arrow.len() == 3 && down_arrow.len() == 3 && up_arrow[2] != down_arrow[2]);
    assert(seq![0x0du8].len() == 1 && seq![0x0au8].len() == 1 && seq![0x1bu8].len() == 1);
    if bytes.len() == 1 {
        single_keys_differ(bytes);
    }
    let n = before.rows().len() as int;
    let at = before.attach_menu->0.selected as int;
    if at + 1 < n {
        vstd::arithmetic::div_mod::lemma_small_mod((at + 1) as nat, n as nat);
    } else {
        vstd::arithmetic::div_mod::lemma_mod_self_0(n);
    }
    if at == 0 {
        vstd::arithmetic::div_mod::lemma_small_mod((n - 1) as nat, n as nat);
    } else {
        vstd::arithmetic::div_mod::lemma_small_mod((at - 1) as nat, n as nat);
        vstd::arithmetic::div_mod::lemma_mod_add_multiples_vanish(at - 1, n);
    }
}

/// `x` on a server-pane and then `x` or Enter kills that server-pane and lists anew;
/// after the first key nothing has been sent.
pub proof fn two_keys_delete_the_selected_pane(
    before: App,
    i: usize,
    bytes: Seq<u8>,
    a: App,
    first: Step,
    again: Seq<u8>,
    b: App,
    second: Step,
    response: Response,
    c: App,
    third: Step,
    servers: Vec<ServerPaneInfo>,
    d: App,
    fourth: Step,
)
    requires
        browses_on(before, AttachMenuRow::Server(i)),
        presses(bytes, 'x' as u8),
        before.takes_menu_input(bytes, a, first),
        presses(again, 'x' as u8) || presses_enter(again),
        a.takes_menu_input(again, b, second),
        b.resumes(second->Send_1, response, c, third),
        c.resumes(third->Send_1, Response::ServerPaneList(servers), d, fourth),
        d.rows().len() <= usize::MAX,
    ensures
        keeps_its_row(before, d),
        first == Step::Done,
        second matches Step::Send(Request::ServerKill { target }, _) && target == listed_pane(
            before,
            i as int,
        ).id,
        third matches Step::Send(Request::ServerList, _),
        fourth == Step::Done,
        only_menu_differs(before, d),
        d.attach_menu matches Some(menu) && before.lists(servers@, menu.servers@)
            && menu.pending_delete is None && menu.rename is None && menu.spawn_in_group is None
            && menu.previously_bound == before.attach_menu->0.previously_bound && menu.adding_tab
            == before.attach_menu->0.adding_tab,
{
    single_keys_differ(bytes);
    single_keys_differ(again);
    has_rows(d);
}

/// `r` on a server-pane opens a field with its name, empty if it has none, the
/// cursor at the end; nothing is sent.
pub proof fn the_rename_key_opens_the_panes_name(
    before: App,
    i: usize,
    bytes: Seq<u8>,
    after: App,
    step: Step,
)
    requires
        browses_on(before, AttachMenuRow::Server(i)),
        presses(bytes, 'r' as u8),
        before.takes_menu_input(bytes, after, step),
    ensures
        step == Step::Done,
        only_menu_differs(before, after),
        after.attach_menu matches Some(menu) && menu.servers == before.attach_menu->0.servers
            && menu.selected == before.attach_menu->0.selected && menu.pending_delete is None
            && menu.spawn_in_group is None && (menu.rename matches Some(field) && field.index == i
            && field.text@ == (match listed_pane(before, i as int).name {
            Some(name) => name@,
            None => Seq::empty(),
        }) && field.cursor == encode_utf8(field.text@).len() && field.error is None),
{
    single_keys_differ(bytes);
    let text = after.attach_menu->0.rename->0.text@;
    assert(text.take(text.len() as int) =~= text);
}

/// Enter in a rename field that is not empty asks for that name for the server-pane
/// it belongs to. Once that is granted the list is fetched, and the field closes.
pub proof fn a_granted_name_closes_the_field(
    before: App,
    field: RenameState,
    bytes: Seq<u8>,
    a: App,
    first: Step,
    b: App,
    second: Step,
    servers: Vec<ServerPaneInfo>,
    c: App,
    third: Step,
)
    requires
        before.attach_menu matches Some(menu) && menu.rename == Some(field),
        field.text@.len() > 0,
        presses_enter(bytes),
        before.takes_menu_input(bytes, a, first),
        a.resumes(first->Send_1, Response::Ack, b, second),
        b.resumes(second->Send_1, Response::ServerPaneList(servers), c, third),
    ensures
        first matches Step::Send(Request::ServerRename { target, new_name }, _) && target
            == listed_pane(before, field.index as int).id && new_name@ == field.text@,
        second matches Step::Send(Request::ServerList, _),
        third == Step::Done,
        only_menu_differs(before, c),
        c.attach_menu matches Some(menu) && menu.rename is None && before.lists(
            servers@,
            menu.servers@,
        ) && menu.selected == before.attach_menu->0.selected,
{
    single_keys_differ(bytes);
}

/// An empty name is not asked for, and Escape closes the rename field with nothing
/// asked for; the menu stays.
pub proof fn a_rename_can_be_given_up(
    before: App,
    field: RenameState,
    bytes: Seq<u8>,
    after: App,
    step: Step,
)
    requires
        before.attach_menu matches Some(menu) && menu.rename == Some(field),
        before.takes_menu_input(bytes, after, step),
        presses(bytes, 0x1b) || (presses_enter(bytes) && field.text@.len() == 0),
    ensures
        step == Step::Done,
        only_menu_differs(before, after),
        after.attach_menu matches Some(menu) && menu.servers == before.attach_menu->0.servers
            && menu.rename == (if presses(bytes, 0x1b) {
            None
        } else {
            Some(field)
        }),
{
    single_keys_differ(bytes);
}

/// A space on a group's "spawn new" row opens an empty field for that group; nothing
/// is sent.
pub proof fn a_space_opens_the_groups_field(
    before: App,
    i: usize,
    bytes: Seq<u8>,
    after: App,
    step: Step,
)
    requires
        browses_on(before, AttachMenuRow::SpawnNewInGroup(i)),
        presses(bytes, ' ' as u8),
        before.takes_menu_input(bytes, after, step),
    ensures
        step == Step::Done,
        only_menu_differs(before, after),
        after.attach_menu matches Some(menu) && menu.servers == before.attach_menu->0.servers
            && menu.pending_delete is None && menu.rename is None && (
        menu.spawn_in_group matches Some(field) && field.group_server_index == i
            && field.text@.len() == 0 && field.cursor == 0 && field.error is None),
{
    single_keys_differ(bytes);
}

/// Enter in a group's field asks for a shell in that group's directory, shows it in
/// the focused pane, types the field's text into it, and closes the menu.
pub proof fn enter_spawns_shows_and_types(
    before: App,
    field: SpawnInGroupState,
    bytes: Seq<u8>,
    a: App,
    first: Step,
    info: ServerPaneInfo,
    b: App,
    second: Step,
    shown_reply: Response,
    c: App,
    third: Step,
    typed_reply: Response,
    d: App,
    fourth: Step,
)
    requires
        before.attach_menu matches Some(menu) && menu.rename is None && menu.spawn_in_group == Some(
            field,
        ),
        before.focused is Some,
        field.text@.len() > 0,
        presses_enter(bytes),
        before.takes_menu_input(bytes, a, first),
        a.resumes(first->Send_1, Response::ServerPane(info), b, second),
        b.resumes(second->Send_1, shown_reply, c, third),
        c.resumes(third->Send_1, typed_reply, d, fourth),
    ensures
        first matches Step::Send(Request::ServerSpawn { cwd }, _) && (cwd matches Some(dir) && dir@
            == listed_directory(before, field.group_server_index as int)),
        second is Send,
        shows_in_focus(before, info.id, before.attach_menu->0.adding_tab, second->Send_0),
        third matches Step::Send(Request::ServerSend { target, text, enter }, _) && target
            == info.id && text@ == field.text@ && enter,
        fourth == Step::Done,
        d.attach_menu is None,
        only_menu_differs(before, d),
{
    single_keys_differ(bytes);
}

/// Shift-Enter in a group's field asks for a shell in that group's directory and
/// types the field's text into it, but shows it nowhere: the menu stays open, the
/// field closed, and lists anew.
pub proof fn shift_enter_spawns_and_types_only(
    before: App,
    field: SpawnInGroupState,
    bytes: Seq<u8>,
    a: App,
    first: Step,
    info: ServerPaneInfo,
    b: App,
    second: Step,
    typed_reply: Response,
    c: App,
    third: Step,
    servers: Vec<ServerPaneInfo>,
    d: App,
    fourth: Step,
)
    requires
        before.attach_menu matches Some(menu) && menu.rename is None && menu.spawn_in_group == Some(
            field,
        ),
        field.text@.len() > 0,
        bytes == seq![0x1bu8, 0x5f, 0x44, 0x73, 0x1b, 0x5c],
        before.takes_menu_input(bytes, a, first),
        a.resumes(first->Send_1, Response::ServerPane(info), b, second),
        b.resumes(second->Send_1, typed_reply, c, third),
        c.resumes(third->Send_1, Response::ServerPaneList(servers), d, fourth),
        d.rows().len() <= usize::MAX,
    ensures
        keeps_its_row(before, d),
        first matches Step::Send(Request::ServerSpawn { cwd }, _) && (cwd matches Some(dir) && dir@
            == listed_directory(before, field.group_server_index as int)),
        second matches Step::Send(Request::ServerSend { target, text, enter }, _) && target
            == info.id && text@ == field.text@ && enter,
        third matches Step::Send(Request::ServerList, _),
        fourth == Step::Done,
        d.attach_menu matches Some(menu) && menu.spawn_in_group is None && before.lists(
            servers@,
            menu.servers@,
        ) && menu.previously_bound == before.attach_menu->0.previously_bound,
        only_menu_differs(before, d),
{
    assert(bytes.len() == 6);
    assert(bytes =~= crate::keys::framed(seq![0x73u8]));
    assert(seq![0x0du8].len() == 1 && seq![0x0au8].len() == 1);
    has_rows(d);
}

/// A field without text types nothing: after the shell is there, and shown if it is
/// to be, the menu closes or lists anew.
pub proof fn an_empty_field_types_nothing(
    before: App,
    field: SpawnInGroupState,
    a: App,
    first: Step,
    info: ServerPaneInfo,
    b: App,
    second: Step,
    shown_reply: Response,
    c: App,
    third: Step,
)
    requires
        before.attach_menu matches Some(menu) && menu.rename is None && menu.spawn_in_group == Some(
            field,
        ),
        before.focused is Some,
        field.text@.len() == 0,
        before.takes_menu_input(seq![0x0du8], a, first),
        a.resumes(first->Send_1, Response::ServerPane(info), b, second),
        b.resumes(second->Send_1, shown_reply, c, third),
    ensures
        second is Send,
        shows_in_focus(before, info.id, before.attach_menu->0.adding_tab, second->Send_0),
        third == Step::Done,
        c.attach_menu is None,
{
}

/// `p` on a header or a server-pane pins or unpins its directory, takes over the
/// pins that come back, and lists anew by them; on a row that spawns it does
/// nothing.
pub proof fn the_pin_key_pins_the_rows_directory(
    before: App,
    row: AttachMenuRow,
    bytes: Seq<u8>,
    a: App,
    first: Step,
    pins: Vec<String>,
    b: App,
    second: Step,
    servers: Vec<ServerPaneInfo>,
    c: App,
    third: Step,
)
    requires
        browses_on(before, row),
        presses(bytes, 'p' as u8),
        before.takes_menu_input(bytes, a, first),
        row is GroupHeader || row is Server ==> a.resumes(
            first->Send_1,
            Response::PinnedDirsList(pins),
            b,
            second,
        ) && b.resumes(second->Send_1, Response::ServerPaneList(servers), c, third),
        c.rows().len() <= usize::MAX,
    ensures
        match row {
            AttachMenuRow::GroupHeader(i) | AttachMenuRow::Server(i) => {
                &&& first matches Step::Send(Request::ToggleDirectoryPin { directory }, _)
                    && directory@ == listed_directory(before, i as int)
                &&& second matches Step::Send(Request::ServerList, _)
                &&& third == Step::Done
                &&& keeps_its_row(before, c)
                &&& c.pinned_dirs == pins
                &&& c.attach_menu matches Some(menu) && c.lists(servers@, menu.servers@)
                &&& c == App { pinned_dirs: pins, attach_menu: c.attach_menu, ..before }
            },
            _ => a == before && first == Step::Done,
        },
{
    single_keys_differ(bytes);
}

/// `f` switches between coding tools only and everything, and lists anew by the new
/// setting.
pub proof fn the_filter_key_lists_by_the_new_filter(
    before: App,
    row: AttachMenuRow,
    bytes: Seq<u8>,
    a: App,
    first: Step,
    servers: Vec<ServerPaneInfo>,
    b: App,
    second: Step,
)
    requires
        browses_on(before, row),
        presses(bytes, 'f' as u8),
        before.takes_menu_input(bytes, a, first),
        a.resumes(first->Send_1, Response::ServerPaneList(servers), b, second),
        b.rows().len() <= usize::MAX,
    ensures
        keeps_its_row(before, b),
        first matches Step::Send(Request::ServerList, _),
        second == Step::Done,
        b.agents_only_view == !before.agents_only_view,
        b.attach_menu matches Some(menu) && b.lists(servers@, menu.servers@),
        b == (App {
            agents_only_view: b.agents_only_view,
            attach_menu: b.attach_menu,
            ..before
        }),
{
    has_rows(b);
    single_keys_differ(bytes);
}

/// `g` switches between groups and a flat list, and sends nothing.
pub proof fn the_group_key_switches_the_view(
    before: App,
    row: AttachMenuRow,
    bytes: Seq<u8>,
    after: App,
    step: Step,
)
    requires
        browses_on(before, row),
        presses(bytes, 'g' as u8),
        before.takes_menu_input(bytes, after, step),
        after.rows().len() <= usize::MAX,
    ensures
        keeps_its_row(before, after),
        step == Step::Done,
        after.grouped_view == !before.grouped_view,
        after.attach_menu matches Some(menu) && menu.servers == before.attach_menu->0.servers,
        after == (App {
            grouped_view: after.grouped_view,
            attach_menu: after.attach_menu,
            ..before
        }),
{
    has_rows(after);
    single_keys_differ(bytes);
}

/// `d` closes the menu and detaches the focused pane's tabs one after the other,
/// until the pane has none; nothing is given back.
pub proof fn the_detach_key_detaches_every_tab(
    before: App,
    row: AttachMenuRow,
    bytes: Seq<u8>,
    a: App,
    first: Step,
    focused: ClientPaneId,
)
    requires
        browses_on(before, row),
        presses(bytes, 'd' as u8),
        before.takes_menu_input(bytes, a, first),
        before.focused == Some(focused),
    ensures
        a.attach_menu is None,
        only_menu_differs(before, a),
        match before.workspace.pane(focused) {
            Some(leaf) if leaf.tabs@.len() > 0 => first matches Step::Send(
                Request::ClientUnbind { workspace, pane },
                Pending::Detaching { pane: again, left },
            ) && workspace == before.workspace.id && pane == focused && again == focused && left
                == 63,
            _ => first == Step::Done,
        },
{
    single_keys_differ(bytes);
}

/// Each reply to a detachment leads to the next, for as long as the pane has a tab
/// and up to the limit.
pub proof fn detaching_goes_on_while_tabs_remain(
    app: App,
    focused: ClientPaneId,
    left: u8,
    response: Response,
    after: App,
    step: Step,
)
    requires
        app.resumes(Pending::Detaching { pane: focused, left }, response, after, step),
    ensures
        after == app,
        match app.workspace.pane(focused) {
            Some(leaf) if leaf.tabs@.len() > 0 && left > 0 => step matches Step::Send(
                Request::ClientUnbind { workspace, pane },
                Pending::Detaching { pane: again, left: fewer },
            ) && workspace == app.workspace.id && pane == focused && again == focused && fewer + 1
                == left,
            _ => step == Step::Done,
        },
{
}

/// Escape closes the menu and shows in the focused pane again what it showed before
/// the menu opened, if that was detached for it.
pub proof fn escape_gives_back_what_was_shown(
    before: App,
    row: AttachMenuRow,
    bytes: Seq<u8>,
    after: App,
    step: Step,
)
    requires
        browses_on(before, row),
        presses(bytes, 0x1b),
        before.takes_menu_input(bytes, after, step),
    ensures
        after.attach_menu is None,
        only_menu_differs(before, after),
        match (before.focused, before.attach_menu->0.previously_bound) {
            (Some(id), Some(was)) => step matches Step::Send(
                Request::ClientBind { workspace, pane, target },
                _,
            ) && workspace == before.workspace.id && pane == id && target == was,
            _ => step == Step::Done,
        },
{
    single_keys_differ(bytes);
}

/// `q` leaves the program, and no other key does.
pub proof fn only_the_quit_key_quits(
    before: App,
    row: AttachMenuRow,
    bytes: Seq<u8>,
    after: App,
    step: Step,
)
    requires
        browses_on(before, row),
        before.takes_menu_input(bytes, after, step),
    ensures
        step == Step::Quit <==> presses(bytes, 'q' as u8),
        step == Step::Quit ==> after == before,
{
    if bytes.len() == 1 {
        single_keys_differ(bytes);
    }
    if presses(bytes, 'q' as u8) {
        assert(bytes != seq![0x0du8] && bytes != seq![0x0au8] && bytes != seq![0x1bu8]);
    }
}

/// On a row that names no server-pane, `x` and `r` do nothing.
pub proof fn only_panes_are_deleted_or_renamed(
    before: App,
    row: AttachMenuRow,
    bytes: Seq<u8>,
    after: App,
    step: Step,
)
    requires
        browses_on(before, row),
        !(row is Server),
        presses(bytes, 'x' as u8) || presses(bytes, 'r' as u8),
        before.takes_menu_input(bytes, after, step),
    ensures
        after == before,
        step == Step::Done,
{
    single_keys_differ(bytes);
}

/// The directory that a server-pane runs in, if it is known.
pub open spec fn directory_of(server: ServerPaneInfo) -> Option<Seq<char>> {
    match server.foreground {
        Some(process) => match process.cwd {
            Some(cwd) => Some(cwd@),
            None => None,
        },
        None => None,
    }
}

/// Whether the foreground process is a recognised coding tool.
pub open spec fn runs_a_tool(server: ServerPaneInfo) -> bool {
    server.foreground matches Some(process) && process.session_kind is Some
}

/// The menu lists exactly what the daemon has, or of that the coding tools only,
/// each under its directory, or under "Unknown".
pub proof fn the_menu_lists_what_there_is(
    app: App,
    servers: Seq<ServerPaneInfo>,
    listed: Seq<Listed>,
    server: ServerPaneInfo,
)
    requires
        app.lists(servers, listed),
    ensures
        infos(listed).contains(server) <==> servers.contains(server) && (app.agents_only_view
            ==> runs_a_tool(server)),
        forall|i: int|
            0 <= i < listed.len() ==> (#[trigger] listed[i]).0@ == match directory_of(listed[i].1) {
                Some(directory) => directory,
                None => "Unknown"@,
            },
{
    let kept = shown(servers, app.agents_only_view);
    grouping_keeps_every_pane(kept, listed, views(app.pinned_dirs@), server);
    if app.agents_only_view {
        let p = |s: ServerPaneInfo| is_agent(s);
        if servers.contains(server) && is_agent(server) {
            let i = choose|i: int| 0 <= i < servers.len() && servers[i] == server;
            servers.lemma_filter_contains(p, i);
        }
        if kept.contains(server) {
            let i = choose|i: int| 0 <= i < kept.len() && kept[i] == server;
            servers.lemma_filter_pred(p, i);
            servers.lemma_filter_contains_rev(p, server);
        }
    }
}

/// The server-panes of one directory are listed in the order in which the daemon
/// has them.
pub proof fn a_group_keeps_the_daemons_order(
    app: App,
    servers: Seq<ServerPaneInfo>,
    listed: Seq<Listed>,
    directory: Option<Seq<char>>,
)
    requires
        app.lists(servers, listed),
        directory != Some("Unknown"@),
        !app.agents_only_view,
        forall|i: int| 0 <= i < servers.len() ==> directory_of(#[trigger] servers[i]) != Some(
            "Unknown"@,
        ),
    ensures
        infos(listed).filter(|s: ServerPaneInfo| directory_of(s) == directory) == servers.filter(
            |s: ServerPaneInfo| directory_of(s) == directory,
        ),
{
    let key = match directory {
        Some(d) => d,
        None => "Unknown"@,
    };
    let p = |s: ServerPaneInfo| directory_of(s) == directory;
    let g = |s: ServerPaneInfo| group_key(s) == key;
    let all = infos(listed);
    assert(group_members(all, key) == group_members(servers, key));
    assert forall|i: int| 0 <= i < all.len() implies directory_of(#[trigger] all[i]) != Some(
        "Unknown"@,
    ) by {
        the_menu_lists_what_there_is(app, servers, listed, all[i]);
        assert(all.contains(all[i]));
        let j = choose|j: int| 0 <= j < servers.len() && servers[j] == all[i];
        assert(directory_of(servers[j]) != Some("Unknown"@));
    }
    filters_agree(all, p, g);
    filters_agree(servers, p, g);
}

proof fn filters_agree(
    s: Seq<ServerPaneInfo>,
    p: spec_fn(ServerPaneInfo) -> bool,
    g: spec_fn(ServerPaneInfo) -> bool,
)
    requires
        forall|i: int| 0 <= i < s.len() ==> p(#[trigger] s[i]) == g(s[i]),
    ensures
        s.filter(p) == s.filter(g),
    decreases s.len(),
{
    reveal(Seq::filter);
    if s.len() > 0 {
        let rest = s.drop_last();
        assert forall|i: int| 0 <= i < rest.len() implies p(#[trigger] rest[i]) == g(rest[i]) by {
            assert(rest[i] == s[i]);
        }
        filters_agree(rest, p, g);
        assert(s.last() == s[s.len() - 1]);
    }
}

/// Of two listed server-panes of different directories the first one's directory is
/// known. If the second's is pinned, then the first's is, and earlier; if neither
/// is, then the first's comes first by name.
pub proof fn groups_stand_in_order(
    app: App,
    servers: Seq<ServerPaneInfo>,
    listed: Seq<Listed>,
    i: int,
    j: int,
)
    requires
        app.lists(servers, listed),
        0 <= i < j < listed.len(),
        listed[i].0@ != listed[j].0@,
    ensures
        listed[i].0@ != "Unknown"@,
        listed[j].0@ != "Unknown"@ ==> {
            let pins = views(app.pinned_dirs@);
            let a = listed[i].0@;
            let b = listed[j].0@;
            &&& forall|n: int|
                0 <= n < pins.len() && #[trigger] pins[n] == b ==> exists|m: int|
                    0 <= m < n && #[trigger] pins[m] == a
            &&& !pins.contains(a) && !pins.contains(b) ==> text_before(a, b)
        },
{
    let pins = views(app.pinned_dirs@);
    let a = listed[i].0@;
    let b = listed[j].0@;
    let all = infos(listed);
    assert(all[i] == listed[i].1 && all[j] == listed[j].1);
    assert(group_key(all[i]) == a && group_key(all[j]) == b);
    assert(!group_before(group_key(all[j]), group_key(all[i]), pins));
    group_before_total(a, b, pins);
    assert(group_before(a, b, pins));
    let p = pinned_as(a, pins);
    let q = pinned_as(b, pins);
    crate::bytes::first_where_props(p, 0, pins.len() as int);
    crate::bytes::first_where_props(q, 0, pins.len() as int);
    if b != "Unknown"@ {
        assert forall|n: int| 0 <= n < pins.len() && #[trigger] pins[n] == b implies exists|m: int|
            0 <= m < n && #[trigger] pins[m] == a by {
            assert(q(n));
            assert(pin_rank(b, pins) <= n);
            let m = pin_rank(a, pins);
            if m == pin_rank(b, pins) {
                assert(p(m) && q(m));
            }
            assert(pins[m] == a);
        }
        if !pins.contains(a) && !pins.contains(b) {
            if pin_rank(a, pins) < pins.len() {
                assert(pins[pin_rank(a, pins)] == a);
            }
            if pin_rank(b, pins) < pins.len() {
                assert(pins[pin_rank(b, pins)] == b);
            }
        }
    }
}

/// The server-panes of one directory stand together.
pub proof fn groups_stand_together(
    app: App,
    servers: Seq<ServerPaneInfo>,
    listed: Seq<Listed>,
    i: int,
    k: int,
    j: int,
)
    requires
        app.lists(servers, listed),
        0 <= i < k < j < listed.len(),
        listed[i].0@ == listed[j].0@,
    ensures
        listed[k].0@ == listed[i].0@,
{
    let pins = views(app.pinned_dirs@);
    let all = infos(listed);
    assert(all[i] == listed[i].1 && all[j] == listed[j].1 && all[k] == listed[k].1);
    assert(group_key(all[i]) == listed[i].0@ && group_key(all[j]) == listed[j].0@ && group_key(
        all[k],
    ) == listed[k].0@);
    assert(!group_before(group_key(all[k]), group_key(all[i]), pins));
    assert(!group_before(group_key(all[j]), group_key(all[k]), pins));
    group_before_total(listed[i].0@, listed[k].0@, pins);
}

/// Names are ordered by their first different byte; the start of a name comes before
/// the whole of it.
pub proof fn names_are_ordered_by_their_first_difference(a: Seq<u8>, b: Seq<u8>, n: int)
    requires
        0 <= n <= a.len(),
        n <= b.len(),
        forall|i: int| 0 <= i < n ==> #[trigger] a[i] == b[i],
    ensures
        n < a.len() && n < b.len() && a[n] != b[n] ==> bytes_before(a, b) == (a[n] < b[n]),
        n == a.len() ==> bytes_before(a, b) == (n < b.len()),
        n == b.len() ==> !bytes_before(a, b),
    decreases n,
{
    if n > 0 {
        assert(a[0] == b[0]);
        let x = a.skip(1);
        let y = b.skip(1);
        assert forall|i: int| 0 <= i < n - 1 implies #[trigger] x[i] == y[i] by {
            assert(a[i + 1] == b[i + 1]);
        }
        names_are_ordered_by_their_first_difference(x, y, n - 1);
    }
}

/// In a grouped menu the first row is the first group's header. A server-pane's row
/// stands below its group's header, or below the server-pane before it. A group's
/// "spawn new" row stands below a server-pane of that group.
pub proof fn rows_stand_in_order(ks: Seq<Seq<char>>, collapsed: Set<Seq<char>>, r: int)
    requires
        ks.len() <= usize::MAX,
        0 <= r < menu_rows(ks, collapsed, true).len(),
    ensures
        ({
            let rows = menu_rows(ks, collapsed, true);
            match rows[r] {
                AttachMenuRow::Server(i) => r > 0 && i < ks.len() && rows[r - 1] == (if i > 0
                    && ks[i - 1] == ks[i as int] {
                    AttachMenuRow::Server((i - 1) as usize)
                } else {
                    AttachMenuRow::GroupHeader(i)
                }),
                AttachMenuRow::SpawnNewInGroup(i) => r > 0 && i < ks.len() && (
                rows[r - 1] matches AttachMenuRow::Server(k) && k < ks.len() && i <= k && ks[k as int]
                    == ks[i as int] && (k + 1 == ks.len() || ks[k + 1] != ks[k as int])),
                AttachMenuRow::GroupHeader(i) => i < ks.len() && (i > 0 ==> ks[i - 1] != ks[i as int])
                    && (r == 0 <==> i == 0),
                AttachMenuRow::SpawnNew => r == rows.len() - 1,
            }
        }),
{
    let n = ks.len() as int;
    let grouped = grouped_rows(ks, collapsed, n);
    rows_stand_in_order_up_to(ks, collapsed, n);
    let rows = menu_rows(ks, collapsed, true);
    if r < grouped.len() {
        assert(rows[r] == grouped[r]);
        if r > 0 {
            assert(rows[r - 1] == grouped[r - 1]);
        }
        assert(stands_in_order(ks, grouped, r));
    }
}

/// Whether the row `r` stands where it belongs.
spec fn stands_in_order(ks: Seq<Seq<char>>, rows: Seq<AttachMenuRow>, r: int) -> bool {
    match rows[r] {
        AttachMenuRow::Server(i) => r > 0 && i < ks.len() && rows[r - 1] == (if i > 0 && ks[i - 1]
            == ks[i as int] {
            AttachMenuRow::Server((i - 1) as usize)
        } else {
            AttachMenuRow::GroupHeader(i)
        }),
        AttachMenuRow::SpawnNewInGroup(i) => r > 0 && i < ks.len() && (
        rows[r - 1] matches AttachMenuRow::Server(k) && k < ks.len() && i <= k && ks[k as int]
            == ks[i as int] && (k + 1 == ks.len() || ks[k + 1] != ks[k as int])),
        AttachMenuRow::GroupHeader(i) => i < ks.len() && (i > 0 ==> ks[i - 1] != ks[i as int]) && (r
            == 0 <==> i == 0),
        AttachMenuRow::SpawnNew => false,
    }
}

#[verifier::spinoff_prover]
#[verifier::rlimit(40)]
proof fn rows_stand_in_order_up_to(ks: Seq<Seq<char>>, collapsed: Set<Seq<char>>, n: int)
    requires
        0 <= n <= ks.len() <= usize::MAX,
    ensures
        ({
            let rows = grouped_rows(ks, collapsed, n);
            &&& forall|r: int| 0 <= r < rows.len() ==> #[trigger] stands_in_order(ks, rows, r)
            &&& n > 0 ==> rows.len() > 0
            &&& n > 0 && !collapsed.contains(ks[n - 1]) && !(n == ks.len() || ks[n - 1] != ks[n])
                ==> rows.last() == AttachMenuRow::Server((n - 1) as usize)
        }),
    decreases n,
{
    if n > 0 {
        rows_stand_in_order_up_to(ks, collapsed, n - 1);
        let before = grouped_rows(ks, collapsed, n - 1);
        let new = rows_of(ks, collapsed, n - 1);
        let rows = grouped_rows(ks, collapsed, n);
        let m = before.len() as int;
        start_is_in_group(ks, n - 1);
        assert forall|r: int| 0 <= r < rows.len() implies #[trigger] stands_in_order(
            ks,
            rows,
            r,
        ) by {
            if r < m {
                assert(stands_in_order(ks, before, r));
                assert(rows[r] == before[r]);
                if r > 0 {
                    assert(rows[r - 1] == before[r - 1]);
                }
            } else {
                let starts = starts_group(ks, n - 1);
                let k: int = r - m;
                assert(rows[r] == new[k]);
                if k == 0 && starts {
                    assert(new[k] == AttachMenuRow::GroupHeader((n - 1) as usize));
                } else if k == 0 {
                    assert(new[k] == AttachMenuRow::Server((n - 1) as usize));
                    assert(rows[r - 1] == before[m - 1]);
                    assert(before.last() == before[m - 1]);
                } else if k == 1 && starts {
                    assert(new[k] == AttachMenuRow::Server((n - 1) as usize));
                    assert(rows[r - 1] == new[0]);
                } else {
                    assert(new[k] == AttachMenuRow::SpawnNewInGroup(
                        crate::menu::group_start(ks, n - 1) as usize,
                    ));
                    assert(rows[r - 1] == new[k - 1]);
                    assert(new[k - 1] == AttachMenuRow::Server((n - 1) as usize));
                }
            }
        }
        if !collapsed.contains(ks[n - 1]) && !(n == ks.len() || ks[n - 1] != ks[n]) {
            assert(new.last() == AttachMenuRow::Server((n - 1) as usize));
            assert(rows.last() == new.last());
        }
    }
}

proof fn start_is_in_group(ks: Seq<Seq<char>>, i: int)
    requires
        0 <= i < ks.len(),
    ensures
        0 <= crate::menu::group_start(ks, i) <= i,
        ks[crate::menu::group_start(ks, i)] == ks[i],
    decreases i,
{
    if i > 0 && !starts_group(ks, i) {
        start_is_in_group(ks, i - 1);
    }
}

/// After a pane was detached that is not listed, or without one, the menu opens at
/// the top; where its group is collapsed, it opens on that group's header.
pub proof fn the_menu_opens_at_the_group_or_the_top(
    servers: Seq<Listed>,
    collapsed: Set<Seq<char>>,
    is_grouped: bool,
    bound: Option<ServerPaneId>,
)
    requires
        servers.len() <= usize::MAX,
    ensures
        ({
            let rows = menu_rows(keys(servers), collapsed, is_grouped);
            let r = initial_selection(servers, rows, bound);
            &&& bound is None ==> r == 0
            &&& (forall|i: int|
                0 <= i < servers.len() ==> Some((#[trigger] servers[i]).1.id) != bound) ==> r == 0
            &&& forall|at: int|
                0 <= at < servers.len() && Some((#[trigger] servers[at]).1.id) == bound && is_grouped
                    && collapsed.contains(servers[at].0@) && (forall|j: int|
                    0 <= j < at ==> (#[trigger] servers[j]).1.id != servers[at].1.id) ==> 0 <= r
                    < rows.len() && (rows[r] matches AttachMenuRow::GroupHeader(h) && h
                    < servers.len() && servers[h as int].0@ == servers[at].0@)
        }),
{
    let rows = menu_rows(keys(servers), collapsed, is_grouped);
    if let Some(id) = bound {
        let p = |i: int| servers[i].1.id == id;
        crate::bytes::first_where_props(p, 0, servers.len() as int);
        assert forall|at: int|
            0 <= at < servers.len() && Some((#[trigger] servers[at]).1.id) == bound && is_grouped
                && collapsed.contains(servers[at].0@) && (forall|j: int|
                0 <= j < at ==> (#[trigger] servers[j]).1.id != servers[at].1.id) implies 0
            <= initial_selection(servers, rows, bound) < rows.len() && (rows[initial_selection(
            servers,
            rows,
            bound,
        )] matches AttachMenuRow::GroupHeader(h) && h < servers.len() && servers[h as int].0@
            == servers[at].0@) by {
            crate::bytes::first_where_is(p, 0, servers.len() as int, at);
            collapse_hides_all_but_the_header(keys(servers), collapsed, at);
            start_is_in_group(keys(servers), at);
            let q = |r: int| rows[r] == AttachMenuRow::Server(at as usize);
            crate::bytes::first_where_props(q, 0, rows.len() as int);
            assert(!rows.contains(AttachMenuRow::Server(at as usize)));
            let h = |r: int| is_header_of(servers, rows[r], at);
            crate::bytes::first_where_props(h, 0, rows.len() as int);
            let start = crate::menu::group_start(keys(servers), at);
            let r = choose|r: int|
                0 <= r < rows.len() && rows[r] == AttachMenuRow::GroupHeader(start as usize);
            assert(keys(servers)[start] == servers[start].0@);
            assert(h(r));
        }
    }
}

/// Any other key does nothing while the menu is browsed.
pub proof fn other_keys_do_nothing(
    before: App,
    row: AttachMenuRow,
    bytes: Seq<u8>,
    after: App,
    step: Step,
)
    requires
        browses_on(before, row),
        before.takes_menu_input(bytes, after, step),
        bytes != seq![0x1bu8, 0x5b, 0x41] && bytes != seq![0x1bu8, 0x5b, 0x42],
        !presses_enter(bytes) && !presses(bytes, 0x1b),
        !presses(bytes, 'j' as u8) && !presses(bytes, 'k' as u8) && !presses(bytes, 'x' as u8),
        !presses(bytes, 'r' as u8) && !presses(bytes, 'p' as u8) && !presses(bytes, 'f' as u8),
        !presses(bytes, 'g' as u8) && !presses(bytes, 'd' as u8) && !presses(bytes, 'q' as u8),
        row is SpawnNewInGroup ==> !presses(bytes, ' ' as u8),
    ensures
        after == before,
        step == Step::Done,
{
    assert(seq![0x0du8].len() == 1 && seq![0x0au8].len() == 1 && seq![0x1bu8].len() == 1);
    if bytes.len() == 1 {
        single_keys_differ(bytes);
    }
}

/// The key that disarms a deletion is not lost: it does what it does on that row
/// anyway.
pub proof fn a_disarming_key_is_not_lost(
    before: App,
    disarmed: App,
    bytes: Seq<u8>,
    after: App,
    step: Step,
)
    requires
        before.attach_menu matches Some(menu) && menu.pending_delete is Some && menu.rename is None
            && menu.spawn_in_group is None,
        disarmed == (App {
            attach_menu: Some(
                crate::menu::AttachMenu { pending_delete: None, ..before.attach_menu->0 },
            ),
            ..before
        }),
        !(before.selected_row() matches Some(AttachMenuRow::SpawnNewInGroup(_))),
        !presses(bytes, 'x' as u8) && !presses_enter(bytes),
        before.takes_menu_input(bytes, after, step),
    ensures
        disarmed.takes_menu_input(bytes, after, step),
{
    assert(seq![0x0du8].len() == 1 && seq![0x0au8].len() == 1);
    if bytes.len() == 1 {
        single_keys_differ(bytes);
    }
    assert(disarmed.rows() == before.rows());
    assert(disarmed.selected_row() == before.selected_row());
}

/// What is typed while a field is open stands in the field at its cursor, and dismisses
/// the complaint about it.
pub proof fn typing_fills_the_open_field(
    before: App,
    typed: Seq<char>,
    after: App,
    step: Step,
)
    requires
        before.attach_menu matches Some(menu) && menu.wf() && (menu.rename is Some
            || menu.spawn_in_group is Some),
        typed.len() > 0,
        forall|i: int| 0 <= i < typed.len() ==> ' ' <= #[trigger] typed[i] <= '~',
        before.takes_menu_input(encode_utf8(typed), after, step),
    ensures
        step == Step::Done,
        only_menu_differs(before, after),
        after.attach_menu is Some,
        match (before.attach_menu->0.rename, before.attach_menu->0.spawn_in_group) {
            (Some(old_field), _) => after.attach_menu->0.rename matches Some(field) && field.index
                == old_field.index && field.error is None && typed_into(
                old_field.text@,
                old_field.cursor as int,
                typed,
                field.text@,
                field.cursor as int,
            ),
            (None, Some(old_field)) => after.attach_menu->0.spawn_in_group matches Some(field)
                && field.group_server_index == old_field.group_server_index && field.error is None
                && typed_into(
                old_field.text@,
                old_field.cursor as int,
                typed,
                field.text@,
                field.cursor as int,
            ),
            _ => true,
        },
{
    let bytes = encode_utf8(typed);
    assert(vstd::utf8::is_ascii_chars(typed)) by {
        assert forall|i: int| 0 <= i < typed.len() implies '\0' <= #[trigger] typed[i]
            <= '\u{7f}' by {
            assert(' ' <= typed[i] <= '~');
        }
    }
    vstd::utf8::is_ascii_chars_encode_utf8(typed);
    vstd::utf8::encode_utf8_decode_utf8(typed);
    vstd::utf8::encode_utf8_valid_utf8(typed);
    assert(bytes[0] == typed[0] as u8);
    assert(0x20 <= bytes[0] <= 0x7e);
    assert(seq![0x0du8][0] == 0x0d && seq![0x0au8][0] == 0x0a && seq![0x1bu8][0] == 0x1b);
    assert(crate::keys::framed(seq![0x73u8])[0] == 0x1b);
    assert(seq![0x7fu8][0] == 0x7f && seq![0x08u8][0] == 0x08);
    assert(seq![0x1bu8, 0x5b, 0x33, 0x7e][0] == 0x1b && seq![0x1bu8, 0x5b, 0x44][0] == 0x1b
        && seq![0x1bu8, 0x5b, 0x43][0] == 0x1b && seq![0x1bu8, 0x5b, 0x48][0] == 0x1b
        && seq![0x1bu8, 0x5b, 0x31, 0x7e][0] == 0x1b && seq![0x1bu8, 0x5b, 0x46][0] == 0x1b
        && seq![0x1bu8, 0x5b, 0x34, 0x7e][0] == 0x1b);
    let (text, cursor) = match before.attach_menu->0.rename {
        Some(field) => (field.text@, field.cursor as int),
        None => (
            before.attach_menu->0.spawn_in_group->0.text@,
            before.attach_menu->0.spawn_in_group->0.cursor as int,
        ),
    };
    let k = cursor_index(text, cursor);
    assert(stands_at(text, cursor, k));
    let t = text.take(k) + typed + text.skip(k);
    let new_cursor = match after.attach_menu->0.rename {
        Some(field) => field.cursor as int,
        None => after.attach_menu->0.spawn_in_group->0.cursor as int,
    };
    assert(stands_at(t, new_cursor, k + typed.len()));
}

/// Whether `filled` is `text` with `typed` put in at the cursor, which ends up behind
/// it.
pub open spec fn typed_into(
    text: Seq<char>,
    cursor: int,
    typed: Seq<char>,
    filled: Seq<char>,
    new_cursor: int,
) -> bool {
    exists|k: int| #[trigger]
        stands_at(text, cursor, k) && filled == text.take(k) + typed + text.skip(k) && stands_at(
            filled,
            new_cursor,
            k + typed.len(),
        )
}

} // verus!
