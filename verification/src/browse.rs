//! What the keys of the attach menu do.

use crate::app::{clamped_row, App, Pending, Step, MAX_DETACHED_TABS};
use crate::edit::stands_at;
use crate::keys::{is_shift_enter, shift_enter_pressed};
use crate::menu::{
    apply_rename_edit, apply_spawn_in_group_edit, down_pressed, enter_pressed, escape_pressed,
    is_down, is_enter, is_escape, is_key, is_up, key_pressed, menu_action, parse_attach_menu_input,
    up_pressed, AttachMenu, AttachMenuAction, AttachMenuRow, RenameState, SpawnInGroupState,
};
use crate::protocol::{ClientPaneId, Request, ServerPaneId};
use crate::text::byte_offset;
use vstd::prelude::*;

verus! {

impl App {
    /// The menu closed.
    pub open spec fn menu_closed(self) -> App {
        App { attach_menu: None, ..self }
    }

    /// The selection moved onto the last row if it is behind it.
    pub open spec fn clamped(self) -> App {
        match self.attach_menu {
            Some(menu) => self.selecting(
                clamped_row(menu.selected, self.rows().len() as int) as int,
            ),
            None => self,
        }
    }

    /// Move the selection onto the last row if it is behind it.
    pub fn clamp_selection(&mut self)
        ensures
            *final(self) == old(self).clamped(),
            old(self).wf() ==> final(self).wf(),
    {
        if self.attach_menu.is_none() {
            return ;
        }
        let n = self.row_count();
        match &mut self.attach_menu {
            None => {},
            Some(menu) => {
                if menu.selected >= n {
                    menu.selected = n - 1;
                }
            },
        }
    }

    /// Whether `after` is this state with the group of the listed server-pane
    /// `i` collapsed, or expanded if it was.
    pub open spec fn toggles_group(self, i: int, after: App) -> bool {
        match self.attach_menu {
            None => after == self,
            Some(menu) => {
                let key = menu.servers@[i].0@;
                &&& after.collapsed_groups@ == if self.collapsed_groups@.contains(key) {
                    self.collapsed_groups@.remove(key)
                } else {
                    self.collapsed_groups@.insert(key)
                }
                &&& after == (App {
                    collapsed_groups: after.collapsed_groups,
                    ..self
                }).clamped()
            },
        }
    }

    /// Collapse the group of the listed server-pane `server_index`, or expand it.
    pub fn toggle_group_collapse(&mut self, server_index: usize)
        requires
            old(self).attach_menu matches Some(menu) ==> server_index < menu.servers@.len(),
        ensures
            old(self).toggles_group(server_index as int, *final(self)),
            old(self).wf() ==> final(self).wf(),
    {
        let key = match &self.attach_menu {
            None => {
                return ;
            },
            Some(menu) => menu.servers[server_index].0.clone(),
        };
        let ghost before = self.collapsed_groups@;
        if !self.collapsed_groups.remove(key.as_str()) {
            let _ = self.collapsed_groups.insert(key);
            assert(self.collapsed_groups@ =~= before.insert(key@));
        }
        self.clamp_selection();
    }

    /// Groups shown, or a flat list if they were.
    pub open spec fn regrouped(self) -> App {
        (App { grouped_view: !self.grouped_view, ..self }).clamped()
    }

    /// Switch between groups and a flat list.
    pub fn toggle_grouping(&mut self)
        ensures
            *final(self) == old(self).regrouped(),
            old(self).wf() ==> final(self).wf(),
    {
        self.grouped_view = !self.grouped_view;
        self.clamp_selection();
    }

    /// The deletion of the selected server-pane armed.
    pub open spec fn delete_armed(self) -> App {
        match (self.selected_row(), self.attach_menu) {
            (Some(AttachMenuRow::Server(i)), Some(menu)) => App {
                attach_menu: Some(
                    AttachMenu {
                        pending_delete: Some(i),
                        rename: None,
                        spawn_in_group: None,
                        ..menu
                    },
                ),
                ..self
            },
            _ => self,
        }
    }

    /// Arm the deletion of the selected server-pane. Nothing happens on other
    /// rows.
    pub fn arm_delete(&mut self)
        ensures
            *final(self) == old(self).delete_armed(),
            old(self).wf() ==> final(self).wf(),
    {
        match self.selected_attach_menu_row() {
            Some(AttachMenuRow::Server(server_index)) => {
                match &mut self.attach_menu {
                    None => {},
                    Some(menu) => {
                        menu.pending_delete = Some(server_index);
                        menu.rename = None;
                        menu.spawn_in_group = None;
                    },
                }
            },
            _ => {},
        }
    }

    /// Whether `after` is this state with the rename field of the selected
    /// server-pane open, filled with its name, the cursor at the end.
    pub open spec fn starts_rename(self, after: App) -> bool {
        match (self.selected_row(), self.attach_menu) {
            (Some(AttachMenuRow::Server(i)), Some(menu)) => {
                &&& after.attach_menu matches Some(m)
                &&& m.rename matches Some(field)
                &&& field.index == i
                &&& field.text@ == match menu.servers@[i as int].1.name {
                    Some(name) => name@,
                    None => Seq::empty(),
                }
                &&& stands_at(field.text@, field.cursor as int, field.text@.len() as int)
                &&& field.error is None
                &&& after == App {
                    attach_menu: Some(
                        AttachMenu {
                            rename: Some(field),
                            pending_delete: None,
                            spawn_in_group: None,
                            ..menu
                        },
                    ),
                    ..self
                }
            },
            _ => after == self,
        }
    }

    /// Open the rename field of the selected server-pane. Nothing happens on
    /// other rows.
    pub fn start_rename(&mut self)
        ensures
            old(self).starts_rename(*final(self)),
            old(self).wf() ==> final(self).wf(),
    {
        match self.selected_attach_menu_row() {
            Some(AttachMenuRow::Server(server_index)) => {
                match &mut self.attach_menu {
                    None => {},
                    Some(menu) => {
                        let text = match &menu.servers[server_index].1.name {
                            Some(name) => name.clone(),
                            None => String::new(),
                        };
                        let cursor: usize = text.as_str().as_bytes().len();
                        proof {
                            assert(text@.take(text@.len() as int) =~= text@);
                            assert(stands_at(text@, cursor as int, text@.len() as int));
                        }
                        menu.rename = Some(
                            RenameState { index: server_index, text, cursor, error: None },
                        );
                        menu.pending_delete = None;
                        menu.spawn_in_group = None;
                    },
                }
            },
            _ => {},
        }
    }

    /// Whether `after` is this state with an empty field open for the group of
    /// the listed server-pane `i`.
    pub open spec fn opens_spawn_field(self, i: usize, after: App) -> bool {
        match self.attach_menu {
            Some(menu) => {
                &&& after.attach_menu matches Some(m)
                &&& m.spawn_in_group matches Some(field)
                &&& field.group_server_index == i
                &&& field.text@ == Seq::<char>::empty()
                &&& field.cursor == 0
                &&& field.error is None
                &&& after == App {
                    attach_menu: Some(
                        AttachMenu {
                            spawn_in_group: Some(field),
                            pending_delete: None,
                            rename: None,
                            ..menu
                        },
                    ),
                    ..self
                }
            },
            None => after == self,
        }
    }

    /// Open an empty field for the group of the listed server-pane `i`.
    fn open_spawn_field(&mut self, i: usize)
        requires
            old(self).attach_menu matches Some(menu) ==> i < menu.servers@.len(),
        ensures
            old(self).opens_spawn_field(i, *final(self)),
            old(self).wf() ==> final(self).wf(),
    {
        match &mut self.attach_menu {
            None => {},
            Some(menu) => {
                let text = String::new();
                proof {
                    assert(text@.take(0) =~= Seq::empty());
                    assert(byte_offset(text@, 0) == 0);
                    assert(stands_at(text@, 0, 0));
                }
                menu.spawn_in_group = Some(
                    SpawnInGroupState { group_server_index: i, text, cursor: 0, error: None },
                );
                menu.pending_delete = None;
                menu.rename = None;
            },
        }
    }

    /// The menu closed, and the focused pane given back what it was detached
    /// from.
    pub open spec fn cancelled(self) -> (App, Step) {
        let before = match self.attach_menu {
            Some(menu) => menu.previously_bound,
            None => None,
        };
        (
            self.menu_closed(),
            match (self.focused, before) {
                (Some(pane), Some(target)) => Step::Send(
                    Request::ClientBind { workspace: self.workspace.id, pane, target },
                    Pending::Discard,
                ),
                _ => Step::Done,
            },
        )
    }

    /// Close the menu and give the focused pane back what it was detached from.
    pub fn cancel_and_restore_previous_binding(&mut self) -> (r: Step)
        ensures
            (*final(self), r) == old(self).cancelled(),
            old(self).wf() ==> final(self).wf(),
    {
        let previously_bound = match self.attach_menu.take() {
            Some(menu) => menu.previously_bound,
            None => None,
        };
        match (self.focused, previously_bound) {
            (Some(pane), Some(target)) => Step::Send(
                Request::ClientBind { workspace: self.workspace.id, pane, target },
                Pending::Discard,
            ),
            _ => Step::Done,
        }
    }

    /// Detach the active tab of `pane`, if it has a tab and `left` allows.
    pub open spec fn detaching(self, pane: ClientPaneId, left: u8) -> Step {
        if left > 0 && (self.workspace.pane(pane) matches Some(leaf) && leaf.tabs@.len() > 0) {
            Step::Send(
                Request::ClientUnbind { workspace: self.workspace.id, pane },
                Pending::Detaching { pane, left: (left - 1) as u8 },
            )
        } else {
            Step::Done
        }
    }

    /// Detach the active tab of `pane`, if it has a tab and `left` allows.
    pub fn detach_next(&self, pane: ClientPaneId, left: u8) -> (r: Step)
        ensures
            r == self.detaching(pane, left),
    {
        if left == 0 {
            return Step::Done;
        }
        let still_bound = match self.workspace.find(pane) {
            Some(leaf) => leaf.tabs.len() > 0,
            None => false,
        };
        if still_bound {
            Step::Send(
                Request::ClientUnbind { workspace: self.workspace.id, pane },
                Pending::Detaching { pane, left: left - 1 },
            )
        } else {
            Step::Done
        }
    }

    /// The menu closed, and the detaching of every tab of the focused pane begun.
    pub open spec fn all_detached(self) -> (App, Step) {
        (
            self.menu_closed(),
            match self.focused {
                Some(pane) => self.detaching(pane, MAX_DETACHED_TABS),
                None => Step::Done,
            },
        )
    }

    /// Close the menu and detach every tab of the focused pane.
    pub fn detach_all_and_close_menu(&mut self) -> (r: Step)
        ensures
            (*final(self), r) == old(self).all_detached(),
            old(self).wf() ==> final(self).wf(),
    {
        self.attach_menu = None;
        match self.focused {
            Some(pane) => self.detach_next(pane, MAX_DETACHED_TABS),
            None => Step::Done,
        }
    }

    /// What shows `target` in the focused pane: as a new tab, or in place of the
    /// active one. Without a focused pane the workspace gets its first.
    pub open spec fn binding(self, target: ServerPaneId, adding_tab: bool) -> Step {
        let workspace = self.workspace.id;
        match self.focused {
            Some(pane) => if adding_tab {
                Step::Send(Request::ClientAddTab { workspace, pane, target }, Pending::Discard)
            } else {
                Step::Send(Request::ClientBind { workspace, pane, target }, Pending::Discard)
            },
            None => Step::Send(
                Request::ClientSpawn { workspace, split_of: None, dir: None, bind: Some(target) },
                Pending::ClientSpawned,
            ),
        }
    }

    /// Show `target` in the focused pane.
    pub fn bind_target(&self, target: ServerPaneId, adding_tab: bool) -> (r: Step)
        ensures
            r == self.binding(target, adding_tab),
    {
        let workspace = self.workspace.id;
        match self.focused {
            Some(pane) => {
                if adding_tab {
                    Step::Send(Request::ClientAddTab { workspace, pane, target }, Pending::Discard)
                } else {
                    Step::Send(Request::ClientBind { workspace, pane, target }, Pending::Discard)
                }
            },
            None => Step::Send(
                Request::ClientSpawn { workspace, split_of: None, dir: None, bind: Some(target) },
                Pending::ClientSpawned,
            ),
        }
    }

    /// The selected row picked, and the menu closed: an existing server-pane is
    /// shown, a new one is spawned first.
    pub open spec fn confirmed(self) -> (App, Step) {
        match (self.selected_row(), self.attach_menu) {
            (Some(row), Some(menu)) => (
                self.menu_closed(),
                match row {
                    AttachMenuRow::Server(i) => self.binding(
                        menu.servers@[i as int].1.id,
                        menu.adding_tab,
                    ),
                    AttachMenuRow::SpawnNew => Step::Send(
                        Request::ServerSpawn { cwd: None },
                        Pending::MenuSpawned { adding_tab: menu.adding_tab },
                    ),
                    AttachMenuRow::SpawnNewInGroup(i) => Step::Send(
                        Request::ServerSpawn { cwd: Some(menu.servers@[i as int].0) },
                        Pending::MenuSpawned { adding_tab: menu.adding_tab },
                    ),
                    AttachMenuRow::GroupHeader(_) => Step::Done,
                },
            ),
            _ => (self, Step::Done),
        }
    }

    /// Pick the selected row and close the menu.
    pub fn confirm_attach_menu(&mut self) -> (r: Step)
        ensures
            (*final(self), r) == old(self).confirmed(),
            old(self).wf() ==> final(self).wf(),
    {
        let row = match self.selected_attach_menu_row() {
            Some(row) => row,
            None => {
                return Step::Done;
            },
        };
        match self.attach_menu.take() {
            None => Step::Done,
            Some(menu) => match row {
                AttachMenuRow::Server(i) => self.bind_target(
                    menu.servers[i].1.id,
                    menu.adding_tab,
                ),
                AttachMenuRow::SpawnNew => Step::Send(
                    Request::ServerSpawn { cwd: None },
                    Pending::MenuSpawned { adding_tab: menu.adding_tab },
                ),
                AttachMenuRow::SpawnNewInGroup(i) => Step::Send(
                    Request::ServerSpawn { cwd: Some(menu.servers[i].0.clone()) },
                    Pending::MenuSpawned { adding_tab: menu.adding_tab },
                ),
                AttachMenuRow::GroupHeader(_) => Step::Done,
            },
        }
    }

    /// Whether `after` and `step` are what Enter does: a header's group is
    /// collapsed or expanded, any other row is picked.
    pub open spec fn confirms_or_toggles(self, after: App, step: Step) -> bool {
        match self.selected_row() {
            Some(AttachMenuRow::GroupHeader(i)) => self.toggles_group(i as int, after) && step
                == Step::Done,
            _ => (after, step) == self.confirmed(),
        }
    }

    /// Collapse or expand the selected group, or pick the selected row.
    pub fn confirm_or_toggle_attach_menu(&mut self) -> (r: Step)
        ensures
            old(self).confirms_or_toggles(*final(self), r),
            old(self).wf() ==> final(self).wf(),
    {
        match self.selected_attach_menu_row() {
            Some(AttachMenuRow::GroupHeader(i)) => {
                self.toggle_group_collapse(i);
                Step::Done
            },
            _ => self.confirm_attach_menu(),
        }
    }

    /// What pins or unpins the selected row's directory.
    pub open spec fn pin_toggling(self) -> Step {
        match (self.selected_row(), self.attach_menu) {
            (Some(AttachMenuRow::GroupHeader(i)), Some(menu)) => Step::Send(
                Request::ToggleDirectoryPin { directory: menu.servers@[i as int].0 },
                Pending::PinToggled,
            ),
            (Some(AttachMenuRow::Server(i)), Some(menu)) => Step::Send(
                Request::ToggleDirectoryPin { directory: menu.servers@[i as int].0 },
                Pending::PinToggled,
            ),
            _ => Step::Done,
        }
    }

    /// Pin the directory of the selected header or server-pane, or unpin it.
    /// Nothing happens on other rows.
    pub fn toggle_directory_pin(&self) -> (r: Step)
        ensures
            r == self.pin_toggling(),
    {
        match (self.selected_attach_menu_row(), &self.attach_menu) {
            (Some(AttachMenuRow::GroupHeader(i)), Some(menu)) => Step::Send(
                Request::ToggleDirectoryPin { directory: menu.servers[i].0.clone() },
                Pending::PinToggled,
            ),
            (Some(AttachMenuRow::Server(i)), Some(menu)) => Step::Send(
                Request::ToggleDirectoryPin { directory: menu.servers[i].0.clone() },
                Pending::PinToggled,
            ),
            _ => Step::Done,
        }
    }

    /// Agents only, or every server-pane if that was so; the list is fetched
    /// anew.
    pub open spec fn agents_toggled(self) -> (App, Step) {
        (
            App { agents_only_view: !self.agents_only_view, ..self },
            Step::Send(Request::ServerList, Pending::Relisted),
        )
    }

    /// Switch between agents only and every server-pane.
    pub fn toggle_agents_only(&mut self) -> (r: Step)
        ensures
            (*final(self), r) == old(self).agents_toggled(),
            old(self).wf() ==> final(self).wf(),
    {
        self.agents_only_view = !self.agents_only_view;
        Step::Send(Request::ServerList, Pending::Relisted)
    }

    /// The armed deletion carried out.
    pub open spec fn delete_confirmed(self) -> (App, Step) {
        match self.attach_menu {
            Some(menu) => match menu.pending_delete {
                Some(i) => (
                    App {
                        attach_menu: Some(AttachMenu { pending_delete: None, ..menu }),
                        ..self
                    },
                    Step::Send(
                        Request::ServerKill { target: menu.servers@[i as int].1.id },
                        Pending::DeleteKilled,
                    ),
                ),
                None => (self, Step::Done),
            },
            None => (self, Step::Done),
        }
    }

    /// Kill the server-pane whose deletion is armed.
    pub fn confirm_delete(&mut self) -> (r: Step)
        requires
            old(self).wf(),
        ensures
            (*final(self), r) == old(self).delete_confirmed(),
            final(self).wf(),
    {
        match &mut self.attach_menu {
            None => Step::Done,
            Some(menu) => match menu.pending_delete {
                None => Step::Done,
                Some(index) => {
                    menu.pending_delete = None;
                    Step::Send(
                        Request::ServerKill { target: menu.servers[index].1.id },
                        Pending::DeleteKilled,
                    )
                },
            },
        }
    }

    /// What submits the rename field; an empty name is not submitted.
    pub open spec fn renaming(self) -> Step {
        match self.attach_menu {
            Some(menu) => match menu.rename {
                Some(field) => if field.text@.len() == 0 {
                    Step::Done
                } else {
                    Step::Send(
                        Request::ServerRename {
                            target: menu.servers@[field.index as int].1.id,
                            new_name: field.text,
                        },
                        Pending::Renamed,
                    )
                },
                None => Step::Done,
            },
            None => Step::Done,
        }
    }

    /// Submit the rename field.
    pub fn confirm_rename(&self) -> (r: Step)
        requires
            self.wf(),
        ensures
            r == self.renaming(),
    {
        match &self.attach_menu {
            None => Step::Done,
            Some(menu) => match &menu.rename {
                None => Step::Done,
                Some(field) => {
                    if field.text.as_str().is_empty() {
                        Step::Done
                    } else {
                        Step::Send(
                            Request::ServerRename {
                                target: menu.servers[field.index].1.id,
                                new_name: field.text.clone(),
                            },
                            Pending::Renamed,
                        )
                    }
                },
            },
        }
    }

    /// What submits a group's spawn field: a new server-pane in the group's
    /// directory, to be shown if `bind`, and the field's text for it.
    pub open spec fn group_spawning(self, bind: bool) -> Step {
        match self.attach_menu {
            Some(menu) => match menu.spawn_in_group {
                Some(field) => Step::Send(
                    Request::ServerSpawn {
                        cwd: Some(menu.servers@[field.group_server_index as int].0),
                    },
                    Pending::GroupSpawned { bind, text: field.text },
                ),
                None => Step::Done,
            },
            None => Step::Done,
        }
    }

    /// Submit a group's spawn field.
    pub fn confirm_spawn_in_group(&self, bind: bool) -> (r: Step)
        requires
            self.wf(),
        ensures
            r == self.group_spawning(bind),
    {
        match &self.attach_menu {
            None => Step::Done,
            Some(menu) => match &menu.spawn_in_group {
                None => Step::Done,
                Some(field) => Step::Send(
                    Request::ServerSpawn {
                        cwd: Some(menu.servers[field.group_server_index].0.clone()),
                    },
                    Pending::GroupSpawned { bind, text: field.text.clone() },
                ),
            },
        }
    }

    /// Whether `after` and `step` are what an action does while browsing.
    pub open spec fn dispatches(self, action: AttachMenuAction, after: App, step: Step) -> bool {
        match action {
            AttachMenuAction::Up => after == self.selection_moved(false) && step == Step::Done,
            AttachMenuAction::Down => after == self.selection_moved(true) && step == Step::Done,
            AttachMenuAction::Cancel => (after, step) == self.cancelled(),
            AttachMenuAction::Confirm => self.confirms_or_toggles(after, step),
            AttachMenuAction::Delete => after == self.delete_armed() && step == Step::Done,
            AttachMenuAction::StartRename => self.starts_rename(after) && step == Step::Done,
            AttachMenuAction::TogglePin => after == self && step == self.pin_toggling(),
            AttachMenuAction::ToggleAgentsOnly => (after, step) == self.agents_toggled(),
            AttachMenuAction::ToggleGrouping => after == self.regrouped() && step == Step::Done,
            AttachMenuAction::DetachAll => (after, step) == self.all_detached(),
            AttachMenuAction::Quit => after == self && step == Step::Quit,
            AttachMenuAction::Ignore => after == self && step == Step::Done,
        }
    }

    /// Do what an action asks for while browsing.
    pub fn dispatch_attach_menu_action(&mut self, action: AttachMenuAction) -> (r: Step)
        requires
            old(self).wf(),
        ensures
            old(self).dispatches(action, *final(self), r),
            final(self).wf(),
            Pending::Relisted.fits(*old(self)) ==> final(self).expects(r),
    {
        match action {
            AttachMenuAction::Up => {
                self.move_attach_menu_selection(false);
                Step::Done
            },
            AttachMenuAction::Down => {
                self.move_attach_menu_selection(true);
                Step::Done
            },
            AttachMenuAction::Cancel => self.cancel_and_restore_previous_binding(),
            AttachMenuAction::Confirm => self.confirm_or_toggle_attach_menu(),
            AttachMenuAction::Delete => {
                self.arm_delete();
                Step::Done
            },
            AttachMenuAction::StartRename => {
                self.start_rename();
                Step::Done
            },
            AttachMenuAction::TogglePin => self.toggle_directory_pin(),
            AttachMenuAction::ToggleAgentsOnly => self.toggle_agents_only(),
            AttachMenuAction::ToggleGrouping => {
                self.toggle_grouping();
                Step::Done
            },
            AttachMenuAction::DetachAll => self.detach_all_and_close_menu(),
            AttachMenuAction::Quit => Step::Quit,
            AttachMenuAction::Ignore => Step::Done,
        }
    }

    /// The rename field closed.
    pub open spec fn rename_closed(self) -> App {
        match self.attach_menu {
            Some(menu) => App { attach_menu: Some(AttachMenu { rename: None, ..menu }), ..self },
            None => self,
        }
    }

    /// The spawn field closed.
    pub open spec fn spawn_field_closed(self) -> App {
        match self.attach_menu {
            Some(menu) => App {
                attach_menu: Some(AttachMenu { spawn_in_group: None, ..menu }),
                ..self
            },
            None => self,
        }
    }

    /// The deletion disarmed.
    pub open spec fn disarmed(self) -> App {
        match self.attach_menu {
            Some(menu) => App {
                attach_menu: Some(AttachMenu { pending_delete: None, ..menu }),
                ..self
            },
            None => self,
        }
    }

    /// Whether `after` and `step` are what an input does to the rename field:
    /// Enter submits it, Escape closes it, everything else edits it.
    pub open spec fn takes_rename_input(self, bytes: Seq<u8>, after: App, step: Step) -> bool {
        if is_enter(bytes) {
            after == self && step == self.renaming()
        } else if is_escape(bytes) {
            after == self.rename_closed() && step == Step::Done
        } else {
            &&& self.attach_menu matches Some(menu)
            &&& after.attach_menu matches Some(m)
            &&& m.rename matches Some(field)
            &&& field.is_edit_of(menu.rename->0, bytes)
            &&& after == App {
                attach_menu: Some(AttachMenu { rename: Some(field), ..menu }),
                ..self
            }
            &&& step == Step::Done
        }
    }

    fn input_to_rename(&mut self, bytes: &[u8]) -> (r: Step)
        requires
            old(self).wf(),
            old(self).attach_menu is Some,
            old(self).attach_menu->0.rename is Some,
        ensures
            old(self).takes_rename_input(bytes@, *final(self), r),
            final(self).wf(),
            final(self).expects(r),
    {
        if enter_pressed(bytes) {
            return self.confirm_rename();
        }
        match &mut self.attach_menu {
            None => {},
            Some(menu) => {
                if escape_pressed(bytes) {
                    menu.rename = None;
                } else {
                    match &mut menu.rename {
                        None => {},
                        Some(field) => {
                            apply_rename_edit(field, bytes);
                        },
                    }
                }
            },
        }
        Step::Done
    }

    /// Whether `after` and `step` are what an input does to a spawn field: Enter
    /// submits it and shows the new pane, Shift-Enter submits it without, Escape
    /// closes it, everything else edits it.
    pub open spec fn takes_spawn_input(self, bytes: Seq<u8>, after: App, step: Step) -> bool {
        if is_enter(bytes) {
            after == self && step == self.group_spawning(true)
        } else if is_shift_enter(bytes) {
            after == self && step == self.group_spawning(false)
        } else if is_escape(bytes) {
            after == self.spawn_field_closed() && step == Step::Done
        } else {
            &&& self.attach_menu matches Some(menu)
            &&& after.attach_menu matches Some(m)
            &&& m.spawn_in_group matches Some(field)
            &&& field.is_edit_of(menu.spawn_in_group->0, bytes)
            &&& after == App {
                attach_menu: Some(AttachMenu { spawn_in_group: Some(field), ..menu }),
                ..self
            }
            &&& step == Step::Done
        }
    }

    fn input_to_spawn_field(&mut self, bytes: &[u8]) -> (r: Step)
        requires
            old(self).wf(),
            old(self).attach_menu is Some,
            old(self).attach_menu->0.spawn_in_group is Some,
        ensures
            old(self).takes_spawn_input(bytes@, *final(self), r),
            final(self).wf(),
            final(self).expects(r),
    {
        if enter_pressed(bytes) {
            return self.confirm_spawn_in_group(true);
        }
        if shift_enter_pressed(bytes) {
            return self.confirm_spawn_in_group(false);
        }
        match &mut self.attach_menu {
            None => {},
            Some(menu) => {
                if escape_pressed(bytes) {
                    menu.spawn_in_group = None;
                } else {
                    match &mut menu.spawn_in_group {
                        None => {},
                        Some(field) => {
                            apply_spawn_in_group_edit(field, bytes);
                        },
                    }
                }
            },
        }
        Step::Done
    }

    /// Whether `after` and `step` are what an input does while a deletion is
    /// armed: `x` or Enter carries it out; anything else disarms it and is then
    /// taken as while browsing.
    pub open spec fn takes_armed_input(self, bytes: Seq<u8>, after: App, step: Step) -> bool {
        if is_key(bytes, 'x') || is_enter(bytes) {
            (after, step) == self.delete_confirmed()
        } else {
            self.disarmed().dispatches(menu_action(bytes), after, step)
        }
    }

    fn input_while_armed(&mut self, bytes: &[u8]) -> (r: Step)
        requires
            old(self).wf(),
            old(self).attach_menu is Some,
            old(self).attach_menu->0.pending_delete is Some,
        ensures
            old(self).takes_armed_input(bytes@, *final(self), r),
            final(self).wf(),
            final(self).expects(r),
    {
        if key_pressed(bytes, 'x') || enter_pressed(bytes) {
            return self.confirm_delete();
        }
        match &mut self.attach_menu {
            None => {},
            Some(menu) => {
                menu.pending_delete = None;
            },
        }
        self.dispatch_attach_menu_action(parse_attach_menu_input(bytes))
    }

    /// Whether `after` and `step` are what an input does on the "spawn new" row
    /// of the group of the listed server-pane `i`: the arrows move, Enter spawns,
    /// Escape cancels, a space opens the row's field, and everything else is taken
    /// as on any other row.
    pub open spec fn takes_spawn_row_input(
        self,
        i: usize,
        bytes: Seq<u8>,
        after: App,
        step: Step,
    ) -> bool {
        if is_up(bytes) {
            after == self.selection_moved(false) && step == Step::Done
        } else if is_down(bytes) {
            after == self.selection_moved(true) && step == Step::Done
        } else if is_enter(bytes) {
            (after, step) == self.confirmed()
        } else if is_escape(bytes) {
            (after, step) == self.cancelled()
        } else if is_key(bytes, ' ') {
            self.opens_spawn_field(i, after) && step == Step::Done
        } else {
            self.dispatches(menu_action(bytes), after, step)
        }
    }

    fn input_on_spawn_row(&mut self, i: usize, bytes: &[u8]) -> (r: Step)
        requires
            old(self).wf(),
            old(self).attach_menu matches Some(menu) ==> i < menu.servers@.len()
                && menu.is_browsing(),
        ensures
            old(self).takes_spawn_row_input(i, bytes@, *final(self), r),
            final(self).wf(),
            final(self).expects(r),
    {
        if up_pressed(bytes) {
            self.move_attach_menu_selection(false);
            Step::Done
        } else if down_pressed(bytes) {
            self.move_attach_menu_selection(true);
            Step::Done
        } else if enter_pressed(bytes) {
            self.confirm_attach_menu()
        } else if escape_pressed(bytes) {
            self.cancel_and_restore_previous_binding()
        } else if key_pressed(bytes, ' ') {
            self.open_spawn_field(i);
            Step::Done
        } else {
            self.dispatch_attach_menu_action(parse_attach_menu_input(bytes))
        }
    }

    /// Whether `after` and `step` are what an input does while the menu is open.
    pub open spec fn takes_menu_input(self, bytes: Seq<u8>, after: App, step: Step) -> bool {
        match self.attach_menu {
            Some(menu) if menu.rename is Some => self.takes_rename_input(bytes, after, step),
            Some(menu) if menu.spawn_in_group is Some => self.takes_spawn_input(
                bytes,
                after,
                step,
            ),
            Some(menu) if menu.pending_delete is Some => self.takes_armed_input(
                bytes,
                after,
                step,
            ),
            _ => match self.selected_row() {
                Some(AttachMenuRow::SpawnNewInGroup(i)) => self.takes_spawn_row_input(
                    i,
                    bytes,
                    after,
                    step,
                ),
                _ => self.dispatches(menu_action(bytes), after, step),
            },
        }
    }

    /// Take one input chunk while the menu is open.
    pub fn handle_attach_menu_input(&mut self, bytes: &[u8]) -> (r: Step)
        requires
            old(self).wf(),
        ensures
            old(self).takes_menu_input(bytes@, *final(self), r),
            final(self).wf(),
            final(self).expects(r),
    {
        let (is_renaming, is_spawning, is_armed) = match &self.attach_menu {
            Some(menu) => (
                menu.rename.is_some(),
                menu.spawn_in_group.is_some(),
                menu.pending_delete.is_some(),
            ),
            None => (false, false, false),
        };
        if is_renaming {
            return self.input_to_rename(bytes);
        }
        if is_spawning {
            return self.input_to_spawn_field(bytes);
        }
        if is_armed {
            return self.input_while_armed(bytes);
        }
        match self.selected_attach_menu_row() {
            Some(AttachMenuRow::SpawnNewInGroup(i)) => self.input_on_spawn_row(i, bytes),
            _ => self.dispatch_attach_menu_action(parse_attach_menu_input(bytes)),
        }
    }
}

} // verus!
