//! What the daemon's replies lead to.

use crate::app::{
    grids_by_pane, index_grids, index_servers, servers_by_id, App, MenuOpening, Pending, Step,
};
use crate::menu::{
    filter_servers_for_menu, group_servers_by_cwd, grouped, initial_selection,
    initial_selection_for, shown, visible_attach_menu_rows, AttachMenu, Listed, RenameState,
};
use crate::protocol::{
    first_leaf, ClientPaneId, Request, Response, ServerPaneId, ServerPaneInfo,
};
use crate::text::views;
use vstd::prelude::*;

verus! {

impl Pending {
    /// Whether this reply can be waited for in that state: a request that a field
    /// or a row of the menu sent leaves that field open, or the rows, until the
    /// reply is there.
    pub open spec fn fits(self, app: App) -> bool {
        match app.attach_menu {
            None => true,
            Some(menu) => match self {
                Pending::PinToggled | Pending::Relisted | Pending::DeleteKilled =>
                    menu.is_browsing(),
                Pending::Renamed | Pending::RenameListed => menu.rename is Some,
                Pending::GroupSpawned { .. } | Pending::GroupBound { .. }
                | Pending::GroupSent { .. } | Pending::GroupListed => menu.rename is None
                    && menu.pending_delete is None,
                _ => true,
            },
        }
    }

    /// How many requests may still follow, at most.
    pub open spec fn requests_left(self) -> nat {
        match self {
            Pending::GroupSpawned { .. } => 3,
            Pending::ShellFallback | Pending::Unbound(_) | Pending::GroupBound { .. } => 2,
            Pending::FirstShell | Pending::Pins(_) | Pending::Unsubscribed(_)
            | Pending::SplitSpawned(_) | Pending::TabClosed(_) | Pending::PinToggled
            | Pending::DeleteKilled | Pending::Renamed | Pending::MenuSpawned { .. }
            | Pending::GroupSent { .. } | Pending::JumpListed { .. } => 1,
            Pending::Detaching { left, .. } => left as nat,
            _ => 0,
        }
    }
}

impl App {
    /// Whether a step's reply, if it asks for one, can be waited for now.
    pub open spec fn expects(self, step: Step) -> bool {
        step matches Step::Send(_, pending) ==> pending.fits(self)
    }

    /// Whether `listed` is what the menu lists of `servers`.
    pub open spec fn lists(self, servers: Seq<ServerPaneInfo>, listed: Seq<Listed>) -> bool {
        grouped(shown(servers, self.agents_only_view), listed, views(self.pinned_dirs@))
    }

    /// What the menu lists of `servers`.
    fn list_servers(&self, servers: Vec<ServerPaneInfo>) -> (r: Vec<Listed>)
        ensures
            self.lists(servers@, r@),
    {
        group_servers_by_cwd(
            filter_servers_for_menu(servers, self.agents_only_view),
            &self.pinned_dirs,
        )
    }

    /// Whether `after` is this state with the menu opened on `servers`. After a
    /// detachment the cursor starts on what was detached, for a new tab on the
    /// row that spawns one.
    pub open spec fn opens_menu(
        self,
        opening: MenuOpening,
        servers: Seq<ServerPaneInfo>,
        after: App,
    ) -> bool {
        &&& after.attach_menu matches Some(menu)
        &&& self.lists(servers, menu.servers@)
        &&& match opening {
            MenuOpening::Startup => menu.is_fresh(0, None, false),
            MenuOpening::Detached(bound) => menu.is_fresh(
                initial_selection(menu.servers@, after.rows(), bound),
                bound,
                false,
            ),
            MenuOpening::AddTab => menu.is_fresh(after.rows().len() - 1, None, true),
        }
        &&& after == App { attach_menu: Some(menu), ..self }
    }

    fn open_menu(&mut self, opening: MenuOpening, servers: Vec<ServerPaneInfo>)
        ensures
            old(self).opens_menu(opening, servers@, *final(self)),
            old(self).wf() ==> final(self).wf(),
    {
        let listed = self.list_servers(servers);
        match opening {
            MenuOpening::Startup => {
                self.attach_menu = Some(AttachMenu::opened(listed, 0, None, false));
            },
            MenuOpening::Detached(bound) => {
                let selected = initial_selection_for(
                    &listed,
                    &self.collapsed_groups,
                    self.grouped_view,
                    bound,
                );
                self.attach_menu = Some(AttachMenu::opened(listed, selected, bound, false));
            },
            MenuOpening::AddTab => {
                let rows = visible_attach_menu_rows(
                    &listed,
                    &self.collapsed_groups,
                    self.grouped_view,
                );
                let selected: usize = rows.len() - 1;
                self.attach_menu = Some(AttachMenu::opened(listed, selected, None, true));
            },
        }
    }

    /// Whether `after` is this state with the open menu listing `servers`, the
    /// selection moved onto the last row if it is behind it.
    pub open spec fn relists(self, servers: Seq<ServerPaneInfo>, after: App) -> bool {
        match self.attach_menu {
            None => after == self,
            Some(menu) => {
                &&& after.attach_menu matches Some(m)
                &&& self.lists(servers, m.servers@)
                &&& after == (App {
                    attach_menu: Some(AttachMenu { servers: m.servers, ..menu }),
                    ..self
                }).clamped()
            },
        }
    }

    fn relist(&mut self, servers: Vec<ServerPaneInfo>)
        requires
            old(self).wf(),
            Pending::Relisted.fits(*old(self)),
        ensures
            old(self).relists(servers@, *final(self)),
            final(self).wf(),
    {
        let listed = self.list_servers(servers);
        match &mut self.attach_menu {
            None => {},
            Some(menu) => {
                menu.servers = listed;
            },
        }
        self.clamp_selection();
    }

    /// Whether `after` is this state with the rename field closed and the open
    /// menu listing `servers`.
    pub open spec fn relists_renamed(self, servers: Seq<ServerPaneInfo>, after: App) -> bool {
        match self.attach_menu {
            None => after == self,
            Some(menu) => {
                &&& after.attach_menu matches Some(m)
                &&& self.lists(servers, m.servers@)
                &&& after == App {
                    attach_menu: Some(AttachMenu { servers: m.servers, rename: None, ..menu }),
                    ..self
                }
            },
        }
    }

    fn relist_renamed(&mut self, servers: Vec<ServerPaneInfo>)
        requires
            old(self).wf(),
            Pending::RenameListed.fits(*old(self)),
        ensures
            old(self).relists_renamed(servers@, *final(self)),
            final(self).wf(),
    {
        let listed = self.list_servers(servers);
        match &mut self.attach_menu {
            None => {},
            Some(menu) => {
                menu.servers = listed;
                menu.rename = None;
            },
        }
    }

    /// Whether `after` is this state with the spawn field closed and the open
    /// menu listing `servers`, the selection moved onto the last row if it is
    /// behind it.
    pub open spec fn relists_spawned(self, servers: Seq<ServerPaneInfo>, after: App) -> bool {
        match self.attach_menu {
            None => after == self,
            Some(menu) => {
                &&& after.attach_menu matches Some(m)
                &&& self.lists(servers, m.servers@)
                &&& after == (App {
                    attach_menu: Some(
                        AttachMenu { servers: m.servers, spawn_in_group: None, ..menu },
                    ),
                    ..self
                }).clamped()
            },
        }
    }

    fn relist_spawned(&mut self, servers: Vec<ServerPaneInfo>)
        requires
            old(self).wf(),
            Pending::GroupListed.fits(*old(self)),
        ensures
            old(self).relists_spawned(servers@, *final(self)),
            final(self).wf(),
    {
        let listed = self.list_servers(servers);
        match &mut self.attach_menu {
            None => {},
            Some(menu) => {
                menu.servers = listed;
                menu.spawn_in_group = None;
            },
        }
        self.clamp_selection();
    }

    /// The complaint about a name shown at its field.
    pub open spec fn rename_refused(self, message: String) -> App {
        match self.attach_menu {
            Some(menu) => match menu.rename {
                Some(field) => App {
                    attach_menu: Some(
                        AttachMenu {
                            rename: Some(RenameState { error: Some(message), ..field }),
                            ..menu
                        },
                    ),
                    ..self
                },
                None => self,
            },
            None => self,
        }
    }

    fn refuse_rename(&mut self, message: String)
        requires
            old(self).wf(),
        ensures
            *final(self) == old(self).rename_refused(message),
            final(self).wf(),
    {
        match &mut self.attach_menu {
            None => {},
            Some(menu) => match &mut menu.rename {
                None => {},
                Some(field) => {
                    field.error = Some(message);
                },
            },
        }
    }

    /// The end of a group spawn: with the new pane shown the menu closes, without
    /// it lists the new pane.
    pub open spec fn group_finished(self, bind: bool) -> (App, Step) {
        if bind {
            (self.menu_closed(), Step::Done)
        } else {
            (self, Step::Send(Request::ServerList, Pending::GroupListed))
        }
    }

    fn finish_group_spawn(&mut self, bind: bool) -> (r: Step)
        ensures
            (*final(self), r) == old(self).group_finished(bind),
    {
        if bind {
            self.attach_menu = None;
            Step::Done
        } else {
            Step::Send(Request::ServerList, Pending::GroupListed)
        }
    }

    /// A group spawn after the binding: the field's text, if any, is sent to the
    /// new pane and entered.
    pub open spec fn group_text_sent(
        self,
        server_pane: ServerPaneId,
        text: String,
        bind: bool,
    ) -> (App, Step) {
        if text@.len() > 0 {
            (
                self,
                Step::Send(
                    Request::ServerSend { target: server_pane, text, enter: true },
                    Pending::GroupSent { bind },
                ),
            )
        } else {
            self.group_finished(bind)
        }
    }

    fn send_group_text(&mut self, server_pane: ServerPaneId, text: String, bind: bool) -> (r: Step)
        ensures
            (*final(self), r) == old(self).group_text_sent(server_pane, text, bind),
    {
        if !text.as_str().is_empty() {
            Step::Send(
                Request::ServerSend { target: server_pane, text, enter: true },
                Pending::GroupSent { bind },
            )
        } else {
            self.finish_group_spawn(bind)
        }
    }

    /// Whether the open menu adds a tab.
    pub open spec fn menu_adds_tab(self) -> bool {
        self.attach_menu matches Some(menu) && menu.adding_tab
    }

    /// A group spawn once the new pane is there: it is shown in the focused pane
    /// if asked for.
    pub open spec fn group_spawned(self, server_pane: ServerPaneId, text: String, bind: bool) -> (
        App,
        Step,
    ) {
        match self.focused {
            Some(pane) if bind => {
                let workspace = self.workspace.id;
                let target = server_pane;
                (
                    self,
                    Step::Send(
                        if self.menu_adds_tab() {
                            Request::ClientAddTab { workspace, pane, target }
                        } else {
                            Request::ClientBind { workspace, pane, target }
                        },
                        Pending::GroupBound { server_pane, text },
                    ),
                )
            },
            _ => self.group_text_sent(server_pane, text, bind),
        }
    }

    fn bind_group_spawn(&mut self, server_pane: ServerPaneId, text: String, bind: bool) -> (r: Step)
        ensures
            (*final(self), r) == old(self).group_spawned(server_pane, text, bind),
    {
        let adding_tab = match &self.attach_menu {
            Some(menu) => menu.adding_tab,
            None => false,
        };
        match self.focused {
            Some(pane) => {
                if bind {
                    let workspace = self.workspace.id;
                    let request = if adding_tab {
                        Request::ClientAddTab { workspace, pane, target: server_pane }
                    } else {
                        Request::ClientBind { workspace, pane, target: server_pane }
                    };
                    Step::Send(request, Pending::GroupBound { server_pane, text })
                } else {
                    self.send_group_text(server_pane, text, bind)
                }
            },
            None => self.send_group_text(server_pane, text, bind),
        }
    }

    /// What shows the server-pane numbered `number` in `pane`.
    pub open spec fn jumping(
        self,
        pane: ClientPaneId,
        number: u8,
        servers: Seq<ServerPaneInfo>,
    ) -> Step {
        let i: int = if number >= 1 {
            number - 1
        } else {
            0
        };
        if i < servers.len() {
            Step::Send(
                Request::ClientBind { workspace: self.workspace.id, pane, target: servers[i].id },
                Pending::Discard,
            )
        } else {
            Step::Done
        }
    }

    fn jump(&self, pane: ClientPaneId, number: u8, servers: Vec<ServerPaneInfo>) -> (r: Step)
        ensures
            r == self.jumping(pane, number, servers@),
    {
        let i: usize = if number >= 1 {
            (number - 1) as usize
        } else {
            0
        };
        if i < servers.len() {
            Step::Send(
                Request::ClientBind { workspace: self.workspace.id, pane, target: servers[i].id },
                Pending::Discard,
            )
        } else {
            Step::Done
        }
    }

    /// What gives the focused pane a sibling, or the workspace its first pane, that
    /// shows `target`.
    pub open spec fn pane_spawning(
        self,
        split: Option<crate::protocol::SplitDir>,
        target: ServerPaneId,
    ) -> Step {
        Step::Send(
            Request::ClientSpawn {
                workspace: self.workspace.id,
                split_of: if split is Some {
                    self.focused
                } else {
                    None
                },
                dir: split,
                bind: Some(target),
            },
            Pending::ClientSpawned,
        )
    }

    /// Whether `after` is this state following `workspace` instead.
    pub open spec fn follows(
        self,
        workspace: crate::protocol::WorkspaceInfo,
        grids: Seq<crate::protocol::GridSnapshot>,
        after: App,
    ) -> bool {
        &&& after.grids@ == grids_by_pane(grids)
        &&& after == App {
            workspace,
            grids: after.grids,
            focused: workspace.first_pane_id(),
            attach_menu: None,
            dragging_split: None,
            text_selection: None,
            ..self
        }
    }

    /// Whether `after` and `step` are what `response` leads to.
    pub open spec fn resumes(
        self,
        pending: Pending,
        response: Response,
        after: App,
        step: Step,
    ) -> bool {
        match pending {
            Pending::Discard => after == self && step == Step::Done,
            Pending::ShellFallback => after == self && step == if response
                == (Response::ShellFallback { available: true }) {
                Step::Send(Request::ServerSpawn { cwd: None }, Pending::FirstShell)
            } else {
                Step::Send(Request::PinnedDirsList, Pending::Pins(MenuOpening::Startup))
            },
            Pending::FirstShell => after == self && step == match response {
                Response::ServerPane(info) => self.pane_spawning(None, info.id),
                _ => Step::Done,
            },
            Pending::ClientSpawned => step == Step::Done && after == match response {
                Response::ClientPaneCreated { pane } => App { focused: Some(pane), ..self },
                _ => self,
            },
            Pending::Pins(opening) => step == Step::Send(
                Request::ServerList,
                Pending::Servers(opening),
            ) && after == match response {
                Response::PinnedDirsList(pinned) => App { pinned_dirs: pinned, ..self },
                _ => self,
            },
            Pending::Servers(opening) => step == Step::Done && match response {
                Response::ServerPaneList(servers) => self.opens_menu(opening, servers@, after),
                _ => after == self,
            },
            Pending::Unsubscribed(number) => after == self && step == Step::Send(
                Request::Subscribe { number },
                Pending::Subscribed,
            ),
            Pending::Subscribed => step == Step::Done && match response {
                Response::Snapshot { workspace, grids } => self.follows(workspace, grids@, after),
                _ => after == self,
            },
            Pending::SplitSpawned(dir) => after == self && step == match response {
                Response::ServerPane(info) => self.pane_spawning(Some(dir), info.id),
                _ => Step::Done,
            },
            Pending::Unbound(bound) => after == self && step == Step::Send(
                Request::PinnedDirsList,
                Pending::Pins(MenuOpening::Detached(bound)),
            ),
            Pending::TabClosed(target) => after == self && step == Step::Send(
                Request::ServerKill { target },
                Pending::Discard,
            ),
            Pending::Preview(target) => step == Step::Done && after == match response {
                Response::ServerReadOutput { text } => App {
                    attach_menu_preview: Some((target, text)),
                    ..self
                },
                _ => self,
            },
            Pending::Names => step == Step::Done && match response {
                Response::ServerPaneList(servers) => {
                    &&& after.server_names@ == servers_by_id(servers@)
                    &&& after == App { server_names: after.server_names, ..self }
                },
                _ => after == self,
            },
            Pending::PinToggled => step == Step::Send(Request::ServerList, Pending::Relisted)
                && after == match response {
                Response::PinnedDirsList(pinned) => App { pinned_dirs: pinned, ..self },
                _ => self,
            },
            Pending::Relisted => step == Step::Done && match response {
                Response::ServerPaneList(servers) => self.relists(servers@, after),
                _ => after == self,
            },
            Pending::Detaching { pane, left } => after == self && step == self.detaching(
                pane,
                left,
            ),
            Pending::DeleteKilled => after == self && step == Step::Send(
                Request::ServerList,
                Pending::Relisted,
            ),
            Pending::Renamed => match response {
                Response::Ack => after == self && step == Step::Send(
                    Request::ServerList,
                    Pending::RenameListed,
                ),
                Response::Error { message } => after == self.rename_refused(message) && step
                    == Step::Done,
                _ => after == self && step == Step::Done,
            },
            Pending::RenameListed => step == Step::Done && match response {
                Response::ServerPaneList(servers) => self.relists_renamed(servers@, after),
                _ => after == self,
            },
            Pending::MenuSpawned { adding_tab } => after == self && step == match response {
                Response::ServerPane(info) => self.binding(info.id, adding_tab),
                _ => Step::Done,
            },
            Pending::GroupSpawned { bind, text } => match response {
                Response::ServerPane(info) => (after, step) == self.group_spawned(
                    info.id,
                    text,
                    bind,
                ),
                _ => after == self && step == Step::Done,
            },
            Pending::GroupBound { server_pane, text } => (after, step) == self.group_text_sent(
                server_pane,
                text,
                true,
            ),
            Pending::GroupSent { bind } => (after, step) == self.group_finished(bind),
            Pending::GroupListed => step == Step::Done && match response {
                Response::ServerPaneList(servers) => self.relists_spawned(servers@, after),
                _ => after == self,
            },
            Pending::JumpListed { pane, number } => after == self && step == match response {
                Response::ServerPaneList(servers) => self.jumping(pane, number, servers@),
                _ => Step::Done,
            },
        }
    }

    /// Take in the reply that was waited for.
    pub fn resume(&mut self, pending: Pending, response: Response) -> (r: Step)
        requires
            old(self).wf(),
            pending.fits(*old(self)),
        ensures
            old(self).resumes(pending, response, *final(self), r),
            final(self).wf(),
            final(self).expects(r),
    {
        match pending {
            Pending::Discard => Step::Done,
            Pending::ShellFallback => match response {
                Response::ShellFallback { available: true } => Step::Send(
                    Request::ServerSpawn { cwd: None },
                    Pending::FirstShell,
                ),
                _ => Step::Send(
                    Request::PinnedDirsList,
                    Pending::Pins(MenuOpening::Startup),
                ),
            },
            Pending::FirstShell => match response {
                Response::ServerPane(info) => Step::Send(
                    Request::ClientSpawn {
                        workspace: self.workspace.id,
                        split_of: None,
                        dir: None,
                        bind: Some(info.id),
                    },
                    Pending::ClientSpawned,
                ),
                _ => Step::Done,
            },
            Pending::ClientSpawned => {
                match response {
                    Response::ClientPaneCreated { pane } => {
                        self.focused = Some(pane);
                    },
                    _ => {},
                }
                Step::Done
            },
            Pending::Pins(opening) => {
                match response {
                    Response::PinnedDirsList(pinned) => {
                        self.pinned_dirs = pinned;
                    },
                    _ => {},
                }
                Step::Send(Request::ServerList, Pending::Servers(opening))
            },
            Pending::Servers(opening) => {
                match response {
                    Response::ServerPaneList(servers) => {
                        self.open_menu(opening, servers);
                    },
                    _ => {},
                }
                Step::Done
            },
            Pending::Unsubscribed(number) => Step::Send(
                Request::Subscribe { number },
                Pending::Subscribed,
            ),
            Pending::Subscribed => {
                match response {
                    Response::Snapshot { workspace, grids } => {
                        self.focused = first_leaf(&workspace);
                        self.workspace = workspace;
                        self.grids = index_grids(grids);
                        self.attach_menu = None;
                        self.dragging_split = None;
                        self.text_selection = None;
                    },
                    _ => {},
                }
                Step::Done
            },
            Pending::SplitSpawned(dir) => match response {
                Response::ServerPane(info) => Step::Send(
                    Request::ClientSpawn {
                        workspace: self.workspace.id,
                        split_of: self.focused,
                        dir: Some(dir),
                        bind: Some(info.id),
                    },
                    Pending::ClientSpawned,
                ),
                _ => Step::Done,
            },
            Pending::Unbound(bound) => Step::Send(
                Request::PinnedDirsList,
                Pending::Pins(MenuOpening::Detached(bound)),
            ),
            Pending::TabClosed(target) => Step::Send(
                Request::ServerKill { target },
                Pending::Discard,
            ),
            Pending::Preview(target) => {
                match response {
                    Response::ServerReadOutput { text } => {
                        self.attach_menu_preview = Some((target, text));
                    },
                    _ => {},
                }
                Step::Done
            },
            Pending::Names => {
                match response {
                    Response::ServerPaneList(servers) => {
                        self.server_names = index_servers(servers);
                    },
                    _ => {},
                }
                Step::Done
            },
            Pending::PinToggled => {
                match response {
                    Response::PinnedDirsList(pinned) => {
                        self.pinned_dirs = pinned;
                    },
                    _ => {},
                }
                Step::Send(Request::ServerList, Pending::Relisted)
            },
            Pending::Relisted => {
                match response {
                    Response::ServerPaneList(servers) => {
                        self.relist(servers);
                    },
                    _ => {},
                }
                Step::Done
            },
            Pending::Detaching { pane, left } => self.detach_next(pane, left),
            Pending::DeleteKilled => Step::Send(Request::ServerList, Pending::Relisted),
            Pending::Renamed => match response {
                Response::Ack => Step::Send(Request::ServerList, Pending::RenameListed),
                Response::Error { message } => {
                    self.refuse_rename(message);
                    Step::Done
                },
                _ => Step::Done,
            },
            Pending::RenameListed => {
                match response {
                    Response::ServerPaneList(servers) => {
                        self.relist_renamed(servers);
                    },
                    _ => {},
                }
                Step::Done
            },
            Pending::MenuSpawned { adding_tab } => match response {
                Response::ServerPane(info) => self.bind_target(info.id, adding_tab),
                _ => Step::Done,
            },
            Pending::GroupSpawned { bind, text } => match response {
                Response::ServerPane(info) => self.bind_group_spawn(info.id, text, bind),
                _ => Step::Done,
            },
            Pending::GroupBound { server_pane, text } => self.send_group_text(
                server_pane,
                text,
                true,
            ),
            Pending::GroupSent { bind } => self.finish_group_spawn(bind),
            Pending::GroupListed => {
                match response {
                    Response::ServerPaneList(servers) => {
                        self.relist_spawned(servers);
                    },
                    _ => {},
                }
                Step::Done
            },
            Pending::JumpListed { pane, number } => match response {
                Response::ServerPaneList(servers) => self.jump(pane, number, servers),
                _ => Step::Done,
            },
        }
    }
}

/// Every exchange ends: whatever the daemon replies, fewer requests may follow
/// than before.
pub proof fn exchanges_end(
    before: App,
    pending: Pending,
    response: Response,
    after: App,
    step: Step,
)
    requires
        before.resumes(pending, response, after, step),
    ensures
        step matches Step::Send(_, next) ==> next.requests_left() < pending.requests_left(),
        step is Quit ==> false,
        step is Copy ==> false,
{
}

/// Nothing that the daemon reports in between disturbs a reply that is waited
/// for.
pub proof fn events_leave_replies_in_place(
    before: App,
    event: crate::protocol::Event,
    after: App,
    pending: Pending,
)
    requires
        before.takes_event(event, after),
        pending.fits(before),
    ensures
        pending.fits(after),
        after.attach_menu == before.attach_menu,
        after.collapsed_groups == before.collapsed_groups,
        after.pinned_dirs == before.pinned_dirs,
{
}

} // verus!
