//! What the keyboard does while the attach menu is closed, and what is refreshed
//! from time to time.

use crate::app::{App, MenuOpening, Pending, Step};
use crate::bindings::Action;
use crate::geometry::{Direction, Rect};
use crate::keys::{key_step, BindingMode, KeyInput, ParsedInput, PortableParser};
use crate::layout::{changed_sizes, focus_moves, neighbour_of, place, places, size_changes, Placement};
use crate::menu::AttachMenuRow;
use crate::protocol::{ClientPaneId, Request, ServerPaneId, Size, SplitDir};
use std::collections::HashMap;
use vstd::prelude::*;

verus! {

impl App {
    /// What the focused pane shows.
    pub open spec fn focused_bound(self) -> Option<ServerPaneId> {
        match self.focused {
            Some(pane) => self.workspace.pane_bound(pane),
            None => None,
        }
    }

    /// What closes the focused pane's active tab, and after that kills what it
    /// showed. A pane without tabs is left alone.
    pub open spec fn tab_closing(self) -> Step {
        match (self.focused, self.focused_bound()) {
            (Some(pane), Some(bound)) => Step::Send(
                Request::ClientCloseTab { workspace: self.workspace.id, pane },
                Pending::TabClosed(bound),
            ),
            _ => Step::Done,
        }
    }

    /// Close the focused pane's active tab and kill what it showed.
    pub fn close_tab(&self) -> (r: Step)
        ensures
            r == self.tab_closing(),
    {
        match self.focused {
            None => Step::Done,
            Some(pane) => match self.workspace.active_bound(pane) {
                None => Step::Done,
                Some(bound) => Step::Send(
                    Request::ClientCloseTab { workspace: self.workspace.id, pane },
                    Pending::TabClosed(bound),
                ),
            },
        }
    }

    /// What kills the server-pane that the focused pane shows.
    pub open spec fn killing(self) -> Step {
        match self.focused_bound() {
            Some(target) => Step::Send(Request::ServerKill { target }, Pending::Discard),
            None => Step::Done,
        }
    }

    /// Kill the server-pane that the focused pane shows.
    pub fn kill_focused_server_pane(&self) -> (r: Step)
        ensures
            r == self.killing(),
    {
        match self.focused {
            None => Step::Done,
            Some(pane) => match self.workspace.active_bound(pane) {
                None => Step::Done,
                Some(target) => Step::Send(Request::ServerKill { target }, Pending::Discard),
            },
        }
    }

    /// What opens the menu for the focused pane. A pane with one tab or none is
    /// detached first; one with several keeps them all until a pick replaces the
    /// active one, so that the others keep their places.
    pub open spec fn detaching_for_menu(self) -> Step {
        match self.focused {
            None => Step::Done,
            Some(pane) => if self.workspace.pane(pane) matches Some(leaf) && leaf.tabs@.len() > 1 {
                Step::Send(
                    Request::PinnedDirsList,
                    Pending::Pins(MenuOpening::Detached(None)),
                )
            } else {
                Step::Send(
                    Request::ClientUnbind { workspace: self.workspace.id, pane },
                    Pending::Unbound(self.workspace.pane_bound(pane)),
                )
            },
        }
    }

    /// Open the menu for the focused pane.
    pub fn detach_and_open_menu(&self) -> (r: Step)
        ensures
            r == self.detaching_for_menu(),
    {
        match self.focused {
            None => Step::Done,
            Some(pane) => {
                let has_multiple_tabs = match self.workspace.find(pane) {
                    Some(leaf) => leaf.tabs.len() > 1,
                    None => false,
                };
                if has_multiple_tabs {
                    Step::Send(
                        Request::PinnedDirsList,
                        Pending::Pins(MenuOpening::Detached(None)),
                    )
                } else {
                    Step::Send(
                        Request::ClientUnbind { workspace: self.workspace.id, pane },
                        Pending::Unbound(self.workspace.active_bound(pane)),
                    )
                }
            },
        }
    }

    /// What opens the menu to add a tab to the focused pane.
    pub open spec fn adding_tab(self) -> Step {
        match self.focused {
            Some(_) => Step::Send(Request::PinnedDirsList, Pending::Pins(MenuOpening::AddTab)),
            None => Step::Done,
        }
    }

    /// Open the menu to add a tab to the focused pane.
    pub fn open_add_tab_menu(&self) -> (r: Step)
        ensures
            r == self.adding_tab(),
    {
        match self.focused {
            Some(_) => Step::Send(Request::PinnedDirsList, Pending::Pins(MenuOpening::AddTab)),
            None => Step::Done,
        }
    }

    /// What makes the next or the previous tab of the focused pane the active
    /// one.
    pub open spec fn cycling(self, forward: bool) -> Step {
        match self.focused {
            Some(pane) => Step::Send(
                Request::ClientCycleTab { workspace: self.workspace.id, pane, forward },
                Pending::Discard,
            ),
            None => Step::Done,
        }
    }

    /// Make the next or the previous tab of the focused pane the active one.
    pub fn cycle_tab(&self, forward: bool) -> (r: Step)
        ensures
            r == self.cycling(forward),
    {
        match self.focused {
            Some(pane) => Step::Send(
                Request::ClientCycleTab { workspace: self.workspace.id, pane, forward },
                Pending::Discard,
            ),
            None => Step::Done,
        }
    }

    /// What follows the workspace with this number instead of this one.
    pub open spec fn switching(self, number: u8) -> Step {
        Step::Send(
            Request::Unsubscribe { workspace: self.workspace.id },
            Pending::Unsubscribed(number),
        )
    }

    /// Follow the workspace with this number instead of this one.
    pub fn switch_workspace(&self, number: u8) -> (r: Step)
        ensures
            r == self.switching(number),
    {
        Step::Send(
            Request::Unsubscribe { workspace: self.workspace.id },
            Pending::Unsubscribed(number),
        )
    }

    /// What gives the focused pane a sibling with a new shell.
    pub open spec fn splitting(self, dir: SplitDir) -> Step {
        Step::Send(Request::ServerSpawn { cwd: None }, Pending::SplitSpawned(dir))
    }

    /// Give the focused pane a sibling with a new shell.
    pub fn split(&self, dir: SplitDir) -> (r: Step)
        ensures
            r == self.splitting(dir),
    {
        Step::Send(Request::ServerSpawn { cwd: None }, Pending::SplitSpawned(dir))
    }

    /// What begins to show the numbered server-pane in the focused pane.
    pub open spec fn jump_beginning(self, number: u8) -> Step {
        match self.focused {
            Some(pane) => Step::Send(Request::ServerList, Pending::JumpListed { pane, number }),
            None => Step::Done,
        }
    }

    /// Show the numbered server-pane in the focused pane.
    pub fn jump_session(&self, number: u8) -> (r: Step)
        ensures
            r == self.jump_beginning(number),
    {
        match self.focused {
            Some(pane) => Step::Send(Request::ServerList, Pending::JumpListed { pane, number }),
            None => Step::Done,
        }
    }

    /// Whether `after` is this state with the focus moved on a screen where the
    /// panes stand at `leaves`.
    pub open spec fn moves_focus_on(
        self,
        leaves: Seq<(ClientPaneId, Rect)>,
        direction: Direction,
        after: App,
    ) -> bool {
        exists|to: Option<ClientPaneId>| #[trigger]
            focus_moves(leaves, self.focused, direction, to) && after == match to {
                Some(_) => App { focused: to, ..self },
                None => self,
            }
    }

    /// Move the focus on a screen where the panes stand at `leaves`.
    pub fn move_focus_on(&mut self, leaves: &Vec<(ClientPaneId, Rect)>, direction: Direction)
        ensures
            old(self).moves_focus_on(leaves@, direction, *final(self)),
            old(self).wf() ==> final(self).wf(),
    {
        let next = neighbour_of(leaves, self.focused, direction);
        if next.is_some() {
            self.focused = next;
        }
        assert(focus_moves(leaves@, old(self).focused, direction, next));
    }

    /// Whether `after` is this state with the focus moved, however the panes came
    /// to stand.
    pub open spec fn moves_focus(self, direction: Direction, after: App) -> bool {
        match self.workspace.tree {
            None => after == self,
            Some(tree) => exists|p: Placement| #[trigger]
                places(tree, self.frame_area, p) && self.moves_focus_on(
                    p.leaves(),
                    direction,
                    after,
                ),
        }
    }

    /// Move the focus to the nearest pane in that direction.
    pub fn move_focus(&mut self, direction: Direction)
        ensures
            old(self).moves_focus(direction, *final(self)),
            old(self).wf() ==> final(self).wf(),
    {
        match &self.workspace.tree {
            None => {},
            Some(tree) => {
                let placement = place(tree, self.frame_area, None);
                let leaves = placement.leaf_rects();
                self.move_focus_on(&leaves, direction);
            },
        }
    }

    /// Whether `after` and `step` are what an action does.
    pub open spec fn acts(self, action: Action, raw: Seq<u8>, after: App, step: Step) -> bool {
        let app = App { text_selection: None, ..self };
        match action {
            Action::SwitchWorkspace(n) => after == app && step == app.switching(n),
            Action::JumpSession(n) => after == app && step == app.jump_beginning(n),
            Action::SplitVertical => after == app && step == app.splitting(SplitDir::Vertical),
            Action::SplitHorizontal => after == app && step == app.splitting(
                SplitDir::Horizontal,
            ),
            Action::CloseFocusedPane => after == app && step == app.tab_closing(),
            Action::KillFocusedServerPane => after == app && step == app.killing(),
            Action::DetachAndAttach => after == app && step == app.detaching_for_menu(),
            Action::AddTab => after == app && step == app.adding_tab(),
            Action::CycleTabForward => after == app && step == app.cycling(true),
            Action::CycleTabBackward => after == app && step == app.cycling(false),
            Action::FocusLeft => app.moves_focus(Direction::Left, after) && step == Step::Done,
            Action::FocusRight => app.moves_focus(Direction::Right, after) && step == Step::Done,
            Action::FocusUp => app.moves_focus(Direction::Up, after) && step == Step::Done,
            Action::FocusDown => app.moves_focus(Direction::Down, after) && step == Step::Done,
            Action::Quit => after == app && step == Step::Quit,
            Action::PassThrough => after == app && match app.focused {
                Some(id) => {
                    &&& step matches Step::Send(Request::Input { pane, bytes }, pending)
                    &&& pane == id
                    &&& bytes@ == raw
                    &&& pending == Pending::Discard
                },
                None => step == Step::Done,
            },
        }
    }

    /// Do what an action asks for. `raw` are the keys of a `PassThrough`.
    pub fn handle_action(&mut self, action: Action, raw: &[u8]) -> (r: Step)
        requires
            old(self).wf(),
        ensures
            old(self).acts(action, raw@, *final(self), r),
            final(self).wf(),
            final(self).expects(r),
    {
        self.text_selection = None;
        match action {
            Action::SwitchWorkspace(n) => self.switch_workspace(n),
            Action::JumpSession(n) => self.jump_session(n),
            Action::SplitVertical => self.split(SplitDir::Vertical),
            Action::SplitHorizontal => self.split(SplitDir::Horizontal),
            Action::CloseFocusedPane => self.close_tab(),
            Action::KillFocusedServerPane => self.kill_focused_server_pane(),
            Action::DetachAndAttach => self.detach_and_open_menu(),
            Action::AddTab => self.open_add_tab_menu(),
            Action::CycleTabForward => self.cycle_tab(true),
            Action::CycleTabBackward => self.cycle_tab(false),
            Action::FocusLeft => {
                self.move_focus(Direction::Left);
                Step::Done
            },
            Action::FocusRight => {
                self.move_focus(Direction::Right);
                Step::Done
            },
            Action::FocusUp => {
                self.move_focus(Direction::Up);
                Step::Done
            },
            Action::FocusDown => {
                self.move_focus(Direction::Down);
                Step::Done
            },
            Action::Quit => Step::Quit,
            Action::PassThrough => match self.focused {
                Some(pane) => Step::Send(
                    Request::Input { pane, bytes: vstd::slice::slice_to_vec(raw) },
                    Pending::Discard,
                ),
                None => Step::Done,
            },
        }
    }

    /// Whether `after` and `step` are what keyboard input does that is `input` to
    /// the parser; with the menu open the parser is not asked.
    pub open spec fn takes_keys(
        self,
        keys: Seq<u8>,
        input: KeyInput,
        after: App,
        step: Step,
    ) -> bool {
        if self.attach_menu is Some {
            self.takes_menu_input(keys, after, step)
        } else {
            match input {
                KeyInput::Action(action) => self.acts(action, Seq::empty(), after, step),
                KeyInput::PassThrough(raw) => self.acts(Action::PassThrough, raw, after, step),
                KeyInput::Pending => after == self && step == Step::Done,
            }
        }
    }

    /// Take keyboard input: the menu's while it is open, else whatever the parser
    /// makes of it.
    pub fn handle_keys(
        &mut self,
        keys: &[u8],
        parser: &mut PortableParser,
        mode: BindingMode,
    ) -> (r: Step)
        requires
            old(self).wf(),
        ensures
            old(self).takes_keys(
                keys@,
                key_step(old(parser)@, keys@, mode).1,
                *final(self),
                r,
            ),
            final(parser)@ == if old(self).attach_menu is Some {
                old(parser)@
            } else {
                key_step(old(parser)@, keys@, mode).0
            },
            final(self).wf(),
            final(self).expects(r),
    {
        if self.attach_menu.is_some() {
            return self.handle_attach_menu_input(keys);
        }
        match parser.parse(keys, mode) {
            ParsedInput::Action(action) => {
                let nothing: [u8; 0] = [];
                assert(nothing@ =~= Seq::empty());
                self.handle_action(action, &nothing)
            },
            ParsedInput::PassThrough(raw) => self.handle_action(
                Action::PassThrough,
                raw.as_slice(),
            ),
            ParsedInput::Pending => Step::Done,
        }
    }

    /// The preview asked for anew if a server-pane is selected, else cleared.
    pub open spec fn preview_refreshed(self) -> (App, Step) {
        match (self.selected_row(), self.attach_menu) {
            (Some(AttachMenuRow::Server(i)), Some(menu)) => {
                let target = menu.servers@[i as int].1.id;
                (
                    self,
                    Step::Send(Request::ServerRead { target }, Pending::Preview(target)),
                )
            },
            _ => (App { attach_menu_preview: None, ..self }, Step::Done),
        }
    }

    /// Ask for the selected server-pane's screen, or clear the preview.
    pub fn refresh_attach_menu_preview(&mut self) -> (r: Step)
        requires
            old(self).wf(),
        ensures
            (*final(self), r) == old(self).preview_refreshed(),
            final(self).wf(),
            final(self).expects(r),
    {
        match (self.selected_attach_menu_row(), &self.attach_menu) {
            (Some(AttachMenuRow::Server(i)), Some(menu)) => {
                let target = menu.servers[i].1.id;
                Step::Send(Request::ServerRead { target }, Pending::Preview(target))
            },
            _ => {
                self.attach_menu_preview = None;
                Step::Done
            },
        }
    }

    /// Ask for the names of all server-panes.
    pub fn refresh_server_names(&self) -> (r: Step)
        ensures
            r == Step::Send(Request::ServerList, Pending::Names),
            self.expects(r),
    {
        Step::Send(Request::ServerList, Pending::Names)
    }

    /// Take note of the screen's size.
    pub fn set_frame_area(&mut self, area: Rect)
        requires
            old(self).wf(),
            area.x + area.width <= u16::MAX,
            area.y + area.height <= u16::MAX,
        ensures
            *final(self) == (App { frame_area: area, ..*old(self) }),
            final(self).wf(),
    {
        self.frame_area = area;
    }

    /// Take note of the sizes that have changed on a screen where the panes stand
    /// at `leaves`, and say which.
    pub fn report_sizes_on(&mut self, leaves: &Vec<(ClientPaneId, Rect)>) -> (r: Vec<
        (ClientPaneId, Size),
    >)
        ensures
            r@ == size_changes(old(self).pane_sizes@, leaves@),
            final(self).pane_sizes@ == with_sizes(old(self).pane_sizes@, r@),
            *final(self) == (App { pane_sizes: final(self).pane_sizes, ..*old(self) }),
            old(self).wf() ==> final(self).wf(),
    {
        let changed = changed_sizes(&self.pane_sizes, leaves);
        record_sizes(&mut self.pane_sizes, &changed);
        changed
    }

    /// Take note of the sizes that have changed since the last frame. Each is to be
    /// sent as a `ResizeClientPane`.
    pub fn report_sizes(&mut self) -> (r: Vec<(ClientPaneId, Size)>)
        requires
            old(self).wf(),
        ensures
            match old(self).workspace.tree {
                Some(tree) => exists|p: Placement| #[trigger]
                    places(tree, old(self).frame_area, p) && r@ == size_changes(
                        old(self).pane_sizes@,
                        p.leaves(),
                    ),
                None => r@.len() == 0,
            },
            final(self).pane_sizes@ == with_sizes(old(self).pane_sizes@, r@),
            *final(self) == (App { pane_sizes: final(self).pane_sizes, ..*old(self) }),
            final(self).wf(),
    {
        match &self.workspace.tree {
            None => Vec::new(),
            Some(tree) => {
                let placement = place(tree, self.frame_area, None);
                let leaves = placement.leaf_rects();
                self.report_sizes_on(&leaves)
            },
        }
    }
}

/// The sizes last reported, after `changes` were.
pub open spec fn with_sizes(
    reported: Map<ClientPaneId, Size>,
    changes: Seq<(ClientPaneId, Size)>,
) -> Map<ClientPaneId, Size>
    decreases changes.len(),
{
    if changes.len() == 0 {
        reported
    } else {
        with_sizes(reported, changes.drop_last()).insert(changes.last().0, changes.last().1)
    }
}

fn record_sizes(reported: &mut HashMap<ClientPaneId, Size>, changes: &Vec<(ClientPaneId, Size)>)
    ensures
        final(reported)@ == with_sizes(old(reported)@, changes@),
{
    broadcast use vstd::std_specs::hash::group_hash_axioms;

    let mut i: usize = 0;
    assert(changes@.take(0) =~= Seq::empty());
    while i < changes.len()
        invariant
            i <= changes@.len(),
            reported@ == with_sizes(old(reported)@, changes@.take(i as int)),
        decreases changes@.len() - i,
    {
        let (id, size) = changes[i];
        let _ = reported.insert(id, size);
        assert(changes@.take(i + 1).drop_last() =~= changes@.take(i as int));
        i += 1;
    }
    assert(changes@.take(changes@.len() as int) =~= changes@);
}

} // verus!
