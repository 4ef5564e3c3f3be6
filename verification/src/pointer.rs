//! What the mouse does: divider drags, focus by click, text selection, scrolling.

use crate::app::{App, Drag, Pending, Step, SCROLL_ROWS_PER_TICK};
use crate::geometry::Rect;
use crate::layout::{
    area_of, divider_at, divider_of, dragged_ratio, find_area_of, find_divider_of, find_leaf_at,
    hit_test_dividers, leaf_at, panes_lie_in_the_area, place, places, ratio_at, Placement,
};
use crate::mouse::MouseEvent;
use crate::protocol::{ClientPaneId, Request, ServerPaneId};
use crate::selection::{
    cell_nearest, cell_under, clamped_position, has_content_row, position_at, selected_text,
    selection_text, GridPosition, TextSelection,
};
use vstd::prelude::*;

verus! {

/// The panes with their areas; none where nothing is laid out.
pub open spec fn leaves_of(placement: Option<Placement>) -> Seq<(ClientPaneId, Rect)> {
    match placement {
        Some(p) => p.leaves(),
        None => Seq::empty(),
    }
}

/// Whether the content rows of every pane can be counted.
pub open spec fn contents_fit(placement: Option<Placement>) -> bool {
    forall|i: int|
        0 <= i < leaves_of(placement).len() ==> has_content_row(
            (#[trigger] leaves_of(placement)[i]).1,
        )
}

impl App {
    /// The selection that a press at `(col, row)` begins in `pane`: one cell, if
    /// the pane's screen has one there.
    pub open spec fn selection_begun(
        self,
        pane: ClientPaneId,
        area: Rect,
        col: u16,
        row: u16,
    ) -> Option<TextSelection> {
        match self.workspace.pane_bound(pane) {
            Some(server_pane) if self.grids@.contains_key(server_pane) => match cell_under(
                area,
                self.grids@[server_pane],
                col,
                row,
            ) {
                Some(start) => Some(
                    TextSelection { pane, server_pane, start, end: start, dragging: true },
                ),
                None => None,
            },
            _ => None,
        }
    }

    /// A button pressed: a divider is grabbed, or else the pane there is focused
    /// and a selection begun in it.
    pub open spec fn pressed(self, placement: Option<Placement>, col: u16, row: u16) -> App {
        let app = App { dragging_split: None, text_selection: None, ..self };
        match placement {
            None => app,
            Some(p) => match divider_at(p.dividers(), col, row) {
                Some(hit) => App {
                    dragging_split: match divider_of(p.dividers(), hit.split) {
                        Some(first) => Some(
                            Drag { split: hit.split, ratio: dragged_ratio(first, col, row) },
                        ),
                        None => None,
                    },
                    ..app
                },
                None => match leaf_at(p.leaves(), col, row) {
                    Some((pane, area)) => App {
                        focused: Some(pane),
                        text_selection: self.selection_begun(pane, area, col, row),
                        ..app
                    },
                    None => app,
                },
            },
        }
    }

    fn begin_selection(&self, pane: ClientPaneId, area: Rect, col: u16, row: u16) -> (r: Option<
        TextSelection,
    >)
        requires
            has_content_row(area),
        ensures
            r == self.selection_begun(pane, area, col, row),
    {
        broadcast use vstd::std_specs::hash::group_hash_axioms;

        match self.workspace.active_bound(pane) {
            None => None,
            Some(server_pane) => match self.grids.get(&server_pane) {
                None => None,
                Some(snapshot) => match position_at(area, snapshot, col, row) {
                    Some(start) => Some(TextSelection::new(pane, server_pane, start)),
                    None => None,
                },
            },
        }
    }

    fn press(&mut self, placement: Option<&Placement>, col: u16, row: u16)
        requires
            contents_fit(placement_behind(placement)),
        ensures
            *final(self) == old(self).pressed(placement_behind(placement), col, row),
    {
        self.dragging_split = None;
        self.text_selection = None;
        match placement {
            None => {},
            Some(p) => {
                let hits = p.divider_rects();
                match hit_test_dividers(&hits, col, row) {
                    Some(split) => {
                        self.dragging_split = match find_divider_of(&hits, split) {
                            Some(first) => Some(
                                Drag { split, ratio: ratio_at(&first, col, row) },
                            ),
                            None => None,
                        };
                    },
                    None => {
                        let leaves = p.leaf_rects();
                        match find_leaf_at(&leaves, col, row) {
                            None => {},
                            Some((pane, area)) => {
                                proof {
                                    leaf_at_is_a_leaf(p.leaves(), col, row);
                                    let i = choose|i: int|
                                        0 <= i < p.leaves().len() && p.leaves()[i] == (pane, area);
                                    assert(leaves_of(placement_behind(placement))[i].1 == area);
                                }
                                let selection = self.begin_selection(pane, area, col, row);
                                self.focused = Some(pane);
                                self.text_selection = selection;
                            },
                        }
                    },
                }
            },
        }
    }

    /// What scrolls the pane at `(col, row)`, focused or not.
    pub open spec fn scrolling(
        self,
        placement: Option<Placement>,
        col: u16,
        row: u16,
        delta: i32,
    ) -> Step {
        match leaf_at(leaves_of(placement), col, row) {
            Some((pane, _)) => Step::Send(
                Request::ScrollClientPane { pane, delta },
                Pending::Discard,
            ),
            None => Step::Done,
        }
    }

    fn scroll_pane_under(
        &self,
        placement: Option<&Placement>,
        col: u16,
        row: u16,
        delta: i32,
    ) -> (r: Step)
        ensures
            r == self.scrolling(placement_behind(placement), col, row, delta),
    {
        match placement {
            None => Step::Done,
            Some(p) => match find_leaf_at(&p.leaf_rects(), col, row) {
                Some((pane, _)) => Step::Send(
                    Request::ScrollClientPane { pane, delta },
                    Pending::Discard,
                ),
                None => Step::Done,
            },
        }
    }

    /// The cell of `pane`, which shows `server_pane`, nearest to `(col, row)`.
    pub open spec fn nearest_cell(
        self,
        placement: Option<Placement>,
        pane: ClientPaneId,
        server_pane: ServerPaneId,
        col: u16,
        row: u16,
    ) -> Option<GridPosition> {
        match area_of(leaves_of(placement), pane) {
            Some(area) if self.grids@.contains_key(server_pane) => cell_nearest(
                area,
                self.grids@[server_pane],
                col,
                row,
            ),
            _ => None,
        }
    }

    fn selection_position(
        &self,
        placement: Option<&Placement>,
        pane: ClientPaneId,
        server_pane: ServerPaneId,
        col: u16,
        row: u16,
    ) -> (r: Option<GridPosition>)
        requires
            contents_fit(placement_behind(placement)),
        ensures
            r == self.nearest_cell(placement_behind(placement), pane, server_pane, col, row),
    {
        broadcast use vstd::std_specs::hash::group_hash_axioms;

        let leaves: Vec<(ClientPaneId, Rect)> = match placement {
            None => Vec::new(),
            Some(p) => p.leaf_rects(),
        };
        assert(leaves@ =~= leaves_of(placement_behind(placement)));
        match find_area_of(&leaves, pane) {
            None => None,
            Some(area) => {
                proof {
                    area_of_is_a_leaf(leaves@, pane);
                }
                match self.grids.get(&server_pane) {
                    Some(snapshot) => clamped_position(area, snapshot, col, row),
                    None => None,
                }
            },
        }
    }

    /// The pointer moved with the button held: a grabbed divider follows it, or
    /// else the selection's end does. Nothing is sent.
    pub open spec fn dragged(self, placement: Option<Placement>, col: u16, row: u16) -> App {
        match self.dragging_split {
            Some(drag) => match placement {
                None => self,
                Some(p) => App {
                    dragging_split: match divider_of(p.dividers(), drag.split) {
                        Some(hit) => Some(
                            Drag { split: drag.split, ratio: dragged_ratio(hit, col, row) },
                        ),
                        None => None,
                    },
                    ..self
                },
            },
            None => match self.text_selection {
                Some(s) if s.dragging => match self.nearest_cell(
                    placement,
                    s.pane,
                    s.server_pane,
                    col,
                    row,
                ) {
                    Some(end) => App {
                        text_selection: Some(TextSelection { end, ..s }),
                        ..self
                    },
                    None => self,
                },
                _ => self,
            },
        }
    }

    fn drag(&mut self, placement: Option<&Placement>, col: u16, row: u16)
        requires
            contents_fit(placement_behind(placement)),
        ensures
            *final(self) == old(self).dragged(placement_behind(placement), col, row),
    {
        match self.dragging_split {
            Some(drag) => {
                match placement {
                    None => {},
                    Some(p) => {
                        self.dragging_split = match find_divider_of(&p.divider_rects(), drag.split) {
                            Some(hit) => Some(
                                Drag { split: drag.split, ratio: ratio_at(&hit, col, row) },
                            ),
                            None => None,
                        };
                    },
                }
            },
            None => {
                match self.text_selection {
                    Some(mut selection) => {
                        if selection.is_dragging() {
                            match self.selection_position(
                                placement,
                                selection.pane(),
                                selection.server_pane(),
                                col,
                                row,
                            ) {
                                Some(end) => {
                                    selection.update(end);
                                    self.text_selection = Some(selection);
                                },
                                None => {},
                            }
                        }
                    },
                    None => {},
                }
            },
        }
    }

    /// The text of a finished selection, if it has any.
    pub open spec fn copied_text(self, selection: TextSelection) -> Option<Seq<char>> {
        if self.grids@.contains_key(selection.server_pane) {
            match selection_text(self.grids@[selection.server_pane], selection) {
                Some(text) if text.len() > 0 => Some(text),
                _ => None,
            }
        } else {
            None
        }
    }

    /// Whether `after` and `step` are what a release does: a dragged divider is
    /// committed with one request; a selection that went anywhere stays and its
    /// text is copied; a click leaves no selection.
    pub open spec fn releases(
        self,
        placement: Option<Placement>,
        col: u16,
        row: u16,
        after: App,
        step: Step,
    ) -> bool {
        match self.dragging_split {
            Some(drag) => {
                &&& after == App { dragging_split: None, ..self }
                &&& step == Step::Send(
                    Request::ResizeSplit {
                        workspace: self.workspace.id,
                        split: drag.split,
                        new_ratio: drag.ratio,
                    },
                    Pending::Discard,
                )
            },
            None => match self.text_selection {
                Some(s) if s.dragging => match self.nearest_cell(
                    placement,
                    s.pane,
                    s.server_pane,
                    col,
                    row,
                ) {
                    Some(end) if end != s.start => {
                        let finished = TextSelection { end, dragging: false, ..s };
                        &&& after == App { text_selection: Some(finished), ..self }
                        &&& match self.copied_text(finished) {
                            Some(text) => step matches Step::Copy(copied) && copied@ == text,
                            None => step == Step::Done,
                        }
                    },
                    _ => after == App { text_selection: None, ..self } && step == Step::Done,
                },
                _ => after == self && step == Step::Done,
            },
        }
    }

    fn release(&mut self, placement: Option<&Placement>, col: u16, row: u16) -> (r: Step)
        requires
            contents_fit(placement_behind(placement)),
        ensures
            old(self).releases(placement_behind(placement), col, row, *final(self), r),
    {
        broadcast use vstd::std_specs::hash::group_hash_axioms;

        match self.dragging_split {
            Some(drag) => {
                self.dragging_split = None;
                return Step::Send(
                    Request::ResizeSplit {
                        workspace: self.workspace.id,
                        split: drag.split,
                        new_ratio: drag.ratio,
                    },
                    Pending::Discard,
                );
            },
            None => {},
        }
        let mut selection = match self.text_selection {
            Some(selection) => selection,
            None => {
                return Step::Done;
            },
        };
        if !selection.is_dragging() {
            return Step::Done;
        }
        let end = match self.selection_position(
            placement,
            selection.pane(),
            selection.server_pane(),
            col,
            row,
        ) {
            Some(end) => end,
            None => {
                self.text_selection = None;
                return Step::Done;
            },
        };
        if !selection.finish(end) {
            self.text_selection = None;
            return Step::Done;
        }
        self.text_selection = Some(selection);
        match self.grids.get(&selection.server_pane) {
            None => Step::Done,
            Some(snapshot) => match selected_text(snapshot, &selection) {
                None => Step::Done,
                Some(text) => {
                    if text.as_str().is_empty() {
                        Step::Done
                    } else {
                        Step::Copy(text)
                    }
                },
            },
        }
    }

    /// Whether `after` and `step` are what a mouse event does on a screen laid out
    /// as `placement`.
    pub open spec fn takes_mouse_on(
        self,
        placement: Option<Placement>,
        event: MouseEvent,
        after: App,
        step: Step,
    ) -> bool {
        match event {
            MouseEvent::Down { col, row } => after == self.pressed(placement, col, row) && step
                == Step::Done,
            MouseEvent::Drag { col, row } => after == self.dragged(placement, col, row) && step
                == Step::Done,
            MouseEvent::Up { col, row } => self.releases(placement, col, row, after, step),
            MouseEvent::ScrollUp { col, row } => after == App { text_selection: None, ..self }
                && step == self.scrolling(placement, col, row, SCROLL_ROWS_PER_TICK),
            MouseEvent::ScrollDown { col, row } => after == App { text_selection: None, ..self }
                && step == self.scrolling(placement, col, row, (-SCROLL_ROWS_PER_TICK) as i32),
        }
    }

    /// Take a mouse event on a screen laid out as `placement`.
    pub fn handle_mouse_on(&mut self, placement: Option<&Placement>, event: MouseEvent) -> (r: Step)
        requires
            old(self).wf(),
            contents_fit(placement_behind(placement)),
        ensures
            old(self).takes_mouse_on(placement_behind(placement), event, *final(self), r),
            final(self).wf(),
            final(self).expects(r),
    {
        match event {
            MouseEvent::Down { col, row } => {
                self.press(placement, col, row);
                Step::Done
            },
            MouseEvent::Drag { col, row } => {
                self.drag(placement, col, row);
                Step::Done
            },
            MouseEvent::Up { col, row } => self.release(placement, col, row),
            MouseEvent::ScrollUp { col, row } => {
                self.text_selection = None;
                self.scroll_pane_under(placement, col, row, SCROLL_ROWS_PER_TICK)
            },
            MouseEvent::ScrollDown { col, row } => {
                self.text_selection = None;
                self.scroll_pane_under(placement, col, row, -SCROLL_ROWS_PER_TICK)
            },
        }
    }

    /// Whether `after` and `step` are what a mouse event does, however the panes
    /// came to stand.
    pub open spec fn takes_mouse(self, event: MouseEvent, after: App, step: Step) -> bool {
        match self.workspace.tree {
            None => self.takes_mouse_on(None, event, after, step),
            Some(tree) => exists|p: Placement| #[trigger]
                places(tree, self.frame_area, p) && self.takes_mouse_on(
                    Some(p),
                    event,
                    after,
                    step,
                ),
        }
    }

    /// Take a mouse event.
    pub fn handle_mouse(&mut self, event: MouseEvent) -> (r: Step)
        requires
            old(self).wf(),
        ensures
            old(self).takes_mouse(event, *final(self), r),
            final(self).wf(),
            final(self).expects(r),
    {
        match &self.workspace.tree {
            None => self.handle_mouse_on(None, event),
            Some(tree) => {
                let placement = place(tree, self.frame_area, None);
                proof {
                    panes_lie_in_the_area(*tree, self.frame_area, placement);
                    assert forall|i: int| 0 <= i < placement.leaves().len() implies has_content_row(
                        (#[trigger] placement.leaves()[i]).1,
                    ) by {
                        assert(placement.leaves()[i].1.inside(self.frame_area));
                    }
                }
                self.handle_mouse_on(Some(&placement), event)
            },
        }
    }
}

/// The placement behind a reference.
pub open spec fn placement_behind(placement: Option<&Placement>) -> Option<Placement> {
    match placement {
        Some(p) => Some(*p),
        None => None,
    }
}

proof fn leaf_at_is_a_leaf(leaves: Seq<(ClientPaneId, Rect)>, col: u16, row: u16)
    ensures
        leaf_at(leaves, col, row) matches Some(leaf) ==> leaves.contains(leaf),
{
    crate::bytes::first_where_props(
        crate::layout::shows_at(leaves, col, row),
        0,
        leaves.len() as int,
    );
}

proof fn area_of_is_a_leaf(leaves: Seq<(ClientPaneId, Rect)>, pane: ClientPaneId)
    ensures
        area_of(leaves, pane) matches Some(area) ==> exists|i: int|
            0 <= i < leaves.len() && (#[trigger] leaves[i]).1 == area,
{
    crate::bytes::first_where_props(
        crate::layout::is_pane(leaves, pane),
        0,
        leaves.len() as int,
    );
}

} // verus!
