//! What the client and the daemon tell each other, and the state they share.
//!
//! Identifiers are plain 128-bit numbers; how they are written on the wire is
//! the embedding program's business.

use crate::geometry::Ratio;
use vstd::prelude::*;

verus! {

/// A leaf of a workspace's layout.
pub type ClientPaneId = u128;

/// A process with a screen, run by the daemon.
pub type ServerPaneId = u128;

pub type WorkspaceId = u128;

/// A divider of a workspace's layout.
pub type SplitId = u128;

#[derive(Debug, Clone, Copy, PartialEq, Eq, Structural)]
pub struct Size {
    pub rows: u16,
    pub cols: u16,
}

/// A split, named after its divider line: a vertical line has panes to its left
/// and right, a horizontal one has panes above and below.
#[derive(Debug, Clone, Copy, PartialEq, Eq, Structural)]
pub enum SplitDir {
    Horizontal,
    Vertical,
}

/// A leaf of the layout: the server-panes it holds as tabs, of which one shows.
#[derive(Debug, PartialEq, Eq)]
pub struct ClientPane {
    pub id: ClientPaneId,
    pub short_id: String,
    pub tabs: Vec<ServerPaneId>,
    pub active_tab: usize,
}

impl ClientPane {
    /// The server-pane in the active tab.
    pub open spec fn bound(self) -> Option<ServerPaneId> {
        if self.active_tab < self.tabs@.len() {
            Some(self.tabs@[self.active_tab as int])
        } else {
            None
        }
    }

    /// The server-pane in the active tab, if there is one.
    pub fn active_bound(&self) -> (r: Option<ServerPaneId>)
        ensures
            r == self.bound(),
    {
        if self.active_tab < self.tabs.len() {
            Some(self.tabs[self.active_tab])
        } else {
            None
        }
    }
}

/// A workspace's layout. `percent` is the first child's share of a split.
#[derive(Debug, PartialEq, Eq)]
pub enum SplitTree {
    Leaf(ClientPane),
    Split { id: SplitId, dir: SplitDir, percent: u16, a: Box<SplitTree>, b: Box<SplitTree> },
}

/// The first of `panes` with this id.
pub open spec fn pane_with_id(panes: Seq<ClientPane>, id: ClientPaneId) -> Option<ClientPane>
    decreases panes.len(),
{
    if panes.len() == 0 {
        None
    } else if panes[0].id == id {
        Some(panes[0])
    } else {
        pane_with_id(panes.skip(1), id)
    }
}

/// A search through two runs of panes tries the first run first.
proof fn pane_with_id_concat(xs: Seq<ClientPane>, ys: Seq<ClientPane>, id: ClientPaneId)
    ensures
        pane_with_id(xs + ys, id) == match pane_with_id(xs, id) {
            Some(pane) => Some(pane),
            None => pane_with_id(ys, id),
        },
    decreases xs.len(),
{
    if xs.len() == 0 {
        assert(xs + ys =~= ys);
    } else {
        assert((xs + ys).skip(1) =~= xs.skip(1) + ys);
        pane_with_id_concat(xs.skip(1), ys, id);
    }
}

/// The pane that a search finds is one of those searched, and has the id that
/// was looked for.
pub proof fn pane_with_id_is_among(panes: Seq<ClientPane>, id: ClientPaneId)
    ensures
        match pane_with_id(panes, id) {
            Some(pane) => pane.id == id && panes.contains(pane),
            None => forall|i: int| 0 <= i < panes.len() ==> (#[trigger] panes[i]).id != id,
        },
    decreases panes.len(),
{
    if panes.len() > 0 && panes[0].id != id {
        pane_with_id_is_among(panes.skip(1), id);
        match pane_with_id(panes.skip(1), id) {
            Some(pane) => {
                let i = choose|i: int| 0 <= i < panes.skip(1).len() && panes.skip(1)[i] == pane;
                assert(panes[i + 1] == pane);
            },
            None => {
                assert forall|i: int| 0 <= i < panes.len() implies (#[trigger] panes[i]).id
                    != id by {
                    if i > 0 {
                        assert(panes.skip(1)[i - 1] == panes[i]);
                    }
                }
            },
        }
    }
}

impl SplitTree {
    /// The leaves, first child before second.
    pub open spec fn panes(self) -> Seq<ClientPane>
        decreases self,
    {
        match self {
            SplitTree::Leaf(pane) => seq![pane],
            SplitTree::Split { a, b, .. } => a.panes() + b.panes(),
        }
    }

    /// The tree with the split `id` given a new share.
    pub open spec fn with_share(self, split: SplitId, share: u16) -> SplitTree
        decreases self,
    {
        match self {
            SplitTree::Leaf(_) => self,
            SplitTree::Split { id, dir, percent, a, b } => SplitTree::Split {
                id,
                dir,
                percent: if id == split {
                    share
                } else {
                    percent
                },
                a: Box::new(a.with_share(split, share)),
                b: Box::new(b.with_share(split, share)),
            },
        }
    }

    /// The first leaf, which every layout has.
    pub fn first_pane(&self) -> (r: &ClientPane)
        ensures
            self.panes().len() > 0,
            *r == self.panes()[0],
        decreases self,
    {
        match self {
            SplitTree::Leaf(pane) => pane,
            SplitTree::Split { a, .. } => a.first_pane(),
        }
    }

    /// The leaf with this id.
    pub fn find(&self, id: ClientPaneId) -> (r: Option<&ClientPane>)
        ensures
            match r {
                Some(pane) => pane_with_id(self.panes(), id) == Some(*pane),
                None => pane_with_id(self.panes(), id) is None,
            },
        decreases self,
    {
        match self {
            SplitTree::Leaf(pane) => {
                reveal_with_fuel(pane_with_id, 2);
                if pane.id == id {
                    Some(pane)
                } else {
                    None
                }
            },
            SplitTree::Split { a, b, .. } => {
                proof {
                    pane_with_id_concat(a.panes(), b.panes(), id);
                }
                match a.find(id) {
                    Some(pane) => Some(pane),
                    None => b.find(id),
                }
            },
        }
    }
}

#[derive(Debug, PartialEq, Eq)]
pub struct WorkspaceInfo {
    pub id: WorkspaceId,
    /// `None` for a workspace without panes.
    pub tree: Option<SplitTree>,
}

impl WorkspaceInfo {
    /// The leaf with this id.
    pub open spec fn pane(self, id: ClientPaneId) -> Option<ClientPane> {
        match self.tree {
            Some(tree) => pane_with_id(tree.panes(), id),
            None => None,
        }
    }

    /// What the leaf with this id shows.
    pub open spec fn pane_bound(self, id: ClientPaneId) -> Option<ServerPaneId> {
        match self.pane(id) {
            Some(pane) => pane.bound(),
            None => None,
        }
    }

    /// The first leaf's id.
    pub open spec fn first_pane_id(self) -> Option<ClientPaneId> {
        match self.tree {
            Some(tree) => Some(tree.panes()[0].id),
            None => None,
        }
    }

    /// The leaf with this id.
    pub fn find(&self, id: ClientPaneId) -> (r: Option<&ClientPane>)
        ensures
            match r {
                Some(pane) => self.pane(id) == Some(*pane),
                None => self.pane(id) is None,
            },
    {
        match &self.tree {
            Some(tree) => tree.find(id),
            None => None,
        }
    }

    /// What the leaf with this id shows.
    pub fn active_bound(&self, id: ClientPaneId) -> (r: Option<ServerPaneId>)
        ensures
            r == self.pane_bound(id),
    {
        match self.find(id) {
            Some(pane) => pane.active_bound(),
            None => None,
        }
    }
}

/// The first leaf of `workspace`, or `None` if it has none.
pub fn first_leaf(workspace: &WorkspaceInfo) -> (r: Option<ClientPaneId>)
    ensures
        r == workspace.first_pane_id(),
{
    match &workspace.tree {
        Some(tree) => Some(tree.first_pane().id),
        None => None,
    }
}

/// A colour as red, green and blue.
#[derive(Debug, Clone, Copy, PartialEq, Eq, Structural)]
pub struct Rgb(pub u8, pub u8, pub u8);

/// Where a screen's cursor stands.
#[derive(Debug, Clone, Copy, PartialEq, Eq, Structural)]
pub struct CursorPosition {
    pub col: u16,
    pub row: u16,
}

/// One screen cell.
#[derive(Debug, PartialEq, Eq)]
pub struct Cell {
    pub text: String,
    pub fg: Option<Rgb>,
    pub bg: Option<Rgb>,
    pub bold: bool,
    pub italic: bool,
    pub underline: bool,
    pub reverse: bool,
}

/// A server-pane's screen.
#[derive(Debug, PartialEq, Eq)]
pub struct GridSnapshot {
    pub server_pane: ServerPaneId,
    pub cursor: CursorPosition,
    pub lines: Vec<Vec<Cell>>,
    pub scroll_offset: usize,
}

#[derive(Debug, Clone, Copy, PartialEq, Eq, Structural)]
pub enum ServerPaneStatus {
    Running,
    Dead,
}

#[derive(Debug, PartialEq, Eq)]
pub struct ForegroundProcessInfo {
    pub process_name: String,
    pub cwd: Option<String>,
    /// The name of the coding tool that the daemon recognised, if it is one.
    pub session_kind: Option<String>,
}

/// A place where a server-pane is shown: `active` if its tab is the visible one.
#[derive(Debug, PartialEq, Eq)]
pub struct AttachedBinding {
    pub workspace_number: u8,
    pub client_short_id: String,
    pub active: bool,
}

#[derive(Debug, PartialEq, Eq)]
pub struct ServerPaneInfo {
    pub id: ServerPaneId,
    pub short_id: String,
    pub name: Option<String>,
    pub status: ServerPaneStatus,
    pub foreground: Option<ForegroundProcessInfo>,
    pub attached_to: Vec<AttachedBinding>,
}

/// What the client asks of the daemon.
#[derive(Debug, PartialEq, Eq)]
pub enum Request {
    /// Follow the workspace with this number.
    Subscribe { number: u8 },
    Unsubscribe { workspace: WorkspaceId },
    ConsumeShellFallback,
    ServerSpawn { cwd: Option<String> },
    ServerKill { target: ServerPaneId },
    ServerRename { target: ServerPaneId, new_name: String },
    ServerRead { target: ServerPaneId },
    ServerSend { target: ServerPaneId, text: String, enter: bool },
    ServerList,
    PinnedDirsList,
    ToggleDirectoryPin { directory: String },
    ClientSpawn {
        workspace: WorkspaceId,
        split_of: Option<ClientPaneId>,
        dir: Option<SplitDir>,
        bind: Option<ServerPaneId>,
    },
    ClientBind { workspace: WorkspaceId, pane: ClientPaneId, target: ServerPaneId },
    ClientAddTab { workspace: WorkspaceId, pane: ClientPaneId, target: ServerPaneId },
    ClientUnbind { workspace: WorkspaceId, pane: ClientPaneId },
    ClientCloseTab { workspace: WorkspaceId, pane: ClientPaneId },
    ClientCycleTab { workspace: WorkspaceId, pane: ClientPaneId, forward: bool },
    ResizeSplit { workspace: WorkspaceId, split: SplitId, new_ratio: Ratio },
    ResizeClientPane { pane: ClientPaneId, size: Size },
    ScrollClientPane { pane: ClientPaneId, delta: i32 },
    Input { pane: ClientPaneId, bytes: Vec<u8> },
}

/// What the daemon answers.
#[derive(Debug, PartialEq, Eq)]
pub enum Response {
    Ack,
    Error { message: String },
    Snapshot { workspace: WorkspaceInfo, grids: Vec<GridSnapshot> },
    ShellFallback { available: bool },
    ServerPane(ServerPaneInfo),
    ServerPaneList(Vec<ServerPaneInfo>),
    ServerReadOutput { text: String },
    PinnedDirsList(Vec<String>),
    ClientPaneCreated { pane: ClientPaneId },
}

/// What the daemon reports unasked while a workspace is followed.
#[derive(Debug, PartialEq, Eq)]
pub enum Event {
    LayoutDelta { workspace: WorkspaceId, tree: Option<SplitTree> },
    GridDelta { snapshot: GridSnapshot },
    ServerPaneDied { server_pane: ServerPaneId },
}

} // verus!
