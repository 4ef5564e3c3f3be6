//! What can be done from the keyboard, and the keys for it.
//!
//! This is the one table that parsing, the generated terminal configuration and
//! the listings go by.

use crate::bytes::{first_where, first_where_is, first_where_none, same_bytes, starts_with};
use crate::text::same_text;
use vstd::prelude::*;

verus! {

/// What a keypress can ask for.
#[derive(Debug, Clone, Copy, PartialEq, Eq, Structural)]
pub enum Action {
    SwitchWorkspace(u8),
    /// Show the server-pane with this number in the focused pane.
    JumpSession(u8),
    SplitVertical,
    SplitHorizontal,
    CloseFocusedPane,
    KillFocusedServerPane,
    /// Detach the focused pane and open the attach menu.
    DetachAndAttach,
    AddTab,
    CycleTabForward,
    CycleTabBackward,
    FocusLeft,
    FocusRight,
    FocusUp,
    FocusDown,
    Quit,
    /// Not for this program: hand the keys to the focused pane.
    PassThrough,
}

/// How many actions are bound.
pub const BOUND_ACTIONS: usize = 31;

/// The bound actions, in the order of the table.
pub open spec fn bound_action_at(i: int) -> Action {
    if i < 9 {
        Action::SwitchWorkspace((i + 1) as u8)
    } else if i < 18 {
        Action::JumpSession((i - 8) as u8)
    } else {
        seq![
            Action::SplitVertical,
            Action::SplitHorizontal,
            Action::CloseFocusedPane,
            Action::KillFocusedServerPane,
            Action::DetachAndAttach,
            Action::FocusLeft,
            Action::FocusDown,
            Action::FocusUp,
            Action::FocusRight,
            Action::AddTab,
            Action::CycleTabForward,
            Action::CycleTabBackward,
            Action::Quit,
        ][i - 18]
    }
}

/// Whether an action is in the table.
pub open spec fn is_bound(action: Action) -> bool {
    match action {
        Action::SwitchWorkspace(n) => 1 <= n <= 9,
        Action::JumpSession(n) => 1 <= n <= 9,
        Action::PassThrough => false,
        _ => true,
    }
}

/// The keys that follow the prefix for a bound action; also the tag of its Kitty
/// chord.
pub open spec fn chord_of(action: Action) -> Seq<u8> {
    match action {
        Action::SwitchWorkspace(n) => if 1 <= n <= 9 {
            seq![('0' as u8 + n) as u8]
        } else {
            seq![]
        },
        Action::JumpSession(n) => if 1 <= n <= 9 {
            seq!['s' as u8, ('0' as u8 + n) as u8]
        } else {
            seq![]
        },
        Action::SplitVertical => seq!['d' as u8],
        Action::SplitHorizontal => seq!['D' as u8],
        Action::CloseFocusedPane => seq!['w' as u8],
        Action::KillFocusedServerPane => seq!['W' as u8],
        Action::DetachAndAttach => seq!['Z' as u8],
        Action::FocusLeft => seq!['h' as u8],
        Action::FocusDown => seq!['j' as u8],
        Action::FocusUp => seq!['k' as u8],
        Action::FocusRight => seq!['l' as u8],
        Action::AddTab => seq!['t' as u8],
        Action::CycleTabForward => seq![']' as u8],
        Action::CycleTabBackward => seq!['[' as u8],
        Action::Quit => seq!['q' as u8],
        Action::PassThrough => seq![],
    }
}

/// The name of an action in configuration files.
pub open spec fn name_of(action: Action) -> Seq<char> {
    match action {
        Action::SwitchWorkspace(1) => "workspace-1"@,
        Action::SwitchWorkspace(2) => "workspace-2"@,
        Action::SwitchWorkspace(3) => "workspace-3"@,
        Action::SwitchWorkspace(4) => "workspace-4"@,
        Action::SwitchWorkspace(5) => "workspace-5"@,
        Action::SwitchWorkspace(6) => "workspace-6"@,
        Action::SwitchWorkspace(7) => "workspace-7"@,
        Action::SwitchWorkspace(8) => "workspace-8"@,
        Action::SwitchWorkspace(9) => "workspace-9"@,
        Action::JumpSession(1) => "session-1"@,
        Action::JumpSession(2) => "session-2"@,
        Action::JumpSession(3) => "session-3"@,
        Action::JumpSession(4) => "session-4"@,
        Action::JumpSession(5) => "session-5"@,
        Action::JumpSession(6) => "session-6"@,
        Action::JumpSession(7) => "session-7"@,
        Action::JumpSession(8) => "session-8"@,
        Action::JumpSession(9) => "session-9"@,
        Action::SplitVertical => "split-vertical"@,
        Action::SplitHorizontal => "split-horizontal"@,
        Action::CloseFocusedPane => "close-tab"@,
        Action::KillFocusedServerPane => "kill-session"@,
        Action::DetachAndAttach => "choose-session"@,
        Action::FocusLeft => "focus-left"@,
        Action::FocusDown => "focus-down"@,
        Action::FocusUp => "focus-up"@,
        Action::FocusRight => "focus-right"@,
        Action::AddTab => "add-tab"@,
        Action::CycleTabForward => "next-tab"@,
        Action::CycleTabBackward => "previous-tab"@,
        Action::Quit => "quit"@,
        _ => "unsupported"@,
    }
}

/// The name of an action in configuration files.
pub fn action_name(action: Action) -> (r: &'static str)
    ensures
        r@ == name_of(action),
{
    match action {
        Action::SwitchWorkspace(1) => "workspace-1",
        Action::SwitchWorkspace(2) => "workspace-2",
        Action::SwitchWorkspace(3) => "workspace-3",
        Action::SwitchWorkspace(4) => "workspace-4",
        Action::SwitchWorkspace(5) => "workspace-5",
        Action::SwitchWorkspace(6) => "workspace-6",
        Action::SwitchWorkspace(7) => "workspace-7",
        Action::SwitchWorkspace(8) => "workspace-8",
        Action::SwitchWorkspace(9) => "workspace-9",
        Action::JumpSession(1) => "session-1",
        Action::JumpSession(2) => "session-2",
        Action::JumpSession(3) => "session-3",
        Action::JumpSession(4) => "session-4",
        Action::JumpSession(5) => "session-5",
        Action::JumpSession(6) => "session-6",
        Action::JumpSession(7) => "session-7",
        Action::JumpSession(8) => "session-8",
        Action::JumpSession(9) => "session-9",
        Action::SplitVertical => "split-vertical",
        Action::SplitHorizontal => "split-horizontal",
        Action::CloseFocusedPane => "close-tab",
        Action::KillFocusedServerPane => "kill-session",
        Action::DetachAndAttach => "choose-session",
        Action::FocusLeft => "focus-left",
        Action::FocusDown => "focus-down",
        Action::FocusUp => "focus-up",
        Action::FocusRight => "focus-right",
        Action::AddTab => "add-tab",
        Action::CycleTabForward => "next-tab",
        Action::CycleTabBackward => "previous-tab",
        Action::Quit => "quit",
        _ => "unsupported",
    }
}

/// The Kitty chord of a bound action.
pub open spec fn kitty_chord_of(action: Action) -> Seq<char> {
    match action {
        Action::SwitchWorkspace(1) => "cmd+1"@,
        Action::SwitchWorkspace(2) => "cmd+2"@,
        Action::SwitchWorkspace(3) => "cmd+3"@,
        Action::SwitchWorkspace(4) => "cmd+4"@,
        Action::SwitchWorkspace(5) => "cmd+5"@,
        Action::SwitchWorkspace(6) => "cmd+6"@,
        Action::SwitchWorkspace(7) => "cmd+7"@,
        Action::SwitchWorkspace(8) => "cmd+8"@,
        Action::SwitchWorkspace(9) => "cmd+9"@,
        Action::JumpSession(1) => "cmd+alt+1"@,
        Action::JumpSession(2) => "cmd+alt+2"@,
        Action::JumpSession(3) => "cmd+alt+3"@,
        Action::JumpSession(4) => "cmd+alt+4"@,
        Action::JumpSession(5) => "cmd+alt+5"@,
        Action::JumpSession(6) => "cmd+alt+6"@,
        Action::JumpSession(7) => "cmd+alt+7"@,
        Action::JumpSession(8) => "cmd+alt+8"@,
        Action::JumpSession(9) => "cmd+alt+9"@,
        Action::SplitVertical => "cmd+d"@,
        Action::SplitHorizontal => "cmd+shift+d"@,
        Action::CloseFocusedPane => "cmd+w"@,
        Action::KillFocusedServerPane => "cmd+shift+w"@,
        Action::DetachAndAttach => "cmd+shift+z"@,
        Action::FocusLeft => "cmd+h"@,
        Action::FocusDown => "cmd+j"@,
        Action::FocusUp => "cmd+k"@,
        Action::FocusRight => "cmd+l"@,
        Action::AddTab => "cmd+t"@,
        Action::CycleTabForward => "cmd+]"@,
        Action::CycleTabBackward => "cmd+["@,
        Action::Quit => "cmd+shift+q"@,
        _ => ""@,
    }
}

/// The Kitty chord of a bound action.
pub fn kitty_chord(action: Action) -> (r: &'static str)
    ensures
        r@ == kitty_chord_of(action),
{
    match action {
        Action::SwitchWorkspace(1) => "cmd+1",
        Action::SwitchWorkspace(2) => "cmd+2",
        Action::SwitchWorkspace(3) => "cmd+3",
        Action::SwitchWorkspace(4) => "cmd+4",
        Action::SwitchWorkspace(5) => "cmd+5",
        Action::SwitchWorkspace(6) => "cmd+6",
        Action::SwitchWorkspace(7) => "cmd+7",
        Action::SwitchWorkspace(8) => "cmd+8",
        Action::SwitchWorkspace(9) => "cmd+9",
        Action::JumpSession(1) => "cmd+alt+1",
        Action::JumpSession(2) => "cmd+alt+2",
        Action::JumpSession(3) => "cmd+alt+3",
        Action::JumpSession(4) => "cmd+alt+4",
        Action::JumpSession(5) => "cmd+alt+5",
        Action::JumpSession(6) => "cmd+alt+6",
        Action::JumpSession(7) => "cmd+alt+7",
        Action::JumpSession(8) => "cmd+alt+8",
        Action::JumpSession(9) => "cmd+alt+9",
        Action::SplitVertical => "cmd+d",
        Action::SplitHorizontal => "cmd+shift+d",
        Action::CloseFocusedPane => "cmd+w",
        Action::KillFocusedServerPane => "cmd+shift+w",
        Action::DetachAndAttach => "cmd+shift+z",
        Action::FocusLeft => "cmd+h",
        Action::FocusDown => "cmd+j",
        Action::FocusUp => "cmd+k",
        Action::FocusRight => "cmd+l",
        Action::AddTab => "cmd+t",
        Action::CycleTabForward => "cmd+]",
        Action::CycleTabBackward => "cmd+[",
        Action::Quit => "cmd+shift+q",
        _ => "",
    }
}

/// What a bound action does.
pub open spec fn description_of(action: Action) -> Seq<char> {
    match action {
        Action::SwitchWorkspace(1) => "switch to workspace 1"@,
        Action::SwitchWorkspace(2) => "switch to workspace 2"@,
        Action::SwitchWorkspace(3) => "switch to workspace 3"@,
        Action::SwitchWorkspace(4) => "switch to workspace 4"@,
        Action::SwitchWorkspace(5) => "switch to workspace 5"@,
        Action::SwitchWorkspace(6) => "switch to workspace 6"@,
        Action::SwitchWorkspace(7) => "switch to workspace 7"@,
        Action::SwitchWorkspace(8) => "switch to workspace 8"@,
        Action::SwitchWorkspace(9) => "switch to workspace 9"@,
        Action::JumpSession(1) => "bind session 1"@,
        Action::JumpSession(2) => "bind session 2"@,
        Action::JumpSession(3) => "bind session 3"@,
        Action::JumpSession(4) => "bind session 4"@,
        Action::JumpSession(5) => "bind session 5"@,
        Action::JumpSession(6) => "bind session 6"@,
        Action::JumpSession(7) => "bind session 7"@,
        Action::JumpSession(8) => "bind session 8"@,
        Action::JumpSession(9) => "bind session 9"@,
        Action::SplitVertical => "split vertically"@,
        Action::SplitHorizontal => "split horizontally"@,
        Action::CloseFocusedPane => "close focused tab"@,
        Action::KillFocusedServerPane => "kill focused session"@,
        Action::DetachAndAttach => "detach and choose a session"@,
        Action::FocusLeft => "focus left"@,
        Action::FocusDown => "focus down"@,
        Action::FocusUp => "focus up"@,
        Action::FocusRight => "focus right"@,
        Action::AddTab => "add a tab"@,
        Action::CycleTabForward => "next tab"@,
        Action::CycleTabBackward => "previous tab"@,
        Action::Quit => "quit dimax"@,
        _ => ""@,
    }
}

/// What a bound action does.
pub fn description(action: Action) -> (r: &'static str)
    ensures
        r@ == description_of(action),
{
    match action {
        Action::SwitchWorkspace(1) => "switch to workspace 1",
        Action::SwitchWorkspace(2) => "switch to workspace 2",
        Action::SwitchWorkspace(3) => "switch to workspace 3",
        Action::SwitchWorkspace(4) => "switch to workspace 4",
        Action::SwitchWorkspace(5) => "switch to workspace 5",
        Action::SwitchWorkspace(6) => "switch to workspace 6",
        Action::SwitchWorkspace(7) => "switch to workspace 7",
        Action::SwitchWorkspace(8) => "switch to workspace 8",
        Action::SwitchWorkspace(9) => "switch to workspace 9",
        Action::JumpSession(1) => "bind session 1",
        Action::JumpSession(2) => "bind session 2",
        Action::JumpSession(3) => "bind session 3",
        Action::JumpSession(4) => "bind session 4",
        Action::JumpSession(5) => "bind session 5",
        Action::JumpSession(6) => "bind session 6",
        Action::JumpSession(7) => "bind session 7",
        Action::JumpSession(8) => "bind session 8",
        Action::JumpSession(9) => "bind session 9",
        Action::SplitVertical => "split vertically",
        Action::SplitHorizontal => "split horizontally",
        Action::CloseFocusedPane => "close focused tab",
        Action::KillFocusedServerPane => "kill focused session",
        Action::DetachAndAttach => "detach and choose a session",
        Action::FocusLeft => "focus left",
        Action::FocusDown => "focus down",
        Action::FocusUp => "focus up",
        Action::FocusRight => "focus right",
        Action::AddTab => "add a tab",
        Action::CycleTabForward => "next tab",
        Action::CycleTabBackward => "previous tab",
        Action::Quit => "quit dimax",
        _ => "",
    }
}

/// The keys that follow the prefix for a bound action; also its tag.
pub fn chord_bytes(action: Action) -> (r: &'static [u8])
    ensures
        r@ == chord_of(action),
{
    match action {
        Action::SwitchWorkspace(1) => {
            let keys: &'static [u8; 1] = &[0x31];
            assert(keys@ =~= chord_of(action));
            keys
        },
        Action::SwitchWorkspace(2) => {
            let keys: &'static [u8; 1] = &[0x32];
            assert(keys@ =~= chord_of(action));
            keys
        },
        Action::SwitchWorkspace(3) => {
            let keys: &'static [u8; 1] = &[0x33];
            assert(keys@ =~= chord_of(action));
            keys
        },
        Action::SwitchWorkspace(4) => {
            let keys: &'static [u8; 1] = &[0x34];
            assert(keys@ =~= chord_of(action));
            keys
        },
        Action::SwitchWorkspace(5) => {
            let keys: &'static [u8; 1] = &[0x35];
            assert(keys@ =~= chord_of(action));
            keys
        },
        Action::SwitchWorkspace(6) => {
            let keys: &'static [u8; 1] = &[0x36];
            assert(keys@ =~= chord_of(action));
            keys
        },
        Action::SwitchWorkspace(7) => {
            let keys: &'static [u8; 1] = &[0x37];
            assert(keys@ =~= chord_of(action));
            keys
        },
        Action::SwitchWorkspace(8) => {
            let keys: &'static [u8; 1] = &[0x38];
            assert(keys@ =~= chord_of(action));
            keys
        },
        Action::SwitchWorkspace(9) => {
            let keys: &'static [u8; 1] = &[0x39];
            assert(keys@ =~= chord_of(action));
            keys
        },
        Action::JumpSession(1) => {
            let keys: &'static [u8; 2] = &[0x73, 0x31];
            assert(keys@ =~= chord_of(action));
            keys
        },
        Action::JumpSession(2) => {
            let keys: &'static [u8; 2] = &[0x73, 0x32];
            assert(keys@ =~= chord_of(action));
            keys
        },
        Action::JumpSession(3) => {
            let keys: &'static [u8; 2] = &[0x73, 0x33];
            assert(keys@ =~= chord_of(action));
            keys
        },
        Action::JumpSession(4) => {
            let keys: &'static [u8; 2] = &[0x73, 0x34];
            assert(keys@ =~= chord_of(action));
            keys
        },
        Action::JumpSession(5) => {
            let keys: &'static [u8; 2] = &[0x73, 0x35];
            assert(keys@ =~= chord_of(action));
            keys
        },
        Action::JumpSession(6) => {
            let keys: &'static [u8; 2] = &[0x73, 0x36];
            assert(keys@ =~= chord_of(action));
            keys
        },
        Action::JumpSession(7) => {
            let keys: &'static [u8; 2] = &[0x73, 0x37];
            assert(keys@ =~= chord_of(action));
            keys
        },
        Action::JumpSession(8) => {
            let keys: &'static [u8; 2] = &[0x73, 0x38];
            assert(keys@ =~= chord_of(action));
            keys
        },
        Action::JumpSession(9) => {
            let keys: &'static [u8; 2] = &[0x73, 0x39];
            assert(keys@ =~= chord_of(action));
            keys
        },
        Action::SplitVertical => {
            let keys: &'static [u8; 1] = &[0x64];
            assert(keys@ =~= chord_of(action));
            keys
        },
        Action::SplitHorizontal => {
            let keys: &'static [u8; 1] = &[0x44];
            assert(keys@ =~= chord_of(action));
            keys
        },
        Action::CloseFocusedPane => {
            let keys: &'static [u8; 1] = &[0x77];
            assert(keys@ =~= chord_of(action));
            keys
        },
        Action::KillFocusedServerPane => {
            let keys: &'static [u8; 1] = &[0x57];
            assert(keys@ =~= chord_of(action));
            keys
        },
        Action::DetachAndAttach => {
            let keys: &'static [u8; 1] = &[0x5a];
            assert(keys@ =~= chord_of(action));
            keys
        },
        Action::FocusLeft => {
            let keys: &'static [u8; 1] = &[0x68];
            assert(keys@ =~= chord_of(action));
            keys
        },
        Action::FocusDown => {
            let keys: &'static [u8; 1] = &[0x6a];
            assert(keys@ =~= chord_of(action));
            keys
        },
        Action::FocusUp => {
            let keys: &'static [u8; 1] = &[0x6b];
            assert(keys@ =~= chord_of(action));
            keys
        },
        Action::FocusRight => {
            let keys: &'static [u8; 1] = &[0x6c];
            assert(keys@ =~= chord_of(action));
            keys
        },
        Action::AddTab => {
            let keys: &'static [u8; 1] = &[0x74];
            assert(keys@ =~= chord_of(action));
            keys
        },
        Action::CycleTabForward => {
            let keys: &'static [u8; 1] = &[0x5d];
            assert(keys@ =~= chord_of(action));
            keys
        },
        Action::CycleTabBackward => {
            let keys: &'static [u8; 1] = &[0x5b];
            assert(keys@ =~= chord_of(action));
            keys
        },
        Action::Quit => {
            let keys: &'static [u8; 1] = &[0x71];
            assert(keys@ =~= chord_of(action));
            keys
        },
        _ => {
            let keys: &'static [u8; 0] = &[];
            assert(keys@ =~= chord_of(action));
            keys
        },
    }
}

/// The bound action at a place of the table.
pub fn bound_action(i: usize) -> (r: Action)
    requires
        i < BOUND_ACTIONS,
    ensures
        r == bound_action_at(i as int),
{
    if i < 9 {
        Action::SwitchWorkspace((i + 1) as u8)
    } else if i < 18 {
        Action::JumpSession((i - 8) as u8)
    } else {
        match i {
            18 => Action::SplitVertical,
            19 => Action::SplitHorizontal,
            20 => Action::CloseFocusedPane,
            21 => Action::KillFocusedServerPane,
            22 => Action::DetachAndAttach,
            23 => Action::FocusLeft,
            24 => Action::FocusDown,
            25 => Action::FocusUp,
            26 => Action::FocusRight,
            27 => Action::AddTab,
            28 => Action::CycleTabForward,
            29 => Action::CycleTabBackward,
            _ => Action::Quit,
        }
    }
}

/// The place of a bound action in the table.
pub open spec fn index_of_bound(action: Action) -> int {
    choose|i: int| 0 <= i < BOUND_ACTIONS && #[trigger] bound_action_at(i) == action
}

/// The table holds exactly the bound actions, each once.
pub proof fn table_is_complete(action: Action)
    ensures
        is_bound(action) <==> exists|i: int|
            0 <= i < BOUND_ACTIONS && #[trigger] bound_action_at(i) == action,
        forall|i: int, j: int|
            0 <= i < BOUND_ACTIONS && 0 <= j < BOUND_ACTIONS && #[trigger] bound_action_at(i)
                == #[trigger] bound_action_at(j) ==> i == j,
{
    match action {
        Action::SwitchWorkspace(n) => {
            if 1 <= n <= 9 {
                assert(bound_action_at(n - 1) == action);
            }
        },
        Action::JumpSession(n) => {
            if 1 <= n <= 9 {
                assert(bound_action_at(n + 8) == action);
            }
        },
        Action::PassThrough => {},
        _ => {
            let i: int = match action {
                Action::SplitVertical => 18,
                Action::SplitHorizontal => 19,
                Action::CloseFocusedPane => 20,
                Action::KillFocusedServerPane => 21,
                Action::DetachAndAttach => 22,
                Action::FocusLeft => 23,
                Action::FocusDown => 24,
                Action::FocusUp => 25,
                Action::FocusRight => 26,
                Action::AddTab => 27,
                Action::CycleTabForward => 28,
                Action::CycleTabBackward => 29,
                _ => 30,
            };
            assert(bound_action_at(i) == action);
        },
    }
}

/// Which places of the table go by this name.
pub open spec fn has_name(name: Seq<char>) -> spec_fn(int) -> bool {
    |i: int| name_of(bound_action_at(i)) == name
}

/// The bound action of this name.
pub open spec fn named_action(name: Seq<char>) -> Option<Action> {
    match first_where(has_name(name), 0, BOUND_ACTIONS as int) {
        Some(i) => Some(bound_action_at(i)),
        None => None,
    }
}

/// The bound action of this name.
pub fn parse_action_name(name: &str) -> (r: Option<Action>)
    ensures
        r == named_action(name@),
{
    let ghost p = has_name(name@);
    let mut i: usize = 0;
    while i < BOUND_ACTIONS
        invariant
            i <= BOUND_ACTIONS,
            p == has_name(name@),
            forall|j: int| 0 <= j < i ==> !#[trigger] p(j),
        decreases BOUND_ACTIONS - i,
    {
        let action = bound_action(i);
        if same_text(action_name(action), name) {
            proof {
                first_where_is(p, 0, BOUND_ACTIONS as int, i as int);
            }
            return Some(action);
        }
        i += 1;
    }
    proof {
        first_where_none(p, 0, BOUND_ACTIONS as int);
    }
    None
}

/// The length, first and last character of a bound action's name.
spec fn name_shape(action: Action) -> (int, int, int) {
    match action {
        Action::SwitchWorkspace(n) => (11, 'w' as int, '0' as int + n),
        Action::JumpSession(n) => (9, 's' as int, '0' as int + n),
        Action::SplitVertical => (14, 's' as int, 'l' as int),
        Action::SplitHorizontal => (16, 's' as int, 'l' as int),
        Action::CloseFocusedPane => (9, 'c' as int, 'b' as int),
        Action::KillFocusedServerPane => (12, 'k' as int, 'n' as int),
        Action::DetachAndAttach => (14, 'c' as int, 'n' as int),
        Action::FocusLeft => (10, 'f' as int, 't' as int),
        Action::FocusDown => (10, 'f' as int, 'n' as int),
        Action::FocusUp => (8, 'f' as int, 'p' as int),
        Action::FocusRight => (11, 'f' as int, 't' as int),
        Action::AddTab => (7, 'a' as int, 'b' as int),
        Action::CycleTabForward => (8, 'n' as int, 'b' as int),
        Action::CycleTabBackward => (12, 'p' as int, 'b' as int),
        Action::Quit => (4, 'q' as int, 't' as int),
        Action::PassThrough => (0, 0, 0),
    }
}

proof fn name_has_shape(action: Action)
    requires
        is_bound(action),
    ensures
        name_shape(action) == (
            name_of(action).len() as int,
            name_of(action)[0] as int,
            name_of(action).last() as int,
        ),
{
    reveal_strlit("workspace-1");
    reveal_strlit("workspace-2");
    reveal_strlit("workspace-3");
    reveal_strlit("workspace-4");
    reveal_strlit("workspace-5");
    reveal_strlit("workspace-6");
    reveal_strlit("workspace-7");
    reveal_strlit("workspace-8");
    reveal_strlit("workspace-9");
    reveal_strlit("session-1");
    reveal_strlit("session-2");
    reveal_strlit("session-3");
    reveal_strlit("session-4");
    reveal_strlit("session-5");
    reveal_strlit("session-6");
    reveal_strlit("session-7");
    reveal_strlit("session-8");
    reveal_strlit("session-9");
    reveal_strlit("split-vertical");
    reveal_strlit("split-horizontal");
    reveal_strlit("close-tab");
    reveal_strlit("kill-session");
    reveal_strlit("choose-session");
    reveal_strlit("focus-left");
    reveal_strlit("focus-down");
    reveal_strlit("focus-up");
    reveal_strlit("focus-right");
    reveal_strlit("add-tab");
    reveal_strlit("next-tab");
    reveal_strlit("previous-tab");
    reveal_strlit("quit");
    reveal_strlit("unsupported");
}

/// Names differ in their length, their first or their last character.
proof fn names_differ(a: Action, b: Action)
    requires
        name_of(a) == name_of(b),
        is_bound(a),
        is_bound(b),
    ensures
        a == b,
{
    name_has_shape(a);
    name_has_shape(b);
}

/// Every bound action is found by its name.
pub proof fn names_round_trip(action: Action)
    requires
        is_bound(action),
    ensures
        named_action(name_of(action)) == Some(action),
{
    table_is_complete(action);
    let at = index_of_bound(action);
    let p = has_name(name_of(action));
    assert(p(at));
    assert forall|j: int| 0 <= j < at implies !#[trigger] p(j) by {
        if p(j) {
            table_is_complete(bound_action_at(j));
            names_differ(bound_action_at(j), action);
        }
    }
    first_where_is(p, 0, BOUND_ACTIONS as int, at);
}

/// Which places of the table have these keys.
pub open spec fn has_chord(keys: Seq<u8>) -> spec_fn(int) -> bool {
    |i: int| chord_of(bound_action_at(i)) == keys
}

/// The bound action with these keys.
pub open spec fn chord_action(keys: Seq<u8>) -> Option<Action> {
    match first_where(has_chord(keys), 0, BOUND_ACTIONS as int) {
        Some(i) => Some(bound_action_at(i)),
        None => None,
    }
}

/// The bound action with these keys.
pub fn find_chord(keys: &[u8]) -> (r: Option<Action>)
    ensures
        r == chord_action(keys@),
{
    let ghost p = has_chord(keys@);
    let mut i: usize = 0;
    while i < BOUND_ACTIONS
        invariant
            i <= BOUND_ACTIONS,
            p == has_chord(keys@),
            forall|j: int| 0 <= j < i ==> !#[trigger] p(j),
        decreases BOUND_ACTIONS - i,
    {
        let action = bound_action(i);
        if same_bytes(chord_bytes(action), keys) {
            proof {
                first_where_is(p, 0, BOUND_ACTIONS as int, i as int);
            }
            return Some(action);
        }
        i += 1;
    }
    proof {
        first_where_none(p, 0, BOUND_ACTIONS as int);
    }
    None
}

/// No two bound actions share their keys, and none has none.
pub proof fn chords_differ(a: Action, b: Action)
    requires
        is_bound(a),
        is_bound(b),
        chord_of(a) == chord_of(b),
    ensures
        a == b,
        chord_of(a).len() > 0,
{
    let x = chord_of(a);
    let y = chord_of(b);
    assert(x.len() == y.len() && x[0] == y[0] && x.last() == y.last());
    match a {
        Action::SwitchWorkspace(n) => {
            assert(x[0] == '0' as u8 + n);
        },
        Action::JumpSession(n) => {
            assert(x.last() == '0' as u8 + n);
        },
        _ => {},
    }
    match b {
        Action::SwitchWorkspace(n) => {
            assert(y[0] == '0' as u8 + n);
        },
        Action::JumpSession(n) => {
            assert(y.last() == '0' as u8 + n);
        },
        _ => {},
    }
}

/// Every bound action is found by its keys.
pub proof fn chords_round_trip(action: Action)
    requires
        is_bound(action),
    ensures
        chord_action(chord_of(action)) == Some(action),
{
    table_is_complete(action);
    let at = index_of_bound(action);
    let p = has_chord(chord_of(action));
    assert(p(at));
    assert forall|j: int| 0 <= j < at implies !#[trigger] p(j) by {
        if p(j) {
            table_is_complete(bound_action_at(j));
            chords_differ(bound_action_at(j), action);
        }
    }
    first_where_is(p, 0, BOUND_ACTIONS as int, at);
}

/// Which places of the table have this Kitty chord.
pub open spec fn has_kitty_chord(chord: Seq<char>) -> spec_fn(int) -> bool {
    |i: int| kitty_chord_of(bound_action_at(i)) == chord
}

/// The bound action with this Kitty chord.
pub open spec fn kitty_action(chord: Seq<char>) -> Option<Action> {
    match first_where(has_kitty_chord(chord), 0, BOUND_ACTIONS as int) {
        Some(i) => Some(bound_action_at(i)),
        None => None,
    }
}

/// The bound action with this Kitty chord.
pub fn find_kitty_chord(chord: &str) -> (r: Option<Action>)
    ensures
        r == kitty_action(chord@),
{
    let ghost p = has_kitty_chord(chord@);
    let mut i: usize = 0;
    while i < BOUND_ACTIONS
        invariant
            i <= BOUND_ACTIONS,
            p == has_kitty_chord(chord@),
            forall|j: int| 0 <= j < i ==> !#[trigger] p(j),
        decreases BOUND_ACTIONS - i,
    {
        let action = bound_action(i);
        if same_text(kitty_chord(action), chord) {
            proof {
                first_where_is(p, 0, BOUND_ACTIONS as int, i as int);
            }
            return Some(action);
        }
        i += 1;
    }
    proof {
        first_where_none(p, 0, BOUND_ACTIONS as int);
    }
    None
}

/// Whether some bound action's keys begin with `keys`.
pub open spec fn begins_chord(keys: Seq<u8>) -> bool {
    exists|i: int|
        0 <= i < BOUND_ACTIONS && keys.is_prefix_of(chord_of(#[trigger] bound_action_at(i)))
}

/// Whether some bound action's keys begin with `keys`.
pub fn is_chord_prefix(keys: &[u8]) -> (r: bool)
    ensures
        r == begins_chord(keys@),
{
    let mut i: usize = 0;
    while i < BOUND_ACTIONS
        invariant
            i <= BOUND_ACTIONS,
            forall|j: int|
                0 <= j < i ==> !keys@.is_prefix_of(chord_of(#[trigger] bound_action_at(j))),
        decreases BOUND_ACTIONS - i,
    {
        if starts_with(chord_bytes(bound_action(i)), keys) {
            return true;
        }
        i += 1;
    }
    false
}

/// One line of the table.
#[derive(Debug, Clone, Copy)]
pub struct Binding {
    pub kitty: &'static str,
    pub portable: &'static [u8],
    pub tag: &'static [u8],
    pub action: Action,
    pub description: &'static str,
}

impl Binding {
    /// Whether this is the line of `action`.
    pub open spec fn is_line_of(self, action: Action) -> bool {
        &&& self.kitty@ == kitty_chord_of(action)
        &&& self.portable@ == chord_of(action)
        &&& self.tag@ == chord_of(action)
        &&& self.action == action
        &&& self.description@ == description_of(action)
    }
}

/// The table.
pub fn bindings() -> (r: Vec<Binding>)
    ensures
        r@.len() == BOUND_ACTIONS,
        forall|i: int|
            0 <= i < BOUND_ACTIONS ==> (#[trigger] r@[i]).is_line_of(bound_action_at(i)),
{
    let mut out: Vec<Binding> = Vec::new();
    let mut i: usize = 0;
    while i < BOUND_ACTIONS
        invariant
            i <= BOUND_ACTIONS,
            out@.len() == i,
            forall|j: int| 0 <= j < i ==> (#[trigger] out@[j]).is_line_of(bound_action_at(j)),
        decreases BOUND_ACTIONS - i,
    {
        let action = bound_action(i);
        out.push(
            Binding {
                kitty: kitty_chord(action),
                portable: chord_bytes(action),
                tag: chord_bytes(action),
                action,
                description: description(action),
            },
        );
        i += 1;
    }
    out
}

} // verus!
