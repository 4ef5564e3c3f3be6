//! The wizard shown on the first start: choose a keybinding mode, then whether to
//! install the bundled skill. It touches nothing itself; its outcome says what to
//! do.

use crate::geometry::Rect;
use crate::keys::BindingMode;
use crate::layout::{are_lines, lines_of};
use crate::menu::{down_pressed, enter_pressed, escape_pressed, is_down, is_enter, is_escape, is_key, is_up, key_pressed, up_pressed};
use vstd::prelude::*;

verus! {

/// Which question is on screen.
#[derive(Debug, Clone, Copy, PartialEq, Eq, Structural)]
pub enum WizardStep {
    Keybindings,
    SkillInstall,
}

/// How many modes there are to choose from.
pub const MODE_COUNT: usize = 4;

/// The modes to choose from, in the order shown.
pub open spec fn mode_at(i: int) -> BindingMode {
    if i == 0 {
        BindingMode::Portable
    } else if i == 1 {
        BindingMode::Kitty
    } else if i == 2 {
        BindingMode::Both
    } else {
        BindingMode::Tmux
    }
}

/// The modes to choose from.
pub fn mode(i: usize) -> (r: BindingMode)
    ensures
        r == mode_at(i as int),
{
    if i == 0 {
        BindingMode::Portable
    } else if i == 1 {
        BindingMode::Kitty
    } else if i == 2 {
        BindingMode::Both
    } else {
        BindingMode::Tmux
    }
}

pub open spec fn label_of(mode: BindingMode) -> Seq<char> {
    match mode {
        BindingMode::Portable => "Portable (Ctrl-Space prefix, no terminal config changes)"@,
        BindingMode::Kitty => "Kitty (Cmd-key chords, amends kitty.conf)"@,
        BindingMode::Both => "Both (Ctrl-Space prefix and Cmd-key chords)"@,
        BindingMode::Tmux => "Tmux (Ctrl-B prefix, tmux-compatible chords)"@,
    }
}

/// How a mode is described in the wizard.
pub fn mode_label(mode: BindingMode) -> (r: &'static str)
    ensures
        r@ == label_of(mode),
{
    match mode {
        BindingMode::Portable => "Portable (Ctrl-Space prefix, no terminal config changes)",
        BindingMode::Kitty => "Kitty (Cmd-key chords, amends kitty.conf)",
        BindingMode::Both => "Both (Ctrl-Space prefix and Cmd-key chords)",
        BindingMode::Tmux => "Tmux (Ctrl-B prefix, tmux-compatible chords)",
    }
}

/// The wizard's state.
#[derive(Debug, Clone, Copy, PartialEq, Eq, Structural)]
pub struct Wizard {
    pub step: WizardStep,
    /// Which of the modes is highlighted.
    pub mode_selected: usize,
    pub install_skill: bool,
}

/// What an input led to.
#[derive(Debug, Clone, Copy, PartialEq, Eq, Structural)]
pub enum WizardOutcome {
    /// The wizard goes on.
    Continue,
    /// The wizard is over; this is what was chosen.
    Done { mode: BindingMode, install_skill: bool },
}

impl Wizard {
    pub open spec fn wf(self) -> bool {
        self.mode_selected < MODE_COUNT
    }

    /// What has been chosen so far.
    pub open spec fn choice(self) -> WizardOutcome {
        WizardOutcome::Done {
            mode: mode_at(self.mode_selected as int),
            install_skill: self.install_skill,
        }
    }

    /// What an input does.
    pub open spec fn after(self, bytes: Seq<u8>) -> (Wizard, WizardOutcome) {
        match self.step {
            WizardStep::Keybindings => if is_up(bytes) {
                (
                    Wizard {
                        mode_selected: (if self.mode_selected == 0 {
                            MODE_COUNT - 1
                        } else {
                            self.mode_selected - 1
                        }) as usize,
                        ..self
                    },
                    WizardOutcome::Continue,
                )
            } else if is_down(bytes) {
                (
                    Wizard {
                        mode_selected: (if self.mode_selected + 1 == MODE_COUNT {
                            0
                        } else {
                            self.mode_selected + 1
                        }) as usize,
                        ..self
                    },
                    WizardOutcome::Continue,
                )
            } else if is_enter(bytes) {
                (Wizard { step: WizardStep::SkillInstall, ..self }, WizardOutcome::Continue)
            } else if is_escape(bytes) {
                (self, self.choice())
            } else {
                (self, WizardOutcome::Continue)
            },
            WizardStep::SkillInstall => if is_key(bytes, 'y') || is_key(bytes, 'Y') {
                (Wizard { install_skill: true, ..self }, WizardOutcome::Continue)
            } else if is_key(bytes, 'n') || is_key(bytes, 'N') {
                (Wizard { install_skill: false, ..self }, WizardOutcome::Continue)
            } else if is_enter(bytes) || is_escape(bytes) {
                (self, self.choice())
            } else {
                (self, WizardOutcome::Continue)
            },
        }
    }

    /// A wizard at its first question, the defaults chosen.
    pub fn new() -> (r: Self)
        ensures
            r.wf(),
            r == (Wizard {
                step: WizardStep::Keybindings,
                mode_selected: 0,
                install_skill: true,
            }),
    {
        Wizard { step: WizardStep::Keybindings, mode_selected: 0, install_skill: true }
    }

    /// Take one input chunk.
    pub fn handle_input(&mut self, bytes: &[u8]) -> (r: WizardOutcome)
        requires
            old(self).wf(),
        ensures
            final(self).wf(),
            (*final(self), r) == old(self).after(bytes@),
    {
        match self.step {
            WizardStep::Keybindings => {
                if up_pressed(bytes) {
                    self.mode_selected = if self.mode_selected == 0 {
                        MODE_COUNT - 1
                    } else {
                        self.mode_selected - 1
                    };
                    WizardOutcome::Continue
                } else if down_pressed(bytes) {
                    self.mode_selected = if self.mode_selected + 1 == MODE_COUNT {
                        0
                    } else {
                        self.mode_selected + 1
                    };
                    WizardOutcome::Continue
                } else if enter_pressed(bytes) {
                    self.step = WizardStep::SkillInstall;
                    WizardOutcome::Continue
                } else if escape_pressed(bytes) {
                    WizardOutcome::Done {
                        mode: mode(self.mode_selected),
                        install_skill: self.install_skill,
                    }
                } else {
                    WizardOutcome::Continue
                }
            },
            WizardStep::SkillInstall => {
                if key_pressed(bytes, 'y') || key_pressed(bytes, 'Y') {
                    self.install_skill = true;
                    WizardOutcome::Continue
                } else if key_pressed(bytes, 'n') || key_pressed(bytes, 'N') {
                    self.install_skill = false;
                    WizardOutcome::Continue
                } else if enter_pressed(bytes) || escape_pressed(bytes) {
                    WizardOutcome::Done {
                        mode: mode(self.mode_selected),
                        install_skill: self.install_skill,
                    }
                } else {
                    WizardOutcome::Continue
                }
            },
        }
    }

    /// The line for the `i`th mode: a marker if it is highlighted, and its
    /// description.
    pub open spec fn mode_line_text(self, i: int) -> Seq<char> {
        (if i == self.mode_selected {
            ">"@
        } else {
            " "@
        }) + " "@ + label_of(mode_at(i))
    }

    /// The line for the `i`th mode.
    pub fn mode_line(&self, i: usize) -> (r: String)
        ensures
            r@ == self.mode_line_text(i as int),
    {
        let mut out = String::new();
        out.append(
            if i == self.mode_selected {
                ">"
            } else {
                " "
            },
        );
        out.append(" ");
        out.append(mode_label(mode(i)));
        assert(out@ =~= self.mode_line_text(i as int));
        out
    }

    pub open spec fn skill_line_text(self) -> Seq<char> {
        if self.install_skill {
            "> Yes (default)    No"@
        } else {
            "  Yes    > No (default)"@
        }
    }

    /// The line that shows the answer about the skill.
    pub fn skill_line(&self) -> (r: &'static str)
        ensures
            r@ == self.skill_line_text(),
    {
        if self.install_skill {
            "> Yes (default)    No"
        } else {
            "  Yes    > No (default)"
        }
    }
}

/// Up and down undo each other on the list of modes, which wraps at both ends.
pub proof fn up_undoes_down(w: Wizard, up: Seq<u8>, down: Seq<u8>)
    requires
        w.wf(),
        w.step == WizardStep::Keybindings,
        is_up(up),
        is_down(down),
    ensures
        w.after(down).0.after(up).0 == w,
        w.after(up).0.after(down).0 == w,
{
    assert(!is_up(down)) by {
        assert(seq![0x1bu8, 0x5b, 0x41].len() == 3 && seq![0x1bu8, 0x5b, 0x42].len() == 3);
        assert(seq![0x1bu8, 0x5b, 0x41][2] != seq![0x1bu8, 0x5b, 0x42][2]);
    }
}

/// Confirming both questions, and nothing else, takes the defaults.
pub proof fn enter_twice_takes_the_defaults(enter: Seq<u8>)
    requires
        is_enter(enter),
    ensures
        ({
            let start = Wizard {
                step: WizardStep::Keybindings,
                mode_selected: 0,
                install_skill: true,
            };
            &&& start.after(enter).1 == WizardOutcome::Continue
            &&& start.after(enter).0.after(enter).1 == WizardOutcome::Done {
                mode: BindingMode::Portable,
                install_skill: true,
            }
        }),
{
    assert(enter.len() == 1 && (enter[0] == 0x0d || enter[0] == 0x0a)) by {
        assert(seq![0x0du8].len() == 1 && seq![0x0au8].len() == 1);
    }
    assert(seq![0x1bu8, 0x5b, 0x41].len() == 3 && seq![0x1bu8, 0x5b, 0x42].len() == 3);
}

/// The title of the question `step`, where the skill is one for `assistant`.
pub open spec fn title_text(step: WizardStep, assistant: Seq<char>) -> Seq<char> {
    match step {
        WizardStep::Keybindings => "Welcome to dimax -- choose a keybinding mode"@,
        WizardStep::SkillInstall => "Install the dimax-pane-control "@ + assistant + " skill?"@,
    }
}

/// The title of the question `step`, where the skill is one for `assistant`.
pub fn step_title(step: WizardStep, assistant: &str) -> (r: String)
    ensures
        r@ == title_text(step, assistant@),
{
    match step {
        WizardStep::Keybindings => "Welcome to dimax -- choose a keybinding mode".to_owned(),
        WizardStep::SkillInstall => {
            let mut out = "Install the dimax-pane-control ".to_owned();
            out.append(assistant);
            out.append(" skill?");
            out
        },
    }
}

/// The text beside the choices of the question `step`, where the skill is one for
/// `assistant`.
pub open spec fn note_text(step: WizardStep, assistant: Seq<char>) -> Seq<char> {
    match step {
        WizardStep::Keybindings =>
            "j/k or arrows to move, Enter to confirm, Esc to skip with defaults"@,
        WizardStep::SkillInstall => "Lets "@ + assistant
            + " Code drive dimax server-panes (spawn/send/read) from any project."@,
    }
}

/// The text beside the choices of the question `step`, where the skill is one for
/// `assistant`.
pub fn step_note(step: WizardStep, assistant: &str) -> (r: String)
    ensures
        r@ == note_text(step, assistant@),
{
    match step {
        WizardStep::Keybindings =>
            "j/k or arrows to move, Enter to confirm, Esc to skip with defaults".to_owned(),
        WizardStep::SkillInstall => {
            let mut out = "Lets ".to_owned();
            out.append(assistant);
            out.append(" Code drive dimax server-panes (spawn/send/read) from any project.");
            out
        },
    }
}

/// The row below the last of `rows`, if it still lies within `inner`.
pub open spec fn row_below(rows: Seq<Rect>, inner: Rect) -> Option<Rect> {
    if rows.len() > 0 && rows.last().y + 1 < inner.y + inner.height && rows.last().y < u16::MAX {
        Some(Rect { y: (rows.last().y + 1) as u16, height: 1, ..rows.last() })
    } else {
        None
    }
}

/// Where the modes stand within `inner`, and the hint below them if there is
/// room.
pub fn mode_rows(inner: Rect) -> (r: (Vec<Rect>, Option<Rect>))
    ensures
        are_lines(inner, MODE_COUNT as int, r.0@),
        r.1 == row_below(r.0@, inner),
{
    let rows = lines_of(inner, MODE_COUNT);
    let last = rows[MODE_COUNT - 1];
    let hint = if (last.y as u32) + 1 < inner.y as u32 + inner.height as u32 && last.y < u16::MAX {
        Some(Rect { y: last.y + 1, height: 1, ..last })
    } else {
        None
    };
    (rows, hint)
}

} // verus!
