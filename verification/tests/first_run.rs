use dimax::first_run::{
    mode, mode_label, mode_rows, step_note, step_title, Wizard, WizardOutcome, WizardStep,
};
use dimax::geometry::Rect;
use dimax::keys::BindingMode;
use dimax::layout::{centered_rect, lines_of};
use ratatui::backend::TestBackend;
use ratatui::widgets::{Block, Clear, Paragraph};
use ratatui::{Frame, Terminal};

#[test]
fn starts_on_keybindings_step_with_portable_selected() {
    let wizard = Wizard::new();
    assert_eq!(wizard.step, WizardStep::Keybindings);
    assert_eq!(mode(wizard.mode_selected), BindingMode::Portable);
}

#[test]
fn down_then_down_cycles_through_every_mode_and_wraps() {
    let mut wizard = Wizard::new();
    wizard.handle_input(b"j");
    assert_eq!(mode(wizard.mode_selected), BindingMode::Kitty);
    wizard.handle_input(b"j");
    assert_eq!(mode(wizard.mode_selected), BindingMode::Both);
    wizard.handle_input(b"j");
    assert_eq!(mode(wizard.mode_selected), BindingMode::Tmux);
    wizard.handle_input(b"j");
    assert_eq!(mode(wizard.mode_selected), BindingMode::Portable);
}

#[test]
fn up_from_the_first_mode_wraps_to_the_last() {
    let mut wizard = Wizard::new();
    wizard.handle_input(b"k");
    assert_eq!(mode(wizard.mode_selected), BindingMode::Tmux);
}

#[test]
fn enter_on_keybindings_step_advances_to_skill_step_without_finishing() {
    let mut wizard = Wizard::new();
    let outcome = wizard.handle_input(b"\r");
    assert!(matches!(outcome, WizardOutcome::Continue));
    assert_eq!(wizard.step, WizardStep::SkillInstall);
}

#[test]
fn esc_on_keybindings_step_finishes_with_current_selection_and_default_skill_choice() {
    let mut wizard = Wizard::new();
    wizard.handle_input(b"j");
    let outcome = wizard.handle_input(b"\x1b");
    match outcome {
        WizardOutcome::Done {
            mode,
            install_skill,
        } => {
            assert_eq!(mode, BindingMode::Kitty);
            assert!(install_skill);
        }
        WizardOutcome::Continue => panic!("expected Done"),
    }
}

#[test]
fn n_then_enter_on_skill_step_finishes_declining_the_skill() {
    let mut wizard = Wizard::new();
    wizard.handle_input(b"\r");
    wizard.handle_input(b"n");
    let outcome = wizard.handle_input(b"\r");
    match outcome {
        WizardOutcome::Done { install_skill, .. } => assert!(!install_skill),
        WizardOutcome::Continue => panic!("expected Done"),
    }
}

#[test]
fn enter_on_skill_step_with_no_toggle_defaults_to_installing() {
    let mut wizard = Wizard::new();
    wizard.handle_input(b"\r");
    let outcome = wizard.handle_input(b"\r");
    match outcome {
        WizardOutcome::Done { install_skill, .. } => assert!(install_skill),
        WizardOutcome::Continue => panic!("expected Done"),
    }
}

#[test]
fn esc_on_skill_step_finishes_with_current_toggle() {
    let mut wizard = Wizard::new();
    wizard.handle_input(b"\r");
    wizard.handle_input(b"n");
    let outcome = wizard.handle_input(b"\x1b");
    match outcome {
        WizardOutcome::Done { install_skill, .. } => assert!(!install_skill),
        WizardOutcome::Continue => panic!("expected Done"),
    }
}

fn buffer_contains(terminal: &Terminal<TestBackend>, needle: &str) -> bool {
    let buffer = terminal.backend().buffer();
    let content: String = buffer.content().iter().map(|c| c.symbol()).collect();
    content.contains(needle)
}

fn paint_area(area: Rect) -> ratatui::layout::Rect {
    ratatui::layout::Rect { x: area.x, y: area.y, width: area.width, height: area.height }
}

fn area_of(area: ratatui::layout::Rect) -> Rect {
    Rect { x: area.x, y: area.y, width: area.width, height: area.height }
}

#[derive(Debug, Clone, Copy)]
enum Assistant {
    Claude,
}

impl Assistant {
    fn name(self) -> String {
        format!("{self:?}")
    }
}

fn draw(wizard: &Wizard, frame: &mut Frame) {
    let assistant = Assistant::Claude.name();
    let note = step_note(wizard.step, &assistant);
    let area = paint_area(centered_rect(70, 50, area_of(frame.area())));
    let block = Block::bordered().title(step_title(wizard.step, &assistant));
    let inner = area_of(block.inner(area));
    frame.render_widget(Clear, area);
    frame.render_widget(block, area);
    match wizard.step {
        WizardStep::Keybindings => {
            let (rows, hint) = mode_rows(inner);
            for (i, row) in rows.into_iter().enumerate() {
                frame.render_widget(Paragraph::new(wizard.mode_line(i)), paint_area(row));
            }
            if let Some(hint) = hint {
                frame.render_widget(Paragraph::new(note), paint_area(hint));
            }
        }
        WizardStep::SkillInstall => {
            let rows = lines_of(inner, 2);
            frame.render_widget(Paragraph::new(note), paint_area(rows[0]));
            frame.render_widget(Paragraph::new(wizard.skill_line()), paint_area(rows[1]));
        }
    }
}

#[test]
fn draw_keybindings_step_shows_every_mode_and_the_hint() {
    let wizard = Wizard::new();
    let backend = TestBackend::new(90, 20);
    let mut terminal = Terminal::new(backend).unwrap();
    terminal.draw(|frame| draw(&wizard, frame)).unwrap();
    assert!(buffer_contains(&terminal, "Portable"));
    assert!(buffer_contains(&terminal, "Kitty"));
    assert!(buffer_contains(&terminal, "Both"));
    assert!(buffer_contains(&terminal, "Esc to skip"));
}

#[test]
fn draw_skill_step_shows_the_prompt_and_default_choice() {
    let mut wizard = Wizard::new();
    wizard.handle_input(b"\r");
    let backend = TestBackend::new(90, 20);
    let mut terminal = Terminal::new(backend).unwrap();
    terminal.draw(|frame| draw(&wizard, frame)).unwrap();
    let prompt = format!("dimax-pane-control {} skill", Assistant::Claude.name());
    assert!(buffer_contains(&terminal, &prompt));
    assert!(buffer_contains(&terminal, "Yes (default)"));
}

#[test]
fn the_questions_name_the_assistant() {
    assert_eq!(
        step_title(WizardStep::SkillInstall, "Helper"),
        "Install the dimax-pane-control Helper skill?"
    );
    assert_eq!(
        step_note(WizardStep::SkillInstall, "Helper"),
        "Lets Helper Code drive dimax server-panes (spawn/send/read) from any project."
    );
    assert_eq!(
        step_title(WizardStep::Keybindings, "Helper"),
        "Welcome to dimax -- choose a keybinding mode"
    );
    assert_eq!(
        step_note(WizardStep::Keybindings, "Helper"),
        "j/k or arrows to move, Enter to confirm, Esc to skip with defaults"
    );
}

#[test]
fn the_answer_about_the_skill_is_marked() {
    let mut wizard = Wizard::new();
    wizard.handle_input(b"\r");
    wizard.handle_input(b"N");
    assert_eq!(wizard.skill_line(), "  Yes    > No (default)");
    wizard.handle_input(b"Y");
    assert_eq!(wizard.skill_line(), "> Yes (default)    No");
}

#[test]
fn the_hint_is_left_out_where_there_is_no_room() {
    let (rows, hint) = mode_rows(Rect { x: 0, y: 0, width: 20, height: 1 });
    assert_eq!(rows.len(), 4);
    assert_eq!(hint, None);
}

#[test]
fn every_mode_has_a_label() {
    let labels: Vec<&str> = (0..4).map(|i| mode_label(mode(i))).collect();
    assert_eq!(labels[3], "Tmux (Ctrl-B prefix, tmux-compatible chords)");
    assert_eq!(labels[2], "Both (Ctrl-Space prefix and Cmd-key chords)");
}

#[test]
fn other_keys_do_nothing() {
    let mut wizard = Wizard::new();
    assert_eq!(wizard.handle_input(b"y"), WizardOutcome::Continue);
    assert_eq!(wizard.handle_input(b""), WizardOutcome::Continue);
    assert_eq!(wizard, Wizard::new());
    wizard.handle_input(b"\x1b[A");
    wizard.handle_input(b"\x1b[B");
    assert_eq!(wizard, Wizard::new());
}
