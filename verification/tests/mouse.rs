use dimax::mouse::{parse, parse_all, parse_one, MouseEvent, ParseOneResult, ParsedInput};



#[test]
fn left_button_down_with_trailing_semicolon() {
    assert_eq!(
        parse(b"\x1b[<0;20;10;M"),
        ParsedInput::Mouse(MouseEvent::Down { col: 19, row: 9 })
    );
}

#[test]
fn left_button_down_without_trailing_semicolon() {
    assert_eq!(
        parse(b"\x1b[<0;20;10M"),
        ParsedInput::Mouse(MouseEvent::Down { col: 19, row: 9 })
    );
}

#[test]
fn left_button_up() {
    assert_eq!(parse(b"\x1b[<0;20;10m"), ParsedInput::Mouse(MouseEvent::Up { col: 19, row: 9 }));
    assert_eq!(
        parse(b"\x1b[<0;20;10;m"),
        ParsedInput::Mouse(MouseEvent::Up { col: 19, row: 9 })
    );
}

#[test]
fn left_button_drag() {
    assert_eq!(parse(b"\x1b[<32;5;5M"), ParsedInput::Mouse(MouseEvent::Drag { col: 4, row: 4 }));
}

#[test]
fn right_and_middle_buttons_are_recognized_and_ignored() {
    assert_eq!(parse(b"\x1b[<1;5;5M"), ParsedInput::Ignored); // middle
    assert_eq!(parse(b"\x1b[<2;5;5M"), ParsedInput::Ignored); // right
}

#[test]
fn scroll_up_and_down_are_recognized_as_mouse_events() {
    assert_eq!(
        parse(b"\x1b[<64;5;5M"),
        ParsedInput::Mouse(MouseEvent::ScrollUp { col: 4, row: 4 })
    );
    assert_eq!(
        parse(b"\x1b[<65;5;5M"),
        ParsedInput::Mouse(MouseEvent::ScrollDown { col: 4, row: 4 })
    );
}

#[test]
fn bare_movement_with_no_button_is_recognized_and_ignored() {
    assert_eq!(parse(b"\x1b[<35;10;5M"), ParsedInput::Ignored);
}

#[test]
fn non_mouse_bytes_fall_through() {
    assert_eq!(parse(b""), ParsedInput::NotMouse);
    assert_eq!(parse(b"hello"), ParsedInput::NotMouse);
    assert_eq!(parse(b"\x1b_Dd\x1b\\"), ParsedInput::NotMouse); // a dimax chord, not a mouse event
}

#[test]
fn malformed_sequences_fall_through() {
    assert_eq!(parse(b"\x1b[<0;20M"), ParsedInput::NotMouse); // missing row
    assert_eq!(parse(b"\x1b[<abc;20;10M"), ParsedInput::NotMouse); // non-numeric
}

#[test]
fn parse_all_handles_multiple_bundled_scroll_ticks() {
    let (events, incomplete, leftover) = parse_all(b"\x1b[<64;5;5M\x1b[<64;5;5M\x1b[<64;5;6M");
    assert_eq!(
        events,
        vec![
            MouseEvent::ScrollUp { col: 4, row: 4 },
            MouseEvent::ScrollUp { col: 4, row: 4 },
            MouseEvent::ScrollUp { col: 4, row: 5 },
        ]
    );
    assert!(incomplete.is_empty());
    assert!(leftover.is_empty());
}

#[test]
fn parse_all_handles_a_single_sequence() {
    let (events, incomplete, leftover) = parse_all(b"\x1b[<0;20;10M");
    assert_eq!(events, vec![MouseEvent::Down { col: 19, row: 9 }]);
    assert!(incomplete.is_empty());
    assert!(leftover.is_empty());
}

#[test]
fn parse_all_consumes_ignored_sequences_without_collecting_them() {
    let (events, incomplete, leftover) = parse_all(b"\x1b[<64;5;5M\x1b[<1;5;5M\x1b[<65;5;5M");
    assert_eq!(
        events,
        vec![
            MouseEvent::ScrollUp { col: 4, row: 4 },
            MouseEvent::ScrollDown { col: 4, row: 4 },
        ]
    );
    assert!(incomplete.is_empty());
    assert!(leftover.is_empty());
}

#[test]
fn parse_all_leaves_trailing_non_mouse_bytes_for_the_fallback_path() {
    let (events, incomplete, leftover) = parse_all(b"\x1b[<64;5;5Mhello");
    assert_eq!(events, vec![MouseEvent::ScrollUp { col: 4, row: 4 }]);
    assert!(incomplete.is_empty());
    assert_eq!(leftover, b"hello");
}

#[test]
fn parse_all_of_pure_non_mouse_input_collects_nothing_and_returns_it_all() {
    let (events, incomplete, leftover) = parse_all(b"hello");
    assert!(events.is_empty());
    assert!(incomplete.is_empty());
    assert_eq!(leftover, b"hello");
}

#[test]
fn parse_all_reports_a_trailing_incomplete_sequence_separately_from_leftover() {
    let (events, incomplete, leftover) = parse_all(b"\x1b[<65;74");
    assert!(events.is_empty());
    assert_eq!(incomplete, b"\x1b[<65;74");
    assert!(leftover.is_empty());
}

#[test]
fn parse_all_handles_a_complete_sequence_followed_by_an_incomplete_one() {
    let (events, incomplete, leftover) = parse_all(b"\x1b[<64;5;5M\x1b[<65;74");
    assert_eq!(events, vec![MouseEvent::ScrollUp { col: 4, row: 4 }]);
    assert_eq!(incomplete, b"\x1b[<65;74");
    assert!(leftover.is_empty());
}

#[test]
fn parse_all_incomplete_prefix_alone_is_not_leftover() {
    let (events, incomplete, leftover) = parse_all(b"\x1b[<");
    assert!(events.is_empty());
    assert_eq!(incomplete, b"\x1b[<");
    assert!(leftover.is_empty());
}

#[test]
fn every_field_takes_a_sign_and_leading_zeros_but_no_more() {
    assert_eq!(
        parse(b"\x1b[<+0;+20;0010M"),
        ParsedInput::Mouse(MouseEvent::Down { col: 19, row: 9 })
    );
    assert_eq!(parse(b"\x1b[<0;++20;10M"), ParsedInput::NotMouse);
    assert_eq!(parse(b"\x1b[<0;+;10M"), ParsedInput::NotMouse);
    assert_eq!(parse(b"\x1b[<0;;10M"), ParsedInput::NotMouse);
    assert_eq!(parse(b"\x1b[<-1;20;10M"), ParsedInput::NotMouse);
}

#[test]
fn numbers_out_of_range_are_no_report() {
    assert_eq!(
        parse(b"\x1b[<4294967295;1;1M"),
        ParsedInput::Ignored
    );
    assert_eq!(parse(b"\x1b[<4294967296;1;1M"), ParsedInput::NotMouse);
    assert_eq!(
        parse(b"\x1b[<0;65535;65535M"),
        ParsedInput::Mouse(MouseEvent::Down { col: 65534, row: 65534 })
    );
    assert_eq!(parse(b"\x1b[<0;65536;1M"), ParsedInput::NotMouse);
    assert_eq!(parse(b"\x1b[<0;0;1M"), ParsedInput::NotMouse);
    assert_eq!(parse(b"\x1b[<0;1;0M"), ParsedInput::NotMouse);
}

#[test]
fn bytes_that_are_no_text_are_no_report() {
    assert_eq!(parse(b"\x1b[<0;20;10;\xffM"), ParsedInput::NotMouse);
    assert_eq!(parse(b"\x1b[<0;20;10;;\xff\xfeM"), ParsedInput::NotMouse);
}

#[test]
fn only_one_separator_may_trail_the_row() {
    assert_eq!(
        parse(b"\x1b[<0;20;10;M"),
        ParsedInput::Mouse(MouseEvent::Down { col: 19, row: 9 })
    );
    assert_eq!(parse(b"\x1b[<0;20;10;1M"), ParsedInput::NotMouse);
    assert_eq!(parse(b"\x1b[<0;20;10;;M"), ParsedInput::NotMouse);
    assert_eq!(parse(b"\x1b[<0;20;10;;5M"), ParsedInput::NotMouse);
}

#[test]
fn modifiers_do_not_change_the_button() {
    // Shift, alt and control are bits 2 to 4.
    assert_eq!(
        parse(b"\x1b[<28;5;5M"),
        ParsedInput::Mouse(MouseEvent::Down { col: 4, row: 4 })
    );
    assert_eq!(
        parse(b"\x1b[<68;5;5M"),
        ParsedInput::Mouse(MouseEvent::ScrollUp { col: 4, row: 4 })
    );
    assert_eq!(parse(b"\x1b[<66;5;5M"), ParsedInput::Ignored);
}

#[test]
fn parse_one_tells_the_three_outcomes_apart() {
    assert_eq!(
        parse_one(b"\x1b[<0;1;1Mrest"),
        ParseOneResult::Complete(ParsedInput::Mouse(MouseEvent::Down { col: 0, row: 0 }), 9)
    );
    assert_eq!(parse_one(b"\x1b[<0;1"), ParseOneResult::Incomplete);
    assert_eq!(parse_one(b"\x1b[0"), ParseOneResult::NoMatch);
}

#[test]
fn a_malformed_report_is_left_with_all_that_follows() {
    let (events, incomplete, leftover) = parse_all(b"\x1b[<64;5;5M\x1b[<x;5M\x1b[<64;5;5M");
    assert_eq!(events, vec![MouseEvent::ScrollUp { col: 4, row: 4 }]);
    assert!(incomplete.is_empty());
    assert_eq!(leftover, b"\x1b[<x;5M\x1b[<64;5;5M");
}

#[test]
fn reports_cut_anywhere_are_put_together() {
    let whole = b"\x1b[<64;5;5M\x1b[<0;20;10M\x1b[<65;74;43M";
    let (expected, _, _) = parse_all(whole);
    for cut in 3..whole.len() {
        let (mut events, incomplete, leftover) = parse_all(&whole[..cut]);
        if !leftover.is_empty() {
            continue;
        }
        let mut rest = incomplete.to_vec();
        rest.extend_from_slice(&whole[cut..]);
        let (more, incomplete, leftover) = parse_all(&rest);
        events.extend(more);
        assert_eq!(events, expected, "cut at {cut}");
        assert!(incomplete.is_empty());
        assert!(leftover.is_empty());
    }
}
