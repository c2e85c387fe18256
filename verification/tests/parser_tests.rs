use controlmap_parser::ast::{EventLine, KeyID, Line};
use controlmap_parser::parser::{
    control_map_parser, parse_comment_line, parse_flag, parse_hex, parse_key_id,
};

fn chars(s: &str) -> Vec<char> {
    s.chars().collect()
}

#[test]
fn test_parse_hex() {
    let input = chars("0x1234");
    let expected_output = Some((String::from("0x1234"), input.len()));
    let result = parse_hex(&input, 0);
    assert_eq!(result, expected_output);
}

#[test]
fn test_parse_flag() {
    let input = chars("0");
    let expected_output = Some((false, 1));
    let result = parse_flag(&input, 0);
    assert_eq!(result, expected_output);
}

#[test]
fn test_parse_key_id_one() {
    let input = chars("0x1234");
    let expected_output = Some((KeyID::One("0x1234".into()), input.len()));
    let result = parse_key_id(&input, 0);
    assert_eq!(result, expected_output);
}

#[test]
fn test_parse_key_id_and() {
    let input = chars("0x1234+0x5678+0x9abc");
    let expected_output = Some((
        KeyID::And(vec![
            KeyID::One("0x1234".into()),
            KeyID::One("0x5678".into()),
            KeyID::One("0x9abc".into()),
        ]),
        input.len(),
    ));
    let result = parse_key_id(&input, 0);
    assert_eq!(result, expected_output);
}

#[test]
fn test_parse_key_id_or() {
    let input = chars("0x2a+0x0f,0x36+0x0,0x1234,0x5678,0x9abc");
    let expected_output = Some((
        KeyID::Or(vec![
            KeyID::And(vec![KeyID::One("0x2a".into()), KeyID::One("0x0f".into())]),
            KeyID::And(vec![KeyID::One("0x36".into()), KeyID::One("0x0".into())]),
            KeyID::One("0x1234".into()),
            KeyID::One("0x5678".into()),
            KeyID::One("0x9abc".into()),
        ]),
        input.len(),
    ));
    let result = parse_key_id(&input, 0);
    assert_eq!(result, expected_output);
}

#[test]
fn test_parse_comment_line() {
    let input = chars("// This is a comment\n");
    let expected_output = Some((Line::Comment(" This is a comment".into()), input.len()));
    let result = parse_comment_line(&input, 0);
    assert_eq!(result, expected_output);
}

#[test]
fn parses_event_line_with_binary_flag() {
    // The spec's first literal example.
    let (lines, consumed) = control_map_parser("RotatePick\t0xff\t0xa\t0x000b\t0\t0\t0\t0x8\n");
    assert_eq!(consumed, "RotatePick\t0xff\t0xa\t0x000b\t0\t0\t0\t0x8\n".len());
    assert_eq!(
        lines,
        vec![Line::EventLine(EventLine {
            event_name: "RotatePick".into(),
            keyboard_id: KeyID::One("0xff".into()),
            mouse_id: KeyID::One("0xa".into()),
            gamepad_id: KeyID::One("0x000b".into()),
            remap_key: false,
            remap_mouse: false,
            remap_gamepad: false,
            event_binary_flag: Some("0x8".into()),
        })]
    );
}

#[test]
fn parses_or_group_without_trailing_newline() {
    // The spec's second literal example: no line terminator at the end.
    let input = "RotateLock\t0x1e,0xff\t0xff\t0x000c\t0\t0\t0\t0x8";
    let (lines, consumed) = control_map_parser(input);
    assert_eq!(consumed, input.len());
    assert_eq!(lines.len(), 1);
    match &lines[0] {
        Line::EventLine(e) => {
            assert_eq!(e.event_name, "RotateLock");
            assert_eq!(
                e.keyboard_id,
                KeyID::Or(vec![KeyID::One("0x1e".into()), KeyID::One("0xff".into())])
            );
            assert_eq!(e.event_binary_flag, Some("0x8".to_string()));
        }
        other => panic!("expected an event line, got {:?}", other),
    }
}

#[test]
fn parses_alias_and_multiple_tabs() {
    let input = "Accept\t\t!0,Activate\t0xff\t0x2000\t0\t0\t0\t0x8\n";
    let (lines, consumed) = control_map_parser(input);
    assert_eq!(consumed, input.len());
    assert_eq!(
        lines,
        vec![Line::EventLine(EventLine {
            event_name: "Accept".into(),
            keyboard_id: KeyID::Alias("Activate".into()),
            mouse_id: KeyID::One("0xff".into()),
            gamepad_id: KeyID::One("0x2000".into()),
            remap_key: false,
            remap_mouse: false,
            remap_gamepad: false,
            event_binary_flag: Some("0x8".into()),
        })]
    );
}

#[test]
fn event_line_without_binary_flag_and_trailing_tab() {
    let input = "Jump\t0x39\t0xff\t0x1000\t1\t0\t0\t\n";
    let (lines, consumed) = control_map_parser(input);
    assert_eq!(consumed, input.len());
    match &lines[0] {
        Line::EventLine(e) => {
            assert_eq!(e.event_name, "Jump");
            assert!(e.remap_key);
            assert_eq!(e.event_binary_flag, None);
        }
        other => panic!("expected an event line, got {:?}", other),
    }
}

#[test]
fn blank_run_collapses_to_one_blank_line() {
    let (lines, consumed) = control_map_parser("\n\n\n");
    assert_eq!(consumed, 3);
    assert_eq!(lines, vec![Line::BlankLine]);
}

#[test]
fn unmatched_trailing_line_stops_the_loop() {
    let input = "Forward\t0x11\t0xff\t0xff\t1\t1\t0\t0x801\nBadLine\tnothex\n";
    let (lines, consumed) = control_map_parser(input);
    assert_eq!(lines.len(), 1);
    assert_eq!(&input[consumed..], "BadLine\tnothex\n");
}
