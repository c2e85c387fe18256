use controlmap_parser::ast::{KeyID, Line};
use controlmap_parser::{ControlMap, ControlMapError};

const SAMPLE: &str = "\n// Lockpicking\nRotatePick\t0xff\t\t0xa\t0x000b\t0\t0\t0\t0x8\nRotateLock\t0x1e,0xff\t0xff\t0x000c\t0\t0\t0\t0x8\nDebugMode\t0x35\t0xff\t0x4000\t0\t0\t0\t0x8\nCancel\t0x0f\t0xff\t0x1000\t0\t0\t0\t0x8\n\n// Favor\nCancel\t0x0f\t0xff\t0x1000\t0\t0\t0\t0x108";

#[test]
fn parse_format_parse_is_stable() {
    // Structural idempotence on a canonical-comment input: one round trip
    // through the formatter changes nothing.
    let first = ControlMap::from_txt(SAMPLE).unwrap();
    let text = first.to_text();
    let second = ControlMap::from_txt(&text).unwrap();
    assert_eq!(second, first);
    // And the canonical text is a fixpoint of format-then-parse.
    let third = ControlMap::from_txt(&second.to_text()).unwrap();
    assert_eq!(third, second);
}

#[test]
fn formatter_normalizes_separators_and_whitespace() {
    let cm = ControlMap::from_txt(SAMPLE).unwrap();
    let expected = "\n// Lockpicking\nRotatePick\t0xff\t0xa\t0x000b\t0\t0\t0\t0x8\nRotateLock\t0x1e,0xff\t0xff\t0x000c\t0\t0\t0\t0x8\nDebugMode\t0x35\t0xff\t0x4000\t0\t0\t0\t0x8\nCancel\t0x0f\t0xff\t0x1000\t0\t0\t0\t0x8\n\n// Favor\nCancel\t0x0f\t0xff\t0x1000\t0\t0\t0\t0x108\n";
    assert_eq!(cm.to_text(), expected);
}

#[test]
fn comment_text_normalizes_after_one_pass() {
    // A comment without the leading space is kept verbatim by the parser,
    // and the formatter writes it canonically; from then on it is stable.
    let first = ControlMap::from_txt("//x\n").unwrap();
    assert_eq!(first.lines(), &vec![Line::Comment("x".into())]);
    let text = first.to_text();
    assert_eq!(text, "// x\n");
    let second = ControlMap::from_txt(&text).unwrap();
    assert_eq!(second.lines(), &vec![Line::Comment(" x".into())]);
    assert_eq!(second.to_text(), "// x\n");
    let third = ControlMap::from_txt(&second.to_text()).unwrap();
    assert_eq!(third, second);
}

#[test]
fn blank_line_positions_survive_the_round_trip() {
    let input = "\n// a\nForward\t0x11\t0xff\t0xff\t1\t1\t0\t0x801\n\n// b\nBack\t0x1f\t0xff\t0xff\t1\t1\t0\t0x801\n";
    let cm = ControlMap::from_txt(input).unwrap();
    let blanks: Vec<usize> = cm
        .lines()
        .iter()
        .enumerate()
        .filter(|(_, l)| matches!(l, Line::BlankLine))
        .map(|(i, _)| i)
        .collect();
    assert_eq!(blanks, vec![0, 3]);
    let again = ControlMap::from_txt(&cm.to_text()).unwrap();
    let blanks2: Vec<usize> = again
        .lines()
        .iter()
        .enumerate()
        .filter(|(_, l)| matches!(l, Line::BlankLine))
        .map(|(i, _)| i)
        .collect();
    assert_eq!(blanks2, blanks);
    assert_eq!(again.lines().len(), cm.lines().len());
}

#[test]
fn crlf_terminators_are_tolerated() {
    let cm = ControlMap::from_txt("// c\r\nForward\t0x11\t0xff\t0xff\t1\t1\t0\t0x801\r\n").unwrap();
    assert_eq!(cm.lines().len(), 2);
    assert_eq!(cm.lines()[0], Line::Comment(" c".into()));
}

#[test]
fn empty_input_parses_to_no_lines() {
    let cm = ControlMap::from_txt("").unwrap();
    assert_eq!(cm.lines().len(), 0);
    assert_eq!(cm.to_text(), "");
}

#[test]
fn incomplete_carries_the_trailing_fragment() {
    // A trailing line that matches none of the three productions (a
    // field-count mismatch) yields Incomplete with that fragment verbatim.
    let input = "Forward\t0x11\t0xff\t0xff\t1\t1\t0\t0x801\nSprint\t0x2a\t0xff\n";
    match ControlMap::from_txt(input) {
        Err(ControlMapError::Incomplete(rem)) => {
            assert_eq!(rem, "Sprint\t0x2a\t0xff\n");
        }
        other => panic!("expected Incomplete, got {:?}", other),
    }
}

#[test]
fn lone_hex_is_one_never_a_singleton_group() {
    // The arity invariant, observed through a full parse.
    let cm = ControlMap::from_txt("A\t0x1\t0x2\t0x3\t0\t0\t0\n").unwrap();
    match &cm.lines()[0] {
        Line::EventLine(e) => {
            assert_eq!(e.keyboard_id, KeyID::One("0x1".into()));
            assert_eq!(e.mouse_id, KeyID::One("0x2".into()));
            assert_eq!(e.gamepad_id, KeyID::One("0x3".into()));
            assert_eq!(e.event_binary_flag, None);
        }
        other => panic!("expected an event line, got {:?}", other),
    }
}

#[test]
fn groups_always_hold_at_least_two_children() {
    let cm = ControlMap::from_txt("A\t0x1+0x2\t0x3,0x4\t0x5\t1\t0\t1\t0x8\n").unwrap();
    match &cm.lines()[0] {
        Line::EventLine(e) => {
            match &e.keyboard_id {
                KeyID::And(ks) => assert_eq!(ks.len(), 2),
                other => panic!("expected an and-group, got {:?}", other),
            }
            match &e.mouse_id {
                KeyID::Or(ks) => assert_eq!(ks.len(), 2),
                other => panic!("expected an or-group, got {:?}", other),
            }
        }
        other => panic!("expected an event line, got {:?}", other),
    }
}

#[test]
fn renders_alias_and_groups_with_parse_side_separators() {
    let and = KeyID::And(vec![KeyID::One("0x2a".into()), KeyID::One("0x0f".into())]);
    assert_eq!(and.render(), "0x2a+0x0f");
    let or = KeyID::Or(vec![
        KeyID::And(vec![KeyID::One("0x2a".into()), KeyID::One("0x0f".into())]),
        KeyID::One("0x36".into()),
    ]);
    assert_eq!(or.render(), "0x2a+0x0f,0x36");
    let alias = KeyID::Alias("Activate".into());
    assert_eq!(alias.render(), "!0,Activate");
}

#[test]
fn leading_spaces_become_a_blank_line() {
    let cm = ControlMap::from_txt("  Forward\t0x11\t0xff\t0xff\t1\t1\t0\t0x801\n").unwrap();
    assert_eq!(cm.lines().len(), 2);
    assert_eq!(cm.lines()[0], Line::BlankLine);
    match &cm.lines()[1] {
        Line::EventLine(e) => assert_eq!(e.event_name, "Forward"),
        other => panic!("expected an event line, got {:?}", other),
    }
}
