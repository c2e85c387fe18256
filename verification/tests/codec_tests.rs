use controlmap_parser::ast::{EventLine, KeyID, Line};
use controlmap_parser::codec::{decode_key, decode_line, Value};
use controlmap_parser::ControlMap;

const SAMPLE: &str = "\n// Lockpicking\nRotatePick\t0xff\t0xa\t0x000b\t0\t0\t0\t0x8\nRotateLock\t0x1e,0xff\t0xff\t0x000c\t0\t0\t0\t0x8\n\n// Favor\nCancel\t0x0f\t0xff\t0x1000\t0\t0\t0\t0x108";

#[test]
fn decode_of_encode_is_identity() {
    // Structured round trip through the whole aggregate.
    let cm = ControlMap::from_txt(SAMPLE).unwrap();
    let value = cm.to_value();
    let back = ControlMap::from_value(&value).unwrap();
    assert_eq!(back, cm);
}

#[test]
fn key_id_encoding_shape() {
    let k = KeyID::Or(vec![KeyID::One("0x1e".into()), KeyID::One("0xff".into())]);
    let v = k.encode_value();
    let expected = Value::Obj(vec![(
        "Or".to_string(),
        Value::Arr(vec![
            Value::Obj(vec![("One".to_string(), Value::Str("0x1e".to_string()))]),
            Value::Obj(vec![("One".to_string(), Value::Str("0xff".to_string()))]),
        ]),
    )]);
    assert_eq!(v, expected);
    assert_eq!(decode_key(&expected), Some(k));
}

#[test]
fn blank_line_encodes_as_bare_string() {
    let v = Line::BlankLine.encode_value();
    assert_eq!(v, Value::Str("BlankLine".to_string()));
    assert_eq!(decode_line(&v), Some(Line::BlankLine));
}

#[test]
fn absent_binary_flag_is_omitted() {
    let e = EventLine {
        event_name: "Jump".into(),
        keyboard_id: KeyID::One("0x39".into()),
        mouse_id: KeyID::One("0xff".into()),
        gamepad_id: KeyID::One("0x1000".into()),
        remap_key: true,
        remap_mouse: false,
        remap_gamepad: false,
        event_binary_flag: None,
    };
    match e.encode_value() {
        Value::Obj(pairs) => {
            assert_eq!(pairs.len(), 7);
            assert_eq!(pairs[0].0, "event_name");
            assert_eq!(pairs[6].0, "remap_gamepad");
        }
        other => panic!("expected an object, got {:?}", other),
    }
    let e2 = EventLine {
        event_binary_flag: Some("0x8".into()),
        ..e
    };
    match e2.encode_value() {
        Value::Obj(pairs) => {
            assert_eq!(pairs.len(), 8);
            assert_eq!(pairs[7].0, "event_binary_flag");
            assert_eq!(pairs[7].1, Value::Str("0x8".to_string()));
        }
        other => panic!("expected an object, got {:?}", other),
    }
}

#[test]
fn decode_rejects_a_foreign_shape() {
    assert_eq!(decode_line(&Value::Bool(true)), None);
    assert_eq!(decode_line(&Value::Str("SomethingElse".to_string())), None);
    assert_eq!(
        decode_key(&Value::Obj(vec![(
            "Xor".to_string(),
            Value::Str("0x1".to_string())
        )])),
        None
    );
    assert_eq!(ControlMap::from_value(&Value::Bool(false)), None);
}
