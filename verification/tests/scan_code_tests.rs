use controlmap_parser::scan_code::{GamepadCode, KeyboardCode, MouseCode, ScanCodeError};

#[test]
fn keyboard_hex_resolves_to_the_assigned_member() {
    // Resolving "0x1e" against the keyboard registry yields the code whose
    // fixed numeric value is 0x1e.
    let code = KeyboardCode::parse("0x1e").unwrap();
    assert_eq!(code, KeyboardCode::A);
    assert_eq!(code.to_numeric(), 0x1e);
}

#[test]
fn decimal_input_uses_radix_ten() {
    // 30 decimal is 0x1e: the same member, reached without a prefix.
    assert_eq!(KeyboardCode::parse("30"), Ok(KeyboardCode::A));
    // A value with no assigned member fails, carrying the text verbatim.
    assert_eq!(
        KeyboardCode::parse("90"),
        Err(ScanCodeError::InvalidDigit("90".to_string()))
    );
}

#[test]
fn unassigned_value_fails_resolution() {
    assert_eq!(
        KeyboardCode::parse("0x5a"),
        Err(ScanCodeError::InvalidDigit("0x5a".to_string()))
    );
}

#[test]
fn malformed_digits_fail_resolution() {
    assert_eq!(
        KeyboardCode::parse("0xzz"),
        Err(ScanCodeError::InvalidDigit("0xzz".to_string()))
    );
    assert_eq!(
        MouseCode::parse(""),
        Err(ScanCodeError::InvalidDigit("".to_string()))
    );
    assert_eq!(
        MouseCode::parse("0x"),
        Err(ScanCodeError::InvalidDigit("0x".to_string()))
    );
    // Digits only: an explicit sign is not part of the grammar.
    assert_eq!(
        MouseCode::parse("+8"),
        Err(ScanCodeError::InvalidDigit("+8".to_string()))
    );
}

#[test]
fn all_four_radix_prefixes_are_inferred() {
    assert_eq!(MouseCode::parse("0x8"), Ok(MouseCode::MouseWheelUp));
    assert_eq!(MouseCode::parse("0X8"), Ok(MouseCode::MouseWheelUp));
    assert_eq!(MouseCode::parse("0o10"), Ok(MouseCode::MouseWheelUp));
    assert_eq!(MouseCode::parse("0b1000"), Ok(MouseCode::MouseWheelUp));
    assert_eq!(MouseCode::parse("8"), Ok(MouseCode::MouseWheelUp));
    assert_eq!(GamepadCode::parse("0b1000000000"), Ok(GamepadCode::_360_RB));
}

#[test]
fn render_normalizes_to_lowercase_hex() {
    // Output is 0x-prefixed lowercase hex whatever radix obtained the code.
    assert_eq!(MouseCode::parse("0o10").unwrap().render(), "0x8");
    assert_eq!(KeyboardCode::A.render(), "0x1e");
    assert_eq!(MouseCode::Unbound.render(), "0xff");
    assert_eq!(GamepadCode::_360_B.render(), "0x2000");
    assert_eq!(GamepadCode::RightTrigger.render(), "0x119");
}

#[test]
fn script_constants_coexist_with_raw_codes() {
    // The two numbering namespaces are separate members of one table.
    assert_eq!(MouseCode::parse("0x8"), Ok(MouseCode::MouseWheelUp));
    assert_eq!(MouseCode::parse("264"), Ok(MouseCode::MouseWheelUp_));
    assert_eq!(GamepadCode::parse("266"), Ok(GamepadCode::DpadUp));
    assert_eq!(KeyboardCode::parse("0xff"), Ok(KeyboardCode::Unbound));
}

#[test]
fn tables_are_independent() {
    // 0xa names a mouse code but no gamepad 0xa... the gamepad table has its
    // own member at 0xa; check a value assigned in exactly one table instead.
    assert_eq!(MouseCode::parse("0xa"), Ok(MouseCode::MouseMove));
    assert_eq!(GamepadCode::parse("0xa"), Ok(GamepadCode::_360_RT));
    // 0x39 is the keyboard space bar; neither other table assigns it.
    assert_eq!(KeyboardCode::parse("0x39"), Ok(KeyboardCode::Space));
    assert_eq!(
        MouseCode::parse("0x39"),
        Err(ScanCodeError::InvalidDigit("0x39".to_string()))
    );
    assert_eq!(
        GamepadCode::parse("0x39"),
        Err(ScanCodeError::InvalidDigit("0x39".to_string()))
    );
}

#[test]
fn overflowing_literal_fails() {
    assert_eq!(
        KeyboardCode::parse("0xffffffffffffffff1"),
        Err(ScanCodeError::InvalidDigit("0xffffffffffffffff1".to_string()))
    );
}

#[test]
fn default_member_is_the_unbound_marker() {
    assert_eq!(MouseCode::default(), MouseCode::Unbound);
    assert_eq!(GamepadCode::default(), GamepadCode::Unbound);
    assert_eq!(KeyboardCode::default(), KeyboardCode::Unbound);
    assert_eq!(KeyboardCode::default().to_numeric(), 0xff);
}
