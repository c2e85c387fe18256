//! The scan-code registry: three independent closed enumerations (keyboard,
//! mouse, gamepad) of named input codes with explicit, sparse numeric
//! assignments, and bidirectional text/code conversion.
//!
//! Each enumeration layers two disjoint numbering namespaces: raw hardware
//! scan codes in a low range (below 256) and symbolic script constants at or
//! above 256; both coexist as separate named members. No enumeration
//! validates membership against either of the other two. The numeric tables
//! are written out explicitly, member by member, and are the specification
//! of each code's fixed value.

use crate::chars::{char_vec_of_str, push_char};
use vstd::prelude::*;

verus! {

/// The error scan-code resolution fails with: the text does not form a valid
/// integer in the inferred radix, or the integer names no member of the
/// selected table. Carries the original text verbatim.
#[derive(Debug, Clone, PartialEq, Eq)]
pub enum ScanCodeError {
    InvalidDigit(String),
}

/// The value of one digit character under a radix (at most 16).
pub open spec fn digit_val(c: char, radix: u64) -> Option<u64> {
    let v: int = if '0' <= c && c <= '9' {
        c as u32 - '0' as u32
    } else if 'a' <= c && c <= 'f' {
        c as u32 - 'a' as u32 + 10
    } else if 'A' <= c && c <= 'F' {
        c as u32 - 'A' as u32 + 10
    } else {
        99
    };
    if v < radix as int {
        Some(v as u64)
    } else {
        None
    }
}

/// The radix a literal prefix selects: `0x`/`0X` is 16, `0o`/`0O` is 8,
/// `0b`/`0B` is 2, anything else is 10.
pub open spec fn radix_of(s: Seq<char>) -> u64 {
    if s.len() >= 2 && s[0] == '0' {
        if s[1] == 'x' || s[1] == 'X' {
            16
        } else if s[1] == 'o' || s[1] == 'O' {
            8
        } else if s[1] == 'b' || s[1] == 'B' {
            2
        } else {
            10
        }
    } else {
        10
    }
}

/// Where the digits start: after the two prefix characters, except in radix
/// ten where the whole text is digits.
pub open spec fn digits_start(s: Seq<char>) -> int {
    if radix_of(s) != 10 {
        2
    } else {
        0
    }
}

/// Fold the digits into a value, most significant first; `None` on a
/// non-digit or when the value would not fit in 64 bits.
pub open spec fn num_acc(digits: Seq<char>, radix: u64, acc: u64) -> Option<u64>
    decreases digits.len(),
{
    if digits.len() == 0 {
        Some(acc)
    } else {
        match digit_val(digits[0], radix) {
            Some(d) => {
                if acc as int * radix as int + d as int <= u64::MAX as int {
                    num_acc(digits.drop_first(), radix, (acc * radix + d) as u64)
                } else {
                    None
                }
            },
            None => None,
        }
    }
}

/// Parse a numeric literal: infer the radix from the prefix, then fold the
/// remaining digits; one or more digits are required.
pub open spec fn spec_parse_num(s: Seq<char>) -> Option<u64> {
    let ds = s.skip(digits_start(s));
    if ds.len() == 0 {
        None
    } else {
        num_acc(ds, radix_of(s), 0)
    }
}

/// The lowercase hex digit for a value below 16.
pub open spec fn hex_digit_char(n: u64) -> char {
    if n == 0 { '0' } else if n == 1 { '1' } else if n == 2 { '2' } else if n == 3 { '3' }
    else if n == 4 { '4' } else if n == 5 { '5' } else if n == 6 { '6' } else if n == 7 { '7' }
    else if n == 8 { '8' } else if n == 9 { '9' } else if n == 10 { 'a' } else if n == 11 { 'b' }
    else if n == 12 { 'c' } else if n == 13 { 'd' } else if n == 14 { 'e' } else { 'f' }
}

/// The lowercase hexadecimal digits of a value, most significant first, with
/// no leading zeros (a single `0` for zero).
pub open spec fn spec_hex(n: u64) -> Seq<char>
    decreases n,
{
    if n < 16 {
        seq![hex_digit_char(n)]
    } else {
        spec_hex(n / 16).push(hex_digit_char(n % 16))
    }
}

/// A numeric value renders as `0x` and its lowercase hexadecimal digits,
/// whatever radix the value was originally written in.
pub open spec fn spec_render_num(n: u64) -> Seq<char> {
    seq!['0', 'x'] + spec_hex(n)
}

/// Executable digit classification, matching `digit_val` exactly.
fn digit_value(c: char, radix: u64) -> (r: Option<u64>)
    ensures
        r == digit_val(c, radix),
{
    let v: u64 = if '0' <= c && c <= '9' {
        (c as u32 - '0' as u32) as u64
    } else if 'a' <= c && c <= 'f' {
        (c as u32 - 'a' as u32) as u64 + 10
    } else if 'A' <= c && c <= 'F' {
        (c as u32 - 'A' as u32) as u64 + 10
    } else {
        99
    };
    if v < radix {
        Some(v)
    } else {
        None
    }
}

/// Parse a numeric literal from text, exactly as `spec_parse_num` defines it.
pub fn parse_numeric_text(s: &str) -> (r: Option<u64>)
    ensures
        r == spec_parse_num(s@),
{
    let v = char_vec_of_str(s);
    let radix: u64 = if v.len() >= 2 && v[0] == '0' {
        if v[1] == 'x' || v[1] == 'X' {
            16
        } else if v[1] == 'o' || v[1] == 'O' {
            8
        } else if v[1] == 'b' || v[1] == 'B' {
            2
        } else {
            10
        }
    } else {
        10
    };
    let start: usize = if radix != 10 {
        2
    } else {
        0
    };
    proof {
        assert(radix == radix_of(s@));
        assert(start as int == digits_start(s@));
    }
    if v.len() == start {
        proof {
            assert(s@.skip(start as int).len() == 0);
        }
        return None;
    }
    let ghost ds = s@.skip(start as int);
    let mut acc: u64 = 0;
    let mut j: usize = start;
    while j < v.len()
        invariant
            start <= j <= v@.len(),
            v@ == s@,
            radix == radix_of(s@),
            start as int == digits_start(s@),
            ds == s@.skip(start as int),
            num_acc(ds, radix, 0) == num_acc(s@.skip(j as int), radix, acc),
        decreases v@.len() - j,
    {
        let ghost rem = s@.skip(j as int);
        proof {
            assert(rem[0] == s@[j as int]);
            assert(rem.drop_first() =~= s@.skip(j as int + 1));
        }
        match digit_value(v[j], radix) {
            Some(d) => {
                match acc.checked_mul(radix) {
                    Some(m) => {
                        match m.checked_add(d) {
                            Some(n) => {
                                acc = n;
                            },
                            None => {
                                return None;
                            },
                        }
                    },
                    None => {
                        proof {
                            assert(d < radix <= 16);
                        }
                        return None;
                    },
                }
            },
            None => {
                return None;
            },
        }
        j = j + 1;
    }
    proof {
        assert(s@.skip(j as int).len() == 0);
    }
    Some(acc)
}

/// Executable hex digit, matching `hex_digit_char` exactly.
fn hex_char(n: u64) -> (c: char)
    ensures
        c == hex_digit_char(n),
{
    if n == 0 { '0' } else if n == 1 { '1' } else if n == 2 { '2' } else if n == 3 { '3' }
    else if n == 4 { '4' } else if n == 5 { '5' } else if n == 6 { '6' } else if n == 7 { '7' }
    else if n == 8 { '8' } else if n == 9 { '9' } else if n == 10 { 'a' } else if n == 11 { 'b' }
    else if n == 12 { 'c' } else if n == 13 { 'd' } else if n == 14 { 'e' } else { 'f' }
}

/// Append a value's lowercase hexadecimal digits.
fn push_hex(out: &mut String, n: u64)
    ensures
        final(out)@ == old(out)@ + spec_hex(n),
    decreases n,
{
    if n < 16 {
        push_char(out, hex_char(n));
        proof {
            assert(final(out)@ =~= old(out)@ + spec_hex(n));
        }
    } else {
        push_hex(out, n / 16);
        push_char(out, hex_char(n % 16));
        proof {
            assert(final(out)@ =~= old(out)@ + spec_hex(n));
        }
    }
}

/// Render a numeric value as `0x` and lowercase hexadecimal.
pub fn render_numeric(n: u64) -> (r: String)
    ensures
        r@ == spec_render_num(n),
{
    let mut out = String::new();
    push_char(&mut out, '0');
    push_char(&mut out, 'x');
    push_hex(&mut out, n);
    proof {
        assert(out@ =~= spec_render_num(n));
    }
    out
}

/// Mouse input codes: raw device codes below 256, and the script
/// constants for buttons and wheel at or above 256.
#[derive(Debug, Clone, Copy, PartialEq, Eq, PartialOrd, Ord, Hash, Structural)]
pub enum MouseCode {
    Unbound,
    Mouse1,
    Mouse2,
    Mouse3,
    Mouse4,
    Mouse5,
    Mouse6,
    Mouse7,
    Mouse8,
    MouseWheelUp,
    MouseWheelDown,
    MouseMove,
    LeftMouseButton,
    RightMouseButton,
    MiddleWheelMouseButton,
    MouseButton3,
    MouseButton4,
    MouseButton5,
    MouseButton6,
    MouseButton7,
    MouseWheelUp_,
    MouseWheelDown_,
}

impl MouseCode {
    /// The member's fixed assigned value: this table is the specification.
    pub open spec fn spec_to_numeric(self) -> u64 {
        match self {
            MouseCode::Unbound => 0xff,
            MouseCode::Mouse1 => 0x0,
            MouseCode::Mouse2 => 0x1,
            MouseCode::Mouse3 => 0x2,
            MouseCode::Mouse4 => 0x3,
            MouseCode::Mouse5 => 0x4,
            MouseCode::Mouse6 => 0x5,
            MouseCode::Mouse7 => 0x6,
            MouseCode::Mouse8 => 0x7,
            MouseCode::MouseWheelUp => 0x8,
            MouseCode::MouseWheelDown => 0x9,
            MouseCode::MouseMove => 0xa,
            MouseCode::LeftMouseButton => 256,
            MouseCode::RightMouseButton => 257,
            MouseCode::MiddleWheelMouseButton => 258,
            MouseCode::MouseButton3 => 259,
            MouseCode::MouseButton4 => 260,
            MouseCode::MouseButton5 => 261,
            MouseCode::MouseButton6 => 262,
            MouseCode::MouseButton7 => 263,
            MouseCode::MouseWheelUp_ => 264,
            MouseCode::MouseWheelDown_ => 265,
        }
    }

    /// The member whose fixed value is `n`, if any.
    pub open spec fn spec_from_numeric(n: u64) -> Option<MouseCode> {
        if n == 0xff {
            Some(MouseCode::Unbound)
        } else
 if n == 0x0 {
            Some(MouseCode::Mouse1)
        } else
 if n == 0x1 {
            Some(MouseCode::Mouse2)
        } else
 if n == 0x2 {
            Some(MouseCode::Mouse3)
        } else
 if n == 0x3 {
            Some(MouseCode::Mouse4)
        } else
 if n == 0x4 {
            Some(MouseCode::Mouse5)
        } else
 if n == 0x5 {
            Some(MouseCode::Mouse6)
        } else
 if n == 0x6 {
            Some(MouseCode::Mouse7)
        } else
 if n == 0x7 {
            Some(MouseCode::Mouse8)
        } else
 if n == 0x8 {
            Some(MouseCode::MouseWheelUp)
        } else
 if n == 0x9 {
            Some(MouseCode::MouseWheelDown)
        } else
 if n == 0xa {
            Some(MouseCode::MouseMove)
        } else
 if n == 256 {
            Some(MouseCode::LeftMouseButton)
        } else
 if n == 257 {
            Some(MouseCode::RightMouseButton)
        } else
 if n == 258 {
            Some(MouseCode::MiddleWheelMouseButton)
        } else
 if n == 259 {
            Some(MouseCode::MouseButton3)
        } else
 if n == 260 {
            Some(MouseCode::MouseButton4)
        } else
 if n == 261 {
            Some(MouseCode::MouseButton5)
        } else
 if n == 262 {
            Some(MouseCode::MouseButton6)
        } else
 if n == 263 {
            Some(MouseCode::MouseButton7)
        } else
 if n == 264 {
            Some(MouseCode::MouseWheelUp_)
        } else
 if n == 265 {
            Some(MouseCode::MouseWheelDown_)
        } else {
            None
        }
    }

    /// The code's fixed assigned value.
    pub fn to_numeric(&self) -> (n: u64)
        ensures
            n == self.spec_to_numeric(),
    {
        match self {
            MouseCode::Unbound => 0xff,
            MouseCode::Mouse1 => 0x0,
            MouseCode::Mouse2 => 0x1,
            MouseCode::Mouse3 => 0x2,
            MouseCode::Mouse4 => 0x3,
            MouseCode::Mouse5 => 0x4,
            MouseCode::Mouse6 => 0x5,
            MouseCode::Mouse7 => 0x6,
            MouseCode::Mouse8 => 0x7,
            MouseCode::MouseWheelUp => 0x8,
            MouseCode::MouseWheelDown => 0x9,
            MouseCode::MouseMove => 0xa,
            MouseCode::LeftMouseButton => 256,
            MouseCode::RightMouseButton => 257,
            MouseCode::MiddleWheelMouseButton => 258,
            MouseCode::MouseButton3 => 259,
            MouseCode::MouseButton4 => 260,
            MouseCode::MouseButton5 => 261,
            MouseCode::MouseButton6 => 262,
            MouseCode::MouseButton7 => 263,
            MouseCode::MouseWheelUp_ => 264,
            MouseCode::MouseWheelDown_ => 265,
        }
    }

    /// Look a value up in this enumeration's table.
    pub fn from_numeric(n: u64) -> (r: Option<MouseCode>)
        ensures
            r == MouseCode::spec_from_numeric(n),
    {
        match n {
            0xff => Some(MouseCode::Unbound),
            0x0 => Some(MouseCode::Mouse1),
            0x1 => Some(MouseCode::Mouse2),
            0x2 => Some(MouseCode::Mouse3),
            0x3 => Some(MouseCode::Mouse4),
            0x4 => Some(MouseCode::Mouse5),
            0x5 => Some(MouseCode::Mouse6),
            0x6 => Some(MouseCode::Mouse7),
            0x7 => Some(MouseCode::Mouse8),
            0x8 => Some(MouseCode::MouseWheelUp),
            0x9 => Some(MouseCode::MouseWheelDown),
            0xa => Some(MouseCode::MouseMove),
            256 => Some(MouseCode::LeftMouseButton),
            257 => Some(MouseCode::RightMouseButton),
            258 => Some(MouseCode::MiddleWheelMouseButton),
            259 => Some(MouseCode::MouseButton3),
            260 => Some(MouseCode::MouseButton4),
            261 => Some(MouseCode::MouseButton5),
            262 => Some(MouseCode::MouseButton6),
            263 => Some(MouseCode::MouseButton7),
            264 => Some(MouseCode::MouseWheelUp_),
            265 => Some(MouseCode::MouseWheelDown_),
            _ => None,
        }
    }

    /// Resolve a textual code against this table: infer the radix from the
    /// literal prefix, parse the digits, and look the value up. Fails with
    /// `InvalidDigit` carrying the text verbatim exactly when the digits do
    /// not form a 64-bit integer in the inferred radix or the integer has no
    /// corresponding named member.
    pub fn parse(s: &str) -> (r: Result<MouseCode, ScanCodeError>)
        ensures
            match r {
                Ok(c) => spec_parse_num(s@) matches Some(n) && MouseCode::spec_from_numeric(n)
                    == Some(c),
                Err(e) => (e matches ScanCodeError::InvalidDigit(t) && t@ == s@) && (match
                    spec_parse_num(s@) {
                    Some(n) => MouseCode::spec_from_numeric(n) is None,
                    None => true,
                }),
            },
    {
        match parse_numeric_text(s) {
            Some(n) => match MouseCode::from_numeric(n) {
                Some(c) => Ok(c),
                None => Err(ScanCodeError::InvalidDigit(String::from_str(s))),
            },
            None => Err(ScanCodeError::InvalidDigit(String::from_str(s))),
        }
    }

    /// The canonical text of this code: `0x` and the lowercase hexadecimal
    /// form of its value, whatever radix obtained it.
    pub fn render(&self) -> (r: String)
        ensures
            r@ == spec_render_num(self.spec_to_numeric()),
    {
        let n = self.to_numeric();
        render_numeric(n)
    }
}

impl Default for MouseCode {
    /// The unbound marker is the default member.
    fn default() -> (r: Self)
        ensures
            r == MouseCode::Unbound,
    {
        MouseCode::Unbound
    }
}

/// Gamepad input codes: raw button masks in the low namespace, and the
/// script constants for the pad at or above 256.
#[allow(non_camel_case_types)]
#[derive(Debug, Clone, Copy, PartialEq, Eq, PartialOrd, Ord, Hash, Structural)]
pub enum GamepadCode {
    Unbound,
    Up,
    Down,
    Left,
    Right,
    _360_Start,
    _360_Back,
    _360_L3,
    _360_R3,
    _360_LB,
    _360_RB,
    _360_A,
    _360_B,
    _360_X,
    _360_Y,
    _360_LT,
    _360_RT,
    _360_LS,
    _360_RS,
    DpadUp,
    DpadDown,
    DpadLeft,
    DpadRight,
    Start,
    Back,
    LeftThumb,
    RightThumb,
    LeftShoulder,
    RightShoulder,
    AButton,
    BButton,
    XButton,
    YButton,
    LeftTrigger,
    RightTrigger,
}

impl GamepadCode {
    /// The member's fixed assigned value: this table is the specification.
    pub open spec fn spec_to_numeric(self) -> u64 {
        match self {
            GamepadCode::Unbound => 0xff,
            GamepadCode::Up => 0x0001,
            GamepadCode::Down => 0x0002,
            GamepadCode::Left => 0x0004,
            GamepadCode::Right => 0x008,
            GamepadCode::_360_Start => 0x0010,
            GamepadCode::_360_Back => 0x0020,
            GamepadCode::_360_L3 => 0x0040,
            GamepadCode::_360_R3 => 0x0080,
            GamepadCode::_360_LB => 0x0100,
            GamepadCode::_360_RB => 0x0200,
            GamepadCode::_360_A => 0x1000,
            GamepadCode::_360_B => 0x2000,
            GamepadCode::_360_X => 0x4000,
            GamepadCode::_360_Y => 0x8000,
            GamepadCode::_360_LT => 0x0009,
            GamepadCode::_360_RT => 0x000a,
            GamepadCode::_360_LS => 0x000b,
            GamepadCode::_360_RS => 0x000c,
            GamepadCode::DpadUp => 266,
            GamepadCode::DpadDown => 267,
            GamepadCode::DpadLeft => 268,
            GamepadCode::DpadRight => 269,
            GamepadCode::Start => 270,
            GamepadCode::Back => 271,
            GamepadCode::LeftThumb => 272,
            GamepadCode::RightThumb => 273,
            GamepadCode::LeftShoulder => 274,
            GamepadCode::RightShoulder => 275,
            GamepadCode::AButton => 276,
            GamepadCode::BButton => 277,
            GamepadCode::XButton => 278,
            GamepadCode::YButton => 279,
            GamepadCode::LeftTrigger => 280,
            GamepadCode::RightTrigger => 281,
        }
    }

    /// The member whose fixed value is `n`, if any.
    pub open spec fn spec_from_numeric(n: u64) -> Option<GamepadCode> {
        if n == 0xff {
            Some(GamepadCode::Unbound)
        } else
 if n == 0x0001 {
            Some(GamepadCode::Up)
        } else
 if n == 0x0002 {
            Some(GamepadCode::Down)
        } else
 if n == 0x0004 {
            Some(GamepadCode::Left)
        } else
 if n == 0x008 {
            Some(GamepadCode::Right)
        } else
 if n == 0x0010 {
            Some(GamepadCode::_360_Start)
        } else
 if n == 0x0020 {
            Some(GamepadCode::_360_Back)
        } else
 if n == 0x0040 {
            Some(GamepadCode::_360_L3)
        } else
 if n == 0x0080 {
            Some(GamepadCode::_360_R3)
        } else
 if n == 0x0100 {
            Some(GamepadCode::_360_LB)
        } else
 if n == 0x0200 {
            Some(GamepadCode::_360_RB)
        } else
 if n == 0x1000 {
            Some(GamepadCode::_360_A)
        } else
 if n == 0x2000 {
            Some(GamepadCode::_360_B)
        } else
 if n == 0x4000 {
            Some(GamepadCode::_360_X)
        } else
 if n == 0x8000 {
            Some(GamepadCode::_360_Y)
        } else
 if n == 0x0009 {
            Some(GamepadCode::_360_LT)
        } else
 if n == 0x000a {
            Some(GamepadCode::_360_RT)
        } else
 if n == 0x000b {
            Some(GamepadCode::_360_LS)
        } else
 if n == 0x000c {
            Some(GamepadCode::_360_RS)
        } else
 if n == 266 {
            Some(GamepadCode::DpadUp)
        } else
 if n == 267 {
            Some(GamepadCode::DpadDown)
        } else
 if n == 268 {
            Some(GamepadCode::DpadLeft)
        } else
 if n == 269 {
            Some(GamepadCode::DpadRight)
        } else
 if n == 270 {
            Some(GamepadCode::Start)
        } else
 if n == 271 {
            Some(GamepadCode::Back)
        } else
 if n == 272 {
            Some(GamepadCode::LeftThumb)
        } else
 if n == 273 {
            Some(GamepadCode::RightThumb)
        } else
 if n == 274 {
            Some(GamepadCode::LeftShoulder)
        } else
 if n == 275 {
            Some(GamepadCode::RightShoulder)
        } else
 if n == 276 {
            Some(GamepadCode::AButton)
        } else
 if n == 277 {
            Some(GamepadCode::BButton)
        } else
 if n == 278 {
            Some(GamepadCode::XButton)
        } else
 if n == 279 {
            Some(GamepadCode::YButton)
        } else
 if n == 280 {
            Some(GamepadCode::LeftTrigger)
        } else
 if n == 281 {
            Some(GamepadCode::RightTrigger)
        } else {
            None
        }
    }

    /// The code's fixed assigned value.
    pub fn to_numeric(&self) -> (n: u64)
        ensures
            n == self.spec_to_numeric(),
    {
        match self {
            GamepadCode::Unbound => 0xff,
            GamepadCode::Up => 0x0001,
            GamepadCode::Down => 0x0002,
            GamepadCode::Left => 0x0004,
            GamepadCode::Right => 0x008,
            GamepadCode::_360_Start => 0x0010,
            GamepadCode::_360_Back => 0x0020,
            GamepadCode::_360_L3 => 0x0040,
            GamepadCode::_360_R3 => 0x0080,
            GamepadCode::_360_LB => 0x0100,
            GamepadCode::_360_RB => 0x0200,
            GamepadCode::_360_A => 0x1000,
            GamepadCode::_360_B => 0x2000,
            GamepadCode::_360_X => 0x4000,
            GamepadCode::_360_Y => 0x8000,
            GamepadCode::_360_LT => 0x0009,
            GamepadCode::_360_RT => 0x000a,
            GamepadCode::_360_LS => 0x000b,
            GamepadCode::_360_RS => 0x000c,
            GamepadCode::DpadUp => 266,
            GamepadCode::DpadDown => 267,
            GamepadCode::DpadLeft => 268,
            GamepadCode::DpadRight => 269,
            GamepadCode::Start => 270,
            GamepadCode::Back => 271,
            GamepadCode::LeftThumb => 272,
            GamepadCode::RightThumb => 273,
            GamepadCode::LeftShoulder => 274,
            GamepadCode::RightShoulder => 275,
            GamepadCode::AButton => 276,
            GamepadCode::BButton => 277,
            GamepadCode::XButton => 278,
            GamepadCode::YButton => 279,
            GamepadCode::LeftTrigger => 280,
            GamepadCode::RightTrigger => 281,
        }
    }

    /// Look a value up in this enumeration's table.
    pub fn from_numeric(n: u64) -> (r: Option<GamepadCode>)
        ensures
            r == GamepadCode::spec_from_numeric(n),
    {
        match n {
            0xff => Some(GamepadCode::Unbound),
            0x0001 => Some(GamepadCode::Up),
            0x0002 => Some(GamepadCode::Down),
            0x0004 => Some(GamepadCode::Left),
            0x008 => Some(GamepadCode::Right),
            0x0010 => Some(GamepadCode::_360_Start),
            0x0020 => Some(GamepadCode::_360_Back),
            0x0040 => Some(GamepadCode::_360_L3),
            0x0080 => Some(GamepadCode::_360_R3),
            0x0100 => Some(GamepadCode::_360_LB),
            0x0200 => Some(GamepadCode::_360_RB),
            0x1000 => Some(GamepadCode::_360_A),
            0x2000 => Some(GamepadCode::_360_B),
            0x4000 => Some(GamepadCode::_360_X),
            0x8000 => Some(GamepadCode::_360_Y),
            0x0009 => Some(GamepadCode::_360_LT),
            0x000a => Some(GamepadCode::_360_RT),
            0x000b => Some(GamepadCode::_360_LS),
            0x000c => Some(GamepadCode::_360_RS),
            266 => Some(GamepadCode::DpadUp),
            267 => Some(GamepadCode::DpadDown),
            268 => Some(GamepadCode::DpadLeft),
            269 => Some(GamepadCode::DpadRight),
            270 => Some(GamepadCode::Start),
            271 => Some(GamepadCode::Back),
            272 => Some(GamepadCode::LeftThumb),
            273 => Some(GamepadCode::RightThumb),
            274 => Some(GamepadCode::LeftShoulder),
            275 => Some(GamepadCode::RightShoulder),
            276 => Some(GamepadCode::AButton),
            277 => Some(GamepadCode::BButton),
            278 => Some(GamepadCode::XButton),
            279 => Some(GamepadCode::YButton),
            280 => Some(GamepadCode::LeftTrigger),
            281 => Some(GamepadCode::RightTrigger),
            _ => None,
        }
    }

    /// Resolve a textual code against this table: infer the radix from the
    /// literal prefix, parse the digits, and look the value up. Fails with
    /// `InvalidDigit` carrying the text verbatim exactly when the digits do
    /// not form a 64-bit integer in the inferred radix or the integer has no
    /// corresponding named member.
    pub fn parse(s: &str) -> (r: Result<GamepadCode, ScanCodeError>)
        ensures
            match r {
                Ok(c) => spec_parse_num(s@) matches Some(n) && GamepadCode::spec_from_numeric(n)
                    == Some(c),
                Err(e) => (e matches ScanCodeError::InvalidDigit(t) && t@ == s@) && (match
                    spec_parse_num(s@) {
                    Some(n) => GamepadCode::spec_from_numeric(n) is None,
                    None => true,
                }),
            },
    {
        match parse_numeric_text(s) {
            Some(n) => match GamepadCode::from_numeric(n) {
                Some(c) => Ok(c),
                None => Err(ScanCodeError::InvalidDigit(String::from_str(s))),
            },
            None => Err(ScanCodeError::InvalidDigit(String::from_str(s))),
        }
    }

    /// The canonical text of this code: `0x` and the lowercase hexadecimal
    /// form of its value, whatever radix obtained it.
    pub fn render(&self) -> (r: String)
        ensures
            r@ == spec_render_num(self.spec_to_numeric()),
    {
        let n = self.to_numeric();
        render_numeric(n)
    }
}

impl Default for GamepadCode {
    /// The unbound marker is the default member.
    fn default() -> (r: Self)
        ensures
            r == GamepadCode::Unbound,
    {
        GamepadCode::Unbound
    }
}

/// Keyboard scan codes: the raw key codes below 256, by key name.
#[allow(non_camel_case_types)]
#[derive(Debug, Clone, Copy, PartialEq, Eq, PartialOrd, Ord, Hash, Structural)]
pub enum KeyboardCode {
    Unbound,
    Esc,
    _1,
    _2,
    _3,
    _4,
    _5,
    _6,
    _7,
    _8,
    _9,
    _0,
    Hyphen,
    Equal,
    Backspace,
    Tab,
    Q,
    W,
    E,
    R,
    T,
    Y,
    U,
    I,
    O,
    P,
    Bracketleft,
    Bracketright,
    Enter,
    LCtrl,
    A,
    S,
    D,
    F,
    G,
    H,
    J,
    K,
    L,
    Semicolon,
    Quotesingle,
    Tilde,
    LShift,
    Backslash,
    Z,
    X,
    C,
    V,
    B,
    N,
    M,
    Comma,
    Period,
    Slash,
    RShift,
    NumpadMult,
    LAlt,
    Space,
    CapsLock,
    F1,
    F2,
    F3,
    F4,
    F5,
    F6,
    F7,
    F8,
    F9,
    F10,
    NumLock,
    ScrollLock,
    Numpad7,
    Numpad8,
    Numpad9,
    NumpadMinus,
    Numpad4,
    Numpad5,
    Numpad6,
    NumpadPlus,
    Numpad1,
    Numpad2,
    Numpad3,
    Numpad0,
    NumpadDec,
    DIK_OEM_102,
    F11,
    F12,
    F13,
    F14,
    F15,
    DIK_KANA,
    DIK_ABNT_C1,
    DIK_CONVERT,
    DIK_NOCONVERT,
    Unknown,
    DIK_ABNT_C2,
    NumPadEqual,
    PrevTrack,
    DIK_AT,
    Colon,
    DIK_UNDERLINE,
    DIK_KANJI,
    DIK_STOP,
    DIK_AX,
    DIK_UNLABELED,
    NextTrack,
    NumPadEnter,
    RCtrl,
    Mute,
    Calc,
    PlayPause,
    MediaStop,
    VolMinus,
    VolPlus,
    WebHome,
    NumpadComma,
    NumpadDivide,
    PrintSrc,
    RAlt,
    Pause,
    Home,
    UpArrow,
    PgUp,
    Left,
    Right,
    End,
    DownArrow,
    PgDn,
    Insert,
    Delete,
    LWindows,
    RWindows,
    Apps,
    Power,
    Sleep,
    Wake,
    WebSearch,
    WebFavorites,
    WebRefresh,
    WebStop,
    WebForward,
    WebBack,
    MyComputer,
    Mail,
    MediaSelect,
}

impl KeyboardCode {
    /// The member's fixed assigned value: this table is the specification.
    pub open spec fn spec_to_numeric(self) -> u64 {
        match self {
            KeyboardCode::Unbound => 0xff,
            KeyboardCode::Esc => 0x01,
            KeyboardCode::_1 => 0x02,
            KeyboardCode::_2 => 0x03,
            KeyboardCode::_3 => 0x04,
            KeyboardCode::_4 => 0x05,
            KeyboardCode::_5 => 0x06,
            KeyboardCode::_6 => 0x07,
            KeyboardCode::_7 => 0x08,
            KeyboardCode::_8 => 0x09,
            KeyboardCode::_9 => 0x0a,
            KeyboardCode::_0 => 0x0b,
            KeyboardCode::Hyphen => 0x0c,
            KeyboardCode::Equal => 0x0d,
            KeyboardCode::Backspace => 0x0e,
            KeyboardCode::Tab => 0x0f,
            KeyboardCode::Q => 0x10,
            KeyboardCode::W => 0x11,
            KeyboardCode::E => 0x12,
            KeyboardCode::R => 0x13,
            KeyboardCode::T => 0x14,
            KeyboardCode::Y => 0x15,
            KeyboardCode::U => 0x16,
            KeyboardCode::I => 0x17,
            KeyboardCode::O => 0x18,
            KeyboardCode::P => 0x19,
            KeyboardCode::Bracketleft => 0x1a,
            KeyboardCode::Bracketright => 0x1b,
            KeyboardCode::Enter => 0x1c,
            KeyboardCode::LCtrl => 0x1d,
            KeyboardCode::A => 0x1e,
            KeyboardCode::S => 0x1f,
            KeyboardCode::D => 0x20,
            KeyboardCode::F => 0x21,
            KeyboardCode::G => 0x22,
            KeyboardCode::H => 0x23,
            KeyboardCode::J => 0x24,
            KeyboardCode::K => 0x25,
            KeyboardCode::L => 0x26,
            KeyboardCode::Semicolon => 0x27,
            KeyboardCode::Quotesingle => 0x28,
            KeyboardCode::Tilde => 0x29,
            KeyboardCode::LShift => 0x2a,
            KeyboardCode::Backslash => 0x2b,
            KeyboardCode::Z => 0x2c,
            KeyboardCode::X => 0x2d,
            KeyboardCode::C => 0x2e,
            KeyboardCode::V => 0x2f,
            KeyboardCode::B => 0x30,
            KeyboardCode::N => 0x31,
            KeyboardCode::M => 0x32,
            KeyboardCode::Comma => 0x33,
            KeyboardCode::Period => 0x34,
            KeyboardCode::Slash => 0x35,
            KeyboardCode::RShift => 0x36,
            KeyboardCode::NumpadMult => 0x37,
            KeyboardCode::LAlt => 0x38,
            KeyboardCode::Space => 0x39,
            KeyboardCode::CapsLock => 0x3a,
            KeyboardCode::F1 => 0x3b,
            KeyboardCode::F2 => 0x3c,
            KeyboardCode::F3 => 0x3d,
            KeyboardCode::F4 => 0x3e,
            KeyboardCode::F5 => 0x3f,
            KeyboardCode::F6 => 0x40,
            KeyboardCode::F7 => 0x41,
            KeyboardCode::F8 => 0x42,
            KeyboardCode::F9 => 0x43,
            KeyboardCode::F10 => 0x44,
            KeyboardCode::NumLock => 0x45,
            KeyboardCode::ScrollLock => 0x46,
            KeyboardCode::Numpad7 => 0x47,
            KeyboardCode::Numpad8 => 0x48,
            KeyboardCode::Numpad9 => 0x49,
            KeyboardCode::NumpadMinus => 0x4a,
            KeyboardCode::Numpad4 => 0x4b,
            KeyboardCode::Numpad5 => 0x4c,
            KeyboardCode::Numpad6 => 0x4d,
            KeyboardCode::NumpadPlus => 0x4e,
            KeyboardCode::Numpad1 => 0x4f,
            KeyboardCode::Numpad2 => 0x50,
            KeyboardCode::Numpad3 => 0x51,
            KeyboardCode::Numpad0 => 0x52,
            KeyboardCode::NumpadDec => 0x53,
            KeyboardCode::DIK_OEM_102 => 0x56,
            KeyboardCode::F11 => 0x57,
            KeyboardCode::F12 => 0x58,
            KeyboardCode::F13 => 0x64,
            KeyboardCode::F14 => 0x65,
            KeyboardCode::F15 => 0x66,
            KeyboardCode::DIK_KANA => 0x70,
            KeyboardCode::DIK_ABNT_C1 => 0x73,
            KeyboardCode::DIK_CONVERT => 0x79,
            KeyboardCode::DIK_NOCONVERT => 0x7b,
            KeyboardCode::Unknown => 0x7d,
            KeyboardCode::DIK_ABNT_C2 => 0x7e,
            KeyboardCode::NumPadEqual => 0x8d,
            KeyboardCode::PrevTrack => 0x90,
            KeyboardCode::DIK_AT => 0x91,
            KeyboardCode::Colon => 0x92,
            KeyboardCode::DIK_UNDERLINE => 0x93,
            KeyboardCode::DIK_KANJI => 0x94,
            KeyboardCode::DIK_STOP => 0x95,
            KeyboardCode::DIK_AX => 0x96,
            KeyboardCode::DIK_UNLABELED => 0x97,
            KeyboardCode::NextTrack => 0x99,
            KeyboardCode::NumPadEnter => 0x9c,
            KeyboardCode::RCtrl => 0x9d,
            KeyboardCode::Mute => 0xa0,
            KeyboardCode::Calc => 0xa1,
            KeyboardCode::PlayPause => 0xa2,
            KeyboardCode::MediaStop => 0xa4,
            KeyboardCode::VolMinus => 0xae,
            KeyboardCode::VolPlus => 0xb0,
            KeyboardCode::WebHome => 0xb2,
            KeyboardCode::NumpadComma => 0xb3,
            KeyboardCode::NumpadDivide => 0xb5,
            KeyboardCode::PrintSrc => 0xb7,
            KeyboardCode::RAlt => 0xb8,
            KeyboardCode::Pause => 0xc5,
            KeyboardCode::Home => 0xc7,
            KeyboardCode::UpArrow => 0xc8,
            KeyboardCode::PgUp => 0xc9,
            KeyboardCode::Left => 0xcb,
            KeyboardCode::Right => 0xcd,
            KeyboardCode::End => 0xcf,
            KeyboardCode::DownArrow => 0xd0,
            KeyboardCode::PgDn => 0xd1,
            KeyboardCode::Insert => 0xd2,
            KeyboardCode::Delete => 0xd3,
            KeyboardCode::LWindows => 0xdb,
            KeyboardCode::RWindows => 0xdc,
            KeyboardCode::Apps => 0xdd,
            KeyboardCode::Power => 0xde,
            KeyboardCode::Sleep => 0xdf,
            KeyboardCode::Wake => 0xe3,
            KeyboardCode::WebSearch => 0xe5,
            KeyboardCode::WebFavorites => 0xe6,
            KeyboardCode::WebRefresh => 0xe7,
            KeyboardCode::WebStop => 0xe8,
            KeyboardCode::WebForward => 0xe9,
            KeyboardCode::WebBack => 0xea,
            KeyboardCode::MyComputer => 0xeb,
            KeyboardCode::Mail => 0xec,
            KeyboardCode::MediaSelect => 0xed,
        }
    }

    /// The member whose fixed value is `n`, if any.
    pub open spec fn spec_from_numeric(n: u64) -> Option<KeyboardCode> {
        if n == 0xff {
            Some(KeyboardCode::Unbound)
        } else
 if n == 0x01 {
            Some(KeyboardCode::Esc)
        } else
 if n == 0x02 {
            Some(KeyboardCode::_1)
        } else
 if n == 0x03 {
            Some(KeyboardCode::_2)
        } else
 if n == 0x04 {
            Some(KeyboardCode::_3)
        } else
 if n == 0x05 {
            Some(KeyboardCode::_4)
        } else
 if n == 0x06 {
            Some(KeyboardCode::_5)
        } else
 if n == 0x07 {
            Some(KeyboardCode::_6)
        } else
 if n == 0x08 {
            Some(KeyboardCode::_7)
        } else
 if n == 0x09 {
            Some(KeyboardCode::_8)
        } else
 if n == 0x0a {
            Some(KeyboardCode::_9)
        } else
 if n == 0x0b {
            Some(KeyboardCode::_0)
        } else
 if n == 0x0c {
            Some(KeyboardCode::Hyphen)
        } else
 if n == 0x0d {
            Some(KeyboardCode::Equal)
        } else
 if n == 0x0e {
            Some(KeyboardCode::Backspace)
        } else
 if n == 0x0f {
            Some(KeyboardCode::Tab)
        } else
 if n == 0x10 {
            Some(KeyboardCode::Q)
        } else
 if n == 0x11 {
            Some(KeyboardCode::W)
        } else
 if n == 0x12 {
            Some(KeyboardCode::E)
        } else
 if n == 0x13 {
            Some(KeyboardCode::R)
        } else
 if n == 0x14 {
            Some(KeyboardCode::T)
        } else
 if n == 0x15 {
            Some(KeyboardCode::Y)
        } else
 if n == 0x16 {
            Some(KeyboardCode::U)
        } else
 if n == 0x17 {
            Some(KeyboardCode::I)
        } else
 if n == 0x18 {
            Some(KeyboardCode::O)
        } else
 if n == 0x19 {
            Some(KeyboardCode::P)
        } else
 if n == 0x1a {
            Some(KeyboardCode::Bracketleft)
        } else
 if n == 0x1b {
            Some(KeyboardCode::Bracketright)
        } else
 if n == 0x1c {
            Some(KeyboardCode::Enter)
        } else
 if n == 0x1d {
            Some(KeyboardCode::LCtrl)
        } else
 if n == 0x1e {
            Some(KeyboardCode::A)
        } else
 if n == 0x1f {
            Some(KeyboardCode::S)
        } else
 if n == 0x20 {
            Some(KeyboardCode::D)
        } else
 if n == 0x21 {
            Some(KeyboardCode::F)
        } else
 if n == 0x22 {
            Some(KeyboardCode::G)
        } else
 if n == 0x23 {
            Some(KeyboardCode::H)
        } else
 if n == 0x24 {
            Some(KeyboardCode::J)
        } else
 if n == 0x25 {
            Some(KeyboardCode::K)
        } else
 if n == 0x26 {
            Some(KeyboardCode::L)
        } else
 if n == 0x27 {
            Some(KeyboardCode::Semicolon)
        } else
 if n == 0x28 {
            Some(KeyboardCode::Quotesingle)
        } else
 if n == 0x29 {
            Some(KeyboardCode::Tilde)
        } else
 if n == 0x2a {
            Some(KeyboardCode::LShift)
        } else
 if n == 0x2b {
            Some(KeyboardCode::Backslash)
        } else
 if n == 0x2c {
            Some(KeyboardCode::Z)
        } else
 if n == 0x2d {
            Some(KeyboardCode::X)
        } else
 if n == 0x2e {
            Some(KeyboardCode::C)
        } else
 if n == 0x2f {
            Some(KeyboardCode::V)
        } else
 if n == 0x30 {
            Some(KeyboardCode::B)
        } else
 if n == 0x31 {
            Some(KeyboardCode::N)
        } else
 if n == 0x32 {
            Some(KeyboardCode::M)
        } else
 if n == 0x33 {
            Some(KeyboardCode::Comma)
        } else
 if n == 0x34 {
            Some(KeyboardCode::Period)
        } else
 if n == 0x35 {
            Some(KeyboardCode::Slash)
        } else
 if n == 0x36 {
            Some(KeyboardCode::RShift)
        } else
 if n == 0x37 {
            Some(KeyboardCode::NumpadMult)
        } else
 if n == 0x38 {
            Some(KeyboardCode::LAlt)
        } else
 if n == 0x39 {
            Some(KeyboardCode::Space)
        } else
 if n == 0x3a {
            Some(KeyboardCode::CapsLock)
        } else
 if n == 0x3b {
            Some(KeyboardCode::F1)
        } else
 if n == 0x3c {
            Some(KeyboardCode::F2)
        } else
 if n == 0x3d {
            Some(KeyboardCode::F3)
        } else
 if n == 0x3e {
            Some(KeyboardCode::F4)
        } else
 if n == 0x3f {
            Some(KeyboardCode::F5)
        } else
 if n == 0x40 {
            Some(KeyboardCode::F6)
        } else
 if n == 0x41 {
            Some(KeyboardCode::F7)
        } else
 if n == 0x42 {
            Some(KeyboardCode::F8)
        } else
 if n == 0x43 {
            Some(KeyboardCode::F9)
        } else
 if n == 0x44 {
            Some(KeyboardCode::F10)
        } else
 if n == 0x45 {
            Some(KeyboardCode::NumLock)
        } else
 if n == 0x46 {
            Some(KeyboardCode::ScrollLock)
        } else
 if n == 0x47 {
            Some(KeyboardCode::Numpad7)
        } else
 if n == 0x48 {
            Some(KeyboardCode::Numpad8)
        } else
 if n == 0x49 {
            Some(KeyboardCode::Numpad9)
        } else
 if n == 0x4a {
            Some(KeyboardCode::NumpadMinus)
        } else
 if n == 0x4b {
            Some(KeyboardCode::Numpad4)
        } else
 if n == 0x4c {
            Some(KeyboardCode::Numpad5)
        } else
 if n == 0x4d {
            Some(KeyboardCode::Numpad6)
        } else
 if n == 0x4e {
            Some(KeyboardCode::NumpadPlus)
        } else
 if n == 0x4f {
            Some(KeyboardCode::Numpad1)
        } else
 if n == 0x50 {
            Some(KeyboardCode::Numpad2)
        } else
 if n == 0x51 {
            Some(KeyboardCode::Numpad3)
        } else
 if n == 0x52 {
            Some(KeyboardCode::Numpad0)
        } else
 if n == 0x53 {
            Some(KeyboardCode::NumpadDec)
        } else
 if n == 0x56 {
            Some(KeyboardCode::DIK_OEM_102)
        } else
 if n == 0x57 {
            Some(KeyboardCode::F11)
        } else
 if n == 0x58 {
            Some(KeyboardCode::F12)
        } else
 if n == 0x64 {
            Some(KeyboardCode::F13)
        } else
 if n == 0x65 {
            Some(KeyboardCode::F14)
        } else
 if n == 0x66 {
            Some(KeyboardCode::F15)
        } else
 if n == 0x70 {
            Some(KeyboardCode::DIK_KANA)
        } else
 if n == 0x73 {
            Some(KeyboardCode::DIK_ABNT_C1)
        } else
 if n == 0x79 {
            Some(KeyboardCode::DIK_CONVERT)
        } else
 if n == 0x7b {
            Some(KeyboardCode::DIK_NOCONVERT)
        } else
 if n == 0x7d {
            Some(KeyboardCode::Unknown)
        } else
 if n == 0x7e {
            Some(KeyboardCode::DIK_ABNT_C2)
        } else
 if n == 0x8d {
            Some(KeyboardCode::NumPadEqual)
        } else
 if n == 0x90 {
            Some(KeyboardCode::PrevTrack)
        } else
 if n == 0x91 {
            Some(KeyboardCode::DIK_AT)
        } else
 if n == 0x92 {
            Some(KeyboardCode::Colon)
        } else
 if n == 0x93 {
            Some(KeyboardCode::DIK_UNDERLINE)
        } else
 if n == 0x94 {
            Some(KeyboardCode::DIK_KANJI)
        } else
 if n == 0x95 {
            Some(KeyboardCode::DIK_STOP)
        } else
 if n == 0x96 {
            Some(KeyboardCode::DIK_AX)
        } else
 if n == 0x97 {
            Some(KeyboardCode::DIK_UNLABELED)
        } else
 if n == 0x99 {
            Some(KeyboardCode::NextTrack)
        } else
 if n == 0x9c {
            Some(KeyboardCode::NumPadEnter)
        } else
 if n == 0x9d {
            Some(KeyboardCode::RCtrl)
        } else
 if n == 0xa0 {
            Some(KeyboardCode::Mute)
        } else
 if n == 0xa1 {
            Some(KeyboardCode::Calc)
        } else
 if n == 0xa2 {
            Some(KeyboardCode::PlayPause)
        } else
 if n == 0xa4 {
            Some(KeyboardCode::MediaStop)
        } else
 if n == 0xae {
            Some(KeyboardCode::VolMinus)
        } else
 if n == 0xb0 {
            Some(KeyboardCode::VolPlus)
        } else
 if n == 0xb2 {
            Some(KeyboardCode::WebHome)
        } else
 if n == 0xb3 {
            Some(KeyboardCode::NumpadComma)
        } else
 if n == 0xb5 {
            Some(KeyboardCode::NumpadDivide)
        } else
 if n == 0xb7 {
            Some(KeyboardCode::PrintSrc)
        } else
 if n == 0xb8 {
            Some(KeyboardCode::RAlt)
        } else
 if n == 0xc5 {
            Some(KeyboardCode::Pause)
        } else
 if n == 0xc7 {
            Some(KeyboardCode::Home)
        } else
 if n == 0xc8 {
            Some(KeyboardCode::UpArrow)
        } else
 if n == 0xc9 {
            Some(KeyboardCode::PgUp)
        } else
 if n == 0xcb {
            Some(KeyboardCode::Left)
        } else
 if n == 0xcd {
            Some(KeyboardCode::Right)
        } else
 if n == 0xcf {
            Some(KeyboardCode::End)
        } else
 if n == 0xd0 {
            Some(KeyboardCode::DownArrow)
        } else
 if n == 0xd1 {
            Some(KeyboardCode::PgDn)
        } else
 if n == 0xd2 {
            Some(KeyboardCode::Insert)
        } else
 if n == 0xd3 {
            Some(KeyboardCode::Delete)
        } else
 if n == 0xdb {
            Some(KeyboardCode::LWindows)
        } else
 if n == 0xdc {
            Some(KeyboardCode::RWindows)
        } else
 if n == 0xdd {
            Some(KeyboardCode::Apps)
        } else
 if n == 0xde {
            Some(KeyboardCode::Power)
        } else
 if n == 0xdf {
            Some(KeyboardCode::Sleep)
        } else
 if n == 0xe3 {
            Some(KeyboardCode::Wake)
        } else
 if n == 0xe5 {
            Some(KeyboardCode::WebSearch)
        } else
 if n == 0xe6 {
            Some(KeyboardCode::WebFavorites)
        } else
 if n == 0xe7 {
            Some(KeyboardCode::WebRefresh)
        } else
 if n == 0xe8 {
            Some(KeyboardCode::WebStop)
        } else
 if n == 0xe9 {
            Some(KeyboardCode::WebForward)
        } else
 if n == 0xea {
            Some(KeyboardCode::WebBack)
        } else
 if n == 0xeb {
            Some(KeyboardCode::MyComputer)
        } else
 if n == 0xec {
            Some(KeyboardCode::Mail)
        } else
 if n == 0xed {
            Some(KeyboardCode::MediaSelect)
        } else {
            None
        }
    }

    /// The code's fixed assigned value.
    pub fn to_numeric(&self) -> (n: u64)
        ensures
            n == self.spec_to_numeric(),
    {
        match self {
            KeyboardCode::Unbound => 0xff,
            KeyboardCode::Esc => 0x01,
            KeyboardCode::_1 => 0x02,
            KeyboardCode::_2 => 0x03,
            KeyboardCode::_3 => 0x04,
            KeyboardCode::_4 => 0x05,
            KeyboardCode::_5 => 0x06,
            KeyboardCode::_6 => 0x07,
            KeyboardCode::_7 => 0x08,
            KeyboardCode::_8 => 0x09,
            KeyboardCode::_9 => 0x0a,
            KeyboardCode::_0 => 0x0b,
            KeyboardCode::Hyphen => 0x0c,
            KeyboardCode::Equal => 0x0d,
            KeyboardCode::Backspace => 0x0e,
            KeyboardCode::Tab => 0x0f,
            KeyboardCode::Q => 0x10,
            KeyboardCode::W => 0x11,
            KeyboardCode::E => 0x12,
            KeyboardCode::R => 0x13,
            KeyboardCode::T => 0x14,
            KeyboardCode::Y => 0x15,
            KeyboardCode::U => 0x16,
            KeyboardCode::I => 0x17,
            KeyboardCode::O => 0x18,
            KeyboardCode::P => 0x19,
            KeyboardCode::Bracketleft => 0x1a,
            KeyboardCode::Bracketright => 0x1b,
            KeyboardCode::Enter => 0x1c,
            KeyboardCode::LCtrl => 0x1d,
            KeyboardCode::A => 0x1e,
            KeyboardCode::S => 0x1f,
            KeyboardCode::D => 0x20,
            KeyboardCode::F => 0x21,
            KeyboardCode::G => 0x22,
            KeyboardCode::H => 0x23,
            KeyboardCode::J => 0x24,
            KeyboardCode::K => 0x25,
            KeyboardCode::L => 0x26,
            KeyboardCode::Semicolon => 0x27,
            KeyboardCode::Quotesingle => 0x28,
            KeyboardCode::Tilde => 0x29,
            KeyboardCode::LShift => 0x2a,
            KeyboardCode::Backslash => 0x2b,
            KeyboardCode::Z => 0x2c,
            KeyboardCode::X => 0x2d,
            KeyboardCode::C => 0x2e,
            KeyboardCode::V => 0x2f,
            KeyboardCode::B => 0x30,
            KeyboardCode::N => 0x31,
            KeyboardCode::M => 0x32,
            KeyboardCode::Comma => 0x33,
            KeyboardCode::Period => 0x34,
            KeyboardCode::Slash => 0x35,
            KeyboardCode::RShift => 0x36,
            KeyboardCode::NumpadMult => 0x37,
            KeyboardCode::LAlt => 0x38,
            KeyboardCode::Space => 0x39,
            KeyboardCode::CapsLock => 0x3a,
            KeyboardCode::F1 => 0x3b,
            KeyboardCode::F2 => 0x3c,
            KeyboardCode::F3 => 0x3d,
            KeyboardCode::F4 => 0x3e,
            KeyboardCode::F5 => 0x3f,
            KeyboardCode::F6 => 0x40,
            KeyboardCode::F7 => 0x41,
            KeyboardCode::F8 => 0x42,
            KeyboardCode::F9 => 0x43,
            KeyboardCode::F10 => 0x44,
            KeyboardCode::NumLock => 0x45,
            KeyboardCode::ScrollLock => 0x46,
            KeyboardCode::Numpad7 => 0x47,
            KeyboardCode::Numpad8 => 0x48,
            KeyboardCode::Numpad9 => 0x49,
            KeyboardCode::NumpadMinus => 0x4a,
            KeyboardCode::Numpad4 => 0x4b,
            KeyboardCode::Numpad5 => 0x4c,
            KeyboardCode::Numpad6 => 0x4d,
            KeyboardCode::NumpadPlus => 0x4e,
            KeyboardCode::Numpad1 => 0x4f,
            KeyboardCode::Numpad2 => 0x50,
            KeyboardCode::Numpad3 => 0x51,
            KeyboardCode::Numpad0 => 0x52,
            KeyboardCode::NumpadDec => 0x53,
            KeyboardCode::DIK_OEM_102 => 0x56,
            KeyboardCode::F11 => 0x57,
            KeyboardCode::F12 => 0x58,
            KeyboardCode::F13 => 0x64,
            KeyboardCode::F14 => 0x65,
            KeyboardCode::F15 => 0x66,
            KeyboardCode::DIK_KANA => 0x70,
            KeyboardCode::DIK_ABNT_C1 => 0x73,
            KeyboardCode::DIK_CONVERT => 0x79,
            KeyboardCode::DIK_NOCONVERT => 0x7b,
            KeyboardCode::Unknown => 0x7d,
            KeyboardCode::DIK_ABNT_C2 => 0x7e,
            KeyboardCode::NumPadEqual => 0x8d,
            KeyboardCode::PrevTrack => 0x90,
            KeyboardCode::DIK_AT => 0x91,
            KeyboardCode::Colon => 0x92,
            KeyboardCode::DIK_UNDERLINE => 0x93,
            KeyboardCode::DIK_KANJI => 0x94,
            KeyboardCode::DIK_STOP => 0x95,
            KeyboardCode::DIK_AX => 0x96,
            KeyboardCode::DIK_UNLABELED => 0x97,
            KeyboardCode::NextTrack => 0x99,
            KeyboardCode::NumPadEnter => 0x9c,
            KeyboardCode::RCtrl => 0x9d,
            KeyboardCode::Mute => 0xa0,
            KeyboardCode::Calc => 0xa1,
            KeyboardCode::PlayPause => 0xa2,
            KeyboardCode::MediaStop => 0xa4,
            KeyboardCode::VolMinus => 0xae,
            KeyboardCode::VolPlus => 0xb0,
            KeyboardCode::WebHome => 0xb2,
            KeyboardCode::NumpadComma => 0xb3,
            KeyboardCode::NumpadDivide => 0xb5,
            KeyboardCode::PrintSrc => 0xb7,
            KeyboardCode::RAlt => 0xb8,
            KeyboardCode::Pause => 0xc5,
            KeyboardCode::Home => 0xc7,
            KeyboardCode::UpArrow => 0xc8,
            KeyboardCode::PgUp => 0xc9,
            KeyboardCode::Left => 0xcb,
            KeyboardCode::Right => 0xcd,
            KeyboardCode::End => 0xcf,
            KeyboardCode::DownArrow => 0xd0,
            KeyboardCode::PgDn => 0xd1,
            KeyboardCode::Insert => 0xd2,
            KeyboardCode::Delete => 0xd3,
            KeyboardCode::LWindows => 0xdb,
            KeyboardCode::RWindows => 0xdc,
            KeyboardCode::Apps => 0xdd,
            KeyboardCode::Power => 0xde,
            KeyboardCode::Sleep => 0xdf,
            KeyboardCode::Wake => 0xe3,
            KeyboardCode::WebSearch => 0xe5,
            KeyboardCode::WebFavorites => 0xe6,
            KeyboardCode::WebRefresh => 0xe7,
            KeyboardCode::WebStop => 0xe8,
            KeyboardCode::WebForward => 0xe9,
            KeyboardCode::WebBack => 0xea,
            KeyboardCode::MyComputer => 0xeb,
            KeyboardCode::Mail => 0xec,
            KeyboardCode::MediaSelect => 0xed,
        }
    }

    /// Look a value up in this enumeration's table.
    #[verifier::rlimit(100)]
    pub fn from_numeric(n: u64) -> (r: Option<KeyboardCode>)
        ensures
            r == KeyboardCode::spec_from_numeric(n),
    {
        match n {
            0xff => Some(KeyboardCode::Unbound),
            0x01 => Some(KeyboardCode::Esc),
            0x02 => Some(KeyboardCode::_1),
            0x03 => Some(KeyboardCode::_2),
            0x04 => Some(KeyboardCode::_3),
            0x05 => Some(KeyboardCode::_4),
            0x06 => Some(KeyboardCode::_5),
            0x07 => Some(KeyboardCode::_6),
            0x08 => Some(KeyboardCode::_7),
            0x09 => Some(KeyboardCode::_8),
            0x0a => Some(KeyboardCode::_9),
            0x0b => Some(KeyboardCode::_0),
            0x0c => Some(KeyboardCode::Hyphen),
            0x0d => Some(KeyboardCode::Equal),
            0x0e => Some(KeyboardCode::Backspace),
            0x0f => Some(KeyboardCode::Tab),
            0x10 => Some(KeyboardCode::Q),
            0x11 => Some(KeyboardCode::W),
            0x12 => Some(KeyboardCode::E),
            0x13 => Some(KeyboardCode::R),
            0x14 => Some(KeyboardCode::T),
            0x15 => Some(KeyboardCode::Y),
            0x16 => Some(KeyboardCode::U),
            0x17 => Some(KeyboardCode::I),
            0x18 => Some(KeyboardCode::O),
            0x19 => Some(KeyboardCode::P),
            0x1a => Some(KeyboardCode::Bracketleft),
            0x1b => Some(KeyboardCode::Bracketright),
            0x1c => Some(KeyboardCode::Enter),
            0x1d => Some(KeyboardCode::LCtrl),
            0x1e => Some(KeyboardCode::A),
            0x1f => Some(KeyboardCode::S),
            0x20 => Some(KeyboardCode::D),
            0x21 => Some(KeyboardCode::F),
            0x22 => Some(KeyboardCode::G),
            0x23 => Some(KeyboardCode::H),
            0x24 => Some(KeyboardCode::J),
            0x25 => Some(KeyboardCode::K),
            0x26 => Some(KeyboardCode::L),
            0x27 => Some(KeyboardCode::Semicolon),
            0x28 => Some(KeyboardCode::Quotesingle),
            0x29 => Some(KeyboardCode::Tilde),
            0x2a => Some(KeyboardCode::LShift),
            0x2b => Some(KeyboardCode::Backslash),
            0x2c => Some(KeyboardCode::Z),
            0x2d => Some(KeyboardCode::X),
            0x2e => Some(KeyboardCode::C),
            0x2f => Some(KeyboardCode::V),
            0x30 => Some(KeyboardCode::B),
            0x31 => Some(KeyboardCode::N),
            0x32 => Some(KeyboardCode::M),
            0x33 => Some(KeyboardCode::Comma),
            0x34 => Some(KeyboardCode::Period),
            0x35 => Some(KeyboardCode::Slash),
            0x36 => Some(KeyboardCode::RShift),
            0x37 => Some(KeyboardCode::NumpadMult),
            0x38 => Some(KeyboardCode::LAlt),
            0x39 => Some(KeyboardCode::Space),
            0x3a => Some(KeyboardCode::CapsLock),
            0x3b => Some(KeyboardCode::F1),
            0x3c => Some(KeyboardCode::F2),
            0x3d => Some(KeyboardCode::F3),
            0x3e => Some(KeyboardCode::F4),
            0x3f => Some(KeyboardCode::F5),
            0x40 => Some(KeyboardCode::F6),
            0x41 => Some(KeyboardCode::F7),
            0x42 => Some(KeyboardCode::F8),
            0x43 => Some(KeyboardCode::F9),
            0x44 => Some(KeyboardCode::F10),
            0x45 => Some(KeyboardCode::NumLock),
            0x46 => Some(KeyboardCode::ScrollLock),
            0x47 => Some(KeyboardCode::Numpad7),
            0x48 => Some(KeyboardCode::Numpad8),
            0x49 => Some(KeyboardCode::Numpad9),
            0x4a => Some(KeyboardCode::NumpadMinus),
            0x4b => Some(KeyboardCode::Numpad4),
            0x4c => Some(KeyboardCode::Numpad5),
            0x4d => Some(KeyboardCode::Numpad6),
            0x4e => Some(KeyboardCode::NumpadPlus),
            0x4f => Some(KeyboardCode::Numpad1),
            0x50 => Some(KeyboardCode::Numpad2),
            0x51 => Some(KeyboardCode::Numpad3),
            0x52 => Some(KeyboardCode::Numpad0),
            0x53 => Some(KeyboardCode::NumpadDec),
            0x56 => Some(KeyboardCode::DIK_OEM_102),
            0x57 => Some(KeyboardCode::F11),
            0x58 => Some(KeyboardCode::F12),
            0x64 => Some(KeyboardCode::F13),
            0x65 => Some(KeyboardCode::F14),
            0x66 => Some(KeyboardCode::F15),
            0x70 => Some(KeyboardCode::DIK_KANA),
            0x73 => Some(KeyboardCode::DIK_ABNT_C1),
            0x79 => Some(KeyboardCode::DIK_CONVERT),
            0x7b => Some(KeyboardCode::DIK_NOCONVERT),
            0x7d => Some(KeyboardCode::Unknown),
            0x7e => Some(KeyboardCode::DIK_ABNT_C2),
            0x8d => Some(KeyboardCode::NumPadEqual),
            0x90 => Some(KeyboardCode::PrevTrack),
            0x91 => Some(KeyboardCode::DIK_AT),
            0x92 => Some(KeyboardCode::Colon),
            0x93 => Some(KeyboardCode::DIK_UNDERLINE),
            0x94 => Some(KeyboardCode::DIK_KANJI),
            0x95 => Some(KeyboardCode::DIK_STOP),
            0x96 => Some(KeyboardCode::DIK_AX),
            0x97 => Some(KeyboardCode::DIK_UNLABELED),
            0x99 => Some(KeyboardCode::NextTrack),
            0x9c => Some(KeyboardCode::NumPadEnter),
            0x9d => Some(KeyboardCode::RCtrl),
            0xa0 => Some(KeyboardCode::Mute),
            0xa1 => Some(KeyboardCode::Calc),
            0xa2 => Some(KeyboardCode::PlayPause),
            0xa4 => Some(KeyboardCode::MediaStop),
            0xae => Some(KeyboardCode::VolMinus),
            0xb0 => Some(KeyboardCode::VolPlus),
            0xb2 => Some(KeyboardCode::WebHome),
            0xb3 => Some(KeyboardCode::NumpadComma),
            0xb5 => Some(KeyboardCode::NumpadDivide),
            0xb7 => Some(KeyboardCode::PrintSrc),
            0xb8 => Some(KeyboardCode::RAlt),
            0xc5 => Some(KeyboardCode::Pause),
            0xc7 => Some(KeyboardCode::Home),
            0xc8 => Some(KeyboardCode::UpArrow),
            0xc9 => Some(KeyboardCode::PgUp),
            0xcb => Some(KeyboardCode::Left),
            0xcd => Some(KeyboardCode::Right),
            0xcf => Some(KeyboardCode::End),
            0xd0 => Some(KeyboardCode::DownArrow),
            0xd1 => Some(KeyboardCode::PgDn),
            0xd2 => Some(KeyboardCode::Insert),
            0xd3 => Some(KeyboardCode::Delete),
            0xdb => Some(KeyboardCode::LWindows),
            0xdc => Some(KeyboardCode::RWindows),
            0xdd => Some(KeyboardCode::Apps),
            0xde => Some(KeyboardCode::Power),
            0xdf => Some(KeyboardCode::Sleep),
            0xe3 => Some(KeyboardCode::Wake),
            0xe5 => Some(KeyboardCode::WebSearch),
            0xe6 => Some(KeyboardCode::WebFavorites),
            0xe7 => Some(KeyboardCode::WebRefresh),
            0xe8 => Some(KeyboardCode::WebStop),
            0xe9 => Some(KeyboardCode::WebForward),
            0xea => Some(KeyboardCode::WebBack),
            0xeb => Some(KeyboardCode::MyComputer),
            0xec => Some(KeyboardCode::Mail),
            0xed => Some(KeyboardCode::MediaSelect),
            _ => None,
        }
    }

    /// Resolve a textual code against this table: infer the radix from the
    /// literal prefix, parse the digits, and look the value up. Fails with
    /// `InvalidDigit` carrying the text verbatim exactly when the digits do
    /// not form a 64-bit integer in the inferred radix or the integer has no
    /// corresponding named member.
    pub fn parse(s: &str) -> (r: Result<KeyboardCode, ScanCodeError>)
        ensures
            match r {
                Ok(c) => spec_parse_num(s@) matches Some(n) && KeyboardCode::spec_from_numeric(n)
                    == Some(c),
                Err(e) => (e matches ScanCodeError::InvalidDigit(t) && t@ == s@) && (match
                    spec_parse_num(s@) {
                    Some(n) => KeyboardCode::spec_from_numeric(n) is None,
                    None => true,
                }),
            },
    {
        match parse_numeric_text(s) {
            Some(n) => match KeyboardCode::from_numeric(n) {
                Some(c) => Ok(c),
                None => Err(ScanCodeError::InvalidDigit(String::from_str(s))),
            },
            None => Err(ScanCodeError::InvalidDigit(String::from_str(s))),
        }
    }

    /// The canonical text of this code: `0x` and the lowercase hexadecimal
    /// form of its value, whatever radix obtained it.
    pub fn render(&self) -> (r: String)
        ensures
            r@ == spec_render_num(self.spec_to_numeric()),
    {
        let n = self.to_numeric();
        render_numeric(n)
    }
}

impl Default for KeyboardCode {
    /// The unbound marker is the default member.
    fn default() -> (r: Self)
        ensures
            r == KeyboardCode::Unbound,
    {
        KeyboardCode::Unbound
    }
}

} // verus!
