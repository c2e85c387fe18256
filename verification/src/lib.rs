//! Parser, formatter and scan-code registry for `controlmap.txt`, the
//! tab-delimited input-remapping table format of a game's input bindings.
//!
//! The grammar is written down once, as specification functions over
//! character sequences ([`grammar`]); the executable parser ([`parser`]) and
//! formatter ([`render`]) are proved to implement it exactly. [`controlmap`]
//! owns the parsed line sequence, [`codec`] encodes it to and from a generic
//! structured value, [`roundtrip`] holds the round-trip laws, and
//! [`scan_code`] resolves hexadecimal identifiers against the three device
//! enumerations.

pub mod ast;
pub mod chars;
pub mod codec;
pub mod controlmap;
pub mod grammar;
pub mod parser;
pub mod render;
pub mod roundtrip;
pub mod scan_code;

pub use controlmap::{ControlMap, ControlMapError};
