//! The control-map grammar, written down once, as specification functions.
//!
//! Each `sp_*` function is one production of the grammar: it takes the
//! remaining input and yields the parsed value together with the number of
//! characters consumed (`None` where the production does not match). The
//! `rnd_*` functions are the canonical renderer, the inverse leg of the round
//! trip. The executable parser and formatter are proved to implement these
//! functions exactly, so this module is the single place where the textual
//! format is defined.
//!
//! Productions are tried in a fixed order. A line is a blank line (one or
//! more whitespace characters), a comment (`//` up to the line terminator),
//! or an event line. A key identifier is an alias (`!0,` followed by a
//! non-tab token), an or-group (two or more comma-separated operands, each an
//! and-group or a hex literal), an and-group (two or more `+`-separated hex
//! literals), or a bare hex literal.

use crate::ast::{EventLineV, KeyIdV, LineV};
use crate::chars::{count_while, in_cls, Cls};
use vstd::prelude::*;

verus! {

/// A hexadecimal literal: optional leading spaces/tabs (not kept), then `0x`
/// and one or more hex digits (kept verbatim).
pub open spec fn sp_hex(s: Seq<char>) -> Option<(Seq<char>, nat)> {
    let sp = count_while(Cls::SpaceTab, s);
    let r = s.skip(sp as int);
    if r.len() >= 2 && r[0] == '0' && r[1] == 'x' {
        let d = count_while(Cls::HexDigit, r.skip(2));
        if d > 0 {
            Some((r.subrange(0, 2 + d as int), (sp + 2 + d) as nat))
        } else {
            None
        }
    } else {
        None
    }
}

/// An event name or alias target: one or more non-tab characters.
pub open spec fn sp_name(s: Seq<char>) -> Option<(Seq<char>, nat)> {
    let d = count_while(Cls::NonTab, s);
    if d > 0 {
        Some((s.subrange(0, d as int), d))
    } else {
        None
    }
}

/// A remap flag: a single `0` or `1`.
pub open spec fn sp_flag(s: Seq<char>) -> Option<(bool, nat)> {
    if s.len() > 0 && (s[0] == '0' || s[0] == '1') {
        Some((s[0] == '1', 1))
    } else {
        None
    }
}

/// The event-line field separator: one or more tabs.
pub open spec fn sp_tabs1(s: Seq<char>) -> Option<nat> {
    let d = count_while(Cls::Tab, s);
    if d > 0 {
        Some(d)
    } else {
        None
    }
}

/// An alias: the literal prefix `!0,` followed by an event-name token.
pub open spec fn sp_key_alias(s: Seq<char>) -> Option<(KeyIdV, nat)> {
    if s.len() >= 3 && s[0] == '!' && s[1] == '0' && s[2] == ',' {
        match sp_name(s.skip(3)) {
            Some((a, n)) => Some((KeyIdV::Alias(a), (3 + n) as nat)),
            None => None,
        }
    } else {
        None
    }
}

/// A single hex literal as a key identifier.
pub open spec fn sp_key_one(s: Seq<char>) -> Option<(KeyIdV, nat)> {
    match sp_hex(s) {
        Some((h, n)) => Some((KeyIdV::One(h), n)),
        None => None,
    }
}

/// Zero or more repetitions of `+ <hex>`, greedily.
pub open spec fn sp_and_rest(s: Seq<char>) -> (Seq<KeyIdV>, nat)
    decreases s.len(),
{
    if s.len() > 0 && s[0] == '+' {
        match sp_hex(s.skip(1)) {
            Some((h, n)) => {
                if 1 + n <= s.len() {
                    let (ks, m) = sp_and_rest(s.skip(1 + n as int));
                    (seq![KeyIdV::One(h)] + ks, (1 + n + m) as nat)
                } else {
                    (seq![KeyIdV::One(h)], (1 + n) as nat)
                }
            },
            None => (Seq::empty(), 0),
        }
    } else {
        (Seq::empty(), 0)
    }
}

/// An and-group: two or more `+`-separated hex literals.
pub open spec fn sp_key_and(s: Seq<char>) -> Option<(KeyIdV, nat)> {
    match sp_hex(s) {
        Some((h, n)) => {
            if n <= s.len() {
                let (ks, m) = sp_and_rest(s.skip(n as int));
                if ks.len() >= 1 {
                    Some((KeyIdV::And(seq![KeyIdV::One(h)] + ks), (n + m) as nat))
                } else {
                    None
                }
            } else {
                None
            }
        },
        None => None,
    }
}

/// An or-group operand: an and-group, else a single hex literal.
pub open spec fn sp_or_operand(s: Seq<char>) -> Option<(KeyIdV, nat)> {
    match sp_key_and(s) {
        Some(r) => Some(r),
        None => sp_key_one(s),
    }
}

/// Zero or more repetitions of `, <operand>`, greedily.
pub open spec fn sp_or_rest(s: Seq<char>) -> (Seq<KeyIdV>, nat)
    decreases s.len(),
{
    if s.len() > 0 && s[0] == ',' {
        match sp_or_operand(s.skip(1)) {
            Some((k, n)) => {
                if 1 + n <= s.len() {
                    let (ks, m) = sp_or_rest(s.skip(1 + n as int));
                    (seq![k] + ks, (1 + n + m) as nat)
                } else {
                    (seq![k], (1 + n) as nat)
                }
            },
            None => (Seq::empty(), 0),
        }
    } else {
        (Seq::empty(), 0)
    }
}

/// An or-group: two or more comma-separated operands.
pub open spec fn sp_key_or(s: Seq<char>) -> Option<(KeyIdV, nat)> {
    match sp_or_operand(s) {
        Some((k, n)) => {
            if n <= s.len() {
                let (ks, m) = sp_or_rest(s.skip(n as int));
                if ks.len() >= 1 {
                    Some((KeyIdV::Or(seq![k] + ks), (n + m) as nat))
                } else {
                    None
                }
            } else {
                None
            }
        },
        None => None,
    }
}

/// A key identifier, by precedence: alias, or-group, and-group, one.
#[verifier::opaque]
pub open spec fn sp_key_id(s: Seq<char>) -> Option<(KeyIdV, nat)> {
    match sp_key_alias(s) {
        Some(r) => Some(r),
        None => match sp_key_or(s) {
            Some(r) => Some(r),
            None => match sp_key_and(s) {
                Some(r) => Some(r),
                None => sp_key_one(s),
            },
        },
    }
}

/// A blank line: one or more consecutive whitespace characters.
pub open spec fn sp_blank(s: Seq<char>) -> Option<(LineV, nat)> {
    let d = count_while(Cls::Ws, s);
    if d > 0 {
        Some((LineV::BlankLine, d))
    } else {
        None
    }
}

/// A comment line: `//`, then the rest of the line verbatim, then an optional
/// line terminator (`\n` or `\r\n`; a bare `\r` does not terminate a comment).
pub open spec fn sp_comment(s: Seq<char>) -> Option<(LineV, nat)> {
    if s.len() >= 2 && s[0] == '/' && s[1] == '/' {
        let d = count_while(Cls::NonEol, s.skip(2));
        let j = (2 + d) as int;
        let text = s.subrange(2, j);
        if j == s.len() {
            Some((LineV::Comment(text), (2 + d) as nat))
        } else if s[j] == '\n' {
            Some((LineV::Comment(text), (3 + d) as nat))
        } else if j + 1 < s.len() && s[j + 1] == '\n' {
            Some((LineV::Comment(text), (4 + d) as nat))
        } else {
            None
        }
    } else {
        None
    }
}

/// An event line's terminator: an optional `\r`, then an optional `\n`.
pub open spec fn sp_eol(s: Seq<char>) -> nat {
    let r: nat = if s.len() > 0 && s[0] == '\r' {
        1
    } else {
        0
    };
    let t = s.skip(r as int);
    if t.len() > 0 && t[0] == '\n' {
        (r + 1) as nat
    } else {
        r
    }
}

/// A tab-separated key-identifier field.
pub open spec fn sp_key_field(s: Seq<char>) -> Option<(KeyIdV, nat)> {
    match sp_tabs1(s) {
        Some(t) => match sp_key_id(s.skip(t as int)) {
            Some((k, n)) => Some((k, (t + n) as nat)),
            None => None,
        },
        None => None,
    }
}

/// A tab-separated flag field.
pub open spec fn sp_flag_field(s: Seq<char>) -> Option<(bool, nat)> {
    match sp_tabs1(s) {
        Some(t) => match sp_flag(s.skip(t as int)) {
            Some((b, n)) => Some((b, (t + n) as nat)),
            None => None,
        },
        None => None,
    }
}

/// The optional tab-separated trailing hex literal; consumes nothing when it
/// is absent.
pub open spec fn sp_bin_field(s: Seq<char>) -> (Option<Seq<char>>, nat) {
    match sp_tabs1(s) {
        Some(t) => match sp_hex(s.skip(t as int)) {
            Some((h, n)) => (Some(h), (t + n) as nat),
            None => (None, 0),
        },
        None => (None, 0),
    }
}

/// Three consecutive tab-separated key-identifier fields.
pub open spec fn sp_key_field3(s: Seq<char>) -> Option<((KeyIdV, KeyIdV, KeyIdV), nat)> {
    match sp_key_field(s) {
        Some((kb, b)) => match sp_key_field(s.skip(b as int)) {
            Some((mo, c)) => match sp_key_field(s.skip((b + c) as int)) {
                Some((gp, d)) => Some(((kb, mo, gp), (b + c + d) as nat)),
                None => None,
            },
            None => None,
        },
        None => None,
    }
}

/// Three consecutive tab-separated flag fields.
pub open spec fn sp_flag_field3(s: Seq<char>) -> Option<((bool, bool, bool), nat)> {
    match sp_flag_field(s) {
        Some((f1, e)) => match sp_flag_field(s.skip(e as int)) {
            Some((f2, f)) => match sp_flag_field(s.skip((e + f) as int)) {
                Some((f3, g)) => Some(((f1, f2, f3), (e + f + g) as nat)),
                None => None,
            },
            None => None,
        },
        None => None,
    }
}

/// The head of an event line: the name and the three tab-separated key
/// identifiers.
pub open spec fn sp_event_ids(s: Seq<char>) -> Option<((Seq<char>, KeyIdV, KeyIdV, KeyIdV), nat)> {
    match sp_name(s) {
        Some((name, a)) => match sp_key_field3(s.skip(a as int)) {
            Some((ids, b)) => Some(((name, ids.0, ids.1, ids.2), (a + b) as nat)),
            None => None,
        },
        None => None,
    }
}

/// The tail of an event line: three tab-separated flags, the optional binary
/// flag, trailing spaces/tabs, and an optional line terminator.
pub open spec fn sp_event_tail(s: Seq<char>) -> Option<
    ((bool, bool, bool, Option<Seq<char>>), nat),
> {
    match sp_flag_field3(s) {
        Some((fs, g)) => {
            let p0 = g;
            let (bin, h) = sp_bin_field(s.skip(p0 as int));
            let p1 = (p0 + h) as nat;
            let sp = count_while(Cls::SpaceTab, s.skip(p1 as int));
            let p2 = (p1 + sp) as nat;
            let eol = sp_eol(s.skip(p2 as int));
            Some(((fs.0, fs.1, fs.2, bin), (p2 + eol) as nat))
        },
        None => None,
    }
}

/// An event line: its head, then its tail.
pub open spec fn sp_event(s: Seq<char>) -> Option<(LineV, nat)> {
    match sp_event_ids(s) {
        Some((ids, n)) => match sp_event_tail(s.skip(n as int)) {
            Some((tl, m)) => Some(
                (
                    LineV::EventLine(
                        EventLineV {
                            event_name: ids.0,
                            keyboard_id: ids.1,
                            mouse_id: ids.2,
                            gamepad_id: ids.3,
                            remap_key: tl.0,
                            remap_mouse: tl.1,
                            remap_gamepad: tl.2,
                            event_binary_flag: tl.3,
                        },
                    ),
                    (n + m) as nat,
                ),
            ),
            None => None,
        },
        None => None,
    }
}

/// One line, by the fixed alternation order: blank, comment, event.
pub open spec fn sp_line(s: Seq<char>) -> Option<(LineV, nat)> {
    match sp_blank(s) {
        Some(r) => Some(r),
        None => match sp_comment(s) {
            Some(r) => Some(r),
            None => sp_event(s),
        },
    }
}

/// The whole file: as many lines as match, and the total number of characters
/// consumed. This never fails; an unconsumed suffix means no line production
/// matched there.
pub open spec fn sp_lines(s: Seq<char>) -> (Seq<LineV>, nat)
    decreases s.len(),
{
    match sp_line(s) {
        Some((l, n)) => {
            if 1 <= n <= s.len() {
                let (ls, m) = sp_lines(s.skip(n as int));
                (seq![l] + ls, (n + m) as nat)
            } else {
                (seq![l], if n <= s.len() {
                    n
                } else {
                    0
                })
            }
        },
        None => (Seq::empty(), 0),
    }
}

// ---------------------------------------------------------------------------
// The canonical renderer.
// ---------------------------------------------------------------------------
/// `0`/`1` for a flag.
pub open spec fn flag_char(b: bool) -> char {
    if b {
        '1'
    } else {
        '0'
    }
}

/// Render a key identifier: hex literals verbatim, aliases as `!0,` plus the
/// target, and-children joined by `+`, or-children joined by `,`.
pub open spec fn rnd_key_id(k: KeyIdV) -> Seq<char>
    decreases k,
{
    match k {
        KeyIdV::One(h) => h,
        KeyIdV::Alias(a) => seq!['!', '0', ','] + a,
        KeyIdV::And(ks) => rnd_key_list(ks, '+'),
        KeyIdV::Or(ks) => rnd_key_list(ks, ','),
    }
}

/// Children rendered and joined by a single separator.
pub open spec fn rnd_key_list(ks: Seq<KeyIdV>, sep: char) -> Seq<char>
    decreases ks,
{
    if ks.len() == 0 {
        Seq::empty()
    } else if ks.len() == 1 {
        rnd_key_id(ks[0])
    } else {
        rnd_key_id(ks[0]) + seq![sep] + rnd_key_list(ks.drop_first(), sep)
    }
}

/// The tail of a joined list: one separator before each child's rendering.
pub open spec fn rnd_sep_tail(ks: Seq<KeyIdV>, sep: char) -> Seq<char>
    decreases ks.len(),
{
    if ks.len() == 0 {
        Seq::empty()
    } else {
        seq![sep] + rnd_key_id(ks[0]) + rnd_sep_tail(ks.drop_first(), sep)
    }
}

/// The longest suffix of whitespace removed.
pub open spec fn trim_end(s: Seq<char>) -> Seq<char>
    decreases s.len(),
{
    if s.len() > 0 && in_cls(Cls::Ws, s.last()) {
        trim_end(s.drop_last())
    } else {
        s
    }
}

/// Leading and trailing whitespace removed.
pub open spec fn trim(s: Seq<char>) -> Seq<char> {
    trim_end(s.skip(count_while(Cls::Ws, s) as int))
}

/// A comment renders as `// `, its text trimmed, and a line terminator.
pub open spec fn rnd_comment(t: Seq<char>) -> Seq<char> {
    seq!['/', '/', ' '] + trim(t) + seq!['\n']
}

/// An event line's eight fields joined by exactly one tab each (the eighth
/// field empty where the binary flag is absent), without a line terminator.
pub open spec fn rnd_event_fields(e: EventLineV) -> Seq<char> {
    e.event_name + seq!['\t'] + rnd_key_id(e.keyboard_id) + seq!['\t'] + rnd_key_id(e.mouse_id)
        + seq!['\t'] + rnd_key_id(e.gamepad_id) + seq![
        '\t',
        flag_char(e.remap_key),
        '\t',
        flag_char(e.remap_mouse),
        '\t',
        flag_char(e.remap_gamepad),
        '\t',
    ] + (match e.event_binary_flag {
        Some(h) => h,
        None => Seq::empty(),
    })
}

/// An event line renders as its fields, then `\n`.
pub open spec fn rnd_event(e: EventLineV) -> Seq<char> {
    rnd_event_fields(e) + seq!['\n']
}

/// One line of canonical text, always terminated by `\n`.
pub open spec fn rnd_line(l: LineV) -> Seq<char> {
    match l {
        LineV::Comment(t) => rnd_comment(t),
        LineV::EventLine(e) => rnd_event(e),
        LineV::BlankLine => seq!['\n'],
    }
}

/// The whole file: each line's rendering, concatenated in order.
pub open spec fn rnd_lines(ls: Seq<LineV>) -> Seq<char>
    decreases ls.len(),
{
    if ls.len() == 0 {
        Seq::empty()
    } else {
        rnd_line(ls[0]) + rnd_lines(ls.drop_first())
    }
}

// ---------------------------------------------------------------------------
// Well-formedness: the shapes the grammar can produce.
// ---------------------------------------------------------------------------
/// `0x` followed by one or more hex digits, nothing else.
pub open spec fn wf_hex(h: Seq<char>) -> bool {
    h.len() >= 3 && h[0] == '0' && h[1] == 'x' && (forall|i: int|
        2 <= i < h.len() ==> in_cls(Cls::HexDigit, h[i]))
}

/// A non-empty token without tabs.
pub open spec fn wf_alias_name(a: Seq<char>) -> bool {
    a.len() >= 1 && (forall|i: int| 0 <= i < a.len() ==> a[i] != '\t')
}

/// An and-group child is always a single well-formed hex literal.
pub open spec fn wf_and_child(k: KeyIdV) -> bool {
    k matches KeyIdV::One(h) && wf_hex(h)
}

/// An and-group holds two or more hex-literal children.
pub open spec fn wf_and(k: KeyIdV) -> bool {
    k matches KeyIdV::And(ks) && ks.len() >= 2 && (forall|i: int|
        0 <= i < ks.len() ==> wf_and_child(ks[i]))
}

/// An or-group operand is an and-group or a single hex literal.
pub open spec fn wf_or_operand(k: KeyIdV) -> bool {
    wf_and_child(k) || wf_and(k)
}

/// The arity invariant and the child shapes of the key-identifier grammar.
pub open spec fn wf_key_id(k: KeyIdV) -> bool {
    match k {
        KeyIdV::One(h) => wf_hex(h),
        KeyIdV::Alias(a) => wf_alias_name(a),
        KeyIdV::And(_) => wf_and(k),
        KeyIdV::Or(ks) => ks.len() >= 2 && (forall|i: int|
            0 <= i < ks.len() ==> wf_or_operand(ks[i])),
    }
}

/// An event name the grammar can produce: non-empty, no tab, not starting
/// with whitespace (a blank line would match first) nor with `//` (a comment
/// would match first).
pub open spec fn wf_event_name(nm: Seq<char>) -> bool {
    nm.len() >= 1 && (forall|i: int| 0 <= i < nm.len() ==> nm[i] != '\t') && !in_cls(
        Cls::Ws,
        nm[0],
    ) && !(nm.len() >= 2 && nm[0] == '/' && nm[1] == '/')
}

pub open spec fn wf_event(e: EventLineV) -> bool {
    wf_event_name(e.event_name) && wf_key_id(e.keyboard_id) && wf_key_id(e.mouse_id) && wf_key_id(
        e.gamepad_id,
    ) && (match e.event_binary_flag {
        Some(h) => wf_hex(h),
        None => true,
    })
}

/// Comment text as the parser produces it: no line terminator inside.
pub open spec fn wf_comment_text(t: Seq<char>) -> bool {
    forall|i: int| 0 <= i < t.len() ==> in_cls(Cls::NonEol, t[i])
}

/// Comment text in the renderer's canonical shape: one leading space, then
/// the trimmed text. Re-parsing a rendered comment gives back exactly this.
pub open spec fn canonical_comment(t: Seq<char>) -> bool {
    t == seq![' '] + trim(t)
}

/// What parsing alone guarantees of an event name: non-empty, no tab, and
/// (because the blank production is tried first) not starting with
/// whitespace.
pub open spec fn wf_event_name_loose(nm: Seq<char>) -> bool {
    nm.len() >= 1 && (forall|i: int| 0 <= i < nm.len() ==> nm[i] != '\t') && !in_cls(
        Cls::Ws,
        nm[0],
    )
}

pub open spec fn wf_event_loose(e: EventLineV) -> bool {
    wf_event_name_loose(e.event_name) && wf_key_id(e.keyboard_id) && wf_key_id(e.mouse_id)
        && wf_key_id(e.gamepad_id) && (match e.event_binary_flag {
        Some(h) => wf_hex(h),
        None => true,
    })
}

/// A tame event name does not begin with `//`: rendering such a name would
/// produce a line that re-parses as a comment. Parsing can produce an
/// untame name only from a line whose comment production failed on a bare
/// carriage return.
pub open spec fn tame_line(l: LineV) -> bool {
    match l {
        LineV::EventLine(e) => !(e.event_name.len() >= 2 && e.event_name[0] == '/'
            && e.event_name[1] == '/'),
        LineV::Comment(_) => true,
        LineV::BlankLine => true,
    }
}

pub open spec fn tame_lines(ls: Seq<LineV>) -> bool {
    forall|i: int| 0 <= i < ls.len() ==> tame_line(#[trigger] ls[i])
}

/// What parsing guarantees of a line (comments not yet canonical, event
/// names possibly untame).
pub open spec fn wf_line_loose(l: LineV) -> bool {
    match l {
        LineV::Comment(t) => wf_comment_text(t),
        LineV::EventLine(e) => wf_event_loose(e),
        LineV::BlankLine => true,
    }
}

/// A line that round-trips exactly: comments canonical, event names tame.
pub open spec fn wf_line(l: LineV) -> bool {
    match l {
        LineV::Comment(t) => wf_comment_text(t) && canonical_comment(t),
        LineV::EventLine(e) => wf_event(e),
        LineV::BlankLine => true,
    }
}

/// Consecutive blank lines cannot both come out of one parse: the blank
/// production consumes a maximal whitespace run.
pub open spec fn no_adjacent_blanks(ls: Seq<LineV>) -> bool {
    forall|i: int|
        0 <= i < ls.len() - 1 ==> !(#[trigger] ls[i] is BlankLine && ls[i + 1] is BlankLine)
}

/// What parsing guarantees of a whole file's lines.
pub open spec fn wf_lines_loose(ls: Seq<LineV>) -> bool {
    (forall|i: int| 0 <= i < ls.len() ==> wf_line_loose(#[trigger] ls[i])) && no_adjacent_blanks(
        ls,
    )
}

/// A line sequence that round-trips exactly.
pub open spec fn wf_lines(ls: Seq<LineV>) -> bool {
    (forall|i: int| 0 <= i < ls.len() ==> wf_line(#[trigger] ls[i])) && no_adjacent_blanks(ls)
}

/// One normalization pass: what re-parsing rendered text does to a line.
pub open spec fn normalize_line(l: LineV) -> LineV {
    match l {
        LineV::Comment(t) => LineV::Comment(seq![' '] + trim(t)),
        LineV::EventLine(_) => l,
        LineV::BlankLine => l,
    }
}

pub open spec fn normalize_lines(ls: Seq<LineV>) -> Seq<LineV> {
    Seq::new(ls.len(), |i: int| normalize_line(ls[i]))
}

} // verus!
