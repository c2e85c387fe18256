//! The executable recursive-descent parser.
//!
//! Every function here implements one production of [`crate::grammar`]
//! exactly: it returns `None` precisely where the production fails, and on
//! success it returns the production's value and the index just past the
//! consumed characters. Input is the file's characters in a vector, so each
//! step is a constant-time index operation.

use crate::ast::{EventLine, KeyID, Line};
use crate::chars::{scan, string_of_range, Cls};
use crate::grammar::{
    sp_and_rest, sp_bin_field, sp_blank, sp_comment, sp_eol, sp_event, sp_event_ids,
    sp_event_tail, sp_flag, sp_flag_field, sp_flag_field3, sp_hex, sp_key_alias, sp_key_and,
    sp_key_field, sp_key_field3, sp_key_id, sp_key_one, sp_key_or, sp_line, sp_lines,
    sp_or_operand, sp_or_rest,
};
use vstd::prelude::*;

verus! {


/// Two skips in a row reach the same suffix as one combined skip.
proof fn lemma_skip_skip(s: Seq<char>, a: int, b: int)
    requires
        0 <= a,
        0 <= b,
        a + b <= s.len(),
    ensures
        s.skip(a).skip(b) == s.skip(a + b),
{
    assert(s.skip(a).skip(b) =~= s.skip(a + b));
}

/// A hexadecimal literal at `i`: optional spaces/tabs, then `0x` and one or
/// more hex digits, returned verbatim (without the leading spaces).
pub fn parse_hex(s: &Vec<char>, i: usize) -> (r: Option<(String, usize)>)
    requires
        i <= s@.len(),
    ensures
        match (r, sp_hex(s@.skip(i as int))) {
            (Some((hs, j)), Some((h, n))) => hs@ == h && j == i + n && i < j <= s@.len(),
            (None, None) => true,
            _ => false,
        },
{
    let ghost rem = s@.skip(i as int);
    let sp = scan(Cls::SpaceTab, s, i);
    proof {
        lemma_skip_skip(s@, i as int, sp - i);
        assert(rem.skip(sp - i) == s@.skip(sp as int));
    }
    let ghost rs = rem.skip(sp - i);
    if s.len() - sp >= 2 && s[sp] == '0' && s[sp + 1] == 'x' {
        proof {
            assert(rs[0] == s@[sp as int]);
            assert(rs[1] == s@[sp as int + 1]);
            lemma_skip_skip(s@, sp as int, 2);
            assert(rs.skip(2) == s@.skip(sp as int + 2));
        }
        let dend = scan(Cls::HexDigit, s, sp + 2);
        if dend > sp + 2 {
            let val = string_of_range(s, sp, dend);
            proof {
                assert(rs.subrange(0, dend - sp) =~= s@.subrange(sp as int, dend as int));
            }
            Some((val, dend))
        } else {
            None
        }
    } else {
        proof {
            if rs.len() >= 2 {
                assert(rs[0] == s@[sp as int]);
                assert(rs[1] == s@[sp as int + 1]);
            }
        }
        None
    }
}

/// A remap flag at `i`: a single `0` or `1`.
pub fn parse_flag(s: &Vec<char>, i: usize) -> (r: Option<(bool, usize)>)
    requires
        i <= s@.len(),
    ensures
        match (r, sp_flag(s@.skip(i as int))) {
            (Some((b, j)), Some((bb, n))) => b == bb && j == i + n && i < j <= s@.len(),
            (None, None) => true,
            _ => false,
        },
{
    if i < s.len() && (s[i] == '0' || s[i] == '1') {
        proof {
            assert(s@.skip(i as int)[0] == s@[i as int]);
        }
        Some((s[i] == '1', i + 1))
    } else {
        proof {
            if i < s@.len() {
                assert(s@.skip(i as int)[0] == s@[i as int]);
            }
        }
        None
    }
}

/// An alias at `i`: the prefix `!0,` and a non-empty non-tab token.
pub fn parse_key_alias(s: &Vec<char>, i: usize) -> (r: Option<(KeyID, usize)>)
    requires
        i <= s@.len(),
    ensures
        match (r, sp_key_alias(s@.skip(i as int))) {
            (Some((k, j)), Some((kk, n))) => k@ == kk && j == i + n && i < j <= s@.len(),
            (None, None) => true,
            _ => false,
        },
{
    let ghost rem = s@.skip(i as int);
    if s.len() - i >= 3 && s[i] == '!' && s[i + 1] == '0' && s[i + 2] == ',' {
        proof {
            assert(rem[0] == s@[i as int]);
            assert(rem[1] == s@[i as int + 1]);
            assert(rem[2] == s@[i as int + 2]);
            lemma_skip_skip(s@, i as int, 3);
        }
        let end = scan(Cls::NonTab, s, i + 3);
        if end > i + 3 {
            let name = string_of_range(s, i + 3, end);
            proof {
                assert(rem.skip(3).subrange(0, end - (i + 3)) =~= s@.subrange(
                    i as int + 3,
                    end as int,
                ));
            }
            Some((KeyID::Alias(name), end))
        } else {
            None
        }
    } else {
        proof {
            if rem.len() >= 3 {
                assert(rem[0] == s@[i as int]);
                assert(rem[1] == s@[i as int + 1]);
                assert(rem[2] == s@[i as int + 2]);
            } else if rem.len() >= 1 {
                assert(rem[0] == s@[i as int]);
            }
        }
        None
    }
}

/// A single hex literal as a key identifier.
pub fn parse_key_one(s: &Vec<char>, i: usize) -> (r: Option<(KeyID, usize)>)
    requires
        i <= s@.len(),
    ensures
        match (r, sp_key_one(s@.skip(i as int))) {
            (Some((k, j)), Some((kk, n))) => k@ == kk && j == i + n && i < j <= s@.len(),
            (None, None) => true,
            _ => false,
        },
{
    match parse_hex(s, i) {
        Some((h, j)) => Some((KeyID::One(h), j)),
        None => None,
    }
}

/// An and-group: a hex literal followed by one or more `+ <hex>` repetitions.
#[verifier::rlimit(50)]
pub fn parse_key_and(s: &Vec<char>, i: usize) -> (r: Option<(KeyID, usize)>)
    requires
        i <= s@.len(),
    ensures
        match (r, sp_key_and(s@.skip(i as int))) {
            (Some((k, j)), Some((kk, n))) => k@ == kk && j == i + n && i < j <= s@.len(),
            (None, None) => true,
            _ => false,
        },
{
    let first = parse_hex(s, i);
    match first {
        Some((h, j)) => {
            let ghost h0 = h@;
            proof {
                lemma_skip_skip(s@, i as int, j - i);
            }
            let mut items: Vec<KeyID> = Vec::new();
            items.push(KeyID::One(h));
            let mut pos: usize = j;
            proof {
                crate::ast::lemma_key_id_list_view(items@);
                assert(crate::ast::key_id_list_view(items@).drop_first()
                    =~= Seq::<crate::ast::KeyIdV>::empty());
                assert(Seq::<crate::ast::KeyIdV>::empty() + sp_and_rest(s@.skip(j as int)).0
                    =~= sp_and_rest(s@.skip(j as int)).0);
            }
            loop
                invariant
                    j <= pos <= s@.len(),
                    items@.len() >= 1,
                    crate::ast::key_id_list_view(items@)[0] == crate::ast::KeyIdV::One(h0),
                    crate::ast::key_id_list_view(items@).len() == items@.len(),
                    crate::ast::key_id_list_view(items@).drop_first() + sp_and_rest(
                        s@.skip(pos as int),
                    ).0 == sp_and_rest(s@.skip(j as int)).0,
                    pos - j + sp_and_rest(s@.skip(pos as int)).1 == sp_and_rest(
                        s@.skip(j as int),
                    ).1,
                ensures
                    j <= pos <= s@.len(),
                    items@.len() >= 1,
                    crate::ast::key_id_list_view(items@)[0] == crate::ast::KeyIdV::One(h0),
                    crate::ast::key_id_list_view(items@).len() == items@.len(),
                    crate::ast::key_id_list_view(items@).drop_first() == sp_and_rest(
                        s@.skip(j as int),
                    ).0,
                    pos - j == sp_and_rest(s@.skip(j as int)).1,
                decreases s@.len() - pos,
            {
                let ghost rem = s@.skip(pos as int);
                if pos < s.len() && s[pos] == '+' {
                    proof {
                        assert(rem[0] == s@[pos as int]);
                        lemma_skip_skip(s@, pos as int, 1);
                    }
                    match parse_hex(s, pos + 1) {
                        Some((h2, j2)) => {
                            proof {
                                lemma_skip_skip(s@, pos as int + 1, j2 - (pos + 1));
                                assert(rem.skip(1).skip(j2 - (pos + 1)) == s@.skip(j2 as int));
                                assert(rem.skip(1 + (j2 - (pos + 1)) as int) == s@.skip(
                                    j2 as int,
                                ));
                                let old_view = crate::ast::key_id_list_view(items@);
                                let pushed = items@.push(KeyID::One(h2));
                                crate::ast::lemma_key_id_list_view(items@);
                                crate::ast::lemma_key_id_list_view(pushed);
                                assert(crate::ast::key_id_list_view(pushed) =~= old_view.push(
                                    crate::ast::KeyIdV::One(h2@),
                                ));
                                assert(old_view.push(crate::ast::KeyIdV::One(h2@)).drop_first()
                                    =~= old_view.drop_first().push(crate::ast::KeyIdV::One(h2@)));
                                assert(old_view.drop_first().push(crate::ast::KeyIdV::One(h2@))
                                    + sp_and_rest(s@.skip(j2 as int)).0 =~= old_view.drop_first()
                                    + (seq![crate::ast::KeyIdV::One(h2@)] + sp_and_rest(
                                    s@.skip(j2 as int),
                                ).0));
                            }
                            items.push(KeyID::One(h2));
                            pos = j2;
                        },
                        None => {
                            proof {
                                assert(crate::ast::key_id_list_view(items@).drop_first()
                                    + sp_and_rest(s@.skip(pos as int)).0
                                    =~= crate::ast::key_id_list_view(items@).drop_first());
                            }
                            break ;
                        },
                    }
                } else {
                    proof {
                        if pos < s@.len() {
                            assert(rem[0] == s@[pos as int]);
                        }
                        assert(crate::ast::key_id_list_view(items@).drop_first()
                            + sp_and_rest(s@.skip(pos as int)).0
                            =~= crate::ast::key_id_list_view(items@).drop_first());
                    }
                    break ;
                }
            }
            if items.len() >= 2 {
                proof {
                    let v = crate::ast::key_id_list_view(items@);
                    assert(v =~= seq![v[0]] + v.drop_first());
                }
                Some((KeyID::And(items), pos))
            } else {
                None
            }
        },
        None => None,
    }
}

/// An or-group operand: an and-group, else a single hex literal.
pub fn parse_or_operand(s: &Vec<char>, i: usize) -> (r: Option<(KeyID, usize)>)
    requires
        i <= s@.len(),
    ensures
        match (r, sp_or_operand(s@.skip(i as int))) {
            (Some((k, j)), Some((kk, n))) => k@ == kk && j == i + n && i < j <= s@.len(),
            (None, None) => true,
            _ => false,
        },
{
    match parse_key_and(s, i) {
        Some(r) => Some(r),
        None => parse_key_one(s, i),
    }
}

/// An or-group: an operand followed by one or more `, <operand>` repetitions.
#[verifier::rlimit(50)]
pub fn parse_key_or(s: &Vec<char>, i: usize) -> (r: Option<(KeyID, usize)>)
    requires
        i <= s@.len(),
    ensures
        match (r, sp_key_or(s@.skip(i as int))) {
            (Some((k, j)), Some((kk, n))) => k@ == kk && j == i + n && i < j <= s@.len(),
            (None, None) => true,
            _ => false,
        },
{
    let first = parse_or_operand(s, i);
    match first {
        Some((k0, j)) => {
            let ghost k0v = k0@;
            proof {
                lemma_skip_skip(s@, i as int, j - i);
            }
            let mut items: Vec<KeyID> = Vec::new();
            items.push(k0);
            let mut pos: usize = j;
            proof {
                crate::ast::lemma_key_id_list_view(items@);
                assert(crate::ast::key_id_list_view(items@).drop_first()
                    =~= Seq::<crate::ast::KeyIdV>::empty());
                assert(Seq::<crate::ast::KeyIdV>::empty() + sp_or_rest(s@.skip(j as int)).0
                    =~= sp_or_rest(s@.skip(j as int)).0);
            }
            loop
                invariant
                    j <= pos <= s@.len(),
                    items@.len() >= 1,
                    crate::ast::key_id_list_view(items@)[0] == k0v,
                    crate::ast::key_id_list_view(items@).len() == items@.len(),
                    crate::ast::key_id_list_view(items@).drop_first() + sp_or_rest(
                        s@.skip(pos as int),
                    ).0 == sp_or_rest(s@.skip(j as int)).0,
                    pos - j + sp_or_rest(s@.skip(pos as int)).1 == sp_or_rest(
                        s@.skip(j as int),
                    ).1,
                ensures
                    j <= pos <= s@.len(),
                    items@.len() >= 1,
                    crate::ast::key_id_list_view(items@)[0] == k0v,
                    crate::ast::key_id_list_view(items@).len() == items@.len(),
                    crate::ast::key_id_list_view(items@).drop_first() == sp_or_rest(
                        s@.skip(j as int),
                    ).0,
                    pos - j == sp_or_rest(s@.skip(j as int)).1,
                decreases s@.len() - pos,
            {
                let ghost rem = s@.skip(pos as int);
                if pos < s.len() && s[pos] == ',' {
                    proof {
                        assert(rem[0] == s@[pos as int]);
                        lemma_skip_skip(s@, pos as int, 1);
                    }
                    match parse_or_operand(s, pos + 1) {
                        Some((k2, j2)) => {
                            proof {
                                lemma_skip_skip(s@, pos as int + 1, j2 - (pos + 1));
                                assert(rem.skip(1).skip(j2 - (pos + 1)) == s@.skip(j2 as int));
                                assert(rem.skip(1 + (j2 - (pos + 1)) as int) == s@.skip(
                                    j2 as int,
                                ));
                                let old_view = crate::ast::key_id_list_view(items@);
                                let pushed = items@.push(k2);
                                crate::ast::lemma_key_id_list_view(items@);
                                crate::ast::lemma_key_id_list_view(pushed);
                                assert(crate::ast::key_id_list_view(pushed) =~= old_view.push(
                                    k2@,
                                ));
                                assert(old_view.push(k2@).drop_first() =~= old_view.drop_first()
                                    .push(k2@));
                                assert(old_view.drop_first().push(k2@) + sp_or_rest(
                                    s@.skip(j2 as int),
                                ).0 =~= old_view.drop_first() + (seq![k2@] + sp_or_rest(
                                    s@.skip(j2 as int),
                                ).0));
                            }
                            items.push(k2);
                            pos = j2;
                        },
                        None => {
                            proof {
                                assert(crate::ast::key_id_list_view(items@).drop_first()
                                    + sp_or_rest(s@.skip(pos as int)).0
                                    =~= crate::ast::key_id_list_view(items@).drop_first());
                            }
                            break ;
                        },
                    }
                } else {
                    proof {
                        if pos < s@.len() {
                            assert(rem[0] == s@[pos as int]);
                        }
                        assert(crate::ast::key_id_list_view(items@).drop_first()
                            + sp_or_rest(s@.skip(pos as int)).0
                            =~= crate::ast::key_id_list_view(items@).drop_first());
                    }
                    break ;
                }
            }
            if items.len() >= 2 {
                proof {
                    let v = crate::ast::key_id_list_view(items@);
                    assert(v =~= seq![v[0]] + v.drop_first());
                }
                Some((KeyID::Or(items), pos))
            } else {
                None
            }
        },
        None => None,
    }
}

/// A key identifier, by precedence: alias, or-group, and-group, one.
pub fn parse_key_id(s: &Vec<char>, i: usize) -> (r: Option<(KeyID, usize)>)
    requires
        i <= s@.len(),
    ensures
        match (r, sp_key_id(s@.skip(i as int))) {
            (Some((k, j)), Some((kk, n))) => k@ == kk && j == i + n && i < j <= s@.len(),
            (None, None) => true,
            _ => false,
        },
{
    proof {
        reveal(crate::grammar::sp_key_id);
    }
    match parse_key_alias(s, i) {
        Some(r) => Some(r),
        None => match parse_key_or(s, i) {
            Some(r) => Some(r),
            None => match parse_key_and(s, i) {
                Some(r) => Some(r),
                None => parse_key_one(s, i),
            },
        },
    }
}

/// A blank line at `i`: one or more whitespace characters.
pub fn parse_blank_line(s: &Vec<char>, i: usize) -> (r: Option<(Line, usize)>)
    requires
        i <= s@.len(),
    ensures
        match (r, sp_blank(s@.skip(i as int))) {
            (Some((l, j)), Some((ll, n))) => l@ == ll && j == i + n && i < j <= s@.len(),
            (None, None) => true,
            _ => false,
        },
{
    let end = scan(Cls::Ws, s, i);
    if end > i {
        Some((Line::BlankLine, end))
    } else {
        None
    }
}

/// A comment line at `i`: `//`, the rest of the line verbatim, and an
/// optional line terminator.
pub fn parse_comment_line(s: &Vec<char>, i: usize) -> (r: Option<(Line, usize)>)
    requires
        i <= s@.len(),
    ensures
        match (r, sp_comment(s@.skip(i as int))) {
            (Some((l, j)), Some((ll, n))) => l@ == ll && j == i + n && i < j <= s@.len(),
            (None, None) => true,
            _ => false,
        },
{
    let ghost rem = s@.skip(i as int);
    if s.len() - i >= 2 && s[i] == '/' && s[i + 1] == '/' {
        proof {
            assert(rem[0] == s@[i as int]);
            assert(rem[1] == s@[i as int + 1]);
            lemma_skip_skip(s@, i as int, 2);
        }
        let dend = scan(Cls::NonEol, s, i + 2);
        proof {
            assert(rem.subrange(2, dend - i) =~= s@.subrange(i as int + 2, dend as int));
            if dend < s@.len() {
                assert(rem[dend - i] == s@[dend as int]);
            }
            if dend + 1 < s@.len() {
                assert(rem[dend - i + 1] == s@[dend as int + 1]);
            }
        }
        if dend == s.len() {
            let text = string_of_range(s, i + 2, dend);
            Some((Line::Comment(text), dend))
        } else if s[dend] == '\n' {
            let text = string_of_range(s, i + 2, dend);
            Some((Line::Comment(text), dend + 1))
        } else if dend + 1 < s.len() && s[dend + 1] == '\n' {
            let text = string_of_range(s, i + 2, dend);
            Some((Line::Comment(text), dend + 2))
        } else {
            None
        }
    } else {
        proof {
            if rem.len() >= 2 {
                assert(rem[0] == s@[i as int]);
                assert(rem[1] == s@[i as int + 1]);
            }
        }
        None
    }
}

/// A tab-separated key-identifier field at `i`.
fn parse_key_field(s: &Vec<char>, i: usize) -> (r: Option<(KeyID, usize)>)
    requires
        i <= s@.len(),
    ensures
        match (r, sp_key_field(s@.skip(i as int))) {
            (Some((k, j)), Some((kk, n))) => k@ == kk && j == i + n && i < j <= s@.len(),
            (None, None) => true,
            _ => false,
        },
{
    let t = scan(Cls::Tab, s, i);
    if t == i {
        return None;
    }
    proof {
        lemma_skip_skip(s@, i as int, t - i);
    }
    match parse_key_id(s, t) {
        Some((k, j)) => Some((k, j)),
        None => None,
    }
}

/// A tab-separated flag field at `i`.
fn parse_flag_field(s: &Vec<char>, i: usize) -> (r: Option<(bool, usize)>)
    requires
        i <= s@.len(),
    ensures
        match (r, sp_flag_field(s@.skip(i as int))) {
            (Some((b, j)), Some((bb, n))) => b == bb && j == i + n && i < j <= s@.len(),
            (None, None) => true,
            _ => false,
        },
{
    let t = scan(Cls::Tab, s, i);
    if t == i {
        return None;
    }
    proof {
        lemma_skip_skip(s@, i as int, t - i);
    }
    match parse_flag(s, t) {
        Some((b, j)) => Some((b, j)),
        None => None,
    }
}

/// The optional tab-separated trailing hex literal at `i`; stays at `i` when
/// it is absent.
fn parse_bin_field(s: &Vec<char>, i: usize) -> (r: (Option<String>, usize))
    requires
        i <= s@.len(),
    ensures
        match (r.0, sp_bin_field(s@.skip(i as int)).0) {
            (Some(h), Some(hh)) => h@ == hh,
            (None, None) => true,
            _ => false,
        },
        r.1 == i + sp_bin_field(s@.skip(i as int)).1,
        i <= r.1 <= s@.len(),
{
    let t = scan(Cls::Tab, s, i);
    if t == i {
        return (None, i);
    }
    proof {
        lemma_skip_skip(s@, i as int, t - i);
    }
    match parse_hex(s, t) {
        Some((h, j)) => (Some(h), j),
        None => (None, i),
    }
}

/// The event-line terminator at `i`: an optional `\r`, then an optional `\n`.
fn parse_eol(s: &Vec<char>, i: usize) -> (j: usize)
    requires
        i <= s@.len(),
    ensures
        j == i + sp_eol(s@.skip(i as int)),
        i <= j <= s@.len(),
{
    let ghost rem = s@.skip(i as int);
    let mut p = i;
    if p < s.len() && s[p] == '\r' {
        proof {
            assert(rem[0] == s@[i as int]);
            lemma_skip_skip(s@, i as int, 1);
        }
        p = p + 1;
    } else {
        proof {
            if i < s@.len() {
                assert(rem[0] == s@[i as int]);
            }
            assert(rem.skip(0) =~= rem);
        }
    }
    if p < s.len() && s[p] == '\n' {
        proof {
            assert(s@.skip(p as int)[0] == s@[p as int]);
        }
        p = p + 1;
    } else {
        proof {
            if p < s@.len() {
                assert(s@.skip(p as int)[0] == s@[p as int]);
            }
        }
    }
    p
}

/// Three consecutive tab-separated key-identifier fields at `i`.
#[verifier::spinoff_prover]
fn parse_key_field3(s: &Vec<char>, i: usize) -> (r: Option<((KeyID, KeyID, KeyID), usize)>)
    requires
        i <= s@.len(),
    ensures
        match (r, sp_key_field3(s@.skip(i as int))) {
            (Some((ids, j)), Some((ii, n))) => ids.0@ == ii.0 && ids.1@ == ii.1 && ids.2@ == ii.2
                && j == i + n && i < j <= s@.len(),
            (None, None) => true,
            _ => false,
        },
{
    let kb = match parse_key_field(s, i) {
        Some(x) => x,
        None => {
            return None;
        },
    };
    let p1 = kb.1;
    proof {
        lemma_skip_skip(s@, i as int, p1 - i);
    }
    let mo = match parse_key_field(s, p1) {
        Some(x) => x,
        None => {
            return None;
        },
    };
    let p2 = mo.1;
    proof {
        lemma_skip_skip(s@, i as int, p2 - i);
    }
    let gp = match parse_key_field(s, p2) {
        Some(x) => x,
        None => {
            return None;
        },
    };
    Some(((kb.0, mo.0, gp.0), gp.1))
}

/// Three consecutive tab-separated flag fields at `i`.
#[verifier::spinoff_prover]
fn parse_flag_field3(s: &Vec<char>, i: usize) -> (r: Option<((bool, bool, bool), usize)>)
    requires
        i <= s@.len(),
    ensures
        match (r, sp_flag_field3(s@.skip(i as int))) {
            (Some((fs, j)), Some((ff, n))) => fs.0 == ff.0 && fs.1 == ff.1 && fs.2 == ff.2 && j
                == i + n && i < j <= s@.len(),
            (None, None) => true,
            _ => false,
        },
{
    let f1 = match parse_flag_field(s, i) {
        Some(x) => x,
        None => {
            return None;
        },
    };
    let p1 = f1.1;
    proof {
        lemma_skip_skip(s@, i as int, p1 - i);
    }
    let f2 = match parse_flag_field(s, p1) {
        Some(x) => x,
        None => {
            return None;
        },
    };
    let p2 = f2.1;
    proof {
        lemma_skip_skip(s@, i as int, p2 - i);
    }
    let f3 = match parse_flag_field(s, p2) {
        Some(x) => x,
        None => {
            return None;
        },
    };
    Some(((f1.0, f2.0, f3.0), f3.1))
}

/// The head of an event line at `i`: the name and the three key fields.
#[verifier::rlimit(100)]
fn parse_event_ids(s: &Vec<char>, i: usize) -> (r: Option<((String, KeyID, KeyID, KeyID), usize)>)
    requires
        i <= s@.len(),
    ensures
        match (r, sp_event_ids(s@.skip(i as int))) {
            (Some((ids, j)), Some((ii, n))) => ids.0@ == ii.0 && ids.1@ == ii.1 && ids.2@ == ii.2
                && ids.3@ == ii.3 && j == i + n && i < j <= s@.len(),
            (None, None) => true,
            _ => false,
        },
{
    let name_end = scan(Cls::NonTab, s, i);
    if name_end == i {
        return None;
    }
    proof {
        lemma_skip_skip(s@, i as int, name_end - i);
    }
    let ids = match parse_key_field3(s, name_end) {
        Some(x) => x,
        None => {
            return None;
        },
    };
    let name = string_of_range(s, i, name_end);
    proof {
        assert(s@.skip(i as int).subrange(0, name_end - i) =~= s@.subrange(
            i as int,
            name_end as int,
        ));
    }
    let (kb, mo, gp) = ids.0;
    Some(((name, kb, mo, gp), ids.1))
}

/// The tail of an event line at `i`: flags, optional binary flag, trailing
/// spaces, optional terminator.
#[verifier::spinoff_prover]
fn parse_event_tail(s: &Vec<char>, i: usize) -> (r: Option<
    ((bool, bool, bool, Option<String>), usize),
>)
    requires
        i <= s@.len(),
    ensures
        match (r, sp_event_tail(s@.skip(i as int))) {
            (Some((tl, j)), Some((tt, n))) => tl.0 == tt.0 && tl.1 == tt.1 && tl.2 == tt.2
                && (match (tl.3, tt.3) {
                (Some(h), Some(hh)) => h@ == hh,
                (None, None) => true,
                _ => false,
            }) && j == i + n && i <= j <= s@.len(),
            (None, None) => true,
            _ => false,
        },
{
    let fs = match parse_flag_field3(s, i) {
        Some(x) => x,
        None => {
            return None;
        },
    };
    let p6 = fs.1;
    proof {
        lemma_skip_skip(s@, i as int, p6 - i);
    }
    let (bin, p7) = parse_bin_field(s, p6);
    proof {
        lemma_skip_skip(s@, i as int, p7 - i);
    }
    let p8 = scan(Cls::SpaceTab, s, p7);
    proof {
        lemma_skip_skip(s@, p7 as int, p8 - p7);
        lemma_skip_skip(s@, i as int, p8 - i);
    }
    let p9 = parse_eol(s, p8);
    let (f1, f2, f3) = fs.0;
    Some(((f1, f2, f3, bin), p9))
}

/// An event line at `i`: its head, then its tail.
#[verifier::rlimit(100)]
#[verifier::spinoff_prover]
pub fn parse_event_line(s: &Vec<char>, i: usize) -> (r: Option<(Line, usize)>)
    requires
        i <= s@.len(),
    ensures
        match (r, sp_event(s@.skip(i as int))) {
            (Some((l, j)), Some((ll, n))) => l@ == ll && j == i + n && i < j <= s@.len(),
            (None, None) => true,
            _ => false,
        },
{
    let ids = match parse_event_ids(s, i) {
        Some(x) => x,
        None => {
            return None;
        },
    };
    let p = ids.1;
    proof {
        lemma_skip_skip(s@, i as int, p - i);
    }
    let tl = match parse_event_tail(s, p) {
        Some(x) => x,
        None => {
            return None;
        },
    };
    let (name, kb, mo, gp) = ids.0;
    let (f1, f2, f3, bin) = tl.0;
    Some(
        (
            Line::EventLine(
                EventLine {
                    event_name: name,
                    keyboard_id: kb,
                    mouse_id: mo,
                    gamepad_id: gp,
                    remap_key: f1,
                    remap_mouse: f2,
                    remap_gamepad: f3,
                    event_binary_flag: bin,
                },
            ),
            tl.1,
        ),
    )
}

/// One line at `i`, by the fixed alternation order: blank, comment, event.
pub fn parse_line(s: &Vec<char>, i: usize) -> (r: Option<(Line, usize)>)
    requires
        i <= s@.len(),
    ensures
        match (r, sp_line(s@.skip(i as int))) {
            (Some((l, j)), Some((ll, n))) => l@ == ll && j == i + n && i < j <= s@.len(),
            (None, None) => true,
            _ => false,
        },
{
    match parse_blank_line(s, i) {
        Some(r) => Some(r),
        None => match parse_comment_line(s, i) {
            Some(r) => Some(r),
            None => parse_event_line(s, i),
        },
    }
}

/// As many lines as match, from the start of the input, and the index where
/// the line loop stopped.
pub(crate) fn parse_lines(s: &Vec<char>) -> (r: (Vec<Line>, usize))
    ensures
        crate::ast::lines_view(r.0@) == sp_lines(s@).0,
        r.1 == sp_lines(s@).1,
        r.1 <= s@.len(),
{
    let mut lines: Vec<Line> = Vec::new();
    let mut pos: usize = 0;
    proof {
        assert(s@.skip(0) =~= s@);
        assert(crate::ast::lines_view(lines@) + sp_lines(s@).0 =~= sp_lines(s@).0);
    }
    loop
        invariant
            pos <= s@.len(),
            crate::ast::lines_view(lines@) + sp_lines(s@.skip(pos as int)).0 == sp_lines(s@).0,
            pos + sp_lines(s@.skip(pos as int)).1 == sp_lines(s@).1,
        ensures
            pos <= s@.len(),
            crate::ast::lines_view(lines@) == sp_lines(s@).0,
            pos == sp_lines(s@).1,
        decreases s@.len() - pos,
    {
        match parse_line(s, pos) {
            Some((l, j)) => {
                proof {
                    lemma_skip_skip(s@, pos as int, j - pos);
                    let old_lv = crate::ast::lines_view(lines@);
                    let new_lv = crate::ast::lines_view(lines@.push(l));
                    assert(new_lv =~= old_lv.push(l@));
                    assert(old_lv.push(l@) + sp_lines(s@.skip(j as int)).0 =~= old_lv + (seq![
                        l@,
                    ] + sp_lines(s@.skip(j as int)).0));
                }
                lines.push(l);
                pos = j;
            },
            None => {
                proof {
                    assert(crate::ast::lines_view(lines@) + sp_lines(s@.skip(pos as int)).0
                        =~= crate::ast::lines_view(lines@));
                }
                break ;
            },
        }
    }
    (lines, pos)
}

/// Parse a whole control-map text: the lines that matched, in order, and the
/// index where the line loop stopped (the input length exactly when every
/// line matched).
pub fn control_map_parser(input: &str) -> (r: (Vec<Line>, usize))
    ensures
        crate::ast::lines_view(r.0@) == sp_lines(input@).0,
        r.1 == sp_lines(input@).1,
        r.1 <= input@.len(),
{
    let v = crate::chars::char_vec_of_str(input);
    parse_lines(&v)
}

} // verus!
