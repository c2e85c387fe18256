//! The round-trip laws: rendered text parses back to the structure it was
//! rendered from, and parsing's own outputs satisfy the well-formedness the
//! renderer needs. The public theorems at the end of the module state the
//! library's headline guarantees.

use crate::ast::{EventLineV, KeyIdV, LineV};
use crate::chars::{count_while, in_cls, lemma_count_while, lemma_count_while_concat, Cls};
use crate::grammar::{
    canonical_comment, flag_char, normalize_line, normalize_lines, rnd_comment, rnd_event,
    rnd_key_id, rnd_key_list, rnd_line, rnd_lines,
    rnd_sep_tail, sp_and_rest, sp_bin_field, sp_blank, sp_comment, sp_eol, sp_event,
    sp_event_ids, sp_event_tail, sp_flag_field, sp_flag_field3, sp_hex, sp_key_alias,
    sp_key_and, sp_key_field, sp_key_field3, sp_key_id, sp_key_one, sp_key_or, sp_line, sp_lines,
    sp_name, sp_or_operand, sp_or_rest, tame_line, tame_lines, trim, trim_end,
    wf_alias_name, wf_and, wf_and_child, wf_comment_text, wf_event, wf_event_name,
    wf_event_name_loose, wf_hex, wf_key_id, wf_line, wf_line_loose, wf_lines,
    wf_lines_loose, wf_or_operand,
};
use vstd::prelude::*;

verus! {

/// A well-formed hex literal, followed by anything that does not extend its
/// digit run, parses back to exactly itself.
pub proof fn lemma_hex_render(h: Seq<char>, t: Seq<char>)
    requires
        wf_hex(h),
        t.len() == 0 || !in_cls(Cls::HexDigit, t[0]),
    ensures
        sp_hex(h + t) == Some((h, h.len() as nat)),
{
    let s = h + t;
    assert(s[0] == h[0]);
    assert(count_while(Cls::SpaceTab, s) == 0);
    assert(s.skip(0) =~= s);
    assert(s[1] == h[1]);
    assert(s.skip(2) =~= h.skip(2) + t);
    assert forall|k: int| 0 <= k < h.skip(2).len() implies in_cls(
        Cls::HexDigit,
        h.skip(2)[k],
    ) by {
        assert(h.skip(2)[k] == h[k + 2]);
    }
    lemma_count_while_concat(Cls::HexDigit, h.skip(2), t);
    assert(count_while(Cls::HexDigit, s.skip(2)) == h.len() - 2);
    assert(s.subrange(0, h.len() as int) =~= h);
}

/// A joined list is its first child's rendering followed by the
/// separator-prefixed tail.
pub proof fn lemma_rnd_key_list_split(ks: Seq<KeyIdV>, sep: char)
    requires
        ks.len() >= 1,
    ensures
        rnd_key_list(ks, sep) == rnd_key_id(ks[0]) + rnd_sep_tail(ks.drop_first(), sep),
    decreases ks.len(),
{
    if ks.len() == 1 {
        assert(rnd_sep_tail(ks.drop_first(), sep) =~= Seq::<char>::empty());
        assert(rnd_key_id(ks[0]) + Seq::<char>::empty() =~= rnd_key_id(ks[0]));
    } else {
        assert(rnd_key_list(ks, sep) == rnd_key_id(ks[0]) + seq![sep] + rnd_key_list(
            ks.drop_first(),
            sep,
        ));
        lemma_rnd_key_list_split(ks.drop_first(), sep);
        assert(ks.drop_first().len() >= 1);
        assert(rnd_sep_tail(ks.drop_first(), sep) == seq![sep] + rnd_key_id(ks.drop_first()[0])
            + rnd_sep_tail(ks.drop_first().drop_first(), sep));
        assert(rnd_key_id(ks[0]) + rnd_sep_tail(ks.drop_first(), sep) =~= rnd_key_id(ks[0])
            + seq![sep] + rnd_key_list(ks.drop_first(), sep));
    }
}

/// The rendering of a non-alias well-formed key identifier starts with `0`
/// (the first character of a hex literal) and is at least three characters.
pub proof fn lemma_rnd_key_id_first(k: KeyIdV)
    requires
        wf_key_id(k),
        !(k is Alias),
    ensures
        rnd_key_id(k).len() >= 3,
        rnd_key_id(k)[0] == '0',
    decreases k,
{
    match k {
        KeyIdV::One(h) => {},
        KeyIdV::And(ks) => {
            lemma_rnd_key_list_split(ks, '+');
            assert(wf_and_child(ks[0]));
            let h0 = rnd_key_id(ks[0]);
            assert(rnd_key_id(k)[0] == h0[0]);
        },
        KeyIdV::Or(ks) => {
            lemma_rnd_key_list_split(ks, ',');
            assert(wf_or_operand(ks[0]));
            let o0 = ks[0];
            if wf_and_child(o0) {
                assert(rnd_key_id(k)[0] == rnd_key_id(o0)[0]);
            } else {
                lemma_rnd_key_id_first(o0);
                assert(rnd_key_id(k)[0] == rnd_key_id(o0)[0]);
            }
        },
        KeyIdV::Alias(_) => {},
    }
}

/// The separator-prefixed tail of an and-group parses back to exactly its
/// children when followed by a tab or comma.
#[verifier::rlimit(100)]
pub proof fn lemma_and_rest_render(ks: Seq<KeyIdV>, t: Seq<char>)
    requires
        forall|i: int| 0 <= i < ks.len() ==> wf_and_child(#[trigger] ks[i]),
        t.len() > 0,
        t[0] == '\t' || t[0] == ',',
    ensures
        sp_and_rest(rnd_sep_tail(ks, '+') + t) == (ks, rnd_sep_tail(ks, '+').len() as nat),
    decreases ks.len(),
{
    if ks.len() == 0 {
        assert(rnd_sep_tail(ks, '+') + t =~= t);
        assert(sp_and_rest(t) == (Seq::<KeyIdV>::empty(), 0nat));
        assert(ks =~= Seq::<KeyIdV>::empty());
    } else {
        let h = rnd_key_id(ks[0]);
        assert(wf_and_child(ks[0]));
        let hex = ks[0]->One_0;
        assert(h == hex);
        let tail = rnd_sep_tail(ks.drop_first(), '+');
        let s = rnd_sep_tail(ks, '+') + t;
        assert(rnd_sep_tail(ks, '+') == seq!['+'] + h + tail);
        assert(s =~= seq!['+'] + (h + (tail + t)));
        assert(s[0] == '+');
        assert(s.skip(1) =~= h + (tail + t));
        if ks.len() == 1 {
            assert(tail + t =~= t);
        } else {
            assert(wf_and_child(ks.drop_first()[0]));
            assert((tail + t)[0] == '+');
        }
        lemma_hex_render(hex, tail + t);
        assert(sp_hex(s.skip(1)) == Some((hex, hex.len() as nat)));
        assert(1 + hex.len() <= s.len());
        assert(s.skip(1 + hex.len() as int) =~= tail + t);
        assert forall|i: int| 0 <= i < ks.drop_first().len() implies wf_and_child(
            #[trigger] ks.drop_first()[i],
        ) by {
            assert(ks.drop_first()[i] == ks[i + 1]);
        }
        lemma_and_rest_render(ks.drop_first(), t);
        assert(seq![KeyIdV::One(hex)] + ks.drop_first() =~= ks);
        assert(sp_and_rest(s).1 == 1 + hex.len() + tail.len());
        assert(rnd_sep_tail(ks, '+').len() == 1 + hex.len() + tail.len());
    }
}

/// A well-formed and-group, followed by a tab or comma, parses back to
/// exactly itself.
#[verifier::rlimit(100)]
pub proof fn lemma_key_and_render(k: KeyIdV, t: Seq<char>)
    requires
        wf_and(k),
        t.len() > 0,
        t[0] == '\t' || t[0] == ',',
    ensures
        sp_key_and(rnd_key_id(k) + t) == Some((k, rnd_key_id(k).len() as nat)),
{
    let ks = k->And_0;
    lemma_rnd_key_list_split(ks, '+');
    assert(wf_and_child(ks[0]));
    let hex = ks[0]->One_0;
    let tail = rnd_sep_tail(ks.drop_first(), '+');
    let s = rnd_key_id(k) + t;
    assert(s =~= hex + (tail + t));
    assert(ks.drop_first().len() >= 1);
    assert(wf_and_child(ks.drop_first()[0]));
    assert((tail + t)[0] == '+');
    lemma_hex_render(hex, tail + t);
    assert(s.skip(hex.len() as int) =~= tail + t);
    assert forall|i: int| 0 <= i < ks.drop_first().len() implies wf_and_child(
        #[trigger] ks.drop_first()[i],
    ) by {
        assert(ks.drop_first()[i] == ks[i + 1]);
    }
    lemma_and_rest_render(ks.drop_first(), t);
    assert(seq![KeyIdV::One(hex)] + ks.drop_first() =~= ks);
    assert(rnd_key_id(k).len() == hex.len() + tail.len());
}

/// A bare hex literal followed by a tab or comma is not an and-group (there
/// is no `+` to continue with), and parses as a single literal.
pub proof fn lemma_key_one_render(h: Seq<char>, t: Seq<char>)
    requires
        wf_hex(h),
        t.len() > 0,
        t[0] == '\t' || t[0] == ',',
    ensures
        sp_key_and(h + t) == None::<(KeyIdV, nat)>,
        sp_key_one(h + t) == Some((KeyIdV::One(h), h.len() as nat)),
{
    let s = h + t;
    lemma_hex_render(h, t);
    assert(s.skip(h.len() as int) =~= t);
    assert(sp_and_rest(t) == (Seq::<KeyIdV>::empty(), 0nat));
}

/// An or-group operand (an and-group or a single literal), followed by a tab
/// or comma, parses back to exactly itself.
#[verifier::rlimit(100)]
pub proof fn lemma_operand_render(k: KeyIdV, t: Seq<char>)
    requires
        wf_or_operand(k),
        t.len() > 0,
        t[0] == '\t' || t[0] == ',',
    ensures
        sp_or_operand(rnd_key_id(k) + t) == Some((k, rnd_key_id(k).len() as nat)),
{
    if wf_and_child(k) {
        lemma_key_one_render(k->One_0, t);
    } else {
        lemma_key_and_render(k, t);
    }
}

/// The separator-prefixed tail of an or-group parses back to exactly its
/// operands when followed by a tab.
#[verifier::rlimit(100)]
pub proof fn lemma_or_rest_render(ks: Seq<KeyIdV>, t: Seq<char>)
    requires
        forall|i: int| 0 <= i < ks.len() ==> wf_or_operand(#[trigger] ks[i]),
        t.len() > 0,
        t[0] == '\t',
    ensures
        sp_or_rest(rnd_sep_tail(ks, ',') + t) == (ks, rnd_sep_tail(ks, ',').len() as nat),
    decreases ks.len(),
{
    if ks.len() == 0 {
        assert(rnd_sep_tail(ks, ',') + t =~= t);
        assert(sp_or_rest(t) == (Seq::<KeyIdV>::empty(), 0nat));
        assert(ks =~= Seq::<KeyIdV>::empty());
    } else {
        let r0 = rnd_key_id(ks[0]);
        let tail = rnd_sep_tail(ks.drop_first(), ',');
        let s = rnd_sep_tail(ks, ',') + t;
        assert(s =~= seq![','] + (r0 + (tail + t)));
        assert(s[0] == ',');
        assert(s.skip(1) =~= r0 + (tail + t));
        if ks.len() == 1 {
            assert(tail + t =~= t);
        } else {
            assert((tail + t)[0] == ',');
        }
        assert(wf_or_operand(ks[0]));
        lemma_operand_render(ks[0], tail + t);
        assert(1 + r0.len() <= s.len());
        assert(s.skip(1 + r0.len() as int) =~= tail + t);
        assert forall|i: int| 0 <= i < ks.drop_first().len() implies wf_or_operand(
            #[trigger] ks.drop_first()[i],
        ) by {
            assert(ks.drop_first()[i] == ks[i + 1]);
        }
        lemma_or_rest_render(ks.drop_first(), t);
        assert(seq![ks[0]] + ks.drop_first() =~= ks);
        assert(rnd_sep_tail(ks, ',').len() == 1 + r0.len() + tail.len());
    }
}

/// A well-formed or-group, followed by a tab, parses back to exactly itself.
#[verifier::rlimit(100)]
pub proof fn lemma_key_or_render(k: KeyIdV, t: Seq<char>)
    requires
        wf_key_id(k),
        k is Or,
        t.len() > 0,
        t[0] == '\t',
    ensures
        sp_key_or(rnd_key_id(k) + t) == Some((k, rnd_key_id(k).len() as nat)),
{
    let ks = k->Or_0;
    lemma_rnd_key_list_split(ks, ',');
    let r0 = rnd_key_id(ks[0]);
    let tail = rnd_sep_tail(ks.drop_first(), ',');
    let s = rnd_key_id(k) + t;
    assert(s =~= r0 + (tail + t));
    assert(ks.drop_first().len() >= 1);
    assert((tail + t)[0] == ',');
    assert(wf_or_operand(ks[0]));
    lemma_operand_render(ks[0], tail + t);
    assert(s.skip(r0.len() as int) =~= tail + t);
    assert forall|i: int| 0 <= i < ks.drop_first().len() implies wf_or_operand(
        #[trigger] ks.drop_first()[i],
    ) by {
        assert(ks.drop_first()[i] == ks[i + 1]);
    }
    lemma_or_rest_render(ks.drop_first(), t);
    assert(seq![ks[0]] + ks.drop_first() =~= ks);
    assert(rnd_key_id(k).len() == r0.len() + tail.len());
}

/// A lone operand followed by a tab is not an or-group: there is no comma to
/// continue with.
#[verifier::rlimit(100)]
pub proof fn lemma_key_or_on_operand_none(k: KeyIdV, t: Seq<char>)
    requires
        wf_or_operand(k),
        t.len() > 0,
        t[0] == '\t',
    ensures
        sp_key_or(rnd_key_id(k) + t) == None::<(KeyIdV, nat)>,
{
    let s = rnd_key_id(k) + t;
    lemma_operand_render(k, t);
    assert(s.skip(rnd_key_id(k).len() as int) =~= t);
    assert(sp_or_rest(t) == (Seq::<KeyIdV>::empty(), 0nat));
}

/// A well-formed alias, followed by a tab, parses back to exactly itself.
pub proof fn lemma_key_alias_render(a: Seq<char>, t: Seq<char>)
    requires
        wf_alias_name(a),
        t.len() > 0,
        t[0] == '\t',
    ensures
        sp_key_alias(rnd_key_id(KeyIdV::Alias(a)) + t) == Some(
            (KeyIdV::Alias(a), (3 + a.len()) as nat),
        ),
{
    let s = rnd_key_id(KeyIdV::Alias(a)) + t;
    assert(s =~= seq!['!', '0', ','] + (a + t));
    assert(s[0] == '!');
    assert(s[1] == '0');
    assert(s[2] == ',');
    assert(s.skip(3) =~= a + t);
    assert forall|k: int| 0 <= k < a.len() implies in_cls(Cls::NonTab, a[k]) by {
        assert(a[k] != '\t');
    }
    lemma_count_while_concat(Cls::NonTab, a, t);
    assert((a + t).subrange(0, a.len() as int) =~= a);
}

/// A well-formed key identifier, followed by a tab, parses back (through the
/// full alternation: alias, or-group, and-group, one) to exactly itself.
#[verifier::rlimit(100)]
pub proof fn lemma_key_id_render(k: KeyIdV, t: Seq<char>)
    requires
        wf_key_id(k),
        t.len() > 0,
        t[0] == '\t',
    ensures
        sp_key_id(rnd_key_id(k) + t) == Some((k, rnd_key_id(k).len() as nat)),
{
    reveal(crate::grammar::sp_key_id);
    let s = rnd_key_id(k) + t;
    match k {
        KeyIdV::Alias(a) => {
            lemma_key_alias_render(a, t);
        },
        KeyIdV::One(h) => {
            lemma_rnd_key_id_first(k);
            assert(s[0] == '0');
            assert(sp_key_alias(s) == None::<(KeyIdV, nat)>);
            lemma_key_or_on_operand_none(k, t);
            lemma_key_one_render(h, t);
        },
        KeyIdV::And(_) => {
            lemma_rnd_key_id_first(k);
            assert(s[0] == '0');
            assert(sp_key_alias(s) == None::<(KeyIdV, nat)>);
            lemma_key_or_on_operand_none(k, t);
            lemma_key_and_render(k, t);
        },
        KeyIdV::Or(_) => {
            lemma_rnd_key_id_first(k);
            assert(s[0] == '0');
            assert(sp_key_alias(s) == None::<(KeyIdV, nat)>);
            lemma_key_or_render(k, t);
        },
    }
}

/// A tab-separated key field parses back to its key identifier.
#[verifier::rlimit(100)]
pub proof fn lemma_key_field_render(k: KeyIdV, t: Seq<char>)
    requires
        wf_key_id(k),
        t.len() > 0,
        t[0] == '\t',
    ensures
        sp_key_field(seq!['\t'] + rnd_key_id(k) + t) == Some(
            (k, (1 + rnd_key_id(k).len()) as nat),
        ),
{
    let r = rnd_key_id(k);
    let s = seq!['\t'] + r + t;
    if k is Alias {
        assert(r == seq!['!', '0', ','] + k->Alias_0);
        assert(r[0] == '!');
    } else {
        lemma_rnd_key_id_first(k);
    }
    assert(s[0] == '\t');
    assert(s.drop_first() =~= r + t);
    assert((r + t)[0] == r[0]);
    assert(count_while(Cls::Tab, r + t) == 0);
    assert(count_while(Cls::Tab, s) == 1);
    assert(s.skip(1) =~= r + t);
    lemma_key_id_render(k, t);
}

/// A tab-separated flag field parses back to its flag.
pub proof fn lemma_flag_field_render(b: bool, t: Seq<char>)
    ensures
        sp_flag_field(seq!['\t', flag_char(b)] + t) == Some((b, 2nat)),
{
    let s = seq!['\t', flag_char(b)] + t;
    assert(s[0] == '\t');
    assert(s[1] == flag_char(b));
    assert(s.drop_first() =~= seq![flag_char(b)] + t);
    assert(s.drop_first()[0] == flag_char(b));
    assert(count_while(Cls::Tab, s.drop_first()) == 0);
    assert(count_while(Cls::Tab, s) == 1);
    assert(s.skip(1) =~= seq![flag_char(b)] + t);
    assert(s.skip(1)[0] == flag_char(b));
}

/// How three rendered tab-separated fields decompose.
#[verifier::rlimit(100)]
proof fn lemma_field3_layout(r1: Seq<char>, r2: Seq<char>, r3: Seq<char>, t: Seq<char>)
    ensures
        seq!['\t'] + r1 + seq!['\t'] + r2 + seq!['\t'] + r3 + t == seq!['\t'] + r1 + (seq![
            '\t',
        ] + r2 + (seq!['\t'] + r3 + t)),
        (seq!['\t'] + r1 + seq!['\t'] + r2 + seq!['\t'] + r3 + t).skip(1 + r1.len() as int)
            == seq!['\t'] + r2 + (seq!['\t'] + r3 + t),
        (seq!['\t'] + r1 + seq!['\t'] + r2 + seq!['\t'] + r3 + t).skip(
            (2 + r1.len() + r2.len()) as int,
        ) == seq!['\t'] + r3 + t,
        (seq!['\t'] + r3 + t)[0] == '\t',
{
    let s = seq!['\t'] + r1 + seq!['\t'] + r2 + seq!['\t'] + r3 + t;
    let t3 = seq!['\t'] + r3 + t;
    let t2 = seq!['\t'] + r2 + t3;
    assert(s =~= seq!['\t'] + r1 + t2);
    assert(s.skip(1 + r1.len() as int) =~= t2);
    assert(s.skip((2 + r1.len() + r2.len()) as int) =~= t3);
    assert(t3[0] == '\t');
}

/// Three tab-separated key fields parse back to their identifiers.
#[verifier::rlimit(100)]
pub proof fn lemma_key_field3_render(k1: KeyIdV, k2: KeyIdV, k3: KeyIdV, t: Seq<char>)
    requires
        wf_key_id(k1),
        wf_key_id(k2),
        wf_key_id(k3),
        t.len() > 0,
        t[0] == '\t',
    ensures
        ({
            let r1 = rnd_key_id(k1);
            let r2 = rnd_key_id(k2);
            let r3 = rnd_key_id(k3);
            let s = seq!['\t'] + r1 + seq!['\t'] + r2 + seq!['\t'] + r3 + t;
            sp_key_field3(s) == Some(((k1, k2, k3), (3 + r1.len() + r2.len() + r3.len()) as nat))
        }),
{
    let r1 = rnd_key_id(k1);
    let r2 = rnd_key_id(k2);
    let r3 = rnd_key_id(k3);
    let s = seq!['\t'] + r1 + seq!['\t'] + r2 + seq!['\t'] + r3 + t;
    let t3 = seq!['\t'] + r3 + t;
    let t2 = seq!['\t'] + r2 + t3;
    lemma_field3_layout(r1, r2, r3, t);
    assert(t2[0] == '\t') by {
        assert(t2 =~= seq!['\t'] + (r2 + t3));
    }
    lemma_key_field_render(k1, t2);
    lemma_key_field_render(k2, t3);
    lemma_key_field_render(k3, t);
    assert(sp_key_field(s) == Some((k1, (1 + r1.len()) as nat)));
    assert(sp_key_field(s.skip(1 + r1.len() as int)) == Some((k2, (1 + r2.len()) as nat)));
    assert(sp_key_field(s.skip((2 + r1.len() + r2.len()) as int)) == Some(
        (k3, (1 + r3.len()) as nat),
    ));
}

/// Three tab-separated flag fields parse back to their flags.
#[verifier::rlimit(100)]
pub proof fn lemma_flag_field3_render(b1: bool, b2: bool, b3: bool, t: Seq<char>)
    ensures
        sp_flag_field3(
            seq!['\t', flag_char(b1), '\t', flag_char(b2), '\t', flag_char(b3)] + t,
        ) == Some(((b1, b2, b3), 6nat)),
{
    let s = seq!['\t', flag_char(b1), '\t', flag_char(b2), '\t', flag_char(b3)] + t;
    let t2 = seq!['\t', flag_char(b2), '\t', flag_char(b3)] + t;
    let t3 = seq!['\t', flag_char(b3)] + t;
    assert(s =~= seq!['\t', flag_char(b1)] + t2);
    lemma_flag_field_render(b1, t2);
    assert(s.skip(2) =~= t2);
    assert(t2 =~= seq!['\t', flag_char(b2)] + t3);
    lemma_flag_field_render(b2, t3);
    assert(t2.skip(2) =~= t3);
    assert(s.skip(4) =~= t3);
    lemma_flag_field_render(b3, t);
}

/// The tail of a rendered event line when the binary flag is present.
#[verifier::rlimit(100)]
proof fn lemma_event_tail_render_some(
    b1: bool,
    b2: bool,
    b3: bool,
    h: Seq<char>,
    rest: Seq<char>,
)
    requires
        wf_hex(h),
    ensures
        ({
            let s = seq!['\t', flag_char(b1), '\t', flag_char(b2), '\t', flag_char(b3), '\t']
                + h + seq!['\n'] + rest;
            sp_event_tail(s) == Some(((b1, b2, b3, Some(h)), (s.len() - rest.len()) as nat))
        }),
{
    let s = seq!['\t', flag_char(b1), '\t', flag_char(b2), '\t', flag_char(b3), '\t'] + h
        + seq!['\n'] + rest;
    let nl = seq!['\n'] + rest;
    let tp = seq!['\t'] + h + nl;
    assert(s =~= seq!['\t', flag_char(b1), '\t', flag_char(b2), '\t', flag_char(b3)] + tp);
    lemma_flag_field3_render(b1, b2, b3, tp);
    assert(s.skip(6) =~= tp);
    assert(tp[0] == '\t');
    assert(tp.drop_first() =~= h + nl);
    assert((h + nl)[0] == h[0]);
    assert(count_while(Cls::Tab, tp.drop_first()) == 0);
    assert(count_while(Cls::Tab, tp) == 1);
    assert(tp.skip(1) =~= h + nl);
    assert(nl[0] == '\n');
    lemma_hex_render(h, nl);
    assert(sp_bin_field(tp) == (Some(h), (1 + h.len()) as nat));
    assert(s.skip((6 + 1 + h.len()) as int) =~= nl);
    assert(count_while(Cls::SpaceTab, nl) == 0);
    assert(nl.skip(0) =~= nl);
    assert(sp_eol(nl) == 1nat);
    assert(s.len() - rest.len() == 8 + h.len());
}

/// The tail of a rendered event line when the binary flag is absent: the
/// eighth field is empty, so a tab directly precedes the terminator.
#[verifier::rlimit(100)]
proof fn lemma_event_tail_render_none(b1: bool, b2: bool, b3: bool, rest: Seq<char>)
    ensures
        ({
            let s = seq!['\t', flag_char(b1), '\t', flag_char(b2), '\t', flag_char(b3), '\t']
                + Seq::<char>::empty() + seq!['\n'] + rest;
            sp_event_tail(s) == Some(
                ((b1, b2, b3, None::<Seq<char>>), (s.len() - rest.len()) as nat),
            )
        }),
{
    let s = seq!['\t', flag_char(b1), '\t', flag_char(b2), '\t', flag_char(b3), '\t']
        + Seq::<char>::empty() + seq!['\n'] + rest;
    let nl = seq!['\n'] + rest;
    let tp = seq!['\t', '\n'] + rest;
    assert(s =~= seq!['\t', flag_char(b1), '\t', flag_char(b2), '\t', flag_char(b3)] + tp);
    lemma_flag_field3_render(b1, b2, b3, tp);
    assert(s.skip(6) =~= tp);
    assert(tp[0] == '\t');
    assert(tp.drop_first() =~= nl);
    assert(nl[0] == '\n');
    assert(count_while(Cls::Tab, nl) == 0);
    assert(count_while(Cls::Tab, tp) == 1);
    assert(tp.skip(1) =~= nl);
    assert(count_while(Cls::SpaceTab, nl) == 0);
    assert(nl.skip(0) =~= nl);
    assert(sp_hex(nl) == None::<(Seq<char>, nat)>);
    assert(sp_bin_field(tp) == (None::<Seq<char>>, 0nat));
    assert(tp.skip(0) =~= tp);
    assert(count_while(Cls::SpaceTab, tp) == 1);
    assert(s.skip(7) =~= nl);
    assert(sp_eol(nl) == 1nat);
    assert(s.len() - rest.len() == 8);
}

/// The tail of a rendered event line (flags, optional binary flag, `\n`)
/// parses back to its values and consumes through the terminator.
pub proof fn lemma_event_tail_render(
    b1: bool,
    b2: bool,
    b3: bool,
    bin: Option<Seq<char>>,
    rest: Seq<char>,
)
    requires
        bin matches Some(h) ==> wf_hex(h),
    ensures
        ({
            let binseq = match bin {
                Some(h) => h,
                None => Seq::<char>::empty(),
            };
            let s = seq!['\t', flag_char(b1), '\t', flag_char(b2), '\t', flag_char(b3), '\t']
                + binseq + seq!['\n'] + rest;
            sp_event_tail(s) == Some(((b1, b2, b3, bin), (s.len() - rest.len()) as nat))
        }),
{
    match bin {
        Some(h) => {
            lemma_event_tail_render_some(b1, b2, b3, h, rest);
        },
        None => {
            lemma_event_tail_render_none(b1, b2, b3, rest);
        },
    }
}

/// The tail part of a rendered event line: flags, binary flag, terminator,
/// and whatever follows the line.
spec fn ev_tail_part(e: EventLineV, rest: Seq<char>) -> Seq<char> {
    seq![
        '\t',
        flag_char(e.remap_key),
        '\t',
        flag_char(e.remap_mouse),
        '\t',
        flag_char(e.remap_gamepad),
        '\t',
    ] + (match e.event_binary_flag {
        Some(h) => h,
        None => Seq::<char>::empty(),
    }) + seq!['\n'] + rest
}

/// How a rendered event line decomposes around its name and key fields.
#[verifier::rlimit(100)]
proof fn lemma_event_layout(e: EventLineV, rest: Seq<char>)
    ensures
        rnd_event(e) + rest == e.event_name + (seq!['\t'] + rnd_key_id(e.keyboard_id)
            + seq!['\t'] + rnd_key_id(e.mouse_id) + seq!['\t'] + rnd_key_id(e.gamepad_id)
            + ev_tail_part(e, rest)),
        (rnd_event(e) + rest).skip(e.event_name.len() as int) == seq!['\t'] + rnd_key_id(
            e.keyboard_id,
        ) + seq!['\t'] + rnd_key_id(e.mouse_id) + seq!['\t'] + rnd_key_id(e.gamepad_id)
            + ev_tail_part(e, rest),
        (rnd_event(e) + rest).skip(
            (e.event_name.len() + 3 + rnd_key_id(e.keyboard_id).len() + rnd_key_id(
                e.mouse_id,
            ).len() + rnd_key_id(e.gamepad_id).len()) as int,
        ) == ev_tail_part(e, rest),
        rnd_event(e).len() == e.event_name.len() + 3 + rnd_key_id(e.keyboard_id).len()
            + rnd_key_id(e.mouse_id).len() + rnd_key_id(e.gamepad_id).len() + (ev_tail_part(
            e,
            rest,
        ).len() - rest.len()),
{
    let s = rnd_event(e) + rest;
    let ids_part = seq!['\t'] + rnd_key_id(e.keyboard_id) + seq!['\t'] + rnd_key_id(e.mouse_id)
        + seq!['\t'] + rnd_key_id(e.gamepad_id) + ev_tail_part(e, rest);
    assert(s =~= e.event_name + ids_part);
    assert(s.skip(e.event_name.len() as int) =~= ids_part);
    assert(s.skip(
        (e.event_name.len() + 3 + rnd_key_id(e.keyboard_id).len() + rnd_key_id(e.mouse_id).len()
            + rnd_key_id(e.gamepad_id).len()) as int,
    ) =~= ev_tail_part(e, rest));
}

/// The head of a rendered event line parses back to its name and key
/// identifiers, leaving exactly the tail part.
#[verifier::rlimit(100)]
proof fn lemma_event_render_ids(e: EventLineV, rest: Seq<char>)
    requires
        wf_event(e),
    ensures
        sp_event_ids(rnd_event(e) + rest) == Some(
            (
                (e.event_name, e.keyboard_id, e.mouse_id, e.gamepad_id),
                (e.event_name.len() + 3 + rnd_key_id(e.keyboard_id).len() + rnd_key_id(
                    e.mouse_id,
                ).len() + rnd_key_id(e.gamepad_id).len()) as nat,
            ),
        ),
{
    let name = e.event_name;
    let r1 = rnd_key_id(e.keyboard_id);
    let r2 = rnd_key_id(e.mouse_id);
    let r3 = rnd_key_id(e.gamepad_id);
    let tailpart = ev_tail_part(e, rest);
    let ids_part = seq!['\t'] + r1 + seq!['\t'] + r2 + seq!['\t'] + r3 + tailpart;
    let s = rnd_event(e) + rest;
    lemma_event_layout(e, rest);
    assert(tailpart[0] == '\t');
    assert forall|k: int| 0 <= k < name.len() implies in_cls(Cls::NonTab, name[k]) by {
        assert(name[k] != '\t');
    }
    assert(ids_part[0] == '\t');
    lemma_count_while_concat(Cls::NonTab, name, ids_part);
    assert(count_while(Cls::NonTab, s) == name.len());
    assert(s.subrange(0, name.len() as int) =~= name);
    assert(sp_name(s) == Some((name, name.len() as nat)));
    lemma_key_field3_render(e.keyboard_id, e.mouse_id, e.gamepad_id, tailpart);
}

/// A rendered event line, followed by anything at all, parses back to exactly
/// its record and consumes exactly its own characters.
#[verifier::rlimit(100)]
pub proof fn lemma_event_render(e: EventLineV, rest: Seq<char>)
    requires
        wf_event(e),
    ensures
        sp_event(rnd_event(e) + rest) == Some(
            (LineV::EventLine(e), rnd_event(e).len() as nat),
        ),
{
    let r1 = rnd_key_id(e.keyboard_id);
    let r2 = rnd_key_id(e.mouse_id);
    let r3 = rnd_key_id(e.gamepad_id);
    let tailpart = ev_tail_part(e, rest);
    let s = rnd_event(e) + rest;
    let idn = (e.event_name.len() + 3 + r1.len() + r2.len() + r3.len()) as nat;
    lemma_event_layout(e, rest);
    lemma_event_render_ids(e, rest);
    lemma_event_tail_render(
        e.remap_key,
        e.remap_mouse,
        e.remap_gamepad,
        e.event_binary_flag,
        rest,
    );
    assert(sp_event_tail(tailpart) == Some(
        (
            (e.remap_key, e.remap_mouse, e.remap_gamepad, e.event_binary_flag),
            (tailpart.len() - rest.len()) as nat,
        ),
    ));
    assert(s.skip(idn as int) == tailpart);
    assert(rnd_event(e).len() == idn + (tailpart.len() - rest.len()));
}

/// `trim_end` keeps a prefix: same characters, everything dropped was
/// whitespace, and what remains does not end in whitespace.
proof fn lemma_trim_end_props(s: Seq<char>)
    ensures
        trim_end(s).len() <= s.len(),
        forall|i: int| 0 <= i < trim_end(s).len() ==> trim_end(s)[i] == s[i],
        trim_end(s).len() > 0 ==> !in_cls(Cls::Ws, trim_end(s)[trim_end(s).len() - 1]),
        forall|k: int| trim_end(s).len() <= k < s.len() ==> in_cls(Cls::Ws, s[k]),
    decreases s.len(),
{
    if s.len() > 0 && in_cls(Cls::Ws, s[s.len() - 1]) {
        lemma_trim_end_props(s.drop_last());
        assert(forall|i: int| 0 <= i < s.len() - 1 ==> s.drop_last()[i] == s[i]);
    }
}

/// `trim` keeps a contiguous middle slice of its input, and what remains
/// neither starts nor ends in whitespace.
pub proof fn lemma_trim_props(s: Seq<char>)
    ensures
        trim(s).len() + count_while(Cls::Ws, s) <= s.len(),
        forall|i: int|
            0 <= i < trim(s).len() ==> trim(s)[i] == s[count_while(Cls::Ws, s) + i],
        trim(s).len() > 0 ==> !in_cls(Cls::Ws, trim(s)[0]),
        trim(s).len() > 0 ==> !in_cls(Cls::Ws, trim(s)[trim(s).len() - 1]),
{
    let a = count_while(Cls::Ws, s);
    lemma_count_while(Cls::Ws, s);
    let r = s.skip(a as int);
    lemma_trim_end_props(r);
    assert(forall|i: int| 0 <= i < r.len() ==> r[i] == s[a + i]);
    assert forall|i: int| 0 <= i < trim(s).len() implies trim(s)[i] == s[a + i] by {
        assert(trim(s)[i] == r[i]);
    }
    if trim(s).len() > 0 {
        assert(trim(s)[0] == r[0]);
        assert(r[0] == s[a as int]);
    }
}

/// Re-trimming a space followed by already-trimmed text gives the trimmed
/// text back: normalization of a comment is idempotent.
pub proof fn lemma_trim_space_trim(t: Seq<char>)
    ensures
        trim(seq![' '] + trim(t)) == trim(t),
{
    let u = trim(t);
    lemma_trim_props(t);
    let sp = seq![' '] + u;
    assert(sp[0] == ' ');
    assert(sp.drop_first() =~= u);
    if u.len() == 0 {
        assert(count_while(Cls::Ws, u) == 0);
        assert(count_while(Cls::Ws, sp) == 1);
        assert(sp.skip(1) =~= u);
        assert(trim_end(u) == u);
    } else {
        assert(!in_cls(Cls::Ws, u[0]));
        assert(count_while(Cls::Ws, u) == 0);
        assert(count_while(Cls::Ws, sp) == 1);
        assert(sp.skip(1) =~= u);
        assert(u[u.len() - 1] == u.last());
        assert(trim_end(u) == u);
    }
}

/// A rendered comment, followed by anything at all, parses back to the
/// normalized comment text: one space, then the trimmed text.
#[verifier::rlimit(100)]
pub proof fn lemma_comment_render(t: Seq<char>, rest: Seq<char>)
    requires
        wf_comment_text(t),
    ensures
        sp_comment(rnd_comment(t) + rest) == Some(
            (LineV::Comment(seq![' '] + trim(t)), rnd_comment(t).len() as nat),
        ),
{
    let u = trim(t);
    lemma_trim_props(t);
    let body = seq![' '] + u;
    let nl = seq!['\n'] + rest;
    let s = rnd_comment(t) + rest;
    assert(s =~= seq!['/', '/'] + (body + nl));
    assert(s[0] == '/');
    assert(s[1] == '/');
    assert(s.skip(2) =~= body + nl);
    assert forall|k: int| 0 <= k < body.len() implies in_cls(Cls::NonEol, body[k]) by {
        if k == 0 {
            assert(body[0] == ' ');
        } else {
            assert(body[k] == u[k - 1]);
            assert(u[k - 1] == t[count_while(Cls::Ws, t) + k - 1]);
        }
    }
    assert(nl[0] == '\n');
    lemma_count_while_concat(Cls::NonEol, body, nl);
    assert(count_while(Cls::NonEol, s.skip(2)) == body.len());
    let d = body.len();
    assert(s.len() == 2 + d + 1 + rest.len());
    assert(s[(2 + d) as int] == '\n');
    assert(s.subrange(2, (2 + d) as int) =~= body);
    assert(rnd_comment(t).len() == 3 + d);
}

/// A rendered blank line parses back to one blank line exactly, provided what
/// follows does not begin with whitespace.
pub proof fn lemma_blank_render(rest: Seq<char>)
    requires
        rest.len() == 0 || !in_cls(Cls::Ws, rest[0]),
    ensures
        sp_blank(seq!['\n'] + rest) == Some((LineV::BlankLine, 1nat)),
{
    assert(in_cls(Cls::Ws, '\n'));
    lemma_count_while_concat(Cls::Ws, seq!['\n'], rest);
}

/// A rendered line is never empty; it starts with whitespace exactly when it
/// is a blank line.
pub proof fn lemma_rnd_line_first(l: LineV)
    requires
        wf_line_loose(l),
    ensures
        rnd_line(l).len() >= 1,
        !(l is BlankLine) ==> !in_cls(Cls::Ws, rnd_line(l)[0]),
{
    match l {
        LineV::Comment(t) => {
            assert(rnd_line(l) =~= seq!['/', '/', ' '] + trim(t) + seq!['\n']);
            assert(rnd_line(l)[0] == '/');
        },
        LineV::EventLine(e) => {
            let name = e.event_name;
            lemma_event_layout(e, Seq::empty());
            assert(rnd_event(e) + Seq::<char>::empty() =~= rnd_event(e));
            assert(rnd_event(e)[0] == name[0]);
        },
        LineV::BlankLine => {},
    }
}

/// A rendered line, followed by text that cannot extend it (for a blank line:
/// text not starting with whitespace), parses back through the full line
/// alternation to its normalized form.
#[verifier::rlimit(100)]
pub proof fn lemma_line_render(l: LineV, rest: Seq<char>)
    requires
        wf_line_loose(l),
        tame_line(l),
        l is BlankLine ==> rest.len() == 0 || !in_cls(Cls::Ws, rest[0]),
    ensures
        sp_line(rnd_line(l) + rest) == Some((normalize_line(l), rnd_line(l).len() as nat)),
{
    let s = rnd_line(l) + rest;
    match l {
        LineV::BlankLine => {
            assert(s =~= seq!['\n'] + rest);
            lemma_blank_render(rest);
        },
        LineV::Comment(t) => {
            assert(s =~= seq!['/', '/'] + ((seq![' '] + trim(t)) + (seq!['\n'] + rest)));
            assert(s[0] == '/');
            assert(!in_cls(Cls::Ws, s[0]));
            assert(count_while(Cls::Ws, s) == 0);
            lemma_comment_render(t, rest);
            assert(rnd_comment(t) + rest == s);
        },
        LineV::EventLine(e) => {
            let name = e.event_name;
            lemma_event_layout(e, rest);
            assert(s == rnd_event(e) + rest);
            assert(s[0] == name[0]);
            assert(!in_cls(Cls::Ws, s[0]));
            assert(count_while(Cls::Ws, s) == 0);
            if name.len() >= 2 {
                assert(s[1] == name[1]);
                assert(!(s[0] == '/' && s[1] == '/'));
            } else {
                assert(s[1] == '\t');
            }
            lemma_event_render(e, rest);
        },
    }
}

/// A rendered line sequence parses back, in full, to its normalized lines.
#[verifier::rlimit(100)]
pub proof fn lemma_lines_render(ls: Seq<LineV>)
    requires
        wf_lines_loose(ls),
        tame_lines(ls),
    ensures
        sp_lines(rnd_lines(ls)) == (normalize_lines(ls), rnd_lines(ls).len() as nat),
    decreases ls.len(),
{
    if ls.len() == 0 {
        let e = Seq::<char>::empty();
        assert(count_while(Cls::Ws, e) == 0);
        assert(count_while(Cls::NonTab, e) == 0);
        assert(sp_line(e) == None::<(LineV, nat)>);
        assert(normalize_lines(ls) =~= Seq::<LineV>::empty());
    } else {
        let l0 = ls[0];
        let tail = ls.drop_first();
        let rest_txt = rnd_lines(tail);
        assert(wf_line_loose(l0));
        assert(tame_line(l0));
        if l0 is BlankLine && tail.len() > 0 {
            assert(!(ls[1] is BlankLine));
            assert(tail[0] == ls[1]);
            assert(wf_line_loose(ls[1]));
            lemma_rnd_line_first(ls[1]);
            assert(rest_txt == rnd_line(tail[0]) + rnd_lines(tail.drop_first()));
            assert(rest_txt[0] == rnd_line(ls[1])[0]);
        }
        if l0 is BlankLine && tail.len() == 0 {
            assert(rest_txt =~= Seq::<char>::empty());
        }
        lemma_line_render(l0, rest_txt);
        let s = rnd_lines(ls);
        assert(s == rnd_line(l0) + rest_txt);
        lemma_rnd_line_first(l0);
        let n0 = rnd_line(l0).len();
        assert(sp_line(s) == Some((normalize_line(l0), n0 as nat)));
        assert(1 <= n0 <= s.len());
        assert(s.skip(n0 as int) =~= rest_txt);
        assert forall|i: int| 0 <= i < tail.len() implies wf_line_loose(#[trigger] tail[i])
            && tame_line(tail[i]) by {
            assert(tail[i] == ls[i + 1]);
        }
        assert forall|i: int|
            0 <= i < tail.len() - 1 implies !(#[trigger] tail[i] is BlankLine && tail[i
            + 1] is BlankLine) by {
            assert(tail[i] == ls[i + 1]);
            assert(tail[i + 1] == ls[i + 2]);
        }
        lemma_lines_render(tail);
        assert(seq![normalize_line(l0)] + normalize_lines(tail) =~= normalize_lines(ls));
    }
}

/// A parsed hex literal is well formed and consumes at most the input.
proof fn lemma_sp_hex_wf(s: Seq<char>)
    ensures
        sp_hex(s) matches Some((h, n)) ==> wf_hex(h) && 1 <= n <= s.len(),
{
    lemma_count_while(Cls::SpaceTab, s);
    let sp = count_while(Cls::SpaceTab, s);
    let r = s.skip(sp as int);
    if r.len() >= 2 && r[0] == '0' && r[1] == 'x' {
        lemma_count_while(Cls::HexDigit, r.skip(2));
        let d = count_while(Cls::HexDigit, r.skip(2));
        if d > 0 {
            let h = r.subrange(0, 2 + d as int);
            assert(h[0] == r[0]);
            assert(h[1] == r[1]);
            assert forall|i: int| 2 <= i < h.len() implies in_cls(Cls::HexDigit, h[i]) by {
                assert(h[i] == r.skip(2)[i - 2]);
            }
        }
    }
}

/// Every repetition parsed by the and-group tail is a well-formed literal.
proof fn lemma_sp_and_rest_wf(s: Seq<char>)
    ensures
        forall|i: int|
            0 <= i < sp_and_rest(s).0.len() ==> wf_and_child(#[trigger] sp_and_rest(s).0[i]),
        sp_and_rest(s).1 <= s.len(),
    decreases s.len(),
{
    if s.len() > 0 && s[0] == '+' {
        lemma_sp_hex_wf(s.skip(1));
        match sp_hex(s.skip(1)) {
            Some((h, n)) => {
                if 1 + n <= s.len() {
                    lemma_sp_and_rest_wf(s.skip(1 + n as int));
                    let (ks, m) = sp_and_rest(s.skip(1 + n as int));
                    assert forall|i: int|
                        0 <= i < sp_and_rest(s).0.len() implies wf_and_child(
                        #[trigger] sp_and_rest(s).0[i],
                    ) by {
                        if i == 0 {
                            assert(sp_and_rest(s).0[0] == KeyIdV::One(h));
                        } else {
                            assert(sp_and_rest(s).0[i] == ks[i - 1]);
                        }
                    }
                }
            },
            None => {},
        }
    }
}

/// A parsed and-group is well formed: at least two children, all literals.
proof fn lemma_sp_key_and_wf(s: Seq<char>)
    ensures
        sp_key_and(s) matches Some((k, n)) ==> wf_key_id(k) && k is And && 1 <= n <= s.len(),
{
    lemma_sp_hex_wf(s);
    match sp_hex(s) {
        Some((h, n)) => {
            if n <= s.len() {
                lemma_sp_and_rest_wf(s.skip(n as int));
                let (ks, m) = sp_and_rest(s.skip(n as int));
                if ks.len() >= 1 {
                    let all = seq![KeyIdV::One(h)] + ks;
                    assert forall|i: int| 0 <= i < all.len() implies wf_and_child(
                        #[trigger] all[i],
                    ) by {
                        if i == 0 {
                            assert(all[0] == KeyIdV::One(h));
                        } else {
                            assert(all[i] == ks[i - 1]);
                        }
                    }
                }
            }
        },
        None => {},
    }
}

/// A parsed or-group operand is an and-group or a literal, well formed.
proof fn lemma_sp_or_operand_wf(s: Seq<char>)
    ensures
        sp_or_operand(s) matches Some((k, n)) ==> wf_or_operand(k) && 1 <= n <= s.len(),
{
    lemma_sp_key_and_wf(s);
    lemma_sp_hex_wf(s);
}

/// Every repetition parsed by the or-group tail is a well-formed operand.
proof fn lemma_sp_or_rest_wf(s: Seq<char>)
    ensures
        forall|i: int|
            0 <= i < sp_or_rest(s).0.len() ==> wf_or_operand(#[trigger] sp_or_rest(s).0[i]),
        sp_or_rest(s).1 <= s.len(),
    decreases s.len(),
{
    if s.len() > 0 && s[0] == ',' {
        lemma_sp_or_operand_wf(s.skip(1));
        match sp_or_operand(s.skip(1)) {
            Some((k, n)) => {
                if 1 + n <= s.len() {
                    lemma_sp_or_rest_wf(s.skip(1 + n as int));
                    let (ks, m) = sp_or_rest(s.skip(1 + n as int));
                    assert forall|i: int|
                        0 <= i < sp_or_rest(s).0.len() implies wf_or_operand(
                        #[trigger] sp_or_rest(s).0[i],
                    ) by {
                        if i == 0 {
                            assert(sp_or_rest(s).0[0] == k);
                        } else {
                            assert(sp_or_rest(s).0[i] == ks[i - 1]);
                        }
                    }
                }
            },
            None => {},
        }
    }
}

/// A parsed or-group is well formed: at least two operands.
proof fn lemma_sp_key_or_wf(s: Seq<char>)
    ensures
        sp_key_or(s) matches Some((k, n)) ==> wf_key_id(k) && k is Or && 1 <= n <= s.len(),
{
    lemma_sp_or_operand_wf(s);
    match sp_or_operand(s) {
        Some((k0, n)) => {
            if n <= s.len() {
                lemma_sp_or_rest_wf(s.skip(n as int));
                let (ks, m) = sp_or_rest(s.skip(n as int));
                if ks.len() >= 1 {
                    let all = seq![k0] + ks;
                    assert forall|i: int| 0 <= i < all.len() implies wf_or_operand(
                        #[trigger] all[i],
                    ) by {
                        if i == 0 {
                            assert(all[0] == k0);
                        } else {
                            assert(all[i] == ks[i - 1]);
                        }
                    }
                }
            }
        },
        None => {},
    }
}

/// A parsed alias target is non-empty and tab-free.
proof fn lemma_sp_key_alias_wf(s: Seq<char>)
    ensures
        sp_key_alias(s) matches Some((k, n)) ==> wf_key_id(k) && k is Alias && 1 <= n
            <= s.len(),
{
    if s.len() >= 3 && s[0] == '!' && s[1] == '0' && s[2] == ',' {
        lemma_count_while(Cls::NonTab, s.skip(3));
        let d = count_while(Cls::NonTab, s.skip(3));
        if d > 0 {
            let a = s.skip(3).subrange(0, d as int);
            assert forall|i: int| 0 <= i < a.len() implies a[i] != '\t' by {
                assert(a[i] == s.skip(3)[i]);
            }
        }
    }
}

/// Everything the key-identifier alternation can produce is well formed: in
/// particular `And` and `Or` never hold fewer than two children, and a lone
/// hex literal parses to `One`.
pub proof fn lemma_sp_key_id_wf(s: Seq<char>)
    ensures
        sp_key_id(s) matches Some((k, n)) ==> wf_key_id(k) && 1 <= n <= s.len(),
{
    reveal(crate::grammar::sp_key_id);
    lemma_sp_key_alias_wf(s);
    lemma_sp_key_or_wf(s);
    lemma_sp_key_and_wf(s);
    lemma_sp_hex_wf(s);
}

/// Field-level bounds and well-formedness for a parsed event line.
proof fn lemma_sp_key_field_wf(s: Seq<char>)
    ensures
        sp_key_field(s) matches Some((k, n)) ==> wf_key_id(k) && 1 <= n <= s.len(),
{
    lemma_count_while(Cls::Tab, s);
    let t = count_while(Cls::Tab, s);
    if t > 0 {
        lemma_sp_key_id_wf(s.skip(t as int));
    }
}

proof fn lemma_sp_flag_field_wf(s: Seq<char>)
    ensures
        sp_flag_field(s) matches Some((b, n)) ==> 1 <= n <= s.len(),
{
    lemma_count_while(Cls::Tab, s);
}

proof fn lemma_sp_bin_field_wf(s: Seq<char>)
    ensures
        (sp_bin_field(s).0 matches Some(h) ==> wf_hex(h)),
        sp_bin_field(s).1 <= s.len(),
{
    lemma_count_while(Cls::Tab, s);
    let t = count_while(Cls::Tab, s);
    if t > 0 {
        lemma_sp_hex_wf(s.skip(t as int));
    }
}

/// A parsed event line is well formed except for its name's first character,
/// which only the line-level alternation constrains; the name is the input's
/// own prefix.
#[verifier::rlimit(100)]
proof fn lemma_sp_event_wf(s: Seq<char>)
    ensures
        sp_event(s) matches Some((l, n)) ==> {
            &&& l matches LineV::EventLine(e)
            &&& e.event_name.len() >= 1
            &&& (forall|i: int| 0 <= i < e.event_name.len() ==> e.event_name[i] != '\t')
            &&& wf_key_id(e.keyboard_id)
            &&& wf_key_id(e.mouse_id)
            &&& wf_key_id(e.gamepad_id)
            &&& (e.event_binary_flag matches Some(h) ==> wf_hex(h))
            &&& s.len() > 0 && e.event_name[0] == s[0]
            &&& 1 <= n <= s.len()
        },
{
    lemma_count_while(Cls::NonTab, s);
    let d = count_while(Cls::NonTab, s);
    if d > 0 {
        let name = s.subrange(0, d as int);
        assert forall|i: int| 0 <= i < name.len() implies name[i] != '\t' by {
            assert(name[i] == s[i]);
        }
        assert(name[0] == s[0]);
        let r1 = s.skip(d as int);
        lemma_sp_key_field_wf(r1);
        match sp_key_field(r1) {
            Some((kb, b)) => {
                let r2 = r1.skip(b as int);
                lemma_sp_key_field_wf(r2);
                match sp_key_field(r2) {
                    Some((mo, c)) => {
                        let r3 = r1.skip((b + c) as int);
                        lemma_sp_key_field_wf(r3);
                        match sp_key_field(r3) {
                            Some((gp, e4)) => {
                                let rt = s.skip((d + b + c + e4) as int);
                                lemma_sp_event_tail_bound(rt);
                            },
                            None => {},
                        }
                    },
                    None => {},
                }
            },
            None => {},
        }
    }
}

/// The tail of an event line consumes at most the input.
proof fn lemma_sp_event_tail_bound(s: Seq<char>)
    ensures
        sp_event_tail(s) matches Some((tl, n)) ==> (tl.3 matches Some(h) ==> wf_hex(h)) && n
            <= s.len(),
{
    lemma_sp_flag_field_wf(s);
    match sp_flag_field(s) {
        Some((f1, e)) => {
            lemma_sp_flag_field_wf(s.skip(e as int));
            match sp_flag_field(s.skip(e as int)) {
                Some((f2, f)) => {
                    lemma_sp_flag_field_wf(s.skip((e + f) as int));
                    match sp_flag_field(s.skip((e + f) as int)) {
                        Some((f3, g)) => {
                            let p0 = (e + f + g) as nat;
                            lemma_sp_bin_field_wf(s.skip(p0 as int));
                            let h = sp_bin_field(s.skip(p0 as int)).1;
                            let p1 = (p0 + h) as nat;
                            lemma_count_while(Cls::SpaceTab, s.skip(p1 as int));
                            let sp = count_while(Cls::SpaceTab, s.skip(p1 as int));
                            let p2 = (p1 + sp) as nat;
                            assert(sp_eol(s.skip(p2 as int)) <= s.skip(p2 as int).len());
                        },
                        None => {},
                    }
                },
                None => {},
            }
        },
        None => {},
    }
}

/// A parsed comment's text holds no line terminator.
proof fn lemma_sp_comment_wf(s: Seq<char>)
    ensures
        sp_comment(s) matches Some((l, n)) ==> (l matches LineV::Comment(t)
            && wf_comment_text(t)) && 1 <= n <= s.len(),
{
    if s.len() >= 2 && s[0] == '/' && s[1] == '/' {
        lemma_count_while(Cls::NonEol, s.skip(2));
        let d = count_while(Cls::NonEol, s.skip(2));
        let text = s.subrange(2, (2 + d) as int);
        assert forall|i: int| 0 <= i < text.len() implies in_cls(Cls::NonEol, text[i]) by {
            assert(text[i] == s.skip(2)[i]);
        }
    }
}

/// What one parsed line guarantees: loose well-formedness, progress, and
/// (for a blank line) that the whitespace run was consumed in full.
pub proof fn lemma_sp_line_wf(s: Seq<char>)
    ensures
        sp_line(s) matches Some((l, n)) ==> {
            &&& wf_line_loose(l)
            &&& 1 <= n <= s.len()
            &&& (l is BlankLine ==> n < s.len() ==> !in_cls(Cls::Ws, s[n as int]))
            &&& (l is BlankLine <==> sp_blank(s) is Some)
        },
{
    lemma_count_while(Cls::Ws, s);
    lemma_sp_comment_wf(s);
    lemma_sp_event_wf(s);
    if sp_blank(s) is None {
        match sp_event(s) {
            Some((l, n)) => {
                assert(count_while(Cls::Ws, s) == 0);
                if l matches LineV::EventLine(e) {
                    assert(!in_cls(Cls::Ws, s[0]));
                }
            },
            None => {},
        }
    }
}

/// What parsing a whole file guarantees of its lines.
#[verifier::rlimit(100)]
pub proof fn lemma_sp_lines_wf(s: Seq<char>)
    ensures
        wf_lines_loose(sp_lines(s).0),
        sp_lines(s).1 <= s.len(),
    decreases s.len(),
{
    lemma_sp_line_wf(s);
    match sp_line(s) {
        Some((l, n)) => {
            if 1 <= n <= s.len() {
                lemma_sp_lines_wf(s.skip(n as int));
                let (ls, m) = sp_lines(s.skip(n as int));
                let all = seq![l] + ls;
                assert forall|i: int| 0 <= i < all.len() implies wf_line_loose(
                    #[trigger] all[i],
                ) by {
                    if i == 0 {
                        assert(all[0] == l);
                    } else {
                        assert(all[i] == ls[i - 1]);
                    }
                }
                assert forall|i: int|
                    0 <= i < all.len() - 1 implies !(#[trigger] all[i] is BlankLine && all[i
                    + 1] is BlankLine) by {
                    if i == 0 {
                        if l is BlankLine && ls.len() > 0 && ls[0] is BlankLine {
                            assert(all[1] == ls[0]);
                            lemma_sp_line_wf(s.skip(n as int));
                            match sp_line(s.skip(n as int)) {
                                Some((l2, n2)) => {
                                    assert(sp_blank(s.skip(n as int)) is Some);
                                    lemma_count_while(Cls::Ws, s.skip(n as int));
                                    assert(in_cls(Cls::Ws, s.skip(n as int)[0]));
                                    assert(s.skip(n as int)[0] == s[n as int]);
                                    assert(n < s.len());
                                    assert(!in_cls(Cls::Ws, s[n as int]));
                                },
                                None => {
                                    assert(ls.len() == 0);
                                },
                            }
                        }
                    } else {
                        assert(all[i] == ls[i - 1]);
                        assert(all[i + 1] == ls[i]);
                    }
                }
            }
        },
        None => {},
    }
}

/// Normalization does not change the rendered text: the renderer trims a
/// comment itself.
proof fn lemma_rnd_normalize(ls: Seq<LineV>)
    requires
        forall|i: int| 0 <= i < ls.len() ==> wf_line_loose(#[trigger] ls[i]),
    ensures
        rnd_lines(normalize_lines(ls)) == rnd_lines(ls),
    decreases ls.len(),
{
    if ls.len() > 0 {
        assert(wf_line_loose(ls[0]));
        match ls[0] {
            LineV::Comment(t) => {
                lemma_trim_space_trim(t);
                assert(rnd_line(normalize_line(ls[0])) == rnd_line(ls[0]));
            },
            LineV::EventLine(_) => {},
            LineV::BlankLine => {},
        }
        assert(forall|i: int| 0 <= i < ls.len() - 1 ==> ls.drop_first()[i] == ls[i + 1]);
        lemma_rnd_normalize(ls.drop_first());
        assert(normalize_lines(ls)[0] == normalize_line(ls[0]));
        assert(normalize_lines(ls).drop_first() =~= normalize_lines(ls.drop_first()));
        assert(rnd_lines(normalize_lines(ls)) == rnd_line(normalize_line(ls[0])) + rnd_lines(
            normalize_lines(ls.drop_first()),
        ));
    } else {
        assert(normalize_lines(ls) =~= Seq::<LineV>::empty());
    }
}

/// On exactly round-trippable lines, normalization is the identity.
proof fn lemma_normalize_id(ls: Seq<LineV>)
    requires
        wf_lines(ls),
    ensures
        normalize_lines(ls) == ls,
{
    assert forall|i: int| 0 <= i < ls.len() implies normalize_lines(ls)[i] == ls[i] by {
        assert(wf_line(ls[i]));
        match ls[i] {
            LineV::Comment(t) => {
                assert(canonical_comment(t));
            },
            LineV::EventLine(_) => {},
            LineV::BlankLine => {},
        }
    }
    assert(normalize_lines(ls) =~= ls);
}

/// Exactly round-trippable lines are loosely well formed and tame.
proof fn lemma_wf_lines_loose_of_wf(ls: Seq<LineV>)
    requires
        wf_lines(ls),
    ensures
        wf_lines_loose(ls),
        tame_lines(ls),
{
    assert forall|i: int| 0 <= i < ls.len() implies wf_line_loose(#[trigger] ls[i])
        && tame_line(ls[i]) by {
        assert(wf_line(ls[i]));
        match ls[i] {
            LineV::EventLine(e) => {
                assert(wf_event(e));
                assert(wf_event_name(e.event_name));
                assert(wf_event_name_loose(e.event_name));
            },
            LineV::Comment(t) => {},
            LineV::BlankLine => {},
        }
    }
}

/// Structural round trip, render side: rendering any well-formed line
/// sequence to canonical text and re-parsing consumes the whole text and
/// yields back exactly that sequence.
pub proof fn theorem_format_parse_round_trip(ls: Seq<LineV>)
    requires
        wf_lines(ls),
    ensures
        sp_lines(rnd_lines(ls)).0 == ls,
        sp_lines(rnd_lines(ls)).1 == rnd_lines(ls).len(),
{
    lemma_wf_lines_loose_of_wf(ls);
    lemma_lines_render(ls);
    lemma_normalize_id(ls);
}

/// Every parse output is well formed: hex literals are `0x` plus one or more
/// digits kept verbatim, `And` and `Or` never hold fewer than two children (a
/// lone hex literal always parses to `One`), and-children are single
/// literals, event names are non-empty and tab-free, comment text holds no
/// line terminator, and no two consecutive blank lines appear.
pub proof fn theorem_parse_well_formed(x: Seq<char>)
    ensures
        wf_lines_loose(sp_lines(x).0),
        sp_lines(x).1 <= x.len(),
{
    lemma_sp_lines_wf(x);
}

/// Structural idempotence of the textual round trip: re-parsing the
/// canonical text of a fully parsed file consumes it entirely and yields the
/// parsed lines after one comment-normalization pass; rendering again
/// reproduces the same text, so a second round trip changes nothing.
///
/// The tameness premise excludes event names that begin with `//`: such a
/// name can only be parsed out of a line whose comment production failed on
/// a bare carriage return, and its canonical rendering genuinely re-parses
/// as a comment.
pub proof fn theorem_parse_format_idempotent(x: Seq<char>)
    requires
        sp_lines(x).1 == x.len(),
        tame_lines(sp_lines(x).0),
    ensures
        ({
            let ls = sp_lines(x).0;
            let y = rnd_lines(ls);
            &&& sp_lines(y).1 == y.len()
            &&& sp_lines(y).0 == normalize_lines(ls)
            &&& rnd_lines(normalize_lines(ls)) == y
            &&& normalize_lines(normalize_lines(ls)) == normalize_lines(ls)
        }),
{
    let ls = sp_lines(x).0;
    lemma_sp_lines_wf(x);
    lemma_lines_render(ls);
    lemma_rnd_normalize(ls);
    assert forall|i: int|
        0 <= i < ls.len() implies normalize_line(normalize_line(#[trigger] ls[i]))
        == normalize_line(ls[i]) by {
        match ls[i] {
            LineV::Comment(t) => {
                lemma_trim_space_trim(t);
            },
            LineV::EventLine(_) => {},
            LineV::BlankLine => {},
        }
    }
    assert(normalize_lines(normalize_lines(ls)) =~= normalize_lines(ls));
}

/// Structural idempotence, exact form: when every comment of the parsed file
/// is already in canonical shape (one space, then trimmed text), parsing the
/// rendered text gives back exactly the first parse.
pub proof fn theorem_parse_format_parse(x: Seq<char>)
    requires
        sp_lines(x).1 == x.len(),
        tame_lines(sp_lines(x).0),
        forall|i: int|
            0 <= i < sp_lines(x).0.len() ==> (#[trigger] sp_lines(x).0[i] matches
                LineV::Comment(t) ==> canonical_comment(t)),
    ensures
        ({
            let ls = sp_lines(x).0;
            let y = rnd_lines(ls);
            sp_lines(y) == (ls, y.len() as nat)
        }),
{
    let ls = sp_lines(x).0;
    lemma_sp_lines_wf(x);
    lemma_lines_render(ls);
    assert forall|i: int| 0 <= i < ls.len() implies normalize_lines(ls)[i] == ls[i] by {
        match ls[i] {
            LineV::Comment(t) => {
                assert(canonical_comment(t));
            },
            LineV::EventLine(_) => {},
            LineV::BlankLine => {},
        }
    }
    assert(normalize_lines(ls) =~= ls);
}

/// Blank-line positional preservation: across a textual round trip the line
/// count is unchanged and each position holds a blank line afterwards exactly
/// where it held one before (normalization touches only comment text).
pub proof fn theorem_blank_lines_preserved(x: Seq<char>)
    requires
        sp_lines(x).1 == x.len(),
        tame_lines(sp_lines(x).0),
    ensures
        ({
            let ls = sp_lines(x).0;
            let ls2 = sp_lines(rnd_lines(ls)).0;
            &&& ls2.len() == ls.len()
            &&& forall|i: int|
                0 <= i < ls.len() ==> ((#[trigger] ls2[i]) is BlankLine <==> ls[i] is BlankLine)
        }),
{
    theorem_parse_format_idempotent(x);
    let ls = sp_lines(x).0;
    let ls2 = sp_lines(rnd_lines(ls)).0;
    assert forall|i: int|
        0 <= i < ls.len() implies ((#[trigger] ls2[i]) is BlankLine <==> ls[i] is BlankLine) by {
        assert(ls2[i] == normalize_line(ls[i]));
    }
}

} // verus!
