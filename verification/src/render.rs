//! The executable formatter: renders the data model back to canonical text,
//! implementing the `rnd_*` functions of [`crate::grammar`] exactly.

use crate::ast::{key_id_list_view, lemma_key_id_list_view, EventLine, KeyID, KeyIdV, Line};
use crate::chars::{char_vec_of_str, cls_has, in_cls, push_char, scan, string_of_range, Cls};
use crate::grammar::{
    rnd_comment, rnd_event_fields, rnd_key_id, rnd_key_list, rnd_line, trim, trim_end,
};
use vstd::prelude::*;

verus! {

/// Appending one more child to a joined list appends one separator and the
/// child's rendering.
pub proof fn lemma_rnd_key_list_push(ks: Seq<KeyIdV>, x: KeyIdV, sep: char)
    requires
        ks.len() >= 1,
    ensures
        rnd_key_list(ks.push(x), sep) == rnd_key_list(ks, sep) + seq![sep] + rnd_key_id(x),
    decreases ks.len(),
{
    reveal_with_fuel(rnd_key_list, 3);
    if ks.len() == 1 {
        assert(ks.push(x).drop_first() =~= seq![x]);
        assert(ks.push(x)[0] == ks[0]);
        assert(rnd_key_list(ks.push(x), sep) =~= rnd_key_list(ks, sep) + seq![sep] + rnd_key_id(
            x,
        ));
    } else {
        lemma_rnd_key_list_push(ks.drop_first(), x, sep);
        assert(ks.push(x).drop_first() =~= ks.drop_first().push(x));
        assert(ks.push(x)[0] == ks[0]);
        assert(rnd_key_list(ks.push(x), sep) =~= rnd_key_list(ks, sep) + seq![sep] + rnd_key_id(
            x,
        ));
    }
}

/// `trim_end` keeps exactly the prefix up to the trailing whitespace run.
pub proof fn lemma_trim_end_take(s: Seq<char>, j: int)
    requires
        0 <= j <= s.len(),
        j == 0 || !in_cls(Cls::Ws, s[j - 1]),
        forall|k: int| j <= k < s.len() ==> in_cls(Cls::Ws, s[k]),
    ensures
        trim_end(s) == s.take(j),
    decreases s.len(),
{
    if s.len() > j {
        assert(in_cls(Cls::Ws, s.last()));
        lemma_trim_end_take(s.drop_last(), j);
        assert(s.drop_last().take(j) =~= s.take(j));
    } else {
        assert(s.take(j) =~= s);
    }
}

impl KeyID {
    /// Canonical text of this key identifier: hex literals verbatim, aliases
    /// as `!0,` plus the target, and-children joined by `+`, or-children
    /// joined by `,`.
    pub fn render(&self) -> (out: String)
        ensures
            out@ == rnd_key_id(self@),
        decreases *self,
    {
        match self {
            KeyID::One(h) => h.clone(),
            KeyID::Alias(a) => {
                let mut out = String::new();
                push_char(&mut out, '!');
                push_char(&mut out, '0');
                push_char(&mut out, ',');
                out.append(a.as_str());
                proof {
                    assert(out@ =~= seq!['!', '0', ','] + a@);
                }
                out
            },
            KeyID::And(ks) => {
                proof {
                    assert(decreases_to!(*self => *ks));
                }
                render_key_list(ks, '+')
            },
            KeyID::Or(ks) => {
                proof {
                    assert(decreases_to!(*self => *ks));
                }
                render_key_list(ks, ',')
            },
        }
    }
}

/// Children rendered and joined by a single separator.
fn render_key_list(ks: &Vec<KeyID>, sep: char) -> (out: String)
    ensures
        out@ == rnd_key_list(key_id_list_view(ks@), sep),
    decreases *ks,
{
    proof {
        lemma_key_id_list_view(ks@);
    }
    let mut out = String::new();
    if ks.len() == 0 {
        return out;
    }
    proof {
        assert(decreases_to!(*ks => ks@[0]));
    }
    let first = (&ks[0]).render();
    out.append(first.as_str());
    let ghost kv = key_id_list_view(ks@);
    proof {
        assert(kv.take(1) =~= seq![kv[0]]);
        assert(out@ =~= rnd_key_list(kv.take(1), sep));
    }
    let mut j: usize = 1;
    while j < ks.len()
        invariant
            1 <= j <= ks@.len(),
            kv == key_id_list_view(ks@),
            kv.len() == ks@.len(),
            forall|i: int| 0 <= i < ks@.len() ==> kv[i] == crate::ast::key_id_view(ks@[i]),
            out@ == rnd_key_list(kv.take(j as int), sep),
        decreases ks@.len() - j,
    {
        push_char(&mut out, sep);
        proof {
            assert(decreases_to!(*ks => ks@[j as int]));
        }
        let next = (&ks[j]).render();
        out.append(next.as_str());
        proof {
            lemma_rnd_key_list_push(kv.take(j as int), kv[j as int], sep);
            assert(kv.take(j as int).push(kv[j as int]) =~= kv.take(j + 1 as int));
            assert(out@ =~= rnd_key_list(kv.take(j as int), sep) + seq![sep] + rnd_key_id(
                kv[j as int],
            ));
        }
        j = j + 1;
    }
    proof {
        assert(kv.take(ks@.len() as int) =~= kv);
    }
    out
}

impl EventLine {
    /// Canonical text of this record: its eight logical fields joined by
    /// exactly one tab each (the eighth empty where the binary flag is
    /// absent), without a line terminator.
    pub fn render(&self) -> (out: String)
        ensures
            out@ == rnd_event_fields(self@),
    {
        let mut out = String::new();
        out.append(self.event_name.as_str());
        push_char(&mut out, '\t');
        let kb = self.keyboard_id.render();
        out.append(kb.as_str());
        push_char(&mut out, '\t');
        let mo = self.mouse_id.render();
        out.append(mo.as_str());
        push_char(&mut out, '\t');
        let gp = self.gamepad_id.render();
        out.append(gp.as_str());
        push_char(&mut out, '\t');
        push_char(&mut out, if self.remap_key { '1' } else { '0' });
        push_char(&mut out, '\t');
        push_char(&mut out, if self.remap_mouse { '1' } else { '0' });
        push_char(&mut out, '\t');
        push_char(&mut out, if self.remap_gamepad { '1' } else { '0' });
        push_char(&mut out, '\t');
        match &self.event_binary_flag {
            Some(h) => {
                out.append(h.as_str());
            },
            None => {},
        }
        proof {
            assert(out@ =~= rnd_event_fields(self@));
        }
        out
    }
}

/// The trimmed text of a comment: leading and trailing whitespace removed.
fn trim_chars(t: &str) -> (out: String)
    ensures
        out@ == trim(t@),
{
    let v = char_vec_of_str(t);
    let a = scan(Cls::Ws, &v, 0);
    proof {
        assert(v@.skip(0) =~= v@);
    }
    let mut b = v.len();
    while b > a && cls_has(Cls::Ws, v[b - 1])
        invariant
            a <= b <= v@.len(),
            forall|k: int| b <= k < v@.len() ==> in_cls(Cls::Ws, v@[k]),
        decreases b,
    {
        b = b - 1;
    }
    let out = string_of_range(&v, a, b);
    proof {
        let rest = v@.skip(a as int);
        crate::chars::lemma_count_while(Cls::Ws, v@);
        if b == a {
            lemma_trim_end_take(rest, 0);
        } else {
            assert(rest[b - a - 1] == v@[b - 1]);
            assert forall|k: int| b - a <= k < rest.len() implies in_cls(Cls::Ws, rest[k]) by {
                assert(rest[k] == v@[k + a]);
            }
            lemma_trim_end_take(rest, b - a);
        }
        assert(rest.take(b - a) =~= v@.subrange(a as int, b as int));
    }
    out
}

impl Line {
    /// Canonical text of this line, always terminated by `\n`.
    pub fn render(&self) -> (out: String)
        ensures
            out@ == rnd_line(self@),
    {
        match self {
            Line::Comment(t) => {
                let mut out = String::new();
                push_char(&mut out, '/');
                push_char(&mut out, '/');
                push_char(&mut out, ' ');
                let trimmed = trim_chars(t.as_str());
                out.append(trimmed.as_str());
                push_char(&mut out, '\n');
                proof {
                    assert(out@ =~= rnd_comment(t@));
                }
                out
            },
            Line::EventLine(e) => {
                let mut out = e.render();
                push_char(&mut out, '\n');
                proof {
                    assert(out@ =~= rnd_line(self@));
                }
                out
            },
            Line::BlankLine => {
                let mut out = String::new();
                push_char(&mut out, '\n');
                proof {
                    assert(out@ =~= seq!['\n']);
                }
                out
            },
        }
    }
}

} // verus!
