//! The aggregate owning the full ordered line sequence of one parsed file,
//! its stable error type, and the canonical-text renderer.

use crate::ast::{lines_view, Line, LineV};
use crate::codec::{
    dec_control, dec_line, dec_line_list, enc_control, enc_line_list,
    lemma_dec_line_list_props, lemma_value_list_view, str_eq, value_list_view, value_view, Value,
};
use crate::chars::{char_vec_of_str, string_of_range};
use crate::grammar::{rnd_line, rnd_lines, sp_lines};
use crate::parser::parse_lines;
use crate::scan_code::ScanCodeError;
use vstd::prelude::*;

verus! {

/// Structure with an array containing a control-map file line by line.
///
/// Constructed only by parsing text ([`ControlMap::from_txt`]) or by decoding
/// a previously encoded structured value; blank lines are kept, in place.
#[derive(Debug, PartialEq)]
pub struct ControlMap {
    lines: Vec<Line>,
}

/// The stable error type parse failures are wrapped into.
#[derive(Debug, Clone, PartialEq, Eq)]
pub enum ControlMapError {
    /// A malformed line or sub-production, with a human-readable reason.
    ParseError(String),
    /// The line loop stopped before consuming all input; carries the
    /// unconsumed remainder verbatim.
    Incomplete(String),
    /// A scan-code resolution failure, passed through.
    ScanCodeError(ScanCodeError),
}

impl View for ControlMap {
    type V = Seq<LineV>;

    closed spec fn view(&self) -> Seq<LineV> {
        lines_view(self.lines@)
    }
}

/// Appending one more line appends exactly its rendering.
pub proof fn lemma_rnd_lines_push(ls: Seq<LineV>, x: LineV)
    ensures
        rnd_lines(ls.push(x)) == rnd_lines(ls) + rnd_line(x),
    decreases ls.len(),
{
    reveal_with_fuel(rnd_lines, 3);
    if ls.len() == 0 {
        assert(ls.push(x).drop_first() =~= Seq::<LineV>::empty());
        assert(rnd_lines(ls.push(x)) =~= rnd_lines(ls) + rnd_line(x));
    } else {
        lemma_rnd_lines_push(ls.drop_first(), x);
        assert(ls.push(x).drop_first() =~= ls.drop_first().push(x));
        assert(ls.push(x)[0] == ls[0]);
        assert(rnd_lines(ls.push(x)) =~= rnd_lines(ls) + rnd_line(x));
    }
}

impl ControlMap {
    /// Parse a whole control-map text.
    ///
    /// Succeeds exactly when the grammar's line loop consumes the entire
    /// input, and then holds every parsed line in order; otherwise fails with
    /// [`ControlMapError::Incomplete`] carrying the unconsumed suffix (the
    /// point where no line production matched) verbatim.
    pub fn from_txt(txt: &str) -> (r: Result<Self, ControlMapError>)
        ensures
            match r {
                Ok(cm) => sp_lines(txt@).1 == txt@.len() && cm@ == sp_lines(txt@).0,
                Err(e) => sp_lines(txt@).1 < txt@.len() && (e matches
                    ControlMapError::Incomplete(rem) && rem@ == txt@.skip(
                    sp_lines(txt@).1 as int,
                )),
            },
    {
        let v = char_vec_of_str(txt);
        let (lines, pos) = parse_lines(&v);
        if pos == v.len() {
            Ok(ControlMap { lines })
        } else {
            let rem = string_of_range(&v, pos, v.len());
            proof {
                assert(v@.subrange(pos as int, v@.len() as int) =~= txt@.skip(pos as int));
            }
            Err(ControlMapError::Incomplete(rem))
        }
    }

    /// The parsed lines, in file order.
    pub fn lines(&self) -> (r: &Vec<Line>)
        ensures
            lines_view(r@) == self@,
    {
        &self.lines
    }

    /// Returns an iterator over the lines.
    ///
    /// The iterator yields all lines from start to end.
    pub fn iter(&self) -> (it: core::slice::Iter<'_, Line>)
        ensures
            vstd::std_specs::iter::IteratorSpec::remaining(&it).len() == self@.len(),
            forall|i: int|
                0 <= i < self@.len() ==> #[trigger] vstd::std_specs::iter::IteratorSpec::remaining(
                    &it,
                )[i]@ == self@[i],
    {
        let sl = self.lines.as_slice();
        proof {
            vstd::std_specs::slice::axiom_spec_slice_iter(sl);
        }
        let it = sl.iter();
        it
    }

    /// The canonical text of the whole file: each line rendered in order,
    /// one `\n` after every line.
    pub fn to_text(&self) -> (out: String)
        ensures
            out@ == rnd_lines(self@),
    {
        let mut out = String::new();
        let ghost lv = lines_view(self.lines@);
        proof {
            assert(lv.take(0) =~= Seq::<LineV>::empty());
        }
        let mut j: usize = 0;
        while j < self.lines.len()
            invariant
                0 <= j <= self.lines@.len(),
                lv == lines_view(self.lines@),
                out@ == rnd_lines(lv.take(j as int)),
            decreases self.lines@.len() - j,
        {
            let rendered = (&self.lines[j]).render();
            out.append(rendered.as_str());
            proof {
                lemma_rnd_lines_push(lv.take(j as int), lv[j as int]);
                assert(lv.take(j as int).push(lv[j as int]) =~= lv.take(j + 1 as int));
            }
            j = j + 1;
        }
        proof {
            assert(lv.take(self.lines@.len() as int) =~= lv);
        }
        out
    }
}

impl From<ScanCodeError> for ControlMapError {
    fn from(e: ScanCodeError) -> (r: Self) {
        ControlMapError::ScanCodeError(e)
    }
}

impl vstd::std_specs::convert::FromSpecImpl<ScanCodeError> for ControlMapError {
    open spec fn obeys_from_spec() -> bool {
        true
    }

    open spec fn from_spec(e: ScanCodeError) -> Self {
        ControlMapError::ScanCodeError(e)
    }
}

/// Encode each line in order.
fn encode_line_list(ls: &Vec<Line>) -> (r: Vec<Value>)
    ensures
        value_list_view(r@) == enc_line_list(lines_view(ls@)),
{
    let ghost lv = lines_view(ls@);
    let mut out: Vec<Value> = Vec::new();
    proof {
        assert(lv.take(0) =~= Seq::<LineV>::empty());
        assert(value_list_view(out@) =~= enc_line_list(lv.take(0)));
    }
    let mut j: usize = 0;
    while j < ls.len()
        invariant
            0 <= j <= ls@.len(),
            lv == lines_view(ls@),
            value_list_view(out@) == enc_line_list(lv.take(j as int)),
        decreases ls@.len() - j,
    {
        let ev = (&ls[j]).encode_value();
        proof {
            let old_out = out@;
            lemma_value_list_view(old_out);
            lemma_value_list_view(old_out.push(ev));
            assert(value_list_view(old_out.push(ev)) =~= value_list_view(old_out).push(ev@));
            assert(lv.take(j + 1 as int).drop_last() =~= lv.take(j as int));
            assert(lv.take(j + 1 as int).last() == lv[j as int]);
        }
        out.push(ev);
        j = j + 1;
    }
    proof {
        assert(lv.take(ls@.len() as int) =~= lv);
    }
    out
}

/// Decode each line in order; `None` as soon as one fails.
fn decode_line_list(vs: &Vec<Value>) -> (r: Option<Vec<Line>>)
    ensures
        match (r, dec_line_list(value_list_view(vs@))) {
            (Some(ls), Some(ll)) => lines_view(ls@) == ll,
            (None, None) => true,
            _ => false,
        },
{
    let ghost vv = value_list_view(vs@);
    proof {
        lemma_value_list_view(vs@);
        lemma_dec_line_list_props(vv);
    }
    let mut out: Vec<Line> = Vec::new();
    let mut j: usize = 0;
    while j < vs.len()
        invariant
            0 <= j <= vs@.len(),
            vv == value_list_view(vs@),
            vv.len() == vs@.len(),
            forall|i: int| 0 <= i < vs@.len() ==> vv[i] == value_view(vs@[i]),
            out@.len() == j,
            forall|i: int| 0 <= i < j ==> dec_line(#[trigger] vv[i]) == Some(out@[i]@),
        decreases vs@.len() - j,
    {
        match crate::codec::decode_line(&vs[j]) {
            Some(l) => {
                out.push(l);
            },
            None => {
                proof {
                    lemma_dec_line_list_props(vv);
                    assert(dec_line(vv[j as int]) is None);
                }
                return None;
            },
        }
        j = j + 1;
    }
    proof {
        lemma_dec_line_list_props(vv);
        assert forall|i: int| 0 <= i < vv.len() implies dec_line(#[trigger] vv[i]) is Some by {
            assert(dec_line(vv[i]) == Some(out@[i]@));
        }
        match dec_line_list(vv) {
            Some(ll) => {
                assert forall|i: int| 0 <= i < ll.len() implies lines_view(out@)[i] == ll[i] by {
                    assert(dec_line(vv[i]) == Some(ll[i]));
                    assert(dec_line(vv[i]) == Some(out@[i]@));
                }
                assert(lines_view(out@) =~= ll);
            },
            None => {
                assert(false);
            },
        }
    }
    Some(out)
}

impl ControlMap {
    /// Encode the whole map as a structured value: an object with one
    /// `lines` array holding each line's encoding in order.
    pub fn to_value(&self) -> (v: Value)
        ensures
            v@ == enc_control(self@),
    {
        let vs = encode_line_list(&self.lines);
        let mut pairs: Vec<(String, Value)> = Vec::new();
        pairs.push((String::from_str("lines"), Value::Arr(vs)));
        let out = Value::Obj(pairs);
        proof {
            crate::codec::lemma_pair_list_view(out->Obj_0@);
            assert(crate::codec::pair_list_view(out->Obj_0@) =~= seq![
                (
                    "lines"@,
                    crate::codec::ValueV::Arr(enc_line_list(lines_view(self.lines@))),
                ),
            ]);
        }
        out
    }

    /// Decode a structured value back into a map; `None` exactly where the
    /// value is not a valid encoding of one.
    pub fn from_value(v: &Value) -> (r: Option<ControlMap>)
        ensures
            match (r, dec_control(v@)) {
                (Some(cm), Some(ls)) => cm@ == ls,
                (None, None) => true,
                _ => false,
            },
    {
        match v {
            Value::Obj(ps) => {
                proof {
                    crate::codec::lemma_pair_list_view(ps@);
                }
                if ps.len() != 1 {
                    return None;
                }
                let (key, val) = &ps[0];
                proof {
                    assert(crate::codec::pair_list_view(ps@)[0] == (key@, value_view(*val)));
                }
                if !str_eq(key, "lines") {
                    return None;
                }
                match val {
                    Value::Arr(vs) => match decode_line_list(vs) {
                        Some(lines) => Some(ControlMap { lines }),
                        None => None,
                    },
                    _ => None,
                }
            },
            _ => None,
        }
    }
}

impl Clone for ControlMap {
    /// A clone is view-equal to the original: same lines, in order.
    fn clone(&self) -> (res: Self)
        ensures
            res@ == self@,
    {
        let mut lines: Vec<Line> = Vec::new();
        let mut j: usize = 0;
        while j < self.lines.len()
            invariant
                0 <= j <= self.lines@.len(),
                lines@.len() == j,
                forall|i: int| 0 <= i < j ==> (#[trigger] lines@[i])@ == self.lines@[i]@,
            decreases self.lines@.len() - j,
        {
            let c = (&self.lines[j]).clone();
            lines.push(c);
            j = j + 1;
        }
        let res = ControlMap { lines };
        proof {
            assert(res@ =~= self@);
        }
        res
    }
}

} // verus!
