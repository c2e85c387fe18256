//! Encoding of the data model to and from a generic key-ordered structured
//! value (the shape a standard JSON encoder produces), with the proved
//! guarantee that decoding an encoded value gives back exactly what was
//! encoded. Optional fields are omitted rather than encoded as null.

use crate::ast::{EventLine, EventLineV, KeyID, KeyIdV, Line, LineV};
use vstd::prelude::*;

verus! {

/// A generic structured interchange value: booleans, strings, ordered
/// arrays, and key-ordered objects.
#[derive(Debug, PartialEq)]
pub enum Value {
    Bool(bool),
    Str(String),
    Arr(Vec<Value>),
    Obj(Vec<(String, Value)>),
}

/// Specification-level mirror of [`Value`].
pub enum ValueV {
    Bool(bool),
    Str(Seq<char>),
    Arr(Seq<ValueV>),
    Obj(Seq<(Seq<char>, ValueV)>),
}

pub open spec fn value_view(v: Value) -> ValueV
    decreases v,
{
    match v {
        Value::Bool(b) => ValueV::Bool(b),
        Value::Str(s) => ValueV::Str(s@),
        Value::Arr(vs) => ValueV::Arr(value_list_view(vs@)),
        Value::Obj(ps) => ValueV::Obj(pair_list_view(ps@)),
    }
}

pub open spec fn value_list_view(vs: Seq<Value>) -> Seq<ValueV>
    decreases vs,
{
    if vs.len() == 0 {
        Seq::empty()
    } else {
        value_list_view(vs.drop_last()).push(value_view(vs.last()))
    }
}

pub open spec fn pair_list_view(ps: Seq<(String, Value)>) -> Seq<(Seq<char>, ValueV)>
    decreases ps,
{
    if ps.len() == 0 {
        Seq::empty()
    } else {
        pair_list_view(ps.drop_last()).push(
            (ps.last().0@, value_view(ps.last().1)),
        )
    }
}

impl View for Value {
    type V = ValueV;

    open spec fn view(&self) -> ValueV {
        value_view(*self)
    }
}

/// `value_list_view` maps the view pointwise.
pub proof fn lemma_value_list_view(vs: Seq<Value>)
    ensures
        value_list_view(vs).len() == vs.len(),
        forall|i: int| 0 <= i < vs.len() ==> value_list_view(vs)[i] == value_view(vs[i]),
    decreases vs.len(),
{
    if vs.len() > 0 {
        lemma_value_list_view(vs.drop_last());
    }
}

/// `pair_list_view` maps the view pointwise.
pub proof fn lemma_pair_list_view(ps: Seq<(String, Value)>)
    ensures
        pair_list_view(ps).len() == ps.len(),
        forall|i: int|
            0 <= i < ps.len() ==> pair_list_view(ps)[i] == (ps[i].0@, value_view(ps[i].1)),
    decreases ps.len(),
{
    if ps.len() > 0 {
        lemma_pair_list_view(ps.drop_last());
    }
}

// ---------------------------------------------------------------------------
// Encoding.
// ---------------------------------------------------------------------------
/// A key identifier encodes as a one-entry object tagged with its variant.
pub open spec fn enc_key(k: KeyIdV) -> ValueV
    decreases k,
{
    match k {
        KeyIdV::One(h) => ValueV::Obj(seq![("One"@, ValueV::Str(h))]),
        KeyIdV::Alias(a) => ValueV::Obj(seq![("Alias"@, ValueV::Str(a))]),
        KeyIdV::And(ks) => ValueV::Obj(seq![("And"@, ValueV::Arr(enc_key_list(ks)))]),
        KeyIdV::Or(ks) => ValueV::Obj(seq![("Or"@, ValueV::Arr(enc_key_list(ks)))]),
    }
}

pub open spec fn enc_key_list(ks: Seq<KeyIdV>) -> Seq<ValueV>
    decreases ks,
{
    if ks.len() == 0 {
        Seq::empty()
    } else {
        enc_key_list(ks.drop_last()).push(enc_key(ks.last()))
    }
}

/// An event line encodes as an object of its fields in declaration order;
/// an absent binary flag is omitted rather than encoded as null.
pub open spec fn enc_event(e: EventLineV) -> ValueV {
    ValueV::Obj(
        seq![
            ("event_name"@, ValueV::Str(e.event_name)),
            ("keyboard_id"@, enc_key(e.keyboard_id)),
            ("mouse_id"@, enc_key(e.mouse_id)),
            ("gamepad_id"@, enc_key(e.gamepad_id)),
            ("remap_key"@, ValueV::Bool(e.remap_key)),
            ("remap_mouse"@, ValueV::Bool(e.remap_mouse)),
            ("remap_gamepad"@, ValueV::Bool(e.remap_gamepad)),
        ] + (match e.event_binary_flag {
            Some(h) => seq![("event_binary_flag"@, ValueV::Str(h))],
            None => Seq::empty(),
        }),
    )
}

/// A line encodes as its variant: a bare string for a blank line, a tagged
/// one-entry object otherwise.
pub open spec fn enc_line(l: LineV) -> ValueV {
    match l {
        LineV::Comment(t) => ValueV::Obj(seq![("Comment"@, ValueV::Str(t))]),
        LineV::EventLine(e) => ValueV::Obj(seq![("EventLine"@, enc_event(e))]),
        LineV::BlankLine => ValueV::Str("BlankLine"@),
    }
}

pub open spec fn enc_line_list(ls: Seq<LineV>) -> Seq<ValueV>
    decreases ls,
{
    if ls.len() == 0 {
        Seq::empty()
    } else {
        enc_line_list(ls.drop_last()).push(enc_line(ls.last()))
    }
}

/// A whole control map encodes as an object with one `lines` array.
pub open spec fn enc_control(ls: Seq<LineV>) -> ValueV {
    ValueV::Obj(seq![("lines"@, ValueV::Arr(enc_line_list(ls)))])
}

// ---------------------------------------------------------------------------
// Decoding.
// ---------------------------------------------------------------------------
pub open spec fn dec_key(v: ValueV) -> Option<KeyIdV>
    decreases v,
{
    match v {
        ValueV::Obj(ps) => {
            if ps.len() == 1 {
                let (key, val) = ps[0];
                if key == "One"@ {
                    match val {
                        ValueV::Str(h) => Some(KeyIdV::One(h)),
                        _ => None,
                    }
                } else if key == "Alias"@ {
                    match val {
                        ValueV::Str(a) => Some(KeyIdV::Alias(a)),
                        _ => None,
                    }
                } else if key == "And"@ {
                    match val {
                        ValueV::Arr(vs) => match dec_key_list(vs) {
                            Some(ks) => Some(KeyIdV::And(ks)),
                            None => None,
                        },
                        _ => None,
                    }
                } else if key == "Or"@ {
                    match val {
                        ValueV::Arr(vs) => match dec_key_list(vs) {
                            Some(ks) => Some(KeyIdV::Or(ks)),
                            None => None,
                        },
                        _ => None,
                    }
                } else {
                    None
                }
            } else {
                None
            }
        },
        _ => None,
    }
}

pub open spec fn dec_key_list(vs: Seq<ValueV>) -> Option<Seq<KeyIdV>>
    decreases vs,
{
    if vs.len() == 0 {
        Some(Seq::empty())
    } else {
        match dec_key_list(vs.drop_last()) {
            Some(ks) => match dec_key(vs.last()) {
                Some(k) => Some(ks.push(k)),
                None => None,
            },
            None => None,
        }
    }
}

pub open spec fn dec_event(v: ValueV) -> Option<EventLineV> {
    match v {
        ValueV::Obj(ps) => {
            if (ps.len() == 7 || ps.len() == 8) && ps[0].0 == "event_name"@ && ps[1].0
                == "keyboard_id"@ && ps[2].0 == "mouse_id"@ && ps[3].0 == "gamepad_id"@
                && ps[4].0 == "remap_key"@ && ps[5].0 == "remap_mouse"@ && ps[6].0
                == "remap_gamepad"@ && (ps.len() == 8 ==> ps[7].0 == "event_binary_flag"@) {
                match (ps[0].1, dec_key(ps[1].1), dec_key(ps[2].1), dec_key(ps[3].1), ps[4].1,
                ps[5].1, ps[6].1) {
                    (
                        ValueV::Str(name),
                        Some(kb),
                        Some(mo),
                        Some(gp),
                        ValueV::Bool(f1),
                        ValueV::Bool(f2),
                        ValueV::Bool(f3),
                    ) => {
                        if ps.len() == 7 {
                            Some(
                                EventLineV {
                                    event_name: name,
                                    keyboard_id: kb,
                                    mouse_id: mo,
                                    gamepad_id: gp,
                                    remap_key: f1,
                                    remap_mouse: f2,
                                    remap_gamepad: f3,
                                    event_binary_flag: None,
                                },
                            )
                        } else {
                            match ps[7].1 {
                                ValueV::Str(h) => Some(
                                    EventLineV {
                                        event_name: name,
                                        keyboard_id: kb,
                                        mouse_id: mo,
                                        gamepad_id: gp,
                                        remap_key: f1,
                                        remap_mouse: f2,
                                        remap_gamepad: f3,
                                        event_binary_flag: Some(h),
                                    },
                                ),
                                _ => None,
                            }
                        }
                    },
                    _ => None,
                }
            } else {
                None
            }
        },
        _ => None,
    }
}

pub open spec fn dec_line(v: ValueV) -> Option<LineV> {
    match v {
        ValueV::Str(s) => {
            if s == "BlankLine"@ {
                Some(LineV::BlankLine)
            } else {
                None
            }
        },
        ValueV::Obj(ps) => {
            if ps.len() == 1 {
                let (key, val) = ps[0];
                if key == "Comment"@ {
                    match val {
                        ValueV::Str(t) => Some(LineV::Comment(t)),
                        _ => None,
                    }
                } else if key == "EventLine"@ {
                    match dec_event(val) {
                        Some(e) => Some(LineV::EventLine(e)),
                        None => None,
                    }
                } else {
                    None
                }
            } else {
                None
            }
        },
        _ => None,
    }
}

pub open spec fn dec_line_list(vs: Seq<ValueV>) -> Option<Seq<LineV>>
    decreases vs,
{
    if vs.len() == 0 {
        Some(Seq::empty())
    } else {
        match dec_line_list(vs.drop_last()) {
            Some(ls) => match dec_line(vs.last()) {
                Some(l) => Some(ls.push(l)),
                None => None,
            },
            None => None,
        }
    }
}

pub open spec fn dec_control(v: ValueV) -> Option<Seq<LineV>> {
    match v {
        ValueV::Obj(ps) => {
            if ps.len() == 1 && ps[0].0 == "lines"@ {
                match ps[0].1 {
                    ValueV::Arr(vs) => dec_line_list(vs),
                    _ => None,
                }
            } else {
                None
            }
        },
        _ => None,
    }
}

// ---------------------------------------------------------------------------
// The round-trip law.
// ---------------------------------------------------------------------------
/// The variant labels are pairwise distinct.
proof fn lemma_labels_distinct()
    ensures
        "One"@ != "Alias"@,
        "One"@ != "And"@,
        "One"@ != "Or"@,
        "Alias"@ != "And"@,
        "Alias"@ != "Or"@,
        "And"@ != "Or"@,
        "Comment"@ != "EventLine"@,
{
    reveal_strlit("One");
    reveal_strlit("Alias");
    reveal_strlit("And");
    reveal_strlit("Or");
    reveal_strlit("Comment");
    reveal_strlit("EventLine");
    assert("One"@.len() == 3);
    assert("Alias"@.len() == 5);
    assert("And"@.len() == 3);
    assert("Or"@.len() == 2);
    assert("One"@[0] == 'O');
    assert("And"@[0] == 'A');
    assert("Comment"@.len() == 7);
    assert("EventLine"@.len() == 9);
}

/// Decoding an encoded key identifier gives it back exactly.
pub proof fn lemma_codec_key(k: KeyIdV)
    ensures
        dec_key(enc_key(k)) == Some(k),
    decreases k,
{
    lemma_labels_distinct();
    match k {
        KeyIdV::One(_) => {},
        KeyIdV::Alias(_) => {},
        KeyIdV::And(ks) => {
            lemma_codec_key_list(ks);
        },
        KeyIdV::Or(ks) => {
            lemma_codec_key_list(ks);
        },
    }
}

pub proof fn lemma_codec_key_list(ks: Seq<KeyIdV>)
    ensures
        dec_key_list(enc_key_list(ks)) == Some(ks),
    decreases ks,
{
    if ks.len() == 0 {
        assert(ks =~= Seq::<KeyIdV>::empty());
    } else {
        lemma_codec_key_list(ks.drop_last());
        lemma_codec_key(ks.last());
        let evs = enc_key_list(ks);
        assert(evs.drop_last() =~= enc_key_list(ks.drop_last()));
        assert(evs.last() == enc_key(ks.last()));
        assert(ks.drop_last().push(ks.last()) =~= ks);
    }
}

/// Decoding an encoded event line gives it back exactly.
#[verifier::rlimit(100)]
pub proof fn lemma_codec_event(e: EventLineV)
    ensures
        dec_event(enc_event(e)) == Some(e),
{
    lemma_codec_key(e.keyboard_id);
    lemma_codec_key(e.mouse_id);
    lemma_codec_key(e.gamepad_id);
    reveal_strlit("event_name");
    reveal_strlit("keyboard_id");
    reveal_strlit("mouse_id");
    reveal_strlit("gamepad_id");
    reveal_strlit("remap_key");
    reveal_strlit("remap_mouse");
    reveal_strlit("remap_gamepad");
    reveal_strlit("event_binary_flag");
    match enc_event(e) {
        ValueV::Obj(ps) => {
            match e.event_binary_flag {
                Some(h) => {
                    assert(ps.len() == 8);
                    assert(ps[7].0 == "event_binary_flag"@);
                },
                None => {
                    assert(ps.len() == 7);
                },
            }
            assert(ps[0].0 == "event_name"@);
            assert(ps[1].0 == "keyboard_id"@);
            assert(ps[2].0 == "mouse_id"@);
            assert(ps[3].0 == "gamepad_id"@);
            assert(ps[4].0 == "remap_key"@);
            assert(ps[5].0 == "remap_mouse"@);
            assert(ps[6].0 == "remap_gamepad"@);
        },
        _ => {},
    }
}

/// Decoding an encoded line gives it back exactly.
pub proof fn lemma_codec_line(l: LineV)
    ensures
        dec_line(enc_line(l)) == Some(l),
{
    lemma_labels_distinct();
    match l {
        LineV::Comment(_) => {},
        LineV::EventLine(e) => {
            lemma_codec_event(e);
        },
        LineV::BlankLine => {},
    }
}

pub proof fn lemma_codec_line_list(ls: Seq<LineV>)
    ensures
        dec_line_list(enc_line_list(ls)) == Some(ls),
    decreases ls,
{
    if ls.len() == 0 {
        assert(ls =~= Seq::<LineV>::empty());
    } else {
        lemma_codec_line_list(ls.drop_last());
        lemma_codec_line(ls.last());
        let evs = enc_line_list(ls);
        assert(evs.drop_last() =~= enc_line_list(ls.drop_last()));
        assert(evs.last() == enc_line(ls.last()));
        assert(ls.drop_last().push(ls.last()) =~= ls);
    }
}

/// Structured round trip: decoding the encoding of any ordered line sequence
/// gives back exactly that sequence.
pub proof fn theorem_codec_round_trip(ls: Seq<LineV>)
    ensures
        dec_control(enc_control(ls)) == Some(ls),
{
    reveal_strlit("lines");
    lemma_codec_line_list(ls);
}

/// Characterization of list decoding: it succeeds exactly when every element
/// decodes, and then decodes pointwise.
proof fn lemma_dec_key_list_props(vs: Seq<ValueV>)
    ensures
        dec_key_list(vs) is Some <==> (forall|i: int|
            0 <= i < vs.len() ==> dec_key(#[trigger] vs[i]) is Some),
        dec_key_list(vs) matches Some(ks) ==> ks.len() == vs.len() && (forall|i: int|
            0 <= i < vs.len() ==> dec_key(#[trigger] vs[i]) == Some(ks[i])),
    decreases vs.len(),
{
    if vs.len() > 0 {
        lemma_dec_key_list_props(vs.drop_last());
        assert(forall|i: int| 0 <= i < vs.len() - 1 ==> vs.drop_last()[i] == vs[i]);
        assert(vs.last() == vs[vs.len() - 1]);
    }
}

/// Characterization of line-list decoding, as for key lists.
pub proof fn lemma_dec_line_list_props(vs: Seq<ValueV>)
    ensures
        dec_line_list(vs) is Some <==> (forall|i: int|
            0 <= i < vs.len() ==> dec_line(#[trigger] vs[i]) is Some),
        dec_line_list(vs) matches Some(ls) ==> ls.len() == vs.len() && (forall|i: int|
            0 <= i < vs.len() ==> dec_line(#[trigger] vs[i]) == Some(ls[i])),
    decreases vs.len(),
{
    if vs.len() > 0 {
        lemma_dec_line_list_props(vs.drop_last());
        assert(forall|i: int| 0 <= i < vs.len() - 1 ==> vs.drop_last()[i] == vs[i]);
        assert(vs.last() == vs[vs.len() - 1]);
    }
}

/// Compare an owned string against a literal.
pub(crate) fn str_eq(a: &String, b: &str) -> (r: bool)
    ensures
        r == (a@ == b@),
{
    let bs = String::from_str(b);
    a.eq(&bs)
}

impl KeyID {
    /// Encode this key identifier as a tagged one-entry object.
    pub fn encode_value(&self) -> (v: Value)
        ensures
            v@ == enc_key(self@),
        decreases *self,
    {
        match self {
            KeyID::One(h) => {
                let mut pairs: Vec<(String, Value)> = Vec::new();
                pairs.push((String::from_str("One"), Value::Str(h.clone())));
                let out = Value::Obj(pairs);
                proof {
                    lemma_pair_list_view(out->Obj_0@);
                    assert(pair_list_view(out->Obj_0@) =~= seq![
                        ("One"@, ValueV::Str(h@)),
                    ]);
                }
                out
            },
            KeyID::Alias(a) => {
                let mut pairs: Vec<(String, Value)> = Vec::new();
                pairs.push((String::from_str("Alias"), Value::Str(a.clone())));
                let out = Value::Obj(pairs);
                proof {
                    lemma_pair_list_view(out->Obj_0@);
                    assert(pair_list_view(out->Obj_0@) =~= seq![
                        ("Alias"@, ValueV::Str(a@)),
                    ]);
                }
                out
            },
            KeyID::And(ks) => {
                proof {
                    assert(decreases_to!(*self => *ks));
                }
                let vs = encode_key_list(ks);
                let mut pairs: Vec<(String, Value)> = Vec::new();
                pairs.push((String::from_str("And"), Value::Arr(vs)));
                let out = Value::Obj(pairs);
                proof {
                    lemma_pair_list_view(out->Obj_0@);
                    assert(pair_list_view(out->Obj_0@) =~= seq![
                        (
                            "And"@,
                            ValueV::Arr(enc_key_list(crate::ast::key_id_list_view(ks@))),
                        ),
                    ]);
                }
                out
            },
            KeyID::Or(ks) => {
                proof {
                    assert(decreases_to!(*self => *ks));
                }
                let vs = encode_key_list(ks);
                let mut pairs: Vec<(String, Value)> = Vec::new();
                pairs.push((String::from_str("Or"), Value::Arr(vs)));
                let out = Value::Obj(pairs);
                proof {
                    lemma_pair_list_view(out->Obj_0@);
                    assert(pair_list_view(out->Obj_0@) =~= seq![
                        (
                            "Or"@,
                            ValueV::Arr(enc_key_list(crate::ast::key_id_list_view(ks@))),
                        ),
                    ]);
                }
                out
            },
        }
    }
}

/// Encode each child in order.
fn encode_key_list(ks: &Vec<KeyID>) -> (r: Vec<Value>)
    ensures
        value_list_view(r@) == enc_key_list(crate::ast::key_id_list_view(ks@)),
    decreases *ks,
{
    let ghost kv = crate::ast::key_id_list_view(ks@);
    proof {
        crate::ast::lemma_key_id_list_view(ks@);
    }
    let mut out: Vec<Value> = Vec::new();
    proof {
        assert(kv.take(0) =~= Seq::<crate::ast::KeyIdV>::empty());
        assert(value_list_view(out@) =~= enc_key_list(kv.take(0)));
    }
    let mut j: usize = 0;
    while j < ks.len()
        invariant
            0 <= j <= ks@.len(),
            kv == crate::ast::key_id_list_view(ks@),
            kv.len() == ks@.len(),
            forall|i: int| 0 <= i < ks@.len() ==> kv[i] == crate::ast::key_id_view(ks@[i]),
            value_list_view(out@) == enc_key_list(kv.take(j as int)),
        decreases ks@.len() - j,
    {
        proof {
            assert(decreases_to!(*ks => ks@[j as int]));
        }
        let ev = (&ks[j]).encode_value();
        proof {
            let old_out = out@;
            lemma_value_list_view(old_out);
            lemma_value_list_view(old_out.push(ev));
            assert(value_list_view(old_out.push(ev)) =~= value_list_view(old_out).push(ev@));
            assert(kv.take(j + 1 as int).drop_last() =~= kv.take(j as int));
            assert(kv.take(j + 1 as int).last() == kv[j as int]);
        }
        out.push(ev);
        j = j + 1;
    }
    proof {
        assert(kv.take(ks@.len() as int) =~= kv);
    }
    out
}

impl EventLine {
    /// Encode this record as an object of its fields in declaration order,
    /// omitting an absent binary flag.
    #[verifier::rlimit(100)]
    pub fn encode_value(&self) -> (v: Value)
        ensures
            v@ == enc_event(self@),
    {
        let mut pairs: Vec<(String, Value)> = Vec::new();
        pairs.push((String::from_str("event_name"), Value::Str(self.event_name.clone())));
        pairs.push((String::from_str("keyboard_id"), self.keyboard_id.encode_value()));
        pairs.push((String::from_str("mouse_id"), self.mouse_id.encode_value()));
        pairs.push((String::from_str("gamepad_id"), self.gamepad_id.encode_value()));
        pairs.push((String::from_str("remap_key"), Value::Bool(self.remap_key)));
        pairs.push((String::from_str("remap_mouse"), Value::Bool(self.remap_mouse)));
        pairs.push((String::from_str("remap_gamepad"), Value::Bool(self.remap_gamepad)));
        match &self.event_binary_flag {
            Some(h) => {
                pairs.push((String::from_str("event_binary_flag"), Value::Str(h.clone())));
            },
            None => {},
        }
        let out = Value::Obj(pairs);
        proof {
            lemma_pair_list_view(out->Obj_0@);
            assert(pair_list_view(out->Obj_0@) =~= enc_event(self@)->Obj_0);
        }
        out
    }
}

impl Line {
    /// Encode this line as its variant.
    pub fn encode_value(&self) -> (v: Value)
        ensures
            v@ == enc_line(self@),
    {
        match self {
            Line::Comment(t) => {
                let mut pairs: Vec<(String, Value)> = Vec::new();
                pairs.push((String::from_str("Comment"), Value::Str(t.clone())));
                let out = Value::Obj(pairs);
                proof {
                    lemma_pair_list_view(out->Obj_0@);
                    assert(pair_list_view(out->Obj_0@) =~= seq![
                        ("Comment"@, ValueV::Str(t@)),
                    ]);
                }
                out
            },
            Line::EventLine(e) => {
                let mut pairs: Vec<(String, Value)> = Vec::new();
                pairs.push((String::from_str("EventLine"), e.encode_value()));
                let out = Value::Obj(pairs);
                proof {
                    lemma_pair_list_view(out->Obj_0@);
                    assert(pair_list_view(out->Obj_0@) =~= seq![("EventLine"@, enc_event(e@))]);
                }
                out
            },
            Line::BlankLine => Value::Str(String::from_str("BlankLine")),
        }
    }
}

/// Decode a key identifier; `None` exactly where the value is not a valid
/// encoding of one.
pub fn decode_key(v: &Value) -> (r: Option<KeyID>)
    ensures
        match (r, dec_key(v@)) {
            (Some(k), Some(kk)) => k@ == kk,
            (None, None) => true,
            _ => false,
        },
    decreases *v,
{
    match v {
        Value::Obj(ps) => {
            proof {
                lemma_pair_list_view(ps@);
            }
            if ps.len() != 1 {
                return None;
            }
            let (key, val) = &ps[0];
            proof {
                assert(pair_list_view(ps@)[0] == (key@, value_view(*val)));
            }
            if str_eq(key, "One") {
                match val {
                    Value::Str(h) => Some(KeyID::One(h.clone())),
                    _ => None,
                }
            } else if str_eq(key, "Alias") {
                match val {
                    Value::Str(a) => Some(KeyID::Alias(a.clone())),
                    _ => None,
                }
            } else if str_eq(key, "And") {
                match val {
                    Value::Arr(vs) => {
                        proof {
                            assert(decreases_to!(*v => *ps));
                            assert(decreases_to!(*ps => ps@[0]));
                        }
                        match decode_key_list(vs) {
                            Some(ks) => Some(KeyID::And(ks)),
                            None => None,
                        }
                    },
                    _ => None,
                }
            } else if str_eq(key, "Or") {
                match val {
                    Value::Arr(vs) => {
                        match decode_key_list(vs) {
                            Some(ks) => Some(KeyID::Or(ks)),
                            None => None,
                        }
                    },
                    _ => None,
                }
            } else {
                None
            }
        },
        _ => None,
    }
}

/// Decode each child in order; `None` as soon as one child fails.
fn decode_key_list(vs: &Vec<Value>) -> (r: Option<Vec<KeyID>>)
    ensures
        match (r, dec_key_list(value_list_view(vs@))) {
            (Some(ks), Some(kk)) => crate::ast::key_id_list_view(ks@) == kk,
            (None, None) => true,
            _ => false,
        },
    decreases *vs,
{
    let ghost vv = value_list_view(vs@);
    proof {
        lemma_value_list_view(vs@);
        lemma_dec_key_list_props(vv);
    }
    let mut out: Vec<KeyID> = Vec::new();
    let mut j: usize = 0;
    while j < vs.len()
        invariant
            0 <= j <= vs@.len(),
            vv == value_list_view(vs@),
            vv.len() == vs@.len(),
            forall|i: int| 0 <= i < vs@.len() ==> vv[i] == value_view(vs@[i]),
            out@.len() == j,
            forall|i: int|
                0 <= i < j ==> dec_key(#[trigger] vv[i]) == Some(
                    crate::ast::key_id_view(out@[i]),
                ),
        decreases vs@.len() - j,
    {
        proof {
            assert(decreases_to!(*vs => vs@[j as int]));
        }
        match decode_key(&vs[j]) {
            Some(k) => {
                out.push(k);
            },
            None => {
                proof {
                    lemma_dec_key_list_props(vv);
                    assert(dec_key(vv[j as int]) is None);
                }
                return None;
            },
        }
        j = j + 1;
    }
    proof {
        lemma_dec_key_list_props(vv);
        crate::ast::lemma_key_id_list_view(out@);
        assert forall|i: int| 0 <= i < vv.len() implies dec_key(#[trigger] vv[i]) is Some by {
            assert(dec_key(vv[i]) == Some(crate::ast::key_id_view(out@[i])));
        }
        match dec_key_list(vv) {
            Some(kk) => {
                assert forall|i: int|
                    0 <= i < kk.len() implies crate::ast::key_id_list_view(out@)[i] == kk[i] by {
                    assert(dec_key(vv[i]) == Some(kk[i]));
                    assert(dec_key(vv[i]) == Some(crate::ast::key_id_view(out@[i])));
                }
                assert(crate::ast::key_id_list_view(out@) =~= kk);
            },
            None => {
                assert(false);
            },
        }
    }
    Some(out)
}

/// Decode an event record; `None` exactly where the value is not a valid
/// encoding of one.
#[verifier::rlimit(100)]
pub fn decode_event(v: &Value) -> (r: Option<EventLine>)
    ensures
        match (r, dec_event(v@)) {
            (Some(e), Some(ee)) => e@ == ee,
            (None, None) => true,
            _ => false,
        },
{
    match v {
        Value::Obj(ps) => {
            proof {
                lemma_pair_list_view(ps@);
            }
            if !(ps.len() == 7 || ps.len() == 8) {
                return None;
            }
            if !str_eq(&ps[0].0, "event_name") || !str_eq(&ps[1].0, "keyboard_id") || !str_eq(
                &ps[2].0,
                "mouse_id",
            ) || !str_eq(&ps[3].0, "gamepad_id") || !str_eq(&ps[4].0, "remap_key") || !str_eq(
                &ps[5].0,
                "remap_mouse",
            ) || !str_eq(&ps[6].0, "remap_gamepad") {
                return None;
            }
            if ps.len() == 8 && !str_eq(&ps[7].0, "event_binary_flag") {
                return None;
            }
            let name = match &ps[0].1 {
                Value::Str(s) => s.clone(),
                _ => {
                    return None;
                },
            };
            let kb = match decode_key(&ps[1].1) {
                Some(k) => k,
                None => {
                    return None;
                },
            };
            let mo = match decode_key(&ps[2].1) {
                Some(k) => k,
                None => {
                    return None;
                },
            };
            let gp = match decode_key(&ps[3].1) {
                Some(k) => k,
                None => {
                    return None;
                },
            };
            let f1 = match &ps[4].1 {
                Value::Bool(b) => *b,
                _ => {
                    return None;
                },
            };
            let f2 = match &ps[5].1 {
                Value::Bool(b) => *b,
                _ => {
                    return None;
                },
            };
            let f3 = match &ps[6].1 {
                Value::Bool(b) => *b,
                _ => {
                    return None;
                },
            };
            let bin = if ps.len() == 8 {
                match &ps[7].1 {
                    Value::Str(s) => Some(s.clone()),
                    _ => {
                        return None;
                    },
                }
            } else {
                None
            };
            Some(
                EventLine {
                    event_name: name,
                    keyboard_id: kb,
                    mouse_id: mo,
                    gamepad_id: gp,
                    remap_key: f1,
                    remap_mouse: f2,
                    remap_gamepad: f3,
                    event_binary_flag: bin,
                },
            )
        },
        _ => None,
    }
}

/// Decode one line; `None` exactly where the value is not a valid encoding.
pub fn decode_line(v: &Value) -> (r: Option<Line>)
    ensures
        match (r, dec_line(v@)) {
            (Some(l), Some(ll)) => l@ == ll,
            (None, None) => true,
            _ => false,
        },
{
    match v {
        Value::Str(s) => {
            if str_eq(s, "BlankLine") {
                Some(Line::BlankLine)
            } else {
                None
            }
        },
        Value::Obj(ps) => {
            proof {
                lemma_pair_list_view(ps@);
            }
            if ps.len() != 1 {
                return None;
            }
            let (key, val) = &ps[0];
            proof {
                assert(pair_list_view(ps@)[0] == (key@, value_view(*val)));
            }
            if str_eq(key, "Comment") {
                match val {
                    Value::Str(t) => Some(Line::Comment(t.clone())),
                    _ => None,
                }
            } else if str_eq(key, "EventLine") {
                match decode_event(val) {
                    Some(e) => Some(Line::EventLine(e)),
                    None => None,
                }
            } else {
                None
            }
        },
        _ => None,
    }
}


} // verus!
