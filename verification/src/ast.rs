//! The line-level and key-identifier data model, independent of how it was
//! produced, together with its specification-level mirror (sequences of
//! characters instead of heap strings) that contracts and laws speak of.

use vstd::prelude::*;

verus! {

/// A (possibly combined) reference to one or more input codes.
///
/// The grammar guarantees that `Or` and `And` never hold fewer than two
/// children, that `And` children are always single hex literals, and that hex
/// literals keep their original textual casing and digit sequence verbatim.
#[derive(Debug, PartialEq)]
pub enum KeyID {
    /// Two or more comma-separated operands, e.g. `0x0009,0x000b`.
    Or(Vec<KeyID>),
    /// Two or more `+`-separated hex literals, e.g. `0x0009+0x000b`.
    And(Vec<KeyID>),
    /// A single hex literal, e.g. `0x0009`.
    One(String),
    /// A reference to another event's identifier by name, e.g. `!0,Activate`.
    Alias(String),
}

/// Specification-level mirror of [`KeyID`].
pub enum KeyIdV {
    Or(Seq<KeyIdV>),
    And(Seq<KeyIdV>),
    One(Seq<char>),
    Alias(Seq<char>),
}

pub open spec fn key_id_view(k: KeyID) -> KeyIdV
    decreases k,
{
    match k {
        KeyID::Or(ks) => KeyIdV::Or(key_id_list_view(ks@)),
        KeyID::And(ks) => KeyIdV::And(key_id_list_view(ks@)),
        KeyID::One(s) => KeyIdV::One(s@),
        KeyID::Alias(s) => KeyIdV::Alias(s@),
    }
}

pub open spec fn key_id_list_view(ks: Seq<KeyID>) -> Seq<KeyIdV>
    decreases ks,
{
    if ks.len() == 0 {
        Seq::empty()
    } else {
        key_id_list_view(ks.drop_last()).push(key_id_view(ks.last()))
    }
}

impl View for KeyID {
    type V = KeyIdV;

    open spec fn view(&self) -> KeyIdV {
        key_id_view(*self)
    }
}

/// `key_id_list_view` maps the view pointwise over the list.
pub proof fn lemma_key_id_list_view(ks: Seq<KeyID>)
    ensures
        key_id_list_view(ks).len() == ks.len(),
        forall|i: int| 0 <= i < ks.len() ==> key_id_list_view(ks)[i] == key_id_view(ks[i]),
    decreases ks.len(),
{
    if ks.len() > 0 {
        lemma_key_id_list_view(ks.drop_last());
    }
}

/// One input-remapping record: a named event bound to keyboard, mouse and
/// gamepad identifiers, three remap flags, and an optional binary flag.
#[derive(Debug, PartialEq)]
pub struct EventLine {
    pub event_name: String,
    pub keyboard_id: KeyID,
    pub mouse_id: KeyID,
    pub gamepad_id: KeyID,
    pub remap_key: bool,
    pub remap_mouse: bool,
    pub remap_gamepad: bool,
    pub event_binary_flag: Option<String>,
}

/// Specification-level mirror of [`EventLine`].
pub struct EventLineV {
    pub event_name: Seq<char>,
    pub keyboard_id: KeyIdV,
    pub mouse_id: KeyIdV,
    pub gamepad_id: KeyIdV,
    pub remap_key: bool,
    pub remap_mouse: bool,
    pub remap_gamepad: bool,
    pub event_binary_flag: Option<Seq<char>>,
}

impl View for EventLine {
    type V = EventLineV;

    open spec fn view(&self) -> EventLineV {
        EventLineV {
            event_name: self.event_name@,
            keyboard_id: self.keyboard_id@,
            mouse_id: self.mouse_id@,
            gamepad_id: self.gamepad_id@,
            remap_key: self.remap_key,
            remap_mouse: self.remap_mouse,
            remap_gamepad: self.remap_gamepad,
            event_binary_flag: match self.event_binary_flag {
                Some(ref s) => Some(s@),
                None => None,
            },
        }
    }
}

/// One line of a control map file.
#[derive(Debug, PartialEq)]
pub enum Line {
    /// e.g. `// This is a comment`; the text after `//` is kept verbatim.
    Comment(String),
    /// An input-remapping record.
    EventLine(EventLine),
    /// A run of whitespace with no other content.
    BlankLine,
}

/// Specification-level mirror of [`Line`].
pub enum LineV {
    Comment(Seq<char>),
    EventLine(EventLineV),
    BlankLine,
}

impl View for Line {
    type V = LineV;

    open spec fn view(&self) -> LineV {
        match self {
            Line::Comment(s) => LineV::Comment(s@),
            Line::EventLine(e) => LineV::EventLine(e@),
            Line::BlankLine => LineV::BlankLine,
        }
    }
}

/// The views of an ordered line sequence, in order.
pub open spec fn lines_view(ls: Seq<Line>) -> Seq<LineV> {
    Seq::new(ls.len(), |i: int| ls[i]@)
}

impl Clone for KeyID {
    /// A clone is view-equal to the original: hex text, alias targets, and
    /// the whole group structure are preserved.
    fn clone(&self) -> (res: Self)
        ensures
            res@ == self@,
        decreases *self,
    {
        match self {
            KeyID::One(h) => KeyID::One(h.clone()),
            KeyID::Alias(a) => KeyID::Alias(a.clone()),
            KeyID::And(ks) => {
                proof {
                    assert(decreases_to!(*self => *ks));
                }
                KeyID::And(clone_key_id_vec(ks))
            },
            KeyID::Or(ks) => {
                proof {
                    assert(decreases_to!(*self => *ks));
                }
                KeyID::Or(clone_key_id_vec(ks))
            },
        }
    }
}

/// Clone each child in order, preserving every child's view.
fn clone_key_id_vec(ks: &Vec<KeyID>) -> (r: Vec<KeyID>)
    ensures
        key_id_list_view(r@) == key_id_list_view(ks@),
    decreases *ks,
{
    let mut out: Vec<KeyID> = Vec::new();
    let mut j: usize = 0;
    while j < ks.len()
        invariant
            0 <= j <= ks@.len(),
            out@.len() == j,
            forall|i: int| 0 <= i < j ==> key_id_view(#[trigger] out@[i]) == key_id_view(ks@[i]),
        decreases ks@.len() - j,
    {
        proof {
            assert(decreases_to!(*ks => ks@[j as int]));
        }
        let c = (&ks[j]).clone();
        out.push(c);
        j = j + 1;
    }
    proof {
        lemma_key_id_list_view(out@);
        lemma_key_id_list_view(ks@);
        assert(key_id_list_view(out@) =~= key_id_list_view(ks@));
    }
    out
}

impl Clone for EventLine {
    /// A clone is view-equal to the original.
    fn clone(&self) -> (res: Self)
        ensures
            res@ == self@,
    {
        EventLine {
            event_name: self.event_name.clone(),
            keyboard_id: self.keyboard_id.clone(),
            mouse_id: self.mouse_id.clone(),
            gamepad_id: self.gamepad_id.clone(),
            remap_key: self.remap_key,
            remap_mouse: self.remap_mouse,
            remap_gamepad: self.remap_gamepad,
            event_binary_flag: match &self.event_binary_flag {
                Some(h) => Some(h.clone()),
                None => None,
            },
        }
    }
}

impl Clone for Line {
    /// A clone is view-equal to the original.
    fn clone(&self) -> (res: Self)
        ensures
            res@ == self@,
    {
        match self {
            Line::Comment(t) => Line::Comment(t.clone()),
            Line::EventLine(e) => Line::EventLine(e.clone()),
            Line::BlankLine => Line::BlankLine,
        }
    }
}

} // verus!
