//! Character classes and scanning primitives shared by the grammar and the
//! executable parser, plus the conversions between `str`/`String` and
//! `Vec<char>` that the parser works on.

use vstd::prelude::*;

verus! {

/// The character classes that the grammar's one-or-more / zero-or-more scans
/// range over.
#[derive(Clone, Copy)]
pub enum Cls {
    /// A tab: the event-line field separator.
    Tab,
    /// A space or tab: tolerated around a hexadecimal literal and at the end
    /// of an event line.
    SpaceTab,
    /// Any whitespace character: the body of a blank line.
    Ws,
    /// A hexadecimal digit.
    HexDigit,
    /// Anything but a tab: an event name or alias target.
    NonTab,
    /// Anything but a line terminator: the body of a comment.
    NonEol,
}

pub open spec fn in_cls(cls: Cls, c: char) -> bool {
    match cls {
        Cls::Tab => c == '\t',
        Cls::SpaceTab => c == ' ' || c == '\t',
        Cls::Ws => c == ' ' || c == '\t' || c == '\r' || c == '\n',
        Cls::HexDigit => ('0' <= c && c <= '9') || ('a' <= c && c <= 'f') || ('A' <= c && c
            <= 'F'),
        Cls::NonTab => c != '\t',
        Cls::NonEol => c != '\n' && c != '\r',
    }
}

/// Length of the longest prefix of `s` whose characters all lie in `cls`.
pub open spec fn count_while(cls: Cls, s: Seq<char>) -> nat
    decreases s.len(),
{
    if s.len() > 0 && in_cls(cls, s[0]) {
        (count_while(cls, s.drop_first()) + 1) as nat
    } else {
        0
    }
}

/// What `count_while` returns: an in-class prefix, stopped at the first
/// out-of-class character (if any).
pub proof fn lemma_count_while(cls: Cls, s: Seq<char>)
    ensures
        count_while(cls, s) <= s.len(),
        forall|k: int| 0 <= k < count_while(cls, s) ==> in_cls(cls, s[k]),
        count_while(cls, s) < s.len() ==> !in_cls(cls, s[count_while(cls, s) as int]),
    decreases s.len(),
{
    if s.len() > 0 && in_cls(cls, s[0]) {
        lemma_count_while(cls, s.drop_first());
        assert forall|k: int| 0 <= k < count_while(cls, s) implies in_cls(cls, s[k]) by {
            if k > 0 {
                assert(s.drop_first()[k - 1] == s[k]);
            }
        }
        if count_while(cls, s) < s.len() {
            assert(s.drop_first()[count_while(cls, s) - 1] == s[count_while(cls, s) as int]);
        }
    }
}

/// On a sequence made of an all-in-class part and a continuation that does
/// not start in the class, the scan consumes exactly the first part.
pub proof fn lemma_count_while_concat(cls: Cls, a: Seq<char>, b: Seq<char>)
    requires
        forall|k: int| 0 <= k < a.len() ==> in_cls(cls, a[k]),
        b.len() == 0 || !in_cls(cls, b[0]),
    ensures
        count_while(cls, a + b) == a.len(),
    decreases a.len(),
{
    if a.len() == 0 {
        assert(a + b =~= b);
    } else {
        assert((a + b)[0] == a[0]);
        assert((a + b).drop_first() =~= a.drop_first() + b);
        lemma_count_while_concat(cls, a.drop_first(), b);
    }
}

/// Executable membership test for a character class.
pub fn cls_has(cls: Cls, c: char) -> (r: bool)
    ensures
        r == in_cls(cls, c),
{
    match cls {
        Cls::Tab => c == '\t',
        Cls::SpaceTab => c == ' ' || c == '\t',
        Cls::Ws => c == ' ' || c == '\t' || c == '\r' || c == '\n',
        Cls::HexDigit => ('0' <= c && c <= '9') || ('a' <= c && c <= 'f') || ('A' <= c && c
            <= 'F'),
        Cls::NonTab => c != '\t',
        Cls::NonEol => c != '\n' && c != '\r',
    }
}

/// Scan forward from `i` over characters of class `cls`; returns the index of
/// the first character out of the class (or the end of input).
pub fn scan(cls: Cls, s: &Vec<char>, i: usize) -> (r: usize)
    requires
        i <= s@.len(),
    ensures
        i <= r <= s@.len(),
        r - i == count_while(cls, s@.skip(i as int)),
{
    let mut j = i;
    while j < s.len() && cls_has(cls, s[j])
        invariant
            i <= j <= s@.len(),
            count_while(cls, s@.skip(i as int)) == j - i + count_while(cls, s@.skip(j as int)),
        decreases s@.len() - j,
    {
        proof {
            assert(s@.skip(j as int)[0] == s@[j as int]);
            assert(s@.skip(j as int).drop_first() =~= s@.skip(j as int + 1));
        }
        j = j + 1;
    }
    proof {
        if j < s@.len() {
            assert(s@.skip(j as int)[0] == s@[j as int]);
        }
    }
    j
}

/// Relies on `String::push`: appends exactly the given character.
#[verifier::external_body]
pub fn push_char(s: &mut String, c: char)
    ensures
        final(s)@ == old(s)@.push(c),
{
    s.push(c);
}

/// Copy the characters of `s[from..to]` into an owned `String`.
pub fn string_of_range(s: &Vec<char>, from: usize, to: usize) -> (r: String)
    requires
        from <= to <= s@.len(),
    ensures
        r@ == s@.subrange(from as int, to as int),
{
    let mut out = String::new();
    let mut k = from;
    while k < to
        invariant
            from <= k <= to <= s@.len(),
            out@ == s@.subrange(from as int, k as int),
        decreases to - k,
    {
        push_char(&mut out, s[k]);
        proof {
            assert(s@.subrange(from as int, k + 1 as int) =~= s@.subrange(
                from as int,
                k as int,
            ).push(s@[k as int]));
        }
        k = k + 1;
    }
    out
}

/// The characters of `s`, in order, as an indexable vector.
pub fn char_vec_of_str(s: &str) -> (r: Vec<char>)
    ensures
        r@ == s@,
{
    let mut it = s.chars();
    let mut v: Vec<char> = Vec::new();
    loop
        invariant
            v@ + vstd::std_specs::iter::IteratorSpec::remaining(&it) == s@,
            vstd::std_specs::iter::IteratorSpec::decrease(&it) is Some,
        ensures
            v@ == s@,
        decreases vstd::std_specs::iter::IteratorSpec::decrease(&it)->0,
    {
        match it.next() {
            Some(c) => {
                v.push(c);
            },
            None => {
                proof {
                    assert(v@ =~= s@);
                }
                break ;
            },
        }
    }
    v
}

} // verus!
