//! Fragments of canonical text.
//!
//! While the parse tree is walked, most of what is gathered is the input
//! itself, piece after adjacent piece. An `RString` holds such a run as a
//! span of the input and allocates only when text has been changed.

use vstd::prelude::*;

verus! {

/// A span `[start, end)` of the input.
#[derive(Debug)]
pub struct RSlice {
    pub start: usize,
    pub end: usize,
}

/// A fragment: a span of the input, to be copied unchanged, or text of its
/// own.
#[derive(Debug)]
pub enum RString {
    Slice(RSlice),
    Str(Vec<u8>),
}

/// Appends the bytes `[start, end)` of `input` to `out`.
pub fn push_span(out: &mut Vec<u8>, input: &[u8], start: usize, end: usize)
    requires
        start <= end <= input@.len(),
    ensures
        final(out)@ == old(out)@ + input@.subrange(start as int, end as int),
{
    let mut i = start;
    while i < end
        invariant
            start <= i <= end <= input@.len(),
            out@ == old(out)@ + input@.subrange(start as int, i as int),
        decreases end - i,
    {
        out.push(input[i]);
        i += 1;
        assert(out@ =~= old(out)@ + input@.subrange(start as int, i as int));
    }
}

/// Appends the bytes of `other` to `out`.
pub fn push_bytes(out: &mut Vec<u8>, other: &Vec<u8>)
    ensures
        final(out)@ == old(out)@ + other@,
{
    let mut i: usize = 0;
    while i < other.len()
        invariant
            i <= other@.len(),
            out@ == old(out)@ + other@.subrange(0, i as int),
        decreases other@.len() - i,
    {
        out.push(other[i]);
        i += 1;
        assert(out@ =~= old(out)@ + other@.subrange(0, i as int));
    }
    assert(other@.subrange(0, other@.len() as int) =~= other@);
}

impl RString {
    /// The text of the fragment, over the input it was made from.
    pub open spec fn text(self, input: Seq<u8>) -> Seq<u8> {
        match self {
            RString::Slice(s) => input.subrange(s.start as int, s.end as int),
            RString::Str(t) => t@,
        }
    }

    /// A span lies inside the input.
    pub open spec fn fits(self, input: Seq<u8>) -> bool {
        match self {
            RString::Slice(s) => s.start <= s.end <= input.len(),
            RString::Str(_) => true,
        }
    }

    /// The span `[start, end)` of the input.
    pub fn from_slice(start: usize, end: usize) -> (r: RString)
        ensures
            r == RString::Slice(RSlice { start, end }),
    {
        RString::Slice(RSlice { start, end })
    }

    /// A fragment that owns a copy of `s`.
    pub fn from_str(s: &[u8]) -> (r: RString)
        ensures
            r is Str,
            r->Str_0@ == s@,
    {
        let mut t: Vec<u8> = Vec::new();
        push_span(&mut t, s, 0, s.len());
        assert(s@.subrange(0, s@.len() as int) =~= s@);
        RString::Str(t)
    }

    /// The text of the fragment.
    pub fn to_string(self, input: &[u8]) -> (t: Vec<u8>)
        requires
            self.fits(input@),
        ensures
            t@ == self.text(input@),
    {
        match self {
            RString::Slice(slice) => {
                let mut t: Vec<u8> = Vec::new();
                push_span(&mut t, input, slice.start, slice.end);
                t
            },
            RString::Str(t) => t,
        }
    }

    /// The fragment followed by `other`. Two spans of which the second
    /// starts where the first ends become one span; anything else becomes
    /// text of its own.
    pub fn add(self, other: RString, input: &[u8]) -> (r: RString)
        requires
            self.fits(input@),
            other.fits(input@),
        ensures
            r.fits(input@),
            r.text(input@) == self.text(input@) + other.text(input@),
            match (self, other) {
                (RString::Slice(l), RString::Slice(o)) if l.end == o.start => r == RString::Slice(
                    RSlice { start: l.start, end: o.end },
                ),
                _ => r is Str,
            },
    {
        match (self, other) {
            (RString::Slice(mut lslice), RString::Slice(rslice)) => {
                if lslice.end == rslice.start {
                    assert(input@.subrange(lslice.start as int, rslice.end as int)
                        =~= input@.subrange(lslice.start as int, lslice.end as int)
                        + input@.subrange(rslice.start as int, rslice.end as int));
                    lslice.end = rslice.end;
                    RString::Slice(lslice)
                } else {
                    let mut s: Vec<u8> = Vec::new();
                    push_span(&mut s, input, lslice.start, lslice.end);
                    push_span(&mut s, input, rslice.start, rslice.end);
                    RString::Str(s)
                }
            },
            (RString::Slice(lslice), RString::Str(rstring)) => {
                let mut s: Vec<u8> = Vec::new();
                push_span(&mut s, input, lslice.start, lslice.end);
                push_bytes(&mut s, &rstring);
                RString::Str(s)
            },
            (RString::Str(mut lstring), RString::Slice(rslice)) => {
                push_span(&mut lstring, input, rslice.start, rslice.end);
                RString::Str(lstring)
            },
            (RString::Str(mut lstring), RString::Str(rstring)) => {
                push_bytes(&mut lstring, &rstring);
                RString::Str(lstring)
            },
        }
    }
}

} // verus!
