//! Byte spans over source text.

use vstd::prelude::*;

verus! {

/// A span of bytes in source code: inclusive start offset, exclusive end.
#[derive(Debug, Default, PartialEq, Eq, Clone, Copy, Structural)]
pub struct Span {
    /// The inclusive start byte-offset in the source code.
    pub start: usize,
    /// The exclusive end byte-offset in the source code.
    pub end: usize,
}

/// The bytes of `source` that `span` covers; offsets outside the source
/// are clamped away.
pub open spec fn spec_slice(source: Seq<u8>, span: Span) -> Seq<u8> {
    if span.start <= span.end && span.end <= source.len() {
        source.subrange(span.start as int, span.end as int)
    } else {
        Seq::empty()
    }
}

/// Copies the bytes of `source` that `span` covers; a span that does not
/// lie within the source yields the empty string.
pub fn span_slice(source: &[u8], span: Span) -> (r: Vec<u8>)
    ensures
        r@ == spec_slice(source@, span),
{
    if span.start <= span.end && span.end <= source.len() {
        let mut out: Vec<u8> = Vec::new();
        let mut i: usize = span.start;
        while i < span.end
            invariant
                span.start <= i <= span.end,
                span.end <= source.len(),
                out@ =~= source@.subrange(span.start as int, i as int),
            decreases span.end - i,
        {
            out.push(source[i]);
            proof {
                assert(out@ =~= source@.subrange(span.start as int, i + 1));
            }
            i = i + 1;
        }
        out
    } else {
        Vec::new()
    }
}

} // verus!
