//! The tagged word: type tag in bits [0,8), color in bits [8,10), size above.
use vstd::prelude::*;

verus! {

/// Color class of a pinned block: exempt from reclamation.
pub const NOT_MARKABLE: usize = 768;

/// Type tag of a block whose second word points to a finalizer descriptor.
pub const CUSTOM_TAG: u64 = 255;

/// Largest payload size (in words) that the size field can hold.
pub const MAX_WORDS: u64 = 0x3f_ffff_ffff_ffff;

/// One machine word of the heap.
#[derive(Clone, Copy, Debug, PartialEq, Eq, Structural)]
pub struct Value(pub u64);

/// The type tag of a header word.
pub open spec fn tag_of(w: u64) -> u64 {
    w & 0xff
}

/// The color bits of a header word.
pub open spec fn color_of(w: u64) -> u64 {
    w & 0x300
}

/// The payload size, in words, of a header word.
pub open spec fn size_of(w: u64) -> u64 {
    w >> 10
}

/// A color class that a header can carry.
pub open spec fn is_color(c: usize) -> bool {
    c == 0 || c == 256 || c == 512 || c == 768
}

/// The header word of a block of `words` payload words.
pub open spec fn header(words: nat, color: nat, tag: nat) -> u64 {
    (words * 1024 + color + tag) as u64
}

proof fn lemma_header_fields_bv(n: u64, c: u64, t: u64)
    by (bit_vector)
    requires
        n <= 0x3f_ffff_ffff_ffff,
        c == 0 || c == 256 || c == 512 || c == 768,
        t < 256,
    ensures
        (((n << 10) + c + t) as u64) & 0xff == t,
        (((n << 10) + c + t) as u64) & 0x300 == c,
        (((n << 10) + c + t) as u64) >> 10 == n,
{
}

/// A header built from in-range fields gives those fields back.
pub proof fn lemma_header_fields(words: nat, color: nat, tag: nat)
    requires
        words <= MAX_WORDS,
        is_color(color as usize),
        color <= 768,
        tag < 256,
    ensures
        tag_of(header(words, color, tag)) == tag,
        color_of(header(words, color, tag)) == color,
        size_of(header(words, color, tag)) == words,
{
    let n = words as u64;
    assert((n << 10) == n * 1024) by (bit_vector)
        requires
            n <= 0x3f_ffff_ffff_ffff,
    ;
    lemma_header_fields_bv(n, color as u64, tag as u64);
}

impl Value {
    /// Packs a header word from its size, color and tag.
    pub fn make_header(words: usize, color: usize, tag: usize) -> (r: Value)
        requires
            words <= MAX_WORDS,
            is_color(color),
            tag < 256,
        ensures
            r.0 == header(words as nat, color as nat, tag as nat),
            size_of(r.0) == words,
            color_of(r.0) == color,
            tag_of(r.0) == tag,
    {
        proof {
            lemma_header_fields(words as nat, color as nat, tag as nat);
        }
        let n = words as u64;
        assert((n << 10) == n * 1024) by (bit_vector)
            requires
                n <= 0x3f_ffff_ffff_ffff,
        ;
        Value(((n << 10) + color as u64 + tag as u64))
    }

    /// The color bits of this word.
    pub fn color(&self) -> (r: u64)
        ensures
            r == color_of(self.0),
    {
        self.0 & 0x300
    }
}

/// Whether the header word `hd` carries the custom-finalizer tag.
pub fn has_custom_tag(hd: Value) -> (r: bool)
    ensures
        r == (tag_of(hd.0) == CUSTOM_TAG),
{
    hd.0 & 0xff == CUSTOM_TAG
}

} // verus!
