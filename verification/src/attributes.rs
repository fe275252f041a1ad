//! What a caller asks of the GPU when a rendering context is negotiated.
use vstd::prelude::*;

verus! {

/// The requested GPU API version and buffer depths.
///
/// The record is configuration: it is copied into the context at creation
/// and only steers the negotiation.
#[derive(Clone, Copy, Debug, PartialEq, Eq, Structural)]
pub struct ContextAttributes {
    pub major: i32,
    pub minor: i32,
    pub red_bits: i32,
    pub green_bits: i32,
    pub blue_bits: i32,
    pub alpha_bits: i32,
    pub depth_bits: i32,
    pub stencil_bits: i32,
}

impl ContextAttributes {
    /// The record as it is laid out for storage or transmission: the eight
    /// fields in their declared order.
    pub open spec fn wire(self) -> Seq<i32> {
        seq![
            self.major,
            self.minor,
            self.red_bits,
            self.green_bits,
            self.blue_bits,
            self.alpha_bits,
            self.depth_bits,
            self.stencil_bits,
        ]
    }

    /// Lays the record out in wire order.
    pub fn to_wire(&self) -> (words: [i32; 8])
        ensures
            words@ == self.wire(),
    {
        let words: [i32; 8] = [
            self.major,
            self.minor,
            self.red_bits,
            self.green_bits,
            self.blue_bits,
            self.alpha_bits,
            self.depth_bits,
            self.stencil_bits,
        ];
        words
    }

    /// Reads a record back from its wire layout.
    pub fn from_wire(words: &[i32; 8]) -> (attributes: ContextAttributes)
        ensures
            attributes.wire() == words@,
    {
        let attributes = ContextAttributes {
            major: words[0],
            minor: words[1],
            red_bits: words[2],
            green_bits: words[3],
            blue_bits: words[4],
            alpha_bits: words[5],
            depth_bits: words[6],
            stencil_bits: words[7],
        };
        attributes
    }
}

/// The wire layout determines the record: two records with one layout are
/// the same record.
pub proof fn lemma_wire_is_injective(a: ContextAttributes, b: ContextAttributes)
    requires
        a.wire() == b.wire(),
    ensures
        a == b,
{
}

} // verus!
