//! The two capability contracts of the framework: `FloatLikePrimitive`,
//! the numeric element interface every layer is generic over, and `Layer`,
//! the forward-pass contract every layer implements.
use crate::tensor::shape_product;
use vstd::prelude::*;

verus! {

/// What a weight archive stores under one key, as a mathematical value:
/// an array with its shape and row-major elements, nothing, or an entry
/// that cannot be read as an array of the element type.
pub enum StoredEntry<F> {
    Present { shape: Seq<usize>, data: Seq<F> },
    Absent,
    Unreadable,
}

/// Outcome of decoding one named archive entry into owned values.
pub enum DecodeOutcome<F> {
    Found { shape: Vec<usize>, data: Vec<F> },
    Missing,
    Malformed,
}

/// Capability contract for numeric elements that behave like primitive
/// floats: addition and multiplication for the affine accumulation, an
/// additive origin, and decodability from a binary weight archive. The
/// framework is generic over this interface; callers implement it for
/// their concrete element type, and every layer is verified against the
/// operations' stated meanings.
pub trait FloatLikePrimitive: Sized + Copy {
    /// Meaning of addition on this element type. The default body is a
    /// placeholder: verified code never relies on it, since no type in
    /// this crate implements the trait.
    open spec fn add_spec(self, rhs: Self) -> Self {
        vstd::pervasive::arbitrary()
    }

    /// Meaning of multiplication on this element type.
    open spec fn mul_spec(self, rhs: Self) -> Self {
        vstd::pervasive::arbitrary()
    }

    /// The additive origin that accumulations start from.
    open spec fn zero_spec() -> Self {
        vstd::pervasive::arbitrary()
    }

    /// The entry stored under `name` in an in-memory archive: what the
    /// decoder returns depends on the archive bytes and the name alone.
    open spec fn stored_entry(archive: Seq<u8>, name: Seq<char>) -> StoredEntry<Self> {
        vstd::pervasive::arbitrary()
    }

    /// Adds two elements.
    fn add(self, rhs: Self) -> (r: Self)
        ensures
            r == self.add_spec(rhs),
    ;

    /// Multiplies two elements.
    fn mul(self, rhs: Self) -> (r: Self)
        ensures
            r == self.mul_spec(rhs),
    ;

    /// The additive origin.
    fn zero() -> (r: Self)
        ensures
            r == Self::zero_spec(),
    ;

    /// Decodes the entry stored under `name` in `archive`, reporting the
    /// stored shape and the row-major elements, the key's absence, or an
    /// entry that is no array of this element type. A reported array
    /// carries at least one axis and exactly as many elements as its
    /// shape prescribes.
    fn decode_entry(archive: &[u8], name: &str) -> (r: DecodeOutcome<Self>)
        ensures
            match r {
                DecodeOutcome::Found { shape, data } => {
                    &&& Self::stored_entry(archive@, name@) == (StoredEntry::Present {
                        shape: shape@,
                        data: data@,
                    })
                    &&& shape@.len() >= 1
                    &&& data@.len() == shape_product(shape@)
                },
                DecodeOutcome::Missing => Self::stored_entry(archive@, name@) is Absent,
                DecodeOutcome::Malformed => Self::stored_entry(archive@, name@) is Unreadable,
            },
    ;
}

/// Capability contract of a neural layer: from an immutable reference to
/// the layer's state and an input tensor, produce the output tensor. Each
/// implementation says which inputs it accepts and what it turns them
/// into; the pass itself is pure.
pub trait Layer<I: View, O: View> {
    /// Inputs this layer accepts.
    spec fn accepts(&self, input: I::V) -> bool;

    /// The output this layer produces for an accepted input.
    spec fn transform(&self, input: I::V) -> O::V;

    /// Applies the layer to one input.
    fn forward_pass(&self, input: &I) -> (r: O)
        requires
            self.accepts(input@),
        ensures
            r@ == self.transform(input@),
    ;
}

} // verus!
