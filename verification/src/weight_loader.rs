//! Loading named parameters out of an in-memory weight archive,
//! reconciling the shape each entry is stored with against the shape the
//! caller requests, including the flat-storage fallback.
use crate::tensor::{
    copy_elements, make_tensor, product_of, shape_product, shapes_equal, Tensor, TensorView,
};
use crate::traits::{DecodeOutcome, FloatLikePrimitive, StoredEntry};
use vstd::prelude::*;

verus! {

/// Why a parameter could not be fetched.
#[derive(Debug)]
pub enum WeightError {
    /// No entry with the requested name is stored in the archive.
    KeyNotFound(String),
    /// The entry (or the archive around it) is not in either accepted
    /// encoding: neither shaped as requested nor flat.
    FormatError,
    /// The underlying file or stream failed.
    IOError,
    /// The flat-storage fallback failed because the stored element count
    /// differs from the product of the requested dimensions.
    ShapeError,
}

/// What `get_weight` must return for the entry the archive stores under
/// `name` when the caller requests shape `target`: the entry decoded
/// directly when its stored shape is exactly `target`; the stored
/// elements reshaped row-major when the entry is flat and its length is
/// the product of `target`'s dimensions; and the matching typed error
/// otherwise.
pub open spec fn get_weight_post<F: FloatLikePrimitive>(
    archive: Seq<u8>,
    name: Seq<char>,
    target: Seq<usize>,
    r: Result<Tensor<F>, WeightError>,
) -> bool {
    match F::stored_entry(archive, name) {
        StoredEntry::Absent => r matches Err(WeightError::KeyNotFound(n)) && n@ == name,
        StoredEntry::Unreadable => r matches Err(WeightError::FormatError),
        StoredEntry::Present { shape: stored_shape, data: stored_data } => {
            if stored_shape == target {
                r matches Ok(t) && t@.shape == target && t@.data == stored_data
            } else if stored_shape.len() == 1 && target.len() >= 1 && stored_data.len()
                == shape_product(target) {
                r matches Ok(t) && t@.shape == target && t@.data == stored_data
            } else if stored_shape.len() == 1 {
                r matches Err(WeightError::ShapeError)
            } else {
                r matches Err(WeightError::FormatError)
            }
        },
    }
}

/// The tensor that fetching `name` with shape `target` yields, when the
/// fetch succeeds at all: the stored elements under the requested shape,
/// through either the direct decode or the flat-storage fallback.
pub open spec fn resolved_weight<F: FloatLikePrimitive>(
    archive: Seq<u8>,
    name: Seq<char>,
    target: Seq<usize>,
) -> Option<TensorView<F>> {
    match F::stored_entry(archive, name) {
        StoredEntry::Present { shape: stored_shape, data: stored_data } => {
            if stored_shape == target || (stored_shape.len() == 1 && target.len() >= 1
                && stored_data.len() == shape_product(target)) {
                Some(TensorView { shape: target, data: stored_data })
            } else {
                None
            }
        },
        _ => None,
    }
}

/// A fetch meeting the loader contract succeeds exactly when the entry
/// resolves, and then returns the resolved tensor.
pub proof fn lemma_get_weight_resolved<F: FloatLikePrimitive>(
    archive: Seq<u8>,
    name: Seq<char>,
    target: Seq<usize>,
    r: Result<Tensor<F>, WeightError>,
)
    requires
        get_weight_post::<F>(archive, name, target, r),
    ensures
        r is Ok <==> resolved_weight::<F>(archive, name, target) is Some,
        r matches Ok(t) ==> resolved_weight::<F>(archive, name, target) == Some(t@),
{
    match F::stored_entry(archive, name) {
        StoredEntry::Present { shape: stored_shape, data: stored_data } => {
            match r {
                Ok(t) => {
                    assert(t@ =~= TensorView { shape: target, data: stored_data });
                },
                Err(_) => {},
            }
        },
        _ => {},
    }
}

/// A source of named parameters: each fetch reconciles the stored shape
/// against the requested one and yields a tensor of exactly the
/// requested shape, or a typed error.
pub trait WeightLoader {
    /// The archive bytes this loader decodes from.
    spec fn archive_bytes(&self) -> Seq<u8>;

    /// Fetches the parameter stored under `param_name`, requested with
    /// shape `shape`.
    fn get_weight<F: FloatLikePrimitive>(&self, param_name: &str, shape: &Vec<usize>) -> (r: Result<
        Tensor<F>,
        WeightError,
    >)
        ensures
            get_weight_post::<F>(self.archive_bytes(), param_name@, shape@, r),
    ;
}

/// Loader for weights kept in an npz-style archive held in memory; each
/// fetch is an independent decode of the same bytes.
pub struct NpzWeightLoader {
    archive: Vec<u8>,
}

impl View for NpzWeightLoader {
    type V = Seq<u8>;

    closed spec fn view(&self) -> Seq<u8> {
        self.archive@
    }
}

impl NpzWeightLoader {
    /// Creates a weight loader over an in-memory archive.
    pub fn from_buffer(bytes_array: &[u8]) -> (r: Result<NpzWeightLoader, WeightError>)
        ensures
            r matches Ok(l) && l@ == bytes_array@,
    {
        Ok(NpzWeightLoader { archive: slice_to_copied_vec(bytes_array) })
    }
}

/// Copies a byte slice into an owned vector.
fn slice_to_copied_vec(bytes: &[u8]) -> (r: Vec<u8>)
    ensures
        r@ == bytes@,
{
    let n = bytes.len();
    let mut out: Vec<u8> = Vec::new();
    let mut i: usize = 0;
    while i < n
        invariant
            i <= n,
            n == bytes@.len(),
            out@ =~= bytes@.subrange(0, i as int),
        decreases n - i,
    {
        out.push(bytes[i]);
        i = i + 1;
    }
    proof {
        assert(out@ =~= bytes@);
    }
    out
}

impl WeightLoader for NpzWeightLoader {
    open spec fn archive_bytes(&self) -> Seq<u8> {
        self@
    }

    /// First tries the entry decoded with exactly the requested shape;
    /// failing that, falls back to the entry stored flat, reshaped
    /// row-major into the requested shape when the element counts agree.
    fn get_weight<F: FloatLikePrimitive>(&self, param_name: &str, shape: &Vec<usize>) -> (r: Result<
        Tensor<F>,
        WeightError,
    >) {
        let outcome = F::decode_entry(self.archive.as_slice(), param_name);
        match outcome {
            DecodeOutcome::Missing => Err(WeightError::KeyNotFound(param_name.to_owned())),
            DecodeOutcome::Malformed => Err(WeightError::FormatError),
            DecodeOutcome::Found { shape: stored_shape, data } => {
                if shapes_equal(&stored_shape, shape) {
                    let shape_copy = copy_elements(shape);
                    Ok(make_tensor(shape_copy, data))
                } else if stored_shape.len() == 1 {
                    if shape.len() == 0 {
                        return Err(WeightError::ShapeError);
                    }
                    let data_len = data.len();
                    match product_of(shape) {
                        Some(p) => {
                            if p == data_len {
                                let shape_copy = copy_elements(shape);
                                Ok(make_tensor(shape_copy, data))
                            } else {
                                Err(WeightError::ShapeError)
                            }
                        },
                        None => Err(WeightError::ShapeError),
                    }
                } else {
                    Err(WeightError::FormatError)
                }
            },
        }
    }
}

} // verus!
