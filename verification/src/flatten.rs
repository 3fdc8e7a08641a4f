//! The flattening layer: a pure structural transform that collapses a
//! tensor of any rank into one row-major vector.
use crate::tensor::{lemma_shape_product_single, make_tensor, Tensor, TensorView};
use crate::traits::{FloatLikePrimitive, Layer};
use vstd::prelude::*;

verus! {

/// The flattened form of `x`: one axis holding every element of `x` in
/// unchanged row-major order.
pub open spec fn flatten_view<F>(x: TensorView<F>) -> TensorView<F> {
    TensorView { shape: seq![x.data.len() as usize], data: x.data }
}

/// Stateless rank-collapsing reshape layer.
pub struct Flatten<F: FloatLikePrimitive> {
    marker: core::marker::PhantomData<F>,
}

impl<F: FloatLikePrimitive> Flatten<F> {
    /// Creates the flattening layer; it owns no data.
    pub fn new() -> Self {
        Self { marker: core::marker::PhantomData }
    }

    /// Collapses `x` into a rank-one tensor, preserving the row-major
    /// element order of the source exactly.
    pub fn activate(&self, x: &Tensor<F>) -> (r: Tensor<F>)
        ensures
            r@ == flatten_view(x@),
            r@.wf(),
    {
        proof {
            use_type_invariant(&*x);
        }
        let data = x.to_vec();
        let count = data.len();
        let shape: Vec<usize> = vec![count];
        proof {
            assert(shape@ =~= seq![count]);
            lemma_shape_product_single(shape@);
        }
        let r = make_tensor(shape, data);
        proof {
            assert(r@ =~= flatten_view(x@));
        }
        r
    }
}

impl<F: FloatLikePrimitive> Layer<Tensor<F>, Tensor<F>> for Flatten<F> {
    open spec fn accepts(&self, input: TensorView<F>) -> bool {
        true
    }

    open spec fn transform(&self, input: TensorView<F>) -> TensorView<F> {
        flatten_view(input)
    }

    fn forward_pass(&self, input: &Tensor<F>) -> (r: Tensor<F>) {
        self.activate(input)
    }
}

} // verus!
