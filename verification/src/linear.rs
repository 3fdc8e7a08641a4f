//! The affine (fully connected) layer: `output = input · Wᵗ + bias`,
//! with the weight matrix in (out-features, in-features) layout and the
//! optional bias broadcast over every batch row.
use crate::model::ModelError;
use crate::tensor::{
    copy_elements, lemma_shape_product_pair, lemma_shape_product_single, make_tensor,
    shape_product, Tensor, TensorView,
};
use crate::traits::{FloatLikePrimitive, Layer};
use vstd::arithmetic::div_mod::lemma_fundamental_div_mod_converse;
use vstd::prelude::*;

verus! {

/// Dot product of `n` element pairs, taken from `w` starting at `wbase`
/// and from `x` starting at `xbase`, accumulated left to right from the
/// additive origin.
pub open spec fn dot_prefix<F: FloatLikePrimitive>(
    w: Seq<F>,
    x: Seq<F>,
    wbase: int,
    xbase: int,
    n: int,
) -> F
    decreases n,
{
    if n <= 0 {
        F::zero_spec()
    } else {
        dot_prefix(w, x, wbase, xbase, n - 1).add_spec(
            w[wbase + n - 1].mul_spec(x[xbase + n - 1]),
        )
    }
}

/// One element of the affine output: the dot product of weight row `j`
/// with input row `i`, plus the bias entry for `j` when a bias is given.
pub open spec fn affine_elem<F: FloatLikePrimitive>(
    w: Seq<F>,
    bias: Option<Seq<F>>,
    x: Seq<F>,
    in_f: int,
    i: int,
    j: int,
) -> F {
    let d = dot_prefix(w, x, j * in_f, i * in_f, in_f);
    match bias {
        Some(b) => d.add_spec(b[j]),
        None => d,
    }
}

/// Row-major data of the affine output for `bsz` input rows of `in_f`
/// features each, against a weight matrix of `out_f` rows.
pub open spec fn affine_data<F: FloatLikePrimitive>(
    w: Seq<F>,
    bias: Option<Seq<F>>,
    x: Seq<F>,
    bsz: int,
    in_f: int,
    out_f: int,
) -> Seq<F> {
    Seq::new(
        (bsz * out_f) as nat,
        |t: int| affine_elem(w, bias, x, in_f, t / out_f, t % out_f),
    )
}

/// `xd` with `b` broadcast-added along rows of width `width`; without a
/// bias the data is unchanged.
pub open spec fn biased_data<F: FloatLikePrimitive>(
    xd: Seq<F>,
    bias: Option<Seq<F>>,
    width: int,
) -> Seq<F> {
    match bias {
        Some(b) => Seq::new(xd.len(), |t: int| xd[t].add_spec(b[t % width])),
        None => xd,
    }
}

/// Number of input rows a shape of rank one or two carries.
pub open spec fn batch_count(s: Seq<usize>) -> int {
    if s.len() == 1 {
        1
    } else {
        s[0] as int
    }
}

/// Whether a shape is acceptable input for an affine layer of `in_f`
/// input features: a single feature vector or a batch of them, with the
/// feature count on the trailing axis.
pub open spec fn lin_accepts_shape(s: Seq<usize>, in_f: usize) -> bool {
    ||| (s.len() == 1 && s[0] == in_f)
    ||| (s.len() == 2 && s[1] == in_f)
}

/// The corresponding output shape: the feature axis is replaced by the
/// output feature count and the rank is kept.
pub open spec fn lin_out_shape(s: Seq<usize>, out_f: usize) -> Seq<usize> {
    if s.len() == 1 {
        seq![out_f]
    } else {
        seq![s[0], out_f]
    }
}

/// The shape and bias data of a bias argument passed by reference.
pub open spec fn opt_bias_data<F: FloatLikePrimitive>(bias: Option<&Tensor<F>>) -> Option<Seq<F>> {
    match bias {
        Some(b) => Some(b@.data),
        None => None,
    }
}

/// A bias argument agrees with `out_f` output features: when present it
/// is a vector of exactly `out_f` entries.
pub open spec fn opt_bias_wf<F: FloatLikePrimitive>(bias: Option<&Tensor<F>>, out_f: usize) -> bool {
    match bias {
        Some(b) => b@.rank() == 1 && b@.shape[0] == out_f,
        None => true,
    }
}

/// Flat row-major indexing stays inside the matrix.
pub proof fn lemma_index_bound(i: int, k: int, b: int, n: int)
    requires
        0 <= i < b,
        0 <= k < n,
    ensures
        0 <= i * n + k < b * n,
{
    assert(0 <= i * n + k < b * n) by (nonlinear_arith)
        requires
            0 <= i < b,
            0 <= k < n,
    ;
}

/// Adding the bias as a second pass over the raw products gives the
/// biased affine output directly.
pub proof fn lemma_affine_with_bias<F: FloatLikePrimitive>(
    w: Seq<F>,
    b: Seq<F>,
    x: Seq<F>,
    bsz: int,
    in_f: int,
    out_f: int,
)
    requires
        bsz >= 0,
        out_f >= 1,
    ensures
        biased_data(affine_data(w, Option::<Seq<F>>::None, x, bsz, in_f, out_f), Some(b), out_f)
            =~= affine_data(w, Some(b), x, bsz, in_f, out_f),
{
    let raw = affine_data(w, Option::<Seq<F>>::None, x, bsz, in_f, out_f);
    let lhs = biased_data(raw, Some(b), out_f);
    let rhs = affine_data(w, Some(b), x, bsz, in_f, out_f);
    assert(lhs.len() == rhs.len());
    assert forall|t: int| 0 <= t < lhs.len() implies lhs[t] == rhs[t] by {
        assert(0 <= t % out_f < out_f);
    }
}

/// Computes the raw (bias-free) affine products of a batch of `bsz`
/// rows against the `out_f` × `in_f` weight matrix `wdata`.
fn matmul_t_data<F: FloatLikePrimitive>(
    wdata: &Vec<F>,
    xdata: &Vec<F>,
    bsz: usize,
    in_f: usize,
    out_f: usize,
) -> (r: Vec<F>)
    requires
        wdata@.len() == out_f * in_f,
        xdata@.len() == bsz * in_f,
        bsz * out_f <= usize::MAX,
    ensures
        r@ == affine_data(
            wdata@,
            Option::<Seq<F>>::None,
            xdata@,
            bsz as int,
            in_f as int,
            out_f as int,
        ),
{
    let wn = wdata.len();
    let xn = xdata.len();
    let mut out: Vec<F> = Vec::new();
    let mut i: usize = 0;
    while i < bsz
        invariant
            i <= bsz,
            wn == wdata@.len() == out_f * in_f,
            xn == xdata@.len() == bsz * in_f,
            bsz * out_f <= usize::MAX,
            out@.len() == i * out_f,
            forall|t: int|
                0 <= t < out@.len() ==> out@[t] == affine_elem(
                    wdata@,
                    Option::<Seq<F>>::None,
                    xdata@,
                    in_f as int,
                    t / (out_f as int),
                    t % (out_f as int),
                ),
        decreases bsz - i,
    {
        let mut j: usize = 0;
        while j < out_f
            invariant
                i < bsz,
                j <= out_f,
                wn == wdata@.len() == out_f * in_f,
                xn == xdata@.len() == bsz * in_f,
                bsz * out_f <= usize::MAX,
                out@.len() == i * out_f + j,
                forall|t: int|
                    0 <= t < out@.len() ==> out@[t] == affine_elem(
                        wdata@,
                        Option::<Seq<F>>::None,
                        xdata@,
                        in_f as int,
                        t / (out_f as int),
                        t % (out_f as int),
                    ),
            decreases out_f - j,
        {
            let mut acc = F::zero();
            let mut k: usize = 0;
            while k < in_f
                invariant
                    i < bsz,
                    j < out_f,
                    k <= in_f,
                    wn == wdata@.len() == out_f * in_f,
                    xn == xdata@.len() == bsz * in_f,
                    acc == dot_prefix(
                        wdata@,
                        xdata@,
                        j as int * in_f as int,
                        i as int * in_f as int,
                        k as int,
                    ),
                decreases in_f - k,
            {
                proof {
                    lemma_index_bound(j as int, k as int, out_f as int, in_f as int);
                    lemma_index_bound(i as int, k as int, bsz as int, in_f as int);
                }
                let w_el = wdata[j * in_f + k];
                let x_el = xdata[i * in_f + k];
                acc = acc.add(w_el.mul(x_el));
                k = k + 1;
            }
            let ghost t_new = out@.len() as int;
            out.push(acc);
            proof {
                lemma_index_bound(i as int, j as int, bsz as int, out_f as int);
                lemma_fundamental_div_mod_converse(t_new, out_f as int, i as int, j as int);
                assert(out@[t_new] == acc);
                assert(out@[t_new] == affine_elem(
                    wdata@,
                    Option::<Seq<F>>::None,
                    xdata@,
                    in_f as int,
                    t_new / (out_f as int),
                    t_new % (out_f as int),
                ));
            }
            j = j + 1;
        }
        proof {
            assert((i as int + 1) * out_f as int == i as int * out_f as int + out_f as int)
                by (nonlinear_arith);
        }
        i = i + 1;
    }
    proof {
        assert(out@ =~= affine_data(
            wdata@,
            Option::<Seq<F>>::None,
            xdata@,
            bsz as int,
            in_f as int,
            out_f as int,
        ));
    }
    out
}

/// Adds the optional bias to a rank-two tensor, broadcasting it across
/// every row; the bias must align with the trailing (feature) axis.
pub(crate) fn add_bias<F: FloatLikePrimitive>(x: &Tensor<F>, bias: Option<&Tensor<F>>) -> (r:
    Tensor<F>)
    requires
        x@.rank() == 2,
        opt_bias_wf(bias, x@.shape[1]),
    ensures
        r@.shape == x@.shape,
        r@.data == biased_data(x@.data, opt_bias_data(bias), x@.shape[1] as int),
{
    proof {
        use_type_invariant(&*x);
        lemma_shape_product_pair(x@.shape);
    }
    let shape_copy = copy_elements(x.shape());
    match bias {
        None => {
            let data_copy = x.to_vec();
            make_tensor(shape_copy, data_copy)
        },
        Some(bias_array) => {
            proof {
                use_type_invariant(&*bias_array);
                lemma_shape_product_single(bias_array@.shape);
            }
            let width = shape_copy[1];
            let xd = x.data();
            let bd = bias_array.data();
            let n = xd.len();
            let mut out: Vec<F> = Vec::new();
            let mut t: usize = 0;
            while t < n
                invariant
                    t <= n,
                    n == x@.data.len() == x@.shape[0] * x@.shape[1],
                    width == x@.shape[1],
                    xd@ == x@.data,
                    bd@ == bias_array@.data,
                    bd@.len() == width,
                    out@.len() == t,
                    forall|u: int|
                        0 <= u < t ==> out@[u] == x@.data[u].add_spec(
                            bias_array@.data[u % (width as int)],
                        ),
                decreases n - t,
            {
                proof {
                    assert(width >= 1) by (nonlinear_arith)
                        requires
                            (t as int) < (x@.shape[0] as int) * (x@.shape[1] as int),
                            t >= 0,
                            width == x@.shape[1],
                    ;
                }
                let el = xd[t].add(bd[t % width]);
                out.push(el);
                t = t + 1;
            }
            proof {
                assert(out@ =~= biased_data(x@.data, opt_bias_data(bias), x@.shape[1] as int));
            }
            make_tensor(shape_copy, out)
        },
    }
}

/// A linear (fully connected) layer: an owned weight matrix in
/// (out-features, in-features) layout and an optional bias vector of
/// out-features entries.
pub struct LinearLayer<F: FloatLikePrimitive> {
    weights: Tensor<F>,
    bias: Option<Tensor<F>>,
}

/// Mathematical model of a linear layer.
#[verifier::ext_equal]
pub struct LinearLayerView<F> {
    pub weights: TensorView<F>,
    pub bias: Option<TensorView<F>>,
}

impl<F: FloatLikePrimitive> View for LinearLayer<F> {
    type V = LinearLayerView<F>;

    closed spec fn view(&self) -> LinearLayerView<F> {
        LinearLayerView {
            weights: self.weights@,
            bias: match self.bias {
                Some(b) => Some(b@),
                None => None,
            },
        }
    }
}

impl<F: FloatLikePrimitive> LinearLayerView<F> {
    /// Number of output features: the weight matrix's leading axis.
    pub open spec fn out_features(self) -> usize {
        self.weights.shape[0]
    }

    /// Number of input features: the weight matrix's trailing axis.
    pub open spec fn in_features(self) -> usize {
        self.weights.shape[1]
    }

    /// The weights form a matrix and the bias, when present, is a vector
    /// of exactly one entry per output feature.
    pub open spec fn wf(self) -> bool {
        &&& self.weights.wf()
        &&& self.weights.rank() == 2
        &&& match self.bias {
            Some(b) => b.wf() && b.rank() == 1 && b.shape[0] == self.out_features(),
            None => true,
        }
    }

    /// The bias elements, when a bias is present.
    pub open spec fn bias_data(self) -> Option<Seq<F>> {
        match self.bias {
            Some(b) => Some(b.data),
            None => None,
        }
    }

    /// Input shapes the layer accepts: a single feature vector, or a
    /// batch of feature vectors with the feature count on the trailing
    /// axis.
    pub open spec fn accepts_shape(self, s: Seq<usize>) -> bool {
        lin_accepts_shape(s, self.in_features())
    }

    /// Number of input rows an accepted shape carries.
    pub open spec fn batch_of(self, s: Seq<usize>) -> int {
        batch_count(s)
    }

    /// Output shape for an accepted input shape: the feature axis is
    /// replaced by the output feature count; the rank is kept.
    pub open spec fn out_shape(self, s: Seq<usize>) -> Seq<usize> {
        lin_out_shape(s, self.out_features())
    }

    /// The affine transform `x · Wᵗ + bias` of an accepted input.
    pub open spec fn apply(self, x: TensorView<F>) -> TensorView<F> {
        TensorView {
            shape: self.out_shape(x.shape),
            data: affine_data(
                self.weights.data,
                self.bias_data(),
                x.data,
                self.batch_of(x.shape),
                self.in_features() as int,
                self.out_features() as int,
            ),
        }
    }
}

impl<F: FloatLikePrimitive> LinearLayer<F> {
    /// A built layer always holds a weight matrix and a matching bias.
    #[verifier::type_invariant]
    pub open spec fn inv(self) -> bool {
        self@.wf()
    }

    /// Creates a linear layer from a weight matrix, given in
    /// (out-features, in-features) layout, and an optional bias vector.
    /// A weight tensor that is no matrix is refused as a shape mismatch;
    /// a bias whose length is not the output feature count is refused as
    /// a bias-shape violation, so that no forward pass can ever see it.
    pub fn new(weights_array: Tensor<F>, bias_array: Option<Tensor<F>>) -> (r: Result<
        LinearLayer<F>,
        ModelError,
    >)
        ensures
            match r {
                Ok(l) => {
                    &&& l@.wf()
                    &&& weights_array@.rank() == 2
                    &&& l@.weights == weights_array@
                    &&& l@.bias == match bias_array {
                        Some(b) => Some(b@),
                        None => None::<TensorView<F>>,
                    }
                },
                Err(ModelError::ShapeMismatch) => weights_array@.rank() != 2,
                Err(ModelError::BiasShapeViolation) => {
                    &&& weights_array@.rank() == 2
                    &&& !(match bias_array {
                        Some(b) => b@.rank() == 1 && b@.shape[0] == weights_array@.shape[0],
                        None => true,
                    })
                },
                Err(_) => false,
            },
            r is Ok <==> (weights_array@.rank() == 2 && match bias_array {
                Some(b) => b@.rank() == 1 && b@.shape[0] == weights_array@.shape[0],
                None => true,
            }),
    {
        proof {
            use_type_invariant(&weights_array);
        }
        if weights_array.rank() != 2 {
            return Err(ModelError::ShapeMismatch);
        }
        let out_f = weights_array.shape()[0];
        match bias_array {
            Some(bias_tensor) => {
                proof {
                    use_type_invariant(&bias_tensor);
                }
                let bias_ok = bias_tensor.rank() == 1 && bias_tensor.shape()[0] == out_f;
                if bias_ok {
                    Ok(LinearLayer { weights: weights_array, bias: Some(bias_tensor) })
                } else {
                    Err(ModelError::BiasShapeViolation)
                }
            },
            None => Ok(LinearLayer { weights: weights_array, bias: None }),
        }
    }

    /// Applies the layer to a single feature vector.
    pub fn linear(&self, input_array: &Tensor<F>) -> (r: Tensor<F>)
        requires
            input_array@.rank() == 1,
            input_array@.shape[0] == self@.in_features(),
        ensures
            r@ == self@.apply(input_array@),
    {
        proof {
            use_type_invariant(self);
        }
        let r = multiply(&self.weights, self.bias.as_ref(), input_array);
        proof {
            assert(opt_bias_data(
                match self.bias {
                    Some(ref b) => Some(b),
                    None => None,
                },
            ) == self@.bias_data());
            assert(r@ =~= self@.apply(input_array@));
        }
        r
    }
}

/// Multiplies a single feature vector `im2d` by the transposed weight
/// matrix and adds the optional bias: the affine map of one input row.
pub fn multiply<F: FloatLikePrimitive>(
    kernel_weights: &Tensor<F>,
    bias: Option<&Tensor<F>>,
    im2d: &Tensor<F>,
) -> (r: Tensor<F>)
    requires
        kernel_weights@.rank() == 2,
        im2d@.rank() == 1,
        im2d@.shape[0] == kernel_weights@.shape[1],
        opt_bias_wf(bias, kernel_weights@.shape[0]),
    ensures
        r@.shape == seq![kernel_weights@.shape[0]],
        r@.data == affine_data(
            kernel_weights@.data,
            opt_bias_data(bias),
            im2d@.data,
            1,
            kernel_weights@.shape[1] as int,
            kernel_weights@.shape[0] as int,
        ),
{
    proof {
        use_type_invariant(&*kernel_weights);
        use_type_invariant(&*im2d);
        lemma_shape_product_pair(kernel_weights@.shape);
        lemma_shape_product_single(im2d@.shape);
    }
    let out_f = kernel_weights.shape()[0];
    let in_f = kernel_weights.shape()[1];
    let mm = matmul_t_data(kernel_weights.data(), im2d.data(), 1, in_f, out_f);
    let shape2: Vec<usize> = vec![1, out_f];
    proof {
        assert(shape2@ =~= seq![1usize, out_f]);
        lemma_shape_product_pair(shape2@);
    }
    let t2 = make_tensor(shape2, mm);
    let t3 = add_bias(&t2, bias);
    let data3 = t3.to_vec();
    let shape1: Vec<usize> = vec![out_f];
    proof {
        assert(shape1@ =~= seq![out_f]);
        lemma_shape_product_single(shape1@);
        match bias {
            Some(b) => {
                use_type_invariant(&*b);
                if out_f >= 1 {
                    lemma_affine_with_bias(
                        kernel_weights@.data,
                        b@.data,
                        im2d@.data,
                        1,
                        in_f as int,
                        out_f as int,
                    );
                } else {
                    assert(t3@.data =~= affine_data(
                        kernel_weights@.data,
                        opt_bias_data(bias),
                        im2d@.data,
                        1,
                        in_f as int,
                        out_f as int,
                    ));
                }
            },
            None => {},
        }
    }
    make_tensor(shape1, data3)
}

impl<F: FloatLikePrimitive> Layer<Tensor<F>, Tensor<F>> for LinearLayer<F> {
    open spec fn accepts(&self, input: TensorView<F>) -> bool {
        &&& self@.accepts_shape(input.shape)
        &&& self@.batch_of(input.shape) * self@.out_features() <= usize::MAX
    }

    open spec fn transform(&self, input: TensorView<F>) -> TensorView<F> {
        self@.apply(input)
    }

    /// Applies the affine transform to a feature vector or to a batch of
    /// feature vectors; the output rank matches the input rank.
    fn forward_pass(&self, input: &Tensor<F>) -> (r: Tensor<F>) {
        proof {
            use_type_invariant(self);
            use_type_invariant(&*input);
        }
        if input.rank() == 1 {
            self.linear(input)
        } else {
            proof {
                lemma_shape_product_pair(input@.shape);
                lemma_shape_product_pair(self@.weights.shape);
            }
            let bsz = input.shape()[0];
            let out_f = self.weights.shape()[0];
            let in_f = self.weights.shape()[1];
            let mm = matmul_t_data(self.weights.data(), input.data(), bsz, in_f, out_f);
            let shape2: Vec<usize> = vec![bsz, out_f];
            proof {
                assert(shape2@ =~= seq![bsz, out_f]);
                lemma_shape_product_pair(shape2@);
            }
            let t2 = make_tensor(shape2, mm);
            let r = add_bias(&t2, self.bias.as_ref());
            proof {
                assert(opt_bias_data(
                    match self.bias {
                        Some(ref b) => Some(b),
                        None => None,
                    },
                ) == self@.bias_data());
                match self@.bias {
                    Some(b) => {
                        if out_f >= 1 {
                            lemma_affine_with_bias(
                                self@.weights.data,
                                b.data,
                                input@.data,
                                bsz as int,
                                in_f as int,
                                out_f as int,
                            );
                        } else {
                            assert(r@.data =~= self@.apply(input@).data);
                        }
                    },
                    None => {},
                }
                assert(r@ =~= self@.apply(input@));
            }
            r
        }
    }
}

} // verus!
