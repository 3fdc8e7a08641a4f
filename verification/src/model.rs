//! Model composition: an ordered chain of heterogeneous layers built
//! once from a weight loader, with adjacent shape compatibility checked
//! at construction so that no forward pass can fail.
use crate::flatten::{flatten_view, Flatten};
use crate::linear::{batch_count, lin_accepts_shape, lin_out_shape, LinearLayer};
use crate::tensor::{
    copy_elements, lemma_shape_product_pair, lemma_shape_product_single, product_of,
    shape_product, Tensor, TensorView,
};
use crate::traits::{FloatLikePrimitive, Layer};
use crate::weight_loader::{
    lemma_get_weight_resolved, resolved_weight, WeightError, WeightLoader,
};
use vstd::prelude::*;

verus! {

/// Why a model or a layer could not be built.
#[derive(Debug)]
pub enum ModelError {
    /// Two adjacent declared layer shapes disagree, or a weight tensor
    /// has the wrong rank for its layer.
    ShapeMismatch,
    /// A bias vector's length disagrees with the output feature count.
    BiasShapeViolation,
    /// A parameter could not be loaded from the archive.
    Weight(WeightError),
}

/// Declaration of one layer of a model: what to build and, for layers
/// with parameters, under which archive keys they are stored.
pub enum LayerSpec {
    /// An affine layer: its weight matrix is fetched with shape
    /// (out-features, in-features), and its bias, when a key is given,
    /// with shape (out-features).
    Linear { weights: String, bias: Option<String>, in_features: usize, out_features: usize },
    /// A flattening layer; it owns no parameters.
    Flatten,
}

/// One built layer of a model.
pub enum ModelLayer<F: FloatLikePrimitive> {
    Linear(LinearLayer<F>),
    Flatten(Flatten<F>),
}

impl<F: FloatLikePrimitive> ModelLayer<F> {
    /// The layer's own invariant.
    pub open spec fn wf(self) -> bool {
        match self {
            ModelLayer::Linear(l) => l@.wf(),
            ModelLayer::Flatten(_) => true,
        }
    }

    /// Input shapes the layer accepts, machine limits included.
    pub open spec fn accepts_shape(self, s: Seq<usize>) -> bool {
        match self {
            ModelLayer::Linear(l) => l@.accepts_shape(s) && batch_count(s) * l@.out_features()
                <= usize::MAX,
            ModelLayer::Flatten(_) => s.len() >= 1 && shape_product(s) <= usize::MAX,
        }
    }

    /// The output shape for an accepted input shape.
    pub open spec fn out_shape(self, s: Seq<usize>) -> Seq<usize> {
        match self {
            ModelLayer::Linear(l) => l@.out_shape(s),
            ModelLayer::Flatten(_) => seq![shape_product(s) as usize],
        }
    }

    /// What the layer turns an input tensor into.
    pub open spec fn apply(self, x: TensorView<F>) -> TensorView<F> {
        match self {
            ModelLayer::Linear(l) => l@.apply(x),
            ModelLayer::Flatten(_) => flatten_view(x),
        }
    }
}

/// A well-formed layer applied to an accepted well-formed input yields a
/// well-formed output of the layer's declared output shape.
pub proof fn lemma_layer_apply_wf<F: FloatLikePrimitive>(l: ModelLayer<F>, x: TensorView<F>)
    requires
        l.wf(),
        x.wf(),
        l.accepts_shape(x.shape),
    ensures
        l.apply(x).wf(),
        l.apply(x).shape == l.out_shape(x.shape),
{
    match l {
        ModelLayer::Linear(ll) => {
            let out_f = ll@.out_features();
            let b = batch_count(x.shape);
            if x.shape.len() == 1 {
                lemma_shape_product_single(seq![out_f]);
            } else {
                lemma_shape_product_pair(seq![x.shape[0], out_f]);
            }
            assert(l.apply(x).data.len() == b * out_f);
        },
        ModelLayer::Flatten(_) => {
            lemma_shape_product_single(seq![x.data.len() as usize]);
        },
    }
}

/// Threads a shape through a chain of layers: the shape the chain's
/// output would have, or `None` as soon as one layer refuses the shape
/// it is handed.
pub open spec fn chain_result<F: FloatLikePrimitive>(
    layers: Seq<ModelLayer<F>>,
    s: Seq<usize>,
) -> Option<Seq<usize>>
    decreases layers.len(),
{
    if layers.len() == 0 {
        Some(s)
    } else if layers[0].wf() && layers[0].accepts_shape(s) {
        chain_result(layers.drop_first(), layers[0].out_shape(s))
    } else {
        None
    }
}

/// Applies every layer of a chain in order, threading each output into
/// the next layer's input.
pub open spec fn apply_chain<F: FloatLikePrimitive>(
    layers: Seq<ModelLayer<F>>,
    x: TensorView<F>,
) -> TensorView<F>
    decreases layers.len(),
{
    if layers.len() == 0 {
        x
    } else {
        apply_chain(layers.drop_first(), layers[0].apply(x))
    }
}

/// Composition law: running a whole chain is the same as running its
/// first part and handing that result to the rest, so a model's forward
/// pass equals applying each of its layers manually in declared order.
pub proof fn lemma_forward_pass_composes<F: FloatLikePrimitive>(
    first: Seq<ModelLayer<F>>,
    rest: Seq<ModelLayer<F>>,
    x: TensorView<F>,
)
    ensures
        apply_chain(first + rest, x) == apply_chain(rest, apply_chain(first, x)),
    decreases first.len(),
{
    if first.len() == 0 {
        assert(first + rest =~= rest);
    } else {
        assert((first + rest)[0] == first[0]);
        assert((first + rest).drop_first() =~= first.drop_first() + rest);
        lemma_forward_pass_composes(first.drop_first(), rest, first[0].apply(x));
    }
}

/// Appending one layer to a chain extends the threaded shape by that
/// layer's step.
pub proof fn lemma_chain_result_push<F: FloatLikePrimitive>(
    layers: Seq<ModelLayer<F>>,
    s: Seq<usize>,
    l: ModelLayer<F>,
)
    ensures
        chain_result(layers.push(l), s) == (match chain_result(layers, s) {
            Some(t) => if l.wf() && l.accepts_shape(t) {
                Some(l.out_shape(t))
            } else {
                None::<Seq<usize>>
            },
            None => None::<Seq<usize>>,
        }),
    decreases layers.len(),
{
    let p = layers.push(l);
    if layers.len() == 0 {
        assert(p[0] == l);
        assert(p.drop_first() =~= Seq::<ModelLayer<F>>::empty());
        assert(chain_result(layers, s) == Some(s));
        if l.wf() && l.accepts_shape(s) {
            assert(chain_result(p, s) == chain_result(p.drop_first(), l.out_shape(s)));
            assert(chain_result(p.drop_first(), l.out_shape(s)) == Some(l.out_shape(s)));
        } else {
            assert(chain_result(p, s) is None);
        }
    } else {
        assert(p[0] == layers[0]);
        assert(p.drop_first() =~= layers.drop_first().push(l));
        if layers[0].wf() && layers[0].accepts_shape(s) {
            lemma_chain_result_push(layers.drop_first(), layers[0].out_shape(s), l);
            assert(chain_result(p, s) == chain_result(
                layers.drop_first().push(l),
                layers[0].out_shape(s),
            ));
            assert(chain_result(layers, s) == chain_result(
                layers.drop_first(),
                layers[0].out_shape(s),
            ));
        } else {
            assert(chain_result(p, s) is None);
            assert(chain_result(layers, s) is None);
        }
    }
}

/// Whether one declared layer accepts the shape it is handed.
pub open spec fn spec_accepts_decl(sp: LayerSpec, s: Seq<usize>) -> bool {
    match sp {
        LayerSpec::Linear { in_features, out_features, .. } => lin_accepts_shape(s, in_features)
            && batch_count(s) * out_features <= usize::MAX,
        LayerSpec::Flatten => s.len() >= 1 && shape_product(s) <= usize::MAX,
    }
}

/// The shape one declared layer emits for the shape it is handed.
pub open spec fn spec_out_decl(sp: LayerSpec, s: Seq<usize>) -> Seq<usize> {
    match sp {
        LayerSpec::Linear { out_features, .. } => lin_out_shape(s, out_features),
        LayerSpec::Flatten => seq![shape_product(s) as usize],
    }
}

/// Threads a shape through the declared layer chain: the declared output
/// shape, or `None` as soon as two adjacent declared shapes disagree.
pub open spec fn chain_declared(specs: Seq<LayerSpec>, s: Seq<usize>) -> Option<Seq<usize>>
    decreases specs.len(),
{
    if specs.len() == 0 {
        Some(s)
    } else if spec_accepts_decl(specs[0], s) {
        chain_declared(specs.drop_first(), spec_out_decl(specs[0], s))
    } else {
        None
    }
}

/// Whether every parameter one declared layer needs resolves in the
/// archive, with the shape the declaration requests.
pub open spec fn layer_weights_ok<F: FloatLikePrimitive>(archive: Seq<u8>, sp: LayerSpec) -> bool {
    match sp {
        LayerSpec::Linear { weights, bias, in_features, out_features } => {
            &&& resolved_weight::<F>(archive, weights@, seq![out_features, in_features]) is Some
            &&& match bias {
                Some(bias_name) => resolved_weight::<F>(
                    archive,
                    bias_name@,
                    seq![out_features],
                ) is Some,
                None => true,
            }
        },
        LayerSpec::Flatten => true,
    }
}

/// Whether every parameter of every declared layer resolves.
pub open spec fn all_weights_ok<F: FloatLikePrimitive>(
    archive: Seq<u8>,
    specs: Seq<LayerSpec>,
) -> bool {
    forall|i: int| 0 <= i < specs.len() ==> layer_weights_ok::<F>(archive, specs[i])
}

/// Whether building the declared chain from the archive succeeds: every
/// handed shape is accepted and every needed parameter resolves.
pub open spec fn build_ok<F: FloatLikePrimitive>(
    archive: Seq<u8>,
    specs: Seq<LayerSpec>,
    s: Seq<usize>,
) -> bool
    decreases specs.len(),
{
    specs.len() == 0 || (spec_accepts_decl(specs[0], s) && layer_weights_ok::<F>(
        archive,
        specs[0],
    ) && build_ok::<F>(archive, specs.drop_first(), spec_out_decl(specs[0], s)))
}

/// The built layer a declaration gives rise to: the declared kind, with
/// its parameters resolved from the archive.
pub open spec fn layer_matches<F: FloatLikePrimitive>(
    archive: Seq<u8>,
    sp: LayerSpec,
    l: ModelLayer<F>,
) -> bool {
    match sp {
        LayerSpec::Linear { weights, bias, in_features, out_features } => {
            &&& l matches ModelLayer::Linear(ll)
            &&& ll@.weights == resolved_weight::<F>(
                archive,
                weights@,
                seq![out_features, in_features],
            ).unwrap()
            &&& match bias {
                Some(bias_name) => ll@.bias == Some(
                    resolved_weight::<F>(archive, bias_name@, seq![out_features]).unwrap(),
                ),
                None => ll@.bias is None,
            }
        },
        LayerSpec::Flatten => l is Flatten,
    }
}

/// An ordered, heterogeneous composition of layers, built once from a
/// weight loader and immutable afterwards. Adjacent layer shapes are
/// known to chain from the declared input shape on.
pub struct Model<F: FloatLikePrimitive> {
    layers: Vec<ModelLayer<F>>,
    input_shape: Vec<usize>,
}

/// Mathematical model of a model: its layers and its declared input
/// shape.
#[verifier::ext_equal]
pub struct ModelView<F: FloatLikePrimitive> {
    pub layers: Seq<ModelLayer<F>>,
    pub input_shape: Seq<usize>,
}

impl<F: FloatLikePrimitive> View for Model<F> {
    type V = ModelView<F>;

    closed spec fn view(&self) -> ModelView<F> {
        ModelView { layers: self.layers@, input_shape: self.input_shape@ }
    }
}

impl<F: FloatLikePrimitive> Model<F> {
    /// Every model that can be built chains: each layer accepts the
    /// shape the previous one emits, starting from the declared input
    /// shape.
    #[verifier::type_invariant]
    pub open spec fn inv(self) -> bool {
        chain_result(self@.layers, self@.input_shape) is Some
    }

    /// The declared input shape.
    pub fn input_shape(&self) -> (r: &Vec<usize>)
        ensures
            r@ == self@.input_shape,
    {
        &self.input_shape
    }

    /// Number of layers.
    pub fn num_layers(&self) -> (r: usize)
        ensures
            r == self@.layers.len(),
    {
        self.layers.len()
    }

    /// Builds a model by applying the declared layer list in order, each
    /// layer pulling its named parameters from the loader. Construction
    /// fails, and no forward pass can ever run, when two adjacent
    /// declared shapes disagree (`ShapeMismatch`) or a parameter does
    /// not load (`Weight`); it succeeds exactly when every declared
    /// shape chains and every named parameter resolves.
    pub fn from_loader<L: WeightLoader>(
        loader: &L,
        input_shape: Vec<usize>,
        layer_specs: &Vec<LayerSpec>,
    ) -> (r: Result<Model<F>, ModelError>)
        ensures
            r is Ok <==> build_ok::<F>(loader.archive_bytes(), layer_specs@, input_shape@),
            r matches Ok(m) ==> {
                &&& m@.input_shape == input_shape@
                &&& m@.layers.len() == layer_specs@.len()
                &&& forall|i: int|
                    0 <= i < layer_specs@.len() ==> layer_matches::<F>(
                        loader.archive_bytes(),
                        layer_specs@[i],
                        m@.layers[i],
                    )
            },
            r matches Err(ModelError::ShapeMismatch) ==> chain_declared(
                layer_specs@,
                input_shape@,
            ) is None,
            !(r matches Err(ModelError::BiasShapeViolation)),
            all_weights_ok::<F>(loader.archive_bytes(), layer_specs@) ==> !(r matches Err(
                ModelError::Weight(_),
            )),
    {
        let ghost archive = loader.archive_bytes();
        let ghost s0 = input_shape@;
        let ghost whole = layer_specs@;
        let n = layer_specs.len();
        let mut layers: Vec<ModelLayer<F>> = Vec::new();
        let mut cur_shape: Vec<usize> = copy_elements(&input_shape);
        let mut idx: usize = 0;
        proof {
            assert(whole.subrange(0, n as int) =~= whole);
        }
        while idx < n
            invariant
                idx <= n,
                n == whole.len(),
                whole == layer_specs@,
                s0 == input_shape@,
                archive == loader.archive_bytes(),
                layers@.len() == idx,
                forall|i: int|
                    0 <= i < idx ==> layer_matches::<F>(archive, whole[i], layers@[i]),
                chain_result(layers@, s0) == Some(cur_shape@),
                chain_declared(whole, s0) == chain_declared(
                    whole.subrange(idx as int, n as int),
                    cur_shape@,
                ),
                build_ok::<F>(archive, whole, s0) == build_ok::<F>(
                    archive,
                    whole.subrange(idx as int, n as int),
                    cur_shape@,
                ),
            decreases n - idx,
        {
            let ghost rest = whole.subrange(idx as int, n as int);
            proof {
                assert(rest[0] == whole[idx as int]);
                assert(rest.drop_first() =~= whole.subrange(idx as int + 1, n as int));
            }
            match &layer_specs[idx] {
                LayerSpec::Flatten => {
                    if cur_shape.len() == 0 {
                        return Err(ModelError::ShapeMismatch);
                    }
                    match product_of(&cur_shape) {
                        Some(p) => {
                            let flat = ModelLayer::Flatten(Flatten::new());
                            proof {
                                lemma_chain_result_push(layers@, s0, flat);
                            }
                            layers.push(flat);
                            cur_shape = vec![p];
                            proof {
                                assert(cur_shape@ =~= seq![p]);
                            }
                        },
                        None => {
                            return Err(ModelError::ShapeMismatch);
                        },
                    }
                },
                LayerSpec::Linear { weights, bias, in_features, out_features } => {
                    let in_f = *in_features;
                    let out_f = *out_features;
                    let rank_ok_1 = cur_shape.len() == 1 && cur_shape[0] == in_f;
                    let rank_ok_2 = cur_shape.len() == 2 && cur_shape[1] == in_f;
                    if !(rank_ok_1 || rank_ok_2) {
                        return Err(ModelError::ShapeMismatch);
                    }
                    let batch: usize = if cur_shape.len() == 1 {
                        1
                    } else {
                        cur_shape[0]
                    };
                    if batch.checked_mul(out_f).is_none() {
                        return Err(ModelError::ShapeMismatch);
                    }
                    let target: Vec<usize> = vec![out_f, in_f];
                    proof {
                        assert(target@ =~= seq![out_f, in_f]);
                    }
                    let fetched = loader.get_weight::<F>(weights.as_str(), &target);
                    proof {
                        lemma_get_weight_resolved::<F>(archive, weights@, target@, fetched);
                    }
                    let weight_tensor = match fetched {
                        Ok(t) => t,
                        Err(e) => {
                            proof {
                                assert(!layer_weights_ok::<F>(archive, whole[idx as int]));
                            }
                            return Err(ModelError::Weight(e));
                        },
                    };
                    let bias_tensor: Option<Tensor<F>> = match bias {
                        Some(bias_name) => {
                            let bias_target: Vec<usize> = vec![out_f];
                            proof {
                                assert(bias_target@ =~= seq![out_f]);
                            }
                            let bias_fetched = loader.get_weight::<F>(
                                bias_name.as_str(),
                                &bias_target,
                            );
                            proof {
                                lemma_get_weight_resolved::<F>(
                                    archive,
                                    bias_name@,
                                    bias_target@,
                                    bias_fetched,
                                );
                            }
                            match bias_fetched {
                                Ok(t) => Some(t),
                                Err(e) => {
                                    proof {
                                        assert(!layer_weights_ok::<F>(
                                            archive,
                                            whole[idx as int],
                                        ));
                                    }
                                    return Err(ModelError::Weight(e));
                                },
                            }
                        },
                        None => None,
                    };
                    match LinearLayer::new(weight_tensor, bias_tensor) {
                        Ok(l) => {
                            let built = ModelLayer::Linear(l);
                            proof {
                                lemma_chain_result_push(layers@, s0, built);
                            }
                            layers.push(built);
                            let new_shape: Vec<usize> = if cur_shape.len() == 1 {
                                vec![out_f]
                            } else {
                                vec![cur_shape[0], out_f]
                            };
                            proof {
                                if cur_shape@.len() == 1 {
                                    assert(new_shape@ =~= seq![out_f]);
                                } else {
                                    assert(new_shape@ =~= seq![cur_shape@[0], out_f]);
                                }
                            }
                            cur_shape = new_shape;
                        },
                        Err(_) => {
                            // Unreachable: the fetched weights have exactly the
                            // declared matrix shape and the fetched bias exactly
                            // the declared length, so the layer always builds.
                            proof {
                                assert(false);
                            }
                            return Err(ModelError::ShapeMismatch);
                        },
                    }
                },
            }
            idx = idx + 1;
        }
        proof {
            assert(whole.subrange(n as int, n as int) =~= Seq::<LayerSpec>::empty());
        }
        Ok(Model { layers, input_shape })
    }

    /// Runs the full forward pass: every layer applied in order, each
    /// output threaded into the next layer, the last layer's output
    /// returned. No layer is skipped, reordered, or retried.
    pub fn forward_pass(&self, input: &Tensor<F>) -> (r: Tensor<F>)
        requires
            input@.shape == self@.input_shape,
        ensures
            r@ == apply_chain(self@.layers, input@),
    {
        proof {
            use_type_invariant(self);
            use_type_invariant(&*input);
        }
        let n = self.layers.len();
        let mut cur: Tensor<F> = input.duplicate();
        let mut idx: usize = 0;
        proof {
            assert(self@.layers.subrange(0, n as int) =~= self@.layers);
        }
        while idx < n
            invariant
                idx <= n,
                n == self@.layers.len(),
                cur@.wf(),
                chain_result(self@.layers.subrange(idx as int, n as int), cur@.shape) is Some,
                apply_chain(self@.layers, input@) == apply_chain(
                    self@.layers.subrange(idx as int, n as int),
                    cur@,
                ),
            decreases n - idx,
        {
            let ghost rest = self@.layers.subrange(idx as int, n as int);
            proof {
                assert(rest[0] == self@.layers[idx as int]);
                assert(rest.drop_first() =~= self@.layers.subrange(idx as int + 1, n as int));
                lemma_layer_apply_wf(rest[0], cur@);
            }
            match &self.layers[idx] {
                ModelLayer::Linear(l) => {
                    cur = l.forward_pass(&cur);
                },
                ModelLayer::Flatten(f) => {
                    cur = f.forward_pass(&cur);
                },
            }
            idx = idx + 1;
        }
        proof {
            assert(self@.layers.subrange(n as int, n as int) =~= Seq::<ModelLayer<F>>::empty());
        }
        cur
    }
}

} // verus!
