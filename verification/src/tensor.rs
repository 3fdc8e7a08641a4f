//! A dense, dynamically ranked, row-major tensor over an abstract element
//! type, together with the shape arithmetic that every layer relies on.
use vstd::prelude::*;

verus! {

/// Product of the first `n` dimensions of `s`.
pub open spec fn shape_product_prefix(s: Seq<usize>, n: int) -> nat
    decreases n,
{
    if n <= 0 {
        1
    } else {
        shape_product_prefix(s, n - 1) * s[n - 1] as nat
    }
}

/// Number of elements a tensor of shape `s` holds: the product of all
/// its dimensions.
pub open spec fn shape_product(s: Seq<usize>) -> nat {
    shape_product_prefix(s, s.len() as int)
}

/// Mathematical model of a tensor: a shape and the row-major sequence of
/// its elements.
#[verifier::ext_equal]
pub struct TensorView<F> {
    pub shape: Seq<usize>,
    pub data: Seq<F>,
}

impl<F> TensorView<F> {
    /// A tensor is well formed when it has at least one axis and exactly
    /// as many elements as its shape prescribes.
    pub open spec fn wf(self) -> bool {
        &&& self.shape.len() >= 1
        &&& self.data.len() == shape_product(self.shape)
    }

    /// Number of axes.
    pub open spec fn rank(self) -> nat {
        self.shape.len()
    }
}

/// Dense numeric array with owned storage, a fixed shape, and row-major
/// element order (the last axis varies fastest).
pub struct Tensor<F> {
    data: Vec<F>,
    shape: Vec<usize>,
}

impl<F> View for Tensor<F> {
    type V = TensorView<F>;

    closed spec fn view(&self) -> TensorView<F> {
        TensorView { shape: self.shape@, data: self.data@ }
    }
}

impl<F> Tensor<F> {
    /// Every tensor that can be built is well formed; the constructors
    /// establish it and nothing mutates a tensor afterwards.
    #[verifier::type_invariant]
    pub open spec fn inv(self) -> bool {
        self@.wf()
    }
}

/// A dimension of zero anywhere forces the whole product to zero.
pub proof fn lemma_shape_product_zero(s: Seq<usize>, i: int, n: int)
    requires
        0 <= i < n <= s.len(),
        s[i] == 0,
    ensures
        shape_product_prefix(s, n) == 0,
    decreases n,
{
    if i == n - 1 {
        assert(shape_product_prefix(s, n) == shape_product_prefix(s, n - 1) * (s[n - 1] as nat));
        assert(shape_product_prefix(s, n - 1) * 0 == 0) by (nonlinear_arith);
    } else {
        lemma_shape_product_zero(s, i, n - 1);
        assert(shape_product_prefix(s, n) == shape_product_prefix(s, n - 1) * (s[n - 1] as nat));
        assert(0 * (s[n - 1] as nat) == 0) by (nonlinear_arith);
    }
}

/// With every dimension in `[m, n)` at least one, the prefix product can
/// only grow from `m` to `n`.
pub proof fn lemma_shape_product_monotone(s: Seq<usize>, m: int, n: int)
    requires
        0 <= m <= n <= s.len(),
        forall|i: int| m <= i < n ==> s[i] >= 1,
    ensures
        shape_product_prefix(s, n) >= shape_product_prefix(s, m),
    decreases n,
{
    if m < n {
        lemma_shape_product_monotone(s, m, n - 1);
        assert(shape_product_prefix(s, n - 1) * s[n - 1] as nat >= shape_product_prefix(
            s,
            n - 1,
        )) by (nonlinear_arith)
            requires
                s[n - 1] as nat >= 1,
        ;
    }
}

/// A one-axis shape holds exactly as many elements as that axis says.
pub proof fn lemma_shape_product_single(s: Seq<usize>)
    requires
        s.len() == 1,
    ensures
        shape_product(s) == s[0],
{
    reveal_with_fuel(shape_product_prefix, 3);
}

/// A two-axis shape holds the product of its axes.
pub proof fn lemma_shape_product_pair(s: Seq<usize>)
    requires
        s.len() == 2,
    ensures
        shape_product(s) == s[0] * s[1],
{
    reveal_with_fuel(shape_product_prefix, 4);
}

/// Computes the element count that shape `shape` prescribes, or `None`
/// when that count does not fit in `usize`.
pub fn product_of(shape: &Vec<usize>) -> (r: Option<usize>)
    ensures
        match r {
            Some(p) => p == shape_product(shape@),
            None => shape_product(shape@) > usize::MAX,
        },
{
    let n = shape.len();
    let mut i: usize = 0;
    while i < n
        invariant
            0 <= i <= n,
            n == shape@.len(),
            forall|j: int| 0 <= j < i ==> shape@[j] >= 1,
        decreases n - i,
    {
        if shape[i] == 0 {
            proof {
                lemma_shape_product_zero(shape@, i as int, shape@.len() as int);
            }
            return Some(0);
        }
        i = i + 1;
    }
    let mut acc: usize = 1;
    let mut k: usize = 0;
    while k < n
        invariant
            0 <= k <= n,
            n == shape@.len(),
            forall|j: int| 0 <= j < n ==> shape@[j] >= 1,
            acc as nat == shape_product_prefix(shape@, k as int),
        decreases n - k,
    {
        match acc.checked_mul(shape[k]) {
            Some(v) => {
                acc = v;
            },
            None => {
                proof {
                    lemma_shape_product_monotone(shape@, k as int + 1, shape@.len() as int);
                }
                return None;
            },
        }
        k = k + 1;
    }
    Some(acc)
}

/// Decides extensional equality of two shape vectors.
pub fn shapes_equal(a: &Vec<usize>, b: &Vec<usize>) -> (r: bool)
    ensures
        r == (a@ == b@),
{
    if a.len() != b.len() {
        assert(a@ != b@);
        return false;
    }
    let n = a.len();
    let mut i: usize = 0;
    while i < n
        invariant
            0 <= i <= n,
            n == a@.len() == b@.len(),
            forall|j: int| 0 <= j < i ==> a@[j] == b@[j],
        decreases n - i,
    {
        if a[i] != b[i] {
            assert(a@ != b@);
            return false;
        }
        i = i + 1;
    }
    proof {
        assert(a@ =~= b@);
    }
    true
}

impl<F: Copy> Tensor<F> {
    /// Builds a tensor from a shape and the row-major element vector, or
    /// refuses when the element count and the shape disagree.
    pub fn from_shape_vec(shape: Vec<usize>, data: Vec<F>) -> (r: Option<Tensor<F>>)
        ensures
            match r {
                Some(t) => {
                    &&& t@.wf()
                    &&& t@.shape == shape@
                    &&& t@.data == data@
                },
                None => !(shape@.len() >= 1 && data@.len() == shape_product(shape@)),
            },
    {
        if shape.len() == 0 {
            return None;
        }
        let count = data.len();
        match product_of(&shape) {
            Some(p) => {
                if p == count {
                    Some(Tensor { data, shape })
                } else {
                    None
                }
            },
            None => None,
        }
    }

    /// The tensor's shape.
    pub fn shape(&self) -> (r: &Vec<usize>)
        ensures
            r@ == self@.shape,
    {
        &self.shape
    }

    /// The tensor's elements in row-major order.
    pub fn data(&self) -> (r: &Vec<F>)
        ensures
            r@ == self@.data,
    {
        &self.data
    }

    /// Number of axes.
    pub fn rank(&self) -> (r: usize)
        ensures
            r == self@.rank(),
    {
        self.shape.len()
    }

    /// Copies the whole tensor.
    pub fn duplicate(&self) -> (r: Tensor<F>)
        ensures
            r@ == self@,
    {
        proof {
            use_type_invariant(&*self);
        }
        let shape_copy = copy_elements(&self.shape);
        let data_copy = copy_elements(&self.data);
        let r = Tensor { data: data_copy, shape: shape_copy };
        proof {
            assert(r@ =~= self@);
        }
        r
    }

    /// Copies the row-major elements into a fresh vector.
    pub fn to_vec(&self) -> (r: Vec<F>)
        ensures
            r@ == self@.data,
    {
        copy_elements(&self.data)
    }
}

/// Copies a vector of plain elements.
pub fn copy_elements<F: Copy>(v: &Vec<F>) -> (r: Vec<F>)
    ensures
        r@ == v@,
{
    let n = v.len();
    let mut out: Vec<F> = Vec::new();
    let mut i: usize = 0;
    while i < n
        invariant
            0 <= i <= n,
            n == v@.len(),
            out@ =~= v@.subrange(0, i as int),
        decreases n - i,
    {
        out.push(v[i]);
        i = i + 1;
    }
    proof {
        assert(out@ =~= v@);
    }
    out
}

pub(crate) fn make_tensor<F>(shape: Vec<usize>, data: Vec<F>) -> (r: Tensor<F>)
    requires
        shape@.len() >= 1,
        data@.len() == shape_product(shape@),
    ensures
        r@.shape == shape@,
        r@.data == data@,
        r@.wf(),
{
    Tensor { data, shape }
}

} // verus!
