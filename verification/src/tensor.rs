//! Dense arrays of any rank, stored in row-major order.
use vstd::prelude::*;
use vstd::arithmetic::mul::{lemma_mul_inequality, lemma_mul_is_distributive_add_other_way};

verus! {

/// The number of elements of an array of the given shape.
pub open spec fn numel(shape: Seq<usize>) -> nat
    decreases shape.len(),
{
    if shape.len() == 0 {
        1
    } else {
        numel(shape.drop_last()) * (shape.last() as nat)
    }
}

/// The rows of a row-major matrix with `cols` columns and `rows` rows.
pub open spec fn matrix_rows<T>(items: Seq<T>, rows: nat, cols: nat) -> Seq<Seq<T>> {
    Seq::new(rows, |i: int| items.subrange(i * cols, (i + 1) * cols))
}

/// An array of any rank: a shape and its elements in row-major order.
pub struct Tensor<T> {
    shape: Vec<usize>,
    data: Vec<T>,
}

proof fn lemma_numel_zero(shape: Seq<usize>)
    requires
        exists|k: int| 0 <= k < shape.len() && shape[k] == 0,
    ensures
        numel(shape) == 0,
    decreases shape.len(),
{
    let k = choose|k: int| 0 <= k < shape.len() && shape[k] == 0;
    let a = numel(shape.drop_last());
    let b = shape.last() as nat;
    if k < shape.len() - 1 {
        assert(shape.drop_last()[k] == 0);
        lemma_numel_zero(shape.drop_last());
        assert(a * b == 0) by (nonlinear_arith)
            requires
                a == 0,
        ;
    } else {
        assert(a * b == 0) by (nonlinear_arith)
            requires
                b == 0,
        ;
    }
}

proof fn lemma_numel_prefix_grows(shape: Seq<usize>, i: int)
    requires
        0 <= i <= shape.len(),
        forall|k: int| 0 <= k < shape.len() ==> shape[k] >= 1,
    ensures
        numel(shape.take(i)) <= numel(shape),
    decreases shape.len() - i,
{
    if i < shape.len() {
        lemma_numel_prefix_grows(shape, i + 1);
        assert(shape.take(i + 1).drop_last() =~= shape.take(i));
        let a = numel(shape.take(i));
        let b = shape[i] as nat;
        assert(a <= a * b) by (nonlinear_arith)
            requires
                b >= 1,
        ;
    } else {
        assert(shape.take(i) =~= shape);
    }
}

pub proof fn lemma_numel_two(rows: usize, cols: usize)
    ensures
        numel(seq![rows, cols]) == rows * cols,
{
    assert(seq![rows, cols].drop_last() =~= seq![rows]);
    lemma_numel_one(rows);
    assert(seq![rows, cols].last() == cols);
}

pub proof fn lemma_numel_one(len: usize)
    ensures
        numel(seq![len]) == len,
{
    assert(seq![len].drop_last() =~= Seq::<usize>::empty());
    let a = numel(Seq::<usize>::empty());
    assert(a == 1);
    assert(seq![len].last() == len);
    assert(a * (len as nat) == len) by (nonlinear_arith)
        requires
            a == 1,
    ;
}

/// The number of elements of `shape`, or `None` where it exceeds `usize::MAX`.
fn checked_numel(shape: &Vec<usize>) -> (r: Option<usize>)
    ensures
        r matches Some(n) ==> n == numel(shape@),
        r is None ==> numel(shape@) > usize::MAX,
{
    let mut k: usize = 0;
    while k < shape.len()
        invariant
            k <= shape.len(),
            forall|j: int| 0 <= j < k ==> shape@[j] >= 1,
        decreases shape.len() - k,
    {
        if shape[k] == 0 {
            proof {
                lemma_numel_zero(shape@);
            }
            return Some(0);
        }
        k = k + 1;
    }
    let mut prod: usize = 1;
    let mut i: usize = 0;
    while i < shape.len()
        invariant
            i <= shape.len(),
            forall|j: int| 0 <= j < shape.len() ==> shape@[j] >= 1,
            prod == numel(shape@.take(i as int)),
        decreases shape.len() - i,
    {
        proof {
            assert(shape@.take(i + 1).drop_last() =~= shape@.take(i as int));
        }
        match prod.checked_mul(shape[i]) {
            Some(p) => {
                prod = p;
            },
            None => {
                proof {
                    lemma_numel_prefix_grows(shape@, i + 1);
                }
                return None;
            },
        }
        i = i + 1;
    }
    proof {
        assert(shape@.take(shape.len() as int) =~= shape@);
    }
    Some(prod)
}

impl<T> Tensor<T> {
    #[verifier::type_invariant]
    spec fn well_formed(self) -> bool {
        self.data@.len() == numel(self.shape@)
    }

    /// The shape: the extent of each axis.
    pub closed spec fn dims(self) -> Seq<usize> {
        self.shape@
    }

    /// The elements in row-major order.
    pub closed spec fn items(self) -> Seq<T> {
        self.data@
    }

    /// A one-dimensional array holding `data`.
    pub fn from_vec(data: Vec<T>) -> (t: Self)
        ensures
            t.dims() == seq![data@.len() as usize],
            t.items() == data@,
    {
        let mut shape: Vec<usize> = Vec::new();
        shape.push(data.len());
        proof {
            lemma_numel_one(data@.len() as usize);
            assert(shape@ =~= seq![data@.len() as usize]);
        }
        Tensor { shape, data }
    }

    /// An array of the given shape over `data`, or `None` where the number of
    /// elements of `shape` is not the length of `data`.
    pub fn from_shape_vec(shape: Vec<usize>, data: Vec<T>) -> (r: Option<Self>)
        ensures
            r is Some <==> numel(shape@) == data@.len(),
            r matches Some(t) ==> t.dims() == shape@ && t.items() == data@,
    {
        let len = data.len();
        match checked_numel(&shape) {
            Some(n) => {
                if n == len {
                    Some(Tensor { shape, data })
                } else {
                    None
                }
            },
            None => None,
        }
    }

    /// A two-dimensional array of `rows` rows of `cols` elements.
    pub(crate) fn from_rows(rows: usize, cols: usize, data: Vec<T>) -> (t: Self)
        requires
            data@.len() == rows * cols,
        ensures
            t.dims() == seq![rows, cols],
            t.items() == data@,
    {
        let mut shape: Vec<usize> = Vec::new();
        shape.push(rows);
        shape.push(cols);
        proof {
            lemma_numel_two(rows, cols);
            assert(shape@ =~= seq![rows, cols]);
        }
        Tensor { shape, data }
    }

    /// The shape.
    pub fn shape(&self) -> (s: &[usize])
        ensures
            s@ == self.dims(),
    {
        self.shape.as_slice()
    }

    /// The number of axes.
    pub fn ndim(&self) -> (n: usize)
        ensures
            n == self.dims().len(),
    {
        self.shape.len()
    }

    /// The number of elements.
    pub fn len(&self) -> (n: usize)
        ensures
            n == self.items().len(),
            n == numel(self.dims()),
    {
        proof {
            use_type_invariant(self);
        }
        self.data.len()
    }

    /// The elements in row-major order.
    pub fn as_slice(&self) -> (s: &[T])
        ensures
            s@ == self.items(),
    {
        self.data.as_slice()
    }

    /// The elements in row-major order, with the shape dropped.
    pub fn into_vec(self) -> (v: Vec<T>)
        ensures
            v@ == self.items(),
    {
        self.data
    }

    /// Row `i` of a two-dimensional array.
    pub fn row(&self, i: usize) -> (r: Vec<T>) where T: Copy
        requires
            self.dims().len() == 2,
            i < self.dims()[0],
        ensures
            r@ == self.items().subrange(i * self.dims()[1], (i + 1) * self.dims()[1]),
            r@.len() == self.dims()[1],
            (i + 1) * self.dims()[1] <= self.items().len(),
    {
        proof {
            use_type_invariant(self);
            lemma_numel_two(self.shape@[0], self.shape@[1]);
            assert(self.shape@ =~= seq![self.shape@[0], self.shape@[1]]);
        }
        let total = self.data.len();
        let cols = self.shape[1];
        let ghost rows = self.shape@[0];
        proof {
            lemma_mul_inequality(i + 1, rows as int, cols as int);
            lemma_mul_is_distributive_add_other_way(cols as int, i as int, 1);
        }
        let start = i * cols;
        let mut r: Vec<T> = Vec::new();
        let mut k: usize = 0;
        while k < cols
            invariant
                k <= cols,
                self.dims().len() == 2,
                cols == self.dims()[1],
                start == i * cols,
                start + cols <= self.items().len(),
                total == self.items().len(),
                (i + 1) * cols == start + cols,
                r@ == self.items().subrange(start as int, start + k),
            decreases cols - k,
        {
            r.push(self.data[start + k]);
            proof {
                assert(self.items().subrange(start as int, start + k + 1) =~= self.items().subrange(
                    start as int,
                    start + k,
                ).push(self.items()[start + k]));
            }
            k = k + 1;
        }
        r
    }
}


impl<T> Tensor<T> {
    /// A copy of the shape.
    pub fn shape_vec(&self) -> (s: Vec<usize>)
        ensures
            s@ == self.dims(),
    {
        let mut s: Vec<usize> = Vec::new();
        let mut k: usize = 0;
        while k < self.shape.len()
            invariant
                k <= self.shape@.len(),
                s@ == self.shape@.take(k as int),
            decreases self.shape@.len() - k,
        {
            s.push(self.shape[k]);
            proof {
                assert(self.shape@.take(k + 1) =~= self.shape@.take(k as int).push(self.shape@[k as int]));
            }
            k = k + 1;
        }
        proof {
            assert(self.shape@.take(k as int) =~= self.shape@);
        }
        s
    }

    /// Whether two arrays have the same shape.
    pub fn same_shape<U>(&self, other: &Tensor<U>) -> (b: bool)
        ensures
            b == (self.dims() == other.dims()),
    {
        if self.shape.len() != other.shape.len() {
            return false;
        }
        let mut k: usize = 0;
        while k < self.shape.len()
            invariant
                k <= self.shape@.len(),
                self.shape@.len() == other.shape@.len(),
                forall|j: int| 0 <= j < k ==> self.shape@[j] == other.shape@[j],
            decreases self.shape@.len() - k,
        {
            if self.shape[k] != other.shape[k] {
                return false;
            }
            k = k + 1;
        }
        proof {
            assert(self.shape@ =~= other.shape@);
        }
        true
    }

    /// Replaces element `i` (in row-major order) by `v`.
    pub fn set(&mut self, i: usize, v: T)
        requires
            i < old(self).items().len(),
        ensures
            final(self).dims() == old(self).dims(),
            final(self).items() == old(self).items().update(i as int, v),
    {
        proof {
            use_type_invariant(&*self);
        }
        let mut empty_shape: Vec<usize> = Vec::new();
        empty_shape.push(0);
        proof {
            lemma_numel_one(0);
            assert(empty_shape@ =~= seq![0usize]);
        }
        let mut taken = Tensor { shape: empty_shape, data: Vec::new() };
        std::mem::swap(self, &mut taken);
        let Tensor { shape, mut data } = taken;
        data.set(i, v);
        *self = Tensor { shape, data };
    }
}

impl<T: Clone> Clone for Tensor<T> {
    /// An array of the same shape whose elements are clones of these.
    fn clone(&self) -> (t: Self)
        ensures
            t.dims() == self.dims(),
            t.items().len() == self.items().len(),
            forall|i: int| 0 <= i < self.items().len() ==> cloned::<T>(self.items()[i], t.items()[i]),
    {
        proof {
            use_type_invariant(self);
        }
        let shape = self.shape_vec();
        let data = self.data.clone();
        Tensor { shape, data }
    }
}

} // verus!
