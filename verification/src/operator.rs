//! Operators: the models that a Monte Carlo run propagates its inputs through.
use vstd::prelude::*;
use vstd::arithmetic::mul::lemma_mul_is_distributive_add_other_way;
use vstd::std_specs::convert::FromSpecImpl;

use crate::tensor::{Tensor, matrix_rows};

verus! {

#[verifier::external_type_specification]
#[verifier::external_body]
pub struct ExShapeError(ndarray::ShapeError);

/// Structural failures of an operator evaluation.
#[derive(Debug)]
pub enum OperatorError {
    /// An array operation inside an operator failed.
    ShapeError(ndarray::ShapeError),
    /// An evaluation result whose values and validity mask differ in shape.
    ShapeMismatch { found: Vec<usize>, expected: Vec<usize> },
    /// An operator returned another number of outputs than it declared.
    InconsistentOutputDim { found: usize, expected: usize },
    /// An operator was handed another number of inputs than it declared.
    InconsistentInputDim { found: usize, expected: usize },
}

impl From<ndarray::ShapeError> for OperatorError {
    fn from(err: ndarray::ShapeError) -> (r: Self) {
        OperatorError::ShapeError(err)
    }
}

impl FromSpecImpl<ndarray::ShapeError> for OperatorError {
    open spec fn obeys_from_spec() -> bool {
        true
    }

    open spec fn from_spec(err: ndarray::ShapeError) -> Self {
        OperatorError::ShapeError(err)
    }
}

/// The result of an operator evaluation: output values, and for each value
/// whether it is statistically valid.
///
/// `valid[i] == false` means `value[i]` is excluded from all downstream
/// statistics. Values and mask always have the same shape.
pub struct EvalResult<E> {
    value: Tensor<E>,
    valid: Tensor<bool>,
}

/// What an [`OperatorError`] holds, with its vectors taken by their views.
pub enum ErrorView {
    ShapeError(ndarray::ShapeError),
    ShapeMismatch { found: Seq<usize>, expected: Seq<usize> },
    InconsistentOutputDim { found: usize, expected: usize },
    InconsistentInputDim { found: usize, expected: usize },
}

impl View for OperatorError {
    type V = ErrorView;

    open spec fn view(&self) -> ErrorView {
        match self {
            OperatorError::ShapeError(e) => ErrorView::ShapeError(*e),
            OperatorError::ShapeMismatch { found, expected } => ErrorView::ShapeMismatch {
                found: found@,
                expected: expected@,
            },
            OperatorError::InconsistentOutputDim { found, expected } => ErrorView::InconsistentOutputDim {
                found: *found,
                expected: *expected,
            },
            OperatorError::InconsistentInputDim { found, expected } => ErrorView::InconsistentInputDim {
                found: *found,
                expected: *expected,
            },
        }
    }
}

/// What an [`EvalResult`] holds: its shape, its values and its validity
/// flags, in row-major order.
pub struct EvalView<E> {
    pub dims: Seq<usize>,
    pub values: Seq<E>,
    pub mask: Seq<bool>,
}

impl<E> View for EvalResult<E> {
    type V = EvalView<E>;

    open spec fn view(&self) -> EvalView<E> {
        EvalView { dims: self.dims(), values: self.values(), mask: self.mask() }
    }
}

/// The view of an evaluation outcome.
pub open spec fn outcome_view<E>(r: Result<EvalResult<E>, OperatorError>) -> Result<EvalView<E>, ErrorView> {
    match r {
        Ok(v) => Ok(v@),
        Err(e) => Err(e@),
    }
}

impl<E> EvalResult<E> {
    #[verifier::type_invariant]
    spec fn shapes_agree(self) -> bool {
        self.value.dims() == self.valid.dims()
    }

    /// The array of output values.
    pub closed spec fn value_part(self) -> Tensor<E> {
        self.value
    }

    /// The validity mask.
    pub closed spec fn valid_part(self) -> Tensor<bool> {
        self.valid
    }

    /// The common shape of values and mask.
    pub open spec fn dims(self) -> Seq<usize> {
        self.value_part().dims()
    }

    /// The output values, in row-major order.
    pub open spec fn values(self) -> Seq<E> {
        self.value_part().items()
    }

    /// The validity flags, in row-major order.
    pub open spec fn mask(self) -> Seq<bool> {
        self.valid_part().items()
    }

    /// Pairs `value` with its validity mask; fails where their shapes differ.
    pub fn try_from_parts(value: Tensor<E>, valid: Tensor<bool>) -> (r: Result<Self, OperatorError>)
        ensures
            value.dims() == valid.dims() <==> r is Ok,
            r matches Ok(res) ==> res.value_part() == value && res.valid_part() == valid,
            r matches Err(err) ==> err matches OperatorError::ShapeMismatch { found, expected }
                && expected@ == value.dims() && found@ == valid.dims(),
    {
        if !value.same_shape(&valid) {
            return Err(
                OperatorError::ShapeMismatch { expected: value.shape_vec(), found: valid.shape_vec() },
            );
        }
        Ok(EvalResult { value, valid })
    }

    /// The output values and the mask.
    pub fn split(self) -> (parts: (Tensor<E>, Tensor<bool>))
        ensures
            parts.0 == self.value_part(),
            parts.1 == self.valid_part(),
    {
        (self.value, self.valid)
    }

    /// The output values.
    pub fn value(&self) -> (v: &Tensor<E>)
        ensures
            *v == self.value_part(),
            v.dims() == self.valid_part().dims(),
    {
        proof {
            use_type_invariant(self);
        }
        &self.value
    }

    /// The validity mask.
    pub fn valid(&self) -> (v: &Tensor<bool>)
        ensures
            *v == self.valid_part(),
            v.dims() == self.dims(),
    {
        proof {
            use_type_invariant(self);
        }
        &self.valid
    }

    /// The number of outputs.
    pub fn len(&self) -> (n: usize)
        ensures
            n == self.mask().len(),
            n == self.values().len(),
    {
        proof {
            use_type_invariant(self);
        }
        let n = self.valid.len();
        let values_len = self.value.len();
        assert(values_len == n);
        n
    }

    /// Whether every output is valid.
    pub fn all_valid(&self) -> (b: bool)
        ensures
            b == (forall|i: int| 0 <= i < self.mask().len() ==> self.mask()[i]),
    {
        let flags = self.valid.as_slice();
        let mut k: usize = 0;
        while k < flags.len()
            invariant
                k <= flags@.len(),
                flags@ == self.mask(),
                forall|i: int| 0 <= i < k ==> flags@[i],
            decreases flags@.len() - k,
        {
            if !flags[k] {
                return false;
            }
            k = k + 1;
        }
        true
    }

    /// Marks as invalid every output whose flag in `mask` is set; the other
    /// outputs keep their validity.
    pub fn invalidate_where(&mut self, mask: &[bool])
        requires
            mask@.len() == old(self).mask().len(),
        ensures
            final(self).value_part() == old(self).value_part(),
            final(self).valid_part().dims() == old(self).valid_part().dims(),
            final(self).mask().len() == old(self).mask().len(),
            forall|i: int|
                0 <= i < mask@.len() ==> final(self).mask()[i] == (old(self).mask()[i] && !mask@[i]),
    {
        proof {
            use_type_invariant(&*self);
        }
        let mut taken = EvalResult { value: Tensor::from_vec(Vec::new()), valid: Tensor::from_vec(Vec::new()) };
        std::mem::swap(self, &mut taken);
        let EvalResult { value, valid: mut flags } = taken;
        let n = flags.len();
        let mut k: usize = 0;
        while k < n
            invariant
                k <= n,
                n == mask@.len(),
                flags.dims() == old(self).valid_part().dims(),
                flags.items().len() == n,
                forall|i: int| 0 <= i < k ==> flags.items()[i] == (old(self).mask()[i] && !mask@[i]),
                forall|i: int| k <= i < n ==> flags.items()[i] == old(self).mask()[i],
            decreases n - k,
        {
            if mask[k] {
                flags.set(k, false);
            }
            k = k + 1;
        }
        *self = EvalResult { value, valid: flags };
    }
}

impl<E: Clone> Clone for EvalResult<E> {
    /// An evaluation of the same shape with cloned values and flags.
    fn clone(&self) -> (c: Self)
        ensures
            c.dims() == self.dims(),
            c.valid_part().dims() == self.valid_part().dims(),
            c.values().len() == self.values().len(),
            c.mask().len() == self.mask().len(),
            forall|i: int| 0 <= i < self.values().len() ==> cloned::<E>(self.values()[i], c.values()[i]),
            forall|i: int| 0 <= i < self.mask().len() ==> cloned::<bool>(self.mask()[i], c.mask()[i]),
    {
        proof {
            use_type_invariant(self);
        }
        EvalResult { value: self.value.clone(), valid: self.valid.clone() }
    }
}

/// The outcome of checking an evaluation against the declared output dimension.
pub open spec fn output_checked<E>(res: Result<EvalResult<E>, OperatorError>, dim_out: usize) -> Result<
    EvalResult<E>,
    OperatorError,
> {
    match res {
        Err(e) => Err(e),
        Ok(r) => if r.mask().len() == dim_out {
            Ok(r)
        } else {
            Err(OperatorError::InconsistentOutputDim { found: r.mask().len() as usize, expected: dim_out })
        },
    }
}

/// Passes on an evaluation whose number of outputs is `dim_out`, and reports
/// any other as an inconsistent output dimension.
pub fn check_output<E>(res: Result<EvalResult<E>, OperatorError>, dim_out: usize) -> (r: Result<
    EvalResult<E>,
    OperatorError,
>)
    ensures
        r == output_checked(res, dim_out),
        res is Err ==> r == res,
        res matches Ok(v) && v.mask().len() == dim_out ==> r == res,
        res is Ok && res->Ok_0.mask().len() != dim_out ==> r == Err::<EvalResult<E>, OperatorError>(
            OperatorError::InconsistentOutputDim { found: res->Ok_0.mask().len() as usize, expected: dim_out },
        ),
{
    match res {
        Err(e) => Err(e),
        Ok(out) => {
            let found = out.len();
            if found != dim_out {
                Err(OperatorError::InconsistentOutputDim { found, expected: dim_out })
            } else {
                Ok(out)
            }
        },
    }
}

/// The view of checking an evaluation outcome: the input length against
/// `dim_in` (the outcome is then not consulted), the number of outputs
/// against `dim_out`.
pub open spec fn checked_outcome<E>(
    len: usize,
    dim_in: usize,
    dim_out: usize,
    res: Result<EvalView<E>, ErrorView>,
) -> Result<EvalView<E>, ErrorView> {
    if len != dim_in {
        Err(ErrorView::InconsistentInputDim { found: len, expected: dim_in })
    } else {
        match res {
            Err(e) => Err(e),
            Ok(v) => if v.mask.len() == dim_out {
                Ok(v)
            } else {
                Err(ErrorView::InconsistentOutputDim { found: v.mask.len() as usize, expected: dim_out })
            },
        }
    }
}

/// A checked evaluation rejects a wrong input length without consulting the
/// evaluation, passes an evaluation error on, rejects a wrong number of
/// outputs, and otherwise hands the evaluation back unchanged: values,
/// shape and every validity flag as the operator gave them.
pub proof fn lemma_checked_outcome<E>(
    len: usize,
    dim_in: usize,
    dim_out: usize,
    res: Result<EvalView<E>, ErrorView>,
)
    ensures
        len != dim_in ==> checked_outcome(len, dim_in, dim_out, res) == Err::<EvalView<E>, ErrorView>(
            ErrorView::InconsistentInputDim { found: len, expected: dim_in },
        ),
        len == dim_in ==> match res {
            Err(e) => checked_outcome(len, dim_in, dim_out, res) == Err::<EvalView<E>, ErrorView>(e),
            Ok(v) => if v.mask.len() == dim_out {
                checked_outcome(len, dim_in, dim_out, res) == Ok::<EvalView<E>, ErrorView>(v)
            } else {
                checked_outcome(len, dim_in, dim_out, res) == Err::<EvalView<E>, ErrorView>(
                    ErrorView::InconsistentOutputDim { found: v.mask.len() as usize, expected: dim_out },
                )
            },
        },
{
}

/// The views of a sequence of evaluations.
pub open spec fn views_of<E>(rows: Seq<EvalResult<E>>) -> Seq<EvalView<E>> {
    rows.map_values(|r: EvalResult<E>| r@)
}

/// `out` stacks `rows`, each of `width` outputs, as the rows of a matrix:
/// values and mask both have shape `[rows.len(), width]`.
pub open spec fn is_stack_of<E>(out: EvalResult<E>, rows: Seq<EvalView<E>>, width: usize) -> bool {
    &&& forall|i: int| 0 <= i < rows.len() ==> (#[trigger] rows[i]).mask.len() == width
    &&& forall|i: int| 0 <= i < rows.len() ==> (#[trigger] rows[i]).values.len() == width
    &&& out.dims() == seq![rows.len() as usize, width]
    &&& out.valid_part().dims() == seq![rows.len() as usize, width]
    &&& out.values() == rows.map_values(|r: EvalView<E>| r.values).flatten()
    &&& out.mask() == rows.map_values(|r: EvalView<E>| r.mask).flatten()
}

/// Flattening rows of one width `width` puts entry `j` of row `k` at
/// position `k * width + j`.
pub proof fn lemma_flatten_entry<A>(rows: Seq<Seq<A>>, width: nat, k: int, j: int)
    requires
        forall|i: int| 0 <= i < rows.len() ==> (#[trigger] rows[i]).len() == width,
        0 <= k < rows.len(),
        0 <= j < width,
    ensures
        rows.flatten().len() == rows.len() * width,
        rows.flatten()[k * width + j] == rows[k][j],
    decreases rows.len(),
{
    let init = rows.drop_last();
    let last = rows.last();
    assert(init.push(last) =~= rows);
    init.lemma_flatten_push(last);
    lemma_flatten_length(init, width);
    let w = width as int;
    let m = init.len() as int;
    assert(m * w + w == (m + 1) * w) by (nonlinear_arith);
    if k < m {
        lemma_flatten_entry(init, width, k, j);
        assert(k * w + j < m * w) by (nonlinear_arith)
            requires
                0 <= k < m,
                0 <= j < w,
        ;
    } else {
        assert(k * w + j == m * w + j);
    }
}

/// Flattening rows of one width `width` gives `rows.len() * width` entries.
pub proof fn lemma_flatten_length<A>(rows: Seq<Seq<A>>, width: nat)
    requires
        forall|i: int| 0 <= i < rows.len() ==> (#[trigger] rows[i]).len() == width,
    ensures
        rows.flatten().len() == rows.len() * width,
    decreases rows.len(),
{
    if rows.len() > 0 {
        let init = rows.drop_last();
        assert(init.push(rows.last()) =~= rows);
        init.lemma_flatten_push(rows.last());
        lemma_flatten_length(init, width);
        let w = width as int;
        let m = init.len() as int;
        assert(m * w + w == (m + 1) * w) by (nonlinear_arith);
    }
}

/// A stack holds each row unchanged: value and validity flag `j` of row `k`
/// are entry `k * width + j` of the stacked values and mask. Validity is kept
/// per output, never widened to a whole row.
pub proof fn lemma_stack_entries<E>(out: EvalResult<E>, rows: Seq<EvalView<E>>, width: usize)
    requires
        is_stack_of(out, rows, width),
    ensures
        out.values().len() == rows.len() * width,
        out.mask().len() == rows.len() * width,
        forall|k: int, j: int|
            0 <= k < rows.len() && 0 <= j < width ==> #[trigger] out.values()[k * width + j]
                == rows[k].values[j],
        forall|k: int, j: int|
            0 <= k < rows.len() && 0 <= j < width ==> #[trigger] out.mask()[k * width + j]
                == rows[k].mask[j],
{
    let vals = rows.map_values(|r: EvalView<E>| r.values);
    let masks = rows.map_values(|r: EvalView<E>| r.mask);
    lemma_flatten_length(vals, width as nat);
    lemma_flatten_length(masks, width as nat);
    assert forall|k: int, j: int| 0 <= k < rows.len() && 0 <= j < width implies #[trigger] out.values()[k
        * width + j] == rows[k].values[j] by {
        lemma_flatten_entry(vals, width as nat, k, j);
        assert(vals[k] == rows[k].values);
    }
    assert forall|k: int, j: int| 0 <= k < rows.len() && 0 <= j < width implies #[trigger] out.mask()[k
        * width + j] == rows[k].mask[j] by {
        lemma_flatten_entry(masks, width as nat, k, j);
        assert(masks[k] == rows[k].mask);
    }
}

/// Stacks single evaluations, each of `width` outputs, into the rows of one
/// evaluation; the first row of another width is reported as an inconsistent
/// output dimension.
#[verifier::loop_isolation(false)]
pub fn stack_rows<E>(rows: Vec<EvalResult<E>>, width: usize) -> (r: Result<EvalResult<E>, OperatorError>)
    ensures
        r matches Ok(out) ==> is_stack_of(out, views_of(rows@), width),
        r matches Ok(out) ==> out.values().len() == rows@.len() * width && out.mask().len()
            == rows@.len() * width,
        r matches Ok(out) ==> forall|k: int, j: int|
            0 <= k < rows@.len() && 0 <= j < width ==> out.values()[k * width + j]
                == rows@[k].values()[j] && #[trigger] out.mask()[k * width + j] == rows@[k].mask()[j],
        (forall|i: int| 0 <= i < rows@.len() ==> (#[trigger] rows@[i]).mask().len() == width) ==> (
        r matches Ok(out) && is_stack_of(out, views_of(rows@), width)),
        forall|k: int|
            0 <= k < rows@.len() && (#[trigger] rows@[k]).mask().len() != width && (forall|i: int|
                0 <= i < k ==> (#[trigger] rows@[i]).mask().len() == width) ==> r == Err::<
                EvalResult<E>,
                OperatorError,
            >(OperatorError::InconsistentOutputDim { found: rows@[k].mask().len() as usize, expected: width }),
{
    let ghost all = rows@;
    let n = rows.len();
    let mut pending = rows;
    let mut rest: Vec<EvalResult<E>> = Vec::new();
    while pending.len() > 0
        invariant
            pending@.len() + rest@.len() == n,
            n == all.len(),
            forall|j: int| 0 <= j < pending@.len() ==> pending@[j] == all[j],
            forall|j: int| 0 <= j < rest@.len() ==> rest@[j] == all[n - 1 - j],
        decreases pending@.len(),
    {
        let row = pending.pop().unwrap();
        rest.push(row);
    }
    let mut values: Vec<E> = Vec::new();
    let mut valid: Vec<bool> = Vec::new();
    let mut i: usize = 0;
    while i < n
        invariant
            i <= n,
            n == all.len(),
            rest@.len() == n - i,
            forall|j: int| 0 <= j < n - i ==> rest@[j] == all[n - 1 - j],
            forall|j: int| 0 <= j < i ==> (#[trigger] all[j]).mask().len() == width,
            forall|j: int| 0 <= j < i ==> (#[trigger] all[j]).values().len() == width,
            values@ == all.take(i as int).map_values(|r: EvalResult<E>| r.values()).flatten(),
            valid@ == all.take(i as int).map_values(|r: EvalResult<E>| r.mask()).flatten(),
            values@.len() == i * width,
            valid@.len() == i * width,
        decreases n - i,
    {
        let row = rest.pop().unwrap();
        assert(row == all[i as int]);
        let found = row.len();
        if found != width {
            let err = Err(OperatorError::InconsistentOutputDim { found, expected: width });
            proof {
                assert(all[i as int].mask().len() != width);
                assert(!(forall|j: int| 0 <= j < all.len() ==> (#[trigger] all[j]).mask().len() == width));
                assert forall|k: int|
                    0 <= k < all.len() && (#[trigger] all[k]).mask().len() != width && (forall|j: int|
                        0 <= j < k ==> (#[trigger] all[j]).mask().len() == width) implies err == Err::<
                        EvalResult<E>,
                        OperatorError,
                    >(OperatorError::InconsistentOutputDim { found: all[k].mask().len() as usize, expected: width }) by {
                    if k > i {
                        assert(all[i as int].mask().len() == width);
                    }
                }
            }
            return err;
        }
        proof {
            use_type_invariant(&row);
        }
        let (v, m) = row.split();
        let mut v = v.into_vec();
        let mut m = m.into_vec();
        proof {
            let t1 = all.take(i + 1);
            assert(t1 =~= all.take(i as int).push(all[i as int]));
            assert(t1.map_values(|r: EvalResult<E>| r.values()) =~= all.take(i as int).map_values(
                |r: EvalResult<E>| r.values(),
            ).push(all[i as int].values()));
            assert(t1.map_values(|r: EvalResult<E>| r.mask()) =~= all.take(i as int).map_values(
                |r: EvalResult<E>| r.mask(),
            ).push(all[i as int].mask()));
            all.take(i as int).map_values(|r: EvalResult<E>| r.values()).lemma_flatten_push(
                all[i as int].values(),
            );
            all.take(i as int).map_values(|r: EvalResult<E>| r.mask()).lemma_flatten_push(
                all[i as int].mask(),
            );
            lemma_mul_is_distributive_add_other_way(width as int, i as int, 1);
        }
        values.append(&mut v);
        valid.append(&mut m);
        i = i + 1;
    }
    proof {
        assert(all.take(n as int) =~= all);
        assert(all.map_values(|r: EvalResult<E>| r.values()) =~= views_of(all).map_values(
            |r: EvalView<E>| r.values,
        ));
        assert(all.map_values(|r: EvalResult<E>| r.mask()) =~= views_of(all).map_values(
            |r: EvalView<E>| r.mask,
        ));
    }
    let value = Tensor::from_rows(n, width, values);
    let valid = Tensor::from_rows(n, width, valid);
    let out = EvalResult { value, valid };
    proof {
        assert(is_stack_of(out, views_of(all), width));
        lemma_stack_entries(out, views_of(all), width);
        assert forall|k: int, j: int| 0 <= k < all.len() && 0 <= j < width implies out.values()[k
            * width + j] == all[k].values()[j] && #[trigger] out.mask()[k * width + j]
            == all[k].mask()[j] by {
            assert(views_of(all)[k] == all[k]@);
        }
    }
    Ok(out)
}

/// The successful evaluations of a sequence of results, in order.
pub open spec fn successes<E>(results: Seq<Result<EvalView<E>, ErrorView>>) -> Seq<EvalView<E>> {
    results.map_values(|r: Result<EvalView<E>, ErrorView>| r->Ok_0)
}

/// A model that maps one input vector to one output vector with a validity
/// mask. Implemented by users of the library.
///
/// Numerical or domain failures are reported through the validity mask;
/// `Err` is for structural failures (wrong input or output dimensions).
/// Implementations must return `dim_out` outputs for `dim_in` inputs, must
/// not panic, and must be deterministic: `dim_in`, `dim_out` and `apply` are
/// functions of the operator and its inputs, named by `spec_dim_in`,
/// `spec_dim_out` and `spec_apply` (the latter over views).
///
/// An implementation verified with Verus defines these three. Their default
/// bodies are fixed unknown constants, the same for every implementation
/// that keeps them (as one written outside Verus must); the contracts of
/// such an implementation are trusted, and the proofs of this crate use the
/// three only for operators in general, never their defaults.
pub trait Operator<E> {
    /// The declared number of inputs.
    closed spec fn spec_dim_in(&self) -> usize {
        arbitrary()
    }

    /// The declared number of outputs.
    closed spec fn spec_dim_out(&self) -> usize {
        arbitrary()
    }

    /// The view of the evaluation of the model on an input vector.
    closed spec fn spec_apply(&self, inputs: Seq<E>) -> Result<EvalView<E>, ErrorView> {
        arbitrary()
    }

    /// The number of inputs.
    fn dim_in(&self) -> (d: usize)
        ensures
            d == self.spec_dim_in(),
    ;

    /// The number of outputs.
    fn dim_out(&self) -> (d: usize)
        ensures
            d == self.spec_dim_out(),
    ;

    /// Evaluates the model on one input vector of `dim_in` elements.
    fn apply(&self, inputs: &[E]) -> (r: Result<EvalResult<E>, OperatorError>)
        requires
            inputs@.len() == self.spec_dim_in(),
        ensures
            outcome_view(r) == self.spec_apply(inputs@),
    ;

    /// Evaluates the model on one input vector, checking the input length
    /// against `dim_in` (without evaluating on a mismatch) and the number of
    /// outputs against `dim_out`.
    fn apply_checked(&self, inputs: &[E]) -> (r: Result<EvalResult<E>, OperatorError>)
        ensures
            outcome_view(r) == checked_outcome(
                inputs@.len() as usize,
                self.spec_dim_in(),
                self.spec_dim_out(),
                self.spec_apply(inputs@),
            ),
            inputs@.len() != self.spec_dim_in() ==> r == Err::<EvalResult<E>, OperatorError>(
                OperatorError::InconsistentInputDim {
                    found: inputs@.len() as usize,
                    expected: self.spec_dim_in(),
                },
            ),
            r matches Ok(out) ==> out.mask().len() == self.spec_dim_out(),
            inputs@.len() == self.spec_dim_in() ==> match self.spec_apply(inputs@) {
                Err(e) => outcome_view(r) == Err::<EvalView<E>, ErrorView>(e),
                Ok(v) => if v.mask.len() == self.spec_dim_out() {
                    outcome_view(r) == Ok::<EvalView<E>, ErrorView>(v)
                } else {
                    r == Err::<EvalResult<E>, OperatorError>(
                        OperatorError::InconsistentOutputDim {
                            found: v.mask.len() as usize,
                            expected: self.spec_dim_out(),
                        },
                    )
                },
            },
    {
        let dim_in = self.dim_in();
        if inputs.len() != dim_in {
            return Err(OperatorError::InconsistentInputDim { found: inputs.len(), expected: dim_in });
        }
        let res = self.apply(inputs);
        let dim_out = self.dim_out();
        check_output(res, dim_out)
    }

    /// Evaluates the model on each row of a matrix of inputs with
    /// `apply_checked`, in row order, and stacks the results into a matrix of
    /// outputs; the first failing row's error is returned, and later rows are
    /// not evaluated. A width other than `dim_in` is an error before any
    /// evaluation.
    fn apply_batch(&self, inputs: &Tensor<E>) -> (r: Result<EvalResult<E>, OperatorError>) where
        E: Copy,
        requires
            inputs.dims().len() == 2,
        ensures
            inputs.dims()[1] != self.spec_dim_in() ==> r == Err::<EvalResult<E>, OperatorError>(
                OperatorError::InconsistentInputDim {
                    found: inputs.dims()[1],
                    expected: self.spec_dim_in(),
                },
            ),
            inputs.dims()[1] == self.spec_dim_in() ==> ({
                let results = matrix_rows(
                    inputs.items(),
                    inputs.dims()[0] as nat,
                    inputs.dims()[1] as nat,
                ).map_values(
                    |row: Seq<E>|
                        checked_outcome(
                            row.len() as usize,
                            self.spec_dim_in(),
                            self.spec_dim_out(),
                            self.spec_apply(row),
                        ),
                );
                &&& forall|k: int|
                    0 <= k < results.len() && (#[trigger] results[k]) is Err && (forall|j: int|
                        0 <= j < k ==> (#[trigger] results[j]) is Ok) ==> outcome_view(r) == results[k]
                &&& (forall|k: int| 0 <= k < results.len() ==> (#[trigger] results[k]) is Ok) ==> (
                r matches Ok(out) && is_stack_of(out, successes(results), self.spec_dim_out()))
                &&& r matches Ok(out) ==> (forall|k: int, j: int|
                    0 <= k < results.len() && 0 <= j < self.spec_dim_out() ==> #[trigger] out.values()[k
                        * self.spec_dim_out() + j] == results[k]->Ok_0.values[j]) && (forall|k: int, j: int|
                    0 <= k < results.len() && 0 <= j < self.spec_dim_out() ==> #[trigger] out.mask()[k
                        * self.spec_dim_out() + j] == results[k]->Ok_0.mask[j])
            }),
            r matches Ok(out) ==> out.dims() == seq![inputs.dims()[0], self.spec_dim_out()]
                && out.valid_part().dims() == seq![inputs.dims()[0], self.spec_dim_out()],
    {
        let shape = inputs.shape();
        let n = shape[0];
        let cols = shape[1];
        let dim_in = self.dim_in();
        if cols != dim_in {
            return Err(OperatorError::InconsistentInputDim { found: cols, expected: dim_in });
        }
        let dim_out = self.dim_out();
        let ghost all_rows = matrix_rows(inputs.items(), n as nat, cols as nat);
        let ghost results = all_rows.map_values(
            |row: Seq<E>|
                checked_outcome(
                    row.len() as usize,
                    self.spec_dim_in(),
                    self.spec_dim_out(),
                    self.spec_apply(row),
                ),
        );
        let mut rows: Vec<EvalResult<E>> = Vec::new();
        let mut i: usize = 0;
        while i < n
            invariant
                i <= n,
                n == inputs.dims()[0],
                inputs.dims().len() == 2,
                cols == inputs.dims()[1],
                cols == self.spec_dim_in(),
                dim_out == self.spec_dim_out(),
                all_rows == matrix_rows(inputs.items(), n as nat, cols as nat),
                results == all_rows.map_values(
                    |row: Seq<E>|
                        checked_outcome(
                            row.len() as usize,
                            self.spec_dim_in(),
                            self.spec_dim_out(),
                            self.spec_apply(row),
                        ),
                ),
                results.len() == n,
                rows@.len() == i,
                forall|j: int| 0 <= j < i ==> (#[trigger] results[j]) is Ok,
                forall|j: int| 0 <= j < i ==> rows@[j]@ == (#[trigger] results[j])->Ok_0,
                forall|j: int| 0 <= j < i ==> (#[trigger] rows@[j]).mask().len() == dim_out,
            decreases n - i,
        {
            let row = inputs.row(i);
            assert(row@ == all_rows[i as int]);
            let res = self.apply_checked(row.as_slice());
            match res {
                Err(e) => {
                    assert(results[i as int] is Err);
                    return Err(e);
                },
                Ok(out) => {
                    rows.push(out);
                },
            }
            i = i + 1;
        }
        let ghost stacked = rows@;
        proof {
            assert(views_of(stacked) =~= successes(results));
        }
        let r = stack_rows(rows, dim_out);
        proof {
            if r is Ok {
                let out = r->Ok_0;
                lemma_stack_entries(out, successes(results), dim_out);
            }
        }
        r
    }
}

} // verus!
