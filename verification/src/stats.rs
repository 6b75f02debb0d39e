//! Validity bookkeeping of the streaming statistics.
//!
//! Every sample is counted, and for each output component (and each pair of
//! components) the samples in which it was valid. These counts weight the
//! streaming moments and give the valid fraction of each output.
use vstd::prelude::*;

use vstd::arithmetic::mul::lemma_mul_is_distributive_add_other_way;

use crate::tensor::{Tensor, matrix_rows};

verus! {

/// What a [`SampleCounts`] holds: the number of samples, the number of valid
/// samples of each component, and of each pair of components.
pub struct CountsView {
    pub n: nat,
    pub count: Seq<nat>,
    pub pair: Seq<Seq<nat>>,
}

/// The counts are consistent: square, bounded by the sample count, and a
/// pair count never exceeds the counts of its components.
pub open spec fn consistent(v: CountsView) -> bool {
    &&& v.pair.len() == v.count.len()
    &&& forall|i: int| 0 <= i < v.count.len() ==> (#[trigger] v.pair[i]).len() == v.count.len()
    &&& forall|i: int| 0 <= i < v.count.len() ==> #[trigger] v.count[i] <= v.n
    &&& forall|i: int, j: int|
        0 <= i < v.count.len() && 0 <= j < v.count.len() ==> #[trigger] v.pair[i][j] <= v.count[i]
            && v.pair[i][j] == v.pair[j][i]
    &&& forall|i: int| 0 <= i < v.count.len() ==> #[trigger] v.pair[i][i] == v.count[i]
}

/// No sample recorded, for `dim` components.
pub open spec fn empty_counts(dim: nat) -> CountsView {
    CountsView {
        n: 0,
        count: Seq::new(dim, |i: int| 0nat),
        pair: Seq::new(dim, |i: int| Seq::new(dim, |j: int| 0nat)),
    }
}

pub open spec fn flag(b: bool) -> nat {
    if b {
        1
    } else {
        0
    }
}

/// The counts after one more sample with validity flags `valid`.
pub open spec fn recorded(v: CountsView, valid: Seq<bool>) -> CountsView {
    CountsView {
        n: v.n + 1,
        count: Seq::new(v.count.len(), |i: int| v.count[i] + flag(valid[i])),
        pair: Seq::new(
            v.count.len(),
            |i: int| Seq::new(v.count.len(), |j: int| v.pair[i][j] + flag(valid[i] && valid[j])),
        ),
    }
}

/// The counts after recording the samples `rows`, in order.
pub open spec fn recorded_rows(v: CountsView, rows: Seq<Seq<bool>>) -> CountsView
    decreases rows.len(),
{
    if rows.len() == 0 {
        v
    } else {
        recorded(recorded_rows(v, rows.drop_last()), rows.last())
    }
}

/// Component-wise sum of the counts of two accumulators of the same dimension.
pub open spec fn summed(a: CountsView, b: CountsView) -> CountsView {
    CountsView {
        n: a.n + b.n,
        count: Seq::new(a.count.len(), |i: int| a.count[i] + b.count[i]),
        pair: Seq::new(
            a.count.len(),
            |i: int| Seq::new(a.count.len(), |j: int| a.pair[i][j] + b.pair[i][j]),
        ),
    }
}

/// The counts of two accumulators merged: an empty one adopts the other.
pub open spec fn merged(a: CountsView, b: CountsView) -> CountsView {
    if a.n == 0 {
        b
    } else if b.n == 0 {
        a
    } else {
        summed(a, b)
    }
}

/// Counts of samples, and of valid samples per component and per pair of
/// components.
#[derive(Debug)]
pub struct SampleCounts {
    n: usize,
    count: Vec<usize>,
    pair_count: Vec<Vec<usize>>,
}

impl View for SampleCounts {
    type V = CountsView;

    closed spec fn view(&self) -> CountsView {
        CountsView {
            n: self.n as nat,
            count: self.count@.map_values(|c: usize| c as nat),
            pair: self.pair_count@.map_values(|row: Vec<usize>| row@.map_values(|c: usize| c as nat)),
        }
    }
}

fn zeros(dim: usize) -> (v: Vec<usize>)
    ensures
        v@.len() == dim,
        forall|i: int| 0 <= i < dim ==> v@[i] == 0,
{
    let mut v: Vec<usize> = Vec::new();
    let mut k: usize = 0;
    while k < dim
        invariant
            k <= dim,
            v@.len() == k,
            forall|i: int| 0 <= i < k ==> v@[i] == 0,
        decreases dim - k,
    {
        v.push(0);
        k = k + 1;
    }
    v
}

impl SampleCounts {
    #[verifier::type_invariant]
    spec fn well_formed(self) -> bool {
        consistent(self@)
    }

    /// No sample recorded yet, for `dim` output components.
    pub fn new(dim: usize) -> (c: Self)
        ensures
            c@ == empty_counts(dim as nat),
    {
        let count = zeros(dim);
        let mut pair_count: Vec<Vec<usize>> = Vec::new();
        let mut k: usize = 0;
        while k < dim
            invariant
                k <= dim,
                pair_count@.len() == k,
                forall|i: int| 0 <= i < k ==> (#[trigger] pair_count@[i])@.len() == dim,
                forall|i: int, j: int| 0 <= i < k && 0 <= j < dim ==> #[trigger] pair_count@[i]@[j] == 0,
            decreases dim - k,
        {
            pair_count.push(zeros(dim));
            k = k + 1;
        }
        let c = SampleCounts { n: 0, count, pair_count };
        assert(c@.count =~= empty_counts(dim as nat).count);
        assert(c@.pair =~= empty_counts(dim as nat).pair) by {
            assert forall|i: int| 0 <= i < dim implies c@.pair[i] =~= empty_counts(dim as nat).pair[i] by {}
        }
        c
    }

    /// The number of samples recorded.
    pub fn count(&self) -> (n: usize)
        ensures
            n == self@.n,
    {
        self.n
    }

    /// The number of output components.
    pub fn dim(&self) -> (d: usize)
        ensures
            d == self@.count.len(),
    {
        self.count.len()
    }

    /// The number of samples in which component `i` was valid.
    pub fn valid_count(&self, i: usize) -> (c: usize)
        requires
            i < self@.count.len(),
        ensures
            c == self@.count[i as int],
    {
        self.count[i]
    }

    /// The number of samples in which components `i` and `j` were both valid.
    pub fn pair_valid_count(&self, i: usize, j: usize) -> (c: usize)
        requires
            i < self@.count.len(),
            j < self@.count.len(),
        ensures
            c == self@.pair[i as int][j as int],
    {
        proof {
            use_type_invariant(self);
            assert(self@.pair[i as int].len() == self@.count.len());
            assert(self.pair_count@[i as int]@.len() == self@.pair[i as int].len());
        }
        self.pair_count[i][j]
    }
}


/// Recording a sample keeps the counts consistent.
pub proof fn lemma_recorded_consistent(v: CountsView, valid: Seq<bool>)
    requires
        consistent(v),
        valid.len() == v.count.len(),
    ensures
        consistent(recorded(v, valid)),
{
}

/// Summing the counts of two consistent accumulators of one dimension keeps
/// them consistent.
pub proof fn lemma_summed_consistent(a: CountsView, b: CountsView)
    requires
        consistent(a),
        consistent(b),
        a.count.len() == b.count.len(),
    ensures
        consistent(summed(a, b)),
{
}

/// Consistent counts over no sample are all zero.
proof fn lemma_no_samples_is_empty(a: CountsView)
    requires
        consistent(a),
        a.n == 0,
    ensures
        a == empty_counts(a.count.len()),
{
    let e = empty_counts(a.count.len());
    assert(a.count =~= e.count);
    assert forall|i: int| 0 <= i < a.count.len() implies a.pair[i] =~= e.pair[i] by {
        assert forall|j: int| 0 <= j < a.count.len() implies a.pair[i][j] == 0 by {
            assert(a.pair[i][j] <= a.count[i]);
        }
    }
    assert(a.pair =~= e.pair);
}

/// For consistent accumulators of one dimension, merging is summing.
proof fn lemma_merged_is_summed(a: CountsView, b: CountsView)
    requires
        consistent(a),
        consistent(b),
        a.count.len() == b.count.len(),
    ensures
        merged(a, b) == summed(a, b),
{
    let s = summed(a, b);
    if a.n == 0 {
        lemma_no_samples_is_empty(a);
        assert(s.count =~= b.count);
        assert forall|i: int| 0 <= i < b.count.len() implies s.pair[i] =~= b.pair[i] by {}
        assert(s.pair =~= b.pair);
    } else if b.n == 0 {
        lemma_no_samples_is_empty(b);
        assert(s.count =~= a.count);
        assert forall|i: int| 0 <= i < a.count.len() implies s.pair[i] =~= a.pair[i] by {}
        assert(s.pair =~= a.pair);
    }
}

/// Merging with an accumulator that holds no sample changes nothing, on
/// either side.
pub proof fn lemma_merge_identity(a: CountsView)
    requires
        consistent(a),
    ensures
        merged(empty_counts(a.count.len()), a) == a,
        merged(a, empty_counts(a.count.len())) == a,
{
    if a.n == 0 {
        lemma_no_samples_is_empty(a);
    }
}

/// Merging is commutative.
pub proof fn lemma_merge_commutative(a: CountsView, b: CountsView)
    requires
        consistent(a),
        consistent(b),
        a.count.len() == b.count.len(),
    ensures
        merged(a, b) == merged(b, a),
{
    lemma_merged_is_summed(a, b);
    lemma_merged_is_summed(b, a);
    let x = summed(a, b);
    let y = summed(b, a);
    assert(x.count =~= y.count);
    assert forall|i: int| 0 <= i < a.count.len() implies x.pair[i] =~= y.pair[i] by {}
    assert(x.pair =~= y.pair);
}

/// Merging is associative: pooled runs give the same counts in any grouping.
pub proof fn lemma_merge_associative(a: CountsView, b: CountsView, c: CountsView)
    requires
        consistent(a),
        consistent(b),
        consistent(c),
        a.count.len() == b.count.len(),
        b.count.len() == c.count.len(),
    ensures
        merged(merged(a, b), c) == merged(a, merged(b, c)),
{
    lemma_merged_is_summed(a, b);
    lemma_merged_is_summed(b, c);
    lemma_summed_consistent(a, b);
    lemma_summed_consistent(b, c);
    let ab = summed(a, b);
    let bc = summed(b, c);
    lemma_merged_is_summed(ab, c);
    lemma_merged_is_summed(a, bc);
    let x = summed(ab, c);
    let y = summed(a, bc);
    assert(x.count =~= y.count);
    assert forall|i: int| 0 <= i < a.count.len() implies x.pair[i] =~= y.pair[i] by {}
    assert(x.pair =~= y.pair);
}

/// Recording a sample is merging in an accumulator that holds that one sample.
pub proof fn lemma_record_is_merge_of_one(a: CountsView, valid: Seq<bool>)
    requires
        consistent(a),
        valid.len() == a.count.len(),
    ensures
        recorded(a, valid) == merged(a, recorded(empty_counts(a.count.len()), valid)),
{
    let e = empty_counts(a.count.len());
    let one = recorded(e, valid);
    lemma_recorded_consistent(e, valid);
    lemma_merged_is_summed(a, one);
    let x = recorded(a, valid);
    let y = summed(a, one);
    assert(x.count =~= y.count);
    assert forall|i: int| 0 <= i < a.count.len() implies x.pair[i] =~= y.pair[i] by {}
    assert(x.pair =~= y.pair);
}

/// A sample in which component `i` or `j` is invalid leaves their pair count,
/// and so their covariance divisor, unchanged; one in which `i` is invalid
/// leaves the count of `i` unchanged.
pub proof fn lemma_invalid_sample_excluded(v: CountsView, valid: Seq<bool>, i: int, j: int)
    requires
        consistent(v),
        valid.len() == v.count.len(),
        0 <= i < v.count.len(),
        0 <= j < v.count.len(),
    ensures
        !(valid[i] && valid[j]) ==> recorded(v, valid).pair[i][j] == v.pair[i][j],
        !valid[i] ==> recorded(v, valid).count[i] == v.count[i],
        valid[i] && valid[j] ==> recorded(v, valid).pair[i][j] == v.pair[i][j] + 1,
{
}

/// Recording a batch of rows adds the number of rows to the sample count and
/// keeps the dimension.
pub proof fn lemma_recorded_rows_count(v: CountsView, rows: Seq<Seq<bool>>)
    ensures
        recorded_rows(v, rows).n == v.n + rows.len(),
        recorded_rows(v, rows).count.len() == v.count.len(),
    decreases rows.len(),
{
    if rows.len() > 0 {
        lemma_recorded_rows_count(v, rows.drop_last());
    }
}

/// Recording rows of the right width keeps the counts consistent.
pub proof fn lemma_recorded_rows_consistent(v: CountsView, rows: Seq<Seq<bool>>)
    requires
        consistent(v),
        forall|i: int| 0 <= i < rows.len() ==> (#[trigger] rows[i]).len() == v.count.len(),
    ensures
        consistent(recorded_rows(v, rows)),
    decreases rows.len(),
{
    if rows.len() > 0 {
        lemma_recorded_rows_consistent(v, rows.drop_last());
        lemma_recorded_rows_count(v, rows.drop_last());
        lemma_recorded_consistent(recorded_rows(v, rows.drop_last()), rows.last());
    }
}

/// Recording a batch of samples one by one gives the same counts as merging
/// in an accumulator of that batch alone (batch-wise merging).
pub proof fn lemma_batch_is_merge_of_batch(a: CountsView, rows: Seq<Seq<bool>>)
    requires
        consistent(a),
        forall|i: int| 0 <= i < rows.len() ==> (#[trigger] rows[i]).len() == a.count.len(),
    ensures
        recorded_rows(a, rows) == merged(a, recorded_rows(empty_counts(a.count.len()), rows)),
    decreases rows.len(),
{
    let e = empty_counts(a.count.len());
    if rows.len() == 0 {
        lemma_merge_identity(a);
    } else {
        let init = rows.drop_last();
        let last = rows.last();
        lemma_batch_is_merge_of_batch(a, init);
        let x = recorded_rows(a, init);
        let b = recorded_rows(e, init);
        lemma_recorded_rows_consistent(a, init);
        lemma_recorded_rows_consistent(e, init);
        lemma_recorded_rows_count(a, init);
        lemma_recorded_rows_count(e, init);
        let one = recorded(empty_counts(a.count.len()), last);
        lemma_recorded_consistent(empty_counts(a.count.len()), last);
        lemma_record_is_merge_of_one(x, last);
        lemma_record_is_merge_of_one(b, last);
        lemma_merge_associative(a, b, one);
    }
}

impl SampleCounts {
    /// Records one sample: the sample count grows by one, and so does the
    /// count of each component (and each pair of components) valid in it.
    pub fn record(&mut self, valid: &[bool])
        requires
            valid@.len() == old(self)@.count.len(),
            old(self)@.n < usize::MAX,
        ensures
            final(self)@ == recorded(old(self)@, valid@),
    {
        proof {
            use_type_invariant(&*self);
        }
        let ghost old_view = self@;
        let dim = self.count.len();
        let mut count: Vec<usize> = Vec::new();
        let mut i: usize = 0;
        while i < dim
            invariant
                i <= dim,
                dim == self.count@.len(),
                old_view == self@,
                consistent(old_view),
                self.n < usize::MAX,
                valid@.len() == dim,
                count@.len() == i,
                forall|k: int| 0 <= k < i ==> #[trigger] count@[k] == old_view.count[k] + flag(valid@[k]),
            decreases dim - i,
        {
            assert(old_view.count[i as int] == self.count@[i as int]);
            let c = if valid[i] { self.count[i] + 1 } else { self.count[i] };
            count.push(c);
            i = i + 1;
        }
        let mut pair_count: Vec<Vec<usize>> = Vec::new();
        let mut i: usize = 0;
        while i < dim
            invariant
                i <= dim,
                dim == self.count@.len(),
                old_view == self@,
                consistent(old_view),
                self.n < usize::MAX,
                valid@.len() == dim,
                pair_count@.len() == i,
                forall|k: int| 0 <= k < i ==> (#[trigger] pair_count@[k])@.len() == dim,
                forall|k: int, l: int|
                    0 <= k < i && 0 <= l < dim ==> #[trigger] pair_count@[k]@[l] == old_view.pair[k][l]
                        + flag(valid@[k] && valid@[l]),
            decreases dim - i,
        {
            assert(self.pair_count@[i as int]@.len() == old_view.pair[i as int].len());
            let mut row: Vec<usize> = Vec::new();
            let mut j: usize = 0;
            while j < dim
                invariant
                    i < dim,
                    j <= dim,
                    dim == self.count@.len(),
                    old_view == self@,
                    consistent(old_view),
                    self.n < usize::MAX,
                    valid@.len() == dim,
                    self.pair_count@[i as int]@.len() == dim,
                    row@.len() == j,
                    forall|l: int|
                        0 <= l < j ==> #[trigger] row@[l] == old_view.pair[i as int][l] + flag(
                            valid@[i as int] && valid@[l],
                        ),
                decreases dim - j,
            {
                assert(old_view.pair[i as int][j as int] == self.pair_count@[i as int]@[j as int]);
                let p = self.pair_count[i][j];
                let c = if valid[i] && valid[j] { p + 1 } else { p };
                row.push(c);
                j = j + 1;
            }
            pair_count.push(row);
            i = i + 1;
        }
        let ghost target = recorded(old_view, valid@);
        let next = SampleCounts { n: self.n + 1, count, pair_count };
        proof {
            assert(next@.count =~= target.count);
            assert forall|k: int| 0 <= k < dim implies next@.pair[k] =~= target.pair[k] by {}
            assert(next@.pair =~= target.pair);
            lemma_recorded_consistent(old_view, valid@);
        }
        *self = next;
    }
}

fn copy_row(row: &Vec<usize>) -> (r: Vec<usize>)
    ensures
        r@ == row@,
{
    let mut r: Vec<usize> = Vec::new();
    let mut k: usize = 0;
    while k < row.len()
        invariant
            k <= row@.len(),
            r@ == row@.take(k as int),
        decreases row@.len() - k,
    {
        r.push(row[k]);
        proof {
            assert(row@.take(k + 1) =~= row@.take(k as int).push(row@[k as int]));
        }
        k = k + 1;
    }
    proof {
        assert(row@.take(k as int) =~= row@);
    }
    r
}

impl SampleCounts {
    /// An accumulator holding the same counts.
    fn duplicate(&self) -> (c: Self)
        ensures
            c@ == self@,
    {
        proof {
            use_type_invariant(self);
        }
        let count = copy_row(&self.count);
        let mut pair_count: Vec<Vec<usize>> = Vec::new();
        let mut i: usize = 0;
        while i < self.pair_count.len()
            invariant
                i <= self.pair_count@.len(),
                pair_count@.len() == i,
                forall|k: int| 0 <= k < i ==> (#[trigger] pair_count@[k])@ == self.pair_count@[k]@,
            decreases self.pair_count@.len() - i,
        {
            pair_count.push(copy_row(&self.pair_count[i]));
            i = i + 1;
        }
        proof {
            assert(count@ =~= self.count@);
            let f = |row: Vec<usize>| row@.map_values(|c: usize| c as nat);
            assert(pair_count@.map_values(f) =~= self.pair_count@.map_values(f)) by {
                assert forall|k: int| 0 <= k < pair_count@.len() implies #[trigger] f(pair_count@[k]) =~= f(
                    self.pair_count@[k],
                ) by {}
            }
        }
        let c = SampleCounts { n: self.n, count, pair_count };
        c
    }

    /// Component-wise sum of two accumulators of one dimension.
    fn sum_with(&self, other: &Self) -> (c: Self)
        requires
            self@.count.len() == other@.count.len(),
            self@.n + other@.n <= usize::MAX,
        ensures
            c@ == summed(self@, other@),
    {
        proof {
            use_type_invariant(self);
            use_type_invariant(other);
        }
        let ghost a = self@;
        let ghost b = other@;
        let dim = self.count.len();
        let mut count: Vec<usize> = Vec::new();
        let mut i: usize = 0;
        while i < dim
            invariant
                i <= dim,
                dim == a.count.len(),
                a == self@,
                b == other@,
                consistent(a),
                consistent(b),
                a.count.len() == b.count.len(),
                a.n + b.n <= usize::MAX,
                count@.len() == i,
                forall|k: int| 0 <= k < i ==> #[trigger] count@[k] == a.count[k] + b.count[k],
            decreases dim - i,
        {
            assert(a.count[i as int] == self.count@[i as int]);
            assert(b.count[i as int] == other.count@[i as int]);
            count.push(self.count[i] + other.count[i]);
            i = i + 1;
        }
        let mut pair_count: Vec<Vec<usize>> = Vec::new();
        let mut i: usize = 0;
        while i < dim
            invariant
                i <= dim,
                dim == a.count.len(),
                a == self@,
                b == other@,
                consistent(a),
                consistent(b),
                a.count.len() == b.count.len(),
                a.n + b.n <= usize::MAX,
                pair_count@.len() == i,
                forall|k: int| 0 <= k < i ==> (#[trigger] pair_count@[k])@.len() == dim,
                forall|k: int, l: int|
                    0 <= k < i && 0 <= l < dim ==> #[trigger] pair_count@[k]@[l] == a.pair[k][l]
                        + b.pair[k][l],
            decreases dim - i,
        {
            assert(self.pair_count@[i as int]@.len() == a.pair[i as int].len());
            assert(other.pair_count@[i as int]@.len() == b.pair[i as int].len());
            let mut row: Vec<usize> = Vec::new();
            let mut j: usize = 0;
            while j < dim
                invariant
                    i < dim,
                    j <= dim,
                    dim == a.count.len(),
                    a == self@,
                    b == other@,
                    consistent(a),
                    consistent(b),
                    a.count.len() == b.count.len(),
                    a.n + b.n <= usize::MAX,
                    self.pair_count@[i as int]@.len() == dim,
                    other.pair_count@[i as int]@.len() == dim,
                    row@.len() == j,
                    forall|l: int|
                        0 <= l < j ==> #[trigger] row@[l] == a.pair[i as int][l] + b.pair[i as int][l],
                decreases dim - j,
            {
                assert(a.pair[i as int][j as int] == self.pair_count@[i as int]@[j as int]);
                assert(b.pair[i as int][j as int] == other.pair_count@[i as int]@[j as int]);
                row.push(self.pair_count[i][j] + other.pair_count[i][j]);
                j = j + 1;
            }
            pair_count.push(row);
            i = i + 1;
        }
        let ghost target = summed(a, b);
        let c = SampleCounts { n: self.n + other.n, count, pair_count };
        proof {
            assert(c@.count =~= target.count);
            assert forall|k: int| 0 <= k < dim implies c@.pair[k] =~= target.pair[k] by {}
            assert(c@.pair =~= target.pair);
            lemma_summed_consistent(a, b);
        }
        c
    }

    /// Merges the counts of another accumulator into this one, as when the
    /// samples of two runs are pooled. An empty accumulator adopts the other.
    pub fn merge(&mut self, other: &Self)
        requires
            old(self)@.n == 0 || other@.n == 0 || old(self)@.count.len() == other@.count.len(),
            old(self)@.n + other@.n <= usize::MAX,
        ensures
            final(self)@ == merged(old(self)@, other@),
    {
        if self.n == 0 {
            *self = other.duplicate();
            return;
        }
        if other.n == 0 {
            return;
        }
        let sum = self.sum_with(other);
        *self = sum;
    }
}

impl SampleCounts {
    /// Records each row of a matrix of validity flags as one sample, in row
    /// order.
    pub fn record_batch(&mut self, valid: &Tensor<bool>)
        requires
            valid.dims().len() == 2,
            valid.dims()[1] == old(self)@.count.len(),
            old(self)@.n + valid.dims()[0] <= usize::MAX,
        ensures
            final(self)@ == recorded_rows(
                old(self)@,
                matrix_rows(valid.items(), valid.dims()[0] as nat, valid.dims()[1] as nat),
            ),
    {
        let shape = valid.shape();
        let rows = shape[0];
        let ghost all = matrix_rows(valid.items(), valid.dims()[0] as nat, valid.dims()[1] as nat);
        let mut i: usize = 0;
        while i < rows
            invariant
                i <= rows,
                valid.dims().len() == 2,
                rows == valid.dims()[0],
                valid.dims()[1] == old(self)@.count.len(),
                old(self)@.n + rows <= usize::MAX,
                all == matrix_rows(valid.items(), valid.dims()[0] as nat, valid.dims()[1] as nat),
                self@ == recorded_rows(old(self)@, all.take(i as int)),
            decreases rows - i,
        {
            proof {
                lemma_recorded_rows_count(old(self)@, all.take(i as int));
                lemma_mul_is_distributive_add_other_way(valid.dims()[1] as int, i as int, 1);
            }
            let row = valid.row(i);
            self.record(row.as_slice());
            proof {
                assert(all.take(i + 1).drop_last() =~= all.take(i as int));
                assert(all.take(i + 1).last() == row@);
            }
            i = i + 1;
        }
        proof {
            assert(all.take(rows as int) =~= all);
        }
    }

    /// The divisor of the unbiased covariance estimate of components `i` and
    /// `j`: the number of samples in which both were valid, less one. `None`
    /// below two such samples, where the estimate is taken as zero. Samples
    /// in which either component was invalid do not count.
    pub fn covariance_divisor(&self, i: usize, j: usize) -> (d: Option<usize>)
        requires
            i < self@.count.len(),
            j < self@.count.len(),
        ensures
            self@.pair[i as int][j as int] < 2 ==> d is None,
            self@.pair[i as int][j as int] >= 2 ==> d == Some((self@.pair[i as int][j as int] - 1) as usize),
    {
        let p = self.pair_valid_count(i, j);
        if p < 2 {
            None
        } else {
            Some(p - 1)
        }
    }
}

impl Clone for SampleCounts {
    fn clone(&self) -> (c: Self)
        ensures
            c@ == self@,
    {
        self.duplicate()
    }
}
} // verus!
