//! Weight matrices and delta (gradient accumulator) matrices.
//!
//! A weights matrix of a layer with `n` inputs and `m` outputs has shape
//! `(m, n + 1)`: one extra trailing column holds the bias weight of each
//! output neuron.  It supports the row-wise dot product against a biased
//! input signal that drives forward propagation, and the transposed dot
//! product that carries error signals backward.  A delta matrix of the
//! same shape accumulates outer-product gradient contributions across a
//! batch before they are applied to the weights under the mentor's
//! learning-rate and momentum schedule.

use vstd::prelude::*;

use crate::arith::{add_bits, mul_bits, add_f, mul_f};
use crate::fbits::ZERO_BITS;
use crate::errors::{Error, ErrorKind, Annotation};
use crate::buffer::{all_zero, BiasedSignalBuffer, UnbiasedSignalBuffer, UnbiasedErrorSignalBuffer};
use crate::table::{rect, same_shape, all_zero_rows, rows_view};

verus! {

broadcast use crate::table::lemma_rows_view_len, crate::table::lemma_rows_view_index;

/// The running dot product of `row` and `x` from position `i` on, with
/// accumulator `acc`: exactly the left-to-right fold of multiply and add
/// steps that the executable loop performs.
pub open spec fn dot_from(row: Seq<u32>, x: Seq<u32>, i: int, acc: u32) -> u32
    decreases row.len() - i,
{
    if i < 0 || i >= row.len() {
        acc
    } else {
        dot_from(row, x, i + 1, add_bits(acc, mul_bits(row[i], x[i])))
    }
}

/// The dot product of `row` and `x`: a left-to-right fold starting from
/// the zero pattern.
pub open spec fn dot_bits(row: Seq<u32>, x: Seq<u32>) -> u32 {
    dot_from(row, x, 0, ZERO_BITS)
}

/// The running transposed dot product over column `j`: folds
/// `rows[i][j] * err[i]` over the row index `i`.
pub open spec fn tdot_from(rows: Seq<Seq<u32>>, err: Seq<u32>, j: int, i: int, acc: u32) -> u32
    decreases rows.len() - i,
{
    if i < 0 || i >= rows.len() {
        acc
    } else {
        tdot_from(rows, err, j, i + 1, add_bits(acc, mul_bits(rows[i][j], err[i])))
    }
}

/// The transposed dot product over column `j`: a left-to-right fold
/// starting from the zero pattern.
pub open spec fn tdot_bits(rows: Seq<Seq<u32>>, err: Seq<u32>, j: int) -> u32 {
    tdot_from(rows, err, j, 0, ZERO_BITS)
}

/// Builds `outputs` rows of `inputs + 1` zero patterns each.
fn make_zero_rows(outputs: usize, inputs: usize) -> (r: Vec<Vec<u32>>)
    requires
        outputs >= 1,
        inputs >= 1,
        inputs < usize::MAX,
    ensures
        r@.len() == outputs,
        forall|i: int| 0 <= i < outputs ==> (#[trigger] r@[i]@).len() == inputs + 1,
        forall|i: int| 0 <= i < outputs ==> all_zero(#[trigger] r@[i]@),
{
    let mut rows: Vec<Vec<u32>> = Vec::new();
    let mut i: usize = 0;
    while i < outputs
        invariant
            i <= outputs,
            inputs < usize::MAX,
            rows@.len() == i,
            forall|k: int| 0 <= k < i ==> (#[trigger] rows@[k]@).len() == inputs + 1,
            forall|k: int| 0 <= k < i ==> all_zero(#[trigger] rows@[k]@),
        decreases outputs - i,
    {
        let mut row: Vec<u32> = Vec::new();
        let mut j: usize = 0;
        while j < inputs + 1
            invariant
                j <= inputs + 1,
                inputs < usize::MAX,
                row@.len() == j,
                all_zero(row@),
            decreases inputs + 1 - j,
        {
            row.push(ZERO_BITS);
            j = j + 1;
        }
        rows.push(row);
        i = i + 1;
    }
    rows
}

/// Copies a row table.
fn copy_rows(rows: &Vec<Vec<u32>>) -> (r: Vec<Vec<u32>>)
    ensures
        rows_view(r@) == rows_view(rows@),
{
    let mut out: Vec<Vec<u32>> = Vec::new();
    let mut i: usize = 0;
    while i < rows.len()
        invariant
            i <= rows@.len(),
            out@.len() == i,
            forall|k: int| 0 <= k < i ==> #[trigger] out@[k]@ == rows@[k]@,
        decreases rows@.len() - i,
    {
        let src = &rows[i];
        let mut row: Vec<u32> = Vec::new();
        let mut j: usize = 0;
        while j < src.len()
            invariant
                j <= src@.len(),
                row@ == src@.take(j as int),
            decreases src@.len() - j,
        {
            row.push(src[j]);
            assert(row@ =~= src@.take(j as int + 1));
            j = j + 1;
        }
        assert(row@ =~= src@);
        out.push(row);
        i = i + 1;
    }
    assert(rows_view(out@) =~= rows_view(rows@));
    out
}

/// A layer's weight matrix: shape `(outputs, inputs + 1)`, the trailing
/// column being each output neuron's bias weight.
#[derive(Debug)]
pub struct WeightsMatrix {
    rows: Vec<Vec<u32>>,
}

/// A gradient accumulator with the same shape as its weights matrix.
#[derive(Debug)]
pub struct DeltaWeightsMatrix {
    rows: Vec<Vec<u32>>,
}

impl WeightsMatrix {
    /// The weight patterns, row by row.
    pub closed spec fn bits(&self) -> Seq<Seq<u32>> {
        rows_view(self.rows@)
    }

    /// The number of output neurons: the number of rows.
    pub open spec fn outputs(&self) -> int {
        self.bits().len() as int
    }

    /// The number of columns: the layer's inputs plus the bias column.
    pub open spec fn cols(&self) -> int {
        self.bits()[0].len() as int
    }

    /// The matrix is well formed: rectangular with at least one row and
    /// at least two columns.
    pub open spec fn wf(&self) -> bool {
        rect(self.bits())
    }

    /// A zero-initialized matrix of shape `(outputs, inputs + 1)`;
    /// rejects a zero dimension.
    pub fn zeros(outputs: usize, inputs: usize) -> (r: Result<WeightsMatrix, Error>)
        requires
            inputs < usize::MAX,
        ensures
            match r {
                Ok(m) => {
                    &&& outputs >= 1
                    &&& inputs >= 1
                    &&& m.outputs() == outputs
                    &&& m.cols() == inputs + 1
                    &&& all_zero_rows(m.bits())
                    &&& m.wf()
                },
                Err(e) => (outputs == 0 || inputs == 0) && e.kind == ErrorKind::ZeroSizedBuffer
                    && e.annotation == Annotation::MatrixConstruction,
            },
    {
        if outputs == 0 || inputs == 0 {
            return Err(
                Error::attempt_to_create_zero_sized_buffer().with_annotation(
                    Annotation::MatrixConstruction,
                ),
            );
        }
        Ok(WeightsMatrix { rows: make_zero_rows(outputs, inputs) })
    }

    /// Wraps caller-supplied rows, as from a caller's random
    /// initialization; rejects an empty table, a row of fewer than two
    /// columns, and rows of unequal lengths.
    pub fn from_raw(rows: Vec<Vec<u32>>) -> (r: Result<WeightsMatrix, Error>)
        ensures
            match r {
                Ok(m) => m.bits() == rows_view(rows@) && m.wf(),
                Err(e) => !rect(rows_view(rows@)) && e.annotation
                    == Annotation::MatrixConstruction,
            },
    {
        if rows.len() == 0 {
            return Err(
                Error::attempt_to_create_zero_sized_buffer().with_annotation(
                    Annotation::MatrixConstruction,
                ),
            );
        }
        let cols = rows[0].len();
        if cols < 2 {
            assert(rows_view(rows@)[0].len() < 2);
            return Err(
                Error::too_few_values_provided_for_buffer_creation(2, cols).with_annotation(
                    Annotation::MatrixConstruction,
                ),
            );
        }
        let mut i: usize = 1;
        while i < rows.len()
            invariant
                1 <= i <= rows@.len(),
                cols == rows_view(rows@)[0].len(),
                forall|k: int| 0 <= k < i ==> (#[trigger] rows_view(rows@)[k]).len() == cols,
            decreases rows@.len() - i,
        {
            if rows[i].len() != cols {
                assert(rows_view(rows@)[i as int].len() != rows_view(rows@)[0].len());
                return Err(
                    Error::unmatching_buffer_sizes(cols, rows[i].len()).with_annotation(
                        Annotation::MatrixConstruction,
                    ),
                );
            }
            i = i + 1;
        }
        Ok(WeightsMatrix { rows })
    }

    /// The number of output neurons.
    pub fn n_outputs(&self) -> (r: usize)
        ensures
            r == self.outputs(),
    {
        self.rows.len()
    }

    /// The number of columns, the bias column included.
    pub fn n_cols(&self) -> (r: usize)
        requires
            self.wf(),
        ensures
            r == self.cols(),
    {
        self.rows[0].len()
    }

    /// The weight pattern at row `i`, column `j`.
    pub fn get(&self, i: usize, j: usize) -> (r: u32)
        requires
            self.wf(),
            i < self.outputs(),
            j < self.cols(),
        ensures
            r == self.bits()[i as int][j as int],
    {
        proof {
            assert(self.bits()[i as int].len() == self.bits()[0].len());
        }
        self.rows[i][j]
    }

    /// Forward propagation: the row-wise dot product of each weight row —
    /// its bias weight included — against the biased input signal — its
    /// bias slot included.  Fails when the input's dimension does not
    /// equal the column count.
    pub fn forward(&self, input: &BiasedSignalBuffer) -> (r: Result<UnbiasedSignalBuffer, Error>)
        requires
            self.wf(),
        ensures
            match r {
                Ok(out) => {
                    &&& input.bits().len() == self.cols()
                    &&& out.bits().len() == self.outputs()
                    &&& forall|i: int|
                        0 <= i < self.outputs() ==> out.bits()[i] == dot_bits(
                            #[trigger] self.bits()[i],
                            input.bits(),
                        )
                    &&& out.wf()
                },
                Err(e) => {
                    &&& input.bits().len() != self.cols()
                    &&& e.kind == (ErrorKind::UnmatchingMatrixShapes {
                        expected: self.cols() as usize,
                        actual: input.bits().len() as usize,
                    })
                    &&& e.annotation == Annotation::Unannotated
                },
            },
    {
        if input.dim() != self.n_cols() {
            return Err(Error::unmatching_matrix_shapes(self.n_cols(), input.dim()));
        }
        let mut out: Vec<u32> = Vec::new();
        let mut i: usize = 0;
        while i < self.rows.len()
            invariant
                i <= self.outputs(),
                self.wf(),
                input.bits().len() == self.cols(),
                out@.len() == i,
                forall|k: int|
                    0 <= k < i ==> out@[k] == dot_bits(#[trigger] self.bits()[k], input.bits()),
            decreases self.outputs() - i,
        {
            proof {
                assert(self.bits()[i as int].len() == self.bits()[0].len());
            }
            let row_len = self.rows[i].len();
            let mut acc: u32 = ZERO_BITS;
            let mut j: usize = 0;
            while j < row_len
                invariant
                    self.wf(),
                    i < self.outputs(),
                    input.bits().len() == self.cols(),
                    row_len == self.bits()[i as int].len(),
                    j <= row_len,
                    dot_bits(self.bits()[i as int], input.bits()) == dot_from(
                        self.bits()[i as int],
                        input.bits(),
                        j as int,
                        acc,
                    ),
                decreases row_len - j,
            {
                acc = add_f(acc, mul_f(self.rows[i][j], input.get(j)));
                j = j + 1;
            }
            out.push(acc);
            i = i + 1;
        }
        Ok(crate::buffer::unbiased_signal_from_vec(out))
    }

    /// Backward propagation through the weights: for each non-bias column
    /// `j`, the transposed dot product of that column against the error
    /// signal.  The bias column propagates no error.  Fails when the
    /// error's dimension does not equal the number of rows.
    pub fn backward(&self, err: &UnbiasedErrorSignalBuffer) -> (r: Result<
        UnbiasedErrorSignalBuffer,
        Error,
    >)
        requires
            self.wf(),
        ensures
            match r {
                Ok(out) => {
                    &&& err.bits().len() == self.outputs()
                    &&& out.bits().len() == self.cols() - 1
                    &&& forall|j: int|
                        0 <= j < self.cols() - 1 ==> #[trigger] out.bits()[j] == tdot_bits(
                            self.bits(),
                            err.bits(),
                            j,
                        )
                    &&& out.wf()
                },
                Err(e) => {
                    &&& err.bits().len() != self.outputs()
                    &&& e.kind == (ErrorKind::UnmatchingMatrixShapes {
                        expected: self.outputs() as usize,
                        actual: err.bits().len() as usize,
                    })
                    &&& e.annotation == Annotation::Unannotated
                },
            },
    {
        if err.dim() != self.rows.len() {
            return Err(Error::unmatching_matrix_shapes(self.rows.len(), err.dim()));
        }
        let cols = self.n_cols();
        let mut out: Vec<u32> = Vec::new();
        let mut j: usize = 0;
        while j < cols - 1
            invariant
                self.wf(),
                err.bits().len() == self.outputs(),
                cols == self.cols(),
                j <= cols - 1,
                out@.len() == j,
                forall|k: int|
                    0 <= k < j ==> #[trigger] out@[k] == tdot_bits(self.bits(), err.bits(), k),
            decreases cols - 1 - j,
        {
            let mut acc: u32 = ZERO_BITS;
            let mut i: usize = 0;
            while i < self.rows.len()
                invariant
                    self.wf(),
                    err.bits().len() == self.outputs(),
                    cols == self.cols(),
                    j < cols - 1,
                    i <= self.outputs(),
                    tdot_bits(self.bits(), err.bits(), j as int) == tdot_from(
                        self.bits(),
                        err.bits(),
                        j as int,
                        i as int,
                        acc,
                    ),
                decreases self.outputs() - i,
            {
                proof {
                    assert(self.bits()[i as int].len() == self.bits()[0].len());
                }
                acc = add_f(acc, mul_f(self.rows[i][j], err.get(i)));
                i = i + 1;
            }
            out.push(acc);
            j = j + 1;
        }
        Ok(crate::buffer::unbiased_error_signal_from_vec(out))
    }

    /// Applies accumulated deltas under the given learning rate and
    /// momentum: each weight becomes
    /// `w + (lr * delta + momentum * previous_delta)`.  Fails when either
    /// table's shape differs from the weights' shape, mutating nothing.
    pub fn apply_deltas(
        &mut self,
        deltas: &DeltaWeightsMatrix,
        prev_deltas: &DeltaWeightsMatrix,
        lr: u32,
        momentum: u32,
    ) -> (r: Result<(), Error>)
        requires
            old(self).wf(),
        ensures
            match r {
                Ok(()) => {
                    &&& same_shape(old(self).bits(), deltas.bits())
                    &&& same_shape(old(self).bits(), prev_deltas.bits())
                    &&& final(self).wf()
                    &&& final(self).bits().len() == old(self).bits().len()
                    &&& forall|i: int|
                        0 <= i < old(self).bits().len() ==> (#[trigger] final(self).bits()[i]).len()
                            == old(self).bits()[i].len()
                    &&& forall|i: int, j: int|
                        0 <= i < old(self).bits().len() && 0 <= j < old(self).bits()[i].len()
                            ==> #[trigger] final(self).bits()[i][j] == add_bits(
                            old(self).bits()[i][j],
                            add_bits(
                                mul_bits(lr, deltas.bits()[i][j]),
                                mul_bits(momentum, prev_deltas.bits()[i][j]),
                            ),
                        )
                },
                Err(e) => {
                    &&& !(same_shape(old(self).bits(), deltas.bits()) && same_shape(
                        old(self).bits(),
                        prev_deltas.bits(),
                    ))
                    &&& final(self).bits() == old(self).bits()
                    &&& e.kind matches ErrorKind::UnmatchingMatrixShapes { .. }
                },
            },
    {
        if self.rows.len() != deltas.rows.len() {
            return Err(Error::unmatching_matrix_shapes(self.rows.len(), deltas.rows.len()));
        }
        if self.rows.len() != prev_deltas.rows.len() {
            return Err(Error::unmatching_matrix_shapes(self.rows.len(), prev_deltas.rows.len()));
        }
        let mut c: usize = 0;
        while c < self.rows.len()
            invariant
                old(self).wf(),
                self == old(self),
                deltas.bits().len() == old(self).bits().len(),
                prev_deltas.bits().len() == old(self).bits().len(),
                c <= old(self).bits().len(),
                forall|k: int|
                    0 <= k < c ==> (#[trigger] deltas.bits()[k]).len() == old(self).bits()[k].len(),
                forall|k: int|
                    0 <= k < c ==> (#[trigger] prev_deltas.bits()[k]).len() == old(
                        self,
                    ).bits()[k].len(),
            decreases old(self).bits().len() - c,
        {
            if self.rows[c].len() != deltas.rows[c].len() {
                assert(deltas.bits()[c as int].len() != old(self).bits()[c as int].len());
                return Err(
                    Error::unmatching_matrix_shapes(self.rows[c].len(), deltas.rows[c].len()),
                );
            }
            if self.rows[c].len() != prev_deltas.rows[c].len() {
                assert(prev_deltas.bits()[c as int].len() != old(self).bits()[c as int].len());
                return Err(
                    Error::unmatching_matrix_shapes(self.rows[c].len(), prev_deltas.rows[c].len()),
                );
            }
            c = c + 1;
        }
        let mut i: usize = 0;
        while i < self.rows.len()
            invariant
                old(self).wf(),
                same_shape(old(self).bits(), deltas.bits()),
                same_shape(old(self).bits(), prev_deltas.bits()),
                self.bits().len() == old(self).bits().len(),
                i <= old(self).bits().len(),
                forall|k: int|
                    i <= k < old(self).bits().len() ==> #[trigger] self.bits()[k] == old(
                        self,
                    ).bits()[k],
                forall|k: int|
                    0 <= k < i ==> (#[trigger] self.bits()[k]).len() == old(self).bits()[k].len(),
                forall|k: int, j: int|
                    0 <= k < i && 0 <= j < old(self).bits()[k].len() ==> #[trigger] self.bits()[k][j]
                        == add_bits(
                        old(self).bits()[k][j],
                        add_bits(
                            mul_bits(lr, deltas.bits()[k][j]),
                            mul_bits(momentum, prev_deltas.bits()[k][j]),
                        ),
                    ),
            decreases old(self).bits().len() - i,
        {
            let ghost pre = self.bits();
            proof {
                assert(pre[i as int] == old(self).bits()[i as int]);
                assert(old(self).bits()[i as int].len() == old(self).bits()[0].len());
            }
            let cols_i = self.rows[i].len();
            let mut j: usize = 0;
            while j < cols_i
                invariant
                    old(self).wf(),
                    same_shape(old(self).bits(), deltas.bits()),
                    same_shape(old(self).bits(), prev_deltas.bits()),
                    i < old(self).bits().len(),
                    cols_i == old(self).bits()[i as int].len(),
                    pre[i as int] == old(self).bits()[i as int],
                    pre.len() == old(self).bits().len(),
                    j <= cols_i,
                    self.bits().len() == pre.len(),
                    forall|k: int|
                        0 <= k < pre.len() && k != i ==> #[trigger] self.bits()[k] == pre[k],
                    self.bits()[i as int].len() == cols_i,
                    forall|q: int|
                        j <= q < cols_i ==> #[trigger] self.bits()[i as int][q] == pre[i as int][q],
                    forall|q: int|
                        0 <= q < j ==> #[trigger] self.bits()[i as int][q] == add_bits(
                            pre[i as int][q],
                            add_bits(
                                mul_bits(lr, deltas.bits()[i as int][q]),
                                mul_bits(momentum, prev_deltas.bits()[i as int][q]),
                            ),
                        ),
                decreases cols_i - j,
            {
                proof {
                    assert(deltas.bits()[i as int].len() == old(self).bits()[i as int].len());
                    assert(prev_deltas.bits()[i as int].len() == old(self).bits()[i as int].len());
                }
                let w = self.rows[i][j];
                let step = add_f(
                    mul_f(lr, deltas.rows[i][j]),
                    mul_f(momentum, prev_deltas.rows[i][j]),
                );
                let ghost before = self.bits();
                self.rows[i][j] = add_f(w, step);
                proof {
                    assert(self.rows@[i as int]@ =~= before[i as int].update(
                        j as int,
                        add_bits(w, step),
                    ));
                    assert(forall|k: int|
                        0 <= k < pre.len() && k != i ==> #[trigger] self.bits()[k] == before[k]);
                }
                j = j + 1;
            }
            i = i + 1;
        }
        Ok(())
    }
}

impl DeltaWeightsMatrix {
    /// The accumulated delta patterns, row by row.
    pub closed spec fn bits(&self) -> Seq<Seq<u32>> {
        rows_view(self.rows@)
    }

    /// The number of output neurons: the number of rows.
    pub open spec fn outputs(&self) -> int {
        self.bits().len() as int
    }

    /// The number of columns: the layer's inputs plus the bias column.
    pub open spec fn cols(&self) -> int {
        self.bits()[0].len() as int
    }

    /// The table is well formed: rectangular with at least one row and
    /// at least two columns.
    pub open spec fn wf(&self) -> bool {
        rect(self.bits())
    }

    /// A zero-initialized accumulator of shape `(outputs, inputs + 1)`;
    /// rejects a zero dimension.
    pub fn zeros(outputs: usize, inputs: usize) -> (r: Result<DeltaWeightsMatrix, Error>)
        requires
            inputs < usize::MAX,
        ensures
            match r {
                Ok(m) => {
                    &&& outputs >= 1
                    &&& inputs >= 1
                    &&& m.outputs() == outputs
                    &&& m.cols() == inputs + 1
                    &&& all_zero_rows(m.bits())
                    &&& m.wf()
                },
                Err(e) => (outputs == 0 || inputs == 0) && e.kind == ErrorKind::ZeroSizedBuffer
                    && e.annotation == Annotation::MatrixConstruction,
            },
    {
        if outputs == 0 || inputs == 0 {
            return Err(
                Error::attempt_to_create_zero_sized_buffer().with_annotation(
                    Annotation::MatrixConstruction,
                ),
            );
        }
        Ok(DeltaWeightsMatrix { rows: make_zero_rows(outputs, inputs) })
    }

    /// The number of output neurons.
    pub fn n_outputs(&self) -> (r: usize)
        ensures
            r == self.outputs(),
    {
        self.rows.len()
    }

    /// The number of columns, the bias column included.
    pub fn n_cols(&self) -> (r: usize)
        requires
            self.wf(),
        ensures
            r == self.cols(),
    {
        self.rows[0].len()
    }

    /// The delta pattern at row `i`, column `j`.
    pub fn get(&self, i: usize, j: usize) -> (r: u32)
        requires
            self.wf(),
            i < self.outputs(),
            j < self.cols(),
        ensures
            r == self.bits()[i as int][j as int],
    {
        proof {
            assert(self.bits()[i as int].len() == self.bits()[0].len());
        }
        self.rows[i][j]
    }

    /// Accumulates the outer product of an error signal and a biased
    /// input signal: each cell becomes `d + err[i] * input[j]`.  The
    /// weights themselves are not touched; the deltas are applied later
    /// under the mentor's schedule.  Fails when the error's dimension is
    /// not the number of rows or the input's dimension is not the number
    /// of columns, mutating nothing.
    pub fn accumulate(&mut self, err: &UnbiasedErrorSignalBuffer, input: &BiasedSignalBuffer) -> (r:
        Result<(), Error>)
        requires
            old(self).wf(),
        ensures
            match r {
                Ok(()) => {
                    &&& err.bits().len() == old(self).outputs()
                    &&& input.bits().len() == old(self).cols()
                    &&& final(self).wf()
                    &&& final(self).bits().len() == old(self).bits().len()
                    &&& forall|i: int|
                        0 <= i < old(self).bits().len() ==> (#[trigger] final(self).bits()[i]).len()
                            == old(self).bits()[i].len()
                    &&& forall|i: int, j: int|
                        0 <= i < old(self).bits().len() && 0 <= j < old(self).bits()[i].len()
                            ==> #[trigger] final(self).bits()[i][j] == add_bits(
                            old(self).bits()[i][j],
                            mul_bits(err.bits()[i], input.bits()[j]),
                        )
                },
                Err(e) => {
                    &&& !(err.bits().len() == old(self).outputs() && input.bits().len() == old(
                        self,
                    ).cols())
                    &&& final(self).bits() == old(self).bits()
                    &&& e.kind matches ErrorKind::UnmatchingMatrixShapes { .. }
                },
            },
    {
        if err.dim() != self.rows.len() {
            return Err(Error::unmatching_matrix_shapes(self.rows.len(), err.dim()));
        }
        if input.dim() != self.n_cols() {
            return Err(Error::unmatching_matrix_shapes(self.n_cols(), input.dim()));
        }
        let mut i: usize = 0;
        while i < self.rows.len()
            invariant
                old(self).wf(),
                err.bits().len() == old(self).outputs(),
                input.bits().len() == old(self).cols(),
                self.bits().len() == old(self).bits().len(),
                i <= old(self).bits().len(),
                forall|k: int|
                    i <= k < old(self).bits().len() ==> #[trigger] self.bits()[k] == old(
                        self,
                    ).bits()[k],
                forall|k: int|
                    0 <= k < i ==> (#[trigger] self.bits()[k]).len() == old(self).bits()[k].len(),
                forall|k: int, j: int|
                    0 <= k < i && 0 <= j < old(self).bits()[k].len() ==> #[trigger] self.bits()[k][j]
                        == add_bits(
                        old(self).bits()[k][j],
                        mul_bits(err.bits()[k], input.bits()[j]),
                    ),
            decreases old(self).bits().len() - i,
        {
            let ghost pre = self.bits();
            proof {
                assert(pre[i as int] == old(self).bits()[i as int]);
                assert(old(self).bits()[i as int].len() == old(self).bits()[0].len());
            }
            let e_i = err.get(i);
            let cols_i = self.rows[i].len();
            let mut j: usize = 0;
            while j < cols_i
                invariant
                    old(self).wf(),
                    err.bits().len() == old(self).outputs(),
                    input.bits().len() == old(self).cols(),
                    i < old(self).bits().len(),
                    e_i == err.bits()[i as int],
                    cols_i == old(self).bits()[i as int].len(),
                    pre[i as int] == old(self).bits()[i as int],
                    pre.len() == old(self).bits().len(),
                    j <= cols_i,
                    self.bits().len() == pre.len(),
                    forall|k: int|
                        0 <= k < pre.len() && k != i ==> #[trigger] self.bits()[k] == pre[k],
                    self.bits()[i as int].len() == cols_i,
                    forall|q: int|
                        j <= q < cols_i ==> #[trigger] self.bits()[i as int][q] == pre[i as int][q],
                    forall|q: int|
                        0 <= q < j ==> #[trigger] self.bits()[i as int][q] == add_bits(
                            pre[i as int][q],
                            mul_bits(e_i, input.bits()[q]),
                        ),
                decreases cols_i - j,
            {
                let d = self.rows[i][j];
                let ghost before = self.bits();
                self.rows[i][j] = add_f(d, mul_f(e_i, input.get(j)));
                proof {
                    assert(self.rows@[i as int]@ =~= before[i as int].update(
                        j as int,
                        add_bits(d, mul_bits(e_i, input.bits()[j as int])),
                    ));
                    assert(forall|k: int|
                        0 <= k < pre.len() && k != i ==> #[trigger] self.bits()[k] == before[k]);
                }
                j = j + 1;
            }
            i = i + 1;
        }
        Ok(())
    }

    /// Resets every accumulated delta to zero, keeping the shape.
    pub fn reset_to_zeros(&mut self)
        requires
            old(self).wf(),
        ensures
            final(self).wf(),
            final(self).bits().len() == old(self).bits().len(),
            forall|i: int|
                0 <= i < old(self).bits().len() ==> (#[trigger] final(self).bits()[i]).len() == old(
                    self,
                ).bits()[i].len(),
            all_zero_rows(final(self).bits()),
    {
        let outputs = self.rows.len();
        let cols = self.rows[0].len();
        proof {
            assert(cols == old(self).bits()[0].len());
        }
        let mut rows: Vec<Vec<u32>> = Vec::new();
        let mut i: usize = 0;
        while i < outputs
            invariant
                old(self).wf(),
                self == old(self),
                outputs == old(self).bits().len(),
                cols == old(self).bits()[0].len(),
                i <= outputs,
                rows@.len() == i,
                forall|k: int| 0 <= k < i ==> (#[trigger] rows@[k]@).len() == cols,
                forall|k: int| 0 <= k < i ==> all_zero(#[trigger] rows@[k]@),
            decreases outputs - i,
        {
            let mut row: Vec<u32> = Vec::new();
            let mut j: usize = 0;
            while j < cols
                invariant
                    j <= cols,
                    row@.len() == j,
                    all_zero(row@),
                decreases cols - j,
            {
                row.push(ZERO_BITS);
                j = j + 1;
            }
            rows.push(row);
            i = i + 1;
        }
        self.rows = rows;
    }

    /// An owned copy with identical shape and content.
    pub fn view(&self) -> (r: DeltaWeightsMatrix)
        ensures
            r.bits() == self.bits(),
    {
        DeltaWeightsMatrix { rows: copy_rows(&self.rows) }
    }
}

} // verus!
