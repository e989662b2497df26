//! The two layer variants and the layer chain of a network.
//!
//! A fully connected layer owns a weights matrix, a delta matrix, a
//! previous-delta matrix for momentum, and a cache of its last biased
//! input; an activation-only layer owns its variant and a cache of its
//! last forward output, at which the derivative is evaluated during the
//! backward pass.  The two variants are a closed set: forward and
//! backward dispatch is a two-way branch.  A network is a fixed chain of
//! layers whose adjacent dimensions agree; it is produced once from a
//! validated topology and never restructured.

use vstd::prelude::*;
use vstd::pervasive::unreached;

use crate::arith::{mul_bits, mul_f};
use crate::activation::{Activation, act_apply, act_deriv};
use crate::buffer::{
    BiasedSignalBuffer, UnbiasedSignalBuffer, UnbiasedErrorSignalBuffer, unbiased_signal_from_vec,
    unbiased_error_signal_from_vec,
};
use crate::errors::Error;
use crate::fbits::BIAS_VALUE_SIGNAL;
use crate::matrix::{WeightsMatrix, DeltaWeightsMatrix, dot_bits, tdot_bits};
use crate::table::{same_shape, all_zero_rows, lemma_rect_same_shape};
use crate::topology::Topology;
use crate::rng::XorShift64;

verus! {

broadcast use crate::table::lemma_rows_view_len, crate::table::lemma_rows_view_index;

/// What a fully connected layer's forward pass returns: for each weight
/// row, the dot product of the row against the re-biased input.
pub open spec fn fc_forward_spec(weights: Seq<Seq<u32>>, input: Seq<u32>) -> Seq<u32> {
    Seq::new(weights.len(), |i: int| dot_bits(weights[i], input.push(BIAS_VALUE_SIGNAL)))
}

/// What an activation-only layer's forward pass returns: the variant
/// applied element-wise.
pub open spec fn act_forward_spec(a: Activation, input: Seq<u32>) -> Seq<u32> {
    input.map_values(|v: u32| act_apply(a, v))
}

/// A fully connected layer: weights, gradient accumulators, and the
/// cached biased input of the last forward pass.
#[derive(Debug)]
pub struct FullyConnectedLayer {
    weights: WeightsMatrix,
    deltas: DeltaWeightsMatrix,
    prev_deltas: DeltaWeightsMatrix,
    input_cache: BiasedSignalBuffer,
}

/// An activation-only layer: the variant and the cached output of the
/// last forward pass, at which the derivative is evaluated.
#[derive(Debug)]
pub struct ActivationLayer {
    act: Activation,
    output_cache: UnbiasedSignalBuffer,
}

impl FullyConnectedLayer {
    /// The weight patterns.
    pub closed spec fn weights_bits(&self) -> Seq<Seq<u32>> {
        self.weights.bits()
    }

    /// The accumulated delta patterns.
    pub closed spec fn deltas_bits(&self) -> Seq<Seq<u32>> {
        self.deltas.bits()
    }

    /// The previous-delta patterns retained for momentum.
    pub closed spec fn prev_deltas_bits(&self) -> Seq<Seq<u32>> {
        self.prev_deltas.bits()
    }

    /// The cached biased input of the last forward pass.
    pub closed spec fn input_cache_bits(&self) -> Seq<u32> {
        self.input_cache.bits()
    }

    /// The number of input neurons, the bias not counted.
    pub open spec fn input_dim(&self) -> int {
        self.weights_bits()[0].len() - 1
    }

    /// The number of output neurons.
    pub open spec fn output_dim(&self) -> int {
        self.weights_bits().len() as int
    }

    /// The layer is well formed: a rectangular weights matrix, both delta
    /// tables of the same shape, and an input cache matching the column
    /// count.
    pub closed spec fn wf(&self) -> bool {
        &&& self.weights.wf()
        &&& same_shape(self.weights_bits(), self.deltas_bits())
        &&& same_shape(self.weights_bits(), self.prev_deltas_bits())
        &&& self.input_cache_bits().len() == self.weights_bits()[0].len()
        &&& self.input_cache.wf()
    }

    /// Builds a layer around the given weights matrix, with zeroed delta
    /// tables and a zeroed input cache.
    pub fn new(weights: WeightsMatrix) -> (r: FullyConnectedLayer)
        requires
            weights.wf(),
        ensures
            r.weights_bits() == weights.bits(),
            all_zero_rows(r.deltas_bits()),
            all_zero_rows(r.prev_deltas_bits()),
            r.wf(),
            r.input_dim() == weights.cols() - 1,
            r.output_dim() == weights.outputs(),
    {
        let outputs = weights.n_outputs();
        let inputs = weights.n_cols() - 1;
        let deltas = match DeltaWeightsMatrix::zeros(outputs, inputs) {
            Ok(d) => d,
            Err(_) => unreached(),
        };
        let prev_deltas = match DeltaWeightsMatrix::zeros(outputs, inputs) {
            Ok(d) => d,
            Err(_) => unreached(),
        };
        let input_cache = match BiasedSignalBuffer::zeros_with_bias(inputs) {
            Ok(b) => b,
            Err(_) => unreached(),
        };
        FullyConnectedLayer { weights, deltas, prev_deltas, input_cache }
    }

    /// Forward propagation: re-biases the input, caches it, and returns
    /// the matrix-vector product of the weights against it.
    pub fn forward(&mut self, input: &UnbiasedSignalBuffer) -> (r: UnbiasedSignalBuffer)
        requires
            old(self).wf(),
            input.bits().len() == old(self).input_dim(),
        ensures
            final(self).wf(),
            final(self).weights_bits() == old(self).weights_bits(),
            final(self).deltas_bits() == old(self).deltas_bits(),
            final(self).prev_deltas_bits() == old(self).prev_deltas_bits(),
            final(self).input_cache_bits() == input.bits().push(BIAS_VALUE_SIGNAL),
            r.bits() == fc_forward_spec(old(self).weights_bits(), input.bits()),
            r.wf(),
    {
        let biased = input.rebias();
        let out = match self.weights.forward(&biased) {
            Ok(o) => o,
            Err(_) => unreached(),
        };
        self.input_cache = biased;
        proof {
            assert(out.bits() =~= fc_forward_spec(old(self).weights_bits(), input.bits()));
        }
        out
    }

    /// Backward propagation: accumulates the outer product of the error
    /// signal and the cached biased input into the delta table, and
    /// returns the error signal for the preceding layer — the transposed
    /// product of the weights against the error, restricted to the
    /// non-bias columns.  The weights themselves are not mutated.
    pub fn backward(&mut self, err: &UnbiasedErrorSignalBuffer) -> (r: UnbiasedErrorSignalBuffer)
        requires
            old(self).wf(),
            err.bits().len() == old(self).output_dim(),
        ensures
            final(self).wf(),
            final(self).weights_bits() == old(self).weights_bits(),
            final(self).prev_deltas_bits() == old(self).prev_deltas_bits(),
            final(self).input_cache_bits() == old(self).input_cache_bits(),
            final(self).deltas_bits().len() == old(self).deltas_bits().len(),
            forall|i: int|
                0 <= i < old(self).deltas_bits().len() ==> (#[trigger] final(self).deltas_bits()[i]).len() == old(self).deltas_bits()[i].len(),
            forall|i: int, j: int|
                0 <= i < old(self).deltas_bits().len() && 0 <= j < old(self).deltas_bits()[i].len()
                    ==> #[trigger] final(self).deltas_bits()[i][j] == crate::arith::add_bits(
                    old(self).deltas_bits()[i][j],
                    mul_bits(err.bits()[i], old(self).input_cache_bits()[j]),
                ),
            r.bits().len() == old(self).input_dim(),
            forall|j: int|
                0 <= j < old(self).input_dim() ==> #[trigger] r.bits()[j] == tdot_bits(
                    old(self).weights_bits(),
                    err.bits(),
                    j,
                ),
            r.wf(),
    {
        proof {
            lemma_rect_same_shape(self.weights.bits(), self.deltas.bits());
        }
        match self.deltas.accumulate(err, &self.input_cache) {
            Ok(()) => (),
            Err(_) => unreached(),
        }
        match self.weights.backward(err) {
            Ok(out) => out,
            Err(_) => unreached(),
        }
    }

    /// Applies the accumulated deltas to the weights under the given
    /// learning rate and momentum, retains them as the previous deltas,
    /// and resets the accumulator to zero.
    pub fn apply_deltas(&mut self, lr: u32, momentum: u32)
        requires
            old(self).wf(),
        ensures
            final(self).wf(),
            final(self).input_cache_bits() == old(self).input_cache_bits(),
            final(self).weights_bits().len() == old(self).weights_bits().len(),
            forall|i: int|
                0 <= i < old(self).weights_bits().len() ==> (#[trigger] final(self).weights_bits()[i]).len() == old(self).weights_bits()[i].len(),
            forall|i: int, j: int|
                0 <= i < old(self).weights_bits().len() && 0 <= j < old(self).weights_bits()[i].len() ==> #[trigger] final(self).weights_bits()[i][j]
                    == crate::arith::add_bits(
                    old(self).weights_bits()[i][j],
                    crate::arith::add_bits(
                        mul_bits(lr, old(self).deltas_bits()[i][j]),
                        mul_bits(momentum, old(self).prev_deltas_bits()[i][j]),
                    ),
                ),
            final(self).prev_deltas_bits() == old(self).deltas_bits(),
            all_zero_rows(final(self).deltas_bits()),
    {
        match self.weights.apply_deltas(&self.deltas, &self.prev_deltas, lr, momentum) {
            Ok(()) => (),
            Err(_) => unreached(),
        }
        self.prev_deltas = self.deltas.view();
        proof {
            lemma_rect_same_shape(old(self).weights_bits(), old(self).deltas_bits());
        }
        self.deltas.reset_to_zeros();
    }
}

impl ActivationLayer {
    /// The variant applied by this layer.
    pub closed spec fn activation(&self) -> Activation {
        self.act
    }

    /// The cached output of the last forward pass.
    pub closed spec fn output_cache_bits(&self) -> Seq<u32> {
        self.output_cache.bits()
    }

    /// The layer's dimension: inputs and outputs are equal.
    pub open spec fn dim(&self) -> int {
        self.output_cache_bits().len() as int
    }

    /// The layer is well formed: a non-empty output cache.
    pub closed spec fn wf(&self) -> bool {
        self.output_cache.wf()
    }

    /// Builds an activation-only layer of the given dimension with a
    /// zeroed output cache.
    pub fn new(act: Activation, dim: usize) -> (r: ActivationLayer)
        requires
            dim >= 1,
        ensures
            r.activation() == act,
            r.dim() == dim,
            r.wf(),
    {
        let output_cache = match UnbiasedSignalBuffer::zeros(dim) {
            Ok(b) => b,
            Err(_) => unreached(),
        };
        ActivationLayer { act, output_cache }
    }

    /// Forward propagation: applies the variant element-wise and caches
    /// the output for the backward pass.
    pub fn forward(&mut self, input: &UnbiasedSignalBuffer) -> (r: UnbiasedSignalBuffer)
        requires
            old(self).wf(),
            input.bits().len() == old(self).dim(),
        ensures
            final(self).wf(),
            final(self).activation() == old(self).activation(),
            final(self).dim() == old(self).dim(),
            r.bits() == act_forward_spec(old(self).activation(), input.bits()),
            final(self).output_cache_bits() == r.bits(),
            r.wf(),
    {
        let n = input.dim();
        let mut out: Vec<u32> = Vec::new();
        let mut i: usize = 0;
        while i < n
            invariant
                n == input.bits().len(),
                i <= n,
                out@.len() == i,
                forall|k: int|
                    0 <= k < i ==> #[trigger] out@[k] == act_apply(self.act, input.bits()[k]),
                self == old(self),
            decreases n - i,
        {
            out.push(self.act.apply(input.get(i)));
            i = i + 1;
        }
        let result = unbiased_signal_from_vec(out);
        self.output_cache = result.view();
        proof {
            assert(result.bits() =~= act_forward_spec(old(self).activation(), input.bits()));
        }
        result
    }

    /// Backward propagation: scales each error term by the derivative of
    /// the variant, evaluated at the cached forward output.
    pub fn backward(&self, err: &UnbiasedErrorSignalBuffer) -> (r: UnbiasedErrorSignalBuffer)
        requires
            self.wf(),
            err.bits().len() == self.dim(),
        ensures
            r.bits().len() == self.dim(),
            forall|i: int|
                0 <= i < self.dim() ==> #[trigger] r.bits()[i] == mul_bits(
                    err.bits()[i],
                    act_deriv(self.activation(), self.output_cache_bits()[i]),
                ),
            r.wf(),
    {
        let n = self.output_cache.dim();
        let mut out: Vec<u32> = Vec::new();
        let mut i: usize = 0;
        while i < n
            invariant
                self.wf(),
                n == self.dim(),
                err.bits().len() == self.dim(),
                i <= n,
                out@.len() == i,
                forall|k: int|
                    0 <= k < i ==> #[trigger] out@[k] == mul_bits(
                        err.bits()[k],
                        act_deriv(self.activation(), self.output_cache_bits()[k]),
                    ),
            decreases n - i,
        {
            out.push(mul_f(err.get(i), self.act.deriv(self.output_cache.get(i))));
            i = i + 1;
        }
        unbiased_error_signal_from_vec(out)
    }
}

/// One unit of the layer chain: the closed two-variant set.
#[derive(Debug)]
pub enum NetworkLayer {
    /// A fully connected layer.
    FullyConnected(FullyConnectedLayer),
    /// An activation-only layer.
    ActivationOnly(ActivationLayer),
}

impl NetworkLayer {
    /// The unit's input dimension.
    pub open spec fn input_dim(&self) -> int {
        match self {
            NetworkLayer::FullyConnected(l) => l.input_dim(),
            NetworkLayer::ActivationOnly(l) => l.dim(),
        }
    }

    /// The unit's output dimension.
    pub open spec fn output_dim(&self) -> int {
        match self {
            NetworkLayer::FullyConnected(l) => l.output_dim(),
            NetworkLayer::ActivationOnly(l) => l.dim(),
        }
    }

    /// The unit is well formed.
    pub open spec fn wf(&self) -> bool {
        match self {
            NetworkLayer::FullyConnected(l) => l.wf(),
            NetworkLayer::ActivationOnly(l) => l.wf(),
        }
    }

    /// What the unit's forward pass returns for an input of matching
    /// dimension.
    pub open spec fn forward_spec(&self, input: Seq<u32>) -> Seq<u32> {
        match self {
            NetworkLayer::FullyConnected(l) => fc_forward_spec(l.weights_bits(), input),
            NetworkLayer::ActivationOnly(l) => act_forward_spec(l.activation(), input),
        }
    }

    /// Two units apply the same transfer function: equal weights for
    /// fully connected units, equal variant and dimension for
    /// activation-only units.
    pub open spec fn same_transfer(&self, other: &NetworkLayer) -> bool {
        match (self, other) {
            (NetworkLayer::FullyConnected(a), NetworkLayer::FullyConnected(b)) => a.weights_bits()
                == b.weights_bits(),
            (NetworkLayer::ActivationOnly(a), NetworkLayer::ActivationOnly(b)) => a.activation()
                == b.activation() && a.dim() == b.dim(),
            _ => false,
        }
    }

    /// Forward propagation through this unit, caching what the backward
    /// pass needs.
    pub fn forward(&mut self, input: &UnbiasedSignalBuffer) -> (r: UnbiasedSignalBuffer)
        requires
            old(self).wf(),
            input.bits().len() == old(self).input_dim(),
        ensures
            final(self).wf(),
            final(self).same_transfer(old(self)),
            final(self).input_dim() == old(self).input_dim(),
            final(self).output_dim() == old(self).output_dim(),
            forwarded_unit(*old(self), *final(self), input.bits()),
            r.bits() == old(self).forward_spec(input.bits()),
            r.bits().len() == old(self).output_dim(),
            r.wf(),
    {
        match self {
            NetworkLayer::FullyConnected(l) => l.forward(input),
            NetworkLayer::ActivationOnly(l) => l.forward(input),
        }
    }

    /// Backward propagation through this unit: returns the error signal
    /// for the preceding unit and, for fully connected units, accumulates
    /// gradient deltas.  The transfer function is unchanged.
    pub fn backward(&mut self, err: &UnbiasedErrorSignalBuffer) -> (r: UnbiasedErrorSignalBuffer)
        requires
            old(self).wf(),
            err.bits().len() == old(self).output_dim(),
        ensures
            final(self).wf(),
            final(self).same_transfer(old(self)),
            final(self).input_dim() == old(self).input_dim(),
            final(self).output_dim() == old(self).output_dim(),
            backward_unit(*old(self), *final(self), err.bits()),
            r.bits() == unit_back_spec(*old(self), err.bits()),
            r.bits().len() == old(self).input_dim(),
            r.wf(),
    {
        let r = match self {
            NetworkLayer::FullyConnected(l) => l.backward(err),
            NetworkLayer::ActivationOnly(l) => l.backward(err),
        };
        proof {
            assert(r.bits() =~= unit_back_spec(*old(self), err.bits()));
        }
        r
    }

    /// Applies accumulated deltas (fully connected units only) under the
    /// given learning rate and momentum; activation-only units are
    /// unchanged.
    pub fn apply_deltas(&mut self, lr: u32, momentum: u32)
        requires
            old(self).wf(),
        ensures
            final(self).wf(),
            final(self).input_dim() == old(self).input_dim(),
            final(self).output_dim() == old(self).output_dim(),
            applied_unit(*old(self), *final(self), lr, momentum),
    {
        match self {
            NetworkLayer::FullyConnected(l) => l.apply_deltas(lr, momentum),
            NetworkLayer::ActivationOnly(_) => (),
        }
    }
}

/// What a chain of units returns for an input: the composition of the
/// units' forward passes, folded from the back.
pub open spec fn chain_forward_spec(layers: Seq<NetworkLayer>, input: Seq<u32>) -> Seq<u32>
    decreases layers.len(),
{
    if layers.len() == 0 {
        input
    } else {
        layers.last().forward_spec(chain_forward_spec(layers.drop_last(), input))
    }
}

/// The signal entering unit `k` of a forward pass that feeds `input`
/// into the chain: the composition of the first `k` units.
pub open spec fn signal_at(layers: Seq<NetworkLayer>, input: Seq<u32>, k: int) -> Seq<u32> {
    chain_forward_spec(layers.take(k), input)
}

/// One unit's forward effect: `b` is `a` after a forward pass on `x`.
/// A fully connected unit keeps its weights and both delta tables and
/// caches the re-biased input; an activation-only unit keeps its variant
/// and caches its output.
pub open spec fn forwarded_unit(a: NetworkLayer, b: NetworkLayer, x: Seq<u32>) -> bool {
    match (a, b) {
        (NetworkLayer::FullyConnected(p), NetworkLayer::FullyConnected(q)) => {
            &&& q.weights_bits() == p.weights_bits()
            &&& q.deltas_bits() == p.deltas_bits()
            &&& q.prev_deltas_bits() == p.prev_deltas_bits()
            &&& q.input_cache_bits() == x.push(BIAS_VALUE_SIGNAL)
        },
        (NetworkLayer::ActivationOnly(p), NetworkLayer::ActivationOnly(q)) => {
            &&& q.activation() == p.activation()
            &&& q.output_cache_bits() == act_forward_spec(p.activation(), x)
        },
        _ => false,
    }
}

/// The error signal a unit hands backward when it receives `err`: the
/// transposed weight product over the non-bias columns for a fully
/// connected unit, the derivative scaling at the cached output for an
/// activation-only unit.
pub open spec fn unit_back_spec(unit: NetworkLayer, err: Seq<u32>) -> Seq<u32> {
    match unit {
        NetworkLayer::FullyConnected(l) => Seq::new(
            (l.weights_bits()[0].len() - 1) as nat,
            |j: int| tdot_bits(l.weights_bits(), err, j),
        ),
        NetworkLayer::ActivationOnly(l) => Seq::new(
            err.len(),
            |i: int| mul_bits(err[i], act_deriv(l.activation(), l.output_cache_bits()[i])),
        ),
    }
}

/// One unit's backward effect when it receives `err`: a fully connected
/// unit keeps its weights, previous deltas and cache and accumulates the
/// outer product of the error and its cached biased input into its
/// deltas; an activation-only unit is unchanged.
pub open spec fn backward_unit(a: NetworkLayer, b: NetworkLayer, err: Seq<u32>) -> bool {
    match (a, b) {
        (NetworkLayer::FullyConnected(p), NetworkLayer::FullyConnected(q)) => {
            &&& q.weights_bits() == p.weights_bits()
            &&& q.prev_deltas_bits() == p.prev_deltas_bits()
            &&& q.input_cache_bits() == p.input_cache_bits()
            &&& q.deltas_bits().len() == p.deltas_bits().len()
            &&& forall|i: int|
                0 <= i < p.deltas_bits().len() ==> (#[trigger] q.deltas_bits()[i]).len()
                    == p.deltas_bits()[i].len()
            &&& forall|i: int, j: int|
                0 <= i < p.deltas_bits().len() && 0 <= j < p.deltas_bits()[i].len()
                    ==> #[trigger] q.deltas_bits()[i][j] == crate::arith::add_bits(
                    p.deltas_bits()[i][j],
                    mul_bits(err[i], p.input_cache_bits()[j]),
                )
        },
        (NetworkLayer::ActivationOnly(p), NetworkLayer::ActivationOnly(q)) => q == p,
        _ => false,
    }
}

/// The error signal entering unit `k` of a backward pass that feeds
/// `err` in at the top: unit `len - 1` receives `err`, every other unit
/// receives what the unit above it hands backward.
pub open spec fn backward_error_at(layers: Seq<NetworkLayer>, err: Seq<u32>, k: int) -> Seq<u32>
    decreases layers.len() - k,
{
    if k + 1 >= layers.len() {
        err
    } else {
        unit_back_spec(layers[k + 1], backward_error_at(layers, err, k + 1))
    }
}

/// One unit's delta-application effect: a fully connected unit's weights
/// each gain `lr * delta + momentum * previous_delta`, its previous
/// deltas become its deltas and its deltas reset to zero; an
/// activation-only unit is unchanged.
pub open spec fn applied_unit(a: NetworkLayer, b: NetworkLayer, lr: u32, momentum: u32) -> bool {
    match (a, b) {
        (NetworkLayer::FullyConnected(p), NetworkLayer::FullyConnected(q)) => {
            &&& q.input_cache_bits() == p.input_cache_bits()
            &&& q.weights_bits().len() == p.weights_bits().len()
            &&& forall|i: int|
                0 <= i < p.weights_bits().len() ==> (#[trigger] q.weights_bits()[i]).len()
                    == p.weights_bits()[i].len()
            &&& forall|i: int, j: int|
                0 <= i < p.weights_bits().len() && 0 <= j < p.weights_bits()[i].len()
                    ==> #[trigger] q.weights_bits()[i][j] == crate::arith::add_bits(
                    p.weights_bits()[i][j],
                    crate::arith::add_bits(
                        mul_bits(lr, p.deltas_bits()[i][j]),
                        mul_bits(momentum, p.prev_deltas_bits()[i][j]),
                    ),
                )
            &&& q.prev_deltas_bits() == p.deltas_bits()
            &&& all_zero_rows(q.deltas_bits())
        },
        (NetworkLayer::ActivationOnly(p), NetworkLayer::ActivationOnly(q)) => q == p,
        _ => false,
    }
}

/// A chain of units is valid: every unit well formed, adjacent
/// dimensions equal.
pub open spec fn valid_layer_chain(layers: Seq<NetworkLayer>) -> bool {
    &&& layers.len() >= 1
    &&& forall|i: int| 0 <= i < layers.len() ==> (#[trigger] layers[i]).wf()
    &&& forall|i: int|
        0 <= i && i + 1 < layers.len() ==> (#[trigger] layers[i + 1]).input_dim() == (
        #[trigger] layers[i]).output_dim()
}

/// Replacement weights fit a chain unit: the unit is fully connected and
/// the supplied rows form a rectangular table of the same shape as its
/// weights.
pub open spec fn set_weights_fits(unit: NetworkLayer, rows: Seq<Vec<u32>>) -> bool {
    &&& unit matches NetworkLayer::FullyConnected(l)
    &&& crate::table::rect(crate::table::rows_view(rows))
    &&& crate::table::rows_view(rows).len() == l.weights_bits().len()
    &&& crate::table::rows_view(rows)[0].len() == l.weights_bits()[0].len()
}

/// Positions `2k` and `2k + 1` of a freshly grown chain realize the
/// topology descriptor `d`: a fully connected unit with all-zero weights
/// of shape `(outputs, inputs + 1)` and zeroed delta tables, followed by
/// an activation-only unit of the descriptor's variant and output size.
pub open spec fn zeroed_pair(units: Seq<NetworkLayer>, d: crate::topology::Layer, k: int) -> bool {
    &&& units[2 * k] matches NetworkLayer::FullyConnected(l) && l.weights_bits().len()
        == d.outputs && l.weights_bits()[0].len() == d.inputs + 1 && all_zero_rows(
        l.weights_bits(),
    ) && all_zero_rows(l.deltas_bits()) && all_zero_rows(l.prev_deltas_bits())
    &&& units[2 * k + 1] matches NetworkLayer::ActivationOnly(a) && a.activation() == d.activation
        && a.dim() == d.outputs
}

/// The number of generator draws a unit consumes when its weights are
/// seeded: one per weight cell of a fully connected unit, none for an
/// activation-only unit.
pub open spec fn draws_of(unit: NetworkLayer) -> int {
    match unit {
        NetworkLayer::FullyConnected(l) => (l.weights_bits().len() * l.weights_bits()[0].len()) as int,
        NetworkLayer::ActivationOnly(_) => 0,
    }
}

/// The number of generator draws consumed by the units before position
/// `k` during seeding.
pub open spec fn draws_before(layers: Seq<NetworkLayer>, k: int) -> int
    decreases k,
{
    if k <= 0 {
        0
    } else {
        draws_before(layers, k - 1) + draws_of(layers[k - 1])
    }
}

/// A draw count is never negative.
pub proof fn lemma_draws_before_nonneg(layers: Seq<NetworkLayer>, k: int)
    ensures
        draws_before(layers, k) >= 0,
    decreases k,
{
    if k > 0 {
        lemma_draws_before_nonneg(layers, k - 1);
    }
}

/// One unit's seeding effect from generator seed state `s0` after `base`
/// prior draws: a fully connected unit's weights are replaced row by row
/// with successive generator draws and its delta tables are zeroed; an
/// activation-only unit is unchanged.
pub open spec fn seeded_unit(a: NetworkLayer, b: NetworkLayer, s0: u64, base: int) -> bool {
    match (a, b) {
        (NetworkLayer::FullyConnected(p), NetworkLayer::FullyConnected(q)) => {
            let c = p.weights_bits()[0].len() as int;
            &&& q.weights_bits().len() == p.weights_bits().len()
            &&& forall|i: int|
                0 <= i < p.weights_bits().len() ==> (#[trigger] q.weights_bits()[i]).len() == c
            &&& forall|i: int, j: int|
                0 <= i < p.weights_bits().len() && 0 <= j < c ==> #[trigger] q.weights_bits()[i][j]
                    == crate::rng::weight_of(
                    crate::rng::state_after(s0, base + i * c + j + 1),
                )
            &&& all_zero_rows(q.deltas_bits())
            &&& all_zero_rows(q.prev_deltas_bits())
        },
        (NetworkLayer::ActivationOnly(p), NetworkLayer::ActivationOnly(q)) => q == p,
        _ => false,
    }
}

/// A feed-forward network: a fixed, validated chain of layer units.
#[derive(Debug)]
pub struct NeuralNet {
    layers: Vec<NetworkLayer>,
}

impl NeuralNet {
    /// The chain of layer units.
    pub closed spec fn layers_seq(&self) -> Seq<NetworkLayer> {
        self.layers@
    }

    /// The network is well formed: a valid chain.
    pub open spec fn wf(&self) -> bool {
        valid_layer_chain(self.layers_seq())
    }

    /// The network's input dimension: the first unit's.
    pub open spec fn input_dim(&self) -> int {
        self.layers_seq().first().input_dim()
    }

    /// The network's output dimension: the last unit's.
    pub open spec fn output_dim(&self) -> int {
        self.layers_seq().last().output_dim()
    }

    /// What the network returns for an input of matching dimension.
    pub open spec fn forward_spec(&self, input: Seq<u32>) -> Seq<u32> {
        chain_forward_spec(self.layers_seq(), input)
    }

    /// Grows a network from a validated topology: for each descriptor, a
    /// zero-initialized fully connected unit followed by an
    /// activation-only unit of the descriptor's variant.  The caller
    /// seeds the weights afterwards, randomly or by hand.
    pub fn from_topology(top: &Topology) -> (r: NeuralNet)
        requires
            top.wf(),
            forall|i: int|
                0 <= i < top.layer_seq().len() ==> (#[trigger] top.layer_seq()[i]).inputs
                    < usize::MAX,
        ensures
            r.wf(),
            r.input_dim() == top.layer_seq().first().inputs,
            r.output_dim() == top.layer_seq().last().outputs,
            r.layers_seq().len() == 2 * top.layer_seq().len(),
            forall|k: int|
                0 <= k < top.layer_seq().len() ==> zeroed_pair(
                    r.layers_seq(),
                    #[trigger] top.layer_seq()[k],
                    k,
                ),
    {
        let descr = top.iter_layers();
        let mut layers: Vec<NetworkLayer> = Vec::new();
        let mut k: usize = 0;
        while k < descr.len()
            invariant
                descr@ == top.layer_seq(),
                top.wf(),
                forall|i: int|
                    0 <= i < top.layer_seq().len() ==> (#[trigger] top.layer_seq()[i]).inputs
                        < usize::MAX,
                k <= descr@.len(),
                layers@.len() == 2 * k,
                forall|i: int| 0 <= i < layers@.len() ==> (#[trigger] layers@[i]).wf(),
                forall|i: int|
                    0 <= i && i + 1 < layers@.len() ==> (#[trigger] layers@[i + 1]).input_dim() == (
                    #[trigger] layers@[i]).output_dim(),
                k > 0 ==> layers@.len() > 0 && layers@.last().output_dim() == top.layer_seq()[k
                    - 1].outputs,
                k > 0 ==> layers@.first().input_dim() == top.layer_seq()[0].inputs,
                forall|i: int|
                    0 <= i < k ==> zeroed_pair(layers@, #[trigger] top.layer_seq()[i], i),
            decreases descr@.len() - k,
        {
            let d = descr[k];
            proof {
                if k > 0 {
                    let i0 = k as int - 1;
                    assert(top.layer_seq()[i0 + 1].inputs == top.layer_seq()[i0].outputs);
                    assert(top.layer_seq()[k as int].inputs == top.layer_seq()[i0].outputs);
                }
            }
            let weights = match WeightsMatrix::zeros(d.outputs, d.inputs) {
                Ok(w) => w,
                Err(_) => unreached(),
            };
            let fc = FullyConnectedLayer::new(weights);
            let ghost fc_unit = NetworkLayer::FullyConnected(fc);
            layers.push(NetworkLayer::FullyConnected(fc));
            let act = ActivationLayer::new(d.activation, d.outputs);
            layers.push(NetworkLayer::ActivationOnly(act));
            proof {
                assert(layers@[2 * k as int] == fc_unit);
                assert(layers@[2 * k as int].input_dim() == d.inputs);
                assert(layers@[2 * k as int].output_dim() == d.outputs);
                assert(layers@[2 * k as int + 1].input_dim() == d.outputs);
                assert(layers@[2 * k as int + 1].output_dim() == d.outputs);
                assert(zeroed_pair(layers@, top.layer_seq()[k as int], k as int));
            }
            k = k + 1;
        }
        NeuralNet { layers }
    }

    /// The number of layer units in the chain.
    pub fn len_layers(&self) -> (r: usize)
        ensures
            r == self.layers_seq().len(),
    {
        self.layers.len()
    }

    /// The network's input dimension.
    pub fn len_input(&self) -> (r: usize)
        requires
            self.wf(),
        ensures
            r == self.input_dim(),
    {
        match &self.layers[0] {
            NetworkLayer::FullyConnected(l) => l.weights.n_cols() - 1,
            NetworkLayer::ActivationOnly(l) => l.output_cache.dim(),
        }
    }

    /// The network's output dimension.
    pub fn len_output(&self) -> (r: usize)
        requires
            self.wf(),
        ensures
            r == self.output_dim(),
    {
        match &self.layers[self.layers.len() - 1] {
            NetworkLayer::FullyConnected(l) => l.weights.n_outputs(),
            NetworkLayer::ActivationOnly(l) => l.output_cache.dim(),
        }
    }

    /// Replaces the weights of the fully connected unit at chain position
    /// `idx` with caller-supplied rows of the same shape, as from a
    /// random initialization.  Fails when the position does not name a
    /// fully connected unit or the shape differs, mutating nothing.
    pub fn set_weights(&mut self, idx: usize, rows: Vec<Vec<u32>>) -> (r: Result<(), Error>)
        requires
            old(self).wf(),
            idx < old(self).layers_seq().len(),
        ensures
            final(self).wf(),
            final(self).layers_seq().len() == old(self).layers_seq().len(),
            final(self).input_dim() == old(self).input_dim(),
            final(self).output_dim() == old(self).output_dim(),
            match r {
                Ok(()) => {
                    &&& set_weights_fits(old(self).layers_seq()[idx as int], rows@)
                    &&& final(self).layers_seq()[idx as int] matches NetworkLayer::FullyConnected(l)
                        && l.weights_bits() == crate::table::rows_view(rows@) && all_zero_rows(
                        l.deltas_bits(),
                    ) && all_zero_rows(l.prev_deltas_bits())
                },
                Err(_) => !set_weights_fits(old(self).layers_seq()[idx as int], rows@) && final(self).layers_seq() == old(self).layers_seq(),
            },
            forall|k: int|
                0 <= k < old(self).layers_seq().len() && k != idx ==> final(self).layers_seq()[k]
                    == old(self).layers_seq()[k],
    {
        let new_weights = match WeightsMatrix::from_raw(rows) {
            Ok(w) => w,
            Err(e) => {
                return Err(e);
            },
        };
        let shape_ok: bool = match &self.layers[idx] {
            NetworkLayer::FullyConnected(l) => l.weights.n_outputs() == new_weights.n_outputs()
                && l.weights.n_cols() == new_weights.n_cols(),
            NetworkLayer::ActivationOnly(_) => false,
        };
        if !shape_ok {
            return Err(Error::unmatching_matrix_shapes(self.layers.len(), idx));
        }
        let unit = NetworkLayer::FullyConnected(FullyConnectedLayer::new(new_weights));
        let ghost pre = self.layers_seq();
        self.layers[idx] = unit;
        proof {
            assert(self.layers_seq() =~= pre.update(idx as int, self.layers_seq()[idx as int]));
            assert(self.layers_seq()[idx as int].input_dim() == pre[idx as int].input_dim());
            assert(self.layers_seq()[idx as int].output_dim() == pre[idx as int].output_dim());
            assert forall|i: int| 0 <= i < self.layers_seq().len() implies (
            #[trigger] self.layers_seq()[i]).wf() by {
                assert(pre[i].wf());
            }
            assert forall|i: int|
                0 <= i && i + 1 < self.layers_seq().len() implies (
            #[trigger] self.layers_seq()[i + 1]).input_dim() == (
            #[trigger] self.layers_seq()[i]).output_dim() by {
                assert(pre[i + 1].input_dim() == pre[i].output_dim());
            }
        }
        Ok(())
    }

    /// The shape `(outputs, columns)` of the fully connected unit at
    /// chain position `idx`, or nothing for an activation-only unit.
    pub fn fc_shape(&self, idx: usize) -> (r: Option<(usize, usize)>)
        requires
            self.wf(),
            idx < self.layers_seq().len(),
        ensures
            match r {
                Some(s) => self.layers_seq()[idx as int] matches NetworkLayer::FullyConnected(l)
                    && s.0 == l.weights_bits().len() && s.1 == l.weights_bits()[0].len(),
                None => self.layers_seq()[idx as int] matches NetworkLayer::ActivationOnly(_),
            },
    {
        proof {
            assert(self.layers_seq()[idx as int].wf());
        }
        match &self.layers[idx] {
            NetworkLayer::FullyConnected(l) => Some((l.weights.n_outputs(), l.weights.n_cols())),
            NetworkLayer::ActivationOnly(_) => None,
        }
    }

    /// Seeds every fully connected unit's weights with pseudo-random
    /// values in `-0.5 ..= 0.5` drawn from the generator; delta tables
    /// are reset to zero.
    pub fn randomize_weights(&mut self, rng: &mut XorShift64)
        requires
            old(self).wf(),
        ensures
            final(self).wf(),
            final(self).layers_seq().len() == old(self).layers_seq().len(),
            final(self).input_dim() == old(self).input_dim(),
            final(self).output_dim() == old(self).output_dim(),
            final(rng).state_spec() == crate::rng::state_after(
                old(rng).state_spec(),
                draws_before(old(self).layers_seq(), old(self).layers_seq().len() as int),
            ),
            forall|k: int|
                0 <= k < old(self).layers_seq().len() ==> seeded_unit(
                    old(self).layers_seq()[k],
                    #[trigger] final(self).layers_seq()[k],
                    old(rng).state_spec(),
                    draws_before(old(self).layers_seq(), k),
                ),
    {
        let ghost s0 = rng.state_spec();
        let ghost old_layers = self.layers_seq();
        let n = self.layers.len();
        let mut idx: usize = 0;
        while idx < n
            invariant
                self.wf(),
                n == old_layers.len(),
                old_layers == old(self).layers_seq(),
                s0 == old(rng).state_spec(),
                idx <= n,
                self.layers_seq().len() == n,
                self.input_dim() == old(self).input_dim(),
                self.output_dim() == old(self).output_dim(),
                forall|i: int| idx <= i < n ==> #[trigger] self.layers_seq()[i] == old_layers[i],
                forall|i: int|
                    0 <= i < idx ==> seeded_unit(
                        old_layers[i],
                        #[trigger] self.layers_seq()[i],
                        s0,
                        draws_before(old_layers, i),
                    ),
                rng.state_spec() == crate::rng::state_after(
                    s0,
                    draws_before(old_layers, idx as int),
                ),
            decreases n - idx,
        {
            let ghost base = draws_before(old_layers, idx as int);
            let shape = self.fc_shape(idx);
            match shape {
                Some((outs, cols)) => {
                    proof {
                        assert(self.layers_seq()[idx as int].wf());
                        assert(draws_of(old_layers[idx as int]) == outs * cols);
                        lemma_draws_before_nonneg(old_layers, idx as int);
                    }
                    let mut rows: Vec<Vec<u32>> = Vec::new();
                    let mut i: usize = 0;
                    while i < outs
                        invariant
                            base >= 0,
                            i <= outs,
                            cols >= 2,
                            rows@.len() == i,
                            forall|k: int| 0 <= k < i ==> (#[trigger] rows@[k]@).len() == cols,
                            forall|k: int, j: int|
                                0 <= k < i && 0 <= j < cols ==> #[trigger] rows@[k]@[j]
                                    == crate::rng::weight_of(
                                    crate::rng::state_after(
                                        s0,
                                        base + k * (cols as int) + j + 1,
                                    ),
                                ),
                            rng.state_spec() == crate::rng::state_after(
                                s0,
                                base + i * (cols as int),
                            ),
                        decreases outs - i,
                    {
                        let mut row: Vec<u32> = Vec::new();
                        let mut j: usize = 0;
                        while j < cols
                            invariant
                                base >= 0,
                                j <= cols,
                                row@.len() == j,
                                forall|q: int|
                                    0 <= q < j ==> #[trigger] row@[q] == crate::rng::weight_of(
                                        crate::rng::state_after(
                                            s0,
                                            base + i * (cols as int) + q + 1,
                                        ),
                                    ),
                                rng.state_spec() == crate::rng::state_after(
                                    s0,
                                    base + i * (cols as int) + j,
                                ),
                            decreases cols - j,
                        {
                            let ghost m = base + i * (cols as int) + j;
                            row.push(rng.next_weight());
                            proof {
                                assert(i * (cols as int) >= 0) by (nonlinear_arith)
                                    requires
                                        i >= 0,
                                        cols >= 0,
                                ;
                                assert(m >= 0);
                                assert(crate::rng::state_after(s0, m + 1)
                                    == crate::rng::next_state(crate::rng::state_after(s0, m)));
                            }
                            j = j + 1;
                        }
                        rows.push(row);
                        proof {
                            assert((i + 1) * (cols as int) == i * (cols as int) + (
                            cols as int)) by (nonlinear_arith);
                        }
                        i = i + 1;
                    }
                    proof {
                        assert(crate::table::rect(crate::table::rows_view(rows@)));
                    }
                    let ghost final_rows = rows@;
                    match self.set_weights(idx, rows) {
                        Ok(()) => (),
                        Err(_) => unreached(),
                    }
                    proof {
                        assert(seeded_unit(
                            old_layers[idx as int],
                            self.layers_seq()[idx as int],
                            s0,
                            base,
                        ));
                    }
                },
                None => (),
            }
            proof {
                let i0 = idx as int;
                assert(draws_before(old_layers, i0 + 1) == draws_before(old_layers, i0)
                    + draws_of(old_layers[i0]));
            }
            idx = idx + 1;
        }
    }

    /// Forward propagation of an input signal through the whole chain:
    /// returns the network's output signal, each unit caching what its
    /// backward pass needs.
    pub fn predict(&mut self, input: &UnbiasedSignalBuffer) -> (r: UnbiasedSignalBuffer)
        requires
            old(self).wf(),
            input.wf(),
            input.bits().len() == old(self).input_dim(),
        ensures
            final(self).wf(),
            final(self).layers_seq().len() == old(self).layers_seq().len(),
            final(self).input_dim() == old(self).input_dim(),
            final(self).output_dim() == old(self).output_dim(),
            forall|k: int|
                0 <= k < old(self).layers_seq().len() ==> forwarded_unit(
                    old(self).layers_seq()[k],
                    #[trigger] final(self).layers_seq()[k],
                    signal_at(old(self).layers_seq(), input.bits(), k),
                ),
            r.bits() == old(self).forward_spec(input.bits()),
            r.bits().len() == old(self).output_dim(),
            r.wf(),
    {
        let n = self.layers.len();
        let mut signal = input.view();
        let mut k: usize = 0;
        while k < n
            invariant
                n == self.layers_seq().len(),
                old(self).wf(),
                self.wf(),
                k <= n,
                self.layers_seq().len() == old(self).layers_seq().len(),
                forall|i: int| k <= i < n ==> #[trigger] self.layers_seq()[i] == old(self).layers_seq()[i],
                forall|i: int|
                    0 <= i < k ==> forwarded_unit(
                        old(self).layers_seq()[i],
                        #[trigger] self.layers_seq()[i],
                        signal_at(old(self).layers_seq(), input.bits(), i),
                    ),
                forall|i: int|
                    0 <= i < n ==> (#[trigger] self.layers_seq()[i]).input_dim() == old(self).layers_seq()[i].input_dim() && self.layers_seq()[i].output_dim() == old(self).layers_seq()[i].output_dim(),
                signal.bits() == chain_forward_spec(
                    old(self).layers_seq().take(k as int),
                    input.bits(),
                ),
                signal.bits().len() == if k == 0 {
                    old(self).input_dim()
                } else {
                    old(self).layers_seq()[k - 1].output_dim()
                },
                signal.wf(),
            decreases n - k,
        {
            let ghost pre_signal = signal.bits();
            proof {
                if k > 0 {
                    let i0 = k as int - 1;
                    assert(old(self).layers_seq()[i0 + 1].input_dim() == old(self).layers_seq()[i0].output_dim());
                    assert(old(self).layers_seq()[k as int].input_dim() == old(self).layers_seq()[i0].output_dim());
                }
                assert(self.layers_seq()[k as int].wf());
            }
            let next = self.layers[k].forward(&signal);
            proof {
                assert(old(self).layers_seq().take(k as int + 1).drop_last() =~= old(self).layers_seq().take(k as int));
                assert(old(self).layers_seq().take(k as int + 1).last() == old(self).layers_seq()[k as int]);
            }
            signal = next;
            k = k + 1;
        }
        proof {
            assert(old(self).layers_seq().take(n as int) =~= old(self).layers_seq());
        }
        signal
    }
}


/// A well-formed network has at least one input and one output neuron.
pub proof fn lemma_net_dims(net: &NeuralNet)
    requires
        net.wf(),
    ensures
        net.input_dim() >= 1,
        net.output_dim() >= 1,
{
    assert(net.layers_seq().first().wf());
    assert(net.layers_seq().last().wf());
    match net.layers_seq().first() {
        NetworkLayer::FullyConnected(l) => {
            assert(l.weights_bits()[0].len() >= 2);
        },
        NetworkLayer::ActivationOnly(_) => {},
    }
}

impl NeuralNet {
    /// Backward propagation of a top-level error signal through the whole
    /// chain in reverse order: every fully connected unit accumulates its
    /// gradient deltas; no weights change.
    pub fn backprop(&mut self, err: &UnbiasedErrorSignalBuffer)
        requires
            old(self).wf(),
            err.wf(),
            err.bits().len() == old(self).output_dim(),
        ensures
            final(self).wf(),
            final(self).layers_seq().len() == old(self).layers_seq().len(),
            final(self).input_dim() == old(self).input_dim(),
            final(self).output_dim() == old(self).output_dim(),
            forall|k: int|
                0 <= k < old(self).layers_seq().len() ==> backward_unit(
                    old(self).layers_seq()[k],
                    #[trigger] final(self).layers_seq()[k],
                    backward_error_at(old(self).layers_seq(), err.bits(), k),
                ),
    {
        let n = self.layers.len();
        let mut cur = err.view();
        let mut k: usize = n;
        while k > 0
            invariant
                n == self.layers_seq().len(),
                old(self).wf(),
                self.wf(),
                k <= n,
                self.layers_seq().len() == old(self).layers_seq().len(),
                forall|i: int|
                    0 <= i < k ==> #[trigger] self.layers_seq()[i] == old(self).layers_seq()[i],
                forall|i: int|
                    k <= i < n ==> backward_unit(
                        old(self).layers_seq()[i],
                        #[trigger] self.layers_seq()[i],
                        backward_error_at(old(self).layers_seq(), err.bits(), i),
                    ),
                forall|i: int|
                    0 <= i < n ==> (#[trigger] self.layers_seq()[i]).input_dim() == old(
                        self,
                    ).layers_seq()[i].input_dim() && self.layers_seq()[i].output_dim() == old(
                        self,
                    ).layers_seq()[i].output_dim(),
                k > 0 ==> cur.bits() == backward_error_at(
                    old(self).layers_seq(),
                    err.bits(),
                    k - 1,
                ),
                cur.bits().len() == if k == n {
                    old(self).output_dim()
                } else {
                    old(self).layers_seq()[k as int].input_dim()
                },
                cur.wf(),
            decreases k,
        {
            k = k - 1;
            proof {
                if k + 1 < n {
                    let i0 = k as int;
                    assert(old(self).layers_seq()[i0 + 1].input_dim() == old(
                        self,
                    ).layers_seq()[i0].output_dim());
                }
                assert(self.layers_seq()[k as int].wf());
            }
            cur = self.layers[k].backward(&cur);
            proof {
                if k > 0 {
                    let i0 = k as int - 1;
                    assert(backward_error_at(old(self).layers_seq(), err.bits(), i0)
                        == unit_back_spec(
                        old(self).layers_seq()[i0 + 1],
                        backward_error_at(old(self).layers_seq(), err.bits(), i0 + 1),
                    ));
                }
            }
        }
    }

    /// Applies every fully connected unit's accumulated deltas under the
    /// given learning rate and momentum.
    pub fn apply_deltas(&mut self, lr: u32, momentum: u32)
        requires
            old(self).wf(),
        ensures
            final(self).wf(),
            final(self).layers_seq().len() == old(self).layers_seq().len(),
            final(self).input_dim() == old(self).input_dim(),
            final(self).output_dim() == old(self).output_dim(),
            forall|k: int|
                0 <= k < old(self).layers_seq().len() ==> applied_unit(
                    old(self).layers_seq()[k],
                    #[trigger] final(self).layers_seq()[k],
                    lr,
                    momentum,
                ),
    {
        let n = self.layers.len();
        let mut k: usize = 0;
        while k < n
            invariant
                n == self.layers_seq().len(),
                self.wf(),
                k <= n,
                self.layers_seq().len() == old(self).layers_seq().len(),
                forall|i: int|
                    k <= i < n ==> #[trigger] self.layers_seq()[i] == old(self).layers_seq()[i],
                forall|i: int|
                    0 <= i < k ==> applied_unit(
                        old(self).layers_seq()[i],
                        #[trigger] self.layers_seq()[i],
                        lr,
                        momentum,
                    ),
                self.input_dim() == old(self).input_dim(),
                self.output_dim() == old(self).output_dim(),
            decreases n - k,
        {
            proof {
                assert(self.layers_seq()[k as int].wf());
            }
            self.layers[k].apply_deltas(lr, momentum);
            k = k + 1;
        }
    }
}

} // verus!
