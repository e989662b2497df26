//! The mentor: the training loop that fits a network to labeled samples.
//!
//! A mentor owns a network, a validated set of samples and a
//! configuration.  Each epoch presents every sample once — in order, or
//! shuffled by a seeded generator — forward-propagates it, turns the
//! difference between target and output into an error signal,
//! backward-propagates that signal accumulating weight deltas, and
//! applies the deltas either after every sample or once per epoch.  The
//! epoch's mean squared error drives the stopping criterion; training
//! ends when the criterion is met or when the epoch bound is exhausted.

use vstd::prelude::*;
use vstd::pervasive::unreached;

use crate::arith::{add_bits, sub_bits, mul_bits, add_f, sub_f, mul_f, div_f, u64_to_f};
use crate::buffer::{UnbiasedSignalBuffer, unbiased_error_signal_from_vec};
use crate::errors::{Error, ErrorKind, Annotation};
use crate::fbits::{f32_lt, f32_lt_bits, ZERO_BITS};
use crate::layer::{NeuralNet, lemma_net_dims, forwarded_unit, backward_unit, applied_unit,
    backward_error_at, signal_at};
use crate::rng::XorShift64;

verus! {

broadcast use vstd::seq_lib::group_to_multiset_ensures;

/// The element-wise difference `a - b` of two equally long pattern
/// sequences: the top-level error signal is `target - output`.
pub open spec fn sub_seq(a: Seq<u32>, b: Seq<u32>) -> Seq<u32> {
    Seq::new(a.len(), |i: int| sub_bits(a[i], b[i]))
}

/// The running sum of squares of `e` from position `i` on: the
/// left-to-right fold the executable loop performs.
pub open spec fn sse_from(e: Seq<u32>, i: int, acc: u32) -> u32
    decreases e.len() - i,
{
    if i < 0 || i >= e.len() {
        acc
    } else {
        sse_from(e, i + 1, add_bits(acc, mul_bits(e[i], e[i])))
    }
}

/// The sum of squared errors of a signal.
pub open spec fn sse_bits(e: Seq<u32>) -> u32 {
    sse_from(e, 0, ZERO_BITS)
}

/// An immutable labeled sample: an input vector and a target vector.
#[derive(Debug)]
pub struct Sample {
    input: UnbiasedSignalBuffer,
    target: UnbiasedSignalBuffer,
}

impl Sample {
    /// The sample's input patterns.
    pub closed spec fn input_bits(&self) -> Seq<u32> {
        self.input.bits()
    }

    /// The sample's target patterns.
    pub closed spec fn target_bits(&self) -> Seq<u32> {
        self.target.bits()
    }

    /// The sample is well formed: neither vector is empty.
    pub open spec fn wf(&self) -> bool {
        self.input_bits().len() >= 1 && self.target_bits().len() >= 1
    }

    /// Builds a sample from raw patterns; rejects an empty input or
    /// target.
    pub fn new(input: Vec<u32>, target: Vec<u32>) -> (r: Result<Sample, Error>)
        ensures
            match r {
                Ok(s) => {
                    &&& input@.len() >= 1
                    &&& target@.len() >= 1
                    &&& s.input_bits() == input@
                    &&& s.target_bits() == target@
                    &&& s.wf()
                },
                Err(e) => (input@.len() == 0 || target@.len() == 0) && e.kind
                    == ErrorKind::ZeroSizedBuffer && e.annotation == Annotation::SampleValidation,
            },
    {
        if input.len() == 0 || target.len() == 0 {
            return Err(
                Error::attempt_to_create_zero_sized_buffer().with_annotation(
                    Annotation::SampleValidation,
                ),
            );
        }
        let input_buf = match UnbiasedSignalBuffer::from_raw(input) {
            Ok(b) => b,
            Err(_) => unreached(),
        };
        let target_buf = match UnbiasedSignalBuffer::from_raw(target) {
            Ok(b) => b,
            Err(_) => unreached(),
        };
        Ok(Sample { input: input_buf, target: target_buf })
    }

    /// The sample's input dimension.
    pub fn len_input(&self) -> (r: usize)
        ensures
            r == self.input_bits().len(),
    {
        self.input.dim()
    }

    /// The sample's target dimension.
    pub fn len_target(&self) -> (r: usize)
        ensures
            r == self.target_bits().len(),
    {
        self.target.dim()
    }

    /// An owned copy of the input signal.
    pub fn input_signal(&self) -> (r: UnbiasedSignalBuffer)
        ensures
            r.bits() == self.input_bits(),
    {
        self.input.view()
    }

    /// An owned copy of the target signal.
    pub fn target_signal(&self) -> (r: UnbiasedSignalBuffer)
        ensures
            r.bits() == self.target_bits(),
    {
        self.target.view()
    }
}

/// The sample presentation order within an epoch.
#[derive(Debug, Clone, Copy, PartialEq, Eq, Structural)]
pub enum Scheduling {
    /// Samples are presented in their stored order: deterministic and
    /// reproducible.
    Sequential,
    /// Samples are presented in a fresh pseudo-random order each epoch,
    /// reducing correlation between consecutive gradient updates.
    Shuffle,
}

/// When accumulated deltas are applied to the weights.
#[derive(Debug, Clone, Copy, PartialEq, Eq, Structural)]
pub enum Batching {
    /// After every sample: online, stochastic descent.
    Online,
    /// Once at the end of each epoch: batch descent.
    Epoch,
}

/// The rule that ends training.
#[derive(Debug, Clone, Copy, PartialEq, Eq, Structural)]
pub enum Criterion {
    /// A fixed number of epochs.
    Epochs(u64),
    /// A mean-squared-error threshold, as a binary32 pattern.
    MseBelow(u32),
}

/// The criterion is satisfied after `epochs` epochs with epoch error
/// `mse`.
pub open spec fn criterion_met(c: Criterion, epochs: u64, mse: u32) -> bool {
    match c {
        Criterion::Epochs(n) => epochs >= n,
        Criterion::MseBelow(t) => f32_lt(mse, t),
    }
}

/// A full training configuration.
#[derive(Debug, Clone, Copy, PartialEq, Eq, Structural)]
pub struct TrainConfig {
    /// The learning rate, as a binary32 pattern.
    pub learning_rate: u32,
    /// The momentum coefficient, as a binary32 pattern.
    pub momentum: u32,
    /// The sample presentation order.
    pub scheduling: Scheduling,
    /// When deltas are applied.
    pub batching: Batching,
    /// The stopping criterion.
    pub criterion: Criterion,
    /// The hard bound on epochs: training gives up when it is reached.
    pub max_epochs: u64,
    /// The seed of the shuffling generator.
    pub seed: u64,
}

/// Why training stopped.
#[derive(Debug, Clone, Copy, PartialEq, Eq, Structural)]
pub enum StopReason {
    /// The configured criterion was satisfied.
    CriterionMet,
    /// The epoch bound was exhausted first.
    GaveUp,
}

/// What a finished training run reports.
#[derive(Debug, Clone, Copy, PartialEq, Eq, Structural)]
pub struct TrainOutcome {
    /// The number of epochs that ran.
    pub epochs_run: u64,
    /// The last epoch's mean squared error, as a binary32 pattern.
    pub final_mse: u32,
    /// Why training stopped.
    pub reason: StopReason,
}

/// Every sample fits the network: inputs match the input dimension,
/// targets match the output dimension.
pub open spec fn samples_match(samples: Seq<Sample>, in_dim: int, out_dim: int) -> bool {
    forall|i: int|
        0 <= i < samples.len() ==> (#[trigger] samples[i]).input_bits().len() == in_dim
            && samples[i].target_bits().len() == out_dim
}

/// The error a misshapen sample produces: the network's dimension and
/// the sample's, input first, target only when the input fits.
pub open spec fn sample_mismatch_err(s: Sample, in_dim: int, out_dim: int, e: Error) -> bool {
    ||| s.input_bits().len() != in_dim && e.kind == (ErrorKind::UnmatchingBufferSizes {
        lhs: in_dim as usize,
        rhs: s.input_bits().len() as usize,
    })
    ||| s.input_bits().len() == in_dim && s.target_bits().len() != out_dim && e.kind
        == (ErrorKind::UnmatchingBufferSizes {
        lhs: out_dim as usize,
        rhs: s.target_bits().len() as usize,
    })
}

/// A network and a sample set form a valid training setup: at least one
/// sample, every sample of matching dimensions.
pub open spec fn valid_setup(net: &NeuralNet, samples: Seq<Sample>) -> bool {
    &&& samples.len() >= 1
    &&& samples_match(samples, net.input_dim(), net.output_dim())
}

/// One forward pass relates two network states: every unit's cache is
/// refreshed from the signal that reaches it when `x` is fed in, and
/// nothing else changes.
pub open spec fn predict_rel(a: NeuralNet, b: NeuralNet, x: Seq<u32>) -> bool {
    &&& b.layers_seq().len() == a.layers_seq().len()
    &&& forall|k: int|
        0 <= k < a.layers_seq().len() ==> forwarded_unit(
            a.layers_seq()[k],
            #[trigger] b.layers_seq()[k],
            signal_at(a.layers_seq(), x, k),
        )
}

/// One backward pass relates two network states: every unit accumulates
/// per [`backward_unit`] under the error signal that reaches it when `e`
/// is fed in at the top.
pub open spec fn backprop_rel(a: NeuralNet, b: NeuralNet, e: Seq<u32>) -> bool {
    &&& b.layers_seq().len() == a.layers_seq().len()
    &&& forall|k: int|
        0 <= k < a.layers_seq().len() ==> backward_unit(
            a.layers_seq()[k],
            #[trigger] b.layers_seq()[k],
            backward_error_at(a.layers_seq(), e, k),
        )
}

/// One delta application relates two network states unit by unit.
pub open spec fn apply_rel(a: NeuralNet, b: NeuralNet, lr: u32, momentum: u32) -> bool {
    &&& b.layers_seq().len() == a.layers_seq().len()
    &&& forall|k: int|
        0 <= k < a.layers_seq().len() ==> applied_unit(
            a.layers_seq()[k],
            #[trigger] b.layers_seq()[k],
            lr,
            momentum,
        )
}

/// The squared-error sum one sample contributes when presented to `net`:
/// the fold of squares of `target - output`.
pub open spec fn sample_sse(net: NeuralNet, s: Sample) -> u32 {
    sse_bits(sub_seq(s.target_bits(), net.forward_spec(s.input_bits())))
}

/// One sample presentation: a forward pass that refreshes the caches,
/// then a backward pass that accumulates deltas under the top-level
/// error `target - output`.
pub open spec fn sample_pass(a: NeuralNet, b: NeuralNet, s: Sample) -> bool {
    exists|mid: NeuralNet|
        #[trigger] predict_rel(a, mid, s.input_bits()) && backprop_rel(
            mid,
            b,
            sub_seq(s.target_bits(), a.forward_spec(s.input_bits())),
        )
}

/// One epoch step on one sample: a sample presentation, followed by a
/// delta application when descent is online.
pub open spec fn epoch_step(
    a: NeuralNet,
    b: NeuralNet,
    s: Sample,
    lr: u32,
    momentum: u32,
    online: bool,
) -> bool {
    if online {
        exists|p: NeuralNet| #[trigger] sample_pass(a, p, s) && apply_rel(p, b, lr, momentum)
    } else {
        sample_pass(a, b, s)
    }
}

/// A presentation order is valid for `n` samples under a scheduling
/// policy: a permutation of the identity order, and the identity order
/// itself under sequential scheduling.
pub open spec fn valid_order(order: Seq<usize>, n: int, sched: Scheduling) -> bool {
    &&& order.len() == n
    &&& order.to_multiset() == identity_order(n).to_multiset()
    &&& sched == Scheduling::Sequential ==> order == identity_order(n)
    &&& forall|t: int| 0 <= t < n ==> #[trigger] order[t] < n
}

/// The summed squared errors of the first `t` samples of an epoch: each
/// sample's contribution is evaluated at the network state it was
/// presented to.
pub open spec fn epoch_sse_upto(
    trace: Seq<NeuralNet>,
    samples: Seq<Sample>,
    order: Seq<usize>,
    t: int,
) -> u32
    decreases t,
{
    if t <= 0 {
        ZERO_BITS
    } else {
        add_bits(
            epoch_sse_upto(trace, samples, order, t - 1),
            sample_sse(trace[t - 1], samples[order[t - 1] as int]),
        )
    }
}

/// Extending an epoch trace does not change the error sum of the steps
/// already taken.
proof fn lemma_epoch_sse_upto_push(
    trace: Seq<NeuralNet>,
    z: NeuralNet,
    samples: Seq<Sample>,
    order: Seq<usize>,
    t: int,
)
    requires
        0 <= t <= trace.len(),
    ensures
        epoch_sse_upto(trace.push(z), samples, order, t) == epoch_sse_upto(
            trace,
            samples,
            order,
            t,
        ),
    decreases t,
{
    if t > 0 {
        lemma_epoch_sse_upto_push(trace, z, samples, order, t - 1);
        assert(trace.push(z)[t - 1] == trace[t - 1]);
    }
}

/// One full epoch turns `pre` into `post`: under some valid presentation
/// order there is a trace of intermediate network states connected by
/// epoch steps — with a single delta application at the end when descent
/// is batched — and `mse` is exactly the trace's summed squared errors
/// divided by the number of samples.
#[verifier::opaque]
pub open spec fn epoch_outcome(
    pre: NeuralNet,
    post: NeuralNet,
    samples: Seq<Sample>,
    cfg: TrainConfig,
    mse: u32,
) -> bool {
    let n = samples.len() as int;
    let online = cfg.batching == Batching::Online;
    exists|order: Seq<usize>, trace: Seq<NeuralNet>|
        {
            &&& valid_order(order, n, cfg.scheduling)
            &&& trace.len() == n + 1
            &&& trace[0] == pre
            &&& forall|t: int|
                0 <= t < n ==> epoch_step(
                    #[trigger] trace[t],
                    trace[t + 1],
                    samples[order[t] as int],
                    cfg.learning_rate,
                    cfg.momentum,
                    online,
                )
            &&& if online {
                post == trace[n]
            } else {
                apply_rel(trace[n], post, cfg.learning_rate, cfg.momentum)
            }
            &&& mse == crate::arith::div_bits(
                #[trigger] epoch_sse_upto(trace, samples, order, n),
                crate::arith::u64_to_f32_bits(samples.len() as u64),
            )
        }
}

/// The identity order `0, 1, ..., n - 1`.
pub open spec fn identity_order(n: int) -> Seq<usize> {
    Seq::new(n as nat, |i: int| i as usize)
}

/// Builds the identity order.
fn identity_indices(n: usize) -> (r: Vec<usize>)
    ensures
        r@ == identity_order(n as int),
{
    let mut v: Vec<usize> = Vec::new();
    let mut k: usize = 0;
    while k < n
        invariant
            k <= n,
            v@.len() == k,
            forall|i: int| 0 <= i < k ==> #[trigger] v@[i] == i,
        decreases n - k,
    {
        v.push(k);
        k = k + 1;
    }
    assert(v@ =~= identity_order(n as int));
    v
}

/// Draws a fresh presentation order: a permutation of the identity
/// order, shuffled by the generator.
fn shuffled_indices(rng: &mut XorShift64, n: usize) -> (r: Vec<usize>)
    requires
        n >= 1,
    ensures
        r@.len() == n,
        r@.to_multiset() == identity_order(n as int).to_multiset(),
        forall|i: int| 0 <= i < n ==> #[trigger] r@[i] < n,
{
    let mut v = identity_indices(n);
    let mut k: usize = n - 1;
    while k > 0
        invariant
            v@.len() == n,
            k < n,
            v@.to_multiset() == identity_order(n as int).to_multiset(),
            forall|i: int| 0 <= i < n ==> #[trigger] v@[i] < n,
        decreases k,
    {
        let j = rng.next_below(k as u64 + 1) as usize;
        let ghost pre = v@;
        let a = v[k];
        let b = v[j];
        v[k] = b;
        v[j] = a;
        proof {
            assert(v@ =~= pre.update(k as int, pre[j as int]).update(j as int, pre[k as int]));
            assert(v@.to_multiset() =~= pre.to_multiset());
        }
        k = k - 1;
    }
    v
}

/// The training-loop orchestrator: owns the network, the samples and the
/// configuration for one training run.
#[derive(Debug)]
pub struct Mentor {
    net: NeuralNet,
    samples: Vec<Sample>,
    config: TrainConfig,
    rng: XorShift64,
}

impl Mentor {
    /// The network being trained.
    pub closed spec fn net_view(&self) -> NeuralNet {
        self.net
    }

    /// The sample set.
    pub closed spec fn samples_view(&self) -> Seq<Sample> {
        self.samples@
    }

    /// The configuration.
    pub closed spec fn config_view(&self) -> TrainConfig {
        self.config
    }

    /// The mentor is well formed: a well-formed network and a valid,
    /// matching sample set.
    pub open spec fn wf(&self) -> bool {
        &&& self.net_view().wf()
        &&& valid_setup(&self.net_view(), self.samples_view())
    }

    /// Builds a mentor, validating every sample against the network's
    /// dimensions once, before training starts; a malformed sample set is
    /// a fatal configuration error, not a per-epoch retry condition.
    pub fn new(net: NeuralNet, samples: Vec<Sample>, config: TrainConfig) -> (r: Result<
        Mentor,
        Error,
    >)
        requires
            net.wf(),
        ensures
            match r {
                Ok(m) => {
                    &&& valid_setup(&net, samples@)
                    &&& m.wf()
                    &&& m.net_view() == net
                    &&& m.samples_view() == samples@
                    &&& m.config_view() == config
                },
                Err(e) => {
                    &&& !valid_setup(&net, samples@)
                    &&& e.annotation == Annotation::SampleValidation
                    &&& samples@.len() == 0 ==> e.kind == ErrorKind::ZeroSizedBuffer
                    &&& samples@.len() >= 1 ==> exists|i: int|
                        0 <= i < samples@.len() && sample_mismatch_err(
                            #[trigger] samples@[i],
                            net.input_dim(),
                            net.output_dim(),
                            e,
                        )
                },
            },
    {
        if samples.len() == 0 {
            return Err(
                Error::attempt_to_create_zero_sized_buffer().with_annotation(
                    Annotation::SampleValidation,
                ),
            );
        }
        let in_dim = net.len_input();
        let out_dim = net.len_output();
        let mut k: usize = 0;
        while k < samples.len()
            invariant
                net.wf(),
                in_dim == net.input_dim(),
                out_dim == net.output_dim(),
                k <= samples@.len(),
                forall|i: int|
                    0 <= i < k ==> (#[trigger] samples@[i]).input_bits().len() == in_dim
                        && samples@[i].target_bits().len() == out_dim,
            decreases samples@.len() - k,
        {
            if samples[k].len_input() != in_dim {
                assert(samples@[k as int].input_bits().len() != net.input_dim());
                let e = Error::unmatching_buffer_sizes(in_dim, samples[k].len_input())
                    .with_annotation(Annotation::SampleValidation);
                proof {
                    assert(sample_mismatch_err(
                        samples@[k as int],
                        net.input_dim(),
                        net.output_dim(),
                        e,
                    ));
                }
                return Err(e);
            }
            if samples[k].len_target() != out_dim {
                assert(samples@[k as int].target_bits().len() != net.output_dim());
                let e = Error::unmatching_buffer_sizes(out_dim, samples[k].len_target())
                    .with_annotation(Annotation::SampleValidation);
                proof {
                    assert(sample_mismatch_err(
                        samples@[k as int],
                        net.input_dim(),
                        net.output_dim(),
                        e,
                    ));
                }
                return Err(e);
            }
            k = k + 1;
        }
        let rng = XorShift64::new(config.seed);
        Ok(Mentor { net, samples, config, rng })
    }

    /// Presents one sample: forward propagation, the top-level error
    /// signal `target - output`, and backward propagation accumulating
    /// deltas.  Returns the sample's sum of squared errors, an exact fold
    /// over the difference between the target and what the network
    /// returned for the input.
    fn run_sample(&mut self, idx: usize) -> (sse: u32)
        requires
            old(self).wf(),
            idx < old(self).samples_view().len(),
        ensures
            final(self).wf(),
            final(self).samples_view() == old(self).samples_view(),
            final(self).config_view() == old(self).config_view(),
            final(self).net_view().input_dim() == old(self).net_view().input_dim(),
            final(self).net_view().output_dim() == old(self).net_view().output_dim(),
            final(self).net_view().layers_seq().len() == old(self).net_view().layers_seq().len(),
            sse == sample_sse(old(self).net_view(), old(self).samples_view()[idx as int]),
            sample_pass(
                old(self).net_view(),
                final(self).net_view(),
                old(self).samples_view()[idx as int],
            ),
    {
        let input = self.samples[idx].input_signal();
        let target = self.samples[idx].target_signal();
        proof {
            lemma_net_dims(&self.net);
            assert(self.samples_view()[idx as int].input_bits().len()
                == self.net_view().input_dim());
        }
        let out = self.net.predict(&input);
        let ghost mid = self.net;
        proof {
            assert(predict_rel(old(self).net_view(), mid, input.bits()));
        }
        let n = target.dim();
        let mut e: Vec<u32> = Vec::new();
        let mut i: usize = 0;
        while i < n
            invariant
                n == target.bits().len(),
                n == out.bits().len(),
                i <= n,
                e@.len() == i,
                forall|q: int|
                    0 <= q < i ==> #[trigger] e@[q] == sub_bits(target.bits()[q], out.bits()[q]),
            decreases n - i,
        {
            e.push(sub_f(target.get(i), out.get(i)));
            i = i + 1;
        }
        proof {
            assert(e@ =~= sub_seq(target.bits(), out.bits()));
        }
        let mut sse: u32 = ZERO_BITS;
        let mut i: usize = 0;
        while i < n
            invariant
                n == e@.len(),
                i <= n,
                sse_bits(e@) == sse_from(e@, i as int, sse),
            decreases n - i,
        {
            let v = e[i];
            sse = add_f(sse, mul_f(v, v));
            i = i + 1;
        }
        let err = unbiased_error_signal_from_vec(e);
        self.net.backprop(&err);
        proof {
            let ghost smp = old(self).samples_view()[idx as int];
            assert(err.bits() == sub_seq(
                smp.target_bits(),
                old(self).net_view().forward_spec(smp.input_bits()),
            ));
            assert(backprop_rel(mid, self.net_view(), err.bits()));
            assert(predict_rel(old(self).net_view(), mid, smp.input_bits()) && backprop_rel(
                mid,
                self.net_view(),
                sub_seq(smp.target_bits(), old(self).net_view().forward_spec(smp.input_bits())),
            ));
        }
        sse
    }

    /// Runs one full epoch: presents every sample once in the configured
    /// order, applies deltas per the batching policy, and returns the
    /// epoch's mean squared error — the summed squared errors divided by
    /// the number of samples.
    pub fn train_epoch(&mut self) -> (mse: u32)
        requires
            old(self).wf(),
        ensures
            final(self).wf(),
            final(self).samples_view() == old(self).samples_view(),
            final(self).config_view() == old(self).config_view(),
            final(self).net_view().input_dim() == old(self).net_view().input_dim(),
            final(self).net_view().output_dim() == old(self).net_view().output_dim(),
            epoch_outcome(
                old(self).net_view(),
                final(self).net_view(),
                old(self).samples_view(),
                old(self).config_view(),
                mse,
            ),
    {
        let n = self.samples.len();
        let order: Vec<usize> = match self.config.scheduling {
            Scheduling::Sequential => identity_indices(n),
            Scheduling::Shuffle => shuffled_indices(&mut self.rng, n),
        };
        proof {
            assert(forall|i: int| 0 <= i < n ==> #[trigger] identity_order(n as int)[i] < n);
            assert(identity_order(n as int).to_multiset() == identity_order(
                n as int,
            ).to_multiset());
            assert(valid_order(order@, n as int, old(self).config_view().scheduling));
        }
        let lr = self.config.learning_rate;
        let momentum = self.config.momentum;
        let online = match self.config.batching {
            Batching::Online => true,
            Batching::Epoch => false,
        };
        let ghost gorder = order@;
        let ghost mut trace: Seq<NeuralNet> = seq![old(self).net_view()];
        let mut sse_total: u32 = ZERO_BITS;
        let mut t: usize = 0;
        while t < n
            invariant
                self.wf(),
                n == self.samples_view().len(),
                gorder == order@,
                gorder.len() == n,
                forall|i: int| 0 <= i < n ==> #[trigger] gorder[i] < n,
                t <= n,
                self.samples_view() == old(self).samples_view(),
                self.config_view() == old(self).config_view(),
                self.net_view().input_dim() == old(self).net_view().input_dim(),
                self.net_view().output_dim() == old(self).net_view().output_dim(),
                lr == old(self).config_view().learning_rate,
                momentum == old(self).config_view().momentum,
                online == (old(self).config_view().batching == Batching::Online),
                trace.len() == t + 1,
                trace[0] == old(self).net_view(),
                trace.last() == self.net_view(),
                forall|u: int|
                    0 <= u < t ==> epoch_step(
                        #[trigger] trace[u],
                        trace[u + 1],
                        old(self).samples_view()[gorder[u] as int],
                        lr,
                        momentum,
                        online,
                    ),
                sse_total == epoch_sse_upto(
                    trace,
                    old(self).samples_view(),
                    gorder,
                    t as int,
                ),
            decreases n - t,
        {
            let idx = order[t];
            let ghost pre_net = self.net_view();
            let sse = self.run_sample(idx);
            sse_total = add_f(sse_total, sse);
            if online {
                let ghost passed = self.net_view();
                self.net.apply_deltas(lr, momentum);
                proof {
                    assert(sample_pass(
                        pre_net,
                        passed,
                        old(self).samples_view()[gorder[t as int] as int],
                    ) && apply_rel(passed, self.net_view(), lr, momentum));
                }
            }
            proof {
                let ghost grown = trace.push(self.net_view());
                lemma_epoch_sse_upto_push(
                    trace,
                    self.net_view(),
                    old(self).samples_view(),
                    gorder,
                    t as int,
                );
                assert(grown[t as int] == pre_net);
                assert(grown[t as int + 1] == self.net_view());
                trace = grown;
                assert(epoch_step(
                    trace[t as int],
                    trace[t as int + 1],
                    old(self).samples_view()[gorder[t as int] as int],
                    lr,
                    momentum,
                    online,
                ));
                assert(sse_total == epoch_sse_upto(
                    trace,
                    old(self).samples_view(),
                    gorder,
                    t as int + 1,
                ));
            }
            t = t + 1;
        }
        if !online {
            self.net.apply_deltas(lr, momentum);
        }
        let mse = div_f(sse_total, u64_to_f(n as u64));
        proof {
            reveal(epoch_outcome);
            assert(sse_total == epoch_sse_upto(
                trace,
                old(self).samples_view(),
                gorder,
                old(self).samples_view().len() as int,
            ));
        }
        mse
    }

    /// Runs epochs until the criterion is satisfied or the epoch bound is
    /// exhausted.  The reported reason is faithful: the criterion holds of
    /// the reported epoch count and final error exactly when it says so,
    /// and giving up happens only at the bound.
    #[verifier::rlimit(60)]
    pub fn train(&mut self) -> (outcome: TrainOutcome)
        requires
            old(self).wf(),
            old(self).config_view().max_epochs >= 1,
        ensures
            final(self).wf(),
            final(self).samples_view() == old(self).samples_view(),
            final(self).config_view() == old(self).config_view(),
            1 <= outcome.epochs_run <= old(self).config_view().max_epochs,
            outcome.reason == StopReason::CriterionMet ==> criterion_met(
                old(self).config_view().criterion,
                outcome.epochs_run,
                outcome.final_mse,
            ),
            outcome.reason == StopReason::GaveUp ==> outcome.epochs_run == old(
                self,
            ).config_view().max_epochs && !criterion_met(
                old(self).config_view().criterion,
                outcome.epochs_run,
                outcome.final_mse,
            ),
            exists|pre: NeuralNet|
                #[trigger] epoch_outcome(
                    pre,
                    final(self).net_view(),
                    old(self).samples_view(),
                    old(self).config_view(),
                    outcome.final_mse,
                ),
    {
        let max_epochs = self.config.max_epochs;
        let criterion = self.config.criterion;
        let mut epochs: u64 = 0;
        let mut mse: u32 = ZERO_BITS;
        let mut met = false;
        let ghost mut last_pre = self.net_view();
        while epochs < max_epochs && !met
            invariant
                self.wf(),
                self.samples_view() == old(self).samples_view(),
                self.config_view() == old(self).config_view(),
                criterion == old(self).config_view().criterion,
                max_epochs == old(self).config_view().max_epochs,
                epochs <= max_epochs,
                met ==> epochs >= 1 && criterion_met(criterion, epochs, mse),
                !met && epochs > 0 ==> !criterion_met(criterion, epochs, mse),
                epochs > 0 ==> epoch_outcome(
                    last_pre,
                    self.net_view(),
                    old(self).samples_view(),
                    old(self).config_view(),
                    mse,
                ),
            decreases max_epochs - epochs,
        {
            proof {
                last_pre = self.net_view();
            }
            mse = self.train_epoch();
            epochs = epochs + 1;
            met = match criterion {
                Criterion::Epochs(target) => epochs >= target,
                Criterion::MseBelow(threshold) => f32_lt_bits(mse, threshold),
            };
        }
        proof {
            assert(epochs >= 1);
            assert(epoch_outcome(
                last_pre,
                self.net_view(),
                old(self).samples_view(),
                old(self).config_view(),
                mse,
            ));
        }
        let outcome = if met {
            TrainOutcome { epochs_run: epochs, final_mse: mse, reason: StopReason::CriterionMet }
        } else {
            TrainOutcome { epochs_run: epochs, final_mse: mse, reason: StopReason::GaveUp }
        };
        proof {
            assert(outcome.final_mse == mse);
            assert(exists|pre: NeuralNet|
                #[trigger] epoch_outcome(
                    pre,
                    self.net_view(),
                    old(self).samples_view(),
                    old(self).config_view(),
                    outcome.final_mse,
                ));
        }
        outcome
    }

    /// The network, for inspection during or after training.
    pub fn net(&self) -> (r: &NeuralNet)
        ensures
            r == self.net_view(),
    {
        &self.net
    }

    /// Consumes the mentor and hands the trained network back.
    pub fn into_net(self) -> (r: NeuralNet)
        ensures
            r == self.net_view(),
    {
        self.net
    }
}

} // verus!
