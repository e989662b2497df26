//! Topologies of layered networks.
//!
//! A topology is an ordered, validated list of fully connected layer
//! descriptors — input size, output size and activation — built
//! incrementally from the input layer to the output layer.  Adjacent
//! descriptors always agree on their shared dimension, and every size is
//! at least one; a finished topology is the shape from which a network is
//! grown and is never restructured afterwards.

use vstd::prelude::*;

use crate::activation::Activation;

verus! {

/// The topology element for one fully connected layer: input neurons,
/// output neurons and the activation applied to the outputs.  Bias
/// neurons are implicit and not counted here.
#[derive(Debug, Clone, Copy, PartialEq, Eq, Structural)]
pub struct Layer {
    /// Number of input neurons to this layer.
    pub inputs: usize,
    /// Number of output neurons from this layer.
    pub outputs: usize,
    /// Activation function for this layer.
    pub activation: Activation,
}

impl Layer {
    /// Creates a new layer descriptor.
    pub fn new(inputs: usize, outputs: usize, activation: Activation) -> (r: Layer)
        ensures
            r == (Layer { inputs, outputs, activation }),
    {
        Layer { inputs, outputs, activation }
    }
}

/// A chain of layer descriptors is valid: every size is at least one and
/// adjacent descriptors agree on their shared dimension.
pub open spec fn valid_chain(layers: Seq<Layer>) -> bool {
    &&& forall|i: int|
        0 <= i < layers.len() ==> (#[trigger] layers[i]).inputs >= 1 && layers[i].outputs >= 1
    &&& forall|i: int|
        0 <= i && i + 1 < layers.len() ==> (#[trigger] layers[i + 1]).inputs == (
        #[trigger] layers[i]).outputs
}

/// Builds topologies incrementally, enforcing at every step that the next
/// layer's input size equals the previous layer's output size.
#[derive(Debug, Clone)]
pub struct TopologyBuilder {
    last: usize,
    layers: Vec<Layer>,
}

/// A finished, validated network topology: a non-empty valid chain of
/// layer descriptors.
#[derive(Debug, Clone)]
pub struct Topology {
    layers: Vec<Layer>,
}

impl Topology {
    /// The layer descriptors of this topology.
    pub closed spec fn layer_seq(&self) -> Seq<Layer> {
        self.layers@
    }

    /// The topology is well formed: at least one layer, and a valid chain.
    pub open spec fn wf(&self) -> bool {
        &&& self.layer_seq().len() >= 1
        &&& valid_chain(self.layer_seq())
    }

    /// Starts building a topology from the number of input neurons.
    pub fn input(size: usize) -> (r: TopologyBuilder)
        requires
            size >= 1,
        ensures
            r.last_size() == size,
            r.layer_seq() == Seq::<Layer>::empty(),
            r.wf(),
    {
        TopologyBuilder { last: size, layers: Vec::new() }
    }

    /// The number of input neurons: the first layer's input size.
    pub fn len_input(&self) -> (r: usize)
        requires
            self.wf(),
        ensures
            r == self.layer_seq().first().inputs,
    {
        self.layers[0].inputs
    }

    /// The number of output neurons: the last layer's output size.
    pub fn len_output(&self) -> (r: usize)
        requires
            self.wf(),
        ensures
            r == self.layer_seq().last().outputs,
    {
        self.layers[self.layers.len() - 1].outputs
    }

    /// The layer descriptors of this topology, in order.
    pub fn iter_layers(&self) -> (r: &Vec<Layer>)
        ensures
            r@ == self.layer_seq(),
    {
        &self.layers
    }
}

impl TopologyBuilder {
    /// The layer descriptors gathered so far.
    pub closed spec fn layer_seq(&self) -> Seq<Layer> {
        self.layers@
    }

    /// The output size of the most recent layer, or the declared input
    /// size when no layer was added yet.
    pub closed spec fn last_size(&self) -> usize {
        self.last
    }

    /// The builder is well formed: a valid chain whose trailing dimension
    /// is `last_size`.
    pub open spec fn wf(&self) -> bool {
        &&& self.last_size() >= 1
        &&& valid_chain(self.layer_seq())
        &&& self.layer_seq().len() > 0 ==> self.layer_seq().last().outputs == self.last_size()
    }

    /// Appends one layer of `layer_size` output neurons.
    fn push_layer(&mut self, layer_size: usize, act: Activation)
        requires
            layer_size >= 1,
            old(self).wf(),
        ensures
            final(self).layer_seq() == old(self).layer_seq().push(
                Layer { inputs: old(self).last_size(), outputs: layer_size, activation: act },
            ),
            final(self).last_size() == layer_size,
            final(self).wf(),
    {
        let layer = Layer { inputs: self.last, outputs: layer_size, activation: act };
        self.layers.push(layer);
        self.last = layer_size;
    }

    /// Adds a hidden layer with the given number of neurons; bias neurons
    /// are implicit.
    pub fn layer(self, layer_size: usize, act: Activation) -> (r: TopologyBuilder)
        requires
            layer_size >= 1,
            self.wf(),
        ensures
            r.layer_seq() == self.layer_seq().push(
                Layer { inputs: self.last_size(), outputs: layer_size, activation: act },
            ),
            r.last_size() == layer_size,
            r.wf(),
    {
        let mut this = self;
        this.push_layer(layer_size, act);
        this
    }

    /// Adds several hidden layers at once; bias neurons are implicit.
    pub fn layers(self, layers: &Vec<(usize, Activation)>) -> (r: TopologyBuilder)
        requires
            self.wf(),
            forall|i: int| 0 <= i < layers@.len() ==> (#[trigger] layers@[i]).0 >= 1,
        ensures
            r.wf(),
            r.layer_seq().len() == self.layer_seq().len() + layers@.len(),
            r.layer_seq().take(self.layer_seq().len() as int) == self.layer_seq(),
            forall|i: int|
                0 <= i < layers@.len() ==> (#[trigger] r.layer_seq()[self.layer_seq().len() + i])
                    == (Layer {
                    inputs: if i == 0 {
                        self.last_size()
                    } else {
                        layers@[i - 1].0
                    },
                    outputs: layers@[i].0,
                    activation: layers@[i].1,
                }),
            r.last_size() == if layers@.len() == 0 {
                self.last_size()
            } else {
                layers@.last().0
            },
    {
        let ghost orig = self.layer_seq();
        let ghost orig_last = self.last_size();
        let mut this = self;
        let mut k: usize = 0;
        while k < layers.len()
            invariant
                k <= layers@.len(),
                this.wf(),
                forall|i: int| 0 <= i < layers@.len() ==> (#[trigger] layers@[i]).0 >= 1,
                this.layer_seq().len() == orig.len() + k,
                this.layer_seq().take(orig.len() as int) == orig,
                forall|i: int|
                    0 <= i < k ==> (#[trigger] this.layer_seq()[orig.len() + i]) == (Layer {
                        inputs: if i == 0 {
                            orig_last
                        } else {
                            layers@[i - 1].0
                        },
                        outputs: layers@[i].0,
                        activation: layers@[i].1,
                    }),
                this.last_size() == if k == 0 {
                    orig_last
                } else {
                    layers@[k - 1].0
                },
            decreases layers@.len() - k,
        {
            let (size, act) = layers[k];
            this.push_layer(size, act);
            assert(this.layer_seq().take(orig.len() as int) =~= orig);
            k = k + 1;
        }
        this
    }

    /// Finishes the topology by defining its output layer; bias neurons
    /// are implicit.
    pub fn output(self, layer_size: usize, act: Activation) -> (r: Topology)
        requires
            layer_size >= 1,
            self.wf(),
        ensures
            r.layer_seq() == self.layer_seq().push(
                Layer { inputs: self.last_size(), outputs: layer_size, activation: act },
            ),
            r.wf(),
    {
        let mut this = self;
        this.push_layer(layer_size, act);
        Topology { layers: this.layers }
    }
}

} // verus!
