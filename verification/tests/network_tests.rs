use prophet::activation::Activation;
use prophet::buffer::{BiasedSignalBuffer, UnbiasedErrorSignalBuffer, UnbiasedSignalBuffer};
use prophet::errors::{Annotation, ErrorKind};
use prophet::layer::NeuralNet;
use prophet::matrix::{DeltaWeightsMatrix, WeightsMatrix};
use prophet::topology::Topology;

fn b(x: f32) -> u32 {
    x.to_bits()
}

fn bv(xs: &[f32]) -> Vec<u32> {
    xs.iter().map(|x| x.to_bits()).collect()
}

#[test]
fn forward_known_dot_product() {
    let weights = WeightsMatrix::from_raw(vec![bv(&[1.0, 2.0, 0.5])]).unwrap();
    let input = BiasedSignalBuffer::from_raw_with_bias(bv(&[3.0, 4.0, 1.0])).unwrap();
    let out = weights.forward(&input).unwrap();
    assert_eq!(out.dim(), 1);
    assert_eq!(out.get(0), b(11.5));
}

#[test]
fn forward_rejects_wrong_input_dimension() {
    let weights = WeightsMatrix::from_raw(vec![bv(&[1.0, 2.0, 0.5])]).unwrap();
    let input = BiasedSignalBuffer::from_raw_with_bias(bv(&[3.0, 4.0, 5.0, 1.0])).unwrap();
    let r = weights.forward(&input);
    assert!(r.is_err());
    assert_eq!(
        r.unwrap_err().kind(),
        ErrorKind::UnmatchingMatrixShapes { expected: 3, actual: 4 }
    );
}

#[test]
fn matrix_from_raw_rejects_bad_tables() {
    let empty: Vec<Vec<u32>> = vec![];
    let r = WeightsMatrix::from_raw(empty);
    let e = r.unwrap_err();
    assert_eq!(e.kind(), ErrorKind::ZeroSizedBuffer);
    assert_eq!(e.annotation(), Annotation::MatrixConstruction);

    let short = WeightsMatrix::from_raw(vec![bv(&[1.0])]);
    assert_eq!(
        short.unwrap_err().kind(),
        ErrorKind::TooFewValues { expected_min: 2, actual: 1 }
    );

    let ragged = WeightsMatrix::from_raw(vec![bv(&[1.0, 2.0, 3.0]), bv(&[1.0, 2.0])]);
    assert_eq!(
        ragged.unwrap_err().kind(),
        ErrorKind::UnmatchingBufferSizes { lhs: 3, rhs: 2 }
    );
}

#[test]
fn delta_accumulation_outer_product() {
    let mut deltas = DeltaWeightsMatrix::zeros(1, 2).unwrap();
    let err = UnbiasedErrorSignalBuffer::from_raw(bv(&[3.0])).unwrap();
    let input = BiasedSignalBuffer::from_raw_with_bias(bv(&[2.0, 5.0, 1.0])).unwrap();
    deltas.accumulate(&err, &input).unwrap();
    assert_eq!(deltas.get(0, 0), b(6.0));
    assert_eq!(deltas.get(0, 1), b(15.0));
    assert_eq!(deltas.get(0, 2), b(3.0));
}

#[test]
fn delta_accumulation_is_order_independent_for_a_fresh_batch() {
    let err_a = UnbiasedErrorSignalBuffer::from_raw(bv(&[0.5, -1.25])).unwrap();
    let input_a = BiasedSignalBuffer::from_raw_with_bias(bv(&[2.0, 3.0, 1.0])).unwrap();
    let err_b = UnbiasedErrorSignalBuffer::from_raw(bv(&[0.75, 0.125])).unwrap();
    let input_b = BiasedSignalBuffer::from_raw_with_bias(bv(&[-1.5, 4.0, 1.0])).unwrap();

    let mut ab = DeltaWeightsMatrix::zeros(2, 2).unwrap();
    ab.accumulate(&err_a, &input_a).unwrap();
    ab.accumulate(&err_b, &input_b).unwrap();

    let mut ba = DeltaWeightsMatrix::zeros(2, 2).unwrap();
    ba.accumulate(&err_b, &input_b).unwrap();
    ba.accumulate(&err_a, &input_a).unwrap();

    for i in 0..2 {
        for j in 0..3 {
            assert_eq!(ab.get(i, j), ba.get(i, j));
        }
    }
}

#[test]
fn apply_deltas_with_learning_rate() {
    let mut weights = WeightsMatrix::from_raw(vec![bv(&[1.0, 0.0, 0.0])]).unwrap();
    let mut deltas = DeltaWeightsMatrix::zeros(1, 2).unwrap();
    let prev = DeltaWeightsMatrix::zeros(1, 2).unwrap();
    let err = UnbiasedErrorSignalBuffer::from_raw(bv(&[3.0])).unwrap();
    let input = BiasedSignalBuffer::from_raw_with_bias(bv(&[2.0, 5.0, 1.0])).unwrap();
    deltas.accumulate(&err, &input).unwrap();
    weights.apply_deltas(&deltas, &prev, b(0.5), b(0.0)).unwrap();
    assert_eq!(weights.get(0, 0), b(4.0));
    assert_eq!(weights.get(0, 1), b(7.5));
    assert_eq!(weights.get(0, 2), b(1.5));
}

#[test]
fn activation_values_are_exact_at_zero() {
    assert_eq!(Activation::Logistic.apply(b(0.0)), b(0.5));
    assert_eq!(Activation::Tanh.apply(b(0.0)), b(0.0));
    assert_eq!(Activation::Identity.apply(b(-7.25)), b(-7.25));
    assert_eq!(Activation::SoftSign.apply(b(1.0)), b(0.5));
    assert_eq!(Activation::ReLU.apply(b(-1.5)), b(0.0));
    assert_eq!(Activation::ReLU.apply(b(2.5)), b(2.5));
}

#[test]
fn activation_derivatives_are_exact() {
    assert_eq!(Activation::Logistic.deriv(b(0.5)), b(0.25));
    assert_eq!(Activation::Tanh.deriv(b(0.0)), b(1.0));
    assert_eq!(Activation::Identity.deriv(b(42.0)), b(1.0));
    assert_eq!(Activation::ReLU.deriv(b(0.0)), b(0.0));
    assert_eq!(Activation::ReLU.deriv(b(3.0)), b(1.0));
    assert_eq!(Activation::SoftSign.deriv(b(0.5)), b(0.25));
}

#[test]
fn logistic_saturates_far_from_zero() {
    let lo = f32::from_bits(Activation::Logistic.apply(b(-1000.0)));
    assert!(lo >= 0.0 && lo < 0.001);
    let hi = f32::from_bits(Activation::Logistic.apply(b(1000.0)));
    assert!(hi > 0.999 && hi <= 1.0);
}

#[test]
fn predict_through_identity_network() {
    let top = Topology::input(2).output(1, Activation::Identity);
    let mut net = NeuralNet::from_topology(&top);
    net.set_weights(0, vec![bv(&[1.0, 2.0, 0.5])]).unwrap();
    let input = UnbiasedSignalBuffer::from_raw(bv(&[3.0, 4.0])).unwrap();
    let out = net.predict(&input);
    assert_eq!(out.dim(), 1);
    assert_eq!(out.get(0), b(11.5));
}

#[test]
fn set_weights_rejects_misfits() {
    let top = Topology::input(2).output(1, Activation::Identity);
    let mut net = NeuralNet::from_topology(&top);
    let wrong_shape = net.set_weights(0, vec![bv(&[1.0, 2.0])]);
    assert!(wrong_shape.is_err());
    let activation_slot = net.set_weights(1, vec![bv(&[1.0, 2.0, 0.5])]);
    assert!(activation_slot.is_err());
}

#[test]
fn zero_dimension_matrices_are_rejected() {
    let r = WeightsMatrix::zeros(0, 3);
    let e = r.unwrap_err();
    assert_eq!(e.kind(), ErrorKind::ZeroSizedBuffer);
    assert_eq!(e.annotation(), Annotation::MatrixConstruction);
    assert!(DeltaWeightsMatrix::zeros(3, 0).is_err());
}

#[test]
fn apply_deltas_with_momentum_term() {
    let mut weights = WeightsMatrix::from_raw(vec![bv(&[1.0, 1.0, 1.0])]).unwrap();
    let mut deltas = DeltaWeightsMatrix::zeros(1, 2).unwrap();
    let mut prev = DeltaWeightsMatrix::zeros(1, 2).unwrap();
    let err_prev = UnbiasedErrorSignalBuffer::from_raw(bv(&[2.0])).unwrap();
    let input_prev = BiasedSignalBuffer::from_raw_with_bias(bv(&[1.0, 2.0, 1.0])).unwrap();
    prev.accumulate(&err_prev, &input_prev).unwrap();
    let err = UnbiasedErrorSignalBuffer::from_raw(bv(&[4.0])).unwrap();
    let input = BiasedSignalBuffer::from_raw_with_bias(bv(&[0.5, 1.0, 1.0])).unwrap();
    deltas.accumulate(&err, &input).unwrap();
    weights.apply_deltas(&deltas, &prev, b(0.5), b(0.25)).unwrap();
    assert_eq!(weights.get(0, 0), b(2.5));
    assert_eq!(weights.get(0, 1), b(4.0));
    assert_eq!(weights.get(0, 2), b(3.5));
}
