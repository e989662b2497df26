use prophet::activation::Activation;
use prophet::errors::{Annotation, ErrorKind};
use prophet::layer::NeuralNet;
use prophet::mentor::{
    Batching, Criterion, Mentor, Sample, Scheduling, StopReason, TrainConfig,
};
use prophet::rng::XorShift64;
use prophet::topology::Topology;

fn b(x: f32) -> u32 {
    x.to_bits()
}

fn bv(xs: &[f32]) -> Vec<u32> {
    xs.iter().map(|x| x.to_bits()).collect()
}

fn config(criterion: Criterion, max_epochs: u64, lr: f32) -> TrainConfig {
    TrainConfig {
        learning_rate: b(lr),
        momentum: b(0.0),
        scheduling: Scheduling::Sequential,
        batching: Batching::Online,
        criterion,
        max_epochs,
        seed: 42,
    }
}

#[test]
fn one_epoch_identity_training_is_exact() {
    let top = Topology::input(1).output(1, Activation::Identity);
    let mut net = NeuralNet::from_topology(&top);
    net.set_weights(0, vec![bv(&[1.0, 0.0])]).unwrap();
    let samples = vec![Sample::new(bv(&[2.0]), bv(&[5.0])).unwrap()];
    let mut mentor = Mentor::new(net, samples, config(Criterion::Epochs(1), 1, 0.5)).unwrap();
    let mse = mentor.train_epoch();
    assert_eq!(mse, b(9.0));
    let mut net = mentor.into_net();
    let input = prophet::buffer::UnbiasedSignalBuffer::from_raw(bv(&[2.0])).unwrap();
    let out = net.predict(&input);
    assert_eq!(out.get(0), b(9.5));
}

#[test]
fn second_epoch_overshoots_exactly() {
    let top = Topology::input(1).output(1, Activation::Identity);
    let mut net = NeuralNet::from_topology(&top);
    net.set_weights(0, vec![bv(&[1.0, 0.0])]).unwrap();
    let samples = vec![Sample::new(bv(&[2.0]), bv(&[5.0])).unwrap()];
    let mut mentor = Mentor::new(net, samples, config(Criterion::Epochs(2), 2, 0.5)).unwrap();
    let first = mentor.train_epoch();
    let second = mentor.train_epoch();
    assert_eq!(first, b(9.0));
    assert_eq!(second, b(20.25));
}

#[test]
fn train_runs_the_configured_epoch_count() {
    let top = Topology::input(1).output(1, Activation::Identity);
    let mut net = NeuralNet::from_topology(&top);
    net.set_weights(0, vec![bv(&[0.5, 0.0])]).unwrap();
    let samples = vec![Sample::new(bv(&[1.0]), bv(&[0.5])).unwrap()];
    let mut mentor = Mentor::new(net, samples, config(Criterion::Epochs(3), 10, 0.1)).unwrap();
    let outcome = mentor.train();
    assert_eq!(outcome.epochs_run, 3);
    assert_eq!(outcome.reason, StopReason::CriterionMet);
}

#[test]
fn train_gives_up_at_the_epoch_bound() {
    let top = Topology::input(1).output(1, Activation::Identity);
    let mut net = NeuralNet::from_topology(&top);
    net.set_weights(0, vec![bv(&[1.0, 0.0])]).unwrap();
    let samples = vec![Sample::new(bv(&[1.0]), bv(&[100.0])).unwrap()];
    let cfg = config(Criterion::MseBelow(b(0.000001)), 2, 0.0);
    let mut mentor = Mentor::new(net, samples, cfg).unwrap();
    let outcome = mentor.train();
    assert_eq!(outcome.epochs_run, 2);
    assert_eq!(outcome.reason, StopReason::GaveUp);
    assert!(f32::from_bits(outcome.final_mse) >= 0.000001);
}

#[test]
fn xor_network_converges() {
    let top = Topology::input(2).layer(2, Activation::Logistic).output(
        1,
        Activation::Logistic,
    );
    let mut net = NeuralNet::from_topology(&top);
    let mut rng = XorShift64::new(42);
    net.randomize_weights(&mut rng);
    let samples = vec![
        Sample::new(bv(&[0.0, 0.0]), bv(&[0.0])).unwrap(),
        Sample::new(bv(&[0.0, 1.0]), bv(&[1.0])).unwrap(),
        Sample::new(bv(&[1.0, 0.0]), bv(&[1.0])).unwrap(),
        Sample::new(bv(&[1.0, 1.0]), bv(&[0.0])).unwrap(),
    ];
    let cfg = config(Criterion::MseBelow(b(0.05)), 1500, 1.0);
    let mut mentor = Mentor::new(net, samples, cfg).unwrap();
    let outcome = mentor.train();
    assert_eq!(outcome.reason, StopReason::CriterionMet);
    assert!(f32::from_bits(outcome.final_mse) < 0.05);
    let mut net = mentor.into_net();
    let q = |net: &mut NeuralNet, a: f32, c: f32| -> f32 {
        let input = prophet::buffer::UnbiasedSignalBuffer::from_raw(bv(&[a, c])).unwrap();
        f32::from_bits(net.predict(&input).get(0))
    };
    assert!(q(&mut net, 0.0, 0.0) < 0.5);
    assert!(q(&mut net, 0.0, 1.0) > 0.5);
    assert!(q(&mut net, 1.0, 0.0) > 0.5);
    assert!(q(&mut net, 1.0, 1.0) < 0.5);
}

#[test]
fn shuffled_epoch_trains_too() {
    let top = Topology::input(1).output(1, Activation::Identity);
    let mut net = NeuralNet::from_topology(&top);
    net.set_weights(0, vec![bv(&[1.0, 0.0])]).unwrap();
    let samples = vec![
        Sample::new(bv(&[1.0]), bv(&[1.0])).unwrap(),
        Sample::new(bv(&[2.0]), bv(&[2.0])).unwrap(),
    ];
    let mut cfg = config(Criterion::Epochs(1), 1, 0.1);
    cfg.scheduling = Scheduling::Shuffle;
    let mut mentor = Mentor::new(net, samples, cfg).unwrap();
    let outcome = mentor.train();
    assert_eq!(outcome.epochs_run, 1);
    assert_eq!(outcome.reason, StopReason::CriterionMet);
}

#[test]
fn mentor_rejects_empty_sample_sets() {
    let top = Topology::input(1).output(1, Activation::Identity);
    let net = NeuralNet::from_topology(&top);
    let r = Mentor::new(net, vec![], config(Criterion::Epochs(1), 1, 0.1));
    let e = r.unwrap_err();
    assert_eq!(e.kind(), ErrorKind::ZeroSizedBuffer);
    assert_eq!(e.annotation(), Annotation::SampleValidation);
}

#[test]
fn mentor_rejects_misshapen_samples() {
    let top = Topology::input(2).output(1, Activation::Identity);
    let net = NeuralNet::from_topology(&top);
    let samples = vec![Sample::new(bv(&[1.0]), bv(&[1.0])).unwrap()];
    let r = Mentor::new(net, samples, config(Criterion::Epochs(1), 1, 0.1));
    let e = r.unwrap_err();
    assert_eq!(e.kind(), ErrorKind::UnmatchingBufferSizes { lhs: 2, rhs: 1 });
    assert_eq!(e.annotation(), Annotation::SampleValidation);

    let top = Topology::input(1).output(2, Activation::Identity);
    let net = NeuralNet::from_topology(&top);
    let samples = vec![Sample::new(bv(&[1.0]), bv(&[1.0])).unwrap()];
    let r = Mentor::new(net, samples, config(Criterion::Epochs(1), 1, 0.1));
    assert_eq!(
        r.unwrap_err().kind(),
        ErrorKind::UnmatchingBufferSizes { lhs: 2, rhs: 1 }
    );
}

#[test]
fn sample_rejects_empty_vectors() {
    let e = Sample::new(vec![], bv(&[1.0])).unwrap_err();
    assert_eq!(e.kind(), ErrorKind::ZeroSizedBuffer);
    assert_eq!(e.annotation(), Annotation::SampleValidation);
    assert!(Sample::new(bv(&[1.0]), vec![]).is_err());
}

#[test]
fn rng_is_deterministic_and_bounded() {
    let mut a = XorShift64::new(7);
    let mut c = XorShift64::new(7);
    for _ in 0..10 {
        assert_eq!(a.next(), c.next());
    }
    let mut r = XorShift64::new(9);
    for _ in 0..100 {
        let v = r.next_below(13);
        assert!(v < 13);
        let w = f32::from_bits(r.next_weight());
        assert!((-0.5..=0.5).contains(&w));
    }
}

#[test]
fn epoch_batching_applies_deltas_once() {
    let top = Topology::input(1).output(1, Activation::Identity);
    let mut net = NeuralNet::from_topology(&top);
    net.set_weights(0, vec![bv(&[1.0, 0.0])]).unwrap();
    let samples = vec![
        Sample::new(bv(&[2.0]), bv(&[5.0])).unwrap(),
        Sample::new(bv(&[1.0]), bv(&[1.0])).unwrap(),
    ];
    let mut cfg = config(Criterion::Epochs(1), 1, 0.5);
    cfg.batching = Batching::Epoch;
    let mut mentor = Mentor::new(net, samples, cfg).unwrap();
    let mse = mentor.train_epoch();
    assert_eq!(mse, b(4.5));
    let mut net = mentor.into_net();
    let input = prophet::buffer::UnbiasedSignalBuffer::from_raw(bv(&[2.0])).unwrap();
    assert_eq!(net.predict(&input).get(0), b(9.5));
}
