use prophet::activation::Activation::{Identity, Logistic, ReLU, Tanh};
use prophet::topology::{Layer, Topology};

#[test]
fn construction() {
    let dis = Topology::input(2)
        .layer(5, Logistic)
        .layers(&vec![(10, Identity), (10, ReLU)])
        .output(5, Tanh);
    let mut it = dis.iter_layers().iter().map(|&size| size);
    assert_eq!(it.next(), Some(Layer::new(2, 5, Logistic)));
    assert_eq!(it.next(), Some(Layer::new(5, 10, Identity)));
    assert_eq!(it.next(), Some(Layer::new(10, 10, ReLU)));
    assert_eq!(it.next(), Some(Layer::new(10, 5, Tanh)));
    assert_eq!(it.next(), None);
}

#[test]
fn input_and_output_sizes() {
    let top = Topology::input(3).layer(4, Tanh).output(2, Logistic);
    assert_eq!(top.len_input(), 3);
    assert_eq!(top.len_output(), 2);
    assert_eq!(top.iter_layers().len(), 2);
}
