use prophet::buffer::{
    BiasedErrorSignalBuffer, BiasedSignalBuffer, UnbiasedErrorSignalBuffer, UnbiasedSignalBuffer,
};
use prophet::errors::Error;

fn b(x: f32) -> u32 {
    x.to_bits()
}

fn bv(xs: &[f32]) -> Vec<u32> {
    xs.iter().map(|x| x.to_bits()).collect()
}

#[test]
fn partial_eq_true() {
    {
        let two_vals: Vec<f32> = vec![1.0, 2.0];
        let three_vals: Vec<f32> = vec![1.0, 2.0, 3.0];
        let three = UnbiasedSignalBuffer::from_raw(bv(&three_vals)).unwrap();
        let same_as_three = UnbiasedSignalBuffer::from_raw(bv(&three_vals)).unwrap();
        let just_two = UnbiasedSignalBuffer::from_raw(bv(&two_vals)).unwrap();
        let same_as_just_two = UnbiasedSignalBuffer::from_raw(bv(&two_vals)).unwrap();
        assert_eq!(three, same_as_three);
        assert_eq!(same_as_three, three);
        assert_eq!(just_two, same_as_just_two);
        assert_eq!(same_as_just_two, just_two);
        assert_ne!(three, just_two);
        assert_ne!(just_two, three);
    }
    {
        let two_vals: Vec<f32> = vec![1.0, 2.0];
        let three_vals: Vec<f32> = vec![1.0, 2.0, 3.0];
        let three = UnbiasedErrorSignalBuffer::from_raw(bv(&three_vals)).unwrap();
        let same_as_three = UnbiasedErrorSignalBuffer::from_raw(bv(&three_vals)).unwrap();
        let just_two = UnbiasedErrorSignalBuffer::from_raw(bv(&two_vals)).unwrap();
        let same_as_just_two = UnbiasedErrorSignalBuffer::from_raw(bv(&two_vals)).unwrap();
        assert_eq!(three, same_as_three);
        assert_eq!(same_as_three, three);
        assert_eq!(just_two, same_as_just_two);
        assert_eq!(same_as_just_two, just_two);
        assert_ne!(three, just_two);
        assert_ne!(just_two, three);
    }
}

#[test]
fn from_raw_with_bias_ok() {
    {
        let vec = vec![1.0f32, 2.0, 1.0];
        let actual = BiasedSignalBuffer::from_raw_with_bias(bv(&vec)).unwrap();
        assert_eq!(actual.data().clone(), bv(&vec));
        let expected = BiasedSignalBuffer::from_raw_with_bias(bv(&vec)).unwrap();
        assert_eq!(actual, expected);
    }
    {
        let vec = vec![1.0f32, 2.0, 0.0];
        let actual = BiasedErrorSignalBuffer::from_raw_with_bias(bv(&vec)).unwrap();
        assert_eq!(actual.data().clone(), bv(&vec));
        let expected = BiasedErrorSignalBuffer::from_raw_with_bias(bv(&vec)).unwrap();
        assert_eq!(actual, expected);
    }
}

#[test]
fn from_raw_with_bias_fail() {
    {
        let actual = BiasedSignalBuffer::from_raw_with_bias(vec![]);
        let expected = Err(Error::attempt_to_create_zero_sized_buffer());
        assert_eq!(actual, expected);
        let actual = BiasedSignalBuffer::from_raw_with_bias(bv(&[42.0]));
        let expected = Err(Error::too_few_values_provided_for_buffer_creation(2, 1));
        assert_eq!(actual, expected);
        let actual = BiasedSignalBuffer::from_raw_with_bias(bv(&[1.0, 42.0]));
        let expected = Err(Error::unmatching_user_provided_bias_value(b(1.0), b(42.0)));
        assert_eq!(actual, expected);
    }
    {
        let actual = BiasedErrorSignalBuffer::from_raw_with_bias(vec![]);
        let expected = Err(Error::attempt_to_create_zero_sized_buffer());
        assert_eq!(actual, expected);
        let actual = BiasedErrorSignalBuffer::from_raw_with_bias(bv(&[42.0]));
        let expected = Err(Error::too_few_values_provided_for_buffer_creation(2, 1));
        assert_eq!(actual, expected);
        let actual = BiasedErrorSignalBuffer::from_raw_with_bias(bv(&[1.0, 42.0]));
        let expected = Err(Error::unmatching_user_provided_bias_value(b(0.0), b(42.0)));
        assert_eq!(actual, expected);
    }
}

#[test]
fn from_raw_ok() {
    {
        let vec = vec![1.0f32, 2.0, 3.0];
        let actual = UnbiasedSignalBuffer::from_raw(bv(&vec)).unwrap();
        assert_eq!(actual.data().clone(), bv(&vec));
        let expected = UnbiasedSignalBuffer::from_raw(bv(&vec)).unwrap();
        assert_eq!(actual, expected);
    }
    {
        let vec = vec![1.0f32, 2.0, 3.0];
        let actual = UnbiasedErrorSignalBuffer::from_raw(bv(&vec)).unwrap();
        assert_eq!(actual.data().clone(), bv(&vec));
        let expected = UnbiasedErrorSignalBuffer::from_raw(bv(&vec)).unwrap();
        assert_eq!(actual, expected);
    }
}

#[test]
fn from_raw_fail() {
    {
        let actual = UnbiasedSignalBuffer::from_raw(vec![]);
        let expected = Err(Error::attempt_to_create_zero_sized_buffer());
        assert_eq!(actual, expected);
    }
    {
        let actual = UnbiasedErrorSignalBuffer::from_raw(vec![]);
        let expected = Err(Error::attempt_to_create_zero_sized_buffer());
        assert_eq!(actual, expected);
    }
}

#[test]
fn zeros_ok_and_fail() {
    let z = UnbiasedSignalBuffer::zeros(4).unwrap();
    assert_eq!(z.dim(), 4);
    assert_eq!(z.data().clone(), bv(&[0.0, 0.0, 0.0, 0.0]));
    let fail = UnbiasedSignalBuffer::zeros(0);
    assert_eq!(fail, Err(Error::attempt_to_create_zero_sized_buffer()));
}

#[test]
fn zeros_with_bias_ok_and_fail() {
    let z = BiasedSignalBuffer::zeros_with_bias(3).unwrap();
    assert_eq!(z.dim(), 4);
    assert_eq!(z.data().clone(), bv(&[0.0, 0.0, 0.0, 1.0]));
    let e = BiasedErrorSignalBuffer::zeros_with_bias(2).unwrap();
    assert_eq!(e.dim(), 3);
    assert_eq!(e.data().clone(), bv(&[0.0, 0.0, 0.0]));
    let fail = BiasedSignalBuffer::zeros_with_bias(0);
    assert_eq!(fail, Err(Error::attempt_to_create_zero_sized_buffer()));
}

#[test]
fn assign_ok() {
    let mut dst = UnbiasedSignalBuffer::zeros(3).unwrap();
    let src = UnbiasedSignalBuffer::from_raw(bv(&[1.5, -2.25, 0.125])).unwrap();
    assert_eq!(dst.assign(&src), Ok(()));
    assert_eq!(dst.data().clone(), bv(&[1.5, -2.25, 0.125]));
    assert_eq!(dst, src);
}

#[test]
fn assign_fail() {
    let mut dst = UnbiasedSignalBuffer::from_raw(bv(&[7.0, 8.0])).unwrap();
    let src = UnbiasedSignalBuffer::from_raw(bv(&[1.0, 2.0, 3.0])).unwrap();
    let r = dst.assign(&src);
    assert!(r.is_err());
    let e = r.unwrap_err();
    assert_eq!(
        e.kind(),
        prophet::errors::ErrorKind::UnmatchingBufferSizes { lhs: 2, rhs: 3 }
    );
    assert_eq!(e.annotation(), prophet::errors::Annotation::UnbiasedBufferAssign);
    assert_eq!(dst.data().clone(), bv(&[7.0, 8.0]));
    assert_eq!(src.data().clone(), bv(&[1.0, 2.0, 3.0]));
}

#[test]
fn unbias_roundtrip() {
    let raw = bv(&[7.25, -3.5, 1.0]);
    let buf = BiasedSignalBuffer::from_raw_with_bias(raw).unwrap();
    let unb = buf.unbias();
    assert_eq!(unb.dim(), 2);
    assert_eq!(unb.data().clone(), bv(&[7.25, -3.5]));
}

#[test]
fn reset_to_zeros() {
    let mut buf = BiasedErrorSignalBuffer::from_raw_with_bias(bv(&[4.0, -9.5, 0.0])).unwrap();
    buf.reset_to_zeros();
    assert_eq!(buf.dim(), 3);
    assert_eq!(buf.data().clone(), bv(&[0.0, 0.0, 0.0]));
}

#[test]
fn negative_zero_matches_error_bias() {
    let buf = BiasedErrorSignalBuffer::from_raw_with_bias(bv(&[2.0, -0.0])).unwrap();
    assert_eq!(buf.dim(), 2);
    let plain = UnbiasedSignalBuffer::from_raw(bv(&[0.0])).unwrap();
    let negz = UnbiasedSignalBuffer::from_raw(bv(&[-0.0])).unwrap();
    assert_eq!(plain, negz);
}

#[test]
fn nan_buffers_are_unequal() {
    let a = UnbiasedSignalBuffer::from_raw(vec![f32::NAN.to_bits()]).unwrap();
    let c = UnbiasedSignalBuffer::from_raw(vec![f32::NAN.to_bits()]).unwrap();
    assert_ne!(a, c);
    let fail = BiasedSignalBuffer::from_raw_with_bias(vec![b(1.0), f32::NAN.to_bits()]);
    assert!(fail.is_err());
}

#[test]
fn view_is_identical_copy() {
    let buf = UnbiasedSignalBuffer::from_raw(bv(&[1.0, 2.0])).unwrap();
    let copy = buf.view();
    assert_eq!(copy, buf);
    assert_eq!(copy.dim(), 2);
}
