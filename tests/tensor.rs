use std::rc::Rc;

use tensorbuf::{Buffer, Error, HostBuffer, HostTensor, Shape};

fn shape_of(sizes: &[usize]) -> Shape {
    Shape::from(sizes)
}

#[test]
fn tensor_new_filled() {
    let value: i32 = -123;
    let a = HostTensor::new_filled(&shape_of(&[4, 3, 2]), value);

    let mut v = Vec::new();
    v.resize(24, 0);
    a.load(v.as_mut_slice()).unwrap();

    assert!(v.iter().all(|&x| x == value));
}

#[test]
fn tensor_new_zeroed() {
    let a = HostTensor::new_zeroed(&shape_of(&[4, 3, 2]));

    let mut v = Vec::new();
    v.resize(24, -1);
    a.load(v.as_mut_slice()).unwrap();

    assert!(v.iter().all(|&x| x == 0));
}

#[test]
fn tests_new_filled() {
    let value: i32 = -123;
    let a = HostTensor::new_filled(&Shape::from([4, 3, 2].as_ref()), value);

    let mut v = Vec::new();
    v.resize(24, 0);
    a.load(v.as_mut_slice()).unwrap();

    assert!(v.iter().all(|&x| x == value));
}

#[test]
fn tests_new_zeroed() {
    let a = HostTensor::new_zeroed(&Shape::from([4, 3, 2].as_ref()));

    let mut v = Vec::new();
    v.resize(24, -1);
    a.load(v.as_mut_slice()).unwrap();

    assert!(v.iter().all(|&x| x == 0));
}

#[test]
fn tests_iter() {
    let mut a = HostTensor::new_zeroed(&Shape::from([1, 2, 3, 4].as_ref()));
    let mut content = Vec::new();
    for i in 0..(2 * 3 * 4) {
        content.push(i);
    }
    a.store(content.as_slice()).unwrap();

    let mut it = a.iter();
    let mut i = 0;
    while let Some(v) = it.next() {
        assert_eq!(*v, i);
        i += 1;
    }
    assert_eq!(i, 24);
}

#[test]
fn test_new_filled() {
    let value: i32 = -123;
    let a = HostTensor::new_filled(&Shape::from([4, 3, 2].as_ref()), value);

    let mut v = Vec::new();
    v.resize(24, 0);
    a.load(v.as_mut_slice()).unwrap();

    assert!(v.iter().all(|&x| x == value));
}

#[test]
fn test_new_zeroed() {
    let a = HostTensor::new_zeroed(&Shape::from([4, 3, 2].as_ref()));

    let mut v = Vec::new();
    v.resize(24, -1);
    a.load(v.as_mut_slice()).unwrap();

    assert!(v.iter().all(|&x| x == 0));
}

#[test]
fn test_iter() {
    let mut a = HostTensor::new_zeroed(&Shape::from([1, 2, 3, 4].as_ref()));
    let mut content: Vec<usize> = Vec::new();
    for i in 0..(2 * 3 * 4) {
        content.push(i);
    }
    a.store(content.as_slice()).unwrap();

    let mut it = a.iter();
    let mut i = 0;
    while let Some(v) = it.next() {
        assert_eq!(*v, i);
        i += 1;
    }
}

#[test]
fn zeroed_bool_is_false() {
    let a = HostTensor::<bool>::new_zeroed(&shape_of(&[3, 2]));
    let mut v = vec![true; 6];
    a.load(v.as_mut_slice()).unwrap();
    assert_eq!(v, vec![false; 6]);
}

#[test]
fn flattening_order_axis_zero_fastest() {
    let mut a = HostTensor::new_zeroed(&shape_of(&[2, 3, 4]));
    let content: Vec<u32> = (0..24).collect();
    a.store(content.as_slice()).unwrap();

    let mut seen = Vec::new();
    let mut it = a.iter();
    while let Some(v) = it.next() {
        seen.push(*v);
    }
    assert_eq!(seen, content);
    assert_eq!(it.next(), None);
}

#[test]
fn iter_over_empty_content_yields_nothing() {
    let a = HostTensor::<i64>::new_zeroed(&shape_of(&[3, 0, 2]));
    let mut it = a.iter();
    assert_eq!(it.next(), None);
    assert_eq!(it.next(), None);
}

#[test]
fn iter_over_scalar_yields_one() {
    let a = HostTensor::new_filled(&shape_of(&[]), 7u8);
    let mut it = a.iter();
    assert_eq!(it.next(), Some(&7));
    assert_eq!(it.next(), None);
}

#[test]
fn reshape_shares_content() {
    let mut a = HostTensor::new_zeroed(&shape_of(&[4, 3, 2]));
    let content: Vec<i16> = (0..24).collect();
    a.store(content.as_slice()).unwrap();

    let b = a.reshape(&shape_of(&[6, 4])).unwrap();
    assert_eq!(b.shape(), &shape_of(&[6, 4]));

    let mut from_a = vec![0; 24];
    let mut from_b = vec![0; 24];
    a.load(from_a.as_mut_slice()).unwrap();
    b.load(from_b.as_mut_slice()).unwrap();
    assert_eq!(from_a, from_b);
}

#[test]
fn reshape_mismatch_fails() {
    let a = HostTensor::<i32>::new_zeroed(&shape_of(&[4, 3, 2]));
    let r = a.reshape(&shape_of(&[5, 5]));
    assert!(matches!(r, Err(Error::ShapeMismatch(_))));
}

#[test]
fn copy_on_write_store_on_reshaped() {
    let a = HostTensor::new_filled(&shape_of(&[2, 3]), 1i32);
    let mut b = a.reshape(a.shape()).unwrap();

    b.store(&[9, 8, 7, 6, 5, 4]).unwrap();

    let mut from_a = vec![0; 6];
    let mut from_b = vec![0; 6];
    a.load(from_a.as_mut_slice()).unwrap();
    b.load(from_b.as_mut_slice()).unwrap();
    assert_eq!(from_a, vec![1; 6]);
    assert_eq!(from_b, vec![9, 8, 7, 6, 5, 4]);
}

#[test]
fn copy_on_write_store_on_first_owner() {
    let mut a = HostTensor::new_filled(&shape_of(&[2, 3]), 1i32);
    let b = a.reshape(a.shape()).unwrap();

    a.store(&[9, 8, 7, 6, 5, 4]).unwrap();

    let mut from_b = vec![0; 6];
    b.load(from_b.as_mut_slice()).unwrap();
    assert_eq!(from_b, vec![1; 6]);
    assert_eq!(a.as_slice(), [9, 8, 7, 6, 5, 4]);
}

#[test]
fn store_then_load_round_trip() {
    let mut a = HostTensor::new_zeroed(&shape_of(&[3, 3]));
    let src: Vec<u64> = vec![5, 1, 4, 1, 5, 9, 2, 6, 5];
    a.store(src.as_slice()).unwrap();
    let mut dst = vec![0u64; 9];
    a.load(dst.as_mut_slice()).unwrap();
    assert_eq!(dst, src);
}

#[test]
fn tensor_load_length_mismatch() {
    let a = HostTensor::new_filled(&shape_of(&[2, 2]), 3u16);
    let mut dst = vec![0u16; 5];
    let r = a.load(dst.as_mut_slice());
    assert!(matches!(r, Err(Error::LengthMismatch(5, 4))));
    assert_eq!(dst, vec![0u16; 5]);
}

#[test]
fn tensor_store_length_mismatch() {
    let mut a = HostTensor::new_filled(&shape_of(&[2, 2]), 3u16);
    let r = a.store(&[1, 2, 3]);
    assert!(matches!(r, Err(Error::LengthMismatch(4, 3))));
    assert_eq!(a.as_slice(), [3, 3, 3, 3]);
}

#[test]
fn from_buffer_checks_length() {
    let ok = HostTensor::from_buffer(HostBuffer::new_filled(6, 2i8), &shape_of(&[3, 2]));
    assert!(ok.is_ok());
    let bad = HostTensor::from_buffer(HostBuffer::new_filled(5, 2i8), &shape_of(&[3, 2]));
    assert!(matches!(bad, Err(Error::ShapeMismatch(_))));
}

#[test]
fn uninit_has_shape_length() {
    let a = HostTensor::<u8>::new_uninit(&shape_of(&[5, 2]));
    assert_eq!(a.as_slice().len(), 10);
    assert_eq!(a.shape(), &shape_of(&[5, 2]));
}

#[test]
fn common_constructors_in_host_context() {
    let a = HostTensor::<i32>::new_filled_in(&(), &shape_of(&[2, 2]), 5).unwrap();
    assert_eq!(a.as_slice(), [5, 5, 5, 5]);
    let z = HostTensor::<u16>::new_zeroed_in(&(), &shape_of(&[3])).unwrap();
    assert_eq!(z.as_slice(), [0, 0, 0]);
    let u = HostTensor::<u8>::new_uninit_in(&(), &shape_of(&[2, 3])).unwrap();
    assert_eq!(u.buffer().len(), 6);
}

#[test]
fn common_constructor_overflowing_shape() {
    let r = HostTensor::<u8>::new_filled_in(&(), &shape_of(&[usize::MAX, 3]), 1);
    assert!(matches!(r, Err(Error::ShapeMismatch(_))));
}

#[test]
fn from_shared_buffer_shares() {
    let shared = Rc::new(HostBuffer::from_vec(vec![1i32, 2, 3, 4, 5, 6]));
    let a = HostTensor::from_shared_buffer(shared.clone(), &shape_of(&[2, 3])).unwrap();
    let mut b = HostTensor::from_shared_buffer(shared.clone(), &shape_of(&[6])).unwrap();
    b.store(&[0, 0, 0, 0, 0, 0]).unwrap();
    assert_eq!(a.as_slice(), [1, 2, 3, 4, 5, 6]);
    assert_eq!(shared.as_slice(), [1, 2, 3, 4, 5, 6]);
    assert_eq!(b.as_slice(), [0, 0, 0, 0, 0, 0]);
    let bad = HostTensor::from_shared_buffer(shared, &shape_of(&[4]));
    assert!(matches!(bad, Err(Error::ShapeMismatch(_))));
}
