use tensorbuf::{
    copy_route, from_dev_slice, to_dev_vec, CopyRoute, Error, HostBuffer, Interop, Location, One,
    QueueId, Zero,
};

#[test]
fn host_buffer_filled() {
    let b = HostBuffer::new_filled(4, 9i32);
    assert_eq!(b.len(), 4);
    assert_eq!(b.as_slice(), [9, 9, 9, 9]);
}

#[test]
fn host_buffer_empty() {
    let b = HostBuffer::new_filled(0, 1u8);
    assert_eq!(b.len(), 0);
    let mut dst: Vec<u8> = Vec::new();
    assert!(b.load(dst.as_mut_slice()).is_ok());
}

#[test]
fn host_buffer_store_load_round_trip() {
    let mut b = HostBuffer::new_uninit(5);
    let src = [3i64, -1, 4, -1, 5];
    b.store(&src).unwrap();
    let mut dst = [0i64; 5];
    b.load(&mut dst).unwrap();
    assert_eq!(dst, src);
}

#[test]
fn host_buffer_length_mismatch() {
    let mut b = HostBuffer::new_filled(3, 0u32);
    assert!(matches!(b.store(&[1, 2]), Err(Error::LengthMismatch(3, 2))));
    let mut dst = [0u32; 4];
    assert!(matches!(b.load(&mut dst), Err(Error::LengthMismatch(4, 3))));
}

#[test]
fn host_buffer_copy_between() {
    let src = HostBuffer::from_vec(vec![1u16, 2, 3]);
    let mut dst = HostBuffer::new_filled(3, 0u16);
    dst.copy_from(&src).unwrap();
    assert_eq!(dst.as_slice(), [1, 2, 3]);

    let mut other = HostBuffer::new_filled(3, 0u16);
    src.copy_to(&mut other).unwrap();
    assert_eq!(other.as_slice(), [1, 2, 3]);

    let mut short = HostBuffer::new_filled(2, 0u16);
    assert!(matches!(short.copy_from(&src), Err(Error::LengthMismatch(2, 3))));
}

#[test]
fn host_buffer_duplicate_is_independent() {
    let a = HostBuffer::from_vec(vec![1i8, 2, 3]);
    let mut b = a.duplicate();
    b.as_mut_slice()[0] = 7;
    assert_eq!(a.as_slice(), [1, 2, 3]);
    assert_eq!(b.as_slice(), [7, 2, 3]);
}

#[test]
fn location_equality_by_queue() {
    let q1 = QueueId { raw: 0x1000 };
    let q1_again = QueueId { raw: 0x1000 };
    let q2 = QueueId { raw: 0x2000 };
    assert_eq!(Location::Device(q1), Location::Device(q1_again));
    assert_ne!(Location::Device(q1), Location::Device(q2));
    assert_ne!(Location::Host, Location::Device(q1));
    assert_eq!(Location::Host, Location::Host);
    assert!(Location::eq_queue(&q1, &q1_again));
    assert!(!Location::eq_queue(&q1, &q2));
}

#[test]
fn copy_routes() {
    let q1 = Location::Device(QueueId { raw: 1 });
    let q2 = Location::Device(QueueId { raw: 2 });
    assert_eq!(copy_route(&Location::Host, &Location::Host), CopyRoute::Memory);
    assert_eq!(copy_route(&q1, &q1), CopyRoute::InQueue);
    assert_eq!(copy_route(&q1, &q2), CopyRoute::Staged);
    assert_eq!(copy_route(&q1, &Location::Host), CopyRoute::Upload);
    assert_eq!(copy_route(&Location::Host, &q2), CopyRoute::Download);
}

#[test]
fn bool_codec() {
    assert_eq!(true.to_dev(), 0xFF);
    assert_eq!(false.to_dev(), 0x00);
    assert!(bool::from_dev(0x01));
    assert!(!bool::from_dev(0));
    assert_eq!(bool::from_dev(true.to_dev()), true);
}

#[test]
fn size_codecs() {
    assert_eq!(123usize.to_dev(), 123u32);
    assert_eq!(usize::from_dev(7u32), 7usize);
    assert_eq!((-5isize).to_dev(), -5i32);
    assert_eq!(isize::from_dev(-9i32), -9isize);
    assert_eq!(usize::from_dev(40000usize.to_dev()), 40000);
}

#[test]
fn ident_codec() {
    assert_eq!(77i16.to_dev(), 77i16);
    assert_eq!(u64::from_dev(5), 5u64);
}

#[test]
fn bulk_codec_round_trip() {
    let src = [true, false, false, true];
    let dev = to_dev_vec(&src);
    assert_eq!(dev, vec![0xFF, 0x00, 0x00, 0xFF]);
    let mut back = [false; 4];
    from_dev_slice(&mut back, dev.as_slice()).unwrap();
    assert_eq!(back, src);
}

#[test]
fn bulk_codec_length_mismatch() {
    let mut dst = [0usize; 2];
    let r = from_dev_slice(&mut dst, &[1u32, 2, 3]);
    assert!(matches!(r, Err(Error::LengthMismatch(2, 3))));
    assert_eq!(dst, [0, 0]);
}

#[test]
fn identities() {
    assert_eq!(<i32 as Zero>::zero(), 0);
    assert_eq!(<i32 as One>::one(), 1);
    assert_eq!(<u8 as One>::one(), 1);
    assert!(!<bool as Zero>::zero());
    assert!(!<bool as One>::one());
}

#[test]
fn ident_bulk_codec_passes_values_through() {
    let src = [i32::MIN, -1, 0, 1, i32::MAX];
    let dev = to_dev_vec(&src);
    assert_eq!(dev, src.to_vec());
    let mut back = [0i32; 5];
    from_dev_slice(&mut back, dev.as_slice()).unwrap();
    assert_eq!(back, src);
}

#[test]
fn size_codec_round_trip_when_representable() {
    let src = [0usize, 1, u32::MAX as usize];
    let dev = to_dev_vec(&src);
    assert_eq!(dev, vec![0u32, 1, u32::MAX]);
    let mut back = [7usize; 3];
    from_dev_slice(&mut back, dev.as_slice()).unwrap();
    assert_eq!(back, src);
}
