use tensorbuf::Shape;

fn shape_of(sizes: &[usize]) -> Shape {
    Shape::from(sizes)
}

#[test]
fn from() {
    let shape = Shape::from([1, 2, 3].as_ref());
    assert_eq!(shape.as_slice(), [1, 2, 3]);
}

#[test]
fn from_vec_keeps_sizes() {
    let shape = Shape::from(vec![4, 3, 2]);
    assert_eq!(shape.as_slice(), [4, 3, 2]);
    assert_eq!(shape.len(), 3);
}

#[test]
fn trim() {
    let shape = shape_of(&[1, 2, 1, 3, 1, 1]);
    assert_eq!(shape.len(), 4);
    assert_eq!(shape, shape_of(&[1, 2, 1, 3]));
}

#[test]
fn eq() {
    assert_eq!(shape_of(&[1, 2, 1, 3, 1]), shape_of(&[1, 2, 1, 3]));
}

#[test]
fn ne_on_different_axes() {
    assert_ne!(shape_of(&[1, 2, 1, 3]), shape_of(&[1, 2, 3]));
    assert_ne!(shape_of(&[2]), shape_of(&[]));
}

#[test]
fn index() {
    let mut shape = shape_of(&[1, 2, 1, 3, 1]);

    assert_eq!(shape[1], 2);
    assert_eq!(shape[5], 1);
    assert_eq!(shape, shape_of(&[1, 2, 1, 3]));

    shape.set(5, 1);
    assert_eq!(shape, shape_of(&[1, 2, 1, 3]));

    shape.set(5, 4);
    assert_eq!(shape, shape_of(&[1, 2, 1, 3, 1, 4]));
}

#[test]
fn get_past_the_end_is_one() {
    let shape = shape_of(&[1, 2, 1, 3, 1]);
    assert_eq!(shape.get(1), 2);
    assert_eq!(shape.get(4), 1);
    assert_eq!(shape.get(5), 1);
    assert_eq!(shape.get(1000), 1);
}

#[test]
fn set_inside_and_trailing_one() {
    let mut shape = shape_of(&[4, 3, 2]);
    shape.set(1, 7);
    assert_eq!(shape.as_slice(), [4, 7, 2]);
    shape.set(2, 1);
    assert_eq!(shape.as_slice(), [4, 7]);
    assert_eq!(shape.len(), 2);
}

#[test]
fn shape_iter() {
    let mut shape = shape_of(&[1, 2, 1]);

    let mut iter = shape.iter();
    assert_eq!(iter.next(), Some(&1));
    assert_eq!(iter.next(), Some(&2));
    assert_eq!(iter.next(), None);

    let sizes = shape.as_mut_slice();
    sizes[0] = 3;
    assert_eq!(shape, shape_of(&[3, 2, 1]));
}

#[test]
fn slice() {
    let shape = shape_of(&[1, 2, 1, 3, 1]);

    assert_eq!(shape.slice(0, usize::MAX), shape);
    assert_eq!(shape.slice(0, 3), shape_of(&[1, 2]));
    assert_eq!(shape.slice(1, 4), shape_of(&[2, 1, 3]));
    assert_eq!(shape.slice(2, 5), shape_of(&[1, 3]));
    assert_eq!(shape.slice(5, 10), shape_of(&[]));
    assert_eq!(shape.slice(5, usize::MAX), shape_of(&[]));
}

#[test]
fn slice_reversed_range_is_empty() {
    let shape = shape_of(&[4, 3, 2]);
    assert_eq!(shape.slice(2, 1), shape_of(&[]));
    assert_eq!(shape.slice(1, 1).len(), 0);
}

#[test]
fn content_is_product() {
    assert_eq!(shape_of(&[4, 3, 2]).content(), 24);
    assert_eq!(shape_of(&[4, 3, 2, 1, 1]).content(), 24);
    assert_eq!(shape_of(&[]).content(), 1);
    assert_eq!(shape_of(&[1, 1]).content(), 1);
    assert_eq!(shape_of(&[5, 0, 7]).content(), 0);
}

#[test]
fn checked_content_overflow() {
    assert_eq!(shape_of(&[usize::MAX, 2]).checked_content(), None);
    assert_eq!(shape_of(&[usize::MAX, 2, 0]).checked_content(), Some(0));
    assert_eq!(shape_of(&[2, 3]).checked_content(), Some(6));
}

#[test]
fn into_vec_trims() {
    assert_eq!(shape_of(&[4, 1, 3, 1, 1]).into_vec(), vec![4, 1, 3]);
}

#[test]
fn empty_shape_is_scalar() {
    let shape = shape_of(&[1, 1, 1]);
    assert_eq!(shape.len(), 0);
    assert_eq!(shape, shape_of(&[]));
    assert_eq!(shape.as_slice().len(), 0);
}
