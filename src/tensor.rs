use std::marker::PhantomData;
use std::rc::Rc;

use vstd::prelude::*;

use crate::buffer::{Buffer, HostBuffer};
use crate::error::Error;
use crate::num::Prm;
use crate::position::PositionCounter;
use crate::shape::{content_of, Shape};

verus! {

/// Index range along one axis, for slicing a tensor.
///
/// Both `start` and `end` may be negative, which counts from the end of the
/// axis (`-1` is its last element).
#[derive(Clone, Copy, Debug)]
pub struct Range {
    /// The inclusive start of the range.
    pub start: isize,
    /// The exclusive end of the range.
    pub end: isize,
    /// Step between elements; negative steps walk backwards. It must not be
    /// zero.
    pub step: isize,
}

/// Index along one axis, for slicing a tensor.
#[derive(Clone, Copy, Debug)]
pub enum Index {
    /// A single index: takes one section and removes the axis.
    Single(isize),
    /// A range with a step: takes the sections it covers and keeps the axis.
    Range(Range),
    /// Inserts a new axis of size `1`.
    NewAxis,
}

/// Tensor: a shape and a buffer of its elements, flattened with axis `0`
/// fastest.
///
/// Tensors made by `reshape` share their buffer; a tensor that writes to a
/// shared buffer first takes a copy of its own (copy-on-write), so a write
/// is seen by the writing tensor alone.
pub struct CommonTensor<T: Prm, B: Buffer<T>> {
    // Always `Some` between calls: `store` takes the buffer out to reclaim
    // it when it is not shared, or to copy it when it is.
    buffer: Option<Rc<B>>,
    shape: Shape,
    phantom: PhantomData<T>,
}

/// Tensor whose elements are in host memory.
pub type HostTensor<T> = CommonTensor<T, HostBuffer<T>>;

/// Error for a shape whose element count does not fit the buffer.
fn shape_mismatch() -> (r: Error)
    ensures
        r is ShapeMismatch,
{
    Error::ShapeMismatch("element count of the shape differs from the buffer length".to_owned())
}

impl<T: Prm, B: Buffer<T>> CommonTensor<T, B> {
    /// Significant axes of the tensor's shape.
    pub closed spec fn dims(&self) -> Seq<usize> {
        self.shape@
    }

    /// The elements, flattened.
    pub closed spec fn data(&self) -> Seq<T> {
        (*self.buffer.unwrap()).content()
    }

    /// The buffer holds exactly as many elements as the shape describes.
    pub closed spec fn wf(&self) -> bool {
        &&& self.buffer is Some
        &&& self.data().len() == content_of(self.shape@)
        &&& content_of(self.shape@) <= usize::MAX
    }

    /// Tensor of shape `shape` over a buffer that other tensors may share;
    /// the buffer's length must be the shape's element count.
    pub fn from_shared_buffer(rc_buffer: Rc<B>, shape: &Shape) -> (r: Result<Self, Error>)
        ensures
            ((*rc_buffer).content().len() == content_of(shape@)) <==> r is Ok,
            r matches Ok(t) ==> t.wf() && t.dims() == shape@ && t.data() == (
            *rc_buffer).content(),
            r matches Err(e) ==> e is ShapeMismatch,
    {
        let len = rc_buffer.len();
        match shape.checked_content() {
            Some(c) => {
                if c == len {
                    Ok(CommonTensor {
                        buffer: Some(rc_buffer),
                        shape: shape.duplicate(),
                        phantom: PhantomData,
                    })
                } else {
                    Err(shape_mismatch())
                }
            },
            None => Err(shape_mismatch()),
        }
    }

    /// Tensor of shape `shape` over `buffer`, whose length must be the
    /// shape's element count.
    pub fn from_buffer(buffer: B, shape: &Shape) -> (r: Result<Self, Error>)
        ensures
            (buffer.content().len() == content_of(shape@)) <==> r is Ok,
            r matches Ok(t) ==> t.wf() && t.dims() == shape@ && t.data() == buffer.content(),
            r matches Err(e) ==> e is ShapeMismatch,
    {
        Self::from_shared_buffer(Rc::new(buffer), shape)
    }

    /// Tensor of shape `shape` in `context` whose content is unspecified:
    /// every element is to be written before it is read.
    pub fn new_uninit_in(context: &B::Context, shape: &Shape) -> (r: Result<Self, Error>)
        ensures
            r matches Ok(t) ==> t.wf() && t.dims() == shape@,
            content_of(shape@) > usize::MAX ==> r is Err && r->Err_0 is ShapeMismatch,
            r matches Err(e) ==> e is ShapeMismatch || e is Backend,
            content_of(shape@) <= usize::MAX && B::infallible() ==> r is Ok,
    {
        match shape.checked_content() {
            Some(c) => match B::new_uninit_in(context, c) {
                Ok(buffer) => Self::from_buffer(buffer, shape),
                Err(e) => Err(e),
            },
            None => Err(shape_mismatch()),
        }
    }

    /// Tensor of shape `shape` in `context` with every element equal to
    /// `value`.
    pub fn new_filled_in(context: &B::Context, shape: &Shape, value: T) -> (r: Result<
        Self,
        Error,
    >)
        ensures
            r matches Ok(t) ==> t.wf() && t.dims() == shape@ && t.data() == Seq::new(
                content_of(shape@),
                |i: int| value,
            ),
            content_of(shape@) > usize::MAX ==> r is Err && r->Err_0 is ShapeMismatch,
            r matches Err(e) ==> e is ShapeMismatch || e is Backend,
            content_of(shape@) <= usize::MAX && B::infallible() ==> r is Ok,
    {
        match shape.checked_content() {
            Some(c) => match B::new_filled_in(context, c, value) {
                Ok(buffer) => Self::from_buffer(buffer, shape),
                Err(e) => Err(e),
            },
            None => Err(shape_mismatch()),
        }
    }

    /// Tensor of shape `shape` in `context` filled with zeros.
    pub fn new_zeroed_in(context: &B::Context, shape: &Shape) -> (r: Result<Self, Error>)
        ensures
            r matches Ok(t) ==> t.wf() && t.dims() == shape@ && t.data() == Seq::new(
                content_of(shape@),
                |i: int| T::spec_zero(),
            ),
            content_of(shape@) > usize::MAX ==> r is Err && r->Err_0 is ShapeMismatch,
            r matches Err(e) ==> e is ShapeMismatch || e is Backend,
            content_of(shape@) <= usize::MAX && B::infallible() ==> r is Ok,
    {
        Self::new_filled_in(context, shape, T::zero())
    }

    /// Shape of the tensor.
    pub fn shape(&self) -> (r: &Shape)
        ensures
            r@ == self.dims(),
    {
        &self.shape
    }

    /// The buffer of the tensor.
    pub fn buffer(&self) -> (r: &B)
        requires
            self.wf(),
        ensures
            r.content() == self.data(),
    {
        let rc = self.buffer.as_ref().unwrap();
        &**rc
    }

    /// A tensor of shape `shape` that shares this tensor's buffer, with no
    /// copy; fails where `shape` has another element count.
    pub fn reshape(&self, shape: &Shape) -> (r: Result<Self, Error>)
        requires
            self.wf(),
        ensures
            (content_of(shape@) == content_of(self.dims())) <==> r is Ok,
            r matches Ok(t) ==> t.wf() && t.dims() == shape@ && t.data() == self.data(),
            r matches Err(e) ==> e is ShapeMismatch,
    {
        match &self.buffer {
            Some(rc) => Self::from_shared_buffer(Rc::clone(rc), shape),
            None => Err(shape_mismatch()),
        }
    }

    /// Copies the flattened content into `dst`, which must have the
    /// tensor's element count.
    pub fn load(&self, dst: &mut [T]) -> (r: Result<(), Error>)
        requires
            self.wf(),
        ensures
            old(dst)@.len() != self.data().len() ==> final(dst)@ == old(dst)@ && r == Err::<
                (),
                Error,
            >(Error::LengthMismatch(old(dst)@.len() as usize, self.data().len() as usize)),
            r is Ok ==> final(dst)@ == self.data(),
            old(dst)@.len() == self.data().len() ==> (r is Ok || r->Err_0 is Backend),
            old(dst)@.len() == self.data().len() && B::infallible() ==> r is Ok,
    {
        self.buffer().load(dst)
    }

    /// Replaces the flattened content with `src`, which must have the
    /// tensor's element count. A buffer shared with other tensors is copied
    /// first, so that they keep their content.
    pub fn store(&mut self, src: &[T]) -> (r: Result<(), Error>)
        requires
            old(self).wf(),
        ensures
            final(self).wf(),
            final(self).dims() == old(self).dims(),
            src@.len() != old(self).data().len() ==> final(self).data() == old(self).data() && r
                == Err::<(), Error>(
                Error::LengthMismatch(old(self).data().len() as usize, src@.len() as usize),
            ),
            r is Ok ==> final(self).data() == src@,
            src@.len() == old(self).data().len() ==> (r is Ok || r->Err_0 is Backend),
            src@.len() == old(self).data().len() && B::infallible() ==> r is Ok,
    {
        let len = self.buffer().len();
        if src.len() != len {
            return Err(Error::LengthMismatch(len, src.len()));
        }
        let held = match self.buffer.take() {
            Some(rc) => rc,
            None => {
                proof {
                    assert(false);
                }
                return Err(shape_mismatch());
            },
        };
        let mut own = match Rc::try_unwrap(held) {
            Ok(sole) => sole,
            Err(shared) => match shared.duplicate() {
                Ok(copy) => copy,
                Err(e) => {
                    self.buffer = Some(shared);
                    return Err(e);
                },
            },
        };
        let r = own.store(src);
        self.buffer = Some(Rc::new(own));
        r
    }
}

impl<T: Prm> CommonTensor<T, HostBuffer<T>> {
    /// Host tensor of shape `shape` whose content is unspecified: every
    /// element is to be written before it is read.
    pub fn new_uninit(shape: &Shape) -> (r: Self)
        requires
            content_of(shape@) <= usize::MAX,
        ensures
            r.wf(),
            r.dims() == shape@,
    {
        let buffer = HostBuffer::new_uninit(shape.content());
        CommonTensor { buffer: Some(Rc::new(buffer)), shape: shape.duplicate(), phantom: PhantomData }
    }

    /// Host tensor of shape `shape` with every element equal to `value`.
    pub fn new_filled(shape: &Shape, value: T) -> (r: Self)
        requires
            content_of(shape@) <= usize::MAX,
        ensures
            r.wf(),
            r.dims() == shape@,
            r.data() == Seq::new(content_of(shape@), |i: int| value),
    {
        let buffer = HostBuffer::new_filled(shape.content(), value);
        CommonTensor { buffer: Some(Rc::new(buffer)), shape: shape.duplicate(), phantom: PhantomData }
    }

    /// Host tensor of shape `shape` filled with zeros.
    pub fn new_zeroed(shape: &Shape) -> (r: Self)
        requires
            content_of(shape@) <= usize::MAX,
        ensures
            r.wf(),
            r.dims() == shape@,
            r.data() == Seq::new(content_of(shape@), |i: int| T::spec_zero()),
    {
        Self::new_filled(shape, T::zero())
    }

    /// The flattened content.
    pub fn as_slice(&self) -> (r: &[T])
        requires
            self.wf(),
        ensures
            r@ == self.data(),
    {
        self.buffer().as_slice()
    }

    /// Iterator over the elements, in flattening order.
    pub fn iter(&self) -> (r: HostTensorIter<'_, T>)
        requires
            self.wf(),
        ensures
            r.wf(),
            r.data() == self.data(),
            r.emitted() == 0,
    {
        HostTensorIter {
            slice: self.buffer().as_slice(),
            counter: PositionCounter::new(self.shape.duplicate()),
        }
    }
}

/// Iterator over the elements of a host tensor. It walks through every
/// position of the shape, axis `0` fastest, and yields the element at each
/// position's flat offset.
pub struct HostTensorIter<'a, T: Prm> {
    slice: &'a [T],
    counter: PositionCounter,
}

impl<'a, T: Prm> HostTensorIter<'a, T> {
    /// The elements of the tensor iterated over.
    pub closed spec fn data(&self) -> Seq<T> {
        self.slice@
    }

    /// Number of elements yielded so far.
    pub closed spec fn emitted(&self) -> nat {
        self.counter.emitted()
    }

    pub closed spec fn wf(&self) -> bool {
        &&& self.counter.wf()
        &&& self.slice@.len() == self.counter.total()
    }

    /// The next element; the `k`-th call yields element `k` of the
    /// flattened content, and `None` once all have been yielded.
    pub fn next(&mut self) -> (r: Option<&'a T>)
        requires
            old(self).wf(),
        ensures
            final(self).wf(),
            final(self).data() == old(self).data(),
            old(self).emitted() < old(self).data().len() ==> {
                &&& r is Some
                &&& *r.unwrap() == old(self).data()[old(self).emitted() as int]
                &&& final(self).emitted() == old(self).emitted() + 1
            },
            old(self).emitted() >= old(self).data().len() ==> r is None && final(self).emitted()
                == old(self).emitted(),
    {
        match self.counter.next_index() {
            Some(pos) => Some(&self.slice[pos]),
            None => None,
        }
    }
}

} // verus!
