use vstd::prelude::*;

use crate::error::Error;
use crate::num::{Interop, Prm};

verus! {

/// Buffer that stores its elements in host memory.
#[derive(Clone, Debug)]
pub struct HostBuffer<T: Prm> {
    vec: Vec<T>,
}

impl<T: Prm> View for HostBuffer<T> {
    type V = Seq<T>;

    /// The elements of the buffer, in order.
    closed spec fn view(&self) -> Seq<T> {
        self.vec@
    }
}

/// Vector of `len` copies of `value`.
fn filled_vec<T: Copy>(len: usize, value: T) -> (r: Vec<T>)
    ensures
        r@ == Seq::new(len as nat, |i: int| value),
{
    let mut vec: Vec<T> = Vec::with_capacity(len);
    let mut i: usize = 0;
    while i < len
        invariant
            i <= len,
            vec@ == Seq::new(i as nat, |k: int| value),
        decreases len - i,
    {
        vec.push(value);
        i = i + 1;
        proof {
            assert(vec@ =~= Seq::new(i as nat, |k: int| value));
        }
    }
    vec
}

/// Overwrites `dst` with the elements of `src`, which has the same length.
fn copy_into<T: Copy>(dst: &mut [T], src: &[T])
    requires
        old(dst)@.len() == src@.len(),
    ensures
        final(dst)@ == src@,
{
    let mut i: usize = 0;
    while i < src.len()
        invariant
            i <= src@.len(),
            dst@.len() == src@.len(),
            forall|k: int| 0 <= k < i ==> dst@[k] == src@[k],
        decreases src@.len() - i,
    {
        dst[i] = src[i];
        i = i + 1;
    }
    proof {
        assert(dst@ =~= src@);
    }
}

impl<T: Prm> HostBuffer<T> {
    /// Buffer of `len` elements whose content is unspecified: every element
    /// is to be written before it is read.
    pub fn new_uninit(len: usize) -> (r: Self)
        ensures
            r@.len() == len,
    {
        HostBuffer { vec: filled_vec(len, T::zero()) }
    }

    /// Buffer of `len` elements, each equal to `value`.
    pub fn new_filled(len: usize, value: T) -> (r: Self)
        ensures
            r@ == Seq::new(len as nat, |i: int| value),
    {
        HostBuffer { vec: filled_vec(len, value) }
    }

    /// Buffer that holds the elements of `vec`.
    pub fn from_vec(vec: Vec<T>) -> (r: Self)
        ensures
            r@ == vec@,
    {
        HostBuffer { vec }
    }

    /// Number of elements.
    pub fn len(&self) -> (r: usize)
        ensures
            r == self@.len(),
    {
        self.vec.len()
    }

    /// The elements, in order.
    pub fn as_slice(&self) -> (r: &[T])
        ensures
            r@ == self@,
    {
        self.vec.as_slice()
    }

    /// Mutable access to the elements; the length cannot change.
    pub fn as_mut_slice(&mut self) -> (r: &mut [T])
        ensures
            r@ == old(self)@,
            final(self)@ == final(r)@,
    {
        self.vec.as_mut_slice()
    }

    /// Copies the content of the buffer into `dst`, which must have the
    /// buffer's length.
    pub fn load(&self, dst: &mut [T]) -> (r: Result<(), Error>)
        ensures
            old(dst)@.len() == self@.len() <==> r is Ok,
            r is Ok ==> final(dst)@ == self@,
            r is Err ==> final(dst)@ == old(dst)@ && r == Err::<(), Error>(
                Error::LengthMismatch(old(dst)@.len() as usize, self@.len() as usize),
            ),
    {
        if dst.len() == self.vec.len() {
            copy_into(dst, self.vec.as_slice());
            Ok(())
        } else {
            Err(Error::LengthMismatch(dst.len(), self.vec.len()))
        }
    }

    /// Replaces the content of the buffer with `src`, which must have the
    /// buffer's length.
    pub fn store(&mut self, src: &[T]) -> (r: Result<(), Error>)
        ensures
            src@.len() == old(self)@.len() <==> r is Ok,
            r is Ok ==> final(self)@ == src@,
            r is Err ==> final(self)@ == old(self)@ && r == Err::<(), Error>(
                Error::LengthMismatch(old(self)@.len() as usize, src@.len() as usize),
            ),
    {
        if src.len() == self.vec.len() {
            copy_into(self.vec.as_mut_slice(), src);
            Ok(())
        } else {
            Err(Error::LengthMismatch(self.vec.len(), src.len()))
        }
    }

    /// Copies the content of `src`, which must have this buffer's length.
    pub fn copy_from(&mut self, src: &Self) -> (r: Result<(), Error>)
        ensures
            src@.len() == old(self)@.len() <==> r is Ok,
            r is Ok ==> final(self)@ == src@,
            r is Err ==> final(self)@ == old(self)@ && r == Err::<(), Error>(
                Error::LengthMismatch(old(self)@.len() as usize, src@.len() as usize),
            ),
    {
        self.store(src.as_slice())
    }

    /// Copies the content of the buffer into `dst`, which must have this
    /// buffer's length.
    pub fn copy_to(&self, dst: &mut Self) -> (r: Result<(), Error>)
        ensures
            old(dst)@.len() == self@.len() <==> r is Ok,
            r is Ok ==> final(dst)@ == self@,
            r is Err ==> final(dst)@ == old(dst)@ && r == Err::<(), Error>(
                Error::LengthMismatch(old(dst)@.len() as usize, self@.len() as usize),
            ),
    {
        dst.copy_from(self)
    }

    /// A new buffer with the same content.
    pub fn duplicate(&self) -> (r: Self)
        ensures
            r@ == self@,
    {
        let mut vec: Vec<T> = Vec::with_capacity(self.vec.len());
        let mut i: usize = 0;
        while i < self.vec.len()
            invariant
                i <= self.vec@.len(),
                vec@ == self.vec@.subrange(0, i as int),
            decreases self.vec@.len() - i,
        {
            vec.push(self.vec[i]);
            i = i + 1;
            proof {
                assert(vec@ =~= self.vec@.subrange(0, i as int));
            }
        }
        proof {
            assert(vec@ =~= self.vec@);
        }
        HostBuffer { vec }
    }
}

/// Flat storage of elements of type `T` at one location.
///
/// Every operation that moves data checks lengths first: on a mismatch it
/// fails with `Error::LengthMismatch` and changes nothing. Other failures
/// come from the compute context behind the buffer; buffers of an
/// `infallible` type have none.
pub trait Buffer<T: Prm>: Sized {
    /// What a buffer is allocated against.
    type Context;

    /// The elements of the buffer, in order.
    spec fn content(&self) -> Seq<T>;

    /// Whether every operation on buffers of this type succeeds once the
    /// lengths agree.
    spec fn infallible() -> bool;

    /// Buffer of `len` elements whose content is unspecified: every element
    /// is to be written before it is read.
    fn new_uninit_in(context: &Self::Context, len: usize) -> (r: Result<Self, Error>)
        ensures
            r matches Ok(b) ==> b.content().len() == len,
            r matches Err(e) ==> e is Backend,
            Self::infallible() ==> r is Ok,
    ;

    /// Buffer of `len` elements, each equal to `value`.
    fn new_filled_in(context: &Self::Context, len: usize, value: T) -> (r: Result<Self, Error>)
        ensures
            r matches Ok(b) ==> b.content() == Seq::new(len as nat, |i: int| value),
            r matches Err(e) ==> e is Backend,
            Self::infallible() ==> r is Ok,
    ;

    /// Number of elements.
    fn len(&self) -> (r: usize)
        ensures
            r == self.content().len(),
    ;

    /// Copies the content into `dst`.
    fn load(&self, dst: &mut [T]) -> (r: Result<(), Error>)
        ensures
            old(dst)@.len() != self.content().len() ==> final(dst)@ == old(dst)@ && r
                == Err::<(), Error>(
                Error::LengthMismatch(old(dst)@.len() as usize, self.content().len() as usize),
            ),
            r is Ok ==> final(dst)@ == self.content(),
            final(dst)@.len() == old(dst)@.len(),
            old(dst)@.len() == self.content().len() ==> (r is Ok || r->Err_0 is Backend),
            old(dst)@.len() == self.content().len() && Self::infallible() ==> r is Ok,
    ;

    /// Replaces the content with `src`.
    fn store(&mut self, src: &[T]) -> (r: Result<(), Error>)
        ensures
            src@.len() != old(self).content().len() ==> final(self).content() == old(
                self,
            ).content() && r == Err::<(), Error>(
                Error::LengthMismatch(old(self).content().len() as usize, src@.len() as usize),
            ),
            r is Ok ==> final(self).content() == src@,
            final(self).content().len() == old(self).content().len(),
            src@.len() == old(self).content().len() ==> (r is Ok || r->Err_0 is Backend),
            src@.len() == old(self).content().len() && Self::infallible() ==> r is Ok,
    ;

    /// Copies the content of `src`.
    fn copy_from(&mut self, src: &Self) -> (r: Result<(), Error>)
        ensures
            src.content().len() != old(self).content().len() ==> final(self).content() == old(
                self,
            ).content() && r == Err::<(), Error>(
                Error::LengthMismatch(
                    old(self).content().len() as usize,
                    src.content().len() as usize,
                ),
            ),
            r is Ok ==> final(self).content() == src.content(),
            final(self).content().len() == old(self).content().len(),
            src.content().len() == old(self).content().len() ==> (r is Ok || r->Err_0 is Backend),
            src.content().len() == old(self).content().len() && Self::infallible() ==> r is Ok,
    ;

    /// Copies the content into `dst`.
    fn copy_to(&self, dst: &mut Self) -> (r: Result<(), Error>)
        ensures
            self.content().len() != old(dst).content().len() ==> final(dst).content() == old(
                dst,
            ).content() && r == Err::<(), Error>(
                Error::LengthMismatch(
                    old(dst).content().len() as usize,
                    self.content().len() as usize,
                ),
            ),
            r is Ok ==> final(dst).content() == self.content(),
            final(dst).content().len() == old(dst).content().len(),
            self.content().len() == old(dst).content().len() ==> (r is Ok || r->Err_0 is Backend),
            self.content().len() == old(dst).content().len() && Self::infallible() ==> r is Ok,
    ;

    /// A new buffer in the same context with the same content.
    fn duplicate(&self) -> (r: Result<Self, Error>)
        ensures
            r matches Ok(b) ==> b.content() == self.content(),
            r matches Err(e) ==> e is Backend,
            Self::infallible() ==> r is Ok,
    ;
}

impl<T: Prm> Buffer<T> for HostBuffer<T> {
    type Context = ();

    open spec fn content(&self) -> Seq<T> {
        self@
    }

    open spec fn infallible() -> bool {
        true
    }

    fn new_uninit_in(context: &(), len: usize) -> (r: Result<Self, Error>) {
        Ok(HostBuffer::new_uninit(len))
    }

    fn new_filled_in(context: &(), len: usize, value: T) -> (r: Result<Self, Error>) {
        Ok(HostBuffer::new_filled(len, value))
    }

    fn len(&self) -> (r: usize) {
        HostBuffer::len(self)
    }

    fn load(&self, dst: &mut [T]) -> (r: Result<(), Error>) {
        HostBuffer::load(self, dst)
    }

    fn store(&mut self, src: &[T]) -> (r: Result<(), Error>) {
        HostBuffer::store(self, src)
    }

    fn copy_from(&mut self, src: &Self) -> (r: Result<(), Error>) {
        HostBuffer::copy_from(self, src)
    }

    fn copy_to(&self, dst: &mut Self) -> (r: Result<(), Error>) {
        HostBuffer::copy_to(self, dst)
    }

    fn duplicate(&self) -> (r: Result<Self, Error>) {
        Ok(HostBuffer::duplicate(self))
    }
}

/// The device representation of each element of `src`, in order: what is
/// written to a device buffer that is to hold `src`.
pub fn to_dev_vec<T: Interop>(src: &[T]) -> (r: Vec<T::Dev>)
    ensures
        r@.len() == src@.len(),
        forall|i: int| 0 <= i < src@.len() ==> r@[i] == (#[trigger] src@[i]).spec_to_dev(),
{
    let mut out: Vec<T::Dev> = Vec::with_capacity(src.len());
    let mut i: usize = 0;
    while i < src.len()
        invariant
            i <= src@.len(),
            out@.len() == i,
            forall|k: int| 0 <= k < i ==> out@[k] == (#[trigger] src@[k]).spec_to_dev(),
        decreases src@.len() - i,
    {
        out.push(src[i].to_dev());
        i = i + 1;
    }
    out
}

/// Writes into `dst` the host value of each device element of `src`, which
/// must have the length of `dst`: what a read from a device buffer yields.
pub fn from_dev_slice<T: Interop>(dst: &mut [T], src: &[T::Dev]) -> (r: Result<(), Error>)
    ensures
        old(dst)@.len() == src@.len() <==> r is Ok,
        r is Ok ==> final(dst)@.len() == src@.len() && forall|i: int|
            0 <= i < src@.len() ==> final(dst)@[i] == T::spec_from_dev(#[trigger] src@[i]),
        r is Err ==> final(dst)@ == old(dst)@ && r == Err::<(), Error>(
            Error::LengthMismatch(old(dst)@.len() as usize, src@.len() as usize),
        ),
{
    if dst.len() != src.len() {
        return Err(Error::LengthMismatch(dst.len(), src.len()));
    }
    let mut i: usize = 0;
    while i < src.len()
        invariant
            i <= src@.len(),
            dst@.len() == src@.len(),
            forall|k: int| 0 <= k < i ==> dst@[k] == T::spec_from_dev(#[trigger] src@[k]),
        decreases src@.len() - i,
    {
        dst[i] = T::from_dev(src[i]);
        i = i + 1;
    }
    Ok(())
}

} // verus!
