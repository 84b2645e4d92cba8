use vstd::prelude::*;

use crate::shape::{content_of, lemma_content_prefix, lemma_content_zero, Shape};

verus! {

/// Flat offset of the position `pos` over the first `n` axes of `dims`:
/// `pos[k]` times the stride of axis `k`, summed, where the stride of axis
/// `k` is the product of the sizes of the axes before it.
pub open spec fn offset_of(pos: Seq<usize>, dims: Seq<usize>, n: nat) -> int
    decreases n,
{
    if n == 0 {
        0
    } else {
        offset_of(pos, dims, (n - 1) as nat) + pos[n - 1] * content_of(
            dims.subrange(0, n - 1),
        )
    }
}

/// Whether `pos` is a position inside a tensor with axis sizes `dims`.
pub open spec fn in_bounds(pos: Seq<usize>, dims: Seq<usize>) -> bool {
    &&& pos.len() == dims.len()
    &&& forall|k: int| 0 <= k < dims.len() ==> pos[k] < dims[k]
}

/// The stride of axis `n` is the one of axis `n - 1` times its size.
proof fn lemma_stride_step(dims: Seq<usize>, n: int)
    requires
        0 <= n < dims.len(),
    ensures
        content_of(dims.subrange(0, n + 1)) == content_of(dims.subrange(0, n)) * (
        dims[n] as nat),
{
    assert(dims.subrange(0, n + 1).drop_last() =~= dims.subrange(0, n));
}

/// The offset over `n` axes reads only the first `n` coordinates.
proof fn lemma_offset_prefix(a: Seq<usize>, b: Seq<usize>, dims: Seq<usize>, n: nat)
    requires
        n <= a.len(),
        n <= b.len(),
        forall|k: int| 0 <= k < n ==> a[k] == b[k],
    ensures
        offset_of(a, dims, n) == offset_of(b, dims, n),
    decreases n,
{
    if n > 0 {
        lemma_offset_prefix(a, b, dims, (n - 1) as nat);
    }
}

/// The origin has offset zero.
proof fn lemma_offset_origin(pos: Seq<usize>, dims: Seq<usize>, n: nat)
    requires
        n <= pos.len(),
        forall|k: int| 0 <= k < n ==> pos[k] == 0,
    ensures
        offset_of(pos, dims, n) == 0,
    decreases n,
{
    if n > 0 {
        lemma_offset_origin(pos, dims, (n - 1) as nat);
    }
}

/// A position inside the tensor has an offset below the product of the
/// sizes of the axes it spans.
proof fn lemma_offset_bound(pos: Seq<usize>, dims: Seq<usize>, n: nat)
    requires
        n <= dims.len(),
        n <= pos.len(),
        forall|k: int| 0 <= k < n ==> pos[k] < dims[k],
    ensures
        0 <= offset_of(pos, dims, n) < content_of(dims.subrange(0, n as int)),
    decreases n,
{
    if n == 0 {
        assert(dims.subrange(0, 0) =~= Seq::<usize>::empty());
    } else {
        let m = (n - 1) as nat;
        lemma_offset_bound(pos, dims, m);
        lemma_stride_step(dims, m as int);
        let o = offset_of(pos, dims, m);
        let s = content_of(dims.subrange(0, m as int));
        let p = pos[m as int] as int;
        let d = dims[m as int] as int;
        assert(o + p * s < d * s) by (nonlinear_arith)
            requires
                0 <= o < s,
                0 <= p < d,
        ;
        assert(0 <= p * s) by (nonlinear_arith)
            requires
                0 <= p,
                0 <= s,
        ;
    }
}

/// Walks through every position of a shape exactly once, axis `0` fastest,
/// and gives the flat offset of each.
pub struct PositionCounter {
    shape: Shape,
    position: Vec<usize>,
    first: bool,
    exhausted: bool,
    count: Ghost<nat>,
}

impl PositionCounter {
    /// Axis sizes of the shape walked through.
    pub closed spec fn dims(&self) -> Seq<usize> {
        self.shape@
    }

    /// Number of positions.
    pub open spec fn total(&self) -> nat {
        content_of(self.dims())
    }

    /// Number of positions handed out so far.
    pub closed spec fn emitted(&self) -> nat {
        if self.exhausted {
            self.total()
        } else if self.first {
            0
        } else {
            self.count@ + 1
        }
    }

    pub closed spec fn wf(&self) -> bool {
        &&& self.total() <= usize::MAX
        &&& self.position@.len() == self.dims().len()
        &&& self.first && !self.exhausted ==> forall|k: int|
            0 <= k < self.position@.len() ==> self.position@[k] == 0
        &&& !self.first && !self.exhausted ==> {
            &&& in_bounds(self.position@, self.dims())
            &&& offset_of(self.position@, self.dims(), self.dims().len()) == self.count@
            &&& self.count@ < self.total()
        }
    }

    /// Counter at the first position of `shape`.
    pub fn new(shape: Shape) -> (r: Self)
        requires
            content_of(shape@) <= usize::MAX,
        ensures
            r.wf(),
            r.dims() == shape@,
            r.emitted() == 0,
    {
        let n = shape.len();
        let mut position: Vec<usize> = Vec::with_capacity(n);
        let mut i: usize = 0;
        while i < n
            invariant
                i <= n,
                position@.len() == i,
                forall|k: int| 0 <= k < i ==> position@[k] == 0,
            decreases n - i,
        {
            position.push(0);
            i = i + 1;
        }
        PositionCounter { shape, position, first: true, exhausted: false, count: Ghost(0) }
    }

    /// Flat offset of the current position.
    fn offset(&self) -> (r: usize)
        requires
            self.wf(),
            !self.first,
            !self.exhausted,
        ensures
            r == self.count@,
    {
        let n = self.shape.len();
        let ghost dims = self.dims();
        let ghost pos = self.position@;
        proof {
            lemma_content_zero(dims);
            assert forall|k: int| 0 <= k < dims.len() implies dims[k] >= 1 by {
                if dims[k] == 0 {
                    assert(pos[k] < dims[k]);
                }
            }
            assert(dims.subrange(0, 0) =~= Seq::<usize>::empty());
        }
        let mut stride: usize = 1;
        let mut acc: usize = 0;
        let mut i: usize = 0;
        while i < n
            invariant
                n == dims.len(),
                dims == self.dims(),
                pos == self.position@,
                in_bounds(pos, dims),
                forall|k: int| 0 <= k < dims.len() ==> dims[k] >= 1,
                content_of(dims) <= usize::MAX,
                i <= n,
                stride == content_of(dims.subrange(0, i as int)),
                acc == offset_of(pos, dims, i as nat),
                acc < stride,
            decreases n - i,
        {
            proof {
                lemma_stride_step(dims, i as int);
                lemma_content_prefix(dims, i + 1);
                let p = pos[i as int] as int;
                let d = dims[i as int] as int;
                let s = stride as int;
                let a = acc as int;
                assert(a + p * s < d * s) by (nonlinear_arith)
                    requires
                        0 <= a < s,
                        0 <= p < d,
                ;
            }
            acc = acc + self.position[i] * stride;
            stride = stride * self.shape.get(i);
            i = i + 1;
        }
        proof {
            assert(dims.subrange(0, n as int) =~= dims);
        }
        acc
    }

    /// Moves to the next position; returns whether there is one.
    fn next_position(&mut self) -> (r: bool)
        requires
            old(self).wf(),
        ensures
            final(self).wf(),
            final(self).dims() == old(self).dims(),
            r == (old(self).emitted() < old(self).total()),
            r ==> final(self).emitted() == old(self).emitted() + 1 && !final(self).first
                && !final(self).exhausted,
            !r ==> final(self).emitted() == old(self).emitted(),
    {
        if self.exhausted {
            false
        } else if self.first {
            let c = self.shape.content();
            if c > 0 {
                self.first = false;
                proof {
                    let dims = self.dims();
                    lemma_content_zero(dims);
                    assert forall|k: int| 0 <= k < dims.len() implies self.position@[k]
                        < dims[k] by {
                        if dims[k] == 0 {
                            assert(content_of(dims) == 0);
                        }
                    }
                    lemma_offset_origin(self.position@, dims, dims.len());
                    self.count = Ghost(0);
                    assert(in_bounds(self.position@, dims));
                    assert(offset_of(self.position@, self.dims(), self.dims().len()) == self.count@);
                    assert(self.count@ < self.total());
                }
                true
            } else {
                self.exhausted = true;
                false
            }
        } else {
            let n = self.shape.len();
            let ghost dims = self.dims();
            let ghost old_pos = self.position@;
            let ghost count0 = self.count@;
            let mut carry = true;
            let mut i: usize = 0;
            proof {
                assert(dims.subrange(0, 0) =~= Seq::<usize>::empty());
            }
            while i < n
                invariant
                    n == dims.len(),
                    dims == self.dims(),
                    self.position@.len() == n,
                    in_bounds(old_pos, dims),
                    offset_of(old_pos, dims, n as nat) == count0,
                    count0 < content_of(dims),
                    content_of(dims) <= usize::MAX,
                    self.count@ == count0,
                    !self.first,
                    !self.exhausted,
                    i <= n,
                    forall|k: int| i <= k < n ==> self.position@[k] == old_pos[k],
                    forall|k: int| 0 <= k < i ==> self.position@[k] < dims[k],
                    offset_of(self.position@, dims, i as nat) + (if carry {
                        content_of(dims.subrange(0, i as int)) as int
                    } else {
                        0
                    }) == offset_of(old_pos, dims, i as nat) + 1,
                decreases n - i,
            {
                if carry {
                    carry = false;
                    let ghost before = self.position@;
                    assert(old_pos[i as int] < dims[i as int]);
                    let mut pos = self.position[i] + 1;
                    if pos >= self.shape.get(i) {
                        pos = 0;
                        carry = true;
                    }
                    self.position.set(i, pos);
                    proof {
                        lemma_offset_prefix(self.position@, before, dims, i as nat);
                        lemma_stride_step(dims, i as int);
                        let s = content_of(dims.subrange(0, i as int)) as int;
                        let d = dims[i as int] as int;
                        let o = old_pos[i as int] as int;
                        assert((o + 1) * s == o * s + s) by (nonlinear_arith);
                        assert(d * s == (d - 1) * s + s) by (nonlinear_arith);
                        assert(offset_of(self.position@, dims, (i + 1) as nat) == offset_of(
                            self.position@,
                            dims,
                            i as nat,
                        ) + self.position@[i as int] * s);
                        assert(offset_of(old_pos, dims, (i + 1) as nat) == offset_of(
                            old_pos,
                            dims,
                            i as nat,
                        ) + o * s);
                        assert(offset_of(before, dims, i as nat) + s == offset_of(
                            old_pos,
                            dims,
                            i as nat,
                        ) + 1);
                        assert(offset_of(self.position@, dims, i as nat) == offset_of(
                            before,
                            dims,
                            i as nat,
                        ));
                        assert(content_of(dims.subrange(0, i + 1)) == s * d);
                        if carry {
                            assert(o + 1 == d);
                            assert(self.position@[i as int] == 0);
                            assert(o * s == (d - 1) * s);
                            assert((d - 1) * s == s * d - s) by (nonlinear_arith);
                            let z = self.position@[i as int] as int;
                            assert(z * s == 0) by (nonlinear_arith)
                                requires
                                    z == 0,
                            ;
                            assert(offset_of(self.position@, dims, (i + 1) as nat) + s * d
                                == offset_of(old_pos, dims, (i + 1) as nat) + 1);
                        } else {
                            assert(self.position@[i as int] == o + 1);
                        }
                    }
                } else {
                    proof {
                        let s = content_of(dims.subrange(0, i as int)) as int;
                        assert(offset_of(self.position@, dims, (i + 1) as nat) == offset_of(
                            self.position@,
                            dims,
                            i as nat,
                        ) + self.position@[i as int] * s);
                        assert(offset_of(old_pos, dims, (i + 1) as nat) == offset_of(
                            old_pos,
                            dims,
                            i as nat,
                        ) + old_pos[i as int] * s);
                    }
                }
                i = i + 1;
            }
            proof {
                assert(dims.subrange(0, n as int) =~= dims);
                lemma_offset_bound(self.position@, dims, n as nat);
            }
            if carry {
                self.exhausted = true;
                false
            } else {
                proof {
                    self.count = Ghost(self.count@ + 1);
                    assert(in_bounds(self.position@, dims));
                    assert(offset_of(self.position@, self.dims(), self.dims().len()) == self.count@);
                    assert(self.count@ < self.total());
                }
                true
            }
        }
    }

    /// Flat offset of the next position, or `None` once every position has
    /// been handed out. The `k`-th call returns `Some(k)` while `k` is below
    /// the number of positions.
    pub fn next_index(&mut self) -> (r: Option<usize>)
        requires
            old(self).wf(),
        ensures
            final(self).wf(),
            final(self).dims() == old(self).dims(),
            old(self).emitted() < old(self).total() ==> r == Some(old(self).emitted() as usize)
                && final(self).emitted() == old(self).emitted() + 1,
            old(self).emitted() >= old(self).total() ==> r is None && final(self).emitted()
                == old(self).emitted(),
    {
        if self.next_position() {
            Some(self.offset())
        } else {
            None
        }
    }
}

} // verus!
