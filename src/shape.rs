use vstd::prelude::*;

verus! {

/// The explicit sizes with every trailing axis of size `1` removed.
pub open spec fn trimmed(s: Seq<usize>) -> Seq<usize>
    decreases s.len(),
{
    if s.len() > 0 && s.last() == 1 {
        trimmed(s.drop_last())
    } else {
        s
    }
}

/// Size of axis `i` of a shape whose significant axes are `s`.
pub open spec fn axis(s: Seq<usize>, i: int) -> usize {
    if 0 <= i < s.len() {
        s[i]
    } else {
        1
    }
}

/// Number of elements of a tensor with axis sizes `s`.
pub open spec fn content_of(s: Seq<usize>) -> nat
    decreases s.len(),
{
    if s.len() == 0 {
        1
    } else {
        content_of(s.drop_last()) * (s.last() as nat)
    }
}

/// A trimmed sequence is a prefix of the untrimmed one, which holds
/// only axes of size `1` past it.
pub proof fn lemma_trimmed(s: Seq<usize>)
    ensures
        trimmed(s).len() <= s.len(),
        trimmed(s) =~= s.subrange(0, trimmed(s).len() as int),
        forall|i: int| trimmed(s).len() <= i < s.len() ==> s[i] == 1,
        trimmed(s).len() == 0 || trimmed(s).last() != 1,
    decreases s.len(),
{
    if s.len() > 0 && s.last() == 1 {
        lemma_trimmed(s.drop_last());
        assert forall|i: int| trimmed(s).len() <= i < s.len() implies s[i] == 1 by {
            if i < s.len() - 1 {
                assert(s.drop_last()[i] == s[i]);
            }
        }
    }
}

/// Trimming twice is trimming once.
pub proof fn lemma_trimmed_idempotent(s: Seq<usize>)
    ensures
        trimmed(trimmed(s)) == trimmed(s),
{
    lemma_trimmed(s);
}

/// Axes of size `1` appended to a shape leave it the same shape.
pub proof fn trailing_ones_insignificant(s: Seq<usize>, n: nat)
    ensures
        trimmed(s + Seq::new(n, |i: int| 1usize)) == trimmed(s),
    decreases n,
{
    let ones = Seq::new(n, |i: int| 1usize);
    if n > 0 {
        let shorter = s + Seq::new((n - 1) as nat, |i: int| 1usize);
        assert((s + ones).drop_last() =~= shorter);
        trailing_ones_insignificant(s, (n - 1) as nat);
    } else {
        assert(s + ones =~= s);
    }
}

/// Sizes of every axis agree between a sequence and its trimmed form.
pub proof fn lemma_axis_trimmed(s: Seq<usize>)
    ensures
        forall|k: int| #[trigger] axis(trimmed(s), k) == axis(s, k),
{
    lemma_trimmed(s);
    assert forall|k: int| #[trigger] axis(trimmed(s), k) == axis(s, k) by {
        if 0 <= k < trimmed(s).len() {
            assert(trimmed(s)[k] == s.subrange(0, trimmed(s).len() as int)[k]);
        }
    }
}

/// Two sequences that give every axis the same size trim to the same
/// sequence: a shape is determined by its axis sizes.
pub proof fn lemma_trimmed_by_axes(a: Seq<usize>, b: Seq<usize>)
    requires
        forall|k: int| #[trigger] axis(a, k) == axis(b, k),
    ensures
        trimmed(a) == trimmed(b),
{
    lemma_trimmed(a);
    lemma_trimmed(b);
    lemma_axis_trimmed(a);
    lemma_axis_trimmed(b);
    let ta = trimmed(a);
    let tb = trimmed(b);
    if ta.len() < tb.len() {
        assert(axis(tb, tb.len() - 1) == axis(b, tb.len() - 1));
        assert(axis(ta, tb.len() - 1) == axis(a, tb.len() - 1));
        assert(false);
    }
    if tb.len() < ta.len() {
        assert(axis(ta, ta.len() - 1) == axis(a, ta.len() - 1));
        assert(axis(tb, ta.len() - 1) == axis(b, ta.len() - 1));
        assert(false);
    }
    assert forall|k: int| 0 <= k < ta.len() implies ta[k] == tb[k] by {
        assert(axis(ta, k) == axis(a, k));
        assert(axis(tb, k) == axis(b, k));
    }
    assert(ta =~= tb);
}

/// The axis sizes after axis `i` of `s` is set to `v`; the axes between the
/// explicit ones and `i` keep their implicit size `1`.
pub open spec fn with_axis(s: Seq<usize>, i: nat, v: usize) -> Seq<usize> {
    Seq::new(
        if i < s.len() {
            s.len()
        } else {
            i + 1
        },
        |k: int|
            if k == i {
                v
            } else {
                axis(s, k)
            },
    )
}

/// The axes of `s` from `start` to `end`, both clamped to the significant
/// axes; an empty or reversed range gives the empty shape.
pub open spec fn slice_of(s: Seq<usize>, start: usize, end: usize) -> Seq<usize> {
    let b = if start < s.len() {
        start as int
    } else {
        s.len() as int
    };
    let e = if end < s.len() {
        end as int
    } else {
        s.len() as int
    };
    if b < e {
        trimmed(s.subrange(b, e))
    } else {
        Seq::empty()
    }
}

/// The product of the sizes is zero exactly when some size is zero.
pub proof fn lemma_content_zero(s: Seq<usize>)
    ensures
        content_of(s) == 0 <==> exists|k: int| 0 <= k < s.len() && s[k] == 0,
    decreases s.len(),
{
    if s.len() > 0 {
        let d = s.drop_last();
        let c = content_of(d);
        let l = s.last() as nat;
        lemma_content_zero(d);
        assert(content_of(s) == c * l);
        if c == 0 {
            let k = choose|k: int| 0 <= k < d.len() && d[k] == 0;
            assert(s[k] == 0);
            assert(c * l == 0);
        } else if l == 0 {
            assert(s[s.len() - 1] == 0);
            assert(c * l == 0);
        } else {
            assert(c * l != 0) by (nonlinear_arith)
                requires
                    c != 0,
                    l != 0,
            ;
            assert forall|k: int| 0 <= k < s.len() implies s[k] != 0 by {
                if k < s.len() - 1 {
                    assert(d[k] == s[k]);
                }
            }
        }
    }
}

/// With no axis of size zero, the product over a prefix bounds from below
/// the product over the whole.
pub proof fn lemma_content_prefix(s: Seq<usize>, i: int)
    requires
        0 <= i <= s.len(),
        forall|k: int| 0 <= k < s.len() ==> s[k] >= 1,
    ensures
        content_of(s.subrange(0, i)) <= content_of(s),
    decreases s.len(),
{
    if i < s.len() {
        let d = s.drop_last();
        assert(s.subrange(0, i) =~= d.subrange(0, i));
        lemma_content_prefix(d, i);
        let c = content_of(d);
        let l = s.last() as nat;
        assert(c <= c * l) by (nonlinear_arith)
            requires
                l >= 1,
        ;
    } else {
        assert(s.subrange(0, i) =~= s);
    }
}

/// Number of leading entries of `slice` that remain once the trailing `1`s
/// are removed.
fn count_non_one(slice: &[usize]) -> (r: usize)
    ensures
        r == trimmed(slice@).len(),
{
    let mut n: usize = slice.len();
    proof {
        assert(slice@.subrange(0, n as int) =~= slice@);
    }
    while n > 0 && slice[n - 1] == 1
        invariant
            n <= slice@.len(),
            trimmed(slice@) == trimmed(slice@.subrange(0, n as int)),
        decreases n,
    {
        proof {
            assert(slice@.subrange(0, n as int).drop_last() =~= slice@.subrange(0, n - 1));
        }
        n = n - 1;
    }
    n
}

/// The leading part of `slice` without its trailing `1`s.
fn trim_slice(slice: &[usize]) -> (r: &[usize])
    ensures
        r@ == trimmed(slice@),
{
    let n = count_non_one(slice);
    proof {
        lemma_trimmed(slice@);
    }
    let (head, _tail) = slice.split_at(n);
    head
}

/// Shape of a tensor.
///
/// A tensor has infinitely many axes: a tensor of shape `(x, y, z)` is one of
/// shape `(x, y, z, 1, 1, ...)`. Trailing axes of size `1` are therefore
/// insignificant, and shapes `(x, y, z)` and `(x, y, z, 1)` are equal. The
/// empty shape `()` is the shape of a scalar.
#[derive(Clone, Debug)]
pub struct Shape {
    vec: Vec<usize>,
}

impl View for Shape {
    type V = Seq<usize>;

    /// The significant axes: the explicit sizes without trailing `1`s.
    open spec fn view(&self) -> Seq<usize> {
        trimmed(self.raw())
    }
}

impl Shape {
    /// The explicit sizes, trailing `1`s included.
    pub closed spec fn raw(&self) -> Seq<usize> {
        self.vec@
    }

    /// Shape with the given axis sizes.
    pub fn from_vec(vec: Vec<usize>) -> (r: Shape)
        ensures
            r.raw() == vec@,
            r@ == trimmed(vec@),
    {
        Shape { vec }
    }

    /// Shape with the axis sizes of `slice`.
    pub fn from_slice(slice: &[usize]) -> (r: Shape)
        ensures
            r.raw() == slice@,
            r@ == trimmed(slice@),
    {
        let mut vec: Vec<usize> = Vec::with_capacity(slice.len());
        let mut i: usize = 0;
        while i < slice.len()
            invariant
                i <= slice@.len(),
                vec@ == slice@.subrange(0, i as int),
            decreases slice@.len() - i,
        {
            vec.push(slice[i]);
            i = i + 1;
            proof {
                assert(vec@ =~= slice@.subrange(0, i as int));
            }
        }
        proof {
            assert(vec@ =~= slice@);
        }
        Shape { vec }
    }

    /// Count of significant axes, i.e. of axes left once trailing `1`s are
    /// removed.
    pub fn len(&self) -> (r: usize)
        ensures
            r == self@.len(),
    {
        count_non_one(self.vec.as_slice())
    }

    /// Sizes of the significant axes.
    pub fn as_slice(&self) -> (r: &[usize])
        ensures
            r@ == self@,
    {
        trim_slice(self.vec.as_slice())
    }

    /// Mutable access to the sizes of the significant axes.
    pub fn as_mut_slice(&mut self) -> (r: &mut [usize])
        ensures
            r@ == old(self)@,
            final(self).raw() == final(r)@ + old(self).raw().subrange(
                old(self)@.len() as int,
                old(self).raw().len() as int,
            ),
    {
        let n = count_non_one(self.vec.as_slice());
        proof {
            lemma_trimmed(self.vec@);
        }
        let (head, _tail) = self.vec.as_mut_slice().split_at_mut(n);
        head
    }

    /// Iterator over the sizes of the significant axes.
    pub fn iter(&self) -> (r: std::slice::Iter<'_, usize>)
        ensures
            vstd::std_specs::iter::IteratorSpec::remaining(&r) == self@.as_ref(),
    {
        proof {
            broadcast use vstd::std_specs::slice::axiom_spec_slice_iter;
        }
        self.as_slice().iter()
    }

    /// Size of axis `i`; every axis past the significant ones has size `1`.
    pub fn get(&self, i: usize) -> (r: usize)
        ensures
            r == axis(self@, i as int),
    {
        proof {
            lemma_axis_trimmed(self.raw());
        }
        if i < self.vec.len() {
            self.vec[i]
        } else {
            1
        }
    }

    /// Sets the size of axis `i` to `v`, adding axes of size `1` up to `i`
    /// where the explicit sizes end before it.
    pub fn set(&mut self, i: usize, v: usize)
        requires
            i < usize::MAX,
        ensures
            final(self)@ == trimmed(with_axis(old(self)@, i as nat, v)),
    {
        let ghost old_raw = self.vec@;
        while self.vec.len() <= i
            invariant
                i < usize::MAX,
                old_raw.len() <= self.vec@.len() <= if old_raw.len() <= i + 1 {
                    i + 1
                } else {
                    old_raw.len() as int
                },
                forall|k: int| #[trigger] axis(self.vec@, k) == axis(old_raw, k),
            decreases i + 1 - self.vec@.len(),
        {
            let ghost before = self.vec@;
            self.vec.push(1);
            proof {
                assert forall|k: int| #[trigger] axis(self.vec@, k) == axis(old_raw, k) by {
                    assert(axis(self.vec@, k) == axis(before, k));
                }
            }
        }
        let ghost padded = self.vec@;
        self.vec.set(i, v);
        proof {
            lemma_axis_trimmed(old_raw);
            let target = with_axis(old(self)@, i as nat, v);
            assert(self.vec@ == padded.update(i as int, v));
            assert forall|k: int| #[trigger] axis(self.vec@, k) == axis(target, k) by {
                if k != i {
                    assert(axis(self.vec@, k) == axis(padded, k));
                    assert(axis(padded, k) == axis(old_raw, k));
                    assert(axis(trimmed(old_raw), k) == axis(old_raw, k));
                } else {
                    assert(self.vec@[k] == v);
                }
            }
            lemma_trimmed_by_axes(self.vec@, target);
        }
    }

    /// Number of elements of a tensor of this shape, or `None` where it does
    /// not fit in a `usize`.
    pub fn checked_content(&self) -> (r: Option<usize>)
        ensures
            content_of(self@) <= usize::MAX ==> r == Some(content_of(self@) as usize),
            content_of(self@) > usize::MAX ==> r is None,
    {
        let s = self.as_slice();
        let mut i: usize = 0;
        while i < s.len()
            invariant
                i <= s@.len(),
                s@ == self@,
                forall|k: int| 0 <= k < i ==> s@[k] != 0,
            decreases s@.len() - i,
        {
            if s[i] == 0 {
                proof {
                    lemma_content_zero(s@);
                    assert(s@[i as int] == 0);
                }
                return Some(0);
            }
            i = i + 1;
        }
        let mut p: usize = 1;
        let mut j: usize = 0;
        proof {
            lemma_content_zero(s@);
            assert(s@.subrange(0, 0) =~= Seq::<usize>::empty());
        }
        while j < s.len()
            invariant
                j <= s@.len(),
                s@ == self@,
                forall|k: int| 0 <= k < s@.len() ==> s@[k] >= 1,
                p == content_of(s@.subrange(0, j as int)),
            decreases s@.len() - j,
        {
            proof {
                let next = s@.subrange(0, j + 1);
                assert(next.drop_last() =~= s@.subrange(0, j as int));
                lemma_content_prefix(s@, j + 1);
            }
            match p.checked_mul(s[j]) {
                Some(q) => {
                    p = q;
                },
                None => {
                    return None;
                },
            }
            j = j + 1;
        }
        proof {
            assert(s@.subrange(0, j as int) =~= s@);
        }
        Some(p)
    }

    /// Number of elements of a tensor of this shape: the product of all axis
    /// sizes, `1` for the empty shape.
    pub fn content(&self) -> (r: usize)
        requires
            content_of(self@) <= usize::MAX,
        ensures
            r == content_of(self@),
    {
        match self.checked_content() {
            Some(c) => c,
            None => 0,
        }
    }

    /// A shape with the same axes.
    pub fn duplicate(&self) -> (r: Shape)
        ensures
            r@ == self@,
    {
        proof {
            lemma_trimmed_idempotent(self.raw());
        }
        Shape::from_slice(self.as_slice())
    }

    /// The shape made of the axes from `start` (inclusive) to `end`
    /// (exclusive) of the significant axes; both ends are clamped to
    /// `self.len()`, and an empty or reversed range gives the empty shape.
    pub fn slice(&self, start: usize, end: usize) -> (r: Shape)
        ensures
            r@ == slice_of(self@, start, end),
    {
        let s = self.as_slice();
        let len = s.len();
        let b = if start < len {
            start
        } else {
            len
        };
        let e = if end < len {
            end
        } else {
            len
        };
        if b < e {
            let (head, _tail) = s.split_at(e);
            let (_skip, part) = head.split_at(b);
            proof {
                assert(part@ =~= s@.subrange(b as int, e as int));
            }
            Shape::from_slice(part)
        } else {
            Shape::from_vec(Vec::new())
        }
    }

    /// Whether both shapes have the same significant axes.
    pub fn same(&self, other: &Shape) -> (r: bool)
        ensures
            r == (self@ == other@),
    {
        let a = self.as_slice();
        let b = other.as_slice();
        if a.len() != b.len() {
            return false;
        }
        let mut i: usize = 0;
        while i < a.len()
            invariant
                a@ == self@,
                b@ == other@,
                a@.len() == b@.len(),
                i <= a@.len(),
                forall|k: int| 0 <= k < i ==> a@[k] == b@[k],
            decreases a@.len() - i,
        {
            if a[i] != b[i] {
                proof {
                    assert(a@[i as int] != b@[i as int]);
                }
                return false;
            }
            i = i + 1;
        }
        proof {
            assert(a@ =~= b@);
        }
        true
    }

    /// The explicit sizes of the significant axes, as a vector.
    pub fn into_vec(self) -> (r: Vec<usize>)
        ensures
            r@ == self@,
    {
        let mut vec = self.vec;
        let n = count_non_one(vec.as_slice());
        proof {
            lemma_trimmed(vec@);
        }
        vec.truncate(n);
        vec
    }
}

impl PartialEq for Shape {
    fn eq(&self, other: &Shape) -> (r: bool) {
        self.same(other)
    }
}

impl vstd::std_specs::cmp::PartialEqSpecImpl for Shape {
    open spec fn obeys_eq_spec() -> bool {
        true
    }

    open spec fn eq_spec(&self, other: &Shape) -> bool {
        self@ == other@
    }
}

impl Eq for Shape {
}

impl std::ops::Index<usize> for Shape {
    type Output = usize;

    fn index(&self, i: usize) -> &usize {
        if i < self.vec.len() {
            &self.vec[i]
        } else {
            &1
        }
    }
}

impl From<Vec<usize>> for Shape {
    fn from(vec: Vec<usize>) -> (r: Shape) {
        Shape::from_vec(vec)
    }
}

impl<'a> From<&'a [usize]> for Shape {
    fn from(slice: &'a [usize]) -> (r: Shape) {
        Shape::from_slice(slice)
    }
}

impl<'a> vstd::std_specs::convert::FromSpecImpl<&'a [usize]> for Shape {
    open spec fn obeys_from_spec() -> bool {
        false
    }

    open spec fn from_spec(v: &'a [usize]) -> Shape {
        arbitrary()
    }
}

impl vstd::std_specs::convert::FromSpecImpl<Vec<usize>> for Shape {
    open spec fn obeys_from_spec() -> bool {
        false
    }

    open spec fn from_spec(v: Vec<usize>) -> Shape {
        arbitrary()
    }
}

} // verus!
