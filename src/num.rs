use vstd::prelude::*;

verus! {

/// Types with an additive identity, `bool` included.
pub trait Zero: Sized {
    /// The additive identity.
    spec fn spec_zero() -> Self;

    fn zero() -> (r: Self)
        ensures
            r == Self::spec_zero(),
    ;
}

/// Types with a multiplicative identity, `bool` included.
pub trait One: Sized {
    /// The multiplicative identity.
    spec fn spec_one() -> Self;

    fn one() -> (r: Self)
        ensures
            r == Self::spec_one(),
    ;
}

/// Numeric element types.
pub trait Num: Zero + One + Copy + PartialEq {
}

/// Type that can be put in a tensor.
pub trait Prm: Sized + Copy + PartialEq + Zero + One {
}

/// Types that can be transformed from their host representation to the one
/// a device expects, and back.
pub trait Interop: Copy {
    /// Device representation.
    type Dev: Copy;

    /// Device representation of `self`.
    spec fn spec_to_dev(self) -> Self::Dev;

    /// Host value of the device representation `x`.
    spec fn spec_from_dev(x: Self::Dev) -> Self;

    /// Whether `self` survives the trip to the device and back.
    spec fn spec_representable(self) -> bool;

    /// Transform from host to device representation.
    fn to_dev(self) -> (r: Self::Dev)
        ensures
            r == self.spec_to_dev(),
    ;

    /// Transform from device to host representation.
    fn from_dev(x: Self::Dev) -> (r: Self)
        ensures
            r == Self::spec_from_dev(x),
    ;

    /// A representable value comes back from the device unchanged.
    proof fn lemma_round_trip(v: Self)
        requires
            v.spec_representable(),
        ensures
            Self::spec_from_dev(v.spec_to_dev()) == v,
    ;
}

/// Types whose representation is the same on the host and on a device, so
/// that transfers need no conversion of elements.
pub trait IdentInterop: Interop<Dev = Self> {
    /// The device representation of every value is the value itself.
    proof fn lemma_identity(v: Self)
        ensures
            v.spec_to_dev() == v,
            Self::spec_from_dev(v) == v,
    ;
}

/// Representable values come back from the device unchanged, whatever the
/// element type.
pub proof fn codec_round_trip<T: Interop>(v: T)
    requires
        v.spec_representable(),
    ensures
        T::spec_from_dev(v.spec_to_dev()) == v,
{
    T::lemma_round_trip(v);
}

/// An element type whose codec is the identity round-trips every value.
pub proof fn ident_round_trip<T: IdentInterop>(v: T)
    ensures
        T::spec_from_dev(v.spec_to_dev()) == v,
{
    T::lemma_identity(v);
}

/// Elements written to a device with `to_dev` and read back with `from_dev`
/// are the elements written, as long as each is representable.
pub proof fn bulk_round_trip<T: Interop>(src: Seq<T>, dev: Seq<T::Dev>, back: Seq<T>)
    requires
        forall|i: int| 0 <= i < src.len() ==> (#[trigger] src[i]).spec_representable(),
        dev.len() == src.len(),
        forall|i: int| 0 <= i < src.len() ==> dev[i] == (#[trigger] src[i]).spec_to_dev(),
        back.len() == dev.len(),
        forall|i: int| 0 <= i < dev.len() ==> back[i] == T::spec_from_dev(#[trigger] dev[i]),
    ensures
        back == src,
{
    assert forall|i: int| 0 <= i < src.len() implies back[i] == src[i] by {
        T::lemma_round_trip(src[i]);
    }
    assert(back =~= src);
}

impl Zero for bool {
    open spec fn spec_zero() -> bool {
        false
    }

    fn zero() -> (r: bool) {
        false
    }
}

/// `one()` of `bool` is `false`, the same value as `zero()`; callers that
/// need logical truth should not rely on it.
impl One for bool {
    open spec fn spec_one() -> bool {
        false
    }

    fn one() -> (r: bool) {
        false
    }
}

impl Prm for bool {
}

impl Interop for bool {
    type Dev = u8;

    open spec fn spec_to_dev(self) -> u8 {
        if self {
            0xFFu8
        } else {
            0x00u8
        }
    }

    open spec fn spec_from_dev(x: u8) -> bool {
        x != 0
    }

    open spec fn spec_representable(self) -> bool {
        true
    }

    fn to_dev(self) -> (r: u8) {
        if self {
            0xFF
        } else {
            0x00
        }
    }

    fn from_dev(x: u8) -> (r: bool) {
        x != 0
    }

    proof fn lemma_round_trip(v: bool) {
    }
}

impl Interop for usize {
    type Dev = u32;

    open spec fn spec_to_dev(self) -> u32 {
        self as u32
    }

    open spec fn spec_from_dev(x: u32) -> usize {
        x as usize
    }

    open spec fn spec_representable(self) -> bool {
        self <= u32::MAX
    }

    fn to_dev(self) -> (r: u32) {
        self as u32
    }

    fn from_dev(x: u32) -> (r: usize) {
        x as usize
    }

    proof fn lemma_round_trip(v: usize) {
    }
}

impl Interop for isize {
    type Dev = i32;

    open spec fn spec_to_dev(self) -> i32 {
        self as i32
    }

    open spec fn spec_from_dev(x: i32) -> isize {
        x as isize
    }

    open spec fn spec_representable(self) -> bool {
        i32::MIN <= self <= i32::MAX
    }

    fn to_dev(self) -> (r: i32) {
        self as i32
    }

    fn from_dev(x: i32) -> (r: isize) {
        x as isize
    }

    proof fn lemma_round_trip(v: isize) {
    }
}

impl Zero for u8 {
    open spec fn spec_zero() -> u8 {
        0
    }

    fn zero() -> (r: u8) {
        0
    }
}

impl One for u8 {
    open spec fn spec_one() -> u8 {
        1
    }

    fn one() -> (r: u8) {
        1
    }
}

impl Num for u8 {
}

impl Prm for u8 {
}

impl Zero for u16 {
    open spec fn spec_zero() -> u16 {
        0
    }

    fn zero() -> (r: u16) {
        0
    }
}

impl One for u16 {
    open spec fn spec_one() -> u16 {
        1
    }

    fn one() -> (r: u16) {
        1
    }
}

impl Num for u16 {
}

impl Prm for u16 {
}

impl Zero for u32 {
    open spec fn spec_zero() -> u32 {
        0
    }

    fn zero() -> (r: u32) {
        0
    }
}

impl One for u32 {
    open spec fn spec_one() -> u32 {
        1
    }

    fn one() -> (r: u32) {
        1
    }
}

impl Num for u32 {
}

impl Prm for u32 {
}

impl Zero for u64 {
    open spec fn spec_zero() -> u64 {
        0
    }

    fn zero() -> (r: u64) {
        0
    }
}

impl One for u64 {
    open spec fn spec_one() -> u64 {
        1
    }

    fn one() -> (r: u64) {
        1
    }
}

impl Num for u64 {
}

impl Prm for u64 {
}

impl Zero for i8 {
    open spec fn spec_zero() -> i8 {
        0
    }

    fn zero() -> (r: i8) {
        0
    }
}

impl One for i8 {
    open spec fn spec_one() -> i8 {
        1
    }

    fn one() -> (r: i8) {
        1
    }
}

impl Num for i8 {
}

impl Prm for i8 {
}

impl Zero for i16 {
    open spec fn spec_zero() -> i16 {
        0
    }

    fn zero() -> (r: i16) {
        0
    }
}

impl One for i16 {
    open spec fn spec_one() -> i16 {
        1
    }

    fn one() -> (r: i16) {
        1
    }
}

impl Num for i16 {
}

impl Prm for i16 {
}

impl Zero for i32 {
    open spec fn spec_zero() -> i32 {
        0
    }

    fn zero() -> (r: i32) {
        0
    }
}

impl One for i32 {
    open spec fn spec_one() -> i32 {
        1
    }

    fn one() -> (r: i32) {
        1
    }
}

impl Num for i32 {
}

impl Prm for i32 {
}

impl Zero for i64 {
    open spec fn spec_zero() -> i64 {
        0
    }

    fn zero() -> (r: i64) {
        0
    }
}

impl One for i64 {
    open spec fn spec_one() -> i64 {
        1
    }

    fn one() -> (r: i64) {
        1
    }
}

impl Num for i64 {
}

impl Prm for i64 {
}

impl Zero for usize {
    open spec fn spec_zero() -> usize {
        0
    }

    fn zero() -> (r: usize) {
        0
    }
}

impl One for usize {
    open spec fn spec_one() -> usize {
        1
    }

    fn one() -> (r: usize) {
        1
    }
}

impl Num for usize {
}

impl Prm for usize {
}

impl Zero for isize {
    open spec fn spec_zero() -> isize {
        0
    }

    fn zero() -> (r: isize) {
        0
    }
}

impl One for isize {
    open spec fn spec_one() -> isize {
        1
    }

    fn one() -> (r: isize) {
        1
    }
}

impl Num for isize {
}

impl Prm for isize {
}

impl Interop for u8 {
    type Dev = u8;

    open spec fn spec_to_dev(self) -> u8 {
        self
    }

    open spec fn spec_from_dev(x: u8) -> u8 {
        x
    }

    open spec fn spec_representable(self) -> bool {
        true
    }

    fn to_dev(self) -> (r: u8) {
        self
    }

    fn from_dev(x: u8) -> (r: u8) {
        x
    }

    proof fn lemma_round_trip(v: u8) {
    }
}

impl IdentInterop for u8 {
    proof fn lemma_identity(v: u8) {
    }
}

impl Interop for u16 {
    type Dev = u16;

    open spec fn spec_to_dev(self) -> u16 {
        self
    }

    open spec fn spec_from_dev(x: u16) -> u16 {
        x
    }

    open spec fn spec_representable(self) -> bool {
        true
    }

    fn to_dev(self) -> (r: u16) {
        self
    }

    fn from_dev(x: u16) -> (r: u16) {
        x
    }

    proof fn lemma_round_trip(v: u16) {
    }
}

impl IdentInterop for u16 {
    proof fn lemma_identity(v: u16) {
    }
}

impl Interop for u32 {
    type Dev = u32;

    open spec fn spec_to_dev(self) -> u32 {
        self
    }

    open spec fn spec_from_dev(x: u32) -> u32 {
        x
    }

    open spec fn spec_representable(self) -> bool {
        true
    }

    fn to_dev(self) -> (r: u32) {
        self
    }

    fn from_dev(x: u32) -> (r: u32) {
        x
    }

    proof fn lemma_round_trip(v: u32) {
    }
}

impl IdentInterop for u32 {
    proof fn lemma_identity(v: u32) {
    }
}

impl Interop for u64 {
    type Dev = u64;

    open spec fn spec_to_dev(self) -> u64 {
        self
    }

    open spec fn spec_from_dev(x: u64) -> u64 {
        x
    }

    open spec fn spec_representable(self) -> bool {
        true
    }

    fn to_dev(self) -> (r: u64) {
        self
    }

    fn from_dev(x: u64) -> (r: u64) {
        x
    }

    proof fn lemma_round_trip(v: u64) {
    }
}

impl IdentInterop for u64 {
    proof fn lemma_identity(v: u64) {
    }
}

impl Interop for i8 {
    type Dev = i8;

    open spec fn spec_to_dev(self) -> i8 {
        self
    }

    open spec fn spec_from_dev(x: i8) -> i8 {
        x
    }

    open spec fn spec_representable(self) -> bool {
        true
    }

    fn to_dev(self) -> (r: i8) {
        self
    }

    fn from_dev(x: i8) -> (r: i8) {
        x
    }

    proof fn lemma_round_trip(v: i8) {
    }
}

impl IdentInterop for i8 {
    proof fn lemma_identity(v: i8) {
    }
}

impl Interop for i16 {
    type Dev = i16;

    open spec fn spec_to_dev(self) -> i16 {
        self
    }

    open spec fn spec_from_dev(x: i16) -> i16 {
        x
    }

    open spec fn spec_representable(self) -> bool {
        true
    }

    fn to_dev(self) -> (r: i16) {
        self
    }

    fn from_dev(x: i16) -> (r: i16) {
        x
    }

    proof fn lemma_round_trip(v: i16) {
    }
}

impl IdentInterop for i16 {
    proof fn lemma_identity(v: i16) {
    }
}

impl Interop for i32 {
    type Dev = i32;

    open spec fn spec_to_dev(self) -> i32 {
        self
    }

    open spec fn spec_from_dev(x: i32) -> i32 {
        x
    }

    open spec fn spec_representable(self) -> bool {
        true
    }

    fn to_dev(self) -> (r: i32) {
        self
    }

    fn from_dev(x: i32) -> (r: i32) {
        x
    }

    proof fn lemma_round_trip(v: i32) {
    }
}

impl IdentInterop for i32 {
    proof fn lemma_identity(v: i32) {
    }
}

impl Interop for i64 {
    type Dev = i64;

    open spec fn spec_to_dev(self) -> i64 {
        self
    }

    open spec fn spec_from_dev(x: i64) -> i64 {
        x
    }

    open spec fn spec_representable(self) -> bool {
        true
    }

    fn to_dev(self) -> (r: i64) {
        self
    }

    fn from_dev(x: i64) -> (r: i64) {
        x
    }

    proof fn lemma_round_trip(v: i64) {
    }
}

impl IdentInterop for i64 {
    proof fn lemma_identity(v: i64) {
    }
}

} // verus!
