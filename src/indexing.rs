//! Narrow unsigned indices: slot references stored in 8, 16 or 32 bits and
//! converted losslessly to and from `usize`.

use vstd::prelude::*;

verus! {

/// An unsigned integer width that can hold a slot index.
pub trait UnsignedType: Copy + Sized {
    /// The largest value of the width.
    spec fn max_value() -> nat;

    /// The value as a natural number.
    spec fn as_nat(self) -> nat;

    /// The value of the width that stands for `v`.
    spec fn from_nat(v: nat) -> Self;

    /// `from_nat` inverts `as_nat` on the representable range.
    proof fn lemma_from_nat(v: nat)
        requires
            v <= Self::max_value(),
        ensures
            Self::from_nat(v).as_nat() == v,
    ;

    /// The largest value of the width, as a `usize`.
    fn max_usize() -> (r: usize)
        ensures
            r as nat == Self::max_value(),
    ;

    /// Narrows a `usize` that the width can represent.
    fn from_usize(v: usize) -> (r: Self)
        requires
            v as nat <= Self::max_value(),
        ensures
            r == Self::from_nat(v as nat),
            r.as_nat() == v as nat,
    ;

    /// Widens the value to a `usize`.
    fn to_usize(self) -> (r: usize)
        ensures
            r as nat == self.as_nat(),
    ;

    /// Compares the value with a signed 32-bit integer without narrowing it.
    fn equals_i32(self, other: i32) -> (r: bool)
        ensures
            r == (self.as_nat() as int == other as int),
    ;
}

impl UnsignedType for u8 {
    open spec fn max_value() -> nat {
        255
    }

    open spec fn as_nat(self) -> nat {
        self as nat
    }

    open spec fn from_nat(v: nat) -> Self {
        v as u8
    }

    proof fn lemma_from_nat(v: nat) {
    }

    fn max_usize() -> (r: usize) {
        255
    }

    fn from_usize(v: usize) -> (r: Self) {
        v as u8
    }

    fn to_usize(self) -> (r: usize) {
        self as usize
    }

    fn equals_i32(self, other: i32) -> (r: bool) {
        // A u8 widens to i32 without loss.
        self as i32 == other
    }
}

impl UnsignedType for u16 {
    open spec fn max_value() -> nat {
        65535
    }

    open spec fn as_nat(self) -> nat {
        self as nat
    }

    open spec fn from_nat(v: nat) -> Self {
        v as u16
    }

    proof fn lemma_from_nat(v: nat) {
    }

    fn max_usize() -> (r: usize) {
        65535
    }

    fn from_usize(v: usize) -> (r: Self) {
        v as u16
    }

    fn to_usize(self) -> (r: usize) {
        self as usize
    }

    fn equals_i32(self, other: i32) -> (r: bool) {
        // A u16 widens to i32 without loss.
        self as i32 == other
    }
}

impl UnsignedType for u32 {
    open spec fn max_value() -> nat {
        4294967295
    }

    open spec fn as_nat(self) -> nat {
        self as nat
    }

    open spec fn from_nat(v: nat) -> Self {
        v as u32
    }

    proof fn lemma_from_nat(v: nat) {
    }

    fn max_usize() -> (r: usize) {
        4294967295
    }

    fn from_usize(v: usize) -> (r: Self) {
        v as u32
    }

    fn to_usize(self) -> (r: usize) {
        self as usize
    }

    fn equals_i32(self, other: i32) -> (r: bool) {
        // A negative comparand never equals an unsigned value; a non-negative
        // one widens to u32 without loss.
        if other < 0 {
            false
        } else {
            self == other as u32
        }
    }
}

/// The error of a conversion into a narrow index.
#[derive(Clone, Copy, Debug, PartialEq, Eq, Structural)]
pub enum IndexError {
    /// The value exceeds the largest value of the index width.
    UsizeDowncastError,
}

/// A slot reference stored in the width `I`. The value 0 is the empty index.
#[derive(Clone, Copy, Debug)]
pub struct Index<I: UnsignedType>(pub I);

impl<I: UnsignedType> Index<I> {
    /// The value of the index.
    pub open spec fn value(self) -> nat {
        self.0.as_nat()
    }

    /// What `from_address` returns for `v`.
    pub open spec fn spec_from_address(v: nat) -> Result<Index<I>, IndexError> {
        if v <= I::max_value() {
            Ok(Index(I::from_nat(v)))
        } else {
            Err(IndexError::UsizeDowncastError)
        }
    }

    /// Narrows `value`; fails rather than truncate when the width cannot hold it.
    pub fn from_address(value: usize) -> (r: Result<Index<I>, IndexError>)
        ensures
            r == Self::spec_from_address(value as nat),
            r is Ok <==> value as nat <= I::max_value(),
            r matches Ok(i) ==> i.value() == value as nat,
    {
        if value > I::max_usize() {
            Err(IndexError::UsizeDowncastError)
        } else {
            Ok(Index(I::from_usize(value)))
        }
    }

    /// Widens the index; never fails.
    pub fn to_address(self) -> (r: usize)
        ensures
            r as nat == self.value(),
    {
        self.0.to_usize()
    }

    /// Whether the index equals a signed comparand; a negative one never does.
    pub fn equals_address(self, other: i32) -> (r: bool)
        ensures
            r == (self.value() as int == other as int),
    {
        self.0.equals_i32(other)
    }
}

/// Narrowing then widening gives back every value the width can hold, and
/// narrowing fails on every value above its maximum.
pub proof fn lemma_index_round_trip<I: UnsignedType>(v: nat)
    ensures
        v <= I::max_value() ==> (Index::<I>::spec_from_address(v) matches Ok(i) && i.value() == v),
        v > I::max_value() ==> Index::<I>::spec_from_address(v) == Err::<Index<I>, IndexError>(
            IndexError::UsizeDowncastError,
        ),
{
    if v <= I::max_value() {
        I::lemma_from_nat(v);
    }
}

} // verus!
