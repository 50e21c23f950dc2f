//! Conversions between the primitive integer types and the fixed-width
//! values external interfaces trade in.

use vstd::prelude::*;

verus! {

/// An integer type convertible to and from 64-bit values, truncating
/// where the target is narrower.
pub trait Num: Sized + Copy {
    fn as_i64(self) -> i64;

    fn from_i64(value: i64) -> Self;

    fn as_u64(self) -> u64;

    fn from_u64(value: u64) -> Self;

    fn as_usize(self) -> usize;
}

impl Num for i8 {
    fn as_i64(self) -> i64 {
        self as i64
    }

    fn from_i64(value: i64) -> Self {
        #[verifier::truncate] (value as i8)
    }

    fn as_u64(self) -> u64 {
        #[verifier::truncate] (self as u64)
    }

    fn from_u64(value: u64) -> Self {
        #[verifier::truncate] (value as i8)
    }

    fn as_usize(self) -> usize {
        #[verifier::truncate] (self as usize)
    }
}

impl Num for u8 {
    fn as_i64(self) -> i64 {
        self as i64
    }

    fn from_i64(value: i64) -> Self {
        #[verifier::truncate] (value as u8)
    }

    fn as_u64(self) -> u64 {
        self as u64
    }

    fn from_u64(value: u64) -> Self {
        #[verifier::truncate] (value as u8)
    }

    fn as_usize(self) -> usize {
        self as usize
    }
}

impl Num for i16 {
    fn as_i64(self) -> i64 {
        self as i64
    }

    fn from_i64(value: i64) -> Self {
        #[verifier::truncate] (value as i16)
    }

    fn as_u64(self) -> u64 {
        #[verifier::truncate] (self as u64)
    }

    fn from_u64(value: u64) -> Self {
        #[verifier::truncate] (value as i16)
    }

    fn as_usize(self) -> usize {
        #[verifier::truncate] (self as usize)
    }
}

impl Num for u16 {
    fn as_i64(self) -> i64 {
        self as i64
    }

    fn from_i64(value: i64) -> Self {
        #[verifier::truncate] (value as u16)
    }

    fn as_u64(self) -> u64 {
        self as u64
    }

    fn from_u64(value: u64) -> Self {
        #[verifier::truncate] (value as u16)
    }

    fn as_usize(self) -> usize {
        self as usize
    }
}

impl Num for i32 {
    fn as_i64(self) -> i64 {
        self as i64
    }

    fn from_i64(value: i64) -> Self {
        #[verifier::truncate] (value as i32)
    }

    fn as_u64(self) -> u64 {
        #[verifier::truncate] (self as u64)
    }

    fn from_u64(value: u64) -> Self {
        #[verifier::truncate] (value as i32)
    }

    fn as_usize(self) -> usize {
        #[verifier::truncate] (self as usize)
    }
}

impl Num for u32 {
    fn as_i64(self) -> i64 {
        self as i64
    }

    fn from_i64(value: i64) -> Self {
        #[verifier::truncate] (value as u32)
    }

    fn as_u64(self) -> u64 {
        self as u64
    }

    fn from_u64(value: u64) -> Self {
        #[verifier::truncate] (value as u32)
    }

    fn as_usize(self) -> usize {
        #[verifier::truncate] (self as usize)
    }
}

impl Num for i64 {
    fn as_i64(self) -> i64 {
        self
    }

    fn from_i64(value: i64) -> Self {
        value
    }

    fn as_u64(self) -> u64 {
        #[verifier::truncate] (self as u64)
    }

    fn from_u64(value: u64) -> Self {
        #[verifier::truncate] (value as i64)
    }

    fn as_usize(self) -> usize {
        #[verifier::truncate] (self as usize)
    }
}

impl Num for u64 {
    fn as_i64(self) -> i64 {
        #[verifier::truncate] (self as i64)
    }

    fn from_i64(value: i64) -> Self {
        #[verifier::truncate] (value as u64)
    }

    fn as_u64(self) -> u64 {
        self
    }

    fn from_u64(value: u64) -> Self {
        value
    }

    fn as_usize(self) -> usize {
        #[verifier::truncate] (self as usize)
    }
}

impl Num for isize {
    fn as_i64(self) -> i64 {
        #[verifier::truncate] (self as i64)
    }

    fn from_i64(value: i64) -> Self {
        #[verifier::truncate] (value as isize)
    }

    fn as_u64(self) -> u64 {
        #[verifier::truncate] (self as u64)
    }

    fn from_u64(value: u64) -> Self {
        #[verifier::truncate] (value as isize)
    }

    fn as_usize(self) -> usize {
        #[verifier::truncate] (self as usize)
    }
}

impl Num for usize {
    fn as_i64(self) -> i64 {
        #[verifier::truncate] (self as i64)
    }

    fn from_i64(value: i64) -> Self {
        #[verifier::truncate] (value as usize)
    }

    fn as_u64(self) -> u64 {
        #[verifier::truncate] (self as u64)
    }

    fn from_u64(value: u64) -> Self {
        #[verifier::truncate] (value as usize)
    }

    fn as_usize(self) -> usize {
        self
    }
}

} // verus!
