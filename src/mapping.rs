//! The structural mapping protocol and its leaf and container adapters.
use crate::dynamic::{DynValue, MappingError};
use vstd::prelude::*;

verus! {

/// A native type that maps to and from the dynamic object model.
pub trait MapDyn: Sized {
    /// `d` is the canonical dynamic form of `x`: the one `to_dynamic` builds.
    spec fn dyn_form(x: Self, d: DynValue) -> bool;

    /// The failure that reading `d` as this type runs into, if any.
    spec fn read_error(d: DynValue) -> Option<MappingError>;

    /// Reading `d` as this type yields `x`.
    spec fn reads_as(d: DynValue, x: Self) -> bool;

    /// Maps a native value to a newly built dynamic value.
    fn to_dynamic(&self) -> (r: DynValue)
        ensures
            Self::dyn_form(*self, r),
    ;

    /// Maps a dynamic value back to a native one.
    fn to_native(d: &DynValue) -> (r: Result<Self, MappingError>)
        ensures
            match r {
                Ok(x) => Self::read_error(*d) is None && Self::reads_as(*d, x),
                Err(e) => Self::read_error(*d) == Some(e),
            },
    ;

    /// The canonical form of a value reads back as that value.
    proof fn lemma_form_reads_back(x: Self, d: DynValue)
        requires
            Self::dyn_form(x, d),
        ensures
            Self::read_error(d) is None,
            Self::reads_as(d, x),
    ;

    /// Structural equality: equal scalars, and containers of pairwise
    /// structurally equal elements.
    spec fn same(x: Self, y: Self) -> bool;

    /// Reading is deterministic, up to structural equality.
    proof fn lemma_reads_unique(d: DynValue, x: Self, y: Self)
        requires
            Self::reads_as(d, x),
            Self::reads_as(d, y),
        ensures
            Self::same(x, y),
    ;
}

/// A `i16` maps to a dynamic integer; reading rejects integers out of its range.
impl MapDyn for i16 {
    open spec fn dyn_form(x: i16, d: DynValue) -> bool {
        d == DynValue::Int(x as i128)
    }

    open spec fn read_error(d: DynValue) -> Option<MappingError> {
        match d {
            DynValue::Int(n) => if i16::MIN <= n <= i16::MAX {
                None
            } else {
                Some(MappingError::OutOfRange)
            },
            _ => Some(MappingError::WrongType),
        }
    }

    open spec fn same(x: i16, y: i16) -> bool {
        x == y
    }

    open spec fn reads_as(d: DynValue, x: i16) -> bool {
        d == DynValue::Int(x as i128)
    }

    fn to_dynamic(&self) -> (r: DynValue) {
        DynValue::Int(*self as i128)
    }

    fn to_native(d: &DynValue) -> (r: Result<i16, MappingError>) {
        match d {
            DynValue::Int(n) => if i16::MIN as i128 <= *n && *n <= i16::MAX as i128 {
                Ok(*n as i16)
            } else {
                Err(MappingError::OutOfRange)
            },
            _ => Err(MappingError::WrongType),
        }
    }

    proof fn lemma_form_reads_back(x: i16, d: DynValue) {
    }

    proof fn lemma_reads_unique(d: DynValue, x: i16, y: i16) {
    }
}

/// A `u32` maps to a dynamic integer; reading rejects integers out of its range.
impl MapDyn for u32 {
    open spec fn dyn_form(x: u32, d: DynValue) -> bool {
        d == DynValue::Int(x as i128)
    }

    open spec fn read_error(d: DynValue) -> Option<MappingError> {
        match d {
            DynValue::Int(n) => if 0 <= n <= u32::MAX {
                None
            } else {
                Some(MappingError::OutOfRange)
            },
            _ => Some(MappingError::WrongType),
        }
    }

    open spec fn same(x: u32, y: u32) -> bool {
        x == y
    }

    open spec fn reads_as(d: DynValue, x: u32) -> bool {
        d == DynValue::Int(x as i128)
    }

    fn to_dynamic(&self) -> (r: DynValue) {
        DynValue::Int(*self as i128)
    }

    fn to_native(d: &DynValue) -> (r: Result<u32, MappingError>) {
        match d {
            DynValue::Int(n) => if 0 <= *n && *n <= u32::MAX as i128 {
                Ok(*n as u32)
            } else {
                Err(MappingError::OutOfRange)
            },
            _ => Err(MappingError::WrongType),
        }
    }

    proof fn lemma_form_reads_back(x: u32, d: DynValue) {
    }

    proof fn lemma_reads_unique(d: DynValue, x: u32, y: u32) {
    }
}

/// A `u8` maps to a dynamic integer; reading rejects integers out of its range.
impl MapDyn for u8 {
    open spec fn dyn_form(x: u8, d: DynValue) -> bool {
        d == DynValue::Int(x as i128)
    }

    open spec fn read_error(d: DynValue) -> Option<MappingError> {
        match d {
            DynValue::Int(n) => if 0 <= n <= u8::MAX {
                None
            } else {
                Some(MappingError::OutOfRange)
            },
            _ => Some(MappingError::WrongType),
        }
    }

    open spec fn same(x: u8, y: u8) -> bool {
        x == y
    }

    open spec fn reads_as(d: DynValue, x: u8) -> bool {
        d == DynValue::Int(x as i128)
    }

    fn to_dynamic(&self) -> (r: DynValue) {
        DynValue::Int(*self as i128)
    }

    fn to_native(d: &DynValue) -> (r: Result<u8, MappingError>) {
        match d {
            DynValue::Int(n) => if 0 <= *n && *n <= u8::MAX as i128 {
                Ok(*n as u8)
            } else {
                Err(MappingError::OutOfRange)
            },
            _ => Err(MappingError::WrongType),
        }
    }

    proof fn lemma_form_reads_back(x: u8, d: DynValue) {
    }

    proof fn lemma_reads_unique(d: DynValue, x: u8, y: u8) {
    }
}

/// A `u16` maps to a dynamic integer; reading rejects integers out of its range.
impl MapDyn for u16 {
    open spec fn dyn_form(x: u16, d: DynValue) -> bool {
        d == DynValue::Int(x as i128)
    }

    open spec fn read_error(d: DynValue) -> Option<MappingError> {
        match d {
            DynValue::Int(n) => if 0 <= n <= u16::MAX {
                None
            } else {
                Some(MappingError::OutOfRange)
            },
            _ => Some(MappingError::WrongType),
        }
    }

    open spec fn same(x: u16, y: u16) -> bool {
        x == y
    }

    open spec fn reads_as(d: DynValue, x: u16) -> bool {
        d == DynValue::Int(x as i128)
    }

    fn to_dynamic(&self) -> (r: DynValue) {
        DynValue::Int(*self as i128)
    }

    fn to_native(d: &DynValue) -> (r: Result<u16, MappingError>) {
        match d {
            DynValue::Int(n) => if 0 <= *n && *n <= u16::MAX as i128 {
                Ok(*n as u16)
            } else {
                Err(MappingError::OutOfRange)
            },
            _ => Err(MappingError::WrongType),
        }
    }

    proof fn lemma_form_reads_back(x: u16, d: DynValue) {
    }

    proof fn lemma_reads_unique(d: DynValue, x: u16, y: u16) {
    }
}

/// A `u64` maps to a dynamic integer; reading rejects integers out of its range.
impl MapDyn for u64 {
    open spec fn dyn_form(x: u64, d: DynValue) -> bool {
        d == DynValue::Int(x as i128)
    }

    open spec fn read_error(d: DynValue) -> Option<MappingError> {
        match d {
            DynValue::Int(n) => if 0 <= n <= u64::MAX {
                None
            } else {
                Some(MappingError::OutOfRange)
            },
            _ => Some(MappingError::WrongType),
        }
    }

    open spec fn same(x: u64, y: u64) -> bool {
        x == y
    }

    open spec fn reads_as(d: DynValue, x: u64) -> bool {
        d == DynValue::Int(x as i128)
    }

    fn to_dynamic(&self) -> (r: DynValue) {
        DynValue::Int(*self as i128)
    }

    fn to_native(d: &DynValue) -> (r: Result<u64, MappingError>) {
        match d {
            DynValue::Int(n) => if 0 <= *n && *n <= u64::MAX as i128 {
                Ok(*n as u64)
            } else {
                Err(MappingError::OutOfRange)
            },
            _ => Err(MappingError::WrongType),
        }
    }

    proof fn lemma_form_reads_back(x: u64, d: DynValue) {
    }

    proof fn lemma_reads_unique(d: DynValue, x: u64, y: u64) {
    }
}

/// A `usize` maps to a dynamic integer; reading rejects integers out of its range.
impl MapDyn for usize {
    open spec fn dyn_form(x: usize, d: DynValue) -> bool {
        d == DynValue::Int(x as i128)
    }

    open spec fn read_error(d: DynValue) -> Option<MappingError> {
        match d {
            DynValue::Int(n) => if 0 <= n <= usize::MAX {
                None
            } else {
                Some(MappingError::OutOfRange)
            },
            _ => Some(MappingError::WrongType),
        }
    }

    open spec fn same(x: usize, y: usize) -> bool {
        x == y
    }

    open spec fn reads_as(d: DynValue, x: usize) -> bool {
        d == DynValue::Int(x as i128)
    }

    fn to_dynamic(&self) -> (r: DynValue) {
        DynValue::Int(*self as i128)
    }

    fn to_native(d: &DynValue) -> (r: Result<usize, MappingError>) {
        match d {
            DynValue::Int(n) => if 0 <= *n && *n <= usize::MAX as i128 {
                Ok(*n as usize)
            } else {
                Err(MappingError::OutOfRange)
            },
            _ => Err(MappingError::WrongType),
        }
    }

    proof fn lemma_form_reads_back(x: usize, d: DynValue) {
    }

    proof fn lemma_reads_unique(d: DynValue, x: usize, y: usize) {
    }
}

/// A `bool` maps to a dynamic boolean.
impl MapDyn for bool {
    open spec fn dyn_form(x: bool, d: DynValue) -> bool {
        d == DynValue::Bool(x)
    }

    open spec fn read_error(d: DynValue) -> Option<MappingError> {
        match d {
            DynValue::Bool(_) => None,
            _ => Some(MappingError::WrongType),
        }
    }

    open spec fn same(x: bool, y: bool) -> bool {
        x == y
    }

    open spec fn reads_as(d: DynValue, x: bool) -> bool {
        d == DynValue::Bool(x)
    }

    fn to_dynamic(&self) -> (r: DynValue) {
        DynValue::Bool(*self)
    }

    fn to_native(d: &DynValue) -> (r: Result<bool, MappingError>) {
        match d {
            DynValue::Bool(b) => Ok(*b),
            _ => Err(MappingError::WrongType),
        }
    }

    proof fn lemma_form_reads_back(x: bool, d: DynValue) {
    }

    proof fn lemma_reads_unique(d: DynValue, x: bool, y: bool) {
    }
}

/// Text maps to a dynamic string.
impl MapDyn for String {
    open spec fn dyn_form(x: String, d: DynValue) -> bool {
        d matches DynValue::Str(s) && s@ == x@
    }

    open spec fn read_error(d: DynValue) -> Option<MappingError> {
        match d {
            DynValue::Str(_) => None,
            _ => Some(MappingError::WrongType),
        }
    }

    open spec fn same(x: String, y: String) -> bool {
        x@ == y@
    }

    open spec fn reads_as(d: DynValue, x: String) -> bool {
        d matches DynValue::Str(s) && s@ == x@
    }

    fn to_dynamic(&self) -> (r: DynValue) {
        DynValue::Str(self.clone())
    }

    fn to_native(d: &DynValue) -> (r: Result<String, MappingError>) {
        match d {
            DynValue::Str(s) => Ok(s.clone()),
            _ => Err(MappingError::WrongType),
        }
    }

    proof fn lemma_form_reads_back(x: String, d: DynValue) {
    }

    proof fn lemma_reads_unique(d: DynValue, x: String, y: String) {
    }
}

} // verus!
