//! The dynamic runtime's generic object model.
use vstd::prelude::*;
use vstd::string::*;

verus! {

/// Why a dynamic value could not be mapped to a native one.
#[derive(Debug, Clone, Copy, PartialEq, Eq, Structural)]
pub enum MappingError {
    /// The value has the wrong runtime type (for instance a string where an
    /// integer or a sequence is expected).
    WrongType,
    /// An integer does not fit the native integer type.
    OutOfRange,
    /// A fixed-size sequence has the wrong length.
    WrongShape,
    /// An object lacks a field of its class, or holds it under another name.
    MissingField,
    /// An object is an instance of another class.
    WrongClass,
}

/// The description of each mapping failure.
pub open spec fn error_message(e: MappingError) -> Seq<char> {
    match e {
        MappingError::WrongType => "value has the wrong type"@,
        MappingError::OutOfRange => "integer out of range"@,
        MappingError::WrongShape => "sequence has the wrong length"@,
        MappingError::MissingField => "object lacks a field of its class"@,
        MappingError::WrongClass => "object is an instance of another class"@,
    }
}

impl MappingError {
    /// A readable description of the failure.
    pub fn message(&self) -> (r: &'static str)
        ensures
            r@ == error_message(*self),
    {
        match self {
            MappingError::WrongType => "value has the wrong type",
            MappingError::OutOfRange => "integer out of range",
            MappingError::WrongShape => "sequence has the wrong length",
            MappingError::MissingField => "object lacks a field of its class",
            MappingError::WrongClass => "object is an instance of another class",
        }
    }

    /// Whether the failure is one of type (rather than of value).
    pub fn is_type_error(&self) -> (r: bool)
        ensures
            r == (*self == MappingError::WrongType || *self == MappingError::WrongClass || *self
                == MappingError::MissingField),
    {
        match self {
            MappingError::WrongType | MappingError::WrongClass | MappingError::MissingField => true,
            _ => false,
        }
    }
}

/// A value of the dynamic runtime.
#[derive(Debug, PartialEq, Eq)]
pub enum DynValue {
    /// The null-like value.
    Null,
    Bool(bool),
    Int(i128),
    Str(String),
    /// The runtime's own list; the only sequence that native data maps to.
    List(Vec<DynValue>),
    /// A tuple; accepted wherever a sequence is read.
    Tuple(Vec<DynValue>),
    /// A numeric array view of integers; accepted wherever a sequence is read.
    IntArray(Vec<i64>),
    /// An instance of an exposed class.
    Object(DynObject),
}

/// An instance of an exposed class: its class name and its fields in the
/// class's declared order.
#[derive(Debug, PartialEq, Eq)]
pub struct DynObject {
    pub class_name: String,
    pub fields: Vec<DynField>,
}

/// One named field of a [`DynObject`].
#[derive(Debug, PartialEq, Eq)]
pub struct DynField {
    pub name: String,
    pub value: DynValue,
}

/// The element that a numeric array view presents at each position.
pub open spec fn int_item(x: i64) -> DynValue {
    DynValue::Int(x as i128)
}

/// The elements of `d` when it is sequence-like (list, tuple or numeric array),
/// in order.
pub open spec fn seq_items(d: DynValue) -> Option<Seq<DynValue>> {
    match d {
        DynValue::List(v) => Some(v@),
        DynValue::Tuple(v) => Some(v@),
        DynValue::IntArray(a) => Some(a@.map_values(|x: i64| int_item(x))),
        _ => None,
    }
}

/// `v` is an empty dynamic list.
pub open spec fn is_empty_list(v: DynValue) -> bool {
    v matches DynValue::List(items) && items@.len() == 0
}

/// Whether `s` holds the same characters as `t`.
pub fn same_text(s: &String, t: &str) -> (r: bool)
    ensures
        r == (s@ == t@),
{
    let owned = String::from_str(t);
    *s == owned
}

impl DynObject {
    /// The position of the first field named `name`, if any.
    pub fn field_index(&self, name: &str) -> (r: Option<usize>)
        ensures
            match r {
                Some(i) => i < self.fields@.len() && self.fields@[i as int].name@ == name@
                    && forall|j: int| 0 <= j < i ==> (#[trigger] self.fields@[j]).name@ != name@,
                None => forall|j: int|
                    0 <= j < self.fields@.len() ==> (#[trigger] self.fields@[j]).name@ != name@,
            },
    {
        let mut i: usize = 0;
        while i < self.fields.len()
            invariant
                i <= self.fields@.len(),
                forall|j: int| 0 <= j < i ==> (#[trigger] self.fields@[j]).name@ != name@,
            decreases self.fields@.len() - i,
        {
            if same_text(&self.fields[i].name, name) {
                return Some(i);
            }
            i = i + 1;
        }
        None
    }
}

} // verus!
