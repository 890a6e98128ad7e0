//! The exposed classes, each with its name and its ordered field table, and
//! the table-driven layout of their dynamic instances.
use crate::dynamic::{is_empty_list, same_text, DynField, DynObject, DynValue, MappingError};
use vstd::prelude::*;
use vstd::string::*;

verus! {

/// The container kind of a field, which decides the adapter that maps it.
#[derive(Debug, Clone, Copy, PartialEq, Eq, Structural)]
pub enum FieldKind {
    Scalar,
    Optional,
    Sequence,
    FixedMatrix,
    Nested,
    Enumeration,
}

/// The classes exposed to the dynamic runtime.
#[derive(Debug, Clone, Copy, PartialEq, Eq, Structural)]
pub enum ExposedClass {
    AdjData,
    AdjEntryData,
}

pub open spec fn class_name_of(c: ExposedClass) -> Seq<char> {
    match c {
        ExposedClass::AdjData => "AdjData"@,
        ExposedClass::AdjEntryData => "AdjEntryData"@,
    }
}

/// The field names of a class, in declared order.
pub open spec fn field_names_of(c: ExposedClass) -> Seq<Seq<char>> {
    match c {
        ExposedClass::AdjData => seq!["entries"@],
        ExposedClass::AdjEntryData => seq!["mesh_object_index"@, "vertex_adjacency"@],
    }
}

/// The declared type of each field, as written in declaration stubs.
pub open spec fn field_hints_of(c: ExposedClass) -> Seq<Seq<char>> {
    match c {
        ExposedClass::AdjData => seq!["list[AdjEntryData]"@],
        ExposedClass::AdjEntryData => seq!["int"@, "list[int]"@],
    }
}

/// The container kind of each field.
pub open spec fn field_kinds_of(c: ExposedClass) -> Seq<FieldKind> {
    match c {
        ExposedClass::AdjData => seq![FieldKind::Sequence],
        ExposedClass::AdjEntryData => seq![FieldKind::Scalar, FieldKind::Sequence],
    }
}

/// How many leading fields the constructor takes as arguments.
pub open spec fn required_count_of(c: ExposedClass) -> nat {
    match c {
        ExposedClass::AdjData => 0,
        ExposedClass::AdjEntryData => 1,
    }
}

/// The field table of `c` is consistent: one name, type and kind per field,
/// and every field that the constructor does not take has a default.
pub open spec fn table_wf(c: ExposedClass) -> bool {
    &&& field_hints_of(c).len() == field_names_of(c).len()
    &&& field_kinds_of(c).len() == field_names_of(c).len()
    &&& required_count_of(c) <= field_names_of(c).len()
    &&& forall|i: int|
        required_count_of(c) <= i < field_kinds_of(c).len() ==> #[trigger] field_kinds_of(c)[i]
            == FieldKind::Sequence || field_kinds_of(c)[i] == FieldKind::Optional
}

/// Every class of the registry has a consistent field table.
pub proof fn lemma_tables_wf(c: ExposedClass)
    ensures
        table_wf(c),
{
}

pub fn class_name(c: ExposedClass) -> (r: &'static str)
    ensures
        r@ == class_name_of(c),
{
    match c {
        ExposedClass::AdjData => "AdjData",
        ExposedClass::AdjEntryData => "AdjEntryData",
    }
}

pub fn field_count(c: ExposedClass) -> (r: usize)
    ensures
        r == field_names_of(c).len(),
{
    match c {
        ExposedClass::AdjData => 1,
        ExposedClass::AdjEntryData => 2,
    }
}

pub fn required_count(c: ExposedClass) -> (r: usize)
    ensures
        r == required_count_of(c),
{
    match c {
        ExposedClass::AdjData => 0,
        ExposedClass::AdjEntryData => 1,
    }
}

pub fn field_name(c: ExposedClass, i: usize) -> (r: &'static str)
    requires
        i < field_names_of(c).len(),
    ensures
        r@ == field_names_of(c)[i as int],
{
    match c {
        ExposedClass::AdjData => "entries",
        ExposedClass::AdjEntryData => if i == 0 {
            "mesh_object_index"
        } else {
            "vertex_adjacency"
        },
    }
}

pub fn field_hint(c: ExposedClass, i: usize) -> (r: &'static str)
    requires
        i < field_hints_of(c).len(),
    ensures
        r@ == field_hints_of(c)[i as int],
{
    match c {
        ExposedClass::AdjData => "list[AdjEntryData]",
        ExposedClass::AdjEntryData => if i == 0 {
            "int"
        } else {
            "list[int]"
        },
    }
}

pub fn field_kind(c: ExposedClass, i: usize) -> (r: FieldKind)
    requires
        i < field_kinds_of(c).len(),
    ensures
        r == field_kinds_of(c)[i as int],
{
    match c {
        ExposedClass::AdjData => FieldKind::Sequence,
        ExposedClass::AdjEntryData => if i == 0 {
            FieldKind::Scalar
        } else {
            FieldKind::Sequence
        },
    }
}

/// The names of `fields`, in order.
pub open spec fn names_of(fields: Seq<DynField>) -> Seq<Seq<char>> {
    fields.map_values(|f: DynField| f.name@)
}

/// `d` is an instance of `c` with exactly the fields of `c`, in order; these
/// are its field values.
pub open spec fn instance_fields(d: DynValue, c: ExposedClass) -> Option<Seq<DynValue>> {
    match d {
        DynValue::Object(o) => if o.class_name@ == class_name_of(c) && names_of(o.fields@)
            == field_names_of(c) {
            Some(o.fields@.map_values(|f: DynField| f.value))
        } else {
            None
        },
        _ => None,
    }
}

/// Why `d` is not an instance of `c` with the fields of `c`, if it is not.
pub open spec fn instance_error(d: DynValue, c: ExposedClass) -> Option<MappingError> {
    match d {
        DynValue::Object(o) => if o.class_name@ != class_name_of(c) {
            Some(MappingError::WrongClass)
        } else if names_of(o.fields@) != field_names_of(c) {
            Some(MappingError::MissingField)
        } else {
            None
        },
        _ => Some(MappingError::WrongType),
    }
}

/// Whether the fields of `o` carry exactly the names of `c`, in order.
fn fields_match(o: &DynObject, c: ExposedClass) -> (r: bool)
    ensures
        r == (names_of(o.fields@) == field_names_of(c)),
{
    let n = field_count(c);
    if o.fields.len() != n {
        assert(names_of(o.fields@).len() != field_names_of(c).len());
        return false;
    }
    let mut i: usize = 0;
    while i < n
        invariant
            n == o.fields@.len(),
            n == field_names_of(c).len(),
            i <= n,
            forall|j: int| 0 <= j < i ==> (#[trigger] o.fields@[j]).name@ == field_names_of(c)[j],
        decreases n - i,
    {
        if !same_text(&o.fields[i].name, field_name(c, i)) {
            assert(names_of(o.fields@)[i as int] != field_names_of(c)[i as int]);
            return false;
        }
        i = i + 1;
    }
    assert(names_of(o.fields@) =~= field_names_of(c));
    true
}

/// The field values of `d` as an instance of `c`, or why it is none.
pub fn instance_values(d: &DynValue, c: ExposedClass) -> (r: Result<&Vec<DynField>, MappingError>)
    ensures
        match r {
            Ok(fs) => instance_error(*d, c) is None && instance_fields(*d, c) == Some(
                fs@.map_values(|f: DynField| f.value),
            ) && fs@.len() == field_names_of(c).len(),
            Err(e) => instance_error(*d, c) == Some(e),
        },
{
    match d {
        DynValue::Object(o) => {
            if !same_text(&o.class_name, class_name(c)) {
                Err(MappingError::WrongClass)
            } else if !fields_match(o, c) {
                Err(MappingError::MissingField)
            } else {
                Ok(&o.fields)
            }
        },
        _ => Err(MappingError::WrongType),
    }
}

/// Builds an instance of `c` whose fields, in declared order, hold `values`.
pub fn new_instance(c: ExposedClass, values: Vec<DynValue>) -> (r: DynValue)
    requires
        values@.len() == field_names_of(c).len(),
    ensures
        instance_fields(r, c) == Some(values@),
        instance_error(r, c) is None,
{
    let mut fields: Vec<DynField> = Vec::new();
    let mut values = values;
    let ghost vs = values@;
    let n = values.len();
    let mut i: usize = 0;
    while i < n
        invariant
            i <= n,
            n == vs.len(),
            n == field_names_of(c).len(),
            values@ == vs.subrange(i as int, n as int),
            fields@.len() == i,
            forall|j: int|
                0 <= j < i ==> (#[trigger] fields@[j]).name@ == field_names_of(c)[j]
                    && fields@[j].value == vs[j],
        decreases n - i,
    {
        let v = values.remove(0);
        fields.push(DynField { name: String::from_str(field_name(c, i)), value: v });
        i = i + 1;
        assert(values@ =~= vs.subrange(i as int, n as int));
    }
    assert(names_of(fields@) =~= field_names_of(c));
    assert(fields@.map_values(|f: DynField| f.value) =~= vs);
    DynValue::Object(DynObject { class_name: String::from_str(class_name(c)), fields })
}

/// `v` is the value that a field of kind `k` takes when the constructor is
/// not given one: an empty list for a sequence, the null-like value for an
/// optional field.
pub open spec fn is_default_value(k: FieldKind, v: DynValue) -> bool {
    match k {
        FieldKind::Sequence => is_empty_list(v),
        FieldKind::Optional => v is Null,
        _ => false,
    }
}

fn default_value(k: FieldKind) -> (r: DynValue)
    requires
        k == FieldKind::Sequence || k == FieldKind::Optional,
    ensures
        is_default_value(k, r),
{
    match k {
        FieldKind::Sequence => DynValue::List(Vec::new()),
        _ => DynValue::Null,
    }
}

/// Constructs an instance of `c` from the values of its required fields; every
/// other field takes its default.
pub fn construct(c: ExposedClass, required: Vec<DynValue>) -> (r: DynValue)
    requires
        required@.len() == required_count_of(c),
    ensures
        instance_error(r, c) is None,
        instance_fields(r, c) matches Some(vs) && vs.len() == field_names_of(c).len() && vs.subrange(
            0,
            required_count_of(c) as int,
        ) == required@ && forall|i: int|
            required_count_of(c) <= i < vs.len() ==> is_default_value(
                field_kinds_of(c)[i],
                #[trigger] vs[i],
            ),
{
    proof {
        lemma_tables_wf(c);
    }
    let ghost req = required@;
    let mut values = required;
    let n = field_count(c);
    let mut i: usize = required_count(c);
    while i < n
        invariant
            table_wf(c),
            n == field_names_of(c).len(),
            required_count_of(c) <= i <= n,
            values@.len() == i,
            values@.subrange(0, required_count_of(c) as int) == req,
            forall|j: int|
                required_count_of(c) <= j < i ==> is_default_value(
                    field_kinds_of(c)[j],
                    #[trigger] values@[j],
                ),
        decreases n - i,
    {
        let ghost before = values@;
        values.push(default_value(field_kind(c, i)));
        assert(values@.subrange(0, required_count_of(c) as int) =~= before.subrange(
            0,
            required_count_of(c) as int,
        ));
        i = i + 1;
    }
    new_instance(c, values)
}

} // verus!
