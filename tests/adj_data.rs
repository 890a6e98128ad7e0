use ssbh_data::adj_data::{AdjData, AdjEntryData};
use ssbh_data_py::adj_data::{new_adj_data, new_adj_entry_data};
use ssbh_data_py::dynamic::{DynField, DynObject, DynValue, MappingError};
use ssbh_data_py::mapping::MapDyn;
use ssbh_data_py::registry::{construct, ExposedClass};
use ssbh_data_py::stubs::{adj_data_stub, class_stub, stub_text};

fn object(d: &DynValue) -> &DynObject {
    match d {
        DynValue::Object(o) => o,
        other => panic!("not an object: {:?}", other),
    }
}

fn object_mut(d: &mut DynValue) -> &mut DynObject {
    match d {
        DynValue::Object(o) => o,
        other => panic!("not an object: {:?}", other),
    }
}

fn field<'a>(d: &'a DynValue, name: &str) -> &'a DynValue {
    let o = object(d);
    let i = o.field_index(name).unwrap();
    &o.fields[i].value
}

fn set_field(d: &mut DynValue, name: &str, value: DynValue) {
    let o = object_mut(d);
    let i = o.field_index(name).unwrap();
    o.fields[i].value = value;
}

fn ints(values: &[i128]) -> Vec<DynValue> {
    values.iter().map(|v| DynValue::Int(*v)).collect()
}

fn entry(index: usize, adjacency: Vec<i16>) -> AdjEntryData {
    AdjEntryData {
        mesh_object_index: index,
        vertex_adjacency: adjacency,
    }
}

#[test]
fn create_adj() {
    let a = new_adj_data();
    assert_eq!(field(&a, "entries"), &DynValue::List(Vec::new()));
}

#[test]
fn create_adj_entry() {
    let e = new_adj_entry_data(3);
    assert_eq!(field(&e, "mesh_object_index"), &DynValue::Int(3));
    assert_eq!(field(&e, "vertex_adjacency"), &DynValue::List(Vec::new()));
}

#[test]
fn vertex_adjacency_tuples() {
    let mut e = new_adj_entry_data(3);
    assert_eq!(field(&e, "mesh_object_index"), &DynValue::Int(3));
    set_field(&mut e, "vertex_adjacency", DynValue::Tuple(ints(&[-1, 3, 7])));
    let adjacency = Vec::<i16>::to_native(field(&e, "vertex_adjacency")).unwrap();
    assert_eq!(adjacency, vec![-1, 3, 7]);
}

#[test]
fn vertex_adjacency_numpy() {
    let mut e = new_adj_entry_data(3);
    assert_eq!(field(&e, "mesh_object_index"), &DynValue::Int(3));
    set_field(&mut e, "vertex_adjacency", DynValue::IntArray(vec![-1, 3, 7]));
    let adjacency = Vec::<i16>::to_native(field(&e, "vertex_adjacency")).unwrap();
    assert_eq!(adjacency.to_dynamic(), DynValue::List(ints(&[-1, 3, 7])));
}

#[test]
fn adjacency_tuple_reads_back_as_entry() {
    let mut e = new_adj_entry_data(3);
    set_field(&mut e, "vertex_adjacency", DynValue::Tuple(ints(&[-1, 3, 7])));
    assert_eq!(AdjEntryData::to_native(&e).unwrap(), entry(3, vec![-1, 3, 7]));
}

#[test]
fn entry_maps_to_dynamic_object() {
    let d = entry(2, vec![5, -1]).to_dynamic();
    let expected = DynValue::Object(DynObject {
        class_name: "AdjEntryData".to_string(),
        fields: vec![
            DynField {
                name: "mesh_object_index".to_string(),
                value: DynValue::Int(2),
            },
            DynField {
                name: "vertex_adjacency".to_string(),
                value: DynValue::List(ints(&[5, -1])),
            },
        ],
    });
    assert_eq!(d, expected);
}

#[test]
fn adj_data_round_trip() {
    let data = AdjData {
        entries: vec![entry(0, vec![1, 2, -1]), entry(4, vec![]), entry(7, vec![3])],
    };
    let d = data.to_dynamic();
    assert_eq!(AdjData::to_native(&d).unwrap(), data);
}

#[test]
fn empty_adj_data_round_trip() {
    let data = AdjData { entries: vec![] };
    assert_eq!(AdjData::to_native(&data.to_dynamic()).unwrap(), data);
}

#[test]
fn tuple_list_and_array_read_alike() {
    let from_list = Vec::<i16>::to_native(&DynValue::List(ints(&[4, -2, 9]))).unwrap();
    let from_tuple = Vec::<i16>::to_native(&DynValue::Tuple(ints(&[4, -2, 9]))).unwrap();
    let from_array = Vec::<i16>::to_native(&DynValue::IntArray(vec![4, -2, 9])).unwrap();
    assert_eq!(from_list, vec![4, -2, 9]);
    assert_eq!(from_tuple, from_list);
    assert_eq!(from_array, from_list);
}

#[test]
fn tuple_of_entries_reads_like_list() {
    let mut a = new_adj_data();
    let items = vec![entry(1, vec![2]).to_dynamic(), entry(5, vec![]).to_dynamic()];
    set_field(&mut a, "entries", DynValue::Tuple(items));
    let data = AdjData::to_native(&a).unwrap();
    assert_eq!(data.entries, vec![entry(1, vec![2]), entry(5, vec![])]);
}

#[test]
fn sequence_of_wrong_type_is_rejected() {
    assert_eq!(
        Vec::<i16>::to_native(&DynValue::Str("abc".to_string())),
        Err(MappingError::WrongType)
    );
    assert_eq!(
        Vec::<i16>::to_native(&DynValue::List(vec![DynValue::Int(1), DynValue::Bool(true)])),
        Err(MappingError::WrongType)
    );
}

#[test]
fn out_of_range_element_is_rejected() {
    assert_eq!(
        Vec::<i16>::to_native(&DynValue::IntArray(vec![1, 40000])),
        Err(MappingError::OutOfRange)
    );
    assert_eq!(usize::to_native(&DynValue::Int(-1)), Err(MappingError::OutOfRange));
    assert_eq!(i16::to_native(&DynValue::Int(-32768)), Ok(-32768));
    assert_eq!(u32::to_native(&DynValue::Int(4294967296)), Err(MappingError::OutOfRange));
}

#[test]
fn first_failing_element_decides_the_error() {
    let d = DynValue::List(vec![DynValue::Int(70000), DynValue::Null]);
    assert_eq!(Vec::<i16>::to_native(&d), Err(MappingError::OutOfRange));
    let d = DynValue::List(vec![DynValue::Null, DynValue::Int(70000)]);
    assert_eq!(Vec::<i16>::to_native(&d), Err(MappingError::WrongType));
}

#[test]
fn wrong_class_is_rejected() {
    let a = new_adj_data();
    assert_eq!(AdjEntryData::to_native(&a), Err(MappingError::WrongClass));
    assert_eq!(AdjData::to_native(&DynValue::Int(1)), Err(MappingError::WrongType));
}

#[test]
fn missing_field_is_rejected() {
    let mut e = new_adj_entry_data(1);
    object_mut(&mut e).fields.pop();
    assert_eq!(AdjEntryData::to_native(&e), Err(MappingError::MissingField));

    let mut e = new_adj_entry_data(1);
    object_mut(&mut e).fields[1].name = "adjacency".to_string();
    assert_eq!(AdjEntryData::to_native(&e), Err(MappingError::MissingField));
}

#[test]
fn bad_entry_inside_list_fails_whole_mapping() {
    let mut a = new_adj_data();
    let mut bad = new_adj_entry_data(2);
    set_field(&mut bad, "vertex_adjacency", DynValue::Str("x".to_string()));
    set_field(&mut a, "entries", DynValue::List(vec![entry(0, vec![1]).to_dynamic(), bad]));
    assert_eq!(AdjData::to_native(&a), Err(MappingError::WrongType));
}

fn int_matrix(rows: usize, cols: usize) -> DynValue {
    DynValue::List(
        (0..rows)
            .map(|r| DynValue::List((0..cols).map(|c| DynValue::Int((r * 4 + c) as i128)).collect()))
            .collect(),
    )
}

#[test]
fn matrix_3x3_is_rejected() {
    assert_eq!(<[[u32; 4]; 4]>::to_native(&int_matrix(3, 3)), Err(MappingError::WrongShape));
}

#[test]
fn matrix_with_short_row_is_rejected() {
    assert_eq!(<[[u32; 4]; 4]>::to_native(&int_matrix(4, 3)), Err(MappingError::WrongShape));
    assert_eq!(<[[u32; 4]; 4]>::to_native(&int_matrix(4, 5)), Err(MappingError::WrongShape));
    assert_eq!(<[[u32; 4]; 4]>::to_native(&int_matrix(5, 4)), Err(MappingError::WrongShape));
}

#[test]
fn matrix_round_trip() {
    let m: [[u32; 4]; 4] = [[1, 2, 3, 4], [5, 6, 7, 8], [9, 10, 11, 12], [13, 14, 15, 16]];
    let d = m.to_dynamic();
    let expected = DynValue::List(
        (0..4)
            .map(|r| DynValue::List((0..4).map(|c| DynValue::Int(r * 4 + c + 1)).collect()))
            .collect(),
    );
    assert_eq!(d, expected);
    assert_eq!(<[[u32; 4]; 4]>::to_native(&d), Ok(m));
}

#[test]
fn matrix_from_tuples_and_arrays() {
    let d = DynValue::Tuple(vec![
        DynValue::IntArray(vec![1, 0, 0, 0]),
        DynValue::Tuple(ints(&[0, 1, 0, 0])),
        DynValue::List(ints(&[0, 0, 1, 0])),
        DynValue::IntArray(vec![0, 0, 0, 1]),
    ]);
    let m = <[[u32; 4]; 4]>::to_native(&d).unwrap();
    assert_eq!(m, [[1, 0, 0, 0], [0, 1, 0, 0], [0, 0, 1, 0], [0, 0, 0, 1]]);
}

#[test]
fn optional_values_map_to_null() {
    assert_eq!(Option::<u32>::None.to_dynamic(), DynValue::Null);
    assert_eq!(Some(5u32).to_dynamic(), DynValue::Int(5));
    assert_eq!(Option::<u32>::to_native(&DynValue::Null), Ok(None));
    assert_eq!(Option::<u32>::to_native(&DynValue::Int(9)), Ok(Some(9)));
    assert_eq!(Option::<u32>::to_native(&DynValue::Bool(true)), Err(MappingError::WrongType));
}

#[test]
fn bool_leaf_maps_both_ways() {
    assert_eq!(true.to_dynamic(), DynValue::Bool(true));
    assert_eq!(bool::to_native(&DynValue::Bool(false)), Ok(false));
    assert_eq!(bool::to_native(&DynValue::Int(0)), Err(MappingError::WrongType));
}

#[test]
fn construct_fills_defaults() {
    let e = construct(ExposedClass::AdjEntryData, vec![DynValue::Int(8)]);
    assert_eq!(field(&e, "mesh_object_index"), &DynValue::Int(8));
    assert_eq!(field(&e, "vertex_adjacency"), &DynValue::List(Vec::new()));
    let a = construct(ExposedClass::AdjData, Vec::new());
    assert_eq!(field(&a, "entries"), &DynValue::List(Vec::new()));
}

#[test]
fn field_index_finds_first_match() {
    let e = new_adj_entry_data(0);
    assert_eq!(object(&e).field_index("vertex_adjacency"), Some(1));
    assert_eq!(object(&e).field_index("mesh_object_index"), Some(0));
    assert_eq!(object(&e).field_index("positions"), None);
}

#[test]
fn class_stubs_list_fields_in_order() {
    assert_eq!(
        class_stub(ExposedClass::AdjEntryData),
        "class AdjEntryData:\n    mesh_object_index: int\n    vertex_adjacency: list[int]\n"
    );
    assert_eq!(class_stub(ExposedClass::AdjData), "class AdjData:\n    entries: list[AdjEntryData]\n");
}

#[test]
fn stub_file_layout() {
    let text = stub_text(
        &vec!["def f() -> int: ...".to_string(), "def g() -> int: ...".to_string()],
        &vec!["class A:\n".to_string(), "class B:\n".to_string()],
    );
    assert_eq!(
        text,
        "# This file is rewritten on every build; edits to it will be lost.\n\
         from typing import List, Tuple, Any, Optional, Union, ClassVar\n\n\n\
         def f() -> int: ...\n\n\n\
         def g() -> int: ...\n\n\n\
         class A:\n\n\n\nclass B:\n\n"
    );
}

#[test]
fn adj_data_stub_text() {
    let text = adj_data_stub();
    assert!(text.starts_with("# This file is rewritten on every build"));
    assert!(text.contains("def read_adj(path: str) -> AdjData: ...\n\n\n"));
    assert!(text.ends_with(
        "class AdjData:\n    entries: list[AdjEntryData]\n\n\n\n\
         class AdjEntryData:\n    mesh_object_index: int\n    vertex_adjacency: list[int]\n\n"
    ));
}

#[test]
fn reread_adjacency_file_saves_canonical_bytes() {
    let data = AdjData {
        entries: vec![entry(0, vec![1, 2, -1, 5]), entry(3, vec![0, 4])],
    };
    let mut original = std::io::Cursor::new(Vec::new());
    data.write(&mut original).unwrap();
    let bytes = original.into_inner();

    let read = AdjData::read(&mut std::io::Cursor::new(bytes.clone())).unwrap();
    let dynamic = read.to_dynamic();
    let saved = AdjData::to_native(&dynamic).unwrap();
    let mut written = std::io::Cursor::new(Vec::new());
    saved.write(&mut written).unwrap();
    assert_eq!(written.into_inner(), bytes);
    assert_eq!(saved, data);
}

#[test]
fn adjacency_entry_scenario() {
    let mut e = new_adj_entry_data(3);
    assert_eq!(field(&e, "vertex_adjacency"), &DynValue::List(Vec::new()));
    set_field(&mut e, "vertex_adjacency", DynValue::Tuple(ints(&[-1, 3, 7])));
    let native = AdjEntryData::to_native(&e).unwrap();
    assert_eq!(native.vertex_adjacency, vec![-1, 3, 7]);
    let back = native.to_dynamic();
    assert_eq!(field(&back, "vertex_adjacency"), &DynValue::List(ints(&[-1, 3, 7])));
}

#[test]
fn mapping_error_messages() {
    assert_eq!(MappingError::WrongShape.message(), "sequence has the wrong length");
    assert_eq!(MappingError::WrongType.message(), "value has the wrong type");
    assert!(MappingError::MissingField.is_type_error());
    assert!(MappingError::WrongClass.is_type_error());
    assert!(!MappingError::OutOfRange.is_type_error());
    assert!(!MappingError::WrongShape.is_type_error());
}

#[test]
fn integer_leaves_check_their_range() {
    assert_eq!(u8::to_native(&DynValue::Int(255)), Ok(255));
    assert_eq!(u8::to_native(&DynValue::Int(256)), Err(MappingError::OutOfRange));
    assert_eq!(u16::to_native(&DynValue::Int(65535)), Ok(65535));
    assert_eq!(u16::to_native(&DynValue::Int(-5)), Err(MappingError::OutOfRange));
    assert_eq!(u64::to_native(&DynValue::Int(u64::MAX as i128)), Ok(u64::MAX));
    assert_eq!(u64::to_native(&DynValue::Int(u64::MAX as i128 + 1)), Err(MappingError::OutOfRange));
    assert_eq!(7u64.to_dynamic(), DynValue::Int(7));
    assert_eq!(i16::to_native(&DynValue::Str("1".to_string())), Err(MappingError::WrongType));
}

#[test]
fn text_leaf_maps_both_ways() {
    let d = "bone".to_string().to_dynamic();
    assert_eq!(d, DynValue::Str("bone".to_string()));
    assert_eq!(String::to_native(&d), Ok("bone".to_string()));
    assert_eq!(String::to_native(&DynValue::Int(1)), Err(MappingError::WrongType));
    let names = vec!["a".to_string(), "b".to_string()];
    assert_eq!(Vec::<String>::to_native(&names.to_dynamic()), Ok(names));
}
