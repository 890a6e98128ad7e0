//! Properties that hold across the mapping operations.
use crate::containers::{first_error, lemma_first_error_none};
use crate::dynamic::{int_item, seq_items, DynValue, MappingError};
use crate::mapping::MapDyn;
use crate::registry::{class_name_of, field_names_of, names_of, ExposedClass};
use ssbh_data::adj_data::{AdjData, AdjEntryData};
use vstd::prelude::*;

verus! {

/// Round trip: the dynamic form of a native value reads back without failure,
/// and every value it reads as is structurally equal to the original.
pub proof fn lemma_round_trip<T: MapDyn>(x: T, d: DynValue)
    requires
        T::dyn_form(x, d),
    ensures
        T::read_error(d) is None,
        T::reads_as(d, x),
        forall|y: T| #[trigger] T::reads_as(d, y) ==> T::same(x, y),
{
    T::lemma_form_reads_back(x, d);
    assert forall|y: T| #[trigger] T::reads_as(d, y) implies T::same(x, y) by {
        T::lemma_reads_unique(d, x, y);
    }
}

/// Permissive writes: two sequence-like values that present the same elements
/// read as the same native sequences, and fail, if at all, in the same way.
pub proof fn lemma_same_items_read_alike<T: MapDyn>(d1: DynValue, d2: DynValue)
    requires
        seq_items(d1) is Some,
        seq_items(d1) == seq_items(d2),
    ensures
        Vec::<T>::read_error(d1) == Vec::<T>::read_error(d2),
        forall|x: Vec<T>| #[trigger] Vec::<T>::reads_as(d1, x) <==> Vec::<T>::reads_as(d2, x),
{
}

/// A tuple reads as the list with the same elements.
pub proof fn lemma_tuple_reads_as_list<T: MapDyn>(tuple: Vec<DynValue>, list: Vec<DynValue>)
    requires
        tuple@ == list@,
    ensures
        Vec::<T>::read_error(DynValue::Tuple(tuple)) == Vec::<T>::read_error(DynValue::List(list)),
        forall|x: Vec<T>| #[trigger]
            Vec::<T>::reads_as(DynValue::Tuple(tuple), x) <==> Vec::<T>::reads_as(
                DynValue::List(list),
                x,
            ),
{
    lemma_same_items_read_alike::<T>(DynValue::Tuple(tuple), DynValue::List(list));
}

/// A numeric array view reads as the list of its integers.
pub proof fn lemma_int_array_reads_as_list<T: MapDyn>(array: Vec<i64>, list: Vec<DynValue>)
    requires
        list@ == array@.map_values(|x: i64| int_item(x)),
    ensures
        Vec::<T>::read_error(DynValue::IntArray(array)) == Vec::<T>::read_error(
            DynValue::List(list),
        ),
        forall|x: Vec<T>| #[trigger]
            Vec::<T>::reads_as(DynValue::IntArray(array), x) <==> Vec::<T>::reads_as(
                DynValue::List(list),
                x,
            ),
{
    lemma_same_items_read_alike::<T>(DynValue::IntArray(array), DynValue::List(list));
}

/// `r` is sequence-like with a length other than four.
pub open spec fn wrong_row_length(r: DynValue) -> bool {
    seq_items(r) matches Some(s) && s.len() != 4
}

/// Shape rejection: a nested sequence whose outer length, or the length of
/// one of its rows, is not four does not read as a 4x4 matrix.
pub proof fn lemma_matrix_shape_rejected<T: MapDyn>(d: DynValue)
    requires
        seq_items(d) is Some,
        wrong_row_length(d) || exists|i: int|
            0 <= i < seq_items(d)->0.len() && wrong_row_length(#[trigger] seq_items(d)->0[i]),
    ensures
        <[[T; 4]; 4]>::read_error(d) is Some,
        wrong_row_length(d) ==> <[[T; 4]; 4]>::read_error(d) == Some(MappingError::WrongShape),
{
    let rows = seq_items(d)->0;
    if !wrong_row_length(d) {
        let i = choose|i: int| 0 <= i < rows.len() && wrong_row_length(#[trigger] rows[i]);
        assert(<[T; 4]>::read_error(rows[i]) == Some(MappingError::WrongShape));
        lemma_first_error_none::<[T; 4]>(rows);
        assert(first_error::<[T; 4]>(rows) is Some);
    }
}

/// The fields of the dynamic form of an `AdjEntryData`, and of every value
/// that reads as one, carry, in order, exactly the names from which its class
/// declaration is written.
pub proof fn lemma_adj_entry_fields_declared(x: AdjEntryData, d: DynValue)
    requires
        AdjEntryData::dyn_form(x, d) || AdjEntryData::read_error(d) is None,
    ensures
        d matches DynValue::Object(o) && o.class_name@ == class_name_of(ExposedClass::AdjEntryData)
            && names_of(o.fields@) == field_names_of(ExposedClass::AdjEntryData),
{
}

/// The fields of the dynamic form of an `AdjData`, and of every value that
/// reads as one, carry, in order, exactly the names from which its class
/// declaration is written.
pub proof fn lemma_adj_data_fields_declared(x: AdjData, d: DynValue)
    requires
        AdjData::dyn_form(x, d) || AdjData::read_error(d) is None,
    ensures
        d matches DynValue::Object(o) && o.class_name@ == class_name_of(ExposedClass::AdjData)
            && names_of(o.fields@) == field_names_of(ExposedClass::AdjData),
{
}

} // verus!
