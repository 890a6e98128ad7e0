//! The adjacency family: `ssbh_data`'s adjacency types mapped field by field
//! through the registry's tables.
use crate::containers::NonNullDyn;
use crate::dynamic::{is_empty_list, DynField, DynValue, MappingError};
use crate::mapping::MapDyn;
use crate::registry::{
    construct, instance_error, instance_fields, instance_values, new_instance, ExposedClass,
};
use ssbh_data::adj_data::{AdjData, AdjEntryData};
use vstd::prelude::*;

verus! {

/// The adjacency data of a whole file; its fields are public and plain, so
/// Verus reads them as declared by `ssbh_data`.
#[verifier::external_type_specification]
pub struct ExAdjData(AdjData);

/// The adjacency data of one mesh object; its fields are public and plain.
#[verifier::external_type_specification]
pub struct ExAdjEntryData(AdjEntryData);

impl MapDyn for AdjEntryData {
    open spec fn dyn_form(x: AdjEntryData, d: DynValue) -> bool {
        &&& instance_fields(d, ExposedClass::AdjEntryData) matches Some(vs)
        &&& usize::dyn_form(x.mesh_object_index, vs[0])
        &&& Vec::<i16>::dyn_form(x.vertex_adjacency, vs[1])
    }

    open spec fn read_error(d: DynValue) -> Option<MappingError> {
        match instance_fields(d, ExposedClass::AdjEntryData) {
            Some(vs) => if usize::read_error(vs[0]) is Some {
                usize::read_error(vs[0])
            } else {
                Vec::<i16>::read_error(vs[1])
            },
            None => instance_error(d, ExposedClass::AdjEntryData),
        }
    }

    open spec fn same(x: AdjEntryData, y: AdjEntryData) -> bool {
        &&& x.mesh_object_index == y.mesh_object_index
        &&& Vec::<i16>::same(x.vertex_adjacency, y.vertex_adjacency)
    }

    open spec fn reads_as(d: DynValue, x: AdjEntryData) -> bool {
        &&& instance_fields(d, ExposedClass::AdjEntryData) matches Some(vs)
        &&& usize::reads_as(vs[0], x.mesh_object_index)
        &&& Vec::<i16>::reads_as(vs[1], x.vertex_adjacency)
    }

    fn to_dynamic(&self) -> (r: DynValue) {
        let mut values: Vec<DynValue> = Vec::new();
        values.push(self.mesh_object_index.to_dynamic());
        values.push(self.vertex_adjacency.to_dynamic());
        new_instance(ExposedClass::AdjEntryData, values)
    }

    fn to_native(d: &DynValue) -> (r: Result<AdjEntryData, MappingError>) {
        let fields = match instance_values(d, ExposedClass::AdjEntryData) {
            Ok(fields) => fields,
            Err(e) => return Err(e),
        };
        let ghost vs = fields@.map_values(|f: DynField| f.value);
        assert(vs[0] == fields@[0].value && vs[1] == fields@[1].value);
        let mesh_object_index = match usize::to_native(&fields[0].value) {
            Ok(x) => x,
            Err(e) => return Err(e),
        };
        let vertex_adjacency = match Vec::<i16>::to_native(&fields[1].value) {
            Ok(x) => x,
            Err(e) => return Err(e),
        };
        Ok(AdjEntryData { mesh_object_index, vertex_adjacency })
    }

    proof fn lemma_form_reads_back(x: AdjEntryData, d: DynValue) {
        let vs = instance_fields(d, ExposedClass::AdjEntryData)->0;
        usize::lemma_form_reads_back(x.mesh_object_index, vs[0]);
        Vec::<i16>::lemma_form_reads_back(x.vertex_adjacency, vs[1]);
    }

    proof fn lemma_reads_unique(d: DynValue, x: AdjEntryData, y: AdjEntryData) {
        let vs = instance_fields(d, ExposedClass::AdjEntryData)->0;
        Vec::<i16>::lemma_reads_unique(vs[1], x.vertex_adjacency, y.vertex_adjacency);
    }
}

impl NonNullDyn for AdjEntryData {
    proof fn lemma_form_not_null(x: AdjEntryData, d: DynValue) {
    }
}

impl MapDyn for AdjData {
    open spec fn dyn_form(x: AdjData, d: DynValue) -> bool {
        &&& instance_fields(d, ExposedClass::AdjData) matches Some(vs)
        &&& Vec::<AdjEntryData>::dyn_form(x.entries, vs[0])
    }

    open spec fn read_error(d: DynValue) -> Option<MappingError> {
        match instance_fields(d, ExposedClass::AdjData) {
            Some(vs) => Vec::<AdjEntryData>::read_error(vs[0]),
            None => instance_error(d, ExposedClass::AdjData),
        }
    }

    open spec fn same(x: AdjData, y: AdjData) -> bool {
        Vec::<AdjEntryData>::same(x.entries, y.entries)
    }

    open spec fn reads_as(d: DynValue, x: AdjData) -> bool {
        &&& instance_fields(d, ExposedClass::AdjData) matches Some(vs)
        &&& Vec::<AdjEntryData>::reads_as(vs[0], x.entries)
    }

    fn to_dynamic(&self) -> (r: DynValue) {
        let mut values: Vec<DynValue> = Vec::new();
        values.push(self.entries.to_dynamic());
        new_instance(ExposedClass::AdjData, values)
    }

    fn to_native(d: &DynValue) -> (r: Result<AdjData, MappingError>) {
        let fields = match instance_values(d, ExposedClass::AdjData) {
            Ok(fields) => fields,
            Err(e) => return Err(e),
        };
        let ghost vs = fields@.map_values(|f: DynField| f.value);
        assert(vs[0] == fields@[0].value);
        let entries = match Vec::<AdjEntryData>::to_native(&fields[0].value) {
            Ok(x) => x,
            Err(e) => return Err(e),
        };
        Ok(AdjData { entries })
    }

    proof fn lemma_form_reads_back(x: AdjData, d: DynValue) {
        let vs = instance_fields(d, ExposedClass::AdjData)->0;
        Vec::<AdjEntryData>::lemma_form_reads_back(x.entries, vs[0]);
    }

    proof fn lemma_reads_unique(d: DynValue, x: AdjData, y: AdjData) {
        let vs = instance_fields(d, ExposedClass::AdjData)->0;
        Vec::<AdjEntryData>::lemma_reads_unique(vs[0], x.entries, y.entries);
    }
}

/// A new dynamic `AdjData` with no entries.
pub fn new_adj_data() -> (r: DynValue)
    ensures
        instance_error(r, ExposedClass::AdjData) is None,
        instance_fields(r, ExposedClass::AdjData) matches Some(vs) && (vs.len() == 1
            && is_empty_list(vs[0])),
{
    let r = construct(ExposedClass::AdjData, Vec::new());
    proof {
        let vs = instance_fields(r, ExposedClass::AdjData)->0;
        assert(crate::registry::is_default_value(
            crate::registry::field_kinds_of(ExposedClass::AdjData)[0],
            vs[0],
        ));
    }
    r
}

/// A new dynamic `AdjEntryData` for the given mesh object, with an empty
/// adjacency list.
pub fn new_adj_entry_data(mesh_object_index: usize) -> (r: DynValue)
    ensures
        instance_error(r, ExposedClass::AdjEntryData) is None,
        instance_fields(r, ExposedClass::AdjEntryData) matches Some(vs) && (vs.len() == 2
            && vs[0] == DynValue::Int(mesh_object_index as i128) && is_empty_list(vs[1])),
{
    let mut required: Vec<DynValue> = Vec::new();
    required.push(DynValue::Int(mesh_object_index as i128));
    let ghost req = required@;
    let r = construct(ExposedClass::AdjEntryData, required);
    proof {
        let vs = instance_fields(r, ExposedClass::AdjEntryData)->0;
        assert(vs[0] == vs.subrange(0, 1)[0]);
        assert(crate::registry::is_default_value(
            crate::registry::field_kinds_of(ExposedClass::AdjEntryData)[1],
            vs[1],
        ));
    }
    r
}

} // verus!
