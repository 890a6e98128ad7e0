//! Declaration stubs: static interface text for the exposed classes, derived
//! from the same field tables that drive the mapping.
use crate::registry::{
    class_name, field_count, field_hint, field_hints_of, field_name, field_names_of, lemma_tables_wf,
    table_wf, class_name_of, ExposedClass,
};
use vstd::prelude::*;
use vstd::string::*;

verus! {

/// One line per field, `    name: type`, in order.
pub open spec fn field_lines(names: Seq<Seq<char>>, hints: Seq<Seq<char>>) -> Seq<char>
    decreases names.len(),
{
    if names.len() == 0 {
        Seq::empty()
    } else {
        field_lines(names.drop_last(), hints.drop_last()) + "    "@ + names.last() + ": "@
            + hints[names.len() - 1] + "\n"@
    }
}

/// The declaration of a class with the given fields.
pub open spec fn class_decl(name: Seq<char>, names: Seq<Seq<char>>, hints: Seq<Seq<char>>) -> Seq<
    char,
> {
    "class "@ + name + ":\n"@ + field_lines(names, hints)
}

/// The pieces of `s` separated by two blank lines.
pub open spec fn joined(s: Seq<Seq<char>>) -> Seq<char>
    decreases s.len(),
{
    if s.len() == 0 {
        Seq::empty()
    } else if s.len() == 1 {
        s[0]
    } else {
        joined(s.drop_last()) + "\n\n\n"@ + s.last()
    }
}

/// Each function signature followed by two blank lines.
pub open spec fn function_block(fs: Seq<Seq<char>>) -> Seq<char>
    decreases fs.len(),
{
    if fs.len() == 0 {
        Seq::empty()
    } else {
        function_block(fs.drop_last()) + fs.last() + "\n\n\n"@
    }
}

/// The fixed header of every stub file.
pub open spec fn stub_header() -> Seq<char> {
    "# This file is rewritten on every build; edits to it will be lost.\n"@
        + "from typing import List, Tuple, Any, Optional, Union, ClassVar\n\n\n"@
}

/// A whole stub file: the header, the free functions, then the classes.
pub open spec fn stub_file(fs: Seq<Seq<char>>, cs: Seq<Seq<char>>) -> Seq<char> {
    stub_header() + function_block(fs) + joined(cs) + "\n"@
}

/// The declaration of an exposed class, from its field table.
pub fn class_stub(c: ExposedClass) -> (r: String)
    ensures
        r@ == class_decl(class_name_of(c), field_names_of(c), field_hints_of(c)),
{
    proof {
        lemma_tables_wf(c);
    }
    let mut out = String::from_str("class ");
    out.append(class_name(c));
    out.append(":\n");
    let ghost head = out@;
    let n = field_count(c);
    let mut i: usize = 0;
    while i < n
        invariant
            table_wf(c),
            n == field_names_of(c).len(),
            i <= n,
            head == "class "@ + class_name_of(c) + ":\n"@,
            out@ == head + field_lines(
                field_names_of(c).take(i as int),
                field_hints_of(c).take(i as int),
            ),
        decreases n - i,
    {
        let ghost names = field_names_of(c).take(i + 1);
        let ghost hints = field_hints_of(c).take(i + 1);
        assert(names.drop_last() =~= field_names_of(c).take(i as int));
        assert(hints.drop_last() =~= field_hints_of(c).take(i as int));
        out.append("    ");
        out.append(field_name(c, i));
        out.append(": ");
        out.append(field_hint(c, i));
        out.append("\n");
        i = i + 1;
    }
    assert(field_names_of(c).take(n as int) =~= field_names_of(c));
    assert(field_hints_of(c).take(n as int) =~= field_hints_of(c));
    out
}

/// The text of a stub file with the given free-function signatures and class
/// declarations.
pub fn stub_text(functions: &Vec<String>, classes: &Vec<String>) -> (r: String)
    ensures
        r@ == stub_file(functions@.map_values(|f: String| f@), classes@.map_values(|c: String| c@)),
{
    let ghost fs = functions@.map_values(|f: String| f@);
    let ghost cs = classes@.map_values(|c: String| c@);
    let mut out = String::from_str("# This file is rewritten on every build; edits to it will be lost.\n");
    out.append("from typing import List, Tuple, Any, Optional, Union, ClassVar\n\n\n");
    let mut i: usize = 0;
    while i < functions.len()
        invariant
            i <= functions@.len(),
            fs == functions@.map_values(|f: String| f@),
            out@ == stub_header() + function_block(fs.take(i as int)),
        decreases functions@.len() - i,
    {
        assert(fs.take(i + 1).drop_last() =~= fs.take(i as int));
        out.append(functions[i].as_str());
        out.append("\n\n\n");
        i = i + 1;
    }
    assert(fs.take(functions@.len() as int) =~= fs);
    let ghost before = out@;
    let mut j: usize = 0;
    while j < classes.len()
        invariant
            j <= classes@.len(),
            cs == classes@.map_values(|c: String| c@),
            out@ == before + joined(cs.take(j as int)),
        decreases classes@.len() - j,
    {
        assert(cs.take(j + 1).drop_last() =~= cs.take(j as int));
        if j > 0 {
            out.append("\n\n\n");
        } else {
            assert(joined(cs.take(0)) =~= Seq::<char>::empty());
        }
        out.append(classes[j].as_str());
        j = j + 1;
    }
    assert(cs.take(classes@.len() as int) =~= cs);
    out.append("\n");
    out
}

/// The stub file of the adjacency family.
pub fn adj_data_stub() -> (r: String)
    ensures
        r@ == stub_file(
            seq!["def read_adj(path: str) -> AdjData: ..."@],
            seq![
                class_decl(
                    class_name_of(ExposedClass::AdjData),
                    field_names_of(ExposedClass::AdjData),
                    field_hints_of(ExposedClass::AdjData),
                ),
                class_decl(
                    class_name_of(ExposedClass::AdjEntryData),
                    field_names_of(ExposedClass::AdjEntryData),
                    field_hints_of(ExposedClass::AdjEntryData),
                ),
            ],
        ),
{
    let mut functions: Vec<String> = Vec::new();
    functions.push(String::from_str("def read_adj(path: str) -> AdjData: ..."));
    let mut classes: Vec<String> = Vec::new();
    classes.push(class_stub(ExposedClass::AdjData));
    classes.push(class_stub(ExposedClass::AdjEntryData));
    let r = stub_text(&functions, &classes);
    assert(functions@.map_values(|f: String| f@) =~= seq!["def read_adj(path: str) -> AdjData: ..."@]);
    assert(classes@.map_values(|c: String| c@) =~= seq![
        class_decl(
            class_name_of(ExposedClass::AdjData),
            field_names_of(ExposedClass::AdjData),
            field_hints_of(ExposedClass::AdjData),
        ),
        class_decl(
            class_name_of(ExposedClass::AdjEntryData),
            field_names_of(ExposedClass::AdjEntryData),
            field_hints_of(ExposedClass::AdjEntryData),
        ),
    ]);
    r
}

} // verus!
