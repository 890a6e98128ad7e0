//! Container adapters: optional values, ordered sequences and fixed-size rows
//! (a fixed-size matrix is a row of rows).
use crate::dynamic::{int_item, seq_items, DynValue, MappingError};
use crate::mapping::MapDyn;
use vstd::prelude::*;

verus! {

/// The first failure met when reading the elements of `s` in order as `T`.
pub open spec fn first_error<T: MapDyn>(s: Seq<DynValue>) -> Option<MappingError>
    decreases s.len(),
{
    if s.len() == 0 {
        None
    } else if T::read_error(s[0]) is Some {
        T::read_error(s[0])
    } else {
        first_error::<T>(s.drop_first())
    }
}

/// Elements that read without failure do not change the first failure.
proof fn lemma_first_error_skip<T: MapDyn>(s: Seq<DynValue>, i: int)
    requires
        0 <= i <= s.len(),
        forall|j: int| 0 <= j < i ==> T::read_error(#[trigger] s[j]) is None,
    ensures
        first_error::<T>(s) == first_error::<T>(s.subrange(i, s.len() as int)),
    decreases i,
{
    if i > 0 {
        lemma_first_error_skip::<T>(s.drop_first(), i - 1);
        assert(s.drop_first().subrange(i - 1, s.drop_first().len() as int) =~= s.subrange(
            i,
            s.len() as int,
        ));
    } else {
        assert(s.subrange(0, s.len() as int) =~= s);
    }
}

/// There is no first failure exactly when every element reads.
pub proof fn lemma_first_error_none<T: MapDyn>(s: Seq<DynValue>)
    ensures
        first_error::<T>(s) is None <==> forall|j: int|
            0 <= j < s.len() ==> T::read_error(#[trigger] s[j]) is None,
    decreases s.len(),
{
    if s.len() > 0 {
        lemma_first_error_none::<T>(s.drop_first());
        if first_error::<T>(s) is None {
            assert forall|j: int| 0 <= j < s.len() implies T::read_error(
                #[trigger] s[j],
            ) is None by {
                if j > 0 {
                    assert(s[j] == s.drop_first()[j - 1]);
                }
            }
        }
        if forall|j: int| 0 <= j < s.len() ==> T::read_error(#[trigger] s[j]) is None {
            assert forall|j: int| 0 <= j < s.drop_first().len() implies T::read_error(
                #[trigger] s.drop_first()[j],
            ) is None by {
                assert(s.drop_first()[j] == s[j + 1]);
            }
        }
    }
}

/// Reads every element of `items` in order, failing on the first element
/// that does not read.
fn read_items<T: MapDyn>(items: &Vec<DynValue>) -> (r: Result<Vec<T>, MappingError>)
    ensures
        match r {
            Ok(v) => first_error::<T>(items@) is None && v@.len() == items@.len() && forall|i: int|
                0 <= i < v@.len() ==> T::reads_as(items@[i], #[trigger] v@[i]),
            Err(e) => first_error::<T>(items@) == Some(e),
        },
{
    let mut out: Vec<T> = Vec::new();
    let mut i: usize = 0;
    while i < items.len()
        invariant
            i <= items@.len(),
            out@.len() == i,
            forall|j: int| 0 <= j < i ==> T::read_error(#[trigger] items@[j]) is None,
            forall|j: int| 0 <= j < i ==> T::reads_as(items@[j], #[trigger] out@[j]),
        decreases items@.len() - i,
    {
        match T::to_native(&items[i]) {
            Ok(x) => {
                out.push(x);
            },
            Err(e) => {
                proof {
                    lemma_first_error_skip::<T>(items@, i as int);
                    let rest = items@.subrange(i as int, items@.len() as int);
                    assert(rest[0] == items@[i as int]);
                }
                return Err(e);
            },
        }
        i = i + 1;
    }
    proof {
        lemma_first_error_none::<T>(items@);
    }
    Ok(out)
}

/// The elements that a numeric array view presents, as dynamic integers.
fn int_array_items(a: &Vec<i64>) -> (r: Vec<DynValue>)
    ensures
        r@ == a@.map_values(|x: i64| int_item(x)),
{
    let mut out: Vec<DynValue> = Vec::new();
    let mut i: usize = 0;
    while i < a.len()
        invariant
            i <= a@.len(),
            out@ == a@.subrange(0, i as int).map_values(|x: i64| int_item(x)),
        decreases a@.len() - i,
    {
        out.push(DynValue::Int(a[i] as i128));
        i = i + 1;
        assert(a@.subrange(0, i as int) =~= a@.subrange(0, i - 1).push(a@[i - 1]));
    }
    assert(a@.subrange(0, a@.len() as int) =~= a@);
    out
}

/// Reads a sequence-like dynamic value element by element.
fn read_sequence<T: MapDyn>(d: &DynValue) -> (r: Result<Vec<T>, MappingError>)
    ensures
        match r {
            Ok(v) => seq_items(*d) matches Some(s) && first_error::<T>(s) is None && v@.len()
                == s.len() && forall|i: int| 0 <= i < v@.len() ==> T::reads_as(s[i], #[trigger] v@[i]),
            Err(e) => match seq_items(*d) {
                Some(s) => first_error::<T>(s) == Some(e),
                None => e == MappingError::WrongType,
            },
        },
{
    match d {
        DynValue::List(items) => read_items(items),
        DynValue::Tuple(items) => read_items(items),
        DynValue::IntArray(a) => {
            let items = int_array_items(a);
            read_items(&items)
        },
        _ => Err(MappingError::WrongType),
    }
}

/// Ordered sequences map to a dynamic list; any sequence-like value reads back.
impl<T: MapDyn> MapDyn for Vec<T> {
    open spec fn dyn_form(x: Vec<T>, d: DynValue) -> bool {
        &&& d matches DynValue::List(items)
        &&& items@.len() == x@.len()
        &&& forall|i: int| 0 <= i < x@.len() ==> T::dyn_form(x@[i], #[trigger] items@[i])
    }

    open spec fn read_error(d: DynValue) -> Option<MappingError> {
        match seq_items(d) {
            Some(s) => first_error::<T>(s),
            None => Some(MappingError::WrongType),
        }
    }

    open spec fn same(x: Vec<T>, y: Vec<T>) -> bool {
        &&& x@.len() == y@.len()
        &&& forall|i: int| 0 <= i < x@.len() ==> T::same(x@[i], #[trigger] y@[i])
    }

    open spec fn reads_as(d: DynValue, x: Vec<T>) -> bool {
        &&& seq_items(d) matches Some(s)
        &&& s.len() == x@.len()
        &&& forall|i: int| 0 <= i < x@.len() ==> T::reads_as(s[i], #[trigger] x@[i])
    }

    fn to_dynamic(&self) -> (r: DynValue) {
        let mut items: Vec<DynValue> = Vec::new();
        let mut i: usize = 0;
        while i < self.len()
            invariant
                i <= self@.len(),
                items@.len() == i,
                forall|j: int| 0 <= j < i ==> T::dyn_form(self@[j], #[trigger] items@[j]),
            decreases self@.len() - i,
        {
            items.push(self[i].to_dynamic());
            i = i + 1;
        }
        DynValue::List(items)
    }

    fn to_native(d: &DynValue) -> (r: Result<Vec<T>, MappingError>) {
        read_sequence(d)
    }

    proof fn lemma_form_reads_back(x: Vec<T>, d: DynValue) {
        let s = seq_items(d)->0;
        assert forall|i: int| 0 <= i < s.len() implies T::read_error(#[trigger] s[i]) is None
            && T::reads_as(s[i], x@[i]) by {
            T::lemma_form_reads_back(x@[i], s[i]);
        }
        lemma_first_error_none::<T>(s);
    }

    proof fn lemma_reads_unique(d: DynValue, x: Vec<T>, y: Vec<T>) {
        let s = seq_items(d)->0;
        assert forall|i: int| 0 <= i < x@.len() implies T::same(x@[i], #[trigger] y@[i]) by {
            T::lemma_reads_unique(s[i], x@[i], y@[i]);
        }
    }
}

/// A native type whose canonical dynamic form is never the null-like value,
/// so that an optional value of it keeps absence and presence apart.
pub trait NonNullDyn: MapDyn {
    proof fn lemma_form_not_null(x: Self, d: DynValue)
        requires
            Self::dyn_form(x, d),
        ensures
            d !is Null,
    ;
}

/// Absence maps to the null-like value and back; present values use the inner
/// adapter.
impl<T: NonNullDyn> MapDyn for Option<T> {
    open spec fn dyn_form(x: Option<T>, d: DynValue) -> bool {
        match x {
            None => d is Null,
            Some(v) => T::dyn_form(v, d),
        }
    }

    open spec fn read_error(d: DynValue) -> Option<MappingError> {
        if d is Null {
            None
        } else {
            T::read_error(d)
        }
    }

    open spec fn same(x: Option<T>, y: Option<T>) -> bool {
        match (x, y) {
            (None, None) => true,
            (Some(a), Some(b)) => T::same(a, b),
            _ => false,
        }
    }

    open spec fn reads_as(d: DynValue, x: Option<T>) -> bool {
        match x {
            None => d is Null,
            Some(v) => d !is Null && T::reads_as(d, v),
        }
    }

    fn to_dynamic(&self) -> (r: DynValue) {
        match self {
            None => DynValue::Null,
            Some(v) => v.to_dynamic(),
        }
    }

    fn to_native(d: &DynValue) -> (r: Result<Option<T>, MappingError>) {
        match d {
            DynValue::Null => Ok(None),
            _ => match T::to_native(d) {
                Ok(v) => Ok(Some(v)),
                Err(e) => Err(e),
            },
        }
    }

    proof fn lemma_form_reads_back(x: Option<T>, d: DynValue) {
        if let Some(v) = x {
            T::lemma_form_not_null(v, d);
            T::lemma_form_reads_back(v, d);
        }
    }

    proof fn lemma_reads_unique(d: DynValue, x: Option<T>, y: Option<T>) {
        if let (Some(a), Some(b)) = (x, y) {
            T::lemma_reads_unique(d, a, b);
        }
    }
}

/// Reads exactly four elements, failing on any other length.
fn read_row<T: MapDyn>(items: &Vec<DynValue>) -> (r: Result<[T; 4], MappingError>)
    ensures
        match r {
            Ok(x) => items@.len() == 4 && first_error::<T>(items@) is None && forall|i: int|
                0 <= i < 4 ==> T::reads_as(items@[i], #[trigger] x@[i]),
            Err(e) => if items@.len() != 4 {
                e == MappingError::WrongShape
            } else {
                first_error::<T>(items@) == Some(e)
            },
        },
{
    if items.len() != 4 {
        return Err(MappingError::WrongShape);
    }
    let mut v = match read_items::<T>(items) {
        Ok(v) => v,
        Err(e) => return Err(e),
    };
    let ghost s = v@;
    let x3 = v.pop().unwrap();
    let x2 = v.pop().unwrap();
    let x1 = v.pop().unwrap();
    let x0 = v.pop().unwrap();
    let row = [x0, x1, x2, x3];
    assert(row@ =~= s);
    Ok(row)
}

/// A fixed-size row maps to a dynamic list of exactly four elements; reading
/// rejects any other length. A fixed-size matrix is a row of such rows.
impl<T: MapDyn> MapDyn for [T; 4] {
    open spec fn dyn_form(x: [T; 4], d: DynValue) -> bool {
        &&& d matches DynValue::List(items)
        &&& items@.len() == 4
        &&& forall|i: int| 0 <= i < 4 ==> T::dyn_form(x@[i], #[trigger] items@[i])
    }

    open spec fn read_error(d: DynValue) -> Option<MappingError> {
        match seq_items(d) {
            Some(s) => if s.len() != 4 {
                Some(MappingError::WrongShape)
            } else {
                first_error::<T>(s)
            },
            None => Some(MappingError::WrongType),
        }
    }

    open spec fn same(x: [T; 4], y: [T; 4]) -> bool {
        forall|i: int| 0 <= i < 4 ==> T::same(x@[i], #[trigger] y@[i])
    }

    open spec fn reads_as(d: DynValue, x: [T; 4]) -> bool {
        &&& seq_items(d) matches Some(s)
        &&& s.len() == 4
        &&& forall|i: int| 0 <= i < 4 ==> T::reads_as(s[i], #[trigger] x@[i])
    }

    fn to_dynamic(&self) -> (r: DynValue) {
        let mut items: Vec<DynValue> = Vec::new();
        let mut i: usize = 0;
        while i < 4
            invariant
                i <= 4,
                items@.len() == i,
                forall|j: int| 0 <= j < i ==> T::dyn_form(self@[j], #[trigger] items@[j]),
            decreases 4 - i,
        {
            items.push(self[i].to_dynamic());
            i = i + 1;
        }
        DynValue::List(items)
    }

    fn to_native(d: &DynValue) -> (r: Result<[T; 4], MappingError>) {
        match d {
            DynValue::List(items) => read_row(items),
            DynValue::Tuple(items) => read_row(items),
            DynValue::IntArray(a) => {
                let items = int_array_items(a);
                read_row(&items)
            },
            _ => Err(MappingError::WrongType),
        }
    }

    proof fn lemma_form_reads_back(x: [T; 4], d: DynValue) {
        let s = seq_items(d)->0;
        assert forall|i: int| 0 <= i < s.len() implies T::read_error(#[trigger] s[i]) is None
            && T::reads_as(s[i], x@[i]) by {
            T::lemma_form_reads_back(x@[i], s[i]);
        }
        lemma_first_error_none::<T>(s);
    }

    proof fn lemma_reads_unique(d: DynValue, x: [T; 4], y: [T; 4]) {
        let s = seq_items(d)->0;
        assert forall|i: int| 0 <= i < 4 implies T::same(x@[i], #[trigger] y@[i]) by {
            T::lemma_reads_unique(s[i], x@[i], y@[i]);
        }
    }
}

impl NonNullDyn for i16 {
    proof fn lemma_form_not_null(x: i16, d: DynValue) {
    }
}

impl NonNullDyn for u32 {
    proof fn lemma_form_not_null(x: u32, d: DynValue) {
    }
}

impl NonNullDyn for usize {
    proof fn lemma_form_not_null(x: usize, d: DynValue) {
    }
}

impl NonNullDyn for bool {
    proof fn lemma_form_not_null(x: bool, d: DynValue) {
    }
}

impl NonNullDyn for u8 {
    proof fn lemma_form_not_null(x: u8, d: DynValue) {
    }
}

impl NonNullDyn for u16 {
    proof fn lemma_form_not_null(x: u16, d: DynValue) {
    }
}

impl NonNullDyn for u64 {
    proof fn lemma_form_not_null(x: u64, d: DynValue) {
    }
}

impl NonNullDyn for String {
    proof fn lemma_form_not_null(x: String, d: DynValue) {
    }
}

impl<T: MapDyn> NonNullDyn for Vec<T> {
    proof fn lemma_form_not_null(x: Vec<T>, d: DynValue) {
    }
}

impl<T: MapDyn> NonNullDyn for [T; 4] {
    proof fn lemma_form_not_null(x: [T; 4], d: DynValue) {
    }
}

} // verus!
