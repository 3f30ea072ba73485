//! Documents, and the strings they hold.

use vstd::prelude::*;
use crate::string_set::StringSet;

verus! {

/// A value in a document.
#[derive(Debug, PartialEq, Eq)]
pub enum ConvexValue {
    Null,
    Int64(i64),
    /// The bits of a 64-bit floating point number.
    Float64(u64),
    Boolean(bool),
    Bytes(Vec<u8>),
    String(String),
    Array(Vec<ConvexValue>),
    Object(ConvexObject),
}

/// A document or a part of one: named values.
#[derive(Debug, PartialEq, Eq)]
pub struct ConvexObject {
    pub fields: Vec<(String, ConvexValue)>,
}

/// Whether `s` is a string value reachable from `value`. The name of a field
/// is no value.
pub open spec fn holds_string(value: ConvexValue, s: Seq<char>) -> bool
    decreases value,
{
    match value {
        ConvexValue::String(text) => text@ == s,
        ConvexValue::Array(items) => exists|i: int|
            0 <= i < items@.len() && holds_string(#[trigger] items@[i], s),
        ConvexValue::Object(object) => exists|i: int|
            0 <= i < object.fields@.len() && holds_string((#[trigger] object.fields@[i]).1, s),
        _ => false,
    }
}

/// The string values reachable from `value`.
pub open spec fn strings_in(value: ConvexValue) -> Set<Seq<char>> {
    Set::new(|s: Seq<char>| holds_string(value, s))
}

/// The string values reachable from `object`.
pub open spec fn strings_in_object(object: ConvexObject) -> Set<Seq<char>> {
    strings_in(ConvexValue::Object(object))
}

/// The string values reachable from the first `n` of `items`.
spec fn strings_in_first(items: Seq<ConvexValue>, n: int) -> Set<Seq<char>> {
    Set::new(
        |s: Seq<char>| exists|j: int| 0 <= j < n && holds_string(#[trigger] items[j], s),
    )
}

/// The values of an object, in the order of its fields.
spec fn values_of(object: ConvexObject) -> Seq<ConvexValue> {
    object.fields@.map_values(|field: (String, ConvexValue)| field.1)
}

proof fn lemma_strings_in_first_extends(items: Seq<ConvexValue>, n: int)
    requires
        0 <= n < items.len(),
    ensures
        strings_in_first(items, n + 1) == strings_in_first(items, n).union(strings_in(items[n])),
{
    assert forall|s: Seq<char>| strings_in_first(items, n + 1).contains(s) implies (
    strings_in_first(items, n).union(strings_in(items[n]))).contains(s) by {
        let j = choose|j: int| 0 <= j < n + 1 && holds_string(#[trigger] items[j], s);
        if j < n {
            assert(holds_string(items[j], s));
        }
    }
    assert(strings_in_first(items, n + 1) =~= strings_in_first(items, n).union(
        strings_in(items[n]),
    ));
}

proof fn lemma_strings_in_array(items: Vec<ConvexValue>)
    ensures
        strings_in(ConvexValue::Array(items)) == strings_in_first(items@, items@.len() as int),
{
    reveal_with_fuel(holds_string, 2);
    let n = items@.len() as int;
    assert forall|s: Seq<char>| strings_in_first(items@, n).contains(s) implies strings_in(
        ConvexValue::Array(items),
    ).contains(s) by {
        let i = choose|i: int| 0 <= i < n && holds_string(#[trigger] items@[i], s);
        let value = ConvexValue::Array(items);
        assert(holds_string(value->Array_0@[i], s));
        assert(holds_string(value, s));
    }
    assert(strings_in(ConvexValue::Array(items)) =~= strings_in_first(
        items@,
        items@.len() as int,
    ));
}

proof fn lemma_strings_in_object(object: ConvexObject)
    ensures
        strings_in_object(object) == strings_in_first(
            values_of(object),
            object.fields@.len() as int,
        ),
{
    reveal_with_fuel(holds_string, 2);
    let values = values_of(object);
    assert forall|s: Seq<char>| strings_in_object(object).contains(s) implies strings_in_first(
        values,
        object.fields@.len() as int,
    ).contains(s) by {
        let i = choose|i: int|
            0 <= i < object.fields@.len() && holds_string((#[trigger] object.fields@[i]).1, s);
        assert(holds_string(values[i], s));
    }
    assert forall|s: Seq<char>|
        strings_in_first(values, object.fields@.len() as int).contains(
            s,
        ) implies strings_in_object(object).contains(s) by {
        let i = choose|i: int| 0 <= i < values.len() && holds_string(#[trigger] values[i], s);
        let value = ConvexValue::Object(object);
        assert(holds_string(value->Object_0.fields@[i].1, s));
        assert(holds_string(value, s));
    }
    assert(strings_in_object(object) =~= strings_in_first(values, object.fields@.len() as int));
}

/// Add every string value reachable from `value` to `out`.
pub fn collect_strings(value: &ConvexValue, out: &mut StringSet)
    ensures
        final(out)@ == old(out)@.union(strings_in(*value)),
    decreases *value,
{
    match value {
        ConvexValue::Null
        | ConvexValue::Int64(_)
        | ConvexValue::Float64(_)
        | ConvexValue::Boolean(_)
        | ConvexValue::Bytes(_) => {
            assert(old(out)@ =~= old(out)@.union(strings_in(*value)));
        },
        ConvexValue::String(s) => {
            out.insert(s.clone());
            assert(out@ =~= old(out)@.union(strings_in(*value)));
        },
        ConvexValue::Array(items) => {
            assert(out@ =~= old(out)@.union(strings_in_first(items@, 0)));
            let n: usize = items.len();
            for i in 0..n
                invariant
                    n == items@.len(),
                    *value == ConvexValue::Array(*items),
                    out@ == old(out)@.union(strings_in_first(items@, i as int)),
            {
                proof {
                    assert(decreases_to!(*value => value->Array_0));
                    assert(decreases_to!(value->Array_0 => value->Array_0[i as int]));
                    lemma_strings_in_first_extends(items@, i as int);
                }
                collect_strings(&items[i], out);
                assert(out@ =~= old(out)@.union(strings_in_first(items@, i + 1)));
            }
            proof {
                lemma_strings_in_array(*items);
            }
        },
        ConvexValue::Object(object) => {
            assert(decreases_to!(*value => value->Object_0));
            collect_object_strings(object, out)
        },
    }
}

/// Add every string value reachable from `object` to `out`.
pub fn collect_object_strings(object: &ConvexObject, out: &mut StringSet)
    ensures
        final(out)@ == old(out)@.union(strings_in_object(*object)),
    decreases *object,
{
    let ghost values = values_of(*object);
    assert(out@ =~= old(out)@.union(strings_in_first(values, 0)));
    let n: usize = object.fields.len();
    for i in 0..n
        invariant
            n == object.fields@.len(),
            values == values_of(*object),
            out@ == old(out)@.union(strings_in_first(values, i as int)),
    {
        proof {
            assert(decreases_to!(*object => object.fields));
            assert(decreases_to!(object.fields => object.fields[i as int]));
            assert(decreases_to!(object.fields[i as int] => object.fields[i as int].1));
            lemma_strings_in_first_extends(values, i as int);
        }
        collect_strings(&object.fields[i].1, out);
        assert(out@ =~= old(out)@.union(strings_in_first(values, i + 1)));
    }
    proof {
        lemma_strings_in_object(*object);
    }
}

/// The harvest does not know which fields hold object keys: objects with the
/// same values hold the same strings whatever their fields are named.
pub proof fn law_field_names_do_not_matter(a: ConvexObject, b: ConvexObject)
    requires
        a.fields@.len() == b.fields@.len(),
        forall|i: int| 0 <= i < a.fields@.len() ==> (#[trigger] a.fields@[i]).1 == b.fields@[i].1,
    ensures
        strings_in_object(a) == strings_in_object(b),
{
    lemma_strings_in_object(a);
    lemma_strings_in_object(b);
    assert(values_of(a) =~= values_of(b));
}

/// A string is found however deep it is nested: what a field holds, the object
/// holds.
pub proof fn law_nested_strings_found(object: ConvexObject, i: int, s: Seq<char>)
    requires
        0 <= i < object.fields@.len(),
        strings_in(object.fields@[i].1).contains(s),
    ensures
        strings_in_object(object).contains(s),
{
    lemma_strings_in_object(object);
    assert(values_of(object)[i] == object.fields@[i].1);
}

/// So does an array with what its items hold.
pub proof fn law_nested_strings_found_in_array(items: Vec<ConvexValue>, i: int, s: Seq<char>)
    requires
        0 <= i < items@.len(),
        strings_in(items@[i]).contains(s),
    ensures
        strings_in(ConvexValue::Array(items)).contains(s),
{
    lemma_strings_in_array(items);
    assert(holds_string(items@[i], s));
}

/// A string value holds its own text and nothing else, whatever the text is.
pub proof fn law_string_holds_its_text(text: String)
    ensures
        strings_in(ConvexValue::String(text)) == set![text@],
{
    assert(strings_in(ConvexValue::String(text)) =~= set![text@]);
}

/// No other scalar holds a string: not even bytes that spell one.
pub proof fn law_other_scalars_hold_none(n: i64, bits: u64, b: bool, bytes: Vec<u8>)
    ensures
        strings_in(ConvexValue::Null) == Set::<Seq<char>>::empty(),
        strings_in(ConvexValue::Int64(n)) == Set::<Seq<char>>::empty(),
        strings_in(ConvexValue::Float64(bits)) == Set::<Seq<char>>::empty(),
        strings_in(ConvexValue::Boolean(b)) == Set::<Seq<char>>::empty(),
        strings_in(ConvexValue::Bytes(bytes)) == Set::<Seq<char>>::empty(),
{
    let none = Set::<Seq<char>>::empty();
    assert(strings_in(ConvexValue::Null) =~= none);
    assert(strings_in(ConvexValue::Int64(n)) =~= none);
    assert(strings_in(ConvexValue::Float64(bits)) =~= none);
    assert(strings_in(ConvexValue::Boolean(b)) =~= none);
    assert(strings_in(ConvexValue::Bytes(bytes)) =~= none);
}

/// An array holds exactly what its items hold.
pub proof fn law_array_holds_what_its_items_hold(items: Vec<ConvexValue>, s: Seq<char>)
    ensures
        strings_in(ConvexValue::Array(items)).contains(s) <==> (exists|i: int|
            0 <= i < items@.len() && strings_in(#[trigger] items@[i]).contains(s)),
{
    lemma_strings_in_array(items);
    if strings_in(ConvexValue::Array(items)).contains(s) {
        let i = choose|i: int| 0 <= i < items@.len() && holds_string(#[trigger] items@[i], s);
        assert(strings_in(items@[i]).contains(s));
    }
    if exists|i: int| 0 <= i < items@.len() && strings_in(#[trigger] items@[i]).contains(s) {
        let i = choose|i: int|
            0 <= i < items@.len() && strings_in(#[trigger] items@[i]).contains(s);
        assert(holds_string(items@[i], s));
    }
}

/// An object holds exactly what the values of its fields hold, whether it is a
/// document or a value in one.
pub proof fn law_object_holds_what_its_fields_hold(object: ConvexObject, s: Seq<char>)
    ensures
        strings_in(ConvexValue::Object(object)) == strings_in_object(object),
        strings_in_object(object).contains(s) <==> (exists|i: int|
            0 <= i < object.fields@.len() && strings_in(
                (#[trigger] object.fields@[i]).1,
            ).contains(s)),
{
    lemma_strings_in_object(object);
    let values = values_of(object);
    if strings_in_object(object).contains(s) {
        let i = choose|i: int| 0 <= i < values.len() && holds_string(#[trigger] values[i], s);
        assert(strings_in(object.fields@[i].1).contains(s));
    }
    if exists|i: int|
        0 <= i < object.fields@.len() && strings_in((#[trigger] object.fields@[i]).1).contains(s) {
        let i = choose|i: int|
            0 <= i < object.fields@.len() && strings_in(
                (#[trigger] object.fields@[i]).1,
            ).contains(s);
        assert(holds_string(values[i], s));
    }
}

} // verus!
