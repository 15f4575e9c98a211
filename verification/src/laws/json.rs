//! Reading JSON values.

use vstd::prelude::*;

use crate::json::{
    bool_in, double_in, field, field_in, integer_in, items_in, items_or_empty, text_in,
    text_or_empty, within, JsonView,
};

verus! {

/// Whether a value is an object in which `name` stands first for this member.
pub open spec fn has(value: JsonView, name: Seq<char>, member: JsonView) -> bool {
    value matches JsonView::Object(fields) && exists|i: int|
        0 <= i < fields.len() && #[trigger] fields[i] == (name, member) && forall|j: int|
            0 <= j < i ==> (#[trigger] fields[j]).0 != name
}

/// Whether a value is no object, or one without such a member.
pub open spec fn lacks(value: JsonView, name: Seq<char>) -> bool {
    value matches JsonView::Object(fields) ==> forall|i: int|
        0 <= i < fields.len() ==> (#[trigger] fields[i]).0 != name
}

/// A number that an `i64` holds, however it is held as a double.
pub open spec fn is_integer(value: JsonView, n: i64) -> bool {
    value matches JsonView::Number { integer, double } && integer == Some(n)
}

/// A number with this bit pattern as a double, however it is held as an integer.
pub open spec fn is_double(value: JsonView, bits: u64) -> bool {
    value matches JsonView::Number { integer, double } && double == Some(bits)
}

proof fn field_in_finds(
    fields: Seq<(Seq<char>, JsonView)>,
    name: Seq<char>,
    member: JsonView,
    at: int,
)
    requires
        0 <= at < fields.len(),
        fields[at] == (name, member),
        forall|j: int| 0 <= j < at ==> (#[trigger] fields[j]).0 != name,
    ensures
        field_in(fields, name) == Some(member),
    decreases at,
{
    if at > 0 {
        let rest = fields.drop_first();
        assert(fields[0].0 != name);
        assert(rest[at - 1] == fields[at]);
        assert forall|j: int| 0 <= j < at - 1 implies (#[trigger] rest[j]).0 != name by {
            assert(rest[j] == fields[j + 1]);
        }
        field_in_finds(rest, name, member, at - 1);
    }
}

proof fn field_in_misses(fields: Seq<(Seq<char>, JsonView)>, name: Seq<char>)
    requires
        forall|i: int| 0 <= i < fields.len() ==> (#[trigger] fields[i]).0 != name,
    ensures
        field_in(fields, name) is None,
    decreases fields.len(),
{
    if fields.len() > 0 {
        let rest = fields.drop_first();
        assert(fields[0].0 != name);
        assert forall|i: int| 0 <= i < rest.len() implies (#[trigger] rest[i]).0 != name by {
            assert(rest[i] == fields[i + 1]);
        }
        field_in_misses(rest, name);
    }
}

/// The field of a name is the member that stands under it.
pub proof fn a_field_is_its_member(value: JsonView, name: Seq<char>, member: JsonView)
    requires
        has(value, name, member),
    ensures
        field(value, name) == Some(member),
        within(Some(value), name) == Some(member),
{
    let fields = value->Object_0;
    let at = choose|i: int|
        0 <= i < fields.len() && #[trigger] fields[i] == (name, member) && forall|j: int|
            0 <= j < i ==> (#[trigger] fields[j]).0 != name;
    field_in_finds(fields, name, member, at);
}

/// What is no object has no fields, and an object has none but its members.
pub proof fn a_missing_field_is_nothing(value: JsonView, name: Seq<char>)
    requires
        lacks(value, name),
    ensures
        field(value, name) is None,
        within(Some(value), name) is None,
        within(None, name) is None,
{
    if let JsonView::Object(fields) = value {
        field_in_misses(fields, name);
    }
}

/// A value is read as what it is, and as nothing else.
pub proof fn a_value_is_read_as_what_it_is(value: JsonView)
    ensures
        text_in(None) is None,
        items_in(None) is None,
        integer_in(None) is None,
        double_in(None) is None,
        bool_in(None) is None,
        text_in(Some(value)) is Some ==> value == JsonView::Text(text_in(Some(value))->0),
        items_in(Some(value)) is Some ==> value == JsonView::Array(items_in(Some(value))->0),
        bool_in(Some(value)) is Some ==> value == JsonView::Bool(bool_in(Some(value))->0),
        integer_in(Some(value)) is Some ==> is_integer(value, integer_in(Some(value))->0),
        double_in(Some(value)) is Some ==> is_double(value, double_in(Some(value))->0),
        value matches JsonView::Text(s) ==> text_in(Some(value)) == Some(s) && text_or_empty(
            Some(value),
        ) == s,
        value matches JsonView::Array(items) ==> items_in(Some(value)) == Some(items)
            && items_or_empty(Some(value)) == items,
        value matches JsonView::Bool(b) ==> bool_in(Some(value)) == Some(b),
        forall|n: i64| #[trigger] is_integer(value, n) ==> integer_in(Some(value)) == Some(n),
        forall|bits: u64| #[trigger] is_double(value, bits) ==> double_in(Some(value)) == Some(bits),
        !(value is Text) ==> text_or_empty(Some(value)).len() == 0,
        !(value is Array) ==> items_or_empty(Some(value)).len() == 0,
        text_or_empty(None).len() == 0,
        items_or_empty(None).len() == 0,
{
}

} // verus!
