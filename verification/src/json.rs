//! JSON values.

use vstd::prelude::*;
use vstd::string::*;

use crate::text::{same_text, signed_decimal, to_chars};
use crate::tool_call::json_object_end;

verus! {

/// `serde_json::Number`: nothing inside it is looked at.
#[verifier::external_type_specification]
#[verifier::external_body]
pub struct ExNumber(serde_json::Number);

/// `serde_json::Value`: nothing inside it is looked at.
#[verifier::external_type_specification]
#[verifier::external_body]
pub struct ExValue(serde_json::Value);

/// The integer that a number of the JSON library is, if it is one:
/// `serde_json::Number::as_u64` or `serde_json::Number::as_i64` gives it.
pub uninterp spec fn number_integer(number: serde_json::Number) -> Option<int>;

/// The value of a number of the JSON library.
pub open spec fn number_tree(number: serde_json::Number) -> JsonTree {
    match number_integer(number) {
        Some(n) => JsonTree::Integer(n),
        None => JsonTree::Float(number),
    }
}

/// A JSON value, as a mathematical value. The fields of an object stand in the
/// order of their keys.
pub enum JsonTree {
    Null,
    Bool(bool),
    Integer(int),
    Float(serde_json::Number),
    Text(Seq<char>),
    Array(Seq<JsonTree>),
    Object(Seq<(Seq<char>, JsonTree)>),
}

/// The fields of an object.
pub type Fields = Seq<(Seq<char>, JsonTree)>;

/// A JSON value. The fields of an object stand in the order of their keys.
#[derive(Debug)]
pub enum JsonValue {
    Null,
    Bool(bool),
    Unsigned(u64),
    Signed(i64),
    /// A number as the JSON library holds it; what is read is no integer.
    Number(serde_json::Number),
    Text(String),
    Array(Vec<JsonValue>),
    Object(Vec<(String, JsonValue)>),
}

impl View for JsonValue {
    type V = JsonTree;

    open spec fn view(&self) -> JsonTree
        decreases self,
    {
        match self {
            JsonValue::Null => JsonTree::Null,
            JsonValue::Bool(b) => JsonTree::Bool(*b),
            JsonValue::Unsigned(n) => JsonTree::Integer(*n as int),
            JsonValue::Signed(n) => JsonTree::Integer(*n as int),
            JsonValue::Number(n) => number_tree(*n),
            JsonValue::Text(text) => JsonTree::Text(text@),
            JsonValue::Array(items) => JsonTree::Array(
                Seq::new(
                    items@.len(),
                    |i: int|
                        if 0 <= i < items@.len() {
                            items@[i].view()
                        } else {
                            JsonTree::Null
                        },
                ),
            ),
            JsonValue::Object(fields) => JsonTree::Object(
                Seq::new(
                    fields@.len(),
                    |i: int|
                        (
                            fields@[i].0@,
                            if 0 <= i < fields@.len() {
                                fields@[i].1.view()
                            } else {
                                JsonTree::Null
                            },
                        ),
                ),
            ),
        }
    }
}

/// The values of a list.
pub open spec fn items_view(items: Seq<JsonValue>) -> Seq<JsonTree> {
    Seq::new(items.len(), |i: int| items[i]@)
}

/// The keys and values of a list.
pub open spec fn fields_view(fields: Seq<(String, JsonValue)>) -> Fields {
    Seq::new(fields.len(), |i: int| (fields[i].0@, fields[i].1@))
}

/// The view of a list is the list of the views.
pub proof fn lemma_json_view(value: JsonValue)
    ensures
        value matches JsonValue::Array(items) ==> value@ == JsonTree::Array(items_view(items@)),
        value matches JsonValue::Object(fields) ==> value@ == JsonTree::Object(
            fields_view(fields@),
        ),
{
    match value {
        JsonValue::Array(items) => {
            assert(value@->Array_0 =~= items_view(items@));
        },
        JsonValue::Object(fields) => {
            assert(value@->Object_0 =~= fields_view(fields@));
        },
        _ => {},
    }
}

// ---------------------------------------------------------------------------
// Keys
// ---------------------------------------------------------------------------

/// The order of keys: character by character, and a key behind its beginnings.
pub open spec fn key_less(a: Seq<char>, b: Seq<char>) -> bool
    decreases a.len(),
{
    if b.len() == 0 {
        false
    } else if a.len() == 0 {
        true
    } else if a[0] != b[0] {
        (a[0] as int) < (b[0] as int)
    } else {
        key_less(a.drop_first(), b.drop_first())
    }
}

/// The fields stand in the order of their keys, and no key stands twice.
pub open spec fn sorted_keys(fields: Fields) -> bool {
    forall|i: int, j: int|
        0 <= i < j < fields.len() ==> key_less(#[trigger] fields[i].0, #[trigger] fields[j].0)
}

/// The fields of every object in `tree` stand in the order of their keys.
pub open spec fn sorted_tree(tree: JsonTree) -> bool
    decreases tree,
{
    match tree {
        JsonTree::Array(items) => forall|i: int|
            0 <= i < items.len() ==> {
                let item = #[trigger] items[i];
                sorted_tree(item)
            },
        JsonTree::Object(fields) => {
            &&& sorted_keys(fields)
            &&& forall|i: int| 0 <= i < fields.len() ==> sorted_tree(#[trigger] fields[i].1)
        },
        _ => true,
    }
}

pub proof fn lemma_sorted_item(items: Seq<JsonTree>, i: int)
    requires
        sorted_tree(JsonTree::Array(items)),
        0 <= i < items.len(),
    ensures
        sorted_tree(items[i]),
{
    let tree = JsonTree::Array(items);
    assert(tree->Array_0 == items);
}

pub proof fn lemma_key_less_transitive(a: Seq<char>, b: Seq<char>, c: Seq<char>)
    requires
        key_less(a, b),
        key_less(b, c),
    ensures
        key_less(a, c),
    decreases a.len(),
{
    if a.len() > 0 && a[0] == b[0] && b[0] == c[0] {
        lemma_key_less_transitive(a.drop_first(), b.drop_first(), c.drop_first());
    }
}

pub proof fn lemma_key_less_total(a: Seq<char>, b: Seq<char>)
    ensures
        !(key_less(a, b) && key_less(b, a)),
        a == b ==> !key_less(a, b),
        a != b ==> key_less(a, b) || key_less(b, a),
    decreases a.len(),
{
    if a.len() > 0 && b.len() > 0 && a[0] == b[0] {
        lemma_key_less_total(a.drop_first(), b.drop_first());
        if a.drop_first() == b.drop_first() {
            assert(a =~= seq![a[0]] + a.drop_first());
            assert(b =~= seq![b[0]] + b.drop_first());
        }
    } else if a.len() == 0 && b.len() == 0 {
        assert(a =~= b);
    }
}

fn code_point(c: char) -> (n: u32)
    ensures
        n == c as int,
{
    c as u32
}

/// Tells whether a key stands before another.
fn key_is_less(a: &str, b: &str) -> (r: bool)
    ensures
        r == key_less(a@, b@),
{
    let left = to_chars(a);
    let right = to_chars(b);
    let n: usize = left.len();
    let m: usize = right.len();
    let mut i: usize = 0;
    assert(left@.subrange(0, n as int) == a@);
    assert(right@.subrange(0, m as int) == b@);
    loop
        invariant
            n == left@.len(),
            m == right@.len(),
            i <= n,
            i <= m,
            key_less(left@.subrange(i as int, n as int), right@.subrange(i as int, m as int))
                == key_less(a@, b@),
        decreases n - i,
    {
        if i == m {
            return false;
        }
        if i == n {
            return true;
        }
        if left[i] != right[i] {
            return code_point(left[i]) < code_point(right[i]);
        }
        proof {
            assert(left@.subrange(i as int, n as int).drop_first() == left@.subrange(
                i + 1,
                n as int,
            ));
            assert(right@.subrange(i as int, m as int).drop_first() == right@.subrange(
                i + 1,
                m as int,
            ));
        }
        i = i + 1;
    }
}

/// The value of a key.
pub open spec fn field(fields: Fields, key: Seq<char>) -> Option<JsonTree>
    decreases fields.len(),
{
    if fields.len() == 0 {
        None
    } else if fields[0].0 == key {
        Some(fields[0].1)
    } else {
        field(fields.drop_first(), key)
    }
}

/// Finds the value of a key.
pub fn find_field<'a>(fields: &'a Vec<(String, JsonValue)>, key: &str) -> (r: Option<&'a JsonValue>)
    ensures
        match r {
            Some(value) => {
                &&& field(fields_view(fields@), key@) == Some(value@)
                &&& exists|i: int| 0 <= i < fields@.len() && #[trigger] fields@[i].1 == *value
            },
            None => field(fields_view(fields@), key@) is None,
        },
{
    let n: usize = fields.len();
    let mut i: usize = 0;
    let ghost all = fields_view(fields@);
    assert(all.subrange(0, n as int) == all);
    while i < n
        invariant
            n == fields@.len(),
            i <= n,
            all == fields_view(fields@),
            field(all.subrange(i as int, n as int), key@) == field(all, key@),
        decreases n - i,
    {
        proof {
            assert(all.subrange(i as int, n as int).drop_first() == all.subrange(i + 1, n as int));
        }
        if same_text(fields[i].0.as_str(), key) {
            return Some(&fields[i].1);
        }
        i = i + 1;
    }
    None
}

/// The fields with `key` set to `value`.
pub open spec fn set_field(fields: Fields, key: Seq<char>, value: JsonTree) -> Fields
    decreases fields.len(),
{
    if fields.len() == 0 {
        seq![(key, value)]
    } else if fields[0].0 == key {
        seq![(key, value)] + fields.drop_first()
    } else if key_less(key, fields[0].0) {
        seq![(key, value)] + fields
    } else {
        seq![fields[0]] + set_field(fields.drop_first(), key, value)
    }
}

proof fn lemma_set_field_behind(fields: Fields, n: int, key: Seq<char>, value: JsonTree)
    requires
        0 <= n <= fields.len(),
        forall|i: int| 0 <= i < n ==> key_less(#[trigger] fields[i].0, key),
    ensures
        set_field(fields, key, value) == fields.subrange(0, n) + set_field(
            fields.subrange(n, fields.len() as int),
            key,
            value,
        ),
    decreases n,
{
    if n == 0 {
        assert(fields.subrange(0, fields.len() as int) == fields);
        assert(fields.subrange(0, 0) + set_field(fields, key, value) =~= set_field(
            fields,
            key,
            value,
        ));
    } else {
        let rest = fields.drop_first();
        lemma_key_less_total(fields[0].0, key);
        assert forall|i: int| 0 <= i < n - 1 implies key_less(#[trigger] rest[i].0, key) by {
            assert(rest[i] == fields[i + 1]);
        }
        lemma_set_field_behind(rest, n - 1, key, value);
        assert(rest.subrange(n - 1, rest.len() as int) == fields.subrange(n, fields.len() as int));
        assert(seq![fields[0]] + rest.subrange(0, n - 1) =~= fields.subrange(0, n));
        assert(seq![fields[0]] + (rest.subrange(0, n - 1) + set_field(
            fields.subrange(n, fields.len() as int),
            key,
            value,
        )) =~= fields.subrange(0, n) + set_field(
            fields.subrange(n, fields.len() as int),
            key,
            value,
        ));
    }
}

/// Every value of the list has sorted objects.
pub open spec fn sorted_fields(fields: Seq<(String, JsonValue)>) -> bool {
    &&& sorted_keys(fields_view(fields))
    &&& forall|i: int| 0 <= i < fields.len() ==> sorted_tree(#[trigger] fields[i].1@)
}

/// Sets `key` to `value`.
pub fn insert_field(fields: &mut Vec<(String, JsonValue)>, key: String, value: JsonValue)
    requires
        sorted_fields(old(fields)@),
        sorted_tree(value@),
    ensures
        fields_view(final(fields)@) == set_field(fields_view(old(fields)@), key@, value@),
        sorted_fields(final(fields)@),
{
    let ghost before = fields@;
    let ghost all = fields_view(fields@);
    let n: usize = fields.len();
    let mut at: usize = 0;
    while at < n && key_is_less(fields[at].0.as_str(), key.as_str())
        invariant
            n == fields@.len(),
            at <= n,
            fields@ == before,
            all == fields_view(before),
            forall|i: int| 0 <= i < at ==> key_less(#[trigger] all[i].0, key@),
        decreases n - at,
    {
        at = at + 1;
    }
    proof {
        lemma_set_field_behind(all, at as int, key@, value@);
        if at < n {
            lemma_key_less_total(all[at as int].0, key@);
            assert(all.subrange(at as int, n as int)[0] == all[at as int]);
            assert forall|j: int| at < j < n implies key_less(key@, #[trigger] all[j].0) by {
                if all[at as int].0 != key@ {
                    lemma_key_less_transitive(key@, all[at as int].0, all[j].0);
                }
            }
        }
    }
    let ghost new_field = (key@, value@);
    if at < n && same_text(fields[at].0.as_str(), key.as_str()) {
        fields.set(at, (key, value));
        proof {
            let after = fields_view(fields@);
            assert(after =~= all.update(at as int, new_field));
            assert(all.subrange(at as int, n as int).drop_first() =~= all.subrange(
                at + 1,
                n as int,
            ));
            assert(after =~= all.subrange(0, at as int) + (seq![new_field] + all.subrange(
                at + 1,
                n as int,
            )));
        }
    } else {
        fields.insert(at, (key, value));
        proof {
            let after = fields_view(fields@);
            assert(after =~= all.insert(at as int, new_field));
            if at == n {
                assert(all.subrange(at as int, n as int) =~= Seq::empty());
                assert(after =~= all.subrange(0, at as int) + seq![new_field]);
            } else {
                assert(after =~= all.subrange(0, at as int) + (seq![new_field] + all.subrange(
                    at as int,
                    n as int,
                )));
            }
        }
    }
}

// ---------------------------------------------------------------------------
// Reading and writing
// ---------------------------------------------------------------------------

/// What a value of the JSON library holds.
pub uninterp spec fn value_tree(value: serde_json::Value) -> JsonTree;

/// The JSON value that a text spells, or why it spells none.
pub uninterp spec fn json_parsed(text: Seq<char>) -> Result<JsonTree, Seq<char>>;

/// The text of a JSON value.
pub uninterp spec fn json_text(tree: JsonTree) -> Seq<char>;

/// The integers that a JSON value may be.
pub open spec fn is_json_integer(n: int) -> bool {
    i64::MIN <= n <= u64::MAX
}

/// A value that is read as it was written: its numbers are integers, and its
/// arrays and objects nest at most `levels` deep.
pub open spec fn exact_tree(tree: JsonTree, levels: nat) -> bool
    decreases tree,
{
    match tree {
        JsonTree::Float(_) => false,
        JsonTree::Array(items) => levels > 0 && forall|i: int|
            0 <= i < items.len() ==> {
                let item = #[trigger] items[i];
                exact_tree(item, (levels - 1) as nat)
            },
        JsonTree::Object(fields) => levels > 0 && forall|i: int|
            0 <= i < fields.len() ==> {
                let entry = #[trigger] fields[i];
                exact_tree(entry.1, (levels - 1) as nat)
            },
        _ => true,
    }
}

/// A value that nests so deep nests no deeper.
pub proof fn lemma_more_levels(tree: JsonTree, levels: nat, more: nat)
    requires
        exact_tree(tree, levels),
        levels <= more,
    ensures
        exact_tree(tree, more),
    decreases tree,
{
    match tree {
        JsonTree::Array(items) => {
            assert forall|i: int| 0 <= i < items.len() implies {
                let item = #[trigger] items[i];
                exact_tree(item, (more - 1) as nat)
            } by {
                let item = items[i];
                assert(decreases_to!(items => items[i]));
                lemma_more_levels(item, (levels - 1) as nat, (more - 1) as nat);
            }
        },
        JsonTree::Object(fields) => {
            assert forall|i: int| 0 <= i < fields.len() implies {
                let entry = #[trigger] fields[i];
                exact_tree(entry.1, (more - 1) as nat)
            } by {
                let entry = fields[i];
                assert(decreases_to!(fields => fields[i]));
                lemma_more_levels(entry.1, (levels - 1) as nat, (more - 1) as nat);
            }
        },
        _ => {},
    }
}

/// How deep arrays and objects may nest that are read as they were written.
pub const EXACT_LEVELS: usize = 100;

/// A text that is one object in braces.
pub open spec fn is_braced(text: Seq<char>) -> bool {
    &&& text.len() > 0
    &&& text[0] == '{'
    &&& json_object_end(text, 0, 0, false, false) == Some(text.len() as int)
}

/// A text that spells this value.
pub open spec fn spells(text: Seq<char>, tree: JsonTree) -> bool {
    json_parsed(text) == Ok::<JsonTree, Seq<char>>(tree)
}

/// The text was read as this value.
pub open spec fn reads_as(r: Result<serde_json::Value, String>, tree: JsonTree) -> bool {
    r matches Ok(value) && value_tree(value) == tree
}

/// Reads a JSON text, by `serde_json::from_str`.
///
/// Trusted: what comes of it depends on the text. An integer in decimal is read
/// as that integer.
#[verifier::external_body]
fn parse_value(text: &str) -> (r: Result<serde_json::Value, String>)
    ensures
        match r {
            Ok(value) => json_parsed(text@) == Ok::<JsonTree, Seq<char>>(value_tree(value)),
            Err(message) => json_parsed(text@) == Err::<JsonTree, Seq<char>>(message@),
        },
        forall|n: int|
            is_json_integer(n) && text@ == #[trigger] signed_decimal(n) ==> reads_as(
                r,
                JsonTree::Integer(n),
            ),
{
    serde_json::from_str::<serde_json::Value>(text).map_err(|e| e.to_string())
}

/// Writes a value as JSON, by `serde_json::to_string`.
///
/// Trusted: the text depends on what the value holds. An integer is written in
/// decimal, and an object in braces that match. A value without other numbers
/// that does not nest too deep is read back from its text. That a value cannot
/// be written does not occur.
#[verifier::external_body]
fn value_text(value: &serde_json::Value) -> (text: String)
    ensures
        text@ == json_text(value_tree(*value)),
        value_tree(*value) is Integer ==> text@ == signed_decimal(value_tree(*value)->Integer_0),
        value_tree(*value) is Object ==> is_braced(text@),
        exact_tree(value_tree(*value), EXACT_LEVELS as nat) ==> spells(text@, value_tree(*value)),
{
    serde_json::to_string(value).unwrap_or_default()
}

/// One level of a value of the JSON library.
pub enum JsonShape<'a> {
    Null,
    Bool(bool),
    Unsigned(u64),
    Signed(i64),
    Float(serde_json::Number),
    Text(&'a str),
    Array(Vec<&'a serde_json::Value>),
    Object(Vec<(&'a str, &'a serde_json::Value)>),
}

/// The value that a level spans.
pub open spec fn shape_tree(shape: JsonShape<'_>) -> JsonTree {
    match shape {
        JsonShape::Null => JsonTree::Null,
        JsonShape::Bool(b) => JsonTree::Bool(b),
        JsonShape::Unsigned(n) => JsonTree::Integer(n as int),
        JsonShape::Signed(n) => JsonTree::Integer(n as int),
        JsonShape::Float(n) => number_tree(n),
        JsonShape::Text(text) => JsonTree::Text(text@),
        JsonShape::Array(items) => JsonTree::Array(
            Seq::new(items@.len(), |i: int| value_tree(*items@[i])),
        ),
        JsonShape::Object(fields) => JsonTree::Object(
            Seq::new(fields@.len(), |i: int| (fields@[i].0@, value_tree(*fields@[i].1))),
        ),
    }
}

/// Takes one level off a `serde_json::Value`.
///
/// Trusted: the level spans what the value holds, and the map of an object
/// hands out its keys in order. A number that `as_u64` or `as_i64` gives is that
/// integer, and any other is none.
#[verifier::external_body]
fn value_shape<'a>(value: &'a serde_json::Value) -> (shape: JsonShape<'a>)
    ensures
        value_tree(*value) == shape_tree(shape),
        shape_tree(shape) matches JsonTree::Object(fields) ==> sorted_keys(fields),
        shape matches JsonShape::Float(n) ==> number_integer(n) is None,
{
    match value {
        serde_json::Value::Null => JsonShape::Null,
        serde_json::Value::Bool(b) => JsonShape::Bool(*b),
        serde_json::Value::Number(n) => match (n.as_u64(), n.as_i64()) {
            (Some(n), _) => JsonShape::Unsigned(n),
            (None, Some(n)) => JsonShape::Signed(n),
            (None, None) => JsonShape::Float(n.clone()),
        },
        serde_json::Value::String(text) => JsonShape::Text(text),
        serde_json::Value::Array(items) => JsonShape::Array(items.iter().collect()),
        serde_json::Value::Object(map) => {
            JsonShape::Object(map.iter().map(|(key, value)| (key.as_str(), value)).collect())
        },
    }
}

/// One level of a value to be made.
pub enum NewValue<'a> {
    Null,
    Bool(bool),
    Unsigned(u64),
    Signed(i64),
    Number(&'a serde_json::Number),
    Text(&'a str),
    Array(Vec<serde_json::Value>),
    Object(Vec<(&'a str, serde_json::Value)>),
}

/// The value that a level to be made spans.
pub open spec fn new_value_tree(new: NewValue<'_>) -> JsonTree {
    match new {
        NewValue::Null => JsonTree::Null,
        NewValue::Bool(b) => JsonTree::Bool(b),
        NewValue::Unsigned(n) => JsonTree::Integer(n as int),
        NewValue::Signed(n) => JsonTree::Integer(n as int),
        NewValue::Number(n) => number_tree(*n),
        NewValue::Text(text) => JsonTree::Text(text@),
        NewValue::Array(items) => JsonTree::Array(
            Seq::new(items@.len(), |i: int| value_tree(items@[i])),
        ),
        NewValue::Object(fields) => JsonTree::Object(
            Seq::new(fields@.len(), |i: int| (fields@[i].0@, value_tree(fields@[i].1))),
        ),
    }
}

/// Makes a `serde_json::Value` of one level.
///
/// Trusted: the value holds what the level spans, where a number of the JSON
/// library is the integer that it gives, if it gives one. The map of an object
/// orders its keys, so that they have to be given in order.
#[verifier::external_body]
fn make_value(new: NewValue<'_>) -> (value: serde_json::Value)
    requires
        new_value_tree(new) matches JsonTree::Object(fields) ==> sorted_keys(fields),
    ensures
        value_tree(value) == new_value_tree(new),
{
    match new {
        NewValue::Null => serde_json::Value::Null,
        NewValue::Bool(b) => serde_json::Value::Bool(b),
        NewValue::Unsigned(n) => serde_json::Value::Number(n.into()),
        NewValue::Signed(n) => serde_json::Value::Number(n.into()),
        NewValue::Number(n) => serde_json::Value::Number(n.clone()),
        NewValue::Text(text) => serde_json::Value::String(text.to_owned()),
        NewValue::Array(items) => serde_json::Value::Array(items),
        NewValue::Object(fields) => {
            serde_json::Value::Object(fields.into_iter().map(|(k, v)| (k.to_owned(), v)).collect())
        },
    }
}

/// Copies a number.
///
/// Trusted: the clone of a `serde_json::Number` is the same number.
#[verifier::external_body]
fn copy_number(number: &serde_json::Number) -> (r: serde_json::Number)
    ensures
        r == *number,
{
    number.clone()
}

/// The value of the JSON library as a value of this one.
fn from_value(value: &serde_json::Value) -> (r: JsonValue)
    ensures
        r@ == value_tree(*value),
        sorted_tree(r@),
    decreases value_tree(*value),
{
    let shape = value_shape(value);
    let ghost tree = value_tree(*value);
    match shape {
        JsonShape::Null => JsonValue::Null,
        JsonShape::Bool(b) => JsonValue::Bool(b),
        JsonShape::Unsigned(n) => JsonValue::Unsigned(n),
        JsonShape::Signed(n) => JsonValue::Signed(n),
        JsonShape::Float(n) => JsonValue::Number(n),
        JsonShape::Text(text) => JsonValue::Text(text.to_owned()),
        JsonShape::Array(parts) => {
            let mut items: Vec<JsonValue> = Vec::new();
            let mut i: usize = 0;
            while i < parts.len()
                invariant
                    i <= parts@.len(),
                    tree == value_tree(*value),
                    tree == shape_tree(JsonShape::Array(parts)),
                    items@.len() == i,
                    forall|j: int| 0 <= j < i ==> (#[trigger] items@[j])@ == value_tree(*parts@[j]),
                    forall|j: int| 0 <= j < i ==> sorted_tree((#[trigger] items@[j])@),
                decreases parts@.len() - i,
            {
                proof {
                    assert(tree->Array_0[i as int] == value_tree(*parts@[i as int]));
                    assert(decreases_to!(tree => tree->Array_0[i as int]));
                }
                items.push(from_value(parts[i]));
                i = i + 1;
            }
            let r = JsonValue::Array(items);
            proof {
                lemma_json_view(r);
                assert(items_view(items@) =~= tree->Array_0);
            }
            r
        },
        JsonShape::Object(parts) => {
            let mut fields: Vec<(String, JsonValue)> = Vec::new();
            let mut i: usize = 0;
            while i < parts.len()
                invariant
                    i <= parts@.len(),
                    tree == value_tree(*value),
                    tree == shape_tree(JsonShape::Object(parts)),
                    fields@.len() == i,
                    forall|j: int|
                        0 <= j < i ==> (#[trigger] fields@[j]).0@ == parts@[j].0@ && fields@[j].1@
                            == value_tree(*parts@[j].1),
                    forall|j: int| 0 <= j < i ==> sorted_tree((#[trigger] fields@[j]).1@),
                decreases parts@.len() - i,
            {
                proof {
                    assert(tree->Object_0[i as int].1 == value_tree(*parts@[i as int].1));
                    assert(decreases_to!(tree => tree->Object_0[i as int].1));
                }
                let (key, part) = parts[i];
                fields.push((key.to_owned(), from_value(part)));
                i = i + 1;
            }
            let r = JsonValue::Object(fields);
            proof {
                lemma_json_view(r);
                assert(fields_view(fields@) =~= tree->Object_0);
            }
            r
        },
    }
}

/// The value of the JSON library for a value of this one.
fn to_value(value: &JsonValue) -> (r: serde_json::Value)
    requires
        sorted_tree(value@),
    ensures
        value_tree(r) == value@,
    decreases value,
{
    proof {
        lemma_json_view(*value);
    }
    match value {
        JsonValue::Null => make_value(NewValue::Null),
        JsonValue::Bool(b) => make_value(NewValue::Bool(*b)),
        JsonValue::Unsigned(n) => make_value(NewValue::Unsigned(*n)),
        JsonValue::Signed(n) => make_value(NewValue::Signed(*n)),
        JsonValue::Number(n) => make_value(NewValue::Number(n)),
        JsonValue::Text(text) => make_value(NewValue::Text(text.as_str())),
        JsonValue::Array(items) => {
            let mut parts: Vec<serde_json::Value> = Vec::new();
            let mut i: usize = 0;
            while i < items.len()
                invariant
                    i <= items@.len(),
                    *value == JsonValue::Array(*items),
                    sorted_tree(value@),
                    value@ == JsonTree::Array(items_view(items@)),
                    parts@.len() == i,
                    forall|j: int| 0 <= j < i ==> value_tree(#[trigger] parts@[j]) == items@[j]@,
                decreases items@.len() - i,
            {
                proof {
                    lemma_sorted_item(items_view(items@), i as int);
                    assert(decreases_to!(*items => items[i as int]));
                }
                parts.push(to_value(&items[i]));
                i = i + 1;
            }
            let new = NewValue::Array(parts);
            assert(new_value_tree(new)->Array_0 =~= items_view(items@));
            make_value(new)
        },
        JsonValue::Object(fields) => {
            let mut parts: Vec<(&str, serde_json::Value)> = Vec::new();
            let mut i: usize = 0;
            while i < fields.len()
                invariant
                    i <= fields@.len(),
                    *value == JsonValue::Object(*fields),
                    sorted_tree(value@),
                    value@ == JsonTree::Object(fields_view(fields@)),
                    parts@.len() == i,
                    forall|j: int|
                        0 <= j < i ==> (#[trigger] parts@[j]).0@ == fields@[j].0@ && value_tree(
                            parts@[j].1,
                        ) == fields@[j].1@,
                decreases fields@.len() - i,
            {
                proof {
                    assert(fields_view(fields@)[i as int].1 == fields@[i as int].1@);
                    assert(decreases_to!(*fields => fields[i as int]));
                }
                parts.push((fields[i].0.as_str(), to_value(&fields[i].1)));
                i = i + 1;
            }
            let new = NewValue::Object(parts);
            assert(new_value_tree(new)->Object_0 =~= fields_view(fields@));
            make_value(new)
        },
    }
}

/// `r` is `expected`, seen as a mathematical value, or the error with its text.
pub open spec fn says<T: View>(r: Result<T, String>, expected: Result<T::V, Seq<char>>) -> bool {
    match expected {
        Ok(value) => r matches Ok(given) && given@ == value,
        Err(text) => r matches Err(message) && message@ == text,
    }
}

/// Reads a JSON text.
pub fn parse_json(text: &str) -> (r: Result<JsonValue, String>)
    ensures
        says(r, json_parsed(text@)),
        r matches Ok(value) ==> sorted_tree(value@),
        forall|n: int|
            is_json_integer(n) && text@ == #[trigger] signed_decimal(n) ==> spells(
                text@,
                JsonTree::Integer(n),
            ),
{
    match parse_value(text) {
        Ok(value) => Ok(from_value(&value)),
        Err(message) => Err(message),
    }
}

impl JsonValue {
    /// Writes this value as JSON.
    pub fn write(&self) -> (text: String)
        requires
            sorted_tree(self@),
        ensures
            text@ == json_text(self@),
            self@ matches JsonTree::Integer(n) ==> text@ == signed_decimal(n),
            self@ is Object ==> is_braced(text@),
            exact_tree(self@, EXACT_LEVELS as nat) ==> spells(text@, self@),
    {
        value_text(&to_value(self))
    }
}

/// A copy of a value.
pub fn copy_json(value: &JsonValue) -> (r: JsonValue)
    ensures
        r@ == value@,
    decreases value,
{
    proof {
        lemma_json_view(*value);
    }
    match value {
        JsonValue::Null => JsonValue::Null,
        JsonValue::Bool(b) => JsonValue::Bool(*b),
        JsonValue::Unsigned(n) => JsonValue::Unsigned(*n),
        JsonValue::Signed(n) => JsonValue::Signed(*n),
        JsonValue::Number(n) => JsonValue::Number(copy_number(n)),
        JsonValue::Text(text) => JsonValue::Text(text.clone()),
        JsonValue::Array(items) => {
            let mut parts: Vec<JsonValue> = Vec::new();
            let mut i: usize = 0;
            while i < items.len()
                invariant
                    i <= items@.len(),
                    *value == JsonValue::Array(*items),
                    parts@.len() == i,
                    forall|j: int| 0 <= j < i ==> (#[trigger] parts@[j])@ == items@[j]@,
                decreases items@.len() - i,
            {
                assert(decreases_to!(*value => value->Array_0));
                assert(decreases_to!(*items => items[i as int]));
                parts.push(copy_json(&items[i]));
                i = i + 1;
            }
            let r = JsonValue::Array(parts);
            proof {
                lemma_json_view(r);
                assert(items_view(parts@) =~= items_view(items@));
            }
            r
        },
        JsonValue::Object(fields) => {
            let mut parts: Vec<(String, JsonValue)> = Vec::new();
            let mut i: usize = 0;
            while i < fields.len()
                invariant
                    i <= fields@.len(),
                    *value == JsonValue::Object(*fields),
                    parts@.len() == i,
                    forall|j: int|
                        0 <= j < i ==> (#[trigger] parts@[j]).0@ == fields@[j].0@
                            && parts@[j].1@ == fields@[j].1@,
                decreases fields@.len() - i,
            {
                assert(decreases_to!(*value => value->Object_0));
                assert(decreases_to!(*fields => fields[i as int]));
                parts.push((fields[i].0.clone(), copy_json(&fields[i].1)));
                i = i + 1;
            }
            let r = JsonValue::Object(parts);
            proof {
                lemma_json_view(r);
                assert(fields_view(parts@) =~= fields_view(fields@));
            }
            r
        },
    }
}

// ---------------------------------------------------------------------------
// Laws
// ---------------------------------------------------------------------------

/// A key that is set has the value that it was set to, and every other key the
/// value that it had.
pub proof fn law_set_field_changes_one_key(
    fields: Fields,
    key: Seq<char>,
    value: JsonTree,
    other: Seq<char>,
)
    requires
        sorted_keys(fields),
    ensures
        field(set_field(fields, key, value), key) == Some(value),
        other != key ==> field(set_field(fields, key, value), other) == field(fields, other),
        fields.len() <= set_field(fields, key, value).len() <= fields.len() + 1,
    decreases fields.len(),
{
    let changed = set_field(fields, key, value);
    if fields.len() > 0 {
        let rest = fields.drop_first();
        assert(sorted_keys(rest)) by {
            assert forall|i: int, j: int| 0 <= i < j < rest.len() implies key_less(
                #[trigger] rest[i].0,
                #[trigger] rest[j].0,
            ) by {
                assert(rest[i] == fields[i + 1] && rest[j] == fields[j + 1]);
            }
        }
        if fields[0].0 == key {
            assert(changed.drop_first() =~= rest);
        } else if key_less(key, fields[0].0) {
            assert(changed.drop_first() =~= fields);
        } else {
            law_set_field_changes_one_key(rest, key, value, other);
            assert(changed.drop_first() =~= set_field(rest, key, value));
        }
    } else {
        assert(changed.drop_first() =~= Seq::empty());
        assert(fields =~= Seq::empty());
    }
}

/// A key has a value exactly where a field has that key, and then it is that of
/// the first.
pub proof fn law_field_is_the_first_of_its_key(fields: Fields, key: Seq<char>, i: int)
    ensures
        0 <= i < fields.len() && fields[i].0 == key && (forall|j: int|
            0 <= j < i ==> (#[trigger] fields[j]).0 != key) ==> field(fields, key) == Some(
            fields[i].1,
        ),
        (forall|j: int| 0 <= j < fields.len() ==> (#[trigger] fields[j]).0 != key) ==> field(
            fields,
            key,
        ) is None,
    decreases fields.len(),
{
    if fields.len() > 0 {
        let rest = fields.drop_first();
        law_field_is_the_first_of_its_key(rest, key, i - 1);
        assert(forall|j: int| 0 <= j < rest.len() ==> #[trigger] rest[j] == fields[j + 1]);
        assert(fields[0] == fields[0]);
    }
}

/// Keys are ordered as in a dictionary of characters: at the first character
/// that differs, and a key before its continuations.
pub proof fn law_keys_are_ordered_by_characters(
    common: Seq<char>,
    a: Seq<char>,
    b: Seq<char>,
)
    requires
        b.len() > 0,
        a.len() == 0 || (a[0] as int) < (b[0] as int),
    ensures
        key_less(common + a, common + b),
        !key_less(common + b, common + a),
    decreases common.len(),
{
    if common.len() > 0 {
        law_keys_are_ordered_by_characters(common.drop_first(), a, b);
        assert((common + a).drop_first() =~= common.drop_first() + a);
        assert((common + b).drop_first() =~= common.drop_first() + b);
    } else {
        assert(common + a =~= a);
        assert(common + b =~= b);
    }
}

} // verus!
