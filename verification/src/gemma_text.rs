//! Writes values in the notation of FunctionGemma, and clears up the texts that
//! it leaves in values.

use vstd::prelude::*;
use vstd::string::*;

use crate::gemma_value::ESCAPE_TOKEN;
use crate::json::{
    copy_json, fields_view, items_view, json_text, key_less, lemma_json_view, sorted_keys,
    sorted_tree, JsonTree, JsonValue,
};
use crate::text::{
    ascii_upper_text, contains, find_chars, from_chars, law_replacing_goes_from_left,
    lemma_find_contains, lemma_replace_removes, matches_at, replace, replace_chars, same_text,
    signed_decimal, to_ascii_uppercase, to_chars,
};

verus! {

// ---------------------------------------------------------------------------
// Writing
// ---------------------------------------------------------------------------

/// A text between `<escape>` and `<escape>`.
pub open spec fn wrapped(text: Seq<char>) -> Seq<char> {
    ESCAPE_TOKEN@ + text + ESCAPE_TOKEN@
}

/// The number of values directly in a value.
pub open spec fn child_count(tree: JsonTree) -> nat {
    match tree {
        JsonTree::Array(items) => items.len(),
        JsonTree::Object(fields) => fields.len(),
        _ => 0,
    }
}

/// A value in the notation of FunctionGemma. The text of a key `type` is in
/// capital letters.
pub open spec fn serialized(key: Option<Seq<char>>, tree: JsonTree) -> Seq<char>
    decreases tree, child_count(tree) + 1,
{
    match tree {
        JsonTree::Null => "null"@,
        JsonTree::Bool(true) => "true"@,
        JsonTree::Bool(false) => "false"@,
        JsonTree::Integer(n) => signed_decimal(n),
        JsonTree::Float(_) => json_text(tree),
        JsonTree::Text(text) => wrapped(
            if key == Some("type"@) {
                ascii_upper_text(text)
            } else {
                text
            },
        ),
        JsonTree::Array(items) => "["@ + serialized_items(tree, items.len()) + "]"@,
        JsonTree::Object(fields) => "{"@ + serialized_fields(tree, fields.len()) + "}"@,
    }
}

/// The first `n` values of an array, with commas between them.
pub open spec fn serialized_items(tree: JsonTree, n: nat) -> Seq<char>
    decreases tree, n,
{
    match tree {
        JsonTree::Array(items) => if n == 0 || n > items.len() {
            Seq::empty()
        } else {
            let last = serialized(None, items[n - 1]);
            if n == 1 {
                last
            } else {
                serialized_items(tree, (n - 1) as nat) + ","@ + last
            }
        },
        _ => Seq::empty(),
    }
}

/// The first `n` fields of an object, with commas between them.
pub open spec fn serialized_fields(tree: JsonTree, n: nat) -> Seq<char>
    decreases tree, n,
{
    match tree {
        JsonTree::Object(fields) => if n == 0 || n > fields.len() {
            Seq::empty()
        } else {
            let (key, value) = fields[n - 1];
            let last = key + ":"@ + serialized(Some(key), value);
            if n == 1 {
                last
            } else {
                serialized_fields(tree, (n - 1) as nat) + ","@ + last
            }
        },
        _ => Seq::empty(),
    }
}

/// The text of an optional key.
pub open spec fn key_view(key: Option<&str>) -> Option<Seq<char>> {
    match key {
        Some(key) => Some(key@),
        None => None,
    }
}

fn is_type_key(key: Option<&str>) -> (b: bool)
    ensures
        b == (key_view(key) == Some("type"@)),
{
    match key {
        Some(key) => same_text(key, "type"),
        None => false,
    }
}

/// Writes a value in the notation of FunctionGemma. `key` is the key that the
/// value stands under.
pub fn serialize_functiongemma_value(key: Option<&str>, value: &JsonValue) -> (text: String)
    ensures
        text@ == serialized(key_view(key), value@),
    decreases value,
{
    proof {
        lemma_json_view(*value);
    }
    match value {
        JsonValue::Null => "null".to_owned(),
        JsonValue::Bool(b) => {
            if *b {
                "true".to_owned()
            } else {
                "false".to_owned()
            }
        },
        JsonValue::Unsigned(_) => value.write(),
        JsonValue::Signed(_) => value.write(),
        JsonValue::Number(_) => value.write(),
        JsonValue::Text(text) => {
            let mut rendered = ESCAPE_TOKEN.to_owned();
            if is_type_key(key) {
                rendered.append(to_ascii_uppercase(text.as_str()).as_str());
            } else {
                rendered.append(text.as_str());
            }
            rendered.append(ESCAPE_TOKEN);
            rendered
        },
        JsonValue::Array(items) => {
            let ghost tree = value@;
            let mut rendered = String::new();
            let mut i: usize = 0;
            assert(rendered@ =~= Seq::<char>::empty());
            while i < items.len()
                invariant
                    i <= items@.len(),
                    *value == JsonValue::Array(*items),
                    tree == JsonTree::Array(items_view(items@)),
                    rendered@ == serialized_items(tree, i as nat),
                decreases items@.len() - i,
            {
                assert(decreases_to!(*value => value->Array_0));
                assert(decreases_to!(*items => items[i as int]));
                let item = serialize_functiongemma_value(None, &items[i]);
                assert(items_view(items@)[i as int] == items@[i as int]@);
                if i == 0 {
                    rendered = item;
                } else {
                    rendered.append(",");
                    rendered.append(item.as_str());
                }
                i = i + 1;
            }
            let mut text = "[".to_owned();
            text.append(rendered.as_str());
            text.append("]");
            text
        },
        JsonValue::Object(fields) => {
            let ghost tree = value@;
            let mut rendered = String::new();
            let mut i: usize = 0;
            assert(rendered@ =~= Seq::<char>::empty());
            while i < fields.len()
                invariant
                    i <= fields@.len(),
                    *value == JsonValue::Object(*fields),
                    tree == JsonTree::Object(fields_view(fields@)),
                    rendered@ == serialized_fields(tree, i as nat),
                decreases fields@.len() - i,
            {
                assert(decreases_to!(*value => value->Object_0));
                assert(decreases_to!(*fields => fields[i as int]));
                let mut item = fields[i].0.clone();
                item.append(":");
                item.append(
                    serialize_functiongemma_value(
                        Some(fields[i].0.as_str()),
                        &fields[i].1,
                    ).as_str(),
                );
                assert(fields_view(fields@)[i as int] == (
                    fields@[i as int].0@,
                    fields@[i as int].1@,
                ));
                if i == 0 {
                    rendered = item;
                } else {
                    rendered.append(",");
                    rendered.append(item.as_str());
                }
                i = i + 1;
            }
            let mut text = "{".to_owned();
            text.append(rendered.as_str());
            text.append("}");
            text
        },
    }
}

// ---------------------------------------------------------------------------
// Clearing up
// ---------------------------------------------------------------------------

/// A text without the quotes around it.
pub open spec fn unquoted(text: Seq<char>) -> Seq<char> {
    if text.len() >= 2 && text[0] == '"' && text.last() == '"' {
        text.subrange(1, text.len() - 1)
    } else {
        text
    }
}

/// A text with quotes for `<escape>`, and without the quotes around it.
pub open spec fn cleared(text: Seq<char>) -> Seq<char> {
    unquoted(
        if contains(text, ESCAPE_TOKEN@) {
            replace(text, ESCAPE_TOKEN@, seq!['"'])
        } else {
            text
        },
    )
}

/// A value with every text in it cleared up.
pub open spec fn cleared_tree(tree: JsonTree) -> JsonTree
    decreases tree,
{
    match tree {
        JsonTree::Text(text) => JsonTree::Text(cleared(text)),
        JsonTree::Array(items) => JsonTree::Array(
            Seq::new(
                items.len(),
                |i: int|
                    if 0 <= i < items.len() {
                        cleared_tree(items[i])
                    } else {
                        JsonTree::Null
                    },
            ),
        ),
        JsonTree::Object(fields) => JsonTree::Object(
            Seq::new(
                fields.len(),
                |i: int|
                    (
                        fields[i].0,
                        if 0 <= i < fields.len() {
                            cleared_tree(fields[i].1)
                        } else {
                            JsonTree::Null
                        },
                    ),
            ),
        ),
        _ => tree,
    }
}

fn clear_text(text: &str) -> (r: String)
    ensures
        r@ == cleared(text@),
{
    let chars = to_chars(text);
    let token = to_chars(ESCAPE_TOKEN);
    proof {
        reveal_strlit("<escape>");
        lemma_find_contains(text@, ESCAPE_TOKEN@);
    }
    let quote: [char; 1] = ['"'];
    assert(quote@ =~= seq!['"']);
    let replaced = if find_chars(chars.as_slice(), token.as_slice()).is_some() {
        replace_chars(chars.as_slice(), token.as_slice(), &quote)
    } else {
        chars
    };
    let n: usize = replaced.len();
    if n >= 2 && replaced[0] == '"' && replaced[n - 1] == '"' {
        from_chars(&replaced[1..n - 1])
    } else {
        from_chars(replaced.as_slice())
    }
}

fn cleared_copy(value: &JsonValue) -> (r: JsonValue)
    ensures
        r@ == cleared_tree(value@),
    decreases value,
{
    proof {
        lemma_json_view(*value);
    }
    match value {
        JsonValue::Text(text) => JsonValue::Text(clear_text(text.as_str())),
        JsonValue::Array(items) => {
            let mut parts: Vec<JsonValue> = Vec::new();
            let mut i: usize = 0;
            while i < items.len()
                invariant
                    i <= items@.len(),
                    *value == JsonValue::Array(*items),
                    parts@.len() == i,
                    forall|j: int|
                        0 <= j < i ==> (#[trigger] parts@[j])@ == cleared_tree(items@[j]@),
                decreases items@.len() - i,
            {
                assert(decreases_to!(*value => value->Array_0));
                assert(decreases_to!(*items => items[i as int]));
                parts.push(cleared_copy(&items[i]));
                i = i + 1;
            }
            let r = JsonValue::Array(parts);
            proof {
                lemma_json_view(r);
                assert(items_view(parts@) =~= cleared_tree(value@)->Array_0);
            }
            r
        },
        JsonValue::Object(fields) => {
            let mut parts: Vec<(String, JsonValue)> = Vec::new();
            let mut i: usize = 0;
            while i < fields.len()
                invariant
                    i <= fields@.len(),
                    *value == JsonValue::Object(*fields),
                    parts@.len() == i,
                    forall|j: int|
                        0 <= j < i ==> (#[trigger] parts@[j]).0@ == fields@[j].0@ && parts@[j].1@
                            == cleared_tree(fields@[j].1@),
                decreases fields@.len() - i,
            {
                assert(decreases_to!(*value => value->Object_0));
                assert(decreases_to!(*fields => fields[i as int]));
                parts.push((fields[i].0.clone(), cleared_copy(&fields[i].1)));
                i = i + 1;
            }
            let r = JsonValue::Object(parts);
            proof {
                lemma_json_view(r);
                assert(fields_view(parts@) =~= cleared_tree(value@)->Object_0);
            }
            r
        },
        _ => copy_json(value),
    }
}

/// Clears up every text in a value: quotes stand for `<escape>`, and quotes
/// around a text are dropped.
pub fn normalize_string_artifacts(value: &mut JsonValue)
    ensures
        final(value)@ == cleared_tree(old(value)@),
{
    let cleared = cleared_copy(value);
    *value = cleared;
}

/// Clearing up leaves objects sorted.
pub proof fn lemma_cleared_tree_is_sorted(tree: JsonTree)
    requires
        sorted_tree(tree),
    ensures
        sorted_tree(cleared_tree(tree)),
    decreases tree,
{
    match tree {
        JsonTree::Array(items) => {
            let parts = cleared_tree(tree)->Array_0;
            assert forall|i: int| 0 <= i < parts.len() implies {
                let part = #[trigger] parts[i];
                sorted_tree(part)
            } by {
                let item = items[i];
                assert(decreases_to!(items => items[i]));
                lemma_cleared_tree_is_sorted(items[i]);
            }
        },
        JsonTree::Object(fields) => {
            let parts = cleared_tree(tree)->Object_0;
            assert(sorted_keys(parts)) by {
                assert forall|i: int, j: int|
                    0 <= i < j < parts.len() implies key_less(
                    #[trigger] parts[i].0,
                    #[trigger] parts[j].0,
                ) by {
                    assert(parts[i].0 == fields[i].0);
                    assert(parts[j].0 == fields[j].0);
                }
            }
            assert forall|i: int| 0 <= i < parts.len() implies sorted_tree(
                #[trigger] parts[i].1,
            ) by {
                assert(decreases_to!(fields => fields[i]));
                lemma_cleared_tree_is_sorted(fields[i].1);
            }
        },
        _ => {},
    }
}

// ---------------------------------------------------------------------------
// Laws
// ---------------------------------------------------------------------------

/// No text in a value holds `<escape>`.
pub open spec fn escape_free(tree: JsonTree) -> bool
    decreases tree,
{
    match tree {
        JsonTree::Text(text) => !contains(text, ESCAPE_TOKEN@),
        JsonTree::Array(items) => forall|i: int|
            0 <= i < items.len() ==> {
                let item = #[trigger] items[i];
                escape_free(item)
            },
        JsonTree::Object(fields) => forall|i: int|
            0 <= i < fields.len() ==> escape_free(#[trigger] fields[i].1),
        _ => true,
    }
}

/// No text in a value stands in quotes.
pub open spec fn quote_free(tree: JsonTree) -> bool
    decreases tree,
{
    match tree {
        JsonTree::Text(text) => unquoted(text) == text,
        JsonTree::Array(items) => forall|i: int|
            0 <= i < items.len() ==> {
                let item = #[trigger] items[i];
                quote_free(item)
            },
        JsonTree::Object(fields) => forall|i: int|
            0 <= i < fields.len() ==> {
                let entry = #[trigger] fields[i];
                quote_free(entry.1)
            },
        _ => true,
    }
}

/// Clearing up leaves a value as it is in which no text holds `<escape>` or
/// stands in quotes.
pub proof fn law_settled_value_is_clear(tree: JsonTree)
    requires
        escape_free(tree),
        quote_free(tree),
    ensures
        cleared_tree(tree) == tree,
    decreases tree,
{
    match tree {
        JsonTree::Array(items) => {
            assert forall|i: int| 0 <= i < items.len() implies cleared_tree(
                #[trigger] items[i],
            ) == items[i] by {
                let item = items[i];
                assert(decreases_to!(items => items[i]));
                law_settled_value_is_clear(item);
            }
            assert(cleared_tree(tree)->Array_0 =~= items);
        },
        JsonTree::Object(fields) => {
            assert forall|i: int| 0 <= i < fields.len() implies cleared_tree(
                (#[trigger] fields[i]).1,
            ) == fields[i].1 by {
                let entry = fields[i];
                assert(decreases_to!(fields => fields[i]));
                law_settled_value_is_clear(entry.1);
            }
            assert(cleared_tree(tree)->Object_0 =~= fields);
        },
        _ => {},
    }
}

/// No text holds `<escape>` once it is cleared up.
pub proof fn law_cleared_text_holds_no_escape(text: Seq<char>)
    ensures
        !contains(cleared(text), ESCAPE_TOKEN@),
{
    reveal_strlit("<escape>");
    let replaced = if contains(text, ESCAPE_TOKEN@) {
        replace(text, ESCAPE_TOKEN@, seq!['"'])
    } else {
        text
    };
    assert(!contains(replaced, ESCAPE_TOKEN@)) by {
        if contains(text, ESCAPE_TOKEN@) {
            lemma_replace_removes(text, ESCAPE_TOKEN@, seq!['"']);
        }
    }
    if contains(cleared(text), ESCAPE_TOKEN@) && cleared(text) != replaced {
        let at = choose|at: int| matches_at(cleared(text), ESCAPE_TOKEN@, at);
        assert(replaced.subrange(at + 1, at + 1 + ESCAPE_TOKEN@.len()) == cleared(text).subrange(
            at,
            at + ESCAPE_TOKEN@.len(),
        ));
        assert(matches_at(replaced, ESCAPE_TOKEN@, at + 1));
    }
}

/// No text in a value holds `<escape>` once the value is cleared up.
pub proof fn law_cleared_value_holds_no_escape(tree: JsonTree)
    ensures
        escape_free(cleared_tree(tree)),
    decreases tree,
{
    match tree {
        JsonTree::Text(text) => {
            law_cleared_text_holds_no_escape(text);
        },
        JsonTree::Array(items) => {
            let parts = cleared_tree(tree)->Array_0;
            assert forall|i: int| 0 <= i < parts.len() implies {
                let part = #[trigger] parts[i];
                escape_free(part)
            } by {
                assert(decreases_to!(items => items[i]));
                law_cleared_value_holds_no_escape(items[i]);
            }
        },
        JsonTree::Object(fields) => {
            let parts = cleared_tree(tree)->Object_0;
            assert forall|i: int| 0 <= i < parts.len() implies escape_free(
                #[trigger] parts[i].1,
            ) by {
                assert(decreases_to!(fields => fields[i]));
                law_cleared_value_holds_no_escape(fields[i].1);
            }
        },
        _ => {},
    }
}

/// Texts are written between `<escape>` and `<escape>` as they are, but under the
/// key `type` in capital letters.
pub proof fn law_only_types_are_capitalized(key: Option<Seq<char>>, text: Seq<char>)
    ensures
        key != Some("type"@) ==> serialized(key, JsonTree::Text(text)) == "<escape>"@ + text
            + "<escape>"@,
        serialized(Some("type"@), JsonTree::Text(text)) == "<escape>"@ + ascii_upper_text(text)
            + "<escape>"@,
{
}

/// The values of an array are written one behind the other with commas between
/// them, and so are the fields of an object, each behind its key and a colon.
pub proof fn law_parts_are_written_in_order(
    items: Seq<JsonTree>,
    last: JsonTree,
    fields: Seq<(Seq<char>, JsonTree)>,
    key: Seq<char>,
    value: JsonTree,
)
    ensures
        items.len() > 0 ==> serialized(None, JsonTree::Array(items.push(last))) == serialized(
            None,
            JsonTree::Array(items),
        ).drop_last() + seq![','] + serialized(None, last) + seq![']'],
        serialized(None, JsonTree::Array(seq![last])) == seq!['['] + serialized(None, last)
            + seq![']'],
        fields.len() > 0 ==> serialized(None, JsonTree::Object(fields.push((key, value))))
            == serialized(None, JsonTree::Object(fields)).drop_last() + seq![','] + key + seq![':']
            + serialized(Some(key), value) + seq!['}'],
        serialized(None, JsonTree::Object(seq![(key, value)])) == seq!['{'] + key + seq![':']
            + serialized(Some(key), value) + seq!['}'],
{
    assert("["@ =~= seq!['['] && "]"@ =~= seq![']'] && "{"@ =~= seq!['{'] && "}"@ =~= seq!['}']
        && ","@ =~= seq![','] && ":"@ =~= seq![':']) by {
        reveal_strlit("[");
        reveal_strlit("]");
        reveal_strlit("{");
        reveal_strlit("}");
        reveal_strlit(",");
        reveal_strlit(":");
    }
    if items.len() > 0 {
        let more = items.push(last);
        let text = serialized(None, JsonTree::Array(items));
        lemma_earlier_items(items, last, items.len());
        assert(text.drop_last() =~= "["@ + serialized_items(JsonTree::Array(items), items.len()));
        assert(serialized_items(JsonTree::Array(more), more.len()) == serialized_items(
            JsonTree::Array(more),
            items.len(),
        ) + ","@ + serialized(None, more[items.len() as int]));
        assert(serialized(None, JsonTree::Array(more)) =~= text.drop_last() + seq![',']
            + serialized(None, last) + seq![']']);
    }
    let one = JsonTree::Array(seq![last]);
    assert(serialized_items(one, 1) == serialized(None, last));
    assert(serialized(None, one) =~= seq!['['] + serialized(None, last) + seq![']']);
    if fields.len() > 0 {
        let more = fields.push((key, value));
        let text = serialized(None, JsonTree::Object(fields));
        lemma_earlier_fields(fields, (key, value), fields.len());
        assert(text.drop_last() =~= "{"@ + serialized_fields(
            JsonTree::Object(fields),
            fields.len(),
        ));
        assert(more[fields.len() as int] == (key, value));
        assert(serialized_fields(JsonTree::Object(more), more.len()) == serialized_fields(
            JsonTree::Object(more),
            fields.len(),
        ) + ","@ + (key + ":"@ + serialized(Some(key), value)));
        assert(serialized(None, JsonTree::Object(more)) =~= text.drop_last() + seq![','] + key
            + seq![':'] + serialized(Some(key), value) + seq!['}']);
    }
    let single = seq![(key, value)];
    assert(single[0] == (key, value));
    assert(serialized_fields(JsonTree::Object(single), 1) == key + ":"@ + serialized(
        Some(key),
        value,
    ));
    assert(serialized(None, JsonTree::Object(single)) =~= seq!['{'] + key + seq![':'] + serialized(
        Some(key),
        value,
    ) + seq!['}']);
}

proof fn lemma_earlier_items(items: Seq<JsonTree>, last: JsonTree, n: nat)
    requires
        n <= items.len(),
    ensures
        serialized_items(JsonTree::Array(items.push(last)), n) == serialized_items(
            JsonTree::Array(items),
            n,
        ),
    decreases n,
{
    if n > 0 {
        lemma_earlier_items(items, last, (n - 1) as nat);
        assert(items.push(last)[n - 1] == items[n - 1]);
    }
}

proof fn lemma_earlier_fields(
    fields: Seq<(Seq<char>, JsonTree)>,
    last: (Seq<char>, JsonTree),
    n: nat,
)
    requires
        n <= fields.len(),
    ensures
        serialized_fields(JsonTree::Object(fields.push(last)), n) == serialized_fields(
            JsonTree::Object(fields),
            n,
        ),
    decreases n,
{
    if n > 0 {
        lemma_earlier_fields(fields, last, (n - 1) as nat);
        assert(fields.push(last)[n - 1] == fields[n - 1]);
    }
}

/// Clearing up keeps a text in which `<escape>` does not stand and that is not in
/// quotes, takes one pair of quotes off a text that is, and takes `<escape>` off
/// both ends of a text that stands between them.
pub proof fn law_clearing_takes_off_what_surrounds(text: Seq<char>)
    requires
        !text.contains('<'),
    ensures
        !(text.len() >= 2 && text[0] == '"' && text.last() == '"') ==> cleared(text) == text,
        cleared(seq!['"'] + text + seq!['"']) == text,
        cleared("<escape>"@ + text + "<escape>"@) == text,
{
    reveal_strlit("<escape>");
    let quoted = seq!['"'] + text + seq!['"'];
    let escaped = ESCAPE_TOKEN@ + text + ESCAPE_TOKEN@;
    assert(!contains(text, ESCAPE_TOKEN@)) by {
        if contains(text, ESCAPE_TOKEN@) {
            let at = choose|at: int| matches_at(text, ESCAPE_TOKEN@, at);
            assert(text.subrange(at, at + 8)[0] == text[at]);
            assert(text.contains(text[at]));
        }
    }
    assert(!contains(quoted, ESCAPE_TOKEN@)) by {
        if contains(quoted, ESCAPE_TOKEN@) {
            let at = choose|at: int| matches_at(quoted, ESCAPE_TOKEN@, at);
            assert(quoted.subrange(at, at + 8)[0] == quoted[at]);
            if 1 <= at <= text.len() {
                assert(text[at - 1] == quoted[at]);
                assert(text.contains(text[at - 1]));
            }
        }
    }
    assert(quoted.subrange(1, quoted.len() - 1) =~= text);
    let rest = text + ESCAPE_TOKEN@;
    let n = text.len() as int;
    assert(matches_at(escaped, ESCAPE_TOKEN@, 0)) by {
        assert(escaped.subrange(0, 8) =~= ESCAPE_TOKEN@);
    }
    assert(matches_at(rest, ESCAPE_TOKEN@, n)) by {
        assert(rest.subrange(n, n + 8) =~= ESCAPE_TOKEN@);
    }
    assert forall|j: int| 0 <= j < n implies !matches_at(rest, ESCAPE_TOKEN@, j) by {
        if matches_at(rest, ESCAPE_TOKEN@, j) {
            assert(rest.subrange(j, j + 8)[0] == rest[j]);
            assert(text[j] == rest[j]);
            assert(text.contains(text[j]));
        }
    }
    law_replacing_goes_from_left(escaped, ESCAPE_TOKEN@, seq!['"'], 0);
    law_replacing_goes_from_left(rest, ESCAPE_TOKEN@, seq!['"'], n);
    let nothing = Seq::<char>::empty();
    assert(!contains(nothing, ESCAPE_TOKEN@));
    law_replacing_goes_from_left(nothing, ESCAPE_TOKEN@, seq!['"'], 0);
    assert(escaped.skip(8) =~= rest);
    assert(rest.skip(n + 8) =~= nothing);
    assert(rest.take(n) =~= text);
    assert(escaped.take(0) =~= nothing);
    assert(replace(escaped, ESCAPE_TOKEN@, seq!['"']) =~= quoted);
}

/// Clearing up reaches every text in a value and nothing else: keys, order,
/// numbers and the shape of the value stay.
pub proof fn law_clearing_keeps_the_shape(tree: JsonTree, i: int)
    ensures
        tree matches JsonTree::Text(text) ==> cleared_tree(tree) == JsonTree::Text(cleared(text)),
        tree matches JsonTree::Array(items) ==> cleared_tree(tree) matches JsonTree::Array(parts)
            && parts.len() == items.len() && (0 <= i < items.len() ==> parts[i] == cleared_tree(
            items[i],
        )),
        tree matches JsonTree::Object(fields) ==> cleared_tree(tree) matches JsonTree::Object(parts)
            && parts.len() == fields.len() && (0 <= i < fields.len() ==> parts[i].0 == fields[i].0
            && parts[i].1 == cleared_tree(fields[i].1)),
        tree is Null || tree is Bool || tree is Integer || tree is Float ==> cleared_tree(tree)
            == tree,
{
}

/// Null and truth values are written in small letters, and integers in decimal,
/// under whatever key.
pub proof fn law_words_are_written_in_json(key: Option<Seq<char>>, n: int)
    ensures
        serialized(key, JsonTree::Null) == "null"@,
        serialized(key, JsonTree::Bool(true)) == "true"@,
        serialized(key, JsonTree::Bool(false)) == "false"@,
        serialized(key, JsonTree::Integer(n)) == signed_decimal(n),
{
}

} // verus!
