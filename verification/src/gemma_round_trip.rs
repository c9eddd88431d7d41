//! What is written in the notation of FunctionGemma is read back.

use vstd::prelude::*;
use vstd::string::*;

use crate::gemma_text::{child_count, serialized, serialized_fields, serialized_items, wrapped};
use crate::gemma_value::{
    fields_at, has_char, is_delimiter, items_at, key_at, skip_space, spelled_value,
    value_at, word_at, word_end, word_value, ESCAPE_TOKEN,
};
use crate::json::{
    is_json_integer, json_text, key_less, lemma_key_less_total, set_field, sorted_keys, Fields,
    JsonTree,
};
use crate::text::{
    ascii_upper, ascii_upper_text, contains, decimal, find, is_white_space, lemma_find_from,
    matches_at, same_ignoring_ascii_case, signed_decimal,
};

verus! {

/// A key that is written as it is and read as a bare word.
pub open spec fn plain_key(key: Seq<char>) -> bool {
    &&& key.len() > 0
    &&& key[0] != '"'
    &&& forall|i: int| 0 <= i < key.len() ==> !is_delimiter(#[trigger] key[i])
}

/// A bare word that is read as such where a value is expected.
pub open spec fn plain_word(word: Seq<char>) -> bool {
    plain_key(word) && word[0] != '<'
}

/// A value that can be written under `key` and read back: its texts hold no
/// `<escape>`, those under the key `type` are in capital letters, and the keys
/// of its objects are bare words in order. Whether a number that is no integer
/// is read back is up to the JSON library, which writes and reads it.
pub open spec fn plain_value(key: Option<Seq<char>>, tree: JsonTree) -> bool
    decreases tree,
{
    match tree {
        JsonTree::Null => true,
        JsonTree::Bool(_) => true,
        JsonTree::Integer(n) => is_json_integer(n),
        JsonTree::Float(_) => plain_word(json_text(tree)) && word_value(json_text(tree)) == tree,
        JsonTree::Text(text) => !contains(text, ESCAPE_TOKEN@) && (key == Some("type"@)
            ==> ascii_upper_text(text) == text),
        JsonTree::Array(items) => forall|i: int|
            0 <= i < items.len() ==> {
                let item = #[trigger] items[i];
                plain_value(None, item)
            },
        JsonTree::Object(fields) => {
            &&& sorted_keys(fields)
            &&& forall|i: int|
                0 <= i < fields.len() ==> {
                    let entry = #[trigger] fields[i];
                    plain_key(entry.0) && plain_value(Some(entry.0), entry.1)
                }
        },
    }
}

/// A value may end at `e`: the text ends there, or a delimiter follows.
spec fn may_end(s: Seq<char>, e: int) -> bool {
    0 <= e <= s.len() && (e < s.len() ==> is_delimiter(s[e]))
}

proof fn lemma_split(s: Seq<char>, a: Seq<char>, b: Seq<char>, p: int)
    requires
        matches_at(s, a + b, p),
    ensures
        matches_at(s, a, p),
        matches_at(s, b, p + a.len()),
{
    let whole = s.subrange(p, p + (a + b).len());
    assert(s.subrange(p, p + a.len()) =~= whole.subrange(0, a.len() as int));
    assert((a + b).subrange(0, a.len() as int) =~= a);
    assert(s.subrange(p + a.len(), p + a.len() + b.len()) =~= whole.subrange(
        a.len() as int,
        (a + b).len() as int,
    ));
    assert((a + b).subrange(a.len() as int, (a + b).len() as int) =~= b);
}

proof fn lemma_char_at(s: Seq<char>, a: Seq<char>, p: int, i: int)
    requires
        matches_at(s, a, p),
        0 <= i < a.len(),
    ensures
        0 <= p + i < s.len(),
        s[p + i] == a[i],
{
    assert(s.subrange(p, p + a.len())[i] == s[p + i]);
}

proof fn lemma_word_ends_at(s: Seq<char>, p: int, e: int)
    requires
        0 <= p <= e,
        may_end(s, e),
        forall|i: int| p <= i < e ==> !is_delimiter(#[trigger] s[i]),
    ensures
        word_end(s, p) == e,
    decreases e - p,
{
    if p < e {
        lemma_word_ends_at(s, p + 1, e);
    }
}

/// A bare word that stands at `p` is read.
proof fn lemma_word_is_read(s: Seq<char>, p: int, word: Seq<char>)
    requires
        word.len() > 0,
        matches_at(s, word, p),
        may_end(s, p + word.len()),
        forall|i: int| 0 <= i < word.len() ==> !is_delimiter(#[trigger] word[i]),
    ensures
        word_at(s, p) == Ok::<(Seq<char>, int), Seq<char>>((word, p + word.len())),
{
    assert forall|i: int| p <= i < p + word.len() implies !is_delimiter(#[trigger] s[i]) by {
        lemma_char_at(s, word, p, i - p);
    }
    lemma_word_ends_at(s, p, p + word.len());
}

/// A bare word that stands at `p` is read as a value.
proof fn lemma_word_value_is_read(s: Seq<char>, p: int, word: Seq<char>)
    requires
        plain_word(word),
        matches_at(s, word, p),
        may_end(s, p + word.len()),
    ensures
        value_at(s, p) == Ok::<(JsonTree, int), Seq<char>>((word_value(word), p + word.len())),
{
    lemma_word_is_read(s, p, word);
    lemma_char_at(s, word, p, 0);
    assert(!is_delimiter(word[0]));
    assert(skip_space(s, p) == p);
    assert(!matches_at(s, ESCAPE_TOKEN@, p)) by {
        reveal_strlit("<escape>");
        if matches_at(s, ESCAPE_TOKEN@, p) {
            lemma_char_at(s, ESCAPE_TOKEN@, p, 0);
        }
    }
}

/// The words for `null`, `true` and `false` are read as what they mean.
proof fn lemma_literals_mean_their_values()
    ensures
        word_value("null"@) == JsonTree::Null,
        word_value("true"@) == JsonTree::Bool(true),
        word_value("false"@) == JsonTree::Bool(false),
        plain_word("null"@),
        plain_word("true"@),
        plain_word("false"@),
{
    reveal_strlit("null");
    reveal_strlit("true");
    reveal_strlit("false");
    assert(same_ignoring_ascii_case("true"@, "true"@));
    assert(same_ignoring_ascii_case("false"@, "false"@));
    assert(same_ignoring_ascii_case("null"@, "null"@));
    let (null, yes, no) = (
        ascii_upper_text("null"@),
        ascii_upper_text("true"@),
        ascii_upper_text("false"@),
    );
    assert(null.len() == 4 && yes.len() == 4 && no.len() == 5);
    assert(null[0] == ascii_upper('n') && yes[0] == ascii_upper('t'));
    assert(ascii_upper('n') == 'N' && ascii_upper('t') == 'T');
}

/// A text between `<escape>` and `<escape>` that stands at `p` is read.
proof fn lemma_wrapped_is_read(s: Seq<char>, p: int, text: Seq<char>)
    requires
        !contains(text, ESCAPE_TOKEN@),
        matches_at(s, wrapped(text), p),
    ensures
        value_at(s, p) == Ok::<(JsonTree, int), Seq<char>>(
            (JsonTree::Text(text), p + wrapped(text).len()),
        ),
{
    let token = ESCAPE_TOKEN@;
    let n = token.len() as int;
    assert(token.len() == 8 && token[0] == '<' && forall|k: int|
        0 < k < token.len() ==> #[trigger] token[k] != token[0]) by {
        reveal_strlit("<escape>");
    }
    lemma_split(s, token + text, token, p);
    lemma_split(s, token, text, p);
    lemma_char_at(s, token, p, 0);
    assert(skip_space(s, p) == p);
    let rest = s.subrange(p + n, s.len() as int);
    assert(rest.subrange(text.len() as int, text.len() + n) =~= s.subrange(
        p + n + text.len(),
        p + n + text.len() + n,
    ));
    assert(matches_at(rest, token, text.len() as int));
    assert forall|j: int| 0 <= j < text.len() implies !matches_at(rest, token, j) by {
        if matches_at(rest, token, j) {
            if j + n <= text.len() {
                assert(text.subrange(j, j + n) =~= rest.subrange(j, j + n)) by {
                    assert forall|k: int| 0 <= k < n implies #[trigger] text[j + k] == rest[j + k] by {
                        lemma_char_at(s, text, p + n, j + k);
                    }
                }
                assert(matches_at(text, token, j));
            } else {
                let k = text.len() - j;
                lemma_char_at(rest, token, j, k);
                lemma_char_at(rest, token, text.len() as int, 0);
            }
        }
    }
    lemma_find_from(rest, token, 0);
    assert(find(rest, token) == Some(text.len() as int));
    assert(s.subrange(p + n, p + n + text.len()) == text);
}

// ---------------------------------------------------------------------------
// Arrays
// ---------------------------------------------------------------------------

/// Where the item at `i` begins, behind the opening bracket.
spec fn item_offset(tree: JsonTree, i: nat) -> nat {
    if i == 0 {
        0
    } else {
        serialized_items(tree, i).len() + 1
    }
}

/// The first items of an array stand where the array stands.
proof fn lemma_first_items_at(s: Seq<char>, q: int, tree: JsonTree, m: nat, n: nat)
    requires
        tree is Array,
        m <= n <= tree->Array_0.len(),
        matches_at(s, serialized_items(tree, n), q),
    ensures
        matches_at(s, serialized_items(tree, m), q),
        0 < m < n ==> has_char(s, q + serialized_items(tree, m).len(), ','),
    decreases n,
{
    if m < n {
        let before = serialized_items(tree, (n - 1) as nat);
        let last = serialized(None, tree->Array_0[n - 1]);
        if n == 1 {
            assert(serialized_items(tree, 0) =~= Seq::<char>::empty());
            assert(s.subrange(q, q) =~= Seq::<char>::empty());
        } else {
            lemma_split(s, before + ","@, last, q);
            lemma_split(s, before, ","@, q);
            assert(has_char(s, q + before.len(), ',')) by {
                reveal_strlit(",");
                lemma_char_at(s, ","@, q + before.len(), 0);
            }
            lemma_first_items_at(s, q, tree, m, (n - 1) as nat);
        }
    }
}

/// The item at `i` stands where it should.
proof fn lemma_item_at(s: Seq<char>, q: int, tree: JsonTree, i: nat)
    requires
        tree is Array,
        i < tree->Array_0.len(),
        matches_at(s, serialized_items(tree, tree->Array_0.len()), q),
    ensures
        matches_at(s, serialized(None, tree->Array_0[i as int]), q + item_offset(tree, i)),
        item_offset(tree, i) + serialized(None, tree->Array_0[i as int]).len()
            == serialized_items(tree, i + 1).len(),
{
    let n = tree->Array_0.len();
    lemma_first_items_at(s, q, tree, i + 1, n);
    let before = serialized_items(tree, i);
    let last = serialized(None, tree->Array_0[i as int]);
    if i > 0 {
        assert(","@.len() == 1) by {
            reveal_strlit(",");
        }
        lemma_split(s, before + ","@, last, q);
    }
}

// ---------------------------------------------------------------------------
// Objects
// ---------------------------------------------------------------------------

/// The field at `i` as it is written.
spec fn serialized_field(tree: JsonTree, i: nat) -> Seq<char> {
    let (key, value) = tree->Object_0[i as int];
    key + ":"@ + serialized(Some(key), value)
}

/// Where the field at `i` begins, behind the opening brace.
spec fn field_offset(tree: JsonTree, i: nat) -> nat {
    if i == 0 {
        0
    } else {
        serialized_fields(tree, i).len() + 1
    }
}

/// The first fields of an object stand where the object stands.
proof fn lemma_first_fields_at(s: Seq<char>, q: int, tree: JsonTree, m: nat, n: nat)
    requires
        tree is Object,
        m <= n <= tree->Object_0.len(),
        matches_at(s, serialized_fields(tree, n), q),
    ensures
        matches_at(s, serialized_fields(tree, m), q),
        0 < m < n ==> has_char(s, q + serialized_fields(tree, m).len(), ','),
    decreases n,
{
    if m < n {
        let before = serialized_fields(tree, (n - 1) as nat);
        let last = serialized_field(tree, (n - 1) as nat);
        if n == 1 {
            assert(serialized_fields(tree, 0) =~= Seq::<char>::empty());
            assert(s.subrange(q, q) =~= Seq::<char>::empty());
        } else {
            lemma_split(s, before + ","@, last, q);
            lemma_split(s, before, ","@, q);
            assert(has_char(s, q + before.len(), ',')) by {
                reveal_strlit(",");
                lemma_char_at(s, ","@, q + before.len(), 0);
            }
            lemma_first_fields_at(s, q, tree, m, (n - 1) as nat);
        }
    }
}

/// The field at `i` stands where it should.
proof fn lemma_field_at(s: Seq<char>, q: int, tree: JsonTree, i: nat)
    requires
        tree is Object,
        i < tree->Object_0.len(),
        matches_at(s, serialized_fields(tree, tree->Object_0.len()), q),
    ensures
        matches_at(s, serialized_field(tree, i), q + field_offset(tree, i)),
        field_offset(tree, i) + serialized_field(tree, i).len() == serialized_fields(
            tree,
            i + 1,
        ).len(),
{
    let n = tree->Object_0.len();
    lemma_first_fields_at(s, q, tree, i + 1, n);
    let before = serialized_fields(tree, i);
    let last = serialized_field(tree, i);
    if i > 0 {
        assert(","@.len() == 1) by {
            reveal_strlit(",");
        }
        lemma_split(s, before + ","@, last, q);
    }
}

/// A key behind all others is set behind them.
proof fn lemma_set_last_field(fields: Fields, key: Seq<char>, value: JsonTree)
    requires
        forall|i: int| 0 <= i < fields.len() ==> key_less(#[trigger] fields[i].0, key),
    ensures
        set_field(fields, key, value) == fields.push((key, value)),
    decreases fields.len(),
{
    if fields.len() == 0 {
        assert(fields.push((key, value)) =~= seq![(key, value)]);
    } else {
        let rest = fields.drop_first();
        lemma_key_less_total(fields[0].0, key);
        assert forall|i: int| 0 <= i < rest.len() implies key_less(#[trigger] rest[i].0, key) by {
            assert(rest[i] == fields[i + 1]);
        }
        lemma_set_last_field(rest, key, value);
        assert(seq![fields[0]] + rest.push((key, value)) =~= fields.push((key, value)));
    }
}

// ---------------------------------------------------------------------------
// Values
// ---------------------------------------------------------------------------

/// The number that digits make.
spec fn digits_value(digits: Seq<char>) -> int
    decreases digits.len(),
{
    if digits.len() == 0 {
        0
    } else {
        10 * digits_value(digits.drop_last()) + (digits.last() as int - '0' as int)
    }
}

proof fn lemma_decimal_is_digits(n: nat)
    ensures
        decimal(n).len() > 0,
        forall|i: int|
            0 <= i < decimal(n).len() ==> '0' as int <= #[trigger] decimal(n)[i] as int
                <= '9' as int,
        digits_value(decimal(n)) == n,
    decreases n,
{
    if n < 10 {
        assert(decimal(n).drop_last() =~= Seq::empty());
        reveal_with_fuel(digits_value, 2);
    } else {
        lemma_decimal_is_digits(n / 10);
        assert(decimal(n).drop_last() =~= decimal(n / 10));
    }
}

/// An integer in decimal is a bare word, and means that integer.
proof fn lemma_integer_is_plain(n: int)
    requires
        is_json_integer(n),
    ensures
        plain_word(signed_decimal(n)),
        word_value(signed_decimal(n)) == JsonTree::Integer(n),
{
    let word = signed_decimal(n);
    lemma_decimal_is_digits(n as nat);
    lemma_decimal_is_digits((-n) as nat);
    assert forall|i: int| 0 <= i < word.len() implies !is_delimiter(#[trigger] word[i]) by {
        if n < 0 && i > 0 {
            assert(word[i] == decimal((-n) as nat)[i - 1]);
        }
    }
    assert(ascii_upper(word[0]) == word[0]);
    reveal_strlit("true");
    reveal_strlit("false");
    reveal_strlit("null");
    assert(ascii_upper_text(word)[0] == word[0]);
    assert(ascii_upper_text("true"@)[0] == 'T');
    assert(ascii_upper_text("false"@)[0] == 'F');
    assert(ascii_upper_text("null"@)[0] == 'N');
    let m = choose|m: int| is_json_integer(m) && word == #[trigger] signed_decimal(m);
    lemma_decimal_is_digits(m as nat);
    lemma_decimal_is_digits((-m) as nat);
    if m < 0 {
        assert(signed_decimal(m).drop_first() =~= decimal((-m) as nat));
    }
    if n < 0 {
        assert(word.drop_first() =~= decimal((-n) as nat));
    }
    assert(m == n);
}

/// What a written value begins with.
proof fn lemma_first_char(key: Option<Seq<char>>, tree: JsonTree)
    requires
        plain_value(key, tree),
    ensures
        ({
            let text = serialized(key, tree);
            &&& text.len() > 0
            &&& !is_white_space(text[0])
            &&& text[0] != ']'
        }),
{
    let text = serialized(key, tree);
    match tree {
        JsonTree::Null => {
            reveal_strlit("null");
        },
        JsonTree::Bool(_) => {
            reveal_strlit("true");
            reveal_strlit("false");
        },
        JsonTree::Integer(n) => {
            lemma_integer_is_plain(n);
            assert(!is_delimiter(text[0]));
        },
        JsonTree::Float(_) => {
            assert(!is_delimiter(text[0]));
        },
        JsonTree::Text(_) => {
            reveal_strlit("<escape>");
            assert(text[0] == ESCAPE_TOKEN@[0]);
        },
        JsonTree::Array(items) => {
            reveal_strlit("[");
            assert(text[0] == "["@[0]);
        },
        JsonTree::Object(fields) => {
            reveal_strlit("{");
            assert(text[0] == "{"@[0]);
        },
    }
}

/// A written value that stands at `p` is read.
proof fn lemma_value_is_read(s: Seq<char>, p: int, key: Option<Seq<char>>, tree: JsonTree)
    requires
        plain_value(key, tree),
        matches_at(s, serialized(key, tree), p),
        may_end(s, p + serialized(key, tree).len()),
    ensures
        value_at(s, p) == Ok::<(JsonTree, int), Seq<char>>(
            (tree, p + serialized(key, tree).len()),
        ),
    decreases tree, child_count(tree) + 3,
{
    match tree {
        JsonTree::Null => {
            lemma_literals_mean_their_values();
            lemma_word_value_is_read(s, p, "null"@);
        },
        JsonTree::Bool(true) => {
            lemma_literals_mean_their_values();
            lemma_word_value_is_read(s, p, "true"@);
        },
        JsonTree::Bool(false) => {
            lemma_literals_mean_their_values();
            lemma_word_value_is_read(s, p, "false"@);
        },
        JsonTree::Integer(n) => {
            lemma_integer_is_plain(n);
            lemma_word_value_is_read(s, p, signed_decimal(n));
        },
        JsonTree::Float(_) => {
            lemma_word_value_is_read(s, p, json_text(tree));
        },
        JsonTree::Text(text) => {
            lemma_wrapped_is_read(s, p, text);
        },
        JsonTree::Array(items) => {
            lemma_array_is_read(s, p, key, tree);
        },
        JsonTree::Object(fields) => {
            lemma_object_is_read(s, p, key, tree);
        },
    }
}

/// A written array that stands at `p` is read.
proof fn lemma_array_is_read(s: Seq<char>, p: int, key: Option<Seq<char>>, tree: JsonTree)
    requires
        tree is Array,
        plain_value(key, tree),
        matches_at(s, serialized(key, tree), p),
    ensures
        value_at(s, p) == Ok::<(JsonTree, int), Seq<char>>(
            (tree, p + serialized(key, tree).len()),
        ),
    decreases tree, tree->Array_0.len() + 2,
{
    let items = tree->Array_0;
    let n = items.len();
    let inner = serialized_items(tree, n);
    assert("["@.len() == 1 && "["@[0] == '[' && "]"@.len() == 1 && "]"@[0] == ']') by {
        reveal_strlit("[");
        reveal_strlit("]");
    }
    lemma_split(s, "["@ + inner, "]"@, p);
    lemma_split(s, "["@, inner, p);
    lemma_char_at(s, "["@, p, 0);
    lemma_char_at(s, "]"@, p + 1 + inner.len(), 0);
    assert(skip_space(s, p) == p);
    if n == 0 {
        assert(inner =~= Seq::<char>::empty());
        assert(skip_space(s, p + 1) == p + 1);
        assert(items =~= Seq::empty());
    } else {
        lemma_items_are_read(s, p + 1, tree, 0);
        assert(items.take(0) =~= Seq::empty());
    }
}

/// The items from `i` on are read.
proof fn lemma_items_are_read(s: Seq<char>, q: int, tree: JsonTree, i: nat)
    requires
        tree is Array,
        plain_value(None, tree),
        i < tree->Array_0.len(),
        0 <= q,
        matches_at(s, serialized_items(tree, tree->Array_0.len()), q),
        has_char(s, q + serialized_items(tree, tree->Array_0.len()).len(), ']'),
    ensures
        items_at(s, q + item_offset(tree, i), tree->Array_0.take(i as int)) == Ok::<
            (JsonTree, int),
            Seq<char>,
        >((tree, q + serialized_items(tree, tree->Array_0.len()).len() + 1)),
    decreases tree, tree->Array_0.len() - i,
{
    let items = tree->Array_0;
    let n = items.len();
    let item = items[i as int];
    let text = serialized(None, item);
    let p = q + item_offset(tree, i);
    let end = p + text.len();
    assert(plain_value(None, item));
    assert(decreases_to!(items => items[i as int]));
    lemma_item_at(s, q, tree, i);
    lemma_first_items_at(s, q, tree, i + 1, n);
    lemma_first_char(None, item);
    lemma_char_at(s, text, p, 0);
    assert(skip_space(s, p) == p);
    assert(end == q + serialized_items(tree, i + 1).len());
    assert(skip_space(s, end) == end);
    lemma_value_is_read(s, p, None, item);
    assert(items.take(i as int).push(item) =~= items.take(i + 1int));
    if i + 1 < n {
        assert(has_char(s, end, ','));
        lemma_items_are_read(s, q, tree, i + 1);
    } else {
        assert(items.take(i + 1int) =~= items);
    }
}

/// A written object that stands at `p` is read.
proof fn lemma_object_is_read(s: Seq<char>, p: int, key: Option<Seq<char>>, tree: JsonTree)
    requires
        tree is Object,
        plain_value(key, tree),
        matches_at(s, serialized(key, tree), p),
    ensures
        value_at(s, p) == Ok::<(JsonTree, int), Seq<char>>(
            (tree, p + serialized(key, tree).len()),
        ),
    decreases tree, tree->Object_0.len() + 2,
{
    let fields = tree->Object_0;
    let n = fields.len();
    let inner = serialized_fields(tree, n);
    assert("{"@.len() == 1 && "{"@[0] == '{' && "}"@.len() == 1 && "}"@[0] == '}') by {
        reveal_strlit("{");
        reveal_strlit("}");
    }
    lemma_split(s, "{"@ + inner, "}"@, p);
    lemma_split(s, "{"@, inner, p);
    lemma_char_at(s, "{"@, p, 0);
    lemma_char_at(s, "}"@, p + 1 + inner.len(), 0);
    assert(skip_space(s, p) == p);
    if n == 0 {
        assert(inner =~= Seq::<char>::empty());
        assert(skip_space(s, p + 1) == p + 1);
        assert(fields =~= Seq::empty());
    } else {
        lemma_fields_are_read(s, p + 1, tree, 0);
        assert(fields.take(0) =~= Seq::empty());
    }
}

/// The key of a field that stands at `p` is read, and a colon follows.
proof fn lemma_key_is_read(s: Seq<char>, p: int, key: Seq<char>)
    requires
        plain_key(key),
        matches_at(s, key, p),
        has_char(s, p + key.len(), ':'),
    ensures
        !has_char(s, p, '}'),
        skip_space(s, p) == p,
        key_at(s, p) == Ok::<(Seq<char>, int), Seq<char>>((key, p + key.len())),
        skip_space(s, p + key.len()) == p + key.len(),
{
    lemma_char_at(s, key, p, 0);
    assert(!is_delimiter(key[0]));
    lemma_word_is_read(s, p, key);
}

/// The fields from `i` on are read.
proof fn lemma_fields_are_read(s: Seq<char>, q: int, tree: JsonTree, i: nat)
    requires
        tree is Object,
        plain_value(None, tree),
        i < tree->Object_0.len(),
        0 <= q,
        matches_at(s, serialized_fields(tree, tree->Object_0.len()), q),
        has_char(s, q + serialized_fields(tree, tree->Object_0.len()).len(), '}'),
    ensures
        fields_at(s, q + field_offset(tree, i), tree->Object_0.take(i as int)) == Ok::<
            (JsonTree, int),
            Seq<char>,
        >((tree, q + serialized_fields(tree, tree->Object_0.len()).len() + 1)),
    decreases tree, tree->Object_0.len() - i,
{
    let fields = tree->Object_0;
    let n = fields.len();
    let entry = fields[i as int];
    let (key, value) = entry;
    let text = serialized(Some(key), value);
    let p = q + field_offset(tree, i);
    let colon = p + key.len();
    let end = colon + 1 + text.len();
    assert(plain_key(entry.0) && plain_value(Some(entry.0), entry.1));
    assert(decreases_to!(fields => fields[i as int]));
    lemma_field_at(s, q, tree, i);
    lemma_first_fields_at(s, q, tree, i + 1, n);
    assert(":"@.len() == 1 && ":"@[0] == ':') by {
        reveal_strlit(":");
    }
    lemma_split(s, key + ":"@, text, p);
    lemma_split(s, key, ":"@, p);
    lemma_char_at(s, ":"@, colon, 0);
    lemma_key_is_read(s, p, key);
    assert(end == q + serialized_fields(tree, i + 1).len());
    assert(skip_space(s, end) == end);
    lemma_value_is_read(s, colon + 1, Some(key), value);
    let before = fields.take(i as int);
    assert forall|j: int| 0 <= j < before.len() implies key_less(#[trigger] before[j].0, key) by {
        assert(before[j] == fields[j]);
        assert(key_less(fields[j].0, fields[i as int].0));
    }
    lemma_set_last_field(before, key, value);
    assert(before.push((key, value)) =~= fields.take(i + 1int));
    if i + 1 < n {
        assert(has_char(s, end, ','));
        lemma_fields_are_read(s, q, tree, i + 1);
    } else {
        assert(fields.take(i + 1int) =~= fields);
    }
}

/// A plain value that is written in the notation of FunctionGemma is read back
/// as it was.
pub proof fn law_plain_value_is_read_back(tree: JsonTree)
    requires
        plain_value(None, tree),
    ensures
        spelled_value(serialized(None, tree)) == Ok::<JsonTree, Seq<char>>(tree),
{
    let s = serialized(None, tree);
    assert(s.subrange(0, s.len() as int) =~= s);
    lemma_value_is_read(s, 0, None, tree);
    assert(skip_space(s, s.len() as int) == s.len());
}

} // verus!
