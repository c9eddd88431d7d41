//! Turns what FunctionGemma writes into the one tool call that it stands for.

use vstd::prelude::*;
use vstd::string::*;

use crate::gemma_text::{
    cleared_tree, escape_free, law_cleared_value_holds_no_escape, law_settled_value_is_clear,
    lemma_cleared_tree_is_sorted, normalize_string_artifacts, quote_free,
};
use crate::gemma_value::{parse_functiongemma_value, spelled_value, ESCAPE_TOKEN};
use crate::json::{
    copy_json, exact_tree, field, fields_view, find_field, is_braced, items_view, json_parsed,
    json_text, key_less, lemma_json_view, lemma_more_levels, lemma_sorted_item, parse_json, says,
    sorted_fields, sorted_keys, sorted_tree, spells, Fields, JsonTree, JsonValue, EXACT_LEVELS,
};
use crate::text::{
    contains, ends_with, find, find_chars, from_chars, is_blank, is_white_space,
    law_outer_space_changes_nothing, law_replacing_goes_from_left, law_trim_takes_outer_space,
    lemma_ends_with, lemma_find_contains, lemma_find_from, lemma_trim_keeps, matches_at, replace,
    replace_chars, same_ignoring_ascii_case, same_text, stands_at, to_chars, trim, trim_chars,
    trim_start, trim_start_chars, trim_text,
};

verus! {

/// The only tool that may be called.
pub const EXPECTED_TOOL_NAME: &'static str = "search_photos_v1";

pub const START_FUNCTION_CALL_TOKEN: &'static str = "<start_function_call>";

pub const END_FUNCTION_CALL_TOKEN: &'static str = "<end_function_call>";

/// How a call begins. The first group is the name of the function.
pub const FUNCTION_CALL_PATTERN: &'static str = "(?is)call\\s*:?\\s*([a-zA-Z_][a-zA-Z0-9_]*)";

/// A tagged call. The first group is what stands between the tags.
pub const TOOL_CALL_TAG_PATTERN: &'static str =
    "(?is)<tool_call>\\s*([\\s\\S]*?)\\s*</tool_call>";

// ---------------------------------------------------------------------------
// Objects in a text
// ---------------------------------------------------------------------------

/// Where the JSON object ends that is open at `p`: behind the brace that closes
/// the last of `depth` open ones. Braces in strings do not count, nor does a
/// character behind a backslash.
pub open spec fn json_object_end(
    s: Seq<char>,
    p: int,
    depth: int,
    in_string: bool,
    escaped: bool,
) -> Option<int>
    decreases s.len() - p,
{
    if p < 0 || p >= s.len() {
        None
    } else if escaped {
        json_object_end(s, p + 1, depth, in_string, false)
    } else if s[p] == '\\' {
        json_object_end(s, p + 1, depth, in_string, true)
    } else if s[p] == '"' {
        json_object_end(s, p + 1, depth, !in_string, false)
    } else if in_string {
        json_object_end(s, p + 1, depth, true, false)
    } else if s[p] == '{' {
        json_object_end(s, p + 1, depth + 1, false, false)
    } else if s[p] == '}' {
        if depth == 1 {
            Some(p + 1)
        } else {
            json_object_end(s, p + 1, depth - 1, false, false)
        }
    } else {
        json_object_end(s, p + 1, depth, false, false)
    }
}

/// The first JSON object in a text.
pub open spec fn first_json_object(input: Seq<char>) -> Option<Seq<char>> {
    let text = trim(input);
    match find(text, seq!['{']) {
        None => None,
        Some(start) => match json_object_end(text, start, 0, false, false) {
            None => None,
            Some(end) => Some(text.subrange(start, end)),
        },
    }
}

fn find_open_brace(text: &[char]) -> (r: Option<usize>)
    ensures
        match r {
            Some(at) => {
                &&& find(text@, seq!['{']) == Some(at as int)
                &&& at < text@.len()
                &&& text@[at as int] == '{'
            },
            None => find(text@, seq!['{']) is None,
        },
{
    let brace: [char; 1] = ['{'];
    assert(brace@ =~= seq!['{']);
    proof {
        lemma_find_from(text@, seq!['{'], 0);
    }
    let r = find_chars(text, &brace);
    proof {
        if let Some(at) = r {
            assert(text@.subrange(at as int, at + 1)[0] == '{');
        }
    }
    r
}

/// `r` is `expected`, as a text.
pub open spec fn is_text(r: Option<String>, expected: Option<Seq<char>>) -> bool {
    match expected {
        Some(text) => r matches Some(given) && given@ == text,
        None => r is None,
    }
}

/// Finds the first JSON object in a text.
pub fn extract_first_json_object(input: &str) -> (r: Option<String>)
    ensures
        is_text(r, first_json_object(input@)),
{
    let chars = to_chars(input);
    let text = trim_chars(chars.as_slice());
    let start: usize = match find_open_brace(text) {
        Some(start) => start,
        None => {
            return None;
        },
    };
    let n: usize = text.len();
    let mut depth: usize = 0;
    let mut in_string = false;
    let mut escaped = false;
    let mut p: usize = start;
    while p < n
        invariant
            n == text@.len(),
            text@ == trim(input@),
            find(text@, seq!['{']) == Some(start as int),
            start <= p <= n,
            depth <= p - start,
            p > start ==> depth >= 1,
            p == start ==> depth == 0 && !in_string && !escaped && text@[start as int] == '{',
            json_object_end(text@, p as int, depth as int, in_string, escaped) == json_object_end(
                text@,
                start as int,
                0,
                false,
                false,
            ),
        decreases n - p,
    {
        let c: char = text[p];
        if escaped {
            escaped = false;
        } else if c == '\\' {
            escaped = true;
        } else if c == '"' {
            in_string = !in_string;
        } else if in_string {
        } else if c == '{' {
            depth = depth + 1;
        } else if c == '}' {
            if depth == 1 {
                return Some(from_chars(&text[start..p + 1]));
            }
            depth = depth - 1;
        }
        p = p + 1;
    }
    None
}

/// Where the object ends that is open at `p`, in the notation of FunctionGemma.
/// Braces between `<escape>` and `<escape>` do not count, nor do those in
/// JSON strings.
pub open spec fn gemma_object_end(
    s: Seq<char>,
    p: int,
    depth: int,
    in_escape: bool,
    in_string: bool,
    escaped: bool,
) -> Option<int>
    decreases s.len() - p,
{
    if p < 0 || p >= s.len() {
        None
    } else if matches_at(s, ESCAPE_TOKEN@, p) && ESCAPE_TOKEN@.len() > 0 {
        gemma_object_end(s, p + ESCAPE_TOKEN@.len(), depth, !in_escape, in_string, escaped)
    } else if in_string {
        if escaped {
            gemma_object_end(s, p + 1, depth, in_escape, true, false)
        } else if s[p] == '\\' {
            gemma_object_end(s, p + 1, depth, in_escape, true, true)
        } else {
            gemma_object_end(s, p + 1, depth, in_escape, s[p] != '"', false)
        }
    } else if in_escape {
        gemma_object_end(s, p + 1, depth, true, false, escaped)
    } else if s[p] == '"' {
        gemma_object_end(s, p + 1, depth, false, true, escaped)
    } else if s[p] == '{' {
        gemma_object_end(s, p + 1, depth + 1, false, false, escaped)
    } else if s[p] == '}' {
        if depth == 1 {
            Some(p + 1)
        } else {
            gemma_object_end(s, p + 1, depth - 1, false, false, escaped)
        }
    } else {
        gemma_object_end(s, p + 1, depth, false, false, escaped)
    }
}

/// The first object in a text, in the notation of FunctionGemma.
pub open spec fn first_gemma_object(input: Seq<char>) -> Option<Seq<char>> {
    let text = trim(input);
    match find(text, seq!['{']) {
        None => None,
        Some(start) => match gemma_object_end(text, start, 0, false, false, false) {
            None => None,
            Some(end) => Some(text.subrange(start, end)),
        },
    }
}

/// Finds the first object in a text, in the notation of FunctionGemma.
pub fn extract_first_functiongemma_object(input: &str) -> (r: Option<String>)
    ensures
        is_text(r, first_gemma_object(input@)),
{
    let chars = to_chars(input);
    let text = trim_chars(chars.as_slice());
    let token = to_chars(ESCAPE_TOKEN);
    let start: usize = match find_open_brace(text) {
        Some(start) => start,
        None => {
            return None;
        },
    };
    let n: usize = text.len();
    let mut depth: usize = 0;
    let mut in_escape = false;
    let mut in_string = false;
    let mut escaped = false;
    let mut p: usize = start;
    proof {
        reveal_strlit("<escape>");
    }
    while p < n
        invariant
            n == text@.len(),
            text@ == trim(input@),
            token@ == ESCAPE_TOKEN@,
            token@.len() == 8,
            ESCAPE_TOKEN@[0] == '<',
            find(text@, seq!['{']) == Some(start as int),
            start <= p <= n,
            depth <= p - start,
            p > start ==> depth >= 1,
            p == start ==> depth == 0 && !in_escape && !in_string && !escaped
                && text@[start as int] == '{',
            gemma_object_end(text@, p as int, depth as int, in_escape, in_string, escaped)
                == gemma_object_end(text@, start as int, 0, false, false, false),
        decreases n - p,
    {
        if stands_at(text, token.as_slice(), p) {
            proof {
                assert(text@.subrange(p as int, p + 8)[0] == text@[p as int]);
            }
            in_escape = !in_escape;
            p = p + token.len();
            continue;
        }
        let c: char = text[p];
        if in_string {
            if escaped {
                escaped = false;
            } else if c == '\\' {
                escaped = true;
            } else if c == '"' {
                in_string = false;
            }
        } else if !in_escape {
            if c == '"' {
                in_string = true;
            } else if c == '{' {
                depth = depth + 1;
            } else if c == '}' {
                if depth == 1 {
                    return Some(from_chars(&text[start..p + 1]));
                }
                depth = depth - 1;
            }
        }
        p = p + 1;
    }
    None
}

/// What stands between the tokens of a function call.
pub open spec fn call_block(input: Seq<char>) -> Option<Seq<char>> {
    match find(input, START_FUNCTION_CALL_TOKEN@) {
        None => None,
        Some(start) => {
            let rest = trim_start(
                input.subrange(start + START_FUNCTION_CALL_TOKEN@.len(), input.len() as int),
            );
            Some(
                trim(
                    match find(rest, END_FUNCTION_CALL_TOKEN@) {
                        Some(end) => rest.subrange(0, end),
                        None => rest,
                    },
                ),
            )
        },
    }
}

/// Finds what stands between the tokens of a function call. The closing token
/// may be missing.
pub fn extract_function_call_block(input: &str) -> (r: Option<String>)
    ensures
        is_text(r, call_block(input@)),
{
    let chars = to_chars(input);
    let opening = to_chars(START_FUNCTION_CALL_TOKEN);
    let closing = to_chars(END_FUNCTION_CALL_TOKEN);
    let n: usize = chars.len();
    proof {
        lemma_find_from(input@, START_FUNCTION_CALL_TOKEN@, 0);
    }
    let start: usize = match find_chars(chars.as_slice(), opening.as_slice()) {
        Some(start) => start,
        None => {
            return None;
        },
    };
    let rest = trim_start_chars(&chars[start + opening.len()..n]);
    proof {
        lemma_find_from(rest@, END_FUNCTION_CALL_TOKEN@, 0);
    }
    let block = match find_chars(rest, closing.as_slice()) {
        Some(end) => &rest[0..end],
        None => rest,
    };
    Some(from_chars(trim_chars(block)))
}

// ---------------------------------------------------------------------------
// Calls in a text
// ---------------------------------------------------------------------------

/// The first group of the first match of a pattern, and the text behind the
/// match.
pub uninterp spec fn first_match(pattern: Seq<char>, text: Seq<char>) -> Option<
    (Seq<char>, Seq<char>),
>;

/// The first group of each match of a pattern.
pub uninterp spec fn all_matches(pattern: Seq<char>, text: Seq<char>) -> Seq<Seq<char>>;

/// The word `call` stands in a text, in capital or small letters.
pub open spec fn holds_call(text: Seq<char>) -> bool {
    exists|at: int|
        0 <= at && at + 4 <= text.len() && same_ignoring_ascii_case(
            #[trigger] text.subrange(at, at + 4),
            "call"@,
        )
}

/// The first match of a pattern, by `regex::Regex::captures`.
///
/// Trusted: it depends on the pattern and the text. A match of the pattern of
/// calls holds `call`.
#[verifier::external_body]
fn match_first(pattern: &str, text: &str) -> (r: Option<(String, String)>)
    ensures
        match r {
            Some((group, rest)) => first_match(pattern@, text@) == Some((group@, rest@)),
            None => first_match(pattern@, text@) is None,
        },
        pattern@ == FUNCTION_CALL_PATTERN@ && r is Some ==> holds_call(text@),
{
    let regex = regex::Regex::new(pattern).ok()?;
    let captures = regex.captures(text)?;
    let group = captures.get(1)?.as_str().to_owned();
    Some((group, text[captures.get(0)?.end()..].to_owned()))
}

/// The texts of a list.
pub open spec fn texts_view(texts: Seq<String>) -> Seq<Seq<char>> {
    Seq::new(texts.len(), |i: int| texts[i]@)
}

/// Every match of a pattern, by `regex::Regex::captures_iter`.
///
/// Trusted: they depend on the pattern and the text. A match of the pattern of
/// tagged calls holds `call`.
#[verifier::external_body]
fn match_all(pattern: &str, text: &str) -> (groups: Vec<String>)
    ensures
        texts_view(groups@) == all_matches(pattern@, text@),
        pattern@ == TOOL_CALL_TAG_PATTERN@ && groups@.len() > 0 ==> holds_call(text@),
{
    match regex::Regex::new(pattern) {
        Ok(regex) => regex
            .captures_iter(text)
            .map(|captures| captures.get(1).map_or(String::new(), |m| m.as_str().to_owned()))
            .collect(),
        Err(_) => Vec::new(),
    }
}

/// The name of a function and its arguments, or what is wrong with the call.
pub type CallParts = Result<Option<(Seq<char>, Seq<char>)>, Seq<char>>;

/// The call that a match of the pattern of calls is.
pub open spec fn matched_call(found: Option<(Seq<char>, Seq<char>)>) -> CallParts {
    match found {
        None => Ok(None),
        Some((group, rest)) => {
            let name = trim(group);
            let behind = trim_start(rest);
            if behind.len() == 0 {
                Ok(Some((name, "{}"@)))
            } else if behind[0] == '(' {
                match first_json_object(behind.drop_first()) {
                    Some(arguments) => Ok(Some((name, arguments))),
                    None => Err("Missing JSON arguments in call output"@),
                }
            } else if behind[0] == '{' {
                match first_gemma_object(behind) {
                    Some(arguments) => Ok(Some((name, arguments))),
                    None => Err("Missing object arguments in call output"@),
                }
            } else {
                Err("Unsupported FunctionGemma call syntax"@)
            }
        },
    }
}

/// `r` is `expected`, as texts.
pub open spec fn is_call(r: Result<Option<(String, String)>, String>, expected: CallParts) -> bool {
    match expected {
        Ok(None) => r matches Ok(None),
        Ok(Some((name, arguments))) => r matches Ok(Some((given, rest))) && given@ == name && rest@
            == arguments,
        Err(text) => r matches Err(message) && message@ == text,
    }
}

/// A match as mathematical values.
pub open spec fn match_view(found: Option<(String, String)>) -> Option<(Seq<char>, Seq<char>)> {
    match found {
        Some((group, rest)) => Some((group@, rest@)),
        None => None,
    }
}

/// The call that a match of the pattern of calls is.
pub fn call_of_match(found: Option<(String, String)>) -> (r: Result<
    Option<(String, String)>,
    String,
>)
    ensures
        is_call(r, matched_call(match_view(found))),
{
    let (group, rest) = match found {
        Some(found) => found,
        None => {
            return Ok(None);
        },
    };
    let name = trim_text(group.as_str());
    let chars = to_chars(rest.as_str());
    let behind = trim_start_chars(chars.as_slice());
    let n: usize = behind.len();
    if n == 0 {
        return Ok(Some((name, "{}".to_owned())));
    }
    if behind[0] == '(' {
        assert(behind@.subrange(1, n as int) == behind@.drop_first());
        return match extract_first_json_object(from_chars(&behind[1..n]).as_str()) {
            Some(arguments) => Ok(Some((name, arguments))),
            None => Err("Missing JSON arguments in call output".to_owned()),
        };
    }
    if behind[0] == '{' {
        return match extract_first_functiongemma_object(from_chars(behind).as_str()) {
            Some(arguments) => Ok(Some((name, arguments))),
            None => Err("Missing object arguments in call output".to_owned()),
        };
    }
    Err("Unsupported FunctionGemma call syntax".to_owned())
}

/// The call in a text.
pub open spec fn call_in(input: Seq<char>) -> CallParts {
    matched_call(first_match(FUNCTION_CALL_PATTERN@, input))
}

/// Finds the call in a text: the name of the function and its arguments.
pub fn extract_function_call_arguments(input: &str) -> (r: Result<
    Option<(String, String)>,
    String,
>)
    ensures
        is_call(r, call_in(input@)),
        !holds_call(input@) ==> r matches Ok(None),
{
    call_of_match(match_first(FUNCTION_CALL_PATTERN, input))
}

/// The one tagged call among the blocks between tags.
pub open spec fn single_block(blocks: Seq<Seq<char>>) -> Result<Option<Seq<char>>, Seq<char>> {
    if blocks.len() > 1 {
        Err("Found multiple <tool_call> blocks; expected exactly one"@)
    } else if blocks.len() == 1 {
        Ok(Some(trim(blocks[0])))
    } else {
        Ok(None)
    }
}

/// `r` is `expected`, as a text.
pub open spec fn is_block(
    r: Result<Option<String>, String>,
    expected: Result<Option<Seq<char>>, Seq<char>>,
) -> bool {
    match expected {
        Ok(block) => r matches Ok(given) && is_text(given, block),
        Err(text) => r matches Err(message) && message@ == text,
    }
}

/// The one tagged call among the blocks between tags.
pub fn single_tagged_block(blocks: &Vec<String>) -> (r: Result<Option<String>, String>)
    ensures
        is_block(r, single_block(texts_view(blocks@))),
{
    if blocks.len() > 1 {
        return Err("Found multiple <tool_call> blocks; expected exactly one".to_owned());
    }
    if blocks.len() == 1 {
        assert(texts_view(blocks@)[0] == blocks@[0]@);
        return Ok(Some(trim_text(blocks[0].as_str())));
    }
    Ok(None)
}

/// The tagged call in a text.
pub open spec fn tagged_call_in(input: Seq<char>) -> Result<Option<Seq<char>>, Seq<char>> {
    single_block(all_matches(TOOL_CALL_TAG_PATTERN@, input))
}

/// Finds the tagged call in a text.
pub fn extract_tagged_tool_call_payload(input: &str) -> (r: Result<Option<String>, String>)
    ensures
        is_block(r, tagged_call_in(input@)),
        !holds_call(input@) ==> r matches Ok(None),
{
    single_tagged_block(&match_all(TOOL_CALL_TAG_PATTERN, input))
}

// ---------------------------------------------------------------------------
// The call
// ---------------------------------------------------------------------------

/// An object, if the text was read as one.
pub open spec fn as_object(parsed: Result<JsonTree, Seq<char>>) -> Option<JsonTree> {
    match parsed {
        Ok(JsonTree::Object(fields)) => Some(JsonTree::Object(fields)),
        _ => None,
    }
}

/// The object that arguments spell: as they are, with escaped quotes or with
/// quotes for `<escape>`, or in the notation of FunctionGemma.
pub open spec fn arguments_in(text: Seq<char>) -> Result<JsonTree, Seq<char>> {
    let plain = as_object(json_parsed(text));
    let escaped = as_object(json_parsed(replace(text, ESCAPE_TOKEN@, "\\\""@)));
    let quoted = as_object(json_parsed(replace(text, ESCAPE_TOKEN@, "\""@)));
    let spelled = as_object(spelled_value(text));
    if trim(text).len() == 0 {
        Ok(JsonTree::Object(Seq::empty()))
    } else if plain is Some {
        Ok(plain.unwrap())
    } else if escaped is Some {
        Ok(escaped.unwrap())
    } else if quoted is Some {
        Ok(quoted.unwrap())
    } else if spelled is Some {
        Ok(spelled.unwrap())
    } else {
        Err("Could not parse tool-call arguments as a JSON object"@)
    }
}

fn object_or_none(parsed: Result<JsonValue, String>) -> (r: Option<JsonValue>)
    ensures
        match parsed {
            Ok(JsonValue::Object(_)) => r == Some(parsed->Ok_0),
            _ => r is None,
        },
{
    match parsed {
        Ok(JsonValue::Object(fields)) => Some(JsonValue::Object(fields)),
        _ => None,
    }
}

/// Reads an object with quotes, or what else stands for them, in place of
/// `<escape>`.
fn parse_replaced(text: &str, with: &str) -> (r: Option<JsonValue>)
    ensures
        match r {
            Some(value) => {
                &&& as_object(json_parsed(replace(text@, ESCAPE_TOKEN@, with@))) == Some(value@)
                &&& sorted_tree(value@)
            },
            None => as_object(json_parsed(replace(text@, ESCAPE_TOKEN@, with@))) is None,
        },
{
    let chars = to_chars(text);
    let token = to_chars(ESCAPE_TOKEN);
    proof {
        reveal_strlit("<escape>");
    }
    let replaced = replace_chars(chars.as_slice(), token.as_slice(), to_chars(with).as_slice());
    object_or_none(parse_json(from_chars(replaced.as_slice()).as_str()))
}

/// Reads arguments as an object.
pub fn parse_arguments_object(arguments_json: &str) -> (r: Result<JsonValue, String>)
    ensures
        says(r, arguments_in(arguments_json@)),
        r matches Ok(value) ==> value@ is Object && sorted_tree(value@),
{
    let chars = to_chars(arguments_json);
    if trim_chars(chars.as_slice()).len() == 0 {
        let empty = JsonValue::Object(Vec::new());
        proof {
            lemma_json_view(empty);
            assert(empty@->Object_0 =~= Seq::empty());
        }
        return Ok(empty);
    }
    if let Some(value) = object_or_none(parse_json(arguments_json)) {
        return Ok(value);
    }
    if let Some(value) = parse_replaced(arguments_json, "\\\"") {
        return Ok(value);
    }
    if let Some(value) = parse_replaced(arguments_json, "\"") {
        return Ok(value);
    }
    if let Some(value) = object_or_none(parse_functiongemma_value(arguments_json)) {
        return Ok(value);
    }
    Err("Could not parse tool-call arguments as a JSON object".to_owned())
}

/// A call of the tool.
pub open spec fn call_tree(arguments: JsonTree) -> JsonTree {
    JsonTree::Object(
        seq![
            ("arguments"@, arguments),
            ("name"@, JsonTree::Text(EXPECTED_TOOL_NAME@)),
        ],
    )
}

pub open spec fn unexpected_tool_text(name: Seq<char>) -> Seq<char> {
    "Unexpected FunctionGemma tool call '"@ + name + "'; expected '"@ + EXPECTED_TOOL_NAME@ + "'"@
}

/// The call with a name and arguments.
pub open spec fn call_from_parts(name: Seq<char>, arguments: Seq<char>) -> Result<
    Seq<char>,
    Seq<char>,
> {
    if trim(name) != EXPECTED_TOOL_NAME@ {
        Err(unexpected_tool_text(name))
    } else {
        match arguments_in(arguments) {
            Err(text) => Err("Invalid tool arguments: "@ + text),
            Ok(tree) => Ok(json_text(call_tree(cleared_tree(tree)))),
        }
    }
}

/// `text` is the call of the tool with these arguments: an object in which the
/// fields stand in order and no text holds `<escape>`. Where the arguments are
/// read as they were written, so is the call.
pub open spec fn is_written_call(text: Seq<char>, arguments: JsonTree) -> bool {
    &&& arguments is Object
    &&& sorted_tree(arguments)
    &&& escape_free(arguments)
    &&& text == json_text(call_tree(arguments))
    &&& is_braced(text)
    &&& exact_tree(arguments, (EXACT_LEVELS - 1) as nat) ==> spells(text, call_tree(arguments))
}

/// Writes the call with a name and arguments.
pub fn normalize_call_from_parts(name: &str, arguments_json: &str) -> (r: Result<String, String>)
    ensures
        says(r, call_from_parts(name@, arguments_json@)),
        r matches Ok(text) ==> exists|arguments: JsonTree| #[trigger]
            is_written_call(text@, arguments),
{
    if !same_text(trim_text(name).as_str(), EXPECTED_TOOL_NAME) {
        let mut message = "Unexpected FunctionGemma tool call '".to_owned();
        message.append(name);
        message.append("'; expected '");
        message.append(EXPECTED_TOOL_NAME);
        message.append("'");
        return Err(message);
    }
    let mut arguments = match parse_arguments_object(arguments_json) {
        Ok(arguments) => arguments,
        Err(text) => {
            let mut message = "Invalid tool arguments: ".to_owned();
            message.append(text.as_str());
            return Err(message);
        },
    };
    proof {
        lemma_cleared_tree_is_sorted(arguments@);
        law_cleared_value_holds_no_escape(arguments@);
    }
    normalize_string_artifacts(&mut arguments);
    let ghost tree = arguments@;
    let mut fields: Vec<(String, JsonValue)> = Vec::new();
    fields.push(("arguments".to_owned(), arguments));
    fields.push(("name".to_owned(), JsonValue::Text(EXPECTED_TOOL_NAME.to_owned())));
    let call = JsonValue::Object(fields);
    proof {
        lemma_json_view(call);
        assert(fields_view(fields@) =~= call_tree(tree)->Object_0);
        lemma_call_tree_is_sorted(tree);
        if exact_tree(tree, (EXACT_LEVELS - 1) as nat) {
            lemma_call_tree_is_exact(tree);
        }
    }
    let text = call.write();
    assert(is_written_call(text@, tree));
    Ok(text)
}

proof fn lemma_call_tree_is_exact(arguments: JsonTree)
    requires
        exact_tree(arguments, (EXACT_LEVELS - 1) as nat),
    ensures
        exact_tree(call_tree(arguments), EXACT_LEVELS as nat),
{
    let fields = call_tree(arguments)->Object_0;
    assert forall|i: int| 0 <= i < fields.len() implies {
        let entry = #[trigger] fields[i];
        exact_tree(entry.1, (EXACT_LEVELS - 1) as nat)
    } by {
        assert(i == 0 || i == 1);
    }
}

proof fn lemma_call_tree_is_sorted(arguments: JsonTree)
    requires
        sorted_tree(arguments),
    ensures
        sorted_tree(call_tree(arguments)),
{
    reveal_strlit("arguments");
    reveal_strlit("name");
    let fields = call_tree(arguments)->Object_0;
    assert(key_less("arguments"@, "name"@));
    assert(sorted_keys(fields));
    assert forall|i: int| 0 <= i < fields.len() implies sorted_tree(#[trigger] fields[i].1) by {
        assert(i == 0 || i == 1);
    }
}

/// The name and the arguments of a function, or what is wrong.
pub type NamedCall = Result<(Seq<char>, JsonTree), Seq<char>>;

/// The call whose name and arguments stand in `fields`.
pub open spec fn named_call(fields: Fields, complaint: Seq<char>) -> NamedCall {
    match field(fields, "name"@) {
        Some(JsonTree::Text(name)) => Ok(
            (
                name,
                match field(fields, "arguments"@) {
                    Some(arguments) => arguments,
                    None => JsonTree::Object(Seq::empty()),
                },
            ),
        ),
        _ => Err(complaint),
    }
}

/// The call that an object stands for: the only one of its tool calls, its
/// function, or itself.
pub open spec fn object_call(fields: Fields) -> NamedCall
    decreases fields,
    via object_call_ends
{
    match field(fields, "tool_calls"@) {
        Some(JsonTree::Array(calls)) => if calls.len() != 1 {
            Err("tool_calls must contain exactly one item"@)
        } else {
            match calls[0] {
                JsonTree::Object(call) => object_call(call),
                _ => Err("tool_calls[0] must be an object"@),
            }
        },
        Some(_) => Err("tool_calls must be an array"@),
        None => match field(fields, "function"@) {
            Some(JsonTree::Object(function)) => named_call(
                function,
                "function.name must be a non-empty string"@,
            ),
            Some(_) => Err("function must be an object"@),
            None => named_call(fields, "name must be a non-empty string"@),
        },
    }
}

#[via_fn]
proof fn object_call_ends(fields: Fields) {
    lemma_field_is_smaller(fields, "tool_calls"@);
    if let Some(JsonTree::Array(calls)) = field(fields, "tool_calls"@) {
        if calls.len() == 1 {
            assert(decreases_to!(calls => calls[0]));
        }
    }
}

proof fn lemma_field_is_smaller(fields: Fields, key: Seq<char>)
    ensures
        field(fields, key) matches Some(value) ==> decreases_to!(fields => value),
        field(fields, key) matches Some(value) ==> exists|i: int|
            0 <= i < fields.len() && #[trigger] fields[i].1 == value,
    decreases fields.len(),
{
    if fields.len() > 0 {
        assert(decreases_to!(fields => fields[0]));
        if fields[0].0 != key {
            let rest = fields.drop_first();
            lemma_field_is_smaller(rest, key);
            if let Some(value) = field(rest, key) {
                let i = choose|i: int| 0 <= i < rest.len() && #[trigger] rest[i].1 == value;
                assert(rest[i] == fields[i + 1]);
                assert(decreases_to!(fields => fields[i + 1]));
                assert(fields[i + 1].1 == value);
            }
        } else {
            assert(fields[0].1 == fields[0].1);
        }
    }
}

/// `r` is `expected`, as values.
pub open spec fn is_named_call(r: Result<(String, JsonValue), String>, expected: NamedCall) -> bool {
    match expected {
        Ok((name, arguments)) => r matches Ok((given, value)) && given@ == name && value@
            == arguments,
        Err(text) => r matches Err(message) && message@ == text,
    }
}

/// Every object in the fields is sorted.
proof fn lemma_field_is_sorted(fields: Seq<(String, JsonValue)>, value: JsonValue)
    requires
        sorted_fields(fields),
        exists|i: int| 0 <= i < fields.len() && #[trigger] fields[i].1 == value,
    ensures
        sorted_tree(value@),
{
}

fn parse_named_call(fields: &Vec<(String, JsonValue)>, complaint: &str) -> (r: Result<
    (String, JsonValue),
    String,
>)
    requires
        sorted_fields(fields@),
    ensures
        is_named_call(r, named_call(fields_view(fields@), complaint@)),
        r matches Ok((_, arguments)) ==> sorted_tree(arguments@),
{
    let name = match find_field(fields, "name") {
        Some(JsonValue::Text(name)) => name.clone(),
        _ => {
            return Err(complaint.to_owned());
        },
    };
    let arguments = match find_field(fields, "arguments") {
        Some(arguments) => {
            proof {
                lemma_field_is_sorted(fields@, *arguments);
            }
            copy_json(arguments)
        },
        None => {
            let empty = JsonValue::Object(Vec::new());
            proof {
                lemma_json_view(empty);
                assert(empty@->Object_0 =~= Seq::empty());
            }
            empty
        },
    };
    Ok((name, arguments))
}

/// Reads the call that an object stands for.
pub fn parse_tool_call_map(map: &Vec<(String, JsonValue)>) -> (r: Result<
    (String, JsonValue),
    String,
>)
    requires
        sorted_fields(map@),
    ensures
        is_named_call(r, object_call(fields_view(map@))),
        r matches Ok((_, arguments)) ==> sorted_tree(arguments@),
    decreases fields_view(map@),
{
    if let Some(tool_calls) = find_field(map, "tool_calls") {
        proof {
            lemma_json_view(*tool_calls);
            lemma_field_is_sorted(map@, *tool_calls);
            lemma_field_is_smaller(fields_view(map@), "tool_calls"@);
        }
        let calls = match tool_calls {
            JsonValue::Array(calls) => calls,
            _ => {
                return Err("tool_calls must be an array".to_owned());
            },
        };
        if calls.len() != 1 {
            return Err("tool_calls must contain exactly one item".to_owned());
        }
        proof {
            lemma_sorted_item(items_view(calls@), 0);
            lemma_json_view(calls@[0]);
            assert(items_view(calls@)[0] == calls@[0]@);
            assert(decreases_to!(items_view(calls@) => items_view(calls@)[0]));
        }
        return match &calls[0] {
            JsonValue::Object(first_call) => {
                proof {
                    lemma_object_is_sorted(*first_call);
                }
                parse_tool_call_map(first_call)
            },
            _ => Err("tool_calls[0] must be an object".to_owned()),
        };
    }
    if let Some(function) = find_field(map, "function") {
        proof {
            lemma_json_view(*function);
            lemma_field_is_sorted(map@, *function);
        }
        return match function {
            JsonValue::Object(function_map) => {
                proof {
                    lemma_object_is_sorted(*function_map);
                }
                parse_named_call(function_map, "function.name must be a non-empty string")
            },
            _ => Err("function must be an object".to_owned()),
        };
    }
    parse_named_call(map, "name must be a non-empty string")
}

/// The fields of a sorted object are sorted.
proof fn lemma_object_is_sorted(fields: Vec<(String, JsonValue)>)
    requires
        sorted_tree(JsonValue::Object(fields)@),
    ensures
        sorted_fields(fields@),
{
    lemma_json_view(JsonValue::Object(fields));
    let view = fields_view(fields@);
    assert forall|i: int| 0 <= i < fields@.len() implies sorted_tree(
        #[trigger] fields@[i].1@,
    ) by {
        assert(view[i].1 == fields@[i].1@);
    }
}

/// The call that a JSON text stands for.
pub open spec fn payload_call(payload: Seq<char>) -> Result<Seq<char>, Seq<char>> {
    match json_parsed(payload) {
        Err(text) => Err("Tool call payload is not valid JSON: "@ + text),
        Ok(JsonTree::Object(fields)) => match object_call(fields) {
            Err(text) => Err(text),
            Ok((name, arguments)) => call_from_parts(name, json_text(arguments)),
        },
        Ok(tree) => Err("Tool call payload must be a JSON object, got "@ + json_text(tree)),
    }
}

/// Arguments that are read as they were written and cleared up already: no text
/// in them stands in quotes.
pub open spec fn is_settled(arguments: JsonTree) -> bool {
    exact_tree(arguments, (EXACT_LEVELS - 1) as nat) && quote_free(arguments)
}

/// Writes the call that a JSON text stands for.
pub fn normalize_tool_call_payload(payload: &str) -> (r: Result<String, String>)
    ensures
        says(r, payload_call(payload@)),
        r matches Ok(text) ==> exists|arguments: JsonTree| #[trigger]
            is_written_call(text@, arguments),
        forall|arguments: JsonTree|
            #[trigger] is_written_call(payload@, arguments) && is_settled(arguments) ==> says(
                r,
                Ok(payload@),
            ),
{
    let parsed = match parse_json(payload) {
        Ok(parsed) => parsed,
        Err(text) => {
            let mut message = "Tool call payload is not valid JSON: ".to_owned();
            message.append(text.as_str());
            return Err(message);
        },
    };
    proof {
        lemma_json_view(parsed);
    }
    match &parsed {
        JsonValue::Object(map) => {
            proof {
                lemma_object_is_sorted(*map);
            }
            proof {
                assert forall|arguments: JsonTree|
                    #[trigger] is_written_call(payload@, arguments) && is_settled(
                        arguments,
                    ) implies object_call(fields_view(map@)) == Ok::<
                    (Seq<char>, JsonTree),
                    Seq<char>,
                >((EXPECTED_TOOL_NAME@, arguments)) by {
                    lemma_call_tree_is_a_call(arguments);
                }
            }
            match parse_tool_call_map(map) {
                Err(text) => Err(text),
                Ok((name, arguments)) => {
                    let arguments_json = arguments.write();
                    proof {
                        assert forall|given: JsonTree|
                            #[trigger] is_written_call(payload@, given) && is_settled(
                                given,
                            ) implies payload_call(payload@) == Ok::<Seq<char>, Seq<char>>(
                            payload@,
                        ) by {
                            assert(arguments@ == given);
                            lemma_more_levels(
                                given,
                                (EXACT_LEVELS - 1) as nat,
                                EXACT_LEVELS as nat,
                            );
                            lemma_written_arguments_are_kept(arguments_json@, given);
                        }
                    }
                    normalize_call_from_parts(name.as_str(), arguments_json.as_str())
                },
            }
        },
        _ => {
            let mut message = "Tool call payload must be a JSON object, got ".to_owned();
            message.append(parsed.write().as_str());
            Err(message)
        },
    }
}

/// A call of the tool stands for itself.
proof fn lemma_call_tree_is_a_call(arguments: JsonTree)
    ensures
        object_call(call_tree(arguments)->Object_0) == Ok::<(Seq<char>, JsonTree), Seq<char>>(
            (EXPECTED_TOOL_NAME@, arguments),
        ),
{
    reveal_strlit("arguments");
    reveal_strlit("name");
    reveal_strlit("tool_calls");
    reveal_strlit("function");
    let fields = call_tree(arguments)->Object_0;
    let behind = fields.drop_first();
    assert(behind[0] == fields[1]);
    assert(behind.drop_first().len() == 0);
    assert("arguments"@.len() == 9 && "name"@.len() == 4);
    assert("tool_calls"@.len() == 10 && "function"@.len() == 8);
    assert forall|key: Seq<char>| #[trigger]
        field(fields, key) == (if key == "arguments"@ {
            Some(arguments)
        } else if key == "name"@ {
            Some(JsonTree::Text(EXPECTED_TOOL_NAME@))
        } else {
            None
        }) by {
        reveal_with_fuel(field, 3);
    }
}

/// Settled arguments that are written and read are the same.
proof fn lemma_written_arguments_are_kept(text: Seq<char>, arguments: JsonTree)
    requires
        arguments is Object,
        escape_free(arguments),
        quote_free(arguments),
        text == json_text(arguments),
        is_braced(text),
        spells(text, arguments),
    ensures
        call_from_parts(EXPECTED_TOOL_NAME@, text) == Ok::<Seq<char>, Seq<char>>(
            json_text(call_tree(arguments)),
        ),
{
    lemma_braced_is_trimmed(text);
    law_settled_value_is_clear(arguments);
    assert(trim(EXPECTED_TOOL_NAME@) == EXPECTED_TOOL_NAME@) by {
        reveal_strlit("search_photos_v1");
        lemma_trim_keeps(EXPECTED_TOOL_NAME@);
    }
}

/// A text in braces has no white space around it, and is the first object in
/// itself.
proof fn lemma_braced_is_trimmed(text: Seq<char>)
    requires
        is_braced(text),
    ensures
        trim(text) == text,
        first_json_object(text) == Some(text),
{
    lemma_json_object_end(text, 0, 0, false, false);
    lemma_trim_keeps(text);
    assert(matches_at(text, seq!['{'], 0)) by {
        assert(text.subrange(0, 1) =~= seq!['{']);
    }
    lemma_find_from(text, seq!['{'], 0);
    assert(text.subrange(0, text.len() as int) =~= text);
}

/// The call that a function-call expression stands for.
pub open spec fn expression_call(payload: Seq<char>) -> Result<Seq<char>, Seq<char>> {
    match call_in(payload) {
        Err(text) => Err(text),
        Ok(None) => Err("Missing function call inside <start_function_call> block"@),
        Ok(Some((name, arguments))) => call_from_parts(name, arguments),
    }
}

/// Writes the call that a function-call expression stands for.
pub fn normalize_function_call_expression(payload: &str) -> (r: Result<String, String>)
    ensures
        says(r, expression_call(payload@)),
        r matches Ok(text) ==> exists|arguments: JsonTree| #[trigger]
            is_written_call(text@, arguments),
{
    match extract_function_call_arguments(payload) {
        Err(text) => Err(text),
        Ok(None) => Err("Missing function call inside <start_function_call> block".to_owned()),
        Ok(Some((name, arguments))) => normalize_call_from_parts(
            name.as_str(),
            arguments.as_str(),
        ),
    }
}

/// The call that an output of FunctionGemma stands for: its tagged call, else
/// its function-call block, else a call expression, else its first JSON object.
pub open spec fn output_call(raw_output: Seq<char>) -> Result<Seq<char>, Seq<char>> {
    let text = trim(raw_output);
    if text.len() == 0 {
        Err("FunctionGemma output is empty"@)
    } else {
        match tagged_call_in(text) {
            Err(error) => Err(error),
            Ok(Some(payload)) => payload_call(payload),
            Ok(None) => match call_block(text) {
                Some(payload) => expression_call(payload),
                None => match call_in(text) {
                    Err(error) => Err(error),
                    Ok(Some((name, arguments))) => call_from_parts(name, arguments),
                    Ok(None) => match first_json_object(text) {
                        Some(object) => payload_call(object),
                        None => Err(
                            "Could not normalize FunctionGemma output to a tool call: "@ + text,
                        ),
                    },
                },
            },
        }
    }
}

/// Writes the call that an output of FunctionGemma stands for.
///
/// What was written so is left as it is, unless it holds the word `call`, a
/// number that is no integer or a text in quotes, or nests too deep.
pub fn normalize_tool_call_output(raw_output: &str) -> (r: Result<String, String>)
    ensures
        says(r, output_call(raw_output@)),
        r matches Ok(text) ==> exists|arguments: JsonTree| #[trigger]
            is_written_call(text@, arguments),
        forall|arguments: JsonTree|
            #[trigger] is_written_call(raw_output@, arguments) && is_settled(arguments)
                && !holds_call(raw_output@) ==> says(r, Ok(raw_output@)),
{
    let text = trim_text(raw_output);
    proof {
        if is_braced(raw_output@) {
            lemma_braced_is_trimmed(raw_output@);
        }
        if call_block(text@) is Some {
            lemma_call_block_holds_call(text@);
        }
    }
    if to_chars(text.as_str()).len() == 0 {
        return Err("FunctionGemma output is empty".to_owned());
    }
    match extract_tagged_tool_call_payload(text.as_str()) {
        Err(error) => {
            return Err(error);
        },
        Ok(Some(payload)) => {
            return normalize_tool_call_payload(payload.as_str());
        },
        Ok(None) => {},
    }
    if let Some(payload) = extract_function_call_block(text.as_str()) {
        return normalize_function_call_expression(payload.as_str());
    }
    match extract_function_call_arguments(text.as_str()) {
        Err(error) => {
            return Err(error);
        },
        Ok(Some((name, arguments))) => {
            return normalize_call_from_parts(name.as_str(), arguments.as_str());
        },
        Ok(None) => {},
    }
    if let Some(object) = extract_first_json_object(text.as_str()) {
        return normalize_tool_call_payload(object.as_str());
    }
    let mut message = "Could not normalize FunctionGemma output to a tool call: ".to_owned();
    message.append(text.as_str());
    Err(message)
}

proof fn lemma_call_block_holds_call(input: Seq<char>)
    requires
        call_block(input) is Some,
    ensures
        holds_call(input),
{
    reveal_strlit("<start_function_call>");
    reveal_strlit("call");
    let token = START_FUNCTION_CALL_TOKEN@;
    lemma_find_from(input, token, 0);
    let at = find(input, token).unwrap();
    let from = at + 16;
    let word = input.subrange(from, from + 4);
    assert(word =~= input.subrange(at, at + token.len()).subrange(16, 20));
    assert(word =~= "call"@);
}

// ---------------------------------------------------------------------------
// Laws
// ---------------------------------------------------------------------------

/// `text` is a call of the tool: an object with its name and with arguments,
/// which are an object in which no text holds `<escape>`.
pub open spec fn is_tool_call(text: Seq<char>) -> bool {
    exists|arguments: JsonTree|
        arguments is Object && escape_free(arguments) && text == #[trigger] json_text(
            call_tree(arguments),
        )
}

/// Whatever FunctionGemma writes, what is made of it is a call of the one tool
/// or an error.
pub proof fn law_output_is_the_expected_call(raw_output: Seq<char>)
    ensures
        output_call(raw_output) matches Ok(text) ==> is_tool_call(text),
{
    let text = trim(raw_output);
    if let Ok(Some(payload)) = tagged_call_in(text) {
        lemma_payload_call(payload);
    }
    if let Some(payload) = call_block(text) {
        if let Ok(Some((name, arguments))) = call_in(payload) {
            lemma_call_from_parts(name, arguments);
        }
    }
    if let Ok(Some((name, arguments))) = call_in(text) {
        lemma_call_from_parts(name, arguments);
    }
    if let Some(object) = first_json_object(text) {
        lemma_payload_call(object);
    }
}

proof fn lemma_payload_call(payload: Seq<char>)
    ensures
        payload_call(payload) matches Ok(text) ==> is_tool_call(text),
{
    if let Ok(JsonTree::Object(fields)) = json_parsed(payload) {
        if let Ok((name, arguments)) = object_call(fields) {
            lemma_call_from_parts(name, json_text(arguments));
        }
    }
}

proof fn lemma_call_from_parts(name: Seq<char>, arguments: Seq<char>)
    ensures
        call_from_parts(name, arguments) matches Ok(text) ==> is_tool_call(text),
{
    if let Ok(tree) = arguments_in(arguments) {
        law_cleared_value_holds_no_escape(tree);
        assert(cleared_tree(tree) is Object);
    }
}

/// A call of any other tool is refused, whatever its arguments.
pub proof fn law_other_tools_are_refused(name: Seq<char>, arguments: Seq<char>)
    requires
        trim(name) != EXPECTED_TOOL_NAME@,
    ensures
        call_from_parts(name, arguments) == Err::<Seq<char>, Seq<char>>(unexpected_tool_text(name)),
{
}

/// An object that is found in a text is a part of the text from an opening to a
/// closing brace.
pub proof fn law_found_object_is_in_braces(input: Seq<char>)
    ensures
        first_json_object(input) matches Some(object) ==> is_braced_part(object, trim(input)),
        first_gemma_object(input) matches Some(object) ==> is_braced_part(object, trim(input)),
{
    let text = trim(input);
    lemma_find_from(text, seq!['{'], 0);
    if let Some(start) = find(text, seq!['{']) {
        assert(text.subrange(start, start + 1)[0] == '{');
        lemma_json_object_end(text, start, 0, false, false);
        lemma_gemma_object_end(text, start, 0, false, false, false);
        if let Some(end) = json_object_end(text, start, 0, false, false) {
            assert(matches_at(text, text.subrange(start, end), start));
        }
        if let Some(end) = gemma_object_end(text, start, 0, false, false, false) {
            assert(matches_at(text, text.subrange(start, end), start));
        }
    }
}

/// `part` stands in `text`, between braces.
pub open spec fn is_braced_part(part: Seq<char>, text: Seq<char>) -> bool {
    part.len() > 0 && part[0] == '{' && part.last() == '}' && contains(text, part)
}

proof fn lemma_json_object_end(s: Seq<char>, p: int, depth: int, in_string: bool, escaped: bool)
    requires
        0 <= p,
    ensures
        json_object_end(s, p, depth, in_string, escaped) matches Some(end) ==> p < end <= s.len()
            && s[end - 1] == '}',
    decreases s.len() - p,
{
    if p < s.len() {
        if escaped {
            lemma_json_object_end(s, p + 1, depth, in_string, false);
        } else if s[p] == '\\' {
            lemma_json_object_end(s, p + 1, depth, in_string, true);
        } else if s[p] == '"' {
            lemma_json_object_end(s, p + 1, depth, !in_string, false);
        } else if in_string {
            lemma_json_object_end(s, p + 1, depth, true, false);
        } else if s[p] == '{' {
            lemma_json_object_end(s, p + 1, depth + 1, false, false);
        } else if s[p] == '}' {
            lemma_json_object_end(s, p + 1, depth - 1, false, false);
        } else {
            lemma_json_object_end(s, p + 1, depth, false, false);
        }
    }
}

proof fn lemma_gemma_object_end(
    s: Seq<char>,
    p: int,
    depth: int,
    in_escape: bool,
    in_string: bool,
    escaped: bool,
)
    requires
        0 <= p,
    ensures
        gemma_object_end(s, p, depth, in_escape, in_string, escaped) matches Some(end) ==> p < end
            <= s.len() && s[end - 1] == '}',
    decreases s.len() - p,
{
    if p < s.len() {
        if matches_at(s, ESCAPE_TOKEN@, p) && ESCAPE_TOKEN@.len() > 0 {
            let next = p + ESCAPE_TOKEN@.len();
            lemma_gemma_object_end(s, next, depth, !in_escape, in_string, escaped);
        } else if in_string {
            lemma_gemma_object_end(s, p + 1, depth, in_escape, true, false);
            lemma_gemma_object_end(s, p + 1, depth, in_escape, true, true);
            lemma_gemma_object_end(s, p + 1, depth, in_escape, false, false);
        } else if in_escape {
            lemma_gemma_object_end(s, p + 1, depth, true, false, escaped);
        } else {
            lemma_gemma_object_end(s, p + 1, depth, false, true, escaped);
            lemma_gemma_object_end(s, p + 1, depth + 1, false, false, escaped);
            lemma_gemma_object_end(s, p + 1, depth - 1, false, false, escaped);
            lemma_gemma_object_end(s, p + 1, depth, false, false, escaped);
        }
    }
}

/// An object that stands in a text ends in it where it ends on its own.
proof fn lemma_object_end_in_text(
    s: Seq<char>,
    from: int,
    t: Seq<char>,
    p: int,
    depth: int,
    in_string: bool,
    escaped: bool,
)
    requires
        0 <= from,
        0 <= p,
        from + t.len() <= s.len(),
        s.subrange(from, from + t.len()) == t,
    ensures
        json_object_end(t, p, depth, in_string, escaped) matches Some(end) ==> json_object_end(
            s,
            from + p,
            depth,
            in_string,
            escaped,
        ) == Some(from + end),
    decreases t.len() - p,
{
    if p < t.len() {
        assert(s[from + p] == s.subrange(from, from + t.len())[p]);
        let next = p + 1;
        if escaped {
            lemma_object_end_in_text(s, from, t, next, depth, in_string, false);
        } else if t[p] == '\\' {
            lemma_object_end_in_text(s, from, t, next, depth, in_string, true);
        } else if t[p] == '"' {
            lemma_object_end_in_text(s, from, t, next, depth, !in_string, false);
        } else if in_string {
            lemma_object_end_in_text(s, from, t, next, depth, true, false);
        } else if t[p] == '{' {
            lemma_object_end_in_text(s, from, t, next, depth + 1, false, false);
        } else if t[p] == '}' {
            lemma_object_end_in_text(s, from, t, next, depth - 1, false, false);
        } else {
            lemma_object_end_in_text(s, from, t, next, depth, false, false);
        }
    }
}

/// An object in braces is found in a text whatever stands in front of it, but
/// for an opening brace, and whatever stands behind it.
pub proof fn law_object_is_found_in_a_text(
    before: Seq<char>,
    object: Seq<char>,
    behind: Seq<char>,
)
    requires
        !before.contains('{'),
        is_braced(object),
    ensures
        first_json_object(before + object + behind) == Some(object),
{
    let input = before + object + behind;
    let text = trim(input);
    law_trim_takes_outer_space(input);
    let (left, right) = choose|left: Seq<char>, right: Seq<char>|
        is_blank(left) && is_blank(right) && input == #[trigger] (left + text + right);
    lemma_json_object_end(object, 0, 0, false, false);
    let at = before.len() as int;
    let last = at + object.len() - 1;
    assert(input[at] == object[0]);
    assert(input[last] == object[object.len() - 1]);
    assert(left.len() <= at) by {
        if at < left.len() {
            assert(left[at] == input[at]);
        }
    }
    assert(last < left.len() + text.len()) by {
        if last >= left.len() + text.len() {
            assert(right[last - left.len() - text.len()] == input[last]);
        }
    }
    let from = at - left.len();
    assert forall|j: int| 0 <= j < object.len() implies text[from + j] == object[j] by {
        assert(text[from + j] == input[at + j]);
        assert(input[at + j] == object[j]);
    }
    assert(text.subrange(from, from + object.len()) =~= object);
    let brace = seq!['{'];
    lemma_find_from(text, brace, 0);
    assert(matches_at(text, brace, from)) by {
        assert(text.subrange(from, from + 1) =~= brace);
    }
    assert(find(text, brace) == Some(from)) by {
        let found = find(text, brace).unwrap();
        assert(found <= from);
        if found < from {
            assert(text.subrange(found, found + 1)[0] == text[found]);
            assert(text[found] == input[left.len() + found]);
            assert(input[left.len() + found] == before[left.len() + found]);
            assert(before.contains(before[left.len() + found]));
        }
    }
    lemma_object_end_in_text(text, from, object, 0, 0, false, false);
}

/// How many braces are open behind a stretch of text, counted from none, where
/// every brace counts.
pub open spec fn open_braces(s: Seq<char>, from: int, to: int) -> int
    decreases to - from,
{
    if to <= from {
        0
    } else {
        open_braces(s, from, to - 1) + if s[to - 1] == '{' {
            1int
        } else if s[to - 1] == '}' {
            -1int
        } else {
            0int
        }
    }
}

/// In a text without quotes and backslashes an object ends with the brace that
/// closes the first one: there as many were closed as opened, and nowhere before.
pub proof fn law_object_ends_where_its_braces_balance(s: Seq<char>, p: int, end: int)
    requires
        0 <= p < s.len(),
        s[p] == '{',
        forall|i: int| p <= i < s.len() ==> #[trigger] s[i] != '"' && s[i] != '\\',
        json_object_end(s, p, 0, false, false) == Some(end),
    ensures
        p + 2 <= end <= s.len(),
        s[end - 1] == '}',
        open_braces(s, p, end) == 0,
        forall|q: int| p < q < end ==> #[trigger] open_braces(s, p, q) > 0,
{
    assert(open_braces(s, p, p) == 0);
    assert(open_braces(s, p, p + 1) == 1);
    lemma_braces_balance(s, p, p + 1, 1, end);
}

proof fn lemma_braces_balance(s: Seq<char>, p: int, q: int, depth: int, end: int)
    requires
        0 <= p < q,
        depth == open_braces(s, p, q),
        depth > 0,
        forall|i: int| p <= i < s.len() ==> #[trigger] s[i] != '"' && s[i] != '\\',
        forall|r: int| p < r < q ==> #[trigger] open_braces(s, p, r) > 0,
        json_object_end(s, q, depth, false, false) == Some(end),
    ensures
        q < end <= s.len(),
        s[end - 1] == '}',
        open_braces(s, p, end) == 0,
        forall|r: int| p < r < end ==> #[trigger] open_braces(s, p, r) > 0,
    decreases s.len() - q,
{
    if q < s.len() {
        let c = s[q];
        assert(c != '"' && c != '\\');
        if c == '{' {
            assert(open_braces(s, p, q + 1) == depth + 1);
            lemma_braces_balance(s, p, q + 1, depth + 1, end);
        } else if c == '}' {
            assert(open_braces(s, p, q + 1) == depth - 1);
            if depth > 1 {
                lemma_braces_balance(s, p, q + 1, depth - 1, end);
            }
        } else {
            assert(open_braces(s, p, q + 1) == depth);
            lemma_braces_balance(s, p, q + 1, depth, end);
        }
    }
}

/// What stands in a JSON string does not count toward the braces of an object: a
/// string without a quote or a backslash in it is passed over whole, and a
/// backslash takes the character behind it with it.
pub proof fn law_strings_hide_braces(s: Seq<char>, p: int, end: int, depth: int, in_string: bool)
    requires
        0 <= p,
    ensures
        p < end < s.len() && s[p] == '"' && s[end] == '"' && (forall|i: int|
            p < i < end ==> #[trigger] s[i] != '"' && s[i] != '\\') ==> json_object_end(
            s,
            p,
            depth,
            false,
            false,
        ) == json_object_end(s, end + 1, depth, false, false),
        p + 1 < s.len() && s[p] == '\\' ==> json_object_end(s, p, depth, in_string, false)
            == json_object_end(s, p + 2, depth, in_string, false),
{
    if p < end < s.len() && s[p] == '"' && s[end] == '"' && (forall|i: int|
        p < i < end ==> #[trigger] s[i] != '"' && s[i] != '\\') {
        lemma_string_is_passed(s, p + 1, end, depth);
    }
    if p + 1 < s.len() && s[p] == '\\' {
        assert(json_object_end(s, p, depth, in_string, false) == json_object_end(
            s,
            p + 1,
            depth,
            in_string,
            true,
        ));
    }
}

proof fn lemma_string_is_passed(s: Seq<char>, p: int, end: int, depth: int)
    requires
        0 <= p <= end < s.len(),
        s[end] == '"',
        forall|i: int| p <= i < end ==> #[trigger] s[i] != '"' && s[i] != '\\',
    ensures
        json_object_end(s, p, depth, true, false) == json_object_end(
            s,
            end + 1,
            depth,
            false,
            false,
        ),
    decreases end - p,
{
    if p < end {
        assert(s[p] != '"' && s[p] != '\\');
        lemma_string_is_passed(s, p + 1, end, depth);
    }
}

/// What stands between `<escape>` and the next `<escape>` does not count toward
/// the braces of an object in the notation of FunctionGemma.
pub proof fn law_escapes_hide_braces(s: Seq<char>, p: int, end: int, depth: int)
    requires
        0 <= p,
        p + 8 <= end,
        matches_at(s, ESCAPE_TOKEN@, p),
        matches_at(s, ESCAPE_TOKEN@, end),
        forall|j: int| p + 8 <= j < end ==> !#[trigger] matches_at(s, ESCAPE_TOKEN@, j),
    ensures
        gemma_object_end(s, p, depth, false, false, false) == gemma_object_end(
            s,
            end + 8,
            depth,
            false,
            false,
            false,
        ),
{
    reveal_strlit("<escape>");
    lemma_escape_is_passed(s, p + 8, end, depth);
    assert(ESCAPE_TOKEN@.len() == 8);
    assert(gemma_object_end(s, p, depth, false, false, false) == gemma_object_end(
        s,
        p + 8,
        depth,
        true,
        false,
        false,
    ));
}

proof fn lemma_escape_is_passed(s: Seq<char>, p: int, end: int, depth: int)
    requires
        0 <= p <= end,
        matches_at(s, ESCAPE_TOKEN@, end),
        forall|j: int| p <= j < end ==> !#[trigger] matches_at(s, ESCAPE_TOKEN@, j),
    ensures
        gemma_object_end(s, p, depth, true, false, false) == gemma_object_end(
            s,
            end + 8,
            depth,
            false,
            false,
            false,
        ),
    decreases end - p,
{
    reveal_strlit("<escape>");
    assert(ESCAPE_TOKEN@.len() == 8);
    if p < end {
        assert(!matches_at(s, ESCAPE_TOKEN@, p));
        lemma_escape_is_passed(s, p + 1, end, depth);
    }
}

/// An object without quotes, backslashes and `<escape>` ends in the notation of
/// FunctionGemma where it ends in JSON.
pub proof fn law_plain_objects_end_alike(s: Seq<char>, p: int, depth: int)
    requires
        0 <= p,
        forall|i: int|
            p <= i < s.len() ==> #[trigger] s[i] != '"' && s[i] != '\\' && s[i] != '<',
    ensures
        gemma_object_end(s, p, depth, false, false, false) == json_object_end(
            s,
            p,
            depth,
            false,
            false,
        ),
    decreases s.len() - p,
{
    reveal_strlit("<escape>");
    if p < s.len() {
        assert(s[p] != '"' && s[p] != '\\' && s[p] != '<');
        if matches_at(s, ESCAPE_TOKEN@, p) {
            assert(s.subrange(p, p + 8)[0] == s[p]);
        }
        law_plain_objects_end_alike(s, p + 1, depth);
        law_plain_objects_end_alike(s, p + 1, depth + 1);
        law_plain_objects_end_alike(s, p + 1, depth - 1);
    }
}

/// A function call stands in a text where its opening token does. It is what
/// follows the first of these up to the closing token, or up to the end of the
/// text where there is none, without outer space.
pub proof fn law_call_block_stands_between_its_tokens(
    input: Seq<char>,
    at: int,
    end: Option<int>,
)
    requires
        matches_at(input, "<start_function_call>"@, at),
        forall|j: int|
            0 <= j < at ==> !#[trigger] matches_at(input, START_FUNCTION_CALL_TOKEN@, j),
        match end {
            Some(end) => matches_at(
                trim_start(input.skip(at + 21)),
                "<end_function_call>"@,
                end,
            ) && forall|j: int|
                0 <= j < end ==> !#[trigger] matches_at(
                    trim_start(input.skip(at + 21)),
                    END_FUNCTION_CALL_TOKEN@,
                    j,
                ),
            None => !contains(trim_start(input.skip(at + 21)), "<end_function_call>"@),
        },
    ensures
        ({
            let rest = trim_start(input.skip(at + 21));
            call_block(input) == Some(
                match end {
                    Some(end) => trim(rest.take(end)),
                    None => trim(rest),
                },
            )
        }),
{
    reveal_strlit("<start_function_call>");
    let rest = trim_start(input.skip(at + 21));
    lemma_find_from(input, START_FUNCTION_CALL_TOKEN@, 0);
    assert(find(input, START_FUNCTION_CALL_TOKEN@) == Some(at));
    assert(input.subrange(at + 21, input.len() as int) =~= input.skip(at + 21));
    lemma_find_from(rest, END_FUNCTION_CALL_TOKEN@, 0);
    lemma_find_contains(rest, END_FUNCTION_CALL_TOKEN@);
    if let Some(end) = end {
        assert(find(rest, END_FUNCTION_CALL_TOKEN@) == Some(end));
        assert(rest.subrange(0, end) =~= rest.take(end));
    }
}

/// Without its opening token there is no function call in a text.
pub proof fn law_no_call_block_without_its_token(input: Seq<char>)
    ensures
        call_block(input) is Some <==> contains(input, "<start_function_call>"@),
{
    lemma_find_contains(input, START_FUNCTION_CALL_TOKEN@);
}

/// A call goes by the name that was matched, without outer space. Behind it stand
/// its arguments: none, a JSON object behind a parenthesis, or an object in the
/// notation of FunctionGemma. Anything else is refused.
pub proof fn law_matched_call_has_its_arguments(group: Seq<char>, rest: Seq<char>)
    ensures
        is_blank(rest) ==> matched_call(Some((group, rest))) == Ok::<
            Option<(Seq<char>, Seq<char>)>,
            Seq<char>,
        >(Some((trim(group), "{}"@))),
        matched_call(Some((group, rest))) matches Ok(found) ==> found matches Some((name, arguments))
            && name == trim(group),
        !is_blank(rest) && trim_start(rest)[0] == '(' ==> match first_json_object(
            trim_start(rest).skip(1),
        ) {
            Some(object) => matched_call(Some((group, rest))) == Ok::<
                Option<(Seq<char>, Seq<char>)>,
                Seq<char>,
            >(Some((trim(group), object))),
            None => matched_call(Some((group, rest))) is Err,
        },
        !is_blank(rest) && trim_start(rest)[0] == '{' ==> match first_gemma_object(
            trim_start(rest),
        ) {
            Some(object) => matched_call(Some((group, rest))) == Ok::<
                Option<(Seq<char>, Seq<char>)>,
                Seq<char>,
            >(Some((trim(group), object))),
            None => matched_call(Some((group, rest))) is Err,
        },
        !is_blank(rest) && trim_start(rest)[0] != '(' && trim_start(rest)[0] != '{'
            ==> matched_call(Some((group, rest))) is Err,
        matched_call(None) == Ok::<Option<(Seq<char>, Seq<char>)>, Seq<char>>(None),
{
    let behind = trim_start(rest);
    lemma_blank_start(rest);
    assert(behind.len() > 0 ==> behind.drop_first() =~= behind.skip(1));
}

proof fn lemma_blank_start(s: Seq<char>)
    ensures
        trim_start(s).len() == 0 <==> is_blank(s),
    decreases s.len(),
{
    if s.len() > 0 && is_white_space(s[0]) {
        let rest = s.drop_first();
        lemma_blank_start(rest);
        if is_blank(s) {
            assert forall|i: int| 0 <= i < rest.len() implies is_white_space(
                #[trigger] rest[i],
            ) by {
                assert(rest[i] == s[i + 1]);
            }
        }
        if is_blank(rest) {
            assert forall|i: int| 0 <= i < s.len() implies is_white_space(#[trigger] s[i]) by {
                if i > 0 {
                    assert(s[i] == rest[i - 1]);
                }
            }
        }
    } else if s.len() > 0 {
        assert(!is_white_space(s[0]));
    }
}

/// Arguments that are a JSON object are that object, and none are the empty one.
/// Where they are no JSON object even with quotes for `<escape>`, the notation of
/// FunctionGemma counts.
pub proof fn law_arguments_are_read_as_they_are_written(text: Seq<char>, fields: Fields)
    ensures
        is_blank(text) ==> arguments_in(text) == Ok::<JsonTree, Seq<char>>(
            JsonTree::Object(Seq::empty()),
        ),
        !is_blank(text) && json_parsed(text) == Ok::<JsonTree, Seq<char>>(JsonTree::Object(fields))
            ==> arguments_in(text) == Ok::<JsonTree, Seq<char>>(JsonTree::Object(fields)),
        !is_blank(text) && !contains(text, ESCAPE_TOKEN@) && !(json_parsed(text) matches Ok(
            JsonTree::Object(_),
        )) && spelled_value(text) == Ok::<JsonTree, Seq<char>>(JsonTree::Object(fields))
            ==> arguments_in(text) == Ok::<JsonTree, Seq<char>>(JsonTree::Object(fields)),
        arguments_in(text) matches Ok(tree) ==> tree is Object,
{
    law_trim_takes_outer_space(text);
    reveal_strlit("<escape>");
    if !contains(text, ESCAPE_TOKEN@) {
        law_replacing_goes_from_left(text, ESCAPE_TOKEN@, "\\\""@, 0);
        law_replacing_goes_from_left(text, ESCAPE_TOKEN@, "\""@, 0);
    }
}

/// A call of the one tool keeps its arguments: every field of the object that
/// they spell stands in the call, cleared up, under its own key, and no other.
pub proof fn law_arguments_reach_the_call(name: Seq<char>, arguments: Seq<char>)
    requires
        trim(name) == "search_photos_v1"@,
    ensures
        call_from_parts(name, arguments) is Ok <==> arguments_in(arguments) is Ok,
        arguments_in(arguments) matches Ok(JsonTree::Object(fields)) ==> call_from_parts(
            name,
            arguments,
        ) == Ok::<Seq<char>, Seq<char>>(
            json_text(
                JsonTree::Object(
                    seq![
                        ("arguments"@, cleared_tree(JsonTree::Object(fields))),
                        ("name"@, JsonTree::Text("search_photos_v1"@)),
                    ],
                ),
            ),
        ),
{
}

/// A call in JSON is the same whether it stands for itself, as the only one of
/// several tool calls, or as a function.
pub proof fn law_wrapped_calls_are_the_call(
    call: Fields,
    wrapper: Fields,
    function_wrapper: Fields,
)
    requires
        field(wrapper, "tool_calls"@) == Some(JsonTree::Array(seq![JsonTree::Object(call)])),
        field(function_wrapper, "tool_calls"@) is None,
        field(function_wrapper, "function"@) == Some(JsonTree::Object(call)),
        field(call, "tool_calls"@) is None,
        field(call, "function"@) is None,
    ensures
        object_call(wrapper) == object_call(call),
        object_call(call) is Ok <==> field(call, "name"@) matches Some(JsonTree::Text(_)),
        object_call(function_wrapper) is Ok <==> object_call(call) is Ok,
        object_call(call) matches Ok((name, arguments)) ==> {
            &&& object_call(function_wrapper) == object_call(call)
            &&& field(call, "name"@) == Some(JsonTree::Text(name))
            &&& field(call, "arguments"@) matches Some(given) ==> arguments == given
            &&& field(call, "arguments"@) is None ==> arguments == JsonTree::Object(Seq::empty())
        },
{
    let calls = seq![JsonTree::Object(call)];
    assert(calls.len() == 1 && calls[0] == JsonTree::Object(call));
}

/// Several tool calls, or none in the list of them, are refused.
pub proof fn law_one_tool_call_is_made(wrapper: Fields, calls: Seq<JsonTree>)
    requires
        field(wrapper, "tool_calls"@) == Some(JsonTree::Array(calls)),
        calls.len() != 1,
    ensures
        object_call(wrapper) is Err,
{
}

/// Space around an output of the model changes nothing, and an output of nothing
/// but space is refused.
pub proof fn law_space_around_an_output_is_free(
    before: Seq<char>,
    output: Seq<char>,
    behind: Seq<char>,
)
    requires
        is_blank(before),
        is_blank(behind),
    ensures
        output_call(before + output + behind) == output_call(output),
        is_blank(output) ==> output_call(output) is Err,
{
    law_outer_space_changes_nothing(before, output, behind);
    law_trim_takes_outer_space(output);
}

/// What counts of an output is its tagged call; without one the call between
/// tokens; without that a call in the text; and without any of them the first
/// JSON object. Two tagged calls are refused.
pub proof fn law_output_is_read_in_order(output: Seq<char>, payload: Seq<char>)
    requires
        !is_blank(output),
    ensures
        ({
            let text = trim(output);
            let tagged = all_matches(
                "(?is)<tool_call>\\s*([\\s\\S]*?)\\s*</tool_call>"@,
                text,
            );
            let call = first_match(
                "(?is)call\\s*:?\\s*([a-zA-Z_][a-zA-Z0-9_]*)"@,
                text,
            );
            &&& tagged.len() > 1 ==> output_call(output) is Err
            &&& tagged.len() == 1 ==> output_call(output) == payload_call(trim(tagged[0]))
            &&& tagged.len() == 0 && call_block(text) == Some(payload) ==> output_call(output)
                == expression_call(payload)
            &&& tagged.len() == 0 && call_block(text) is None ==> (matched_call(call) matches Ok(
                Some((name, arguments)),
            ) ==> output_call(output) == call_from_parts(name, arguments))
            &&& tagged.len() == 0 && call_block(text) is None && call is None && first_json_object(
                text,
            ) == Some(payload) ==> output_call(output) == payload_call(payload)
            &&& tagged.len() == 0 && call_block(text) is None && call is None && first_json_object(
                text,
            ) is None ==> output_call(output) is Err
        }),
{
    law_trim_takes_outer_space(output);
}

/// A payload is the call that its JSON object stands for. What is no JSON, or no
/// object, is refused.
pub proof fn law_payload_is_its_object(payload: Seq<char>)
    ensures
        json_parsed(payload) matches Err(why) ==> (payload_call(payload) matches Err(text)
            && ends_with(text, why)),
        json_parsed(payload) matches Ok(JsonTree::Object(fields)) ==> match object_call(fields) {
            Ok((name, arguments)) => payload_call(payload) == call_from_parts(
                name,
                json_text(arguments),
            ),
            Err(text) => payload_call(payload) == Err::<Seq<char>, Seq<char>>(text),
        },
        payload_call(payload) is Ok ==> json_parsed(payload) matches Ok(JsonTree::Object(_)),
{
    if let Err(why) = json_parsed(payload) {
        lemma_ends_with("Tool call payload is not valid JSON: "@, why);
    }
}

/// Arguments that are no JSON object as they are may be one with an escaped quote
/// for every `<escape>`, and if not, with a quote for it.
pub proof fn law_escapes_may_stand_for_quotes(text: Seq<char>, fields: Fields)
    requires
        !is_blank(text),
        !(json_parsed(text) matches Ok(JsonTree::Object(_))),
    ensures
        ({
            let escaped = json_parsed(replace(text, "<escape>"@, seq!['\\', '"']));
            let quoted = json_parsed(replace(text, "<escape>"@, seq!['"']));
            let object = Ok::<JsonTree, Seq<char>>(JsonTree::Object(fields));
            &&& escaped == object ==> arguments_in(text) == object
            &&& !(escaped matches Ok(JsonTree::Object(_))) && quoted == object ==> arguments_in(
                text,
            ) == object
            &&& !(escaped matches Ok(JsonTree::Object(_))) && !(quoted matches Ok(
                JsonTree::Object(_),
            )) && spelled_value(text) == object ==> arguments_in(text) == object
        }),
{
    law_trim_takes_outer_space(text);
    assert("\\\""@ =~= seq!['\\', '"']) by {
        reveal_strlit("\\\"");
    }
    assert("\""@ =~= seq!['"']) by {
        reveal_strlit("\"");
    }
}

/// An expression between tokens is the call that it holds, and is refused where
/// it holds none.
pub proof fn law_expression_is_its_call(payload: Seq<char>)
    ensures
        ({
            let found = first_match(
                "(?is)call\\s*:?\\s*([a-zA-Z_][a-zA-Z0-9_]*)"@,
                payload,
            );
            &&& found is None ==> expression_call(payload) is Err
            &&& matched_call(found) matches Ok(Some((name, arguments))) ==> expression_call(payload)
                == call_from_parts(name, arguments)
            &&& matched_call(found) matches Err(text) ==> expression_call(payload) == Err::<
                Seq<char>,
                Seq<char>,
            >(text)
        }),
{
}

/// What stands in quotes does not count toward the braces of an object in the
/// notation of FunctionGemma either: a text in quotes without a quote, a
/// backslash or a `<` in it is passed over whole, and a backslash in quotes takes
/// the character behind it with it.
pub proof fn law_quotes_hide_braces_in_the_notation(s: Seq<char>, p: int, end: int, depth: int)
    requires
        0 <= p,
    ensures
        p < end < s.len() && s[p] == '"' && s[end] == '"' && (forall|i: int|
            p < i < end ==> #[trigger] s[i] != '"' && s[i] != '\\' && s[i] != '<')
            ==> gemma_object_end(s, p, depth, false, false, false) == gemma_object_end(
            s,
            end + 1,
            depth,
            false,
            false,
            false,
        ),
        p + 1 < s.len() && s[p] == '\\' && s[p + 1] != '<' ==> gemma_object_end(
            s,
            p,
            depth,
            false,
            true,
            false,
        ) == gemma_object_end(s, p + 2, depth, false, true, false),
{
    lemma_no_token_at(s, p);
    lemma_no_token_at(s, p + 1);
    if p < end < s.len() && s[p] == '"' && s[end] == '"' && (forall|i: int|
        p < i < end ==> #[trigger] s[i] != '"' && s[i] != '\\' && s[i] != '<') {
        lemma_quoted_is_passed(s, p + 1, end, depth);
    }
    if p + 1 < s.len() && s[p] == '\\' && s[p + 1] != '<' {
        assert(gemma_object_end(s, p, depth, false, true, false) == gemma_object_end(
            s,
            p + 1,
            depth,
            false,
            true,
            true,
        ));
    }
}

/// `<escape>` stands only where a `<` stands.
proof fn lemma_no_token_at(s: Seq<char>, p: int)
    requires
        0 <= p,
    ensures
        matches_at(s, ESCAPE_TOKEN@, p) ==> p + 8 <= s.len() && s[p] == '<',
        ESCAPE_TOKEN@.len() == 8,
{
    reveal_strlit("<escape>");
    if matches_at(s, ESCAPE_TOKEN@, p) {
        assert(s.subrange(p, p + 8)[0] == s[p]);
    }
}

proof fn lemma_quoted_is_passed(s: Seq<char>, p: int, end: int, depth: int)
    requires
        0 <= p <= end < s.len(),
        s[end] == '"',
        forall|i: int| p <= i < end ==> #[trigger] s[i] != '"' && s[i] != '\\' && s[i] != '<',
    ensures
        gemma_object_end(s, p, depth, false, true, false) == gemma_object_end(
            s,
            end + 1,
            depth,
            false,
            false,
            false,
        ),
    decreases end - p,
{
    lemma_no_token_at(s, p);
    if p < end {
        assert(s[p] != '"' && s[p] != '\\' && s[p] != '<');
        lemma_quoted_is_passed(s, p + 1, end, depth);
    }
}

/// An object in the notation of FunctionGemma is found in a text whatever stands
/// in front of it, but for an opening brace, and whatever stands behind it.
pub proof fn law_notation_object_is_found_in_a_text(
    before: Seq<char>,
    object: Seq<char>,
    behind: Seq<char>,
)
    requires
        !before.contains('{'),
        object.len() > 0,
        object[0] == '{',
        gemma_object_end(object, 0, 0, false, false, false) == Some(object.len() as int),
    ensures
        first_gemma_object(before + object + behind) == Some(object),
{
    let input = before + object + behind;
    let text = trim(input);
    law_trim_takes_outer_space(input);
    let (left, right) = choose|left: Seq<char>, right: Seq<char>|
        is_blank(left) && is_blank(right) && input == #[trigger] (left + text + right);
    lemma_gemma_object_end(object, 0, 0, false, false, false);
    let at = before.len() as int;
    let last = at + object.len() - 1;
    assert(input[at] == object[0]);
    assert(input[last] == object[object.len() - 1]);
    assert(left.len() <= at) by {
        if at < left.len() {
            assert(left[at] == input[at]);
        }
    }
    assert(last < left.len() + text.len()) by {
        if last >= left.len() + text.len() {
            assert(right[last - left.len() - text.len()] == input[last]);
        }
    }
    let from = at - left.len();
    assert forall|j: int| 0 <= j < object.len() implies text[from + j] == object[j] by {
        assert(text[from + j] == input[at + j]);
        assert(input[at + j] == object[j]);
    }
    assert(text.subrange(from, from + object.len()) =~= object);
    let brace = seq!['{'];
    lemma_find_from(text, brace, 0);
    assert(matches_at(text, brace, from)) by {
        assert(text.subrange(from, from + 1) =~= brace);
    }
    assert(find(text, brace) == Some(from)) by {
        let found = find(text, brace).unwrap();
        assert(found <= from);
        if found < from {
            assert(text.subrange(found, found + 1)[0] == text[found]);
            assert(text[found] == input[left.len() + found]);
            assert(input[left.len() + found] == before[left.len() + found]);
            assert(before.contains(before[left.len() + found]));
        }
    }
    lemma_notation_end_in_text(text, from, object, 0, 0, false, false, false);
}

proof fn lemma_notation_end_in_text(
    s: Seq<char>,
    from: int,
    t: Seq<char>,
    p: int,
    depth: int,
    in_escape: bool,
    in_string: bool,
    escaped: bool,
)
    requires
        0 <= from,
        0 <= p,
        from + t.len() <= s.len(),
        s.subrange(from, from + t.len()) == t,
        t.len() > 0,
        t.last() == '}',
    ensures
        gemma_object_end(t, p, depth, in_escape, in_string, escaped) matches Some(end)
            ==> gemma_object_end(s, from + p, depth, in_escape, in_string, escaped) == Some(
            from + end,
        ),
    decreases t.len() - p,
{
    if p < t.len() {
        let part = s.subrange(from, from + t.len());
        assert(s[from + p] == part[p]);
        lemma_no_token_at(t, p);
        lemma_no_token_at(s, from + p);
        assert(matches_at(t, ESCAPE_TOKEN@, p) == matches_at(s, ESCAPE_TOKEN@, from + p)) by {
            if p + 8 <= t.len() {
                assert(t.subrange(p, p + 8) =~= s.subrange(from + p, from + p + 8));
            } else if matches_at(s, ESCAPE_TOKEN@, from + p) {
                let brace = t.len() - 1 - p;
                reveal_strlit("<escape>");
                assert(s.subrange(from + p, from + p + 8)[brace] == s[from + p + brace]);
                assert(s[from + p + brace] == part[t.len() - 1]);
                assert(ESCAPE_TOKEN@[brace] != '}');
            }
        }
        if matches_at(t, ESCAPE_TOKEN@, p) {
            lemma_notation_end_in_text(s, from, t, p + 8, depth, !in_escape, in_string, escaped);
        } else if in_string {
            lemma_notation_end_in_text(s, from, t, p + 1, depth, in_escape, true, false);
            lemma_notation_end_in_text(s, from, t, p + 1, depth, in_escape, true, true);
            lemma_notation_end_in_text(s, from, t, p + 1, depth, in_escape, false, false);
        } else if in_escape {
            lemma_notation_end_in_text(s, from, t, p + 1, depth, true, false, escaped);
        } else {
            lemma_notation_end_in_text(s, from, t, p + 1, depth, false, true, escaped);
            lemma_notation_end_in_text(s, from, t, p + 1, depth + 1, false, false, escaped);
            lemma_notation_end_in_text(s, from, t, p + 1, depth - 1, false, false, escaped);
            lemma_notation_end_in_text(s, from, t, p + 1, depth, false, false, escaped);
        }
    }
}

} // verus!
