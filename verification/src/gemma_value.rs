//! The notation in which FunctionGemma writes and reads values: JSON with bare
//! keys and words, and with `<escape>` around texts.

use vstd::prelude::*;
use vstd::string::*;

use crate::json::{
    fields_view, insert_field, is_json_integer, items_view, json_parsed, lemma_json_view,
    parse_json, says, set_field, sorted_fields, sorted_tree, Fields, JsonTree, JsonValue,
};
use crate::text::{
    ascii_upper_text, ends_with, eq_ignore_ascii_case, find, find_chars, from_chars, is_white_space,
    is_whitespace, lemma_ends_with, lemma_find_from, matches_at, same_ignoring_ascii_case,
    signed_decimal, stands_at, to_chars,
};

verus! {

/// Stands before and behind a text.
pub const ESCAPE_TOKEN: &'static str = "<escape>";

// ---------------------------------------------------------------------------
// The notation
// ---------------------------------------------------------------------------

/// The value that stands at a position and where it ends, or what is wrong.
pub type Parsed = Result<(JsonTree, int), Seq<char>>;

/// The text that stands at a position and where it ends, or what is wrong.
pub type ParsedText = Result<(Seq<char>, int), Seq<char>>;

/// The first position from `p` on that holds no white space.
pub open spec fn skip_space(s: Seq<char>, p: int) -> int
    decreases s.len() - p,
{
    if 0 <= p < s.len() && is_white_space(s[p]) {
        skip_space(s, p + 1)
    } else {
        p
    }
}

/// Character `c` stands at `p`.
pub open spec fn has_char(s: Seq<char>, p: int, c: char) -> bool {
    0 <= p < s.len() && s[p] == c
}

/// Ends a bare word.
pub open spec fn is_delimiter(c: char) -> bool {
    is_white_space(c) || c == ':' || c == ',' || c == '{' || c == '}' || c == '[' || c == ']'
}

/// Where the bare word at `p` ends.
pub open spec fn word_end(s: Seq<char>, p: int) -> int
    decreases s.len() - p,
{
    if 0 <= p < s.len() && !is_delimiter(s[p]) {
        word_end(s, p + 1)
    } else {
        p
    }
}

/// The bare word at `p`.
pub open spec fn word_at(s: Seq<char>, p: int) -> ParsedText {
    let end = word_end(s, p);
    if end <= p {
        Err("Expected token in FunctionGemma payload"@)
    } else {
        Ok((s.subrange(p, end), end))
    }
}

/// The integer that a word is in decimal.
pub open spec fn integer_in(word: Seq<char>) -> Option<int> {
    if exists|n: int| is_json_integer(n) && word == #[trigger] signed_decimal(n) {
        Some(choose|n: int| is_json_integer(n) && word == #[trigger] signed_decimal(n))
    } else {
        None
    }
}

/// What a bare word means.
pub open spec fn word_value(word: Seq<char>) -> JsonTree {
    if same_ignoring_ascii_case(word, "true"@) {
        JsonTree::Bool(true)
    } else if same_ignoring_ascii_case(word, "false"@) {
        JsonTree::Bool(false)
    } else if same_ignoring_ascii_case(word, "null"@) {
        JsonTree::Null
    } else if integer_in(word) is Some {
        JsonTree::Integer(integer_in(word).unwrap())
    } else {
        match json_parsed(word) {
            Ok(JsonTree::Integer(n)) => JsonTree::Integer(n),
            Ok(JsonTree::Float(n)) => JsonTree::Float(n),
            _ => JsonTree::Text(word),
        }
    }
}

/// The quote that closes a JSON string, from `p` on. `escaped` tells whether a
/// backslash stands before `p`.
pub open spec fn quote_end(s: Seq<char>, p: int, escaped: bool) -> Option<int>
    decreases s.len() - p,
{
    if p < 0 || p >= s.len() {
        None
    } else if escaped {
        quote_end(s, p + 1, false)
    } else if s[p] == '\\' {
        quote_end(s, p + 1, true)
    } else if s[p] == '"' {
        Some(p)
    } else {
        quote_end(s, p + 1, false)
    }
}

/// The JSON string at `p`.
pub open spec fn quoted_at(s: Seq<char>, p: int) -> Parsed {
    match quote_end(s, p + 1, false) {
        None => Err("Unterminated quoted string in FunctionGemma payload"@),
        Some(end) => match json_parsed(s.subrange(p, end + 1)) {
            Err(text) => Err("Invalid quoted string in FunctionGemma payload: "@ + text),
            Ok(tree) => Ok((tree, end + 1)),
        },
    }
}

/// The text between `<escape>` and `<escape>` at `p`.
pub open spec fn escaped_at(s: Seq<char>, p: int) -> Parsed {
    let start = p + ESCAPE_TOKEN@.len();
    match find(s.subrange(start, s.len() as int), ESCAPE_TOKEN@) {
        None => Err("Unterminated <escape> string in FunctionGemma payload"@),
        Some(length) => Ok(
            (
                JsonTree::Text(s.subrange(start, start + length)),
                start + length + ESCAPE_TOKEN@.len(),
            ),
        ),
    }
}

/// The key at `p`: a JSON string or a bare word.
pub open spec fn key_at(s: Seq<char>, p: int) -> ParsedText {
    let start = skip_space(s, p);
    if has_char(s, start, '"') {
        match quoted_at(s, start) {
            Err(text) => Err(text),
            Ok((JsonTree::Text(key), end)) => Ok((key, end)),
            Ok(_) => Err("FunctionGemma object keys must be strings"@),
        }
    } else {
        word_at(s, start)
    }
}

pub open spec fn expected_text(s: Seq<char>, p: int, c: char) -> Seq<char> {
    if 0 <= p < s.len() {
        "Expected '"@ + seq![c] + "' but found '"@ + seq![s[p]] + "'"@
    } else {
        "Expected '"@ + seq![c] + "' but reached end of input"@
    }
}

/// The value at `p`.
pub open spec fn value_at(s: Seq<char>, p: int) -> Parsed
    decreases s.len() - p, 1nat,
{
    let start = skip_space(s, p);
    if !(p <= start < s.len()) {
        Err("Unexpected end of FunctionGemma payload"@)
    } else if s[start] == '{' {
        fields_at(s, start + 1, Seq::empty())
    } else if s[start] == '[' {
        items_at(s, start + 1, Seq::empty())
    } else if matches_at(s, ESCAPE_TOKEN@, start) {
        escaped_at(s, start)
    } else if s[start] == '"' {
        quoted_at(s, start)
    } else {
        match word_at(s, start) {
            Err(text) => Err(text),
            Ok((word, end)) => Ok((word_value(word), end)),
        }
    }
}

/// The rest of an object from `p` on, behind `fields`. A comma may stand before
/// the closing brace.
pub open spec fn fields_at(s: Seq<char>, p: int, fields: Fields) -> Parsed
    decreases s.len() - p, 0nat,
{
    let start = skip_space(s, p);
    if has_char(s, start, '}') {
        Ok((JsonTree::Object(fields), start + 1))
    } else {
        match key_at(s, start) {
            Err(text) => Err(text),
            Ok((key, key_end)) => {
                let colon = skip_space(s, key_end);
                if !has_char(s, colon, ':') || colon < p {
                    Err(expected_text(s, colon, ':'))
                } else {
                    match value_at(s, colon + 1) {
                        Err(text) => Err(text),
                        Ok((value, value_end)) => {
                            let more = set_field(fields, key, value);
                            let next = skip_space(s, value_end);
                            if has_char(s, next, ',') && next >= p {
                                fields_at(s, next + 1, more)
                            } else if has_char(s, next, '}') {
                                Ok((JsonTree::Object(more), next + 1))
                            } else {
                                Err("Expected ',' or '}' in FunctionGemma object"@)
                            }
                        },
                    }
                }
            },
        }
    }
}

/// The rest of an array from `p` on, behind `items`. A comma may stand before
/// the closing bracket.
pub open spec fn items_at(s: Seq<char>, p: int, items: Seq<JsonTree>) -> Parsed
    decreases s.len() - p, 2nat,
{
    let start = skip_space(s, p);
    if has_char(s, start, ']') {
        Ok((JsonTree::Array(items), start + 1))
    } else {
        match value_at(s, p) {
            Err(text) => Err(text),
            Ok((value, value_end)) => {
                let more = items.push(value);
                let next = skip_space(s, value_end);
                if has_char(s, next, ',') && next >= p {
                    items_at(s, next + 1, more)
                } else if has_char(s, next, ']') {
                    Ok((JsonTree::Array(more), next + 1))
                } else {
                    Err("Expected ',' or ']' in FunctionGemma array"@)
                }
            },
        }
    }
}

/// The object at `p`.
pub open spec fn object_at(s: Seq<char>, p: int) -> Parsed {
    if has_char(s, p, '{') {
        fields_at(s, p + 1, Seq::empty())
    } else {
        Err(expected_text(s, p, '{'))
    }
}

/// The array at `p`.
pub open spec fn array_at(s: Seq<char>, p: int) -> Parsed {
    if has_char(s, p, '[') {
        items_at(s, p + 1, Seq::empty())
    } else {
        Err(expected_text(s, p, '['))
    }
}

/// The value that a whole text spells.
pub open spec fn spelled_value(s: Seq<char>) -> Result<JsonTree, Seq<char>> {
    match value_at(s, 0) {
        Err(text) => Err(text),
        Ok((value, end)) => if skip_space(s, end) < s.len() {
            Err("Unexpected trailing content in FunctionGemma payload"@)
        } else {
            Ok(value)
        },
    }
}

// ---------------------------------------------------------------------------
// Where parts end
// ---------------------------------------------------------------------------

proof fn lemma_skip_space(s: Seq<char>, p: int)
    requires
        0 <= p <= s.len(),
    ensures
        p <= skip_space(s, p) <= s.len(),
    decreases s.len() - p,
{
    if p < s.len() && is_white_space(s[p]) {
        lemma_skip_space(s, p + 1);
    }
}

proof fn lemma_word_end(s: Seq<char>, p: int)
    requires
        0 <= p <= s.len(),
    ensures
        p <= word_end(s, p) <= s.len(),
    decreases s.len() - p,
{
    if p < s.len() && !is_delimiter(s[p]) {
        lemma_word_end(s, p + 1);
    }
}

proof fn lemma_quote_end(s: Seq<char>, p: int, escaped: bool)
    requires
        0 <= p,
    ensures
        quote_end(s, p, escaped) matches Some(end) ==> p <= end < s.len(),
    decreases s.len() - p,
{
    if p < s.len() {
        lemma_quote_end(s, p + 1, true);
        lemma_quote_end(s, p + 1, false);
    }
}

proof fn lemma_key_end(s: Seq<char>, p: int)
    requires
        0 <= p <= s.len(),
    ensures
        key_at(s, p) matches Ok((_, end)) ==> p < end <= s.len(),
{
    let start = skip_space(s, p);
    lemma_skip_space(s, p);
    lemma_word_end(s, start);
    lemma_quote_end(s, start + 1, false);
}

/// A value ends behind its start and within the text.
proof fn lemma_value_end(s: Seq<char>, p: int)
    requires
        0 <= p <= s.len(),
    ensures
        value_at(s, p) matches Ok((_, end)) ==> p < end <= s.len(),
    decreases s.len() - p, 1nat,
{
    let start = skip_space(s, p);
    lemma_skip_space(s, p);
    if start < s.len() {
        if s[start] == '{' {
            lemma_fields_end(s, start + 1, Seq::empty());
        } else if s[start] == '[' {
            lemma_items_end(s, start + 1, Seq::empty());
        } else {
            reveal_strlit("<escape>");
            let text_start = start + ESCAPE_TOKEN@.len();
            if text_start <= s.len() {
                lemma_find_from(s.subrange(text_start, s.len() as int), ESCAPE_TOKEN@, 0);
            }
            lemma_quote_end(s, start + 1, false);
            lemma_word_end(s, start);
        }
    }
}

proof fn lemma_fields_end(s: Seq<char>, p: int, fields: Fields)
    requires
        0 <= p <= s.len(),
    ensures
        fields_at(s, p, fields) matches Ok((_, end)) ==> p < end <= s.len(),
    decreases s.len() - p, 0nat,
{
    let start = skip_space(s, p);
    lemma_skip_space(s, p);
    lemma_key_end(s, start);
    if let Ok((key, key_end)) = key_at(s, start) {
        let colon = skip_space(s, key_end);
        lemma_skip_space(s, key_end);
        if has_char(s, colon, ':') {
            lemma_value_end(s, colon + 1);
            if let Ok((value, value_end)) = value_at(s, colon + 1) {
                let next = skip_space(s, value_end);
                lemma_skip_space(s, value_end);
                if has_char(s, next, ',') {
                    lemma_fields_end(s, next + 1, set_field(fields, key, value));
                }
            }
        }
    }
}

proof fn lemma_items_end(s: Seq<char>, p: int, items: Seq<JsonTree>)
    requires
        0 <= p <= s.len(),
    ensures
        items_at(s, p, items) matches Ok((_, end)) ==> p < end <= s.len(),
    decreases s.len() - p, 2nat,
{
    lemma_skip_space(s, p);
    lemma_value_end(s, p);
    if let Ok((value, value_end)) = value_at(s, p) {
        let next = skip_space(s, value_end);
        lemma_skip_space(s, value_end);
        if has_char(s, next, ',') {
            lemma_items_end(s, next + 1, items.push(value));
        }
    }
}

// ---------------------------------------------------------------------------
// The parser
// ---------------------------------------------------------------------------

/// Reads values in the notation of FunctionGemma.
pub struct FunctionGemmaValueParser {
    pub input: Vec<char>,
    pub position: usize,
}

/// `r` is what stands in `s` at a position, and `position` is where it ends.
pub open spec fn reads<T: View>(
    r: Result<T, String>,
    position: int,
    expected: Result<(T::V, int), Seq<char>>,
) -> bool {
    match expected {
        Ok((value, end)) => r matches Ok(given) && given@ == value && position == end,
        Err(text) => r matches Err(message) && message@ == text,
    }
}

impl FunctionGemmaValueParser {
    /// The position lies in the input.
    pub open spec fn well_formed(self) -> bool {
        self.position <= self.input@.len()
    }

    pub fn new(input: &str) -> (parser: Self)
        ensures
            parser.well_formed(),
            parser.input@ == input@,
            parser.position == 0,
    {
        FunctionGemmaValueParser { input: to_chars(input), position: 0 }
    }

    /// Tells whether the input is read to its end.
    pub fn is_eof(&self) -> (b: bool)
        ensures
            b == (self.position >= self.input@.len()),
    {
        self.position >= self.input.len()
    }

    /// The next character.
    pub fn peek_char(&self) -> (r: Option<char>)
        ensures
            match r {
                Some(c) => self.position < self.input@.len() && c
                    == self.input@[self.position as int],
                None => self.position >= self.input@.len(),
            },
    {
        if self.position < self.input.len() {
            Some(self.input[self.position])
        } else {
            None
        }
    }

    /// Goes past white space.
    pub fn skip_whitespace(&mut self)
        requires
            old(self).well_formed(),
        ensures
            final(self).well_formed(),
            final(self).input == old(self).input,
            final(self).position == skip_space(old(self).input@, old(self).position as int),
    {
        let ghost s = self.input@;
        let n: usize = self.input.len();
        while self.position < n && is_whitespace(self.input[self.position])
            invariant
                n == s.len(),
                self.input@ == s,
                self.input == old(self).input,
                self.position <= n,
                skip_space(s, self.position as int) == skip_space(s, old(self).position as int),
            decreases n - self.position,
        {
            self.position = self.position + 1;
        }
    }

    /// Goes past a character that has to stand here.
    pub fn expect_char(&mut self, expected: char) -> (r: Result<(), String>)
        requires
            old(self).well_formed(),
        ensures
            final(self).well_formed(),
            final(self).input == old(self).input,
            match r {
                Ok(()) => {
                    &&& has_char(old(self).input@, old(self).position as int, expected)
                    &&& final(self).position == old(self).position + 1
                },
                Err(text) => {
                    &&& !has_char(old(self).input@, old(self).position as int, expected)
                    &&& text@ == expected_text(
                        old(self).input@,
                        old(self).position as int,
                        expected,
                    )
                },
            },
    {
        let n: usize = self.input.len();
        let mut message = "Expected '".to_owned();
        message.push(expected);
        match self.peek_char() {
            None => {
                message.append("' but reached end of input");
                assert(message@ =~= expected_text(
                    self.input@,
                    self.position as int,
                    expected,
                ));
                Err(message)
            },
            Some(actual) => {
                if actual != expected {
                    message.append("' but found '");
                    message.push(actual);
                    message.append("'");
                    assert(message@ =~= expected_text(
                        self.input@,
                        self.position as int,
                        expected,
                    ));
                    return Err(message);
                }
                self.position = self.position + 1;
                Ok(())
            },
        }
    }

    /// Goes past a character if it stands here.
    pub fn consume_char_if(&mut self, expected: char) -> (b: bool)
        requires
            old(self).well_formed(),
        ensures
            final(self).well_formed(),
            final(self).input == old(self).input,
            b == has_char(old(self).input@, old(self).position as int, expected),
            final(self).position == old(self).position + if b {
                1int
            } else {
                0int
            },
    {
        let n: usize = self.input.len();
        match self.peek_char() {
            Some(actual) => {
                if actual == expected {
                    self.position = self.position + 1;
                    true
                } else {
                    false
                }
            },
            None => false,
        }
    }

    /// Reads a bare word.
    pub fn parse_bare_token(&mut self) -> (r: Result<String, String>)
        requires
            old(self).well_formed(),
        ensures
            final(self).well_formed(),
            final(self).input == old(self).input,
            reads(
                r,
                final(self).position as int,
                word_at(old(self).input@, old(self).position as int),
            ),
    {
        let ghost s = self.input@;
        let n: usize = self.input.len();
        let start: usize = self.position;
        while self.position < n && !Self::ends_word(self.input[self.position])
            invariant
                n == s.len(),
                self.input@ == s,
                self.input == old(self).input,
                start <= self.position <= n,
                word_end(s, self.position as int) == word_end(s, start as int),
            decreases n - self.position,
        {
            self.position = self.position + 1;
        }
        if self.position == start {
            return Err("Expected token in FunctionGemma payload".to_owned());
        }
        Ok(from_chars(&self.input[start..self.position]))
    }

    fn ends_word(c: char) -> (b: bool)
        ensures
            b == is_delimiter(c),
    {
        is_whitespace(c) || c == ':' || c == ',' || c == '{' || c == '}' || c == '[' || c == ']'
    }

    /// Reads a JSON string.
    pub fn parse_json_string(&mut self) -> (r: Result<JsonValue, String>)
        requires
            old(self).well_formed(),
        ensures
            final(self).well_formed(),
            final(self).input == old(self).input,
            reads(
                r,
                final(self).position as int,
                quoted_at(old(self).input@, old(self).position as int),
            ),
            r matches Ok(value) ==> sorted_tree(value@),
    {
        let ghost s = self.input@;
        let n: usize = self.input.len();
        let start: usize = self.position;
        if start >= n {
            return Err("Unterminated quoted string in FunctionGemma payload".to_owned());
        }
        let mut escaped = false;
        let mut at: usize = start + 1;
        while at < n
            invariant
                n == s.len(),
                self.input@ == s,
                *self == *old(self),
                start == self.position,
                start < at <= n,
                quote_end(s, at as int, escaped) == quote_end(s, start + 1, false),
            decreases n - at,
        {
            let c: char = self.input[at];
            if escaped {
                escaped = false;
            } else if c == '\\' {
                escaped = true;
            } else if c == '"' {
                let raw = from_chars(&self.input[start..at + 1]);
                self.position = at + 1;
                return match parse_json(raw.as_str()) {
                    Ok(value) => Ok(value),
                    Err(text) => {
                        let mut message =
                            "Invalid quoted string in FunctionGemma payload: ".to_owned();
                        message.append(text.as_str());
                        Err(message)
                    },
                };
            }
            at = at + 1;
        }
        Err("Unterminated quoted string in FunctionGemma payload".to_owned())
    }

    /// Reads a text between `<escape>` and `<escape>`.
    pub fn parse_escape_wrapped_string(&mut self) -> (r: Result<JsonValue, String>)
        requires
            old(self).well_formed(),
            matches_at(old(self).input@, ESCAPE_TOKEN@, old(self).position as int),
        ensures
            final(self).well_formed(),
            final(self).input == old(self).input,
            reads(
                r,
                final(self).position as int,
                escaped_at(old(self).input@, old(self).position as int),
            ),
            r matches Ok(value) ==> sorted_tree(value@),
    {
        let token = to_chars(ESCAPE_TOKEN);
        let n: usize = self.input.len();
        let start: usize = self.position + token.len();
        let rest = &self.input[start..n];
        match find_chars(rest, token.as_slice()) {
            None => Err("Unterminated <escape> string in FunctionGemma payload".to_owned()),
            Some(length) => {
                proof {
                    lemma_find_from(rest@, token@, 0);
                    assert(rest@.subrange(0, length as int) == self.input@.subrange(
                        start as int,
                        start + length,
                    ));
                }
                let text = from_chars(&rest[0..length]);
                self.position = start + length + token.len();
                Ok(JsonValue::Text(text))
            },
        }
    }

    /// Reads a bare word as a value.
    pub fn parse_bare_value(&mut self) -> (r: Result<JsonValue, String>)
        requires
            old(self).well_formed(),
        ensures
            final(self).well_formed(),
            final(self).input == old(self).input,
            reads(
                r,
                final(self).position as int,
                match word_at(old(self).input@, old(self).position as int) {
                    Err(text) => Err(text),
                    Ok((word, end)) => Ok((word_value(word), end)),
                },
            ),
            r matches Ok(value) ==> sorted_tree(value@),
    {
        let token = match self.parse_bare_token() {
            Ok(token) => token,
            Err(text) => {
                return Err(text);
            },
        };
        let chars = to_chars(token.as_str());
        if eq_ignore_ascii_case(chars.as_slice(), to_chars("true").as_slice()) {
            return Ok(JsonValue::Bool(true));
        }
        if eq_ignore_ascii_case(chars.as_slice(), to_chars("false").as_slice()) {
            return Ok(JsonValue::Bool(false));
        }
        if eq_ignore_ascii_case(chars.as_slice(), to_chars("null").as_slice()) {
            return Ok(JsonValue::Null);
        }
        match parse_json(token.as_str()) {
            Ok(JsonValue::Unsigned(n)) => Ok(JsonValue::Unsigned(n)),
            Ok(JsonValue::Signed(n)) => Ok(JsonValue::Signed(n)),
            Ok(JsonValue::Number(n)) => Ok(JsonValue::Number(n)),
            _ => Ok(JsonValue::Text(token)),
        }
    }

    /// Reads the key of a field.
    pub fn parse_key(&mut self) -> (r: Result<String, String>)
        requires
            old(self).well_formed(),
        ensures
            final(self).well_formed(),
            final(self).input == old(self).input,
            reads(
                r,
                final(self).position as int,
                key_at(old(self).input@, old(self).position as int),
            ),
    {
        self.skip_whitespace();
        if self.peek_char() == Some('"') {
            return match self.parse_json_string() {
                Ok(JsonValue::Text(key)) => Ok(key),
                Ok(_) => Err("FunctionGemma object keys must be strings".to_owned()),
                Err(text) => Err(text),
            };
        }
        self.parse_bare_token()
    }

    /// Reads a value.
    pub fn parse_value(&mut self) -> (r: Result<JsonValue, String>)
        requires
            old(self).well_formed(),
        ensures
            final(self).well_formed(),
            final(self).input == old(self).input,
            reads(
                r,
                final(self).position as int,
                value_at(old(self).input@, old(self).position as int),
            ),
            r matches Ok(value) ==> sorted_tree(value@),
        decreases old(self).input@.len() - old(self).position, 1nat,
    {
        proof {
            lemma_skip_space(self.input@, self.position as int);
        }
        self.skip_whitespace();
        let token = to_chars(ESCAPE_TOKEN);
        match self.peek_char() {
            None => Err("Unexpected end of FunctionGemma payload".to_owned()),
            Some('{') => self.parse_object(),
            Some('[') => self.parse_array(),
            Some(c) => {
                if stands_at(self.input.as_slice(), token.as_slice(), self.position) {
                    self.parse_escape_wrapped_string()
                } else if c == '"' {
                    self.parse_json_string()
                } else {
                    self.parse_bare_value()
                }
            },
        }
    }

    /// Reads an object.
    pub fn parse_object(&mut self) -> (r: Result<JsonValue, String>)
        requires
            old(self).well_formed(),
        ensures
            final(self).well_formed(),
            final(self).input == old(self).input,
            reads(
                r,
                final(self).position as int,
                object_at(old(self).input@, old(self).position as int),
            ),
            r matches Ok(value) ==> sorted_tree(value@),
        decreases old(self).input@.len() - old(self).position, 0nat,
    {
        let ghost s = self.input@;
        let ghost first = self.position + 1;
        match self.expect_char('{') {
            Ok(()) => {},
            Err(text) => {
                return Err(text);
            },
        }
        let mut fields: Vec<(String, JsonValue)> = Vec::new();
        assert(fields_view(fields@) =~= Seq::empty());
        loop
            invariant
                s == old(self).input@,
                self.input == old(self).input,
                self.well_formed(),
                first == old(self).position + 1,
                has_char(s, old(self).position as int, '{'),
                first <= self.position,
                sorted_fields(fields@),
                fields_at(s, self.position as int, fields_view(fields@)) == fields_at(
                    s,
                    first,
                    Seq::empty(),
                ),
            decreases s.len() - self.position,
        {
            proof {
                lemma_skip_space(s, self.position as int);
            }
            self.skip_whitespace();
            if self.consume_char_if('}') {
                let r = JsonValue::Object(fields);
                proof {
                    lemma_json_view(r);
                }
                return Ok(r);
            }
            proof {
                lemma_key_end(s, self.position as int);
            }
            let key = match self.parse_key() {
                Ok(key) => key,
                Err(text) => {
                    return Err(text);
                },
            };
            proof {
                lemma_skip_space(s, self.position as int);
            }
            self.skip_whitespace();
            match self.expect_char(':') {
                Ok(()) => {},
                Err(text) => {
                    return Err(text);
                },
            }
            proof {
                lemma_value_end(s, self.position as int);
            }
            let value = match self.parse_value() {
                Ok(value) => value,
                Err(text) => {
                    return Err(text);
                },
            };
            proof {
                lemma_skip_space(s, self.position as int);
            }
            insert_field(&mut fields, key, value);
            self.skip_whitespace();
            if self.consume_char_if(',') {
                continue;
            }
            if self.consume_char_if('}') {
                let r = JsonValue::Object(fields);
                proof {
                    lemma_json_view(r);
                }
                return Ok(r);
            }
            return Err("Expected ',' or '}' in FunctionGemma object".to_owned());
        }
    }

    /// Reads an array.
    pub fn parse_array(&mut self) -> (r: Result<JsonValue, String>)
        requires
            old(self).well_formed(),
        ensures
            final(self).well_formed(),
            final(self).input == old(self).input,
            reads(
                r,
                final(self).position as int,
                array_at(old(self).input@, old(self).position as int),
            ),
            r matches Ok(value) ==> sorted_tree(value@),
        decreases old(self).input@.len() - old(self).position, 0nat,
    {
        let ghost s = self.input@;
        let ghost first = self.position + 1;
        match self.expect_char('[') {
            Ok(()) => {},
            Err(text) => {
                return Err(text);
            },
        }
        let mut items: Vec<JsonValue> = Vec::new();
        assert(items_view(items@) =~= Seq::empty());
        loop
            invariant
                s == old(self).input@,
                self.input == old(self).input,
                self.well_formed(),
                first == old(self).position + 1,
                has_char(s, old(self).position as int, '['),
                first <= self.position,
                forall|i: int| 0 <= i < items@.len() ==> sorted_tree((#[trigger] items@[i])@),
                items_at(s, self.position as int, items_view(items@)) == items_at(
                    s,
                    first,
                    Seq::empty(),
                ),
            decreases s.len() - self.position,
        {
            let ghost start = self.position as int;
            proof {
                lemma_skip_space(s, start);
                lemma_value_end(s, start);
            }
            self.skip_whitespace();
            if self.consume_char_if(']') {
                let r = JsonValue::Array(items);
                proof {
                    lemma_json_view(r);
                }
                return Ok(r);
            }
            proof {
                lemma_space_skipped(s, start);
            }
            let value = match self.parse_value() {
                Ok(value) => value,
                Err(text) => {
                    return Err(text);
                },
            };
            proof {
                lemma_skip_space(s, self.position as int);
            }
            let ghost before = items_view(items@);
            let ghost tree = value@;
            items.push(value);
            assert(items_view(items@) =~= before.push(tree));
            self.skip_whitespace();
            if self.consume_char_if(',') {
                continue;
            }
            if self.consume_char_if(']') {
                let r = JsonValue::Array(items);
                proof {
                    lemma_json_view(r);
                }
                return Ok(r);
            }
            return Err("Expected ',' or ']' in FunctionGemma array".to_owned());
        }
    }
}

/// White space before a value changes nothing.
proof fn lemma_space_skipped(s: Seq<char>, p: int)
    requires
        0 <= p <= s.len(),
    ensures
        skip_space(s, skip_space(s, p)) == skip_space(s, p),
        value_at(s, skip_space(s, p)) == value_at(s, p),
    decreases s.len() - p,
{
    lemma_skip_space(s, p);
    if p < s.len() && is_white_space(s[p]) {
        lemma_space_skipped(s, p + 1);
    }
}

/// Reads a whole text as a value.
pub fn parse_functiongemma_value(input: &str) -> (r: Result<JsonValue, String>)
    ensures
        says(r, spelled_value(input@)),
        r matches Ok(value) ==> sorted_tree(value@),
{
    let mut parser = FunctionGemmaValueParser::new(input);
    let value = match parser.parse_value() {
        Ok(value) => value,
        Err(text) => {
            return Err(text);
        },
    };
    parser.skip_whitespace();
    if !parser.is_eof() {
        return Err("Unexpected trailing content in FunctionGemma payload".to_owned());
    }
    Ok(value)
}

// ---------------------------------------------------------------------------
// Laws
// ---------------------------------------------------------------------------

/// Space is passed over up to the first character that is none.
pub proof fn law_space_is_passed_over(s: Seq<char>, p: int)
    requires
        0 <= p <= s.len(),
    ensures
        ({
            let q = skip_space(s, p);
            &&& p <= q <= s.len()
            &&& forall|i: int| p <= i < q ==> is_white_space(#[trigger] s[i])
            &&& q < s.len() ==> !is_white_space(s[q])
        }),
    decreases s.len() - p,
{
    if p < s.len() && is_white_space(s[p]) {
        law_space_is_passed_over(s, p + 1);
    }
}

/// Space in front of a value changes nothing of it, and behind the value of a
/// whole text nothing but space may stand.
pub proof fn law_space_around_a_value_is_free(s: Seq<char>, p: int)
    requires
        0 <= p <= s.len(),
    ensures
        value_at(s, p) == value_at(s, skip_space(s, p)),
        spelled_value(s) matches Ok(value) ==> value_at(s, 0) matches Ok((found, end)) && found
            == value && 0 < end <= s.len() && forall|i: int|
            end <= i < s.len() ==> is_white_space(#[trigger] s[i]),
        value_at(s, 0) matches Ok((value, end)) ==> ((forall|i: int|
            end <= i < s.len() ==> is_white_space(#[trigger] s[i])) ==> spelled_value(s) == Ok::<
            JsonTree,
            Seq<char>,
        >(value)),
{
    law_space_is_passed_over(s, p);
    let q = skip_space(s, p);
    assert(skip_space(s, q) == q);
    lemma_value_end(s, 0);
    if let Ok((value, end)) = value_at(s, 0) {
        law_space_is_passed_over(s, end);
    }
}

/// A bare word in small or capital letters is the truth value or null that it
/// spells, and any other word that is no number in JSON is the text that it is.
pub proof fn law_bare_words_mean_what_they_spell(word: Seq<char>)
    ensures
        same_ignoring_ascii_case(word, "true"@) ==> word_value(word) == JsonTree::Bool(true),
        same_ignoring_ascii_case(word, "false"@) ==> word_value(word) == JsonTree::Bool(false),
        same_ignoring_ascii_case(word, "null"@) ==> word_value(word) == JsonTree::Null,
        word_value(word) matches JsonTree::Text(text) ==> text == word,
        word_value(word) matches JsonTree::Bool(b) ==> same_ignoring_ascii_case(
            word,
            if b {
                "true"@
            } else {
                "false"@
            },
        ),
        word_value(word) is Null ==> same_ignoring_ascii_case(word, "null"@),
        word_value(word) matches JsonTree::Integer(n) ==> word == signed_decimal(n) || json_parsed(
            word,
        ) == Ok::<JsonTree, Seq<char>>(JsonTree::Integer(n)),
        !(word_value(word) is Array) && !(word_value(word) is Object),
{
    reveal_strlit("true");
    reveal_strlit("false");
    reveal_strlit("null");
    assert(ascii_upper_text("true"@)[0] == 'T');
    assert(ascii_upper_text("false"@)[0] == 'F');
    assert(ascii_upper_text("null"@)[0] == 'N');
}

/// A word goes up to the first space, colon, comma, brace or bracket.
pub proof fn law_words_end_at_delimiters(s: Seq<char>, p: int)
    requires
        0 <= p <= s.len(),
    ensures
        ({
            let end = word_end(s, p);
            &&& p <= end <= s.len()
            &&& forall|i: int|
                p <= i < end ==> !is_white_space(#[trigger] s[i]) && s[i] != ':' && s[i] != ','
                    && s[i] != '{' && s[i] != '}' && s[i] != '[' && s[i] != ']'
            &&& end < s.len() ==> is_white_space(s[end]) || s[end] == ':' || s[end] == ','
                || s[end] == '{' || s[end] == '}' || s[end] == '[' || s[end] == ']'
        }),
        word_at(s, p) matches Ok((word, end)) ==> word == s.subrange(p, end) && end == word_end(
            s,
            p,
        ) && end > p,
    decreases s.len() - p,
{
    if p < s.len() && !is_delimiter(s[p]) {
        law_words_end_at_delimiters(s, p + 1);
    }
}

/// A text in quotes is the JSON string that goes up to the next quote, where no
/// backslash stands before it.
pub proof fn law_quoted_text_is_json(s: Seq<char>, p: int, end: int)
    requires
        0 <= p < end < s.len(),
        s[p] == '"',
        s[end] == '"',
        forall|i: int| p < i < end ==> #[trigger] s[i] != '"' && s[i] != '\\',
    ensures
        match json_parsed(s.subrange(p, end + 1)) {
            Ok(tree) => value_at(s, p) == Ok::<(JsonTree, int), Seq<char>>((tree, end + 1)),
            Err(text) => value_at(s, p) matches Err(message) && ends_with(message, text),
        },
{
    reveal_strlit("<escape>");
    assert(skip_space(s, p) == p);
    if matches_at(s, ESCAPE_TOKEN@, p) {
        assert(s.subrange(p, p + 8)[0] == s[p]);
    }
    lemma_plain_quote_end(s, p + 1, end);
    if let Err(text) = json_parsed(s.subrange(p, end + 1)) {
        lemma_ends_with("Invalid quoted string in FunctionGemma payload: "@, text);
    }
}

proof fn lemma_plain_quote_end(s: Seq<char>, p: int, end: int)
    requires
        0 <= p <= end < s.len(),
        s[end] == '"',
        forall|i: int| p <= i < end ==> #[trigger] s[i] != '"' && s[i] != '\\',
    ensures
        quote_end(s, p, false) == Some(end),
    decreases end - p,
{
    if p < end {
        lemma_plain_quote_end(s, p + 1, end);
    }
}

/// A backslash in a quoted text takes the character behind it with it, a quote
/// too.
pub proof fn law_backslash_hides_a_quote(s: Seq<char>, p: int)
    requires
        0 <= p,
        p + 1 < s.len(),
        s[p] == '\\',
    ensures
        quote_end(s, p, false) == quote_end(s, p + 2, false),
{
    assert(quote_end(s, p, false) == quote_end(s, p + 1, true));
}

/// A text between `<escape>` and the next `<escape>` is that text, whatever stands
/// in it: quotes, braces, commas and space among it.
pub proof fn law_escaped_text_is_taken_whole(s: Seq<char>, p: int, text: Seq<char>)
    requires
        0 <= p,
        matches_at(s, "<escape>"@ + text + "<escape>"@, p),
        forall|j: int|
            0 <= j < text.len() ==> !#[trigger] matches_at(s.skip(p + 8), ESCAPE_TOKEN@, j),
    ensures
        value_at(s, p) == Ok::<(JsonTree, int), Seq<char>>(
            (JsonTree::Text(text), p + 16 + text.len()),
        ),
{
    reveal_strlit("<escape>");
    let whole = "<escape>"@ + text + "<escape>"@;
    let part = s.subrange(p, p + whole.len());
    assert(part == whole);
    assert(s[p] == part[0]);
    assert(!is_white_space('<'));
    assert(skip_space(s, p) == p);
    assert(s.subrange(p, p + 8) =~= part.subrange(0, 8));
    assert(whole.subrange(0, 8) =~= ESCAPE_TOKEN@);
    assert(matches_at(s, ESCAPE_TOKEN@, p));
    let rest = s.subrange(p + 8, s.len() as int);
    assert(rest =~= s.skip(p + 8));
    let n = text.len() as int;
    assert(rest.subrange(n, n + 8) =~= part.subrange(8 + n, 16 + n));
    assert(whole.subrange(8 + n, 16 + n) =~= ESCAPE_TOKEN@);
    assert(matches_at(rest, ESCAPE_TOKEN@, n));
    lemma_find_from(rest, ESCAPE_TOKEN@, 0);
    assert(find(rest, ESCAPE_TOKEN@) == Some(n)) by {
        let found = find(rest, ESCAPE_TOKEN@).unwrap();
        if found < n {
            assert(!matches_at(s.skip(p + 8), ESCAPE_TOKEN@, found));
        }
    }
    assert(s.subrange(p + 8, p + 8 + n) =~= part.subrange(8, 8 + n));
    assert(whole.subrange(8, 8 + n) =~= text);
}

/// An object or array may end with a comma: behind it a brace or a bracket ends
/// what was read before.
pub proof fn law_last_comma_is_free(s: Seq<char>, comma: int, items: Seq<JsonTree>, fields: Fields)
    requires
        0 <= comma,
        comma + 1 < s.len(),
        s[comma] == ',',
    ensures
        s[comma + 1] == ']' ==> items_at(s, comma + 1, items) == Ok::<
            (JsonTree, int),
            Seq<char>,
        >((JsonTree::Array(items), comma + 2)),
        s[comma + 1] == '}' ==> fields_at(s, comma + 1, fields) == Ok::<
            (JsonTree, int),
            Seq<char>,
        >((JsonTree::Object(fields), comma + 2)),
{
    assert(!is_white_space(']') && !is_white_space('}'));
}

/// `s` holds nothing but white space from `from` up to `to`, and none there.
pub open spec fn space_ends_at(s: Seq<char>, from: int, to: int) -> bool {
    &&& 0 <= from <= to < s.len()
    &&& forall|i: int| from <= i < to ==> is_white_space(#[trigger] s[i])
    &&& !is_white_space(s[to])
}

proof fn lemma_space_ends_at(s: Seq<char>, from: int, to: int)
    requires
        space_ends_at(s, from, to),
    ensures
        skip_space(s, from) == to,
    decreases to - from,
{
    if from < to {
        assert(is_white_space(s[from]));
        lemma_space_ends_at(s, from + 1, to);
    }
}

/// A field is its key, a colon and its value, with space wherever one likes.
/// Behind a comma the next field follows, and behind a brace the object ends. Of
/// two fields with one key the later counts.
pub proof fn law_fields_are_read_one_by_one(
    s: Seq<char>,
    p: int,
    fields: Fields,
    start: int,
    key: Seq<char>,
    key_end: int,
    colon: int,
    value: JsonTree,
    value_end: int,
    next: int,
)
    requires
        space_ends_at(s, p, start),
        s[start] != '}',
        key_at(s, start) == Ok::<(Seq<char>, int), Seq<char>>((key, key_end)),
        space_ends_at(s, key_end, colon),
        s[colon] == ':',
        value_at(s, colon + 1) == Ok::<(JsonTree, int), Seq<char>>((value, value_end)),
        space_ends_at(s, value_end, next),
    ensures
        s[next] == ',' ==> fields_at(s, p, fields) == fields_at(
            s,
            next + 1,
            set_field(fields, key, value),
        ),
        s[next] == '}' ==> fields_at(s, p, fields) == Ok::<(JsonTree, int), Seq<char>>(
            (JsonTree::Object(set_field(fields, key, value)), next + 1),
        ),
        s[next] != ',' && s[next] != '}' ==> fields_at(s, p, fields) is Err,
{
    lemma_space_ends_at(s, p, start);
    lemma_space_ends_at(s, key_end, colon);
    lemma_space_ends_at(s, value_end, next);
    lemma_key_end(s, start);
    lemma_value_end(s, colon + 1);
}

/// The values of an array stand one behind the other, with space wherever one
/// likes. Behind a comma the next value follows, and behind a bracket the array
/// ends.
pub proof fn law_items_are_read_one_by_one(
    s: Seq<char>,
    p: int,
    items: Seq<JsonTree>,
    start: int,
    value: JsonTree,
    value_end: int,
    next: int,
)
    requires
        space_ends_at(s, p, start),
        s[start] != ']',
        value_at(s, start) == Ok::<(JsonTree, int), Seq<char>>((value, value_end)),
        space_ends_at(s, value_end, next),
    ensures
        s[next] == ',' ==> items_at(s, p, items) == items_at(s, next + 1, items.push(value)),
        s[next] == ']' ==> items_at(s, p, items) == Ok::<(JsonTree, int), Seq<char>>(
            (JsonTree::Array(items.push(value)), next + 1),
        ),
        s[next] != ',' && s[next] != ']' ==> items_at(s, p, items) is Err,
{
    lemma_space_ends_at(s, p, start);
    lemma_space_ends_at(s, value_end, next);
    law_space_around_a_value_is_free(s, p);
    lemma_value_end(s, start);
}

/// A brace opens an object and a bracket an array, with space wherever one likes,
/// and where nothing stands but space there is no value.
pub proof fn law_braces_and_brackets_open(s: Seq<char>, p: int, start: int, end: int)
    requires
        space_ends_at(s, p, start),
    ensures
        s[start] == '{' ==> value_at(s, p) == fields_at(s, start + 1, Seq::empty()),
        s[start] == '[' ==> value_at(s, p) == items_at(s, start + 1, Seq::empty()),
        space_ends_at(s, start + 1, end) && s[start] == '{' && s[end] == '}' ==> value_at(s, p)
            == Ok::<(JsonTree, int), Seq<char>>((JsonTree::Object(Seq::empty()), end + 1)),
        space_ends_at(s, start + 1, end) && s[start] == '[' && s[end] == ']' ==> value_at(s, p)
            == Ok::<(JsonTree, int), Seq<char>>((JsonTree::Array(Seq::empty()), end + 1)),
        value_at(s, s.len() as int) is Err,
{
    lemma_space_ends_at(s, p, start);
    if space_ends_at(s, start + 1, end) {
        lemma_space_ends_at(s, start + 1, end);
    }
}

/// A key is the bare word that stands there, or the text that a JSON string there
/// spells.
pub proof fn law_keys_are_words_or_strings(s: Seq<char>, p: int, end: int, key: Seq<char>)
    requires
        0 <= p < s.len(),
        !is_white_space(s[p]),
    ensures
        s[p] != '"' ==> key_at(s, p) == word_at(s, p),
        s[p] == '"' && p < end < s.len() && s[end] == '"' && (forall|i: int|
            p < i < end ==> #[trigger] s[i] != '"' && s[i] != '\\') && json_parsed(
            s.subrange(p, end + 1),
        ) == Ok::<JsonTree, Seq<char>>(JsonTree::Text(key)) ==> key_at(s, p) == Ok::<
            (Seq<char>, int),
            Seq<char>,
        >((key, end + 1)),
{
    if s[p] == '"' && p < end < s.len() && s[end] == '"' && (forall|i: int|
        p < i < end ==> #[trigger] s[i] != '"' && s[i] != '\\') {
        lemma_plain_quote_end(s, p + 1, end);
    }
}

} // verus!
