//! Text as sequences of characters: whitespace, trimming, searching, replacing
//! and decimal numbers, each with an exact model.

use vstd::prelude::*;
use vstd::string::*;

verus! {

/// `std::string::String::push` appends one character at the end.
pub assume_specification[ String::push ](text: &mut String, c: char)
    ensures
        final(text)@ == old(text)@.push(c),
;

// ---------------------------------------------------------------------------
// Numbers
// ---------------------------------------------------------------------------

/// The decimal digit `d`, for `d` below ten.
pub open spec fn digit(d: nat) -> char {
    (48 + d) as u8 as char
}

/// A number in decimal, without leading zeros.
pub open spec fn decimal(n: nat) -> Seq<char>
    decreases n,
{
    if n < 10 {
        seq![digit(n)]
    } else {
        decimal(n / 10).push(digit(n % 10))
    }
}

/// A signed number in decimal.
pub open spec fn signed_decimal(n: int) -> Seq<char> {
    if n < 0 {
        seq!['-'] + decimal((-n) as nat)
    } else {
        decimal(n as nat)
    }
}

fn digit_char(d: u8) -> (c: char)
    requires
        d < 10,
    ensures
        c == digit(d as nat),
{
    (48u8 + d) as char
}

/// Writes a number in decimal.
pub fn decimal_text(n: u128) -> (text: String)
    ensures
        text@ == decimal(n as nat),
    decreases n,
{
    if n < 10 {
        let mut text = String::new();
        text.push(digit_char(n as u8));
        assert(text@ =~= seq![digit(n as nat)]);
        text
    } else {
        let mut text = decimal_text(n / 10);
        text.push(digit_char((n % 10) as u8));
        text
    }
}

/// Writes a `usize` in decimal.
pub fn usize_text(n: usize) -> (text: String)
    ensures
        text@ == decimal(n as nat),
{
    decimal_text(n as u128)
}

/// Writes a signed number in decimal.
pub fn signed_text(n: i32) -> (text: String)
    ensures
        text@ == signed_decimal(n as int),
{
    if n < 0 {
        let mut text = String::new();
        text.push('-');
        let magnitude: i64 = -(n as i64);
        let digits = decimal_text(magnitude as u128);
        text.append(digits.as_str());
        assert(text@ =~= seq!['-'] + digits@);
        text
    } else {
        decimal_text(n as u128)
    }
}

// ---------------------------------------------------------------------------
// Characters
// ---------------------------------------------------------------------------

/// The characters with the Unicode property `White_Space`.
pub open spec fn is_white_space(c: char) -> bool {
    let n = c as u32;
    ||| 0x9 <= n <= 0xd
    ||| n == 0x20
    ||| n == 0x85
    ||| n == 0xa0
    ||| n == 0x1680
    ||| 0x2000 <= n <= 0x200a
    ||| n == 0x2028
    ||| n == 0x2029
    ||| n == 0x202f
    ||| n == 0x205f
    ||| n == 0x3000
}

/// Tells whether a character is white space.
pub fn is_whitespace(c: char) -> (b: bool)
    ensures
        b == is_white_space(c),
{
    let n: u32 = c as u32;
    (0x9 <= n && n <= 0xd) || n == 0x20 || n == 0x85 || n == 0xa0 || n == 0x1680 || (0x2000 <= n
        && n <= 0x200a) || n == 0x2028 || n == 0x2029 || n == 0x202f || n == 0x205f || n == 0x3000
}

/// A character with the ASCII letters `a` to `z` in upper case.
pub open spec fn ascii_upper(c: char) -> char {
    if 'a' <= c <= 'z' {
        ((c as u8) - 32) as u8 as char
    } else {
        c
    }
}

/// A text with its ASCII letters in upper case.
pub open spec fn ascii_upper_text(s: Seq<char>) -> Seq<char> {
    Seq::new(s.len(), |i: int| ascii_upper(s[i]))
}

/// Two texts that differ at most in the case of ASCII letters.
pub open spec fn same_ignoring_ascii_case(a: Seq<char>, b: Seq<char>) -> bool {
    ascii_upper_text(a) == ascii_upper_text(b)
}

fn upper_char(c: char) -> (r: char)
    ensures
        r == ascii_upper(c),
{
    if 'a' <= c && c <= 'z' {
        let code: u8 = c as u8;
        (code - 32) as char
    } else {
        c
    }
}

// ---------------------------------------------------------------------------
// Texts and character slices
// ---------------------------------------------------------------------------

/// The characters of a text, in order.
pub fn to_chars(text: &str) -> (chars: Vec<char>)
    ensures
        chars@ == text@,
{
    let mut chars: Vec<char> = Vec::new();
    for c in it: text.chars()
        invariant
            chars@ == it.seq().take(it.index()),
            it.seq() == text@,
    {
        chars.push(c);
    }
    chars
}

/// A text made of the given characters.
pub fn from_chars(chars: &[char]) -> (text: String)
    ensures
        text@ == chars@,
{
    let mut text = String::new();
    let mut i: usize = 0;
    while i < chars.len()
        invariant
            i <= chars@.len(),
            text@ == chars@.take(i as int),
        decreases chars@.len() - i,
    {
        text.push(chars[i]);
        i = i + 1;
        assert(text@ =~= chars@.take(i as int));
    }
    assert(chars@.take(i as int) =~= chars@);
    text
}

/// Removes the white space in front of a text.
pub open spec fn trim_start(s: Seq<char>) -> Seq<char>
    decreases s.len(),
{
    if s.len() > 0 && is_white_space(s[0]) {
        trim_start(s.drop_first())
    } else {
        s
    }
}

/// Removes the white space behind a text.
pub open spec fn trim_end(s: Seq<char>) -> Seq<char>
    decreases s.len(),
{
    if s.len() > 0 && is_white_space(s.last()) {
        trim_end(s.drop_last())
    } else {
        s
    }
}

/// Removes the white space on both sides of a text.
pub open spec fn trim(s: Seq<char>) -> Seq<char> {
    trim_end(trim_start(s))
}

/// A text without white space on either side is left as it is.
pub proof fn lemma_trim_keeps(s: Seq<char>)
    requires
        s.len() > 0,
        !is_white_space(s[0]),
        !is_white_space(s.last()),
    ensures
        trim(s) == s,
{
}

/// The rest of `s` behind its leading white space.
pub fn trim_start_chars(s: &[char]) -> (r: &[char])
    ensures
        r@ == trim_start(s@),
{
    let mut i: usize = 0;
    assert(s@.skip(0) =~= s@);
    while i < s.len() && is_whitespace(s[i])
        invariant
            i <= s@.len(),
            trim_start(s@) == trim_start(s@.skip(i as int)),
        decreases s@.len() - i,
    {
        assert(s@.skip(i as int).drop_first() =~= s@.skip(i + 1));
        i = i + 1;
    }
    assert(s@.subrange(i as int, s@.len() as int) =~= s@.skip(i as int));
    &s[i..s.len()]
}

/// The part of `s` before its trailing white space.
pub fn trim_end_chars(s: &[char]) -> (r: &[char])
    ensures
        r@ == trim_end(s@),
{
    let mut end: usize = s.len();
    assert(s@.take(end as int) =~= s@);
    while end > 0 && is_whitespace(s[end - 1])
        invariant
            end <= s@.len(),
            trim_end(s@) == trim_end(s@.take(end as int)),
        decreases end,
    {
        assert(s@.take(end as int).drop_last() =~= s@.take(end - 1));
        end = end - 1;
    }
    assert(s@.subrange(0, end as int) =~= s@.take(end as int));
    &s[0..end]
}

/// The part of `s` between its leading and its trailing white space.
pub fn trim_chars(s: &[char]) -> (r: &[char])
    ensures
        r@ == trim(s@),
{
    trim_end_chars(trim_start_chars(s))
}

/// A text without the white space on its two sides.
pub fn trim_text(s: &str) -> (r: String)
    ensures
        r@ == trim(s@),
{
    let chars = to_chars(s);
    from_chars(trim_chars(chars.as_slice()))
}

/// `pattern` stands in `s` at position `at`.
pub open spec fn matches_at(s: Seq<char>, pattern: Seq<char>, at: int) -> bool {
    &&& 0 <= at
    &&& at + pattern.len() <= s.len()
    &&& s.subrange(at, at + pattern.len()) == pattern
}

/// The first position from `from` on at which `pattern` stands in `s`.
pub open spec fn find_from(s: Seq<char>, pattern: Seq<char>, from: int) -> Option<int>
    decreases s.len() + 1 - from,
{
    if from < 0 || from + pattern.len() > s.len() {
        None
    } else if matches_at(s, pattern, from) {
        Some(from)
    } else {
        find_from(s, pattern, from + 1)
    }
}

/// The first position at which `pattern` stands in `s`.
pub open spec fn find(s: Seq<char>, pattern: Seq<char>) -> Option<int> {
    find_from(s, pattern, 0)
}

/// `pattern` stands somewhere in `s`.
pub open spec fn contains(s: Seq<char>, pattern: Seq<char>) -> bool {
    exists|at: int| matches_at(s, pattern, at)
}

/// What a search reports: the least position from the start on, or that there
/// is none.
pub proof fn lemma_find_from(s: Seq<char>, pattern: Seq<char>, from: int)
    requires
        0 <= from,
    ensures
        find_from(s, pattern, from) matches Some(at) ==> {
            &&& from <= at
            &&& matches_at(s, pattern, at)
            &&& forall|j: int| from <= j < at ==> !matches_at(s, pattern, j)
        },
        find_from(s, pattern, from) is None ==> forall|j: int|
            from <= j ==> !matches_at(s, pattern, j),
    decreases s.len() + 1 - from,
{
    if from + pattern.len() <= s.len() && !matches_at(s, pattern, from) {
        lemma_find_from(s, pattern, from + 1);
    }
}

/// The first occurrence of one text in another is found exactly when there is
/// an occurrence.
pub proof fn lemma_find_contains(s: Seq<char>, pattern: Seq<char>)
    ensures
        find(s, pattern) is Some <==> contains(s, pattern),
{
    lemma_find_from(s, pattern, 0);
    if contains(s, pattern) {
        let at = choose|at: int| matches_at(s, pattern, at);
        assert(matches_at(s, pattern, at));
    }
}

/// Tells whether `pattern` stands in `s` at position `at`.
pub fn stands_at(s: &[char], pattern: &[char], at: usize) -> (b: bool)
    ensures
        b == matches_at(s@, pattern@, at as int),
{
    if at > s.len() || pattern.len() > s.len() - at {
        return false;
    }
    let n: usize = s.len();
    let mut i: usize = 0;
    while i < pattern.len()
        invariant
            n == s@.len(),
            i <= pattern@.len(),
            at + pattern@.len() <= n,
            s@.subrange(at as int, at + i) == pattern@.take(i as int),
        decreases pattern@.len() - i,
    {
        if s[at + i] != pattern[i] {
            assert(s@.subrange(at as int, at + pattern@.len())[i as int] != pattern@[i as int]);
            return false;
        }
        assert(s@.subrange(at as int, at + i + 1) =~= s@.subrange(at as int, at + i).push(
            s@[at + i],
        ));
        assert(pattern@.take(i + 1) =~= pattern@.take(i as int).push(pattern@[i as int]));
        i = i + 1;
    }
    assert(pattern@.take(i as int) =~= pattern@);
    true
}

/// Tells whether `s` begins with `pattern`.
pub fn starts_with(s: &[char], pattern: &[char]) -> (b: bool)
    ensures
        b == pattern@.is_prefix_of(s@),
{
    let b = stands_at(s, pattern, 0);
    proof {
        if pattern@.len() <= s@.len() {
            assert(s@.subrange(0, pattern@.len() as int) =~= s@.take(pattern@.len() as int));
        }
    }
    b
}

/// The first position at which `pattern` stands in `s`.
pub fn find_chars(s: &[char], pattern: &[char]) -> (r: Option<usize>)
    ensures
        match r {
            Some(at) => find(s@, pattern@) == Some(at as int),
            None => find(s@, pattern@) is None,
        },
{
    let n: usize = s.len();
    let mut at: usize = 0;
    while pattern.len() <= n - at
        invariant
            n == s@.len(),
            at <= n,
            find(s@, pattern@) == find_from(s@, pattern@, at as int),
        decreases n - at,
    {
        if stands_at(s, pattern, at) {
            return Some(at);
        }
        if at == n {
            assert(s@.subrange(n as int, n as int) =~= pattern@);
            return None;
        }
        at = at + 1;
    }
    None
}

/// Replaces every occurrence of `pattern` by `with`, from the left.
pub open spec fn replace(s: Seq<char>, pattern: Seq<char>, with: Seq<char>) -> Seq<char>
    decreases s.len(),
{
    if pattern.len() == 0 {
        s
    } else {
        match find(s, pattern) {
            Some(at) => if 0 <= at && at + pattern.len() <= s.len() {
                s.take(at) + with + replace(s.skip(at + pattern.len()), pattern, with)
            } else {
                s
            },
            None => s,
        }
    }
}

/// Appends the characters of `more`.
fn push_all(out: &mut Vec<char>, more: &[char])
    ensures
        final(out)@ == old(out)@ + more@,
{
    let ghost start = out@;
    let mut i: usize = 0;
    while i < more.len()
        invariant
            i <= more@.len(),
            out@ == start + more@.take(i as int),
        decreases more@.len() - i,
    {
        out.push(more[i]);
        i = i + 1;
        assert(out@ =~= start + more@.take(i as int));
    }
    assert(more@.take(i as int) =~= more@);
}

/// Replaces every occurrence of `pattern` by `with`, from the left.
pub fn replace_chars(s: &[char], pattern: &[char], with: &[char]) -> (r: Vec<char>)
    requires
        pattern@.len() > 0,
    ensures
        r@ == replace(s@, pattern@, with@),
{
    let n: usize = s.len();
    let mut out: Vec<char> = Vec::new();
    let mut from: usize = 0;
    assert(s@.skip(0) =~= s@);
    assert(out@ + replace(s@, pattern@, with@) =~= replace(s@, pattern@, with@));
    loop
        invariant
            n == s@.len(),
            from <= n,
            pattern@.len() > 0,
            out@ + replace(s@.skip(from as int), pattern@, with@) == replace(
                s@,
                pattern@,
                with@,
            ),
        decreases n - from,
    {
        let rest = &s[from..n];
        assert(rest@ =~= s@.skip(from as int));
        match find_chars(rest, pattern) {
            Some(at) => {
                proof {
                    lemma_find_from(rest@, pattern@, 0);
                }
                let ghost before = out@;
                push_all(&mut out, &rest[0..at]);
                push_all(&mut out, with);
                from = from + at + pattern.len();
                proof {
                    assert(rest@.subrange(0, at as int) =~= rest@.take(at as int));
                    assert(rest@.skip(at + pattern@.len()) =~= s@.skip(from as int));
                    let tail = replace(s@.skip(from as int), pattern@, with@);
                    assert(before + (rest@.take(at as int) + with@ + tail) =~= before + rest@.take(
                        at as int,
                    ) + with@ + tail);
                }
            },
            None => {
                push_all(&mut out, rest);
                return out;
            },
        }
    }
}

/// Tells whether two texts differ at most in the case of ASCII letters.
pub fn eq_ignore_ascii_case(a: &[char], b: &[char]) -> (r: bool)
    ensures
        r == same_ignoring_ascii_case(a@, b@),
{
    if a.len() != b.len() {
        assert(ascii_upper_text(a@).len() != ascii_upper_text(b@).len());
        return false;
    }
    let mut i: usize = 0;
    while i < a.len()
        invariant
            i <= a@.len(),
            a@.len() == b@.len(),
            forall|j: int| 0 <= j < i ==> ascii_upper(#[trigger] a@[j]) == ascii_upper(b@[j]),
        decreases a@.len() - i,
    {
        if upper_char(a[i]) != upper_char(b[i]) {
            assert(ascii_upper_text(a@)[i as int] != ascii_upper_text(b@)[i as int]);
            return false;
        }
        i = i + 1;
    }
    assert(ascii_upper_text(a@) =~= ascii_upper_text(b@));
    true
}

/// A text with its ASCII letters in upper case.
pub fn to_ascii_uppercase(text: &str) -> (r: String)
    ensures
        r@ == ascii_upper_text(text@),
{
    let chars = to_chars(text);
    let mut r = String::new();
    let mut i: usize = 0;
    while i < chars.len()
        invariant
            i <= chars@.len(),
            chars@ == text@,
            r@ == ascii_upper_text(text@).take(i as int),
        decreases chars@.len() - i,
    {
        r.push(upper_char(chars[i]));
        i = i + 1;
        assert(r@ =~= ascii_upper_text(text@).take(i as int));
    }
    assert(r@ =~= ascii_upper_text(text@));
    r
}

/// Tells whether two texts are the same.
pub fn same_text(a: &str, b: &str) -> (r: bool)
    ensures
        r == (a@ == b@),
{
    let left = to_chars(a);
    let right = to_chars(b);
    if left.len() != right.len() {
        return false;
    }
    let same = stands_at(left.as_slice(), right.as_slice(), 0);
    assert(left@.subrange(0, left@.len() as int) =~= left@);
    same
}

/// Once every occurrence of a text is replaced by another, none of whose
/// characters occur in it, no occurrence is left.
pub proof fn lemma_replace_removes(s: Seq<char>, pattern: Seq<char>, with: Seq<char>)
    requires
        pattern.len() > 0,
        with.len() > 0,
        forall|i: int| 0 <= i < with.len() ==> !pattern.contains(#[trigger] with[i]),
    ensures
        !contains(replace(s, pattern, with), pattern),
    decreases s.len(),
{
    lemma_find_from(s, pattern, 0);
    lemma_find_contains(s, pattern);
    if let Some(at) = find(s, pattern) {
        let rest = s.skip(at + pattern.len());
        let tail = replace(rest, pattern, with);
        let r = s.take(at) + with + tail;
        lemma_replace_removes(rest, pattern, with);
        if contains(r, pattern) {
            let k = choose|k: int| matches_at(r, pattern, k);
            let w = r.subrange(k, k + pattern.len());
            if k + pattern.len() <= at {
                assert(s.subrange(k, k + pattern.len()) =~= w);
                assert(matches_at(s, pattern, k));
                assert(false);
            } else if k >= at + with.len() {
                let j = k - at - with.len();
                assert(tail.subrange(j, j + pattern.len()) =~= w);
                assert(matches_at(tail, pattern, j));
                assert(false);
            } else {
                // One character of `with` lies inside the occurrence.
                let p = if k <= at {
                    at
                } else {
                    k
                };
                assert(r[p] == with[p - at]);
                assert(w[p - k] == r[p]);
                assert(pattern[p - k] == with[p - at]);
                assert(pattern.contains(with[p - at]));
                assert(false);
            }
        }
    }
}

/// `tail` stands at the end of `s`.
pub open spec fn ends_with(s: Seq<char>, tail: Seq<char>) -> bool {
    s.len() >= tail.len() && s.skip(s.len() - tail.len()) == tail
}

/// `head` stands at the beginning of `s`.
pub open spec fn begins_with(s: Seq<char>, head: Seq<char>) -> bool {
    s.len() >= head.len() && s.take(head.len() as int) == head
}

/// A text ends with what was appended to it, and begins with what it was
/// appended to.
pub proof fn lemma_ends_with(head: Seq<char>, tail: Seq<char>)
    ensures
        ends_with(head + tail, tail),
        begins_with(head + tail, head),
{
    assert((head + tail).skip(head.len() as int) =~= tail);
    assert((head + tail).take(head.len() as int) =~= head);
}

// ---------------------------------------------------------------------------
// Laws
// ---------------------------------------------------------------------------

/// `s` holds nothing but white space.
pub open spec fn is_blank(s: Seq<char>) -> bool {
    forall|i: int| 0 <= i < s.len() ==> is_white_space(#[trigger] s[i])
}

/// Trimming takes white space off both sides, as much as there is, and nothing
/// else.
pub proof fn law_trim_takes_outer_space(s: Seq<char>)
    ensures
        exists|before: Seq<char>, behind: Seq<char>|
            is_blank(before) && is_blank(behind) && s == #[trigger] (before + trim(s) + behind),
        trim(s).len() > 0 ==> !is_white_space(trim(s)[0]) && !is_white_space(trim(s).last()),
        trim(s).len() == 0 <==> is_blank(s),
        trim(trim(s)) == trim(s),
{
    let rest = trim_start(s);
    let before = lemma_trim_start(s);
    let behind = lemma_trim_end(rest);
    assert(s =~= before + trim(s) + behind);
    if trim(s).len() > 0 {
        assert(trim(s)[0] == rest[0]);
        lemma_trim_keeps(trim(s));
        let at = before.len() as int;
        assert(s[at] == trim(s)[0]);
    } else {
        assert forall|i: int| 0 <= i < s.len() implies is_white_space(#[trigger] s[i]) by {
            if i < before.len() {
                assert(s[i] == before[i]);
            } else {
                assert(s[i] == behind[i - before.len()]);
            }
        }
        assert(trim(s) =~= Seq::empty());
    }
}

/// White space around a text is taken off, whatever the text is.
pub proof fn law_outer_space_changes_nothing(before: Seq<char>, s: Seq<char>, behind: Seq<char>)
    requires
        is_blank(before),
        is_blank(behind),
    ensures
        trim(before + s + behind) == trim(s),
    decreases before.len() + behind.len(),
{
    let text = before + s + behind;
    if before.len() > 0 {
        assert(text[0] == before[0]);
        assert(text.drop_first() =~= before.drop_first() + s + behind);
        assert forall|i: int| 0 <= i < before.drop_first().len() implies is_white_space(
            #[trigger] before.drop_first()[i],
        ) by {
            assert(before.drop_first()[i] == before[i + 1]);
        }
        law_outer_space_changes_nothing(before.drop_first(), s, behind);
    } else if behind.len() > 0 {
        assert(text =~= (s + behind.drop_last()).push(behind.last()));
        assert(is_blank(behind.drop_last())) by {
            assert forall|i: int| 0 <= i < behind.drop_last().len() implies is_white_space(
                #[trigger] behind.drop_last()[i],
            ) by {
                assert(behind.drop_last()[i] == behind[i]);
            }
        }
        lemma_trim_push(s + behind.drop_last(), behind.last());
        law_outer_space_changes_nothing(before, s, behind.drop_last());
        assert(before + s + behind.drop_last() =~= s + behind.drop_last());
    } else {
        assert(text =~= s);
    }
}

proof fn lemma_trim_start(s: Seq<char>) -> (before: Seq<char>)
    ensures
        is_blank(before),
        s == before + trim_start(s),
        trim_start(s).len() > 0 ==> !is_white_space(trim_start(s)[0]),
    decreases s.len(),
{
    if s.len() > 0 && is_white_space(s[0]) {
        let rest = lemma_trim_start(s.drop_first());
        let before = seq![s[0]] + rest;
        assert(s.drop_first() == rest + trim_start(s));
        assert(s =~= seq![s[0]] + s.drop_first());
        assert(seq![s[0]] + (rest + trim_start(s)) =~= before + trim_start(s));
        assert forall|i: int| 0 <= i < before.len() implies is_white_space(
            #[trigger] before[i],
        ) by {
            if i > 0 {
                assert(before[i] == rest[i - 1]);
            }
        }
        before
    } else {
        assert(s =~= Seq::<char>::empty() + s);
        Seq::empty()
    }
}

proof fn lemma_trim_end(s: Seq<char>) -> (behind: Seq<char>)
    ensures
        is_blank(behind),
        s == trim_end(s) + behind,
        trim_end(s).len() > 0 ==> !is_white_space(trim_end(s).last()),
    decreases s.len(),
{
    if s.len() > 0 && is_white_space(s.last()) {
        let rest = lemma_trim_end(s.drop_last());
        let behind = rest.push(s.last());
        assert(s.drop_last() == trim_end(s) + rest);
        assert(s =~= s.drop_last().push(s.last()));
        assert((trim_end(s) + rest).push(s.last()) =~= trim_end(s) + behind);
        behind
    } else {
        assert(s =~= s + Seq::<char>::empty());
        Seq::empty()
    }
}

proof fn lemma_trim_push(s: Seq<char>, c: char)
    requires
        is_white_space(c),
    ensures
        trim(s.push(c)) == trim(s),
    decreases s.len(),
{
    if s.len() > 0 && is_white_space(s[0]) {
        assert(s.push(c).drop_first() =~= s.drop_first().push(c));
        lemma_trim_push(s.drop_first(), c);
    } else if s.len() > 0 {
        assert(s.push(c)[0] == s[0]);
        assert(s.push(c).drop_last() =~= s);
    } else {
        assert(s.push(c).drop_first() =~= Seq::empty());
        assert(s =~= Seq::empty());
    }
}

/// The number that digits make.
pub open spec fn number_in(digits: Seq<char>) -> int
    decreases digits.len(),
{
    if digits.len() == 0 {
        0
    } else {
        10 * number_in(digits.drop_last()) + (digits.last() as int - '0' as int)
    }
}

/// A number in decimal is made of the digits `0` to `9`, makes that number, and
/// begins with `0` only if it is zero. A minus stands in front of a negative one.
pub proof fn law_decimal_spells_the_number(n: nat)
    ensures
        decimal(n).len() > 0,
        forall|i: int|
            0 <= i < decimal(n).len() ==> '0' as int <= #[trigger] decimal(n)[i] as int
                <= '9' as int,
        number_in(decimal(n)) == n,
        n > 0 ==> decimal(n)[0] != '0',
        signed_decimal(n as int) == decimal(n),
        n > 0 ==> signed_decimal(-n) == seq!['-'] + decimal(n),
    decreases n,
{
    if n < 10 {
        assert(decimal(n).drop_last() =~= Seq::empty());
        reveal_with_fuel(number_in, 2);
    } else {
        law_decimal_spells_the_number(n / 10);
        assert(decimal(n).drop_last() =~= decimal(n / 10));
    }
}

/// What is visible in ASCII is no white space, and the blank, the tabs, and what
/// ends a line or a page are. Beyond ASCII white space is what Unicode says.
pub proof fn law_white_space_is_that_of_unicode(c: char)
    ensures
        0x21 <= c as int <= 0x7e ==> !is_white_space(c),
        c == ' ' || c == '\t' || c == '\n' || c == '\r' || c as int == 0x0b || c as int == 0x0c
            ==> is_white_space(c),
        c as int <= 0x08 || 0x0e <= c as int <= 0x1f ==> !is_white_space(c),
        is_white_space(c) && c as int > 0x7e ==> c as int == 0x85 || c as int == 0xa0 || c as int
            == 0x1680 || 0x2000 <= c as int <= 0x200a || c as int == 0x2028 || c as int == 0x2029
            || c as int == 0x202f || c as int == 0x205f || c as int == 0x3000,
        c as int == 0x85 || c as int == 0xa0 || c as int == 0x1680 || 0x2000 <= c as int <= 0x200a
            || c as int == 0x2028 || c as int == 0x2029 || c as int == 0x202f || c as int == 0x205f
            || c as int == 0x3000 ==> is_white_space(c),
{
}

/// Only small ASCII letters change in upper case, each to the letter of the same
/// place in the alphabet.
pub proof fn law_upper_case_changes_small_letters(s: Seq<char>, i: int)
    requires
        0 <= i < s.len(),
    ensures
        ascii_upper_text(s).len() == s.len(),
        'a' as int <= s[i] as int <= 'z' as int ==> ascii_upper_text(s)[i] as int - 'A' as int
            == s[i] as int - 'a' as int,
        !('a' as int <= s[i] as int <= 'z' as int) ==> ascii_upper_text(s)[i] == s[i],
{
}

/// Replacing leaves a text as it is in which the pattern does not stand. Else
/// what stands before the first occurrence is kept, the occurrence is replaced,
/// and it goes on behind it.
pub proof fn law_replacing_goes_from_left(
    s: Seq<char>,
    pattern: Seq<char>,
    with: Seq<char>,
    at: int,
)
    requires
        pattern.len() > 0,
    ensures
        !contains(s, pattern) ==> replace(s, pattern, with) == s,
        matches_at(s, pattern, at) && (forall|j: int| 0 <= j < at ==> !matches_at(s, pattern, j))
            ==> replace(s, pattern, with) == s.take(at) + with + replace(
            s.skip(at + pattern.len()),
            pattern,
            with,
        ),
{
    lemma_find_contains(s, pattern);
    lemma_find_from(s, pattern, 0);
}

}
