//! Character-level helpers shared by the lexer, the parser and the serializer.
use vstd::prelude::*;

verus! {

/// A character of the HTTP `token` grammar: visible ASCII other than the
/// delimiters `"(),/:;<=>?@[\]{}`.
pub open spec fn is_tchar(c: char) -> bool {
    ('a' <= c && c <= 'z') || ('A' <= c && c <= 'Z') || ('0' <= c && c <= '9') || c == '!'
        || c == '#' || c == '$' || c == '%' || c == '&' || c == '\'' || c == '*' || c == '+'
        || c == '-' || c == '.' || c == '^' || c == '_' || c == '`' || c == '|' || c == '~'
}

/// Whether every character of `s` belongs to the token grammar.
pub open spec fn all_tchars(s: Seq<char>) -> bool {
    forall|k: int| 0 <= k < s.len() ==> is_tchar(#[trigger] s[k])
}

/// The characters with the Unicode `White_Space` property.
pub open spec fn is_white_space(c: char) -> bool {
    let u = c as u32;
    (0x9 <= u && u <= 0xD) || u == 0x20 || u == 0x85 || u == 0xA0 || u == 0x1680 || (0x2000 <= u
        && u <= 0x200A) || u == 0x2028 || u == 0x2029 || u == 0x202F || u == 0x205F || u == 0x3000
}

/// The code of `c` with ASCII upper case letters taken to lower case.
pub open spec fn ascii_lower(c: char) -> u32 {
    let u = c as u32;
    if 0x41 <= u && u <= 0x5A {
        (u + 32) as u32
    } else {
        u
    }
}

/// Whether `pat` occurs in `s` at position `i`, ignoring ASCII case.
pub open spec fn matches_ignore_case_at(pat: Seq<char>, s: Seq<char>, i: int) -> bool {
    0 <= i && i + pat.len() <= s.len() && forall|k: int|
        0 <= k < pat.len() ==> ascii_lower(#[trigger] s[i + k]) == ascii_lower(pat[k])
}

/// Whether `c` belongs to the token grammar.
pub fn is_tchar_exec(c: char) -> (r: bool)
    ensures
        r == is_tchar(c),
{
    ('a' <= c && c <= 'z') || ('A' <= c && c <= 'Z') || ('0' <= c && c <= '9') || c == '!'
        || c == '#' || c == '$' || c == '%' || c == '&' || c == '\'' || c == '*' || c == '+'
        || c == '-' || c == '.' || c == '^' || c == '_' || c == '`' || c == '|' || c == '~'
}

/// Whether `c` is white space in the sense of `char::is_whitespace`.
pub fn is_white_space_exec(c: char) -> (r: bool)
    ensures
        r == is_white_space(c),
{
    let u = c as u32;
    (0x9 <= u && u <= 0xD) || u == 0x20 || u == 0x85 || u == 0xA0 || u == 0x1680 || (0x2000 <= u
        && u <= 0x200A) || u == 0x2028 || u == 0x2029 || u == 0x202F || u == 0x205F || u == 0x3000
}

fn ascii_lower_exec(c: char) -> (r: u32)
    ensures
        r == ascii_lower(c),
{
    let u = c as u32;
    if 0x41 <= u && u <= 0x5A {
        u + 32
    } else {
        u
    }
}

/// Relies on `String::push`: the character is appended at the end.
#[verifier::external_body]
pub(crate) fn push_char(s: &mut String, c: char)
    ensures
        final(s)@ == old(s)@.push(c),
{
    s.push(c)
}

/// The characters of `s`, in order.
pub fn chars_of(s: &str) -> (r: Vec<char>)
    ensures
        r@ == s@,
{
    let mut r: Vec<char> = Vec::new();
    for c in it: s.chars()
        invariant
            r@ == it.seq().take(it.index() as int),
            it.seq() == s@,
    {
        r.push(c);
    }
    assert(r@ =~= s@);
    r
}

/// The characters of `s` from `from` up to `to`, as a string.
pub fn string_of(s: &Vec<char>, from: usize, to: usize) -> (r: String)
    requires
        from <= to <= s.len(),
    ensures
        r@ == s@.subrange(from as int, to as int),
{
    let mut r = String::new();
    let mut i = from;
    while i < to
        invariant
            from <= i <= to <= s.len(),
            r@ == s@.subrange(from as int, i as int),
        decreases to - i,
    {
        push_char(&mut r, s[i]);
        i += 1;
        assert(r@ =~= s@.subrange(from as int, i as int));
    }
    r
}

/// Whether the characters of `start` occur in `input` at position `at`,
/// ignoring ASCII case; false where `input` ends first.
pub fn starts_with_ignore_case(start: &str, input: &Vec<char>, at: usize) -> (r: bool)
    ensures
        r == matches_ignore_case_at(start@, input@, at as int),
{
    let n = start.unicode_len();
    if n > input.len() || at > input.len() - n {
        return false;
    }
    let mut k: usize = 0;
    while k < n
        invariant
            n == start@.len(),
            at + n <= input.len(),
            k <= n,
            forall|j: int|
                0 <= j < k ==> ascii_lower(#[trigger] input@[at + j]) == ascii_lower(start@[j]),
        decreases n - k,
    {
        if ascii_lower_exec(input[at + k]) != ascii_lower_exec(start.get_char(k)) {
            return false;
        }
        k += 1;
    }
    true
}

/// Where `start` occurs in `input` at `at`, ignoring ASCII case: the position
/// just after it, and `true`; otherwise `at` unchanged, and `false`.
pub fn match_ignore_case(start: &str, input: &Vec<char>, at: usize) -> (r: (bool, usize))
    ensures
        r.0 == matches_ignore_case_at(start@, input@, at as int),
        r.0 ==> r.1 == at + start@.len(),
        !r.0 ==> r.1 == at,
{
    if starts_with_ignore_case(start, input, at) {
        let n = start.unicode_len();
        let l = input.len();
        assert(at + n <= l);
        (true, at + n)
    } else {
        (false, at)
    }
}

} // verus!
