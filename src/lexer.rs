//! The value lexer: a field value is a token or a quoted string.
use vstd::prelude::*;
use crate::text::{is_tchar, is_tchar_exec, push_char, string_of};

verus! {

/// The end of the longest run of token characters in `s` starting at `i`.
pub open spec fn token_end(s: Seq<char>, i: int) -> int
    decreases s.len() - i,
{
    if 0 <= i < s.len() && is_tchar(s[i]) {
        token_end(s, i + 1)
    } else {
        i
    }
}

/// Reads the body of a quoted string from `i` on, just after its opening
/// quote, where `acc` holds what has been read so far: the position after
/// the closing quote and the body with each `\X` read as `X`; `None` where
/// the input ends first.
pub open spec fn quoted_from(s: Seq<char>, i: int, acc: Seq<char>) -> Option<(int, Seq<char>)>
    decreases s.len() - i,
{
    if i < 0 || i >= s.len() {
        None
    } else if s[i] == '"' {
        Some((i + 1, acc))
    } else if s[i] == '\\' {
        if i + 1 < s.len() {
            quoted_from(s, i + 2, acc.push(s[i + 1]))
        } else {
            None
        }
    } else {
        quoted_from(s, i + 1, acc.push(s[i]))
    }
}

/// The value that starts at `i`: a non-empty token, or else a quoted string;
/// with the position after it.
pub open spec fn value_at(s: Seq<char>, i: int) -> Option<(int, Seq<char>)> {
    let e = token_end(s, i);
    if e > i {
        Some((e, s.subrange(i, e)))
    } else if 0 <= i < s.len() && s[i] == '"' {
        quoted_from(s, i + 1, seq![])
    } else {
        None
    }
}

/// A token ends within the input and holds token characters only.
pub proof fn lemma_token_end_bounds(s: Seq<char>, i: int)
    requires
        0 <= i <= s.len(),
    ensures
        i <= token_end(s, i) <= s.len(),
        forall|k: int| i <= k < token_end(s, i) ==> is_tchar(#[trigger] s[k]),
    decreases s.len() - i,
{
    if i < s.len() && is_tchar(s[i]) {
        lemma_token_end_bounds(s, i + 1);
    }
}

/// A quoted string that reads ends after where it starts, within the input.
pub proof fn lemma_quoted_from_bounds(s: Seq<char>, i: int, acc: Seq<char>)
    ensures
        quoted_from(s, i, acc) matches Some((e, _)) ==> i < e <= s.len(),
    decreases s.len() - i,
{
    if 0 <= i < s.len() && s[i] != '"' {
        if s[i] == '\\' {
            if i + 1 < s.len() {
                lemma_quoted_from_bounds(s, i + 2, acc.push(s[i + 1]));
            }
        } else {
            lemma_quoted_from_bounds(s, i + 1, acc.push(s[i]));
        }
    }
}

/// A value that reads consumes at least one character.
pub proof fn lemma_value_at_bounds(s: Seq<char>, i: int)
    requires
        0 <= i <= s.len(),
    ensures
        value_at(s, i) matches Some((e, _)) ==> i < e <= s.len(),
{
    lemma_token_end_bounds(s, i);
    lemma_quoted_from_bounds(s, i + 1, seq![]);
}

/// The end of the token that starts at `start`; `start` itself where no
/// token character stands there.
pub fn parse_token(input: &Vec<char>, start: usize) -> (end: usize)
    requires
        start <= input.len(),
    ensures
        end == token_end(input@, start as int),
        start <= end <= input.len(),
{
    let mut i = start;
    while i < input.len() && is_tchar_exec(input[i])
        invariant
            start <= i <= input.len(),
            token_end(input@, i as int) == token_end(input@, start as int),
        decreases input.len() - i,
    {
        i += 1;
    }
    i
}

/// Reads the quoted string whose opening quote stands at `start`: the
/// position after its closing quote and its unescaped body.
pub fn parse_quoted_string(input: &Vec<char>, start: usize) -> (r: Option<(usize, String)>)
    requires
        start < input.len(),
    ensures
        match r {
            Some((e, v)) => quoted_from(input@, start + 1, seq![]) == Some((e as int, v@)),
            None => quoted_from(input@, start + 1, seq![]) is None,
        },
{
    let mut acc = String::new();
    let mut i = start + 1;
    loop
        invariant
            start < i,
            quoted_from(input@, i as int, acc@) == quoted_from(input@, start + 1, seq![]),
        decreases input.len() - i,
    {
        if i >= input.len() {
            return None;
        }
        let c = input[i];
        if c == '"' {
            return Some((i + 1, acc));
        } else if c == '\\' {
            if i + 1 < input.len() {
                push_char(&mut acc, input[i + 1]);
                i += 2;
            } else {
                return None;
            }
        } else {
            push_char(&mut acc, c);
            i += 1;
        }
    }
}

/// Reads the value that starts at `start`: a token, or else a quoted string.
/// Gives the value and the position after it, or `None` where neither
/// stands there.
pub fn parse_value(input: &Vec<char>, start: usize) -> (r: Option<(usize, String)>)
    requires
        start <= input.len(),
    ensures
        match r {
            Some((e, v)) => value_at(input@, start as int) == Some((e as int, v@)),
            None => value_at(input@, start as int) is None,
        },
{
    let end = parse_token(input, start);
    if end > start {
        Some((end, string_of(input, start, end)))
    } else if start < input.len() && input[start] == '"' {
        parse_quoted_string(input, start)
    } else {
        None
    }
}

} // verus!
