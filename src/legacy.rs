//! Helpers for the older `X-Forwarded-*` headers.
use vstd::prelude::*;
use crate::forwarded::{skip_white_space, skip_white_space_exec};
use crate::text::{chars_of, is_white_space, is_white_space_exec, push_char, string_of};

verus! {

/// Splitting `s` on commas, read from the left: the finished pieces and the
/// piece still open.
pub open spec fn split_state(s: Seq<char>) -> (Seq<Seq<char>>, Seq<char>)
    decreases s.len(),
{
    if s.len() == 0 {
        (seq![], seq![])
    } else {
        let (done, cur) = split_state(s.drop_last());
        if s.last() == ',' {
            (done.push(cur), seq![])
        } else {
            (done, cur.push(s.last()))
        }
    }
}

/// The pieces of `s` between commas; one more than `s` has commas.
pub open spec fn split_on_commas(s: Seq<char>) -> Seq<Seq<char>> {
    split_state(s).0.push(split_state(s).1)
}

/// The end of `s` up to `j` once white space is taken off its end, but not
/// below `lo`.
pub open spec fn trailing_end(s: Seq<char>, lo: int, j: int) -> int
    decreases j - lo,
{
    if lo < j && j <= s.len() && is_white_space(s[j - 1]) {
        trailing_end(s, lo, j - 1)
    } else {
        j
    }
}

/// `s` without white space at either end.
pub open spec fn trimmed(s: Seq<char>) -> Seq<char> {
    let a = skip_white_space(s, 0);
    s.subrange(a, trailing_end(s, a, s.len() as int))
}

/// The characters of `cs` without white space at either end.
fn trim_chars(cs: &Vec<char>) -> (r: String)
    ensures
        r@ == trimmed(cs@),
{
    let a = skip_white_space_exec(cs, 0);
    let mut b = cs.len();
    while b > a && is_white_space_exec(cs[b - 1])
        invariant
            a <= b <= cs.len(),
            trailing_end(cs@, a as int, b as int) == trailing_end(cs@, a as int, cs@.len() as int),
        decreases b - a,
    {
        b -= 1;
    }
    string_of(cs, a, b)
}

/// Splits an `X-Forwarded-For` list on commas and trims each piece.
pub fn split_forwarded_for(list: &str) -> (r: Vec<String>)
    ensures
        r@.map_values(|s: String| s@) == split_on_commas(list@).map_values(
            |t: Seq<char>| trimmed(t),
        ),
{
    let cs = chars_of(list);
    let mut out: Vec<String> = Vec::new();
    let mut cur: Vec<char> = Vec::new();
    let mut i: usize = 0;
    while i < cs.len()
        invariant
            i <= cs.len(),
            cs@ == list@,
            out@.map_values(|s: String| s@) == split_state(cs@.take(i as int)).0.map_values(
                |t: Seq<char>| trimmed(t),
            ),
            cur@ == split_state(cs@.take(i as int)).1,
        decreases cs.len() - i,
    {
        let c = cs[i];
        let ghost prev = split_state(cs@.take(i as int));
        assert(cs@.take(i + 1).drop_last() =~= cs@.take(i as int));
        if c == ',' {
            let piece = trim_chars(&cur);
            let ghost before = out@;
            out.push(piece);
            assert(out@.map_values(|s: String| s@) =~= before.map_values(|s: String| s@).push(
                piece@,
            ));
            assert(prev.0.push(prev.1).map_values(|t: Seq<char>| trimmed(t)) =~= prev.0.map_values(
                |t: Seq<char>| trimmed(t),
            ).push(trimmed(prev.1)));
            cur = Vec::new();
        } else {
            cur.push(c);
        }
        i += 1;
    }
    let last = trim_chars(&cur);
    let ghost before = out@;
    out.push(last);
    assert(cs@.take(i as int) =~= list@);
    let ghost st = split_state(list@);
    assert(out@.map_values(|s: String| s@) =~= before.map_values(|s: String| s@).push(last@));
    assert(st.0.push(st.1).map_values(|t: Seq<char>| trimmed(t)) =~= st.0.map_values(
        |t: Seq<char>| trimmed(t),
    ).push(trimmed(st.1)));
    out
}

/// An IPv6 address written the way a `for=` value holds it: in brackets.
pub fn bracket_ipv6(address: &str) -> (r: String)
    ensures
        r@ == seq!['['] + address@ + seq![']'],
{
    let mut r = String::new();
    push_char(&mut r, '[');
    r.append(address);
    push_char(&mut r, ']');
    assert(r@ =~= seq!['['] + address@ + seq![']']);
    r
}

} // verus!
