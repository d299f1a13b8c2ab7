//! Writing a model and reading it back gives the same model.
use vstd::prelude::*;
use crate::forwarded::{
    empty_view, escaped, escaped_char, field_part, for_entries, for_run, formatted_value,
    pair_at, pairs_from, parse_spec, serialize_spec, skip_white_space, with_for, ForwardedView,
};
use crate::lexer::{quoted_from, token_end, value_at};
use crate::text::{all_tchars, is_tchar, is_white_space, matches_ignore_case_at};

verus! {

/// The opening of a `for` pair and the separator between two of them.
proof fn lemma_for_literals()
    ensures
        "for="@ == seq!['f', 'o', 'r', '='],
        ", "@ == seq![',', ' '],
{
    reveal_strlit("for=");
    reveal_strlit(", ");
    assert("for="@ =~= seq!['f', 'o', 'r', '=']);
    assert(", "@ =~= seq![',', ' ']);
}

/// The keys of the stored pairs, and the `;` that ends a pair.
proof fn lemma_key_literals()
    ensures
        "by"@ == seq!['b', 'y'],
        "host"@ == seq!['h', 'o', 's', 't'],
        "proto"@ == seq!['p', 'r', 'o', 't', 'o'],
        "by="@ == "by"@ + seq!['='],
        "host="@ == "host"@ + seq!['='],
        "proto="@ == "proto"@ + seq!['='],
        ";"@ == seq![';'],
{
    reveal_strlit("by=");
    reveal_strlit("host=");
    reveal_strlit("proto=");
    reveal_strlit("by");
    reveal_strlit("host");
    reveal_strlit("proto");
    reveal_strlit(";");
    assert("by"@ =~= seq!['b', 'y']);
    assert("host"@ =~= seq!['h', 'o', 's', 't']);
    assert("proto"@ =~= seq!['p', 'r', 'o', 't', 'o']);
    assert("by="@ =~= "by"@ + seq!['=']);
    assert("host="@ =~= "host"@ + seq!['=']);
    assert("proto="@ =~= "proto"@ + seq!['=']);
    assert(";"@ =~= seq![';']);
}

/// A run of `n` token characters at `i`, followed by a character outside the
/// token grammar or by the end, is one token.
proof fn lemma_token_end_at(s: Seq<char>, i: int, n: int)
    requires
        0 <= i,
        0 <= n,
        i + n <= s.len(),
        forall|k: int| i <= k < i + n ==> is_tchar(#[trigger] s[k]),
        i + n == s.len() || !is_tchar(s[i + n]),
    ensures
        token_end(s, i) == i + n,
    decreases n,
{
    if n > 0 {
        lemma_token_end_at(s, i + 1, n - 1);
    }
}

/// An escaped body followed by a quote reads back as the body.
proof fn lemma_quoted_from_escaped(s: Seq<char>, i: int, v: Seq<char>, acc: Seq<char>)
    requires
        0 <= i,
        i + escaped(v).len() < s.len(),
        s.subrange(i, i + escaped(v).len()) == escaped(v),
        s[i + escaped(v).len()] == '"',
    ensures
        quoted_from(s, i, acc) == Some((i + escaped(v).len() + 1, acc + v)),
    decreases v.len(),
{
    if v.len() == 0 {
        assert(acc + v =~= acc);
    } else {
        let c = v[0];
        let rest = v.drop_first();
        let ec = escaped_char(c);
        assert(escaped(v) == ec + escaped(rest));
        assert(s[i] == s.subrange(i, i + escaped(v).len())[0]);
        let j = i + ec.len();
        assert(s.subrange(j, j + escaped(rest).len()) =~= escaped(rest)) by {
            assert forall|k: int| 0 <= k < escaped(rest).len() implies s[j + k] == escaped(
                rest,
            )[k] by {
                assert(s[j + k] == s.subrange(i, i + escaped(v).len())[ec.len() + k]);
            }
        }
        if c == '"' || c == '\\' {
            assert(s[i + 1] == s.subrange(i, i + escaped(v).len())[1]);
        }
        lemma_quoted_from_escaped(s, j, rest, acc.push(c));
        assert(acc.push(c) + rest =~= acc + v);
    }
}

/// A written value, followed by a character outside the token grammar or by
/// the end, reads back as the value.
proof fn lemma_value_at_formatted(s: Seq<char>, i: int, v: Seq<char>)
    requires
        0 <= i,
        i + formatted_value(v).len() <= s.len(),
        s.subrange(i, i + formatted_value(v).len()) == formatted_value(v),
        i + formatted_value(v).len() == s.len() || !is_tchar(s[i + formatted_value(v).len()]),
    ensures
        value_at(s, i) == Some((i + formatted_value(v).len(), v)),
{
    let f = formatted_value(v);
    if v.len() > 0 && all_tchars(v) {
        assert forall|k: int| i <= k < i + v.len() implies is_tchar(#[trigger] s[k]) by {
            assert(s[k] == s.subrange(i, i + f.len())[k - i]);
        }
        lemma_token_end_at(s, i, v.len() as int);
    } else {
        let e = escaped(v);
        assert(f == seq!['"'] + e + seq!['"']);
        assert(s[i] == s.subrange(i, i + f.len())[0]);
        assert(token_end(s, i) == i);
        assert(s.subrange(i + 1, i + 1 + e.len()) =~= e) by {
            assert forall|k: int| 0 <= k < e.len() implies s[i + 1 + k] == e[k] by {
                assert(s[i + 1 + k] == s.subrange(i, i + f.len())[1 + k]);
            }
        }
        assert(s[i + 1 + e.len()] == s.subrange(i, i + f.len())[1 + e.len() as int]);
        lemma_quoted_from_escaped(s, i + 1, v, seq![]);
        assert(seq![] + v =~= v);
    }
}

/// Where `s` holds `x + y` from `a` to `b`, it holds `x` from `a` and `y` after it.
proof fn lemma_split_sub(s: Seq<char>, a: int, b: int, x: Seq<char>, y: Seq<char>)
    requires
        0 <= a <= b <= s.len(),
        s.subrange(a, b) == x + y,
    ensures
        s.subrange(a, a + x.len()) == x,
        s.subrange(a + x.len(), b) == y,
{
    assert(s.subrange(a, b).len() == b - a);
    assert((x + y).len() == x.len() + y.len());
    assert(s.subrange(a, a + x.len()) =~= x) by {
        assert forall|k: int| 0 <= k < x.len() implies s[a + k] == x[k] by {
            assert(s[a + k] == s.subrange(a, b)[k]);
            assert((x + y)[k] == x[k]);
        }
    }
    assert(s.subrange(a + x.len(), b) =~= y) by {
        assert forall|k: int| 0 <= k < y.len() implies s[a + x.len() + k] == y[k] by {
            assert(s[a + x.len() + k] == s.subrange(a, b)[x.len() + k]);
            assert((x + y)[x.len() + k] == y[k]);
        }
    }
}

/// `m` with the values `fs` appended to its `for` values.
pub open spec fn with_fors(m: ForwardedView, fs: Seq<Seq<char>>) -> ForwardedView {
    ForwardedView { by: m.by, forwarded_for: m.forwarded_for + fs, host: m.host, proto: m.proto }
}

/// A written run of `for` pairs, ended by `;` or by the end, reads back as
/// its values.
proof fn lemma_for_run_entries(s: Seq<char>, i: int, m: ForwardedView, fs: Seq<Seq<char>>)
    requires
        fs.len() > 0,
        0 <= i,
        i + for_entries(fs).len() <= s.len(),
        s.subrange(i, i + for_entries(fs).len()) == for_entries(fs),
        i + for_entries(fs).len() == s.len() || s[i + for_entries(fs).len()] == ';',
    ensures
        for_run(s, i, m) == Ok::<(ForwardedView, int), Seq<char>>(
            (
                with_fors(m, fs),
                if i + for_entries(fs).len() == s.len() {
                    i + for_entries(fs).len()
                } else {
                    i + for_entries(fs).len() + 1
                },
            ),
        ),
    decreases fs.len(),
{
    lemma_for_literals();
    let e = i + for_entries(fs).len();
    let f0 = formatted_value(fs[0]);
    let head = "for="@ + f0;
    let m2 = with_for(m, fs[0]);
    if fs.len() == 1 {
        assert(for_entries(fs) == head);
        lemma_split_sub(s, i, e, "for="@, f0);
    } else {
        let tail = for_entries(fs.drop_first());
        assert(for_entries(fs) == head + ", "@ + tail);
        assert(head + ", "@ + tail =~= "for="@ + (f0 + (", "@ + tail)));
        lemma_split_sub(s, i, e, "for="@, f0 + (", "@ + tail));
        lemma_split_sub(s, i + 4, e, f0, ", "@ + tail);
        lemma_split_sub(s, i + 4 + f0.len(), e, ", "@, tail);
    }
    assert(s.subrange(i, i + 4) == "for="@);
    assert(matches_ignore_case_at("for="@, s, i)) by {
        assert forall|k: int| 0 <= k < 4 implies s[i + k] == "for="@[k] by {
            assert(s[i + k] == s.subrange(i, i + 4)[k]);
        }
    }
    let j = i + 4 + f0.len();
    if fs.len() > 1 {
        assert(s[j] == s.subrange(j, j + 2)[0]);
        assert(s[j + 1] == s.subrange(j, j + 2)[1]);
    }
    lemma_value_at_formatted(s, i + 4, fs[0]);
    if fs.len() == 1 {
        assert(with_fors(m, fs) == m2) by {
            assert(m.forwarded_for + fs =~= m.forwarded_for.push(fs[0]));
        }
    } else {
        let rest = fs.drop_first();
        let tail = for_entries(rest);
        assert(skip_white_space(s, j + 2) == j + 2) by {
            assert(s[j + 2] == s.subrange(j + 2, e)[0]);
            assert(tail[0] == 'f');
        }
        assert(skip_white_space(s, j + 1) == j + 2);
        lemma_for_run_entries(s, j + 2, m2, rest);
        assert(with_fors(m2, rest) == with_fors(m, fs)) by {
            assert(m.forwarded_for.push(fs[0]) + rest =~= m.forwarded_for + fs);
        }
    }
}

/// The field that the key `w` names.
pub open spec fn field_of(m: ForwardedView, w: Seq<char>) -> Option<Seq<char>> {
    if w == "by"@ {
        m.by
    } else if w == "host"@ {
        m.host
    } else {
        m.proto
    }
}

/// `m` with the field that the key `w` names set to `v`.
pub open spec fn set_field(m: ForwardedView, w: Seq<char>, v: Seq<char>) -> ForwardedView {
    if w == "by"@ {
        ForwardedView { by: Some(v), ..m }
    } else if w == "host"@ {
        ForwardedView { host: Some(v), ..m }
    } else {
        ForwardedView { proto: Some(v), ..m }
    }
}

/// A written `by`, `host` or `proto` pair, ended by `;` or by the end, reads
/// back into its field.
proof fn lemma_pair_at_field(s: Seq<char>, i: int, w: Seq<char>, v: Seq<char>, m: ForwardedView)
    requires
        w == "by"@ || w == "host"@ || w == "proto"@,
        field_of(m, w) is None,
        0 <= i,
        i + w.len() + 1 + formatted_value(v).len() <= s.len(),
        s.subrange(i, i + w.len() + 1 + formatted_value(v).len()) == w + seq!['='] + formatted_value(v),
        i + w.len() + 1 + formatted_value(v).len() == s.len() || s[i + w.len() + 1
            + formatted_value(v).len()] == ';',
    ensures
        pair_at(s, i, m) == Ok::<(ForwardedView, int), Seq<char>>(
            (
                set_field(m, w, v),
                if i + w.len() + 1 + formatted_value(v).len() == s.len() {
                    i + w.len() + 1 + formatted_value(v).len()
                } else {
                    i + w.len() + 1 + formatted_value(v).len() + 1
                },
            ),
        ),
{
    reveal(pair_at);
    lemma_key_literals();
    let f = formatted_value(v);
    let k = i + w.len();
    let e = k + 1 + f.len();
    assert(w + seq!['='] + f =~= w + (seq!['='] + f));
    lemma_split_sub(s, i, e, w, seq!['='] + f);
    lemma_split_sub(s, k, e, seq!['='], f);
    assert(s[k] == s.subrange(k, k + 1)[0]);
    assert forall|j: int| i <= j < k implies is_tchar(#[trigger] s[j]) by {
        assert(s[j] == s.subrange(i, k)[j - i]);
    }
    lemma_token_end_at(s, i, w.len() as int);
    lemma_value_at_formatted(s, k + 1, v);
}

/// The models that survive being written and read back. A model with
/// `for` values and a `by` is written with `by` first, and a pair list
/// reads `for` as an extension key; a model with no `for` value but a
/// `host` or `proto` is written with a leading `;`, which no pair can start.
pub open spec fn round_trips(m: ForwardedView) -> bool {
    &&& m.forwarded_for.len() > 0 ==> m.by is None
    &&& m.forwarded_for.len() == 0 ==> m.host is None && m.proto is None
}

proof fn lemma_round_trip_no_for(m: ForwardedView)
    requires
        round_trips(m),
        m.forwarded_for.len() == 0,
    ensures
        parse_spec(serialize_spec(m)) == Ok::<ForwardedView, Seq<char>>(m),
{
    lemma_key_literals();
    lemma_for_literals();
    let s = serialize_spec(m);
    let fs = m.forwarded_for;
    assert(for_entries(fs) == Seq::<char>::empty());
    match m.by {
        None => {
            assert(s =~= Seq::<char>::empty());
            assert(m == empty_view()) by {
                assert(fs =~= seq![]);
            }
            assert(!matches_ignore_case_at("for="@, s, 0));
            assert(pairs_from(s, 0, empty_view()) == Ok::<ForwardedView, Seq<char>>(empty_view()));
            assert(parse_spec(s) == Ok::<ForwardedView, Seq<char>>(empty_view()));
        },
        Some(b) => {
            let fb = formatted_value(b);
            assert(s =~= "by"@ + seq!['='] + fb + seq![';']);
            let e = 3 + fb.len() as int;
            assert(s.subrange(0, e) =~= "by"@ + seq!['='] + fb);
            assert(s[e] == ';');
            assert(!matches_ignore_case_at("for="@, s, 0)) by {
                assert(s[0] == 'b');
            }
            lemma_pair_at_field(s, 0, "by"@, b, empty_view());
            assert(set_field(empty_view(), "by"@, b) == m) by {
                assert(fs =~= seq![]);
            }
            assert(pairs_from(s, e + 1, m) == Ok::<ForwardedView, Seq<char>>(m));
            assert(pairs_from(s, 0, empty_view()) == Ok::<ForwardedView, Seq<char>>(m));
        },
    }
}

/// The written `for` run opens the written form of a model with `for`
/// values and no `by`, and reads back as those values.
proof fn lemma_round_trip_for_run(m: ForwardedView)
    requires
        round_trips(m),
        m.forwarded_for.len() > 0,
    ensures
        ({
            let s = serialize_spec(m);
            let big_e = for_entries(m.forwarded_for).len() as int;
            let t = field_part("host="@, m.host) + field_part("proto="@, m.proto);
            &&& s == (for_entries(m.forwarded_for) + seq![';'] + t).drop_last()
            &&& parse_spec(s) == pairs_from(
                s,
                if t.len() == 0 {
                    big_e
                } else {
                    big_e + 1
                },
                with_fors(empty_view(), m.forwarded_for),
            )
        }),
{
    lemma_key_literals();
    lemma_for_literals();
    let s = serialize_spec(m);
    let fs = m.forwarded_for;
    let fe = for_entries(fs);
    let t = field_part("host="@, m.host) + field_part("proto="@, m.proto);
    assert(s =~= (fe + seq![';'] + t).drop_last());
    let big_e = fe.len() as int;
    assert(fe[0] == 'f' && fe[1] == 'o' && fe[2] == 'r' && fe[3] == '=') by {
        if fs.len() == 1 {
            assert(fe == "for="@ + formatted_value(fs[0]));
        } else {
            assert(fe == "for="@ + formatted_value(fs[0]) + ", "@ + for_entries(fs.drop_first()));
        }
    }
    assert(s.subrange(0, big_e) =~= fe);
    assert(matches_ignore_case_at("for="@, s, 0)) by {
        assert forall|k: int| 0 <= k < 4 implies s[k] == "for="@[k] by {
            assert(s[k] == fe[k]);
        }
    }
    if t.len() == 0 {
        assert(s =~= fe);
    } else {
        assert(s =~= fe + seq![';'] + t.drop_last());
        assert(s[big_e] == ';');
    }
    lemma_for_run_entries(s, 0, empty_view(), fs);
}

proof fn lemma_round_trip_for_only(m: ForwardedView)
    requires
        round_trips(m),
        m.forwarded_for.len() > 0,
        m.host is None,
        m.proto is None,
    ensures
        parse_spec(serialize_spec(m)) == Ok::<ForwardedView, Seq<char>>(m),
{
    lemma_key_literals();
    lemma_round_trip_for_run(m);
    let s = serialize_spec(m);
    let fs = m.forwarded_for;
    let fe = for_entries(fs);
    let t = field_part("host="@, m.host) + field_part("proto="@, m.proto);
    let big_e = fe.len() as int;
    let m1 = with_fors(empty_view(), fs);
    assert(empty_view().forwarded_for + fs =~= fs);
    let start = big_e + 1;
    assert(t =~= Seq::<char>::empty());
    assert(s =~= fe);
    assert(m1 == m);
}

/// What follows the `;` after the `for` run in a written model.
proof fn lemma_after_run(fe: Seq<char>, t: Seq<char>)
    requires
        t.len() > 0,
    ensures
        ({
            let s = (fe + seq![';'] + t).drop_last();
            &&& s.len() == fe.len() + t.len()
            &&& s[fe.len() as int] == ';'
            &&& s.subrange(fe.len() as int + 1, s.len() as int) == t.drop_last()
        }),
{
    let s = (fe + seq![';'] + t).drop_last();
    assert(s.subrange(fe.len() as int + 1, s.len() as int) =~= t.drop_last());
}

/// A written field, as it stands last: its key, `=` and its value.
proof fn lemma_field_last(key: Seq<char>, w: Seq<char>, v: Seq<char>)
    requires
        key == w + seq!['='],
    ensures
        field_part(key, Some(v)).drop_last() == w + seq!['='] + formatted_value(v),
        field_part(key, Some(v)).len() == w.len() + formatted_value(v).len() + 2,
{
    reveal_strlit(";");
    assert(";"@ =~= seq![';']);
    assert(field_part(key, Some(v)).drop_last() =~= w + seq!['='] + formatted_value(v));
}

proof fn lemma_round_trip_for_host(m: ForwardedView)
    requires
        round_trips(m),
        m.forwarded_for.len() > 0,
        m.host is Some,
        m.proto is None,
    ensures
        parse_spec(serialize_spec(m)) == Ok::<ForwardedView, Seq<char>>(m),
{
    lemma_key_literals();
    lemma_round_trip_for_run(m);
    let key = "host="@;
    let w = "host"@;
    let v = m.host.unwrap();
    let s = serialize_spec(m);
    let fs = m.forwarded_for;
    let fe = for_entries(fs);
    let t = field_part("host="@, m.host) + field_part("proto="@, m.proto);
    let m1 = with_fors(empty_view(), fs);
    assert(empty_view().forwarded_for + fs =~= fs);
    assert(t == field_part(key, Some(v))) by {
        assert(t =~= field_part(key, Some(v)));
    }
    lemma_field_last(key, w, v);
    lemma_after_run(fe, t);
    let start = fe.len() as int + 1;
    lemma_pair_at_field(s, start, w, v, m1);
    assert(set_field(m1, w, v) == m);
    assert(pairs_from(s, s.len() as int, m) == Ok::<ForwardedView, Seq<char>>(m));
    assert(pairs_from(s, start, m1) == Ok::<ForwardedView, Seq<char>>(m));
}

proof fn lemma_round_trip_for_proto(m: ForwardedView)
    requires
        round_trips(m),
        m.forwarded_for.len() > 0,
        m.host is None,
        m.proto is Some,
    ensures
        parse_spec(serialize_spec(m)) == Ok::<ForwardedView, Seq<char>>(m),
{
    lemma_key_literals();
    lemma_round_trip_for_run(m);
    let key = "proto="@;
    let w = "proto"@;
    let v = m.proto.unwrap();
    let s = serialize_spec(m);
    let fs = m.forwarded_for;
    let fe = for_entries(fs);
    let t = field_part("host="@, m.host) + field_part("proto="@, m.proto);
    let m1 = with_fors(empty_view(), fs);
    assert(empty_view().forwarded_for + fs =~= fs);
    assert(t == field_part(key, Some(v))) by {
        assert(t =~= field_part(key, Some(v)));
    }
    lemma_field_last(key, w, v);
    lemma_after_run(fe, t);
    let start = fe.len() as int + 1;
    lemma_pair_at_field(s, start, w, v, m1);
    assert(set_field(m1, w, v) == m);
    assert(pairs_from(s, s.len() as int, m) == Ok::<ForwardedView, Seq<char>>(m));
    assert(pairs_from(s, start, m1) == Ok::<ForwardedView, Seq<char>>(m));
}

proof fn lemma_round_trip_for_host_proto(m: ForwardedView)
    requires
        round_trips(m),
        m.forwarded_for.len() > 0,
        m.host is Some,
        m.proto is Some,
    ensures
        parse_spec(serialize_spec(m)) == Ok::<ForwardedView, Seq<char>>(m),
{
    lemma_key_literals();
    lemma_round_trip_for_run(m);
    let s = serialize_spec(m);
    let fs = m.forwarded_for;
    let fe = for_entries(fs);
    let h = m.host.unwrap();
    let p = m.proto.unwrap();
    let fh = formatted_value(h);
    let fp = formatted_value(p);
    let hp = field_part("host="@, m.host);
    let pp = field_part("proto="@, m.proto);
    let t = hp + pp;
    let m1 = with_fors(empty_view(), fs);
    assert(empty_view().forwarded_for + fs =~= fs);
    lemma_field_last("proto="@, "proto"@, p);
    assert(hp =~= "host"@ + seq!['='] + fh + seq![';']);
    assert(t.drop_last() =~= hp + pp.drop_last());
    lemma_after_run(fe, t);
    let start = fe.len() as int + 1;
    let e1 = start + 5 + fh.len() as int;
    assert(s.subrange(start, e1) =~= "host"@ + seq!['='] + fh) by {
        lemma_split_sub(s, start, s.len() as int, hp, pp.drop_last());
        lemma_split_sub(s, start, start + hp.len() as int, "host"@ + seq!['='] + fh, seq![';']);
    }
    assert(s[e1] == ';') by {
        lemma_split_sub(s, start, s.len() as int, hp, pp.drop_last());
        assert(s[e1] == s.subrange(start, start + hp.len() as int)[hp.len() as int - 1]);
    }
    lemma_pair_at_field(s, start, "host"@, h, m1);
    let m2 = set_field(m1, "host"@, h);
    assert(s.subrange(e1 + 1, s.len() as int) == "proto"@ + seq!['='] + fp) by {
        lemma_split_sub(s, start, s.len() as int, hp, pp.drop_last());
    }
    lemma_pair_at_field(s, e1 + 1, "proto"@, p, m2);
    assert(set_field(m2, "proto"@, p) == m);
    assert(pairs_from(s, s.len() as int, m) == Ok::<ForwardedView, Seq<char>>(m));
    assert(pairs_from(s, e1 + 1, m2) == Ok::<ForwardedView, Seq<char>>(m));
    assert(pairs_from(s, start, m1) == Ok::<ForwardedView, Seq<char>>(m));
}

/// Reading back the written form of a model gives the model, for every
/// model whose written form keeps its fields apart.
pub proof fn lemma_parse_serialize(m: ForwardedView)
    requires
        round_trips(m),
    ensures
        parse_spec(serialize_spec(m)) == Ok::<ForwardedView, Seq<char>>(m),
{
    if m.forwarded_for.len() == 0 {
        lemma_round_trip_no_for(m);
    } else if m.host is None && m.proto is None {
        lemma_round_trip_for_only(m);
    } else if m.proto is None {
        lemma_round_trip_for_host(m);
    } else if m.host is None {
        lemma_round_trip_for_proto(m);
    } else {
        lemma_round_trip_for_host_proto(m);
    }
}

} // verus!
