//! The `Forwarded` header (RFC 7239): its model, its parser, its serializer
//! and the adapter for the older `X-Forwarded-*` headers.
use vstd::prelude::*;
use crate::lexer::{lemma_value_at_bounds, parse_token, parse_value, token_end, value_at};
use crate::text::{
    all_tchars, chars_of, is_tchar, is_tchar_exec, is_white_space, is_white_space_exec, match_ignore_case, matches_ignore_case_at,
    starts_with_ignore_case, string_of,
};

verus! {

/// What a `Forwarded` value holds.
pub struct ForwardedView {
    pub by: Option<Seq<char>>,
    pub forwarded_for: Seq<Seq<char>>,
    pub host: Option<Seq<char>>,
    pub proto: Option<Seq<char>>,
}

/// The model with no field set.
pub open spec fn empty_view() -> ForwardedView {
    ForwardedView { by: None, forwarded_for: seq![], host: None, proto: None }
}

/// The text of an optional string.
pub open spec fn opt_view(o: Option<String>) -> Option<Seq<char>> {
    match o {
        Some(s) => Some(s@),
        None => None,
    }
}

/// A parsed or built `Forwarded` header: an optional `by`, the `for` values
/// in order, an optional `host` and an optional `proto`.
#[derive(Debug, Clone)]
pub struct Forwarded {
    by: Option<String>,
    forwarded_for: Vec<String>,
    host: Option<String>,
    proto: Option<String>,
}

impl View for Forwarded {
    type V = ForwardedView;

    closed spec fn view(&self) -> ForwardedView {
        ForwardedView {
            by: opt_view(self.by),
            forwarded_for: self.forwarded_for@.map_values(|s: String| s@),
            host: opt_view(self.host),
            proto: opt_view(self.proto),
        }
    }
}

/// A grammar error met while parsing a `Forwarded` value.
#[derive(Debug, Clone)]
pub struct ParseError(&'static str);

impl View for ParseError {
    type V = Seq<char>;

    closed spec fn view(&self) -> Seq<char> {
        self.0@
    }
}

impl ParseError {
    /// An error with the given message.
    pub fn new(msg: &'static str) -> (r: Self)
        ensures
            r@ == msg@,
    {
        Self(msg)
    }

    /// The message, after the words that say which header failed.
    pub fn to_string(&self) -> (r: String)
        ensures
            r@ == "unable to parse forwarded header: "@ + self@,
    {
        let mut r = String::from_str("unable to parse forwarded header: ");
        r.append(self.0);
        r
    }
}

/// The position of the first character at or after `i` that is not white space.
pub open spec fn skip_white_space(s: Seq<char>, i: int) -> int
    decreases s.len() - i,
{
    if 0 <= i < s.len() && is_white_space(s[i]) {
        skip_white_space(s, i + 1)
    } else {
        i
    }
}

/// `m` with `v` appended to its `for` values.
pub open spec fn with_for(m: ForwardedView, v: Seq<char>) -> ForwardedView {
    ForwardedView { by: m.by, forwarded_for: m.forwarded_for.push(v), host: m.host, proto: m.proto }
}

/// Reads a run of `for=` pairs from `i` on, separated by commas (with white
/// space allowed after each comma) and ended by `;` or by the end of input:
/// the model with the values appended and the position after the run.
pub open spec fn for_run(s: Seq<char>, i: int, m: ForwardedView) -> Result<
    (ForwardedView, int),
    Seq<char>,
>
    decreases s.len() - i,
    via for_run_decreases
{
    if !matches_ignore_case_at("for="@, s, i) {
        Err("http list must start with for="@)
    } else {
        match value_at(s, i + 4) {
            None => Err("for= without valid value"@),
            Some((e, v)) => {
                let m2 = with_for(m, v);
                if e >= s.len() {
                    Ok((m2, e))
                } else if s[e] == ',' {
                    for_run(s, skip_white_space(s, e + 1), m2)
                } else if s[e] == ';' {
                    Ok((m2, e + 1))
                } else {
                    Err("unexpected character after for= section"@)
                }
            },
        }
    }
}

/// Skipping white space stays within the input.
pub proof fn lemma_skip_white_space_bounds(s: Seq<char>, i: int)
    requires
        0 <= i <= s.len(),
    ensures
        i <= skip_white_space(s, i) <= s.len(),
    decreases s.len() - i,
{
    if i < s.len() && is_white_space(s[i]) {
        lemma_skip_white_space_bounds(s, i + 1);
    }
}

#[via_fn]
proof fn for_run_decreases(s: Seq<char>, i: int, m: ForwardedView) {
    reveal_strlit("for=");
    if matches_ignore_case_at("for="@, s, i) {
        lemma_value_at_bounds(s, i + 4);
        if let Some((e, v)) = value_at(s, i + 4) {
            if e < s.len() {
                lemma_skip_white_space_bounds(s, e + 1);
            }
        }
    }
}

/// Reads one `key=value` pair at `i`, with the `;` after it if there is one.
/// `by`, `host` and `proto` are stored, each at most once; other keys are
/// read and their values dropped.
#[verifier::opaque]
pub open spec fn pair_at(s: Seq<char>, i: int, m: ForwardedView) -> Result<
    (ForwardedView, int),
    Seq<char>,
> {
    let k = token_end(s, i);
    if k > i && k < s.len() && s[k] == '=' {
        match value_at(s, k + 1) {
            Some((e, v)) => {
                let key = s.subrange(i, k);
                let next = if e < s.len() && s[e] == ';' {
                    e + 1
                } else {
                    e
                };
                if key == "by"@ {
                    if m.by is Some {
                        Err("parse error, duplicate `by` key"@)
                    } else {
                        Ok(
                            (
                                ForwardedView {
                                    by: Some(v),
                                    forwarded_for: m.forwarded_for,
                                    host: m.host,
                                    proto: m.proto,
                                },
                                next,
                            ),
                        )
                    }
                } else if key == "host"@ {
                    if m.host is Some {
                        Err("parse error, duplicate `host` key"@)
                    } else {
                        Ok(
                            (
                                ForwardedView {
                                    by: m.by,
                                    forwarded_for: m.forwarded_for,
                                    host: Some(v),
                                    proto: m.proto,
                                },
                                next,
                            ),
                        )
                    }
                } else if key == "proto"@ {
                    if m.proto is Some {
                        Err("parse error, duplicate `proto` key"@)
                    } else {
                        Ok(
                            (
                                ForwardedView {
                                    by: m.by,
                                    forwarded_for: m.forwarded_for,
                                    host: m.host,
                                    proto: Some(v),
                                },
                                next,
                            ),
                        )
                    }
                } else {
                    Ok((m, next))
                }
            },
            None => Err("parse error in forwarded-pair"@),
        }
    } else {
        Err("parse error in forwarded-pair"@)
    }
}

/// A pair that reads consumes at least one character.
pub proof fn lemma_pair_at_advances(s: Seq<char>, i: int, m: ForwardedView)
    requires
        0 <= i <= s.len(),
    ensures
        pair_at(s, i, m) matches Ok((_, j)) ==> i < j <= s.len(),
{
    reveal(pair_at);
    crate::lexer::lemma_token_end_bounds(s, i);
    let k = token_end(s, i);
    if k > i && k < s.len() && s[k] == '=' {
        lemma_value_at_bounds(s, k + 1);
    }
}

/// Reads pairs from `i` up to the end of input.
pub open spec fn pairs_from(s: Seq<char>, i: int, m: ForwardedView) -> Result<
    ForwardedView,
    Seq<char>,
>
    decreases s.len() - i,
    via pairs_from_decreases
{
    if i < 0 || i >= s.len() {
        Ok(m)
    } else {
        match pair_at(s, i, m) {
            Err(e) => Err(e),
            Ok((m2, j)) => pairs_from(s, j, m2),
        }
    }
}

#[via_fn]
proof fn pairs_from_decreases(s: Seq<char>, i: int, m: ForwardedView) {
    if 0 <= i < s.len() {
        lemma_pair_at_advances(s, i, m);
    }
}

/// What parsing `s` gives: a model, or the message of the first grammar
/// error. A value that starts with `for=` in any case opens with a run of
/// `for` pairs; the rest is a list of pairs.
pub open spec fn parse_spec(s: Seq<char>) -> Result<ForwardedView, Seq<char>> {
    if matches_ignore_case_at("for="@, s, 0) {
        match for_run(s, 0, empty_view()) {
            Err(e) => Err(e),
            Ok((m, j)) => pairs_from(s, j, m),
        }
    } else {
        pairs_from(s, 0, empty_view())
    }
}

/// The first position at or after `at` that does not hold white space.
pub(crate) fn skip_white_space_exec(input: &Vec<char>, at: usize) -> (r: usize)
    requires
        at <= input.len(),
    ensures
        r == skip_white_space(input@, at as int),
        at <= r <= input.len(),
{
    let mut i = at;
    while i < input.len() && is_white_space_exec(input[i])
        invariant
            at <= i <= input.len(),
            skip_white_space(input@, i as int) == skip_white_space(input@, at as int),
        decreases input.len() - i,
    {
        i += 1;
    }
    i
}

/// Whether the characters of `input` from `from` up to `to` are those of `word`.
fn key_is(input: &Vec<char>, from: usize, to: usize, word: &str) -> (r: bool)
    requires
        from <= to <= input.len(),
    ensures
        r == (input@.subrange(from as int, to as int) == word@),
{
    let n = word.unicode_len();
    if to - from != n {
        return false;
    }
    let mut k: usize = 0;
    while k < n
        invariant
            n == word@.len(),
            to - from == n,
            from <= to <= input.len(),
            k <= n,
            forall|j: int| 0 <= j < k ==> input@[from + j] == word@[j],
        decreases n - k,
    {
        if input[from + k] != word.get_char(k) {
            assert(input@.subrange(from as int, to as int)[k as int] != word@[k as int]);
            return false;
        }
        k += 1;
    }
    assert(input@.subrange(from as int, to as int) =~= word@);
    true
}

impl Forwarded {
    /// Builds a new empty `Forwarded`.
    pub fn new() -> (r: Self)
        ensures
            r@ == empty_view(),
    {
        let r = Forwarded { by: None, forwarded_for: Vec::new(), host: None, proto: None };
        assert(r@.forwarded_for =~= seq![]);
        r
    }

    /// Parses a raw `Forwarded` field value.
    pub fn parse(input: &str) -> (r: Result<Self, ParseError>)
        ensures
            match r {
                Ok(f) => parse_spec(input@) == Ok::<ForwardedView, Seq<char>>(f@),
                Err(e) => parse_spec(input@) == Err::<ForwardedView, Seq<char>>(e@),
            },
    {
        let chars = chars_of(input);
        let mut at: usize = 0;
        let mut forwarded = Forwarded::new();
        if starts_with_ignore_case("for=", &chars, 0) {
            at = forwarded.parse_for(&chars, 0)?;
        }
        while at < chars.len()
            invariant
                at <= chars.len(),
                chars@ == input@,
                pairs_from(chars@, at as int, forwarded@) == parse_spec(input@),
            decreases chars.len() - at,
        {
            at = forwarded.parse_forwarded_pair(&chars, at)?;
        }
        Ok(forwarded)
    }

    fn parse_forwarded_pair(&mut self, input: &Vec<char>, at: usize) -> (r: Result<
        usize,
        ParseError,
    >)
        requires
            at < input.len(),
        ensures
            match r {
                Ok(j) => pair_at(input@, at as int, old(self)@) == Ok::<
                    (ForwardedView, int),
                    Seq<char>,
                >((final(self)@, j as int)) && at < j <= input.len(),
                Err(e) => pair_at(input@, at as int, old(self)@) == Err::<
                    (ForwardedView, int),
                    Seq<char>,
                >(e@),
            },
    {
        proof {
            reveal(pair_at);
            lemma_pair_at_advances(input@, at as int, self@);
        }
        let k = parse_token(input, at);
        if !(k > at && k < input.len() && input[k] == '=') {
            return Err(ParseError::new("parse error in forwarded-pair"));
        }
        let (e, value) = match parse_value(input, k + 1) {
            Some(found) => found,
            None => {
                return Err(ParseError::new("parse error in forwarded-pair"));
            },
        };
        proof {
            lemma_value_at_bounds(input@, k + 1);
        }
        let next = if e < input.len() && input[e] == ';' {
            e + 1
        } else {
            e
        };
        if key_is(input, at, k, "by") {
            if self.by.is_some() {
                return Err(ParseError::new("parse error, duplicate `by` key"));
            }
            self.by = Some(value);
        } else if key_is(input, at, k, "host") {
            if self.host.is_some() {
                return Err(ParseError::new("parse error, duplicate `host` key"));
            }
            self.host = Some(value);
        } else if key_is(input, at, k, "proto") {
            if self.proto.is_some() {
                return Err(ParseError::new("parse error, duplicate `proto` key"));
            }
            self.proto = Some(value);
        }
        Ok(next)
    }

    fn parse_for(&mut self, input: &Vec<char>, at: usize) -> (r: Result<usize, ParseError>)
        requires
            at <= input.len(),
        ensures
            match r {
                Ok(j) => for_run(input@, at as int, old(self)@) == Ok::<
                    (ForwardedView, int),
                    Seq<char>,
                >((final(self)@, j as int)) && j <= input.len(),
                Err(e) => for_run(input@, at as int, old(self)@) == Err::<
                    (ForwardedView, int),
                    Seq<char>,
                >(e@),
            },
    {
        let mut rest = at;
        loop
            invariant
                rest <= input.len(),
                for_run(input@, rest as int, self@) == for_run(input@, at as int, old(self)@),
            decreases input.len() - rest,
        {
            proof {
                reveal_strlit("for=");
            }
            let (found, after) = match_ignore_case("for=", input, rest);
            if !found {
                return Err(ParseError::new("http list must start with for="));
            }
            let (e, value) = match parse_value(input, after) {
                Some(v) => v,
                None => {
                    return Err(ParseError::new("for= without valid value"));
                },
            };
            proof {
                lemma_value_at_bounds(input@, after as int);
            }
            let ghost before = self@;
            self.forwarded_for.push(value);
            assert(self@ == with_for(before, value@)) by {
                assert(self@.forwarded_for =~= before.forwarded_for.push(value@));
            }
            if e >= input.len() {
                return Ok(e);
            } else if input[e] == ',' {
                rest = skip_white_space_exec(input, e + 1);
            } else if input[e] == ';' {
                return Ok(e + 1);
            } else {
                return Err(ParseError::new("unexpected character after for= section"));
            }
        }
    }
}

/// A `std::fmt::Error`, which only a failing text sink gives.
#[verifier::external_type_specification]
#[verifier::external_body]
pub struct ExFmtError(std::fmt::Error);

/// `v` with a backslash before each `"` and each `\`.
pub open spec fn escaped(v: Seq<char>) -> Seq<char>
    decreases v.len(),
{
    if v.len() == 0 {
        seq![]
    } else {
        escaped_char(v[0]) + escaped(v.drop_first())
    }
}

/// One character as a quoted string holds it.
pub open spec fn escaped_char(c: char) -> Seq<char> {
    if c == '"' || c == '\\' {
        seq!['\\', c]
    } else {
        seq![c]
    }
}

/// How a value is written: as it is where it is a non-empty token, else as
/// a quoted string.
pub open spec fn formatted_value(v: Seq<char>) -> Seq<char> {
    if v.len() > 0 && all_tchars(v) {
        v
    } else {
        seq!['"'] + escaped(v) + seq!['"']
    }
}

/// The `for=` pairs, joined by `, `.
pub open spec fn for_entries(fs: Seq<Seq<char>>) -> Seq<char>
    decreases fs.len(),
{
    if fs.len() == 0 {
        seq![]
    } else if fs.len() == 1 {
        "for="@ + formatted_value(fs[0])
    } else {
        "for="@ + formatted_value(fs[0]) + ", "@ + for_entries(fs.drop_first())
    }
}

/// `key` and the written value, then `;`, where the field is set.
pub open spec fn field_part(key: Seq<char>, o: Option<Seq<char>>) -> Seq<char> {
    match o {
        Some(v) => key + formatted_value(v) + ";"@,
        None => seq![],
    }
}

/// The canonical `Forwarded` value of `m`: `by`, the `for` run, a `;`, then
/// `host` and `proto`, each pair ended by `;`, with the last `;` taken off.
pub open spec fn serialize_spec(m: ForwardedView) -> Seq<char> {
    (field_part("by="@, m.by) + for_entries(m.forwarded_for) + ";"@ + field_part("host="@, m.host)
        + field_part("proto="@, m.proto)).drop_last()
}

/// Escaping a string one more character long adds that character escaped.
pub proof fn lemma_escaped_push(v: Seq<char>, c: char)
    ensures
        escaped(v.push(c)) == escaped(v) + escaped_char(c),
    decreases v.len(),
{
    if v.len() == 0 {
        assert(v.push(c).drop_first() =~= seq![]);
        assert(escaped(Seq::<char>::empty()) == Seq::<char>::empty());
        assert(escaped(v.push(c)) =~= escaped_char(c));
        assert(v =~= seq![]);
    } else {
        lemma_escaped_push(v.drop_first(), c);
        assert(v.push(c).drop_first() =~= v.drop_first().push(c));
        assert(escaped(v.push(c)) =~= escaped(v) + escaped_char(c));
    }
}

/// One more `for` value adds `, ` and its pair at the end of the run.
pub proof fn lemma_for_entries_push(fs: Seq<Seq<char>>, x: Seq<char>)
    requires
        fs.len() > 0,
    ensures
        for_entries(fs.push(x)) == for_entries(fs) + ", "@ + "for="@ + formatted_value(x),
    decreases fs.len(),
{
    let ys = fs.push(x);
    if fs.len() == 1 {
        assert(ys.drop_first() =~= seq![x]);
        assert(for_entries(seq![x]) == "for="@ + formatted_value(x));
        assert(ys[0] == fs[0]);
        assert(for_entries(ys) =~= for_entries(fs) + ", "@ + "for="@ + formatted_value(x));
    } else {
        lemma_for_entries_push(fs.drop_first(), x);
        assert(ys.drop_first() =~= fs.drop_first().push(x));
        assert(ys[0] == fs[0]);
        assert(for_entries(ys) =~= for_entries(fs) + ", "@ + "for="@ + formatted_value(x));
    }
}

/// Appends the characters of `s` to `buf`.
fn append_str(buf: &mut Vec<char>, s: &str)
    ensures
        final(buf)@ == old(buf)@ + s@,
{
    let mut cs = chars_of(s);
    buf.append(&mut cs);
}

/// Writes `input` as a bare token where it is a non-empty token, else as a
/// quoted string with `\` and `"` escaped.
pub fn format_value(input: &str) -> (r: String)
    ensures
        r@ == formatted_value(input@),
{
    let chars = chars_of(input);
    let mut is_token = chars.len() > 0;
    let mut i: usize = 0;
    while i < chars.len()
        invariant
            i <= chars.len(),
            is_token == (chars@.len() > 0 && forall|k: int| 0 <= k < i ==> is_tchar(#[trigger] chars@[k])),
        decreases chars.len() - i,
    {
        is_token = is_token && is_tchar_exec(chars[i]);
        i += 1;
    }
    if is_token {
        return string_of(&chars, 0, chars.len());
    }
    let mut out: Vec<char> = Vec::new();
    out.push('"');
    let mut i: usize = 0;
    while i < chars.len()
        invariant
            i <= chars.len(),
            out@ == seq!['"'] + escaped(chars@.take(i as int)),
        decreases chars.len() - i,
    {
        let c = chars[i];
        proof {
            lemma_escaped_push(chars@.take(i as int), c);
            assert(chars@.take(i + 1) =~= chars@.take(i as int).push(c));
        }
        if c == '"' || c == '\\' {
            out.push('\\');
        }
        out.push(c);
        i += 1;
        assert(out@ =~= seq!['"'] + escaped(chars@.take(i as int)));
    }
    out.push('"');
    assert(chars@.take(chars.len() as int) =~= chars@);
    assert(out@ =~= seq!['"'] + escaped(input@) + seq!['"']);
    string_of(&out, 0, out.len())
}

/// Appends `key`, the written value and `;` to `buf` where the field is set.
fn append_field(buf: &mut Vec<char>, key: &str, field: &Option<String>)
    ensures
        final(buf)@ == old(buf)@ + field_part(key@, opt_view(*field)),
{
    match field {
        Some(v) => {
            append_str(buf, key);
            let f = format_value(v.as_str());
            append_str(buf, f.as_str());
            append_str(buf, ";");
            assert(final(buf)@ =~= old(buf)@ + field_part(key@, opt_view(*field)));
        },
        None => {
            assert(buf@ =~= old(buf)@ + field_part(key@, opt_view(*field)));
        },
    }
}

impl Forwarded {
    /// Builds the `Forwarded` header value as a string.
    pub fn value(&self) -> (r: Result<String, std::fmt::Error>)
        ensures
            match r {
                Ok(s) => s@ == serialize_spec(self@),
                Err(_) => false,
            },
    {
        let mut buf: Vec<char> = Vec::new();
        append_field(&mut buf, "by=", &self.by);
        let ghost start = buf@;
        let ghost fs = self@.forwarded_for;
        let mut i: usize = 0;
        while i < self.forwarded_for.len()
            invariant
                i <= self.forwarded_for.len(),
                fs == self@.forwarded_for,
                fs.len() == self.forwarded_for.len(),
                buf@ == start + for_entries(fs.take(i as int)),
            decreases self.forwarded_for.len() - i,
        {
            let ghost before = buf@;
            if i > 0 {
                append_str(&mut buf, ", ");
            }
            append_str(&mut buf, "for=");
            let f = format_value(self.forwarded_for[i].as_str());
            append_str(&mut buf, f.as_str());
            proof {
                assert(fs.take(i + 1) =~= fs.take(i as int).push(fs[i as int]));
                if i > 0 {
                    lemma_for_entries_push(fs.take(i as int), fs[i as int]);
                } else {
                    assert(fs.take(i as int) =~= seq![]);
                }
            }
            i += 1;
            assert(buf@ =~= start + for_entries(fs.take(i as int)));
        }
        assert(fs.take(i as int) =~= fs);
        append_str(&mut buf, ";");
        append_field(&mut buf, "host=", &self.host);
        append_field(&mut buf, "proto=", &self.proto);
        proof {
            reveal_strlit(";");
        }
        assert(buf@.len() > 0);
        let r = string_of(&buf, 0, buf.len() - 1);
        assert(r@ =~= serialize_spec(self@));
        Ok(r)
    }
}

/// The text of an optional string slice.
pub open spec fn opt_str_view(o: Option<&str>) -> Option<Seq<char>> {
    match o {
        Some(s) => Some(s@),
        None => None,
    }
}

/// The model that the `X-Forwarded-*` values give: `None` where all three
/// are absent (an empty `for` list counts as absent).
pub open spec fn x_headers_spec(
    forwarded_for: Seq<Seq<char>>,
    by: Option<Seq<char>>,
    proto: Option<Seq<char>>,
) -> Option<ForwardedView> {
    if forwarded_for.len() == 0 && by is None && proto is None {
        None
    } else {
        Some(ForwardedView { by, forwarded_for, host: None, proto })
    }
}

impl Forwarded {
    /// Returns an independent copy. Every field of a `Forwarded` already owns
    /// its text, so the value is handed back as it is.
    pub fn into_owned(self) -> (r: Forwarded)
        ensures
            r@ == self@,
    {
        self
    }

    /// Returns the `by` field of this header.
    pub fn by(&self) -> (r: Option<&str>)
        ensures
            opt_str_view(r) == self@.by,
    {
        match &self.by {
            Some(s) => Some(s.as_str()),
            None => None,
        }
    }

    /// Returns the `for` values of this header, in order.
    pub fn forwarded_for(&self) -> (r: Vec<&str>)
        ensures
            r@.map_values(|s: &str| s@) == self@.forwarded_for,
    {
        let mut r: Vec<&str> = Vec::new();
        let mut i: usize = 0;
        while i < self.forwarded_for.len()
            invariant
                i <= self.forwarded_for.len(),
                r@.map_values(|s: &str| s@) == self@.forwarded_for.take(i as int),
            decreases self.forwarded_for.len() - i,
        {
            let item = self.forwarded_for[i].as_str();
            assert(item@ == self@.forwarded_for[i as int]);
            let ghost before = r@;
            r.push(item);
            assert(r@.map_values(|s: &str| s@) =~= before.map_values(|s: &str| s@).push(item@));
            assert(self@.forwarded_for.take(i + 1) =~= self@.forwarded_for.take(i as int).push(
                item@,
            ));
            i += 1;
            assert(r@.map_values(|s: &str| s@) =~= self@.forwarded_for.take(i as int));
        }
        assert(self@.forwarded_for.take(i as int) =~= self@.forwarded_for);
        r
    }

    /// Returns the `host` field of this header.
    pub fn host(&self) -> (r: Option<&str>)
        ensures
            opt_str_view(r) == self@.host,
    {
        match &self.host {
            Some(s) => Some(s.as_str()),
            None => None,
        }
    }

    /// Returns the `proto` field of this header.
    pub fn proto(&self) -> (r: Option<&str>)
        ensures
            opt_str_view(r) == self@.proto,
    {
        match &self.proto {
            Some(s) => Some(s.as_str()),
            None => None,
        }
    }

    /// Sets the `host` field of this header.
    pub fn set_host(&mut self, host: String)
        ensures
            final(self)@ == (ForwardedView { host: Some(host@), ..old(self)@ }),
    {
        self.host = Some(host);
    }

    /// Chainable builder for the `proto` field.
    pub fn with_proto(self, proto: String) -> (r: Self)
        ensures
            r@ == (ForwardedView { proto: Some(proto@), ..self@ }),
    {
        let mut r = self;
        r.proto = Some(proto);
        r
    }

    /// Adds a `for` value at the end of this header's list.
    pub fn add_for(&mut self, forwarded_for: String)
        ensures
            final(self)@ == with_for(old(self)@, forwarded_for@),
    {
        self.forwarded_for.push(forwarded_for);
        assert(self@.forwarded_for =~= old(self)@.forwarded_for.push(forwarded_for@));
    }

    /// Chainable builder that adds a `for` value.
    pub fn with_for(self, forwarded_for: String) -> (r: Self)
        ensures
            r@ == with_for(self@, forwarded_for@),
    {
        let mut r = self;
        r.add_for(forwarded_for);
        r
    }

    /// Chainable builder for the `host` field.
    pub fn with_host(self, host: String) -> (r: Self)
        ensures
            r@ == (ForwardedView { host: Some(host@), ..self@ }),
    {
        let mut r = self;
        r.set_host(host);
        r
    }

    /// Sets the `by` field of this header.
    pub fn set_by(&mut self, by: String)
        ensures
            final(self)@ == (ForwardedView { by: Some(by@), ..old(self)@ }),
    {
        self.by = Some(by);
    }

    /// Chainable builder for the `by` field.
    pub fn with_by(self, by: String) -> (r: Self)
        ensures
            r@ == (ForwardedView { by: Some(by@), ..self@ }),
    {
        let mut r = self;
        r.set_by(by);
        r
    }

    /// Parses the value of the `Forwarded` header, where the header is
    /// present; `Ok(None)` where it is absent.
    pub fn from_forwarded_header(forwarded: Option<&str>) -> (r: Result<Option<Self>, ParseError>)
        ensures
            match forwarded {
                None => r matches Ok(None),
                Some(v) => match parse_spec(v@) {
                    Ok(m) => r matches Ok(Some(f)) && f@ == m,
                    Err(msg) => r matches Err(e) && e@ == msg,
                },
            },
    {
        match forwarded {
            Some(v) => {
                let f = Self::parse(v)?;
                Ok(Some(f))
            },
            None => Ok(None),
        }
    }

    /// Builds a `Forwarded` from the values of the `X-Forwarded-For` list
    /// (already split, and with IPv6 addresses in brackets), `X-Forwarded-By`
    /// and `X-Forwarded-Proto`; `None` where none of them is there.
    pub fn from_x_headers(forwarded_for: Vec<String>, by: Option<&str>, proto: Option<&str>) -> (r:
        Option<Self>)
        ensures
            match x_headers_spec(forwarded_for@.map_values(|s: String| s@), opt_str_view(by), opt_str_view(proto)) {
                None => r is None,
                Some(m) => r matches Some(f) && f@ == m,
            },
    {
        if forwarded_for.len() == 0 && by.is_none() && proto.is_none() {
            return None;
        }
        let by = match by {
            Some(s) => Some(String::from_str(s)),
            None => None,
        };
        let proto = match proto {
            Some(s) => Some(String::from_str(s)),
            None => None,
        };
        Some(Forwarded { by, forwarded_for, host: None, proto })
    }

    /// Reads the `Forwarded` header where it is present, and otherwise the
    /// `X-Forwarded-*` headers. A malformed `Forwarded` header is an error:
    /// the older headers are then not read.
    pub fn from_headers(
        forwarded: Option<&str>,
        x_forwarded_for: Vec<String>,
        x_forwarded_by: Option<&str>,
        x_forwarded_proto: Option<&str>,
    ) -> (r: Result<Option<Self>, ParseError>)
        ensures
            match forwarded {
                Some(v) => match parse_spec(v@) {
                    Ok(m) => r matches Ok(Some(f)) && f@ == m,
                    Err(msg) => r matches Err(e) && e@ == msg,
                },
                None => match x_headers_spec(
                    x_forwarded_for@.map_values(|s: String| s@),
                    opt_str_view(x_forwarded_by),
                    opt_str_view(x_forwarded_proto),
                ) {
                    None => r matches Ok(None),
                    Some(m) => r matches Ok(Some(f)) && f@ == m,
                },
            },
    {
        if let Some(f) = Self::from_forwarded_header(forwarded)? {
            Ok(Some(f))
        } else {
            Ok(Self::from_x_headers(x_forwarded_for, x_forwarded_by, x_forwarded_proto))
        }
    }
}

} // verus!
