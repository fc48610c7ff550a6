use vstd::prelude::*;
use vstd::string::*;

use crate::headers::{header_text, field_text, HeaderList};
use crate::keyed::{keys_sorted, lemma_table_push, table};
use crate::textmap::TextMap;

verus! {

broadcast use vstd::string::group_string_axioms;

// ---------------------------------------------------------------------------
// Identifiers

/// What `uuid::Uuid::parse_str` yields for a text, as a 128-bit value.
pub uninterp spec fn uuid_parsed(s: Seq<char>) -> Option<u128>;

/// Relies on uuid::Uuid::parse_str; the result depends on the text alone.
#[verifier::external_body]
fn parse_uuid(s: &str) -> (r: Option<u128>)
    ensures
        r == uuid_parsed(s@),
{
    uuid::Uuid::parse_str(s).ok().map(|u| u.as_u128())
}

/// Relies on uuid::Uuid::new_v4, which draws 128 random bits and then sets
/// the version nibble to 4 and the two variant bits to `10`.
#[verifier::external_body]
fn fresh_uuid() -> (r: u128)
    ensures
        (r >> 76u128) & 0xfu128 == 4u128,
        (r >> 62u128) & 0x3u128 == 2u128,
{
    uuid::Uuid::new_v4().as_u128()
}

/// A random (version 4) identifier: version nibble 4, variant bits `10`.
pub open spec fn version_four(r: u128) -> bool {
    (r >> 76u128) & 0xfu128 == 4u128 && (r >> 62u128) & 0x3u128 == 2u128
}

/// A freshly generated identifier is never the nil identifier.
proof fn lemma_version_not_nil(r: u128)
    requires
        (r >> 76u128) & 0xfu128 == 4u128,
    ensures
        r != 0,
{
    assert(r == 0u128 ==> (r >> 76u128) & 0xfu128 == 0u128) by (bit_vector);
}

/// Hexadecimal digit at position `k` (0 is the most significant) of `v`.
pub open spec fn nibble_char(v: u128, k: int) -> char {
    crate::text::hex_digit(((v >> ((124 - 4 * k) as u128)) & 0xfu128) as nat)
}

/// The canonical hyphenated form `xxxxxxxx-xxxx-xxxx-xxxx-xxxxxxxxxxxx` of a
/// 128-bit identifier, in lower-case hexadecimal.
pub open spec fn hyphenated(v: u128) -> Seq<char> {
    Seq::new(
        36,
        |p: int|
            if p == 8 || p == 13 || p == 18 || p == 23 {
                '-'
            } else if p < 8 {
                nibble_char(v, p)
            } else if p < 13 {
                nibble_char(v, p - 1)
            } else if p < 18 {
                nibble_char(v, p - 2)
            } else if p < 23 {
                nibble_char(v, p - 3)
            } else {
                nibble_char(v, p - 4)
            },
    )
}

/// Relies on uuid::Uuid::hyphenated and its `Display`: 32 lower-case
/// hexadecimal digits, most significant first, grouped 8-4-4-4-12 by hyphens.
#[verifier::external_body]
pub(crate) fn uuid_text(v: u128) -> (r: String)
    ensures
        r@ == hyphenated(v),
{
    uuid::Uuid::from_u128(v).hyphenated().to_string()
}

// ---------------------------------------------------------------------------
// Header lookups

/// Text of the first field named `name`, when that field's value is text.
pub open spec fn first_text(hs: Seq<(Seq<char>, Seq<u8>)>, name: Seq<char>) -> Option<Seq<char>>
    decreases hs.len(),
{
    if hs.len() == 0 {
        None
    } else if hs[0].0 == name {
        field_text(hs[0].1)
    } else {
        first_text(hs.drop_first(), name)
    }
}

/// The identifier carried by the first field named `name`, if it parses.
pub open spec fn id_from(hs: Seq<(Seq<char>, Seq<u8>)>, name: Seq<char>) -> Option<u128> {
    match first_text(hs, name) {
        Some(t) => uuid_parsed(t),
        None => None,
    }
}

/// The identifier a context takes: the one the request carries, else the
/// generated one.
pub open spec fn id_or(hs: Seq<(Seq<char>, Seq<u8>)>, name: Seq<char>, generated: u128) -> u128 {
    match id_from(hs, name) {
        Some(u) => u,
        None => generated,
    }
}

/// The identifier a context takes, given what the request carried (already
/// parsed) and a generated one.
pub fn resolve_id(carried: Option<u128>, generated: u128) -> (r: u128)
    ensures
        r == match carried {
            Some(u) => u,
            None => generated,
        },
{
    match carried {
        Some(u) => u,
        None => generated,
    }
}

/// Text of the first field named `name`, when its value is text.
fn first_text_of(headers: &HeaderList, name: &str) -> (r: Option<String>)
    ensures
        r is Some <==> first_text(headers@, name@) is Some,
        r matches Some(t) ==> first_text(headers@, name@) == Some(t@),
{
    let key = String::from_str(name);
    let n = headers.len();
    let mut i: usize = 0;
    assert(headers@.skip(0) =~= headers@);
    while i < n
        invariant
            n == headers@.len(),
            i <= n,
            key@ == name@,
            first_text(headers@, name@) == first_text(headers@.skip(i as int), name@),
        decreases n - i,
    {
        let (fname, fvalue) = headers.field(i);
        assert(headers@.skip(i as int)[0] == headers@[i as int]);
        assert(headers@.skip(i as int).drop_first() =~= headers@.skip(i + 1));
        if *fname == key {
            return header_text(fvalue.as_slice());
        }
        i = i + 1;
    }
    None
}

/// The identifier carried by the first field named `name`, if it parses.
fn id_of(headers: &HeaderList, name: &str) -> (r: Option<u128>)
    ensures
        r == id_from(headers@, name@),
{
    match first_text_of(headers, name) {
        Some(t) => parse_uuid(t.as_str()),
        None => None,
    }
}

// ---------------------------------------------------------------------------
// Header snapshot

/// The fields whose value is text, with that text.
pub open spec fn text_fields(hs: Seq<(Seq<char>, Seq<u8>)>) -> Seq<(Seq<char>, Seq<char>)>
    decreases hs.len(),
{
    if hs.len() == 0 {
        Seq::empty()
    } else {
        let p = text_fields(hs.drop_last());
        match field_text(hs.last().1) {
            Some(t) => p.push((hs.last().0, t)),
            None => p,
        }
    }
}

/// Every field whose value is text; a later field replaces an earlier one
/// of the same name.
fn header_snapshot(headers: &HeaderList) -> (r: TextMap)
    ensures
        r@ == table(text_fields(headers@)),
        keys_sorted(r.pairs()),
{
    let mut map = TextMap::new();
    let n = headers.len();
    let mut i: usize = 0;
    while i < n
        invariant
            n == headers@.len(),
            i <= n,
            map@ == table(text_fields(headers@.take(i as int))),
            keys_sorted(map.pairs()),
        decreases n - i,
    {
        let (fname, fvalue) = headers.field(i);
        let ghost before = text_fields(headers@.take(i as int));
        assert(headers@.take(i + 1).drop_last() =~= headers@.take(i as int));
        match header_text(fvalue.as_slice()) {
            Some(t) => {
                proof {
                    lemma_table_push(before, fname@, t@);
                }
                map.insert(fname.clone(), t);
            },
            None => {},
        }
        i = i + 1;
    }
    assert(headers@.take(n as int) =~= headers@);
    map
}

// ---------------------------------------------------------------------------
// Cookies

/// Unicode `White_Space`, which `str::trim` removes.
pub open spec fn white_space(c: char) -> bool {
    let u = c as u32;
    (0x9 <= u && u <= 0xd) || u == 0x20 || u == 0x85 || u == 0xa0 || u == 0x1680 || (0x2000 <= u
        && u <= 0x200a) || u == 0x2028 || u == 0x2029 || u == 0x202f || u == 0x205f || u == 0x3000
}

/// `s` without leading white space.
pub open spec fn trim_start(s: Seq<char>) -> Seq<char>
    decreases s.len(),
{
    if s.len() > 0 && white_space(s[0]) {
        trim_start(s.drop_first())
    } else {
        s
    }
}

/// `s` without trailing white space.
pub open spec fn trim_end(s: Seq<char>) -> Seq<char>
    decreases s.len(),
{
    if s.len() > 0 && white_space(s.last()) {
        trim_end(s.drop_last())
    } else {
        s
    }
}

/// `s` without leading or trailing white space.
pub open spec fn trimmed(s: Seq<char>) -> Seq<char> {
    trim_end(trim_start(s))
}

/// Position of the first `c` in `s`, or `s.len()` when there is none.
pub open spec fn index_of(s: Seq<char>, c: char) -> nat
    decreases s.len(),
{
    if s.len() == 0 {
        0
    } else if s[0] == c {
        0
    } else {
        1 + index_of(s.drop_first(), c)
    }
}

/// The cookie that a `name=value` segment holds: the name before the first
/// `=`, the value after it, both trimmed; none without `=` or with an empty
/// name.
pub open spec fn cookie_pair(s: Seq<char>) -> Option<(Seq<char>, Seq<char>)> {
    let i = index_of(s, '=') as int;
    if i >= s.len() {
        None
    } else if trimmed(s.take(i)).len() == 0 {
        None
    } else {
        Some((trimmed(s.take(i)), trimmed(s.skip(i + 1))))
    }
}

/// Relies on cookie::Cookie::parse: on a text without `;` it splits at the
/// first `=`, trims name and value with `str::trim`, and fails without `=` or
/// on an empty name; `name` and `value` hand those parts back.
#[verifier::external_body]
fn parse_cookie(segment: &str) -> (r: Option<(String, String)>)
    requires
        !segment@.contains(';'),
    ensures
        r is Some <==> cookie_pair(segment@) is Some,
        r matches Some(p) ==> cookie_pair(segment@) == Some((p.0@, p.1@)),
{
    cookie::Cookie::parse(segment.to_owned()).ok().map(|c| (c.name().to_owned(), c.value().to_owned()))
}

/// The parts of `s` between the separators `c`, as `str::split` yields them.
pub open spec fn pieces(s: Seq<char>, c: char) -> Seq<Seq<char>>
    decreases s.len(),
{
    let i = index_of(s, c) as int;
    if i >= s.len() {
        seq![s]
    } else {
        seq![s.take(i)] + pieces(s.skip(i + 1), c)
    }
}

proof fn lemma_index_of(s: Seq<char>, c: char)
    ensures
        0 <= index_of(s, c) <= s.len(),
        forall|j: int| 0 <= j < index_of(s, c) ==> s[j] != c,
        index_of(s, c) < s.len() ==> s[index_of(s, c) as int] == c,
    decreases s.len(),
{
    if s.len() > 0 && s[0] != c {
        lemma_index_of(s.drop_first(), c);
        assert forall|j: int| 0 <= j < index_of(s, c) implies s[j] != c by {
            if j > 0 {
                assert(s[j] == s.drop_first()[j - 1]);
            }
        }
    }
}

/// Splits `s` on `;`.
fn split_semicolons(s: &str) -> (r: Vec<String>)
    ensures
        r@.map_values(|x: String| x@) == pieces(s@, ';'),
        forall|k: int| 0 <= k < r@.len() ==> !(#[trigger] r@[k])@.contains(';'),
{
    let cs = crate::text::chars_of(s);
    let n = cs.len();
    let mut out: Vec<String> = Vec::new();
    let mut start: usize = 0;
    let mut k: usize = 0;
    assert(s@.skip(0) =~= s@);
    assert(out@.map_values(|x: String| x@) + pieces(s@, ';') =~= pieces(s@, ';'));
    while k < n
        invariant
            cs@ == s@,
            n == s@.len(),
            start <= k <= n,
            forall|j: int| start <= j < k ==> s@[j] != ';',
            out@.map_values(|x: String| x@) + pieces(s@.skip(start as int), ';') == pieces(s@, ';'),
            forall|m: int| 0 <= m < out@.len() ==> !(#[trigger] out@[m])@.contains(';'),
        decreases n - k,
    {
        if cs[k] == ';' {
            let part = s.substring_char(start, k).to_owned();
            proof {
                let rest = s@.skip(start as int);
                lemma_index_of(rest, ';');
                assert forall|j: int| 0 <= j < k - start implies rest[j] != ';' by {
                    assert(rest[j] == s@[start + j]);
                }
                assert(rest[k - start] == ';');
                assert(index_of(rest, ';') == k - start);
                assert(rest.take(k - start) =~= part@);
                assert(rest.skip(k - start + 1) =~= s@.skip(k + 1));
                assert(!part@.contains(';')) by {
                    assert forall|j: int| 0 <= j < part@.len() implies part@[j] != ';' by {
                        assert(part@[j] == s@[start + j]);
                    }
                }
            }
            let ghost prev = out@;
            out.push(part);
            proof {
                assert(out@.map_values(|x: String| x@) =~= prev.map_values(|x: String| x@).push(part@));
                let rest = s@.skip(start as int);
                assert(pieces(rest, ';') == seq![rest.take(k - start)] + pieces(rest.skip(k - start + 1), ';'));
                assert(out@.map_values(|x: String| x@) + pieces(s@.skip(k + 1), ';') =~= prev.map_values(|x: String| x@) + pieces(rest, ';'));
            }
            start = k + 1;
        }
        k = k + 1;
    }
    let part = s.substring_char(start, n).to_owned();
    proof {
        let rest = s@.skip(start as int);
        lemma_index_of(rest, ';');
        assert forall|j: int| 0 <= j < rest.len() implies rest[j] != ';' by {
            assert(rest[j] == s@[start + j]);
        }
        assert(index_of(rest, ';') == rest.len());
        assert(rest =~= part@);
        assert(!part@.contains(';')) by {
            assert forall|j: int| 0 <= j < part@.len() implies part@[j] != ';' by {
                assert(part@[j] == rest[j]);
            }
        }
    }
    let ghost prev = out@;
    out.push(part);
    assert(out@.map_values(|x: String| x@) =~= prev.map_values(|x: String| x@).push(part@));
    assert(out@.map_values(|x: String| x@) =~= prev.map_values(|x: String| x@) + pieces(s@.skip(start as int), ';'));
    out
}

/// The cookies that the segments hold, in order; malformed segments give none.
pub open spec fn segment_cookies(segs: Seq<Seq<char>>) -> Seq<(Seq<char>, Seq<char>)>
    decreases segs.len(),
{
    if segs.len() == 0 {
        Seq::empty()
    } else {
        let p = segment_cookies(segs.drop_last());
        match cookie_pair(segs.last()) {
            Some(kv) => p.push(kv),
            None => p,
        }
    }
}

/// The cookies of every `cookie` field whose value is text, in order.
pub open spec fn cookie_fields(hs: Seq<(Seq<char>, Seq<u8>)>) -> Seq<(Seq<char>, Seq<char>)>
    decreases hs.len(),
{
    if hs.len() == 0 {
        Seq::empty()
    } else {
        let p = cookie_fields(hs.drop_last());
        if hs.last().0 == "cookie"@ {
            match field_text(hs.last().1) {
                Some(t) => p + segment_cookies(pieces(t, ';')),
                None => p,
            }
        } else {
            p
        }
    }
}

/// The cookies of all `cookie` fields; a later cookie replaces an earlier one
/// of the same name.
fn extract_cookies(headers: &HeaderList) -> (r: TextMap)
    ensures
        r@ == table(cookie_fields(headers@)),
        keys_sorted(r.pairs()),
{
    let cookie_name = String::from_str("cookie");
    let mut map = TextMap::new();
    let n = headers.len();
    let mut i: usize = 0;
    while i < n
        invariant
            n == headers@.len(),
            i <= n,
            cookie_name@ == "cookie"@,
            map@ == table(cookie_fields(headers@.take(i as int))),
            keys_sorted(map.pairs()),
        decreases n - i,
    {
        let (fname, fvalue) = headers.field(i);
        assert(headers@.take(i + 1).drop_last() =~= headers@.take(i as int));
        if *fname == cookie_name {
            match header_text(fvalue.as_slice()) {
                Some(t) => {
                    let segs = split_semicolons(t.as_str());
                    let ghost base = cookie_fields(headers@.take(i as int));
                    let ghost sv = segs@.map_values(|x: String| x@);
                    let mut j: usize = 0;
                    while j < segs.len()
                        invariant
                            j <= segs@.len(),
                            sv == segs@.map_values(|x: String| x@),
                            forall|k: int| 0 <= k < segs@.len() ==> !(#[trigger] segs@[k])@.contains(';'),
                            map@ == table(base + segment_cookies(sv.take(j as int))),
                            keys_sorted(map.pairs()),
                        decreases segs@.len() - j,
                    {
                        assert(sv.take(j + 1).drop_last() =~= sv.take(j as int));
                        assert(sv.take(j + 1).last() == segs@[j as int]@);
                        match parse_cookie(segs[j].as_str()) {
                            Some((name, value)) => {
                                proof {
                                    let prev = base + segment_cookies(sv.take(j as int));
                                    lemma_table_push(prev, name@, value@);
                                    assert(base + segment_cookies(sv.take(j + 1)) =~= prev.push((name@, value@)));
                                }
                                map.insert(name, value);
                            },
                            None => {
                                assert(base + segment_cookies(sv.take(j + 1)) =~= base + segment_cookies(sv.take(j as int)));
                            },
                        }
                        j = j + 1;
                    }
                    assert(sv.take(j as int) =~= sv);
                },
                None => {},
            }
        }
        i = i + 1;
    }
    assert(headers@.take(n as int) =~= headers@);
    map
}

// ---------------------------------------------------------------------------
// Context

/// Trace identifiers that correlate logs and telemetry for one request.
#[derive(Debug)]
pub struct TraceContext {
    pub request_id: u128,
    pub trace_id: u128,
    pub parent_trace_id: Option<String>,
}

/// Normalised request metadata passed through the render pipeline.
#[derive(Debug)]
pub struct RequestContext {
    pub trace: TraceContext,
    pub method: String,
    pub path: String,
    pub headers: TextMap,
    pub cookies: TextMap,
}

/// Text of an optional string.
pub open spec fn opt_text(o: Option<String>) -> Option<Seq<char>> {
    match o {
        Some(s) => Some(s@),
        None => None,
    }
}

impl RequestContext {
    /// The context of a request whose fields are `headers`, taking
    /// `generated_request_id` and `generated_trace_id` where the request
    /// carries no usable identifier.
    pub fn build(
        method: &str,
        path: &str,
        headers: &HeaderList,
        generated_request_id: u128,
        generated_trace_id: u128,
    ) -> (r: RequestContext)
        ensures
            r.trace.request_id == id_or(headers@, "x-request-id"@, generated_request_id),
            r.trace.trace_id == id_or(headers@, "x-trace-id"@, generated_trace_id),
            opt_text(r.trace.parent_trace_id) == first_text(headers@, "traceparent"@),
            r.method@ == method@,
            r.path@ == path@,
            r.headers@ == table(text_fields(headers@)),
            r.cookies@ == table(cookie_fields(headers@)),
            keys_sorted(r.headers.pairs()),
            keys_sorted(r.cookies.pairs()),
    {
        let request_id = resolve_id(id_of(headers, "x-request-id"), generated_request_id);
        let trace_id = resolve_id(id_of(headers, "x-trace-id"), generated_trace_id);
        let parent_trace_id = first_text_of(headers, "traceparent");
        RequestContext {
            trace: TraceContext { request_id, trace_id, parent_trace_id },
            method: method.to_owned(),
            path: path.to_owned(),
            headers: header_snapshot(headers),
            cookies: extract_cookies(headers),
        }
    }

    /// Builds the context of a request, generating a random identifier
    /// wherever the request carries no usable one; the two generated
    /// identifiers always differ.
    pub fn from_http_parts(method: &str, path: &str, headers: &HeaderList) -> (r: RequestContext)
        ensures
            id_from(headers@, "x-request-id"@) matches Some(u) ==> r.trace.request_id == u,
            id_from(headers@, "x-request-id"@) is None ==> r.trace.request_id != 0,
            id_from(headers@, "x-request-id"@) is None ==> version_four(r.trace.request_id),
            id_from(headers@, "x-trace-id"@) is None ==> version_four(r.trace.trace_id),
            id_from(headers@, "x-trace-id"@) matches Some(u) ==> r.trace.trace_id == u,
            id_from(headers@, "x-trace-id"@) is None ==> r.trace.trace_id != 0,
            id_from(headers@, "x-request-id"@) is None && id_from(headers@, "x-trace-id"@) is None
                ==> r.trace.request_id != r.trace.trace_id,
            opt_text(r.trace.parent_trace_id) == first_text(headers@, "traceparent"@),
            r.method@ == method@,
            r.path@ == path@,
            r.headers@ == table(text_fields(headers@)),
            r.cookies@ == table(cookie_fields(headers@)),
            keys_sorted(r.headers.pairs()),
            keys_sorted(r.cookies.pairs()),
    {
        let generated_request_id = fresh_uuid();
        let drawn = fresh_uuid();
        // Two draws that clash are told apart by the lowest bit, which is
        // neither a version nor a variant bit.
        let generated_trace_id = if drawn == generated_request_id {
            drawn ^ 1u128
        } else {
            drawn
        };
        proof {
            assert((drawn >> 76u128) & 0xfu128 == 4u128 ==> ((drawn ^ 1u128) >> 76u128) & 0xfu128
                == 4u128) by (bit_vector);
            assert(drawn ^ 1u128 != drawn) by (bit_vector);
            assert((drawn >> 62u128) & 0x3u128 == 2u128 ==> ((drawn ^ 1u128) >> 62u128) & 0x3u128
                == 2u128) by (bit_vector);
            lemma_version_not_nil(generated_request_id);
            lemma_version_not_nil(generated_trace_id);
        }
        RequestContext::build(method, path, headers, generated_request_id, generated_trace_id)
    }
}

/// A malformed segment contributes no cookie, wherever it stands among the
/// segments of a cookie field.
pub proof fn lemma_malformed_segment_ignored(before: Seq<Seq<char>>, s: Seq<char>, after: Seq<Seq<char>>)
    requires
        cookie_pair(s) is None,
    ensures
        segment_cookies(before + seq![s] + after) == segment_cookies(before + after),
    decreases after.len(),
{
    if after.len() == 0 {
        assert((before + seq![s] + after).drop_last() =~= before);
        assert(before + after =~= before);
    } else {
        let shorter = after.drop_last();
        lemma_malformed_segment_ignored(before, s, shorter);
        assert((before + seq![s] + after).drop_last() =~= before + seq![s] + shorter);
        assert((before + after).drop_last() =~= before + shorter);
    }
}

proof fn lemma_index_of_prefix(t: Seq<char>, u: Seq<char>, c: char)
    ensures
        index_of(t, c) < t.len() ==> index_of(t + u, c) == index_of(t, c),
        index_of(t, c) >= t.len() ==> index_of(t + u, c) == t.len() + index_of(u, c),
    decreases t.len(),
{
    if t.len() > 0 {
        assert((t + u)[0] == t[0]);
        if t[0] != c {
            assert((t + u).drop_first() =~= t.drop_first() + u);
            lemma_index_of_prefix(t.drop_first(), u, c);
        }
    } else {
        assert(t + u =~= u);
    }
}

/// Appending `;` and a segment without `;` to a cookie field adds exactly that
/// segment.
pub proof fn lemma_pieces_append(t: Seq<char>, s: Seq<char>)
    requires
        !s.contains(';'),
    ensures
        pieces(t + ";"@ + s, ';') == pieces(t, ';').push(s),
    decreases t.len(),
{
    let x = t + ";"@ + s;
    assert(";"@ == seq![';']) by {
        reveal_strlit(";");
    }
    lemma_index_of(s, ';');
    assert(index_of(s, ';') == s.len()) by {
        if index_of(s, ';') < s.len() {
            assert(s[index_of(s, ';') as int] == ';');
        }
    }
    lemma_index_of(t, ';');
    lemma_index_of_prefix(t, ";"@ + s, ';');
    assert(x =~= t + (";"@ + s));
    if index_of(t, ';') < t.len() {
        let i = index_of(t, ';') as int;
        assert(x.take(i) =~= t.take(i));
        assert(x.skip(i + 1) =~= t.skip(i + 1) + ";"@ + s);
        lemma_pieces_append(t.skip(i + 1), s);
        assert(index_of(x, ';') == i);
        assert(pieces(x, ';') == seq![x.take(i)] + pieces(x.skip(i + 1), ';'));
        assert(pieces(t, ';') == seq![t.take(i)] + pieces(t.skip(i + 1), ';'));
        assert(pieces(x, ';') =~= pieces(t, ';').push(s));
    } else {
        assert(index_of(";"@ + s, ';') == 0);
        let i = t.len() as int;
        assert(x.take(i) =~= t);
        assert(x.skip(i + 1) =~= s);
        assert(index_of(x, ';') == i);
        assert(pieces(s, ';') == seq![s]);
        assert(pieces(t, ';') == seq![t]);
        assert(pieces(x, ';') == seq![x.take(i)] + pieces(x.skip(i + 1), ';'));
        assert(pieces(x, ';') =~= pieces(t, ';').push(s));
    }
}

/// A cookie field that gains a trailing malformed segment yields the same
/// cookies.
pub proof fn lemma_trailing_malformed_segment(t: Seq<char>, s: Seq<char>)
    requires
        !s.contains(';'),
        cookie_pair(s) is None,
    ensures
        segment_cookies(pieces(t + ";"@ + s, ';')) == segment_cookies(pieces(t, ';')),
{
    lemma_pieces_append(t, s);
    lemma_malformed_segment_ignored(pieces(t, ';'), s, Seq::empty());
    assert(pieces(t, ';') + seq![s] + Seq::<Seq<char>>::empty() =~= pieces(t, ';').push(s));
    assert(pieces(t, ';') + Seq::<Seq<char>>::empty() =~= pieces(t, ';'));
}

} // verus!

