//! Server-Sent Events framing for the streamable-HTTP MCP transport: the
//! fields of one event block (`id:`, `retry:`, `data:`), the classification
//! of unsolicited events on the standalone stream, JSON-RPC id matching,
//! and the reconnect bookkeeping of the standalone GET stream.
use crate::error::McpError;
use crate::json::{self, Json, JsonV};
use crate::json_codec::{decode_json, json_decoded};
use crate::text;
use vstd::prelude::*;
use vstd::string::StringExecFns;

verus! {

/// Default initial reconnect delay, in milliseconds.
pub const SSE_RECONNECT_INITIAL_MS: u64 = 1_000;

/// Ceiling on a reconnect delay, in milliseconds.
pub const SSE_RECONNECT_MAX_MS: u64 = 30_000;

/// Reconnect budget: consecutive reconnects before giving up.
pub const SSE_RECONNECT_MAX_RETRIES: u32 = 2;

/// Maximum bytes for one buffered SSE event.
pub const MAX_SSE_EVENT_BYTES: usize = 52_428_800;

/// The `id:` of a block's lines: the trimmed rest of the last line that
/// starts with `id:`.
pub open spec fn id_fold(ls: Seq<Seq<char>>) -> Option<Seq<char>>
    decreases ls.len(),
{
    if ls.len() == 0 {
        None
    } else {
        let l = ls.last();
        if text::starts_with(l, "id:"@) {
            Some(text::trim(l.skip("id:"@.len() as int)))
        } else {
            id_fold(ls.drop_last())
        }
    }
}

/// The `retry:` of a block's lines: the first line that starts with
/// `retry:` and whose trimmed rest parses as a `u64`.
pub open spec fn retry_fold(ls: Seq<Seq<char>>) -> Option<u64>
    decreases ls.len(),
{
    if ls.len() == 0 {
        None
    } else {
        let prev = retry_fold(ls.drop_last());
        let l = ls.last();
        if prev is Some {
            prev
        } else if text::starts_with(l, "retry:"@) {
            text::parse_u64(text::trim(l.skip("retry:"@.len() as int)))
        } else {
            None
        }
    }
}

/// The `data:` lines of a block, each without the `data:` prefix and one
/// optional space after it, joined with `\n`; `None` when there is none.
pub open spec fn data_fold(ls: Seq<Seq<char>>) -> Option<Seq<char>>
    decreases ls.len(),
{
    if ls.len() == 0 {
        None
    } else {
        let prev = data_fold(ls.drop_last());
        let l = ls.last();
        if text::starts_with(l, "data:"@) {
            let piece = drop_one_space(l.skip("data:"@.len() as int));
            match prev {
                None => Some(piece),
                Some(p) => Some(p + seq!['\n'] + piece),
            }
        } else {
            prev
        }
    }
}

/// `s` without its first character when that is a space, `s` otherwise.
pub open spec fn drop_one_space(s: Seq<char>) -> Seq<char> {
    if s.len() > 0 && s[0] == ' ' {
        s.skip(1)
    } else {
        s
    }
}

/// `s` when it is `Some`, the empty sequence otherwise.
pub open spec fn or_empty(s: Option<Seq<char>>) -> Seq<char> {
    match s {
        Some(x) => x,
        None => Seq::empty(),
    }
}

/// The trimmed text after `prefix` on `v[a..b]`, when the line starts with it.
fn field_value(v: &Vec<char>, a: usize, b: usize, prefix: &Vec<char>) -> (r: Option<(usize, usize)>)
    requires
        a <= b <= v@.len(),
    ensures
        match r {
            Some((x, y)) => text::starts_with(v@.subrange(a as int, b as int), prefix@) && a <= x
                <= y <= b && v@.subrange(x as int, y as int) == text::trim(
                v@.subrange(a as int, b as int).skip(prefix@.len() as int),
            ),
            None => !text::starts_with(v@.subrange(a as int, b as int), prefix@),
        },
{
    if text::range_starts_with(v, a, b, prefix) {
        let start = a + prefix.len();
        assert(v@.subrange(a as int, b as int).skip(prefix@.len() as int) =~= v@.subrange(
            start as int,
            b as int,
        ));
        Some(text::trim_range(v, start, b))
    } else {
        None
    }
}

/// The SSE `id:` field of an event block: the trimmed rest of the last
/// `id:` line, or `None` when the block carries no id.
pub fn sse_event_id(event_block: &str) -> (r: Option<String>)
    ensures
        match r {
            Some(s) => id_fold(text::lines(event_block@)) == Some(s@),
            None => id_fold(text::lines(event_block@)) is None,
        },
{
    let v = text::chars_of(event_block);
    let n = v.len();
    let prefix = text::chars_of("id:");
    let mut id: Option<String> = None;
    let ghost mut done: Seq<Seq<char>> = seq![];
    let mut st: usize = 0;
    assert(v@.subrange(0, n as int) =~= event_block@);
    while st < n
        invariant
            st <= n == v@.len(),
            prefix@ == "id:"@,
            text::lines(event_block@) == done + text::lines(v@.subrange(st as int, n as int)),
            match id {
                Some(s) => id_fold(done) == Some(s@),
                None => id_fold(done) is None,
            },
        decreases n - st,
    {
        let (a, b, next) = text::next_line(&v, st, n);
        let ghost line = v@.subrange(a as int, b as int);
        if let Some((x, y)) = field_value(&v, a, b, &prefix) {
            id = Some(text::string_of_range(&v, x, y));
        }
        proof {
            let nd = done.push(line);
            assert(nd.drop_last() =~= done);
            assert(text::lines(event_block@) =~= nd + text::lines(
                v@.subrange(next as int, n as int),
            ));
            done = nd;
        }
        st = next;
    }
    assert(v@.subrange(st as int, n as int) =~= Seq::<char>::empty());
    assert(done + text::lines(Seq::<char>::empty()) =~= done);
    id
}

/// The SSE `retry:` field of an event block in milliseconds: the value of
/// the first `retry:` line whose trimmed rest parses as a `u64`; `None`
/// when there is none.
pub fn sse_event_retry_ms(event_block: &str) -> (r: Option<u64>)
    ensures
        r == retry_fold(text::lines(event_block@)),
{
    let v = text::chars_of(event_block);
    let n = v.len();
    let prefix = text::chars_of("retry:");
    let mut found: Option<u64> = None;
    let ghost mut done: Seq<Seq<char>> = seq![];
    let mut st: usize = 0;
    assert(v@.subrange(0, n as int) =~= event_block@);
    while st < n
        invariant
            st <= n == v@.len(),
            prefix@ == "retry:"@,
            text::lines(event_block@) == done + text::lines(v@.subrange(st as int, n as int)),
            found == retry_fold(done),
        decreases n - st,
    {
        let (a, b, next) = text::next_line(&v, st, n);
        let ghost line = v@.subrange(a as int, b as int);
        if found.is_none() {
            if let Some((x, y)) = field_value(&v, a, b, &prefix) {
                found = text::parse_u64_range(&v, x, y);
            }
        }
        proof {
            let nd = done.push(line);
            assert(nd.drop_last() =~= done);
            assert(text::lines(event_block@) =~= nd + text::lines(
                v@.subrange(next as int, n as int),
            ));
            done = nd;
        }
        st = next;
    }
    assert(v@.subrange(st as int, n as int) =~= Seq::<char>::empty());
    assert(done + text::lines(Seq::<char>::empty()) =~= done);
    found
}

/// Appends `v[lo..hi]` to `s`.
fn push_range(s: &mut String, v: &Vec<char>, lo: usize, hi: usize)
    requires
        lo <= hi <= v@.len(),
    ensures
        final(s)@ == old(s)@ + v@.subrange(lo as int, hi as int),
{
    let piece = text::string_of_range(v, lo, hi);
    s.append(piece.as_str());
}

/// The `data:` lines of an SSE event block joined with `\n`: each line
/// contributes its content after `data:` and one optional space.
/// Empty when the block has no `data:` line.
pub fn sse_event_data(event_block: &str) -> (r: String)
    ensures
        r@ == or_empty(data_fold(text::lines(event_block@))),
{
    let v = text::chars_of(event_block);
    let n = v.len();
    let prefix = text::chars_of("data:");
    let mut out = String::new();
    let mut any = false;
    let ghost mut done: Seq<Seq<char>> = seq![];
    let mut st: usize = 0;
    assert(v@.subrange(0, n as int) =~= event_block@);
    while st < n
        invariant
            st <= n == v@.len(),
            prefix@ == "data:"@,
            text::lines(event_block@) == done + text::lines(v@.subrange(st as int, n as int)),
            any <==> data_fold(done) is Some,
            out@ == or_empty(data_fold(done)),
        decreases n - st,
    {
        let (a, b, next) = text::next_line(&v, st, n);
        let ghost line = v@.subrange(a as int, b as int);
        if text::range_starts_with(&v, a, b, &prefix) {
            let start = a + prefix.len();
            assert(line.skip(prefix@.len() as int) =~= v@.subrange(start as int, b as int));
            let x2 = if start < b && v[start] == ' ' {
                start + 1
            } else {
                start
            };
            assert(drop_one_space(v@.subrange(start as int, b as int)) =~= v@.subrange(
                x2 as int,
                b as int,
            ));
            if any {
                text::string_push(&mut out, '\n');
            }
            push_range(&mut out, &v, x2, b);
            any = true;
        }
        proof {
            let nd = done.push(line);
            assert(nd.drop_last() =~= done);
            assert(text::lines(event_block@) =~= nd + text::lines(
                v@.subrange(next as int, n as int),
            ));
            done = nd;
        }
        st = next;
    }
    assert(v@.subrange(st as int, n as int) =~= Seq::<char>::empty());
    assert(done + text::lines(Seq::<char>::empty()) =~= done);
    out
}


/// A JSON-RPC `id` as received: an integer (or a number that is not an
/// `i64`), a string, or any other JSON value.
#[derive(Debug, Clone, PartialEq, Eq)]
pub enum JsonRpcId {
    Number(Option<i64>),
    Str(String),
    Other,
}

/// The view of a [`JsonRpcId`].
pub enum JsonRpcIdView {
    Number(Option<i64>),
    Str(Seq<char>),
    Other,
}

impl View for JsonRpcId {
    type V = JsonRpcIdView;

    open spec fn view(&self) -> JsonRpcIdView {
        match self {
            JsonRpcId::Number(n) => JsonRpcIdView::Number(*n),
            JsonRpcId::Str(s) => JsonRpcIdView::Str(s@),
            JsonRpcId::Other => JsonRpcIdView::Other,
        }
    }
}

/// The parts of a JSON-RPC message the transport routes on.
#[derive(Debug, Clone)]
pub struct JsonEnvelope {
    /// The `method` member when it is a string.
    pub method: Option<String>,
    /// The `id` member, when present.
    pub id: Option<JsonRpcId>,
}

/// The view of an envelope.
pub open spec fn envelope_view(e: JsonEnvelope) -> (Option<Seq<char>>, Option<JsonRpcIdView>) {
    (
        match e.method {
            Some(m) => Some(m@),
            None => None,
        },
        match e.id {
            Some(i) => Some(i@),
            None => None,
        },
    )
}

/// The envelope of a JSON value: its `method` member when that is a
/// string, and its `id` member (a number as the integer it denotes, when it
/// is one that fits `i64`; a string as it is; any other value as `Other`).
/// A value that is no object has neither.
pub open spec fn value_envelope(v: JsonV) -> (Option<Seq<char>>, Option<JsonRpcIdView>) {
    match v {
        JsonV::Object(m) => (
            json::member_str(m, "method"@),
            match json::member(m, "id"@) {
                None => None,
                Some(JsonV::Number(t)) => Some(JsonRpcIdView::Number(text::parse_i64(t))),
                Some(JsonV::Str(s)) => Some(JsonRpcIdView::Str(s)),
                Some(_) => Some(JsonRpcIdView::Other),
            },
        ),
        _ => (None, None),
    }
}

/// What decoding `text` as JSON gives, reduced to its envelope: `None`
/// when `text` is no JSON text.
pub open spec fn json_envelope(text: Seq<char>) -> Option<(Option<Seq<char>>, Option<JsonRpcIdView>)> {
    match json_decoded(text) {
        Some(v) => Some(value_envelope(v)),
        None => None,
    }
}

/// Decodes `text` as JSON and reads its `method` (when a string) and `id`
/// members (see [`json_envelope`]).
pub(crate) fn parse_json_envelope(text: &str) -> (r: Option<JsonEnvelope>)
    ensures
        match r {
            Some(e) => json_envelope(text@) == Some(envelope_view(e)),
            None => json_envelope(text@) is None,
        },
{
    let v = match decode_json(text) {
        Some(v) => v,
        None => {
            return None;
        },
    };
    match &v {
        Json::Object(m) => {
            let method = match json::get_str(m, "method") {
                Some(x) => Some(x.clone()),
                None => None,
            };
            let id = match json::get_member(m, "id") {
                None => None,
                Some(Json::Number(t)) => {
                    let c = text::chars_of(t.as_str());
                    let n = c.len();
                    assert(c@.subrange(0, n as int) =~= t@);
                    Some(JsonRpcId::Number(text::parse_i64_range(&c, 0, n)))
                },
                Some(Json::Str(x)) => Some(JsonRpcId::Str(x.clone())),
                Some(_) => Some(JsonRpcId::Other),
            };
            Some(JsonEnvelope { method, id })
        },
        _ => Some(JsonEnvelope { method: None, id: None }),
    }
}

/// Whether a received id denotes `expected`: an integer equal to it, or a
/// string that parses (as `i64`) to it.
pub open spec fn id_matches(id: JsonRpcIdView, expected: i64) -> bool {
    match id {
        JsonRpcIdView::Number(n) => n == Some(expected),
        JsonRpcIdView::Str(s) => text::parse_i64(s) == Some(expected),
        JsonRpcIdView::Other => false,
    }
}

/// Structural JSON-RPC id comparison: ids may be integers or strings, and a
/// server may echo a numeric id back stringified.
pub fn json_id_eq(id: &JsonRpcId, expected: i64) -> (r: bool)
    ensures
        r == id_matches(id@, expected),
{
    match id {
        JsonRpcId::Number(n) => *n == Some(expected),
        JsonRpcId::Str(s) => {
            let v = text::chars_of(s.as_str());
            let n = v.len();
            assert(v@.subrange(0, n as int) =~= s@);
            text::parse_i64_range(&v, 0, n) == Some(expected)
        },
        JsonRpcId::Other => false,
    }
}

/// The data of an event block as the response extractor reads it: every
/// line starting with `data: ` (or else `data:`) contributes the rest of the
/// line; a piece is preceded by `\n` once something has been collected.
pub open spec fn response_data_fold(ls: Seq<Seq<char>>) -> Seq<char>
    decreases ls.len(),
{
    if ls.len() == 0 {
        Seq::empty()
    } else {
        let prev = response_data_fold(ls.drop_last());
        let l = ls.last();
        let piece = if text::starts_with(l, "data: "@) {
            Some(l.skip("data: "@.len() as int))
        } else if text::starts_with(l, "data:"@) {
            Some(l.skip("data:"@.len() as int))
        } else {
            None
        };
        match piece {
            None => prev,
            Some(x) => if prev.len() > 0 {
                prev + seq!['\n'] + x
            } else {
                prev + x
            },
        }
    }
}

/// Whether the data `d` of one event is the JSON-RPC response with id
/// `expected`.
pub open spec fn is_response_for(d: Seq<char>, expected: i64) -> bool {
    d.len() > 0 && match json_envelope(d) {
        Some(env) => match env.1 {
            Some(id) => id_matches(id, expected),
            None => false,
        },
        None => false,
    }
}

/// The data of the first of `blocks` that is the response to `expected`.
pub open spec fn first_response(blocks: Seq<Seq<char>>, expected: i64) -> Option<Seq<char>>
    decreases blocks.len(),
{
    if blocks.len() == 0 {
        None
    } else {
        let prev = first_response(blocks.drop_last(), expected);
        let d = response_data_fold(text::lines(blocks.last()));
        if prev is Some {
            prev
        } else if is_response_for(d, expected) {
            Some(d)
        } else {
            None
        }
    }
}

/// The last `id:` line wins: the id of two runs of lines is the second
/// run's id when it has one, the first run's otherwise.
pub proof fn law_last_id_wins(ls1: Seq<Seq<char>>, ls2: Seq<Seq<char>>)
    ensures
        id_fold(ls1 + ls2) == if id_fold(ls2) is Some {
            id_fold(ls2)
        } else {
            id_fold(ls1)
        },
    decreases ls2.len(),
{
    if ls2.len() == 0 {
        assert(ls1 + ls2 =~= ls1);
    } else {
        assert((ls1 + ls2).drop_last() =~= ls1 + ls2.drop_last());
        assert((ls1 + ls2).last() == ls2.last());
        law_last_id_wins(ls1, ls2.drop_last());
    }
}

/// The first valid `retry:` line wins: the retry of two runs of lines is
/// the first run's when it has one, the second run's otherwise.
pub proof fn law_first_retry_wins(ls1: Seq<Seq<char>>, ls2: Seq<Seq<char>>)
    ensures
        retry_fold(ls1 + ls2) == if retry_fold(ls1) is Some {
            retry_fold(ls1)
        } else {
            retry_fold(ls2)
        },
    decreases ls2.len(),
{
    if ls2.len() == 0 {
        assert(ls1 + ls2 =~= ls1);
    } else {
        assert((ls1 + ls2).drop_last() =~= ls1 + ls2.drop_last());
        assert((ls1 + ls2).last() == ls2.last());
        law_first_retry_wins(ls1, ls2.drop_last());
    }
}

/// The first response wins: in two runs of event blocks, the response to
/// `expected` is the first run's when it holds one, the second run's
/// otherwise.
pub proof fn law_first_response_wins(bs1: Seq<Seq<char>>, bs2: Seq<Seq<char>>, expected: i64)
    ensures
        first_response(bs1 + bs2, expected) == if first_response(bs1, expected) is Some {
            first_response(bs1, expected)
        } else {
            first_response(bs2, expected)
        },
    decreases bs2.len(),
{
    if bs2.len() == 0 {
        assert(bs1 + bs2 =~= bs1);
    } else {
        assert((bs1 + bs2).drop_last() =~= bs1 + bs2.drop_last());
        assert((bs1 + bs2).last() == bs2.last());
        law_first_response_wins(bs1, bs2.drop_last(), expected);
    }
}

/// `parts` joined with `\n` between consecutive parts.
pub open spec fn joined_lines(parts: Seq<Seq<char>>) -> Seq<char>
    decreases parts.len(),
{
    if parts.len() == 0 {
        Seq::empty()
    } else if parts.len() == 1 {
        parts[0]
    } else {
        joined_lines(parts.drop_last()) + seq!['\n'] + parts.last()
    }
}

/// The `data: ` lines carrying `parts`.
pub open spec fn data_lines(parts: Seq<Seq<char>>) -> Seq<Seq<char>> {
    parts.map_values(|p: Seq<char>| "data: "@ + p)
}

/// A `data: ` line is read as what follows the prefix.
proof fn lemma_data_line(p: Seq<char>)
    ensures
        text::starts_with("data: "@ + p, "data: "@),
        ("data: "@ + p).skip("data: "@.len() as int) == p,
        text::starts_with("data: "@ + p, "data:"@),
        ("data: "@ + p).skip("data:"@.len() as int) == seq![' '] + p,
{
    reveal_strlit("data: ");
    reveal_strlit("data:");
    assert(("data: "@ + p).subrange(0, 6) =~= "data: "@);
    assert(("data: "@ + p).subrange(0, 5) =~= "data:"@);
    assert(("data: "@ + p).skip(6) =~= p);
    assert(("data: "@ + p).skip(5) =~= seq![' '] + p);
}

/// The response extractor keeps every data line of an event: the data of
/// `data: ` lines carrying `parts` (the first not empty) is the parts joined
/// with `\n`, so a JSON message split over several data lines is read
/// whole.
pub proof fn law_response_data_joins_every_line(parts: Seq<Seq<char>>)
    requires
        parts.len() > 0 ==> parts[0].len() > 0,
    ensures
        response_data_fold(data_lines(parts)) == joined_lines(parts),
    decreases parts.len(),
{
    if parts.len() > 0 {
        let ls = data_lines(parts);
        assert(ls.drop_last() =~= data_lines(parts.drop_last()));
        lemma_data_line(parts.last());
        assert(ls.last() == "data: "@ + parts.last());
        if parts.len() > 1 {
            assert(parts.drop_last()[0] == parts[0]);
        }
        law_response_data_joins_every_line(parts.drop_last());
        lemma_joined_len(parts.drop_last());
        if parts.len() == 1 {
            assert(data_lines(parts.drop_last()) =~= Seq::<Seq<char>>::empty());
        }
    }
}

/// Parts whose first one is not empty join to a non-empty text.
proof fn lemma_joined_len(parts: Seq<Seq<char>>)
    requires
        parts.len() > 0 ==> parts[0].len() > 0,
    ensures
        parts.len() > 0 ==> joined_lines(parts).len() > 0,
    decreases parts.len(),
{
    if parts.len() > 1 {
        assert(parts.drop_last()[0] == parts[0]);
        lemma_joined_len(parts.drop_last());
    }
}

/// An event's data keeps every data line: the data of `data: ` lines
/// carrying `parts` is the parts joined with `\n` (none when there is no
/// data line).
pub proof fn law_event_data_joins_every_line(parts: Seq<Seq<char>>)
    ensures
        data_fold(data_lines(parts)) == if parts.len() == 0 {
            None
        } else {
            Some(joined_lines(parts))
        },
    decreases parts.len(),
{
    if parts.len() > 0 {
        let ls = data_lines(parts);
        assert(ls.drop_last() =~= data_lines(parts.drop_last()));
        lemma_data_line(parts.last());
        assert(ls.last() == "data: "@ + parts.last());
        assert(drop_one_space(seq![' '] + parts.last()) =~= parts.last());
        law_event_data_joins_every_line(parts.drop_last());
    }
}

/// The SSE events of a response body: `\r\n` normalised to `\n`, then split
/// at each blank line.
pub open spec fn sse_blocks(body: Seq<char>) -> Seq<Seq<char>> {
    text::split_pair(text::crlf_to_lf(body), '\n', '\n')
}

/// The response-extractor data of the event block `v[lo..hi]`.
fn block_response_data(v: &Vec<char>, lo: usize, hi: usize) -> (r: String)
    requires
        lo <= hi <= v@.len(),
    ensures
        r@ == response_data_fold(text::lines(v@.subrange(lo as int, hi as int))),
{
    let p6 = text::chars_of("data: ");
    let p5 = text::chars_of("data:");
    let mut out = String::new();
    let ghost mut done: Seq<Seq<char>> = seq![];
    let mut st: usize = lo;
    let ghost whole = v@.subrange(lo as int, hi as int);
    assert(v@.subrange(st as int, hi as int) =~= whole);
    while st < hi
        invariant
            lo <= st <= hi <= v@.len(),
            whole == v@.subrange(lo as int, hi as int),
            p6@ == "data: "@,
            p5@ == "data:"@,
            text::lines(whole) == done + text::lines(v@.subrange(st as int, hi as int)),
            out@ == response_data_fold(done),
        decreases hi - st,
    {
        let (a, b, next) = text::next_line(v, st, hi);
        let ghost line = v@.subrange(a as int, b as int);
        let piece: Option<usize> = if text::range_starts_with(v, a, b, &p6) {
            Some(a + p6.len())
        } else if text::range_starts_with(v, a, b, &p5) {
            Some(a + p5.len())
        } else {
            None
        };
        if let Some(start) = piece {
            proof {
                if text::starts_with(line, "data: "@) {
                    assert(line.skip("data: "@.len() as int) =~= v@.subrange(
                        start as int,
                        b as int,
                    ));
                } else {
                    assert(line.skip("data:"@.len() as int) =~= v@.subrange(
                        start as int,
                        b as int,
                    ));
                }
            }
            if out.unicode_len() > 0 {
                text::string_push(&mut out, '\n');
            }
            push_range(&mut out, v, start, b);
        }
        proof {
            let nd = done.push(line);
            assert(nd.drop_last() =~= done);
            assert(text::lines(whole) =~= nd + text::lines(v@.subrange(next as int, hi as int)));
            done = nd;
        }
        st = next;
    }
    assert(v@.subrange(st as int, hi as int) =~= Seq::<char>::empty());
    assert(done + text::lines(Seq::<char>::empty()) =~= done);
    out
}

/// Checks whether the event block `v[lo..hi]` is the response to
/// `expected`, returning its data if so.
fn block_response_for(v: &Vec<char>, lo: usize, hi: usize, expected: i64) -> (r: Option<String>)
    requires
        lo <= hi <= v@.len(),
    ensures
        ({
            let d = response_data_fold(text::lines(v@.subrange(lo as int, hi as int)));
            match r {
                Some(s) => is_response_for(d, expected) && s@ == d,
                None => !is_response_for(d, expected),
            }
        }),
{
    let data = block_response_data(v, lo, hi);
    if data.unicode_len() == 0 {
        return None;
    }
    match parse_json_envelope(data.as_str()) {
        None => None,
        Some(env) => match &env.id {
            Some(id) => if json_id_eq(id, expected) {
                Some(data)
            } else {
                None
            },
            None => None,
        },
    }
}

/// Find, in a Server-Sent Events response body, the JSON-RPC message whose
/// `id` matches `expected_id` (as an integer, or a string holding it), and
/// return its `data` text. Events before it (notifications, server requests,
/// unrelated responses, non-JSON data) are skipped. `Err` when no event
/// carries the id.
pub fn extract_response_by_id(sse_body: &str, expected_id: i64) -> (r: Result<String, McpError>)
    ensures
        match r {
            Ok(d) => first_response(sse_blocks(sse_body@), expected_id) == Some(d@),
            Err(e) => first_response(sse_blocks(sse_body@), expected_id) is None && e.status
                == crate::error::STATUS_INTERNAL && e.message@
                == "SSE stream ended without a response for request id="@ + text::signed_decimal(
                expected_id as int,
            ),
        },
{
    let raw = text::chars_of(sse_body);
    let v = text::crlf_to_lf_chars(&raw);
    let n = v.len();
    let ghost whole = v@;
    let ghost mut done: Seq<Seq<char>> = seq![];
    let mut st: usize = 0;
    assert(v@.subrange(0, n as int) =~= whole);
    loop
        invariant
            st <= n == v@.len(),
            whole == v@,
            whole == text::crlf_to_lf(sse_body@),
            text::split_pair(whole, '\n', '\n') == done + text::split_pair(
                v@.subrange(st as int, n as int),
                '\n',
                '\n',
            ),
            first_response(done, expected_id) is None,
        decreases n - st,
    {
        let ghost rest = v@.subrange(st as int, n as int);
        let found = text::find_pair(&v, st, n, '\n', '\n');
        let end = match found {
            Some(k) => k,
            None => n,
        };
        proof {
            text::lemma_index_of_pair_bounds(rest, '\n', '\n');
            if found is Some {
                assert(rest.take(end - st) =~= v@.subrange(st as int, end as int));
                assert(rest.skip(end - st + 2) =~= v@.subrange(end + 2, n as int));
            } else {
                assert(rest =~= v@.subrange(st as int, end as int));
            }
        }
        let ghost block = v@.subrange(st as int, end as int);
        let hit = block_response_for(&v, st, end, expected_id);
        proof {
            let nd = done.push(block);
            assert(nd.drop_last() =~= done);
        }
        if let Some(d) = hit {
            proof {
                let nd = done.push(block);
                assert(nd.drop_last() =~= done);
                lemma_first_response_prefix(nd, text::split_pair(whole, '\n', '\n'), expected_id);
            }
            return Ok(d);
        }
        match found {
            Some(k) => {
                proof {
                    let nd = done.push(block);
                    assert(text::split_pair(whole, '\n', '\n') =~= nd + text::split_pair(
                        v@.subrange(k + 2, n as int),
                        '\n',
                        '\n',
                    ));
                    done = nd;
                }
                st = k + 2;
            },
            None => {
                proof {
                    let nd = done.push(block);
                    assert(text::split_pair(whole, '\n', '\n') =~= nd);
                }
                let msg = String::from_str("SSE stream ended without a response for request id=")
                    .concat(text::signed_decimal_string(expected_id).as_str());
                return Err(McpError::internal_error(msg));
            },
        }
    }
}

/// The first response within a prefix that has one is the first response
/// of the whole sequence.
proof fn lemma_first_response_prefix(pre: Seq<Seq<char>>, all: Seq<Seq<char>>, e: i64)
    requires
        pre.len() <= all.len(),
        forall|i: int| 0 <= i < pre.len() ==> pre[i] == all[i],
        first_response(pre, e) is Some,
    ensures
        first_response(all, e) == first_response(pre, e),
    decreases all.len() - pre.len(),
{
    if pre.len() < all.len() {
        let bigger = all.subrange(0, pre.len() as int + 1);
        assert(bigger.drop_last() =~= pre);
        lemma_first_response_prefix(bigger, all, e);
    } else {
        assert(pre =~= all);
    }
}

} // verus!
