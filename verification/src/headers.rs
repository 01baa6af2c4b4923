//! Custom HTTP headers of a server: `${VAR}` expansion against the server's
//! environment variables, and turning the configured headers into a header
//! map with an error for every header that cannot be sent.
use crate::text;
use vstd::prelude::*;
use vstd::string::*;
use vstd::utf8::*;
use vstd::string::StringExecFns;
use reqwest::header::HeaderMap;

verus! {

/// The members of a JSON object as the header logic reads them: each key
/// with its value when that value is a string, `None` when it is any other
/// JSON value.
pub type StrFields = Vec<(String, Option<String>)>;

/// The view of one member.
pub open spec fn field_view(p: (String, Option<String>)) -> (Seq<char>, Option<Seq<char>>) {
    (
        p.0@,
        match p.1 {
            Some(v) => Some(v@),
            None => None,
        },
    )
}

/// The view of an object's members.
pub open spec fn fields_view(f: Seq<(String, Option<String>)>) -> Seq<(Seq<char>, Option<Seq<char>>)> {
    f.map_values(|p: (String, Option<String>)| field_view(p))
}

/// The member named `k`: `Some(Some(v))` for a string value, `Some(None)`
/// for another value, `None` when there is no such member.
pub open spec fn field_lookup(f: Seq<(Seq<char>, Option<Seq<char>>)>, k: Seq<char>) -> Option<
    Option<Seq<char>>,
>
    decreases f.len(),
{
    if f.len() == 0 {
        None
    } else if f[0].0 == k {
        Some(f[0].1)
    } else {
        field_lookup(f.drop_first(), k)
    }
}

/// `${NAME}` expansion of a header-value template: each `${NAME}` whose
/// closing brace exists is replaced by the string value of the variable
/// `NAME`, or kept literally when there is no such string variable; every
/// other character is kept as it is.
pub open spec fn expand_template(s: Seq<char>, env: Seq<(Seq<char>, Option<Seq<char>>)>) -> Seq<
    char,
>
    decreases s.len(),
{
    if s.len() == 0 {
        Seq::empty()
    } else if s.len() > 1 && s[0] == '$' && s[1] == '{' && text::index_of(s.skip(2), '}') >= 0 {
        let e = text::index_of(s.skip(2), '}');
        proof {
            text::lemma_index_of_bounds(s.skip(2), '}');
        }
        let piece = match field_lookup(env, s.subrange(2, 2 + e)) {
            Some(Some(v)) => v,
            _ => s.subrange(0, 3 + e),
        };
        piece + expand_template(s.skip(3 + e), env)
    } else {
        seq![s[0]] + expand_template(s.skip(1), env)
    }
}

/// Text without a `${` reference passes through the expansion untouched,
/// whatever the environment.
pub proof fn law_plain_text_passes_through(s: Seq<char>, env: Seq<(Seq<char>, Option<Seq<char>>)>)
    requires
        forall|i: int| 0 <= i < s.len() - 1 ==> !(#[trigger] s[i] == '$' && s[i + 1] == '{'),
    ensures
        expand_template(s, env) == s,
    decreases s.len(),
{
    if s.len() > 0 {
        assert forall|i: int| 0 <= i < s.skip(1).len() - 1 implies !(#[trigger] s.skip(1)[i] == '$'
            && s.skip(1)[i + 1] == '{') by {
            assert(s.skip(1)[i] == s[i + 1] && s.skip(1)[i + 1] == s[i + 2]);
        }
        law_plain_text_passes_through(s.skip(1), env);
        assert(seq![s[0]] + s.skip(1) =~= s);
    }
}

/// Text without a `${` reference is copied as it is, and the expansion
/// goes on with what follows it.
proof fn lemma_expand_plain_prefix(
    a: Seq<char>,
    rest: Seq<char>,
    env: Seq<(Seq<char>, Option<Seq<char>>)>,
)
    requires
        forall|i: int| 0 <= i < a.len() - 1 ==> !(#[trigger] a[i] == '$' && a[i + 1] == '{'),
        rest.len() > 0 ==> rest[0] != '{',
    ensures
        expand_template(a + rest, env) == a + expand_template(rest, env),
    decreases a.len(),
{
    if a.len() > 0 {
        let s = a + rest;
        assert(s[0] == a[0]);
        if a.len() > 1 {
            assert(s[1] == a[1]);
            assert(!(a[0] == '$' && a[1] == '{'));
        } else if rest.len() > 0 {
            assert(s[1] == rest[0]);
        }
        assert forall|i: int| 0 <= i < a.skip(1).len() - 1 implies !(#[trigger] a.skip(1)[i] == '$'
            && a.skip(1)[i + 1] == '{') by {
            assert(a.skip(1)[i] == a[i + 1] && a.skip(1)[i + 1] == a[i + 2]);
        }
        lemma_expand_plain_prefix(a.skip(1), rest, env);
        assert(s.skip(1) =~= a.skip(1) + rest);
        assert(seq![a[0]] + (a.skip(1) + expand_template(rest, env)) =~= a + expand_template(rest, env));
    }
}

/// Expansion goes through the whole template: for a template made of plain
/// text `a` (no `${` in it), a reference `${n}` and the rest `b`, the result
/// is `a`, then the value of `n` (or the reference itself, kept literally,
/// when `n` has no string value), then the expansion of `b`. So every
/// reference is resolved, not only the first one.
pub proof fn law_expansion_resolves_every_reference(
    a: Seq<char>,
    n: Seq<char>,
    b: Seq<char>,
    env: Seq<(Seq<char>, Option<Seq<char>>)>,
)
    requires
        forall|i: int| 0 <= i < a.len() - 1 ==> !(#[trigger] a[i] == '$' && a[i + 1] == '{'),
        forall|i: int| 0 <= i < n.len() ==> #[trigger] n[i] != '}',
    ensures
        expand_template(a + seq!['$', '{'] + n + seq!['}'] + b, env) == a + match field_lookup(env, n) {
            Some(Some(x)) => x,
            _ => seq!['$', '{'] + n + seq!['}'],
        } + expand_template(b, env),
{
    let r = seq!['$', '{'] + n + seq!['}'] + b;
    assert(a + seq!['$', '{'] + n + seq!['}'] + b =~= a + r);
    lemma_expand_plain_prefix(a, r, env);
    assert(r[0] == '$' && r[1] == '{');
    let t = r.skip(2);
    assert(t =~= n + seq!['}'] + b);
    assert(t[n.len() as int] == '}');
    assert forall|j: int| 0 <= j < n.len() implies t[j] != '}' by {
        assert(t[j] == n[j]);
    }
    text::lemma_index_of_found(t, '}', n.len() as int);
    let e = n.len() as int;
    assert(r.subrange(2, 2 + e) =~= n);
    assert(r.subrange(0, 3 + e) =~= seq!['$', '{'] + n + seq!['}']);
    assert(r.skip(3 + e) =~= b);
}

/// Two defined references in a row both give their values.
pub proof fn law_two_references_both_resolve(
    n1: Seq<char>,
    n2: Seq<char>,
    x1: Seq<char>,
    x2: Seq<char>,
    sep: Seq<char>,
    env: Seq<(Seq<char>, Option<Seq<char>>)>,
)
    requires
        forall|i: int| 0 <= i < n1.len() ==> #[trigger] n1[i] != '}',
        forall|i: int| 0 <= i < n2.len() ==> #[trigger] n2[i] != '}',
        forall|i: int| 0 <= i < sep.len() - 1 ==> !(#[trigger] sep[i] == '$' && sep[i + 1] == '{'),
        field_lookup(env, n1) == Some(Some(x1)),
        field_lookup(env, n2) == Some(Some(x2)),
    ensures
        expand_template(
            seq!['$', '{'] + n1 + seq!['}'] + sep + seq!['$', '{'] + n2 + seq!['}'],
            env,
        ) == x1 + sep + x2,
{
    let e = Seq::<char>::empty();
    let b = sep + seq!['$', '{'] + n2 + seq!['}'];
    law_expansion_resolves_every_reference(e, n1, b, env);
    assert(e + seq!['$', '{'] + n1 + seq!['}'] + b =~= seq!['$', '{'] + n1 + seq!['}'] + sep
        + seq!['$', '{'] + n2 + seq!['}']);
    law_expansion_resolves_every_reference(sep, n2, e, env);
    assert(sep + seq!['$', '{'] + n2 + seq!['}'] + e =~= b);
    assert(expand_template(e, env) =~= e);
    assert(e + x1 + (sep + x2 + e) =~= x1 + sep + x2);
}

/// `field_lookup` skips members whose key differs.
proof fn lemma_lookup_skip(f: Seq<(Seq<char>, Option<Seq<char>>)>, k: Seq<char>, j: int)
    requires
        0 <= j <= f.len(),
        forall|i: int| 0 <= i < j ==> f[i].0 != k,
    ensures
        field_lookup(f, k) == field_lookup(f.skip(j), k),
    decreases j,
{
    if j > 0 {
        assert(f[0].0 != k);
        assert forall|i: int| 0 <= i < j - 1 implies f.drop_first()[i].0 != k by {
            assert(f.drop_first()[i] == f[i + 1]);
        }
        lemma_lookup_skip(f.drop_first(), k, j - 1);
        assert(f.drop_first().skip(j - 1) =~= f.skip(j));
    } else {
        assert(f.skip(0) =~= f);
    }
}

/// The member of `f` whose key is `v[lo..hi]`.
pub(crate) fn lookup_range(f: &StrFields, v: &Vec<char>, lo: usize, hi: usize) -> (r: Option<Option<String>>)
    requires
        lo <= hi <= v@.len(),
    ensures
        match r {
            None => field_lookup(fields_view(f@), v@.subrange(lo as int, hi as int)) is None,
            Some(x) => field_lookup(fields_view(f@), v@.subrange(lo as int, hi as int)) == Some(
                match x {
                    Some(s) => Some(s@),
                    None => None::<Seq<char>>,
                },
            ),
        },
{
    let ghost k = v@.subrange(lo as int, hi as int);
    let ghost fv = fields_view(f@);
    let mut j: usize = 0;
    while j < f.len()
        invariant
            lo <= hi <= v@.len(),
            k == v@.subrange(lo as int, hi as int),
            fv == fields_view(f@),
            j <= f@.len(),
            forall|i: int| 0 <= i < j ==> fv[i].0 != k,
        decreases f@.len() - j,
    {
        let kc = text::chars_of(f[j].0.as_str());
        if text::range_eq(v, lo, hi, &kc) {
            proof {
                lemma_lookup_skip(fv, k, j as int);
                assert(fv.skip(j as int)[0] == fv[j as int]);
            }
            let val = match &f[j].1 {
                Some(s) => Some(s.clone()),
                None => None,
            };
            return Some(val);
        }
        j = j + 1;
    }
    proof {
        lemma_lookup_skip(fv, k, j as int);
        assert(fv.skip(j as int).len() == 0);
    }
    None
}

/// Appends `v[lo..hi]` to `out`.
fn push_range(out: &mut String, v: &Vec<char>, lo: usize, hi: usize)
    requires
        lo <= hi <= v@.len(),
    ensures
        final(out)@ == old(out)@ + v@.subrange(lo as int, hi as int),
{
    let ghost start = out@;
    let mut i = lo;
    while i < hi
        invariant
            lo <= i <= hi <= v@.len(),
            out@ == start + v@.subrange(lo as int, i as int),
        decreases hi - i,
    {
        text::string_push(out, v[i]);
        assert(v@.subrange(lo as int, i + 1) =~= v@.subrange(lo as int, i as int).push(v@[i as int]));
        i = i + 1;
    }
}

/// Expands `${VAR}` references in a header-value template against the
/// server's environment variables. An unknown variable (or one whose value
/// is not a string) is left as the literal `${NAME}`, so a misconfiguration
/// shows up as a literal token rather than an empty header; `$` not
/// followed by `{`, and a `${` without a closing `}`, are kept as they are.
pub fn expand_header_template(value: &str, env: &StrFields) -> (r: String)
    ensures
        r@ == expand_template(value@, fields_view(env@)),
{
    let v = text::chars_of(value);
    let n = v.len();
    let ghost ev = fields_view(env@);
    let mut out = String::new();
    let mut i: usize = 0;
    assert(v@.skip(0) =~= v@);
    while i < n
        invariant
            i <= n == v@.len(),
            v@ == value@,
            ev == fields_view(env@),
            out@ + expand_template(v@.skip(i as int), ev) == expand_template(v@, ev),
        decreases n - i,
    {
        let ghost s = v@.skip(i as int);
        let mut closed: Option<usize> = None;
        if i + 1 < n && v[i] == '$' && v[i + 1] == '{' {
            closed = text::find_char(&v, i + 2, n, '}');
        }
        match closed {
            Some(k) => {
                proof {
                    assert(s.skip(2) =~= v@.subrange(i + 2, n as int));
                    assert(s.subrange(2, 2 + (k - (i + 2))) =~= v@.subrange(i + 2, k as int));
                    assert(s.subrange(0, 3 + (k - (i + 2))) =~= v@.subrange(i as int, k + 1));
                    assert(s.skip(3 + (k - (i + 2))) =~= v@.skip(k + 1));
                }
                let ghost before = out@;
                match lookup_range(env, &v, i + 2, k) {
                    Some(Some(val)) => {
                        out.append(val.as_str());
                    },
                    _ => {
                        push_range(&mut out, &v, i, k + 1);
                    },
                }
                proof {
                    assert(out@ + expand_template(v@.skip(k + 1), ev) =~= before + expand_template(
                        s,
                        ev,
                    ));
                }
                i = k + 1;
            },
            None => {
                proof {
                    if i + 1 < n && v@[i as int] == '$' && v@[i + 1] == '{' {
                        assert(s.skip(2) =~= v@.subrange(i + 2, n as int));
                    }
                    assert(s[0] == v@[i as int]);
                    assert(s.skip(1) =~= v@.skip(i + 1));
                }
                let ghost before = out@;
                text::string_push(&mut out, v[i]);
                proof {
                    assert(out@ + expand_template(v@.skip(i + 1), ev) =~= before + expand_template(
                        s,
                        ev,
                    ));
                }
                i = i + 1;
            },
        }
    }
    proof {
        assert(v@.skip(n as int).len() == 0);
        assert(out@ + expand_template(v@.skip(n as int), ev) =~= out@);
    }
    out
}


/// One configured header that cannot be sent, with the reason; `name` is
/// the key exactly as configured.
#[derive(Debug, Clone, PartialEq, Eq)]
pub struct HeaderParseError {
    pub name: String,
    pub reason: String,
}

/// The view of a list of header errors, as `(name, reason)` pairs.
pub open spec fn errors_view(e: Seq<HeaderParseError>) -> Seq<(Seq<char>, Seq<char>)> {
    e.map_values(|x: HeaderParseError| (x.name@, x.reason@))
}

/// A token character, the characters a header name may hold.
pub open spec fn is_tchar(c: char) -> bool {
    ('a' <= c && c <= 'z') || ('A' <= c && c <= 'Z') || ('0' <= c && c <= '9') || c == '!' || c
        == '#' || c == '$' || c == '%' || c == '&' || c == '\'' || c == '*' || c == '+' || c == '-'
        || c == '.' || c == '^' || c == '_' || c == '`' || c == '|' || c == '~'
}

/// A valid header name: 1 to 65535 token characters.
pub open spec fn header_name_ok(s: Seq<char>) -> bool {
    0 < s.len() <= 65535 && forall|i: int| 0 <= i < s.len() ==> is_tchar(#[trigger] s[i])
}

/// A valid header value: no control character other than a tab.
pub open spec fn header_value_ok(s: Seq<char>) -> bool {
    forall|i: int|
        0 <= i < s.len() ==> (#[trigger] s[i] == '\t' || (s[i] >= ' ' && s[i] != '\x7f'))
}

/// Transport-level headers that custom headers may not set: the HTTP stack
/// derives them from the URL and body, and a user-supplied value could
/// smuggle requests or override the target host.
pub open spec fn reserved_headers() -> Seq<Seq<char>> {
    seq![
        "content-length"@,
        "transfer-encoding"@,
        "host"@,
        "connection"@,
        "keep-alive"@,
        "te"@,
        "trailer"@,
        "upgrade"@,
        "proxy-connection"@,
        "proxy-authorization"@,
        "proxy-authenticate"@,
    ]
}

/// Reason given for a header value that is not a string.
pub open spec fn reason_not_string() -> Seq<char> {
    "header value must be a string"@
}

/// Reason given for an invalid header name.
pub open spec fn reason_bad_name() -> Seq<char> {
    "invalid header name"@
}

/// Reason given for a header value the HTTP stack refuses.
pub open spec fn reason_bad_value() -> Seq<char> {
    "header value contains invalid characters (an interior newline or non-ASCII character?)"@
}

/// Reason given for a reserved header.
pub open spec fn reason_reserved(name: Seq<char>) -> Seq<char> {
    "\""@ + name + "\" is a reserved HTTP header and cannot be set via custom headers"@
}

/// What becomes of one configured header: `(true, name, value)` when it is
/// sent (lower-cased name, expanded and trimmed value), `(false, key,
/// reason)` when it is refused.
pub open spec fn header_outcome(
    key: Seq<char>,
    val: Option<Seq<char>>,
    env: Option<Seq<(Seq<char>, Option<Seq<char>>)>>,
) -> (bool, Seq<char>, Seq<char>) {
    match val {
        None => (false, key, reason_not_string()),
        Some(v) => {
            let expanded = match env {
                Some(e) => expand_template(v, e),
                None => v,
            };
            let t = text::trim(expanded);
            if !header_name_ok(key) {
                (false, key, reason_bad_name())
            } else if reserved_headers().contains(text::lower(key)) {
                (false, key, reason_reserved(text::lower(key)))
            } else if !header_value_ok(t) {
                (false, key, reason_bad_value())
            } else {
                (true, text::lower(key), t)
            }
        },
    }
}

/// The header map built from `h`: each sent header, in order, replaces the
/// values of its name with its one value.
pub open spec fn parsed_map(
    h: Seq<(Seq<char>, Option<Seq<char>>)>,
    env: Option<Seq<(Seq<char>, Option<Seq<char>>)>>,
) -> Map<Seq<char>, Seq<Seq<u8>>>
    decreases h.len(),
{
    if h.len() == 0 {
        Map::empty()
    } else {
        let prev = parsed_map(h.drop_last(), env);
        let o = header_outcome(h.last().0, h.last().1, env);
        if o.0 {
            prev.insert(o.1, seq![encode_utf8(o.2)])
        } else {
            prev
        }
    }
}

/// The refused headers of `h`, in order, as `(key, reason)`.
pub open spec fn parse_errors(
    h: Seq<(Seq<char>, Option<Seq<char>>)>,
    env: Option<Seq<(Seq<char>, Option<Seq<char>>)>>,
) -> Seq<(Seq<char>, Seq<char>)>
    decreases h.len(),
{
    if h.len() == 0 {
        Seq::empty()
    } else {
        let prev = parse_errors(h.drop_last(), env);
        let o = header_outcome(h.last().0, h.last().1, env);
        if o.0 {
            prev
        } else {
            prev.push((o.1, o.2))
        }
    }
}

/// The view of an optional object.
pub open spec fn opt_fields_view(o: Option<&StrFields>) -> Option<
    Seq<(Seq<char>, Option<Seq<char>>)>,
> {
    match o {
        Some(f) => Some(fields_view(f@)),
        None => None,
    }
}

#[verifier::external_type_specification]
#[verifier::external_body]
#[verifier::reject_recursive_types(T)]
pub struct ExHeaderMap<T>(reqwest::header::HeaderMap<T>);

#[verifier::external_type_specification]
#[verifier::external_body]
pub struct ExHeaderValue(reqwest::header::HeaderValue);

/// A map without any header.
pub open spec fn no_headers() -> Map<Seq<char>, Seq<Seq<u8>>> {
    Map::empty()
}

/// What a header map holds: each header name with its values, in order, as
/// bytes.
pub uninterp spec fn header_map_view(m: HeaderMap) -> Map<Seq<char>, Seq<Seq<u8>>>;

/// `HeaderMap::new`: a map with no header.
#[verifier::external_body]
pub(crate) fn header_map_new() -> (r: HeaderMap)
    ensures
        header_map_view(r) == no_headers(),
{
    HeaderMap::new()
}

/// `HeaderMap::insert` of `name` (a valid lower-case name, made a
/// `HeaderName` with `HeaderName::from_bytes`, which then keeps it as it
/// is) and `value` (a valid value, made a `HeaderValue` with
/// `HeaderValue::from_str`, which keeps its UTF-8 bytes): the values of
/// `name` are replaced by that one value. `insert` panics once the table
/// would grow past its maximum size (2^15 slots), which a map of fewer than
/// 6554 names never reaches.
#[verifier::external_body]
pub(crate) fn header_map_insert(m: &mut HeaderMap, name: &str, value: &str)
    requires
        header_name_ok(name@),
        text::lower(name@) == name@,
        header_value_ok(value@),
        header_map_view(*old(m)).dom().finite(),
        header_map_view(*old(m)).dom().len() < 6554,
    ensures
        header_map_view(*final(m)) == header_map_view(*old(m)).insert(
            name@,
            seq![encode_utf8(value@)],
        ),
{
    match (
        reqwest::header::HeaderName::from_bytes(name.as_bytes()),
        reqwest::header::HeaderValue::from_str(value),
    ) {
        (Ok(n), Ok(v)) => {
            m.insert(n, v);
        },
        _ => {},
    }
}

/// `HeaderName::from_bytes` on the bytes of `key`, read back with
/// `as_str`: for 1 to 65535 token characters, the key with ASCII letters
/// lower-cased; `None` for any other key.
#[verifier::external_body]
pub(crate) fn header_name_lowercase(key: &str) -> (r: Option<String>)
    ensures
        match r {
            Some(n) => header_name_ok(key@) && n@ == text::lower(key@),
            None => !header_name_ok(key@),
        },
{
    match reqwest::header::HeaderName::from_bytes(key.as_bytes()) {
        Ok(n) => Some(n.as_str().to_string()),
        Err(_) => None,
    }
}

/// `HeaderValue::from_str(v).is_ok()`: every byte is a tab, or at least a
/// space and not DEL; the bytes of a non-ASCII character all are.
#[verifier::external_body]
pub(crate) fn header_value_accepts(v: &str) -> (r: bool)
    ensures
        r == header_value_ok(v@),
{
    reqwest::header::HeaderValue::from_str(v).is_ok()
}

/// Whether `name` is one of the reserved transport headers.
fn is_reserved_header(name: &str) -> (r: bool)
    ensures
        r == reserved_headers().contains(name@),
{
    let r = text::str_eq(name, "content-length") || text::str_eq(name, "transfer-encoding")
        || text::str_eq(name, "host") || text::str_eq(name, "connection") || text::str_eq(
        name,
        "keep-alive",
    ) || text::str_eq(name, "te") || text::str_eq(name, "trailer") || text::str_eq(
        name,
        "upgrade",
    ) || text::str_eq(name, "proxy-connection") || text::str_eq(name, "proxy-authorization")
        || text::str_eq(name, "proxy-authenticate");
    proof {
        let l = reserved_headers();
        if r {
            if name@ == l[0] {
                assert(l[0] == name@);
            } else if name@ == l[1] {
                assert(l[1] == name@);
            } else if name@ == l[2] {
                assert(l[2] == name@);
            } else if name@ == l[3] {
                assert(l[3] == name@);
            } else if name@ == l[4] {
                assert(l[4] == name@);
            } else if name@ == l[5] {
                assert(l[5] == name@);
            } else if name@ == l[6] {
                assert(l[6] == name@);
            } else if name@ == l[7] {
                assert(l[7] == name@);
            } else if name@ == l[8] {
                assert(l[8] == name@);
            } else if name@ == l[9] {
                assert(l[9] == name@);
            } else {
                assert(l[10] == name@);
            }
        } else {
            assert forall|i: int| 0 <= i < l.len() implies l[i] != name@ by {}
        }
    }
    r
}

/// `s` with leading and trailing whitespace removed (`str::trim`).
pub fn trim_string(s: &str) -> (r: String)
    ensures
        r@ == text::trim(s@),
{
    let v = text::chars_of(s);
    let n = v.len();
    assert(v@.subrange(0, n as int) =~= s@);
    let (a, b) = text::trim_range(&v, 0, n);
    text::string_of_range(&v, a, b)
}

/// The fate of one configured header: `Ok((name, value))` when it is sent,
/// with the lower-cased name and the expanded, trimmed value; `Err(reason)`
/// when it is refused.
fn header_outcome_of(key: &String, val: &Option<String>, env: Option<&StrFields>) -> (r: Result<
    (String, String),
    String,
>)
    ensures
        match r {
            Ok((n, t)) => header_outcome(
                key@,
                match val {
                    Some(v) => Some(v@),
                    None => None,
                },
                opt_fields_view(env),
            ) == (true, n@, t@) && header_name_ok(n@) && text::lower(n@) == n@ && header_value_ok(
                t@,
            ),
            Err(reason) => header_outcome(
                key@,
                match val {
                    Some(v) => Some(v@),
                    None => None,
                },
                opt_fields_view(env),
            ) == (false, key@, reason@),
        },
{
    match val {
        None => Err(String::from_str("header value must be a string")),
        Some(v) => {
            let expanded = match env {
                Some(e) => expand_header_template(v.as_str(), e),
                None => v.clone(),
            };
            let trimmed = trim_string(expanded.as_str());
            match header_name_lowercase(key.as_str()) {
                None => Err(String::from_str("invalid header name")),
                Some(name) => {
                    if is_reserved_header(name.as_str()) {
                        Err(
                            text::concat3(
                                "\"",
                                name.as_str(),
                                "\" is a reserved HTTP header and cannot be set via custom headers",
                            ),
                        )
                    } else if header_value_accepts(trimmed.as_str()) {
                        proof {
                            assert forall|i: int| 0 <= i < name@.len() implies text::lower(name@)[i]
                                == name@[i] by {
                                assert(is_tchar(key@[i]));
                            }
                            assert(text::lower(name@) =~= name@);
                            assert forall|i: int| 0 <= i < name@.len() implies is_tchar(
                                name@[i],
                            ) by {
                                assert(is_tchar(key@[i]));
                            }
                        }
                        Ok((name, trimmed))
                    } else {
                        Err(
                            String::from_str(
                                "header value contains invalid characters (an interior newline or non-ASCII character?)",
                            ),
                        )
                    }
                },
            }
        },
    }
}

/// Turns configured headers (`headers`, when it is a JSON object) into a
/// header map. Each value is `${VAR}`-expanded against `env` (when it is an
/// object) and trimmed of surrounding whitespace, so a token pasted with a
/// trailing newline is still sent. Nothing is dropped silently: every
/// header that cannot be sent (a non-string value, an invalid name, a
/// reserved transport header, a value with control characters) is reported
/// with its reason, and the caller decides what to do with them.
pub fn parse_header_map(headers: Option<&StrFields>, env: Option<&StrFields>) -> (r: (HeaderMap, Vec<HeaderParseError>))
    requires
        match headers {
            Some(h) => h@.len() < 6554,
            None => true,
        },
    ensures
        match headers {
            None => header_map_view(r.0) == no_headers() && r.1@.len() == 0,
            Some(h) => header_map_view(r.0) == parsed_map(fields_view(h@), opt_fields_view(env))
                && errors_view(r.1@) == parse_errors(fields_view(h@), opt_fields_view(env)),
        },
{
    let mut map = header_map_new();
    let mut errors: Vec<HeaderParseError> = Vec::new();
    let h = match headers {
        None => {
            return (map, errors);
        },
        Some(h) => h,
    };
    let ghost hv = fields_view(h@);
    let ghost ev = opt_fields_view(env);
    let mut j: usize = 0;
    while j < h.len()
        invariant
            j <= h@.len() < 6554,
            hv == fields_view(h@),
            ev == opt_fields_view(env),
            header_map_view(map) == parsed_map(hv.take(j as int), ev),
            header_map_view(map).dom().finite(),
            header_map_view(map).dom().len() <= j,
            errors_view(errors@) == parse_errors(hv.take(j as int), ev),
        decreases h@.len() - j,
    {
        let ghost pre = hv.take(j as int);
        assert(hv.take(j + 1).drop_last() =~= pre);
        assert(hv.take(j + 1).last() == field_view(h@[j as int]));
        match header_outcome_of(&h[j].0, &h[j].1, env) {
            Ok((name, value)) => {
                header_map_insert(&mut map, name.as_str(), value.as_str());
            },
            Err(reason) => {
                errors.push(HeaderParseError { name: h[j].0.clone(), reason });
            },
        }
        proof {
            assert(errors_view(errors@) =~= parse_errors(hv.take(j + 1), ev));
        }
        j = j + 1;
    }
    assert(hv.take(j as int) =~= hv);
    (map, errors)
}

/// A header entry of a create or update request; a `None` value leaves the
/// saved value as it is.
#[derive(Debug, Clone, PartialEq, Eq)]
pub struct HeaderEntry {
    pub key: String,
    pub value: Option<String>,
    pub is_secret: bool,
}

/// The view of request entries as `(key, value)`.
pub open spec fn entries_view(e: Seq<HeaderEntry>) -> Seq<(Seq<char>, Option<Seq<char>>)> {
    e.map_values(
        |x: HeaderEntry|
            (
                x.key@,
                match x.value {
                    Some(v) => Some(v@),
                    None => None,
                },
            ),
    )
}

/// The value the entries give key `k` once collected into one JSON object:
/// that of the last entry with key `k` and a value.
pub open spec fn probe_value(e: Seq<(Seq<char>, Option<Seq<char>>)>, k: Seq<char>) -> Option<
    Seq<char>,
>
    decreases e.len(),
{
    if e.len() == 0 {
        None
    } else if e.last().0 == k && e.last().1 is Some {
        e.last().1
    } else {
        probe_value(e.drop_last(), k)
    }
}

/// Whether the collected value of key `k` is refused as a header (checked
/// literally: against an empty environment).
pub open spec fn probe_fails(e: Seq<(Seq<char>, Option<Seq<char>>)>, k: Seq<char>) -> bool {
    match probe_value(e, k) {
        Some(v) => !header_outcome(k, Some(v), Some(Seq::empty())).0,
        None => false,
    }
}

/// Lexicographic order of strings, character by character (the byte order
/// of their UTF-8 encodings).
pub open spec fn lex_lt(a: Seq<char>, b: Seq<char>) -> bool
    decreases a.len(),
{
    if a.len() == 0 {
        b.len() > 0
    } else if b.len() == 0 {
        false
    } else if a[0] != b[0] {
        a[0] < b[0]
    } else {
        lex_lt(a.drop_first(), b.drop_first())
    }
}

/// The Rust `Debug` rendering of a string: quoted, with escapes.
pub uninterp spec fn debug_str(s: Seq<char>) -> Seq<char>;

/// `format!("{:?}", s)`: the string quoted and escaped as `Debug` does; the
/// result is `debug_str(s@)`.
#[verifier::external_body]
pub(crate) fn debug_quote(s: &str) -> (r: String)
    ensures
        r@ == debug_str(s@),
{
    format!("{:?}", s)
}

/// Whether `a` sorts before `b`.
pub fn str_lex_lt(a: &str, b: &str) -> (r: bool)
    ensures
        r == lex_lt(a@, b@),
{
    let x = text::chars_of(a);
    let y = text::chars_of(b);
    let mut i: usize = 0;
    assert(x@.skip(0) =~= x@);
    assert(y@.skip(0) =~= y@);
    while i < x.len() && i < y.len() && x[i] == y[i]
        invariant
            x@ == a@,
            y@ == b@,
            i <= x@.len(),
            i <= y@.len(),
            lex_lt(a@, b@) == lex_lt(x@.skip(i as int), y@.skip(i as int)),
        decreases x@.len() - i,
    {
        proof {
            assert(x@.skip(i as int).drop_first() =~= x@.skip(i + 1));
            assert(y@.skip(i as int).drop_first() =~= y@.skip(i + 1));
        }
        i = i + 1;
    }
    if i == x.len() {
        i < y.len()
    } else if i == y.len() {
        false
    } else {
        x[i] < y[i]
    }
}

/// `probe_value` from the back: the last entry with key `k` and a value.
fn probe_value_of(entries: &Vec<HeaderEntry>, k: &String) -> (r: Option<String>)
    ensures
        match r {
            Some(v) => probe_value(entries_view(entries@), k@) == Some(v@),
            None => probe_value(entries_view(entries@), k@) is None,
        },
{
    let ghost ev = entries_view(entries@);
    let mut j: usize = entries.len();
    assert(ev.take(j as int) =~= ev);
    while j > 0
        invariant
            j <= entries@.len(),
            ev == entries_view(entries@),
            probe_value(ev, k@) == probe_value(ev.take(j as int), k@),
        decreases j,
    {
        let ghost t = ev.take(j as int);
        assert(t.drop_last() =~= ev.take(j - 1));
        assert(t.last() == ev[j - 1]);
        if entries[j - 1].key == *k {
            match &entries[j - 1].value {
                Some(v) => {
                    return Some(v.clone());
                },
                None => {},
            }
        }
        j = j - 1;
    }
    assert(ev.take(0).len() == 0);
    None
}

/// A key that has a collected value belongs to some entry.
proof fn lemma_probe_value_key(e: Seq<(Seq<char>, Option<Seq<char>>)>, k: Seq<char>)
    requires
        probe_value(e, k) is Some,
    ensures
        exists|i: int| 0 <= i < e.len() && e[i].0 == k && e[i].1 is Some,
    decreases e.len(),
{
    if !(e.last().0 == k && e.last().1 is Some) {
        lemma_probe_value_key(e.drop_last(), k);
        let i = choose|i: int| 0 <= i < e.drop_last().len() && e.drop_last()[i].0 == k && e.drop_last()[i].1 is Some;
        assert(e[i] == e.drop_last()[i]);
    } else {
        assert(e[e.len() - 1] == e.last());
    }
}

/// `lex_lt` is a strict total order.
pub proof fn lemma_lex_total(a: Seq<char>, b: Seq<char>)
    ensures
        a != b ==> (lex_lt(a, b) || lex_lt(b, a)),
        !(lex_lt(a, b) && lex_lt(b, a)),
        !lex_lt(a, a),
    decreases a.len(),
{
    if a.len() > 0 && b.len() > 0 && a[0] == b[0] {
        lemma_lex_total(a.drop_first(), b.drop_first());
        if a != b {
            assert(a =~= seq![a[0]] + a.drop_first());
            assert(b =~= seq![b[0]] + b.drop_first());
        }
    } else if a.len() == 0 && b.len() == 0 {
        assert(a =~= b);
    }
    if a.len() > 0 {
        lemma_lex_total(a.drop_first(), a.drop_first());
    }
}

/// `lex_lt` is transitive.
pub proof fn lemma_lex_trans(a: Seq<char>, b: Seq<char>, c: Seq<char>)
    requires
        lex_lt(a, b),
        lex_lt(b, c),
    ensures
        lex_lt(a, c),
    decreases a.len(),
{
    if a.len() > 0 && b.len() > 0 && c.len() > 0 && a[0] == b[0] && b[0] == c[0] {
        lemma_lex_trans(a.drop_first(), b.drop_first(), c.drop_first());
    }
}

/// Save-time check of request header entries: the entries that carry a
/// value are collected into one object (a repeated key keeps its last
/// value) and checked literally, without `${VAR}` expansion; the first
/// refused header in key order is reported as `400 INVALID_HEADER`.
pub fn validate_header_entries(entries: &Vec<HeaderEntry>) -> (r: Result<(), crate::error::McpError>)
    ensures
        r is Ok <==> forall|k: Seq<char>| !probe_fails(entries_view(entries@), k),
        r matches Err(err) ==> exists|k: Seq<char>|
            {
                &&& probe_fails(entries_view(entries@), k)
                &&& forall|k2: Seq<char>|
                    probe_fails(entries_view(entries@), k2) ==> !lex_lt(k2, k)
                &&& err.status == crate::error::STATUS_BAD_REQUEST
                &&& err.code@ == "INVALID_HEADER"@
                &&& err.message@ == "Invalid value for header "@ + debug_str(k) + ": "@
                    + header_outcome(
                    k,
                    probe_value(entries_view(entries@), k),
                    Some(Seq::empty()),
                ).2
            },
{
    let ghost ev = entries_view(entries@);
    let no_env: StrFields = Vec::new();
    let ghost nv = opt_fields_view(Some(&no_env));
    assert(nv == Some(Seq::<(Seq<char>, Option<Seq<char>>)>::empty()));
    let mut best: Option<(String, String)> = None;
    let mut j: usize = 0;
    while j < entries.len()
        invariant
            j <= entries@.len(),
            ev == entries_view(entries@),
            nv == opt_fields_view(Some(&no_env)),
            nv == Some(Seq::<(Seq<char>, Option<Seq<char>>)>::empty()),
            match best {
                None => forall|i: int| 0 <= i < j ==> !probe_fails(ev, #[trigger] ev[i].0),
                Some((bk, reason)) => {
                    &&& probe_fails(ev, bk@)
                    &&& reason@ == header_outcome(bk@, probe_value(ev, bk@), nv).2
                    &&& forall|i: int| 0 <= i < j && probe_fails(ev, #[trigger] ev[i].0) ==> !lex_lt(ev[i].0, bk@)
                },
            },
        decreases entries@.len() - j,
    {
        let key = &entries[j].key;
        assert(ev[j as int].0 == key@);
        let pv = probe_value_of(entries, key);
        match pv {
            None => {},
            Some(v) => {
                let sv = Some(v);
                match header_outcome_of(key, &sv, Some(&no_env)) {
                    Ok(_) => {},
                    Err(reason) => {
                        let better = match &best {
                            None => true,
                            Some((bk, _)) => str_lex_lt(key.as_str(), bk.as_str()),
                        };
                        if better {
                            proof {
                                match &best {
                                    None => {},
                                    Some((bk, _)) => {
                                        assert forall|i: int| 0 <= i < j && probe_fails(ev, #[trigger] ev[i].0) implies !lex_lt(ev[i].0, key@) by {
                                            lemma_lex_total(ev[i].0, bk@);
                                            lemma_lex_total(key@, bk@);
                                            if lex_lt(ev[i].0, key@) {
                                                lemma_lex_trans(ev[i].0, key@, bk@);
                                            }
                                        }
                                    },
                                }
                                lemma_lex_total(key@, key@);
                            }
                            best = Some((key.clone(), reason));
                        } else {
                            proof {
                                match &best {
                                    None => {},
                                    Some((bk, _)) => {
                                        lemma_lex_total(key@, bk@);
                                    },
                                }
                            }
                        }
                    },
                }
            },
        }
        j = j + 1;
    }
    match best {
        None => {
            proof {
                assert forall|k: Seq<char>| !probe_fails(ev, k) by {
                    if probe_fails(ev, k) {
                        lemma_probe_value_key(ev, k);
                        let i = choose|i: int| 0 <= i < ev.len() && ev[i].0 == k && ev[i].1 is Some;
                        assert(!probe_fails(ev, ev[i].0));
                    }
                }
            }
            Ok(())
        },
        Some((bk, reason)) => {
            proof {
                assert forall|k2: Seq<char>| probe_fails(ev, k2) implies !lex_lt(k2, bk@) by {
                    lemma_probe_value_key(ev, k2);
                    let i = choose|i: int| 0 <= i < ev.len() && ev[i].0 == k2 && ev[i].1 is Some;
                    assert(probe_fails(ev, ev[i].0));
                }
            }
            let quoted = debug_quote(bk.as_str());
            let mut msg = text::concat3("Invalid value for header ", quoted.as_str(), ": ");
            msg.append(reason.as_str());
            Err(crate::error::McpError::bad_request("INVALID_HEADER", msg))
        },
    }
}

} // verus!
