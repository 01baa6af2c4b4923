//! OAuth 2.1 `client_credentials` support for HTTP MCP servers: the stored
//! token and its validity rule, the `WWW-Authenticate: Bearer` challenge
//! parser, and the token-endpoint request forms.
use crate::clock;
use crate::error::McpError;
use crate::text;
use std::time::Instant;
use vstd::prelude::*;
use vstd::string::StringExecFns;
use vstd::string::StrSliceExecFns;

verus! {

/// Per-server OAuth `client_credentials` configuration.
#[derive(Debug, Clone)]
pub struct OAuthClientConfig {
    pub client_id: String,
    pub client_secret: String,
    /// Space-separated OAuth scopes, if the server requires specific ones.
    pub scopes: Option<String>,
    /// RFC 8707 resource indicator, usually the MCP server's own URL.
    pub resource: Option<String>,
}

/// A token obtained from the authorization server.
#[derive(Debug, Clone)]
pub struct StoredToken {
    pub access_token: String,
    pub refresh_token: Option<String>,
    /// Instant after which the token is expired; `None` when the server sent
    /// no `expires_in` (the token is treated as long-lived).
    pub expires_at: Option<Instant>,
}

/// Safety skew applied before the real expiry, in nanoseconds (30 s).
pub const TOKEN_EXPIRY_SKEW_NANOS: u128 = 30_000_000_000;

/// A token is valid at `now` when it has no expiry, or when more than the
/// 30 s skew remains until its expiry.
pub open spec fn token_valid_at(expires_at: Option<Instant>, now: Instant) -> bool {
    match expires_at {
        None => true,
        Some(exp) => clock::duration_nanos(clock::saturating_since(exp, now)) > TOKEN_EXPIRY_SKEW_NANOS,
    }
}

impl StoredToken {
    /// Is the token usable at `now`? The expiry is compared with a 30 s
    /// skew: the token counts as expired once `now + 30 s` is no longer
    /// before `expires_at`.
    pub fn is_valid_at(&self, now: Instant) -> (r: bool)
        ensures
            r == token_valid_at(self.expires_at, now),
    {
        match self.expires_at {
            None => true,
            Some(exp) => {
                let remaining = clock::instant_saturating_since(&exp, now);
                clock::duration_as_nanos(&remaining) > TOKEN_EXPIRY_SKEW_NANOS
            },
        }
    }

    /// Is the token still usable now (see [`StoredToken::is_valid_at`])?
    /// The result is the token's validity at the instant the clock is read
    /// during the call; which instant that is, only the clock knows. A token
    /// without expiry is always valid.
    pub fn is_valid(&self) -> (r: bool)
        ensures
            exists|now: Instant| r == #[trigger] token_valid_at(self.expires_at, now),
            self.expires_at is None ==> r,
    {
        let now = clock::instant_now();
        let r = self.is_valid_at(now);
        assert(r == token_valid_at(self.expires_at, now));
        r
    }
}

/// Parsed `WWW-Authenticate: Bearer …` challenge.
#[derive(Debug, Clone)]
pub struct WwwAuthenticate {
    pub resource_metadata: Option<String>,
    pub scope: Option<String>,
}

impl Default for WwwAuthenticate {
    fn default() -> (r: Self)
        ensures
            r.resource_metadata is None,
            r.scope is None,
    {
        WwwAuthenticate { resource_metadata: None, scope: None }
    }
}

/// The view of an optional string.
pub open spec fn opt_view(o: Option<String>) -> Option<Seq<char>> {
    match o {
        Some(s) => Some(s@),
        None => None,
    }
}

/// The challenge with a leading `Bearer` or `bearer` scheme token removed.
pub open spec fn strip_scheme(h: Seq<char>) -> Seq<char> {
    if text::starts_with(h, "Bearer"@) {
        h.skip("Bearer"@.len() as int)
    } else if text::starts_with(h, "bearer"@) {
        h.skip("bearer"@.len() as int)
    } else {
        h
    }
}

/// `(resource_metadata, scope)` after one comma-separated parameter: a
/// `key=value` part whose trimmed, ASCII-lower-cased key is one of the two
/// names sets that field to the trimmed value with its quotes removed.
pub open spec fn challenge_step(
    acc: (Option<Seq<char>>, Option<Seq<char>>),
    part: Seq<char>,
) -> (Option<Seq<char>>, Option<Seq<char>>) {
    let tp = text::trim(part);
    let i = text::index_of(tp, '=');
    if i < 0 {
        acc
    } else {
        let key = text::lower(text::trim(tp.take(i)));
        let val = text::trim_matches(text::trim(tp.skip(i + 1)), '"');
        if key == "resource_metadata"@ {
            (Some(val), acc.1)
        } else if key == "scope"@ {
            (acc.0, Some(val))
        } else {
            acc
        }
    }
}

/// The parameters `parts`, applied left to right (a later one wins).
pub open spec fn challenge_fold(parts: Seq<Seq<char>>) -> (Option<Seq<char>>, Option<Seq<char>>)
    decreases parts.len(),
{
    if parts.len() == 0 {
        (None, None)
    } else {
        challenge_step(challenge_fold(parts.drop_last()), parts.last())
    }
}

/// A later parameter wins, field by field: in two runs of parameters, each
/// of `resource_metadata` and `scope` is the second run's when it sets it,
/// the first run's otherwise.
pub proof fn law_later_challenge_parameter_wins(ps1: Seq<Seq<char>>, ps2: Seq<Seq<char>>)
    ensures
        challenge_fold(ps1 + ps2).0 == if challenge_fold(ps2).0 is Some {
            challenge_fold(ps2).0
        } else {
            challenge_fold(ps1).0
        },
        challenge_fold(ps1 + ps2).1 == if challenge_fold(ps2).1 is Some {
            challenge_fold(ps2).1
        } else {
            challenge_fold(ps1).1
        },
    decreases ps2.len(),
{
    if ps2.len() == 0 {
        assert(ps1 + ps2 =~= ps1);
    } else {
        assert((ps1 + ps2).drop_last() =~= ps1 + ps2.drop_last());
        assert((ps1 + ps2).last() == ps2.last());
        law_later_challenge_parameter_wins(ps1, ps2.drop_last());
    }
}

/// What `parse_www_authenticate` makes of the header value `h`.
pub open spec fn parse_challenge(h: Seq<char>) -> (Option<Seq<char>>, Option<Seq<char>>) {
    challenge_fold(text::split(text::trim(strip_scheme(h)), ','))
}

/// Applies one `key=value` parameter held in `v[a..b]`.
fn apply_challenge_param(
    v: &Vec<char>,
    a: usize,
    b: usize,
    rm_key: &Vec<char>,
    scope_key: &Vec<char>,
    rm: &mut Option<String>,
    scope: &mut Option<String>,
)
    requires
        a <= b <= v@.len(),
        rm_key@ == "resource_metadata"@,
        scope_key@ == "scope"@,
    ensures
        (opt_view(*final(rm)), opt_view(*final(scope))) == challenge_step(
            (opt_view(*old(rm)), opt_view(*old(scope))),
            v@.subrange(a as int, b as int),
        ),
{
    let (ta, tb) = text::trim_range(v, a, b);
    let ghost tp = v@.subrange(ta as int, tb as int);
    match text::find_char(v, ta, tb, '=') {
        None => {},
        Some(k) => {
            let ghost i = k - ta;
            assert(tp.take(i) =~= v@.subrange(ta as int, k as int));
            assert(tp.skip(i + 1) =~= v@.subrange(k + 1, tb as int));
            let (ka, kb) = text::trim_range(v, ta, k);
            let (va, vb) = text::trim_range(v, k + 1, tb);
            let (qa, qb) = text::trim_char_range(v, va, vb, '"');
            if text::range_lower_eq(v, ka, kb, rm_key) {
                *rm = Some(text::string_of_range(v, qa, qb));
            } else if text::range_lower_eq(v, ka, kb, scope_key) {
                *scope = Some(text::string_of_range(v, qa, qb));
            }
        },
    }
}

/// Parse the `WWW-Authenticate` header value for the `Bearer` parameters
/// `resource_metadata` and `scope`. A leading `Bearer`/`bearer` scheme token
/// is dropped, the rest is split on `,`; in each `key=value` part the key is
/// trimmed and compared case-insensitively, the value is trimmed and
/// stripped of surrounding double quotes. Unknown keys and parts without `=`
/// are ignored; a repeated key keeps its last value.
pub fn parse_www_authenticate(header: &str) -> (r: WwwAuthenticate)
    ensures
        (opt_view(r.resource_metadata), opt_view(r.scope)) == parse_challenge(header@),
{
    let v = text::chars_of(header);
    let n = v.len();
    let upper = text::chars_of("Bearer");
    let lowerb = text::chars_of("bearer");
    let start: usize = if text::range_starts_with(&v, 0, n, &upper) {
        upper.len()
    } else if text::range_starts_with(&v, 0, n, &lowerb) {
        lowerb.len()
    } else {
        0
    };
    assert(v@.subrange(0, n as int) =~= v@);
    assert(v@.subrange(start as int, n as int) =~= strip_scheme(header@));
    let (lo, hi) = text::trim_range(&v, start, n);
    let rm_key = text::chars_of("resource_metadata");
    let scope_key = text::chars_of("scope");
    let mut rm: Option<String> = None;
    let mut scope: Option<String> = None;
    let ghost whole = v@.subrange(lo as int, hi as int);
    let ghost mut done: Seq<Seq<char>> = seq![];
    let mut st = lo;
    assert(v@.subrange(st as int, hi as int) =~= whole);
    assert(text::split(whole, ',') =~= done + text::split(v@.subrange(st as int, hi as int), ','));
    loop
        invariant
            lo <= st <= hi <= v@.len(),
            whole == v@.subrange(lo as int, hi as int),
            whole == text::trim(strip_scheme(header@)),
            rm_key@ == "resource_metadata"@,
            scope_key@ == "scope"@,
            text::split(whole, ',') == done + text::split(v@.subrange(st as int, hi as int), ','),
            (opt_view(rm), opt_view(scope)) == challenge_fold(done),
        decreases hi - st,
    {
        let ghost rest = v@.subrange(st as int, hi as int);
        match text::find_char(&v, st, hi, ',') {
            Some(k) => {
                proof {
                    text::lemma_index_of_bounds(rest, ',');
                    assert(rest.take(k - st) =~= v@.subrange(st as int, k as int));
                    assert(rest.skip(k - st + 1) =~= v@.subrange(k + 1, hi as int));
                }
                apply_challenge_param(&v, st, k, &rm_key, &scope_key, &mut rm, &mut scope);
                proof {
                    let piece = v@.subrange(st as int, k as int);
                    let next = done.push(piece);
                    assert(next.drop_last() =~= done);
                    assert(text::split(whole, ',') =~= next + text::split(
                        v@.subrange(k + 1, hi as int),
                        ',',
                    ));
                    done = next;
                }
                st = k + 1;
            },
            None => {
                apply_challenge_param(&v, st, hi, &rm_key, &scope_key, &mut rm, &mut scope);
                proof {
                    let next = done.push(rest);
                    assert(next.drop_last() =~= done);
                    assert(text::split(whole, ',') =~= next);
                }
                return WwwAuthenticate { resource_metadata: rm, scope };
            },
        }
    }
}

/// The view of form fields.
pub open spec fn form_view(f: Seq<(String, String)>) -> Seq<(Seq<char>, Seq<char>)> {
    f.map_values(|p: (String, String)| (p.0@, p.1@))
}

/// The form of a `client_credentials` grant: the grant type, the scopes
/// when configured and not empty, the resource indicator when configured.
pub open spec fn client_credentials_fields(
    scopes: Option<Seq<char>>,
    resource: Option<Seq<char>>,
) -> Seq<(Seq<char>, Seq<char>)> {
    let base = seq![("grant_type"@, "client_credentials"@)];
    let with_scope = match scopes {
        Some(s) => if s.len() > 0 {
            base.push(("scope"@, s))
        } else {
            base
        },
        None => base,
    };
    match resource {
        Some(r) => with_scope.push(("resource"@, r)),
        None => with_scope,
    }
}

/// The names of a form's fields.
pub open spec fn has_field(form: Seq<(Seq<char>, Seq<char>)>, name: Seq<char>) -> bool {
    exists|i: int| 0 <= i < form.len() && #[trigger] form[i].0 == name
}

/// The resource indicator (RFC 8707) is sent whenever it is configured,
/// whatever the scopes: the form then ends with it, and it has a `resource`
/// field exactly when one is configured; it always starts with the grant
/// type, and it has a `scope` field exactly when a non-empty scope is
/// configured.
pub proof fn law_resource_sent_whenever_configured(
    scopes: Option<Seq<char>>,
    resource: Option<Seq<char>>,
)
    ensures
        client_credentials_fields(scopes, resource).len() > 0,
        client_credentials_fields(scopes, resource)[0] == ("grant_type"@, "client_credentials"@),
        resource matches Some(r) ==> client_credentials_fields(scopes, resource).last() == (
            "resource"@,
            r,
        ),
        has_field(client_credentials_fields(scopes, resource), "resource"@) <==> resource is Some,
        has_field(client_credentials_fields(scopes, resource), "scope"@) <==> (scopes matches Some(
            s,
        ) && s.len() > 0),
{
    reveal_strlit("grant_type");
    reveal_strlit("scope");
    reveal_strlit("resource");
    let f = client_credentials_fields(scopes, resource);
    assert("grant_type"@ != "resource"@ && "grant_type"@ != "scope"@ && "scope"@ != "resource"@) by {
        assert("grant_type"@[0] != "resource"@[0]);
        assert("grant_type"@[0] != "scope"@[0]);
        assert("scope"@[0] != "resource"@[0]);
    }
    if resource is Some {
        assert(f[f.len() - 1].0 == "resource"@);
    }
    if scopes matches Some(s) && s.len() > 0 {
        assert(f[1].0 == "scope"@);
    }
}

/// The form posted to the token endpoint for a `client_credentials` grant.
pub fn client_credentials_form(config: &OAuthClientConfig) -> (r: Vec<(String, String)>)
    ensures
        form_view(r@) == client_credentials_fields(opt_view(config.scopes), opt_view(config.resource)),
{
    let mut form: Vec<(String, String)> = Vec::new();
    form.push((String::from_str("grant_type"), String::from_str("client_credentials")));
    if let Some(scope) = &config.scopes {
        if scope.as_str().unicode_len() > 0 {
            form.push((String::from_str("scope"), scope.clone()));
        }
    }
    if let Some(resource) = &config.resource {
        form.push((String::from_str("resource"), resource.clone()));
    }
    assert(form_view(form@) =~= client_credentials_fields(
        opt_view(config.scopes),
        opt_view(config.resource),
    ));
    form
}

/// The form posted to the token endpoint to refresh a token.
pub fn refresh_token_form(refresh: &str) -> (r: Vec<(String, String)>)
    ensures
        form_view(r@) == seq![("grant_type"@, "refresh_token"@), ("refresh_token"@, refresh@)],
{
    let mut form: Vec<(String, String)> = Vec::new();
    form.push((String::from_str("grant_type"), String::from_str("refresh_token")));
    form.push((String::from_str("refresh_token"), String::from_str(refresh)));
    assert(form_view(form@) =~= seq![("grant_type"@, "refresh_token"@), ("refresh_token"@, refresh@)]);
    form
}

/// The `Authorization` value of HTTP Basic client authentication:
/// `Basic ` and the base64 of `client_id:client_secret` (UTF-8).
pub fn basic_authorization(config: &OAuthClientConfig) -> (r: String)
    requires
        config.client_id@.len() + config.client_secret@.len() < usize::MAX / 8,
    ensures
        r@ == "Basic "@ + crate::codec::base64_text(
            vstd::utf8::encode_utf8(config.client_id@ + ":"@ + config.client_secret@),
        ),
{
    let joined = text::concat3(config.client_id.as_str(), ":", config.client_secret.as_str());
    proof {
        reveal_strlit(":");
        crate::codec::lemma_utf8_len_bound(joined@);
    }
    let bytes = joined.as_str().as_bytes();
    let encoded = crate::codec::base64_encode(bytes);
    text::concat2("Basic ", encoded.as_str())
}

/// The well-known metadata documents of an authorization server, tried in
/// turn, and the endpoint assumed when neither names one: under the base
/// URL with its trailing `/`s removed.
pub fn token_endpoint_candidates(as_base: &str) -> (r: (String, String, String))
    ensures
        r.0@ == text::strip_trail(as_base@, '/') + "/.well-known/oauth-authorization-server"@,
        r.1@ == text::strip_trail(as_base@, '/') + "/.well-known/openid-configuration"@,
        r.2@ == text::strip_trail(as_base@, '/') + "/token"@,
{
    let v = text::chars_of(as_base);
    let n = v.len();
    let mut b = n;
    assert(v@.take(n as int) =~= v@);
    while b > 0 && v[b - 1] == '/'
        invariant
            b <= n == v@.len(),
            v@ == as_base@,
            text::strip_trail(as_base@, '/') == text::strip_trail(v@.take(b as int), '/'),
        decreases b,
    {
        assert(v@.take(b as int).drop_last() =~= v@.take(b - 1));
        b = b - 1;
    }
    assert(v@.take(n as int) =~= v@);
    assert(v@.subrange(0, b as int) =~= v@.take(b as int));
    let base = text::string_of_range(&v, 0, b);
    (
        text::concat2(base.as_str(), "/.well-known/oauth-authorization-server"),
        text::concat2(base.as_str(), "/.well-known/openid-configuration"),
        text::concat2(base.as_str(), "/token"),
    )
}

/// The authorization server a protected resource names first; refused
/// when it lists none.
pub fn first_authorization_server(servers: &Vec<String>) -> (r: Result<String, McpError>)
    ensures
        servers@.len() > 0 ==> (r matches Ok(s) && s@ == servers@[0]@),
        servers@.len() == 0 ==> (r matches Err(e) && e.status == crate::error::STATUS_INTERNAL
            && e.message@ == "OAuth PRM lists no authorization_servers"@),
{
    if servers.len() > 0 {
        Ok(servers[0].clone())
    } else {
        Err(McpError::internal_error(String::from_str("OAuth PRM lists no authorization_servers")))
    }
}

/// The message of a token request answered with a non-success status:
/// `status_line` (the status as the HTTP stack prints it) and the body's
/// first 200 characters.
pub fn token_endpoint_error(status_line: &str, body: &str) -> (r: String)
    ensures
        r@ == "OAuth token endpoint returned HTTP "@ + status_line@ + ": "@ + body@.take(
            if body@.len() < 200 {
                body@.len() as int
            } else {
                200
            },
        ),
{
    let v = text::chars_of(body);
    let k: usize = if v.len() < 200 {
        v.len()
    } else {
        200
    };
    let head = text::string_of_range(&v, 0, k);
    assert(v@.subrange(0, k as int) =~= body@.take(k as int));
    let r = text::concat3("OAuth token endpoint returned HTTP ", status_line, ": ");
    text::concat2(r.as_str(), head.as_str())
}

/// The challenge's `resource_metadata` URL, without which the
/// authorization server cannot be discovered.
pub fn challenge_metadata_url(challenge: &WwwAuthenticate) -> (r: Result<String, McpError>)
    ensures
        match challenge.resource_metadata {
            Some(u) => r matches Ok(s) && s@ == u@,
            None => r matches Err(e) && e.status == crate::error::STATUS_INTERNAL && e.message@
                == "OAuth challenge missing resource_metadata; cannot discover authorization server"@,
        },
{
    match &challenge.resource_metadata {
        Some(u) => Ok(u.clone()),
        None => Err(
            McpError::internal_error(
                String::from_str(
                    "OAuth challenge missing resource_metadata; cannot discover authorization server",
                ),
            ),
        ),
    }
}

} // verus!
