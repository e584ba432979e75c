//! The streaming proxy forwarder.
//!
//! For an authorized request it builds the upstream request URL: the
//! shape's table and predicate as fixed query parameters, the bound
//! values as ordinal `params[n]` parameters, only the allow-listed
//! transport-control client parameters, and the shared secret where one
//! is configured. Response headers are forwarded minus the two the
//! pass-through invalidates, plus `Vary: Authorization`. The body relay
//! itself is unbuffered I/O and lives outside the verified core.

use vstd::prelude::*;
use vstd::string::StringExecFns;

use crate::authz::AccessControl;
use crate::ids::{uuid_string, uuid_text};
use crate::scope::{authorize_scope, key_present, scope_authorized, spec_bound_values,
    bound_values, RequestContext, ShapeScope};
use crate::shape::{ShapeDefinition, ShapeModel};
use crate::text::{dec_rep, decimal_string, str_eq};

verus! {

/// One query parameter or header: a key/value pair of text.
pub struct QueryPair {
    pub key: String,
    pub value: String,
}

impl View for QueryPair {
    type V = (Seq<char>, Seq<char>);

    open spec fn view(&self) -> (Seq<char>, Seq<char>) {
        (self.key@, self.value@)
    }
}

/// The key/value views of a pair sequence.
pub open spec fn kv_view(ps: Seq<QueryPair>) -> Seq<(Seq<char>, Seq<char>)> {
    ps.map_values(|p: QueryPair| p@)
}

/// The transport-control allowlist: the only client-supplied query
/// parameters ever forwarded to the upstream origin.
pub open spec fn transport_key(k: Seq<char>) -> bool {
    k == "offset"@ || k == "handle"@ || k == "live"@ || k == "cursor"@ || k == "columns"@
}

/// Whether the key is on the transport-control allowlist.
pub fn is_transport_key(k: &str) -> (r: bool)
    ensures
        r == transport_key(k@),
{
    str_eq(k, "offset") || str_eq(k, "handle") || str_eq(k, "live") || str_eq(k, "cursor")
        || str_eq(k, "columns")
}

/// The client pairs that survive the allowlist filter, in order.
pub open spec fn kept_client_pairs(client: Seq<(Seq<char>, Seq<char>)>) -> Seq<
    (Seq<char>, Seq<char>),
>
    decreases client.len(),
{
    if client.len() == 0 {
        Seq::empty()
    } else if transport_key(client.last().0) {
        kept_client_pairs(client.drop_last()).push(client.last())
    } else {
        kept_client_pairs(client.drop_last())
    }
}

/// The ordinal parameter pairs: the i-th bound value, rendered as UUID
/// text, under the key `params[i]`, ordinals starting at 1.
pub open spec fn params_pairs(bound: Seq<u128>) -> Seq<(Seq<char>, Seq<char>)>
    decreases bound.len(),
{
    if bound.len() == 0 {
        Seq::empty()
    } else {
        params_pairs(bound.drop_last()).push(
            ("params["@ + dec_rep(bound.len()) + "]"@, uuid_text(bound.last())),
        )
    }
}

/// The secret pair, where a shared secret is configured.
pub open spec fn secret_pairs(secret: Option<Seq<char>>) -> Seq<(Seq<char>, Seq<char>)> {
    match secret {
        Some(s) => seq![("secret"@, s)],
        None => Seq::empty(),
    }
}

/// The full ordered query-pair sequence of the upstream request: table
/// and predicate fixed server-side, bound values by ordinal, allow-listed
/// client parameters, then the secret.
pub open spec fn upstream_pairs(
    shape: ShapeModel,
    bound: Seq<u128>,
    client: Seq<(Seq<char>, Seq<char>)>,
    secret: Option<Seq<char>>,
) -> Seq<(Seq<char>, Seq<char>)> {
    seq![("table"@, shape.table), ("where"@, shape.where_clause)] + params_pairs(bound)
        + kept_client_pairs(client) + secret_pairs(secret)
}

fn params_key(ordinal: usize) -> (r: String)
    ensures
        r@ == "params["@ + dec_rep(ordinal as nat) + "]"@,
{
    let mut s = String::from_str("params[");
    let digits = decimal_string(ordinal);
    s.append(digits.as_str());
    s.append("]");
    s
}

/// Builds the upstream query pairs for a shape and its bound values,
/// forwarding only allow-listed client parameters.
pub fn build_upstream_pairs(
    shape: &ShapeDefinition,
    bound: &Vec<u128>,
    client: &Vec<QueryPair>,
    secret: &Option<String>,
) -> (r: Vec<QueryPair>)
    ensures
        kv_view(r@) == upstream_pairs(shape@, bound@, kv_view(client@), spec_secret(*secret)),
{
    let ghost goal = upstream_pairs(shape@, bound@, kv_view(client@), spec_secret(*secret));
    let mut out: Vec<QueryPair> = Vec::new();
    out.push(QueryPair { key: String::from_str("table"), value: clone_string(&shape.table) });
    out.push(
        QueryPair { key: String::from_str("where"), value: clone_string(&shape.where_clause) },
    );
    let ghost prefix = seq![("table"@, shape@.table), ("where"@, shape@.where_clause)];
    proof {
        assert(kv_view(out@) =~= prefix);
    }
    let bn = bound.len();
    let mut i: usize = 0;
    while i < bn
        invariant
            bn == bound@.len(),
            i <= bn,
            kv_view(out@) == prefix + params_pairs(bound@.take(i as int)),
            prefix == seq![("table"@, shape@.table), ("where"@, shape@.where_clause)],
        decreases bn - i,
    {
        let key = params_key(i + 1);
        let value = uuid_string(bound[i]);
        let ghost old_view = kv_view(out@);
        out.push(QueryPair { key, value });
        proof {
            let t1 = bound@.take(i + 1);
            assert(t1.drop_last() =~= bound@.take(i as int));
            assert(t1.last() == bound@[i as int]);
            assert(t1.len() == i + 1);
            let newp = ("params["@ + dec_rep((i + 1) as nat) + "]"@, uuid_text(
                bound@[i as int],
            ));
            assert(params_pairs(t1) == params_pairs(bound@.take(i as int)).push(newp));
            assert(kv_view(out@) =~= old_view.push(newp));
            assert(old_view.push(newp) =~= prefix + params_pairs(t1));
            assert(kv_view(out@) == prefix + params_pairs(bound@.take(i + 1)));
        }
        i += 1;
    }
    proof {
        assert(bound@.take(bn as int) =~= bound@);
    }
    let ghost mid = prefix + params_pairs(bound@);
    let cn = client.len();
    let mut j: usize = 0;
    while j < cn
        invariant
            cn == client@.len(),
            j <= cn,
            kv_view(out@) == mid + kept_client_pairs(kv_view(client@).take(j as int)),
            mid == seq![("table"@, shape@.table), ("where"@, shape@.where_clause)]
                + params_pairs(bound@),
        decreases cn - j,
    {
        let p = &client[j];
        proof {
            let t1 = kv_view(client@).take(j + 1);
            assert(t1.drop_last() =~= kv_view(client@).take(j as int));
            assert(t1.last() == client@[j as int]@);
        }
        if is_transport_key(p.key.as_str()) {
            let ghost old_view = kv_view(out@);
            out.push(QueryPair { key: clone_string(&p.key), value: clone_string(&p.value) });
            proof {
                let t1 = kv_view(client@).take(j + 1);
                let newp = client@[j as int]@;
                assert(kept_client_pairs(t1) == kept_client_pairs(
                    kv_view(client@).take(j as int),
                ).push(newp));
                assert(kv_view(out@) =~= old_view.push(newp));
                assert(old_view.push(newp) =~= mid + kept_client_pairs(t1));
                assert(kv_view(out@) == mid + kept_client_pairs(kv_view(client@).take(j + 1)));
            }
        } else {
            proof {
                assert(kept_client_pairs(kv_view(client@).take(j + 1)) == kept_client_pairs(
                    kv_view(client@).take(j as int),
                ));
            }
        }
        j += 1;
    }
    proof {
        assert(kv_view(client@).take(cn as int) =~= kv_view(client@));
    }
    match secret {
        Some(s) => {
            out.push(QueryPair { key: String::from_str("secret"), value: clone_string(s) });
            proof {
                assert(kv_view(out@) =~= goal);
            }
        },
        None => {
            proof {
                assert(kv_view(out@) =~= goal);
            }
        },
    }
    out
}

fn clone_string(s: &String) -> (r: String)
    ensures
        r@ == s@,
{
    s.clone()
}

/// The view of an optional secret.
pub open spec fn spec_secret(secret: Option<String>) -> Option<Seq<char>> {
    match secret {
        Some(s) => Some(s@),
        None => None,
    }
}

#[verifier::external_type_specification]
#[verifier::external_body]
pub struct ExParseError(url::ParseError);

/// Whether the text parses as an absolute URL; a function of the text alone.
pub uninterp spec fn base_url_ok(s: Seq<char>) -> bool;

/// The rendered upstream URL: the base with its path set to the shape
/// endpoint and the query pairs appended; a function of base and pairs alone.
pub uninterp spec fn upstream_url_text(
    base: Seq<char>,
    pairs: Seq<(Seq<char>, Seq<char>)>,
) -> Seq<char>;

/// Relies on `url::Url::parse`: whether the base is a parseable absolute
/// URL, depending on the text alone.
#[verifier::external_body]
fn base_url_is_valid(base: &str) -> (r: bool)
    ensures
        r == base_url_ok(base@),
{
    url::Url::parse(base).is_ok()
}

/// Relies on `url::Url::parse`, `url::Url::set_path`, and the query
/// serializer reached through `url::Url::query_pairs_mut` (its
/// `extend_pairs`): parses the base, sets the path to `/v1/shape`, appends
/// the given pairs percent-encoded, and renders the result; successful
/// exactly when the base parses, and deterministic in base and pairs.
#[verifier::external_body]
fn render_upstream_url(base: &str, pairs: &Vec<QueryPair>) -> (r: Result<
    String,
    url::ParseError,
>)
    ensures
        r is Ok <==> base_url_ok(base@),
        r is Ok ==> r->Ok_0@ == upstream_url_text(base@, kv_view(pairs@)),
{
    let mut u = match url::Url::parse(base) {
        Ok(u) => u,
        Err(e) => return Err(e),
    };
    u.set_path("/v1/shape");
    u.query_pairs_mut().extend_pairs(pairs.iter().map(|p| (p.key.as_str(), p.value.as_str())));
    Ok(u.to_string())
}

/// The upstream origin configuration: base URL and optional shared secret.
pub struct UpstreamConfig {
    pub base_url: String,
    pub secret: Option<String>,
}

impl UpstreamConfig {
    /// Startup validation: whether the configured base URL parses.
    pub fn is_valid(&self) -> (r: bool)
        ensures
            r == base_url_ok(self.base_url@),
    {
        base_url_is_valid(self.base_url.as_str())
    }
}

/// The proxy error taxonomy: what each failure of the streaming path
/// surfaces to the client.
#[derive(Clone, Copy, PartialEq, Eq, Structural, Debug)]
pub enum ProxyError {
    /// Network or origin failure reaching the upstream service.
    Connection,
    /// Malformed static configuration, such as an unparsable base URL.
    InvalidConfig,
    /// The user lacks the required relationship to the scope key.
    Authorization,
}

/// The HTTP status each proxy error surfaces as.
pub open spec fn spec_proxy_status(e: ProxyError) -> u16 {
    match e {
        ProxyError::Connection => 502,
        ProxyError::InvalidConfig => 500,
        ProxyError::Authorization => 403,
    }
}

/// The HTTP status each proxy error surfaces as.
pub fn proxy_status(e: ProxyError) -> (r: u16)
    ensures
        r == spec_proxy_status(e),
{
    match e {
        ProxyError::Connection => 502,
        ProxyError::InvalidConfig => 500,
        ProxyError::Authorization => 403,
    }
}

/// The client-visible message of each proxy error; never carries detail
/// of the underlying failure.
pub fn proxy_message(e: ProxyError) -> (r: String)
    ensures
        e is Connection ==> r@ == "failed to connect to upstream stream origin"@,
        e is InvalidConfig ==> r@ == "internal server error"@,
        e is Authorization ==> r@ == "forbidden"@,
{
    match e {
        ProxyError::Connection => String::from_str("failed to connect to upstream stream origin"),
        ProxyError::InvalidConfig => String::from_str("internal server error"),
        ProxyError::Authorization => String::from_str("forbidden"),
    }
}

/// The outcome of planning a streaming request: either the full upstream
/// URL to forward to, or the error to surface. Authorization is evaluated
/// before the URL is built; nothing upstream-facing exists for a refused
/// request.
pub open spec fn spec_stream_plan(
    shape: ShapeModel,
    scope: ShapeScope,
    key: Option<u128>,
    user: u128,
    client: Seq<(Seq<char>, Seq<char>)>,
    ac: AccessControl,
    base: Seq<char>,
    secret: Option<Seq<char>>,
) -> Result<Seq<char>, ProxyError> {
    if !scope_authorized(scope, key, user, ac) {
        Err(ProxyError::Authorization)
    } else if !base_url_ok(base) {
        Err(ProxyError::InvalidConfig)
    } else {
        Ok(
            upstream_url_text(
                base,
                upstream_pairs(shape, spec_bound_values(scope, key, user), client, secret),
            ),
        )
    }
}

/// Plans one streaming request: checks authorization, binds the scope's
/// values, and builds the upstream URL from fixed shape parameters, the
/// allow-listed client parameters, and the configured secret.
pub fn stream_plan(
    shape: &ShapeDefinition,
    scope: ShapeScope,
    key: Option<u128>,
    ctx: &RequestContext,
    client: &Vec<QueryPair>,
    ac: &AccessControl,
    config: &UpstreamConfig,
) -> (r: Result<String, ProxyError>)
    requires
        key_present(scope, key),
    ensures
        ({
            let plan = spec_stream_plan(
                shape@,
                scope,
                key,
                ctx.user_id,
                kv_view(client@),
                *ac,
                config.base_url@,
                spec_secret(config.secret),
            );
            match r {
                Ok(u) => plan is Ok && u@ == plan->Ok_0,
                Err(e) => plan is Err && e == plan->Err_0,
            }
        }),
{
    if !authorize_scope(scope, key, ctx.user_id, ac) {
        return Err(ProxyError::Authorization);
    }
    let bound = bound_values(scope, key, ctx.user_id);
    let pairs = build_upstream_pairs(shape, &bound, client, &config.secret);
    match render_upstream_url(config.base_url.as_str(), &pairs) {
        Ok(u) => Ok(u),
        Err(_) => Err(ProxyError::InvalidConfig),
    }
}

/// The response headers that survive the pass-through: all but the two
/// the relay invalidates.
pub open spec fn kept_headers(hs: Seq<(Seq<char>, Seq<char>)>) -> Seq<(Seq<char>, Seq<char>)>
    decreases hs.len(),
{
    if hs.len() == 0 {
        Seq::empty()
    } else if hs.last().0 == "content-encoding"@ || hs.last().0 == "content-length"@ {
        kept_headers(hs.drop_last())
    } else {
        kept_headers(hs.drop_last()).push(hs.last())
    }
}

/// Filters upstream response headers for forwarding: drops
/// `content-encoding` and `content-length`, which the unbuffered relay
/// invalidates, and appends `Vary: Authorization`, since the response
/// depends on the authenticated identity. Header names are the normalized
/// lowercase forms.
pub fn forward_headers(upstream: &Vec<QueryPair>) -> (r: Vec<QueryPair>)
    ensures
        kv_view(r@) == kept_headers(kv_view(upstream@)).push(("vary"@, "Authorization"@)),
{
    let n = upstream.len();
    let mut out: Vec<QueryPair> = Vec::new();
    let mut i: usize = 0;
    proof {
        assert(kv_view(out@) =~= kept_headers(kv_view(upstream@).take(0)));
    }
    while i < n
        invariant
            n == upstream@.len(),
            i <= n,
            kv_view(out@) == kept_headers(kv_view(upstream@).take(i as int)),
        decreases n - i,
    {
        let h = &upstream[i];
        proof {
            let t1 = kv_view(upstream@).take(i + 1);
            assert(t1.drop_last() =~= kv_view(upstream@).take(i as int));
            assert(t1.last() == upstream@[i as int]@);
        }
        if str_eq(h.key.as_str(), "content-encoding") || str_eq(h.key.as_str(), "content-length") {
            proof {
                assert(kept_headers(kv_view(upstream@).take(i + 1)) == kept_headers(
                    kv_view(upstream@).take(i as int),
                ));
            }
        } else {
            let ghost old_view = kv_view(out@);
            out.push(QueryPair { key: clone_string(&h.key), value: clone_string(&h.value) });
            proof {
                let t1 = kv_view(upstream@).take(i + 1);
                let newp = upstream@[i as int]@;
                assert(kept_headers(t1) == kept_headers(
                    kv_view(upstream@).take(i as int),
                ).push(newp));
                assert(kv_view(out@) =~= old_view.push(newp));
            }
        }
        i += 1;
    }
    proof {
        assert(kv_view(upstream@).take(n as int) =~= kv_view(upstream@));
    }
    let ghost before_vary = kv_view(out@);
    out.push(
        QueryPair { key: String::from_str("vary"), value: String::from_str("Authorization") },
    );
    proof {
        assert(kv_view(out@) =~= before_vary.push(("vary"@, "Authorization"@)));
    }
    out
}

/// A key of the form `params[n]`: the server's ordinal binding keys.
pub open spec fn is_ordinal_key(k: Seq<char>) -> bool {
    exists|n: nat| n >= 1 && k == "params["@ + dec_rep(n) + "]"@
}

proof fn lemma_params_pairs_keys(bound: Seq<u128>)
    ensures
        forall|i: int|
            0 <= i < params_pairs(bound).len() ==> is_ordinal_key(
                (#[trigger] params_pairs(bound)[i]).0,
            ),
    decreases bound.len(),
{
    if bound.len() > 0 {
        lemma_params_pairs_keys(bound.drop_last());
        let sub = params_pairs(bound.drop_last());
        assert forall|i: int| 0 <= i < params_pairs(bound).len() implies is_ordinal_key(
            (#[trigger] params_pairs(bound)[i]).0,
        ) by {
            if i < sub.len() {
                assert(params_pairs(bound)[i] == sub[i]);
            } else {
                assert(params_pairs(bound)[i].0 == "params["@ + dec_rep(bound.len()) + "]"@);
                assert(bound.len() >= 1);
            }
        }
    }
}

proof fn lemma_kept_client_keys(client: Seq<(Seq<char>, Seq<char>)>)
    ensures
        forall|i: int|
            0 <= i < kept_client_pairs(client).len() ==> transport_key(
                (#[trigger] kept_client_pairs(client)[i]).0,
            ),
    decreases client.len(),
{
    if client.len() > 0 {
        lemma_kept_client_keys(client.drop_last());
        let sub = kept_client_pairs(client.drop_last());
        if transport_key(client.last().0) {
            assert forall|i: int| 0 <= i < kept_client_pairs(client).len() implies transport_key(
                (#[trigger] kept_client_pairs(client)[i]).0,
            ) by {
                if i < sub.len() {
                    assert(kept_client_pairs(client)[i] == sub[i]);
                } else {
                    assert(kept_client_pairs(client)[i] == client.last());
                }
            }
        }
    }
}

/// A client-supplied key that is not on the transport-control allowlist —
/// and is none of the server's own keys (`table`, `where`, `secret`, an
/// ordinal `params[n]`) — is absent from every pair of the upstream
/// request.
pub proof fn lemma_unlisted_key_absent(
    shape: ShapeModel,
    bound: Seq<u128>,
    client: Seq<(Seq<char>, Seq<char>)>,
    secret: Option<Seq<char>>,
    k: Seq<char>,
)
    requires
        !transport_key(k),
        k != "table"@,
        k != "where"@,
        k != "secret"@,
        !is_ordinal_key(k),
    ensures
        forall|i: int|
            0 <= i < upstream_pairs(shape, bound, client, secret).len() ==> (
            #[trigger] upstream_pairs(shape, bound, client, secret)[i]).0 != k,
{
    lemma_params_pairs_keys(bound);
    lemma_kept_client_keys(client);
    let pairs = upstream_pairs(shape, bound, client, secret);
    let fixed = seq![("table"@, shape.table), ("where"@, shape.where_clause)];
    let pp = params_pairs(bound);
    let kc = kept_client_pairs(client);
    assert forall|i: int| 0 <= i < pairs.len() implies (#[trigger] pairs[i]).0 != k by {
        if i < 2 {
            assert(pairs[i] == fixed[i]);
        } else if i < 2 + pp.len() {
            assert(pairs[i] == pp[i - 2]);
        } else if i < 2 + pp.len() + kc.len() {
            assert(pairs[i] == kc[i - 2 - pp.len()]);
        } else {
            assert(pairs[i] == secret_pairs(secret)[i - 2 - pp.len() - kc.len()]);
            assert(pairs[i].0 == "secret"@);
        }
    }
}

proof fn lemma_where_key_is_not_other()
    ensures
        !transport_key("where"@),
        !is_ordinal_key("where"@),
        "where"@ != "table"@,
        "where"@ != "secret"@,
{
    reveal_strlit("where");
    reveal_strlit("table");
    reveal_strlit("secret");
    reveal_strlit("offset");
    reveal_strlit("handle");
    reveal_strlit("live");
    reveal_strlit("cursor");
    reveal_strlit("columns");
    reveal_strlit("params[");
    assert("where"@.len() == 5);
    assert("offset"@.len() == 6);
    assert("handle"@.len() == 6);
    assert("live"@.len() == 4);
    assert("cursor"@.len() == 6);
    assert("columns"@.len() == 7);
    assert("secret"@.len() == 6);
    assert("where"@[0] == 'w');
    assert("table"@[0] == 't');
    if is_ordinal_key("where"@) {
        let n = choose|n: nat| n >= 1 && "where"@ == "params["@ + dec_rep(n) + "]"@;
        assert(("params["@ + dec_rep(n) + "]"@)[0] == "params["@[0]);
        assert("params["@[0] == 'p');
        assert(false);
    }
}

/// The predicate forwarded upstream is the shape's fixed `where` clause:
/// it stands exactly once in the request, whatever the client sent.
pub proof fn lemma_where_clause_fixed(
    shape: ShapeModel,
    bound: Seq<u128>,
    client: Seq<(Seq<char>, Seq<char>)>,
    secret: Option<Seq<char>>,
)
    ensures
        upstream_pairs(shape, bound, client, secret)[1] == ("where"@, shape.where_clause),
        forall|i: int|
            0 <= i < upstream_pairs(shape, bound, client, secret).len() && i != 1 ==> (
            #[trigger] upstream_pairs(shape, bound, client, secret)[i]).0 != "where"@,
{
    lemma_where_key_is_not_other();
    lemma_params_pairs_keys(bound);
    lemma_kept_client_keys(client);
    let pairs = upstream_pairs(shape, bound, client, secret);
    let fixed = seq![("table"@, shape.table), ("where"@, shape.where_clause)];
    let pp = params_pairs(bound);
    let kc = kept_client_pairs(client);
    assert(pairs[1] == fixed[1]);
    assert forall|i: int| 0 <= i < pairs.len() && i != 1 implies (#[trigger] pairs[i]).0
        != "where"@ by {
        if i == 0 {
            assert(pairs[i] == fixed[0]);
        } else if i < 2 + pp.len() {
            assert(pairs[i] == pp[i - 2]);
        } else if i < 2 + pp.len() + kc.len() {
            assert(pairs[i] == kc[i - 2 - pp.len()]);
        } else {
            assert(pairs[i] == secret_pairs(secret)[i - 2 - pp.len() - kc.len()]);
            assert(pairs[i].0 == "secret"@);
        }
    }
}

} // verus!
