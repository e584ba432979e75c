//! The REST fallback executor.
//!
//! For each shape the fallback runs the equivalent direct query against
//! the row store — the same authorization rule and the same predicate the
//! streaming path encodes — and returns a buffered envelope whose field
//! name is the shape's table, a one-shot materialization of what the
//! stream would deliver.

use vstd::prelude::*;
use vstd::string::StringExecFns;

use crate::authz::{is_org_member, AccessControl};
use crate::proxy::{spec_stream_plan, ProxyError};
use crate::scope::{
    authorize_scope, fallback_key, query_shape_of, scope_authorized, scope_query_shape,
    spec_fallback_key, spec_query_shape_of, spec_scope_query_shape, FallbackQuery,
    OrgFallbackQuery, RequestContext, ShapeScope,
};
use crate::shape::{ShapeDefinition, ShapeModel};
use crate::store::{
    lemma_select_complete, lemma_select_sound, row_matches, run_query, spec_field_of,
    spec_select, Field, Record,
};

verus! {

/// A fallback failure surfaced to the client.
#[derive(Clone, Copy, PartialEq, Eq, Structural, Debug)]
pub enum FallbackError {
    /// The handler's query shape does not match the route's scope: a
    /// registration-time configuration error.
    ScopeMismatch,
    /// The user lacks the required relationship to the scope key.
    Forbidden,
}

/// The HTTP status each fallback error surfaces as.
pub fn fallback_status(e: FallbackError) -> (r: u16)
    ensures
        e is Forbidden ==> r == 403,
        e is ScopeMismatch ==> r == 500,
{
    match e {
        FallbackError::ScopeMismatch => 500,
        FallbackError::Forbidden => 403,
    }
}

/// The client-visible message of a failed list: names the resource and
/// nothing of the underlying store error.
pub fn list_failure_message(resource: &str) -> (r: String)
    ensures
        r@ == "failed to list "@ + resource@,
{
    String::from_str("failed to list ").concat(resource)
}

/// The buffered fallback response: the rows under the shape's collection
/// name.
pub struct Envelope {
    /// The field name of the row array: the shape's table.
    pub collection: String,
    /// The matching rows, in stored order.
    pub rows: Vec<Record>,
}

/// The store predicate a scope instantiates: the same row filter the
/// shape's `where` clause encodes, keyed by server-derived values only.
pub open spec fn spec_scope_filter(scope: ShapeScope, key: Option<u128>, user: u128) -> Seq<
    (Field, u128),
> {
    match scope {
        ShapeScope::Org => seq![(Field::OrganizationId, key->0)],
        ShapeScope::OrgWithUser => seq![(Field::OrganizationId, key->0), (Field::UserId, user)],
        ShapeScope::Project => seq![(Field::ProjectId, key->0)],
        ShapeScope::Issue => seq![(Field::IssueId, key->0)],
        ShapeScope::User => seq![(Field::OwnerUserId, user)],
    }
}

/// The decision stage of the fallback path: what, if anything, may be
/// asked of the store. A request that fails the scope check or the
/// authorization check yields an error and no query.
pub open spec fn spec_fallback_plan(
    scope: ShapeScope,
    q: FallbackQuery,
    user: u128,
    ac: AccessControl,
) -> Result<Seq<(Field, u128)>, FallbackError> {
    if spec_query_shape_of(q) != spec_scope_query_shape(scope) {
        Err(FallbackError::ScopeMismatch)
    } else if !scope_authorized(scope, spec_fallback_key(q), user, ac) {
        Err(FallbackError::Forbidden)
    } else {
        Ok(spec_scope_filter(scope, spec_fallback_key(q), user))
    }
}

/// Plans one fallback request: validates the query shape against the
/// scope, checks authorization, and instantiates the shape's fixed
/// predicate. The store is only ever queried with a plan this returns.
pub fn fallback_plan(
    scope: ShapeScope,
    q: &FallbackQuery,
    ctx: &RequestContext,
    ac: &AccessControl,
) -> (r: Result<Vec<(Field, u128)>, FallbackError>)
    ensures
        ({
            let plan = spec_fallback_plan(scope, *q, ctx.user_id, *ac);
            match r {
                Ok(filter) => plan is Ok && filter@ == plan->Ok_0,
                Err(e) => plan is Err && e == plan->Err_0,
            }
        }),
{
    if query_shape_of(q) != scope_query_shape(scope) {
        return Err(FallbackError::ScopeMismatch);
    }
    let key = fallback_key(q);
    if !authorize_scope(scope, key, ctx.user_id, ac) {
        return Err(FallbackError::Forbidden);
    }
    let mut filter: Vec<(Field, u128)> = Vec::new();
    match scope {
        ShapeScope::Org => {
            match key {
                Some(k) => filter.push((Field::OrganizationId, k)),
                None => (),
            }
        },
        ShapeScope::OrgWithUser => {
            match key {
                Some(k) => filter.push((Field::OrganizationId, k)),
                None => (),
            }
            filter.push((Field::UserId, ctx.user_id));
        },
        ShapeScope::Project => {
            match key {
                Some(k) => filter.push((Field::ProjectId, k)),
                None => (),
            }
        },
        ShapeScope::Issue => {
            match key {
                Some(k) => filter.push((Field::IssueId, k)),
                None => (),
            }
        },
        ShapeScope::User => {
            filter.push((Field::OwnerUserId, ctx.user_id));
        },
    }
    proof {
        assert(filter@ =~= spec_scope_filter(scope, spec_fallback_key(*q), ctx.user_id));
    }
    Ok(filter)
}

/// The complete fallback outcome: the envelope of matching rows, or the
/// error, as a function of request, authorization state, and store.
pub open spec fn spec_fallback(
    shape: ShapeModel,
    scope: ShapeScope,
    q: FallbackQuery,
    user: u128,
    ac: AccessControl,
    table: Seq<Record>,
) -> Result<(Seq<char>, Seq<Record>), FallbackError> {
    match spec_fallback_plan(scope, q, user, ac) {
        Ok(filter) => Ok((shape.table, spec_select(table, filter))),
        Err(e) => Err(e),
    }
}

/// Handles one fallback request: authorization strictly precedes the
/// store query; on success the envelope carries, under the shape's
/// collection name, exactly the stored rows matching the shape's
/// predicate for the scope's bound values.
pub fn handle_fallback(
    shape: &ShapeDefinition,
    scope: ShapeScope,
    q: &FallbackQuery,
    ctx: &RequestContext,
    ac: &AccessControl,
    table: &Vec<Record>,
) -> (r: Result<Envelope, FallbackError>)
    ensures
        ({
            let outcome = spec_fallback(shape@, scope, *q, ctx.user_id, *ac, table@);
            match r {
                Ok(env) => outcome is Ok && env.collection@ == outcome->Ok_0.0 && env.rows@
                    == outcome->Ok_0.1,
                Err(e) => outcome is Err && e == outcome->Err_0,
            }
        }),
{
    let filter = match fallback_plan(scope, q, ctx, ac) {
        Ok(f) => f,
        Err(e) => {
            return Err(e);
        },
    };
    let rows = run_query(table, &filter);
    Ok(Envelope { collection: shape.table.clone(), rows })
}

/// Idempotence: two fallback requests with the same scope key, user, and
/// store state — no intervening writes — have the same outcome.
pub proof fn lemma_fallback_idempotent(
    shape: ShapeModel,
    scope: ShapeScope,
    q1: FallbackQuery,
    q2: FallbackQuery,
    user: u128,
    ac: AccessControl,
    table1: Seq<Record>,
    table2: Seq<Record>,
)
    requires
        q1 == q2,
        table1 == table2,
    ensures
        spec_fallback(shape, scope, q1, user, ac, table1) == spec_fallback(
            shape,
            scope,
            q2,
            user,
            ac,
            table2,
        ),
{
}

/// Project-scoped exactness: the rows of a project-scoped fallback are
/// exactly the stored rows whose `project_id` is the path-derived key —
/// every returned row carries it, and every stored row carrying it is
/// returned.
pub proof fn lemma_project_fallback_exact(table: Seq<Record>, project: u128)
    ensures
        forall|i: int|
            0 <= i < spec_select(table, seq![(Field::ProjectId, project)]).len() ==> (
            #[trigger] spec_select(table, seq![(Field::ProjectId, project)])[i]).project_id
                == project,
        forall|i: int|
            0 <= i < table.len() && (#[trigger] table[i]).project_id == project ==> spec_select(
                table,
                seq![(Field::ProjectId, project)],
            ).contains(table[i]),
{
    let filter = seq![(Field::ProjectId, project)];
    lemma_select_sound(table, filter);
    assert forall|i: int| 0 <= i < spec_select(table, filter).len() implies (
    #[trigger] spec_select(table, filter)[i]).project_id == project by {
        assert(row_matches(spec_select(table, filter)[i], filter));
        assert(spec_field_of(spec_select(table, filter)[i], filter[0].0) == filter[0].1);
    }
    assert forall|i: int|
        0 <= i < table.len() && (#[trigger] table[i]).project_id == project implies spec_select(
        table,
        filter,
    ).contains(table[i]) by {
        assert(row_matches(table[i], filter)) by {
            assert(spec_field_of(table[i], filter[0].0) == filter[0].1);
        }
        lemma_select_complete(table, filter, i);
    }
}

/// User-scoped isolation: the row sets two different users receive from
/// the same user-scoped fallback are disjoint — each row carries its
/// requester's identity as owner.
pub proof fn lemma_user_fallback_disjoint(table: Seq<Record>, user_a: u128, user_b: u128)
    requires
        user_a != user_b,
    ensures
        forall|r: Record|
            spec_select(table, seq![(Field::OwnerUserId, user_a)]).contains(r)
                ==> !spec_select(table, seq![(Field::OwnerUserId, user_b)]).contains(r),
{
    let fa = seq![(Field::OwnerUserId, user_a)];
    let fb = seq![(Field::OwnerUserId, user_b)];
    lemma_select_sound(table, fa);
    lemma_select_sound(table, fb);
    assert forall|r: Record| spec_select(table, fa).contains(r) implies !spec_select(
        table,
        fb,
    ).contains(r) by {
        let i = choose|i: int|
            0 <= i < spec_select(table, fa).len() && spec_select(table, fa)[i] == r;
        assert(row_matches(r, fa));
        assert(spec_field_of(r, fa[0].0) == fa[0].1);
        if spec_select(table, fb).contains(r) {
            let j = choose|j: int|
                0 <= j < spec_select(table, fb).len() && spec_select(table, fb)[j] == r;
            assert(row_matches(r, fb));
            assert(spec_field_of(r, fb[0].0) == fb[0].1);
        }
    }
}

/// Path equivalence: for a correctly registered route and a well-formed
/// base URL, the streaming path and the fallback path accept exactly the
/// same requests — one authorization rule, evaluated before any data
/// access, decides both.
pub proof fn lemma_paths_agree_on_authorization(
    shape: ShapeModel,
    scope: ShapeScope,
    q: FallbackQuery,
    user: u128,
    ac: AccessControl,
    client: Seq<(Seq<char>, Seq<char>)>,
    base: Seq<char>,
    secret: Option<Seq<char>>,
)
    requires
        spec_query_shape_of(q) == spec_scope_query_shape(scope),
        crate::proxy::base_url_ok(base),
    ensures
        spec_stream_plan(shape, scope, spec_fallback_key(q), user, client, ac, base, secret)
            is Ok <==> spec_fallback_plan(scope, q, user, ac) is Ok,
{
}

/// Forbidden before any access: for an organization-scoped shape and a
/// user who is not a member, both the streaming and the fallback path
/// refuse the request, and neither plans an upstream or store query.
pub proof fn lemma_forbidden_no_query(
    shape: ShapeModel,
    scope: ShapeScope,
    org: u128,
    user: u128,
    ac: AccessControl,
    client: Seq<(Seq<char>, Seq<char>)>,
    base: Seq<char>,
    secret: Option<Seq<char>>,
)
    requires
        scope == ShapeScope::Org || scope == ShapeScope::OrgWithUser,
        !is_org_member(ac, org, user),
    ensures
        spec_stream_plan(shape, scope, Some(org), user, client, ac, base, secret) == Err::<
            Seq<char>,
            ProxyError,
        >(ProxyError::Authorization),
        spec_fallback_plan(
            scope,
            FallbackQuery::Organization(OrgFallbackQuery { organization_id: org }),
            user,
            ac,
        ) == Err::<Seq<(Field, u128)>, FallbackError>(FallbackError::Forbidden),
{
}

} // verus!
