//! Authorization scopes: how a request yields scope keys, which check
//! guards them, and which values bind a shape's placeholders.
//!
//! Each scope variant fixes (a) where its key comes from (query string,
//! URL path, or the authenticated identity alone), (b) the authorization
//! predicate evaluated before any data access, and (c) the ordered list
//! of values bound to the shape's placeholders.

use vstd::prelude::*;

use crate::authz::{
    check_issue_access, check_org_member, check_project_access, has_issue_access,
    has_project_access, is_org_member, AccessControl,
};

verus! {

/// The authorization and parameter-binding pattern of a shape route.
#[derive(Clone, Copy, PartialEq, Eq, Structural, Debug)]
pub enum ShapeScope {
    /// Organization-scoped: key from the query string; membership check;
    /// bound values `[organization_id]`.
    Org,
    /// Organization-scoped with user injection: membership check; bound
    /// values `[organization_id, user_id]`.
    OrgWithUser,
    /// Project-scoped: key from the URL path; project-access check; bound
    /// values `[project_id]`.
    Project,
    /// Issue-scoped: key from the URL path; issue-access check; bound
    /// values `[issue_id]`.
    Issue,
    /// User-scoped: no client-supplied key and no explicit check; bound
    /// values `[user_id]`.
    User,
}

/// The authenticated request context supplied by the upstream session layer.
#[derive(Clone, Copy, PartialEq, Eq, Structural, Debug)]
pub struct RequestContext {
    pub user_id: u128,
}

/// The parameter shape a fallback handler's query extractor declares.
#[derive(Clone, Copy, PartialEq, Eq, Structural, Debug)]
pub enum QueryShape {
    OrganizationQuery,
    ProjectQuery,
    IssueQuery,
    NoQuery,
}

/// Query parameters of organization-scoped fallback handlers.
#[derive(Clone, Copy, PartialEq, Eq, Structural, Debug)]
pub struct OrgFallbackQuery {
    pub organization_id: u128,
}

/// Query parameters of project-scoped fallback handlers.
#[derive(Clone, Copy, PartialEq, Eq, Structural, Debug)]
pub struct ProjectFallbackQuery {
    pub project_id: u128,
}

/// Query parameters of issue-scoped fallback handlers.
#[derive(Clone, Copy, PartialEq, Eq, Structural, Debug)]
pub struct IssueFallbackQuery {
    pub issue_id: u128,
}

/// Marker for fallback handlers that take no scope parameter: the key is
/// the authenticated user identity.
#[derive(Clone, Copy, PartialEq, Eq, Structural, Debug)]
pub struct NoQueryParams {}

/// The parsed query parameters handed to a fallback handler.
#[derive(Clone, Copy, PartialEq, Eq, Structural, Debug)]
pub enum FallbackQuery {
    Organization(OrgFallbackQuery),
    Project(ProjectFallbackQuery),
    Issue(IssueFallbackQuery),
    Unscoped(NoQueryParams),
}

/// The query shape a scope's fallback handler must declare.
pub open spec fn spec_scope_query_shape(scope: ShapeScope) -> QueryShape {
    match scope {
        ShapeScope::Org => QueryShape::OrganizationQuery,
        ShapeScope::OrgWithUser => QueryShape::OrganizationQuery,
        ShapeScope::Project => QueryShape::ProjectQuery,
        ShapeScope::Issue => QueryShape::IssueQuery,
        ShapeScope::User => QueryShape::NoQuery,
    }
}

/// The query shape a fallback query value actually has.
pub open spec fn spec_query_shape_of(q: FallbackQuery) -> QueryShape {
    match q {
        FallbackQuery::Organization(_) => QueryShape::OrganizationQuery,
        FallbackQuery::Project(_) => QueryShape::ProjectQuery,
        FallbackQuery::Issue(_) => QueryShape::IssueQuery,
        FallbackQuery::Unscoped(_) => QueryShape::NoQuery,
    }
}

/// The query shape a scope's fallback handler must declare.
pub fn scope_query_shape(scope: ShapeScope) -> (r: QueryShape)
    ensures
        r == spec_scope_query_shape(scope),
{
    match scope {
        ShapeScope::Org => QueryShape::OrganizationQuery,
        ShapeScope::OrgWithUser => QueryShape::OrganizationQuery,
        ShapeScope::Project => QueryShape::ProjectQuery,
        ShapeScope::Issue => QueryShape::IssueQuery,
        ShapeScope::User => QueryShape::NoQuery,
    }
}

/// The query shape a fallback query value actually has.
pub fn query_shape_of(q: &FallbackQuery) -> (r: QueryShape)
    ensures
        r == spec_query_shape_of(*q),
{
    match q {
        FallbackQuery::Organization(_) => QueryShape::OrganizationQuery,
        FallbackQuery::Project(_) => QueryShape::ProjectQuery,
        FallbackQuery::Issue(_) => QueryShape::IssueQuery,
        FallbackQuery::Unscoped(_) => QueryShape::NoQuery,
    }
}

/// The scope key carried by a fallback query value, if any.
pub open spec fn spec_fallback_key(q: FallbackQuery) -> Option<u128> {
    match q {
        FallbackQuery::Organization(o) => Some(o.organization_id),
        FallbackQuery::Project(p) => Some(p.project_id),
        FallbackQuery::Issue(i) => Some(i.issue_id),
        FallbackQuery::Unscoped(_) => None,
    }
}

/// The scope key carried by a fallback query value, if any.
pub fn fallback_key(q: &FallbackQuery) -> (r: Option<u128>)
    ensures
        r == spec_fallback_key(*q),
{
    match q {
        FallbackQuery::Organization(o) => Some(o.organization_id),
        FallbackQuery::Project(p) => Some(p.project_id),
        FallbackQuery::Issue(i) => Some(i.issue_id),
        FallbackQuery::Unscoped(_) => None,
    }
}

/// Whether the key on hand satisfies what the scope requires: every scope
/// but `User` needs a client-supplied identifier.
pub open spec fn key_present(scope: ShapeScope, key: Option<u128>) -> bool {
    match scope {
        ShapeScope::User => true,
        _ => key is Some,
    }
}

/// The authorization predicate of the scope, evaluated before any data
/// access on both the streaming and the fallback path.
pub open spec fn scope_authorized(
    scope: ShapeScope,
    key: Option<u128>,
    user: u128,
    ac: AccessControl,
) -> bool {
    match scope {
        ShapeScope::Org => key is Some && is_org_member(ac, key->0, user),
        ShapeScope::OrgWithUser => key is Some && is_org_member(ac, key->0, user),
        ShapeScope::Project => key is Some && has_project_access(ac, key->0, user),
        ShapeScope::Issue => key is Some && has_issue_access(ac, key->0, user),
        ShapeScope::User => true,
    }
}

/// Decides the scope's authorization predicate.
pub fn authorize_scope(
    scope: ShapeScope,
    key: Option<u128>,
    user: u128,
    ac: &AccessControl,
) -> (r: bool)
    ensures
        r == scope_authorized(scope, key, user, *ac),
{
    match scope {
        ShapeScope::Org | ShapeScope::OrgWithUser => match key {
            Some(org) => check_org_member(ac, org, user),
            None => false,
        },
        ShapeScope::Project => match key {
            Some(project) => check_project_access(ac, project, user),
            None => false,
        },
        ShapeScope::Issue => match key {
            Some(issue) => check_issue_access(ac, issue, user),
            None => false,
        },
        ShapeScope::User => true,
    }
}

/// The ordered values bound to the shape's placeholders: the scope key
/// where one exists, followed by the authenticated user where the scope
/// injects it. Meaningful only when `key_present` holds.
pub open spec fn spec_bound_values(scope: ShapeScope, key: Option<u128>, user: u128) -> Seq<
    u128,
> {
    match scope {
        ShapeScope::Org => seq![key->0],
        ShapeScope::OrgWithUser => seq![key->0, user],
        ShapeScope::Project => seq![key->0],
        ShapeScope::Issue => seq![key->0],
        ShapeScope::User => seq![user],
    }
}

/// Computes the ordered bound values for the scope.
pub fn bound_values(scope: ShapeScope, key: Option<u128>, user: u128) -> (r: Vec<u128>)
    requires
        key_present(scope, key),
    ensures
        r@ == spec_bound_values(scope, key, user),
{
    let mut v: Vec<u128> = Vec::new();
    match scope {
        ShapeScope::Org => {
            match key {
                Some(k) => v.push(k),
                None => (),
            }
            assert(v@ =~= spec_bound_values(scope, key, user));
        },
        ShapeScope::OrgWithUser => {
            match key {
                Some(k) => v.push(k),
                None => (),
            }
            v.push(user);
            assert(v@ =~= spec_bound_values(scope, key, user));
        },
        ShapeScope::Project | ShapeScope::Issue => {
            match key {
                Some(k) => v.push(k),
                None => (),
            }
            assert(v@ =~= spec_bound_values(scope, key, user));
        },
        ShapeScope::User => {
            v.push(user);
            assert(v@ =~= spec_bound_values(scope, key, user));
        },
    }
    v
}

} // verus!
