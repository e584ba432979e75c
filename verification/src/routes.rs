//! The route registrar: one shape, one scope, one fallback per pairing.
//!
//! Registration binds a shape definition, its authorization scope, and
//! its fallback route into one pairing, and validates at startup that the
//! shape is well-formed and that the fallback handler's declared query
//! shape matches the scope. A process with an inconsistent registration
//! must not start.

use vstd::prelude::*;
use vstd::string::StringExecFns;

use crate::scope::{scope_query_shape, spec_scope_query_shape, QueryShape, ShapeScope};
use crate::shape::{all_shapes, registry_spec, shape_wf, ShapeDefinition, ShapeModel};

verus! {

/// A registration-time configuration error: fatal at startup.
#[derive(Clone, Copy, PartialEq, Eq, Structural, Debug)]
pub enum RegistrationError {
    /// The shape's placeholder count does not match its parameter count.
    MalformedShape,
    /// The fallback handler's query shape does not match the scope.
    ScopeShapeMismatch,
}

/// One registered pairing: a shape, its scope, and its fallback route.
/// Created once at process start, immutable thereafter.
pub struct ShapeRoute {
    pub shape: ShapeDefinition,
    pub scope: ShapeScope,
    /// The fixed fallback route path.
    pub fallback_url: String,
    /// The query shape the fallback handler declares.
    pub fallback_query_shape: QueryShape,
}

/// The mathematical value of a registered route.
pub ghost struct RouteModel {
    pub shape: ShapeModel,
    pub scope: ShapeScope,
    pub fallback_url: Seq<char>,
    pub fallback_query_shape: QueryShape,
}

impl View for ShapeRoute {
    type V = RouteModel;

    open spec fn view(&self) -> RouteModel {
        RouteModel {
            shape: self.shape@,
            scope: self.scope,
            fallback_url: self.fallback_url@,
            fallback_query_shape: self.fallback_query_shape,
        }
    }
}

/// A valid registration: well-formed shape, and a fallback handler whose
/// query shape matches the scope.
pub open spec fn route_wf(r: RouteModel) -> bool {
    shape_wf(r.shape) && r.fallback_query_shape == spec_scope_query_shape(r.scope)
}

impl ShapeRoute {
    /// Registers one pairing, rejecting a malformed shape or a fallback
    /// whose declared query shape does not fit the scope.
    pub fn new(
        shape: ShapeDefinition,
        scope: ShapeScope,
        fallback_url: String,
        fallback_query_shape: QueryShape,
    ) -> (r: Result<ShapeRoute, RegistrationError>)
        ensures
            r is Ok <==> shape_wf(shape@) && fallback_query_shape == spec_scope_query_shape(
                scope,
            ),
            r is Ok ==> r->Ok_0@ == (RouteModel {
                shape: shape@,
                scope,
                fallback_url: fallback_url@,
                fallback_query_shape,
            }),
            r is Ok ==> route_wf(r->Ok_0@),
            !shape_wf(shape@) ==> r == Err::<ShapeRoute, RegistrationError>(
                RegistrationError::MalformedShape,
            ),
            shape_wf(shape@) && fallback_query_shape != spec_scope_query_shape(scope) ==> r
                == Err::<ShapeRoute, RegistrationError>(RegistrationError::ScopeShapeMismatch),
    {
        if !shape.is_well_formed() {
            return Err(RegistrationError::MalformedShape);
        }
        if fallback_query_shape != scope_query_shape(scope) {
            return Err(RegistrationError::ScopeShapeMismatch);
        }
        Ok(ShapeRoute { shape, scope, fallback_url, fallback_query_shape })
    }
}

/// The scope of each registered route, in registration order.
pub open spec fn route_scopes() -> Seq<ShapeScope> {
    seq![
        ShapeScope::Org,
        ShapeScope::OrgWithUser,
        ShapeScope::Org,
        ShapeScope::Org,
        ShapeScope::Project,
        ShapeScope::Project,
        ShapeScope::Project,
        ShapeScope::User,
        ShapeScope::Project,
        ShapeScope::Project,
        ShapeScope::Project,
        ShapeScope::Project,
        ShapeScope::Project,
        ShapeScope::Project,
        ShapeScope::Issue,
        ShapeScope::Issue,
    ]
}

/// The fallback route path of each registered route, in registration order.
pub open spec fn route_fallback_urls() -> Seq<Seq<char>> {
    seq![
        "/fallback/projects"@,
        "/fallback/notifications"@,
        "/fallback/organization_members"@,
        "/fallback/users"@,
        "/fallback/tags"@,
        "/fallback/project_statuses"@,
        "/fallback/issues"@,
        "/fallback/user_workspaces"@,
        "/fallback/project_workspaces"@,
        "/fallback/issue_assignees"@,
        "/fallback/issue_followers"@,
        "/fallback/issue_tags"@,
        "/fallback/issue_relationships"@,
        "/fallback/pull_requests"@,
        "/fallback/issue_comments"@,
        "/fallback/issue_comment_reactions"@,
    ]
}

fn scope_at(i: usize) -> (s: ShapeScope)
    requires
        i < 16,
    ensures
        s == route_scopes()[i as int],
{
    if i == 0 {
        ShapeScope::Org
    } else if i == 1 {
        ShapeScope::OrgWithUser
    } else if i == 2 || i == 3 {
        ShapeScope::Org
    } else if i == 7 {
        ShapeScope::User
    } else if i == 14 || i == 15 {
        ShapeScope::Issue
    } else {
        ShapeScope::Project
    }
}

fn fallback_url_at(i: usize) -> (r: String)
    requires
        i < 16,
    ensures
        r@ == route_fallback_urls()[i as int],
{
    if i == 0 {
        String::from_str("/fallback/projects")
    } else if i == 1 {
        String::from_str("/fallback/notifications")
    } else if i == 2 {
        String::from_str("/fallback/organization_members")
    } else if i == 3 {
        String::from_str("/fallback/users")
    } else if i == 4 {
        String::from_str("/fallback/tags")
    } else if i == 5 {
        String::from_str("/fallback/project_statuses")
    } else if i == 6 {
        String::from_str("/fallback/issues")
    } else if i == 7 {
        String::from_str("/fallback/user_workspaces")
    } else if i == 8 {
        String::from_str("/fallback/project_workspaces")
    } else if i == 9 {
        String::from_str("/fallback/issue_assignees")
    } else if i == 10 {
        String::from_str("/fallback/issue_followers")
    } else if i == 11 {
        String::from_str("/fallback/issue_tags")
    } else if i == 12 {
        String::from_str("/fallback/issue_relationships")
    } else if i == 13 {
        String::from_str("/fallback/pull_requests")
    } else if i == 14 {
        String::from_str("/fallback/issue_comments")
    } else {
        String::from_str("/fallback/issue_comment_reactions")
    }
}

/// All registered routes: one pairing per shape of the registry, with the
/// fallback handler's query shape matching the scope by construction.
/// Registration fails — and the process must not start — exactly when
/// some shape of the registry is malformed; every shape of this registry
/// is well-formed, so registration succeeds.
pub fn all_shape_routes() -> (r: Result<Vec<ShapeRoute>, RegistrationError>)
    ensures
        r is Ok,
        r is Ok ==> r->Ok_0@.len() == registry_spec().len(),
        r is Ok ==> forall|i: int|
            0 <= i < registry_spec().len() ==> (#[trigger] r->Ok_0@[i]@) == (RouteModel {
                shape: registry_spec()[i],
                scope: route_scopes()[i],
                fallback_url: route_fallback_urls()[i],
                fallback_query_shape: spec_scope_query_shape(route_scopes()[i]),
            }),
        r is Ok ==> forall|i: int|
            0 <= i < registry_spec().len() ==> route_wf(#[trigger] r->Ok_0@[i]@),
{
    proof {
        crate::shape::lemma_registry_well_formed();
    }
    let mut shapes = all_shapes();
    let ghost full = shapes@;
    let n = shapes.len();
    let mut routes: Vec<ShapeRoute> = Vec::new();
    let mut i: usize = 0;
    while i < n
        invariant
            forall|j: int|
                0 <= j < registry_spec().len() ==> shape_wf(#[trigger] registry_spec()[j]),
            n == 16,
            full.len() == 16,
            i <= n,
            shapes@ =~= full.skip(i as int),
            forall|j: int| 0 <= j < full.len() ==> (#[trigger] full[j]@) == registry_spec()[j],
            routes@.len() == i,
            forall|j: int| 0 <= j < i ==> shape_wf(#[trigger] registry_spec()[j]),
            forall|j: int|
                0 <= j < i ==> (#[trigger] routes@[j]@) == (RouteModel {
                    shape: registry_spec()[j],
                    scope: route_scopes()[j],
                    fallback_url: route_fallback_urls()[j],
                    fallback_query_shape: spec_scope_query_shape(route_scopes()[j]),
                }),
        decreases n - i,
    {
        let def = shapes.remove(0);
        proof {
            assert(full.skip(i as int)[0] == full[i as int]);
            assert(full.skip(i as int).remove(0) =~= full.skip(i + 1));
        }
        let scope = scope_at(i);
        let url = fallback_url_at(i);
        let qs = scope_query_shape(scope);
        match ShapeRoute::new(def, scope, url, qs) {
            Ok(route) => {
                routes.push(route);
            },
            Err(_) => {
                proof {
                    assert(shape_wf(registry_spec()[i as int]));
                    assert(false);
                }
                return Err(RegistrationError::MalformedShape);
            },
        }
        i += 1;
    }
    Ok(routes)
}

} // verus!
