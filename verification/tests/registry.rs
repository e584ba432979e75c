use shape_gateway::routes::{all_shape_routes, RegistrationError, ShapeRoute};
use shape_gateway::scope::{QueryShape, ShapeScope};
use shape_gateway::shape::{all_shapes, count_placeholders, ShapeDefinition};

#[test]
fn registry_builds_and_has_one_route_per_shape() {
    let routes = all_shape_routes().expect("registration must succeed at startup");
    assert_eq!(routes.len(), 16);
    assert_eq!(routes.len(), all_shapes().len());
}

#[test]
fn every_shape_binds_one_param_per_placeholder() {
    for shape in all_shapes() {
        assert!(shape.is_well_formed(), "shape {} malformed", shape.table);
        assert_eq!(
            count_placeholders(&shape.where_clause),
            shape.params.len(),
            "placeholder mismatch in {}",
            shape.table
        );
    }
}

#[test]
fn placeholder_counting_is_exact() {
    assert_eq!(count_placeholders("\"organization_id\" = $1"), 1);
    assert_eq!(count_placeholders("\"organization_id\" = $1 AND \"user_id\" = $2"), 2);
    assert_eq!(count_placeholders("no placeholders here"), 0);
    assert_eq!(count_placeholders(""), 0);
}

#[test]
fn project_issues_route_is_paired_correctly() {
    let routes = all_shape_routes().unwrap();
    let route = &routes[6];
    assert_eq!(route.shape.table, "issues");
    assert_eq!(route.shape.where_clause, "\"project_id\" = $1");
    assert_eq!(route.shape.params, vec!["project_id".to_string()]);
    assert_eq!(route.shape.url, "/shape/project/{project_id}/issues");
    assert!(matches!(route.scope, ShapeScope::Project));
    assert_eq!(route.fallback_url, "/fallback/issues");
    assert!(matches!(route.fallback_query_shape, QueryShape::ProjectQuery));
}

#[test]
fn user_workspaces_route_has_no_scope_parameter() {
    let routes = all_shape_routes().unwrap();
    let route = &routes[7];
    assert_eq!(route.shape.table, "workspaces");
    assert_eq!(route.shape.where_clause, "\"owner_user_id\" = $1");
    assert!(matches!(route.scope, ShapeScope::User));
    assert!(matches!(route.fallback_query_shape, QueryShape::NoQuery));
    assert_eq!(route.fallback_url, "/fallback/user_workspaces");
}

#[test]
fn malformed_shape_is_rejected_at_registration() {
    let bad = ShapeDefinition {
        table: "projects".to_string(),
        where_clause: "\"organization_id\" = $1".to_string(),
        params: vec![],
        url: "/shape/projects".to_string(),
        row_type: "Project".to_string(),
    };
    let r = ShapeRoute::new(
        bad,
        ShapeScope::Org,
        "/fallback/projects".to_string(),
        QueryShape::OrganizationQuery,
    );
    assert!(matches!(r, Err(RegistrationError::MalformedShape)));
}

#[test]
fn mismatched_fallback_query_shape_is_rejected() {
    let shape = ShapeDefinition {
        table: "projects".to_string(),
        where_clause: "\"organization_id\" = $1".to_string(),
        params: vec!["organization_id".to_string()],
        url: "/shape/projects".to_string(),
        row_type: "Project".to_string(),
    };
    let r = ShapeRoute::new(
        shape,
        ShapeScope::Org,
        "/fallback/projects".to_string(),
        QueryShape::ProjectQuery,
    );
    assert!(matches!(r, Err(RegistrationError::ScopeShapeMismatch)));
}
