use shape_gateway::authz::AccessControl;
use shape_gateway::fallback::{
    fallback_plan, fallback_status, handle_fallback, list_failure_message, FallbackError,
};
use shape_gateway::proxy::{
    proxy_status, stream_plan, ProxyError, QueryPair, UpstreamConfig,
};
use shape_gateway::scope::{
    FallbackQuery, NoQueryParams, OrgFallbackQuery, ProjectFallbackQuery, RequestContext,
    ShapeScope,
};
use shape_gateway::shape::all_shapes;
use shape_gateway::store::Record;

const ORG1: u128 = 0x10;
const P1: u128 = 0x100;
const P2: u128 = 0x200;
const USER: u128 = 0x1;
const OTHER_USER: u128 = 0x2;

fn record(id: u128) -> Record {
    Record {
        id,
        organization_id: 0,
        user_id: 0,
        project_id: 0,
        issue_id: 0,
        comment_id: 0,
        owner_user_id: 0,
    }
}

fn issue_row(id: u128, project_id: u128) -> Record {
    Record { project_id, ..record(id) }
}

fn workspace_row(id: u128, owner_user_id: u128) -> Record {
    Record { owner_user_id, ..record(id) }
}

fn ac_with_project_access() -> AccessControl {
    AccessControl {
        org_members: vec![(ORG1, USER)],
        project_orgs: vec![(P1, ORG1)],
        issue_projects: vec![],
    }
}

fn issues_table() -> Vec<Record> {
    vec![issue_row(1, P1), issue_row(2, P2), issue_row(3, P1), issue_row(4, P2)]
}

fn project_issues_shape() -> shape_gateway::shape::ShapeDefinition {
    let mut shapes = all_shapes();
    let shape = shapes.remove(6);
    assert_eq!(shape.table, "issues");
    shape
}

#[test]
fn authorized_project_fallback_returns_only_that_projects_rows() {
    let shape = project_issues_shape();
    let ac = ac_with_project_access();
    let table = issues_table();
    let q = FallbackQuery::Project(ProjectFallbackQuery { project_id: P1 });
    let ctx = RequestContext { user_id: USER };
    let env = handle_fallback(&shape, ShapeScope::Project, &q, &ctx, &ac, &table)
        .expect("authorized request must succeed");
    assert_eq!(env.collection, "issues");
    assert_eq!(env.rows.len(), 2);
    assert!(env.rows.iter().all(|r| r.project_id == P1));
    assert_eq!(env.rows[0].id, 1);
    assert_eq!(env.rows[1].id, 3);
}

#[test]
fn unauthorized_project_request_is_forbidden_on_both_paths() {
    let shape = project_issues_shape();
    let ac = ac_with_project_access();
    let table = issues_table();
    let ctx = RequestContext { user_id: OTHER_USER };

    let q = FallbackQuery::Project(ProjectFallbackQuery { project_id: P1 });
    let r = handle_fallback(&shape, ShapeScope::Project, &q, &ctx, &ac, &table);
    match r {
        Err(e) => {
            assert!(matches!(e, FallbackError::Forbidden));
            assert_eq!(fallback_status(e), 403);
        }
        Ok(_) => panic!("must not leak rows"),
    }
    // the plan itself refuses, so no store query exists for this request
    assert!(matches!(
        fallback_plan(ShapeScope::Project, &q, &ctx, &ac),
        Err(FallbackError::Forbidden)
    ));

    let config = UpstreamConfig {
        base_url: "http://upstream.example".to_string(),
        secret: None,
    };
    let client: Vec<QueryPair> = vec![];
    let stream =
        stream_plan(&shape, ShapeScope::Project, Some(P1), &ctx, &client, &ac, &config);
    match stream {
        Err(e) => {
            assert!(matches!(e, ProxyError::Authorization));
            assert_eq!(proxy_status(e), 403);
        }
        Ok(_) => panic!("must not build an upstream request"),
    }
}

#[test]
fn non_member_org_request_is_forbidden_on_both_paths() {
    let shapes = all_shapes();
    let projects_shape = &shapes[0];
    assert_eq!(projects_shape.table, "projects");
    let ac = ac_with_project_access();
    let ctx = RequestContext { user_id: OTHER_USER };
    let q = FallbackQuery::Organization(OrgFallbackQuery { organization_id: ORG1 });
    let table = vec![record(9)];
    let r = handle_fallback(projects_shape, ShapeScope::Org, &q, &ctx, &ac, &table);
    assert!(matches!(r, Err(FallbackError::Forbidden)));

    let config = UpstreamConfig {
        base_url: "http://upstream.example".to_string(),
        secret: None,
    };
    let client: Vec<QueryPair> = vec![];
    let stream =
        stream_plan(projects_shape, ShapeScope::Org, Some(ORG1), &ctx, &client, &ac, &config);
    assert!(matches!(stream, Err(ProxyError::Authorization)));
}

#[test]
fn user_scoped_fallback_rows_are_disjoint_per_user() {
    let mut shapes = all_shapes();
    let shape = shapes.remove(7);
    assert_eq!(shape.where_clause, "\"owner_user_id\" = $1");
    let ac = AccessControl { org_members: vec![], project_orgs: vec![], issue_projects: vec![] };
    let table = vec![
        workspace_row(1, USER),
        workspace_row(2, OTHER_USER),
        workspace_row(3, USER),
    ];
    let q = FallbackQuery::Unscoped(NoQueryParams {});

    let ctx_a = RequestContext { user_id: USER };
    let env_a = handle_fallback(&shape, ShapeScope::User, &q, &ctx_a, &ac, &table).unwrap();
    let ctx_b = RequestContext { user_id: OTHER_USER };
    let env_b = handle_fallback(&shape, ShapeScope::User, &q, &ctx_b, &ac, &table).unwrap();

    assert!(env_a.rows.iter().all(|r| r.owner_user_id == USER));
    assert!(env_b.rows.iter().all(|r| r.owner_user_id == OTHER_USER));
    assert_eq!(env_a.rows.len(), 2);
    assert_eq!(env_b.rows.len(), 1);
    for a in &env_a.rows {
        assert!(env_b.rows.iter().all(|b| b.id != a.id));
    }
}

#[test]
fn repeated_fallback_calls_return_the_same_rows() {
    let shape = project_issues_shape();
    let ac = ac_with_project_access();
    let table = issues_table();
    let q = FallbackQuery::Project(ProjectFallbackQuery { project_id: P1 });
    let ctx = RequestContext { user_id: USER };
    let first = handle_fallback(&shape, ShapeScope::Project, &q, &ctx, &ac, &table).unwrap();
    let second = handle_fallback(&shape, ShapeScope::Project, &q, &ctx, &ac, &table).unwrap();
    assert_eq!(first.collection, second.collection);
    assert_eq!(first.rows, second.rows);
}

#[test]
fn mismatched_query_shape_is_a_configuration_error() {
    let shape = project_issues_shape();
    let ac = ac_with_project_access();
    let ctx = RequestContext { user_id: USER };
    let q = FallbackQuery::Organization(OrgFallbackQuery { organization_id: ORG1 });
    let r = fallback_plan(ShapeScope::Project, &q, &ctx, &ac);
    match r {
        Err(e) => {
            assert!(matches!(e, FallbackError::ScopeMismatch));
            assert_eq!(fallback_status(e), 500);
        }
        Ok(_) => panic!("mismatched shapes must not plan a query"),
    }
}

#[test]
fn org_with_user_scope_filters_by_both_keys() {
    let shapes = all_shapes();
    let notifications = &shapes[1];
    assert_eq!(notifications.table, "notifications");
    let ac = ac_with_project_access();
    let ctx = RequestContext { user_id: USER };
    let q = FallbackQuery::Organization(OrgFallbackQuery { organization_id: ORG1 });
    let table = vec![
        Record { organization_id: ORG1, user_id: USER, ..record(1) },
        Record { organization_id: ORG1, user_id: OTHER_USER, ..record(2) },
        Record { organization_id: 0x99, user_id: USER, ..record(3) },
    ];
    let env =
        handle_fallback(notifications, ShapeScope::OrgWithUser, &q, &ctx, &ac, &table).unwrap();
    assert_eq!(env.collection, "notifications");
    assert_eq!(env.rows.len(), 1);
    assert_eq!(env.rows[0].id, 1);
}

#[test]
fn empty_table_yields_an_empty_envelope() {
    let shape = project_issues_shape();
    let ac = ac_with_project_access();
    let table: Vec<Record> = vec![];
    let q = FallbackQuery::Project(ProjectFallbackQuery { project_id: P1 });
    let ctx = RequestContext { user_id: USER };
    let env = handle_fallback(&shape, ShapeScope::Project, &q, &ctx, &ac, &table).unwrap();
    assert_eq!(env.collection, "issues");
    assert!(env.rows.is_empty());
}

#[test]
fn store_failure_message_names_the_resource_only() {
    assert_eq!(list_failure_message("issues"), "failed to list issues");
    assert_eq!(list_failure_message("projects"), "failed to list projects");
}
