use shape_gateway::containers::container_info_of;
use shape_gateway::gateway::{
    build_workspace_prompt, default_status_id, expand_tags, filter_issues,
    filter_issues_by_assignee, filter_issues_by_status, filter_issues_by_tag_ids,
    filter_workspaces, find_status_id, join_url, normalize_executor_name, paginate,
    parse_priority, priority_label, resolve_organization_id, resolve_project_id,
    sort_issues_by_updated_desc, sort_workspaces_by_created_desc, status_name_of, Issue,
    IssuePriority, ProjectStatus, Tag, Workspace,
};
use shape_gateway::ids::uuid_string;

fn issue(id: u128, title: &str, updated_at: u64) -> Issue {
    Issue {
        id,
        project_id: 1,
        status_id: 0,
        parent_issue_id: None,
        priority: None,
        title: title.to_string(),
        description: None,
        simple_id: format!("VK-{id}"),
        created_at: 0,
        updated_at,
    }
}

fn workspace(id: u128, branch: &str, created_at: u64) -> Workspace {
    Workspace {
        id,
        branch: branch.to_string(),
        archived: false,
        pinned: false,
        name: None,
        created_at,
        updated_at: 0,
    }
}

fn status(id: u128, name: &str, hidden: bool, sort_order: i64) -> ProjectStatus {
    ProjectStatus { id, name: name.to_string(), hidden, sort_order }
}

#[test]
fn priority_parsing_accepts_the_four_labels_case_insensitively() {
    assert!(matches!(parse_priority("urgent"), Some(IssuePriority::Urgent)));
    assert!(matches!(parse_priority("  URGENT "), Some(IssuePriority::Urgent)));
    assert!(matches!(parse_priority("High"), Some(IssuePriority::High)));
    assert!(matches!(parse_priority("medium"), Some(IssuePriority::Medium)));
    assert!(matches!(parse_priority("\tlow\n"), Some(IssuePriority::Low)));
    assert!(parse_priority("critical").is_none());
    assert!(parse_priority("").is_none());
    assert!(parse_priority("lowest").is_none());
}

#[test]
fn priority_labels_round_trip() {
    for p in [
        IssuePriority::Urgent,
        IssuePriority::High,
        IssuePriority::Medium,
        IssuePriority::Low,
    ] {
        let label = priority_label(p);
        assert!(matches!(parse_priority(&label), Some(q) if q == p));
    }
}

#[test]
fn status_resolution_takes_the_first_match() {
    let statuses = vec![
        status(1, "Backlog", false, 2),
        status(2, "In Progress", false, 1),
        status(3, "done", true, 0),
    ];
    assert_eq!(status_name_of(&statuses, 2), Some("In Progress".to_string()));
    assert_eq!(status_name_of(&statuses, 9), None);
    assert_eq!(find_status_id(&statuses, "in progress"), Some(2));
    assert_eq!(find_status_id(&statuses, "DONE"), Some(3));
    assert_eq!(find_status_id(&statuses, "missing"), None);
}

#[test]
fn default_status_is_the_first_visible_minimum() {
    let statuses = vec![
        status(1, "Hidden", true, 0),
        status(2, "B", false, 5),
        status(3, "A", false, 1),
        status(4, "A-twin", false, 1),
    ];
    assert_eq!(default_status_id(&statuses), Some(3));
    let all_hidden = vec![status(1, "x", true, 0)];
    assert_eq!(default_status_id(&all_hidden), None);
    assert_eq!(default_status_id(&vec![]), None);
}

#[test]
fn id_resolution_prefers_the_explicit_argument() {
    assert_eq!(resolve_project_id(Some(7), Some(9)), Some(7));
    assert_eq!(resolve_project_id(None, Some(9)), Some(9));
    assert_eq!(resolve_project_id(None, None), None);
    assert_eq!(resolve_organization_id(Some(1), None), Some(1));
    assert_eq!(resolve_organization_id(None, Some(4)), Some(4));
}

#[test]
fn workspace_prompt_combines_trimmed_title_and_description() {
    assert_eq!(
        build_workspace_prompt(" Fix login ", Some("It breaks.\n")),
        Some("Fix login\n\nIt breaks.".to_string())
    );
    assert_eq!(build_workspace_prompt("Fix login", None), Some("Fix login".to_string()));
    assert_eq!(build_workspace_prompt("  ", Some("Only body")), Some("Only body".to_string()));
    assert_eq!(build_workspace_prompt("  ", Some("   ")), None);
    assert_eq!(build_workspace_prompt("", None), None);
}

#[test]
fn url_joining_uses_exactly_one_slash() {
    assert_eq!(join_url("http://api.example", "/v1/x"), "http://api.example/v1/x");
    assert_eq!(join_url("http://api.example///", "v1/x"), "http://api.example/v1/x");
    assert_eq!(join_url("http://api.example/", "//v1/x"), "http://api.example/v1/x");
}

#[test]
fn executor_names_normalize_to_upper_snake() {
    assert_eq!(normalize_executor_name("fast-runner"), "FAST_RUNNER");
    assert_eq!(normalize_executor_name("Runner"), "RUNNER");
    assert_eq!(normalize_executor_name("AMP"), "AMP");
}

#[test]
fn issue_filters_compose_as_a_conjunction() {
    let mut a = issue(1, "Fix login page", 10);
    a.description = Some("The login page breaks".to_string());
    a.priority = Some(IssuePriority::High);
    let mut b = issue(2, "Add dashboard", 20);
    b.parent_issue_id = Some(1);
    let c = issue(3, "LOGIN flow audit", 30);

    let by_search = filter_issues(vec![a, b, c], None, Some("login"), None, None);
    let ids: Vec<u128> = by_search.iter().map(|i| i.id).collect();
    assert_eq!(ids, vec![1, 3]);

    let mut a = issue(1, "Fix login page", 10);
    a.priority = Some(IssuePriority::High);
    let b = issue(2, "Add dashboard", 20);
    let by_priority =
        filter_issues(vec![a, b], None, None, None, Some(IssuePriority::High));
    assert_eq!(by_priority.len(), 1);
    assert_eq!(by_priority[0].id, 1);

    let mut child = issue(5, "Child", 1);
    child.parent_issue_id = Some(9);
    let lone = issue(6, "Lone", 2);
    let by_parent = filter_issues(vec![child, lone], Some(9), None, None, None);
    assert_eq!(by_parent.len(), 1);
    assert_eq!(by_parent[0].id, 5);

    let x = issue(7, "X", 1);
    let by_simple = filter_issues(vec![x], None, None, Some("vk-7"), None);
    assert_eq!(by_simple.len(), 1);
}

#[test]
fn status_filter_matches_name_or_rendered_identifier() {
    let statuses = vec![status(11, "Backlog", false, 0)];
    let mut a = issue(1, "A", 1);
    a.status_id = 11;
    let mut b = issue(2, "B", 2);
    b.status_id = 22;

    let by_name = filter_issues_by_status(vec![a, b], &statuses, "backlog");
    assert_eq!(by_name.len(), 1);
    assert_eq!(by_name[0].id, 1);

    let mut a = issue(1, "A", 1);
    a.status_id = 11;
    let mut b = issue(2, "B", 2);
    b.status_id = 22;
    let target = uuid_string(22);
    let by_id = filter_issues_by_status(vec![a, b], &statuses, &target);
    assert_eq!(by_id.len(), 1);
    assert_eq!(by_id[0].id, 2);
}

#[test]
fn tag_and_assignee_filters_join_on_the_association_pairs() {
    let a = issue(1, "A", 1);
    let b = issue(2, "B", 2);
    let c = issue(3, "C", 3);
    let issue_tags = vec![(1, 100), (2, 200), (3, 100)];
    let by_tag = filter_issues_by_tag_ids(vec![a, b, c], &issue_tags, &vec![100]);
    let ids: Vec<u128> = by_tag.iter().map(|i| i.id).collect();
    assert_eq!(ids, vec![1, 3]);

    let a = issue(1, "A", 1);
    let b = issue(2, "B", 2);
    let assignees = vec![(1, 7), (2, 8)];
    let by_assignee = filter_issues_by_assignee(vec![a, b], &assignees, 8);
    assert_eq!(by_assignee.len(), 1);
    assert_eq!(by_assignee[0].id, 2);
}

#[test]
fn issues_sort_most_recently_updated_first() {
    let issues = vec![issue(1, "A", 10), issue(2, "B", 30), issue(3, "C", 20)];
    let sorted = sort_issues_by_updated_desc(issues);
    let ids: Vec<u128> = sorted.iter().map(|i| i.id).collect();
    assert_eq!(ids, vec![2, 3, 1]);
}

#[test]
fn pagination_clamps_to_the_list() {
    let v: Vec<u32> = vec![10, 20, 30, 40, 50];
    assert_eq!(paginate(v.clone(), 1, 2), vec![20, 30]);
    assert_eq!(paginate(v.clone(), 0, 50), vec![10, 20, 30, 40, 50]);
    assert_eq!(paginate(v.clone(), 5, 2), Vec::<u32>::new());
    assert_eq!(paginate(v.clone(), 9, 2), Vec::<u32>::new());
    assert_eq!(paginate(v, 2, 0), Vec::<u32>::new());
}

#[test]
fn workspace_filters_and_sort_work_together() {
    let mut a = workspace(1, "main", 10);
    a.pinned = true;
    a.name = Some("Primary site".to_string());
    let mut b = workspace(2, "MAIN", 30);
    b.archived = true;
    let mut c = workspace(3, "feature/x", 20);
    c.name = Some("Spike".to_string());

    let by_branch = filter_workspaces(vec![a, b, c], None, None, Some("main"), None);
    let ids: Vec<u128> = by_branch.iter().map(|w| w.id).collect();
    assert_eq!(ids, vec![1, 2]);

    let mut a = workspace(1, "main", 10);
    a.name = Some("Primary site".to_string());
    let b = workspace(2, "main", 30);
    let by_name = filter_workspaces(vec![a, b], None, None, None, Some("primary"));
    assert_eq!(by_name.len(), 1);
    assert_eq!(by_name[0].id, 1);

    let mut a = workspace(1, "main", 10);
    a.archived = true;
    let b = workspace(2, "main", 30);
    let active = filter_workspaces(vec![a, b], Some(false), None, None, None);
    assert_eq!(active.len(), 1);
    assert_eq!(active[0].id, 2);

    let sorted = sort_workspaces_by_created_desc(vec![
        workspace(1, "a", 5),
        workspace(2, "b", 15),
        workspace(3, "c", 10),
    ]);
    let ids: Vec<u128> = sorted.iter().map(|w| w.id).collect();
    assert_eq!(ids, vec![2, 3, 1]);
}

#[test]
fn tag_references_expand_against_the_tag_list() {
    let tags = vec![
        Tag { tag_name: "greeting".to_string(), content: "hello".to_string() },
        Tag { tag_name: "who".to_string(), content: "world".to_string() },
    ];
    assert_eq!(expand_tags("@greeting @who", &tags), "hello world");
    assert_eq!(expand_tags("say @greeting twice: @greeting", &tags), "say hello twice: hello");
    // a tag name runs to the next whitespace or `@`, so punctuation binds into it
    assert_eq!(expand_tags("@greeting, @who", &tags), "@greeting, world");
    assert_eq!(expand_tags("@unknown stays", &tags), "@unknown stays");
    assert_eq!(expand_tags("a@@b", &tags), "a@@b");
    assert_eq!(expand_tags("no references", &tags), "no references");
    assert_eq!(expand_tags("", &tags), "");
    assert_eq!(expand_tags("trailing @", &tags), "trailing @");
}

#[test]
fn container_info_reports_the_workspace_identifier() {
    let info = container_info_of(0x42);
    assert_eq!(info.attempt_id, 0x42);
}
