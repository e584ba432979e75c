//! Shape definitions: immutable descriptions of one streamable row-set each.
//!
//! A shape fixes a physical table, a predicate template with ordinal
//! placeholders (`$1`, `$2`, ...), the ordered parameter names the
//! placeholders bind, the streaming route path, and the logical row type
//! served. Placeholder count and parameter count must agree; a registry
//! with a mismatched definition is rejected at startup.

use vstd::prelude::*;
use vstd::string::StringExecFns;

verus! {

/// One registered shape: a named, fixed (table, predicate, parameters, URL)
/// tuple describing a streamable and queryable row-set.
pub struct ShapeDefinition {
    /// Physical table name; never client-controlled.
    pub table: String,
    /// Predicate template with ordinal placeholders, bound positionally.
    pub where_clause: String,
    /// Ordered positional parameter names; authoritative for binding.
    pub params: Vec<String>,
    /// Streaming-route path template, possibly with path variables.
    pub url: String,
    /// Logical row type served; documentation only, never branched on.
    pub row_type: String,
}

/// The mathematical value of a shape definition.
pub ghost struct ShapeModel {
    pub table: Seq<char>,
    pub where_clause: Seq<char>,
    pub params: Seq<Seq<char>>,
    pub url: Seq<char>,
    pub row_type: Seq<char>,
}

impl View for ShapeDefinition {
    type V = ShapeModel;

    open spec fn view(&self) -> ShapeModel {
        ShapeModel {
            table: self.table@,
            where_clause: self.where_clause@,
            params: self.params.deep_view(),
            url: self.url@,
            row_type: self.row_type@,
        }
    }
}

/// Number of ordinal placeholders in a predicate template: each is
/// introduced by a `$`, which the templates use nowhere else.
pub open spec fn placeholder_count(s: Seq<char>) -> nat
    decreases s.len(),
{
    if s.len() == 0 {
        0
    } else {
        placeholder_count(s.drop_last()) + (if s.last() == '$' {
            1nat
        } else {
            0
        })
    }
}

/// A well-formed shape binds exactly one parameter per placeholder.
pub open spec fn shape_wf(s: ShapeModel) -> bool {
    placeholder_count(s.where_clause) == s.params.len()
}

/// Counts the ordinal placeholders of a predicate template.
pub fn count_placeholders(s: &str) -> (r: usize)
    ensures
        r == placeholder_count(s@),
{
    let n = s.unicode_len();
    let mut count: usize = 0;
    let mut i: usize = 0;
    while i < n
        invariant
            n == s@.len(),
            i <= n,
            count <= i,
            count == placeholder_count(s@.take(i as int)),
        decreases n - i,
    {
        if s.get_char(i) == '$' {
            count += 1;
        }
        proof {
            assert(s@.take(i + 1).drop_last() =~= s@.take(i as int));
            assert(s@.take(i + 1).last() == s@[i as int]);
        }
        i += 1;
    }
    proof {
        assert(s@.take(n as int) =~= s@);
    }
    count
}

impl ShapeDefinition {
    /// Whether this definition binds exactly one parameter per placeholder.
    pub fn is_well_formed(&self) -> (r: bool)
        ensures
            r == shape_wf(self@),
    {
        let c = count_placeholders(self.where_clause.as_str());
        c == self.params.len()
    }
}

fn shape(
    table: &str,
    where_clause: &str,
    params: Vec<String>,
    url: &str,
    row_type: &str,
) -> (r: ShapeDefinition)
    ensures
        r@ == (ShapeModel {
            table: table@,
            where_clause: where_clause@,
            params: params.deep_view(),
            url: url@,
            row_type: row_type@,
        }),
{
    ShapeDefinition {
        table: String::from_str(table),
        where_clause: String::from_str(where_clause),
        params,
        url: String::from_str(url),
        row_type: String::from_str(row_type),
    }
}

fn one_param(name: &str) -> (r: Vec<String>)
    ensures
        r.deep_view() =~= seq![name@],
{
    let mut v: Vec<String> = Vec::new();
    v.push(String::from_str(name));
    v
}

fn two_params(first: &str, second: &str) -> (r: Vec<String>)
    ensures
        r.deep_view() =~= seq![first@, second@],
{
    let mut v: Vec<String> = Vec::new();
    v.push(String::from_str(first));
    v.push(String::from_str(second));
    v
}

/// The registry contents: one model per shape, in registration order.
pub open spec fn registry_spec() -> Seq<ShapeModel> {
    seq![
        ShapeModel {
            table: "projects"@,
            where_clause: "\"organization_id\" = $1"@,
            params: seq!["organization_id"@],
            url: "/shape/projects"@,
            row_type: "Project"@,
        },
        ShapeModel {
            table: "notifications"@,
            where_clause: "\"organization_id\" = $1 AND \"user_id\" = $2"@,
            params: seq!["organization_id"@, "user_id"@],
            url: "/shape/notifications"@,
            row_type: "Notification"@,
        },
        ShapeModel {
            table: "organization_member_metadata"@,
            where_clause: "\"organization_id\" = $1"@,
            params: seq!["organization_id"@],
            url: "/shape/organization_members"@,
            row_type: "OrganizationMember"@,
        },
        ShapeModel {
            table: "users"@,
            where_clause:
                "\"id\" IN (SELECT user_id FROM organization_member_metadata WHERE \"organization_id\" = $1)"@,
            params: seq!["organization_id"@],
            url: "/shape/users"@,
            row_type: "User"@,
        },
        ShapeModel {
            table: "tags"@,
            where_clause: "\"project_id\" = $1"@,
            params: seq!["project_id"@],
            url: "/shape/project/{project_id}/tags"@,
            row_type: "Tag"@,
        },
        ShapeModel {
            table: "project_statuses"@,
            where_clause: "\"project_id\" = $1"@,
            params: seq!["project_id"@],
            url: "/shape/project/{project_id}/project_statuses"@,
            row_type: "ProjectStatus"@,
        },
        ShapeModel {
            table: "issues"@,
            where_clause: "\"project_id\" = $1"@,
            params: seq!["project_id"@],
            url: "/shape/project/{project_id}/issues"@,
            row_type: "Issue"@,
        },
        ShapeModel {
            table: "workspaces"@,
            where_clause: "\"owner_user_id\" = $1"@,
            params: seq!["owner_user_id"@],
            url: "/shape/user/workspaces"@,
            row_type: "Workspace"@,
        },
        ShapeModel {
            table: "workspaces"@,
            where_clause: "\"project_id\" = $1"@,
            params: seq!["project_id"@],
            url: "/shape/project/{project_id}/workspaces"@,
            row_type: "Workspace"@,
        },
        ShapeModel {
            table: "issue_assignees"@,
            where_clause: "\"issue_id\" IN (SELECT id FROM issues WHERE \"project_id\" = $1)"@,
            params: seq!["project_id"@],
            url: "/shape/project/{project_id}/issue_assignees"@,
            row_type: "IssueAssignee"@,
        },
        ShapeModel {
            table: "issue_followers"@,
            where_clause: "\"issue_id\" IN (SELECT id FROM issues WHERE \"project_id\" = $1)"@,
            params: seq!["project_id"@],
            url: "/shape/project/{project_id}/issue_followers"@,
            row_type: "IssueFollower"@,
        },
        ShapeModel {
            table: "issue_tags"@,
            where_clause: "\"issue_id\" IN (SELECT id FROM issues WHERE \"project_id\" = $1)"@,
            params: seq!["project_id"@],
            url: "/shape/project/{project_id}/issue_tags"@,
            row_type: "IssueTag"@,
        },
        ShapeModel {
            table: "issue_relationships"@,
            where_clause: "\"issue_id\" IN (SELECT id FROM issues WHERE \"project_id\" = $1)"@,
            params: seq!["project_id"@],
            url: "/shape/project/{project_id}/issue_relationships"@,
            row_type: "IssueRelationship"@,
        },
        ShapeModel {
            table: "pull_requests"@,
            where_clause: "\"issue_id\" IN (SELECT id FROM issues WHERE \"project_id\" = $1)"@,
            params: seq!["project_id"@],
            url: "/shape/project/{project_id}/pull_requests"@,
            row_type: "PullRequest"@,
        },
        ShapeModel {
            table: "issue_comments"@,
            where_clause: "\"issue_id\" = $1"@,
            params: seq!["issue_id"@],
            url: "/shape/issue/{issue_id}/comments"@,
            row_type: "IssueComment"@,
        },
        ShapeModel {
            table: "issue_comment_reactions"@,
            where_clause: "\"comment_id\" IN (SELECT id FROM issue_comments WHERE \"issue_id\" = $1)"@,
            params: seq!["issue_id"@],
            url: "/shape/issue/{issue_id}/reactions"@,
            row_type: "IssueCommentReaction"@,
        },
    ]
}


proof fn lemma_count_none(s: Seq<char>)
    requires
        forall|j: int| 0 <= j < s.len() ==> s[j] != '$',
    ensures
        placeholder_count(s) == 0,
    decreases s.len(),
{
    if s.len() > 0 {
        lemma_count_none(s.drop_last());
    }
}

proof fn lemma_count_one(s: Seq<char>, k: int)
    requires
        0 <= k < s.len(),
        s[k] == '$',
        forall|j: int| 0 <= j < s.len() && j != k ==> s[j] != '$',
    ensures
        placeholder_count(s) == 1,
    decreases s.len(),
{
    if k == s.len() - 1 {
        lemma_count_none(s.drop_last());
    } else {
        lemma_count_one(s.drop_last(), k);
    }
}

proof fn lemma_count_two(s: Seq<char>, k1: int, k2: int)
    requires
        0 <= k1 < k2 < s.len(),
        s[k1] == '$',
        s[k2] == '$',
        forall|j: int| 0 <= j < s.len() && j != k1 && j != k2 ==> s[j] != '$',
    ensures
        placeholder_count(s) == 2,
    decreases s.len(),
{
    if k2 == s.len() - 1 {
        lemma_count_one(s.drop_last(), k1);
    } else {
        lemma_count_two(s.drop_last(), k1, k2);
    }
}

proof fn lemma_org_clause_count()
    ensures
        placeholder_count("\"organization_id\" = $1"@) == 1,
{
    reveal_strlit("\"organization_id\" = $1");
    let s = "\"organization_id\" = $1"@;
    assert(s.len() == 22);
    assert(s[20] == '$');
    assert(forall|j: int| 0 <= j < s.len() && j != 20 ==> s[j] != '$');
    lemma_count_one(s, 20);
}

proof fn lemma_org_and_user_clause_count()
    ensures
        placeholder_count("\"organization_id\" = $1 AND \"user_id\" = $2"@) == 2,
{
    reveal_strlit("\"organization_id\" = $1 AND \"user_id\" = $2");
    let s = "\"organization_id\" = $1 AND \"user_id\" = $2"@;
    assert(s.len() == 41);
    assert(s[20] == '$');
    assert(s[39] == '$');
    assert(forall|j: int| 0 <= j < s.len() && j != 20 && j != 39 ==> s[j] != '$');
    lemma_count_two(s, 20, 39);
}

proof fn lemma_users_of_org_clause_count()
    ensures
        placeholder_count("\"id\" IN (SELECT user_id FROM organization_member_metadata WHERE \"organization_id\" = $1)"@) == 1,
{
    reveal_strlit("\"id\" IN (SELECT user_id FROM organization_member_metadata WHERE \"organization_id\" = $1)");
    let s = "\"id\" IN (SELECT user_id FROM organization_member_metadata WHERE \"organization_id\" = $1)"@;
    assert(s.len() == 87);
    assert(s[84] == '$');
    assert(forall|j: int| 0 <= j < s.len() && j != 84 ==> s[j] != '$');
    lemma_count_one(s, 84);
}

proof fn lemma_project_clause_count()
    ensures
        placeholder_count("\"project_id\" = $1"@) == 1,
{
    reveal_strlit("\"project_id\" = $1");
    let s = "\"project_id\" = $1"@;
    assert(s.len() == 17);
    assert(s[15] == '$');
    assert(forall|j: int| 0 <= j < s.len() && j != 15 ==> s[j] != '$');
    lemma_count_one(s, 15);
}

proof fn lemma_owner_clause_count()
    ensures
        placeholder_count("\"owner_user_id\" = $1"@) == 1,
{
    reveal_strlit("\"owner_user_id\" = $1");
    let s = "\"owner_user_id\" = $1"@;
    assert(s.len() == 20);
    assert(s[18] == '$');
    assert(forall|j: int| 0 <= j < s.len() && j != 18 ==> s[j] != '$');
    lemma_count_one(s, 18);
}

proof fn lemma_issues_of_project_clause_count()
    ensures
        placeholder_count("\"issue_id\" IN (SELECT id FROM issues WHERE \"project_id\" = $1)"@) == 1,
{
    reveal_strlit("\"issue_id\" IN (SELECT id FROM issues WHERE \"project_id\" = $1)");
    let s = "\"issue_id\" IN (SELECT id FROM issues WHERE \"project_id\" = $1)"@;
    assert(s.len() == 61);
    assert(s[58] == '$');
    assert(forall|j: int| 0 <= j < s.len() && j != 58 ==> s[j] != '$');
    lemma_count_one(s, 58);
}

proof fn lemma_issue_clause_count()
    ensures
        placeholder_count("\"issue_id\" = $1"@) == 1,
{
    reveal_strlit("\"issue_id\" = $1");
    let s = "\"issue_id\" = $1"@;
    assert(s.len() == 15);
    assert(s[13] == '$');
    assert(forall|j: int| 0 <= j < s.len() && j != 13 ==> s[j] != '$');
    lemma_count_one(s, 13);
}

proof fn lemma_comments_of_issue_clause_count()
    ensures
        placeholder_count("\"comment_id\" IN (SELECT id FROM issue_comments WHERE \"issue_id\" = $1)"@) == 1,
{
    reveal_strlit("\"comment_id\" IN (SELECT id FROM issue_comments WHERE \"issue_id\" = $1)");
    let s = "\"comment_id\" IN (SELECT id FROM issue_comments WHERE \"issue_id\" = $1)"@;
    assert(s.len() == 69);
    assert(s[66] == '$');
    assert(forall|j: int| 0 <= j < s.len() && j != 66 ==> s[j] != '$');
    lemma_count_one(s, 66);
}

/// Every shape of the registry binds exactly one parameter per placeholder
/// of its predicate template.
pub proof fn lemma_registry_well_formed()
    ensures
        forall|i: int| 0 <= i < registry_spec().len() ==> shape_wf(#[trigger] registry_spec()[i]),
{
    lemma_org_clause_count();
    lemma_org_and_user_clause_count();
    lemma_users_of_org_clause_count();
    lemma_project_clause_count();
    lemma_owner_clause_count();
    lemma_issues_of_project_clause_count();
    lemma_issue_clause_count();
    lemma_comments_of_issue_clause_count();
}

/// The shape registry: the full ordered sequence of shape definitions,
/// fixed at startup, one entry per logical row-set.
pub fn all_shapes() -> (r: Vec<ShapeDefinition>)
    ensures
        r@.len() == registry_spec().len(),
        forall|i: int| 0 <= i < r@.len() ==> r@[i]@ == registry_spec()[i],
{
    let mut v: Vec<ShapeDefinition> = Vec::new();
    v.push(shape(
        "projects",
        "\"organization_id\" = $1",
        one_param("organization_id"),
        "/shape/projects",
        "Project",
    ));
    v.push(shape(
        "notifications",
        "\"organization_id\" = $1 AND \"user_id\" = $2",
        two_params("organization_id", "user_id"),
        "/shape/notifications",
        "Notification",
    ));
    v.push(shape(
        "organization_member_metadata",
        "\"organization_id\" = $1",
        one_param("organization_id"),
        "/shape/organization_members",
        "OrganizationMember",
    ));
    v.push(shape(
        "users",
        "\"id\" IN (SELECT user_id FROM organization_member_metadata WHERE \"organization_id\" = $1)",
        one_param("organization_id"),
        "/shape/users",
        "User",
    ));
    v.push(shape(
        "tags",
        "\"project_id\" = $1",
        one_param("project_id"),
        "/shape/project/{project_id}/tags",
        "Tag",
    ));
    v.push(shape(
        "project_statuses",
        "\"project_id\" = $1",
        one_param("project_id"),
        "/shape/project/{project_id}/project_statuses",
        "ProjectStatus",
    ));
    v.push(shape(
        "issues",
        "\"project_id\" = $1",
        one_param("project_id"),
        "/shape/project/{project_id}/issues",
        "Issue",
    ));
    v.push(shape(
        "workspaces",
        "\"owner_user_id\" = $1",
        one_param("owner_user_id"),
        "/shape/user/workspaces",
        "Workspace",
    ));
    v.push(shape(
        "workspaces",
        "\"project_id\" = $1",
        one_param("project_id"),
        "/shape/project/{project_id}/workspaces",
        "Workspace",
    ));
    v.push(shape(
        "issue_assignees",
        "\"issue_id\" IN (SELECT id FROM issues WHERE \"project_id\" = $1)",
        one_param("project_id"),
        "/shape/project/{project_id}/issue_assignees",
        "IssueAssignee",
    ));
    v.push(shape(
        "issue_followers",
        "\"issue_id\" IN (SELECT id FROM issues WHERE \"project_id\" = $1)",
        one_param("project_id"),
        "/shape/project/{project_id}/issue_followers",
        "IssueFollower",
    ));
    v.push(shape(
        "issue_tags",
        "\"issue_id\" IN (SELECT id FROM issues WHERE \"project_id\" = $1)",
        one_param("project_id"),
        "/shape/project/{project_id}/issue_tags",
        "IssueTag",
    ));
    v.push(shape(
        "issue_relationships",
        "\"issue_id\" IN (SELECT id FROM issues WHERE \"project_id\" = $1)",
        one_param("project_id"),
        "/shape/project/{project_id}/issue_relationships",
        "IssueRelationship",
    ));
    v.push(shape(
        "pull_requests",
        "\"issue_id\" IN (SELECT id FROM issues WHERE \"project_id\" = $1)",
        one_param("project_id"),
        "/shape/project/{project_id}/pull_requests",
        "PullRequest",
    ));
    v.push(shape(
        "issue_comments",
        "\"issue_id\" = $1",
        one_param("issue_id"),
        "/shape/issue/{issue_id}/comments",
        "IssueComment",
    ));
    v.push(shape(
        "issue_comment_reactions",
        "\"comment_id\" IN (SELECT id FROM issue_comments WHERE \"issue_id\" = $1)",
        one_param("issue_id"),
        "/shape/issue/{issue_id}/reactions",
        "IssueCommentReaction",
    ));
    v
}

} // verus!
