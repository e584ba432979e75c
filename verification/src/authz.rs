//! The authorization relation: which user may read which scope.
//!
//! The gateway checks one of three relationships before any data access:
//! membership in an organization, access to a project (membership in its
//! owning organization), or access to an issue (access to its owning
//! project). The relations are modelled as explicit tables of identifier
//! pairs; the store behind them is read-only for the request path.

use vstd::prelude::*;

verus! {

/// The access-control state the checks are evaluated against.
pub struct AccessControl {
    /// Pairs `(organization_id, user_id)`: the user is a member.
    pub org_members: Vec<(u128, u128)>,
    /// Pairs `(project_id, organization_id)`: the organization owns the project.
    pub project_orgs: Vec<(u128, u128)>,
    /// Pairs `(issue_id, project_id)`: the project owns the issue.
    pub issue_projects: Vec<(u128, u128)>,
}

/// The user is a member of the organization.
pub open spec fn is_org_member(ac: AccessControl, org: u128, user: u128) -> bool {
    ac.org_members@.contains((org, user))
}

/// The user has access to the project: they are a member of an owning
/// organization.
pub open spec fn has_project_access(ac: AccessControl, project: u128, user: u128) -> bool {
    exists|i: int|
        0 <= i < ac.project_orgs@.len() && (#[trigger] ac.project_orgs@[i]).0 == project
            && is_org_member(ac, ac.project_orgs@[i].1, user)
}

/// The user has access to the issue: they have access to an owning project.
pub open spec fn has_issue_access(ac: AccessControl, issue: u128, user: u128) -> bool {
    exists|i: int|
        0 <= i < ac.issue_projects@.len() && (#[trigger] ac.issue_projects@[i]).0 == issue
            && has_project_access(ac, ac.issue_projects@[i].1, user)
}

/// Decides membership of the user in the organization.
pub fn check_org_member(ac: &AccessControl, org: u128, user: u128) -> (r: bool)
    ensures
        r == is_org_member(*ac, org, user),
{
    let n = ac.org_members.len();
    let mut i: usize = 0;
    while i < n
        invariant
            n == ac.org_members@.len(),
            i <= n,
            forall|j: int| 0 <= j < i ==> ac.org_members@[j] != (org, user),
        decreases n - i,
    {
        let entry = ac.org_members[i];
        if entry.0 == org && entry.1 == user {
            assert(ac.org_members@.contains((org, user)));
            return true;
        }
        i += 1;
    }
    assert(!ac.org_members@.contains((org, user)));
    false
}

/// Decides the user's access to the project.
pub fn check_project_access(ac: &AccessControl, project: u128, user: u128) -> (r: bool)
    ensures
        r == has_project_access(*ac, project, user),
{
    let n = ac.project_orgs.len();
    let mut i: usize = 0;
    while i < n
        invariant
            n == ac.project_orgs@.len(),
            i <= n,
            forall|j: int|
                0 <= j < i ==> !((#[trigger] ac.project_orgs@[j]).0 == project && is_org_member(
                    *ac,
                    ac.project_orgs@[j].1,
                    user,
                )),
        decreases n - i,
    {
        let entry = ac.project_orgs[i];
        if entry.0 == project && check_org_member(ac, entry.1, user) {
            return true;
        }
        i += 1;
    }
    false
}

/// Decides the user's access to the issue.
pub fn check_issue_access(ac: &AccessControl, issue: u128, user: u128) -> (r: bool)
    ensures
        r == has_issue_access(*ac, issue, user),
{
    let n = ac.issue_projects.len();
    let mut i: usize = 0;
    while i < n
        invariant
            n == ac.issue_projects@.len(),
            i <= n,
            forall|j: int|
                0 <= j < i ==> !((#[trigger] ac.issue_projects@[j]).0 == issue
                    && has_project_access(*ac, ac.issue_projects@[j].1, user)),
        decreases n - i,
    {
        let entry = ac.issue_projects[i];
        if entry.0 == issue && check_project_access(ac, entry.1, user) {
            return true;
        }
        i += 1;
    }
    false
}

} // verus!
