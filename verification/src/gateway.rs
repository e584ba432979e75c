//! Pure decision logic of the tool-calling gateway that consumes the REST
//! surface: priority parsing, status resolution, context fallbacks, text
//! assembly, and the list filters. All I/O — the HTTP calls that fetch
//! the data these functions decide over — stays outside the verified
//! core; every function here maps plain values to plain values.

use vstd::prelude::*;
use vstd::string::StringExecFns;

use crate::ids::{uuid_string, uuid_text};
use crate::text::{
    chars_eq_ic, contains_ic, str_contains_ignore_case, str_eq_ignore_case, str_trim, trimmed,
};

verus! {

/// An issue priority level.
#[derive(Clone, Copy, PartialEq, Eq, Structural, Debug)]
pub enum IssuePriority {
    Urgent,
    High,
    Medium,
    Low,
}

/// The canonical label of a priority.
pub open spec fn spec_priority_label(p: IssuePriority) -> Seq<char> {
    match p {
        IssuePriority::Urgent => "urgent"@,
        IssuePriority::High => "high"@,
        IssuePriority::Medium => "medium"@,
        IssuePriority::Low => "low"@,
    }
}

/// The canonical label of a priority.
pub fn priority_label(p: IssuePriority) -> (r: String)
    ensures
        r@ == spec_priority_label(p),
{
    match p {
        IssuePriority::Urgent => String::from_str("urgent"),
        IssuePriority::High => String::from_str("high"),
        IssuePriority::Medium => String::from_str("medium"),
        IssuePriority::Low => String::from_str("low"),
    }
}

/// The priority named by the text: trimmed and compared to the canonical
/// labels without regard to ASCII case; anything else is no priority.
pub open spec fn spec_parse_priority(s: Seq<char>) -> Option<IssuePriority> {
    if chars_eq_ic(trimmed(s), "urgent"@) {
        Some(IssuePriority::Urgent)
    } else if chars_eq_ic(trimmed(s), "high"@) {
        Some(IssuePriority::High)
    } else if chars_eq_ic(trimmed(s), "medium"@) {
        Some(IssuePriority::Medium)
    } else if chars_eq_ic(trimmed(s), "low"@) {
        Some(IssuePriority::Low)
    } else {
        None
    }
}

/// Parses a priority name.
pub fn parse_priority(s: &str) -> (r: Option<IssuePriority>)
    ensures
        r == spec_parse_priority(s@),
{
    let t = str_trim(s);
    if str_eq_ignore_case(t, "urgent") {
        Some(IssuePriority::Urgent)
    } else if str_eq_ignore_case(t, "high") {
        Some(IssuePriority::High)
    } else if str_eq_ignore_case(t, "medium") {
        Some(IssuePriority::Medium)
    } else if str_eq_ignore_case(t, "low") {
        Some(IssuePriority::Low)
    } else {
        None
    }
}

/// One status of a project's workflow.
pub struct ProjectStatus {
    pub id: u128,
    pub name: String,
    pub hidden: bool,
    pub sort_order: i64,
}

/// The name of the first status carrying the identifier, if any.
pub open spec fn spec_status_name(ss: Seq<ProjectStatus>, id: u128) -> Option<Seq<char>>
    decreases ss.len(),
{
    if ss.len() == 0 {
        None
    } else if ss[0].id == id {
        Some(ss[0].name@)
    } else {
        spec_status_name(ss.drop_first(), id)
    }
}

/// Resolves a status identifier to its display name: the first status of
/// the list carrying it.
pub fn status_name_of(ss: &Vec<ProjectStatus>, id: u128) -> (r: Option<String>)
    ensures
        ({
            match r {
                Some(name) => spec_status_name(ss@, id) == Some(name@),
                None => spec_status_name(ss@, id) is None,
            }
        }),
{
    let n = ss.len();
    let mut i: usize = 0;
    proof {
        assert(ss@.skip(0) =~= ss@);
    }
    while i < n
        invariant
            n == ss@.len(),
            i <= n,
            spec_status_name(ss@, id) == spec_status_name(ss@.skip(i as int), id),
        decreases n - i,
    {
        proof {
            assert(ss@.skip(i as int)[0] == ss@[i as int]);
            assert(ss@.skip(i as int).drop_first() =~= ss@.skip(i + 1));
        }
        if ss[i].id == id {
            return Some(ss[i].name.clone());
        }
        i += 1;
    }
    proof {
        assert(ss@.skip(n as int).len() == 0);
    }
    None
}

/// The identifier of the first status whose name matches, without regard
/// to ASCII case.
pub open spec fn spec_find_status_id(ss: Seq<ProjectStatus>, name: Seq<char>) -> Option<u128>
    decreases ss.len(),
{
    if ss.len() == 0 {
        None
    } else if chars_eq_ic(ss[0].name@, name) {
        Some(ss[0].id)
    } else {
        spec_find_status_id(ss.drop_first(), name)
    }
}

/// Resolves a status name to the identifier of the first status carrying
/// it, compared without regard to ASCII case.
pub fn find_status_id(ss: &Vec<ProjectStatus>, name: &str) -> (r: Option<u128>)
    ensures
        r == spec_find_status_id(ss@, name@),
{
    let n = ss.len();
    let mut i: usize = 0;
    proof {
        assert(ss@.skip(0) =~= ss@);
    }
    while i < n
        invariant
            n == ss@.len(),
            i <= n,
            spec_find_status_id(ss@, name@) == spec_find_status_id(ss@.skip(i as int), name@),
        decreases n - i,
    {
        proof {
            assert(ss@.skip(i as int)[0] == ss@[i as int]);
            assert(ss@.skip(i as int).drop_first() =~= ss@.skip(i + 1));
        }
        if str_eq_ignore_case(ss[i].name.as_str(), name) {
            return Some(ss[i].id);
        }
        i += 1;
    }
    proof {
        assert(ss@.skip(n as int).len() == 0);
    }
    None
}

/// The default status of a project: the first visible status with the
/// least sort order; none where every status is hidden.
pub fn default_status_id(ss: &Vec<ProjectStatus>) -> (r: Option<u128>)
    ensures
        ({
            match r {
                Some(id) => exists|i: int|
                    0 <= i < ss@.len() && (#[trigger] ss@[i]).id == id && !ss@[i].hidden && (
                    forall|j: int|
                        0 <= j < ss@.len() && !(#[trigger] ss@[j]).hidden ==> ss@[i].sort_order
                            <= ss@[j].sort_order) && (forall|j: int|
                        0 <= j < i && !(#[trigger] ss@[j]).hidden ==> ss@[i].sort_order
                            < ss@[j].sort_order),
                None => forall|i: int| 0 <= i < ss@.len() ==> (#[trigger] ss@[i]).hidden,
            }
        }),
{
    let n = ss.len();
    let mut best: Option<usize> = None;
    let mut i: usize = 0;
    while i < n
        invariant
            n == ss@.len(),
            i <= n,
            ({
                match best {
                    Some(b) => b < i && !ss@[b as int].hidden && (forall|j: int|
                        0 <= j < i && !(#[trigger] ss@[j]).hidden ==> ss@[b as int].sort_order
                            <= ss@[j].sort_order) && (forall|j: int|
                        0 <= j < b && !(#[trigger] ss@[j]).hidden ==> ss@[b as int].sort_order
                            < ss@[j].sort_order),
                    None => forall|j: int| 0 <= j < i ==> (#[trigger] ss@[j]).hidden,
                }
            }),
        decreases n - i,
    {
        if !ss[i].hidden {
            match best {
                Some(b) => {
                    if ss[i].sort_order < ss[b].sort_order {
                        best = Some(i);
                    }
                },
                None => {
                    best = Some(i);
                },
            }
        }
        i += 1;
    }
    match best {
        Some(b) => Some(ss[b].id),
        None => None,
    }
}

/// An explicit identifier wins; otherwise the workspace context supplies
/// one; otherwise there is none.
pub open spec fn spec_resolve_id(explicit: Option<u128>, context: Option<u128>) -> Option<
    u128,
> {
    if explicit is Some {
        explicit
    } else {
        context
    }
}

/// Resolves a project identifier from an explicit argument or the linked
/// workspace context.
pub fn resolve_project_id(explicit: Option<u128>, context: Option<u128>) -> (r: Option<u128>)
    ensures
        r == spec_resolve_id(explicit, context),
{
    match explicit {
        Some(id) => Some(id),
        None => context,
    }
}

/// Resolves an organization identifier from an explicit argument or the
/// linked workspace context.
pub fn resolve_organization_id(explicit: Option<u128>, context: Option<u128>) -> (r: Option<
    u128,
>)
    ensures
        r == spec_resolve_id(explicit, context),
{
    match explicit {
        Some(id) => Some(id),
        None => context,
    }
}

/// The session prompt built from an issue: its trimmed title and trimmed
/// description, both where both are non-empty, either alone otherwise,
/// and nothing where both are empty.
pub open spec fn spec_prompt(title: Seq<char>, description: Option<Seq<char>>) -> Option<
    Seq<char>,
> {
    let t = trimmed(title);
    let d = match description {
        Some(d) => trimmed(d),
        None => Seq::empty(),
    };
    if t.len() == 0 && d.len() == 0 {
        None
    } else if d.len() == 0 {
        Some(t)
    } else if t.len() == 0 {
        Some(d)
    } else {
        Some(t + "\n\n"@ + d)
    }
}

/// Builds the workspace session prompt from an issue's title and
/// description.
pub fn build_workspace_prompt(title: &str, description: Option<&str>) -> (r: Option<String>)
    ensures
        ({
            match r {
                Some(p) => spec_prompt(title@, spec_opt_str_view(description)) == Some(p@),
                None => spec_prompt(title@, spec_opt_str_view(description)) is None,
            }
        }),
{
    let t = str_trim(title);
    let d: &str = match description {
        Some(d) => str_trim(d),
        None => "",
    };
    proof {
        reveal_strlit("");
        if description is None {
            assert(""@ =~= Seq::<char>::empty());
        }
    }
    if t.is_empty() && d.is_empty() {
        None
    } else if d.is_empty() {
        Some(t.to_owned())
    } else if t.is_empty() {
        Some(d.to_owned())
    } else {
        let mut s = t.to_owned();
        s.append("\n\n");
        s.append(d);
        Some(s)
    }
}

/// The view of an optional borrowed string.
pub open spec fn spec_opt_str_view(s: Option<&str>) -> Option<Seq<char>> {
    match s {
        Some(s) => Some(s@),
        None => None,
    }
}

/// `s` with every trailing slash removed.
pub open spec fn trim_end_slashes(s: Seq<char>) -> Seq<char>
    decreases s.len(),
{
    if s.len() > 0 && s.last() == '/' {
        trim_end_slashes(s.drop_last())
    } else {
        s
    }
}

/// `s` with every leading slash removed.
pub open spec fn trim_start_slashes(s: Seq<char>) -> Seq<char>
    decreases s.len(),
{
    if s.len() > 0 && s[0] == '/' {
        trim_start_slashes(s.drop_first())
    } else {
        s
    }
}

/// Joins the API base URL and a path with exactly one slash between them.
pub fn join_url(base: &str, path: &str) -> (r: String)
    ensures
        r@ == trim_end_slashes(base@) + "/"@ + trim_start_slashes(path@),
{
    let bn = base.unicode_len();
    let mut j: usize = bn;
    proof {
        assert(base@.subrange(0, bn as int) =~= base@);
    }
    while j > 0 && base.get_char(j - 1) == '/'
        invariant
            bn == base@.len(),
            j <= bn,
            trim_end_slashes(base@) == trim_end_slashes(base@.subrange(0, j as int)),
            forall|k: int| j <= k < bn ==> base@[k] == '/',
        decreases j,
    {
        proof {
            let t = base@.subrange(0, j as int);
            assert(t.last() == base@[j - 1]);
            assert(t.drop_last() =~= base@.subrange(0, j - 1));
        }
        j -= 1;
    }
    let mut i: usize = 0;
    let pn = path.unicode_len();
    proof {
        assert(path@.subrange(0, pn as int) =~= path@);
    }
    while i < pn && path.get_char(i) == '/'
        invariant
            pn == path@.len(),
            i <= pn,
            trim_start_slashes(path@) == trim_start_slashes(path@.subrange(i as int, pn as int)),
        decreases pn - i,
    {
        proof {
            let t = path@.subrange(i as int, pn as int);
            assert(t[0] == path@[i as int]);
            assert(t.drop_first() =~= path@.subrange(i + 1, pn as int));
        }
        i += 1;
    }
    let head = base.substring_char(0, j);
    let tail = path.substring_char(i, pn);
    proof {
        let t = base@.subrange(0, j as int);
        if t.len() > 0 {
            assert(t.last() == base@[j - 1]);
        }
        assert(trim_end_slashes(t) == t);
        let u = path@.subrange(i as int, pn as int);
        if u.len() > 0 {
            assert(u[0] == path@[i as int]);
        }
        assert(trim_start_slashes(u) == u);
    }
    let mut s = head.to_owned();
    s.append("/");
    s.append(tail);
    s
}

/// A row of the issue list, reduced to what the filters read.
pub struct Issue {
    pub id: u128,
    pub project_id: u128,
    pub status_id: u128,
    pub parent_issue_id: Option<u128>,
    pub priority: Option<IssuePriority>,
    pub title: String,
    pub description: Option<String>,
    pub simple_id: String,
    pub created_at: u64,
    pub updated_at: u64,
}

/// The elements of `s` satisfying `pred`, in order.
pub open spec fn keep_matching<T>(s: Seq<T>, pred: spec_fn(T) -> bool) -> Seq<T>
    decreases s.len(),
{
    if s.len() == 0 {
        Seq::empty()
    } else if pred(s.last()) {
        keep_matching(s.drop_last(), pred).push(s.last())
    } else {
        keep_matching(s.drop_last(), pred)
    }
}

/// The issue passes every requested filter: parent, case-insensitive
/// title-or-description search, case-insensitive simple id, priority.
pub open spec fn spec_issue_passes(
    it: Issue,
    parent: Option<u128>,
    search: Option<Seq<char>>,
    simple_id: Option<Seq<char>>,
    priority: Option<IssuePriority>,
) -> bool {
    &&& (parent is Some ==> it.parent_issue_id == parent)
    &&& (search is Some ==> contains_ic(it.title@, search->0) || (it.description is Some
        && contains_ic(it.description->0@, search->0)))
    &&& (simple_id is Some ==> chars_eq_ic(it.simple_id@, simple_id->0))
    &&& (priority is Some ==> it.priority == priority)
}

fn issue_passes(
    it: &Issue,
    parent: Option<u128>,
    search: Option<&str>,
    simple_id: Option<&str>,
    priority: Option<IssuePriority>,
) -> (b: bool)
    ensures
        b == spec_issue_passes(
            *it,
            parent,
            spec_opt_str_view(search),
            spec_opt_str_view(simple_id),
            priority,
        ),
{
    let parent_ok = match parent {
        Some(p) => match it.parent_issue_id {
            Some(q) => p == q,
            None => false,
        },
        None => true,
    };
    let search_ok = match search {
        Some(s) => str_contains_ignore_case(it.title.as_str(), s) || (match &it.description {
            Some(d) => str_contains_ignore_case(d.as_str(), s),
            None => false,
        }),
        None => true,
    };
    let simple_ok = match simple_id {
        Some(s) => str_eq_ignore_case(it.simple_id.as_str(), s),
        None => true,
    };
    let priority_ok = match priority {
        Some(p) => match it.priority {
            Some(q) => p == q,
            None => false,
        },
        None => true,
    };
    parent_ok && search_ok && simple_ok && priority_ok
}

/// Filters the issue list by parent, search text, simple id, and
/// priority, keeping stored order.
pub fn filter_issues(
    issues: Vec<Issue>,
    parent: Option<u128>,
    search: Option<&str>,
    simple_id: Option<&str>,
    priority: Option<IssuePriority>,
) -> (r: Vec<Issue>)
    ensures
        r@ == keep_matching(
            issues@,
            |it: Issue|
                spec_issue_passes(
                    it,
                    parent,
                    spec_opt_str_view(search),
                    spec_opt_str_view(simple_id),
                    priority,
                ),
        ),
{
    let ghost pred = |it: Issue|
        spec_issue_passes(
            it,
            parent,
            spec_opt_str_view(search),
            spec_opt_str_view(simple_id),
            priority,
        );
    let ghost full = issues@;
    let mut rest = issues;
    let total = rest.len();
    let mut out: Vec<Issue> = Vec::new();
    let mut i: usize = 0;
    proof {
        assert(rest@ =~= full.skip(0));
        assert(full.take(0) =~= Seq::<Issue>::empty());
    }
    while rest.len() > 0
        invariant
            full.len() == total,
            i + rest@.len() == full.len(),
            rest@ =~= full.skip(i as int),
            out@ == keep_matching(full.take(i as int), pred),
            pred == (|it: Issue|
                spec_issue_passes(
                    it,
                    parent,
                    spec_opt_str_view(search),
                    spec_opt_str_view(simple_id),
                    priority,
                )),
        decreases rest@.len(),
    {
        let it = rest.remove(0);
        proof {
            assert(full.skip(i as int)[0] == full[i as int]);
            assert(full.skip(i as int).remove(0) =~= full.skip(i + 1));
            assert(full.take(i + 1).drop_last() =~= full.take(i as int));
            assert(full.take(i + 1).last() == full[i as int]);
        }
        if issue_passes(&it, parent, search, simple_id, priority) {
            out.push(it);
        }
        i += 1;
    }
    proof {
        assert(full.take(i as int) =~= full);
    }
    out
}

/// The issue matches the requested status: its resolved status name — the
/// empty text where none resolves — equals the target without regard to
/// case, or its status identifier rendered as UUID text does.
pub open spec fn spec_status_matches(
    it: Issue,
    statuses: Seq<ProjectStatus>,
    target: Seq<char>,
) -> bool {
    let name = match spec_status_name(statuses, it.status_id) {
        Some(n) => n,
        None => Seq::empty(),
    };
    chars_eq_ic(name, target) || chars_eq_ic(uuid_text(it.status_id), target)
}

fn status_matches(it: &Issue, statuses: &Vec<ProjectStatus>, target: &str) -> (b: bool)
    ensures
        b == spec_status_matches(*it, statuses@, target@),
{
    let name_ok = match status_name_of(statuses, it.status_id) {
        Some(name) => str_eq_ignore_case(name.as_str(), target),
        None => {
            proof {
                reveal_strlit("");
                assert(""@ =~= Seq::<char>::empty());
            }
            str_eq_ignore_case("", target)
        },
    };
    if name_ok {
        return true;
    }
    let rendered = uuid_string(it.status_id);
    str_eq_ignore_case(rendered.as_str(), target)
}

/// Filters the issue list to those matching the requested status, keeping
/// stored order.
pub fn filter_issues_by_status(
    issues: Vec<Issue>,
    statuses: &Vec<ProjectStatus>,
    target: &str,
) -> (r: Vec<Issue>)
    ensures
        r@ == keep_matching(
            issues@,
            |it: Issue| spec_status_matches(it, statuses@, target@),
        ),
{
    let ghost pred = |it: Issue| spec_status_matches(it, statuses@, target@);
    let ghost full = issues@;
    let mut rest = issues;
    let total = rest.len();
    let mut out: Vec<Issue> = Vec::new();
    let mut i: usize = 0;
    proof {
        assert(rest@ =~= full.skip(0));
        assert(full.take(0) =~= Seq::<Issue>::empty());
    }
    while rest.len() > 0
        invariant
            full.len() == total,
            i + rest@.len() == full.len(),
            rest@ =~= full.skip(i as int),
            out@ == keep_matching(full.take(i as int), pred),
            pred == (|it: Issue| spec_status_matches(it, statuses@, target@)),
        decreases rest@.len(),
    {
        let it = rest.remove(0);
        proof {
            assert(full.skip(i as int)[0] == full[i as int]);
            assert(full.skip(i as int).remove(0) =~= full.skip(i + 1));
            assert(full.take(i + 1).drop_last() =~= full.take(i as int));
            assert(full.take(i + 1).last() == full[i as int]);
        }
        if status_matches(&it, statuses, target) {
            out.push(it);
        }
        i += 1;
    }
    proof {
        assert(full.take(i as int) =~= full);
    }
    out
}

/// Some association pair links the subject to one of the candidates.
pub open spec fn spec_linked(pairs: Seq<(u128, u128)>, subject: u128, candidates: Seq<u128>) -> bool {
    exists|i: int|
        0 <= i < pairs.len() && (#[trigger] pairs[i]).0 == subject && candidates.contains(
            pairs[i].1,
        )
}

fn id_list_contains(v: &Vec<u128>, x: u128) -> (b: bool)
    ensures
        b == v@.contains(x),
{
    let n = v.len();
    let mut i: usize = 0;
    while i < n
        invariant
            n == v@.len(),
            i <= n,
            forall|j: int| 0 <= j < i ==> v@[j] != x,
        decreases n - i,
    {
        if v[i] == x {
            assert(v@.contains(x));
            return true;
        }
        i += 1;
    }
    assert(!v@.contains(x));
    false
}

fn is_linked(pairs: &Vec<(u128, u128)>, subject: u128, candidates: &Vec<u128>) -> (b: bool)
    ensures
        b == spec_linked(pairs@, subject, candidates@),
{
    let n = pairs.len();
    let mut i: usize = 0;
    while i < n
        invariant
            n == pairs@.len(),
            i <= n,
            forall|j: int|
                0 <= j < i ==> !((#[trigger] pairs@[j]).0 == subject && candidates@.contains(
                    pairs@[j].1,
                )),
        decreases n - i,
    {
        let (a, b) = pairs[i];
        if a == subject && id_list_contains(candidates, b) {
            return true;
        }
        i += 1;
    }
    false
}

/// Filters the issue list to those carrying one of the candidate tags,
/// given the issue-to-tag association pairs, keeping stored order.
pub fn filter_issues_by_tag_ids(
    issues: Vec<Issue>,
    issue_tags: &Vec<(u128, u128)>,
    tag_ids: &Vec<u128>,
) -> (r: Vec<Issue>)
    ensures
        r@ == keep_matching(
            issues@,
            |it: Issue| spec_linked(issue_tags@, it.id, tag_ids@),
        ),
{
    let ghost pred = |it: Issue| spec_linked(issue_tags@, it.id, tag_ids@);
    let ghost full = issues@;
    let mut rest = issues;
    let total = rest.len();
    let mut out: Vec<Issue> = Vec::new();
    let mut i: usize = 0;
    proof {
        assert(rest@ =~= full.skip(0));
        assert(full.take(0) =~= Seq::<Issue>::empty());
    }
    while rest.len() > 0
        invariant
            full.len() == total,
            i + rest@.len() == full.len(),
            rest@ =~= full.skip(i as int),
            out@ == keep_matching(full.take(i as int), pred),
            pred == (|it: Issue| spec_linked(issue_tags@, it.id, tag_ids@)),
        decreases rest@.len(),
    {
        let it = rest.remove(0);
        proof {
            assert(full.skip(i as int)[0] == full[i as int]);
            assert(full.skip(i as int).remove(0) =~= full.skip(i + 1));
            assert(full.take(i + 1).drop_last() =~= full.take(i as int));
            assert(full.take(i + 1).last() == full[i as int]);
        }
        if is_linked(issue_tags, it.id, tag_ids) {
            out.push(it);
        }
        i += 1;
    }
    proof {
        assert(full.take(i as int) =~= full);
    }
    out
}

/// Filters the issue list to those assigned to the user, given the
/// issue-to-assignee association pairs, keeping stored order.
pub fn filter_issues_by_assignee(
    issues: Vec<Issue>,
    issue_assignees: &Vec<(u128, u128)>,
    user: u128,
) -> (r: Vec<Issue>)
    ensures
        r@ == keep_matching(
            issues@,
            |it: Issue| issue_assignees@.contains((it.id, user)),
        ),
{
    let ghost pred = |it: Issue| issue_assignees@.contains((it.id, user));
    let ghost full = issues@;
    let mut rest = issues;
    let total = rest.len();
    let mut out: Vec<Issue> = Vec::new();
    let mut i: usize = 0;
    proof {
        assert(rest@ =~= full.skip(0));
        assert(full.take(0) =~= Seq::<Issue>::empty());
    }
    while rest.len() > 0
        invariant
            full.len() == total,
            i + rest@.len() == full.len(),
            rest@ =~= full.skip(i as int),
            out@ == keep_matching(full.take(i as int), pred),
            pred == (|it: Issue| issue_assignees@.contains((it.id, user))),
        decreases rest@.len(),
    {
        let it = rest.remove(0);
        proof {
            assert(full.skip(i as int)[0] == full[i as int]);
            assert(full.skip(i as int).remove(0) =~= full.skip(i + 1));
            assert(full.take(i + 1).drop_last() =~= full.take(i as int));
            assert(full.take(i + 1).last() == full[i as int]);
        }
        if pair_list_contains(issue_assignees, it.id, user) {
            out.push(it);
        }
        i += 1;
    }
    proof {
        assert(full.take(i as int) =~= full);
    }
    out
}

fn pair_list_contains(v: &Vec<(u128, u128)>, a: u128, b: u128) -> (r: bool)
    ensures
        r == v@.contains((a, b)),
{
    let n = v.len();
    let mut i: usize = 0;
    while i < n
        invariant
            n == v@.len(),
            i <= n,
            forall|j: int| 0 <= j < i ==> v@[j] != (a, b),
        decreases n - i,
    {
        let e = v[i];
        if e.0 == a && e.1 == b {
            assert(v@.contains((a, b)));
            return true;
        }
        i += 1;
    }
    assert(!v@.contains((a, b)));
    false
}

/// Issues in non-increasing order of last update.
pub open spec fn sorted_by_updated_desc(s: Seq<Issue>) -> bool {
    forall|i: int, j: int| 0 <= i < j < s.len() ==> s[i].updated_at >= s[j].updated_at
}

/// Sorts the issue list by last update, most recent first: the result is
/// a permutation of the input in non-increasing update order.
pub fn sort_issues_by_updated_desc(issues: Vec<Issue>) -> (r: Vec<Issue>)
    ensures
        sorted_by_updated_desc(r@),
        r@.to_multiset() == issues@.to_multiset(),
{
    broadcast use vstd::seq_lib::group_to_multiset_ensures;

    let ghost full = issues@;
    let mut rest = issues;
    let mut out: Vec<Issue> = Vec::new();
    proof {
        assert(out@.to_multiset().add(rest@.to_multiset()) =~= full.to_multiset());
    }
    while rest.len() > 0
        invariant
            out@.to_multiset().add(rest@.to_multiset()) == full.to_multiset(),
            sorted_by_updated_desc(out@),
            forall|k: int|
                0 <= k < rest@.len() && out@.len() > 0 ==> (#[trigger] rest@[k]).updated_at
                    <= out@.last().updated_at,
        decreases rest@.len(),
    {
        let n = rest.len();
        let mut best: usize = 0;
        let mut m: usize = 1;
        while m < n
            invariant
                n == rest@.len(),
                best < m <= n,
                n >= 1,
                forall|k: int|
                    0 <= k < m ==> (#[trigger] rest@[k]).updated_at
                        <= rest@[best as int].updated_at,
            decreases n - m,
        {
            if rest[m].updated_at > rest[best].updated_at {
                best = m;
            }
            m += 1;
        }
        let ghost rest_old = rest@;
        let ghost out_old = out@;
        let x = rest.remove(best);
        out.push(x);
        proof {
            broadcast use vstd::seq_lib::group_to_multiset_ensures;

            assert(rest_old[best as int] == x);
            assert(rest_old.contains(x));
            assert(out@.to_multiset() =~= out_old.to_multiset().insert(x));
            assert(rest@.to_multiset() =~= rest_old.to_multiset().remove(x));
            assert(out@.to_multiset().add(rest@.to_multiset()) =~= out_old.to_multiset().add(
                rest_old.to_multiset(),
            ));
            if out_old.len() > 0 {
                assert(x.updated_at <= out_old.last().updated_at);
            }
            assert forall|k: int|
                0 <= k < rest@.len() && out@.len() > 0 implies (#[trigger] rest@[k]).updated_at
                <= out@.last().updated_at by {
                if k < best {
                    assert(rest@[k] == rest_old[k]);
                } else {
                    assert(rest@[k] == rest_old[k + 1]);
                }
            }
        }
    }
    out
}

/// A row of the workspace list, reduced to what the filters read.
pub struct Workspace {
    pub id: u128,
    pub branch: String,
    pub archived: bool,
    pub pinned: bool,
    pub name: Option<String>,
    pub created_at: u64,
    pub updated_at: u64,
}

/// The workspace passes every requested filter: archived flag, pinned
/// flag, case-insensitive branch equality, case-insensitive name search —
/// a nameless workspace never matches a search.
pub open spec fn spec_workspace_passes(
    w: Workspace,
    archived: Option<bool>,
    pinned: Option<bool>,
    branch: Option<Seq<char>>,
    name_search: Option<Seq<char>>,
) -> bool {
    &&& (archived is Some ==> w.archived == archived->0)
    &&& (pinned is Some ==> w.pinned == pinned->0)
    &&& (branch is Some ==> chars_eq_ic(w.branch@, branch->0))
    &&& (name_search is Some ==> w.name is Some && contains_ic(w.name->0@, name_search->0))
}

fn workspace_passes(
    w: &Workspace,
    archived: Option<bool>,
    pinned: Option<bool>,
    branch: Option<&str>,
    name_search: Option<&str>,
) -> (b: bool)
    ensures
        b == spec_workspace_passes(
            *w,
            archived,
            pinned,
            spec_opt_str_view(branch),
            spec_opt_str_view(name_search),
        ),
{
    let archived_ok = match archived {
        Some(a) => w.archived == a,
        None => true,
    };
    let pinned_ok = match pinned {
        Some(p) => w.pinned == p,
        None => true,
    };
    let branch_ok = match branch {
        Some(b) => str_eq_ignore_case(w.branch.as_str(), b),
        None => true,
    };
    let name_ok = match name_search {
        Some(s) => match &w.name {
            Some(n) => str_contains_ignore_case(n.as_str(), s),
            None => false,
        },
        None => true,
    };
    archived_ok && pinned_ok && branch_ok && name_ok
}

/// Filters the workspace list by the optional archived, pinned, branch,
/// and name-search criteria, keeping stored order.
pub fn filter_workspaces(
    workspaces: Vec<Workspace>,
    archived: Option<bool>,
    pinned: Option<bool>,
    branch: Option<&str>,
    name_search: Option<&str>,
) -> (r: Vec<Workspace>)
    ensures
        r@ == keep_matching(
            workspaces@,
            |w: Workspace|
                spec_workspace_passes(
                    w,
                    archived,
                    pinned,
                    spec_opt_str_view(branch),
                    spec_opt_str_view(name_search),
                ),
        ),
{
    let ghost pred = |w: Workspace|
        spec_workspace_passes(
            w,
            archived,
            pinned,
            spec_opt_str_view(branch),
            spec_opt_str_view(name_search),
        );
    let ghost full = workspaces@;
    let mut rest = workspaces;
    let total = rest.len();
    let mut out: Vec<Workspace> = Vec::new();
    let mut i: usize = 0;
    proof {
        assert(rest@ =~= full.skip(0));
        assert(full.take(0) =~= Seq::<Workspace>::empty());
    }
    while rest.len() > 0
        invariant
            full.len() == total,
            i + rest@.len() == full.len(),
            rest@ =~= full.skip(i as int),
            out@ == keep_matching(full.take(i as int), pred),
            pred == (|w: Workspace|
                spec_workspace_passes(
                    w,
                    archived,
                    pinned,
                    spec_opt_str_view(branch),
                    spec_opt_str_view(name_search),
                )),
        decreases rest@.len(),
    {
        let w = rest.remove(0);
        proof {
            assert(full.skip(i as int)[0] == full[i as int]);
            assert(full.skip(i as int).remove(0) =~= full.skip(i + 1));
            assert(full.take(i + 1).drop_last() =~= full.take(i as int));
            assert(full.take(i + 1).last() == full[i as int]);
        }
        if workspace_passes(&w, archived, pinned, branch, name_search) {
            out.push(w);
        }
        i += 1;
    }
    proof {
        assert(full.take(i as int) =~= full);
    }
    out
}

/// Workspaces in non-increasing order of creation.
pub open spec fn sorted_by_created_desc(s: Seq<Workspace>) -> bool {
    forall|i: int, j: int| 0 <= i < j < s.len() ==> s[i].created_at >= s[j].created_at
}

/// Sorts the workspace list by creation time, most recent first: the
/// result is a permutation of the input in non-increasing creation order.
pub fn sort_workspaces_by_created_desc(workspaces: Vec<Workspace>) -> (r: Vec<Workspace>)
    ensures
        sorted_by_created_desc(r@),
        r@.to_multiset() == workspaces@.to_multiset(),
{
    broadcast use vstd::seq_lib::group_to_multiset_ensures;

    let ghost full = workspaces@;
    let mut rest = workspaces;
    let mut out: Vec<Workspace> = Vec::new();
    proof {
        assert(out@.to_multiset().add(rest@.to_multiset()) =~= full.to_multiset());
    }
    while rest.len() > 0
        invariant
            out@.to_multiset().add(rest@.to_multiset()) == full.to_multiset(),
            sorted_by_created_desc(out@),
            forall|k: int|
                0 <= k < rest@.len() && out@.len() > 0 ==> (#[trigger] rest@[k]).created_at
                    <= out@.last().created_at,
        decreases rest@.len(),
    {
        let n = rest.len();
        let mut best: usize = 0;
        let mut m: usize = 1;
        while m < n
            invariant
                n == rest@.len(),
                best < m <= n,
                n >= 1,
                forall|k: int|
                    0 <= k < m ==> (#[trigger] rest@[k]).created_at
                        <= rest@[best as int].created_at,
            decreases n - m,
        {
            if rest[m].created_at > rest[best].created_at {
                best = m;
            }
            m += 1;
        }
        let ghost rest_old = rest@;
        let ghost out_old = out@;
        let x = rest.remove(best);
        out.push(x);
        proof {
            broadcast use vstd::seq_lib::group_to_multiset_ensures;

            assert(rest_old[best as int] == x);
            assert(rest_old.contains(x));
            assert(out@.to_multiset() =~= out_old.to_multiset().insert(x));
            assert(rest@.to_multiset() =~= rest_old.to_multiset().remove(x));
            assert(out@.to_multiset().add(rest@.to_multiset()) =~= out_old.to_multiset().add(
                rest_old.to_multiset(),
            ));
            if out_old.len() > 0 {
                assert(x.created_at <= out_old.last().created_at);
            }
            assert forall|k: int|
                0 <= k < rest@.len() && out@.len() > 0 implies (#[trigger] rest@[k]).created_at
                <= out@.last().created_at by {
                if k < best {
                    assert(rest@[k] == rest_old[k]);
                } else {
                    assert(rest@[k] == rest_old[k + 1]);
                }
            }
        }
    }
    out
}

/// The page of `s` starting at `offset`, at most `limit` long.
pub open spec fn spec_paginate<T>(s: Seq<T>, offset: nat, limit: nat) -> Seq<T> {
    if offset >= s.len() {
        Seq::empty()
    } else if offset + limit >= s.len() {
        s.subrange(offset as int, s.len() as int)
    } else {
        s.subrange(offset as int, (offset + limit) as int)
    }
}

/// Takes the page of the list starting at `offset`, at most `limit` long.
pub fn paginate<T>(items: Vec<T>, offset: usize, limit: usize) -> (r: Vec<T>)
    ensures
        r@ == spec_paginate(items@, offset as nat, limit as nat),
{
    let ghost full = items@;
    let mut rest = items;
    let total = rest.len();
    let skip_n = if offset < total {
        offset
    } else {
        total
    };
    let mut s: usize = 0;
    proof {
        assert(rest@ =~= full.skip(0));
    }
    while s < skip_n
        invariant
            full.len() == total,
            skip_n <= total,
            s <= skip_n,
            rest@ =~= full.skip(s as int),
        decreases skip_n - s,
    {
        proof {
            assert(full.skip(s as int).remove(0) =~= full.skip(s + 1));
        }
        rest.remove(0);
        s += 1;
    }
    let keep = if limit < rest.len() {
        limit
    } else {
        rest.len()
    };
    rest.truncate(keep);
    proof {
        assert(rest@ =~= spec_paginate(full, offset as nat, limit as nat));
    }
    rest
}

/// The canonical executor identifier of a raw name: hyphens become
/// underscores and ASCII lowercase becomes uppercase.
pub open spec fn upper_snake_char(c: char) -> char {
    if c == '-' {
        '_'
    } else if 97 <= c as u32 && c as u32 <= 122 {
        (((c as u32) - 32) as u8) as char
    } else {
        c
    }
}

/// Normalizes a raw executor name to its canonical identifier form.
pub fn normalize_executor_name(s: &str) -> (r: String)
    ensures
        r@ == s@.map_values(|c: char| upper_snake_char(c)),
{
    let n = s.unicode_len();
    let mut out: Vec<char> = Vec::new();
    let mut i: usize = 0;
    proof {
        assert(out@ =~= s@.take(0).map_values(|c: char| upper_snake_char(c)));
    }
    while i < n
        invariant
            n == s@.len(),
            i <= n,
            out@ == s@.take(i as int).map_values(|c: char| upper_snake_char(c)),
        decreases n - i,
    {
        let c = s.get_char(i);
        let u = c as u32;
        let mapped: char = if c == '-' {
            '_'
        } else if 97 <= u && u <= 122 {
            ((u - 32) as u8) as char
        } else {
            c
        };
        out.push(mapped);
        proof {
            assert(s@.take(i + 1).drop_last() =~= s@.take(i as int));
            assert(s@.take(i + 1).last() == s@[i as int]);
            assert(mapped == upper_snake_char(s@[i as int]));
            assert(out@ =~= s@.take(i + 1).map_values(|c: char| upper_snake_char(c)));
        }
        i += 1;
    }
    proof {
        assert(s@.take(n as int) =~= s@);
    }
    crate::text::chars_to_string(out)
}

/// A reusable text tag: a name and the content it stands for.
pub struct Tag {
    pub tag_name: String,
    pub content: String,
}

/// A character that may appear in a tag reference: anything but
/// whitespace and `@`.
pub open spec fn is_tag_char(c: char) -> bool {
    !crate::text::is_space(c) && c != '@'
}

/// The length of the maximal run of tag characters of `s` starting at `i`.
pub open spec fn tag_run_len(s: Seq<char>, i: int) -> int
    decreases s.len() - i,
{
    if 0 <= i < s.len() && is_tag_char(s[i]) {
        1 + tag_run_len(s, i + 1)
    } else {
        0
    }
}

/// The content of the first tag carrying the name, if any.
pub open spec fn spec_tag_content(tags: Seq<Tag>, name: Seq<char>) -> Option<Seq<char>>
    decreases tags.len(),
{
    if tags.len() == 0 {
        None
    } else if tags[0].tag_name@ == name {
        Some(tags[0].content@)
    } else {
        spec_tag_content(tags.drop_first(), name)
    }
}

proof fn lemma_tag_run_len_bounds(s: Seq<char>, i: int)
    requires
        0 <= i <= s.len(),
    ensures
        0 <= tag_run_len(s, i),
        i + tag_run_len(s, i) <= s.len(),
    decreases s.len() - i,
{
    if i < s.len() && is_tag_char(s[i]) {
        lemma_tag_run_len_bounds(s, i + 1);
    }
}

/// The text with every tag reference `@name` replaced: a reference is an
/// `@` followed by a maximal non-empty run of tag characters; one whose
/// name is known becomes that tag's content, an unknown one stays as
/// written, and everything else passes through unchanged.
pub open spec fn spec_expand_tags(s: Seq<char>, tags: Seq<Tag>) -> Seq<char>
    decreases s.len(),
    via spec_expand_tags_decreases
{
    if s.len() == 0 {
        Seq::empty()
    } else if s[0] == '@' && s.len() > 1 && is_tag_char(s[1]) {
        let l = tag_run_len(s, 1);
        let name = s.subrange(1, 1 + l);
        let rest = if 1 + l <= s.len() {
            spec_expand_tags(s.subrange(1 + l, s.len() as int), tags)
        } else {
            Seq::empty()
        };
        match spec_tag_content(tags, name) {
            Some(content) => content + rest,
            None => s.subrange(0, 1 + l) + rest,
        }
    } else {
        seq![s[0]] + spec_expand_tags(s.drop_first(), tags)
    }
}

#[via_fn]
proof fn spec_expand_tags_decreases(s: Seq<char>, tags: Seq<Tag>) {
    if s.len() > 0 && s[0] == '@' && s.len() > 1 && is_tag_char(s[1]) {
        lemma_tag_run_len_bounds(s, 1);
    }
}

fn is_tag_char_exec(c: char) -> (b: bool)
    ensures
        b == is_tag_char(c),
{
    !(c == ' ' || c == '\t' || c == '\n' || c == '\r') && c != '@'
}

fn tag_content_of(tags: &Vec<Tag>, name: &str) -> (r: Option<String>)
    ensures
        ({
            match r {
                Some(c) => spec_tag_content(tags@, name@) == Some(c@),
                None => spec_tag_content(tags@, name@) is None,
            }
        }),
{
    let n = tags.len();
    let mut i: usize = 0;
    proof {
        assert(tags@.skip(0) =~= tags@);
    }
    while i < n
        invariant
            n == tags@.len(),
            i <= n,
            spec_tag_content(tags@, name@) == spec_tag_content(tags@.skip(i as int), name@),
        decreases n - i,
    {
        proof {
            assert(tags@.skip(i as int)[0] == tags@[i as int]);
            assert(tags@.skip(i as int).drop_first() =~= tags@.skip(i + 1));
        }
        if crate::text::str_eq(tags[i].tag_name.as_str(), name) {
            return Some(tags[i].content.clone());
        }
        i += 1;
    }
    proof {
        assert(tags@.skip(n as int).len() == 0);
    }
    None
}

/// Expands every `@name` tag reference of the text against the tag list.
pub fn expand_tags(text: &str, tags: &Vec<Tag>) -> (r: String)
    ensures
        r@ == spec_expand_tags(text@, tags@),
{
    let n = text.unicode_len();
    let mut out = String::new();
    let mut i: usize = 0;
    proof {
        assert(text@.skip(0) =~= text@);
    }
    while i < n
        invariant
            n == text@.len(),
            i <= n,
            spec_expand_tags(text@, tags@) == out@ + spec_expand_tags(
                text@.skip(i as int),
                tags@,
            ),
        decreases n - i,
    {
        let ghost tail = text@.skip(i as int);
        proof {
            assert(tail[0] == text@[i as int]);
            if tail.len() > 1 {
                assert(tail[1] == text@[i + 1]);
            }
        }
        let c = text.get_char(i);
        if c == '@' && i + 1 < n && is_tag_char_exec(text.get_char(i + 1)) {
            // scan the maximal run of tag characters after the '@'
            let mut j: usize = i + 1;
            proof {
                lemma_tag_run_len_bounds(tail, 1);
            }
            while j < n && is_tag_char_exec(text.get_char(j))
                invariant
                    n == text@.len(),
                    i + 1 <= j <= n,
                    tail == text@.skip(i as int),
                    tag_run_len(tail, 1) == j - i - 1 + tag_run_len(tail, j - i),
                    forall|k: int| i + 1 <= k < j ==> is_tag_char(text@[k]),
                decreases n - j,
            {
                proof {
                    if j - i < tail.len() {
                        assert(tail[j - i] == text@[j as int]);
                    }
                }
                j += 1;
            }
            proof {
                if j - i < tail.len() {
                    assert(tail[j - i] == text@[j as int]);
                    assert(!is_tag_char(tail[j - i]));
                }
                assert(tag_run_len(tail, j - i) == 0);
                assert(tag_run_len(tail, 1) == j - i - 1);
            }
            let name = text.substring_char(i + 1, j);
            proof {
                let l = tag_run_len(tail, 1);
                assert(tail.subrange(1, 1 + l) =~= text@.subrange(i + 1, j as int));
            }
            match tag_content_of(tags, name) {
                Some(content) => {
                    out.append(content.as_str());
                },
                None => {
                    let literal = text.substring_char(i, j);
                    proof {
                        let l = tag_run_len(tail, 1);
                        assert(tail.subrange(0, 1 + l) =~= text@.subrange(i as int, j as int));
                    }
                    out.append(literal);
                },
            }
            proof {
                let l = tag_run_len(tail, 1);
                assert(tail.subrange(1 + l, tail.len() as int) =~= text@.skip(j as int));
                assert(spec_expand_tags(text@, tags@) == out@ + spec_expand_tags(
                    text@.skip(j as int),
                    tags@,
                ));
            }
            i = j;
        } else {
            let piece = text.substring_char(i, i + 1);
            proof {
                assert(piece@ =~= seq![text@[i as int]]);
                assert(tail.drop_first() =~= text@.skip(i + 1));
            }
            out.append(piece);
            i += 1;
        }
    }
    proof {
        assert(text@.skip(n as int).len() == 0);
        assert(out@ =~= out@ + spec_expand_tags(text@.skip(n as int), tags@));
    }
    out
}

} // verus!
