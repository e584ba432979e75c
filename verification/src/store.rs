//! The row-store model the fallback path queries.
//!
//! The data-store collaborator is a capability `list_by(scope keys) ->
//! rows`. It is modelled as a table of records carrying the identifier
//! fields the shape predicates key on, and a query that is a conjunction
//! of field equalities — exactly the predicate form every shape uses,
//! instantiated with server-derived values only.

use vstd::prelude::*;

verus! {

/// A physical field a shape predicate can key on.
#[derive(Clone, Copy, PartialEq, Eq, Structural, Debug)]
pub enum Field {
    Id,
    OrganizationId,
    UserId,
    ProjectId,
    IssueId,
    CommentId,
    OwnerUserId,
}

/// One stored row, reduced to the identifier fields that predicates read.
#[derive(Clone, Copy, PartialEq, Eq, Structural, Debug)]
pub struct Record {
    pub id: u128,
    pub organization_id: u128,
    pub user_id: u128,
    pub project_id: u128,
    pub issue_id: u128,
    pub comment_id: u128,
    pub owner_user_id: u128,
}

/// The value of a field of a record.
pub open spec fn spec_field_of(r: Record, f: Field) -> u128 {
    match f {
        Field::Id => r.id,
        Field::OrganizationId => r.organization_id,
        Field::UserId => r.user_id,
        Field::ProjectId => r.project_id,
        Field::IssueId => r.issue_id,
        Field::CommentId => r.comment_id,
        Field::OwnerUserId => r.owner_user_id,
    }
}

/// The value of a field of a record.
pub fn field_of(r: &Record, f: Field) -> (v: u128)
    ensures
        v == spec_field_of(*r, f),
{
    match f {
        Field::Id => r.id,
        Field::OrganizationId => r.organization_id,
        Field::UserId => r.user_id,
        Field::ProjectId => r.project_id,
        Field::IssueId => r.issue_id,
        Field::CommentId => r.comment_id,
        Field::OwnerUserId => r.owner_user_id,
    }
}

/// A conjunction of field equalities: the only predicate form a shape
/// query takes, with values bound server-side.
pub open spec fn row_matches(r: Record, q: Seq<(Field, u128)>) -> bool {
    forall|i: int| 0 <= i < q.len() ==> spec_field_of(r, (#[trigger] q[i]).0) == q[i].1
}

/// The rows of `rows` matching `q`, in stored order.
pub open spec fn spec_select(rows: Seq<Record>, q: Seq<(Field, u128)>) -> Seq<Record>
    decreases rows.len(),
{
    if rows.len() == 0 {
        Seq::empty()
    } else if row_matches(rows.last(), q) {
        spec_select(rows.drop_last(), q).push(rows.last())
    } else {
        spec_select(rows.drop_last(), q)
    }
}

/// Every selected row matches the query.
pub proof fn lemma_select_sound(rows: Seq<Record>, q: Seq<(Field, u128)>)
    ensures
        forall|i: int|
            0 <= i < spec_select(rows, q).len() ==> row_matches(
                #[trigger] spec_select(rows, q)[i],
                q,
            ),
    decreases rows.len(),
{
    if rows.len() > 0 {
        lemma_select_sound(rows.drop_last(), q);
        let sub = spec_select(rows.drop_last(), q);
        if row_matches(rows.last(), q) {
            assert forall|i: int| 0 <= i < spec_select(rows, q).len() implies row_matches(
                #[trigger] spec_select(rows, q)[i],
                q,
            ) by {
                if i < sub.len() {
                    assert(spec_select(rows, q)[i] == sub[i]);
                } else {
                    assert(spec_select(rows, q)[i] == rows.last());
                }
            }
        }
    }
}

/// Every stored row that matches the query is selected.
pub proof fn lemma_select_complete(rows: Seq<Record>, q: Seq<(Field, u128)>, i: int)
    requires
        0 <= i < rows.len(),
        row_matches(rows[i], q),
    ensures
        spec_select(rows, q).contains(rows[i]),
    decreases rows.len(),
{
    if i == rows.len() - 1 {
        assert(rows.last() == rows[i]);
        assert(spec_select(rows, q).last() == rows[i]);
    } else {
        lemma_select_complete(rows.drop_last(), q, i);
        let sub = spec_select(rows.drop_last(), q);
        let j = choose|j: int| 0 <= j < sub.len() && sub[j] == rows.drop_last()[i];
        assert(rows.drop_last()[i] == rows[i]);
        if row_matches(rows.last(), q) {
            assert(spec_select(rows, q)[j] == rows[i]);
        } else {
            assert(spec_select(rows, q)[j] == rows[i]);
        }
    }
}

/// Whether the record satisfies every equality of the query.
pub fn record_matches(r: &Record, q: &Vec<(Field, u128)>) -> (b: bool)
    ensures
        b == row_matches(*r, q@),
{
    let n = q.len();
    let mut i: usize = 0;
    while i < n
        invariant
            n == q@.len(),
            i <= n,
            forall|j: int| 0 <= j < i ==> spec_field_of(*r, (#[trigger] q@[j]).0) == q@[j].1,
        decreases n - i,
    {
        let (f, v) = q[i];
        if field_of(r, f) != v {
            return false;
        }
        i += 1;
    }
    true
}

/// Runs a fixed-predicate query against a table: returns exactly the
/// matching rows, in stored order.
pub fn run_query(table: &Vec<Record>, q: &Vec<(Field, u128)>) -> (r: Vec<Record>)
    ensures
        r@ == spec_select(table@, q@),
{
    let n = table.len();
    let mut out: Vec<Record> = Vec::new();
    let mut i: usize = 0;
    while i < n
        invariant
            n == table@.len(),
            i <= n,
            out@ == spec_select(table@.take(i as int), q@),
        decreases n - i,
    {
        let rec = table[i];
        proof {
            assert(table@.take(i + 1).drop_last() =~= table@.take(i as int));
            assert(table@.take(i + 1).last() == table@[i as int]);
        }
        if record_matches(&rec, q) {
            out.push(rec);
        }
        i += 1;
    }
    proof {
        assert(table@.take(n as int) =~= table@);
    }
    out
}

} // verus!
