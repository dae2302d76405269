//! Reviews: input validation, listing-query planning, ownership and
//! deletion decisions, and the row/model conversions.
use vstd::prelude::*;

use crate::error::ApiError;
use vstd::string::StringSliceAdditionalSpecFns;

verus! {

/// A review as clients see it; `created_at` is Unix seconds.
#[derive(Debug)]
pub struct Review {
    pub id: i64,
    pub nomer_id: i64,
    pub store_id: i64,
    pub score: i64,
    pub comment: String,
    pub created_at: i64,
}

/// A review row as the store returns it.
#[derive(Debug)]
pub struct DbReview {
    pub review_id: i64,
    pub score: i64,
    pub comment: String,
    pub nomer_id: i64,
    pub store_id: i64,
    pub created_at: i64,
}

impl DbReview {
    /// The client-facing shape of this row.
    pub fn into_review(self) -> (r: Review)
        ensures
            r.id == self.review_id,
            r.nomer_id == self.nomer_id,
            r.store_id == self.store_id,
            r.score == self.score,
            r.comment == self.comment,
            r.created_at == self.created_at,
    {
        Review {
            id: self.review_id,
            nomer_id: self.nomer_id,
            store_id: self.store_id,
            score: self.score,
            comment: self.comment,
            created_at: self.created_at,
        }
    }
}

impl Review {
    /// The stored shape of this review.
    pub fn into_db_review(self) -> (r: DbReview)
        ensures
            r.review_id == self.id,
            r.nomer_id == self.nomer_id,
            r.store_id == self.store_id,
            r.score == self.score,
            r.comment == self.comment,
            r.created_at == self.created_at,
    {
        DbReview {
            review_id: self.id,
            nomer_id: self.nomer_id,
            store_id: self.store_id,
            score: self.score,
            comment: self.comment,
            created_at: self.created_at,
        }
    }
}

/// The filters a listing request may carry.
#[derive(Debug)]
pub struct ReviewFilters {
    pub nomer_id: Option<i64>,
    pub store_id: Option<i64>,
    pub limit: Option<i64>,
    pub offset: Option<i64>,
}

/// The page size actually used: the requested value (default 50), clamped
/// to 1..=100.
pub open spec fn spec_validate_limit(limit: Option<i64>) -> i64 {
    let base = match limit {
        Option::Some(l) => l,
        Option::None => 50,
    };
    if base > 100 {
        100
    } else if base < 1 {
        1
    } else {
        base
    }
}

/// Clamps a requested page size to the supported range, defaulting when the
/// request gives none.
pub fn validate_limit(limit: Option<i64>) -> (r: i64)
    ensures
        r == spec_validate_limit(limit),
{
    let base: i64 = match limit {
        Option::Some(l) => l,
        Option::None => 50,
    };
    if base > 100 {
        100
    } else if base < 1 {
        1
    } else {
        base
    }
}

/// Which stored query a listing request runs.
#[derive(Debug)]
pub enum ReviewQueryKind {
    /// Filtered by both author and store.
    ByNomerAndStore(i64, i64),
    /// Filtered by author alone.
    ByNomer(i64),
    /// Filtered by store alone.
    ByStore(i64),
    /// Unfiltered.
    All,
}

/// A listing request resolved to a query and its page bounds.
#[derive(Debug)]
pub struct ReviewQueryPlan {
    pub kind: ReviewQueryKind,
    pub limit: i64,
    pub offset: i64,
}

/// Resolves the filters of a listing request: which query to run, with the
/// clamped page size and the offset (default 0).
pub fn plan_review_query(filters: &ReviewFilters) -> (p: ReviewQueryPlan)
    ensures
        p.limit == spec_validate_limit(filters.limit),
        p.offset == match filters.offset {
            Some(o) => o,
            None => 0,
        },
        p.kind == match (filters.nomer_id, filters.store_id) {
            (Some(n), Some(s)) => ReviewQueryKind::ByNomerAndStore(n, s),
            (Some(n), None) => ReviewQueryKind::ByNomer(n),
            (None, Some(s)) => ReviewQueryKind::ByStore(s),
            (None, None) => ReviewQueryKind::All,
        },
{
    let limit = validate_limit(filters.limit);
    let offset = match filters.offset {
        Some(o) => o,
        None => 0,
    };
    let kind = match (filters.nomer_id, filters.store_id) {
        (Some(n), Some(s)) => ReviewQueryKind::ByNomerAndStore(n, s),
        (Some(n), None) => ReviewQueryKind::ByNomer(n),
        (None, Some(s)) => ReviewQueryKind::ByStore(s),
        (None, None) => ReviewQueryKind::All,
    };
    ReviewQueryPlan { kind, limit, offset }
}

/// Accepts a review submission or rejects it with the first failing check:
/// positive store and author ids, a score of 1 to 5, and a comment of 1 to
/// 255 bytes.
pub fn validate_review_input(store_id: i64, nomer_id: i64, score: i64, comment: &str) -> (r:
    Result<(), ApiError>)
    ensures
        r is Ok <==> (store_id > 0 && nomer_id > 0 && 1 <= score <= 5 && comment@.len() > 0
            && comment.len() <= 255),
        r matches Err(e) ==> e.spec_status() == 400,
        store_id <= 0 ==> (r matches Err(e) && e.spec_message() == "Invalid store ID"@),
        store_id > 0 && nomer_id <= 0 ==> (r matches Err(e) && e.spec_message()
            == "Invalid user ID"@),
        store_id > 0 && nomer_id > 0 && !(1 <= score <= 5) ==> (r matches Err(e)
            && e.spec_message() == "Score must be between 1 and 5"@),
        store_id > 0 && nomer_id > 0 && 1 <= score <= 5 && comment@.len() == 0 ==> (r matches Err(
            e,
        ) && e.spec_message() == "Comment cannot be empty"@),
        store_id > 0 && nomer_id > 0 && 1 <= score <= 5 && comment@.len() > 0 && comment.len()
            > 255 ==> (r matches Err(e) && e.spec_message() == "Comment too long"@),
{
    if store_id <= 0 {
        return Err(ApiError::Validation("Invalid store ID"));
    }
    if nomer_id <= 0 {
        return Err(ApiError::Validation("Invalid user ID"));
    }
    if !(1 <= score && score <= 5) {
        return Err(ApiError::Validation("Score must be between 1 and 5"));
    }
    if comment.is_empty() {
        return Err(ApiError::Validation("Comment cannot be empty"));
    }
    if comment.len() > 255 {
        return Err(ApiError::Validation("Comment too long"));
    }
    Ok(())
}

/// What the insert of a new review answered.
pub enum ReviewInsertOutcome {
    /// The insert went through; the value is the store's last-insert id.
    Inserted(i64),
    /// The store refused the row's references.
    ForeignKeyViolation,
    /// The insert failed for another reason.
    InsertError,
}

/// Decides what a review insert came to: a usable new id, the client's
/// fault (a dangling store or author id), or an internal failure — a zero id
/// counts as one, since no row can be read back under it.
pub fn check_insert_review(outcome: &ReviewInsertOutcome) -> (r: Result<i64, ApiError>)
    ensures
        match outcome {
            ReviewInsertOutcome::Inserted(id) => {
                &&& (*id != 0 ==> (r matches Ok(rid) && rid == id))
                &&& (*id == 0 ==> (r matches Err(e) && e.spec_status() == 500 && e.spec_message()
                    == "Failed to get review ID"@))
            },
            ReviewInsertOutcome::ForeignKeyViolation => r matches Err(e) && e.spec_status() == 400
                && e.spec_message() == "Invalid store or user ID"@,
            ReviewInsertOutcome::InsertError => r matches Err(e) && e.spec_status() == 500
                && e.spec_message() == "Failed to create review"@,
        },
{
    match outcome {
        ReviewInsertOutcome::Inserted(id) => {
            if *id == 0 {
                Err(ApiError::Internal("Failed to get review ID"))
            } else {
                Ok(*id)
            }
        },
        ReviewInsertOutcome::ForeignKeyViolation => Err(
            ApiError::Validation("Invalid store or user ID"),
        ),
        ReviewInsertOutcome::InsertError => Err(ApiError::Internal("Failed to create review")),
    }
}

/// What a single-review query answered.
pub enum ReviewRowOutcome {
    Row(DbReview),
    NoRow,
    QueryError,
}

/// Maps a single-review fetch to the client's shape: a missing row is "not
/// found", anything else stays internal.
pub fn read_one_review(outcome: ReviewRowOutcome) -> (r: Result<Review, ApiError>)
    ensures
        match outcome {
            ReviewRowOutcome::Row(d) => r matches Ok(v) && v.id == d.review_id && v.nomer_id
                == d.nomer_id && v.store_id == d.store_id && v.score == d.score && v.comment
                == d.comment && v.created_at == d.created_at,
            ReviewRowOutcome::NoRow => r matches Err(e) && e.spec_status() == 404
                && e.spec_message() == "Review not found"@,
            ReviewRowOutcome::QueryError => r matches Err(e) && e.spec_status() == 500
                && e.spec_message() == "Failed to fetch review"@,
        },
{
    match outcome {
        ReviewRowOutcome::Row(d) => Ok(d.into_review()),
        ReviewRowOutcome::NoRow => Err(ApiError::NotFound("Review not found")),
        ReviewRowOutcome::QueryError => Err(ApiError::Internal("Failed to fetch review")),
    }
}

/// What the ownership query for a deletion answered.
pub enum OwnerLookup {
    /// The review exists and this is its owner's id.
    Owner(i64),
    /// No review under the id.
    NoRow,
    /// The query failed.
    QueryError,
}

/// Decides deletion rights: only the review's owner may delete it; a missing
/// review is "not found"; a store failure stays internal.
pub fn check_review_ownership(lookup: &OwnerLookup, nomer_id: i64) -> (r: Result<(), ApiError>)
    ensures
        match lookup {
            OwnerLookup::Owner(o) => {
                &&& (r is Ok <==> *o == nomer_id)
                &&& (r matches Err(e) ==> e.spec_status() == 403 && e.spec_message()
                    == "You can only delete your own reviews"@)
            },
            OwnerLookup::NoRow => r matches Err(e) && e.spec_status() == 404 && e.spec_message()
                == "Review not found"@,
            OwnerLookup::QueryError => r matches Err(e) && e.spec_status() == 500
                && e.spec_message() == "Failed to verify review ownership"@,
        },
{
    match lookup {
        OwnerLookup::Owner(o) => {
            if *o == nomer_id {
                Ok(())
            } else {
                Err(ApiError::Forbidden("You can only delete your own reviews"))
            }
        },
        OwnerLookup::NoRow => Err(ApiError::NotFound("Review not found")),
        OwnerLookup::QueryError => Err(ApiError::Internal("Failed to verify review ownership")),
    }
}

/// What the delete statement answered.
pub enum DeleteOutcome {
    /// The statement ran; the value is how many rows it removed.
    Deleted(u64),
    /// The statement failed.
    DeleteError,
}

/// Decides what a delete came to. A delete that removed no row reports "not
/// found": of two racing deletions of one review, the store lets exactly one
/// remove the row, and the other lands here.
pub fn check_delete_result(outcome: &DeleteOutcome) -> (r: Result<(), ApiError>)
    ensures
        match outcome {
            DeleteOutcome::Deleted(rows) => {
                &&& (r is Ok <==> *rows > 0)
                &&& (r matches Err(e) ==> e.spec_status() == 404 && e.spec_message()
                    == "Review not found"@)
            },
            DeleteOutcome::DeleteError => r matches Err(e) && e.spec_status() == 500
                && e.spec_message() == "Failed to delete review"@,
        },
{
    match outcome {
        DeleteOutcome::Deleted(rows) => {
            if *rows == 0 {
                Err(ApiError::NotFound("Review not found"))
            } else {
                Ok(())
            }
        },
        DeleteOutcome::DeleteError => Err(ApiError::Internal("Failed to delete review")),
    }
}

/// What a listing query answered.
pub enum ReviewRowsOutcome {
    Rows(Vec<DbReview>),
    QueryError,
}

/// Requires the listing query to have produced rows; any failure stays
/// internal.
pub fn require_review_rows(outcome: ReviewRowsOutcome) -> (r: Result<Vec<DbReview>, ApiError>)
    ensures
        match outcome {
            ReviewRowsOutcome::Rows(rows) => r matches Ok(v) && v == rows,
            ReviewRowsOutcome::QueryError => r matches Err(e) && e.spec_status() == 500
                && e.spec_message() == "Failed to fetch reviews"@,
        },
{
    match outcome {
        ReviewRowsOutcome::Rows(rows) => Ok(rows),
        ReviewRowsOutcome::QueryError => Err(ApiError::Internal("Failed to fetch reviews")),
    }
}

/// The client-facing page: each row in order, reshaped.
pub fn reviews_of_rows(rows: &Vec<DbReview>) -> (r: Vec<Review>)
    ensures
        r@.len() == rows@.len(),
        forall|i: int|
            0 <= i < r@.len() ==> {
                &&& (#[trigger] r@[i]).id == rows@[i].review_id
                &&& r@[i].nomer_id == rows@[i].nomer_id
                &&& r@[i].store_id == rows@[i].store_id
                &&& r@[i].score == rows@[i].score
                &&& r@[i].comment == rows@[i].comment
                &&& r@[i].created_at == rows@[i].created_at
            },
{
    let mut out: Vec<Review> = Vec::new();
    let mut i: usize = 0;
    while i < rows.len()
        invariant
            i <= rows@.len(),
            out@.len() == i,
            forall|t: int|
                0 <= t < i ==> {
                    &&& (#[trigger] out@[t]).id == rows@[t].review_id
                    &&& out@[t].nomer_id == rows@[t].nomer_id
                    &&& out@[t].store_id == rows@[t].store_id
                    &&& out@[t].score == rows@[t].score
                    &&& out@[t].comment == rows@[t].comment
                    &&& out@[t].created_at == rows@[t].created_at
                },
        decreases rows@.len() - i,
    {
        let d = &rows[i];
        out.push(
            Review {
                id: d.review_id,
                nomer_id: d.nomer_id,
                store_id: d.store_id,
                score: d.score,
                comment: d.comment.clone(),
                created_at: d.created_at,
            },
        );
        i = i + 1;
    }
    out
}

/// What reading back a freshly created review answered.
pub enum CreatedReviewOutcome {
    Row(DbReview),
    FetchError,
}

/// The read-back step of review creation: any failure stays internal.
pub fn fetch_created_review(outcome: CreatedReviewOutcome) -> (r: Result<DbReview, ApiError>)
    ensures
        match outcome {
            CreatedReviewOutcome::Row(d) => r matches Ok(v) && v == d,
            CreatedReviewOutcome::FetchError => r matches Err(e) && e.spec_status() == 500
                && e.spec_message() == "Failed to fetch created review"@,
        },
{
    match outcome {
        CreatedReviewOutcome::Row(d) => Ok(d),
        CreatedReviewOutcome::FetchError => Err(
            ApiError::Internal("Failed to fetch created review"),
        ),
    }
}

} // verus!
