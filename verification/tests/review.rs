//! Review validation, listing plans, and the create/read/delete decisions.
use canteen_core::review::check_delete_result;
use canteen_core::review::check_insert_review;
use canteen_core::review::check_review_ownership;
use canteen_core::review::fetch_created_review;
use canteen_core::review::plan_review_query;
use canteen_core::review::read_one_review;
use canteen_core::review::require_review_rows;
use canteen_core::review::reviews_of_rows;
use canteen_core::review::validate_limit;
use canteen_core::review::validate_review_input;
use canteen_core::review::CreatedReviewOutcome;
use canteen_core::review::DbReview;
use canteen_core::review::DeleteOutcome;
use canteen_core::review::OwnerLookup;
use canteen_core::review::ReviewFilters;
use canteen_core::review::ReviewInsertOutcome;
use canteen_core::review::ReviewQueryKind;
use canteen_core::review::ReviewRowOutcome;
use canteen_core::review::ReviewRowsOutcome;

fn row(id: i64, nomer: i64, store: i64, score: i64, comment: &str) -> DbReview {
    DbReview {
        review_id: id,
        score,
        comment: comment.to_string(),
        nomer_id: nomer,
        store_id: store,
        created_at: 1_700_000_000,
    }
}

#[test]
fn test_validate_limit() {
    assert_eq!(validate_limit(None), 50);

    assert_eq!(validate_limit(Some(25)), 25);
    assert_eq!(validate_limit(Some(100)), 100);

    assert_eq!(validate_limit(Some(150)), 100);

    assert_eq!(validate_limit(Some(0)), 1);
    assert_eq!(validate_limit(Some(-5)), 1);
}

#[test]
fn test_validate_review_input_valid() {
    let result = validate_review_input(1, 1, 3, "Good food");
    assert!(result.is_ok());
}

#[test]
fn test_validate_review_input_invalid_store_id() {
    let result = validate_review_input(0, 1, 3, "Good food");
    assert!(result.is_err());
    let err = result.unwrap_err();
    assert_eq!(err.status_code(), 400);
    assert_eq!(err.message(), "Invalid store ID");

    let result = validate_review_input(-1, 1, 3, "Good food");
    assert!(result.is_err());
    let err = result.unwrap_err();
    assert_eq!(err.status_code(), 400);
    assert_eq!(err.message(), "Invalid store ID");
}

#[test]
fn test_validate_review_input_invalid_nomer_id() {
    let result = validate_review_input(1, 0, 3, "Good food");
    assert!(result.is_err());
    let err = result.unwrap_err();
    assert_eq!(err.status_code(), 400);
    assert_eq!(err.message(), "Invalid user ID");

    let result = validate_review_input(1, -1, 3, "Good food");
    assert!(result.is_err());
    let err = result.unwrap_err();
    assert_eq!(err.status_code(), 400);
    assert_eq!(err.message(), "Invalid user ID");
}

#[test]
fn test_validate_review_input_invalid_score() {
    let result = validate_review_input(1, 1, 0, "Good food");
    assert!(result.is_err());
    let err = result.unwrap_err();
    assert_eq!(err.status_code(), 400);
    assert_eq!(err.message(), "Score must be between 1 and 5");

    let result = validate_review_input(1, 1, 6, "Good food");
    assert!(result.is_err());
    let err = result.unwrap_err();
    assert_eq!(err.status_code(), 400);
    assert_eq!(err.message(), "Score must be between 1 and 5");

    let result = validate_review_input(1, 1, -1, "Good food");
    assert!(result.is_err());
    let err = result.unwrap_err();
    assert_eq!(err.status_code(), 400);
    assert_eq!(err.message(), "Score must be between 1 and 5");
}

#[test]
fn test_validate_review_input_empty_comment() {
    let result = validate_review_input(1, 1, 3, "");
    assert!(result.is_err());
    let err = result.unwrap_err();
    assert_eq!(err.status_code(), 400);
    assert_eq!(err.message(), "Comment cannot be empty");
}

#[test]
fn test_validate_review_input_comment_too_long() {
    let long_comment = "a".repeat(256);
    let result = validate_review_input(1, 1, 3, &long_comment);
    assert!(result.is_err());
    let err = result.unwrap_err();
    assert_eq!(err.status_code(), 400);
    assert_eq!(err.message(), "Comment too long");
}

#[test]
fn test_validate_review_input_boundary_values() {
    assert!(validate_review_input(1, 1, 1, "x").is_ok());
    assert!(validate_review_input(1, 1, 5, "x").is_ok());

    let max_length_comment = "a".repeat(255);
    assert!(validate_review_input(1, 1, 3, &max_length_comment).is_ok());
}

#[test]
fn listing_plan_picks_the_query() {
    let plan = plan_review_query(&ReviewFilters {
        nomer_id: Some(3),
        store_id: Some(4),
        limit: Some(150),
        offset: None,
    });
    assert!(matches!(plan.kind, ReviewQueryKind::ByNomerAndStore(3, 4)));
    assert_eq!(plan.limit, 100);
    assert_eq!(plan.offset, 0);

    let plan = plan_review_query(&ReviewFilters {
        nomer_id: Some(3),
        store_id: None,
        limit: None,
        offset: Some(20),
    });
    assert!(matches!(plan.kind, ReviewQueryKind::ByNomer(3)));
    assert_eq!(plan.limit, 50);
    assert_eq!(plan.offset, 20);

    let plan = plan_review_query(&ReviewFilters {
        nomer_id: None,
        store_id: Some(9),
        limit: Some(1),
        offset: Some(5),
    });
    assert!(matches!(plan.kind, ReviewQueryKind::ByStore(9)));
    assert_eq!(plan.limit, 1);

    let plan = plan_review_query(&ReviewFilters {
        nomer_id: None,
        store_id: None,
        limit: None,
        offset: None,
    });
    assert!(matches!(plan.kind, ReviewQueryKind::All));
}

#[test]
fn insert_decision_covers_each_outcome() {
    assert_eq!(check_insert_review(&ReviewInsertOutcome::Inserted(42)).unwrap(), 42);

    let err = check_insert_review(&ReviewInsertOutcome::Inserted(0)).unwrap_err();
    assert_eq!(err.status_code(), 500);
    assert_eq!(err.message(), "Failed to get review ID");

    let err = check_insert_review(&ReviewInsertOutcome::ForeignKeyViolation).unwrap_err();
    assert_eq!(err.status_code(), 400);
    assert_eq!(err.message(), "Invalid store or user ID");

    let err = check_insert_review(&ReviewInsertOutcome::InsertError).unwrap_err();
    assert_eq!(err.status_code(), 500);
    assert_eq!(err.message(), "Failed to create review");
}

#[test]
fn ownership_decision_covers_each_outcome() {
    assert!(check_review_ownership(&OwnerLookup::Owner(5), 5).is_ok());

    let err = check_review_ownership(&OwnerLookup::Owner(5), 6).unwrap_err();
    assert_eq!(err.status_code(), 403);
    assert_eq!(err.message(), "You can only delete your own reviews");

    let err = check_review_ownership(&OwnerLookup::NoRow, 5).unwrap_err();
    assert_eq!(err.status_code(), 404);
    assert_eq!(err.message(), "Review not found");

    let err = check_review_ownership(&OwnerLookup::QueryError, 5).unwrap_err();
    assert_eq!(err.status_code(), 500);
    assert_eq!(err.message(), "Failed to verify review ownership");
}

#[test]
fn racing_deletes_resolve_to_one_success() {
    // The store removes the row exactly once; the loser's statement
    // reports zero rows and surfaces as "not found".
    assert!(check_delete_result(&DeleteOutcome::Deleted(1)).is_ok());
    let err = check_delete_result(&DeleteOutcome::Deleted(0)).unwrap_err();
    assert_eq!(err.status_code(), 404);
    assert_eq!(err.message(), "Review not found");

    let err = check_delete_result(&DeleteOutcome::DeleteError).unwrap_err();
    assert_eq!(err.status_code(), 500);
    assert_eq!(err.message(), "Failed to delete review");
}

#[test]
fn single_review_reads_map_their_outcomes() {
    let got = read_one_review(ReviewRowOutcome::Row(row(9, 2, 3, 4, "Tasty"))).unwrap();
    assert_eq!(got.id, 9);
    assert_eq!(got.nomer_id, 2);
    assert_eq!(got.store_id, 3);
    assert_eq!(got.score, 4);
    assert_eq!(got.comment, "Tasty");

    let err = read_one_review(ReviewRowOutcome::NoRow).unwrap_err();
    assert_eq!(err.status_code(), 404);
    assert_eq!(err.message(), "Review not found");

    let err = read_one_review(ReviewRowOutcome::QueryError).unwrap_err();
    assert_eq!(err.status_code(), 500);
    assert_eq!(err.message(), "Failed to fetch review");

    let got = fetch_created_review(CreatedReviewOutcome::Row(row(1, 1, 1, 5, "New"))).unwrap();
    assert_eq!(got.review_id, 1);
    let err = fetch_created_review(CreatedReviewOutcome::FetchError).unwrap_err();
    assert_eq!(err.status_code(), 500);
    assert_eq!(err.message(), "Failed to fetch created review");
}

#[test]
fn listing_rows_become_client_reviews_in_order() {
    let rows = vec![
        row(1, 10, 20, 5, "Excellent"),
        row(2, 11, 20, 3, "Good"),
        row(3, 10, 21, 1, "Average"),
    ];
    let rows = require_review_rows(ReviewRowsOutcome::Rows(rows)).unwrap();
    let reviews = reviews_of_rows(&rows);
    assert_eq!(reviews.len(), 3);
    assert_eq!(reviews[0].id, 1);
    assert_eq!(reviews[0].comment, "Excellent");
    assert_eq!(reviews[2].store_id, 21);

    let err = require_review_rows(ReviewRowsOutcome::QueryError).unwrap_err();
    assert_eq!(err.status_code(), 500);
    assert_eq!(err.message(), "Failed to fetch reviews");
}
