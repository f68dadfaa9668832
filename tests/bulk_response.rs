use espipe::{BulkItem, BulkResponse, CausedBy, ErrorCause, ErrorType, ResponseError, ResponseItem};

fn item(index: &str, status: u16, cause: Option<(&str, &str)>) -> ResponseItem {
    ResponseItem {
        index: index.to_string(),
        id: "x".to_string(),
        status,
        error: cause.map(|(kind, reason)| ResponseError {
            caused_by: CausedBy { kind: kind.to_string(), reason: reason.to_string() },
        }),
    }
}

fn response(errors: Option<bool>, items: Option<Vec<BulkItem>>) -> BulkResponse {
    BulkResponse { error: None, errors, items }
}

#[test]
fn two_of_three_failed() {
    let cause = Some(("mapper_parsing_exception", "failed to parse"));
    let r = response(
        Some(true),
        Some(vec![
            BulkItem::Create { create: item("logs", 201, None) },
            BulkItem::Create { create: item("logs", 400, cause) },
            BulkItem::Create { create: item("logs", 400, cause) },
        ]),
    );
    assert_eq!(r.success_count(), 1);
    assert!(r.has_errors());
    let counts = r.error_counts();
    assert!(!counts.is_empty());
    assert_eq!(counts, "(2) <logs> mapper_parsing_exception");
}

#[test]
fn distinct_causes_are_tallied_in_order_of_first_occurrence() {
    let r = response(
        Some(true),
        Some(vec![
            BulkItem::Index { index: item("b", 400, Some(("x", "y"))) },
            BulkItem::Index { index: item("a", 409, Some(("conflict", "exists"))) },
            BulkItem::Index { index: item("b", 400, Some(("x", "y"))) },
            BulkItem::Index { index: item("a", 200, None) },
        ]),
    );
    assert_eq!(r.error_counts(), "(2) <b> x, (1) <a> conflict");
    assert_eq!(r.success_count(), 1);
}

#[test]
fn tally_is_empty_unless_errors_are_reported() {
    let items = vec![BulkItem::Create { create: item("a", 400, Some(("x", "y"))) }];
    assert_eq!(response(Some(false), Some(items.clone())).error_counts(), "");
    assert_eq!(response(None, Some(items)).error_counts(), "");
    assert_eq!(response(Some(true), None).error_counts(), "");
}

#[test]
fn acceptance_depends_on_the_action() {
    let r = response(
        Some(false),
        Some(vec![
            BulkItem::Create { create: item("a", 200, None) },
            BulkItem::Create { create: item("a", 201, None) },
            BulkItem::Index { index: item("a", 200, None) },
            BulkItem::Index { index: item("a", 201, None) },
            BulkItem::Index { index: item("a", 202, None) },
            BulkItem::Update { update: item("a", 200, None) },
            BulkItem::Update { update: item("a", 404, None) },
        ]),
    );
    assert_eq!(r.success_count(), 4);
    assert!(!BulkItem::Create { create: item("a", 200, None) }.is_success());
    assert!(BulkItem::Update { update: item("a", 201, None) }.is_success());
}

#[test]
fn no_items_means_no_success() {
    assert_eq!(response(None, None).success_count(), 0);
    assert_eq!(response(None, Some(Vec::new())).success_count(), 0);
}

#[test]
fn has_errors_only_when_flag_is_true() {
    assert!(!response(None, None).has_errors());
    assert!(!response(Some(false), None).has_errors());
    assert!(response(Some(true), None).has_errors());
}

#[test]
fn error_cause_describes_the_top_level_error() {
    let mut r = response(None, None);
    assert_eq!(r.error_cause(), "unknown");
    r.error = Some(ErrorType::Object(ErrorCause { kind: "illegal_argument_exception".to_string() }));
    assert_eq!(r.error_cause(), "illegal_argument_exception");
    r.error = Some(ErrorType::Message("too many requests".to_string()));
    assert_eq!(r.error_cause(), "too many requests");
}

#[test]
fn item_accessors() {
    let failed = BulkItem::Index { index: item("logs-1", 400, Some(("type", "reason"))) };
    assert_eq!(failed.index(), "logs-1");
    assert_eq!(failed.error_type(), Some("type - reason".to_string()));
    assert_eq!(failed.error_message(), Some("<logs-1> type - reason".to_string()));
    let fine = BulkItem::Create { create: item("logs-1", 201, None) };
    assert_eq!(fine.error_type(), None);
    assert_eq!(fine.error_message(), None);
}

#[test]
fn same_index_and_type_with_different_reasons_count_together() {
    let r = response(
        Some(true),
        Some(vec![
            BulkItem::Index { index: item("a", 400, Some(("t", "r1"))) },
            BulkItem::Index { index: item("a", 400, Some(("t", "r2"))) },
            BulkItem::Index { index: item("b", 400, Some(("t", "r1"))) },
        ]),
    );
    assert_eq!(r.error_counts(), "(2) <a> t, (1) <b> t");
}

#[test]
fn error_pair_names_index_and_cause_type() {
    let failed = BulkItem::Update { update: item("logs", 404, Some(("document_missing_exception", "gone"))) };
    assert_eq!(failed.error_pair(), Some("<logs> document_missing_exception".to_string()));
    assert_eq!(BulkItem::Index { index: item("logs", 200, None) }.error_pair(), None);
}
