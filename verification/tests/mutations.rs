use subscriptions_cache::mutation::{
    collect_deleted, delete_reply_succeeded, refresh_subs_cache_handler, unsubscribe_handler,
    DeleteReply, UnsubscribeRequest, UnsubscribeResponse,
};
use subscriptions_cache::query::SubscriptionsQuery;
use subscriptions_cache::state::{AppState, CACHE_TTL};
use subscriptions_cache::subscriptions::{get_subscriptions_at, resume_subscriptions_at, QueryStep};
use subscriptions_cache::upstream::{QueryError, UpstreamReply};

fn request(ids: &[&str]) -> UnsubscribeRequest {
    UnsubscribeRequest { ids: ids.iter().map(|s| s.to_string()).collect() }
}

fn deleted(ids: &[&str]) -> UnsubscribeResponse {
    UnsubscribeResponse { deleted: ids.iter().map(|s| s.to_string()).collect() }
}

fn ok() -> DeleteReply {
    DeleteReply::Answer { status: 204 }
}

fn rejected() -> DeleteReply {
    DeleteReply::Answer { status: 404 }
}

fn plain() -> SubscriptionsQuery {
    SubscriptionsQuery { query: None, page: None, limit: None, sort: None }
}

fn warm(state: &mut AppState, token: &str) {
    let session = match get_subscriptions_at(state, Some(token), &plain(), 0, CACHE_TTL) {
        QueryStep::Fetch(s) => s,
        other => panic!("a drain was expected, not {:?}", other),
    };
    let body = "{\"items\":[{\"id\":\"A\",\"snippet\":{\"title\":\"A\"},\"contentDetails\":{\"totalItemCount\":1}}]}";
    let reply = UpstreamReply::Answer { status: 200, body: body.to_string() };
    match resume_subscriptions_at(state, session, &reply, 0) {
        QueryStep::Respond(_) => {},
        other => panic!("an answer was expected, not {:?}", other),
    }
}

fn is_hit(state: &mut AppState, token: &str) -> bool {
    matches!(get_subscriptions_at(state, Some(token), &plain(), 1, CACHE_TTL), QueryStep::Respond(_))
}

#[test]
fn one_id_deleted_one_rejected() {
    let mut state = AppState::new();
    warm(&mut state, "tok");
    assert!(is_hit(&mut state, "tok"));
    let r = unsubscribe_handler(&mut state, Some("tok"), request(&["A", "Z"]), &vec![ok(), rejected()]);
    assert_eq!(r, Ok(deleted(&["A"])));
    assert!(!is_hit(&mut state, "tok"));
}

#[test]
fn unsubscribe_that_deletes_nothing_keeps_the_cache() {
    let mut state = AppState::new();
    warm(&mut state, "tok");
    let r = unsubscribe_handler(
        &mut state,
        Some("tok"),
        request(&["A", "Z"]),
        &vec![rejected(), DeleteReply::Unreachable],
    );
    assert_eq!(r, Ok(deleted(&[])));
    assert!(is_hit(&mut state, "tok"));
    assert_eq!(state.tokens_len_and_last("tok"), (1, None));
}

#[test]
fn unsubscribe_of_no_ids_keeps_the_cache() {
    let mut state = AppState::new();
    warm(&mut state, "tok");
    assert_eq!(unsubscribe_handler(&mut state, Some("tok"), request(&[]), &Vec::new()), Ok(deleted(&[])));
    assert!(is_hit(&mut state, "tok"));
}

#[test]
fn unsubscribe_invalidates_only_its_identity() {
    let mut state = AppState::new();
    warm(&mut state, "tok");
    warm(&mut state, "other");
    let r = unsubscribe_handler(&mut state, Some("tok"), request(&["A"]), &vec![ok()]);
    assert_eq!(r, Ok(deleted(&["A"])));
    assert!(!is_hit(&mut state, "tok"));
    assert!(is_hit(&mut state, "other"));
    assert_eq!(state.tokens_len_and_last("other"), (1, None));
}

#[test]
fn unsubscribe_drops_the_cursor_chain() {
    let mut state = AppState::new();
    state.push_next_token("tok", Some("T2".to_string()));
    let _ = unsubscribe_handler(&mut state, Some("tok"), request(&["A"]), &vec![ok()]);
    assert_eq!(state.tokens_len_and_last("tok"), (0, None));
}

#[test]
fn unsubscribe_without_credential_fails_and_changes_nothing() {
    let mut state = AppState::new();
    warm(&mut state, "tok");
    let r = unsubscribe_handler(&mut state, None, request(&["A"]), &vec![ok()]);
    assert_eq!(r, Err(QueryError::AuthMissing));
    assert!(is_hit(&mut state, "tok"));
}

#[test]
fn deleted_ids_keep_request_order() {
    let replies = vec![ok(), rejected(), DeleteReply::Answer { status: 200 }, DeleteReply::Unreachable, ok()];
    let ids = vec!["a", "b", "c", "d", "e"].into_iter().map(|s| s.to_string()).collect();
    assert_eq!(collect_deleted(ids, &replies), vec!["a", "c", "e"]);
}

#[test]
fn id_without_reply_is_not_deleted() {
    let ids = vec!["a", "b", "c"].into_iter().map(|s| s.to_string()).collect();
    assert_eq!(collect_deleted(ids, &vec![ok()]), vec!["a"]);
    let ids = vec!["a".to_string()];
    assert_eq!(collect_deleted(ids, &vec![ok(), ok(), ok()]), vec!["a"]);
}

#[test]
fn repeated_id_is_reported_once_per_success() {
    let ids = vec!["a", "a", "a"].into_iter().map(|s| s.to_string()).collect();
    assert_eq!(collect_deleted(ids, &vec![ok(), rejected(), ok()]), vec!["a", "a"]);
}

#[test]
fn delete_succeeds_on_success_status_only() {
    assert!(delete_reply_succeeded(&DeleteReply::Answer { status: 200 }));
    assert!(delete_reply_succeeded(&DeleteReply::Answer { status: 204 }));
    assert!(delete_reply_succeeded(&DeleteReply::Answer { status: 299 }));
    assert!(!delete_reply_succeeded(&DeleteReply::Answer { status: 300 }));
    assert!(!delete_reply_succeeded(&DeleteReply::Answer { status: 404 }));
    assert!(!delete_reply_succeeded(&DeleteReply::Answer { status: 199 }));
    assert!(!delete_reply_succeeded(&DeleteReply::Unreachable));
}

#[test]
fn refresh_invalidates_within_ttl() {
    let mut state = AppState::new();
    warm(&mut state, "tok");
    warm(&mut state, "other");
    state.push_next_token("tok", Some("T2".to_string()));
    assert_eq!(refresh_subs_cache_handler(&mut state, Some("tok")), Ok(()));
    assert!(!is_hit(&mut state, "tok"));
    assert!(is_hit(&mut state, "other"));
}

#[test]
fn refresh_drops_the_cursor_chain() {
    let mut state = AppState::new();
    state.push_next_token("tok", Some("T2".to_string()));
    assert_eq!(refresh_subs_cache_handler(&mut state, Some("tok")), Ok(()));
    assert_eq!(state.tokens_len_and_last("tok"), (0, None));
}

#[test]
fn refresh_succeeds_when_nothing_is_cached() {
    let mut state = AppState::new();
    assert_eq!(refresh_subs_cache_handler(&mut state, Some("tok")), Ok(()));
    assert_eq!(refresh_subs_cache_handler(&mut state, Some("tok")), Ok(()));
}

#[test]
fn refresh_without_credential_fails_and_changes_nothing() {
    let mut state = AppState::new();
    warm(&mut state, "tok");
    assert_eq!(refresh_subs_cache_handler(&mut state, None), Err(QueryError::AuthMissing));
    assert!(is_hit(&mut state, "tok"));
}
