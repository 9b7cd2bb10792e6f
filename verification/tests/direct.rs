use subscriptions_cache::direct::{
    absorb_direct, get_page_direct, locate, resume_page_direct, totals_from, DirectPage,
    DirectSession, DirectStep, UpstreamLocation,
};
use subscriptions_cache::state::AppState;
use subscriptions_cache::upstream::{decode_list_reply, total_hint_from, QueryError, UpstreamReply};

fn upstream_page(first: usize, count: usize, next: Option<&str>, total: Option<i64>) -> UpstreamReply {
    let items: Vec<String> = (first..first + count)
        .map(|i| format!("{{\"id\":\"s{i}\",\"contentDetails\":{{\"totalItemCount\":{}}}}}", 1000 - i))
        .collect();
    let cursor = match next {
        Some(c) => format!("\"nextPageToken\":\"{c}\","),
        None => String::new(),
    };
    let info = match total {
        Some(t) => format!("\"pageInfo\":{{\"totalResults\":{t},\"resultsPerPage\":50}},"),
        None => String::new(),
    };
    UpstreamReply::Answer { status: 200, body: format!("{{{cursor}{info}\"items\":[{}]}}", items.join(",")) }
}

fn fetch_of(step: DirectStep) -> DirectSession {
    match step {
        DirectStep::Fetch(s) => s,
        other => panic!("a fetch was expected, not {:?}", other),
    }
}

fn answer_of(step: DirectStep) -> DirectPage {
    match step {
        DirectStep::Respond(p) => p,
        other => panic!("an answer was expected, not {:?}", other),
    }
}

fn ids(p: &DirectPage) -> Vec<&str> {
    p.items.iter().map(|it| it.id.as_str()).collect()
}

#[test]
fn locate_translates_page_and_limit() {
    assert_eq!(locate(1, 25), UpstreamLocation { upstream_page: 1, offset: 0 });
    assert_eq!(locate(2, 25), UpstreamLocation { upstream_page: 1, offset: 25 });
    assert_eq!(locate(3, 25), UpstreamLocation { upstream_page: 2, offset: 0 });
    assert_eq!(locate(4, 25), UpstreamLocation { upstream_page: 2, offset: 25 });
    assert_eq!(locate(5, 30), UpstreamLocation { upstream_page: 3, offset: 20 });
    assert_eq!(locate(2, 100), UpstreamLocation { upstream_page: 3, offset: 0 });
    assert_eq!(locate(52, 1), UpstreamLocation { upstream_page: 2, offset: 1 });
    assert_eq!(locate(7, 0), UpstreamLocation { upstream_page: 1, offset: 0 });
}

#[test]
fn locate_stops_counting_at_the_largest_index() {
    let far = locate(usize::MAX, 100);
    assert_eq!(far, UpstreamLocation { upstream_page: usize::MAX / 50 + 1, offset: usize::MAX % 50 });
}

#[test]
fn totals_come_from_the_estimate() {
    assert_eq!(totals_from(Some(120), 25), (Some(120), Some(5)));
    assert_eq!(totals_from(Some(0), 25), (Some(0), Some(0)));
    assert_eq!(totals_from(Some(100), 100), (Some(100), Some(1)));
    assert_eq!(totals_from(None, 25), (None, None));
}

#[test]
fn estimate_must_be_a_size() {
    assert_eq!(total_hint_from(Some(0)), Some(0));
    assert_eq!(total_hint_from(Some(734)), Some(734));
    assert_eq!(total_hint_from(Some(-1)), None);
    assert_eq!(total_hint_from(Some(i64::MIN)), None);
    assert_eq!(total_hint_from(None), None);
}

#[test]
fn estimate_is_read_off_the_page() {
    let page = decode_list_reply(&upstream_page(0, 2, None, Some(734))).unwrap();
    assert_eq!(page.total_hint, Some(734));
    let page = decode_list_reply(&upstream_page(0, 2, None, None)).unwrap();
    assert_eq!(page.total_hint, None);
    let page = decode_list_reply(&upstream_page(0, 2, None, Some(-5))).unwrap();
    assert_eq!(page.total_hint, None);
}

#[test]
fn direct_access_without_credential_fails() {
    let mut state = AppState::new();
    assert_eq!(get_page_direct(&mut state, None, Some(1), Some(25)), DirectStep::Fail(QueryError::AuthMissing));
    assert_eq!(state.tokens_len_and_last("tok"), (0, None));
}

#[test]
fn first_page_takes_one_call() {
    let mut state = AppState::new();
    let s = fetch_of(get_page_direct(&mut state, Some("tok"), Some(1), Some(3)));
    assert_eq!(s.fetching, 1);
    assert_eq!(s.cursor, None);
    assert_eq!(s.target, UpstreamLocation { upstream_page: 1, offset: 0 });
    let p = answer_of(resume_page_direct(&mut state, s, &upstream_page(0, 50, Some("T2"), Some(120))));
    assert_eq!(ids(&p), vec!["s0", "s1", "s2"]);
    assert_eq!(p.total_results, Some(120));
    assert_eq!(p.total_pages, Some(40));
    assert_eq!(p.page, 1);
    assert_eq!(p.limit, 3);
    assert_eq!(state.tokens_len_and_last("tok"), (2, Some("T2".to_string())));
}

#[test]
fn defaults_apply_to_a_bare_direct_access() {
    let mut state = AppState::new();
    let s = fetch_of(get_page_direct(&mut state, Some("tok"), None, None));
    assert_eq!(s.page, 1);
    assert_eq!(s.limit, 25);
    let s = fetch_of(get_page_direct(&mut state, Some("tok"), Some(0), Some(1000)));
    assert_eq!(s.page, 1);
    assert_eq!(s.limit, 100);
}

#[test]
fn page_in_the_middle_of_an_upstream_page() {
    let mut state = AppState::new();
    let s = fetch_of(get_page_direct(&mut state, Some("tok"), Some(2), Some(10)));
    assert_eq!(s.target, UpstreamLocation { upstream_page: 1, offset: 10 });
    let p = answer_of(resume_page_direct(&mut state, s, &upstream_page(0, 50, None, None)));
    assert_eq!(ids(&p), vec!["s10", "s11", "s12", "s13", "s14", "s15", "s16", "s17", "s18", "s19"]);
    assert_eq!(p.total_results, None);
    assert_eq!(p.total_pages, None);
}

#[test]
fn page_that_runs_over_its_upstream_page_comes_back_short() {
    let mut state = AppState::new();
    let s = fetch_of(get_page_direct(&mut state, Some("tok"), Some(2), Some(30)));
    assert_eq!(s.target, UpstreamLocation { upstream_page: 1, offset: 30 });
    let p = answer_of(resume_page_direct(&mut state, s, &upstream_page(0, 50, Some("T2"), None)));
    assert_eq!(p.items.len(), 20);
    assert_eq!(p.items[0].id, "s30");
    assert_eq!(p.items[19].id, "s49");
}

#[test]
fn chain_is_grown_page_by_page_up_to_the_target() {
    let mut state = AppState::new();
    let s = fetch_of(get_page_direct(&mut state, Some("tok"), Some(3), Some(50)));
    assert_eq!(s.target, UpstreamLocation { upstream_page: 3, offset: 0 });
    assert_eq!((s.fetching, s.cursor.clone()), (1, None));
    let s = fetch_of(resume_page_direct(&mut state, s, &upstream_page(0, 50, Some("T2"), None)));
    assert_eq!((s.fetching, s.cursor.clone()), (2, Some("T2".to_string())));
    let s = fetch_of(resume_page_direct(&mut state, s, &upstream_page(50, 50, Some("T3"), None)));
    assert_eq!((s.fetching, s.cursor.clone()), (3, Some("T3".to_string())));
    let p = answer_of(resume_page_direct(&mut state, s, &upstream_page(100, 7, None, Some(107))));
    assert_eq!(p.items.len(), 7);
    assert_eq!(p.items[0].id, "s100");
    assert_eq!(p.total_results, Some(107));
    assert_eq!(p.total_pages, Some(3));
    assert_eq!(state.tokens_len_and_last("tok"), (3, Some("T3".to_string())));
}

#[test]
fn known_page_takes_one_call() {
    let mut state = AppState::new();
    state.push_next_token("tok", Some("T2".to_string()));
    state.push_next_token("tok", Some("T3".to_string()));
    let s = fetch_of(get_page_direct(&mut state, Some("tok"), Some(5), Some(25)));
    assert_eq!(s.target, UpstreamLocation { upstream_page: 3, offset: 0 });
    assert_eq!((s.fetching, s.cursor.clone()), (3, Some("T3".to_string())));
    let p = answer_of(resume_page_direct(&mut state, s, &upstream_page(100, 50, Some("T4"), None)));
    assert_eq!(p.items.len(), 25);
    assert_eq!(p.items[0].id, "s100");
    assert_eq!(state.tokens_len_and_last("tok"), (4, Some("T4".to_string())));
}

#[test]
fn growth_starts_at_the_last_known_page() {
    let mut state = AppState::new();
    state.push_next_token("tok", Some("T2".to_string()));
    let s = fetch_of(get_page_direct(&mut state, Some("tok"), Some(4), Some(50)));
    assert_eq!(s.target.upstream_page, 4);
    assert_eq!((s.fetching, s.cursor.clone()), (2, Some("T2".to_string())));
}

#[test]
fn page_behind_the_end_of_the_collection_is_empty() {
    let mut state = AppState::new();
    let s = fetch_of(get_page_direct(&mut state, Some("tok"), Some(9), Some(50)));
    let s = fetch_of(resume_page_direct(&mut state, s, &upstream_page(0, 50, Some("T2"), Some(60))));
    let p = answer_of(resume_page_direct(&mut state, s, &upstream_page(50, 10, None, Some(60))));
    assert!(p.items.is_empty());
    assert_eq!(p.total_results, Some(60));
    assert_eq!(p.total_pages, Some(2));
    assert_eq!(p.page, 9);
    assert_eq!(state.tokens_len_and_last("tok"), (2, Some("T2".to_string())));
}

#[test]
fn offset_behind_the_end_of_the_target_page_is_empty() {
    let mut state = AppState::new();
    let s = fetch_of(get_page_direct(&mut state, Some("tok"), Some(2), Some(40)));
    let p = answer_of(resume_page_direct(&mut state, s, &upstream_page(0, 12, None, Some(12))));
    assert!(p.items.is_empty());
    assert_eq!(p.total_pages, Some(1));
}

#[test]
fn bad_reply_ends_a_direct_access() {
    let mut state = AppState::new();
    let s = fetch_of(get_page_direct(&mut state, Some("tok"), Some(1), Some(5)));
    assert_eq!(
        resume_page_direct(&mut state, s, &UpstreamReply::Unreachable),
        DirectStep::Fail(QueryError::UpstreamTransportError)
    );
    let s = fetch_of(get_page_direct(&mut state, Some("tok"), Some(1), Some(5)));
    let rejected = UpstreamReply::Answer { status: 403, body: String::new() };
    assert_eq!(resume_page_direct(&mut state, s, &rejected), DirectStep::Fail(QueryError::UpstreamRejected(403)));
    let s = fetch_of(get_page_direct(&mut state, Some("tok"), Some(1), Some(5)));
    let malformed = UpstreamReply::Answer { status: 200, body: "{".to_string() };
    assert_eq!(resume_page_direct(&mut state, s, &malformed), DirectStep::Fail(QueryError::UpstreamMalformed));
    assert_eq!(state.tokens_len_and_last("tok"), (1, None));
}

#[test]
fn direct_access_keeps_upstream_order() {
    let mut state = AppState::new();
    let s = fetch_of(get_page_direct(&mut state, Some("tok"), Some(1), Some(4)));
    let body = "{\"items\":[{\"id\":\"low\",\"contentDetails\":{\"totalItemCount\":1}},\
                {\"id\":\"high\",\"contentDetails\":{\"totalItemCount\":9}},\
                {\"id\":\"mid\",\"contentDetails\":{\"totalItemCount\":5}}]}";
    let page = decode_list_reply(&UpstreamReply::Answer { status: 200, body: body.to_string() }).unwrap();
    let p = answer_of(absorb_direct(&mut state, s, page));
    assert_eq!(ids(&p), vec!["low", "high", "mid"]);
}

#[test]
fn chain_dropped_during_growth_is_started_over() {
    let mut state = AppState::new();
    let s = fetch_of(get_page_direct(&mut state, Some("tok"), Some(3), Some(50)));
    let s = fetch_of(resume_page_direct(&mut state, s, &upstream_page(0, 50, Some("T2"), None)));
    assert_eq!(s.fetching, 2);
    state.on_mutation_or_refresh("tok");
    let s = fetch_of(resume_page_direct(&mut state, s, &upstream_page(50, 50, Some("T3"), None)));
    assert_eq!((s.fetching, s.cursor.clone()), (1, None));
    assert_eq!(state.tokens_len_and_last("tok"), (1, None));
}
