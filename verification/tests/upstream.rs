use subscriptions_cache::upstream::{
    decode_list_reply, items_from_records, page_from_json, status_is_success, QueryError,
    UpstreamReply, UPSTREAM_PAGE_SIZE,
};

fn answer(status: u16, body: &str) -> UpstreamReply {
    UpstreamReply::Answer { status, body: body.to_string() }
}

#[test]
fn upstream_pages_hold_fifty_items() {
    assert_eq!(UPSTREAM_PAGE_SIZE, 50);
}

#[test]
fn no_answer_is_a_transport_error() {
    assert_eq!(decode_list_reply(&UpstreamReply::Unreachable), Err(QueryError::UpstreamTransportError));
}

#[test]
fn status_other_than_success_is_passed_on() {
    assert_eq!(decode_list_reply(&answer(401, "{}")), Err(QueryError::UpstreamRejected(401)));
    assert_eq!(decode_list_reply(&answer(403, "not json")), Err(QueryError::UpstreamRejected(403)));
    assert_eq!(decode_list_reply(&answer(500, "")), Err(QueryError::UpstreamRejected(500)));
    assert_eq!(decode_list_reply(&answer(199, "{}")), Err(QueryError::UpstreamRejected(199)));
    assert_eq!(decode_list_reply(&answer(300, "{}")), Err(QueryError::UpstreamRejected(300)));
}

#[test]
fn body_that_is_no_json_is_malformed() {
    assert_eq!(decode_list_reply(&answer(200, "<html>")), Err(QueryError::UpstreamMalformed));
    assert_eq!(decode_list_reply(&answer(200, "")), Err(QueryError::UpstreamMalformed));
    assert_eq!(decode_list_reply(&answer(200, "{\"items\":[}")), Err(QueryError::UpstreamMalformed));
    assert_eq!(decode_list_reply(&answer(200, "{} trailing")), Err(QueryError::UpstreamMalformed));
}

#[test]
fn page_with_items_and_cursor() {
    let body = "{\"nextPageToken\":\"CDIQAA\",\"items\":[\
        {\"id\":\"a\",\"snippet\":{\"title\":\"A\",\"channelTitle\":\"ca\"},\"contentDetails\":{\"totalItemCount\":10}},\
        {\"id\":\"b\",\"snippet\":{\"title\":\"B\",\"channelTitle\":\"cb\"},\"contentDetails\":{\"totalItemCount\":5}}]}";
    let page = decode_list_reply(&answer(200, body)).unwrap();
    assert_eq!(page.next_cursor, Some("CDIQAA".to_string()));
    assert_eq!(page.items.len(), 2);
    assert_eq!(page.items[0].id, "a");
    assert_eq!(page.items[0].title, "A");
    assert_eq!(page.items[0].channel_title, "ca");
    assert_eq!(page.items[0].total_item_count, 10);
    assert_eq!(page.items[1].id, "b");
    assert_eq!(page.items[1].total_item_count, 5);
}

#[test]
fn last_page_has_no_cursor() {
    let page = decode_list_reply(&answer(200, "{\"items\":[{\"id\":\"z\"}]}")).unwrap();
    assert_eq!(page.next_cursor, None);
    assert_eq!(page.items.len(), 1);
    assert_eq!(page.items[0].id, "z");
}

#[test]
fn cursor_of_the_wrong_type_is_no_cursor() {
    let page = decode_list_reply(&answer(200, "{\"nextPageToken\":17,\"items\":[]}")).unwrap();
    assert_eq!(page.next_cursor, None);
    let page = decode_list_reply(&answer(200, "{\"nextPageToken\":null}")).unwrap();
    assert_eq!(page.next_cursor, None);
}

#[test]
fn document_without_records_is_an_empty_page() {
    let page = decode_list_reply(&answer(204, "{}")).unwrap();
    assert!(page.items.is_empty());
    assert_eq!(page.next_cursor, None);
    let page = decode_list_reply(&answer(200, "{\"items\":{\"not\":\"an array\"}}")).unwrap();
    assert!(page.items.is_empty());
    let page = decode_list_reply(&answer(200, "[]")).unwrap();
    assert!(page.items.is_empty());
}

#[test]
fn every_success_status_counts() {
    assert!(!status_is_success(199));
    assert!(status_is_success(200));
    assert!(status_is_success(204));
    assert!(status_is_success(299));
    assert!(!status_is_success(300));
    assert!(!status_is_success(404));
    assert!(!status_is_success(0));
    assert!(!status_is_success(u16::MAX));
}

#[test]
fn page_from_json_keeps_the_order_of_the_records() {
    let doc: serde_json::Value =
        serde_json::from_str("{\"items\":[{\"id\":\"1\"},{\"id\":\"2\"},{\"id\":\"3\"}],\"nextPageToken\":\"n\"}")
            .unwrap();
    let page = page_from_json(&doc);
    let ids: Vec<&str> = page.items.iter().map(|it| it.id.as_str()).collect();
    assert_eq!(ids, vec!["1", "2", "3"]);
    assert_eq!(page.next_cursor, Some("n".to_string()));
    assert_eq!(page.items[1].payload, doc["items"][1]);
}

#[test]
fn items_from_no_records() {
    assert!(items_from_records(None).is_empty());
    assert!(items_from_records(Some(&Vec::new())).is_empty());
}

#[test]
fn errors_map_to_status_and_message() {
    assert_eq!(QueryError::AuthMissing.http_status(), 401);
    assert_eq!(QueryError::AuthMissing.message(), "Missing token");
    assert_eq!(QueryError::UpstreamTransportError.http_status(), 500);
    assert_eq!(QueryError::UpstreamTransportError.message(), "Request failed");
    assert_eq!(QueryError::UpstreamRejected(401).http_status(), 401);
    assert_eq!(QueryError::UpstreamRejected(403).http_status(), 403);
    assert_eq!(QueryError::UpstreamRejected(503).http_status(), 503);
    assert_eq!(QueryError::UpstreamRejected(403).message(), "YouTube API error");
    assert_eq!(QueryError::UpstreamMalformed.http_status(), 500);
    assert_eq!(QueryError::UpstreamMalformed.message(), "Invalid JSON");
}

#[test]
fn status_that_no_response_can_carry_becomes_500() {
    assert_eq!(QueryError::UpstreamRejected(0).http_status(), 500);
    assert_eq!(QueryError::UpstreamRejected(99).http_status(), 500);
    assert_eq!(QueryError::UpstreamRejected(100).http_status(), 100);
    assert_eq!(QueryError::UpstreamRejected(999).http_status(), 999);
    assert_eq!(QueryError::UpstreamRejected(1000).http_status(), 500);
}
