use ccd_tax_export::pagination::{has_more, PageReply, PageRequest, Pagination};

/// Runs the retrieval against a list of canned replies and returns the
/// requests that were made.
fn drive(limit: u16, replies: &[PageReply]) -> Vec<PageRequest> {
    let mut p = Pagination::new(limit);
    let mut made = Vec::new();
    while let Some(req) = p.next_request() {
        let reply = replies[made.len()];
        made.push(req);
        p.record(reply);
    }
    made
}

#[test]
fn short_page_on_third_call_stops_after_three_calls() {
    let replies = [
        PageReply { count: 2, limit: 2, last_id: Some(90) },
        PageReply { count: 2, limit: 2, last_id: Some(70) },
        PageReply { count: 1, limit: 2, last_id: Some(60) },
        PageReply { count: 2, limit: 2, last_id: Some(10) },
    ];
    let made = drive(2, &replies);
    assert_eq!(made.len(), 3);
    assert_eq!(made[0], PageRequest { limit: 2, cursor: None });
    assert_eq!(made[1], PageRequest { limit: 2, cursor: Some(90) });
    assert_eq!(made[2], PageRequest { limit: 2, cursor: Some(70) });
    assert!(!has_more(replies[2].count, replies[2].limit));
}

#[test]
fn short_first_page_means_one_call() {
    let replies = [PageReply { count: 0, limit: 100, last_id: None }];
    assert_eq!(drive(100, &replies).len(), 1);
}

#[test]
fn full_but_empty_page_ends_retrieval() {
    let mut p = Pagination::new(5);
    assert!(!p.record(PageReply { count: 5, limit: 5, last_id: None }));
    assert!(p.finished);
    assert_eq!(p.next_request(), None);
}

#[test]
fn has_more_exactly_on_full_page() {
    assert!(has_more(100, 100));
    assert!(!has_more(99, 100));
    assert!(!has_more(0, 100));
}

#[test]
fn finished_pagination_ignores_replies() {
    let mut p = Pagination::new(3);
    p.record(PageReply { count: 1, limit: 3, last_id: Some(4) });
    let before = p;
    assert!(!p.record(PageReply { count: 3, limit: 3, last_id: Some(1) }));
    assert_eq!(p, before);
}
