use form4::watch::tick;

fn feed_one_entry() -> String {
    "<feed xmlns=\"http://www.w3.org/2005/Atom\"><title>Latest Filings</title><entry><title>4 - ACME CORP</title><updated>2024-01-02T10:00:00Z</updated><link href=\"https://example/edgar/data/123/000123-24-000001-index.htm\"/></entry></feed>"
        .to_string()
}

#[test]
fn first_poll_publishes_entry() {
    let (w, batch) = tick(0, &feed_one_entry());
    assert_eq!(
        batch,
        Some(vec!["https://example/edgar/data/123/000123-24-000001".to_string()])
    );
    // 2024-01-02T10:00:00Z in seconds since the epoch.
    assert_eq!(w, 1704189600);
}

#[test]
fn identical_feed_is_not_redelivered() {
    let feed = feed_one_entry();
    let (w1, batch1) = tick(0, &feed);
    assert_eq!(batch1.map(|b| b.len()), Some(1));
    let (w2, batch2) = tick(w1, &feed);
    assert_eq!(batch2, Some(vec![]));
    assert_eq!(w2, w1);
}

#[test]
fn older_first_entry_keeps_watermark() {
    let newer = feed_one_entry();
    let older = newer.replace("2024-01-02T10:00:00Z", "2023-12-31T00:00:00Z");
    let (w1, _) = tick(0, &newer);
    let (w2, batch) = tick(w1, &older);
    assert_eq!(w2, w1);
    assert_eq!(batch, Some(vec![]));
}

#[test]
fn unparseable_feed_is_a_silent_no_op() {
    let (w, batch) = tick(42, "not xml at all <");
    assert_eq!(w, 42);
    assert_eq!(batch, None);
}

#[test]
fn empty_feed_is_a_silent_no_op() {
    let (w, batch) = tick(42, "<feed xmlns=\"http://www.w3.org/2005/Atom\"></feed>");
    assert_eq!(w, 42);
    assert_eq!(batch, None);
}

#[test]
fn first_entry_without_timestamp_is_a_no_op() {
    let feed = feed_one_entry().replace("<updated>2024-01-02T10:00:00Z</updated>", "");
    let (w, batch) = tick(7, &feed);
    assert_eq!(w, 7);
    assert_eq!(batch, None);
}

#[test]
fn other_titles_are_filtered_out() {
    let feed = feed_one_entry().replace("4 - ACME CORP", "8-K - ACME CORP");
    let (w, batch) = tick(0, &feed);
    assert_eq!(batch, Some(vec![]));
    assert_eq!(w, 1704189600);
}

#[test]
fn link_is_normalized_before_trimming() {
    let feed = feed_one_entry().replace(
        "https://example/edgar/data/123/000123-24-000001-index.htm",
        "HTTPS://EXAMPLE/edgar/data/123/000123-24-000001-index.htm",
    );
    let (_, batch) = tick(0, &feed);
    assert_eq!(
        batch,
        Some(vec!["https://example/edgar/data/123/000123-24-000001".to_string()])
    );
}

#[test]
fn plain_link_loses_its_final_segment() {
    let feed = feed_one_entry().replace(
        "https://example/edgar/data/123/000123-24-000001-index.htm",
        "https://example/edgar/data/123/view.htm",
    );
    let (_, batch) = tick(0, &feed);
    assert_eq!(
        batch,
        Some(vec!["https://example/edgar/data/123".to_string()])
    );
}
