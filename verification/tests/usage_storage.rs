use fornax::usage_storage::UsageStorage;

fn mem() -> UsageStorage {
    UsageStorage::new_in_memory().unwrap()
}

#[test]
fn usage_prune_respects_retention() {
    let mut s = mem();
    // One turn recorded now (as record_usage writes it) and one 100 days ago.
    s.connection()
        .execute(
            "INSERT INTO usage (endpoint, model, prompt_tokens, completion_tokens, ttft_ms, decode_tok_s, cost, ok) \
             VALUES ('ep', 'm', 1, 1, NULL, NULL, NULL, 1)",
            [],
        )
        .unwrap();
    s.connection()
        .execute(
            "INSERT INTO usage (ts, endpoint, model, prompt_tokens, completion_tokens, ok) \
             VALUES (datetime('now', '-100 days'), 'ep', 'm', 1, 1, 1)",
            [],
        )
        .unwrap();
    assert_eq!(s.usage_counts().total_requests, 2);
    assert_eq!(s.prune_usage(0), 0);
    assert_eq!(s.usage_counts().total_requests, 2);
    assert_eq!(s.prune_usage(30), 1);
    assert_eq!(s.usage_counts().total_requests, 1);
}
