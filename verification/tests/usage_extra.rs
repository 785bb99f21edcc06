use fornax::usage_storage::{nearest_rank_index, retention_cutoff, UsageStorage};

#[test]
fn nearest_rank_percentiles() {
    assert_eq!(nearest_rank_index(0, 50), None);
    assert_eq!(nearest_rank_index(1, 50), Some(0));
    assert_eq!(nearest_rank_index(3, 50), Some(1));
    assert_eq!(nearest_rank_index(4, 50), Some(1));
    assert_eq!(nearest_rank_index(20, 95), Some(18));
    assert_eq!(nearest_rank_index(21, 95), Some(19));
    assert_eq!(nearest_rank_index(5, 0), Some(0));
    assert_eq!(nearest_rank_index(5, 100), Some(4));
    assert_eq!(nearest_rank_index(5, 250), Some(4));
}

#[test]
fn retention_cutoff_text() {
    assert_eq!(retention_cutoff(30), "-30 days");
    assert_eq!(retention_cutoff(7), "-7 days");
    assert_eq!(retention_cutoff(4294967295), "-4294967295 days");
}

#[test]
fn counts_and_daily_series() {
    let mut s = UsageStorage::new_in_memory().unwrap();
    assert_eq!(s.usage_counts().total_requests, 0);
    assert!(s.usage_daily().is_empty());
    for (p, c, ok) in [(10, 20, 1), (5, 15, 0), (100, 200, 1)] {
        s.connection()
            .execute(
                "INSERT INTO usage (endpoint, model, prompt_tokens, completion_tokens, ok) VALUES ('e', 'm', ?1, ?2, ?3)",
                [p, c, ok],
            )
            .unwrap();
    }
    let counts = s.usage_counts();
    assert_eq!(counts.total_requests, 3);
    assert_eq!(counts.ok_requests, 2);
    assert_eq!(counts.prompt_tokens, 115);
    assert_eq!(counts.completion_tokens, 235);
    assert_eq!(counts.total_tokens, 350);
    let daily = s.usage_daily();
    assert_eq!(daily.len(), 1);
    assert_eq!(daily[0].total_tokens, 350);
    s.clear_usage();
    assert_eq!(s.usage_counts().total_requests, 0);
}

#[test]
fn per_model_counts_most_used_first() {
    let mut s = UsageStorage::new_in_memory().unwrap();
    for (model, p, c) in [("mlx-a", 10, 20), ("mlx-a", 5, 15), ("mlx-b", 100, 200)] {
        s.connection()
            .execute(
                "INSERT INTO usage (endpoint, model, prompt_tokens, completion_tokens) VALUES ('http://localhost:42069/v1', ?1, ?2, ?3)",
                (model, p, c),
            )
            .unwrap();
    }
    let by_model = s.usage_by_model_counts();
    assert_eq!(by_model.len(), 2);
    assert_eq!(by_model[0].model, "mlx-a");
    assert_eq!(by_model[0].requests, 2);
    assert_eq!(by_model[0].total_tokens, 50);
    assert_eq!(by_model[1].model, "mlx-b");
    assert_eq!(by_model[1].total_tokens, 300);
}
