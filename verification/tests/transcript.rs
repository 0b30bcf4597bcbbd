use ccometixline::transcript::{
    ContentItem, MessageContent, TokenUsage, TranscriptCache, TranscriptEntry, TranscriptMessage,
    TranscriptStats,
};

fn item(t: &str, err: Option<bool>) -> ContentItem {
    ContentItem {
        item_type: Some(t.to_string()),
        is_error: err,
    }
}

fn user(items: Vec<ContentItem>) -> TranscriptEntry {
    TranscriptEntry {
        entry_type: Some("user".to_string()),
        message: Some(TranscriptMessage {
            content: Some(MessageContent::Items(items)),
            stop_reason: None,
            usage: None,
        }),
    }
}

fn assistant(reason: Option<&str>, input: u32, read: u32, uses: usize) -> TranscriptEntry {
    TranscriptEntry {
        entry_type: Some("assistant".to_string()),
        message: Some(TranscriptMessage {
            content: Some(MessageContent::Items(
                (0..uses).map(|_| item("tool_use", None)).collect(),
            )),
            stop_reason: reason.map(str::to_string),
            usage: Some(TokenUsage {
                input_tokens: input,
                output_tokens: 5,
                cache_read_input_tokens: read,
                cache_creation_input_tokens: 1,
            }),
        }),
    }
}

fn run(entries: &[TranscriptEntry]) -> TranscriptStats {
    let mut st = TranscriptStats::new();
    for e in entries {
        assert!(st.can_accumulate(e));
        st.accumulate(e);
    }
    st
}

#[test]
fn accumulate_counts_turns_tools_and_tokens() {
    let st = run(&[
        user(vec![]),
        assistant(Some("tool_use"), 10, 20, 2),
        user(vec![item("tool_result", Some(false)), item("tool_result", Some(true))]),
        assistant(None, 100, 100, 1),
        TranscriptEntry { entry_type: Some("system".to_string()), message: None },
    ]);
    assert_eq!(st.turn_count, 2);
    assert_eq!(st.tool_call_count, 3);
    assert_eq!(st.tool_result_count, 2);
    assert_eq!(st.tool_error_count, 1);
    // Usage counts only on replies that carry a stop reason.
    assert_eq!(st.input_tokens, 10);
    assert_eq!(st.cache_read_tokens, 20);
    assert_eq!(st.output_tokens, 5);
    assert_eq!(st.cache_creation_tokens, 1);
    assert_eq!(st.last_stop_reason.as_deref(), Some("tool_use"));
}

#[test]
fn incremental_totals_match_full_totals() {
    let entries = vec![
        user(vec![item("tool_result", None)]),
        assistant(Some("end_turn"), 3, 4, 1),
        user(vec![item("tool_result", Some(true))]),
        assistant(Some("max_tokens"), 7, 0, 0),
    ];
    let full = run(&entries);
    let mut part = run(&entries[..2]);
    for e in &entries[2..] {
        part.accumulate(e);
    }
    assert_eq!(part.turn_count, full.turn_count);
    assert_eq!(part.input_tokens, full.input_tokens);
    assert_eq!(part.tool_error_count, full.tool_error_count);
    assert_eq!(part.last_stop_reason, full.last_stop_reason);
}

#[test]
fn can_accumulate_refuses_overflow() {
    let mut st = TranscriptStats::new();
    st.turn_count = u32::MAX;
    assert!(!st.can_accumulate(&user(vec![])));
    let mut st = TranscriptStats::new();
    st.input_tokens = u64::MAX;
    assert!(!st.can_accumulate(&assistant(Some("end_turn"), 1, 0, 0)));
    assert!(st.can_accumulate(&assistant(None, 1, 0, 0)));
}

#[test]
fn fractions() {
    let mut st = TranscriptStats::new();
    assert_eq!(st.cache_hit_fraction(), None);
    assert_eq!(st.tool_success_fraction(), None);
    st.input_tokens = 10;
    st.cache_read_tokens = 30;
    st.cache_creation_tokens = 10;
    assert_eq!(st.cache_hit_fraction(), Some((30, 50)));
    st.tool_result_count = 4;
    st.tool_error_count = 1;
    assert_eq!(st.tool_success_fraction(), Some((3, 4)));
    st.tool_error_count = 9;
    assert_eq!(st.tool_success_fraction(), Some((0, 4)));
}

#[test]
fn cache_covers_appended_files_only() {
    let cache = TranscriptCache {
        transcript_path: "/t.jsonl".to_string(),
        file_size_at_parse: 100,
        file_mtime: "5".to_string(),
        stats: TranscriptStats::new(),
        cached_at: "6".to_string(),
    };
    assert!(cache.covers("/t.jsonl", 150, "9"));
    assert!(cache.covers("/t.jsonl", 100, "5"));
    assert!(!cache.covers("/t.jsonl", 100, "9"));
    assert!(!cache.covers("/t.jsonl", 99, "5"));
    assert!(!cache.covers("/other.jsonl", 150, "9"));
}

#[test]
fn extend_adds_entries_in_order() {
    let entries = vec![
        user(vec![item("tool_result", Some(true))]),
        assistant(Some("end_turn"), 3, 4, 2),
        user(vec![]),
    ];
    let mut st = TranscriptStats::new();
    assert!(st.extend(&entries));
    assert_eq!(st.turn_count, 2);
    assert_eq!(st.tool_call_count, 2);
    assert_eq!(st.tool_error_count, 1);
    assert_eq!(st.cache_read_tokens, 4);

    let mut full = TranscriptStats::new();
    let both: Vec<TranscriptEntry> = vec![
        user(vec![item("tool_result", Some(true))]),
        assistant(Some("end_turn"), 3, 4, 2),
        user(vec![]),
        assistant(Some("max_tokens"), 1, 1, 0),
    ];
    assert!(full.extend(&both));
    assert!(st.extend(&vec![assistant(Some("max_tokens"), 1, 1, 0)]));
    assert_eq!(st.input_tokens, full.input_tokens);
    assert_eq!(st.last_stop_reason, full.last_stop_reason);

    let mut near = TranscriptStats::new();
    near.turn_count = u32::MAX - 1;
    assert!(!near.extend(&vec![user(vec![]), user(vec![])]));
    assert_eq!(near.turn_count, u32::MAX);
}
