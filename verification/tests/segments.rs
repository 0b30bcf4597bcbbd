use ccometixline::config::{CostData, InputData, RateText};
use ccometixline::segments::{
    ApiDurationSegment, CacheHitSegment, LinesSegment, Segment, SegmentData, StopReasonSegment,
    ToolSuccessSegment, ToolsSegment, TurnsSegment,
};
use ccometixline::transcript::TranscriptStats;

fn cost(ms: Option<u64>, added: Option<u64>, removed: Option<u64>) -> InputData {
    InputData {
        cost: Some(CostData {
            total_api_duration_ms: ms,
            total_lines_added: added,
            total_lines_removed: removed,
        }),
        transcript: None,
        cache_hit_rate: None,
        tool_success_rate: None,
    }
}

fn with_stats(stats: TranscriptStats, cache: Option<(&str, &str)>, tools: Option<(&str, &str)>) -> InputData {
    let rate = |r: Option<(&str, &str)>| {
        r.map(|(w, h)| RateText {
            whole: w.to_string(),
            hundredths: h.to_string(),
        })
    };
    InputData {
        cost: None,
        transcript: Some(stats),
        cache_hit_rate: rate(cache),
        tool_success_rate: rate(tools),
    }
}

fn meta(d: &SegmentData, key: &str) -> Option<String> {
    d.metadata
        .iter()
        .find(|(k, _)| k == key)
        .map(|(_, v)| v.clone())
}

#[test]
fn format_duration_picks_the_largest_unit() {
    assert_eq!(ApiDurationSegment::format_duration(0), "0ms");
    assert_eq!(ApiDurationSegment::format_duration(850), "850ms");
    assert_eq!(ApiDurationSegment::format_duration(1000), "1s");
    assert_eq!(ApiDurationSegment::format_duration(42_999), "42s");
    assert_eq!(ApiDurationSegment::format_duration(180_000), "3m");
    assert_eq!(ApiDurationSegment::format_duration(187_000), "3m7s");
    assert_eq!(ApiDurationSegment::format_duration(7_200_000), "2h");
    assert_eq!(ApiDurationSegment::format_duration(8_100_000), "2h15m");
}

#[test]
fn api_duration_shows_formatted_time() {
    let d = ApiDurationSegment::new().collect(&cost(Some(65_000), None, None)).unwrap();
    assert_eq!(d.primary, "1m5s");
    assert_eq!(d.secondary, "");
    assert_eq!(meta(&d, "api_duration_ms").as_deref(), Some("65000"));
    assert!(ApiDurationSegment::new().collect(&cost(None, None, None)).is_none());
}

#[test]
fn lines_shows_added_and_removed() {
    let d = LinesSegment::new().collect(&cost(None, Some(12), None)).unwrap();
    assert_eq!(d.primary, "+12 -0");
    assert_eq!(meta(&d, "lines_removed").as_deref(), Some("0"));
    assert!(LinesSegment::new().collect(&cost(None, Some(0), Some(0))).is_none());
}

#[test]
fn stop_reason_icons() {
    assert_eq!(StopReasonSegment::icon_for_reason("end_turn"), "\u{f0791}");
    assert_eq!(StopReasonSegment::icon_for_reason("tool_use"), "\u{f1064}");
    assert_eq!(StopReasonSegment::icon_for_reason("max_tokens"), "\u{f0028}");
    assert_eq!(StopReasonSegment::icon_for_reason("refusal"), "\u{f0159}");
    assert_eq!(StopReasonSegment::icon_for_reason("stop_sequence"), "\u{f0666}");
    assert_eq!(StopReasonSegment::icon_for_reason("other"), "\u{f02d7}");
}

#[test]
fn stop_reason_sets_dynamic_icon() {
    let mut st = TranscriptStats::new();
    st.last_stop_reason = Some("tool_use".to_string());
    let d = StopReasonSegment::new().collect(&with_stats(st, None, None)).unwrap();
    assert_eq!(d.primary, "tool_use");
    assert_eq!(meta(&d, "dynamic_icon").as_deref(), Some("\u{f1064}"));
}

#[test]
fn turns_counts_user_turns() {
    let mut st = TranscriptStats::new();
    assert!(TurnsSegment::new().collect(&with_stats(TranscriptStats::new(), None, None)).is_none());
    st.turn_count = 7;
    let d = TurnsSegment::new().collect(&with_stats(st, None, None)).unwrap();
    assert_eq!(d.primary, "#7");
}

#[test]
fn tools_shows_rate_only_with_results() {
    let mut st = TranscriptStats::new();
    st.tool_call_count = 9;
    let d = ToolsSegment::new().collect(&with_stats(st, None, Some(("90", "90.00")))).unwrap();
    assert_eq!(d.primary, "9");
    let mut st = TranscriptStats::new();
    st.tool_call_count = 9;
    st.tool_result_count = 8;
    st.tool_error_count = 1;
    let d = ToolsSegment::new().collect(&with_stats(st, None, Some(("88", "87.50")))).unwrap();
    assert_eq!(d.primary, "9 (88%)");
    assert_eq!(meta(&d, "success_rate").as_deref(), Some("87.50"));
}

#[test]
fn cache_hit_and_tool_success_show_rates() {
    let mut st = TranscriptStats::new();
    st.input_tokens = 10;
    st.cache_read_tokens = 30;
    let d = CacheHitSegment::new().collect(&with_stats(st, Some(("75", "75.00")), None)).unwrap();
    assert_eq!(d.primary, "75%");
    assert_eq!(meta(&d, "cache_read").as_deref(), Some("30"));
    assert!(CacheHitSegment::new()
        .collect(&with_stats(TranscriptStats::new(), Some(("0", "0.00")), None))
        .is_none());

    let mut st = TranscriptStats::new();
    st.tool_result_count = 4;
    st.tool_error_count = 1;
    let d = ToolSuccessSegment::new().collect(&with_stats(st, None, Some(("75", "75.00")))).unwrap();
    assert_eq!(d.primary, "75%");
    assert_eq!(meta(&d, "errors").as_deref(), Some("1"));
}
