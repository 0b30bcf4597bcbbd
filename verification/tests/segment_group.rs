use ccometixline::config::SegmentId;
use ccometixline::config::SegmentId::{
    ApiDuration, CacheHit, ContextWindow, Cost, Directory, Git, Lines, Model, OutputStyle,
    Session, StopReason, ToolSuccess, Tools, Turns, Update, Usage,
};
use ccometixline::segment_group::SegmentGroup::{
    Activity, Identity, Other, Place, Quota, Time, Tokens,
};
use ccometixline::segment_group::{SegmentGroup, GROUP_ORDER};

#[test]
fn sort_key_matches_group_order() {
    for (expected, g) in GROUP_ORDER.iter().enumerate() {
        assert_eq!(g.sort_key(), expected, "sort_key out of sync for {:?}", g);
    }
}

#[test]
fn sort_key_is_exhaustive() {
    let all = [
        SegmentGroup::Identity,
        SegmentGroup::Place,
        SegmentGroup::Tokens,
        SegmentGroup::Quota,
        SegmentGroup::Time,
        SegmentGroup::Activity,
        SegmentGroup::Other,
    ];
    for g in all {
        let _ = g.sort_key(); // must not panic
    }
}

#[test]
fn of_puts_every_segment_id_in_expected_group() {
    let cases = [
        (Model, Identity),
        (OutputStyle, Identity),
        (Directory, Place),
        (Git, Place),
        (ContextWindow, Tokens),
        (CacheHit, Tokens),
        (Usage, Quota),
        (Cost, Quota),
        (Session, Time),
        (ApiDuration, Time),
        (Lines, Time),
        (Turns, Activity),
        (Tools, Activity),
        (StopReason, Activity),
        (ToolSuccess, Activity),
        (Update, Other),
    ];
    for (id, expected) in cases {
        assert_eq!(SegmentGroup::of(&id), expected, "wrong group for {:?}", id);
    }
}

#[test]
fn labels_name_each_group() {
    let labels: Vec<&str> = GROUP_ORDER.iter().map(|g| g.label()).collect();
    assert_eq!(
        labels,
        vec!["Identity", "Place", "Tokens", "Quota", "Time", "Activity", "Other"]
    );
}
