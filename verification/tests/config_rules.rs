use ccometixline::config::{
    ColorConfig, Config, IconConfig, SegmentConfig, SegmentId, StyleConfig, StyleMode,
    TextStyleConfig,
};
use ccometixline::loader::{ConfigError, ConfigLoader};
use ccometixline::segment_group::SegmentGroup;
use ccometixline::segment_list::{ListRow, Panel, SegmentListComponent};
use ccometixline::statusline::colors_renderable;
use ccometixline::theme_nord;

fn seg(id: SegmentId, enabled: bool) -> SegmentConfig {
    SegmentConfig {
        id,
        enabled,
        icon: IconConfig {
            plain: String::new(),
            nerd_font: String::new(),
        },
        colors: ColorConfig {
            icon: None,
            text: None,
            background: None,
        },
        styles: TextStyleConfig::default(),
        options: Vec::new(),
    }
}

fn config(ids: &[SegmentId]) -> Config {
    Config {
        style: StyleConfig {
            mode: StyleMode::Plain,
            separator: " | ".to_string(),
        },
        segments: ids.iter().map(|id| seg(*id, true)).collect(),
        theme: String::new(),
    }
}

fn ids(c: &Config) -> Vec<SegmentId> {
    c.segments.iter().map(|s| s.id).collect()
}

#[test]
fn check_reports_empty_and_duplicate_configurations() {
    let empty = config(&[]);
    assert_eq!(empty.check(), Err(ConfigError::NoSegments));
    assert_eq!(ConfigError::NoSegments.message(), "No segments configured");
    let dup = config(&[SegmentId::Model, SegmentId::Git, SegmentId::Model]);
    assert_eq!(dup.check(), Err(ConfigError::DuplicateSegment(SegmentId::Model)));
    assert_eq!(
        ConfigError::DuplicateSegment(SegmentId::ToolSuccess).message(),
        "Duplicate segment ID: ToolSuccess"
    );
    assert_eq!(config(&[SegmentId::Model, SegmentId::Git]).check(), Ok(()));
}

#[test]
fn normalizing_twice_changes_nothing_and_keeps_every_segment() {
    let mut c = config(&[
        SegmentId::Turns,
        SegmentId::Git,
        SegmentId::Update,
        SegmentId::Model,
        SegmentId::Directory,
    ]);
    c.normalize_segment_order();
    let once = ids(&c);
    assert_eq!(
        once,
        vec![
            SegmentId::Model,
            SegmentId::Git,
            SegmentId::Directory,
            SegmentId::Turns,
            SegmentId::Update
        ]
    );
    c.normalize_segment_order();
    assert_eq!(ids(&c), once);
}

#[test]
fn builtin_themes_are_listed_in_order() {
    assert_eq!(
        ConfigLoader::builtin_theme_names(),
        vec![
            "default",
            "minimal",
            "gruvbox",
            "nord",
            "cometix",
            "powerline-dark",
            "powerline-light",
            "powerline-rose-pine",
            "powerline-tokyo-night"
        ]
    );
}

#[test]
fn segment_list_groups_rows_without_reordering() {
    let c = config(&[SegmentId::Lines, SegmentId::Model, SegmentId::Turns]);
    let list = SegmentListComponent::new();
    let (rows, sel) = list.rows(&c, 0, &Panel::SegmentList);
    let item = |index: usize, selected: bool, id: SegmentId| ListRow::Item {
        index,
        selected,
        enabled: true,
        id,
    };
    assert_eq!(
        rows,
        vec![
            ListRow::Header(SegmentGroup::Identity),
            item(1, false, SegmentId::Model),
            ListRow::Header(SegmentGroup::Time),
            item(0, true, SegmentId::Lines),
            ListRow::Header(SegmentGroup::Activity),
            item(2, false, SegmentId::Turns),
        ]
    );
    assert_eq!(sel, Some(3));
    let (_, sel) = list.rows(&c, 0, &Panel::Settings);
    assert_eq!(sel, None);
    assert_eq!(ids(&c), vec![SegmentId::Lines, SegmentId::Model, SegmentId::Turns]);
}

#[test]
fn nord_theme_colours() {
    let m = theme_nord::model_segment();
    assert_eq!(m.id, SegmentId::Model);
    assert!(m.enabled);
    assert_eq!(
        m.colors.background,
        Some(ccometixline::config::AnsiColor::Rgb { r: 136, g: 192, b: 208 })
    );
    let g = theme_nord::git_segment();
    assert_eq!(g.options.len(), 1);
    assert_eq!(g.options[0].0, "show_sha");
    for s in [
        theme_nord::model_segment(),
        theme_nord::usage_segment(),
        theme_nord::tool_success_segment(),
    ] {
        assert!(colors_renderable(&s.colors));
    }
    assert_eq!(
        theme_nord::group_colors(SegmentGroup::Other).2,
        None
    );
}

#[test]
fn display_names() {
    assert_eq!(SegmentId::ContextWindow.name(), "ContextWindow");
    assert_eq!(SegmentGroup::Quota.label(), "Quota");
}

fn shape(rows: &[ListRow]) -> Vec<(Option<SegmentGroup>, Option<SegmentId>)> {
    rows.iter()
        .map(|r| match r {
            ListRow::Header(g) => (Some(*g), None),
            ListRow::Item { id, .. } => (None, Some(*id)),
        })
        .collect()
}

#[test]
fn segment_list_looks_the_same_after_normalizing() {
    let mut c = config(&[
        SegmentId::Tools,
        SegmentId::Directory,
        SegmentId::Model,
        SegmentId::Git,
        SegmentId::Session,
    ]);
    let list = SegmentListComponent::new();
    let (before, _) = list.rows(&c, 1, &Panel::SegmentList);
    c.normalize_segment_order();
    let (after, _) = list.rows(&c, 3, &Panel::Settings);
    assert_eq!(shape(&before), shape(&after));
}
