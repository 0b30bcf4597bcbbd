use ccometixline::config::{
    ColorConfig, Config, IconConfig, OptionValue, SegmentConfig, SegmentId, StyleConfig,
    StyleMode, TextStyleConfig,
};
use ccometixline::segment_group::SegmentGroup;
use ccometixline::statusline::StatusLineGenerator;
use ccometixline::width::visible_width;
use unicode_width::UnicodeWidthStr;

fn seg(id: SegmentId, sep_override: Option<&str>) -> SegmentConfig {
    let mut options = Vec::new();
    if let Some(s) = sep_override {
        options.push((
            "separator_before".to_string(),
            OptionValue::Text(s.to_string()),
        ));
    }
    SegmentConfig {
        id,
        enabled: true,
        icon: IconConfig {
            plain: String::new(),
            nerd_font: String::new(),
        },
        colors: ColorConfig {
            icon: None,
            text: None,
            background: None,
        },
        styles: TextStyleConfig::default(),
        options,
    }
}

fn gen_with_sep(sep: &str) -> StatusLineGenerator {
    StatusLineGenerator::new(Config {
        style: StyleConfig {
            mode: StyleMode::NerdFont,
            separator: sep.to_string(),
        },
        segments: Vec::new(),
        theme: String::new(),
    })
}

#[test]
fn decide_separator_intra_group_uses_middot() {
    let g = gen_with_sep(" | ");
    // Model + OutputStyle both live in Identity.
    let cur = seg(SegmentId::OutputStyle, None);
    let prev = seg(SegmentId::Model, None);
    assert_eq!(g.decide_separator(&cur, &prev), " · ");
}

#[test]
fn decide_separator_inter_group_uses_theme_separator() {
    let g = gen_with_sep(" | ");
    // Cost (Quota) -> Session (Time) crosses groups.
    let cur = seg(SegmentId::Session, None);
    let prev = seg(SegmentId::Cost, None);
    assert_eq!(g.decide_separator(&cur, &prev), " | ");
}

#[test]
fn decide_separator_user_override_wins() {
    let g = gen_with_sep(" | ");
    let cur = seg(SegmentId::Session, Some(" x "));
    let prev = seg(SegmentId::Cost, None);
    assert_eq!(g.decide_separator(&cur, &prev), " x ");
}

#[test]
fn decide_separator_bubble_theme_returns_empty_even_intra_group() {
    let g = gen_with_sep("");
    let cur = seg(SegmentId::OutputStyle, None);
    let prev = seg(SegmentId::Model, None);
    assert_eq!(g.decide_separator(&cur, &prev), "");
}

#[test]
fn decide_separator_bubble_theme_user_override_still_wins() {
    // Even on a bubble theme, explicit separator_before should not be silenced.
    let g = gen_with_sep("");
    let cur = seg(SegmentId::Session, Some(" · "));
    let prev = seg(SegmentId::Cost, None);
    assert_eq!(g.decide_separator(&cur, &prev), " · ");
}

#[test]
fn visible_width_counts_plain_ascii() {
    assert_eq!(visible_width("hello"), 5);
}

#[test]
fn visible_width_strips_csi_colors() {
    assert_eq!(visible_width("\x1b[31mred\x1b[0m"), 3);
    assert_eq!(visible_width("\x1b[38;5;214m214-color\x1b[0m"), 9);
}

#[test]
fn visible_width_strips_osc_hyperlink() {
    // OSC 8 hyperlink: ESC ] 8 ; ; URL ESC \ TEXT ESC ] 8 ; ; ESC \
    let hyperlinked = "\x1b]8;;https://example.com\x1b\\click\x1b]8;;\x1b\\";
    assert_eq!(visible_width(hyperlinked), 5);
}

#[test]
fn visible_width_counts_nerd_font_icons_as_two_cells() {
    // Most Nerd Font PUA codepoints have width 2; assert on a known glyph.
    let icon = "\u{f024b}"; // folder icon used by Directory segment
    assert_eq!(visible_width(icon), UnicodeWidthStr::width(icon));
}

#[test]
fn visible_width_handles_cjk() {
    // CJK ideographs are width 2 each.
    assert_eq!(visible_width("中文"), 4);
}

#[test]
fn normalize_segment_order_groups_by_group_order() {
    let mut cfg = Config {
        style: StyleConfig {
            mode: StyleMode::NerdFont,
            separator: " | ".to_string(),
        },
        // Intentionally scrambled: Activity -> Identity -> Time -> Place
        segments: vec![
            seg(SegmentId::Tools, None),
            seg(SegmentId::Model, None),
            seg(SegmentId::Session, None),
            seg(SegmentId::Directory, None),
        ],
        theme: String::new(),
    };
    cfg.normalize_segment_order();
    let groups: Vec<_> = cfg
        .segments
        .iter()
        .map(|s| SegmentGroup::of(&s.id))
        .collect();
    assert_eq!(
        groups,
        vec![
            SegmentGroup::Identity,
            SegmentGroup::Place,
            SegmentGroup::Time,
            SegmentGroup::Activity,
        ]
    );
}

#[test]
fn normalize_segment_order_preserves_intra_group_order() {
    let mut cfg = Config {
        style: StyleConfig {
            mode: StyleMode::NerdFont,
            separator: " | ".to_string(),
        },
        // Both Time group; user explicitly put ApiDuration before Session.
        // Stable sort must preserve that ordering.
        segments: vec![
            seg(SegmentId::ApiDuration, None),
            seg(SegmentId::Session, None),
            seg(SegmentId::Lines, None),
        ],
        theme: String::new(),
    };
    cfg.normalize_segment_order();
    let ids: Vec<_> = cfg.segments.iter().map(|s| s.id).collect();
    assert_eq!(
        ids,
        vec![SegmentId::ApiDuration, SegmentId::Session, SegmentId::Lines]
    );
}
