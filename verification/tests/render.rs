use ccometixline::config::{
    AnsiColor, ColorConfig, Config, IconConfig, SegmentConfig, SegmentId, StyleConfig, StyleMode,
    TextStyleConfig,
};
use ccometixline::segments::SegmentData;
use ccometixline::statusline::{colors_renderable, StatusLineGenerator};
use ccometixline::style::remove_resets;
use ccometixline::width::{strip_escapes, visible_width};

fn cfg(id: SegmentId, icon: &str, colors: ColorConfig, enabled: bool) -> SegmentConfig {
    SegmentConfig {
        id,
        enabled,
        icon: IconConfig {
            plain: icon.to_string(),
            nerd_font: format!("nf-{}", icon),
        },
        colors,
        styles: TextStyleConfig::default(),
        options: Vec::new(),
    }
}

fn no_colors() -> ColorConfig {
    ColorConfig {
        icon: None,
        text: None,
        background: None,
    }
}

fn data(primary: &str, secondary: &str) -> SegmentData {
    SegmentData {
        primary: primary.to_string(),
        secondary: secondary.to_string(),
        metadata: Vec::new(),
    }
}

fn generator(mode: StyleMode, sep: &str) -> StatusLineGenerator {
    StatusLineGenerator::new(Config {
        style: StyleConfig {
            mode,
            separator: sep.to_string(),
        },
        segments: Vec::new(),
        theme: String::new(),
    })
}

#[test]
fn generate_joins_enabled_segments_with_white_separators() {
    let g = generator(StyleMode::Plain, " | ");
    let red_icon = ColorConfig {
        icon: Some(AnsiColor::Color16 { c16: 1 }),
        text: None,
        background: None,
    };
    let line = g.generate(vec![
        (cfg(SegmentId::Model, "M", red_icon, true), data("opus", "")),
        (cfg(SegmentId::Cost, "$", no_colors(), false), data("1.00", "")),
        (cfg(SegmentId::Directory, "D", no_colors(), true), data("proj", "main")),
    ]);
    assert_eq!(line, "\x1b[31mM\x1b[0m opus\x1b[37m | \x1b[0mD proj main");
}

#[test]
fn generate_draws_powerline_arrows() {
    let g = generator(StyleMode::Plain, "\u{e0b0}");
    let blue_bg = ColorConfig {
        icon: None,
        text: None,
        background: Some(AnsiColor::Color16 { c16: 4 }),
    };
    let line = g.generate(vec![
        (cfg(SegmentId::Model, "M", blue_bg, true), data("opus", "")),
        (cfg(SegmentId::Directory, "D", no_colors(), true), data("proj", "")),
    ]);
    assert_eq!(
        line,
        "\x1b[44m M opus \x1b[49m\x1b[34m\u{e0b0}\x1b[0mD proj\x1b[0m"
    );
}

#[test]
fn generate_of_nothing_is_empty() {
    let g = generator(StyleMode::NerdFont, " | ");
    assert_eq!(g.generate(Vec::new()), "");
}

#[test]
fn render_segment_uses_dynamic_icon_and_bold_text() {
    let g = generator(StyleMode::NerdFont, " | ");
    let mut c = cfg(SegmentId::StopReason, "S", no_colors(), true);
    c.styles.text_bold = true;
    let mut d = data("end_turn", "");
    d.metadata.push(("dynamic_icon".to_string(), "!".to_string()));
    assert_eq!(g.render_segment(&c, &d), "! \x1b[1mend_turn\x1b[0m");
}

#[test]
fn colour_codes() {
    let g = generator(StyleMode::Plain, "");
    assert_eq!(g.color_to_foreground_code(&AnsiColor::Color16 { c16: 9 }), "\x1b[91m");
    assert_eq!(g.apply_background_color(&AnsiColor::Color256 { c256: 214 }), "\x1b[48;5;214m");
    assert_eq!(
        g.apply_style("x", Some(AnsiColor::Rgb { r: 1, g: 2, b: 3 }), true),
        "\x1b[1;38;2;1;2;3mx\x1b[0m"
    );
    assert_eq!(g.apply_color("x", None), "x");
    assert!(!colors_renderable(&ColorConfig {
        icon: Some(AnsiColor::Color16 { c16: 200 }),
        text: None,
        background: None,
    }));
}

#[test]
fn preview_wraps_between_segments() {
    let g = generator(StyleMode::Plain, " | ");
    let segs = || {
        vec![
            (cfg(SegmentId::Model, "A", no_colors(), true), data("x", "")),
            (cfg(SegmentId::Directory, "B", no_colors(), true), data("y", "")),
        ]
    };
    assert_eq!(g.preview_lines(segs(), 100), vec!["A x\x1b[37m | \x1b[0mB y".to_string()]);
    assert_eq!(g.preview_lines(segs(), 5), vec!["A x".to_string(), "B y".to_string()]);
    assert_eq!(g.preview_lines(Vec::new(), 5), Vec::<String>::new());
}

#[test]
fn preview_lines_with_two_segments_fit_the_width() {
    let g = generator(StyleMode::Plain, " | ");
    let segs = || {
        vec![
            (cfg(SegmentId::Model, "A", no_colors(), true), data("x", "")),
            (cfg(SegmentId::Directory, "B", no_colors(), true), data("y", "")),
            (cfg(SegmentId::Cost, "C", no_colors(), true), data("z", "")),
        ]
    };
    let lines = g.preview_lines(segs(), 9);
    assert_eq!(lines, vec!["A x\x1b[37m | \x1b[0mB y".to_string(), "C z".to_string()]);
    for line in &lines {
        assert!(visible_width(line) <= 9);
    }
    // A segment wider than the terminal stands alone.
    let lines = g.preview_lines(segs(), 2);
    assert_eq!(lines, vec!["A x".to_string(), "B y".to_string(), "C z".to_string()]);
}

#[test]
fn resets_and_escapes_are_removed() {
    assert_eq!(remove_resets("a\x1b[0mb\x1b[0"), "ab\x1b[0");
    assert_eq!(strip_escapes("\x1b[31mred\x1b[0m"), "red");
    assert_eq!(visible_width("\x1b[1m中文\x1b[0m"), 4);
}
