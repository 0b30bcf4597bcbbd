use vstd::prelude::*;

use crate::config::{
    AnsiColor, ColorConfig, IconConfig, OptionValue, SegmentConfig, SegmentId, TextStyleConfig,
};
use crate::segment_group::SegmentGroup;
use crate::statusline::colors_ok;
use vstd::string::StringExecFns;

verus! {

/// Nord palette per group: icon colour, text colour, background.
pub open spec fn nord_colors(group: SegmentGroup) -> (AnsiColor, AnsiColor, Option<AnsiColor>) {
    match group {
        SegmentGroup::Identity => (
            AnsiColor::Rgb { r: 46, g: 52, b: 64 },
            AnsiColor::Rgb { r: 46, g: 52, b: 64 },
            Some(AnsiColor::Rgb { r: 136, g: 192, b: 208 }),
        ),
        SegmentGroup::Place => (
            AnsiColor::Rgb { r: 46, g: 52, b: 64 },
            AnsiColor::Rgb { r: 46, g: 52, b: 64 },
            Some(AnsiColor::Rgb { r: 163, g: 190, b: 140 }),
        ),
        SegmentGroup::Tokens => (
            AnsiColor::Rgb { r: 46, g: 52, b: 64 },
            AnsiColor::Rgb { r: 46, g: 52, b: 64 },
            Some(AnsiColor::Rgb { r: 180, g: 142, b: 173 }),
        ),
        SegmentGroup::Quota => (
            AnsiColor::Rgb { r: 46, g: 52, b: 64 },
            AnsiColor::Rgb { r: 46, g: 52, b: 64 },
            Some(AnsiColor::Rgb { r: 235, g: 203, b: 139 }),
        ),
        SegmentGroup::Time => (
            AnsiColor::Rgb { r: 236, g: 239, b: 244 },
            AnsiColor::Rgb { r: 236, g: 239, b: 244 },
            Some(AnsiColor::Rgb { r: 129, g: 161, b: 193 }),
        ),
        SegmentGroup::Activity => (
            AnsiColor::Rgb { r: 236, g: 239, b: 244 },
            AnsiColor::Rgb { r: 236, g: 239, b: 244 },
            Some(AnsiColor::Rgb { r: 191, g: 97, b: 106 }),
        ),
        SegmentGroup::Other => (AnsiColor::Color16 { c16: 7 }, AnsiColor::Color16 { c16: 7 }, None),
    }
}

/// The Nord colours of a group.
pub fn group_colors(group: SegmentGroup) -> (r: (AnsiColor, AnsiColor, Option<AnsiColor>))
    ensures
        r == nord_colors(group),
{
    match group {
        SegmentGroup::Identity => (
            AnsiColor::Rgb { r: 46, g: 52, b: 64 },
            AnsiColor::Rgb { r: 46, g: 52, b: 64 },
            Some(AnsiColor::Rgb { r: 136, g: 192, b: 208 }),
        ),
        SegmentGroup::Place => (
            AnsiColor::Rgb { r: 46, g: 52, b: 64 },
            AnsiColor::Rgb { r: 46, g: 52, b: 64 },
            Some(AnsiColor::Rgb { r: 163, g: 190, b: 140 }),
        ),
        SegmentGroup::Tokens => (
            AnsiColor::Rgb { r: 46, g: 52, b: 64 },
            AnsiColor::Rgb { r: 46, g: 52, b: 64 },
            Some(AnsiColor::Rgb { r: 180, g: 142, b: 173 }),
        ),
        SegmentGroup::Quota => (
            AnsiColor::Rgb { r: 46, g: 52, b: 64 },
            AnsiColor::Rgb { r: 46, g: 52, b: 64 },
            Some(AnsiColor::Rgb { r: 235, g: 203, b: 139 }),
        ),
        SegmentGroup::Time => (
            AnsiColor::Rgb { r: 236, g: 239, b: 244 },
            AnsiColor::Rgb { r: 236, g: 239, b: 244 },
            Some(AnsiColor::Rgb { r: 129, g: 161, b: 193 }),
        ),
        SegmentGroup::Activity => (
            AnsiColor::Rgb { r: 236, g: 239, b: 244 },
            AnsiColor::Rgb { r: 236, g: 239, b: 244 },
            Some(AnsiColor::Rgb { r: 191, g: 97, b: 106 }),
        ),
        SegmentGroup::Other => (AnsiColor::Color16 { c16: 7 }, AnsiColor::Color16 { c16: 7 }, None),
    }
}

/// A Nord segment: the given kind, state and icons, the group's colours,
/// plain text style.
pub open spec fn nord_segment(
    c: SegmentConfig,
    id: SegmentId,
    group: SegmentGroup,
    enabled: bool,
    plain: Seq<char>,
    nerd_font: Seq<char>,
) -> bool {
    let (icon, text, bg) = nord_colors(group);
    &&& c.id == id
    &&& c.enabled == enabled
    &&& c.icon.plain@ == plain
    &&& c.icon.nerd_font@ == nerd_font
    &&& c.colors == ColorConfig { icon: Some(icon), text: Some(text), background: bg }
    &&& c.styles.text_bold == false
}

fn nord(
    id: SegmentId,
    group: SegmentGroup,
    enabled: bool,
    plain: &str,
    nerd_font: &str,
    options: Vec<(String, OptionValue)>,
) -> (c: SegmentConfig)
    ensures
        nord_segment(c, id, group, enabled, plain@, nerd_font@),
        c.options == options,
{
    let (icon, text, bg) = group_colors(group);
    SegmentConfig {
        id,
        enabled,
        icon: IconConfig { plain: String::from_str(plain), nerd_font: String::from_str(nerd_font) },
        colors: ColorConfig { icon: Some(icon), text: Some(text), background: bg },
        styles: TextStyleConfig::default(),
        options,
    }
}

/// Model segment of the Nord theme (enabled).
pub fn model_segment() -> (c: SegmentConfig)
    ensures
        nord_segment(c, SegmentId::Model, SegmentGroup::Identity, true, "🤖"@, "\u{e26d}"@),
        c.options@.len() == 0,
{
    nord(SegmentId::Model, SegmentGroup::Identity, true, "🤖", "\u{e26d}", Vec::new())
}

/// Directory segment of the Nord theme (enabled).
pub fn directory_segment() -> (c: SegmentConfig)
    ensures
        nord_segment(c, SegmentId::Directory, SegmentGroup::Place, true, "📁"@, "\u{f024b}"@),
        c.options@.len() == 0,
{
    nord(SegmentId::Directory, SegmentGroup::Place, true, "📁", "\u{f024b}", Vec::new())
}

/// Git segment of the Nord theme (enabled, commit hash hidden).
pub fn git_segment() -> (c: SegmentConfig)
    ensures
        nord_segment(c, SegmentId::Git, SegmentGroup::Place, true, "🌿"@, "\u{f02a2}"@),
        c.options@.len() == 1,
        c.options@[0].0@ == "show_sha"@,
        c.options@[0].1 == OptionValue::Bool(false),
{
    let mut opts: Vec<(String, OptionValue)> = Vec::new();
    opts.push((String::from_str("show_sha"), OptionValue::Bool(false)));
    nord(SegmentId::Git, SegmentGroup::Place, true, "🌿", "\u{f02a2}", opts)
}

/// Context-window segment of the Nord theme (enabled).
pub fn context_window_segment() -> (c: SegmentConfig)
    ensures
        nord_segment(c, SegmentId::ContextWindow, SegmentGroup::Tokens, true, "⚡️"@, "\u{f49b}"@),
        c.options@.len() == 0,
{
    nord(SegmentId::ContextWindow, SegmentGroup::Tokens, true, "⚡️", "\u{f49b}", Vec::new())
}

/// Cost segment of the Nord theme (disabled).
pub fn cost_segment() -> (c: SegmentConfig)
    ensures
        nord_segment(c, SegmentId::Cost, SegmentGroup::Quota, false, "💰"@, "\u{eec1}"@),
        c.options@.len() == 0,
{
    nord(SegmentId::Cost, SegmentGroup::Quota, false, "💰", "\u{eec1}", Vec::new())
}

/// Session segment of the Nord theme (disabled).
pub fn session_segment() -> (c: SegmentConfig)
    ensures
        nord_segment(c, SegmentId::Session, SegmentGroup::Time, false, "⏱️"@, "\u{f19bb}"@),
        c.options@.len() == 0,
{
    nord(SegmentId::Session, SegmentGroup::Time, false, "⏱️", "\u{f19bb}", Vec::new())
}

/// Output-style segment of the Nord theme (disabled).
pub fn output_style_segment() -> (c: SegmentConfig)
    ensures
        nord_segment(c, SegmentId::OutputStyle, SegmentGroup::Identity, false, "🎯"@, "\u{f12f5}"@),
        c.options@.len() == 0,
{
    nord(SegmentId::OutputStyle, SegmentGroup::Identity, false, "🎯", "\u{f12f5}", Vec::new())
}

/// Usage segment of the Nord theme (disabled): API base URL, a cache
/// duration of 180 seconds and a timeout of 2 seconds.
pub fn usage_segment() -> (c: SegmentConfig)
    ensures
        nord_segment(c, SegmentId::Usage, SegmentGroup::Quota, false, "📊"@, "\u{f0a9e}"@),
        c.options@.len() == 3,
        c.options@[0].0@ == "api_base_url"@,
        c.options@[0].1 matches OptionValue::Text(s) && s@ == "https://api.anthropic.com"@,
        c.options@[1].0@ == "cache_duration"@,
        c.options@[1].1 matches OptionValue::Number(s) && s@ == "180"@,
        c.options@[2].0@ == "timeout"@,
        c.options@[2].1 matches OptionValue::Number(s) && s@ == "2"@,
{
    let mut opts: Vec<(String, OptionValue)> = Vec::new();
    opts.push(
        (
            String::from_str("api_base_url"),
            OptionValue::Text(String::from_str("https://api.anthropic.com")),
        ),
    );
    opts.push((String::from_str("cache_duration"), OptionValue::Number(String::from_str("180"))));
    opts.push((String::from_str("timeout"), OptionValue::Number(String::from_str("2"))));
    nord(SegmentId::Usage, SegmentGroup::Quota, false, "📊", "\u{f0a9e}", opts)
}

/// API-duration segment of the Nord theme (disabled).
pub fn api_duration_segment() -> (c: SegmentConfig)
    ensures
        nord_segment(c, SegmentId::ApiDuration, SegmentGroup::Time, false, "🤖"@, "\u{f06a9}"@),
        c.options@.len() == 0,
{
    nord(SegmentId::ApiDuration, SegmentGroup::Time, false, "🤖", "\u{f06a9}", Vec::new())
}

/// Lines segment of the Nord theme (disabled).
pub fn lines_segment() -> (c: SegmentConfig)
    ensures
        nord_segment(c, SegmentId::Lines, SegmentGroup::Time, false, "±"@, "\u{f0992}"@),
        c.options@.len() == 0,
{
    nord(SegmentId::Lines, SegmentGroup::Time, false, "±", "\u{f0992}", Vec::new())
}

/// Cache-hit segment of the Nord theme (disabled).
pub fn cache_hit_segment() -> (c: SegmentConfig)
    ensures
        nord_segment(c, SegmentId::CacheHit, SegmentGroup::Tokens, false, "💾"@, "\u{f0aa9}"@),
        c.options@.len() == 0,
{
    nord(SegmentId::CacheHit, SegmentGroup::Tokens, false, "💾", "\u{f0aa9}", Vec::new())
}

/// Turns segment of the Nord theme (disabled).
pub fn turns_segment() -> (c: SegmentConfig)
    ensures
        nord_segment(c, SegmentId::Turns, SegmentGroup::Activity, false, "💬"@, "\u{f0369}"@),
        c.options@.len() == 0,
{
    nord(SegmentId::Turns, SegmentGroup::Activity, false, "💬", "\u{f0369}", Vec::new())
}

/// Tools segment of the Nord theme (disabled).
pub fn tools_segment() -> (c: SegmentConfig)
    ensures
        nord_segment(c, SegmentId::Tools, SegmentGroup::Activity, false, "🔧"@, "\u{f1064}"@),
        c.options@.len() == 0,
{
    nord(SegmentId::Tools, SegmentGroup::Activity, false, "🔧", "\u{f1064}", Vec::new())
}

/// Stop-reason segment of the Nord theme (disabled).
pub fn stop_reason_segment() -> (c: SegmentConfig)
    ensures
        nord_segment(c, SegmentId::StopReason, SegmentGroup::Activity, false, "?"@, "\u{f02d6}"@),
        c.options@.len() == 0,
{
    nord(SegmentId::StopReason, SegmentGroup::Activity, false, "?", "\u{f02d6}", Vec::new())
}

/// Tool-success segment of the Nord theme (disabled).
pub fn tool_success_segment() -> (c: SegmentConfig)
    ensures
        nord_segment(c, SegmentId::ToolSuccess, SegmentGroup::Activity, false, "✓"@, "\u{f05e0}"@),
        c.options@.len() == 0,
{
    nord(SegmentId::ToolSuccess, SegmentGroup::Activity, false, "✓", "\u{f05e0}", Vec::new())
}

/// Every Nord segment can be rendered: its colours fit the escape codes.
pub proof fn lemma_nord_colors_renderable(group: SegmentGroup)
    ensures
        colors_ok(
            ColorConfig {
                icon: Some(nord_colors(group).0),
                text: Some(nord_colors(group).1),
                background: nord_colors(group).2,
            },
        ),
{
}

} // verus!
