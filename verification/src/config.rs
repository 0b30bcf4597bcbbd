use vstd::prelude::*;

use crate::text::str_eq;
use crate::transcript::TranscriptStats;

verus! {

/// Identifies one kind of status-line segment.
#[derive(Clone, Copy, Debug, PartialEq, Eq, Structural, Hash)]
pub enum SegmentId {
    Model,
    Directory,
    Git,
    ContextWindow,
    Usage,
    Cost,
    Session,
    OutputStyle,
    Update,
    ApiDuration,
    Lines,
    CacheHit,
    Turns,
    Tools,
    StopReason,
    ToolSuccess,
}

/// How icons are drawn.
#[derive(Clone, Copy, Debug, PartialEq, Eq, Structural)]
pub enum StyleMode {
    Plain,
    NerdFont,
    Powerline,
}

/// A terminal colour: one of the 16 basic colours, one of the 256 palette
/// colours, or a 24-bit colour.
#[derive(Clone, Copy, Debug, PartialEq, Eq, Structural)]
pub enum AnsiColor {
    Color16 { c16: u8 },
    Color256 { c256: u8 },
    Rgb { r: u8, g: u8, b: u8 },
}

/// The icon of a segment in plain and in Nerd Font style.
#[derive(Debug)]
pub struct IconConfig {
    pub plain: String,
    pub nerd_font: String,
}

/// Colours of a segment's icon, text and background.
#[derive(Clone, Copy, Debug, PartialEq, Eq, Structural)]
pub struct ColorConfig {
    pub icon: Option<AnsiColor>,
    pub text: Option<AnsiColor>,
    pub background: Option<AnsiColor>,
}

/// Text attributes of a segment.
#[derive(Clone, Copy, Debug, PartialEq, Eq, Structural)]
pub struct TextStyleConfig {
    pub text_bold: bool,
}

impl Default for TextStyleConfig {
    fn default() -> (r: Self)
        ensures
            r.text_bold == false,
    {
        TextStyleConfig { text_bold: false }
    }
}

/// The value of one free-form segment option.  Numbers and composite values
/// are kept as their JSON text.
#[derive(Debug)]
pub enum OptionValue {
    Null,
    Bool(bool),
    Number(String),
    Text(String),
    Composite(String),
}

/// Configuration of one segment.
#[derive(Debug)]
pub struct SegmentConfig {
    pub id: SegmentId,
    pub enabled: bool,
    pub icon: IconConfig,
    pub colors: ColorConfig,
    pub styles: TextStyleConfig,
    /// Option entries; each key occurs at most once.
    pub options: Vec<(String, OptionValue)>,
}

/// Global style of the status line.
#[derive(Debug)]
pub struct StyleConfig {
    pub mode: StyleMode,
    pub separator: String,
}

/// The whole configuration.
#[derive(Debug)]
pub struct Config {
    pub style: StyleConfig,
    pub segments: Vec<SegmentConfig>,
    pub theme: String,
}

/// Cost figures that the host application reports on its status-line input.
#[derive(Clone, Copy, Debug, PartialEq, Eq, Structural)]
pub struct CostData {
    pub total_api_duration_ms: Option<u64>,
    pub total_lines_added: Option<u64>,
    pub total_lines_removed: Option<u64>,
}

impl Clone for IconConfig {
    fn clone(&self) -> (r: Self)
        ensures
            r == *self,
    {
        IconConfig { plain: self.plain.clone(), nerd_font: self.nerd_font.clone() }
    }
}

impl Clone for OptionValue {
    fn clone(&self) -> (r: Self)
        ensures
            r == *self,
    {
        match self {
            OptionValue::Null => OptionValue::Null,
            OptionValue::Bool(b) => OptionValue::Bool(*b),
            OptionValue::Number(s) => OptionValue::Number(s.clone()),
            OptionValue::Text(s) => OptionValue::Text(s.clone()),
            OptionValue::Composite(s) => OptionValue::Composite(s.clone()),
        }
    }
}

/// A copy of a list of option entries.
pub fn clone_options(v: &Vec<(String, OptionValue)>) -> (r: Vec<(String, OptionValue)>)
    ensures
        r@ == v@,
{
    let mut r: Vec<(String, OptionValue)> = Vec::new();
    let n = v.len();
    for i in 0..n
        invariant
            n == v@.len(),
            r@ == v@.take(i as int),
    {
        let k = v[i].0.clone();
        let x = v[i].1.clone();
        r.push((k, x));
        assert(r@ == v@.take((i + 1) as int));
    }
    assert(v@.take(n as int) == v@);
    r
}

/// Two segment configurations hold the same values.
pub open spec fn same_config(a: SegmentConfig, b: SegmentConfig) -> bool {
    &&& a.id == b.id
    &&& a.enabled == b.enabled
    &&& a.icon == b.icon
    &&& a.colors == b.colors
    &&& a.styles == b.styles
    &&& a.options@ == b.options@
}

impl Clone for SegmentConfig {
    fn clone(&self) -> (r: Self)
        ensures
            same_config(r, *self),
    {
        SegmentConfig {
            id: self.id,
            enabled: self.enabled,
            icon: self.icon.clone(),
            colors: self.colors,
            styles: self.styles,
            options: clone_options(&self.options),
        }
    }
}

/// The value stored under `key` in a list of entries (the first match).
pub open spec fn lookup<V>(entries: Seq<(String, V)>, key: Seq<char>) -> Option<V>
    decreases entries.len(),
{
    if entries.len() == 0 {
        None
    } else if entries[0].0@ == key {
        Some(entries[0].1)
    } else {
        lookup(entries.drop_first(), key)
    }
}

/// Looks a key up in a list of entries.
pub fn lookup_entry<'a, V>(entries: &'a Vec<(String, V)>, key: &str) -> (r: Option<&'a V>)
    ensures
        match r {
            Some(v) => lookup(entries@, key@) == Some(*v),
            None => lookup(entries@, key@) is None,
        },
{
    let n = entries.len();
    assert(entries@.skip(0) == entries@);
    for i in 0..n
        invariant
            n == entries@.len(),
            lookup(entries@, key@) == lookup(entries@.skip(i as int), key@),
    {
        assert(entries@.skip(i as int).drop_first() == entries@.skip(i + 1));
        if str_eq(entries[i].0.as_str(), key) {
            return Some(&entries[i].1);
        }
    }
    None
}

/// The text of an option that holds a string (`Value::as_str`).
pub open spec fn as_text(v: Option<OptionValue>) -> Option<Seq<char>> {
    match v {
        Some(OptionValue::Text(s)) => Some(s@),
        _ => None,
    }
}

/// The truth value of an option that holds a boolean (`Value::as_bool`).
pub open spec fn as_flag(v: Option<OptionValue>) -> Option<bool> {
    match v {
        Some(OptionValue::Bool(b)) => Some(b),
        _ => None,
    }
}

/// A rate in percent as the status line prints it: rounded to a whole
/// number and to two decimals (`{:.0}` and `{:.2}` of the floating-point
/// rate).
#[derive(Debug)]
pub struct RateText {
    pub whole: String,
    pub hundredths: String,
}

/// What the segments of this crate read from one status-line request.
#[derive(Debug)]
pub struct InputData {
    /// Cost figures reported by the host application.
    pub cost: Option<CostData>,
    /// Totals of the session transcript, when it could be read.
    pub transcript: Option<TranscriptStats>,
    /// The cache hit rate of `transcript`, printed.
    pub cache_hit_rate: Option<RateText>,
    /// The tool success rate of `transcript`, printed.
    pub tool_success_rate: Option<RateText>,
}

/// Command-line options.
#[derive(Debug)]
pub struct Cli {
    /// Enter the configuration screen.
    pub config: bool,
    /// Theme to use instead of the configured one.
    pub theme: Option<String>,
    /// Path of the host application's `cli.js` to patch.
    pub patch: Option<String>,
    /// Overwrite the built-in theme files with the current defaults.
    pub reset_themes: bool,
}

/// The name of a segment kind as `{:?}` prints it.
pub open spec fn id_name(id: SegmentId) -> Seq<char> {
    match id {
        SegmentId::Model => "Model"@,
        SegmentId::Directory => "Directory"@,
        SegmentId::Git => "Git"@,
        SegmentId::ContextWindow => "ContextWindow"@,
        SegmentId::Usage => "Usage"@,
        SegmentId::Cost => "Cost"@,
        SegmentId::Session => "Session"@,
        SegmentId::OutputStyle => "OutputStyle"@,
        SegmentId::Update => "Update"@,
        SegmentId::ApiDuration => "ApiDuration"@,
        SegmentId::Lines => "Lines"@,
        SegmentId::CacheHit => "CacheHit"@,
        SegmentId::Turns => "Turns"@,
        SegmentId::Tools => "Tools"@,
        SegmentId::StopReason => "StopReason"@,
        SegmentId::ToolSuccess => "ToolSuccess"@,
    }
}

/// The name of a segment kind on the configuration screen.
pub open spec fn id_display_name(id: SegmentId) -> Seq<char> {
    match id {
        SegmentId::Model => "Model"@,
        SegmentId::Directory => "Directory"@,
        SegmentId::Git => "Git"@,
        SegmentId::ContextWindow => "Context Window"@,
        SegmentId::Usage => "Usage"@,
        SegmentId::Cost => "Cost"@,
        SegmentId::Session => "Session"@,
        SegmentId::OutputStyle => "Output Style"@,
        SegmentId::Update => "Update"@,
        SegmentId::ApiDuration => "API Duration"@,
        SegmentId::Lines => "Lines"@,
        SegmentId::CacheHit => "Cache Hit"@,
        SegmentId::Turns => "Turns"@,
        SegmentId::Tools => "Tools"@,
        SegmentId::StopReason => "Stop Reason"@,
        SegmentId::ToolSuccess => "Tool Success"@,
    }
}

impl SegmentId {
    /// The variant name of the segment kind.
    pub fn name(&self) -> (r: &'static str)
        ensures
            r@ == id_name(*self),
    {
        match self {
            SegmentId::Model => "Model",
            SegmentId::Directory => "Directory",
            SegmentId::Git => "Git",
            SegmentId::ContextWindow => "ContextWindow",
            SegmentId::Usage => "Usage",
            SegmentId::Cost => "Cost",
            SegmentId::Session => "Session",
            SegmentId::OutputStyle => "OutputStyle",
            SegmentId::Update => "Update",
            SegmentId::ApiDuration => "ApiDuration",
            SegmentId::Lines => "Lines",
            SegmentId::CacheHit => "CacheHit",
            SegmentId::Turns => "Turns",
            SegmentId::Tools => "Tools",
            SegmentId::StopReason => "StopReason",
            SegmentId::ToolSuccess => "ToolSuccess",
        }
    }

    /// The name shown on the configuration screen.
    pub fn display_name(&self) -> (r: &'static str)
        ensures
            r@ == id_display_name(*self),
    {
        match self {
            SegmentId::Model => "Model",
            SegmentId::Directory => "Directory",
            SegmentId::Git => "Git",
            SegmentId::ContextWindow => "Context Window",
            SegmentId::Usage => "Usage",
            SegmentId::Cost => "Cost",
            SegmentId::Session => "Session",
            SegmentId::OutputStyle => "Output Style",
            SegmentId::Update => "Update",
            SegmentId::ApiDuration => "API Duration",
            SegmentId::Lines => "Lines",
            SegmentId::CacheHit => "Cache Hit",
            SegmentId::Turns => "Turns",
            SegmentId::Tools => "Tools",
            SegmentId::StopReason => "Stop Reason",
            SegmentId::ToolSuccess => "Tool Success",
        }
    }
}

} // verus!
