use vstd::prelude::*;

use crate::config::{
    as_text, lookup, lookup_entry, same_config, AnsiColor, ColorConfig, Config, IconConfig,
    InputData, OptionValue, SegmentConfig, SegmentId, StyleMode,
};
use crate::segment_group::{group_of, SegmentGroup};
use crate::segments::{
    api_duration_view, cache_hit_view, clone_data, data_view, lines_view, opt_view,
    stop_reason_view, tool_success_view, tools_view, turns_view, ApiDurationSegment,
    CacheHitSegment, DataView, LinesSegment, Segment, SegmentData, StopReasonSegment,
    ToolSuccessSegment, ToolsSegment, TurnsSegment,
};
use crate::style::{
    bg_code, bg_ok, colored, fg_code, fg_ok, fg_ok_opt, push_bg_params, push_fg_params,
    remove_resets, reset, sgr, strip_resets, style_params, styled,
};
use crate::text::{push_str, str_eq};
use crate::width::{visible_width, visible_width_of};
use vstd::string::StringExecFns;

verus! {

/// Turns configured segments and their data into the status line.
pub struct StatusLineGenerator {
    config: Config,
}

/// The colours of a segment can be written as escape codes: text and icon
/// colours as foreground, the background as both foreground and background.
pub open spec fn colors_ok(c: ColorConfig) -> bool {
    &&& fg_ok_opt(c.icon)
    &&& fg_ok_opt(c.text)
    &&& (c.background matches Some(b) ==> fg_ok(b) && bg_ok(b))
}

/// The icon of a segment in the given style mode.
pub open spec fn icon_for_mode(mode: StyleMode, icon: IconConfig) -> Seq<char> {
    match mode {
        StyleMode::Plain => icon.plain@,
        StyleMode::NerdFont => icon.nerd_font@,
        StyleMode::Powerline => icon.nerd_font@,
    }
}

/// The icon shown for a segment: its data's `dynamic_icon` if set,
/// otherwise the configured icon.
pub open spec fn shown_icon(mode: StyleMode, cfg: SegmentConfig, data: SegmentData) -> Seq<char> {
    match lookup(data.metadata@, "dynamic_icon"@) {
        Some(v) => v@,
        None => icon_for_mode(mode, cfg.icon),
    }
}

/// A rendered segment.  With a background colour, the whole segment sits on
/// that background, padded with spaces, and inner resets are dropped so the
/// background holds; without one, icon and texts are coloured one by one.
pub open spec fn rendered(mode: StyleMode, cfg: SegmentConfig, data: SegmentData) -> Seq<char> {
    let icon = shown_icon(mode, cfg, data);
    let tc = cfg.colors.text;
    let bold = cfg.styles.text_bold;
    match cfg.colors.background {
        Some(bg) => {
            let ic = match cfg.colors.icon {
                Some(c) => strip_resets(colored(icon, Some(c))),
                None => icon,
            };
            let body = " "@ + ic + " "@ + strip_resets(styled(data.primary@, tc, bold)) + " "@;
            let full = if data.secondary@.len() == 0 {
                body
            } else {
                body + strip_resets(styled(data.secondary@, tc, bold)) + " "@
            };
            bg_code(bg) + full + "\x1b[49m"@
        },
        None => {
            let base = colored(icon, cfg.colors.icon) + " "@ + styled(data.primary@, tc, bold);
            if data.secondary@.len() == 0 {
                base
            } else {
                base + " "@ + styled(data.secondary@, tc, bold)
            }
        },
    }
}

/// The separator drawn before segment `cur` when it follows `prev`: the
/// segment's own `separator_before` option if it is a string; nothing when
/// the theme separator is empty; ` · ` inside a group; otherwise the theme
/// separator.
pub open spec fn separator_between(
    global: Seq<char>,
    cur: SegmentConfig,
    prev: SegmentConfig,
) -> Seq<char> {
    match as_text(lookup(cur.options@, "separator_before"@)) {
        Some(s) => s,
        None => if global.len() == 0 {
            Seq::empty()
        } else if group_of(cur.id) == group_of(prev.id) {
            " · "@
        } else {
            global
        },
    }
}

/// The Powerline arrow between two segments: its foreground is the previous
/// segment's background, its background the current one's.
pub open spec fn arrow(prev: Option<AnsiColor>, curr: Option<AnsiColor>) -> Seq<char> {
    match (prev, curr) {
        (Some(p), Some(c)) => bg_code(c) + fg_code(p) + "\u{e0b0}"@ + reset(),
        (Some(p), None) => fg_code(p) + "\u{e0b0}"@ + reset(),
        (None, Some(c)) => bg_code(c) + "\u{e0b0}"@ + reset(),
        (None, None) => "\u{e0b0}"@,
    }
}

impl StatusLineGenerator {
    /// A generator for the given configuration.
    pub fn new(config: Config) -> (r: Self)
        ensures
            r.configuration() == config,
    {
        StatusLineGenerator { config }
    }

    /// The configuration the generator uses.
    pub closed spec fn configuration(&self) -> Config {
        self.config
    }

    /// The configured icon in the current style mode.
    pub fn get_icon(&self, config: &SegmentConfig) -> (r: String)
        ensures
            r@ == icon_for_mode(self.configuration().style.mode, config.icon),
    {
        match self.config.style.mode {
            StyleMode::Plain => config.icon.plain.clone(),
            StyleMode::NerdFont => config.icon.nerd_font.clone(),
            StyleMode::Powerline => config.icon.nerd_font.clone(),
        }
    }

    /// `text` in the given foreground colour, followed by a reset.
    pub fn apply_color(&self, text: &str, color: Option<AnsiColor>) -> (r: String)
        requires
            fg_ok_opt(color),
        ensures
            r@ == colored(text@, color),
    {
        match color {
            Some(c) => {
                let mut s = String::new();
                push_str(&mut s, "\x1b[");
                push_fg_params(&mut s, &c);
                push_str(&mut s, "m");
                push_str(&mut s, text);
                push_str(&mut s, "\x1b[0m");
                s
            },
            None => String::from_str(text),
        }
    }

    /// `text` with optional bold and foreground colour.
    pub fn apply_style(&self, text: &str, color: Option<AnsiColor>, bold: bool) -> (r: String)
        requires
            fg_ok_opt(color),
        ensures
            r@ == styled(text@, color, bold),
    {
        if !bold && color.is_none() {
            return String::from_str(text);
        }
        let mut s = String::new();
        push_str(&mut s, "\x1b[");
        let ghost s0 = s@;
        match color {
            Some(c) => {
                if bold {
                    push_str(&mut s, "1;");
                }
                push_fg_params(&mut s, &c);
            },
            None => {
                push_str(&mut s, "1");
            },
        }
        assert(s@ == s0 + style_params(color, bold));
        push_str(&mut s, "m");
        push_str(&mut s, text);
        push_str(&mut s, "\x1b[0m");
        s
    }

    /// The escape code that sets `color` as background.
    pub fn apply_background_color(&self, color: &AnsiColor) -> (r: String)
        requires
            bg_ok(*color),
        ensures
            r@ == bg_code(*color),
    {
        let mut s = String::new();
        push_str(&mut s, "\x1b[");
        push_bg_params(&mut s, color);
        push_str(&mut s, "m");
        s
    }

    /// The escape code that sets `color` as foreground.
    pub fn color_to_foreground_code(&self, color: &AnsiColor) -> (r: String)
        requires
            fg_ok(*color),
        ensures
            r@ == fg_code(*color),
    {
        let mut s = String::new();
        push_str(&mut s, "\x1b[");
        push_fg_params(&mut s, color);
        push_str(&mut s, "m");
        s
    }

    /// The Powerline arrow between segments with backgrounds `prev_bg` and
    /// `curr_bg`.
    pub fn create_powerline_arrow(
        &self,
        prev_bg: Option<AnsiColor>,
        curr_bg: Option<AnsiColor>,
    ) -> (r: String)
        requires
            fg_ok_opt(prev_bg),
            curr_bg matches Some(c) ==> bg_ok(c),
        ensures
            r@ == arrow(prev_bg, curr_bg),
    {
        let arrow_char = "\u{e0b0}";
        match (prev_bg, curr_bg) {
            (Some(prev), Some(curr)) => {
                let mut s = self.apply_background_color(&curr);
                let fg = self.color_to_foreground_code(&prev);
                push_str(&mut s, fg.as_str());
                push_str(&mut s, arrow_char);
                push_str(&mut s, "\x1b[0m");
                s
            },
            (Some(prev), None) => {
                let mut s = self.color_to_foreground_code(&prev);
                push_str(&mut s, arrow_char);
                push_str(&mut s, "\x1b[0m");
                s
            },
            (None, Some(curr)) => {
                let mut s = self.apply_background_color(&curr);
                push_str(&mut s, arrow_char);
                push_str(&mut s, "\x1b[0m");
                s
            },
            (None, None) => String::from_str(arrow_char),
        }
    }

    /// The separator drawn before `cur` when it follows `prev`.
    pub fn decide_separator(&self, cur: &SegmentConfig, prev: &SegmentConfig) -> (r: String)
        ensures
            r@ == separator_between(self.configuration().style.separator@, *cur, *prev),
    {
        if let Some(v) = lookup_entry(&cur.options, "separator_before") {
            if let OptionValue::Text(s) = v {
                return s.clone();
            }
        }
        if self.config.style.separator.as_str().unicode_len() == 0 {
            return String::new();
        }
        if SegmentGroup::of(&cur.id) == SegmentGroup::of(&prev.id) {
            String::from_str(" · ")
        } else {
            self.config.style.separator.clone()
        }
    }

    /// Renders one segment.
    pub fn render_segment(&self, config: &SegmentConfig, data: &SegmentData) -> (r: String)
        requires
            colors_ok(config.colors),
        ensures
            r@ == rendered(self.configuration().style.mode, *config, *data),
    {
        let icon = match lookup_entry(&data.metadata, "dynamic_icon") {
            Some(v) => v.clone(),
            None => self.get_icon(config),
        };
        let tc = config.colors.text;
        let bold = config.styles.text_bold;
        if let Some(bg) = config.colors.background {
            let bg_code = self.apply_background_color(&bg);
            let icon_colored = match config.colors.icon {
                Some(c) => remove_resets(self.apply_color(icon.as_str(), Some(c)).as_str()),
                None => icon.clone(),
            };
            let text_styled = remove_resets(
                self.apply_style(data.primary.as_str(), tc, bold).as_str(),
            );
            let mut content = String::new();
            push_str(&mut content, " ");
            push_str(&mut content, icon_colored.as_str());
            push_str(&mut content, " ");
            push_str(&mut content, text_styled.as_str());
            push_str(&mut content, " ");
            if data.secondary.as_str().unicode_len() != 0 {
                let secondary_styled = remove_resets(
                    self.apply_style(data.secondary.as_str(), tc, bold).as_str(),
                );
                push_str(&mut content, secondary_styled.as_str());
                push_str(&mut content, " ");
            }
            let mut s = bg_code;
            push_str(&mut s, content.as_str());
            push_str(&mut s, "\x1b[49m");
            s
        } else {
            let mut s = self.apply_color(icon.as_str(), config.colors.icon);
            push_str(&mut s, " ");
            let text_styled = self.apply_style(data.primary.as_str(), tc, bold);
            push_str(&mut s, text_styled.as_str());
            if data.secondary.as_str().unicode_len() != 0 {
                push_str(&mut s, " ");
                let secondary_styled = self.apply_style(data.secondary.as_str(), tc, bold);
                push_str(&mut s, secondary_styled.as_str());
            }
            s
        }
    }
}

/// The texts of a list of strings.
pub open spec fn texts(v: Seq<String>) -> Seq<Seq<char>> {
    v.map_values(|s: String| s@)
}

/// Rendered segments joined by white separators chosen by
/// `separator_between`.
pub open spec fn white_joined(
    global: Seq<char>,
    r: Seq<Seq<char>>,
    cfgs: Seq<SegmentConfig>,
) -> Seq<char>
    decreases r.len(),
{
    if r.len() == 0 {
        Seq::empty()
    } else if r.len() == 1 {
        r[0]
    } else {
        white_joined(global, r.drop_last(), cfgs) + "\x1b[37m"@ + separator_between(
            global,
            cfgs[r.len() - 1],
            cfgs[r.len() - 2],
        ) + reset() + r.last()
    }
}

/// The background colour of configuration `i`, none past the end.
pub open spec fn bg_at(cfgs: Seq<SegmentConfig>, i: int) -> Option<AnsiColor> {
    if 0 <= i < cfgs.len() {
        cfgs[i].colors.background
    } else {
        None
    }
}

/// Rendered segments with a Powerline arrow between neighbours.
pub open spec fn arrow_chain(r: Seq<Seq<char>>, cfgs: Seq<SegmentConfig>) -> Seq<char>
    decreases r.len(),
{
    if r.len() == 0 {
        Seq::empty()
    } else if r.len() == 1 {
        r[0]
    } else {
        arrow_chain(r.drop_last(), cfgs) + arrow(
            bg_at(cfgs, r.len() - 2),
            bg_at(cfgs, r.len() - 1),
        ) + r.last()
    }
}

/// Rendered segments joined by Powerline arrows; with more than one
/// segment, a final reset follows.
pub open spec fn powerline_joined(r: Seq<Seq<char>>, cfgs: Seq<SegmentConfig>) -> Seq<char> {
    if r.len() <= 1 {
        arrow_chain(r, cfgs)
    } else {
        arrow_chain(r, cfgs) + reset()
    }
}

/// All configurations can be written as escape codes.
pub open spec fn all_colors_ok(cfgs: Seq<SegmentConfig>) -> bool {
    forall|i: int| 0 <= i < cfgs.len() ==> #[trigger] colors_ok(cfgs[i].colors)
}

impl StatusLineGenerator {
    /// Joins rendered segments with white separators.
    pub fn join_with_white_separators(
        &self,
        rendered_segments: &Vec<String>,
        configs: &Vec<SegmentConfig>,
    ) -> (r: String)
        requires
            configs@.len() >= rendered_segments@.len(),
        ensures
            r@ == white_joined(
                self.configuration().style.separator@,
                texts(rendered_segments@),
                configs@,
            ),
    {
        let n = rendered_segments.len();
        let ghost g = self.config.style.separator@;
        let ghost t = texts(rendered_segments@);
        if n == 0 {
            return String::new();
        }
        let mut result = rendered_segments[0].clone();
        assert(t.take(1).len() == 1);
        for i in 1..n
            invariant
                n == rendered_segments@.len(),
                t == texts(rendered_segments@),
                g == self.config.style.separator@,
                configs@.len() >= n,
                result@ == white_joined(g, t.take(i as int), configs@),
        {
            let sep = self.decide_separator(&configs[i], &configs[i - 1]);
            push_str(&mut result, "\x1b[37m");
            push_str(&mut result, sep.as_str());
            push_str(&mut result, "\x1b[0m");
            push_str(&mut result, rendered_segments[i].as_str());
            assert(t.take(i + 1).drop_last() == t.take(i as int));
            assert(t.take(i + 1).last() == rendered_segments@[i as int]@);
        }
        assert(t.take(n as int) == t);
        result
    }

    /// Joins rendered segments with Powerline arrows whose colours follow
    /// the neighbouring backgrounds.
    pub fn join_with_powerline_arrows(
        &self,
        rendered_segments: &Vec<String>,
        segment_configs: &Vec<SegmentConfig>,
    ) -> (r: String)
        requires
            all_colors_ok(segment_configs@),
        ensures
            r@ == powerline_joined(texts(rendered_segments@), segment_configs@),
    {
        let n = rendered_segments.len();
        let ghost t = texts(rendered_segments@);
        if n == 0 {
            return String::new();
        }
        if n == 1 {
            return rendered_segments[0].clone();
        }
        let mut result = rendered_segments[0].clone();
        assert(t.take(1).len() == 1);
        for i in 1..n
            invariant
                n == rendered_segments@.len(),
                t == texts(rendered_segments@),
                all_colors_ok(segment_configs@),
                result@ == arrow_chain(t.take(i as int), segment_configs@),
        {
            let prev_bg = if i - 1 < segment_configs.len() {
                segment_configs[i - 1].colors.background
            } else {
                None
            };
            let curr_bg = if i < segment_configs.len() {
                segment_configs[i].colors.background
            } else {
                None
            };
            proof {
                if i - 1 < segment_configs@.len() {
                    assert(colors_ok(segment_configs@[i - 1].colors));
                }
                if i < segment_configs@.len() {
                    assert(colors_ok(segment_configs@[i as int].colors));
                }
            }
            let arrow = self.create_powerline_arrow(prev_bg, curr_bg);
            push_str(&mut result, arrow.as_str());
            push_str(&mut result, rendered_segments[i].as_str());
            assert(t.take(i + 1).drop_last() == t.take(i as int));
            assert(t.take(i + 1).last() == rendered_segments@[i as int]@);
        }
        assert(t.take(n as int) == t);
        push_str(&mut result, "\x1b[0m");
        result
    }
}

/// The enabled segments, in order.
pub open spec fn enabled_only(
    s: Seq<(SegmentConfig, SegmentData)>,
) -> Seq<(SegmentConfig, SegmentData)>
    decreases s.len(),
{
    if s.len() == 0 {
        s
    } else if s.last().0.enabled {
        enabled_only(s.drop_last()).push(s.last())
    } else {
        enabled_only(s.drop_last())
    }
}

/// The configurations of a list of segments.
pub open spec fn configs_of(e: Seq<(SegmentConfig, SegmentData)>) -> Seq<SegmentConfig> {
    e.map_values(|p: (SegmentConfig, SegmentData)| p.0)
}

/// The rendered texts of a list of segments.
pub open spec fn renders(mode: StyleMode, e: Seq<(SegmentConfig, SegmentData)>) -> Seq<Seq<char>> {
    e.map_values(|p: (SegmentConfig, SegmentData)| rendered(mode, p.0, p.1))
}

/// The status line: the enabled segments rendered and joined, with
/// Powerline arrows when the theme separator is the arrow glyph, otherwise
/// with white separators.
pub open spec fn status_line(cfg: Config, s: Seq<(SegmentConfig, SegmentData)>) -> Seq<char> {
    let e = enabled_only(s);
    if e.len() == 0 {
        Seq::empty()
    } else if cfg.style.separator@ == "\u{e0b0}"@ {
        powerline_joined(renders(cfg.style.mode, e), configs_of(e))
    } else {
        white_joined(cfg.style.separator@, renders(cfg.style.mode, e), configs_of(e))
    }
}

/// Every enabled segment's colours can be written as escape codes.
pub open spec fn enabled_colors_ok(s: Seq<(SegmentConfig, SegmentData)>) -> bool {
    forall|i: int| 0 <= i < s.len() && #[trigger] s[i].0.enabled ==> colors_ok(s[i].0.colors)
}

/// A rendered segment is never empty.
pub proof fn lemma_rendered_nonempty(mode: StyleMode, cfg: SegmentConfig, data: SegmentData)
    ensures
        rendered(mode, cfg, data).len() > 0,
{
    reveal_strlit(" ");
    reveal_strlit("\x1b[49m");
}

impl StatusLineGenerator {
    /// The status line for the given segments.
    pub fn generate(&self, segments: Vec<(SegmentConfig, SegmentData)>) -> (r: String)
        requires
            enabled_colors_ok(segments@),
        ensures
            r@ == status_line(self.configuration(), segments@),
    {
        let ghost orig = segments@;
        let ghost mode = self.config.style.mode;
        let mut cfgs: Vec<SegmentConfig> = Vec::new();
        let mut datas: Vec<SegmentData> = Vec::new();
        for pair in it: segments.into_iter()
            invariant
                it.seq() == orig,
                enabled_colors_ok(orig),
                cfgs@.len() == datas@.len(),
                cfgs@.len() == enabled_only(orig.take(it.index() as int)).len(),
                forall|j: int| 0 <= j < cfgs@.len() ==> cfgs@[j] == #[trigger] enabled_only(orig.take(it.index() as int))[j].0,
                forall|j: int| 0 <= j < cfgs@.len() ==> datas@[j] == #[trigger] enabled_only(orig.take(it.index() as int))[j].1,
                all_colors_ok(cfgs@),
        {
            let ghost i = it.index() as int;
            assert(orig.take(i + 1).drop_last() == orig.take(i));
            assert(orig.take(i + 1).last() == pair);
            let (c, d) = pair;
            if c.enabled {
                assert(orig[i].0.enabled);
                cfgs.push(c);
                datas.push(d);
            }
        }
        assert(orig.take(orig.len() as int) == orig);
        let ghost e = enabled_only(orig);
        let n = cfgs.len();
        let mut output: Vec<String> = Vec::new();
        for i in 0..n
            invariant
                n == cfgs@.len(),
                n == datas@.len(),
                n == e.len(),
                forall|j: int| 0 <= j < n ==> cfgs@[j] == #[trigger] e[j].0,
                forall|j: int| 0 <= j < n ==> datas@[j] == #[trigger] e[j].1,
                all_colors_ok(cfgs@),
                mode == self.config.style.mode,
                texts(output@) == renders(mode, e).take(i as int),
        {
            assert(colors_ok(cfgs@[i as int].colors));
            let rendered_text = self.render_segment(&cfgs[i], &datas[i]);
            proof {
                lemma_rendered_nonempty(mode, cfgs@[i as int], datas@[i as int]);
            }
            assert(rendered_text@ == renders(mode, e)[i as int]);
            let ghost before = output@;
            if rendered_text.as_str().unicode_len() != 0 {
                output.push(rendered_text);
            }
            assert(output@ == before.push(rendered_text));
            assert(texts(output@) =~= texts(before).push(renders(mode, e)[i as int]));
            assert(renders(mode, e).take(i + 1) =~= renders(mode, e).take(i as int).push(
                renders(mode, e)[i as int],
            ));
        }
        assert(renders(mode, e).take(n as int) == renders(mode, e));
        assert(cfgs@ =~= configs_of(e));
        if output.len() == 0 {
            return String::new();
        }
        if str_eq(self.config.style.separator.as_str(), "\u{e0b0}") {
            self.join_with_powerline_arrows(&output, &cfgs)
        } else {
            self.join_with_white_separators(&output, &cfgs)
        }
    }
}

/// The separator the preview draws between segment `i` and `i + 1`.
pub open spec fn preview_separator(cfg: Config, cfgs: Seq<SegmentConfig>, i: int) -> Seq<char> {
    if cfg.style.separator@ == "\u{e0b0}"@ {
        arrow(bg_at(cfgs, i), bg_at(cfgs, i + 1))
    } else {
        "\x1b[37m"@ + separator_between(cfg.style.separator@, cfgs[i + 1], cfgs[i]) + reset()
    }
}

/// Progress of the preview's line wrapping: finished lines, the line being
/// filled, and its visible width (the sum of the widths of the segments and
/// separators on it); for each finished line, that width and the number of
/// segments on it, and the number of segments on the current line.
pub struct WrapState {
    pub lines: Seq<Seq<char>>,
    pub current: Seq<char>,
    pub width: int,
    pub widths: Seq<int>,
    pub counts: Seq<int>,
    pub on_line: int,
}

/// The current line ends; a new, empty one begins.
pub open spec fn break_line(st: WrapState) -> WrapState {
    WrapState {
        lines: st.lines.push(st.current),
        current: Seq::empty(),
        width: 0,
        widths: st.widths.push(st.width),
        counts: st.counts.push(st.on_line),
        on_line: 0,
    }
}

/// Places segment `i`.  A segment that does not fit on a non-empty line
/// starts a new one; after it, the separator is added only when the
/// separator and the next segment both fit, otherwise the line ends.
pub open spec fn wrap_step(
    st: WrapState,
    segs: Seq<Seq<char>>,
    seps: Seq<Seq<char>>,
    i: int,
    max: int,
) -> WrapState {
    let sw = visible_width_of(segs[i]) as int;
    let st1 = if st.width > 0 && st.width + sw > max {
        break_line(st)
    } else {
        st
    };
    let st2 = WrapState {
        current: st1.current + segs[i],
        width: st1.width + sw,
        on_line: st1.on_line + 1,
        ..st1
    };
    if i < seps.len() && i + 1 < segs.len() {
        let pw = visible_width_of(seps[i]) as int;
        let nw = visible_width_of(segs[i + 1]) as int;
        if st2.width + pw + nw <= max {
            WrapState { current: st2.current + seps[i], width: st2.width + pw, ..st2 }
        } else {
            break_line(st2)
        }
    } else {
        st2
    }
}

/// The wrapping state after placing the first `k` segments.
pub open spec fn wrap_state(segs: Seq<Seq<char>>, seps: Seq<Seq<char>>, max: int, k: int) -> WrapState
    decreases k,
{
    if k <= 0 {
        WrapState {
            lines: Seq::empty(),
            current: Seq::empty(),
            width: 0,
            widths: Seq::empty(),
            counts: Seq::empty(),
            on_line: 0,
        }
    } else {
        wrap_step(wrap_state(segs, seps, max, k - 1), segs, seps, k - 1, max)
    }
}

/// The wrapped lines: every segment placed, and a last line that is not
/// empty kept.
pub open spec fn wrapped_lines(segs: Seq<Seq<char>>, seps: Seq<Seq<char>>, max: int) -> Seq<
    Seq<char>,
> {
    let st = wrap_state(segs, seps, max, segs.len() as int);
    if st.current.len() != 0 {
        st.lines.push(st.current)
    } else {
        st.lines
    }
}

/// For each wrapped line, its counted width and the number of segments on
/// it.
pub open spec fn wrapped_sizes(segs: Seq<Seq<char>>, seps: Seq<Seq<char>>, max: int) -> Seq<
    (int, int),
> {
    let st = wrap_state(segs, seps, max, segs.len() as int);
    let done = Seq::new(st.widths.len(), |j: int| (st.widths[j], st.counts[j]));
    if st.current.len() != 0 {
        done.push((st.width, st.on_line))
    } else {
        done
    }
}

/// What holds of the wrapping state after `k` segments: each finished line
/// holds a segment, and holds more than one only within `max`; the current
/// line is empty when it holds no segment, is within `max` when it holds
/// two or more, and has room for the next segment when it holds any.
pub open spec fn wrap_ok(segs: Seq<Seq<char>>, st: WrapState, max: int, k: int) -> bool {
    &&& st.widths.len() == st.lines.len()
    &&& st.counts.len() == st.lines.len()
    &&& forall|j: int|
        0 <= j < st.lines.len() ==> #[trigger] st.counts[j] >= 1 && (st.counts[j] == 1
            || st.widths[j] <= max)
    &&& st.on_line >= 0
    &&& st.width >= 0
    &&& (st.on_line == 0 ==> st.width == 0 && st.current.len() == 0)
    &&& (st.on_line >= 2 ==> st.width <= max)
    &&& (k < segs.len() && st.on_line >= 1 ==> st.width + visible_width_of(segs[k]) as int <= max)
}

proof fn lemma_wrap_ok(segs: Seq<Seq<char>>, seps: Seq<Seq<char>>, max: int, k: int)
    requires
        0 <= k <= segs.len(),
        segs.len() <= seps.len() + 1,
    ensures
        wrap_ok(segs, wrap_state(segs, seps, max, k), max, k),
    decreases k,
{
    if k > 0 {
        let i = k - 1;
        lemma_wrap_ok(segs, seps, max, i);
        let st = wrap_state(segs, seps, max, i);
        let sw = visible_width_of(segs[i]) as int;
        assert(!(st.width > 0 && st.width + sw > max));
        let st2 = WrapState {
            current: st.current + segs[i],
            width: st.width + sw,
            on_line: st.on_line + 1,
            ..st
        };
        assert(wrap_state(segs, seps, max, k) == wrap_step(st, segs, seps, i, max));
        if i + 1 < segs.len() {
            let pw = visible_width_of(seps[i]) as int;
            let nw = visible_width_of(segs[i + 1]) as int;
            if st2.width + pw + nw <= max {
            } else {
                let b = break_line(st2);
                assert forall|j: int| 0 <= j < b.lines.len() implies #[trigger] b.counts[j] >= 1
                    && (b.counts[j] == 1 || b.widths[j] <= max) by {
                    if j < st2.lines.len() {
                        assert(b.counts[j] == st2.counts[j]);
                    }
                }
            }
        }
    }
}

/// The preview wraps only between segments, and a line wider than the
/// terminal holds a single segment: every line holds at least one segment,
/// and a line with two or more takes at most `max` cells (its segments'
/// and separators' widths summed).
pub proof fn lemma_wrapped_lines_fit(segs: Seq<Seq<char>>, seps: Seq<Seq<char>>, max: int)
    requires
        segs.len() <= seps.len() + 1,
    ensures
        wrapped_sizes(segs, seps, max).len() == wrapped_lines(segs, seps, max).len(),
        forall|j: int|
            0 <= j < wrapped_sizes(segs, seps, max).len() ==> (#[trigger] wrapped_sizes(
                segs,
                seps,
                max,
            )[j]).1 >= 1 && (wrapped_sizes(segs, seps, max)[j].1 == 1 || wrapped_sizes(
                segs,
                seps,
                max,
            )[j].0 <= max),
{
    let n = segs.len() as int;
    lemma_wrap_ok(segs, seps, max, n);
    let st = wrap_state(segs, seps, max, n);
    let w = wrapped_sizes(segs, seps, max);
    assert forall|j: int| 0 <= j < w.len() implies #[trigger] w[j].1 >= 1 && (w[j].1 == 1
        || w[j].0 <= max) by {
        if j < st.lines.len() {
            assert(w[j] == (st.widths[j], st.counts[j]));
        }
    }
}

/// The lines of the configuration preview for a terminal `max` cells wide:
/// the enabled segments rendered, separated as on the status line, and
/// wrapped between segments.
pub open spec fn preview(cfg: Config, s: Seq<(SegmentConfig, SegmentData)>, max: int) -> Seq<
    Seq<char>,
> {
    let e = enabled_only(s);
    wrapped_lines(renders(cfg.style.mode, e), preview_seps(cfg, e), max)
}

/// The separators of the preview between neighbouring enabled segments.
pub open spec fn preview_seps(cfg: Config, e: Seq<(SegmentConfig, SegmentData)>) -> Seq<Seq<char>> {
    Seq::new(
        (if e.len() == 0 { 0 } else { e.len() - 1 }) as nat,
        |i: int| preview_separator(cfg, configs_of(e), i),
    )
}

impl StatusLineGenerator {
    /// The enabled segments' configurations and data, and their rendered
    /// texts.
    fn render_enabled(&self, segments: Vec<(SegmentConfig, SegmentData)>) -> (r: (
        Vec<SegmentConfig>,
        Vec<String>,
    ))
        requires
            enabled_colors_ok(segments@),
        ensures
            r.0@ == configs_of(enabled_only(segments@)),
            texts(r.1@) == renders(self.configuration().style.mode, enabled_only(segments@)),
            all_colors_ok(r.0@),
    {
        let ghost orig = segments@;
        let ghost mode = self.config.style.mode;
        let mut cfgs: Vec<SegmentConfig> = Vec::new();
        let mut datas: Vec<SegmentData> = Vec::new();
        for pair in it: segments.into_iter()
            invariant
                it.seq() == orig,
                enabled_colors_ok(orig),
                cfgs@.len() == datas@.len(),
                cfgs@.len() == enabled_only(orig.take(it.index() as int)).len(),
                forall|j: int| 0 <= j < cfgs@.len() ==> cfgs@[j] == #[trigger] enabled_only(orig.take(it.index() as int))[j].0,
                forall|j: int| 0 <= j < cfgs@.len() ==> datas@[j] == #[trigger] enabled_only(orig.take(it.index() as int))[j].1,
                all_colors_ok(cfgs@),
        {
            let ghost i = it.index() as int;
            assert(orig.take(i + 1).drop_last() == orig.take(i));
            assert(orig.take(i + 1).last() == pair);
            let (c, d) = pair;
            if c.enabled {
                assert(orig[i].0.enabled);
                cfgs.push(c);
                datas.push(d);
            }
        }
        assert(orig.take(orig.len() as int) == orig);
        let ghost e = enabled_only(orig);
        let n = cfgs.len();
        let mut output: Vec<String> = Vec::new();
        for i in 0..n
            invariant
                n == cfgs@.len(),
                n == datas@.len(),
                n == e.len(),
                forall|j: int| 0 <= j < n ==> cfgs@[j] == #[trigger] e[j].0,
                forall|j: int| 0 <= j < n ==> datas@[j] == #[trigger] e[j].1,
                all_colors_ok(cfgs@),
                mode == self.config.style.mode,
                texts(output@) == renders(mode, e).take(i as int),
        {
            assert(colors_ok(cfgs@[i as int].colors));
            let rendered_text = self.render_segment(&cfgs[i], &datas[i]);
            assert(rendered_text@ == renders(mode, e)[i as int]);
            let ghost before = output@;
            output.push(rendered_text);
            assert(texts(output@) =~= texts(before).push(renders(mode, e)[i as int]));
            assert(renders(mode, e).take(i + 1) =~= renders(mode, e).take(i as int).push(
                renders(mode, e)[i as int],
            ));
        }
        assert(renders(mode, e).take(n as int) == renders(mode, e));
        assert(cfgs@ =~= configs_of(e));
        (cfgs, output)
    }

    /// The separators between neighbouring rendered segments, as the
    /// preview draws them.
    fn preview_separators(&self, cfgs: &Vec<SegmentConfig>, count: usize) -> (r: Vec<String>)
        requires
            all_colors_ok(cfgs@),
            count <= cfgs@.len(),
        ensures
            r@.len() == (if count == 0 { 0 } else { count - 1 }),
            forall|i: int| 0 <= i < r@.len() ==> #[trigger] r@[i]@ == preview_separator(
                self.configuration(),
                cfgs@,
                i,
            ),
    {
        let mut seps: Vec<String> = Vec::new();
        if count == 0 {
            return seps;
        }
        let is_arrow = str_eq(self.config.style.separator.as_str(), "\u{e0b0}");
        for i in 0..count - 1
            invariant
                all_colors_ok(cfgs@),
                count <= cfgs@.len(),
                count > 0,
                is_arrow == (self.config.style.separator@ == "\u{e0b0}"@),
                seps@.len() == i,
                forall|j: int| 0 <= j < i ==> #[trigger] seps@[j]@ == preview_separator(
                    self.config,
                    cfgs@,
                    j,
                ),
        {
            let sep = if is_arrow {
                assert(colors_ok(cfgs@[i as int].colors));
                assert(colors_ok(cfgs@[i + 1].colors));
                self.create_powerline_arrow(
                    cfgs[i].colors.background,
                    cfgs[i + 1].colors.background,
                )
            } else {
                let d = self.decide_separator(&cfgs[i + 1], &cfgs[i]);
                let mut s = String::new();
                push_str(&mut s, "\x1b[37m");
                push_str(&mut s, d.as_str());
                push_str(&mut s, "\x1b[0m");
                s
            };
            seps.push(sep);
        }
        seps
    }

    /// The preview of the status line for a terminal `max_width` cells
    /// wide, as lines of text with escape sequences.  Segments never split;
    /// a segment wider than the terminal gets a line of its own.
    pub fn preview_lines(
        &self,
        segments: Vec<(SegmentConfig, SegmentData)>,
        max_width: u16,
    ) -> (r: Vec<String>)
        requires
            enabled_colors_ok(segments@),
        ensures
            texts(r@) == preview(self.configuration(), segments@, max_width as int),
    {
        let ghost orig = segments@;
        let (cfgs, rendered_segments) = self.render_enabled(segments);
        let n = rendered_segments.len();
        assert(texts(rendered_segments@).len() == rendered_segments@.len());
        assert(cfgs@.len() == enabled_only(orig).len());
        let separators = self.preview_separators(&cfgs, n);
        let ghost segs = texts(rendered_segments@);
        let ghost seps = texts(separators@);
        let ghost max = max_width as int;
        proof {
            let e = enabled_only(orig);
            assert(seps =~= preview_seps(self.config, e));
        }
        let mut lines: Vec<String> = Vec::new();
        let mut current_line = String::new();
        let mut current_width: u128 = 0;
        let max_w = max_width as u128;
        assert(texts(lines@) =~= Seq::<Seq<char>>::empty());
        for i in 0..n
            invariant
                n == rendered_segments@.len(),
                segs == texts(rendered_segments@),
                seps == texts(separators@),
                separators@.len() == (if n == 0 { 0 } else { n - 1 }),
                max == max_w,
                max_w <= u16::MAX,
                current_width <= u64::MAX,
                wrap_state(segs, seps, max, i as int).lines == texts(lines@),
                wrap_state(segs, seps, max, i as int).current == current_line@,
                wrap_state(segs, seps, max, i as int).width == current_width as int,
        {
            let segment = &rendered_segments[i];
            let segment_width = visible_width(segment.as_str()) as u128;
            let ghost before_lines = lines@;
            if current_width > 0 && current_width + segment_width > max_w {
                lines.push(current_line);
                current_line = String::new();
                current_width = 0;
                assert(texts(lines@) =~= texts(before_lines).push(
                    wrap_state(segs, seps, max, i as int).current,
                ));
            }
            push_str(&mut current_line, segment.as_str());
            current_width = current_width + segment_width;
            if i < separators.len() && i + 1 < n {
                let separator = &separators[i];
                let separator_width = visible_width(separator.as_str()) as u128;
                let next_width = visible_width(rendered_segments[i + 1].as_str()) as u128;
                if current_width + separator_width + next_width <= max_w {
                    push_str(&mut current_line, separator.as_str());
                    current_width = current_width + separator_width;
                } else {
                    let ghost mid = lines@;
                    lines.push(current_line);
                    current_line = String::new();
                    current_width = 0;
                    assert(texts(lines@) =~= texts(mid).push(
                        texts(lines@).last(),
                    ));
                }
            }
            assert(wrap_state(segs, seps, max, i + 1).lines == texts(lines@));
            assert(wrap_state(segs, seps, max, i + 1).current == current_line@);
        }
        if current_line.as_str().unicode_len() != 0 {
            let ghost before = lines@;
            lines.push(current_line);
            assert(texts(lines@) =~= texts(before).push(texts(lines@).last()));
        }
        lines
    }
}

/// The first data collected elsewhere for segment kind `id`.
pub open spec fn collected_for(collected: Seq<(SegmentId, SegmentData)>, id: SegmentId) -> Option<
    DataView,
>
    decreases collected.len(),
{
    if collected.len() == 0 {
        None
    } else if collected[0].0 == id {
        Some(data_view(collected[0].1))
    } else {
        collected_for(collected.drop_first(), id)
    }
}

/// The data of a segment kind: computed here for the kinds this crate
/// implements, taken from `collected` for the others (model, directory,
/// git, context window, usage, cost, session, output style, update).
pub open spec fn segment_view(
    id: SegmentId,
    input: InputData,
    collected: Seq<(SegmentId, SegmentData)>,
) -> Option<DataView> {
    match id {
        SegmentId::ApiDuration => api_duration_view(input),
        SegmentId::Lines => lines_view(input),
        SegmentId::CacheHit => cache_hit_view(input),
        SegmentId::Turns => turns_view(input),
        SegmentId::Tools => tools_view(input),
        SegmentId::StopReason => stop_reason_view(input),
        SegmentId::ToolSuccess => tool_success_view(input),
        _ => collected_for(collected, id),
    }
}

/// The enabled configured segments that have data, with that data, in
/// configuration order.
pub open spec fn collection(
    cfgs: Seq<SegmentConfig>,
    input: InputData,
    collected: Seq<(SegmentId, SegmentData)>,
) -> Seq<(SegmentConfig, DataView)>
    decreases cfgs.len(),
{
    if cfgs.len() == 0 {
        Seq::empty()
    } else {
        let prev = collection(cfgs.drop_last(), input, collected);
        let c = cfgs.last();
        if !c.enabled {
            prev
        } else {
            match segment_view(c.id, input, collected) {
                Some(v) => prev.push((c, v)),
                None => prev,
            }
        }
    }
}

fn find_collected(collected: &Vec<(SegmentId, SegmentData)>, id: SegmentId) -> (r: Option<
    SegmentData,
>)
    ensures
        opt_view(r) == collected_for(collected@, id),
{
    let n = collected.len();
    assert(collected@.skip(0) == collected@);
    for i in 0..n
        invariant
            n == collected@.len(),
            collected_for(collected@, id) == collected_for(collected@.skip(i as int), id),
    {
        assert(collected@.skip(i as int).drop_first() == collected@.skip(i + 1));
        if collected[i].0 == id {
            return Some(clone_data(&collected[i].1));
        }
    }
    None
}

/// The data of one enabled segment.
fn collect_segment(
    id: SegmentId,
    input: &InputData,
    collected: &Vec<(SegmentId, SegmentData)>,
) -> (r: Option<SegmentData>)
    ensures
        opt_view(r) == segment_view(id, *input, collected@),
{
    match id {
        SegmentId::ApiDuration => ApiDurationSegment::new().collect(input),
        SegmentId::Lines => LinesSegment::new().collect(input),
        SegmentId::CacheHit => CacheHitSegment::new().collect(input),
        SegmentId::Turns => TurnsSegment::new().collect(input),
        SegmentId::Tools => ToolsSegment::new().collect(input),
        SegmentId::StopReason => StopReasonSegment::new().collect(input),
        SegmentId::ToolSuccess => ToolSuccessSegment::new().collect(input),
        _ => find_collected(collected, id),
    }
}

/// Collects the data of every enabled segment, in configuration order;
/// segments without data are left out.  `collected` holds the data of the
/// segment kinds whose sources live outside this crate.
pub fn collect_all_segments(
    config: &Config,
    input: &InputData,
    collected: &Vec<(SegmentId, SegmentData)>,
) -> (r: Vec<(SegmentConfig, SegmentData)>)
    ensures
        r@.len() == collection(config.segments@, *input, collected@).len(),
        forall|i: int|
            0 <= i < r@.len() ==> same_config(
                #[trigger] r@[i].0,
                collection(config.segments@, *input, collected@)[i].0,
            ) && data_view(r@[i].1) == collection(config.segments@, *input, collected@)[i].1,
{
    let mut results: Vec<(SegmentConfig, SegmentData)> = Vec::new();
    let n = config.segments.len();
    for k in 0..n
        invariant
            n == config.segments@.len(),
            results@.len() == collection(config.segments@.take(k as int), *input, collected@).len(),
            forall|i: int|
                0 <= i < results@.len() ==> same_config(
                    #[trigger] results@[i].0,
                    collection(config.segments@.take(k as int), *input, collected@)[i].0,
                ) && data_view(results@[i].1) == collection(
                    config.segments@.take(k as int),
                    *input,
                    collected@,
                )[i].1,
    {
        let ghost p = config.segments@.take(k + 1);
        assert(p.drop_last() == config.segments@.take(k as int));
        assert(p.last() == config.segments@[k as int]);
        let segment_config = &config.segments[k];
        if segment_config.enabled {
            if let Some(data) = collect_segment(segment_config.id, input, collected) {
                results.push((segment_config.clone(), data));
            }
        }
    }
    assert(config.segments@.take(n as int) == config.segments@);
    results
}

/// Total visible width of the first `k` texts.
pub open spec fn width_sum(v: Seq<Seq<char>>, k: int) -> int
    decreases k,
{
    if k <= 0 {
        0
    } else {
        width_sum(v, k - 1) + visible_width_of(v[k - 1]) as int
    }
}

proof fn lemma_width_sum_mono(v: Seq<Seq<char>>, a: int, b: int)
    requires
        0 <= a <= b,
    ensures
        width_sum(v, a) <= width_sum(v, b),
    decreases b - a,
{
    if a < b {
        lemma_width_sum_mono(v, a, b - 1);
    }
}

proof fn lemma_wrap_fits(
    segs: Seq<Seq<char>>,
    seps: Seq<Seq<char>>,
    max: int,
    k: int,
    g: Seq<char>,
    cfgs: Seq<SegmentConfig>,
)
    requires
        1 <= k <= segs.len(),
        seps.len() == segs.len() - 1,
        forall|i: int|
            0 <= i < seps.len() ==> #[trigger] seps[i] == "\x1b[37m"@ + separator_between(
                g,
                cfgs[i + 1],
                cfgs[i],
            ) + reset(),
        width_sum(segs, segs.len() as int) + width_sum(seps, seps.len() as int) <= max,
    ensures
        wrap_state(segs, seps, max, k).lines == Seq::<Seq<char>>::empty(),
        wrap_state(segs, seps, max, k).current == white_joined(g, segs.take(k), cfgs) + (if k
            < segs.len() {
            seps[k - 1]
        } else {
            Seq::empty()
        }),
        wrap_state(segs, seps, max, k).width == width_sum(segs, k) + width_sum(
            seps,
            if k < segs.len() { k } else { k - 1 },
        ),
    decreases k,
{
    let n = segs.len() as int;
    lemma_width_sum_mono(segs, k, n);
    lemma_width_sum_mono(seps, if k < n { k } else { k - 1 }, n - 1);
    if k == 1 {
        assert(segs.take(1).len() == 1);
        assert(white_joined(g, segs.take(1), cfgs) == segs[0]);
        let st0 = wrap_state(segs, seps, max, 0);
        assert(st0.current + segs[0] =~= segs[0]);
        if n > 1 {
            lemma_width_sum_mono(segs, 2, n);
            lemma_width_sum_mono(seps, 1, n - 1);
        }
        assert(segs[0] + Seq::<char>::empty() =~= segs[0]);
        assert(width_sum(segs, 0) == 0);
        assert(width_sum(seps, 0) == 0);
        assert(width_sum(segs, 1) == visible_width_of(segs[0]) as int);
    } else {
        lemma_wrap_fits(segs, seps, max, k - 1, g, cfgs);
        let i = k - 1;
        let prev = wrap_state(segs, seps, max, i);
        assert(prev.width + visible_width_of(segs[i]) as int <= max) by {
            lemma_width_sum_mono(seps, i, n - 1);
        }
        let t = segs.take(k);
        assert(t.drop_last() == segs.take(i));
        assert(t.last() == segs[i]);
        assert(t[t.len() - 1] == segs[i]);
        let wj = white_joined(g, segs.take(i), cfgs);
        assert(seps[i - 1] == "\x1b[37m"@ + separator_between(g, cfgs[i], cfgs[i - 1]) + reset());
        assert(white_joined(g, t, cfgs) == wj + "\x1b[37m"@ + separator_between(g, cfgs[i], cfgs[i - 1])
            + reset() + segs[i]);
        assert(prev.current + segs[i] =~= white_joined(g, t, cfgs));
        if k < n {
            assert(width_sum(segs, k + 1) + width_sum(seps, k) <= max) by {
                lemma_width_sum_mono(segs, k + 1, n);
                lemma_width_sum_mono(seps, k, n - 1);
            }
        } else {
            assert(white_joined(g, t, cfgs) + Seq::<char>::empty() =~= white_joined(g, t, cfgs));
        }
    }
}

/// On a terminal wide enough for the whole line, the preview of a theme
/// with a plain separator is one line, the status line itself: preview and
/// status line draw the same separators.
pub proof fn lemma_wide_preview_is_status_line(
    cfg: Config,
    s: Seq<(SegmentConfig, SegmentData)>,
    max: int,
)
    requires
        cfg.style.separator@ != "\u{e0b0}"@,
        enabled_only(s).len() > 0,
        width_sum(renders(cfg.style.mode, enabled_only(s)), enabled_only(s).len() as int)
            + width_sum(preview_seps(cfg, enabled_only(s)), enabled_only(s).len() - 1) <= max,
    ensures
        preview(cfg, s, max) == seq![status_line(cfg, s)],
{
    let e = enabled_only(s);
    let r = renders(cfg.style.mode, e);
    let seps = preview_seps(cfg, e);
    let n = r.len() as int;
    lemma_wrap_fits(r, seps, max, n, cfg.style.separator@, configs_of(e));
    assert(r.take(n) == r);
    lemma_rendered_nonempty(cfg.style.mode, e[0].0, e[0].1);
    lemma_white_joined_nonempty(cfg.style.separator@, r, configs_of(e));
}

proof fn lemma_white_joined_nonempty(g: Seq<char>, r: Seq<Seq<char>>, cfgs: Seq<SegmentConfig>)
    requires
        r.len() > 0,
        r[0].len() > 0,
    ensures
        white_joined(g, r, cfgs).len() > 0,
    decreases r.len(),
{
    if r.len() > 1 {
        lemma_white_joined_nonempty(g, r.drop_last(), cfgs);
    }
}

fn fg_fits(c: Option<AnsiColor>) -> (r: bool)
    ensures
        r == fg_ok_opt(c),
{
    match c {
        Some(AnsiColor::Color16 { c16 }) => c16 <= 173,
        _ => true,
    }
}

/// Whether a segment's colours can be written as escape codes (a basic
/// colour index beyond the escape-code range cannot).
pub fn colors_renderable(c: &ColorConfig) -> (r: bool)
    ensures
        r == colors_ok(*c),
{
    let bg_fits = match c.background {
        Some(AnsiColor::Color16 { c16 }) => c16 <= 163,
        _ => true,
    };
    fg_fits(c.icon) && fg_fits(c.text) && bg_fits
}

/// Every disabled segment is left out of the collection, and every
/// collected segment is a configured one.
pub proof fn lemma_collection_enabled(
    cfgs: Seq<SegmentConfig>,
    input: InputData,
    collected: Seq<(SegmentId, SegmentData)>,
)
    ensures
        collection(cfgs, input, collected).len() <= cfgs.len(),
        forall|i: int|
            0 <= i < collection(cfgs, input, collected).len() ==> (#[trigger] collection(
                cfgs,
                input,
                collected,
            )[i]).0.enabled && cfgs.contains(collection(cfgs, input, collected)[i].0),
    decreases cfgs.len(),
{
    if cfgs.len() > 0 {
        let p = cfgs.drop_last();
        lemma_collection_enabled(p, input, collected);
        let c = collection(cfgs, input, collected);
        let q = collection(p, input, collected);
        assert forall|i: int| 0 <= i < c.len() implies (#[trigger] c[i]).0.enabled && cfgs.contains(
            c[i].0,
        ) by {
            if i < q.len() {
                assert(c[i] == q[i]);
                let j = choose|j: int| 0 <= j < p.len() && p[j] == q[i].0;
                assert(cfgs[j] == p[j]);
            } else {
                assert(cfgs[cfgs.len() - 1] == cfgs.last());
            }
        }
    }
}

/// The Powerline arrow continues the previous segment into the next one:
/// the glyph is drawn in the previous segment's background colour (as
/// foreground) on the current segment's background; a side without a
/// background sets no colour, and every coloured arrow ends with a reset.
pub proof fn lemma_arrow_colours(p: AnsiColor, c: AnsiColor)
    ensures
        arrow(Some(p), Some(c)) == "\x1b["@ + crate::style::bg_params(c) + "m"@ + "\x1b["@
            + crate::style::fg_params(p) + "m"@ + seq!['\u{e0b0}'] + seq!['\x1b', '[', '0', 'm'],
        arrow(Some(p), None) == "\x1b["@ + crate::style::fg_params(p) + "m"@ + seq!['\u{e0b0}']
            + seq!['\x1b', '[', '0', 'm'],
        arrow(None, Some(c)) == "\x1b["@ + crate::style::bg_params(c) + "m"@ + seq!['\u{e0b0}']
            + seq!['\x1b', '[', '0', 'm'],
        arrow(None, None) == seq!['\u{e0b0}'],
{
    reveal_strlit("\u{e0b0}");
    reveal_strlit("\x1b[0m");
    assert("\u{e0b0}"@ =~= seq!['\u{e0b0}']);
    assert(reset() =~= seq!['\x1b', '[', '0', 'm']);
}

/// On a Powerline status line of two segments that both have backgrounds,
/// the arrow between them is drawn in the first segment's background colour
/// on the second segment's background, and the line ends with a reset.
pub proof fn lemma_powerline_pair(r0: Seq<char>, r1: Seq<char>, c0: SegmentConfig, c1: SegmentConfig, p: AnsiColor, c: AnsiColor)
    requires
        c0.colors.background == Some(p),
        c1.colors.background == Some(c),
    ensures
        powerline_joined(seq![r0, r1], seq![c0, c1]) == r0 + ("\x1b["@ + crate::style::bg_params(c)
            + "m"@ + "\x1b["@ + crate::style::fg_params(p) + "m"@ + seq!['\u{e0b0}'] + seq![
            '\x1b',
            '[',
            '0',
            'm',
        ]) + r1 + seq!['\x1b', '[', '0', 'm'],
{
    lemma_arrow_colours(p, c);
    reveal_strlit("\x1b[0m");
    assert(reset() =~= seq!['\x1b', '[', '0', 'm']);
    let r = seq![r0, r1];
    let cfgs = seq![c0, c1];
    assert(r.drop_last() =~= seq![r0]);
    assert(arrow_chain(seq![r0], cfgs) == r0);
    assert(bg_at(cfgs, 0) == Some(p));
    assert(bg_at(cfgs, 1) == Some(c));
    assert(arrow_chain(r, cfgs) == arrow_chain(seq![r0], cfgs) + arrow(Some(p), Some(c)) + r1);
}

} // verus!
