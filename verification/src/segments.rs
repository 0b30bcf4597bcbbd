use vstd::prelude::*;

use crate::config::{InputData, RateText, SegmentId};
use crate::text::{dec, decimal, push_decimal, push_str, str_eq};
use crate::transcript::TranscriptStats;
use vstd::string::StringExecFns;

verus! {

/// What a segment shows: a primary text, an optional secondary text, and
/// named values for renderers (such as `dynamic_icon`).
#[derive(Debug)]
pub struct SegmentData {
    pub primary: String,
    pub secondary: String,
    /// Named values; each name occurs at most once.
    pub metadata: Vec<(String, String)>,
}

/// A source of one kind of segment.
pub trait Segment {
    /// The segment's data for this input, if it has any to show.
    fn collect(&self, input: &InputData) -> Option<SegmentData>;

    /// The kind of segment.
    fn id(&self) -> SegmentId;
}

/// Metadata entries as pairs of character sequences.
pub open spec fn meta_view(m: Seq<(String, String)>) -> Seq<(Seq<char>, Seq<char>)> {
    m.map_values(|e: (String, String)| (e.0@, e.1@))
}

/// Segment data as character sequences.
pub struct DataView {
    pub primary: Seq<char>,
    pub secondary: Seq<char>,
    pub metadata: Seq<(Seq<char>, Seq<char>)>,
}

/// The view of segment data.
pub open spec fn data_view(d: SegmentData) -> DataView {
    DataView { primary: d.primary@, secondary: d.secondary@, metadata: meta_view(d.metadata@) }
}

/// The view of optional segment data.
pub open spec fn opt_view(d: Option<SegmentData>) -> Option<DataView> {
    match d {
        Some(x) => Some(data_view(x)),
        None => None,
    }
}

/// Data with a primary text, no secondary text, and metadata entries.
pub open spec fn shows(primary: Seq<char>, meta: Seq<(Seq<char>, Seq<char>)>) -> Option<DataView> {
    Some(DataView { primary, secondary: Seq::empty(), metadata: meta })
}

fn entry(key: &str, value: String) -> (e: (String, String))
    ensures
        e.0@ == key@,
        e.1@ == value@,
{
    (String::from_str(key), value)
}

fn data(primary: String, metadata: Vec<(String, String)>) -> (d: SegmentData)
    ensures
        d.primary == primary,
        d.secondary@ == Seq::<char>::empty(),
        d.metadata == metadata,
{
    SegmentData { primary, secondary: String::new(), metadata }
}

/// Total API time of the session.
pub struct ApiDurationSegment;

/// Share of input tokens read from the prompt cache.
pub struct CacheHitSegment;

/// Lines added and removed in the session.
pub struct LinesSegment;

/// Why the last assistant reply stopped.
pub struct StopReasonSegment;

/// Share of tool calls that succeeded.
pub struct ToolSuccessSegment;

/// Number of tool calls, with their success rate.
pub struct ToolsSegment;

/// Number of user turns.
pub struct TurnsSegment;

/// A duration in milliseconds in the largest fitting unit: `850ms`, `42s`,
/// `3m`, `3m7s`, `2h`, `2h15m`.
pub open spec fn duration_text(ms: nat) -> Seq<char> {
    if ms < 1000 {
        dec(ms) + "ms"@
    } else if ms < 60_000 {
        dec(ms / 1000) + "s"@
    } else if ms < 3_600_000 {
        let m = ms / 60_000;
        let s = (ms % 60_000) / 1000;
        if s == 0 {
            dec(m) + "m"@
        } else {
            dec(m) + "m"@ + dec(s) + "s"@
        }
    } else {
        let h = ms / 3_600_000;
        let m = (ms % 3_600_000) / 60_000;
        if m == 0 {
            dec(h) + "h"@
        } else {
            dec(h) + "h"@ + dec(m) + "m"@
        }
    }
}

impl ApiDurationSegment {
    pub fn new() -> Self {
        ApiDurationSegment
    }

    /// Formats a duration given in milliseconds.
    pub fn format_duration(ms: u64) -> (r: String)
        ensures
            r@ == duration_text(ms as nat),
    {
        let mut s = String::new();
        if ms < 1000 {
            push_decimal(&mut s, ms);
            push_str(&mut s, "ms");
        } else if ms < 60_000 {
            push_decimal(&mut s, ms / 1000);
            push_str(&mut s, "s");
        } else if ms < 3_600_000 {
            let minutes = ms / 60_000;
            let seconds = (ms % 60_000) / 1000;
            push_decimal(&mut s, minutes);
            push_str(&mut s, "m");
            if seconds != 0 {
                push_decimal(&mut s, seconds);
                push_str(&mut s, "s");
            }
        } else {
            let hours = ms / 3_600_000;
            let minutes = (ms % 3_600_000) / 60_000;
            push_decimal(&mut s, hours);
            push_str(&mut s, "h");
            if minutes != 0 {
                push_decimal(&mut s, minutes);
                push_str(&mut s, "m");
            }
        }
        s
    }
}

/// Present when the input reports an API duration.
pub open spec fn api_duration_view(input: InputData) -> Option<DataView> {
    match input.cost {
        Some(c) => match c.total_api_duration_ms {
            Some(ms) => shows(
                duration_text(ms as nat),
                seq![("api_duration_ms"@, dec(ms as nat))],
            ),
            None => None,
        },
        None => None,
    }
}

impl Segment for ApiDurationSegment {
    fn collect(&self, input: &InputData) -> (r: Option<SegmentData>)
        ensures
            opt_view(r) == api_duration_view(*input),
    {
        let cost = match &input.cost {
            Some(c) => c,
            None => return None,
        };
        let ms = match cost.total_api_duration_ms {
            Some(ms) => ms,
            None => return None,
        };
        let primary = Self::format_duration(ms);
        let mut metadata = Vec::new();
        metadata.push(entry("api_duration_ms", decimal(ms)));
        let d = data(primary, metadata);
        assert(meta_view(d.metadata@) =~= seq![("api_duration_ms"@, dec(ms as nat))]);
        Some(d)
    }

    fn id(&self) -> (r: SegmentId)
        ensures
            r == SegmentId::ApiDuration,
    {
        SegmentId::ApiDuration
    }
}

impl LinesSegment {
    pub fn new() -> Self {
        LinesSegment
    }
}

/// Present when the input reports cost figures with a line added or
/// removed (a missing count is zero): `+added -removed`.
pub open spec fn lines_view(input: InputData) -> Option<DataView> {
    match input.cost {
        Some(c) => {
            let a = match c.total_lines_added {
                Some(x) => x,
                None => 0,
            };
            let d = match c.total_lines_removed {
                Some(x) => x,
                None => 0,
            };
            if a == 0 && d == 0 {
                None
            } else {
                shows(
                    "+"@ + dec(a as nat) + " -"@ + dec(d as nat),
                    seq![("lines_added"@, dec(a as nat)), ("lines_removed"@, dec(d as nat))],
                )
            }
        },
        None => None,
    }
}

impl Segment for LinesSegment {
    fn collect(&self, input: &InputData) -> (r: Option<SegmentData>)
        ensures
            opt_view(r) == lines_view(*input),
    {
        let cost = match &input.cost {
            Some(c) => c,
            None => return None,
        };
        let added = cost.total_lines_added.unwrap_or(0);
        let removed = cost.total_lines_removed.unwrap_or(0);
        if added == 0 && removed == 0 {
            return None;
        }
        let mut primary = String::new();
        push_str(&mut primary, "+");
        push_decimal(&mut primary, added);
        push_str(&mut primary, " -");
        push_decimal(&mut primary, removed);
        let mut metadata = Vec::new();
        metadata.push(entry("lines_added", decimal(added)));
        metadata.push(entry("lines_removed", decimal(removed)));
        let d = data(primary, metadata);
        assert(meta_view(d.metadata@) =~= seq![
            ("lines_added"@, dec(added as nat)),
            ("lines_removed"@, dec(removed as nat)),
        ]);
        assert(d.primary@ =~= "+"@ + dec(added as nat) + " -"@ + dec(removed as nat));
        Some(d)
    }

    fn id(&self) -> (r: SegmentId)
        ensures
            r == SegmentId::Lines,
    {
        SegmentId::Lines
    }
}

/// The icon shown for a stop reason.
pub open spec fn reason_icon(reason: Seq<char>) -> Seq<char> {
    if reason == "end_turn"@ {
        "\u{f0791}"@
    } else if reason == "tool_use"@ {
        "\u{f1064}"@
    } else if reason == "max_tokens"@ {
        "\u{f0028}"@
    } else if reason == "refusal"@ {
        "\u{f0159}"@
    } else if reason == "stop_sequence"@ {
        "\u{f0666}"@
    } else {
        "\u{f02d7}"@
    }
}

impl StopReasonSegment {
    pub fn new() -> Self {
        StopReasonSegment
    }

    /// The icon for a stop reason.
    pub fn icon_for_reason(reason: &str) -> (r: &'static str)
        ensures
            r@ == reason_icon(reason@),
    {
        if str_eq(reason, "end_turn") {
            "\u{f0791}"
        } else if str_eq(reason, "tool_use") {
            "\u{f1064}"
        } else if str_eq(reason, "max_tokens") {
            "\u{f0028}"
        } else if str_eq(reason, "refusal") {
            "\u{f0159}"
        } else if str_eq(reason, "stop_sequence") {
            "\u{f0666}"
        } else {
            "\u{f02d7}"
        }
    }
}

/// Present when the transcript recorded a stop reason; shows it, with
/// its icon as `dynamic_icon`.
pub open spec fn stop_reason_view(input: InputData) -> Option<DataView> {
    match input.transcript {
        Some(st) => match st.last_stop_reason {
            Some(reason) => shows(
                reason@,
                seq![("dynamic_icon"@, reason_icon(reason@)), ("stop_reason"@, reason@)],
            ),
            None => None,
        },
        None => None,
    }
}

impl Segment for StopReasonSegment {
    fn collect(&self, input: &InputData) -> (r: Option<SegmentData>)
        ensures
            opt_view(r) == stop_reason_view(*input),
    {
        let stats = match &input.transcript {
            Some(st) => st,
            None => return None,
        };
        let reason = match &stats.last_stop_reason {
            Some(r) => r.clone(),
            None => return None,
        };
        let icon = String::from_str(Self::icon_for_reason(reason.as_str()));
        let mut metadata = Vec::new();
        metadata.push(entry("dynamic_icon", icon));
        metadata.push(entry("stop_reason", reason.clone()));
        let d = data(reason, metadata);
        assert(meta_view(d.metadata@) =~= seq![
            ("dynamic_icon"@, reason_icon(d.primary@)),
            ("stop_reason"@, d.primary@),
        ]);
        Some(d)
    }

    fn id(&self) -> (r: SegmentId)
        ensures
            r == SegmentId::StopReason,
    {
        SegmentId::StopReason
    }
}

impl TurnsSegment {
    pub fn new() -> Self {
        TurnsSegment
    }
}

/// Present when the transcript counted a user turn: `#turns`.
pub open spec fn turns_view(input: InputData) -> Option<DataView> {
    match input.transcript {
        Some(st) => if st.turn_count == 0 {
            None
        } else {
            shows(
                "#"@ + dec(st.turn_count as nat),
                seq![("turn_count"@, dec(st.turn_count as nat))],
            )
        },
        None => None,
    }
}

impl Segment for TurnsSegment {
    fn collect(&self, input: &InputData) -> (r: Option<SegmentData>)
        ensures
            opt_view(r) == turns_view(*input),
    {
        let stats = match &input.transcript {
            Some(st) => st,
            None => return None,
        };
        if stats.turn_count == 0 {
            return None;
        }
        let mut primary = String::new();
        push_str(&mut primary, "#");
        push_decimal(&mut primary, stats.turn_count as u64);
        let mut metadata = Vec::new();
        metadata.push(entry("turn_count", decimal(stats.turn_count as u64)));
        let d = data(primary, metadata);
        assert(meta_view(d.metadata@) =~= seq![("turn_count"@, dec(stats.turn_count as nat))]);
        Some(d)
    }

    fn id(&self) -> (r: SegmentId)
        ensures
            r == SegmentId::Turns,
    {
        SegmentId::Turns
    }
}

/// The cache-hit totals of a transcript fit in a `u64`.
pub open spec fn cache_total_fits(st: TranscriptStats) -> bool {
    st.input_tokens + st.cache_read_tokens + st.cache_creation_tokens <= u64::MAX
}

impl CacheHitSegment {
    pub fn new() -> Self {
        CacheHitSegment
    }
}

/// Present when the transcript counted input tokens and the rate is
/// printed: `rate%`, with the token counts as metadata.
pub open spec fn cache_hit_view(input: InputData) -> Option<DataView> {
    match input.transcript {
        Some(st) => if !cache_total_fits(st) {
            None
        } else if st.input_tokens + st.cache_read_tokens + st.cache_creation_tokens == 0 {
            None
        } else {
            match input.cache_hit_rate {
                Some(t) => shows(
                    t.whole@ + "%"@,
                    seq![
                        ("hit_rate"@, t.hundredths@),
                        ("cache_read"@, dec(st.cache_read_tokens as nat)),
                        ("cache_creation"@, dec(st.cache_creation_tokens as nat)),
                        ("input"@, dec(st.input_tokens as nat)),
                    ],
                ),
                None => None,
            }
        },
        None => None,
    }
}

impl Segment for CacheHitSegment {
    fn collect(&self, input: &InputData) -> (r: Option<SegmentData>)
        ensures
            opt_view(r) == cache_hit_view(*input),
    {
        let stats = match &input.transcript {
            Some(st) => st,
            None => return None,
        };
        if (stats.input_tokens as u128) + (stats.cache_read_tokens as u128) + (
        stats.cache_creation_tokens as u128) > u64::MAX as u128 {
            return None;
        }
        if stats.cache_hit_fraction().is_none() {
            return None;
        }
        let rate = match &input.cache_hit_rate {
            Some(t) => t,
            None => return None,
        };
        let mut primary = rate.whole.clone();
        push_str(&mut primary, "%");
        let mut metadata = Vec::new();
        metadata.push(entry("hit_rate", rate.hundredths.clone()));
        metadata.push(entry("cache_read", decimal(stats.cache_read_tokens)));
        metadata.push(entry("cache_creation", decimal(stats.cache_creation_tokens)));
        metadata.push(entry("input", decimal(stats.input_tokens)));
        let d = data(primary, metadata);
        assert(meta_view(d.metadata@) =~= seq![
            ("hit_rate"@, rate.hundredths@),
            ("cache_read"@, dec(stats.cache_read_tokens as nat)),
            ("cache_creation"@, dec(stats.cache_creation_tokens as nat)),
            ("input"@, dec(stats.input_tokens as nat)),
        ]);
        Some(d)
    }

    fn id(&self) -> (r: SegmentId)
        ensures
            r == SegmentId::CacheHit,
    {
        SegmentId::CacheHit
    }
}

impl ToolSuccessSegment {
    pub fn new() -> Self {
        ToolSuccessSegment
    }
}

/// Present when the transcript counted a tool result and the rate is
/// printed: `rate%`, with the counts as metadata.
pub open spec fn tool_success_view(input: InputData) -> Option<DataView> {
    match input.transcript {
        Some(st) => if st.tool_result_count == 0 {
            None
        } else {
            match input.tool_success_rate {
                Some(t) => shows(
                    t.whole@ + "%"@,
                    seq![
                        ("total"@, dec(st.tool_result_count as nat)),
                        ("errors"@, dec(st.tool_error_count as nat)),
                        ("rate"@, t.hundredths@),
                    ],
                ),
                None => None,
            }
        },
        None => None,
    }
}

impl Segment for ToolSuccessSegment {
    fn collect(&self, input: &InputData) -> (r: Option<SegmentData>)
        ensures
            opt_view(r) == tool_success_view(*input),
    {
        let stats = match &input.transcript {
            Some(st) => st,
            None => return None,
        };
        if stats.tool_success_fraction().is_none() {
            return None;
        }
        let rate = match &input.tool_success_rate {
            Some(t) => t,
            None => return None,
        };
        let mut primary = rate.whole.clone();
        push_str(&mut primary, "%");
        let mut metadata = Vec::new();
        metadata.push(entry("total", decimal(stats.tool_result_count as u64)));
        metadata.push(entry("errors", decimal(stats.tool_error_count as u64)));
        metadata.push(entry("rate", rate.hundredths.clone()));
        let d = data(primary, metadata);
        assert(meta_view(d.metadata@) =~= seq![
            ("total"@, dec(stats.tool_result_count as nat)),
            ("errors"@, dec(stats.tool_error_count as nat)),
            ("rate"@, rate.hundredths@),
        ]);
        Some(d)
    }

    fn id(&self) -> (r: SegmentId)
        ensures
            r == SegmentId::ToolSuccess,
    {
        SegmentId::ToolSuccess
    }
}

/// The printed success rate the tools segment shows, if any.
pub open spec fn shown_rate(st: TranscriptStats, rate: Option<RateText>) -> Option<RateText> {
    if st.tool_result_count == 0 {
        None
    } else {
        rate
    }
}

impl ToolsSegment {
    pub fn new() -> Self {
        ToolsSegment
    }
}

/// Present when the transcript counted a tool call: the number of
/// calls, followed by the success rate in brackets when there is one.
pub open spec fn tools_view(input: InputData) -> Option<DataView> {
    match input.transcript {
        Some(st) => if st.tool_call_count == 0 {
            None
        } else {
            let counts = seq![
                ("tool_call_count"@, dec(st.tool_call_count as nat)),
                ("tool_result_count"@, dec(st.tool_result_count as nat)),
                ("tool_error_count"@, dec(st.tool_error_count as nat)),
            ];
            match shown_rate(st, input.tool_success_rate) {
                Some(t) => shows(
                    dec(st.tool_call_count as nat) + " ("@ + t.whole@ + "%)"@,
                    counts.push(("success_rate"@, t.hundredths@)),
                ),
                None => shows(
                    dec(st.tool_call_count as nat),
                    counts,
                ),
            }
        },
        None => None,
    }
}

impl Segment for ToolsSegment {
    fn collect(&self, input: &InputData) -> (r: Option<SegmentData>)
        ensures
            opt_view(r) == tools_view(*input),
    {
        let stats = match &input.transcript {
            Some(st) => st,
            None => return None,
        };
        if stats.tool_call_count == 0 {
            return None;
        }
        let rate = if stats.tool_success_fraction().is_some() {
            match &input.tool_success_rate {
                Some(t) => Some(t),
                None => None,
            }
        } else {
            None
        };
        let mut primary = decimal(stats.tool_call_count as u64);
        if let Some(t) = rate {
            push_str(&mut primary, " (");
            push_str(&mut primary, t.whole.as_str());
            push_str(&mut primary, "%)");
        }
        let mut metadata = Vec::new();
        metadata.push(entry("tool_call_count", decimal(stats.tool_call_count as u64)));
        metadata.push(entry("tool_result_count", decimal(stats.tool_result_count as u64)));
        metadata.push(entry("tool_error_count", decimal(stats.tool_error_count as u64)));
        let ghost counts = seq![
            ("tool_call_count"@, dec(stats.tool_call_count as nat)),
            ("tool_result_count"@, dec(stats.tool_result_count as nat)),
            ("tool_error_count"@, dec(stats.tool_error_count as nat)),
        ];
        assert(meta_view(metadata@) =~= counts);
        if let Some(t) = rate {
            metadata.push(entry("success_rate", t.hundredths.clone()));
            assert(meta_view(metadata@) =~= counts.push(("success_rate"@, t.hundredths@)));
        }
        let d = data(primary, metadata);
        Some(d)
    }

    fn id(&self) -> (r: SegmentId)
        ensures
            r == SegmentId::Tools,
    {
        SegmentId::Tools
    }
}

/// A copy of segment data.
pub fn clone_data(d: &SegmentData) -> (r: SegmentData)
    ensures
        data_view(r) == data_view(*d),
{
    let mut metadata: Vec<(String, String)> = Vec::new();
    let n = d.metadata.len();
    for i in 0..n
        invariant
            n == d.metadata@.len(),
            metadata@ == d.metadata@.take(i as int),
    {
        metadata.push((d.metadata[i].0.clone(), d.metadata[i].1.clone()));
        assert(metadata@ == d.metadata@.take((i + 1) as int));
    }
    assert(d.metadata@.take(n as int) == d.metadata@);
    SegmentData { primary: d.primary.clone(), secondary: d.secondary.clone(), metadata }
}

/// Durations of a minute up to an hour read as whole minutes and seconds:
/// for `ms` whose whole seconds are `60 * m + s` (with `s < 60`), the text
/// is `m` minutes followed by `s` seconds, the seconds left out only when
/// there are none.  Likewise whole seconds below a minute and whole hours
/// and minutes from an hour on.
pub proof fn lemma_duration_units(ms: nat, h: nat, m: nat, s: nat)
    ensures
        ms < 1000 ==> duration_text(ms) == dec(ms) + "ms"@,
        1 <= s < 60 && ms / 1000 == s ==> duration_text(ms) == dec(s) + "s"@,
        1 <= m < 60 && s < 60 && ms / 1000 == 60 * m + s ==> duration_text(ms) == dec(m) + "m"@ + (
        if s == 0 {
            Seq::<char>::empty()
        } else {
            dec(s) + "s"@
        }),
        1 <= h && m < 60 && ms / 60_000 == 60 * h + m ==> duration_text(ms) == dec(h) + "h"@ + (
        if m == 0 {
            Seq::<char>::empty()
        } else {
            dec(m) + "m"@
        }),
{
    if 1 <= s < 60 && ms / 1000 == s {
        assert(1000 <= ms < 60_000) by (nonlinear_arith)
            requires
                1 <= s < 60,
                ms / 1000 == s,
        ;
    }
    if 1 <= m < 60 && s < 60 && ms / 1000 == 60 * m + s {
        assert(60_000 <= ms < 3_600_000 && ms / 60_000 == m && (ms % 60_000) / 1000 == s) by (
        nonlinear_arith)
            requires
                1 <= m < 60,
                s < 60,
                ms / 1000 == 60 * m + s,
        ;
        assert(dec(m) + "m"@ + Seq::<char>::empty() =~= dec(m) + "m"@);
    }
    if 1 <= h && m < 60 && ms / 60_000 == 60 * h + m {
        assert(3_600_000 <= ms && ms / 3_600_000 == h && (ms % 3_600_000) / 60_000 == m) by (
        nonlinear_arith)
            requires
                1 <= h,
                m < 60,
                ms / 60_000 == 60 * h + m,
        ;
        assert(dec(h) + "h"@ + Seq::<char>::empty() =~= dec(h) + "h"@);
    }
}

/// The lines segment is shown exactly when the input reports at least one
/// line added or removed, and then reads `+added -removed` (a missing count
/// read as 0).
pub proof fn lemma_lines_shown(input: InputData)
    ensures
        lines_view(input) is Some <==> (input.cost matches Some(c) && ((
        c.total_lines_added matches Some(a) && a > 0) || (c.total_lines_removed matches Some(d)
            && d > 0))),
        input.cost matches Some(c) ==> (lines_view(input) matches Some(v) ==> v.primary == "+"@
            + dec(c.total_lines_added.unwrap_or(0) as nat) + " -"@ + dec(
            c.total_lines_removed.unwrap_or(0) as nat,
        )),
{
}

/// Whenever the transcript counted a tool result and the success rate is
/// printed, the tools segment shows the number of calls followed by the
/// rate in brackets, however many results failed; with no tool result it
/// shows the number of calls alone.
pub proof fn lemma_tools_show_rate(input: InputData, t: RateText)
    requires
        input.transcript matches Some(st) && st.tool_call_count > 0,
        input.tool_success_rate == Some(t),
    ensures
        input.transcript matches Some(st) && (tools_view(input) matches Some(v) && v.primary == (
        if st.tool_result_count > 0 {
            dec(st.tool_call_count as nat) + " ("@ + t.whole@ + "%)"@
        } else {
            dec(st.tool_call_count as nat)
        })),
        input.transcript matches Some(st) && st.tool_result_count > 0 ==> (tools_view(input) matches Some(
            v,
        ) && v.metadata.len() == 4 && v.metadata[3] == ("success_rate"@, t.hundredths@)),
{
}

/// The turns segment is shown exactly when the transcript counted a user
/// turn, and reads `#` followed by the number of turns.
pub proof fn lemma_turns_shown(input: InputData)
    ensures
        turns_view(input) is Some <==> (input.transcript matches Some(st) && st.turn_count > 0),
        turns_view(input) matches Some(v) ==> (input.transcript matches Some(st) && v.primary == "#"@
            + dec(st.turn_count as nat)),
{
}

/// The API duration segment is shown exactly when the input reports an API
/// duration, and reads that duration formatted.
pub proof fn lemma_api_duration_shown(input: InputData)
    ensures
        api_duration_view(input) is Some <==> (input.cost matches Some(c)
            && c.total_api_duration_ms is Some),
        api_duration_view(input) matches Some(v) ==> (input.cost matches Some(c)
            && c.total_api_duration_ms matches Some(ms) && v.primary == duration_text(ms as nat)),
{
}

/// The tool success segment is shown exactly when a tool result was
/// counted and the rate is printed, and reads the rate with a percent sign.
pub proof fn lemma_tool_success_shown(input: InputData)
    ensures
        tool_success_view(input) is Some <==> (input.transcript matches Some(st)
            && st.tool_result_count > 0 && input.tool_success_rate is Some),
        tool_success_view(input) matches Some(v) ==> (input.tool_success_rate matches Some(t)
            && v.primary == t.whole@ + "%"@),
{
}

/// The stop reason segment shows the last stop reason, with the icon that
/// belongs to it: each known reason has an icon of its own, any other
/// reason the fallback icon.
pub proof fn lemma_stop_reason_icons()
    ensures
        reason_icon("end_turn"@) != reason_icon("tool_use"@),
        reason_icon("max_tokens"@) != reason_icon("refusal"@),
        reason_icon("stop_sequence"@) != reason_icon("other"@),
        reason_icon("end_turn"@) != reason_icon("other"@),
{
    reveal_strlit("end_turn");
    reveal_strlit("tool_use");
    reveal_strlit("max_tokens");
    reveal_strlit("refusal");
    reveal_strlit("stop_sequence");
    reveal_strlit("other");
    reveal_strlit("\u{f0791}");
    reveal_strlit("\u{f1064}");
    reveal_strlit("\u{f0028}");
    reveal_strlit("\u{f0159}");
    reveal_strlit("\u{f0666}");
    reveal_strlit("\u{f02d7}");
    assert("end_turn"@[0] != "tool_use"@[0]);
    assert("end_turn"@[0] != "max_tokens"@[0]);
    assert("end_turn"@[0] != "refusal"@[0]);
    assert("end_turn"@[0] != "stop_sequence"@[0]);
    assert("tool_use"@[0] != "max_tokens"@[0]);
    assert("tool_use"@[0] != "refusal"@[0]);
    assert("max_tokens"@[0] != "refusal"@[0]);
    assert("max_tokens"@[0] != "stop_sequence"@[0]);
    assert("refusal"@[0] != "stop_sequence"@[0]);
    assert("other"@[0] != "stop_sequence"@[0]);
    assert("other"@[0] != "end_turn"@[0]);
    assert("other"@[0] != "tool_use"@[0]);
    assert("other"@[0] != "max_tokens"@[0]);
    assert("other"@[0] != "refusal"@[0]);
    assert("\u{f0791}"@[0] != "\u{f1064}"@[0]);
    assert("\u{f0028}"@[0] != "\u{f0159}"@[0]);
    assert("\u{f0666}"@[0] != "\u{f02d7}"@[0]);
    assert("\u{f0791}"@[0] != "\u{f02d7}"@[0]);
}

} // verus!
