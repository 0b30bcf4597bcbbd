use vstd::prelude::*;

use crate::text::str_eq;

verus! {

/// One element of a message's content array: its `type` when that is a
/// string, and its `is_error` flag when that is a boolean.
#[derive(Debug)]
pub struct ContentItem {
    pub item_type: Option<String>,
    pub is_error: Option<bool>,
}

/// The `content` of a message: an array of items, or any other JSON value.
#[derive(Debug)]
pub enum MessageContent {
    Items(Vec<ContentItem>),
    Other,
}

/// Token counts of one assistant reply, normalised across API versions.
#[derive(Debug, Clone, Copy, PartialEq, Eq, Structural)]
pub struct TokenUsage {
    pub input_tokens: u32,
    pub output_tokens: u32,
    pub cache_read_input_tokens: u32,
    pub cache_creation_input_tokens: u32,
}

/// The `message` of a transcript entry.
#[derive(Debug)]
pub struct TranscriptMessage {
    pub content: Option<MessageContent>,
    pub stop_reason: Option<String>,
    pub usage: Option<TokenUsage>,
}

/// One line of a session transcript.
#[derive(Debug)]
pub struct TranscriptEntry {
    pub entry_type: Option<String>,
    pub message: Option<TranscriptMessage>,
}

/// Running totals over a transcript.
#[derive(Debug)]
pub struct TranscriptStats {
    pub input_tokens: u64,
    pub output_tokens: u64,
    pub cache_read_tokens: u64,
    pub cache_creation_tokens: u64,
    pub turn_count: u32,
    pub tool_call_count: u32,
    pub tool_result_count: u32,
    pub tool_error_count: u32,
    pub last_stop_reason: Option<String>,
}

/// Persisted transcript totals, valid up to a byte offset of the file.
#[derive(Debug)]
pub struct TranscriptCache {
    pub transcript_path: String,
    pub file_size_at_parse: u64,
    pub file_mtime: String,
    pub stats: TranscriptStats,
    pub cached_at: String,
}

/// Transcript totals as mathematical integers.
pub struct StatsTotals {
    pub input_tokens: int,
    pub output_tokens: int,
    pub cache_read_tokens: int,
    pub cache_creation_tokens: int,
    pub turn_count: int,
    pub tool_call_count: int,
    pub tool_result_count: int,
    pub tool_error_count: int,
    pub last_stop_reason: Option<Seq<char>>,
}

/// An item typed `t`.
pub open spec fn has_type(item: ContentItem, t: Seq<char>) -> bool {
    item.item_type matches Some(s) && s@ == t
}

/// Number of items typed `t`.
pub open spec fn count_type(items: Seq<ContentItem>, t: Seq<char>) -> nat
    decreases items.len(),
{
    if items.len() == 0 {
        0
    } else {
        count_type(items.drop_last(), t) + if has_type(items.last(), t) { 1nat } else { 0nat }
    }
}

/// Number of tool results flagged as errors.
pub open spec fn count_failed(items: Seq<ContentItem>) -> nat
    decreases items.len(),
{
    if items.len() == 0 {
        0
    } else {
        count_failed(items.drop_last()) + if has_type(items.last(), "tool_result"@)
            && items.last().is_error == Some(true) {
            1nat
        } else {
            0nat
        }
    }
}

/// Items of a content value (none unless it is an array).
pub open spec fn content_items(c: MessageContent) -> Seq<ContentItem> {
    match c {
        MessageContent::Items(v) => v@,
        MessageContent::Other => Seq::empty(),
    }
}

/// Tool calls that a content value holds, as the `u32` the count is cast to.
pub open spec fn tool_uses(c: MessageContent) -> int {
    count_type(content_items(c), "tool_use"@) as int % 0x1_0000_0000
}

impl TranscriptStats {
    /// The totals as integers.
    pub open spec fn totals(&self) -> StatsTotals {
        StatsTotals {
            input_tokens: self.input_tokens as int,
            output_tokens: self.output_tokens as int,
            cache_read_tokens: self.cache_read_tokens as int,
            cache_creation_tokens: self.cache_creation_tokens as int,
            turn_count: self.turn_count as int,
            tool_call_count: self.tool_call_count as int,
            tool_result_count: self.tool_result_count as int,
            tool_error_count: self.tool_error_count as int,
            last_stop_reason: match self.last_stop_reason {
                Some(s) => Some(s@),
                None => None,
            },
        }
    }
}

/// Totals before any entry.
pub open spec fn zero_totals() -> StatsTotals {
    StatsTotals {
        input_tokens: 0,
        output_tokens: 0,
        cache_read_tokens: 0,
        cache_creation_tokens: 0,
        turn_count: 0,
        tool_call_count: 0,
        tool_result_count: 0,
        tool_error_count: 0,
        last_stop_reason: None,
    }
}

/// The entry is a user turn.
pub open spec fn is_user(e: TranscriptEntry) -> bool {
    e.entry_type matches Some(t) && t@ == "user"@
}

/// The entry is an assistant reply.
pub open spec fn is_assistant(e: TranscriptEntry) -> bool {
    e.entry_type matches Some(t) && t@ == "assistant"@
}

/// Totals after one more entry.  A user entry counts a turn and its tool
/// results; an assistant entry with a stop reason sets the last stop reason
/// and adds its token usage, and any assistant entry adds its tool calls.
pub open spec fn step(t: StatsTotals, e: TranscriptEntry) -> StatsTotals {
    if is_user(e) {
        let items = match e.message {
            Some(m) => match m.content {
                Some(c) => content_items(c),
                None => Seq::empty(),
            },
            None => Seq::empty(),
        };
        StatsTotals {
            turn_count: t.turn_count + 1,
            tool_result_count: t.tool_result_count + count_type(items, "tool_result"@),
            tool_error_count: t.tool_error_count + count_failed(items),
            ..t
        }
    } else if is_assistant(e) {
        match e.message {
            Some(m) => {
                let t1 = match m.stop_reason {
                    Some(r) => match m.usage {
                        Some(u) => StatsTotals {
                            last_stop_reason: Some(r@),
                            input_tokens: t.input_tokens + u.input_tokens,
                            output_tokens: t.output_tokens + u.output_tokens,
                            cache_read_tokens: t.cache_read_tokens + u.cache_read_input_tokens,
                            cache_creation_tokens: t.cache_creation_tokens
                                + u.cache_creation_input_tokens,
                            ..t
                        },
                        None => StatsTotals { last_stop_reason: Some(r@), ..t },
                    },
                    None => t,
                };
                match m.content {
                    Some(c) => StatsTotals {
                        tool_call_count: t1.tool_call_count + tool_uses(c),
                        ..t1
                    },
                    None => t1,
                }
            },
            None => t,
        }
    } else {
        t
    }
}

/// Totals after a sequence of entries, starting from `t`.
pub open spec fn totals_after(t: StatsTotals, entries: Seq<TranscriptEntry>) -> StatsTotals
    decreases entries.len(),
{
    if entries.len() == 0 {
        t
    } else {
        step(totals_after(t, entries.drop_last()), entries.last())
    }
}

/// Every total fits the integer type that holds it.
pub open spec fn fits(t: StatsTotals) -> bool {
    &&& 0 <= t.input_tokens <= u64::MAX
    &&& 0 <= t.output_tokens <= u64::MAX
    &&& 0 <= t.cache_read_tokens <= u64::MAX
    &&& 0 <= t.cache_creation_tokens <= u64::MAX
    &&& 0 <= t.turn_count <= u32::MAX
    &&& 0 <= t.tool_call_count <= u32::MAX
    &&& 0 <= t.tool_result_count <= u32::MAX
    &&& 0 <= t.tool_error_count <= u32::MAX
}

/// Counts the tool results in a content value, and those among them that
/// are errors, onto `total` and `errors`.
pub fn count_tool_results(content: &MessageContent, total: &mut u32, errors: &mut u32)
    requires
        *old(total) + count_type(content_items(*content), "tool_result"@) <= u32::MAX,
        *old(errors) + count_failed(content_items(*content)) <= u32::MAX,
    ensures
        *final(total) == *old(total) + count_type(content_items(*content), "tool_result"@),
        *final(errors) == *old(errors) + count_failed(content_items(*content)),
{
    if let MessageContent::Items(arr) = content {
        let n = arr.len();
        let ghost t0 = *total;
        let ghost e0 = *errors;
        for i in 0..n
            invariant
                n == arr@.len(),
                *total == t0 + count_type(arr@.take(i as int), "tool_result"@),
                *errors == e0 + count_failed(arr@.take(i as int)),
                t0 + count_type(arr@, "tool_result"@) <= u32::MAX,
                e0 + count_failed(arr@) <= u32::MAX,
        {
            let ghost p = arr@.take(i as int + 1);
            assert(p.drop_last() == arr@.take(i as int));
            assert(p.last() == arr@[i as int]);
            proof {
                lemma_counts_prefix(arr@, i as int + 1);
            }
            if is_typed(&arr[i], "tool_result") {
                *total = *total + 1;
                if arr[i].is_error == Some(true) {
                    *errors = *errors + 1;
                }
            }
        }
        assert(arr@.take(n as int) == arr@);
    }
}

/// Counts of a prefix never exceed the counts of the whole.
pub proof fn lemma_counts_prefix(items: Seq<ContentItem>, k: int)
    requires
        0 <= k <= items.len(),
    ensures
        count_type(items.take(k), "tool_result"@) <= count_type(items, "tool_result"@),
        count_failed(items.take(k)) <= count_failed(items),
    decreases items.len() - k,
{
    if k < items.len() {
        lemma_counts_prefix(items, k + 1);
        assert(items.take(k + 1).drop_last() == items.take(k));
    } else {
        assert(items.take(k) == items);
    }
}

fn is_typed(item: &ContentItem, t: &str) -> (r: bool)
    ensures
        r == has_type(*item, t@),
{
    match &item.item_type {
        Some(s) => str_eq(s.as_str(), t),
        None => false,
    }
}

/// The number of tool calls in a content value, cast to `u32`.
pub fn count_tool_uses(content: &MessageContent) -> (r: u32)
    ensures
        r as int == tool_uses(*content),
{
    match content {
        MessageContent::Items(arr) => {
            let n = arr.len();
            let mut c: u64 = 0;
            for i in 0..n
                invariant
                    n == arr@.len(),
                    c == count_type(arr@.take(i as int), "tool_use"@),
                    c <= i,
            {
                let ghost p = arr@.take(i as int + 1);
                assert(p.drop_last() == arr@.take(i as int));
                assert(p.last() == arr@[i as int]);
                if is_typed(&arr[i], "tool_use") {
                    c = c + 1;
                }
            }
            assert(arr@.take(n as int) == arr@);
            (c % 0x1_0000_0000) as u32
        },
        MessageContent::Other => 0,
    }
}

/// Numbers of tool results and of failed tool results in a content value.
pub fn result_counts(content: &MessageContent) -> (r: (u64, u64))
    ensures
        r.0 == count_type(content_items(*content), "tool_result"@),
        r.1 == count_failed(content_items(*content)),
{
    let mut total: u64 = 0;
    let mut errors: u64 = 0;
    if let MessageContent::Items(arr) = content {
        let n = arr.len();
        for i in 0..n
            invariant
                n == arr@.len(),
                total == count_type(arr@.take(i as int), "tool_result"@),
                errors == count_failed(arr@.take(i as int)),
                errors <= total <= i,
        {
            let ghost p = arr@.take(i as int + 1);
            assert(p.drop_last() == arr@.take(i as int));
            assert(p.last() == arr@[i as int]);
            if is_typed(&arr[i], "tool_result") {
                total = total + 1;
                if arr[i].is_error == Some(true) {
                    errors = errors + 1;
                }
            }
        }
        assert(arr@.take(n as int) == arr@);
    }
    (total, errors)
}

impl Default for TranscriptStats {
    fn default() -> (r: Self)
        ensures
            r.totals() == zero_totals(),
    {
        TranscriptStats {
            input_tokens: 0,
            output_tokens: 0,
            cache_read_tokens: 0,
            cache_creation_tokens: 0,
            turn_count: 0,
            tool_call_count: 0,
            tool_result_count: 0,
            tool_error_count: 0,
            last_stop_reason: None,
        }
    }
}

impl TranscriptStats {
    /// Totals before any entry.
    pub fn new() -> (r: Self)
        ensures
            r.totals() == zero_totals(),
    {
        Self::default()
    }

    /// Whether adding `entry` keeps every total within its integer type
    /// (otherwise the addition would overflow).
    pub fn can_accumulate(&self, entry: &TranscriptEntry) -> (r: bool)
        ensures
            r == fits(step(self.totals(), *entry)),
    {
        let is_user = match &entry.entry_type {
            Some(t) => str_eq(t.as_str(), "user"),
            None => false,
        };
        let is_assistant = match &entry.entry_type {
            Some(t) => str_eq(t.as_str(), "assistant"),
            None => false,
        };
        if is_user {
            let (results, failed) = match &entry.message {
                Some(m) => match &m.content {
                    Some(c) => result_counts(c),
                    None => (0, 0),
                },
                None => (0, 0),
            };
            (self.turn_count as u64) + 1 <= u32::MAX as u64
                && (self.tool_result_count as u128) + (results as u128) <= u32::MAX as u128
                && (self.tool_error_count as u128) + (failed as u128) <= u32::MAX as u128
        } else if is_assistant {
            match &entry.message {
                Some(m) => {
                    let tokens_fit = match (&m.stop_reason, &m.usage) {
                        (Some(_), Some(u)) => {
                            (self.input_tokens as u128) + (u.input_tokens as u128)
                                <= u64::MAX as u128 && (self.output_tokens as u128) + (
                            u.output_tokens as u128) <= u64::MAX as u128 && (
                            self.cache_read_tokens as u128) + (u.cache_read_input_tokens as u128)
                                <= u64::MAX as u128 && (self.cache_creation_tokens as u128) + (
                            u.cache_creation_input_tokens as u128) <= u64::MAX as u128
                        },
                        _ => true,
                    };
                    let calls_fit = match &m.content {
                        Some(c) => (self.tool_call_count as u64) + (count_tool_uses(c) as u64)
                            <= u32::MAX as u64,
                        None => true,
                    };
                    tokens_fit && calls_fit
                },
                None => true,
            }
        } else {
            true
        }
    }

    /// Adds one transcript entry to the totals.
    pub fn accumulate(&mut self, entry: &TranscriptEntry)
        requires
            fits(step(old(self).totals(), *entry)),
        ensures
            final(self).totals() == step(old(self).totals(), *entry),
    {
        let is_user = match &entry.entry_type {
            Some(t) => str_eq(t.as_str(), "user"),
            None => false,
        };
        let is_assistant = match &entry.entry_type {
            Some(t) => str_eq(t.as_str(), "assistant"),
            None => false,
        };
        if is_user {
            self.turn_count = self.turn_count + 1;
            if let Some(m) = &entry.message {
                if let Some(c) = &m.content {
                    let mut total = self.tool_result_count;
                    let mut errors = self.tool_error_count;
                    count_tool_results(c, &mut total, &mut errors);
                    self.tool_result_count = total;
                    self.tool_error_count = errors;
                }
            }
        } else if is_assistant {
            if let Some(m) = &entry.message {
                if let Some(r) = &m.stop_reason {
                    self.last_stop_reason = Some(r.clone());
                    if let Some(u) = &m.usage {
                        self.input_tokens = self.input_tokens + u.input_tokens as u64;
                        self.output_tokens = self.output_tokens + u.output_tokens as u64;
                        self.cache_read_tokens = self.cache_read_tokens
                            + u.cache_read_input_tokens as u64;
                        self.cache_creation_tokens = self.cache_creation_tokens
                            + u.cache_creation_input_tokens as u64;
                    }
                }
                if let Some(c) = &m.content {
                    self.tool_call_count = self.tool_call_count + count_tool_uses(c);
                }
            }
        }
    }

    /// The cache hit rate as a fraction `(read, total)` of input tokens, in
    /// percent `read * 100 / total`; none when no input token was counted.
    pub fn cache_hit_fraction(&self) -> (r: Option<(u64, u64)>)
        requires
            self.input_tokens + self.cache_read_tokens + self.cache_creation_tokens <= u64::MAX,
        ensures
            r == (if self.input_tokens + self.cache_read_tokens + self.cache_creation_tokens == 0 {
                None
            } else {
                Some(
                    (
                        self.cache_read_tokens,
                        (self.input_tokens + self.cache_read_tokens
                            + self.cache_creation_tokens) as u64,
                    ),
                )
            }),
    {
        let total = self.input_tokens + self.cache_read_tokens + self.cache_creation_tokens;
        if total == 0 {
            None
        } else {
            Some((self.cache_read_tokens, total))
        }
    }

    /// The tool success rate as a fraction `(succeeded, results)`, where
    /// failures beyond the number of results count as none succeeding;
    /// none when no tool result was counted.
    pub fn tool_success_fraction(&self) -> (r: Option<(u32, u32)>)
        ensures
            r == (if self.tool_result_count == 0 {
                None
            } else if self.tool_error_count <= self.tool_result_count {
                Some(((self.tool_result_count - self.tool_error_count) as u32, self.tool_result_count))
            } else {
                Some((0u32, self.tool_result_count))
            }),
    {
        if self.tool_result_count == 0 {
            return None;
        }
        let success = self.tool_result_count.saturating_sub(self.tool_error_count);
        Some((success, self.tool_result_count))
    }
}

impl TranscriptStats {
    /// Adds the entries in order, as reading the transcript lines that hold
    /// them does.  Answers whether every total still fits its integer type;
    /// when one would overflow, adding stops before the entry that would
    /// overflow it.
    pub fn extend(&mut self, entries: &Vec<TranscriptEntry>) -> (ok: bool)
        ensures
            ok == fits(totals_after(old(self).totals(), entries@)),
            ok ==> final(self).totals() == totals_after(old(self).totals(), entries@),
            !ok ==> exists|j: int|
                0 <= j < entries@.len() && final(self).totals() == totals_after(
                    old(self).totals(),
                    entries@.take(j),
                ) && !fits(#[trigger] totals_after(old(self).totals(), entries@.take(j + 1))),
    {
        let ghost t0 = self.totals();
        let n = entries.len();
        for i in 0..n
            invariant
                n == entries@.len(),
                self.totals() == totals_after(t0, entries@.take(i as int)),
                t0 == old(self).totals(),
        {
            if !self.can_accumulate(&entries[i]) {
                proof {
                    let a = entries@.take(i + 1);
                    let b = entries@.skip(i + 1);
                    assert(a.drop_last() == entries@.take(i as int));
                    assert(a.last() == entries@[i as int]);
                    assert(a + b == entries@);
                    lemma_totals_append(t0, a, b);
                    lemma_totals_grow(totals_after(t0, a), b);
                    lemma_totals_grow(t0, a);
                    assert(!fits(totals_after(t0, entries@.take(i + 1))));
                }
                return false;
            }
            let ghost before = entries@.take(i as int);
            self.accumulate(&entries[i]);
            proof {
                let a = entries@.take(i + 1);
                assert(a.drop_last() == before);
                assert(a.last() == entries@[i as int]);
            }
        }
        assert(entries@.take(n as int) == entries@);
        true
    }
}

/// Whether a cache still describes a prefix of the transcript file at
/// `path`, now `size` bytes long and last modified at `mtime`: the file has
/// grown since (lines were appended), or kept its size and was not
/// modified.  A file that shrank or was rewritten in place is parsed anew.
pub open spec fn cache_covers(c: TranscriptCache, path: Seq<char>, size: u64, mtime: Seq<char>) -> bool {
    &&& c.transcript_path@ == path
    &&& (size > c.file_size_at_parse || (size == c.file_size_at_parse && c.file_mtime@ == mtime))
}

impl TranscriptCache {
    /// Whether the cached totals can be extended by parsing only what was
    /// appended after `file_size_at_parse`.
    pub fn covers(&self, path: &str, size: u64, mtime: &str) -> (r: bool)
        ensures
            r == cache_covers(*self, path@, size, mtime@),
    {
        if !str_eq(self.transcript_path.as_str(), path) {
            return false;
        }
        if size > self.file_size_at_parse {
            true
        } else if size == self.file_size_at_parse {
            str_eq(self.file_mtime.as_str(), mtime)
        } else {
            false
        }
    }
}

/// Adding entries in two batches gives the totals of adding them at once:
/// an incremental parse of appended lines agrees with a full parse.
pub proof fn lemma_totals_append(t: StatsTotals, a: Seq<TranscriptEntry>, b: Seq<TranscriptEntry>)
    ensures
        totals_after(t, a + b) == totals_after(totals_after(t, a), b),
    decreases b.len(),
{
    if b.len() == 0 {
        assert(a + b == a);
    } else {
        lemma_totals_append(t, a, b.drop_last());
        assert((a + b).drop_last() == a + b.drop_last());
        assert((a + b).last() == b.last());
    }
}

proof fn lemma_failed_within_results(items: Seq<ContentItem>)
    ensures
        count_failed(items) <= count_type(items, "tool_result"@),
    decreases items.len(),
{
    if items.len() > 0 {
        lemma_failed_within_results(items.drop_last());
    }
}

/// Failed tool results never outnumber tool results: the totals keep
/// `tool_error_count <= tool_result_count` entry after entry.
pub proof fn lemma_errors_within_results(t: StatsTotals, entries: Seq<TranscriptEntry>)
    requires
        t.tool_error_count <= t.tool_result_count,
    ensures
        totals_after(t, entries).tool_error_count <= totals_after(t, entries).tool_result_count,
    decreases entries.len(),
{
    if entries.len() > 0 {
        lemma_errors_within_results(t, entries.drop_last());
        let e = entries.last();
        if is_user(e) {
            match e.message {
                Some(m) => match m.content {
                    Some(c) => lemma_failed_within_results(content_items(c)),
                    None => {},
                },
                None => {},
            }
        }
    }
}

/// Totals never decrease as entries are added.
pub proof fn lemma_totals_grow(t: StatsTotals, entries: Seq<TranscriptEntry>)
    ensures
        totals_after(t, entries).input_tokens >= t.input_tokens,
        totals_after(t, entries).output_tokens >= t.output_tokens,
        totals_after(t, entries).cache_read_tokens >= t.cache_read_tokens,
        totals_after(t, entries).cache_creation_tokens >= t.cache_creation_tokens,
        totals_after(t, entries).turn_count >= t.turn_count,
        totals_after(t, entries).tool_call_count >= t.tool_call_count,
        totals_after(t, entries).tool_result_count >= t.tool_result_count,
        totals_after(t, entries).tool_error_count >= t.tool_error_count,
    decreases entries.len(),
{
    if entries.len() > 0 {
        lemma_totals_grow(t, entries.drop_last());
    }
}

/// The number of user entries is the turn count.
pub proof fn lemma_turns_count_users(t: StatsTotals, entries: Seq<TranscriptEntry>)
    ensures
        totals_after(t, entries).turn_count == t.turn_count + entries.filter(|e: TranscriptEntry| is_user(e)).len(),
    decreases entries.len(),
{
    reveal_with_fuel(Seq::filter, 1);
    if entries.len() > 0 {
        lemma_turns_count_users(t, entries.drop_last());
    }
}

/// A tool result counts as failed exactly when its `is_error`
/// flag is `true`: the failures counted are the tool-result items flagged
/// `Some(true)`, so items whose flag is absent or `false` add no failure.
pub proof fn lemma_failed_means_flagged(items: Seq<ContentItem>)
    ensures
        count_failed(items) == items.filter(
            |it: ContentItem| it.item_type matches Some(s) && s@ == "tool_result"@ && it.is_error
                == Some(true),
        ).len(),
        (forall|i: int| 0 <= i < items.len() ==> items[i].is_error != Some(true)) ==> count_failed(
            items,
        ) == 0,
    decreases items.len(),
{
    reveal_with_fuel(Seq::filter, 1);
    if items.len() > 0 {
        lemma_failed_means_flagged(items.drop_last());
        if forall|i: int| 0 <= i < items.len() ==> items[i].is_error != Some(true) {
            assert(items.last().is_error != Some(true));
            assert forall|i: int| 0 <= i < items.drop_last().len() implies items.drop_last()[i].is_error
                != Some(true) by {
                assert(items.drop_last()[i] == items[i]);
            }
        }
    }
}

/// A user entry whose content flags no item as an error leaves the failure
/// count unchanged, and adds each tool result to the result count.
pub proof fn lemma_unflagged_results_succeed(t: StatsTotals, e: TranscriptEntry, items: Vec<ContentItem>)
    requires
        is_user(e),
        e.message matches Some(m) && m.content == Some(MessageContent::Items(items)),
        forall|i: int| 0 <= i < items@.len() ==> items@[i].is_error != Some(true),
    ensures
        step(t, e).tool_error_count == t.tool_error_count,
        step(t, e).tool_result_count == t.tool_result_count + count_type(items@, "tool_result"@),
{
    lemma_failed_means_flagged(items@);
}

} // verus!
