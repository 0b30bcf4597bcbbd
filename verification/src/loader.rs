use vstd::multiset::Multiset;
use vstd::prelude::*;

use crate::config::{id_name, Config, SegmentConfig, SegmentId};
use crate::text::push_str;
use crate::segment_group::{group_of, rank, SegmentGroup};

verus! {

/// Result of initialising the configuration on disk.
#[derive(Debug)]
pub enum InitResult {
    /// The configuration was created at the given path.
    Created(String),
    /// The configuration already existed at the given path.
    AlreadyExists(String),
}

/// Loads and initialises configuration files.
pub struct ConfigLoader;

/// Why a configuration is not valid.
#[derive(Debug, Clone, Copy, PartialEq, Eq, Structural)]
pub enum ConfigError {
    /// The configuration lists no segment.
    NoSegments,
    /// The segment kind occurs more than once.
    DuplicateSegment(SegmentId),
}

/// The segments of `s` whose group is at position `k` of the group order,
/// in their given order.
pub open spec fn in_group(s: Seq<SegmentConfig>, k: nat) -> Seq<SegmentConfig>
    decreases s.len(),
{
    if s.len() == 0 {
        Seq::empty()
    } else if rank(group_of(s.last().id)) == k {
        in_group(s.drop_last(), k).push(s.last())
    } else {
        in_group(s.drop_last(), k)
    }
}

/// The segments regrouped by the group order, each group keeping the
/// relative order it had (a stable sort by group).
pub open spec fn grouped(s: Seq<SegmentConfig>) -> Seq<SegmentConfig> {
    in_group(s, 0) + in_group(s, 1) + in_group(s, 2) + in_group(s, 3) + in_group(s, 4)
        + in_group(s, 5) + in_group(s, 6)
}

/// Segment `j` repeats the kind of an earlier segment.
pub open spec fn repeats_earlier(s: Seq<SegmentConfig>, j: int) -> bool {
    exists|i: int| 0 <= i < j && #[trigger] s[i].id == s[j].id
}

/// The result `Config::check` gives for a list of segments: the first
/// segment (by position) that repeats an earlier kind is reported.
pub open spec fn check_result(s: Seq<SegmentConfig>) -> Result<(), ConfigError> {
    if s.len() == 0 {
        Err(ConfigError::NoSegments)
    } else if exists|j: int| 0 <= j < s.len() && #[trigger] repeats_earlier(s, j) {
        let j = choose|j: int|
            0 <= j < s.len() && repeats_earlier(s, j) && (forall|k: int|
                0 <= k < j ==> !#[trigger] repeats_earlier(s, k));
        Err(ConfigError::DuplicateSegment(s[j].id))
    } else {
        Ok(())
    }
}

impl Config {
    /// Stable-sorts the segments by group: the order between groups is the
    /// fixed group order, the order within a group is kept.
    pub fn normalize_segment_order(&mut self)
        ensures
            final(self).segments@ == grouped(old(self).segments@),
            final(self).style == old(self).style,
            final(self).theme == old(self).theme,
    {
        let mut segs: Vec<SegmentConfig> = Vec::new();
        std::mem::swap(&mut segs, &mut self.segments);
        let ghost orig = segs@;
        let mut b0: Vec<SegmentConfig> = Vec::new();
        let mut b1: Vec<SegmentConfig> = Vec::new();
        let mut b2: Vec<SegmentConfig> = Vec::new();
        let mut b3: Vec<SegmentConfig> = Vec::new();
        let mut b4: Vec<SegmentConfig> = Vec::new();
        let mut b5: Vec<SegmentConfig> = Vec::new();
        let mut b6: Vec<SegmentConfig> = Vec::new();
        for s in it: segs.into_iter()
            invariant
                it.seq() == orig,
                b0@ == in_group(orig.take(it.index() as int), 0),
                b1@ == in_group(orig.take(it.index() as int), 1),
                b2@ == in_group(orig.take(it.index() as int), 2),
                b3@ == in_group(orig.take(it.index() as int), 3),
                b4@ == in_group(orig.take(it.index() as int), 4),
                b5@ == in_group(orig.take(it.index() as int), 5),
                b6@ == in_group(orig.take(it.index() as int), 6),
        {
            let ghost i = it.index() as int;
            assert(orig.take(i + 1).drop_last() == orig.take(i));
            assert(orig.take(i + 1).last() == s);
            let k = SegmentGroup::of(&s.id).sort_key();
            if k == 0 {
                b0.push(s);
            } else if k == 1 {
                b1.push(s);
            } else if k == 2 {
                b2.push(s);
            } else if k == 3 {
                b3.push(s);
            } else if k == 4 {
                b4.push(s);
            } else if k == 5 {
                b5.push(s);
            } else {
                b6.push(s);
            }
        }
        assert(orig.take(orig.len() as int) == orig);
        b0.append(&mut b1);
        b0.append(&mut b2);
        b0.append(&mut b3);
        b0.append(&mut b4);
        b0.append(&mut b5);
        b0.append(&mut b6);
        self.segments = b0;
    }

    /// Validates the configuration: at least one segment, and no segment
    /// kind twice.
    pub fn check(&self) -> (r: Result<(), ConfigError>)
        ensures
            r == check_result(self.segments@),
    {
        let n = self.segments.len();
        if n == 0 {
            return Err(ConfigError::NoSegments);
        }
        for j in 0..n
            invariant
                n == self.segments@.len(),
                forall|k: int| 0 <= k < j ==> !#[trigger] repeats_earlier(self.segments@, k),
        {
            if repeats_before(&self.segments, j) {
                proof {
                    lemma_first_repeat(self.segments@, j as int);
                }
                return Err(ConfigError::DuplicateSegment(self.segments[j].id));
            }
        }
        Ok(())
    }
}

/// Whether segment `j` repeats the kind of an earlier segment.
fn repeats_before(segs: &Vec<SegmentConfig>, j: usize) -> (r: bool)
    requires
        j < segs@.len(),
    ensures
        r == repeats_earlier(segs@, j as int),
{
    let mut i: usize = 0;
    while i < j
        invariant
            0 <= i <= j < segs@.len(),
            forall|k: int| 0 <= k < i ==> segs@[k].id != segs@[j as int].id,
        decreases j - i,
    {
        if segs[i].id == segs[j].id {
            assert(segs@[i as int].id == segs@[j as int].id);
            return true;
        }
        i = i + 1;
    }
    false
}

proof fn lemma_first_repeat(s: Seq<SegmentConfig>, j: int)
    requires
        0 <= j < s.len(),
        repeats_earlier(s, j),
        forall|k: int| 0 <= k < j ==> !#[trigger] repeats_earlier(s, k),
    ensures
        check_result(s) == Err::<(), ConfigError>(ConfigError::DuplicateSegment(s[j].id)),
{
    let w = choose|w: int|
        0 <= w < s.len() && repeats_earlier(s, w) && (forall|k: int|
            0 <= k < w ==> !#[trigger] repeats_earlier(s, k));
    assert(0 <= w < s.len() && repeats_earlier(s, w) && (forall|k: int|
            0 <= k < w ==> !#[trigger] repeats_earlier(s, k)));
    if w < j {
        assert(!repeats_earlier(s, w));
    } else if w > j {
        assert(!repeats_earlier(s, j));
    }
}

/// The group rank of a segment.
pub open spec fn seg_rank(c: SegmentConfig) -> nat {
    rank(group_of(c.id))
}

proof fn lemma_in_group_append(a: Seq<SegmentConfig>, b: Seq<SegmentConfig>, k: nat)
    ensures
        in_group(a + b, k) == in_group(a, k) + in_group(b, k),
    decreases b.len(),
{
    if b.len() == 0 {
        assert(a + b == a);
        assert(in_group(b, k) == Seq::<SegmentConfig>::empty());
        assert(in_group(a, k) + in_group(b, k) == in_group(a, k));
    } else {
        lemma_in_group_append(a, b.drop_last(), k);
        assert((a + b).drop_last() == a + b.drop_last());
        assert((a + b).last() == b.last());
    }
}

proof fn lemma_in_group_members(s: Seq<SegmentConfig>, k: nat)
    ensures
        forall|i: int| 0 <= i < in_group(s, k).len() ==> #[trigger] seg_rank(in_group(s, k)[i]) == k,
        in_group(s, k).len() <= s.len(),
    decreases s.len(),
{
    if s.len() > 0 {
        lemma_in_group_members(s.drop_last(), k);
    }
}

proof fn lemma_in_group_of_in_group(s: Seq<SegmentConfig>, j: nat, k: nat)
    ensures
        in_group(in_group(s, j), k) == (if j == k { in_group(s, k) } else { Seq::empty() }),
    decreases s.len(),
{
    if s.len() > 0 {
        lemma_in_group_of_in_group(s.drop_last(), j, k);
        let t = in_group(s.drop_last(), j);
        if seg_rank(s.last()) == j {
            assert(in_group(s, j) == t.push(s.last()));
            assert(in_group(s, j).drop_last() == t);
            assert(in_group(s, j).last() == s.last());
        }
    }
}

proof fn lemma_in_group_single_rank(s: Seq<SegmentConfig>, k: nat)
    requires
        forall|i: int| 0 <= i < s.len() ==> #[trigger] seg_rank(s[i]) == k,
    ensures
        in_group(s, k) == s,
    decreases s.len(),
{
    if s.len() > 0 {
        assert forall|i: int| 0 <= i < s.drop_last().len() implies #[trigger] seg_rank(
            s.drop_last()[i],
        ) == k by {
            assert(s.drop_last()[i] == s[i]);
        }
        lemma_in_group_single_rank(s.drop_last(), k);
        assert(seg_rank(s[s.len() - 1]) == k);
        assert(s.drop_last().push(s.last()) == s);
    }
}

proof fn lemma_in_group_other_rank(s: Seq<SegmentConfig>, j: nat, k: nat)
    requires
        forall|i: int| 0 <= i < s.len() ==> #[trigger] seg_rank(s[i]) == j,
        j != k,
    ensures
        in_group(s, k) == Seq::<SegmentConfig>::empty(),
    decreases s.len(),
{
    if s.len() > 0 {
        assert forall|i: int| 0 <= i < s.drop_last().len() implies #[trigger] seg_rank(
            s.drop_last()[i],
        ) == j by {
            assert(s.drop_last()[i] == s[i]);
        }
        lemma_in_group_other_rank(s.drop_last(), j, k);
        assert(seg_rank(s[s.len() - 1]) == j);
    }
}

/// Ranks of `a` stay below `k`, ranks of `b` equal `k`, both sorted: then
/// `a + b` is sorted and its ranks stay at most `k`.
proof fn lemma_sorted_concat(a: Seq<SegmentConfig>, b: Seq<SegmentConfig>, k: nat)
    requires
        forall|i: int, j: int| 0 <= i < j < a.len() ==> seg_rank(#[trigger] a[i]) <= seg_rank(
            #[trigger] a[j],
        ),
        forall|i: int| 0 <= i < a.len() ==> #[trigger] seg_rank(a[i]) < k,
        forall|i: int| 0 <= i < b.len() ==> #[trigger] seg_rank(b[i]) == k,
    ensures
        forall|i: int, j: int|
            0 <= i < j < (a + b).len() ==> seg_rank(#[trigger] (a + b)[i]) <= seg_rank(
                #[trigger] (a + b)[j],
            ),
        forall|i: int| 0 <= i < (a + b).len() ==> #[trigger] seg_rank((a + b)[i]) <= k,
{
    assert forall|i: int, j: int| 0 <= i < j < (a + b).len() implies seg_rank(
        #[trigger] (a + b)[i],
    ) <= seg_rank(#[trigger] (a + b)[j]) by {
        if j < a.len() {
            assert((a + b)[i] == a[i]);
            assert((a + b)[j] == a[j]);
        } else if i < a.len() {
            assert((a + b)[i] == a[i]);
            assert((a + b)[j] == b[j - a.len()]);
        } else {
            assert((a + b)[i] == b[i - a.len()]);
            assert((a + b)[j] == b[j - a.len()]);
        }
    }
    assert forall|i: int| 0 <= i < (a + b).len() implies #[trigger] seg_rank((a + b)[i]) <= k by {
        if i < a.len() {
            assert((a + b)[i] == a[i]);
        } else {
            assert((a + b)[i] == b[i - a.len()]);
        }
    }
}

/// Normalised segment order is sorted by group: a segment never comes
/// after a segment of a later group.
pub proof fn lemma_normalize_sorted(s: Seq<SegmentConfig>)
    ensures
        forall|i: int, j: int|
            0 <= i < j < grouped(s).len() ==> seg_rank(#[trigger] grouped(s)[i]) <= seg_rank(
                #[trigger] grouped(s)[j],
            ),
{
    lemma_in_group_members(s, 0);
    lemma_in_group_members(s, 1);
    lemma_in_group_members(s, 2);
    lemma_in_group_members(s, 3);
    lemma_in_group_members(s, 4);
    lemma_in_group_members(s, 5);
    lemma_in_group_members(s, 6);
    let g0 = in_group(s, 0);
    assert forall|i: int, j: int| 0 <= i < j < g0.len() implies seg_rank(#[trigger] g0[i])
        <= seg_rank(#[trigger] g0[j]) by {}
    lemma_sorted_concat(g0, in_group(s, 1), 1);
    let g1 = g0 + in_group(s, 1);
    assert forall|i: int| 0 <= i < g1.len() implies #[trigger] seg_rank(g1[i]) < 2 by {}
    lemma_sorted_concat(g1, in_group(s, 2), 2);
    let g2 = g1 + in_group(s, 2);
    assert forall|i: int| 0 <= i < g2.len() implies #[trigger] seg_rank(g2[i]) < 3 by {}
    lemma_sorted_concat(g2, in_group(s, 3), 3);
    let g3 = g2 + in_group(s, 3);
    assert forall|i: int| 0 <= i < g3.len() implies #[trigger] seg_rank(g3[i]) < 4 by {}
    lemma_sorted_concat(g3, in_group(s, 4), 4);
    let g4 = g3 + in_group(s, 4);
    assert forall|i: int| 0 <= i < g4.len() implies #[trigger] seg_rank(g4[i]) < 5 by {}
    lemma_sorted_concat(g4, in_group(s, 5), 5);
    let g5 = g4 + in_group(s, 5);
    assert forall|i: int| 0 <= i < g5.len() implies #[trigger] seg_rank(g5[i]) < 6 by {}
    lemma_sorted_concat(g5, in_group(s, 6), 6);
}

/// Normalising keeps the order of the segments within each group.
pub proof fn lemma_normalize_stable(s: Seq<SegmentConfig>, k: nat)
    ensures
        in_group(grouped(s), k) == in_group(s, k),
{
    let g0 = in_group(s, 0);
    let g1 = in_group(s, 1);
    let g2 = in_group(s, 2);
    let g3 = in_group(s, 3);
    let g4 = in_group(s, 4);
    let g5 = in_group(s, 5);
    let g6 = in_group(s, 6);
    lemma_in_group_append(g0, g1, k);
    lemma_in_group_append(g0 + g1, g2, k);
    lemma_in_group_append(g0 + g1 + g2, g3, k);
    lemma_in_group_append(g0 + g1 + g2 + g3, g4, k);
    lemma_in_group_append(g0 + g1 + g2 + g3 + g4, g5, k);
    lemma_in_group_append(g0 + g1 + g2 + g3 + g4 + g5, g6, k);
    lemma_in_group_of_in_group(s, 0, k);
    lemma_in_group_of_in_group(s, 1, k);
    lemma_in_group_of_in_group(s, 2, k);
    lemma_in_group_of_in_group(s, 3, k);
    lemma_in_group_of_in_group(s, 4, k);
    lemma_in_group_of_in_group(s, 5, k);
    lemma_in_group_of_in_group(s, 6, k);
    let e = Seq::<SegmentConfig>::empty();
    let t = in_group(s, k);
    assert(e + t == t);
    assert(t + e == t);
    assert(e + e == e);
    if k >= 7 {
        lemma_in_group_members(s, k);
        lemma_rank_below_seven(s, k);
    }
}

proof fn lemma_rank_below_seven(s: Seq<SegmentConfig>, k: nat)
    requires
        k >= 7,
    ensures
        in_group(s, k) == Seq::<SegmentConfig>::empty(),
    decreases s.len(),
{
    if s.len() > 0 {
        lemma_rank_below_seven(s.drop_last(), k);
    }
}

/// Normalising twice is normalising once.
pub proof fn lemma_normalize_idempotent(s: Seq<SegmentConfig>)
    ensures
        grouped(grouped(s)) == grouped(s),
{
    lemma_normalize_stable(s, 0);
    lemma_normalize_stable(s, 1);
    lemma_normalize_stable(s, 2);
    lemma_normalize_stable(s, 3);
    lemma_normalize_stable(s, 4);
    lemma_normalize_stable(s, 5);
    lemma_normalize_stable(s, 6);
}

proof fn lemma_split_multiset(s: Seq<SegmentConfig>)
    ensures
        s.to_multiset() == in_group(s, 0).to_multiset().add(in_group(s, 1).to_multiset()).add(
            in_group(s, 2).to_multiset(),
        ).add(in_group(s, 3).to_multiset()).add(in_group(s, 4).to_multiset()).add(
            in_group(s, 5).to_multiset(),
        ).add(in_group(s, 6).to_multiset()),
    decreases s.len(),
{
    broadcast use vstd::seq_lib::group_to_multiset_ensures;
    broadcast use vstd::multiset::group_multiset_axioms;

    if s.len() == 0 {
        assert(s.to_multiset() =~= Multiset::empty());
        assert(in_group(s, 0).to_multiset() =~= Multiset::empty());
        assert(in_group(s, 1).to_multiset() =~= Multiset::empty());
        assert(in_group(s, 2).to_multiset() =~= Multiset::empty());
        assert(in_group(s, 3).to_multiset() =~= Multiset::empty());
        assert(in_group(s, 4).to_multiset() =~= Multiset::empty());
        assert(in_group(s, 5).to_multiset() =~= Multiset::empty());
        assert(in_group(s, 6).to_multiset() =~= Multiset::empty());
        assert(s.to_multiset() =~= in_group(s, 0).to_multiset().add(in_group(s, 1).to_multiset()).add(
            in_group(s, 2).to_multiset(),
        ).add(in_group(s, 3).to_multiset()).add(in_group(s, 4).to_multiset()).add(
            in_group(s, 5).to_multiset(),
        ).add(in_group(s, 6).to_multiset()));
    } else {
        let p = s.drop_last();
        lemma_split_multiset(p);
        assert(p.push(s.last()) == s);
        assert(s.to_multiset() =~= in_group(s, 0).to_multiset().add(in_group(s, 1).to_multiset()).add(
            in_group(s, 2).to_multiset(),
        ).add(in_group(s, 3).to_multiset()).add(in_group(s, 4).to_multiset()).add(
            in_group(s, 5).to_multiset(),
        ).add(in_group(s, 6).to_multiset()));
    }
}

/// Normalising only reorders: the segments, with their multiplicities,
/// are the same.
pub proof fn lemma_normalize_permutation(s: Seq<SegmentConfig>)
    ensures
        grouped(s).to_multiset() == s.to_multiset(),
        grouped(s).len() == s.len(),
{
    broadcast use vstd::seq_lib::group_to_multiset_ensures;

    let g0 = in_group(s, 0);
    let g1 = in_group(s, 1);
    let g2 = in_group(s, 2);
    let g3 = in_group(s, 3);
    let g4 = in_group(s, 4);
    let g5 = in_group(s, 5);
    let g6 = in_group(s, 6);
    vstd::seq_lib::lemma_multiset_commutative(g0, g1);
    vstd::seq_lib::lemma_multiset_commutative(g0 + g1, g2);
    vstd::seq_lib::lemma_multiset_commutative(g0 + g1 + g2, g3);
    vstd::seq_lib::lemma_multiset_commutative(g0 + g1 + g2 + g3, g4);
    vstd::seq_lib::lemma_multiset_commutative(g0 + g1 + g2 + g3 + g4, g5);
    vstd::seq_lib::lemma_multiset_commutative(g0 + g1 + g2 + g3 + g4 + g5, g6);
    lemma_split_multiset(s);
    assert(grouped(s).len() == grouped(s).to_multiset().len());
    assert(s.len() == s.to_multiset().len());
}

/// The message of a configuration error.
pub open spec fn error_message(e: ConfigError) -> Seq<char> {
    match e {
        ConfigError::NoSegments => "No segments configured"@,
        ConfigError::DuplicateSegment(id) => "Duplicate segment ID: "@ + id_name(id),
    }
}

impl ConfigError {
    /// The message shown for the error.
    pub fn message(&self) -> (r: String)
        ensures
            r@ == error_message(*self),
    {
        let mut s = String::new();
        match self {
            ConfigError::NoSegments => push_str(&mut s, "No segments configured"),
            ConfigError::DuplicateSegment(id) => {
                push_str(&mut s, "Duplicate segment ID: ");
                push_str(&mut s, id.name());
            },
        }
        s
    }
}

/// The names of the built-in themes.
pub open spec fn builtin_themes() -> Seq<Seq<char>> {
    seq![
        "default"@,
        "minimal"@,
        "gruvbox"@,
        "nord"@,
        "cometix"@,
        "powerline-dark"@,
        "powerline-light"@,
        "powerline-rose-pine"@,
        "powerline-tokyo-night"@,
    ]
}

impl ConfigLoader {
    /// The names of the built-in themes, in the order their files are
    /// written.
    pub fn builtin_theme_names() -> (r: Vec<&'static str>)
        ensures
            r@.map_values(|s: &str| s@) == builtin_themes(),
    {
        let mut v: Vec<&'static str> = Vec::new();
        v.push("default");
        v.push("minimal");
        v.push("gruvbox");
        v.push("nord");
        v.push("cometix");
        v.push("powerline-dark");
        v.push("powerline-light");
        v.push("powerline-rose-pine");
        v.push("powerline-tokyo-night");
        assert(v@.map_values(|s: &str| s@) =~= builtin_themes());
        v
    }
}

proof fn lemma_least_repeat(s: Seq<SegmentConfig>, j: int) -> (m: int)
    requires
        0 <= j < s.len(),
        repeats_earlier(s, j),
    ensures
        0 <= m <= j,
        repeats_earlier(s, m),
        forall|k: int| 0 <= k < m ==> !#[trigger] repeats_earlier(s, k),
    decreases j,
{
    if exists|k: int| 0 <= k < j && #[trigger] repeats_earlier(s, k) {
        let k = choose|k: int| 0 <= k < j && #[trigger] repeats_earlier(s, k);
        lemma_least_repeat(s, k)
    } else {
        j
    }
}

/// A configuration passes the check exactly when it lists at least one
/// segment and no segment kind twice; a reported duplicate is a kind that
/// occurs at two positions.
pub proof fn lemma_check_accepts_distinct(s: Seq<SegmentConfig>)
    ensures
        check_result(s) == Ok::<(), ConfigError>(()) <==> (s.len() > 0 && forall|i: int, j: int|
            0 <= i < j < s.len() ==> s[i].id != s[j].id),
        check_result(s) == Err::<(), ConfigError>(ConfigError::NoSegments) <==> s.len() == 0,
        check_result(s) matches Err(ConfigError::DuplicateSegment(id)) ==> exists|i: int, j: int|
            0 <= i < j < s.len() && s[i].id == id && s[j].id == id,
{
    if exists|j: int| 0 <= j < s.len() && #[trigger] repeats_earlier(s, j) {
        let j0 = choose|j: int| 0 <= j < s.len() && #[trigger] repeats_earlier(s, j);
        let m = lemma_least_repeat(s, j0);
        lemma_first_repeat(s, m);
        let i = choose|i: int| 0 <= i < m && #[trigger] s[i].id == s[m].id;
        assert(0 <= i < m < s.len() && s[i].id == s[m].id);
    } else {
        assert forall|i: int, j: int| 0 <= i < j < s.len() implies s[i].id != s[j].id by {
            if s[i].id == s[j].id {
                assert(repeats_earlier(s, j));
            }
        }
    }
}

} // verus!
