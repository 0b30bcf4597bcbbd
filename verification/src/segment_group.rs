use vstd::prelude::*;

use crate::config::SegmentId;

verus! {

/// Thematic group of segments; groups are shown in a fixed order.
#[derive(Debug, Clone, Copy, PartialEq, Eq, Structural)]
pub enum SegmentGroup {
    Identity,
    Place,
    Tokens,
    Quota,
    Time,
    Activity,
    Other,
}

/// Fixed inter-group order.  The order within a group comes from the
/// configuration.
pub const GROUP_ORDER: [SegmentGroup; 7] = [
    SegmentGroup::Identity,
    SegmentGroup::Place,
    SegmentGroup::Tokens,
    SegmentGroup::Quota,
    SegmentGroup::Time,
    SegmentGroup::Activity,
    SegmentGroup::Other,
];

/// The group order as a sequence.
pub open spec fn group_order() -> Seq<SegmentGroup> {
    seq![
        SegmentGroup::Identity,
        SegmentGroup::Place,
        SegmentGroup::Tokens,
        SegmentGroup::Quota,
        SegmentGroup::Time,
        SegmentGroup::Activity,
        SegmentGroup::Other,
    ]
}

/// Position of a group in the group order.
pub open spec fn rank(g: SegmentGroup) -> nat {
    match g {
        SegmentGroup::Identity => 0,
        SegmentGroup::Place => 1,
        SegmentGroup::Tokens => 2,
        SegmentGroup::Quota => 3,
        SegmentGroup::Time => 4,
        SegmentGroup::Activity => 5,
        SegmentGroup::Other => 6,
    }
}

/// The group each segment kind belongs to.
pub open spec fn group_of(id: SegmentId) -> SegmentGroup {
    match id {
        SegmentId::Model | SegmentId::OutputStyle => SegmentGroup::Identity,
        SegmentId::Directory | SegmentId::Git => SegmentGroup::Place,
        SegmentId::ContextWindow | SegmentId::CacheHit => SegmentGroup::Tokens,
        SegmentId::Usage | SegmentId::Cost => SegmentGroup::Quota,
        SegmentId::Session | SegmentId::ApiDuration | SegmentId::Lines => SegmentGroup::Time,
        SegmentId::Turns | SegmentId::Tools | SegmentId::StopReason | SegmentId::ToolSuccess => {
            SegmentGroup::Activity
        },
        SegmentId::Update => SegmentGroup::Other,
    }
}

/// The display label of a group.
pub open spec fn label_text(g: SegmentGroup) -> Seq<char> {
    match g {
        SegmentGroup::Identity => "Identity"@,
        SegmentGroup::Place => "Place"@,
        SegmentGroup::Tokens => "Tokens"@,
        SegmentGroup::Quota => "Quota"@,
        SegmentGroup::Time => "Time"@,
        SegmentGroup::Activity => "Activity"@,
        SegmentGroup::Other => "Other"@,
    }
}

impl SegmentGroup {
    /// The display label of the group.
    pub fn label(&self) -> (r: &'static str)
        ensures
            r@ == label_text(*self),
    {
        match self {
            SegmentGroup::Identity => "Identity",
            SegmentGroup::Place => "Place",
            SegmentGroup::Tokens => "Tokens",
            SegmentGroup::Quota => "Quota",
            SegmentGroup::Time => "Time",
            SegmentGroup::Activity => "Activity",
            SegmentGroup::Other => "Other",
        }
    }

    /// The group a segment kind belongs to.
    pub fn of(id: &SegmentId) -> (g: Self)
        ensures
            g == group_of(*id),
    {
        match id {
            SegmentId::Model | SegmentId::OutputStyle => SegmentGroup::Identity,
            SegmentId::Directory | SegmentId::Git => SegmentGroup::Place,
            SegmentId::ContextWindow | SegmentId::CacheHit => SegmentGroup::Tokens,
            SegmentId::Usage | SegmentId::Cost => SegmentGroup::Quota,
            SegmentId::Session | SegmentId::ApiDuration | SegmentId::Lines => SegmentGroup::Time,
            SegmentId::Turns | SegmentId::Tools | SegmentId::StopReason | SegmentId::ToolSuccess => {
                SegmentGroup::Activity
            },
            SegmentId::Update => SegmentGroup::Other,
        }
    }

    /// Position of the group in `GROUP_ORDER`.
    pub fn sort_key(&self) -> (k: usize)
        ensures
            k == rank(*self),
            k < 7,
            group_order()[k as int] == *self,
    {
        match self {
            SegmentGroup::Identity => 0,
            SegmentGroup::Place => 1,
            SegmentGroup::Tokens => 2,
            SegmentGroup::Quota => 3,
            SegmentGroup::Time => 4,
            SegmentGroup::Activity => 5,
            SegmentGroup::Other => 6,
        }
    }
}

/// `GROUP_ORDER` lists every group exactly once, and the sort key of the
/// group at position `k` is `k`.
pub proof fn lemma_group_order_ranks(k: int, g: SegmentGroup)
    ensures
        group_order().len() == 7,
        0 <= k < 7 ==> rank(group_order()[k]) == k,
        0 <= rank(g) < 7 && group_order()[rank(g) as int] == g,
{
}

/// The executable constant holds the group order.
pub proof fn lemma_group_order_constant()
    ensures
        GROUP_ORDER@ == group_order(),
{
    assert(GROUP_ORDER@ =~= group_order());
}

} // verus!
