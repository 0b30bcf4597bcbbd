use vstd::prelude::*;

use crate::config::{Config, SegmentConfig, SegmentId};
use crate::loader::{grouped, in_group, lemma_normalize_stable};
use crate::segment_group::{group_of, group_order, rank, SegmentGroup, GROUP_ORDER};

verus! {

/// The panel of the configuration screen that has focus.
#[derive(Debug, Clone, Copy, PartialEq, Eq, Structural)]
pub enum Panel {
    SegmentList,
    Settings,
}

/// The setting being edited.
#[derive(Debug, Clone, Copy, PartialEq, Eq, Structural)]
pub enum FieldSelection {
    Enabled,
    Icon,
    IconColor,
    TextColor,
    BackgroundColor,
    TextStyle,
    Options,
}

/// The list of segments on the configuration screen.
pub struct SegmentListComponent;

/// One row of the segment list.
#[derive(Debug, Clone, Copy, PartialEq, Eq, Structural)]
pub enum ListRow {
    /// The heading of a group.
    Header(SegmentGroup),
    /// A configured segment: its position in the configuration, whether it
    /// is the selected one, whether it is enabled, and its kind.
    Item { index: usize, selected: bool, enabled: bool, id: SegmentId },
}

/// The item rows of group `g` among the first segments, in configuration
/// order.
pub open spec fn group_items(
    segs: Seq<SegmentConfig>,
    g: SegmentGroup,
    selected: int,
    on_list: bool,
) -> Seq<ListRow>
    decreases segs.len(),
{
    if segs.len() == 0 {
        Seq::empty()
    } else {
        let prev = group_items(segs.drop_last(), g, selected, on_list);
        let i = segs.len() - 1;
        let c = segs.last();
        if group_of(c.id) == g {
            prev.push(
                ListRow::Item {
                    index: i as usize,
                    selected: i == selected && on_list,
                    enabled: c.enabled,
                    id: c.id,
                },
            )
        } else {
            prev
        }
    }
}

/// The rows of one group: its heading and its items, or nothing when the
/// group has no segment.
pub open spec fn group_block(
    segs: Seq<SegmentConfig>,
    g: SegmentGroup,
    selected: int,
    on_list: bool,
) -> Seq<ListRow> {
    let items = group_items(segs, g, selected, on_list);
    if items.len() == 0 {
        Seq::empty()
    } else {
        seq![ListRow::Header(g)] + items
    }
}

/// The rows of the first `m` groups of the group order.
pub open spec fn list_rows(segs: Seq<SegmentConfig>, selected: int, on_list: bool, m: int) -> Seq<
    ListRow,
>
    decreases m,
{
    if m <= 0 {
        Seq::empty()
    } else {
        list_rows(segs, selected, on_list, m - 1) + group_block(
            segs,
            group_order()[m - 1],
            selected,
            on_list,
        )
    }
}

/// The position of the selected item among the rows, if any.
pub open spec fn selected_row(rows: Seq<ListRow>) -> Option<int>
    decreases rows.len(),
{
    if rows.len() == 0 {
        None
    } else if rows.last() matches ListRow::Item { selected: true, .. } {
        Some(rows.len() - 1)
    } else {
        selected_row(rows.drop_last())
    }
}

impl SegmentListComponent {
    pub fn new() -> Self {
        SegmentListComponent
    }

    /// The rows of the segment list: segments bucketed by group in the
    /// group order (the configuration itself is not reordered), each
    /// non-empty group under its heading; and the row of the selected
    /// segment when the list has focus.
    pub fn rows(&self, config: &Config, selected_segment: usize, selected_panel: &Panel) -> (r: (
        Vec<ListRow>,
        Option<usize>,
    ))
        ensures
            r.0@ == list_rows(
                config.segments@,
                selected_segment as int,
                *selected_panel == Panel::SegmentList,
                7,
            ),
            match r.1 {
                Some(j) => selected_row(r.0@) == Some(j as int),
                None => selected_row(r.0@) is None,
            },
    {
        let segs = &config.segments;
        let n = segs.len();
        let on_list = *selected_panel == Panel::SegmentList;
        let ghost sel = selected_segment as int;
        let mut items: Vec<ListRow> = Vec::new();
        let mut selected_list_index: Option<usize> = None;
        proof {
            crate::segment_group::lemma_group_order_constant();
        }
        for k in 0..7usize
            invariant
                n == segs@.len(),
                sel == selected_segment as int,
                on_list == (*selected_panel == Panel::SegmentList),
                GROUP_ORDER@ == group_order(),
                items@ == list_rows(segs@, sel, on_list, k as int),
                match selected_list_index {
                    Some(j) => selected_row(items@) == Some(j as int),
                    None => selected_row(items@) is None,
                },
        {
            let group = GROUP_ORDER[k];
            let ghost start = items@;
            let mut group_has_items = false;
            for vec_idx in 0..n
                invariant
                    n == segs@.len(),
                    k < 7,
                    sel == selected_segment as int,
                    on_list == (*selected_panel == Panel::SegmentList),
                    group == group_order()[k as int],
                    group_has_items == (group_items(segs@.take(vec_idx as int), group, sel, on_list).len() > 0),
                    items@ == start + (if group_has_items {
                        seq![ListRow::Header(group)] + group_items(segs@.take(vec_idx as int), group, sel, on_list)
                    } else {
                        Seq::empty()
                    }),
                    match selected_list_index {
                        Some(j) => selected_row(items@) == Some(j as int),
                        None => selected_row(items@) is None,
                    },
            {
                let ghost p = segs@.take(vec_idx + 1);
                assert(p.drop_last() == segs@.take(vec_idx as int));
                assert(p.last() == segs@[vec_idx as int]);
                let segment = &segs[vec_idx];
                if SegmentGroup::of(&segment.id) == group {
                    if !group_has_items {
                        let ghost b0 = items@;
                        items.push(ListRow::Header(group));
                        assert(items@.drop_last() == b0);
                        assert(items@.last() == ListRow::Header(group));
                        assert(selected_row(items@) == selected_row(b0));
                        assert(group_items(segs@.take(vec_idx as int), group, sel, on_list).len() == 0);
                        assert(items@ == start + seq![ListRow::Header(group)] + group_items(segs@.take(vec_idx as int), group, sel, on_list));
                        group_has_items = true;
                    }
                    let is_selected = vec_idx == selected_segment && on_list;
                    let row = ListRow::Item {
                        index: vec_idx,
                        selected: is_selected,
                        enabled: segment.enabled,
                        id: segment.id,
                    };
                    if is_selected {
                        selected_list_index = Some(items.len());
                    }
                    let ghost before = items@;
                    items.push(row);
                    assert(items@.drop_last() == before);
                    assert(items@.last() == row);
                    assert(items@.len() == before.len() + 1);
                    assert(selected_row(items@) == (if is_selected {
                        Some(before.len() as int)
                    } else {
                        selected_row(before)
                    }));
                    assert(p.len() - 1 == vec_idx as int);
                    assert(p.last().id == segment.id);
                    assert(p.last().enabled == segment.enabled);
                    assert(row == ListRow::Item {
                        index: ((p.len() - 1) as int) as usize,
                        selected: (p.len() - 1) == sel && on_list,
                        enabled: p.last().enabled,
                        id: p.last().id,
                    });
                    assert(group_items(p, group, sel, on_list) == group_items(segs@.take(vec_idx as int), group, sel, on_list).push(row));
                    assert(items@ =~= start + (seq![ListRow::Header(group)] + group_items(p, group, sel, on_list)));
                } else {
                    assert(group_items(p, group, sel, on_list) == group_items(segs@.take(vec_idx as int), group, sel, on_list));
                }
            }
            assert(segs@.take(n as int) == segs@);
            assert(items@ =~= list_rows(segs@, sel, on_list, k + 1));
        }
        (items, selected_list_index)
    }
}

/// Number of item rows for configuration position `i`.
pub open spec fn item_count(rows: Seq<ListRow>, i: int) -> nat
    decreases rows.len(),
{
    if rows.len() == 0 {
        0
    } else {
        item_count(rows.drop_last(), i) + if rows.last() matches ListRow::Item { index, .. } && index
            == i {
            1nat
        } else {
            0nat
        }
    }
}

proof fn lemma_item_count_append(a: Seq<ListRow>, b: Seq<ListRow>, i: int)
    ensures
        item_count(a + b, i) == item_count(a, i) + item_count(b, i),
    decreases b.len(),
{
    if b.len() == 0 {
        assert(a + b == a);
    } else {
        lemma_item_count_append(a, b.drop_last(), i);
        assert((a + b).drop_last() == a + b.drop_last());
        assert((a + b).last() == b.last());
    }
}

proof fn lemma_group_items_count(
    segs: Seq<SegmentConfig>,
    g: SegmentGroup,
    sel: int,
    on_list: bool,
    i: int,
)
    requires
        segs.len() <= usize::MAX,
    ensures
        item_count(group_items(segs, g, sel, on_list), i) == (if 0 <= i < segs.len() && group_of(
            segs[i].id,
        ) == g {
            1nat
        } else {
            0nat
        }),
    decreases segs.len(),
{
    if segs.len() > 0 {
        let p = segs.drop_last();
        lemma_group_items_count(p, g, sel, on_list, i);
        if 0 <= i < p.len() {
            assert(p[i] == segs[i]);
        }
        let prev = group_items(p, g, sel, on_list);
        let k = segs.len() - 1;
        if group_of(segs.last().id) == g {
            let x = ListRow::Item {
                index: k as usize,
                selected: k == sel && on_list,
                enabled: segs.last().enabled,
                id: segs.last().id,
            };
            assert(group_items(segs, g, sel, on_list) == prev.push(x));
            assert(prev.push(x).drop_last() == prev);
            assert(prev.push(x).last() == x);
            assert((k as usize) as int == k);
            assert(segs[k] == segs.last());
        }
    }
}

proof fn lemma_list_rows_count(segs: Seq<SegmentConfig>, sel: int, on_list: bool, m: int, i: int)
    requires
        segs.len() <= usize::MAX,
        0 <= m <= 7,
    ensures
        item_count(list_rows(segs, sel, on_list, m), i) == (if 0 <= i < segs.len() && rank(
            group_of(segs[i].id),
        ) < m {
            1nat
        } else {
            0nat
        }),
    decreases m,
{
    if m > 0 {
        lemma_list_rows_count(segs, sel, on_list, m - 1, i);
        let g = group_order()[m - 1];
        let items = group_items(segs, g, sel, on_list);
        lemma_group_items_count(segs, g, sel, on_list, i);
        lemma_item_count_append(list_rows(segs, sel, on_list, m - 1), group_block(segs, g, sel, on_list), i);
        if items.len() > 0 {
            lemma_item_count_append(seq![ListRow::Header(g)], items, i);
            assert(item_count(seq![ListRow::Header(g)], i) == 0) by {
                reveal_with_fuel(item_count, 2);
                assert(seq![ListRow::Header(g)].drop_last() =~= Seq::<ListRow>::empty());
            }
        } else {
            assert(item_count(Seq::<ListRow>::empty(), i) == 0);
        }
        if 0 <= i < segs.len() {
            crate::segment_group::lemma_group_order_ranks(m - 1, group_of(segs[i].id));
        }
    }
}

/// The segment list shows every configured segment exactly once.
pub proof fn lemma_every_segment_listed_once(
    segs: Seq<SegmentConfig>,
    selected: int,
    on_list: bool,
    i: int,
)
    requires
        segs.len() <= usize::MAX,
        0 <= i < segs.len(),
    ensures
        item_count(list_rows(segs, selected, on_list, 7), i) == 1,
{
    lemma_list_rows_count(segs, selected, on_list, 7, i);
    crate::segment_group::lemma_group_order_ranks(0, group_of(segs[i].id));
}

/// A row without the position and selection of its segment: what the list
/// shows of a segment apart from the cursor.
pub open spec fn unindexed(r: ListRow) -> ListRow {
    match r {
        ListRow::Header(g) => ListRow::Header(g),
        ListRow::Item { enabled, id, .. } => ListRow::Item { index: 0, selected: false, enabled, id },
    }
}

/// The unindexed row of a segment.
pub open spec fn shown_item(c: SegmentConfig) -> ListRow {
    ListRow::Item { index: 0, selected: false, enabled: c.enabled, id: c.id }
}

proof fn lemma_group_items_shape(segs: Seq<SegmentConfig>, g: SegmentGroup, sel: int, on_list: bool)
    ensures
        group_items(segs, g, sel, on_list).map_values(|r: ListRow| unindexed(r)) == in_group(
            segs,
            rank(g),
        ).map_values(|c: SegmentConfig| shown_item(c)),
    decreases segs.len(),
{
    if segs.len() > 0 {
        let p = segs.drop_last();
        lemma_group_items_shape(p, g, sel, on_list);
        crate::segment_group::lemma_group_order_ranks(rank(g) as int, group_of(segs.last().id));
        crate::segment_group::lemma_group_order_ranks(rank(g) as int, g);
        let a = group_items(p, g, sel, on_list);
        let b = in_group(p, rank(g));
        if group_of(segs.last().id) == g {
            let k = segs.len() - 1;
            let x = ListRow::Item {
                index: k as usize,
                selected: k == sel && on_list,
                enabled: segs.last().enabled,
                id: segs.last().id,
            };
            assert(a.push(x).map_values(|r: ListRow| unindexed(r)) =~= a.map_values(
                |r: ListRow| unindexed(r),
            ).push(unindexed(x)));
            assert(b.push(segs.last()).map_values(|c: SegmentConfig| shown_item(c)) =~= b.map_values(
                |c: SegmentConfig| shown_item(c),
            ).push(shown_item(segs.last())));
        }
    }
}

proof fn lemma_list_rows_shape(
    s: Seq<SegmentConfig>,
    t: Seq<SegmentConfig>,
    sel_s: int,
    on_s: bool,
    sel_t: int,
    on_t: bool,
    m: int,
)
    requires
        0 <= m <= 7,
        forall|k: nat| k < 7 ==> #[trigger] in_group(s, k) == in_group(t, k),
    ensures
        list_rows(s, sel_s, on_s, m).map_values(|r: ListRow| unindexed(r)) == list_rows(
            t,
            sel_t,
            on_t,
            m,
        ).map_values(|r: ListRow| unindexed(r)),
    decreases m,
{
    if m > 0 {
        lemma_list_rows_shape(s, t, sel_s, on_s, sel_t, on_t, m - 1);
        let g = group_order()[m - 1];
        crate::segment_group::lemma_group_order_ranks(m - 1, g);
        assert(in_group(s, rank(g)) == in_group(t, rank(g)));
        lemma_group_items_shape(s, g, sel_s, on_s);
        lemma_group_items_shape(t, g, sel_t, on_t);
        let is = group_items(s, g, sel_s, on_s);
        let it = group_items(t, g, sel_t, on_t);
        assert(is.map_values(|r: ListRow| unindexed(r)).len() == is.len());
        assert(it.map_values(|r: ListRow| unindexed(r)).len() == it.len());
        let bs = group_block(s, g, sel_s, on_s);
        let bt = group_block(t, g, sel_t, on_t);
        let h = seq![ListRow::Header(g)];
        if is.len() > 0 {
            assert(bs.map_values(|r: ListRow| unindexed(r)) =~= h + is.map_values(
                |r: ListRow| unindexed(r),
            ));
            assert(bt.map_values(|r: ListRow| unindexed(r)) =~= h + it.map_values(
                |r: ListRow| unindexed(r),
            ));
        } else {
            assert(bs.map_values(|r: ListRow| unindexed(r)) =~= Seq::<ListRow>::empty());
            assert(bt.map_values(|r: ListRow| unindexed(r)) =~= Seq::<ListRow>::empty());
        }
        let ps = list_rows(s, sel_s, on_s, m - 1);
        let pt = list_rows(t, sel_t, on_t, m - 1);
        assert((ps + bs).map_values(|r: ListRow| unindexed(r)) =~= ps.map_values(
            |r: ListRow| unindexed(r),
        ) + bs.map_values(|r: ListRow| unindexed(r)));
        assert((pt + bt).map_values(|r: ListRow| unindexed(r)) =~= pt.map_values(
            |r: ListRow| unindexed(r),
        ) + bt.map_values(|r: ListRow| unindexed(r)));
    }
}

/// The segment list looks the same for a configuration and for its
/// normalised form: the same group headings and the same segments in the
/// same order; only the positions the items refer to, and so the cursor,
/// differ.  The list needs no normalising of the stored order.
pub proof fn lemma_list_ignores_stored_order(
    segs: Seq<SegmentConfig>,
    selected: int,
    on_list: bool,
    selected_normalized: int,
    on_list_normalized: bool,
)
    ensures
        list_rows(segs, selected, on_list, 7).map_values(|r: ListRow| unindexed(r)) == list_rows(
            grouped(segs),
            selected_normalized,
            on_list_normalized,
            7,
        ).map_values(|r: ListRow| unindexed(r)),
{
    assert forall|k: nat| k < 7 implies #[trigger] in_group(segs, k) == in_group(grouped(segs), k) by {
        lemma_normalize_stable(segs, k);
    }
    lemma_list_rows_shape(segs, grouped(segs), selected, on_list, selected_normalized, on_list_normalized, 7);
}

} // verus!
