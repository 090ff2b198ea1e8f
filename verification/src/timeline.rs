//! Grouping the items of a timeline section into segments, and the assets of a segment into
//! single assets and series.
//!
//! The driver queries the section's items (ordered by date, segment and series) and hands
//! over what the grouping reads of each row; the groups refer to rows by their index.
use vstd::prelude::*;

use crate::model::AssetSeriesId;

verus! {

/// Membership of an asset in a series.
#[derive(Debug, Clone, Copy, PartialEq, Eq, Hash, Structural)]
pub struct InSeries {
    pub series_id: AssetSeriesId,
    pub is_selection: bool,
}

/// What the grouping reads of one timeline item row.
#[derive(Debug, Clone, Copy, PartialEq, Eq, Structural)]
pub struct TimelineRow {
    pub segment_id: i32,
    /// Series of the asset and whether the asset is selected in it, if it is in a series.
    pub in_series: Option<InSeries>,
    /// Date of the series, stored with every row of a series.
    pub series_date: Option<i64>,
    /// Date the asset was taken (seconds since the epoch).
    pub taken_date: i64,
    /// User-created group the segment stands for, if any.
    pub group_id: Option<i64>,
    /// Date the segment is sorted by.
    pub sort_date: i64,
}

/// An item of a segment: a single asset, or consecutive assets of one series.
#[derive(Debug, Clone, PartialEq, Eq)]
pub enum GroupedItem {
    /// The row of a single asset.
    Asset(usize),
    /// The rows of assets of a series, with the series and the positions (within `rows`) of
    /// the selected ones.
    AssetSeries {
        rows: Vec<usize>,
        series_id: AssetSeriesId,
        series_date: i64,
        selection_indices: Vec<usize>,
    },
}

/// A segment: consecutive rows with one segment id, as items.
#[derive(Debug, Clone, PartialEq, Eq)]
pub struct GroupedSegment {
    pub id: i32,
    pub items: Vec<GroupedItem>,
}

/// Why rows could not be grouped.
#[derive(Debug, Clone, Copy, PartialEq, Eq, Structural)]
pub enum TimelineGroupingError {
    /// The row at this index has a series without a series date, or the other way round.
    SeriesColumnsMismatch(usize),
}

/// An item with its vectors taken as sequences.
pub ghost enum ItemView {
    Asset(int),
    Series { rows: Seq<int>, series_id: AssetSeriesId, series_date: i64, selection: Seq<int> },
}

/// A segment with its items taken by their views.
pub ghost struct SegmentView {
    pub id: i32,
    pub items: Seq<ItemView>,
}

/// The view of an item.
pub open spec fn item_view(it: GroupedItem) -> ItemView {
    match it {
        GroupedItem::Asset(r) => ItemView::Asset(r as int),
        GroupedItem::AssetSeries { rows, series_id, series_date, selection_indices } => ItemView::Series {
            rows: rows@.map_values(|r: usize| r as int),
            series_id,
            series_date,
            selection: selection_indices@.map_values(|k: usize| k as int),
        },
    }
}

/// The view of a segment.
pub open spec fn segment_view(s: GroupedSegment) -> SegmentView {
    SegmentView { id: s.id, items: s.items@.map_values(|it: GroupedItem| item_view(it)) }
}

/// The views of segments.
pub open spec fn segments_view(segs: Seq<GroupedSegment>) -> Seq<SegmentView> {
    segs.map_values(|s: GroupedSegment| segment_view(s))
}

/// Whether the series columns of a row agree: both set or both empty.
pub open spec fn series_columns_agree(r: TimelineRow) -> bool {
    (r.in_series is Some) == (r.series_date is Some)
}

/// The items after adding row `i`: a series row joins the last item when that is the same
/// series (its position recorded when it is selected), else starts a series; any other row is
/// a single asset.
pub open spec fn add_item(items: Seq<ItemView>, r: TimelineRow, i: int) -> Seq<ItemView> {
    match (r.in_series, r.series_date) {
        (Some(InSeries { series_id: sid, is_selection: sel }), Some(date)) => {
            if items.len() > 0 && (items.last() matches ItemView::Series {
                series_id,
                ..
            } && series_id == sid) {
                match items.last() {
                    ItemView::Series { rows, series_id, series_date, selection } => items.update(
                        items.len() - 1,
                        ItemView::Series {
                            rows: rows.push(i),
                            series_id,
                            series_date,
                            selection: if sel {
                                selection.push(rows.len() as int)
                            } else {
                                selection
                            },
                        },
                    ),
                    _ => items,
                }
            } else {
                items.push(
                    ItemView::Series {
                        rows: seq![i],
                        series_id: sid,
                        series_date: date,
                        selection: if sel {
                            seq![0int]
                        } else {
                            Seq::empty()
                        },
                    },
                )
            }
        },
        _ => items.push(ItemView::Asset(i)),
    }
}

/// The segments after adding row `i`: it joins the last segment when that has its segment id,
/// else starts a new one.
pub open spec fn add_row(segs: Seq<SegmentView>, r: TimelineRow, i: int) -> Seq<SegmentView> {
    let segs1 = if segs.len() == 0 || segs.last().id != r.segment_id {
        segs.push(SegmentView { id: r.segment_id, items: Seq::empty() })
    } else {
        segs
    };
    segs1.update(
        segs1.len() - 1,
        SegmentView { id: segs1.last().id, items: add_item(segs1.last().items, r, i) },
    )
}

/// The grouping of the first `n` rows, or the index of the first row whose series columns
/// disagree.
pub open spec fn group_spec(rows: Seq<TimelineRow>, n: nat) -> Result<Seq<SegmentView>, int>
    decreases n,
{
    if n == 0 {
        Ok(Seq::empty())
    } else {
        match group_spec(rows, (n - 1) as nat) {
            Err(e) => Err(e),
            Ok(segs) => if series_columns_agree(rows[n - 1]) {
                Ok(add_row(segs, rows[n - 1], n - 1))
            } else {
                Err(n - 1)
            },
        }
    }
}

/// Adds row `i` to the last item list (see [`add_item`]).
fn push_item(items: &mut Vec<GroupedItem>, r: TimelineRow, i: usize)
    requires
        series_columns_agree(r),
    ensures
        final(items)@.map_values(|it: GroupedItem| item_view(it)) == add_item(
            old(items)@.map_values(|it: GroupedItem| item_view(it)),
            r,
            i as int,
        ),
{
    let ghost before = old(items)@.map_values(|it: GroupedItem| item_view(it));
    match (r.in_series, r.series_date) {
        (Some(InSeries { series_id, is_selection }), Some(series_date)) => {
            let n = items.len();
            let joins = n > 0 && match &items[n - 1] {
                GroupedItem::AssetSeries { series_id: prev, .. } => *prev == series_id,
                _ => false,
            };
            if joins {
                let last = items.pop().unwrap();
                proof {
                    assert(before.last() == item_view(last));
                }
                match last {
                    GroupedItem::AssetSeries { mut rows, series_id: sid, series_date: sdate, mut selection_indices } => {
                        let ghost old_rows = rows@;
                        let ghost old_sel = selection_indices@;
                        if is_selection {
                            selection_indices.push(rows.len());
                        }
                        rows.push(i);
                        items.push(
                            GroupedItem::AssetSeries {
                                rows,
                                series_id: sid,
                                series_date: sdate,
                                selection_indices,
                            },
                        );
                        proof {
                            assert(rows@.map_values(|r: usize| r as int) =~= old_rows.map_values(
                                |r: usize| r as int,
                            ).push(i as int));
                            assert(selection_indices@.map_values(|k: usize| k as int) =~= (if is_selection {
                                old_sel.map_values(|k: usize| k as int).push(old_rows.len() as int)
                            } else {
                                old_sel.map_values(|k: usize| k as int)
                            }));
                            assert(items@.map_values(|it: GroupedItem| item_view(it)) =~= add_item(
                                before,
                                r,
                                i as int,
                            ));
                        }
                    },
                    GroupedItem::Asset(_) => {
                        proof {
                            assert(false);
                        }
                    },
                }
            } else {
                let selection_indices = if is_selection {
                    vec![0usize]
                } else {
                    Vec::new()
                };
                let ghost sel_view = selection_indices@.map_values(|k: usize| k as int);
                let first_rows = vec![i];
                let ghost rows_view = first_rows@.map_values(|r: usize| r as int);
                items.push(
                    GroupedItem::AssetSeries {
                        rows: first_rows,
                        series_id,
                        series_date,
                        selection_indices,
                    },
                );
                proof {
                    if is_selection {
                        assert(sel_view =~= seq![0int]);
                    } else {
                        assert(sel_view =~= Seq::<int>::empty());
                    }
                    assert(rows_view =~= seq![i as int]);
                    assert(items@.map_values(|it: GroupedItem| item_view(it)) =~= add_item(
                        before,
                        r,
                        i as int,
                    ));
                }
            }
        },
        _ => {
            items.push(GroupedItem::Asset(i));
            proof {
                assert(items@.map_values(|it: GroupedItem| item_view(it)) =~= add_item(
                    before,
                    r,
                    i as int,
                ));
            }
        },
    }
}

/// Groups the rows of a timeline section, in order, into segments of consecutive rows with one
/// segment id, and each segment's rows into single assets and runs of one series. Fails at
/// the first row whose series columns disagree.
pub fn group_timeline_rows(rows: &Vec<TimelineRow>) -> (r: Result<Vec<GroupedSegment>, TimelineGroupingError>)
    ensures
        match (r, group_spec(rows@, rows@.len())) {
            (Ok(segs), Ok(s)) => segments_view(segs@) == s,
            (Err(TimelineGroupingError::SeriesColumnsMismatch(k)), Err(e)) => k == e,
            _ => false,
        },
{
    let mut segs: Vec<GroupedSegment> = Vec::new();
    let mut i: usize = 0;
    proof {
        assert(segments_view(segs@) =~= Seq::<SegmentView>::empty());
    }
    while i < rows.len()
        invariant
            i <= rows@.len(),
            group_spec(rows@, i as nat) == Ok::<Seq<SegmentView>, int>(segments_view(segs@)),
        decreases rows@.len() - i,
    {
        let row = rows[i];
        let agree = match (row.in_series, row.series_date) {
            (Some(_), Some(_)) => true,
            (None, None) => true,
            _ => false,
        };
        if !agree {
            proof {
                assert(group_spec(rows@, (i + 1) as nat) == Err::<Seq<SegmentView>, int>(i as int));
                lemma_group_err_stays(rows@, (i + 1) as nat, rows@.len());
            }
            return Err(TimelineGroupingError::SeriesColumnsMismatch(i));
        }
        let ghost before = segments_view(segs@);
        let n = segs.len();
        let starts_new = n == 0 || segs[n - 1].id != row.segment_id;
        if starts_new {
            segs.push(GroupedSegment { id: row.segment_id, items: Vec::new() });
            proof {
                assert(Seq::<GroupedItem>::empty().map_values(|it: GroupedItem| item_view(it))
                    =~= Seq::<ItemView>::empty());
                assert(segments_view(segs@) =~= before.push(
                    SegmentView { id: row.segment_id, items: Seq::empty() },
                ));
            }
        }
        let ghost mid = segments_view(segs@);
        let last = segs.pop().unwrap();
        let mut items = last.items;
        push_item(&mut items, row, i);
        segs.push(GroupedSegment { id: last.id, items });
        proof {
            assert(segments_view(segs@) =~= mid.update(
                mid.len() - 1,
                SegmentView { id: mid.last().id, items: add_item(mid.last().items, row, i as int) },
            ));
            assert(segments_view(segs@) == add_row(before, row, i as int));
        }
        i = i + 1;
    }
    Ok(segs)
}

proof fn lemma_group_err_stays(rows: Seq<TimelineRow>, n: nat, m: nat)
    requires
        n <= m,
        group_spec(rows, n) is Err,
    ensures
        group_spec(rows, m) == group_spec(rows, n),
    decreases m - n,
{
    if n < m {
        lemma_group_err_stays(rows, n, (m - 1) as nat);
    }
}

/// The rows of an item, in order.
pub open spec fn item_rows(it: ItemView) -> Seq<int> {
    match it {
        ItemView::Asset(r) => seq![r],
        ItemView::Series { rows, .. } => rows,
    }
}

/// The rows of items, in order.
pub open spec fn items_rows(items: Seq<ItemView>) -> Seq<int>
    decreases items.len(),
{
    if items.len() == 0 {
        Seq::empty()
    } else {
        items_rows(items.drop_last()) + item_rows(items.last())
    }
}

/// The rows of segments, in order.
pub open spec fn segments_rows(segs: Seq<SegmentView>) -> Seq<int>
    decreases segs.len(),
{
    if segs.len() == 0 {
        Seq::empty()
    } else {
        segments_rows(segs.drop_last()) + items_rows(segs.last().items)
    }
}

/// Whether a series item has rows, and its selected positions are increasing positions of its
/// rows.
pub open spec fn series_well_formed(it: ItemView) -> bool {
    match it {
        ItemView::Asset(_) => true,
        ItemView::Series { rows, selection, .. } => {
            &&& rows.len() > 0
            &&& forall|a: int, b: int|
                0 <= a < b < selection.len() ==> #[trigger] selection[a] < #[trigger] selection[b]
            &&& forall|a: int| 0 <= a < selection.len() ==> 0 <= #[trigger] selection[a] < rows.len()
        },
    }
}

/// Whether every row of the items belongs to the segment `id`.
pub open spec fn rows_in_segment(rows: Seq<TimelineRow>, items: Seq<ItemView>, id: i32) -> bool {
    forall|j: int|
        0 <= j < items_rows(items).len() ==> 0 <= #[trigger] items_rows(items)[j] < rows.len()
            && rows[items_rows(items)[j]].segment_id == id
}

/// Whether two items are series with the same series id.
pub open spec fn same_series(a: ItemView, b: ItemView) -> bool {
    match (a, b) {
        (ItemView::Series { series_id: x, .. }, ItemView::Series { series_id: y, .. }) => x == y,
        _ => false,
    }
}

/// Whether no two neighbouring items are series with the same id.
pub open spec fn no_split_series(items: Seq<ItemView>) -> bool {
    forall|k: int| 0 <= k < items.len() - 1 ==> !same_series(#[trigger] items[k], items[k + 1])
}

/// The shape of a grouping: no segment is empty, every series is well formed, neighbouring
/// items of a segment are never the same series, the rows of a segment carry its id, and
/// neighbouring segments have different ids.
pub open spec fn grouping_wf(rows: Seq<TimelineRow>, segs: Seq<SegmentView>) -> bool {
    &&& forall|s: int| 0 <= s < segs.len() ==> no_split_series((#[trigger] segs[s]).items)
    &&& forall|s: int| 0 <= s < segs.len() ==> (#[trigger] segs[s]).items.len() > 0
    &&& forall|s: int, k: int|
        0 <= s < segs.len() && 0 <= k < segs[s].items.len() ==> series_well_formed(
            #[trigger] segs[s].items[k],
        )
    &&& forall|s: int| 0 <= s < segs.len() ==> rows_in_segment(rows, (#[trigger] segs[s]).items, segs[s].id)
    &&& forall|s: int| 0 <= s < segs.len() - 1 ==> (#[trigger] segs[s]).id != segs[s + 1].id
}

proof fn lemma_items_rows_push(items: Seq<ItemView>, x: ItemView)
    ensures
        items_rows(items.push(x)) == items_rows(items) + item_rows(x),
{
    assert(items.push(x).drop_last() =~= items);
}

proof fn lemma_add_item_rows(items: Seq<ItemView>, r: TimelineRow, i: int)
    ensures
        items_rows(add_item(items, r, i)) == items_rows(items).push(i),
        add_item(items, r, i).len() > 0,
        add_item(items, r, i).len() >= items.len(),
        forall|k: int| 0 <= k < items.len() - 1 ==> #[trigger] add_item(items, r, i)[k] == items[k],
        add_item(items, r, i).len() > items.len() ==> add_item(items, r, i)[items.len() - 1]
            == items[items.len() - 1] || items.len() == 0,
{
    let out = add_item(items, r, i);
    match (r.in_series, r.series_date) {
        (Some(InSeries { series_id: sid, is_selection: sel }), Some(date)) => {
            if items.len() > 0 && (items.last() matches ItemView::Series { series_id, .. }
                && series_id == sid) {
                let last = items.last();
                let new_last = out.last();
                assert(out.drop_last() =~= items.drop_last());
                assert(item_rows(new_last) =~= item_rows(last).push(i));
                assert(items_rows(out) =~= items_rows(items).push(i));
            } else {
                lemma_items_rows_push(items, out.last());
                assert(out =~= items.push(out.last()));
                assert(item_rows(out.last()) =~= seq![i]);
            }
        },
        _ => {
            lemma_items_rows_push(items, ItemView::Asset(i));
        },
    }
}

proof fn lemma_add_item_wf(items: Seq<ItemView>, r: TimelineRow, i: int)
    requires
        forall|k: int| 0 <= k < items.len() ==> series_well_formed(#[trigger] items[k]),
    ensures
        forall|k: int|
            0 <= k < add_item(items, r, i).len() ==> series_well_formed(
                #[trigger] add_item(items, r, i)[k],
            ),
{
    let out = add_item(items, r, i);
    match (r.in_series, r.series_date) {
        (Some(InSeries { series_id: sid, is_selection: sel }), Some(date)) => {
            if items.len() > 0 && (items.last() matches ItemView::Series { series_id, .. }
                && series_id == sid) {
                assert(series_well_formed(items[items.len() - 1]));
                assert forall|k: int| 0 <= k < out.len() implies series_well_formed(#[trigger] out[k]) by {
                    if k < items.len() - 1 {
                        assert(out[k] == items[k]);
                    }
                }
            } else {
                assert forall|k: int| 0 <= k < out.len() implies series_well_formed(#[trigger] out[k]) by {
                    if k < items.len() {
                        assert(out[k] == items[k]);
                    }
                }
            }
        },
        _ => {
            assert forall|k: int| 0 <= k < out.len() implies series_well_formed(#[trigger] out[k]) by {
                if k < items.len() {
                    assert(out[k] == items[k]);
                }
            }
        },
    }
}

proof fn lemma_add_item_no_split(items: Seq<ItemView>, r: TimelineRow, i: int)
    requires
        no_split_series(items),
    ensures
        no_split_series(add_item(items, r, i)),
{
    let out = add_item(items, r, i);
    match (r.in_series, r.series_date) {
        (Some(InSeries { series_id: sid, is_selection: sel }), Some(date)) => {
            if items.len() > 0 && (items.last() matches ItemView::Series { series_id, .. }
                && series_id == sid) {
                assert forall|k: int| 0 <= k < out.len() - 1 implies !same_series(
                    #[trigger] out[k],
                    out[k + 1],
                ) by {
                    assert(out[k] == items[k]);
                    if k + 1 < items.len() - 1 {
                        assert(out[k + 1] == items[k + 1]);
                    } else {
                        assert(!same_series(items[k], items[k + 1]));
                    }
                }
            } else {
                assert forall|k: int| 0 <= k < out.len() - 1 implies !same_series(
                    #[trigger] out[k],
                    out[k + 1],
                ) by {
                    assert(out[k] == items[k]);
                    if k + 1 < items.len() {
                        assert(out[k + 1] == items[k + 1]);
                    }
                }
            }
        },
        _ => {
            assert forall|k: int| 0 <= k < out.len() - 1 implies !same_series(
                #[trigger] out[k],
                out[k + 1],
            ) by {
                assert(out[k] == items[k]);
                if k + 1 < items.len() {
                    assert(out[k + 1] == items[k + 1]);
                }
            }
        },
    }
}

proof fn lemma_rows_in_segment_add(rows: Seq<TimelineRow>, items: Seq<ItemView>, r: TimelineRow, i: int, id: i32)
    requires
        rows_in_segment(rows, items, id),
        0 <= i < rows.len(),
        rows[i] == r,
        r.segment_id == id,
    ensures
        rows_in_segment(rows, add_item(items, r, i), id),
{
    lemma_add_item_rows(items, r, i);
    let before = items_rows(items);
    let after = items_rows(add_item(items, r, i));
    assert forall|j: int| 0 <= j < after.len() implies 0 <= #[trigger] after[j] < rows.len()
        && rows[after[j]].segment_id == id by {
        if j < before.len() {
            assert(after[j] == before[j]);
        }
    }
}

proof fn lemma_segments_rows_push(segs: Seq<SegmentView>, x: SegmentView)
    ensures
        segments_rows(segs.push(x)) == segments_rows(segs) + items_rows(x.items),
{
    assert(segs.push(x).drop_last() =~= segs);
}

/// Grouping the first `n` rows keeps every row exactly once and in order, and gives a grouping
/// of the shape that [`grouping_wf`] describes: segments are not empty, series are well formed
/// (their selected positions increasing and within the series), neighbouring items of a
/// segment are never the same series, every row of a segment has its id, and neighbouring
/// segments have different ids.
pub proof fn lemma_grouping_laws(rows: Seq<TimelineRow>, n: nat)
    requires
        n <= rows.len(),
        group_spec(rows, n) is Ok,
    ensures
        segments_rows(group_spec(rows, n)->Ok_0) == Seq::new(n, |k: int| k),
        grouping_wf(rows, group_spec(rows, n)->Ok_0),
    decreases n,
{
    if n == 0 {
        assert(segments_rows(Seq::<SegmentView>::empty()) =~= Seq::new(0, |k: int| k));
    } else {
        let m = (n - 1) as nat;
        lemma_grouping_laws(rows, m);
        let segs = group_spec(rows, m)->Ok_0;
        let r = rows[m as int];
        let i = m as int;
        let segs1 = if segs.len() == 0 || segs.last().id != r.segment_id {
            segs.push(SegmentView { id: r.segment_id, items: Seq::empty() })
        } else {
            segs
        };
        let last = segs1.last();
        let new_last = SegmentView { id: last.id, items: add_item(last.items, r, i) };
        let out = segs1.update(segs1.len() - 1, new_last);
        assert(out == add_row(segs, r, i));
        // rows in order
        lemma_add_item_rows(last.items, r, i);
        assert(out =~= segs1.drop_last().push(new_last));
        lemma_segments_rows_push(segs1.drop_last(), new_last);
        if segs.len() == 0 || segs.last().id != r.segment_id {
            assert(segs1.drop_last() =~= segs);
            assert(items_rows(Seq::<ItemView>::empty()) =~= Seq::<int>::empty());
            assert(segments_rows(out) =~= Seq::new(n, |k: int| k));
        } else {
            assert(segs1 == segs);
            assert(last == segs.last());
            let pre = segments_rows(segs.drop_last());
            assert(segments_rows(segs) == pre + items_rows(segs.last().items));
            assert(segments_rows(out) == pre + items_rows(last.items).push(i));
            assert(pre + items_rows(last.items).push(i) =~= (pre + items_rows(last.items)).push(i));
            assert(segments_rows(out) =~= Seq::new(n, |k: int| k));
        }
        // shape
        assert(forall|k: int| 0 <= k < last.items.len() ==> series_well_formed(
            #[trigger] last.items[k],
        )) by {
            if !(segs.len() == 0 || segs.last().id != r.segment_id) {
                assert(last == segs[segs.len() - 1]);
            }
        }
        lemma_add_item_wf(last.items, r, i);
        assert(rows_in_segment(rows, last.items, last.id)) by {
            if segs.len() == 0 || segs.last().id != r.segment_id {
                assert(items_rows(Seq::<ItemView>::empty()) =~= Seq::<int>::empty());
            } else {
                assert(last == segs[segs.len() - 1]);
            }
        }
        lemma_rows_in_segment_add(rows, last.items, r, i, last.id);
        assert(no_split_series(last.items)) by {
            if !(segs.len() == 0 || segs.last().id != r.segment_id) {
                assert(last == segs[segs.len() - 1]);
            }
        }
        lemma_add_item_no_split(last.items, r, i);
        assert forall|s: int| 0 <= s < out.len() implies no_split_series((#[trigger] out[s]).items) by {
            if s < out.len() - 1 {
                assert(out[s] == segs[s]);
            }
        }
        assert forall|s: int| 0 <= s < out.len() implies (#[trigger] out[s]).items.len() > 0 by {
            if s < out.len() - 1 {
                assert(out[s] == segs[s]);
            }
        }
        assert forall|s: int, k: int|
            0 <= s < out.len() && 0 <= k < out[s].items.len() implies series_well_formed(
            #[trigger] out[s].items[k],
        ) by {
            if s < out.len() - 1 {
                assert(out[s] == segs[s]);
            }
        }
        assert forall|s: int| 0 <= s < out.len() implies rows_in_segment(
            rows,
            (#[trigger] out[s]).items,
            out[s].id,
        ) by {
            if s < out.len() - 1 {
                assert(out[s] == segs[s]);
            }
        }
        assert forall|s: int| 0 <= s < out.len() - 1 implies (#[trigger] out[s]).id != out[s
            + 1].id by {
            assert(out[s] == segs[s]);
            if s + 1 < out.len() - 1 {
                assert(out[s + 1] == segs[s + 1]);
            }
        }
    }
}

/// Whether the items keep the order of their first rows: every item has rows, its first row
/// is below `n`, and earlier items have earlier first rows.
pub open spec fn items_in_row_order(items: Seq<ItemView>, n: int) -> bool {
    &&& forall|k: int|
        0 <= k < items.len() ==> 0 <= #[trigger] item_first_row(items[k]) < n && item_rows(
            items[k],
        ).len() > 0
    &&& forall|k: int, l: int|
        0 <= k < l < items.len() ==> item_first_row(#[trigger] items[k]) < item_first_row(
            #[trigger] items[l],
        )
}

proof fn lemma_add_item_order(items: Seq<ItemView>, r: TimelineRow, i: int)
    requires
        0 <= i,
        items_in_row_order(items, i),
    ensures
        items_in_row_order(add_item(items, r, i), i + 1),
{
    let out = add_item(items, r, i);
    match (r.in_series, r.series_date) {
        (Some(InSeries { series_id: sid, is_selection: sel }), Some(date)) => {
            if items.len() > 0 && (items.last() matches ItemView::Series { series_id, .. }
                && series_id == sid) {
                let last = items.last();
                assert(item_first_row(items[items.len() - 1]) < i);
                assert(item_rows(last).len() > 0);
                assert(item_first_row(out.last()) == item_first_row(last));
                assert(item_rows(out.last()).len() > 0);
                assert forall|k: int| 0 <= k < out.len() implies 0 <= #[trigger] item_first_row(out[k]) < i + 1
                    && item_rows(out[k]).len() > 0 by {
                    if k < items.len() - 1 {
                        assert(out[k] == items[k]);
                    }
                }
                assert forall|k: int, l: int| 0 <= k < l < out.len() implies item_first_row(
                    #[trigger] out[k],
                ) < item_first_row(#[trigger] out[l]) by {
                    assert(out[k] == items[k]);
                    if l < items.len() - 1 {
                        assert(out[l] == items[l]);
                    } else {
                        assert(item_first_row(items[k]) < item_first_row(items[items.len() - 1]));
                    }
                }
            } else {
                assert(item_first_row(out.last()) == i);
                assert(item_rows(out.last()).len() > 0);
                assert forall|k: int| 0 <= k < out.len() implies 0 <= #[trigger] item_first_row(out[k]) < i + 1
                    && item_rows(out[k]).len() > 0 by {
                    if k < items.len() {
                        assert(out[k] == items[k]);
                    }
                }
                assert forall|k: int, l: int| 0 <= k < l < out.len() implies item_first_row(
                    #[trigger] out[k],
                ) < item_first_row(#[trigger] out[l]) by {
                    assert(out[k] == items[k]);
                    if l < items.len() {
                        assert(out[l] == items[l]);
                    } else {
                        assert(item_first_row(items[k]) < i);
                    }
                }
            }
        },
        _ => {
            assert(item_first_row(out.last()) == i);
            assert forall|k: int| 0 <= k < out.len() implies 0 <= #[trigger] item_first_row(out[k]) < i + 1
                && item_rows(out[k]).len() > 0 by {
                if k < items.len() {
                    assert(out[k] == items[k]);
                } else {
                    assert(out[k] == ItemView::Asset(i));
                    assert(item_rows(out[k]) =~= seq![i]);
                }
            }
            assert forall|k: int, l: int| 0 <= k < l < out.len() implies item_first_row(
                #[trigger] out[k],
            ) < item_first_row(#[trigger] out[l]) by {
                assert(out[k] == items[k]);
                if l < items.len() {
                    assert(out[l] == items[l]);
                } else {
                    assert(item_first_row(items[k]) < i);
                }
            }
        },
    }
}

/// Grouping the first `n` rows keeps, within every segment, the order of the rows: each
/// item's first row comes before the first row of every later item.
pub proof fn lemma_items_in_row_order(rows: Seq<TimelineRow>, n: nat)
    requires
        n <= rows.len(),
        group_spec(rows, n) is Ok,
    ensures
        forall|s: int|
            0 <= s < group_spec(rows, n)->Ok_0.len() ==> items_in_row_order(
                (#[trigger] group_spec(rows, n)->Ok_0[s]).items,
                n as int,
            ),
    decreases n,
{
    if n > 0 {
        let m = (n - 1) as nat;
        lemma_items_in_row_order(rows, m);
        let segs = group_spec(rows, m)->Ok_0;
        let r = rows[m as int];
        let i = m as int;
        let segs1 = if segs.len() == 0 || segs.last().id != r.segment_id {
            segs.push(SegmentView { id: r.segment_id, items: Seq::empty() })
        } else {
            segs
        };
        let last = segs1.last();
        let out = add_row(segs, r, i);
        assert(items_in_row_order(last.items, i)) by {
            if !(segs.len() == 0 || segs.last().id != r.segment_id) {
                assert(last == segs[segs.len() - 1]);
            }
        }
        lemma_add_item_order(last.items, r, i);
        assert forall|s: int| 0 <= s < out.len() implies items_in_row_order(
            (#[trigger] out[s]).items,
            n as int,
        ) by {
            if s < out.len() - 1 {
                assert(out[s] == segs[s]);
                assert(items_in_row_order(segs[s].items, i));
            }
        }
    }
}

/// The taken date of an item's first row.
pub open spec fn item_taken_date(rows: Seq<TimelineRow>, it: ItemView) -> i64 {
    rows[item_first_row(it)].taken_date
}

/// When the rows come newest first (by taken date), so do the items of every segment, by the
/// taken date of their first row.
pub proof fn lemma_items_newest_first(rows: Seq<TimelineRow>)
    requires
        group_spec(rows, rows.len()) is Ok,
        forall|i: int, j: int|
            0 <= i <= j < rows.len() ==> #[trigger] rows[j].taken_date <= #[trigger] rows[i].taken_date,
    ensures
        forall|s: int, k: int, l: int|
            0 <= s < group_spec(rows, rows.len())->Ok_0.len() && 0 <= k < l
                < group_spec(rows, rows.len())->Ok_0[s].items.len() ==> item_taken_date(
                rows,
                #[trigger] group_spec(rows, rows.len())->Ok_0[s].items[l],
            ) <= item_taken_date(rows, #[trigger] group_spec(rows, rows.len())->Ok_0[s].items[k]),
{
    let segs = group_spec(rows, rows.len())->Ok_0;
    lemma_items_in_row_order(rows, rows.len());
    assert forall|s: int, k: int, l: int|
        0 <= s < segs.len() && 0 <= k < l < segs[s].items.len() implies item_taken_date(
        rows,
        #[trigger] segs[s].items[l],
    ) <= item_taken_date(rows, #[trigger] segs[s].items[k]) by {
        assert(items_in_row_order(segs[s].items, rows.len() as int));
        let a = item_first_row(segs[s].items[k]);
        let b = item_first_row(segs[s].items[l]);
        assert(0 <= a < b < rows.len());
        assert(rows[b].taken_date <= rows[a].taken_date);
    }
}

/// What a segment stands for: a user-created group, or the dates of its most recent and its
/// oldest item.
#[derive(Debug, Clone, Copy, PartialEq, Eq, Structural)]
pub enum SegmentKind {
    Group(i64),
    DateRange { start: i64, end: i64 },
}

/// The date of an item: the taken date of a single asset, the date of a series.
pub open spec fn item_date(rows: Seq<TimelineRow>, it: ItemView) -> int {
    match it {
        ItemView::Asset(r) => rows[r].taken_date as int,
        ItemView::Series { series_date, .. } => series_date as int,
    }
}

/// Whether every row of an item is an index of `rows`.
pub open spec fn item_rows_in(rows: Seq<TimelineRow>, it: ItemView) -> bool {
    forall|j: int| 0 <= j < item_rows(it).len() ==> 0 <= #[trigger] item_rows(it)[j] < rows.len()
}

/// The first row of an item.
pub open spec fn item_first_row(it: ItemView) -> int {
    match it {
        ItemView::Asset(r) => r,
        ItemView::Series { rows, .. } => rows[0],
    }
}

/// What a segment stands for and its sort date, both read from its first row (the date range
/// from its first and last item), or `None` for a segment without items or with a row index
/// outside `rows`.
pub open spec fn segment_summary_spec(rows: Seq<TimelineRow>, seg: SegmentView) -> Option<(SegmentKind, i64)> {
    if seg.items.len() == 0 || !(forall|k: int|
        0 <= k < seg.items.len() ==> item_rows_in(rows, #[trigger] seg.items[k])) || (seg.items[0] matches ItemView::Series {
        rows: rs,
        ..
    } && rs.len() == 0) {
        None
    } else {
        let first = rows[item_first_row(seg.items[0])];
        let kind = match first.group_id {
            Some(g) => SegmentKind::Group(g),
            None => SegmentKind::DateRange {
                start: item_date(rows, seg.items[0]) as i64,
                end: item_date(rows, seg.items.last()) as i64,
            },
        };
        Some((kind, first.sort_date))
    }
}

/// The date a segment summary gives an item: the taken date of a single asset's row, the date
/// of a series.
spec fn summary_date(rows: Seq<TimelineRow>, it: ItemView) -> i64 {
    match it {
        ItemView::Asset(r) => rows[r].taken_date,
        ItemView::Series { series_date, .. } => series_date,
    }
}

/// What a segment summary says: the segment's sort date and group are those of the first row
/// of its first item; a segment without a group spans from its first item's date to its last
/// item's date, where a single asset is dated by when it was taken and a series by its own
/// date. A summary exists for every segment with items whose rows all lie within `rows` (and
/// whose first item, if a series, has rows).
pub proof fn lemma_segment_summary_dates(rows: Seq<TimelineRow>, seg: SegmentView)
    ensures
        segment_summary_spec(rows, seg) matches Some((kind, sort_date)) ==> {
            let first_row = match seg.items[0] {
                ItemView::Asset(r) => r,
                ItemView::Series { rows: rs, .. } => rs[0],
            };
            &&& 0 <= first_row < rows.len()
            &&& sort_date == rows[first_row].sort_date
            &&& match rows[first_row].group_id {
                Some(g) => kind == SegmentKind::Group(g),
                None => kind == (SegmentKind::DateRange {
                    start: match seg.items[0] {
                        ItemView::Asset(r) => rows[r].taken_date,
                        ItemView::Series { series_date, .. } => series_date,
                    },
                    end: match seg.items.last() {
                        ItemView::Asset(r) => rows[r].taken_date,
                        ItemView::Series { series_date, .. } => series_date,
                    },
                }),
            }
        },
        (seg.items.len() > 0 && (forall|k: int|
            0 <= k < seg.items.len() ==> item_rows_in(rows, #[trigger] seg.items[k])) && !(
        seg.items[0] matches ItemView::Series { rows: rs, .. } && rs.len() == 0))
            ==> segment_summary_spec(rows, seg) is Some,
{
    if segment_summary_spec(rows, seg) is Some {
        let it = seg.items[0];
        assert(item_rows_in(rows, it));
        assert(item_rows(it)[0] == item_first_row(it));
        assert(item_date(rows, it) as i64 == summary_date(rows, it));
        assert(item_date(rows, seg.items.last()) as i64 == summary_date(rows, seg.items.last()));
    }
}

fn item_date_exec(rows: &Vec<TimelineRow>, it: &GroupedItem) -> (d: i64)
    requires
        item_rows_in(rows@, item_view(*it)),
    ensures
        d == item_date(rows@, item_view(*it)),
{
    match it {
        GroupedItem::Asset(r) => {
            proof {
                assert(item_rows(item_view(*it))[0] == *r as int);
            }
            rows[*r].taken_date
        },
        GroupedItem::AssetSeries { series_date, .. } => *series_date,
    }
}

/// What the segment `seg` of `rows` stands for and its sort date (see
/// [`segment_summary_spec`]).
pub fn segment_summary(rows: &Vec<TimelineRow>, seg: &GroupedSegment) -> (r: Option<(SegmentKind, i64)>)
    ensures
        r == segment_summary_spec(rows@, segment_view(*seg)),
{
    let ghost sv = segment_view(*seg);
    let n = seg.items.len();
    if n == 0 {
        return None;
    }
    let mut k: usize = 0;
    while k < n
        invariant
            n == seg.items@.len(),
            sv == segment_view(*seg),
            k <= n,
            forall|a: int| 0 <= a < k ==> item_rows_in(rows@, #[trigger] sv.items[a]),
        decreases n - k,
    {
        proof {
            assert(sv.items[k as int] == item_view(seg.items@[k as int]));
        }
        let ok = match &seg.items[k] {
            GroupedItem::Asset(r) => *r < rows.len(),
            GroupedItem::AssetSeries { rows: rs, .. } => {
                let mut all = true;
                let mut j: usize = 0;
                while j < rs.len()
                    invariant
                        j <= rs@.len(),
                        all ==> forall|i: int| 0 <= i < j ==> rs@[i] < rows@.len(),
                        !all ==> exists|i: int| 0 <= i < j && rs@[i] >= rows@.len(),
                    decreases rs@.len() - j,
                {
                    if rs[j] >= rows.len() {
                        all = false;
                    }
                    j = j + 1;
                }
                all
            },
        };
        if !ok {
            proof {
                let it = sv.items[k as int];
                match seg.items@[k as int] {
                    GroupedItem::Asset(r) => {
                        assert(item_rows(it)[0] == r as int);
                    },
                    GroupedItem::AssetSeries { rows: rs, .. } => {
                        let i = choose|i: int| 0 <= i < rs@.len() && rs@[i] >= rows@.len();
                        assert(item_rows(it)[i] == rs@[i] as int);
                    },
                }
            }
            return None;
        }
        proof {
            let it = sv.items[k as int];
            match seg.items@[k as int] {
                GroupedItem::Asset(r) => {
                    assert(item_rows(it) =~= seq![r as int]);
                },
                GroupedItem::AssetSeries { rows: rs, .. } => {
                    assert forall|j: int| 0 <= j < item_rows(it).len() implies 0 <= #[trigger] item_rows(it)[j] < rows@.len() by {
                        assert(item_rows(it)[j] == rs@[j] as int);
                    }
                    assert(item_rows_in(rows@, it));
                },
            }
        }
        k = k + 1;
    }
    let first_row = match &seg.items[0] {
        GroupedItem::Asset(r) => *r,
        GroupedItem::AssetSeries { rows: rs, .. } => {
            if rs.len() == 0 {
                return None;
            }
            rs[0]
        },
    };
    proof {
        assert(sv.items[0] == item_view(seg.items@[0]));
        assert(sv.items.last() == item_view(seg.items@[n - 1]));
        match seg.items@[0] {
            GroupedItem::Asset(r) => {
                assert(item_rows(sv.items[0])[0] == r as int);
            },
            GroupedItem::AssetSeries { rows: rs, .. } => {
                assert(item_rows(sv.items[0])[0] == rs@[0] as int);
            },
        }
    }
    let first = rows[first_row];
    let kind = match first.group_id {
        Some(g) => SegmentKind::Group(g),
        None => SegmentKind::DateRange {
            start: item_date_exec(rows, &seg.items[0]),
            end: item_date_exec(rows, &seg.items[n - 1]),
        },
    };
    Some((kind, first.sort_date))
}

} // verus!
