use myrti::model::AssetSeriesId;
use myrti::timeline::{
    group_timeline_rows, segment_summary, GroupedItem, InSeries, SegmentKind, TimelineGroupingError,
    TimelineRow,
};

fn single(segment_id: i32) -> TimelineRow {
    TimelineRow { segment_id, in_series: None, series_date: None, taken_date: 0, group_id: None, sort_date: 0 }
}

fn in_series(segment_id: i32, series: i64, is_selection: bool, date: i64) -> TimelineRow {
    TimelineRow {
        segment_id,
        in_series: Some(InSeries { series_id: AssetSeriesId(series), is_selection }),
        series_date: Some(date),
        taken_date: 0,
        group_id: None,
        sort_date: 0,
    }
}

#[test]
fn rows_are_grouped_into_segments_and_series() {
    let rows = vec![
        single(1),
        in_series(1, 7, false, 100),
        in_series(1, 7, true, 100),
        in_series(1, 7, true, 100),
        single(2),
        in_series(2, 8, true, 50),
        in_series(2, 9, false, 40),
    ];
    let segs = group_timeline_rows(&rows).unwrap();
    assert_eq!(segs.len(), 2);
    assert_eq!(segs[0].id, 1);
    assert_eq!(
        segs[0].items,
        vec![
            GroupedItem::Asset(0),
            GroupedItem::AssetSeries {
                rows: vec![1, 2, 3],
                series_id: AssetSeriesId(7),
                series_date: 100,
                selection_indices: vec![1, 2],
            },
        ]
    );
    assert_eq!(segs[1].id, 2);
    assert_eq!(
        segs[1].items,
        vec![
            GroupedItem::Asset(4),
            GroupedItem::AssetSeries {
                rows: vec![5],
                series_id: AssetSeriesId(8),
                series_date: 50,
                selection_indices: vec![0],
            },
            GroupedItem::AssetSeries {
                rows: vec![6],
                series_id: AssetSeriesId(9),
                series_date: 40,
                selection_indices: vec![],
            },
        ]
    );
}

#[test]
fn every_row_is_kept_once_in_order() {
    let rows = vec![single(3), single(3), in_series(4, 1, false, 1), single(3)];
    let segs = group_timeline_rows(&rows).unwrap();
    let mut seen = Vec::new();
    for s in &segs {
        assert!(!s.items.is_empty());
        for it in &s.items {
            match it {
                GroupedItem::Asset(r) => seen.push(*r),
                GroupedItem::AssetSeries { rows, .. } => seen.extend(rows.iter().copied()),
            }
        }
    }
    assert_eq!(seen, vec![0, 1, 2, 3]);
    assert_eq!(segs.iter().map(|s| s.id).collect::<Vec<_>>(), vec![3, 4, 3]);
}

#[test]
fn mismatched_series_columns_are_refused() {
    let rows = vec![
        single(1),
        TimelineRow { series_date: Some(5), ..single(1) },
        TimelineRow {
            in_series: Some(InSeries { series_id: AssetSeriesId(1), is_selection: false }),
            ..single(1)
        },
    ];
    assert_eq!(group_timeline_rows(&rows), Err(TimelineGroupingError::SeriesColumnsMismatch(1)));
}

#[test]
fn no_rows_no_segments() {
    assert_eq!(group_timeline_rows(&vec![]), Ok(vec![]));
}

#[test]
fn segment_summaries() {
    let rows = vec![
        TimelineRow { taken_date: 900, sort_date: 900, ..single(1) },
        TimelineRow { taken_date: 500, ..in_series(1, 3, false, 600) },
        TimelineRow { group_id: Some(42), sort_date: 400, ..single(2) },
    ];
    let segs = group_timeline_rows(&rows).unwrap();
    assert_eq!(segment_summary(&rows, &segs[0]), Some((SegmentKind::DateRange { start: 900, end: 600 }, 900)));
    assert_eq!(segment_summary(&rows, &segs[1]), Some((SegmentKind::Group(42), 400)));
    assert_eq!(segment_summary(&rows[..1].to_vec(), &segs[1]), None);
}

#[test]
fn neighbouring_items_are_never_one_series() {
    let rows = vec![
        in_series(1, 7, false, 100),
        in_series(1, 7, false, 100),
        in_series(1, 8, false, 90),
        in_series(1, 7, true, 100),
        single(1),
        in_series(1, 7, false, 100),
    ];
    let segs = group_timeline_rows(&rows).unwrap();
    assert_eq!(segs.len(), 1);
    let ids: Vec<Option<i64>> = segs[0]
        .items
        .iter()
        .map(|it| match it {
            GroupedItem::AssetSeries { series_id, .. } => Some(series_id.0),
            GroupedItem::Asset(_) => None,
        })
        .collect();
    assert_eq!(ids, vec![Some(7), Some(8), Some(7), None, Some(7)]);
    for pair in ids.windows(2) {
        assert!(pair[0].is_none() || pair[0] != pair[1]);
    }
}

#[test]
fn items_come_newest_first_when_rows_do() {
    let dated = |mut r: TimelineRow, taken: i64| {
        r.taken_date = taken;
        r
    };
    let rows = vec![
        dated(single(1), 500),
        dated(in_series(1, 7, false, 100), 400),
        dated(in_series(1, 7, true, 100), 390),
        dated(single(1), 300),
        dated(in_series(1, 8, false, 90), 200),
        dated(single(2), 100),
    ];
    let segs = group_timeline_rows(&rows).unwrap();
    for seg in &segs {
        let dates: Vec<i64> = seg
            .items
            .iter()
            .map(|it| match it {
                GroupedItem::Asset(r) => rows[*r].taken_date,
                GroupedItem::AssetSeries { rows: rs, .. } => rows[rs[0]].taken_date,
            })
            .collect();
        assert!(dates.windows(2).all(|w| w[1] <= w[0]));
    }
    assert_eq!(segs[0].items.len(), 4);
}
