use std::sync::Arc;

use factor_engine::financial_marker::{FinancialEventMarkerBuilder, FinancialStatementDataset};
use factor_engine::financial_pit::{
    financial_event_trade_dates, DividendEventRow, FinancialEventSchedule, FinancialPitIndex,
    ReportTypePreference,
};
use factor_engine::panel::DailyPanel;
use factor_engine::snapshot_cache::{
    cached_financial_stock_snapshots, cached_financial_stock_snapshots_for_date,
    FinancialStockSnapshotCache, InstrumentAlignedSnapshotCache,
};
use factor_engine::table::{ColumnData, Table};

fn financial_table_with_codes(rows: &[(&str, i32, i32, i64, i64)]) -> Table {
    Table::new(vec![
        (
            "ts_code".to_string(),
            ColumnData::Utf8(rows.iter().map(|row| Some(row.0.to_string())).collect()),
        ),
        (
            "ann_date".to_string(),
            ColumnData::I32(rows.iter().map(|row| Some(row.2)).collect()),
        ),
        (
            "f_ann_date".to_string(),
            ColumnData::I32(rows.iter().map(|row| Some(row.2)).collect()),
        ),
        (
            "end_date".to_string(),
            ColumnData::I32(rows.iter().map(|row| Some(row.1)).collect()),
        ),
        (
            "report_type".to_string(),
            ColumnData::I64(rows.iter().map(|row| Some(row.3)).collect()),
        ),
        (
            "update_flag".to_string(),
            ColumnData::I64(rows.iter().map(|row| Some(row.4)).collect()),
        ),
    ])
    .expect("valid table")
}

/// Rows of (end date, disclosure date, report type, update flag) of one stock.
fn financial_table(rows: &[(i32, i32, i64, i64)]) -> Table {
    let with_code: Vec<(&str, i32, i32, i64, i64)> = rows
        .iter()
        .map(|row| ("000001.SZ", row.0, row.1, row.2, row.3))
        .collect();
    financial_table_with_codes(&with_code)
}

fn panel(dates: &[i32]) -> DailyPanel {
    DailyPanel::from_index(
        dates.to_vec(),
        vec!["000001.SZ".to_string()],
        dates,
        vec![true; dates.len()],
    )
    .expect("panel")
}

#[test]
fn financial_event_schedule_from_pit_reader_filters_unrequested_report_types() {
    let table = Arc::new(financial_table(&[
        (20250331, 20250420, 1, 0),
        (20250331, 20250421, 9, 0),
    ]));
    let index = FinancialPitIndex::from_table(table).expect("pit index");
    let schedule = FinancialEventSchedule::from_pit_readers(&[
        index.reader(ReportTypePreference::balance_sheet_consolidated()),
    ]);

    assert!(schedule.has_event_after_until(Some(20250419), 20250420));
    assert!(!schedule.has_event_after_until(Some(20250420), 20250421));
}

#[test]
fn report_type_preference_uses_order_before_fallback() {
    let table = financial_table(&[
        (20250331, 20250420, 1, 0),
        (20250331, 20250420, 2, 0),
        (20250331, 20250420, 3, 0),
        (20250331, 20250420, 4, 0),
    ]);
    let index = FinancialPitIndex::from_table(Arc::new(table)).expect("index");
    let income = index.reader(ReportTypePreference::income_single_quarter());
    let balance = index.reader(ReportTypePreference::balance_sheet_consolidated());

    assert_eq!(
        income
            .record_for_end_date("000001.SZ", 20250501, 20250331)
            .map(|record| record.report_type()),
        Some(3)
    );
    assert_eq!(
        balance
            .record_for_end_date("000001.SZ", 20250501, 20250331)
            .map(|record| record.report_type()),
        Some(1)
    );
}

#[test]
fn financial_pit_index_shares_rows_but_keeps_report_type_preferences_separate() {
    let table = Arc::new(financial_table(&[
        (20250331, 20250420, 1, 0),
        (20250331, 20250420, 2, 0),
        (20250331, 20250420, 3, 0),
        (20250331, 20250420, 4, 0),
    ]));
    let index = FinancialPitIndex::from_table(Arc::clone(&table)).expect("pit index");
    let income = index.reader(ReportTypePreference::income_single_quarter());
    let balance = index.reader(ReportTypePreference::balance_sheet_consolidated());

    assert_eq!(
        income
            .record_for_end_date("000001.SZ", 20250501, 20250331)
            .map(|record| record.report_type()),
        Some(3)
    );
    assert_eq!(
        balance
            .record_for_end_date("000001.SZ", 20250501, 20250331)
            .map(|record| record.report_type()),
        Some(1)
    );
}

#[test]
fn financial_pit_reader_uses_only_disclosed_versions() {
    let table = financial_table(&[
        (20241231, 20250331, 3, 0),
        (20241231, 20250430, 3, 1),
    ]);
    let index = FinancialPitIndex::from_table(Arc::new(table)).expect("index");
    let data = index.reader(ReportTypePreference::income_single_quarter());

    let first = data
        .record_for_end_date("000001.SZ", 20250401, 20241231)
        .expect("first version");
    assert_eq!((first.disclosure_date(), first.update_flag()), (20250331, 0));
    let second = data
        .record_for_end_date("000001.SZ", 20250501, 20241231)
        .expect("second version");
    assert_eq!((second.disclosure_date(), second.update_flag()), (20250430, 1));
    assert!(data
        .record_for_end_date("000001.SZ", 20250330, 20241231)
        .is_none());
}

#[test]
fn financial_pit_reader_keeps_year_end_and_q1_when_disclosed_together() {
    let table = financial_table(&[
        (20241231, 20250430, 3, 0),
        (20250331, 20250430, 3, 0),
    ]);
    let index = FinancialPitIndex::from_table(Arc::new(table)).expect("index");
    let data = index.reader(ReportTypePreference::income_single_quarter());

    assert_eq!(
        data.latest_quarter_end_date("000001.SZ", 20250430),
        Some(20250331)
    );
    assert_eq!(
        data.record_for_end_date("000001.SZ", 20250430, 20241231)
            .map(|record| record.end_date()),
        Some(20241231)
    );
    assert_eq!(
        data.record_for_end_date("000001.SZ", 20250430, 20250331)
            .map(|record| record.end_date()),
        Some(20250331)
    );
}

#[test]
fn financial_pit_reader_latest_annual_end_date_skips_quarters() {
    let table = financial_table(&[
        (20211231, 20220430, 1, 0),
        (20221231, 20230430, 1, 0),
        (20230331, 20230430, 1, 0),
        (20230630, 20230831, 1, 0),
        (20230930, 20231031, 1, 0),
        (20231231, 20240430, 1, 0),
        (20241231, 20250430, 1, 0),
    ]);
    let index = FinancialPitIndex::from_table(Arc::new(table)).expect("index");
    let data = index.reader(ReportTypePreference::consolidated());

    assert_eq!(
        data.latest_annual_end_date("000001.SZ", 20240501),
        Some(20231231)
    );
    assert_eq!(
        data.latest_annual_end_date("000001.SZ", 20250501),
        Some(20241231)
    );
    assert_eq!(data.latest_annual_end_date("000001.SZ", 20220429), None);
    assert_eq!(
        data.latest_quarter_end_date("000001.SZ", 20231101),
        Some(20230930)
    );
}

#[test]
fn financial_pit_index_rejects_a_table_without_key_columns() {
    let table = Table::new(vec![(
        "ts_code".to_string(),
        ColumnData::Utf8(vec![Some("000001.SZ".to_string())]),
    )])
    .expect("valid table");
    assert!(FinancialPitIndex::from_table(Arc::new(table)).is_err());
}

#[test]
fn financial_event_schedule_merge_is_a_union_of_event_dates() {
    let first = financial_table(&[(20241231, 20250331, 1, 0)]);
    let second = financial_table(&[(20250331, 20250428, 1, 0)]);
    let first_index = FinancialPitIndex::from_table(Arc::new(first)).expect("index");
    let second_index = FinancialPitIndex::from_table(Arc::new(second)).expect("index");
    let mut schedule = FinancialEventSchedule::from_pit_readers(&[
        first_index.reader(ReportTypePreference::consolidated()),
    ]);
    schedule.merge(FinancialEventSchedule::from_pit_readers(&[
        second_index.reader(ReportTypePreference::consolidated()),
    ]));

    assert!(schedule.has_event_after_until(None, 20250331));
    assert!(schedule.has_event_after_until(Some(20250331), 20250428));
    assert!(!schedule.has_event_after_until(Some(20250428), 20251231));
    assert!(!FinancialEventSchedule::default().has_event_after_until(None, 20251231));
}

#[test]
fn financial_event_trade_dates_keep_only_targets_after_events() {
    let table = financial_table(&[
        (20241231, 20250103, 1, 0),
        (20250331, 20250108, 1, 0),
    ]);
    let index = FinancialPitIndex::from_table(Arc::new(table)).expect("index");
    let schedule =
        FinancialEventSchedule::from_pit_readers(&[index.reader(ReportTypePreference::consolidated())]);
    let targets = [20250102, 20250106, 20250107, 20250108, 20250109];

    assert_eq!(
        financial_event_trade_dates(None, &schedule, &targets),
        vec![20250102, 20250106, 20250108]
    );
    assert_eq!(
        financial_event_trade_dates(Some(20250106), &schedule, &targets[2..]),
        vec![20250108]
    );
}

#[test]
fn stock_snapshot_cache_reuses_until_stock_marker_changes() {
    let table = financial_table_with_codes(&[
        ("000001.SZ", 20241231, 20250331, 1, 0),
        ("000001.SZ", 20250331, 20250428, 1, 0),
        ("000002.SZ", 20241231, 20250331, 1, 0),
    ]);
    let index = FinancialPitIndex::from_table(Arc::new(table)).expect("index");
    let data = index.reader(ReportTypePreference::consolidated());
    let mut cache = FinancialStockSnapshotCache::<i32>::new(2);
    let mut calls = [0usize; 2];

    for trade_date in [20250425, 20250428, 20250429] {
        for (idx, ts_code) in ["000001.SZ", "000002.SZ"].iter().enumerate() {
            let mut builder = FinancialEventMarkerBuilder::new();
            builder.include_reader_latest_quarter(
                FinancialStatementDataset::Income,
                &data,
                ts_code,
                trade_date,
            );
            let marker = builder.build();
            let value = cache.get_or_update(idx, marker, || {
                calls[idx] += 1;
                data.latest_quarter_end_date(ts_code, trade_date)
                    .and_then(|end_date| {
                        data.record_for_end_date(ts_code, trade_date, end_date)
                            .map(|record| record.end_date())
                    })
            });
            assert!(value.is_some());
        }
    }

    assert_eq!(calls, [2, 1]);
}

#[test]
fn stock_snapshot_cache_does_not_reuse_when_marker_is_missing() {
    let mut cache = FinancialStockSnapshotCache::<f64>::new(1);
    let mut calls = 0usize;
    let mut builder = FinancialEventMarkerBuilder::new();
    builder.include_synthetic("event", 1);
    let marker = builder.build();
    assert_eq!(
        cache.get_or_update(0, marker, || {
            calls += 1;
            Some(1.0)
        }),
        Some(1.0)
    );
    assert_eq!(cache.get_or_update(0, None, || Some(2.0)), None);
    let mut builder = FinancialEventMarkerBuilder::new();
    builder.include_synthetic("event", 1);
    assert_eq!(
        cache.get_or_update(0, builder.build(), || {
            calls += 1;
            Some(3.0)
        }),
        Some(3.0)
    );
    assert_eq!(calls, 2);
}

#[test]
fn stock_snapshot_cache_ignores_positions_past_its_end_and_clears_slots() {
    let mut cache = FinancialStockSnapshotCache::<i32>::new(1);
    let mut builder = FinancialEventMarkerBuilder::new();
    builder.include_synthetic("event", 1);
    let marker = builder.build();
    assert_eq!(cache.get_or_update(1, marker.clone(), || Some(5)), None);
    assert_eq!(cache.get_or_update(0, marker.clone(), || Some(6)), Some(6));
    assert_eq!(cache.get_or_update(0, marker.clone(), || Some(7)), Some(6));
    cache.clear(0);
    assert_eq!(cache.get_or_update(0, marker, || Some(8)), Some(8));
}

#[test]
fn cached_financial_stock_snapshots_reuses_until_marker_changes() {
    let panel = panel(&[20260105, 20260106, 20260107]);
    let mut calls = 0usize;
    let snapshots = cached_financial_stock_snapshots(
        &panel,
        |_, _, _| false,
        |trade_date, _, _| {
            let mut builder = FinancialEventMarkerBuilder::new();
            let marker_value = if trade_date < 20260107 { 1 } else { 2 };
            builder.include_synthetic("marker", marker_value);
            builder.build()
        },
        |trade_date, _, _| {
            calls += 1;
            Some(trade_date)
        },
    );

    assert_eq!(calls, 2);
    assert_eq!(
        snapshots,
        vec![Some(20260105), Some(20260105), Some(20260107)]
    );
}

#[test]
fn cached_financial_stock_snapshots_skip_clears_cached_snapshot() {
    let panel = panel(&[20260105, 20260106, 20260107]);
    let mut calls = 0usize;
    let snapshots = cached_financial_stock_snapshots(
        &panel,
        |trade_date, _, _| trade_date == 20260106,
        |_, _, _| {
            let mut builder = FinancialEventMarkerBuilder::new();
            builder.include_synthetic("marker", 1);
            builder.build()
        },
        |trade_date, _, _| {
            calls += 1;
            Some(trade_date)
        },
    );

    assert_eq!(calls, 2);
    assert_eq!(snapshots, vec![Some(20260105), None, Some(20260107)]);
}

#[test]
fn cached_financial_stock_snapshots_leave_non_target_dates_empty() {
    let panel = DailyPanel::from_index(
        vec![20260105, 20260106],
        vec!["000001.SZ".to_string()],
        &[20260106],
        vec![true, true],
    )
    .expect("panel");
    let snapshots = cached_financial_stock_snapshots(
        &panel,
        |_, _, _| false,
        |_, _, _| {
            let mut builder = FinancialEventMarkerBuilder::new();
            builder.include_synthetic("marker", 1);
            builder.build()
        },
        |trade_date, _, _| Some(trade_date),
    );
    assert_eq!(snapshots, vec![None, Some(20260106)]);
}

#[test]
fn instrument_aligned_snapshot_cache_remaps_by_ts_code() {
    let mut cache = InstrumentAlignedSnapshotCache::<i32>::default();
    cache.align_to(&["000001.SZ".to_string(), "000002.SZ".to_string()]);
    let mut marker = FinancialEventMarkerBuilder::new();
    marker.include_synthetic("event", 1);
    let marker = marker.build();
    assert_eq!(
        cache.get_or_update(0, marker.clone(), || Some(10)),
        Some(10)
    );
    assert_eq!(
        cache.get_or_update(1, marker.clone(), || Some(20)),
        Some(20)
    );

    cache.align_to(&["000002.SZ".to_string(), "000001.SZ".to_string()]);
    let mut calls = 0usize;
    assert_eq!(
        cache.get_or_update(0, marker.clone(), || {
            calls += 1;
            Some(99)
        }),
        Some(20)
    );
    assert_eq!(
        cache.get_or_update(1, marker, || {
            calls += 1;
            Some(88)
        }),
        Some(10)
    );
    assert_eq!(calls, 0);
}

#[test]
fn cached_financial_stock_snapshots_for_date_reuses_provider_state() {
    let panel = DailyPanel::from_index(
        vec![20260105, 20260106],
        vec!["000001.SZ".to_string(), "000002.SZ".to_string()],
        &[20260105, 20260106],
        vec![true, true, true, true],
    )
    .unwrap();
    let mut cache = InstrumentAlignedSnapshotCache::<i32>::default();
    let mut calls = [0usize; 2];

    for trade_date in [20260105, 20260106] {
        let snapshots = cached_financial_stock_snapshots_for_date(
            &panel,
            trade_date,
            &mut cache,
            |_, _, _| false,
            |_, _, _| {
                let mut marker = FinancialEventMarkerBuilder::new();
                marker.include_synthetic("event", 1);
                marker.build()
            },
            |_, _, offset| {
                let instrument_idx = offset % 2;
                calls[instrument_idx] += 1;
                Some((instrument_idx + 1) as i32)
            },
        );
        assert_eq!(snapshots, vec![Some(1), Some(2)]);
    }

    assert_eq!(calls, [1, 1]);
}

#[test]
fn cached_financial_stock_snapshots_for_date_outside_panel_is_empty() {
    let panel = DailyPanel::from_index(
        vec![20260105],
        vec!["000001.SZ".to_string(), "000002.SZ".to_string()],
        &[20260105],
        vec![true, true],
    )
    .unwrap();
    let mut cache = InstrumentAlignedSnapshotCache::<i32>::default();
    let snapshots = cached_financial_stock_snapshots_for_date(
        &panel,
        20260107,
        &mut cache,
        |_, _, _| false,
        |_, _, _| None,
        |_, _, _| Some(1),
    );
    assert_eq!(snapshots, vec![None, None]);
}

fn dividend_row(ts_code: &str, ann_date: i32, div_proc: &str, ex_date: i32) -> DividendEventRow {
    DividendEventRow {
        ts_code: Some(ts_code.to_string()),
        ann_date: Some(ann_date),
        ex_date: Some(ex_date),
        div_proc: Some(div_proc.to_string()),
        amounts_usable: true,
    }
}

#[test]
fn financial_event_schedule_maps_statement_and_dividend_dates() {
    let statement = financial_table(&[(20251231, 20260103, 1, 0)]);
    let statement_index = FinancialPitIndex::from_table(Arc::new(statement)).expect("index");
    let dividends = vec![dividend_row("000001.SZ", 20250115, "\u{5b9e}\u{65bd}", 20250131)];
    let mut schedule = FinancialEventSchedule::from_pit_readers(&[
        statement_index.reader(ReportTypePreference::consolidated())
    ]);
    schedule.merge(FinancialEventSchedule::from_dividend_rows(&dividends));

    assert!(schedule.has_event_after_until(Some(20260102), 20260105));
    assert!(!schedule.has_event_after_until(Some(20260105), 20260106));
    assert!(schedule.has_event_after_until(Some(20260131), 20260201));
}

#[test]
fn dividend_schedule_keeps_only_carried_out_dividends_with_usable_amounts() {
    let mut planned = dividend_row("000001.SZ", 20250115, "\u{9884}\u{6848}", 20250131);
    planned.amounts_usable = true;
    let mut unusable = dividend_row("000002.SZ", 20250301, " \u{5b9e}\u{65bd} ", 20250310);
    unusable.amounts_usable = false;
    let padded = dividend_row("000003.SZ", 20250401, " \u{5b9e}\u{65bd} ", 20250415);
    let schedule = FinancialEventSchedule::from_dividend_rows(&[planned, unusable, padded]);

    assert!(!schedule.has_event_after_until(Some(20250101), 20250331));
    assert!(schedule.has_event_after_until(Some(20250331), 20250401));
    assert!(schedule.has_event_after_until(Some(20250401), 20250415));
    assert!(!schedule.has_event_after_until(Some(20250415), 20260415));
    assert!(schedule.has_event_after_until(Some(20260415), 20260416));
}
