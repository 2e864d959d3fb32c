use std::collections::BTreeMap;
use std::sync::Arc;

use factor_engine::catalog::{
    multi_target_context, AssetClass, FactorContext, FactorRowKey, FactorSeries, FactorSpec,
    FactorValue, Frequency, Lookback,
};
use factor_engine::event_cache::{
    compute_financial_event_snapshot_streaming_on_panel, factor_series_for_trade_date,
    factor_series_to_panel_column, fill_present_non_bj_missing_ranks_with_zero,
    EventDrivenCrossSectionCache,
};
use factor_engine::financial_pit::{FinancialEventSchedule, FinancialPitIndex, ReportTypePreference};
use factor_engine::panel::DailyPanel;
use factor_engine::table::{ColumnData, Table};

fn panel(dates: &[i32]) -> DailyPanel {
    DailyPanel::from_index(
        dates.to_vec(),
        vec!["000001.SZ".to_string()],
        dates,
        vec![true; dates.len()],
    )
    .expect("panel")
}

fn panel_for_codes(date: i32, codes: &[&str]) -> DailyPanel {
    DailyPanel::from_index(
        vec![date],
        codes.iter().map(|code| code.to_string()).collect(),
        &[date],
        vec![true; codes.len()],
    )
    .expect("panel")
}

fn event_spec(id: &str) -> FactorSpec {
    FactorSpec {
        id: id.to_string(),
        aliases: Vec::new(),
        name: id.to_string(),
        asset_class: AssetClass::Stock,
        frequency: Frequency::Daily,
        version: "0.1.0".to_string(),
        tags: Vec::new(),
        description: String::new(),
        dependencies: Vec::new(),
        intraday_raw_dependencies: Vec::new(),
        lookback: Lookback { trading_days: 0 },
    }
}

fn daily(trade_date: i32, ts_code: &str, value: Option<f64>) -> FactorValue<f64> {
    FactorValue {
        key: FactorRowKey::Daily {
            trade_date,
            ts_code: ts_code.to_string(),
        },
        value,
    }
}

#[test]
fn event_driven_cross_section_cache_replays_latest_values_daily() {
    let panel = panel(&[20260105, 20260106]);
    let spec = event_spec("slow_factor");
    let mut cache = EventDrivenCrossSectionCache::default();
    cache.update_series(
        &FactorSeries {
            spec: spec.clone(),
            values: vec![daily(20260105, "000001.SZ", Some(1.23))],
        },
        &panel,
    );

    let replay = cache.replay_series(spec, &panel, 20260106);

    assert_eq!(replay.values.len(), 1);
    assert_eq!(
        replay.values[0].key,
        FactorRowKey::Daily {
            trade_date: 20260106,
            ts_code: "000001.SZ".to_string(),
        }
    );
    assert_eq!(replay.values[0].value, Some(1.23));
}

#[test]
fn event_driven_cross_section_cache_replays_by_code_when_panel_changes() {
    let old_panel = panel_for_codes(20260105, &["000002.SZ", "000004.SZ"]);
    let new_panel = panel_for_codes(20260106, &["000001.SZ", "000002.SZ", "000004.SZ"]);
    let spec = event_spec("slow_factor");
    let mut cache = EventDrivenCrossSectionCache::default();
    cache.update_series(
        &FactorSeries {
            spec: spec.clone(),
            values: vec![
                daily(20260105, "000002.SZ", Some(2.0)),
                daily(20260105, "000004.SZ", Some(4.0)),
            ],
        },
        &old_panel,
    );

    let replay = cache.replay_series(spec, &new_panel, 20260106);
    let values = replay
        .values
        .iter()
        .map(|item| match &item.key {
            FactorRowKey::Daily { ts_code, .. } => (ts_code.as_str(), item.value),
        })
        .collect::<BTreeMap<_, _>>();

    assert_eq!(values.get("000001.SZ"), Some(&None));
    assert_eq!(values.get("000002.SZ"), Some(&Some(2.0)));
    assert_eq!(values.get("000004.SZ"), Some(&Some(4.0)));
}

#[test]
fn event_driven_cross_section_cache_keeps_factors_apart_and_skips_absent_rows() {
    let panel = DailyPanel::from_index(
        vec![20260105, 20260106],
        vec!["000001.SZ".to_string(), "000002.SZ".to_string()],
        &[20260105, 20260106],
        vec![true, true, true, false],
    )
    .expect("panel");
    let mut cache = EventDrivenCrossSectionCache::default();
    cache.update_series(
        &FactorSeries {
            spec: event_spec("a"),
            values: vec![
                daily(20260105, "000001.SZ", Some(1.0)),
                daily(20260105, "000002.SZ", Some(2.0)),
                daily(20260105, "000009.SZ", Some(9.0)),
            ],
        },
        &panel,
    );
    cache.update_series(
        &FactorSeries {
            spec: event_spec("b"),
            values: vec![daily(20260105, "000001.SZ", Some(5.0))],
        },
        &panel,
    );

    let a = cache.replay_series(event_spec("a"), &panel, 20260106);
    assert_eq!(a.values.len(), 1);
    assert_eq!(a.values[0].value, Some(1.0));
    let b = cache.replay_series(event_spec("b"), &panel, 20260105);
    assert_eq!(
        b.values.iter().map(|row| row.value).collect::<Vec<_>>(),
        vec![Some(5.0), None]
    );
    let unknown = cache.replay_series(event_spec("c"), &panel, 20260105);
    assert_eq!(
        unknown.values.iter().map(|row| row.value).collect::<Vec<_>>(),
        vec![None, None]
    );
    assert!(cache
        .replay_series(event_spec("a"), &panel, 20260107)
        .values
        .is_empty());
}

#[test]
fn event_driven_cross_section_cache_recomputes_on_first_day_and_after_events() {
    let table = Table::new(vec![
        ("ts_code".to_string(), ColumnData::Utf8(vec![Some("000001.SZ".to_string())])),
        ("ann_date".to_string(), ColumnData::I32(vec![Some(20260107)])),
        ("f_ann_date".to_string(), ColumnData::I32(vec![Some(20260107)])),
        ("end_date".to_string(), ColumnData::I32(vec![Some(20251231)])),
        ("report_type".to_string(), ColumnData::I64(vec![Some(1)])),
        ("update_flag".to_string(), ColumnData::I64(vec![Some(0)])),
    ])
    .expect("table");
    let index = FinancialPitIndex::from_table(Arc::new(table)).expect("index");
    let schedule =
        FinancialEventSchedule::from_pit_readers(&[index.reader(ReportTypePreference::consolidated())]);
    let mut cache = EventDrivenCrossSectionCache::<f64>::default();
    assert!(cache.should_recompute(&schedule, 20260105));
    cache.mark_processed(20260105);
    assert!(!cache.should_recompute(&schedule, 20260106));
    cache.mark_processed(20260106);
    assert!(cache.should_recompute(&schedule, 20260107));
    cache.mark_processed(20260107);
    assert!(!cache.should_recompute(&schedule, 20260108));
}

#[test]
fn factor_series_to_panel_column_places_rows_by_date_and_code() {
    let panel = DailyPanel::from_index(
        vec![20260105, 20260106],
        vec!["000001.SZ".to_string(), "000002.SZ".to_string()],
        &[20260105, 20260106],
        vec![true, true, true, true],
    )
    .expect("panel");
    let series = FactorSeries {
        spec: event_spec("x"),
        values: vec![
            daily(20260106, "000002.SZ", Some(4.0)),
            daily(20260105, "000001.SZ", Some(1.0)),
            daily(20260107, "000001.SZ", Some(9.0)),
            daily(20260105, "000003.SZ", Some(9.0)),
            daily(20260105, "000001.SZ", Some(1.5)),
        ],
    };
    assert_eq!(
        factor_series_to_panel_column(&panel, &series),
        vec![Some(1.5), None, None, Some(4.0)]
    );
}

#[test]
fn multi_target_context_narrows_the_date_range() {
    let context = FactorContext {
        asset_class: AssetClass::Stock,
        frequency: Frequency::Daily,
        start_date: 20260101,
        end_date: 20260131,
        load_start_date: 20251201,
        load_dates: vec![20251201, 20260105],
        target_dates: vec![20260105, 20260106, 20260107],
    };
    let narrowed = multi_target_context(&context, &[20260106]);
    assert_eq!(narrowed.start_date, 20260106);
    assert_eq!(narrowed.end_date, 20260106);
    assert_eq!(narrowed.target_dates, vec![20260106]);
    assert_eq!(narrowed.load_dates, context.load_dates);
    assert_eq!(narrowed.load_start_date, 20251201);
    let unchanged = multi_target_context(&context, &[]);
    assert_eq!((unchanged.start_date, unchanged.end_date), (20260101, 20260131));
    assert!(unchanged.target_dates.is_empty());
}

fn factor_context(dates: &[i32]) -> FactorContext {
    FactorContext {
        asset_class: AssetClass::Stock,
        frequency: Frequency::Daily,
        start_date: *dates.first().unwrap(),
        end_date: *dates.last().unwrap(),
        load_start_date: *dates.first().unwrap(),
        load_dates: dates.to_vec(),
        target_dates: dates.to_vec(),
    }
}

/// Rows of (end date, disclosure date, report type, update flag) of one stock.
fn financial_table(rows: &[(i32, i32, i64, i64)]) -> Table {
    Table::new(vec![
        (
            "ts_code".to_string(),
            ColumnData::Utf8(rows.iter().map(|_| Some("000001.SZ".to_string())).collect()),
        ),
        (
            "ann_date".to_string(),
            ColumnData::I32(rows.iter().map(|row| Some(row.1)).collect()),
        ),
        (
            "f_ann_date".to_string(),
            ColumnData::I32(rows.iter().map(|row| Some(row.1)).collect()),
        ),
        (
            "end_date".to_string(),
            ColumnData::I32(rows.iter().map(|row| Some(row.0)).collect()),
        ),
        (
            "report_type".to_string(),
            ColumnData::I64(rows.iter().map(|row| Some(row.2)).collect()),
        ),
        (
            "update_flag".to_string(),
            ColumnData::I64(rows.iter().map(|row| Some(row.3)).collect()),
        ),
    ])
    .expect("valid table")
}

fn dated_series(spec: &FactorSpec, context: &FactorContext) -> Vec<FactorSeries<f64>> {
    vec![FactorSeries {
        spec: spec.clone(),
        values: context
            .target_dates
            .iter()
            .map(|trade_date| daily(*trade_date, "000001.SZ", Some(*trade_date as f64)))
            .collect(),
    }]
}

#[test]
fn financial_event_snapshot_streams_event_dates_and_replays_cache() {
    let dates = vec![20260102, 20260105, 20260106, 20260107, 20260108];
    let context = factor_context(&dates);
    let panel = panel(&dates);
    let statement = financial_table(&[(20251231, 20260104, 1, 0), (20260331, 20260107, 1, 0)]);
    let statement_index = FinancialPitIndex::from_table(Arc::new(statement)).expect("index");
    let schedule = FinancialEventSchedule::from_pit_readers(&[
        statement_index.reader(ReportTypePreference::consolidated()),
    ]);
    let spec = event_spec("slow_factor");
    let mut state = EventDrivenCrossSectionCache::default();
    let mut call_count = 0usize;
    let mut seen_event_dates = Vec::new();
    let output = compute_financial_event_snapshot_streaming_on_panel(
        &[spec.id.clone()],
        &context,
        &panel,
        &mut state,
        &schedule,
        &[spec.clone()],
        |_, event_context| {
            call_count += 1;
            seen_event_dates.extend(event_context.target_dates.iter().copied());
            Ok::<_, String>(dated_series(&spec, event_context))
        },
    )
    .expect("event snapshot");

    assert_eq!(call_count, 3);
    assert_eq!(seen_event_dates, vec![20260102, 20260105, 20260107]);
    assert_eq!(output.len(), 1);
    assert_eq!(output[0].values.len(), dates.len());

    let by_date = output[0]
        .values
        .iter()
        .map(|value| {
            let FactorRowKey::Daily { trade_date, .. } = &value.key;
            (*trade_date, value.value)
        })
        .collect::<BTreeMap<_, _>>();
    assert_eq!(by_date.get(&20260102), Some(&Some(20260102.0)));
    assert_eq!(by_date.get(&20260105), Some(&Some(20260105.0)));
    assert_eq!(by_date.get(&20260106), Some(&Some(20260105.0)));
    assert_eq!(by_date.get(&20260107), Some(&Some(20260107.0)));
    assert_eq!(by_date.get(&20260108), Some(&Some(20260107.0)));
}

#[test]
fn financial_event_snapshot_on_panel_does_not_require_pv_panel() {
    let dates = vec![20260102, 20260105];
    let context = factor_context(&dates);
    let panel = panel(&dates);
    let statement = financial_table(&[(20251231, 20260104, 1, 0)]);
    let statement_index = FinancialPitIndex::from_table(Arc::new(statement)).expect("index");
    let schedule = FinancialEventSchedule::from_pit_readers(&[
        statement_index.reader(ReportTypePreference::consolidated()),
    ]);
    let spec = event_spec("slow_factor");
    let mut state = EventDrivenCrossSectionCache::default();

    let output = compute_financial_event_snapshot_streaming_on_panel(
        &[spec.id.clone()],
        &context,
        &panel,
        &mut state,
        &schedule,
        &[spec.clone()],
        |_, event_context| Ok::<_, String>(dated_series(&spec, event_context)),
    )
    .expect("event snapshot without pv panel");

    assert_eq!(output[0].values.len(), dates.len());
    assert!(output[0].values.iter().all(|value| matches!(
        &value.key,
        FactorRowKey::Daily { ts_code, .. } if ts_code == "000001.SZ"
    )));
}

#[test]
fn financial_event_snapshot_without_events_only_replays() {
    let dates = vec![20260105, 20260106];
    let context = factor_context(&dates);
    let panel = panel(&dates);
    let schedule = FinancialEventSchedule::default();
    let spec = event_spec("slow_factor");
    let mut state = EventDrivenCrossSectionCache::default();
    state.update_series(
        &FactorSeries {
            spec: spec.clone(),
            values: vec![daily(20260102, "000001.SZ", Some(7.0))],
        },
        &panel,
    );
    state.mark_processed(20260102);
    let output = compute_financial_event_snapshot_streaming_on_panel(
        &[spec.id.clone()],
        &context,
        &panel,
        &mut state,
        &schedule,
        &[spec.clone(), event_spec("other"), spec.clone()],
        |_, _| Err::<Vec<FactorSeries<f64>>, String>("no event expected".to_string()),
    )
    .expect("replay only");

    assert_eq!(output.len(), 2);
    assert_eq!(output[0].spec.id, "slow_factor");
    assert_eq!(output[1].spec.id, "other");
    assert_eq!(
        output[0].values.iter().map(|row| row.value).collect::<Vec<_>>(),
        vec![Some(7.0), Some(7.0), Some(7.0), Some(7.0)]
    );
    assert_eq!(
        output[1].values.iter().map(|row| row.value).collect::<Vec<_>>(),
        vec![None, None]
    );
}

#[test]
fn financial_event_snapshot_stops_at_the_first_error() {
    let dates = vec![20260105, 20260106];
    let context = factor_context(&dates);
    let panel = panel(&dates);
    let schedule = FinancialEventSchedule::default();
    let spec = event_spec("slow_factor");
    let mut state = EventDrivenCrossSectionCache::<f64>::default();
    let result = compute_financial_event_snapshot_streaming_on_panel(
        &[spec.id.clone()],
        &context,
        &panel,
        &mut state,
        &schedule,
        &[spec.clone()],
        |_, _| Err::<Vec<FactorSeries<f64>>, String>("source unavailable".to_string()),
    );
    assert_eq!(result.err(), Some("source unavailable".to_string()));
}

/// The panel of the listed (date, code) rows: each code of any row is an
/// instrument, present on the dates of its rows.
fn test_panel(rows: &[(i32, &str)]) -> DailyPanel {
    let mut dates: Vec<i32> = Vec::new();
    let mut codes: Vec<String> = Vec::new();
    for (date, code) in rows {
        if !dates.contains(date) {
            dates.push(*date);
        }
        if !codes.iter().any(|known| known == code) {
            codes.push(code.to_string());
        }
    }
    let mut present = Vec::new();
    for date in &dates {
        for code in &codes {
            present.push(rows.iter().any(|(d, c)| d == date && c == code));
        }
    }
    DailyPanel::from_index(dates.clone(), codes, &dates, present).expect("panel")
}

#[test]
fn financial_similarity_fills_missing_rank_only_for_present_non_bj() {
    let panel = test_panel(&[
        (20260101, "000001.SZ"),
        (20260101, "000002.SZ"),
        (20260101, "920001.BJ"),
        (20260102, "000001.SZ"),
        (20260102, "920001.BJ"),
    ]);
    let ranked = vec![Some(0.0), Some(1.0), None, None, None, None];
    let filled = fill_present_non_bj_missing_ranks_with_zero(&ranked, &panel, 0.0);

    assert_eq!(
        filled,
        vec![Some(0.0), Some(1.0), None, Some(0.0), None, None]
    );
}

#[test]
fn factor_series_for_trade_date_keeps_present_rows_of_that_date() {
    let panel = test_panel(&[
        (20260101, "000001.SZ"),
        (20260101, "000002.SZ"),
        (20260102, "000002.SZ"),
    ]);
    let column = vec![Some(1.0), Some(2.0), Some(3.0), Some(4.0)];
    let series = factor_series_for_trade_date(event_spec("x"), &panel, 20260102, &column);
    assert_eq!(series.spec.id, "x");
    assert_eq!(series.values.len(), 1);
    assert_eq!(
        series.values[0].key,
        FactorRowKey::Daily {
            trade_date: 20260102,
            ts_code: "000002.SZ".to_string(),
        }
    );
    assert_eq!(series.values[0].value, Some(4.0));
    let first = factor_series_for_trade_date(event_spec("x"), &panel, 20260101, &column);
    assert_eq!(
        first.values.iter().map(|row| row.value).collect::<Vec<_>>(),
        vec![Some(1.0), Some(2.0)]
    );
    assert!(factor_series_for_trade_date(event_spec("x"), &panel, 20260105, &column)
        .values
        .is_empty());
}
