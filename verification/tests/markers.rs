use std::sync::Arc;

use factor_engine::financial_marker::{FinancialEventMarkerBuilder, FinancialStatementDataset};
use factor_engine::financial_pit::{FinancialPitIndex, ReportTypePreference};
use factor_engine::table::{ColumnData, Table, TableError};
use factor_engine::dbzq_profit_skew::{profit_skew_marker, ProfitSkewNeeds};
use factor_engine::dbzq_financial_efficiency::{efficiency_marker, EfficiencyNeeds};

fn financial_table(rows: &[(i32, i32, i64, i64)]) -> Table {
    Table::new(vec![
        (
            "ts_code".to_string(),
            ColumnData::Utf8(rows.iter().map(|_| Some("000001.SZ".to_string())).collect()),
        ),
        (
            "ann_date".to_string(),
            ColumnData::I32(rows.iter().map(|row| Some(row.1)).collect()),
        ),
        (
            "f_ann_date".to_string(),
            ColumnData::I32(rows.iter().map(|row| Some(row.1)).collect()),
        ),
        (
            "end_date".to_string(),
            ColumnData::I32(rows.iter().map(|row| Some(row.0)).collect()),
        ),
        (
            "report_type".to_string(),
            ColumnData::I64(rows.iter().map(|row| Some(row.2)).collect()),
        ),
        (
            "update_flag".to_string(),
            ColumnData::I64(rows.iter().map(|row| Some(row.3)).collect()),
        ),
    ])
    .expect("valid table")
}

#[test]
fn markers_with_the_same_members_are_equal_whatever_the_order() {
    let mut first = FinancialEventMarkerBuilder::new();
    first.include_synthetic("b", 2);
    first.include_synthetic("a", 1);
    first.include_synthetic("b", 2);
    let mut second = FinancialEventMarkerBuilder::new();
    second.include_synthetic("a", 1);
    second.include_synthetic("b", 2);
    let first = first.build().expect("marker");
    let second = second.build().expect("marker");
    assert!(first.same_as(&second));
    assert!(first.same_as(&first.clone()));

    let mut third = FinancialEventMarkerBuilder::new();
    third.include_synthetic("a", 1);
    let third = third.build().expect("marker");
    assert!(!first.same_as(&third));
}

#[test]
fn an_empty_builder_builds_no_marker() {
    assert!(FinancialEventMarkerBuilder::new().build().is_none());
    assert!(FinancialEventMarkerBuilder::default().build().is_none());
}

#[test]
fn reader_records_enter_markers_in_any_order() {
    let table = financial_table(&[
        (20241231, 20250331, 1, 0),
        (20250331, 20250428, 1, 0),
    ]);
    let index = FinancialPitIndex::from_table(Arc::new(table)).expect("index");
    let reader = index.reader(ReportTypePreference::consolidated());

    let mut forward = FinancialEventMarkerBuilder::new();
    forward.include_reader_record_for_end_date(
        FinancialStatementDataset::Income,
        &reader,
        "000001.SZ",
        20250430,
        20241231,
    );
    forward.include_reader_record_for_end_date(
        FinancialStatementDataset::Income,
        &reader,
        "000001.SZ",
        20250430,
        20250331,
    );
    let mut backward = FinancialEventMarkerBuilder::new();
    backward.include_reader_ttm_for_end_date(
        FinancialStatementDataset::Income,
        &reader,
        "000001.SZ",
        20250430,
        20250331,
    );
    let forward = forward.build().expect("marker");
    let backward = backward.build().expect("marker");
    assert!(forward.same_as(&backward));
    assert!(!forward.is_empty());

    let mut other_dataset = FinancialEventMarkerBuilder::new();
    other_dataset.include_reader_latest_quarter(
        FinancialStatementDataset::CashFlow,
        &reader,
        "000001.SZ",
        20250430,
    );
    let mut income_latest = FinancialEventMarkerBuilder::new();
    income_latest.include_reader_latest_quarter(
        FinancialStatementDataset::Income,
        &reader,
        "000001.SZ",
        20250430,
    );
    assert!(!other_dataset
        .build()
        .expect("marker")
        .same_as(&income_latest.build().expect("marker")));
}

#[test]
fn reader_records_that_are_not_seen_leave_no_trace() {
    let table = financial_table(&[(20250331, 20250428, 1, 0)]);
    let index = FinancialPitIndex::from_table(Arc::new(table)).expect("index");
    let reader = index.reader(ReportTypePreference::consolidated());
    let mut builder = FinancialEventMarkerBuilder::new();
    builder.include_reader_record_for_end_date(
        FinancialStatementDataset::Income,
        &reader,
        "000001.SZ",
        20250401,
        20250331,
    );
    builder.include_reader_latest_annual(FinancialStatementDataset::Income, &reader, "000001.SZ", 20250430);
    assert!(builder.build().is_none());
}

#[test]
fn tables_reject_columns_of_different_lengths() {
    let result = Table::new(vec![
        ("a".to_string(), ColumnData::I32(vec![Some(1), Some(2)])),
        ("b".to_string(), ColumnData::I64(vec![Some(1)])),
    ]);
    assert!(matches!(result, Err(TableError::LengthMismatch)));
}

#[test]
fn table_columns_are_found_by_name_and_type() {
    let table = Table::new(vec![
        ("a".to_string(), ColumnData::I32(vec![Some(1), None])),
        (
            "b".to_string(),
            ColumnData::Utf8(vec![Some("20250101".to_string()), Some("nan".to_string())]),
        ),
    ])
    .expect("table");
    assert_eq!(table.len, 2);
    assert!(table.has_column("a"));
    assert!(!table.has_column("c"));
    assert_eq!(table.required_i32("a").expect("column"), &vec![Some(1), None]);
    assert!(matches!(table.required_i32("b"), Err(TableError::WrongType(_))));
    assert!(matches!(table.required_utf8("c"), Err(TableError::MissingColumn(_))));
    assert_eq!(
        table.required_i32_date_cast("b").expect("dates"),
        vec![Some(20250101), None]
    );
    assert_eq!(
        table.required_i64_cast("a").expect("values"),
        vec![Some(1), None]
    );
}

fn single_stock_reader_table(rows: &[(i32, i32)]) -> Table {
    financial_table(
        &rows
            .iter()
            .map(|(end, ann)| (*end, *ann, 1, 0))
            .collect::<Vec<_>>(),
    )
}

#[test]
fn profit_skew_marker_covers_the_income_quarter_chain() {
    let table = single_stock_reader_table(&[
        (20240630, 20240820),
        (20240930, 20241025),
        (20241231, 20250320),
        (20250331, 20250425),
    ]);
    let index = FinancialPitIndex::from_table(Arc::new(table)).expect("index");
    let reader = index.reader(ReportTypePreference::consolidated());
    let needs = ProfitSkewNeeds { op_margin: false, pop: true };

    let marker = profit_skew_marker("000001.SZ", 20250430, &reader, needs).expect("marker");
    let mut expected = FinancialEventMarkerBuilder::new();
    for end in [20250331, 20241231, 20240930, 20240630] {
        expected.include_reader_record_for_end_date(
            FinancialStatementDataset::Income,
            &reader,
            "000001.SZ",
            20250430,
            end,
        );
    }
    assert!(marker.same_as(&expected.build().expect("marker")));

    // Before the first announcement nothing is seen.
    assert!(profit_skew_marker("000001.SZ", 20240801, &reader, needs).is_none());
    // Another stock has no statements.
    assert!(profit_skew_marker("000002.SZ", 20250430, &reader, needs).is_none());
}

#[test]
fn efficiency_marker_changes_when_a_new_quarter_is_announced() {
    let table = single_stock_reader_table(&[(20241231, 20250320), (20250331, 20250425)]);
    let index = FinancialPitIndex::from_table(Arc::new(table)).expect("index");
    let reader = index.reader(ReportTypePreference::consolidated());
    let needs = EfficiencyNeeds { roe: true, cfo: true };

    let before = efficiency_marker("000001.SZ", 20250401, &reader, &reader, &reader, needs)
        .expect("marker before");
    let after = efficiency_marker("000001.SZ", 20250430, &reader, &reader, &reader, needs)
        .expect("marker after");
    let again = efficiency_marker("000001.SZ", 20250505, &reader, &reader, &reader, needs)
        .expect("marker again");
    assert!(!before.same_as(&after));
    assert!(after.same_as(&again));
    assert!(efficiency_marker("000001.SZ", 20250301, &reader, &reader, &reader, needs).is_none());
}

#[test]
fn ttm_and_annual_chain_helpers_match_their_records() {
    let table = single_stock_reader_table(&[
        (20231231, 20240320),
        (20240331, 20240425),
        (20240630, 20240820),
        (20240930, 20241025),
        (20241231, 20250320),
        (20250331, 20250425),
    ]);
    let index = FinancialPitIndex::from_table(Arc::new(table)).expect("index");
    let reader = index.reader(ReportTypePreference::consolidated());

    let mut ttm = FinancialEventMarkerBuilder::new();
    ttm.include_reader_latest_ttm(FinancialStatementDataset::Income, &reader, "000001.SZ", 20250430);
    let mut quarters = FinancialEventMarkerBuilder::new();
    for end in [20250331, 20241231, 20240930, 20240630] {
        quarters.include_reader_record_for_end_date(
            FinancialStatementDataset::Income,
            &reader,
            "000001.SZ",
            20250430,
            end,
        );
    }
    assert!(ttm.build().expect("ttm").same_as(&quarters.build().expect("quarters")));

    let mut chain = FinancialEventMarkerBuilder::new();
    chain.include_reader_annual_chain(FinancialStatementDataset::Income, &reader, "000001.SZ", 20250430, 2);
    let mut years = FinancialEventMarkerBuilder::new();
    for end in [20241231, 20231231] {
        years.include_reader_record_for_end_date(
            FinancialStatementDataset::Income,
            &reader,
            "000001.SZ",
            20250430,
            end,
        );
    }
    assert!(chain.build().expect("chain").same_as(&years.build().expect("years")));
}
