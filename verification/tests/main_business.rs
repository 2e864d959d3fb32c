use factor_engine::main_business::MainBusinessIndex;
use factor_engine::table::{ColumnData, Table, TableError};

/// Rows of (code, period end, update flag, kind, item).
fn business_table(rows: &[(&str, i32, i64, &str, &str)]) -> Table {
    Table::new(vec![
        (
            "ts_code".to_string(),
            ColumnData::Utf8(rows.iter().map(|row| Some(row.0.to_string())).collect()),
        ),
        (
            "end_date".to_string(),
            ColumnData::I32(rows.iter().map(|row| Some(row.1)).collect()),
        ),
        (
            "update_flag".to_string(),
            ColumnData::I64(rows.iter().map(|row| Some(row.2)).collect()),
        ),
        (
            "bz_type".to_string(),
            ColumnData::Utf8(rows.iter().map(|row| Some(row.3.to_string())).collect()),
        ),
        (
            "bz_item".to_string(),
            ColumnData::Utf8(rows.iter().map(|row| Some(row.4.to_string())).collect()),
        ),
    ])
    .expect("valid table")
}

#[test]
fn main_business_latest_industry_period_skips_revisions_and_other_kinds() {
    let table = business_table(&[
        ("000001.SZ", 20231231, 0, "I", "banking"),
        ("000001.SZ", 20241231, 1, "I", "banking"),
        ("000001.SZ", 20241231, 0, "P", "loans"),
        ("000001.SZ", 20240630, 0, "i", "banking"),
        ("000002.SZ", 20241231, 0, "I", "property"),
    ]);
    let index = MainBusinessIndex::from_table(&table).expect("index");
    assert_eq!(index.len(), 5);
    let reader = index.reader();
    assert_eq!(reader.latest_industry_update0_end_date("000001.SZ", 20251231), Some(20240630));
    assert_eq!(reader.latest_industry_update0_end_date("000001.SZ", 20240101), Some(20231231));
    assert_eq!(reader.latest_industry_update0_end_date("000001.SZ", 20230101), None);
    assert_eq!(reader.latest_industry_update0_end_date("000003.SZ", 20251231), None);

    let all = reader.records_for_end_date("000001.SZ", 20241231);
    assert_eq!(all.len(), 2);
    assert_eq!(all[0].update_flag(), 1);
    assert_eq!(all[1].bz_type(), Some("P"));
    assert!(reader.industry_update0_records("000001.SZ", 20241231).is_empty());

    let industry = reader.industry_update0_records("000001.SZ", 20240630);
    assert_eq!(industry.len(), 1);
    assert_eq!(industry[0].bz_item(), Some("banking"));
    assert_eq!(industry[0].end_date(), 20240630);
}

#[test]
fn main_business_index_reports_the_first_missing_column() {
    let table = Table::new(vec![
        ("ts_code".to_string(), ColumnData::Utf8(vec![Some("000001.SZ".to_string())])),
        ("end_date".to_string(), ColumnData::I32(vec![Some(20241231)])),
        ("update_flag".to_string(), ColumnData::I64(vec![Some(0)])),
    ])
    .expect("table");
    assert!(matches!(
        MainBusinessIndex::from_table(&table),
        Err(TableError::MissingColumn(name)) if name == "bz_type"
    ));
}
