use factor_engine::cross_section::{ClassificationLevel, ClassificationMap};
use factor_engine::table::{ColumnData, Table};

fn sector_table() -> Table {
    Table::new(vec![
        (
            "ts_code".to_string(),
            ColumnData::Utf8(vec![
                Some("000001.SZ".to_string()),
                Some("000001.SZ".to_string()),
                Some("000002.SZ".to_string()),
            ]),
        ),
        (
            "in_date".to_string(),
            ColumnData::Utf8(vec![
                Some("20200101".to_string()),
                Some("20260110".to_string()),
                Some("20200101".to_string()),
            ]),
        ),
        (
            "out_date".to_string(),
            ColumnData::Utf8(vec![
                Some("20260109".to_string()),
                Some("99991231".to_string()),
                Some("nan".to_string()),
            ]),
        ),
        (
            "l1_code".to_string(),
            ColumnData::Utf8(vec![
                Some("old".to_string()),
                Some("new".to_string()),
                Some("active".to_string()),
            ]),
        ),
    ])
    .expect("valid table")
}

#[test]
fn classification_map_finds_active_sector_interval_from_string_dates() {
    let table = sector_table();

    let map = ClassificationMap::from_table(&table, ClassificationLevel::Sector).expect("map");

    assert_eq!(map.group_for(20260105, "000001.SZ"), Some("old"));
    assert_eq!(map.group_for(20260130, "000001.SZ"), Some("new"));
    assert_eq!(map.group_for(20260424, "000002.SZ"), Some("active"));
}

#[test]
fn classification_map_has_no_group_before_entry_or_for_unknown_codes() {
    let map = ClassificationMap::from_table(&sector_table(), ClassificationLevel::Sector).expect("map");

    assert_eq!(map.group_for(20191231, "000001.SZ"), None);
    assert_eq!(map.group_for(20260105, "000003.SZ"), None);
    assert_eq!(
        map.groups_for(
            20260130,
            &["000002.SZ".to_string(), "000003.SZ".to_string(), "000001.SZ".to_string()]
        ),
        vec![Some("active".to_string()), None, Some("new".to_string())]
    );
}

#[test]
fn classification_map_needs_the_level_column() {
    assert!(ClassificationMap::from_table(&sector_table(), ClassificationLevel::Industry).is_err());
}
