use factor_engine::column_layout::{expand_daily_values, expand_index_column};
use factor_engine::panel::DailyPanel;

fn grid(dates: &[i32], codes: &[&str]) -> DailyPanel {
    DailyPanel::from_index(
        dates.to_vec(),
        codes.iter().map(|code| code.to_string()).collect(),
        dates,
        vec![true; dates.len() * codes.len()],
    )
    .expect("panel")
}

#[test]
fn daily_values_repeat_across_instruments() {
    let panel = grid(&[20260105, 20260106, 20260107], &["000001.SZ", "000002.SZ"]);
    assert_eq!(
        expand_daily_values(&panel, &[Some(0.5), None]),
        vec![Some(0.5), Some(0.5), None, None, None, None]
    );
}

#[test]
fn index_column_values_follow_stock_dates() {
    let stocks = grid(&[20260105, 20260106, 20260107], &["000001.SZ", "000002.SZ"]);
    let index = grid(&[20260106, 20260105], &["000300.SH"]);
    assert_eq!(
        expand_index_column(&stocks, &index, &[Some(2.0), Some(1.0)]),
        vec![Some(1.0), Some(1.0), Some(2.0), Some(2.0), None, None]
    );
}

#[test]
fn index_column_reads_the_first_index_instrument() {
    let stocks = grid(&[20260105], &["000001.SZ"]);
    let index = grid(&[20260105], &["000300.SH", "000905.SH"]);
    assert_eq!(
        expand_index_column(&stocks, &index, &[Some(3.0), Some(4.0)]),
        vec![Some(3.0)]
    );
    let empty = grid(&[20260105], &[]);
    assert_eq!(expand_index_column::<f64>(&stocks, &empty, &[]), vec![None]);
}
