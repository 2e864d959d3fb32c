use factor_engine::dates::{
    add_days, add_months, days_from_civil, days_in_month, is_leap_year,
    nth_previous_quarter_end_date, quarter_chain, quarter_chain_ascending, sorted_unique,
    split_yyyymmdd, week_end_dates, week_end_indices, week_index, ymd,
};

#[test]
fn leap_years_follow_the_gregorian_rule() {
    assert!(is_leap_year(2024));
    assert!(!is_leap_year(1900));
    assert!(is_leap_year(2000));
    assert!(!is_leap_year(2025));
}

#[test]
fn days_in_month_know_february() {
    assert_eq!(days_in_month(2024, 2), 29);
    assert_eq!(days_in_month(2023, 2), 28);
    assert_eq!(days_in_month(2025, 4), 30);
    assert_eq!(days_in_month(2025, 12), 31);
}

#[test]
fn ymd_and_split_read_date_fields() {
    assert_eq!(ymd(20250415), (2025, 4, 15));
    assert_eq!(split_yyyymmdd(20250415), (2025, 4, 15));
}

#[test]
fn add_months_clamps_to_month_end() {
    assert_eq!(add_months(20250131, 1), 20250228);
    assert_eq!(add_months(20240229, -12), 20230228);
    assert_eq!(add_months(20250115, -12), 20240115);
    assert_eq!(add_months(20251130, 2), 20260130);
}

#[test]
fn add_days_rolls_over_months_and_years() {
    assert_eq!(add_days(20250228, 1), 20250301);
    assert_eq!(add_days(20250301, -1), 20250228);
    assert_eq!(add_days(20241231, 1), 20250101);
    assert_eq!(add_days(20240301, -1), 20240229);
    assert_eq!(add_days(20250415, 0), 20250415);
}

#[test]
fn quarter_chains_step_back_quarter_by_quarter() {
    assert_eq!(nth_previous_quarter_end_date(20250331, 4), Some(20240331));
    assert_eq!(nth_previous_quarter_end_date(20250415, 1), None);
    assert_eq!(nth_previous_quarter_end_date(20250415, 0), Some(20250415));
    assert_eq!(
        quarter_chain(20250331, 3),
        Some(vec![20250331, 20241231, 20240930])
    );
    assert_eq!(quarter_chain(20250415, 2), None);
    assert_eq!(
        quarter_chain_ascending(20250331, 3),
        vec![20240930, 20241231, 20250331]
    );
    assert_eq!(quarter_chain_ascending(20250415, 3), vec![20250415]);
}

#[test]
fn week_ends_are_last_trade_dates_of_monday_weeks() {
    assert_eq!(days_from_civil(1970, 1, 1), 719468);
    assert_eq!(week_index(20260105), week_index(20260109));
    assert_ne!(week_index(20260102), week_index(20260105));
    let dates = [20260102, 20260105, 20260106, 20260109, 20260112, 20260113];
    assert_eq!(week_end_dates(&dates), vec![20260102, 20260109, 20260113]);
    assert_eq!(week_end_indices(&dates), vec![0, 3, 5]);
    assert!(week_end_dates(&[]).is_empty());
}

#[test]
fn sorted_unique_sorts_and_drops_repeats() {
    assert_eq!(sorted_unique(&[3, 1, 3, 2, 1]), vec![1, 2, 3]);
    assert!(sorted_unique(&[]).is_empty());
}

#[test]
fn four_quarters_back_is_the_same_quarter_a_year_earlier() {
    for end_date in [20250331, 20250630, 20250930, 20251231] {
        assert_eq!(
            nth_previous_quarter_end_date(end_date, 4),
            Some(factor_engine::dates::same_quarter_previous_year(end_date))
        );
    }
}
