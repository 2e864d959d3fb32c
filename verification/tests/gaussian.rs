use std::sync::Arc;

use factor_engine::dates::{
    first_date_on_or_after, previous_quarter_end_date, same_quarter_previous_year,
};
use factor_engine::earnings_reaction::{
    announcement_trade_indices, spec as earnings_spec, EarningsReactionOutput,
};
use factor_engine::financial_pit::{FinancialPitIndex, ReportTypePreference};
use factor_engine::financial_similarity::{
    financial_metric_marker, spec as similarity_spec, FinancialSimilarityOutput,
};
use factor_engine::gaussian_financial::{
    financial_snapshot_marker, spec as gaussian_spec, FinancialNeeds, GaussianFinancialOutput,
};
use factor_engine::gaussian_financial_ext::{
    financial_ext_snapshot_marker, spec as ext_spec, GaussianFinancialExtOutput,
};
use factor_engine::panel::DailyPanel;
use factor_engine::table::{ColumnData, Table};

/// Rows of (end date, disclosure date, report type, update flag) of one stock.
fn financial_table(rows: &[(i32, i32, i64, i64)]) -> Table {
    Table::new(vec![
        (
            "ts_code".to_string(),
            ColumnData::Utf8(rows.iter().map(|_| Some("000001.SZ".to_string())).collect()),
        ),
        (
            "ann_date".to_string(),
            ColumnData::I32(rows.iter().map(|row| Some(row.1)).collect()),
        ),
        (
            "f_ann_date".to_string(),
            ColumnData::I32(rows.iter().map(|row| Some(row.1)).collect()),
        ),
        (
            "end_date".to_string(),
            ColumnData::I32(rows.iter().map(|row| Some(row.0)).collect()),
        ),
        (
            "report_type".to_string(),
            ColumnData::I64(rows.iter().map(|row| Some(row.2)).collect()),
        ),
        (
            "update_flag".to_string(),
            ColumnData::I64(rows.iter().map(|row| Some(row.3)).collect()),
        ),
    ])
    .expect("valid table")
}

#[test]
fn gaussian_financial_specs_have_dfzq_and_dbzq_tags() {
    let spec = gaussian_spec(GaussianFinancialOutput::EpSq);

    assert!(spec.tags.contains(&"DFZQ".to_string()));
    assert!(spec.tags.contains(&"DBZQ".to_string()));
    assert_eq!(spec.id, "ep_sq_gauss_resid");
}

#[test]
fn gaussian_financial_deprecated_outputs_carry_the_tag() {
    let spec = gaussian_spec(GaussianFinancialOutput::CfpSq);
    assert!(spec.tags.contains(&"deprecated".to_string()));
    assert!(!gaussian_spec(GaussianFinancialOutput::EpSq)
        .tags
        .contains(&"deprecated".to_string()));
    assert_eq!(
        GaussianFinancialOutput::from_id("pb_roe_gauss_spread"),
        Some(GaussianFinancialOutput::PbRoeSpread)
    );
    assert_eq!(GaussianFinancialOutput::from_id("unknown"), None);
}

#[test]
fn gaussian_financial_event_sources_follow_requested_outputs() {
    let ep_needs = FinancialNeeds::from_outputs(&[GaussianFinancialOutput::EpSq]);
    assert!(ep_needs.uses_income());
    assert!(!ep_needs.uses_balance());
    assert!(!ep_needs.uses_cashflow());
    assert!(!ep_needs.uses_dividend());

    let cash_needs = FinancialNeeds::from_outputs(&[GaussianFinancialOutput::CashValue]);
    assert!(!cash_needs.uses_income());
    assert!(!cash_needs.uses_balance());
    assert!(cash_needs.uses_cashflow());
    assert!(!cash_needs.uses_dividend());

    let div_needs = FinancialNeeds::from_outputs(&[GaussianFinancialOutput::DivTtm]);
    assert!(!div_needs.uses_income());
    assert!(!div_needs.uses_balance());
    assert!(!div_needs.uses_cashflow());
    assert!(div_needs.uses_dividend());
}

#[test]
fn gaussian_financial_same_quarter_previous_year_preserves_quarter() {
    assert_eq!(same_quarter_previous_year(20250331), 20240331);
    assert_eq!(same_quarter_previous_year(20251231), 20241231);
    assert_eq!(previous_quarter_end_date(20250331), Some(20241231));
}

#[test]
fn previous_quarter_end_date_steps_through_the_year() {
    assert_eq!(previous_quarter_end_date(20250630), Some(20250331));
    assert_eq!(previous_quarter_end_date(20250930), Some(20250630));
    assert_eq!(previous_quarter_end_date(20251231), Some(20250930));
    assert_eq!(previous_quarter_end_date(20250415), None);
}

#[test]
fn financial_similarity_same_quarter_previous_year_preserves_quarter() {
    assert_eq!(same_quarter_previous_year(20250331), 20240331);
    assert_eq!(same_quarter_previous_year(20251231), 20241231);
}

#[test]
fn same_quarter_previous_year_preserves_quarter_date() {
    assert_eq!(same_quarter_previous_year(20250331), 20240331);
    assert_eq!(same_quarter_previous_year(20251231), 20241231);
}

#[test]
fn total_mv_regression_outputs_are_sector_only_after_raw_regression() {
    assert!(GaussianFinancialExtOutput::EbitYoyChgMv.uses_total_mv_regression());
    assert!(GaussianFinancialExtOutput::InvCashOutMv.uses_total_mv_regression());
    assert!(!GaussianFinancialExtOutput::IncomeTaxEbitYoy.uses_total_mv_regression());
}

#[test]
fn duplicate_cfp_output_is_not_registered_in_ext_provider() {
    assert!(GaussianFinancialExtOutput::from_id("cfp_sq_gauss_resid").is_none());
}

#[test]
fn ext_output_ids_round_trip() {
    assert_eq!(
        GaussianFinancialExtOutput::from_id("n_oth_income_mv_gauss_resid"),
        Some(GaussianFinancialExtOutput::NOthIncomeMv)
    );
}

#[test]
fn ext_specs_keep_fundamental_gaussian_tags() {
    let factor_spec = ext_spec(GaussianFinancialExtOutput::NOthIncomeMv);
    assert_eq!(factor_spec.id, "n_oth_income_mv_gauss_resid");
    assert!(factor_spec.tags.contains(&"fundamental".to_string()));
    assert!(factor_spec.tags.contains(&"gaussian_rank".to_string()));
}

#[test]
fn earnings_reaction_specs_have_fundamental_gaussian_tags() {
    let factor_spec = earnings_spec(EarningsReactionOutput::GapIndustryExcess);
    assert_eq!(factor_spec.id, "earnings_gap_ind_excess_gauss_resid");
    assert!(factor_spec.tags.contains(&"fundamental".to_string()));
    assert!(factor_spec.tags.contains(&"gaussian_rank".to_string()));
}

#[test]
fn first_date_on_or_after_finds_announcement_trade_date() {
    let dates = [20260102, 20260105, 20260106];
    assert_eq!(first_date_on_or_after(&dates, 20260101), Some(0));
    assert_eq!(first_date_on_or_after(&dates, 20260105), Some(1));
    assert_eq!(first_date_on_or_after(&dates, 20260104), Some(1));
    assert_eq!(first_date_on_or_after(&dates, 20260107), None);
}

#[test]
fn announcement_trade_indices_need_a_following_trade_date() {
    let table = financial_table(&[(20251231, 20260104, 2, 0)]);
    let index = FinancialPitIndex::from_table(Arc::new(table)).expect("index");
    let income = index.reader(ReportTypePreference::income_single_quarter());
    let panel = DailyPanel::from_index(
        vec![20260102, 20260105, 20260106],
        vec!["000001.SZ".to_string()],
        &[20260106],
        vec![true, true, true],
    )
    .expect("panel");
    assert_eq!(
        announcement_trade_indices(&panel, &income, "000001.SZ", 20260106),
        Some((1, 2))
    );
    assert_eq!(
        announcement_trade_indices(&panel, &income, "000001.SZ", 20260103),
        None
    );
    let short = DailyPanel::from_index(
        vec![20260102, 20260105],
        vec!["000001.SZ".to_string()],
        &[20260105],
        vec![true, true],
    )
    .expect("panel");
    assert_eq!(
        announcement_trade_indices(&short, &income, "000001.SZ", 20260106),
        None
    );
}

#[test]
fn financial_similarity_specs_name_their_outputs() {
    let momentum = similarity_spec(FinancialSimilarityOutput::FMomentum80Pec);
    assert_eq!(momentum.id, "f_momentum_80pec");
    let link = similarity_spec(FinancialSimilarityOutput::LinkNew);
    assert_eq!(link.id, "link_new");
}

#[test]
fn snapshot_markers_change_with_a_new_statement_version() {
    let table = financial_table(&[
        (20241231, 20250331, 1, 0),
        (20250331, 20250428, 1, 0),
        (20250331, 20250520, 1, 1),
    ]);
    let index = FinancialPitIndex::from_table(Arc::new(table)).expect("index");
    let reader = index.reader(ReportTypePreference::consolidated());
    let needs = FinancialNeeds::from_outputs(&[GaussianFinancialOutput::EpSq]);

    let before = financial_snapshot_marker("000001.SZ", 20250430, &reader, &reader, &reader, 0, needs)
        .expect("marker");
    let same = financial_snapshot_marker("000001.SZ", 20250510, &reader, &reader, &reader, 0, needs)
        .expect("marker");
    let after = financial_snapshot_marker("000001.SZ", 20250521, &reader, &reader, &reader, 0, needs)
        .expect("marker");
    assert!(before.same_as(&same));
    assert!(!before.same_as(&after));
    assert!(financial_snapshot_marker("000001.SZ", 20250301, &reader, &reader, &reader, 0, needs).is_none());

    let ext_before = financial_ext_snapshot_marker("000001.SZ", 20250430, &reader, &reader, &reader)
        .expect("marker");
    let ext_after = financial_ext_snapshot_marker("000001.SZ", 20250521, &reader, &reader, &reader)
        .expect("marker");
    assert!(!ext_before.same_as(&ext_after));

    let metric_before = financial_metric_marker("000001.SZ", 20250430, &reader, &reader, 7)
        .expect("marker");
    let metric_other_dividend = financial_metric_marker("000001.SZ", 20250430, &reader, &reader, 8)
        .expect("marker");
    assert!(!metric_before.same_as(&metric_other_dividend));
    assert!(financial_metric_marker("000001.SZ", 20250301, &reader, &reader, 7).is_none());
}
