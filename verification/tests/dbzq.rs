use factor_engine::catalog::{AssetClass, DatasetId, FactorContext, Frequency, RequestedRawIds};
use factor_engine::dbzq_5min_risk::{
    all_raw_ids, anchor_seconds, factor_spec, is_deprecated_factor_id, ordinary_raw_ids, seconds,
    DbzqFactorDef, DbzqPostProcess, DbzqRawFamily, RiskStatsRequest,
};
use factor_engine::dbzq_financial_efficiency::{
    needs_from_requested as efficiency_needs, raw_specs as efficiency_raw_specs,
    spec as efficiency_spec, FinancialEfficiencyOutput, CFO_EFFICIENCY_ID, ROE_EFFICIENCY_ID,
    ROE_RAW_ID,
};
use factor_engine::dbzq_profit_skew::{
    needs_from_requested as skew_needs, spec as skew_spec, ProfitSkewOutput,
    DAILY_LOOKBACK as SKEW_DAILY_LOOKBACK, OP_MARGIN_TTM_SKEW_ID, POP_SKEW_ID, TOTAL_MV_COLUMN,
};
use factor_engine::dbzq_roic_wacc::{
    fixed_checkpoint_after_until, requirements_for_context, should_recompute,
    spec as roic_spec, RoicWaccOutput, DAILY_LOOKBACK as ROIC_DAILY_LOOKBACK,
};
use factor_engine::dbzq_volume_distribution::{
    factor_spec as volume_factor_spec, minute_index, DbzqIntradayVolumeDistributionFactorDef,
    DbzqIntradayVolumeDistributionKind,
};
use factor_engine::raw_ids::{VAR90_5MIN_RAW_ID, VAR95_5MIN_RAW_ID};
use factor_engine::dbzq_roic_wacc::quarter_ends_after_until;
use factor_engine::dbzq_roic_wacc::{requested_specs, RoicWaccNeeds};
use factor_engine::dbzq_roic_wacc::{needed_quarter_end_dates, required_end_dates};
use factor_engine::panel::DailyPanel;

#[test]
fn dbzq_anchor_seconds_generate_forty_eight_returns_with_0930_anchor() {
    let anchors = anchor_seconds();

    assert_eq!(anchors.len(), 49);
    assert_eq!(anchors[0], seconds(9, 30));
    assert_eq!(anchors[1], seconds(9, 35));
    assert_eq!(anchors[24], seconds(11, 30));
    assert_eq!(anchors[25], seconds(13, 5));
    assert_eq!(anchors[48], seconds(15, 0));
}

#[test]
fn dbzq_seconds_counts_from_midnight() {
    assert_eq!(seconds(9, 30), 34_200);
    assert_eq!(seconds(15, 0), 54_000);
}

#[test]
fn dbzq_request_mask_maps_only_requested_family_raw_ids() {
    let raw_ids = vec![VAR95_5MIN_RAW_ID.to_string()];
    let requested = RequestedRawIds::new(&raw_ids, &ordinary_raw_ids());
    let mask = RiskStatsRequest::from_requested(&requested, DbzqRawFamily::Ordinary);

    assert!(mask.var95);
    assert!(!mask.var90);
    assert!(!mask.cvar90);
    assert!(!mask.rv);
}

#[test]
fn dbzq_request_mask_ignores_other_family() {
    let raw_ids = vec![VAR95_5MIN_RAW_ID.to_string()];
    let requested = RequestedRawIds::new(&raw_ids, &ordinary_raw_ids());
    let mask = RiskStatsRequest::from_requested(&requested, DbzqRawFamily::Idiosyncratic);

    assert!(!mask.var95);
    assert!(!mask.rv);
}

#[test]
fn dbzq_all_raw_ids_hold_both_families() {
    assert_eq!(all_raw_ids().len(), 18);
    assert!(all_raw_ids().contains(&VAR90_5MIN_RAW_ID));
}

#[test]
fn dbzq_factor_spec_marks_only_90_parameter_variants_deprecated() {
    let deprecated = factor_spec(DbzqFactorDef {
        id: "var90_week",
        alias: "VaR90_week",
        name: "VaR90 Week",
        raw_id: VAR90_5MIN_RAW_ID,
        postprocess: DbzqPostProcess::WeekMean,
    });
    let retained = factor_spec(DbzqFactorDef {
        id: "var95_week",
        alias: "VaR95_week",
        name: "VaR95 Week",
        raw_id: VAR95_5MIN_RAW_ID,
        postprocess: DbzqPostProcess::WeekMean,
    });

    assert!(deprecated.tags.iter().any(|tag| tag == "deprecated"));
    assert!(!retained.tags.iter().any(|tag| tag == "deprecated"));
}

#[test]
fn dbzq_deprecated_ids_are_the_90_variants() {
    assert!(is_deprecated_factor_id("var90_week"));
    assert!(!is_deprecated_factor_id("var95_week"));
}

#[test]
fn dbzq_volume_distribution_minute_index_maps_stock_sessions() {
    assert_eq!(minute_index("09:31:00"), Some(0));
    assert_eq!(minute_index("09:35:00"), Some(4));
    assert_eq!(minute_index("11:30:00"), Some(119));
    assert_eq!(minute_index("13:01:00"), Some(120));
    assert_eq!(minute_index("15:00:00"), Some(239));
    assert_eq!(minute_index("09:30:00"), None);
}

#[test]
fn dbzq_volume_distribution_minute_index_rejects_lunch_and_garbage() {
    assert_eq!(minute_index("12:00:00"), None);
    assert_eq!(minute_index("15:01:00"), None);
    assert_eq!(minute_index("not a time"), None);
}

#[test]
fn dbzq_volume_distribution_factor_spec_has_dbzq_tag() {
    let spec = volume_factor_spec(DbzqIntradayVolumeDistributionFactorDef {
        id: "volume_price_distribution",
        alias: "volume_price_distribution",
        name: "Volume Price Distribution",
        kind: DbzqIntradayVolumeDistributionKind::VolumePrice,
    });

    assert!(spec.tags.iter().any(|tag| tag == "DBZQ"));
    assert!(spec
        .description
        .contains("does not depend on derived 5-minute parquet bars"));
}

#[test]
fn specs_have_dbzq_tags() {
    for output in [
        FinancialEfficiencyOutput::RoeEfficiency,
        FinancialEfficiencyOutput::CfoEfficiency,
    ] {
        let spec = efficiency_spec(output);
        assert!(spec.tags.contains(&"DBZQ".to_string()));
        assert!(spec.tags.contains(&"financial".to_string()));
        assert!(spec.tags.contains(&"efficiency".to_string()));
    }
}

#[test]
fn dbzq_financial_efficiency_requested_outputs_are_requested_aware() {
    let requested = vec![ROE_EFFICIENCY_ID.to_string()];
    let needs = efficiency_needs(&requested);
    assert!(needs.roe);
    assert!(!needs.cfo);
    let specs = efficiency_raw_specs(needs);
    assert_eq!(specs.len(), 1);
    assert_eq!(specs[0].id, ROE_RAW_ID);
}

#[test]
fn dbzq_financial_efficiency_both_outputs_need_both_raw_series() {
    let requested = vec![CFO_EFFICIENCY_ID.to_string(), ROE_EFFICIENCY_ID.to_string()];
    let needs = efficiency_needs(&requested);
    assert!(needs.roe && needs.cfo);
    assert_eq!(efficiency_raw_specs(needs).len(), 2);
}

#[test]
fn dbzq_profit_skew_requested_outputs_are_requested_aware() {
    let requested = vec![OP_MARGIN_TTM_SKEW_ID.to_string()];
    let needs = skew_needs(&requested);
    assert!(needs.op_margin);
    assert!(!needs.pop);
}

#[test]
fn dbzq_profit_skew_unknown_ids_need_nothing() {
    let requested = vec!["unknown".to_string()];
    let needs = skew_needs(&requested);
    assert!(!needs.op_margin);
    assert!(!needs.pop);
    assert!(skew_needs(&[POP_SKEW_ID.to_string()]).pop);
}

#[test]
fn specs_have_dbzq_tags_and_pop_uses_daily_basic() {
    let op = skew_spec(ProfitSkewOutput::OpMarginTtmSkew);
    let pop = skew_spec(ProfitSkewOutput::PopSkew);
    for spec in [&op, &pop] {
        assert!(spec.tags.contains(&"DBZQ".to_string()));
        assert!(spec.tags.contains(&"financial".to_string()));
    }
    assert_eq!(op.lookback.trading_days, 0);
    assert_eq!(pop.lookback.trading_days, SKEW_DAILY_LOOKBACK);
    assert!(!op
        .dependencies
        .iter()
        .any(|request| request.dataset == DatasetId::StockDailyBasic));
    assert!(pop.dependencies.iter().any(|request| {
        request.dataset == DatasetId::StockDailyBasic
            && request
                .columns
                .iter()
                .any(|column| column == TOTAL_MV_COLUMN)
    }));
}

#[test]
fn fixed_checkpoint_schedule_maps_to_next_trading_target() {
    assert!(fixed_checkpoint_after_until(Some(20260429), 20260506));
    assert!(!fixed_checkpoint_after_until(Some(20260506), 20260507));
    assert!(should_recompute(None, 20260105));
}

#[test]
fn fixed_checkpoints_fall_on_quarter_disclosure_deadlines() {
    assert!(fixed_checkpoint_after_until(Some(20260101), 20260430));
    assert!(!should_recompute(Some(20260102), 20260105));
}

#[test]
fn specs_have_required_tags_and_dependencies() {
    let spec = roic_spec(RoicWaccOutput::UnexpectedRoicWacc);
    assert!(spec.tags.contains(&"DBZQ".to_string()));
    assert!(spec.tags.contains(&"wacc".to_string()));
    assert_eq!(spec.lookback.trading_days, ROIC_DAILY_LOOKBACK);
    assert!(spec
        .dependencies
        .iter()
        .any(|request| request.dataset == DatasetId::StockIncome));
}

#[test]
fn context_requirements_pass_explicit_dates() {
    let context = FactorContext {
        asset_class: AssetClass::Stock,
        frequency: Frequency::Daily,
        start_date: 20260115,
        end_date: 20260116,
        load_start_date: 20260102,
        load_dates: vec![
            20260102, 20260105, 20260106, 20260107, 20260108, 20260109, 20260112, 20260113,
            20260114, 20260115, 20260116,
        ],
        target_dates: vec![20260115, 20260116],
    };

    let requests = requirements_for_context(&context);
    let pv = requests
        .iter()
        .find(|request| request.dataset == DatasetId::StockDailyPv)
        .expect("pv request");

    assert_eq!(
        pv.resolved_dates(&context),
        vec![20260102, 20260109, 20260115, 20260116]
    );
}

#[test]
fn roic_quarter_ends_after_until_lists_the_new_quarters_oldest_first() {
    assert_eq!(
        quarter_ends_after_until(20240630, 20250331),
        vec![20240930, 20241231, 20250331]
    );
    assert_eq!(quarter_ends_after_until(20250331, 20250331), Vec::<i32>::new());
    // Far in the past: the whole window of twenty-one quarters.
    let all = quarter_ends_after_until(19000101, 20250331);
    assert_eq!(all.len(), 21);
    assert_eq!(all.first(), Some(&20200331));
    assert_eq!(all.last(), Some(&20250331));
}

#[test]
fn roic_requested_specs_follow_the_needs() {
    let both = requested_specs(RoicWaccNeeds { unexpected: true, state_growth: true });
    assert_eq!(both.len(), 2);
    assert_eq!(both[0].id, roic_spec(RoicWaccOutput::UnexpectedRoicWacc).id);
    assert_eq!(both[1].id, roic_spec(RoicWaccOutput::StateGrowth).id);
    let only_growth = requested_specs(RoicWaccNeeds { unexpected: false, state_growth: true });
    assert_eq!(only_growth.len(), 1);
    assert_eq!(only_growth[0].id, roic_spec(RoicWaccOutput::StateGrowth).id);
    assert!(requested_specs(RoicWaccNeeds { unexpected: false, state_growth: false }).is_empty());
}

#[test]
fn roic_needed_quarter_ends_follow_the_kept_history() {
    assert_eq!(
        needed_quarter_end_dates(Some(20240930), 20250331),
        vec![20241231, 20250331]
    );
    let fresh = needed_quarter_end_dates(None, 20250331);
    assert_eq!(fresh.len(), 13);
    assert_eq!(fresh.first(), Some(&20220331));
    assert_eq!(fresh.last(), Some(&20250331));
    assert!(needed_quarter_end_dates(Some(20250331), 20250331).is_empty());
}

#[test]
fn roic_required_end_dates_group_present_non_bj_stocks() {
    let panel = DailyPanel::from_index(
        vec![20250430, 20250506],
        vec![
            "000001.SZ".to_string(),
            "000002.SZ".to_string(),
            "430001.BJ".to_string(),
            "000003.SZ".to_string(),
        ],
        &[20250430, 20250506],
        vec![true, true, true, false, true, true, true, true],
    )
    .expect("panel");
    let latest = vec![Some(20250331), Some(20250331), Some(20250331), Some(20250331)];
    let kept = vec![Some(20241231), Some(20240930), None, None];
    let groups = required_end_dates(&panel, 0, &latest, &kept);
    assert_eq!(groups, vec![(20241231, vec![1]), (20250331, vec![0, 1])]);

    let none_latest = vec![None, None, None, None];
    assert!(required_end_dates(&panel, 1, &none_latest, &kept).is_empty());
}
