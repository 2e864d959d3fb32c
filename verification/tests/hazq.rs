use std::collections::{BTreeMap, BTreeSet};
use std::sync::Arc;

use factor_engine::catalog::DatasetId;
use factor_engine::financial_pit::{FinancialPitIndex, ReportTypePreference};
use factor_engine::hazq_comparable::{
    all_outputs, dependencies_for_output, hazq_snapshot_marker, non_bj_panel, requested_outputs,
    source_key, spec, ComparableRequestPlan, HazqComparableBase, HazqComparableComponent,
    HazqComparableValueOutput, CONSENSUS_GROWTH_COLUMN, CONSENSUS_PE_ROLL_COLUMN,
    FINANCIAL_QUARTERS, PE_TTM_COLUMN, TOTAL_MV_COLUMN,
};
use factor_engine::hazq_equity::{
    dependencies as equity_dependencies, equity_composition_marker, needs_from_requested,
    spec as equity_spec, HazqEquityCompositionOutput, BALANCE_QUARTERS, CCP_ID, REP_ID,
    TOTAL_MV_COLUMN as EQUITY_TOTAL_MV_COLUMN,
};
use factor_engine::panel::DailyPanel;
use factor_engine::table::{ColumnData, Table};

/// Rows of (end date, disclosure date, report type, update flag) of one stock.
fn financial_table(rows: &[(i32, i32, i64, i64)]) -> Table {
    Table::new(vec![
        (
            "ts_code".to_string(),
            ColumnData::Utf8(rows.iter().map(|_| Some("000001.SZ".to_string())).collect()),
        ),
        (
            "ann_date".to_string(),
            ColumnData::I32(rows.iter().map(|row| Some(row.1)).collect()),
        ),
        (
            "f_ann_date".to_string(),
            ColumnData::I32(rows.iter().map(|row| Some(row.1)).collect()),
        ),
        (
            "end_date".to_string(),
            ColumnData::I32(rows.iter().map(|row| Some(row.0)).collect()),
        ),
        (
            "report_type".to_string(),
            ColumnData::I64(rows.iter().map(|row| Some(row.2)).collect()),
        ),
        (
            "update_flag".to_string(),
            ColumnData::I64(rows.iter().map(|row| Some(row.3)).collect()),
        ),
    ])
    .expect("valid table")
}

#[test]
fn hazq_comparable_registers_117_outputs_with_required_tags() {
    let outputs = all_outputs();
    assert_eq!(outputs.len(), 117);
    for id in [
        "comp_ep_med",
        "comp_bp_prm_zscore",
        "comp_ep_gap_avg",
        "comp_bp_gap_mmm",
        "comp_ep_fttm_med",
        "comp_ep_fttm_gap_mmm",
    ] {
        assert!(
            outputs.iter().any(|output| output.id() == id),
            "missing {id}"
        );
    }

    let spec = spec(HazqComparableValueOutput::new(
        HazqComparableBase::Ep,
        HazqComparableComponent::Med,
    ));
    for tag in ["HAZQ", "cs_network", "fundamental"] {
        assert!(spec.tags.contains(&tag.to_string()));
    }
    assert!(!spec
        .dependencies
        .iter()
        .any(|request| request.dataset == DatasetId::StockDailyPv));
    assert!(!spec
        .dependencies
        .iter()
        .any(|request| request.dataset == DatasetId::StockConsensus));
    assert!(spec
        .dependencies
        .iter()
        .any(|request| request.dataset == DatasetId::StockDailyBasic));
}

#[test]
fn hazq_comparable_outputs_are_base_major_and_distinct() {
    let outputs = all_outputs();
    let ids = outputs.iter().map(|output| output.id()).collect::<BTreeSet<_>>();
    assert_eq!(ids.len(), 117);
    assert_eq!(outputs[0].id(), "comp_bp_med");
    assert_eq!(outputs[12].id(), "comp_bp_gap_mmm");
    assert_eq!(outputs[13].id(), "comp_dp_med");
    assert_eq!(outputs[116].id(), "comp_ep_fttm_gap_mmm");
    for (position, output) in outputs.iter().enumerate() {
        assert_eq!(source_key(output.base, output.component), position);
    }
}

#[test]
fn hazq_comparable_spec_aliases_and_description_name_the_pair() {
    let spec = spec(HazqComparableValueOutput::new(
        HazqComparableBase::EpQ,
        HazqComparableComponent::DstZscore,
    ));
    assert_eq!(spec.id, "comp_ep_q_dst_zscore");
    assert_eq!(spec.name, "comp_ep_q_dst_zscore");
    assert_eq!(
        spec.aliases,
        vec![
            "HAZQ Comparable EP_Q DST_ZSCORE".to_string(),
            "EP_Q_DST_ZSCORE".to_string()
        ]
    );
    assert!(spec
        .description
        .starts_with("HAZQ comparable-company value factor EP_Q DST_ZSCORE. "));
    assert_eq!(spec.lookback.trading_days, 252);
    assert_eq!(spec.tags.len(), 10);
}

#[test]
fn hazq_comparable_non_bj_panel_removes_bj_rows() {
    let panel = DailyPanel::from_index(
        vec![20260105],
        vec![
            "000001.SZ".to_string(),
            "920001.BJ".to_string(),
            "600000.SH".to_string(),
        ],
        &[20260105],
        vec![true, true, true],
    )
    .unwrap();

    let filtered = non_bj_panel(&panel).unwrap();

    assert_eq!(
        filtered.instruments(),
        &["000001.SZ".to_string(), "600000.SH".to_string()]
    );
    assert_eq!(filtered.shape_len(), 2);
    assert!(filtered.is_present_offset(0));
    assert!(filtered.is_present_offset(1));
}

#[test]
fn hazq_comparable_non_bj_panel_carries_presence_and_targets() {
    let panel = DailyPanel::from_index(
        vec![20260105, 20260106],
        vec![
            "920001.BJ".to_string(),
            "000001.SZ".to_string(),
            "600000.SH".to_string(),
        ],
        &[20260106],
        vec![true, false, true, true, true, false],
    )
    .unwrap();

    let filtered = non_bj_panel(&panel).unwrap();

    assert_eq!(filtered.dates(), &[20260105, 20260106]);
    assert_eq!(filtered.shape_len(), 4);
    assert!(!filtered.is_present_offset(0));
    assert!(filtered.is_present_offset(1));
    assert!(filtered.is_present_offset(2));
    assert!(!filtered.is_present_offset(3));
    assert!(!filtered.is_target_date(20260105));
    assert!(filtered.is_target_date(20260106));
}

#[test]
fn hazq_comparable_requested_outputs_preserve_known_ids() {
    let requested = vec![
        "comp_ep_med".to_string(),
        "comp_bp_prm_zscore".to_string(),
        "unknown".to_string(),
    ];
    let outputs = requested_outputs(&requested);
    let ids = outputs
        .iter()
        .map(|output| output.id())
        .collect::<BTreeSet<_>>();

    assert_eq!(ids.len(), 2);
    assert!(ids.contains("comp_ep_med"));
    assert!(ids.contains("comp_bp_prm_zscore"));
}

#[test]
fn hazq_comparable_request_plan_maps_outputs_to_needed_bases_and_sources() {
    let plan = ComparableRequestPlan::from_requested_ids(&["comp_ep_med".to_string()]);
    assert_eq!(plan.requested_bases(), vec![HazqComparableBase::Ep]);
    assert!(plan.needs_source_component(HazqComparableBase::Ep, HazqComparableComponent::Med));
    assert!(!plan.needs_source_component(HazqComparableBase::Ep, HazqComparableComponent::Avg));
    assert!(!plan.needs_source_component(HazqComparableBase::Bp, HazqComparableComponent::Med));

    let plan = ComparableRequestPlan::from_requested_ids(&["comp_ep_prm_zscore".to_string()]);
    assert_eq!(plan.requested_bases(), vec![HazqComparableBase::Ep]);
    assert!(plan.needs_source_component(HazqComparableBase::Ep, HazqComparableComponent::Prm));
    assert!(!plan
        .needs_source_component(HazqComparableBase::Ep, HazqComparableComponent::PrmZscore));

    let plan =
        ComparableRequestPlan::from_requested_ids(&["comp_ep_percentile_med".to_string()]);
    assert_eq!(
        plan.requested_bases(),
        vec![HazqComparableBase::EpPercentile]
    );
    assert!(plan.needs_ep_intermediate());
    assert!(plan.needs_source_component(
        HazqComparableBase::EpPercentile,
        HazqComparableComponent::Med
    ));

    let plan = ComparableRequestPlan::from_requested_ids(&["comp_ep_gap_avg".to_string()]);
    assert_eq!(plan.requested_bases(), vec![HazqComparableBase::Ep]);
    assert!(plan.needs_consensus_growth());
    assert!(!plan.needs_consensus_pe_roll());
    assert!(
        plan.needs_source_component(HazqComparableBase::Ep, HazqComparableComponent::GapAvg)
    );

    let plan = ComparableRequestPlan::from_requested_ids(&["comp_ep_fttm_med".to_string()]);
    assert_eq!(plan.requested_bases(), vec![HazqComparableBase::EpFttm]);
    assert!(!plan.needs_consensus_growth());
    assert!(plan.needs_consensus_pe_roll());

    let plan = ComparableRequestPlan::from_requested_ids(&[
        "comp_ep_med".to_string(),
        "comp_ep_percentile_avg".to_string(),
    ]);
    assert_eq!(
        plan.requested_bases(),
        vec![HazqComparableBase::Ep, HazqComparableBase::EpPercentile]
    );
    assert!(plan.needs_ep_intermediate());
}

#[test]
fn hazq_comparable_empty_request_plan_needs_nothing() {
    let plan = ComparableRequestPlan::from_requested_ids(&["unknown".to_string()]);
    assert!(plan.is_empty());
    assert!(plan.requested_bases().is_empty());
    assert!(!plan.needs_ep_intermediate());
    assert!(!plan.needs_consensus_growth());
    assert!(!ComparableRequestPlan::from_requested_ids(&["comp_bp_med".to_string()]).is_empty());
}

#[test]
fn hazq_comparable_dependencies_include_all_financial_lines_and_requested_consensus() {
    let ep_output =
        HazqComparableValueOutput::new(HazqComparableBase::Ep, HazqComparableComponent::Med);
    let dp_output =
        HazqComparableValueOutput::new(HazqComparableBase::Dp, HazqComparableComponent::Med);
    let gap_output =
        HazqComparableValueOutput::new(HazqComparableBase::Ep, HazqComparableComponent::GapAvg);
    let fttm_output = HazqComparableValueOutput::new(
        HazqComparableBase::EpFttm,
        HazqComparableComponent::Med,
    );
    let fttm_gap_output = HazqComparableValueOutput::new(
        HazqComparableBase::EpFttm,
        HazqComparableComponent::GapMmm,
    );
    let ep_dependencies = dependencies_for_output(ep_output);
    let dp_dependencies = dependencies_for_output(dp_output);
    let gap_dependencies = dependencies_for_output(gap_output);
    let fttm_dependencies = dependencies_for_output(fttm_output);
    let fttm_gap_dependencies = dependencies_for_output(fttm_gap_output);

    assert!(!ep_dependencies
        .iter()
        .any(|request| request.dataset == DatasetId::StockDividend));
    assert!(!ep_dependencies
        .iter()
        .any(|request| request.dataset == DatasetId::StockConsensus));
    assert!(ep_dependencies.iter().any(|request| {
        request.dataset == DatasetId::StockDailyBasic
            && request.columns.contains(&TOTAL_MV_COLUMN.to_string())
            && request.columns.contains(&PE_TTM_COLUMN.to_string())
    }));
    assert!(dp_dependencies.iter().any(|request| {
        request.dataset == DatasetId::StockDailyBasic
            && request.columns.contains(&TOTAL_MV_COLUMN.to_string())
            && !request.columns.contains(&PE_TTM_COLUMN.to_string())
    }));
    assert!(dp_dependencies
        .iter()
        .any(|request| request.dataset == DatasetId::StockDividend));
    assert!(gap_dependencies.iter().any(|request| {
        request.dataset == DatasetId::StockConsensus
            && request
                .columns
                .contains(&CONSENSUS_GROWTH_COLUMN.to_string())
    }));
    assert!(fttm_dependencies.iter().any(|request| {
        request.dataset == DatasetId::StockConsensus
            && request
                .columns
                .contains(&CONSENSUS_PE_ROLL_COLUMN.to_string())
    }));
    assert!(fttm_gap_dependencies.iter().any(|request| {
        request.dataset == DatasetId::StockConsensus
            && request
                .columns
                .contains(&CONSENSUS_GROWTH_COLUMN.to_string())
            && request
                .columns
                .contains(&CONSENSUS_PE_ROLL_COLUMN.to_string())
    }));

    let deps = ep_dependencies
        .into_iter()
        .map(|request| (request.dataset, request.financial_quarters))
        .collect::<BTreeMap<_, _>>();

    assert_eq!(
        deps.get(&DatasetId::StockIncome),
        Some(&Some(FINANCIAL_QUARTERS))
    );
    assert_eq!(
        deps.get(&DatasetId::StockBalanceSheet),
        Some(&Some(FINANCIAL_QUARTERS))
    );
    assert_eq!(
        deps.get(&DatasetId::StockCashFlow),
        Some(&Some(FINANCIAL_QUARTERS))
    );
}

#[test]
fn hazq_snapshot_marker_follows_the_latest_income_quarter() {
    let table = financial_table(&[
        (20241231, 20250331, 1, 0),
        (20250331, 20250428, 1, 0),
    ]);
    let index = FinancialPitIndex::from_table(Arc::new(table)).expect("index");
    let reader = index.reader(ReportTypePreference::consolidated());
    assert!(hazq_snapshot_marker("000001.SZ", 20250301, &reader, &reader, &reader).is_none());
    let before = hazq_snapshot_marker("000001.SZ", 20250401, &reader, &reader, &reader)
        .expect("marker");
    let after = hazq_snapshot_marker("000001.SZ", 20250430, &reader, &reader, &reader)
        .expect("marker");
    assert!(!before.same_as(&after));
}

#[test]
fn specs_have_hazq_tags_and_no_pv_dependency() {
    for output in [
        HazqEquityCompositionOutput::Rep,
        HazqEquityCompositionOutput::Ccp,
    ] {
        let spec = equity_spec(output);
        assert!(spec.tags.contains(&"HAZQ".to_string()));
        assert!(!spec
            .dependencies
            .iter()
            .any(|request| request.dataset == DatasetId::StockDailyPv));
        assert!(spec.dependencies.iter().any(|request| {
            request.dataset == DatasetId::StockDailyBasic
                && request.columns == vec![EQUITY_TOTAL_MV_COLUMN.to_string()]
        }));
        assert!(spec.dependencies.iter().any(|request| {
            request.dataset == DatasetId::StockBalanceSheet
                && request.financial_quarters == Some(BALANCE_QUARTERS)
        }));
    }
    assert!(equity_spec(HazqEquityCompositionOutput::Rep)
        .aliases
        .contains(&"REP".to_string()));
    assert!(equity_spec(HazqEquityCompositionOutput::Ccp)
        .aliases
        .contains(&"CCP".to_string()));
}

#[test]
fn hazq_equity_needs_and_balance_columns_follow_the_output() {
    let needs = needs_from_requested(&[CCP_ID.to_string()]);
    assert!(needs.ccp);
    assert!(!needs.rep);
    assert!(needs_from_requested(&[REP_ID.to_string()]).rep);
    let rep = equity_dependencies(HazqEquityCompositionOutput::Rep);
    assert_eq!(
        rep[0].columns,
        vec!["undistr_porfit".to_string(), "surplus_rese".to_string()]
    );
    let ccp = equity_dependencies(HazqEquityCompositionOutput::Ccp);
    assert_eq!(ccp[0].columns.len(), 3);
    assert_eq!(ccp.len(), 4);
}

#[test]
fn equity_composition_marker_tracks_the_latest_balance_sheet_version() {
    let table = financial_table(&[
        (20250331, 20250428, 1, 0),
        (20250331, 20250520, 1, 1),
    ]);
    let index = FinancialPitIndex::from_table(Arc::new(table)).expect("index");
    let balance = index.reader(ReportTypePreference::balance_sheet_consolidated());
    assert!(equity_composition_marker("000001.SZ", 20250401, &balance).is_none());
    let first = equity_composition_marker("000001.SZ", 20250430, &balance).expect("marker");
    let again = equity_composition_marker("000001.SZ", 20250519, &balance).expect("marker");
    let revised = equity_composition_marker("000001.SZ", 20250521, &balance).expect("marker");
    assert!(first.same_as(&again));
    assert!(!first.same_as(&revised));
}
