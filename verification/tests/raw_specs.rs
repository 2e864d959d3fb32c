use factor_engine::catalog::IntradayRawMaterializeMode;
use factor_engine::dbzq_5min_risk::{
    idiosyncratic_raw_specs, ordinary_raw_specs, raw_ids_for_family, DbzqRawFamily,
};
use factor_engine::dbzq_volume_distribution::{
    raw_specs_for_kind, DbzqIntradayVolumeDistributionKind, SIG_UP_P_V_RATIO_RAW_ID,
    V_P_SKEWNESS_RAW_ID,
};
use factor_engine::financial_similarity::{link_new_raw_spec, LINK_NEW_RAW_ID};
use factor_engine::gfzq_salience::intraday_raw_materialize_mode;
use factor_engine::hazq_comparable::HazqComparableComponent;
use factor_engine::raw_ids::{ID_RV_5MIN_RAW_ID, RV_5MIN_RAW_ID};

#[test]
fn risk_raw_specs_follow_their_family_ids() {
    let ordinary = ordinary_raw_specs();
    let ordinary_ids = raw_ids_for_family(DbzqRawFamily::Ordinary);
    assert_eq!(ordinary.len(), 9);
    assert_eq!(
        ordinary.iter().map(|s| s.id.as_str()).collect::<Vec<_>>(),
        ordinary_ids
    );
    assert_eq!(ordinary_ids[0], RV_5MIN_RAW_ID);

    let idiosyncratic = idiosyncratic_raw_specs();
    let idiosyncratic_ids = raw_ids_for_family(DbzqRawFamily::Idiosyncratic);
    assert_eq!(idiosyncratic.len(), 9);
    assert_eq!(
        idiosyncratic.iter().map(|s| s.id.as_str()).collect::<Vec<_>>(),
        idiosyncratic_ids
    );
    assert_eq!(idiosyncratic_ids[0], ID_RV_5MIN_RAW_ID);
}

#[test]
fn volume_distribution_raw_specs_per_kind() {
    let volume_price = raw_specs_for_kind(DbzqIntradayVolumeDistributionKind::VolumePrice);
    assert_eq!(volume_price.len(), 2);
    assert_eq!(volume_price[0].id, V_P_SKEWNESS_RAW_ID);
    let up = raw_specs_for_kind(DbzqIntradayVolumeDistributionKind::SignificantUpVolumeReturn);
    assert_eq!(up.len(), 2);
    assert_eq!(up[0].id, SIG_UP_P_V_RATIO_RAW_ID);
}

#[test]
fn salience_raw_series_are_stateful() {
    assert_eq!(intraday_raw_materialize_mode(), IntradayRawMaterializeMode::Stateful);
}

#[test]
fn link_new_raw_spec_is_internal() {
    let spec = link_new_raw_spec();
    assert_eq!(spec.id, LINK_NEW_RAW_ID);
    assert_eq!(spec.name, LINK_NEW_RAW_ID);
    assert_eq!(spec.tags, vec!["internal".to_string(), "financial_raw".to_string()]);
    assert!(spec.aliases.is_empty());
}

#[test]
fn only_the_rolling_components_are_time_zscores() {
    assert!(HazqComparableComponent::DstZscore.is_time_zscore());
    assert!(HazqComparableComponent::PrmZscore.is_time_zscore());
    assert!(!HazqComparableComponent::Dst.is_time_zscore());
    assert!(!HazqComparableComponent::Med.is_time_zscore());
}
