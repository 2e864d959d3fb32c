//! GFZQ high-frequency residual standard deviation: its raw realized-moment
//! series, published definition, and the minutes it samples.
use vstd::prelude::*;
use crate::catalog::{
    AssetClass,
    DataRequest,
    DatasetId,
    FactorSpec,
    FactorSpecView,
    Frequency,
    IntradayDailyRawSpec,
    IntradayDailyRawSpecView,
    Lookback,
    owned_strings,
    plain_request,
    raw_requests,
    raw_requests_for,
    stock_minute_raw_spec,
    stock_minute_raw_view,
    strings_view,
    strs_view,
};
use crate::raw_ids::{HF_RDKURT_RAW_ID, HF_RDSKEW_RAW_ID, HF_RDVOL_RAW_ID};

verus! {

/// Version of the factor.
pub const VERSION: &'static str = "0.1.0";
/// Version of the raw series.
pub const RAW_VERSION: &'static str = "0.1.0";
/// Key of the minute provider of these raw series.
pub const PROVIDER_KEY: &'static str = "gfzq_hf_resid_stats_provider";
/// Trading days of the time-series regression.
pub const REGRESSION_WINDOW: usize = 20;
/// Trading days of raw history the factor reads.
pub const RAW_DAILY_LOOKBACK: usize = 20;
/// Fewest observations the regression needs.
pub const MIN_OBS: usize = 5;
/// Days of minute bars each raw value reads.
pub const RAW_WINDOW_DAYS: usize = 1;

/// The definition of the factor.
#[derive(Clone, Copy, Debug)]
pub struct GfzqHfResidStdFactorDef {
    pub id: &'static str,
    pub alias: &'static str,
    pub name: &'static str,
}

/// The factor's definition.
pub open spec fn spec_def() -> GfzqHfResidStdFactorDef {
    GfzqHfResidStdFactorDef {
        id: "hf_resid_std",
        alias: "HighFreqResidualStd",
        name: "High Frequency Residual Std",
    }
}

/// The factor's definition.
pub fn def() -> (r: GfzqHfResidStdFactorDef)
    ensures
        r == spec_def(),
{
    GfzqHfResidStdFactorDef {
        id: "hf_resid_std",
        alias: "HighFreqResidualStd",
        name: "High Frequency Residual Std",
    }
}

/// Every raw id, in order.
pub open spec fn hf_ids() -> Seq<Seq<char>> {
    seq![HF_RDVOL_RAW_ID@, HF_RDSKEW_RAW_ID@, HF_RDKURT_RAW_ID@]
}

/// Every raw id.
pub fn all_raw_ids() -> (r: [&'static str; 3])
    ensures
        strs_view(r@) == hf_ids(),
{
    let r = [HF_RDVOL_RAW_ID, HF_RDSKEW_RAW_ID, HF_RDKURT_RAW_ID];
    assert(strs_view(r@) =~= hf_ids());
    r
}

/// The raw specification of `raw_id`: stock 1-minute closes, one day.
pub open spec fn hf_raw_view(raw_id: Seq<char>) -> IntradayDailyRawSpecView {
    stock_minute_raw_view(raw_id, RAW_VERSION@, seq!["close"@], RAW_WINDOW_DAYS)
}

/// The raw specification of `raw_id`.
pub fn raw_spec(raw_id: &str) -> (r: IntradayDailyRawSpec)
    ensures
        r@ == hf_raw_view(raw_id@),
{
    let columns: [&str; 1] = ["close"];
    let r = stock_minute_raw_spec(raw_id, RAW_VERSION, &columns, RAW_WINDOW_DAYS);
    assert(strs_view(columns@) =~= seq!["close"@]);
    r
}

/// The raw specifications of every series.
pub fn raw_specs() -> (r: Vec<IntradayDailyRawSpec>)
    ensures
        r@.map_values(|s: IntradayDailyRawSpec| s@) == hf_ids().map_values(|id: Seq<char>| hf_raw_view(id)),
{
    let ids = all_raw_ids();
    let mut out: Vec<IntradayDailyRawSpec> = Vec::new();
    out.push(raw_spec(ids[0]));
    out.push(raw_spec(ids[1]));
    out.push(raw_spec(ids[2]));
    assert(out@.map_values(|s: IntradayDailyRawSpec| s@) =~= hf_ids().map_values(
        |id: Seq<char>| hf_raw_view(id),
    ));
    out
}

/// The tags of the factor.
pub open spec fn hf_tags() -> Seq<Seq<char>> {
    seq![
        "GFZQ"@,
        "price_volume"@,
        "intraday"@,
        "realized_moments"@,
        "residual_volatility"@,
        "regression"@,
        "daily"@,
    ]
}

/// The tags of the factor.
pub fn tags() -> (r: Vec<String>)
    ensures
        strings_view(r@) == hf_tags(),
{
    let items: [&str; 7] = [
        "GFZQ",
        "price_volume",
        "intraday",
        "realized_moments",
        "residual_volatility",
        "regression",
        "daily",
    ];
    assert(strs_view(items@) =~= hf_tags());
    owned_strings(&items)
}

/// The published definition of the factor.
pub open spec fn hf_factor_view() -> FactorSpecView {
    FactorSpecView {
        id: spec_def().id@,
        aliases: seq![spec_def().alias@],
        name: spec_def().name@,
        asset_class: AssetClass::Stock,
        frequency: Frequency::Daily,
        version: VERSION@,
        tags: hf_tags(),
        description: "GFZQ high-frequency residual standard deviation factor from 1-minute realized volatility, skewness, and kurtosis changes in a 20-day time-series regression."@,
        dependencies: seq![plain_request(DatasetId::StockDailyPv, seq!["close"@, "pre_close"@])],
        intraday_raw_dependencies: raw_requests(hf_ids(), RAW_DAILY_LOOKBACK),
        lookback: REGRESSION_WINDOW,
    }
}

/// The published definition of the factor.
pub fn factor_spec() -> (r: FactorSpec)
    ensures
        r@ == hf_factor_view(),
{
    let d = def();
    let ids = all_raw_ids();
    let columns: [&str; 2] = ["close", "pre_close"];
    let mut dependencies: Vec<DataRequest> = Vec::new();
    dependencies.push(DataRequest::new(DatasetId::StockDailyPv, &columns));
    let mut aliases: Vec<String> = Vec::new();
    aliases.push(d.alias.to_owned());
    let r = FactorSpec {
        id: d.id.to_owned(),
        aliases,
        name: d.name.to_owned(),
        asset_class: AssetClass::Stock,
        frequency: Frequency::Daily,
        version: VERSION.to_owned(),
        tags: tags(),
        description: "GFZQ high-frequency residual standard deviation factor from 1-minute realized volatility, skewness, and kurtosis changes in a 20-day time-series regression.".to_owned(),
        dependencies,
        intraday_raw_dependencies: raw_requests_for(&ids, RAW_DAILY_LOOKBACK),
        lookback: Lookback { trading_days: REGRESSION_WINDOW },
    };
    assert(strs_view(columns@) =~= seq!["close"@, "pre_close"@]);
    assert(strings_view(r.aliases@) =~= seq![spec_def().alias@]);
    assert(r.dependencies@.map_values(|d: DataRequest| d@) =~= seq![
        plain_request(DatasetId::StockDailyPv, seq!["close"@, "pre_close"@]),
    ]);
    r
}

/// The sampled minutes of a trading day: 09:30, 09:31 to 11:30 and 13:01 to
/// 15:00 (241 minutes).
pub open spec fn minute_grid() -> Seq<i32> {
    Seq::new(241, |k: int| if k <= 120 { (570 + k) as i32 } else { (780 + (k - 120)) as i32 })
}

/// The sampled minutes of a trading day.
pub fn minute_anchors() -> (r: Vec<i32>)
    ensures
        r@ == minute_grid(),
{
    let mut anchors: Vec<i32> = Vec::new();
    anchors.push(9 * 60 + 30);
    let mut minute: i32 = 9 * 60 + 31;
    while minute <= 11 * 60 + 30
        invariant
            571 <= minute <= 691,
            anchors@.len() == minute - 570,
            forall|k: int| 0 <= k < anchors@.len() ==> #[trigger] anchors@[k] == minute_grid()[k],
        decreases 691 - minute,
    {
        anchors.push(minute);
        minute = minute + 1;
    }
    minute = 13 * 60 + 1;
    while minute <= 15 * 60
        invariant
            781 <= minute <= 901,
            anchors@.len() == minute - 660,
            forall|k: int| 0 <= k < anchors@.len() ==> #[trigger] anchors@[k] == minute_grid()[k],
        decreases 901 - minute,
    {
        anchors.push(minute);
        minute = minute + 1;
    }
    assert(anchors@ =~= minute_grid());
    anchors
}

/// Whether `minute` is sampled: 09:30, or within 09:31 to 11:30 or 13:01 to 15:00.
pub open spec fn spec_is_sample_anchor(minute: int) -> bool {
    minute == 570 || minute == 690 || (571 <= minute <= 690) || (781 <= minute <= 900)
}

/// Whether `minute` is sampled.
pub fn is_sample_anchor(minute: i32) -> (r: bool)
    ensures
        r == spec_is_sample_anchor(minute as int),
        r == minute_grid().contains(minute),
{
    let r = minute == 9 * 60 + 30 || minute == 11 * 60 + 30 || (9 * 60 + 31 <= minute && minute <= 11 * 60
        + 30) || (13 * 60 + 1 <= minute && minute <= 15 * 60);
    proof {
        if r {
            let k = if minute <= 690 { minute - 570 } else { minute - 660 };
            assert(minute_grid()[k as int] == minute);
        }
    }
    r
}

} // verus!
