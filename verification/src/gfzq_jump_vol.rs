//! GFZQ 5-minute jump volatility factors: their raw series and published
//! definitions.
use vstd::prelude::*;
use crate::catalog::{
    FactorSpec,
    FactorSpecView,
    IntradayDailyRawRequestView,
    IntradayDailyRawSpec,
    IntradayDailyRawSpecView,
    neutralized_factor,
    neutralized_factor_view,
    owned_strings,
    single_raw_request,
    stock_minute_raw_spec,
    stock_minute_raw_view,
    strings_view,
    strs_view,
};
use crate::raw_ids::{RJVP_5MIN_RAW_ID, RLJVP_5MIN_RAW_ID, SRJV_5MIN_RAW_ID, SRLJV_5MIN_RAW_ID};

verus! {

/// Version of the factors.
pub const VERSION: &'static str = "0.1.0";
/// Version of the raw series.
pub const RAW_VERSION: &'static str = "0.1.0";
/// Key of the minute provider of these raw series.
pub const PROVIDER_KEY: &'static str = "gfzq_jump_vol_5min_provider";
/// Days of minute bars each raw value reads.
pub const RAW_WINDOW_DAYS: usize = 1;
/// Trading days averaged by the factors.
pub const WEEK_WINDOW: usize = 5;

/// The definition of one jump volatility factor.
#[derive(Clone, Copy, Debug)]
pub struct GfzqJumpVolFactorDef {
    pub id: &'static str,
    pub alias: &'static str,
    pub name: &'static str,
    pub raw_id: &'static str,
}

/// Every raw id, in order.
pub open spec fn jump_ids() -> Seq<Seq<char>> {
    seq![SRJV_5MIN_RAW_ID@, RJVP_5MIN_RAW_ID@, RLJVP_5MIN_RAW_ID@, SRLJV_5MIN_RAW_ID@]
}

/// Every raw id.
pub fn all_raw_ids() -> (r: [&'static str; 4])
    ensures
        strs_view(r@) == jump_ids(),
{
    let r = [SRJV_5MIN_RAW_ID, RJVP_5MIN_RAW_ID, RLJVP_5MIN_RAW_ID, SRLJV_5MIN_RAW_ID];
    assert(strs_view(r@) =~= jump_ids());
    r
}

/// The raw specification of `raw_id`: stock 1-minute closes, one day.
pub open spec fn jump_raw_view(raw_id: Seq<char>) -> IntradayDailyRawSpecView {
    stock_minute_raw_view(raw_id, RAW_VERSION@, seq!["close"@], RAW_WINDOW_DAYS)
}

/// The raw specification of `raw_id`.
pub fn raw_spec(raw_id: &str) -> (r: IntradayDailyRawSpec)
    ensures
        r@ == jump_raw_view(raw_id@),
{
    let columns: [&str; 1] = ["close"];
    let r = stock_minute_raw_spec(raw_id, RAW_VERSION, &columns, RAW_WINDOW_DAYS);
    assert(strs_view(columns@) =~= seq!["close"@]);
    r
}

/// The raw specifications of every series.
pub fn raw_specs() -> (r: Vec<IntradayDailyRawSpec>)
    ensures
        r@.map_values(|s: IntradayDailyRawSpec| s@) == jump_ids().map_values(|id: Seq<char>| jump_raw_view(id)),
{
    let ids = all_raw_ids();
    let mut out: Vec<IntradayDailyRawSpec> = Vec::new();
    out.push(raw_spec(ids[0]));
    out.push(raw_spec(ids[1]));
    out.push(raw_spec(ids[2]));
    out.push(raw_spec(ids[3]));
    assert(out@.map_values(|s: IntradayDailyRawSpec| s@) =~= jump_ids().map_values(
        |id: Seq<char>| jump_raw_view(id),
    ));
    out
}

/// The tags of the jump volatility factors.
pub open spec fn jump_tags() -> Seq<Seq<char>> {
    seq!["GFZQ"@, "price_volume"@, "jump"@, "volatility"@, "intraday"@, "5min"@, "neutralize"@, "daily"@]
}

/// The tags of the jump volatility factors.
pub fn tags() -> (r: Vec<String>)
    ensures
        strings_view(r@) == jump_tags(),
{
    let items: [&str; 8] = ["GFZQ", "price_volume", "jump", "volatility", "intraday", "5min", "neutralize", "daily"];
    assert(strs_view(items@) =~= jump_tags());
    owned_strings(&items)
}

/// The published definition of `def`.
pub open spec fn jump_factor_view(def: GfzqJumpVolFactorDef) -> FactorSpecView {
    neutralized_factor_view(
        def.id@,
        def.alias@,
        def.name@,
        VERSION@,
        jump_tags(),
        def.name@
            + " GFZQ 5-minute jump volatility factor, 5-day averaged, z-scored, and neutralized by Barra SIZE and SW sector."@,
        seq![IntradayDailyRawRequestView { raw_id: def.raw_id@, lookback: (WEEK_WINDOW - 1) as usize }],
        (WEEK_WINDOW - 1) as usize,
    )
}

/// The published definition of `def`.
pub fn factor_spec(def: GfzqJumpVolFactorDef) -> (r: FactorSpec)
    ensures
        r@ == jump_factor_view(def),
{
    let description = def.name.to_owned().concat(
        " GFZQ 5-minute jump volatility factor, 5-day averaged, z-scored, and neutralized by Barra SIZE and SW sector.",
    );
    neutralized_factor(
        def.id,
        def.alias,
        def.name,
        VERSION,
        tags(),
        description,
        single_raw_request(def.raw_id, WEEK_WINDOW - 1),
        WEEK_WINDOW - 1,
    )
}

} // verus!
