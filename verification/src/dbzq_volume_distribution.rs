//! DBZQ intraday volume distribution factors: their raw series, published
//! definitions, and the mapping of minute bars onto the trading session.
use vstd::prelude::*;
use crate::catalog::{
    AssetClass,
    DataRequest,
    FactorSpec,
    FactorSpecView,
    Frequency,
    IntradayDailyRawSpec,
    IntradayDailyRawSpecView,
    Lookback,
    owned_strings,
    raw_requests,
    raw_requests_for,
    size_sector_dependencies,
    size_sector_requests,
    stock_minute_raw_spec,
    stock_minute_raw_view,
    strings_view,
    strings_with,
    strs_view,
};
use crate::intraday_time::{spec_time_to_minutes, time_to_minutes};

verus! {

/// Key of the minute provider of these raw series.
pub const PROVIDER_KEY: &'static str = "dbzq_intraday_volume_distribution_provider";
/// Version of the raw series.
pub const RAW_VERSION: &'static str = "0.1.0";
/// Version of the factors.
pub const VERSION: &'static str = "0.1.0";
/// Skewness of volume at price.
pub const V_P_SKEWNESS_RAW_ID: &'static str = "daily_dbzq_v_p_skewness";
/// Reversal toward the point of control.
pub const V_P_REVERSAL_RAW_ID: &'static str = "daily_dbzq_v_p_reversal";
/// Volume share of significant up moves.
pub const SIG_UP_P_V_RATIO_RAW_ID: &'static str = "daily_dbzq_sig_up_p_v_ratio";
/// Intraday dispersion of significant up-move volume.
pub const SIG_UP_P_V_INTRADAY_STD_RAW_ID: &'static str = "daily_dbzq_sig_up_p_v_intraday_std";
/// Days of minute bars each raw value reads.
pub const RAW_WINDOW_DAYS: usize = 1;
/// Trading days averaged by the factors.
pub const ROLLING_WINDOW: usize = 20;

/// The two factor kinds.
#[derive(Clone, Copy, Debug, Eq, PartialEq, Structural)]
pub enum DbzqIntradayVolumeDistributionKind {
    VolumePrice,
    SignificantUpVolumeReturn,
}

/// The definition of one volume distribution factor.
#[derive(Clone, Copy, Debug)]
pub struct DbzqIntradayVolumeDistributionFactorDef {
    pub id: &'static str,
    pub alias: &'static str,
    pub name: &'static str,
    pub kind: DbzqIntradayVolumeDistributionKind,
}

/// Every raw id, in order.
pub open spec fn volume_ids() -> Seq<Seq<char>> {
    seq![V_P_SKEWNESS_RAW_ID@, V_P_REVERSAL_RAW_ID@, SIG_UP_P_V_RATIO_RAW_ID@, SIG_UP_P_V_INTRADAY_STD_RAW_ID@]
}

/// The raw ids a kind composites.
pub open spec fn kind_ids(kind: DbzqIntradayVolumeDistributionKind) -> Seq<Seq<char>> {
    match kind {
        DbzqIntradayVolumeDistributionKind::VolumePrice => seq![V_P_SKEWNESS_RAW_ID@, V_P_REVERSAL_RAW_ID@],
        DbzqIntradayVolumeDistributionKind::SignificantUpVolumeReturn => seq![
            SIG_UP_P_V_RATIO_RAW_ID@,
            SIG_UP_P_V_INTRADAY_STD_RAW_ID@,
        ],
    }
}

/// Every raw id.
pub fn all_raw_ids() -> (r: [&'static str; 4])
    ensures
        strs_view(r@) == volume_ids(),
{
    let r = [V_P_SKEWNESS_RAW_ID, V_P_REVERSAL_RAW_ID, SIG_UP_P_V_RATIO_RAW_ID, SIG_UP_P_V_INTRADAY_STD_RAW_ID];
    assert(strs_view(r@) =~= volume_ids());
    r
}

/// The raw ids of `kind`.
pub fn raw_ids_for_kind(kind: DbzqIntradayVolumeDistributionKind) -> (r: [&'static str; 2])
    ensures
        strs_view(r@) == kind_ids(kind),
{
    let r = match kind {
        DbzqIntradayVolumeDistributionKind::VolumePrice => [V_P_SKEWNESS_RAW_ID, V_P_REVERSAL_RAW_ID],
        DbzqIntradayVolumeDistributionKind::SignificantUpVolumeReturn => [
            SIG_UP_P_V_RATIO_RAW_ID,
            SIG_UP_P_V_INTRADAY_STD_RAW_ID,
        ],
    };
    assert(strs_view(r@) =~= kind_ids(kind));
    r
}

/// The raw specification of `raw_id`: stock 1-minute open, close, volume
/// and amount, one day.
pub open spec fn volume_raw_view(raw_id: Seq<char>) -> IntradayDailyRawSpecView {
    stock_minute_raw_view(raw_id, RAW_VERSION@, seq!["open"@, "close"@, "vol"@, "amount"@], RAW_WINDOW_DAYS)
}

/// The raw specification of `raw_id`.
pub fn raw_spec(raw_id: &str) -> (r: IntradayDailyRawSpec)
    ensures
        r@ == volume_raw_view(raw_id@),
{
    let columns: [&str; 4] = ["open", "close", "vol", "amount"];
    let r = stock_minute_raw_spec(raw_id, RAW_VERSION, &columns, RAW_WINDOW_DAYS);
    assert(strs_view(columns@) =~= seq!["open"@, "close"@, "vol"@, "amount"@]);
    r
}

/// The raw specifications of `kind`.
pub fn raw_specs_for_kind(kind: DbzqIntradayVolumeDistributionKind) -> (r: Vec<IntradayDailyRawSpec>)
    ensures
        r@.map_values(|s: IntradayDailyRawSpec| s@) == kind_ids(kind).map_values(
            |id: Seq<char>| volume_raw_view(id),
        ),
{
    let ids = raw_ids_for_kind(kind);
    let mut out: Vec<IntradayDailyRawSpec> = Vec::new();
    out.push(raw_spec(ids[0]));
    out.push(raw_spec(ids[1]));
    assert(out@.map_values(|s: IntradayDailyRawSpec| s@) =~= kind_ids(kind).map_values(
        |id: Seq<char>| volume_raw_view(id),
    ));
    out
}

/// The tags every volume distribution factor carries.
pub open spec fn base_tags() -> Seq<Seq<char>> {
    seq![
        "price_volume"@,
        "volume"@,
        "intraday"@,
        "minute_agg"@,
        "distribution"@,
        "neutralize"@,
        "barra"@,
        "size"@,
        "sector"@,
        "daily"@,
        "DBZQ"@,
    ]
}

/// The tags of a kind: the common ones, then `price` or `return`.
pub open spec fn kind_tags(kind: DbzqIntradayVolumeDistributionKind) -> Seq<Seq<char>> {
    match kind {
        DbzqIntradayVolumeDistributionKind::VolumePrice => base_tags().push("price"@),
        DbzqIntradayVolumeDistributionKind::SignificantUpVolumeReturn => base_tags().push("return"@),
    }
}

/// The tags of `kind`.
pub fn tags(kind: DbzqIntradayVolumeDistributionKind) -> (r: Vec<String>)
    ensures
        strings_view(r@) == kind_tags(kind),
{
    let base: [&str; 11] = [
        "price_volume",
        "volume",
        "intraday",
        "minute_agg",
        "distribution",
        "neutralize",
        "barra",
        "size",
        "sector",
        "daily",
        "DBZQ",
    ];
    assert(strs_view(base@) =~= base_tags());
    match kind {
        DbzqIntradayVolumeDistributionKind::VolumePrice => strings_with(&base, "price"),
        DbzqIntradayVolumeDistributionKind::SignificantUpVolumeReturn => strings_with(&base, "return"),
    }
}

/// The description of a factor: its name, then what its kind composites.
pub open spec fn spec_description(def: DbzqIntradayVolumeDistributionFactorDef) -> Seq<char> {
    match def.kind {
        DbzqIntradayVolumeDistributionKind::VolumePrice => def.name@
            + " composites intraday 5-minute VWAP volume-at-price skewness and POC reversal raws from 1-minute bars, then z-scores subfactors and neutralizes by Barra SIZE and SW sector; it does not depend on derived 5-minute parquet bars."@,
        DbzqIntradayVolumeDistributionKind::SignificantUpVolumeReturn => def.name@
            + " composites significant-up 5-minute return-volume raws from 1-minute bars, then z-scores subfactors and neutralizes by Barra SIZE and SW sector; it does not depend on derived 5-minute parquet bars."@,
    }
}

/// The description of `def`.
pub fn description(def: DbzqIntradayVolumeDistributionFactorDef) -> (r: String)
    ensures
        r@ == spec_description(def),
{
    match def.kind {
        DbzqIntradayVolumeDistributionKind::VolumePrice => def.name.to_owned().concat(
            " composites intraday 5-minute VWAP volume-at-price skewness and POC reversal raws from 1-minute bars, then z-scores subfactors and neutralizes by Barra SIZE and SW sector; it does not depend on derived 5-minute parquet bars.",
        ),
        DbzqIntradayVolumeDistributionKind::SignificantUpVolumeReturn => def.name.to_owned().concat(
            " composites significant-up 5-minute return-volume raws from 1-minute bars, then z-scores subfactors and neutralizes by Barra SIZE and SW sector; it does not depend on derived 5-minute parquet bars.",
        ),
    }
}

/// The daily data the factors read: Barra size and SW level-1 sector.
pub fn dependencies() -> (r: Vec<DataRequest>)
    ensures
        r@.map_values(|d: DataRequest| d@) == size_sector_requests(),
{
    size_sector_dependencies()
}

/// The published definition of `def`.
pub open spec fn volume_factor_view(def: DbzqIntradayVolumeDistributionFactorDef) -> FactorSpecView {
    FactorSpecView {
        id: def.id@,
        aliases: seq![def.alias@],
        name: def.name@,
        asset_class: AssetClass::Stock,
        frequency: Frequency::Daily,
        version: VERSION@,
        tags: kind_tags(def.kind),
        description: spec_description(def),
        dependencies: size_sector_requests(),
        intraday_raw_dependencies: raw_requests(kind_ids(def.kind), (ROLLING_WINDOW - 1) as usize),
        lookback: (ROLLING_WINDOW - 1) as usize,
    }
}

/// The published definition of `def`.
pub fn factor_spec(def: DbzqIntradayVolumeDistributionFactorDef) -> (r: FactorSpec)
    ensures
        r@ == volume_factor_view(def),
{
    let ids = raw_ids_for_kind(def.kind);
    let mut aliases: Vec<String> = Vec::new();
    aliases.push(def.alias.to_owned());
    let r = FactorSpec {
        id: def.id.to_owned(),
        aliases,
        name: def.name.to_owned(),
        asset_class: AssetClass::Stock,
        frequency: Frequency::Daily,
        version: VERSION.to_owned(),
        tags: tags(def.kind),
        description: description(def),
        dependencies: dependencies(),
        intraday_raw_dependencies: raw_requests_for(&ids, ROLLING_WINDOW - 1),
        lookback: Lookback { trading_days: ROLLING_WINDOW - 1 },
    };
    assert(strings_view(r.aliases@) =~= seq![def.alias@]);
    r
}

/// Position of a minute in the trading session: 09:31 to 11:30 are 0 to
/// 119, 13:01 to 15:00 are 120 to 239.
pub open spec fn session_minute_index(minutes: int) -> Option<int> {
    if 571 <= minutes <= 690 {
        Some(minutes - 571)
    } else if 781 <= minutes <= 900 {
        Some(120 + (minutes - 781))
    } else {
        None
    }
}

/// Position in the trading session of the minute bar stamped `trade_time`.
pub fn minute_index(trade_time: &str) -> (r: Option<usize>)
    ensures
        r == match spec_time_to_minutes(trade_time@) {
            Some(m) => match session_minute_index(m) {
                Some(k) => Some(k as usize),
                None => None,
            },
            None => None,
        },
{
    let minutes = match time_to_minutes(trade_time) {
        Some(m) => m,
        None => {
            return None;
        },
    };
    let morning_start: i32 = 9 * 60 + 31;
    let morning_end: i32 = 11 * 60 + 30;
    let afternoon_start: i32 = 13 * 60 + 1;
    let afternoon_end: i32 = 15 * 60;
    if morning_start <= minutes && minutes <= morning_end {
        return Some((minutes - morning_start) as usize);
    }
    if afternoon_start <= minutes && minutes <= afternoon_end {
        return Some(120 + (minutes - afternoon_start) as usize);
    }
    None
}

} // verus!
