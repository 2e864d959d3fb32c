//! GFZQ cross-day 5-minute salience factors: their raw series, published
//! definitions, and the mapping of minute bars onto 5-minute slots.
use vstd::prelude::*;
use crate::catalog::{
    FactorSpec,
    FactorSpecView,
    IntradayDailyRawRequestView,
    IntradayDailyRawSpec,
    IntradayDailyRawSpecView,
    IntradayRawMaterializeMode,
    neutralized_factor,
    neutralized_factor_view,
    owned_strings,
    single_raw_request,
    stock_minute_raw_spec,
    stock_minute_raw_view,
    strings_view,
    strs_view,
};
use crate::intraday_time::{colon_hour_minute, colon_minutes_in_range, minute_of_day};
use crate::raw_ids::{STR_5MIN_MA_ACTIVE_RAW_ID, STR_5MIN_MA_RAW_ID, STR_5MIN_MA_SIGMA_RAW_ID};

verus! {

/// Version of the factors.
pub const VERSION: &'static str = "0.1.0";
/// Version of the raw series.
pub const RAW_VERSION: &'static str = "0.1.0";
/// Key of the minute provider of these raw series.
pub const PROVIDER_KEY: &'static str = "gfzq_5min_salience_provider";
/// Trading days of minute bars each raw value reads.
pub const RAW_WINDOW_DAYS: usize = 5;
/// Number of 5-minute slots in a trading day.
pub const FIVE_MINUTE_SLOTS: usize = 48;
/// First minute of the morning session (09:31).
pub const MORNING_START_MINUTE: i32 = 571;
/// Last minute of the morning session (11:30).
pub const MORNING_END_MINUTE: i32 = 690;
/// First minute of the afternoon session (13:01).
pub const AFTERNOON_START_MINUTE: i32 = 781;
/// Last minute of the afternoon session (15:00).
pub const AFTERNOON_END_MINUTE: i32 = 900;

/// The definition of one salience factor.
#[derive(Clone, Copy, Debug)]
pub struct Gfzq5minSalienceFactorDef {
    pub id: &'static str,
    pub alias: &'static str,
    pub name: &'static str,
    pub raw_id: &'static str,
}

/// Every raw id, in order.
pub open spec fn salience_ids() -> Seq<Seq<char>> {
    seq![STR_5MIN_MA_RAW_ID@, STR_5MIN_MA_ACTIVE_RAW_ID@, STR_5MIN_MA_SIGMA_RAW_ID@]
}

/// Every raw id.
pub fn all_raw_ids() -> (r: [&'static str; 3])
    ensures
        strs_view(r@) == salience_ids(),
{
    let r = [STR_5MIN_MA_RAW_ID, STR_5MIN_MA_ACTIVE_RAW_ID, STR_5MIN_MA_SIGMA_RAW_ID];
    assert(strs_view(r@) =~= salience_ids());
    r
}

/// The raw specification of `raw_id`: stock 1-minute open and close over
/// five days.
pub open spec fn salience_raw_view(raw_id: Seq<char>) -> IntradayDailyRawSpecView {
    stock_minute_raw_view(raw_id, RAW_VERSION@, seq!["open"@, "close"@], RAW_WINDOW_DAYS)
}

/// The raw specification of `raw_id`.
pub fn raw_spec(raw_id: &str) -> (r: IntradayDailyRawSpec)
    ensures
        r@ == salience_raw_view(raw_id@),
{
    let columns: [&str; 2] = ["open", "close"];
    let r = stock_minute_raw_spec(raw_id, RAW_VERSION, &columns, RAW_WINDOW_DAYS);
    assert(strs_view(columns@) =~= seq!["open"@, "close"@]);
    r
}

/// The raw specifications of every series.
pub fn raw_specs() -> (r: Vec<IntradayDailyRawSpec>)
    ensures
        r@.map_values(|s: IntradayDailyRawSpec| s@) == salience_ids().map_values(
            |id: Seq<char>| salience_raw_view(id),
        ),
{
    let ids = all_raw_ids();
    let mut out: Vec<IntradayDailyRawSpec> = Vec::new();
    out.push(raw_spec(ids[0]));
    out.push(raw_spec(ids[1]));
    out.push(raw_spec(ids[2]));
    assert(out@.map_values(|s: IntradayDailyRawSpec| s@) =~= salience_ids().map_values(
        |id: Seq<char>| salience_raw_view(id),
    ));
    out
}

/// The tags of the salience factors.
pub open spec fn salience_tags() -> Seq<Seq<char>> {
    seq!["GFZQ"@, "behavioral"@, "salience"@, "intraday"@, "5min"@, "stateful_raw"@, "daily"@]
}

/// The tags of the salience factors.
pub fn tags() -> (r: Vec<String>)
    ensures
        strings_view(r@) == salience_tags(),
{
    let items: [&str; 7] = ["GFZQ", "behavioral", "salience", "intraday", "5min", "stateful_raw", "daily"];
    assert(strs_view(items@) =~= salience_tags());
    owned_strings(&items)
}

/// The published definition of `def`.
pub open spec fn salience_factor_view(def: Gfzq5minSalienceFactorDef) -> FactorSpecView {
    neutralized_factor_view(
        def.id@,
        def.alias@,
        def.name@,
        VERSION@,
        salience_tags(),
        def.name@
            + " GFZQ cross-day 5-minute salience factor, z-scored and neutralized by Barra SIZE and SW sector."@,
        seq![IntradayDailyRawRequestView { raw_id: def.raw_id@, lookback: (RAW_WINDOW_DAYS - 1) as usize }],
        (RAW_WINDOW_DAYS - 1) as usize,
    )
}

/// The published definition of `def`.
pub fn factor_spec(def: Gfzq5minSalienceFactorDef) -> (r: FactorSpec)
    ensures
        r@ == salience_factor_view(def),
{
    let description = def.name.to_owned().concat(
        " GFZQ cross-day 5-minute salience factor, z-scored and neutralized by Barra SIZE and SW sector.",
    );
    neutralized_factor(
        def.id,
        def.alias,
        def.name,
        VERSION,
        tags(),
        description,
        single_raw_request(def.raw_id, RAW_WINDOW_DAYS - 1),
        RAW_WINDOW_DAYS - 1,
    )
}

/// The raw series are computed day by day with state carried across days.
pub fn intraday_raw_materialize_mode() -> (r: IntradayRawMaterializeMode)
    ensures
        r == IntradayRawMaterializeMode::Stateful,
{
    IntradayRawMaterializeMode::Stateful
}

/// The 5-minute slot and minute of day of a minute in the session: 09:31 to
/// 11:30 fill slots 0 to 23, 13:01 to 15:00 slots 24 to 47.
pub open spec fn slot_of_minute(minute: int) -> Option<(usize, i32)> {
    if MORNING_START_MINUTE <= minute <= MORNING_END_MINUTE {
        Some((((minute - MORNING_START_MINUTE) / 5) as usize, minute as i32))
    } else if AFTERNOON_START_MINUTE <= minute <= AFTERNOON_END_MINUTE {
        Some(((24 + (minute - AFTERNOON_START_MINUTE) / 5) as usize, minute as i32))
    } else {
        None
    }
}

/// The 5-minute slot and minute of day of the bar stamped `trade_time`.
pub fn five_minute_slot(trade_time: &str) -> (r: Option<(usize, i32)>)
    requires
        colon_minutes_in_range(trade_time@),
    ensures
        r == match colon_hour_minute(trade_time@) {
            Some((h, m)) => slot_of_minute(h * 60 + m),
            None => None,
        },
{
    let minute = match minute_of_day(trade_time) {
        Some(m) => m,
        None => {
            return None;
        },
    };
    if MORNING_START_MINUTE <= minute && minute <= MORNING_END_MINUTE {
        return Some((((minute - MORNING_START_MINUTE) / 5) as usize, minute));
    }
    if AFTERNOON_START_MINUTE <= minute && minute <= AFTERNOON_END_MINUTE {
        return Some((24 + ((minute - AFTERNOON_START_MINUTE) / 5) as usize, minute));
    }
    None
}

} // verus!
