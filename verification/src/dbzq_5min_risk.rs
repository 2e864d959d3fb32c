//! DBZQ 5-minute return risk factors: the raw tail-risk series they read,
//! their published definitions, and the 5-minute sampling grid.
use vstd::prelude::*;
use crate::catalog::{
    AssetClass,
    DataRequest,
    DatasetId,
    FactorSpec,
    FactorSpecView,
    Frequency,
    IntradayDailyRawRequest,
    IntradayDailyRawRequestView,
    IntradayDailyRawSpec,
    IntradayDailyRawSpecView,
    Lookback,
    RequestedRawIds,
    owned_strings,
    size_sector_dependencies,
    size_sector_requests,
    stock_minute_raw_spec,
    stock_minute_raw_view,
    str_eq,
    strings_view,
    strs_view,
};
use crate::raw_ids::{
    CVAR90_5MIN_RAW_ID,
    CVAR90_RT_5MIN_RAW_ID,
    CVAR95_5MIN_RAW_ID,
    CVAR95_RT_5MIN_RAW_ID,
    ID_CVAR90_5MIN_RAW_ID,
    ID_CVAR90_RT_5MIN_RAW_ID,
    ID_CVAR95_5MIN_RAW_ID,
    ID_CVAR95_RT_5MIN_RAW_ID,
    ID_RV_5MIN_RAW_ID,
    ID_VAR90_5MIN_RAW_ID,
    ID_VAR90_RT_5MIN_RAW_ID,
    ID_VAR95_5MIN_RAW_ID,
    ID_VAR95_RT_5MIN_RAW_ID,
    RV_5MIN_RAW_ID,
    VAR90_5MIN_RAW_ID,
    VAR90_RT_5MIN_RAW_ID,
    VAR95_5MIN_RAW_ID,
    VAR95_RT_5MIN_RAW_ID,
};

verus! {

/// Version of the raw series.
pub const RAW_VERSION: &'static str = "0.1.0";
/// Version of the factors.
pub const VERSION: &'static str = "0.1.0";
/// Trading days averaged by the weekly factors.
pub const WEEK_WINDOW: usize = 5;
/// Trading days of the uncertainty (coefficient of variation) factors.
pub const UNCERTAINTY_WINDOW: usize = 21;
/// Fewest observations a rolling statistic needs.
pub const MIN_PERIODS: usize = 1;

/// Days of minute bars each raw value reads.
pub const RAW_WINDOW_DAYS: usize = 1;

/// Number of 5-minute returns in a trading day.
pub const FIVE_MINUTE_RETURN_COUNT: usize = 48;

/// How a factor turns its daily raw series into a value.
#[derive(Clone, Copy, Debug, Eq, PartialEq, Structural)]
pub enum DbzqPostProcess {
    WeekMean,
    Uncertainty,
}

/// Whether a raw series is computed from returns or from CAPM residuals.
#[derive(Clone, Copy, Debug, Eq, PartialEq, Structural)]
pub enum DbzqRawFamily {
    Ordinary,
    Idiosyncratic,
}

/// The definition of one DBZQ 5-minute risk factor.
#[derive(Clone, Copy, Debug)]
pub struct DbzqFactorDef {
    pub id: &'static str,
    pub alias: &'static str,
    pub name: &'static str,
    pub raw_id: &'static str,
    pub postprocess: DbzqPostProcess,
}

/// Which daily risk statistics a computation must produce.
#[derive(Clone, Copy, Debug, Default, PartialEq, Eq, Structural)]
pub struct RiskStatsRequest {
    pub rv: bool,
    pub var90: bool,
    pub var95: bool,
    pub cvar90: bool,
    pub cvar95: bool,
    pub var90_rt: bool,
    pub var95_rt: bool,
    pub cvar90_rt: bool,
    pub cvar95_rt: bool,
}

/// The raw ids of the return-based series, in statistic order.
pub open spec fn ordinary_ids() -> Seq<Seq<char>> {
    seq![
        RV_5MIN_RAW_ID@,
        VAR90_5MIN_RAW_ID@,
        VAR95_5MIN_RAW_ID@,
        CVAR90_5MIN_RAW_ID@,
        CVAR95_5MIN_RAW_ID@,
        VAR90_RT_5MIN_RAW_ID@,
        VAR95_RT_5MIN_RAW_ID@,
        CVAR90_RT_5MIN_RAW_ID@,
        CVAR95_RT_5MIN_RAW_ID@,
    ]
}

/// The raw ids of the residual-based series, in statistic order.
pub open spec fn idiosyncratic_ids() -> Seq<Seq<char>> {
    seq![
        ID_RV_5MIN_RAW_ID@,
        ID_VAR90_5MIN_RAW_ID@,
        ID_VAR95_5MIN_RAW_ID@,
        ID_CVAR90_5MIN_RAW_ID@,
        ID_CVAR95_5MIN_RAW_ID@,
        ID_VAR90_RT_5MIN_RAW_ID@,
        ID_VAR95_RT_5MIN_RAW_ID@,
        ID_CVAR90_RT_5MIN_RAW_ID@,
        ID_CVAR95_RT_5MIN_RAW_ID@,
    ]
}

/// The raw ids of a family.
pub open spec fn family_ids(family: DbzqRawFamily) -> Seq<Seq<char>> {
    match family {
        DbzqRawFamily::Ordinary => ordinary_ids(),
        DbzqRawFamily::Idiosyncratic => idiosyncratic_ids(),
    }
}

/// The statistics whose raw ids of `family` occur in `requested`.
pub open spec fn request_of(requested: Seq<Seq<char>>, family: DbzqRawFamily) -> RiskStatsRequest {
    let ids = family_ids(family);
    RiskStatsRequest {
        rv: requested.contains(ids[0]),
        var90: requested.contains(ids[1]),
        var95: requested.contains(ids[2]),
        cvar90: requested.contains(ids[3]),
        cvar95: requested.contains(ids[4]),
        var90_rt: requested.contains(ids[5]),
        var95_rt: requested.contains(ids[6]),
        cvar90_rt: requested.contains(ids[7]),
        cvar95_rt: requested.contains(ids[8]),
    }
}

impl RiskStatsRequest {
    /// The statistics of `family` whose raw ids were requested.
    pub fn from_requested(requested: &RequestedRawIds, family: DbzqRawFamily) -> (r: Self)
        ensures
            r == request_of(requested@, family),
    {
        match family {
            DbzqRawFamily::Ordinary => RiskStatsRequest {
                rv: requested.contains(RV_5MIN_RAW_ID),
                var90: requested.contains(VAR90_5MIN_RAW_ID),
                var95: requested.contains(VAR95_5MIN_RAW_ID),
                cvar90: requested.contains(CVAR90_5MIN_RAW_ID),
                cvar95: requested.contains(CVAR95_5MIN_RAW_ID),
                var90_rt: requested.contains(VAR90_RT_5MIN_RAW_ID),
                var95_rt: requested.contains(VAR95_RT_5MIN_RAW_ID),
                cvar90_rt: requested.contains(CVAR90_RT_5MIN_RAW_ID),
                cvar95_rt: requested.contains(CVAR95_RT_5MIN_RAW_ID),
            },
            DbzqRawFamily::Idiosyncratic => RiskStatsRequest {
                rv: requested.contains(ID_RV_5MIN_RAW_ID),
                var90: requested.contains(ID_VAR90_5MIN_RAW_ID),
                var95: requested.contains(ID_VAR95_5MIN_RAW_ID),
                cvar90: requested.contains(ID_CVAR90_5MIN_RAW_ID),
                cvar95: requested.contains(ID_CVAR95_5MIN_RAW_ID),
                var90_rt: requested.contains(ID_VAR90_RT_5MIN_RAW_ID),
                var95_rt: requested.contains(ID_VAR95_RT_5MIN_RAW_ID),
                cvar90_rt: requested.contains(ID_CVAR90_RT_5MIN_RAW_ID),
                cvar95_rt: requested.contains(ID_CVAR95_RT_5MIN_RAW_ID),
            },
        }
    }
}

/// Every raw id of both families, returns first.
pub fn all_raw_ids() -> (r: [&'static str; 18])
    ensures
        strs_view(r@) == ordinary_ids() + idiosyncratic_ids(),
        forall|a: int, b: int| 0 <= a < b < 18 ==> r@[a]@ != r@[b]@,
{
    let r = [
        RV_5MIN_RAW_ID,
        VAR90_5MIN_RAW_ID,
        VAR95_5MIN_RAW_ID,
        CVAR90_5MIN_RAW_ID,
        CVAR95_5MIN_RAW_ID,
        VAR90_RT_5MIN_RAW_ID,
        VAR95_RT_5MIN_RAW_ID,
        CVAR90_RT_5MIN_RAW_ID,
        CVAR95_RT_5MIN_RAW_ID,
        ID_RV_5MIN_RAW_ID,
        ID_VAR90_5MIN_RAW_ID,
        ID_VAR95_5MIN_RAW_ID,
        ID_CVAR90_5MIN_RAW_ID,
        ID_CVAR95_5MIN_RAW_ID,
        ID_VAR90_RT_5MIN_RAW_ID,
        ID_VAR95_RT_5MIN_RAW_ID,
        ID_CVAR90_RT_5MIN_RAW_ID,
        ID_CVAR95_RT_5MIN_RAW_ID,
    ];
    assert(strs_view(r@) =~= ordinary_ids() + idiosyncratic_ids());
    proof {
        lemma_risk_raw_ids_distinct();
        assert forall|a: int, b: int| 0 <= a < b < 18 implies r@[a]@ != r@[b]@ by {
            assert(strs_view(r@)[a] == r@[a]@ && strs_view(r@)[b] == r@[b]@);
        }
    }
    r
}

/// The raw ids of the return-based family.
pub fn ordinary_raw_ids() -> (r: [&'static str; 9])
    ensures
        strs_view(r@) == ordinary_ids(),
{
    let r = [
        RV_5MIN_RAW_ID,
        VAR90_5MIN_RAW_ID,
        VAR95_5MIN_RAW_ID,
        CVAR90_5MIN_RAW_ID,
        CVAR95_5MIN_RAW_ID,
        VAR90_RT_5MIN_RAW_ID,
        VAR95_RT_5MIN_RAW_ID,
        CVAR90_RT_5MIN_RAW_ID,
        CVAR95_RT_5MIN_RAW_ID,
    ];
    assert(strs_view(r@) =~= ordinary_ids());
    r
}

/// The raw ids of the residual-based family.
pub fn idiosyncratic_raw_ids() -> (r: [&'static str; 9])
    ensures
        strs_view(r@) == idiosyncratic_ids(),
{
    let r = [
        ID_RV_5MIN_RAW_ID,
        ID_VAR90_5MIN_RAW_ID,
        ID_VAR95_5MIN_RAW_ID,
        ID_CVAR90_5MIN_RAW_ID,
        ID_CVAR95_5MIN_RAW_ID,
        ID_VAR90_RT_5MIN_RAW_ID,
        ID_VAR95_RT_5MIN_RAW_ID,
        ID_CVAR90_RT_5MIN_RAW_ID,
        ID_CVAR95_RT_5MIN_RAW_ID,
    ];
    assert(strs_view(r@) =~= idiosyncratic_ids());
    r
}

/// The raw ids of `family`.
pub fn raw_ids_for_family(family: DbzqRawFamily) -> (r: Vec<&'static str>)
    ensures
        strs_view(r@) == family_ids(family),
{
    let ids: [&'static str; 9] = match family {
        DbzqRawFamily::Ordinary => ordinary_raw_ids(),
        DbzqRawFamily::Idiosyncratic => idiosyncratic_raw_ids(),
    };
    let mut out: Vec<&'static str> = Vec::new();
    let mut i: usize = 0;
    while i < 9
        invariant
            i <= 9,
            out@ =~= ids@.subrange(0, i as int),
        decreases 9 - i,
    {
        out.push(ids[i]);
        i = i + 1;
    }
    assert(out@ =~= ids@);
    out
}

/// The raw specification of series `raw_id`: stock 1-minute closes, one day.
pub open spec fn risk_raw_view(raw_id: Seq<char>) -> IntradayDailyRawSpecView {
    stock_minute_raw_view(raw_id, RAW_VERSION@, seq!["close"@], RAW_WINDOW_DAYS)
}

/// The raw specification of series `raw_id`.
pub fn raw_spec(raw_id: &str) -> (r: IntradayDailyRawSpec)
    ensures
        r@ == risk_raw_view(raw_id@),
{
    let columns: [&str; 1] = ["close"];
    let r = stock_minute_raw_spec(raw_id, RAW_VERSION, &columns, RAW_WINDOW_DAYS);
    assert(strs_view(columns@) =~= seq!["close"@]);
    r
}

/// The raw specifications of `ids`, in order.
fn raw_specs_of(ids: &[&'static str]) -> (r: Vec<IntradayDailyRawSpec>)
    ensures
        r@.map_values(|s: IntradayDailyRawSpec| s@) == strs_view(ids@).map_values(
            |id: Seq<char>| risk_raw_view(id),
        ),
{
    let mut out: Vec<IntradayDailyRawSpec> = Vec::new();
    let mut i: usize = 0;
    while i < ids.len()
        invariant
            i <= ids@.len(),
            out@.map_values(|s: IntradayDailyRawSpec| s@) =~= strs_view(ids@.subrange(0, i as int)).map_values(
                |id: Seq<char>| risk_raw_view(id),
            ),
        decreases ids@.len() - i,
    {
        let ghost before = out@;
        out.push(raw_spec(ids[i]));
        proof {
            assert(ids@.subrange(0, i + 1) =~= ids@.subrange(0, i as int).push(ids@[i as int]));
            assert(strs_view(ids@.subrange(0, i + 1)) =~= strs_view(ids@.subrange(0, i as int)).push(ids@[i as int]@));
            assert(out@.map_values(|s: IntradayDailyRawSpec| s@) =~= before.map_values(|s: IntradayDailyRawSpec| s@).push(risk_raw_view(ids@[i as int]@)));
        }
        i = i + 1;
    }
    assert(ids@.subrange(0, ids@.len() as int) =~= ids@);
    out
}

/// The raw specifications of every series.
pub fn raw_specs() -> (r: Vec<IntradayDailyRawSpec>)
    ensures
        r@.map_values(|s: IntradayDailyRawSpec| s@) == (ordinary_ids() + idiosyncratic_ids()).map_values(
            |id: Seq<char>| risk_raw_view(id),
        ),
{
    let ids = all_raw_ids();
    raw_specs_of(&ids)
}

/// The raw specifications of the return-based series.
pub fn ordinary_raw_specs() -> (r: Vec<IntradayDailyRawSpec>)
    ensures
        r@.map_values(|s: IntradayDailyRawSpec| s@) == ordinary_ids().map_values(
            |id: Seq<char>| risk_raw_view(id),
        ),
{
    let ids = ordinary_raw_ids();
    raw_specs_of(&ids)
}

/// The raw specifications of the residual-based series.
pub fn idiosyncratic_raw_specs() -> (r: Vec<IntradayDailyRawSpec>)
    ensures
        r@.map_values(|s: IntradayDailyRawSpec| s@) == idiosyncratic_ids().map_values(
            |id: Seq<char>| risk_raw_view(id),
        ),
{
    let ids = idiosyncratic_raw_ids();
    raw_specs_of(&ids)
}

/// The factor ids of the 90% parameter variants, which are deprecated.
pub open spec fn deprecated_ids() -> Seq<Seq<char>> {
    seq![
        "var90_week"@,
        "cvar90_week"@,
        "var90_rt_week"@,
        "cvar90_rt_week"@,
        "vovar90"@,
        "vocvar90"@,
        "vovar90_rt"@,
        "vocvar90_rt"@,
        "id_var90_week"@,
        "id_cvar90_week"@,
        "id_var90_rt_week"@,
        "id_cvar90_rt_week"@,
        "id_vovar90"@,
        "id_vocvar90"@,
        "id_vovar90_rt"@,
        "id_vocvar90_rt"@,
    ]
}

/// Whether factor `id` is deprecated.
pub fn is_deprecated_factor_id(id: &str) -> (r: bool)
    ensures
        r == deprecated_ids().contains(id@),
{
    let ids: [&str; 16] = [
        "var90_week",
        "cvar90_week",
        "var90_rt_week",
        "cvar90_rt_week",
        "vovar90",
        "vocvar90",
        "vovar90_rt",
        "vocvar90_rt",
        "id_var90_week",
        "id_cvar90_week",
        "id_var90_rt_week",
        "id_cvar90_rt_week",
        "id_vovar90",
        "id_vocvar90",
        "id_vovar90_rt",
        "id_vocvar90_rt",
    ];
    assert(strs_view(ids@) =~= deprecated_ids());
    let mut i: usize = 0;
    while i < 16
        invariant
            i <= 16,
            strs_view(ids@) == deprecated_ids(),
            forall|j: int| 0 <= j < i ==> deprecated_ids()[j] != id@,
        decreases 16 - i,
    {
        if str_eq(ids[i], id) {
            assert(deprecated_ids()[i as int] == id@);
            return true;
        }
        i = i + 1;
    }
    false
}

/// The tags every DBZQ 5-minute risk factor carries.
pub open spec fn base_tags() -> Seq<Seq<char>> {
    seq![
        "price_volume"@,
        "return"@,
        "risk"@,
        "tail_risk"@,
        "intraday"@,
        "minute_agg"@,
        "neutralize"@,
        "barra"@,
        "size"@,
        "sector"@,
        "daily"@,
        "DBZQ"@,
    ]
}

/// The tags of factor `id`: the common ones, and `deprecated` for a
/// deprecated factor.
pub open spec fn risk_tags(id: Seq<char>) -> Seq<Seq<char>> {
    if deprecated_ids().contains(id) {
        base_tags().push("deprecated"@)
    } else {
        base_tags()
    }
}

/// The tags of factor `id`.
pub fn tags(id: &str) -> (r: Vec<String>)
    ensures
        strings_view(r@) == risk_tags(id@),
{
    let base: [&str; 12] = [
        "price_volume",
        "return",
        "risk",
        "tail_risk",
        "intraday",
        "minute_agg",
        "neutralize",
        "barra",
        "size",
        "sector",
        "daily",
        "DBZQ",
    ];
    let mut values = owned_strings(&base);
    assert(strs_view(base@) =~= base_tags());
    if is_deprecated_factor_id(id) {
        let ghost before = values@;
        values.push("deprecated".to_owned());
        assert(strings_view(values@) =~= strings_view(before).push("deprecated"@));
    }
    values
}

/// The daily data the factors read: Barra size and SW level-1 sector.
pub fn dependencies() -> (r: Vec<DataRequest>)
    ensures
        r@.map_values(|d: DataRequest| d@) == size_sector_requests(),
{
    size_sector_dependencies()
}

/// Trading days of history a postprocess needs.
pub open spec fn postprocess_lookback(p: DbzqPostProcess) -> usize {
    match p {
        DbzqPostProcess::WeekMean => (WEEK_WINDOW - 1) as usize,
        DbzqPostProcess::Uncertainty => (UNCERTAINTY_WINDOW - 1) as usize,
    }
}

/// The published definition of factor `def`.
pub open spec fn risk_factor_view(def: DbzqFactorDef) -> FactorSpecView {
    FactorSpecView {
        id: def.id@,
        aliases: seq![def.alias@],
        name: def.name@,
        asset_class: AssetClass::Stock,
        frequency: Frequency::Daily,
        version: VERSION@,
        tags: risk_tags(def.id@),
        description: def.name@
            + " based on 5-minute intraday log returns and neutralized by Barra SIZE and SW sector."@,
        dependencies: size_sector_requests(),
        intraday_raw_dependencies: seq![
            IntradayDailyRawRequestView { raw_id: def.raw_id@, lookback: postprocess_lookback(def.postprocess) },
        ],
        lookback: postprocess_lookback(def.postprocess),
    }
}

/// The published definition of factor `def`.
pub fn factor_spec(def: DbzqFactorDef) -> (r: FactorSpec)
    ensures
        r@ == risk_factor_view(def),
{
    let lookback: usize = match def.postprocess {
        DbzqPostProcess::WeekMean => WEEK_WINDOW - 1,
        DbzqPostProcess::Uncertainty => UNCERTAINTY_WINDOW - 1,
    };
    let mut aliases: Vec<String> = Vec::new();
    aliases.push(def.alias.to_owned());
    let mut raw_dependencies: Vec<IntradayDailyRawRequest> = Vec::new();
    raw_dependencies.push(IntradayDailyRawRequest::new(def.raw_id, lookback));
    let description = def.name.to_owned().concat(
        " based on 5-minute intraday log returns and neutralized by Barra SIZE and SW sector.",
    );
    let r = FactorSpec {
        id: def.id.to_owned(),
        aliases,
        name: def.name.to_owned(),
        asset_class: AssetClass::Stock,
        frequency: Frequency::Daily,
        version: VERSION.to_owned(),
        tags: tags(def.id),
        description,
        dependencies: dependencies(),
        intraday_raw_dependencies: raw_dependencies,
        lookback: Lookback { trading_days: lookback },
    };
    assert(strings_view(r.aliases@) =~= seq![def.alias@]);
    assert(r.intraday_raw_dependencies@.map_values(|q: IntradayDailyRawRequest| q@) =~= seq![
        IntradayDailyRawRequestView { raw_id: def.raw_id@, lookback: postprocess_lookback(def.postprocess) },
    ]);
    r
}

/// Seconds since midnight of `hour`:`minute`.
pub open spec fn spec_seconds(hour: int, minute: int) -> int {
    hour * 3600 + minute * 60
}

/// Seconds since midnight of `hour`:`minute`.
pub fn seconds(hour: i32, minute: i32) -> (r: i32)
    requires
        i32::MIN <= hour * 3600 <= i32::MAX,
        i32::MIN <= minute * 60 <= i32::MAX,
        i32::MIN <= hour * 3600 + minute * 60 <= i32::MAX,
    ensures
        r == spec_seconds(hour as int, minute as int),
{
    hour * 3600 + minute * 60
}

/// The 49 sampling times of a trading day, in seconds since midnight:
/// 09:30, every five minutes to 11:30, then every five minutes from 13:05 to 15:00.
pub open spec fn anchor_grid() -> Seq<i32> {
    Seq::new(
        49,
        |k: int|
            if k <= 24 {
                (34_200 + 300 * k) as i32
            } else {
                (46_800 + 300 * (k - 24)) as i32
            },
    )
}

/// The 5-minute sampling times of a trading day, in seconds since midnight.
pub fn anchor_seconds() -> (r: Vec<i32>)
    ensures
        r@ == anchor_grid(),
{
    let mut anchors: Vec<i32> = Vec::new();
    anchors.push(seconds(9, 30));
    let mut minute: i32 = 35;
    while minute <= 150
        invariant
            35 <= minute <= 155,
            minute % 5 == 0,
            anchors@.len() == (minute - 30) / 5,
            forall|k: int| 0 <= k < anchors@.len() ==> #[trigger] anchors@[k] == anchor_grid()[k],
        decreases 155 - minute,
    {
        let (hour, minute_in_hour) = if minute < 60 {
            (9, minute)
        } else {
            (10 + (minute - 60) / 60, (minute - 60) % 60)
        };
        let s = seconds(hour, minute_in_hour);
        proof {
            assert(s == 32_400 + 60 * minute) by (nonlinear_arith)
                requires
                    s == hour * 3600 + minute_in_hour * 60,
                    minute < 60 ==> hour == 9 && minute_in_hour == minute,
                    minute >= 60 ==> hour == 10 + (minute - 60) / 60 && minute_in_hour == (minute - 60) % 60,
                    minute >= 35,
            ;
        }
        anchors.push(s);
        minute = minute + 5;
    }
    let mut afternoon_minute: i32 = 5;
    while afternoon_minute <= 120
        invariant
            5 <= afternoon_minute <= 125,
            afternoon_minute % 5 == 0,
            anchors@.len() == 24 + afternoon_minute / 5,
            forall|k: int| 0 <= k < anchors@.len() ==> #[trigger] anchors@[k] == anchor_grid()[k],
        decreases 125 - afternoon_minute,
    {
        let (hour, minute_in_hour) = if afternoon_minute < 60 {
            (13, afternoon_minute)
        } else {
            (14 + (afternoon_minute - 60) / 60, (afternoon_minute - 60) % 60)
        };
        let s = seconds(hour, minute_in_hour);
        proof {
            assert(s == 46_800 + 60 * afternoon_minute) by (nonlinear_arith)
                requires
                    s == hour * 3600 + minute_in_hour * 60,
                    afternoon_minute < 60 ==> hour == 13 && minute_in_hour == afternoon_minute,
                    afternoon_minute >= 60 ==> hour == 14 + (afternoon_minute - 60) / 60 && minute_in_hour
                        == (afternoon_minute - 60) % 60,
                    afternoon_minute >= 5,
            ;
        }
        anchors.push(s);
        afternoon_minute = afternoon_minute + 5;
    }
    assert(anchors@ =~= anchor_grid());
    anchors
}

/// The raw ids of the risk family, ordinary then residual-based, are
/// pairwise distinct: no two statistics share a raw series.
pub proof fn lemma_risk_raw_ids_distinct()
    ensures
        forall|a: int, b: int|
            0 <= a < b < (ordinary_ids() + idiosyncratic_ids()).len() ==> (ordinary_ids() + idiosyncratic_ids())[a]
                != (ordinary_ids() + idiosyncratic_ids())[b],
{
    let s = ordinary_ids() + idiosyncratic_ids();
    reveal_strlit("rv_5min");
    reveal_strlit("var90_5min");
    reveal_strlit("var95_5min");
    reveal_strlit("cvar90_5min");
    reveal_strlit("cvar95_5min");
    reveal_strlit("var90_rt_5min");
    reveal_strlit("var95_rt_5min");
    reveal_strlit("cvar90_rt_5min");
    reveal_strlit("cvar95_rt_5min");
    reveal_strlit("id_rv_5min");
    reveal_strlit("id_var90_5min");
    reveal_strlit("id_var95_5min");
    reveal_strlit("id_cvar90_5min");
    reveal_strlit("id_cvar95_5min");
    reveal_strlit("id_var90_rt_5min");
    reveal_strlit("id_var95_rt_5min");
    reveal_strlit("id_cvar90_rt_5min");
    reveal_strlit("id_cvar95_rt_5min");
    assert(s.len() == 18);
    assert(s[0] == "rv_5min"@) by { assert(RV_5MIN_RAW_ID@ == "rv_5min"@); }
    assert(s[1] == "var90_5min"@) by { assert(VAR90_5MIN_RAW_ID@ == "var90_5min"@); }
    assert(s[2] == "var95_5min"@) by { assert(VAR95_5MIN_RAW_ID@ == "var95_5min"@); }
    assert(s[3] == "cvar90_5min"@) by { assert(CVAR90_5MIN_RAW_ID@ == "cvar90_5min"@); }
    assert(s[4] == "cvar95_5min"@) by { assert(CVAR95_5MIN_RAW_ID@ == "cvar95_5min"@); }
    assert(s[5] == "var90_rt_5min"@) by { assert(VAR90_RT_5MIN_RAW_ID@ == "var90_rt_5min"@); }
    assert(s[6] == "var95_rt_5min"@) by { assert(VAR95_RT_5MIN_RAW_ID@ == "var95_rt_5min"@); }
    assert(s[7] == "cvar90_rt_5min"@) by { assert(CVAR90_RT_5MIN_RAW_ID@ == "cvar90_rt_5min"@); }
    assert(s[8] == "cvar95_rt_5min"@) by { assert(CVAR95_RT_5MIN_RAW_ID@ == "cvar95_rt_5min"@); }
    assert(s[9] == "id_rv_5min"@) by { assert(ID_RV_5MIN_RAW_ID@ == "id_rv_5min"@); }
    assert(s[10] == "id_var90_5min"@) by { assert(ID_VAR90_5MIN_RAW_ID@ == "id_var90_5min"@); }
    assert(s[11] == "id_var95_5min"@) by { assert(ID_VAR95_5MIN_RAW_ID@ == "id_var95_5min"@); }
    assert(s[12] == "id_cvar90_5min"@) by { assert(ID_CVAR90_5MIN_RAW_ID@ == "id_cvar90_5min"@); }
    assert(s[13] == "id_cvar95_5min"@) by { assert(ID_CVAR95_5MIN_RAW_ID@ == "id_cvar95_5min"@); }
    assert(s[14] == "id_var90_rt_5min"@) by { assert(ID_VAR90_RT_5MIN_RAW_ID@ == "id_var90_rt_5min"@); }
    assert(s[15] == "id_var95_rt_5min"@) by { assert(ID_VAR95_RT_5MIN_RAW_ID@ == "id_var95_rt_5min"@); }
    assert(s[16] == "id_cvar90_rt_5min"@) by { assert(ID_CVAR90_RT_5MIN_RAW_ID@ == "id_cvar90_rt_5min"@); }
    assert(s[17] == "id_cvar95_rt_5min"@) by { assert(ID_CVAR95_RT_5MIN_RAW_ID@ == "id_cvar95_rt_5min"@); }
    assert(s[0].len() != s[1].len());
    assert(s[0].len() != s[2].len());
    assert(s[0].len() != s[3].len());
    assert(s[0].len() != s[4].len());
    assert(s[0].len() != s[5].len());
    assert(s[0].len() != s[6].len());
    assert(s[0].len() != s[7].len());
    assert(s[0].len() != s[8].len());
    assert(s[0].len() != s[9].len());
    assert(s[0].len() != s[10].len());
    assert(s[0].len() != s[11].len());
    assert(s[0].len() != s[12].len());
    assert(s[0].len() != s[13].len());
    assert(s[0].len() != s[14].len());
    assert(s[0].len() != s[15].len());
    assert(s[0].len() != s[16].len());
    assert(s[0].len() != s[17].len());
    assert(s[1][4] != s[2][4]);
    assert(s[1].len() != s[3].len());
    assert(s[1].len() != s[4].len());
    assert(s[1].len() != s[5].len());
    assert(s[1].len() != s[6].len());
    assert(s[1].len() != s[7].len());
    assert(s[1].len() != s[8].len());
    assert(s[1][0] != s[9][0]);
    assert(s[1].len() != s[10].len());
    assert(s[1].len() != s[11].len());
    assert(s[1].len() != s[12].len());
    assert(s[1].len() != s[13].len());
    assert(s[1].len() != s[14].len());
    assert(s[1].len() != s[15].len());
    assert(s[1].len() != s[16].len());
    assert(s[1].len() != s[17].len());
    assert(s[2].len() != s[3].len());
    assert(s[2].len() != s[4].len());
    assert(s[2].len() != s[5].len());
    assert(s[2].len() != s[6].len());
    assert(s[2].len() != s[7].len());
    assert(s[2].len() != s[8].len());
    assert(s[2][0] != s[9][0]);
    assert(s[2].len() != s[10].len());
    assert(s[2].len() != s[11].len());
    assert(s[2].len() != s[12].len());
    assert(s[2].len() != s[13].len());
    assert(s[2].len() != s[14].len());
    assert(s[2].len() != s[15].len());
    assert(s[2].len() != s[16].len());
    assert(s[2].len() != s[17].len());
    assert(s[3][5] != s[4][5]);
    assert(s[3].len() != s[5].len());
    assert(s[3].len() != s[6].len());
    assert(s[3].len() != s[7].len());
    assert(s[3].len() != s[8].len());
    assert(s[3].len() != s[9].len());
    assert(s[3].len() != s[10].len());
    assert(s[3].len() != s[11].len());
    assert(s[3].len() != s[12].len());
    assert(s[3].len() != s[13].len());
    assert(s[3].len() != s[14].len());
    assert(s[3].len() != s[15].len());
    assert(s[3].len() != s[16].len());
    assert(s[3].len() != s[17].len());
    assert(s[4].len() != s[5].len());
    assert(s[4].len() != s[6].len());
    assert(s[4].len() != s[7].len());
    assert(s[4].len() != s[8].len());
    assert(s[4].len() != s[9].len());
    assert(s[4].len() != s[10].len());
    assert(s[4].len() != s[11].len());
    assert(s[4].len() != s[12].len());
    assert(s[4].len() != s[13].len());
    assert(s[4].len() != s[14].len());
    assert(s[4].len() != s[15].len());
    assert(s[4].len() != s[16].len());
    assert(s[4].len() != s[17].len());
    assert(s[5][4] != s[6][4]);
    assert(s[5].len() != s[7].len());
    assert(s[5].len() != s[8].len());
    assert(s[5].len() != s[9].len());
    assert(s[5][0] != s[10][0]);
    assert(s[5][0] != s[11][0]);
    assert(s[5].len() != s[12].len());
    assert(s[5].len() != s[13].len());
    assert(s[5].len() != s[14].len());
    assert(s[5].len() != s[15].len());
    assert(s[5].len() != s[16].len());
    assert(s[5].len() != s[17].len());
    assert(s[6].len() != s[7].len());
    assert(s[6].len() != s[8].len());
    assert(s[6].len() != s[9].len());
    assert(s[6][0] != s[10][0]);
    assert(s[6][0] != s[11][0]);
    assert(s[6].len() != s[12].len());
    assert(s[6].len() != s[13].len());
    assert(s[6].len() != s[14].len());
    assert(s[6].len() != s[15].len());
    assert(s[6].len() != s[16].len());
    assert(s[6].len() != s[17].len());
    assert(s[7][5] != s[8][5]);
    assert(s[7].len() != s[9].len());
    assert(s[7].len() != s[10].len());
    assert(s[7].len() != s[11].len());
    assert(s[7][0] != s[12][0]);
    assert(s[7][0] != s[13][0]);
    assert(s[7].len() != s[14].len());
    assert(s[7].len() != s[15].len());
    assert(s[7].len() != s[16].len());
    assert(s[7].len() != s[17].len());
    assert(s[8].len() != s[9].len());
    assert(s[8].len() != s[10].len());
    assert(s[8].len() != s[11].len());
    assert(s[8][0] != s[12][0]);
    assert(s[8][0] != s[13][0]);
    assert(s[8].len() != s[14].len());
    assert(s[8].len() != s[15].len());
    assert(s[8].len() != s[16].len());
    assert(s[8].len() != s[17].len());
    assert(s[9].len() != s[10].len());
    assert(s[9].len() != s[11].len());
    assert(s[9].len() != s[12].len());
    assert(s[9].len() != s[13].len());
    assert(s[9].len() != s[14].len());
    assert(s[9].len() != s[15].len());
    assert(s[9].len() != s[16].len());
    assert(s[9].len() != s[17].len());
    assert(s[10][7] != s[11][7]);
    assert(s[10].len() != s[12].len());
    assert(s[10].len() != s[13].len());
    assert(s[10].len() != s[14].len());
    assert(s[10].len() != s[15].len());
    assert(s[10].len() != s[16].len());
    assert(s[10].len() != s[17].len());
    assert(s[11].len() != s[12].len());
    assert(s[11].len() != s[13].len());
    assert(s[11].len() != s[14].len());
    assert(s[11].len() != s[15].len());
    assert(s[11].len() != s[16].len());
    assert(s[11].len() != s[17].len());
    assert(s[12][8] != s[13][8]);
    assert(s[12].len() != s[14].len());
    assert(s[12].len() != s[15].len());
    assert(s[12].len() != s[16].len());
    assert(s[12].len() != s[17].len());
    assert(s[13].len() != s[14].len());
    assert(s[13].len() != s[15].len());
    assert(s[13].len() != s[16].len());
    assert(s[13].len() != s[17].len());
    assert(s[14][7] != s[15][7]);
    assert(s[14].len() != s[16].len());
    assert(s[14].len() != s[17].len());
    assert(s[15].len() != s[16].len());
    assert(s[15].len() != s[17].len());
    assert(s[16][8] != s[17][8]);
    assert forall|a: int, b: int| 0 <= a < b < s.len() implies s[a] != s[b] by {
        assert(a == 0 || a == 1 || a == 2 || a == 3 || a == 4 || a == 5 || a == 6 || a == 7 || a == 8 || a == 9 || a == 10 || a == 11 || a == 12 || a == 13 || a == 14 || a == 15 || a == 16 || a == 17);
        assert(b == 0 || b == 1 || b == 2 || b == 3 || b == 4 || b == 5 || b == 6 || b == 7 || b == 8 || b == 9 || b == 10 || b == 11 || b == 12 || b == 13 || b == 14 || b == 15 || b == 16 || b == 17);
    }
}

} // verus!
