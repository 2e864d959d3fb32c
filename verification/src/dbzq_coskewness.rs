//! DBZQ coskewness factors: their published definitions.
use vstd::prelude::*;
use crate::catalog::{
    AssetClass,
    DataRequest,
    DataRequestView,
    DatasetId,
    FactorSpec,
    FactorSpecView,
    Frequency,
    IntradayDailyRawRequest,
    Lookback,
    index_request,
    owned_strings,
    plain_request,
    strings_view,
    strs_view,
};

verus! {

/// Version of the factors.
pub const VERSION: &'static str = "0.1.0";
/// The market index the returns are compared with.
pub const MARKET_INDEX: &'static str = "000985.CSI";
/// Trading days of the coskewness window.
pub const WINDOW: usize = 120;

/// Which market moves the coskewness conditions on.
#[derive(Clone, Copy, Debug, Eq, PartialEq, Structural)]
pub enum CoskewnessMode {
    Full,
    Up,
    Down,
}

/// The definition of one coskewness factor.
#[derive(Clone, Copy, Debug)]
pub struct CoskewnessFactorDef {
    pub id: &'static str,
    pub alias: &'static str,
    pub name: &'static str,
    pub mode: CoskewnessMode,
}

/// The tags of the coskewness factors.
pub open spec fn coskewness_tags() -> Seq<Seq<char>> {
    seq![
        "price"@,
        "return"@,
        "coskewness"@,
        "market"@,
        "neutralize"@,
        "barra"@,
        "size"@,
        "sector"@,
        "daily"@,
        "DBZQ"@,
    ]
}

/// The data the coskewness factors read: closes, adjustment factors, the
/// market index, Barra size and SW sector.
pub open spec fn coskewness_dependencies() -> Seq<DataRequestView> {
    seq![
        plain_request(DatasetId::StockDailyPv, seq!["close"@]),
        plain_request(DatasetId::StockAdjFactor, seq!["adj_factor"@]),
        index_request(MARKET_INDEX@, seq!["close"@, "pre_close"@]),
        plain_request(DatasetId::StockBarraDaily, seq!["SIZE"@]),
        plain_request(DatasetId::StockSwClassification, seq!["l1_code"@]),
    ]
}

/// The published definition of `def`.
pub open spec fn coskewness_factor_view(def: CoskewnessFactorDef) -> FactorSpecView {
    FactorSpecView {
        id: def.id@,
        aliases: seq![def.alias@],
        name: def.name@,
        asset_class: AssetClass::Stock,
        frequency: Frequency::Daily,
        version: VERSION@,
        tags: coskewness_tags(),
        description: def.name@
            + " from 120-day adjusted stock returns and 000985.CSI market returns, z-scored and neutralized by Barra SIZE and SW sector."@,
        dependencies: coskewness_dependencies(),
        intraday_raw_dependencies: Seq::empty(),
        lookback: WINDOW,
    }
}

/// The published definition of `def`.
pub fn factor_spec(def: CoskewnessFactorDef) -> (r: FactorSpec)
    ensures
        r@ == coskewness_factor_view(def),
{
    let tag_items: [&str; 10] = [
        "price",
        "return",
        "coskewness",
        "market",
        "neutralize",
        "barra",
        "size",
        "sector",
        "daily",
        "DBZQ",
    ];
    let close: [&str; 1] = ["close"];
    let adj: [&str; 1] = ["adj_factor"];
    let index_columns: [&str; 2] = ["close", "pre_close"];
    let size: [&str; 1] = ["SIZE"];
    let sector: [&str; 1] = ["l1_code"];
    let mut dependencies: Vec<DataRequest> = Vec::new();
    dependencies.push(DataRequest::new(DatasetId::StockDailyPv, &close));
    dependencies.push(DataRequest::new(DatasetId::StockAdjFactor, &adj));
    dependencies.push(DataRequest::index_daily(MARKET_INDEX, &index_columns));
    dependencies.push(DataRequest::new(DatasetId::StockBarraDaily, &size));
    dependencies.push(DataRequest::new(DatasetId::StockSwClassification, &sector));
    let mut aliases: Vec<String> = Vec::new();
    aliases.push(def.alias.to_owned());
    let description = def.name.to_owned().concat(
        " from 120-day adjusted stock returns and 000985.CSI market returns, z-scored and neutralized by Barra SIZE and SW sector.",
    );
    let r = FactorSpec {
        id: def.id.to_owned(),
        aliases,
        name: def.name.to_owned(),
        asset_class: AssetClass::Stock,
        frequency: Frequency::Daily,
        version: VERSION.to_owned(),
        tags: owned_strings(&tag_items),
        description,
        dependencies,
        intraday_raw_dependencies: Vec::new(),
        lookback: Lookback { trading_days: WINDOW },
    };
    assert(strs_view(tag_items@) =~= coskewness_tags());
    assert(strs_view(close@) =~= seq!["close"@]);
    assert(strs_view(adj@) =~= seq!["adj_factor"@]);
    assert(strs_view(index_columns@) =~= seq!["close"@, "pre_close"@]);
    assert(strs_view(size@) =~= seq!["SIZE"@]);
    assert(strs_view(sector@) =~= seq!["l1_code"@]);
    assert(strings_view(r.aliases@) =~= seq![def.alias@]);
    assert(r.dependencies@.map_values(|d: DataRequest| d@) =~= coskewness_dependencies());
    assert(r.intraday_raw_dependencies@.map_values(|q: IntradayDailyRawRequest| q@) =~= Seq::empty());
    r
}

} // verus!
