//! HAZQ equity composition factors (retained earnings and contributed
//! capital to market cap): published definitions, which outputs a request
//! needs, and the event marker of a stock's balance sheet input.
use vstd::prelude::*;
use crate::catalog::{
    AssetClass,
    DataRequest,
    DataRequestView,
    DatasetId,
    FactorSpec,
    FactorSpecView,
    Frequency,
    IntradayDailyRawRequest,
    Lookback,
    contains_string,
    owned_strings,
    plain_request,
    quarters_request,
    strings_view,
    strs_view,
};
use crate::financial_marker::{
    FinancialEventMarker,
    FinancialEventMarkerBuilder,
    FinancialRecordMarker,
    FinancialStatementDataset,
    canonical,
    same_members,
    seen_marker,
};
use crate::financial_pit::{FinancialPitReader, latest_end};

verus! {

/// Key of the provider that computes both outputs.
pub const PROVIDER_KEY: &'static str = "stock|daily|hazq_equity_composition";
/// Id of the retained earnings to market cap factor.
pub const REP_ID: &'static str = "rep";
/// Id of the contributed capital to market cap factor.
pub const CCP_ID: &'static str = "ccp";
/// Version of the factors.
pub const VERSION: &'static str = "0.1.0";
/// Daily-basic column of total market value.
pub const TOTAL_MV_COLUMN: &'static str = "total_mv";
/// Balance sheet quarters the factors read.
pub const BALANCE_QUARTERS: usize = 4;

/// The outputs.
#[derive(Clone, Copy, Debug, Eq, PartialEq, Structural)]
pub enum HazqEquityCompositionOutput {
    Rep,
    Ccp,
}

/// Which outputs a request names.
#[derive(Clone, Copy, Debug)]
pub struct EquityCompositionNeeds {
    pub rep: bool,
    pub ccp: bool,
}

/// Which outputs `requested_ids` names.
pub fn needs_from_requested(requested_ids: &[String]) -> (r: EquityCompositionNeeds)
    ensures
        r.rep == strings_view(requested_ids@).contains(REP_ID@),
        r.ccp == strings_view(requested_ids@).contains(CCP_ID@),
{
    EquityCompositionNeeds {
        rep: contains_string(requested_ids, REP_ID),
        ccp: contains_string(requested_ids, CCP_ID),
    }
}

/// The tags of both factors.
pub open spec fn equity_tags() -> Seq<Seq<char>> {
    seq![
        "HAZQ"@,
        "financial"@,
        "fundamental"@,
        "pit"@,
        "balance_sheet"@,
        "valuation"@,
        "size_neutralize"@,
        "sector_neutralize"@,
        "daily"@,
    ]
}

/// The tags of both factors.
pub fn tags() -> (r: Vec<String>)
    ensures
        strings_view(r@) == equity_tags(),
{
    let items: [&str; 9] = [
        "HAZQ",
        "financial",
        "fundamental",
        "pit",
        "balance_sheet",
        "valuation",
        "size_neutralize",
        "sector_neutralize",
        "daily",
    ];
    assert(strs_view(items@) =~= equity_tags());
    owned_strings(&items)
}

/// Balance sheet columns `output` reads: undistributed profit and surplus
/// reserve for REP; total share, capital reserve and treasury shares for CCP.
pub open spec fn balance_columns(output: HazqEquityCompositionOutput) -> Seq<Seq<char>> {
    match output {
        HazqEquityCompositionOutput::Rep => seq!["undistr_porfit"@, "surplus_rese"@],
        HazqEquityCompositionOutput::Ccp => seq!["total_share"@, "cap_rese"@, "treasury_share"@],
    }
}

/// The data `output` reads.
pub open spec fn equity_requests(output: HazqEquityCompositionOutput) -> Seq<DataRequestView> {
    seq![
        quarters_request(DatasetId::StockBalanceSheet, balance_columns(output), BALANCE_QUARTERS),
        plain_request(DatasetId::StockDailyBasic, seq!["total_mv"@]),
        plain_request(DatasetId::StockBarraDaily, seq!["SIZE"@]),
        plain_request(DatasetId::StockSwClassification, seq!["l1_code"@]),
    ]
}

/// The data `output` reads.
pub fn dependencies(output: HazqEquityCompositionOutput) -> (r: Vec<DataRequest>)
    ensures
        r@.map_values(|d: DataRequest| d@) == equity_requests(output),
{
    let rep: [&str; 2] = ["undistr_porfit", "surplus_rese"];
    let ccp: [&str; 3] = ["total_share", "cap_rese", "treasury_share"];
    let mv: [&str; 1] = [TOTAL_MV_COLUMN];
    let size: [&str; 1] = ["SIZE"];
    let sector: [&str; 1] = ["l1_code"];
    assert(strs_view(rep@) =~= balance_columns(HazqEquityCompositionOutput::Rep));
    assert(strs_view(ccp@) =~= balance_columns(HazqEquityCompositionOutput::Ccp));
    assert(strs_view(mv@) =~= seq!["total_mv"@]);
    assert(strs_view(size@) =~= seq!["SIZE"@]);
    assert(strs_view(sector@) =~= seq!["l1_code"@]);
    let balance = match output {
        HazqEquityCompositionOutput::Rep => DataRequest::financial_quarters(
            DatasetId::StockBalanceSheet,
            &rep,
            BALANCE_QUARTERS,
        ),
        HazqEquityCompositionOutput::Ccp => DataRequest::financial_quarters(
            DatasetId::StockBalanceSheet,
            &ccp,
            BALANCE_QUARTERS,
        ),
    };
    let mut out: Vec<DataRequest> = Vec::new();
    out.push(balance);
    out.push(DataRequest::new(DatasetId::StockDailyBasic, &mv));
    out.push(DataRequest::new(DatasetId::StockBarraDaily, &size));
    out.push(DataRequest::new(DatasetId::StockSwClassification, &sector));
    assert(out@.map_values(|d: DataRequest| d@) =~= equity_requests(output));
    out
}

/// The id of `output`.
pub open spec fn equity_id(output: HazqEquityCompositionOutput) -> Seq<char> {
    match output {
        HazqEquityCompositionOutput::Rep => REP_ID@,
        HazqEquityCompositionOutput::Ccp => CCP_ID@,
    }
}

/// The aliases of `output`.
pub open spec fn equity_aliases(output: HazqEquityCompositionOutput) -> Seq<Seq<char>> {
    match output {
        HazqEquityCompositionOutput::Rep => seq!["REP"@, "Retained Earnings to Market Cap"@],
        HazqEquityCompositionOutput::Ccp => seq!["CCP"@, "Contributed Capital to Market Cap"@],
    }
}

/// The description of `output`.
pub open spec fn equity_description(output: HazqEquityCompositionOutput) -> Seq<char> {
    match output {
        HazqEquityCompositionOutput::Rep => "HAZQ retained earnings to market cap factor. It uses the latest PIT consolidated balance sheet retained earnings plus surplus reserve divided by raw StockDailyBasic total_mv, then neutralizes the raw ratio by SW level-1 industry and Barra SIZE."@,
        HazqEquityCompositionOutput::Ccp => "HAZQ contributed capital to market cap factor. It uses the latest PIT consolidated balance sheet total share plus capital reserve minus treasury shares divided by raw StockDailyBasic total_mv, then neutralizes the raw ratio by SW level-1 industry and Barra SIZE."@,
    }
}

/// The published definition of `output`.
pub open spec fn equity_factor_view(output: HazqEquityCompositionOutput) -> FactorSpecView {
    FactorSpecView {
        id: equity_id(output),
        aliases: equity_aliases(output),
        name: equity_id(output),
        asset_class: AssetClass::Stock,
        frequency: Frequency::Daily,
        version: VERSION@,
        tags: equity_tags(),
        description: equity_description(output),
        dependencies: equity_requests(output),
        intraday_raw_dependencies: Seq::empty(),
        lookback: 0,
    }
}

/// The published definition of `output`.
pub fn spec(output: HazqEquityCompositionOutput) -> (r: FactorSpec)
    ensures
        r@ == equity_factor_view(output),
{
    let (id, first, second, description) = match output {
        HazqEquityCompositionOutput::Rep => (
            REP_ID,
            "REP",
            "Retained Earnings to Market Cap",
            "HAZQ retained earnings to market cap factor. It uses the latest PIT consolidated balance sheet retained earnings plus surplus reserve divided by raw StockDailyBasic total_mv, then neutralizes the raw ratio by SW level-1 industry and Barra SIZE.",
        ),
        HazqEquityCompositionOutput::Ccp => (
            CCP_ID,
            "CCP",
            "Contributed Capital to Market Cap",
            "HAZQ contributed capital to market cap factor. It uses the latest PIT consolidated balance sheet total share plus capital reserve minus treasury shares divided by raw StockDailyBasic total_mv, then neutralizes the raw ratio by SW level-1 industry and Barra SIZE.",
        ),
    };
    let mut aliases: Vec<String> = Vec::new();
    aliases.push(first.to_owned());
    aliases.push(second.to_owned());
    let r = FactorSpec {
        id: id.to_owned(),
        aliases,
        name: id.to_owned(),
        asset_class: AssetClass::Stock,
        frequency: Frequency::Daily,
        version: VERSION.to_owned(),
        tags: tags(),
        description: description.to_owned(),
        dependencies: dependencies(output),
        intraday_raw_dependencies: Vec::new(),
        lookback: Lookback { trading_days: 0 },
    };
    assert(strings_view(r.aliases@) =~= equity_aliases(output));
    assert(r.intraday_raw_dependencies@.map_values(|q: IntradayDailyRawRequest| q@) =~= Seq::empty());
    r
}

/// The marker of the input of a stock's equity composition snapshot on
/// `trade_date`: the balance sheet version `balance` sees of the latest
/// quarter it sees; none when it sees no quarter.
pub fn equity_composition_marker(
    ts_code: &str,
    trade_date: i32,
    balance: &FinancialPitReader<'_>,
) -> (r: Option<FinancialEventMarker>)
    ensures
        match latest_end(balance.rows(), balance.preference_view(), ts_code@, trade_date, false) {
            None => r is None,
            Some(end) => match seen_marker(
                FinancialStatementDataset::BalanceSheet,
                balance.rows(),
                balance.preference_view(),
                ts_code@,
                trade_date,
                end,
            ) {
                None => r is None,
                Some(rec) => r matches Some(m) && canonical(m@) && same_members(m@.0, seq![rec])
                    && m@.1.len() == 0,
            },
        },
{
    let end_date = match balance.latest_quarter_end_date(ts_code, trade_date) {
        Some(e) => e,
        None => {
            return None;
        },
    };
    let mut builder = FinancialEventMarkerBuilder::new();
    assert(builder@ =~= (Seq::<FinancialRecordMarker>::empty(), Seq::<(Seq<char>, i64)>::empty()));
    builder.include_reader_record_for_end_date(
        FinancialStatementDataset::BalanceSheet,
        balance,
        ts_code,
        trade_date,
        end_date,
    );
    let r = builder.build();
    proof {
        if r is Some && r->0@.1.len() > 0 {
            assert(r->0@.1.contains(r->0@.1[0]));
        }
    }
    r
}

} // verus!
