//! Earnings-announcement reaction factors: output ids, published
//! definitions, and locating the announcement in the trading calendar.
use vstd::prelude::*;
use crate::catalog::{
    AssetClass,
    DataRequest,
    DataRequestView,
    DatasetId,
    FactorSpec,
    FactorSpecView,
    Frequency,
    IntradayDailyRawRequest,
    Lookback,
    index_request,
    owned_strings,
    plain_request,
    quarters_request,
    str_eq,
    strings_view,
    strs_view,
};
use crate::dates::{first_date_on_or_after, spec_first_on_or_after};
use crate::financial_pit::{FinancialPitReader, IndexedRow, latest_end, seen_record};
use crate::panel::DailyPanel;

verus! {

/// Key of the provider that computes both outputs.
pub const PROVIDER_KEY: &'static str = "stock|daily|earnings_reaction_gaussian";
/// The market index returns are compared with.
pub const MARKET_INDEX: &'static str = "000985.CSI";
/// Version of the factors.
pub const VERSION: &'static str = "0.1.0";
/// Trading days of history the factors read.
pub const LOOKBACK: usize = 252;
/// Financial quarters the factors read.
pub const FINANCIAL_QUARTERS: usize = 8;

/// The two outputs.
#[derive(Clone, Copy, Debug, Eq, PartialEq, Structural, Ord, PartialOrd)]
pub enum EarningsReactionOutput {
    GapIndustryExcess,
    TurnoverMarketExcess,
}

/// The id of `kind`.
pub open spec fn output_id(kind: EarningsReactionOutput) -> Seq<char> {
    match kind {
        EarningsReactionOutput::GapIndustryExcess => "earnings_gap_ind_excess_gauss_resid"@,
        EarningsReactionOutput::TurnoverMarketExcess => "earnings_turnover_mkt_excess_gauss_resid"@,
    }
}

/// The alias of `kind`.
pub open spec fn output_alias(kind: EarningsReactionOutput) -> Seq<char> {
    match kind {
        EarningsReactionOutput::GapIndustryExcess => "Earnings Next-Day Gap Industry Excess Gaussian Residual"@,
        EarningsReactionOutput::TurnoverMarketExcess => "Earnings Next-Day Turnover Market Excess Gaussian Residual"@,
    }
}

impl EarningsReactionOutput {
    /// The factor id of this output.
    pub fn id(self) -> (r: &'static str)
        ensures
            r@ == output_id(self),
    {
        match self {
            EarningsReactionOutput::GapIndustryExcess => "earnings_gap_ind_excess_gauss_resid",
            EarningsReactionOutput::TurnoverMarketExcess => "earnings_turnover_mkt_excess_gauss_resid",
        }
    }

    /// The alias of this output.
    pub fn alias(self) -> (r: &'static str)
        ensures
            r@ == output_alias(self),
    {
        match self {
            EarningsReactionOutput::GapIndustryExcess => "Earnings Next-Day Gap Industry Excess Gaussian Residual",
            EarningsReactionOutput::TurnoverMarketExcess => "Earnings Next-Day Turnover Market Excess Gaussian Residual",
        }
    }

    /// The output whose id is `id`.
    pub fn from_id(id: &str) -> (r: Option<Self>)
        ensures
            match r {
                Some(kind) => output_id(kind) == id@,
                None => id@ != output_id(EarningsReactionOutput::GapIndustryExcess) && id@ != output_id(
                    EarningsReactionOutput::TurnoverMarketExcess,
                ),
            },
    {
        if str_eq(id, "earnings_gap_ind_excess_gauss_resid") {
            Some(EarningsReactionOutput::GapIndustryExcess)
        } else if str_eq(id, "earnings_turnover_mkt_excess_gauss_resid") {
            Some(EarningsReactionOutput::TurnoverMarketExcess)
        } else {
            None
        }
    }
}

/// A factor computing one earnings reaction output.
#[derive(Clone, Copy, Debug)]
pub struct EarningsReactionGaussianFactor {
    pub kind: EarningsReactionOutput,
}

impl EarningsReactionGaussianFactor {
    /// The factor of output `kind`.
    pub fn new(kind: EarningsReactionOutput) -> (r: Self)
        ensures
            r.kind == kind,
    {
        EarningsReactionGaussianFactor { kind }
    }

    /// The published definition of this factor.
    pub fn spec(&self) -> (r: FactorSpec)
        ensures
            r@ == earnings_factor_view(self.kind),
    {
        spec(self.kind)
    }
}

/// The tags of the earnings reaction factors.
pub open spec fn earnings_tags() -> Seq<Seq<char>> {
    seq![
        "DFZQ"@,
        "DBZQ"@,
        "financial"@,
        "fundamental"@,
        "earnings_announcement"@,
        "gaussian_rank"@,
        "residual"@,
        "neutralize"@,
        "barra"@,
        "size"@,
        "sector"@,
        "daily"@,
    ]
}

/// The tags of the earnings reaction factors.
pub fn tags() -> (r: Vec<String>)
    ensures
        strings_view(r@) == earnings_tags(),
{
    let items: [&str; 12] = [
        "DFZQ",
        "DBZQ",
        "financial",
        "fundamental",
        "earnings_announcement",
        "gaussian_rank",
        "residual",
        "neutralize",
        "barra",
        "size",
        "sector",
        "daily",
    ];
    assert(strs_view(items@) =~= earnings_tags());
    owned_strings(&items)
}

/// The data the earnings reaction factors read.
pub open spec fn earnings_dependencies() -> Seq<DataRequestView> {
    seq![
        plain_request(DatasetId::StockDailyPv, seq!["open"@, "close"@, "pre_close"@]),
        plain_request(DatasetId::StockDailyBasic, seq!["turnover_rate_f"@]),
        quarters_request(DatasetId::StockIncome, seq!["n_income_attr_p"@], FINANCIAL_QUARTERS),
        plain_request(DatasetId::StockBarraDaily, seq!["SIZE"@]),
        plain_request(DatasetId::StockSwClassification, seq!["l1_code"@]),
        index_request(MARKET_INDEX@, seq!["close"@, "pre_close"@]),
    ]
}

/// The published definition of output `kind`.
pub open spec fn earnings_factor_view(kind: EarningsReactionOutput) -> FactorSpecView {
    FactorSpecView {
        id: output_id(kind),
        aliases: seq![output_alias(kind)],
        name: output_id(kind),
        asset_class: AssetClass::Stock,
        frequency: Frequency::Daily,
        version: VERSION@,
        tags: earnings_tags(),
        description: "Earnings-announcement reaction Gaussian-rank residual factor "@ + output_id(kind)
            + ". It uses latest PIT earnings announcement dates, announcement-next-day reactions, cumulative excess return controls, then SIZE and SW-sector neutralization."@,
        dependencies: earnings_dependencies(),
        intraday_raw_dependencies: Seq::empty(),
        lookback: LOOKBACK,
    }
}

/// The published definition of output `kind`.
pub fn spec(kind: EarningsReactionOutput) -> (r: FactorSpec)
    ensures
        r@ == earnings_factor_view(kind),
{
    let pv: [&str; 3] = ["open", "close", "pre_close"];
    let basic: [&str; 1] = ["turnover_rate_f"];
    let income: [&str; 1] = ["n_income_attr_p"];
    let size: [&str; 1] = ["SIZE"];
    let sector: [&str; 1] = ["l1_code"];
    let index_columns: [&str; 2] = ["close", "pre_close"];
    let mut dependencies: Vec<DataRequest> = Vec::new();
    dependencies.push(DataRequest::new(DatasetId::StockDailyPv, &pv));
    dependencies.push(DataRequest::new(DatasetId::StockDailyBasic, &basic));
    dependencies.push(DataRequest::financial_quarters(DatasetId::StockIncome, &income, FINANCIAL_QUARTERS));
    dependencies.push(DataRequest::new(DatasetId::StockBarraDaily, &size));
    dependencies.push(DataRequest::new(DatasetId::StockSwClassification, &sector));
    dependencies.push(DataRequest::index_daily(MARKET_INDEX, &index_columns));
    let mut aliases: Vec<String> = Vec::new();
    aliases.push(kind.alias().to_owned());
    let description = "Earnings-announcement reaction Gaussian-rank residual factor ".to_owned().concat(
        kind.id(),
    ).concat(
        ". It uses latest PIT earnings announcement dates, announcement-next-day reactions, cumulative excess return controls, then SIZE and SW-sector neutralization.",
    );
    let r = FactorSpec {
        id: kind.id().to_owned(),
        aliases,
        name: kind.id().to_owned(),
        asset_class: AssetClass::Stock,
        frequency: Frequency::Daily,
        version: VERSION.to_owned(),
        tags: tags(),
        description,
        dependencies,
        intraday_raw_dependencies: Vec::new(),
        lookback: Lookback { trading_days: LOOKBACK },
    };
    assert(strs_view(pv@) =~= seq!["open"@, "close"@, "pre_close"@]);
    assert(strs_view(basic@) =~= seq!["turnover_rate_f"@]);
    assert(strs_view(income@) =~= seq!["n_income_attr_p"@]);
    assert(strs_view(size@) =~= seq!["SIZE"@]);
    assert(strs_view(sector@) =~= seq!["l1_code"@]);
    assert(strs_view(index_columns@) =~= seq!["close"@, "pre_close"@]);
    assert(strings_view(r.aliases@) =~= seq![output_alias(kind)]);
    assert(r.dependencies@.map_values(|d: DataRequest| d@) =~= earnings_dependencies());
    assert(r.intraday_raw_dependencies@.map_values(|q: IntradayDailyRawRequest| q@) =~= Seq::empty());
    r
}

/// The disclosure date of the latest quarter `income` sees for `code` on `trade`.
pub open spec fn announcement_date(income: FinancialPitReader, code: Seq<char>, trade: i32) -> Option<i32> {
    match latest_end(income.rows(), income.preference_view(), code, trade, false) {
        Some(e) => match seen_record(income.rows(), income.preference_view(), code, trade, e) {
            Some(row) => Some(row.disclosure_date),
            None => None,
        },
        None => None,
    }
}

/// The panel positions of the trade date on or after the announcement and
/// of the next trade date, when both exist.
pub fn announcement_trade_indices(
    panel: &DailyPanel,
    income: &FinancialPitReader<'_>,
    ts_code: &str,
    trade_date: i32,
) -> (r: Option<(usize, usize)>)
    ensures
        r == match announcement_date(*income, ts_code@, trade_date) {
            Some(ann) => match spec_first_on_or_after(panel.dates_view(), ann) {
                Some(i) => if i + 1 < panel.dates_view().len() {
                    Some((i as usize, (i + 1) as usize))
                } else {
                    None
                },
                None => None,
            },
            None => None,
        },
{
    let end_date = match income.latest_quarter_end_date(ts_code, trade_date) {
        Some(e) => e,
        None => {
            return None;
        },
    };
    let record = match income.record_for_end_date(ts_code, trade_date, end_date) {
        Some(rec) => rec,
        None => {
            return None;
        },
    };
    let ann_date = record.disclosure_date();
    let dates = panel.dates();
    let ann_trade_idx = match first_date_on_or_after(dates, ann_date) {
        Some(i) => i,
        None => {
            return None;
        },
    };
    let n = dates.len();
    if n - ann_trade_idx > 1 {
        Some((ann_trade_idx, ann_trade_idx + 1))
    } else {
        None
    }
}

} // verus!
