//! Financial similarity factors: output ids and published definitions.
use vstd::prelude::*;
use crate::catalog::{
    AssetClass,
    DataRequest,
    DataRequestView,
    DatasetId,
    FactorSpec,
    FactorSpecView,
    Frequency,
    IntradayDailyRawRequest,
    Lookback,
    owned_strings,
    plain_request,
    quarters_request,
    strings_view,
    strs_view,
};
use crate::dates::{
    previous_quarter_end_date,
    same_quarter_previous_year,
    spec_previous_quarter_end_date,
    spec_same_quarter_previous_year,
};
use crate::financial_marker::{
    FinancialEventMarker,
    FinancialEventMarkerBuilder,
    FinancialRecordMarker,
    FinancialStatementDataset,
    MarkerContent,
    canonical,
    same_members,
    seen_marker,
    with_quarters,
    with_record,
};
use crate::financial_pit::{FinancialPitReader, latest_end};

verus! {

/// Id of the financial-similarity momentum factor.
pub const F_MOMENTUM_80PEC_ID: &'static str = "f_momentum_80pec";
/// Id of the financial link factor.
pub const LINK_NEW_ID: &'static str = "link_new";
/// Key of the provider that computes both outputs.
pub const PROVIDER_KEY: &'static str = "stock|daily|financial_similarity";
/// Id of the internal link raw series.
pub const LINK_NEW_RAW_ID: &'static str = "__link_new_raw";
/// Version of the factors.
pub const VERSION: &'static str = "0.1.0";
/// Trading days of history the factors read.
pub const LOOKBACK: usize = 252;
/// Financial quarters the factors read.
pub const FINANCIAL_QUARTERS: usize = 8;

/// The two outputs.
#[derive(Clone, Copy, Debug, Eq, PartialEq, Structural)]
pub enum FinancialSimilarityOutput {
    FMomentum80Pec,
    LinkNew,
}

/// The id of `kind`.
pub open spec fn similarity_id(kind: FinancialSimilarityOutput) -> Seq<char> {
    match kind {
        FinancialSimilarityOutput::FMomentum80Pec => F_MOMENTUM_80PEC_ID@,
        FinancialSimilarityOutput::LinkNew => LINK_NEW_ID@,
    }
}

impl FinancialSimilarityOutput {
    /// The factor id of this output.
    pub fn id(self) -> (r: &'static str)
        ensures
            r@ == similarity_id(self),
    {
        match self {
            FinancialSimilarityOutput::FMomentum80Pec => F_MOMENTUM_80PEC_ID,
            FinancialSimilarityOutput::LinkNew => LINK_NEW_ID,
        }
    }
}

/// The tags of the financial similarity factors.
pub open spec fn similarity_tags() -> Seq<Seq<char>> {
    seq![
        "XYZQ"@,
        "financial"@,
        "fundamental"@,
        "pit"@,
        "f_momentum"@,
        "cs_network"@,
        "neutralize"@,
        "barra"@,
        "size"@,
        "sector"@,
        "daily"@,
    ]
}

/// The tags of the financial similarity factors.
pub fn tags() -> (r: Vec<String>)
    ensures
        strings_view(r@) == similarity_tags(),
{
    let items: [&str; 11] = [
        "XYZQ",
        "financial",
        "fundamental",
        "pit",
        "f_momentum",
        "cs_network",
        "neutralize",
        "barra",
        "size",
        "sector",
        "daily",
    ];
    assert(strs_view(items@) =~= similarity_tags());
    owned_strings(&items)
}

/// Balance sheet columns read.
pub open spec fn similarity_balance_columns() -> Seq<Seq<char>> {
    seq![
        "total_cur_assets"@,
        "total_cur_liab"@,
        "total_ncl"@,
        "total_hldr_eqy_exc_min_int"@,
        "inventories"@,
        "accounts_receiv"@,
    ]
}

/// Dividend columns read.
pub open spec fn dividend_columns() -> Seq<Seq<char>> {
    seq!["ts_code"@, "ann_date"@, "div_proc"@, "cash_div_tax"@, "ex_date"@, "base_share"@]
}

/// The data both factors read.
pub open spec fn common_dependencies() -> Seq<DataRequestView> {
    seq![
        plain_request(DatasetId::StockDailyBasic, seq!["total_mv"@]),
        quarters_request(DatasetId::StockIncome, seq!["revenue"@, "n_income_attr_p"@], FINANCIAL_QUARTERS),
        quarters_request(DatasetId::StockBalanceSheet, similarity_balance_columns(), FINANCIAL_QUARTERS),
        plain_request(DatasetId::StockDividend, dividend_columns()),
        plain_request(DatasetId::StockBarraDaily, seq!["SIZE"@]),
        plain_request(DatasetId::StockSwClassification, seq!["l1_code"@]),
    ]
}

/// The data output `kind` reads: the momentum factor also reads prices
/// and adjustment factors, first.
pub open spec fn similarity_dependencies(kind: FinancialSimilarityOutput) -> Seq<DataRequestView> {
    match kind {
        FinancialSimilarityOutput::FMomentum80Pec => seq![
            plain_request(DatasetId::StockDailyPv, seq!["close"@]),
            plain_request(DatasetId::StockAdjFactor, seq!["adj_factor"@]),
        ] + common_dependencies(),
        FinancialSimilarityOutput::LinkNew => common_dependencies(),
    }
}

/// The published definition of `kind`.
pub open spec fn similarity_factor_view(kind: FinancialSimilarityOutput) -> FactorSpecView {
    let (aliases, description) = match kind {
        FinancialSimilarityOutput::FMomentum80Pec => (
            seq!["F-Momentum-80Pec"@, "F Momentum 80Pec"@],
            "Financial similarity momentum factor. It builds a 10-metric PIT financial vector, keeps the top 20% most similar peers by F-Link cosine similarity, computes peer Ret20 weighted by similarity, residualizes by own Ret20, and neutralizes by Barra SIZE and SW sector."@,
        ),
        FinancialSimilarityOutput::LinkNew => (
            seq!["Link_New"@, "Financial Link New"@],
            "Financial similarity signal factor. It builds a 10-metric PIT financial vector, averages F-Link cosine similarity to other stocks, and neutralizes by Barra SIZE and SW sector."@,
        ),
    };
    FactorSpecView {
        id: similarity_id(kind),
        aliases,
        name: similarity_id(kind),
        asset_class: AssetClass::Stock,
        frequency: Frequency::Daily,
        version: VERSION@,
        tags: similarity_tags(),
        description,
        dependencies: similarity_dependencies(kind),
        intraday_raw_dependencies: Seq::empty(),
        lookback: LOOKBACK,
    }
}

/// The published definition of `kind`.
pub fn spec(kind: FinancialSimilarityOutput) -> (r: FactorSpec)
    ensures
        r@ == similarity_factor_view(kind),
{
    let (aliases, description) = match kind {
        FinancialSimilarityOutput::FMomentum80Pec => {
            let items: [&str; 2] = ["F-Momentum-80Pec", "F Momentum 80Pec"];
            assert(strs_view(items@) =~= seq!["F-Momentum-80Pec"@, "F Momentum 80Pec"@]);
            (
                owned_strings(&items),
                "Financial similarity momentum factor. It builds a 10-metric PIT financial vector, keeps the top 20% most similar peers by F-Link cosine similarity, computes peer Ret20 weighted by similarity, residualizes by own Ret20, and neutralizes by Barra SIZE and SW sector.",
            )
        },
        FinancialSimilarityOutput::LinkNew => {
            let items: [&str; 2] = ["Link_New", "Financial Link New"];
            assert(strs_view(items@) =~= seq!["Link_New"@, "Financial Link New"@]);
            (
                owned_strings(&items),
                "Financial similarity signal factor. It builds a 10-metric PIT financial vector, averages F-Link cosine similarity to other stocks, and neutralizes by Barra SIZE and SW sector.",
            )
        },
    };
    let mv: [&str; 1] = ["total_mv"];
    let income: [&str; 2] = ["revenue", "n_income_attr_p"];
    let balance: [&str; 6] = [
        "total_cur_assets",
        "total_cur_liab",
        "total_ncl",
        "total_hldr_eqy_exc_min_int",
        "inventories",
        "accounts_receiv",
    ];
    let dividend: [&str; 6] = ["ts_code", "ann_date", "div_proc", "cash_div_tax", "ex_date", "base_share"];
    let size: [&str; 1] = ["SIZE"];
    let sector: [&str; 1] = ["l1_code"];
    let mut dependencies: Vec<DataRequest> = Vec::new();
    dependencies.push(DataRequest::new(DatasetId::StockDailyBasic, &mv));
    dependencies.push(DataRequest::financial_quarters(DatasetId::StockIncome, &income, FINANCIAL_QUARTERS));
    dependencies.push(DataRequest::financial_quarters(DatasetId::StockBalanceSheet, &balance, FINANCIAL_QUARTERS));
    dependencies.push(DataRequest::new(DatasetId::StockDividend, &dividend));
    dependencies.push(DataRequest::new(DatasetId::StockBarraDaily, &size));
    dependencies.push(DataRequest::new(DatasetId::StockSwClassification, &sector));
    assert(strs_view(mv@) =~= seq!["total_mv"@]);
    assert(strs_view(income@) =~= seq!["revenue"@, "n_income_attr_p"@]);
    assert(strs_view(balance@) =~= similarity_balance_columns());
    assert(strs_view(dividend@) =~= dividend_columns());
    assert(strs_view(size@) =~= seq!["SIZE"@]);
    assert(strs_view(sector@) =~= seq!["l1_code"@]);
    assert(dependencies@.map_values(|d: DataRequest| d@) =~= common_dependencies());
    if kind == FinancialSimilarityOutput::FMomentum80Pec {
        let close: [&str; 1] = ["close"];
        let adj: [&str; 1] = ["adj_factor"];
        let ghost tail = dependencies@;
        dependencies.insert(0, DataRequest::new(DatasetId::StockDailyPv, &close));
        dependencies.insert(1, DataRequest::new(DatasetId::StockAdjFactor, &adj));
        assert(strs_view(close@) =~= seq!["close"@]);
        assert(strs_view(adj@) =~= seq!["adj_factor"@]);
        assert(dependencies@.map_values(|d: DataRequest| d@) =~= seq![
            plain_request(DatasetId::StockDailyPv, seq!["close"@]),
            plain_request(DatasetId::StockAdjFactor, seq!["adj_factor"@]),
        ] + tail.map_values(|d: DataRequest| d@));
    }
    let r = FactorSpec {
        id: kind.id().to_owned(),
        aliases,
        name: kind.id().to_owned(),
        asset_class: AssetClass::Stock,
        frequency: Frequency::Daily,
        version: VERSION.to_owned(),
        tags: tags(),
        description: description.to_owned(),
        dependencies,
        intraday_raw_dependencies: Vec::new(),
        lookback: Lookback { trading_days: LOOKBACK },
    };
    assert(r.intraday_raw_dependencies@.map_values(|q: IntradayDailyRawRequest| q@) =~= Seq::empty());
    r
}

/// The definition of the internal link raw series.
pub open spec fn link_new_raw_view() -> FactorSpecView {
    FactorSpecView {
        id: LINK_NEW_RAW_ID@,
        aliases: Seq::empty(),
        name: LINK_NEW_RAW_ID@,
        asset_class: AssetClass::Stock,
        frequency: Frequency::Daily,
        version: VERSION@,
        tags: seq!["internal"@, "financial_raw"@],
        description: "Internal link_new raw financial similarity series."@,
        dependencies: Seq::empty(),
        intraday_raw_dependencies: Seq::empty(),
        lookback: 0,
    }
}

/// The definition of the internal link raw series.
pub fn link_new_raw_spec() -> (r: FactorSpec)
    ensures
        r@ == link_new_raw_view(),
{
    let items: [&str; 2] = ["internal", "financial_raw"];
    let r = FactorSpec {
        id: LINK_NEW_RAW_ID.to_owned(),
        aliases: Vec::new(),
        name: LINK_NEW_RAW_ID.to_owned(),
        asset_class: AssetClass::Stock,
        frequency: Frequency::Daily,
        version: VERSION.to_owned(),
        tags: owned_strings(&items),
        description: "Internal link_new raw financial similarity series.".to_owned(),
        dependencies: Vec::new(),
        intraday_raw_dependencies: Vec::new(),
        lookback: Lookback { trading_days: 0 },
    };
    assert(strs_view(items@) =~= seq!["internal"@, "financial_raw"@]);
    assert(strings_view(r.aliases@) =~= Seq::empty());
    assert(r.dependencies@.map_values(|d: DataRequest| d@) =~= Seq::empty());
    assert(r.intraday_raw_dependencies@.map_values(|q: IntradayDailyRawRequest| q@) =~= Seq::empty());
    r
}

/// Whether the quarter dates a metric marker steps back to from the latest
/// quarter `income` sees fit in `i32`: a year back from it and from the
/// quarter before it.
pub open spec fn metric_dates_fit(income: FinancialPitReader, code: Seq<char>, trade: i32) -> bool {
    latest_end(income.rows(), income.preference_view(), code, trade, false) matches Some(e) ==> {
        &&& e >= -2_147_473_648
        &&& (spec_previous_quarter_end_date(e as int) matches Some(p) ==> p >= -2_147_473_648)
    }
}

/// `m` with the seen version of the `end` statement, when there is an end.
pub open spec fn with_optional_end(
    m: MarkerContent,
    dataset: FinancialStatementDataset,
    reader: FinancialPitReader,
    code: Seq<char>,
    trade: i32,
    end: Option<int>,
) -> MarkerContent {
    match end {
        Some(e) => with_record(m, seen_marker(dataset, reader.rows(), reader.preference_view(), code, trade, e as i32)),
        None => m,
    }
}

/// Everything a stock's similarity metrics on `trade` depend on, given the
/// latest quarter `latest` the income reader sees: the income statements of
/// that quarter, a year earlier, the quarter before and a year before that;
/// the four quarters back from the latest and from a year earlier; the
/// balance sheets of the latest quarter and a year earlier; and the trailing
/// cash dividend under `cash_dividend_ltm`.
pub open spec fn metric_marker_content(
    income: FinancialPitReader,
    balance: FinancialPitReader,
    code: Seq<char>,
    trade: i32,
    dividend_marker: i64,
    latest: int,
) -> MarkerContent {
    let yoy = spec_same_quarter_previous_year(latest);
    let previous = spec_previous_quarter_end_date(latest);
    let previous_yoy = match previous {
        Some(p) => Some(spec_same_quarter_previous_year(p)),
        None => None,
    };
    let inc = FinancialStatementDataset::Income;
    let bal = FinancialStatementDataset::BalanceSheet;
    let m1 = with_optional_end((Seq::empty(), Seq::empty()), inc, income, code, trade, Some(latest));
    let m2 = with_optional_end(m1, inc, income, code, trade, Some(yoy));
    let m3 = with_optional_end(m2, inc, income, code, trade, previous);
    let m4 = with_optional_end(m3, inc, income, code, trade, previous_yoy);
    let m5 = with_quarters(m4, inc, income.rows(), income.preference_view(), code, trade, Some(latest), 4);
    let m6 = with_quarters(m5, inc, income.rows(), income.preference_view(), code, trade, Some(yoy), 4);
    let m7 = with_optional_end(m6, bal, balance, code, trade, Some(latest));
    let m8 = with_optional_end(m7, bal, balance, code, trade, Some(yoy));
    (m8.0, m8.1.push(("cash_dividend_ltm"@, dividend_marker)))
}

/// The marker of the inputs of a stock's similarity metrics on
/// `trade_date`; none when the income reader sees no quarter.
/// `dividend_marker` is the bit pattern of the stock's trailing cash dividend.
pub fn financial_metric_marker(
    ts_code: &str,
    trade_date: i32,
    income: &FinancialPitReader<'_>,
    balance: &FinancialPitReader<'_>,
    dividend_marker: i64,
) -> (r: Option<FinancialEventMarker>)
    requires
        metric_dates_fit(*income, ts_code@, trade_date),
    ensures
        match latest_end(income.rows(), income.preference_view(), ts_code@, trade_date, false) {
            None => r is None,
            Some(latest) => {
                let content = metric_marker_content(
                    *income,
                    *balance,
                    ts_code@,
                    trade_date,
                    dividend_marker,
                    latest as int,
                );
                r matches Some(m) && canonical(m@) && same_members(m@.0, content.0) && same_members(
                    m@.1,
                    content.1,
                )
            },
        },
{
    let latest = match income.latest_quarter_end_date(ts_code, trade_date) {
        Some(e) => e,
        None => {
            return None;
        },
    };
    let yoy_end = same_quarter_previous_year(latest);
    let previous_end = previous_quarter_end_date(latest);
    let previous_yoy_end = match previous_end {
        Some(p) => Some(same_quarter_previous_year(p)),
        None => None,
    };
    let mut builder = FinancialEventMarkerBuilder::new();
    assert(builder@ =~= (Seq::<FinancialRecordMarker>::empty(), Seq::<(Seq<char>, i64)>::empty()));
    builder.include_reader_record_for_end_date(FinancialStatementDataset::Income, income, ts_code, trade_date, latest);
    builder.include_reader_record_for_end_date(FinancialStatementDataset::Income, income, ts_code, trade_date, yoy_end);
    if let Some(end_date) = previous_end {
        builder.include_reader_record_for_end_date(
            FinancialStatementDataset::Income,
            income,
            ts_code,
            trade_date,
            end_date,
        );
    }
    if let Some(end_date) = previous_yoy_end {
        builder.include_reader_record_for_end_date(
            FinancialStatementDataset::Income,
            income,
            ts_code,
            trade_date,
            end_date,
        );
    }
    builder.include_reader_ttm_for_end_date(FinancialStatementDataset::Income, income, ts_code, trade_date, latest);
    builder.include_reader_ttm_for_end_date(FinancialStatementDataset::Income, income, ts_code, trade_date, yoy_end);
    builder.include_reader_record_for_end_date(
        FinancialStatementDataset::BalanceSheet,
        balance,
        ts_code,
        trade_date,
        latest,
    );
    builder.include_reader_record_for_end_date(
        FinancialStatementDataset::BalanceSheet,
        balance,
        ts_code,
        trade_date,
        yoy_end,
    );
    builder.include_synthetic("cash_dividend_ltm", dividend_marker);
    let ghost content = metric_marker_content(*income, *balance, ts_code@, trade_date, dividend_marker, latest as int);
    assert(builder@ == content);
    builder.build()
}

} // verus!
