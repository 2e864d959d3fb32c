//! DBZQ profit skew factors: their published definitions, which outputs a
//! request needs, and the event marker of a stock's inputs.
use vstd::prelude::*;
use crate::catalog::{
    AssetClass,
    DataRequest,
    DataRequestView,
    DatasetId,
    FactorSpec,
    FactorSpecView,
    Frequency,
    IntradayDailyRawRequest,
    Lookback,
    contains_string,
    owned_strings,
    plain_request,
    quarters_request,
    strings_view,
    strs_view,
};
use crate::dates::{quarter_chain, spec_quarter_chain};
use crate::financial_marker::{
    FinancialEventMarker,
    FinancialEventMarkerBuilder,
    FinancialStatementDataset,
    MarkerContent,
    canonical,
    same_members,
    seen_marker,
    with_record,
};
use crate::financial_pit::{FinancialPitReader, latest_end};

verus! {

/// Key of the provider that computes both outputs.
pub const PROVIDER_KEY: &'static str = "stock|daily|dbzq_profit_skew";
/// Id of the operating margin TTM skew factor.
pub const OP_MARGIN_TTM_SKEW_ID: &'static str = "op_margin_ttm_skew";
/// Id of the POP skew factor.
pub const POP_SKEW_ID: &'static str = "pop_skew";
/// Version of the factors.
pub const VERSION: &'static str = "0.1.0";
/// Trading days of the POP skewness window.
pub const ROLLING_POP_WINDOW: usize = 240;
/// Trading days of history the POP factor reads.
pub const DAILY_LOOKBACK: usize = 239;
/// Quarters of statements the margin skew reads.
pub const OP_MARGIN_REQUIRED_QUARTERS: usize = 11;
/// Quarters of statements the POP factor reads.
pub const POP_REQUIRED_QUARTERS: usize = 4;
/// The daily market value column.
pub const TOTAL_MV_COLUMN: &'static str = "total_mv";

/// The two outputs.
#[derive(Clone, Copy, Debug, Eq, PartialEq, Structural)]
pub enum ProfitSkewOutput {
    OpMarginTtmSkew,
    PopSkew,
}

/// Which outputs a request needs.
#[derive(Clone, Copy, Debug, Default, PartialEq, Eq, Structural)]
pub struct ProfitSkewNeeds {
    pub op_margin: bool,
    pub pop: bool,
}

/// Which outputs `requested_ids` names.
pub fn needs_from_requested(requested_ids: &[String]) -> (r: ProfitSkewNeeds)
    ensures
        r.op_margin == strings_view(requested_ids@).contains(OP_MARGIN_TTM_SKEW_ID@),
        r.pop == strings_view(requested_ids@).contains(POP_SKEW_ID@),
{
    ProfitSkewNeeds {
        op_margin: contains_string(requested_ids, OP_MARGIN_TTM_SKEW_ID),
        pop: contains_string(requested_ids, POP_SKEW_ID),
    }
}

/// The tags of the profit skew factors.
pub open spec fn skew_tags() -> Seq<Seq<char>> {
    seq![
        "DBZQ"@,
        "financial"@,
        "fundamental"@,
        "pit"@,
        "skewness"@,
        "profitability"@,
        "valuation"@,
        "neutralize"@,
        "barra"@,
        "size"@,
        "sector"@,
        "daily"@,
    ]
}

/// The tags of `output` (the same for both).
pub fn tags(output: ProfitSkewOutput) -> (r: Vec<String>)
    ensures
        strings_view(r@) == skew_tags(),
{
    let items: [&str; 12] = [
        "DBZQ",
        "financial",
        "fundamental",
        "pit",
        "skewness",
        "profitability",
        "valuation",
        "neutralize",
        "barra",
        "size",
        "sector",
        "daily",
    ];
    assert(strs_view(items@) =~= skew_tags());
    owned_strings(&items)
}

/// The data the factors read; with `include_daily_basic`, daily market value too.
pub open spec fn skew_dependencies(include_daily_basic: bool) -> Seq<DataRequestView> {
    let base = seq![
        quarters_request(
            DatasetId::StockIncome,
            seq!["operate_profit"@, "revenue"@],
            OP_MARGIN_REQUIRED_QUARTERS,
        ),
        plain_request(DatasetId::StockBarraDaily, seq!["SIZE"@]),
        plain_request(DatasetId::StockSwClassification, seq!["l1_code"@]),
    ];
    if include_daily_basic {
        base.push(plain_request(DatasetId::StockDailyBasic, seq![TOTAL_MV_COLUMN@]))
    } else {
        base
    }
}

/// The data the factors read.
pub fn dependencies(include_daily_basic: bool) -> (r: Vec<DataRequest>)
    ensures
        r@.map_values(|d: DataRequest| d@) == skew_dependencies(include_daily_basic),
{
    let income: [&str; 2] = ["operate_profit", "revenue"];
    let size: [&str; 1] = ["SIZE"];
    let sector: [&str; 1] = ["l1_code"];
    let mut requests: Vec<DataRequest> = Vec::new();
    requests.push(DataRequest::financial_quarters(DatasetId::StockIncome, &income, OP_MARGIN_REQUIRED_QUARTERS));
    requests.push(DataRequest::new(DatasetId::StockBarraDaily, &size));
    requests.push(DataRequest::new(DatasetId::StockSwClassification, &sector));
    assert(strs_view(income@) =~= seq!["operate_profit"@, "revenue"@]);
    assert(strs_view(size@) =~= seq!["SIZE"@]);
    assert(strs_view(sector@) =~= seq!["l1_code"@]);
    if include_daily_basic {
        let mv: [&str; 1] = [TOTAL_MV_COLUMN];
        requests.push(DataRequest::new(DatasetId::StockDailyBasic, &mv));
        assert(strs_view(mv@) =~= seq![TOTAL_MV_COLUMN@]);
    }
    assert(requests@.map_values(|d: DataRequest| d@) =~= skew_dependencies(include_daily_basic));
    requests
}

/// The published definition of `output`.
pub open spec fn skew_factor_view(output: ProfitSkewOutput) -> FactorSpecView {
    let (id, aliases, description, dependencies, lookback) = match output {
        ProfitSkewOutput::OpMarginTtmSkew => (
            OP_MARGIN_TTM_SKEW_ID@,
            seq!["Operating Profit Margin TTM Skew"@, "OP Margin TTM Skew"@],
            "DBZQ operating-profit-margin TTM skew factor. It computes PIT single-quarter rolling TTM operating profit margin, takes strict eight-quarter skewness, replays slow raw values between financial events, and neutralizes by Barra SIZE and SW sector."@,
            skew_dependencies(false),
            0usize,
        ),
        ProfitSkewOutput::PopSkew => (
            POP_SKEW_ID@,
            seq!["POP Skew"@, "Operating Profit Valuation Skew"@],
            "DBZQ POP skew factor. It uses PIT operating profit TTM as a slow financial state, daily total_mv as a fast variable, computes daily POP=total_mv/operate_profit_ttm, applies 240-day skewness with min_periods=1, and neutralizes by Barra SIZE and SW sector."@,
            skew_dependencies(true),
            DAILY_LOOKBACK,
        ),
    };
    FactorSpecView {
        id,
        aliases,
        name: id,
        asset_class: AssetClass::Stock,
        frequency: Frequency::Daily,
        version: VERSION@,
        tags: skew_tags(),
        description,
        dependencies,
        intraday_raw_dependencies: Seq::empty(),
        lookback,
    }
}

/// The published definition of `output`.
pub fn spec(output: ProfitSkewOutput) -> (r: FactorSpec)
    ensures
        r@ == skew_factor_view(output),
{
    let (id, aliases, description, dependencies, lookback) = match output {
        ProfitSkewOutput::OpMarginTtmSkew => {
            let items: [&str; 2] = ["Operating Profit Margin TTM Skew", "OP Margin TTM Skew"];
            assert(strs_view(items@) =~= seq!["Operating Profit Margin TTM Skew"@, "OP Margin TTM Skew"@]);
            (
                OP_MARGIN_TTM_SKEW_ID,
                owned_strings(&items),
                "DBZQ operating-profit-margin TTM skew factor. It computes PIT single-quarter rolling TTM operating profit margin, takes strict eight-quarter skewness, replays slow raw values between financial events, and neutralizes by Barra SIZE and SW sector.",
                dependencies(false),
                0usize,
            )
        },
        ProfitSkewOutput::PopSkew => {
            let items: [&str; 2] = ["POP Skew", "Operating Profit Valuation Skew"];
            assert(strs_view(items@) =~= seq!["POP Skew"@, "Operating Profit Valuation Skew"@]);
            (
                POP_SKEW_ID,
                owned_strings(&items),
                "DBZQ POP skew factor. It uses PIT operating profit TTM as a slow financial state, daily total_mv as a fast variable, computes daily POP=total_mv/operate_profit_ttm, applies 240-day skewness with min_periods=1, and neutralizes by Barra SIZE and SW sector.",
                dependencies(true),
                DAILY_LOOKBACK,
            )
        },
    };
    let r = FactorSpec {
        id: id.to_owned(),
        aliases,
        name: id.to_owned(),
        asset_class: AssetClass::Stock,
        frequency: Frequency::Daily,
        version: VERSION.to_owned(),
        tags: tags(output),
        description: description.to_owned(),
        dependencies,
        intraday_raw_dependencies: Vec::new(),
        lookback: Lookback { trading_days: lookback },
    };
    assert(r.intraday_raw_dependencies@.map_values(|q: IntradayDailyRawRequest| q@) =~= Seq::empty());
    r
}

/// `m` with the seen income versions of the first `n` quarter ends of `ends`.
pub open spec fn with_income_ends(
    m: MarkerContent,
    income: FinancialPitReader,
    code: Seq<char>,
    trade: i32,
    ends: Seq<int>,
    n: nat,
) -> MarkerContent
    decreases n,
{
    if n == 0 {
        m
    } else {
        with_record(
            with_income_ends(m, income, code, trade, ends, (n - 1) as nat),
            seen_marker(
                FinancialStatementDataset::Income,
                income.rows(),
                income.preference_view(),
                code,
                trade,
                ends[n - 1] as i32,
            ),
        )
    }
}

/// Quarters of statements the marker covers for `needs`.
pub open spec fn marker_quarters(needs: ProfitSkewNeeds) -> usize {
    if needs.op_margin {
        OP_MARGIN_REQUIRED_QUARTERS
    } else {
        POP_REQUIRED_QUARTERS
    }
}

/// The marker of the inputs of a stock's profit skew snapshot on
/// `trade_date`: the income statements of the quarter chain back from the
/// latest quarter `income` sees (eleven quarters for the margin skew, else four).
pub fn profit_skew_marker(
    ts_code: &str,
    trade_date: i32,
    income: &FinancialPitReader<'_>,
    needs: ProfitSkewNeeds,
) -> (r: Option<FinancialEventMarker>)
    ensures
        match latest_end(income.rows(), income.preference_view(), ts_code@, trade_date, false) {
            None => r is None,
            Some(anchor) => match spec_quarter_chain(anchor as int, marker_quarters(needs) as nat) {
                None => r is None,
                Some(ends) => {
                    let content = with_income_ends(
                        (Seq::empty(), Seq::empty()),
                        *income,
                        ts_code@,
                        trade_date,
                        ends,
                        marker_quarters(needs) as nat,
                    );
                    &&& (r is None <==> (content.0.len() == 0 && content.1.len() == 0))
                    &&& (r matches Some(m) ==> canonical(m@) && same_members(m@.0, content.0)
                        && same_members(m@.1, content.1))
                },
            },
        },
{
    let anchor = match income.latest_quarter_end_date(ts_code, trade_date) {
        Some(a) => a,
        None => {
            return None;
        },
    };
    let quarter_count = if needs.op_margin {
        OP_MARGIN_REQUIRED_QUARTERS
    } else {
        POP_REQUIRED_QUARTERS
    };
    let ends = match quarter_chain(anchor, quarter_count) {
        Some(e) => e,
        None => {
            return None;
        },
    };
    let ghost chain = spec_quarter_chain(anchor as int, quarter_count as nat).unwrap();
    let mut builder = FinancialEventMarkerBuilder::new();
    assert(builder@ =~= (Seq::<crate::financial_marker::FinancialRecordMarker>::empty(), Seq::<(Seq<char>, i64)>::empty()));
    let mut idx: usize = 0;
    while idx < ends.len()
        invariant
            idx <= ends@.len(),
            ends@.len() == quarter_count,
            ends@.map_values(|v: i32| v as int) == chain,
            builder@ == with_income_ends(
                (Seq::empty(), Seq::empty()),
                *income,
                ts_code@,
                trade_date,
                chain,
                idx as nat,
            ),
        decreases ends@.len() - idx,
    {
        let end_date = ends[idx];
        proof {
            assert(chain[idx as int] == end_date as int);
        }
        builder.include_reader_record_for_end_date(
            FinancialStatementDataset::Income,
            income,
            ts_code,
            trade_date,
            end_date,
        );
        idx = idx + 1;
    }
    builder.build()
}

} // verus!
