//! DBZQ financial efficiency factors: their published definitions, which raw
//! series a request needs, and the event marker of a stock's inputs.
use vstd::prelude::*;
use crate::catalog::{
    AssetClass,
    DataRequest,
    DataRequestView,
    DatasetId,
    FactorSpec,
    FactorSpecView,
    Frequency,
    IntradayDailyRawRequest,
    Lookback,
    contains_string,
    owned_strings,
    plain_request,
    quarters_request,
    strings_view,
    strs_view,
};
use crate::dates::{quarter_chain, spec_quarter_chain};
use crate::financial_marker::{
    FinancialEventMarker,
    FinancialEventMarkerBuilder,
    FinancialStatementDataset,
    MarkerContent,
    canonical,
    same_members,
    seen_marker,
    with_record,
};
use crate::financial_pit::{FinancialPitReader, latest_end};

verus! {

/// Key of the provider that computes both outputs.
pub const PROVIDER_KEY: &'static str = "stock|daily|dbzq_financial_efficiency";
/// Id of the ROE efficiency factor.
pub const ROE_EFFICIENCY_ID: &'static str = "roe_efficiency";
/// Id of the CFO efficiency factor.
pub const CFO_EFFICIENCY_ID: &'static str = "cfo_efficiency";
/// Version of the factors.
pub const VERSION: &'static str = "0.1.0";
/// Financial quarters the factors read.
pub const FINANCIAL_QUARTERS: usize = 6;
/// Id of the internal ROE residual series.
pub const ROE_RAW_ID: &'static str = "__roe_efficiency_residual_raw";
/// Id of the internal CFO residual series.
pub const CFO_RAW_ID: &'static str = "__cfo_efficiency_residual_raw";

/// The two outputs.
#[derive(Clone, Copy, Debug, Eq, PartialEq, Structural)]
pub enum FinancialEfficiencyOutput {
    RoeEfficiency,
    CfoEfficiency,
}

/// Which outputs a request needs.
#[derive(Clone, Copy, Debug, Default, PartialEq, Eq, Structural)]
pub struct EfficiencyNeeds {
    pub roe: bool,
    pub cfo: bool,
}

/// The tags of the efficiency factors.
pub open spec fn efficiency_tags() -> Seq<Seq<char>> {
    seq![
        "DBZQ"@,
        "financial"@,
        "fundamental"@,
        "pit"@,
        "efficiency"@,
        "residual"@,
        "industry_standardize"@,
        "size_neutralize"@,
        "daily"@,
    ]
}

/// The tags of the efficiency factors.
pub fn tags() -> (r: Vec<String>)
    ensures
        strings_view(r@) == efficiency_tags(),
{
    let items: [&str; 9] = [
        "DBZQ",
        "financial",
        "fundamental",
        "pit",
        "efficiency",
        "residual",
        "industry_standardize",
        "size_neutralize",
        "daily",
    ];
    assert(strs_view(items@) =~= efficiency_tags());
    owned_strings(&items)
}

/// Income statement columns read.
pub open spec fn income_columns() -> Seq<Seq<char>> {
    seq!["revenue"@, "n_income_attr_p"@, "sell_exp"@, "admin_exp"@, "fin_exp"@, "rd_exp"@]
}

/// Cash flow statement columns read.
pub open spec fn cashflow_columns() -> Seq<Seq<char>> {
    seq!["n_cashflow_act"@, "c_pay_acq_const_fiolta"@]
}

/// Balance sheet columns read.
pub open spec fn balance_columns() -> Seq<Seq<char>> {
    seq![
        "total_hldr_eqy_exc_min_int"@,
        "accounts_receiv"@,
        "prepayment"@,
        "inventories"@,
        "fix_assets"@,
        "st_borr"@,
        "lt_borr"@,
        "non_cur_liab_due_1y"@,
        "bond_payable"@,
        "lt_payable"@,
        "notes_payable"@,
        "acct_payable"@,
        "adv_receipts"@,
    ]
}

/// The data the efficiency factors read.
pub open spec fn efficiency_dependencies() -> Seq<DataRequestView> {
    seq![
        plain_request(DatasetId::StockDailyPv, seq!["close"@]),
        quarters_request(DatasetId::StockIncome, income_columns(), FINANCIAL_QUARTERS),
        quarters_request(DatasetId::StockCashFlow, cashflow_columns(), FINANCIAL_QUARTERS),
        quarters_request(DatasetId::StockBalanceSheet, balance_columns(), FINANCIAL_QUARTERS),
        plain_request(DatasetId::StockSwClassification, seq!["l1_code"@]),
        plain_request(DatasetId::StockBarraDaily, seq!["SIZE"@]),
    ]
}

/// The data the efficiency factors read.
pub fn dependencies() -> (r: Vec<DataRequest>)
    ensures
        r@.map_values(|d: DataRequest| d@) == efficiency_dependencies(),
{
    let close: [&str; 1] = ["close"];
    let income: [&str; 6] = ["revenue", "n_income_attr_p", "sell_exp", "admin_exp", "fin_exp", "rd_exp"];
    let cashflow: [&str; 2] = ["n_cashflow_act", "c_pay_acq_const_fiolta"];
    let balance: [&str; 13] = [
        "total_hldr_eqy_exc_min_int",
        "accounts_receiv",
        "prepayment",
        "inventories",
        "fix_assets",
        "st_borr",
        "lt_borr",
        "non_cur_liab_due_1y",
        "bond_payable",
        "lt_payable",
        "notes_payable",
        "acct_payable",
        "adv_receipts",
    ];
    let sector: [&str; 1] = ["l1_code"];
    let size: [&str; 1] = ["SIZE"];
    let mut out: Vec<DataRequest> = Vec::new();
    out.push(DataRequest::new(DatasetId::StockDailyPv, &close));
    out.push(DataRequest::financial_quarters(DatasetId::StockIncome, &income, FINANCIAL_QUARTERS));
    out.push(DataRequest::financial_quarters(DatasetId::StockCashFlow, &cashflow, FINANCIAL_QUARTERS));
    out.push(DataRequest::financial_quarters(DatasetId::StockBalanceSheet, &balance, FINANCIAL_QUARTERS));
    out.push(DataRequest::new(DatasetId::StockSwClassification, &sector));
    out.push(DataRequest::new(DatasetId::StockBarraDaily, &size));
    assert(strs_view(close@) =~= seq!["close"@]);
    assert(strs_view(income@) =~= income_columns());
    assert(strs_view(cashflow@) =~= cashflow_columns());
    assert(strs_view(balance@) =~= balance_columns());
    assert(strs_view(sector@) =~= seq!["l1_code"@]);
    assert(strs_view(size@) =~= seq!["SIZE"@]);
    assert(out@.map_values(|d: DataRequest| d@) =~= efficiency_dependencies());
    out
}

/// The published definition of `output`.
pub open spec fn efficiency_factor_view(output: FinancialEfficiencyOutput) -> FactorSpecView {
    let (id, aliases, description) = match output {
        FinancialEfficiencyOutput::RoeEfficiency => (
            ROE_EFFICIENCY_ID@,
            seq!["ROE Efficiency"@, "ROE效率因子"@],
            "DBZQ ROE efficiency factor. It uses PIT single-quarter ROE growth, capex-to-revenue, production asset turnover and interest-bearing liability growth, takes SW level-1 industry OLS residuals, industry-standardizes them and neutralizes SIZE."@,
        ),
        FinancialEfficiencyOutput::CfoEfficiency => (
            CFO_EFFICIENCY_ID@,
            seq!["CFO Efficiency"@, "CFO效率因子"@],
            "DBZQ CFO efficiency factor. It uses PIT single-quarter CFO scaled by equity, ROE, net accrual turnover change and opex change, takes SW level-1 industry OLS residuals, industry-standardizes them and neutralizes SIZE."@,
        ),
    };
    FactorSpecView {
        id,
        aliases,
        name: id,
        asset_class: AssetClass::Stock,
        frequency: Frequency::Daily,
        version: VERSION@,
        tags: efficiency_tags(),
        description,
        dependencies: efficiency_dependencies(),
        intraday_raw_dependencies: Seq::empty(),
        lookback: 0,
    }
}

/// The published definition of `output`.
pub fn spec(output: FinancialEfficiencyOutput) -> (r: FactorSpec)
    ensures
        r@ == efficiency_factor_view(output),
{
    let (id, aliases, description) = match output {
        FinancialEfficiencyOutput::RoeEfficiency => {
            let items: [&str; 2] = ["ROE Efficiency", "ROE效率因子"];
            assert(strs_view(items@) =~= seq!["ROE Efficiency"@, "ROE效率因子"@]);
            (
                ROE_EFFICIENCY_ID,
                owned_strings(&items),
                "DBZQ ROE efficiency factor. It uses PIT single-quarter ROE growth, capex-to-revenue, production asset turnover and interest-bearing liability growth, takes SW level-1 industry OLS residuals, industry-standardizes them and neutralizes SIZE.",
            )
        },
        FinancialEfficiencyOutput::CfoEfficiency => {
            let items: [&str; 2] = ["CFO Efficiency", "CFO效率因子"];
            assert(strs_view(items@) =~= seq!["CFO Efficiency"@, "CFO效率因子"@]);
            (
                CFO_EFFICIENCY_ID,
                owned_strings(&items),
                "DBZQ CFO efficiency factor. It uses PIT single-quarter CFO scaled by equity, ROE, net accrual turnover change and opex change, takes SW level-1 industry OLS residuals, industry-standardizes them and neutralizes SIZE.",
            )
        },
    };
    let r = FactorSpec {
        id: id.to_owned(),
        aliases,
        name: id.to_owned(),
        asset_class: AssetClass::Stock,
        frequency: Frequency::Daily,
        version: VERSION.to_owned(),
        tags: tags(),
        description: description.to_owned(),
        dependencies: dependencies(),
        intraday_raw_dependencies: Vec::new(),
        lookback: Lookback { trading_days: 0 },
    };
    assert(r.intraday_raw_dependencies@.map_values(|q: IntradayDailyRawRequest| q@) =~= Seq::empty());
    r
}

/// Which outputs `requested_ids` names.
pub fn needs_from_requested(requested_ids: &[String]) -> (r: EfficiencyNeeds)
    ensures
        r.roe == strings_view(requested_ids@).contains(ROE_EFFICIENCY_ID@),
        r.cfo == strings_view(requested_ids@).contains(CFO_EFFICIENCY_ID@),
{
    EfficiencyNeeds {
        roe: contains_string(requested_ids, ROE_EFFICIENCY_ID),
        cfo: contains_string(requested_ids, CFO_EFFICIENCY_ID),
    }
}

/// The definition of the internal raw series `id`.
pub open spec fn efficiency_raw_view(id: Seq<char>) -> FactorSpecView {
    FactorSpecView {
        id,
        aliases: Seq::empty(),
        name: id,
        asset_class: AssetClass::Stock,
        frequency: Frequency::Daily,
        version: VERSION@,
        tags: seq!["internal"@, "financial_raw"@],
        description: "Internal DBZQ financial efficiency raw series "@ + id + "."@,
        dependencies: Seq::empty(),
        intraday_raw_dependencies: Seq::empty(),
        lookback: 0,
    }
}

/// The definition of the internal raw series `id`.
pub fn raw_spec(id: &str) -> (r: FactorSpec)
    ensures
        r@ == efficiency_raw_view(id@),
{
    let items: [&str; 2] = ["internal", "financial_raw"];
    let description = "Internal DBZQ financial efficiency raw series ".to_owned().concat(id).concat(".");
    let r = FactorSpec {
        id: id.to_owned(),
        aliases: Vec::new(),
        name: id.to_owned(),
        asset_class: AssetClass::Stock,
        frequency: Frequency::Daily,
        version: VERSION.to_owned(),
        tags: owned_strings(&items),
        description,
        dependencies: Vec::new(),
        intraday_raw_dependencies: Vec::new(),
        lookback: Lookback { trading_days: 0 },
    };
    assert(strs_view(items@) =~= seq!["internal"@, "financial_raw"@]);
    assert(strings_view(r.aliases@) =~= Seq::empty());
    assert(r.dependencies@.map_values(|d: DataRequest| d@) =~= Seq::empty());
    assert(r.intraday_raw_dependencies@.map_values(|q: IntradayDailyRawRequest| q@) =~= Seq::empty());
    r
}

/// The raw series `needs` calls for: ROE residuals, then CFO residuals.
pub open spec fn efficiency_raw_views(needs: EfficiencyNeeds) -> Seq<FactorSpecView> {
    let roe: Seq<FactorSpecView> = if needs.roe {
        seq![efficiency_raw_view(ROE_RAW_ID@)]
    } else {
        Seq::empty()
    };
    if needs.cfo {
        roe.push(efficiency_raw_view(CFO_RAW_ID@))
    } else {
        roe
    }
}

/// The raw series `needs` calls for.
pub fn raw_specs(needs: EfficiencyNeeds) -> (r: Vec<FactorSpec>)
    ensures
        r@.map_values(|s: FactorSpec| s@) == efficiency_raw_views(needs),
{
    let mut specs: Vec<FactorSpec> = Vec::new();
    if needs.roe {
        specs.push(raw_spec(ROE_RAW_ID));
    }
    if needs.cfo {
        specs.push(raw_spec(CFO_RAW_ID));
    }
    assert(specs@.map_values(|s: FactorSpec| s@) =~= efficiency_raw_views(needs));
    specs
}

/// One quarter's contribution to the marker: income and cash flow of the
/// first five quarters as needed, the balance sheet of every quarter.
pub open spec fn efficiency_step(
    m: MarkerContent,
    income: FinancialPitReader,
    cashflow: FinancialPitReader,
    balance: FinancialPitReader,
    code: Seq<char>,
    trade: i32,
    needs: EfficiencyNeeds,
    idx: int,
    end: i32,
) -> MarkerContent {
    let m1 = if idx <= 4 {
        with_record(
            m,
            seen_marker(FinancialStatementDataset::Income, income.rows(), income.preference_view(), code, trade, end),
        )
    } else {
        m
    };
    let m2 = if (needs.roe && idx <= 4) || (needs.cfo && idx == 0) {
        with_record(
            m1,
            seen_marker(
                FinancialStatementDataset::CashFlow,
                cashflow.rows(),
                cashflow.preference_view(),
                code,
                trade,
                end,
            ),
        )
    } else {
        m1
    };
    with_record(
        m2,
        seen_marker(
            FinancialStatementDataset::BalanceSheet,
            balance.rows(),
            balance.preference_view(),
            code,
            trade,
            end,
        ),
    )
}

/// What the marker of the first `n` quarters of `ends` holds.
pub open spec fn efficiency_content(
    income: FinancialPitReader,
    cashflow: FinancialPitReader,
    balance: FinancialPitReader,
    code: Seq<char>,
    trade: i32,
    needs: EfficiencyNeeds,
    ends: Seq<int>,
    n: nat,
) -> MarkerContent
    decreases n,
{
    if n == 0 {
        (Seq::empty(), Seq::empty())
    } else {
        efficiency_step(
            efficiency_content(income, cashflow, balance, code, trade, needs, ends, (n - 1) as nat),
            income,
            cashflow,
            balance,
            code,
            trade,
            needs,
            n - 1,
            ends[n - 1] as i32,
        )
    }
}

/// The marker of the inputs of a stock's efficiency snapshot on
/// `trade_date`: the statements of the six quarters back from the latest
/// quarter the income reader sees; `None` without such a chain or when
/// nothing was included.
pub fn efficiency_marker(
    ts_code: &str,
    trade_date: i32,
    income: &FinancialPitReader<'_>,
    cashflow: &FinancialPitReader<'_>,
    balance: &FinancialPitReader<'_>,
    needs: EfficiencyNeeds,
) -> (r: Option<FinancialEventMarker>)
    ensures
        match latest_end(income.rows(), income.preference_view(), ts_code@, trade_date, false) {
            None => r is None,
            Some(anchor) => match spec_quarter_chain(anchor as int, FINANCIAL_QUARTERS as nat) {
                None => r is None,
                Some(ends) => {
                    let content = efficiency_content(
                        *income,
                        *cashflow,
                        *balance,
                        ts_code@,
                        trade_date,
                        needs,
                        ends,
                        FINANCIAL_QUARTERS as nat,
                    );
                    &&& (r is None <==> (content.0.len() == 0 && content.1.len() == 0))
                    &&& (r matches Some(m) ==> canonical(m@) && same_members(m@.0, content.0)
                        && same_members(m@.1, content.1))
                },
            },
        },
{
    let anchor = match income.latest_quarter_end_date(ts_code, trade_date) {
        Some(a) => a,
        None => {
            return None;
        },
    };
    let ends = match quarter_chain(anchor, FINANCIAL_QUARTERS) {
        Some(e) => e,
        None => {
            return None;
        },
    };
    let ghost chain = spec_quarter_chain(anchor as int, FINANCIAL_QUARTERS as nat).unwrap();
    assert(ends@.len() == FINANCIAL_QUARTERS);
    let mut builder = FinancialEventMarkerBuilder::new();
    assert(builder@ =~= (Seq::<crate::financial_marker::FinancialRecordMarker>::empty(), Seq::<(Seq<char>, i64)>::empty()));
    let mut idx: usize = 0;
    while idx < ends.len()
        invariant
            idx <= ends@.len(),
            ends@.len() == FINANCIAL_QUARTERS,
            ends@.map_values(|v: i32| v as int) == chain,
            builder@ == efficiency_content(
                *income,
                *cashflow,
                *balance,
                ts_code@,
                trade_date,
                needs,
                chain,
                idx as nat,
            ),
        decreases ends@.len() - idx,
    {
        let end_date = ends[idx];
        proof {
            assert(chain[idx as int] == end_date as int);
        }
        if idx <= 4 {
            builder.include_reader_record_for_end_date(
                FinancialStatementDataset::Income,
                income,
                ts_code,
                trade_date,
                end_date,
            );
        }
        if (needs.roe && idx <= 4) || (needs.cfo && idx == 0) {
            builder.include_reader_record_for_end_date(
                FinancialStatementDataset::CashFlow,
                cashflow,
                ts_code,
                trade_date,
                end_date,
            );
        }
        builder.include_reader_record_for_end_date(
            FinancialStatementDataset::BalanceSheet,
            balance,
            ts_code,
            trade_date,
            end_date,
        );
        idx = idx + 1;
    }
    builder.build()
}

} // verus!
