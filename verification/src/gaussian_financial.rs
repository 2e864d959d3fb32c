//! DFZQ/DBZQ financial Gaussian-rank factors: output ids, published
//! definitions, internal raw series, and which statements a request reads.
use vstd::prelude::*;
use crate::catalog::{
    AssetClass,
    DataRequest,
    DataRequestView,
    DatasetId,
    FactorSpec,
    FactorSpecView,
    Frequency,
    IntradayDailyRawRequest,
    Lookback,
    owned_strings,
    plain_request,
    quarters_request,
    str_eq,
    strings_view,
    strings_with,
    strs_view,
};
use crate::dates::{same_quarter_previous_year, spec_same_quarter_previous_year};
use crate::financial_marker::{
    FinancialEventMarker,
    FinancialEventMarkerBuilder,
    FinancialRecordMarker,
    FinancialStatementDataset,
    MarkerContent,
    canonical,
    same_members,
    seen_marker,
    with_quarters,
    with_record,
};
use crate::financial_pit::{FinancialPitReader, latest_end};

verus! {

/// Key of the provider that computes every output.
pub const PROVIDER_KEY: &'static str = "stock|daily|dfzq_dbzq_gaussian_financial";
/// Version of the factors.
pub const VERSION: &'static str = "0.1.0";
/// Trading days of history the factors read.
pub const LOOKBACK: usize = 252;
/// Financial quarters the factors read.
pub const FINANCIAL_QUARTERS: usize = 8;
/// Id of the internal price-to-book series of the PB-ROE spread.
pub const PB_ROE_PB_RAW_ID: &'static str = "__gaussian_financial_pb_roe_pb_raw";
/// Id of the internal ROE series of the PB-ROE spread.
pub const PB_ROE_ROE_RAW_ID: &'static str = "__gaussian_financial_pb_roe_roe_raw";

/// The outputs.
#[derive(Clone, Copy, Debug, Eq, PartialEq, Structural, Ord, PartialOrd)]
pub enum GaussianFinancialOutput {
    EpSq,
    EbTwoVar,
    SpSq,
    CfpSq,
    CashValue,
    DivTtm,
    ProfitYoySq,
    DeltaRoe,
    PbRoeSpread,
}

/// The id of `kind`.
pub open spec fn gaussian_id(kind: GaussianFinancialOutput) -> Seq<char> {
    match kind {
        GaussianFinancialOutput::EpSq => "ep_sq_gauss_resid"@,
        GaussianFinancialOutput::EbTwoVar => "eb_two_var_gauss_resid"@,
        GaussianFinancialOutput::SpSq => "sp_sq_gauss_resid"@,
        GaussianFinancialOutput::CfpSq => "cfp_sq_gauss_resid"@,
        GaussianFinancialOutput::CashValue => "cash_value_gauss_resid"@,
        GaussianFinancialOutput::DivTtm => "div_ttm_gauss_resid"@,
        GaussianFinancialOutput::ProfitYoySq => "profit_yoy_sq_gauss_resid"@,
        GaussianFinancialOutput::DeltaRoe => "delta_roe_gauss_resid"@,
        GaussianFinancialOutput::PbRoeSpread => "pb_roe_gauss_spread"@,
    }
}

/// The alias of `kind`.
pub open spec fn gaussian_alias(kind: GaussianFinancialOutput) -> Seq<char> {
    match kind {
        GaussianFinancialOutput::EpSq => "Single Quarter EP Gaussian Residual"@,
        GaussianFinancialOutput::EbTwoVar => "Two Variable EB Gaussian Residual"@,
        GaussianFinancialOutput::SpSq => "Single Quarter SP Gaussian Residual"@,
        GaussianFinancialOutput::CfpSq => "Single Quarter CFP Gaussian Residual"@,
        GaussianFinancialOutput::CashValue => "Cash Value Gaussian Residual"@,
        GaussianFinancialOutput::DivTtm => "Dividend TTM Gaussian Residual"@,
        GaussianFinancialOutput::ProfitYoySq => "Profit YoY SQ Gaussian Residual"@,
        GaussianFinancialOutput::DeltaRoe => "DeltaROE Gaussian Residual"@,
        GaussianFinancialOutput::PbRoeSpread => "PB ROE Gaussian Spread"@,
    }
}

/// Whether `kind` is deprecated: single-quarter CFP, delta ROE and profit YoY.
pub open spec fn gaussian_deprecated(kind: GaussianFinancialOutput) -> bool {
    kind == GaussianFinancialOutput::CfpSq || kind == GaussianFinancialOutput::DeltaRoe || kind
        == GaussianFinancialOutput::ProfitYoySq
}

impl GaussianFinancialOutput {
    /// The factor id of this output.
    pub fn id(self) -> (r: &'static str)
        ensures
            r@ == gaussian_id(self),
    {
        match self {
            GaussianFinancialOutput::EpSq => "ep_sq_gauss_resid",
            GaussianFinancialOutput::EbTwoVar => "eb_two_var_gauss_resid",
            GaussianFinancialOutput::SpSq => "sp_sq_gauss_resid",
            GaussianFinancialOutput::CfpSq => "cfp_sq_gauss_resid",
            GaussianFinancialOutput::CashValue => "cash_value_gauss_resid",
            GaussianFinancialOutput::DivTtm => "div_ttm_gauss_resid",
            GaussianFinancialOutput::ProfitYoySq => "profit_yoy_sq_gauss_resid",
            GaussianFinancialOutput::DeltaRoe => "delta_roe_gauss_resid",
            GaussianFinancialOutput::PbRoeSpread => "pb_roe_gauss_spread",
        }
    }

    /// The alias of this output.
    pub fn alias(self) -> (r: &'static str)
        ensures
            r@ == gaussian_alias(self),
    {
        match self {
            GaussianFinancialOutput::EpSq => "Single Quarter EP Gaussian Residual",
            GaussianFinancialOutput::EbTwoVar => "Two Variable EB Gaussian Residual",
            GaussianFinancialOutput::SpSq => "Single Quarter SP Gaussian Residual",
            GaussianFinancialOutput::CfpSq => "Single Quarter CFP Gaussian Residual",
            GaussianFinancialOutput::CashValue => "Cash Value Gaussian Residual",
            GaussianFinancialOutput::DivTtm => "Dividend TTM Gaussian Residual",
            GaussianFinancialOutput::ProfitYoySq => "Profit YoY SQ Gaussian Residual",
            GaussianFinancialOutput::DeltaRoe => "DeltaROE Gaussian Residual",
            GaussianFinancialOutput::PbRoeSpread => "PB ROE Gaussian Spread",
        }
    }

    /// The output whose id is `id`.
    pub fn from_id(id: &str) -> (r: Option<Self>)
        ensures
            match r {
                Some(kind) => gaussian_id(kind) == id@,
                None => forall|kind: GaussianFinancialOutput| gaussian_id(kind) != id@,
            },
    {
        let all: [GaussianFinancialOutput; 9] = [
            GaussianFinancialOutput::EpSq,
            GaussianFinancialOutput::EbTwoVar,
            GaussianFinancialOutput::SpSq,
            GaussianFinancialOutput::CfpSq,
            GaussianFinancialOutput::CashValue,
            GaussianFinancialOutput::DivTtm,
            GaussianFinancialOutput::ProfitYoySq,
            GaussianFinancialOutput::DeltaRoe,
            GaussianFinancialOutput::PbRoeSpread,
        ];
        let mut i: usize = 0;
        while i < 9
            invariant
                i <= 9,
                all@ == seq![
                    GaussianFinancialOutput::EpSq,
                    GaussianFinancialOutput::EbTwoVar,
                    GaussianFinancialOutput::SpSq,
                    GaussianFinancialOutput::CfpSq,
                    GaussianFinancialOutput::CashValue,
                    GaussianFinancialOutput::DivTtm,
                    GaussianFinancialOutput::ProfitYoySq,
                    GaussianFinancialOutput::DeltaRoe,
                    GaussianFinancialOutput::PbRoeSpread,
                ],
                forall|j: int| 0 <= j < i ==> gaussian_id(#[trigger] all@[j]) != id@,
            decreases 9 - i,
        {
            if str_eq(all[i].id(), id) {
                return Some(all[i]);
            }
            i = i + 1;
        }
        proof {
            assert forall|kind: GaussianFinancialOutput| gaussian_id(kind) != id@ by {
                match kind {
                    GaussianFinancialOutput::EpSq => assert(all@[0] == kind),
                    GaussianFinancialOutput::EbTwoVar => assert(all@[1] == kind),
                    GaussianFinancialOutput::SpSq => assert(all@[2] == kind),
                    GaussianFinancialOutput::CfpSq => assert(all@[3] == kind),
                    GaussianFinancialOutput::CashValue => assert(all@[4] == kind),
                    GaussianFinancialOutput::DivTtm => assert(all@[5] == kind),
                    GaussianFinancialOutput::ProfitYoySq => assert(all@[6] == kind),
                    GaussianFinancialOutput::DeltaRoe => assert(all@[7] == kind),
                    GaussianFinancialOutput::PbRoeSpread => assert(all@[8] == kind),
                }
            }
        }
        None
    }

    /// Whether this output is deprecated.
    pub fn is_deprecated(self) -> (r: bool)
        ensures
            r == gaussian_deprecated(self),
    {
        match self {
            GaussianFinancialOutput::CfpSq | GaussianFinancialOutput::DeltaRoe
            | GaussianFinancialOutput::ProfitYoySq => true,
            _ => false,
        }
    }
}

/// A factor computing one Gaussian financial output.
#[derive(Clone, Copy, Debug)]
pub struct GaussianFinancialFactor {
    pub kind: GaussianFinancialOutput,
}

impl GaussianFinancialFactor {
    /// The factor of output `kind`.
    pub fn new(kind: GaussianFinancialOutput) -> (r: Self)
        ensures
            r.kind == kind,
    {
        GaussianFinancialFactor { kind }
    }

    /// The published definition of this factor.
    pub fn spec(&self) -> (r: FactorSpec)
        ensures
            r@ == gaussian_factor_view(self.kind),
    {
        spec(self.kind)
    }
}

/// The tags every Gaussian financial factor carries.
pub open spec fn gaussian_base_tags() -> Seq<Seq<char>> {
    seq![
        "DFZQ"@,
        "DBZQ"@,
        "financial"@,
        "fundamental"@,
        "pit"@,
        "gaussian_rank"@,
        "residual"@,
        "neutralize"@,
        "barra"@,
        "size"@,
        "sector"@,
        "daily"@,
    ]
}

/// The tags of `kind`: the common ones, and `deprecated` when it is.
pub open spec fn gaussian_tags(kind: GaussianFinancialOutput) -> Seq<Seq<char>> {
    if gaussian_deprecated(kind) {
        gaussian_base_tags().push("deprecated"@)
    } else {
        gaussian_base_tags()
    }
}

/// The tags of `kind`.
pub fn tags(kind: GaussianFinancialOutput) -> (r: Vec<String>)
    ensures
        strings_view(r@) == gaussian_tags(kind),
{
    let items: [&str; 12] = [
        "DFZQ",
        "DBZQ",
        "financial",
        "fundamental",
        "pit",
        "gaussian_rank",
        "residual",
        "neutralize",
        "barra",
        "size",
        "sector",
        "daily",
    ];
    assert(strs_view(items@) =~= gaussian_base_tags());
    if kind.is_deprecated() {
        strings_with(&items, "deprecated")
    } else {
        owned_strings(&items)
    }
}

/// Dividend columns read.
pub open spec fn gaussian_dividend_columns() -> Seq<Seq<char>> {
    seq!["ts_code"@, "ann_date"@, "div_proc"@, "cash_div_tax"@, "ex_date"@, "base_share"@]
}

/// The data the Gaussian financial factors read.
pub open spec fn gaussian_dependencies() -> Seq<DataRequestView> {
    seq![
        plain_request(DatasetId::StockDailyPv, seq!["close"@]),
        plain_request(DatasetId::StockDailyBasic, seq!["total_mv"@]),
        quarters_request(DatasetId::StockIncome, seq!["revenue"@, "n_income_attr_p"@], FINANCIAL_QUARTERS),
        quarters_request(DatasetId::StockBalanceSheet, seq!["total_hldr_eqy_exc_min_int"@], FINANCIAL_QUARTERS),
        quarters_request(
            DatasetId::StockCashFlow,
            seq!["n_cashflow_act"@, "c_cash_equ_end_period"@],
            FINANCIAL_QUARTERS,
        ),
        plain_request(DatasetId::StockDividend, gaussian_dividend_columns()),
        plain_request(DatasetId::StockBarraDaily, seq!["SIZE"@]),
        plain_request(DatasetId::StockSwClassification, seq!["l1_code"@]),
    ]
}

/// The data the Gaussian financial factors read.
pub fn dependencies() -> (r: Vec<DataRequest>)
    ensures
        r@.map_values(|d: DataRequest| d@) == gaussian_dependencies(),
{
    let close: [&str; 1] = ["close"];
    let mv: [&str; 1] = ["total_mv"];
    let income: [&str; 2] = ["revenue", "n_income_attr_p"];
    let balance: [&str; 1] = ["total_hldr_eqy_exc_min_int"];
    let cashflow: [&str; 2] = ["n_cashflow_act", "c_cash_equ_end_period"];
    let dividend: [&str; 6] = ["ts_code", "ann_date", "div_proc", "cash_div_tax", "ex_date", "base_share"];
    let size: [&str; 1] = ["SIZE"];
    let sector: [&str; 1] = ["l1_code"];
    let mut out: Vec<DataRequest> = Vec::new();
    out.push(DataRequest::new(DatasetId::StockDailyPv, &close));
    out.push(DataRequest::new(DatasetId::StockDailyBasic, &mv));
    out.push(DataRequest::financial_quarters(DatasetId::StockIncome, &income, FINANCIAL_QUARTERS));
    out.push(DataRequest::financial_quarters(DatasetId::StockBalanceSheet, &balance, FINANCIAL_QUARTERS));
    out.push(DataRequest::financial_quarters(DatasetId::StockCashFlow, &cashflow, FINANCIAL_QUARTERS));
    out.push(DataRequest::new(DatasetId::StockDividend, &dividend));
    out.push(DataRequest::new(DatasetId::StockBarraDaily, &size));
    out.push(DataRequest::new(DatasetId::StockSwClassification, &sector));
    assert(strs_view(close@) =~= seq!["close"@]);
    assert(strs_view(mv@) =~= seq!["total_mv"@]);
    assert(strs_view(income@) =~= seq!["revenue"@, "n_income_attr_p"@]);
    assert(strs_view(balance@) =~= seq!["total_hldr_eqy_exc_min_int"@]);
    assert(strs_view(cashflow@) =~= seq!["n_cashflow_act"@, "c_cash_equ_end_period"@]);
    assert(strs_view(dividend@) =~= gaussian_dividend_columns());
    assert(strs_view(size@) =~= seq!["SIZE"@]);
    assert(strs_view(sector@) =~= seq!["l1_code"@]);
    assert(out@.map_values(|d: DataRequest| d@) =~= gaussian_dependencies());
    out
}

/// The published definition of `kind`.
pub open spec fn gaussian_factor_view(kind: GaussianFinancialOutput) -> FactorSpecView {
    FactorSpecView {
        id: gaussian_id(kind),
        aliases: seq![gaussian_alias(kind)],
        name: gaussian_id(kind),
        asset_class: AssetClass::Stock,
        frequency: Frequency::Daily,
        version: VERSION@,
        tags: gaussian_tags(kind),
        description: "DFZQ/DBZQ financial Gaussian-rank reconstruction factor "@ + gaussian_id(kind)
            + ". It Gaussian-rank transforms the financial variables cross-sectionally, takes OLS residuals, applies the requested neutralization rule, and excludes BJ stocks."@,
        dependencies: gaussian_dependencies(),
        intraday_raw_dependencies: Seq::empty(),
        lookback: LOOKBACK,
    }
}

/// The published definition of `kind`.
pub fn spec(kind: GaussianFinancialOutput) -> (r: FactorSpec)
    ensures
        r@ == gaussian_factor_view(kind),
{
    let mut aliases: Vec<String> = Vec::new();
    aliases.push(kind.alias().to_owned());
    let description = "DFZQ/DBZQ financial Gaussian-rank reconstruction factor ".to_owned().concat(kind.id()).concat(
        ". It Gaussian-rank transforms the financial variables cross-sectionally, takes OLS residuals, applies the requested neutralization rule, and excludes BJ stocks.",
    );
    let r = FactorSpec {
        id: kind.id().to_owned(),
        aliases,
        name: kind.id().to_owned(),
        asset_class: AssetClass::Stock,
        frequency: Frequency::Daily,
        version: VERSION.to_owned(),
        tags: tags(kind),
        description,
        dependencies: dependencies(),
        intraday_raw_dependencies: Vec::new(),
        lookback: Lookback { trading_days: LOOKBACK },
    };
    assert(strings_view(r.aliases@) =~= seq![gaussian_alias(kind)]);
    assert(r.intraday_raw_dependencies@.map_values(|q: IntradayDailyRawRequest| q@) =~= Seq::empty());
    r
}

/// The definition of the internal raw series `id`.
pub open spec fn gaussian_raw_view(id: Seq<char>) -> FactorSpecView {
    FactorSpecView {
        id,
        aliases: Seq::empty(),
        name: id,
        asset_class: AssetClass::Stock,
        frequency: Frequency::Daily,
        version: VERSION@,
        tags: seq!["internal"@, "financial_raw"@],
        description: "Internal Gaussian financial raw series "@ + id + "."@,
        dependencies: Seq::empty(),
        intraday_raw_dependencies: Seq::empty(),
        lookback: 0,
    }
}

/// The definition of the internal raw series `id`.
pub fn raw_spec(id: &str) -> (r: FactorSpec)
    ensures
        r@ == gaussian_raw_view(id@),
{
    let items: [&str; 2] = ["internal", "financial_raw"];
    let description = "Internal Gaussian financial raw series ".to_owned().concat(id).concat(".");
    let r = FactorSpec {
        id: id.to_owned(),
        aliases: Vec::new(),
        name: id.to_owned(),
        asset_class: AssetClass::Stock,
        frequency: Frequency::Daily,
        version: VERSION.to_owned(),
        tags: owned_strings(&items),
        description,
        dependencies: Vec::new(),
        intraday_raw_dependencies: Vec::new(),
        lookback: Lookback { trading_days: 0 },
    };
    assert(strs_view(items@) =~= seq!["internal"@, "financial_raw"@]);
    assert(strings_view(r.aliases@) =~= Seq::empty());
    assert(r.dependencies@.map_values(|d: DataRequest| d@) =~= Seq::empty());
    assert(r.intraday_raw_dependencies@.map_values(|q: IntradayDailyRawRequest| q@) =~= Seq::empty());
    r
}

/// The internal raw series of one output: the PB-ROE spread reads two, any
/// other output one named after it.
pub open spec fn output_raw_ids(kind: GaussianFinancialOutput) -> Seq<Seq<char>> {
    match kind {
        GaussianFinancialOutput::PbRoeSpread => seq![PB_ROE_PB_RAW_ID@, PB_ROE_ROE_RAW_ID@],
        _ => seq![gaussian_id(kind)],
    }
}

/// The internal raw series of the first `n` requested outputs, in order.
pub open spec fn requested_raw_ids(requested: Seq<GaussianFinancialOutput>, n: nat) -> Seq<Seq<char>>
    decreases n,
{
    if n == 0 {
        Seq::empty()
    } else {
        requested_raw_ids(requested, (n - 1) as nat) + output_raw_ids(requested[n - 1])
    }
}

/// The definitions of the internal raw series of `requested`, in order.
pub fn raw_specs_for_requested(requested: &[GaussianFinancialOutput]) -> (r: Vec<FactorSpec>)
    ensures
        r@.map_values(|s: FactorSpec| s@) == requested_raw_ids(requested@, requested@.len()).map_values(
            |id: Seq<char>| gaussian_raw_view(id),
        ),
{
    let mut specs: Vec<FactorSpec> = Vec::new();
    let mut i: usize = 0;
    while i < requested.len()
        invariant
            i <= requested@.len(),
            specs@.map_values(|s: FactorSpec| s@) == requested_raw_ids(requested@, i as nat).map_values(
                |id: Seq<char>| gaussian_raw_view(id),
            ),
        decreases requested@.len() - i,
    {
        let ghost before = specs@;
        let kind = requested[i];
        match kind {
            GaussianFinancialOutput::PbRoeSpread => {
                specs.push(raw_spec(PB_ROE_PB_RAW_ID));
                specs.push(raw_spec(PB_ROE_ROE_RAW_ID));
            },
            _ => {
                specs.push(raw_spec(kind.id()));
            },
        }
        proof {
            let f = |id: Seq<char>| gaussian_raw_view(id);
            let ids_before = requested_raw_ids(requested@, i as nat);
            let extra = output_raw_ids(kind);
            assert(requested_raw_ids(requested@, (i + 1) as nat) == ids_before + extra);
            assert((ids_before + extra).map_values(f) =~= ids_before.map_values(f) + extra.map_values(f));
            assert(specs@.map_values(|s: FactorSpec| s@) =~= before.map_values(|s: FactorSpec| s@) + extra.map_values(f));
        }
        i = i + 1;
    }
    specs
}

/// Which inputs the snapshots of a request need.
#[derive(Clone, Copy, Debug, Default, PartialEq, Eq, Structural)]
pub struct FinancialNeeds {
    pub total_mv_snapshot: bool,
    pub income_latest: bool,
    pub income_yoy: bool,
    pub income_ttm: bool,
    pub balance_latest: bool,
    pub cashflow_latest: bool,
    pub dividend_ltm: bool,
}

/// The inputs one output needs.
pub open spec fn output_needs(kind: GaussianFinancialOutput) -> FinancialNeeds {
    let none = FinancialNeeds {
        total_mv_snapshot: false,
        income_latest: false,
        income_yoy: false,
        income_ttm: false,
        balance_latest: false,
        cashflow_latest: false,
        dividend_ltm: false,
    };
    match kind {
        GaussianFinancialOutput::EpSq | GaussianFinancialOutput::SpSq => FinancialNeeds {
            total_mv_snapshot: true,
            income_latest: true,
            ..none
        },
        GaussianFinancialOutput::EbTwoVar => FinancialNeeds {
            total_mv_snapshot: true,
            income_ttm: true,
            balance_latest: true,
            ..none
        },
        GaussianFinancialOutput::CfpSq | GaussianFinancialOutput::CashValue => FinancialNeeds {
            total_mv_snapshot: true,
            cashflow_latest: true,
            ..none
        },
        GaussianFinancialOutput::DivTtm => FinancialNeeds { total_mv_snapshot: true, dividend_ltm: true, ..none },
        GaussianFinancialOutput::ProfitYoySq => FinancialNeeds { income_latest: true, income_yoy: true, ..none },
        GaussianFinancialOutput::DeltaRoe => FinancialNeeds {
            income_latest: true,
            income_yoy: true,
            balance_latest: true,
            ..none
        },
        GaussianFinancialOutput::PbRoeSpread => FinancialNeeds {
            total_mv_snapshot: true,
            income_latest: true,
            balance_latest: true,
            ..none
        },
    }
}

/// Whether some output among the first `n` of `outputs` has the need `f`.
pub open spec fn any_needs(outputs: Seq<GaussianFinancialOutput>, n: int, f: spec_fn(FinancialNeeds) -> bool) -> bool {
    exists|i: int| 0 <= i < n && #[trigger] f(output_needs(outputs[i]))
}

/// The union of the needs of the first `n` of `outputs`.
pub open spec fn needs_upto(outputs: Seq<GaussianFinancialOutput>, n: int) -> FinancialNeeds {
    FinancialNeeds {
        total_mv_snapshot: any_needs(outputs, n, |x: FinancialNeeds| x.total_mv_snapshot),
        income_latest: any_needs(outputs, n, |x: FinancialNeeds| x.income_latest),
        income_yoy: any_needs(outputs, n, |x: FinancialNeeds| x.income_yoy),
        income_ttm: any_needs(outputs, n, |x: FinancialNeeds| x.income_ttm),
        balance_latest: any_needs(outputs, n, |x: FinancialNeeds| x.balance_latest),
        cashflow_latest: any_needs(outputs, n, |x: FinancialNeeds| x.cashflow_latest),
        dividend_ltm: any_needs(outputs, n, |x: FinancialNeeds| x.dividend_ltm),
    }
}

impl FinancialNeeds {
    /// The inputs `outputs` need together.
    pub fn from_outputs(outputs: &[GaussianFinancialOutput]) -> (r: Self)
        ensures
            r == needs_upto(outputs@, outputs@.len() as int),
    {
        let mut needs = FinancialNeeds {
            total_mv_snapshot: false,
            income_latest: false,
            income_yoy: false,
            income_ttm: false,
            balance_latest: false,
            cashflow_latest: false,
            dividend_ltm: false,
        };
        let mut i: usize = 0;
        while i < outputs.len()
            invariant
                i <= outputs@.len(),
                needs == needs_upto(outputs@, i as int),
            decreases outputs@.len() - i,
        {
            match outputs[i] {
                GaussianFinancialOutput::EpSq | GaussianFinancialOutput::SpSq => {
                    needs.total_mv_snapshot = true;
                    needs.income_latest = true;
                },
                GaussianFinancialOutput::EbTwoVar => {
                    needs.total_mv_snapshot = true;
                    needs.income_ttm = true;
                    needs.balance_latest = true;
                },
                GaussianFinancialOutput::CfpSq => {
                    needs.total_mv_snapshot = true;
                    needs.cashflow_latest = true;
                },
                GaussianFinancialOutput::CashValue => {
                    needs.total_mv_snapshot = true;
                    needs.cashflow_latest = true;
                },
                GaussianFinancialOutput::DivTtm => {
                    needs.total_mv_snapshot = true;
                    needs.dividend_ltm = true;
                },
                GaussianFinancialOutput::ProfitYoySq => {
                    needs.income_latest = true;
                    needs.income_yoy = true;
                },
                GaussianFinancialOutput::DeltaRoe => {
                    needs.income_latest = true;
                    needs.income_yoy = true;
                    needs.balance_latest = true;
                },
                GaussianFinancialOutput::PbRoeSpread => {
                    needs.total_mv_snapshot = true;
                    needs.income_latest = true;
                    needs.balance_latest = true;
                },
            }
            proof {
                lemma_needs_step(outputs@, i as int);
            }
            i = i + 1;
        }
        needs
    }

    /// Whether any income statement is read.
    pub fn uses_income(self) -> (r: bool)
        ensures
            r == (self.income_latest || self.income_yoy || self.income_ttm),
    {
        self.income_latest || self.income_yoy || self.income_ttm
    }

    /// Whether the balance sheet is read.
    pub fn uses_balance(self) -> (r: bool)
        ensures
            r == self.balance_latest,
    {
        self.balance_latest
    }

    /// Whether the cash flow statement is read.
    pub fn uses_cashflow(self) -> (r: bool)
        ensures
            r == self.cashflow_latest,
    {
        self.cashflow_latest
    }

    /// Whether dividends are read.
    pub fn uses_dividend(self) -> (r: bool)
        ensures
            r == self.dividend_ltm,
    {
        self.dividend_ltm
    }
}

proof fn lemma_needs_step(outputs: Seq<GaussianFinancialOutput>, i: int)
    requires
        0 <= i < outputs.len(),
    ensures
        forall|f: spec_fn(FinancialNeeds) -> bool| #[trigger] any_needs(outputs, i + 1, f) == (any_needs(outputs, i, f)
            || f(output_needs(outputs[i]))),
{
    assert forall|f: spec_fn(FinancialNeeds) -> bool| #[trigger] any_needs(outputs, i + 1, f) == (any_needs(
        outputs,
        i,
        f,
    ) || f(output_needs(outputs[i]))) by {
        if any_needs(outputs, i + 1, f) {
            let j = choose|j: int| 0 <= j < i + 1 && #[trigger] f(output_needs(outputs[j]));
            if j < i {
                assert(any_needs(outputs, i, f));
            }
        }
        if any_needs(outputs, i, f) {
            let j = choose|j: int| 0 <= j < i && #[trigger] f(output_needs(outputs[j]));
            assert(0 <= j < i + 1);
        }
    }
}

/// Whether some output among the first `n` of `outputs` satisfies `p`.
pub open spec fn some_output(outputs: Seq<GaussianFinancialOutput>, n: int, p: spec_fn(GaussianFinancialOutput) -> bool) -> bool {
    exists|i: int| 0 <= i < n && #[trigger] p(outputs[i])
}

proof fn lemma_any_needs_is_some_output(
    outputs: Seq<GaussianFinancialOutput>,
    n: int,
    f: spec_fn(FinancialNeeds) -> bool,
    p: spec_fn(GaussianFinancialOutput) -> bool,
)
    requires
        forall|k: GaussianFinancialOutput| #[trigger] f(output_needs(k)) == p(k),
    ensures
        any_needs(outputs, n, f) == some_output(outputs, n, p),
{
    if any_needs(outputs, n, f) {
        let j = choose|j: int| 0 <= j < n && #[trigger] f(output_needs(outputs[j]));
        assert(p(outputs[j]));
    }
    if some_output(outputs, n, p) {
        let j = choose|j: int| 0 <= j < n && #[trigger] p(outputs[j]);
        assert(f(output_needs(outputs[j])));
    }
}

proof fn lemma_some_output_unfold(
    outputs: Seq<GaussianFinancialOutput>,
    n: int,
    p: spec_fn(GaussianFinancialOutput) -> bool,
)
    ensures
        some_output(outputs, n, p) == (exists|i: int| 0 <= i < n && p(outputs[i])),
{
}

/// The needs of a request follow the statements each requested formula
/// reads: the balance sheet for EB two-var, delta ROE and the PB-ROE spread;
/// the latest income statement for EP, SP, profit growth, delta ROE and the
/// PB-ROE spread; the year-ago income statement for profit growth and delta
/// ROE; the trailing income for EB two-var; the cash flow statement for CFP
/// and cash value; dividends for the dividend yield; and the market value
/// for every output but profit growth and delta ROE. A need holds exactly
/// when some requested output reads it.
pub proof fn lemma_request_needs_match_statements(outputs: Seq<GaussianFinancialOutput>)
    ensures
        ({
            let r = needs_upto(outputs, outputs.len() as int);
            let n = outputs.len() as int;
            &&& r.balance_latest == (exists|i: int|
                0 <= i < n && (outputs[i] == GaussianFinancialOutput::EbTwoVar || outputs[i]
                    == GaussianFinancialOutput::DeltaRoe || outputs[i] == GaussianFinancialOutput::PbRoeSpread))
            &&& r.income_latest == (exists|i: int|
                0 <= i < n && (outputs[i] == GaussianFinancialOutput::EpSq || outputs[i]
                    == GaussianFinancialOutput::SpSq || outputs[i] == GaussianFinancialOutput::ProfitYoySq
                    || outputs[i] == GaussianFinancialOutput::DeltaRoe || outputs[i]
                    == GaussianFinancialOutput::PbRoeSpread))
            &&& r.income_yoy == (exists|i: int|
                0 <= i < n && (outputs[i] == GaussianFinancialOutput::ProfitYoySq || outputs[i]
                    == GaussianFinancialOutput::DeltaRoe))
            &&& r.income_ttm == (exists|i: int| 0 <= i < n && outputs[i] == GaussianFinancialOutput::EbTwoVar)
            &&& r.cashflow_latest == (exists|i: int|
                0 <= i < n && (outputs[i] == GaussianFinancialOutput::CfpSq || outputs[i]
                    == GaussianFinancialOutput::CashValue))
            &&& r.dividend_ltm == (exists|i: int| 0 <= i < n && outputs[i] == GaussianFinancialOutput::DivTtm)
            &&& r.total_mv_snapshot == (exists|i: int|
                0 <= i < n && outputs[i] != GaussianFinancialOutput::ProfitYoySq && outputs[i]
                    != GaussianFinancialOutput::DeltaRoe)
        }),
{
    let n = outputs.len() as int;
    let pb = |k: GaussianFinancialOutput|
        k == GaussianFinancialOutput::EbTwoVar || k == GaussianFinancialOutput::DeltaRoe || k
            == GaussianFinancialOutput::PbRoeSpread;
    let pil = |k: GaussianFinancialOutput|
        k == GaussianFinancialOutput::EpSq || k == GaussianFinancialOutput::SpSq || k
            == GaussianFinancialOutput::ProfitYoySq || k == GaussianFinancialOutput::DeltaRoe || k
            == GaussianFinancialOutput::PbRoeSpread;
    let piy = |k: GaussianFinancialOutput|
        k == GaussianFinancialOutput::ProfitYoySq || k == GaussianFinancialOutput::DeltaRoe;
    let pit = |k: GaussianFinancialOutput| k == GaussianFinancialOutput::EbTwoVar;
    let pc = |k: GaussianFinancialOutput|
        k == GaussianFinancialOutput::CfpSq || k == GaussianFinancialOutput::CashValue;
    let pd = |k: GaussianFinancialOutput| k == GaussianFinancialOutput::DivTtm;
    let pm = |k: GaussianFinancialOutput|
        k != GaussianFinancialOutput::ProfitYoySq && k != GaussianFinancialOutput::DeltaRoe;
    lemma_any_needs_is_some_output(outputs, n, |x: FinancialNeeds| x.balance_latest, pb);
    lemma_any_needs_is_some_output(outputs, n, |x: FinancialNeeds| x.income_latest, pil);
    lemma_any_needs_is_some_output(outputs, n, |x: FinancialNeeds| x.income_yoy, piy);
    lemma_any_needs_is_some_output(outputs, n, |x: FinancialNeeds| x.income_ttm, pit);
    lemma_any_needs_is_some_output(outputs, n, |x: FinancialNeeds| x.cashflow_latest, pc);
    lemma_any_needs_is_some_output(outputs, n, |x: FinancialNeeds| x.dividend_ltm, pd);
    lemma_any_needs_is_some_output(outputs, n, |x: FinancialNeeds| x.total_mv_snapshot, pm);
    lemma_some_output_unfold(outputs, n, pb);
    lemma_some_output_unfold(outputs, n, pil);
    lemma_some_output_unfold(outputs, n, piy);
    lemma_some_output_unfold(outputs, n, pit);
    lemma_some_output_unfold(outputs, n, pc);
    lemma_some_output_unfold(outputs, n, pd);
    lemma_some_output_unfold(outputs, n, pm);
}

/// `m` with the seen version of the latest quarter `reader` sees, if any.
pub open spec fn with_latest_quarter(
    m: MarkerContent,
    dataset: FinancialStatementDataset,
    reader: FinancialPitReader,
    code: Seq<char>,
    trade: i32,
) -> MarkerContent {
    match latest_end(reader.rows(), reader.preference_view(), code, trade, false) {
        Some(e) => with_record(m, seen_marker(dataset, reader.rows(), reader.preference_view(), code, trade, e)),
        None => m,
    }
}

/// The income part of a snapshot marker: the latest quarter, the same
/// quarter a year earlier when year-over-year figures are needed, and the
/// four quarters back from the latest when trailing sums are needed.
pub open spec fn with_income_inputs(
    m: MarkerContent,
    income: FinancialPitReader,
    code: Seq<char>,
    trade: i32,
    needs: FinancialNeeds,
) -> MarkerContent {
    if needs.income_latest || needs.income_yoy || needs.income_ttm {
        match latest_end(income.rows(), income.preference_view(), code, trade, false) {
            Some(e) => {
                let rows = income.rows();
                let pref = income.preference_view();
                let latest = with_record(m, seen_marker(FinancialStatementDataset::Income, rows, pref, code, trade, e));
                let yoy = if needs.income_yoy {
                    with_record(
                        latest,
                        seen_marker(
                            FinancialStatementDataset::Income,
                            rows,
                            pref,
                            code,
                            trade,
                            spec_same_quarter_previous_year(e as int) as i32,
                        ),
                    )
                } else {
                    latest
                };
                if needs.income_ttm {
                    with_quarters(yoy, FinancialStatementDataset::Income, rows, pref, code, trade, Some(e as int), 4)
                } else {
                    yoy
                }
            },
            None => m,
        }
    } else {
        m
    }
}

/// Everything a stock's Gaussian financial snapshot on `trade` depends on,
/// for `needs`: the income inputs, the latest balance sheet and cash-flow
/// quarters when needed, and the trailing dividend under `div_ttm`.
pub open spec fn snapshot_marker_content(
    income: FinancialPitReader,
    balance: FinancialPitReader,
    cashflow: FinancialPitReader,
    code: Seq<char>,
    trade: i32,
    dividend_marker: i64,
    needs: FinancialNeeds,
) -> MarkerContent {
    let m1 = with_income_inputs((Seq::empty(), Seq::empty()), income, code, trade, needs);
    let m2 = if needs.balance_latest {
        with_latest_quarter(m1, FinancialStatementDataset::BalanceSheet, balance, code, trade)
    } else {
        m1
    };
    let m3 = if needs.cashflow_latest {
        with_latest_quarter(m2, FinancialStatementDataset::CashFlow, cashflow, code, trade)
    } else {
        m2
    };
    if needs.dividend_ltm {
        (m3.0, m3.1.push(("div_ttm"@, dividend_marker)))
    } else {
        m3
    }
}

/// The marker of the inputs of a stock's Gaussian financial snapshot on
/// `trade_date` for `needs`. `dividend_marker` is the bit pattern of the
/// stock's trailing cash dividend, recorded under `div_ttm`.
pub fn financial_snapshot_marker(
    ts_code: &str,
    trade_date: i32,
    income: &FinancialPitReader<'_>,
    balance: &FinancialPitReader<'_>,
    cashflow: &FinancialPitReader<'_>,
    dividend_marker: i64,
    needs: FinancialNeeds,
) -> (r: Option<FinancialEventMarker>)
    requires
        needs.income_yoy ==> (latest_end(income.rows(), income.preference_view(), ts_code@, trade_date, false) matches Some(
            e,
        ) ==> e >= -2_147_473_648),
    ensures
        ({
            let content = snapshot_marker_content(
                *income,
                *balance,
                *cashflow,
                ts_code@,
                trade_date,
                dividend_marker,
                needs,
            );
            &&& (r is None <==> (content.0.len() == 0 && content.1.len() == 0))
            &&& (r matches Some(m) ==> canonical(m@) && same_members(m@.0, content.0) && same_members(
                m@.1,
                content.1,
            ))
        }),
{
    let mut builder = FinancialEventMarkerBuilder::new();
    assert(builder@ =~= (Seq::<FinancialRecordMarker>::empty(), Seq::<(Seq<char>, i64)>::empty()));
    if needs.income_latest || needs.income_yoy || needs.income_ttm {
        if let Some(end_date) = income.latest_quarter_end_date(ts_code, trade_date) {
            builder.include_reader_record_for_end_date(
                FinancialStatementDataset::Income,
                income,
                ts_code,
                trade_date,
                end_date,
            );
            if needs.income_yoy {
                builder.include_reader_record_for_end_date(
                    FinancialStatementDataset::Income,
                    income,
                    ts_code,
                    trade_date,
                    same_quarter_previous_year(end_date),
                );
            }
            if needs.income_ttm {
                builder.include_reader_ttm_for_end_date(
                    FinancialStatementDataset::Income,
                    income,
                    ts_code,
                    trade_date,
                    end_date,
                );
            }
        }
    }
    if needs.balance_latest {
        builder.include_reader_latest_quarter(FinancialStatementDataset::BalanceSheet, balance, ts_code, trade_date);
    }
    if needs.cashflow_latest {
        builder.include_reader_latest_quarter(FinancialStatementDataset::CashFlow, cashflow, ts_code, trade_date);
    }
    if needs.dividend_ltm {
        builder.include_synthetic("div_ttm", dividend_marker);
    }
    builder.build()
}

} // verus!
