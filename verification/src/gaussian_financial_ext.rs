//! Extended Gaussian-rank financial regression factors: output ids,
//! published definitions, internal raw series, and the event marker of a
//! stock's inputs.
use vstd::prelude::*;
use crate::catalog::{
    AssetClass,
    DataRequest,
    DataRequestView,
    DatasetId,
    FactorSpec,
    FactorSpecView,
    Frequency,
    IntradayDailyRawRequest,
    Lookback,
    owned_strings,
    plain_request,
    quarters_request,
    str_eq,
    strings_view,
    strs_view,
};
use crate::dates::{same_quarter_previous_year, spec_same_quarter_previous_year};
use crate::financial_marker::{
    FinancialEventMarker,
    FinancialEventMarkerBuilder,
    FinancialStatementDataset,
    MarkerContent,
    canonical,
    same_members,
    seen_marker,
    with_record,
};
use crate::financial_pit::{FinancialPitReader, latest_end};

verus! {

/// Key of the provider that computes every output.
pub const PROVIDER_KEY: &'static str = "stock|daily|gaussian_financial_ext";
/// Version of the factors.
pub const VERSION: &'static str = "0.1.0";
/// Trading days of history the factors read.
pub const LOOKBACK: usize = 252;
/// Financial quarters the factors read.
pub const FINANCIAL_QUARTERS: usize = 8;

/// The outputs.
#[derive(Clone, Copy, Debug, Eq, PartialEq, Structural, Ord, PartialOrd)]
pub enum GaussianFinancialExtOutput {
    EbitYoyChgMv,
    TComprIncomeMv,
    UndistrProfitYoyChgMv,
    NOthIncomeMv,
    TotalAssetsMv,
    InvCashOutMv,
    PayrollPayableOthPayYoy,
    IncomeTaxEbitYoy,
    CapexCipYoy,
    NetprofitComprParent,
    TotalCogsCurLiabYoy,
    BizTaxSurchgAssets,
    SurplusReseIntExpYoy,
    UndistrProfitYoy,
    OperCashInYoy,
    CashEquOthCompIncomeYoy,
}

/// The id of `kind`.
pub open spec fn ext_id(kind: GaussianFinancialExtOutput) -> Seq<char> {
    match kind {
        GaussianFinancialExtOutput::EbitYoyChgMv => "ebit_yoy_chg_mv_gauss_resid"@,
        GaussianFinancialExtOutput::TComprIncomeMv => "t_compr_income_mv_gauss_resid"@,
        GaussianFinancialExtOutput::UndistrProfitYoyChgMv => "undistr_profit_yoy_chg_mv_gauss_resid"@,
        GaussianFinancialExtOutput::NOthIncomeMv => "n_oth_income_mv_gauss_resid"@,
        GaussianFinancialExtOutput::TotalAssetsMv => "total_assets_mv_gauss_resid"@,
        GaussianFinancialExtOutput::InvCashOutMv => "inv_cash_out_mv_gauss_resid"@,
        GaussianFinancialExtOutput::PayrollPayableOthPayYoy => "payroll_payable_oth_pay_yoy_gauss_resid"@,
        GaussianFinancialExtOutput::IncomeTaxEbitYoy => "income_tax_ebit_yoy_gauss_resid"@,
        GaussianFinancialExtOutput::CapexCipYoy => "capex_cip_yoy_gauss_resid"@,
        GaussianFinancialExtOutput::NetprofitComprParent => "netprofit_compr_parent_gauss_resid"@,
        GaussianFinancialExtOutput::TotalCogsCurLiabYoy => "total_cogs_cur_liab_yoy_gauss_resid"@,
        GaussianFinancialExtOutput::BizTaxSurchgAssets => "biz_tax_surchg_assets_gauss_resid"@,
        GaussianFinancialExtOutput::SurplusReseIntExpYoy => "surplus_rese_int_exp_yoy_gauss_resid"@,
        GaussianFinancialExtOutput::UndistrProfitYoy => "undistr_profit_yoy_gauss_resid"@,
        GaussianFinancialExtOutput::OperCashInYoy => "oper_cash_in_yoy_gauss_resid"@,
        GaussianFinancialExtOutput::CashEquOthCompIncomeYoy => "cash_equ_oth_comp_income_yoy_gauss_resid"@,
    }
}

/// The alias of `kind`.
pub open spec fn ext_alias(kind: GaussianFinancialExtOutput) -> Seq<char> {
    match kind {
        GaussianFinancialExtOutput::EbitYoyChgMv => "EBIT YoY Change Market Cap Gaussian Residual"@,
        GaussianFinancialExtOutput::TComprIncomeMv => "Total Comprehensive Income Market Cap Gaussian Residual"@,
        GaussianFinancialExtOutput::UndistrProfitYoyChgMv => "Undistributed Profit YoY Change Market Cap Gaussian Residual"@,
        GaussianFinancialExtOutput::NOthIncomeMv => "Other Income Market Cap Gaussian Residual"@,
        GaussianFinancialExtOutput::TotalAssetsMv => "Total Assets Market Cap Gaussian Residual"@,
        GaussianFinancialExtOutput::InvCashOutMv => "Investment Cash Outflow Market Cap Gaussian Residual"@,
        GaussianFinancialExtOutput::PayrollPayableOthPayYoy => "Payroll Payable Other Payables YoY Gaussian Residual"@,
        GaussianFinancialExtOutput::IncomeTaxEbitYoy => "Income Tax Prior Year EBIT Gaussian Residual"@,
        GaussianFinancialExtOutput::CapexCipYoy => "Capex Prior Year CIP Gaussian Residual"@,
        GaussianFinancialExtOutput::NetprofitComprParent => "Net Profit Parent Comprehensive Income Parent Gaussian Residual"@,
        GaussianFinancialExtOutput::TotalCogsCurLiabYoy => "Total COGS Prior Year Current Liabilities Gaussian Residual"@,
        GaussianFinancialExtOutput::BizTaxSurchgAssets => "Business Tax Surcharge Total Assets Gaussian Residual"@,
        GaussianFinancialExtOutput::SurplusReseIntExpYoy => "Surplus Reserve Prior Year Interest Expense Gaussian Residual"@,
        GaussianFinancialExtOutput::UndistrProfitYoy => "Undistributed Profit YoY Gaussian Residual"@,
        GaussianFinancialExtOutput::OperCashInYoy => "Operating Cash Inflow YoY Gaussian Residual"@,
        GaussianFinancialExtOutput::CashEquOthCompIncomeYoy => "Cash Equivalent Other Comprehensive Income YoY Gaussian Residual"@,
    }
}

/// Whether `kind` regresses on market value (and is then neutralized by sector only).
pub open spec fn ext_uses_total_mv(kind: GaussianFinancialExtOutput) -> bool {
    kind == GaussianFinancialExtOutput::EbitYoyChgMv || kind == GaussianFinancialExtOutput::TComprIncomeMv || kind == GaussianFinancialExtOutput::UndistrProfitYoyChgMv
        || kind == GaussianFinancialExtOutput::NOthIncomeMv || kind == GaussianFinancialExtOutput::TotalAssetsMv || kind == GaussianFinancialExtOutput::InvCashOutMv
}

impl GaussianFinancialExtOutput {
    /// The factor id of this output.
    pub fn id(self) -> (r: &'static str)
        ensures
            r@ == ext_id(self),
    {
        match self {
            GaussianFinancialExtOutput::EbitYoyChgMv => "ebit_yoy_chg_mv_gauss_resid",
            GaussianFinancialExtOutput::TComprIncomeMv => "t_compr_income_mv_gauss_resid",
            GaussianFinancialExtOutput::UndistrProfitYoyChgMv => "undistr_profit_yoy_chg_mv_gauss_resid",
            GaussianFinancialExtOutput::NOthIncomeMv => "n_oth_income_mv_gauss_resid",
            GaussianFinancialExtOutput::TotalAssetsMv => "total_assets_mv_gauss_resid",
            GaussianFinancialExtOutput::InvCashOutMv => "inv_cash_out_mv_gauss_resid",
            GaussianFinancialExtOutput::PayrollPayableOthPayYoy => "payroll_payable_oth_pay_yoy_gauss_resid",
            GaussianFinancialExtOutput::IncomeTaxEbitYoy => "income_tax_ebit_yoy_gauss_resid",
            GaussianFinancialExtOutput::CapexCipYoy => "capex_cip_yoy_gauss_resid",
            GaussianFinancialExtOutput::NetprofitComprParent => "netprofit_compr_parent_gauss_resid",
            GaussianFinancialExtOutput::TotalCogsCurLiabYoy => "total_cogs_cur_liab_yoy_gauss_resid",
            GaussianFinancialExtOutput::BizTaxSurchgAssets => "biz_tax_surchg_assets_gauss_resid",
            GaussianFinancialExtOutput::SurplusReseIntExpYoy => "surplus_rese_int_exp_yoy_gauss_resid",
            GaussianFinancialExtOutput::UndistrProfitYoy => "undistr_profit_yoy_gauss_resid",
            GaussianFinancialExtOutput::OperCashInYoy => "oper_cash_in_yoy_gauss_resid",
            GaussianFinancialExtOutput::CashEquOthCompIncomeYoy => "cash_equ_oth_comp_income_yoy_gauss_resid",
        }
    }

    /// The alias of this output.
    pub fn alias(self) -> (r: &'static str)
        ensures
            r@ == ext_alias(self),
    {
        match self {
            GaussianFinancialExtOutput::EbitYoyChgMv => "EBIT YoY Change Market Cap Gaussian Residual",
            GaussianFinancialExtOutput::TComprIncomeMv => "Total Comprehensive Income Market Cap Gaussian Residual",
            GaussianFinancialExtOutput::UndistrProfitYoyChgMv => "Undistributed Profit YoY Change Market Cap Gaussian Residual",
            GaussianFinancialExtOutput::NOthIncomeMv => "Other Income Market Cap Gaussian Residual",
            GaussianFinancialExtOutput::TotalAssetsMv => "Total Assets Market Cap Gaussian Residual",
            GaussianFinancialExtOutput::InvCashOutMv => "Investment Cash Outflow Market Cap Gaussian Residual",
            GaussianFinancialExtOutput::PayrollPayableOthPayYoy => "Payroll Payable Other Payables YoY Gaussian Residual",
            GaussianFinancialExtOutput::IncomeTaxEbitYoy => "Income Tax Prior Year EBIT Gaussian Residual",
            GaussianFinancialExtOutput::CapexCipYoy => "Capex Prior Year CIP Gaussian Residual",
            GaussianFinancialExtOutput::NetprofitComprParent => "Net Profit Parent Comprehensive Income Parent Gaussian Residual",
            GaussianFinancialExtOutput::TotalCogsCurLiabYoy => "Total COGS Prior Year Current Liabilities Gaussian Residual",
            GaussianFinancialExtOutput::BizTaxSurchgAssets => "Business Tax Surcharge Total Assets Gaussian Residual",
            GaussianFinancialExtOutput::SurplusReseIntExpYoy => "Surplus Reserve Prior Year Interest Expense Gaussian Residual",
            GaussianFinancialExtOutput::UndistrProfitYoy => "Undistributed Profit YoY Gaussian Residual",
            GaussianFinancialExtOutput::OperCashInYoy => "Operating Cash Inflow YoY Gaussian Residual",
            GaussianFinancialExtOutput::CashEquOthCompIncomeYoy => "Cash Equivalent Other Comprehensive Income YoY Gaussian Residual",
        }
    }

    /// The output whose id is `id`.
    pub fn from_id(id: &str) -> (r: Option<Self>)
        ensures
            match r {
                Some(kind) => ext_id(kind) == id@,
                None => forall|kind: GaussianFinancialExtOutput| ext_id(kind) != id@,
            },
    {
        let all: [GaussianFinancialExtOutput; 16] = [
            GaussianFinancialExtOutput::EbitYoyChgMv,
            GaussianFinancialExtOutput::TComprIncomeMv,
            GaussianFinancialExtOutput::UndistrProfitYoyChgMv,
            GaussianFinancialExtOutput::NOthIncomeMv,
            GaussianFinancialExtOutput::TotalAssetsMv,
            GaussianFinancialExtOutput::InvCashOutMv,
            GaussianFinancialExtOutput::PayrollPayableOthPayYoy,
            GaussianFinancialExtOutput::IncomeTaxEbitYoy,
            GaussianFinancialExtOutput::CapexCipYoy,
            GaussianFinancialExtOutput::NetprofitComprParent,
            GaussianFinancialExtOutput::TotalCogsCurLiabYoy,
            GaussianFinancialExtOutput::BizTaxSurchgAssets,
            GaussianFinancialExtOutput::SurplusReseIntExpYoy,
            GaussianFinancialExtOutput::UndistrProfitYoy,
            GaussianFinancialExtOutput::OperCashInYoy,
            GaussianFinancialExtOutput::CashEquOthCompIncomeYoy,
        ];
        let mut i: usize = 0;
        while i < 16
            invariant
                i <= 16,
                all@ == seq![
                    GaussianFinancialExtOutput::EbitYoyChgMv,
                    GaussianFinancialExtOutput::TComprIncomeMv,
                    GaussianFinancialExtOutput::UndistrProfitYoyChgMv,
                    GaussianFinancialExtOutput::NOthIncomeMv,
                    GaussianFinancialExtOutput::TotalAssetsMv,
                    GaussianFinancialExtOutput::InvCashOutMv,
                    GaussianFinancialExtOutput::PayrollPayableOthPayYoy,
                    GaussianFinancialExtOutput::IncomeTaxEbitYoy,
                    GaussianFinancialExtOutput::CapexCipYoy,
                    GaussianFinancialExtOutput::NetprofitComprParent,
                    GaussianFinancialExtOutput::TotalCogsCurLiabYoy,
                    GaussianFinancialExtOutput::BizTaxSurchgAssets,
                    GaussianFinancialExtOutput::SurplusReseIntExpYoy,
                    GaussianFinancialExtOutput::UndistrProfitYoy,
                    GaussianFinancialExtOutput::OperCashInYoy,
                    GaussianFinancialExtOutput::CashEquOthCompIncomeYoy,
                ],
                forall|j: int| 0 <= j < i ==> ext_id(#[trigger] all@[j]) != id@,
            decreases 16 - i,
        {
            if str_eq(all[i].id(), id) {
                return Some(all[i]);
            }
            i = i + 1;
        }
        proof {
            assert forall|kind: GaussianFinancialExtOutput| ext_id(kind) != id@ by {
                match kind {
                    GaussianFinancialExtOutput::EbitYoyChgMv => assert(all@[0] == kind),
                    GaussianFinancialExtOutput::TComprIncomeMv => assert(all@[1] == kind),
                    GaussianFinancialExtOutput::UndistrProfitYoyChgMv => assert(all@[2] == kind),
                    GaussianFinancialExtOutput::NOthIncomeMv => assert(all@[3] == kind),
                    GaussianFinancialExtOutput::TotalAssetsMv => assert(all@[4] == kind),
                    GaussianFinancialExtOutput::InvCashOutMv => assert(all@[5] == kind),
                    GaussianFinancialExtOutput::PayrollPayableOthPayYoy => assert(all@[6] == kind),
                    GaussianFinancialExtOutput::IncomeTaxEbitYoy => assert(all@[7] == kind),
                    GaussianFinancialExtOutput::CapexCipYoy => assert(all@[8] == kind),
                    GaussianFinancialExtOutput::NetprofitComprParent => assert(all@[9] == kind),
                    GaussianFinancialExtOutput::TotalCogsCurLiabYoy => assert(all@[10] == kind),
                    GaussianFinancialExtOutput::BizTaxSurchgAssets => assert(all@[11] == kind),
                    GaussianFinancialExtOutput::SurplusReseIntExpYoy => assert(all@[12] == kind),
                    GaussianFinancialExtOutput::UndistrProfitYoy => assert(all@[13] == kind),
                    GaussianFinancialExtOutput::OperCashInYoy => assert(all@[14] == kind),
                    GaussianFinancialExtOutput::CashEquOthCompIncomeYoy => assert(all@[15] == kind),
                }
            }
        }
        None
    }

    /// Whether this output regresses on market value.
    pub fn uses_total_mv_regression(self) -> (r: bool)
        ensures
            r == ext_uses_total_mv(self),
    {
        match self {
            GaussianFinancialExtOutput::EbitYoyChgMv | GaussianFinancialExtOutput::TComprIncomeMv | GaussianFinancialExtOutput::UndistrProfitYoyChgMv
            | GaussianFinancialExtOutput::NOthIncomeMv | GaussianFinancialExtOutput::TotalAssetsMv | GaussianFinancialExtOutput::InvCashOutMv => true,
            _ => false,
        }
    }
}

/// A factor computing one extended Gaussian financial output.
#[derive(Clone, Copy, Debug)]
pub struct GaussianFinancialExtFactor {
    pub kind: GaussianFinancialExtOutput,
}

impl GaussianFinancialExtFactor {
    /// The factor of output `kind`.
    pub fn new(kind: GaussianFinancialExtOutput) -> (r: Self)
        ensures
            r.kind == kind,
    {
        GaussianFinancialExtFactor { kind }
    }

    /// The published definition of this factor.
    pub fn spec(&self) -> (r: FactorSpec)
        ensures
            r@ == ext_factor_view(self.kind),
    {
        spec(self.kind)
    }
}

/// The tags of the extended Gaussian factors.
pub open spec fn ext_tags() -> Seq<Seq<char>> {
    seq![
        "DFZQ"@,
        "DBZQ"@,
        "financial"@,
        "fundamental"@,
        "pit"@,
        "gaussian_rank"@,
        "residual"@,
        "neutralize"@,
        "barra"@,
        "size"@,
        "sector"@,
        "daily"@,
    ]
}

/// The tags of the extended Gaussian factors.
pub fn tags() -> (r: Vec<String>)
    ensures
        strings_view(r@) == ext_tags(),
{
    let items: [&str; 12] = [
        "DFZQ",
        "DBZQ",
        "financial",
        "fundamental",
        "pit",
        "gaussian_rank",
        "residual",
        "neutralize",
        "barra",
        "size",
        "sector",
        "daily",
    ];
    assert(strs_view(items@) =~= ext_tags());
    owned_strings(&items)
}

/// Income statement columns read.
pub open spec fn ext_income_columns() -> Seq<Seq<char>> {
    seq![
        "n_income"@,
        "income_tax"@,
        "int_exp"@,
        "t_compr_income"@,
        "n_oth_income"@,
        "n_income_attr_p"@,
        "compr_inc_attr_p"@,
        "total_cogs"@,
        "biz_tax_surchg"@,
    ]
}

/// Balance sheet columns read.
pub open spec fn ext_balance_columns() -> Seq<Seq<char>> {
    seq![
        "undistr_porfit"@,
        "total_assets"@,
        "payroll_payable"@,
        "oth_pay_total"@,
        "cip_total"@,
        "total_cur_liab"@,
        "surplus_rese"@,
        "oth_comp_income"@,
    ]
}

/// Cash flow statement columns read.
pub open spec fn ext_cashflow_columns() -> Seq<Seq<char>> {
    seq!["stot_out_inv_act"@, "c_pay_acq_const_fiolta"@, "c_inf_fr_operate_a"@, "c_cash_equ_end_period"@]
}

/// The data the extended Gaussian factors read.
pub open spec fn ext_dependencies() -> Seq<DataRequestView> {
    seq![
        plain_request(DatasetId::StockDailyBasic, seq!["total_mv"@]),
        quarters_request(DatasetId::StockIncome, ext_income_columns(), FINANCIAL_QUARTERS),
        quarters_request(DatasetId::StockBalanceSheet, ext_balance_columns(), FINANCIAL_QUARTERS),
        quarters_request(DatasetId::StockCashFlow, ext_cashflow_columns(), FINANCIAL_QUARTERS),
        plain_request(DatasetId::StockBarraDaily, seq!["SIZE"@]),
        plain_request(DatasetId::StockSwClassification, seq!["l1_code"@]),
    ]
}

/// The published definition of `kind`.
pub open spec fn ext_factor_view(kind: GaussianFinancialExtOutput) -> FactorSpecView {
    FactorSpecView {
        id: ext_id(kind),
        aliases: seq![ext_alias(kind)],
        name: ext_id(kind),
        asset_class: AssetClass::Stock,
        frequency: Frequency::Daily,
        version: VERSION@,
        tags: ext_tags(),
        description: "Gaussian-rank financial regression residual factor "@ + ext_id(kind)
            + ". It uses PIT single-quarter financial snapshots, Gaussian-rank transforms both sides, runs cross-sectional OLS residualization, and excludes BJ stocks."@,
        dependencies: ext_dependencies(),
        intraday_raw_dependencies: Seq::empty(),
        lookback: LOOKBACK,
    }
}

/// The published definition of `kind`.
pub fn spec(kind: GaussianFinancialExtOutput) -> (r: FactorSpec)
    ensures
        r@ == ext_factor_view(kind),
{
    let mv: [&str; 1] = ["total_mv"];
    let income: [&str; 9] = [
        "n_income",
        "income_tax",
        "int_exp",
        "t_compr_income",
        "n_oth_income",
        "n_income_attr_p",
        "compr_inc_attr_p",
        "total_cogs",
        "biz_tax_surchg",
    ];
    let balance: [&str; 8] = [
        "undistr_porfit",
        "total_assets",
        "payroll_payable",
        "oth_pay_total",
        "cip_total",
        "total_cur_liab",
        "surplus_rese",
        "oth_comp_income",
    ];
    let cashflow: [&str; 4] = ["stot_out_inv_act", "c_pay_acq_const_fiolta", "c_inf_fr_operate_a", "c_cash_equ_end_period"];
    let size: [&str; 1] = ["SIZE"];
    let sector: [&str; 1] = ["l1_code"];
    let mut dependencies: Vec<DataRequest> = Vec::new();
    dependencies.push(DataRequest::new(DatasetId::StockDailyBasic, &mv));
    dependencies.push(DataRequest::financial_quarters(DatasetId::StockIncome, &income, FINANCIAL_QUARTERS));
    dependencies.push(DataRequest::financial_quarters(DatasetId::StockBalanceSheet, &balance, FINANCIAL_QUARTERS));
    dependencies.push(DataRequest::financial_quarters(DatasetId::StockCashFlow, &cashflow, FINANCIAL_QUARTERS));
    dependencies.push(DataRequest::new(DatasetId::StockBarraDaily, &size));
    dependencies.push(DataRequest::new(DatasetId::StockSwClassification, &sector));
    let mut aliases: Vec<String> = Vec::new();
    aliases.push(kind.alias().to_owned());
    let description = "Gaussian-rank financial regression residual factor ".to_owned().concat(kind.id()).concat(
        ". It uses PIT single-quarter financial snapshots, Gaussian-rank transforms both sides, runs cross-sectional OLS residualization, and excludes BJ stocks.",
    );
    let r = FactorSpec {
        id: kind.id().to_owned(),
        aliases,
        name: kind.id().to_owned(),
        asset_class: AssetClass::Stock,
        frequency: Frequency::Daily,
        version: VERSION.to_owned(),
        tags: tags(),
        description,
        dependencies,
        intraday_raw_dependencies: Vec::new(),
        lookback: Lookback { trading_days: LOOKBACK },
    };
    assert(strs_view(mv@) =~= seq!["total_mv"@]);
    assert(strs_view(income@) =~= ext_income_columns());
    assert(strs_view(balance@) =~= ext_balance_columns());
    assert(strs_view(cashflow@) =~= ext_cashflow_columns());
    assert(strs_view(size@) =~= seq!["SIZE"@]);
    assert(strs_view(sector@) =~= seq!["l1_code"@]);
    assert(strings_view(r.aliases@) =~= seq![ext_alias(kind)]);
    assert(r.dependencies@.map_values(|d: DataRequest| d@) =~= ext_dependencies());
    assert(r.intraday_raw_dependencies@.map_values(|q: IntradayDailyRawRequest| q@) =~= Seq::empty());
    r
}

/// The definition of the internal raw series `id`.
pub open spec fn ext_raw_view(id: Seq<char>) -> FactorSpecView {
    FactorSpecView {
        id,
        aliases: Seq::empty(),
        name: id,
        asset_class: AssetClass::Stock,
        frequency: Frequency::Daily,
        version: VERSION@,
        tags: seq!["internal"@, "financial_raw"@],
        description: "Internal Gaussian financial ext raw series "@ + id + "."@,
        dependencies: Seq::empty(),
        intraday_raw_dependencies: Seq::empty(),
        lookback: 0,
    }
}

/// The definition of the internal raw series `id`.
pub fn raw_spec(id: &str) -> (r: FactorSpec)
    ensures
        r@ == ext_raw_view(id@),
{
    let items: [&str; 2] = ["internal", "financial_raw"];
    let description = "Internal Gaussian financial ext raw series ".to_owned().concat(id).concat(".");
    let r = FactorSpec {
        id: id.to_owned(),
        aliases: Vec::new(),
        name: id.to_owned(),
        asset_class: AssetClass::Stock,
        frequency: Frequency::Daily,
        version: VERSION.to_owned(),
        tags: owned_strings(&items),
        description,
        dependencies: Vec::new(),
        intraday_raw_dependencies: Vec::new(),
        lookback: Lookback { trading_days: 0 },
    };
    assert(strs_view(items@) =~= seq!["internal"@, "financial_raw"@]);
    assert(strings_view(r.aliases@) =~= Seq::empty());
    assert(r.dependencies@.map_values(|d: DataRequest| d@) =~= Seq::empty());
    assert(r.intraday_raw_dependencies@.map_values(|q: IntradayDailyRawRequest| q@) =~= Seq::empty());
    r
}

/// The internal raw series of `requested`, one per output, in order.
pub fn raw_specs_for_requested(requested: &[GaussianFinancialExtOutput]) -> (r: Vec<FactorSpec>)
    ensures
        r@.map_values(|s: FactorSpec| s@) == requested@.map_values(|k: GaussianFinancialExtOutput| ext_raw_view(ext_id(k))),
{
    let mut specs: Vec<FactorSpec> = Vec::new();
    let mut i: usize = 0;
    while i < requested.len()
        invariant
            i <= requested@.len(),
            specs@.map_values(|s: FactorSpec| s@) =~= requested@.subrange(0, i as int).map_values(
                |k: GaussianFinancialExtOutput| ext_raw_view(ext_id(k)),
            ),
        decreases requested@.len() - i,
    {
        let ghost before = specs@;
        specs.push(raw_spec(requested[i].id()));
        proof {
            assert(requested@.subrange(0, i + 1) =~= requested@.subrange(0, i as int).push(requested@[i as int]));
            assert(specs@.map_values(|s: FactorSpec| s@) =~= before.map_values(|s: FactorSpec| s@).push(
                ext_raw_view(ext_id(requested@[i as int])),
            ));
        }
        i = i + 1;
    }
    assert(requested@.subrange(0, requested@.len() as int) =~= requested@);
    specs
}

/// `m` with the seen versions of the latest quarter `reader` sees and of
/// the same quarter a year earlier.
pub open spec fn with_latest_and_yoy(
    m: MarkerContent,
    dataset: FinancialStatementDataset,
    reader: FinancialPitReader,
    code: Seq<char>,
    trade: i32,
) -> MarkerContent {
    match latest_end(reader.rows(), reader.preference_view(), code, trade, false) {
        Some(e) => with_record(
            with_record(m, seen_marker(dataset, reader.rows(), reader.preference_view(), code, trade, e)),
            seen_marker(
                dataset,
                reader.rows(),
                reader.preference_view(),
                code,
                trade,
                spec_same_quarter_previous_year(e as int) as i32,
            ),
        ),
        None => m,
    }
}

/// What the marker of a stock's extended snapshot holds.
pub open spec fn ext_marker_content(
    income: FinancialPitReader,
    balance: FinancialPitReader,
    cashflow: FinancialPitReader,
    code: Seq<char>,
    trade: i32,
) -> MarkerContent {
    with_latest_and_yoy(
        with_latest_and_yoy(
            with_latest_and_yoy((Seq::empty(), Seq::empty()), FinancialStatementDataset::Income, income, code, trade),
            FinancialStatementDataset::BalanceSheet,
            balance,
            code,
            trade,
        ),
        FinancialStatementDataset::CashFlow,
        cashflow,
        code,
        trade,
    )
}

/// Whether the latest quarter `reader` sees, if any, can step back a year in `i32`.
pub open spec fn latest_end_fits(reader: FinancialPitReader, code: Seq<char>, trade: i32) -> bool {
    latest_end(reader.rows(), reader.preference_view(), code, trade, false) matches Some(e) ==> e >= -2_147_473_648
}

/// Adds the seen versions of the latest quarter `reader` sees and of the
/// same quarter a year earlier.
fn include_latest_and_yoy(
    builder: &mut FinancialEventMarkerBuilder,
    dataset: FinancialStatementDataset,
    reader: &FinancialPitReader<'_>,
    ts_code: &str,
    trade_date: i32,
)
    requires
        latest_end_fits(*reader, ts_code@, trade_date),
    ensures
        final(builder)@ == with_latest_and_yoy(old(builder)@, dataset, *reader, ts_code@, trade_date),
{
    if let Some(end_date) = reader.latest_quarter_end_date(ts_code, trade_date) {
        builder.include_reader_record_for_end_date(dataset, reader, ts_code, trade_date, end_date);
        let yoy = same_quarter_previous_year(end_date);
        builder.include_reader_record_for_end_date(dataset, reader, ts_code, trade_date, yoy);
    }
}

/// The marker of the inputs of a stock's extended snapshot on `trade_date`:
/// for each statement, the latest quarter its reader sees and the same
/// quarter a year earlier.
pub fn financial_ext_snapshot_marker(
    ts_code: &str,
    trade_date: i32,
    income: &FinancialPitReader<'_>,
    balance: &FinancialPitReader<'_>,
    cashflow: &FinancialPitReader<'_>,
) -> (r: Option<FinancialEventMarker>)
    requires
        latest_end_fits(*income, ts_code@, trade_date),
        latest_end_fits(*balance, ts_code@, trade_date),
        latest_end_fits(*cashflow, ts_code@, trade_date),
    ensures
        ({
            let content = ext_marker_content(*income, *balance, *cashflow, ts_code@, trade_date);
            &&& (r is None <==> (content.0.len() == 0 && content.1.len() == 0))
            &&& (r matches Some(m) ==> canonical(m@) && same_members(m@.0, content.0) && same_members(
                m@.1,
                content.1,
            ))
        }),
{
    let mut builder = FinancialEventMarkerBuilder::new();
    assert(builder@ =~= (Seq::<crate::financial_marker::FinancialRecordMarker>::empty(), Seq::<(Seq<char>, i64)>::empty()));
    include_latest_and_yoy(&mut builder, FinancialStatementDataset::Income, income, ts_code, trade_date);
    include_latest_and_yoy(&mut builder, FinancialStatementDataset::BalanceSheet, balance, ts_code, trade_date);
    include_latest_and_yoy(&mut builder, FinancialStatementDataset::CashFlow, cashflow, ts_code, trade_date);
    builder.build()
}

} // verus!
