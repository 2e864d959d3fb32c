//! DBZQ ROIC-WACC factors: their published definitions, the data a run
//! needs (restricted to the dates it uses), and the fixed disclosure
//! checkpoints on which they are recomputed.
use vstd::prelude::*;
use crate::catalog::{
    AssetClass,
    DataRequest,
    DataRequestView,
    DatasetId,
    FactorContext,
    FactorSpec,
    FactorSpecView,
    Frequency,
    IntradayDailyRawRequest,
    Lookback,
    contains_string,
    owned_strings,
    plain_request,
    quarters_request,
    strings_view,
    strs_view,
};
use crate::panel::{DailyPanel, is_bj_stock, spec_is_bj_stock};
use crate::snapshot_cache::cell_offset;
use crate::dates::{
    quarter_chain_ascending,
    sorted_unique,
    spec_quarter_chain_ascending,
    strictly_increasing,
    trunc_div,
    week_end_dates,
    week_end_prefix,
};

verus! {

/// Key of the provider that computes both outputs.
pub const PROVIDER_KEY: &'static str = "stock|daily|dbzq_roic_wacc";
/// Id of the unexpected ROIC-WACC factor.
pub const UNEXPECTED_ROIC_WACC_ID: &'static str = "unexpected_roic_wacc";
/// Id of the ROIC-WACC state growth factor.
pub const ROIC_WACC_STATE_GROWTH_ID: &'static str = "roic_wacc_state_growth";
/// Version of the factors.
pub const VERSION: &'static str = "0.1.0";
/// Trading days of history the factors read.
pub const DAILY_LOOKBACK: usize = 820;
/// Weeks of returns the CAPM regression reads.
pub const CAPM_LOOKBACK_WEEKS: usize = 156;
/// Quarters of history a stock keeps.
pub const HISTORY_KEEP_QUARTERS: usize = 13;

/// The two outputs.
#[derive(Clone, Copy, Debug, Eq, PartialEq, Structural)]
pub enum RoicWaccOutput {
    UnexpectedRoicWacc,
    StateGrowth,
}

/// Which outputs a request needs.
#[derive(Clone, Copy, Debug, Default, PartialEq, Eq, Structural)]
pub struct RoicWaccNeeds {
    pub unexpected: bool,
    pub state_growth: bool,
}

/// Which outputs `requested_ids` names.
pub fn needs_from_requested(requested_ids: &[String]) -> (r: RoicWaccNeeds)
    ensures
        r.unexpected == strings_view(requested_ids@).contains(UNEXPECTED_ROIC_WACC_ID@),
        r.state_growth == strings_view(requested_ids@).contains(ROIC_WACC_STATE_GROWTH_ID@),
{
    RoicWaccNeeds {
        unexpected: contains_string(requested_ids, UNEXPECTED_ROIC_WACC_ID),
        state_growth: contains_string(requested_ids, ROIC_WACC_STATE_GROWTH_ID),
    }
}

/// The tags of the ROIC-WACC factors.
pub open spec fn roic_tags() -> Seq<Seq<char>> {
    seq![
        "DBZQ"@,
        "financial"@,
        "fundamental"@,
        "pit"@,
        "roic"@,
        "wacc"@,
        "neutralize"@,
        "barra"@,
        "size"@,
        "sector"@,
        "daily"@,
    ]
}

/// The tags of the ROIC-WACC factors.
pub fn tags() -> (r: Vec<String>)
    ensures
        strings_view(r@) == roic_tags(),
{
    let items: [&str; 11] = [
        "DBZQ",
        "financial",
        "fundamental",
        "pit",
        "roic",
        "wacc",
        "neutralize",
        "barra",
        "size",
        "sector",
        "daily",
    ];
    assert(strs_view(items@) =~= roic_tags());
    owned_strings(&items)
}

/// Income statement columns read.
pub open spec fn roic_income_columns() -> Seq<Seq<char>> {
    seq!["operate_profit"@, "sell_exp"@, "admin_exp"@, "fin_exp"@, "income_tax"@, "n_income"@, "int_exp"@]
}

/// Balance sheet columns read.
pub open spec fn roic_balance_columns() -> Seq<Seq<char>> {
    seq![
        "total_hldr_eqy_exc_min_int"@,
        "st_borr"@,
        "non_cur_liab_due_1y"@,
        "lt_borr"@,
        "bond_payable"@,
        "lease_liab"@,
    ]
}

/// The data the ROIC-WACC factors read.
pub open spec fn roic_dependencies() -> Seq<DataRequestView> {
    seq![
        plain_request(DatasetId::StockDailyPv, seq!["close"@]),
        plain_request(DatasetId::StockAdjFactor, seq!["adj_factor"@]),
        plain_request(DatasetId::StockDailyBasic, seq!["dv_ratio"@]),
        plain_request(DatasetId::StockBarraDaily, seq!["SIZE"@]),
        plain_request(DatasetId::StockSwClassification, seq!["l1_code"@, "l3_code"@]),
        quarters_request(DatasetId::StockIncome, roic_income_columns(), 13),
        quarters_request(DatasetId::StockBalanceSheet, roic_balance_columns(), 13),
    ]
}

/// The data the ROIC-WACC factors read.
pub fn dependencies() -> (r: Vec<DataRequest>)
    ensures
        r@.map_values(|d: DataRequest| d@) == roic_dependencies(),
{
    let close: [&str; 1] = ["close"];
    let adj: [&str; 1] = ["adj_factor"];
    let dv: [&str; 1] = ["dv_ratio"];
    let size: [&str; 1] = ["SIZE"];
    let sector: [&str; 2] = ["l1_code", "l3_code"];
    let income: [&str; 7] = ["operate_profit", "sell_exp", "admin_exp", "fin_exp", "income_tax", "n_income", "int_exp"];
    let balance: [&str; 6] = [
        "total_hldr_eqy_exc_min_int",
        "st_borr",
        "non_cur_liab_due_1y",
        "lt_borr",
        "bond_payable",
        "lease_liab",
    ];
    let mut out: Vec<DataRequest> = Vec::new();
    out.push(DataRequest::new(DatasetId::StockDailyPv, &close));
    out.push(DataRequest::new(DatasetId::StockAdjFactor, &adj));
    out.push(DataRequest::new(DatasetId::StockDailyBasic, &dv));
    out.push(DataRequest::new(DatasetId::StockBarraDaily, &size));
    out.push(DataRequest::new(DatasetId::StockSwClassification, &sector));
    out.push(DataRequest::financial_quarters(DatasetId::StockIncome, &income, 13));
    out.push(DataRequest::financial_quarters(DatasetId::StockBalanceSheet, &balance, 13));
    assert(strs_view(close@) =~= seq!["close"@]);
    assert(strs_view(adj@) =~= seq!["adj_factor"@]);
    assert(strs_view(dv@) =~= seq!["dv_ratio"@]);
    assert(strs_view(size@) =~= seq!["SIZE"@]);
    assert(strs_view(sector@) =~= seq!["l1_code"@, "l3_code"@]);
    assert(strs_view(income@) =~= roic_income_columns());
    assert(strs_view(balance@) =~= roic_balance_columns());
    assert(out@.map_values(|d: DataRequest| d@) =~= roic_dependencies());
    out
}

/// The published definition of `output`.
pub open spec fn roic_factor_view(output: RoicWaccOutput) -> FactorSpecView {
    let (id, aliases, description) = match output {
        RoicWaccOutput::UnexpectedRoicWacc => (
            UNEXPECTED_ROIC_WACC_ID@,
            seq!["Unexpected ROIC-WACC"@, "Unexpected Spread"@],
            "DBZQ unexpected ROIC-WACC factor. It recomputes on fixed disclosure checkpoints 0430/0831/1031, uses PIT quarterly ROIC-WACC, standardizes current spread against the previous eight quarterly spreads, replays between checkpoints, and neutralizes by Barra SIZE and SW sector."@,
        ),
        RoicWaccOutput::StateGrowth => (
            ROIC_WACC_STATE_GROWTH_ID@,
            seq!["ROIC-WACC State Growth"@],
            "DBZQ ROIC-WACC state-domain growth factor. It recomputes on fixed disclosure checkpoints 0430/0831/1031, uses NOPLAT growth when ROIC-WACC is positive and ROIC growth otherwise, replays between checkpoints, and neutralizes by Barra SIZE and SW sector."@,
        ),
    };
    FactorSpecView {
        id,
        aliases,
        name: id,
        asset_class: AssetClass::Stock,
        frequency: Frequency::Daily,
        version: VERSION@,
        tags: roic_tags(),
        description,
        dependencies: roic_dependencies(),
        intraday_raw_dependencies: Seq::empty(),
        lookback: DAILY_LOOKBACK,
    }
}

/// The published definition of `output`.
pub fn spec(output: RoicWaccOutput) -> (r: FactorSpec)
    ensures
        r@ == roic_factor_view(output),
{
    let (id, aliases, description) = match output {
        RoicWaccOutput::UnexpectedRoicWacc => {
            let items: [&str; 2] = ["Unexpected ROIC-WACC", "Unexpected Spread"];
            assert(strs_view(items@) =~= seq!["Unexpected ROIC-WACC"@, "Unexpected Spread"@]);
            (
                UNEXPECTED_ROIC_WACC_ID,
                owned_strings(&items),
                "DBZQ unexpected ROIC-WACC factor. It recomputes on fixed disclosure checkpoints 0430/0831/1031, uses PIT quarterly ROIC-WACC, standardizes current spread against the previous eight quarterly spreads, replays between checkpoints, and neutralizes by Barra SIZE and SW sector.",
            )
        },
        RoicWaccOutput::StateGrowth => {
            let items: [&str; 1] = ["ROIC-WACC State Growth"];
            assert(strs_view(items@) =~= seq!["ROIC-WACC State Growth"@]);
            (
                ROIC_WACC_STATE_GROWTH_ID,
                owned_strings(&items),
                "DBZQ ROIC-WACC state-domain growth factor. It recomputes on fixed disclosure checkpoints 0430/0831/1031, uses NOPLAT growth when ROIC-WACC is positive and ROIC growth otherwise, replays between checkpoints, and neutralizes by Barra SIZE and SW sector.",
            )
        },
    };
    let r = FactorSpec {
        id: id.to_owned(),
        aliases,
        name: id.to_owned(),
        asset_class: AssetClass::Stock,
        frequency: Frequency::Daily,
        version: VERSION.to_owned(),
        tags: tags(),
        description: description.to_owned(),
        dependencies: dependencies(),
        intraday_raw_dependencies: Vec::new(),
        lookback: Lookback { trading_days: DAILY_LOOKBACK },
    };
    assert(r.intraday_raw_dependencies@.map_values(|q: IntradayDailyRawRequest| q@) =~= Seq::empty());
    r
}

/// The definitions of the outputs `needs` calls for, unexpected first.
pub open spec fn requested_views(needs: RoicWaccNeeds) -> Seq<FactorSpecView> {
    let first: Seq<FactorSpecView> = if needs.unexpected {
        seq![roic_factor_view(RoicWaccOutput::UnexpectedRoicWacc)]
    } else {
        Seq::empty()
    };
    if needs.state_growth {
        first.push(roic_factor_view(RoicWaccOutput::StateGrowth))
    } else {
        first
    }
}

/// The definitions of the outputs `needs` calls for.
pub fn requested_specs(needs: RoicWaccNeeds) -> (r: Vec<FactorSpec>)
    ensures
        r@.map_values(|s: FactorSpec| s@) == requested_views(needs),
{
    let mut output: Vec<FactorSpec> = Vec::new();
    if needs.unexpected {
        output.push(spec(RoicWaccOutput::UnexpectedRoicWacc));
    }
    if needs.state_growth {
        output.push(spec(RoicWaccOutput::StateGrowth));
    }
    assert(output@.map_values(|s: FactorSpec| s@) =~= requested_views(needs));
    output
}

/// The years the checkpoint search scans: from the year before the lower
/// bound's to the year after the upper bound's.
pub open spec fn first_scan_year(lower: i32) -> int {
    trunc_div(lower as int, 10000) - 1
}

/// The last year the checkpoint search scans.
pub open spec fn last_scan_year(until: i32) -> int {
    trunc_div(until as int, 10000) + 1
}

/// Whether a checkpoint `year * 10000 + month_day` of a scanned year lies
/// after `lower` and up to `until`.
pub open spec fn checkpoint_between(lower: i32, until: i32, month_days: Seq<i32>) -> bool {
    exists|year: int, k: int|
        first_scan_year(lower) <= year <= last_scan_year(until) && 0 <= k < month_days.len() && lower
            < #[trigger] (year * 10000 + month_days[k]) <= until
}

/// Whether every checkpoint of every scanned year fits in `i32`.
pub open spec fn checkpoints_fit(lower: i32, until: i32, month_days: Seq<i32>) -> bool {
    &&& i32::MIN <= first_scan_year(lower) * 10000
    &&& last_scan_year(until) * 10000 + 9999 <= i32::MAX
    &&& forall|k: int| 0 <= k < month_days.len() ==> 0 <= #[trigger] month_days[k] <= 9999
}

/// Whether a fixed disclosure checkpoint (`MMDD` of `month_days` in some
/// year) falls after `after_exclusive` and up to `until_inclusive`.
pub fn fixed_checkpoint_after_until_dates(
    after_exclusive: Option<i32>,
    until_inclusive: i32,
    month_days: &[i32],
) -> (r: bool)
    requires
        checkpoints_fit(
            match after_exclusive {
                Some(a) => a,
                None => i32::MIN,
            },
            until_inclusive,
            month_days@,
        ),
    ensures
        r == checkpoint_between(
            match after_exclusive {
                Some(a) => a,
                None => i32::MIN,
            },
            until_inclusive,
            month_days@,
        ),
{
    let lower: i32 = match after_exclusive {
        Some(a) => a,
        None => i32::MIN,
    };
    let start_year: i32 = lower / 10_000 - 1;
    let end_year: i32 = until_inclusive / 10_000 + 1;
    let mut year = start_year;
    while year <= end_year
        invariant
            start_year == first_scan_year(lower),
            end_year == last_scan_year(until_inclusive),
            lower == match after_exclusive {
                Some(a) => a,
                None => i32::MIN,
            },
            start_year <= year,
            year <= end_year + 1 || year == start_year,
            checkpoints_fit(lower, until_inclusive, month_days@),
            forall|y: int, k: int|
                start_year <= y < year && 0 <= k < month_days@.len() ==> !(lower < #[trigger] (y * 10000
                    + month_days@[k]) <= until_inclusive),
        decreases end_year + 1 - year,
    {
        proof {
            assert(i32::MIN <= year * 10000 <= i32::MAX) by (nonlinear_arith)
                requires
                    start_year <= year <= end_year,
                    i32::MIN <= start_year * 10000,
                    end_year * 10000 + 9999 <= i32::MAX,
            ;
        }
        let mut k: usize = 0;
        while k < month_days.len()
            invariant
                k <= month_days@.len(),
                start_year <= year <= end_year,
                start_year == first_scan_year(lower),
                end_year == last_scan_year(until_inclusive),
                lower == match after_exclusive {
                    Some(a) => a,
                    None => i32::MIN,
                },
                i32::MIN <= year * 10000 <= i32::MAX,
                end_year * 10000 + 9999 <= i32::MAX,
                checkpoints_fit(lower, until_inclusive, month_days@),
                forall|y: int, j: int|
                    start_year <= y < year && 0 <= j < month_days@.len() ==> !(lower < #[trigger] (y
                        * 10000 + month_days@[j]) <= until_inclusive),
                forall|j: int| 0 <= j < k ==> !(lower < #[trigger] (year * 10000 + month_days@[j]) <= until_inclusive),
            decreases month_days@.len() - k,
        {
            let md = month_days[k];
            proof {
                assert(0 <= month_days@[k as int] <= 9999);
                assert(year * 10000 <= end_year * 10000) by (nonlinear_arith)
                    requires
                        year <= end_year,
                ;
            }
            let checkpoint = year * 10_000 + md;
            if checkpoint > lower && checkpoint <= until_inclusive {
                proof {
                    assert(lower < year * 10000 + month_days@[k as int] <= until_inclusive);
                }
                return true;
            }
            k = k + 1;
        }
        year = year + 1;
    }
    false
}

/// The disclosure checkpoints used by the ROIC-WACC factors: 04-30, 08-31, 10-31.
pub open spec fn roic_checkpoints() -> Seq<i32> {
    seq![430i32, 831i32, 1031i32]
}

/// Whether a ROIC-WACC checkpoint falls after `after_exclusive` and up to
/// `until_inclusive`.
pub fn fixed_checkpoint_after_until(after_exclusive: Option<i32>, until_inclusive: i32) -> (r: bool)
    requires
        checkpoints_fit(
            match after_exclusive {
                Some(a) => a,
                None => i32::MIN,
            },
            until_inclusive,
            roic_checkpoints(),
        ),
    ensures
        r == checkpoint_between(
            match after_exclusive {
                Some(a) => a,
                None => i32::MIN,
            },
            until_inclusive,
            roic_checkpoints(),
        ),
{
    let month_days: [i32; 3] = [430, 831, 1031];
    assert(month_days@ =~= roic_checkpoints());
    fixed_checkpoint_after_until_dates(after_exclusive, until_inclusive, &month_days)
}

/// Whether `trade_date` must be recomputed: nothing was processed yet, or a
/// checkpoint fell since the last processed date.
pub fn should_recompute(last_processed: Option<i32>, trade_date: i32) -> (r: bool)
    requires
        last_processed matches Some(p) ==> checkpoints_fit(p, trade_date, roic_checkpoints()),
    ensures
        r == match last_processed {
            None => true,
            Some(p) => checkpoint_between(p, trade_date, roic_checkpoints()),
        },
{
    match last_processed {
        None => true,
        Some(_) => fixed_checkpoint_after_until(last_processed, trade_date),
    }
}

/// Whether target `i` of `targets` is a checkpoint target: the first when
/// `include_first`, any other when a checkpoint fell since the target before it.
pub open spec fn is_checkpoint_target(targets: Seq<i32>, month_days: Seq<i32>, include_first: bool, i: int) -> bool {
    if i == 0 && include_first {
        true
    } else if i == 0 {
        checkpoint_between(i32::MIN, targets[0], month_days)
    } else {
        checkpoint_between(targets[i - 1], targets[i], month_days)
    }
}

/// Whether each checkpoint search over `targets` stays within `i32`.
pub open spec fn checkpoint_targets_fit(targets: Seq<i32>, month_days: Seq<i32>, include_first: bool) -> bool {
    &&& (targets.len() > 0 && !include_first ==> checkpoints_fit(i32::MIN, targets[0], month_days))
    &&& forall|i: int| 0 < i < targets.len() ==> checkpoints_fit(#[trigger] targets[i - 1], targets[i], month_days)
}

/// The target dates of `context` on which checkpoint-driven factors are
/// recomputed, in increasing order without repeats.
pub fn fixed_checkpoint_target_dates(context: &FactorContext, month_days: &[i32], include_first_target: bool) -> (r:
    Vec<i32>)
    requires
        checkpoint_targets_fit(context.target_dates@, month_days@, include_first_target),
    ensures
        strictly_increasing(r@),
        forall|d: i32|
            #[trigger] r@.contains(d) <==> exists|i: int|
                0 <= i < context.target_dates@.len() && context.target_dates@[i] == d && is_checkpoint_target(
                    context.target_dates@,
                    month_days@,
                    include_first_target,
                    i,
                ),
{
    let targets = &context.target_dates;
    let mut chosen: Vec<i32> = Vec::new();
    let mut previous: Option<i32> = None;
    let mut idx: usize = 0;
    while idx < targets.len()
        invariant
            idx <= targets@.len(),
            checkpoint_targets_fit(targets@, month_days@, include_first_target),
            previous == (if idx == 0 {
                None
            } else {
                Some(targets@[idx - 1])
            }),
            forall|d: i32|
                #[trigger] chosen@.contains(d) <==> exists|i: int|
                    0 <= i < idx && targets@[i] == d && is_checkpoint_target(
                        targets@,
                        month_days@,
                        include_first_target,
                        i,
                    ),
        decreases targets@.len() - idx,
    {
        let trade_date = targets[idx];
        let take = if idx == 0 && include_first_target {
            true
        } else {
            fixed_checkpoint_after_until_dates(previous, trade_date, month_days)
        };
        let ghost before = chosen@;
        if take {
            chosen.push(trade_date);
        }
        proof {
            assert(take == is_checkpoint_target(targets@, month_days@, include_first_target, idx as int));
            assert forall|d: i32|
                #[trigger] chosen@.contains(d) <==> exists|i: int|
                    0 <= i < idx + 1 && targets@[i] == d && is_checkpoint_target(
                        targets@,
                        month_days@,
                        include_first_target,
                        i,
                    ) by {
                if chosen@.contains(d) {
                    let j = choose|j: int| 0 <= j < chosen@.len() && chosen@[j] == d;
                    if j < before.len() {
                        assert(before[j] == d);
                        assert(before.contains(d));
                    }
                }
                if exists|i: int|
                    0 <= i < idx + 1 && targets@[i] == d && is_checkpoint_target(
                        targets@,
                        month_days@,
                        include_first_target,
                        i,
                    ) {
                    let i = choose|i: int|
                        0 <= i < idx + 1 && targets@[i] == d && is_checkpoint_target(
                            targets@,
                            month_days@,
                            include_first_target,
                            i,
                        );
                    if i < idx {
                        assert(before.contains(d));
                        let j = choose|j: int| 0 <= j < before.len() && before[j] == d;
                        assert(chosen@[j] == d);
                    } else {
                        assert(chosen@[chosen@.len() - 1] == d);
                    }
                }
            }
        }
        previous = Some(trade_date);
        idx = idx + 1;
    }
    sorted_unique(&chosen)
}

/// The week ends of `load_dates` among the last `weeks + 1` of them.
pub open spec fn recent_week_ends(load_dates: Seq<i32>, weeks: usize) -> Seq<i32> {
    let ends = week_end_prefix(load_dates, load_dates.len());
    let needed = if weeks == usize::MAX {
        usize::MAX as int
    } else {
        weeks + 1
    };
    let start = if ends.len() > needed {
        ends.len() - needed
    } else {
        0
    };
    ends.subrange(start, ends.len() as int)
}

/// The target dates together with the last `weeks + 1` week ends of the
/// load dates, in increasing order without repeats.
pub fn target_dates_plus_recent_week_ends(context: &FactorContext, weeks: usize) -> (r: Vec<i32>)
    ensures
        strictly_increasing(r@),
        forall|d: i32|
            #[trigger] r@.contains(d) <==> context.target_dates@.contains(d) || recent_week_ends(
                context.load_dates@,
                weeks,
            ).contains(d),
{
    let week_ends = week_end_dates(context.load_dates.as_slice());
    let needed = weeks.saturating_add(1);
    let start = week_ends.len().saturating_sub(needed);
    let ghost tail = recent_week_ends(context.load_dates@, weeks);
    assert(tail =~= week_ends@.subrange(start as int, week_ends@.len() as int));
    let mut all: Vec<i32> = Vec::new();
    let mut i: usize = 0;
    while i < context.target_dates.len()
        invariant
            i <= context.target_dates@.len(),
            all@ =~= context.target_dates@.subrange(0, i as int),
        decreases context.target_dates@.len() - i,
    {
        all.push(context.target_dates[i]);
        i = i + 1;
    }
    let mut k = start;
    while k < week_ends.len()
        invariant
            start <= k <= week_ends@.len(),
            all@ =~= context.target_dates@ + week_ends@.subrange(start as int, k as int),
        decreases week_ends@.len() - k,
    {
        all.push(week_ends[k]);
        k = k + 1;
    }
    proof {
        assert forall|d: i32| #[trigger] all@.contains(d) <==> context.target_dates@.contains(d) || tail.contains(d) by {
            let t = context.target_dates@;
            if all@.contains(d) {
                let j = choose|j: int| 0 <= j < all@.len() && all@[j] == d;
                if j < t.len() {
                    assert(t[j] == d);
                } else {
                    assert(tail[j - t.len()] == d);
                }
            }
            if t.contains(d) {
                let j = choose|j: int| 0 <= j < t.len() && t[j] == d;
                assert(all@[j] == d);
            }
            if tail.contains(d) {
                let j = choose|j: int| 0 <= j < tail.len() && tail[j] == d;
                assert(all@[t.len() + j] == d);
            }
        }
    }
    sorted_unique(&all)
}

/// The ROIC-WACC checkpoints, as a list.
fn roic_checkpoint_list() -> (r: [i32; 3])
    ensures
        r@ == roic_checkpoints(),
{
    let r = [430, 831, 1031];
    assert(r@ =~= roic_checkpoints());
    r
}

/// Whether a strictly increasing list of dates holds exactly the members of
/// `members`.
pub open spec fn sorted_dates_of(s: Seq<i32>, members: spec_fn(i32) -> bool) -> bool {
    strictly_increasing(s) && forall|d: i32| #[trigger] s.contains(d) <==> members(d)
}

/// The data a run over `context` needs, each request restricted to the
/// dates it uses: prices and adjustment factors on the target dates and the
/// recent week ends of the CAPM window; dividend yield and size on
/// checkpoint targets; classification and statements on the load dates.
pub fn requirements_for_context(context: &FactorContext) -> (r: Vec<DataRequest>)
    requires
        checkpoint_targets_fit(context.target_dates@, roic_checkpoints(), true),
    ensures
        r@.len() == 7,
        ({
            let capm = |d: i32|
                context.target_dates@.contains(d) || recent_week_ends(context.load_dates@, CAPM_LOOKBACK_WEEKS).contains(d);
            let checkpoint = |d: i32|
                exists|i: int|
                    0 <= i < context.target_dates@.len() && context.target_dates@[i] == d && is_checkpoint_target(
                        context.target_dates@,
                        roic_checkpoints(),
                        true,
                        i,
                    );
            let v = r@.map_values(|q: DataRequest| q@);
            &&& v[0].dataset == DatasetId::StockDailyPv && v[0].columns == seq!["close"@]
            &&& v[1].dataset == DatasetId::StockAdjFactor && v[1].columns == seq!["adj_factor"@]
            &&& v[2].dataset == DatasetId::StockDailyBasic && v[2].columns == seq!["dv_ratio"@]
            &&& v[3].dataset == DatasetId::StockBarraDaily && v[3].columns == seq!["SIZE"@]
            &&& forall|j: int| 0 <= j < 4 ==> v[j].index_code is None && v[j].financial_quarters is None
            &&& v[0].explicit_dates matches Some(dates) && sorted_dates_of(dates, capm)
            &&& v[1].explicit_dates == v[0].explicit_dates
            &&& v[2].explicit_dates matches Some(dates) && sorted_dates_of(dates, checkpoint)
            &&& v[3].explicit_dates == v[2].explicit_dates
            &&& v[4] == DataRequestView {
                explicit_dates: Some(context.load_dates@),
                ..plain_request(DatasetId::StockSwClassification, seq!["l1_code"@, "l3_code"@])
            }
            &&& v[5] == DataRequestView {
                explicit_dates: Some(context.load_dates@),
                ..quarters_request(DatasetId::StockIncome, roic_income_columns(), 13)
            }
            &&& v[6] == DataRequestView {
                explicit_dates: Some(context.load_dates@),
                ..quarters_request(DatasetId::StockBalanceSheet, roic_balance_columns(), 13)
            }
        }),
{
    let capm_dates = target_dates_plus_recent_week_ends(context, CAPM_LOOKBACK_WEEKS);
    let checkpoints = roic_checkpoint_list();
    let checkpoint_dates = fixed_checkpoint_target_dates(context, &checkpoints, true);
    let close: [&str; 1] = ["close"];
    let adj: [&str; 1] = ["adj_factor"];
    let dv: [&str; 1] = ["dv_ratio"];
    let size: [&str; 1] = ["SIZE"];
    let sector: [&str; 2] = ["l1_code", "l3_code"];
    let income: [&str; 7] = ["operate_profit", "sell_exp", "admin_exp", "fin_exp", "income_tax", "n_income", "int_exp"];
    let balance: [&str; 6] = [
        "total_hldr_eqy_exc_min_int",
        "st_borr",
        "non_cur_liab_due_1y",
        "lt_borr",
        "bond_payable",
        "lease_liab",
    ];
    let capm_copy = capm_dates.clone();
    let checkpoint_copy = checkpoint_dates.clone();
    let mut out: Vec<DataRequest> = Vec::new();
    out.push(DataRequest::explicit_dates(DatasetId::StockDailyPv, &close, capm_dates));
    out.push(DataRequest::explicit_dates(DatasetId::StockAdjFactor, &adj, capm_copy));
    out.push(DataRequest::explicit_dates(DatasetId::StockDailyBasic, &dv, checkpoint_dates));
    out.push(DataRequest::explicit_dates(DatasetId::StockBarraDaily, &size, checkpoint_copy));
    out.push(
        DataRequest::new(DatasetId::StockSwClassification, &sector).with_explicit_dates(context.load_dates.clone()),
    );
    out.push(
        DataRequest::financial_quarters(DatasetId::StockIncome, &income, 13).with_explicit_dates(
            context.load_dates.clone(),
        ),
    );
    out.push(
        DataRequest::financial_quarters(DatasetId::StockBalanceSheet, &balance, 13).with_explicit_dates(
            context.load_dates.clone(),
        ),
    );
    assert(strs_view(close@) =~= seq!["close"@]);
    assert(strs_view(adj@) =~= seq!["adj_factor"@]);
    assert(strs_view(dv@) =~= seq!["dv_ratio"@]);
    assert(strs_view(size@) =~= seq!["SIZE"@]);
    assert(strs_view(sector@) =~= seq!["l1_code"@, "l3_code"@]);
    assert(strs_view(income@) =~= roic_income_columns());
    assert(strs_view(balance@) =~= roic_balance_columns());
    out
}

/// Up to `HISTORY_KEEP_QUARTERS + 8` quarter ends ending at `latest_end`
/// that fall after `after_end`, oldest first.
pub fn quarter_ends_after_until(after_end: i32, latest_end: i32) -> (r: Vec<i32>)
    ensures
        r@.map_values(|v: i32| v as int) == spec_quarter_chain_ascending(
            latest_end as int,
            (HISTORY_KEEP_QUARTERS + 8) as nat,
        ).filter(|e: int| after_end < e && e <= latest_end),
{
    let chain = quarter_chain_ascending(latest_end, HISTORY_KEEP_QUARTERS + 8);
    let ghost full = spec_quarter_chain_ascending(latest_end as int, (HISTORY_KEEP_QUARTERS + 8) as nat);
    let mut out: Vec<i32> = Vec::new();
    let mut i: usize = 0;
    while i < chain.len()
        invariant
            i <= chain@.len(),
            chain@.map_values(|v: i32| v as int) == full,
            out@.map_values(|v: i32| v as int) == full.subrange(0, i as int).filter(
                |e: int| after_end < e && e <= latest_end,
            ),
        decreases chain@.len() - i,
    {
        let e = chain[i];
        let ghost before = out@;
        proof {
            reveal(Seq::filter);
            assert(full.subrange(0, i + 1).drop_last() =~= full.subrange(0, i as int));
            assert(full[i as int] == e as int);
        }
        if e > after_end && e <= latest_end {
            out.push(e);
            proof {
                assert(out@.map_values(|v: i32| v as int) =~= before.map_values(|v: i32| v as int).push(e as int));
            }
        }
        i = i + 1;
    }
    proof {
        assert(full.subrange(0, full.len() as int) =~= full);
    }
    out
}

/// The quarter ends a stock must compute on an event: those after its last
/// kept quarter end `last_kept` up to `latest_end`, or, with nothing kept,
/// the last `HISTORY_KEEP_QUARTERS` quarter ends up to `latest_end`.
pub open spec fn needed_ends(last_kept: Option<i32>, latest_end: i32) -> Seq<int> {
    match last_kept {
        Some(l) => spec_quarter_chain_ascending(latest_end as int, (HISTORY_KEEP_QUARTERS + 8) as nat).filter(
            |e: int| l < e && e <= latest_end,
        ),
        None => spec_quarter_chain_ascending(latest_end as int, HISTORY_KEEP_QUARTERS as nat),
    }
}

/// [`needed_ends`], ascending and without repeats.
pub fn needed_quarter_end_dates(last_kept: Option<i32>, latest_end: i32) -> (r: Vec<i32>)
    ensures
        strictly_increasing(r@),
        forall|y: i32| #[trigger] r@.contains(y) <==> needed_ends(last_kept, latest_end).contains(y as int),
{
    let ends = match last_kept {
        Some(l) => quarter_ends_after_until(l, latest_end),
        None => quarter_chain_ascending(latest_end, HISTORY_KEEP_QUARTERS),
    };
    let ghost widened = ends@.map_values(|v: i32| v as int);
    proof {
        assert(widened == needed_ends(last_kept, latest_end));
        assert forall|y: i32| ends@.contains(y) <==> widened.contains(y as int) by {
            if ends@.contains(y) {
                let k = choose|k: int| 0 <= k < ends@.len() && ends@[k] == y;
                assert(widened[k] == y as int);
            }
            if widened.contains(y as int) {
                let k = choose|k: int| 0 <= k < widened.len() && widened[k] == y as int;
                assert(ends@[k] == y);
            }
        }
    }
    sorted_unique(&ends)
}

/// Whether stock `k` of `panel` takes part in an event on date position
/// `d`: it is present that day, not listed in Beijing, and has a latest
/// quarter end.
pub open spec fn event_stock(panel: DailyPanel, d: int, latest_ends: Seq<Option<i32>>, k: int) -> bool {
    &&& !spec_is_bj_stock(panel.instruments_view()[k])
    &&& panel.present_view()[cell_offset(d, k, panel.instruments_view().len() as int)]
    &&& latest_ends[k] is Some
}

/// Whether stock `k` takes part in the event and needs quarter end `e`.
pub open spec fn stock_needs_end(
    panel: DailyPanel,
    d: int,
    latest_ends: Seq<Option<i32>>,
    last_kept: Seq<Option<i32>>,
    k: int,
    e: int,
) -> bool {
    event_stock(panel, d, latest_ends, k) && needed_ends(last_kept[k], latest_ends[k].unwrap()).contains(e)
}

/// The stocks, by position and ascending, that need quarter end `e` among
/// the first `n`.
pub open spec fn stocks_needing(
    panel: DailyPanel,
    d: int,
    latest_ends: Seq<Option<i32>>,
    last_kept: Seq<Option<i32>>,
    n: int,
    e: int,
) -> Seq<int> {
    Seq::new(n as nat, |k: int| k).filter(|k: int| stock_needs_end(panel, d, latest_ends, last_kept, k, e))
}

/// Whether some of the first `n` stocks take part in the event and need
/// quarter end `e`.
pub open spec fn some_stock_needs(
    panel: DailyPanel,
    d: int,
    latest_ends: Seq<Option<i32>>,
    last_kept: Seq<Option<i32>>,
    n: int,
    e: int,
) -> bool {
    exists|t: int| 0 <= t < n && #[trigger] stock_needs_end(panel, d, latest_ends, last_kept, t, e)
}

/// The quarter ends of `groups`, in order.
pub open spec fn group_keys(groups: Seq<(i32, Vec<usize>)>) -> Seq<i32> {
    groups.map_values(|g: (i32, Vec<usize>)| g.0)
}

/// The quarter ends an event on date position `date_idx` must compute,
/// ascending, each with the stocks that need it, ascending: the stocks
/// present that day, not listed in Beijing and with a latest quarter end
/// (`latest_ends`), each needing [`needed_ends`] of its last kept quarter
/// end (`last_kept`).
pub fn required_end_dates(
    panel: &DailyPanel,
    date_idx: usize,
    latest_ends: &[Option<i32>],
    last_kept: &[Option<i32>],
) -> (r: Vec<(i32, Vec<usize>)>)
    requires
        date_idx < panel.dates_view().len(),
        latest_ends@.len() == panel.instruments_view().len(),
        last_kept@.len() == panel.instruments_view().len(),
    ensures
        forall|a: int, b: int| 0 <= a < b < r@.len() ==> r@[a].0 < r@[b].0,
        forall|e: i32|
            #[trigger] group_keys(r@).contains(e) <==> some_stock_needs(
                *panel,
                date_idx as int,
                latest_ends@,
                last_kept@,
                panel.instruments_view().len() as int,
                e as int,
            ),
        forall|g: int|
            0 <= g < r@.len() ==> (#[trigger] r@[g]).1@.map_values(|x: usize| x as int) == stocks_needing(
                *panel,
                date_idx as int,
                latest_ends@,
                last_kept@,
                panel.instruments_view().len() as int,
                r@[g].0 as int,
            ),
{
    let instruments = panel.instruments();
    let m = instruments.len();
    let total = panel.shape_len();
    let ghost d = date_idx as int;
    let ghost n = panel.dates_view().len() as int;
    proof {
        assert(date_idx * m <= n * m - m) by (nonlinear_arith)
            requires
                date_idx < n,
                0 <= m,
        ;
        assert(n * m == total);
    }
    let date_offset = date_idx * m;
    let ghost lv = latest_ends@;
    let ghost kv = last_kept@;
    let mut groups: Vec<(i32, Vec<usize>)> = Vec::new();
    let mut k: usize = 0;
    while k < m
        invariant
            k <= m,
            m == panel.instruments_view().len(),
            instruments@.map_values(|s: String| s@) == panel.instruments_view(),
            date_offset == d * m,
            d < n,
            n == panel.dates_view().len(),
            total == n * m,
            total == panel.present_view().len(),
            date_offset + m <= total,
            lv == latest_ends@,
            kv == last_kept@,
            lv.len() == m,
            kv.len() == m,
            forall|a: int, b: int| 0 <= a < b < groups@.len() ==> groups@[a].0 < groups@[b].0,
            forall|e: i32|
                #[trigger] group_keys(groups@).contains(e) <==> some_stock_needs(*panel, d, lv, kv, k as int, e as int),
            forall|g: int|
                0 <= g < groups@.len() ==> (#[trigger] groups@[g]).1@.map_values(|x: usize| x as int)
                    == stocks_needing(*panel, d, lv, kv, k as int, groups@[g].0 as int),
        decreases m - k,
    {
        let offset = date_offset + k;
        let code = instruments[k].as_str();
        proof {
            assert(code@ == panel.instruments_view()[k as int]);
            assert(offset as int == cell_offset(d, k as int, m as int));
        }
        let eligible = !is_bj_stock(code) && panel.is_present_offset(offset) && latest_ends[k].is_some();
        proof {
            assert(offset < panel.present_view().len());
            assert(eligible == event_stock(*panel, d, lv, k as int));
        }
        let ghost prev_groups = groups@;
        let ghost mut ends_v: Seq<i32> = Seq::empty();
        if eligible {
            let latest = latest_ends[k].unwrap();
            let ends = needed_quarter_end_dates(last_kept[k], latest);
            proof {
                ends_v = ends@;
            }
            let mut j: usize = 0;
            while j < ends.len()
                invariant
                    j <= ends@.len(),
                    k < m,
                    m == panel.instruments_view().len(),
                    lv == latest_ends@,
                    kv == last_kept@,
                    lv.len() == m,
                    kv.len() == m,
                    event_stock(*panel, d, lv, k as int),
                    latest == lv[k as int].unwrap(),
                    strictly_increasing(ends@),
                    forall|y: i32| #[trigger] ends@.contains(y) <==> needed_ends(kv[k as int], latest).contains(y as int),
                    forall|a: int, b: int| 0 <= a < b < groups@.len() ==> groups@[a].0 < groups@[b].0,
                    forall|e: i32|
                        #[trigger] group_keys(groups@).contains(e) <==> (some_stock_needs(
                            *panel,
                            d,
                            lv,
                            kv,
                            k as int,
                            e as int,
                        ) || ends@.subrange(0, j as int).contains(e)),
                    forall|g: int|
                        0 <= g < groups@.len() ==> (#[trigger] groups@[g]).1@.map_values(|x: usize| x as int)
                            == stocks_needing(*panel, d, lv, kv, k as int, groups@[g].0 as int) + if ends@.subrange(
                            0,
                            j as int,
                        ).contains(groups@[g].0) {
                            seq![k as int]
                        } else {
                            Seq::empty()
                        },
                decreases ends@.len() - j,
            {
                let e = ends[j];
                let ghost before = groups@;
                let ghost done = ends@.subrange(0, j as int);
                let ghost next_done = ends@.subrange(0, j + 1);
                proof {
                    assert(next_done =~= done.push(e));
                    assert(!done.contains(e)) by {
                        if done.contains(e) {
                            let q = choose|q: int| 0 <= q < done.len() && done[q] == e;
                            assert(ends@[q] < ends@[j as int]);
                        }
                    }
                    assert forall|y: i32| #[trigger] next_done.contains(y) <==> done.contains(y) || y == e by {
                        if next_done.contains(y) {
                            let q = choose|q: int| 0 <= q < next_done.len() && next_done[q] == y;
                            if q < done.len() {
                                assert(done[q] == y);
                            }
                        }
                        if done.contains(y) {
                            let q = choose|q: int| 0 <= q < done.len() && done[q] == y;
                            assert(next_done[q] == y);
                        }
                        if y == e {
                            assert(next_done[j as int] == y);
                        }
                    }
                }
                let mut p: usize = 0;
                while p < groups.len() && groups[p].0 < e
                    invariant
                        p <= groups@.len(),
                        forall|q: int| 0 <= q < p ==> groups@[q].0 < e,
                    decreases groups@.len() - p,
                {
                    p = p + 1;
                }
                if p < groups.len() && groups[p].0 == e {
                    let mut group = groups.remove(p);
                    group.1.push(k);
                    groups.insert(p, group);
                    proof {
                        assert(groups@ =~= before.update(p as int, group));
                        assert forall|g: int|
                            0 <= g < groups@.len() implies (#[trigger] groups@[g]).1@.map_values(|x: usize| x as int)
                                == stocks_needing(*panel, d, lv, kv, k as int, groups@[g].0 as int) + if next_done.contains(
                                groups@[g].0,
                            ) {
                                seq![k as int]
                            } else {
                                Seq::empty()
                            } by {
                            if g == p {
                                assert(group.1@.map_values(|x: usize| x as int) =~= before[g].1@.map_values(
                                    |x: usize| x as int,
                                ).push(k as int));
                            } else {
                                assert(groups@[g] == before[g]);
                                assert(before[g].0 != e);
                            }
                        }
                        assert(group_keys(groups@) =~= group_keys(before));
                        assert(group_keys(before)[p as int] == e);
                        assert forall|y: i32|
                            #[trigger] group_keys(groups@).contains(y) <==> (some_stock_needs(
                                *panel,
                                d,
                                lv,
                                kv,
                                k as int,
                                y as int,
                            ) || next_done.contains(y)) by {
                            if y == e {
                                assert(group_keys(groups@)[p as int] == y);
                            }
                        }
                    }
                } else {
                    proof {
                        assert forall|g: int| 0 <= g < before.len() implies #[trigger] before[g].0 != e by {
                            if g < p {
                            } else {
                                assert(before[p as int].0 > e);
                            }
                        }
                        assert(!group_keys(before).contains(e)) by {
                            if group_keys(before).contains(e) {
                                let g = choose|g: int| 0 <= g < group_keys(before).len() && group_keys(before)[g] == e;
                                assert(before[g].0 == e);
                            }
                        }
                        assert(!some_stock_needs(*panel, d, lv, kv, k as int, e as int));
                        assert(stocks_needing(*panel, d, lv, kv, k as int, e as int) =~= Seq::<int>::empty()) by {
                            let s = stocks_needing(*panel, d, lv, kv, k as int, e as int);
                            if s.len() > 0 {
                                let pred = |t: int| stock_needs_end(*panel, d, lv, kv, t, e as int);
                                Seq::new(k as nat, |t: int| t).lemma_filter_contains_rev(pred, s[0]);
                                assert(s.contains(s[0]));
                                Seq::new(k as nat, |t: int| t).filter_lemma(pred);
                            }
                        }
                    }
                    let mut members: Vec<usize> = Vec::new();
                    members.push(k);
                    groups.insert(p, (e, members));
                    proof {
                        assert forall|g: int|
                            0 <= g < groups@.len() implies (#[trigger] groups@[g]).1@.map_values(|x: usize| x as int)
                                == stocks_needing(*panel, d, lv, kv, k as int, groups@[g].0 as int) + if next_done.contains(
                                groups@[g].0,
                            ) {
                                seq![k as int]
                            } else {
                                Seq::empty()
                            } by {
                            if g == p {
                                assert(groups@[g].1@.map_values(|x: usize| x as int) =~= seq![k as int]);
                            } else if g < p {
                                assert(groups@[g] == before[g]);
                            } else {
                                assert(groups@[g] == before[g - 1]);
                            }
                        }
                        assert forall|a: int, b: int| 0 <= a < b < groups@.len() implies groups@[a].0 < groups@[b].0 by {
                            if b < p {
                                assert(groups@[a] == before[a] && groups@[b] == before[b]);
                            } else if b == p {
                                assert(groups@[a] == before[a]);
                            } else if a < p {
                                assert(groups@[a] == before[a] && groups@[b] == before[b - 1]);
                                assert(before[p as int].0 > e);
                                assert(before[p as int].0 <= before[b - 1].0);
                            } else if a == p {
                                assert(groups@[b] == before[b - 1]);
                                assert(before[p as int].0 > e);
                                assert(before[p as int].0 <= before[b - 1].0);
                            } else {
                                assert(groups@[a] == before[a - 1] && groups@[b] == before[b - 1]);
                            }
                        }
                        assert(group_keys(groups@) =~= group_keys(before).insert(p as int, e));
                        assert forall|y: i32|
                            #[trigger] group_keys(groups@).contains(y) <==> (some_stock_needs(
                                *panel,
                                d,
                                lv,
                                kv,
                                k as int,
                                y as int,
                            ) || next_done.contains(y)) by {
                            let ks = group_keys(groups@);
                            let kb = group_keys(before);
                            if ks.contains(y) {
                                let g = choose|g: int| 0 <= g < ks.len() && ks[g] == y;
                                if g < p {
                                    assert(kb[g] == y);
                                } else if g > p {
                                    assert(kb[g - 1] == y);
                                }
                            }
                            if kb.contains(y) {
                                let g = choose|g: int| 0 <= g < kb.len() && kb[g] == y;
                                if g < p {
                                    assert(ks[g] == y);
                                } else {
                                    assert(ks[g + 1] == y);
                                }
                            }
                            if y == e {
                                assert(ks[p as int] == y);
                            }
                        }
                    }
                }
                j = j + 1;
            }
            proof {
                assert(ends@.subrange(0, ends@.len() as int) =~= ends@);
                assert(ends_v == ends@);
            }
        }
        proof {
            let pred_of = |e: int| |t: int| stock_needs_end(*panel, d, lv, kv, t, e);
            assert(Seq::new((k + 1) as nat, |t: int| t) =~= Seq::new(k as nat, |t: int| t).push(k as int));
            assert forall|g: int|
                0 <= g < groups@.len() implies (#[trigger] groups@[g]).1@.map_values(|x: usize| x as int)
                    == stocks_needing(*panel, d, lv, kv, (k + 1) as int, groups@[g].0 as int) by {
                let e = groups@[g].0 as int;
                Seq::new(k as nat, |t: int| t).lemma_filter_push(
                    k as int,
                    |t: int| stock_needs_end(*panel, d, lv, kv, t, e),
                );
                if eligible {
                    assert(stock_needs_end(*panel, d, lv, kv, k as int, e) == needed_ends(kv[k as int], lv[k as int].unwrap()).contains(e));
                } else {
                    assert(!stock_needs_end(*panel, d, lv, kv, k as int, e));
                    assert(groups@ == prev_groups);
                }
            }
            assert forall|y: i32|
                #[trigger] group_keys(groups@).contains(y) <==> some_stock_needs(
                    *panel,
                    d,
                    lv,
                    kv,
                    (k + 1) as int,
                    y as int,
                ) by {
                if some_stock_needs(*panel, d, lv, kv, (k + 1) as int, y as int) {
                    let t = choose|t: int| 0 <= t < k + 1 && #[trigger] stock_needs_end(*panel, d, lv, kv, t, y as int);
                    if t < k {
                        assert(some_stock_needs(*panel, d, lv, kv, k as int, y as int));
                    }
                }
                if some_stock_needs(*panel, d, lv, kv, k as int, y as int) {
                    let t = choose|t: int| 0 <= t < k && #[trigger] stock_needs_end(*panel, d, lv, kv, t, y as int);
                    assert(0 <= t < k + 1);
                }
                if !eligible {
                    assert(groups@ == prev_groups);
                    assert(!stock_needs_end(*panel, d, lv, kv, k as int, y as int));
                } else {
                    assert(ends_v.contains(y) <==> needed_ends(kv[k as int], lv[k as int].unwrap()).contains(
                        y as int,
                    ));
                    if stock_needs_end(*panel, d, lv, kv, k as int, y as int) {
                        assert(some_stock_needs(*panel, d, lv, kv, (k + 1) as int, y as int));
                    }
                }
            }
        }
        k = k + 1;
    }
    groups
}

/// The ROIC-WACC checkpoints fall on 30 April, 31 August and 31 October of
/// every year: whenever one of those dates lies after `lower` and up to
/// `until`, a checkpoint falls between them, so [`should_recompute`] of the
/// two dates holds.
pub proof fn lemma_roic_checkpoint_dates_trigger(lower: i32, until: i32, year: int, month_day: int)
    requires
        month_day == 430 || month_day == 831 || month_day == 1031,
        lower < year * 10000 + month_day <= until,
    ensures
        checkpoint_between(lower, until, roic_checkpoints()),
{
    let k: int = if month_day == 430 {
        0
    } else if month_day == 831 {
        1
    } else {
        2
    };
    assert(roic_checkpoints()[k] == month_day);
    let p = lower as int;
    let t = until as int;
    if p >= 0 {
        let q = p / 10000;
        vstd::arithmetic::div_mod::lemma_fundamental_div_mod(p, 10000);
        assert(0 <= p % 10000 < 10000);
        assert(q <= year);
    } else {
        let q = (-p) / 10000;
        vstd::arithmetic::div_mod::lemma_fundamental_div_mod(-p, 10000);
        assert(0 <= (-p) % 10000 < 10000);
        assert(-q - 1 <= year);
    }
    if t >= 0 {
        let q = t / 10000;
        vstd::arithmetic::div_mod::lemma_fundamental_div_mod(t, 10000);
        assert(0 <= t % 10000 < 10000);
        assert(year <= q);
    } else {
        let q = (-t) / 10000;
        vstd::arithmetic::div_mod::lemma_fundamental_div_mod(-t, 10000);
        assert(0 <= (-t) % 10000 < 10000);
        assert(year <= -q);
    }
    assert(first_scan_year(lower) <= year <= last_scan_year(until));
    assert(lower < year * 10000 + roic_checkpoints()[k] <= until);
}

/// Every ROIC-WACC checkpoint is a 30 April, 31 August or 31 October.
pub proof fn lemma_roic_checkpoints_are_fixed_dates(lower: i32, until: i32)
    requires
        checkpoint_between(lower, until, roic_checkpoints()),
    ensures
        exists|year: int, month_day: int|
            (month_day == 430 || month_day == 831 || month_day == 1031) && lower < #[trigger] (year * 10000
                + month_day) <= until,
{
    let (year, k) = choose|year: int, k: int|
        first_scan_year(lower) <= year <= last_scan_year(until) && 0 <= k < roic_checkpoints().len() && lower
            < #[trigger] (year * 10000 + roic_checkpoints()[k]) <= until;
    let md = roic_checkpoints()[k] as int;
    assert(lower < year * 10000 + md <= until);
}

} // verus!
