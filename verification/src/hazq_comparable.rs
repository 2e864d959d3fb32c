//! HAZQ comparable-company value factors: the grid of valuation bases by
//! peer statistics, the published definitions, which data a request reads,
//! and which intermediate series a request needs.
use vstd::prelude::*;
use crate::catalog::{
    AssetClass,
    DataRequest,
    DataRequestView,
    DatasetId,
    FactorSpec,
    FactorSpecView,
    Frequency,
    IntradayDailyRawRequest,
    Lookback,
    contains_string,
    owned_strings,
    plain_request,
    quarters_request,
    strings_view,
    strs_view,
};
use crate::panel::{DailyPanel, PanelError, is_bj_stock, spec_is_bj_stock};
use crate::dates::{
    previous_quarter_end_date,
    same_quarter_previous_year,
    spec_previous_quarter_end_date,
    spec_same_quarter_previous_year,
};
use crate::financial_marker::{
    FinancialEventMarker,
    FinancialEventMarkerBuilder,
    FinancialRecordMarker,
    FinancialStatementDataset,
    MarkerContent,
    canonical,
    same_members,
    seen_marker,
    with_quarters,
    with_record,
};
use crate::financial_pit::{FinancialPitReader, latest_end};

verus! {

/// Key of the provider that computes every output.
pub const PROVIDER_KEY: &'static str = "stock|daily|hazq_comparable_value";
/// Version of the factors.
pub const VERSION: &'static str = "0.1.0";
/// Trading days of history the factors read.
pub const LOOKBACK: usize = 252;
/// Financial quarters the factors read.
pub const FINANCIAL_QUARTERS: usize = 8;
/// Daily-basic column of total market value.
pub const TOTAL_MV_COLUMN: &'static str = "total_mv";
/// Daily-basic column of the trailing PE.
pub const PE_TTM_COLUMN: &'static str = "pe_ttm";
/// Consensus column of two-year rolling profit growth.
pub const CONSENSUS_GROWTH_COLUMN: &'static str = "con_npcgrate_2y_roll";
/// Consensus column of the rolling PE.
pub const CONSENSUS_PE_ROLL_COLUMN: &'static str = "con_pe_roll";
/// Number of valuation bases.
pub const BASE_COUNT: usize = 9;
/// Number of peer statistics.
pub const COMPONENT_COUNT: usize = 13;

/// The valuation ratio a comparable factor starts from.
#[derive(Clone, Copy, Debug, Eq, PartialEq, Structural, Ord, PartialOrd, Hash)]
pub enum HazqComparableBase {
    Bp,
    Dp,
    Ebit2Ev,
    Ep,
    EpQ,
    Ocfp,
    Sales2Ev,
    EpPercentile,
    EpFttm,
}

/// The peer statistic a comparable factor reports.
#[derive(Clone, Copy, Debug, Eq, PartialEq, Structural, Ord, PartialOrd, Hash)]
pub enum HazqComparableComponent {
    Med,
    Avg,
    Weighted,
    Max,
    Min,
    Wgt,
    Wgt2,
    Dst,
    Prm,
    DstZscore,
    PrmZscore,
    GapAvg,
    GapMmm,
}

/// The id of `base`.
pub open spec fn base_id(base: HazqComparableBase) -> Seq<char> {
    match base {
        HazqComparableBase::Bp => "bp"@,
        HazqComparableBase::Dp => "dp"@,
        HazqComparableBase::Ebit2Ev => "ebit2ev"@,
        HazqComparableBase::Ep => "ep"@,
        HazqComparableBase::EpQ => "ep_q"@,
        HazqComparableBase::Ocfp => "ocfp"@,
        HazqComparableBase::Sales2Ev => "sales2ev"@,
        HazqComparableBase::EpPercentile => "ep_percentile"@,
        HazqComparableBase::EpFttm => "ep_fttm"@,
    }
}

/// The alias of `base`.
pub open spec fn base_alias(base: HazqComparableBase) -> Seq<char> {
    match base {
        HazqComparableBase::Bp => "BP"@,
        HazqComparableBase::Dp => "DP"@,
        HazqComparableBase::Ebit2Ev => "EBIT2EV"@,
        HazqComparableBase::Ep => "EP"@,
        HazqComparableBase::EpQ => "EP_Q"@,
        HazqComparableBase::Ocfp => "OCFP"@,
        HazqComparableBase::Sales2Ev => "SALES2EV"@,
        HazqComparableBase::EpPercentile => "EP_PERCENTILE"@,
        HazqComparableBase::EpFttm => "EP_FTTM"@,
    }
}

/// The position of `base` in the base order.
pub open spec fn base_index(base: HazqComparableBase) -> int {
    match base {
        HazqComparableBase::Bp => 0,
        HazqComparableBase::Dp => 1,
        HazqComparableBase::Ebit2Ev => 2,
        HazqComparableBase::Ep => 3,
        HazqComparableBase::EpQ => 4,
        HazqComparableBase::Ocfp => 5,
        HazqComparableBase::Sales2Ev => 6,
        HazqComparableBase::EpPercentile => 7,
        HazqComparableBase::EpFttm => 8,
    }
}

/// The base at position `i` of the base order (the last one past the end).
pub open spec fn base_at(i: int) -> HazqComparableBase {
    if i == 0 {
        HazqComparableBase::Bp
    } else if i == 1 {
        HazqComparableBase::Dp
    } else if i == 2 {
        HazqComparableBase::Ebit2Ev
    } else if i == 3 {
        HazqComparableBase::Ep
    } else if i == 4 {
        HazqComparableBase::EpQ
    } else if i == 5 {
        HazqComparableBase::Ocfp
    } else if i == 6 {
        HazqComparableBase::Sales2Ev
    } else if i == 7 {
        HazqComparableBase::EpPercentile
    } else {
        HazqComparableBase::EpFttm
    }
}

/// The bases, in order.
pub open spec fn all_bases() -> Seq<HazqComparableBase> {
    Seq::new(BASE_COUNT as nat, |i: int| base_at(i))
}

/// The id of `component`.
pub open spec fn component_id(component: HazqComparableComponent) -> Seq<char> {
    match component {
        HazqComparableComponent::Med => "med"@,
        HazqComparableComponent::Avg => "avg"@,
        HazqComparableComponent::Weighted => "weighted"@,
        HazqComparableComponent::Max => "max"@,
        HazqComparableComponent::Min => "min"@,
        HazqComparableComponent::Wgt => "wgt"@,
        HazqComparableComponent::Wgt2 => "wgt2"@,
        HazqComparableComponent::Dst => "dst"@,
        HazqComparableComponent::Prm => "prm"@,
        HazqComparableComponent::DstZscore => "dst_zscore"@,
        HazqComparableComponent::PrmZscore => "prm_zscore"@,
        HazqComparableComponent::GapAvg => "gap_avg"@,
        HazqComparableComponent::GapMmm => "gap_mmm"@,
    }
}

/// The alias of `component`.
pub open spec fn component_alias(component: HazqComparableComponent) -> Seq<char> {
    match component {
        HazqComparableComponent::Med => "MED"@,
        HazqComparableComponent::Avg => "AVG"@,
        HazqComparableComponent::Weighted => "WEIGHTED"@,
        HazqComparableComponent::Max => "MAX"@,
        HazqComparableComponent::Min => "MIN"@,
        HazqComparableComponent::Wgt => "WGT"@,
        HazqComparableComponent::Wgt2 => "WGT2"@,
        HazqComparableComponent::Dst => "DST"@,
        HazqComparableComponent::Prm => "PRM"@,
        HazqComparableComponent::DstZscore => "DST_ZSCORE"@,
        HazqComparableComponent::PrmZscore => "PRM_ZSCORE"@,
        HazqComparableComponent::GapAvg => "GAP_AVG"@,
        HazqComparableComponent::GapMmm => "GAP_MMM"@,
    }
}

/// The position of `component` in the component order.
pub open spec fn component_index(component: HazqComparableComponent) -> int {
    match component {
        HazqComparableComponent::Med => 0,
        HazqComparableComponent::Avg => 1,
        HazqComparableComponent::Weighted => 2,
        HazqComparableComponent::Max => 3,
        HazqComparableComponent::Min => 4,
        HazqComparableComponent::Wgt => 5,
        HazqComparableComponent::Wgt2 => 6,
        HazqComparableComponent::Dst => 7,
        HazqComparableComponent::Prm => 8,
        HazqComparableComponent::DstZscore => 9,
        HazqComparableComponent::PrmZscore => 10,
        HazqComparableComponent::GapAvg => 11,
        HazqComparableComponent::GapMmm => 12,
    }
}

/// The component at position `i` of the component order (the last one past
/// the end).
pub open spec fn component_at(i: int) -> HazqComparableComponent {
    if i == 0 {
        HazqComparableComponent::Med
    } else if i == 1 {
        HazqComparableComponent::Avg
    } else if i == 2 {
        HazqComparableComponent::Weighted
    } else if i == 3 {
        HazqComparableComponent::Max
    } else if i == 4 {
        HazqComparableComponent::Min
    } else if i == 5 {
        HazqComparableComponent::Wgt
    } else if i == 6 {
        HazqComparableComponent::Wgt2
    } else if i == 7 {
        HazqComparableComponent::Dst
    } else if i == 8 {
        HazqComparableComponent::Prm
    } else if i == 9 {
        HazqComparableComponent::DstZscore
    } else if i == 10 {
        HazqComparableComponent::PrmZscore
    } else if i == 11 {
        HazqComparableComponent::GapAvg
    } else {
        HazqComparableComponent::GapMmm
    }
}

/// The components, in order.
pub open spec fn all_components() -> Seq<HazqComparableComponent> {
    Seq::new(COMPONENT_COUNT as nat, |i: int| component_at(i))
}

/// The component whose series `component` is derived from: the time
/// z-scores come from the raw distance and premium, the rest from themselves.
pub open spec fn source_of(component: HazqComparableComponent) -> HazqComparableComponent {
    match component {
        HazqComparableComponent::DstZscore => HazqComparableComponent::Dst,
        HazqComparableComponent::PrmZscore => HazqComparableComponent::Prm,
        other => other,
    }
}

/// Whether `component` is a rolling time-series z-score.
pub open spec fn is_time_zscore_component(component: HazqComparableComponent) -> bool {
    component == HazqComparableComponent::DstZscore || component == HazqComparableComponent::PrmZscore
}

/// Whether `component` compares against consensus growth groups.
pub open spec fn is_gap_component(component: HazqComparableComponent) -> bool {
    component == HazqComparableComponent::GapAvg || component == HazqComparableComponent::GapMmm
}

/// Positions and enum values agree both ways.
pub proof fn lemma_index_roundtrip(base: HazqComparableBase, component: HazqComparableComponent)
    ensures
        0 <= base_index(base) < BASE_COUNT,
        base_at(base_index(base)) == base,
        0 <= component_index(component) < COMPONENT_COUNT,
        component_at(component_index(component)) == component,
{
}

/// Positions and enum values agree both ways.
pub proof fn lemma_position_roundtrip(i: int, j: int)
    requires
        0 <= i < BASE_COUNT,
        0 <= j < COMPONENT_COUNT,
    ensures
        base_index(base_at(i)) == i,
        component_index(component_at(j)) == j,
{
}

impl HazqComparableBase {
    /// The id of this base.
    pub fn id(self) -> (r: &'static str)
        ensures
            r@ == base_id(self),
    {
        match self {
            HazqComparableBase::Bp => "bp",
            HazqComparableBase::Dp => "dp",
            HazqComparableBase::Ebit2Ev => "ebit2ev",
            HazqComparableBase::Ep => "ep",
            HazqComparableBase::EpQ => "ep_q",
            HazqComparableBase::Ocfp => "ocfp",
            HazqComparableBase::Sales2Ev => "sales2ev",
            HazqComparableBase::EpPercentile => "ep_percentile",
            HazqComparableBase::EpFttm => "ep_fttm",
        }
    }

    /// The alias of this base.
    pub fn alias(self) -> (r: &'static str)
        ensures
            r@ == base_alias(self),
    {
        match self {
            HazqComparableBase::Bp => "BP",
            HazqComparableBase::Dp => "DP",
            HazqComparableBase::Ebit2Ev => "EBIT2EV",
            HazqComparableBase::Ep => "EP",
            HazqComparableBase::EpQ => "EP_Q",
            HazqComparableBase::Ocfp => "OCFP",
            HazqComparableBase::Sales2Ev => "SALES2EV",
            HazqComparableBase::EpPercentile => "EP_PERCENTILE",
            HazqComparableBase::EpFttm => "EP_FTTM",
        }
    }

    /// The position of this base in the base order.
    pub fn idx(self) -> (r: usize)
        ensures
            r == base_index(self),
    {
        match self {
            HazqComparableBase::Bp => 0,
            HazqComparableBase::Dp => 1,
            HazqComparableBase::Ebit2Ev => 2,
            HazqComparableBase::Ep => 3,
            HazqComparableBase::EpQ => 4,
            HazqComparableBase::Ocfp => 5,
            HazqComparableBase::Sales2Ev => 6,
            HazqComparableBase::EpPercentile => 7,
            HazqComparableBase::EpFttm => 8,
        }
    }
}

impl HazqComparableComponent {
    /// The id of this component.
    pub fn id(self) -> (r: &'static str)
        ensures
            r@ == component_id(self),
    {
        match self {
            HazqComparableComponent::Med => "med",
            HazqComparableComponent::Avg => "avg",
            HazqComparableComponent::Weighted => "weighted",
            HazqComparableComponent::Max => "max",
            HazqComparableComponent::Min => "min",
            HazqComparableComponent::Wgt => "wgt",
            HazqComparableComponent::Wgt2 => "wgt2",
            HazqComparableComponent::Dst => "dst",
            HazqComparableComponent::Prm => "prm",
            HazqComparableComponent::DstZscore => "dst_zscore",
            HazqComparableComponent::PrmZscore => "prm_zscore",
            HazqComparableComponent::GapAvg => "gap_avg",
            HazqComparableComponent::GapMmm => "gap_mmm",
        }
    }

    /// The alias of this component.
    pub fn alias(self) -> (r: &'static str)
        ensures
            r@ == component_alias(self),
    {
        match self {
            HazqComparableComponent::Med => "MED",
            HazqComparableComponent::Avg => "AVG",
            HazqComparableComponent::Weighted => "WEIGHTED",
            HazqComparableComponent::Max => "MAX",
            HazqComparableComponent::Min => "MIN",
            HazqComparableComponent::Wgt => "WGT",
            HazqComparableComponent::Wgt2 => "WGT2",
            HazqComparableComponent::Dst => "DST",
            HazqComparableComponent::Prm => "PRM",
            HazqComparableComponent::DstZscore => "DST_ZSCORE",
            HazqComparableComponent::PrmZscore => "PRM_ZSCORE",
            HazqComparableComponent::GapAvg => "GAP_AVG",
            HazqComparableComponent::GapMmm => "GAP_MMM",
        }
    }

    /// The position of this component in the component order.
    pub fn idx(self) -> (r: usize)
        ensures
            r == component_index(self),
    {
        match self {
            HazqComparableComponent::Med => 0,
            HazqComparableComponent::Avg => 1,
            HazqComparableComponent::Weighted => 2,
            HazqComparableComponent::Max => 3,
            HazqComparableComponent::Min => 4,
            HazqComparableComponent::Wgt => 5,
            HazqComparableComponent::Wgt2 => 6,
            HazqComparableComponent::Dst => 7,
            HazqComparableComponent::Prm => 8,
            HazqComparableComponent::DstZscore => 9,
            HazqComparableComponent::PrmZscore => 10,
            HazqComparableComponent::GapAvg => 11,
            HazqComparableComponent::GapMmm => 12,
        }
    }

    /// The component whose series this one is derived from.
    pub fn source_component(self) -> (r: Self)
        ensures
            r == source_of(self),
    {
        match self {
            HazqComparableComponent::DstZscore => HazqComparableComponent::Dst,
            HazqComparableComponent::PrmZscore => HazqComparableComponent::Prm,
            other => other,
        }
    }

    /// Whether this component is a rolling time-series z-score.
    pub fn is_time_zscore(self) -> (r: bool)
        ensures
            r == is_time_zscore_component(self),
    {
        match self {
            HazqComparableComponent::DstZscore | HazqComparableComponent::PrmZscore => true,
            _ => false,
        }
    }
}

/// One comparable factor: a base and a peer statistic.
#[derive(Clone, Copy, Debug, Eq, PartialEq, Structural, Ord, PartialOrd, Hash)]
pub struct HazqComparableValueOutput {
    pub base: HazqComparableBase,
    pub component: HazqComparableComponent,
}

/// The factor id of `output`: `comp_`, the base id, `_`, the component id.
pub open spec fn output_id(output: HazqComparableValueOutput) -> Seq<char> {
    "comp_"@ + base_id(output.base) + "_"@ + component_id(output.component)
}

/// The output at position `i` of the base-major grid.
pub open spec fn output_at(i: int) -> HazqComparableValueOutput {
    HazqComparableValueOutput {
        base: base_at(i / COMPONENT_COUNT as int),
        component: component_at(i % COMPONENT_COUNT as int),
    }
}

/// The position of `output` in the base-major grid.
pub open spec fn output_position(output: HazqComparableValueOutput) -> int {
    base_index(output.base) * COMPONENT_COUNT + component_index(output.component)
}

/// Every output, base-major: all components of the first base, then of the
/// second, and so on.
pub open spec fn all_outputs_view() -> Seq<HazqComparableValueOutput> {
    Seq::new((BASE_COUNT * COMPONENT_COUNT) as nat, |i: int| output_at(i))
}

/// Base-major positions split into base and component positions.
proof fn lemma_grid_split(b: int, c: int)
    requires
        0 <= b < BASE_COUNT,
        0 <= c < COMPONENT_COUNT,
    ensures
        (b * COMPONENT_COUNT + c) / COMPONENT_COUNT as int == b,
        (b * COMPONENT_COUNT + c) % COMPONENT_COUNT as int == c,
        0 <= b * COMPONENT_COUNT + c < BASE_COUNT * COMPONENT_COUNT,
{
    assert((b * 13 + c) / 13 == b && (b * 13 + c) % 13 == c) by (nonlinear_arith)
        requires
            0 <= c < 13,
    ;
}

/// Two grid cells are the same cell only at the same base and component.
proof fn lemma_grid_injective(b1: int, c1: int, b2: int, c2: int)
    requires
        0 <= b1 < BASE_COUNT,
        0 <= c1 < COMPONENT_COUNT,
        0 <= b2 < BASE_COUNT,
        0 <= c2 < COMPONENT_COUNT,
        b1 * COMPONENT_COUNT + c1 == b2 * COMPONENT_COUNT + c2,
    ensures
        b1 == b2,
        c1 == c2,
{
    lemma_grid_split(b1, c1);
    lemma_grid_split(b2, c2);
}

/// Every base-and-component pair is registered exactly once: the grid holds
/// each output at its position and nowhere else.
pub proof fn lemma_all_outputs_register_each_pair_once(output: HazqComparableValueOutput, i: int)
    ensures
        0 <= output_position(output) < all_outputs_view().len(),
        all_outputs_view()[output_position(output)] == output,
        0 <= i < all_outputs_view().len() && all_outputs_view()[i] == output ==> i
            == output_position(output),
{
    lemma_index_roundtrip(output.base, output.component);
    lemma_grid_split(base_index(output.base), component_index(output.component));
    if 0 <= i < all_outputs_view().len() && all_outputs_view()[i] == output {
        let b = i / COMPONENT_COUNT as int;
        let c = i % COMPONENT_COUNT as int;
        assert(i == b * COMPONENT_COUNT + c && 0 <= b < BASE_COUNT && 0 <= c < COMPONENT_COUNT)
            by (nonlinear_arith)
            requires
                0 <= i < 117,
                b == i / 13,
                c == i % 13,
        ;
        lemma_position_roundtrip(b, c);
    }
}

/// The bases, in order.
pub fn bases() -> (r: [HazqComparableBase; 9])
    ensures
        r@ == all_bases(),
{
    let r: [HazqComparableBase; 9] = [
        HazqComparableBase::Bp,
        HazqComparableBase::Dp,
        HazqComparableBase::Ebit2Ev,
        HazqComparableBase::Ep,
        HazqComparableBase::EpQ,
        HazqComparableBase::Ocfp,
        HazqComparableBase::Sales2Ev,
        HazqComparableBase::EpPercentile,
        HazqComparableBase::EpFttm,
    ];
    assert(r@ =~= all_bases());
    r
}

/// The components, in order.
pub fn components() -> (r: [HazqComparableComponent; 13])
    ensures
        r@ == all_components(),
{
    let r: [HazqComparableComponent; 13] = [
        HazqComparableComponent::Med,
        HazqComparableComponent::Avg,
        HazqComparableComponent::Weighted,
        HazqComparableComponent::Max,
        HazqComparableComponent::Min,
        HazqComparableComponent::Wgt,
        HazqComparableComponent::Wgt2,
        HazqComparableComponent::Dst,
        HazqComparableComponent::Prm,
        HazqComparableComponent::DstZscore,
        HazqComparableComponent::PrmZscore,
        HazqComparableComponent::GapAvg,
        HazqComparableComponent::GapMmm,
    ];
    assert(r@ =~= all_components());
    r
}

impl HazqComparableValueOutput {
    /// The output of `base` and `component`.
    pub fn new(base: HazqComparableBase, component: HazqComparableComponent) -> (r: Self)
        ensures
            r.base == base,
            r.component == component,
    {
        HazqComparableValueOutput { base, component }
    }

    /// The factor id of this output.
    pub fn id(self) -> (r: String)
        ensures
            r@ == output_id(self),
    {
        "comp_".to_owned().concat(self.base.id()).concat("_").concat(self.component.id())
    }
}

/// Every output, base-major.
pub fn all_outputs() -> (r: Vec<HazqComparableValueOutput>)
    ensures
        r@ == all_outputs_view(),
        forall|i: int, j: int| 0 <= i < j < r@.len() ==> output_id(r@[i]) != output_id(r@[j]),
{
    let bs = bases();
    let cs = components();
    let mut out: Vec<HazqComparableValueOutput> = Vec::new();
    let mut b: usize = 0;
    while b < BASE_COUNT
        invariant
            b <= BASE_COUNT,
            bs@ == all_bases(),
            cs@ == all_components(),
            out@.len() == b * COMPONENT_COUNT,
            forall|k: int| 0 <= k < out@.len() ==> #[trigger] out@[k] == output_at(k),
        decreases BASE_COUNT - b,
    {
        let mut c: usize = 0;
        while c < COMPONENT_COUNT
            invariant
                b < BASE_COUNT,
                c <= COMPONENT_COUNT,
                bs@ == all_bases(),
                cs@ == all_components(),
                out@.len() == b * COMPONENT_COUNT + c,
                forall|k: int| 0 <= k < out@.len() ==> #[trigger] out@[k] == output_at(k),
            decreases COMPONENT_COUNT - c,
        {
            proof {
                lemma_grid_split(b as int, c as int);
            }
            out.push(HazqComparableValueOutput { base: bs[b], component: cs[c] });
            c = c + 1;
        }
        b = b + 1;
    }
    assert(out@ =~= all_outputs_view());
    proof {
        assert forall|i: int, j: int| 0 <= i < j < out@.len() implies output_id(out@[i]) != output_id(out@[j]) by {
            lemma_all_output_ids_distinct(i, j);
        }
    }
    out
}

/// The outputs, in grid order, whose ids `requested` names.
pub open spec fn requested_view(requested: Seq<Seq<char>>) -> Seq<HazqComparableValueOutput> {
    all_outputs_view().filter(|o: HazqComparableValueOutput| requested.contains(output_id(o)))
}

/// The outputs, in grid order, whose ids `requested_ids` names; unknown ids
/// are ignored.
pub fn requested_outputs(requested_ids: &[String]) -> (r: Vec<HazqComparableValueOutput>)
    ensures
        r@ == requested_view(strings_view(requested_ids@)),
{
    let all = all_outputs();
    let ghost wanted = strings_view(requested_ids@);
    let ghost pred = |o: HazqComparableValueOutput| wanted.contains(output_id(o));
    let mut out: Vec<HazqComparableValueOutput> = Vec::new();
    let mut i: usize = 0;
    while i < all.len()
        invariant
            i <= all@.len(),
            all@ == all_outputs_view(),
            wanted == strings_view(requested_ids@),
            pred == (|o: HazqComparableValueOutput| wanted.contains(output_id(o))),
            out@ == all@.subrange(0, i as int).filter(pred),
        decreases all@.len() - i,
    {
        let o = all[i];
        let id = o.id();
        let keep = contains_string(requested_ids, id.as_str());
        proof {
            assert(all@.subrange(0, i + 1) =~= all@.subrange(0, i as int).push(o));
            all@.subrange(0, i as int).lemma_filter_push(o, pred);
        }
        if keep {
            out.push(o);
        }
        i = i + 1;
    }
    assert(all@.subrange(0, all@.len() as int) =~= all@);
    out
}

/// Where the series of `base` and `component` is stored among the
/// intermediate series: base-major.
pub open spec fn source_slot(base: HazqComparableBase, component: HazqComparableComponent) -> int {
    base_index(base) * COMPONENT_COUNT + component_index(component)
}

/// The intermediate series slot `output` is computed from.
pub open spec fn output_slot(output: HazqComparableValueOutput) -> int {
    source_slot(output.base, source_of(output.component))
}

/// Whether some output in `outputs` is computed from slot `k`.
pub open spec fn slot_needed(outputs: Seq<HazqComparableValueOutput>, k: int) -> bool {
    exists|j: int| 0 <= j < outputs.len() && output_slot(#[trigger] outputs[j]) == k
}

/// Whether some output in `outputs` has base `base`.
pub open spec fn base_requested(outputs: Seq<HazqComparableValueOutput>, base: HazqComparableBase) -> bool {
    exists|j: int| 0 <= j < outputs.len() && (#[trigger] outputs[j]).base == base
}

/// The slot of the series of `base` and `component`.
pub fn source_key(base: HazqComparableBase, component: HazqComparableComponent) -> (r: usize)
    ensures
        r == source_slot(base, component),
        r < BASE_COUNT * COMPONENT_COUNT,
{
    proof {
        lemma_grid_split(base_index(base), component_index(component));
    }
    base.idx() * COMPONENT_COUNT + component.idx()
}

/// For each intermediate series slot, whether some output is computed from it.
pub fn source_component_needs(outputs: &[HazqComparableValueOutput]) -> (r: Vec<bool>)
    ensures
        r@.len() == BASE_COUNT * COMPONENT_COUNT,
        forall|k: int| 0 <= k < r@.len() ==> r@[k] == slot_needed(outputs@, k),
{
    let mut needs: Vec<bool> = vec![false; BASE_COUNT * COMPONENT_COUNT];
    let mut i: usize = 0;
    while i < outputs.len()
        invariant
            i <= outputs@.len(),
            needs@.len() == BASE_COUNT * COMPONENT_COUNT,
            forall|k: int|
                0 <= k < needs@.len() ==> #[trigger] needs@[k] == slot_needed(outputs@.subrange(0, i as int), k),
        decreases outputs@.len() - i,
    {
        let o = outputs[i];
        let key = source_key(o.base, o.component.source_component());
        let ghost before = needs@;
        needs.set(key, true);
        proof {
            let prev = outputs@.subrange(0, i as int);
            let next = outputs@.subrange(0, i + 1);
            assert forall|k: int| 0 <= k < needs@.len() implies #[trigger] needs@[k] == slot_needed(next, k) by {
                if k == key {
                    assert(next[i as int] == o);
                } else {
                    assert(before[k] == slot_needed(prev, k));
                    if slot_needed(next, k) {
                        let j = choose|j: int| 0 <= j < next.len() && output_slot(#[trigger] next[j]) == k;
                        assert(j != i);
                        assert(prev[j] == next[j]);
                    }
                    if slot_needed(prev, k) {
                        let j = choose|j: int| 0 <= j < prev.len() && output_slot(#[trigger] prev[j]) == k;
                        assert(prev[j] == next[j]);
                    }
                }
            }
        }
        i = i + 1;
    }
    assert(outputs@.subrange(0, outputs@.len() as int) =~= outputs@);
    needs
}

/// What a request asks for: the requested outputs, and which intermediate
/// series they are computed from.
#[derive(Debug)]
pub struct ComparableRequestPlan {
    outputs: Vec<HazqComparableValueOutput>,
    source_needs: Vec<bool>,
}

impl ComparableRequestPlan {
    #[verifier::type_invariant]
    spec fn needs_match_outputs(self) -> bool {
        &&& self.source_needs@.len() == BASE_COUNT * COMPONENT_COUNT
        &&& forall|k: int|
            0 <= k < self.source_needs@.len() ==> self.source_needs@[k] == slot_needed(self.outputs@, k)
    }

    /// The requested outputs, in grid order.
    pub closed spec fn outputs_view(self) -> Seq<HazqComparableValueOutput> {
        self.outputs@
    }

    /// The plan of the outputs whose ids `requested_ids` names.
    pub fn from_requested_ids(requested_ids: &[String]) -> (r: Self)
        ensures
            r.outputs_view() == requested_view(strings_view(requested_ids@)),
    {
        let outputs = requested_outputs(requested_ids);
        let source_needs = source_component_needs(outputs.as_slice());
        ComparableRequestPlan { outputs, source_needs }
    }

    /// Whether no output is requested.
    pub fn is_empty(&self) -> (r: bool)
        ensures
            r == (self.outputs_view().len() == 0),
    {
        self.outputs.len() == 0
    }

    /// Whether a requested output compares against consensus growth groups.
    pub fn needs_consensus_growth(&self) -> (r: bool)
        ensures
            r == exists|j: int|
                0 <= j < self.outputs_view().len() && is_gap_component(
                    (#[trigger] self.outputs_view()[j]).component,
                ),
    {
        let mut i: usize = 0;
        while i < self.outputs.len()
            invariant
                i <= self.outputs@.len(),
                forall|j: int| 0 <= j < i ==> !is_gap_component((#[trigger] self.outputs@[j]).component),
            decreases self.outputs@.len() - i,
        {
            match self.outputs[i].component {
                HazqComparableComponent::GapAvg | HazqComparableComponent::GapMmm => {
                    return true;
                },
                _ => {},
            }
            i = i + 1;
        }
        false
    }

    /// Whether the intermediate series of `base` and `component` is needed.
    pub fn needs_source_component(
        &self,
        base: HazqComparableBase,
        component: HazqComparableComponent,
    ) -> (r: bool)
        ensures
            r == slot_needed(self.outputs_view(), source_slot(base, component)),
    {
        proof {
            use_type_invariant(self);
        }
        let key = source_key(base, component);
        self.source_needs[key]
    }

    /// The bases, in base order, that some requested output draws on.
    pub fn requested_bases(&self) -> (r: Vec<HazqComparableBase>)
        ensures
            r@ == all_bases().filter(|b: HazqComparableBase| base_requested(self.outputs_view(), b)),
    {
        proof {
            use_type_invariant(self);
        }
        let bs = bases();
        let cs = components();
        let ghost outs = self.outputs@;
        let ghost pred = |b: HazqComparableBase| base_requested(outs, b);
        let mut out: Vec<HazqComparableBase> = Vec::new();
        let mut b: usize = 0;
        while b < BASE_COUNT
            invariant
                b <= BASE_COUNT,
                bs@ == all_bases(),
                cs@ == all_components(),
                outs == self.outputs@,
                pred == (|b: HazqComparableBase| base_requested(outs, b)),
                self.source_needs@.len() == BASE_COUNT * COMPONENT_COUNT,
                forall|k: int|
                    0 <= k < self.source_needs@.len() ==> self.source_needs@[k] == slot_needed(outs, k),
                out@ == bs@.subrange(0, b as int).filter(pred),
            decreases BASE_COUNT - b,
        {
            let base = bs[b];
            let mut any = false;
            let mut c: usize = 0;
            while c < COMPONENT_COUNT
                invariant
                    b < BASE_COUNT,
                    c <= COMPONENT_COUNT,
                    base == all_bases()[b as int],
                    cs@ == all_components(),
                    self.source_needs@.len() == BASE_COUNT * COMPONENT_COUNT,
                    forall|k: int|
                        0 <= k < self.source_needs@.len() ==> self.source_needs@[k] == slot_needed(outs, k),
                    any == exists|cc: int| 0 <= cc < c && slot_needed(outs, #[trigger] source_slot(base, component_at(cc))),
                decreases COMPONENT_COUNT - c,
            {
                let key = source_key(base, cs[c]);
                if self.source_needs[key] {
                    any = true;
                }
                c = c + 1;
            }
            proof {
                lemma_base_needed_iff_requested(outs, base);
                assert(bs@.subrange(0, b + 1) =~= bs@.subrange(0, b as int).push(base));
                bs@.subrange(0, b as int).lemma_filter_push(base, pred);
            }
            if any {
                out.push(base);
            }
            b = b + 1;
        }
        assert(bs@.subrange(0, BASE_COUNT as int) =~= bs@);
        out
    }

    /// Whether the forward-consensus EP base is requested.
    pub fn needs_consensus_pe_roll(&self) -> (r: bool)
        ensures
            r == base_requested(self.outputs_view(), HazqComparableBase::EpFttm),
    {
        let requested = self.requested_bases();
        proof {
            lemma_requested_bases_contain(self.outputs_view(), HazqComparableBase::EpFttm);
        }
        contains_base(requested.as_slice(), HazqComparableBase::EpFttm)
    }

    /// Whether the EP intermediate series is needed: by the EP base or by
    /// its percentile.
    pub fn needs_ep_intermediate(&self) -> (r: bool)
        ensures
            r == (base_requested(self.outputs_view(), HazqComparableBase::Ep) || base_requested(
                self.outputs_view(),
                HazqComparableBase::EpPercentile,
            )),
    {
        let requested = self.requested_bases();
        proof {
            lemma_requested_bases_contain(self.outputs_view(), HazqComparableBase::Ep);
            lemma_requested_bases_contain(self.outputs_view(), HazqComparableBase::EpPercentile);
        }
        contains_base(requested.as_slice(), HazqComparableBase::Ep) || contains_base(
            requested.as_slice(),
            HazqComparableBase::EpPercentile,
        )
    }
}

/// A base is needed by some slot of its row exactly when an output has it.
proof fn lemma_base_needed_iff_requested(outputs: Seq<HazqComparableValueOutput>, base: HazqComparableBase)
    ensures
        (exists|cc: int| 0 <= cc < COMPONENT_COUNT && slot_needed(outputs, #[trigger] source_slot(base, component_at(cc))))
            == base_requested(outputs, base),
{
    if base_requested(outputs, base) {
        let j = choose|j: int| 0 <= j < outputs.len() && (#[trigger] outputs[j]).base == base;
        let src = source_of(outputs[j].component);
        lemma_index_roundtrip(base, src);
        assert(slot_needed(outputs, source_slot(base, component_at(component_index(src)))));
    }
    if exists|cc: int| 0 <= cc < COMPONENT_COUNT && slot_needed(outputs, #[trigger] source_slot(base, component_at(cc))) {
        let cc = choose|cc: int| 0 <= cc < COMPONENT_COUNT && slot_needed(outputs, #[trigger] source_slot(base, component_at(cc)));
        let j = choose|j: int| 0 <= j < outputs.len() && output_slot(#[trigger] outputs[j]) == source_slot(base, component_at(cc));
        let o = outputs[j];
        lemma_index_roundtrip(o.base, source_of(o.component));
        lemma_index_roundtrip(base, component_at(cc));
        lemma_position_roundtrip(0, cc);
        lemma_grid_injective(
            base_index(o.base),
            component_index(source_of(o.component)),
            base_index(base),
            component_index(component_at(cc)),
        );
        assert(o.base == base);
    }
}

/// Whether `base` occurs in `items`.
fn contains_base(items: &[HazqComparableBase], base: HazqComparableBase) -> (r: bool)
    ensures
        r == items@.contains(base),
{
    let mut i: usize = 0;
    while i < items.len()
        invariant
            i <= items@.len(),
            forall|j: int| 0 <= j < i ==> items@[j] != base,
        decreases items@.len() - i,
    {
        if items[i] == base {
            return true;
        }
        i = i + 1;
    }
    false
}

/// The requested bases that hold `base` are those where an output has it.
pub proof fn lemma_requested_bases_contain(outputs: Seq<HazqComparableValueOutput>, base: HazqComparableBase)
    ensures
        all_bases().filter(|b: HazqComparableBase| base_requested(outputs, b)).contains(base)
            == base_requested(outputs, base),
{
    let pred = |b: HazqComparableBase| base_requested(outputs, b);
    let f = all_bases().filter(pred);
    lemma_index_roundtrip(base, HazqComparableComponent::Med);
    if base_requested(outputs, base) {
        assert(all_bases()[base_index(base)] == base);
        all_bases().lemma_filter_contains(pred, base_index(base));
    }
    if f.contains(base) {
        let k = choose|k: int| 0 <= k < f.len() && f[k] == base;
        all_bases().lemma_filter_pred(pred, k);
    }
}

/// The tags of every comparable factor.
pub open spec fn comparable_tags() -> Seq<Seq<char>> {
    seq![
        "HAZQ"@,
        "cs_network"@,
        "fundamental"@,
        "financial"@,
        "pit"@,
        "valuation"@,
        "comparable_company"@,
        "size_neutralize"@,
        "sector_neutralize"@,
        "daily"@,
    ]
}

/// The tags of every comparable factor.
pub fn tags() -> (r: Vec<String>)
    ensures
        strings_view(r@) == comparable_tags(),
{
    let items: [&str; 10] = [
        "HAZQ",
        "cs_network",
        "fundamental",
        "financial",
        "pit",
        "valuation",
        "comparable_company",
        "size_neutralize",
        "sector_neutralize",
        "daily",
    ];
    assert(strs_view(items@) =~= comparable_tags());
    owned_strings(&items)
}

/// Income statement columns read.
pub open spec fn income_columns() -> Seq<Seq<char>> {
    seq!["revenue"@, "n_income"@, "n_income_attr_p"@, "income_tax"@, "total_profit"@, "int_exp"@, "rd_exp"@]
}

/// Cash-flow statement columns read.
pub open spec fn cashflow_columns() -> Seq<Seq<char>> {
    seq!["n_cashflow_act"@, "n_cashflow_inv_act"@, "n_cash_flows_fnc_act"@]
}

/// Balance sheet columns read.
pub open spec fn balance_columns() -> Seq<Seq<char>> {
    seq![
        "total_assets"@,
        "total_liab"@,
        "money_cap"@,
        "total_hldr_eqy_exc_min_int"@,
        "fix_assets"@,
        "accounts_receiv"@,
        "inventories"@,
        "st_borr"@,
        "non_cur_liab_due_1y"@,
        "lt_borr"@,
        "bond_payable"@,
    ]
}

/// Dividend columns read by the dividend-yield base.
pub open spec fn dividend_columns() -> Seq<Seq<char>> {
    seq!["ts_code"@, "ann_date"@, "div_proc"@, "cash_div_tax"@, "ex_date"@, "base_share"@]
}

/// Whether `base` reads the trailing PE: EP and its percentile.
pub open spec fn reads_pe_ttm(base: HazqComparableBase) -> bool {
    base == HazqComparableBase::Ep || base == HazqComparableBase::EpPercentile
}

/// Daily-basic columns `output` reads: total market value, and the
/// trailing PE for the EP bases.
pub open spec fn daily_basic_columns(output: HazqComparableValueOutput) -> Seq<Seq<char>> {
    if reads_pe_ttm(output.base) {
        seq!["total_mv"@, "pe_ttm"@]
    } else {
        seq!["total_mv"@]
    }
}

/// The data every comparable factor reads.
pub open spec fn common_requests(output: HazqComparableValueOutput) -> Seq<DataRequestView> {
    seq![
        plain_request(DatasetId::StockDailyBasic, daily_basic_columns(output)),
        quarters_request(DatasetId::StockIncome, income_columns(), FINANCIAL_QUARTERS),
        quarters_request(DatasetId::StockBalanceSheet, balance_columns(), FINANCIAL_QUARTERS),
        quarters_request(DatasetId::StockCashFlow, cashflow_columns(), FINANCIAL_QUARTERS),
        plain_request(DatasetId::StockBarraDaily, seq!["SIZE"@]),
        plain_request(DatasetId::StockSwClassification, seq!["l1_code"@]),
    ]
}

/// Consensus columns `output` reads: two-year rolling growth for the gap
/// components, rolling PE for the forward EP base.
pub open spec fn consensus_columns(output: HazqComparableValueOutput) -> Seq<Seq<char>> {
    (if is_gap_component(output.component) {
        seq!["con_npcgrate_2y_roll"@]
    } else {
        Seq::empty()
    }) + (if output.base == HazqComparableBase::EpFttm {
        seq!["con_pe_roll"@]
    } else {
        Seq::empty()
    })
}

/// The data `output` reads: the common requests, dividends for the
/// dividend-yield base, and consensus columns when it reads any.
pub open spec fn output_requests(output: HazqComparableValueOutput) -> Seq<DataRequestView> {
    let with_dividend = if output.base == HazqComparableBase::Dp {
        common_requests(output).push(plain_request(DatasetId::StockDividend, dividend_columns()))
    } else {
        common_requests(output)
    };
    if consensus_columns(output).len() > 0 {
        with_dividend.push(plain_request(DatasetId::StockConsensus, consensus_columns(output)))
    } else {
        with_dividend
    }
}

/// The data every comparable factor reads.
pub fn common_dependencies(output: HazqComparableValueOutput) -> (r: Vec<DataRequest>)
    ensures
        r@.map_values(|d: DataRequest| d@) == common_requests(output),
{
    let mut daily_basic: Vec<&str> = Vec::new();
    daily_basic.push(TOTAL_MV_COLUMN);
    match output.base {
        HazqComparableBase::Ep | HazqComparableBase::EpPercentile => {
            daily_basic.push(PE_TTM_COLUMN);
        },
        _ => {},
    }
    assert(strs_view(daily_basic@) =~= daily_basic_columns(output));
    let income: [&str; 7] = [
        "revenue",
        "n_income",
        "n_income_attr_p",
        "income_tax",
        "total_profit",
        "int_exp",
        "rd_exp",
    ];
    let balance: [&str; 11] = [
        "total_assets",
        "total_liab",
        "money_cap",
        "total_hldr_eqy_exc_min_int",
        "fix_assets",
        "accounts_receiv",
        "inventories",
        "st_borr",
        "non_cur_liab_due_1y",
        "lt_borr",
        "bond_payable",
    ];
    let cashflow: [&str; 3] = ["n_cashflow_act", "n_cashflow_inv_act", "n_cash_flows_fnc_act"];
    let size: [&str; 1] = ["SIZE"];
    let sector: [&str; 1] = ["l1_code"];
    assert(strs_view(income@) =~= income_columns());
    assert(strs_view(balance@) =~= balance_columns());
    assert(strs_view(cashflow@) =~= cashflow_columns());
    assert(strs_view(size@) =~= seq!["SIZE"@]);
    assert(strs_view(sector@) =~= seq!["l1_code"@]);
    let mut out: Vec<DataRequest> = Vec::new();
    out.push(DataRequest::new(DatasetId::StockDailyBasic, daily_basic.as_slice()));
    out.push(DataRequest::financial_quarters(DatasetId::StockIncome, &income, FINANCIAL_QUARTERS));
    out.push(DataRequest::financial_quarters(DatasetId::StockBalanceSheet, &balance, FINANCIAL_QUARTERS));
    out.push(DataRequest::financial_quarters(DatasetId::StockCashFlow, &cashflow, FINANCIAL_QUARTERS));
    out.push(DataRequest::new(DatasetId::StockBarraDaily, &size));
    out.push(DataRequest::new(DatasetId::StockSwClassification, &sector));
    assert(out@.map_values(|d: DataRequest| d@) =~= common_requests(output));
    out
}

/// The dividend columns the dividend-yield base reads.
pub fn dividend_dependency() -> (r: DataRequest)
    ensures
        r@ == plain_request(DatasetId::StockDividend, dividend_columns()),
{
    let columns: [&str; 6] = ["ts_code", "ann_date", "div_proc", "cash_div_tax", "ex_date", "base_share"];
    assert(strs_view(columns@) =~= dividend_columns());
    DataRequest::new(DatasetId::StockDividend, &columns)
}

/// The data `output` reads.
pub fn dependencies_for_output(output: HazqComparableValueOutput) -> (r: Vec<DataRequest>)
    ensures
        r@.map_values(|d: DataRequest| d@) == output_requests(output),
{
    let mut dependencies = common_dependencies(output);
    let ghost common = dependencies@;
    if output.base == HazqComparableBase::Dp {
        dependencies.push(dividend_dependency());
        assert(dependencies@.map_values(|d: DataRequest| d@) =~= common.map_values(|d: DataRequest| d@).push(
            plain_request(DatasetId::StockDividend, dividend_columns()),
        ));
    }
    let ghost with_dividend = dependencies@;
    let mut consensus: Vec<&str> = Vec::new();
    match output.component {
        HazqComparableComponent::GapAvg | HazqComparableComponent::GapMmm => {
            consensus.push(CONSENSUS_GROWTH_COLUMN);
        },
        _ => {},
    }
    if output.base == HazqComparableBase::EpFttm {
        consensus.push(CONSENSUS_PE_ROLL_COLUMN);
    }
    assert(strs_view(consensus@) =~= consensus_columns(output));
    if consensus.len() > 0 {
        dependencies.push(DataRequest::new(DatasetId::StockConsensus, consensus.as_slice()));
        assert(dependencies@.map_values(|d: DataRequest| d@) =~= with_dividend.map_values(|d: DataRequest| d@).push(
            plain_request(DatasetId::StockConsensus, consensus_columns(output)),
        ));
    }
    dependencies
}

/// The published definition of `output`.
pub open spec fn comparable_factor_view(output: HazqComparableValueOutput) -> FactorSpecView {
    FactorSpecView {
        id: output_id(output),
        aliases: seq![
            "HAZQ Comparable "@ + base_alias(output.base) + " "@ + component_alias(output.component),
            base_alias(output.base) + "_"@ + component_alias(output.component),
        ],
        name: output_id(output),
        asset_class: AssetClass::Stock,
        frequency: Frequency::Daily,
        version: VERSION@,
        tags: comparable_tags(),
        description: "HAZQ comparable-company value factor "@ + base_alias(output.base) + " "@
            + component_alias(output.component)
            + ". It builds a PIT financial cosine-similarity network, uses peers with similarity above 0.9, excludes BJ stocks, and neutralizes the output by SW level-1 industry and Barra SIZE."@,
        dependencies: output_requests(output),
        intraday_raw_dependencies: Seq::empty(),
        lookback: LOOKBACK,
    }
}

/// The published definition of `output`.
pub fn spec(output: HazqComparableValueOutput) -> (r: FactorSpec)
    ensures
        r@ == comparable_factor_view(output),
{
    let id = output.id();
    let base_alias = output.base.alias();
    let component_alias = output.component.alias();
    let mut aliases: Vec<String> = Vec::new();
    aliases.push("HAZQ Comparable ".to_owned().concat(base_alias).concat(" ").concat(component_alias));
    aliases.push(base_alias.to_owned().concat("_").concat(component_alias));
    let description = "HAZQ comparable-company value factor ".to_owned().concat(base_alias).concat(" ").concat(
        component_alias,
    ).concat(
        ". It builds a PIT financial cosine-similarity network, uses peers with similarity above 0.9, excludes BJ stocks, and neutralizes the output by SW level-1 industry and Barra SIZE.",
    );
    let r = FactorSpec {
        id: id.clone(),
        aliases,
        name: id,
        asset_class: AssetClass::Stock,
        frequency: Frequency::Daily,
        version: VERSION.to_owned(),
        tags: tags(),
        description,
        dependencies: dependencies_for_output(output),
        intraday_raw_dependencies: Vec::new(),
        lookback: Lookback { trading_days: LOOKBACK },
    };
    assert(strings_view(r.aliases@) =~= comparable_factor_view(output).aliases);
    assert(r.intraday_raw_dependencies@.map_values(|q: IntradayDailyRawRequest| q@) =~= Seq::empty());
    r
}

/// The positions of the instruments in `codes` that are not listed on the
/// Beijing exchange, in order.
pub open spec fn non_bj_positions(codes: Seq<Seq<char>>) -> Seq<int> {
    Seq::new(codes.len(), |i: int| i).filter(|i: int| !spec_is_bj_stock(codes[i]))
}

/// Whether `panel` is `source` without its Beijing-listed instruments: the
/// same dates, the kept instruments in order, each kept cell's presence
/// flag carried over, and the source's target dates among its dates.
pub open spec fn is_non_bj_restriction(panel: DailyPanel, source: DailyPanel) -> bool {
    let keep = non_bj_positions(source.instruments_view());
    let m = source.instruments_view().len();
    &&& panel.dates_view() == source.dates_view()
    &&& panel.instruments_view() == keep.map_values(|i: int| source.instruments_view()[i])
    &&& panel.present_view().len() == source.dates_view().len() * keep.len()
    &&& forall|d: int, j: int|
        0 <= d < source.dates_view().len() && 0 <= j < keep.len() ==> panel.present_view()[#[trigger] grid_offset(d, keep.len() as int, j)]
            == source.present_view()[d * m + keep[j]]
    &&& panel.target_dates_view() == source.dates_view().filter(
        |x: i32| source.target_dates_view().contains(x),
    )
}

/// The offset of row `row`, column `col` in a row-major grid `width` wide.
pub open spec fn grid_offset(row: int, width: int, col: int) -> int {
    row * width + col
}

/// Cells of a date-major grid before `(d, j)` come before it.
proof fn lemma_cell_order(d: int, j: int, dd: int, jj: int, k: int)
    requires
        0 <= jj < k,
        0 <= j <= k,
        0 <= dd,
        dd < d || (dd == d && jj < j),
    ensures
        dd * k + jj < d * k + j,
        0 <= dd * k + jj,
{
    assert(dd * k + jj < d * k + j && 0 <= dd * k + jj) by (nonlinear_arith)
        requires
            0 <= jj < k,
            0 <= j <= k,
            0 <= dd,
            dd < d || (dd == d && jj < j),
    ;
}

/// `source` without its Beijing-listed instruments.
pub fn non_bj_panel(source: &DailyPanel) -> (r: Result<DailyPanel, PanelError>)
    ensures
        r matches Ok(p) && is_non_bj_restriction(p, *source),
{
    let codes = source.instruments();
    let ghost codes_view = source.instruments_view();
    let ghost pred = |i: int| !spec_is_bj_stock(codes_view[i]);
    let m = codes.len();
    let mut keep: Vec<usize> = Vec::new();
    let mut instruments: Vec<String> = Vec::new();
    let mut i: usize = 0;
    while i < m
        invariant
            i <= m,
            m == codes@.len(),
            codes@.map_values(|s: String| s@) == codes_view,
            pred == (|i: int| !spec_is_bj_stock(codes_view[i])),
            keep@.map_values(|x: usize| x as int) == Seq::new(i as nat, |t: int| t).filter(pred),
            instruments@.map_values(|s: String| s@) == keep@.map_values(|x: usize| codes_view[x as int]),
            keep@.len() <= i,
            forall|t: int| 0 <= t < keep@.len() ==> #[trigger] keep@[t] < i,
        decreases m - i,
    {
        let ghost before_keep = keep@;
        let ghost before_instruments = instruments@;
        proof {
            assert(Seq::new((i + 1) as nat, |t: int| t) =~= Seq::new(i as nat, |t: int| t).push(i as int));
            Seq::new(i as nat, |t: int| t).lemma_filter_push(i as int, pred);
            assert(codes@[i as int]@ == codes_view[i as int]);
        }
        if !is_bj_stock(codes[i].as_str()) {
            keep.push(i);
            instruments.push(codes[i].clone());
            proof {
                assert(keep@.map_values(|x: usize| x as int) =~= before_keep.map_values(|x: usize| x as int).push(
                    i as int,
                ));
                assert(instruments@.map_values(|s: String| s@) =~= before_instruments.map_values(|s: String| s@).push(
                    codes_view[i as int],
                ));
                assert(keep@.map_values(|x: usize| codes_view[x as int]) =~= before_keep.map_values(
                    |x: usize| codes_view[x as int],
                ).push(codes_view[i as int]));
            }
        }
        i = i + 1;
    }
    let ghost keep_view = non_bj_positions(codes_view);
    proof {
        assert(Seq::new(m as nat, |t: int| t) =~= Seq::new(codes_view.len(), |t: int| t));
        assert(keep@.map_values(|x: usize| x as int) == keep_view);
        assert(keep@.map_values(|x: usize| codes_view[x as int]) =~= keep_view.map_values(
            |t: int| codes_view[t],
        ));
    }
    let dates = source.dates();
    let n = dates.len();
    let k = keep.len();
    let total = source.shape_len();
    proof {
        assert(n * k <= n * m) by (nonlinear_arith)
            requires
                k <= m,
        ;
    }
    let mut present: Vec<bool> = Vec::new();
    let mut d: usize = 0;
    while d < n
        invariant
            d <= n,
            n == source.dates_view().len(),
            m == codes_view.len(),
            k == keep@.len(),
            k <= m,
            total == n * m,
            total == source.present_view().len(),
            forall|t: int| 0 <= t < keep@.len() ==> #[trigger] keep@[t] < m,
            present@.len() == d * k,
            forall|dd: int, jj: int|
                0 <= dd < d && 0 <= jj < k ==> present@[#[trigger] grid_offset(dd, k as int, jj)] == source.present_view()[dd * m
                    + keep@[jj]],
        decreases n - d,
    {
        let mut j: usize = 0;
        while j < k
            invariant
                d < n,
                j <= k,
                n == source.dates_view().len(),
                m == codes_view.len(),
                k == keep@.len(),
                k <= m,
                total == n * m,
                total == source.present_view().len(),
                forall|t: int| 0 <= t < keep@.len() ==> #[trigger] keep@[t] < m,
                present@.len() == d * k + j,
                forall|dd: int, jj: int|
                    0 <= jj < k && 0 <= dd && (dd < d || (dd == d && jj < j)) ==> present@[#[trigger] grid_offset(dd, k as int, jj)]
                        == source.present_view()[dd * m + keep@[jj]],
            decreases k - j,
        {
            let pos = keep[j];
            proof {
                assert(d * m + pos < n * m) by (nonlinear_arith)
                    requires
                        d < n,
                        pos < m,
                ;
            }
            let ghost before = present@;
            let flag = source.is_present_offset(d * m + pos);
            present.push(flag);
            proof {
                assert forall|dd: int, jj: int|
                    0 <= jj < k && 0 <= dd && (dd < d || (dd == d && jj < j + 1)) implies present@[#[trigger] grid_offset(dd, k as int, jj)]
                        == source.present_view()[dd * m + keep@[jj]] by {
                    if dd == d && jj == j {
                        assert(grid_offset(dd, k as int, jj) == before.len());
                    } else {
                        lemma_cell_order(d as int, j as int, dd, jj, k as int);
                        assert(present@[grid_offset(dd, k as int, jj)] == before[grid_offset(dd, k as int, jj)]);
                    }
                }
            }
            j = j + 1;
        }
        proof {
            assert forall|dd: int, jj: int|
                0 <= dd < d + 1 && 0 <= jj < k implies present@[#[trigger] grid_offset(dd, k as int, jj)] == source.present_view()[dd * m
                    + keep@[jj]] by {
                assert(0 <= jj < k && 0 <= dd && (dd < d || (dd == d && jj < k)));
            }
            assert((d + 1) * k == d * k + k) by (nonlinear_arith);
        }
        d = d + 1;
    }
    let ghost dates_view = source.dates_view();
    let ghost target_view = source.target_dates_view();
    let ghost is_target = |x: i32| target_view.contains(x);
    let mut targets: Vec<i32> = Vec::new();
    let mut all_dates: Vec<i32> = Vec::new();
    let mut t: usize = 0;
    while t < n
        invariant
            t <= n,
            n == dates@.len(),
            dates@ == dates_view,
            dates_view == source.dates_view(),
            target_view == source.target_dates_view(),
            is_target == (|x: i32| target_view.contains(x)),
            all_dates@ == dates_view.subrange(0, t as int),
            targets@ == dates_view.subrange(0, t as int).filter(is_target),
        decreases n - t,
    {
        let date = dates[t];
        proof {
            assert(dates_view.subrange(0, t + 1) =~= dates_view.subrange(0, t as int).push(date));
            dates_view.subrange(0, t as int).lemma_filter_push(date, is_target);
        }
        if source.is_target_date(date) {
            targets.push(date);
        }
        all_dates.push(date);
        t = t + 1;
    }
    proof {
        assert(dates_view.subrange(0, n as int) =~= dates_view);
        assert(keep@.map_values(|x: usize| x as int).len() == keep@.len());
        assert forall|dd: int, jj: int|
            0 <= dd < n && 0 <= jj < keep_view.len() implies present@[#[trigger] grid_offset(dd, keep_view.len() as int, jj)]
                == source.present_view()[dd * m + keep_view[jj]] by {
            assert(keep_view[jj] == keep@[jj] as int);
            assert(present@[grid_offset(dd, k as int, jj)] == source.present_view()[dd * m + keep@[jj]]);
        }
    }
    let r = DailyPanel::from_index(all_dates, instruments, targets.as_slice(), present);
    proof {
        assert(instruments@.map_values(|s: String| s@) =~= keep_view.map_values(|i: int| codes_view[i]));
    }
    r
}

/// Everything a stock's comparable snapshot on `trade` depends on, given the
/// latest quarter `latest` the income reader sees: income and cash-flow
/// statements of the four quarters back from it, income statements of the
/// four quarters back from a year earlier, and the balance sheets of the
/// latest quarter and of the quarter before it.
pub open spec fn snapshot_marker_content(
    income: FinancialPitReader,
    balance: FinancialPitReader,
    cashflow: FinancialPitReader,
    code: Seq<char>,
    trade: i32,
    latest: int,
) -> MarkerContent {
    let inc = FinancialStatementDataset::Income;
    let cf = FinancialStatementDataset::CashFlow;
    let bal = FinancialStatementDataset::BalanceSheet;
    let m1 = with_quarters((Seq::empty(), Seq::empty()), inc, income.rows(), income.preference_view(), code, trade, Some(latest), 4);
    let m2 = with_quarters(m1, cf, cashflow.rows(), cashflow.preference_view(), code, trade, Some(latest), 4);
    let m3 = with_quarters(
        m2,
        inc,
        income.rows(),
        income.preference_view(),
        code,
        trade,
        Some(spec_same_quarter_previous_year(latest)),
        4,
    );
    let m4 = with_record(m3, seen_marker(bal, balance.rows(), balance.preference_view(), code, trade, latest as i32));
    match spec_previous_quarter_end_date(latest) {
        Some(p) => with_record(m4, seen_marker(bal, balance.rows(), balance.preference_view(), code, trade, p as i32)),
        None => m4,
    }
}

/// The marker of the inputs of a stock's comparable snapshot on
/// `trade_date`; none when the income reader sees no quarter, or when the
/// inputs it names have no version seen yet.
pub fn hazq_snapshot_marker(
    ts_code: &str,
    trade_date: i32,
    income: &FinancialPitReader<'_>,
    balance: &FinancialPitReader<'_>,
    cashflow: &FinancialPitReader<'_>,
) -> (r: Option<FinancialEventMarker>)
    requires
        latest_end(income.rows(), income.preference_view(), ts_code@, trade_date, false) matches Some(e) ==> e
            >= -2_147_473_648,
    ensures
        match latest_end(income.rows(), income.preference_view(), ts_code@, trade_date, false) {
            None => r is None,
            Some(latest) => {
                let content = snapshot_marker_content(*income, *balance, *cashflow, ts_code@, trade_date, latest as int);
                &&& (r is None <==> (content.0.len() == 0 && content.1.len() == 0))
                &&& (r matches Some(m) ==> canonical(m@) && same_members(m@.0, content.0) && same_members(
                    m@.1,
                    content.1,
                ))
            },
        },
{
    let latest = match income.latest_quarter_end_date(ts_code, trade_date) {
        Some(e) => e,
        None => {
            return None;
        },
    };
    let previous_end = previous_quarter_end_date(latest);
    let yoy_end = same_quarter_previous_year(latest);
    let mut builder = FinancialEventMarkerBuilder::new();
    assert(builder@ =~= (Seq::<FinancialRecordMarker>::empty(), Seq::<(Seq<char>, i64)>::empty()));
    builder.include_reader_ttm_for_end_date(FinancialStatementDataset::Income, income, ts_code, trade_date, latest);
    builder.include_reader_ttm_for_end_date(FinancialStatementDataset::CashFlow, cashflow, ts_code, trade_date, latest);
    builder.include_reader_ttm_for_end_date(FinancialStatementDataset::Income, income, ts_code, trade_date, yoy_end);
    builder.include_reader_record_for_end_date(
        FinancialStatementDataset::BalanceSheet,
        balance,
        ts_code,
        trade_date,
        latest,
    );
    if let Some(end_date) = previous_end {
        builder.include_reader_record_for_end_date(
            FinancialStatementDataset::BalanceSheet,
            balance,
            ts_code,
            trade_date,
            end_date,
        );
    }
    builder.build()
}

/// The component whose id is `u`, read from its leading characters and
/// length.
spec fn component_of_id(u: Seq<char>) -> HazqComparableComponent {
    if u[0] == 'm' {
        if u[1] == 'e' {
            HazqComparableComponent::Med
        } else if u[1] == 'a' {
            HazqComparableComponent::Max
        } else {
            HazqComparableComponent::Min
        }
    } else if u[0] == 'a' {
        HazqComparableComponent::Avg
    } else if u[0] == 'w' {
        if u[1] == 'e' {
            HazqComparableComponent::Weighted
        } else if u.len() == 3 {
            HazqComparableComponent::Wgt
        } else {
            HazqComparableComponent::Wgt2
        }
    } else if u[0] == 'd' {
        if u.len() == 3 {
            HazqComparableComponent::Dst
        } else {
            HazqComparableComponent::DstZscore
        }
    } else if u[0] == 'p' {
        if u.len() == 3 {
            HazqComparableComponent::Prm
        } else {
            HazqComparableComponent::PrmZscore
        }
    } else if u[4] == 'a' {
        HazqComparableComponent::GapAvg
    } else {
        HazqComparableComponent::GapMmm
    }
}

/// The base of a text that starts with a base id and an underscore, read
/// from its leading characters.
spec fn base_of_id_prefix(t: Seq<char>) -> HazqComparableBase {
    if t[0] == 'b' {
        HazqComparableBase::Bp
    } else if t[0] == 'd' {
        HazqComparableBase::Dp
    } else if t[0] == 'o' {
        HazqComparableBase::Ocfp
    } else if t[0] == 's' {
        HazqComparableBase::Sales2Ev
    } else if t[1] == 'b' {
        HazqComparableBase::Ebit2Ev
    } else if t[3] == 'q' && t[4] == '_' {
        HazqComparableBase::EpQ
    } else if t[3] == 'p' && t[4] == 'e' {
        HazqComparableBase::EpPercentile
    } else if t[3] == 'f' {
        HazqComparableBase::EpFttm
    } else {
        HazqComparableBase::Ep
    }
}

proof fn lemma_component_of_id(c: HazqComparableComponent)
    ensures
        component_of_id(component_id(c)) == c,
        component_id(c).len() >= 3,
        component_id(c)[0] != 'q' && component_id(c)[0] != 'f',
        component_id(c)[0] == 'p' ==> component_id(c)[1] == 'r',
{
    reveal_strlit("med");
    reveal_strlit("avg");
    reveal_strlit("weighted");
    reveal_strlit("max");
    reveal_strlit("min");
    reveal_strlit("wgt");
    reveal_strlit("wgt2");
    reveal_strlit("dst");
    reveal_strlit("prm");
    reveal_strlit("dst_zscore");
    reveal_strlit("prm_zscore");
    reveal_strlit("gap_avg");
    reveal_strlit("gap_mmm");
}

proof fn lemma_base_of_id_prefix(b: HazqComparableBase, c: HazqComparableComponent)
    ensures
        base_of_id_prefix(base_id(b) + "_"@ + component_id(c)) == b,
{
    reveal_strlit("bp");
    reveal_strlit("dp");
    reveal_strlit("ebit2ev");
    reveal_strlit("ep");
    reveal_strlit("ep_q");
    reveal_strlit("ocfp");
    reveal_strlit("sales2ev");
    reveal_strlit("ep_percentile");
    reveal_strlit("ep_fttm");
    reveal_strlit("_");
    lemma_component_of_id(c);
    let t = base_id(b) + "_"@ + component_id(c);
    let k = base_id(b).len() as int;
    assert(t[k] == '_');
    assert(t[k + 1] == component_id(c)[0]);
    assert(t[k + 2] == component_id(c)[1]);
    assert(t[0] == base_id(b)[0]);
    assert(t[1] == base_id(b)[1]);
    if k > 3 {
        assert(t[3] == base_id(b)[3]);
    }
    if k > 4 {
        assert(t[4] == base_id(b)[4]);
    }
}

/// Distinct comparable outputs have distinct factor ids: the id
/// `comp_<base>_<component>` names exactly one output.
pub proof fn lemma_output_id_injective(o1: HazqComparableValueOutput, o2: HazqComparableValueOutput)
    requires
        output_id(o1) == output_id(o2),
    ensures
        o1 == o2,
{
    reveal_strlit("comp_");
    reveal_strlit("_");
    let s = output_id(o1);
    let t1 = base_id(o1.base) + "_"@ + component_id(o1.component);
    let t2 = base_id(o2.base) + "_"@ + component_id(o2.component);
    assert(s.subrange(5, s.len() as int) =~= t1);
    assert(output_id(o2).subrange(5, s.len() as int) =~= t2);
    lemma_base_of_id_prefix(o1.base, o1.component);
    lemma_base_of_id_prefix(o2.base, o2.component);
    assert(o1.base == o2.base);
    let p = base_id(o1.base).len() + 6int;
    assert(s.subrange(p, s.len() as int) =~= component_id(o1.component));
    assert(output_id(o2).subrange(p, s.len() as int) =~= component_id(o2.component));
    lemma_component_of_id(o1.component);
    lemma_component_of_id(o2.component);
}

/// The ids of the registered outputs are pairwise distinct.
pub proof fn lemma_all_output_ids_distinct(i: int, j: int)
    requires
        0 <= i < j < all_outputs_view().len(),
    ensures
        output_id(all_outputs_view()[i]) != output_id(all_outputs_view()[j]),
{
    let o = all_outputs_view()[j];
    lemma_all_outputs_register_each_pair_once(o, i);
    lemma_all_outputs_register_each_pair_once(o, j);
    if output_id(all_outputs_view()[i]) == output_id(o) {
        lemma_output_id_injective(all_outputs_view()[i], o);
    }
}

} // verus!
