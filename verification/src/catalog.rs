//! The engine's catalogue types: asset classes, datasets, data requests,
//! factor specifications, intraday raw specifications and evaluation
//! contexts, with views that contracts speak of.
use vstd::prelude::*;

verus! {

/// Asset class a factor or dataset belongs to.
#[derive(Clone, Copy, Debug, PartialEq, Eq, Structural, Hash, PartialOrd, Ord)]
pub enum AssetClass {
    Stock,
    Index,
}

/// Sampling frequency of a factor.
#[derive(Clone, Copy, Debug, PartialEq, Eq, Structural, Hash, PartialOrd, Ord)]
pub enum Frequency {
    Daily,
    Minute,
}

/// Datasets of the local data lake.
#[derive(Clone, Copy, Debug, PartialEq, Eq, Structural, Hash, PartialOrd, Ord)]
pub enum DatasetId {
    StockBasic,
    StockDailyPv,
    StockDailyBasic,
    StockDailyLimit,
    StockAdjFactor,
    StockBarraDaily,
    StockSwClassification,
    StockIncome,
    StockBalanceSheet,
    StockCashFlow,
    StockDividend,
    StockConsensus,
    StockMinute1m,
    IndexDaily,
}

/// The character sequences of a list of owned strings.
pub open spec fn strings_view(v: Seq<String>) -> Seq<Seq<char>> {
    v.map_values(|s: String| s@)
}

/// The character sequences of a list of string slices.
pub open spec fn strs_view(v: Seq<&str>) -> Seq<Seq<char>> {
    v.map_values(|s: &str| s@)
}

/// Owned copies of `items`, in order.
pub fn owned_strings(items: &[&str]) -> (r: Vec<String>)
    ensures
        strings_view(r@) =~= strs_view(items@),
{
    let mut out: Vec<String> = Vec::new();
    let mut i: usize = 0;
    while i < items.len()
        invariant
            i <= items@.len(),
            strings_view(out@) =~= strs_view(items@.subrange(0, i as int)),
        decreases items@.len() - i,
    {
        let ghost old_out = out@;
        out.push(items[i].to_owned());
        proof {
            assert(items@.subrange(0, i + 1) =~= items@.subrange(0, i as int).push(items@[i as int]));
            assert(strings_view(out@) =~= strings_view(old_out).push(items@[i as int]@));
            assert(strs_view(items@.subrange(0, i + 1)) =~= strs_view(items@.subrange(0, i as int)).push(items@[i as int]@));
        }
        i = i + 1;
    }
    proof {
        assert(items@.subrange(0, items@.len() as int) =~= items@);
    }
    out
}

/// Owned copies of `items`.
pub fn copy_strings(items: &[String]) -> (r: Vec<String>)
    ensures
        strings_view(r@) == strings_view(items@),
{
    let mut out: Vec<String> = Vec::new();
    let mut i: usize = 0;
    while i < items.len()
        invariant
            i <= items@.len(),
            strings_view(out@) =~= strings_view(items@.subrange(0, i as int)),
        decreases items@.len() - i,
    {
        let ghost before = out@;
        out.push(items[i].clone());
        proof {
            assert(items@.subrange(0, i + 1) =~= items@.subrange(0, i as int).push(items@[i as int]));
            assert(strings_view(out@) =~= strings_view(before).push(items@[i as int]@));
        }
        i = i + 1;
    }
    proof {
        assert(items@.subrange(0, items@.len() as int) =~= items@);
    }
    out
}

/// Character-wise string equality.
pub fn str_eq(a: &str, b: &str) -> (r: bool)
    ensures
        r == (a@ == b@),
{
    let x: String = a.to_owned();
    let y: String = b.to_owned();
    x == y
}

/// Whether `needle` occurs in `items`.
pub fn contains_string(items: &[String], needle: &str) -> (r: bool)
    ensures
        r == strings_view(items@).contains(needle@),
{
    let mut i: usize = 0;
    while i < items.len()
        invariant
            i <= items@.len(),
            forall|j: int| 0 <= j < i ==> items@[j]@ != needle@,
        decreases items@.len() - i,
    {
        if str_eq(items[i].as_str(), needle) {
            proof {
                assert(strings_view(items@)[i as int] == needle@);
            }
            return true;
        }
        i = i + 1;
    }
    proof {
        if strings_view(items@).contains(needle@) {
            let k = choose|k: int| 0 <= k < strings_view(items@).len() && strings_view(items@)[k] == needle@;
            assert(items@[k]@ == needle@);
        }
    }
    false
}

/// Abstract content of a [`DataRequest`].
pub struct DataRequestView {
    pub dataset: DatasetId,
    pub columns: Seq<Seq<char>>,
    pub index_code: Option<Seq<char>>,
    pub financial_quarters: Option<usize>,
    pub explicit_dates: Option<Seq<i32>>,
}

/// A dataset with the columns a factor reads from it, optionally limited to
/// an index code, a number of financial quarters or explicit load dates.
#[derive(Debug)]
pub struct DataRequest {
    pub dataset: DatasetId,
    pub columns: Vec<String>,
    pub index_code: Option<String>,
    pub financial_quarters: Option<usize>,
    pub explicit_dates: Option<Vec<i32>>,
}

impl View for DataRequest {
    type V = DataRequestView;

    open spec fn view(&self) -> DataRequestView {
        DataRequestView {
            dataset: self.dataset,
            columns: strings_view(self.columns@),
            index_code: match self.index_code {
                Some(code) => Some(code@),
                None => None,
            },
            financial_quarters: self.financial_quarters,
            explicit_dates: match self.explicit_dates {
                Some(dates) => Some(dates@),
                None => None,
            },
        }
    }
}

/// The request for `columns` of `dataset` with no further restriction.
pub open spec fn plain_request(dataset: DatasetId, columns: Seq<Seq<char>>) -> DataRequestView {
    DataRequestView {
        dataset,
        columns,
        index_code: None,
        financial_quarters: None,
        explicit_dates: None,
    }
}

/// The request for `columns` of the last `quarters` financial quarters of `dataset`.
pub open spec fn quarters_request(
    dataset: DatasetId,
    columns: Seq<Seq<char>>,
    quarters: usize,
) -> DataRequestView {
    DataRequestView {
        dataset,
        columns,
        index_code: None,
        financial_quarters: Some(quarters),
        explicit_dates: None,
    }
}

/// The request for `columns` of the daily bars of index `code`.
pub open spec fn index_request(code: Seq<char>, columns: Seq<Seq<char>>) -> DataRequestView {
    DataRequestView {
        dataset: DatasetId::IndexDaily,
        columns,
        index_code: Some(code),
        financial_quarters: None,
        explicit_dates: None,
    }
}

impl DataRequest {
    /// A request for `columns` of `dataset`.
    pub fn new(dataset: DatasetId, columns: &[&str]) -> (r: Self)
        ensures
            r@ == plain_request(dataset, strs_view(columns@)),
    {
        DataRequest {
            dataset,
            columns: owned_strings(columns),
            index_code: None,
            financial_quarters: None,
            explicit_dates: None,
        }
    }

    /// A request for `columns` of the daily bars of index `code`.
    pub fn index_daily(code: &str, columns: &[&str]) -> (r: Self)
        ensures
            r@ == index_request(code@, strs_view(columns@)),
    {
        DataRequest {
            dataset: DatasetId::IndexDaily,
            columns: owned_strings(columns),
            index_code: Some(code.to_owned()),
            financial_quarters: None,
            explicit_dates: None,
        }
    }

    /// A request for `columns` of the latest `quarters` financial quarters.
    pub fn financial_quarters(dataset: DatasetId, columns: &[&str], quarters: usize) -> (r: Self)
        ensures
            r@ == quarters_request(dataset, strs_view(columns@), quarters),
    {
        DataRequest {
            dataset,
            columns: owned_strings(columns),
            index_code: None,
            financial_quarters: Some(quarters),
            explicit_dates: None,
        }
    }

    /// A request for `columns` of `dataset` on exactly the trade dates `dates`.
    pub fn explicit_dates(dataset: DatasetId, columns: &[&str], dates: Vec<i32>) -> (r: Self)
        ensures
            r@ == (DataRequestView {
                explicit_dates: Some(dates@),
                ..plain_request(dataset, strs_view(columns@))
            }),
    {
        DataRequest {
            dataset,
            columns: owned_strings(columns),
            index_code: None,
            financial_quarters: None,
            explicit_dates: Some(dates),
        }
    }

    /// The same request restricted to the trade dates `dates`.
    pub fn with_explicit_dates(self, dates: Vec<i32>) -> (r: Self)
        ensures
            r@ == (DataRequestView { explicit_dates: Some(dates@), ..self@ }),
    {
        DataRequest { explicit_dates: Some(dates), ..self }
    }

    /// The trade dates this request loads under `context`: its explicit dates
    /// when it has them, else the context's load dates.
    pub fn resolved_dates(&self, context: &FactorContext) -> (r: Vec<i32>)
        ensures
            r@ == match self.explicit_dates {
                Some(dates) => dates@,
                None => context.load_dates@,
            },
    {
        match &self.explicit_dates {
            Some(dates) => dates.clone(),
            None => context.load_dates.clone(),
        }
    }
}

/// How many trading days of history before the first target date a factor needs.
#[derive(Clone, Copy, Debug, PartialEq, Eq, Structural)]
pub struct Lookback {
    pub trading_days: usize,
}

/// Abstract content of an [`IntradayDailyRawRequest`].
pub struct IntradayDailyRawRequestView {
    pub raw_id: Seq<char>,
    pub lookback: usize,
}

/// A daily raw series aggregated from minute bars that a factor reads, with
/// the trading days of history it needs.
#[derive(Debug)]
pub struct IntradayDailyRawRequest {
    pub raw_id: String,
    pub lookback: usize,
}

impl View for IntradayDailyRawRequest {
    type V = IntradayDailyRawRequestView;

    open spec fn view(&self) -> IntradayDailyRawRequestView {
        IntradayDailyRawRequestView { raw_id: self.raw_id@, lookback: self.lookback }
    }
}

impl IntradayDailyRawRequest {
    /// A request for raw series `raw_id` with `lookback` days of history.
    pub fn new(raw_id: &str, lookback: usize) -> (r: Self)
        ensures
            r@ == (IntradayDailyRawRequestView { raw_id: raw_id@, lookback }),
    {
        IntradayDailyRawRequest { raw_id: raw_id.to_owned(), lookback }
    }
}

/// Abstract content of an [`IntradayDailyRawSpec`].
pub struct IntradayDailyRawSpecView {
    pub id: Seq<char>,
    pub asset_class: AssetClass,
    pub version: Seq<char>,
    pub dataset: DatasetId,
    pub columns: Seq<Seq<char>>,
    pub window_days: usize,
}

/// Definition of a daily raw series computed from minute bars.
#[derive(Clone, Debug)]
pub struct IntradayDailyRawSpec {
    pub id: String,
    pub asset_class: AssetClass,
    pub version: String,
    pub dataset: DatasetId,
    pub columns: Vec<String>,
    pub window_days: usize,
}

impl View for IntradayDailyRawSpec {
    type V = IntradayDailyRawSpecView;

    open spec fn view(&self) -> IntradayDailyRawSpecView {
        IntradayDailyRawSpecView {
            id: self.id@,
            asset_class: self.asset_class,
            version: self.version@,
            dataset: self.dataset,
            columns: strings_view(self.columns@),
            window_days: self.window_days,
        }
    }
}

/// The raw specification of a stock daily series computed from 1-minute bars.
pub open spec fn stock_minute_raw_view(
    raw_id: Seq<char>,
    version: Seq<char>,
    columns: Seq<Seq<char>>,
    window_days: usize,
) -> IntradayDailyRawSpecView {
    IntradayDailyRawSpecView {
        id: raw_id,
        asset_class: AssetClass::Stock,
        version,
        dataset: DatasetId::StockMinute1m,
        columns,
        window_days,
    }
}

/// Specification of a stock daily raw series computed from the 1-minute bar
/// columns `columns` over `window_days` days.
pub fn stock_minute_raw_spec(raw_id: &str, version: &str, columns: &[&str], window_days: usize) -> (r:
    IntradayDailyRawSpec)
    ensures
        r@ == stock_minute_raw_view(raw_id@, version@, strs_view(columns@), window_days),
{
    IntradayDailyRawSpec {
        id: raw_id.to_owned(),
        asset_class: AssetClass::Stock,
        version: version.to_owned(),
        dataset: DatasetId::StockMinute1m,
        columns: owned_strings(columns),
        window_days,
    }
}

/// Abstract content of a [`FactorSpec`].
pub struct FactorSpecView {
    pub id: Seq<char>,
    pub aliases: Seq<Seq<char>>,
    pub name: Seq<char>,
    pub asset_class: AssetClass,
    pub frequency: Frequency,
    pub version: Seq<char>,
    pub tags: Seq<Seq<char>>,
    pub description: Seq<char>,
    pub dependencies: Seq<DataRequestView>,
    pub intraday_raw_dependencies: Seq<IntradayDailyRawRequestView>,
    pub lookback: usize,
}

/// The published definition of a factor.
#[derive(Debug)]
pub struct FactorSpec {
    pub id: String,
    pub aliases: Vec<String>,
    pub name: String,
    pub asset_class: AssetClass,
    pub frequency: Frequency,
    pub version: String,
    pub tags: Vec<String>,
    pub description: String,
    pub dependencies: Vec<DataRequest>,
    pub intraday_raw_dependencies: Vec<IntradayDailyRawRequest>,
    pub lookback: Lookback,
}

impl View for FactorSpec {
    type V = FactorSpecView;

    open spec fn view(&self) -> FactorSpecView {
        FactorSpecView {
            id: self.id@,
            aliases: strings_view(self.aliases@),
            name: self.name@,
            asset_class: self.asset_class,
            frequency: self.frequency,
            version: self.version@,
            tags: strings_view(self.tags@),
            description: self.description@,
            dependencies: self.dependencies@.map_values(|r: DataRequest| r@),
            intraday_raw_dependencies: self.intraday_raw_dependencies@.map_values(
                |r: IntradayDailyRawRequest| r@,
            ),
            lookback: self.lookback.trading_days,
        }
    }
}

/// The date range and universe a factor is evaluated on.
#[derive(Clone, Debug)]
pub struct FactorContext {
    pub asset_class: AssetClass,
    pub frequency: Frequency,
    pub start_date: i32,
    pub end_date: i32,
    pub load_start_date: i32,
    pub load_dates: Vec<i32>,
    pub target_dates: Vec<i32>,
}

/// `context` narrowed to `target_dates`: its range runs from their first to
/// their last (the context's own bounds when there are none); what it loads
/// stays as it was.
pub fn multi_target_context(context: &FactorContext, target_dates: &[i32]) -> (r: FactorContext)
    ensures
        r.asset_class == context.asset_class,
        r.frequency == context.frequency,
        r.start_date == if target_dates@.len() > 0 {
            target_dates@[0]
        } else {
            context.start_date
        },
        r.end_date == if target_dates@.len() > 0 {
            target_dates@.last()
        } else {
            context.end_date
        },
        r.load_start_date == context.load_start_date,
        r.load_dates@ == context.load_dates@,
        r.target_dates@ == target_dates@,
{
    let start_date = if target_dates.len() > 0 {
        target_dates[0]
    } else {
        context.start_date
    };
    let end_date = if target_dates.len() > 0 {
        target_dates[target_dates.len() - 1]
    } else {
        context.end_date
    };
    let mut targets: Vec<i32> = Vec::new();
    let mut i: usize = 0;
    while i < target_dates.len()
        invariant
            i <= target_dates@.len(),
            targets@ == target_dates@.subrange(0, i as int),
        decreases target_dates@.len() - i,
    {
        targets.push(target_dates[i]);
        proof {
            assert(target_dates@.subrange(0, i + 1) =~= target_dates@.subrange(0, i as int).push(target_dates@[i as int]));
        }
        i = i + 1;
    }
    assert(target_dates@.subrange(0, target_dates@.len() as int) =~= target_dates@);
    FactorContext {
        asset_class: context.asset_class,
        frequency: context.frequency,
        start_date,
        end_date,
        load_start_date: context.load_start_date,
        load_dates: context.load_dates.clone(),
        target_dates: targets,
    }
}

/// How an intraday raw provider materialises its daily series.
#[derive(Clone, Copy, Debug, PartialEq, Eq, Structural)]
pub enum IntradayRawMaterializeMode {
    Batch,
    Stateful,
}

/// The raw ids of a family that a request names, in family order.
#[derive(Clone, Debug)]
pub struct RequestedRawIds {
    ids: Vec<String>,
}

impl View for RequestedRawIds {
    type V = Seq<Seq<char>>;

    closed spec fn view(&self) -> Seq<Seq<char>> {
        strings_view(self.ids@)
    }
}

/// The ids of `family` that occur in `requested`, in family order.
pub open spec fn requested_in_family(requested: Seq<Seq<char>>, family: Seq<Seq<char>>) -> Seq<
    Seq<char>,
> {
    family.filter(|id: Seq<char>| requested.contains(id))
}

impl RequestedRawIds {
    /// Keeps the ids of `family` that `raw_ids` names.
    pub fn new(raw_ids: &[String], family: &[&str]) -> (r: Self)
        ensures
            r@ == requested_in_family(strings_view(raw_ids@), strs_view(family@)),
    {
        let mut ids: Vec<String> = Vec::new();
        let mut i: usize = 0;
        while i < family.len()
            invariant
                i <= family@.len(),
                strings_view(ids@) == requested_in_family(
                    strings_view(raw_ids@),
                    strs_view(family@).subrange(0, i as int),
                ),
            decreases family@.len() - i,
        {
            let wanted = contains_string(raw_ids, family[i]);
            proof {
                let f = strs_view(family@);
                reveal(Seq::filter);
                assert(f.subrange(0, i + 1).drop_last() =~= f.subrange(0, i as int));
            }
            if wanted {
                ids.push(family[i].to_owned());
            }
            proof {
                assert(strings_view(ids@) =~= requested_in_family(
                    strings_view(raw_ids@),
                    strs_view(family@).subrange(0, i + 1),
                ));
            }
            i = i + 1;
        }
        proof {
            assert(strs_view(family@).subrange(0, family@.len() as int) =~= strs_view(family@));
        }
        RequestedRawIds { ids }
    }

    /// Whether `raw_id` is among the requested ids.
    pub fn contains(&self, raw_id: &str) -> (r: bool)
        ensures
            r == self@.contains(raw_id@),
    {
        contains_string(&self.ids, raw_id)
    }

    /// Whether no id of the family was requested.
    pub fn is_empty(&self) -> (r: bool)
        ensures
            r == (self@.len() == 0),
    {
        self.ids.len() == 0
    }
}

/// Barra size and SW level-1 sector, which neutralized daily factors read.
pub open spec fn size_sector_requests() -> Seq<DataRequestView> {
    seq![
        plain_request(DatasetId::StockBarraDaily, seq!["SIZE"@]),
        plain_request(DatasetId::StockSwClassification, seq!["l1_code"@]),
    ]
}

/// Requests for Barra size and SW level-1 sector.
pub fn size_sector_dependencies() -> (r: Vec<DataRequest>)
    ensures
        r@.map_values(|d: DataRequest| d@) == size_sector_requests(),
{
    let size: [&str; 1] = ["SIZE"];
    let sector: [&str; 1] = ["l1_code"];
    let a = DataRequest::new(DatasetId::StockBarraDaily, &size);
    let b = DataRequest::new(DatasetId::StockSwClassification, &sector);
    assert(strs_view(size@) =~= seq!["SIZE"@]);
    assert(strs_view(sector@) =~= seq!["l1_code"@]);
    let mut out: Vec<DataRequest> = Vec::new();
    out.push(a);
    out.push(b);
    assert(out@.map_values(|d: DataRequest| d@) =~= size_sector_requests());
    out
}

/// Raw requests for `ids`, each with `lookback` days of history.
pub open spec fn raw_requests(ids: Seq<Seq<char>>, lookback: usize) -> Seq<IntradayDailyRawRequestView> {
    ids.map_values(|id: Seq<char>| IntradayDailyRawRequestView { raw_id: id, lookback })
}

/// Raw requests for `ids`, each with `lookback` days of history.
pub fn raw_requests_for(ids: &[&str], lookback: usize) -> (r: Vec<IntradayDailyRawRequest>)
    ensures
        r@.map_values(|q: IntradayDailyRawRequest| q@) == raw_requests(strs_view(ids@), lookback),
{
    let mut out: Vec<IntradayDailyRawRequest> = Vec::new();
    let mut i: usize = 0;
    while i < ids.len()
        invariant
            i <= ids@.len(),
            out@.map_values(|q: IntradayDailyRawRequest| q@) =~= raw_requests(
                strs_view(ids@.subrange(0, i as int)),
                lookback,
            ),
        decreases ids@.len() - i,
    {
        let ghost before = out@;
        out.push(IntradayDailyRawRequest::new(ids[i], lookback));
        proof {
            assert(ids@.subrange(0, i + 1) =~= ids@.subrange(0, i as int).push(ids@[i as int]));
            assert(strs_view(ids@.subrange(0, i + 1)) =~= strs_view(ids@.subrange(0, i as int)).push(
                ids@[i as int]@,
            ));
            assert(out@.map_values(|q: IntradayDailyRawRequest| q@) =~= before.map_values(
                |q: IntradayDailyRawRequest| q@,
            ).push(IntradayDailyRawRequestView { raw_id: ids@[i as int]@, lookback }));
        }
        i = i + 1;
    }
    assert(ids@.subrange(0, ids@.len() as int) =~= ids@);
    out
}

/// Owned copies of `items` followed by `extra`.
pub fn strings_with(items: &[&str], extra: &str) -> (r: Vec<String>)
    ensures
        strings_view(r@) == strs_view(items@).push(extra@),
{
    let mut out = owned_strings(items);
    let ghost before = out@;
    out.push(extra.to_owned());
    assert(strings_view(out@) =~= strings_view(before).push(extra@));
    out
}

/// The definition of a stock daily factor neutralized by Barra size and SW
/// sector, with one alias.
pub open spec fn neutralized_factor_view(
    id: Seq<char>,
    alias: Seq<char>,
    name: Seq<char>,
    version: Seq<char>,
    tags: Seq<Seq<char>>,
    description: Seq<char>,
    raw_dependencies: Seq<IntradayDailyRawRequestView>,
    lookback: usize,
) -> FactorSpecView {
    FactorSpecView {
        id,
        aliases: seq![alias],
        name,
        asset_class: AssetClass::Stock,
        frequency: Frequency::Daily,
        version,
        tags,
        description,
        dependencies: size_sector_requests(),
        intraday_raw_dependencies: raw_dependencies,
        lookback,
    }
}

/// The definition of a stock daily factor neutralized by Barra size and SW
/// sector, with one alias.
pub fn neutralized_factor(
    id: &str,
    alias: &str,
    name: &str,
    version: &str,
    tags: Vec<String>,
    description: String,
    raw_dependencies: Vec<IntradayDailyRawRequest>,
    lookback: usize,
) -> (r: FactorSpec)
    ensures
        r@ == neutralized_factor_view(
            id@,
            alias@,
            name@,
            version@,
            strings_view(tags@),
            description@,
            raw_dependencies@.map_values(|q: IntradayDailyRawRequest| q@),
            lookback,
        ),
{
    let mut aliases: Vec<String> = Vec::new();
    aliases.push(alias.to_owned());
    let r = FactorSpec {
        id: id.to_owned(),
        aliases,
        name: name.to_owned(),
        asset_class: AssetClass::Stock,
        frequency: Frequency::Daily,
        version: version.to_owned(),
        tags,
        description,
        dependencies: size_sector_dependencies(),
        intraday_raw_dependencies: raw_dependencies,
        lookback: Lookback { trading_days: lookback },
    };
    assert(strings_view(r.aliases@) =~= seq![alias@]);
    r
}

/// A single raw request.
pub fn single_raw_request(raw_id: &str, lookback: usize) -> (r: Vec<IntradayDailyRawRequest>)
    ensures
        r@.map_values(|q: IntradayDailyRawRequest| q@) == seq![
            IntradayDailyRawRequestView { raw_id: raw_id@, lookback },
        ],
{
    let mut out: Vec<IntradayDailyRawRequest> = Vec::new();
    out.push(IntradayDailyRawRequest::new(raw_id, lookback));
    assert(out@.map_values(|q: IntradayDailyRawRequest| q@) =~= seq![
        IntradayDailyRawRequestView { raw_id: raw_id@, lookback },
    ]);
    out
}

/// The row a factor value belongs to: a stock on a trade date.
#[derive(Debug, PartialEq, Eq)]
pub enum FactorRowKey {
    Daily { trade_date: i32, ts_code: String },
}

/// One value of a factor series.
#[derive(Debug)]
pub struct FactorValue<V> {
    pub key: FactorRowKey,
    pub value: Option<V>,
}

/// The values of one factor, row by row.
#[derive(Debug)]
pub struct FactorSeries<V> {
    pub spec: FactorSpec,
    pub values: Vec<FactorValue<V>>,
}

/// The trade date of `row`.
pub open spec fn row_date<V>(row: FactorValue<V>) -> i32 {
    match row.key {
        FactorRowKey::Daily { trade_date, .. } => trade_date,
    }
}

/// The stock code of `row`.
pub open spec fn row_code<V>(row: FactorValue<V>) -> Seq<char> {
    match row.key {
        FactorRowKey::Daily { ts_code, .. } => ts_code@,
    }
}

impl Clone for DataRequest {
    fn clone(&self) -> (r: Self)
        ensures
            r@ == self@,
    {
        DataRequest {
            dataset: self.dataset,
            columns: copy_strings(&self.columns),
            index_code: match &self.index_code {
                Some(code) => Some(code.clone()),
                None => None,
            },
            financial_quarters: self.financial_quarters,
            explicit_dates: match &self.explicit_dates {
                Some(dates) => Some(dates.clone()),
                None => None,
            },
        }
    }
}

impl Clone for IntradayDailyRawRequest {
    fn clone(&self) -> (r: Self)
        ensures
            r@ == self@,
    {
        IntradayDailyRawRequest { raw_id: self.raw_id.clone(), lookback: self.lookback }
    }
}

/// Copies of `requests`, in order.
fn copy_requests(requests: &Vec<DataRequest>) -> (r: Vec<DataRequest>)
    ensures
        r@.map_values(|q: DataRequest| q@) == requests@.map_values(|q: DataRequest| q@),
{
    let mut out: Vec<DataRequest> = Vec::new();
    let mut i: usize = 0;
    while i < requests.len()
        invariant
            i <= requests@.len(),
            out@.map_values(|q: DataRequest| q@) =~= requests@.subrange(0, i as int).map_values(|q: DataRequest| q@),
        decreases requests@.len() - i,
    {
        let ghost before = out@;
        out.push(requests[i].clone());
        proof {
            assert(requests@.subrange(0, i + 1) =~= requests@.subrange(0, i as int).push(requests@[i as int]));
            assert(out@.map_values(|q: DataRequest| q@) =~= before.map_values(|q: DataRequest| q@).push(
                requests@[i as int]@,
            ));
        }
        i = i + 1;
    }
    assert(requests@.subrange(0, requests@.len() as int) =~= requests@);
    out
}

/// Copies of `requests`, in order.
fn copy_raw_requests(requests: &Vec<IntradayDailyRawRequest>) -> (r: Vec<IntradayDailyRawRequest>)
    ensures
        r@.map_values(|q: IntradayDailyRawRequest| q@) == requests@.map_values(|q: IntradayDailyRawRequest| q@),
{
    let mut out: Vec<IntradayDailyRawRequest> = Vec::new();
    let mut i: usize = 0;
    while i < requests.len()
        invariant
            i <= requests@.len(),
            out@.map_values(|q: IntradayDailyRawRequest| q@) =~= requests@.subrange(0, i as int).map_values(
                |q: IntradayDailyRawRequest| q@,
            ),
        decreases requests@.len() - i,
    {
        let ghost before = out@;
        out.push(requests[i].clone());
        proof {
            assert(requests@.subrange(0, i + 1) =~= requests@.subrange(0, i as int).push(requests@[i as int]));
            assert(out@.map_values(|q: IntradayDailyRawRequest| q@) =~= before.map_values(
                |q: IntradayDailyRawRequest| q@,
            ).push(requests@[i as int]@));
        }
        i = i + 1;
    }
    assert(requests@.subrange(0, requests@.len() as int) =~= requests@);
    out
}

impl Clone for FactorSpec {
    fn clone(&self) -> (r: Self)
        ensures
            r@ == self@,
    {
        FactorSpec {
            id: self.id.clone(),
            aliases: copy_strings(&self.aliases),
            name: self.name.clone(),
            asset_class: self.asset_class,
            frequency: self.frequency,
            version: self.version.clone(),
            tags: copy_strings(&self.tags),
            description: self.description.clone(),
            dependencies: copy_requests(&self.dependencies),
            intraday_raw_dependencies: copy_raw_requests(&self.intraday_raw_dependencies),
            lookback: self.lookback,
        }
    }
}

impl Clone for FactorRowKey {
    fn clone(&self) -> (r: Self)
        ensures
            match (r, *self) {
                (FactorRowKey::Daily { trade_date: a, ts_code: x }, FactorRowKey::Daily { trade_date: b, ts_code: y }) => a
                    == b && x@ == y@,
            },
    {
        match self {
            FactorRowKey::Daily { trade_date, ts_code } => FactorRowKey::Daily {
                trade_date: *trade_date,
                ts_code: ts_code.clone(),
            },
        }
    }
}

impl<V: Copy> Clone for FactorValue<V> {
    fn clone(&self) -> (r: Self)
        ensures
            row_date(r) == row_date(*self),
            row_code(r) == row_code(*self),
            r.value == self.value,
    {
        FactorValue { key: self.key.clone(), value: self.value }
    }
}

} // verus!
