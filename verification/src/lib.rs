//! Point-in-time factor bookkeeping for a quantitative stock research engine:
//! calendar arithmetic on `YYYYMMDD` dates, intraday time parsing, industry
//! classification lookups, point-in-time financial statement indexes, event
//! schedules, snapshot caches and the factor/data-request catalogue of the
//! DBZQ, GFZQ, HAZQ and Gaussian-rank factor families.
pub mod dates;

pub mod catalog;
pub mod table;
pub mod panel;
pub mod financial_marker;
pub mod financial_pit;
pub mod snapshot_cache;
pub mod cross_section;
pub mod main_business;
pub mod raw_ids;
pub mod dbzq_5min_risk;
pub mod intraday_time;
pub mod dbzq_volume_distribution;
pub mod gfzq_salience;
pub mod gfzq_hf_resid;
pub mod gfzq_jump_vol;
pub mod dbzq_coskewness;
pub mod dbzq_financial_efficiency;
pub mod dbzq_profit_skew;
pub mod dbzq_roic_wacc;
pub mod earnings_reaction;
pub mod financial_similarity;
pub mod gaussian_financial;
pub mod gaussian_financial_ext;
pub mod hazq_comparable;
pub mod hazq_equity;
pub mod event_cache;
pub mod column_layout;
