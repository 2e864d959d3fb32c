//! Identifiers of the daily raw series that intraday factor providers
//! aggregate from minute bars.
use vstd::prelude::*;

verus! {

/// Realized variance of 5-minute returns.
pub const RV_5MIN_RAW_ID: &'static str = "rv_5min";
/// Left-tail 90% value at risk of 5-minute returns.
pub const VAR90_5MIN_RAW_ID: &'static str = "var90_5min";
/// Left-tail 95% value at risk of 5-minute returns.
pub const VAR95_5MIN_RAW_ID: &'static str = "var95_5min";
/// Left-tail 90% conditional value at risk of 5-minute returns.
pub const CVAR90_5MIN_RAW_ID: &'static str = "cvar90_5min";
/// Left-tail 95% conditional value at risk of 5-minute returns.
pub const CVAR95_5MIN_RAW_ID: &'static str = "cvar95_5min";
/// Right-tail 90% value at risk of 5-minute returns.
pub const VAR90_RT_5MIN_RAW_ID: &'static str = "var90_rt_5min";
/// Right-tail 95% value at risk of 5-minute returns.
pub const VAR95_RT_5MIN_RAW_ID: &'static str = "var95_rt_5min";
/// Right-tail 90% conditional value at risk of 5-minute returns.
pub const CVAR90_RT_5MIN_RAW_ID: &'static str = "cvar90_rt_5min";
/// Right-tail 95% conditional value at risk of 5-minute returns.
pub const CVAR95_RT_5MIN_RAW_ID: &'static str = "cvar95_rt_5min";
/// Realized variance of 5-minute CAPM residuals.
pub const ID_RV_5MIN_RAW_ID: &'static str = "id_rv_5min";
/// Left-tail 90% value at risk of 5-minute CAPM residuals.
pub const ID_VAR90_5MIN_RAW_ID: &'static str = "id_var90_5min";
/// Left-tail 95% value at risk of 5-minute CAPM residuals.
pub const ID_VAR95_5MIN_RAW_ID: &'static str = "id_var95_5min";
/// Left-tail 90% conditional value at risk of 5-minute CAPM residuals.
pub const ID_CVAR90_5MIN_RAW_ID: &'static str = "id_cvar90_5min";
/// Left-tail 95% conditional value at risk of 5-minute CAPM residuals.
pub const ID_CVAR95_5MIN_RAW_ID: &'static str = "id_cvar95_5min";
/// Right-tail 90% value at risk of 5-minute CAPM residuals.
pub const ID_VAR90_RT_5MIN_RAW_ID: &'static str = "id_var90_rt_5min";
/// Right-tail 95% value at risk of 5-minute CAPM residuals.
pub const ID_VAR95_RT_5MIN_RAW_ID: &'static str = "id_var95_rt_5min";
/// Right-tail 90% conditional value at risk of 5-minute CAPM residuals.
pub const ID_CVAR90_RT_5MIN_RAW_ID: &'static str = "id_cvar90_rt_5min";
/// Right-tail 95% conditional value at risk of 5-minute CAPM residuals.
pub const ID_CVAR95_RT_5MIN_RAW_ID: &'static str = "id_cvar95_rt_5min";
/// Realized volatility of 1-minute returns.
pub const HF_RDVOL_RAW_ID: &'static str = "hf_rdvol";
/// Realized skewness of 1-minute returns.
pub const HF_RDSKEW_RAW_ID: &'static str = "hf_rdskew";
/// Realized kurtosis of 1-minute returns.
pub const HF_RDKURT_RAW_ID: &'static str = "hf_rdkurt";
/// Relative jump variation of 5-minute returns.
pub const RJVP_5MIN_RAW_ID: &'static str = "rjvp_5min";
/// Relative large-jump variation of 5-minute returns.
pub const RLJVP_5MIN_RAW_ID: &'static str = "rljvp_5min";
/// Signed jump variation of 5-minute returns.
pub const SRJV_5MIN_RAW_ID: &'static str = "srjv_5min";
/// Signed large-jump variation of 5-minute returns.
pub const SRLJV_5MIN_RAW_ID: &'static str = "srljv_5min";
/// Salience-weighted 5-minute return, moving average.
pub const STR_5MIN_MA_RAW_ID: &'static str = "str_5min_ma";
/// Salience-weighted 5-minute return, moving average of the active part.
pub const STR_5MIN_MA_ACTIVE_RAW_ID: &'static str = "str_5min_ma_active";
/// Salience-weighted 5-minute return, moving average scaled by volatility.
pub const STR_5MIN_MA_SIGMA_RAW_ID: &'static str = "str_5min_ma_sigma";

} // verus!
