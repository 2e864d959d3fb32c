use factor_engine::gfzq_hf_resid::{is_sample_anchor, minute_anchors};
use factor_engine::gfzq_salience::five_minute_slot;
use factor_engine::intraday_time::{
    colon_time_to_seconds, minute_of_day, time_to_minutes, time_to_seconds,
};

#[test]
fn gfzq_5min_slot_uses_0931_to_1500_as_48_bars() {
    assert_eq!(five_minute_slot("09:30:00"), None);
    assert_eq!(five_minute_slot("09:31:00"), Some((0, 571)));
    assert_eq!(five_minute_slot("09:35:00"), Some((0, 575)));
    assert_eq!(five_minute_slot("09:36:00"), Some((1, 576)));
    assert_eq!(five_minute_slot("11:30:00"), Some((23, 690)));
    assert_eq!(five_minute_slot("13:01:00"), Some((24, 781)));
    assert_eq!(five_minute_slot("15:00:00"), Some((47, 900)));
}

#[test]
fn gfzq_5min_slot_reads_the_last_token() {
    assert_eq!(five_minute_slot("2026-01-05 09:36:00"), Some((1, 576)));
    assert_eq!(five_minute_slot("12:00:00"), None);
    assert_eq!(five_minute_slot("noon"), None);
}

#[test]
fn gfzq_hf_minute_anchors_cover_both_sessions() {
    let anchors = minute_anchors();
    assert_eq!(anchors.len(), 241);
    assert_eq!(anchors[0], 570);
    assert_eq!(anchors[1], 571);
    assert_eq!(anchors[120], 690);
    assert_eq!(anchors[121], 781);
    assert_eq!(anchors[240], 900);
    assert!(is_sample_anchor(570));
    assert!(is_sample_anchor(781));
    assert!(!is_sample_anchor(700));
    assert!(!is_sample_anchor(901));
}

#[test]
fn fixed_width_times_read_hours_minutes_and_seconds() {
    assert_eq!(time_to_minutes("09:31:00"), Some(571));
    assert_eq!(time_to_minutes(" 2026-01-05 13:01:00 "), Some(781));
    assert_eq!(time_to_minutes("2026-01-05T15:00:00"), Some(900));
    assert_eq!(time_to_minutes("9:31"), None);
    assert_eq!(time_to_minutes(""), None);
    assert_eq!(time_to_seconds("09:30:15"), Some(34_215));
    assert_eq!(time_to_seconds("09:30"), Some(34_200));
    assert_eq!(time_to_seconds("2026-01-05T11:30:00"), Some(41_400));
    assert_eq!(time_to_seconds("xx:30"), None);
}

#[test]
fn colon_times_read_free_width_hours_and_minutes() {
    assert_eq!(minute_of_day("9:31"), Some(571));
    assert_eq!(minute_of_day("2026-01-05 13:01:00"), Some(781));
    assert_eq!(minute_of_day("13"), None);
    assert_eq!(colon_time_to_seconds("9:30"), Some(34_200));
    assert_eq!(colon_time_to_seconds("2026-01-05 15:00:00"), Some(54_000));
}
