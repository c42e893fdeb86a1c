use log_roll::compound::{
    date_flag_from_str, CompoundTrigger, CompoundTriggerConfig, CompoundTriggerDeserializer,
};
use log_roll::date::LocalDate;
use log_roll::size::SizeTrigger;

fn day(d: u32) -> LocalDate {
    LocalDate::new(2023, 3, d).unwrap()
}

#[test]
fn size_trigger_rolls_from_the_limit_on() {
    let t = SizeTrigger::new(1000);
    assert!(!t.trigger(999));
    assert!(t.trigger(1000));
    assert!(t.trigger(1001));
    assert_eq!(1000, t.limit());
}

#[test]
fn size_trigger_edge_limits() {
    let zero = SizeTrigger::new(0);
    assert!(zero.trigger(0));
    assert!(zero.trigger(1));
    let max = SizeTrigger::new(u64::MAX);
    assert!(!max.trigger(u64::MAX - 1));
    assert!(max.trigger(u64::MAX));
}

#[test]
fn compound_rolls_once_on_the_next_day() {
    let mut t = CompoundTrigger::new_on(1_000_000, true, day(6));
    assert!(!t.trigger_on(10, day(6)));
    assert!(t.trigger_on(10, day(7)));
    assert!(!t.trigger_on(10, day(7)));
    assert!(t.trigger_on(2_000_000, day(7)));
    assert!(t.trigger_on(0, day(8)));
}

#[test]
fn compound_date_change_goes_before_size() {
    let mut t = CompoundTrigger::new_on(100, true, day(6));
    assert!(t.trigger_on(5, day(9)));
    assert!(t.trigger_on(100, day(9)));
    assert!(!t.trigger_on(99, day(9)));
}

#[test]
fn compound_without_date_follows_size_only() {
    let mut t = CompoundTrigger::new_on(1000, false, day(6));
    assert!(!t.tracks_date());
    assert!(!t.trigger_on(999, day(7)));
    assert!(!t.trigger_on(0, day(20)));
    assert!(t.trigger_on(1000, day(21)));
    assert!(!t.trigger(999));
    assert!(t.trigger(1001));
    assert!(!t.tracks_date());
}

#[test]
fn compound_same_day_small_files_never_roll() {
    let mut t = CompoundTrigger::new_on(50, true, day(6));
    let before = t;
    for len in 0..50 {
        assert!(!t.trigger_on(len, day(6)));
    }
    assert_eq!(before, t);
    assert!(t.tracks_date());
}

#[test]
fn compound_on_the_clock() {
    let mut t = CompoundTrigger::new(0, true);
    assert!(t.tracks_date());
    assert_eq!(0, t.limit());
    assert!(t.trigger(0));
    let mut plain = CompoundTrigger::new(10, false);
    assert!(!plain.tracks_date());
    assert!(!plain.trigger(9));
    assert!(plain.trigger(10));
}

#[test]
fn deserializer_builds_the_configured_trigger() {
    let builder = CompoundTriggerDeserializer {};
    let t = builder.deserialize(CompoundTriggerConfig { limit: 10 * 1024 * 1024, date: true });
    assert_eq!(10 * 1024 * 1024, t.limit());
    assert!(t.tracks_date());
    let t = builder.deserialize(CompoundTriggerConfig::default());
    assert_eq!(0, t.limit());
    assert!(!t.tracks_date());
}

#[test]
fn date_flag_reads_only_true() {
    assert!(date_flag_from_str("true"));
    assert!(!date_flag_from_str("false"));
    assert!(!date_flag_from_str("True"));
    assert!(!date_flag_from_str("yes"));
    assert!(!date_flag_from_str(""));
    assert!(!date_flag_from_str("true "));
}
