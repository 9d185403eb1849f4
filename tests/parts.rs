use fb4rasp_engine::condition::{MultiItemCondition, OneItemCondition};
use fb4rasp_engine::config::{truer, Config};
use fb4rasp_engine::counter::{correct_counter, parse_counter, parse_net_sample, throughput};
use fb4rasp_engine::params::{Layout, NetworkInfo, Options, Parameters};
use fb4rasp_engine::touch::TouchStatus;

#[test]
fn one_item_condition_wants_a_single_pin() {
    let c = OneItemCondition::new(2);
    assert!(c.applies(&TouchStatus::new(0b100)));
    assert!(!c.applies(&TouchStatus::new(0b110)));
    assert!(!c.applies(&TouchStatus::new(0b1000)));
    assert!(!c.applies(&TouchStatus::new(0)));
    assert!(c.applies(&TouchStatus::new(0b100 | (1 << 13))));
}

#[test]
fn multi_item_condition_is_mask_equality() {
    let c = MultiItemCondition::new(&[2, 3, 4, 6, 8]);
    assert!(c.applies(&TouchStatus::new(0b1_0101_1100)));
    assert!(!c.applies(&TouchStatus::new(0b1_0101_1000)));
    assert!(!c.applies(&TouchStatus::new(0b1_0101_1101)));
    assert!(MultiItemCondition::new(&[]).applies(&TouchStatus::new(0)));
    assert!(MultiItemCondition::new(&[11, 11]).applies(&TouchStatus::new(1 << 11)));
}

#[test]
fn touch_status_reads_pins() {
    let t = TouchStatus::new(0b1000_0000_0001 | (1 << 12));
    assert!(t.touched(0));
    assert!(t.touched(11));
    assert!(!t.touched(1));
    assert!(!t.touched(12));
    assert_eq!(2, t.count_touched());
    assert!(t.was_touched());
    assert!(!TouchStatus::new(0).was_touched());
}

#[test]
fn counter_lifts_by_whole_periods() {
    assert_eq!(Some(50 + (1i64 << 32)), correct_counter(50, 100));
    assert_eq!(Some(100), correct_counter(100, 100));
    assert_eq!(Some(7), correct_counter(7, 3));
    assert_eq!(Some(1 + 2 * (1i64 << 32)), correct_counter(1, (1i64 << 32) + 5));
    assert_eq!(None, correct_counter(0, i64::MAX));
    assert_eq!(Some(-5 + (1i64 << 32)), correct_counter(-5, 0));
}

#[test]
fn throughput_rounds_half_away_from_zero() {
    assert_eq!(17, throughput(50, 3000));
    assert_eq!(20, throughput(60, 3000));
    assert_eq!(-17, throughput(-50, 3000));
    assert_eq!(1, throughput(1, 2000));
    assert_eq!(-1, throughput(-1, 2000));
    assert_eq!(0, throughput(1, 2001));
    assert_eq!(i64::MIN, throughput(-5, 0));
    assert_eq!(0, throughput(0, 0));
    assert_eq!(i64::MAX, throughput(i64::MAX as i128 * 2, 1));
}

#[test]
fn counters_parse_from_statistics_text() {
    assert_eq!(Some(12345), parse_counter(b"12345\n"));
    assert_eq!(Some(7), parse_counter(b"7 bytes"));
    assert_eq!(Some(-42), parse_counter(b"-42"));
    assert_eq!(Some(42), parse_counter(b"+42\n"));
    assert_eq!(Some(i64::MAX), parse_counter(b"9223372036854775807"));
    assert_eq!(Some(i64::MIN), parse_counter(b"-9223372036854775808"));
    assert_eq!(None, parse_counter(b"9223372036854775808"));
    assert_eq!(None, parse_counter(b""));
    assert_eq!(None, parse_counter(b"\n12"));
    assert_eq!(None, parse_counter(b"-"));
    assert_eq!(None, parse_counter(b"12a"));
    assert_eq!(None, parse_counter(b"0x10"));
}

#[test]
fn net_sample_needs_both_counters() {
    assert_eq!(Some(NetworkInfo::new(10, 20)), parse_net_sample(b"10\n", b"20\n"));
    assert_eq!(None, parse_net_sample(b"10\n", b"x\n"));
    assert_eq!(None, parse_net_sample(b"\n", b"20\n"));
}

#[test]
fn defaults_are_empty_and_vertical() {
    assert_eq!(Layout::Vertical, Options::new().main_layout);
    let p = Parameters::new();
    assert_eq!(0, p.net_infos.size());
    assert_eq!(NetworkInfo::new(0, 0), *p.net_infos.last());
    assert!(p.touch_data.is_empty());
    assert!(Config::new().remotes.is_empty());
    assert!(truer());
}
