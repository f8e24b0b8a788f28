use viewerator::dashboard::{
    after_refresh, check_size, color_pair, color_pair_of, log_rows, shows_selector, stat_row, step, Action, Event,
    SizeCheck,
};
use viewerator::decimal::parse_milli;
use viewerator::format::{format_rate, format_sensor, format_status};
use viewerator::health::{worst_of, Health};
use viewerator::json::parse_json;
use viewerator::log_view::{line_color, lines_before_rotation, log_tag, select_lines, window_start, LineColor};
use viewerator::text::contains;
use viewerator::webdata::{StatDetail, Stats, Variant};

const LEVELS: [Health; 5] = [Health::Critical, Health::SlowDecrease, Health::Hold, Health::SlowIncrease, Health::RampUp];

#[test]
fn worse_of_is_commutative_and_idempotent() {
    for a in LEVELS {
        assert_eq!(Health::worse_of(a, a), a);
        for b in LEVELS {
            assert_eq!(Health::worse_of(a, b), Health::worse_of(b, a));
        }
    }
}

#[test]
fn worse_of_follows_the_order() {
    assert_eq!(Health::worse_of(Health::Hold, Health::SlowIncrease), Health::Hold);
    assert_eq!(Health::worse_of(Health::RampUp, Health::Critical), Health::Critical);
    assert_eq!(Health::worse_of(Health::SlowDecrease, Health::Hold), Health::SlowDecrease);
}

#[test]
fn five_ramp_up_and_one_critical_is_critical() {
    let hs = vec![Health::RampUp, Health::RampUp, Health::Critical, Health::RampUp, Health::RampUp, Health::RampUp];
    assert_eq!(worst_of(&hs), Health::Critical);
    assert_eq!(worst_of(&vec![]), Health::RampUp);
}

#[test]
fn health_names_round_trip() {
    for h in LEVELS {
        assert_eq!(Health::parse(h.name()), h);
    }
    assert_eq!(Health::parse("slowDecrease"), Health::SlowDecrease);
    assert_eq!(Health::parse(""), Health::RampUp);
    assert_eq!(Health::parse("Critical"), Health::RampUp);
}

#[test]
fn numbers_read_into_thousandths() {
    assert_eq!(parse_milli("0"), Some(0));
    assert_eq!(parse_milli("12.5"), Some(12_500));
    assert_eq!(parse_milli("-3.25"), Some(-3_250));
    assert_eq!(parse_milli("0.0005"), Some(1));
    assert_eq!(parse_milli("0.0004"), Some(0));
    assert_eq!(parse_milli("1.2345"), Some(1_235));
    assert_eq!(parse_milli("-1.2345"), Some(-1_235));
    assert_eq!(parse_milli("1.2344999"), Some(1_234));
    assert_eq!(parse_milli("1.5e3"), Some(1_500_000));
    assert_eq!(parse_milli("2E-2"), Some(20));
    assert_eq!(parse_milli("1e-7"), Some(0));
    assert_eq!(parse_milli("1e40"), None);
    assert_eq!(parse_milli("1."), None);
    assert_eq!(parse_milli("abc"), None);
    assert_eq!(parse_milli(""), None);
    assert_eq!(parse_milli("1.5x"), None);
}

#[test]
fn json_first_value_and_fields() {
    let j = parse_json("{\"b\": [1, \"two\"], \"a\": null}").unwrap();
    assert!(j.first_value().is_some());
    assert!(j.field("b").is_some());
    assert!(j.field("c").is_none());
    assert!(j.field("b").unwrap().item(1).is_some());
    assert!(j.field("b").unwrap().item(2).is_none());
    assert!(parse_json("[1, 2").is_none());
    assert!(parse_json("").is_none());
    assert!(parse_json("null").is_some());
}

#[test]
fn sensor_values_have_three_decimals() {
    assert_eq!(format_sensor(12_345), "  12.345");
    assert_eq!(format_sensor(0), "   0.000");
    assert_eq!(format_sensor(999_999), " 999.999");
    assert_eq!(format_sensor(1_234_500), "1234.5");
    assert_eq!(format_sensor(1_000_000), "1000");
    assert_eq!(format_sensor(-1_250), "-1.25");
}

#[test]
fn rates_switch_scale_at_each_threshold() {
    assert_eq!(format_rate(999_000), "  999.0");
    assert_eq!(format_rate(1_000_000), "   1.0K");
    assert_eq!(format_rate(12_345_678), "  12.3K");
    assert_eq!(format_rate(1_500_000_000), "   1.5M");
    assert_eq!(format_rate(2_000_000_000_000), "   2.0G");
    assert_eq!(format_rate(1_000_000_000_000_000), "*******");
    assert_eq!(format_rate(-1), "*******");
    assert_eq!(format_rate(0), "    0.0");
    assert_eq!(format_rate(60), "    0.1");
    assert_eq!(format_rate(49), "    0.0");
    assert_eq!(format_rate(999_960), " 1000.0");
    assert_eq!(format_rate(999_960_000), "1000.0K");
    assert_eq!(format_rate(1_250_000), "   1.3K");
}

#[test]
fn status_words_are_hexadecimal() {
    assert_eq!(format_status(2048), "0x000800");
    assert_eq!(format_status(0), "0x000000");
    assert_eq!(format_status(0xdeadbeef), "0xdeadbeef");
}

#[test]
fn substring_search() {
    assert!(contains("abc: Fee paid", "Fee"));
    assert!(!contains("abc", "abcd"));
    assert!(contains("abc", ""));
}

#[test]
fn terminal_size_is_checked() {
    assert_eq!(check_size(125, 40), SizeCheck::TooNarrow);
    assert_eq!(check_size(126, 25), SizeCheck::TooShort);
    assert_eq!(check_size(126, 26), SizeCheck::Fits);
    assert_eq!(log_rows(30), 9);
    assert_eq!(log_rows(10), 0);
}

#[test]
fn events_drive_the_selection() {
    let vs = vec![Variant::TypeA, Variant::TypeA, Variant::TypeB];
    assert_eq!(step(0, Event::Digit(2), &vs), (1, Action::Show { clear: false }));
    assert_eq!(step(0, Event::Digit(3), &vs), (2, Action::Show { clear: true }));
    assert_eq!(step(0, Event::Digit(4), &vs), (0, Action::Ignore));
    assert_eq!(step(1, Event::Digit(0), &vs), (1, Action::Ignore));
    assert_eq!(step(1, Event::Delete, &vs), (1, Action::Exit));
    assert_eq!(step(1, Event::Other, &vs), (1, Action::Ignore));
    assert_eq!(step(1, Event::Idle, &vs), (1, Action::Refresh));
    assert_eq!(after_refresh(2, 2), 0);
    assert_eq!(after_refresh(1, 2), 1);
    assert!(!shows_selector(1));
    assert!(shows_selector(2));
}

#[test]
fn health_colours() {
    assert_eq!(color_pair(Health::RampUp), 1);
    assert_eq!(color_pair(Health::Critical), 5);
    assert_eq!(color_pair_of(None), 0);
    assert_eq!(color_pair_of(Some(Health::Hold)), 3);
}

#[test]
fn statistics_row_cells() {
    let total = StatDetail {
        accepted: 6_000_000,
        calculated: 12_000_000,
        end_time: 1_060_000,
        found: 7_000_000,
        requested: 18_000_000,
        start_time: 1_000_000,
        submitted: 6_500_000,
        valid: 6_800_000,
    };
    let minute = StatDetail { start_time: 0, end_time: 0, ..total };
    let s = Stats { minute, name: String::from("dev"), total };
    let cells = stat_row(&s);
    assert_eq!(cells.len(), 12);
    assert_eq!(cells[0], "  300.0");
    assert_eq!(cells[5], "  100.0");
    assert_eq!(cells[6], "  300.0");
    let stalled = Stats { minute, name: String::from("dev"), total: StatDetail { end_time: 1_000_000, ..total } };
    assert_eq!(stat_row(&stalled)[0], "*******");
}

#[test]
fn log_window_and_rotation() {
    assert_eq!(window_start(100_000), 20_000);
    assert_eq!(window_start(80_000), 0);
    let lines: Vec<String> = vec!["one".into(), "two".into(), "Received SIGHUP".into(), "three".into()];
    let (kept, rotated) = lines_before_rotation(&lines);
    assert_eq!(kept, vec!["one".to_string(), "two".to_string()]);
    assert!(rotated);
    let (all, rotated) = lines_before_rotation(&vec!["a".to_string()]);
    assert_eq!(all.len(), 1);
    assert!(!rotated);
}

#[test]
fn log_lines_are_filtered_and_clipped() {
    let lines: Vec<String> = vec![
        "INF d0: start".into(),
        "INF d1: start".into(),
        "WRN Fee late".into(),
        "ERR d0: bad nonce".into(),
        "INF d0: done".into(),
    ];
    assert_eq!(log_tag("d0"), "d0: ");
    assert_eq!(select_lines(&lines, &log_tag("d0"), 2), vec!["ERR d0: bad nonce".to_string(), "INF d0: done".to_string()]);
    assert_eq!(select_lines(&lines, "d0: ", 10).len(), 4);
    assert_eq!(select_lines(&lines, "d9: ", 10), vec!["WRN Fee late".to_string()]);
    assert_eq!(line_color("WRN Fee late"), LineColor::Warning);
    assert_eq!(line_color("ERR d0: bad nonce"), LineColor::Error);
    assert_eq!(line_color("INF d0: done"), LineColor::Normal);
}
