use statusblocks::clock::WallClock;
use statusblocks::decimal::signed_decimal;
use statusblocks::format::{date_fragment, date_info_format, wifi_info_format};

#[test]
fn wifi_above_minus_70_is_red() {
    assert_eq!(wifi_info_format(-52), "^c#FF0000^-52 dBm");
    assert_eq!(wifi_info_format(-69), "^c#FF0000^-69 dBm");
    assert_eq!(wifi_info_format(0), "^c#FF0000^0 dBm");
    assert_eq!(wifi_info_format(12), "^c#FF0000^12 dBm");
}

#[test]
fn wifi_from_minus_70_down_to_minus_79_is_yellow() {
    assert_eq!(wifi_info_format(-70), "^c#FFFF00^-70 dBm");
    assert_eq!(wifi_info_format(-75), "^c#FFFF00^-75 dBm");
    assert_eq!(wifi_info_format(-79), "^c#FFFF00^-79 dBm");
}

#[test]
fn wifi_from_minus_80_down_to_minus_89_is_orange() {
    assert_eq!(wifi_info_format(-80), "^c#FFA500^-80 dBm");
    assert_eq!(wifi_info_format(-89), "^c#FFA500^-89 dBm");
}

#[test]
fn wifi_at_minus_90_and_below_is_red() {
    assert_eq!(wifi_info_format(-90), "^c#FF0000^-90 dBm");
    assert_eq!(wifi_info_format(-120), "^c#FF0000^-120 dBm");
}

#[test]
fn wifi_at_the_ends_of_the_range() {
    assert_eq!(wifi_info_format(i32::MIN), "^c#FF0000^-2147483648 dBm");
    assert_eq!(wifi_info_format(i32::MAX), "^c#FF0000^2147483647 dBm");
}

#[test]
fn decimal_text_is_what_display_prints() {
    for v in [0, 1, -1, 9, 10, -10, 99, 100, 101, -2005, 1_000_000, i32::MAX, i32::MIN] {
        assert_eq!(signed_decimal(v), v.to_string());
    }
}

#[test]
fn date_is_printed_by_chrono() {
    let clock = WallClock::new(2026, 10, 28, 0, 48, 7).unwrap();
    assert_eq!(date_info_format(clock), "^c#2e95d3^Oct 28 Wed 12:48 AM");
}

#[test]
fn date_afternoon_and_padding() {
    let clock = WallClock::new(2024, 2, 29, 15, 4, 59).unwrap();
    assert_eq!(date_info_format(clock), "^c#2e95d3^Feb 29 Thu 03:04 PM");
    let clock = WallClock::new(2023, 7, 1, 12, 0, 0).unwrap();
    assert_eq!(date_info_format(clock), "^c#2e95d3^Jul 01 Sat 12:00 PM");
    let clock = WallClock::new(1999, 12, 31, 23, 59, 59).unwrap();
    assert_eq!(date_info_format(clock), "^c#2e95d3^Dec 31 Fri 11:59 PM");
}

#[test]
fn date_text_is_the_chrono_text() {
    let clock = WallClock::new(2026, 10, 28, 0, 48, 7).unwrap();
    assert_eq!(clock.text(), "Oct 28 Wed 12:48 AM");
}

#[test]
fn date_fragment_puts_the_colour_before_the_text() {
    assert_eq!(date_fragment("Jan 01 Mon 01:00 AM"), "^c#2e95d3^Jan 01 Mon 01:00 AM");
    assert_eq!(date_fragment(""), "^c#2e95d3^");
}

#[test]
fn wall_clock_takes_the_days_of_the_calendar() {
    assert!(WallClock::new(2024, 2, 29, 0, 0, 0).is_some());
    assert!(WallClock::new(2000, 2, 29, 0, 0, 0).is_some());
    assert!(WallClock::new(2023, 1, 31, 23, 59, 59).is_some());
    assert!(WallClock::new(-4, 2, 29, 0, 0, 0).is_some());
    assert!(WallClock::new(262142, 12, 31, 23, 59, 59).is_some());
    assert!(WallClock::new(-262143, 1, 1, 0, 0, 0).is_some());
}

#[test]
fn wall_clock_refuses_what_is_not_a_day_or_a_second() {
    assert!(WallClock::new(2023, 2, 29, 0, 0, 0).is_none());
    assert!(WallClock::new(1900, 2, 29, 0, 0, 0).is_none());
    assert!(WallClock::new(2023, 4, 31, 0, 0, 0).is_none());
    assert!(WallClock::new(2023, 0, 1, 0, 0, 0).is_none());
    assert!(WallClock::new(2023, 13, 1, 0, 0, 0).is_none());
    assert!(WallClock::new(2023, 1, 0, 0, 0, 0).is_none());
    assert!(WallClock::new(2023, 1, 32, 0, 0, 0).is_none());
    assert!(WallClock::new(2023, 1, 1, 24, 0, 0).is_none());
    assert!(WallClock::new(2023, 1, 1, 0, 60, 0).is_none());
    assert!(WallClock::new(2023, 1, 1, 0, 0, 60).is_none());
    assert!(WallClock::new(262143, 1, 1, 0, 0, 0).is_none());
    assert!(WallClock::new(-262144, 12, 31, 0, 0, 0).is_none());
}

#[test]
fn every_accepted_day_is_printed() {
    // Walks the edges of the calendar: chrono must print whatever is accepted.
    for year in [-262143, -4, 0, 1, 1900, 2000, 2023, 2024, 262142] {
        for month in 1..=12 {
            for day in [1, 28, 29, 30, 31] {
                if let Some(clock) = WallClock::new(year, month, day, 23, 59, 59) {
                    assert!(date_info_format(clock).starts_with("^c#2e95d3^"));
                }
            }
        }
    }
}
