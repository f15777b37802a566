use pipeshare::clock::{chrono_now, clock_text};

#[test]
fn clock_text_counts_hours_minutes_and_seconds() {
    assert_eq!(clock_text(0), "00:00:00");
    assert_eq!(clock_text(3661), "01:01:01");
    assert_eq!(clock_text(86399), "23:59:59");
    assert_eq!(clock_text(1700000000), "22:13:20");
}

#[test]
fn the_clock_comes_round_every_day() {
    assert_eq!(clock_text(86400), "00:00:00");
    assert_eq!(clock_text(45296 + 86400), clock_text(45296));
    assert_eq!(clock_text(45296), "12:34:56");
    assert_eq!(clock_text(u64::MAX).len(), 8);
}

#[test]
fn the_present_time_is_that_of_the_system() {
    let seconds = || {
        std::time::SystemTime::now()
            .duration_since(std::time::SystemTime::UNIX_EPOCH)
            .unwrap()
            .as_secs()
    };
    let before = seconds();
    let now = chrono_now();
    let after = seconds();
    assert!((before..=after).any(|secs| clock_text(secs) == now));
}
