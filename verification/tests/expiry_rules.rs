use safe_rm::expiry::{
    expired, expires_at, expiry_status, remaining_seconds, time_left, ExpiryStatus, TimeLeft,
};
use safe_rm::text::render_decimal;

const DAY: i64 = 86_400;

#[test]
fn entry_expires_strictly_after_its_retention() {
    let deleted_at = 1_700_000_000;
    assert_eq!(expires_at(deleted_at, 1), 1_700_086_400);
    assert!(!expired(deleted_at, 1, 1_700_086_399));
    assert!(!expired(deleted_at, 1, 1_700_086_400));
    assert!(expired(deleted_at, 1, 1_700_086_401));
}

#[test]
fn zero_and_negative_retention_expire_at_once() {
    assert!(!expired(100, 0, 100));
    assert!(expired(100, 0, 101));
    assert!(expired(100, -1, 100));
    assert_eq!(expires_at(100, -1), 100 - 86_400);
}

#[test]
fn extreme_values_do_not_overflow() {
    let t = expires_at(i64::MAX, i64::MAX);
    assert_eq!(t, i64::MAX as i128 + i64::MAX as i128 * 86_400);
    assert!(!expired(i64::MAX, i64::MAX, i64::MAX));
    assert!(expired(i64::MIN, i64::MIN, i64::MIN));
    assert_eq!(
        remaining_seconds(i64::MIN, i64::MIN, i64::MAX),
        i64::MIN as i128 + i64::MIN as i128 * 86_400 - i64::MAX as i128
    );
    match expiry_status(i64::MIN, i64::MIN, i64::MAX) {
        ExpiryStatus::Expired { hours_ago } => {
            assert_eq!(
                hours_ago,
                (i64::MAX as i128 - i64::MIN as i128 - i64::MIN as i128 * 86_400) / 3_600
            );
        }
        _ => panic!("long expired"),
    }
}

#[test]
fn time_left_counts_whole_days_then_hours() {
    assert_eq!(time_left(0, 7, 0), TimeLeft::Days(7));
    assert_eq!(time_left(0, 7, 1), TimeLeft::Days(6));
    assert_eq!(time_left(0, 1, 0), TimeLeft::Days(1));
    assert_eq!(time_left(0, 1, 1), TimeLeft::Hours(23));
    assert_eq!(time_left(0, 1, 3_600), TimeLeft::Hours(23));
    assert_eq!(time_left(0, 1, DAY - 3_600), TimeLeft::Hours(1));
    assert_eq!(time_left(0, 1, DAY - 3_599), TimeLeft::Expired);
    assert_eq!(time_left(0, 1, DAY), TimeLeft::Expired);
    assert_eq!(time_left(0, 1, DAY + 1), TimeLeft::Expired);
}

#[test]
fn labels_read_as_in_the_listing() {
    assert_eq!(TimeLeft::Days(6).label(), "6 days left");
    assert_eq!(TimeLeft::Hours(23).label(), "23 hours left");
    assert_eq!(TimeLeft::Expired.label(), "Expired");
    assert_eq!(time_left(0, 12, 5).label(), "11 days left");
}

#[test]
fn status_labels_read_as_in_the_expiry_check() {
    assert_eq!(ExpiryStatus::Remaining { days: 5, hours: 22 }.label(), "5 days, 22 hours");
    assert_eq!(ExpiryStatus::Remaining { days: 0, hours: 0 }.label(), "0 days, 0 hours");
    assert_eq!(ExpiryStatus::Expired { hours_ago: 48 }.label(), "Expired (48 hours ago)");
    assert_eq!(expiry_status(0, 1, 86_400).label(), "Expired (0 hours ago)");
}

#[test]
fn status_gives_days_and_hours_beyond_them() {
    assert_eq!(
        expiry_status(0, 2, 3_600 * 5),
        ExpiryStatus::Remaining { days: 1, hours: 19 }
    );
    assert_eq!(expiry_status(0, 1, DAY - 1), ExpiryStatus::Remaining { days: 0, hours: 0 });
    assert_eq!(expiry_status(0, 1, 0), ExpiryStatus::Remaining { days: 1, hours: 0 });
}

#[test]
fn status_counts_whole_hours_since_expiry() {
    assert_eq!(expiry_status(0, 1, DAY), ExpiryStatus::Expired { hours_ago: 0 });
    assert_eq!(expiry_status(0, 1, DAY + 3_599), ExpiryStatus::Expired { hours_ago: 0 });
    assert_eq!(expiry_status(0, 1, DAY + 3_600), ExpiryStatus::Expired { hours_ago: 1 });
    assert_eq!(expiry_status(0, 1, 3 * DAY), ExpiryStatus::Expired { hours_ago: 48 });
}

#[test]
fn status_and_expiry_agree_off_the_boundary() {
    for now in [0, 1, DAY - 1, DAY + 1, 2 * DAY, -5] {
        let gone = matches!(expiry_status(0, 1, now), ExpiryStatus::Expired { .. });
        assert_eq!(gone, expired(0, 1, now), "at {}", now);
    }
    // At the instant of expiry itself the check already reports no time left.
    assert!(!expired(0, 1, DAY));
    assert_eq!(expiry_status(0, 1, DAY), ExpiryStatus::Expired { hours_ago: 0 });
}

#[test]
fn decimal_rendering_matches_the_usual_notation() {
    assert_eq!(render_decimal(0), "0");
    assert_eq!(render_decimal(7), "7");
    assert_eq!(render_decimal(10), "10");
    assert_eq!(render_decimal(1_705_312_800), "1705312800");
    assert_eq!(render_decimal(-42), "-42");
    assert_eq!(render_decimal(i128::MAX), i128::MAX.to_string());
    assert_eq!(render_decimal(i128::MIN), i128::MIN.to_string());
    assert_eq!(render_decimal(i64::MIN as i128), i64::MIN.to_string());
}
