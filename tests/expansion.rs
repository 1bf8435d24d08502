use webhook_reminder::schedule::{
    expand, Configuration, Expansion, Reminder, ScheduleError, ScheduleIssue, ScheduledDelivery,
    Target,
};
use webhook_reminder::time::{TimeError, Timestamp};

const NOW_0955: i64 = 1748739300;

fn reminder(before: u64, message: &str) -> Reminder {
    Reminder { before, message: message.to_string() }
}

fn target(recipient: &str, times: &[&str]) -> Target {
    Target {
        recipient: recipient.to_string(),
        timestamps: times.iter().map(|t| Timestamp::Text(t.to_string())).collect(),
    }
}

fn summary(e: &Expansion) -> Vec<(String, String, u64)> {
    e.deliveries
        .iter()
        .map(|d: &ScheduledDelivery| (d.endpoint.clone(), d.message.clone(), d.delay))
        .collect()
}

fn triple(endpoint: &str, message: &str, delay: u64) -> (String, String, u64) {
    (endpoint.to_string(), message.to_string(), delay)
}

#[test]
fn reminder_before_target_past_is_dropped() {
    let c = Configuration {
        reminders: vec![reminder(600, "ten minutes")],
        targets: vec![target("HOOK", &["2025 06 01 10 00"])],
    };
    let e = expand(&c, &vec![Some("https://a".to_string())], NOW_0955);
    assert!(e.deliveries.is_empty());
    assert!(e.issues.is_empty());
}

#[test]
fn included_and_dropped_reminders() {
    let c = Configuration {
        reminders: vec![
            reminder(600, "ten minutes"),
            reminder(300, "five minutes"),
            reminder(60, "one minute"),
            reminder(301, "just past"),
        ],
        targets: vec![target("HOOK", &["2025 06 01 10 00"])],
    };
    let e = expand(&c, &vec![Some("https://a".to_string())], NOW_0955);
    assert_eq!(
        summary(&e),
        vec![triple("https://a", "five minutes", 0), triple("https://a", "one minute", 240)]
    );
}

#[test]
fn zero_offset_fires_at_target_instant() {
    let c = Configuration {
        reminders: vec![reminder(0, "now")],
        targets: vec![target("HOOK", &["2025 06 01 10 00", "2025 06 02 10 00"])],
    };
    let e = expand(&c, &vec![Some("u".to_string())], NOW_0955);
    assert_eq!(summary(&e), vec![triple("u", "now", 300), triple("u", "now", 300 + 86400)]);
}

#[test]
fn cross_product_in_order() {
    let c = Configuration {
        reminders: vec![reminder(0, "a"), reminder(100, "b")],
        targets: vec![
            target("X", &["2025 06 01 10 00", "2025 06 01 11 00"]),
            target("Y", &["2025 06 01 10 00"]),
        ],
    };
    let e = expand(&c, &vec![Some("x".to_string()), Some("y".to_string())], NOW_0955);
    assert_eq!(
        summary(&e),
        vec![
            triple("x", "a", 300),
            triple("x", "b", 200),
            triple("x", "a", 3900),
            triple("x", "b", 3800),
            triple("y", "a", 300),
            triple("y", "b", 200),
        ]
    );
    assert_eq!(e.deliveries.len(), 2 * 3);
}

#[test]
fn malformed_timestamp_spares_other_targets() {
    let c = Configuration {
        reminders: vec![reminder(0, "go")],
        targets: vec![
            target("X", &["not a timestamp", "2025 06 01 10 00"]),
            target("Y", &["2025 06 01 10 00"]),
        ],
    };
    let e = expand(&c, &vec![Some("x".to_string()), Some("y".to_string())], NOW_0955);
    assert_eq!(summary(&e), vec![triple("x", "go", 300), triple("y", "go", 300)]);
    assert_eq!(
        e.issues,
        vec![ScheduleIssue {
            target: 0,
            error: ScheduleError::BadTimestamp(0, TimeError::MalformedTimestamp)
        }]
    );
}

#[test]
fn unresolved_recipient_spares_other_targets() {
    let c = Configuration {
        reminders: vec![reminder(0, "go")],
        targets: vec![target("X", &["2025 06 01 10 00"]), target("Y", &["2025 06 01 10 00"])],
    };
    let e = expand(&c, &vec![None, Some("y".to_string())], NOW_0955);
    assert_eq!(summary(&e), vec![triple("y", "go", 300)]);
    assert_eq!(
        e.issues,
        vec![ScheduleIssue { target: 0, error: ScheduleError::UnresolvedRecipient }]
    );
}

#[test]
fn expansion_is_deterministic() {
    let c = Configuration {
        reminders: vec![reminder(0, "a"), reminder(7200, "b"), reminder(30, "c")],
        targets: vec![
            target("X", &["2025 06 01 10 00", "2025 13 01 10 00"]),
            target("Y", &["2025 06 01 12 00"]),
        ],
    };
    let eps = vec![Some("x".to_string()), Some("y".to_string())];
    let first = expand(&c, &eps, NOW_0955);
    let second = expand(&c, &eps, NOW_0955);
    assert_eq!(summary(&first), summary(&second));
    assert_eq!(first.issues, second.issues);
    assert_eq!(first.deliveries.len(), 5);
}

#[test]
fn empty_configuration_gives_nothing() {
    let c = Configuration { reminders: vec![], targets: vec![target("X", &["2025 06 01 10 00"])] };
    let e = expand(&c, &vec![Some("x".to_string())], NOW_0955);
    assert!(e.deliveries.is_empty() && e.issues.is_empty());
    let c = Configuration { reminders: vec![reminder(0, "a")], targets: vec![] };
    let e = expand(&c, &vec![], NOW_0955);
    assert!(e.deliveries.is_empty() && e.issues.is_empty());
}

#[test]
fn largest_offset_is_dropped_without_error() {
    let c = Configuration {
        reminders: vec![reminder(u64::MAX, "never")],
        targets: vec![target("X", &["9999 12 31 23 59"])],
    };
    let e = expand(&c, &vec![Some("x".to_string())], i64::MIN);
    assert!(e.deliveries.is_empty() && e.issues.is_empty());
}

#[test]
fn bad_timestamps_of_one_target_leave_the_others_alone() {
    let good_first = target("X", &["2025 06 01 10 00"]);
    let good_last = target("Z", &["2025 06 01 11 00"]);
    let with_bad = Configuration {
        reminders: vec![reminder(0, "go"), reminder(100, "soon")],
        targets: vec![
            good_first.clone(),
            target("Y", &["2025 06 01 10 00", "2025/06/01 10:00", "2025 06 31 10 00"]),
            good_last.clone(),
        ],
    };
    let with_good = Configuration {
        reminders: with_bad.reminders.clone(),
        targets: vec![good_first, target("Y", &["2025 06 01 10 00"]), good_last],
    };
    let eps = vec![Some("x".to_string()), Some("y".to_string()), Some("z".to_string())];
    let bad = expand(&with_bad, &eps, NOW_0955);
    let good = expand(&with_good, &eps, NOW_0955);
    assert_eq!(summary(&bad), summary(&good));
    assert_eq!(
        bad.issues,
        vec![
            ScheduleIssue {
                target: 1,
                error: ScheduleError::BadTimestamp(1, TimeError::MalformedTimestamp)
            },
            ScheduleIssue {
                target: 1,
                error: ScheduleError::BadTimestamp(2, TimeError::InvalidCalendarValue)
            },
        ]
    );
    assert!(good.issues.is_empty());
}
