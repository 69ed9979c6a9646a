use animus::budget::{should_queue_notice, BudgetMonitor, Reading, KEY_URL};
use animus::outbound::read_budget_flag;

fn make_monitor(path: &str) -> BudgetMonitor {
    BudgetMonitor::new("test_key".into(), path.to_string(), 300)
}

#[test]
fn notice_queues_only_on_critical_edge() {
    assert!(should_queue_notice(true, false)); // entered critical
    assert!(!should_queue_notice(true, true)); // still critical, no repeat
    assert!(!should_queue_notice(false, true)); // recovered
    assert!(!should_queue_notice(false, false)); // healthy
}

#[test]
fn write_budget_flag_creates_valid_json() {
    let m = make_monitor("inference_budget.json");
    let raw = m.write_budget_flag("5", true, false, "1700000000.5");
    let v: serde_json::Value = serde_json::from_str(&raw).unwrap();
    assert_eq!(v["low"], true);
    assert_eq!(v["critical"], false);
    assert!((v["remaining_usd"].as_f64().unwrap() - 5.0).abs() < 0.01);
    assert_eq!(v["checked_at"], 1700000000.5);
}

#[test]
fn write_budget_flag_critical_fields() {
    let m = make_monitor("budget.json");
    let raw = m.write_budget_flag("1.5", true, true, "0");
    let v: serde_json::Value = serde_json::from_str(&raw).unwrap();
    assert_eq!(v["critical"], true);
}

fn reading(critical: bool, shown: &str) -> Reading {
    Reading { low: true, critical, remaining: "0.1".to_string(), shown: shown.to_string() }
}

#[test]
fn notices_come_once_and_again_after_recovery() {
    let mut m = make_monitor("budget.json");
    let polls = [
        Some(false),
        Some(true),
        None,
        Some(true),
        Some(false),
        None,
        Some(true),
    ];
    let mut notices = Vec::new();
    for poll in polls {
        let now = poll.map(|critical| reading(critical, "0.10"));
        let polled = m.on_poll(now.as_ref(), "1");
        assert_eq!(polled.flag.is_some(), poll.is_some());
        notices.push(polled.notice.is_some());
    }
    assert_eq!(notices, vec![false, true, false, false, false, false, true]);
}

#[test]
fn polls_before_the_first_answer_count_as_healthy() {
    let mut m = make_monitor("budget.json");
    assert!(m.on_poll(None, "1").notice.is_none());
    assert!(m.on_poll(Some(&reading(true, "0.10")), "1").notice.is_some());
}

#[test]
fn the_flag_that_is_written_is_read_back() {
    let mut m = make_monitor("budget.json");
    for (critical, remaining) in
        [(true, "0.1"), (false, "123456789012345678901234567890"), (true, "NaN"), (false, "5")]
    {
        let now = Reading {
            low: false,
            critical,
            remaining: remaining.to_string(),
            shown: remaining.to_string(),
        };
        let flag = m.on_poll(Some(&now), "1700000000.123456").flag.unwrap();
        assert_eq!(read_budget_flag(Some(&flag)), critical);
        assert_eq!(flag, m.write_budget_flag(remaining, false, critical, "1700000000.123456"));
    }
}

#[test]
fn notice_names_what_remains() {
    let mut m = make_monitor("budget.json");
    assert_eq!(
        m.on_poll(Some(&reading(true, "0.42")), "1").notice.unwrap(),
        "\u{26a0} OpenRouter credits critical ($0.42 remaining) \u{2014} refund to restore Syl's full routing."
    );
    assert_eq!(m.authorization(), "Bearer test_key");
    assert_eq!(KEY_URL, "https://openrouter.ai/api/v1/auth/key");
}

#[test]
fn the_flag_is_read_back_whatever_remains() {
    let m = make_monitor("inference_budget.json");
    let amounts = [
        f64::MAX.to_string(),
        f64::MIN.to_string(),
        "9".repeat(308),
        "9".repeat(309),
        5e-324f64.to_string(),
        "1e400".to_string(),
        f64::INFINITY.to_string(),
        f64::NAN.to_string(),
        "no number".to_string(),
    ];
    for remaining in &amounts {
        for critical in [true, false] {
            for low in [true, false] {
                let flag = m.write_budget_flag(remaining, low, critical, remaining);
                assert_eq!(read_budget_flag(Some(&flag)), critical, "{}", remaining);
            }
        }
    }
}
