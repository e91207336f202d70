use cfait::alarms::prune_ringing;
use cfait::alarms::{keeps_ringing, stop_ringing, RingingCheck};

fn check() -> RingingCheck {
    RingingCheck {
        task_found: true,
        done: false,
        calendar_href: "/w/".to_string(),
        due_stamp: Some("2025-01-01T09:00:00+00:00".to_string()),
        start_stamp: None,
        alarm_listed: true,
        alarm_acknowledged: false,
    }
}

#[test]
fn explicit_alarms() {
    let trash = "local://trash".to_string();
    assert!(keeps_ringing("a1", &check(), &trash));
    let mut c = check();
    c.alarm_acknowledged = true;
    assert!(!keeps_ringing("a1", &c, &trash));
    let mut c = check();
    c.alarm_listed = false;
    assert!(!keeps_ringing("a1", &c, &trash));
    let mut c = check();
    c.done = true;
    assert!(!keeps_ringing("a1", &c, &trash));
    let mut c = check();
    c.calendar_href = "local://recovery".to_string();
    assert!(!keeps_ringing("a1", &c, &trash));
    let mut c = check();
    c.task_found = false;
    assert!(!keeps_ringing("a1", &c, &trash));
}

#[test]
fn implicit_alarms_follow_the_task_times() {
    let trash = "local://trash".to_string();
    assert!(keeps_ringing("implicit_due:|2025-01-01T09:00:00+00:00", &check(), &trash));
    assert!(!keeps_ringing("implicit_due:|2025-01-02T09:00:00+00:00", &check(), &trash));
    assert!(!keeps_ringing("implicit_start:|2025-01-01T09:00:00+00:00", &check(), &trash));
    assert!(!keeps_ringing("implicit_due:", &check(), &trash));
    assert!(!keeps_ringing("implicit_other:|2025-01-01T09:00:00+00:00", &check(), &trash));
}

#[test]
fn stopping_an_alarm() {
    let p = |t: &str, a: &str| (t.to_string(), a.to_string());
    let ringing = vec![p("t1", "a1"), p("t1", "a2"), p("t2", "a1"), p("t1", "a1")];
    let r = stop_ringing(&ringing, &"t1".to_string(), &"a1".to_string());
    assert_eq!(r, vec![p("t1", "a2"), p("t2", "a1")]);
}

#[test]
fn pruning_keeps_only_live_alarms() {
    let p = |t: &str, a: &str| (t.to_string(), a.to_string());
    let ringing = vec![p("t1", "a1"), p("t2", "a2"), p("t3", "implicit_due:|2025-01-01T09:00:00+00:00")];
    let mut done = check();
    done.done = true;
    let checks = vec![check(), done, check()];
    let r = prune_ringing(&ringing, &checks, &"local://trash".to_string());
    assert_eq!(r, vec![p("t1", "a1"), p("t3", "implicit_due:|2025-01-01T09:00:00+00:00")]);
}
