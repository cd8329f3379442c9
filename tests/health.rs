use dostr::health::{ConnectionMessage, ConnectionStatus, HealthMonitor, Notification};

fn failed(t: u64) -> ConnectionMessage {
    ConnectionMessage { status: ConnectionStatus::Failed, timestamp: t }
}

fn success(t: u64) -> ConnectionMessage {
    ConnectionMessage { status: ConnectionStatus::Success, timestamp: t }
}

#[test]
fn monitor_starts_with_success_baseline_one_period_back() {
    let m = HealthMonitor::new(10_000, 3_600);
    assert_eq!(m.last_accepted, success(6_400));
    assert_eq!(m.discard_period, 3_600);
    let early = HealthMonitor::new(100, 3_600);
    assert_eq!(early.last_accepted, success(0));
}

#[test]
fn three_quick_failures_give_one_notification() {
    let mut m = HealthMonitor::new(10_000, 3_600);
    assert_eq!(m.receive(failed(10_000)), Some(Notification::Lost));
    assert_eq!(m.receive(failed(10_100)), None);
    assert_eq!(m.receive(failed(13_599)), None);
    assert_eq!(m.last_accepted, failed(10_000));
}

#[test]
fn failure_after_a_full_period_escalates() {
    let mut m = HealthMonitor::new(10_000, 3_600);
    assert_eq!(m.receive(failed(10_000)), Some(Notification::Lost));
    assert_eq!(m.receive(failed(13_601)), Some(Notification::StillFailing));
    assert_eq!(m.last_accepted, failed(13_601));
}

#[test]
fn failure_exactly_one_period_later_escalates() {
    let mut m = HealthMonitor::new(10_000, 3_600);
    assert_eq!(m.receive(failed(10_000)), Some(Notification::Lost));
    assert_eq!(m.receive(failed(13_600)), Some(Notification::StillFailing));
}

#[test]
fn recovery_is_announced_and_stable_success_is_quiet() {
    let mut m = HealthMonitor::new(10_000, 3_600);
    assert_eq!(m.receive(success(10_000)), None);
    assert_eq!(m.last_accepted, success(10_000));
    assert_eq!(m.receive(failed(10_010)), Some(Notification::Lost));
    assert_eq!(m.receive(success(10_020)), Some(Notification::Reestablished));
    assert_eq!(m.receive(success(20_000)), None);
    assert_eq!(m.last_accepted, success(20_000));
}

#[test]
fn message_dated_before_the_last_accepted_is_discarded() {
    let mut m = HealthMonitor::new(10_000, 3_600);
    assert_eq!(m.receive(failed(10_000)), Some(Notification::Lost));
    assert_eq!(m.receive(failed(5)), None);
    assert_eq!(m.last_accepted, failed(10_000));
}

#[test]
fn notification_texts() {
    assert_eq!(Notification::StillFailing.text(), "I'm still unable to connect to the source :(");
    assert_eq!(Notification::Lost.text(), "I can't connect to the source right now :(");
    assert_eq!(
        Notification::Reestablished.text(),
        "Connection to the source reestablished! :)"
    );
}
