use netsentry::status::{
    history_snapshot, initial_status, record_check, recovery_detail, DisconnectRecord,
    NetworkStatus, Observation, PersistedHistory, Transition, MAX_HISTORY,
};

const SEC: u64 = 1_000_000_000;

fn obs(adapter_ok: bool, ping_ok: bool, text: &str, nanos: u64) -> Observation {
    Observation { adapter_ok, ping_ok, now_text: text.to_string(), now_nanos: nanos }
}

fn fresh() -> NetworkStatus {
    initial_status("start".to_string(), PersistedHistory::default())
}

#[test]
fn initial_status_is_online_with_saved_statistics() {
    let saved = PersistedHistory {
        disconnect_count: 3,
        disconnect_history: vec![DisconnectRecord { start: "a".to_string(), end: Some("b".to_string()), duration_secs: Some(5) }],
    };
    let s = initial_status("now".to_string(), saved);
    assert!(s.is_online && s.adapter_status && s.ping_success);
    assert_eq!(s.last_check, "now");
    assert_eq!(s.disconnect_count, 3);
    assert_eq!(s.current_disconnect_duration, None);
    assert_eq!(s.disconnect_history.len(), 1);
}

#[test]
fn staying_online_changes_only_the_check() {
    let mut s = fresh();
    let mut started = None;
    let t = record_check(&mut s, &mut started, obs(true, true, "t1", 5 * SEC));
    assert_eq!(t, Transition::Unchanged);
    assert_eq!(s.last_check, "t1");
    assert_eq!(s.disconnect_count, 0);
    assert!(s.disconnect_history.is_empty());
    assert_eq!(started, None);
}

#[test]
fn going_offline_opens_a_record() {
    let mut s = fresh();
    let mut started = None;
    let t = record_check(&mut s, &mut started, obs(true, false, "t1", 10 * SEC));
    assert_eq!(t, Transition::WentOffline);
    assert!(!s.is_online);
    assert!(s.adapter_status);
    assert!(!s.ping_success);
    assert_eq!(s.disconnect_count, 1);
    assert_eq!(s.current_disconnect_duration, Some(0));
    assert_eq!(s.disconnect_history.len(), 1);
    assert_eq!(s.disconnect_history[0].start, "t1");
    assert_eq!(s.disconnect_history[0].end, None);
    assert_eq!(started, Some(10 * SEC));
}

#[test]
fn staying_offline_updates_duration() {
    let mut s = fresh();
    let mut started = None;
    record_check(&mut s, &mut started, obs(false, false, "t1", 10 * SEC));
    let t = record_check(&mut s, &mut started, obs(false, true, "t2", 17 * SEC + 999));
    assert_eq!(t, Transition::Unchanged);
    assert_eq!(s.current_disconnect_duration, Some(7));
    assert_eq!(s.disconnect_count, 1);
    assert_eq!(s.disconnect_history.len(), 1);
}

#[test]
fn coming_back_closes_the_record() {
    let mut s = fresh();
    let mut started = None;
    record_check(&mut s, &mut started, obs(false, true, "t1", 10 * SEC));
    let t = record_check(&mut s, &mut started, obs(true, true, "t2", 25 * SEC + 500));
    assert_eq!(t, Transition::CameOnline(Some(15)));
    assert!(s.is_online);
    assert_eq!(s.current_disconnect_duration, None);
    assert_eq!(s.disconnect_history[0].end.as_deref(), Some("t2"));
    assert_eq!(s.disconnect_history[0].duration_secs, Some(15));
    assert_eq!(started, None);
    assert_eq!(recovery_detail(15), "15s");
}

#[test]
fn coming_back_without_known_start() {
    let mut s = fresh();
    s.is_online = false;
    s.disconnect_history.push(DisconnectRecord { start: "old".to_string(), end: None, duration_secs: None });
    let mut started = None;
    let t = record_check(&mut s, &mut started, obs(true, true, "t9", 3));
    assert_eq!(t, Transition::CameOnline(None));
    assert_eq!(s.disconnect_history[0].end.as_deref(), Some("t9"));
    assert_eq!(s.disconnect_history[0].duration_secs, None);
    assert_eq!(s.current_disconnect_duration, None);
}

#[test]
fn coming_back_with_empty_history() {
    let mut s = fresh();
    s.is_online = false;
    let mut started = None;
    let t = record_check(&mut s, &mut started, obs(true, true, "t", 3));
    assert_eq!(t, Transition::CameOnline(None));
    assert!(s.disconnect_history.is_empty());
}

#[test]
fn history_keeps_newest_records() {
    let mut s = fresh();
    for i in 0..(MAX_HISTORY + 5) {
        s.disconnect_history.push(DisconnectRecord { start: format!("{}", i), end: None, duration_secs: None });
    }
    let mut started = None;
    record_check(&mut s, &mut started, obs(false, false, "new", 1));
    assert_eq!(s.disconnect_history.len(), MAX_HISTORY);
    assert_eq!(s.disconnect_history[MAX_HISTORY - 1].start, "new");
    assert_eq!(s.disconnect_history[0].start, "6");
}

#[test]
fn count_saturates() {
    let mut s = fresh();
    s.disconnect_count = u32::MAX;
    let mut started = None;
    record_check(&mut s, &mut started, obs(false, false, "x", 1));
    assert_eq!(s.disconnect_count, u32::MAX);
}

#[test]
fn clock_going_back_counts_zero() {
    let mut s = fresh();
    let mut started = Some(100 * SEC);
    s.is_online = false;
    record_check(&mut s, &mut started, obs(false, false, "x", 5));
    assert_eq!(s.current_disconnect_duration, Some(0));
}

#[test]
fn snapshot_copies_statistics() {
    let mut s = fresh();
    let mut started = None;
    record_check(&mut s, &mut started, obs(false, false, "t1", 1));
    let snap = history_snapshot(&s);
    assert_eq!(snap.disconnect_count, 1);
    assert_eq!(snap.disconnect_history.len(), 1);
    assert_eq!(snap.disconnect_history[0].start, "t1");
}

#[test]
fn recovery_detail_formats() {
    assert_eq!(recovery_detail(0), "0s");
    assert_eq!(recovery_detail(10), "10s");
    assert_eq!(recovery_detail(u64::MAX), format!("{}s", u64::MAX));
}
