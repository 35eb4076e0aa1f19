//! The network status and what each periodic check does to it.
//!
//! The monitor loop checks the network every few seconds. What it then records is decided
//! here, from the status before the check and what the check observed; the loop itself
//! (waiting, checking, logging, saving, notifying) is the application's.
use vstd::prelude::*;

use crate::text::{decimal, decimal_chars, string_from_chars};

verus! {

broadcast use vstd::string::group_string_axioms;

/// At most this many disconnections are kept; the oldest are dropped first.
pub const MAX_HISTORY: usize = 500;

/// Nanoseconds per second.
pub const NANOS_PER_SEC: u64 = 1_000_000_000;

/// One disconnection: when it began, and when and after how long it ended.
#[derive(Debug, Clone)]
pub struct DisconnectRecord {
    pub start: String,
    pub end: Option<String>,
    pub duration_secs: Option<u64>,
}

/// The mathematical value of a `DisconnectRecord`.
pub struct DisconnectRecordView {
    pub start: Seq<char>,
    pub end: Option<Seq<char>>,
    pub duration_secs: Option<u64>,
}

/// The value of an optional string.
pub open spec fn opt_view(s: Option<String>) -> Option<Seq<char>> {
    match s {
        Some(x) => Some(x@),
        None => None,
    }
}

impl View for DisconnectRecord {
    type V = DisconnectRecordView;

    open spec fn view(&self) -> DisconnectRecordView {
        DisconnectRecordView {
            start: self.start@,
            end: opt_view(self.end),
            duration_secs: self.duration_secs,
        }
    }
}

/// The values of some disconnection records.
pub open spec fn records_view(v: Seq<DisconnectRecord>) -> Seq<DisconnectRecordView> {
    v.map_values(|r: DisconnectRecord| r@)
}

/// The state of the network as last checked, with the disconnection history.
#[derive(Debug, Clone)]
pub struct NetworkStatus {
    pub is_online: bool,
    pub adapter_status: bool,
    pub ping_success: bool,
    pub last_check: String,
    pub disconnect_count: u32,
    /// How long the current disconnection has lasted, in seconds; `None` while online.
    pub current_disconnect_duration: Option<u64>,
    pub disconnect_history: Vec<DisconnectRecord>,
}

/// The mathematical value of a `NetworkStatus`.
pub struct NetworkStatusView {
    pub is_online: bool,
    pub adapter_status: bool,
    pub ping_success: bool,
    pub last_check: Seq<char>,
    pub disconnect_count: u32,
    pub current_disconnect_duration: Option<u64>,
    pub disconnect_history: Seq<DisconnectRecordView>,
}

impl View for NetworkStatus {
    type V = NetworkStatusView;

    open spec fn view(&self) -> NetworkStatusView {
        NetworkStatusView {
            is_online: self.is_online,
            adapter_status: self.adapter_status,
            ping_success: self.ping_success,
            last_check: self.last_check@,
            disconnect_count: self.disconnect_count,
            current_disconnect_duration: self.current_disconnect_duration,
            disconnect_history: records_view(self.disconnect_history@),
        }
    }
}

/// The disconnection statistics that are saved, so that a restart carries them on.
#[derive(Debug, Clone, Default)]
pub struct PersistedHistory {
    pub disconnect_count: u32,
    pub disconnect_history: Vec<DisconnectRecord>,
}

/// What one check of the network observed.
pub struct Observation {
    /// Some network adapter has a usable IPv4 address.
    pub adapter_ok: bool,
    /// Some ping target answered.
    pub ping_ok: bool,
    /// The local time of the check, as shown to the user.
    pub now_text: String,
    /// A monotonic clock reading at the check, in nanoseconds.
    pub now_nanos: u64,
}

/// The mathematical value of an `Observation`.
pub struct ObservationView {
    pub adapter_ok: bool,
    pub ping_ok: bool,
    pub now_text: Seq<char>,
    pub now_nanos: u64,
}

impl View for Observation {
    type V = ObservationView;

    open spec fn view(&self) -> ObservationView {
        ObservationView {
            adapter_ok: self.adapter_ok,
            ping_ok: self.ping_ok,
            now_text: self.now_text@,
            now_nanos: self.now_nanos,
        }
    }
}

/// What a check changed, for the monitor loop to log and save.
#[derive(Debug, Clone, Copy, PartialEq, Eq)]
pub enum Transition {
    /// Online and offline stayed as they were.
    Unchanged,
    /// The network was online before the check and is offline now.
    WentOffline,
    /// The network was offline before the check and is online now; with the length of
    /// the disconnection in seconds when its start was seen.
    CameOnline(Option<u64>),
}

/// The network counts as online when an adapter has a usable address and a ping answered.
pub open spec fn online(obs: ObservationView) -> bool {
    obs.adapter_ok && obs.ping_ok
}

/// Whole seconds from `start` to `now` on the monotonic clock (zero if `now` is earlier).
pub open spec fn elapsed_secs(start: u64, now: u64) -> u64 {
    if now >= start {
        ((now - start) / (NANOS_PER_SEC as int)) as u64
    } else {
        0
    }
}

/// The newest `MAX_HISTORY` records of `h`.
pub open spec fn keep_newest(h: Seq<DisconnectRecordView>) -> Seq<DisconnectRecordView> {
    if h.len() > MAX_HISTORY {
        h.subrange(h.len() - MAX_HISTORY, h.len() as int)
    } else {
        h
    }
}

/// `h` with its last record closed at `end`, after `duration` if that is known.
pub open spec fn close_last(
    h: Seq<DisconnectRecordView>,
    end: Seq<char>,
    duration: Option<u64>,
) -> Seq<DisconnectRecordView> {
    if h.len() == 0 {
        h
    } else {
        let last = h.last();
        h.update(
            h.len() - 1,
            DisconnectRecordView {
                end: Some(end),
                duration_secs: match duration {
                    Some(d) => Some(d),
                    None => last.duration_secs,
                },
                ..last
            },
        )
    }
}

/// What a check does: the status after it, when the current disconnection began on the
/// monotonic clock, and what changed.
///
/// The check's results and time are recorded. When the network goes offline, a new open
/// record is added (the oldest dropped beyond `MAX_HISTORY`), the count goes up by one
/// (saturating), and the current disconnection lasts zero seconds. When it comes back, the
/// last record is closed, with its length when the start is known, and there is no current
/// disconnection any more. While it stays offline, the current disconnection's length is
/// brought up to date.
pub open spec fn check_step(
    s: NetworkStatusView,
    started: Option<u64>,
    obs: ObservationView,
) -> (NetworkStatusView, Option<u64>, Transition) {
    let is_online = online(obs);
    let base = NetworkStatusView {
        is_online,
        adapter_status: obs.adapter_ok,
        ping_success: obs.ping_ok,
        last_check: obs.now_text,
        ..s
    };
    if !is_online && s.is_online {
        let record = DisconnectRecordView { start: obs.now_text, end: None, duration_secs: None };
        (
            NetworkStatusView {
                disconnect_history: keep_newest(s.disconnect_history.push(record)),
                disconnect_count: if s.disconnect_count == u32::MAX {
                    u32::MAX
                } else {
                    (s.disconnect_count + 1) as u32
                },
                current_disconnect_duration: Some(0),
                ..base
            },
            match started {
                Some(t) => Some(t),
                None => Some(obs.now_nanos),
            },
            Transition::WentOffline,
        )
    } else if is_online && !s.is_online {
        let d = match started {
            Some(t) => Some(elapsed_secs(t, obs.now_nanos)),
            None => None,
        };
        (
            NetworkStatusView {
                disconnect_history: close_last(s.disconnect_history, obs.now_text, d),
                current_disconnect_duration: None,
                ..base
            },
            None,
            Transition::CameOnline(d),
        )
    } else if !is_online {
        (
            NetworkStatusView {
                current_disconnect_duration: match started {
                    Some(t) => Some(elapsed_secs(t, obs.now_nanos)),
                    None => s.current_disconnect_duration,
                },
                ..base
            },
            started,
            Transition::Unchanged,
        )
    } else {
        (base, started, Transition::Unchanged)
    }
}

fn copy_opt_string(s: &Option<String>) -> (r: Option<String>)
    ensures
        opt_view(r) == opt_view(*s),
{
    match s {
        Some(x) => Some(x.clone()),
        None => None,
    }
}

impl DisconnectRecord {
    /// A copy of this record.
    pub fn copy(&self) -> (r: DisconnectRecord)
        ensures
            r@ == self@,
    {
        DisconnectRecord {
            start: self.start.clone(),
            end: copy_opt_string(&self.end),
            duration_secs: self.duration_secs,
        }
    }
}

/// A copy of a disconnection history.
pub fn copy_history(h: &Vec<DisconnectRecord>) -> (r: Vec<DisconnectRecord>)
    ensures
        records_view(r@) == records_view(h@),
{
    let mut r: Vec<DisconnectRecord> = Vec::new();
    let mut i: usize = 0;
    while i < h.len()
        invariant
            i <= h.len(),
            r.len() == i,
            forall|j: int| 0 <= j < i ==> #[trigger] r@[j]@ == h@[j]@,
        decreases h.len() - i,
    {
        let c = h[i].copy();
        r.push(c);
        i = i + 1;
    }
    assert(records_view(r@) =~= records_view(h@));
    r
}

/// The statistics that are saved for the status `s`.
pub fn history_snapshot(s: &NetworkStatus) -> (r: PersistedHistory)
    ensures
        r.disconnect_count == s.disconnect_count,
        records_view(r.disconnect_history@) == s@.disconnect_history,
{
    PersistedHistory {
        disconnect_count: s.disconnect_count,
        disconnect_history: copy_history(&s.disconnect_history),
    }
}

/// The status at start-up: assumed online until the first check says otherwise, with the
/// saved statistics carried on.
pub fn initial_status(now_text: String, saved: PersistedHistory) -> (r: NetworkStatus)
    ensures
        r@ == (NetworkStatusView {
            is_online: true,
            adapter_status: true,
            ping_success: true,
            last_check: now_text@,
            disconnect_count: saved.disconnect_count,
            current_disconnect_duration: None,
            disconnect_history: records_view(saved.disconnect_history@),
        }),
{
    NetworkStatus {
        is_online: true,
        adapter_status: true,
        ping_success: true,
        last_check: now_text,
        disconnect_count: saved.disconnect_count,
        current_disconnect_duration: None,
        disconnect_history: saved.disconnect_history,
    }
}

fn elapsed(start: u64, now: u64) -> (r: u64)
    ensures
        r == elapsed_secs(start, now),
{
    if now >= start {
        (now - start) / NANOS_PER_SEC
    } else {
        0
    }
}

/// Records the result of one check of the network in `status`, and when the current
/// disconnection began in `started`; says what changed.
pub fn record_check(
    status: &mut NetworkStatus,
    started: &mut Option<u64>,
    obs: Observation,
) -> (t: Transition)
    ensures
        (final(status)@, *final(started), t) == check_step(old(status)@, *old(started), obs@),
{
    let ghost s0 = status@;
    let ghost st0 = *started;
    let ghost o = obs@;
    let is_online = obs.adapter_ok && obs.ping_ok;
    let old_online = status.is_online;
    status.is_online = is_online;
    status.adapter_status = obs.adapter_ok;
    status.ping_success = obs.ping_ok;
    status.last_check = obs.now_text.clone();
    assert(records_view(status.disconnect_history@) == s0.disconnect_history);
    if !is_online && old_online {
        if started.is_none() {
            *started = Some(obs.now_nanos);
        }
        status.disconnect_history.push(
            DisconnectRecord { start: obs.now_text, end: None, duration_secs: None },
        );
        let ghost pushed = records_view(status.disconnect_history@);
        assert(pushed =~= s0.disconnect_history.push(
            DisconnectRecordView { start: o.now_text, end: None, duration_secs: None },
        ));
        let overflow = status.disconnect_history.len().saturating_sub(MAX_HISTORY);
        if overflow > 0 {
            let newest = status.disconnect_history.split_off(overflow);
            status.disconnect_history = newest;
        }
        assert(records_view(status.disconnect_history@) =~= keep_newest(pushed));
        status.disconnect_count = status.disconnect_count.saturating_add(1);
        status.current_disconnect_duration = Some(0);
        Transition::WentOffline
    } else if is_online && !old_online {
        let d = match started.take() {
            Some(t) => Some(elapsed(t, obs.now_nanos)),
            None => None,
        };
        match status.disconnect_history.pop() {
            Some(mut last) => {
                last.end = Some(obs.now_text);
                match d {
                    Some(x) => {
                        last.duration_secs = Some(x);
                    },
                    None => {},
                }
                status.disconnect_history.push(last);
            },
            None => {},
        }
        assert(records_view(status.disconnect_history@) =~= close_last(
            s0.disconnect_history,
            o.now_text,
            d,
        ));
        status.current_disconnect_duration = None;
        Transition::CameOnline(d)
    } else if !is_online {
        match *started {
            Some(t) => {
                status.current_disconnect_duration = Some(elapsed(t, obs.now_nanos));
            },
            None => {},
        }
        Transition::Unchanged
    } else {
        Transition::Unchanged
    }
}

/// The log detail of a recovery after `secs` seconds: `"<secs>s"`.
pub open spec fn recovery_detail_text(secs: u64) -> Seq<char> {
    decimal(secs as nat).push('s')
}

/// The log detail of a recovery after `secs` seconds.
pub fn recovery_detail(secs: u64) -> (r: String)
    ensures
        r@ == recovery_detail_text(secs),
{
    let mut v = decimal_chars(secs);
    v.push('s');
    string_from_chars(&v)
}

/// A check never lets the history grow past `MAX_HISTORY` records, and one that records a
/// new disconnection leaves at most `MAX_HISTORY` records, whatever was loaded before.
pub proof fn law_history_bounded(s: NetworkStatusView, started: Option<u64>, obs: ObservationView)
    ensures
        s.disconnect_history.len() <= MAX_HISTORY ==> check_step(
            s,
            started,
            obs,
        ).0.disconnect_history.len() <= MAX_HISTORY,
        check_step(s, started, obs).2 is WentOffline ==> check_step(
            s,
            started,
            obs,
        ).0.disconnect_history.len() <= MAX_HISTORY,
{
}

/// The disconnection count never goes down, and goes up by exactly one, short of its
/// maximum, when the network goes offline.
pub proof fn law_count_monotone(s: NetworkStatusView, started: Option<u64>, obs: ObservationView)
    ensures
        check_step(s, started, obs).0.disconnect_count >= s.disconnect_count,
        check_step(s, started, obs).2 is WentOffline && s.disconnect_count < u32::MAX
            ==> check_step(s, started, obs).0.disconnect_count == s.disconnect_count + 1,
        !(check_step(s, started, obs).2 is WentOffline) ==> check_step(
            s,
            started,
            obs,
        ).0.disconnect_count == s.disconnect_count,
{
}

/// The status shows what the last check saw, and a transition is reported exactly when
/// being online changed: offline when it was online before, online when it was offline.
/// A recovery leaves no current disconnection; a new one has lasted zero seconds.
pub proof fn law_transitions(s: NetworkStatusView, started: Option<u64>, obs: ObservationView)
    ensures
        check_step(s, started, obs).0.is_online == (obs.adapter_ok && obs.ping_ok),
        check_step(s, started, obs).0.adapter_status == obs.adapter_ok,
        check_step(s, started, obs).0.ping_success == obs.ping_ok,
        check_step(s, started, obs).0.last_check == obs.now_text,
        (check_step(s, started, obs).2 is WentOffline) == (s.is_online && !online(obs)),
        (check_step(s, started, obs).2 is CameOnline) == (!s.is_online && online(obs)),
        online(obs) && !s.is_online ==> check_step(
            s,
            started,
            obs,
        ).0.current_disconnect_duration is None,
        !online(obs) && s.is_online ==> check_step(s, started, obs).0.current_disconnect_duration
            == Some(0u64),
{
}

/// A disconnection seen from its start is recorded whole: when the network goes offline at
/// one check and is back at the next, the newest record starts at the first check's time,
/// ends at the second's, and lasts the whole seconds between them on the monotonic clock;
/// the recovery is reported with that length, and no disconnection is current any more.
pub proof fn law_disconnection_recorded(
    s: NetworkStatusView,
    down: ObservationView,
    up: ObservationView,
)
    requires
        s.is_online,
        !online(down),
        online(up),
    ensures
        ({
            let (s1, st1, t1) = check_step(s, None, down);
            let (s2, st2, t2) = check_step(s1, st1, up);
            let d = elapsed_secs(down.now_nanos, up.now_nanos);
            &&& t1 is WentOffline
            &&& t2 == Transition::CameOnline(Some(d))
            &&& st2 is None
            &&& s2.current_disconnect_duration is None
            &&& s2.disconnect_history.len() > 0
            &&& s2.disconnect_history.last() == (DisconnectRecordView {
                start: down.now_text,
                end: Some(up.now_text),
                duration_secs: Some(d),
            })
        }),
{
    let (s1, st1, t1) = check_step(s, None, down);
    let h = s.disconnect_history.push(
        DisconnectRecordView { start: down.now_text, end: None, duration_secs: None },
    );
    assert(keep_newest(h).last() == h.last());
}

/// The disconnection history changes only when being online changes: a check that finds
/// the network as online or as offline as before leaves every record as it was. A check
/// that finds it online again after being online only updates the check's own results.
pub proof fn law_history_changes_only_on_transitions(
    s: NetworkStatusView,
    started: Option<u64>,
    obs: ObservationView,
)
    ensures
        s.is_online == (obs.adapter_ok && obs.ping_ok) ==> check_step(
            s,
            started,
            obs,
        ).0.disconnect_history == s.disconnect_history,
        s.is_online == (obs.adapter_ok && obs.ping_ok) ==> check_step(
            s,
            started,
            obs,
        ).0.disconnect_count == s.disconnect_count,
        s.is_online == (obs.adapter_ok && obs.ping_ok) ==> check_step(s, started, obs).2
            == Transition::Unchanged,
        s.is_online && obs.adapter_ok && obs.ping_ok ==> check_step(s, started, obs) == (
            NetworkStatusView {
                is_online: true,
                adapter_status: true,
                ping_success: true,
                last_check: obs.now_text,
                ..s
            },
            started,
            Transition::Unchanged,
        ),
{
}

/// A check that finds the network gone adds one open record that starts at the check's
/// time, after the records that were there, of which only the oldest beyond 500 are
/// dropped.
pub proof fn law_disconnect_opens_record(
    s: NetworkStatusView,
    started: Option<u64>,
    obs: ObservationView,
)
    requires
        s.is_online,
        !(obs.adapter_ok && obs.ping_ok),
    ensures
        ({
            let old = s.disconnect_history;
            let h = check_step(s, started, obs).0.disconnect_history;
            let n = if old.len() + 1 > 500 {
                500
            } else {
                old.len() + 1
            };
            &&& h.len() == n
            &&& h[h.len() - 1] == (DisconnectRecordView {
                start: obs.now_text,
                end: None,
                duration_secs: None,
            })
            &&& forall|i: int| 0 <= i < h.len() - 1 ==> h[i] == old[old.len() + 1 - n + i]
        }),
{
    let old = s.disconnect_history;
    let rec = DisconnectRecordView { start: obs.now_text, end: None, duration_secs: None };
    let pushed = old.push(rec);
    let h = check_step(s, started, obs).0.disconnect_history;
    assert(h == keep_newest(pushed));
    let n = if old.len() + 1 > 500 {
        500
    } else {
        old.len() + 1
    };
    assert forall|i: int| 0 <= i < h.len() - 1 implies h[i] == old[old.len() + 1 - n + i] by {
        assert(h[i] == pushed[old.len() + 1 - n + i]);
    }
}

/// A check that finds the network back after being offline keeps every record but the
/// last as it was, and closes the last one at the check's time without moving its start.
pub proof fn law_recovery_closes_last_record(
    s: NetworkStatusView,
    started: Option<u64>,
    obs: ObservationView,
)
    requires
        !s.is_online,
        obs.adapter_ok && obs.ping_ok,
    ensures
        ({
            let old = s.disconnect_history;
            let h = check_step(s, started, obs).0.disconnect_history;
            &&& h.len() == old.len()
            &&& forall|i: int| 0 <= i < old.len() - 1 ==> h[i] == old[i]
            &&& old.len() > 0 ==> h[h.len() - 1].start == old[old.len() - 1].start
                && h[h.len() - 1].end == Some(obs.now_text)
            &&& old.len() > 0 && started is Some ==> h[h.len() - 1].duration_secs == Some(
                elapsed_secs(started->0, obs.now_nanos),
            )
            &&& check_step(s, started, obs).0.disconnect_count == s.disconnect_count
        }),
{
}

/// `elapsed_secs` is the whole number of seconds in the time between two clock readings.
pub proof fn law_elapsed_whole_seconds(start: u64, now: u64)
    ensures
        now >= start ==> elapsed_secs(start, now) * 1_000_000_000 <= now - start < (
        elapsed_secs(start, now) + 1) * 1_000_000_000,
        now < start ==> elapsed_secs(start, now) == 0,
{
}

/// While the network stays offline, the current disconnection's length is brought up to
/// the seconds since it began, when that start is known, and left as it was otherwise.
pub proof fn law_offline_duration_updates(s: NetworkStatusView, started: Option<u64>, obs: ObservationView)
    requires
        !s.is_online,
        !(obs.adapter_ok && obs.ping_ok),
    ensures
        check_step(s, started, obs).0.current_disconnect_duration == match started {
            Some(t) => Some(elapsed_secs(t, obs.now_nanos)),
            None => s.current_disconnect_duration,
        },
        check_step(s, started, obs).1 == started,
{
}

} // verus!
