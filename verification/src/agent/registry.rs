//! Device registry and state tracking.
//!
//! Times are nanoseconds on the monotonic clock, counted from the moment the
//! registry was created. A device is online while it was last heard from less
//! than the timeout ago, unless a failed poll has marked it offline since.

use super::keyed::KeyedList;
use crate::messaging::{DeviceType, TelemetryMessage};
use vstd::prelude::*;
use vstd::string::*;

verus! {

#[verifier::external_type_specification]
#[verifier::external_body]
pub struct ExInstant(std::time::Instant);

/// Reads the monotonic clock with `std::time::Instant::now`.
/// Nothing is claimed of the reading: it depends on the time of the call.
#[verifier::external_body]
fn clock_now() -> (t: std::time::Instant) {
    std::time::Instant::now()
}

/// Time elapsed since `origin`, read with `std::time::Instant::elapsed`.
/// Nothing is claimed of the result: it depends on the time of the call.
#[verifier::external_body]
fn elapsed_since(origin: &std::time::Instant) -> (d: std::time::Duration) {
    origin.elapsed()
}

/// A duration in whole nanoseconds, with `std::time::Duration::as_nanos`.
/// Nothing is claimed of the result.
#[verifier::external_body]
fn duration_nanos(d: &std::time::Duration) -> (n: u128) {
    d.as_nanos()
}

/// Nanoseconds elapsed since `origin` on the monotonic clock.
fn nanos_since(origin: &std::time::Instant) -> (n: u128) {
    let elapsed = elapsed_since(origin);
    duration_nanos(&elapsed)
}

/// Device state tracked by the edge agent.
#[derive(Debug, Clone)]
pub struct DeviceState {
    pub device_id: String,
    pub device_type: DeviceType,
    /// When the device was last heard from (nanoseconds since the registry's creation).
    pub last_seen: u128,
    /// Bit pattern of the last reading (`f64::to_bits`).
    pub last_value_bits: Option<u64>,
    /// A poll of the device failed after it was last heard from.
    pub marked_offline: bool,
}

/// Time elapsed from `since` to `now`; zero when `now` lies before `since`
/// (as `Instant::elapsed` saturates).
pub open spec fn spec_elapsed(now: u128, since: u128) -> int {
    if now >= since {
        now - since
    } else {
        0
    }
}

/// The state of a device after a telemetry message at time `now`.
///
/// A known device keeps its id and type and gets the new time and reading; an
/// unknown one is recorded with the message's id and type. Either way the
/// device is no longer marked offline.
pub open spec fn spec_state_after(
    known: Map<Seq<char>, DeviceState>,
    msg: TelemetryMessage,
    now: u128,
) -> DeviceState {
    if known.dom().contains(msg.device_id@) {
        DeviceState {
            last_seen: now,
            last_value_bits: Some(msg.value_bits),
            marked_offline: false,
            ..known[msg.device_id@]
        }
    } else {
        DeviceState {
            device_id: msg.device_id,
            device_type: msg.device_type,
            last_seen: now,
            last_value_bits: Some(msg.value_bits),
            marked_offline: false,
        }
    }
}

/// The known devices after a telemetry message at time `now`.
pub open spec fn spec_after_report(
    known: Map<Seq<char>, DeviceState>,
    msg: TelemetryMessage,
    now: u128,
) -> Map<Seq<char>, DeviceState> {
    known.insert(msg.device_id@, spec_state_after(known, msg, now))
}

/// The known devices after a failed poll of `device_id`: a known device is
/// marked offline, and nothing else changes.
pub open spec fn spec_after_poll_failure(
    known: Map<Seq<char>, DeviceState>,
    device_id: Seq<char>,
) -> Map<Seq<char>, DeviceState> {
    if known.dom().contains(device_id) {
        known.insert(device_id, DeviceState { marked_offline: true, ..known[device_id] })
    } else {
        known
    }
}

/// Every state is filed under its own id and holds a reading.
pub open spec fn spec_consistent(known: Map<Seq<char>, DeviceState>) -> bool {
    &&& known.dom().finite()
    &&& forall|k: Seq<char>| #[trigger]
        known.dom().contains(k) ==> known[k].device_id@ == k && known[k].last_value_bits is Some
}

/// No device was last seen after time `clock`.
pub open spec fn spec_seen_by(known: Map<Seq<char>, DeviceState>, clock: int) -> bool {
    forall|k: Seq<char>| #[trigger] known.dom().contains(k) ==> known[k].last_seen <= clock
}

/// Whether, among `known` devices with offline timeout `timeout`, device
/// `device_id` is known, not marked offline, and was last seen less than the
/// timeout before `now`.
pub open spec fn spec_online(
    known: Map<Seq<char>, DeviceState>,
    timeout: int,
    device_id: Seq<char>,
    now: u128,
) -> bool {
    &&& known.dom().contains(device_id)
    &&& !known[device_id].marked_offline
    &&& spec_elapsed(now, known[device_id].last_seen) < timeout
}

/// A device that reports telemetry is online at that moment (when the
/// timeout is positive), stays online until the timeout has passed since the
/// report, and is offline from then until it reports again.
pub proof fn lemma_report_then_timeout(
    known: Map<Seq<char>, DeviceState>,
    timeout: int,
    msg: TelemetryMessage,
    now: u128,
    later: u128,
)
    requires
        now <= later,
    ensures
        ({
            let after = spec_after_report(known, msg, now);
            &&& spec_online(after, timeout, msg.device_id@, now) == (timeout > 0)
            &&& spec_online(after, timeout, msg.device_id@, later) == (later - now < timeout)
        }),
{
}

/// A failed poll makes a device offline at every time, and leaves every
/// other device as it was; its next report makes it online again.
pub proof fn lemma_poll_failure_then_report(
    known: Map<Seq<char>, DeviceState>,
    timeout: int,
    device_id: Seq<char>,
    msg: TelemetryMessage,
    now: u128,
)
    requires
        timeout > 0,
        msg.device_id@ == device_id,
    ensures
        ({
            let failed = spec_after_poll_failure(known, device_id);
            &&& forall|t: u128| !#[trigger] spec_online(failed, timeout, device_id, t)
            &&& forall|k: Seq<char>, t: u128|
                k != device_id ==> #[trigger] spec_online(failed, timeout, k, t) == spec_online(
                    known,
                    timeout,
                    k,
                    t,
                )
            &&& failed.dom() == known.dom()
            &&& spec_online(spec_after_report(failed, msg, now), timeout, device_id, now)
        }),
{
    let failed = spec_after_poll_failure(known, device_id);
    if known.dom().contains(device_id) {
        assert(failed.dom() =~= known.dom());
    }
}

/// The first report of a device adds it with the reported type; later
/// reports keep that type and id, and every report records its value and
/// time. Only a first report adds a device to the count.
pub proof fn lemma_report_effect(known: Map<Seq<char>, DeviceState>, msg: TelemetryMessage, now: u128)
    requires
        known.dom().finite(),
    ensures
        ({
            let state = spec_state_after(known, msg, now);
            let after = spec_after_report(known, msg, now);
            &&& after.dom().contains(msg.device_id@)
            &&& state.last_seen == now
            &&& state.last_value_bits == Some(msg.value_bits)
            &&& known.dom().contains(msg.device_id@) ==> state.device_type
                == known[msg.device_id@].device_type && state.device_id
                == known[msg.device_id@].device_id && after.len() == known.len()
            &&& !known.dom().contains(msg.device_id@) ==> state.device_type == msg.device_type
                && after.len() == known.len() + 1
            &&& forall|k: Seq<char>|
                k != msg.device_id@ ==> (after.dom().contains(k) == known.dom().contains(k)
                    && (known.dom().contains(k) ==> #[trigger] after[k] == known[k]))
        }),
{
    let after = spec_after_report(known, msg, now);
    if known.dom().contains(msg.device_id@) {
        assert(after.dom() =~= known.dom());
    } else {
        assert(after.dom() =~= known.dom().insert(msg.device_id@));
    }
}

/// The known devices after the reports `msgs`, the `i`-th received at `times[i]`.
pub open spec fn spec_after_reports(
    known: Map<Seq<char>, DeviceState>,
    msgs: Seq<TelemetryMessage>,
    times: Seq<u128>,
) -> Map<Seq<char>, DeviceState>
    decreases msgs.len(),
{
    if msgs.len() == 0 {
        known
    } else {
        spec_after_report(
            spec_after_reports(known, msgs.drop_last(), times.drop_last()),
            msgs.last(),
            times[msgs.len() - 1],
        )
    }
}

/// The ids that the reports `msgs` carry.
pub open spec fn spec_reported_ids(msgs: Seq<TelemetryMessage>) -> Set<Seq<char>> {
    Set::new(|k: Seq<char>| exists|i: int| 0 <= i < msgs.len() && #[trigger] msgs[i].device_id@ == k)
}

/// The position of the latest report from device `k`, or -1 if there is none.
pub open spec fn spec_latest_report(msgs: Seq<TelemetryMessage>, k: Seq<char>) -> int
    decreases msgs.len(),
{
    if msgs.len() == 0 {
        -1
    } else if msgs.last().device_id@ == k {
        msgs.len() - 1
    } else {
        spec_latest_report(msgs.drop_last(), k)
    }
}

/// Starting from an empty registry, a run of reports leaves exactly the
/// reporting devices known, as many as there are distinct ids among the
/// reports; each is filed under its own id, with the time and reading of its
/// latest report and not marked offline.
pub proof fn lemma_reports_from_empty(msgs: Seq<TelemetryMessage>, times: Seq<u128>)
    requires
        times.len() == msgs.len(),
    ensures
        ({
            let known = spec_after_reports(Map::empty(), msgs, times);
            &&& known.dom() == spec_reported_ids(msgs)
            &&& known.dom().finite()
            &&& known.len() == spec_reported_ids(msgs).len()
            &&& spec_consistent(known)
            &&& forall|k: Seq<char>| #[trigger]
                known.dom().contains(k) ==> {
                    let i = spec_latest_report(msgs, k);
                    &&& 0 <= i < msgs.len()
                    &&& msgs[i].device_id@ == k
                    &&& known[k].last_seen == times[i]
                    &&& known[k].last_value_bits == Some(msgs[i].value_bits)
                    &&& !known[k].marked_offline
                }
        }),
    decreases msgs.len(),
{
    let known = spec_after_reports(Map::empty(), msgs, times);
    if msgs.len() == 0 {
        assert(known.dom() =~= spec_reported_ids(msgs));
    } else {
        let prev_msgs = msgs.drop_last();
        let prev_times = times.drop_last();
        lemma_reports_from_empty(prev_msgs, prev_times);
        let prev = spec_after_reports(Map::empty(), prev_msgs, prev_times);
        let m = msgs.last();
        assert(known == spec_after_report(prev, m, times[msgs.len() - 1]));
        assert forall|k: Seq<char>| known.dom().contains(k) <==> spec_reported_ids(msgs).contains(k) by {
            if spec_reported_ids(msgs).contains(k) {
                let i = choose|i: int| 0 <= i < msgs.len() && #[trigger] msgs[i].device_id@ == k;
                if i < msgs.len() - 1 {
                    assert(prev_msgs[i].device_id@ == k);
                    assert(spec_reported_ids(prev_msgs).contains(k));
                }
            }
            if prev.dom().contains(k) {
                assert(spec_reported_ids(prev_msgs).contains(k));
                let i = choose|i: int|
                    0 <= i < prev_msgs.len() && #[trigger] prev_msgs[i].device_id@ == k;
                assert(msgs[i].device_id@ == k);
            }
            if k == m.device_id@ {
                assert(msgs[msgs.len() - 1].device_id@ == k);
            }
        }
        assert(known.dom() =~= spec_reported_ids(msgs));
        assert forall|k: Seq<char>| #[trigger] known.dom().contains(k) implies {
            let i = spec_latest_report(msgs, k);
            &&& 0 <= i < msgs.len()
            &&& msgs[i].device_id@ == k
            &&& known[k].last_seen == times[i]
            &&& known[k].last_value_bits == Some(msgs[i].value_bits)
            &&& !known[k].marked_offline
        } by {
            if k != m.device_id@ {
                assert(prev.dom().contains(k));
                let i = spec_latest_report(prev_msgs, k);
                assert(spec_latest_report(msgs, k) == i);
                assert(msgs[i] == prev_msgs[i]);
                assert(times[i] == prev_times[i]);
            }
        }
    }
}

/// Registry of known devices and their states.
///
/// # Behavior
///
/// - Devices are added on first telemetry message
/// - Last-seen timestamp updated on each message
/// - Devices considered offline after configured timeout, or once a poll
///   has failed since they were last heard from
pub struct DeviceRegistry {
    devices: KeyedList<DeviceState>,
    timeout_nanos: u128,
    origin: std::time::Instant,
    /// The latest time the registry has read from the clock or been given.
    clock: u128,
}

impl View for DeviceRegistry {
    type V = Map<Seq<char>, DeviceState>;

    /// The known devices, by id.
    closed spec fn view(&self) -> Map<Seq<char>, DeviceState> {
        self.devices.view()
    }
}

impl DeviceRegistry {
    /// The offline timeout, in nanoseconds.
    pub closed spec fn spec_timeout_nanos(&self) -> int {
        self.timeout_nanos as int
    }

    /// The latest time the registry has read from the clock or been given
    /// (nanoseconds since its creation). Clock readings earlier than this are
    /// raised to it, so time stamps never go backwards.
    pub closed spec fn spec_clock(&self) -> int {
        self.clock as int
    }

    /// Internal consistency: ids are distinct, each state is filed under its
    /// own id and holds a reading.
    #[verifier::type_invariant]
    closed spec fn wf(&self) -> bool {
        &&& self.devices.wf()
        &&& forall|k: Seq<char>| #[trigger]
            self.devices.view().dom().contains(k) ==> self.devices.view()[k].device_id@ == k
                && self.devices.view()[k].last_value_bits is Some
                && self.devices.view()[k].last_seen <= self.clock
    }

    /// The invariant, as it reads on the view.
    proof fn lemma_consistent(&self)
        requires
            self.wf(),
        ensures
            spec_consistent(self@),
            spec_seen_by(self@, self.spec_clock()),
    {
        self.devices.lemma_view();
    }

    /// Whether a device is known, not marked offline, and was last seen less
    /// than the timeout before `now`.
    pub open spec fn spec_is_online_at(&self, device_id: Seq<char>, now: u128) -> bool {
        spec_online(self@, self.spec_timeout_nanos(), device_id, now)
    }

    /// Create a new device registry whose devices go offline `timeout_nanos`
    /// nanoseconds after they were last seen.
    pub fn new(timeout_nanos: u128) -> (registry: Self)
        ensures
            registry@ == Map::<Seq<char>, DeviceState>::empty(),
            registry.spec_timeout_nanos() == timeout_nanos,
            registry.spec_clock() == 0,
            spec_consistent(registry@),
    {
        let registry = DeviceRegistry {
            devices: KeyedList::new(),
            timeout_nanos,
            origin: clock_now(),
            clock: 0,
        };
        proof {
            registry.lemma_consistent();
        }
        registry
    }

    /// Update registry with a telemetry message received at time `now`
    /// (nanoseconds since the registry's creation).
    ///
    /// Adds the device if not present; otherwise keeps its id and type and
    /// updates last-seen and value.
    pub fn update_at(&mut self, msg: &TelemetryMessage, now: u128)
        ensures
            final(self).spec_timeout_nanos() == old(self).spec_timeout_nanos(),
            final(self)@ == spec_after_report(old(self)@, *msg, now),
            final(self).spec_clock() == if now > old(self).spec_clock() {
                now as int
            } else {
                old(self).spec_clock()
            },
            spec_consistent(final(self)@),
            spec_seen_by(final(self)@, final(self).spec_clock()),
    {
        proof {
            use_type_invariant(&*self);
        }
        if now > self.clock {
            self.clock = now;
        }
        let state = match self.devices.get(msg.device_id.as_str()) {
            Some(known) => DeviceState {
                device_id: known.device_id.clone(),
                device_type: known.device_type,
                last_seen: now,
                last_value_bits: Some(msg.value_bits),
                marked_offline: false,
            },
            None => DeviceState {
                device_id: msg.device_id.clone(),
                device_type: msg.device_type,
                last_seen: now,
                last_value_bits: Some(msg.value_bits),
                marked_offline: false,
            },
        };
        let mut devices = KeyedList::new();
        std::mem::swap(&mut devices, &mut self.devices);
        devices.insert(msg.device_id.clone(), state);
        self.devices = devices;
        proof {
            use_type_invariant(&*self);
            self.lemma_consistent();
        }
    }

    /// The current time on the registry's clock: the clock reading, raised
    /// to the latest time already seen.
    fn now(&self) -> (now: u128)
        ensures
            now >= self.spec_clock(),
    {
        let reading = nanos_since(&self.origin);
        if reading < self.clock {
            self.clock
        } else {
            reading
        }
    }

    /// Update registry with telemetry message, stamped with the current time.
    ///
    /// Adds device if not present, updates last-seen and value. The stamp is
    /// no earlier than any time the registry has seen, so it is no earlier
    /// than the last-seen time of any device.
    pub fn update(&mut self, msg: &TelemetryMessage)
        ensures
            final(self).spec_timeout_nanos() == old(self).spec_timeout_nanos(),
            exists|now: u128|
                now >= old(self).spec_clock() && final(self).spec_clock() == now && final(self)@
                    == #[trigger] spec_after_report(old(self)@, *msg, now),
            forall|k: Seq<char>|
                old(self)@.dom().contains(k) ==> #[trigger] old(self)@[k].last_seen
                    <= final(self)@[msg.device_id@].last_seen,
            spec_consistent(final(self)@),
            spec_seen_by(final(self)@, final(self).spec_clock()),
    {
        proof {
            use_type_invariant(&*self);
            self.lemma_consistent();
        }
        let now = self.now();
        self.update_at(msg, now);
    }

    /// Record the outcome of a telemetry poll of device `device_id`: a reading
    /// updates the registry like `update` and is handed back for forwarding;
    /// a failed poll marks the device offline.
    pub fn record_poll(&mut self, device_id: &str, reading: Option<TelemetryMessage>) -> (forward:
        Option<TelemetryMessage>)
        ensures
            final(self).spec_timeout_nanos() == old(self).spec_timeout_nanos(),
            match reading {
                Some(msg) => {
                    &&& forward == Some(msg)
                    &&& exists|now: u128|
                        now >= old(self).spec_clock() && final(self).spec_clock() == now
                            && final(self)@ == #[trigger] spec_after_report(old(self)@, msg, now)
                },
                None => {
                    &&& forward is None
                    &&& final(self).spec_clock() == old(self).spec_clock()
                    &&& final(self)@ == spec_after_poll_failure(old(self)@, device_id@)
                },
            },
            spec_consistent(final(self)@),
            spec_seen_by(final(self)@, final(self).spec_clock()),
    {
        match reading {
            Some(msg) => {
                self.update(&msg);
                Some(msg)
            },
            None => {
                self.mark_offline(device_id);
                None
            },
        }
    }

    /// Record that a poll of `device_id` failed: a known device is marked
    /// offline until it next reports; an unknown one stays unknown.
    pub fn mark_offline(&mut self, device_id: &str)
        ensures
            final(self).spec_timeout_nanos() == old(self).spec_timeout_nanos(),
            final(self)@ == spec_after_poll_failure(old(self)@, device_id@),
            final(self).spec_clock() == old(self).spec_clock(),
            spec_consistent(final(self)@),
            spec_seen_by(final(self)@, final(self).spec_clock()),
    {
        proof {
            use_type_invariant(&*self);
        }
        let state = match self.devices.get(device_id) {
            Some(known) => DeviceState {
                device_id: known.device_id.clone(),
                device_type: known.device_type,
                last_seen: known.last_seen,
                last_value_bits: known.last_value_bits,
                marked_offline: true,
            },
            None => {
                proof {
                    self.lemma_consistent();
                }
                return ;
            },
        };
        let mut devices = KeyedList::new();
        std::mem::swap(&mut devices, &mut self.devices);
        devices.insert(String::from_str(device_id), state);
        self.devices = devices;
        proof {
            use_type_invariant(&*self);
            self.lemma_consistent();
        }
    }

    /// Check whether a device was online at time `now` (nanoseconds since the
    /// registry's creation): known, not marked offline, and last seen less
    /// than the timeout before.
    pub fn is_online_at(&self, device_id: &str, now: u128) -> (online: bool)
        ensures
            online == self.spec_is_online_at(device_id@, now),
            spec_consistent(self@),
    {
        proof {
            use_type_invariant(self);
            self.lemma_consistent();
        }
        match self.devices.get(device_id) {
            Some(state) => {
                let elapsed: u128 = if now >= state.last_seen {
                    now - state.last_seen
                } else {
                    0
                };
                !state.marked_offline && elapsed < self.timeout_nanos
            },
            None => false,
        }
    }

    /// Check if a device is currently online, judged at a time no earlier
    /// than any the registry has seen.
    pub fn is_online(&self, device_id: &str) -> (online: bool)
        ensures
            !self@.dom().contains(device_id@) ==> !online,
            exists|now: u128|
                now >= self.spec_clock() && online == #[trigger] self.spec_is_online_at(
                    device_id@,
                    now,
                ),
            spec_consistent(self@),
    {
        let now = self.now();
        self.is_online_at(device_id, now)
    }

    /// The state recorded for a device, if it is known.
    pub fn get(&self, device_id: &str) -> (state: Option<&DeviceState>)
        ensures
            match state {
                Some(s) => self@.dom().contains(device_id@) && *s == self@[device_id@],
                None => !self@.dom().contains(device_id@),
            },
            spec_consistent(self@),
    {
        proof {
            use_type_invariant(self);
            self.lemma_consistent();
        }
        self.devices.get(device_id)
    }

    /// Get current device count.
    pub fn device_count(&self) -> (count: usize)
        ensures
            count == self@.len(),
            spec_consistent(self@),
    {
        proof {
            use_type_invariant(self);
            self.lemma_consistent();
        }
        self.devices.len()
    }
}

} // verus!
