//! Device registrations and the routing of backend commands and telemetry polls.
//!
//! The agent learns of devices through the `register-device` RPC method. It
//! polls the devices that produce telemetry (sensors and hybrids), and it
//! forwards a backend command published on `backend.command.<id>` to the RPC
//! service of device `<id>` when that device executes commands (actuators and
//! hybrids).

use super::keyed::{self, KeyedList};
use crate::messaging::subjects;
use crate::messaging::types::{
    self, service_name, CommandResponse, DeviceMode, DeviceType, RegisterRequest,
    RegisterResponse,
};
use vstd::prelude::*;
use vstd::string::*;

verus! {

/// Registered device information.
#[derive(Debug, Clone)]
pub struct RegisteredDevice {
    pub device_id: String,
    pub device_type: DeviceType,
    pub mode: DeviceMode,
    pub service_name: String,
}

/// What the table holds of a registered device.
pub struct RegisteredDeviceView {
    pub device_id: Seq<char>,
    pub device_type: DeviceType,
    pub mode: DeviceMode,
    pub service_name: Seq<char>,
}

impl RegisteredDevice {
    pub open spec fn view(&self) -> RegisteredDeviceView {
        RegisteredDeviceView {
            device_id: self.device_id@,
            device_type: self.device_type,
            mode: self.mode,
            service_name: self.service_name@,
        }
    }
}

/// Every registration is filed under its own id and answers under the
/// service name that its mode and id give.
pub open spec fn spec_well_named(known: Map<Seq<char>, RegisteredDeviceView>) -> bool {
    forall|k: Seq<char>| #[trigger]
        known.dom().contains(k) ==> known[k].device_id == k && known[k].service_name
            == types::spec_service_name(known[k].mode, k)
}

/// `name` is the service name of a registered device that produces telemetry.
pub open spec fn spec_polled(known: Map<Seq<char>, RegisteredDeviceView>, name: Seq<char>) -> bool {
    exists|k: Seq<char>|
        #[trigger] known.dom().contains(k) && types::spec_produces_telemetry(known[k].mode)
            && known[k].service_name == name
}

/// A device to poll for telemetry, and the RPC service it answers under.
#[derive(Debug, Clone)]
pub struct PollTarget {
    pub device_id: String,
    pub service_name: String,
}

/// The device ids of the poll targets.
pub open spec fn spec_target_ids(targets: Seq<PollTarget>) -> Seq<Seq<char>> {
    targets.map_values(|t: PollTarget| t.device_id@)
}

/// The record that a registration request creates.
pub open spec fn spec_registration(req: RegisterRequest) -> RegisteredDeviceView {
    RegisteredDeviceView {
        device_id: req.device_id@,
        device_type: req.device_type,
        mode: req.mode,
        service_name: types::spec_service_name(req.mode, req.device_id@),
    }
}

/// A registration records the request's own id, type and mode, and the
/// service name `sensor-<id>`, `actuator-<id>` or `hybrid-<id>` of its mode.
pub proof fn lemma_registration_record(req: RegisterRequest)
    ensures
        spec_registration(req).device_id == req.device_id@,
        spec_registration(req).device_type == req.device_type,
        spec_registration(req).mode == req.mode,
        req.mode == DeviceMode::Sensor ==> spec_registration(req).service_name == "sensor-"@
            + req.device_id@,
        req.mode == DeviceMode::Actuator ==> spec_registration(req).service_name == "actuator-"@
            + req.device_id@,
        req.mode == DeviceMode::Hybrid ==> spec_registration(req).service_name == "hybrid-"@
            + req.device_id@,
{
}

/// `s` without the prefix `p`, when `s` starts with `p`.
pub open spec fn spec_strip_prefix(s: Seq<char>, p: Seq<char>) -> Option<Seq<char>> {
    if p.len() <= s.len() && s.subrange(0, p.len() as int) == p {
        Some(s.subrange(p.len() as int, s.len() as int))
    } else {
        None
    }
}

/// The device that a backend command subject addresses: the rest of a
/// subject that starts with `backend.command.`.
pub open spec fn spec_command_device_id(subject: Seq<char>) -> Option<Seq<char>> {
    spec_strip_prefix(subject, "backend.command."@)
}

/// `s` without the prefix `prefix`, or `None` when `s` does not start with it.
pub fn strip_prefix(s: &str, prefix: &str) -> (rest: Option<String>)
    ensures
        match spec_strip_prefix(s@, prefix@) {
            Some(r) => rest is Some && rest->0@ == r,
            None => rest is None,
        },
{
    let slen = s.unicode_len();
    let plen = prefix.unicode_len();
    if plen > slen {
        return None;
    }
    let mut i: usize = 0;
    while i < plen
        invariant
            slen == s@.len(),
            plen == prefix@.len(),
            plen <= slen,
            i <= plen,
            forall|j: int| 0 <= j < i ==> #[trigger] s@[j] == prefix@[j],
        decreases plen - i,
    {
        if s.get_char(i) != prefix.get_char(i) {
            assert(s@.subrange(0, plen as int)[i as int] != prefix@[i as int]);
            return None;
        }
        i = i + 1;
    }
    assert(s@.subrange(0, plen as int) =~= prefix@);
    Some(String::from_str(s.substring_char(plen, slen)))
}

/// Extract the addressed device id from a backend command subject
/// (`backend.command.<id>`), or `None` when the subject has another form.
pub fn command_device_id(subject: &str) -> (device_id: Option<String>)
    ensures
        match spec_command_device_id(subject@) {
            Some(id) => device_id is Some && device_id->0@ == id,
            None => device_id is None,
        },
{
    strip_prefix(subject, "backend.command.")
}

/// The reply to a backend command whose device is not registered.
pub open spec fn spec_not_registered_reply(device_id: Seq<char>, reply: CommandResponse) -> bool {
    &&& reply.status@ == "error"@
    &&& reply.message is Some
    &&& reply.message->0@ == "Device not registered: "@ + device_id
}

/// The reply to a backend command addressed to a device that does not
/// execute commands (a sensor).
pub open spec fn spec_not_commandable_reply(device_id: Seq<char>, reply: CommandResponse) -> bool {
    &&& reply.status@ == "error"@
    &&& reply.message is Some
    &&& reply.message->0@ == "Device does not accept commands: "@ + device_id
}

/// The reply to a backend command that the device could not execute
/// because the RPC call failed with `error`.
pub open spec fn spec_unreachable_reply(error: Seq<char>, reply: CommandResponse) -> bool {
    &&& reply.status@ == "error"@
    &&& reply.message is Some
    &&& reply.message->0@ == "Device unreachable: "@ + error
}

/// The reply to a backend command, given the outcome of the `execute-command`
/// call: the device's own response, or an error response naming the failure.
pub fn command_reply(outcome: Result<CommandResponse, String>) -> (reply: CommandResponse)
    ensures
        match outcome {
            Ok(response) => reply == response,
            Err(error) => spec_unreachable_reply(error@, reply),
        },
{
    match outcome {
        Ok(response) => response,
        Err(error) => CommandResponse {
            status: String::from_str("error"),
            message: Some(String::from_str("Device unreachable: ").concat(error.as_str())),
        },
    }
}

/// The decision that a backend command gets, over the texts involved.
pub enum RouteDecision {
    /// The subject does not address a device.
    InvalidSubject,
    /// The addressed device is not registered.
    NotRegistered { device_id: Seq<char> },
    /// The addressed device is registered but does not execute commands.
    NotCommandable { device_id: Seq<char> },
    /// The command goes to this service of the addressed device.
    Deliver { device_id: Seq<char>, service_name: Seq<char> },
}

/// How a command published on `subject` is routed among the `known`
/// registrations: to the addressed device's service when that device
/// executes commands (actuators and hybrids), and to no device otherwise.
pub open spec fn spec_route(
    known: Map<Seq<char>, RegisteredDeviceView>,
    subject: Seq<char>,
) -> RouteDecision {
    match spec_command_device_id(subject) {
        None => RouteDecision::InvalidSubject,
        Some(id) => if !known.dom().contains(id) {
            RouteDecision::NotRegistered { device_id: id }
        } else if types::spec_executes_commands(known[id].mode) {
            RouteDecision::Deliver { device_id: id, service_name: known[id].service_name }
        } else {
            RouteDecision::NotCommandable { device_id: id }
        },
    }
}

/// The subject built for a device addresses that device.
pub proof fn lemma_backend_command_round_trip(device_id: Seq<char>)
    ensures
        spec_command_device_id(subjects::spec_backend_command(device_id)) == Some(device_id),
{
    let p = "backend.command."@;
    let s = subjects::spec_backend_command(device_id);
    assert(s.subrange(0, p.len() as int) =~= p);
    assert(s.subrange(p.len() as int, s.len() as int) =~= device_id);
}

/// Once a device has registered, a backend command addressed to it goes to
/// the RPC service named after its mode and id when its mode executes
/// commands, and is refused when it is a sensor, whatever was registered
/// before under that id.
pub proof fn lemma_registered_device_is_routed(
    known: Map<Seq<char>, RegisteredDeviceView>,
    req: RegisterRequest,
)
    ensures
        types::spec_executes_commands(req.mode) ==> spec_route(
            known.insert(req.device_id@, spec_registration(req)),
            subjects::spec_backend_command(req.device_id@),
        ) == (RouteDecision::Deliver {
            device_id: req.device_id@,
            service_name: types::spec_service_name(req.mode, req.device_id@),
        }),
        !types::spec_executes_commands(req.mode) ==> spec_route(
            known.insert(req.device_id@, spec_registration(req)),
            subjects::spec_backend_command(req.device_id@),
        ) == (RouteDecision::NotCommandable { device_id: req.device_id@ }),
{
    lemma_backend_command_round_trip(req.device_id@);
}

/// A backend command addressed to a device that never registered is
/// answered as not registered; one on a subject outside `backend.command.`
/// is refused.
pub proof fn lemma_unregistered_or_invalid(
    known: Map<Seq<char>, RegisteredDeviceView>,
    device_id: Seq<char>,
    subject: Seq<char>,
)
    ensures
        !known.dom().contains(device_id) ==> spec_route(known, subjects::spec_backend_command(device_id))
            == (RouteDecision::NotRegistered { device_id }),
        spec_command_device_id(subject) is None ==> spec_route(known, subject)
            == RouteDecision::InvalidSubject,
{
    lemma_backend_command_round_trip(device_id);
}

/// The last registration of an id wins: afterwards the id holds exactly that
/// registration, other ids keep theirs, every record stays named after its
/// own mode and id, and a service name of that id is polled exactly when it
/// is the name of the last registration and that mode produces telemetry.
pub proof fn lemma_last_registration_wins(
    known: Map<Seq<char>, RegisteredDeviceView>,
    req: RegisterRequest,
    mode: DeviceMode,
)
    requires
        spec_well_named(known),
    ensures
        ({
            let after = known.insert(req.device_id@, spec_registration(req));
            &&& spec_well_named(after)
            &&& after.dom().contains(req.device_id@)
            &&& after[req.device_id@] == spec_registration(req)
            &&& forall|k: Seq<char>|
                k != req.device_id@ ==> (after.dom().contains(k) == known.dom().contains(k) && (
                known.dom().contains(k) ==> #[trigger] after[k] == known[k]))
            &&& spec_polled(after, types::spec_service_name(mode, req.device_id@)) <==> (mode
                == req.mode && types::spec_produces_telemetry(req.mode))
        }),
{
    let id = req.device_id@;
    let after = known.insert(id, spec_registration(req));
    let name = types::spec_service_name(mode, id);
    if spec_polled(after, name) {
        let k = choose|k: Seq<char>|
            #[trigger] after.dom().contains(k) && types::spec_produces_telemetry(after[k].mode)
                && after[k].service_name == name;
        types::lemma_service_name_injective(after[k].mode, k, mode, id);
    }
    if mode == req.mode && types::spec_produces_telemetry(req.mode) {
        assert(after.dom().contains(id));
    }
}

/// What to do with a backend command.
#[derive(Debug)]
pub enum CommandRoute {
    /// The subject is not of the form `backend.command.<id>`; `error` says so.
    InvalidSubject { error: String },
    /// Device `device_id` is not registered; `reply` goes to the requester.
    NotRegistered { device_id: String, reply: CommandResponse },
    /// Device `device_id` does not execute commands; `reply` goes to the requester.
    NotCommandable { device_id: String, reply: CommandResponse },
    /// Forward the command to the RPC service `service_name` of device `device_id`.
    Deliver { device_id: String, service_name: String },
}

impl CommandRoute {
    /// The decision this route carries out.
    pub open spec fn decision(&self) -> RouteDecision {
        match self {
            CommandRoute::InvalidSubject { .. } => RouteDecision::InvalidSubject,
            CommandRoute::NotRegistered { device_id, .. } => RouteDecision::NotRegistered {
                device_id: device_id@,
            },
            CommandRoute::NotCommandable { device_id, .. } => RouteDecision::NotCommandable {
                device_id: device_id@,
            },
            CommandRoute::Deliver { device_id, service_name } => RouteDecision::Deliver {
                device_id: device_id@,
                service_name: service_name@,
            },
        }
    }
}

/// Table of registered devices, by id.
pub struct DeviceTable {
    devices: KeyedList<RegisteredDevice>,
}

impl View for DeviceTable {
    type V = Map<Seq<char>, RegisteredDeviceView>;

    /// The registered devices, by id.
    closed spec fn view(&self) -> Map<Seq<char>, RegisteredDeviceView> {
        self.devices.view().map_values(|d: RegisteredDevice| d@)
    }
}

impl DeviceTable {
    /// Internal consistency: ids are distinct, each record is filed under its
    /// own id, and its service name is the one its mode and id give.
    #[verifier::type_invariant]
    closed spec fn wf(&self) -> bool {
        &&& self.devices.wf()
        &&& forall|k: Seq<char>| #[trigger]
            self.devices.view().dom().contains(k) ==> {
                &&& self.devices.view()[k].device_id@ == k
                &&& self.devices.view()[k].service_name@ == types::spec_service_name(
                    self.devices.view()[k].mode,
                    k,
                )
            }
    }

    /// The invariant, as it reads on the view.
    proof fn lemma_well_named(&self)
        requires
            self.wf(),
        ensures
            spec_well_named(self@),
    {
    }

    /// An empty table.
    pub fn new() -> (table: Self)
        ensures
            table@ == Map::<Seq<char>, RegisteredDeviceView>::empty(),
            spec_well_named(table@),
    {
        let table = DeviceTable { devices: KeyedList::new() };
        assert(table@ =~= Map::<Seq<char>, RegisteredDeviceView>::empty());
        table
    }

    /// Number of registered devices.
    pub fn len(&self) -> (n: usize)
        ensures
            n == self@.len(),
            spec_well_named(self@),
    {
        proof {
            use_type_invariant(self);
            self.lemma_well_named();
        }
        assert(self@.dom() =~= self.devices.view().dom());
        self.devices.len()
    }

    /// The registration of a device, if any.
    pub fn get(&self, device_id: &str) -> (device: Option<&RegisteredDevice>)
        ensures
            match device {
                Some(d) => self@.dom().contains(device_id@) && d@ == self@[device_id@],
                None => !self@.dom().contains(device_id@),
            },
            spec_well_named(self@),
    {
        proof {
            use_type_invariant(self);
            self.lemma_well_named();
        }
        self.devices.get(device_id)
    }

    /// Handle a `register-device` request: record the device under its id
    /// (replacing an earlier registration of that id) with the service name
    /// of its mode, and accept it.
    pub fn register_device(&mut self, req: RegisterRequest) -> (response: RegisterResponse)
        ensures
            final(self)@ == old(self)@.insert(req.device_id@, spec_registration(req)),
            final(self)@.dom() == old(self)@.dom().insert(req.device_id@),
            final(self)@[req.device_id@].device_id == req.device_id@,
            final(self)@[req.device_id@].device_type == req.device_type,
            final(self)@[req.device_id@].mode == req.mode,
            final(self)@[req.device_id@].service_name == types::spec_service_name(
                req.mode,
                req.device_id@,
            ),
            forall|k: Seq<char>|
                k != req.device_id@ && #[trigger] old(self)@.dom().contains(k) ==> final(self)@[k]
                    == old(self)@[k],
            spec_well_named(final(self)@),
            response.accepted,
            response.message is Some,
            response.message->0@ == "Registration successful"@,
    {
        proof {
            use_type_invariant(&*self);
        }
        let name = service_name(req.mode, req.device_id.as_str());
        let key = req.device_id.clone();
        let device = RegisteredDevice {
            device_id: req.device_id,
            device_type: req.device_type,
            mode: req.mode,
            service_name: name,
        };
        let mut devices = KeyedList::new();
        std::mem::swap(&mut devices, &mut self.devices);
        devices.insert(key, device);
        self.devices = devices;
        assert(self@ =~= old(self)@.insert(req.device_id@, spec_registration(req)));
        proof {
            use_type_invariant(&*self);
            self.lemma_well_named();
        }
        RegisterResponse {
            accepted: true,
            message: Some(String::from_str("Registration successful")),
        }
    }

    /// What the entries say of a registration: it is filed under its id.
    proof fn lemma_entry(&self, j: int)
        requires
            self.wf(),
            0 <= j < self.devices.entries().len(),
        ensures
            self@.dom().contains(self.devices.entries()[j].0@),
            self@[self.devices.entries()[j].0@] == self.devices.entries()[j].1@,
    {
        self.devices.lemma_view();
        let k = self.devices.entries()[j].0@;
        assert(self.devices.view().dom().contains(k));
    }

    /// The devices to poll for telemetry: each registered device that
    /// produces telemetry (sensors and hybrids) once, with its service name,
    /// and no other device.
    pub fn poll_targets(&self) -> (targets: Vec<PollTarget>)
        ensures
            forall|a: int|
                0 <= a < targets.len() ==> {
                    let id = #[trigger] targets@[a].device_id@;
                    &&& self@.dom().contains(id)
                    &&& types::spec_produces_telemetry(self@[id].mode)
                    &&& targets@[a].service_name@ == self@[id].service_name
                },
            forall|k: Seq<char>|
                #[trigger] self@.dom().contains(k) && types::spec_produces_telemetry(self@[k].mode)
                    ==> spec_target_ids(targets@).contains(k),
            spec_target_ids(targets@).no_duplicates(),
            spec_well_named(self@),
    {
        proof {
            use_type_invariant(self);
            self.lemma_well_named();
        }
        let ghost entries = self.devices.entries();
        let n = self.devices.len();
        let mut targets: Vec<PollTarget> = Vec::new();
        // `src[a]` is the entry that `targets[a]` was taken from;
        // `pos[j]` is where a telemetry-producing entry `j` was put.
        let ghost mut src: Seq<int> = Seq::empty();
        let ghost mut pos: Seq<int> = Seq::empty();
        let mut i: usize = 0;
        proof {
            self.devices.lemma_view();
        }
        while i < n
            invariant
                self.wf(),
                entries == self.devices.entries(),
                n == entries.len(),
                i <= n,
                keyed::keys_distinct(entries),
                src.len() == targets.len(),
                pos.len() == i,
                forall|a: int|
                    #![trigger src[a]]
                    0 <= a < targets.len() ==> 0 <= src[a] < i && types::spec_produces_telemetry(
                        entries[src[a]].1.mode,
                    ) && targets@[a].device_id@ == entries[src[a]].0@
                        && targets@[a].service_name@ == entries[src[a]].1.service_name@,
                forall|j: int|
                    #![trigger pos[j]]
                    0 <= j < i && types::spec_produces_telemetry(entries[j].1.mode) ==> 0 <= pos[j]
                        < targets.len() && targets@[pos[j]].device_id@ == entries[j].0@,
                forall|a: int, b: int|
                    0 <= a < targets.len() && 0 <= b < targets.len() && a != b
                        ==> #[trigger] targets@[a].device_id@ != #[trigger] targets@[b].device_id@,
            decreases n - i,
        {
            let entry = self.devices.entry_at(i);
            if entry.1.mode.produces_telemetry() {
                proof {
                    assert forall|a: int|
                        #![trigger targets@[a]]
                        0 <= a < targets.len() implies targets@[a].device_id@ != entry.0@ by {
                        let j = src[a];
                        assert(entries[j].0@ != entries[i as int].0@);
                    }
                    src = src.push(i as int);
                    pos = pos.push(targets.len() as int);
                }
                targets.push(
                    PollTarget {
                        device_id: entry.0.clone(),
                        service_name: entry.1.service_name.clone(),
                    },
                );
            } else {
                proof {
                    pos = pos.push(0);
                }
            }
            i = i + 1;
        }
        proof {
            assert forall|a: int| 0 <= a < targets.len() implies {
                let id = #[trigger] targets@[a].device_id@;
                &&& self@.dom().contains(id)
                &&& types::spec_produces_telemetry(self@[id].mode)
                &&& targets@[a].service_name@ == self@[id].service_name
            } by {
                let j = src[a];
                self.lemma_entry(j);
            }
            assert forall|k: Seq<char>|
                #[trigger] self@.dom().contains(k) && types::spec_produces_telemetry(self@[k].mode)
                    implies spec_target_ids(targets@).contains(k) by {
                assert(self.devices.view().dom().contains(k));
                let j = choose|j: int| 0 <= j < entries.len() && #[trigger] entries[j].0@ == k;
                self.lemma_entry(j);
                let a = pos[j];
                assert(spec_target_ids(targets@)[a] == k);
            }
            assert(spec_target_ids(targets@).no_duplicates()) by {
                assert forall|a: int, b: int|
                    0 <= a < targets.len() && 0 <= b < targets.len() && a != b implies #[trigger] spec_target_ids(
                        targets@,
                    )[a] != #[trigger] spec_target_ids(targets@)[b] by {
                    assert(targets@[a].device_id@ != targets@[b].device_id@);
                }
            }
        }
        targets
    }

    /// Decide what to do with a backend command published on `subject`.
    pub fn route_command(&self, subject: &str) -> (route: CommandRoute)
        ensures
            route.decision() == spec_route(self@, subject@),
            route matches CommandRoute::InvalidSubject { error } ==> error@
                == "agent::command: Invalid command subject: "@ + subject@,
            route matches CommandRoute::NotRegistered { device_id, reply }
                ==> spec_not_registered_reply(device_id@, reply),
            route matches CommandRoute::NotCommandable { device_id, reply }
                ==> spec_not_commandable_reply(device_id@, reply),
            spec_well_named(self@),
    {
        proof {
            use_type_invariant(self);
            self.lemma_well_named();
        }
        match command_device_id(subject) {
            None => CommandRoute::InvalidSubject {
                error: String::from_str("agent::command: Invalid command subject: ").concat(
                    subject,
                ),
            },
            Some(device_id) => match self.devices.get(device_id.as_str()) {
                Some(device) => if device.mode.executes_commands() {
                    CommandRoute::Deliver { device_id, service_name: device.service_name.clone() }
                } else {
                    let message = String::from_str("Device does not accept commands: ").concat(
                        device_id.as_str(),
                    );
                    CommandRoute::NotCommandable {
                        device_id,
                        reply: CommandResponse {
                            status: String::from_str("error"),
                            message: Some(message),
                        },
                    }
                },
                None => {
                    let message = String::from_str("Device not registered: ").concat(
                        device_id.as_str(),
                    );
                    CommandRoute::NotRegistered {
                        device_id,
                        reply: CommandResponse {
                            status: String::from_str("error"),
                            message: Some(message),
                        },
                    }
                },
            },
        }
    }
}

} // verus!
