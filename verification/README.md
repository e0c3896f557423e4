# rust_edge_agent

An edge gateway that bridges backend services (NATS) and local devices
(MQTT RPC), with its decision logic verified by Verus.

- `src/` — the verified library:
  - `messaging/subjects.rs`: NATS subject names;
  - `messaging/types.rs`: message types, device modes and RPC service names;
  - `messaging/retry.rs`: reconnection schedules for NATS and MQTT;
  - `agent/keyed.rs`: a map from device id to record, kept as a vector with
    distinct keys. Both tables are keyed by `String` device ids; with such
    keys Verus proved nothing of `HashMap`'s operations (not even the length
    after one insert), so the tables are kept in this form, whose operations
    are proved against a map view;
  - `agent/registry.rs`: device states, last-seen times and online status;
  - `agent/routing.rs`: registrations, backend command routing (to actuators
    and hybrids only) and telemetry poll targets (sensors and hybrids);
  - `runtime/lifecycle.rs`: the agent's lifecycle state;
  - `device_sim.rs`: parsing of the simulator's command line.
- `app/` — the programs: the agent's NATS/MQTT event loops and the device
  simulator, with the JSON forms of the messages.
- `tests/` — tests of the library on concrete values.
