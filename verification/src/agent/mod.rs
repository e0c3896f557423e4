//! Agent state: device registry, registration table and command routing.

pub mod keyed;
pub mod registry;
pub mod routing;

pub use keyed::KeyedList;
pub use registry::{DeviceRegistry, DeviceState};
pub use routing::{
    command_device_id, command_reply, strip_prefix, CommandRoute, DeviceTable, PollTarget,
    RegisteredDevice,
};
