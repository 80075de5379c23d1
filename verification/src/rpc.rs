//! The remote interface's message model: listing devices and streaming
//! a device's lines.

use vstd::prelude::*;

use crate::devices::DeviceInfoRecord;

verus! {

/// Request to list the host's devices.
#[derive(Debug, Clone, Copy, PartialEq, Eq, Structural)]
pub struct AvailableDevicesRequest;

/// The device list reply.
#[derive(Debug)]
pub struct AvailableDevicesResponse {
    pub devices: Vec<DeviceInfoRecord>,
}

/// Request to stream a device's lines at a baud rate.
#[derive(Debug, Clone)]
pub struct DeviceStreamRequest {
    pub device_port: String,
    pub baud_rate: u32,
}

/// One streamed event: a line the device produced.
#[derive(Debug, Clone)]
pub struct DeviceEvent {
    pub message: Vec<u8>,
}

/// The server's shared state: the discovery node it advertises with.
#[derive(Debug)]
pub struct ServerState<T> {
    pub discovery_node: T,
}

impl<T> ServerState<T> {
    pub fn new(discovery_node: T) -> (r: Self)
        ensures
            r.discovery_node == discovery_node,
    {
        ServerState { discovery_node }
    }

    /// Wrap the state for sharing between request handlers.  Relies on
    /// `std::sync::Mutex::new`, which takes ownership of the value.
    #[verifier::external_body]
    pub fn as_mutex(self) -> std::sync::Mutex<ServerState<T>> {
        std::sync::Mutex::new(self)
    }
}

/// Declares the standard mutex so that it may stand in signatures.
#[verifier::external_type_specification]
#[verifier::external_body]
#[verifier::reject_recursive_types(T)]
pub struct ExMutex<T: ?Sized>(std::sync::Mutex<T>);

/// Wrap the enumerated devices into the reply.
pub fn available_devices_response(devices: Vec<DeviceInfoRecord>) -> (r: AvailableDevicesResponse)
    ensures
        r.devices@ == devices@,
{
    AvailableDevicesResponse { devices }
}

/// Wrap one broadcast line into a stream event, verbatim.
pub fn device_event_from_line(line: Vec<u8>) -> (r: DeviceEvent)
    ensures
        r.message@ == line@,
{
    DeviceEvent { message: line }
}

} // verus!
