//! The host USB stack, as the device logic uses it. Every function here makes
//! one call into rusb; what a transfer moves depends on the device, so the
//! contracts say only what holds of every outcome.
use vstd::prelude::*;

use rusb::Error as UsbError;

use crate::request::ControlRequest;

verus! {

/// A device that libusb enumerated. Verus cannot declare rusb's device type
/// (its context parameter is bound by a trait of rusb), so it is held here,
/// opaque to the proofs.
#[verifier::external_body]
pub struct HostDevice {
    pub device: rusb::Device<rusb::Context>,
}

/// An open libusb handle on a device, opaque to the proofs for the same
/// reason as [`HostDevice`].
#[verifier::external_body]
pub struct HostHandle {
    pub handle: rusb::DeviceHandle<rusb::Context>,
}

/// Relies on `rusb::Device::open`: opens the device and hands back a handle.
#[verifier::external_body]
pub(crate) fn open_device(device: &HostDevice) -> (r: Result<HostHandle, UsbError>) {
    device.device.open().map(|handle| HostHandle { handle })
}

/// Relies on `rusb::DeviceHandle::set_active_configuration` to make the
/// configuration with that bConfigurationValue active on the device.
#[verifier::external_body]
pub(crate) fn set_active_configuration(
    handle: &HostHandle,
    configuration_value: u8,
) -> (r: Result<(), UsbError>) {
    handle.handle.set_active_configuration(configuration_value)
}

/// Relies on `rusb::DeviceHandle::claim_interface` to claim an interface for
/// this handle.
#[verifier::external_body]
pub(crate) fn claim_interface(handle: &HostHandle, interface_number: u8) -> (r:
    Result<(), UsbError>) {
    handle.handle.claim_interface(interface_number)
}

/// Relies on `rusb::DeviceHandle::release_interface` to give a claimed
/// interface back.
#[verifier::external_body]
pub(crate) fn release_interface(
    handle: &HostHandle,
    interface_number: u8,
) -> (r: Result<(), UsbError>) {
    handle.handle.release_interface(interface_number)
}

/// Relies on `rusb::DeviceHandle::set_alternate_setting` to select an
/// alternate setting of a claimed interface on the device.
#[verifier::external_body]
pub(crate) fn set_alternate_setting(
    handle: &HostHandle,
    interface_number: u8,
    alternate_setting: u8,
) -> (r: Result<(), UsbError>) {
    handle.handle.set_alternate_setting(interface_number, alternate_setting)
}

/// Relies on `rusb::DeviceHandle::clear_halt` to clear the halt condition of
/// the endpoint with that address.
#[verifier::external_body]
pub(crate) fn clear_halt(handle: &HostHandle, endpoint_address: u8) -> (r:
    Result<(), UsbError>) {
    handle.handle.clear_halt(endpoint_address)
}

/// Relies on `rusb::DeviceHandle::reset` to issue a bus reset to the device.
#[verifier::external_body]
pub(crate) fn reset(handle: &HostHandle) -> (r: Result<(), UsbError>) {
    handle.handle.reset()
}

/// Relies on `rusb::DeviceHandle::read_control`: a control read of
/// `request` into `buf`, which keeps its length; `Ok(n)` means that `buf`
/// holds `n` bytes the device sent. A timeout of zero waits without bound.
#[verifier::external_body]
pub(crate) fn read_control(
    handle: &HostHandle,
    request: &ControlRequest,
    buf: &mut Vec<u8>,
    timeout_secs: u64,
) -> (r: Result<usize, UsbError>)
    ensures
        final(buf)@.len() == old(buf)@.len(),
        r matches Ok(n) ==> n <= old(buf)@.len(),
{
    handle.handle.read_control(
        request.request_type,
        request.request,
        request.value,
        request.index,
        buf.as_mut_slice(),
        std::time::Duration::from_secs(timeout_secs),
    )
}

/// Relies on `rusb::DeviceHandle::write_control`: a control write of
/// `request` with data stage `data`; `Ok(n)` means that `n` bytes of `data`
/// were sent. A timeout of zero waits without bound.
#[verifier::external_body]
pub(crate) fn write_control(
    handle: &HostHandle,
    request: &ControlRequest,
    data: &[u8],
    timeout_secs: u64,
) -> (r: Result<usize, UsbError>)
    ensures
        r matches Ok(n) ==> n <= data@.len(),
{
    handle.handle.write_control(
        request.request_type,
        request.request,
        request.value,
        request.index,
        data,
        std::time::Duration::from_secs(timeout_secs),
    )
}

/// Relies on `rusb::DeviceHandle::read_bulk`: a bulk read into `buf`, which
/// keeps its length; `Ok(n)` means that `buf` holds `n` bytes the device
/// sent. A timeout of zero waits without bound.
#[verifier::external_body]
pub(crate) fn read_bulk(handle: &HostHandle, endpoint_address: u8, buf: &mut Vec<u8>, timeout_secs: u64) -> (r:
    Result<usize, UsbError>)
    ensures
        final(buf)@.len() == old(buf)@.len(),
        r matches Ok(n) ==> n <= old(buf)@.len(),
{
    handle.handle.read_bulk(endpoint_address, buf.as_mut_slice(), std::time::Duration::from_secs(timeout_secs))
}

/// Relies on `rusb::DeviceHandle::read_interrupt`: an interrupt read into
/// `buf`, which keeps its length; `Ok(n)` means that `buf` holds `n` bytes the
/// device sent. A timeout of zero waits without bound.
#[verifier::external_body]
pub(crate) fn read_interrupt(
    handle: &HostHandle,
    endpoint_address: u8,
    buf: &mut Vec<u8>,
    timeout_secs: u64,
) -> (r: Result<usize, UsbError>)
    ensures
        final(buf)@.len() == old(buf)@.len(),
        r matches Ok(n) ==> n <= old(buf)@.len(),
{
    handle.handle.read_interrupt(endpoint_address, buf.as_mut_slice(), std::time::Duration::from_secs(timeout_secs))
}

/// Relies on `rusb::DeviceHandle::write_bulk`: `Ok(n)` means that `n` bytes
/// of `data` were written. A timeout of zero waits without bound.
#[verifier::external_body]
pub(crate) fn write_bulk(handle: &HostHandle, endpoint_address: u8, data: &[u8], timeout_secs: u64) -> (r:
    Result<usize, UsbError>)
    ensures
        r matches Ok(n) ==> n <= data@.len(),
{
    handle.handle.write_bulk(endpoint_address, data, std::time::Duration::from_secs(timeout_secs))
}

/// Relies on `rusb::DeviceHandle::write_interrupt`: `Ok(n)` means that `n`
/// bytes of `data` were written. A timeout of zero waits without bound.
#[verifier::external_body]
pub(crate) fn write_interrupt(
    handle: &HostHandle,
    endpoint_address: u8,
    data: &[u8],
    timeout_secs: u64,
) -> (r: Result<usize, UsbError>)
    ensures
        r matches Ok(n) ==> n <= data@.len(),
{
    handle.handle.write_interrupt(endpoint_address, data, std::time::Duration::from_secs(timeout_secs))
}

} // verus!
