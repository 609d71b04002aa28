//! The operations that every kind of WebUSB device offers, whatever host
//! stack stands behind it.
use vstd::prelude::*;

use crate::device::UsbDevice;
use crate::error::Error;
use crate::model::Direction;
use crate::model::UsbControlTransferParameters;

verus! {

/// A device that follows the WebUSB lifecycle. Opening and closing are
/// idempotent, closing always succeeds, and every other operation on a
/// device that is not opened fails: with `InvalidState`, but for bulk,
/// interrupt and halt operations, which first report a missing endpoint
/// (`NotFound`) or a wrong endpoint type (`InvalidAccess`).
pub trait WebUsbDevice {
    /// The implementation's invariant.
    spec fn inv(&self) -> bool;

    /// Whether the device is opened.
    spec fn is_opened(&self) -> bool;

    fn open(&mut self) -> (r: Result<(), Error>)
        requires
            old(self).inv(),
        ensures
            final(self).inv(),
            old(self).is_opened() ==> r is Ok,
            r is Ok ==> final(self).is_opened(),
    ;

    fn close(&mut self) -> (r: Result<(), Error>)
        requires
            old(self).inv(),
        ensures
            final(self).inv(),
            r is Ok,
            !final(self).is_opened(),
    ;

    fn select_configuration(&mut self, configuration_value: u8) -> (r: Result<(), Error>)
        requires
            old(self).inv(),
        ensures
            final(self).inv(),
            !old(self).is_opened() ==> r == Err::<(), Error>(Error::InvalidState),
    ;

    fn claim_interface(&mut self, interface_number: u8) -> (r: Result<(), Error>)
        requires
            old(self).inv(),
        ensures
            final(self).inv(),
            !old(self).is_opened() ==> r == Err::<(), Error>(Error::InvalidState),
    ;

    fn release_interface(&mut self, interface_number: u8) -> (r: Result<(), Error>)
        requires
            old(self).inv(),
        ensures
            final(self).inv(),
            !old(self).is_opened() ==> r == Err::<(), Error>(Error::InvalidState),
    ;

    fn select_alternate_interface(&mut self, interface_number: u8, alternate_setting: u8) -> (r:
        Result<(), Error>)
        requires
            old(self).inv(),
        ensures
            final(self).inv(),
            !old(self).is_opened() ==> r == Err::<(), Error>(Error::InvalidState),
    ;

    fn control_transfer_in(&mut self, setup: UsbControlTransferParameters, length: usize) -> (r: Result<
        Vec<u8>,
        Error,
    >)
        requires
            old(self).inv(),
        ensures
            final(self).inv(),
            !old(self).is_opened() ==> r == Err::<Vec<u8>, Error>(Error::InvalidState),
            r matches Ok(v) ==> v@.len() <= length,
    ;

    fn control_transfer_out(&mut self, setup: UsbControlTransferParameters, data: &[u8]) -> (r: Result<
        usize,
        Error,
    >)
        requires
            old(self).inv(),
        ensures
            final(self).inv(),
            !old(self).is_opened() ==> r == Err::<usize, Error>(Error::InvalidState),
    ;

    fn clear_halt(&mut self, direction: Direction, endpoint_number: u8) -> (r: Result<(), Error>)
        requires
            old(self).inv(),
        ensures
            final(self).inv(),
            !old(self).is_opened() ==> r is Err,
    ;

    fn transfer_in(&mut self, endpoint_number: u8, length: usize) -> (r: Result<Vec<u8>, Error>)
        requires
            old(self).inv(),
        ensures
            final(self).inv(),
            !old(self).is_opened() ==> r is Err,
            r matches Ok(v) ==> v@.len() <= length,
    ;

    fn transfer_out(&mut self, endpoint_number: u8, data: &[u8]) -> (r: Result<usize, Error>)
        requires
            old(self).inv(),
        ensures
            final(self).inv(),
            !old(self).is_opened() ==> r is Err,
    ;

    fn reset(&mut self) -> (r: Result<(), Error>)
        requires
            old(self).inv(),
        ensures
            final(self).inv(),
            !old(self).is_opened() ==> r == Err::<(), Error>(Error::InvalidState),
    ;
}

impl WebUsbDevice for UsbDevice {
    open spec fn inv(&self) -> bool {
        self.wf()
    }

    open spec fn is_opened(&self) -> bool {
        self.spec_opened()
    }

    fn open(&mut self) -> (r: Result<(), Error>) {
        UsbDevice::open(self)
    }

    fn close(&mut self) -> (r: Result<(), Error>) {
        UsbDevice::close(self)
    }

    fn select_configuration(&mut self, configuration_value: u8) -> (r: Result<(), Error>) {
        UsbDevice::select_configuration(self, configuration_value)
    }

    fn claim_interface(&mut self, interface_number: u8) -> (r: Result<(), Error>) {
        UsbDevice::claim_interface(self, interface_number)
    }

    fn release_interface(&mut self, interface_number: u8) -> (r: Result<(), Error>) {
        UsbDevice::release_interface(self, interface_number)
    }

    fn select_alternate_interface(&mut self, interface_number: u8, alternate_setting: u8) -> (r:
        Result<(), Error>) {
        UsbDevice::select_alternate_interface(self, interface_number, alternate_setting)
    }

    fn control_transfer_in(&mut self, setup: UsbControlTransferParameters, length: usize) -> (r: Result<
        Vec<u8>,
        Error,
    >) {
        UsbDevice::control_transfer_in(self, setup, length)
    }

    fn control_transfer_out(&mut self, setup: UsbControlTransferParameters, data: &[u8]) -> (r: Result<
        usize,
        Error,
    >) {
        UsbDevice::control_transfer_out(self, setup, data)
    }

    fn clear_halt(&mut self, direction: Direction, endpoint_number: u8) -> (r: Result<(), Error>) {
        UsbDevice::clear_halt(self, direction, endpoint_number)
    }

    fn transfer_in(&mut self, endpoint_number: u8, length: usize) -> (r: Result<Vec<u8>, Error>) {
        UsbDevice::transfer_in(self, endpoint_number, length)
    }

    fn transfer_out(&mut self, endpoint_number: u8, data: &[u8]) -> (r: Result<usize, Error>) {
        UsbDevice::transfer_out(self, endpoint_number, data)
    }

    fn reset(&mut self) -> (r: Result<(), Error>) {
        UsbDevice::reset(self)
    }
}

} // verus!
