use vstd::prelude::*;

use rusb::Error as UsbError;

verus! {

/// The fault reported by the host USB stack.
#[verifier::external_type_specification]
#[verifier::external_body]
pub struct ExUsbError(UsbError);

/// The failures of device operations: a flat sum, with no hierarchy.
#[derive(Debug, PartialEq)]
#[non_exhaustive]
pub enum Error {
    /// An opaque failure of the underlying USB stack.
    Usb(UsbError),
    /// The referenced configuration, interface or endpoint does not exist.
    NotFound,
    /// A precondition on the device being opened or an interface being
    /// claimed does not hold.
    InvalidState,
    /// The endpoint has the wrong type for the requested transfer.
    InvalidAccess,
}

pub type Result<T> = core::result::Result<T, Error>;

impl From<UsbError> for Error {
    fn from(err: UsbError) -> (r: Self)
        ensures
            r == Error::Usb(err),
    {
        Error::Usb(err)
    }
}

impl vstd::std_specs::convert::FromSpecImpl<UsbError> for Error {
    open spec fn obeys_from_spec() -> bool {
        true
    }

    open spec fn from_spec(err: UsbError) -> Error {
        Error::Usb(err)
    }
}

/// A missing value is a missing configuration, interface or endpoint.
impl<T> From<Option<T>> for Error {
    fn from(_value: Option<T>) -> (r: Self)
        ensures
            r == Error::NotFound,
    {
        Error::NotFound
    }
}

impl<T> vstd::std_specs::convert::FromSpecImpl<Option<T>> for Error {
    open spec fn obeys_from_spec() -> bool {
        true
    }

    open spec fn from_spec(_value: Option<T>) -> Error {
        Error::NotFound
    }
}

} // verus!
