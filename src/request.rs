//! What the library hands to the host stack: the setup of each control
//! request, the route of each bulk or interrupt transfer, and the part of a
//! read buffer that holds what the device sent.
use vstd::prelude::*;

use crate::constants::BOS_DESCRIPTOR_TYPE;
use crate::constants::BOS_HEADER_LENGTH;
use crate::constants::GET_DESCRIPTOR_REQUEST;
use crate::constants::GET_URL_REQUEST;
use crate::model::request_type;
use crate::model::request_type_byte;
use crate::model::Direction;
use crate::model::UsbControlTransferParameters;
use crate::model::UsbEndpoint;
use crate::model::UsbEndpointType;
use crate::model::UsbRecipient;
use crate::model::UsbRequestType;

verus! {

/// The setup packet of a control transfer and the length of its data stage.
#[derive(Clone, Copy, Debug, PartialEq, Eq, Structural)]
pub struct ControlRequest {
    /// bmRequestType.
    pub request_type: u8,
    /// bRequest.
    pub request: u8,
    /// wValue.
    pub value: u16,
    /// wIndex.
    pub index: u16,
    /// wLength.
    pub length: usize,
}

/// The control request that carries `setup` in `direction` with a data
/// stage of `length` bytes: the kind and recipient are encoded, the request,
/// value and index pass through verbatim.
pub fn control_request(direction: Direction, setup: &UsbControlTransferParameters, length: usize) -> (r:
    ControlRequest)
    ensures
        r == (ControlRequest {
            request_type: request_type_byte(direction, setup.request_type, setup.recipient),
            request: setup.request,
            value: setup.value,
            index: setup.index,
            length,
        }),
{
    ControlRequest {
        request_type: request_type(direction, setup.request_type, setup.recipient),
        request: setup.request,
        value: setup.value,
        index: setup.index,
        length,
    }
}

/// The standard GET_DESCRIPTOR request for the first `length` bytes of the
/// BOS descriptor.
pub fn bos_request(length: u16) -> (r: ControlRequest)
    ensures
        r == (ControlRequest { request_type: 0x80, request: 0x06, value: 0x0F00, index: 0, length: length as usize }),
{
    ControlRequest {
        request_type: request_type(Direction::In, UsbRequestType::Standard, UsbRecipient::Device),
        request: GET_DESCRIPTOR_REQUEST,
        value: BOS_DESCRIPTOR_TYPE * 256,
        index: 0,
        length: length as usize,
    }
}

/// The standard GET_DESCRIPTOR request for the five-byte BOS header.
pub fn bos_header_request() -> (r: ControlRequest)
    ensures
        r == (ControlRequest { request_type: 0x80, request: 0x06, value: 0x0F00, index: 0, length: 5 }),
{
    bos_request(BOS_HEADER_LENGTH)
}

/// The vendor request, with the code that the WebUSB capability announced,
/// for the URL descriptor of landing page `landing_page_id`, into a buffer of
/// 255 bytes.
pub fn url_request(vendor_code: u8, landing_page_id: u8) -> (r: ControlRequest)
    ensures
        r == (ControlRequest {
            request_type: 0xC0,
            request: vendor_code,
            value: landing_page_id as u16,
            index: 0x0002,
            length: 255,
        }),
{
    ControlRequest {
        request_type: request_type(Direction::In, UsbRequestType::Vendor, UsbRecipient::Device),
        request: vendor_code,
        value: landing_page_id as u16,
        index: GET_URL_REQUEST,
        length: 255,
    }
}

/// The address of an endpoint on the wire: the direction in the high bit,
/// the number in the low bits.
pub open spec fn endpoint_address_byte(d: Direction, n: u8) -> u8 {
    match d {
        Direction::In => n | 0x80u8,
        Direction::Out => n,
    }
}

/// Builds the address of an endpoint on the wire.
pub fn endpoint_address(d: Direction, n: u8) -> (r: u8)
    ensures
        r == endpoint_address_byte(d, n),
{
    match d {
        Direction::In => n | 0x80u8,
        Direction::Out => n,
    }
}

/// How a transfer to a bulk or interrupt endpoint goes on the wire.
#[derive(Clone, Copy, Debug, PartialEq, Eq, Structural)]
pub struct TransferRoute {
    /// A bulk transfer when set, an interrupt transfer otherwise.
    pub bulk: bool,
    /// The endpoint address.
    pub address: u8,
}

/// The route of a transfer to `endpoint`: its type picks bulk or interrupt,
/// its direction and number make the address.
pub fn transfer_route(endpoint: UsbEndpoint) -> (r: TransferRoute)
    ensures
        r == (TransferRoute {
            bulk: endpoint.endpoint_type == UsbEndpointType::Bulk,
            address: endpoint_address_byte(endpoint.direction, endpoint.endpoint_number),
        }),
{
    TransferRoute {
        bulk: match endpoint.endpoint_type {
            UsbEndpointType::Bulk => true,
            _ => false,
        },
        address: endpoint_address(endpoint.direction, endpoint.endpoint_number),
    }
}

/// The bytes that a read placed in `buffer` when the host stack reported
/// `transferred` of them: the start of the buffer, never more than it holds.
pub fn received_prefix(buffer: Vec<u8>, transferred: usize) -> (r: Vec<u8>)
    ensures
        r@ == buffer@.subrange(
            0,
            if transferred <= buffer@.len() {
                transferred as int
            } else {
                buffer@.len() as int
            },
        ),
{
    let mut buffer = buffer;
    buffer.truncate(transferred);
    buffer
}

} // verus!
