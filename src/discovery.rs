use vstd::prelude::*;

use crate::constants::BOS_HEADER_LENGTH;
use crate::descriptors::bos_capability;
use crate::descriptors::le16;
use crate::descriptors::parse_bos;
use crate::descriptors::parse_webusb_url;
use crate::descriptors::webusb_url;
use crate::request::bos_header_request;
use crate::request::bos_request;
use crate::request::received_prefix;
use crate::request::url_request;
use crate::request::ControlRequest;
use crate::usb;
use crate::usb::HostHandle;

verus! {

/// bDeviceClass of a hub.
pub const HUB_CLASS: u8 = 9;

/// Whether a device of USB version `major`.`minor` may carry a BOS
/// descriptor: from USB 2.1 on.
pub open spec fn may_carry_bos(major: u8, minor: u8) -> bool {
    major > 2 || (major == 2 && minor >= 1)
}

/// Timeout, in seconds, of each request of the discovery.
pub const DISCOVERY_TIMEOUT_SECS: u64 = 2;

/// Whether enumeration lists a device of class `device_class`: hubs are left
/// out.
pub fn lists_device(device_class: u8) -> (r: bool)
    ensures
        r == (device_class != 9),
{
    device_class != HUB_CLASS
}

/// The wTotalLength that a BOS descriptor header announces, provided that
/// the whole header was read.
pub fn bos_total_length(header: &[u8]) -> (r: Option<u16>)
    ensures
        r is Some <==> header@.len() == 5,
        r matches Some(n) ==> n as int == le16(header@[2], header@[3]),
{
    if header.len() != BOS_HEADER_LENGTH as usize {
        return None;
    }
    Some(header[2] as u16 + (header[3] as u16) * 256)
}

/// The landing page that a device announces, given its replies to the
/// three requests of the discovery: the BOS header, the whole BOS descriptor,
/// and the URL descriptor. The header must be complete and the BOS
/// descriptor must hold a WebUSB capability; the URL descriptor then decides.
pub open spec fn landing_page(header: Seq<u8>, bos: Seq<u8>, reply: Seq<u8>) -> Option<Seq<char>> {
    if header.len() == 5 && bos_capability(bos) is Some {
        webusb_url(reply)
    } else {
        None
    }
}

/// Computes the landing page from the replies of the discovery.
pub fn landing_page_url(header: &[u8], bos: &[u8], reply: &[u8]) -> (r: Option<String>)
    ensures
        r is Some <==> landing_page(header@, bos@, reply@) is Some,
        r matches Some(url) ==> landing_page(header@, bos@, reply@) == Some(url@),
{
    if header.len() != BOS_HEADER_LENGTH as usize || parse_bos(bos).is_none() {
        return None;
    }
    parse_webusb_url(reply)
}

/// Sends a control read `request` into a buffer of its length, giving the
/// bytes the device sent, or `None` when the transfer fails.
fn read_descriptor(handle: &HostHandle, request: &ControlRequest) -> (r: Option<Vec<u8>>)
    ensures
        r matches Some(b) ==> b@.len() <= request.length,
{
    let mut buffer: Vec<u8> = vec![0u8; request.length];
    match usb::read_control(handle, request, &mut buffer, DISCOVERY_TIMEOUT_SECS) {
        Ok(transferred) => Some(received_prefix(buffer, transferred)),
        Err(_) => None,
    }
}

/// Discovers the WebUSB landing page of a device through an open handle:
/// reads the BOS descriptor header, then as much of the BOS descriptor as
/// the header announces, finds the WebUSB capability in it, and asks the
/// device for the URL descriptor that the capability names. Devices older
/// than USB 2.1, whose version is `usb_version_major`.`usb_version_minor`,
/// are not asked. Any failed transfer or malformed descriptor gives `None`.
pub fn discover_webusb_url(handle: &HostHandle, usb_version_major: u8, usb_version_minor: u8) -> (r:
    Option<String>)
    ensures
        !may_carry_bos(usb_version_major, usb_version_minor) ==> r is None,
        r matches Some(url) ==> exists|header: Seq<u8>, bos: Seq<u8>, reply: Seq<u8>|
            {
                &&& header.len() == 5
                &&& bos.len() <= le16(header[2], header[3])
                &&& reply.len() <= 255
                &&& landing_page(header, bos, reply) == Some(url@)
            },
{
    if usb_version_major < 2 || (usb_version_major == 2 && usb_version_minor < 1) {
        return None;
    }
    let header = match read_descriptor(handle, &bos_header_request()) {
        Some(header) => header,
        None => {
            return None;
        },
    };
    let total_length = match bos_total_length(header.as_slice()) {
        Some(n) => n,
        None => {
            return None;
        },
    };
    let bos = match read_descriptor(handle, &bos_request(total_length)) {
        Some(bos) => bos,
        None => {
            return None;
        },
    };
    let (vendor_code, landing_page_id) = match parse_bos(bos.as_slice()) {
        Some(capability) => capability,
        None => {
            return None;
        },
    };
    let reply = match read_descriptor(handle, &url_request(vendor_code, landing_page_id)) {
        Some(reply) => reply,
        None => {
            return None;
        },
    };
    let url = landing_page_url(header.as_slice(), bos.as_slice(), reply.as_slice());
    proof {
        if url is Some {
            assert(landing_page(header@, bos@, reply@) == Some(url->0@));
        }
    }
    url
}

} // verus!
