use webusb::discovery::bos_total_length;
use webusb::discovery::landing_page_url;
use webusb::discovery::lists_device;
use webusb::model::request_type;
use webusb::request::bos_header_request;
use webusb::request::bos_request;
use webusb::request::control_request;
use webusb::request::endpoint_address;
use webusb::request::received_prefix;
use webusb::request::transfer_route;
use webusb::request::url_request;
use webusb::request::ControlRequest;
use webusb::request::TransferRoute;
use webusb::Direction;
use webusb::Error;
use webusb::UsbAlternateInterface;
use webusb::UsbConfiguration;
use webusb::UsbControlTransferParameters;
use webusb::UsbEndpoint;
use webusb::UsbEndpointType;
use webusb::UsbInterface;
use webusb::UsbRecipient;
use webusb::UsbRequestType;

fn alternate(setting: u8, endpoints: Vec<UsbEndpoint>) -> UsbAlternateInterface {
    UsbAlternateInterface::new(setting, 0x0A, 0x00, 0x00, None, endpoints)
}

/// The configuration of an Arduino Leonardo running the WebUSB sketch:
/// interface 0 (CDC control), 1 (CDC data), 2 (WebUSB, bulk endpoints 4 out
/// and 5 in).
fn leonardo() -> UsbConfiguration {
    let cdc = UsbInterface::new(
        0,
        vec![alternate(0, vec![UsbEndpoint::new(1, Direction::In, UsbEndpointType::Interrupt, 16)])],
    )
    .unwrap();
    let data = UsbInterface::new(
        1,
        vec![alternate(
            0,
            vec![
                UsbEndpoint::new(2, Direction::Out, UsbEndpointType::Bulk, 64),
                UsbEndpoint::new(3, Direction::In, UsbEndpointType::Bulk, 64),
            ],
        )],
    )
    .unwrap();
    let webusb = UsbInterface::new(
        2,
        vec![alternate(
            0,
            vec![
                UsbEndpoint::new(4, Direction::Out, UsbEndpointType::Bulk, 64),
                UsbEndpoint::new(5, Direction::In, UsbEndpointType::Bulk, 64),
            ],
        )],
    )
    .unwrap();
    UsbConfiguration::new(None, 1, vec![cdc, data, webusb]).unwrap()
}

fn setup(recipient: UsbRecipient, index: u16) -> UsbControlTransferParameters {
    UsbControlTransferParameters {
        request_type: UsbRequestType::Class,
        recipient,
        request: 0x22,
        value: 0x01,
        index,
    }
}

#[test]
fn test_error_impl() {
    let nope: Option<()> = None;
    assert_eq!(Error::from(nope), Error::NotFound);
}

#[test]
fn interface_selects_alternate_zero() {
    let itf = UsbInterface::new(3, vec![alternate(1, vec![]), alternate(0, vec![]), alternate(0, vec![])]).unwrap();
    assert_eq!(itf.interface_number(), 3);
    assert_eq!(itf.alternate().alternate_setting, 0);
    assert_eq!(itf.alternates().len(), 3);
    assert!(!itf.claimed());
}

#[test]
fn interface_without_alternate_zero_is_refused() {
    assert!(UsbInterface::new(3, vec![alternate(1, vec![]), alternate(2, vec![])]).is_none());
    assert!(UsbInterface::new(3, vec![]).is_none());
}

#[test]
fn control_setup_to_unclaimed_interface_is_invalid_state() {
    let config = leonardo();
    assert_eq!(config.validate_control_setup(&setup(UsbRecipient::Interface, 2)), Err(Error::InvalidState));
    // Only the low byte of wIndex names the interface.
    assert_eq!(config.validate_control_setup(&setup(UsbRecipient::Interface, 0x0102)), Err(Error::InvalidState));
}

#[test]
fn control_setup_to_missing_interface_is_not_found() {
    let config = leonardo();
    assert_eq!(config.validate_control_setup(&setup(UsbRecipient::Interface, 7)), Err(Error::NotFound));
}

#[test]
fn control_setup_to_endpoint_needs_that_endpoint() {
    let config = leonardo();
    // Endpoint 5 in: bit 8 set, number in the low nibble.
    assert_eq!(config.validate_control_setup(&setup(UsbRecipient::Endpoint, 0x0105)), Ok(()));
    // Endpoint 4 out.
    assert_eq!(config.validate_control_setup(&setup(UsbRecipient::Endpoint, 0x0004)), Ok(()));
    // Endpoint 4 in does not exist.
    assert_eq!(config.validate_control_setup(&setup(UsbRecipient::Endpoint, 0x0104)), Err(Error::NotFound));
    // Endpoint 6 out does not exist.
    assert_eq!(config.validate_control_setup(&setup(UsbRecipient::Endpoint, 0x0006)), Err(Error::NotFound));
}

#[test]
fn control_setup_to_device_or_other_is_unconstrained() {
    let config = leonardo();
    assert_eq!(config.validate_control_setup(&setup(UsbRecipient::Device, 0x00FF)), Ok(()));
    assert_eq!(config.validate_control_setup(&setup(UsbRecipient::Other, 0x00FF)), Ok(()));
}

#[test]
fn configuration_lookups() {
    let config = leonardo();
    assert_eq!(config.configuration_value(), 1);
    assert_eq!(config.interface_position(2), Some(2));
    assert_eq!(config.interface_position(9), None);
    let (k, endpoint) = config.find_endpoint(5, Direction::In).unwrap();
    assert_eq!(k, 2);
    assert_eq!(endpoint.endpoint_type, UsbEndpointType::Bulk);
    assert_eq!(endpoint.packet_size, 64);
    assert!(config.find_endpoint(5, Direction::Out).is_none());
}

#[test]
fn request_type_encoding() {
    assert_eq!(request_type(Direction::In, UsbRequestType::Standard, UsbRecipient::Device), 0x80);
    assert_eq!(request_type(Direction::Out, UsbRequestType::Class, UsbRecipient::Interface), 0x21);
    assert_eq!(request_type(Direction::In, UsbRequestType::Vendor, UsbRecipient::Device), 0xC0);
    assert_eq!(request_type(Direction::Out, UsbRequestType::Standard, UsbRecipient::Endpoint), 0x02);
    assert_eq!(request_type(Direction::In, UsbRequestType::Class, UsbRecipient::Other), 0xA3);
}

#[test]
fn endpoint_address_encoding() {
    assert_eq!(endpoint_address(Direction::In, 5), 0x85);
    assert_eq!(endpoint_address(Direction::Out, 4), 0x04);
}

#[test]
fn hubs_are_not_listed() {
    assert!(!lists_device(9));
    assert!(lists_device(0));
    assert!(lists_device(0xEF));
}

#[test]
fn bos_header_gives_total_length() {
    assert_eq!(bos_total_length(&[0x05, 0x0F, 0x4C, 0x00, 0x03]), Some(0x4C));
    assert_eq!(bos_total_length(&[0x05, 0x0F, 0x4C, 0x01, 0x03]), Some(0x014C));
    assert_eq!(bos_total_length(&[0x05, 0x0F, 0x4C, 0x00]), None);
}

#[test]
fn configuration_with_repeated_interface_number_is_refused() {
    let first = UsbInterface::new(2, vec![alternate(0, vec![])]).unwrap();
    let second = UsbInterface::new(2, vec![alternate(0, vec![])]).unwrap();
    let other = UsbInterface::new(3, vec![alternate(0, vec![])]).unwrap();
    assert!(UsbConfiguration::new(None, 1, vec![first.clone(), other.clone(), second]).is_none());
    let config = UsbConfiguration::new(Some("main".to_string()), 7, vec![first, other]).unwrap();
    assert_eq!(config.configuration_value(), 7);
    assert_eq!(config.configuration_name(), &Some("main".to_string()));
    assert_eq!(config.interfaces().len(), 2);
}

#[test]
fn control_request_carries_the_setup() {
    let s = setup(UsbRecipient::Interface, 2);
    assert_eq!(
        control_request(Direction::Out, &s, 0),
        ControlRequest { request_type: 0x21, request: 0x22, value: 0x01, index: 2, length: 0 }
    );
    let get_device_descriptor = UsbControlTransferParameters {
        request_type: UsbRequestType::Standard,
        recipient: UsbRecipient::Device,
        request: 0x06,
        value: 0x0100,
        index: 0,
    };
    assert_eq!(
        control_request(Direction::In, &get_device_descriptor, 18),
        ControlRequest { request_type: 0x80, request: 0x06, value: 0x0100, index: 0, length: 18 }
    );
}

#[test]
fn discovery_requests() {
    assert_eq!(
        bos_header_request(),
        ControlRequest { request_type: 0x80, request: 0x06, value: 0x0F00, index: 0, length: 5 }
    );
    assert_eq!(
        bos_request(0x4C),
        ControlRequest { request_type: 0x80, request: 0x06, value: 0x0F00, index: 0, length: 0x4C }
    );
    assert_eq!(
        url_request(0x42, 0x01),
        ControlRequest { request_type: 0xC0, request: 0x42, value: 0x01, index: 0x02, length: 255 }
    );
}

#[test]
fn transfer_routes() {
    let bulk_out = UsbEndpoint::new(4, Direction::Out, UsbEndpointType::Bulk, 64);
    assert_eq!(transfer_route(bulk_out), TransferRoute { bulk: true, address: 0x04 });
    let interrupt_in = UsbEndpoint::new(1, Direction::In, UsbEndpointType::Interrupt, 16);
    assert_eq!(transfer_route(interrupt_in), TransferRoute { bulk: false, address: 0x81 });
}

#[test]
fn received_prefix_cuts_to_the_reported_count() {
    assert_eq!(received_prefix(vec![1, 2, 3, 4], 2), vec![1, 2]);
    assert_eq!(received_prefix(vec![1, 2, 3, 4], 0), Vec::<u8>::new());
    assert_eq!(received_prefix(vec![1, 2, 3, 4], 4), vec![1, 2, 3, 4]);
    assert_eq!(received_prefix(vec![1, 2, 3, 4], 9), vec![1, 2, 3, 4]);
}

#[test]
fn landing_page_from_replies() {
    let header = [0x05, 0x0F, 0x1D, 0x00, 0x01];
    let bos = [
        0x05, 0x0F, 0x1D, 0x00, 0x01, 0x18, 0x10, 0x05, 0x00, 0x38, 0xB6, 0x08, 0x34, 0xA9, 0x09,
        0xA0, 0x47, 0x8B, 0xFD, 0xA0, 0x76, 0x88, 0x15, 0xB6, 0x65, 0x00, 0x01, 0x01, 0x01,
    ];
    let mut reply = vec![0x2F, 0x03, 0x01];
    reply.extend_from_slice(b"webusb.github.io/arduino/demos/console");
    reply[0] = reply.len() as u8;
    reply.resize(255, 0);
    assert_eq!(
        landing_page_url(&header, &bos, &reply),
        Some("https://webusb.github.io/arduino/demos/console".to_string())
    );
    // An incomplete header, or a BOS descriptor without the capability,
    // gives no landing page whatever the URL reply holds.
    assert_eq!(landing_page_url(&header[..4], &bos, &reply), None);
    assert_eq!(landing_page_url(&header, &bos[..5], &reply), None);
    // A reply with an unknown scheme gives none either.
    let mut bad_scheme = reply.clone();
    bad_scheme[2] = 2;
    assert_eq!(landing_page_url(&header, &bos, &bad_scheme), None);
}
