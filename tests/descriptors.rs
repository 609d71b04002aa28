use webusb::parse_bos;
use webusb::parse_webusb_url;

const WEBUSB_UUID: [u8; 16] = [
    0x38, 0xB6, 0x08, 0x34, 0xA9, 0x09, 0xA0, 0x47, 0x8B, 0xFD, 0xA0, 0x76, 0x88, 0x15, 0xB6, 0x65,
];

/// A BOS descriptor holding the given capabilities.
fn bos(caps: &[Vec<u8>]) -> Vec<u8> {
    let body: usize = caps.iter().map(|c| c.len()).sum();
    let total = 5 + body;
    let mut out = vec![0x05, 0x0F, (total & 0xFF) as u8, (total >> 8) as u8, caps.len() as u8];
    for c in caps {
        out.extend_from_slice(c);
    }
    out
}

/// A WebUSB platform capability with the given UUID and bcdVersion.
fn webusb_cap(uuid: [u8; 16], version: u16, vendor_code: u8, landing_page: u8) -> Vec<u8> {
    let mut out = vec![0x18, 0x10, 0x05, 0x00];
    out.extend_from_slice(&uuid);
    out.push((version & 0xFF) as u8);
    out.push((version >> 8) as u8);
    out.push(vendor_code);
    out.push(landing_page);
    out
}

#[test]
fn test_parse_bos() {
    assert_eq!(
        parse_bos(&[
            // BOS descriptor.
            0x05, 0x0F, 0x4C, 0x00, 0x03, // Container ID descriptor.
            0x14, 0x10, 0x04, 0x00, 0x2A, 0xF9, 0xF6, 0xC2, 0x98, 0x10, 0x2B, 0x49,
            0x8E, 0x64, 0xFF, 0x01, 0x0C, 0x7F, 0x94, 0xE1,
            // WebUSB Platform Capability descriptor.
            0x18, 0x10, 0x05, 0x00, 0x38, 0xB6, 0x08, 0x34, 0xA9, 0x09, 0xA0, 0x47,
            0x8B, 0xFD, 0xA0, 0x76, 0x88, 0x15, 0xB6, 0x65, 0x00, 0x01, 0x42, 0x01,
            // Microsoft OS 2.0 Platform Capability descriptor.
            0x1C, 0x10, 0x05, 0x00, 0xDF, 0x60, 0xDD, 0xD8, 0x89, 0x45, 0xC7, 0x4C,
            0x9C, 0xD2, 0x65, 0x9D, 0x9E, 0x64, 0x8A, 0x9F, 0x00, 0x00, 0x03, 0x06,
            0x00, 0x00, 0x01, 0x00,
        ]),
        Some((0x42, 0x01))
    );
}

#[test]
fn test_parse_url_descriptor() {
    assert_eq!(
        parse_webusb_url(&[
            0x19, 0x03, 0x01, b'e', b'x', b'a', b'm', b'p', b'l', b'e', b'.', b'c',
            b'o', b'm', b'/', b'i', b'n', b'd', b'e', b'x', b'.', b'h', b't', b'm',
            b'l',
        ]),
        Some("https://example.com/index.html".to_string())
    );
}

#[test]
fn bos_shorter_than_header_is_absent() {
    assert_eq!(parse_bos(&[]), None);
    assert_eq!(parse_bos(&[0x05]), None);
    assert_eq!(parse_bos(&[0x05, 0x0F, 0x05, 0x00]), None);
}

#[test]
fn bos_with_bad_header_is_absent() {
    let good = bos(&[webusb_cap(WEBUSB_UUID, 0x0100, 0x42, 0x01)]);
    assert_eq!(parse_bos(&good), Some((0x42, 0x01)));

    let mut wrong_length = good.clone();
    wrong_length[0] = 6;
    assert_eq!(parse_bos(&wrong_length), None);

    let mut wrong_type = good.clone();
    wrong_type[1] = 0x02;
    assert_eq!(parse_bos(&wrong_type), None);

    let mut total_too_small = good.clone();
    total_too_small[2] = 4;
    assert_eq!(parse_bos(&total_too_small), None);

    let mut total_too_large = good.clone();
    total_too_large[2] = (good.len() + 1) as u8;
    assert_eq!(parse_bos(&total_too_large), None);
}

#[test]
fn bos_total_length_uses_its_high_byte() {
    // wTotalLength 0x0105 exceeds the input: the high byte counts.
    let mut input = bos(&[webusb_cap(WEBUSB_UUID, 0x0100, 0x42, 0x01)]);
    input[2] = 0x05;
    input[3] = 0x01;
    assert_eq!(parse_bos(&input), None);
}

#[test]
fn bos_without_capabilities_is_absent() {
    assert_eq!(parse_bos(&[0x05, 0x0F, 0x05, 0x00, 0x00]), None);
}

#[test]
fn bos_with_more_capabilities_announced_than_present_is_absent() {
    let mut input = bos(&[webusb_cap(WEBUSB_UUID, 0x00FF, 0x42, 0x01)]);
    input[4] = 2;
    assert_eq!(parse_bos(&input), None);
}

#[test]
fn bos_uuid_differing_in_any_byte_is_skipped() {
    for k in 0..16 {
        let mut uuid = WEBUSB_UUID;
        uuid[k] ^= 0x01;
        let input = bos(&[
            webusb_cap(uuid, 0x0100, 0x11, 0x22),
            webusb_cap(WEBUSB_UUID, 0x0100, 0x42, 0x07),
        ]);
        assert_eq!(parse_bos(&input), Some((0x42, 0x07)), "byte {}", k);
        let alone = bos(&[webusb_cap(uuid, 0x0100, 0x11, 0x22)]);
        assert_eq!(parse_bos(&alone), None, "byte {}", k);
    }
}

#[test]
fn bos_version_below_one_is_skipped() {
    let old_first = bos(&[
        webusb_cap(WEBUSB_UUID, 0x00FF, 0x11, 0x22),
        webusb_cap(WEBUSB_UUID, 0x0100, 0x42, 0x01),
    ]);
    assert_eq!(parse_bos(&old_first), Some((0x42, 0x01)));
    let only_old = bos(&[webusb_cap(WEBUSB_UUID, 0x00FF, 0x11, 0x22)]);
    assert_eq!(parse_bos(&only_old), None);
    let only_new = bos(&[webusb_cap(WEBUSB_UUID, 0x0100, 0x11, 0x22)]);
    assert_eq!(parse_bos(&only_new), Some((0x11, 0x22)));
}

#[test]
fn bos_non_platform_capability_is_skipped() {
    let container_id = vec![
        0x14, 0x10, 0x04, 0x00, 0x2A, 0xF9, 0xF6, 0xC2, 0x98, 0x10, 0x2B, 0x49, 0x8E, 0x64, 0xFF,
        0x01, 0x0C, 0x7F, 0x94, 0xE1,
    ];
    let input = bos(&[container_id, webusb_cap(WEBUSB_UUID, 0x0100, 0x42, 0x01)]);
    assert_eq!(parse_bos(&input), Some((0x42, 0x01)));
}

#[test]
fn bos_malformed_capability_is_absent() {
    // bLength below 3.
    let mut input = bos(&[webusb_cap(WEBUSB_UUID, 0x0100, 0x42, 0x01)]);
    input[5] = 2;
    assert_eq!(parse_bos(&input), None);
    // Not a device capability descriptor.
    let mut input = bos(&[webusb_cap(WEBUSB_UUID, 0x0100, 0x42, 0x01)]);
    input[6] = 0x11;
    assert_eq!(parse_bos(&input), None);
    // A platform capability too short for its UUID.
    let input = bos(&[vec![0x13, 0x10, 0x05, 0x00, 0, 0, 0, 0, 0, 0, 0, 0, 0, 0, 0, 0, 0, 0, 0]]);
    assert_eq!(parse_bos(&input), None);
    // A WebUSB capability too short for its fields.
    let mut cap = webusb_cap(WEBUSB_UUID, 0x0100, 0x42, 0x01);
    cap.truncate(23);
    cap[0] = 23;
    assert_eq!(parse_bos(&bos(&[cap])), None);
}

#[test]
fn url_with_http_scheme() {
    assert_eq!(
        parse_webusb_url(&[0x0E, 0x03, 0x00, b'e', b'x', b'a', b'm', b'p', b'l', b'e', b'.', b'c', b'o', b'm']),
        Some("http://example.com".to_string())
    );
}

#[test]
fn url_with_unknown_scheme_is_absent() {
    assert_eq!(parse_webusb_url(&[0x05, 0x03, 0x02, b'a', b'b']), None);
    assert_eq!(parse_webusb_url(&[0x05, 0x03, 0xFF, b'a', b'b']), None);
}

#[test]
fn url_stops_at_its_length() {
    assert_eq!(
        parse_webusb_url(&[0x05, 0x03, 0x01, b'a', b'b', b'c', b'd']),
        Some("https://ab".to_string())
    );
    assert_eq!(parse_webusb_url(&[0x03, 0x03, 0x01]), Some("https://".to_string()));
}

#[test]
fn url_malformed_is_absent() {
    assert_eq!(parse_webusb_url(&[]), None);
    assert_eq!(parse_webusb_url(&[0x03, 0x03]), None);
    assert_eq!(parse_webusb_url(&[0x02, 0x03, 0x01]), None);
    assert_eq!(parse_webusb_url(&[0x06, 0x03, 0x01, b'a']), None);
    assert_eq!(parse_webusb_url(&[0x04, 0x04, 0x01, b'a']), None);
}

#[test]
fn url_invalid_utf8_is_replaced() {
    assert_eq!(
        parse_webusb_url(&[0x05, 0x03, 0x01, b'a', 0xFF]),
        Some("https://a\u{FFFD}".to_string())
    );
}
