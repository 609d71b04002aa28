use vstd::prelude::*;
use vstd::string::StringExecFns;

use crate::constants::DESCRIPTOR_MIN_LENGTH;
use crate::constants::DESCRIPTOR_TYPE;
use crate::constants::DEVICE_CAPABILITY_DESCRIPTOR_TYPE;
use crate::constants::PLATFORM_DEV_CAPABILITY_TYPE;

verus! {

/// Byte `k` of the little-endian encoding of the WebUSB Platform Capability
/// UUID {3408b638-09a9-47a0-8bfd-a0768815b665}.
pub open spec fn webusb_uuid_byte(k: int) -> u8 {
    if k == 0 { 0x38 }
    else if k == 1 { 0xB6 }
    else if k == 2 { 0x08 }
    else if k == 3 { 0x34 }
    else if k == 4 { 0xA9 }
    else if k == 5 { 0x09 }
    else if k == 6 { 0xA0 }
    else if k == 7 { 0x47 }
    else if k == 8 { 0x8B }
    else if k == 9 { 0xFD }
    else if k == 10 { 0xA0 }
    else if k == 11 { 0x76 }
    else if k == 12 { 0x88 }
    else if k == 13 { 0x15 }
    else if k == 14 { 0xB6 }
    else { 0x65 }
}

/// The sixteen bytes of the WebUSB Platform Capability UUID, as they appear
/// on the wire.
pub open spec fn webusb_uuid() -> Seq<u8> {
    Seq::new(16, |k: int| webusb_uuid_byte(k))
}

/// A little-endian 16-bit field.
pub open spec fn le16(lo: u8, hi: u8) -> int {
    lo as int + 256 * hi as int
}

/// The `(bVendorCode, iLandingPage)` pair found by scanning `n` Device
/// Capability descriptors of `b`, the first of them at offset `off`.
pub open spec fn scan_capabilities(b: Seq<u8>, off: int, n: nat) -> Option<(u8, u8)>
    decreases n,
{
    if n == 0 || off < 0 || off >= b.len() {
        None
    } else {
        let cap_len = b[off] as int;
        if cap_len < 3 || off + cap_len > b.len() {
            None
        } else if b[off + 1] != 0x10 {
            None
        } else if b[off + 2] != 0x05 {
            scan_capabilities(b, off + cap_len, (n - 1) as nat)
        } else if cap_len < 20 {
            None
        } else if b.subrange(off + 4, off + 20) != webusb_uuid() {
            scan_capabilities(b, off + cap_len, (n - 1) as nat)
        } else if cap_len < 22 {
            None
        } else if le16(b[off + 20], b[off + 21]) < 0x0100 {
            scan_capabilities(b, off + cap_len, (n - 1) as nat)
        } else if cap_len < 24 {
            None
        } else {
            Some((b[off + 22], b[off + 23]))
        }
    }
}

/// Whether `b` starts with a well-formed BOS descriptor header.
pub open spec fn valid_bos_header(b: Seq<u8>) -> bool {
    &&& b.len() >= 5
    &&& b[0] == 5
    &&& b[1] == 0x0F
    &&& 5 <= le16(b[2], b[3]) <= b.len()
}

/// The WebUSB capability that a BOS descriptor announces, if any.
pub open spec fn bos_capability(b: Seq<u8>) -> Option<(u8, u8)> {
    if valid_bos_header(b) {
        scan_capabilities(b, 5, b[4] as nat)
    } else {
        None
    }
}

/// Byte `k` of the WebUSB Platform Capability UUID.
fn uuid_byte(k: usize) -> (r: u8)
    requires
        k < 16,
    ensures
        r == webusb_uuid_byte(k as int),
{
    match k {
        0 => 0x38,
        1 => 0xB6,
        2 => 0x08,
        3 => 0x34,
        4 => 0xA9,
        5 => 0x09,
        6 => 0xA0,
        7 => 0x47,
        8 => 0x8B,
        9 => 0xFD,
        10 => 0xA0,
        11 => 0x76,
        12 => 0x88,
        13 => 0x15,
        14 => 0xB6,
        _ => 0x65,
    }
}

/// Whether the sixteen bytes of `bytes` at `start` are the WebUSB UUID.
fn is_webusb_uuid(bytes: &[u8], start: usize) -> (r: bool)
    requires
        start + 16 <= bytes@.len(),
    ensures
        r == (bytes@.subrange(start as int, start + 16) == webusb_uuid()),
{
    let len = bytes.len();
    let mut k: usize = 0;
    while k < 16
        invariant
            k <= 16,
            len == bytes@.len(),
            start + 16 <= len,
            forall|j: int| 0 <= j < k ==> bytes@[start + j] == webusb_uuid_byte(j),
        decreases 16 - k,
    {
        if bytes[start + k] != uuid_byte(k) {
            proof {
                let s = bytes@.subrange(start as int, start + 16);
                assert(s[k as int] != webusb_uuid()[k as int]);
            }
            return false;
        }
        k = k + 1;
    }
    assert(bytes@.subrange(start as int, start + 16) =~= webusb_uuid());
    true
}

/// Finds the WebUSB Platform Capability descriptor in a BOS descriptor and
/// returns its `(bVendorCode, iLandingPage)` pair.
///
/// Capabilities that are not Platform capabilities, whose UUID is not the
/// WebUSB one, or whose bcdVersion is below 1.0 are skipped. Any malformed
/// input gives `None`; no input makes it panic.
pub fn parse_bos(bytes: &[u8]) -> (r: Option<(u8, u8)>)
    ensures
        r == bos_capability(bytes@),
        bytes@.len() < 5 ==> r is None,
{
    if bytes.len() < 5 {
        return None;
    }
    let total_length: u16 = bytes[2] as u16 + (bytes[3] as u16) * 256;
    if bytes[0] != 5 || bytes[1] as u16 != crate::constants::BOS_DESCRIPTOR_TYPE {
        return None;
    }
    if total_length < 5 || total_length as usize > bytes.len() {
        return None;
    }
    let num_device_caps = bytes[4];
    let mut off: usize = 5;
    let mut i: u8 = 0;
    while i < num_device_caps
        invariant
            valid_bos_header(bytes@),
            num_device_caps == bytes@[4],
            5 <= off <= bytes@.len(),
            i <= num_device_caps,
            bos_capability(bytes@) == scan_capabilities(
                bytes@,
                off as int,
                (num_device_caps - i) as nat,
            ),
        decreases num_device_caps - i,
    {
        if off >= bytes.len() {
            return None;
        }
        let cap_len = bytes[off] as usize;
        if cap_len < 3 || cap_len > bytes.len() - off {
            return None;
        }
        if bytes[off + 1] != DEVICE_CAPABILITY_DESCRIPTOR_TYPE {
            return None;
        }
        if bytes[off + 2] == PLATFORM_DEV_CAPABILITY_TYPE {
            if cap_len < 20 {
                return None;
            }
            if is_webusb_uuid(bytes, off + 4) {
                if cap_len < 22 {
                    return None;
                }
                let version: u16 = bytes[off + 20] as u16 + (bytes[off + 21] as u16) * 256;
                if version >= 0x0100 {
                    if cap_len < 24 {
                        return None;
                    }
                    return Some((bytes[off + 22], bytes[off + 23]));
                }
            }
        }
        off = off + cap_len;
        i = i + 1;
    }
    None
}

/// What `String::from_utf8_lossy` makes of a byte sequence: valid UTF-8 is
/// decoded, each invalid sequence becomes U+FFFD.
pub uninterp spec fn utf8_lossy(b: Seq<u8>) -> Seq<char>;

/// Relies on `String::from_utf8_lossy`: decodes bytes as UTF-8, replacing
/// invalid sequences; the result depends on the bytes alone.
#[verifier::external_body]
fn decode_utf8_lossy(bytes: &[u8]) -> (r: String)
    ensures
        r@ == utf8_lossy(bytes@),
{
    String::from_utf8_lossy(bytes).into_owned()
}

/// The scheme prefix that a URL descriptor's bScheme byte selects.
pub open spec fn url_scheme(scheme: u8) -> Option<Seq<char>> {
    if scheme == 0 {
        Some("http://"@)
    } else if scheme == 1 {
        Some("https://"@)
    } else {
        None
    }
}

/// Whether `b` starts with a well-formed URL descriptor header.
pub open spec fn valid_url_header(b: Seq<u8>) -> bool {
    &&& b.len() >= 3
    &&& b[0] >= 3
    &&& b[0] <= b.len()
    &&& b[1] == 0x03
}

/// The URL that a WebUSB URL descriptor encodes, if it is well formed.
pub open spec fn webusb_url(b: Seq<u8>) -> Option<Seq<char>> {
    if valid_url_header(b) && url_scheme(b[2]) is Some {
        Some(url_scheme(b[2])->0 + utf8_lossy(b.subrange(3, b[0] as int)))
    } else {
        None
    }
}

/// Decodes a WebUSB URL descriptor: bLength, bDescriptorType, bScheme and
/// then the URL without its scheme. Gives `None` on a malformed descriptor
/// or an unknown scheme; no input makes it panic.
pub fn parse_webusb_url(bytes: &[u8]) -> (r: Option<String>)
    ensures
        r is Some <==> webusb_url(bytes@) is Some,
        r is Some ==> r->0@ == webusb_url(bytes@)->0,
        bytes@.len() >= 3 && bytes@[2] >= 2 ==> r is None,
{
    if bytes.len() < DESCRIPTOR_MIN_LENGTH as usize {
        return None;
    }
    let length = bytes[0];
    if length < DESCRIPTOR_MIN_LENGTH || length as usize > bytes.len() || bytes[1] != DESCRIPTOR_TYPE {
        return None;
    }
    let mut url = match bytes[2] {
        0 => "http://".to_owned(),
        1 => "https://".to_owned(),
        _ => return None,
    };
    let path = decode_utf8_lossy(vstd::slice::slice_subrange(bytes, 3, length as usize));
    url.append(path.as_str());
    Some(url)
}

/// A Platform capability whose UUID differs from the WebUSB one in any byte
/// is skipped, and the scan goes on with the next capability.
pub proof fn foreign_platform_capability_is_skipped(b: Seq<u8>, off: int, n: nat)
    requires
        n > 0,
        0 <= off < b.len(),
        b[off] >= 20,
        off + b[off] <= b.len(),
        b[off + 1] == 0x10,
        b[off + 2] == 0x05,
        b.subrange(off + 4, off + 20) != webusb_uuid(),
    ensures
        scan_capabilities(b, off, n) == scan_capabilities(b, off + b[off], (n - 1) as nat),
{
}

/// A WebUSB capability with bcdVersion 0x00FF is skipped, and one with
/// bcdVersion 0x0100 is accepted.
pub proof fn webusb_capability_version_gate(b: Seq<u8>, off: int, n: nat)
    requires
        n > 0,
        0 <= off < b.len(),
        b[off] >= 24,
        off + b[off] <= b.len(),
        b[off + 1] == 0x10,
        b[off + 2] == 0x05,
        b.subrange(off + 4, off + 20) == webusb_uuid(),
    ensures
        le16(b[off + 20], b[off + 21]) == 0x00FF ==> scan_capabilities(b, off, n) == scan_capabilities(
            b,
            off + b[off],
            (n - 1) as nat,
        ),
        le16(b[off + 20], b[off + 21]) == 0x0100 ==> scan_capabilities(b, off, n) == Some(
            (b[off + 22], b[off + 23]),
        ),
{
}

} // verus!
