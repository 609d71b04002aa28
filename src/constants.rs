use vstd::prelude::*;

verus! {

/// bDescriptorType of a Device Capability descriptor inside a BOS descriptor.
pub const DEVICE_CAPABILITY_DESCRIPTOR_TYPE: u8 = 0x10;

/// bDevCapabilityType of a Platform Capability descriptor.
pub const PLATFORM_DEV_CAPABILITY_TYPE: u8 = 0x05;

/// wIndex of the vendor request that fetches a WebUSB URL descriptor.
pub const GET_URL_REQUEST: u16 = 0x02;

/// bDescriptorType of the Binary device Object Store descriptor.
pub const BOS_DESCRIPTOR_TYPE: u16 = 0x0F;

/// bDescriptorType of a WebUSB URL descriptor.
pub const DESCRIPTOR_TYPE: u8 = 0x03;

/// Smallest bLength of a WebUSB URL descriptor.
pub const DESCRIPTOR_MIN_LENGTH: u8 = 3;

/// bRequest of the standard GET_DESCRIPTOR request.
pub const GET_DESCRIPTOR_REQUEST: u8 = 0x06;

/// Length of the BOS descriptor header.
pub const BOS_HEADER_LENGTH: u16 = 5;

} // verus!
