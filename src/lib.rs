//! WebUSB device semantics over a native USB host stack.
//!
//! The crate models the object tree a browser exposes through `navigator.usb`:
//! configurations, interfaces, alternate settings and endpoints, a per-device
//! lifecycle (open, configure, claim, transfer, release, close, reset) whose
//! preconditions are checked at every transition, and the parsers that
//! discover a device's WebUSB landing page.
pub mod backend;
pub mod constants;
pub mod descriptors;
pub mod device;
pub mod discovery;
pub mod error;
pub mod laws;
pub mod model;
pub mod request;
pub mod usb;

pub use backend::WebUsbDevice;
pub use descriptors::parse_bos;
pub use descriptors::parse_webusb_url;
pub use device::UsbDevice;
pub use device::UsbDeviceDescriptor;
pub use error::Error;
pub use error::Result;
pub use model::Direction;
pub use model::UsbAlternateInterface;
pub use model::UsbConfiguration;
pub use model::UsbControlTransferParameters;
pub use model::UsbEndpoint;
pub use model::UsbEndpointType;
pub use model::UsbInterface;
pub use model::UsbRecipient;
pub use model::UsbRequestType;
