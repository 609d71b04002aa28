use vstd::prelude::*;

use crate::error::Error;
use crate::model::control_setup_check;
use crate::model::alternate_position;
use crate::model::first_alternate;
use crate::model::first_interface;
use crate::model::first_interface_endpoint;
use crate::model::lemma_first_interface_endpoint_matches;
use crate::model::lemma_replace_interface_wf;
use crate::model::lemma_same_but_claims_refl;
use crate::model::lemma_same_but_claims_trans;
use crate::model::lemma_same_but_claims_wf;
use crate::model::Direction;
use crate::model::UsbConfiguration;
use crate::model::UsbControlTransferParameters;
use crate::model::UsbEndpoint;
use crate::model::UsbEndpointType;
use crate::model::UsbInterface;
use crate::model::UsbRecipient;
use crate::model::UsbRequestType;
use crate::request::control_request;
use crate::request::endpoint_address;
use crate::request::received_prefix;
use crate::request::transfer_route;
use crate::usb;
use crate::usb::HostDevice;
use crate::usb::HostHandle;

verus! {

/// The scalars of a device descriptor, with the string descriptors that the
/// host could read.
#[derive(Clone, Debug)]
pub struct UsbDeviceDescriptor {
    pub device_class: u8,
    pub device_subclass: u8,
    pub device_protocol: u8,
    /// JJ, M and N of bcdDevice 0xJJMN.
    pub device_version_major: u8,
    pub device_version_minor: u8,
    pub device_version_subminor: u8,
    /// JJ, M and N of bcdUSB 0xJJMN.
    pub usb_version_major: u8,
    pub usb_version_minor: u8,
    pub usb_version_subminor: u8,
    pub vendor_id: u16,
    pub product_id: u16,
    pub manufacturer_name: Option<String>,
    pub product_name: Option<String>,
    pub serial_number: Option<String>,
}

/// Timeout of device transfers: zero, which waits without bound.
pub const TRANSFER_TIMEOUT_SECS: u64 = 0;

/// The first configuration among `cfgs[..upto]` whose bConfigurationValue is
/// `v`.
pub open(crate) spec fn first_configuration(cfgs: Seq<UsbConfiguration>, v: u8, upto: int) -> Option<
    int,
>
    decreases upto,
{
    if upto <= 0 {
        None
    } else {
        match first_configuration(cfgs, v, upto - 1) {
            Some(c) => Some(c),
            None => if cfgs[upto - 1].configuration_value == v {
                Some(upto - 1)
            } else {
                None
            },
        }
    }
}

proof fn lemma_first_configuration_stable(cfgs: Seq<UsbConfiguration>, v: u8, a: int, b: int)
    requires
        0 <= a <= b,
        first_configuration(cfgs, v, a) is Some,
    ensures
        first_configuration(cfgs, v, b) == first_configuration(cfgs, v, a),
    decreases b - a,
{
    if b > a {
        lemma_first_configuration_stable(cfgs, v, a, b - 1);
    }
}

/// Finds the first configuration of `cfgs` with value `v`.
fn configuration_position(cfgs: &Vec<UsbConfiguration>, v: u8) -> (r: Option<usize>)
    ensures
        r is None <==> first_configuration(cfgs@, v, cfgs@.len() as int) is None,
        r matches Some(c) ==> first_configuration(cfgs@, v, cfgs@.len() as int) == Some(c as int)
            && c < cfgs@.len(),
{
    let mut i: usize = 0;
    while i < cfgs.len()
        invariant
            i <= cfgs@.len(),
            first_configuration(cfgs@, v, i as int) is None,
        decreases cfgs@.len() - i,
    {
        if cfgs[i].configuration_value == v {
            proof {
                lemma_first_configuration_stable(cfgs@, v, i + 1, cfgs@.len() as int);
            }
            return Some(i);
        }
        i = i + 1;
    }
    None
}

/// A USB device: its descriptors, its configuration tree, and its state,
/// which is whether it is opened, which configuration is selected, and which
/// interfaces of that configuration are claimed.
pub struct UsbDevice {
    /// Every configuration of the device, one per bNumConfigurations. The
    /// claims on the selected configuration's interfaces are kept here.
    pub(crate) configurations: Vec<UsbConfiguration>,
    /// The position in `configurations` of the selected configuration.
    pub(crate) active: Option<usize>,
    /// bDeviceClass.
    pub device_class: u8,
    /// bDeviceSubClass.
    pub device_subclass: u8,
    /// bDeviceProtocol.
    pub device_protocol: u8,
    /// JJ of bcdDevice 0xJJMN.
    pub device_version_major: u8,
    /// M of bcdDevice 0xJJMN.
    pub device_version_minor: u8,
    /// N of bcdDevice 0xJJMN.
    pub device_version_subminor: u8,
    /// The string descriptor that iManufacturer indexes.
    pub manufacturer_name: Option<String>,
    /// idProduct.
    pub product_id: u16,
    /// The string descriptor that iProduct indexes.
    pub product_name: Option<String>,
    /// The string descriptor that iSerialNumber indexes.
    pub serial_number: Option<String>,
    /// JJ of bcdUSB 0xJJMN.
    pub usb_version_major: u8,
    /// M of bcdUSB 0xJJMN.
    pub usb_version_minor: u8,
    /// N of bcdUSB 0xJJMN.
    pub usb_version_subminor: u8,
    /// idVendor.
    pub vendor_id: u16,
    pub(crate) opened: bool,
    pub(crate) url: Option<String>,
    pub(crate) device: HostDevice,
    pub(crate) device_handle: Option<HostHandle>,
}

impl UsbDevice {
    /// The configuration at position `c`.
    pub open(crate) spec fn cfg(self, c: int) -> UsbConfiguration {
        self.configurations@[c]
    }

    /// The interfaces of the selected configuration.
    pub open(crate) spec fn active_interfaces(self) -> Seq<UsbInterface> {
        self.cfg(self.active->0 as int).interfaces@
    }

    /// The device's invariant: it holds a backend handle exactly while it is
    /// opened, the selected configuration is one of its configurations, and
    /// an interface is claimed only while the device is opened and only in
    /// the selected configuration.
    pub open(crate) spec fn wf(self) -> bool {
        &&& self.opened == self.device_handle is Some
        &&& self.active matches Some(a) ==> a < self.configurations@.len()
        &&& forall|c: int| 0 <= c < self.configurations@.len() ==> #[trigger] self.cfg(c).wf()
        &&& forall|c: int, k: int|
            0 <= c < self.configurations@.len() && 0 <= k < self.cfg(c).interfaces@.len()
                && #[trigger] self.cfg(c).interfaces@[k].claimed ==> self.opened && self.active is Some
                && self.active->0 as int == c
    }

    pub open(crate) spec fn spec_opened(self) -> bool {
        self.opened
    }

    pub open(crate) spec fn has_handle(self) -> bool {
        self.device_handle is Some
    }

    pub open(crate) spec fn spec_configurations(self) -> Seq<UsbConfiguration> {
        self.configurations@
    }

    pub open(crate) spec fn spec_active(self) -> Option<usize> {
        self.active
    }

    pub open(crate) spec fn spec_url(self) -> Option<String> {
        self.url
    }

    /// No interface of any configuration is claimed.
    pub open(crate) spec fn no_claims(self) -> bool {
        forall|c: int, k: int|
            0 <= c < self.configurations@.len() && 0 <= k < self.cfg(c).interfaces@.len() ==> !(
            #[trigger] self.cfg(c).interfaces@[k].claimed)
    }

    /// Interface `n` of the selected configuration is claimed.
    pub open(crate) spec fn claimed(self, n: u8) -> bool {
        match self.active {
            Some(a) => match first_interface(self.cfg(a as int).interfaces@, n, self.cfg(a as int).interfaces@.len() as int) {
                Some(k) => self.cfg(a as int).interfaces@[k].claimed,
                None => false,
            },
            None => false,
        }
    }

    /// The scalars of `self` are those of descriptor `d`.
    pub open(crate) spec fn describes(self, d: UsbDeviceDescriptor) -> bool {
        &&& self.device_class == d.device_class
        &&& self.device_subclass == d.device_subclass
        &&& self.device_protocol == d.device_protocol
        &&& self.device_version_major == d.device_version_major
        &&& self.device_version_minor == d.device_version_minor
        &&& self.device_version_subminor == d.device_version_subminor
        &&& self.usb_version_major == d.usb_version_major
        &&& self.usb_version_minor == d.usb_version_minor
        &&& self.usb_version_subminor == d.usb_version_subminor
        &&& self.vendor_id == d.vendor_id
        &&& self.product_id == d.product_id
        &&& self.manufacturer_name == d.manufacturer_name
        &&& self.product_name == d.product_name
        &&& self.serial_number == d.serial_number
    }

    /// Everything but the configurations, the selection, the opened flag
    /// and the handle is the same in `self` and `o`.
    pub open(crate) spec fn same_records(self, o: UsbDevice) -> bool {
        &&& self.device_class == o.device_class
        &&& self.device_subclass == o.device_subclass
        &&& self.device_protocol == o.device_protocol
        &&& self.device_version_major == o.device_version_major
        &&& self.device_version_minor == o.device_version_minor
        &&& self.device_version_subminor == o.device_version_subminor
        &&& self.manufacturer_name == o.manufacturer_name
        &&& self.product_id == o.product_id
        &&& self.product_name == o.product_name
        &&& self.serial_number == o.serial_number
        &&& self.usb_version_major == o.usb_version_major
        &&& self.usb_version_minor == o.usb_version_minor
        &&& self.usb_version_subminor == o.usb_version_subminor
        &&& self.vendor_id == o.vendor_id
        &&& self.url == o.url
        &&& self.device == o.device
    }

    /// `self` is `o` with, at most, other claims.
    pub open(crate) spec fn same_but_claims(self, o: UsbDevice) -> bool {
        &&& self.same_records(o)
        &&& self.opened == o.opened
        &&& self.device_handle == o.device_handle
        &&& self.active == o.active
        &&& self.configurations@.len() == o.configurations@.len()
        &&& forall|c: int|
            0 <= c < self.configurations@.len() ==> #[trigger] self.cfg(c).same_but_claims(o.cfg(c))
    }

    /// `self` is `o` with the interface at position `k` of configuration `a`
    /// replaced by `itf`.
    pub open(crate) spec fn replaced_interface(self, o: UsbDevice, a: int, k: int, itf: UsbInterface) -> bool {
        &&& self.same_records(o)
        &&& self.opened == o.opened
        &&& self.device_handle == o.device_handle
        &&& self.active == o.active
        &&& self.configurations@.len() == o.configurations@.len()
        &&& forall|c: int| 0 <= c < self.configurations@.len() && c != a ==> #[trigger] self.cfg(c) == o.cfg(c)
        &&& self.cfg(a).configuration_name == o.cfg(a).configuration_name
        &&& self.cfg(a).configuration_value == o.cfg(a).configuration_value
        &&& self.cfg(a).interfaces@ == o.cfg(a).interfaces@.update(k, itf)
    }

    /// Where an operation on interface `n` stands: the device must be
    /// opened and the selected configuration must have that interface, whose
    /// position it gives.
    pub open(crate) spec fn interface_gate(self, n: u8) -> Result<int, Error> {
        if !self.opened {
            Err(Error::InvalidState)
        } else {
            match self.active {
                None => Err(Error::NotFound),
                Some(a) => match first_interface(self.cfg(a as int).interfaces@, n, self.cfg(a as int).interfaces@.len() as int) {
                    None => Err(Error::NotFound),
                    Some(k) => Ok(k),
                },
            }
        }
    }

    /// As `interface_gate`, and the interface must also be claimed.
    pub open(crate) spec fn claimed_interface_gate(self, n: u8) -> Result<int, Error> {
        match self.interface_gate(n) {
            Err(e) => Err(e),
            Ok(k) => if self.active_interfaces()[k].claimed {
                Ok(k)
            } else {
                Err(Error::InvalidState)
            },
        }
    }

    /// Where an operation on endpoint `n` with direction `d` stands: some
    /// interface of the selected configuration must have that endpoint; it
    /// gives the first such interface and endpoint.
    pub open(crate) spec fn endpoint_gate(self, n: u8, d: Direction) -> Result<(int, UsbEndpoint), Error> {
        match self.active {
            None => Err(Error::NotFound),
            Some(a) => match first_interface_endpoint(
                self.cfg(a as int).interfaces@,
                n,
                d,
                self.cfg(a as int).interfaces@.len() as int,
            ) {
                None => Err(Error::NotFound),
                Some(p) => Ok(p),
            },
        }
    }

    /// Where a bulk or interrupt transfer on endpoint `n` with direction `d`
    /// stands: as `endpoint_gate`, then the endpoint must be a bulk or an
    /// interrupt one, the device must be opened, and the endpoint's interface
    /// must be claimed.
    pub open(crate) spec fn transfer_gate(self, n: u8, d: Direction) -> Result<UsbEndpoint, Error> {
        match self.endpoint_gate(n, d) {
            Err(e) => Err(e),
            Ok(p) => if !(p.1.endpoint_type == UsbEndpointType::Bulk || p.1.endpoint_type
                == UsbEndpointType::Interrupt) {
                Err(Error::InvalidAccess)
            } else if !self.opened {
                Err(Error::InvalidState)
            } else if !self.active_interfaces()[p.0].claimed {
                Err(Error::InvalidState)
            } else {
                Ok(p.1)
            },
        }
    }

    /// Where clearing a halt on endpoint `n` with direction `d` stands: as
    /// `endpoint_gate`, then the device must be opened and the endpoint's
    /// interface claimed.
    pub open(crate) spec fn halt_gate(self, n: u8, d: Direction) -> Result<(), Error> {
        match self.endpoint_gate(n, d) {
            Err(e) => Err(e),
            Ok(p) => if self.opened && self.active_interfaces()[p.0].claimed {
                Ok(())
            } else {
                Err(Error::InvalidState)
            },
        }
    }

    /// Where a control transfer stands: the device must be opened, and the
    /// setup must pass the check against the selected configuration, if any.
    pub open(crate) spec fn control_gate(self, setup: UsbControlTransferParameters) -> Result<(), Error> {
        if !self.opened {
            Err(Error::InvalidState)
        } else {
            match self.active {
                None => Ok(()),
                Some(a) => control_setup_check(self.cfg(a as int), setup),
            }
        }
    }

    /// Where selecting configuration `v` stands: the device must be opened
    /// and have a configuration with that value, whose position it gives.
    pub open(crate) spec fn configuration_gate(self, v: u8) -> Result<int, Error> {
        if !self.opened {
            Err(Error::InvalidState)
        } else {
            match first_configuration(self.configurations@, v, self.configurations@.len() as int) {
                None => Err(Error::NotFound),
                Some(c) => Ok(c),
            }
        }
    }

    /// What `open` does: nothing on an opened device; otherwise it opens the
    /// device, or fails with a fault of the host stack and changes nothing.
    pub open(crate) spec fn open_step(old: UsbDevice, new: UsbDevice, r: Result<(), Error>) -> bool {
        if old.opened {
            r is Ok && new == old
        } else {
            match r {
                Ok(_) => {
                    &&& new.opened
                    &&& new.same_records(old)
                    &&& new.active == old.active
                    &&& new.configurations == old.configurations
                },
                Err(e) => e is Usb && new == old,
            }
        }
    }

    /// What `close` does: it always succeeds; nothing on a closed device;
    /// otherwise the device is closed and every claim is dropped.
    pub open(crate) spec fn close_step(old: UsbDevice, new: UsbDevice, r: Result<(), Error>) -> bool {
        &&& r is Ok
        &&& !new.opened
        &&& new.no_claims()
        &&& if !old.opened {
            new == old
        } else {
            &&& new.same_records(old)
            &&& new.active == old.active
            &&& new.configurations@.len() == old.configurations@.len()
            &&& forall|c: int|
                0 <= c < new.configurations@.len() ==> #[trigger] new.cfg(c).same_but_claims(old.cfg(c))
        }
    }

    /// What `select_configuration(v)` does.
    pub open(crate) spec fn select_configuration_step(
        old: UsbDevice,
        new: UsbDevice,
        v: u8,
        r: Result<(), Error>,
    ) -> bool {
        match old.configuration_gate(v) {
            Err(e) => r == Err::<(), Error>(e) && new == old,
            Ok(c) => match r {
                Ok(_) => {
                    &&& new.same_records(old)
                    &&& new.opened == old.opened
                    &&& new.device_handle == old.device_handle
                    &&& new.active == Some(c as usize)
                    &&& new.no_claims()
                    &&& new.configurations@.len() == old.configurations@.len()
                    &&& forall|i: int|
                        0 <= i < new.configurations@.len() ==> #[trigger] new.cfg(i).same_but_claims(
                            old.cfg(i),
                        )
                },
                Err(e) => e is Usb && new == old,
            },
        }
    }

    /// What `claim_interface(n)` (with `claimed` set) or
    /// `release_interface(n)` (with it unset) does.
    pub open(crate) spec fn claim_step(
        old: UsbDevice,
        new: UsbDevice,
        n: u8,
        claimed: bool,
        r: Result<(), Error>,
    ) -> bool {
        match old.interface_gate(n) {
            Err(e) => r == Err::<(), Error>(e) && new == old,
            Ok(k) => if old.active_interfaces()[k].claimed == claimed {
                r is Ok && new == old
            } else {
                match r {
                    Ok(_) => new.replaced_interface(
                        old,
                        old.active->0 as int,
                        k,
                        old.active_interfaces()[k].with_claim(claimed),
                    ),
                    Err(e) => e is Usb && new == old,
                }
            },
        }
    }

    /// What `select_alternate_interface(n, setting)` does.
    pub open(crate) spec fn select_alternate_step(
        old: UsbDevice,
        new: UsbDevice,
        n: u8,
        setting: u8,
        r: Result<(), Error>,
    ) -> bool {
        match old.claimed_interface_gate(n) {
            Err(e) => r == Err::<(), Error>(e) && new == old,
            Ok(k) => {
                let itf = old.active_interfaces()[k];
                match first_alternate(itf.alternates@, setting, itf.alternates@.len() as int) {
                    None => r == Err::<(), Error>(Error::NotFound) && new == old,
                    Some(j) => match r {
                        Ok(_) => new.replaced_interface(
                            old,
                            old.active->0 as int,
                            k,
                            UsbInterface { alternate: j as usize, ..itf },
                        ),
                        Err(e) => e is Usb && new == old,
                    },
                }
            },
        }
    }

    /// What `reset` does: on an opened device it resets the device and drops
    /// every claim, or fails with a fault of the host stack and changes
    /// nothing.
    pub open(crate) spec fn reset_step(old: UsbDevice, new: UsbDevice, r: Result<(), Error>) -> bool {
        if !old.opened {
            r == Err::<(), Error>(Error::InvalidState) && new == old
        } else {
            match r {
                Ok(_) => {
                    &&& new.same_records(old)
                    &&& new.opened
                    &&& new.device_handle == old.device_handle
                    &&& new.active == old.active
                    &&& new.no_claims()
                    &&& new.configurations@.len() == old.configurations@.len()
                    &&& forall|c: int|
                        0 <= c < new.configurations@.len() ==> #[trigger] new.cfg(c).same_but_claims(
                            old.cfg(c),
                        )
                },
                Err(e) => e is Usb && new == old,
            }
        }
    }
}

impl UsbDevice {
    /// Builds the record of a closed device from what enumeration read: its
    /// descriptor, its configurations, the value of the configuration that
    /// is active on the device if any, and its WebUSB landing page if any.
    /// Claims that the configurations carry are dropped.
    pub fn new(
        device: HostDevice,
        descriptor: UsbDeviceDescriptor,
        configurations: Vec<UsbConfiguration>,
        active_configuration: Option<u8>,
        url: Option<String>,
    ) -> (r: Self)
        requires
            forall|c: int| 0 <= c < configurations@.len() ==> #[trigger] configurations@[c].wf(),
        ensures
            r.wf(),
            !r.spec_opened(),
            r.no_claims(),
            r.spec_url() == url,
            r.spec_configurations().len() == configurations@.len(),
            forall|c: int|
                0 <= c < configurations@.len() ==> #[trigger] r.spec_configurations()[c].same_but_claims(
                    configurations@[c],
                ),
            r.spec_active() == (match active_configuration {
                Some(v) => match first_configuration(configurations@, v, configurations@.len() as int) {
                    Some(c) => Some(c as usize),
                    None => None::<usize>,
                },
                None => None::<usize>,
            }),
            r.describes(descriptor),
    {
        let ghost given = configurations@;
        let mut configurations = configurations;
        let mut i: usize = 0;
        while i < configurations.len()
            invariant
                i <= configurations@.len(),
                configurations@.len() == given.len(),
                forall|c: int| 0 <= c < given.len() ==> #[trigger] configurations@[c].same_but_claims(given[c]),
                forall|c: int| 0 <= c < given.len() ==> #[trigger] configurations@[c].wf(),
                forall|c: int| 0 <= c < i ==> #[trigger] configurations@[c].unclaimed(),
                forall|c: int| 0 <= c < given.len() ==> #[trigger] given[c].wf(),
            decreases given.len() - i,
        {
            let ghost before = configurations@;
            configurations[i].clear_claims();
            proof {
                assert forall|c: int| 0 <= c < given.len() implies #[trigger] configurations@[c].same_but_claims(
                    given[c],
                ) && configurations@[c].wf() by {
                    if c == i {
                        lemma_same_but_claims_trans(configurations@[c], before[c], given[c]);
                        lemma_same_but_claims_wf(configurations@[c], given[c]);
                    } else {
                        assert(configurations@[c] == before[c]);
                    }
                }
                assert forall|c: int| 0 <= c < i + 1 implies #[trigger] configurations@[c].unclaimed() by {
                    if c != i {
                        assert(configurations@[c] == before[c]);
                    }
                }
            }
            i = i + 1;
        }
        proof {
            assert forall|c: int| 0 <= c < given.len() implies configurations@[c].configuration_value
                == #[trigger] given[c].configuration_value by {
                assert(configurations@[c].same_but_claims(given[c]));
            }
            assert(first_configuration(configurations@, 0, 0) is None);
            lemma_same_values_same_first(configurations@, given, active_configuration);
        }
        let active = match active_configuration {
            Some(v) => configuration_position(&configurations, v),
            None => None,
        };
        let r = UsbDevice {
            configurations,
            active,
            device_class: descriptor.device_class,
            device_subclass: descriptor.device_subclass,
            device_protocol: descriptor.device_protocol,
            device_version_major: descriptor.device_version_major,
            device_version_minor: descriptor.device_version_minor,
            device_version_subminor: descriptor.device_version_subminor,
            manufacturer_name: descriptor.manufacturer_name,
            product_id: descriptor.product_id,
            product_name: descriptor.product_name,
            serial_number: descriptor.serial_number,
            usb_version_major: descriptor.usb_version_major,
            usb_version_minor: descriptor.usb_version_minor,
            usb_version_subminor: descriptor.usb_version_subminor,
            vendor_id: descriptor.vendor_id,
            opened: false,
            url,
            device,
            device_handle: None,
        };
        proof {
            lemma_unclaimed_no_claims(r);
        }
        r
    }

    /// Whether the device is opened.
    pub fn opened(&self) -> (r: bool)
        ensures
            r == self.spec_opened(),
    {
        self.opened
    }

    /// The WebUSB landing page that the device announced, if any.
    pub fn url(&self) -> (r: &Option<String>)
        ensures
            *r == self.spec_url(),
    {
        &self.url
    }

    /// Every configuration of the device.
    pub fn configurations(&self) -> (r: &Vec<UsbConfiguration>)
        ensures
            r@ == self.spec_configurations(),
    {
        &self.configurations
    }

    /// The selected configuration, if any.
    pub fn configuration(&self) -> (r: Option<&UsbConfiguration>)
        requires
            self.wf(),
        ensures
            r is None <==> self.spec_active() is None,
            r matches Some(c) ==> *c == self.spec_configurations()[self.spec_active()->0 as int],
    {
        match self.active {
            Some(a) => Some(&self.configurations[a]),
            None => None,
        }
    }

    /// Opens the device. Opening an opened device does nothing.
    pub fn open(&mut self) -> (r: Result<(), Error>)
        requires
            old(self).wf(),
        ensures
            final(self).wf(),
            Self::open_step(*old(self), *final(self), r),
    {
        if self.opened {
            return Ok(());
        }
        match usb::open_device(&self.device) {
            Ok(handle) => {
                let ghost start = *self;
                self.device_handle = Some(handle);
                self.opened = true;
                proof {
                    assert forall|c: int, k: int|
                        0 <= c < self.configurations@.len() && 0 <= k < self.cfg(c).interfaces@.len()
                            implies !(#[trigger] self.cfg(c).interfaces@[k].claimed) by {
                        assert(self.cfg(c) == start.cfg(c));
                        if start.cfg(c).interfaces@[k].claimed {
                            assert(start.opened);
                        }
                    }
                    assert forall|c: int| 0 <= c < self.configurations@.len() implies #[trigger] self.cfg(c).wf() by {
                        assert(self.cfg(c) == start.cfg(c));
                        assert(start.cfg(c).wf());
                    }
                }
                Ok(())
            },
            Err(e) => Err(Error::Usb(e)),
        }
    }

    /// Drops every claim on the selected configuration.
    fn drop_claims(&mut self)
        requires
            old(self).wf(),
        ensures
            final(self).wf(),
            final(self).no_claims(),
            final(self).same_but_claims(*old(self)),
    {
        let ghost start = *self;
        match self.active {
            Some(a) => {
                let ghost before = self.configurations@;
                self.configurations[a].clear_claims();
                proof {
                    assert(self.configurations@ == before.update(a as int, self.configurations@[a as int]));
                }
            },
            None => {},
        }
        proof {
            assert forall|c: int| 0 <= c < self.configurations@.len() implies #[trigger] self.cfg(c).same_but_claims(
                start.cfg(c),
            ) && self.cfg(c).unclaimed() by {
                if start.active is Some && start.active->0 == c {
                } else {
                    assert(self.cfg(c) == start.cfg(c));
                    lemma_same_but_claims_refl(self.cfg(c));
                    assert forall|k: int| 0 <= k < self.cfg(c).interfaces@.len() implies !(
                    #[trigger] self.cfg(c).interfaces@[k].claimed) by {
                        if start.cfg(c).interfaces@[k].claimed {
                            assert(start.active is Some && start.active->0 as int == c);
                        }
                    }
                }
            }
            assert forall|c: int| 0 <= c < self.configurations@.len() implies #[trigger] self.cfg(c).unclaimed() by {
                assert(self.cfg(c).same_but_claims(start.cfg(c)));
            }
            lemma_claims_dropped(*self, start);
        }
    }

    /// Closes the device: its handle is released and every claim dropped.
    /// Closing a closed device does nothing.
    pub fn close(&mut self) -> (r: Result<(), Error>)
        requires
            old(self).wf(),
        ensures
            final(self).wf(),
            Self::close_step(*old(self), *final(self), r),
    {
        if !self.opened {
            return Ok(());
        }
        self.drop_claims();
        let ghost mid = *self;
        // Dropping the handle releases the claimed interfaces and closes the
        // device.
        self.device_handle = None;
        self.opened = false;
        proof {
            assert forall|c: int| 0 <= c < self.configurations@.len() implies #[trigger] self.cfg(c) == mid.cfg(c)
                && self.cfg(c).wf() && self.cfg(c).same_but_claims(old(self).cfg(c)) by {
                assert(mid.cfg(c).wf());
                assert(mid.cfg(c).same_but_claims(old(self).cfg(c)));
            }
            assert forall|c: int, k: int|
                0 <= c < self.configurations@.len() && 0 <= k < self.cfg(c).interfaces@.len() implies !(
                #[trigger] self.cfg(c).interfaces@[k].claimed) by {
                assert(self.cfg(c) == mid.cfg(c));
            }
        }
        Ok(())
    }
}

impl UsbDevice {
    /// Replaces the interface at position `k` of the selected configuration
    /// of an opened device by `itf`, which differs from it at most in its
    /// claim and its selected alternate.
    fn replace_interface(&mut self, k: usize, claimed: bool, alternate: usize)
        requires
            old(self).wf(),
            old(self).opened,
            old(self).active is Some,
            k < old(self).active_interfaces().len(),
            alternate < old(self).active_interfaces()[k as int].alternates@.len(),
        ensures
            final(self).wf(),
            final(self).replaced_interface(
                *old(self),
                old(self).active->0 as int,
                k as int,
                UsbInterface { claimed, alternate, ..old(self).active_interfaces()[k as int] },
            ),
    {
        let ghost start = *self;
        let a = match self.active {
            Some(a) => a,
            None => {
                return;
            },
        };
        self.configurations[a].set_claim(k, claimed);
        self.configurations[a].set_alternate(k, alternate);
        proof {
            let itf = UsbInterface { claimed, alternate, ..start.active_interfaces()[k as int] };
            assert(self.cfg(a as int).interfaces@ =~= start.cfg(a as int).interfaces@.update(k as int, itf));
            assert forall|c: int| 0 <= c < self.configurations@.len() && c != a implies #[trigger] self.cfg(c)
                == start.cfg(c) by {}
            assert(start.cfg(a as int).wf());
            assert(start.cfg(a as int).interfaces@[k as int].wf());
            lemma_replace_interface_wf(self.cfg(a as int), start.cfg(a as int), k as int, itf);
            assert forall|c: int| 0 <= c < self.configurations@.len() implies #[trigger] self.cfg(c).wf() by {
                assert(start.cfg(c).wf());
            }
            assert forall|c: int, j: int|
                0 <= c < self.configurations@.len() && 0 <= j < self.cfg(c).interfaces@.len() && #[trigger] self.cfg(
                    c,
                ).interfaces@[j].claimed implies self.opened && self.active is Some && self.active->0 as int
                == c by {
                if c != a {
                    assert(self.cfg(c) == start.cfg(c));
                    assert(start.cfg(c).interfaces@[j].claimed);
                }
            }
        }
    }

    /// Claims (`claimed` set) or releases interface `n` of the selected
    /// configuration.
    fn change_claim(&mut self, n: u8, claimed: bool) -> (r: Result<(), Error>)
        requires
            old(self).wf(),
        ensures
            final(self).wf(),
            Self::claim_step(*old(self), *final(self), n, claimed, r),
    {
        if !self.opened {
            return Err(Error::InvalidState);
        }
        let a = match self.active {
            Some(a) => a,
            None => {
                return Err(Error::NotFound);
            },
        };
        let k = match self.configurations[a].interface_position(n) {
            Some(k) => k,
            None => {
                return Err(Error::NotFound);
            },
        };
        if self.configurations[a].interfaces[k].claimed == claimed {
            return Ok(());
        }
        let result = match &self.device_handle {
            Some(handle) => if claimed {
                usb::claim_interface(handle, n)
            } else {
                usb::release_interface(handle, n)
            },
            None => {
                return Err(Error::InvalidState);
            },
        };
        match result {
            Ok(()) => {
                let alternate = self.configurations[a].interfaces[k].alternate;
                proof {
                    assert(self.cfg(a as int).wf());
                    assert(self.active_interfaces()[k as int].wf());
                }
                self.replace_interface(k, claimed, alternate);
                Ok(())
            },
            Err(e) => Err(Error::Usb(e)),
        }
    }

    /// Claims interface `n` of the selected configuration. Claiming a
    /// claimed interface does nothing.
    pub fn claim_interface(&mut self, interface_number: u8) -> (r: Result<(), Error>)
        requires
            old(self).wf(),
        ensures
            final(self).wf(),
            Self::claim_step(*old(self), *final(self), interface_number, true, r),
    {
        self.change_claim(interface_number, true)
    }

    /// Releases interface `n` of the selected configuration. Releasing an
    /// unclaimed interface does nothing.
    pub fn release_interface(&mut self, interface_number: u8) -> (r: Result<(), Error>)
        requires
            old(self).wf(),
        ensures
            final(self).wf(),
            Self::claim_step(*old(self), *final(self), interface_number, false, r),
    {
        self.change_claim(interface_number, false)
    }

    /// Selects the configuration whose bConfigurationValue is
    /// `configuration_value`; every claim is dropped.
    pub fn select_configuration(&mut self, configuration_value: u8) -> (r: Result<(), Error>)
        requires
            old(self).wf(),
        ensures
            final(self).wf(),
            Self::select_configuration_step(*old(self), *final(self), configuration_value, r),
    {
        if !self.opened {
            return Err(Error::InvalidState);
        }
        let c = match configuration_position(&self.configurations, configuration_value) {
            Some(c) => c,
            None => {
                return Err(Error::NotFound);
            },
        };
        let result = match &self.device_handle {
            Some(handle) => usb::set_active_configuration(handle, configuration_value),
            None => {
                return Err(Error::InvalidState);
            },
        };
        match result {
            Ok(()) => {
                self.drop_claims();
                let ghost mid = *self;
                self.active = Some(c);
                proof {
                    assert forall|i: int| 0 <= i < self.configurations@.len() implies #[trigger] self.cfg(i)
                        == mid.cfg(i) && self.cfg(i).wf() && self.cfg(i).same_but_claims(old(self).cfg(i)) by {
                        assert(mid.cfg(i).wf());
                        assert(mid.cfg(i).same_but_claims(old(self).cfg(i)));
                    }
                    assert forall|i: int, k: int|
                        0 <= i < self.configurations@.len() && 0 <= k < self.cfg(i).interfaces@.len() implies !(
                        #[trigger] self.cfg(i).interfaces@[k].claimed) by {
                        assert(self.cfg(i) == mid.cfg(i));
                    }
                }
                Ok(())
            },
            Err(e) => Err(Error::Usb(e)),
        }
    }

    /// Selects alternate setting `alternate_setting` of claimed interface
    /// `interface_number`, on the device and in the model.
    pub fn select_alternate_interface(&mut self, interface_number: u8, alternate_setting: u8) -> (r:
        Result<(), Error>)
        requires
            old(self).wf(),
        ensures
            final(self).wf(),
            Self::select_alternate_step(*old(self), *final(self), interface_number, alternate_setting, r),
    {
        if !self.opened {
            return Err(Error::InvalidState);
        }
        let a = match self.active {
            Some(a) => a,
            None => {
                return Err(Error::NotFound);
            },
        };
        let k = match self.configurations[a].interface_position(interface_number) {
            Some(k) => k,
            None => {
                return Err(Error::NotFound);
            },
        };
        if !self.configurations[a].interfaces[k].claimed {
            return Err(Error::InvalidState);
        }
        let j = match alternate_position(&self.configurations[a].interfaces[k].alternates, alternate_setting) {
            Some(j) => j,
            None => {
                return Err(Error::NotFound);
            },
        };
        let result = match &self.device_handle {
            Some(handle) => usb::set_alternate_setting(handle, interface_number, alternate_setting),
            None => {
                return Err(Error::InvalidState);
            },
        };
        match result {
            Ok(()) => {
                self.replace_interface(k, true, j);
                Ok(())
            },
            Err(e) => Err(Error::Usb(e)),
        }
    }

    /// Resets the device. Every claim is dropped: an interface must be
    /// claimed again before it is used.
    pub fn reset(&mut self) -> (r: Result<(), Error>)
        requires
            old(self).wf(),
        ensures
            final(self).wf(),
            Self::reset_step(*old(self), *final(self), r),
    {
        if !self.opened {
            return Err(Error::InvalidState);
        }
        let result = match &self.device_handle {
            Some(handle) => usb::reset(handle),
            None => {
                return Err(Error::InvalidState);
            },
        };
        match result {
            Ok(()) => {
                self.drop_claims();
                Ok(())
            },
            Err(e) => Err(Error::Usb(e)),
        }
    }
}

impl UsbDevice {
    /// Checks the setup of a control transfer against the selected
    /// configuration; with no configuration selected there is nothing to
    /// check.
    pub fn validate_control_setup(&self, setup: &UsbControlTransferParameters) -> (r: Result<(), Error>)
        requires
            self.wf(),
        ensures
            r == (match self.spec_active() {
                None => Ok(()),
                Some(a) => control_setup_check(self.spec_configurations()[a as int], *setup),
            }),
    {
        match self.active {
            None => Ok(()),
            Some(a) => self.configurations[a].validate_control_setup(setup),
        }
    }

    /// Issues a control read of at most `length` bytes and gives the bytes
    /// that the device sent.
    pub fn control_transfer_in(&mut self, setup: UsbControlTransferParameters, length: usize) -> (r: Result<
        Vec<u8>,
        Error,
    >)
        requires
            old(self).wf(),
        ensures
            *final(self) == *old(self),
            old(self).control_gate(setup) matches Err(e) ==> r == Err::<Vec<u8>, Error>(e),
            old(self).control_gate(setup) is Ok ==> r is Ok || r matches Err(Error::Usb(_)),
            r matches Ok(v) ==> v@.len() <= length,
    {
        if !self.opened {
            return Err(Error::InvalidState);
        }
        match self.validate_control_setup(&setup) {
            Ok(()) => {},
            Err(e) => {
                return Err(e);
            },
        }
        let request = control_request(Direction::In, &setup, length);
        let mut buffer: Vec<u8> = vec![0u8; length];
        let result = match &self.device_handle {
            Some(handle) => usb::read_control(handle, &request, &mut buffer, TRANSFER_TIMEOUT_SECS),
            None => {
                return Err(Error::InvalidState);
            },
        };
        match result {
            Ok(transferred) => Ok(received_prefix(buffer, transferred)),
            Err(e) => Err(Error::Usb(e)),
        }
    }

    /// Issues a control write of `data` and gives the count of bytes that
    /// the device took.
    pub fn control_transfer_out(&mut self, setup: UsbControlTransferParameters, data: &[u8]) -> (r: Result<
        usize,
        Error,
    >)
        requires
            old(self).wf(),
        ensures
            *final(self) == *old(self),
            old(self).control_gate(setup) matches Err(e) ==> r == Err::<usize, Error>(e),
            old(self).control_gate(setup) is Ok ==> r is Ok || r matches Err(Error::Usb(_)),
            r matches Ok(n) ==> n <= data@.len(),
    {
        if !self.opened {
            return Err(Error::InvalidState);
        }
        match self.validate_control_setup(&setup) {
            Ok(()) => {},
            Err(e) => {
                return Err(e);
            },
        }
        let request = control_request(Direction::Out, &setup, data.len());
        let result = match &self.device_handle {
            Some(handle) => usb::write_control(handle, &request, data, TRANSFER_TIMEOUT_SECS),
            None => {
                return Err(Error::InvalidState);
            },
        };
        match result {
            Ok(written) => Ok(written),
            Err(e) => Err(Error::Usb(e)),
        }
    }

    /// Finds endpoint `n` with direction `d` in the selected configuration,
    /// with the position of its interface.
    fn locate_endpoint(&self, n: u8, d: Direction) -> (r: Result<(usize, UsbEndpoint), Error>)
        requires
            self.wf(),
        ensures
            match self.endpoint_gate(n, d) {
                Err(e) => r == Err::<(usize, UsbEndpoint), Error>(e),
                Ok(p) => r matches Ok(q) && q.0 as int == p.0 && q.1 == p.1 && q.0 < self.active_interfaces().len(),
            },
    {
        let a = match self.active {
            Some(a) => a,
            None => {
                return Err(Error::NotFound);
            },
        };
        match self.configurations[a].find_endpoint(n, d) {
            Some(p) => Ok(p),
            None => Err(Error::NotFound),
        }
    }

    /// The endpoint that a bulk or interrupt transfer on endpoint `n` with
    /// direction `d` goes to.
    fn transfer_endpoint(&self, n: u8, d: Direction) -> (r: Result<UsbEndpoint, Error>)
        requires
            self.wf(),
        ensures
            r == self.transfer_gate(n, d),
            r matches Ok(e) ==> e.endpoint_number == n && e.direction == d,
    {
        let (k, endpoint) = match self.locate_endpoint(n, d) {
            Ok(p) => p,
            Err(e) => {
                return Err(e);
            },
        };
        proof {
            let a = self.active->0 as int;
            lemma_first_interface_endpoint_matches(self.cfg(a).interfaces@, n, d, self.cfg(a).interfaces@.len() as int);
        }
        match endpoint.endpoint_type {
            UsbEndpointType::Bulk | UsbEndpointType::Interrupt => {},
            _ => {
                return Err(Error::InvalidAccess);
            },
        }
        if !self.opened {
            return Err(Error::InvalidState);
        }
        let a = match self.active {
            Some(a) => a,
            None => {
                return Err(Error::NotFound);
            },
        };
        if !self.configurations[a].interfaces[k].claimed {
            return Err(Error::InvalidState);
        }
        Ok(endpoint)
    }

    /// Reads at most `length` bytes from bulk or interrupt endpoint
    /// `endpoint_number` and gives the bytes received.
    pub fn transfer_in(&mut self, endpoint_number: u8, length: usize) -> (r: Result<Vec<u8>, Error>)
        requires
            old(self).wf(),
        ensures
            *final(self) == *old(self),
            old(self).transfer_gate(endpoint_number, Direction::In) matches Err(e) ==> r == Err::<
                Vec<u8>,
                Error,
            >(e),
            old(self).transfer_gate(endpoint_number, Direction::In) is Ok ==> r is Ok || r matches Err(
                Error::Usb(_),
            ),
            r matches Ok(v) ==> v@.len() <= length,
    {
        let endpoint = match self.transfer_endpoint(endpoint_number, Direction::In) {
            Ok(endpoint) => endpoint,
            Err(e) => {
                return Err(e);
            },
        };
        let route = transfer_route(endpoint);
        let mut buffer: Vec<u8> = vec![0u8; length];
        let result = match &self.device_handle {
            Some(handle) => if route.bulk {
                usb::read_bulk(handle, route.address, &mut buffer, TRANSFER_TIMEOUT_SECS)
            } else {
                usb::read_interrupt(handle, route.address, &mut buffer, TRANSFER_TIMEOUT_SECS)
            },
            None => {
                return Err(Error::InvalidState);
            },
        };
        match result {
            Ok(transferred) => Ok(received_prefix(buffer, transferred)),
            Err(e) => Err(Error::Usb(e)),
        }
    }

    /// Writes `data` to bulk or interrupt endpoint `endpoint_number` and
    /// gives the count of bytes written.
    pub fn transfer_out(&mut self, endpoint_number: u8, data: &[u8]) -> (r: Result<usize, Error>)
        requires
            old(self).wf(),
        ensures
            *final(self) == *old(self),
            old(self).transfer_gate(endpoint_number, Direction::Out) matches Err(e) ==> r == Err::<
                usize,
                Error,
            >(e),
            old(self).transfer_gate(endpoint_number, Direction::Out) is Ok ==> r is Ok || r matches Err(
                Error::Usb(_),
            ),
            r matches Ok(n) ==> n <= data@.len(),
    {
        let endpoint = match self.transfer_endpoint(endpoint_number, Direction::Out) {
            Ok(endpoint) => endpoint,
            Err(e) => {
                return Err(e);
            },
        };
        let route = transfer_route(endpoint);
        let result = match &self.device_handle {
            Some(handle) => if route.bulk {
                usb::write_bulk(handle, route.address, data, TRANSFER_TIMEOUT_SECS)
            } else {
                usb::write_interrupt(handle, route.address, data, TRANSFER_TIMEOUT_SECS)
            },
            None => {
                return Err(Error::InvalidState);
            },
        };
        match result {
            Ok(written) => Ok(written),
            Err(e) => Err(Error::Usb(e)),
        }
    }

    /// Clears a halt on endpoint `endpoint_number` with direction
    /// `direction` of an opened device, whose interface must be claimed.
    pub fn clear_halt(&mut self, direction: Direction, endpoint_number: u8) -> (r: Result<(), Error>)
        requires
            old(self).wf(),
        ensures
            *final(self) == *old(self),
            old(self).halt_gate(endpoint_number, direction) matches Err(e) ==> r == Err::<(), Error>(e),
            old(self).halt_gate(endpoint_number, direction) is Ok ==> r is Ok || r matches Err(Error::Usb(_)),
    {
        let (k, _endpoint) = match self.locate_endpoint(endpoint_number, direction) {
            Ok(p) => p,
            Err(e) => {
                return Err(e);
            },
        };
        let a = match self.active {
            Some(a) => a,
            None => {
                return Err(Error::NotFound);
            },
        };
        if !self.opened || !self.configurations[a].interfaces[k].claimed {
            return Err(Error::InvalidState);
        }
        let address = endpoint_address(direction, endpoint_number);
        let result = match &self.device_handle {
            Some(handle) => usb::clear_halt(handle, address),
            None => {
                return Err(Error::InvalidState);
            },
        };
        match result {
            Ok(()) => Ok(()),
            Err(e) => Err(Error::Usb(e)),
        }
    }
}

/// A device whose configurations are all unclaimed has no claims, and then
/// its claims meet its invariant.
proof fn lemma_unclaimed_no_claims(d: UsbDevice)
    requires
        forall|c: int| 0 <= c < d.configurations@.len() ==> #[trigger] d.cfg(c).unclaimed(),
    ensures
        d.no_claims(),
{
    assert forall|c: int, k: int|
        0 <= c < d.configurations@.len() && 0 <= k < d.cfg(c).interfaces@.len() implies !(
        #[trigger] d.cfg(c).interfaces@[k].claimed) by {
        assert(d.cfg(c).unclaimed());
    }
}

/// Dropping every claim of a well-formed device keeps it well formed.
proof fn lemma_claims_dropped(new: UsbDevice, old: UsbDevice)
    requires
        old.wf(),
        new.same_but_claims(old),
        forall|c: int| 0 <= c < new.configurations@.len() ==> #[trigger] new.cfg(c).unclaimed(),
    ensures
        new.wf(),
        new.no_claims(),
{
    lemma_unclaimed_no_claims(new);
    assert forall|c: int| 0 <= c < new.configurations@.len() implies #[trigger] new.cfg(c).wf() by {
        assert(new.cfg(c).same_but_claims(old.cfg(c)));
        assert(old.cfg(c).wf());
        lemma_same_but_claims_wf(new.cfg(c), old.cfg(c));
    }
}

/// Two sequences of configurations with the same values give the same first
/// configuration for a value.
proof fn lemma_same_values_same_first(
    a: Seq<UsbConfiguration>,
    b: Seq<UsbConfiguration>,
    v: Option<u8>,
)
    requires
        a.len() == b.len(),
        forall|c: int| 0 <= c < a.len() ==> a[c].configuration_value == #[trigger] b[c].configuration_value,
    ensures
        v matches Some(x) ==> first_configuration(a, x, a.len() as int) == first_configuration(b, x, b.len() as int),
{
    if let Some(x) = v {
        lemma_first_configuration_prefix(a, b, x, a.len() as int);
    }
}

proof fn lemma_first_configuration_prefix(a: Seq<UsbConfiguration>, b: Seq<UsbConfiguration>, x: u8, n: int)
    requires
        a.len() == b.len(),
        n <= a.len(),
        forall|c: int| 0 <= c < a.len() ==> a[c].configuration_value == #[trigger] b[c].configuration_value,
    ensures
        first_configuration(a, x, n) == first_configuration(b, x, n),
    decreases n,
{
    if n > 0 {
        lemma_first_configuration_prefix(a, b, x, n - 1);
        assert(a[n - 1].configuration_value == b[n - 1].configuration_value);
    }
}

} // verus!
