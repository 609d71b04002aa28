use vstd::prelude::*;

use crate::error::Error;

verus! {

/// The transfer type of an endpoint.
#[derive(Clone, Copy, Debug, PartialEq, Eq, Structural)]
pub enum UsbEndpointType {
    Bulk,
    Interrupt,
    Isochronous,
    Control,
}

/// The direction of an endpoint or of a transfer, seen from the host.
#[derive(Clone, Copy, Debug, PartialEq, Eq, Structural)]
pub enum Direction {
    In,
    Out,
}

/// One endpoint of an alternate setting. Immutable once built.
#[derive(Clone, Copy, Debug, PartialEq, Eq, Structural)]
pub struct UsbEndpoint {
    pub endpoint_number: u8,
    pub direction: Direction,
    pub endpoint_type: UsbEndpointType,
    pub packet_size: u16,
}

impl UsbEndpoint {
    pub fn new(
        endpoint_number: u8,
        direction: Direction,
        endpoint_type: UsbEndpointType,
        packet_size: u16,
    ) -> (r: Self)
        ensures
            r == (UsbEndpoint { endpoint_number, direction, endpoint_type, packet_size }),
    {
        UsbEndpoint { endpoint_number, direction, endpoint_type, packet_size }
    }
}

/// Whether endpoint `e` has number `n` and direction `d`.
pub open(crate) spec fn endpoint_matches(e: UsbEndpoint, n: u8, d: Direction) -> bool {
    e.endpoint_number == n && e.direction == d
}

/// The first endpoint among `eps[..upto]` with number `n` and direction `d`.
pub open(crate) spec fn first_endpoint(eps: Seq<UsbEndpoint>, n: u8, d: Direction, upto: int) -> Option<
    UsbEndpoint,
>
    decreases upto,
{
    if upto <= 0 {
        None
    } else {
        match first_endpoint(eps, n, d, upto - 1) {
            Some(e) => Some(e),
            None => if endpoint_matches(eps[upto - 1], n, d) {
                Some(eps[upto - 1])
            } else {
                None
            },
        }
    }
}

/// One alternate setting of an interface. Immutable once built.
#[derive(Clone, Debug)]
pub struct UsbAlternateInterface {
    pub alternate_setting: u8,
    pub interface_class: u8,
    pub interface_subclass: u8,
    pub interface_protocol: u8,
    pub interface_name: Option<String>,
    pub endpoints: Vec<UsbEndpoint>,
}

impl UsbAlternateInterface {
    pub fn new(
        alternate_setting: u8,
        interface_class: u8,
        interface_subclass: u8,
        interface_protocol: u8,
        interface_name: Option<String>,
        endpoints: Vec<UsbEndpoint>,
    ) -> (r: Self)
        ensures
            r.alternate_setting == alternate_setting,
            r.interface_class == interface_class,
            r.interface_subclass == interface_subclass,
            r.interface_protocol == interface_protocol,
            r.interface_name == interface_name,
            r.endpoints@ == endpoints@,
    {
        UsbAlternateInterface {
            alternate_setting,
            interface_class,
            interface_subclass,
            interface_protocol,
            interface_name,
            endpoints,
        }
    }

    /// The first endpoint of this setting with number `n` and direction `d`.
    pub fn find_endpoint(&self, n: u8, d: Direction) -> (r: Option<UsbEndpoint>)
        ensures
            r == first_endpoint(self.endpoints@, n, d, self.endpoints@.len() as int),
    {
        let mut i: usize = 0;
        while i < self.endpoints.len()
            invariant
                i <= self.endpoints@.len(),
                first_endpoint(self.endpoints@, n, d, i as int) is None,
            decreases self.endpoints@.len() - i,
        {
            let e = self.endpoints[i];
            if e.endpoint_number == n && e.direction == d {
                proof {
                    lemma_first_endpoint_stable(self.endpoints@, n, d, i + 1, self.endpoints@.len() as int);
                }
                return Some(e);
            }
            i = i + 1;
        }
        None
    }
}

/// The first endpoint with number `n` and direction `d` in any of
/// `alts[..upto]`, taking the alternates in order.
pub open(crate) spec fn first_alternate_endpoint(
    alts: Seq<UsbAlternateInterface>,
    n: u8,
    d: Direction,
    upto: int,
) -> Option<UsbEndpoint>
    decreases upto,
{
    if upto <= 0 {
        None
    } else {
        match first_alternate_endpoint(alts, n, d, upto - 1) {
            Some(e) => Some(e),
            None => first_endpoint(
                alts[upto - 1].endpoints@,
                n,
                d,
                alts[upto - 1].endpoints@.len() as int,
            ),
        }
    }
}

/// The first alternate among `alts[..upto]` with setting `setting`.
pub open(crate) spec fn first_alternate(alts: Seq<UsbAlternateInterface>, setting: u8, upto: int) -> Option<
    int,
>
    decreases upto,
{
    if upto <= 0 {
        None
    } else {
        match first_alternate(alts, setting, upto - 1) {
            Some(k) => Some(k),
            None => if alts[upto - 1].alternate_setting == setting {
                Some(upto - 1)
            } else {
                None
            },
        }
    }
}

/// Finds the first alternate of `alts` with setting `setting`.
pub(crate) fn alternate_position(alts: &Vec<UsbAlternateInterface>, setting: u8) -> (r: Option<usize>)
    ensures
        r is None <==> first_alternate(alts@, setting, alts@.len() as int) is None,
        r matches Some(k) ==> first_alternate(alts@, setting, alts@.len() as int) == Some(k as int),
        r matches Some(k) ==> k < alts@.len() && alts@[k as int].alternate_setting == setting,
{
    let mut i: usize = 0;
    while i < alts.len()
        invariant
            i <= alts@.len(),
            first_alternate(alts@, setting, i as int) is None,
        decreases alts@.len() - i,
    {
        if alts[i].alternate_setting == setting {
            proof {
                lemma_first_alternate_stable(alts@, setting, i + 1, alts@.len() as int);
            }
            return Some(i);
        }
        i = i + 1;
    }
    None
}

/// One interface of a configuration: every alternate setting, the one that
/// is currently selected, and whether this host holds a claim on it.
#[derive(Clone, Debug)]
pub struct UsbInterface {
    pub(crate) interface_number: u8,
    pub(crate) alternate: usize,
    pub(crate) alternates: Vec<UsbAlternateInterface>,
    pub(crate) claimed: bool,
}

impl UsbInterface {
    /// The selected alternate is one of the alternates.
    pub open(crate) spec fn wf(self) -> bool {
        self.alternate < self.alternates@.len()
    }

    pub open(crate) spec fn spec_interface_number(self) -> u8 {
        self.interface_number
    }

    pub open(crate) spec fn spec_alternates(self) -> Seq<UsbAlternateInterface> {
        self.alternates@
    }

    pub open(crate) spec fn spec_alternate_index(self) -> int {
        self.alternate as int
    }

    pub open(crate) spec fn spec_claimed(self) -> bool {
        self.claimed
    }

    /// This interface with its claim set to `claimed`.
    pub open(crate) spec fn with_claim(self, claimed: bool) -> UsbInterface {
        UsbInterface { claimed, ..self }
    }

    /// Builds an unclaimed interface whose selected alternate is the first
    /// one with alternate setting 0; `None` when there is no such alternate.
    pub fn new(interface_number: u8, alternates: Vec<UsbAlternateInterface>) -> (r: Option<Self>)
        ensures
            r is Some <==> first_alternate(alternates@, 0, alternates@.len() as int) is Some,
            r matches Some(i) ==> {
                &&& i.wf()
                &&& i.spec_interface_number() == interface_number
                &&& i.spec_alternates() == alternates@
                &&& i.spec_alternate_index() == first_alternate(
                    alternates@,
                    0,
                    alternates@.len() as int,
                )->0
                &&& !i.spec_claimed()
            },
    {
        match alternate_position(&alternates, 0) {
            Some(alternate) => Some(UsbInterface { interface_number, alternate, alternates, claimed: false }),
            None => None,
        }
    }

    pub fn interface_number(&self) -> (r: u8)
        ensures
            r == self.spec_interface_number(),
    {
        self.interface_number
    }

    /// The currently selected alternate setting.
    pub fn alternate(&self) -> (r: &UsbAlternateInterface)
        requires
            self.wf(),
        ensures
            *r == self.spec_alternates()[self.spec_alternate_index()],
    {
        &self.alternates[self.alternate]
    }

    pub fn alternates(&self) -> (r: &Vec<UsbAlternateInterface>)
        ensures
            r@ == self.spec_alternates(),
    {
        &self.alternates
    }

    pub fn claimed(&self) -> (r: bool)
        ensures
            r == self.spec_claimed(),
    {
        self.claimed
    }

    /// The first endpoint with number `n` and direction `d` in any alternate.
    pub fn find_endpoint(&self, n: u8, d: Direction) -> (r: Option<UsbEndpoint>)
        ensures
            r == first_alternate_endpoint(self.spec_alternates(), n, d, self.spec_alternates().len() as int),
    {
        let mut i: usize = 0;
        while i < self.alternates.len()
            invariant
                i <= self.alternates@.len(),
                first_alternate_endpoint(self.alternates@, n, d, i as int) is None,
            decreases self.alternates@.len() - i,
        {
            let found = self.alternates[i].find_endpoint(n, d);
            if found.is_some() {
                proof {
                    lemma_first_alternate_endpoint_stable(
                        self.alternates@,
                        n,
                        d,
                        i + 1,
                        self.alternates@.len() as int,
                    );
                }
                return found;
            }
            i = i + 1;
        }
        None
    }
}

/// The first interface among `itfs[..upto]` numbered `n`.
pub open(crate) spec fn first_interface(itfs: Seq<UsbInterface>, n: u8, upto: int) -> Option<int>
    decreases upto,
{
    if upto <= 0 {
        None
    } else {
        match first_interface(itfs, n, upto - 1) {
            Some(k) => Some(k),
            None => if itfs[upto - 1].interface_number == n {
                Some(upto - 1)
            } else {
                None
            },
        }
    }
}

/// The first interface among `itfs[..upto]` that has, in some alternate, an
/// endpoint numbered `n` with direction `d`, with the first such endpoint.
pub open(crate) spec fn first_interface_endpoint(
    itfs: Seq<UsbInterface>,
    n: u8,
    d: Direction,
    upto: int,
) -> Option<(int, UsbEndpoint)>
    decreases upto,
{
    if upto <= 0 {
        None
    } else {
        match first_interface_endpoint(itfs, n, d, upto - 1) {
            Some(p) => Some(p),
            None => match first_alternate_endpoint(
                itfs[upto - 1].alternates@,
                n,
                d,
                itfs[upto - 1].alternates@.len() as int,
            ) {
                Some(e) => Some((upto - 1, e)),
                None => None,
            },
        }
    }
}

/// A configuration of a device and its interfaces.
#[derive(Clone, Debug)]
pub struct UsbConfiguration {
    pub(crate) configuration_name: Option<String>,
    pub(crate) configuration_value: u8,
    pub(crate) interfaces: Vec<UsbInterface>,
}

/// The kind of a control request: bits 5 and 6 of bmRequestType.
#[derive(Clone, Copy, Debug, PartialEq, Eq, Structural)]
pub enum UsbRequestType {
    Standard,
    Class,
    Vendor,
}

/// The recipient of a control request: bits 0 to 4 of bmRequestType.
#[derive(Clone, Copy, Debug, PartialEq, Eq, Structural)]
pub enum UsbRecipient {
    Device,
    Interface,
    Endpoint,
    Other,
}

/// The setup fields of a control transfer, but its direction and length.
#[derive(Clone, Copy, Debug, PartialEq, Eq, Structural)]
pub struct UsbControlTransferParameters {
    pub request_type: UsbRequestType,
    pub recipient: UsbRecipient,
    pub request: u8,
    pub value: u16,
    pub index: u16,
}

/// Once found in a prefix, the first matching endpoint stays the first one.
proof fn lemma_first_endpoint_stable(eps: Seq<UsbEndpoint>, n: u8, d: Direction, a: int, b: int)
    requires
        0 <= a <= b,
        first_endpoint(eps, n, d, a) is Some,
    ensures
        first_endpoint(eps, n, d, b) == first_endpoint(eps, n, d, a),
    decreases b - a,
{
    if b > a {
        lemma_first_endpoint_stable(eps, n, d, a, b - 1);
    }
}

proof fn lemma_first_alternate_endpoint_stable(
    alts: Seq<UsbAlternateInterface>,
    n: u8,
    d: Direction,
    a: int,
    b: int,
)
    requires
        0 <= a <= b,
        first_alternate_endpoint(alts, n, d, a) is Some,
    ensures
        first_alternate_endpoint(alts, n, d, b) == first_alternate_endpoint(alts, n, d, a),
    decreases b - a,
{
    if b > a {
        lemma_first_alternate_endpoint_stable(alts, n, d, a, b - 1);
    }
}

proof fn lemma_first_alternate_stable(alts: Seq<UsbAlternateInterface>, setting: u8, a: int, b: int)
    requires
        0 <= a <= b,
        first_alternate(alts, setting, a) is Some,
    ensures
        first_alternate(alts, setting, b) == first_alternate(alts, setting, a),
    decreases b - a,
{
    if b > a {
        lemma_first_alternate_stable(alts, setting, a, b - 1);
    }
}

proof fn lemma_first_interface_stable(itfs: Seq<UsbInterface>, n: u8, a: int, b: int)
    requires
        0 <= a <= b,
        first_interface(itfs, n, a) is Some,
    ensures
        first_interface(itfs, n, b) == first_interface(itfs, n, a),
    decreases b - a,
{
    if b > a {
        lemma_first_interface_stable(itfs, n, a, b - 1);
    }
}

proof fn lemma_first_interface_endpoint_stable(
    itfs: Seq<UsbInterface>,
    n: u8,
    d: Direction,
    a: int,
    b: int,
)
    requires
        0 <= a <= b,
        first_interface_endpoint(itfs, n, d, a) is Some,
    ensures
        first_interface_endpoint(itfs, n, d, b) == first_interface_endpoint(itfs, n, d, a),
    decreases b - a,
{
    if b > a {
        lemma_first_interface_endpoint_stable(itfs, n, d, a, b - 1);
    }
}

/// The interface number that a control request to an interface names: the
/// low byte of wIndex.
pub open(crate) spec fn setup_interface(setup: UsbControlTransferParameters) -> u8 {
    (setup.index % 256) as u8
}

/// The endpoint number that a control request to an endpoint names: the low
/// four bits of wIndex.
pub open(crate) spec fn setup_endpoint(setup: UsbControlTransferParameters) -> u8 {
    (setup.index % 16) as u8
}

/// The endpoint direction that a control request to an endpoint names:
/// `In` when bit 8 of wIndex is set.
pub open(crate) spec fn setup_direction(setup: UsbControlTransferParameters) -> Direction {
    if (setup.index / 256) % 2 == 1 {
        Direction::In
    } else {
        Direction::Out
    }
}

/// What checking a control request against configuration `c` gives.
pub open(crate) spec fn control_setup_check(c: UsbConfiguration, setup: UsbControlTransferParameters) -> Result<
    (),
    Error,
> {
    match setup.recipient {
        UsbRecipient::Interface => match first_interface(
            c.interfaces@,
            setup_interface(setup),
            c.interfaces@.len() as int,
        ) {
            None => Err(Error::NotFound),
            Some(k) => if c.interfaces@[k].claimed {
                Ok(())
            } else {
                Err(Error::InvalidState)
            },
        },
        UsbRecipient::Endpoint => if first_interface_endpoint(
            c.interfaces@,
            setup_endpoint(setup),
            setup_direction(setup),
            c.interfaces@.len() as int,
        ) is Some {
            Ok(())
        } else {
            Err(Error::NotFound)
        },
        _ => Ok(()),
    }
}

impl UsbConfiguration {
    /// Every interface has a selected alternate among its alternates, and
    /// no two interfaces have the same number.
    pub open(crate) spec fn wf(self) -> bool {
        &&& forall|k: int| 0 <= k < self.interfaces@.len() ==> #[trigger] self.interfaces@[k].wf()
        &&& distinct_interface_numbers(self.interfaces@)
    }

    pub open(crate) spec fn spec_configuration_value(self) -> u8 {
        self.configuration_value
    }

    pub open(crate) spec fn spec_configuration_name(self) -> Option<String> {
        self.configuration_name
    }

    pub open(crate) spec fn spec_interfaces(self) -> Seq<UsbInterface> {
        self.interfaces@
    }

    /// No interface of this configuration is claimed.
    pub open(crate) spec fn unclaimed(self) -> bool {
        forall|k: int| 0 <= k < self.interfaces@.len() ==> !(#[trigger] self.interfaces@[k].claimed)
    }

    /// `self` is `other` with, at most, other claims.
    pub open(crate) spec fn same_but_claims(self, other: UsbConfiguration) -> bool {
        &&& self.configuration_name == other.configuration_name
        &&& self.configuration_value == other.configuration_value
        &&& self.interfaces@.len() == other.interfaces@.len()
        &&& forall|k: int|
            0 <= k < self.interfaces@.len() ==> #[trigger] self.interfaces@[k] == other.interfaces@[k].with_claim(
                self.interfaces@[k].claimed,
            )
    }

    /// Builds a configuration; `None` when two of its interfaces have the
    /// same number.
    pub fn new(
        configuration_name: Option<String>,
        configuration_value: u8,
        interfaces: Vec<UsbInterface>,
    ) -> (r: Option<Self>)
        ensures
            r is Some <==> distinct_interface_numbers(interfaces@),
            r matches Some(c) ==> {
                &&& c.spec_configuration_name() == configuration_name
                &&& c.spec_configuration_value() == configuration_value
                &&& c.spec_interfaces() == interfaces@
            },
    {
        let mut i: usize = 0;
        while i < interfaces.len()
            invariant
                i <= interfaces@.len(),
                forall|a: int, b: int|
                    0 <= a < i && 0 <= b < i && a != b ==> #[trigger] interfaces@[a].interface_number
                        != #[trigger] interfaces@[b].interface_number,
            decreases interfaces@.len() - i,
        {
            let mut j: usize = 0;
            while j < i
                invariant
                    j <= i < interfaces@.len(),
                    forall|a: int, b: int|
                        0 <= a < i && 0 <= b < i && a != b ==> #[trigger] interfaces@[a].interface_number
                            != #[trigger] interfaces@[b].interface_number,
                    forall|b: int| 0 <= b < j ==> #[trigger] interfaces@[b].interface_number != interfaces@[i as int].interface_number,
                decreases i - j,
            {
                if interfaces[j].interface_number == interfaces[i].interface_number {
                    proof {
                        assert(interfaces@[j as int].interface_number == interfaces@[i as int].interface_number);
                    }
                    return None;
                }
                j = j + 1;
            }
            i = i + 1;
        }
        Some(UsbConfiguration { configuration_name, configuration_value, interfaces })
    }

    pub fn configuration_name(&self) -> (r: &Option<String>)
        ensures
            *r == self.spec_configuration_name(),
    {
        &self.configuration_name
    }

    pub fn configuration_value(&self) -> (r: u8)
        ensures
            r == self.spec_configuration_value(),
    {
        self.configuration_value
    }

    pub fn interfaces(&self) -> (r: &Vec<UsbInterface>)
        ensures
            r@ == self.spec_interfaces(),
    {
        &self.interfaces
    }

    /// Sets the claim of the interface at position `k`.
    pub(crate) fn set_claim(&mut self, k: usize, claimed: bool)
        requires
            k < old(self).interfaces@.len(),
        ensures
            final(self).configuration_name == old(self).configuration_name,
            final(self).configuration_value == old(self).configuration_value,
            final(self).interfaces@ == old(self).interfaces@.update(
                k as int,
                old(self).interfaces@[k as int].with_claim(claimed),
            ),
    {
        self.interfaces[k].claimed = claimed;
    }

    /// Selects, in the interface at position `k`, the alternate at position
    /// `alternate`.
    pub(crate) fn set_alternate(&mut self, k: usize, alternate: usize)
        requires
            k < old(self).interfaces@.len(),
            alternate < old(self).interfaces@[k as int].alternates@.len(),
        ensures
            final(self).configuration_name == old(self).configuration_name,
            final(self).configuration_value == old(self).configuration_value,
            final(self).interfaces@ == old(self).interfaces@.update(
                k as int,
                UsbInterface { alternate, ..old(self).interfaces@[k as int] },
            ),
    {
        self.interfaces[k].alternate = alternate;
    }

    /// Drops every claim of this configuration.
    pub(crate) fn clear_claims(&mut self)
        ensures
            final(self).same_but_claims(*old(self)),
            final(self).unclaimed(),
            old(self).wf() ==> final(self).wf(),
    {
        let ghost start = *self;
        let mut i: usize = 0;
        while i < self.interfaces.len()
            invariant
                i <= self.interfaces@.len(),
                self.same_but_claims(start),
                forall|j: int| 0 <= j < i ==> !(#[trigger] self.interfaces@[j].claimed),
                start.wf() ==> self.wf(),
            decreases self.interfaces@.len() - i,
        {
            self.set_claim(i, false);
            proof {
                assert forall|k: int| 0 <= k < self.interfaces@.len() implies #[trigger] self.interfaces@[k]
                    == start.interfaces@[k].with_claim(self.interfaces@[k].claimed) by {}
                if start.wf() {
                    lemma_same_but_claims_wf(*self, start);
                }
            }
            i = i + 1;
        }
    }

    /// The position of the first interface numbered `n`.
    pub fn interface_position(&self, n: u8) -> (r: Option<usize>)
        ensures
            r is None <==> first_interface(self.spec_interfaces(), n, self.spec_interfaces().len() as int) is None,
            r matches Some(k) ==> first_interface(self.spec_interfaces(), n, self.spec_interfaces().len() as int)
                == Some(k as int),
            r matches Some(k) ==> k < self.spec_interfaces().len() && self.spec_interfaces()[k as int].spec_interface_number() == n,
    {
        let mut i: usize = 0;
        while i < self.interfaces.len()
            invariant
                i <= self.interfaces@.len(),
                first_interface(self.interfaces@, n, i as int) is None,
            decreases self.interfaces@.len() - i,
        {
            if self.interfaces[i].interface_number == n {
                proof {
                    lemma_first_interface_stable(self.interfaces@, n, i + 1, self.interfaces@.len() as int);
                }
                return Some(i);
            }
            i = i + 1;
        }
        None
    }

    /// The first interface that has, in some alternate, an endpoint numbered
    /// `n` with direction `d`: its position, and that endpoint.
    pub fn find_endpoint(&self, n: u8, d: Direction) -> (r: Option<(usize, UsbEndpoint)>)
        ensures
            r is None <==> first_interface_endpoint(self.spec_interfaces(), n, d, self.spec_interfaces().len() as int) is None,
            r matches Some(p) ==> first_interface_endpoint(self.spec_interfaces(), n, d, self.spec_interfaces().len() as int)
                == Some((p.0 as int, p.1)),
            r matches Some(p) ==> p.0 < self.spec_interfaces().len(),
    {
        let mut i: usize = 0;
        while i < self.interfaces.len()
            invariant
                i <= self.interfaces@.len(),
                first_interface_endpoint(self.interfaces@, n, d, i as int) is None,
            decreases self.interfaces@.len() - i,
        {
            match self.interfaces[i].find_endpoint(n, d) {
                Some(e) => {
                    proof {
                        lemma_first_interface_endpoint_stable(
                            self.interfaces@,
                            n,
                            d,
                            i + 1,
                            self.interfaces@.len() as int,
                        );
                    }
                    return Some((i, e));
                },
                None => {},
            }
            i = i + 1;
        }
        None
    }

    /// Checks the setup of a control transfer against this configuration: a
    /// request to an interface needs that interface to exist and be claimed,
    /// a request to an endpoint needs some interface to expose that endpoint
    /// with that direction.
    pub fn validate_control_setup(&self, setup: &UsbControlTransferParameters) -> (r: Result<(), Error>)
        ensures
            r == control_setup_check(*self, *setup),
    {
        match setup.recipient {
            UsbRecipient::Interface => {
                let interface_number = (setup.index % 256) as u8;
                match self.interface_position(interface_number) {
                    None => Err(Error::NotFound),
                    Some(k) => {
                        if self.interfaces[k].claimed {
                            Ok(())
                        } else {
                            Err(Error::InvalidState)
                        }
                    },
                }
            },
            UsbRecipient::Endpoint => {
                let endpoint_number = (setup.index % 16) as u8;
                let direction = if (setup.index / 256) % 2 == 1 {
                    Direction::In
                } else {
                    Direction::Out
                };
                if self.find_endpoint(endpoint_number, direction).is_some() {
                    Ok(())
                } else {
                    Err(Error::NotFound)
                }
            },
            _ => Ok(()),
        }
    }
}

/// The first interface numbered `n` lies in the prefix and has that number.
pub(crate) proof fn lemma_first_interface_in_range(itfs: Seq<UsbInterface>, n: u8, upto: int)
    requires
        upto <= itfs.len(),
    ensures
        first_interface(itfs, n, upto) matches Some(k) ==> 0 <= k < upto && itfs[k].interface_number == n,
    decreases upto,
{
    if upto > 0 {
        lemma_first_interface_in_range(itfs, n, upto - 1);
    }
}

/// Replacing an interface by one with the same number keeps the first
/// interface of every number.
pub(crate) proof fn lemma_first_interface_update(
    itfs: Seq<UsbInterface>,
    k: int,
    x: UsbInterface,
    n: u8,
    upto: int,
)
    requires
        0 <= k < itfs.len(),
        upto <= itfs.len(),
        x.interface_number == itfs[k].interface_number,
    ensures
        first_interface(itfs.update(k, x), n, upto) == first_interface(itfs, n, upto),
    decreases upto,
{
    if upto > 0 {
        lemma_first_interface_update(itfs, k, x, n, upto - 1);
    }
}

/// The first interface with a matching endpoint lies in the prefix.
pub(crate) proof fn lemma_first_interface_endpoint_in_range(
    itfs: Seq<UsbInterface>,
    n: u8,
    d: Direction,
    upto: int,
)
    requires
        upto <= itfs.len(),
    ensures
        first_interface_endpoint(itfs, n, d, upto) matches Some(p) ==> 0 <= p.0 < upto,
    decreases upto,
{
    if upto > 0 {
        lemma_first_interface_endpoint_in_range(itfs, n, d, upto - 1);
    }
}

/// No two interfaces of `itfs` have the same number.
pub open(crate) spec fn distinct_interface_numbers(itfs: Seq<UsbInterface>) -> bool {
    forall|a: int, b: int|
        0 <= a < itfs.len() && 0 <= b < itfs.len() && a != b ==> #[trigger] itfs[a].interface_number
            != #[trigger] itfs[b].interface_number
}

/// Replacing a well-formed interface of a well-formed configuration by a
/// well-formed one with the same number keeps the configuration well formed.
pub(crate) proof fn lemma_replace_interface_wf(new: UsbConfiguration, old: UsbConfiguration, k: int, x: UsbInterface)
    requires
        old.wf(),
        0 <= k < old.interfaces@.len(),
        x.wf(),
        x.interface_number == old.interfaces@[k].interface_number,
        new.interfaces@ == old.interfaces@.update(k, x),
    ensures
        new.wf(),
{
    assert forall|j: int| 0 <= j < new.interfaces@.len() implies #[trigger] new.interfaces@[j].wf() by {
        if j != k {
            assert(old.interfaces@[j].wf());
        }
    }
    assert forall|a: int, b: int|
        0 <= a < new.interfaces@.len() && 0 <= b < new.interfaces@.len() && a != b implies #[trigger] new.interfaces@[a].interface_number
        != #[trigger] new.interfaces@[b].interface_number by {
        assert(new.interfaces@[a].interface_number == old.interfaces@[a].interface_number);
        assert(new.interfaces@[b].interface_number == old.interfaces@[b].interface_number);
    }
}

/// The endpoint that `first_interface_endpoint` finds has the number and the
/// direction that it was asked for.
pub(crate) proof fn lemma_first_interface_endpoint_matches(
    itfs: Seq<UsbInterface>,
    n: u8,
    d: Direction,
    upto: int,
)
    ensures
        first_interface_endpoint(itfs, n, d, upto) matches Some(p) ==> endpoint_matches(p.1, n, d),
    decreases upto,
{
    if upto > 0 {
        lemma_first_interface_endpoint_matches(itfs, n, d, upto - 1);
        let alts = itfs[upto - 1].alternates@;
        lemma_first_alternate_endpoint_matches(alts, n, d, alts.len() as int);
    }
}

proof fn lemma_first_alternate_endpoint_matches(
    alts: Seq<UsbAlternateInterface>,
    n: u8,
    d: Direction,
    upto: int,
)
    ensures
        first_alternate_endpoint(alts, n, d, upto) matches Some(e) ==> endpoint_matches(e, n, d),
    decreases upto,
{
    if upto > 0 {
        lemma_first_alternate_endpoint_matches(alts, n, d, upto - 1);
        let eps = alts[upto - 1].endpoints@;
        lemma_first_endpoint_matches(eps, n, d, eps.len() as int);
    }
}

proof fn lemma_first_endpoint_matches(eps: Seq<UsbEndpoint>, n: u8, d: Direction, upto: int)
    ensures
        first_endpoint(eps, n, d, upto) matches Some(e) ==> endpoint_matches(e, n, d),
    decreases upto,
{
    if upto > 0 {
        lemma_first_endpoint_matches(eps, n, d, upto - 1);
    }
}

/// Differing only in claims is transitive.
pub(crate) proof fn lemma_same_but_claims_trans(a: UsbConfiguration, b: UsbConfiguration, c: UsbConfiguration)
    requires
        a.same_but_claims(b),
        b.same_but_claims(c),
    ensures
        a.same_but_claims(c),
{
    assert forall|k: int| 0 <= k < a.interfaces@.len() implies #[trigger] a.interfaces@[k] == c.interfaces@[k].with_claim(
        a.interfaces@[k].claimed,
    ) by {
        assert(a.interfaces@[k] == b.interfaces@[k].with_claim(a.interfaces@[k].claimed));
        assert(b.interfaces@[k] == c.interfaces@[k].with_claim(b.interfaces@[k].claimed));
    }
}

/// A configuration differs only in claims from itself.
pub(crate) proof fn lemma_same_but_claims_refl(a: UsbConfiguration)
    ensures
        a.same_but_claims(a),
{
    assert forall|k: int| 0 <= k < a.interfaces@.len() implies #[trigger] a.interfaces@[k] == a.interfaces@[k].with_claim(
        a.interfaces@[k].claimed,
    ) by {
    }
}

/// Differing only in claims keeps well-formedness.
pub(crate) proof fn lemma_same_but_claims_wf(a: UsbConfiguration, b: UsbConfiguration)
    requires
        a.same_but_claims(b),
        b.wf(),
    ensures
        a.wf(),
{
    assert forall|k: int| 0 <= k < a.interfaces@.len() implies #[trigger] a.interfaces@[k].wf() by {
        assert(a.interfaces@[k] == b.interfaces@[k].with_claim(a.interfaces@[k].claimed));
        assert(b.interfaces@[k].wf());
    }
    assert forall|i: int, j: int|
        0 <= i < a.interfaces@.len() && 0 <= j < a.interfaces@.len() && i != j implies #[trigger] a.interfaces@[i].interface_number
        != #[trigger] a.interfaces@[j].interface_number by {
        assert(a.interfaces@[i] == b.interfaces@[i].with_claim(a.interfaces@[i].claimed));
        assert(a.interfaces@[j] == b.interfaces@[j].with_claim(a.interfaces@[j].claimed));
    }
}

/// bmRequestType of a control request, as USB 2.0 section 9.3 encodes it.
pub open(crate) spec fn request_type_byte(
    direction: Direction,
    kind: UsbRequestType,
    recipient: UsbRecipient,
) -> u8 {
    let d: u8 = match direction {
        Direction::In => 0x80,
        Direction::Out => 0x00,
    };
    let t: u8 = match kind {
        UsbRequestType::Standard => 0x00,
        UsbRequestType::Class => 0x20,
        UsbRequestType::Vendor => 0x40,
    };
    let r: u8 = match recipient {
        UsbRecipient::Device => 0x00,
        UsbRecipient::Interface => 0x01,
        UsbRecipient::Endpoint => 0x02,
        UsbRecipient::Other => 0x03,
    };
    (d + t + r) as u8
}

/// Builds bmRequestType from a direction, a request kind and a recipient.
pub fn request_type(
    direction: Direction,
    kind: UsbRequestType,
    recipient: UsbRecipient,
) -> (r: u8)
    ensures
        r == request_type_byte(direction, kind, recipient),
{
    let d: u8 = match direction {
        Direction::In => 0x80,
        Direction::Out => 0x00,
    };
    let t: u8 = match kind {
        UsbRequestType::Standard => 0x00,
        UsbRequestType::Class => 0x20,
        UsbRequestType::Vendor => 0x40,
    };
    let r: u8 = match recipient {
        UsbRecipient::Device => 0x00,
        UsbRecipient::Interface => 0x01,
        UsbRecipient::Endpoint => 0x02,
        UsbRecipient::Other => 0x03,
    };
    d + t + r
}

} // verus!
