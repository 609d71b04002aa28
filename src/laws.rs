//! Properties of the device lifecycle that span several calls, stated over
//! the step relations that the operations of [`UsbDevice`] ensure.
use vstd::prelude::*;

use crate::device::UsbDevice;
use crate::error::Error;
use crate::model::lemma_first_interface_endpoint_in_range;
use crate::model::lemma_first_interface_in_range;
use crate::model::lemma_first_interface_update;
use crate::model::first_interface;
use crate::model::first_interface_endpoint;
use crate::model::Direction;

verus! {

/// A well-formed device holds a backend handle exactly while it is opened.
pub proof fn opened_iff_handle(d: UsbDevice)
    requires
        d.wf(),
    ensures
        d.spec_opened() == d.has_handle(),
{
}

/// A claimed interface belongs to the selected configuration of an opened
/// device.
pub proof fn claimed_interface_is_in_selected_configuration(d: UsbDevice, c: int, k: int)
    requires
        d.wf(),
        0 <= c < d.spec_configurations().len(),
        0 <= k < d.spec_configurations()[c].spec_interfaces().len(),
        d.spec_configurations()[c].spec_interfaces()[k].spec_claimed(),
    ensures
        d.spec_opened(),
        d.spec_active() is Some,
        d.spec_active()->0 as int == c,
{
    assert(d.cfg(c).interfaces@[k].claimed);
}

/// Closing leaves the device closed with no interface claimed, whatever
/// state it was in.
pub proof fn close_releases_everything(old: UsbDevice, new: UsbDevice, r: Result<(), Error>, n: u8)
    requires
        UsbDevice::close_step(old, new, r),
        new.wf(),
    ensures
        r is Ok,
        !new.spec_opened(),
        new.no_claims(),
        !new.claimed(n),
{
    if let Some(a) = new.active {
        let itfs = new.cfg(a as int).interfaces@;
        lemma_first_interface_in_range(itfs, n, itfs.len() as int);
        if let Some(k) = first_interface(itfs, n, itfs.len() as int) {
            assert(!new.cfg(a as int).interfaces@[k].claimed);
        }
    }
}

/// Opening an opened device succeeds and changes nothing, so opening twice
/// in a row is the same as opening once.
pub proof fn open_twice_is_open_once(
    d0: UsbDevice,
    d1: UsbDevice,
    d2: UsbDevice,
    r1: Result<(), Error>,
    r2: Result<(), Error>,
)
    requires
        UsbDevice::open_step(d0, d1, r1),
        r1 is Ok,
        UsbDevice::open_step(d1, d2, r2),
    ensures
        r2 is Ok,
        d2 == d1,
{
}

/// Closing a closed device succeeds and changes nothing, so closing twice in
/// a row is the same as closing once.
pub proof fn close_twice_is_close_once(
    d0: UsbDevice,
    d1: UsbDevice,
    d2: UsbDevice,
    r1: Result<(), Error>,
    r2: Result<(), Error>,
)
    requires
        UsbDevice::close_step(d0, d1, r1),
        UsbDevice::close_step(d1, d2, r2),
    ensures
        r2 is Ok,
        d2 == d1,
{
}

/// After a successful reset no interface is claimed: every operation that
/// needs a claimed interface fails with `InvalidState` until a new claim,
/// where it would otherwise have found its interface or endpoint.
pub proof fn reset_requires_fresh_claim(
    old: UsbDevice,
    new: UsbDevice,
    r: Result<(), Error>,
    n: u8,
    d: Direction,
)
    requires
        UsbDevice::reset_step(old, new, r),
        r is Ok,
        new.wf(),
    ensures
        !new.claimed(n),
        new.interface_gate(n) is Ok ==> new.claimed_interface_gate(n) == Err::<int, Error>(
            Error::InvalidState,
        ),
        new.endpoint_gate(n, d) is Ok ==> new.halt_gate(n, d) == Err::<(), Error>(Error::InvalidState),
        new.transfer_gate(n, d) is Err,
{
    if let Some(a) = new.active {
        let itfs = new.cfg(a as int).interfaces@;
        lemma_first_interface_in_range(itfs, n, itfs.len() as int);
        lemma_first_interface_endpoint_in_range(itfs, n, d, itfs.len() as int);
        if let Some(k) = first_interface(itfs, n, itfs.len() as int) {
            assert(!new.cfg(a as int).interfaces@[k].claimed);
        }
        if let Some(p) = first_interface_endpoint(itfs, n, d, itfs.len() as int) {
            assert(!new.cfg(a as int).interfaces@[p.0].claimed);
        }
    }
}

/// Claiming an interface that a successful claim has just claimed succeeds
/// and changes nothing: claiming is idempotent. With `claimed` unset, the
/// same holds of releasing.
pub proof fn claim_is_idempotent(
    d0: UsbDevice,
    d1: UsbDevice,
    d2: UsbDevice,
    n: u8,
    claimed: bool,
    r2: Result<(), Error>,
)
    requires
        d0.wf(),
        UsbDevice::claim_step(d0, d1, n, claimed, Ok(())),
        UsbDevice::claim_step(d1, d2, n, claimed, r2),
    ensures
        r2 is Ok,
        d2 == d1,
{
    if d1 != d0 {
        let a = d0.active->0 as int;
        let itfs = d0.cfg(a).interfaces@;
        let k = d0.interface_gate(n)->Ok_0;
        lemma_first_interface_in_range(itfs, n, itfs.len() as int);
        let x = itfs[k].with_claim(claimed);
        lemma_first_interface_update(itfs, k, x, n, itfs.len() as int);
        assert(d1.cfg(a).interfaces@ == itfs.update(k, x));
        assert(d1.interface_gate(n) == Ok::<int, Error>(k));
        assert(d1.active_interfaces()[k] == x);
        assert(d1.active_interfaces()[k].claimed == claimed);
    } else {
        let a = d0.active->0 as int;
        let itfs = d0.cfg(a).interfaces@;
        let k = d0.interface_gate(n)->Ok_0;
        lemma_first_interface_in_range(itfs, n, itfs.len() as int);
        if itfs[k].claimed != claimed {
            assert(d1.cfg(a).interfaces@ == itfs.update(k, itfs[k].with_claim(claimed)));
            assert(d1.cfg(a).interfaces@[k].claimed == claimed);
        }
        assert(d1.interface_gate(n) == Ok::<int, Error>(k));
    }
}

} // verus!
