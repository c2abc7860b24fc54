//! Recognizing an AK820 and locating the interface that carries its
//! vendor configuration channel.

use vstd::prelude::*;
use vstd::string::*;
use crate::error::Error;
use crate::identity::{Identity, Interface, UsagePair};
use crate::cli::format::{append_padded_signed, padded_decimal};

verus! {

/// USB vendor id: Sonix Technology, the OEM controller vendor.
pub const VENDOR_ID: u16 = 0x0c45;
/// USB product id, as captured against the real AK820 Pro.
pub const PRODUCT_ID: u16 = 0x800a;
/// Usage page of the vendor configuration channel this driver opens.
pub const VENDOR_USAGE_PAGE: u16 = 0xff13;
/// Usage of the vendor configuration channel this driver opens.
pub const VENDOR_USAGE: u16 = 0x01;

/// The usage pair of the vendor configuration channel.
pub open spec fn vendor_usage_pair() -> UsagePair {
    UsagePair { usage_page: VENDOR_USAGE_PAGE, usage: VENDOR_USAGE }
}

/// `interface` declares the vendor configuration channel's usage pair.
pub open spec fn is_vendor_interface(interface: Interface) -> bool {
    interface.usage_pairs@.contains(vendor_usage_pair())
}

/// The position of the first interface declaring the vendor usage pair.
pub open spec fn first_vendor_index(interfaces: Seq<Interface>) -> Option<int>
    decreases interfaces.len(),
{
    if interfaces.len() == 0 {
        None
    } else if is_vendor_interface(interfaces[0]) {
        Some(0)
    } else {
        match first_vendor_index(interfaces.drop_first()) {
            Some(i) => Some(i + 1),
            None => None,
        }
    }
}

proof fn lemma_first_vendor_index(interfaces: Seq<Interface>)
    ensures
        match first_vendor_index(interfaces) {
            Some(i) => 0 <= i < interfaces.len() && is_vendor_interface(interfaces[i])
                && forall|j: int| 0 <= j < i ==> !is_vendor_interface(#[trigger] interfaces[j]),
            None => forall|j: int| 0 <= j < interfaces.len() ==> !is_vendor_interface(#[trigger] interfaces[j]),
        },
    decreases interfaces.len(),
{
    if interfaces.len() > 0 && !is_vendor_interface(interfaces[0]) {
        let rest = interfaces.drop_first();
        lemma_first_vendor_index(rest);
        assert forall|j: int| 1 <= j < interfaces.len() implies #[trigger] interfaces[j] == rest[j - 1] by {}
    }
}

fn declares_vendor_pair(interface: &Interface) -> (r: bool)
    ensures
        r == is_vendor_interface(*interface),
{
    let mut j: usize = 0;
    while j < interface.usage_pairs.len()
        invariant
            j <= interface.usage_pairs@.len(),
            forall|k: int| 0 <= k < j ==> interface.usage_pairs@[k] != vendor_usage_pair(),
        decreases interface.usage_pairs@.len() - j,
    {
        let pair = interface.usage_pairs[j];
        if pair.usage_page == VENDOR_USAGE_PAGE && pair.usage == VENDOR_USAGE {
            assert(interface.usage_pairs@[j as int] == vendor_usage_pair());
            return true;
        }
        j = j + 1;
    }
    false
}

/// The first interface of `identity` declaring the vendor configuration
/// channel's usage pair (`0xff13`/`0x01`), if any.
pub fn vendor_interface(identity: &Identity) -> (r: Option<&Interface>)
    ensures
        match first_vendor_index(identity.interfaces@) {
            Some(k) => r matches Some(iface) && *iface == identity.interfaces@[k],
            None => r is None,
        },
{
    proof {
        lemma_first_vendor_index(identity.interfaces@);
    }
    let mut i: usize = 0;
    while i < identity.interfaces.len()
        invariant
            i <= identity.interfaces@.len(),
            forall|j: int| 0 <= j < i ==> !is_vendor_interface(#[trigger] identity.interfaces@[j]),
            match first_vendor_index(identity.interfaces@) {
                Some(k) => 0 <= k < identity.interfaces@.len() && is_vendor_interface(identity.interfaces@[k])
                    && forall|j: int| 0 <= j < k ==> !is_vendor_interface(#[trigger] identity.interfaces@[j]),
                None => forall|j: int| 0 <= j < identity.interfaces@.len() ==> !is_vendor_interface(#[trigger] identity.interfaces@[j]),
            },
        decreases identity.interfaces@.len() - i,
    {
        if declares_vendor_pair(&identity.interfaces[i]) {
            return Some(&identity.interfaces[i]);
        }
        i = i + 1;
    }
    None
}

/// The USB device and interface to open for an AK820's vendor channel.
#[derive(Debug, Clone, Copy, PartialEq, Eq, Structural)]
pub struct UsbTarget {
    /// USB vendor id.
    pub vendor_id: u16,
    /// USB product id.
    pub product_id: u16,
    /// The vendor channel's USB interface number.
    pub interface_number: u8,
}

/// The error when no interface declares the vendor usage pair.
pub open spec fn missing_vendor_interface_message() -> Seq<char> {
    "AK820: no interface declares the expected vendor usage pair (0xff13/0x01)"@
}

/// The error when the vendor interface has no usable interface number.
pub open spec fn bad_interface_number_message(n: int) -> Seq<char> {
    "AK820: vendor interface has no usable USB interface number ("@ + padded_decimal(n, 1) + ")"@
}

/// The driver error for a capability this driver does not implement yet.
pub open spec fn not_yet_implemented_message(capability: Seq<char>) -> Seq<char> {
    "AK820: "@ + capability + " not yet implemented — see docs/protocols/ajazz-ak820/ (Phase 6, not started)"@
}

/// A driver error saying `capability` is not implemented yet: the real
/// behavior needs the protocol to be understood first.
pub fn not_yet_implemented(capability: &str) -> (r: Error)
    ensures
        r matches Error::Driver(m) && m@ == not_yet_implemented_message(capability@),
{
    let mut m = String::from_str("AK820: ");
    m.append(capability);
    m.append(" not yet implemented — see docs/protocols/ajazz-ak820/ (Phase 6, not started)");
    Error::Driver(m)
}

/// The Ajazz AK820 (Pro) driver. Stateless.
#[derive(Debug, Default)]
pub struct AjazzAk820Driver;

impl AjazzAk820Driver {
    /// The driver recognizes exactly the AK820's vendor and product ids.
    pub open spec fn recognizes(identity: Identity) -> bool {
        identity.vendor_id == VENDOR_ID && identity.product_id == PRODUCT_ID
    }

    /// A short, human-readable name.
    pub fn name(&self) -> (r: &'static str)
        ensures
            r@ == "Ajazz AK820"@,
    {
        "Ajazz AK820"
    }

    /// Does this driver recognize the device described by `identity`?
    /// Compares vendor and product ids only.
    pub fn probe(&self, identity: &Identity) -> (r: bool)
        ensures
            r == Self::recognizes(*identity),
    {
        identity.vendor_id == VENDOR_ID && identity.product_id == PRODUCT_ID
    }

    /// What opening `identity` has to open: its vendor channel's USB
    /// interface, which must be one of the interfaces declaring the
    /// vendor usage pair (the first one) and must have a number that fits
    /// a byte.
    pub fn open_target(&self, identity: &Identity) -> (r: Result<UsbTarget, Error>)
        ensures
            match first_vendor_index(identity.interfaces@) {
                None => r matches Err(Error::Driver(m)) && m@ == missing_vendor_interface_message(),
                Some(k) => {
                    let n = identity.interfaces@[k].interface_number;
                    if 0 <= n <= 255 {
                        r == Ok::<UsbTarget, Error>(UsbTarget {
                            vendor_id: identity.vendor_id,
                            product_id: identity.product_id,
                            interface_number: n as u8,
                        })
                    } else {
                        r matches Err(Error::Driver(m)) && m@ == bad_interface_number_message(n as int)
                    }
                },
            },
    {
        let iface = match vendor_interface(identity) {
            Some(iface) => iface,
            None => {
                let m = String::from_str("AK820: no interface declares the expected vendor usage pair (0xff13/0x01)");
                return Err(Error::Driver(m));
            },
        };
        let n = iface.interface_number;
        if 0 <= n && n <= 255 {
            Ok(UsbTarget { vendor_id: identity.vendor_id, product_id: identity.product_id, interface_number: n as u8 })
        } else {
            let mut m = String::from_str("AK820: vendor interface has no usable USB interface number (");
            append_padded_signed(&mut m, n as i64, 1);
            m.append(")");
            Err(Error::Driver(m))
        }
    }
}

} // verus!
