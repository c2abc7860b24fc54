//! What the HID and USB transports compute around each exchange: a
//! report framed behind its Report ID, a received report split back
//! into its ID and payload, the control-request value of a Feature
//! report, the timeout each backend is given, and which interrupt
//! endpoint of a USB interface carries Input or Output reports.

use vstd::prelude::*;
use vstd::string::*;
use vstd::slice::*;
use crate::transport::{Error, ReadTimeout};
use crate::cli::format::{append_padded, hex4_digits, padded_decimal};

verus! {

/// How long a USB read waits, in milliseconds, for
/// [`ReadTimeout::Blocking`].
pub const USB_BLOCKING_TIMEOUT_MILLIS: u64 = 5_000;

/// The shortest wait a USB read can be given, in milliseconds; used for
/// [`ReadTimeout::NonBlocking`].
pub const USB_NONBLOCKING_TIMEOUT_MILLIS: u64 = 1;

/// The HID class request reading a report.
pub const HID_GET_REPORT: u8 = 0x01;

/// The HID class request writing a report.
pub const HID_SET_REPORT: u8 = 0x09;

/// The report type of a Feature report, in the high byte of a report
/// request's value.
pub const HID_REPORT_TYPE_FEATURE: u16 = 0x0300;

/// A report as it goes on the wire: its Report ID, then its payload.
pub fn framed_report(report_id: u8, data: &[u8]) -> (r: Vec<u8>)
    ensures
        r@ == seq![report_id] + data@,
{
    let mut buf: Vec<u8> = Vec::new();
    buf.push(report_id);
    let mut i: usize = 0;
    while i < data.len()
        invariant
            i <= data@.len(),
            buf@ == seq![report_id] + data@.take(i as int),
        decreases data@.len() - i,
    {
        buf.push(data[i]);
        proof {
            assert(data@.take(i + 1) =~= data@.take(i as int).push(data@[i as int]));
        }
        i = i + 1;
    }
    proof {
        assert(data@.take(data@.len() as int) =~= data@);
    }
    buf
}

/// Reading back a framed report gives the Report ID and the payload it
/// was framed from.
pub proof fn law_unframing_undoes_framing(report_id: u8, data: Seq<u8>)
    ensures
        (seq![report_id] + data)[0] == report_id,
        (seq![report_id] + data).subrange(1, data.len() + 1int) == data,
{
    assert((seq![report_id] + data).subrange(1, data.len() + 1int) =~= data);
}

/// How many payload bytes a write of `written` framed bytes carried:
/// all but the Report ID, and none when not even that went out.
pub fn payload_written(written: usize) -> (r: usize)
    ensures
        r == if written == 0 { 0 } else { written - 1 },
{
    written.saturating_sub(1)
}

/// Splits a received Input report: `raw` holds the `read` bytes the
/// backend returned (Report ID first); the payload is copied to the
/// front of `buf`, the rest of `buf` is left as it was. Nothing read at
/// all means nothing was available.
pub fn unframe_input(raw: &[u8], read: usize, buf: &mut [u8]) -> (r: Result<(u8, usize), Error>)
    requires
        raw@.len() == old(buf)@.len() + 1,
        read <= raw@.len(),
    ensures
        final(buf)@.len() == old(buf)@.len(),
        read == 0 ==> r == Err::<(u8, usize), Error>(Error::WouldBlock) && final(buf)@ == old(buf)@,
        read > 0 ==> r == Ok::<(u8, usize), Error>((raw@[0], (read - 1) as usize))
            && final(buf)@ == raw@.subrange(1, read as int) + old(buf)@.skip(read - 1),
{
    if read == 0 {
        return Err(Error::WouldBlock);
    }
    let payload_len = read - 1;
    copy_payload(raw, payload_len, buf);
    Ok((raw[0], payload_len))
}

/// Copies the `len` payload bytes after the Report ID in `raw` to the
/// front of `buf`.
fn copy_payload(raw: &[u8], len: usize, buf: &mut [u8])
    requires
        len + 1 <= raw@.len(),
        len <= old(buf)@.len(),
    ensures
        final(buf)@.len() == old(buf)@.len(),
        final(buf)@ == raw@.subrange(1, len + 1) + old(buf)@.skip(len as int),
{
    let mut i: usize = 0;
    while i < len
        invariant
            i <= len,
            len + 1 <= raw@.len(),
            len <= old(buf)@.len(),
            buf@.len() == old(buf)@.len(),
            buf@ == raw@.subrange(1, i + 1) + old(buf)@.skip(i as int),
        decreases len - i,
    {
        buf[i] = raw[i + 1];
        proof {
            assert(buf@ =~= raw@.subrange(1, i + 2) + old(buf)@.skip(i + 1));
        }
        i = i + 1;
    }
}

/// Splits a received Feature report the way a HID read returns it:
/// `raw` holds the `read` bytes (Report ID first); the payload is copied
/// to the front of `buf`, and its length returned.
pub fn unframe_feature(raw: &[u8], read: usize, buf: &mut [u8]) -> (r: usize)
    requires
        raw@.len() == old(buf)@.len() + 1,
        read <= raw@.len(),
    ensures
        r == if read == 0 { 0 } else { read - 1 },
        final(buf)@ == raw@.subrange(1, r + 1) + old(buf)@.skip(r as int),
{
    let payload_len = payload_written(read);
    copy_payload(raw, payload_len, buf);
    payload_len
}

/// The value of a control request for the Feature report `report_id`:
/// the Feature report type in the high byte, the ID in the low byte.
pub fn feature_request_value(report_id: u8) -> (r: u16)
    ensures
        r == 0x0300 + report_id,
{
    let r = HID_REPORT_TYPE_FEATURE | (report_id as u16);
    assert((0x0300u16 | (report_id as u16)) == 0x0300 + report_id) by (bit_vector);
    r
}

/// The millisecond timeout a USB read is given for `timeout`: the
/// shortest possible for a non-blocking read, the requested
/// milliseconds, or [`USB_BLOCKING_TIMEOUT_MILLIS`].
pub fn usb_timeout_millis(timeout: ReadTimeout) -> (r: u64)
    ensures
        r == match timeout {
            ReadTimeout::NonBlocking => USB_NONBLOCKING_TIMEOUT_MILLIS,
            ReadTimeout::Millis(ms) => ms as u64,
            ReadTimeout::Blocking => USB_BLOCKING_TIMEOUT_MILLIS,
        },
{
    match timeout {
        ReadTimeout::NonBlocking => USB_NONBLOCKING_TIMEOUT_MILLIS,
        ReadTimeout::Millis(ms) => ms as u64,
        ReadTimeout::Blocking => USB_BLOCKING_TIMEOUT_MILLIS,
    }
}

/// How a USB interface is named in errors: `usb:VVVV:PPPP/ifN`, the ids
/// in four lowercase hexadecimal digits.
pub open spec fn usb_path_text(vendor_id: u16, product_id: u16, interface_number: u8) -> Seq<char> {
    "usb:"@ + hex4_digits(vendor_id) + seq![':'] + hex4_digits(product_id) + "/if"@
        + padded_decimal(interface_number as int, 1)
}

fn append_hex4(s: &mut String, v: u16)
    ensures
        final(s)@ == old(s)@ + hex4_digits(v),
{
    let digits = crate::cli::format::hex4(v);
    let text = digits.as_str().substring_char(2, 6);
    s.append(text);
    assert(text@ =~= hex4_digits(v));
}

/// The name of interface `interface_number` of the USB device with
/// these ids, as errors give it.
pub fn usb_path(vendor_id: u16, product_id: u16, interface_number: u8) -> (r: String)
    ensures
        r@ == usb_path_text(vendor_id, product_id, interface_number),
{
    let mut s = String::from_str("usb:");
    append_hex4(&mut s, vendor_id);
    s.append(":");
    append_hex4(&mut s, product_id);
    s.append("/if");
    append_padded(&mut s, interface_number as u64, 1);
    proof {
        reveal_strlit(":");
    }
    assert(s@ =~= usb_path_text(vendor_id, product_id, interface_number));
    s
}

/// One endpoint of a USB interface setting.
#[derive(Debug, Clone, Copy, PartialEq, Eq, Structural)]
pub struct Endpoint {
    /// The endpoint address.
    pub address: u8,
    /// Whether data flows from the device to the host.
    pub inbound: bool,
    /// Whether the endpoint uses interrupt transfers.
    pub interrupt: bool,
}

/// One setting of a USB interface in the active configuration, with its
/// endpoints.
#[derive(Debug, Clone)]
pub struct InterfaceSetting {
    /// The interface number the setting belongs to.
    pub interface_number: u8,
    /// The setting's endpoints, in descriptor order.
    pub endpoints: Vec<Endpoint>,
}

/// The first setting of interface `interface_number`, if any.
pub open spec fn first_setting(settings: Seq<InterfaceSetting>, interface_number: u8) -> Option<int>
    decreases settings.len(),
{
    if settings.len() == 0 {
        None
    } else {
        match first_setting(settings.drop_last(), interface_number) {
            Some(i) => Some(i),
            None => if settings.last().interface_number == interface_number {
                Some(settings.len() - 1)
            } else {
                None
            },
        }
    }
}

/// The first interrupt endpoint in `endpoints` in the given direction.
pub open spec fn first_interrupt(endpoints: Seq<Endpoint>, inbound: bool) -> Option<u8>
    decreases endpoints.len(),
{
    if endpoints.len() == 0 {
        None
    } else {
        match first_interrupt(endpoints.drop_last(), inbound) {
            Some(a) => Some(a),
            None => if endpoints.last().inbound == inbound && endpoints.last().interrupt {
                Some(endpoints.last().address)
            } else {
                None
            },
        }
    }
}

/// The interrupt endpoint carrying reports in the given direction for
/// `interface_number`: searched in the first setting of that interface
/// only.
pub open spec fn spec_interrupt_endpoint(settings: Seq<InterfaceSetting>, interface_number: u8, inbound: bool) -> Option<u8> {
    match first_setting(settings, interface_number) {
        Some(i) => first_interrupt(settings[i].endpoints@, inbound),
        None => None,
    }
}

/// `first_setting` finds the first setting of the interface.
proof fn lemma_first_setting(settings: Seq<InterfaceSetting>, interface_number: u8)
    ensures
        match first_setting(settings, interface_number) {
            Some(i) => 0 <= i < settings.len() && settings[i].interface_number == interface_number
                && forall|j: int| 0 <= j < i ==> (#[trigger] settings[j]).interface_number != interface_number,
            None => forall|j: int| 0 <= j < settings.len() ==> (#[trigger] settings[j]).interface_number != interface_number,
        },
    decreases settings.len(),
{
    if settings.len() > 0 {
        lemma_first_setting(settings.drop_last(), interface_number);
        assert forall|j: int| 0 <= j < settings.len() - 1 implies #[trigger] settings[j] == settings.drop_last()[j] by {}
    }
}

/// `first_interrupt` finds the first matching endpoint.
proof fn lemma_first_interrupt(endpoints: Seq<Endpoint>, inbound: bool)
    ensures
        match first_interrupt(endpoints, inbound) {
            Some(a) => exists|i: int| 0 <= i < endpoints.len() && endpoints[i].address == a
                && endpoints[i].inbound == inbound && endpoints[i].interrupt
                && forall|j: int| 0 <= j < i ==> !((#[trigger] endpoints[j]).inbound == inbound && endpoints[j].interrupt),
            None => forall|j: int| 0 <= j < endpoints.len() ==> !((#[trigger] endpoints[j]).inbound == inbound && endpoints[j].interrupt),
        },
    decreases endpoints.len(),
{
    if endpoints.len() > 0 {
        lemma_first_interrupt(endpoints.drop_last(), inbound);
        assert forall|j: int| 0 <= j < endpoints.len() - 1 implies #[trigger] endpoints[j] == endpoints.drop_last()[j] by {}
        match first_interrupt(endpoints.drop_last(), inbound) {
            Some(a) => {
                let i = choose|i: int| 0 <= i < endpoints.drop_last().len() && endpoints.drop_last()[i].address == a
                    && endpoints.drop_last()[i].inbound == inbound && endpoints.drop_last()[i].interrupt
                    && forall|j: int| 0 <= j < i ==> !((#[trigger] endpoints.drop_last()[j]).inbound == inbound
                        && endpoints.drop_last()[j].interrupt);
                assert(endpoints[i] == endpoints.drop_last()[i]);
            },
            None => {
                if endpoints.last().inbound == inbound && endpoints.last().interrupt {
                    assert(endpoints[endpoints.len() - 1] == endpoints.last());
                }
            },
        }
    }
}

/// The address of the interrupt endpoint carrying reports in the given
/// direction (`inbound` for Input reports) for `interface_number`,
/// looked up in the first setting of that interface in `settings`.
pub fn interrupt_endpoint(settings: &[InterfaceSetting], interface_number: u8, inbound: bool) -> (r: Option<u8>)
    ensures
        r == spec_interrupt_endpoint(settings@, interface_number, inbound),
{
    proof {
        lemma_first_setting(settings@, interface_number);
    }
    let mut i: usize = 0;
    while i < settings.len()
        invariant
            i <= settings@.len(),
            forall|j: int| 0 <= j < i ==> (#[trigger] settings@[j]).interface_number != interface_number,
        decreases settings@.len() - i,
    {
        if settings[i].interface_number == interface_number {
            proof {
                lemma_first_setting(settings@, interface_number);
                let f = first_setting(settings@, interface_number);
                if f != Some(i as int) {
                    match f {
                        Some(k) => {
                            if k < i {
                                assert(settings@[k].interface_number != interface_number);
                            } else {
                                assert(settings@[i as int].interface_number != interface_number);
                            }
                        },
                        None => {
                            assert(settings@[i as int].interface_number != interface_number);
                        },
                    }
                }
            }
            return first_interrupt_exec(&settings[i].endpoints, inbound);
        }
        i = i + 1;
    }
    proof {
        lemma_first_setting(settings@, interface_number);
        if let Some(k) = first_setting(settings@, interface_number) {
            assert(settings@[k].interface_number != interface_number);
        }
    }
    None
}

fn first_interrupt_exec(endpoints: &Vec<Endpoint>, inbound: bool) -> (r: Option<u8>)
    ensures
        r == first_interrupt(endpoints@, inbound),
{
    proof {
        lemma_first_interrupt(endpoints@, inbound);
    }
    let mut i: usize = 0;
    while i < endpoints.len()
        invariant
            i <= endpoints@.len(),
            forall|j: int| 0 <= j < i ==> !((#[trigger] endpoints@[j]).inbound == inbound && endpoints@[j].interrupt),
        decreases endpoints@.len() - i,
    {
        let e = endpoints[i];
        if e.inbound == inbound && e.interrupt {
            proof {
                lemma_first_interrupt(endpoints@, inbound);
                match first_interrupt(endpoints@, inbound) {
                    Some(a) => {
                        let k = choose|k: int| 0 <= k < endpoints@.len() && endpoints@[k].address == a
                            && endpoints@[k].inbound == inbound && endpoints@[k].interrupt
                            && forall|j: int| 0 <= j < k ==> !((#[trigger] endpoints@[j]).inbound == inbound
                                && endpoints@[j].interrupt);
                        if k < i {
                            assert(!(endpoints@[k].inbound == inbound && endpoints@[k].interrupt));
                        } else if k > i {
                            assert(!(endpoints@[i as int].inbound == inbound && endpoints@[i as int].interrupt));
                        }
                    },
                    None => {
                        assert(!(endpoints@[i as int].inbound == inbound && endpoints@[i as int].interrupt));
                    },
                }
            }
            return Some(e.address);
        }
        i = i + 1;
    }
    proof {
        lemma_first_interrupt(endpoints@, inbound);
        if let Some(a) = first_interrupt(endpoints@, inbound) {
            let k = choose|k: int| 0 <= k < endpoints@.len() && endpoints@[k].address == a
                && endpoints@[k].inbound == inbound && endpoints@[k].interrupt
                && forall|j: int| 0 <= j < k ==> !((#[trigger] endpoints@[j]).inbound == inbound && endpoints@[j].interrupt);
            assert(!(endpoints@[k].inbound == inbound && endpoints@[k].interrupt));
        }
    }
    None
}

/// Why no endpoint was found, as the error reason reads.
pub open spec fn missing_endpoint_text(interface_number: u8, inbound: bool) -> Seq<char> {
    "interface "@ + padded_decimal(interface_number as int, 1) + " has no "@ + (if inbound { "In"@ } else { "Out"@ })
        + " interrupt endpoint"@
}

/// The I/O error for an interface with no interrupt endpoint in the
/// given direction.
pub fn missing_endpoint(interface_number: u8, inbound: bool) -> (r: Error)
    ensures
        r matches Error::Io { reason } && reason@ == missing_endpoint_text(interface_number, inbound),
{
    let mut reason = String::from_str("interface ");
    append_padded(&mut reason, interface_number as u64, 1);
    reason.append(" has no ");
    if inbound {
        reason.append("In");
    } else {
        reason.append("Out");
    }
    reason.append(" interrupt endpoint");
    Error::Io { reason }
}

} // verus!
