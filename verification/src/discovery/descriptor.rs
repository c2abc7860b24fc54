//! Report-descriptor-level information the HID enumeration doesn't
//! surface: the set of report IDs an interface declares. Goes no deeper
//! than collecting report IDs.

use vstd::prelude::*;
use crate::discovery::error::Error;

verus! {

/// The longest report descriptor handed to the parser, in bytes: item
/// offsets, counted in bits, then stay below 2^31.
pub const MAX_DESCRIPTOR_LEN: usize = 0x0fff_ffff;

/// The data bits the Input, Output and Feature items of a descriptor
/// handed to the parser must stay below together: with offsets below
/// 2^31 too, every bit position and field id the parser computes fits in
/// 32 bits.
pub const MAX_DESCRIBED_BITS: u64 = 0x8000_0000;

/// The global state a descriptor walk keeps per Push level: whether a
/// Usage Page has been set, and the current Report Size and Report Count.
#[derive(Debug, Clone, Copy, PartialEq, Eq, Structural)]
pub struct ShapeGlobals {
    /// A Usage Page has been set.
    pub page_seen: bool,
    /// The current Report Size.
    pub size: u64,
    /// The current Report Count.
    pub count: u64,
}

/// The number of data bytes a short item with header `header` carries.
pub open spec fn item_data_len(header: u8) -> nat {
    if header % 4 == 3 {
        4
    } else {
        (header % 4) as nat
    }
}

/// The little-endian value of the `n` data bytes after the header at `at`.
pub open spec fn item_value(bytes: Seq<u8>, at: int, n: nat) -> nat {
    if n == 0 {
        0
    } else if n == 1 {
        bytes[at + 1] as nat
    } else if n == 2 {
        bytes[at + 1] as nat + 256 * (bytes[at + 2] as nat)
    } else {
        bytes[at + 1] as nat + 256 * (bytes[at + 2] as nat) + 65536 * (bytes[at + 3] as nat)
            + 16777216 * (bytes[at + 4] as nat)
    }
}

/// The data bits one Input, Output or Feature item describes under the
/// current Report Size and Report Count (none when either is zero).
pub open spec fn item_bits(size: nat, count: nat) -> nat {
    if size == 0 || count == 0 {
        0
    } else {
        size * count
    }
}

/// Whether the items of `bytes` from offset `at` on, read with the
/// global state `stack` (one entry per Push level, the current one last)
/// and `bits` data bits described so far, keep to the shapes the parser
/// is handed:
/// - a Usage that names no page of its own comes while the current
///   global state has a Usage Page (Push copies the state, Pop restores
///   the one before);
/// - the Input, Output and Feature items describe fewer than
///   [`MAX_DESCRIBED_BITS`] data bits together.
/// An item the parser cannot even itemize (cut short, an empty main or
/// local item, an unknown main tag) ends the walk, since the parser then
/// rejects the whole descriptor before interpreting any of it; so does a
/// Pop with nothing pushed, which the parser rejects at that point.
pub open spec fn items_in_shape(bytes: Seq<u8>, at: nat, stack: Seq<ShapeGlobals>, bits: nat) -> bool
    decreases bytes.len() - at,
{
    if at >= bytes.len() || stack.len() == 0 {
        true
    } else {
        let header = bytes[at as int];
        let n = item_data_len(header);
        let next = at + 1 + n;
        let tag = header / 4 * 4;
        let kind = header / 4 % 4;
        let top = stack.last();
        let last = stack.len() - 1;
        if next > bytes.len() {
            true
        } else {
            let v = item_value(bytes, at as int, n);
            if kind == 3 {
                items_in_shape(bytes, next, stack, bits)
            } else if kind == 1 {
                if tag == 0xa4 {
                    items_in_shape(bytes, next, stack.push(top), bits)
                } else if tag == 0xb4 {
                    stack.len() <= 1 || items_in_shape(bytes, next, stack.drop_last(), bits)
                } else if tag == 0x04 {
                    items_in_shape(bytes, next, stack.update(last, ShapeGlobals { page_seen: true, ..top }), bits)
                } else if tag == 0x74 {
                    n == 0 || items_in_shape(bytes, next, stack.update(last, ShapeGlobals { size: v as u64, ..top }), bits)
                } else if tag == 0x94 {
                    n == 0 || items_in_shape(bytes, next, stack.update(last, ShapeGlobals { count: v as u64, ..top }), bits)
                } else {
                    items_in_shape(bytes, next, stack, bits)
                }
            } else if kind == 2 {
                n == 0 || {
                    &&& (tag == 0x08 && n < 4 ==> top.page_seen)
                    &&& items_in_shape(bytes, next, stack, bits)
                }
            } else if tag == 0x80 || tag == 0x90 || tag == 0xb0 {
                n == 0 || {
                    &&& bits + item_bits(top.size as nat, top.count as nat) < MAX_DESCRIBED_BITS
                    &&& items_in_shape(bytes, next, stack, bits + item_bits(top.size as nat, top.count as nat))
                }
            } else if tag == 0xa0 || tag == 0xc0 {
                items_in_shape(bytes, next, stack, bits)
            } else {
                true
            }
        }
    }
}

/// The global state a descriptor starts with: no Usage Page, Report Size
/// and Report Count unset.
pub open spec fn initial_globals() -> ShapeGlobals {
    ShapeGlobals { page_seen: false, size: 0, count: 0 }
}

/// Whether `bytes` is a descriptor the parser is handed: at most
/// [`MAX_DESCRIPTOR_LEN`] bytes whose items keep to [`items_in_shape`].
/// On such input the parser returns, accepting or rejecting it, without
/// panicking.
pub open spec fn parser_accepts_shape(bytes: Seq<u8>) -> bool {
    bytes.len() <= MAX_DESCRIPTOR_LEN && items_in_shape(bytes, 0, seq![initial_globals()], 0)
}

/// The report ID fields of every input, output and feature report (in
/// that order) that `hidreport` finds in `descriptor`, or `None` if it
/// rejects the descriptor. Reports without an ID contribute `None`.
pub uninterp spec fn parsed_report_id_fields(descriptor: Seq<u8>) -> Option<Seq<Option<u8>>>;

/// Parses `bytes` with `hidreport::ReportDescriptor::try_from` and reads
/// `hidreport::Report::report_id` off every input, output and feature
/// report, in that order. The parser panics on some descriptors (a Usage
/// naming no page before any Usage Page, arithmetic past `u32` on huge
/// report sizes); `requires` admits only descriptors of the shape
/// [`parser_accepts_shape`] describes, on which no panic is reachable.
/// Running out of memory (a huge Usage range, deep Push nesting) is not
/// considered.
#[verifier::external_body]
fn parse_report_id_fields(bytes: &[u8]) -> (r: Result<Vec<Option<u8>>, hidreport::ParserError>)
    requires
        parser_accepts_shape(bytes@),
    ensures
        r is Ok <==> parsed_report_id_fields(bytes@) is Some,
        r matches Ok(fields) ==> parsed_report_id_fields(bytes@) == Some(fields@),
{
    let descriptor = hidreport::ReportDescriptor::try_from(bytes)?;
    let id = |r: &Option<hidreport::ReportId>| r.map(u8::from);
    let mut fields: Vec<Option<u8>> =
        descriptor.input_reports().iter().map(|r| id(hidreport::Report::report_id(r))).collect();
    fields.extend(descriptor.output_reports().iter().map(|r| id(hidreport::Report::report_id(r))));
    fields.extend(descriptor.feature_reports().iter().map(|r| id(hidreport::Report::report_id(r))));
    Ok(fields)
}

/// Whether `bytes` is a descriptor of the shape the parser is handed.
pub fn accepts_shape(bytes: &[u8]) -> (r: bool)
    ensures
        r == parser_accepts_shape(bytes@),
{
    if bytes.len() > MAX_DESCRIPTOR_LEN {
        return false;
    }
    let len = bytes.len();
    let mut at: usize = 0;
    let mut stack: Vec<ShapeGlobals> = Vec::new();
    stack.push(ShapeGlobals { page_seen: false, size: 0, count: 0 });
    let mut bits: u64 = 0;
    while at < len
        invariant
            len == bytes@.len(),
            len <= MAX_DESCRIPTOR_LEN,
            at <= len + 5,
            bits < MAX_DESCRIBED_BITS,
            stack@.len() >= 1,
            forall|i: int| 0 <= i < stack@.len() ==> #[trigger] stack@[i].size < 0x1_0000_0000
                && stack@[i].count < 0x1_0000_0000,
            items_in_shape(bytes@, 0, seq![initial_globals()], 0)
                == items_in_shape(bytes@, at as nat, stack@, bits as nat),
        decreases len + 5 - at,
    {
        let header = bytes[at];
        let n: usize = if header % 4 == 3 { 4 } else { (header % 4) as usize };
        let next = at + 1 + n;
        if next > len {
            return true;
        }
        let v: u64 = if n == 0 {
            0
        } else if n == 1 {
            bytes[at + 1] as u64
        } else if n == 2 {
            bytes[at + 1] as u64 + 256 * (bytes[at + 2] as u64)
        } else {
            bytes[at + 1] as u64 + 256 * (bytes[at + 2] as u64) + 65536 * (bytes[at + 3] as u64)
                + 16777216 * (bytes[at + 4] as u64)
        };
        let tag = header / 4 * 4;
        let kind = header / 4 % 4;
        let last = stack.len() - 1;
        let top = stack[last];
        assert(n as nat == item_data_len(header));
        assert(v as nat == item_value(bytes@, at as int, n as nat));
        assert(v < 0x1_0000_0000);
        assert(top == stack@.last());
        if kind == 3 {
        } else if kind == 1 {
            if tag == 0xa4 {
                stack.push(top);
            } else if tag == 0xb4 {
                if stack.len() <= 1 {
                    return true;
                }
                stack.pop();
            } else if tag == 0x04 {
                stack.set(last, ShapeGlobals { page_seen: true, ..top });
            } else if tag == 0x74 {
                if n == 0 {
                    return true;
                }
                stack.set(last, ShapeGlobals { size: v, ..top });
            } else if tag == 0x94 {
                if n == 0 {
                    return true;
                }
                stack.set(last, ShapeGlobals { count: v, ..top });
            }
        } else if kind == 2 {
            if n == 0 {
                return true;
            }
            if tag == 0x08 && n < 4 && !top.page_seen {
                return false;
            }
        } else if tag == 0x80 || tag == 0x90 || tag == 0xb0 {
            if n == 0 {
                return true;
            }
            let size = top.size;
            let count = top.count;
            let b: u64 = if size == 0 || count == 0 {
                0
            } else {
                assert(size * count < 0x1_0000_0000 * 0x1_0000_0000) by (nonlinear_arith)
                    requires
                        size < 0x1_0000_0000,
                        count < 0x1_0000_0000,
                ;
                size * count
            };
            if b >= MAX_DESCRIBED_BITS - bits {
                return false;
            }
            bits = bits + b;
        } else if tag == 0xa0 || tag == 0xc0 {
        } else {
            return true;
        }
        at = next;
    }
    true
}

/// Some report field carries report ID `id`.
pub open spec fn declares_id(fields: Seq<Option<u8>>, id: u8) -> bool {
    exists|i: int| 0 <= i < fields.len() && fields[i] == Some(id)
}

/// The distinct report IDs below `bound` that `fields` declare, ascending.
pub open spec fn declared_ids_below(fields: Seq<Option<u8>>, bound: nat) -> Seq<u8>
    decreases bound,
{
    if bound == 0 {
        seq![]
    } else {
        let earlier = declared_ids_below(fields, (bound - 1) as nat);
        if declares_id(fields, (bound - 1) as u8) {
            earlier.push((bound - 1) as u8)
        } else {
            earlier
        }
    }
}

/// The distinct report IDs `fields` declare, ascending.
pub open spec fn declared_ids(fields: Seq<Option<u8>>) -> Seq<u8> {
    declared_ids_below(fields, 256)
}

/// `declared_ids_below` is strictly ascending and holds exactly the
/// declared IDs below the bound.
pub proof fn lemma_declared_ids_below(fields: Seq<Option<u8>>, bound: nat)
    requires
        bound <= 256,
    ensures
        forall|a: int, b: int| 0 <= a < b < declared_ids_below(fields, bound).len() ==>
            #[trigger] declared_ids_below(fields, bound)[a] < #[trigger] declared_ids_below(fields, bound)[b],
        forall|a: int| 0 <= a < declared_ids_below(fields, bound).len() ==>
            #[trigger] declared_ids_below(fields, bound)[a] < bound,
        forall|id: u8| #[trigger] declared_ids_below(fields, bound).contains(id) <==> (id < bound && declares_id(fields, id)),
    decreases bound,
{
    if bound > 0 {
        lemma_declared_ids_below(fields, (bound - 1) as nat);
        let earlier = declared_ids_below(fields, (bound - 1) as nat);
        let last = (bound - 1) as u8;
        assert forall|id: u8| #[trigger] declared_ids_below(fields, bound).contains(id) <==> (id < bound && declares_id(fields, id)) by {
            if declares_id(fields, last) {
                if id == last {
                    assert(declared_ids_below(fields, bound)[earlier.len() as int] == id);
                } else if earlier.contains(id) {
                    let w = choose|w: int| 0 <= w < earlier.len() && earlier[w] == id;
                    assert(declared_ids_below(fields, bound)[w] == id);
                }
                if declared_ids_below(fields, bound).contains(id) && id != last {
                    let w = choose|w: int| 0 <= w < declared_ids_below(fields, bound).len() && declared_ids_below(fields, bound)[w] == id;
                    assert(w < earlier.len());
                    assert(earlier[w] == id);
                }
            }
        }
    }
}

/// The distinct report IDs declared across `fields`, in ascending order —
/// what the interface's report descriptor declares over its input, output
/// and feature reports combined.
pub fn distinct_report_ids(fields: &Vec<Option<u8>>) -> (r: Vec<u8>)
    ensures
        r@ == declared_ids(fields@),
{
    let mut ids: Vec<u8> = Vec::new();
    let mut id: u16 = 0;
    while id < 256
        invariant
            id <= 256,
            ids@ == declared_ids_below(fields@, id as nat),
        decreases 256 - id,
    {
        let candidate = id as u8;
        let mut found = false;
        let mut i: usize = 0;
        while i < fields.len()
            invariant_except_break
                i <= fields@.len(),
                forall|j: int| 0 <= j < i ==> fields@[j] != Some(candidate),
                !found,
            ensures
                found <==> declares_id(fields@, candidate),
            decreases fields@.len() - i,
        {
            if fields[i] == Some(candidate) {
                found = true;
                break;
            }
            i = i + 1;
        }
        if found {
            ids.push(candidate);
        }
        id = id + 1;
    }
    ids
}

/// Parses a report descriptor and returns its distinct report IDs across
/// input, output, and feature reports, in ascending order. A descriptor
/// outside the shape the parser is handed is refused without parsing.
pub fn report_ids_from_descriptor(descriptor: &[u8]) -> (r: Result<Vec<u8>, Error>)
    ensures
        !parser_accepts_shape(descriptor@) ==> r matches Err(Error::UnhandledDescriptor),
        parser_accepts_shape(descriptor@) ==> match parsed_report_id_fields(descriptor@) {
            Some(fields) => r matches Ok(ids) && ids@ == declared_ids(fields),
            None => r matches Err(Error::ParseDescriptor(_)),
        },
{
    if !accepts_shape(descriptor) {
        return Err(Error::UnhandledDescriptor);
    }
    match parse_report_id_fields(descriptor) {
        Ok(fields) => Ok(distinct_report_ids(&fields)),
        Err(e) => Err(Error::ParseDescriptor(e)),
    }
}

} // verus!
