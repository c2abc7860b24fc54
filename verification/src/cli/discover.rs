//! `discover`'s own wording: the category labels and the lines of the
//! table it prints when no export was asked for.

use vstd::prelude::*;
use vstd::string::*;
use crate::discovery::classify::Classification;
use crate::discovery::pipeline::Discovered;
use crate::discovery::path_map::PathMap;
use crate::identity::{Interface, UsagePair};
use crate::cli::format::{append_padded, append_padded_signed, hex4, padded_decimal};
use crate::cli::report::{hex4_text, recorded_accessible};
use crate::text::texts;

verus! {

/// The human-readable label of each category.
pub open spec fn spec_classification_label(classification: Classification) -> Seq<char> {
    match classification {
        Classification::ConfigurableKeyboard => "Configurable Keyboard"@,
        Classification::Keyboard => "Keyboard"@,
        Classification::VendorOnly => "Vendor-only"@,
        Classification::UnknownHid => "Unknown HID"@,
    }
}

/// The human-readable label `discover`'s table shows for a category.
pub fn classification_label(classification: Classification) -> (r: &'static str)
    ensures
        r@ == spec_classification_label(classification),
{
    match classification {
        Classification::ConfigurableKeyboard => "Configurable Keyboard",
        Classification::Keyboard => "Keyboard",
        Classification::VendorOnly => "Vendor-only",
        Classification::UnknownHid => "Unknown HID",
    }
}

/// `parts` with `sep` between each two consecutive parts.
pub open spec fn joined(parts: Seq<Seq<char>>, sep: Seq<char>) -> Seq<char>
    decreases parts.len(),
{
    if parts.len() == 0 {
        Seq::empty()
    } else if parts.len() == 1 {
        parts[0]
    } else {
        joined(parts.drop_last(), sep) + sep + parts.last()
    }
}

/// `n` in decimal, as `{}` writes an integer.
pub open spec fn decimal_text(n: int) -> Seq<char> {
    padded_decimal(n, 1)
}

/// A list of bytes as `{:?}` writes it: `[1, 2, 3]`.
pub open spec fn byte_list_text(bytes: Seq<u8>) -> Seq<char> {
    seq!['['] + joined(bytes.map_values(|b: u8| decimal_text(b as int)), ", "@) + seq![']']
}

/// The text of an optional string, or `placeholder` when there is none.
pub open spec fn text_or(text: Option<String>, placeholder: Seq<char>) -> Seq<char> {
    match text {
        Some(t) => t@,
        None => placeholder,
    }
}

/// How the table shows whether something can be opened.
pub open spec fn access_text(accessible: bool) -> Seq<char> {
    if accessible {
        "ok"@
    } else {
        "permission denied"@
    }
}

/// A usage pair as the table shows it: `0x____/0x____`.
pub open spec fn usage_text(pair: UsagePair) -> Seq<char> {
    hex4_text(pair.usage_page) + seq!['/'] + hex4_text(pair.usage)
}

/// Every interface of `found` is recorded as accessible.
pub open spec fn all_accessible(found: Discovered, accessible: Map<Seq<char>, bool>) -> bool {
    forall|j: int| 0 <= j < found.identity.interfaces@.len()
        ==> recorded_accessible(accessible, #[trigger] found.identity.interfaces@[j].path@)
}

/// The table's line for one device.
pub open spec fn device_line_text(found: Discovered, accessible: bool) -> Seq<char> {
    text_or(found.identity.manufacturer, "(unknown manufacturer)"@) + seq![' ']
        + text_or(found.identity.product, "(unknown product)"@) + " \u{2014} "@
        + hex4_text(found.identity.vendor_id) + seq![':'] + hex4_text(found.identity.product_id)
        + " \u{2014} "@ + decimal_text(found.identity.interfaces@.len() as int) + " interface(s) \u{2014} "@
        + spec_classification_label(found.classification) + " \u{2014} unsupported \u{2014} "@
        + access_text(accessible)
}

/// The report IDs part of an interface's line.
pub open spec fn report_ids_text(report_ids: Seq<u8>) -> Seq<char> {
    if report_ids.len() == 0 {
        "no report IDs"@
    } else {
        "report IDs "@ + byte_list_text(report_ids)
    }
}

/// The table's detail line for one interface.
pub open spec fn interface_line_text(interface: Interface, accessible: bool) -> Seq<char> {
    "  interface "@ + decimal_text(interface.interface_number as int) + ": "@ + interface.path@ + " ["@
        + joined(interface.usage_pairs@.map_values(|p: UsagePair| usage_text(p)), ", "@) + "] ("@
        + report_ids_text(interface.report_ids@) + ") ("@ + access_text(accessible) + seq![')']
}

/// The lines for one device: its own line, then, when `verbose`, one
/// line per interface.
pub open spec fn device_block(found: Discovered, verbose: bool, accessible: Map<Seq<char>, bool>) -> Seq<Seq<char>> {
    seq![device_line_text(found, all_accessible(found, accessible))] + if verbose {
        found.identity.interfaces@.map_values(
            |i: Interface| interface_line_text(i, recorded_accessible(accessible, i.path@)),
        )
    } else {
        Seq::empty()
    }
}

/// The blocks of every device, in order.
pub open spec fn table_body(discovered: Seq<Discovered>, verbose: bool, accessible: Map<Seq<char>, bool>) -> Seq<Seq<char>>
    decreases discovered.len(),
{
    if discovered.len() == 0 {
        Seq::empty()
    } else {
        table_body(discovered.drop_last(), verbose, accessible) + device_block(discovered.last(), verbose, accessible)
    }
}

/// Everything the table prints for `discovered`.
pub open spec fn table_text(discovered: Seq<Discovered>, verbose: bool, accessible: Map<Seq<char>, bool>) -> Seq<Seq<char>> {
    if discovered.len() == 0 {
        seq!["No HID devices detected."@]
    } else {
        table_body(discovered, verbose, accessible)
    }
}

/// Appending one more part to a join adds the separator first, unless
/// it is the first part.
proof fn lemma_joined_push(parts: Seq<Seq<char>>, sep: Seq<char>, part: Seq<char>)
    ensures
        joined(parts.push(part), sep) == if parts.len() == 0 { part } else { joined(parts, sep) + sep + part },
{
    assert(parts.push(part).drop_last() =~= parts);
}

fn append_decimal(s: &mut String, n: u64)
    ensures
        final(s)@ == old(s)@ + decimal_text(n as int),
{
    append_padded(s, n, 1);
}

fn append_text_or(s: &mut String, text: &Option<String>, placeholder: &str)
    ensures
        final(s)@ == old(s)@ + text_or(*text, placeholder@),
{
    match text {
        Some(t) => s.append(t.as_str()),
        None => s.append(placeholder),
    }
}

fn append_access(s: &mut String, accessible: bool)
    ensures
        final(s)@ == old(s)@ + access_text(accessible),
{
    if accessible {
        s.append("ok");
    } else {
        s.append("permission denied");
    }
}

/// The table's line for one device whose interfaces are `accessible`
/// (all of them) or not.
pub fn device_line(found: &Discovered, accessible: bool) -> (r: String)
    ensures
        r@ == device_line_text(*found, accessible),
{
    let identity = &found.identity;
    let mut s = String::new();
    append_text_or(&mut s, &identity.manufacturer, "(unknown manufacturer)");
    s.append(" ");
    append_text_or(&mut s, &identity.product, "(unknown product)");
    s.append(" \u{2014} ");
    s.append(hex4(identity.vendor_id).as_str());
    s.append(":");
    s.append(hex4(identity.product_id).as_str());
    s.append(" \u{2014} ");
    append_decimal(&mut s, identity.interfaces.len() as u64);
    s.append(" interface(s) \u{2014} ");
    s.append(classification_label(found.classification));
    s.append(" \u{2014} unsupported \u{2014} ");
    append_access(&mut s, accessible);
    proof {
        reveal_strlit(" ");
        reveal_strlit(":");
    }
    assert(s@ =~= device_line_text(*found, accessible));
    s
}

fn append_usages(s: &mut String, pairs: &Vec<UsagePair>)
    ensures
        final(s)@ == old(s)@ + joined(pairs@.map_values(|p: UsagePair| usage_text(p)), ", "@),
{
    let ghost usages = pairs@.map_values(|p: UsagePair| usage_text(p));
    let mut j: usize = 0;
    proof {
        assert(usages.take(0) =~= Seq::<Seq<char>>::empty());
    }
    while j < pairs.len()
        invariant
            j <= pairs@.len(),
            usages == pairs@.map_values(|p: UsagePair| usage_text(p)),
            s@ == old(s)@ + joined(usages.take(j as int), ", "@),
        decreases pairs@.len() - j,
    {
        let pair = pairs[j];
        let ghost before = s@;
        if j > 0 {
            s.append(", ");
        }
        let ghost mid = s@;
        s.append(hex4(pair.usage_page).as_str());
        s.append("/");
        s.append(hex4(pair.usage).as_str());
        proof {
            reveal_strlit("/");
            assert(s@ =~= mid + usage_text(pair));
            lemma_joined_push(usages.take(j as int), ", "@, usage_text(pair));
            assert(usages.take(j as int).push(usage_text(pair)) =~= usages.take(j + 1));
            assert(usages[j as int] == usage_text(pair));
        }
        j = j + 1;
    }
    proof {
        assert(usages.take(pairs@.len() as int) =~= usages);
    }
}

fn append_byte_list(s: &mut String, bytes: &Vec<u8>)
    ensures
        final(s)@ == old(s)@ + byte_list_text(bytes@),
{
    let ghost ids = bytes@.map_values(|b: u8| decimal_text(b as int));
    s.append("[");
    let ghost opened = s@;
    let mut k: usize = 0;
    proof {
        assert(ids.take(0) =~= Seq::<Seq<char>>::empty());
    }
    while k < bytes.len()
        invariant
            k <= bytes@.len(),
            ids == bytes@.map_values(|b: u8| decimal_text(b as int)),
            s@ == opened + joined(ids.take(k as int), ", "@),
        decreases bytes@.len() - k,
    {
        let id = bytes[k];
        if k > 0 {
            s.append(", ");
        }
        append_decimal(s, id as u64);
        proof {
            lemma_joined_push(ids.take(k as int), ", "@, decimal_text(id as int));
            assert(ids.take(k as int).push(decimal_text(id as int)) =~= ids.take(k + 1));
            assert(ids[k as int] == decimal_text(id as int));
        }
        k = k + 1;
    }
    s.append("]");
    proof {
        reveal_strlit("[");
        reveal_strlit("]");
        assert(ids.take(bytes@.len() as int) =~= ids);
        assert(s@ =~= old(s)@ + byte_list_text(bytes@));
    }
}

/// The table's detail line for one interface.
pub fn interface_line(interface: &Interface, accessible: bool) -> (r: String)
    ensures
        r@ == interface_line_text(*interface, accessible),
{
    let mut s = String::new();
    s.append("  interface ");
    append_padded_signed(&mut s, interface.interface_number as i64, 1);
    s.append(": ");
    s.append(interface.path.as_str());
    s.append(" [");
    append_usages(&mut s, &interface.usage_pairs);
    s.append("] (");
    if interface.report_ids.len() == 0 {
        s.append("no report IDs");
    } else {
        s.append("report IDs ");
        append_byte_list(&mut s, &interface.report_ids);
    }
    s.append(") (");
    append_access(&mut s, accessible);
    s.append(")");
    proof {
        reveal_strlit(")");
    }
    assert(s@ =~= interface_line_text(*interface, accessible));
    s
}

fn is_recorded_accessible(accessible: &PathMap<bool>, path: &String) -> (r: bool)
    ensures
        r == recorded_accessible(accessible.view(), path@),
{
    match accessible.get(path.as_str()) {
        Some(a) => *a,
        None => false,
    }
}

/// The lines `discover` prints as its table: a single notice when
/// nothing was found, otherwise for each device its line and, when
/// `verbose`, one line per interface. `accessible` records which
/// interface paths this process can open (absent means it cannot); a
/// device is shown accessible when all its interfaces are.
pub fn table_lines(discovered: &[Discovered], verbose: bool, accessible: &PathMap<bool>) -> (r: Vec<String>)
    ensures
        texts(r@) == table_text(discovered@, verbose, accessible.view()),
{
    let mut lines: Vec<String> = Vec::new();
    if discovered.len() == 0 {
        lines.push(String::from_str("No HID devices detected."));
        assert(texts(lines@) =~= table_text(discovered@, verbose, accessible.view()));
        return lines;
    }
    let mut k: usize = 0;
    proof {
        assert(discovered@.take(0) =~= Seq::<Discovered>::empty());
        assert(texts(lines@) =~= Seq::<Seq<char>>::empty());
    }
    while k < discovered.len()
        invariant
            k <= discovered@.len(),
            texts(lines@) == table_body(discovered@.take(k as int), verbose, accessible.view()),
        decreases discovered@.len() - k,
    {
        let found = &discovered[k];
        let interfaces = &found.identity.interfaces;
        let mut all = true;
        let mut j: usize = 0;
        while j < interfaces.len()
            invariant
                j <= interfaces@.len(),
                all == forall|i: int| 0 <= i < j ==> recorded_accessible(accessible.view(), #[trigger] interfaces@[i].path@),
            decreases interfaces@.len() - j,
        {
            let a = is_recorded_accessible(accessible, &interfaces[j].path);
            all = all && a;
            j = j + 1;
        }
        let ghost start = texts(lines@);
        lines.push(device_line(found, all));
        proof {
            assert(texts(lines@) =~= start.push(device_line_text(*found, all)));
        }
        if verbose {
            let mut j: usize = 0;
            while j < interfaces.len()
                invariant
                    j <= interfaces@.len(),
                    texts(lines@) == start.push(device_line_text(*found, all)) + interfaces@.take(j as int).map_values(
                        |i: Interface| interface_line_text(i, recorded_accessible(accessible.view(), i.path@)),
                    ),
                decreases interfaces@.len() - j,
            {
                let a = is_recorded_accessible(accessible, &interfaces[j].path);
                let ghost before = texts(lines@);
                lines.push(interface_line(&interfaces[j], a));
                proof {
                    assert(texts(lines@) =~= before.push(interface_line_text(interfaces@[j as int], a)));
                    assert(interfaces@.take(j + 1) =~= interfaces@.take(j as int).push(interfaces@[j as int]));
                    assert(texts(lines@) =~= start.push(device_line_text(*found, all)) + interfaces@.take(j + 1).map_values(
                        |i: Interface| interface_line_text(i, recorded_accessible(accessible.view(), i.path@)),
                    ));
                }
                j = j + 1;
            }
            proof {
                assert(interfaces@.take(interfaces@.len() as int) =~= interfaces@);
            }
        }
        proof {
            assert(discovered@.take(k + 1).drop_last() =~= discovered@.take(k as int));
            assert(all == all_accessible(*found, accessible.view()));
            assert(texts(lines@) =~= start + device_block(*found, verbose, accessible.view()));
        }
        k = k + 1;
    }
    proof {
        assert(discovered@.take(discovered@.len() as int) =~= discovered@);
    }
    lines
}

/// The formats `discover --export` writes.
#[derive(Debug, Clone, Copy, PartialEq, Eq, Structural)]
pub enum ExportFormat {
    /// A single JSON report.
    Json,
}

/// `discover`'s arguments.
#[derive(Debug, Clone, PartialEq, Eq)]
pub struct Args {
    /// Show per-interface detail: usage pairs, report IDs, path,
    /// accessibility.
    pub verbose: bool,
    /// Write a portable discovery report instead of printing a table.
    pub export: Option<ExportFormat>,
    /// Where to write the report (default: an auto-named file in the
    /// current directory); `-` for standard output.
    pub output: Option<String>,
    /// Include real serial numbers in the report.
    pub include_serial: bool,
}

} // verus!
