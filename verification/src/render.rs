//! The human-readable text of every report: the lines each command prints when JSON
//! is not asked for. Sizes shown in a human-readable unit are computed outside and handed
//! in as labels.
use vstd::prelude::*;

use crate::connect::ConnectReport;
use crate::device::{Tp7Device, interface_summary, spec_interface_summary, spec_mode_label};
use crate::eject::EjectReport;
use crate::ls::{LsEntry, LsReport};
use crate::output::{
    ByTime, BySize, LsDisplayOptions, LsSort, by_size, by_time, ls_display_name, ls_kind_label, ls_sorted,
    size_listed_before, sort_ls_entries, time_listed_before,
};
use crate::order::equivalents;
use crate::remote::{ObjectKind, strings_view};
use crate::doctor::{DoctorCheck, DoctorReport, ProcessConflict};
use crate::pull::{PullFileReport, PullReport, PullStatus};
use crate::push::{PushFileReport, PushReport, PushStatus};
use crate::output::{pull_status_label, push_status_label};
use crate::stat::StatReport;
use crate::usb_owner::{UsbOwner, UsbOwnerKind, UsbOwnerScope};
use crate::write_ops::{MkdirReport, RenameReport, RmReport};
use crate::tree::TreeReport;
use crate::status::{StatusReport, StorageStatus};
use crate::text::{chars_of, decimal, push_char, push_padded_left, push_padded_right, pad_left, pad_right, push_decimal, push_decimal_u128, push_hex_padded, spec_decimal, spec_hex_padded};

verus! {

// ---------------------------------------------------------------------------
// Pieces of lines
// ---------------------------------------------------------------------------

/// An optional text, or `default` when it is absent.
pub open spec fn or_else(o: Option<String>, default: Seq<char>) -> Seq<char> {
    match o {
        Some(s) => s@,
        None => default,
    }
}

/// `yes` or `no`.
pub open spec fn yes_no(b: bool) -> Seq<char> {
    if b {
        "yes"@
    } else {
        "no"@
    }
}

/// A boolean as `{}` prints it.
pub open spec fn bool_text(b: bool) -> Seq<char> {
    if b {
        "true"@
    } else {
        "false"@
    }
}

/// One line of the form `label` followed by the value, when there is a value.
pub open spec fn opt_line(label: Seq<char>, o: Option<String>) -> Seq<Seq<char>> {
    match o {
        Some(v) => seq![label + v@],
        None => Seq::empty(),
    }
}

/// Appends a line to a list of lines.
pub fn push_line(lines: &mut Vec<String>, line: String)
    ensures
        strings_view(final(lines)@) == strings_view(old(lines)@).push(line@),
{
    let ghost v = line@;
    lines.push(line);
    assert(strings_view(lines@) =~= strings_view(old(lines)@).push(v));
}

/// Appends an optional text, or `default` when it is absent.
pub fn push_or(s: &mut String, o: &Option<String>, default: &str)
    ensures
        final(s)@ == old(s)@ + or_else(*o, default@),
{
    match o {
        Some(v) => s.append(v.as_str()),
        None => s.append(default),
    }
}

// ---------------------------------------------------------------------------
// tp7 devices
// ---------------------------------------------------------------------------

/// The first line of a device: serial, mode, ids, speed and product.
pub open spec fn device_heading(d: Tp7Device) -> Seq<char> {
    or_else(d.serial_number, "<no-serial>"@) + "  "@ + spec_mode_label(d.mode) + "  "@
        + d.vendor_id_hex@ + ":"@ + d.product_id_hex@ + "  "@ + or_else(d.speed, "unknown-speed"@)
        + "  "@ + or_else(d.product, "TP-7"@)
}

/// The lines that describe one device.
pub open spec fn device_block(d: Tp7Device) -> Seq<Seq<char>> {
    seq![
        device_heading(d),
        "  manufacturer: "@ + or_else(d.manufacturer, "unknown"@),
        "  usb version: "@ + d.usb_version@,
        "  device version: "@ + or_else(d.device_version, "unknown"@),
    ] + opt_line("  macOS location id: "@, d.location_id) + opt_line("  bus: "@, d.bus_id) + (
    match d.device_address {
        Some(a) => seq!["  address: "@ + spec_decimal(a as nat)],
        None => Seq::empty(),
    }) + seq!["  interfaces: "@ + spec_interface_summary(d.interfaces@)]
}

/// The blocks of several devices, one after the other.
pub open spec fn device_blocks(ds: Seq<Tp7Device>) -> Seq<Seq<char>>
    decreases ds.len(),
{
    if ds.len() == 0 {
        Seq::empty()
    } else {
        device_blocks(ds.drop_last()) + device_block(ds.last())
    }
}

/// What `tp7 devices` prints.
pub open spec fn spec_device_lines(ds: Seq<Tp7Device>) -> Seq<Seq<char>> {
    if ds.len() == 0 {
        seq!["No TP-7 devices found."@]
    } else {
        device_blocks(ds)
    }
}

/// Appends an optional line.
fn push_opt_line(lines: &mut Vec<String>, label: &str, o: &Option<String>)
    ensures
        strings_view(final(lines)@) == strings_view(old(lines)@) + opt_line(label@, *o),
{
    match o {
        Some(v) => {
            let mut line = String::from_str(label);
            line.append(v.as_str());
            push_line(lines, line);
        },
        None => {
            assert(strings_view(old(lines)@) + opt_line(label@, *o) =~= strings_view(old(lines)@));
        },
    }
}

/// The heading line of a device.
pub fn device_heading_text(d: &Tp7Device) -> (res: String)
    ensures
        res@ == device_heading(*d),
{
    let mut line = String::new();
    push_or(&mut line, &d.serial_number, "<no-serial>");
    line.append("  ");
    line.append(d.mode.label());
    line.append("  ");
    line.append(d.vendor_id_hex.as_str());
    line.append(":");
    line.append(d.product_id_hex.as_str());
    line.append("  ");
    push_or(&mut line, &d.speed, "unknown-speed");
    line.append("  ");
    push_or(&mut line, &d.product, "TP-7");
    line
}

/// Appends the lines of one device.
fn push_device_block(lines: &mut Vec<String>, d: &Tp7Device)
    ensures
        strings_view(final(lines)@) == strings_view(old(lines)@) + device_block(*d),
{
    let ghost start = strings_view(lines@);
    push_line(lines, device_heading_text(d));
    let mut line = String::from_str("  manufacturer: ");
    push_or(&mut line, &d.manufacturer, "unknown");
    push_line(lines, line);
    let mut line = String::from_str("  usb version: ");
    line.append(d.usb_version.as_str());
    push_line(lines, line);
    let mut line = String::from_str("  device version: ");
    push_or(&mut line, &d.device_version, "unknown");
    push_line(lines, line);
    let ghost first = strings_view(lines@);
    assert(first =~= start + seq![
        device_heading(*d),
        "  manufacturer: "@ + or_else(d.manufacturer, "unknown"@),
        "  usb version: "@ + d.usb_version@,
        "  device version: "@ + or_else(d.device_version, "unknown"@),
    ]);
    push_opt_line(lines, "  macOS location id: ", &d.location_id);
    push_opt_line(lines, "  bus: ", &d.bus_id);
    let ghost before_address = strings_view(lines@);
    match d.device_address {
        Some(a) => {
            let mut line = String::from_str("  address: ");
            push_decimal(&mut line, a as u64);
            push_line(lines, line);
        },
        None => {},
    }
    let ghost address_lines: Seq<Seq<char>> = match d.device_address {
        Some(a) => seq!["  address: "@ + spec_decimal(a as nat)],
        None => Seq::empty(),
    };
    assert(strings_view(lines@) =~= before_address + address_lines);
    let mut line = String::from_str("  interfaces: ");
    line.append(interface_summary(d.interfaces.as_slice()).as_str());
    push_line(lines, line);
    assert(strings_view(lines@) =~= strings_view(old(lines)@) + device_block(*d));
}

/// What `tp7 devices` prints.
pub fn device_lines(devices: &[Tp7Device]) -> (res: Vec<String>)
    ensures
        strings_view(res@) == spec_device_lines(devices@),
{
    let mut lines: Vec<String> = Vec::new();
    if devices.len() == 0 {
        push_line(&mut lines, String::from_str("No TP-7 devices found."));
        assert(strings_view(lines@) =~= seq!["No TP-7 devices found."@]);
        return lines;
    }
    let n = devices.len();
    for i in 0..n
        invariant
            n == devices@.len(),
            strings_view(lines@) == device_blocks(devices@.take(i as int)),
    {
        push_device_block(&mut lines, &devices[i]);
        assert(devices@.take(i + 1).drop_last() =~= devices@.take(i as int));
        assert(devices@.take(i + 1).last() == devices@[i as int]);
    }
    assert(devices@.take(n as int) =~= devices@);
    lines
}

// ---------------------------------------------------------------------------
// tp7 status
// ---------------------------------------------------------------------------

/// The line of one storage.
pub open spec fn storage_line(st: StorageStatus) -> Seq<char> {
    "  - "@ + spec_decimal(st.id as nat) + ": "@ + spec_decimal(st.free_space_bytes as nat)
        + " free of "@ + spec_decimal(st.max_capacity_bytes as nat) + " bytes ("@ + st.description@
        + ")"@
}

/// The lines of several storages.
pub open spec fn storage_lines(sts: Seq<StorageStatus>) -> Seq<Seq<char>>
    decreases sts.len(),
{
    if sts.len() == 0 {
        Seq::empty()
    } else {
        storage_lines(sts.drop_last()).push(storage_line(sts.last()))
    }
}

/// What `tp7 status` prints.
pub open spec fn spec_status_lines(r: StatusReport) -> Seq<Seq<char>> {
    seq![
        or_else(r.usb.serial_number, "<no-serial>"@) + "  "@ + spec_mode_label(r.usb.mode) + "  "@
            + or_else(r.usb.product, "TP-7"@),
        "  mtp: "@ + r.mtp.manufacturer@ + " "@ + r.mtp.model@ + " ("@ + r.mtp.device_version@
            + ")"@,
        "  mtp serial: "@ + r.mtp.serial_number@,
        "  supports rename: "@ + bool_text(r.mtp.supports_rename),
        "  storages: "@ + spec_decimal(r.mtp.storage_count as nat),
    ] + storage_lines(r.mtp.storages@)
}

/// What `tp7 status` prints.
pub fn status_lines(report: &StatusReport) -> (res: Vec<String>)
    ensures
        strings_view(res@) == spec_status_lines(*report),
{
    let mut lines: Vec<String> = Vec::new();
    let mut line = String::new();
    push_or(&mut line, &report.usb.serial_number, "<no-serial>");
    line.append("  ");
    line.append(report.usb.mode.label());
    line.append("  ");
    push_or(&mut line, &report.usb.product, "TP-7");
    push_line(&mut lines, line);
    let mut line = String::from_str("  mtp: ");
    line.append(report.mtp.manufacturer.as_str());
    line.append(" ");
    line.append(report.mtp.model.as_str());
    line.append(" (");
    line.append(report.mtp.device_version.as_str());
    line.append(")");
    push_line(&mut lines, line);
    let mut line = String::from_str("  mtp serial: ");
    line.append(report.mtp.serial_number.as_str());
    push_line(&mut lines, line);
    let mut line = String::from_str("  supports rename: ");
    line.append(if report.mtp.supports_rename {
        "true"
    } else {
        "false"
    });
    push_line(&mut lines, line);
    let mut line = String::from_str("  storages: ");
    push_decimal(&mut line, report.mtp.storage_count as u64);
    push_line(&mut lines, line);
    let ghost head = strings_view(lines@);
    let n = report.mtp.storages.len();
    for i in 0..n
        invariant
            n == report.mtp.storages@.len(),
            strings_view(lines@) == head + storage_lines(report.mtp.storages@.take(i as int)),
    {
        let st = &report.mtp.storages[i];
        let mut line = String::from_str("  - ");
        push_decimal(&mut line, st.id);
        line.append(": ");
        push_decimal(&mut line, st.free_space_bytes);
        line.append(" free of ");
        push_decimal(&mut line, st.max_capacity_bytes);
        line.append(" bytes (");
        line.append(st.description.as_str());
        line.append(")");
        push_line(&mut lines, line);
        assert(report.mtp.storages@.take(i + 1).drop_last() =~= report.mtp.storages@.take(i as int));
    }
    assert(report.mtp.storages@.take(n as int) =~= report.mtp.storages@);
    assert(strings_view(lines@) =~= spec_status_lines(*report));
    lines
}

// ---------------------------------------------------------------------------
// tp7 connect and tp7 eject
// ---------------------------------------------------------------------------

/// Words joined with single spaces.
pub open spec fn space_joined(ws: Seq<Seq<char>>) -> Seq<char>
    decreases ws.len(),
{
    if ws.len() == 0 {
        Seq::empty()
    } else if ws.len() == 1 {
        ws[0]
    } else {
        space_joined(ws.drop_last()) + " "@ + ws.last()
    }
}

/// What `tp7 connect` prints.
pub open spec fn spec_connect_lines(r: ConnectReport) -> Seq<Seq<char>> {
    seq![
        or_else(r.serial_number, "<no-serial>"@) + "  "@ + spec_mode_label(r.initial_mode) + " -> "@
            + spec_mode_label(r.final_mode) + "  "@ + r.message@,
        "  switched: "@ + yes_no(r.switched),
        "  mtp session: "@ + r.mtp_session.message@,
    ] + (match r.mtp_session.storage_count {
        Some(c) => seq!["  storages: "@ + spec_decimal(c as nat)],
        None => Seq::empty(),
    }) + (match r.midi_switch {
        Some(m) => seq![
            "  midi switch: command 0x"@ + spec_hex_padded(m.command as nat, 2, false)
                + ", payload "@ + space_joined(strings_view(m.payload@)),
        ],
        None => Seq::empty(),
    })
}

/// Appends words joined with single spaces.
fn push_space_joined(s: &mut String, words: &Vec<String>)
    ensures
        final(s)@ == old(s)@ + space_joined(strings_view(words@)),
{
    let n = words.len();
    let ghost start = s@;
    for i in 0..n
        invariant
            n == words@.len(),
            s@ == start + space_joined(strings_view(words@.take(i as int))),
    {
        let ghost before = words@.take(i as int);
        assert(words@.take(i + 1).drop_last() =~= before);
        assert(strings_view(words@.take(i + 1)).drop_last() =~= strings_view(before));
        if i > 0 {
            s.append(" ");
        } else {
            assert(strings_view(words@.take(1)) =~= seq![words@[0]@]);
        }
        s.append(words[i].as_str());
        assert(strings_view(words@.take(i + 1)).last() == words@[i as int]@);
        assert(s@ =~= start + space_joined(strings_view(words@.take(i + 1))));
    }
    assert(words@.take(n as int) =~= words@);
}

/// The `yes`/`no` of a flag.
fn yes_no_text(b: bool) -> (res: &'static str)
    ensures
        res@ == yes_no(b),
{
    if b {
        "yes"
    } else {
        "no"
    }
}

/// What `tp7 connect` prints.
pub fn connect_lines(report: &ConnectReport) -> (res: Vec<String>)
    ensures
        strings_view(res@) == spec_connect_lines(*report),
{
    let mut lines: Vec<String> = Vec::new();
    let mut line = String::new();
    push_or(&mut line, &report.serial_number, "<no-serial>");
    line.append("  ");
    line.append(report.initial_mode.label());
    line.append(" -> ");
    line.append(report.final_mode.label());
    line.append("  ");
    line.append(report.message.as_str());
    push_line(&mut lines, line);
    let mut line = String::from_str("  switched: ");
    line.append(yes_no_text(report.switched));
    push_line(&mut lines, line);
    let mut line = String::from_str("  mtp session: ");
    line.append(report.mtp_session.message.as_str());
    push_line(&mut lines, line);
    let ghost head = strings_view(lines@);
    match report.mtp_session.storage_count {
        Some(c) => {
            let mut line = String::from_str("  storages: ");
            push_decimal(&mut line, c as u64);
            push_line(&mut lines, line);
        },
        None => {},
    }
    let ghost middle = strings_view(lines@);
    match &report.midi_switch {
        Some(m) => {
            let mut line = String::from_str("  midi switch: command 0x");
            push_hex_padded(&mut line, m.command as u64, 2, false);
            line.append(", payload ");
            push_space_joined(&mut line, &m.payload);
            push_line(&mut lines, line);
        },
        None => {},
    }
    assert(strings_view(lines@) =~= spec_connect_lines(*report));
    lines
}

/// What `tp7 eject` prints.
pub open spec fn spec_eject_lines(r: EjectReport) -> Seq<Seq<char>> {
    seq![
        or_else(r.serial_number, "<no-serial>"@) + "  "@ + spec_mode_label(r.initial_mode) + " -> "@
            + spec_mode_label(r.final_mode) + "  "@ + r.message@,
        "  switched: "@ + yes_no(r.switched),
        "  closed: "@ + yes_no(r.closed),
    ]
}

/// What `tp7 eject` prints.
pub fn eject_lines(report: &EjectReport) -> (res: Vec<String>)
    ensures
        strings_view(res@) == spec_eject_lines(*report),
{
    let mut lines: Vec<String> = Vec::new();
    let mut line = String::new();
    push_or(&mut line, &report.serial_number, "<no-serial>");
    line.append("  ");
    line.append(report.initial_mode.label());
    line.append(" -> ");
    line.append(report.final_mode.label());
    line.append("  ");
    line.append(report.message.as_str());
    push_line(&mut lines, line);
    let mut line = String::from_str("  switched: ");
    line.append(yes_no_text(report.switched));
    push_line(&mut lines, line);
    let mut line = String::from_str("  closed: ");
    line.append(yes_no_text(report.closed));
    push_line(&mut lines, line);
    assert(strings_view(lines@) =~= spec_eject_lines(*report));
    lines
}

// ---------------------------------------------------------------------------
// Sizes, kinds and names
// ---------------------------------------------------------------------------

/// The label of an object kind.
pub open spec fn kind_label(kind: ObjectKind) -> Seq<char> {
    match kind {
        ObjectKind::File => "file"@,
        ObjectKind::Folder => "folder"@,
    }
}

/// How a name is shown: folders get a trailing `/`.
pub open spec fn display_name(name: Seq<char>, kind: ObjectKind) -> Seq<char> {
    match kind {
        ObjectKind::File => name,
        ObjectKind::Folder => name + "/"@,
    }
}

/// A size with its exact byte count: `N bytes` below 1024, otherwise the human-readable
/// label followed by `(N bytes)`.
pub open spec fn spec_size_with_bytes(size: nat, human: Seq<char>) -> Seq<char> {
    if size < 1024 {
        spec_decimal(size) + " bytes"@
    } else {
        human + " ("@ + spec_decimal(size) + " bytes)"@
    }
}

/// Appends a size with its exact byte count; `human` is the human-readable label of
/// `size`.
pub fn push_size_with_bytes(s: &mut String, size: u128, human: &str)
    ensures
        final(s)@ == old(s)@ + spec_size_with_bytes(size as nat, human@),
{
    if size < 1024 {
        push_decimal_u128(s, size);
        s.append(" bytes");
    } else {
        s.append(human);
        s.append(" (");
        push_decimal_u128(s, size);
        s.append(" bytes)");
    }
}

/// A size with its exact byte count; `human` is the human-readable label of `size`.
pub fn size_with_bytes(size: u128, human: &str) -> (res: String)
    ensures
        res@ == spec_size_with_bytes(size as nat, human@),
{
    let mut s = String::new();
    push_size_with_bytes(&mut s, size, human);
    s
}

/// The size column of a listing: the exact count, or the human-readable label when
/// `human_readable` is set.
pub fn ls_size_label(size: u64, human_readable: bool, human: &str) -> (res: String)
    ensures
        res@ == (if human_readable {
            human@
        } else {
            spec_decimal(size as nat)
        }),
{
    if human_readable {
        String::from_str(human)
    } else {
        decimal(size)
    }
}

// ---------------------------------------------------------------------------
// tp7 ls
// ---------------------------------------------------------------------------

/// A display order with the reversal undone.
pub open spec fn unreversed(shown: Seq<LsEntry>, reverse: bool) -> Seq<LsEntry> {
    if reverse {
        shown.reverse()
    } else {
        shown
    }
}

/// A listing in display order: sorted as asked, then reversed with `reverse`.
pub fn ls_display_entries(report: LsReport, options: LsDisplayOptions) -> (res: Vec<LsEntry>)
    ensures
        ls_sorted(
            if options.reverse {
                res@.reverse()
            } else {
                res@
            },
            options.sort,
        ),
        options.sort == LsSort::Size ==> forall|e: LsEntry| #[trigger] equivalents(
            by_size(unreversed(res@, options.reverse)),
            BySize(e),
        ) == equivalents(by_size(report.entries@), BySize(e)),
        options.sort == LsSort::Time ==> forall|e: LsEntry| #[trigger] equivalents(
            by_time(unreversed(res@, options.reverse)),
            ByTime(e),
        ) == equivalents(by_time(report.entries@), ByTime(e)),
        options.sort == LsSort::Size ==> forall|i: int, j: int|
            0 <= i < j < res@.len() ==> if options.reverse {
                size_listed_before(#[trigger] res@[j], #[trigger] res@[i])
            } else {
                size_listed_before(res@[i], res@[j])
            },
        options.sort == LsSort::Time ==> forall|i: int, j: int|
            0 <= i < j < res@.len() ==> if options.reverse {
                time_listed_before(#[trigger] res@[j], #[trigger] res@[i])
            } else {
                time_listed_before(res@[i], res@[j])
            },
        res@.to_multiset() == report.entries@.to_multiset(),
        options.sort == LsSort::Name ==> res@ == (if options.reverse {
            report.entries@.reverse()
        } else {
            report.entries@
        }),
{
    let mut entries = report.entries;
    let ghost original = entries@;
    sort_ls_entries(&mut entries, options.sort);
    if !options.reverse {
        return entries;
    }
    let ghost sorted = entries@;
    let n = entries.len();
    let mut out: Vec<LsEntry> = Vec::new();
    while entries.len() > 0
        invariant
            n == sorted.len(),
            entries@.len() <= n,
            entries@ == sorted.take(entries@.len() as int),
            out@ == sorted.skip(entries@.len() as int).reverse(),
        decreases entries.len(),
    {
        let k = entries.len();
        let e = entries.pop().unwrap();
        assert(e == sorted[k - 1]);
        out.push(e);
        assert(sorted.take(k as int).drop_last() =~= sorted.take(k - 1));
        assert(sorted.skip(k - 1).reverse() =~= sorted.skip(k as int).reverse().push(sorted[k - 1]));
    }
    assert(sorted.skip(0) =~= sorted);
    assert(out@.reverse() =~= sorted) by {
        assert(sorted.reverse().reverse() =~= sorted);
    }
    proof {
        sorted.lemma_reverse_to_multiset();
        let m = out@.len() as int;
        assert forall|i: int, j: int| 0 <= i < j < m implies (options.sort == LsSort::Size
            ==> size_listed_before(#[trigger] out@[j], #[trigger] out@[i])) && (options.sort
            == LsSort::Time ==> time_listed_before(out@[j], out@[i])) by {
            assert(out@[i] == sorted[m - 1 - i]);
            assert(out@[j] == sorted[m - 1 - j]);
        }
    }
    out
}

/// One line of a listing; `size` is the text of the size column.
pub open spec fn spec_ls_line(e: LsEntry, o: LsDisplayOptions, size: Seq<char>) -> Seq<char> {
    let name = display_name(e.name@, e.kind);
    let id = pad_left(spec_decimal(e.id as nat), 10, ' ') + " "@;
    if o.long {
        (if o.ids {
            id
        } else {
            Seq::empty()
        }) + pad_right(kind_label(e.kind), 6, ' ') + " "@ + pad_left(size, 12, ' ') + " "@
            + pad_right(or_else(e.modified, "-"@), 15, ' ') + " "@ + name
    } else {
        (if o.ids {
            id
        } else {
            Seq::empty()
        }) + (if o.size {
            pad_left(size, 12, ' ') + " "@
        } else {
            Seq::empty()
        }) + name
    }
}

/// One line of a listing; `size` is the text of the size column.
pub fn ls_line(entry: &LsEntry, options: LsDisplayOptions, size: &str) -> (res: String)
    ensures
        res@ == spec_ls_line(*entry, options, size@),
{
    let name = ls_display_name(entry.name.as_str(), &entry.kind);
    let mut line = String::new();
    if options.ids {
        push_padded_left(&mut line, decimal(entry.id as u64).as_str(), 10);
        line.append(" ");
    }
    if options.long {
        push_padded_right(&mut line, ls_kind_label(&entry.kind), 6);
        line.append(" ");
        push_padded_left(&mut line, size, 12);
        line.append(" ");
        let modified = match &entry.modified {
            Some(m) => m.clone(),
            None => String::from_str("-"),
        };
        push_padded_right(&mut line, modified.as_str(), 15);
        line.append(" ");
    } else if options.size {
        push_padded_left(&mut line, size, 12);
        line.append(" ");
    }
    line.append(name.as_str());
    line
}

// ---------------------------------------------------------------------------
// tp7 stat
// ---------------------------------------------------------------------------

/// What `tp7 stat` prints; `human` is the human-readable label of the object's size.
pub open spec fn spec_stat_lines(r: StatReport, human: Seq<char>) -> Seq<Seq<char>> {
    seq![
        r.path@ + "  "@ + kind_label(r.object.kind) + "  "@ + r.object.name@,
        "  id: "@ + spec_decimal(r.object.id as nat),
        "  parent: "@ + spec_decimal(r.object.parent_id as nat),
        "  storage: "@ + spec_decimal(r.object.storage_id as nat),
        "  size: "@ + spec_size_with_bytes(r.object.size as nat, human),
        "  format: "@ + r.format@ + " ("@ + r.format_code@ + ")"@,
        "  created: "@ + or_else(r.created, "-"@),
        "  modified: "@ + or_else(r.object.modified, "-"@),
    ]
}

/// What `tp7 stat` prints; `human` is the human-readable label of the object's size.
pub fn stat_lines(report: &StatReport, human: &str) -> (res: Vec<String>)
    ensures
        strings_view(res@) == spec_stat_lines(*report, human@),
{
    let mut lines: Vec<String> = Vec::new();
    let mut line = String::from_str(report.path.as_str());
    line.append("  ");
    line.append(ls_kind_label(&report.object.kind));
    line.append("  ");
    line.append(report.object.name.as_str());
    push_line(&mut lines, line);
    let mut line = String::from_str("  id: ");
    push_decimal(&mut line, report.object.id as u64);
    push_line(&mut lines, line);
    let mut line = String::from_str("  parent: ");
    push_decimal(&mut line, report.object.parent_id as u64);
    push_line(&mut lines, line);
    let mut line = String::from_str("  storage: ");
    push_decimal(&mut line, report.object.storage_id as u64);
    push_line(&mut lines, line);
    let mut line = String::from_str("  size: ");
    push_size_with_bytes(&mut line, report.object.size as u128, human);
    push_line(&mut lines, line);
    let mut line = String::from_str("  format: ");
    line.append(report.format.as_str());
    line.append(" (");
    line.append(report.format_code.as_str());
    line.append(")");
    push_line(&mut lines, line);
    let mut line = String::from_str("  created: ");
    push_or(&mut line, &report.created, "-");
    push_line(&mut lines, line);
    let mut line = String::from_str("  modified: ");
    push_or(&mut line, &report.object.modified, "-");
    push_line(&mut lines, line);
    assert(strings_view(lines@) =~= spec_stat_lines(*report, human@));
    lines
}

// ---------------------------------------------------------------------------
// tp7 tree
// ---------------------------------------------------------------------------

/// Whether the tree is that of a single file: one entry, at the requested path.
pub open spec fn tree_is_single_file(r: TreeReport) -> bool {
    r.entries@.len() == 1 && r.entries@[0].path@ == r.path@
}

/// One line of a tree: two spaces per level, the id with `ids`, then the name.
pub open spec fn tree_line(e: crate::tree::TreeEntry, root_indent: nat, ids: bool) -> Seq<char> {
    crate::text::repeat_char(' ', 2 * (e.depth + root_indent)) + (if ids {
        pad_left(spec_decimal(e.object.id as nat), 10, ' ') + " "@
    } else {
        Seq::empty()
    }) + display_name(e.object.name@, e.object.kind)
}

/// The lines of several tree entries.
pub open spec fn tree_entry_lines(es: Seq<crate::tree::TreeEntry>, root_indent: nat, ids: bool) -> Seq<Seq<char>>
    decreases es.len(),
{
    if es.len() == 0 {
        Seq::empty()
    } else {
        tree_entry_lines(es.drop_last(), root_indent, ids).push(tree_line(es.last(), root_indent, ids))
    }
}

/// What `tp7 tree` prints: the requested path first, unless the tree is a single file,
/// then each entry indented below it.
pub open spec fn spec_tree_lines(r: TreeReport, ids: bool) -> Seq<Seq<char>> {
    if tree_is_single_file(r) {
        tree_entry_lines(r.entries@, 0, ids)
    } else {
        seq![r.path@] + tree_entry_lines(r.entries@, 1, ids)
    }
}

/// Appends `2 * count` spaces.
fn push_indent(s: &mut String, count: usize)
    ensures
        final(s)@ == old(s)@ + crate::text::repeat_char(' ', 2 * count),
{
    let ghost start = s@;
    for i in 0..count
        invariant
            s@ == start + crate::text::repeat_char(' ', 2 * i),
    {
        push_char(s, ' ');
        push_char(s, ' ');
        assert(crate::text::repeat_char(' ', 2 * (i + 1)) =~= crate::text::repeat_char(' ', 2 * i).push(' ').push(' '));
    }
}

/// What `tp7 tree` prints.
pub fn tree_lines(report: &TreeReport, ids: bool) -> (res: Vec<String>)
    ensures
        strings_view(res@) == spec_tree_lines(*report, ids),
{
    let mut lines: Vec<String> = Vec::new();
    let single = report.entries.len() == 1 && crate::text::chars_eq(
        chars_of(report.entries[0].path.as_str()).as_slice(),
        chars_of(report.path.as_str()).as_slice(),
    );
    let root_indent: usize = if single {
        0
    } else {
        1
    };
    if !single {
        push_line(&mut lines, String::from_str(report.path.as_str()));
    }
    let ghost head = strings_view(lines@);
    let n = report.entries.len();
    for i in 0..n
        invariant
            n == report.entries@.len(),
            root_indent <= 1,
            strings_view(lines@) == head + tree_entry_lines(report.entries@.take(i as int), root_indent as nat, ids),
    {
        let e = &report.entries[i];
        let mut line = String::new();
        let ghost indent = crate::text::repeat_char(' ', 2 * (e.depth + root_indent));
        push_indent(&mut line, e.depth);
        if root_indent == 1 {
            push_char(&mut line, ' ');
            push_char(&mut line, ' ');
        }
        assert(line@ =~= indent);
        if ids {
            push_padded_left(&mut line, decimal(e.object.id as u64).as_str(), 10);
            line.append(" ");
        }
        line.append(ls_display_name(e.object.name.as_str(), &e.object.kind).as_str());
        assert(line@ == tree_line(report.entries@[i as int], root_indent as nat, ids));
        push_line(&mut lines, line);
        assert(report.entries@.take(i + 1).drop_last() =~= report.entries@.take(i as int));
        assert(report.entries@.take(i + 1).last() == report.entries@[i as int]);
    }
    assert(report.entries@.take(n as int) =~= report.entries@);
    proof {
        if single {
            assert(head =~= Seq::<Seq<char>>::empty());
        }
    }
    lines
}

// ---------------------------------------------------------------------------
// tp7 pull and tp7 push
// ---------------------------------------------------------------------------

/// The label of a pull status.
pub open spec fn pull_label(st: PullStatus) -> Seq<char> {
    match st {
        PullStatus::Downloaded => "downloaded"@,
        PullStatus::DryRun => "would download"@,
        PullStatus::Skipped => "skipped"@,
    }
}

/// The label of a push status.
pub open spec fn push_label(st: PushStatus) -> Seq<char> {
    match st {
        PushStatus::Uploaded => "uploaded"@,
        PushStatus::DryRun => "would upload"@,
    }
}

/// The sum of the sizes of pulled files.
pub open spec fn pull_sizes(fs: Seq<PullFileReport>) -> nat
    decreases fs.len(),
{
    if fs.len() == 0 {
        0
    } else {
        pull_sizes(fs.drop_last()) + fs.last().size as nat
    }
}

/// The sum of the sizes of pushed files.
pub open spec fn push_sizes(fs: Seq<PushFileReport>) -> nat
    decreases fs.len(),
{
    if fs.len() == 0 {
        0
    } else {
        push_sizes(fs.drop_last()) + fs.last().size as nat
    }
}

proof fn lemma_pull_sizes_bound(fs: Seq<PullFileReport>)
    ensures
        pull_sizes(fs) <= fs.len() * 0xffff_ffff_ffff_ffff,
    decreases fs.len(),
{
    if fs.len() > 0 {
        lemma_pull_sizes_bound(fs.drop_last());
    }
}

proof fn lemma_push_sizes_bound(fs: Seq<PushFileReport>)
    ensures
        push_sizes(fs) <= fs.len() * 0xffff_ffff_ffff_ffff,
    decreases fs.len(),
{
    if fs.len() > 0 {
        lemma_push_sizes_bound(fs.drop_last());
    }
}

/// The byte count of the summary line of a pull: what a dry run would download, or what
/// was downloaded.
pub open spec fn spec_pull_summary_bytes(r: PullReport) -> nat {
    if r.dry_run {
        pull_sizes(r.files@)
    } else {
        r.total_bytes as nat
    }
}

/// The byte count of the summary line of a push: what a dry run would upload, or what
/// was uploaded.
pub open spec fn spec_push_summary_bytes(r: PushReport) -> nat {
    if r.dry_run {
        push_sizes(r.files@)
    } else {
        r.total_bytes as nat
    }
}

/// The byte count of the summary line of a pull.
pub fn pull_summary_bytes(report: &PullReport) -> (res: u128)
    ensures
        res as nat == spec_pull_summary_bytes(*report),
{
    if !report.dry_run {
        return report.total_bytes as u128;
    }
    let n = report.files.len();
    let mut sum: u128 = 0;
    for i in 0..n
        invariant
            n == report.files@.len(),
            sum as nat == pull_sizes(report.files@.take(i as int)),
    {
        proof {
            lemma_pull_sizes_bound(report.files@.take(i as int));
            assert(i * 0xffff_ffff_ffff_ffffnat <= 0xffff_ffff_ffff_ffff * 0xffff_ffff_ffff_ffff) by (nonlinear_arith)
                requires i <= 0xffff_ffff_ffff_ffffnat;
        }
        sum = sum + report.files[i].size as u128;
        assert(report.files@.take(i + 1).drop_last() =~= report.files@.take(i as int));
    }
    assert(report.files@.take(n as int) =~= report.files@);
    sum
}

/// The byte count of the summary line of a push.
pub fn push_summary_bytes(report: &PushReport) -> (res: u128)
    ensures
        res as nat == spec_push_summary_bytes(*report),
{
    if !report.dry_run {
        return report.total_bytes as u128;
    }
    let n = report.files.len();
    let mut sum: u128 = 0;
    for i in 0..n
        invariant
            n == report.files@.len(),
            sum as nat == push_sizes(report.files@.take(i as int)),
    {
        proof {
            lemma_push_sizes_bound(report.files@.take(i as int));
            assert(i * 0xffff_ffff_ffff_ffffnat <= 0xffff_ffff_ffff_ffff * 0xffff_ffff_ffff_ffff) by (nonlinear_arith)
                requires i <= 0xffff_ffff_ffff_ffffnat;
        }
        sum = sum + report.files[i].size as u128;
        assert(report.files@.take(i + 1).drop_last() =~= report.files@.take(i as int));
    }
    assert(report.files@.take(n as int) =~= report.files@);
    sum
}

/// One file line of a pull; `human` is the human-readable label of its size.
pub open spec fn pull_file_line(f: PullFileReport, human: Seq<char>) -> Seq<char> {
    pull_label(f.status) + " "@ + f.remote_path@ + " -> "@ + f.local_path@ + " ("@
        + spec_size_with_bytes(f.size as nat, human) + ")"@
}

/// One file line of a push; `human` is the human-readable label of its size.
pub open spec fn push_file_line(f: PushFileReport, human: Seq<char>) -> Seq<char> {
    push_label(f.status) + " "@ + f.local_path@ + " -> "@ + f.remote_path@ + " ("@
        + spec_size_with_bytes(f.size as nat, human) + ")"@
}

/// The file lines of a pull.
pub open spec fn pull_file_lines(fs: Seq<PullFileReport>, humans: Seq<Seq<char>>) -> Seq<Seq<char>>
    decreases fs.len(),
{
    if fs.len() == 0 {
        Seq::empty()
    } else {
        pull_file_lines(fs.drop_last(), humans).push(pull_file_line(fs.last(), humans[fs.len() - 1]))
    }
}

/// The file lines of a push.
pub open spec fn push_file_lines(fs: Seq<PushFileReport>, humans: Seq<Seq<char>>) -> Seq<Seq<char>>
    decreases fs.len(),
{
    if fs.len() == 0 {
        Seq::empty()
    } else {
        push_file_lines(fs.drop_last(), humans).push(push_file_line(fs.last(), humans[fs.len() - 1]))
    }
}

/// What `tp7 pull` prints; `humans` are the human-readable labels of the files' sizes,
/// `human_total` that of the summary's byte count.
pub open spec fn spec_pull_lines(r: PullReport, humans: Seq<Seq<char>>, human_total: Seq<char>) -> Seq<Seq<char>> {
    pull_file_lines(r.files@, humans).push(
        spec_decimal(r.downloaded as nat) + " downloaded, "@ + spec_decimal(r.skipped as nat)
            + " skipped, "@ + spec_size_with_bytes(spec_pull_summary_bytes(r), human_total) + (if r.dry_run {
            " would download"@
        } else {
            Seq::empty()
        }),
    )
}

/// What `tp7 push` prints; `humans` are the human-readable labels of the files' sizes,
/// `human_total` that of the summary's byte count.
pub open spec fn spec_push_lines(r: PushReport, humans: Seq<Seq<char>>, human_total: Seq<char>) -> Seq<Seq<char>> {
    push_file_lines(r.files@, humans).push(
        spec_decimal(r.uploaded as nat) + " uploaded, "@ + spec_size_with_bytes(spec_push_summary_bytes(r), human_total)
            + (if r.dry_run {
            " would upload"@
        } else {
            Seq::empty()
        }),
    )
}

/// What `tp7 pull` prints; `humans` are the human-readable labels of the files' sizes,
/// `human_total` that of `pull_summary_bytes`.
pub fn pull_lines(report: &PullReport, humans: &Vec<String>, human_total: &str) -> (res: Vec<String>)
    requires
        humans@.len() == report.files@.len(),
    ensures
        strings_view(res@) == spec_pull_lines(*report, strings_view(humans@), human_total@),
{
    let mut lines: Vec<String> = Vec::new();
    let n = report.files.len();
    let ghost hs = strings_view(humans@);
    for i in 0..n
        invariant
            n == report.files@.len(),
            n == humans@.len(),
            hs == strings_view(humans@),
            strings_view(lines@) == pull_file_lines(report.files@.take(i as int), hs),
    {
        let f = &report.files[i];
        let mut line = String::from_str(pull_status_label(&f.status));
        line.append(" ");
        line.append(f.remote_path.as_str());
        line.append(" -> ");
        line.append(f.local_path.as_str());
        line.append(" (");
        push_size_with_bytes(&mut line, f.size as u128, humans[i].as_str());
        line.append(")");
        push_line(&mut lines, line);
        assert(report.files@.take(i + 1).drop_last() =~= report.files@.take(i as int));
        assert(report.files@.take(i + 1).last() == report.files@[i as int]);
    }
    assert(report.files@.take(n as int) =~= report.files@);
    let mut line = String::new();
    push_decimal(&mut line, report.downloaded as u64);
    line.append(" downloaded, ");
    push_decimal(&mut line, report.skipped as u64);
    line.append(" skipped, ");
    push_size_with_bytes(&mut line, pull_summary_bytes(report), human_total);
    if report.dry_run {
        line.append(" would download");
    }
    push_line(&mut lines, line);
    lines
}

/// What `tp7 push` prints; `humans` are the human-readable labels of the files' sizes,
/// `human_total` that of `push_summary_bytes`.
pub fn push_lines(report: &PushReport, humans: &Vec<String>, human_total: &str) -> (res: Vec<String>)
    requires
        humans@.len() == report.files@.len(),
    ensures
        strings_view(res@) == spec_push_lines(*report, strings_view(humans@), human_total@),
{
    let mut lines: Vec<String> = Vec::new();
    let n = report.files.len();
    let ghost hs = strings_view(humans@);
    for i in 0..n
        invariant
            n == report.files@.len(),
            n == humans@.len(),
            hs == strings_view(humans@),
            strings_view(lines@) == push_file_lines(report.files@.take(i as int), hs),
    {
        let f = &report.files[i];
        let mut line = String::from_str(push_status_label(&f.status));
        line.append(" ");
        line.append(f.local_path.as_str());
        line.append(" -> ");
        line.append(f.remote_path.as_str());
        line.append(" (");
        push_size_with_bytes(&mut line, f.size as u128, humans[i].as_str());
        line.append(")");
        push_line(&mut lines, line);
        assert(report.files@.take(i + 1).drop_last() =~= report.files@.take(i as int));
        assert(report.files@.take(i + 1).last() == report.files@[i as int]);
    }
    assert(report.files@.take(n as int) =~= report.files@);
    let mut line = String::new();
    push_decimal(&mut line, report.uploaded as u64);
    line.append(" uploaded, ");
    push_size_with_bytes(&mut line, push_summary_bytes(report), human_total);
    if report.dry_run {
        line.append(" would upload");
    }
    push_line(&mut lines, line);
    lines
}

// ---------------------------------------------------------------------------
// tp7 mkdir, tp7 rename and tp7 rm
// ---------------------------------------------------------------------------

/// Each text with a prefix.
pub open spec fn prefixed(prefix: Seq<char>, ts: Seq<Seq<char>>) -> Seq<Seq<char>> {
    ts.map_values(|t: Seq<char>| prefix + t)
}

/// What `tp7 mkdir` prints: each created folder, or that the folder already existed.
pub open spec fn spec_mkdir_lines(r: MkdirReport) -> Seq<Seq<char>> {
    if r.created@.len() == 0 {
        seq!["exists "@ + r.path@]
    } else {
        prefixed("created "@, strings_view(r.created@))
    }
}

/// What `tp7 mkdir` prints.
pub fn mkdir_lines(report: &MkdirReport) -> (res: Vec<String>)
    ensures
        strings_view(res@) == spec_mkdir_lines(*report),
{
    let mut lines: Vec<String> = Vec::new();
    let n = report.created.len();
    if n == 0 {
        let mut line = String::from_str("exists ");
        line.append(report.path.as_str());
        push_line(&mut lines, line);
        assert(strings_view(lines@) =~= spec_mkdir_lines(*report));
        return lines;
    }
    for i in 0..n
        invariant
            n == report.created@.len(),
            strings_view(lines@) == prefixed("created "@, strings_view(report.created@.take(i as int))),
    {
        let mut line = String::from_str("created ");
        line.append(report.created[i].as_str());
        push_line(&mut lines, line);
        assert(prefixed("created "@, strings_view(report.created@.take(i + 1))) =~= prefixed(
            "created "@,
            strings_view(report.created@.take(i as int)),
        ).push("created "@ + report.created@[i as int]@));
    }
    assert(report.created@.take(n as int) =~= report.created@);
    lines
}

/// What `tp7 rename` prints.
pub open spec fn spec_rename_lines(r: RenameReport) -> Seq<Seq<char>> {
    seq!["renamed "@ + r.old_path@ + " -> "@ + r.new_path@]
}

/// What `tp7 rename` prints.
pub fn rename_lines(report: &RenameReport) -> (res: Vec<String>)
    ensures
        strings_view(res@) == spec_rename_lines(*report),
{
    let mut lines: Vec<String> = Vec::new();
    let mut line = String::from_str("renamed ");
    line.append(report.old_path.as_str());
    line.append(" -> ");
    line.append(report.new_path.as_str());
    push_line(&mut lines, line);
    assert(strings_view(lines@) =~= spec_rename_lines(*report));
    lines
}

/// One line of `tp7 rm`.
pub open spec fn rm_line(r: RmReport, kind: ObjectKind) -> Seq<char> {
    (if r.dry_run {
        "would remove"@
    } else {
        "removed"@
    }) + " "@ + r.path@ + " ("@ + kind_label(kind) + ")"@
}

/// What `tp7 rm` prints: one line per removed object, or that nothing was removed.
pub open spec fn spec_rm_lines(r: RmReport) -> Seq<Seq<char>> {
    if r.removed@.len() == 0 {
        seq!["nothing removed"@]
    } else {
        r.removed@.map_values(|o: crate::remote::RemoteObject| rm_line(r, o.kind))
    }
}

/// What `tp7 rm` prints.
pub fn rm_lines(report: &RmReport) -> (res: Vec<String>)
    ensures
        strings_view(res@) == spec_rm_lines(*report),
{
    let mut lines: Vec<String> = Vec::new();
    let n = report.removed.len();
    if n == 0 {
        push_line(&mut lines, String::from_str("nothing removed"));
        assert(strings_view(lines@) =~= spec_rm_lines(*report));
        return lines;
    }
    for i in 0..n
        invariant
            n == report.removed@.len(),
            strings_view(lines@) == report.removed@.take(i as int).map_values(
                |o: crate::remote::RemoteObject| rm_line(*report, o.kind),
            ),
    {
        let mut line = String::from_str(if report.dry_run {
            "would remove"
        } else {
            "removed"
        });
        line.append(" ");
        line.append(report.path.as_str());
        line.append(" (");
        line.append(ls_kind_label(&report.removed[i].kind));
        line.append(")");
        push_line(&mut lines, line);
        assert(report.removed@.take(i + 1).map_values(
            |o: crate::remote::RemoteObject| rm_line(*report, o.kind),
        ) =~= report.removed@.take(i as int).map_values(
            |o: crate::remote::RemoteObject| rm_line(*report, o.kind),
        ).push(rm_line(*report, report.removed@[i as int].kind)));
    }
    assert(report.removed@.take(n as int) =~= report.removed@);
    lines
}

// ---------------------------------------------------------------------------
// tp7 doctor
// ---------------------------------------------------------------------------

/// The line of one check.
pub open spec fn check_line(c: DoctorCheck) -> Seq<char> {
    "["@ + (match c.status {
        crate::doctor::CheckStatus::Pass => "ok"@,
        crate::doctor::CheckStatus::Warn => "warn"@,
        crate::doctor::CheckStatus::Error => "error"@,
    }) + "] "@ + c.name@ + ": "@ + c.message@
}

/// The line of a possibly conflicting process.
pub open spec fn conflict_line(c: ProcessConflict) -> Seq<char> {
    "- pid "@ + spec_decimal(c.pid as nat) + ": "@ + c.name@ + " ("@ + c.reason@ + ")"@
}

/// The line of a detected device.
pub open spec fn detected_device_line(d: Tp7Device) -> Seq<char> {
    "- "@ + or_else(d.serial_number, "<no-serial>"@) + " ("@ + spec_mode_label(d.mode) + ")"@
}

/// What `tp7 doctor` prints: the checks, then the process conflicts and the detected
/// devices, each group after an empty line and a heading when it is not empty.
pub open spec fn spec_doctor_lines(r: DoctorReport) -> Seq<Seq<char>> {
    seq!["TP-7 doctor"@] + r.checks@.map_values(|c: DoctorCheck| check_line(c)) + (if r.process_conflicts@.len() == 0 {
        Seq::empty()
    } else {
        seq![Seq::empty(), "Possible process conflicts:"@] + r.process_conflicts@.map_values(
            |c: ProcessConflict| conflict_line(c),
        )
    }) + (if r.devices@.len() == 0 {
        Seq::empty()
    } else {
        seq![Seq::empty(), "Detected devices:"@] + r.devices@.map_values(
            |d: Tp7Device| detected_device_line(d),
        )
    })
}

/// The line of a possibly conflicting process.
pub fn process_conflict_line(conflict: &ProcessConflict) -> (res: String)
    ensures
        res@ == conflict_line(*conflict),
{
    let mut line = String::from_str("- pid ");
    push_decimal(&mut line, conflict.pid as u64);
    line.append(": ");
    line.append(conflict.name.as_str());
    line.append(" (");
    line.append(conflict.reason.as_str());
    line.append(")");
    line
}

/// What `tp7 doctor` prints.
pub fn doctor_lines(report: &DoctorReport) -> (res: Vec<String>)
    ensures
        strings_view(res@) == spec_doctor_lines(*report),
{
    let mut lines: Vec<String> = Vec::new();
    push_line(&mut lines, String::from_str("TP-7 doctor"));
    let ghost head = strings_view(lines@);
    let n = report.checks.len();
    for i in 0..n
        invariant
            n == report.checks@.len(),
            strings_view(lines@) == head + report.checks@.take(i as int).map_values(
                |c: DoctorCheck| check_line(c),
            ),
    {
        let c = &report.checks[i];
        let mut line = String::from_str("[");
        line.append(c.status.label());
        line.append("] ");
        line.append(c.name.as_str());
        line.append(": ");
        line.append(c.message.as_str());
        push_line(&mut lines, line);
        assert(report.checks@.take(i + 1).map_values(|c: DoctorCheck| check_line(c))
            =~= report.checks@.take(i as int).map_values(|c: DoctorCheck| check_line(c)).push(
            check_line(report.checks@[i as int]),
        ));
    }
    assert(report.checks@.take(n as int) =~= report.checks@);
    let ghost after_checks = strings_view(lines@);
    let m = report.process_conflicts.len();
    if m > 0 {
        push_line(&mut lines, String::new());
        push_line(&mut lines, String::from_str("Possible process conflicts:"));
        let ghost head2 = strings_view(lines@);
        for i in 0..m
            invariant
                m == report.process_conflicts@.len(),
                strings_view(lines@) == head2 + report.process_conflicts@.take(i as int).map_values(
                    |c: ProcessConflict| conflict_line(c),
                ),
        {
            push_line(&mut lines, process_conflict_line(&report.process_conflicts[i]));
            assert(report.process_conflicts@.take(i + 1).map_values(
                |c: ProcessConflict| conflict_line(c),
            ) =~= report.process_conflicts@.take(i as int).map_values(
                |c: ProcessConflict| conflict_line(c),
            ).push(conflict_line(report.process_conflicts@[i as int])));
        }
        assert(report.process_conflicts@.take(m as int) =~= report.process_conflicts@);
    }
    let ghost conflicts: Seq<Seq<char>> = if m == 0 {
        Seq::empty()
    } else {
        seq![Seq::empty(), "Possible process conflicts:"@] + report.process_conflicts@.map_values(
            |c: ProcessConflict| conflict_line(c),
        )
    };
    assert(strings_view(lines@) =~= after_checks + conflicts);
    let ghost after_conflicts = strings_view(lines@);
    let k = report.devices.len();
    if k > 0 {
        push_line(&mut lines, String::new());
        push_line(&mut lines, String::from_str("Detected devices:"));
        let ghost head3 = strings_view(lines@);
        for i in 0..k
            invariant
                k == report.devices@.len(),
                strings_view(lines@) == head3 + report.devices@.take(i as int).map_values(
                    |d: Tp7Device| detected_device_line(d),
                ),
        {
            let d = &report.devices[i];
            let mut line = String::from_str("- ");
            push_or(&mut line, &d.serial_number, "<no-serial>");
            line.append(" (");
            line.append(d.mode.label());
            line.append(")");
            push_line(&mut lines, line);
            assert(report.devices@.take(i + 1).map_values(|d: Tp7Device| detected_device_line(d))
                =~= report.devices@.take(i as int).map_values(
                |d: Tp7Device| detected_device_line(d),
            ).push(detected_device_line(report.devices@[i as int])));
        }
        assert(report.devices@.take(k as int) =~= report.devices@);
    }
    let ghost devices: Seq<Seq<char>> = if k == 0 {
        Seq::empty()
    } else {
        seq![Seq::empty(), "Detected devices:"@] + report.devices@.map_values(
            |d: Tp7Device| detected_device_line(d),
        )
    };
    assert(strings_view(lines@) =~= after_conflicts + devices);
    assert(strings_view(lines@) =~= spec_doctor_lines(*report));
    lines
}

/// Where an owner sits: the scope, then the interface number and name when it holds an
/// interface, else the scope's node name.
pub open spec fn owner_location(o: UsbOwner) -> Seq<char> {
    let scope = match o.scope {
        UsbOwnerScope::Device => "device"@,
        UsbOwnerScope::Interface => "interface"@,
        UsbOwnerScope::Other => "other"@,
    };
    match o.interface_number {
        Some(n) => scope + " "@ + spec_decimal(n as nat) + " ("@ + or_else(
            o.interface_name,
            o.scope_node_name@,
        ) + ")"@,
        None => scope + " "@ + o.scope_node_name@,
    }
}

/// The line of one USB owner: kind, process id (`unknown` when absent), process and
/// location.
pub open spec fn spec_usb_owner_line(o: UsbOwner) -> Seq<char> {
    "- "@ + (match o.kind {
        UsbOwnerKind::ExclusiveOwner => "exclusive-owner"@,
        UsbOwnerKind::UserClient => "user-client"@,
    }) + " pid "@ + (match o.pid {
        Some(p) => spec_decimal(p as nat),
        None => "unknown"@,
    }) + ": "@ + o.process@ + " on "@ + owner_location(o)
}

/// The line of one USB owner.
#[verifier::spinoff_prover]
#[verifier::rlimit(40)]
pub fn usb_owner_line(owner: &UsbOwner) -> (res: String)
    ensures
        res@ == spec_usb_owner_line(*owner),
{
    let mut line = String::from_str("- ");
    line.append(owner.kind.label());
    line.append(" pid ");
    match owner.pid {
        Some(p) => push_decimal(&mut line, p as u64),
        None => line.append("unknown"),
    }
    line.append(": ");
    line.append(owner.process.as_str());
    line.append(" on ");
    line.append(owner.scope.label());
    line.append(" ");
    match owner.interface_number {
        Some(n) => {
            push_decimal(&mut line, n as u64);
            line.append(" (");
            match &owner.interface_name {
                Some(name) => line.append(name.as_str()),
                None => line.append(owner.scope_node_name.as_str()),
            }
            line.append(")");
        },
        None => line.append(owner.scope_node_name.as_str()),
    }
    line
}

} // verus!
