//! Which processes hold the TP-7's USB device or interfaces, read from the I/O
//! registry listing that `ioreg` prints on macOS.
use vstd::prelude::*;

use crate::error::AppError;
use crate::device::{TP7_PRODUCT_ID, TP7_VENDOR_ID};
use crate::text::{
    chars_are, from_utf8_lossy, lines_of, spec_lines, utf8_lossy, chars_eq, chars_of, contains_chars, contains_seq, find_seq, first_occurrence_from, lowercase,
    parse_unsigned, slice_chars, spec_parse_unsigned, spec_split_once, spec_split_once_seq,
    spec_trim, split_once_chars, split_once_seq, starts_with_chars, string_of, to_lowercase,
    trim_chars, trim_end_char, trim_end_char_chars,
};

verus! {

/// How a process holds a USB node.
#[derive(Debug, Clone, Copy, PartialEq, Eq, Structural)]
pub enum UsbOwnerKind {
    /// The node's `UsbExclusiveOwner`.
    ExclusiveOwner,
    /// The creator of a user client (`IOUserClientCreator`).
    UserClient,
}

/// What an owner holds: the whole device, one interface, or something else.
#[derive(Debug, Clone, Copy, PartialEq, Eq, Structural)]
pub enum UsbOwnerScope {
    Device,
    Interface,
    Other,
}

impl UsbOwnerKind {
    /// The label of the kind, as the reports print it.
    pub fn label(&self) -> (res: &'static str)
        ensures
            res@ == (match self {
                UsbOwnerKind::ExclusiveOwner => "exclusive-owner"@,
                UsbOwnerKind::UserClient => "user-client"@,
            }),
    {
        match self {
            UsbOwnerKind::ExclusiveOwner => "exclusive-owner",
            UsbOwnerKind::UserClient => "user-client",
        }
    }
}

impl UsbOwnerScope {
    /// The label of the scope, as the reports print it.
    pub fn label(&self) -> (res: &'static str)
        ensures
            res@ == (match self {
                UsbOwnerScope::Device => "device"@,
                UsbOwnerScope::Interface => "interface"@,
                UsbOwnerScope::Other => "other"@,
            }),
    {
        match self {
            UsbOwnerScope::Device => "device",
            UsbOwnerScope::Interface => "interface",
            UsbOwnerScope::Other => "other",
        }
    }
}

/// A process that holds the TP-7's device or one of its interfaces.
#[derive(Debug, Clone)]
pub struct UsbOwner {
    pub kind: UsbOwnerKind,
    pub scope: UsbOwnerScope,
    pub scope_node_name: String,
    pub owner_node_name: String,
    pub owner_node_class: String,
    pub interface_number: Option<u8>,
    pub interface_name: Option<String>,
    pub interface_class: Option<u8>,
    pub interface_subclass: Option<u8>,
    pub interface_protocol: Option<u8>,
    pub pid: Option<u32>,
    pub process: String,
    pub raw: String,
}

// ---------------------------------------------------------------------------
// Lines of the registry listing
// ---------------------------------------------------------------------------

/// The length of the class name at the start of `s`: up to the first `,` or `>`.
pub open spec fn class_name_end(s: Seq<char>) -> int
    decreases s.len(),
{
    if s.len() == 0 || s[0] == ',' || s[0] == '>' {
        0
    } else {
        1 + class_name_end(s.drop_first())
    }
}

/// A node line `<tree>+-o NAME  <class CLASS, ...>`: the depth (half the width of the
/// tree drawing before the marker), the trimmed name and the trimmed, non-empty class.
pub open spec fn spec_node_line(line: Seq<char>) -> Option<(int, Seq<char>, Seq<char>)> {
    let mi = first_occurrence_from(line, "+-o "@, 0);
    if mi < 0 {
        None
    } else {
        let rest = line.subrange(mi + "+-o "@.len(), line.len() as int);
        let ci = first_occurrence_from(rest, "  <class "@, 0);
        if ci < 0 {
            None
        } else {
            let name = spec_trim(rest.subrange(0, ci));
            let class_rest = rest.subrange(ci + "  <class "@.len(), rest.len() as int);
            let class = spec_trim(class_rest.subrange(0, class_name_end(class_rest)));
            if class.len() == 0 {
                None
            } else {
                Some((mi / 2, name, class))
            }
        }
    }
}

proof fn lemma_class_name_end(s: Seq<char>)
    ensures
        0 <= class_name_end(s) <= s.len(),
    decreases s.len(),
{
    if s.len() > 0 && s[0] != ',' && s[0] != '>' {
        lemma_class_name_end(s.drop_first());
    }
}

/// The depth, name and class of a node line.
pub fn parse_node_line(line: &str) -> (res: Option<(usize, String, String)>)
    ensures
        match res {
            Some((depth, name, class)) => spec_node_line(line@) == Some((depth as int, name@, class@)),
            None => spec_node_line(line@).is_none(),
        },
{
    let chars = chars_of(line);
    let marker = chars_of("+-o ");
    let mi = match find_seq(chars.as_slice(), marker.as_slice()) {
        Some(i) => i,
        None => {
            return None;
        },
    };
    let rest = slice_chars(chars.as_slice(), mi + marker.len(), chars.len());
    let class_marker = chars_of("  <class ");
    let ci = match find_seq(rest.as_slice(), class_marker.as_slice()) {
        Some(i) => i,
        None => {
            return None;
        },
    };
    let name_chars = slice_chars(rest.as_slice(), 0, ci);
    let name = string_of(trim_chars(name_chars.as_slice()).as_slice());
    let class_rest = slice_chars(rest.as_slice(), ci + class_marker.len(), rest.len());
    let mut end: usize = 0;
    assert(class_rest@.subrange(0, class_rest@.len() as int) =~= class_rest@);
    while end < class_rest.len() && class_rest[end] != ',' && class_rest[end] != '>'
        invariant
            end <= class_rest@.len(),
            class_name_end(class_rest@) == end + class_name_end(
                class_rest@.subrange(end as int, class_rest@.len() as int),
            ),
        decreases class_rest@.len() - end,
    {
        assert(class_rest@.subrange(end as int, class_rest@.len() as int).drop_first()
            =~= class_rest@.subrange(end + 1, class_rest@.len() as int));
        end += 1;
    }
    assert(class_rest@.subrange(0, class_rest@.len() as int) =~= class_rest@);
    let class_chars = slice_chars(class_rest.as_slice(), 0, end);
    let class = trim_chars(class_chars.as_slice());
    if class.len() == 0 {
        return None;
    }
    Some((mi / 2, name, string_of(class.as_slice())))
}

/// `s` without the leading spaces and `|` of the tree drawing.
pub open spec fn trim_start_tree(s: Seq<char>) -> Seq<char>
    decreases s.len(),
{
    if s.len() > 0 && (s[0] == ' ' || s[0] == '|') {
        trim_start_tree(s.drop_first())
    } else {
        s
    }
}

/// A value without one pair of surrounding double quotes.
pub open spec fn spec_unquote(v: Seq<char>) -> Seq<char> {
    if v.len() >= 2 && v[0] == '"' && v.last() == '"' {
        v.subrange(1, v.len() - 1)
    } else {
        v
    }
}

/// A property line `"KEY" = VALUE` inside the tree drawing: the key and the value,
/// trimmed, without a trailing comma and unquoted.
pub open spec fn spec_property_line(line: Seq<char>) -> Option<(Seq<char>, Seq<char>)> {
    let t = spec_trim(trim_start_tree(line));
    if !(t.len() > 0 && t[0] == '"') {
        None
    } else {
        match spec_split_once_seq(t.drop_first(), "\" = "@) {
            None => None,
            Some((key, rest)) => Some(
                (key, spec_unquote(spec_trim(trim_end_char(spec_trim(rest), ',')))),
            ),
        }
    }
}

/// A value without one pair of surrounding double quotes.
pub fn unquote(value: &str) -> (res: String)
    ensures
        res@ == spec_unquote(value@),
{
    let v = chars_of(value);
    let n = v.len();
    if n >= 2 && v[0] == '"' && v[n - 1] == '"' {
        string_of(slice_chars(v.as_slice(), 1, n - 1).as_slice())
    } else {
        String::from_str(value)
    }
}

/// The key and value of a property line.
pub fn parse_property_line(line: &str) -> (res: Option<(String, String)>)
    ensures
        match res {
            Some((k, v)) => spec_property_line(line@) == Some((k@, v@)),
            None => spec_property_line(line@).is_none(),
        },
{
    let chars = chars_of(line);
    let n = chars.len();
    let mut start: usize = 0;
    assert(line@.subrange(0, n as int) =~= line@);
    while start < n && (chars[start] == ' ' || chars[start] == '|')
        invariant
            n == line@.len(),
            chars@ == line@,
            start <= n,
            trim_start_tree(line@) == trim_start_tree(line@.subrange(start as int, n as int)),
        decreases n - start,
    {
        assert(line@.subrange(start as int, n as int).drop_first() =~= line@.subrange(
            start + 1,
            n as int,
        ));
        start += 1;
    }
    let tail = slice_chars(chars.as_slice(), start, n);
    let t = trim_chars(tail.as_slice());
    if !(t.len() > 0 && t[0] == '"') {
        return None;
    }
    let after_quote = slice_chars(t.as_slice(), 1, t.len());
    assert(after_quote@ =~= t@.drop_first());
    let separator = chars_of("\" = ");
    match split_once_seq(after_quote.as_slice(), separator.as_slice()) {
        None => None,
        Some((key, rest)) => {
            let a = trim_chars(rest.as_slice());
            let b = trim_end_char_chars(a.as_slice(), ',');
            let c = trim_chars(b.as_slice());
            let value = unquote(string_of(c.as_slice()).as_str());
            Some((string_of(key.as_slice()), value))
        },
    }
}

/// `str::parse::<u8>`.
pub open spec fn spec_parse_u8(v: Seq<char>) -> Option<u8> {
    match spec_parse_unsigned(v, 255) {
        Some(n) => Some(n as u8),
        None => None,
    }
}

/// `str::parse::<u16>`.
pub open spec fn spec_parse_u16(v: Seq<char>) -> Option<u16> {
    match spec_parse_unsigned(v, 65535) {
        Some(n) => Some(n as u16),
        None => None,
    }
}

/// Parses a decimal `u8`.
pub fn parse_u8(value: &str) -> (res: Option<u8>)
    ensures
        res == spec_parse_u8(value@),
{
    let c = chars_of(value);
    match parse_unsigned(c.as_slice(), 255) {
        Some(n) => Some(n as u8),
        None => None,
    }
}

/// Parses a decimal `u16`.
pub fn parse_u16(value: &str) -> (res: Option<u16>)
    ensures
        res == spec_parse_u16(value@),
{
    let c = chars_of(value);
    match parse_unsigned(c.as_slice(), 65535) {
        Some(n) => Some(n as u16),
        None => None,
    }
}

/// An owner description `pid N, PROCESS`: the pid and the trimmed process name; the
/// whole text and no pid when it has another form.
pub open spec fn spec_parse_owner(raw: Seq<char>) -> (Option<u32>, Seq<char>) {
    if !"pid "@.is_prefix_of(raw) {
        (None, raw)
    } else {
        let rest = raw.subrange("pid "@.len() as int, raw.len() as int);
        match spec_split_once(rest, ',') {
            None => (None, raw),
            Some((pid, process)) => match spec_parse_unsigned(spec_trim(pid), u32::MAX as int) {
                Some(p) => (Some(p as u32), spec_trim(process)),
                None => (None, raw),
            },
        }
    }
}

/// The pid and process name of an owner description.
pub fn parse_owner(raw: &str) -> (res: (Option<u32>, String))
    ensures
        (res.0, res.1@) == spec_parse_owner(raw@),
{
    let chars = chars_of(raw);
    let prefix = chars_of("pid ");
    if !starts_with_chars(chars.as_slice(), prefix.as_slice()) {
        return (None, String::from_str(raw));
    }
    let rest = slice_chars(chars.as_slice(), prefix.len(), chars.len());
    match split_once_chars(rest.as_slice(), ',') {
        None => (None, String::from_str(raw)),
        Some((pid, process)) => {
            let pid_text = trim_chars(pid.as_slice());
            match parse_unsigned(pid_text.as_slice(), 0xffff_ffffu64) {
                Some(p) => (Some(p as u32), string_of(trim_chars(process.as_slice()).as_slice())),
                None => (None, String::from_str(raw)),
            }
        },
    }
}

/// The process names, in lower case, of software known to take the TP-7 over.
pub open spec fn is_conflicting_process(lower: Seq<char>) -> bool {
    contains_seq(lower, "field kit"@) || contains_seq(lower, "fieldkit"@) || contains_seq(
        lower,
        "dia"@,
    ) || contains_seq(lower, "android file transfer"@) || contains_seq(lower, "openmtp"@)
        || contains_seq(lower, "ptpcamerad"@)
}

/// Whether an owner is software known to take the TP-7 over (by its process name,
/// compared in lower case).
pub fn is_conflicting_owner(owner: &UsbOwner) -> (res: bool)
    ensures
        res == is_conflicting_process(lowercase(owner.process@)),
{
    let process = to_lowercase(owner.process.as_str());
    let p = chars_of(process.as_str());
    let p = p.as_slice();
    contains_chars(p, chars_of("field kit").as_slice()) || contains_chars(
        p,
        chars_of("fieldkit").as_slice(),
    ) || contains_chars(p, chars_of("dia").as_slice()) || contains_chars(
        p,
        chars_of("android file transfer").as_slice(),
    ) || contains_chars(p, chars_of("openmtp").as_slice()) || contains_chars(
        p,
        chars_of("ptpcamerad").as_slice(),
    )
}

// ---------------------------------------------------------------------------
// The registry tree
// ---------------------------------------------------------------------------

/// An owner recorded on a registry node.
#[derive(Debug, Clone)]
pub struct ParsedOwner {
    pub kind: UsbOwnerKind,
    pub raw: String,
}

/// A node of the registry listing with the properties the owner report reads; `parent`
/// is the index of the enclosing node.
#[derive(Debug)]
pub struct IoregEntry {
    pub node_name: String,
    pub node_class: String,
    pub parent: Option<usize>,
    pub interface_number: Option<u8>,
    pub interface_name: Option<String>,
    pub interface_class: Option<u8>,
    pub interface_subclass: Option<u8>,
    pub interface_protocol: Option<u8>,
    pub id_vendor: Option<u16>,
    pub id_product: Option<u16>,
    pub owners: Vec<ParsedOwner>,
}

/// The abstract form of a registry node.
pub struct EntryView {
    pub node_name: Seq<char>,
    pub node_class: Seq<char>,
    pub parent: Option<usize>,
    pub interface_number: Option<u8>,
    pub interface_name: Option<Seq<char>>,
    pub interface_class: Option<u8>,
    pub interface_subclass: Option<u8>,
    pub interface_protocol: Option<u8>,
    pub id_vendor: Option<u16>,
    pub id_product: Option<u16>,
    pub owners: Seq<(UsbOwnerKind, Seq<char>)>,
}

/// The view of an optional string.
pub open spec fn opt_seq(o: Option<String>) -> Option<Seq<char>> {
    match o {
        Some(s) => Some(s@),
        None => None,
    }
}

/// The abstract form of a registry node.
pub open spec fn entry_view(e: IoregEntry) -> EntryView {
    EntryView {
        node_name: e.node_name@,
        node_class: e.node_class@,
        parent: e.parent,
        interface_number: e.interface_number,
        interface_name: opt_seq(e.interface_name),
        interface_class: e.interface_class,
        interface_subclass: e.interface_subclass,
        interface_protocol: e.interface_protocol,
        id_vendor: e.id_vendor,
        id_product: e.id_product,
        owners: e.owners@.map_values(|o: ParsedOwner| (o.kind, o.raw@)),
    }
}

/// The abstract form of a list of registry nodes.
pub open spec fn entries_view(es: Seq<IoregEntry>) -> Seq<EntryView> {
    es.map_values(|e: IoregEntry| entry_view(e))
}

/// Whether a node's parent, if it has one, has an index below `i`.
pub open spec fn parent_before(e: EntryView, i: int) -> bool {
    match e.parent {
        Some(p) => p < i,
        None => true,
    }
}

/// Every node's parent comes before it: the listing is a forest.
pub open spec fn entries_wf(es: Seq<EntryView>) -> bool {
    forall|i: int| 0 <= i < es.len() ==> parent_before(#[trigger] es[i], i)
}

/// A new node without properties.
pub open spec fn new_entry(name: Seq<char>, class: Seq<char>, parent: Option<usize>) -> EntryView {
    EntryView {
        node_name: name,
        node_class: class,
        parent,
        interface_number: None,
        interface_name: None,
        interface_class: None,
        interface_subclass: None,
        interface_protocol: None,
        id_vendor: None,
        id_product: None,
        owners: Seq::empty(),
    }
}

/// A node after one of its property lines: owners are added, the interface and id
/// properties are set, other keys are ignored.
pub open spec fn spec_apply_property(e: EntryView, key: Seq<char>, value: Seq<char>) -> EntryView {
    if key == "IOUserClientCreator"@ {
        EntryView { owners: e.owners.push((UsbOwnerKind::UserClient, value)), ..e }
    } else if key == "UsbExclusiveOwner"@ {
        EntryView { owners: e.owners.push((UsbOwnerKind::ExclusiveOwner, value)), ..e }
    } else if key == "bInterfaceNumber"@ {
        EntryView { interface_number: spec_parse_u8(value), ..e }
    } else if key == "bInterfaceClass"@ {
        EntryView { interface_class: spec_parse_u8(value), ..e }
    } else if key == "bInterfaceSubClass"@ {
        EntryView { interface_subclass: spec_parse_u8(value), ..e }
    } else if key == "bInterfaceProtocol"@ {
        EntryView { interface_protocol: spec_parse_u8(value), ..e }
    } else if key == "kUSBString"@ {
        EntryView { interface_name: Some(value), ..e }
    } else if key == "idVendor"@ {
        EntryView { id_vendor: spec_parse_u16(value), ..e }
    } else if key == "idProduct"@ {
        EntryView { id_product: spec_parse_u16(value), ..e }
    } else {
        e
    }
}

/// The nodes and the stack of open nodes after one more line: a node line opens a node
/// under the open node one level up; a property line applies to the innermost open
/// node; other lines change nothing.
pub open spec fn spec_ioreg_step(entries: Seq<EntryView>, stack: Seq<usize>, line: Seq<char>) -> (Seq<EntryView>, Seq<usize>) {
    match spec_node_line(line) {
        Some((depth, name, class)) => {
            let st = if depth < stack.len() {
                stack.take(depth)
            } else {
                stack
            };
            let parent = if depth >= 1 && depth - 1 < st.len() {
                Some(st[depth - 1])
            } else {
                None
            };
            (entries.push(new_entry(name, class, parent)), st.push(entries.len() as usize))
        },
        None => if stack.len() == 0 {
            (entries, stack)
        } else {
            match spec_property_line(line) {
                None => (entries, stack),
                Some((key, value)) => {
                    let current = stack.last() as int;
                    (entries.update(current, spec_apply_property(entries[current], key, value)), stack)
                },
            }
        },
    }
}

/// The nodes and open-node stack after the given lines.
pub open spec fn spec_ioreg_lines(lines: Seq<Seq<char>>) -> (Seq<EntryView>, Seq<usize>)
    decreases lines.len(),
{
    if lines.len() == 0 {
        (Seq::empty(), Seq::empty())
    } else {
        let (entries, stack) = spec_ioreg_lines(lines.drop_last());
        spec_ioreg_step(entries, stack, lines.last())
    }
}

/// The nodes of a registry listing.
pub open spec fn spec_ioreg_entries(output: Seq<char>) -> Seq<EntryView> {
    spec_ioreg_lines(spec_lines(output)).0
}

/// Applies one property line to a node.
fn apply_property(entry: &mut IoregEntry, key: &str, value: String)
    ensures
        entry_view(*final(entry)) == spec_apply_property(entry_view(*old(entry)), key@, value@),
{
    let k = chars_of(key);
    let k = k.as_slice();
    let ghost before = entry_view(*entry);
    if chars_are(k, "IOUserClientCreator") {
        entry.owners.push(ParsedOwner { kind: UsbOwnerKind::UserClient, raw: value });
        assert(entry_view(*entry).owners =~= before.owners.push((UsbOwnerKind::UserClient, value@)));
    } else if chars_are(k, "UsbExclusiveOwner") {
        entry.owners.push(ParsedOwner { kind: UsbOwnerKind::ExclusiveOwner, raw: value });
        assert(entry_view(*entry).owners =~= before.owners.push((UsbOwnerKind::ExclusiveOwner, value@)));
    } else if chars_are(k, "bInterfaceNumber") {
        entry.interface_number = parse_u8(value.as_str());
    } else if chars_are(k, "bInterfaceClass") {
        entry.interface_class = parse_u8(value.as_str());
    } else if chars_are(k, "bInterfaceSubClass") {
        entry.interface_subclass = parse_u8(value.as_str());
    } else if chars_are(k, "bInterfaceProtocol") {
        entry.interface_protocol = parse_u8(value.as_str());
    } else if chars_are(k, "kUSBString") {
        entry.interface_name = Some(value);
    } else if chars_are(k, "idVendor") {
        entry.id_vendor = parse_u16(value.as_str());
    } else if chars_are(k, "idProduct") {
        entry.id_product = parse_u16(value.as_str());
    }
}

/// Reads the nodes of a registry listing.
pub fn parse_ioreg_entries(output: &str) -> (res: Vec<IoregEntry>)
    ensures
        entries_view(res@) == spec_ioreg_entries(output@),
        entries_wf(entries_view(res@)),
{
    let chars = chars_of(output);
    let lines = lines_of(chars.as_slice());
    let ghost ls = spec_lines(output@);
    let n = lines.len();
    let mut entries: Vec<IoregEntry> = Vec::new();
    let mut stack: Vec<usize> = Vec::new();
    assert(ls.take(0) =~= Seq::<Seq<char>>::empty());
    for i in 0..n
        invariant
            n == ls.len(),
            n == lines@.len(),
            ls == spec_lines(output@),
            forall|j: int| 0 <= j < n ==> #[trigger] lines@[j]@ == ls[j],
            (entries_view(entries@), stack@) == spec_ioreg_lines(ls.take(i as int)),
            entries_wf(entries_view(entries@)),
            forall|j: int| 0 <= j < stack@.len() ==> #[trigger] stack@[j] < entries@.len(),
    {
        assert(ls.take(i + 1).drop_last() =~= ls.take(i as int));
        assert(ls.take(i + 1).last() == ls[i as int]);
        let ghost old_entries = entries_view(entries@);
        let ghost old_stack = stack@;
        let line = string_of(lines[i].as_slice());
        assert(line@ == ls[i as int]);
        match parse_node_line(line.as_str()) {
            Some((depth, name, class)) => {
                stack.truncate(depth);
                let parent = if depth >= 1 && depth - 1 < stack.len() {
                    Some(stack[depth - 1])
                } else {
                    None
                };
                let index = entries.len();
                entries.push(
                    IoregEntry {
                        node_name: name,
                        node_class: class,
                        parent,
                        interface_number: None,
                        interface_name: None,
                        interface_class: None,
                        interface_subclass: None,
                        interface_protocol: None,
                        id_vendor: None,
                        id_product: None,
                        owners: Vec::new(),
                    },
                );
                stack.push(index);
                proof {
                    let ev = entries_view(entries@);
                    assert(ev =~= old_entries.push(entry_view(entries@.last())));
                    assert(entry_view(entries@.last()).owners =~= Seq::<(UsbOwnerKind, Seq<char>)>::empty());
                    assert(entry_view(entries@.last()) == new_entry(name@, class@, parent));
                    assert forall|j: int| 0 <= j < ev.len() implies parent_before(#[trigger] ev[j], j) by {
                        if j < old_entries.len() {
                            assert(ev[j] == old_entries[j]);
                        }
                    }
                }
            },
            None => {
                if stack.len() > 0 {
                    let current = stack[stack.len() - 1];
                    match parse_property_line(line.as_str()) {
                        Some((key, value)) => {
                            apply_property(&mut entries[current], key.as_str(), value);
                            proof {
                                let ev = entries_view(entries@);
                                assert(ev =~= old_entries.update(
                                    current as int,
                                    spec_apply_property(old_entries[current as int], key@, value@),
                                ));
                                assert forall|j: int| 0 <= j < ev.len() implies parent_before(#[trigger] ev[j], j) by {
                                    assert(old_entries[j].parent == ev[j].parent);
                                }
                            }
                        },
                        None => {},
                    }
                }
            },
        }
    }
    assert(ls.take(n as int) =~= ls);
    entries
}

/// The class of USB device nodes.
pub open spec fn device_class() -> Seq<char> {
    "IOUSBHostDevice"@
}

/// The class of USB interface nodes.
pub open spec fn interface_class() -> Seq<char> {
    "IOUSBHostInterface"@
}

/// Whether a node is the TP-7's USB device.
pub open spec fn is_tp7_entry(e: EntryView) -> bool {
    e.node_class == device_class() && e.id_vendor == Some(TP7_VENDOR_ID) && e.id_product == Some(
        TP7_PRODUCT_ID,
    )
}

/// Whether a node is the TP-7's USB device.
pub fn is_tp7_device_entry(entry: &IoregEntry) -> (res: bool)
    ensures
        res == is_tp7_entry(entry_view(*entry)),
{
    let class = chars_of(entry.node_class.as_str());
    chars_are(class.as_slice(), "IOUSBHostDevice") && entry.id_vendor == Some(TP7_VENDOR_ID)
        && entry.id_product == Some(TP7_PRODUCT_ID)
}

/// Whether the nearest USB device node at or above `index` is the TP-7.
pub open spec fn spec_belongs_to_tp7(es: Seq<EntryView>, index: int) -> bool
    decreases index,
{
    if !(0 <= index < es.len()) {
        false
    } else if es[index].node_class == device_class() {
        is_tp7_entry(es[index])
    } else {
        match es[index].parent {
            Some(p) => if p < index {
                spec_belongs_to_tp7(es, p as int)
            } else {
                false
            },
            None => false,
        }
    }
}

/// Whether a node lies under (or is) the TP-7's device node.
pub fn owner_belongs_to_tp7_device(entries: &[IoregEntry], index: usize) -> (res: bool)
    requires
        entries_wf(entries_view(entries@)),
        index < entries@.len(),
    ensures
        res == spec_belongs_to_tp7(entries_view(entries@), index as int),
{
    let ghost es = entries_view(entries@);
    let mut current = index;
    loop
        invariant
            es == entries_view(entries@),
            entries_wf(es),
            current < entries@.len(),
            spec_belongs_to_tp7(es, index as int) == spec_belongs_to_tp7(es, current as int),
        decreases current,
    {
        let entry = &entries[current];
        assert(es[current as int] == entry_view(*entry));
        let class = chars_of(entry.node_class.as_str());
        if chars_are(class.as_slice(), "IOUSBHostDevice") {
            return is_tp7_device_entry(entry);
        }
        match entry.parent {
            Some(p) => {
                current = p;
            },
            None => {
                return false;
            },
        }
    }
}

/// The index of the nearest interface or device node at or above `index`, `orig` when
/// there is none.
pub open spec fn spec_nearest_scope(es: Seq<EntryView>, index: int, orig: int) -> int
    decreases index,
{
    if !(0 <= index < es.len()) {
        orig
    } else if es[index].node_class == interface_class() || es[index].node_class == device_class() {
        index
    } else {
        match es[index].parent {
            Some(p) => if p < index {
                spec_nearest_scope(es, p as int, orig)
            } else {
                orig
            },
            None => orig,
        }
    }
}

/// The nearest interface or device node at or above `index` (`index` itself when there
/// is none).
pub fn nearest_scope_entry(entries: &[IoregEntry], index: usize) -> (res: usize)
    requires
        entries_wf(entries_view(entries@)),
        index < entries@.len(),
    ensures
        res as int == spec_nearest_scope(entries_view(entries@), index as int, index as int),
        res < entries@.len(),
{
    let ghost es = entries_view(entries@);
    let mut current = index;
    loop
        invariant
            es == entries_view(entries@),
            entries_wf(es),
            current < entries@.len(),
            index < entries@.len(),
            spec_nearest_scope(es, index as int, index as int) == spec_nearest_scope(
                es,
                current as int,
                index as int,
            ),
        decreases current,
    {
        let entry = &entries[current];
        assert(es[current as int] == entry_view(*entry));
        let class = chars_of(entry.node_class.as_str());
        if chars_are(class.as_slice(), "IOUSBHostInterface") || chars_are(
            class.as_slice(),
            "IOUSBHostDevice",
        ) {
            return current;
        }
        match entry.parent {
            Some(p) => {
                current = p;
            },
            None => {
                return index;
            },
        }
    }
}

/// The scope that a node's class stands for.
pub open spec fn spec_scope(class: Seq<char>) -> UsbOwnerScope {
    if class == device_class() {
        UsbOwnerScope::Device
    } else if class == interface_class() {
        UsbOwnerScope::Interface
    } else {
        UsbOwnerScope::Other
    }
}

/// The scope that a node stands for.
pub fn scope_for_entry(entry: &IoregEntry) -> (res: UsbOwnerScope)
    ensures
        res == spec_scope(entry.node_class@),
{
    let class = chars_of(entry.node_class.as_str());
    if chars_are(class.as_slice(), "IOUSBHostDevice") {
        UsbOwnerScope::Device
    } else if chars_are(class.as_slice(), "IOUSBHostInterface") {
        UsbOwnerScope::Interface
    } else {
        UsbOwnerScope::Other
    }
}

// ---------------------------------------------------------------------------
// The owner report
// ---------------------------------------------------------------------------

/// Whether the listing holds the TP-7's device node.
pub open spec fn has_tp7_device(es: Seq<EntryView>) -> bool {
    exists|i: int| 0 <= i < es.len() && #[trigger] is_tp7_entry(es[i])
}

/// Whether the owners of node `i` are reported: all are when the TP-7 is not in the
/// listing, otherwise only those under the TP-7's device node.
pub open spec fn entry_kept(es: Seq<EntryView>, i: int) -> bool {
    !has_tp7_device(es) || spec_belongs_to_tp7(es, i)
}

/// The (node, owner) positions reported for the first `n` nodes, in order.
pub open spec fn owner_slots(es: Seq<EntryView>, n: int) -> Seq<(int, int)>
    decreases n,
{
    if n <= 0 {
        Seq::empty()
    } else {
        owner_slots(es, n - 1) + if entry_kept(es, n - 1) {
            Seq::new(es[n - 1].owners.len(), |k: int| (n - 1, k))
        } else {
            Seq::empty()
        }
    }
}

/// Whether `o` reports owner `k` of node `i`: its kind and raw text, the node, the
/// nearest interface or device node as its scope with that node's interface
/// properties, and the pid and process read from the raw text.
pub open spec fn owner_matches(o: UsbOwner, es: Seq<EntryView>, i: int, k: int) -> bool {
    let e = es[i];
    let scope = es[spec_nearest_scope(es, i, i)];
    let raw = e.owners[k].1;
    let parsed = spec_parse_owner(raw);
    &&& o.kind == e.owners[k].0
    &&& o.scope == spec_scope(scope.node_class)
    &&& o.scope_node_name@ == scope.node_name
    &&& o.owner_node_name@ == e.node_name
    &&& o.owner_node_class@ == e.node_class
    &&& o.interface_number == scope.interface_number
    &&& opt_seq(o.interface_name) == scope.interface_name
    &&& o.interface_class == scope.interface_class
    &&& o.interface_subclass == scope.interface_subclass
    &&& o.interface_protocol == scope.interface_protocol
    &&& o.pid == parsed.0
    &&& o.process@ == parsed.1
    &&& o.raw@ == raw
}

/// Whether `owners` is the owner report for the nodes `es`.
pub open spec fn is_owner_report(owners: Seq<UsbOwner>, es: Seq<EntryView>) -> bool {
    let slots = owner_slots(es, es.len() as int);
    owners.len() == slots.len() && forall|j: int|
        0 <= j < owners.len() ==> owner_matches(#[trigger] owners[j], es, slots[j].0, slots[j].1)
}

/// A copy of an optional string.
fn copy_opt(o: &Option<String>) -> (res: Option<String>)
    ensures
        res == *o,
{
    match o {
        Some(s) => Some(s.clone()),
        None => None,
    }
}

/// The owners that a registry listing records for the TP-7.
pub fn parse_ioreg_usb_owners(output: &str) -> (res: Vec<UsbOwner>)
    ensures
        is_owner_report(res@, spec_ioreg_entries(output@)),
{
    let entries = parse_ioreg_entries(output);
    let ghost es = entries_view(entries@);
    let n = entries.len();
    let mut has_tp7 = false;
    for i in 0..n
        invariant
            n == entries@.len(),
            es == entries_view(entries@),
            has_tp7 == exists|j: int| 0 <= j < i && #[trigger] is_tp7_entry(es[j]),
    {
        assert(es[i as int] == entry_view(entries@[i as int]));
        if is_tp7_device_entry(&entries[i]) {
            has_tp7 = true;
        }
    }
    assert(has_tp7 == has_tp7_device(es));
    let mut owners: Vec<UsbOwner> = Vec::new();
    for i in 0..n
        invariant
            n == entries@.len(),
            es == entries_view(entries@),
            entries_wf(es),
            has_tp7 == has_tp7_device(es),
            owners@.len() == owner_slots(es, i as int).len(),
            forall|j: int|
                0 <= j < owners@.len() ==> owner_matches(
                    #[trigger] owners@[j],
                    es,
                    owner_slots(es, i as int)[j].0,
                    owner_slots(es, i as int)[j].1,
                ),
    {
        let ghost base = owners@.len();
        let ghost before = owner_slots(es, i as int);
        let keep = !has_tp7 || owner_belongs_to_tp7_device(entries.as_slice(), i);
        assert(keep == entry_kept(es, i as int));
        if keep {
            let entry = &entries[i];
            assert(es[i as int] == entry_view(*entry));
            let scope_index = nearest_scope_entry(entries.as_slice(), i);
            let scope_entry = &entries[scope_index];
            assert(es[scope_index as int] == entry_view(*scope_entry));
            let m = entry.owners.len();
            for k in 0..m
                invariant
                    m == entry.owners@.len(),
                    es == entries_view(entries@),
                    es[i as int] == entry_view(*entry),
                    es[scope_index as int] == entry_view(*scope_entry),
                    scope_index as int == spec_nearest_scope(es, i as int, i as int),
                    base == before.len(),
                    owners@.len() == base + k,
                    forall|j: int|
                        0 <= j < base ==> owner_matches(#[trigger] owners@[j], es, before[j].0, before[j].1),
                    forall|j: int|
                        base <= j < owners@.len() ==> owner_matches(#[trigger] owners@[j], es, i as int, j - base),
            {
                let owner = &entry.owners[k];
                assert(es[i as int].owners[k as int] == (owner.kind, owner.raw@));
                let (pid, process) = parse_owner(owner.raw.as_str());
                owners.push(
                    UsbOwner {
                        kind: owner.kind,
                        scope: scope_for_entry(scope_entry),
                        scope_node_name: scope_entry.node_name.clone(),
                        owner_node_name: entry.node_name.clone(),
                        owner_node_class: entry.node_class.clone(),
                        interface_number: scope_entry.interface_number,
                        interface_name: copy_opt(&scope_entry.interface_name),
                        interface_class: scope_entry.interface_class,
                        interface_subclass: scope_entry.interface_subclass,
                        interface_protocol: scope_entry.interface_protocol,
                        pid,
                        process,
                        raw: owner.raw.clone(),
                    },
                );
            }
            proof {
                let added = Seq::new(es[i as int].owners.len(), |k: int| (i as int, k));
                assert(owner_slots(es, i + 1) == before + added);
                assert forall|j: int| 0 <= j < owners@.len() implies owner_matches(
                    #[trigger] owners@[j],
                    es,
                    owner_slots(es, i + 1)[j].0,
                    owner_slots(es, i + 1)[j].1,
                ) by {
                    if j >= base {
                        assert(owner_slots(es, i + 1)[j] == added[j - base]);
                    } else {
                        assert(owner_slots(es, i + 1)[j] == before[j]);
                    }
                }
            }
        } else {
            proof {
                assert(owner_slots(es, i + 1) =~= before);
            }
        }
    }
    owners
}

/// The owners of the TP-7 from the outcome of `ioreg`: its exit status must be a
/// success (`status` describes it), and its output is read leniently as UTF-8.
pub fn inspect_tp7_usb_owners(success: bool, status: &str, stdout: &[u8]) -> (res: Result<Vec<UsbOwner>, AppError>)
    ensures
        !success ==> (res matches Err(AppError::UsbOwnershipInspection { message }) && message@
            == "ioreg exited with "@ + status@),
        success ==> (res matches Ok(owners) && is_owner_report(
            owners@,
            spec_ioreg_entries(utf8_lossy(stdout@)),
        )),
{
    if !success {
        let mut message = String::from_str("ioreg exited with ");
        message.append(status);
        return Err(AppError::UsbOwnershipInspection { message });
    }
    let text = from_utf8_lossy(stdout);
    Ok(parse_ioreg_usb_owners(text.as_str()))
}

} // verus!
