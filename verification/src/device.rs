//! Which device is the receiver: discovery and verification.

use vstd::prelude::*;
use vstd::utf8::encode_utf8;

use crate::error::{io_error, Error, ErrorView, IoError, IoErrorView};
use crate::path::{
    components, file_name, is_name, join, path_components, path_file_name, path_join,
    same_components,
};
use crate::text::{
    decimal, has_line, hex_byte, parse_hex_byte, push_decimal, text_has_line, trimmed,
    trimmed_chars, views,
};

verus! {

pub const USB_INTERFACE_NUMBER: u8 = 5;

/// The report collection of the battery interface, as its report descriptor has it.
pub const EXPECTED_REPORT_COLLECTION: [u8; 27] = [
    0x06, 0x04, 0xff, 0x09, 0x01, 0xa1, 0x01, 0x15, 0x00, 0x26, 0xff, 0x00, 0x85, 0x02, 0x75,
    0x08, 0x95, 0x3f, 0x09, 0x02, 0x81, 0x02, 0x09, 0x03, 0x91, 0x02, 0xc0,
];

/// Whether a `uevent` file names the receiver.
pub open spec fn names_receiver(uevent: Seq<char>) -> bool {
    has_line(uevent, "HID_ID=0003:0000054C:00000EC2"@)
}

/// Whether one byte string occurs in another at an offset.
pub open spec fn occurs_at(bytes: Seq<u8>, part: Seq<u8>, offset: int) -> bool {
    &&& 0 <= offset
    &&& offset + part.len() <= bytes.len()
    &&& bytes.subrange(offset, offset + part.len()) == part
}

/// Whether one byte string occurs in another.
pub open spec fn occurs(bytes: Seq<u8>, part: Seq<u8>) -> bool {
    exists|offset: int| occurs_at(bytes, part, offset)
}

/// What the kernel tells of a HID interface: each file as it was read, or nothing
/// where it could not be read.
#[derive(Debug)]
pub struct InterfaceFiles {
    pub uevent: Option<String>,
    pub interface_number: Option<String>,
    pub report_descriptor: Option<Vec<u8>>,
}

/// The contents of [`InterfaceFiles`].
pub struct InterfaceFilesView {
    pub uevent: Option<Seq<char>>,
    pub interface_number: Option<Seq<char>>,
    pub report_descriptor: Option<Seq<u8>>,
}

impl View for InterfaceFiles {
    type V = InterfaceFilesView;

    open spec fn view(&self) -> InterfaceFilesView {
        InterfaceFilesView {
            uevent: match self.uevent {
                Some(uevent) => Some(uevent@),
                None => None,
            },
            interface_number: match self.interface_number {
                Some(number) => Some(number@),
                None => None,
            },
            report_descriptor: match self.report_descriptor {
                Some(descriptor) => Some(descriptor@),
                None => None,
            },
        }
    }
}

impl InterfaceFilesView {
    /// Whether the files are those of the battery interface of the receiver: the USB
    /// identity, the interface number and the report collection are all there and right.
    pub open spec fn is_expected(self) -> bool {
        &&& self.uevent matches Some(uevent) && names_receiver(uevent)
        &&& self.interface_number matches Some(number) && hex_byte(trimmed(number)) == Some(
            USB_INTERFACE_NUMBER,
        )
        &&& self.report_descriptor matches Some(descriptor) && occurs(
            descriptor,
            EXPECTED_REPORT_COLLECTION@,
        )
    }
}

/// Whether a `uevent` file names the receiver.
pub fn is_inzone_uevent(uevent: &str) -> (named: bool)
    ensures
        named == names_receiver(uevent@),
{
    text_has_line(uevent, "HID_ID=0003:0000054C:00000EC2")
}

fn matches_at(bytes: &[u8], part: &[u8], offset: usize) -> (found: bool)
    requires
        offset + part@.len() <= bytes@.len(),
    ensures
        found == occurs_at(bytes@, part@, offset as int),
{
    let total: usize = bytes.len();
    let ghost window = bytes@.subrange(offset as int, offset + part@.len());
    for i in 0..part.len()
        invariant
            offset + part@.len() <= total == bytes@.len(),
            window == bytes@.subrange(offset as int, offset + part@.len()),
            forall|j: int| 0 <= j < i ==> window[j] == part@[j],
    {
        assert(window[i as int] == bytes@[offset + i]);
        if bytes[offset + i] != part[i] {
            return false;
        }
    }
    assert(window =~= part@);
    true
}

fn contains_bytes(bytes: &[u8], part: &[u8]) -> (found: bool)
    ensures
        found == occurs(bytes@, part@),
{
    if part.len() > bytes.len() {
        return false;
    }
    let last: usize = bytes.len() - part.len();
    for offset in 0..last
        invariant
            last == bytes@.len() - part@.len(),
            forall|j: int| 0 <= j < offset ==> !occurs_at(bytes@, part@, j),
    {
        if matches_at(bytes, part, offset) {
            return true;
        }
    }
    matches_at(bytes, part, last)
}

/// Whether the files are those of the battery interface of the receiver.
pub fn matches_expected_interface(files: &InterfaceFiles) -> (expected: bool)
    ensures
        expected == files@.is_expected(),
{
    match (&files.uevent, &files.interface_number, &files.report_descriptor) {
        (Some(uevent), Some(number), Some(descriptor)) => {
            is_inzone_uevent(uevent.as_str()) && parse_hex_byte(
                trimmed_chars(number.as_str()).as_slice(),
            ) == Some(USB_INTERFACE_NUMBER) && contains_bytes(
                descriptor.as_slice(),
                EXPECTED_REPORT_COLLECTION.as_slice(),
            )
        },
        _ => false,
    }
}

/// The start of the name of every HID device node, `hidraw`.
pub const HIDRAW: [u8; 6] = [0x68, 0x69, 0x64, 0x72, 0x61, 0x77];

/// Whether a name is that of a HID device node: `hidraw` and a number.
pub open spec fn is_hidraw_name(name: Seq<u8>) -> bool {
    &&& name.len() > HIDRAW@.len()
    &&& name.take(HIDRAW@.len() as int) == HIDRAW@
    &&& forall|i: int| HIDRAW@.len() <= i < name.len() ==> 0x30 <= #[trigger] name[i] <= 0x39
}

/// Whether a path is that of a HID device node directly in a directory.
pub open spec fn is_hidraw_path(path: Seq<u8>, device_root: Seq<u8>) -> bool {
    exists|name: Seq<u8>|
        #![trigger is_hidraw_name(name)]
        is_hidraw_name(name) && components(path) == components(device_root).push(name)
}

fn has_hidraw_name(name: &[u8]) -> (named: bool)
    ensures
        named == is_hidraw_name(name@),
{
    let n: usize = name.len();
    if n <= 6 {
        return false;
    }
    let start = vstd::slice::slice_subrange(name, 0, 6);
    assert(start@ =~= name@.take(6));
    if !crate::text::same_bytes(start, HIDRAW.as_slice()) {
        return false;
    }
    for i in 6..n
        invariant
            n == name@.len(),
            forall|j: int| 6 <= j < i ==> 0x30 <= #[trigger] name@[j] <= 0x39,
    {
        if name[i] < 0x30 || name[i] > 0x39 {
            return false;
        }
    }
    true
}

/// A device name names an entry of a directory.
proof fn lemma_hidraw_name(name: Seq<u8>)
    requires
        is_hidraw_name(name),
    ensures
        is_name(name),
{
    assert forall|i: int| 0 <= i < name.len() implies name[i] != crate::path::SEPARATOR by {
        if i < 6 {
            assert(name[i] == name.take(6)[i]);
            assert(HIDRAW@ =~= seq![0x68u8, 0x69, 0x64, 0x72, 0x61, 0x77]);
        }
    }
}

/// The device name in a path that is that of a HID device node directly in `device_root`.
pub fn validate_device_path_in(path: &[u8], device_root: &[u8]) -> (result: Result<
    Vec<u8>,
    Error,
>)
    ensures
        match result {
            Ok(name) => {
                &&& is_hidraw_name(name@)
                &&& components(path@) == components(device_root@).push(name@)
            },
            Err(error) => {
                &&& !is_hidraw_path(path@, device_root@)
                &&& error@ == ErrorView::DeviceMismatch(path@)
            },
        },
{
    proof {
        assert forall|name: Seq<u8>|
            #![trigger is_hidraw_name(name)]
            is_hidraw_name(name) && components(path@) == components(device_root@).push(
                name,
            ) implies file_name(path@) == Some(name) by {
            lemma_hidraw_name(name);
            assert(components(device_root@).push(name).last() == name);
        }
    }
    match path_file_name(path) {
        Some(name) => {
            if has_hidraw_name(name.as_slice()) {
                proof {
                    lemma_hidraw_name(name@);
                    crate::path::law_join_appends_the_name(device_root@, name@);
                }
                let expected = path_join(device_root, name.as_slice());
                if same_components(
                    &path_components(path),
                    &path_components(expected.as_slice()),
                ) {
                    return Ok(name);
                }
            }
        },
        None => {},
    }
    Err(Error::DeviceMismatch(vstd::slice::slice_to_vec(path)))
}

/// Where device nodes stand, `/dev`.
pub const DEVICE_ROOT: [u8; 4] = [0x2f, 0x64, 0x65, 0x76];

/// Where the kernel lists character devices by number, `/sys/dev/char`.
pub const SYS_CHAR_ROOT: [u8; 13] = [
    0x2f, 0x73, 0x79, 0x73, 0x2f, 0x64, 0x65, 0x76, 0x2f, 0x63, 0x68, 0x61, 0x72,
];

/// One entry of the list of HID devices: its path and what the kernel tells of it.
#[derive(Debug)]
pub struct HidrawEntry {
    pub path: Vec<u8>,
    pub files: InterfaceFiles,
}

/// The contents of a [`HidrawEntry`].
pub struct HidrawEntryView {
    pub path: Seq<u8>,
    pub files: InterfaceFilesView,
}

impl View for HidrawEntry {
    type V = HidrawEntryView;

    open spec fn view(&self) -> HidrawEntryView {
        HidrawEntryView { path: self.path@, files: self.files@ }
    }
}

/// The contents of an entry, or of the failure to read it.
pub open spec fn entry_view(entry: Result<HidrawEntry, IoError>) -> Result<
    HidrawEntryView,
    IoErrorView,
> {
    match entry {
        Ok(entry) => Ok(entry@),
        Err(error) => Err(error@),
    }
}

/// The contents of a list of entries.
pub open spec fn entry_views(entries: Seq<Result<HidrawEntry, IoError>>) -> Seq<
    Result<HidrawEntryView, IoErrorView>,
> {
    entries.map_values(|entry: Result<HidrawEntry, IoError>| entry_view(entry))
}

/// The path of the device node of an entry, where the entry is the battery interface
/// of the receiver.
pub open spec fn matching_device(entry: HidrawEntryView, device_root: Seq<u8>) -> Option<Seq<u8>> {
    match file_name(entry.path) {
        Some(name) => if entry.files.is_expected() {
            Some(join(device_root, name))
        } else {
            None
        },
        None => None,
    }
}

/// The same of an entry that may have been impossible to read.
pub open spec fn entry_device(
    entry: Result<HidrawEntryView, IoErrorView>,
    device_root: Seq<u8>,
) -> Option<Seq<u8>> {
    match entry {
        Ok(entry) => matching_device(entry, device_root),
        Err(_) => None,
    }
}

/// The path of the device node of an entry, where the entry is the battery interface
/// of the receiver.
pub fn matching_device_path(entry: &HidrawEntry, device_root: &[u8]) -> (path: Option<Vec<u8>>)
    ensures
        match path {
            Some(path) => matching_device(entry@, device_root@) == Some(path@),
            None => matching_device(entry@, device_root@) is None,
        },
{
    if !matches_expected_interface(&entry.files) {
        return None;
    }
    match path_file_name(entry.path.as_slice()) {
        Some(name) => Some(path_join(device_root, name.as_slice())),
        None => None,
    }
}

/// The device nodes of those entries that are the battery interface of the receiver,
/// in the order of the entries.
pub open spec fn matching_devices(
    entries: Seq<Result<HidrawEntryView, IoErrorView>>,
    device_root: Seq<u8>,
) -> Seq<Seq<u8>>
    decreases entries.len(),
{
    if entries.len() == 0 {
        seq![]
    } else {
        let before = matching_devices(entries.drop_last(), device_root);
        match entry_device(entries.last(), device_root) {
            Some(path) => before.push(path),
            None => before,
        }
    }
}

/// Whether an entry could not be read and every entry before it could.
pub open spec fn is_first_failure(
    entries: Seq<Result<HidrawEntryView, IoErrorView>>,
    index: int,
) -> bool {
    &&& 0 <= index < entries.len()
    &&& entries[index] is Err
    &&& forall|i: int| 0 <= i < index ==> #[trigger] entries[i] is Ok
}

/// What discovery makes of a list of entries: one entry that cannot be read fails it,
/// and so does a number of matching devices that is not one. Of several, all are
/// told, in order.
pub open spec fn is_discovery(
    entries: Seq<Result<HidrawEntryView, IoErrorView>>,
    device_root: Seq<u8>,
    result: Result<Seq<u8>, ErrorView>,
) -> bool {
    let devices = matching_devices(entries, device_root);
    if exists|i: int| 0 <= i < entries.len() && #[trigger] entries[i] is Err {
        exists|i: int|
            #[trigger] is_first_failure(entries, i) && result == Err::<Seq<u8>, ErrorView>(
                ErrorView::Io { operation: "inspect hidraw class"@, source: entries[i]->Err_0 },
            )
    } else if devices.len() == 0 {
        result == Err::<Seq<u8>, ErrorView>(ErrorView::DeviceNotFound)
    } else if devices.len() == 1 {
        result == Ok::<Seq<u8>, ErrorView>(devices[0])
    } else {
        result matches Err(ErrorView::AmbiguousDevices(paths)) && {
            &&& crate::sorting::is_sorted(paths)
            &&& paths.to_multiset() == devices.to_multiset()
        }
    }
}

/// The contents of a path or of an error.
pub open spec fn path_result(result: Result<Vec<u8>, Error>) -> Result<Seq<u8>, ErrorView> {
    match result {
        Ok(path) => Ok(path@),
        Err(error) => Err(error@),
    }
}

/// Finds the one device node of the receiver's battery interface among the entries.
pub fn discover_device_paths(
    entries: &Vec<Result<HidrawEntry, IoError>>,
    device_root: &[u8],
) -> (result: Result<Vec<u8>, Error>)
    ensures
        is_discovery(entry_views(entries@), device_root@, path_result(result)),
{
    let ghost all = entry_views(entries@);
    let mut devices: Vec<Vec<u8>> = Vec::new();
    assert(views(devices@) =~= matching_devices(all.take(0), device_root@));
    for i in 0..entries.len()
        invariant
            all == entry_views(entries@),
            forall|j: int| 0 <= j < i ==> #[trigger] all[j] is Ok,
            views(devices@) == matching_devices(all.take(i as int), device_root@),
    {
        proof {
            assert(all.take(i + 1).drop_last() =~= all.take(i as int));
            assert(all[i as int] == entry_view(entries@[i as int]));
        }
        match &entries[i] {
            Ok(entry) => match matching_device_path(entry, device_root) {
                Some(path) => {
                    let ghost before = devices@;
                    let ghost bytes = path@;
                    devices.push(path);
                    assert(views(devices@) =~= views(before).push(bytes));
                },
                None => {},
            },
            Err(source) => {
                assert(is_first_failure(all, i as int));
                return Err(io_error("inspect hidraw class", source.clone()));
            },
        }
    }
    assert(all.take(entries@.len() as int) =~= all);
    assert(views(devices@).len() == devices@.len());
    if devices.len() == 0 {
        Err(Error::DeviceNotFound)
    } else if devices.len() == 1 {
        assert(views(devices@)[0] == devices@[0]@);
        Ok(devices.remove(0))
    } else {
        Err(Error::AmbiguousDevices(crate::sorting::sorted(devices)))
    }
}

/// Finds the one device node of the receiver's battery interface, given the list of
/// HID devices or the failure to read it.
pub fn discover_device_in(
    listing: Result<Vec<Result<HidrawEntry, IoError>>, IoError>,
    device_root: &[u8],
) -> (result: Result<Vec<u8>, Error>)
    ensures
        match listing {
            Ok(entries) => is_discovery(
                entry_views(entries@),
                device_root@,
                path_result(result),
            ),
            Err(source) => path_result(result) == Err::<Seq<u8>, ErrorView>(
                ErrorView::Io { operation: "read hidraw class"@, source: source@ },
            ),
        },
{
    match listing {
        Ok(entries) => discover_device_paths(&entries, device_root),
        Err(source) => Err(io_error("read hidraw class", source)),
    }
}

/// Finds the receiver's device node under `/dev`, given the list of HID devices or
/// the failure to read it.
pub fn discover_device(listing: Result<Vec<Result<HidrawEntry, IoError>>, IoError>) -> (result:
    Result<Vec<u8>, Error>)
    ensures
        match listing {
            Ok(entries) => is_discovery(
                entry_views(entries@),
                DEVICE_ROOT@,
                path_result(result),
            ),
            Err(source) => path_result(result) == Err::<Seq<u8>, ErrorView>(
                ErrorView::Io { operation: "read hidraw class"@, source: source@ },
            ),
        },
{
    discover_device_in(listing, DEVICE_ROOT.as_slice())
}

/// The major number of a device.
pub open spec fn device_major(device: u64) -> u64 {
    ((device / 0x100) % 0x1000 + 0x1000 * (device / 0x1000_0000_0000)) as u64
}

/// The minor number of a device.
pub open spec fn device_minor(device: u64) -> u64 {
    (device % 0x100 + 0x100 * ((device / 0x10_0000) % 0x100_0000)) as u64
}

/// The major number of a device: twelve bits from bit 8 on, and above them the
/// twenty bits from bit 44 on.
pub fn linux_device_major(device: u64) -> (major: u64)
    ensures
        major == device_major(device),
{
    assert(((device & 0x0000_0000_000f_ff00) >> 8) | ((device & 0xffff_f000_0000_0000) >> 32) == (
    device / 0x100) % 0x1000 + 0x1000 * (device / 0x1000_0000_0000)) by (bit_vector);
    ((device & 0x0000_0000_000f_ff00) >> 8) | ((device & 0xffff_f000_0000_0000) >> 32)
}

/// The minor number of a device: its lowest eight bits, and above them the
/// twenty-four bits from bit 20 on.
pub fn linux_device_minor(device: u64) -> (minor: u64)
    ensures
        minor == device_minor(device),
{
    assert((device & 0xff) | ((device & 0x0000_0fff_fff0_0000) >> 12) == device % 0x100 + 0x100 * ((
    device / 0x10_0000) % 0x100_0000)) by (bit_vector);
    (device & 0xff) | ((device & 0x0000_0fff_fff0_0000) >> 12)
}

/// Major and minor number together tell every device from every other.
pub proof fn law_device_numbers_are_told_apart(a: u64, b: u64)
    requires
        device_major(a) == device_major(b),
        device_minor(a) == device_minor(b),
    ensures
        a == b,
{
    assert(a == a % 0x100 + 0x100 * ((a / 0x100) % 0x1000) + 0x10_0000 * ((a / 0x10_0000)
        % 0x100_0000) + 0x1000_0000_0000 * (a / 0x1000_0000_0000)) by (bit_vector);
    assert(b == b % 0x100 + 0x100 * ((b / 0x100) % 0x1000) + 0x10_0000 * ((b / 0x10_0000)
        % 0x100_0000) + 0x1000_0000_0000 * (b / 0x1000_0000_0000)) by (bit_vector);
}

/// What the system tells of an opened file: whether it is a character device, and its
/// device number.
#[derive(Clone, Copy, Debug, PartialEq, Eq, Structural)]
pub struct DeviceMetadata {
    pub is_char_device: bool,
    pub device_number: u64,
}

/// Where the kernel tells of the character device with a number.
pub open spec fn device_sysfs_node(device_number: u64, sys_char_root: Seq<u8>) -> Seq<u8> {
    join(
        sys_char_root,
        encode_utf8(
            decimal(device_major(device_number) as nat) + ":"@ + decimal(
                device_minor(device_number) as nat,
            ),
        ),
    )
}

/// Looks at an opened device: where the kernel tells of it, if it is a character device.
pub fn inspect_opened_device(
    path: &[u8],
    sys_char_root: &[u8],
    metadata: Result<DeviceMetadata, IoError>,
) -> (result: Result<Vec<u8>, Error>)
    ensures
        match metadata {
            Ok(metadata) => if metadata.is_char_device {
                path_result(result) == Ok::<Seq<u8>, ErrorView>(
                    device_sysfs_node(metadata.device_number, sys_char_root@),
                )
            } else {
                path_result(result) == Err::<Seq<u8>, ErrorView>(ErrorView::DeviceMismatch(path@))
            },
            Err(source) => path_result(result) == Err::<Seq<u8>, ErrorView>(
                ErrorView::Io { operation: "inspect opened HID device"@, source: source@ },
            ),
        },
{
    let metadata = match metadata {
        Ok(metadata) => metadata,
        Err(source) => {
            return Err(io_error("inspect opened HID device", source));
        },
    };
    if !metadata.is_char_device {
        return Err(Error::DeviceMismatch(vstd::slice::slice_to_vec(path)));
    }
    let mut name = String::new();
    push_decimal(&mut name, linux_device_major(metadata.device_number) as u128);
    name.append(":");
    push_decimal(&mut name, linux_device_minor(metadata.device_number) as u128);
    Ok(path_join(sys_char_root, name.as_str().as_bytes()))
}

/// Accepts an opened device whose interface is the receiver's battery interface.
pub fn confirm_interface(path: &[u8], files: &InterfaceFiles) -> (result: Result<(), Error>)
    ensures
        match result {
            Ok(_) => files@.is_expected(),
            Err(error) => !files@.is_expected() && error@ == ErrorView::DeviceMismatch(path@),
        },
{
    if matches_expected_interface(files) {
        Ok(())
    } else {
        Err(Error::DeviceMismatch(vstd::slice::slice_to_vec(path)))
    }
}

/// The node of every device name in a directory is a valid device path there.
pub proof fn law_device_nodes_are_valid(name: Seq<u8>, device_root: Seq<u8>)
    requires
        is_hidraw_name(name),
    ensures
        is_hidraw_path(join(device_root, name), device_root),
{
    lemma_hidraw_name(name);
    crate::path::law_join_appends_the_name(device_root, name);
}

/// A valid device path under `/dev` goes from the root directory through `dev` to a
/// device name, and nowhere else.
pub proof fn law_valid_paths_lead_through_dev(path: Seq<u8>)
    ensures
        is_hidraw_path(path, DEVICE_ROOT@) <==> {
            &&& components(path).len() == 3
            &&& components(path)[0] == crate::path::root_dir()
            &&& components(path)[1] == seq![0x64u8, 0x65, 0x76]
            &&& is_hidraw_name(components(path)[2])
        },
{
    let dev = seq![0x64u8, 0x65, 0x76];
    lemma_dev_components();
    assert(DEVICE_ROOT@ =~= seq![0x2fu8, 0x64, 0x65, 0x76]);
    let parts = components(path);
    if is_hidraw_path(path, DEVICE_ROOT@) {
        let name = choose|name: Seq<u8>|
            #![trigger is_hidraw_name(name)]
            is_hidraw_name(name) && components(path) == components(DEVICE_ROOT@).push(name);
        assert(parts == seq![crate::path::root_dir(), dev].push(name));
    }
    if parts.len() == 3 && parts[0] == crate::path::root_dir() && parts[1] == dev
        && is_hidraw_name(parts[2]) {
        assert(parts =~= components(DEVICE_ROOT@).push(parts[2]));
    }
}

proof fn lemma_dev_components()
    ensures
        components(DEVICE_ROOT@) == seq![crate::path::root_dir(), seq![0x64u8, 0x65, 0x76]],
{
    let root = seq![0x2fu8];
    let dev = seq![0x64u8, 0x65, 0x76];
    assert(is_name(dev));
    assert(root.drop_last() =~= seq![]);
    let none: Seq<Seq<u8>> = seq![seq![], seq![]];
    let nothing: Seq<Seq<u8>> = seq![seq![]];
    assert(crate::text::split(root.drop_last(), 0x2fu8) =~= nothing);
    assert(crate::text::split(root, 0x2fu8) == nothing.push(seq![]));
    assert(nothing.push(seq![]) =~= none);
    assert(none.drop_last().drop_last() =~= seq![]);
    reveal_with_fuel(crate::path::kept_parts, 3);
    assert(components(root) =~= seq![crate::path::root_dir()]);
    crate::path::law_join_appends_the_name(root, dev);
    assert(DEVICE_ROOT@ =~= join(root, dev));
    assert(components(DEVICE_ROOT@) =~= seq![crate::path::root_dir(), dev]);
}

/// An entry that is not the battery interface adds no device.
proof fn lemma_no_devices(entries: Seq<Result<HidrawEntryView, IoErrorView>>, device_root: Seq<u8>)
    ensures
        matching_devices(entries, device_root).len() == 0 <==> forall|i: int|
            0 <= i < entries.len() ==> entry_device(#[trigger] entries[i], device_root) is None,
    decreases entries.len(),
{
    if entries.len() > 0 {
        lemma_no_devices(entries.drop_last(), device_root);
        let before = entries.drop_last();
        assert(forall|i: int| 0 <= i < before.len() ==> #[trigger] before[i] == entries[i]);
        if entry_device(entries.last(), device_root) is None && matching_devices(
            before,
            device_root,
        ).len() == 0 {
            assert forall|i: int| 0 <= i < entries.len() implies entry_device(
                #[trigger] entries[i],
                device_root,
            ) is None by {
                if i < before.len() {
                    assert(before[i] == entries[i]);
                }
            }
        }
    }
}

/// Discovery finds a device only if every entry could be read and exactly one of them
/// is the battery interface of the receiver, and then finds the device of that one.
pub proof fn law_discovery_fails_closed(
    entries: Seq<Result<HidrawEntryView, IoErrorView>>,
    device_root: Seq<u8>,
    path: Seq<u8>,
)
    requires
        is_discovery(entries, device_root, Ok(path)),
    ensures
        forall|i: int| 0 <= i < entries.len() ==> #[trigger] entries[i] is Ok,
        exists|i: int|
            0 <= i < entries.len() && entry_device(#[trigger] entries[i], device_root) == Some(path)
                && forall|j: int|
                0 <= j < entries.len() && j != i ==> entry_device(
                    #[trigger] entries[j],
                    device_root,
                ) is None,
{
    lemma_single_device(entries, device_root);
}

proof fn lemma_single_device(
    entries: Seq<Result<HidrawEntryView, IoErrorView>>,
    device_root: Seq<u8>,
)
    requires
        matching_devices(entries, device_root).len() == 1,
    ensures
        exists|i: int|
            0 <= i < entries.len() && entry_device(#[trigger] entries[i], device_root) == Some(
                matching_devices(entries, device_root)[0],
            ) && forall|j: int|
                0 <= j < entries.len() && j != i ==> entry_device(
                    #[trigger] entries[j],
                    device_root,
                ) is None,
    decreases entries.len(),
{
    let before = entries.drop_last();
    let last = entries.len() - 1;
    assert(forall|i: int| 0 <= i < before.len() ==> #[trigger] before[i] == entries[i]);
    match entry_device(entries.last(), device_root) {
        Some(device) => {
            lemma_no_devices(before, device_root);
            assert(entry_device(entries[last], device_root) == Some(
                matching_devices(entries, device_root)[0],
            ));
            assert forall|j: int| 0 <= j < entries.len() && j != last implies entry_device(
                #[trigger] entries[j],
                device_root,
            ) is None by {
                assert(before[j] == entries[j]);
            }
        },
        None => {
            lemma_single_device(before, device_root);
            let i = choose|i: int|
                0 <= i < before.len() && entry_device(#[trigger] before[i], device_root) == Some(
                    matching_devices(before, device_root)[0],
                ) && forall|j: int|
                    0 <= j < before.len() && j != i ==> entry_device(
                        #[trigger] before[j],
                        device_root,
                    ) is None;
            assert(entries[i] == before[i]);
            assert forall|j: int| 0 <= j < entries.len() && j != i implies entry_device(
                #[trigger] entries[j],
                device_root,
            ) is None by {
                if j < before.len() {
                    assert(before[j] == entries[j]);
                }
            }
        },
    }
}

} // verus!
