//! Which names, paths and interfaces are those of the receiver, written out.

use vstd::prelude::*;
use vstd::utf8::encode_utf8;

use crate::clock::Duration;
use crate::device::{
    device_major, device_minor, device_sysfs_node, entry_device, entry_views, is_discovery,
    is_hidraw_name, is_hidraw_path, matching_devices, occurs_at, path_result, HidrawEntry,
    HidrawEntryView, InterfaceFiles, InterfaceFilesView, DEVICE_ROOT, EXPECTED_REPORT_COLLECTION,
    HIDRAW, SYS_CHAR_ROOT,
};
use crate::error::{ErrorView, IoError, IoErrorView};
use crate::path::{components, file_name, is_name, join, kept_parts, root_dir, SEPARATOR};
use crate::query::{PhaseView, QueryView};
use crate::text::{
    are_digits, decimal, digits_value, hex_byte, is_whitespace, lines, same_ignoring_case, split,
    trimmed, without_plus, without_return,
};
use crate::text_laws::{
    law_decimal_is_read_back, law_leading_zeros_do_not_count, law_line_is_found,
    law_nothing_to_split, law_split_after_a_separator, law_trimming_keeps_the_text,
};

verus! {

/// The name `hidraw` and any digits, the first of them zero or not, are the name of a
/// device; `hidraw` and anything else is none.
pub proof fn law_numbers_make_device_names(digits: Seq<u8>)
    ensures
        is_hidraw_name(seq![0x68u8, 0x69, 0x64, 0x72, 0x61, 0x77] + digits) <==> digits.len() > 0
            && forall|i: int| 0 <= i < digits.len() ==> 0x30 <= #[trigger] digits[i] <= 0x39,
{
    let hidraw = seq![0x68u8, 0x69, 0x64, 0x72, 0x61, 0x77];
    let name = hidraw + digits;
    assert(HIDRAW@ =~= hidraw);
    assert(name.take(6) =~= hidraw);
    if is_hidraw_name(name) {
        assert forall|i: int| 0 <= i < digits.len() implies 0x30 <= #[trigger] digits[i]
            <= 0x39 by {
            assert(name[i + 6] == digits[i]);
        }
    }
    if digits.len() > 0 && forall|i: int|
        0 <= i < digits.len() ==> 0x30 <= #[trigger] digits[i] <= 0x39 {
        assert forall|i: int| 6 <= i < name.len() implies 0x30 <= #[trigger] name[i] <= 0x39 by {
            assert(name[i] == digits[i - 6]);
        }
    }
}

/// The name of a device begins with `hidraw`.
pub proof fn law_device_names_begin_with_hidraw(name: Seq<u8>)
    requires
        is_hidraw_name(name),
    ensures
        name.len() >= 7,
        name[0] == 0x68,
        name[1] == 0x69,
        name[2] == 0x64,
        name[3] == 0x72,
        name[4] == 0x61,
        name[5] == 0x77,
{
    assert(HIDRAW@ =~= seq![0x68u8, 0x69, 0x64, 0x72, 0x61, 0x77]);
    assert(forall|i: int| 0 <= i < 6 ==> #[trigger] name[i] == name.take(6)[i]);
}

/// `/dev/hidraw` and any digits are the path of a device, which a query goes on to open.
pub proof fn law_numbered_devices_are_opened(
    digits: Seq<u8>,
    timeout: Duration,
    transaction: u16,
    sys_char_root: Seq<u8>,
)
    requires
        digits.len() > 0,
        forall|i: int| 0 <= i < digits.len() ==> 0x30 <= #[trigger] digits[i] <= 0x39,
    ensures
        ({
            let path = seq![0x2fu8, 0x64, 0x65, 0x76, 0x2f, 0x68, 0x69, 0x64, 0x72, 0x61, 0x77]
                + digits;
            &&& is_hidraw_path(path, seq![0x2fu8, 0x64, 0x65, 0x76])
            &&& is_hidraw_path(path, DEVICE_ROOT@)
            &&& QueryView::start(path, timeout, transaction, DEVICE_ROOT@, sys_char_root).phase
                == PhaseView::Open
        }),
{
    let hidraw = seq![0x68u8, 0x69, 0x64, 0x72, 0x61, 0x77];
    let dev = seq![0x2fu8, 0x64, 0x65, 0x76];
    let path = seq![0x2fu8, 0x64, 0x65, 0x76, 0x2f, 0x68, 0x69, 0x64, 0x72, 0x61, 0x77] + digits;
    law_numbers_make_device_names(digits);
    assert(DEVICE_ROOT@ =~= dev);
    assert(join(dev, hidraw + digits) =~= path);
    crate::device::law_device_nodes_are_valid(hidraw + digits, dev);
}

/// `/dev/hidraw` and any number in decimal are the path of a device.
pub proof fn law_every_number_is_that_of_a_device(n: nat)
    ensures
        is_hidraw_path(encode_utf8("/dev/hidraw"@ + decimal(n)), DEVICE_ROOT@),
{
    reveal_strlit("/dev/hidraw");
    law_decimal_is_read_back(n);
    let text = "/dev/hidraw"@ + decimal(n);
    let digits = Seq::new(decimal(n).len(), |i: int| decimal(n)[i] as u8);
    assert forall|i: int| 0 <= i < text.len() implies 0 <= #[trigger] text[i] as nat <= 127 by {
        if i >= 11 {
            assert(text[i] == decimal(n)[i - 11]);
        }
    }
    vstd::utf8::is_ascii_chars_encode_utf8(text);
    let start = seq![0x2fu8, 0x64, 0x65, 0x76, 0x2f, 0x68, 0x69, 0x64, 0x72, 0x61, 0x77];
    assert forall|i: int| 0 <= i < text.len() implies encode_utf8(text)[i] == (start
        + digits)[i] by {
        if i >= 11 {
            assert(text[i] == decimal(n)[i - 11]);
        }
    }
    assert(encode_utf8(text) =~= start + digits);
    law_numbered_devices_are_opened(digits, Duration { nanos: 0 }, 0, seq![]);
}

/// The part between two separators stands in the text.
proof fn lemma_part_occurs<T>(s: Seq<T>, separator: T, index: int) -> (offset: int)
    requires
        0 <= index < split(s, separator).len(),
    ensures
        0 <= offset,
        offset + split(s, separator)[index].len() <= s.len(),
        s.subrange(offset, offset + split(s, separator)[index].len()) == split(
            s,
            separator,
        )[index],
        index == split(s, separator).len() - 1 ==> offset + split(s, separator)[index].len()
            == s.len(),
    decreases s.len(),
{
    let parts = split(s, separator);
    let part = parts[index];
    if s.len() == 0 {
        assert(s.subrange(0, 0) =~= part);
        0
    } else {
        let shorter = s.drop_last();
        let before = split(shorter, separator);
        crate::text::lemma_split_not_empty(shorter, separator);
        if index < parts.len() - 1 {
            assert(part == before[index]);
            let offset = lemma_part_occurs(shorter, separator, index);
            assert(s.subrange(offset, offset + part.len()) =~= shorter.subrange(
                offset,
                offset + part.len(),
            ));
            offset
        } else if s.last() == separator {
            assert(s.subrange(s.len() as int, s.len() as int) =~= part);
            s.len() as int
        } else {
            let offset = lemma_part_occurs(shorter, separator, before.len() - 1);
            assert(part == before.last().push(s.last()));
            assert(s.subrange(offset, s.len() as int) =~= shorter.subrange(
                offset,
                shorter.len() as int,
            ).push(s.last()));
            offset
        }
    }
}

/// An interface is recognised as that of the receiver wherever in its files its marks
/// stand: the identity on a line of its own among any other lines and in either case, the
/// interface number 5 with any zeros before it and white space around it, and the report
/// collection anywhere in the report descriptor.
pub proof fn law_receiver_interface_is_recognised(
    before: Seq<char>,
    line: Seq<char>,
    after: Seq<char>,
    space: Seq<char>,
    zeros: Seq<char>,
    more_space: Seq<char>,
    first: Seq<u8>,
    last: Seq<u8>,
)
    requires
        before.len() > 0 ==> before.last() == '\n',
        line.len() == "HID_ID=0003:0000054C:00000EC2"@.len(),
        forall|i: int|
            0 <= i < line.len() ==> {
                let wanted = "HID_ID=0003:0000054C:00000EC2"@[i];
                #[trigger] line[i] == wanted || ('A' <= wanted <= 'Z' && line[i] as int
                    == wanted as int + 32)
            },
        forall|i: int| 0 <= i < space.len() ==> is_whitespace(#[trigger] space[i]),
        forall|i: int| 0 <= i < zeros.len() ==> zeros[i] == '0',
        forall|i: int| 0 <= i < more_space.len() ==> is_whitespace(#[trigger] more_space[i]),
    ensures
        ({
            let collection = seq![
                0x06u8, 0x04, 0xff, 0x09, 0x01, 0xa1, 0x01, 0x15, 0x00, 0x26, 0xff, 0x00, 0x85,
                0x02, 0x75, 0x08, 0x95, 0x3f, 0x09, 0x02, 0x81, 0x02, 0x09, 0x03, 0x91, 0x02, 0xc0,
            ];
            let number = space + (zeros + seq!['5']) + more_space;
            &&& (InterfaceFilesView {
                uevent: Some(before + line.push('\n') + after),
                interface_number: Some(number),
                report_descriptor: Some(first + collection + last),
            }).is_expected()
            &&& (InterfaceFilesView {
                uevent: Some(before + (line + seq!['\r', '\n']) + after),
                interface_number: Some(number),
                report_descriptor: Some(first + collection + last),
            }).is_expected()
        }),
{
    reveal_strlit("HID_ID=0003:0000054C:00000EC2");
    let wanted = "HID_ID=0003:0000054C:00000EC2"@;
    assert(line.len() == 29);
    assert forall|i: int| 0 <= i < line.len() implies line[i] != '\n' by {
        assert(line[i] == wanted[i] || line[i] as int == wanted[i] as int + 32);
    }
    assert(line[28] == wanted[28] || line[28] as int == wanted[28] as int + 32);
    law_line_is_found(before, line, after, wanted);
    let digits = zeros + seq!['5'];
    assert(digits[0] == '0' || digits[0] == '5') by {
        if zeros.len() > 0 {
            assert(digits[0] == zeros[0]);
        }
    }
    assert(digits.last() == '5');
    law_trimming_keeps_the_text(space, digits, more_space);
    law_leading_zeros_do_not_count(zeros, seq!['5']);
    assert(are_digits(seq!['5']));
    assert(seq!['5'].drop_last() =~= seq![]);
    assert(digits_value(seq!['5'].drop_last()) == 0);
    assert(digits_value(seq!['5']) == 5);
    assert(without_plus(seq!['5']) == seq!['5']);
    assert(hex_byte(digits) == Some(5u8));
    let collection = EXPECTED_REPORT_COLLECTION@;
    let descriptor = first + collection + last;
    assert(collection =~= seq![
        0x06u8, 0x04, 0xff, 0x09, 0x01, 0xa1, 0x01, 0x15, 0x00, 0x26, 0xff, 0x00, 0x85,
        0x02, 0x75, 0x08, 0x95, 0x3f, 0x09, 0x02, 0x81, 0x02, 0x09, 0x03, 0x91, 0x02, 0xc0,
    ]);
    assert(descriptor.subrange(first.len() as int, first.len() as int + 27) =~= collection);
    assert(occurs_at(descriptor, collection, first.len() as int));
}

/// Whatever is recognised bears the marks of the receiver: its identity stands in the
/// `uevent` file, the interface number is 5, and the report collection stands in the
/// report descriptor. A file that could not be read is never overlooked.
pub proof fn law_recognised_interface_bears_the_marks(files: InterfaceFilesView)
    requires
        files.is_expected(),
    ensures
        files.uevent matches Some(uevent) && exists|offset: int|
            0 <= offset && offset + 29 <= uevent.len() && same_ignoring_case(
                #[trigger] uevent.subrange(offset, offset + 29),
                "HID_ID=0003:0000054C:00000EC2"@,
            ),
        files.interface_number matches Some(number) && are_digits(without_plus(trimmed(number)))
            && digits_value(without_plus(trimmed(number))) == 5,
        files.report_descriptor matches Some(descriptor) && exists|place: int|
            0 <= place && place + 27 <= descriptor.len() && #[trigger] descriptor.subrange(
                place,
                place + 27,
            ) == seq![
                0x06u8, 0x04, 0xff, 0x09, 0x01, 0xa1, 0x01, 0x15, 0x00, 0x26, 0xff, 0x00, 0x85,
                0x02, 0x75, 0x08, 0x95, 0x3f, 0x09, 0x02, 0x81, 0x02, 0x09, 0x03, 0x91, 0x02, 0xc0,
            ],
{
    reveal_strlit("HID_ID=0003:0000054C:00000EC2");
    let wanted = "HID_ID=0003:0000054C:00000EC2"@;
    let uevent = files.uevent->Some_0;
    let parts = split(uevent, '\n');
    let index = choose|i: int|
        0 <= i < lines(uevent).len() && same_ignoring_case(#[trigger] lines(uevent)[i], wanted);
    let line = lines(uevent)[index];
    crate::text::lemma_split_not_empty(uevent, '\n');
    let offset = lemma_part_occurs(uevent, '\n', index);
    if index < parts.len() - 1 {
        assert(line == without_return(parts[index]));
    }
    assert(uevent.subrange(offset, offset + 29) =~= line) by {
        assert(forall|k: int|
            0 <= k < parts[index].len() ==> uevent.subrange(offset, offset + parts[index].len())[k]
                == #[trigger] uevent[offset + k]);
    }
    assert(same_ignoring_case(uevent.subrange(offset, offset + 29), wanted));
    let descriptor = files.report_descriptor->Some_0;
    let collection = EXPECTED_REPORT_COLLECTION@;
    assert(collection =~= seq![
        0x06u8, 0x04, 0xff, 0x09, 0x01, 0xa1, 0x01, 0x15, 0x00, 0x26, 0xff, 0x00, 0x85,
        0x02, 0x75, 0x08, 0x95, 0x3f, 0x09, 0x02, 0x81, 0x02, 0x09, 0x03, 0x91, 0x02, 0xc0,
    ]);
    let place = choose|place: int| occurs_at(descriptor, collection, place);
    assert(descriptor.subrange(place, place + 27) == collection);
}

/// The devices of entries of which only one matches.
proof fn lemma_only_match(
    entries: Seq<Result<HidrawEntryView, IoErrorView>>,
    device_root: Seq<u8>,
    index: int,
    path: Seq<u8>,
)
    requires
        0 <= index < entries.len(),
        entry_device(entries[index], device_root) == Some(path),
        forall|j: int|
            0 <= j < entries.len() && j != index ==> entry_device(
                #[trigger] entries[j],
                device_root,
            ) is None,
    ensures
        matching_devices(entries, device_root) == seq![path],
    decreases entries.len(),
{
    let before = entries.drop_last();
    assert(forall|i: int| 0 <= i < before.len() ==> #[trigger] before[i] == entries[i]);
    if index == entries.len() - 1 {
        lemma_no_match(before, device_root);
        assert(matching_devices(entries, device_root) =~= seq![path]);
    } else {
        assert(entry_device(before[index], device_root) == Some(path));
        lemma_only_match(before, device_root, index, path);
        assert(entry_device(entries[entries.len() - 1], device_root) is None);
    }
}

proof fn lemma_no_match(entries: Seq<Result<HidrawEntryView, IoErrorView>>, device_root: Seq<u8>)
    requires
        forall|j: int|
            0 <= j < entries.len() ==> entry_device(#[trigger] entries[j], device_root) is None,
    ensures
        matching_devices(entries, device_root) == Seq::<Seq<u8>>::empty(),
    decreases entries.len(),
{
    if entries.len() > 0 {
        let before = entries.drop_last();
        assert(forall|i: int| 0 <= i < before.len() ==> #[trigger] before[i] == entries[i]);
        lemma_no_match(before, device_root);
        assert(entry_device(entries[entries.len() - 1], device_root) is None);
    }
}

/// Each matching entry is among the devices.
proof fn lemma_match_is_among_devices(
    entries: Seq<Result<HidrawEntryView, IoErrorView>>,
    device_root: Seq<u8>,
    index: int,
) -> (place: int)
    requires
        0 <= index < entries.len(),
        entry_device(entries[index], device_root) is Some,
    ensures
        0 <= place < matching_devices(entries, device_root).len(),
        place <= index,
        Some(matching_devices(entries, device_root)[place]) == entry_device(
            entries[index],
            device_root,
        ),
        place == matching_devices(entries.take(index), device_root).len(),
    decreases entries.len(),
{
    let before = entries.drop_last();
    if index == entries.len() - 1 {
        assert(entries.take(index) =~= before);
        lemma_devices_are_few(before, device_root);
        matching_devices(before, device_root).len() as int
    } else {
        assert(before[index] == entries[index]);
        assert(before.take(index) =~= entries.take(index));
        lemma_match_is_among_devices(before, device_root, index)
    }
}

proof fn lemma_devices_are_few(
    entries: Seq<Result<HidrawEntryView, IoErrorView>>,
    device_root: Seq<u8>,
)
    ensures
        matching_devices(entries, device_root).len() <= entries.len(),
    decreases entries.len(),
{
    if entries.len() > 0 {
        lemma_devices_are_few(entries.drop_last(), device_root);
    }
}

/// Discovery finds the receiver: where every entry could be read and the files of one of
/// them alone are those of the receiver's interface, it gives `/dev/` and the name of that
/// entry, wherever in the list the entry stands.
pub proof fn law_one_receiver_is_found(
    entries: Seq<Result<HidrawEntryView, IoErrorView>>,
    index: int,
    directory: Seq<u8>,
    name: Seq<u8>,
    result: Result<Seq<u8>, ErrorView>,
)
    requires
        0 <= index < entries.len(),
        forall|j: int| 0 <= j < entries.len() ==> #[trigger] entries[j] is Ok,
        directory.len() > 0,
        directory.last() != 0x2f,
        is_name(name),
        entries[index]->Ok_0.path == directory + seq![0x2fu8] + name,
        entries[index]->Ok_0.files.is_expected(),
        forall|j: int|
            0 <= j < entries.len() && j != index ==> !(
            #[trigger] entries[j])->Ok_0.files.is_expected(),
        is_discovery(entries, DEVICE_ROOT@, result),
    ensures
        result == Ok::<Seq<u8>, ErrorView>(seq![0x2fu8, 0x64, 0x65, 0x76, 0x2f] + name),
{
    let path = directory + seq![0x2fu8] + name;
    assert(join(directory, name) =~= path);
    crate::path::law_join_appends_the_name(directory, name);
    let node = seq![0x2fu8, 0x64, 0x65, 0x76, 0x2f] + name;
    assert(DEVICE_ROOT@ =~= seq![0x2fu8, 0x64, 0x65, 0x76]);
    assert(join(DEVICE_ROOT@, name) =~= node);
    assert(entry_device(entries[index], DEVICE_ROOT@) == Some(node));
    lemma_only_match(entries, DEVICE_ROOT@, index, node);
}

/// Where every entry could be read and none is the receiver's interface, no device is
/// found, and that is told.
pub proof fn law_absent_receiver_is_told(
    entries: Seq<Result<HidrawEntryView, IoErrorView>>,
    device_root: Seq<u8>,
    result: Result<Seq<u8>, ErrorView>,
)
    requires
        forall|j: int| 0 <= j < entries.len() ==> #[trigger] entries[j] is Ok,
        forall|j: int|
            0 <= j < entries.len() ==> !(#[trigger] entries[j])->Ok_0.files.is_expected(),
        is_discovery(entries, device_root, result),
    ensures
        result == Err::<Seq<u8>, ErrorView>(ErrorView::DeviceNotFound),
{
    lemma_no_match(entries, device_root);
}

/// Where two entries are the receiver's interface, discovery takes neither, and tells the
/// devices of both.
pub proof fn law_several_receivers_are_told(
    entries: Seq<Result<HidrawEntryView, IoErrorView>>,
    device_root: Seq<u8>,
    i: int,
    j: int,
    first: Seq<u8>,
    second: Seq<u8>,
    result: Result<Seq<u8>, ErrorView>,
)
    requires
        0 <= i < j < entries.len(),
        forall|k: int| 0 <= k < entries.len() ==> #[trigger] entries[k] is Ok,
        entries[i]->Ok_0.files.is_expected(),
        file_name(entries[i]->Ok_0.path) == Some(first),
        entries[j]->Ok_0.files.is_expected(),
        file_name(entries[j]->Ok_0.path) == Some(second),
        is_discovery(entries, device_root, result),
    ensures
        result matches Err(ErrorView::AmbiguousDevices(paths)) && paths.contains(
            join(device_root, first),
        ) && paths.contains(join(device_root, second)),
{
    broadcast use vstd::seq_lib::group_to_multiset_ensures;

    let devices = matching_devices(entries, device_root);
    let p = lemma_match_is_among_devices(entries, device_root, i);
    let q = lemma_match_is_among_devices(entries, device_root, j);
    let early = entries.take(j);
    assert(early[i] == entries[i]);
    assert(early.take(i) =~= entries.take(i));
    let r = lemma_match_is_among_devices(early, device_root, i);
    assert(p < q);
    assert(devices.contains(devices[p]) && devices.contains(devices[q]));
    if let Err(ErrorView::AmbiguousDevices(paths)) = result {
        devices.to_multiset_ensures();
        paths.to_multiset_ensures();
        assert(devices.to_multiset().count(devices[p]) > 0);
        assert(devices.to_multiset().count(devices[q]) > 0);
        assert(paths.to_multiset().count(devices[p]) > 0);
        assert(paths.to_multiset().count(devices[q]) > 0);
    }
}

/// An entry that cannot be read fails discovery with what the system said of the first
/// such entry, whatever the other entries are.
pub proof fn law_unreadable_entry_is_told(
    entries: Seq<Result<HidrawEntryView, IoErrorView>>,
    device_root: Seq<u8>,
    index: int,
    source: IoErrorView,
    result: Result<Seq<u8>, ErrorView>,
)
    requires
        0 <= index < entries.len(),
        entries[index] == Err::<HidrawEntryView, IoErrorView>(source),
        forall|j: int| 0 <= j < index ==> #[trigger] entries[j] is Ok,
        is_discovery(entries, device_root, result),
    ensures
        result == Err::<Seq<u8>, ErrorView>(
            ErrorView::Io { operation: "inspect hidraw class"@, source },
        ),
{
    assert(entries[index] is Err);
    let i = choose|i: int|
        #[trigger] crate::device::is_first_failure(entries, i) && result == Err::<
            Seq<u8>,
            ErrorView,
        >(ErrorView::Io { operation: "inspect hidraw class"@, source: entries[i]->Err_0 });
    assert(i == index);
}

/// A device number that is put together from a major and a minor number, as Linux does
/// it, is taken apart into the same two.
pub proof fn law_device_numbers_are_taken_apart(major: u32, minor: u32, device: u64)
    requires
        device == minor % 0x100 + 0x100 * (major % 0x1000) + 0x10_0000 * (minor / 0x100)
            + 0x1000_0000_0000 * (major / 0x1000),
    ensures
        device_major(device) == major,
        device_minor(device) == minor,
{
}

/// What the kernel tells of a character device stands under `/sys/dev/char`, in the entry
/// of its major and minor number in decimal with a colon between them.
pub proof fn law_kernel_lists_devices_by_number(major: u32, minor: u32, device: u64)
    requires
        device == minor % 0x100 + 0x100 * (major % 0x1000) + 0x10_0000 * (minor / 0x100)
            + 0x1000_0000_0000 * (major / 0x1000),
    ensures
        device_sysfs_node(device, SYS_CHAR_ROOT@) == seq![
            0x2fu8, 0x73, 0x79, 0x73, 0x2f, 0x64, 0x65, 0x76, 0x2f, 0x63, 0x68, 0x61, 0x72, 0x2f,
        ] + encode_utf8(decimal(major as nat) + ":"@ + decimal(minor as nat)),
{
    law_device_numbers_are_taken_apart(major, minor, device);
    let root = seq![
        0x2fu8, 0x73, 0x79, 0x73, 0x2f, 0x64, 0x65, 0x76, 0x2f, 0x63, 0x68, 0x61, 0x72,
    ];
    assert(SYS_CHAR_ROOT@ =~= root);
    assert(device_sysfs_node(device, SYS_CHAR_ROOT@) =~= seq![
        0x2fu8, 0x73, 0x79, 0x73, 0x2f, 0x64, 0x65, 0x76, 0x2f, 0x63, 0x68, 0x61, 0x72, 0x2f,
    ] + encode_utf8(decimal(major as nat) + ":"@ + decimal(minor as nat)));
}

/// The absolute path of names, one in the other.
pub open spec fn absolute(names: Seq<Seq<u8>>) -> Seq<u8>
    decreases names.len(),
{
    if names.len() == 0 {
        seq![]
    } else {
        absolute(names.drop_last()).push(0x2f) + names.last()
    }
}

/// The components of an absolute path are the root directory and the names that it was
/// made of, as they stand: the parent directory is a name like any other.
pub proof fn law_components_are_the_names(names: Seq<Seq<u8>>)
    requires
        names.len() > 0,
        forall|i: int|
            0 <= i < names.len() ==> (#[trigger] names[i]).len() > 0 && !names[i].contains(0x2f)
                && names[i] != seq![0x2eu8],
    ensures
        components(absolute(names)) == seq![seq![0x2fu8]] + names,
{
    lemma_absolute_parts(names);
    lemma_absolute_start(names);
    assert(root_dir() =~= seq![0x2fu8]);
    assert(components(absolute(names)) =~= seq![seq![0x2fu8]] + names);
}

proof fn lemma_absolute_start(names: Seq<Seq<u8>>)
    requires
        names.len() > 0,
    ensures
        absolute(names).len() > 0,
        absolute(names)[0] == 0x2f,
    decreases names.len(),
{
    let before = names.drop_last();
    if before.len() > 0 {
        lemma_absolute_start(before);
        assert(absolute(names)[0] == absolute(before)[0]);
    } else {
        assert(absolute(before) =~= seq![]);
        assert(absolute(names)[0] == 0x2f);
    }
}

proof fn lemma_absolute_parts(names: Seq<Seq<u8>>)
    requires
        forall|i: int|
            0 <= i < names.len() ==> (#[trigger] names[i]).len() > 0 && !names[i].contains(0x2f)
                && names[i] != seq![0x2eu8],
    ensures
        kept_parts(split(absolute(names), 0x2fu8)) == names,
    decreases names.len(),
{
    if names.len() == 0 {
        let nothing: Seq<Seq<u8>> = seq![seq![]];
        assert(split(absolute(names), 0x2fu8) =~= nothing);
        assert(nothing.drop_last() =~= seq![]);
        assert(kept_parts(nothing.drop_last()) =~= seq![]);
        assert(kept_parts(nothing) =~= names);
    } else {
        let before = names.drop_last();
        let name = names.last();
        let start = split(absolute(before), 0x2fu8);
        assert(forall|i: int| 0 <= i < before.len() ==> #[trigger] before[i] == names[i]);
        lemma_absolute_parts(before);
        assert forall|i: int| 0 <= i < name.len() implies name[i] != 0x2f by {
            assert(name.contains(name[i]));
        }
        law_nothing_to_split(name, 0x2fu8);
        law_split_after_a_separator(absolute(before), name, 0x2fu8);
        let parts = split(absolute(names), 0x2fu8);
        assert(parts =~= start.push(name));
        assert(parts.drop_last() =~= start);
        assert(names[names.len() - 1] == name);
        assert(crate::path::current_dir() =~= seq![0x2eu8]);
        assert(kept_parts(parts) =~= before.push(name));
        assert(before.push(name) =~= names);
    }
}

/// Separators and current directories that lead nowhere change nothing of a path.
pub proof fn law_needless_parts_do_not_count(before: Seq<u8>, after: Seq<u8>)
    requires
        before.len() > 0,
    ensures
        components(before + seq![0x2fu8, 0x2f] + after) == components(
            before + seq![0x2fu8] + after,
        ),
        components(before + seq![0x2fu8, 0x2e, 0x2f] + after) == components(
            before + seq![0x2fu8] + after,
        ),
{
    let plain = before + seq![0x2fu8] + after;
    let doubled = before + seq![0x2fu8, 0x2f] + after;
    let dotted = before + seq![0x2fu8, 0x2e, 0x2f] + after;
    let head = split(before, 0x2fu8);
    let tail = split(after, 0x2fu8);
    crate::text::lemma_split_not_empty(before, 0x2fu8);
    assert(plain =~= before.push(0x2f) + after);
    assert(doubled =~= before.push(0x2f).push(0x2f) + after);
    assert(dotted =~= before.push(0x2f).push(0x2e).push(0x2f) + after);
    law_split_after_a_separator(before, after, 0x2fu8);
    law_split_after_a_separator(before.push(0x2f), after, 0x2fu8);
    law_split_after_a_separator(before, seq![], 0x2fu8);
    assert(before.push(0x2f) + seq![] =~= before.push(0x2f));
    law_split_after_a_separator(before.push(0x2f).push(0x2e), after, 0x2fu8);
    law_split_after_a_separator(before, seq![0x2eu8], 0x2fu8);
    assert(before.push(0x2f) + seq![0x2eu8] =~= before.push(0x2f).push(0x2e));
    law_nothing_to_split(Seq::<u8>::empty(), 0x2fu8);
    law_nothing_to_split(seq![0x2eu8], 0x2fu8);
    let dot = crate::path::current_dir();
    assert(dot =~= seq![0x2eu8]);
    lemma_dropped_part(head, Seq::<u8>::empty(), tail);
    lemma_dropped_part(head, dot, tail);
    assert(plain[0] == before[0] && doubled[0] == before[0] && dotted[0] == before[0]);
    assert(split(doubled, 0x2fu8) =~= head + seq![Seq::<u8>::empty()] + tail);
    assert(split(dotted, 0x2fu8) =~= head + seq![dot] + tail);
    assert(split(plain, 0x2fu8) =~= head + tail);
}

proof fn lemma_dropped_part(head: Seq<Seq<u8>>, part: Seq<u8>, tail: Seq<Seq<u8>>)
    requires
        head.len() > 0,
        part.len() == 0 || part == crate::path::current_dir(),
    ensures
        kept_parts(head + seq![part] + tail) == kept_parts(head + tail),
    decreases tail.len(),
{
    if tail.len() == 0 {
        assert((head + seq![part] + tail).drop_last() =~= head);
        assert(head + tail =~= head);
        assert((head + seq![part] + tail).last() == part);
    } else {
        let shorter = tail.drop_last();
        assert((head + seq![part] + tail).drop_last() =~= head + seq![part] + shorter);
        assert((head + tail).drop_last() =~= head + shorter);
        assert((head + seq![part] + tail).last() == tail.last());
        assert((head + tail).last() == tail.last());
        lemma_dropped_part(head, part, shorter);
    }
}

/// The files of an interface and the entries of a list are seen as they are, in order.
pub proof fn law_entries_are_seen_as_they_are(
    entries: Seq<Result<HidrawEntry, IoError>>,
    i: int,
    entry: HidrawEntry,
    source: IoError,
    files: InterfaceFiles,
    path: Vec<u8>,
)
    requires
        0 <= i < entries.len(),
    ensures
        entry_views(entries).len() == entries.len(),
        entries[i] == Ok::<HidrawEntry, IoError>(entry) ==> entry_views(entries)[i] == Ok::<
            HidrawEntryView,
            IoErrorView,
        >(HidrawEntryView { path: entry.path@, files: entry.files@ }),
        entries[i] == Err::<HidrawEntry, IoError>(source) ==> entry_views(entries)[i] == Err::<
            HidrawEntryView,
            IoErrorView,
        >(source@),
        files.uevent is None <==> files@.uevent is None,
        files.uevent matches Some(uevent) ==> files@.uevent == Some(uevent@),
        files.interface_number is None <==> files@.interface_number is None,
        files.interface_number matches Some(number) ==> files@.interface_number == Some(number@),
        files.report_descriptor is None <==> files@.report_descriptor is None,
        files.report_descriptor matches Some(descriptor) ==> files@.report_descriptor == Some(
            descriptor@,
        ),
        path_result(Ok(path)) == Ok::<Seq<u8>, ErrorView>(path@),
{
}

/// The components of a relative path are its names, the first of which may be the current
/// directory, and an empty path has none.
pub proof fn law_components_of_relative_paths(first: Seq<u8>, names: Seq<Seq<u8>>)
    requires
        first.len() > 0,
        !first.contains(0x2f),
        forall|i: int|
            0 <= i < names.len() ==> (#[trigger] names[i]).len() > 0 && !names[i].contains(0x2f)
                && names[i] != seq![0x2eu8],
    ensures
        components(first + absolute(names)) == seq![first] + names,
        components(seq![]) == Seq::<Seq<u8>>::empty(),
{
    assert forall|i: int| 0 <= i < first.len() implies first[i] != 0x2f by {
        assert(first.contains(first[i]));
    }
    lemma_relative_parts(first, names);
    assert((first + absolute(names))[0] == first[0]);
    assert(components(first + absolute(names)) =~= seq![first] + names);
    let nothing: Seq<Seq<u8>> = seq![seq![]];
    assert(split(Seq::<u8>::empty(), SEPARATOR) =~= nothing);
    assert(nothing.drop_last() =~= seq![]);
    assert(kept_parts(nothing.drop_last()) =~= seq![]);
    assert(components(seq![]) =~= Seq::<Seq<u8>>::empty());
}

proof fn lemma_relative_parts(first: Seq<u8>, names: Seq<Seq<u8>>)
    requires
        first.len() > 0,
        forall|i: int| 0 <= i < first.len() ==> first[i] != 0x2f,
        forall|i: int|
            0 <= i < names.len() ==> (#[trigger] names[i]).len() > 0 && !names[i].contains(0x2f)
                && names[i] != seq![0x2eu8],
    ensures
        kept_parts(split(first + absolute(names), 0x2fu8)) == seq![first] + names,
        split(first + absolute(names), 0x2fu8).len() > 0,
    decreases names.len(),
{
    if names.len() == 0 {
        assert(first + absolute(names) =~= first);
        law_nothing_to_split(first, 0x2fu8);
        let one = seq![first];
        assert(one.drop_last() =~= seq![]);
        assert(kept_parts(one.drop_last()) =~= seq![]);
        assert(kept_parts(one) =~= seq![first] + names);
    } else {
        let before = names.drop_last();
        let name = names.last();
        let path = first + absolute(before);
        let start = split(path, 0x2fu8);
        assert(forall|i: int| 0 <= i < before.len() ==> #[trigger] before[i] == names[i]);
        lemma_relative_parts(first, before);
        assert(names[names.len() - 1] == name);
        assert forall|i: int| 0 <= i < name.len() implies name[i] != 0x2f by {
            assert(name.contains(name[i]));
        }
        law_nothing_to_split(name, 0x2fu8);
        law_split_after_a_separator(path, name, 0x2fu8);
        assert(first + absolute(names) =~= path.push(0x2f) + name);
        let parts = split(first + absolute(names), 0x2fu8);
        assert(parts =~= start.push(name));
        assert(parts.drop_last() =~= start);
        assert(crate::path::current_dir() =~= seq![0x2eu8]);
        assert(kept_parts(parts) =~= (seq![first] + before).push(name));
        assert((seq![first] + before).push(name) =~= seq![first] + names);
    }
}

/// The file name of a path is the last of the names that it was made of, unless that is
/// the parent directory.
pub proof fn law_file_name_is_the_last_name(names: Seq<Seq<u8>>)
    requires
        names.len() > 0,
        forall|i: int|
            0 <= i < names.len() ==> (#[trigger] names[i]).len() > 0 && !names[i].contains(0x2f)
                && names[i] != seq![0x2eu8],
    ensures
        names.last() != seq![0x2eu8, 0x2e] ==> file_name(absolute(names)) == Some(names.last()),
        names.last() == seq![0x2eu8, 0x2e] ==> file_name(absolute(names)) is None,
{
    law_components_are_the_names(names);
    assert(names.last() == names[names.len() - 1]);
    assert((seq![seq![0x2fu8]] + names).last() == names.last());
    assert(crate::path::current_dir() =~= seq![0x2eu8]);
    assert(crate::path::parent_dir() =~= seq![0x2eu8, 0x2e]);
}

/// A separator at the end of a path does not count.
pub proof fn law_last_separator_does_not_count(path: Seq<u8>)
    requires
        path.len() > 0,
    ensures
        components(path.push(0x2f)) == components(path),
{
    let parts = split(path, 0x2fu8);
    assert(path.push(0x2f).drop_last() =~= path);
    assert(split(path.push(0x2f), 0x2fu8) == parts.push(seq![]));
    assert(parts.push(seq![]).drop_last() =~= parts);
    assert(path.push(0x2f)[0] == path[0]);
}

} // verus!
