use inzone_buds::device::{
    confirm_interface, discover_device, discover_device_in, discover_device_paths,
    inspect_opened_device, is_inzone_uevent, linux_device_major, linux_device_minor,
    matches_expected_interface, matching_device_path, validate_device_path_in, DeviceMetadata,
    HidrawEntry, InterfaceFiles, EXPECTED_REPORT_COLLECTION,
};
use inzone_buds::error::{Error, IoError, IoErrorKind};

const UEVENT: &str = "HID_ID=0003:0000054C:00000EC2\n";

fn valid_descriptor() -> Vec<u8> {
    let mut descriptor = vec![0xaa, 0xbb];
    descriptor.extend_from_slice(&EXPECTED_REPORT_COLLECTION);
    descriptor.push(0xcc);
    descriptor
}

fn files(uevent: &str, interface: &str, descriptor: &[u8]) -> InterfaceFiles {
    InterfaceFiles {
        uevent: Some(uevent.to_string()),
        interface_number: Some(interface.to_string()),
        report_descriptor: Some(descriptor.to_vec()),
    }
}

fn entry(path: &str, files: InterfaceFiles) -> Result<HidrawEntry, IoError> {
    Ok(HidrawEntry {
        path: path.as_bytes().to_vec(),
        files,
    })
}

fn valid_entry(path: &str) -> Result<HidrawEntry, IoError> {
    entry(path, files(UEVENT, "05", &valid_descriptor()))
}

#[test]
fn rejects_paths_not_bound_to_dev_hidraw() {
    let root = b"/dev";
    assert!(validate_device_path_in(b"/dev/hidraw3", root).is_ok());
    assert!(validate_device_path_in(b"/", root).is_err());
    assert!(validate_device_path_in(b"/dev/nope", root).is_err());
    assert!(validate_device_path_in(b"/tmp/hidraw3", root).is_err());
    assert!(validate_device_path_in(b"/dev/hidrawx", root).is_err());
    assert!(validate_device_path_in(b"/dev/hidraw3/../hidraw3", root).is_err());
}

#[test]
fn accepts_every_spelling_of_a_device_path() {
    let root = b"/dev";
    for path in ["/dev/hidraw12", "//dev//hidraw12", "/dev/./hidraw12", "/dev/hidraw12/"] {
        assert_eq!(
            validate_device_path_in(path.as_bytes(), root).unwrap(),
            b"hidraw12"
        );
    }
    for path in [
        "",
        ".",
        "..",
        "hidraw12",
        "dev/hidraw12",
        "./dev/hidraw12",
        "/dev/hidraw",
        "/dev/hidraw-1",
        "/dev/hidraw1x",
        "/dev/HIDRAW1",
        "/dev/input/hidraw1",
        "/dev/../dev/hidraw1",
        "/dev/hidraw1/..",
    ] {
        match validate_device_path_in(path.as_bytes(), root) {
            Err(Error::DeviceMismatch(told)) => assert_eq!(told, path.as_bytes()),
            _ => panic!("accepted"),
        }
    }
    assert!(validate_device_path_in(&[b'/', b'd', b'e', b'v', b'/', 0xff], root).is_err());
}

#[test]
fn decodes_linux_device_numbers() {
    assert_eq!(linux_device_major(0xf303), 243);
    assert_eq!(linux_device_minor(0xf303), 3);
}

#[test]
fn wide_device_numbers_are_put_together_from_both_parts() {
    assert_eq!(linux_device_major(0xabcde_000000_123_45), 0xabcde123);
    assert_eq!(linux_device_minor(0xabcde_000000_123_45), 0x45);
    assert_eq!(linux_device_major(0x00000fff_fff000ff), 0);
    assert_eq!(linux_device_minor(0x00000fff_fff000ff), 0xffffffff);
    assert_eq!(linux_device_major(u64::MAX), 0xffffffff);
    assert_eq!(linux_device_minor(u64::MAX), 0xffffffff);
}

#[test]
fn discovers_only_exact_interfaces_and_fails_closed() {
    let devices = b"/tmp/dev";
    let missing = IoError::new(IoErrorKind::NotFound, "missing");
    assert!(matches!(
        discover_device_in(Err(missing), devices),
        Err(Error::Io { .. })
    ));
    assert!(matches!(
        discover_device_in(Ok(vec![]), devices),
        Err(Error::DeviceNotFound)
    ));

    let first = || {
        entry(
            "/tmp/class/hidraw9",
            files(
                "HID_ID=0003:0000054C:00000EC2\n",
                "05\n",
                &valid_descriptor(),
            ),
        )
    };
    assert_eq!(
        discover_device_in(Ok(vec![first()]), devices).unwrap(),
        b"/tmp/dev/hidraw9"
    );

    let second = entry(
        "/tmp/class/hidraw10",
        files("hid_id=0003:0000054c:00000ec2\n", "05", &valid_descriptor()),
    );
    let error = discover_device_in(Ok(vec![first(), second]), devices).unwrap_err();
    assert!(matches!(error, Error::AmbiguousDevices(_)));

    let broken = vec![Err(IoError::new(IoErrorKind::Other, "other error"))];
    assert!(matches!(
        discover_device_paths(&broken, devices),
        Err(Error::Io { .. })
    ));
}

#[test]
fn ambiguous_devices_are_told_in_order() {
    let entries = vec![
        valid_entry("/sys/class/hidraw/hidraw9"),
        entry("/sys/class/hidraw/hidraw5", files(UEVENT, "04", &valid_descriptor())),
        valid_entry("/sys/class/hidraw/hidraw2"),
        valid_entry("/sys/class/hidraw/hidraw10"),
    ];
    match discover_device(Ok(entries)) {
        Err(Error::AmbiguousDevices(paths)) => assert_eq!(
            paths,
            vec![
                b"/dev/hidraw10".to_vec(),
                b"/dev/hidraw2".to_vec(),
                b"/dev/hidraw9".to_vec()
            ]
        ),
        _ => panic!("not ambiguous"),
    }
}

#[test]
fn one_unreadable_entry_fails_discovery() {
    let entries = vec![
        valid_entry("/sys/class/hidraw/hidraw1"),
        Err(IoError::new(IoErrorKind::PermissionDenied, "first")),
        Err(IoError::new(IoErrorKind::Other, "second")),
    ];
    let error = discover_device(Ok(entries)).unwrap_err();
    assert_eq!(error.to_string(), "inspect hidraw class: first");
    let listing = Err(IoError::new(IoErrorKind::NotFound, "no such directory"));
    assert_eq!(
        discover_device(listing).unwrap_err().to_string(),
        "read hidraw class: no such directory"
    );
}

#[test]
fn discovery_finds_the_device_of_the_one_match() {
    let entries = vec![
        entry("/sys/class/hidraw/hidraw0", files("", "05", &valid_descriptor())),
        valid_entry("/sys/class/hidraw/hidraw1"),
        entry("/sys/class/hidraw/hidraw2", files(UEVENT, "05", &[])),
    ];
    assert_eq!(discover_device(Ok(entries)).unwrap(), b"/dev/hidraw1");
}

#[test]
fn rejects_incomplete_or_wrong_sysfs_interfaces() {
    let node = |files: InterfaceFiles| HidrawEntry {
        path: b"/tmp/hidraw0".to_vec(),
        files,
    };
    let mut found = InterfaceFiles {
        uevent: None,
        interface_number: None,
        report_descriptor: None,
    };
    assert!(!matches_expected_interface(&found));

    found.uevent = Some("HID_ID=0003:0000054C:00000EC2\n".to_string());
    assert!(!matches_expected_interface(&found));
    found.interface_number = Some("05".to_string());
    assert!(!matches_expected_interface(&found));
    found.report_descriptor = Some(valid_descriptor());
    assert!(matches_expected_interface(&found));

    found.uevent = Some("HID_ID=0003:00000001:00000002\n".to_string());
    assert!(!matches_expected_interface(&found));
    found.uevent = Some("HID_ID=0003:0000054C:00000EC2\n".to_string());
    found.interface_number = Some("xx".to_string());
    assert!(!matches_expected_interface(&found));
    found.interface_number = Some("04".to_string());
    assert!(!matches_expected_interface(&found));
    found.interface_number = Some("05".to_string());
    found.report_descriptor = Some(vec![1, 2, 3]);
    assert!(!matches_expected_interface(&found));
    assert_eq!(matching_device_path(&node(found), b"/dev"), None);
    assert!(!is_inzone_uevent(""));
}

#[test]
fn entries_match_by_name_and_interface() {
    let node = |path: &[u8]| HidrawEntry {
        path: path.to_vec(),
        files: files(UEVENT, "05", &valid_descriptor()),
    };
    assert_eq!(
        matching_device_path(&node(b"/sys/class/hidraw/hidraw7"), b"/dev"),
        Some(b"/dev/hidraw7".to_vec())
    );
    assert_eq!(
        matching_device_path(&node(b"/sys/class/hidraw/hidraw7/"), b"/dev/"),
        Some(b"/dev/hidraw7".to_vec())
    );
    assert_eq!(matching_device_path(&node(b"/"), b"/dev"), None);
    assert_eq!(matching_device_path(&node(b"/sys/.."), b"/dev"), None);
}

#[test]
fn uevents_are_read_line_by_line() {
    assert!(is_inzone_uevent("DRIVER=x\r\nHID_ID=0003:0000054C:00000EC2\r\nHID_NAME=y\n"));
    assert!(is_inzone_uevent("HID_ID=0003:0000054C:00000EC2"));
    assert!(is_inzone_uevent("hid_ID=0003:0000054c:00000eC2"));
    assert!(!is_inzone_uevent("HID_ID=0003:0000054C:00000EC2 "));
    assert!(!is_inzone_uevent(" HID_ID=0003:0000054C:00000EC2"));
    assert!(!is_inzone_uevent("HID_ID=0003:0000054C:00000EC2\r"));
    assert!(!is_inzone_uevent("XHID_ID=0003:0000054C:00000EC2\n"));
}

#[test]
fn interface_numbers_are_hexadecimal_bytes() {
    let expected = |number: &str| matches_expected_interface(&files(UEVENT, number, &valid_descriptor()));
    for number in ["5", "05", "005", "+5", "+005", " 05\n", "\t5\u{a0}", "\u{3000}05\u{2029}"] {
        assert!(expected(number));
    }
    for number in ["", "+", "-5", "0x05", "5 5", "++5", "105", "15", "\u{200b}05", "５"] {
        assert!(!expected(number));
    }
}

#[test]
fn report_collection_is_found_anywhere_in_a_descriptor() {
    let expected = |descriptor: &[u8]| matches_expected_interface(&files(UEVENT, "05", descriptor));
    assert!(expected(&EXPECTED_REPORT_COLLECTION));
    let mut at_end = vec![0x06, 0x04, 0xff];
    at_end.extend_from_slice(&EXPECTED_REPORT_COLLECTION);
    assert!(expected(&at_end));
    assert!(!expected(&EXPECTED_REPORT_COLLECTION[..26]));
    assert!(!expected(&EXPECTED_REPORT_COLLECTION[1..]));
    let mut changed = EXPECTED_REPORT_COLLECTION.to_vec();
    changed[13] ^= 1;
    assert!(!expected(&changed));
}

#[test]
fn opened_devices_lead_to_what_the_kernel_tells_of_them() {
    let path = b"/dev/hidraw7";
    let char_device = DeviceMetadata {
        is_char_device: true,
        device_number: 0xf307,
    };
    assert_eq!(
        inspect_opened_device(path, b"/sys/dev/char", Ok(char_device)).unwrap(),
        b"/sys/dev/char/243:7"
    );
    let regular = DeviceMetadata {
        is_char_device: false,
        device_number: 0xf307,
    };
    assert!(matches!(
        inspect_opened_device(path, b"/sys/dev/char", Ok(regular)),
        Err(Error::DeviceMismatch(_))
    ));
    let failure = IoError::new(IoErrorKind::Other, "gone");
    assert_eq!(
        inspect_opened_device(path, b"/sys/dev/char", Err(failure))
            .unwrap_err()
            .to_string(),
        "inspect opened HID device: gone"
    );
    assert!(confirm_interface(path, &files(UEVENT, "05", &valid_descriptor())).is_ok());
    assert!(matches!(
        confirm_interface(path, &files(UEVENT, "04", &valid_descriptor())),
        Err(Error::DeviceMismatch(_))
    ));
}
