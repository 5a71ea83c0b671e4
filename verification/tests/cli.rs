use inzone_buds::battery::{BatteryCell, BatteryReading, BatteryState};
use inzone_buds::cli::{
    application, execute, parse_args_from, reading_text, show_outcome, show_result, Command,
    ExitStatus, Options, HELP,
};
use inzone_buds::clock::Duration;
use inzone_buds::error::Error;
use inzone_buds::json::{cell_json, json_escape, reading_json};
use inzone_buds::query::{default_timeout, query_battery, QueryResult, Transactions};

const VERSION: &str = "0.1.0";

fn reading() -> BatteryReading {
    BatteryReading {
        left: BatteryCell {
            percent: Some(54),
            state: BatteryState::Discharging,
        },
        right: BatteryCell {
            percent: Some(56),
            state: BatteryState::Charging,
        },
        case: BatteryCell {
            percent: None,
            state: BatteryState::Unavailable,
        },
    }
}

fn result() -> QueryResult {
    QueryResult {
        reading: reading(),
        raw_response: vec![0x02, 0x12, 0xab],
    }
}

fn discovered() -> Result<Vec<u8>, Error> {
    Ok(b"/dev/hidraw3".to_vec())
}

fn queried(_: &[u8]) -> Result<QueryResult, Error> {
    Ok(result())
}

fn timed_out(_: &[u8]) -> Result<QueryResult, Error> {
    Err(Error::Timeout(Duration::from_secs(3)))
}

fn args(arguments: &[&str]) -> Vec<Vec<u8>> {
    arguments
        .iter()
        .map(|argument| argument.as_bytes().to_vec())
        .collect()
}

#[test]
fn formats_machine_and_human_output() {
    assert_eq!(
        reading_json("/dev/hidraw3", reading()),
        r#"{"device":"/dev/hidraw3","left":{"percent":54,"state":"discharging"},"right":{"percent":56,"state":"charging"},"case":{"percent":null,"state":"unavailable"}}"#
    );

    let options = Options {
        device: Some(b"/dev/hidraw3".to_vec()),
        json: false,
        raw: false,
    };
    let (stdout, stderr) = execute(options, discovered, queried).unwrap();
    assert!(stdout.contains("Left:  54% (discharging)"));
    assert!(stdout.contains("Case:  unknown (unavailable)"));
    assert!(stderr.is_empty());

    let options = Options {
        device: None,
        json: true,
        raw: true,
    };
    let (stdout, stderr) = execute(options, discovered, queried).unwrap();
    assert!(stdout.starts_with("{\"device\""));
    assert_eq!(stderr, "raw: 02 12 ab\n");
}

#[test]
fn reports_discovery_and_query_errors() {
    let error = execute(Options::default(), || Err(Error::DeviceNotFound), queried).unwrap_err();
    assert!(error.contains("was not found"));

    let error = execute(
        Options {
            device: Some(b"/dev/hidraw3".to_vec()),
            ..Options::default()
        },
        discovered,
        timed_out,
    )
    .unwrap_err();
    assert!(error.contains("3 seconds"));
}

#[test]
fn parses_every_argument_form() {
    assert!(matches!(parse_args_from(&vec![]), Ok(Command::Query(_))));
    assert!(matches!(
        parse_args_from(&args(&["-h"])),
        Ok(Command::Help)
    ));
    assert!(matches!(
        parse_args_from(&args(&["--help"])),
        Ok(Command::Help)
    ));
    assert!(matches!(
        parse_args_from(&args(&["-V"])),
        Ok(Command::Version)
    ));
    assert!(matches!(
        parse_args_from(&args(&["--version"])),
        Ok(Command::Version)
    ));

    let command =
        parse_args_from(&args(&["--device", "/dev/hidraw3", "--json", "--raw"])).unwrap();
    assert!(matches!(
        command,
        Command::Query(Options {
            device: Some(_),
            json: true,
            raw: true
        })
    ));

    assert!(parse_args_from(&args(&["--device"])).is_err());
    assert!(parse_args_from(&args(&["--unknown"])).is_err());
    assert!(parse_args_from(&vec![vec![0xff]]).is_err());
}

#[test]
fn application_returns_every_exit_shape() {
    let (code, stdout, stderr) = application(&args(&["--help"]), VERSION, discovered, queried);
    assert_eq!(code, ExitStatus::Success);
    assert_eq!(stdout, HELP);
    assert!(stderr.is_empty());

    let (code, stdout, stderr) = application(&args(&["--version"]), VERSION, discovered, queried);
    assert_eq!(code, ExitStatus::Success);
    assert!(stdout.contains(VERSION));
    assert!(stderr.is_empty());

    let (code, stdout, stderr) = application(
        &args(&["--device", "/dev/hidraw3"]),
        VERSION,
        discovered,
        queried,
    );
    assert_eq!(code, ExitStatus::Success);
    assert!(stdout.contains("Sony INZONE Buds"));
    assert!(stderr.is_empty());

    let (code, stdout, stderr) = application(
        &vec![],
        VERSION,
        || Err(Error::DeviceNotFound),
        queried,
    );
    assert_eq!(code, ExitStatus::Failure);
    assert!(stdout.is_empty());
    assert!(stderr.starts_with("error:"));

    let (code, stdout, stderr) = application(&args(&["bad"]), VERSION, discovered, queried);
    assert_eq!(code, ExitStatus::Failure);
    assert!(stdout.is_empty());
    assert!(stderr.contains("unknown option"));
}

#[test]
fn escapes_every_json_character_class() {
    assert_eq!(
        json_escape("\"\\\n\r\t\u{0008}é"),
        "\\\"\\\\\\n\\r\\t\\u0008é"
    );
    let mut transactions = Transactions::new();
    let query = query_battery(b"/tmp/hidraw3", default_timeout(), &mut transactions);
    assert!(matches!(query.finish(), Ok(Err(_))));
}

#[test]
fn binary_entrypoint_covers_success_and_failure() {
    let (status, stdout, _) = application(&args(&["--help"]), VERSION, discovered, queried);
    assert_eq!(status, ExitStatus::Success);
    assert!(stdout.contains("Usage:"));

    let (status, _, stderr) = application(&args(&["--invalid"]), VERSION, discovered, queried);
    assert_eq!(status, ExitStatus::Failure);
    assert!(stderr.contains("unknown option"));

    let refused = |path: &[u8]| {
        let mut transactions = Transactions::new();
        match query_battery(path, default_timeout(), &mut transactions).finish() {
            Ok(outcome) => outcome,
            Err(_) => panic!("not refused"),
        }
    };
    let (status, _, stderr) = application(
        &args(&["--device", "/tmp/inzone-buds-coverage-no-device"]),
        VERSION,
        discovered,
        refused,
    );
    assert_eq!(status, ExitStatus::Failure);
    assert!(stderr.contains("unverified device"));
}

#[test]
fn whole_output_is_exact() {
    let run = |arguments: &[&str]| application(&args(arguments), VERSION, discovered, queried);
    assert_eq!(
        run(&["--raw"]),
        (
            ExitStatus::Success,
            "Sony INZONE Buds (/dev/hidraw3)\nLeft:  54% (discharging)\nRight: 56% (charging)\n\
             Case:  unknown (unavailable)\n"
                .to_string(),
            "raw: 02 12 ab\n".to_string()
        )
    );
    assert_eq!(
        run(&["--json"]),
        (
            ExitStatus::Success,
            format!("{}\n", reading_json("/dev/hidraw3", reading())),
            String::new()
        )
    );
    assert_eq!(
        run(&["-V"]),
        (
            ExitStatus::Success,
            "inzone-buds 0.1.0\n".to_string(),
            String::new()
        )
    );
    assert_eq!(
        run(&["--json", "x"]),
        (
            ExitStatus::Failure,
            String::new(),
            format!("error: unknown option: x\n\n{HELP}\n")
        )
    );
    assert_eq!(
        run(&["--device"]),
        (
            ExitStatus::Failure,
            String::new(),
            "error: --device requires a path\n".to_string()
        )
    );
    assert_eq!(
        application(&vec![], VERSION, discovered, timed_out),
        (
            ExitStatus::Failure,
            String::new(),
            "error: no battery response within 3 seconds\n".to_string()
        )
    );
}

#[test]
fn arguments_that_are_no_text_are_refused_unless_they_are_paths() {
    let error = parse_args_from(&vec![b"--json".to_vec(), vec![b'-', 0xff]]).unwrap_err();
    assert_eq!(error, "arguments must be valid UTF-8");
    let arguments = vec![b"--device".to_vec(), vec![b'/', 0xff]];
    match parse_args_from(&arguments) {
        Ok(Command::Query(options)) => assert_eq!(options.device, Some(vec![b'/', 0xff])),
        _ => panic!("refused"),
    }
    let (_, stdout, _) = application(&arguments, VERSION, discovered, queried);
    assert!(stdout.starts_with("Sony INZONE Buds (/\u{fffd})\n"));
}

#[test]
fn first_deciding_argument_wins_and_last_device_counts() {
    assert!(matches!(
        parse_args_from(&args(&["--json", "--help", "--version", "bad"])),
        Ok(Command::Help)
    ));
    assert!(matches!(
        parse_args_from(&args(&["--device", "--help", "-V"])),
        Ok(Command::Version)
    ));
    match parse_args_from(&args(&["--device", "a", "--device", "b"])) {
        Ok(Command::Query(options)) => assert_eq!(options.device, Some(b"b".to_vec())),
        _ => panic!("refused"),
    }
}

#[test]
fn named_device_is_queried_without_discovery() {
    let (status, stdout, _) = application(
        &args(&["--device", "/dev/hidraw8"]),
        VERSION,
        || panic!("discovery"),
        |device: &[u8]| {
            assert_eq!(device, b"/dev/hidraw8");
            Ok(result())
        },
    );
    assert_eq!(status, ExitStatus::Success);
    assert!(stdout.starts_with("Sony INZONE Buds (/dev/hidraw8)\n"));
    for (argument, expected) in [
        ("--help", ExitStatus::Success),
        ("--version", ExitStatus::Success),
        ("bad", ExitStatus::Failure),
    ] {
        let (status, _, _) = application(
            &args(&[argument]),
            VERSION,
            || panic!("discovery"),
            |_: &[u8]| panic!("query"),
        );
        assert_eq!(status, expected);
    }
    let (status, _, stderr) = application(
        &vec![],
        VERSION,
        || Err(Error::DeviceNotFound),
        |_: &[u8]| panic!("query"),
    );
    assert_eq!(status, ExitStatus::Failure);
    assert_eq!(
        stderr,
        "error: Sony INZONE Buds receiver 054c:0ec2 was not found\n"
    );
}

#[test]
fn raw_response_changes_nothing_on_standard_output() {
    for json in [false, true] {
        let with = |raw: bool| {
            let options = Options {
                device: None,
                json,
                raw,
            };
            show_result(&options, "/dev/hidraw3", &result())
        };
        assert_eq!(with(false).0, with(true).0);
        assert_eq!(with(false).1, "");
    }
    let options = Options {
        device: None,
        json: false,
        raw: true,
    };
    let empty = QueryResult {
        reading: reading(),
        raw_response: vec![],
    };
    assert_eq!(show_result(&options, "x", &empty).1, "raw:\n");
    assert_eq!(
        show_outcome(&options, b"x", Ok(empty)).unwrap().0,
        reading_text("x", reading())
    );
}

#[test]
fn json_stands_on_one_line_whatever_the_device() {
    let device: String = (0..=0x2ff).filter_map(char::from_u32).collect();
    let text = reading_json(&device, reading());
    assert!(!text.chars().any(|character| character.is_control()));
    assert_eq!(json_escape("\u{0}\u{1f}\u{7f}\u{80}\u{9f}"), "\\u0000\\u001f\\u007f\\u0080\\u009f");
    assert_eq!(json_escape("/\u{a0}\u{2028}😀"), "/\u{a0}\u{2028}😀");
    assert_eq!(json_escape(""), "");
}

#[test]
fn cells_become_json_objects() {
    assert_eq!(
        cell_json(BatteryCell::from_bytes(0xff, 100)),
        r#"{"percent":100,"state":"unavailable"}"#
    );
    assert_eq!(
        cell_json(BatteryCell::from_bytes(7, 200)),
        r#"{"percent":null,"state":"unknown"}"#
    );
}
