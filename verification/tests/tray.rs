use std::sync::mpsc;

use inzone_buds::battery::{BatteryCell, BatteryReading, BatteryState};
use inzone_buds::clock::Duration;
use inzone_buds::error::Error;
use inzone_buds::lookup::{configured_device_with, read_batteries_with, reading_of_query};
use inzone_buds::query::QueryResult;
use inzone_buds::tray::{
    auto_refresh_interval, dimmed_icon, hover_refresh_cooldown, information_item,
    quit_check_interval, short_cell, InzoneTray, MenuAction, MenuEntry, ReadingStatus,
    RefreshActivity, ToolTip, TrayCategory, TrayStatus, HEADPHONES_MASK,
};
use inzone_buds::worker::{
    finish_refresh, wait_for_refresh, wait_until_quit, QuitEvent, QuitPhase, RefreshEvent,
    RefreshLoop, RefreshPhase, Wakeup,
};

fn reading() -> BatteryReading {
    BatteryReading {
        left: BatteryCell {
            percent: Some(40),
            state: BatteryState::Discharging,
        },
        right: BatteryCell {
            percent: Some(50),
            state: BatteryState::Charging,
        },
        case: BatteryCell {
            percent: None,
            state: BatteryState::Unavailable,
        },
    }
}

fn tray(status: ReadingStatus) -> InzoneTray {
    InzoneTray { status }
}

fn label(entry: &MenuEntry) -> Option<&str> {
    match entry {
        MenuEntry::Information { label } => Some(label),
        MenuEntry::Separator => None,
        MenuEntry::Action { label, .. } => Some(label),
    }
}

fn action(entry: &MenuEntry) -> (bool, MenuAction) {
    match entry {
        MenuEntry::Action {
            enabled, action, ..
        } => (*enabled, *action),
        _ => panic!("no action"),
    }
}

fn query_error(_: &[u8]) -> Result<QueryResult, Error> {
    Err(Error::Timeout(Duration::from_secs(1)))
}

fn discovered() -> Result<Vec<u8>, Error> {
    Ok(b"/dev/hidraw3".to_vec())
}

fn woken(outcome: Result<(), mpsc::RecvTimeoutError>) -> Wakeup {
    match outcome {
        Ok(()) => Wakeup::Message,
        Err(mpsc::RecvTimeoutError::Timeout) => Wakeup::Timeout,
        Err(mpsc::RecvTimeoutError::Disconnected) => Wakeup::Disconnected,
    }
}

fn wait(receiver: &mpsc::Receiver<()>, millis: u64) -> Wakeup {
    woken(receiver.recv_timeout(std::time::Duration::from_millis(millis)))
}

/// Asks for a refresh as a user does.
fn begin(tray: &mut InzoneTray, sender: &mpsc::SyncSender<()>) {
    let now = Duration::from_secs(0);
    let mut activity = RefreshActivity { at: now };
    tray.begin_refresh(&mut activity, now, || sender.try_send(()).ok().map(|()| now));
}

/// The tooltip of a tray that has just been active.
fn tool_tip(tray: &InzoneTray) -> ToolTip {
    let now = Duration::from_secs(0);
    let mut activity = RefreshActivity { at: now };
    tray.tool_tip(&mut activity, now, || panic!("sent"))
}

#[test]
fn refreshes_for_manual_requests_and_timer_expiry() {
    let (sender, receiver) = mpsc::sync_channel(1);
    sender.try_send(()).unwrap();
    assert!(wait_for_refresh(wait(&receiver, 1000)));
    assert!(wait_for_refresh(wait(&receiver, 0)));
}

#[test]
fn stops_refreshing_when_all_senders_are_gone() {
    let (sender, receiver) = mpsc::sync_channel(1);
    drop(sender);
    assert!(!wait_for_refresh(wait(&receiver, 0)));
}

#[test]
fn exposes_every_tray_state_and_property() {
    let loading = tray(ReadingStatus::Loading);
    assert_eq!(loading.summary(), "Reading battery status…");
    assert_eq!(loading.id(), "inzone-buds-linux");
    assert!(matches!(loading.category(), TrayCategory::Hardware));
    assert_eq!(loading.title(), "Sony INZONE Buds");
    assert!(matches!(loading.status(), TrayStatus::Active));
    assert_eq!(loading.icon_name(), "audio-headphones-symbolic");
    assert_eq!(loading.attention_icon_name(), "dialog-warning-symbolic");
    let tooltip = tool_tip(&loading);
    assert_eq!(tooltip.title, "Sony INZONE Buds");
    assert_eq!(tooltip.description, "Reading battery status…");
    assert_eq!(loading.menu().len(), 4);

    let ready = tray(ReadingStatus::Ready(reading()));
    assert_eq!(ready.summary(), "Left 40% · Right 50% · Case unknown");
    assert!(matches!(ready.status(), TrayStatus::Active));
    let menu = ready.menu();
    assert_eq!(menu.len(), 6);
    assert_eq!(label(&menu[0]).unwrap(), "Left:  40% (discharging)");

    let failed = tray(ReadingStatus::Error("offline".into()));
    assert_eq!(failed.summary(), "offline");
    assert!(matches!(failed.status(), TrayStatus::NeedsAttention));
    assert_eq!(label(&failed.menu()[0]).unwrap(), "Unavailable: offline");
    assert!(label(&MenuEntry::Separator).is_none());
    assert_eq!(
        short_cell(BatteryCell {
            percent: None,
            state: BatteryState::Unavailable
        }),
        "unknown"
    );
}

#[test]
fn menu_callbacks_coalesce_refresh_and_quit() {
    let (refresh_sender, refresh_receiver) = mpsc::sync_channel(1);
    let mut ready = tray(ReadingStatus::Ready(reading()));
    assert_eq!(action(&ready.menu()[4]), (true, MenuAction::Refresh));
    begin(&mut ready, &refresh_sender);
    assert!(matches!(ready.status, ReadingStatus::Loading));
    refresh_receiver.try_recv().unwrap();

    assert_eq!(action(&ready.menu()[2]), (false, MenuAction::Refresh));
    begin(&mut ready, &refresh_sender);
    assert!(refresh_receiver.try_recv().is_err());

    ready.status = ReadingStatus::Ready(reading());
    refresh_sender.try_send(()).unwrap();
    begin(&mut ready, &refresh_sender);
    assert!(matches!(ready.status, ReadingStatus::Ready(_)));
    refresh_receiver.try_recv().unwrap();

    assert_eq!(action(&ready.menu()[5]), (true, MenuAction::Quit));
}

#[test]
fn reads_batteries_through_both_error_boundaries() {
    let expected = reading();
    let actual = read_batteries_with(Ok(b"/dev/hidraw3".to_vec()), |_: &[u8]| {
        Ok(QueryResult {
            reading: expected,
            raw_response: vec![],
        })
    })
    .unwrap();
    assert_eq!(actual, expected);
    assert!(read_batteries_with(Err(Error::DeviceNotFound), query_error).is_err());
    assert!(read_batteries_with(Ok(b"/dev/hidraw3".to_vec()), query_error).is_err());
}

/// Runs the worker over a channel.
fn run_refresh_loop(
    receiver: &mpsc::Receiver<()>,
    millis: u64,
    mut read: impl FnMut() -> Result<BatteryReading, String>,
    mut update: impl FnMut(ReadingStatus) -> bool,
) {
    let mut worker = RefreshLoop::new();
    loop {
        let event = match worker.phase() {
            RefreshPhase::Read => RefreshEvent::Read(read()),
            RefreshPhase::Update(status) => RefreshEvent::Updated(update(status.clone())),
            RefreshPhase::Wait => RefreshEvent::Woken(wait(receiver, millis)),
            RefreshPhase::Stopped => break,
        };
        worker = worker.advance(event);
    }
}

#[test]
fn refresh_worker_maps_success_error_timer_and_shutdown() {
    let (sender, receiver) = mpsc::channel();
    sender.send(()).unwrap();
    drop(sender);
    let mut reads = 0;
    let mut states = Vec::new();
    let read = || {
        reads += 1;
        if reads == 1 {
            Ok(reading())
        } else {
            Err("offline".into())
        }
    };
    let update = |status| {
        states.push(status);
        true
    };
    run_refresh_loop(&receiver, 1000, read, update);
    assert_eq!(states.len(), 2);
    assert!(matches!(states[0], ReadingStatus::Ready(_)));
    assert!(matches!(states[1], ReadingStatus::Error(_)));

    let (_sender, receiver) = mpsc::channel();
    run_refresh_loop(&receiver, 0, || Ok(reading()), |_| false);
}

#[test]
fn refresh_completion_signals_only_after_a_successful_update() {
    let (sender, receiver) = mpsc::channel();
    let finish = |updated: bool, exit_after_refresh: bool| {
        let finished = finish_refresh(updated, exit_after_refresh);
        if finished.quit {
            sender.send(()).unwrap();
        }
        finished.updated
    };
    assert!(finish(true, true));
    receiver.try_recv().unwrap();

    assert!(finish(true, false));
    assert!(receiver.try_recv().is_err());

    assert!(!finish(false, true));
    assert!(receiver.try_recv().is_err());
}

/// Waits for the wish to quit over a channel.
fn wait_over(receiver: &mpsc::Receiver<()>, millis: u64, mut is_closed: impl FnMut() -> bool) {
    let mut phase = QuitPhase::Check;
    loop {
        let event = match phase {
            QuitPhase::Check => QuitEvent::Checked(is_closed()),
            QuitPhase::Wait => QuitEvent::Woken(wait(receiver, millis)),
            QuitPhase::Quit => break,
        };
        phase = wait_until_quit(phase, event);
    }
}

#[test]
fn quit_wait_handles_message_disconnect_and_both_timeout_states() {
    let (sender, receiver) = mpsc::channel();
    sender.send(()).unwrap();
    wait_over(&receiver, 1000, || false);

    let (sender, receiver) = mpsc::channel::<()>();
    drop(sender);
    wait_over(&receiver, 1000, || false);

    let (_sender, receiver) = mpsc::channel::<()>();
    let mut checks = 0;
    wait_over(&receiver, 0, || {
        checks += 1;
        checks == 2
    });
    assert_eq!(checks, 2);

    let (_sender, receiver) = mpsc::channel::<()>();
    wait_over(&receiver, 0, || true);
}

#[test]
fn configured_device_covers_override_and_discovery() {
    assert_eq!(
        configured_device_with(Some(b"/dev/hidraw4".to_vec()), discovered).unwrap(),
        b"/dev/hidraw4"
    );
    assert_eq!(
        configured_device_with(None, discovered).unwrap(),
        b"/dev/hidraw3"
    );
}

#[test]
fn readings_keep_the_message_of_what_went_wrong() {
    assert_eq!(
        read_batteries_with(Err(Error::DeviceNotFound), |_: &[u8]| panic!("queried")).unwrap_err(),
        "Sony INZONE Buds receiver 054c:0ec2 was not found"
    );
    assert_eq!(
        reading_of_query(query_error(b"/dev/hidraw3")).unwrap_err(),
        "no battery response within 1 seconds"
    );
    assert!(configured_device_with(None, || Err(Error::DeviceNotFound)).is_err());
    assert!(configured_device_with(Some(vec![]), || panic!("discovery")).is_ok());
}

#[test]
fn intervals_are_a_minute_and_a_second() {
    assert_eq!(auto_refresh_interval(), Duration::from_secs(60));
    assert_eq!(hover_refresh_cooldown(), Duration::from_secs(1));
    assert_eq!(quit_check_interval(), Duration::from_secs(1));
}

#[test]
fn looks_wait_for_the_cooldown_and_clicks_do_not() {
    let ready = tray(ReadingStatus::Ready(reading()));
    let loading = InzoneTray::new();
    let mut activity = RefreshActivity {
        at: Duration::from_secs(5),
    };
    let look = |tray: &InzoneTray, activity: &RefreshActivity, millis: u64| {
        tray.offers_refresh(
            hover_refresh_cooldown(),
            activity,
            Duration::from_millis(millis),
        )
    };
    assert!(!look(&ready, &activity, 4000));
    assert!(!look(&ready, &activity, 5999));
    assert!(look(&ready, &activity, 6000));
    assert!(!look(&loading, &activity, 9000));

    assert!(!activity.offered(None));
    assert_eq!(activity.at, Duration::from_secs(5));
    assert!(activity.offered(Some(Duration::from_secs(6))));
    assert_eq!(activity.at, Duration::from_secs(6));
    assert!(!look(&ready, &activity, 6999));
    activity.finished(Duration::from_secs(7));
    assert!(!look(&ready, &activity, 7999));
    assert!(look(&ready, &activity, 8000));

    assert!(ready.offers_refresh(Duration::from_secs(0), &activity, Duration::from_secs(7)));
    assert!(!loading.offers_refresh(Duration::from_secs(0), &activity, Duration::from_secs(99)));
    assert_eq!(activity.elapsed(Duration::from_secs(10)), Duration::from_secs(3));
    assert_eq!(activity.elapsed(Duration::from_secs(1)), Duration::from_secs(0));
}

#[test]
fn nothing_is_sent_where_nothing_is_offered() {
    let at = Duration::from_secs(5);
    let mut activity = RefreshActivity { at };
    let ready = tray(ReadingStatus::Ready(reading()));
    let mut loading = InzoneTray::new();

    loading.begin_refresh(&mut activity, Duration::from_secs(99), || panic!("sent"));
    assert!(matches!(loading.status, ReadingStatus::Loading));
    loading.tool_tip(&mut activity, Duration::from_secs(99), || panic!("sent"));
    ready.tool_tip(&mut activity, Duration::from_millis(5999), || panic!("sent"));
    assert!(!ready.request_refresh(
        Duration::from_secs(3),
        &mut activity,
        Duration::from_secs(7),
        || panic!("sent")
    ));
    assert_eq!(activity.at, at);
}

#[test]
fn requests_are_noted_when_the_worker_takes_them() {
    let (sender, receiver) = mpsc::sync_channel(1);
    let send = |at: u64| sender.try_send(()).ok().map(|()| Duration::from_secs(at));
    let mut activity = RefreshActivity {
        at: Duration::from_secs(0),
    };
    let mut ready = tray(ReadingStatus::Ready(reading()));

    ready.tool_tip(&mut activity, Duration::from_secs(1), || send(2));
    assert_eq!(activity.at, Duration::from_secs(2));
    assert!(matches!(ready.status, ReadingStatus::Ready(_)));

    ready.tool_tip(&mut activity, Duration::from_secs(3), || send(4));
    ready.begin_refresh(&mut activity, Duration::from_secs(3), || send(4));
    assert_eq!(activity.at, Duration::from_secs(2));
    assert!(matches!(ready.status, ReadingStatus::Ready(_)));

    receiver.try_recv().unwrap();
    assert!(receiver.try_recv().is_err());
    ready.begin_refresh(&mut activity, Duration::from_secs(2), || send(5));
    assert_eq!(activity.at, Duration::from_secs(5));
    assert!(matches!(ready.status, ReadingStatus::Loading));

    receiver.try_recv().unwrap();
    drop(receiver);
    ready.status = ReadingStatus::Error("offline".into());
    ready.begin_refresh(&mut activity, Duration::from_secs(9), || send(9));
    assert_eq!(activity.at, Duration::from_secs(5));
    assert!(matches!(ready.status, ReadingStatus::Error(_)));
}

#[test]
fn menus_are_exact() {
    let shown = |status: ReadingStatus| format!("{:?}", tray(status).menu());
    let below = |enabled: bool| {
        format!(
            "Separator, Action {{ label: \"Refresh\", icon_name: \"view-refresh-symbolic\", \
             enabled: {enabled}, action: Refresh }}, Action {{ label: \"Quit\", icon_name: \
             \"application-exit-symbolic\", enabled: true, action: Quit }}]"
        )
    };
    assert_eq!(
        shown(ReadingStatus::Loading),
        format!(
            "[Information {{ label: \"Reading battery status…\" }}, {}",
            below(false)
        )
    );
    assert_eq!(
        shown(ReadingStatus::Ready(reading())),
        format!(
            "[Information {{ label: \"Left:  40% (discharging)\" }}, Information {{ label: \
             \"Right: 50% (charging)\" }}, Information {{ label: \"Case:  unknown \
             (unavailable)\" }}, {}",
            below(true)
        )
    );
    assert_eq!(
        shown(ReadingStatus::Error("offline".into())),
        format!(
            "[Information {{ label: \"Unavailable: offline\" }}, {}",
            below(true)
        )
    );
    assert_eq!(label(&information_item("x".into())), Some("x"));
}

#[test]
fn failed_readings_dim_the_icon() {
    let failed = tray(ReadingStatus::Error("offline".into()));
    assert_eq!(failed.icon_name(), "");
    assert_eq!(tool_tip(&failed).icon_name, "");
    let icons = failed.icon_pixmap();
    assert_eq!(icons.len(), 1);
    assert_eq!(icons[0].data, dimmed_icon().data);
    assert!(tray(ReadingStatus::Loading).icon_pixmap().is_empty());
    assert!(tray(ReadingStatus::Ready(reading())).icon_pixmap().is_empty());
}

#[test]
fn icon_is_drawn_from_its_mask() {
    let icon = dimmed_icon();
    assert_eq!((icon.width, icon.height), (22, 22));
    assert_eq!(icon.data.len(), 22 * 22 * 4);
    assert_eq!(HEADPHONES_MASK.len(), 22 * 22);
    for (pixel, bytes) in HEADPHONES_MASK.chars().zip(icon.data.chunks(4)) {
        if pixel == '#' {
            assert_eq!(bytes, [102, 255, 255, 255]);
        } else {
            assert_eq!(bytes, [0, 0, 0, 0]);
        }
    }
    assert_eq!(icon.data[(2 * 22 + 8) * 4], 102);
    assert_eq!(icon.data[(2 * 22 + 7) * 4], 0);
}

#[test]
fn worker_passes_over_stray_events() {
    let worker = RefreshLoop::new();
    let worker = worker.advance(RefreshEvent::Updated(false));
    assert!(matches!(worker.phase(), RefreshPhase::Read));
    let worker = worker.advance(RefreshEvent::Woken(Wakeup::Disconnected));
    assert!(matches!(worker.phase(), RefreshPhase::Read));
    let worker = worker.advance(RefreshEvent::Read(Err("offline".into())));
    match worker.phase() {
        RefreshPhase::Update(ReadingStatus::Error(message)) => assert_eq!(message, "offline"),
        _ => panic!("no update"),
    }
    let worker = worker.advance(RefreshEvent::Read(Ok(reading())));
    assert!(matches!(
        worker.phase(),
        RefreshPhase::Update(ReadingStatus::Error(_))
    ));
    let worker = worker.advance(RefreshEvent::Updated(true));
    assert!(matches!(worker.phase(), RefreshPhase::Wait));
    let worker = worker.advance(RefreshEvent::Woken(Wakeup::Timeout));
    assert!(matches!(worker.phase(), RefreshPhase::Read));
    let worker = worker.advance(RefreshEvent::Read(Ok(reading())));
    let worker = worker.advance(RefreshEvent::Updated(false));
    let worker = worker.advance(RefreshEvent::Read(Ok(reading())));
    assert!(matches!(worker.phase(), RefreshPhase::Stopped));
}

#[test]
fn quitting_takes_a_reason() {
    let waiting = wait_until_quit(QuitPhase::Check, QuitEvent::Checked(false));
    assert_eq!(waiting, QuitPhase::Wait);
    assert_eq!(
        wait_until_quit(waiting, QuitEvent::Woken(Wakeup::Timeout)),
        QuitPhase::Check
    );
    assert_eq!(
        wait_until_quit(waiting, QuitEvent::Checked(true)),
        QuitPhase::Wait
    );
    assert_eq!(
        wait_until_quit(waiting, QuitEvent::Woken(Wakeup::Disconnected)),
        QuitPhase::Quit
    );
    assert_eq!(
        wait_until_quit(QuitPhase::Check, QuitEvent::Checked(true)),
        QuitPhase::Quit
    );
    assert_eq!(
        wait_until_quit(QuitPhase::Quit, QuitEvent::Checked(false)),
        QuitPhase::Quit
    );
}
