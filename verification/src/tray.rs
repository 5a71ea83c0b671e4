//! What the tray icon shows, and when it asks for a refresh.

use vstd::prelude::*;

use crate::battery::{BatteryCell, BatteryReading};
use crate::clock::Duration;
use crate::text::{chars_of, decimal, push_decimal};

verus! {

/// How long the tray waits before it refreshes by itself, in nanoseconds.
pub const AUTO_REFRESH_INTERVAL: u128 = 60_000_000_000;

/// How old the last activity must be before looking at the tray asks for a refresh, in
/// nanoseconds.
pub const HOVER_REFRESH_COOLDOWN: u128 = 1_000_000_000;

/// How long the tray waits for the wish to quit before it looks whether it was closed,
/// in nanoseconds.
pub const QUIT_CHECK_INTERVAL: u128 = 1_000_000_000;

pub const DIMMED_ICON_SIZE: i32 = 22;

pub const DIMMED_ICON_OPACITY: u8 = 102;

/// The pixels of the icon row by row: `#` where it is drawn.
pub const HEADPHONES_MASK: &'static str = "\
......................\
......................\
........######........\
......##########......\
.....###......###.....\
....##..........##....\
...##............##...\
...##............##...\
..##..............##..\
..##..............##..\
.####............####.\
.####............####.\
.####............####.\
.####............####.\
.####............####.\
..###............###..\
...##............##...\
......................\
......................\
......................\
......................\
......................";

/// How long the tray waits before it refreshes by itself.
pub fn auto_refresh_interval() -> (interval: Duration)
    ensures
        interval.nanos == AUTO_REFRESH_INTERVAL,
{
    Duration { nanos: AUTO_REFRESH_INTERVAL }
}

/// How old the last activity must be before looking at the tray asks for a refresh.
pub fn hover_refresh_cooldown() -> (cooldown: Duration)
    ensures
        cooldown == self::cooldown(),
{
    Duration { nanos: HOVER_REFRESH_COOLDOWN }
}

/// How long the tray waits for the wish to quit before it looks whether it was closed.
pub fn quit_check_interval() -> (interval: Duration)
    ensures
        interval.nanos == QUIT_CHECK_INTERVAL,
{
    Duration { nanos: QUIT_CHECK_INTERVAL }
}

/// How old the last activity must be for a user to ask for a refresh: no age at all.
pub open spec fn no_wait() -> Duration {
    Duration { nanos: 0 }
}

/// How old the last activity must be for a look at the tray to ask for a refresh.
pub open spec fn cooldown() -> Duration {
    Duration { nanos: HOVER_REFRESH_COOLDOWN }
}

/// What is known of the batteries.
#[derive(Debug)]
pub enum ReadingStatus {
    Loading,
    Ready(BatteryReading),
    Error(String),
}

/// The contents of a [`ReadingStatus`].
pub enum ReadingStatusView {
    Loading,
    Ready(BatteryReading),
    Error(Seq<char>),
}

impl View for ReadingStatus {
    type V = ReadingStatusView;

    open spec fn view(&self) -> ReadingStatusView {
        match self {
            ReadingStatus::Loading => ReadingStatusView::Loading,
            ReadingStatus::Ready(reading) => ReadingStatusView::Ready(*reading),
            ReadingStatus::Error(error) => ReadingStatusView::Error(error@),
        }
    }
}

impl Clone for ReadingStatus {
    fn clone(&self) -> (status: Self)
        ensures
            status@ == self@,
    {
        match self {
            ReadingStatus::Loading => ReadingStatus::Loading,
            ReadingStatus::Ready(reading) => ReadingStatus::Ready(*reading),
            ReadingStatus::Error(error) => ReadingStatus::Error(error.as_str().to_owned()),
        }
    }
}

/// When a refresh was last asked for or finished, by a clock that never runs back.
#[derive(Clone, Copy, Debug, PartialEq, Eq, Structural)]
pub struct RefreshActivity {
    pub at: Duration,
}

impl RefreshActivity {
    /// How long ago the activity was: no time at all where the clock does not yet show it.
    pub open spec fn age(self, now: Duration) -> nat {
        if now.nanos >= self.at.nanos {
            (now.nanos - self.at.nanos) as nat
        } else {
            0
        }
    }

    /// How long ago the activity was.
    pub fn elapsed(&self, now: Duration) -> (age: Duration)
        ensures
            age.nanos == self.age(now),
    {
        match now.checked_sub(self.at) {
            Some(age) => age,
            None => Duration { nanos: 0 },
        }
    }

    /// The last activity once a refresh was offered to the worker: only an offer that the
    /// worker took is an activity, at the time at which it took it.
    pub open spec fn noting(self, taken: Option<Duration>) -> Self {
        match taken {
            Some(at) => RefreshActivity { at },
            None => self,
        }
    }

    /// Takes note of an offer of a refresh to the worker, given the time at which the
    /// worker took it, if it did. Returns whether it did.
    pub fn offered(&mut self, taken: Option<Duration>) -> (requested: bool)
        ensures
            requested == (taken is Some),
            *final(self) == old(self).noting(taken),
    {
        match taken {
            Some(at) => {
                self.at = at;
                true
            },
            None => false,
        }
    }

    /// Takes note that a refresh was finished.
    pub fn finished(&mut self, now: Duration)
        ensures
            *final(self) == (RefreshActivity { at: now }),
    {
        self.at = now;
    }
}

/// Whether the tray host shows the icon, and how.
#[derive(Clone, Copy, Debug, PartialEq, Eq, Structural)]
pub enum TrayStatus {
    Passive,
    Active,
    NeedsAttention,
}

/// The kind of item that the icon stands for.
#[derive(Clone, Copy, Debug, PartialEq, Eq, Structural)]
pub enum TrayCategory {
    ApplicationStatus,
    Communications,
    SystemServices,
    Hardware,
}

/// What choosing a menu entry does.
#[derive(Clone, Copy, Debug, PartialEq, Eq, Structural)]
pub enum MenuAction {
    Refresh,
    Quit,
}

/// An entry of the menu.
#[derive(Debug)]
pub enum MenuEntry {
    /// Text that cannot be chosen.
    Information { label: String },
    Separator,
    Action { label: String, icon_name: String, enabled: bool, action: MenuAction },
}

/// The contents of a [`MenuEntry`].
pub enum MenuEntryView {
    Information { label: Seq<char> },
    Separator,
    Action { label: Seq<char>, icon_name: Seq<char>, enabled: bool, action: MenuAction },
}

impl View for MenuEntry {
    type V = MenuEntryView;

    open spec fn view(&self) -> MenuEntryView {
        match self {
            MenuEntry::Information { label } => MenuEntryView::Information { label: label@ },
            MenuEntry::Separator => MenuEntryView::Separator,
            MenuEntry::Action { label, icon_name, enabled, action } => MenuEntryView::Action {
                label: label@,
                icon_name: icon_name@,
                enabled: *enabled,
                action: *action,
            },
        }
    }
}

/// The contents of menu entries.
pub open spec fn entry_views(entries: Seq<MenuEntry>) -> Seq<MenuEntryView> {
    Seq::new(entries.len(), |i: int| entries[i]@)
}

/// What the tray host shows beside the icon.
#[derive(Debug)]
pub struct ToolTip {
    pub icon_name: String,
    pub title: String,
    pub description: String,
}

/// An icon in pixels of four bytes each: opacity, red, green and blue.
#[derive(Debug)]
pub struct Icon {
    pub width: i32,
    pub height: i32,
    pub data: Vec<u8>,
}

/// A cell in short.
pub open spec fn short_cell_text(cell: BatteryCell) -> Seq<char> {
    match cell.percent {
        Some(percent) => decimal(percent as nat) + "%"@,
        None => "unknown"@,
    }
}

/// A cell in short.
pub fn short_cell(cell: BatteryCell) -> (text: String)
    ensures
        text@ == short_cell_text(cell),
{
    match cell.percent {
        Some(percent) => {
            let mut out = String::new();
            push_decimal(&mut out, percent as u128);
            out.append("%");
            assert(out@ =~= decimal(percent as nat) + "%"@);
            out
        },
        None => "unknown".to_owned(),
    }
}

/// A menu entry that only tells something.
pub fn information_item(label: String) -> (entry: MenuEntry)
    ensures
        entry@ == (MenuEntryView::Information { label: label@ }),
{
    MenuEntry::Information { label }
}

/// A byte of a pixel: white at reduced opacity where the mask is drawn, and nothing
/// elsewhere.
pub open spec fn dimmed_byte(pixel: char, place: int) -> u8 {
    if pixel != '#' {
        0
    } else if place == 0 {
        DIMMED_ICON_OPACITY
    } else {
        u8::MAX
    }
}

/// The dimmed pixels of a mask.
pub open spec fn dimmed_pixels(mask: Seq<char>) -> Seq<u8> {
    Seq::new(mask.len() * 4, |i: int| dimmed_byte(mask[i / 4], i % 4))
}

/// The dimmed icon.
pub fn dimmed_icon() -> (icon: Icon)
    ensures
        icon.width == DIMMED_ICON_SIZE,
        icon.height == DIMMED_ICON_SIZE,
        icon.data@ == dimmed_pixels(HEADPHONES_MASK@),
{
    let mask = chars_of(HEADPHONES_MASK);
    let mut data: Vec<u8> = Vec::new();
    for i in 0..mask.len()
        invariant
            mask@ == HEADPHONES_MASK@,
            data@ == dimmed_pixels(mask@.take(i as int)),
    {
        let drawn: bool = mask[i] == '#';
        let opacity: u8 = if drawn { DIMMED_ICON_OPACITY } else { 0 };
        let shade: u8 = if drawn { u8::MAX } else { 0 };
        data.push(opacity);
        data.push(shade);
        data.push(shade);
        data.push(shade);
        proof {
            let next = mask@.take(i + 1);
            assert forall|k: int| 0 <= k < data@.len() implies data@[k] == #[trigger] dimmed_pixels(
                next,
            )[k] by {
                if k < 4 * i {
                    assert(next[k / 4] == mask@.take(i as int)[k / 4]);
                    assert(dimmed_pixels(mask@.take(i as int))[k] == data@[k]);
                } else {
                    assert(k / 4 == i);
                }
            }
            assert(data@ =~= dimmed_pixels(next));
        }
    }
    assert(mask@.take(mask@.len() as int) =~= mask@);
    Icon { width: DIMMED_ICON_SIZE, height: DIMMED_ICON_SIZE, data }
}

/// The tray icon.
#[derive(Debug)]
pub struct InzoneTray {
    pub status: ReadingStatus,
}

impl View for InzoneTray {
    type V = ReadingStatusView;

    open spec fn view(&self) -> ReadingStatusView {
        self.status@
    }
}

impl ReadingStatusView {
    /// The batteries in one line.
    pub open spec fn summary(self) -> Seq<char> {
        match self {
            ReadingStatusView::Loading => "Reading battery status…"@,
            ReadingStatusView::Ready(reading) => "Left "@ + short_cell_text(reading.left)
                + " · Right "@ + short_cell_text(reading.right) + " · Case "@ + short_cell_text(
                reading.case,
            ),
            ReadingStatusView::Error(error) => error,
        }
    }

    /// The icon that the host has by name: none while the batteries cannot be read.
    pub open spec fn icon_name(self) -> Seq<char> {
        match self {
            ReadingStatusView::Error(_) => ""@,
            _ => "audio-headphones-symbolic"@,
        }
    }

    /// The entries of the menu that tell of the batteries.
    pub open spec fn information(self) -> Seq<MenuEntryView> {
        match self {
            ReadingStatusView::Loading => seq![
                MenuEntryView::Information { label: "Reading battery status…"@ },
            ],
            ReadingStatusView::Ready(reading) => seq![
                MenuEntryView::Information { label: "Left:  "@ + reading.left.text() },
                MenuEntryView::Information { label: "Right: "@ + reading.right.text() },
                MenuEntryView::Information { label: "Case:  "@ + reading.case.text() },
            ],
            ReadingStatusView::Error(error) => seq![
                MenuEntryView::Information { label: "Unavailable: "@ + error },
            ],
        }
    }

    /// The menu.
    pub open spec fn menu(self) -> Seq<MenuEntryView> {
        self.information() + seq![
            MenuEntryView::Separator,
            MenuEntryView::Action {
                label: "Refresh"@,
                icon_name: "view-refresh-symbolic"@,
                enabled: self !is Loading,
                action: MenuAction::Refresh,
            },
            MenuEntryView::Action {
                label: "Quit"@,
                icon_name: "application-exit-symbolic"@,
                enabled: true,
                action: MenuAction::Quit,
            },
        ]
    }

    /// Whether a refresh is to be offered to the worker.
    pub open spec fn offers_refresh(
        self,
        minimum_age: Duration,
        activity: RefreshActivity,
        now: Duration,
    ) -> bool {
        self !is Loading && activity.age(now) >= minimum_age.nanos
    }

    /// What is known once a refresh was offered on behalf of the user.
    pub open spec fn begun(self, requested: bool) -> Self {
        if requested {
            ReadingStatusView::Loading
        } else {
            self
        }
    }
}

/// Whether a request for a refresh may go like this: `send` is called only where a refresh
/// is offered, and what it gives decides whether there was a request and what the last
/// activity then is.
pub open spec fn is_request<S: FnOnce() -> Option<Duration>>(
    status: ReadingStatusView,
    minimum_age: Duration,
    before: RefreshActivity,
    now: Duration,
    send: S,
    requested: bool,
    after: RefreshActivity,
) -> bool {
    if status.offers_refresh(minimum_age, before, now) {
        exists|taken: Option<Duration>| #[trigger]
            call_ensures(send, (), taken) && requested == (taken is Some) && after
                == before.noting(taken)
    } else {
        !requested && after == before
    }
}

impl InzoneTray {
    /// A tray that knows nothing yet of the batteries.
    pub fn new() -> (tray: Self)
        ensures
            tray@ == ReadingStatusView::Loading,
    {
        InzoneTray { status: ReadingStatus::Loading }
    }

    /// The batteries in one line.
    pub fn summary(&self) -> (text: String)
        ensures
            text@ == self@.summary(),
    {
        match &self.status {
            ReadingStatus::Loading => "Reading battery status…".to_owned(),
            ReadingStatus::Ready(reading) => {
                let mut out = "Left ".to_owned();
                out.append(short_cell(reading.left).as_str());
                out.append(" · Right ");
                out.append(short_cell(reading.right).as_str());
                out.append(" · Case ");
                out.append(short_cell(reading.case).as_str());
                out
            },
            ReadingStatus::Error(error) => error.as_str().to_owned(),
        }
    }

    /// Whether a refresh is to be offered to the worker: not while one is awaited, and
    /// not before the last activity has reached the given age.
    pub fn offers_refresh(
        &self,
        minimum_age: Duration,
        activity: &RefreshActivity,
        now: Duration,
    ) -> (offer: bool)
        ensures
            offer == self@.offers_refresh(minimum_age, *activity, now),
    {
        match &self.status {
            ReadingStatus::Loading => false,
            _ => activity.elapsed(now).nanos >= minimum_age.nanos,
        }
    }

    /// Asks the worker for a refresh, where one is to be offered. `send` hands the request
    /// over and gives the time at which the worker took it, if it did; nothing is sent
    /// where nothing is to be offered. Returns whether the worker took a request.
    pub fn request_refresh<S: FnOnce() -> Option<Duration>>(
        &self,
        minimum_age: Duration,
        activity: &mut RefreshActivity,
        now: Duration,
        send: S,
    ) -> (requested: bool)
        requires
            self@.offers_refresh(minimum_age, *old(activity), now) ==> call_requires(send, ()),
        ensures
            is_request(
                self@,
                minimum_age,
                *old(activity),
                now,
                send,
                requested,
                *final(activity),
            ),
    {
        if self.offers_refresh(minimum_age, activity, now) {
            let taken = send();
            activity.offered(taken)
        } else {
            false
        }
    }

    /// Asks the worker for a refresh on behalf of the user, and waits for it where the
    /// worker took the request.
    pub fn begin_refresh<S: FnOnce() -> Option<Duration>>(
        &mut self,
        activity: &mut RefreshActivity,
        now: Duration,
        send: S,
    )
        requires
            old(self)@.offers_refresh(no_wait(), *old(activity), now) ==> call_requires(send, ()),
        ensures
            exists|requested: bool|
                #[trigger] is_request(
                    old(self)@,
                    no_wait(),
                    *old(activity),
                    now,
                    send,
                    requested,
                    *final(activity),
                ) && final(self)@ == old(self)@.begun(requested),
    {
        if self.request_refresh(Duration { nanos: 0 }, activity, now, send) {
            self.status = ReadingStatus::Loading;
        }
    }

    pub fn id(&self) -> (id: String)
        ensures
            id@ == "inzone-buds-linux"@,
    {
        "inzone-buds-linux".to_owned()
    }

    pub fn category(&self) -> (category: TrayCategory)
        ensures
            category == TrayCategory::Hardware,
    {
        TrayCategory::Hardware
    }

    pub fn title(&self) -> (title: String)
        ensures
            title@ == "Sony INZONE Buds"@,
    {
        "Sony INZONE Buds".to_owned()
    }

    /// The host is to draw attention to the icon while the batteries cannot be read.
    pub fn status(&self) -> (status: TrayStatus)
        ensures
            status == (if self@ is Error {
                TrayStatus::NeedsAttention
            } else {
                TrayStatus::Active
            }),
    {
        match &self.status {
            ReadingStatus::Error(_) => TrayStatus::NeedsAttention,
            _ => TrayStatus::Active,
        }
    }

    /// The icon that the host has by name: none while the batteries cannot be read.
    pub fn icon_name(&self) -> (name: String)
        ensures
            name@ == self@.icon_name(),
    {
        match &self.status {
            ReadingStatus::Error(_) => "".to_owned(),
            _ => "audio-headphones-symbolic".to_owned(),
        }
    }

    /// The icon in pixels, for the time in which the batteries cannot be read.
    pub fn icon_pixmap(&self) -> (icons: Vec<Icon>)
        ensures
            if self@ is Error {
                &&& icons@.len() == 1
                &&& icons@[0].width == DIMMED_ICON_SIZE
                &&& icons@[0].height == DIMMED_ICON_SIZE
                &&& icons@[0].data@ == dimmed_pixels(HEADPHONES_MASK@)
            } else {
                icons@.len() == 0
            },
    {
        let mut icons: Vec<Icon> = Vec::new();
        match &self.status {
            ReadingStatus::Error(_) => icons.push(dimmed_icon()),
            _ => {},
        }
        icons
    }

    pub fn attention_icon_name(&self) -> (name: String)
        ensures
            name@ == "dialog-warning-symbolic"@,
    {
        "dialog-warning-symbolic".to_owned()
    }

    /// What the tray host shows beside the icon. No event tells of a look at the tray, so
    /// fetching this is taken for one, and asks for a refresh once the last activity has
    /// reached the age of the cooldown.
    pub fn tool_tip<S: FnOnce() -> Option<Duration>>(
        &self,
        activity: &mut RefreshActivity,
        now: Duration,
        send: S,
    ) -> (tip: ToolTip)
        requires
            self@.offers_refresh(cooldown(), *old(activity), now) ==> call_requires(send, ()),
        ensures
            exists|requested: bool| #[trigger]
                is_request(
                    self@,
                    cooldown(),
                    *old(activity),
                    now,
                    send,
                    requested,
                    *final(activity),
                ),
            tip.icon_name@ == self@.icon_name(),
            tip.title@ == "Sony INZONE Buds"@,
            tip.description@ == self@.summary(),
    {
        let _requested: bool = self.request_refresh(hover_refresh_cooldown(), activity, now, send);
        ToolTip { icon_name: self.icon_name(), title: self.title(), description: self.summary() }
    }

    /// The menu: what is known of the batteries, and below it the ways to refresh and to
    /// quit.
    pub fn menu(&self) -> (menu: Vec<MenuEntry>)
        ensures
            entry_views(menu@) == self@.menu(),
    {
        let mut menu: Vec<MenuEntry> = Vec::new();
        let refresh_enabled: bool = match &self.status {
            ReadingStatus::Loading => {
                menu.push(information_item("Reading battery status…".to_owned()));
                false
            },
            ReadingStatus::Ready(reading) => {
                menu.push(cell_item("Left:  ", reading.left));
                menu.push(cell_item("Right: ", reading.right));
                menu.push(cell_item("Case:  ", reading.case));
                true
            },
            ReadingStatus::Error(error) => {
                let mut label = "Unavailable: ".to_owned();
                label.append(error.as_str());
                menu.push(information_item(label));
                true
            },
        };
        assert(entry_views(menu@) =~= self@.information());
        menu.push(MenuEntry::Separator);
        menu.push(
            MenuEntry::Action {
                label: "Refresh".to_owned(),
                icon_name: "view-refresh-symbolic".to_owned(),
                enabled: refresh_enabled,
                action: MenuAction::Refresh,
            },
        );
        menu.push(
            MenuEntry::Action {
                label: "Quit".to_owned(),
                icon_name: "application-exit-symbolic".to_owned(),
                enabled: true,
                action: MenuAction::Quit,
            },
        );
        assert(entry_views(menu@) =~= self@.menu());
        menu
    }
}

fn cell_item(name: &str, cell: BatteryCell) -> (entry: MenuEntry)
    ensures
        entry@ == (MenuEntryView::Information { label: name@ + cell.text() }),
{
    let mut label = name.to_owned();
    label.append(cell.to_string().as_str());
    information_item(label)
}

/// While a refresh is awaited none is offered, whoever asks and however much time has
/// passed.
pub proof fn law_awaited_refresh_is_not_offered_again(
    status: ReadingStatusView,
    minimum_age: Duration,
    activity: RefreshActivity,
    now: Duration,
)
    ensures
        !status.begun(true).offers_refresh(minimum_age, activity, now),
{
}

/// A user who asks for a refresh is never told to wait: once the last refresh has come
/// back, another one is offered at once.
pub proof fn law_user_is_not_held_back(
    status: ReadingStatusView,
    activity: RefreshActivity,
    now: Duration,
)
    requires
        status !is Loading,
    ensures
        status.offers_refresh(no_wait(), activity, now),
{
}

/// Looking at the tray within the cooldown after an activity offers no refresh, even
/// where there was more activity since: refreshes cannot keep themselves going by the
/// looks that they cause.
pub proof fn law_looks_do_not_keep_refreshing(
    status: ReadingStatusView,
    activity: RefreshActivity,
    latest: RefreshActivity,
    now: Duration,
)
    requires
        activity.at.nanos <= latest.at.nanos,
        now.nanos < activity.at.nanos + HOVER_REFRESH_COOLDOWN,
    ensures
        !status.offers_refresh(cooldown(), latest, now),
{
}

/// The menu offers to refresh exactly when a refresh that the user asks for would be
/// offered to the worker.
pub proof fn law_refresh_entry_tells_the_truth(
    status: ReadingStatusView,
    activity: RefreshActivity,
    now: Duration,
)
    ensures
        status.menu()[status.menu().len() - 2] == (MenuEntryView::Action {
            label: "Refresh"@,
            icon_name: "view-refresh-symbolic"@,
            enabled: status.offers_refresh(no_wait(), activity, now),
            action: MenuAction::Refresh,
        }),
{
}

/// The menu can always be used to quit.
pub proof fn law_quitting_is_always_offered(status: ReadingStatusView)
    ensures
        status.menu().last() matches MenuEntryView::Action { enabled, action, .. } && enabled
            && action == MenuAction::Quit,
{
}

/// The icon has as many pixels as its sides say.
pub proof fn law_icon_fills_its_sides()
    ensures
        dimmed_pixels(HEADPHONES_MASK@).len() == DIMMED_ICON_SIZE * DIMMED_ICON_SIZE * 4,
{
    reveal_strlit(
        "\
......................\
......................\
........######........\
......##########......\
.....###......###.....\
....##..........##....\
...##............##...\
...##............##...\
..##..............##..\
..##..............##..\
.####............####.\
.####............####.\
.####............####.\
.####............####.\
.####............####.\
..###............###..\
...##............##...\
......................\
......................\
......................\
......................\
......................",
    );
}

} // verus!
