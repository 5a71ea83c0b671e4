//! What the tray tells, and what holds of requests for a refresh on their way to the
//! worker.
//!
//! A request waits for the worker in a place that holds one request. The worker takes a
//! request there only where the place is free.

use vstd::prelude::*;

use crate::battery::{BatteryCell, BatteryReading};
use crate::clock::Duration;
use crate::text::{decimal, split};
use crate::text_laws::{
    law_decimal_is_read_back, law_nothing_to_split, law_split_after_a_separator, number,
};
use crate::tray::{
    cooldown, dimmed_pixels, entry_views, is_request, no_wait, short_cell_text, InzoneTray,
    MenuAction, MenuEntry, MenuEntryView, ReadingStatus, ReadingStatusView, RefreshActivity,
    HEADPHONES_MASK,
};

verus! {

/// Requests coalesce: a user who asks makes the tray wait exactly where the place is free
/// and no refresh is awaited yet. Otherwise the status stays as it was.
pub proof fn law_requests_coalesce<S: FnOnce() -> Option<Duration>>(
    status: ReadingStatusView,
    before: RefreshActivity,
    now: Duration,
    send: S,
    free: bool,
    requested: bool,
    after: RefreshActivity,
)
    requires
        is_request(status, no_wait(), before, now, send, requested, after),
        forall|taken: Option<Duration>| #[trigger]
            call_ensures(send, (), taken) ==> (taken is Some) == free,
    ensures
        requested == (free && status !is Loading),
        status.begun(requested) == (if free && status !is Loading {
            ReadingStatusView::Loading
        } else {
            status
        }),
        !requested ==> after == before,
{
}

/// The tray and the place in which a request waits, and how many requests were put there
/// and taken out again so far.
pub struct Requests {
    pub status: ReadingStatusView,
    pub activity: RefreshActivity,
    pub waiting: bool,
    pub sent: nat,
    pub taken: nat,
}

/// What happens to requests.
pub enum RequestEvent {
    /// The user asks at one time, and a request is sent at another.
    Click(Duration, Duration),
    /// The tray host looks at one time, and a request is sent at another.
    Look(Duration, Duration),
    /// The worker is ready for a request.
    Ready,
    /// The worker hands a status to the tray.
    Updated(ReadingStatusView, Duration),
}

impl Requests {
    /// The requests at the start of a tray that waits for its first status.
    pub open spec fn start(now: Duration) -> Self {
        Requests {
            status: ReadingStatusView::Loading,
            activity: RefreshActivity { at: now },
            waiting: false,
            sent: 0,
            taken: 0,
        }
    }

    /// Whether a request is sent: where one is offered and the place is free.
    pub open spec fn sends(self, minimum_age: Duration, now: Duration) -> bool {
        self.status.offers_refresh(minimum_age, self.activity, now) && !self.waiting
    }

    /// The requests after one was sent or not.
    pub open spec fn sent_at(self, sends: bool, at: Duration) -> Self {
        if sends {
            Requests {
                activity: self.activity.noting(Some(at)),
                waiting: true,
                sent: self.sent + 1,
                ..self
            }
        } else {
            self
        }
    }

    /// The requests after an event.
    pub open spec fn step(self, event: RequestEvent) -> Self {
        match event {
            RequestEvent::Click(now, at) => {
                let sends = self.sends(no_wait(), now);
                Requests { status: self.status.begun(sends), ..self.sent_at(sends, at) }
            },
            RequestEvent::Look(now, at) => self.sent_at(self.sends(cooldown(), now), at),
            RequestEvent::Ready => if self.waiting {
                Requests { waiting: false, taken: self.taken + 1, ..self }
            } else {
                self
            },
            RequestEvent::Updated(status, now) => Requests {
                status,
                activity: RefreshActivity { at: now },
                ..self
            },
        }
    }

    /// The requests after events.
    pub open spec fn run(self, events: Seq<RequestEvent>) -> Self
        decreases events.len(),
    {
        if events.len() == 0 {
            self
        } else {
            self.run(events.drop_last()).step(events.last())
        }
    }
}

/// However often the user clicks and the host looks, there is never more than one request
/// that the worker has not taken.
pub proof fn law_one_request_waits_at_most(now: Duration, events: Seq<RequestEvent>)
    ensures
        ({
            let requests = Requests::start(now).run(events);
            requests.sent == requests.taken + if requests.waiting {
                1nat
            } else {
                0nat
            }
        }),
    decreases events.len(),
{
    if events.len() > 0 {
        law_one_request_waits_at_most(now, events.drop_last());
    }
}

/// While a request waits, and while the tray waits for a status, clicks and looks change
/// nothing.
pub proof fn law_needless_requests_change_nothing(requests: Requests, now: Duration, at: Duration)
    requires
        requests.waiting || requests.status is Loading,
    ensures
        requests.step(RequestEvent::Click(now, at)) == requests,
        requests.step(RequestEvent::Look(now, at)) == requests,
{
}

/// The age of an activity is the time that has passed since.
pub proof fn law_age_is_the_time_since(activity: RefreshActivity, now: Duration)
    ensures
        now.nanos >= activity.at.nanos ==> activity.age(now) + activity.at.nanos == now.nanos,
        now.nanos < activity.at.nanos ==> activity.age(now) == 0,
{
}

/// A user is offered a refresh whenever none is awaited, and a look from one second after
/// the last activity on.
pub proof fn law_offers_go_by_the_time(
    status: ReadingStatusView,
    activity: RefreshActivity,
    now: Duration,
)
    ensures
        status.offers_refresh(no_wait(), activity, now) <==> status !is Loading,
        status.offers_refresh(cooldown(), activity, now) <==> status !is Loading && now.nanos
            >= activity.at.nanos + 1_000_000_000,
{
}

/// An offer that was taken is the last activity from then on, and one that was not changes
/// nothing.
pub proof fn law_taken_offers_are_activities(activity: RefreshActivity, at: Duration)
    ensures
        activity.noting(Some(at)).at == at,
        activity.noting(None) == activity,
{
}

/// A cell in short: its percentage in decimal and a percent sign, whatever its state, or
/// the word `unknown`.
pub proof fn law_short_cells_tell_the_percentage(cell: BatteryCell)
    ensures
        ({
            let text = short_cell_text(cell);
            &&& cell.percent matches Some(percent) ==> text.len() > 1 && text.last() == '%'
                && number(text.drop_last()) == percent
            &&& cell.percent is None ==> text == "unknown"@
            &&& forall|i: int| 0 <= i < text.len() ==> #[trigger] text[i] != '·'
        }),
{
    reveal_strlit("%");
    reveal_strlit("unknown");
    if let Some(percent) = cell.percent {
        law_decimal_is_read_back(percent as nat);
        assert(short_cell_text(cell).drop_last() =~= decimal(percent as nat));
    }
}

/// The summary of a reading has three parts with dots between them: the left earbud, the
/// right one and the case, each with its own cell in short.
pub proof fn law_summary_tells_the_cells(reading: BatteryReading)
    ensures
        split(ReadingStatusView::Ready(reading).summary(), '·') == seq![
            "Left "@ + short_cell_text(reading.left) + " "@,
            " Right "@ + short_cell_text(reading.right) + " "@,
            " Case "@ + short_cell_text(reading.case),
        ],
{
    reveal_strlit("Left ");
    reveal_strlit(" · Right ");
    reveal_strlit(" · Case ");
    reveal_strlit(" Right ");
    reveal_strlit(" Case ");
    reveal_strlit(" ");
    law_short_cells_tell_the_percentage(reading.left);
    law_short_cells_tell_the_percentage(reading.right);
    law_short_cells_tell_the_percentage(reading.case);
    let (l, r, c) = (
        short_cell_text(reading.left),
        short_cell_text(reading.right),
        short_cell_text(reading.case),
    );
    let left = "Left "@ + l + " "@;
    let right = " Right "@ + r + " "@;
    let case = " Case "@ + c;
    let summary = ReadingStatusView::Ready(reading).summary();
    assert("Left "@ + l + " · Right "@ =~= left.push('·') + " Right "@);
    assert(left.push('·') + " Right "@ + r + " · Case "@ =~= left.push('·') + right.push('·')
        + " Case "@);
    assert(summary =~= left.push('·') + (right.push('·') + case));
    law_nothing_to_split(left, '·');
    law_nothing_to_split(right, '·');
    law_nothing_to_split(case, '·');
    law_split_after_a_separator(left, right.push('·') + case, '·');
    law_split_after_a_separator(right, case, '·');
    assert(split(summary, '·') =~= seq![left, right, case]);
}

/// Without a reading the summary tells what is going on or what went wrong.
pub proof fn law_summary_without_a_reading(message: Seq<char>)
    ensures
        ReadingStatusView::Loading.summary() == "Reading battery status…"@,
        ReadingStatusView::Error(message).summary() == message,
{
}

/// The menu tells the left earbud, the right one and the case, each in an entry of its own
/// and in this order; without a reading it tells what is going on or what went wrong. Then
/// come a separator and the two actions.
pub proof fn law_menu_tells_the_cells(reading: BatteryReading, message: Seq<char>)
    ensures
        ({
            let ready = ReadingStatusView::Ready(reading).menu();
            let loading = ReadingStatusView::Loading.menu();
            let failed = ReadingStatusView::Error(message).menu();
            &&& ready.len() == 6
            &&& ready[0] == (MenuEntryView::Information {
                label: "Left:  "@ + reading.left.text(),
            })
            &&& ready[1] == (MenuEntryView::Information {
                label: "Right: "@ + reading.right.text(),
            })
            &&& ready[2] == (MenuEntryView::Information {
                label: "Case:  "@ + reading.case.text(),
            })
            &&& ready[3] is Separator
            &&& ready[4] matches MenuEntryView::Action { label, enabled, action, .. } && label
                == "Refresh"@ && enabled && action == MenuAction::Refresh
            &&& ready[5] matches MenuEntryView::Action { label, enabled, action, .. } && label
                == "Quit"@ && enabled && action == MenuAction::Quit
            &&& loading.len() == 4
            &&& loading[0] == (MenuEntryView::Information { label: "Reading battery status…"@ })
            &&& loading[1] is Separator
            &&& loading[2] matches MenuEntryView::Action { label, enabled, action, .. } && label
                == "Refresh"@ && !enabled && action == MenuAction::Refresh
            &&& loading[3] matches MenuEntryView::Action { label, enabled, action, .. } && label
                == "Quit"@ && enabled && action == MenuAction::Quit
            &&& failed.len() == 4
            &&& failed[0] == (MenuEntryView::Information { label: "Unavailable: "@ + message })
            &&& failed[1] is Separator
            &&& failed[2] == ready[4]
            &&& failed[3] == ready[5]
        }),
{
}

/// The icon by name is the headphones, and none where the batteries could not be read.
pub proof fn law_icon_goes_by_the_status(reading: BatteryReading, message: Seq<char>)
    ensures
        ReadingStatusView::Loading.icon_name() == "audio-headphones-symbolic"@,
        ReadingStatusView::Ready(reading).icon_name() == "audio-headphones-symbolic"@,
        ReadingStatusView::Error(message).icon_name().len() == 0,
{
    reveal_strlit("");
}

/// Each pixel of a dimmed mask is white at two fifths of full opacity where the mask is
/// drawn, and fully transparent elsewhere.
pub proof fn law_pixels_follow_the_mask(mask: Seq<char>, pixel: int)
    requires
        0 <= pixel < mask.len(),
    ensures
        ({
            let bytes = dimmed_pixels(mask);
            &&& bytes.len() == 4 * mask.len()
            &&& mask[pixel] == '#' ==> bytes.subrange(4 * pixel, 4 * pixel + 4) == seq![
                102u8,
                255,
                255,
                255,
            ]
            &&& mask[pixel] != '#' ==> bytes.subrange(4 * pixel, 4 * pixel + 4) == seq![
                0u8,
                0,
                0,
                0,
            ]
        }),
{
    let bytes = dimmed_pixels(mask);
    assert(bytes.len() == 4 * mask.len());
    let four = bytes.subrange(4 * pixel, 4 * pixel + 4);
    assert(four[0] == bytes[4 * pixel] && four[1] == bytes[4 * pixel + 1] && four[2] == bytes[4
        * pixel + 2] && four[3] == bytes[4 * pixel + 3]);
    assert((4 * pixel) / 4 == pixel && (4 * pixel + 1) / 4 == pixel && (4 * pixel + 2) / 4 == pixel
        && (4 * pixel + 3) / 4 == pixel);
    assert((4 * pixel) % 4 == 0 && (4 * pixel + 1) % 4 == 1 && (4 * pixel + 2) % 4 == 2 && (4
        * pixel + 3) % 4 == 3);
    if mask[pixel] == '#' {
        assert(four =~= seq![102u8, 255, 255, 255]);
    } else {
        assert(four =~= seq![0u8, 0, 0, 0]);
    }
}

/// A status is seen as it is.
pub proof fn law_statuses_are_seen_as_they_are(reading: BatteryReading, message: String)
    ensures
        ReadingStatus::Loading@ == ReadingStatusView::Loading,
        ReadingStatus::Ready(reading)@ == ReadingStatusView::Ready(reading),
        ReadingStatus::Error(message)@ == ReadingStatusView::Error(message@),
        (InzoneTray { status: ReadingStatus::Ready(reading) })@ == ReadingStatusView::Ready(
            reading,
        ),
{
}

/// A request that the worker took is the last activity, at the time at which it took it.
pub proof fn law_taken_request_is_noted<S: FnOnce() -> Option<Duration>>(
    status: ReadingStatusView,
    minimum_age: Duration,
    before: RefreshActivity,
    now: Duration,
    send: S,
    at: Duration,
    requested: bool,
    after: RefreshActivity,
)
    requires
        is_request(status, minimum_age, before, now, send, requested, after),
        forall|taken: Option<Duration>| #[trigger]
            call_ensures(send, (), taken) ==> taken == Some(at),
    ensures
        requested == (status !is Loading && before.age(now) >= minimum_age.nanos),
        requested ==> after.at == at,
        !requested ==> after == before,
{
}

/// Menu entries are seen as they are, in order.
pub proof fn law_entries_are_seen_as_they_are(
    entries: Seq<MenuEntry>,
    i: int,
    label: String,
    icon_name: String,
    enabled: bool,
    action: MenuAction,
)
    requires
        0 <= i < entries.len(),
    ensures
        entry_views(entries).len() == entries.len(),
        entry_views(entries)[i] == entries[i]@,
        (MenuEntry::Information { label })@ == (MenuEntryView::Information { label: label@ }),
        MenuEntry::Separator@ == MenuEntryView::Separator,
        (MenuEntry::Action { label, icon_name, enabled, action })@ == (MenuEntryView::Action {
            label: label@,
            icon_name: icon_name@,
            enabled,
            action,
        }),
{
}

/// The icon is the same from the left and from the right.
pub proof fn law_icon_is_symmetric(row: int, column: int)
    requires
        0 <= row < 22,
        0 <= column < 22,
    ensures
        HEADPHONES_MASK@[22 * row + column] == HEADPHONES_MASK@[22 * row + 21 - column],
{
    reveal_strlit(
        "\
......................\
......................\
........######........\
......##########......\
.....###......###.....\
....##..........##....\
...##............##...\
...##............##...\
..##..............##..\
..##..............##..\
.####............####.\
.####............####.\
.####............####.\
.####............####.\
.####............####.\
..###............###..\
...##............##...\
......................\
......................\
......................\
......................\
......................",
    );
}

} // verus!
