//! The worker that reads the batteries for the tray, and the wait for the wish to quit.
//!
//! Both are driven from outside: the driver does what the phase asks for, and hands back
//! what came of it.

use vstd::prelude::*;

use crate::battery::BatteryReading;
use crate::lookup::reading_view;
use crate::tray::{ReadingStatus, ReadingStatusView};

verus! {

/// How a wait for a message ended.
#[derive(Clone, Copy, Debug, PartialEq, Eq, Structural)]
pub enum Wakeup {
    /// A message came.
    Message,
    /// The time was up.
    Timeout,
    /// Nobody is left who could send a message.
    Disconnected,
}

/// Whether the batteries are to be read after a wait: on request and when the time is
/// up, but not where nobody is left to ask.
pub fn wait_for_refresh(wakeup: Wakeup) -> (refresh: bool)
    ensures
        refresh == (wakeup != Wakeup::Disconnected),
{
    match wakeup {
        Wakeup::Message | Wakeup::Timeout => true,
        Wakeup::Disconnected => false,
    }
}

/// What a reading tells the tray.
pub open spec fn status_of(result: Result<BatteryReading, Seq<char>>) -> ReadingStatusView {
    match result {
        Ok(reading) => ReadingStatusView::Ready(reading),
        Err(message) => ReadingStatusView::Error(message),
    }
}

/// What the worker is about to do.
#[derive(Debug)]
pub enum RefreshPhase {
    /// Read the batteries.
    Read,
    /// Hand a status to the tray.
    Update(ReadingStatus),
    /// Wait for a request, or for the time of the next refresh.
    Wait,
    /// Nothing any more.
    Stopped,
}

/// What came of it.
#[derive(Debug)]
pub enum RefreshEvent {
    /// The batteries were read.
    Read(Result<BatteryReading, String>),
    /// The tray took the status, or is gone.
    Updated(bool),
    /// The wait has ended.
    Woken(Wakeup),
}

/// The contents of a [`RefreshPhase`].
pub enum RefreshPhaseView {
    Read,
    Update(ReadingStatusView),
    Wait,
    Stopped,
}

/// The contents of a [`RefreshEvent`].
pub enum RefreshEventView {
    Read(Result<BatteryReading, Seq<char>>),
    Updated(bool),
    Woken(Wakeup),
}

impl View for RefreshPhase {
    type V = RefreshPhaseView;

    open spec fn view(&self) -> RefreshPhaseView {
        match self {
            RefreshPhase::Read => RefreshPhaseView::Read,
            RefreshPhase::Update(status) => RefreshPhaseView::Update(status@),
            RefreshPhase::Wait => RefreshPhaseView::Wait,
            RefreshPhase::Stopped => RefreshPhaseView::Stopped,
        }
    }
}

impl View for RefreshEvent {
    type V = RefreshEventView;

    open spec fn view(&self) -> RefreshEventView {
        match self {
            RefreshEvent::Read(result) => RefreshEventView::Read(reading_view(*result)),
            RefreshEvent::Updated(updated) => RefreshEventView::Updated(*updated),
            RefreshEvent::Woken(wakeup) => RefreshEventView::Woken(*wakeup),
        }
    }
}

impl RefreshPhaseView {
    /// Whether the event is an answer to what the phase asks for.
    pub open spec fn is_answered_by(self, event: RefreshEventView) -> bool {
        match self {
            RefreshPhaseView::Read => event is Read,
            RefreshPhaseView::Update(_) => event is Updated,
            RefreshPhaseView::Wait => event is Woken,
            RefreshPhaseView::Stopped => false,
        }
    }

    /// The phase after an event. An event that is no answer changes nothing.
    pub open spec fn step(self, event: RefreshEventView) -> Self {
        match (self, event) {
            (RefreshPhaseView::Read, RefreshEventView::Read(result)) => RefreshPhaseView::Update(
                status_of(result),
            ),
            (RefreshPhaseView::Update(_), RefreshEventView::Updated(updated)) => if updated {
                RefreshPhaseView::Wait
            } else {
                RefreshPhaseView::Stopped
            },
            (RefreshPhaseView::Wait, RefreshEventView::Woken(wakeup)) => if wakeup
                != Wakeup::Disconnected {
                RefreshPhaseView::Read
            } else {
                RefreshPhaseView::Stopped
            },
            _ => self,
        }
    }

    /// The phase after events.
    pub open spec fn run(self, events: Seq<RefreshEventView>) -> Self
        decreases events.len(),
    {
        if events.len() == 0 {
            self
        } else {
            self.run(events.drop_last()).step(events.last())
        }
    }

    /// How many times the batteries were read in the course of events.
    pub open spec fn reads(self, events: Seq<RefreshEventView>) -> nat
        decreases events.len(),
    {
        if events.len() == 0 {
            0
        } else {
            self.reads(events.drop_last()) + if self.run(events.drop_last()) is Read
                && events.last() is Read {
                1nat
            } else {
                0nat
            }
        }
    }

    /// How many times a status was handed to the tray in the course of events.
    pub open spec fn updates(self, events: Seq<RefreshEventView>) -> nat
        decreases events.len(),
    {
        if events.len() == 0 {
            0
        } else {
            self.updates(events.drop_last()) + if self.run(events.drop_last()) is Update
                && events.last() is Updated {
                1nat
            } else {
                0nat
            }
        }
    }
}

/// The worker: reads the batteries, hands what it learnt to the tray, waits, and begins
/// again, until the tray is gone or nobody is left to ask.
#[derive(Debug)]
pub struct RefreshLoop {
    phase: RefreshPhase,
}

impl View for RefreshLoop {
    type V = RefreshPhaseView;

    closed spec fn view(&self) -> RefreshPhaseView {
        self.phase@
    }
}

impl RefreshLoop {
    /// A worker that begins by reading the batteries.
    pub fn new() -> (worker: Self)
        ensures
            worker@ == RefreshPhaseView::Read,
    {
        RefreshLoop { phase: RefreshPhase::Read }
    }

    /// What the worker is about to do.
    pub fn phase(&self) -> (phase: &RefreshPhase)
        ensures
            phase@ == self@,
    {
        &self.phase
    }

    /// Goes on after an event.
    pub fn advance(self, event: RefreshEvent) -> (next: Self)
        ensures
            next@ == self@.step(event@),
    {
        let phase = match (self.phase, event) {
            (RefreshPhase::Read, RefreshEvent::Read(result)) => match result {
                Ok(reading) => RefreshPhase::Update(ReadingStatus::Ready(reading)),
                Err(message) => RefreshPhase::Update(ReadingStatus::Error(message)),
            },
            (RefreshPhase::Update(_), RefreshEvent::Updated(updated)) => if updated {
                RefreshPhase::Wait
            } else {
                RefreshPhase::Stopped
            },
            (RefreshPhase::Wait, RefreshEvent::Woken(wakeup)) => if wait_for_refresh(wakeup) {
                RefreshPhase::Read
            } else {
                RefreshPhase::Stopped
            },
            (phase, _) => phase,
        };
        RefreshLoop { phase }
    }
}

/// What is to be done once a status was handed to the tray.
#[derive(Clone, Copy, Debug, PartialEq, Eq, Structural)]
pub struct FinishedRefresh {
    /// Whether the tray took the status.
    pub updated: bool,
    /// Whether the program is to be told to quit.
    pub quit: bool,
}

/// Ends a refresh. A program that is to quit after its first refresh quits only once
/// the tray took the status.
pub fn finish_refresh(updated: bool, exit_after_refresh: bool) -> (finished: FinishedRefresh)
    ensures
        finished.updated == updated,
        finished.quit == (updated && exit_after_refresh),
{
    FinishedRefresh { updated, quit: updated && exit_after_refresh }
}

/// What the main thread is about to do.
#[derive(Clone, Copy, Debug, PartialEq, Eq, Structural)]
pub enum QuitPhase {
    /// Look whether the tray was closed.
    Check,
    /// Wait for the wish to quit.
    Wait,
    /// Quit.
    Quit,
}

/// What came of it.
#[derive(Clone, Copy, Debug, PartialEq, Eq, Structural)]
pub enum QuitEvent {
    /// Whether the tray was closed.
    Checked(bool),
    /// The wait has ended.
    Woken(Wakeup),
}

impl QuitEvent {
    /// Whether the event is a reason to quit.
    pub open spec fn is_reason(self) -> bool {
        match self {
            QuitEvent::Checked(closed) => closed,
            QuitEvent::Woken(wakeup) => wakeup != Wakeup::Timeout,
        }
    }
}

impl QuitPhase {
    /// Whether the event is an answer to what the phase asks for.
    pub open spec fn is_answered_by(self, event: QuitEvent) -> bool {
        match self {
            QuitPhase::Check => event is Checked,
            QuitPhase::Wait => event is Woken,
            QuitPhase::Quit => false,
        }
    }

    /// The phase after an event: a reason to quit ends the wait, and otherwise checking
    /// and waiting take turns. An event that is no answer changes nothing.
    pub open spec fn step(self, event: QuitEvent) -> Self {
        if !self.is_answered_by(event) {
            self
        } else if event.is_reason() {
            QuitPhase::Quit
        } else if self is Check {
            QuitPhase::Wait
        } else {
            QuitPhase::Check
        }
    }

    /// The phase after events.
    pub open spec fn run(self, events: Seq<QuitEvent>) -> Self
        decreases events.len(),
    {
        if events.len() == 0 {
            self
        } else {
            self.run(events.drop_last()).step(events.last())
        }
    }
}

/// Goes on waiting for the wish to quit after an event. The wait begins with
/// [`QuitPhase::Check`].
pub fn wait_until_quit(phase: QuitPhase, event: QuitEvent) -> (next: QuitPhase)
    ensures
        next == phase.step(event),
{
    match (phase, event) {
        (QuitPhase::Check, QuitEvent::Checked(closed)) => if closed {
            QuitPhase::Quit
        } else {
            QuitPhase::Wait
        },
        (QuitPhase::Wait, QuitEvent::Woken(wakeup)) => match wakeup {
            Wakeup::Message | Wakeup::Disconnected => QuitPhase::Quit,
            Wakeup::Timeout => QuitPhase::Check,
        },
        (phase, _) => phase,
    }
}

/// Every status that the worker hands to the tray tells of a reading that it made.
pub proof fn law_statuses_come_from_readings(
    events: Seq<RefreshEventView>,
    status: ReadingStatusView,
)
    requires
        RefreshPhaseView::Read.run(events) == RefreshPhaseView::Update(status),
    ensures
        exists|i: int|
            0 <= i < events.len() && (#[trigger] events[i] matches RefreshEventView::Read(result)
                && status == status_of(result)),
    decreases events.len(),
{
    let before = RefreshPhaseView::Read.run(events.drop_last());
    if before == RefreshPhaseView::Update(status) {
        law_statuses_come_from_readings(events.drop_last(), status);
        let i = choose|i: int|
            0 <= i < events.drop_last().len() && (
            #[trigger] events.drop_last()[i] matches RefreshEventView::Read(result) && status
                == status_of(result));
        assert(events[i] == events.drop_last()[i]);
    } else {
        assert(events.last() == events[events.len() - 1]);
    }
}

/// The worker makes one reading at a time and hands each to the tray before it makes the
/// next: there is never more than one that the tray has not been given.
pub proof fn law_readings_are_made_one_by_one(events: Seq<RefreshEventView>)
    ensures
        ({
            let reads = RefreshPhaseView::Read.reads(events);
            let updates = RefreshPhaseView::Read.updates(events);
            if RefreshPhaseView::Read.run(events) is Update {
                reads == updates + 1
            } else {
                reads == updates
            }
        }),
    decreases events.len(),
{
    if events.len() > 0 {
        law_readings_are_made_one_by_one(events.drop_last());
    }
}

/// A worker that waits reads the batteries again on request as well as when the time is
/// up.
pub proof fn law_waiting_worker_reads_again(wakeup: Wakeup)
    requires
        wakeup == Wakeup::Message || wakeup == Wakeup::Timeout,
    ensures
        RefreshPhaseView::Wait.step(RefreshEventView::Woken(wakeup)) == RefreshPhaseView::Read,
{
}

/// The worker stops only because the tray is gone or nobody is left to ask: a reading
/// that fails does not stop it.
pub proof fn law_worker_stops_for_a_reason(events: Seq<RefreshEventView>)
    requires
        RefreshPhaseView::Read.run(events) is Stopped,
    ensures
        exists|i: int|
            0 <= i < events.len() && (#[trigger] events[i] == RefreshEventView::Updated(false)
                || events[i] == RefreshEventView::Woken(Wakeup::Disconnected)),
    decreases events.len(),
{
    let before = RefreshPhaseView::Read.run(events.drop_last());
    if before is Stopped {
        law_worker_stops_for_a_reason(events.drop_last());
        let i = choose|i: int|
            0 <= i < events.drop_last().len() && (#[trigger] events.drop_last()[i]
                == RefreshEventView::Updated(false) || events.drop_last()[i]
                == RefreshEventView::Woken(Wakeup::Disconnected));
        assert(events[i] == events.drop_last()[i]);
    } else {
        assert(events.last() == events[events.len() - 1]);
    }
}

/// An event that is no answer to what the worker asked for changes nothing.
pub proof fn law_stray_events_are_passed_over(phase: RefreshPhaseView, event: RefreshEventView)
    requires
        !phase.is_answered_by(event),
    ensures
        phase.step(event) == phase,
{
}

/// A worker that has stopped does nothing more.
pub proof fn law_stopped_worker_stays_stopped(events: Seq<RefreshEventView>)
    ensures
        RefreshPhaseView::Stopped.run(events) is Stopped,
        RefreshPhaseView::Stopped.reads(events) == 0,
        RefreshPhaseView::Stopped.updates(events) == 0,
    decreases events.len(),
{
    if events.len() > 0 {
        law_stopped_worker_stays_stopped(events.drop_last());
    }
}

/// The program quits only for a reason: time alone does not make it quit.
pub proof fn law_program_quits_for_a_reason(events: Seq<QuitEvent>)
    ensures
        QuitPhase::Check.run(events) is Quit ==> exists|i: int|
            0 <= i < events.len() && (#[trigger] events[i]).is_reason(),
    decreases events.len(),
{
    if events.len() > 0 {
        law_program_quits_for_a_reason(events.drop_last());
        let before = QuitPhase::Check.run(events.drop_last());
        if before is Quit {
            let i = choose|i: int|
                0 <= i < events.drop_last().len() && (
                #[trigger] events.drop_last()[i]).is_reason();
            assert(events[i] == events.drop_last()[i]);
        } else {
            assert(events.last() == events[events.len() - 1]);
        }
    }
}

/// The program quits at the first reason that it is given.
pub proof fn law_program_quits_at_once(phase: QuitPhase, event: QuitEvent)
    requires
        phase.is_answered_by(event),
        event.is_reason(),
    ensures
        phase.step(event) is Quit,
{
}

/// A worker that has read the batteries hands to the tray that very reading, or that very
/// message where it could not read them.
pub proof fn law_reading_is_handed_on_as_it_is(reading: BatteryReading, message: Seq<char>)
    ensures
        RefreshPhaseView::Read.step(RefreshEventView::Read(Ok(reading)))
            == RefreshPhaseView::Update(ReadingStatusView::Ready(reading)),
        RefreshPhaseView::Read.step(RefreshEventView::Read(Err(message)))
            == RefreshPhaseView::Update(ReadingStatusView::Error(message)),
{
}

/// No two readings and no two messages are handed to the tray as the same status.
pub proof fn law_readings_are_handed_on_apart(
    a: Result<BatteryReading, Seq<char>>,
    b: Result<BatteryReading, Seq<char>>,
)
    requires
        RefreshPhaseView::Read.step(RefreshEventView::Read(a)) == RefreshPhaseView::Read.step(
            RefreshEventView::Read(b),
        ),
    ensures
        a == b,
{
}

/// Once the tray took a status the worker waits, whatever the status; a tray that is gone
/// stops it, and so does the loss of all who could ask.
pub proof fn law_worker_goes_on_with_its_tray(status: ReadingStatusView)
    ensures
        RefreshPhaseView::Update(status).step(RefreshEventView::Updated(true))
            == RefreshPhaseView::Wait,
        RefreshPhaseView::Update(status).step(RefreshEventView::Updated(false))
            == RefreshPhaseView::Stopped,
        RefreshPhaseView::Wait.step(RefreshEventView::Woken(Wakeup::Disconnected))
            == RefreshPhaseView::Stopped,
{
}

/// What a worker holds is what its view tells: the reading or the message as it is.
pub proof fn law_events_are_seen_as_they_are(
    reading: BatteryReading,
    message: String,
    updated: bool,
    wakeup: Wakeup,
)
    ensures
        RefreshEvent::Read(Ok(reading))@ == RefreshEventView::Read(Ok(reading)),
        RefreshEvent::Read(Err(message))@ == RefreshEventView::Read(Err(message@)),
        RefreshEvent::Updated(updated)@ == RefreshEventView::Updated(updated),
        RefreshEvent::Woken(wakeup)@ == RefreshEventView::Woken(wakeup),
        RefreshPhase::Update(ReadingStatus::Ready(reading))@ == RefreshPhaseView::Update(
            ReadingStatusView::Ready(reading),
        ),
        RefreshPhase::Update(ReadingStatus::Error(message))@ == RefreshPhaseView::Update(
            ReadingStatusView::Error(message@),
        ),
{
}

/// The program looks whether its tray was closed, waits for the wish to quit, and looks
/// again when the time is up.
pub proof fn law_checking_and_waiting_take_turns()
    ensures
        QuitPhase::Check.step(QuitEvent::Checked(false)) == QuitPhase::Wait,
        QuitPhase::Wait.step(QuitEvent::Woken(Wakeup::Timeout)) == QuitPhase::Check,
        QuitPhase::Check.step(QuitEvent::Checked(true)) == QuitPhase::Quit,
        QuitPhase::Wait.step(QuitEvent::Woken(Wakeup::Message)) == QuitPhase::Quit,
        QuitPhase::Wait.step(QuitEvent::Woken(Wakeup::Disconnected)) == QuitPhase::Quit,
{
}

} // verus!
