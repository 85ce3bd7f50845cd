//! Attempts that may take only so long.
use std::time::Duration;

use vstd::prelude::*;

use crate::attempt::{
    awaits, next, Action, ActionView, Attempt, AttemptView, Event, EventView,
};
use crate::conn::Conn;
use crate::verbose::{wrapping, Wrapped, Wrapper};

verus! {

/// An attempt, how the connection that it leads to is shown in the log, and the
/// time that it may take as a whole, if it is bound to one.
#[derive(Debug)]
pub struct Connecting {
    pub attempt: Attempt,
    pub verbose: Wrapper,
    pub timeout: Option<Duration>,
}

/// What a [`Connecting`] says.
pub struct ConnectingView {
    pub attempt: AttemptView,
    pub verbose: Wrapper,
    pub timeout: Option<Duration>,
}

impl View for Connecting {
    type V = ConnectingView;

    open spec fn view(&self) -> ConnectingView {
        ConnectingView {
            attempt: self.attempt@,
            verbose: self.verbose,
            timeout: self.timeout,
        }
    }
}

/// Binds an attempt to a time; `verbose` is how the connection is to be shown in
/// the log.
pub fn with_timeout(attempt: Attempt, verbose: Wrapper, timeout: Option<Duration>) -> (r: Connecting)
    ensures
        r == (Connecting { attempt, verbose, timeout }),
{
    Connecting { attempt, verbose, timeout }
}

/// What came of the action in hand.
#[derive(Debug)]
pub enum Timed<E> {
    /// The time was up first.
    Elapsed,
    /// The action was done in time, or failed in time.
    InTime(Event<E>),
}

/// What a [`Timed`] says.
pub enum TimedView<E> {
    Elapsed,
    InTime(EventView<E>),
}

impl<E> View for Timed<E> {
    type V = TimedView<E>;

    open spec fn view(&self) -> TimedView<E> {
        match *self {
            Timed::Elapsed => TimedView::Elapsed,
            Timed::InTime(event) => TimedView::InTime(event@),
        }
    }
}

/// What follows: an action, or the end because the time is up.
#[derive(Debug)]
pub enum Next<E> {
    TimedOut,
    Act(Action<E>),
}

/// What a [`Next`] says.
pub enum NextView<E> {
    TimedOut,
    Act(ActionView<E>),
}

impl<E> View for Next<E> {
    type V = NextView<E>;

    open spec fn view(&self) -> NextView<E> {
        match *self {
            Next::TimedOut => NextView::TimedOut,
            Next::Act(action) => NextView::Act(action@),
        }
    }
}

/// What can come of the action in hand: what the attempt awaits, or the end of
/// the time if there is a limit.
pub open spec fn awaits_timed<E>(connecting: ConnectingView, event: TimedView<E>) -> bool {
    match event {
        TimedView::Elapsed => connecting.timeout is Some,
        TimedView::InTime(e) => awaits(connecting.attempt, e),
    }
}

/// What follows from what came of the action in hand. When the time is up the
/// attempt is over; otherwise the time makes no difference to it.
pub open spec fn next_timed<E>(connecting: ConnectingView, event: TimedView<E>) -> (
    ConnectingView,
    NextView<E>,
) {
    match event {
        TimedView::Elapsed => (
            ConnectingView { attempt: AttemptView::Closed, ..connecting },
            NextView::TimedOut,
        ),
        TimedView::InTime(e) => {
            let (attempt, action) = next(connecting.attempt, e);
            (ConnectingView { attempt, ..connecting }, NextView::Act(action))
        },
    }
}

impl Connecting {
    /// Takes what came of the action in hand: where the attempt stands then, and
    /// what follows.
    pub fn step<E>(self, event: Timed<E>) -> (r: (Connecting, Next<E>))
        requires
            awaits_timed(self@, event@),
        ensures
            (r.0@, r.1@) == next_timed(self@, event@),
    {
        match event {
            Timed::Elapsed => (
                with_timeout(Attempt::Closed, self.verbose, self.timeout),
                Next::TimedOut,
            ),
            Timed::InTime(e) => {
                let (attempt, action) = self.attempt.step(e);
                (with_timeout(attempt, self.verbose, self.timeout), Next::Act(action))
            },
        }
    }

    /// Makes of an open connection the one to deliver: shown in the log as was set
    /// when the attempt began, and marked if it leads to a forwarding proxy.
    /// (`trace_enabled` tells whether the log takes lines at that level.)
    pub fn deliver<T>(&self, conn: T, is_proxy: bool, trace_enabled: bool, random: u64) -> (r: Conn<
        Wrapped<T>,
    >)
        ensures
            r == (Conn { inner: wrapping(self@.verbose, conn, trace_enabled, random), is_proxy }),
    {
        Conn { inner: self.verbose.wrap(conn, trace_enabled, random), is_proxy }
    }
}

} // verus!
