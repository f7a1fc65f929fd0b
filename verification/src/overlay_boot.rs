//! Should the Guide HUD's overlay window be created right now?
//!
//! An `--autostart` launch waits for the shell to settle before it builds its
//! windows. The dashboard keeps the full settle; the overlay waits only
//! [`OVERLAY_SETTLE_MS`], because the overlay has independent recoveries for
//! a failed early attempt and the dashboard has none. This module is the
//! pure decision; gathering the facts and building the window are the
//! caller's.
use std::time::Duration;
use vstd::prelude::*;

verus! {

/// How long an `--autostart` launch waits before creating the overlay, in
/// milliseconds. The dashboard keeps `crate::AUTOSTART_SETTLE_SECS`.
pub const OVERLAY_SETTLE_MS: u64 = 1200;

/// [`OVERLAY_SETTLE_MS`] in nanoseconds, the unit the decision compares in.
pub const OVERLAY_SETTLE_NANOS: u64 = 1_200_000_000;

/// The whole length of a `Duration` in nanoseconds, as `Duration::as_nanos`
/// reports it.
pub uninterp spec fn duration_nanos(d: Duration) -> nat;

/// `Duration::as_nanos`: the total number of whole nanoseconds.
#[verifier::external_body]
fn as_nanos(d: Duration) -> (n: u128)
    ensures
        n == duration_nanos(d),
{
    d.as_nanos()
}

/// `Duration::from_nanos`: a duration of exactly `n` nanoseconds, so that
/// `as_nanos` gives `n` back.
#[verifier::external_body]
fn from_nanos(n: u64) -> (d: Duration)
    ensures
        duration_nanos(d) == n,
{
    Duration::from_nanos(n)
}

/// The overlay settle as a `Duration`.
pub fn overlay_settle() -> (d: Duration)
    ensures
        duration_nanos(d) == OVERLAY_SETTLE_NANOS,
{
    from_nanos(OVERLAY_SETTLE_NANOS)
}

/// Everything the decision depends on, gathered by the caller so the
/// decision itself is pure.
#[derive(Debug, Clone, Copy, PartialEq, Eq)]
pub struct BootFacts {
    /// `--autostart` was on the command line.
    pub autostart: bool,
    /// This launch deliberately has no overlay.
    pub safe_mode: bool,
    /// The full window creation has already run (or is running).
    pub windows_created: bool,
    /// A window labelled `overlay` exists right now.
    pub overlay_exists: bool,
    /// A Space hold is asking for the ring right now.
    pub demanded: bool,
    /// Time since the process start was marked.
    pub since_start: Duration,
}

/// Why there is nothing to do.
#[derive(Debug, Clone, Copy, PartialEq, Eq)]
pub enum Skip {
    /// Safe mode has no overlay, by design.
    SafeMode,
    /// It is already there.
    AlreadyThere,
    /// The full creation path owns the overlay from here.
    FullCreationDone,
    /// A manual launch builds both windows inline; there is no early phase.
    NotAnAutostartLaunch,
}

/// The decision.
#[derive(Debug, Clone, Copy, PartialEq, Eq)]
pub enum OverlayBoot {
    /// Build it, on the main thread, now.
    CreateNow,
    /// Not yet: this much of the settle is still to run.
    WaitLonger(Duration),
    /// Nothing to do, for this reason.
    NothingToDo(Skip),
}

/// The reason there is nothing to do, if there is one, in the order the
/// checks are made: safe mode, then an existing overlay, then a finished
/// full creation, then a manual launch.
pub open spec fn skip_reason(f: BootFacts) -> Option<Skip> {
    if f.safe_mode {
        Some(Skip::SafeMode)
    } else if f.overlay_exists {
        Some(Skip::AlreadyThere)
    } else if f.windows_created {
        Some(Skip::FullCreationDone)
    } else if !f.autostart {
        Some(Skip::NotAnAutostartLaunch)
    } else {
        None
    }
}

/// Should the overlay be created now?
///
/// Safe mode is checked first and outranks everything, including a hold's
/// demand; then an overlay that is already there; then a finished full
/// creation; then a manual launch. Only after all four does a hold's demand
/// or the elapsed settle say "create now"; otherwise the rest of the settle
/// is returned, which is never zero and never more than the settle itself.
pub fn plan(f: BootFacts) -> (r: OverlayBoot)
    ensures
        skip_reason(f) matches Some(s) ==> r == OverlayBoot::NothingToDo(s),
        skip_reason(f) is None && (f.demanded || duration_nanos(f.since_start)
            >= OVERLAY_SETTLE_NANOS) ==> r == OverlayBoot::CreateNow,
        skip_reason(f) is None && !f.demanded && duration_nanos(f.since_start)
            < OVERLAY_SETTLE_NANOS ==> (r matches OverlayBoot::WaitLonger(d) && duration_nanos(d)
            == OVERLAY_SETTLE_NANOS - duration_nanos(f.since_start)),
{
    if f.safe_mode {
        return OverlayBoot::NothingToDo(Skip::SafeMode);
    }
    if f.overlay_exists {
        return OverlayBoot::NothingToDo(Skip::AlreadyThere);
    }
    if f.windows_created {
        return OverlayBoot::NothingToDo(Skip::FullCreationDone);
    }
    if !f.autostart {
        return OverlayBoot::NothingToDo(Skip::NotAnAutostartLaunch);
    }
    let elapsed = as_nanos(f.since_start);
    if f.demanded || elapsed >= OVERLAY_SETTLE_NANOS as u128 {
        return OverlayBoot::CreateNow;
    }
    OverlayBoot::WaitLonger(from_nanos(OVERLAY_SETTLE_NANOS - elapsed as u64))
}

/// A wait is always strictly positive and never longer than the settle: the
/// value is fed straight to `sleep`.
pub proof fn law_wait_is_within_the_settle(f: BootFacts, d: Duration)
    requires
        skip_reason(f) is None,
        !f.demanded,
        duration_nanos(f.since_start) < OVERLAY_SETTLE_NANOS,
        duration_nanos(d) == OVERLAY_SETTLE_NANOS - duration_nanos(f.since_start),
    ensures
        0 < duration_nanos(d) <= OVERLAY_SETTLE_NANOS,
{
}

/// Safe mode wins over everything: whatever else is true, a safe-mode
/// launch is told there is nothing to do because of safe mode.
pub proof fn law_safe_mode_wins(f: BootFacts)
    requires
        f.safe_mode,
    ensures
        skip_reason(f) == Some(Skip::SafeMode),
{
}

/// The overlay never waits the dashboard's full settle.
pub proof fn law_overlay_settle_is_shorter()
    ensures
        OVERLAY_SETTLE_MS < crate::AUTOSTART_SETTLE_SECS * 1000,
        OVERLAY_SETTLE_NANOS == OVERLAY_SETTLE_MS * 1_000_000,
{
}

/// Time since the process start was marked: zero until it is marked, and
/// zero rather than negative should the clock read earlier than the mark.
/// Both readings are nanoseconds on one monotonic clock.
pub fn since_start(marked_at_nanos: Option<u64>, now_nanos: u64) -> (d: Duration)
    ensures
        duration_nanos(d) == match marked_at_nanos {
            Some(m) => if now_nanos >= m {
                (now_nanos - m) as nat
            } else {
                0
            },
            None => 0,
        },
{
    match marked_at_nanos {
        Some(m) => {
            if now_nanos >= m {
                from_nanos(now_nanos - m)
            } else {
                from_nanos(0)
            }
        },
        None => from_nanos(0),
    }
}

/// At most one early overlay attempt is queued on the main thread at a
/// time: a Space hold that finds one queued adds nothing.
pub struct AttemptQueue {
    queued: bool,
}

impl AttemptQueue {
    /// An attempt is waiting on the main thread.
    pub closed spec fn is_queued(&self) -> bool {
        self.queued
    }

    /// Nothing queued.
    pub fn new() -> (q: Self)
        ensures
            !q.is_queued(),
    {
        AttemptQueue { queued: false }
    }

    /// Asks to queue an attempt: `true` when this call queued it, `false`
    /// when one was already waiting.
    pub fn try_queue(&mut self) -> (queued_now: bool)
        ensures
            queued_now == !old(self).is_queued(),
            final(self).is_queued(),
    {
        let was = self.queued;
        self.queued = true;
        !was
    }

    /// The queued attempt ran, or could not be handed to the main thread.
    pub fn finished(&mut self)
        ensures
            !final(self).is_queued(),
    {
        self.queued = false;
    }
}

} // verus!
