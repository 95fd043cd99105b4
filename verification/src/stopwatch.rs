//! The stopwatch: a counter of elapsed seconds that is shown second by second
//! until it is stopped, and a callback that learns the final count.

use vstd::prelude::*;
use crate::display::{line, line_string, lemma_line_shape, Frame};

verus! {

/// Whether a stopwatch is still counting.
#[derive(Clone, Copy, Debug, PartialEq, Eq, Structural)]
pub enum StopwatchStatus {
    /// The stopwatch has been stopped; this is final.
    Stopped,
    /// The stopwatch is counting.
    Running,
}

/// A stopwatch. Any holder may stop it by setting `status`; the run notices at
/// its next step.
#[derive(Debug, Clone)]
pub struct StopwatchStruct<T> where T: Fn(u32) + Send + Copy + 'static {
    /// Elapsed seconds.
    pub current_time: u32,
    /// Running until it is stopped.
    pub status: StopwatchStatus,
    /// Called with the elapsed seconds when a run of the stopwatch ends.
    pub operation_on_stop: T,
}

/// How far one run of a stopwatch has come.
#[derive(Clone, Copy, Debug, PartialEq, Eq, Structural)]
pub enum RunPhase {
    /// Nothing has been shown yet.
    Fresh,
    /// A line has been shown and its second is not counted yet.
    Shown,
    /// The last line has been handed out and the callback is still owed.
    Closing,
    /// The callback has been called; the run is over.
    Done,
}

/// The position of one run of a stopwatch.
#[derive(Clone, Copy, Debug, PartialEq, Eq, Structural)]
pub struct StopwatchRun {
    /// How far the run has come.
    pub phase: RunPhase,
}

/// How a stopwatch is made.
pub trait StopwatchTrait<T> where T: Fn(u32) + Send + Copy + 'static {
    /// Makes a running stopwatch at zero seconds that holds the callback.
    fn new(operation_on_stop: T) -> (s: StopwatchStruct<T>)
        ensures
            s == StopwatchStruct::started(operation_on_stop),
    ;
}

impl<T> StopwatchTrait<T> for StopwatchStruct<T> where T: Fn(u32) + Send + Copy + 'static {
    fn new(operation_on_stop: T) -> (s: StopwatchStruct<T>) {
        StopwatchStruct { current_time: 0, status: StopwatchStatus::Running, operation_on_stop }
    }
}

impl StopwatchRun {
    /// A run that has shown nothing yet.
    pub open spec fn fresh() -> StopwatchRun {
        StopwatchRun { phase: RunPhase::Fresh }
    }

    /// Whether the next step hands out a line.
    pub open spec fn shows(self) -> bool {
        self.phase is Fresh || self.phase is Shown
    }

    /// The run after a step that found the stopwatch in `status`.
    pub open spec fn next(self, status: StopwatchStatus) -> StopwatchRun {
        StopwatchRun {
            phase: if self.shows() {
                if status is Stopped {
                    RunPhase::Closing
                } else {
                    RunPhase::Shown
                }
            } else {
                RunPhase::Done
            },
        }
    }

    /// Begins a run.
    pub fn new() -> (run: StopwatchRun)
        ensures
            run == Self::fresh(),
    {
        StopwatchRun { phase: RunPhase::Fresh }
    }
}

impl<T> StopwatchStruct<T> where T: Fn(u32) + Send + Copy + 'static {
    /// A new stopwatch: running, at zero.
    pub open spec fn started(operation_on_stop: T) -> Self {
        StopwatchStruct { current_time: 0, status: StopwatchStatus::Running, operation_on_stop }
    }

    /// The stopwatch one second later. The counter starts over after its
    /// largest value.
    pub open spec fn ticked(self) -> Self {
        StopwatchStruct {
            current_time: if self.current_time == u32::MAX {
                0
            } else {
                (self.current_time + 1) as u32
            },
            status: self.status,
            operation_on_stop: self.operation_on_stop,
        }
    }

    /// The stopwatch once it is stopped: the counter stays as it is.
    pub open spec fn stopped(self) -> Self {
        StopwatchStruct {
            current_time: self.current_time,
            status: StopwatchStatus::Stopped,
            operation_on_stop: self.operation_on_stop,
        }
    }

    /// The stopwatch after a step of `run`: the second of a line that was
    /// shown is counted, and nothing else changes.
    pub open spec fn stepped(self, run: StopwatchRun) -> Self {
        if run.phase is Shown {
            self.ticked()
        } else {
            self
        }
    }

    /// The line that a step of `run` hands out, if it hands one out: the
    /// elapsed time, as the last line once the stopwatch is stopped.
    pub open spec fn step_line(self, run: StopwatchRun) -> Option<Seq<char>> {
        if run.shows() {
            Some(line(self.stepped(run).current_time as nat, self.status is Stopped))
        } else {
            None
        }
    }

    /// The value that a step of `run` calls the callback with, if it calls it.
    pub open spec fn step_report(self, run: StopwatchRun) -> Option<u32> {
        if run.phase is Closing {
            Some(self.current_time)
        } else {
            None
        }
    }

    /// The stopwatch and its run after `n` steps between which nobody touches
    /// the stopwatch.
    pub open spec fn after(self, run: StopwatchRun, n: nat) -> (Self, StopwatchRun)
        decreases n,
    {
        if n == 0 {
            (self, run)
        } else {
            let (s, r) = self.after(run, (n - 1) as nat);
            (s.stepped(r), r.next(s.status))
        }
    }

    /// Makes a running stopwatch at zero seconds that holds the callback.
    pub fn new(operation_on_stop: T) -> (s: StopwatchStruct<T>)
        ensures
            s == Self::started(operation_on_stop),
    {
        StopwatchStruct { current_time: 0, status: StopwatchStatus::Running, operation_on_stop }
    }

    /// Stops the stopwatch. The elapsed time stays what it is.
    pub fn stop(&mut self)
        ensures
            *final(self) == old(self).stopped(),
    {
        self.status = StopwatchStatus::Stopped;
    }

    /// One step of a run. The caller writes the line it gets and, unless it is
    /// the last, flushes, waits a second and steps again.
    ///
    /// A step first counts the second of the line shown before it. Then a
    /// running stopwatch hands out its elapsed time on a line that the next
    /// one overwrites, and a stopped one hands it out on the last line. The
    /// step after the last line calls the callback with the elapsed time and
    /// hands out nothing; from then on a step does nothing at all.
    pub fn step(&mut self, run: &mut StopwatchRun) -> (f: Option<Frame>)
        requires
            old(self).step_report(*old(run)) matches Some(elapsed) ==> old(
                self,
            ).operation_on_stop.requires((elapsed,)),
        ensures
            *final(self) == old(self).stepped(*old(run)),
            *final(run) == old(run).next(old(self).status),
            match old(self).step_line(*old(run)) {
                Some(text) => f matches Some(frame) && frame.text@ == text && frame.last == (old(
                    self,
                ).status is Stopped),
                None => f is None,
            },
            old(self).step_report(*old(run)) matches Some(elapsed) ==> old(
                self,
            ).operation_on_stop.ensures((elapsed,), ()),
    {
        match run.phase {
            RunPhase::Done => None,
            RunPhase::Closing => {
                run.phase = RunPhase::Done;
                (self.operation_on_stop)(self.current_time);
                None
            },
            RunPhase::Fresh | RunPhase::Shown => {
                if let RunPhase::Shown = run.phase {
                    self.current_time = self.current_time.wrapping_add(1);
                }
                let last = match self.status {
                    StopwatchStatus::Stopped => true,
                    StopwatchStatus::Running => false,
                };
                run.phase = if last {
                    RunPhase::Closing
                } else {
                    RunPhase::Shown
                };
                Some(Frame { text: line_string(self.current_time as u64, last), last })
            },
        }
    }
}

/// While it runs, a stopwatch that starts at zero shows one second more with
/// each line: its first line reads zero, and line `n` reads `n` seconds, ends
/// in a carriage return and is not the last. No callback is called meanwhile.
pub proof fn law_elapsed_counts_ticks<T>(operation_on_stop: T, n: nat) where
    T: Fn(u32) + Send + Copy + 'static,

    requires
        n <= u32::MAX,
    ensures
        ({
            let (s, r) = StopwatchStruct::started(operation_on_stop).after(
                StopwatchRun::fresh(),
                n,
            );
            &&& s.status is Running
            &&& s.operation_on_stop == operation_on_stop
            &&& r.phase == (if n == 0 { RunPhase::Fresh } else { RunPhase::Shown })
            &&& n > 0 ==> s.current_time == n - 1
            &&& s.stepped(r).current_time == n
            &&& s.step_line(r) == Some(line(n, false))
            &&& line(n, false).last() == '\r'
            &&& !line(n, false).contains('\n')
            &&& s.step_report(r) is None
        }),
    decreases n,
{
    if n > 0 {
        law_elapsed_counts_ticks(operation_on_stop, (n - 1) as nat);
    }
    lemma_line_shape(n, false);
}

/// A stopwatch that is stopped after `n` lines of a run hands out one more
/// line, the last: it reads `n` seconds and ends in a newline. The step after
/// it calls the callback with `n`, the value shown last, and hands out
/// nothing. Every later step hands out nothing and calls nothing.
pub proof fn law_stop_reports_elapsed<T>(operation_on_stop: T, n: nat, later: nat) where
    T: Fn(u32) + Send + Copy + 'static,

    requires
        n <= u32::MAX,
    ensures
        ({
            let (s, r) = StopwatchStruct::started(operation_on_stop).after(
                StopwatchRun::fresh(),
                n,
            );
            let (s1, r1) = s.stopped().after(r, 1);
            let (s2, r2) = s.stopped().after(r, 2);
            let (s3, r3) = s.stopped().after(r, 2 + later);
            &&& s.stopped().step_line(r) == Some(line(n, true))
            &&& line(n, true).last() == '\n'
            &&& s.stopped().step_report(r) is None
            &&& s1.current_time == n
            &&& s1.step_line(r1) is None
            &&& s1.step_report(r1) == Some(n as u32)
            &&& s1.operation_on_stop == operation_on_stop
            &&& s2.current_time == n
            &&& s3.current_time == n
            &&& r3.phase is Done
            &&& s3.step_line(r3) is None
            &&& s3.step_report(r3) is None
        }),
    decreases later,
{
    law_elapsed_counts_ticks(operation_on_stop, n);
    lemma_line_shape(n, true);
    let (s, r) = StopwatchStruct::started(operation_on_stop).after(StopwatchRun::fresh(), n);
    let t = s.stopped();
    assert(t.after(r, 0) == (t, r));
    assert(t.after(r, 1) == (t.stepped(r), r.next(t.status)));
    let (s1, r1) = t.after(r, 1);
    assert(t.after(r, 2) == (s1.stepped(r1), r1.next(s1.status)));
    if later > 0 {
        law_stop_reports_elapsed(operation_on_stop, n, (later - 1) as nat);
    }
}

} // verus!
