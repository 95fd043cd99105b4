//! The countdown timer: a fixed duration that is shown second by second until
//! it reaches zero.

use vstd::prelude::*;
use crate::display::{line, line_string, lemma_line_shape, lemma_line_zero, Frame};

verus! {

/// What `new` answers when the three components add up to no time at all.
pub const INVALID_DURATION: &'static str = "Duration need to be 1 or more seconds.";

/// The number of seconds in `hours`, `minutes` and `seconds` together.
pub open spec fn total_seconds(hours: nat, minutes: nat, seconds: nat) -> nat {
    hours * 3600 + minutes * 60 + seconds
}

/// A countdown timer. It is never changed once made: a run works on a
/// [`Countdown`] of its own.
#[derive(Clone, Copy, Debug, PartialEq, Eq, Structural)]
pub struct TimerStruct {
    /// The total duration in seconds. It is wider than the components so that
    /// every choice of them has its exact total.
    pub duration: u64,
    /// The hours the timer was made with.
    pub hours: u32,
    /// The minutes the timer was made with.
    pub minutes: u32,
    /// The seconds the timer was made with.
    pub seconds: u32,
}

/// The position of one run of a timer: the value that the next line shows.
#[derive(Clone, Copy, Debug, PartialEq, Eq, Structural)]
pub struct Countdown {
    /// Seconds still to go.
    pub remaining: u64,
    /// Whether the last line has been handed out.
    pub finished: bool,
}

/// How a timer is made and how a run of it begins.
pub trait TimerTrait {
    /// Makes a timer of `hours`, `minutes` and `seconds`, which must not all
    /// be zero.
    fn new(hours: u32, minutes: u32, seconds: u32) -> (r: Result<TimerStruct, &'static str>)
        ensures
            total_seconds(hours as nat, minutes as nat, seconds as nat) == 0 ==> (r matches Err(e)
                && e@ == INVALID_DURATION@),
            total_seconds(hours as nat, minutes as nat, seconds as nat) > 0 ==> r == Ok::<
                TimerStruct,
                &'static str,
            >(TimerStruct::of(hours, minutes, seconds)),
    ;

    /// Begins a run at the timer's full duration.
    fn countdown(&self) -> Countdown;
}

impl TimerStruct {
    /// The timer that `hours`, `minutes` and `seconds` stand for.
    pub open spec fn of(hours: u32, minutes: u32, seconds: u32) -> TimerStruct {
        TimerStruct {
            duration: total_seconds(hours as nat, minutes as nat, seconds as nat) as u64,
            hours,
            minutes,
            seconds,
        }
    }

    /// The duration is the total of the components and is not zero.
    pub open spec fn wf(self) -> bool {
        &&& self.duration == total_seconds(
            self.hours as nat,
            self.minutes as nat,
            self.seconds as nat,
        )
        &&& self.duration > 0
    }
}

impl TimerTrait for TimerStruct {
    fn new(hours: u32, minutes: u32, seconds: u32) -> (r: Result<TimerStruct, &'static str>)
        ensures
            r matches Ok(t) ==> t.wf(),
    {
        let duration: u64 = (hours as u64) * 3600 + (minutes as u64) * 60 + (seconds as u64);
        if duration == 0 {
            return Err(INVALID_DURATION);
        }
        Ok(TimerStruct { duration, hours, minutes, seconds })
    }

    fn countdown(&self) -> (c: Countdown)
        ensures
            c == (Countdown { remaining: self.duration, finished: false }),
    {
        Countdown { remaining: self.duration, finished: false }
    }
}

/// The lines of a whole run from `d` seconds: `d`, `d - 1`, and so on down to
/// zero, the line for zero being the last.
pub open spec fn countdown_lines(d: nat) -> Seq<Seq<char>> {
    Seq::new(d + 1, |i: int| line((d - i) as nat, i == d))
}

impl Countdown {
    /// The line that the next step hands out.
    pub open spec fn next_line(self) -> Seq<char> {
        line(self.remaining as nat, self.remaining == 0)
    }

    /// The position after the next step.
    pub open spec fn next(self) -> Countdown {
        if self.finished {
            self
        } else if self.remaining == 0 {
            Countdown { remaining: 0, finished: true }
        } else {
            Countdown { remaining: (self.remaining - 1) as u64, finished: false }
        }
    }

    /// Every line still to come, obtained by stepping until the run is over.
    pub open spec fn output(self) -> Seq<Seq<char>>
        decreases self.remaining, (if self.finished { 0int } else { 1int }),
    {
        if self.finished {
            Seq::empty()
        } else {
            seq![self.next_line()] + self.next().output()
        }
    }

    /// One tick. While the run lasts it hands out the line for the current
    /// value and moves one second down; the line for zero is the last. After
    /// that nothing is handed out and nothing changes.
    pub fn step(&mut self) -> (f: Option<Frame>)
        ensures
            old(self).finished ==> f is None,
            !old(self).finished ==> (f matches Some(frame) && frame.text@ == old(self).next_line()
                && frame.last == (old(self).remaining == 0)),
            *final(self) == old(self).next(),
    {
        if self.finished {
            return None;
        }
        let last = self.remaining == 0;
        let text = line_string(self.remaining, last);
        if last {
            self.finished = true;
        } else {
            self.remaining = self.remaining - 1;
        }
        Some(Frame { text, last })
    }
}

/// Stepping through a run yields exactly the lines from the current value
/// down to zero.
pub proof fn lemma_output_is_countdown(c: Countdown)
    requires
        !c.finished,
    ensures
        c.output() =~= countdown_lines(c.remaining as nat),
    decreases c.remaining,
{
    let d = c.remaining as nat;
    if c.remaining == 0 {
        assert(c.next().output() =~= Seq::<Seq<char>>::empty());
    } else {
        lemma_output_is_countdown(c.next());
        let rest = countdown_lines((d - 1) as nat);
        assert forall|i: int| 0 <= i < d + 1 implies (seq![c.next_line()] + rest)[i]
            == countdown_lines(d)[i] by {
            if i > 0 {
                assert(rest[i - 1] == line((d - 1 - (i - 1)) as nat, i - 1 == d - 1));
            }
        }
    }
}

/// A timer made of components that are not all zero, run to its end, shows
/// one line more than its duration has seconds. Line `i` shows the duration
/// less `i`, so each line shows one second less than the line before it. The
/// last line reads `0:0:0` and ends in a newline; every other line ends in a
/// carriage return and holds no newline.
pub proof fn law_countdown_run(hours: u32, minutes: u32, seconds: u32)
    requires
        total_seconds(hours as nat, minutes as nat, seconds as nat) > 0,
    ensures
        ({
            let d = total_seconds(hours as nat, minutes as nat, seconds as nat);
            let timer = TimerStruct::of(hours, minutes, seconds);
            let out = (Countdown { remaining: timer.duration, finished: false }).output();
            &&& timer.wf()
            &&& timer.duration == d
            &&& out.len() == d + 1
            &&& forall|i: int| 0 <= i <= d ==> #[trigger] out[i] == line((d - i) as nat, i == d)
            &&& out[d as int] == seq!['0', ':', '0', ':', '0', '\n']
            &&& forall|i: int|
                0 <= i < d ==> (#[trigger] out[i]).last() == '\r' && !out[i].contains('\n')
        }),
{
    let d = total_seconds(hours as nat, minutes as nat, seconds as nat);
    let timer = TimerStruct::of(hours, minutes, seconds);
    let start = Countdown { remaining: timer.duration, finished: false };
    lemma_output_is_countdown(start);
    lemma_line_zero(true);
    let out = start.output();
    assert forall|i: int| 0 <= i < d implies (#[trigger] out[i]).last() == '\r' && !out[i].contains(
        '\n',
    ) by {
        lemma_line_shape((d - i) as nat, false);
    }
}

} // verus!
