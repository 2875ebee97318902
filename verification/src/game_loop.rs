use vstd::prelude::*;

verus! {

/// How many frames a second the loop aims at.
pub const FPS: u64 = 120;

/// The nanoseconds of a second.
pub const SECOND: u64 = 1_000_000_000;

/// The time the loop sleeps after a frame, as a number of time units: what
/// is left of the frame's share once the time since the frame began is
/// taken away, or `None` where the frame took longer than its share.
pub open spec fn time_left(elapsed: int, share: int, taken: int) -> Option<int> {
    if elapsed + share >= taken {
        Some(elapsed + share - taken)
    } else {
        None
    }
}

/// The nanoseconds of a millisecond.
pub const MILLISECOND: u128 = 1_000_000;

/// The share of a frame at `fps` frames a second, in nanoseconds: the whole
/// milliseconds of a second divided among the frames.
pub open spec fn frame_share(fps: u32) -> int {
    (1000int / (fps as int)) * (MILLISECOND as int)
}

/// The nanoseconds to sleep for a frame rate of `fps`, after `elapsed`
/// nanoseconds were measured and `taken` nanoseconds have gone by since the
/// same moment; `None` where the time is over.
pub fn compute_sleep_duration(elapsed: u128, taken: u128, fps: u32) -> (sleep: Option<u128>)
    requires
        fps > 0,
        elapsed + frame_share(fps) <= u128::MAX,
    ensures
        match sleep {
            Some(nanos) => time_left(elapsed as int, frame_share(fps), taken as int) == Some(
                nanos as int,
            ),
            None => time_left(elapsed as int, frame_share(fps), taken as int) is None,
        },
{
    let ms_per_frame: u128 = 1000 / (fps as u128);
    assert(ms_per_frame * MILLISECOND == frame_share(fps)) by {
        assert(ms_per_frame <= 1000);
        assert(ms_per_frame * 1_000_000 <= 1_000_000_000) by (nonlinear_arith)
            requires
                ms_per_frame <= 1000,
        ;
    }
    (elapsed + ms_per_frame * MILLISECOND).checked_sub(taken)
}

/// The clock of the loop, in nanoseconds: when the current frame and the
/// frame before it began.
#[derive(Debug, Clone, Copy, PartialEq, Eq, Structural)]
pub struct Time {
    pub now: u64,
    pub last_time: u64,
}

/// The state of the main loop between the frames.
#[derive(Debug, Clone, Copy, PartialEq, Eq, Structural)]
pub struct GameLoop {
    pub frame_rate: u64,
    pub frame_number: u64,
    pub is_running: bool,
    pub start: u64,
    pub time: Time,
}

impl GameLoop {
    /// A loop that has not started, with a frame's share of a second.
    pub fn new() -> (game_loop: Self)
        ensures
            game_loop == (GameLoop {
                frame_rate: (SECOND / FPS) as u64,
                frame_number: 0,
                is_running: false,
                start: 0,
                time: Time { now: 0, last_time: 0 },
            }),
            game_loop.frame_rate == 8_333_333,
    {
        GameLoop {
            frame_rate: SECOND / FPS,
            frame_number: 0,
            is_running: false,
            start: 0,
            time: Time { now: 0, last_time: 0 },
        }
    }

    /// Starts the loop at the time `now`.
    pub fn begin(&mut self, now: u64)
        ensures
            *final(self) == (GameLoop {
                is_running: true,
                start: now,
                time: Time { now, last_time: old(self).time.last_time },
                ..*old(self)
            }),
    {
        self.is_running = true;
        self.time.now = now;
        self.start = now;
    }

    /// Begins a frame at the time `now`; returns the nanoseconds since the
    /// frame before began.
    pub fn update_time(&mut self, now: u64) -> (dt: u64)
        requires
            old(self).time.now <= now,
        ensures
            dt == now - old(self).time.now,
            *final(self) == (GameLoop {
                time: Time { now, last_time: old(self).time.now },
                ..*old(self)
            }),
    {
        self.time.last_time = self.time.now;
        self.time.now = now;
        self.time.now - self.time.last_time
    }

    /// Ends a frame: counts it, and notes whether the loop goes on.
    pub fn frame_done(&mut self, running: bool)
        requires
            old(self).frame_number < u64::MAX,
        ensures
            *final(self) == (GameLoop {
                is_running: running,
                frame_number: (old(self).frame_number + 1) as u64,
                ..*old(self)
            }),
    {
        self.is_running = running;
        self.frame_number = self.frame_number + 1;
    }

    /// The nanoseconds to sleep at the time `now`, so that the frame takes
    /// its share; `None` where the frame took longer.
    pub fn sync_loop(&self, now: u64) -> (sleep: Option<u64>)
        requires
            self.time.now + self.frame_rate <= u64::MAX,
        ensures
            match sleep {
                Some(nanos) => time_left(self.time.now as int, self.frame_rate as int, now as int)
                    == Some(nanos as int),
                None => time_left(self.time.now as int, self.frame_rate as int, now as int) is None,
            },
    {
        (self.time.now + self.frame_rate).checked_sub(now)
    }
}

impl Default for GameLoop {
    /// A loop that has not started and gives a frame no time at all.
    fn default() -> (game_loop: Self)
        ensures
            game_loop == (GameLoop {
                frame_rate: 0,
                frame_number: 0,
                is_running: false,
                start: 0,
                time: Time { now: 0, last_time: 0 },
            }),
    {
        GameLoop {
            frame_rate: 0,
            frame_number: 0,
            is_running: false,
            start: 0,
            time: Time { now: 0, last_time: 0 },
        }
    }
}

/// A frame that took no longer than its share is followed by a sleep that
/// fills the share; a longer frame by none.
pub proof fn lemma_sleep_fills_share(began: int, share: int, now: int)
    requires
        began <= now,
        0 <= share,
    ensures
        now - began <= share <==> time_left(began, share, now) is Some,
        time_left(began, share, now) is Some ==> now + time_left(began, share, now)->0 == began
            + share,
{
}

} // verus!
