//! Scroll state tracking for the alternate-screen transcript.
use vstd::prelude::*;

verus! {

const TAIL_SENTINEL: usize = usize::MAX;

/// Two scroll events closer than this, in nanoseconds, come from a trackpad.
pub const TRACKPAD_EVENT_WINDOW: u64 = 35_000_000;

pub const WHEEL_LINES_PER_TICK: i32 = 3;

pub const TRACKPAD_BASE_LINES_PER_TICK: i32 = 1;

pub const TRACKPAD_MID_LINES_PER_TICK: i32 = 2;

pub const TRACKPAD_MAX_LINES_PER_TICK: i32 = 3;

/// Flat line-offset scroll state for the transcript view.
#[derive(Debug, Clone, Copy, PartialEq, Eq, Structural)]
pub struct TranscriptScroll {
    pub offset: usize,
}

impl Default for TranscriptScroll {
    fn default() -> (r: Self)
        ensures
            r.is_tail(),
    {
        Self::to_bottom()
    }
}

impl TranscriptScroll {
    /// Whether the view follows the end of the transcript.
    pub open spec fn is_tail(self) -> bool {
        self.offset == usize::MAX
    }

    /// The state that shows `top` first, which follows the end of the transcript
    /// where `top` is the last possible start.
    pub open spec fn settled(top: int, max_start: int) -> TranscriptScroll {
        if top >= max_start {
            TranscriptScroll { offset: usize::MAX }
        } else {
            TranscriptScroll { offset: top as usize }
        }
    }

    /// The first line shown where the last possible start is `max_start`.
    pub open spec fn top(self, max_start: int) -> int {
        if self.is_tail() || self.offset >= max_start {
            max_start
        } else {
            self.offset as int
        }
    }

    pub fn to_bottom() -> (r: Self)
        ensures
            r.is_tail(),
    {
        TranscriptScroll { offset: TAIL_SENTINEL }
    }

    pub fn at_line(offset: usize) -> (r: Self)
        ensures
            r.offset == offset,
    {
        TranscriptScroll { offset }
    }

    pub fn resolve_top(self, max_start: usize) -> (r: (Self, usize))
        ensures
            r.1 == self.top(max_start as int),
            r.0 == Self::settled(self.top(max_start as int), max_start as int),
    {
        if self.offset == TAIL_SENTINEL {
            return (Self::to_bottom(), max_start);
        }
        if self.offset >= max_start {
            (Self::to_bottom(), max_start)
        } else {
            (Self::at_line(self.offset), self.offset)
        }
    }

    /// The state after moving by `delta_lines`: from the line shown first, never
    /// above the transcript's start nor past its last possible start. A transcript
    /// that fits the view follows its end.
    pub fn scrolled_by(
        self,
        delta_lines: i32,
        total_lines: usize,
        visible_lines: usize,
    ) -> (r: Self)
        ensures
            r == (if delta_lines == 0 {
                self
            } else if total_lines <= visible_lines {
                TranscriptScroll { offset: usize::MAX }
            } else {
                let max_start = total_lines - visible_lines;
                let moved = self.top(max_start) + delta_lines;
                Self::settled(
                    if moved < 0 {
                        0
                    } else {
                        moved
                    },
                    max_start,
                )
            }),
    {
        if delta_lines == 0 {
            return self;
        }
        if total_lines <= visible_lines {
            return Self::to_bottom();
        }
        let max_start: usize = total_lines - visible_lines;
        let current_top: usize = if self.offset >= max_start {
            max_start
        } else {
            self.offset
        };
        let new_top: usize = if delta_lines < 0 {
            let up: usize = (-(delta_lines as i64)) as usize;
            current_top.saturating_sub(up)
        } else {
            let moved: usize = current_top.saturating_add(delta_lines as usize);
            if moved > max_start {
                max_start
            } else {
                moved
            }
        };
        if new_top >= max_start {
            Self::to_bottom()
        } else {
            Self::at_line(new_top)
        }
    }
}

/// Scrolling keeps the first line shown between the transcript's start and its
/// last possible start.
pub proof fn law_top_stays_in_range(scroll: TranscriptScroll, max_start: nat)
    ensures
        0 <= scroll.top(max_start as int) <= max_start,
{
}

/// A view that shows the end keeps following it, however the transcript grows.
pub proof fn law_tail_follows_growth(top: int, max_start: nat, grown: nat)
    requires
        top >= max_start,
    ensures
        TranscriptScroll::settled(top, max_start as int).top(grown as int) == grown,
{
}

/// A settled state shows the line that it was settled on.
pub proof fn law_settled_line_is_shown(top: int, max_start: nat)
    requires
        0 <= top < max_start <= usize::MAX,
    ensures
        TranscriptScroll::settled(top, max_start as int).top(max_start as int) == top,
{
}

#[derive(Debug, Clone, Copy, PartialEq, Eq, Structural)]
pub enum ScrollDirection {
    Up,
    Down,
}

impl ScrollDirection {
    pub open spec fn signum(self) -> int {
        match self {
            ScrollDirection::Up => -1,
            ScrollDirection::Down => 1,
        }
    }

    pub fn sign(self) -> (r: i32)
        ensures
            r == self.signum(),
    {
        match self {
            ScrollDirection::Up => -1,
            ScrollDirection::Down => 1,
        }
    }
}

/// What is known of the scroll events so far. Times are in nanoseconds on a clock
/// that does not run backwards.
#[derive(Debug, Clone, Copy)]
pub struct MouseScrollState {
    pub last_event_at: Option<u64>,
    pub last_direction: Option<ScrollDirection>,
    pub rapid_same_direction_ticks: u8,
}

#[derive(Debug, Clone, Copy, PartialEq, Eq, Structural)]
pub struct ScrollUpdate {
    pub delta_lines: i32,
}

impl Default for MouseScrollState {
    fn default() -> (r: Self)
        ensures
            r == (MouseScrollState {
                last_event_at: None,
                last_direction: None,
                rapid_same_direction_ticks: 0,
            }),
    {
        MouseScrollState {
            last_event_at: None,
            last_direction: None,
            rapid_same_direction_ticks: 0,
        }
    }
}

/// The lines that a trackpad event moves, by how many came in a row.
pub open spec fn trackpad_lines(ticks: u8) -> int {
    if ticks <= 2 {
        1
    } else if ticks <= 5 {
        2
    } else {
        3
    }
}

impl MouseScrollState {
    /// Whether an event at `now` follows the last one closely enough to come from a
    /// trackpad.
    pub open spec fn is_trackpad(self, now: u64) -> bool {
        self.last_event_at matches Some(last) && now - last < TRACKPAD_EVENT_WINDOW
    }

    /// The number of trackpad events in a row in one direction, after one more.
    pub open spec fn next_ticks(self, direction: ScrollDirection, now: u64) -> u8 {
        if !self.is_trackpad(now) {
            0
        } else if self.last_direction != Some(direction) {
            1
        } else if self.rapid_same_direction_ticks == u8::MAX {
            u8::MAX
        } else {
            (self.rapid_same_direction_ticks + 1) as u8
        }
    }

    pub fn on_scroll_at(&mut self, direction: ScrollDirection, now: u64) -> (r: ScrollUpdate)
        ensures
            *final(self) == (MouseScrollState {
                last_event_at: Some(now),
                last_direction: Some(direction),
                rapid_same_direction_ticks: old(self).next_ticks(direction, now),
            }),
            r.delta_lines == direction.signum() * (if old(self).is_trackpad(now) {
                trackpad_lines(old(self).next_ticks(direction, now))
            } else {
                3
            }),
    {
        let is_trackpad = match self.last_event_at {
            Some(last) => now.saturating_sub(last) < TRACKPAD_EVENT_WINDOW,
            None => false,
        };
        let same_direction = match self.last_direction {
            Some(last) => last == direction,
            None => false,
        };
        self.last_event_at = Some(now);
        self.last_direction = Some(direction);
        let lines_per_tick: i32 = if is_trackpad {
            if same_direction {
                self.rapid_same_direction_ticks = self.rapid_same_direction_ticks.saturating_add(1);
            } else {
                self.rapid_same_direction_ticks = 1;
            }
            if self.rapid_same_direction_ticks <= 2 {
                TRACKPAD_BASE_LINES_PER_TICK
            } else if self.rapid_same_direction_ticks <= 5 {
                TRACKPAD_MID_LINES_PER_TICK
            } else {
                TRACKPAD_MAX_LINES_PER_TICK
            }
        } else {
            self.rapid_same_direction_ticks = 0;
            WHEEL_LINES_PER_TICK
        };
        let delta_lines: i32 = match direction {
            ScrollDirection::Up => -lines_per_tick,
            ScrollDirection::Down => lines_per_tick,
        };
        ScrollUpdate { delta_lines }
    }
}

} // verus!
