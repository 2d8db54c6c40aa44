//! Viewer configuration values: status bar placement, slideshow timing and
//! the settings the viewer starts with.

use vstd::prelude::*;
use crate::types::{FilterType, ScaleMode};

verus! {

/// The settings the viewer starts with.
#[derive(Debug, Clone, Copy)]
pub struct AppConfig {
    pub filter_type: FilterType,
    pub scale_mode: ScaleMode,
    /// Do not show embedded thumbnails while loading.
    pub disable_thumbnail: bool,
    pub infobar: InfoBarPosition,
}

/// Position of the status bar on screen.
#[derive(Debug, Clone, Copy, PartialEq, Eq, Structural)]
pub enum InfoBarPosition {
    Top,
    Bottom,
    /// The status bar is not drawn.
    Hidden,
}

impl InfoBarPosition {
    /// Height of the status bar in terminal cells: 3 when shown, 0 when hidden.
    pub fn height(self) -> (r: u16)
        ensures
            r == (if self == InfoBarPosition::Hidden { 0u16 } else { 3u16 }),
    {
        match self {
            InfoBarPosition::Hidden => 0,
            InfoBarPosition::Top | InfoBarPosition::Bottom => 3,
        }
    }

    pub open spec fn spec_next(self) -> InfoBarPosition {
        match self {
            InfoBarPosition::Bottom => InfoBarPosition::Top,
            InfoBarPosition::Top => InfoBarPosition::Hidden,
            InfoBarPosition::Hidden => InfoBarPosition::Bottom,
        }
    }

    /// The next position when cycling: Bottom, Top, Hidden, then Bottom again.
    pub fn next(self) -> (r: InfoBarPosition)
        ensures
            r == self.spec_next(),
    {
        match self {
            InfoBarPosition::Bottom => InfoBarPosition::Top,
            InfoBarPosition::Top => InfoBarPosition::Hidden,
            InfoBarPosition::Hidden => InfoBarPosition::Bottom,
        }
    }
}

/// Three steps of the status-bar cycle return to the starting position.
pub proof fn lemma_infobar_cycle_period(p: InfoBarPosition)
    ensures
        p.spec_next() != p,
        p.spec_next().spec_next().spec_next() == p,
{
}

/// Slideshow state; the delay between transitions is kept in whole seconds.
#[derive(Debug, Clone, Copy, PartialEq, Eq, Structural)]
pub enum SlideshowState {
    /// The slideshow is off.
    Stopped,
    /// Images advance after the given delay.
    Playing { delay_secs: u32 },
    /// The slideshow is paused but keeps its delay.
    Paused { delay_secs: u32 },
}

impl SlideshowState {
    /// The configured delay in seconds, or 0 when stopped.
    pub open spec fn spec_seconds(self) -> nat {
        match self {
            SlideshowState::Stopped => 0,
            SlideshowState::Playing { delay_secs } => delay_secs as nat,
            SlideshowState::Paused { delay_secs } => delay_secs as nat,
        }
    }

    /// The state built from a seconds count: stopped for 0, playing otherwise.
    pub open spec fn spec_new(seconds: u32) -> SlideshowState {
        if seconds == 0 {
            SlideshowState::Stopped
        } else {
            SlideshowState::Playing { delay_secs: seconds }
        }
    }

    /// Builds a slideshow state from a seconds count (0 means off).
    pub fn new(seconds: u32) -> (r: SlideshowState)
        ensures
            r == Self::spec_new(seconds),
    {
        if seconds == 0 {
            SlideshowState::Stopped
        } else {
            SlideshowState::Playing { delay_secs: seconds }
        }
    }

    /// The transition delay in seconds, if the slideshow is active.
    pub fn delay(self) -> (r: Option<u32>)
        ensures
            r == (match self {
                SlideshowState::Stopped => None,
                SlideshowState::Playing { delay_secs } => Some(delay_secs),
                SlideshowState::Paused { delay_secs } => Some(delay_secs),
            }),
    {
        match self {
            SlideshowState::Stopped => None,
            SlideshowState::Playing { delay_secs } => Some(delay_secs),
            SlideshowState::Paused { delay_secs } => Some(delay_secs),
        }
    }

    /// The delay in seconds, 0 when stopped.
    pub fn seconds(self) -> (r: u32)
        ensures
            r as nat == self.spec_seconds(),
    {
        match self.delay() {
            Some(d) => d,
            None => 0,
        }
    }

    /// True when playing or paused.
    pub fn is_active(self) -> (r: bool)
        ensures
            r == !(self is Stopped),
    {
        match self {
            SlideshowState::Stopped => false,
            SlideshowState::Playing { .. } | SlideshowState::Paused { .. } => true,
        }
    }

    /// True when playing.
    pub fn is_playing(self) -> (r: bool)
        ensures
            r == (self is Playing),
    {
        match self {
            SlideshowState::Playing { .. } => true,
            _ => false,
        }
    }

    /// True when paused.
    pub fn is_paused(self) -> (r: bool)
        ensures
            r == (self is Paused),
    {
        match self {
            SlideshowState::Paused { .. } => true,
            _ => false,
        }
    }

    pub open spec fn spec_toggle_pause(self) -> SlideshowState {
        match self {
            SlideshowState::Playing { delay_secs } => SlideshowState::Paused { delay_secs },
            SlideshowState::Paused { delay_secs } => SlideshowState::Playing { delay_secs },
            SlideshowState::Stopped => SlideshowState::Stopped,
        }
    }

    /// Pauses a playing slideshow or resumes a paused one; a stopped one stays stopped.
    pub fn toggle_pause(self) -> (r: SlideshowState)
        ensures
            r == self.spec_toggle_pause(),
    {
        match self {
            SlideshowState::Playing { delay_secs } => SlideshowState::Paused { delay_secs },
            SlideshowState::Paused { delay_secs } => SlideshowState::Playing { delay_secs },
            SlideshowState::Stopped => SlideshowState::Stopped,
        }
    }

    pub open spec fn spec_increase(self) -> SlideshowState {
        let secs: int = if self.spec_seconds() + 1 > u32::MAX {
            u32::MAX as int
        } else {
            self.spec_seconds() + 1int
        };
        match self {
            SlideshowState::Paused { .. } => SlideshowState::Paused { delay_secs: secs as u32 },
            _ => SlideshowState::Playing { delay_secs: secs as u32 },
        }
    }

    /// Lengthens the delay by one second (saturating); a stopped slideshow starts
    /// playing with a one-second delay, a paused one stays paused.
    pub fn increase(self) -> (r: SlideshowState)
        ensures
            r == self.spec_increase(),
    {
        let current = self.seconds();
        let next = current.saturating_add(1);
        match self {
            SlideshowState::Paused { .. } => SlideshowState::Paused { delay_secs: next },
            _ => SlideshowState::Playing { delay_secs: next },
        }
    }

    pub open spec fn spec_decrease(self) -> SlideshowState {
        let secs = self.spec_seconds();
        if secs <= 1 {
            SlideshowState::Stopped
        } else {
            match self {
                SlideshowState::Playing { .. } => SlideshowState::Playing {
                    delay_secs: (secs - 1) as u32,
                },
                SlideshowState::Paused { .. } => SlideshowState::Paused {
                    delay_secs: (secs - 1) as u32,
                },
                SlideshowState::Stopped => SlideshowState::Stopped,
            }
        }
    }

    /// Shortens the delay by one second; reaching zero stops the slideshow.
    pub fn decrease(self) -> (r: SlideshowState)
        ensures
            r == self.spec_decrease(),
    {
        let current = self.seconds();
        let next = current.saturating_sub(1);
        if next == 0 {
            SlideshowState::Stopped
        } else {
            match self {
                SlideshowState::Playing { .. } => SlideshowState::Playing { delay_secs: next },
                SlideshowState::Paused { .. } => SlideshowState::Paused { delay_secs: next },
                SlideshowState::Stopped => SlideshowState::Stopped,
            }
        }
    }
}

/// One tick of the slideshow clock. `since_us` is the time counted towards
/// the next slide, `delta_us` the time since the previous tick, both in
/// microseconds. The clock stands still while a slideshow is paused or an
/// overlay is open; otherwise it runs (saturating). The next slide is due when
/// the slideshow plays, no load is under way, no overlay is open and the
/// counted time has reached the delay; the clock then starts again from zero.
/// The result is whether the next slide is due, and the new counted time.
pub open spec fn spec_slideshow_tick(
    s: SlideshowState,
    palette_open: bool,
    is_loading: bool,
    since_us: u64,
    delta_us: u64,
) -> (bool, u64) {
    let frozen = !(s is Stopped) && (palette_open || s is Paused);
    let counted: int = if frozen {
        since_us as int
    } else if since_us + delta_us > u64::MAX {
        u64::MAX as int
    } else {
        since_us + delta_us
    };
    if s is Playing && !is_loading && !palette_open && counted >= s.spec_seconds() * 1_000_000 {
        (true, 0u64)
    } else {
        (false, counted as u64)
    }
}

/// Advances the slideshow clock by one tick (see `spec_slideshow_tick`).
pub fn slideshow_tick(
    s: SlideshowState,
    palette_open: bool,
    is_loading: bool,
    since_us: u64,
    delta_us: u64,
) -> (r: (bool, u64))
    ensures
        r == spec_slideshow_tick(s, palette_open, is_loading, since_us, delta_us),
{
    let frozen = s.is_active() && (palette_open || s.is_paused());
    let counted: u64 = if frozen {
        since_us
    } else {
        since_us.saturating_add(delta_us)
    };
    let delay_us: u64 = s.seconds() as u64 * 1_000_000;
    if s.is_playing() && !is_loading && !palette_open && counted >= delay_us {
        (true, 0)
    } else {
        (false, counted)
    }
}

/// While a slideshow is paused or an overlay is open, no slide is due and the
/// counted time stays as it was.
pub proof fn lemma_slideshow_frozen_clock(
    s: SlideshowState,
    palette_open: bool,
    is_loading: bool,
    since_us: u64,
    delta_us: u64,
)
    requires
        !(s is Stopped),
        palette_open || s is Paused,
    ensures
        spec_slideshow_tick(s, palette_open, is_loading, since_us, delta_us) == (false, since_us),
{
}

/// A playing slideshow with no overlay and no load advances exactly when the
/// counted time reaches its delay.
pub proof fn lemma_slideshow_due_at_delay(s: SlideshowState, since_us: u64, delta_us: u64)
    requires
        s is Playing,
        since_us + delta_us <= u64::MAX,
    ensures
        spec_slideshow_tick(s, false, false, since_us, delta_us).0
            <==> since_us + delta_us >= s.spec_seconds() * 1_000_000,
{
}

/// The seconds count a state is built from is the one it reports.
pub proof fn lemma_slideshow_new_seconds(s: u32)
    ensures
        SlideshowState::spec_new(s).spec_seconds() == s as nat,
        SlideshowState::spec_new(s).spec_seconds() == 0 <==> SlideshowState::spec_new(s) is Stopped,
{
}

/// Pausing and resuming twice returns to the original state, and keeps the delay.
pub proof fn lemma_slideshow_toggle_involutive(s: SlideshowState)
    ensures
        s.spec_toggle_pause().spec_toggle_pause() == s,
        s.spec_toggle_pause().spec_seconds() == s.spec_seconds(),
{
}

/// Lengthening a delay below the maximum and then shortening it again restores
/// the state, for a slideshow that is playing or paused.
pub proof fn lemma_slideshow_increase_decrease(s: SlideshowState)
    requires
        !(s is Stopped),
        1 <= s.spec_seconds() < u32::MAX,
    ensures
        s.spec_increase().spec_decrease() == s,
{
    let n = s.spec_seconds();
    assert(s.spec_increase().spec_seconds() == n + 1);
    assert(((n + 1) - 1) as u32 == n);
}

/// Shortening a delay of at least two seconds and lengthening it again restores the state.
pub proof fn lemma_slideshow_decrease_increase(s: SlideshowState)
    requires
        s.spec_seconds() >= 2,
    ensures
        s.spec_decrease().spec_increase() == s,
{
}

} // verus!
