//! The floating status bar: where it sits, and when it shows, changes and
//! hides its text. Drawing it is the caller's.
use vstd::prelude::*;

verus! {

pub const WINDOW_WIDTH: i32 = 320;
pub const WINDOW_HEIGHT: i32 = 36;
pub const MARGIN_RIGHT: i32 = 16;
pub const MARGIN_TOP: i32 = 16;
/// The bar hides this long after its last update (milliseconds).
pub const AUTO_HIDE_MS: u64 = 3000;

/// The bar's top-left corner on a screen `screen_width` wide: the top-right
/// corner, inside the margins.
pub fn window_position(screen_width: i32) -> (r: (i32, i32))
    requires
        screen_width >= i32::MIN + WINDOW_WIDTH + MARGIN_RIGHT,
    ensures
        r.0 == screen_width - WINDOW_WIDTH - MARGIN_RIGHT,
        r.1 == MARGIN_TOP,
{
    (screen_width - WINDOW_WIDTH - MARGIN_RIGHT, MARGIN_TOP)
}

/// What the bar shows.
#[derive(Debug)]
pub struct OverlayState {
    pub text: String,
    /// When the text last changed (milliseconds on the caller's clock).
    pub last_update: u64,
    pub visible: bool,
}

/// What the window must do after a change.
#[derive(Debug, PartialEq, Eq, Structural)]
pub enum WindowAction {
    /// Nothing but a repaint, if anything.
    Keep,
    /// Show the window without taking the focus.
    Show,
    /// Hide the window.
    Hide,
}

impl OverlayState {
    pub fn new(now: u64) -> (r: OverlayState)
        ensures
            r.text@.len() == 0,
            r.last_update == now,
            !r.visible,
    {
        OverlayState { text: String::new(), last_update: now, visible: false }
    }

    /// New text arrives at `now`: it is shown, and the window appears if it
    /// was hidden.
    pub fn update(&mut self, text: String, now: u64) -> (a: WindowAction)
        ensures
            final(self).text == text,
            final(self).last_update == now,
            final(self).visible,
            a == (if old(self).visible { WindowAction::Keep } else { WindowAction::Show }),
    {
        self.text = text;
        self.last_update = now;
        if self.visible {
            WindowAction::Keep
        } else {
            self.visible = true;
            WindowAction::Show
        }
    }

    /// The bar is hidden and its text dropped.
    pub fn hide_now(&mut self) -> (a: WindowAction)
        ensures
            final(self).text@.len() == 0,
            !final(self).visible,
            final(self).last_update == old(self).last_update,
            a == WindowAction::Hide,
    {
        self.visible = false;
        self.text = String::new();
        WindowAction::Hide
    }

    /// Whether a pass of the loop at `now` hides the bar: it is visible and
    /// its text is older than [`AUTO_HIDE_MS`] (no time passes when the
    /// clock seems to go back).
    pub open spec fn expired(self, now: u64) -> bool {
        let elapsed = if now >= self.last_update { now - self.last_update } else { 0 };
        self.visible && elapsed > AUTO_HIDE_MS
    }

    /// A pass of the message loop at `now` (see [`OverlayState::expired`]).
    pub fn tick(&mut self, now: u64) -> (a: WindowAction)
        ensures
            ({
                if old(self).expired(now) {
                    a == WindowAction::Hide && !final(self).visible && final(self).text@.len() == 0
                        && final(self).last_update == old(self).last_update
                } else {
                    a == WindowAction::Keep && *final(self) == *old(self)
                }
            }),
    {
        let elapsed = if now >= self.last_update { now - self.last_update } else { 0 };
        if self.visible && elapsed > AUTO_HIDE_MS {
            self.hide_now()
        } else {
            WindowAction::Keep
        }
    }
}

/// Law (text stays up for the auto-hide time): after an update at `t`,
/// no pass of the loop up to `t + AUTO_HIDE_MS` hides the bar, and every
/// pass after that does.
pub proof fn law_shown_until_timeout(s: OverlayState, t: u64, now: u64)
    requires
        s.visible,
        s.last_update == t,
        t <= now,
    ensures
        s.expired(now) <==> now - t > AUTO_HIDE_MS,
{
}

} // verus!
