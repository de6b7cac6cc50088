//! Window descriptions.
use vstd::prelude::*;

verus! {

/// The size of a window in pixels.
#[derive(Debug, Copy, Clone, PartialEq, Eq, Structural)]
pub struct Dimensions {
    pub width: u32,
    pub height: u32,
}

/// What a window is created with.
#[derive(Debug, Copy, Clone, PartialEq)]
pub struct InitialWindowInfo {
    pub initial_dimensions: Dimensions,
    pub title: &'static str,
}

/// What a window keeps about the cursor: whether the user wants it hidden
/// and captured, and whether the window has the focus. The cursor is shown
/// whenever the window loses the focus.
pub struct Window {
    capture_cursor: bool,
    focused: bool,
}

impl Window {
    /// A new window: focused, with the cursor captured.
    pub fn new() -> (w: Self)
        ensures
            w.wants_capture(),
            w.is_focused_spec(),
    {
        Window { capture_cursor: true, focused: true }
    }

    /// Whether the user wants the cursor captured.
    pub closed spec fn wants_capture(&self) -> bool {
        self.capture_cursor
    }

    pub closed spec fn is_focused_spec(&self) -> bool {
        self.focused
    }

    /// Whether the window has the focus.
    pub fn is_focused(&self) -> (r: bool)
        ensures
            r == self.is_focused_spec(),
    {
        self.focused
    }

    /// Records whether the cursor should be captured; gives the capture to
    /// apply to the window now.
    pub fn set_capture_cursor(&mut self, capture: bool) -> (apply: bool)
        ensures
            apply == capture,
            final(self).wants_capture() == capture,
            final(self).is_focused_spec() == old(self).is_focused_spec(),
    {
        self.capture_cursor = capture;
        capture
    }

    /// The capture to apply when the window starts.
    pub fn on_start(&self) -> (apply: bool)
        ensures
            apply == self.wants_capture(),
    {
        self.capture_cursor
    }

    /// The capture to apply when the focus changes, if any: on gaining the
    /// focus the cursor is captured if the user wants it; on losing the
    /// focus it is released.
    pub fn on_focus(&self, focus: bool) -> (apply: Option<bool>)
        ensures
            apply == if focus {
                if self.wants_capture() {
                    Some(true)
                } else {
                    None::<bool>
                }
            } else {
                Some(false)
            },
    {
        if focus {
            if self.capture_cursor {
                Some(true)
            } else {
                None
            }
        } else {
            Some(false)
        }
    }
}

} // verus!
