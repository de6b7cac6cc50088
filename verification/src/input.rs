//! Which keys and mouse buttons are held, this frame and the frame before.
use vstd::prelude::*;

verus! {

/// The number of mouse buttons that are tracked.
pub const MOUSE_BUTTONS: usize = 16;

/// The number of key codes that are tracked.
pub const KEYS: usize = 255;

/// An input event, as far as the held state goes: a mouse button or a key
/// went down or up; anything else changes nothing here.
#[derive(Debug, Clone, Copy, PartialEq, Eq, Structural)]
pub enum InputEvent {
    MouseButton { button: usize, pressed: bool },
    Key { code: usize, pressed: bool },
    Other,
}

/// The held buttons and keys of one frame.
#[derive(Debug, Clone, Copy)]
struct InputState {
    /// Whether each mouse button is held down.
    mouse_held: [bool; 16],
    /// Whether each key is held down.
    key_held: [bool; 255],
}

impl InputState {
    fn new() -> (s: Self)
        ensures
            s.mouse_held@ == Seq::new(16, |i: int| false),
            s.key_held@ == Seq::new(255, |i: int| false),
    {
        let s = InputState { mouse_held: [false; 16], key_held: [false; 255] };
        assert(s.mouse_held@ =~= Seq::new(16, |i: int| false));
        assert(s.key_held@ =~= Seq::new(255, |i: int| false));
        s
    }
}

/// The input of this frame and the frame before, and whether events are
/// taken while the window has no focus.
pub struct Input {
    state: InputState,
    state_prev: InputState,
    events_during_unfocus: bool,
}

/// Input as values: held keys and buttons now and a frame ago.
pub struct InputModel {
    pub keys: Seq<bool>,
    pub keys_prev: Seq<bool>,
    pub buttons: Seq<bool>,
    pub buttons_prev: Seq<bool>,
    pub events_during_unfocus: bool,
}

impl View for Input {
    type V = InputModel;

    closed spec fn view(&self) -> InputModel {
        InputModel {
            keys: self.state.key_held@,
            keys_prev: self.state_prev.key_held@,
            buttons: self.state.mouse_held@,
            buttons_prev: self.state_prev.mouse_held@,
            events_during_unfocus: self.events_during_unfocus,
        }
    }
}

/// Whether an event can be recorded: its button or key is one that is
/// tracked.
pub open spec fn event_in_range(e: InputEvent) -> bool {
    match e {
        InputEvent::MouseButton { button, .. } => button < MOUSE_BUTTONS,
        InputEvent::Key { code, .. } => code < KEYS,
        InputEvent::Other => true,
    }
}

/// The held state after an event.
pub open spec fn after_event(m: InputModel, e: InputEvent) -> InputModel {
    match e {
        InputEvent::MouseButton { button, pressed } => InputModel {
            buttons: m.buttons.update(button as int, pressed),
            ..m
        },
        InputEvent::Key { code, pressed } => InputModel { keys: m.keys.update(code as int, pressed), ..m },
        InputEvent::Other => m,
    }
}

/// Whether a key went down this frame: up a frame ago, held now.
pub open spec fn went_down(m: InputModel, key: usize) -> bool {
    !m.keys_prev[key as int] && m.keys[key as int]
}

/// The state at the start of the next frame: what is held now becomes
/// what was held a frame ago.
pub open spec fn rolled_over(m: InputModel) -> InputModel {
    InputModel { keys_prev: m.keys, buttons_prev: m.buttons, ..m }
}

impl Input {
    /// Nothing held, events taken only while the window has focus.
    pub fn new() -> (r: Self)
        ensures
            r@.keys == Seq::new(255, |i: int| false),
            r@.keys_prev == Seq::new(255, |i: int| false),
            r@.buttons == Seq::new(16, |i: int| false),
            r@.buttons_prev == Seq::new(16, |i: int| false),
            !r@.events_during_unfocus,
    {
        Input { state: InputState::new(), state_prev: InputState::new(), events_during_unfocus: false }
    }

    /// Records an event, unless the window has no focus and events are not
    /// taken then.
    pub fn update(&mut self, event: &InputEvent, window_focused: bool)
        requires
            event_in_range(*event),
        ensures
            window_focused || old(self)@.events_during_unfocus ==> final(self)@ == after_event(
                old(self)@,
                *event,
            ),
            !(window_focused || old(self)@.events_during_unfocus) ==> final(self)@ == old(self)@,
    {
        if window_focused || self.events_during_unfocus {
            self.handle_input(event);
        }
    }

    fn handle_input(&mut self, event: &InputEvent)
        requires
            event_in_range(*event),
        ensures
            final(self)@ == after_event(old(self)@, *event),
    {
        match *event {
            InputEvent::MouseButton { button, pressed } => {
                self.state.mouse_held.set(button, pressed);
            },
            InputEvent::Key { code, pressed } => {
                self.state.key_held.set(code, pressed);
            },
            InputEvent::Other => {},
        }
    }

    /// Whether the fullscreen state should change after this frame's input,
    /// and to what: holding `alt` while `enter` goes down toggles it.
    pub fn handle_builtin(&self, alt: usize, enter: usize, fullscreen: bool) -> (r: Option<bool>)
        requires
            alt < KEYS,
            enter < KEYS,
        ensures
            r == (if self@.keys[alt as int] && !self@.keys_prev[enter as int] && self@.keys[enter as int] {
                Some(!fullscreen)
            } else {
                None::<bool>
            }),
    {
        if self.get_button_down(alt) && self.get_button_was_down(enter) {
            Some(!fullscreen)
        } else {
            None
        }
    }

    /// Moves to the next frame: what is held now is what was held before.
    pub fn rollover_state(&mut self)
        ensures
            final(self)@ == rolled_over(old(self)@),
    {
        self.state_prev = self.state;
    }

    /// Whether the key went down this frame.
    pub fn get_button_was_down(&self, key: usize) -> (r: bool)
        requires
            key < KEYS,
        ensures
            r == went_down(self@, key),
    {
        !self.state_prev.key_held[key] && self.state.key_held[key]
    }

    /// Whether the key is held down.
    pub fn get_button_down(&self, key: usize) -> (r: bool)
        requires
            key < KEYS,
        ensures
            r == self@.keys[key as int],
    {
        self.state.key_held[key]
    }

    /// Whether the key is up.
    pub fn get_button_up(&self, key: usize) -> (r: bool)
        requires
            key < KEYS,
        ensures
            r == !self@.keys[key as int],
    {
        !self.get_button_down(key)
    }

    /// Sets whether events are taken while the window has no focus.
    pub fn set_recieve_events_during_unfocus(&mut self, events_during_unfocus: bool)
        ensures
            final(self)@ == (InputModel { events_during_unfocus, ..old(self)@ }),
    {
        self.events_during_unfocus = events_during_unfocus;
    }
}

/// A key that is pressed while it is up counts as gone down in the frame in
/// which the press arrives, and no longer in the frame after.
pub proof fn law_key_goes_down_once(m: InputModel, code: usize)
    requires
        code < KEYS,
        m.keys.len() == KEYS,
        m.keys_prev.len() == KEYS,
        !m.keys[code as int],
    ensures
        ({
            let pressed = after_event(rolled_over(m), InputEvent::Key { code, pressed: true });
            went_down(pressed, code) && !went_down(rolled_over(pressed), code)
        }),
{
}

/// A key that is released counts as up at once, and does not count as gone
/// down again until it is pressed.
pub proof fn law_release_is_immediate(m: InputModel, code: usize)
    requires
        code < KEYS,
        m.keys.len() == KEYS,
        m.keys_prev.len() == KEYS,
    ensures
        ({
            let released = after_event(m, InputEvent::Key { code, pressed: false });
            !released.keys[code as int] && !went_down(released, code) && !went_down(
                rolled_over(released),
                code,
            )
        }),
{
}

} // verus!
