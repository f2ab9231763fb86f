//! Input events and the handlers that turn them into changes of the session.
use vstd::prelude::*;
use crate::app::{
    App, Tick, View, advance_done, next_done, prev_done, scroll_done, skip_done, unskip_done,
};

verus! {

/// A key, as far as the bindings tell keys apart.
#[derive(Clone, Copy, Debug, PartialEq, Eq, Structural)]
pub enum Key {
    Char(char),
    Up,
    Down,
    Left,
    Right,
    PageUp,
    PageDown,
    Home,
    End,
    Tab,
    Other,
}

/// The modifier keys held with a key.
#[derive(Clone, Copy, Debug, PartialEq, Eq, Structural)]
pub struct Modifiers {
    pub ctrl: bool,
    pub alt: bool,
    pub shift: bool,
    /// Any other modifier (super, hyper, meta).
    pub other: bool,
}

/// No modifier is held.
pub open spec fn plain(m: Modifiers) -> bool {
    !m.ctrl && !m.alt && !m.shift && !m.other
}

/// No modifier but shift is held, as with an upper-case letter.
pub open spec fn typed(m: Modifiers) -> bool {
    !m.ctrl && !m.alt && !m.other
}

/// An input event of the terminal.
#[derive(Clone, Copy, Debug, PartialEq, Eq, Structural)]
pub enum Event {
    Key(Key, Modifiers),
    /// One tick of the mouse wheel, away from the user.
    WheelUp,
    /// One tick of the mouse wheel, towards the user.
    WheelDown,
    /// The terminal changed size.
    Resize,
    Other,
}

/// The scroll step for a page: one row less than the viewport, 0 where its height is
/// unknown.
pub open spec fn page_of(height: Option<u16>) -> int {
    match height {
        Some(h) => if h > 0 { h - 1 } else { 0 },
        None => 0,
    }
}

pub fn page_step(height: Option<u16>) -> (r: isize)
    ensures
        r == page_of(height),
{
    match height {
        Some(h) => if h > 0 { (h - 1) as isize } else { 0 },
        None => 0,
    }
}

/// How far a scroll event moves: a line for the arrows, three for the wheel, a page
/// for page up and down, and as far as can be for home and end; 0 for any other event.
pub open spec fn scroll_step_of(e: Event, page: int) -> int {
    match e {
        Event::Key(k, m) => if plain(m) {
            match k {
                Key::Down => 1,
                Key::Up => -1,
                Key::PageDown => page,
                Key::PageUp => -page,
                Key::Home => isize::MIN as int,
                Key::End => isize::MAX as int,
                _ => 0,
            }
        } else {
            0
        },
        Event::WheelUp => -3,
        Event::WheelDown => 3,
        _ => 0,
    }
}

/// The interrupt chord, Ctrl-C.
pub open spec fn is_interrupt(e: Event) -> bool {
    e matches Event::Key(Key::Char('c'), m) && m.ctrl
}

/// The session commands that keys are bound to.
#[derive(Clone, Copy, Debug, PartialEq, Eq, Structural)]
pub enum Command {
    Quit,
    NextView,
    NextThread,
    PrevThread,
    ToggleSkip,
    Reply,
    Publish,
    Refresh,
}

/// The key bindings: `q` quits, Tab moves to the next view, `n` or Right and `p` or
/// Left move between threads, `s` skips or unskips, `r` replies, `P` publishes the
/// queued replies and `R` fetches again.
pub open spec fn command_of(e: Event) -> Option<Command> {
    match e {
        Event::Key(k, m) => if typed(m) {
            match k {
                Key::Char('q') => Some(Command::Quit),
                Key::Tab => Some(Command::NextView),
                Key::Char('n') => Some(Command::NextThread),
                Key::Right => Some(Command::NextThread),
                Key::Char('p') => Some(Command::PrevThread),
                Key::Left => Some(Command::PrevThread),
                Key::Char('s') => Some(Command::ToggleSkip),
                Key::Char('r') => Some(Command::Reply),
                Key::Char('P') => Some(Command::Publish),
                Key::Char('R') => Some(Command::Refresh),
                _ => None,
            }
        } else {
            None
        },
        _ => None,
    }
}

pub fn command(e: &Event) -> (r: Option<Command>)
    ensures
        r == command_of(*e),
{
    match *e {
        Event::Key(k, m) => if !m.ctrl && !m.alt && !m.other {
            match k {
                Key::Char('q') => Some(Command::Quit),
                Key::Tab => Some(Command::NextView),
                Key::Char('n') => Some(Command::NextThread),
                Key::Right => Some(Command::NextThread),
                Key::Char('p') => Some(Command::PrevThread),
                Key::Left => Some(Command::PrevThread),
                Key::Char('s') => Some(Command::ToggleSkip),
                Key::Char('r') => Some(Command::Reply),
                Key::Char('P') => Some(Command::Publish),
                Key::Char('R') => Some(Command::Refresh),
                _ => None,
            }
        } else {
            None
        },
        _ => None,
    }
}

/// A handler of input events, consulted in a fixed order each cycle.
pub trait Component {
    fn tick(&mut self, app: &mut App, event: &Event) -> (r: Tick)
        requires
            old(app).wf(),
        ensures
            final(app).wf(),
    ;
}

/// Leaves the session on the interrupt chord, before any other binding.
#[derive(Clone, Copy, Debug)]
pub struct CtrlC;

impl CtrlC {
    pub fn on_event(&self, event: &Event) -> (r: Tick)
        ensures
            r == if is_interrupt(*event) { Tick::Exit } else { Tick::Noop },
    {
        match *event {
            Event::Key(Key::Char('c'), m) => if m.ctrl { Tick::Exit } else { Tick::Noop },
            _ => Tick::Noop,
        }
    }
}

impl Component for CtrlC {
    fn tick(&mut self, app: &mut App, event: &Event) -> (r: Tick)
        ensures
            *final(app) == *old(app),
            r == if is_interrupt(*event) { Tick::Exit } else { Tick::Noop },
    {
        self.on_event(event)
    }
}

/// Scrolls the rendered thread on the arrow, page, home and end keys and the wheel.
#[derive(Clone, Copy, Debug)]
pub struct Scroll {
    /// The viewport's height, where known; a page is one row less.
    pub height: Option<u16>,
}

impl Scroll {
    pub fn on_event(&self, app: &mut App, event: &Event) -> (r: Tick)
        requires
            old(app).wf(),
        ensures
            final(app).wf(),
            scroll_done(*old(app), *final(app), scroll_step_of(*event, page_of(self.height)), r),
    {
        let page = page_step(self.height);
        let step: isize = match *event {
            Event::Key(k, m) => if !m.ctrl && !m.alt && !m.shift && !m.other {
                match k {
                    Key::Down => 1,
                    Key::Up => -1,
                    Key::PageDown => page,
                    Key::PageUp => -page,
                    Key::Home => isize::MIN,
                    Key::End => isize::MAX,
                    _ => 0,
                }
            } else {
                0
            },
            Event::WheelUp => -3,
            Event::WheelDown => 3,
            _ => 0,
        };
        app.scroll(step)
    }
}

impl Component for Scroll {
    fn tick(&mut self, app: &mut App, event: &Event) -> (r: Tick)
        ensures
            scroll_done(*old(app), *final(app), scroll_step_of(*event, page_of(old(self).height)), r),
    {
        self.on_event(app, event)
    }
}

/// The session's own key bindings.
#[derive(Clone, Copy, Debug)]
pub struct Controls;

/// What `Controls` does with an event: the command that its key is bound to, or
/// nothing.
pub open spec fn control_done(before: App, after: App, e: Event, r: Tick) -> bool {
    match command_of(e) {
        None => after == before && r == Tick::Noop,
        Some(Command::Quit) => after == before && r == Tick::Exit,
        Some(Command::Reply) => after == before && r == Tick::Compose,
        Some(Command::Publish) => after == before && r == Tick::Publish,
        Some(Command::Refresh) => after == before && r == Tick::Refresh,
        Some(Command::NextView) => advance_done(before, after, r),
        Some(Command::NextThread) => next_done(before, after, r),
        Some(Command::PrevThread) => prev_done(before, after, r),
        Some(Command::ToggleSkip) => if before.shown_view() == View::Skipped {
            unskip_done(before, after, r)
        } else {
            skip_done(before, after, r)
        },
    }
}

impl Controls {
    pub fn on_event(&self, app: &mut App, event: &Event) -> (r: Tick)
        requires
            old(app).wf(),
        ensures
            final(app).wf(),
            control_done(*old(app), *final(app), *event, r),
    {
        match command(event) {
            None => Tick::Noop,
            Some(Command::Quit) => Tick::Exit,
            Some(Command::Reply) => Tick::Compose,
            Some(Command::Publish) => Tick::Publish,
            Some(Command::Refresh) => Tick::Refresh,
            Some(Command::NextView) => app.advance_view(),
            Some(Command::NextThread) => app.next_thread(),
            Some(Command::PrevThread) => app.prev_thread(),
            Some(Command::ToggleSkip) => app.skip_current(),
        }
    }
}

impl Component for Controls {
    fn tick(&mut self, app: &mut App, event: &Event) -> (r: Tick)
        ensures
            control_done(*old(app), *final(app), *event, r),
    {
        self.on_event(app, event)
    }
}

/// Hands an event to the handlers in order: the interrupt chord first, then
/// scrolling, then the session's bindings; the first that acts decides.
pub fn dispatch(app: &mut App, scroll: &Scroll, event: &Event) -> (r: Tick)
    requires
        old(app).wf(),
    ensures
        final(app).wf(),
        is_interrupt(*event) ==> *final(app) == *old(app) && r == Tick::Exit,
        !is_interrupt(*event) && scroll_step_of(*event, page_of(scroll.height)) != 0 ==> scroll_done(
            *old(app),
            *final(app),
            scroll_step_of(*event, page_of(scroll.height)),
            r,
        ),
        !is_interrupt(*event) && scroll_step_of(*event, page_of(scroll.height)) == 0 ==> control_done(
            *old(app),
            *final(app),
            *event,
            r,
        ),
{
    let t = CtrlC.on_event(event);
    if t == Tick::Exit {
        return t;
    }
    let t = scroll.on_event(app, event);
    if t != Tick::Noop {
        return t;
    }
    Controls.on_event(app, event)
}

} // verus!
