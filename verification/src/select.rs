//! Choosing a window with the pointer.
//!
//! The caller grabs the pointer and waits for events; the library decides
//! what each event means for the choice.

use vstd::prelude::*;

verus! {

/// The id that stands for no window.
pub const NO_WINDOW: u32 = 0;

/// What happened while the pointer was grabbed.
#[derive(Clone, Copy, Debug, PartialEq, Eq, Structural)]
pub enum Event {
    /// A button was released over the window `child` of the root window.
    ButtonRelease { button: u8, child: u32 },
    /// Anything else.
    Other,
    /// The connection was closed.
    Closed,
}

/// What an event means for the choice.
#[derive(Clone, Copy, Debug, PartialEq, Eq, Structural)]
pub enum Selection {
    /// The choice is still open: wait for the next event.
    Wait,
    /// The choice is made: this window, or none.
    Done(Option<u32>),
}

/// What an event means for the choice made with `button`: releasing that
/// button over a window chooses the window, releasing it over no window
/// chooses nothing yet, releasing another button gives the choice up, and
/// so does the end of the connection.
pub open spec fn selected(button: u8, event: Event) -> Selection {
    match event {
        Event::ButtonRelease { button: released, child } => if released != button {
            Selection::Done(None)
        } else if child == NO_WINDOW {
            Selection::Wait
        } else {
            Selection::Done(Some(child))
        },
        Event::Other => Selection::Wait,
        Event::Closed => Selection::Done(None),
    }
}

/// Decides what an event means for the choice made with `button`.
pub fn select(button: u8, event: Event) -> (out: Selection)
    ensures
        out == selected(button, event),
{
    match event {
        Event::ButtonRelease { button: released, child } => if released != button {
            Selection::Done(None)
        } else if child == NO_WINDOW {
            Selection::Wait
        } else {
            Selection::Done(Some(child))
        },
        Event::Other => Selection::Wait,
        Event::Closed => Selection::Done(None),
    }
}

/// The window to act on: the chosen window itself where its frame is asked
/// for or it has no client window, else its client window.
pub open spec fn targeted(window: u32, frame: bool, client: Option<u32>) -> u32 {
    if frame {
        window
    } else {
        match client {
            Some(inner) => inner,
            None => window,
        }
    }
}

/// Picks the window to act on.
pub fn target(window: u32, frame: bool, client: Option<u32>) -> (out: u32)
    ensures
        out == targeted(window, frame, client),
{
    if frame {
        window
    } else {
        match client {
            Some(inner) => inner,
            None => window,
        }
    }
}

} // verus!
