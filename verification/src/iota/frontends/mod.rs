//! What the editor needs of a frontend: events in, drawing out.

use vstd::prelude::*;

pub use super::keyboard::Key;
pub use super::uibuf::{CharColor, CharStyle};

verus! {

/// A general means of representing events from different frontends.
///
/// A frontend should translate its own events into an `EditorEvent` to be used
/// elsewhere in the program.
pub enum EditorEvent {
    KeyEvent(Option<Key>),
    Resize(usize, usize),
    UnSupported,
}

/// A char drawn at a place, with its colours and style.
#[derive(Copy, Clone, Debug, PartialEq, Eq, Structural)]
pub struct DrawnChar {
    pub offset: usize,
    pub linenum: usize,
    pub ch: char,
    pub fg: CharColor,
    pub bg: CharColor,
    pub style: CharStyle,
}

/// A Frontend is a means of representing the Editor to the user.
///
/// For example, there could be frontends for:
/// - a terminal
/// - a GUI
/// - a web browser
///
/// Frontends are chosen at startup and can't be changed while the Editor is
/// running.
pub trait Frontend {
    /// Poll the frontend for an event, translating it to an EditorEvent
    fn poll_event(&self) -> EditorEvent;

    /// Present the newly drawn data (cursor / content) to the user
    fn present(&self);

    /// Get the frontends window height or equivalent
    fn get_window_height(&self) -> usize;

    /// Get the frontends window width or equivalent
    fn get_window_width(&self) -> usize;

    /// Draw the cursor to the frontend
    fn draw_cursor(&mut self, offset: isize, linenum: isize);

    /// Draw the given char & styles to the frontend
    fn draw_char(
        &mut self,
        offset: usize,
        linenum: usize,
        ch: char,
        fg: CharColor,
        bg: CharColor,
        style: CharStyle,
    );
}

/// A frontend together with the record of the chars drawn to it through
/// this screen, in the order they were drawn, and of the places the cursor
/// was put, in order.
pub struct Screen<F> {
    pub frontend: F,
    pub drawn: Ghost<Seq<DrawnChar>>,
    pub placed: Ghost<Seq<(isize, isize)>>,
}

impl<F: Frontend> Screen<F> {
    /// The chars drawn so far, in order.
    pub open spec fn drawn(&self) -> Seq<DrawnChar> {
        self.drawn@
    }

    /// The places the cursor was put so far (column, line), in order.
    pub open spec fn placed(&self) -> Seq<(isize, isize)> {
        self.placed@
    }

    /// A screen on `frontend` with nothing drawn yet.
    pub fn new(frontend: F) -> (r: Screen<F>)
        ensures
            r.frontend == frontend,
            r.drawn() == Seq::<DrawnChar>::empty(),
            r.placed() == Seq::<(isize, isize)>::empty(),
    {
        Screen { frontend, drawn: Ghost(Seq::empty()), placed: Ghost(Seq::empty()) }
    }

    /// Draws a char with its colours and style at a place.
    pub fn draw_char(
        &mut self,
        offset: usize,
        linenum: usize,
        ch: char,
        fg: CharColor,
        bg: CharColor,
        style: CharStyle,
    )
        ensures
            final(self).drawn() == old(self).drawn().push(DrawnChar { offset, linenum, ch, fg, bg, style }),
            final(self).placed() == old(self).placed(),
    {
        self.frontend.draw_char(offset, linenum, ch, fg, bg, style);
        self.drawn = Ghost(self.drawn@.push(DrawnChar { offset, linenum, ch, fg, bg, style }));
    }

    /// Places the cursor at column `offset` of line `linenum`; nothing is drawn.
    pub fn draw_cursor(&mut self, offset: isize, linenum: isize)
        ensures
            final(self).drawn() == old(self).drawn(),
            final(self).placed() == old(self).placed().push((offset, linenum)),
    {
        self.frontend.draw_cursor(offset, linenum);
        self.placed = Ghost(self.placed@.push((offset, linenum)));
    }

    /// The height of the frontend's window.
    pub fn window_height(&self) -> usize {
        self.frontend.get_window_height()
    }
}

} // verus!
