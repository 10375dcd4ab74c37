//! State and key handling of the terminal interface.
//!
//! Drawing and the text-input widget belong to the caller: it shows `lines`,
//! and hands a key to its input widget when `handle_event` says so.

use crate::tcp_message::{display_text, TcpMessage};
use vstd::prelude::*;

verus! {

/// Whether a key was pressed, held down or let go.
#[derive(Debug, Clone, Copy, PartialEq, Eq, Structural)]
pub enum KeyKind {
    Press,
    Repeat,
    Release,
}

/// The part of a key event that the interface decides on.
#[derive(Debug, Clone, Copy)]
pub struct KeyInput {
    /// The key is Escape.
    pub is_esc: bool,
    pub kind: KeyKind,
}

/// The interface's state: whether it is to quit, and the lines shown in its
/// output pane, oldest first.
pub struct App {
    pub counter: u8,
    pub exit: bool,
    pub lines: Vec<String>,
}

impl App {
    /// The lines of the output pane, as characters.
    pub open spec fn shown(&self) -> Seq<Seq<char>> {
        self.lines@.map_values(|s: String| s@)
    }

    /// The shown lines are the texts of `lines`, one for one, in order.
    pub proof fn law_shown(&self)
        ensures
            self.shown().len() == self.lines@.len(),
            forall|i: int| 0 <= i < self.lines@.len() ==> #[trigger] self.shown()[i] == self.lines@[i]@,
    {
    }

    /// Adds the line of a message from the server to the output pane.
    pub fn receive(&mut self, msg: &TcpMessage)
        ensures
            final(self).shown() == old(self).shown().push(display_text(msg@)),
            final(self).exit == old(self).exit,
            final(self).counter == old(self).counter,
    {
        let line = msg.to_string();
        self.lines.push(line);
        assert(final(self).shown() =~= old(self).shown().push(display_text(msg@)));
    }

    /// Handles one event of the terminal. Only key presses count: others, and
    /// events that are no key (`None`), change nothing. Returns whether the
    /// key goes on to the text-input widget.
    pub fn handle_event(&mut self, key: Option<KeyInput>) -> (forward: bool)
        ensures
            match key {
                Some(k) => k.kind == KeyKind::Press ==> {
                    &&& forward == !k.is_esc
                    &&& final(self).exit == (old(self).exit || k.is_esc)
                },
                None => true,
            },
            !(key matches Some(k) && k.kind == KeyKind::Press) ==> !forward && final(self).exit
                == old(self).exit,
            final(self).lines == old(self).lines,
            final(self).counter == old(self).counter,
    {
        match key {
            Some(k) => {
                if k.kind == KeyKind::Press {
                    self.handle_key_event(k)
                } else {
                    false
                }
            },
            None => false,
        }
    }

    /// Handles a key: a pressed Escape ends the interface; every other key
    /// goes on to the text-input widget (the result is then `true`).
    pub fn handle_key_event(&mut self, key: KeyInput) -> (forward: bool)
        ensures
            forward == !(key.is_esc && key.kind == KeyKind::Press),
            final(self).exit == (old(self).exit || (key.is_esc && key.kind == KeyKind::Press)),
            final(self).lines == old(self).lines,
            final(self).counter == old(self).counter,
    {
        if key.is_esc && key.kind == KeyKind::Press {
            self.exit();
            false
        } else {
            true
        }
    }

    /// Marks the interface to quit.
    pub fn exit(&mut self)
        ensures
            final(self).exit,
            final(self).lines == old(self).lines,
            final(self).counter == old(self).counter,
    {
        self.exit = true;
    }
}

impl Default for App {
    /// Counter at zero, running, no lines shown.
    fn default() -> (r: App)
        ensures
            r.counter == 0,
            !r.exit,
            r.lines@.len() == 0,
    {
        App { counter: 0, exit: false, lines: Vec::new() }
    }
}

} // verus!
