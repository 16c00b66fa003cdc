//! The screen layer: one display engine per virtual screen, and the
//! translation of decoded input events into engine operations.

use vstd::prelude::*;

verus! {

use vstd::string::StringSliceAdditionalSpecFns;
use crate::vga::{
    Direction,
    Vga,
    VgaState,
    init_state,
    st_delete_char,
    st_move,
    st_new_line,
    st_write_bytes,
    st_write_char,
};

/// A decoded input event, as the excluded keyboard layer delivers it: a
/// printable character code or one of the recognized control keys.
#[derive(Clone, Copy, Debug, PartialEq, Eq)]
pub enum Key {
    Character(u8),
    Enter,
    Backspace,
    ArrowLeft,
    ArrowRight,
    ArrowUp,
    ArrowDown,
    Tab,
    Escape,
}

/// Effect of one input event on a screen's engine state: a character is
/// inserted, Enter breaks the line, Backspace erases backward, an arrow
/// moves the cursor, and every other key leaves the screen untouched.
pub open spec fn st_key(s: VgaState, key: Key) -> VgaState {
    match key {
        Key::Character(c) => st_write_char(s, c),
        Key::Enter => st_new_line(s),
        Key::Backspace => st_delete_char(s),
        Key::ArrowLeft => st_move(s, Direction::Left),
        Key::ArrowRight => st_move(s, Direction::Right),
        Key::ArrowUp => st_move(s, Direction::Up),
        Key::ArrowDown => st_move(s, Direction::Down),
        Key::Tab => s,
        Key::Escape => s,
    }
}

/// One virtual screen: it owns exactly one display engine and lives
/// exactly as long as it.
pub struct Screen {
    pub vga: Vga,
}

impl View for Screen {
    type V = VgaState;

    open spec fn view(&self) -> VgaState {
        self.vga@
    }
}

impl Screen {
    /// The screen's representation invariant: that of its engine.
    pub open spec fn wf(&self) -> bool {
        self.vga.wf()
    }

    /// A fresh screen over a fresh engine.
    pub fn default() -> (s: Screen)
        ensures
            s.wf(),
            s@ == init_state(),
    {
        Screen { vga: Vga::new() }
    }

    /// Routes one input event to the engine. The switch and escape keys
    /// mean nothing at this layer; they are the owner's business.
    pub fn handle_key(&mut self, key: Key)
        requires
            old(self).wf(),
        ensures
            final(self).wf(),
            final(self)@ == st_key(old(self)@, key),
    {
        match key {
            Key::Character(c) => self.vga.write_char(c),
            Key::Enter => self.vga.new_line(),
            Key::Backspace => self.vga.delete_char(),
            Key::ArrowLeft => self.vga.move_cursor(Direction::Left),
            Key::ArrowRight => self.vga.move_cursor(Direction::Right),
            Key::ArrowUp => self.vga.move_cursor(Direction::Up),
            Key::ArrowDown => self.vga.move_cursor(Direction::Down),
            Key::Tab => (),
            Key::Escape => (),
        }
    }

    /// Inserts one byte at the cursor.
    pub fn write(&mut self, c: u8)
        requires
            old(self).wf(),
        ensures
            final(self).wf(),
            final(self)@ == st_write_char(old(self)@, c),
    {
        self.vga.write_char(c);
    }

    /// Writes the text at the cursor, dropping a null byte as a
    /// terminator rather than printing it.
    pub fn write_str(&mut self, string: &str)
        requires
            old(self).wf(),
        ensures
            final(self).wf(),
            final(self)@ == st_write_bytes(old(self)@, string.spec_bytes()),
    {
        self.vga.write_u8_arr(string.as_bytes());
    }

    /// Writes the text under the attribute byte `color`, which stays the
    /// engine's write attribute afterwards.
    pub fn write_color_str(&mut self, string: &str, color: u8)
        requires
            old(self).wf(),
        ensures
            final(self).wf(),
            final(self)@ == st_write_bytes(
                (VgaState { color: color, ..old(self)@ }),
                string.spec_bytes(),
            ),
    {
        self.vga.color = color;
        self.vga.write_u8_arr(string.as_bytes());
    }
}

} // verus!
