//! The terminal layer: a fixed set of virtual screens multiplexed onto
//! one device, with a single switch transition between them.

use vstd::prelude::*;

verus! {

use vstd::string::StringSliceAdditionalSpecFns;
use crate::screen::{Key, Screen, st_key};
use crate::vga::{VgaState, init_state, st_write_bytes};

/// Number of virtual screens a terminal multiplexes.
pub const NBR_OF_SCREENS_PER_TERMINAL: usize = 5;

/// The screen index selected after one switch event: the next one,
/// wrapping past the last screen.
pub open spec fn next_screen_index(a: int) -> int {
    if a + 1 < 5 {
        a + 1
    } else {
        0
    }
}

/// The screen index after `n` switch events.
pub open spec fn switch_n(a: int, n: nat) -> int
    decreases n,
{
    if n == 0 {
        a
    } else {
        switch_n(next_screen_index(a), (n - 1) as nat)
    }
}

/// Switch wrap: as many consecutive switches as there are screens lead
/// back to the index they started from.
pub proof fn lemma_switch_wraps(a: int)
    requires
        0 <= a < 5,
    ensures
        switch_n(a, 5) == a,
{
    reveal_with_fuel(switch_n, 6);
}

/// The terminal: `NBR_OF_SCREENS_PER_TERMINAL` screens and the index of
/// the one that receives events. Switching is purely a view change: an
/// inactive screen keeps its buffer, cursor and scroll state untouched.
pub struct Terminal {
    pub active_screen_index: usize,
    pub screens: Vec<Screen>,
}

impl Terminal {
    /// The terminal's representation invariant: the fixed screen count,
    /// a valid active index, and every screen well formed.
    pub open spec fn wf(&self) -> bool {
        &&& self.screens@.len() == 5
        &&& self.active_screen_index < 5
        &&& forall|i: int| 0 <= i < 5 ==> self.screens@[i].wf()
    }

    /// A terminal of fresh screens, with the first one active.
    pub fn default() -> (t: Terminal)
        ensures
            t.wf(),
            t.active_screen_index == 0,
            forall|i: int| 0 <= i < 5 ==> t.screens@[i]@ == init_state(),
    {
        let mut screens: Vec<Screen> = Vec::new();
        screens.push(Screen::default());
        screens.push(Screen::default());
        screens.push(Screen::default());
        screens.push(Screen::default());
        screens.push(Screen::default());
        Terminal { active_screen_index: 0, screens }
    }

    /// Routes one input event. The switch key selects the next screen,
    /// wrapping around, and changes no screen's content; every other
    /// event goes to the active screen, and the inactive screens stay
    /// exactly as they were.
    pub fn handle_key(&mut self, key: Key)
        requires
            old(self).wf(),
        ensures
            final(self).wf(),
            key matches Key::Tab ==> {
                &&& final(self).active_screen_index as int == next_screen_index(
                    old(self).active_screen_index as int,
                )
                &&& final(self).screens@ == old(self).screens@
            },
            !(key matches Key::Tab) ==> {
                &&& final(self).active_screen_index == old(self).active_screen_index
                &&& final(self).screens@[old(self).active_screen_index as int]@ == st_key(
                    old(self).screens@[old(self).active_screen_index as int]@,
                    key,
                )
                &&& forall|i: int|
                    0 <= i < 5 && i != old(self).active_screen_index ==> final(self).screens@[i]
                        == old(self).screens@[i]
            },
    {
        match key {
            Key::Tab => {
                self.active_screen_index = self.active_screen_index + 1;
                if self.active_screen_index >= NBR_OF_SCREENS_PER_TERMINAL {
                    self.active_screen_index = 0;
                }
            },
            _ => {
                let idx = self.active_screen_index;
                let scr = &mut self.screens[idx];
                scr.handle_key(key);
            },
        }
    }

    /// Writes the text to the active screen, dropping a null byte as a
    /// terminator; the other screens stay exactly as they were.
    pub fn write_str(&mut self, string: &str)
        requires
            old(self).wf(),
        ensures
            final(self).wf(),
            final(self).active_screen_index == old(self).active_screen_index,
            final(self).screens@[old(self).active_screen_index as int]@ == st_write_bytes(
                old(self).screens@[old(self).active_screen_index as int]@,
                string.spec_bytes(),
            ),
            forall|i: int|
                0 <= i < 5 && i != old(self).active_screen_index ==> final(self).screens@[i] == old(
                    self,
                ).screens@[i],
    {
        let idx = self.active_screen_index;
        let scr = &mut self.screens[idx];
        scr.write_str(string);
    }

    /// Writes the text to the active screen under the attribute byte
    /// `color`, which stays that screen's write attribute afterwards.
    pub fn write_color_str(&mut self, string: &str, color: u8)
        requires
            old(self).wf(),
        ensures
            final(self).wf(),
            final(self).active_screen_index == old(self).active_screen_index,
            final(self).screens@[old(self).active_screen_index as int]@ == st_write_bytes(
                (VgaState { color: color, ..old(self).screens@[old(self).active_screen_index as int]@ }),
                string.spec_bytes(),
            ),
            forall|i: int|
                0 <= i < 5 && i != old(self).active_screen_index ==> final(self).screens@[i] == old(
                    self,
                ).screens@[i],
    {
        let idx = self.active_screen_index;
        let scr = &mut self.screens[idx];
        scr.write_color_str(string, color);
    }

    /// The screen that events currently reach.
    pub fn active_screen(&self) -> (s: &Screen)
        requires
            self.wf(),
        ensures
            *s == self.screens@[self.active_screen_index as int],
    {
        &self.screens[self.active_screen_index]
    }
}

} // verus!
