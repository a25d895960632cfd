//! The command-line editor: a buffer of characters with an insertion
//! point, driven by key reports. Enter hands the finished command out and
//! empties the buffer.

use vstd::prelude::*;

use crate::keys::{Key, KeyReport, KeyState};

verus! {

/// A line of input being edited: the characters typed so far and the
/// insertion point.
pub struct LineEditor {
    pub command: Vec<char>,
    pub cursor_x: usize,
}

impl LineEditor {
    /// The insertion point always lies within the buffer.
    pub open spec fn wf(&self) -> bool {
        self.cursor_x <= self.command@.len()
    }

    /// An empty editor.
    pub fn new() -> (r: LineEditor)
        ensures
            r.wf(),
            r.command@ == Seq::<char>::empty(),
            r.cursor_x == 0,
    {
        LineEditor { command: Vec::new(), cursor_x: 0 }
    }

    /// Applies one key event: characters insert at the insertion point,
    /// backspace deletes (the last character when the point sits at the
    /// end, else the character at the point), and enter returns the whole
    /// command and empties the buffer. Only pressed keys act; everything
    /// else leaves the editor untouched.
    pub fn apply_key(&mut self, key: KeyReport) -> (r: Option<Vec<char>>)
        requires
            old(self).wf(),
            old(self).command@.len() < usize::MAX,
        ensures
            final(self).wf(),
            key.state != KeyState::Pressed ==> final(self).command@ == old(self).command@
                && final(self).cursor_x == old(self).cursor_x && r is None,
            key.state == KeyState::Pressed ==> match key.key {
                Key::Char(c) => final(self).command@ == old(self).command@.insert(
                    old(self).cursor_x as int,
                    c,
                ) && final(self).cursor_x == old(self).cursor_x + 1 && r is None,
                Key::BackSpace => r is None && final(self).cursor_x == (
                if old(self).cursor_x == old(self).command@.len() && old(self).cursor_x > 0 {
                    (old(self).cursor_x - 1) as usize
                } else {
                    old(self).cursor_x
                }) && final(self).command@ == (
                if old(self).cursor_x == old(self).command@.len() {
                    if old(self).command@.len() > 0 {
                        old(self).command@.drop_last()
                    } else {
                        old(self).command@
                    }
                } else {
                    old(self).command@.remove(old(self).cursor_x as int)
                }),
                Key::Enter => (match r {
                    Some(cmd) => cmd@ == old(self).command@,
                    None => false,
                }) && final(self).command@ == Seq::<char>::empty() && final(self).cursor_x == 0,
                _ => final(self).command@ == old(self).command@ && final(self).cursor_x == old(
                    self,
                ).cursor_x && r is None,
            },
    {
        if !matches!(key.state, KeyState::Pressed) {
            return None;
        }
        match key.key {
            Key::Char(c) => {
                self.command.insert(self.cursor_x, c);
                self.cursor_x = self.cursor_x + 1;
                None
            },
            Key::BackSpace => {
                if self.cursor_x == self.command.len() {
                    let _ = self.command.pop();
                    if self.cursor_x > 0 {
                        self.cursor_x = self.cursor_x - 1;
                    }
                    proof {
                        if old(self).command@.len() > 0 {
                            assert(self.command@ =~= old(self).command@.drop_last());
                        }
                    }
                } else {
                    let _ = self.command.remove(self.cursor_x);
                }
                None
            },
            Key::Enter => {
                let mut cmd: Vec<char> = Vec::new();
                core::mem::swap(&mut cmd, &mut self.command);
                self.cursor_x = 0;
                Some(cmd)
            },
            _ => None,
        }
    }

    /// The input typed so far.
    pub fn input(&self) -> (r: &Vec<char>)
        ensures
            r@ == self.command@,
    {
        &self.command
    }
}

} // verus!
