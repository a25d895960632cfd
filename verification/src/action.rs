//! The closed set of actions the escape interpreter can dispatch against
//! the grid, and their meaning as grid transitions. Every byte stream maps
//! to a sequence of these actions (unrecognized sequences map to none), so
//! applying actions is total and never fails.

use vstd::prelude::*;

use crate::cell::Attributes;
use crate::line::LineView;
use crate::model::{lemma_geometry, lemma_with_line_log_wf, ModelView, ScreenModel, MAX_LINES};

verus! {

/// One decoded action: a printable character, a control code, an erase
/// edit, or a pen-state (SGR) change.
#[derive(Clone, Copy, Debug, PartialEq, Eq, Structural)]
pub enum TermAction {
    /// Print one character cell (a non-ASCII code prints as a space).
    Print(u8),
    /// Move the cursor to column 0.
    CarriageReturn,
    /// Advance the cursor one row, scrolling at the bottom.
    LineFeed,
    /// Move the cursor one cell left, wrapping to the previous row at
    /// column `width` when already at column 0.
    Backspace,
    /// Blank the current row from the cursor column to the row's end,
    /// stamping the current pen state.
    EraseToEndOfLine,
    /// Blank every visible row.
    EraseDisplay,
    /// Reset the pen to default attributes and colors.
    SgrReset,
    /// Bold intensity (clears half-bright).
    SgrBold,
    /// Half-bright intensity (clears bold).
    SgrHalfBright,
    /// Normal intensity (clears bold and half-bright).
    SgrNormalIntensity,
    /// Set or clear the underline attribute.
    SgrUnderline(bool),
    /// Set or clear the strike-through attribute.
    SgrStrikeThrough(bool),
    /// Set or clear the reverse-video attribute.
    SgrInverse(bool),
    /// Select a foreground palette color (index 0 to 14; anything larger
    /// cannot be encoded in the color nybble and is ignored).
    SgrForeground(u8),
    /// Select a background palette color (index 0 to 14).
    SgrBackground(u8),
    /// Return the foreground to the default color.
    SgrForegroundDefault,
    /// Return the background to the default color.
    SgrBackgroundDefault,
}

impl ModelView {
    /// Carriage return: column 0, cursor row marked dirty.
    pub open spec fn carriage_returned(self) -> ModelView {
        ModelView { cursor_x: 0, ..self.mark_row_dirty(self.cursor_y) }
    }

    /// Line feed: cursor row marked dirty, cursor down one row, then the
    /// scroll check.
    pub open spec fn line_fed(self) -> ModelView {
        let v = self.mark_row_dirty(self.cursor_y);
        ModelView { cursor_y: self.cursor_y + 1, ..v }.check_scrolled()
    }

    /// Backspace: one cell left; at column 0 the cursor wraps to column
    /// `width` of the previous row (staying on row 0 at the top), and the
    /// rows involved are marked dirty. The cursor never goes negative.
    pub open spec fn backspaced(self) -> ModelView {
        if self.cursor_x == 0 {
            let v1 = self.mark_row_dirty(self.cursor_y);
            let up = if self.cursor_y > 0 {
                self.cursor_y - 1
            } else {
                0
            };
            let v2 = ModelView { cursor_y: up, cursor_x: self.width, ..v1 };
            v2.mark_row_dirty(v2.cursor_y)
        } else {
            let v1 = ModelView { cursor_x: self.cursor_x - 1, ..self };
            v1.mark_row_dirty(v1.cursor_y)
        }
    }

    /// Erase to end of line: the current row is blanked from the cursor
    /// column on, stamped with the current pen state.
    pub open spec fn erased_to_eol(self) -> ModelView {
        self.with_line_log(
            self.cursor_y,
            self.line_log(self.cursor_y).erased_from(self.cursor_x, self.pen()),
        )
    }

    /// Erase display: every visible row is cleared.
    pub open spec fn erased_display(self) -> ModelView {
        ModelView {
            lines: Seq::new(
                MAX_LINES as nat,
                |p: int|
                    if self.phys_to_log(p) < self.height {
                        LineView::blank()
                    } else {
                        self.lines[p]
                    },
            ),
            ..self
        }
    }

    /// The same grid with a different pen.
    pub open spec fn with_pen(self, attrs: Attributes, color: u8) -> ModelView {
        ModelView { attrs, color, ..self }
    }

    /// The grid after one action.
    pub open spec fn applied(self, a: TermAction) -> ModelView {
        match a {
            TermAction::Print(b) => self.print_char(b),
            TermAction::CarriageReturn => self.carriage_returned(),
            TermAction::LineFeed => self.line_fed(),
            TermAction::Backspace => self.backspaced(),
            TermAction::EraseToEndOfLine => self.erased_to_eol(),
            TermAction::EraseDisplay => self.erased_display(),
            TermAction::SgrReset => self.with_pen(Attributes::none(), 0),
            TermAction::SgrBold => self.with_pen(
                Attributes { bold: true, half_bright: false, ..self.attrs },
                self.color,
            ),
            TermAction::SgrHalfBright => self.with_pen(
                Attributes { bold: false, half_bright: true, ..self.attrs },
                self.color,
            ),
            TermAction::SgrNormalIntensity => self.with_pen(
                Attributes { bold: false, half_bright: false, ..self.attrs },
                self.color,
            ),
            TermAction::SgrUnderline(on) => self.with_pen(
                Attributes { underline: on, ..self.attrs },
                self.color,
            ),
            TermAction::SgrStrikeThrough(on) => self.with_pen(
                Attributes { strike_through: on, ..self.attrs },
                self.color,
            ),
            TermAction::SgrInverse(on) => self.with_pen(
                Attributes { reverse: on, ..self.attrs },
                self.color,
            ),
            TermAction::SgrForeground(idx) => if idx <= 14 {
                self.with_pen(self.attrs, (self.color & 0xf0) | (idx + 1) as u8)
            } else {
                self
            },
            TermAction::SgrBackground(idx) => if idx <= 14 {
                self.with_pen(self.attrs, (self.color & 0x0f) | (((idx + 1) as u8) << 4))
            } else {
                self
            },
            TermAction::SgrForegroundDefault => self.with_pen(self.attrs, self.color & 0xf0),
            TermAction::SgrBackgroundDefault => self.with_pen(self.attrs, self.color & 0x0f),
        }
    }

    /// The grid after a sequence of actions, first to last.
    pub open spec fn applied_all(self, actions: Seq<TermAction>) -> ModelView
        decreases actions.len(),
    {
        if actions.len() == 0 {
            self
        } else {
            self.applied(actions[0]).applied_all(actions.subrange(1, actions.len() as int))
        }
    }
}

impl ScreenModel {
    /// Dispatches one decoded action against the grid. Total: every action
    /// leaves the grid well formed.
    pub fn apply_action(&mut self, a: TermAction)
        requires
            old(self).wf(),
        ensures
            final(self).wf(),
            final(self)@ == old(self)@.applied(a),
    {
        let ghost v0 = self@;
        match a {
            TermAction::Print(b) => {
                self.print_char(b);
            },
            TermAction::CarriageReturn => {
                self.do_carriage_return();
            },
            TermAction::LineFeed => {
                self.do_line_feed();
            },
            TermAction::Backspace => {
                self.do_backspace();
            },
            TermAction::EraseToEndOfLine => {
                self.do_erase_to_eol();
            },
            TermAction::EraseDisplay => {
                self.do_erase_display();
            },
            TermAction::SgrReset => {
                self.current_attributes = Attributes::none();
                self.current_color = 0;
                proof {
                    assert(self@ =~= v0.with_pen(Attributes::none(), 0));
                }
            },
            TermAction::SgrBold => {
                self.current_attributes = Attributes {
                    bold: true,
                    half_bright: false,
                    ..self.current_attributes
                };
                proof {
                    assert(self@ =~= v0.applied(a));
                }
            },
            TermAction::SgrHalfBright => {
                self.current_attributes = Attributes {
                    bold: false,
                    half_bright: true,
                    ..self.current_attributes
                };
                proof {
                    assert(self@ =~= v0.applied(a));
                }
            },
            TermAction::SgrNormalIntensity => {
                self.current_attributes = Attributes {
                    bold: false,
                    half_bright: false,
                    ..self.current_attributes
                };
                proof {
                    assert(self@ =~= v0.applied(a));
                }
            },
            TermAction::SgrUnderline(on) => {
                self.current_attributes = Attributes { underline: on, ..self.current_attributes };
                proof {
                    assert(self@ =~= v0.applied(a));
                }
            },
            TermAction::SgrStrikeThrough(on) => {
                self.current_attributes = Attributes {
                    strike_through: on,
                    ..self.current_attributes
                };
                proof {
                    assert(self@ =~= v0.applied(a));
                }
            },
            TermAction::SgrInverse(on) => {
                self.current_attributes = Attributes { reverse: on, ..self.current_attributes };
                proof {
                    assert(self@ =~= v0.applied(a));
                }
            },
            TermAction::SgrForeground(idx) => {
                if idx <= 14 {
                    self.current_color = (self.current_color & 0xf0) | (idx + 1);
                }
                proof {
                    assert(self@ =~= v0.applied(a));
                }
            },
            TermAction::SgrBackground(idx) => {
                if idx <= 14 {
                    self.current_color = (self.current_color & 0x0f) | ((idx + 1) << 4);
                }
                proof {
                    assert(self@ =~= v0.applied(a));
                }
            },
            TermAction::SgrForegroundDefault => {
                self.current_color = self.current_color & 0xf0;
                proof {
                    assert(self@ =~= v0.applied(a));
                }
            },
            TermAction::SgrBackgroundDefault => {
                self.current_color = self.current_color & 0x0f;
                proof {
                    assert(self@ =~= v0.applied(a));
                }
            },
        }
    }
}

impl ScreenModel {
    /// Carriage return: cursor to column 0, cursor row marked dirty.
    fn do_carriage_return(&mut self)
        requires
            old(self).wf(),
        ensures
            final(self).wf(),
            final(self)@ == old(self)@.carriage_returned(),
    {
        let ghost v0 = self@;
        self.cursor_x = 0;
        let p = self.log_to_phys(self.cursor_y);
        proof {
            assert(self@.lines[p as int].wf());
            assert(self@.lines[p as int] == self.lines@[p as int]@);
        }
        self.lines[p].mark_dirty();
        proof {
            assert(self@ =~= v0.carriage_returned());
            lemma_with_line_log_wf(v0, v0.cursor_y, v0.line_log(v0.cursor_y).with_dirty(true));
        }
    }

    /// Line feed: cursor row marked dirty, cursor down one row, scroll
    /// check.
    fn do_line_feed(&mut self)
        requires
            old(self).wf(),
        ensures
            final(self).wf(),
            final(self)@ == old(self)@.line_fed(),
    {
        let ghost v0 = self@;
        proof {
            lemma_geometry(v0.font);
        }
        let p = self.log_to_phys(self.cursor_y);
        proof {
            assert(self@.lines[p as int].wf());
            assert(self@.lines[p as int] == self.lines@[p as int]@);
        }
        self.lines[p].mark_dirty();
        self.cursor_y = self.cursor_y + 1;
        proof {
            let marked = v0.mark_row_dirty(v0.cursor_y);
            assert(self@ =~= ModelView { cursor_y: v0.cursor_y + 1, ..marked });
            lemma_with_line_log_wf(v0, v0.cursor_y, v0.line_log(v0.cursor_y).with_dirty(true));
        }
        self.check_scroll();
    }

    /// Backspace: one cell left, wrapping to column `width` of the row
    /// above at column 0 (staying put on row 0).
    fn do_backspace(&mut self)
        requires
            old(self).wf(),
        ensures
            final(self).wf(),
            final(self)@ == old(self)@.backspaced(),
    {
        let ghost v0 = self@;
        proof {
            lemma_geometry(v0.font);
        }
        if self.cursor_x == 0 {
            let p = self.log_to_phys(self.cursor_y);
            proof {
                assert(self@.lines[p as int].wf());
                assert(self@.lines[p as int] == self.lines@[p as int]@);
            }
            self.lines[p].mark_dirty();
            proof {
                assert(self@ =~= v0.mark_row_dirty(v0.cursor_y));
                lemma_with_line_log_wf(v0, v0.cursor_y, v0.line_log(v0.cursor_y).with_dirty(true));
            }
            if self.cursor_y > 0 {
                self.cursor_y = self.cursor_y - 1;
            }
            self.cursor_x = self.width;
            let ghost v2 = self@;
            let p2 = self.log_to_phys(self.cursor_y);
            proof {
                assert(self@.lines[p2 as int].wf());
                assert(self@.lines[p2 as int] == self.lines@[p2 as int]@);
            }
            self.lines[p2].mark_dirty();
            proof {
                assert(self@ =~= v0.backspaced());
                lemma_with_line_log_wf(v2, v2.cursor_y, v2.line_log(v2.cursor_y).with_dirty(true));
            }
        } else {
            self.cursor_x = self.cursor_x - 1;
            let p = self.log_to_phys(self.cursor_y);
            proof {
                assert(self@.lines[p as int].wf());
                assert(self@.lines[p as int] == self.lines@[p as int]@);
            }
            self.lines[p].mark_dirty();
            proof {
                assert(self@ =~= v0.backspaced());
                let v1 = ModelView { cursor_x: v0.cursor_x - 1, ..v0 };
                lemma_with_line_log_wf(v1, v1.cursor_y, v1.line_log(v1.cursor_y).with_dirty(true));
            }
        }
    }

    /// Erase to end of line: blanks from the cursor column to the row's
    /// end, stamped with the current pen state.
    fn do_erase_to_eol(&mut self)
        requires
            old(self).wf(),
        ensures
            final(self).wf(),
            final(self)@ == old(self)@.erased_to_eol(),
    {
        let ghost v0 = self@;
        let from = self.cursor_x as usize;
        let attrs = self.current_attributes;
        let color = self.current_color;
        let p = self.log_to_phys(self.cursor_y);
        proof {
            assert(self@.lines[p as int].wf());
            assert(self@.lines[p as int] == self.lines@[p as int]@);
        }
        self.lines[p].erase_from(from, attrs, color);
        proof {
            assert(self@ =~= v0.erased_to_eol());
            lemma_with_line_log_wf(
                v0,
                v0.cursor_y,
                v0.line_log(v0.cursor_y).erased_from(v0.cursor_x, v0.pen()),
            );
        }
    }

    /// Erase display: clears every visible row.
    fn do_erase_display(&mut self)
        requires
            old(self).wf(),
        ensures
            final(self).wf(),
            final(self)@ == old(self)@.erased_display(),
    {
        let ghost v0 = self@;
        let h = self.height;
        let mut y: u8 = 0;
        while y < h
            invariant
                v0.wf(),
                y <= h,
                h == v0.height,
                self@ == (ModelView {
                    lines: Seq::new(
                        MAX_LINES as nat,
                        |p: int|
                            if v0.phys_to_log(p) < y as int {
                                LineView::blank()
                            } else {
                                v0.lines[p]
                            },
                    ),
                    ..v0
                }),
            decreases h - y,
        {
            proof {
                lemma_geometry(v0.font);
                assert(self@.wf_core());
            }
            let p = self.log_to_phys(y);
            proof {
                assert(self@.lines[p as int].wf());
                assert(self@.lines[p as int] == self.lines@[p as int]@);
            }
            let ghost prev = self@;
            self.lines[p].clear();
            proof {
                assert(v0.phys_to_log(p as int) == y as int);
                assert(self@.lines =~= prev.lines.update(p as int, LineView::blank()));
                assert(self@ =~= ModelView {
                    lines: Seq::new(
                        MAX_LINES as nat,
                        |q: int|
                            if v0.phys_to_log(q) < y as int + 1 {
                                LineView::blank()
                            } else {
                                v0.lines[q]
                            },
                    ),
                    ..v0
                });
            }
            y = y + 1;
        }
        proof {
            assert(self@ =~= v0.erased_display());
            assert forall|q: int| 0 <= q < MAX_LINES implies (#[trigger] self@.lines[q]).wf() by {
                if v0.phys_to_log(q) >= v0.height {
                    assert(self@.lines[q] == v0.lines[q]);
                }
            }
        }
    }
}

} // verus!