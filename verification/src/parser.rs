//! The byte-level escape-sequence protocol parser: a state machine that
//! classifies a raw byte stream into the closed action set. Parsing is
//! total: every byte sequence, valid or not, maps to some actions or to
//! none, and unrecognized escape, CSI, OSC and DCS sequences are consumed
//! without producing any action. The parser keeps its state across calls,
//! so sequences split between buffers are handled.

use vstd::prelude::*;

use crate::action::TermAction;

verus! {

/// Most CSI parameters kept for one sequence; further parameters mark the
/// sequence as unrecognized.
pub const MAX_PARAMS: usize = 16;

/// The parser's control state.
#[derive(Clone, Copy, Debug, PartialEq, Eq, Structural)]
pub enum ParseState {
    /// Plain text.
    Ground,
    /// After an escape byte.
    Escape,
    /// After an escape byte and one or more intermediate bytes.
    EscapeIntermediate,
    /// Inside a control sequence (after `ESC [`).
    Csi,
    /// Inside an operating-system command string (after `ESC ]`).
    OscString,
    /// Inside an operating-system command string, after an escape byte.
    OscEscape,
    /// Inside a device-control or application string (after `ESC P`,
    /// `ESC X`, `ESC ^` or `ESC _`).
    OtherString,
    /// Inside such a string, after an escape byte.
    OtherStringEscape,
    /// Inside a multi-byte UTF-8 character, which prints as one space.
    Utf8,
}

/// Mathematical model of the parser.
#[verifier::ext_equal]
pub struct ParserView {
    pub state: ParseState,
    /// Completed CSI parameters of the sequence being read.
    pub params: Seq<u16>,
    /// The parameter currently being read.
    pub cur_param: u16,
    /// Whether the sequence being read is already known to be
    /// unrecognized (private markers, subparameters, intermediates).
    pub ignored: bool,
    /// Continuation bytes still expected of a UTF-8 character.
    pub utf8_left: int,
}

impl ParserView {
    /// The parser at rest between sequences.
    pub open spec fn ground(self) -> ParserView {
        ParserView { state: ParseState::Ground, ..self }
    }
}

/// The parser state at startup: ground, with no pending sequence.
pub open spec fn initial_parser() -> ParserView {
    ParserView {
        state: ParseState::Ground,
        params: Seq::empty(),
        cur_param: 0,
        ignored: false,
        utf8_left: 0,
    }
}

/// The pen-state actions of one SGR parameter list, first to last.
/// Parameters 38 and 48 announce extended color forms that carry their
/// own arguments: `38;5;n` selects palette entry `n` (applied when the
/// nybble encoding can hold it), `38;2;r;g;b` names a direct color the
/// cell encoding cannot hold and is consumed without effect; a malformed
/// extended form ends the dispatch, as one more unrecognized sequence.
pub open spec fn sgr_actions(params: Seq<u16>) -> Seq<TermAction>
    decreases params.len(),
{
    if params.len() == 0 {
        Seq::empty()
    } else {
        let p0 = params[0];
        let rest = sgr_actions(params.subrange(1, params.len() as int));
        if p0 == 38 || p0 == 48 {
            if params.len() >= 3 && params[1] == 5 {
                let here: Seq<TermAction> = if params[2] <= 255 {
                    if p0 == 38 {
                        seq![TermAction::SgrForeground(params[2] as u8)]
                    } else {
                        seq![TermAction::SgrBackground(params[2] as u8)]
                    }
                } else {
                    Seq::empty()
                };
                here + sgr_actions(params.subrange(3, params.len() as int))
            } else if params.len() >= 5 && params[1] == 2 {
                sgr_actions(params.subrange(5, params.len() as int))
            } else {
                Seq::empty()
            }
        } else {
            let here: Seq<TermAction> = if p0 == 0 {
                seq![TermAction::SgrReset]
            } else if p0 == 1 {
                seq![TermAction::SgrBold]
            } else if p0 == 2 {
                seq![TermAction::SgrHalfBright]
            } else if p0 == 4 || p0 == 21 {
                seq![TermAction::SgrUnderline(true)]
            } else if p0 == 7 {
                seq![TermAction::SgrInverse(true)]
            } else if p0 == 9 {
                seq![TermAction::SgrStrikeThrough(true)]
            } else if p0 == 22 {
                seq![TermAction::SgrNormalIntensity]
            } else if p0 == 24 {
                seq![TermAction::SgrUnderline(false)]
            } else if p0 == 27 {
                seq![TermAction::SgrInverse(false)]
            } else if p0 == 29 {
                seq![TermAction::SgrStrikeThrough(false)]
            } else if 30 <= p0 <= 37 {
                seq![TermAction::SgrForeground((p0 - 30) as u8)]
            } else if p0 == 39 {
                seq![TermAction::SgrForegroundDefault]
            } else if 40 <= p0 <= 47 {
                seq![TermAction::SgrBackground((p0 - 40) as u8)]
            } else if p0 == 49 {
                seq![TermAction::SgrBackgroundDefault]
            } else if 90 <= p0 <= 97 {
                seq![TermAction::SgrForeground((p0 - 82) as u8)]
            } else if 100 <= p0 <= 107 {
                seq![TermAction::SgrBackground((p0 - 92) as u8)]
            } else {
                Seq::empty()
            };
            here + rest
        }
    }
}

/// The actions of one complete control sequence: SGR dispatch for `m`,
/// erase to end of line for `K` (only its default form), erase display for
/// `J 2`; every other final byte is unrecognized and yields nothing.
pub open spec fn csi_dispatch(params: Seq<u16>, fin: u8) -> Seq<TermAction> {
    if fin == 0x6d {
        sgr_actions(params)
    } else if fin == 0x4b {
        if params.len() == 1 && params[0] == 0 {
            seq![TermAction::EraseToEndOfLine]
        } else {
            Seq::empty()
        }
    } else if fin == 0x4a {
        if params.len() == 1 && params[0] == 2 {
            seq![TermAction::EraseDisplay]
        } else {
            Seq::empty()
        }
    } else {
        Seq::empty()
    }
}

/// One saturating decimal digit step of a CSI parameter.
pub open spec fn spec_param_digit(cur: u16, d: u8) -> u16 {
    if cur as int * 10 + d as int > 65535 {
        65535
    } else {
        (cur as int * 10 + d as int) as u16
    }
}

/// One byte in the ground state.
pub open spec fn spec_ground_step(p: ParserView, b: u8) -> (ParserView, Seq<TermAction>) {
    if b == 0x0d {
        (p.ground(), seq![TermAction::CarriageReturn])
    } else if b == 0x0a {
        (p.ground(), seq![TermAction::LineFeed])
    } else if b == 0x08 {
        (p.ground(), seq![TermAction::Backspace])
    } else if b == 0x1b {
        (ParserView { state: ParseState::Escape, ..p }, Seq::empty())
    } else if 0x20 <= b <= 0x7e {
        (p.ground(), seq![TermAction::Print(b)])
    } else if b < 0x20 || b == 0x7f {
        // Other control codes: unhandled, discarded.
        (p.ground(), Seq::empty())
    } else if 0xc0 <= b <= 0xdf {
        (ParserView { state: ParseState::Utf8, utf8_left: 1, ..p }, Seq::empty())
    } else if 0xe0 <= b <= 0xef {
        (ParserView { state: ParseState::Utf8, utf8_left: 2, ..p }, Seq::empty())
    } else if 0xf0 <= b <= 0xf7 {
        (ParserView { state: ParseState::Utf8, utf8_left: 3, ..p }, Seq::empty())
    } else {
        // A stray continuation byte or an invalid lead byte: one malformed
        // character, shown as the replacement blank.
        (p.ground(), seq![TermAction::Print(0x20)])
    }
}

/// One byte fed to the parser: the next parser state and the actions the
/// byte completes.
pub open spec fn spec_step(p: ParserView, b: u8) -> (ParserView, Seq<TermAction>) {
    match p.state {
        ParseState::Ground => spec_ground_step(p, b),
        ParseState::Utf8 => {
            if 0x80 <= b <= 0xbf {
                if p.utf8_left <= 1 {
                    // The character is complete; non-ASCII prints as a space.
                    (ParserView { state: ParseState::Ground, utf8_left: 0, ..p }, seq![
                        TermAction::Print(0x20),
                    ])
                } else {
                    (ParserView { utf8_left: p.utf8_left - 1, ..p }, Seq::empty())
                }
            } else {
                // Malformed character: print its replacement blank, then
                // take the byte as fresh input.
                let (p2, acts) = spec_ground_step(
                    ParserView { state: ParseState::Ground, utf8_left: 0, ..p },
                    b,
                );
                (p2, seq![TermAction::Print(0x20)] + acts)
            }
        },
        ParseState::Escape => {
            if b == 0x5b {
                (
                    ParserView {
                        state: ParseState::Csi,
                        params: Seq::empty(),
                        cur_param: 0,
                        ignored: false,
                        ..p
                    },
                    Seq::empty(),
                )
            } else if b == 0x5d {
                (ParserView { state: ParseState::OscString, ..p }, Seq::empty())
            } else if b == 0x50 || b == 0x58 || b == 0x5e || b == 0x5f {
                (ParserView { state: ParseState::OtherString, ..p }, Seq::empty())
            } else if 0x20 <= b <= 0x2f {
                (ParserView { state: ParseState::EscapeIntermediate, ..p }, Seq::empty())
            } else if b == 0x1b {
                (p, Seq::empty())
            } else if 0x30 <= b <= 0x7e {
                // Unhandled escape: discarded.
                (p.ground(), Seq::empty())
            } else {
                (p, Seq::empty())
            }
        },
        ParseState::EscapeIntermediate => {
            if 0x20 <= b <= 0x2f {
                (p, Seq::empty())
            } else if b == 0x1b {
                (ParserView { state: ParseState::Escape, ..p }, Seq::empty())
            } else if 0x30 <= b <= 0x7e {
                // Unhandled escape sequence: discarded.
                (p.ground(), Seq::empty())
            } else {
                (p, Seq::empty())
            }
        },
        ParseState::Csi => {
            if 0x30 <= b <= 0x39 {
                (ParserView { cur_param: spec_param_digit(p.cur_param, (b - 0x30) as u8), ..p },
                Seq::empty())
            } else if b == 0x3b {
                if p.params.len() < MAX_PARAMS {
                    (ParserView { params: p.params.push(p.cur_param), cur_param: 0, ..p },
                    Seq::empty())
                } else {
                    (ParserView { ignored: true, ..p }, Seq::empty())
                }
            } else if b == 0x3a || (0x3c <= b <= 0x3f) || (0x20 <= b <= 0x2f) {
                // Subparameters, private markers and intermediates make
                // the whole sequence unrecognized.
                (ParserView { ignored: true, ..p }, Seq::empty())
            } else if 0x40 <= b <= 0x7e {
                let acts: Seq<TermAction> = if p.ignored {
                    Seq::empty()
                } else {
                    csi_dispatch(p.params.push(p.cur_param), b)
                };
                (
                    ParserView {
                        state: ParseState::Ground,
                        params: p.params.push(p.cur_param),
                        ..p
                    },
                    acts,
                )
            } else if b == 0x1b {
                (ParserView { state: ParseState::Escape, ..p }, Seq::empty())
            } else {
                (p, Seq::empty())
            }
        },
        ParseState::OscString => {
            if b == 0x07 {
                (p.ground(), Seq::empty())
            } else if b == 0x1b {
                (ParserView { state: ParseState::OscEscape, ..p }, Seq::empty())
            } else {
                (p, Seq::empty())
            }
        },
        ParseState::OscEscape => {
            if b == 0x5c {
                (p.ground(), Seq::empty())
            } else if b == 0x1b {
                (p, Seq::empty())
            } else {
                (ParserView { state: ParseState::OscString, ..p }, Seq::empty())
            }
        },
        ParseState::OtherString => {
            if b == 0x07 {
                (p.ground(), Seq::empty())
            } else if b == 0x1b {
                (ParserView { state: ParseState::OtherStringEscape, ..p }, Seq::empty())
            } else {
                (p, Seq::empty())
            }
        },
        ParseState::OtherStringEscape => {
            if b == 0x5c {
                (p.ground(), Seq::empty())
            } else if b == 0x1b {
                (p, Seq::empty())
            } else {
                (ParserView { state: ParseState::OtherString, ..p }, Seq::empty())
            }
        },
    }
}

/// The escape-sequence protocol parser.
pub struct Parser {
    state: ParseState,
    params: Vec<u16>,
    cur_param: u16,
    ignored: bool,
    utf8_left: u8,
}

impl View for Parser {
    type V = ParserView;

    closed spec fn view(&self) -> ParserView {
        ParserView {
            state: self.state,
            params: self.params@,
            cur_param: self.cur_param,
            ignored: self.ignored,
            utf8_left: self.utf8_left as int,
        }
    }
}

impl Parser {
    /// A fresh parser at rest.
    pub fn new() -> (r: Parser)
        ensures
            r@ =~= initial_parser(),
    {
        Parser {
            state: ParseState::Ground,
            params: Vec::new(),
            cur_param: 0,
            ignored: false,
            utf8_left: 0,
        }
    }

    /// Handles one byte as plain text.
    fn ground_step(&mut self, b: u8) -> (acts: Vec<TermAction>)
        requires
            old(self)@.state == ParseState::Ground,
        ensures
            final(self)@ == spec_ground_step(old(self)@, b).0,
            acts@ == spec_ground_step(old(self)@, b).1,
    {
        let ghost p0 = self@;
        let mut acts: Vec<TermAction> = Vec::new();
        if b == 0x0d {
            acts.push(TermAction::CarriageReturn);
        } else if b == 0x0a {
            acts.push(TermAction::LineFeed);
        } else if b == 0x08 {
            acts.push(TermAction::Backspace);
        } else if b == 0x1b {
            self.state = ParseState::Escape;
        } else if 0x20 <= b && b <= 0x7e {
            acts.push(TermAction::Print(b));
        } else if b < 0x20 || b == 0x7f {
            // Other control codes: unhandled, discarded.
        } else if 0xc0 <= b && b <= 0xdf {
            self.state = ParseState::Utf8;
            self.utf8_left = 1;
        } else if 0xe0 <= b && b <= 0xef {
            self.state = ParseState::Utf8;
            self.utf8_left = 2;
        } else if 0xf0 <= b && b <= 0xf7 {
            self.state = ParseState::Utf8;
            self.utf8_left = 3;
        } else {
            acts.push(TermAction::Print(0x20));
        }
        proof {
            assert(self@ =~= spec_ground_step(p0, b).0);
            assert(acts@ =~= spec_ground_step(p0, b).1);
        }
        acts
    }

    /// Feeds one byte to the parser and returns the actions it completes,
    /// in order. Total: any byte is accepted in any state.
    pub fn step(&mut self, b: u8) -> (acts: Vec<TermAction>)
        ensures
            final(self)@ == spec_step(old(self)@, b).0,
            acts@ == spec_step(old(self)@, b).1,
    {
        let ghost p0 = self@;
        match self.state {
            ParseState::Ground => self.ground_step(b),
            ParseState::Utf8 => {
                if 0x80 <= b && b <= 0xbf {
                    let mut acts: Vec<TermAction> = Vec::new();
                    if self.utf8_left <= 1 {
                        self.state = ParseState::Ground;
                        self.utf8_left = 0;
                        acts.push(TermAction::Print(0x20));
                    } else {
                        self.utf8_left = self.utf8_left - 1;
                    }
                    proof {
                        assert(self@ =~= spec_step(p0, b).0);
                        assert(acts@ =~= spec_step(p0, b).1);
                    }
                    acts
                } else {
                    self.state = ParseState::Ground;
                    self.utf8_left = 0;
                    let tail = self.ground_step(b);
                    let mut acts: Vec<TermAction> = Vec::new();
                    acts.push(TermAction::Print(0x20));
                    let mut k: usize = 0;
                    while k < tail.len()
                        invariant
                            k <= tail@.len(),
                            acts@ =~= seq![TermAction::Print(0x20u8)] + tail@.subrange(
                                0,
                                k as int,
                            ),
                        decreases tail@.len() - k,
                    {
                        acts.push(tail[k]);
                        k = k + 1;
                    }
                    proof {
                        assert(tail@.subrange(0, tail@.len() as int) =~= tail@);
                        assert(self@ =~= spec_step(p0, b).0);
                        assert(acts@ =~= spec_step(p0, b).1);
                    }
                    acts
                }
            },
            ParseState::Escape => {
                if b == 0x5b {
                    self.state = ParseState::Csi;
                    self.params.clear();
                    self.cur_param = 0;
                    self.ignored = false;
                } else if b == 0x5d {
                    self.state = ParseState::OscString;
                } else if b == 0x50 || b == 0x58 || b == 0x5e || b == 0x5f {
                    self.state = ParseState::OtherString;
                } else if 0x20 <= b && b <= 0x2f {
                    self.state = ParseState::EscapeIntermediate;
                } else if b == 0x1b {
                    // Restarted escape: stay.
                } else if 0x30 <= b && b <= 0x7e {
                    self.state = ParseState::Ground;
                }
                proof {
                    assert(self@ =~= spec_step(p0, b).0);
                    assert(Seq::<TermAction>::empty() =~= spec_step(p0, b).1);
                }
                Vec::new()
            },
            ParseState::EscapeIntermediate => {
                if 0x20 <= b && b <= 0x2f {
                } else if b == 0x1b {
                    self.state = ParseState::Escape;
                } else if 0x30 <= b && b <= 0x7e {
                    self.state = ParseState::Ground;
                }
                proof {
                    assert(self@ =~= spec_step(p0, b).0);
                    assert(Seq::<TermAction>::empty() =~= spec_step(p0, b).1);
                }
                Vec::new()
            },
            ParseState::Csi => self.csi_step(b),
            ParseState::OscString => {
                if b == 0x07 {
                    self.state = ParseState::Ground;
                } else if b == 0x1b {
                    self.state = ParseState::OscEscape;
                }
                proof {
                    assert(self@ =~= spec_step(p0, b).0);
                    assert(Seq::<TermAction>::empty() =~= spec_step(p0, b).1);
                }
                Vec::new()
            },
            ParseState::OscEscape => {
                if b == 0x5c {
                    self.state = ParseState::Ground;
                } else if b == 0x1b {
                } else {
                    self.state = ParseState::OscString;
                }
                proof {
                    assert(self@ =~= spec_step(p0, b).0);
                    assert(Seq::<TermAction>::empty() =~= spec_step(p0, b).1);
                }
                Vec::new()
            },
            ParseState::OtherString => {
                if b == 0x07 {
                    self.state = ParseState::Ground;
                } else if b == 0x1b {
                    self.state = ParseState::OtherStringEscape;
                }
                proof {
                    assert(self@ =~= spec_step(p0, b).0);
                    assert(Seq::<TermAction>::empty() =~= spec_step(p0, b).1);
                }
                Vec::new()
            },
            ParseState::OtherStringEscape => {
                if b == 0x5c {
                    self.state = ParseState::Ground;
                } else if b == 0x1b {
                } else {
                    self.state = ParseState::OtherString;
                }
                proof {
                    assert(self@ =~= spec_step(p0, b).0);
                    assert(Seq::<TermAction>::empty() =~= spec_step(p0, b).1);
                }
                Vec::new()
            },
        }
    }

    /// Handles one byte inside a control sequence.
    fn csi_step(&mut self, b: u8) -> (acts: Vec<TermAction>)
        requires
            old(self)@.state == ParseState::Csi,
        ensures
            final(self)@ == spec_step(old(self)@, b).0,
            acts@ == spec_step(old(self)@, b).1,
    {
        let ghost p0 = self@;
        if 0x30 <= b && b <= 0x39 {
            let d = b - 0x30;
            let n: u32 = self.cur_param as u32 * 10 + d as u32;
            self.cur_param = if n > 65535 {
                65535
            } else {
                n as u16
            };
            proof {
                assert(self@ =~= spec_step(p0, b).0);
            }
            Vec::new()
        } else if b == 0x3b {
            if self.params.len() < MAX_PARAMS {
                let cur = self.cur_param;
                self.params.push(cur);
                self.cur_param = 0;
            } else {
                self.ignored = true;
            }
            proof {
                assert(self@ =~= spec_step(p0, b).0);
            }
            Vec::new()
        } else if b == 0x3a || (0x3c <= b && b <= 0x3f) || (0x20 <= b && b <= 0x2f) {
            self.ignored = true;
            proof {
                assert(self@ =~= spec_step(p0, b).0);
            }
            Vec::new()
        } else if 0x40 <= b && b <= 0x7e {
            let ignored = self.ignored;
            let cur = self.cur_param;
            self.params.push(cur);
            let acts: Vec<TermAction> = if ignored {
                Vec::new()
            } else {
                dispatch_csi(&self.params, b)
            };
            self.state = ParseState::Ground;
            proof {
                assert(self@ =~= spec_step(p0, b).0);
                assert(acts@ == spec_step(p0, b).1);
            }
            acts
        } else if b == 0x1b {
            self.state = ParseState::Escape;
            proof {
                assert(self@ =~= spec_step(p0, b).0);
            }
            Vec::new()
        } else {
            proof {
                assert(self@ =~= spec_step(p0, b).0);
            }
            Vec::new()
        }
    }
}

/// Computes the actions of one complete control sequence.
fn dispatch_csi(params: &Vec<u16>, fin: u8) -> (acts: Vec<TermAction>)
    ensures
        acts@ == csi_dispatch(params@, fin),
{
    let mut acts: Vec<TermAction> = Vec::new();
    if fin == 0x6d {
        let ghost total = sgr_actions(params@);
        proof {
            assert(params@.subrange(0, params@.len() as int) =~= params@);
            assert(Seq::<TermAction>::empty() + sgr_actions(params@) =~= sgr_actions(params@));
        }
        let mut k: usize = 0;
        let mut stop = false;
        while k < params.len() && !stop
            invariant
                k <= params@.len(),
                stop ==> total == acts@,
                !stop ==> total == acts@ + sgr_actions(
                    params@.subrange(k as int, params@.len() as int),
                ),
            decreases params@.len() - k,
        {
            let ghost before = acts@;
            let ghost suffix = params@.subrange(k as int, params@.len() as int);
            let p0 = params[k];
            proof {
                assert(suffix[0] == p0);
            }
            if p0 == 38 || p0 == 48 {
                if params.len() - k > 2 && params[k + 1] == 5 {
                    // Extended palette form: one argument, the entry index.
                    let n = params[k + 2];
                    let ghost here: Seq<TermAction> = if n <= 255 {
                        if p0 == 38 {
                            seq![TermAction::SgrForeground(n as u8)]
                        } else {
                            seq![TermAction::SgrBackground(n as u8)]
                        }
                    } else {
                        Seq::empty()
                    };
                    if n <= 255 {
                        if p0 == 38 {
                            acts.push(TermAction::SgrForeground(n as u8));
                        } else {
                            acts.push(TermAction::SgrBackground(n as u8));
                        }
                    }
                    proof {
                        let shorter = params@.subrange(k as int + 3, params@.len() as int);
                        assert(suffix[1] == params@[k as int + 1]);
                        assert(suffix[2] == params@[k as int + 2]);
                        assert(suffix.subrange(3, suffix.len() as int) =~= shorter);
                        assert(sgr_actions(suffix) =~= here + sgr_actions(shorter));
                        assert(acts@ =~= before + here);
                        assert((before + here) + sgr_actions(shorter) =~= before + (here
                            + sgr_actions(shorter)));
                        assert(total == acts@ + sgr_actions(shorter));
                    }
                    k = k + 3;
                } else if params.len() - k > 4 && params[k + 1] == 2 {
                    // Direct-color form: three arguments the cell encoding
                    // cannot hold; consumed without effect.
                    proof {
                        let shorter = params@.subrange(k as int + 5, params@.len() as int);
                        assert(suffix[1] == params@[k as int + 1]);
                        assert(suffix.subrange(5, suffix.len() as int) =~= shorter);
                        assert(sgr_actions(suffix) == sgr_actions(shorter));
                        assert(total == acts@ + sgr_actions(shorter));
                    }
                    k = k + 5;
                } else {
                    // Malformed extended form: the rest of the sequence is
                    // discarded as unrecognized.
                    stop = true;
                    proof {
                        assert(sgr_actions(suffix) =~= Seq::<TermAction>::empty());
                        assert(total =~= acts@);
                    }
                    k = k + 1;
                }
            } else {
                let action: Option<TermAction> = if p0 == 0 {
                    Some(TermAction::SgrReset)
                } else if p0 == 1 {
                    Some(TermAction::SgrBold)
                } else if p0 == 2 {
                    Some(TermAction::SgrHalfBright)
                } else if p0 == 4 || p0 == 21 {
                    Some(TermAction::SgrUnderline(true))
                } else if p0 == 7 {
                    Some(TermAction::SgrInverse(true))
                } else if p0 == 9 {
                    Some(TermAction::SgrStrikeThrough(true))
                } else if p0 == 22 {
                    Some(TermAction::SgrNormalIntensity)
                } else if p0 == 24 {
                    Some(TermAction::SgrUnderline(false))
                } else if p0 == 27 {
                    Some(TermAction::SgrInverse(false))
                } else if p0 == 29 {
                    Some(TermAction::SgrStrikeThrough(false))
                } else if 30 <= p0 && p0 <= 37 {
                    Some(TermAction::SgrForeground((p0 - 30) as u8))
                } else if p0 == 39 {
                    Some(TermAction::SgrForegroundDefault)
                } else if 40 <= p0 && p0 <= 47 {
                    Some(TermAction::SgrBackground((p0 - 40) as u8))
                } else if p0 == 49 {
                    Some(TermAction::SgrBackgroundDefault)
                } else if 90 <= p0 && p0 <= 97 {
                    Some(TermAction::SgrForeground((p0 - 82) as u8))
                } else if 100 <= p0 && p0 <= 107 {
                    Some(TermAction::SgrBackground((p0 - 92) as u8))
                } else {
                    None
                };
                let ghost here: Seq<TermAction> = match action {
                    Some(a) => seq![a],
                    None => Seq::empty(),
                };
                match action {
                    Some(a) => {
                        acts.push(a);
                    },
                    None => {},
                }
                proof {
                    let shorter = params@.subrange(k as int + 1, params@.len() as int);
                    assert(suffix.subrange(1, suffix.len() as int) =~= shorter);
                    assert(sgr_actions(suffix) =~= here + sgr_actions(shorter));
                    assert(acts@ =~= before + here);
                    assert((before + here) + sgr_actions(shorter) =~= before + (here
                        + sgr_actions(shorter)));
                    assert(total == acts@ + sgr_actions(shorter));
                }
                k = k + 1;
            }
        }
        proof {
            if !stop {
                assert(sgr_actions(params@.subrange(k as int, params@.len() as int))
                    =~= Seq::<TermAction>::empty());
                assert(total =~= acts@);
            }
            assert(acts@ == csi_dispatch(params@, fin));
        }
    } else if fin == 0x4b {
        if params.len() == 1 && params[0] == 0 {
            acts.push(TermAction::EraseToEndOfLine);
        }
        proof {
            assert(acts@ =~= csi_dispatch(params@, fin));
        }
    } else if fin == 0x4a {
        if params.len() == 1 && params[0] == 2 {
            acts.push(TermAction::EraseDisplay);
        }
        proof {
            assert(acts@ =~= csi_dispatch(params@, fin));
        }
    }
    proof {
        assert(acts@ =~= csi_dispatch(params@, fin));
    }
    acts
}

} // verus!
