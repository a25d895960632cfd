//! The terminal screen: the character grid together with the escape
//! interpreter's parser state. Its single input is a raw byte stream;
//! feeding bytes never fails, and malformed sequences are absorbed rather
//! than rejected.

use vstd::prelude::*;
use vstd::string::StringSliceAdditionalSpecFns;

use crate::action::TermAction;
use crate::model::{initial_model, ModelView, ScreenModel};
use crate::parser::{initial_parser, spec_step, Parser, ParserView};

verus! {

/// The grid and parser after a byte stream has been fed: each byte steps
/// the parser, and the actions it completes mutate the grid, in order.
pub open spec fn run_bytes(m: ModelView, p: ParserView, bytes: Seq<u8>) -> (ModelView, ParserView)
    decreases bytes.len(),
{
    if bytes.len() == 0 {
        (m, p)
    } else {
        let r = spec_step(p, bytes[0]);
        run_bytes(m.applied_all(r.1), r.0, bytes.subrange(1, bytes.len() as int))
    }
}

/// The screen: the character grid plus the byte parser that feeds it.
pub struct Screen {
    pub model: ScreenModel,
    pub parser: Parser,
}

impl Screen {
    /// Well-formedness of the screen: its grid is well formed.
    pub open spec fn wf(&self) -> bool {
        self.model.wf()
    }

    /// A fresh screen: a fresh grid and a parser at rest.
    pub fn new() -> (r: Screen)
        ensures
            r.wf(),
            r.model@ =~= initial_model(),
            r.parser@ =~= initial_parser(),
    {
        Screen { model: ScreenModel::new(), parser: Parser::new() }
    }

    /// Feeds raw bytes into the escape interpreter. Total: every byte
    /// sequence, valid or not, maps to some grid actions or to none, and
    /// the grid stays well formed.
    pub fn parse_bytes(&mut self, bytes: &[u8])
        requires
            old(self).wf(),
        ensures
            final(self).wf(),
            (final(self).model@, final(self).parser@) == run_bytes(
                old(self).model@,
                old(self).parser@,
                bytes@,
            ),
    {
        let ghost m0 = self.model@;
        let ghost p0 = self.parser@;
        proof {
            assert(bytes@.subrange(0, bytes@.len() as int) =~= bytes@);
        }
        let mut i: usize = 0;
        while i < bytes.len()
            invariant
                self.model.wf(),
                i <= bytes@.len(),
                run_bytes(
                    self.model@,
                    self.parser@,
                    bytes@.subrange(i as int, bytes@.len() as int),
                ) == run_bytes(m0, p0, bytes@),
            decreases bytes@.len() - i,
        {
            let ghost rem = bytes@.subrange(i as int, bytes@.len() as int);
            let b = bytes[i];
            let ghost m_i = self.model@;
            let ghost p_i = self.parser@;
            let acts = self.parser.step(b);
            proof {
                assert(acts@.subrange(0, acts@.len() as int) =~= acts@);
            }
            let mut k: usize = 0;
            while k < acts.len()
                invariant
                    self.model.wf(),
                    k <= acts@.len(),
                    self.parser@ == spec_step(p_i, b).0,
                    acts@ == spec_step(p_i, b).1,
                    m_i.applied_all(acts@) == self.model@.applied_all(
                        acts@.subrange(k as int, acts@.len() as int),
                    ),
                decreases acts@.len() - k,
            {
                let ghost suffix = acts@.subrange(k as int, acts@.len() as int);
                let a = acts[k];
                self.model.apply_action(a);
                proof {
                    assert(suffix[0] == a);
                    assert(suffix.subrange(1, suffix.len() as int) =~= acts@.subrange(
                        k as int + 1,
                        acts@.len() as int,
                    ));
                }
                k = k + 1;
            }
            proof {
                assert(acts@.subrange(acts@.len() as int, acts@.len() as int)
                    =~= Seq::<TermAction>::empty());
                assert(self.model@ == m_i.applied_all(acts@));
                assert(rem[0] == b);
                assert(rem.len() > 0);
                assert(rem.subrange(1, rem.len() as int) =~= bytes@.subrange(
                    i as int + 1,
                    bytes@.len() as int,
                ));
                assert(run_bytes(m_i, p_i, rem) == run_bytes(
                    m_i.applied_all(spec_step(p_i, rem[0]).1),
                    spec_step(p_i, rem[0]).0,
                    rem.subrange(1, rem.len() as int),
                ));
                assert(spec_step(p_i, rem[0]).0 == self.parser@);
                assert(m_i.applied_all(spec_step(p_i, rem[0]).1) == self.model@);
                assert(run_bytes(m_i, p_i, rem) == run_bytes(
                    self.model@,
                    self.parser@,
                    bytes@.subrange(i as int + 1, bytes@.len() as int),
                ));
            }
            i = i + 1;
        }
        proof {
            assert(bytes@.subrange(bytes@.len() as int, bytes@.len() as int)
                =~= Seq::<u8>::empty());
        }
    }

    /// Feeds a text's UTF-8 bytes into the interpreter.
    pub fn print(&mut self, text: &str)
        requires
            old(self).wf(),
        ensures
            final(self).wf(),
            (final(self).model@, final(self).parser@) == run_bytes(
                old(self).model@,
                old(self).parser@,
                text.spec_bytes(),
            ),
    {
        self.parse_bytes(text.as_bytes());
    }
}

} // verus!
