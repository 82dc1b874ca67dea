//! The parser of install scripts.
//!
//! A script is read as a list of words, the maximal runs of non-whitespace
//! characters; instructions are then read from the words:
//! `PACKAGE path [AS path]` and `PUBLISH path`.

use vstd::prelude::*;

use crate::pkgscript::ast::{Instruction, InstructionView, Script, ScriptError, ScriptErrorView};
use crate::text::{chars_of, is_whitespace, is_ws};

verus! {

/// The words of `s`, given that the word in progress so far is `cur`.
pub open spec fn split_ws(s: Seq<char>, cur: Seq<char>) -> Seq<Seq<char>>
    decreases s.len(),
{
    if s.len() == 0 {
        if cur.len() == 0 {
            seq![]
        } else {
            seq![cur]
        }
    } else if is_ws(s[0]) {
        if cur.len() == 0 {
            split_ws(s.drop_first(), seq![])
        } else {
            seq![cur] + split_ws(s.drop_first(), seq![])
        }
    } else {
        split_ws(s.drop_first(), cur.push(s[0]))
    }
}

/// The maximal runs of non-whitespace characters of `s`, in order.
pub open spec fn words(s: Seq<char>) -> Seq<Seq<char>> {
    split_ws(s, seq![])
}

pub open spec fn cons(
    i: InstructionView,
    r: Result<Seq<InstructionView>, ScriptErrorView>,
) -> Result<Seq<InstructionView>, ScriptErrorView> {
    match r {
        Ok(rest) => Ok(seq![i] + rest),
        Err(e) => Err(e),
    }
}

pub open spec fn prepend(
    done: Seq<InstructionView>,
    r: Result<Seq<InstructionView>, ScriptErrorView>,
) -> Result<Seq<InstructionView>, ScriptErrorView> {
    match r {
        Ok(rest) => Ok(done + rest),
        Err(e) => Err(e),
    }
}

/// The instructions that a list of words spells, or the first fault in it.
pub open spec fn parse_words(ws: Seq<Seq<char>>) -> Result<Seq<InstructionView>, ScriptErrorView>
    decreases ws.len(),
{
    if ws.len() == 0 {
        Ok(seq![])
    } else if ws[0] == "PACKAGE"@ {
        if ws.len() < 2 {
            Err(ScriptErrorView::MissingPath { after: "PACKAGE"@ })
        } else if ws.len() >= 3 && ws[2] == "AS"@ {
            if ws.len() < 4 {
                Err(ScriptErrorView::MissingPath { after: "AS"@ })
            } else {
                cons(
                    InstructionView::Package { source: ws[1], target: Some(ws[3]) },
                    parse_words(ws.skip(4)),
                )
            }
        } else {
            cons(InstructionView::Package { source: ws[1], target: None }, parse_words(ws.skip(2)))
        }
    } else if ws[0] == "PUBLISH"@ {
        if ws.len() < 2 {
            Err(ScriptErrorView::MissingPath { after: "PUBLISH"@ })
        } else {
            cons(InstructionView::Publish { target: ws[1] }, parse_words(ws.skip(2)))
        }
    } else {
        Err(ScriptErrorView::UnknownInstruction { name: ws[0] })
    }
}

/// What parsing the script text `s` yields.
pub open spec fn parse_script(s: Seq<char>) -> Result<Seq<InstructionView>, ScriptErrorView> {
    parse_words(words(s))
}

pub open spec fn parse_result_view(r: Result<Script, ScriptError>) -> Result<
    Seq<InstructionView>,
    ScriptErrorView,
> {
    match r {
        Ok(s) => Ok(s@),
        Err(e) => Err(e@),
    }
}

proof fn lemma_split_ws_ws_step(s: Seq<char>, p: int)
    requires
        0 <= p < s.len(),
        is_ws(s[p]),
    ensures
        split_ws(s.skip(p), seq![]) == split_ws(s.skip(p + 1), seq![]),
{
    assert(s.skip(p).drop_first() =~= s.skip(p + 1));
}

/// A cursor over the characters of a script.
pub struct Parser<'s> {
    pos: usize,
    source: &'s str,
    chars: Vec<char>,
}

impl<'s> Parser<'s> {
    pub closed spec fn wf(&self) -> bool {
        &&& self.chars@ == self.source@
        &&& self.pos <= self.chars@.len()
    }

    /// The words from the cursor on.
    pub closed spec fn rest(&self) -> Seq<Seq<char>> {
        words(self.chars@.skip(self.pos as int))
    }

    fn skip_whitespaces(&mut self)
        requires
            old(self).wf(),
        ensures
            final(self).wf(),
            final(self).source == old(self).source,
            final(self).chars == old(self).chars,
            final(self).pos >= old(self).pos,
            final(self).rest() == old(self).rest(),
            final(self).pos < final(self).chars@.len() ==> !is_ws(
                final(self).chars@[final(self).pos as int],
            ),
    {
        while self.pos < self.chars.len()
            invariant
                self.wf(),
                self.source == old(self).source,
                self.chars == old(self).chars,
                self.pos >= old(self).pos,
                self.rest() == old(self).rest(),
            decreases self.chars@.len() - self.pos,
        {
            if !is_whitespace(self.chars[self.pos]) {
                return;
            }
            proof {
                lemma_split_ws_ws_step(self.chars@, self.pos as int);
            }
            self.pos = self.pos + 1;
        }
    }

    /// The next word and the position just after it, without moving.
    fn peek_name(&self) -> (r: Option<(String, usize)>)
        requires
            self.wf(),
        ensures
            match r {
                None => self.rest().len() == 0,
                Some((w, e)) => {
                    &&& self.pos <= e <= self.chars@.len()
                    &&& self.rest() == seq![w@] + words(self.chars@.skip(e as int))
                },
            },
    {
        let ghost s = self.chars@;
        let mut start: usize = self.pos;
        while start < self.chars.len() && is_whitespace(self.chars[start])
            invariant
                self.wf(),
                s == self.chars@,
                self.pos <= start <= s.len(),
                words(s.skip(start as int)) == self.rest(),
            decreases s.len() - start,
        {
            proof {
                lemma_split_ws_ws_step(s, start as int);
            }
            start = start + 1;
        }
        if start == self.chars.len() {
            assert(s.skip(start as int) =~= seq![]);
            return None;
        }
        let mut end: usize = start + 1;
        assert(s.skip(start as int).drop_first() =~= s.skip(start + 1));
        assert(seq![].push(s[start as int]) =~= s.subrange(start as int, end as int));
        while end < self.chars.len() && !is_whitespace(self.chars[end])
            invariant
                self.wf(),
                s == self.chars@,
                self.pos <= start < end <= s.len(),
                self.rest() == split_ws(s.skip(end as int), s.subrange(start as int, end as int)),
            decreases s.len() - end,
        {
            assert(s.skip(end as int).drop_first() =~= s.skip(end + 1));
            assert(s.subrange(start as int, end as int).push(s[end as int]) =~= s.subrange(
                start as int,
                end + 1,
            ));
            end = end + 1;
        }
        let ghost w = s.subrange(start as int, end as int);
        proof {
            if end < s.len() {
                assert(s.skip(end as int).drop_first() =~= s.skip(end + 1));
                lemma_split_ws_ws_step(s, end as int);
            } else {
                assert(s.skip(end as int) =~= seq![]);
                assert(words(s.skip(end as int)) =~= seq![]);
                assert(seq![w] + words(s.skip(end as int)) =~= seq![w]);
            }
        }
        let word = self.source.substring_char(start, end).to_owned();
        Some((word, end))
    }

    /// The next word, moving past it.
    fn parse_path(&mut self) -> (r: Option<String>)
        requires
            old(self).wf(),
        ensures
            final(self).wf(),
            final(self).source == old(self).source,
            final(self).chars == old(self).chars,
            final(self).pos >= old(self).pos,
            match r {
                None => old(self).rest().len() == 0,
                Some(w) => old(self).rest() == seq![w@] + final(self).rest(),
            },
    {
        match self.peek_name() {
            None => None,
            Some((w, e)) => {
                self.pos = e;
                Some(w)
            },
        }
    }

    fn parse_publish(&mut self) -> (r: Result<Instruction, ScriptError>)
        requires
            old(self).wf(),
        ensures
            final(self).wf(),
            final(self).source == old(self).source,
            final(self).chars == old(self).chars,
            final(self).pos >= old(self).pos,
            old(self).rest().len() < 1 ==> r == Err::<Instruction, ScriptError>(
                ScriptError::MissingPath { after: r->Err_0->after },
            ) && r->Err_0->after@ == "PUBLISH"@,
            old(self).rest().len() >= 1 ==> r is Ok && r->Ok_0@ == (InstructionView::Publish {
                target: old(self).rest()[0],
            }) && old(self).rest().skip(1) == final(self).rest(),
    {
        match self.parse_path() {
            None => Err(ScriptError::MissingPath { after: String::from_str("PUBLISH") }),
            Some(target) => {
                assert(old(self).rest().skip(1) =~= self.rest());
                Ok(Instruction::Publish { target })
            },
        }
    }

    fn parse_package(&mut self) -> (r: Result<Instruction, ScriptError>)
        requires
            old(self).wf(),
        ensures
            final(self).wf(),
            final(self).source == old(self).source,
            final(self).chars == old(self).chars,
            final(self).pos >= old(self).pos,
            ({
                let ws = old(self).rest();
                if ws.len() < 1 {
                    r is Err && r->Err_0@ == (ScriptErrorView::MissingPath { after: "PACKAGE"@ })
                } else if ws.len() >= 2 && ws[1] == "AS"@ {
                    if ws.len() < 3 {
                        r is Err && r->Err_0@ == (ScriptErrorView::MissingPath { after: "AS"@ })
                    } else {
                        &&& r is Ok
                        &&& r->Ok_0@ == (InstructionView::Package {
                            source: ws[0],
                            target: Some(ws[2]),
                        })
                        &&& ws.skip(3) == final(self).rest()
                    }
                } else {
                    &&& r is Ok
                    &&& r->Ok_0@ == (InstructionView::Package { source: ws[0], target: None })
                    &&& ws.skip(1) == final(self).rest()
                }
            }),
    {
        let ghost ws = self.rest();
        let source = match self.parse_path() {
            None => {
                return Err(ScriptError::MissingPath { after: String::from_str("PACKAGE") });
            },
            Some(s) => s,
        };
        let ghost ws1 = self.rest();
        assert(ws.skip(1) =~= ws1);
        let as_kw = String::from_str("AS");
        match self.peek_name() {
            Some((w, e)) => {
                if w == as_kw {
                    self.pos = e;
                    let ghost ws2 = self.rest();
                    assert(ws.skip(2) =~= ws2);
                    match self.parse_path() {
                        None => {
                            return Err(ScriptError::MissingPath { after: as_kw });
                        },
                        Some(t) => {
                            assert(ws.skip(3) =~= self.rest());
                            return Ok(Instruction::Package { source, target: Some(t) });
                        },
                    }
                }
            },
            None => {},
        }
        Ok(Instruction::Package { source, target: None })
    }

    /// Parses an install script into its instructions.
    pub fn parse(source: &str) -> (r: Result<Script, ScriptError>)
        ensures
            parse_result_view(r) == parse_script(source@),
    {
        let mut parser = Parser { pos: 0, source, chars: chars_of(source) };
        let mut body: Vec<Instruction> = Vec::new();
        assert(parser.chars@.skip(0) =~= parser.chars@);
        let package_kw = String::from_str("PACKAGE");
        let publish_kw = String::from_str("PUBLISH");
        loop
            invariant
                parser.wf(),
                parser.source == source,
                parser.chars@ == source@,
                package_kw@ == "PACKAGE"@,
                publish_kw@ == "PUBLISH"@,
                parse_script(source@) == prepend(
                    body@.map_values(|i: Instruction| i@),
                    parse_words(parser.rest()),
                ),
            decreases parser.chars@.len() - parser.pos,
        {
            let ghost ws = parser.rest();
            let ghost done = body@.map_values(|i: Instruction| i@);
            let ghost pos0 = parser.pos;
            let name = match parser.parse_path() {
                None => {
                    assert(ws =~= seq![]);
                    assert(done + seq![] =~= done);
                    return Ok(Script { body });
                },
                Some(n) => n,
            };
            let ghost pos1 = parser.pos;
            assert(pos1 > pos0) by {
                if pos1 <= pos0 {
                    assert(parser.rest() == ws);
                    assert((seq![name@] + parser.rest()).len() == ws.len() + 1);
                }
            }
            assert(ws[0] == name@);
            assert(ws.skip(1) =~= parser.rest());
            if name == package_kw {
                let ins = match parser.parse_package() {
                    Ok(i) => i,
                    Err(e) => {
                        return Err(e);
                    },
                };
                let ghost rest = parser.rest();
                proof {
                    if ws.len() >= 3 && ws[2] == "AS"@ {
                        assert(ws.skip(4) =~= rest);
                    } else {
                        assert(ws.skip(2) =~= rest);
                    }
                }
                body.push(ins);
                assert(body@.map_values(|i: Instruction| i@) =~= done + seq![ins@]);
                assert(done + seq![ins@] + parse_words(rest)->Ok_0 =~= done + (seq![ins@]
                    + parse_words(rest)->Ok_0));
            } else if name == publish_kw {
                let ins = match parser.parse_publish() {
                    Ok(i) => i,
                    Err(e) => {
                        return Err(e);
                    },
                };
                let ghost rest = parser.rest();
                assert(ws.skip(2) =~= rest);
                body.push(ins);
                assert(body@.map_values(|i: Instruction| i@) =~= done + seq![ins@]);
                assert(done + seq![ins@] + parse_words(rest)->Ok_0 =~= done + (seq![ins@]
                    + parse_words(rest)->Ok_0));
            } else {
                return Err(ScriptError::UnknownInstruction { name });
            }
        }
    }
}

} // verus!
