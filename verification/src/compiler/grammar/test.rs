//! The tests of the language.

use vstd::prelude::*;
use vstd::utf8::*;
use vstd::string::*;
use crate::compiler::error::{CompileError, ErrorType};
use crate::compiler::grammar::capability::Capability;
use crate::compiler::grammar::instruction::{
    Collation,
    Match,
    MatchView,
    Test,
    TestExpr,
    TestExprView,
    TestView,
};
use crate::compiler::grammar::options::{OptionsView, Parser, Parsing, Shape};
use crate::compiler::grammar::tree::{condition_views, Condition, ConditionView};
use crate::compiler::lexer::tokenizer::{Token, TokenView};
use crate::compiler::lexer::word::Word;
use crate::runtime::condition::{same, same_text};
use crate::runtime::envelope::Envelope;
use crate::runtime::string::{item_views, StringItem, StringItemView};

verus! {

/// How deep tests and blocks may be nested.
pub const MAX_NESTING: usize = 15;

/// The envelope slot at a place of the table of slots, with its name.
pub open spec fn slot_entry(i: int) -> (Envelope, Seq<char>) {
    if i == 0 {
        (Envelope::From, "from"@)
    } else if i == 1 {
        (Envelope::To, "to"@)
    } else if i == 2 {
        (Envelope::OriginalRecipient, "originalrecipient"@)
    } else if i == 3 {
        (Envelope::ByTimeAbsolute, "bytimeabsolute"@)
    } else if i == 4 {
        (Envelope::ByTimeRelative, "bytimerelative"@)
    } else if i == 5 {
        (Envelope::ByMode, "bymode"@)
    } else if i == 6 {
        (Envelope::ByTrace, "bytrace"@)
    } else if i == 7 {
        (Envelope::Notify, "notify"@)
    } else if i == 8 {
        (Envelope::Orcpt, "orcpt"@)
    } else if i == 9 {
        (Envelope::Ret, "ret"@)
    } else if i == 10 {
        (Envelope::Envid, "envid"@)
    } else {
        (Envelope::Auth, "auth"@)
    }
}

/// The first slot of the table, from a place on, that has a name, whatever
/// the case of its letters.
pub open spec fn slot_from(name: Seq<u8>, i: int) -> Option<Envelope>
    decreases 12 - i,
{
    if i < 0 || i >= 12 {
        None
    } else if same_text(Collation::AsciiCaseMap, name, encode_utf8(slot_entry(i).1)) {
        Some(slot_entry(i).0)
    } else {
        slot_from(name, i + 1)
    }
}

/// The envelope slots that a list of strings names; none where a string is
/// no literal or no name of a slot.
pub open spec fn slots_of(items: Seq<StringItemView>) -> Option<Seq<Envelope>>
    decreases items.len(),
{
    if items.len() == 0 {
        Some(Seq::empty())
    } else {
        match (slots_of(items.drop_last()), items.last()) {
            (Some(slots), StringItemView::Text(name)) => match slot_from(name, 0) {
                Some(slot) => Some(slots.push(slot)),
                None => None,
            },
            _ => None,
        }
    }
}

/// The capability that a test belongs to, if it belongs to one.
pub open spec fn test_capability(word: Word) -> Option<Capability> {
    match word {
        Word::String => Some(Capability::Variables),
        Word::Envelope => Some(Capability::Envelope),
        Word::Duplicate => Some(Capability::Duplicate),
        Word::SpamTest => Some(Capability::SpamTest),
        Word::VirusTest => Some(Capability::VirusTest),
        Word::Environment => Some(Capability::Environment),
        _ => None,
    }
}

/// The shape of the tagged arguments of a test.
pub open spec fn test_shape(word: Word) -> Shape {
    match word {
        Word::Header => Shape::Match,
        Word::String => Shape::StringMatch,
        Word::Envelope => Shape::Match,
        Word::VirusTest => Shape::Match,
        Word::Environment => Shape::Match,
        Word::SpamTest => Shape::SpamTest,
        Word::Size => Shape::Size,
        Word::Duplicate => Shape::Duplicate,
        _ => Shape::Plain,
    }
}

/// Whether a word is the name of a test that is no combination of tests.
pub open spec fn is_test(word: Word) -> bool {
    word == Word::True || word == Word::False || word == Word::Header || word == Word::String
        || word == Word::Envelope || word == Word::Exists || word == Word::Size || word
        == Word::Duplicate || word == Word::SpamTest || word == Word::VirusTest || word
        == Word::Environment
}

impl Parsing {
    /// Reads the arguments of a test from behind its name, which stands at
    /// `offset`: the tagged ones, then the others.
    pub open spec fn leaf(self, word: Word, offset: int) -> (
        Result<TestView, CompileError>,
        Parsing,
    ) {
        if !is_test(word) {
            (Err(self.error(offset, ErrorType::UnexpectedToken("test"))), self)
        } else if self.lacks(test_capability(word)) is Some {
            (
                Err(
                    self.error(
                        offset,
                        ErrorType::MissingRequire(self.lacks(test_capability(word))->Some_0),
                    ),
                ),
                self,
            )
        } else {
            let (r, v) = self.options(test_shape(word), OptionsView::none());
            match r {
                Err(e) => (Err(e), v),
                Ok(o) => match word {
                    Word::True => (Ok(TestView::True), v),
                    Word::False => (Ok(TestView::False), v),
                    Word::Duplicate => (
                        Ok(
                            TestView::Duplicate {
                                handle: o.handle,
                                unique_id: o.unique_id,
                                seconds: o.seconds,
                                last: o.last,
                            },
                        ),
                        v,
                    ),
                    Word::Size => match o.over {
                        None => (Err(self.error(offset, ErrorType::InvalidTag)), v),
                        Some(over) => {
                            let (r2, v2) = v.number();
                            match r2 {
                                Err(e) => (Err(e), v2),
                                Ok(limit) => (Ok(TestView::Size { over, limit }), v2),
                            }
                        },
                    },
                    Word::Exists => {
                        let (r2, v2) = v.strings();
                        match r2 {
                            Err(e) => (Err(e), v2),
                            Ok(names) => (Ok(TestView::Exists { names }), v2),
                        }
                    },
                    Word::SpamTest => {
                        let (r2, v2) = v.strings();
                        match r2 {
                            Err(e) => (Err(e), v2),
                            Ok(keys) => (
                                Ok(
                                    TestView::SpamTest {
                                        percent: o.percent,
                                        how: MatchView {
                                            match_type: o.match_type,
                                            collation: o.collation,
                                            keys,
                                        },
                                    },
                                ),
                                v2,
                            ),
                        }
                    },
                    Word::VirusTest => {
                        let (r2, v2) = v.strings();
                        match r2 {
                            Err(e) => (Err(e), v2),
                            Ok(keys) => (
                                Ok(
                                    TestView::VirusTest {
                                        how: MatchView {
                                            match_type: o.match_type,
                                            collation: o.collation,
                                            keys,
                                        },
                                    },
                                ),
                                v2,
                            ),
                        }
                    },
                    Word::Environment => {
                        let (r2, v2) = v.string();
                        match r2 {
                            Err(e) => (Err(e), v2),
                            Ok(item) => {
                                let (r3, v3) = v2.strings();
                                match r3 {
                                    Err(e) => (Err(e), v3),
                                    Ok(keys) => (
                                        Ok(
                                            TestView::Environment {
                                                item,
                                                how: MatchView {
                                                    match_type: o.match_type,
                                                    collation: o.collation,
                                                    keys,
                                                },
                                            },
                                        ),
                                        v3,
                                    ),
                                }
                            },
                        }
                    },
                    _ => {
                        let (r2, v2) = v.strings();
                        match r2 {
                            Err(e) => (Err(e), v2),
                            Ok(first) => {
                                let (r3, v3) = v2.strings();
                                match r3 {
                                    Err(e) => (Err(e), v3),
                                    Ok(keys) => {
                                        let how = MatchView {
                                            match_type: o.match_type,
                                            collation: o.collation,
                                            keys,
                                        };
                                        if word == Word::Header {
                                            (Ok(TestView::Header { names: first, how }), v3)
                                        } else if word == Word::String {
                                            (Ok(TestView::String { sources: first, how }), v3)
                                        } else {
                                            match slots_of(first) {
                                                Some(slots) => (
                                                    Ok(TestView::Envelope { slots, how }),
                                                    v3,
                                                ),
                                                None => (
                                                    Err(
                                                        self.error(
                                                            offset,
                                                            ErrorType::InvalidCombination(
                                                                "unknown envelope part",
                                                            ),
                                                        ),
                                                    ),
                                                    v3,
                                                ),
                                            }
                                        }
                                    },
                                }
                            },
                        }
                    },
                },
            }
        }
    }

    /// Reads a test. `not` is taken into the tests behind it: it turns a
    /// test that is no combination into its opposite, and `anyof` and
    /// `allof` into each other. Combinations may be nested `depth` deep.
    pub open spec fn test(self, negate: bool, depth: nat) -> (
        Result<ConditionView, CompileError>,
        Parsing,
    )
        decreases depth, self.lexed.tokens.len() - self.lexed.pos, 0nat,
    {
        let (r, l) = self.lexed.unwrap_next();
        let v = self.at(l);
        match r {
            Err(e) => (Err(e), v),
            Ok((TokenView::Identifier(word), offset)) => if word == Word::Not {
                v.test(!negate, depth)
            } else if word == Word::AnyOf || word == Word::AllOf {
                if depth == 0 {
                    (Err(self.error(offset, ErrorType::NestingTooDeep)), v)
                } else {
                    let (r2, v2) = v.expect(TokenView::ParenthesisOpen, "'('");
                    match r2 {
                        Err(e) => (Err(e), v2),
                        Ok(_) => {
                            let (r3, v3) = v2.tests(negate, (depth - 1) as nat, Seq::empty());
                            match r3 {
                                Err(e) => (Err(e), v3),
                                Ok(list) => if (word == Word::AnyOf) != negate {
                                    (Ok(ConditionView::AnyOf(list)), v3)
                                } else {
                                    (Ok(ConditionView::AllOf(list)), v3)
                                },
                            }
                        },
                    }
                }
            } else {
                let (r2, v2) = v.leaf(word, offset);
                match r2 {
                    Err(e) => (Err(e), v2),
                    Ok(test) => (Ok(ConditionView::Leaf(TestExprView { test, is_not: negate })), v2),
                }
            },
            Ok((_, offset)) => (Err(self.error(offset, ErrorType::UnexpectedToken("test"))), v),
        }
    }

    /// Reads the rest of a list of tests, behind its opening parenthesis or
    /// a comma: a test, then a comma and more, or the closing parenthesis.
    ///
    /// That the tokens were read further before the list goes on makes the
    /// definition well-founded; a test that was read always leaves them so.
    pub open spec fn tests(self, negate: bool, depth: nat, found: Seq<ConditionView>) -> (
        Result<Seq<ConditionView>, CompileError>,
        Parsing,
    )
        decreases depth, self.lexed.tokens.len() - self.lexed.pos, 1nat,
    {
        let (r, v) = self.test(negate, depth);
        match r {
            Err(e) => (Err(e), v),
            Ok(c) => {
                let (r2, l2) = v.lexed.unwrap_next();
                let v2 = v.at(l2);
                match r2 {
                    Err(e) => (Err(e), v2),
                    Ok((TokenView::Comma, offset)) => if v2.beyond(self) {
                        v2.tests(negate, depth, found.push(c))
                    } else {
                        (Err(self.error(offset, ErrorType::NestingTooDeep)), v2)
                    },
                    Ok((TokenView::ParenthesisClose, _)) => (Ok(found.push(c)), v2),
                    Ok((_, offset)) => (
                        Err(self.error(offset, ErrorType::UnexpectedToken("',' or ')'"))),
                        v2,
                    ),
                }
            },
        }
    }
}

fn slot_at(i: usize) -> (r: (Envelope, &'static str))
    requires
        i < 12,
    ensures
        r.0 == slot_entry(i as int).0,
        r.1@ == slot_entry(i as int).1,
{
    match i {
        0 => (Envelope::From, "from"),
        1 => (Envelope::To, "to"),
        2 => (Envelope::OriginalRecipient, "originalrecipient"),
        3 => (Envelope::ByTimeAbsolute, "bytimeabsolute"),
        4 => (Envelope::ByTimeRelative, "bytimerelative"),
        5 => (Envelope::ByMode, "bymode"),
        6 => (Envelope::ByTrace, "bytrace"),
        7 => (Envelope::Notify, "notify"),
        8 => (Envelope::Orcpt, "orcpt"),
        9 => (Envelope::Ret, "ret"),
        10 => (Envelope::Envid, "envid"),
        _ => (Envelope::Auth, "auth"),
    }
}

/// The envelope slot of a name.
pub fn find_slot(name: &[u8]) -> (r: Option<Envelope>)
    ensures
        r == slot_from(name@, 0),
{
    let mut i: usize = 0;
    while i < 12
        invariant
            i <= 12,
            slot_from(name@, 0) == slot_from(name@, i as int),
        decreases 12 - i,
    {
        let (slot, spelling) = slot_at(i);
        if same(Collation::AsciiCaseMap, name, spelling.as_bytes()) {
            return Some(slot);
        }
        i += 1;
    }
    None
}

/// The envelope slots that a list of strings names.
fn find_slots(items: &Vec<StringItem>) -> (r: Option<Vec<Envelope>>)
    ensures
        match r {
            Some(slots) => slots_of(item_views(items@)) == Some(slots@),
            None => slots_of(item_views(items@)) is None,
        },
{
    let mut slots: Vec<Envelope> = Vec::new();
    let mut i: usize = 0;
    let ghost all = item_views(items@);
    assert(all.take(0) =~= Seq::empty());
    while i < items.len()
        invariant
            i <= items.len(),
            all == item_views(items@),
            slots_of(all.take(i as int)) == Some(slots@),
        decreases items.len() - i,
    {
        assert(all.take(i + 1).drop_last() == all.take(i as int));
        assert(all.take(i + 1).last() == items@[i as int]@);
        let found = match &items[i] {
            StringItem::Text(name) => find_slot(name.as_slice()),
            _ => None,
        };
        match found {
            Some(slot) => {
                slots.push(slot);
            },
            None => {
                proof {
                    lemma_no_slots(all, i + 1);
                }
                return None;
            },
        }
        i += 1;
    }
    assert(all.take(i as int) == all);
    Some(slots)
}

/// Where the first strings of a list name no slots, the list names none.
proof fn lemma_no_slots(items: Seq<StringItemView>, i: int)
    requires
        0 <= i <= items.len(),
        slots_of(items.take(i)) is None,
    ensures
        slots_of(items) is None,
    decreases items.len() - i,
{
    if i < items.len() {
        assert(items.take(i + 1).drop_last() == items.take(i));
        lemma_no_slots(items, i + 1);
    } else {
        assert(items.take(i) == items);
    }
}

/// What a test is when it was read, as the contracts speak of it.
pub open spec fn tested(r: Result<Test, CompileError>) -> Result<TestView, CompileError> {
    match r {
        Ok(t) => Ok(t@),
        Err(e) => Err(e),
    }
}

/// What a condition is when it was read, as the contracts speak of it.
pub open spec fn decided(r: Result<Condition, CompileError>) -> Result<ConditionView, CompileError> {
    match r {
        Ok(c) => Ok(c.view()),
        Err(e) => Err(e),
    }
}

/// What conditions are when they were read, as the contracts speak of them.
pub open spec fn decided_all(r: Result<Vec<Condition>, CompileError>) -> Result<
    Seq<ConditionView>,
    CompileError,
> {
    match r {
        Ok(cs) => Ok(condition_views(cs@)),
        Err(e) => Err(e),
    }
}

fn capability_of_test(word: Word) -> (r: Option<Capability>)
    ensures
        r == test_capability(word),
{
    match word {
        Word::String => Some(Capability::Variables),
        Word::Envelope => Some(Capability::Envelope),
        Word::Duplicate => Some(Capability::Duplicate),
        Word::SpamTest => Some(Capability::SpamTest),
        Word::VirusTest => Some(Capability::VirusTest),
        Word::Environment => Some(Capability::Environment),
        _ => None,
    }
}

fn shape_of_test(word: Word) -> (r: Shape)
    ensures
        r == test_shape(word),
{
    match word {
        Word::Header => Shape::Match,
        Word::String => Shape::StringMatch,
        Word::Envelope => Shape::Match,
        Word::VirusTest => Shape::Match,
        Word::Environment => Shape::Match,
        Word::SpamTest => Shape::SpamTest,
        Word::Size => Shape::Size,
        Word::Duplicate => Shape::Duplicate,
        _ => Shape::Plain,
    }
}

impl<'x> Parser<'x> {
    /// Reads the arguments of a test from behind its name.
    pub fn leaf(&mut self, word: Word, offset: usize) -> (r: Result<Test, CompileError>)
        requires
            old(self).wf(),
            offset <= old(self)@.lexed.src.len(),
        ensures
            final(self).wf(),
            (tested(r), final(self)@) == old(self)@.leaf(word, offset as int),
            final(self)@.follows(old(self)@),
            final(self)@.keeps(old(self)@),
    {
        if !(word == Word::True || word == Word::False || word == Word::Header || word
            == Word::String || word == Word::Envelope || word == Word::Exists || word
            == Word::Size || word == Word::Duplicate || word == Word::SpamTest || word
            == Word::VirusTest || word == Word::Environment) {
            return Err(self.tokens.error(offset, ErrorType::UnexpectedToken("test")));
        }
        match self.lacks(capability_of_test(word)) {
            Some(c) => {
                return Err(self.tokens.error(offset, ErrorType::MissingRequire(c)));
            },
            None => {},
        }
        let o = match self.options(shape_of_test(word)) {
            Err(e) => {
                return Err(e);
            },
            Ok(o) => o,
        };
        match word {
            Word::True => Ok(Test::True),
            Word::False => Ok(Test::False),
            Word::Duplicate => Ok(
                Test::Duplicate {
                    handle: o.handle,
                    unique_id: o.unique_id,
                    seconds: o.seconds,
                    last: o.last,
                },
            ),
            Word::Size => match o.over {
                None => Err(self.tokens.error(offset, ErrorType::InvalidTag)),
                Some(over) => match self.number() {
                    Err(e) => Err(e),
                    Ok(limit) => Ok(Test::Size { over, limit }),
                },
            },
            Word::Exists => match self.strings() {
                Err(e) => Err(e),
                Ok(names) => Ok(Test::Exists { names }),
            },
            Word::SpamTest => match self.strings() {
                Err(e) => Err(e),
                Ok(keys) => Ok(
                    Test::SpamTest {
                        percent: o.percent,
                        how: Match { match_type: o.match_type, collation: o.collation, keys },
                    },
                ),
            },
            Word::VirusTest => match self.strings() {
                Err(e) => Err(e),
                Ok(keys) => Ok(
                    Test::VirusTest {
                        how: Match { match_type: o.match_type, collation: o.collation, keys },
                    },
                ),
            },
            Word::Environment => {
                let item = match self.string() {
                    Err(e) => {
                        return Err(e);
                    },
                    Ok(item) => item,
                };
                match self.strings() {
                    Err(e) => Err(e),
                    Ok(keys) => Ok(
                        Test::Environment {
                            item,
                            how: Match { match_type: o.match_type, collation: o.collation, keys },
                        },
                    ),
                }
            },
            _ => {
                let first = match self.strings() {
                    Err(e) => {
                        return Err(e);
                    },
                    Ok(first) => first,
                };
                let keys = match self.strings() {
                    Err(e) => {
                        return Err(e);
                    },
                    Ok(keys) => keys,
                };
                let how = Match { match_type: o.match_type, collation: o.collation, keys };
                if word == Word::Header {
                    Ok(Test::Header { names: first, how })
                } else if word == Word::String {
                    Ok(Test::String { sources: first, how })
                } else {
                    match find_slots(&first) {
                        Some(slots) => Ok(Test::Envelope { slots, how }),
                        None => Err(
                            self.tokens.error(
                                offset,
                                ErrorType::InvalidCombination("unknown envelope part"),
                            ),
                        ),
                    }
                }
            },
        }
    }

    /// Reads a test.
    pub fn test(&mut self, negate: bool, depth: usize) -> (r: Result<Condition, CompileError>)
        requires
            old(self).wf(),
        ensures
            final(self).wf(),
            (decided(r), final(self)@) == old(self)@.test(negate, depth as nat),
            final(self)@.follows(old(self)@),
            final(self)@.keeps(old(self)@),
            r is Ok ==> final(self)@.lexed.pos > old(self)@.lexed.pos,
        decreases depth, old(self)@.lexed.tokens.len() - old(self)@.lexed.pos, 0nat,
    {
        proof {
            self.tokens.lemma_wf();
        }
        let t = match self.tokens.unwrap_next() {
            Err(e) => {
                return Err(e);
            },
            Ok(t) => t,
        };
        let word = match t.token {
            Token::Identifier(word) => word,
            _ => {
                return Err(self.tokens.error(t.offset, ErrorType::UnexpectedToken("test")));
            },
        };
        if word == Word::Not {
            self.test(!negate, depth)
        } else if word == Word::AnyOf || word == Word::AllOf {
            if depth == 0 {
                return Err(self.tokens.error(t.offset, ErrorType::NestingTooDeep));
            }
            match self.expect(Token::ParenthesisOpen, "'('") {
                Err(e) => {
                    return Err(e);
                },
                Ok(_) => {},
            }
            let list = match self.tests(negate, depth - 1) {
                Err(e) => {
                    return Err(e);
                },
                Ok(list) => list,
            };
            if (word == Word::AnyOf) != negate {
                Ok(Condition::AnyOf(list))
            } else {
                Ok(Condition::AllOf(list))
            }
        } else {
            match self.leaf(word, t.offset) {
                Err(e) => Err(e),
                Ok(test) => Ok(Condition::Leaf(TestExpr { test, is_not: negate })),
            }
        }
    }

    /// Reads the rest of a list of tests.
    pub fn tests(&mut self, negate: bool, depth: usize) -> (r: Result<Vec<Condition>, CompileError>)
        requires
            old(self).wf(),
        ensures
            final(self).wf(),
            (decided_all(r), final(self)@) == old(self)@.tests(negate, depth as nat, Seq::empty()),
            final(self)@.follows(old(self)@),
            final(self)@.keeps(old(self)@),
        decreases depth, old(self)@.lexed.tokens.len() - old(self)@.lexed.pos, 1nat,
    {
        let mut found: Vec<Condition> = Vec::new();
        loop
            invariant
                self.wf(),
                self@.follows(old(self)@),
                self@.keeps(old(self)@),
                old(self)@.tests(negate, depth as nat, Seq::empty()) == self@.tests(
                    negate,
                    depth as nat,
                    condition_views(found@),
                ),
            decreases self@.lexed.tokens.len() - self@.lexed.pos,
        {
            let ghost here = self@;
            let ghost before = condition_views(found@);
            let ghost list = found@;
            proof {
                self.tokens.lemma_wf();
            }
            let c = match self.test(negate, depth) {
                Err(e) => {
                    return Err(e);
                },
                Ok(c) => c,
            };
            found.push(c);
            assert(condition_views(found@) == before.push(c.view())) by {
                assert(found@.drop_last() == list);
            }
            proof {
                self.tokens.lemma_wf();
            }
            let t = match self.tokens.unwrap_next() {
                Err(e) => {
                    return Err(e);
                },
                Ok(t) => t,
            };
            proof {
                self.tokens.lemma_wf();
            }
            match t.token {
                Token::Comma => {
                    assert(self@.beyond(here));
                },
                Token::ParenthesisClose => {
                    return Ok(found);
                },
                _ => {
                    return Err(
                        self.tokens.error(t.offset, ErrorType::UnexpectedToken("',' or ')'")),
                    );
                },
            }
        }
    }
}

} // verus!
