//! How the text of a string literal becomes a string of the program: where
//! variables are in use, the references to them are found and resolved.

use vstd::prelude::*;
use crate::compiler::grammar::instruction::Collation;
use crate::compiler::lexer::tokenizer::{
    digits_end,
    number_of,
    parse_number,
    scan_digits,
    scan_word,
    word_end,
};
use crate::runtime::condition::{same, same_text};
use crate::runtime::envelope::copy_range;
use crate::runtime::machine::MAX_MATCH_VARIABLES;
use crate::runtime::string::{piece_views, texts, Piece, PieceView, StringItem, StringItemView};

verus! {

/// The names that strings may refer to at a place of a script.
#[derive(Debug)]
pub struct Scope {
    /// Whether variables are in use at all.
    pub variables: bool,
    /// The names of the local variables; the place of a name is its slot.
    pub locals: Vec<Vec<u8>>,
    /// The names of the global variables.
    pub globals: Vec<Vec<u8>>,
}

pub ghost struct ScopeView {
    pub variables: bool,
    pub locals: Seq<Seq<u8>>,
    pub globals: Seq<Seq<u8>>,
}

impl View for Scope {
    type V = ScopeView;

    open spec fn view(&self) -> ScopeView {
        ScopeView {
            variables: self.variables,
            locals: texts(self.locals@),
            globals: texts(self.globals@),
        }
    }
}

/// The first place of a list, from `i` on, that holds a name, whatever the
/// case of its letters.
pub open spec fn index_from(names: Seq<Seq<u8>>, name: Seq<u8>, i: int) -> Option<int>
    decreases names.len() - i,
{
    if i < 0 || i >= names.len() {
        None
    } else if same_text(Collation::AsciiCaseMap, names[i], name) {
        Some(i)
    } else {
        index_from(names, name, i + 1)
    }
}

/// The first place of a list that holds a name.
pub open spec fn index_of(names: Seq<Seq<u8>>, name: Seq<u8>) -> Option<int> {
    index_from(names, name, 0)
}

/// Whether a name is a number: digits and nothing else.
pub open spec fn is_number(name: Seq<u8>) -> bool {
    name.len() > 0 && digits_end(name, 0) == name.len()
}

/// What a reference to a name stands for: a match variable for a number, else
/// the local variable of that name, else the global one. A name that is
/// neither, or a number beyond the match variables, stands for no text.
pub open spec fn piece_of(name: Seq<u8>, scope: ScopeView) -> PieceView {
    if is_number(name) {
        match number_of(name) {
            Some(n) => if n <= MAX_MATCH_VARIABLES {
                PieceView::Match(n as usize)
            } else {
                PieceView::Text(Seq::empty())
            },
            None => PieceView::Text(Seq::empty()),
        }
    } else {
        match index_of(scope.locals, name) {
            Some(slot) => PieceView::Local(slot as usize),
            None => match index_of(scope.globals, name) {
                Some(i) => PieceView::Global(scope.globals[i]),
                None => PieceView::Text(Seq::empty()),
            },
        }
    }
}

/// The place behind the variable reference that starts at `i`, if one does:
/// `${`, a name of word bytes, and `}`.
pub open spec fn ref_end(text: Seq<u8>, i: int) -> Option<int> {
    if 0 <= i && i + 1 < text.len() && text[i] == 0x24 && text[i + 1] == 0x7b {
        let e = word_end(text, i + 2);
        if i + 2 < e < text.len() && text[e] == 0x7d {
            Some(e + 1)
        } else {
            None
        }
    } else {
        None
    }
}

/// The pieces with the literal text between two places added, if there is
/// any.
pub open spec fn with_literal(text: Seq<u8>, start: int, i: int, acc: Seq<PieceView>) -> Seq<
    PieceView,
> {
    if start < i {
        acc.push(PieceView::Text(text.subrange(start, i)))
    } else {
        acc
    }
}

/// The pieces of a text from `i` on, behind those that were found before;
/// the literal text that is not yet among them starts at `start`.
pub open spec fn template(
    text: Seq<u8>,
    scope: ScopeView,
    i: int,
    start: int,
    acc: Seq<PieceView>,
) -> Seq<PieceView>
    decreases text.len() - i,
{
    if i < 0 || i >= text.len() {
        with_literal(text, start, text.len() as int, acc)
    } else {
        match ref_end(text, i) {
            Some(e) => template(
                text,
                scope,
                e,
                e,
                with_literal(text, start, i, acc).push(piece_of(text.subrange(i + 2, e - 1), scope)),
            ),
            None => template(text, scope, i + 1, start, acc),
        }
    }
}

/// The string that a literal is. Where variables are not in use it is the
/// text as it stands. Otherwise the references in it are resolved, in one
/// pass from left to right; a text without any stays a literal.
pub open spec fn item_of(text: Seq<u8>, scope: ScopeView) -> StringItemView {
    if !scope.variables {
        StringItemView::Text(text)
    } else {
        let pieces = template(text, scope, 0, 0, Seq::empty());
        if pieces.len() == 0 {
            StringItemView::Text(text)
        } else if pieces.len() == 1 && pieces[0] is Text {
            StringItemView::Text(pieces[0]->Text_0)
        } else {
            StringItemView::Template(pieces)
        }
    }
}

/// Finds a name in a list.
pub fn find_name(names: &Vec<Vec<u8>>, name: &[u8]) -> (r: Option<usize>)
    ensures
        match r {
            Some(i) => index_of(texts(names@), name@) == Some(i as int) && i < names@.len(),
            None => index_of(texts(names@), name@) is None,
        },
{
    let mut i: usize = 0;
    while i < names.len()
        invariant
            i <= names.len(),
            index_of(texts(names@), name@) == index_from(texts(names@), name@, i as int),
        decreases names.len() - i,
    {
        if same(Collation::AsciiCaseMap, names[i].as_slice(), name) {
            return Some(i);
        }
        i += 1;
    }
    None
}

impl Scope {
    /// Resolves a reference to a name.
    pub fn resolve(&self, name: &[u8]) -> (p: Piece)
        ensures
            p@ == piece_of(name@, self@),
    {
        if name.len() > 0 && scan_digits(name, 0) == name.len() {
            match parse_number(name) {
                Some(n) => if n <= MAX_MATCH_VARIABLES as u64 {
                    Piece::Match(n as usize)
                } else {
                    Piece::Text(Vec::new())
                },
                None => Piece::Text(Vec::new()),
            }
        } else {
            match find_name(&self.locals, name) {
                Some(slot) => Piece::Local(slot),
                None => match find_name(&self.globals, name) {
                    Some(i) => Piece::Global(self.globals[i].clone()),
                    None => Piece::Text(Vec::new()),
                },
            }
        }
    }

    /// Makes the string of a literal.
    pub fn item(&self, text: Vec<u8>) -> (r: StringItem)
        ensures
            r@ == item_of(text@, self@),
    {
        if !self.variables {
            return StringItem::Text(text);
        }
        let mut pieces: Vec<Piece> = Vec::new();
        let mut start: usize = 0;
        let mut i: usize = 0;
        assert(piece_views(pieces@) =~= Seq::empty());
        while i < text.len()
            invariant
                start <= i <= text.len(),
                template(text@, self@, 0, 0, Seq::empty()) == template(
                    text@,
                    self@,
                    i as int,
                    start as int,
                    piece_views(pieces@),
                ),
            decreases text.len() - i,
        {
            let mut found: Option<usize> = None;
            if text[i] == 0x24 && i + 1 < text.len() && text[i + 1] == 0x7b {
                let e = scan_word(text.as_slice(), i + 2);
                if i + 2 < e && e < text.len() && text[e] == 0x7d {
                    found = Some(e);
                }
            }
            match found {
                Some(e) => {
                    let ghost before = piece_views(pieces@);
                    if start < i {
                        pieces.push(Piece::Text(copy_range(text.as_slice(), start, i)));
                    }
                    assert(piece_views(pieces@) =~= with_literal(
                        text@,
                        start as int,
                        i as int,
                        before,
                    ));
                    let ghost middle = piece_views(pieces@);
                    let name = copy_range(text.as_slice(), i + 2, e);
                    let piece = self.resolve(name.as_slice());
                    pieces.push(piece);
                    assert(piece_views(pieces@) =~= middle.push(piece@));
                    i = e + 1;
                    start = i;
                },
                None => {
                    i += 1;
                },
            }
        }
        let ghost before = piece_views(pieces@);
        if start < text.len() {
            pieces.push(Piece::Text(copy_range(text.as_slice(), start, text.len())));
        }
        assert(piece_views(pieces@) =~= with_literal(
            text@,
            start as int,
            text@.len() as int,
            before,
        ));
        if pieces.len() == 0 {
            StringItem::Text(text)
        } else if pieces.len() == 1 {
            match pieces.pop().unwrap() {
                Piece::Text(only) => StringItem::Text(only),
                other => {
                    let mut pieces = pieces;
                    pieces.push(other);
                    assert(piece_views(pieces@) =~= template(text@, self@, 0, 0, Seq::empty()));
                    StringItem::Template(pieces)
                },
            }
        } else {
            StringItem::Template(pieces)
        }
    }
}

} // verus!
