//! Strings of a script: literal text, or text with references to variables
//! that are expanded when the string is used.

use vstd::prelude::*;
use crate::runtime::maps::{global_entries, globals_get};

verus! {

/// One piece of a string with variable references.
#[derive(Debug, Clone, PartialEq, Eq)]
pub enum Piece {
    /// Literal text.
    Text(Vec<u8>),
    /// The local variable in a slot.
    Local(usize),
    /// A match variable, by its number.
    Match(usize),
    /// The global variable of a name.
    Global(Vec<u8>),
}

/// A string of a script.
#[derive(Debug, Clone, PartialEq, Eq)]
pub enum StringItem {
    /// A literal byte string.
    Text(Vec<u8>),
    /// Pieces that are expanded and joined, left to right.
    Template(Vec<Piece>),
}

pub ghost enum PieceView {
    Text(Seq<u8>),
    Local(usize),
    Match(usize),
    Global(Seq<u8>),
}

pub ghost enum StringItemView {
    Text(Seq<u8>),
    Template(Seq<PieceView>),
}

impl View for Piece {
    type V = PieceView;

    open spec fn view(&self) -> PieceView {
        match *self {
            Piece::Text(text) => PieceView::Text(text@),
            Piece::Local(slot) => PieceView::Local(slot),
            Piece::Match(number) => PieceView::Match(number),
            Piece::Global(name) => PieceView::Global(name@),
        }
    }
}

/// The pieces of a list as the contracts speak of them.
pub open spec fn piece_views(pieces: Seq<Piece>) -> Seq<PieceView> {
    Seq::new(pieces.len(), |i: int| pieces[i]@)
}

impl View for StringItem {
    type V = StringItemView;

    open spec fn view(&self) -> StringItemView {
        match *self {
            StringItem::Text(text) => StringItemView::Text(text@),
            StringItem::Template(pieces) => StringItemView::Template(piece_views(pieces@)),
        }
    }
}

/// The strings of a list as the contracts speak of them.
pub open spec fn item_views(items: Seq<StringItem>) -> Seq<StringItemView> {
    Seq::new(items.len(), |i: int| items[i]@)
}

/// A string that may be absent, as the contracts speak of it.
pub open spec fn item_view(item: Option<StringItem>) -> Option<StringItemView> {
    match item {
        Some(s) => Some(s@),
        None => None,
    }
}

/// The values of the variables that a string may refer to.
pub ghost struct Variables {
    pub local: Seq<Seq<u8>>,
    pub matched: Seq<Seq<u8>>,
    pub global: Map<Seq<u8>, Seq<u8>>,
}

/// A name with its ASCII capitals made small: the names of global variables
/// are kept and looked up so, whatever the case they were written in.
pub open spec fn lowered(name: Seq<u8>) -> Seq<u8> {
    Seq::new(
        name.len(),
        |i: int|
            if 0x41 <= name[i] <= 0x5a {
                (name[i] + 0x20) as u8
            } else {
                name[i]
            },
    )
}

/// Makes the ASCII capitals of a name small.
pub fn lower(name: &[u8]) -> (r: Vec<u8>)
    ensures
        r@ == lowered(name@),
{
    let mut out: Vec<u8> = Vec::new();
    let mut i: usize = 0;
    while i < name.len()
        invariant
            i <= name.len(),
            out@.len() == i,
            forall|j: int| 0 <= j < i ==> out@[j] == lowered(name@)[j],
        decreases name.len() - i,
    {
        let b = name[i];
        out.push(
            if 0x41 <= b && b <= 0x5a {
                b + 0x20
            } else {
                b
            },
        );
        i += 1;
    }
    assert(out@ =~= lowered(name@));
    out
}

/// The byte strings that a list of buffers holds.
pub open spec fn texts(v: Seq<Vec<u8>>) -> Seq<Seq<u8>> {
    Seq::new(v.len(), |i: int| v[i]@)
}

/// The variables as the interpreter stores them.
pub open spec fn scope(
    local: Vec<Vec<u8>>,
    matched: Vec<Vec<u8>>,
    global: ahash::AHashMap<Vec<u8>, Vec<u8>>,
) -> Variables {
    Variables { local: texts(local@), matched: texts(matched@), global: global_entries(global) }
}

impl Piece {
    /// The text that the piece stands for. A variable that does not exist
    /// stands for the empty text. A global variable is found whatever the
    /// case of the letters of its name.
    pub open spec fn expand(self, vars: Variables) -> Seq<u8> {
        match self {
            Piece::Text(text) => text@,
            Piece::Local(slot) => if slot < vars.local.len() {
                vars.local[slot as int]
            } else {
                Seq::empty()
            },
            Piece::Match(number) => if number < vars.matched.len() {
                vars.matched[number as int]
            } else {
                Seq::empty()
            },
            Piece::Global(name) => if vars.global.dom().contains(lowered(name@)) {
                vars.global[lowered(name@)]
            } else {
                Seq::empty()
            },
        }
    }
}

/// The expansions of the pieces, joined in order.
pub open spec fn expand_all(pieces: Seq<Piece>, vars: Variables) -> Seq<u8>
    decreases pieces.len(),
{
    if pieces.len() == 0 {
        Seq::empty()
    } else {
        expand_all(pieces.drop_last(), vars) + pieces.last().expand(vars)
    }
}

/// The values of a list of strings.
pub open spec fn values(items: Seq<StringItem>, vars: Variables) -> Seq<Seq<u8>> {
    Seq::new(items.len(), |i: int| items[i].value(vars))
}

/// The value of a string that may be absent.
pub open spec fn value_of(item: Option<StringItem>, vars: Variables) -> Option<Seq<u8>> {
    match item {
        Some(s) => Some(s.value(vars)),
        None => None,
    }
}

/// The byte string that a buffer which may be absent holds.
pub open spec fn text_of(item: Option<Vec<u8>>) -> Option<Seq<u8>> {
    match item {
        Some(s) => Some(s@),
        None => None,
    }
}

impl StringItem {
    /// The value of the string under the given variables.
    pub open spec fn value(self, vars: Variables) -> Seq<u8> {
        match self {
            StringItem::Text(text) => text@,
            StringItem::Template(pieces) => expand_all(pieces@, vars),
        }
    }

    /// Expands the string in one pass, left to right.
    pub fn eval(
        &self,
        local: &Vec<Vec<u8>>,
        matched: &Vec<Vec<u8>>,
        global: &ahash::AHashMap<Vec<u8>, Vec<u8>>,
    ) -> (r: Vec<u8>)
        ensures
            r@ == self.value(scope(*local, *matched, *global)),
    {
        match self {
            StringItem::Text(text) => text.clone(),
            StringItem::Template(pieces) => {
                let ghost vars = scope(*local, *matched, *global);
                let mut out: Vec<u8> = Vec::new();
                let mut i: usize = 0;
                while i < pieces.len()
                    invariant
                        i <= pieces.len(),
                        vars == scope(*local, *matched, *global),
                        out@ == expand_all(pieces@.take(i as int), vars),
                    decreases pieces.len() - i,
                {
                    assert(pieces@.take(i + 1).drop_last() == pieces@.take(i as int));
                    match &pieces[i] {
                        Piece::Text(text) => {
                            out.extend_from_slice(text.as_slice());
                        },
                        Piece::Local(slot) => {
                            if *slot < local.len() {
                                out.extend_from_slice(local[*slot].as_slice());
                            }
                        },
                        Piece::Match(number) => {
                            if *number < matched.len() {
                                out.extend_from_slice(matched[*number].as_slice());
                            }
                        },
                        Piece::Global(name) => {
                            match globals_get(global, lower(name.as_slice()).as_slice()) {
                                Some(value) => {
                                    out.extend_from_slice(value.as_slice());
                                },
                                None => {},
                            }
                        },
                    }
                    assert(out@ == expand_all(pieces@.take(i as int), vars) + pieces@[i as int].expand(
                        vars,
                    ));
                    i += 1;
                }
                assert(pieces@.take(i as int) == pieces@);
                out
            },
        }
    }
}

/// Expands each string of a list.
pub fn eval_list(
    items: &Vec<StringItem>,
    local: &Vec<Vec<u8>>,
    matched: &Vec<Vec<u8>>,
    global: &ahash::AHashMap<Vec<u8>, Vec<u8>>,
) -> (r: Vec<Vec<u8>>)
    ensures
        texts(r@) == values(items@, scope(*local, *matched, *global)),
{
    let mut out: Vec<Vec<u8>> = Vec::new();
    let mut i: usize = 0;
    while i < items.len()
        invariant
            i <= items.len(),
            out@.len() == i,
            forall|j: int|
                0 <= j < i ==> (#[trigger] out@[j])@ == items@[j].value(
                    scope(*local, *matched, *global),
                ),
        decreases items.len() - i,
    {
        let value = items[i].eval(local, matched, global);
        out.push(value);
        i += 1;
    }
    assert(texts(out@) =~= values(items@, scope(*local, *matched, *global)));
    out
}

/// Expands a string that may be absent.
pub fn eval_option(
    item: &Option<StringItem>,
    local: &Vec<Vec<u8>>,
    matched: &Vec<Vec<u8>>,
    global: &ahash::AHashMap<Vec<u8>, Vec<u8>>,
) -> (r: Option<Vec<u8>>)
    ensures
        text_of(r) == value_of(*item, scope(*local, *matched, *global)),
{
    match item {
        Some(s) => Some(s.eval(local, matched, global)),
        None => None,
    }
}

} // verus!
