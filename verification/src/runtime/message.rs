//! The message that a script is run against: for each MIME part its header
//! fields, its text and the parts nested in it. The host parses the raw
//! message and hands over what it found.

use vstd::prelude::*;

verus! {

/// A MIME part as the contracts speak of it.
pub ghost struct PartView {
    /// The header fields, as name and raw value.
    pub headers: Seq<(Seq<u8>, Seq<u8>)>,
    /// The ids of the parts nested in this one.
    pub nested: Seq<usize>,
    /// The text of the body; empty where the body is no text.
    pub text: Seq<u8>,
}

/// A message as the contracts speak of it.
pub ghost struct MailView {
    pub parts: Seq<PartView>,
    pub size: usize,
}

impl MailView {
    /// The header fields of a part; none for an id that names no part.
    pub open spec fn headers_of(self, part: usize) -> Seq<(Seq<u8>, Seq<u8>)> {
        if part < self.parts.len() {
            self.parts[part as int].headers
        } else {
            Seq::empty()
        }
    }

    /// The ids of the parts nested in a part; none for an id that names no
    /// part.
    pub open spec fn nested_in(self, part: usize) -> Seq<usize> {
        if part < self.parts.len() {
            self.parts[part as int].nested
        } else {
            Seq::empty()
        }
    }

    /// The text of a part; none for an id that names no part.
    pub open spec fn text_of(self, part: usize) -> Seq<u8> {
        if part < self.parts.len() {
            self.parts[part as int].text
        } else {
            Seq::empty()
        }
    }
}

/// A header field.
#[derive(Debug, Clone, PartialEq, Eq)]
pub struct Header {
    pub name: Vec<u8>,
    pub value: Vec<u8>,
}

/// A MIME part.
#[derive(Debug, Clone, PartialEq, Eq)]
pub struct Part {
    pub headers: Vec<Header>,
    pub nested: Vec<usize>,
    pub text: Vec<u8>,
}

/// A message: its MIME parts, the first of which is the message itself, and
/// the size of its raw text.
#[derive(Debug, Clone, PartialEq, Eq)]
pub struct Mail {
    pub parts: Vec<Part>,
    pub size: usize,
}

/// The header fields as pairs of name and value.
pub open spec fn fields_of(headers: Seq<Header>) -> Seq<(Seq<u8>, Seq<u8>)> {
    Seq::new(headers.len(), |i: int| (headers[i].name@, headers[i].value@))
}

impl View for Part {
    type V = PartView;

    open spec fn view(&self) -> PartView {
        PartView { headers: fields_of(self.headers@), nested: self.nested@, text: self.text@ }
    }
}

impl View for Mail {
    type V = MailView;

    open spec fn view(&self) -> MailView {
        MailView { parts: Seq::new(self.parts@.len(), |i: int| self.parts@[i]@), size: self.size }
    }
}

impl Mail {
    /// The nested part ids of a part, copied out.
    pub fn nested_ids(&self, part: usize) -> (ids: Vec<usize>)
        ensures
            ids@ == self@.nested_in(part),
    {
        if part < self.parts.len() {
            self.parts[part].nested.clone()
        } else {
            Vec::new()
        }
    }

    /// The text of a part, copied out.
    pub fn text(&self, part: usize) -> (text: Vec<u8>)
        ensures
            text@ == self@.text_of(part),
    {
        if part < self.parts.len() {
            self.parts[part].text.clone()
        } else {
            Vec::new()
        }
    }
}

} // verus!
