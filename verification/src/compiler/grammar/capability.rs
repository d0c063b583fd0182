//! Capabilities: the named language extensions that a script declares with
//! `require` before it uses them.

use vstd::prelude::*;
use vstd::string::*;
use vstd::utf8::*;
use crate::polyfill::{bytes_eq, lemma_prefix_and_rest, string_from_utf8_lossy, strip_prefix, text_of};

verus! {

/// A comparator that a script may declare.
#[derive(Debug)]
pub enum Comparator {
    Elbonia,
    Octet,
    AsciiCaseMap,
    AsciiNumeric,
    Other(String),
}

/// A language extension.
#[derive(Debug)]
pub enum Capability {
    Envelope,
    EnvelopeDsn,
    EnvelopeDeliverBy,
    FileInto,
    EncodedCharacter,
    Comparator(Comparator),
    Other(String),
    Body,
    Convert,
    Copy,
    Relational,
    Date,
    Index,
    Duplicate,
    Variables,
    EditHeader,
    ForEveryPart,
    Mime,
    Replace,
    Enclose,
    ExtractText,
    Enotify,
    RedirectDsn,
    RedirectDeliverBy,
    Environment,
    Reject,
    Ereject,
    ExtLists,
    SubAddress,
    Vacation,
    VacationSeconds,
    Fcc,
    Mailbox,
    MailboxId,
    MboxMetadata,
    ServerMetadata,
    SpecialUse,
    Imap4Flags,
    Ihave,
    ImapSieve,
    Include,
    Regex,
    SpamTest,
    SpamTestPlus,
    VirusTest,
}

impl Comparator {
    /// Equality of comparators: the same variant, and for an unregistered
    /// one the same name.
    pub open spec fn same(self, other: Comparator) -> bool {
        match (self, other) {
            (Comparator::Other(a), Comparator::Other(b)) => a@ == b@,
            _ => self == other,
        }
    }
}

impl Clone for Comparator {
    fn clone(&self) -> (r: Comparator)
        ensures
            r.same(*self),
            r.same(*self) ==> Capability::Comparator(r).literal() == Capability::Comparator(
                *self,
            ).literal(),
    {
        match self {
            Comparator::Elbonia => Comparator::Elbonia,
            Comparator::Octet => Comparator::Octet,
            Comparator::AsciiCaseMap => Comparator::AsciiCaseMap,
            Comparator::AsciiNumeric => Comparator::AsciiNumeric,
            Comparator::Other(name) => Comparator::Other(name.clone()),
        }
    }
}

impl PartialEq for Comparator {
    fn eq(&self, other: &Comparator) -> (r: bool) {
        match (self, other) {
            (Comparator::Elbonia, Comparator::Elbonia) => true,
            (Comparator::Octet, Comparator::Octet) => true,
            (Comparator::AsciiCaseMap, Comparator::AsciiCaseMap) => true,
            (Comparator::AsciiNumeric, Comparator::AsciiNumeric) => true,
            (Comparator::Other(a), Comparator::Other(b)) => *a == *b,
            _ => false,
        }
    }
}

impl vstd::std_specs::cmp::PartialEqSpecImpl for Comparator {
    open spec fn obeys_eq_spec() -> bool {
        true
    }

    open spec fn eq_spec(&self, other: &Comparator) -> bool {
        self.same(*other)
    }
}

impl Eq for Comparator {}

impl Capability {
    /// The literal that names the capability in a script.
    pub open spec fn literal(self) -> Seq<char> {
        match self {
            Capability::Envelope => "envelope"@,
            Capability::EnvelopeDsn => "envelope-dsn"@,
            Capability::EnvelopeDeliverBy => "envelope-deliverby"@,
            Capability::FileInto => "fileinto"@,
            Capability::EncodedCharacter => "encoded-character"@,
            Capability::Body => "body"@,
            Capability::Convert => "convert"@,
            Capability::Copy => "copy"@,
            Capability::Relational => "relational"@,
            Capability::Date => "date"@,
            Capability::Index => "index"@,
            Capability::Duplicate => "duplicate"@,
            Capability::Variables => "variables"@,
            Capability::EditHeader => "editheader"@,
            Capability::ForEveryPart => "foreverypart"@,
            Capability::Mime => "mime"@,
            Capability::Replace => "replace"@,
            Capability::Enclose => "enclose"@,
            Capability::ExtractText => "extracttext"@,
            Capability::Enotify => "enotify"@,
            Capability::RedirectDsn => "redirect-dsn"@,
            Capability::RedirectDeliverBy => "redirect-deliverby"@,
            Capability::Environment => "environment"@,
            Capability::Reject => "reject"@,
            Capability::Ereject => "ereject"@,
            Capability::ExtLists => "extlists"@,
            Capability::SubAddress => "subaddress"@,
            Capability::Vacation => "vacation"@,
            Capability::VacationSeconds => "vacation-seconds"@,
            Capability::Fcc => "fcc"@,
            Capability::Mailbox => "mailbox"@,
            Capability::MailboxId => "mailboxid"@,
            Capability::MboxMetadata => "mboxmetadata"@,
            Capability::ServerMetadata => "servermetadata"@,
            Capability::SpecialUse => "special-use"@,
            Capability::Imap4Flags => "imap4flags"@,
            Capability::Ihave => "ihave"@,
            Capability::ImapSieve => "imapsieve"@,
            Capability::Include => "include"@,
            Capability::Regex => "regex"@,
            Capability::SpamTest => "spamtest"@,
            Capability::SpamTestPlus => "spamtestplus"@,
            Capability::VirusTest => "virustest"@,
            Capability::Comparator(Comparator::Elbonia) => "comparator-elbonia"@,
            Capability::Comparator(Comparator::Octet) => "comparator-i;octet"@,
            Capability::Comparator(Comparator::AsciiCaseMap) => "comparator-i;ascii-casemap"@,
            Capability::Comparator(Comparator::AsciiNumeric) => "comparator-i;ascii-numeric"@,
            Capability::Comparator(Comparator::Other(name)) => "comparator-"@ + name@,
            Capability::Other(name) => name@,
        }
    }

    /// Whether the capability is one of the registered extensions, as opposed
    /// to a name that the registry does not know.
    pub open spec fn is_registered(self) -> bool {
        match self {
            Capability::Other(_) => false,
            Capability::Comparator(Comparator::Other(_)) => false,
            _ => true,
        }
    }

    /// Equality of capabilities: the same variant, and for an unregistered
    /// one the same name.
    pub open spec fn same(self, other: Capability) -> bool {
        match (self, other) {
            (Capability::Other(a), Capability::Other(b)) => a@ == b@,
            (Capability::Comparator(a), Capability::Comparator(b)) => a.same(b),
            _ => self == other,
        }
    }

    /// Whether some registered capability is written as `bytes`.
    pub open spec fn registered_literal(bytes: Seq<u8>) -> bool {
        exists|k: Capability| k.is_registered() && bytes == encode_utf8(#[trigger] k.literal())
    }

    /// The capability that `bytes` name: the registered one that is written
    /// so; else the comparator whose name stands behind `comparator-`; else
    /// the capability of that name, which the registry does not know.
    pub open spec fn view_of(bytes: Seq<u8>) -> CapabilityView {
        match Capability::registered_of(bytes) {
            Some(c) => CapabilityView::Known(c),
            None => if "comparator-"@.is_prefix_of(text_of(bytes)) {
                CapabilityView::Comparator(text_of(bytes).skip("comparator-"@.len() as int))
            } else {
                CapabilityView::Other(text_of(bytes))
            },
        }
    }

    /// What `parse` makes of `bytes`: the capability `c` is written as the
    /// text of `bytes`; it is a registered one exactly when the bytes are a
    /// registered literal, and then the one that the registry holds for
    /// them; and a name outside the registry is a comparator exactly when it
    /// starts with `comparator-`.
    pub open spec fn parses_to(bytes: Seq<u8>, c: Capability) -> bool {
        &&& c.literal() == text_of(bytes)
        &&& c.is_registered() <==> Capability::registered_literal(bytes)
        &&& c.is_registered() ==> Capability::registered_of(bytes) == Some(c)
        &&& !c.is_registered() ==> Capability::registered_of(bytes) is None
        &&& !c.is_registered() ==> (c is Comparator <==> "comparator-"@.is_prefix_of(
            text_of(bytes),
        ))
    }

    /// The place of a registered capability in the registry; the size of the
    /// registry for a name outside it.
    pub open spec fn ordinal(self) -> int {
        match self {
            Capability::Envelope => 0,
            Capability::EnvelopeDsn => 1,
            Capability::EnvelopeDeliverBy => 2,
            Capability::FileInto => 3,
            Capability::EncodedCharacter => 4,
            Capability::Body => 5,
            Capability::Convert => 6,
            Capability::Copy => 7,
            Capability::Relational => 8,
            Capability::Date => 9,
            Capability::Index => 10,
            Capability::Duplicate => 11,
            Capability::Variables => 12,
            Capability::EditHeader => 13,
            Capability::ForEveryPart => 14,
            Capability::Mime => 15,
            Capability::Replace => 16,
            Capability::Enclose => 17,
            Capability::ExtractText => 18,
            Capability::Enotify => 19,
            Capability::RedirectDsn => 20,
            Capability::RedirectDeliverBy => 21,
            Capability::Environment => 22,
            Capability::Reject => 23,
            Capability::Ereject => 24,
            Capability::ExtLists => 25,
            Capability::SubAddress => 26,
            Capability::Vacation => 27,
            Capability::VacationSeconds => 28,
            Capability::Fcc => 29,
            Capability::Mailbox => 30,
            Capability::MailboxId => 31,
            Capability::MboxMetadata => 32,
            Capability::ServerMetadata => 33,
            Capability::SpecialUse => 34,
            Capability::Imap4Flags => 35,
            Capability::Ihave => 36,
            Capability::ImapSieve => 37,
            Capability::Include => 38,
            Capability::Regex => 39,
            Capability::SpamTest => 40,
            Capability::SpamTestPlus => 41,
            Capability::VirusTest => 42,
            Capability::Comparator(Comparator::Elbonia) => 43,
            Capability::Comparator(Comparator::Octet) => 44,
            Capability::Comparator(Comparator::AsciiCaseMap) => 45,
            Capability::Comparator(Comparator::AsciiNumeric) => 46,
            Capability::Comparator(Comparator::Other(_)) => 47,
            Capability::Other(_) => 47,
        }
    }

    /// The registered capability at a place of the registry.
    pub open spec fn at(i: int) -> Capability {
        if i == 0 {
            Capability::Envelope
        } else if i == 1 {
            Capability::EnvelopeDsn
        } else if i == 2 {
            Capability::EnvelopeDeliverBy
        } else if i == 3 {
            Capability::FileInto
        } else if i == 4 {
            Capability::EncodedCharacter
        } else if i == 5 {
            Capability::Body
        } else if i == 6 {
            Capability::Convert
        } else if i == 7 {
            Capability::Copy
        } else if i == 8 {
            Capability::Relational
        } else if i == 9 {
            Capability::Date
        } else if i == 10 {
            Capability::Index
        } else if i == 11 {
            Capability::Duplicate
        } else if i == 12 {
            Capability::Variables
        } else if i == 13 {
            Capability::EditHeader
        } else if i == 14 {
            Capability::ForEveryPart
        } else if i == 15 {
            Capability::Mime
        } else if i == 16 {
            Capability::Replace
        } else if i == 17 {
            Capability::Enclose
        } else if i == 18 {
            Capability::ExtractText
        } else if i == 19 {
            Capability::Enotify
        } else if i == 20 {
            Capability::RedirectDsn
        } else if i == 21 {
            Capability::RedirectDeliverBy
        } else if i == 22 {
            Capability::Environment
        } else if i == 23 {
            Capability::Reject
        } else if i == 24 {
            Capability::Ereject
        } else if i == 25 {
            Capability::ExtLists
        } else if i == 26 {
            Capability::SubAddress
        } else if i == 27 {
            Capability::Vacation
        } else if i == 28 {
            Capability::VacationSeconds
        } else if i == 29 {
            Capability::Fcc
        } else if i == 30 {
            Capability::Mailbox
        } else if i == 31 {
            Capability::MailboxId
        } else if i == 32 {
            Capability::MboxMetadata
        } else if i == 33 {
            Capability::ServerMetadata
        } else if i == 34 {
            Capability::SpecialUse
        } else if i == 35 {
            Capability::Imap4Flags
        } else if i == 36 {
            Capability::Ihave
        } else if i == 37 {
            Capability::ImapSieve
        } else if i == 38 {
            Capability::Include
        } else if i == 39 {
            Capability::Regex
        } else if i == 40 {
            Capability::SpamTest
        } else if i == 41 {
            Capability::SpamTestPlus
        } else if i == 42 {
            Capability::VirusTest
        } else if i == 43 {
            Capability::Comparator(Comparator::Elbonia)
        } else if i == 44 {
            Capability::Comparator(Comparator::Octet)
        } else if i == 45 {
            Capability::Comparator(Comparator::AsciiCaseMap)
        } else {
            Capability::Comparator(Comparator::AsciiNumeric)
        }
    }

    /// The first registered capability, from a place of the registry on,
    /// that is written as `bytes`.
    pub open spec fn registered_from(bytes: Seq<u8>, i: int) -> Option<Capability>
        decreases 47 - i,
    {
        if i < 0 || i >= 47 {
            None
        } else if bytes == encode_utf8(Capability::at(i).literal()) {
            Some(Capability::at(i))
        } else {
            Capability::registered_from(bytes, i + 1)
        }
    }

    /// The registered capability that is written as `bytes`, if there is
    /// one.
    pub open spec fn registered_of(bytes: Seq<u8>) -> Option<Capability> {
        Capability::registered_from(bytes, 0)
    }

    /// The registered capability at a place of the registry.
    fn registered(i: usize) -> (c: Capability)
        requires
            i < 47,
        ensures
            c.is_registered(),
            c.ordinal() == i,
            c == Capability::at(i as int),
    {
        match i {
            0 => Capability::Envelope,
            1 => Capability::EnvelopeDsn,
            2 => Capability::EnvelopeDeliverBy,
            3 => Capability::FileInto,
            4 => Capability::EncodedCharacter,
            5 => Capability::Body,
            6 => Capability::Convert,
            7 => Capability::Copy,
            8 => Capability::Relational,
            9 => Capability::Date,
            10 => Capability::Index,
            11 => Capability::Duplicate,
            12 => Capability::Variables,
            13 => Capability::EditHeader,
            14 => Capability::ForEveryPart,
            15 => Capability::Mime,
            16 => Capability::Replace,
            17 => Capability::Enclose,
            18 => Capability::ExtractText,
            19 => Capability::Enotify,
            20 => Capability::RedirectDsn,
            21 => Capability::RedirectDeliverBy,
            22 => Capability::Environment,
            23 => Capability::Reject,
            24 => Capability::Ereject,
            25 => Capability::ExtLists,
            26 => Capability::SubAddress,
            27 => Capability::Vacation,
            28 => Capability::VacationSeconds,
            29 => Capability::Fcc,
            30 => Capability::Mailbox,
            31 => Capability::MailboxId,
            32 => Capability::MboxMetadata,
            33 => Capability::ServerMetadata,
            34 => Capability::SpecialUse,
            35 => Capability::Imap4Flags,
            36 => Capability::Ihave,
            37 => Capability::ImapSieve,
            38 => Capability::Include,
            39 => Capability::Regex,
            40 => Capability::SpamTest,
            41 => Capability::SpamTestPlus,
            42 => Capability::VirusTest,
            43 => Capability::Comparator(Comparator::Elbonia),
            44 => Capability::Comparator(Comparator::Octet),
            45 => Capability::Comparator(Comparator::AsciiCaseMap),
            _ => Capability::Comparator(Comparator::AsciiNumeric),
        }
    }

    /// The literal of a registered capability.
    fn name(&self) -> (s: &'static str)
        requires
            self.is_registered(),
        ensures
            s@ == self.literal(),
    {
        match self {
            Capability::Envelope => "envelope",
            Capability::EnvelopeDsn => "envelope-dsn",
            Capability::EnvelopeDeliverBy => "envelope-deliverby",
            Capability::FileInto => "fileinto",
            Capability::EncodedCharacter => "encoded-character",
            Capability::Body => "body",
            Capability::Convert => "convert",
            Capability::Copy => "copy",
            Capability::Relational => "relational",
            Capability::Date => "date",
            Capability::Index => "index",
            Capability::Duplicate => "duplicate",
            Capability::Variables => "variables",
            Capability::EditHeader => "editheader",
            Capability::ForEveryPart => "foreverypart",
            Capability::Mime => "mime",
            Capability::Replace => "replace",
            Capability::Enclose => "enclose",
            Capability::ExtractText => "extracttext",
            Capability::Enotify => "enotify",
            Capability::RedirectDsn => "redirect-dsn",
            Capability::RedirectDeliverBy => "redirect-deliverby",
            Capability::Environment => "environment",
            Capability::Reject => "reject",
            Capability::Ereject => "ereject",
            Capability::ExtLists => "extlists",
            Capability::SubAddress => "subaddress",
            Capability::Vacation => "vacation",
            Capability::VacationSeconds => "vacation-seconds",
            Capability::Fcc => "fcc",
            Capability::Mailbox => "mailbox",
            Capability::MailboxId => "mailboxid",
            Capability::MboxMetadata => "mboxmetadata",
            Capability::ServerMetadata => "servermetadata",
            Capability::SpecialUse => "special-use",
            Capability::Imap4Flags => "imap4flags",
            Capability::Ihave => "ihave",
            Capability::ImapSieve => "imapsieve",
            Capability::Include => "include",
            Capability::Regex => "regex",
            Capability::SpamTest => "spamtest",
            Capability::SpamTestPlus => "spamtestplus",
            Capability::VirusTest => "virustest",
            Capability::Comparator(Comparator::Elbonia) => "comparator-elbonia",
            Capability::Comparator(Comparator::Octet) => "comparator-i;octet",
            Capability::Comparator(Comparator::AsciiCaseMap) => "comparator-i;ascii-casemap",
            Capability::Comparator(Comparator::AsciiNumeric) => "comparator-i;ascii-numeric",
            _ => "",
        }
    }

    /// Looks `bytes` up among the registered literals.
    fn lookup(bytes: &[u8]) -> (r: Option<Capability>)
        ensures
            r matches Some(c) ==> c.is_registered() && bytes@ == encode_utf8(c.literal()),
            r is None ==> !Capability::registered_literal(bytes@),
            r == Capability::registered_of(bytes@),
    {
        let mut i: usize = 0;
        while i < 47
            invariant
                i <= 47,
                Capability::registered_of(bytes@) == Capability::registered_from(bytes@, i as int),
                forall|k: Capability| #[trigger]
                    k.ordinal() < i ==> bytes@ != encode_utf8(k.literal()),
            decreases 47 - i,
        {
            let c = Capability::registered(i);
            if bytes_eq(bytes, c.name().as_bytes()) {
                return Some(c);
            }
            assert forall|k: Capability| #[trigger] k.ordinal() < i + 1 implies bytes@
                != encode_utf8(k.literal()) by {
                if k.ordinal() == i {
                    assert(k == c);
                }
            }
            i += 1;
        }
        assert forall|k: Capability| k.is_registered() implies bytes@ != encode_utf8(
            #[trigger] k.literal(),
        ) by {
            assert(k.ordinal() < 47);
        }
        None
    }

    /// The name that a script requires the capability by.
    pub fn to_name(&self) -> (r: String)
        ensures
            r@ == self.literal(),
    {
        match self {
            Capability::Other(name) => name.clone(),
            Capability::Comparator(Comparator::Other(name)) => String::from_str(
                "comparator-",
            ).concat(name.as_str()),
            _ => String::from_str(self.name()),
        }
    }

    /// Whether the capability is one of the registered extensions.
    pub fn is_known(&self) -> (r: bool)
        ensures
            r == self.is_registered(),
    {
        match self {
            Capability::Other(_) => false,
            Capability::Comparator(Comparator::Other(_)) => false,
            _ => true,
        }
    }

    /// Maps the name in a `require` command to its capability.
    ///
    /// A registered literal gives its capability. Any other name is kept as
    /// it was written: behind `comparator-` as an unregistered comparator,
    /// otherwise as an unregistered capability.
    pub fn parse(bytes: Vec<u8>) -> (c: Capability)
        ensures
            Capability::parses_to(bytes@, c),
            c@ == Capability::view_of(bytes@),
    {
        broadcast use {encode_utf8_decode_utf8, encode_utf8_valid_utf8};

        match Capability::lookup(bytes.as_slice()) {
            Some(c) => {
                c
            },
            None => {
                let name = string_from_utf8_lossy(bytes.as_slice());
                match strip_prefix(name.as_str(), "comparator-") {
                    Some(comparator) => {
                        proof {
                            lemma_prefix_and_rest("comparator-"@, name@);
                        }
                        Capability::Comparator(Comparator::Other(comparator.to_owned()))
                    },
                    None => Capability::Other(name),
                }
            },
        }
    }
}

/// A capability as the contracts speak of it: the registered capability
/// itself, or the name of a comparator or of a capability that the registry
/// does not know.
pub ghost enum CapabilityView {
    Known(Capability),
    Comparator(Seq<char>),
    Other(Seq<char>),
}

impl View for Capability {
    type V = CapabilityView;

    open spec fn view(&self) -> CapabilityView {
        match *self {
            Capability::Other(name) => CapabilityView::Other(name@),
            Capability::Comparator(Comparator::Other(name)) => CapabilityView::Comparator(name@),
            _ => CapabilityView::Known(*self),
        }
    }
}

impl Clone for Capability {
    fn clone(&self) -> (r: Capability)
        ensures
            r.same(*self),
            r.literal() == self.literal(),
            r@ == self@,
    {
        match self {
            Capability::Envelope => Capability::Envelope,
            Capability::EnvelopeDsn => Capability::EnvelopeDsn,
            Capability::EnvelopeDeliverBy => Capability::EnvelopeDeliverBy,
            Capability::FileInto => Capability::FileInto,
            Capability::EncodedCharacter => Capability::EncodedCharacter,
            Capability::Body => Capability::Body,
            Capability::Convert => Capability::Convert,
            Capability::Copy => Capability::Copy,
            Capability::Relational => Capability::Relational,
            Capability::Date => Capability::Date,
            Capability::Index => Capability::Index,
            Capability::Duplicate => Capability::Duplicate,
            Capability::Variables => Capability::Variables,
            Capability::EditHeader => Capability::EditHeader,
            Capability::ForEveryPart => Capability::ForEveryPart,
            Capability::Mime => Capability::Mime,
            Capability::Replace => Capability::Replace,
            Capability::Enclose => Capability::Enclose,
            Capability::ExtractText => Capability::ExtractText,
            Capability::Enotify => Capability::Enotify,
            Capability::RedirectDsn => Capability::RedirectDsn,
            Capability::RedirectDeliverBy => Capability::RedirectDeliverBy,
            Capability::Environment => Capability::Environment,
            Capability::Reject => Capability::Reject,
            Capability::Ereject => Capability::Ereject,
            Capability::ExtLists => Capability::ExtLists,
            Capability::SubAddress => Capability::SubAddress,
            Capability::Vacation => Capability::Vacation,
            Capability::VacationSeconds => Capability::VacationSeconds,
            Capability::Fcc => Capability::Fcc,
            Capability::Mailbox => Capability::Mailbox,
            Capability::MailboxId => Capability::MailboxId,
            Capability::MboxMetadata => Capability::MboxMetadata,
            Capability::ServerMetadata => Capability::ServerMetadata,
            Capability::SpecialUse => Capability::SpecialUse,
            Capability::Imap4Flags => Capability::Imap4Flags,
            Capability::Ihave => Capability::Ihave,
            Capability::ImapSieve => Capability::ImapSieve,
            Capability::Include => Capability::Include,
            Capability::Regex => Capability::Regex,
            Capability::SpamTest => Capability::SpamTest,
            Capability::SpamTestPlus => Capability::SpamTestPlus,
            Capability::VirusTest => Capability::VirusTest,
            Capability::Comparator(c) => Capability::Comparator(c.clone()),
            Capability::Other(name) => Capability::Other(name.clone()),
        }
    }
}

impl PartialEq for Capability {
    fn eq(&self, other: &Capability) -> (r: bool) {
        match (self, other) {
            (Capability::Envelope, Capability::Envelope) => true,
            (Capability::EnvelopeDsn, Capability::EnvelopeDsn) => true,
            (Capability::EnvelopeDeliverBy, Capability::EnvelopeDeliverBy) => true,
            (Capability::FileInto, Capability::FileInto) => true,
            (Capability::EncodedCharacter, Capability::EncodedCharacter) => true,
            (Capability::Body, Capability::Body) => true,
            (Capability::Convert, Capability::Convert) => true,
            (Capability::Copy, Capability::Copy) => true,
            (Capability::Relational, Capability::Relational) => true,
            (Capability::Date, Capability::Date) => true,
            (Capability::Index, Capability::Index) => true,
            (Capability::Duplicate, Capability::Duplicate) => true,
            (Capability::Variables, Capability::Variables) => true,
            (Capability::EditHeader, Capability::EditHeader) => true,
            (Capability::ForEveryPart, Capability::ForEveryPart) => true,
            (Capability::Mime, Capability::Mime) => true,
            (Capability::Replace, Capability::Replace) => true,
            (Capability::Enclose, Capability::Enclose) => true,
            (Capability::ExtractText, Capability::ExtractText) => true,
            (Capability::Enotify, Capability::Enotify) => true,
            (Capability::RedirectDsn, Capability::RedirectDsn) => true,
            (Capability::RedirectDeliverBy, Capability::RedirectDeliverBy) => true,
            (Capability::Environment, Capability::Environment) => true,
            (Capability::Reject, Capability::Reject) => true,
            (Capability::Ereject, Capability::Ereject) => true,
            (Capability::ExtLists, Capability::ExtLists) => true,
            (Capability::SubAddress, Capability::SubAddress) => true,
            (Capability::Vacation, Capability::Vacation) => true,
            (Capability::VacationSeconds, Capability::VacationSeconds) => true,
            (Capability::Fcc, Capability::Fcc) => true,
            (Capability::Mailbox, Capability::Mailbox) => true,
            (Capability::MailboxId, Capability::MailboxId) => true,
            (Capability::MboxMetadata, Capability::MboxMetadata) => true,
            (Capability::ServerMetadata, Capability::ServerMetadata) => true,
            (Capability::SpecialUse, Capability::SpecialUse) => true,
            (Capability::Imap4Flags, Capability::Imap4Flags) => true,
            (Capability::Ihave, Capability::Ihave) => true,
            (Capability::ImapSieve, Capability::ImapSieve) => true,
            (Capability::Include, Capability::Include) => true,
            (Capability::Regex, Capability::Regex) => true,
            (Capability::SpamTest, Capability::SpamTest) => true,
            (Capability::SpamTestPlus, Capability::SpamTestPlus) => true,
            (Capability::VirusTest, Capability::VirusTest) => true,
            (Capability::Comparator(a), Capability::Comparator(b)) => *a == *b,
            (Capability::Other(a), Capability::Other(b)) => *a == *b,
            _ => false,
        }
    }
}

impl vstd::std_specs::cmp::PartialEqSpecImpl for Capability {
    open spec fn obeys_eq_spec() -> bool {
        true
    }

    open spec fn eq_spec(&self, other: &Capability) -> bool {
        self.same(*other)
    }
}

impl Eq for Capability {}

/// What tells the literals of the registered capabilities apart: the
/// length, the first character and the last but one.
pub open spec fn mark_of(s: Seq<char>) -> (nat, char, char) {
    (s.len(), s[0], s[s.len() - 2])
}

/// The mark of the literal of a registered capability.
pub open spec fn mark(c: Capability) -> (nat, char, char) {
    match c {
        Capability::Envelope => (8, 'e', 'p'),
        Capability::EnvelopeDsn => (12, 'e', 's'),
        Capability::EnvelopeDeliverBy => (18, 'e', 'b'),
        Capability::FileInto => (8, 'f', 't'),
        Capability::EncodedCharacter => (17, 'e', 'e'),
        Capability::Body => (4, 'b', 'd'),
        Capability::Convert => (7, 'c', 'r'),
        Capability::Copy => (4, 'c', 'p'),
        Capability::Relational => (10, 'r', 'a'),
        Capability::Date => (4, 'd', 't'),
        Capability::Index => (5, 'i', 'e'),
        Capability::Duplicate => (9, 'd', 't'),
        Capability::Variables => (9, 'v', 'e'),
        Capability::EditHeader => (10, 'e', 'e'),
        Capability::ForEveryPart => (12, 'f', 'r'),
        Capability::Mime => (4, 'm', 'm'),
        Capability::Replace => (7, 'r', 'c'),
        Capability::Enclose => (7, 'e', 's'),
        Capability::ExtractText => (11, 'e', 'x'),
        Capability::Enotify => (7, 'e', 'f'),
        Capability::RedirectDsn => (12, 'r', 's'),
        Capability::RedirectDeliverBy => (18, 'r', 'b'),
        Capability::Environment => (11, 'e', 'n'),
        Capability::Reject => (6, 'r', 'c'),
        Capability::Ereject => (7, 'e', 'c'),
        Capability::ExtLists => (8, 'e', 't'),
        Capability::SubAddress => (10, 's', 's'),
        Capability::Vacation => (8, 'v', 'o'),
        Capability::VacationSeconds => (16, 'v', 'd'),
        Capability::Fcc => (3, 'f', 'c'),
        Capability::Mailbox => (7, 'm', 'o'),
        Capability::MailboxId => (9, 'm', 'i'),
        Capability::MboxMetadata => (12, 'm', 't'),
        Capability::ServerMetadata => (14, 's', 't'),
        Capability::SpecialUse => (11, 's', 's'),
        Capability::Imap4Flags => (10, 'i', 'g'),
        Capability::Ihave => (5, 'i', 'v'),
        Capability::ImapSieve => (9, 'i', 'v'),
        Capability::Include => (7, 'i', 'd'),
        Capability::Regex => (5, 'r', 'e'),
        Capability::SpamTest => (8, 's', 's'),
        Capability::SpamTestPlus => (12, 's', 'u'),
        Capability::VirusTest => (9, 'v', 's'),
        Capability::Comparator(Comparator::Elbonia) => (18, 'c', 'i'),
        Capability::Comparator(Comparator::Octet) => (18, 'c', 'e'),
        Capability::Comparator(Comparator::AsciiCaseMap) => (26, 'c', 'a'),
        Capability::Comparator(Comparator::AsciiNumeric) => (26, 'c', 'i'),
        _ => (0, ' ', ' '),
    }
}

/// The literal of a registered capability has the mark that the table of
/// marks gives.
pub proof fn lemma_marks(c: Capability)
    requires
        c.is_registered(),
    ensures
        mark_of(c.literal()) == mark(c),
{
    reveal_strlit("envelope");
    reveal_strlit("envelope-dsn");
    reveal_strlit("envelope-deliverby");
    reveal_strlit("fileinto");
    reveal_strlit("encoded-character");
    reveal_strlit("body");
    reveal_strlit("convert");
    reveal_strlit("copy");
    reveal_strlit("relational");
    reveal_strlit("date");
    reveal_strlit("index");
    reveal_strlit("duplicate");
    reveal_strlit("variables");
    reveal_strlit("editheader");
    reveal_strlit("foreverypart");
    reveal_strlit("mime");
    reveal_strlit("replace");
    reveal_strlit("enclose");
    reveal_strlit("extracttext");
    reveal_strlit("enotify");
    reveal_strlit("redirect-dsn");
    reveal_strlit("redirect-deliverby");
    reveal_strlit("environment");
    reveal_strlit("reject");
    reveal_strlit("ereject");
    reveal_strlit("extlists");
    reveal_strlit("subaddress");
    reveal_strlit("vacation");
    reveal_strlit("vacation-seconds");
    reveal_strlit("fcc");
    reveal_strlit("mailbox");
    reveal_strlit("mailboxid");
    reveal_strlit("mboxmetadata");
    reveal_strlit("servermetadata");
    reveal_strlit("special-use");
    reveal_strlit("imap4flags");
    reveal_strlit("ihave");
    reveal_strlit("imapsieve");
    reveal_strlit("include");
    reveal_strlit("regex");
    reveal_strlit("spamtest");
    reveal_strlit("spamtestplus");
    reveal_strlit("virustest");
    reveal_strlit("comparator-elbonia");
    reveal_strlit("comparator-i;octet");
    reveal_strlit("comparator-i;ascii-casemap");
    reveal_strlit("comparator-i;ascii-numeric");
}

/// No two registered capabilities are written alike.
pub proof fn lemma_literals_differ(a: Capability, b: Capability)
    requires
        a.is_registered(),
        b.is_registered(),
        a.literal() == b.literal(),
    ensures
        a == b,
{
    lemma_marks(a);
    lemma_marks(b);
    assert(mark(a) == mark(b));
}

/// The registry finds a registered capability under its literal.
proof fn lemma_found(c: Capability, i: int)
    requires
        c.is_registered(),
        0 <= i <= c.ordinal(),
    ensures
        Capability::registered_from(encode_utf8(c.literal()), i) == Some(c),
    decreases c.ordinal() - i,
{
    broadcast use encode_utf8_decode_utf8;

    let k = Capability::at(i);
    assert(k.is_registered() && k.ordinal() == i);
    if i < c.ordinal() {
        if encode_utf8(k.literal()) == encode_utf8(c.literal()) {
            assert(decode_utf8(encode_utf8(k.literal())) == k.literal());
            assert(decode_utf8(encode_utf8(c.literal())) == c.literal());
            lemma_literals_differ(k, c);
        }
        lemma_found(c, i + 1);
    } else {
        assert(k == c);
    }
}

/// Reading the name of a capability gives the capability back: the bytes
/// of the name that `to_name` writes name the same capability to `parse`.
/// This holds of every registered capability, and of every capability that
/// `parse` made of valid UTF-8. It does not hold of a capability that was
/// made by hand under the name of another, such as an unregistered one with
/// a registered name.
pub proof fn lemma_name_round_trip(c: Capability, bytes: Seq<u8>)
    requires
        c.is_registered() || (valid_utf8(bytes) && Capability::parses_to(bytes, c) && c@
            == Capability::view_of(bytes)),
    ensures
        Capability::view_of(encode_utf8(c.literal())) == c@,
{
    broadcast use {encode_utf8_decode_utf8, decode_utf8_encode_utf8};

    if c.is_registered() {
        lemma_found(c, 0);
    } else {
        assert(c.literal() == decode_utf8(bytes));
        assert(encode_utf8(decode_utf8(bytes)) == bytes);
    }
}

} // verus!
