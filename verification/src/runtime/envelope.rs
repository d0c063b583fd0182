//! The envelope of a message: the values that the delivery agent knows from
//! the mail transaction, such as sender and recipient.

use vstd::prelude::*;

verus! {

/// A slot of the envelope.
#[derive(Debug, Clone, Copy, PartialEq, Eq, Structural)]
pub enum Envelope {
    From,
    To,
    OriginalRecipient,
    ByTimeAbsolute,
    ByTimeRelative,
    ByMode,
    ByTrace,
    Notify,
    Orcpt,
    Ret,
    Envid,
    Auth,
}

/// Whether a byte is blank: space, tab, carriage return or line feed.
pub open spec fn is_blank(b: u8) -> bool {
    b == 0x20 || b == 0x09 || b == 0x0d || b == 0x0a
}

/// The text without the blanks it starts with.
pub open spec fn trim_start(s: Seq<u8>) -> Seq<u8>
    decreases s.len(),
{
    if s.len() > 0 && is_blank(s[0]) {
        trim_start(s.skip(1))
    } else {
        s
    }
}

/// The text without the blanks it ends with.
pub open spec fn trim_end(s: Seq<u8>) -> Seq<u8>
    decreases s.len(),
{
    if s.len() > 0 && is_blank(s.last()) {
        trim_end(s.drop_last())
    } else {
        s
    }
}

/// The text without the blanks around it.
pub open spec fn trim(s: Seq<u8>) -> Seq<u8> {
    trim_end(trim_start(s))
}

/// Whether a byte may stand in a mailbox: it is printable ASCII other than an
/// angle bracket.
pub open spec fn is_mailbox_byte(b: u8) -> bool {
    0x20 < b < 0x7f && b != 0x3c && b != 0x3e
}

/// Whether the text is a mailbox: bytes that may stand in one, with an `@`
/// that has something before it and something after it.
pub open spec fn is_mailbox(a: Seq<u8>) -> bool {
    &&& forall|i: int| 0 <= i < a.len() ==> is_mailbox_byte(#[trigger] a[i])
    &&& exists|k: int| 0 < k < a.len() - 1 && #[trigger] a[k] == 0x40
}

/// Whether the text stands between angle brackets.
pub open spec fn is_bracketed(t: Seq<u8>) -> bool {
    t.len() >= 2 && t[0] == 0x3c && t.last() == 0x3e
}

/// The address that an envelope value holds, if it holds one. Blanks around
/// the value and one pair of angle brackets around the address are dropped.
/// What is left must be a mailbox, or be empty between brackets, which is the
/// null path.
pub open spec fn envelope_address(value: Seq<u8>) -> Option<Seq<u8>> {
    let t = trim(value);
    if is_bracketed(t) {
        let a = t.subrange(1, t.len() - 1);
        if a.len() == 0 || is_mailbox(a) {
            Some(a)
        } else {
            None
        }
    } else if is_mailbox(t) {
        Some(t)
    } else {
        None
    }
}

/// The bounds of the text without the blanks around it.
pub fn trim_bounds(s: &[u8]) -> (r: (usize, usize))
    ensures
        r.0 <= r.1 <= s.len(),
        s@.subrange(r.0 as int, r.1 as int) == trim(s@),
{
    let mut a: usize = 0;
    assert(s@.skip(0) == s@);
    while a < s.len() && (s[a] == 0x20 || s[a] == 0x09 || s[a] == 0x0d || s[a] == 0x0a)
        invariant
            a <= s.len(),
            trim_start(s@) == trim_start(s@.skip(a as int)),
        decreases s.len() - a,
    {
        assert(s@.skip(a as int).skip(1) == s@.skip(a + 1));
        a += 1;
    }
    assert(trim_start(s@) == s@.skip(a as int));
    let mut b: usize = s.len();
    while b > a && (s[b - 1] == 0x20 || s[b - 1] == 0x09 || s[b - 1] == 0x0d || s[b - 1] == 0x0a)
        invariant
            a <= b <= s.len(),
            a < s.len() ==> !is_blank(s@[a as int]),
            trim(s@) == trim_end(s@.subrange(a as int, b as int)),
        decreases b,
    {
        assert(s@.subrange(a as int, b as int).drop_last() == s@.subrange(a as int, b - 1));
        b -= 1;
    }
    (a, b)
}

/// Copies a range of bytes.
pub fn copy_range(s: &[u8], from: usize, to: usize) -> (r: Vec<u8>)
    requires
        from <= to <= s.len(),
    ensures
        r@ == s@.subrange(from as int, to as int),
{
    let mut out: Vec<u8> = Vec::new();
    let mut i: usize = from;
    while i < to
        invariant
            from <= i <= to <= s.len(),
            out@ == s@.subrange(from as int, i as int),
        decreases to - i,
    {
        out.push(s[i]);
        assert(s@.subrange(from as int, i + 1) == s@.subrange(from as int, i as int).push(
            s@[i as int],
        ));
        i += 1;
    }
    out
}

/// Whether the bytes in a range are a mailbox.
fn mailbox_in(s: &[u8], from: usize, to: usize) -> (r: bool)
    requires
        from <= to <= s.len(),
    ensures
        r == is_mailbox(s@.subrange(from as int, to as int)),
{
    let ghost a = s@.subrange(from as int, to as int);
    let mut found: bool = false;
    let mut i: usize = from;
    while i < to
        invariant
            from <= i <= to <= s.len(),
            a == s@.subrange(from as int, to as int),
            forall|j: int| 0 <= j < i - from ==> is_mailbox_byte(#[trigger] a[j]),
            found == exists|k: int| 0 < k < a.len() - 1 && k < i - from && #[trigger] a[k] == 0x40,
        decreases to - i,
    {
        let b = s[i];
        assert(a[i - from] == b);
        if !(0x20 < b && b < 0x7f && b != 0x3c && b != 0x3e) {
            return false;
        }
        if b == 0x40 && i > from && i + 1 < to {
            found = true;
        }
        i += 1;
    }
    found
}

/// Reads the address out of an envelope value.
pub fn parse_envelope_address(value: &[u8]) -> (r: Option<Vec<u8>>)
    ensures
        r is Some == envelope_address(value@) is Some,
        r matches Some(a) ==> Some(a@) == envelope_address(value@),
{
    let (a, b) = trim_bounds(value);
    let ghost t = trim(value@);
    if b - a >= 2 && value[a] == 0x3c && value[b - 1] == 0x3e {
        assert(t.subrange(1, t.len() - 1) == value@.subrange(a + 1, b - 1));
        if b - a == 2 || mailbox_in(value, a + 1, b - 1) {
            Some(copy_range(value, a + 1, b - 1))
        } else {
            None
        }
    } else if mailbox_in(value, a, b) {
        Some(copy_range(value, a, b))
    } else {
        None
    }
}

} // verus!
