//! What the tests of a script mean: comparing texts, and looking for header
//! fields, strings and envelope addresses that match the keys of a test.

use vstd::prelude::*;
use crate::compiler::grammar::instruction::{Collation, MatchType};
use crate::runtime::envelope::{trim, trim_bounds, Envelope};
use crate::runtime::message::{fields_of, Header};
use crate::runtime::string::texts;

verus! {

/// The byte that stands for `b` in a comparison.
pub open spec fn fold_byte(c: Collation, b: u8) -> u8 {
    if c == Collation::AsciiCaseMap && 0x41 <= b <= 0x5a {
        (b + 0x20) as u8
    } else {
        b
    }
}

/// Whether two texts are equal under a collation.
pub open spec fn same_text(c: Collation, a: Seq<u8>, b: Seq<u8>) -> bool {
    &&& a.len() == b.len()
    &&& forall|i: int| 0 <= i < a.len() ==> fold_byte(c, #[trigger] a[i]) == fold_byte(c, b[i])
}

/// Whether the key stands in the value at an offset.
pub open spec fn occurs_at(c: Collation, key: Seq<u8>, value: Seq<u8>, at: int) -> bool {
    &&& 0 <= at
    &&& at + key.len() <= value.len()
    &&& same_text(c, value.subrange(at, at + key.len()), key)
}

/// Whether the key stands somewhere in the value.
pub open spec fn occurs(c: Collation, key: Seq<u8>, value: Seq<u8>) -> bool {
    exists|at: int| occurs_at(c, key, value, at)
}

/// Whether a value matches a key. Whether a value is in a list that the
/// key names is for the host to say: here it is not.
pub open spec fn compare(m: MatchType, c: Collation, value: Seq<u8>, key: Seq<u8>) -> bool {
    match m {
        MatchType::Is => same_text(c, value, key),
        MatchType::Contains => occurs(c, key, value),
        MatchType::List => false,
    }
}

/// Whether a value matches the key at a place of the list.
pub open spec fn key_at(
    m: MatchType,
    c: Collation,
    value: Seq<u8>,
    keys: Seq<Seq<u8>>,
    k: int,
) -> bool {
    0 <= k < keys.len() && compare(m, c, value, keys[k])
}

/// Whether a value matches one of the keys.
pub open spec fn any_key(m: MatchType, c: Collation, value: Seq<u8>, keys: Seq<Seq<u8>>) -> bool {
    exists|k: int| key_at(m, c, value, keys, k)
}

/// Whether a field has the name, whatever the case of its letters.
pub open spec fn named(field: (Seq<u8>, Seq<u8>), name: Seq<u8>) -> bool {
    same_text(Collation::AsciiCaseMap, field.0, name)
}

/// Whether the field at a place has the name.
pub open spec fn name_at(fields: Seq<(Seq<u8>, Seq<u8>)>, name: Seq<u8>, f: int) -> bool {
    0 <= f < fields.len() && named(fields[f], name)
}

/// Whether some field has the name.
pub open spec fn has_field(fields: Seq<(Seq<u8>, Seq<u8>)>, name: Seq<u8>) -> bool {
    exists|f: int| name_at(fields, name, f)
}

/// Whether there is a field of each name.
pub open spec fn exists_holds(fields: Seq<(Seq<u8>, Seq<u8>)>, names: Seq<Seq<u8>>) -> bool {
    forall|n: int| 0 <= n < names.len() ==> has_field(fields, #[trigger] names[n])
}

/// Whether the field at a place has the name and a value that, without the
/// blanks around it, matches one of the keys.
pub open spec fn field_at(
    fields: Seq<(Seq<u8>, Seq<u8>)>,
    name: Seq<u8>,
    m: MatchType,
    c: Collation,
    keys: Seq<Seq<u8>>,
    f: int,
) -> bool {
    name_at(fields, name, f) && any_key(m, c, trim(fields[f].1), keys)
}

/// Whether some field has the name and a value that matches.
pub open spec fn any_field(
    fields: Seq<(Seq<u8>, Seq<u8>)>,
    name: Seq<u8>,
    m: MatchType,
    c: Collation,
    keys: Seq<Seq<u8>>,
) -> bool {
    exists|f: int| field_at(fields, name, m, c, keys, f)
}

/// Whether the name at a place of the list is that of a field that matches.
pub open spec fn header_at(
    fields: Seq<(Seq<u8>, Seq<u8>)>,
    names: Seq<Seq<u8>>,
    m: MatchType,
    c: Collation,
    keys: Seq<Seq<u8>>,
    n: int,
) -> bool {
    0 <= n < names.len() && any_field(fields, names[n], m, c, keys)
}

/// The `header` test: a field with one of the names has a value that matches
/// one of the keys.
pub open spec fn header_holds(
    fields: Seq<(Seq<u8>, Seq<u8>)>,
    names: Seq<Seq<u8>>,
    m: MatchType,
    c: Collation,
    keys: Seq<Seq<u8>>,
) -> bool {
    exists|n: int| header_at(fields, names, m, c, keys, n)
}

/// Whether the string at a place of the list matches one of the keys.
pub open spec fn string_at(
    sources: Seq<Seq<u8>>,
    m: MatchType,
    c: Collation,
    keys: Seq<Seq<u8>>,
    s: int,
) -> bool {
    0 <= s < sources.len() && any_key(m, c, sources[s], keys)
}

/// The `string` test: one of the strings matches one of the keys.
pub open spec fn string_holds(
    sources: Seq<Seq<u8>>,
    m: MatchType,
    c: Collation,
    keys: Seq<Seq<u8>>,
) -> bool {
    exists|s: int| string_at(sources, m, c, keys, s)
}

/// Whether the envelope entry at a place is for one of the slots and holds an
/// address that matches one of the keys.
pub open spec fn entry_at(
    envelope: Seq<(Envelope, Seq<u8>)>,
    slots: Seq<Envelope>,
    m: MatchType,
    c: Collation,
    keys: Seq<Seq<u8>>,
    e: int,
) -> bool {
    0 <= e < envelope.len() && slots.contains(envelope[e].0) && any_key(
        m,
        c,
        envelope[e].1,
        keys,
    )
}

/// The `envelope` test: an entry for one of the slots matches one of the keys.
pub open spec fn envelope_holds(
    envelope: Seq<(Envelope, Seq<u8>)>,
    slots: Seq<Envelope>,
    m: MatchType,
    c: Collation,
    keys: Seq<Seq<u8>>,
) -> bool {
    exists|e: int| entry_at(envelope, slots, m, c, keys, e)
}

/// The entries of the envelope as slots and addresses.
pub open spec fn entries(envelope: Seq<(Envelope, Vec<u8>)>) -> Seq<(Envelope, Seq<u8>)> {
    Seq::new(envelope.len(), |i: int| (envelope[i].0, envelope[i].1@))
}

fn fold(c: Collation, b: u8) -> (r: u8)
    ensures
        r == fold_byte(c, b),
{
    if c == Collation::AsciiCaseMap && 0x41 <= b && b <= 0x5a {
        b + 0x20
    } else {
        b
    }
}

/// Whether the key stands in the value at an offset.
fn check_at(c: Collation, key: &[u8], value: &[u8], at: usize) -> (r: bool)
    requires
        at + key.len() <= value.len(),
    ensures
        r == occurs_at(c, key@, value@, at as int),
{
    let ghost window = value@.subrange(at as int, at + key.len());
    let mut i: usize = 0;
    while i < key.len()
        invariant
            i <= key.len(),
            at + key.len() <= value.len(),
            window == value@.subrange(at as int, at + key.len()),
            forall|j: int| 0 <= j < i ==> fold_byte(c, #[trigger] window[j]) == fold_byte(c, key@[j]),
        decreases key.len() - i,
    {
        assert(window[i as int] == value@[at + i]);
        if fold(c, value[at + i]) != fold(c, key[i]) {
            return false;
        }
        i += 1;
    }
    true
}

/// Whether two texts are equal under a collation.
pub fn same(c: Collation, a: &[u8], b: &[u8]) -> (r: bool)
    ensures
        r == same_text(c, a@, b@),
{
    if a.len() != b.len() {
        return false;
    }
    assert(a@.subrange(0, 0 + b@.len() as int) == a@);
    check_at(c, b, a, 0)
}

/// Whether the key stands somewhere in the value.
fn find(c: Collation, key: &[u8], value: &[u8]) -> (r: bool)
    ensures
        r == occurs(c, key@, value@),
{
    if key.len() > value.len() {
        return false;
    }
    let last = value.len() - key.len();
    let mut at: usize = 0;
    while at <= last
        invariant
            at <= last + 1,
            last == value.len() - key.len(),
            forall|j: int| 0 <= j < at ==> !occurs_at(c, key@, value@, j),
        decreases last + 1 - at,
    {
        if check_at(c, key, value, at) {
            return true;
        }
        at += 1;
    }
    false
}

/// Whether a value matches one of the keys.
pub fn matches_any(m: MatchType, c: Collation, value: &[u8], keys: &Vec<Vec<u8>>) -> (r: bool)
    ensures
        r == any_key(m, c, value@, texts(keys@)),
{
    let mut k: usize = 0;
    while k < keys.len()
        invariant
            k <= keys.len(),
            forall|j: int| 0 <= j < k ==> !key_at(m, c, value@, texts(keys@), j),
        decreases keys.len() - k,
    {
        let hit = match m {
            MatchType::Is => same(c, value, keys[k].as_slice()),
            MatchType::Contains => find(c, keys[k].as_slice(), value),
            MatchType::List => false,
        };
        if hit {
            assert(key_at(m, c, value@, texts(keys@), k as int));
            return true;
        }
        k += 1;
    }
    false
}

/// Whether some field has the name.
pub fn find_field(headers: &Vec<Header>, name: &[u8]) -> (r: bool)
    ensures
        r == has_field(fields_of(headers@), name@),
{
    let mut f: usize = 0;
    while f < headers.len()
        invariant
            f <= headers.len(),
            forall|j: int| 0 <= j < f ==> !name_at(fields_of(headers@), name@, j),
        decreases headers.len() - f,
    {
        if same(Collation::AsciiCaseMap, headers[f].name.as_slice(), name) {
            assert(name_at(fields_of(headers@), name@, f as int));
            return true;
        }
        f += 1;
    }
    false
}

/// The `exists` test on the fields of a part.
pub fn test_exists(headers: &Vec<Header>, names: &Vec<Vec<u8>>) -> (r: bool)
    ensures
        r == exists_holds(fields_of(headers@), texts(names@)),
{
    let mut n: usize = 0;
    while n < names.len()
        invariant
            n <= names.len(),
            forall|j: int|
                0 <= j < n ==> has_field(fields_of(headers@), #[trigger] texts(names@)[j]),
        decreases names.len() - n,
    {
        if !find_field(headers, names[n].as_slice()) {
            assert(texts(names@)[n as int] == names@[n as int]@);
            return false;
        }
        n += 1;
    }
    true
}

/// Whether some field has the name and a value that matches.
fn find_match(
    headers: &Vec<Header>,
    name: &[u8],
    m: MatchType,
    c: Collation,
    keys: &Vec<Vec<u8>>,
) -> (r: bool)
    ensures
        r == any_field(fields_of(headers@), name@, m, c, texts(keys@)),
{
    let mut f: usize = 0;
    while f < headers.len()
        invariant
            f <= headers.len(),
            forall|j: int|
                0 <= j < f ==> !field_at(fields_of(headers@), name@, m, c, texts(keys@), j),
        decreases headers.len() - f,
    {
        if same(Collation::AsciiCaseMap, headers[f].name.as_slice(), name) {
            let value = headers[f].value.as_slice();
            let (a, b) = trim_bounds(value);
            let trimmed = vstd::slice::slice_subrange(value, a, b);
            if matches_any(m, c, trimmed, keys) {
                assert(field_at(fields_of(headers@), name@, m, c, texts(keys@), f as int));
                return true;
            }
        }
        f += 1;
    }
    false
}

/// The `header` test on the fields of a part.
pub fn test_header(
    headers: &Vec<Header>,
    names: &Vec<Vec<u8>>,
    m: MatchType,
    c: Collation,
    keys: &Vec<Vec<u8>>,
) -> (r: bool)
    ensures
        r == header_holds(fields_of(headers@), texts(names@), m, c, texts(keys@)),
{
    let mut n: usize = 0;
    while n < names.len()
        invariant
            n <= names.len(),
            forall|j: int|
                0 <= j < n ==> !header_at(
                    fields_of(headers@),
                    texts(names@),
                    m,
                    c,
                    texts(keys@),
                    j,
                ),
        decreases names.len() - n,
    {
        if find_match(headers, names[n].as_slice(), m, c, keys) {
            assert(header_at(fields_of(headers@), texts(names@), m, c, texts(keys@), n as int));
            return true;
        }
        n += 1;
    }
    false
}

/// The `string` test.
pub fn test_string(sources: &Vec<Vec<u8>>, m: MatchType, c: Collation, keys: &Vec<Vec<u8>>) -> (r:
    bool)
    ensures
        r == string_holds(texts(sources@), m, c, texts(keys@)),
{
    let mut s: usize = 0;
    while s < sources.len()
        invariant
            s <= sources.len(),
            forall|j: int| 0 <= j < s ==> !string_at(texts(sources@), m, c, texts(keys@), j),
        decreases sources.len() - s,
    {
        if matches_any(m, c, sources[s].as_slice(), keys) {
            assert(string_at(texts(sources@), m, c, texts(keys@), s as int));
            return true;
        }
        s += 1;
    }
    false
}

/// Whether a slot is among those of a list.
fn has_slot(slots: &Vec<Envelope>, slot: Envelope) -> (r: bool)
    ensures
        r == slots@.contains(slot),
{
    let mut i: usize = 0;
    while i < slots.len()
        invariant
            i <= slots.len(),
            forall|j: int| 0 <= j < i ==> slots@[j] != slot,
        decreases slots.len() - i,
    {
        if slots[i] == slot {
            return true;
        }
        i += 1;
    }
    false
}

/// The `envelope` test.
pub fn test_envelope(
    envelope: &Vec<(Envelope, Vec<u8>)>,
    slots: &Vec<Envelope>,
    m: MatchType,
    c: Collation,
    keys: &Vec<Vec<u8>>,
) -> (r: bool)
    ensures
        r == envelope_holds(entries(envelope@), slots@, m, c, texts(keys@)),
{
    let mut e: usize = 0;
    while e < envelope.len()
        invariant
            e <= envelope.len(),
            forall|j: int|
                0 <= j < e ==> !entry_at(entries(envelope@), slots@, m, c, texts(keys@), j),
        decreases envelope.len() - e,
    {
        if has_slot(slots, envelope[e].0) && matches_any(m, c, envelope[e].1.as_slice(), keys) {
            assert(entry_at(entries(envelope@), slots@, m, c, texts(keys@), e as int));
            return true;
        }
        e += 1;
    }
    false
}

} // verus!
