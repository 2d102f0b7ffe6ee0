//! HTTP headers: as they come in with a request, as a mapping from names to
//! text, and as the list that goes out with a request.

use crate::text::{eq_ignore_ascii_case, same_ignoring_ascii_case, str_eq, utf8_to_string};
use vstd::prelude::*;
use vstd::string::*;
use vstd::utf8::{decode_utf8, valid_utf8};

verus! {

/// A header whose value is text.
#[derive(Clone, Debug, PartialEq, Eq)]
pub struct Header {
    pub name: String,
    pub value: String,
}

/// A header of an inbound request: its name, and its value as the bytes
/// that came over the wire.
#[derive(Clone, Debug, PartialEq, Eq)]
pub struct RawHeader {
    pub name: String,
    pub value: Vec<u8>,
}

impl View for Header {
    type V = (Seq<char>, Seq<char>);

    open spec fn view(&self) -> (Seq<char>, Seq<char>) {
        (self.name@, self.value@)
    }
}

/// The views of a list of headers, in order.
pub open spec fn headers_view(headers: Seq<Header>) -> Seq<(Seq<char>, Seq<char>)> {
    headers.map_values(|h: Header| h@)
}

impl View for RawHeader {
    type V = (Seq<char>, Seq<u8>);

    open spec fn view(&self) -> (Seq<char>, Seq<u8>) {
        (self.name@, self.value@)
    }
}

/// The views of a list of raw headers, in order.
pub open spec fn raw_headers_view(headers: Seq<RawHeader>) -> Seq<(Seq<char>, Seq<u8>)> {
    headers.map_values(|h: RawHeader| h@)
}

/// Whether `name` names the header that carries the signature. The case of
/// its letters does not count.
pub open spec fn is_signature_name(name: Seq<char>) -> bool {
    same_ignoring_ascii_case(name, "x-signature"@)
}

/// The index of the first entry named `name` at or after `from`.
pub open spec fn position_of(
    entries: Seq<(Seq<char>, Seq<char>)>,
    name: Seq<char>,
    from: int,
) -> Option<int>
    decreases entries.len() - from,
{
    if from < 0 || from >= entries.len() {
        None
    } else if entries[from].0 == name {
        Some(from)
    } else {
        position_of(entries, name, from + 1)
    }
}

/// `entries` with `value` under `name`: in the place of the entry of that
/// name if there is one, else at the end.
pub open spec fn upsert(
    entries: Seq<(Seq<char>, Seq<char>)>,
    name: Seq<char>,
    value: Seq<char>,
) -> Seq<(Seq<char>, Seq<char>)> {
    match position_of(entries, name, 0) {
        Some(i) => entries.update(i, (name, value)),
        None => entries.push((name, value)),
    }
}

/// The header mapping of a request. Headers are taken in their order. One
/// whose value is not UTF-8 is dropped, and so is the signature header. Of
/// several values under one name the last one stays, in the place of the
/// first; names are the same only if they are written the same.
pub open spec fn collect_headers(raw: Seq<(Seq<char>, Seq<u8>)>) -> Seq<(Seq<char>, Seq<char>)>
    decreases raw.len(),
{
    if raw.len() == 0 {
        Seq::empty()
    } else {
        let before = collect_headers(raw.drop_last());
        let (name, value) = raw.last();
        if is_signature_name(name) || !valid_utf8(value) {
            before
        } else {
            upsert(before, name, decode_utf8(value))
        }
    }
}

/// The index of the first signature header at or after `from`.
pub open spec fn signature_position(raw: Seq<(Seq<char>, Seq<u8>)>, from: int) -> Option<int>
    decreases raw.len() - from,
{
    if from < 0 || from >= raw.len() {
        None
    } else if is_signature_name(raw[from].0) {
        Some(from)
    } else {
        signature_position(raw, from + 1)
    }
}

/// The index of the first header named `name`.
fn find_header(headers: &Vec<Header>, name: &str) -> (at: Option<usize>)
    ensures
        match at {
            Some(i) => position_of(headers_view(headers@), name@, 0) == Some(i as int) && i
                < headers.len(),
            None => position_of(headers_view(headers@), name@, 0) is None,
        },
{
    let ghost entries = headers_view(headers@);
    let mut i: usize = 0;
    while i < headers.len()
        invariant
            i <= headers.len(),
            entries == headers_view(headers@),
            position_of(entries, name@, 0) == position_of(entries, name@, i as int),
        decreases headers.len() - i,
    {
        if str_eq(headers[i].name.as_str(), name) {
            return Some(i);
        }
        i += 1;
    }
    None
}

/// Puts `value` under `name` in `headers`.
fn put_header(headers: &mut Vec<Header>, name: String, value: String)
    ensures
        headers_view(final(headers)@) == upsert(headers_view(old(headers)@), name@, value@),
{
    match find_header(headers, name.as_str()) {
        Some(i) => {
            headers.set(i, Header { name, value });
        },
        None => {
            headers.push(Header { name, value });
        },
    }
    assert(headers_view(headers@) =~= upsert(headers_view(old(headers)@), name@, value@));
}

/// Builds the header mapping of a request.
pub fn collect(raw: &Vec<RawHeader>) -> (headers: Vec<Header>)
    ensures
        headers_view(headers@) == collect_headers(raw_headers_view(raw@)),
{
    let ghost all = raw_headers_view(raw@);
    let mut headers: Vec<Header> = Vec::new();
    assert(headers_view(headers@) =~= Seq::empty());
    assert(all.take(0) =~= Seq::empty());
    let mut i: usize = 0;
    while i < raw.len()
        invariant
            i <= raw.len(),
            all == raw_headers_view(raw@),
            headers_view(headers@) == collect_headers(all.take(i as int)),
        decreases raw.len() - i,
    {
        proof {
            assert(all.take(i + 1).drop_last() =~= all.take(i as int));
            assert(all.take(i + 1).last() == raw@[i as int]@);
        }
        let header = &raw[i];
        if !eq_ignore_ascii_case(header.name.as_str(), "x-signature") {
            match utf8_to_string(header.value.as_slice()) {
                Some(value) => {
                    put_header(&mut headers, header.name.clone(), value);
                },
                None => {},
            }
        }
        i += 1;
    }
    assert(all.take(raw.len() as int) =~= all);
    headers
}

/// The first signature header among `headers`.
pub fn find_signature(headers: &Vec<RawHeader>) -> (at: Option<usize>)
    ensures
        match at {
            Some(i) => signature_position(raw_headers_view(headers@), 0) == Some(i as int) && i
                < headers.len(),
            None => signature_position(raw_headers_view(headers@), 0) is None,
        },
{
    let ghost raw = raw_headers_view(headers@);
    let mut i: usize = 0;
    while i < headers.len()
        invariant
            i <= headers.len(),
            raw == raw_headers_view(headers@),
            signature_position(raw, 0) == signature_position(raw, i as int),
        decreases headers.len() - i,
    {
        if eq_ignore_ascii_case(headers[i].name.as_str(), "x-signature") {
            return Some(i);
        }
        i += 1;
    }
    None
}

/// Whether no two entries have the same name.
pub open spec fn distinct_names(entries: Seq<(Seq<char>, Seq<char>)>) -> bool {
    forall|i: int, j: int| 0 <= i < j < entries.len() ==> entries[i].0 != entries[j].0
}

/// The value under `name`, if there is an entry of that name.
pub open spec fn lookup(entries: Seq<(Seq<char>, Seq<char>)>, name: Seq<char>) -> Option<
    Seq<char>,
> {
    match position_of(entries, name, 0) {
        Some(i) => Some(entries[i].1),
        None => None,
    }
}

/// The text of the last header named `name` whose value is UTF-8.
pub open spec fn last_text(raw: Seq<(Seq<char>, Seq<u8>)>, name: Seq<char>) -> Option<Seq<char>>
    decreases raw.len(),
{
    if raw.len() == 0 {
        None
    } else if raw.last().0 == name && valid_utf8(raw.last().1) {
        Some(decode_utf8(raw.last().1))
    } else {
        last_text(raw.drop_last(), name)
    }
}

/// What `position_of` finds is the first entry of the name, and it finds
/// nothing only where there is none.
pub proof fn lemma_position_is_first(
    entries: Seq<(Seq<char>, Seq<char>)>,
    name: Seq<char>,
    from: int,
)
    requires
        0 <= from,
    ensures
        match position_of(entries, name, from) {
            Some(i) => from <= i < entries.len() && entries[i].0 == name && forall|k: int|
                from <= k < i ==> entries[k].0 != name,
            None => forall|k: int| from <= k < entries.len() ==> entries[k].0 != name,
        },
    decreases entries.len() - from,
{
    if from < entries.len() && entries[from].0 != name {
        lemma_position_is_first(entries, name, from + 1);
    }
}

/// The first entry of a name is what `position_of` finds.
pub proof fn lemma_first_is_position(
    entries: Seq<(Seq<char>, Seq<char>)>,
    name: Seq<char>,
    from: int,
    at: int,
)
    requires
        0 <= from <= at < entries.len(),
        entries[at].0 == name,
        forall|k: int| from <= k < at ==> entries[k].0 != name,
    ensures
        position_of(entries, name, from) == Some(at),
    decreases at - from,
{
    if from < at {
        lemma_first_is_position(entries, name, from + 1, at);
    }
}

/// After `upsert` the name holds the value, every other name holds what it
/// held, and names that were distinct still are.
pub proof fn lemma_upsert(
    entries: Seq<(Seq<char>, Seq<char>)>,
    name: Seq<char>,
    value: Seq<char>,
    other: Seq<char>,
)
    ensures
        lookup(upsert(entries, name, value), name) == Some(value),
        other != name ==> lookup(upsert(entries, name, value), other) == lookup(entries, other),
        distinct_names(entries) ==> distinct_names(upsert(entries, name, value)),
        forall|i: int|
            0 <= i < upsert(entries, name, value).len() ==> #[trigger] upsert(
                entries,
                name,
                value,
            )[i].0 == name || (i < entries.len() && upsert(entries, name, value)[i].0
                == entries[i].0),
{
    let after = upsert(entries, name, value);
    lemma_position_is_first(entries, name, 0);
    lemma_position_is_first(entries, other, 0);
    match position_of(entries, name, 0) {
        Some(i) => {
            lemma_first_is_position(after, name, 0, i);
            if other != name {
                match position_of(entries, other, 0) {
                    Some(j) => {
                        lemma_first_is_position(after, other, 0, j);
                    },
                    None => {
                        lemma_position_is_first(after, other, 0);
                    },
                }
            }
        },
        None => {
            lemma_first_is_position(after, name, 0, entries.len() as int);
            if other != name {
                match position_of(entries, other, 0) {
                    Some(j) => {
                        lemma_first_is_position(after, other, 0, j);
                    },
                    None => {
                        lemma_position_is_first(after, other, 0);
                    },
                }
            }
        },
    }
}

/// No two entries of a header mapping have the same name.
pub proof fn law_collected_names_distinct(raw: Seq<(Seq<char>, Seq<u8>)>)
    ensures
        distinct_names(collect_headers(raw)),
    decreases raw.len(),
{
    if raw.len() > 0 {
        law_collected_names_distinct(raw.drop_last());
        let (name, value) = raw.last();
        lemma_upsert(collect_headers(raw.drop_last()), name, decode_utf8(value), name);
    }
}

/// The signature header is in no header mapping, and so in no payload.
pub proof fn law_signature_left_out(raw: Seq<(Seq<char>, Seq<u8>)>, i: int)
    requires
        0 <= i < collect_headers(raw).len(),
    ensures
        !is_signature_name(collect_headers(raw)[i].0),
    decreases raw.len(),
{
    if raw.len() > 0 {
        let before = collect_headers(raw.drop_last());
        let (name, value) = raw.last();
        if is_signature_name(name) || !valid_utf8(value) {
            law_signature_left_out(raw.drop_last(), i);
        } else {
            lemma_upsert(before, name, decode_utf8(value), name);
            if collect_headers(raw)[i].0 != name {
                law_signature_left_out(raw.drop_last(), i);
            }
        }
    }
}

/// What a header mapping holds under a name: nothing under the name of the
/// signature header; under any other name the text of the last header of
/// that name whose value is UTF-8, and nothing where there is no such
/// header.
pub proof fn law_collected_values(raw: Seq<(Seq<char>, Seq<u8>)>, name: Seq<char>)
    ensures
        lookup(collect_headers(raw), name) == if is_signature_name(name) {
            None
        } else {
            last_text(raw, name)
        },
    decreases raw.len(),
{
    if raw.len() > 0 {
        let before = collect_headers(raw.drop_last());
        let (last_name, value) = raw.last();
        law_collected_values(raw.drop_last(), name);
        if !(is_signature_name(last_name) || !valid_utf8(value)) {
            lemma_upsert(before, last_name, decode_utf8(value), name);
        }
    }
}

} // verus!
