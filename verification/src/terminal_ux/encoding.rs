//! What the text of a Cashu token encodes, as far as the keyset ids in it.

use base64::Engine;
use vstd::prelude::*;
use vstd::utf8::{encode_utf8, is_char_boundary};

use crate::terminal_ux::cbor;
use crate::terminal_ux::json;
use crate::terminal_ux::json::positions;
use crate::text::{has_prefix, starts_with};

verus! {

/// The bytes that a text encodes in base64, `None` where it encodes none.
pub uninterp spec fn base64_bytes(text: Seq<char>) -> Option<Seq<u8>>;

/// `base64::engine::GeneralPurpose::decode` with the alphabet that is safe in URLs, whether or not
/// there is padding: the bytes are a function of the text.
#[verifier::external_body]
fn decode_base64(text: &str) -> (r: Option<Vec<u8>>)
    ensures
        match r {
            Some(bytes) => base64_bytes(text@) == Some(bytes@),
            None => base64_bytes(text@) is None,
        },
{
    let config = base64::engine::GeneralPurposeConfig::new().with_decode_padding_mode(
        base64::engine::DecodePaddingMode::Indifferent,
    );
    match base64::engine::GeneralPurpose::new(&base64::alphabet::URL_SAFE, config).decode(text) {
        Ok(bytes) => Some(bytes),
        Err(_) => None,
    }
}

/// How a token is encoded: version 3 in JSON, version 4 in CBOR.
#[derive(Clone, Copy)]
pub enum Format {
    Json,
    Cbor,
}

/// Where the items begin of the list that begins at `i`, if one does.
pub open spec fn items_at(f: Format, b: Seq<u8>, i: int) -> Seq<int> {
    match f {
        Format::Json => json::items_at(b, i),
        Format::Cbor => cbor::items_at(b, i),
    }
}

/// Where the fields begin of the record that begins at `i`. Only in JSON may a record be a list,
/// with the field at its position.
pub open spec fn fields_at(
    f: Format,
    b: Seq<u8>,
    i: int,
    name: Seq<char>,
    position: nat,
) -> Seq<int> {
    match f {
        Format::Json => json::fields_at(b, i, name, position),
        Format::Cbor => cbor::fields_at(b, i, encode_utf8(name)),
    }
}

/// Where the items begin of the lists that begin at the given places.
pub open spec fn items_of(f: Format, b: Seq<u8>, lists: Seq<int>) -> Seq<int>
    decreases lists.len(),
{
    if lists.len() == 0 {
        Seq::empty()
    } else {
        items_of(f, b, lists.drop_last()) + items_at(f, b, lists.last())
    }
}

/// Where the fields begin of the records that begin at the given places.
pub open spec fn fields_of(
    f: Format,
    b: Seq<u8>,
    records: Seq<int>,
    name: Seq<char>,
    position: nat,
) -> Seq<int>
    decreases records.len(),
{
    if records.len() == 0 {
        Seq::empty()
    } else {
        fields_of(f, b, records.drop_last(), name, position) + fields_at(
            f,
            b,
            records.last(),
            name,
            position,
        )
    }
}

/// Where the keyset ids of a token begin. In version 3 every proof has one, and the proofs stand
/// under their mints; in version 4 every group of proofs has one.
pub open spec fn id_places(f: Format, b: Seq<u8>) -> Seq<int> {
    match f {
        Format::Json => {
            let lists = fields_of(f, b, seq![json::after_blanks(b, 0)], "token"@, 0);
            let proof_lists = fields_of(f, b, items_of(f, b, lists), "proofs"@, 1);
            fields_of(f, b, items_of(f, b, proof_lists), "id"@, 1)
        },
        Format::Cbor => {
            let lists = fields_of(f, b, seq![0], "t"@, 0);
            fields_of(f, b, items_of(f, b, lists), "i"@, 0)
        },
    }
}

/// Whether a text of sixteen bytes has a character across the end of the second byte.
pub open spec fn splits(text: Seq<char>) -> bool {
    encode_utf8(text).len() == 16 && !is_char_boundary(encode_utf8(text), 2)
}

/// Whether the keyset id that begins at `i` is one that no version can be taken from: in JSON it
/// has sixteen bytes, with a character across the end of the second, and in CBOR it is empty.
pub open spec fn no_version_at(f: Format, b: Seq<u8>, i: int) -> bool {
    match f {
        Format::Json => json::text_at(b, i) matches Some(text) && splits(text),
        Format::Cbor => cbor::is_empty_at(b, i),
    }
}

/// Whether a version can be taken from each keyset id of a token.
pub open spec fn ids_have_versions(f: Format, b: Seq<u8>) -> bool {
    forall|k: int|
        0 <= k < id_places(f, b).len() ==> !#[trigger] no_version_at(f, b, id_places(f, b)[k])
}

/// Whether a version can be taken from each keyset id that a text encodes. A text that encodes no
/// bytes, or has neither prefix, encodes no ids.
pub open spec fn ids_are_sound(text: Seq<char>) -> bool {
    if has_prefix(text, "cashuA"@) {
        match base64_bytes(text.subrange(6, text.len() as int)) {
            Some(bytes) => ids_have_versions(Format::Json, bytes),
            None => true,
        }
    } else if has_prefix(text, "cashuB"@) {
        match base64_bytes(text.subrange(6, text.len() as int)) {
            Some(bytes) => ids_have_versions(Format::Cbor, bytes),
            None => true,
        }
    } else {
        true
    }
}

/// Adds places to a list of places.
fn append_places(places: &mut Vec<usize>, more: Vec<usize>)
    ensures
        positions(final(places)@) == positions(old(places)@) + positions(more@),
        final(places)@ == old(places)@ + more@,
{
    let mut more = more;
    let ghost added = more@;
    places.append(&mut more);
    assert(positions(places@) =~= positions(old(places)@) + positions(added));
}

/// Where the items begin of the lists that begin at the given places.
fn find_items(f: Format, b: &[u8], lists: &Vec<usize>) -> (r: Vec<usize>)
    requires
        forall|k: int| 0 <= k < lists@.len() ==> #[trigger] lists@[k] <= b@.len(),
    ensures
        positions(r@) == items_of(f, b@, positions(lists@)),
        forall|k: int| 0 <= k < r@.len() ==> #[trigger] r@[k] <= b@.len(),
{
    let ghost all = positions(lists@);
    let mut found: Vec<usize> = Vec::new();
    let mut i: usize = 0;
    assert(positions(found@) =~= items_of(f, b@, all.take(0)));
    while i < lists.len()
        invariant
            i <= lists@.len(),
            all == positions(lists@),
            forall|k: int| 0 <= k < lists@.len() ==> #[trigger] lists@[k] <= b@.len(),
            positions(found@) == items_of(f, b@, all.take(i as int)),
            forall|k: int| 0 <= k < found@.len() ==> #[trigger] found@[k] <= b@.len(),
        decreases lists@.len() - i,
    {
        let at: usize = lists[i];
        let more: Vec<usize> = match f {
            Format::Json => json::find_items(b, at),
            Format::Cbor => cbor::find_items(b, at),
        };
        append_places(&mut found, more);
        assert(all.take(i + 1).drop_last() =~= all.take(i as int));
        i = i + 1;
    }
    assert(all.take(i as int) =~= all);
    found
}

/// Where the fields begin of the records that begin at the given places.
fn find_fields(f: Format, b: &[u8], records: &Vec<usize>, name: &str, position: usize) -> (r: Vec<
    usize,
>)
    requires
        forall|k: int| 0 <= k < records@.len() ==> #[trigger] records@[k] <= b@.len(),
    ensures
        positions(r@) == fields_of(f, b@, positions(records@), name@, position as nat),
        forall|k: int| 0 <= k < r@.len() ==> #[trigger] r@[k] <= b@.len(),
{
    let ghost all = positions(records@);
    let mut found: Vec<usize> = Vec::new();
    let mut i: usize = 0;
    assert(positions(found@) =~= fields_of(f, b@, all.take(0), name@, position as nat));
    while i < records.len()
        invariant
            i <= records@.len(),
            all == positions(records@),
            forall|k: int| 0 <= k < records@.len() ==> #[trigger] records@[k] <= b@.len(),
            positions(found@) == fields_of(
                f,
                b@,
                all.take(i as int),
                name@,
                position as nat,
            ),
            forall|k: int| 0 <= k < found@.len() ==> #[trigger] found@[k] <= b@.len(),
        decreases records@.len() - i,
    {
        let at: usize = records[i];
        let more: Vec<usize> = match f {
            Format::Json => json::find_fields(b, at, name, position),
            Format::Cbor => cbor::find_fields(b, at, name.as_bytes()),
        };
        append_places(&mut found, more);
        assert(all.take(i + 1).drop_last() =~= all.take(i as int));
        i = i + 1;
    }
    assert(all.take(i as int) =~= all);
    found
}

/// Where the keyset ids of a token begin.
fn find_ids(f: Format, b: &[u8]) -> (r: Vec<usize>)
    ensures
        positions(r@) == id_places(f, b@),
        forall|k: int| 0 <= k < r@.len() ==> #[trigger] r@[k] <= b@.len(),
{
    let mut root: Vec<usize> = Vec::new();
    match f {
        Format::Json => {
            root.push(json::skip_blanks(b, 0));
            assert(positions(root@) =~= seq![json::after_blanks(b@, 0)]);
            let lists = find_fields(f, b, &root, "token", 0);
            let entries = find_items(f, b, &lists);
            let proof_lists = find_fields(f, b, &entries, "proofs", 1);
            let proofs = find_items(f, b, &proof_lists);
            find_fields(f, b, &proofs, "id", 1)
        },
        Format::Cbor => {
            root.push(0);
            assert(positions(root@) =~= seq![0int]);
            let lists = find_fields(f, b, &root, "t", 0);
            let groups = find_items(f, b, &lists);
            find_fields(f, b, &groups, "i", 0)
        },
    }
}

/// Whether the keyset id that begins at `at` is one that no version can be taken from.
fn lacks_version(f: Format, b: &[u8], at: usize) -> (r: bool)
    requires
        at <= b@.len(),
    ensures
        r == no_version_at(f, b@, at as int),
{
    match f {
        Format::Json => match json::find_text(b, at) {
            Some(text) => text.as_str().as_bytes().len() == 16 && !text.as_str().is_char_boundary(2),
            None => false,
        },
        Format::Cbor => cbor::is_empty(b, at),
    }
}

/// Whether a version can be taken from each keyset id of a token.
#[verifier::loop_isolation(false)]
fn all_have_versions(f: Format, b: &[u8]) -> (r: bool)
    ensures
        r == ids_have_versions(f, b@),
{
    let ids: Vec<usize> = find_ids(f, b);
    let ghost places = id_places(f, b@);
    assert(forall|k: int| 0 <= k < ids@.len() ==> places[k] == #[trigger] ids@[k]) by {
        assert(forall|k: int| 0 <= k < ids@.len() ==> positions(ids@)[k] == #[trigger] ids@[k]);
    }
    let mut i: usize = 0;
    while i < ids.len()
        invariant
            i <= ids@.len(),
            forall|k: int| 0 <= k < i ==> !#[trigger] no_version_at(f, b@, places[k]),
        decreases ids@.len() - i,
    {
        if lacks_version(f, b, ids[i]) {
            assert(no_version_at(f, b@, places[i as int]));
            return false;
        }
        i = i + 1;
    }
    assert(places.len() == ids@.len());
    true
}

/// Whether a version can be taken from each keyset id that a text encodes.
pub fn can_be_parsed(text: &str) -> (r: bool)
    ensures
        r == ids_are_sound(text@),
{
    proof {
        reveal_strlit("cashuA");
        reveal_strlit("cashuB");
    }
    let f: Format = if starts_with(text, "cashuA") {
        Format::Json
    } else if starts_with(text, "cashuB") {
        Format::Cbor
    } else {
        return true;
    };
    match decode_base64(text.substring_char(6, text.unicode_len())) {
        Some(bytes) => all_have_versions(f, bytes.as_slice()),
        None => true,
    }
}

} // verus!
