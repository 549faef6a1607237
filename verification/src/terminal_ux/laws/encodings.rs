//! What holds of the keyset ids that are found in the text of a token.

use vstd::prelude::*;
use vstd::utf8::{encode_utf8, is_char_boundary};

use crate::terminal_ux::cbor;
use crate::terminal_ux::cbor::{cbor_head, Shape};
use crate::terminal_ux::encoding::{
    base64_bytes, fields_at, fields_of, id_places, ids_are_sound, items_at, items_of, Format,
};
use crate::terminal_ux::json;
use crate::terminal_ux::json::json_text;
use crate::terminal_ux::token::{decoded, parsed_token, token_facts};

verus! {

/// Only a text that begins with `cashuA` or `cashuB` and is base64 after that encodes ids at all. In
/// the first they are JSON, and one of sixteen bytes with a character across the end of the second
/// byte is not sound; in the second they are CBOR, and an empty one is not sound. All others are.
pub proof fn only_ids_without_a_version_are_unsound(text: Seq<char>, rest: Seq<char>)
    ensures
        !"cashuA"@.is_prefix_of(text) && !"cashuB"@.is_prefix_of(text) ==> ids_are_sound(text),
        base64_bytes(rest) is None ==> ids_are_sound("cashuA"@ + rest) && ids_are_sound(
            "cashuB"@ + rest,
        ),
        base64_bytes(rest) matches Some(b) ==> (ids_are_sound("cashuA"@ + rest) <==> forall|k: int|
            #![trigger id_places(Format::Json, b)[k]]
            0 <= k < id_places(Format::Json, b).len() ==> !(json::text_at(
                b,
                id_places(Format::Json, b)[k],
            ) matches Some(id) && encode_utf8(id).len() == 16 && !is_char_boundary(
                encode_utf8(id),
                2,
            ))),
        base64_bytes(rest) matches Some(b) ==> (ids_are_sound("cashuB"@ + rest) <==> forall|k: int|
            #![trigger id_places(Format::Cbor, b)[k]]
            0 <= k < id_places(Format::Cbor, b).len() ==> !cbor::is_empty_at(
                b,
                id_places(Format::Cbor, b)[k],
            )),
{
    reveal_strlit("cashuA");
    reveal_strlit("cashuB");
    let a = "cashuA"@ + rest;
    let c = "cashuB"@ + rest;
    assert(a.subrange(0, 6) =~= "cashuA"@);
    assert(c.subrange(0, 6) =~= "cashuB"@);
    assert(c.subrange(0, 6)[5] == 'B');
    assert("cashuA"@[5] == 'A');
    assert(a.subrange(6, a.len() as int) =~= rest);
    assert(c.subrange(6, c.len() as int) =~= rest);
    if text.len() >= 6 && text.subrange(0, 6) == "cashuA"@ {
        assert("cashuA"@.is_prefix_of(text));
    }
    if text.len() >= 6 && text.subrange(0, 6) == "cashuB"@ {
        assert("cashuB"@.is_prefix_of(text));
    }
    if let Some(b) = base64_bytes(rest) {
        let places = id_places(Format::Json, b);
        if ids_are_sound(a) {
            assert forall|k: int|
                #![trigger id_places(Format::Json, b)[k]]
                0 <= k < id_places(Format::Json, b).len() implies !(json::text_at(
                b,
                id_places(Format::Json, b)[k],
            ) matches Some(id) && encode_utf8(id).len() == 16 && !is_char_boundary(
                encode_utf8(id),
                2,
            )) by {
                assert(!crate::terminal_ux::encoding::no_version_at(Format::Json, b, places[k]));
            }
        }
        let groups = id_places(Format::Cbor, b);
        if ids_are_sound(c) {
            assert forall|k: int|
                #![trigger id_places(Format::Cbor, b)[k]]
                0 <= k < id_places(Format::Cbor, b).len() implies !cbor::is_empty_at(
                b,
                id_places(Format::Cbor, b)[k],
            ) by {
                assert(!crate::terminal_ux::encoding::no_version_at(Format::Cbor, b, groups[k]));
            }
        }
    }
}

/// A text with sound ids is the token that is parsed from it; one without is none.
pub proof fn sound_texts_are_parsed(text: Seq<char>)
    requires
        !"cashu:"@.is_prefix_of(text),
    ensures
        ids_are_sound(text) ==> token_facts(text) == parsed_token(text),
        !ids_are_sound(text) ==> token_facts(text) is None && decoded(text) is None,
{
    reveal_strlit("cashu:");
    if text.len() >= 6 && text.subrange(0, 6) == "cashu:"@ {
        assert("cashu:"@.is_prefix_of(text));
    }
}

/// The ids of a token of version 3 stand under `id` in the proofs, which stand under `proofs` in the
/// items of `token`; those of version 4 stand under `i` in the items of `t`.
pub proof fn ids_stand_where_tokens_have_them(b: Seq<u8>)
    ensures
        id_places(Format::Json, b) == fields_of(
            Format::Json,
            b,
            items_of(
                Format::Json,
                b,
                fields_of(
                    Format::Json,
                    b,
                    items_of(
                        Format::Json,
                        b,
                        fields_of(
                            Format::Json,
                            b,
                            seq![json::after_blanks(b, 0)],
                            "token"@,
                            0,
                        ),
                    ),
                    "proofs"@,
                    1,
                ),
            ),
            "id"@,
            1,
        ),
        id_places(Format::Cbor, b) == fields_of(
            Format::Cbor,
            b,
            items_of(Format::Cbor, b, fields_of(Format::Cbor, b, seq![0], "t"@, 0)),
            "i"@,
            0,
        ),
{
}

/// Items and fields are found place by place.
pub proof fn items_and_fields_are_found_place_by_place(
    f: Format,
    b: Seq<u8>,
    first: Seq<int>,
    i: int,
    name: Seq<char>,
    position: nat,
)
    ensures
        items_of(f, b, Seq::empty()) == Seq::<int>::empty(),
        fields_of(f, b, Seq::empty(), name, position) == Seq::<int>::empty(),
        items_of(f, b, first.push(i)) == items_of(f, b, first) + items_at(f, b, i),
        fields_of(f, b, first.push(i), name, position) == fields_of(f, b, first, name, position)
            + fields_at(f, b, i, name, position),
        items_at(Format::Json, b, i) == json::items_at(b, i),
        items_at(Format::Cbor, b, i) == cbor::items_at(b, i),
        fields_at(Format::Json, b, i, name, position) == json::fields_at(b, i, name, position),
        fields_at(Format::Cbor, b, i, name, position) == cbor::fields_at(b, i, encode_utf8(name)),
{
    assert(first.push(i).drop_last() =~= first);
}

/// White space in JSON is spaces, tabs, line feeds and carriage returns, and all of it is passed over.
pub proof fn blanks_are_passed_over(b: Seq<u8>, i: int)
    requires
        0 <= i <= b.len(),
    ensures
        i <= json::after_blanks(b, i) <= b.len(),
        forall|j: int|
            i <= j < json::after_blanks(b, i) ==> #[trigger] b[j] == 32 || b[j] == 9 || b[j] == 10
                || b[j] == 13,
        json::after_blanks(b, i) < b.len() ==> ({
            let c = b[json::after_blanks(b, i)];
            c != 32 && c != 9 && c != 10 && c != 13
        }),
    decreases b.len() - i,
{
    if i < b.len() && (b[i] == 32 || b[i] == 9 || b[i] == 10 || b[i] == 13) {
        blanks_are_passed_over(b, i + 1);
    }
}

/// A string in JSON ends after the next quote, but for one behind a backslash.
pub proof fn strings_end_at_their_quote(b: Seq<u8>, i: int, end: int)
    requires
        0 <= i <= end < b.len(),
    ensures
        (b[end] == 0x22 && forall|j: int| i <= j < end ==> #[trigger] b[j] != 0x22 && b[j] != 0x5C)
            ==> json::string_end(b, i) == end + 1,
        b[i] == 0x5C && i + 1 < b.len() ==> json::string_end(b, i) == json::string_end(b, i + 2),
        b[i] != 0x22 && b[i] != 0x5C ==> json::string_end(b, i) == json::string_end(b, i + 1),
    decreases end - i,
{
    if i < end && b[end] == 0x22 && (forall|j: int|
        i <= j < end ==> #[trigger] b[j] != 0x22 && b[j] != 0x5C) {
        assert(b[i] != 0x22);
        strings_end_at_their_quote(b, i + 1, end);
    }
}

/// A number or a word in JSON ends before the comma, colon, closing bracket or white space that
/// follows it, or with the text.
pub proof fn plain_values_end_before_what_follows(b: Seq<u8>, i: int, end: int)
    requires
        0 <= i <= end <= b.len(),
        forall|j: int|
            i <= j < end ==> #[trigger] b[j] != 0x22 && b[j] != 0x5B && b[j] != 0x5D && b[j] != 0x7B
                && b[j] != 0x7D && b[j] != 0x2C && b[j] != 0x3A && b[j] != 32 && b[j] != 9 && b[j]
                != 10 && b[j] != 13,
        end < b.len() ==> b[end] == 0x2C || b[end] == 0x3A || b[end] == 0x5D || b[end] == 0x7D
            || b[end] == 32 || b[end] == 9 || b[end] == 10 || b[end] == 13,
    ensures
        json::value_end(b, i, 0) == end,
    decreases end - i,
{
    if i < end {
        plain_values_end_before_what_follows(b, i + 1, end);
    }
}

/// A string in JSON ends with it; a list or an object ends with the bracket that closes it. On the way
/// there an opening bracket outside strings is one more to close, a closing one is one less, and
/// all else is passed over.
pub proof fn brackets_are_closed_in_turn(b: Seq<u8>, i: int, depth: nat)
    requires
        0 <= i < b.len(),
    ensures
        b[i] == 0x22 && depth == 0 ==> json::value_end(b, i, depth) == json::string_end(b, i + 1),
        b[i] == 0x22 && depth > 0 ==> json::value_end(b, i, depth) == json::value_end(
            b,
            json::string_end(b, i + 1),
            depth,
        ),
        b[i] == 0x5B || b[i] == 0x7B ==> json::value_end(b, i, depth) == json::value_end(
            b,
            i + 1,
            depth + 1,
        ),
        (b[i] == 0x5D || b[i] == 0x7D) && depth == 1 ==> json::value_end(b, i, depth) == i + 1,
        (b[i] == 0x5D || b[i] == 0x7D) && depth > 1 ==> json::value_end(b, i, depth)
            == json::value_end(b, i + 1, (depth - 1) as nat),
        depth > 0 && b[i] != 0x22 && b[i] != 0x5B && b[i] != 0x5D && b[i] != 0x7B && b[i] != 0x7D
            ==> json::value_end(b, i, depth) == json::value_end(b, i + 1, depth),
{
}

/// A bracket inside brackets ends where it would on its own, and what is around it goes on from there.
pub proof fn inner_values_end_as_on_their_own(b: Seq<u8>, i: int, inner: nat, outer: nat)
    requires
        0 <= i,
        inner > 0,
        outer > 0,
    ensures
        json::value_end(b, i, inner + outer) == json::value_end(
            b,
            json::value_end(b, i, inner),
            outer,
        ),
    decreases b.len() - i,
{
    if i < b.len() {
        if b[i] == 0x22 {
            json::lemma_string_end(b, i + 1);
            inner_values_end_as_on_their_own(b, json::string_end(b, i + 1), inner, outer);
        } else if b[i] == 0x5B || b[i] == 0x7B {
            inner_values_end_as_on_their_own(b, i + 1, inner + 1, outer);
        } else if b[i] == 0x5D || b[i] == 0x7D {
            if inner > 1 {
                inner_values_end_as_on_their_own(b, i + 1, (inner - 1) as nat, outer);
                assert((inner - 1 + outer) as nat == (inner + outer - 1) as nat);
            }
        } else {
            inner_values_end_as_on_their_own(b, i + 1, inner, outer);
        }
    }
}

/// The members of an object in JSON are found one after the other: commas and white space between them
/// are passed over, and a member counts where its name stands for the text that is looked for.
pub proof fn members_are_found_one_by_one(b: Seq<u8>, i: int, colon: int, name: Seq<char>)
    requires
        0 <= i < b.len(),
    ensures
        b[i] == 0x2C ==> json::named_values(b, i, name) == json::named_values(b, i + 1, name),
        b[i] == 0x7D ==> json::named_values(b, i, name) == Seq::<int>::empty(),
        b[i] == 0x22 && colon == json::after_blanks(b, json::string_end(b, i + 1)) && 0 <= colon
            < b.len() && b[colon] == 0x3A ==> ({
            let value = json::after_blanks(b, colon + 1);
            json::named_values(b, i, name) == (if json_text(
                b.subrange(i, json::string_end(b, i + 1)),
            ) == Some(name) {
                seq![value]
            } else {
                Seq::empty()
            }) + json::named_values(b, json::value_end(b, value, 0), name)
        }),
{
    assert(json::after_blanks(b, i) == i || b[i] == 32 || b[i] == 9 || b[i] == 10 || b[i] == 13);
    if b[i] == 0x22 && colon == json::after_blanks(b, json::string_end(b, i + 1)) && 0 <= colon
        < b.len() && b[colon] == 0x3A {
        let value = json::after_blanks(b, colon + 1);
        let rest = json::named_values(b, json::value_end(b, value, 0), name);
        assert(Seq::<int>::empty() + rest =~= rest);
    }
}

/// The items of a list in JSON are found one after the other, up to the bracket that closes it.
pub proof fn json_items_are_found_one_by_one(b: Seq<u8>, i: int)
    requires
        0 <= i < b.len(),
    ensures
        b[i] == 0x2C ==> json::list_items(b, i) == json::list_items(b, i + 1),
        b[i] == 0x5D ==> json::list_items(b, i) == Seq::<int>::empty(),
        b[i] != 0x2C && json::after_blanks(b, i) == i && json::value_end(b, i, 0) > i
            ==> json::list_items(b, i) == seq![i] + json::list_items(b, json::value_end(b, i, 0)),
        json::list_items(b, i) == json::list_items(b, json::after_blanks(b, i)),
{
    blanks_are_passed_over(b, i);
    let k = json::after_blanks(b, i);
    if k < b.len() {
        assert(json::after_blanks(b, k) == k);
    }
}

/// A list in JSON begins with `[`. A field stands in an object under its name, and in a list at its
/// position. A text begins with a quote.
pub proof fn json_records_have_their_fields(b: Seq<u8>, i: int, name: Seq<char>, position: nat)
    ensures
        0 <= i < b.len() && b[i] == 0x5B ==> json::items_at(b, i) == json::list_items(b, i + 1),
        0 <= i < b.len() && b[i] != 0x5B ==> json::items_at(b, i) == Seq::<int>::empty(),
        0 <= i < b.len() && b[i] == 0x7B ==> json::fields_at(b, i, name, position)
            == json::named_values(b, i + 1, name),
        0 <= i < b.len() && b[i] == 0x5B && position < json::items_at(b, i).len()
            ==> json::fields_at(b, i, name, position) == seq![
            json::items_at(b, i)[position as int],
        ],
        0 <= i < b.len() && b[i] == 0x5B && position >= json::items_at(b, i).len()
            ==> json::fields_at(b, i, name, position) == Seq::<int>::empty(),
        0 <= i < b.len() && b[i] == 0x22 ==> json::text_at(b, i) == json_text(
            b.subrange(i, json::string_end(b, i + 1)),
        ),
        0 <= i < b.len() && b[i] != 0x22 ==> json::text_at(b, i) is None,
{
}

/// A head in CBOR is read from where it stands, and the place after it is its length further on; tags
/// in front of a head are passed over.
pub proof fn heads_are_read_where_they_stand(b: Seq<u8>, i: int, shape: Shape, n: nat)
    requires
        0 <= i,
        0 < n,
        i + n <= b.len(),
        cbor_head(b.subrange(i, b.len() as int)) == Some((shape, n)),
        cbor::can_be_told(shape),
    ensures
        cbor::head_at(b, i) == Some((shape, i + n)),
        !(shape is Tag) ==> cbor::untagged_at(b, i) == Some((shape, i + n)),
        shape is Tag ==> cbor::untagged_at(b, i) == cbor::untagged_at(b, i + n),
{
}

/// A length can be told where it fits into the machine's word, and where the end is marked instead.
pub proof fn lengths_that_fit_can_be_told(n: nat)
    ensures
        cbor::can_be_told(Shape::Bytes(Some(n))) <==> n <= usize::MAX,
        cbor::can_be_told(Shape::Text(Some(n))) <==> n <= usize::MAX,
        cbor::can_be_told(Shape::List(Some(n))) <==> n <= usize::MAX,
        cbor::can_be_told(Shape::Entries(Some(n))) <==> n <= usize::MAX,
        cbor::can_be_told(Shape::Bytes(None)),
        cbor::can_be_told(Shape::Text(None)),
        cbor::can_be_told(Shape::List(None)),
        cbor::can_be_told(Shape::Entries(None)),
        cbor::can_be_told(Shape::Tag),
        cbor::can_be_told(Shape::Break),
        cbor::can_be_told(Shape::Other),
{
}

/// Where no head stands there is no value.
pub proof fn no_head_no_value(b: Seq<u8>, i: int, depth: nat, name: Seq<u8>)
    ensures
        0 <= i <= b.len() && cbor_head(b.subrange(i, b.len() as int)) is None ==> cbor::head_at(
            b,
            i,
        ) is None,
        cbor::head_at(b, i) is None ==> cbor::untagged_at(b, i) is None,
        cbor::untagged_at(b, i) is None ==> cbor::value_end(b, i, depth) is None
            && cbor::items_at(b, i) == Seq::<int>::empty() && cbor::fields_at(b, i, name)
            == Seq::<int>::empty() && !cbor::is_empty_at(b, i),
{
}

/// A value in CBOR ends after its bytes, its text, its items or its entries, of which each is two
/// values; or after its head, where it has none of them.
pub proof fn values_end_after_what_they_hold(b: Seq<u8>, i: int, j: int, n: nat, depth: nat)
    ensures
        cbor::untagged_at(b, i) == Some((Shape::Other, j)) ==> cbor::value_end(b, i, depth) == Some(
            j,
        ),
        cbor::untagged_at(b, i) == Some((Shape::Bytes(Some(n)), j)) && j + n <= b.len()
            ==> cbor::value_end(b, i, depth) == Some((j + n) as int),
        cbor::untagged_at(b, i) == Some((Shape::Text(Some(n)), j)) && j + n <= b.len()
            ==> cbor::value_end(b, i, depth) == Some((j + n) as int),
        (cbor::untagged_at(b, i) == Some((Shape::Bytes(Some(n)), j)) || cbor::untagged_at(b, i)
            == Some((Shape::Text(Some(n)), j))) && j + n > b.len() ==> cbor::value_end(
            b,
            i,
            depth,
        ) is None,
        cbor::untagged_at(b, i) == Some((Shape::Bytes(None), j)) ==> cbor::value_end(b, i, depth)
            == (match cbor::pieces_end(b, j, 1, false, 0) {
            Some((end, _)) => Some(end),
            None => None,
        }),
        cbor::untagged_at(b, i) == Some((Shape::Text(None), j)) ==> cbor::value_end(b, i, depth)
            == (match cbor::pieces_end(b, j, 1, true, 0) {
            Some((end, _)) => Some(end),
            None => None,
        }),
        cbor::untagged_at(b, i) == Some((Shape::Break, j)) ==> cbor::value_end(b, i, depth) is None,
        cbor::untagged_at(b, i) == Some((Shape::List(Some(n)), j)) && depth > 0 ==> cbor::value_end(
            b,
            i,
            depth,
        ) == cbor::values_end(b, j, n, (depth - 1) as nat),
        cbor::untagged_at(b, i) == Some((Shape::Entries(Some(n)), j)) && depth > 0
            ==> cbor::value_end(b, i, depth) == cbor::values_end(b, j, 2 * n, (depth - 1) as nat),
        cbor::untagged_at(b, i) == Some((Shape::List(None), j)) && depth > 0 ==> cbor::value_end(
            b,
            i,
            depth,
        ) == cbor::marked_end(b, j, (depth - 1) as nat),
        cbor::untagged_at(b, i) == Some((Shape::Entries(None), j)) && depth > 0 ==> cbor::value_end(
            b,
            i,
            depth,
        ) == cbor::marked_end(b, j, (depth - 1) as nat),
{
}

/// Values in CBOR that stand one after the other are passed over one after the other, as many as there
/// are, or up to the mark of their end.
pub proof fn values_are_passed_over_one_by_one(
    b: Seq<u8>,
    i: int,
    end: int,
    n: nat,
    depth: nat,
)
    ensures
        cbor::values_end(b, i, 0, depth) == Some(i),
        cbor::value_end(b, i, depth) == Some(end) ==> cbor::values_end(b, i, n + 1, depth)
            == cbor::values_end(b, end, n, depth),
        cbor::head_at(b, i) == Some((Shape::Break, end)) ==> cbor::marked_end(b, i, depth) == Some(
            end,
        ),
        !cbor::is_mark(cbor::head_at(b, i)) && cbor::value_end(b, i, depth) == Some(end) && i < end
            <= b.len() ==> cbor::marked_end(b, i, depth) == cbor::marked_end(b, end, depth),
        cbor::is_mark(cbor::head_at(b, i)) <==> (cbor::head_at(b, i) matches Some((shape, _))
            && shape is Break),
{
}

/// A string in pieces ends with the mark of its end, and has as many bytes as its pieces, which are
/// all of its own kind.
pub proof fn pieces_are_passed_over_one_by_one(
    b: Seq<u8>,
    i: int,
    j: int,
    n: nat,
    open: nat,
    read: nat,
)
    ensures
        cbor::head_at(b, i) == Some((Shape::Break, j)) && open <= 1 ==> cbor::pieces_end(
            b,
            i,
            open,
            false,
            read,
        ) == Some((j, read)),
        cbor::head_at(b, i) == Some((Shape::Break, j)) && open > 1 ==> cbor::pieces_end(
            b,
            i,
            open,
            false,
            read,
        ) == cbor::pieces_end(b, j, (open - 1) as nat, false, read),
        cbor::head_at(b, i) == Some((Shape::Bytes(Some(n)), j)) && j + n <= b.len()
            ==> cbor::pieces_end(b, i, open, false, read) == cbor::pieces_end(
            b,
            (j + n) as int,
            open,
            false,
            read + n,
        ),
        cbor::head_at(b, i) == Some((Shape::Text(Some(n)), j)) && j + n <= b.len()
            ==> cbor::pieces_end(b, i, open, true, read) == cbor::pieces_end(
            b,
            (j + n) as int,
            open,
            true,
            read + n,
        ),
        cbor::head_at(b, i) == Some((Shape::Bytes(None), j)) ==> cbor::pieces_end(
            b,
            i,
            open,
            false,
            read,
        ) == cbor::pieces_end(b, j, open + 1, false, read),
        cbor::head_at(b, i) == Some((Shape::Text(None), j)) ==> cbor::pieces_end(
            b,
            i,
            open,
            true,
            read,
        ) == cbor::pieces_end(b, j, open + 1, true, read),
        cbor::head_at(b, i) == Some((Shape::Text(Some(n)), j)) ==> cbor::pieces_end(
            b,
            i,
            open,
            false,
            read,
        ) is None,
        cbor::head_at(b, i) == Some((Shape::Bytes(Some(n)), j)) ==> cbor::pieces_end(
            b,
            i,
            open,
            true,
            read,
        ) is None,
{
}

/// The entries of a map in CBOR are found one after the other, as many as there are; one counts where
/// the bytes of its name are those that are looked for.
pub proof fn entries_are_found_one_by_one(
    b: Seq<u8>,
    i: int,
    j: int,
    n: nat,
    end: int,
    left: nat,
    name: Seq<u8>,
)
    requires
        0 <= i < j,
        j + n < end <= b.len(),
        cbor::untagged_at(b, i) == Some((Shape::Text(Some(n)), j)) || cbor::untagged_at(b, i)
            == Some((Shape::Bytes(Some(n)), j)),
        cbor::value_end(b, (j + n) as int, 256) == Some(end),
    ensures
        cbor::named_values(b, i, Some(0nat), name) == Seq::<int>::empty(),
        cbor::named_values(b, i, Some(left + 1), name) == (if b.subrange(j, (j + n) as int)
            == name {
            seq![(j + n) as int]
        } else {
            Seq::empty()
        }) + cbor::named_values(b, end, Some(left), name),
        cbor::named_values(b, i, None, name) == (if b.subrange(j, (j + n) as int) == name {
            seq![(j + n) as int]
        } else {
            Seq::empty()
        }) + cbor::named_values(b, end, None, name),
{
    let counted = cbor::named_values(b, end, Some(left), name);
    let marked = cbor::named_values(b, end, None, name);
    assert((left + 1 - 1) as nat == left);
    assert(Seq::<int>::empty() + counted =~= counted);
    assert(Seq::<int>::empty() + marked =~= marked);
}

/// The items of a list in CBOR are found one after the other, as many as there are, or up to the mark
/// of their end.
pub proof fn cbor_items_are_found_one_by_one(b: Seq<u8>, i: int, end: int, left: nat)
    requires
        i < end <= b.len(),
        cbor::value_end(b, i, 256) == Some(end),
    ensures
        cbor::list_items(b, i, Some(0nat)) == Seq::<int>::empty(),
        cbor::list_items(b, i, Some(left + 1)) == seq![i] + cbor::list_items(b, end, Some(left)),
        cbor::is_mark(cbor::head_at(b, i)) ==> cbor::list_items(b, i, None) == Seq::<int>::empty(),
        !cbor::is_mark(cbor::head_at(b, i)) ==> cbor::list_items(b, i, None) == seq![i]
            + cbor::list_items(b, end, None),
{
    assert((left + 1 - 1) as nat == left);
}

/// A list in CBOR has items, a map has fields, and nothing else has either. What is empty is a string
/// of no bytes or a list of no items.
pub proof fn cbor_values_have_what_they_are(
    b: Seq<u8>,
    i: int,
    j: int,
    left: Option<nat>,
    n: nat,
    name: Seq<u8>,
)
    ensures
        cbor::untagged_at(b, i) == Some((Shape::List(left), j)) ==> cbor::items_at(b, i)
            == cbor::list_items(b, j, left) && cbor::fields_at(b, i, name) == Seq::<int>::empty(),
        cbor::untagged_at(b, i) == Some((Shape::Entries(left), j)) ==> cbor::fields_at(b, i, name)
            == cbor::named_values(b, j, left, name) && cbor::items_at(b, i) == Seq::<int>::empty()
            && !cbor::is_empty_at(b, i),
        cbor::untagged_at(b, i) == Some((Shape::Bytes(Some(n)), j)) ==> (cbor::is_empty_at(b, i)
            <==> n == 0),
        cbor::untagged_at(b, i) == Some((Shape::List(Some(n)), j)) ==> (cbor::is_empty_at(b, i)
            <==> n == 0),
        cbor::untagged_at(b, i) == Some((Shape::List(None), j)) ==> (cbor::is_empty_at(b, i)
            <==> cbor::is_mark(cbor::head_at(b, j))),
        cbor::untagged_at(b, i) == Some((Shape::Bytes(None), j)) ==> (cbor::is_empty_at(b, i) <==> (
        cbor::pieces_end(b, j, 1, false, 0) matches Some((_, length)) && length == 0)),
        cbor::untagged_at(b, i) == Some((Shape::Text(left), j)) ==> !cbor::is_empty_at(b, i),
        cbor::untagged_at(b, i) == Some((Shape::Other, j)) ==> !cbor::is_empty_at(b, i),
{
}

} // verus!
