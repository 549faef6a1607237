//! Where the fields and items of JSON values begin.
//!
//! Only as much of JSON is told apart as it takes to pass over a value: strings, brackets, commas
//! and colons. Of a text that is JSON up to some place, what stands before that place is found
//! where it is.

use vstd::prelude::*;
use vstd::slice::slice_subrange;

use crate::text::{same_text, text_view};

verus! {

pub const QUOTE: u8 = 0x22;

pub const BACKSLASH: u8 = 0x5C;

pub const COMMA: u8 = 0x2C;

pub const COLON: u8 = 0x3A;

pub const OPEN_LIST: u8 = 0x5B;

pub const CLOSE_LIST: u8 = 0x5D;

pub const OPEN_OBJECT: u8 = 0x7B;

pub const CLOSE_OBJECT: u8 = 0x7D;

/// The text that a string of JSON stands for, quotes included, `None` where the bytes are none.
pub uninterp spec fn json_text(bytes: Seq<u8>) -> Option<Seq<char>>;

/// `serde_json::from_slice` into a `String`: the text is a function of the bytes.
#[verifier::external_body]
fn read_text(bytes: &[u8]) -> (r: Option<String>)
    ensures
        text_view(r) == json_text(bytes@),
{
    match serde_json::from_slice(bytes) {
        Ok(text) => Some(text),
        Err(_) => None,
    }
}

/// Positions as numbers.
pub open spec fn positions(list: Seq<usize>) -> Seq<int> {
    list.map_values(|i: usize| i as int)
}

/// Whether a byte is white space between the parts of a value.
pub open spec fn is_blank(c: u8) -> bool {
    c == 0x20 || c == 0x0A || c == 0x0D || c == 0x09
}

/// The first place from `i` on that holds no white space.
pub open spec fn after_blanks(b: Seq<u8>, i: int) -> int
    decreases b.len() - i,
{
    if 0 <= i < b.len() && is_blank(b[i]) {
        after_blanks(b, i + 1)
    } else {
        i
    }
}

/// The place after the string of which the part from `i` on is left.
pub open spec fn string_end(b: Seq<u8>, i: int) -> int
    decreases b.len() - i,
{
    if i < 0 || i >= b.len() {
        b.len() as int
    } else if b[i] == QUOTE {
        i + 1
    } else if b[i] == BACKSLASH && i + 1 < b.len() {
        string_end(b, i + 2)
    } else {
        string_end(b, i + 1)
    }
}

/// The place after the value of which the part from `i` on is left, with `depth` brackets open.
/// Outside brackets a value ends where a comma, a colon, a closing bracket or white space follows.
pub open spec fn value_end(b: Seq<u8>, i: int, depth: nat) -> int
    decreases b.len() - i,
{
    if i < 0 || i >= b.len() {
        b.len() as int
    } else if b[i] == QUOTE {
        proof {
            lemma_string_end(b, i + 1);
        }
        let end = string_end(b, i + 1);
        if depth == 0 {
            end
        } else {
            value_end(b, end, depth)
        }
    } else if b[i] == OPEN_LIST || b[i] == OPEN_OBJECT {
        value_end(b, i + 1, depth + 1)
    } else if b[i] == CLOSE_LIST || b[i] == CLOSE_OBJECT {
        if depth == 0 {
            i
        } else if depth == 1 {
            i + 1
        } else {
            value_end(b, i + 1, (depth - 1) as nat)
        }
    } else if depth == 0 && (b[i] == COMMA || b[i] == COLON || is_blank(b[i])) {
        i
    } else {
        value_end(b, i + 1, depth)
    }
}

/// White space ends within the text.
pub proof fn lemma_after_blanks(b: Seq<u8>, i: int)
    requires
        0 <= i <= b.len(),
    ensures
        i <= after_blanks(b, i) <= b.len(),
    decreases b.len() - i,
{
    if i < b.len() {
        lemma_after_blanks(b, i + 1);
    }
}

/// A string ends after where it is left, and within the text.
pub proof fn lemma_string_end(b: Seq<u8>, i: int)
    requires
        0 <= i,
    ensures
        i < b.len() ==> i < string_end(b, i),
        string_end(b, i) <= b.len(),
    decreases b.len() - i,
{
    if i < b.len() {
        lemma_string_end(b, i + 1);
        if i + 1 < b.len() {
            lemma_string_end(b, i + 2);
        }
    }
}

/// A value ends not before where it is left, and within the text.
pub proof fn lemma_value_end(b: Seq<u8>, i: int, depth: nat)
    requires
        0 <= i <= b.len(),
    ensures
        i <= value_end(b, i, depth) <= b.len(),
    decreases b.len() - i,
{
    if i < b.len() {
        lemma_string_end(b, i + 1);
        if b[i] == QUOTE {
            lemma_value_end(b, string_end(b, i + 1), depth);
        } else {
            lemma_value_end(b, i + 1, depth + 1);
            lemma_value_end(b, i + 1, depth);
            if depth > 0 {
                lemma_value_end(b, i + 1, (depth - 1) as nat);
            }
        }
    }
}

/// Where the values of that name begin, in the object of which the part from `i` on is left.
pub open spec fn named_values(b: Seq<u8>, i: int, name: Seq<char>) -> Seq<int>
    decreases b.len() - i,
{
    if i < 0 || i > b.len() {
        Seq::empty()
    } else {
        proof {
            lemma_after_blanks(b, i);
        }
        let k = after_blanks(b, i);
        if k == b.len() {
            Seq::empty()
        } else if b[k] == COMMA {
            named_values(b, k + 1, name)
        } else if b[k] == QUOTE {
            proof {
                lemma_string_end(b, k + 1);
                lemma_after_blanks(b, string_end(b, k + 1));
            }
            let end = string_end(b, k + 1);
            let colon = after_blanks(b, end);
            if colon < b.len() && b[colon] == COLON {
                proof {
                    lemma_after_blanks(b, colon + 1);
                    lemma_value_end(b, after_blanks(b, colon + 1), 0);
                }
                let start = after_blanks(b, colon + 1);
                let rest = named_values(b, value_end(b, start, 0), name);
                if json_text(b.subrange(k, end)) == Some(name) {
                    seq![start] + rest
                } else {
                    rest
                }
            } else {
                Seq::empty()
            }
        } else {
            Seq::empty()
        }
    }
}

/// Where the items begin, in the list of which the part from `i` on is left.
pub open spec fn list_items(b: Seq<u8>, i: int) -> Seq<int>
    decreases b.len() - i,
{
    if i < 0 || i > b.len() {
        Seq::empty()
    } else {
        proof {
            lemma_after_blanks(b, i);
        }
        let k = after_blanks(b, i);
        if k == b.len() {
            Seq::empty()
        } else if b[k] == COMMA {
            list_items(b, k + 1)
        } else {
            proof {
                lemma_value_end(b, k, 0);
            }
            let end = value_end(b, k, 0);
            if end > k {
                seq![k] + list_items(b, end)
            } else {
                Seq::empty()
            }
        }
    }
}

/// Where the items begin of the list that begins at `i`, if one does.
pub open spec fn items_at(b: Seq<u8>, i: int) -> Seq<int> {
    if 0 <= i < b.len() && b[i] == OPEN_LIST {
        list_items(b, i + 1)
    } else {
        Seq::empty()
    }
}

/// Where the fields begin of the record that begins at `i`: an object has them under their names,
/// a list at their positions.
pub open spec fn fields_at(b: Seq<u8>, i: int, name: Seq<char>, position: nat) -> Seq<int> {
    if 0 <= i < b.len() && b[i] == OPEN_OBJECT {
        named_values(b, i + 1, name)
    } else if position < items_at(b, i).len() {
        seq![items_at(b, i)[position as int]]
    } else {
        Seq::empty()
    }
}

/// The text of the string that begins at `i`, if one does.
pub open spec fn text_at(b: Seq<u8>, i: int) -> Option<Seq<char>> {
    if 0 <= i < b.len() && b[i] == QUOTE {
        json_text(b.subrange(i, string_end(b, i + 1)))
    } else {
        None
    }
}

fn blank(c: u8) -> (r: bool)
    ensures
        r == is_blank(c),
{
    c == 0x20 || c == 0x0A || c == 0x0D || c == 0x09
}

/// The first place from `from` on that holds no white space.
pub fn skip_blanks(b: &[u8], from: usize) -> (r: usize)
    requires
        from <= b@.len(),
    ensures
        r == after_blanks(b@, from as int),
        from <= r <= b@.len(),
{
    let mut i: usize = from;
    while i < b.len() && blank(b[i])
        invariant
            from <= i <= b@.len(),
            after_blanks(b@, i as int) == after_blanks(b@, from as int),
        decreases b@.len() - i,
    {
        i = i + 1;
    }
    i
}

/// The place after the string of which the part from `from` on is left.
fn skip_string(b: &[u8], from: usize) -> (r: usize)
    requires
        from <= b@.len(),
    ensures
        r == string_end(b@, from as int),
        from <= r <= b@.len(),
{
    let mut i: usize = from;
    while i < b.len()
        invariant
            from <= i <= b@.len(),
            string_end(b@, i as int) == string_end(b@, from as int),
        decreases b@.len() - i,
    {
        if b[i] == QUOTE {
            return i + 1;
        }
        if b[i] == BACKSLASH && b.len() - i >= 2 {
            i = i + 2;
        } else {
            i = i + 1;
        }
    }
    i
}

/// The place after the value that begins at `from`.
fn skip_value(b: &[u8], from: usize) -> (r: usize)
    requires
        from <= b@.len(),
    ensures
        r == value_end(b@, from as int, 0),
        from <= r <= b@.len(),
{
    let mut i: usize = from;
    let mut depth: usize = 0;
    while i < b.len()
        invariant
            from <= i <= b@.len(),
            depth <= i,
            value_end(b@, i as int, depth as nat) == value_end(b@, from as int, 0),
        decreases b@.len() - i,
    {
        let c: u8 = b[i];
        if c == QUOTE {
            i = skip_string(b, i + 1);
            if depth == 0 {
                return i;
            }
        } else if c == OPEN_LIST || c == OPEN_OBJECT {
            i = i + 1;
            depth = depth + 1;
        } else if c == CLOSE_LIST || c == CLOSE_OBJECT {
            if depth == 0 {
                return i;
            }
            i = i + 1;
            if depth == 1 {
                return i;
            }
            depth = depth - 1;
        } else if depth == 0 && (c == COMMA || c == COLON || blank(c)) {
            return i;
        } else {
            i = i + 1;
        }
    }
    i
}

/// Whether a string of JSON stands for that text.
fn is_string(bytes: &[u8], text: &str) -> (r: bool)
    ensures
        r == (json_text(bytes@) == Some(text@)),
{
    match read_text(bytes) {
        Some(found) => same_text(found.as_str(), text),
        None => false,
    }
}

/// Where the values of that name begin, in the object of which the part from `from` on is left.
fn find_named(b: &[u8], from: usize, name: &str) -> (r: Vec<usize>)
    requires
        from <= b@.len(),
    ensures
        positions(r@) == named_values(b@, from as int, name@),
        forall|i: int| 0 <= i < r@.len() ==> #[trigger] r@[i] <= b@.len(),
{
    let mut found: Vec<usize> = Vec::new();
    let mut i: usize = from;
    let ghost all = named_values(b@, from as int, name@);
    assert(positions(found@) + all =~= all);
    loop
        invariant
            i <= b@.len(),
            positions(found@) + named_values(b@, i as int, name@) == all,
            forall|k: int| 0 <= k < found@.len() ==> #[trigger] found@[k] <= b@.len(),
        ensures
            positions(found@) == all,
            forall|k: int| 0 <= k < found@.len() ==> #[trigger] found@[k] <= b@.len(),
        decreases b@.len() - i,
    {
        let ghost before = found@;
        let ghost rest_before = named_values(b@, i as int, name@);
        let k: usize = skip_blanks(b, i);
        if k < b.len() && b[k] == COMMA {
            i = k + 1;
            continue;
        }
        if k < b.len() && b[k] == QUOTE {
            let end: usize = skip_string(b, k + 1);
            let colon: usize = skip_blanks(b, end);
            if colon < b.len() && b[colon] == COLON {
                let start: usize = skip_blanks(b, colon + 1);
                let next: usize = skip_value(b, start);
                let ghost rest = named_values(b@, next as int, name@);
                if is_string(slice_subrange(b, k, end), name) {
                    found.push(start);
                    proof {
                        assert(rest_before == seq![start as int] + rest);
                        assert(positions(found@) =~= positions(before).push(start as int));
                        assert(positions(found@) + rest =~= positions(before) + (seq![
                            start as int,
                        ] + rest));
                    }
                } else {
                    assert(rest_before == rest);
                }
                i = next;
                continue;
            }
        }
        proof {
            assert(rest_before =~= Seq::<int>::empty());
            assert(positions(found@) + rest_before =~= positions(found@));
        }
        break;
    }
    found
}

/// Where the items begin of the list that begins at `at`, if one does.
pub fn find_items(b: &[u8], at: usize) -> (r: Vec<usize>)
    requires
        at <= b@.len(),
    ensures
        positions(r@) == items_at(b@, at as int),
        forall|i: int| 0 <= i < r@.len() ==> #[trigger] r@[i] <= b@.len(),
{
    let mut found: Vec<usize> = Vec::new();
    if at >= b.len() || b[at] != OPEN_LIST {
        assert(positions(found@) =~= Seq::<int>::empty());
        return found;
    }
    let mut i: usize = at + 1;
    let ghost all = list_items(b@, at + 1);
    assert(positions(found@) + all =~= all);
    loop
        invariant
            i <= b@.len(),
            positions(found@) + list_items(b@, i as int) == all,
            forall|k: int| 0 <= k < found@.len() ==> #[trigger] found@[k] <= b@.len(),
        ensures
            positions(found@) == all,
            forall|k: int| 0 <= k < found@.len() ==> #[trigger] found@[k] <= b@.len(),
        decreases b@.len() - i,
    {
        let ghost before = found@;
        let ghost rest_before = list_items(b@, i as int);
        let k: usize = skip_blanks(b, i);
        if k < b.len() && b[k] == COMMA {
            i = k + 1;
            continue;
        }
        if k < b.len() {
            let end: usize = skip_value(b, k);
            if end > k {
                let ghost rest = list_items(b@, end as int);
                found.push(k);
                proof {
                    assert(rest_before == seq![k as int] + rest);
                    assert(positions(found@) =~= positions(before).push(k as int));
                    assert(positions(found@) + rest =~= positions(before) + (seq![k as int]
                        + rest));
                }
                i = end;
                continue;
            }
        }
        proof {
            assert(rest_before =~= Seq::<int>::empty());
            assert(positions(found@) + rest_before =~= positions(found@));
        }
        break;
    }
    found
}

/// Where the fields begin of the record that begins at `at`.
pub fn find_fields(b: &[u8], at: usize, name: &str, position: usize) -> (r: Vec<usize>)
    requires
        at <= b@.len(),
    ensures
        positions(r@) == fields_at(b@, at as int, name@, position as nat),
        forall|i: int| 0 <= i < r@.len() ==> #[trigger] r@[i] <= b@.len(),
{
    if at < b.len() && b[at] == OPEN_OBJECT {
        return find_named(b, at + 1, name);
    }
    let items: Vec<usize> = find_items(b, at);
    let mut found: Vec<usize> = Vec::new();
    if position < items.len() {
        assert(positions(items@)[position as int] == items@[position as int]);
        found.push(items[position]);
    }
    assert(positions(found@) =~= fields_at(b@, at as int, name@, position as nat));
    found
}

/// The text of the string that begins at `at`, if one does.
pub fn find_text(b: &[u8], at: usize) -> (r: Option<String>)
    requires
        at <= b@.len(),
    ensures
        text_view(r) == text_at(b@, at as int),
{
    if at < b.len() && b[at] == QUOTE {
        let end: usize = skip_string(b, at + 1);
        read_text(slice_subrange(b, at, end))
    } else {
        None
    }
}

} // verus!
