//! Where the fields and items of CBOR values begin.
//!
//! Values are told apart by their heads alone, and what follows a head is passed over by its
//! length. Of bytes that are CBOR up to some place, what stands before that place is found where it
//! is.

use vstd::prelude::*;
use vstd::slice::slice_subrange;

use crate::bytes::same_bytes;
use crate::terminal_ux::json::positions;

verus! {

/// How deep maps and lists may stand in each other.
pub const MAX_DEPTH: usize = 256;

/// What the head of a value says, as a mathematical value. A length is `None` where the end is
/// marked instead. Numbers, truth values and null are all `Other`.
pub enum Shape {
    Bytes(Option<nat>),
    Text(Option<nat>),
    List(Option<nat>),
    Entries(Option<nat>),
    Tag,
    Break,
    Other,
}

/// What the head of a value says.
pub enum Head {
    Bytes(Option<usize>),
    Text(Option<usize>),
    List(Option<usize>),
    Entries(Option<usize>),
    Tag,
    Break,
    Other,
}

/// A length as a number.
pub open spec fn length_view(n: Option<usize>) -> Option<nat> {
    match n {
        Some(n) => Some(n as nat),
        None => None,
    }
}

impl View for Head {
    type V = Shape;

    open spec fn view(&self) -> Shape {
        match self {
            Head::Bytes(n) => Shape::Bytes(length_view(*n)),
            Head::Text(n) => Shape::Text(length_view(*n)),
            Head::List(n) => Shape::List(length_view(*n)),
            Head::Entries(n) => Shape::Entries(length_view(*n)),
            Head::Tag => Shape::Tag,
            Head::Break => Shape::Break,
            Head::Other => Shape::Other,
        }
    }
}

/// Whether a length that a head gives can be told on this machine.
pub open spec fn can_be_told(shape: Shape) -> bool {
    match shape {
        Shape::Bytes(Some(n)) => n <= usize::MAX,
        Shape::Text(Some(n)) => n <= usize::MAX,
        Shape::List(Some(n)) => n <= usize::MAX,
        Shape::Entries(Some(n)) => n <= usize::MAX,
        _ => true,
    }
}

/// The head that bytes begin with, and how long it is, `None` where they begin with none.
pub uninterp spec fn cbor_head(bytes: Seq<u8>) -> Option<(Shape, nat)>;

/// `ciborium_ll::Decoder::pull` on the bytes, and `offset` after it: head and length are functions
/// of the bytes, but a head is refused whose length is beyond the machine's. A head has at least
/// one byte, all of them among the bytes.
#[verifier::external_body]
fn read_head(bytes: &[u8]) -> (r: Option<(Head, usize)>)
    ensures
        match r {
            Some((head, n)) => cbor_head(bytes@) == Some((head@, n as nat)) && can_be_told(head@)
                && 0 < n <= bytes@.len(),
            None => cbor_head(bytes@) matches Some((shape, _)) ==> !can_be_told(shape),
        },
{
    let mut decoder = ciborium_ll::Decoder::from(bytes);
    let head = match decoder.pull() {
        Ok(ciborium_ll::Header::Bytes(n)) => Head::Bytes(n),
        Ok(ciborium_ll::Header::Text(n)) => Head::Text(n),
        Ok(ciborium_ll::Header::Array(n)) => Head::List(n),
        Ok(ciborium_ll::Header::Map(n)) => Head::Entries(n),
        Ok(ciborium_ll::Header::Tag(_)) => Head::Tag,
        Ok(ciborium_ll::Header::Break) => Head::Break,
        Ok(_) => Head::Other,
        Err(_) => return None,
    };
    Some((head, decoder.offset()))
}

/// The head that stands at `i`, and the place after it.
pub open spec fn head_at(b: Seq<u8>, i: int) -> Option<(Shape, int)> {
    if 0 <= i <= b.len() {
        match cbor_head(b.subrange(i, b.len() as int)) {
            Some((shape, n)) => if can_be_told(shape) && 0 < n <= b.len() - i {
                Some((shape, i + n))
            } else {
                None
            },
            None => None,
        }
    } else {
        None
    }
}

/// The head that stands at `i` after any tags, and the place after it.
pub open spec fn untagged_at(b: Seq<u8>, i: int) -> Option<(Shape, int)>
    decreases b.len() - i,
{
    match head_at(b, i) {
        Some((shape, j)) => if shape is Tag {
            untagged_at(b, j)
        } else {
            Some((shape, j))
        },
        None => None,
    }
}

/// The place after a string in pieces of which the part from `i` on is left, with `open` ends to
/// come, and how many bytes it has, `read` of them before `i`. Its pieces are texts, or else bytes.
pub open spec fn pieces_end(b: Seq<u8>, i: int, open: nat, text: bool, read: nat) -> Option<
    (int, nat),
>
    decreases b.len() - i,
{
    match head_at(b, i) {
        Some((Shape::Break, j)) => if open <= 1 {
            Some((j, read))
        } else {
            pieces_end(b, j, (open - 1) as nat, text, read)
        },
        Some((shape, j)) => match piece(shape, text) {
            Some(Some(n)) => if j + n <= b.len() {
                pieces_end(b, (j + n) as int, open, text, read + n)
            } else {
                None
            },
            Some(None) => pieces_end(b, j, open + 1, text, read),
            None => None,
        },
        None => None,
    }
}

/// The length that the head of a piece gives, if it is one of texts, or else of bytes.
pub open spec fn piece(shape: Shape, text: bool) -> Option<Option<nat>> {
    match shape {
        Shape::Bytes(n) => if text {
            None
        } else {
            Some(n)
        },
        Shape::Text(n) => if text {
            Some(n)
        } else {
            None
        },
        _ => None,
    }
}

/// The place after `n` bytes from `i` on, if there are so many.
pub open spec fn after_bytes(b: Seq<u8>, i: int, n: nat) -> Option<int> {
    if i + n <= b.len() {
        Some((i + n) as int)
    } else {
        None
    }
}

/// The place after a string of which the head gives the length `n` and stands before `i`.
pub open spec fn string_end(b: Seq<u8>, i: int, n: Option<nat>, text: bool) -> Option<int> {
    match n {
        Some(n) => after_bytes(b, i, n),
        None => match pieces_end(b, i, 1, text, 0) {
            Some((end, _)) => Some(end),
            None => None,
        },
    }
}

/// The place after the value that begins at `i`, where maps and lists stand in each other no more
/// than `depth` deep.
pub open spec fn value_end(b: Seq<u8>, i: int, depth: nat) -> Option<int>
    decreases depth, 0nat, 0int,
{
    match untagged_at(b, i) {
        Some((Shape::Bytes(n), j)) => string_end(b, j, n, false),
        Some((Shape::Text(n), j)) => string_end(b, j, n, true),
        Some((Shape::List(n), j)) => if depth == 0 {
            None
        } else {
            match n {
                Some(n) => values_end(b, j, n, (depth - 1) as nat),
                None => marked_end(b, j, (depth - 1) as nat),
            }
        },
        Some((Shape::Entries(n), j)) => if depth == 0 {
            None
        } else {
            match n {
                Some(n) => values_end(b, j, 2 * n, (depth - 1) as nat),
                None => marked_end(b, j, (depth - 1) as nat),
            }
        },
        Some((Shape::Other, j)) => Some(j),
        _ => None,
    }
}

/// The place after `n` values from `i` on.
pub open spec fn values_end(b: Seq<u8>, i: int, n: nat, depth: nat) -> Option<int>
    decreases depth, 1nat, n as int,
{
    if n == 0 {
        Some(i)
    } else {
        match value_end(b, i, depth) {
            Some(end) => values_end(b, end, (n - 1) as nat, depth),
            None => None,
        }
    }
}

/// The place after the values from `i` on, up to a mark of their end.
pub open spec fn marked_end(b: Seq<u8>, i: int, depth: nat) -> Option<int>
    decreases depth, 1nat, b.len() - i,
{
    match head_at(b, i) {
        Some((Shape::Break, j)) => Some(j),
        _ => match value_end(b, i, depth) {
            Some(end) => if i < end <= b.len() {
                marked_end(b, end, depth)
            } else {
                None
            },
            None => None,
        },
    }
}

/// One less of what is left, where that is known.
pub open spec fn less_one(left: Option<nat>) -> Option<nat> {
    match left {
        Some(n) => Some((n - 1) as nat),
        None => None,
    }
}

/// Where the values of that name begin, in the map of which `left` entries from `i` on are left. A
/// name is a text or bytes.
pub open spec fn named_values(b: Seq<u8>, i: int, left: Option<nat>, name: Seq<u8>) -> Seq<int>
    decreases b.len() - i,
{
    if left == Some(0nat) {
        Seq::empty()
    } else {
        match untagged_at(b, i) {
            Some((shape, j)) => match name_length(shape) {
                Some(n) => if i < j && j + n <= b.len() {
                    let start = (j + n) as int;
                    let rest = match value_end(b, start, MAX_DEPTH as nat) {
                        Some(end) => if start < end <= b.len() {
                            named_values(b, end, less_one(left), name)
                        } else {
                            Seq::empty()
                        },
                        None => Seq::empty(),
                    };
                    if b.subrange(j, start) == name {
                        seq![start] + rest
                    } else {
                        rest
                    }
                } else {
                    Seq::empty()
                },
                None => Seq::empty(),
            },
            None => Seq::empty(),
        }
    }
}

/// The length of a name, by its head.
pub open spec fn name_length(shape: Shape) -> Option<nat> {
    match shape {
        Shape::Text(n) => n,
        Shape::Bytes(n) => n,
        _ => None,
    }
}

/// Where the items begin, in the list of which `left` items from `i` on are left.
pub open spec fn list_items(b: Seq<u8>, i: int, left: Option<nat>) -> Seq<int>
    decreases b.len() - i,
{
    if left == Some(0nat) || left is None && is_mark(head_at(b, i)) {
        Seq::empty()
    } else {
        seq![i] + (match value_end(b, i, MAX_DEPTH as nat) {
            Some(end) => if i < end <= b.len() {
                list_items(b, end, less_one(left))
            } else {
                Seq::empty()
            },
            None => Seq::empty(),
        })
    }
}

/// Whether what stands at a place is the mark of an end.
pub open spec fn is_mark(head: Option<(Shape, int)>) -> bool {
    match head {
        Some((Shape::Break, _)) => true,
        _ => false,
    }
}

/// Where the items begin of the list that begins at `i`, if one does.
pub open spec fn items_at(b: Seq<u8>, i: int) -> Seq<int> {
    match untagged_at(b, i) {
        Some((Shape::List(left), j)) => list_items(b, j, left),
        _ => Seq::empty(),
    }
}

/// Where the fields of that name begin of the map that begins at `i`, if one does.
pub open spec fn fields_at(b: Seq<u8>, i: int, name: Seq<u8>) -> Seq<int> {
    match untagged_at(b, i) {
        Some((Shape::Entries(left), j)) => named_values(b, j, left, name),
        _ => Seq::empty(),
    }
}

/// Whether the value that begins at `i` is a string of no bytes or a list of no items.
pub open spec fn is_empty_at(b: Seq<u8>, i: int) -> bool {
    match untagged_at(b, i) {
        Some((Shape::Bytes(Some(n)), _)) => n == 0,
        Some((Shape::Bytes(None), j)) => match pieces_end(b, j, 1, false, 0) {
            Some((_, n)) => n == 0,
            None => false,
        },
        Some((Shape::List(Some(n)), _)) => n == 0,
        Some((Shape::List(None), j)) => is_mark(head_at(b, j)),
        _ => false,
    }
}

/// The head that stands at `i`, and the place after it.
fn find_head(b: &[u8], i: usize) -> (r: Option<(Head, usize)>)
    requires
        i <= b@.len(),
    ensures
        match r {
            Some((head, j)) => head_at(b@, i as int) == Some((head@, j as int)) && can_be_told(
                head@,
            ) && i < j <= b@.len(),
            None => head_at(b@, i as int) is None,
        },
{
    match read_head(slice_subrange(b, i, b.len())) {
        Some((head, n)) => Some((head, i + n)),
        None => None,
    }
}

/// The head that stands at `from` after any tags, and the place after it.
fn find_untagged(b: &[u8], from: usize) -> (r: Option<(Head, usize)>)
    requires
        from <= b@.len(),
    ensures
        match r {
            Some((head, j)) => untagged_at(b@, from as int) == Some((head@, j as int))
                && can_be_told(head@) && from < j <= b@.len() && !(head is Tag),
            None => untagged_at(b@, from as int) is None,
        },
{
    let mut i: usize = from;
    loop
        invariant
            from <= i <= b@.len(),
            untagged_at(b@, i as int) == untagged_at(b@, from as int),
        decreases b@.len() - i,
    {
        match find_head(b, i) {
            Some((Head::Tag, j)) => {
                i = j;
            },
            Some((head, j)) => {
                return Some((head, j));
            },
            None => {
                return None;
            },
        }
    }
}

/// The place after a string in pieces that begin at `from`, and how many bytes it has.
fn skip_pieces(b: &[u8], from: usize, text: bool) -> (r: Option<(usize, usize)>)
    requires
        from <= b@.len(),
    ensures
        match r {
            Some((end, n)) => pieces_end(b@, from as int, 1, text, 0) == Some(
                (end as int, n as nat),
            ) && from <= end <= b@.len(),
            None => pieces_end(b@, from as int, 1, text, 0) is None,
        },
{
    let mut i: usize = from;
    // the ends to come, but for the last
    let mut open: usize = 0;
    let mut read: usize = 0;
    loop
        invariant
            from <= i <= b@.len(),
            open <= i - from,
            read <= i,
            pieces_end(b@, i as int, (open + 1) as nat, text, read as nat) == pieces_end(
                b@,
                from as int,
                1,
                text,
                0,
            ),
        decreases b@.len() - i,
    {
        let (length, j): (Option<usize>, usize) = match find_head(b, i) {
            Some((Head::Break, j)) => {
                if open == 0 {
                    return Some((j, read));
                }
                open = open - 1;
                i = j;
                continue;
            },
            Some((Head::Bytes(n), j)) => {
                if text {
                    return None;
                }
                (n, j)
            },
            Some((Head::Text(n), j)) => {
                if !text {
                    return None;
                }
                (n, j)
            },
            _ => {
                return None;
            },
        };
        match length {
            Some(n) => {
                if n > b.len() - j {
                    return None;
                }
                read = read + n;
                i = j + n;
            },
            None => {
                open = open + 1;
                i = j;
            },
        }
    }
}

/// The place after a string of which the head gives the length `n` and stands before `from`.
fn skip_string(b: &[u8], from: usize, n: Option<usize>, text: bool) -> (r: Option<usize>)
    requires
        from <= b@.len(),
    ensures
        match r {
            Some(end) => string_end(b@, from as int, length_view(n), text) == Some(end as int)
                && from <= end <= b@.len(),
            None => string_end(b@, from as int, length_view(n), text) is None,
        },
{
    match n {
        Some(n) => if n <= b.len() - from {
            Some(from + n)
        } else {
            None
        },
        None => match skip_pieces(b, from, text) {
            Some((end, _)) => Some(end),
            None => None,
        },
    }
}

/// The place after the value that begins at `from`.
fn skip_value(b: &[u8], from: usize, depth: usize) -> (r: Option<usize>)
    requires
        from <= b@.len(),
    ensures
        match r {
            Some(end) => value_end(b@, from as int, depth as nat) == Some(end as int) && from < end
                <= b@.len(),
            None => value_end(b@, from as int, depth as nat) is None,
        },
    decreases depth, 0nat,
{
    match find_untagged(b, from) {
        Some((Head::Bytes(n), j)) => skip_string(b, j, n, false),
        Some((Head::Text(n), j)) => skip_string(b, j, n, true),
        Some((Head::List(n), j)) => {
            if depth == 0 {
                return None;
            }
            match n {
                Some(n) => skip_values(b, j, n as u128, depth - 1),
                None => skip_marked(b, j, depth - 1),
            }
        },
        Some((Head::Entries(n), j)) => {
            if depth == 0 {
                return None;
            }
            match n {
                Some(n) => skip_values(b, j, 2 * (n as u128), depth - 1),
                None => skip_marked(b, j, depth - 1),
            }
        },
        Some((Head::Other, j)) => Some(j),
        _ => None,
    }
}

/// The place after `n` values from `from` on.
fn skip_values(b: &[u8], from: usize, n: u128, depth: usize) -> (r: Option<usize>)
    requires
        from <= b@.len(),
    ensures
        match r {
            Some(end) => values_end(b@, from as int, n as nat, depth as nat) == Some(end as int)
                && from <= end <= b@.len(),
            None => values_end(b@, from as int, n as nat, depth as nat) is None,
        },
    decreases depth, 1nat,
{
    let mut i: usize = from;
    let mut left: u128 = n;
    while left > 0
        invariant
            from <= i <= b@.len(),
            values_end(b@, i as int, left as nat, depth as nat) == values_end(
                b@,
                from as int,
                n as nat,
                depth as nat,
            ),
        decreases left,
    {
        match skip_value(b, i, depth) {
            Some(end) => {
                i = end;
                left = left - 1;
            },
            None => {
                return None;
            },
        }
    }
    Some(i)
}

/// The place after the values from `from` on, up to a mark of their end.
fn skip_marked(b: &[u8], from: usize, depth: usize) -> (r: Option<usize>)
    requires
        from <= b@.len(),
    ensures
        match r {
            Some(end) => marked_end(b@, from as int, depth as nat) == Some(end as int) && from
                <= end <= b@.len(),
            None => marked_end(b@, from as int, depth as nat) is None,
        },
    decreases depth, 1nat,
{
    let mut i: usize = from;
    loop
        invariant
            from <= i <= b@.len(),
            marked_end(b@, i as int, depth as nat) == marked_end(b@, from as int, depth as nat),
        decreases b@.len() - i,
    {
        if let Some((Head::Break, j)) = find_head(b, i) {
            return Some(j);
        }
        match skip_value(b, i, depth) {
            Some(end) => {
                i = end;
            },
            None => {
                return None;
            },
        }
    }
}

/// One less of what is left, where that is known.
fn one_less(left: Option<usize>) -> (r: Option<usize>)
    requires
        left != Some(0usize),
    ensures
        length_view(r) == less_one(length_view(left)),
{
    match left {
        Some(n) => Some(n - 1),
        None => None,
    }
}

/// Where the items begin of the list that begins at `at`, if one does.
pub fn find_items(b: &[u8], at: usize) -> (r: Vec<usize>)
    requires
        at <= b@.len(),
    ensures
        positions(r@) == items_at(b@, at as int),
        forall|i: int| 0 <= i < r@.len() ==> #[trigger] r@[i] <= b@.len(),
{
    let mut found: Vec<usize> = Vec::new();
    assert(positions(found@) =~= Seq::<int>::empty());
    let (count, first): (Option<usize>, usize) = match find_untagged(b, at) {
        Some((Head::List(n), j)) => (n, j),
        _ => {
            return found;
        },
    };
    let mut i: usize = first;
    let mut left: Option<usize> = count;
    let ghost all = list_items(b@, first as int, length_view(count));
    assert(positions(found@) + all =~= all);
    loop
        invariant_except_break
            positions(found@) + list_items(b@, i as int, length_view(left)) == all,
        invariant
            i <= b@.len(),
            forall|k: int| 0 <= k < found@.len() ==> #[trigger] found@[k] <= b@.len(),
        ensures
            positions(found@) == all,
            forall|k: int| 0 <= k < found@.len() ==> #[trigger] found@[k] <= b@.len(),
        decreases b@.len() - i,
    {
        let ghost before = found@;
        let ghost rest_before = list_items(b@, i as int, length_view(left));
        let over: bool = match left {
            Some(n) => n == 0,
            None => match find_head(b, i) {
                Some((Head::Break, _)) => true,
                _ => false,
            },
        };
        if over {
            proof {
                assert(rest_before =~= Seq::<int>::empty());
                assert(positions(found@) + rest_before =~= positions(found@));
            }
            break;
        }
        found.push(i);
        assert(positions(found@) =~= positions(before).push(i as int));
        match skip_value(b, i, MAX_DEPTH) {
            Some(end) => {
                left = one_less(left);
                proof {
                    let rest = list_items(b@, end as int, length_view(left));
                    assert(rest_before == seq![i as int] + rest);
                    assert(positions(found@) + rest =~= positions(before) + (seq![i as int]
                        + rest));
                }
                i = end;
            },
            None => {
                proof {
                    assert(rest_before =~= seq![i as int]);
                    assert(positions(before) + rest_before =~= positions(found@));
                }
                break;
            },
        }
    }
    found
}

/// Where the fields of that name begin of the map that begins at `at`, if one does.
pub fn find_fields(b: &[u8], at: usize, name: &[u8]) -> (r: Vec<usize>)
    requires
        at <= b@.len(),
    ensures
        positions(r@) == fields_at(b@, at as int, name@),
        forall|i: int| 0 <= i < r@.len() ==> #[trigger] r@[i] <= b@.len(),
{
    let mut found: Vec<usize> = Vec::new();
    assert(positions(found@) =~= Seq::<int>::empty());
    let (count, first): (Option<usize>, usize) = match find_untagged(b, at) {
        Some((Head::Entries(n), j)) => (n, j),
        _ => {
            return found;
        },
    };
    let mut i: usize = first;
    let mut left: Option<usize> = count;
    let ghost all = named_values(b@, first as int, length_view(count), name@);
    assert(positions(found@) + all =~= all);
    loop
        invariant_except_break
            positions(found@) + named_values(b@, i as int, length_view(left), name@) == all,
        invariant
            i <= b@.len(),
            forall|k: int| 0 <= k < found@.len() ==> #[trigger] found@[k] <= b@.len(),
        ensures
            positions(found@) == all,
            forall|k: int| 0 <= k < found@.len() ==> #[trigger] found@[k] <= b@.len(),
        decreases b@.len() - i,
    {
        let ghost before = found@;
        let ghost rest_before = named_values(b@, i as int, length_view(left), name@);
        proof {
            assert(positions(found@) + Seq::<int>::empty() =~= positions(found@));
        }
        if let Some(0) = left {
            break;
        }
        let (length, j): (Option<usize>, usize) = match find_untagged(b, i) {
            Some((Head::Text(n), j)) => (n, j),
            Some((Head::Bytes(n), j)) => (n, j),
            _ => {
                break;
            },
        };
        let n: usize = match length {
            Some(n) => n,
            None => {
                break;
            },
        };
        if n > b.len() - j {
            break;
        }
        let start: usize = j + n;
        if same_bytes(slice_subrange(b, j, start), name) {
            found.push(start);
            assert(positions(found@) =~= positions(before).push(start as int));
        }
        match skip_value(b, start, MAX_DEPTH) {
            Some(end) => {
                left = one_less(left);
                proof {
                    let rest = named_values(b@, end as int, length_view(left), name@);
                    assert(positions(before).push(start as int) + rest =~= positions(before) + (
                    seq![start as int] + rest));
                }
                i = end;
            },
            None => {
                proof {
                    assert(positions(before).push(start as int) =~= positions(before) + (seq![
                        start as int,
                    ] + Seq::<int>::empty()));
                }
                break;
            },
        }
    }
    found
}

/// Whether the value that begins at `at` is a string of no bytes or a list of no items.
pub fn is_empty(b: &[u8], at: usize) -> (r: bool)
    requires
        at <= b@.len(),
    ensures
        r == is_empty_at(b@, at as int),
{
    match find_untagged(b, at) {
        Some((Head::Bytes(Some(n)), _)) => n == 0,
        Some((Head::Bytes(None), j)) => match skip_pieces(b, j, false) {
            Some((_, n)) => n == 0,
            None => false,
        },
        Some((Head::List(Some(n)), _)) => n == 0,
        Some((Head::List(None), j)) => match find_head(b, j) {
            Some((Head::Break, _)) => true,
            _ => false,
        },
        _ => false,
    }
}

} // verus!
