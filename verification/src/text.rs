//! Text: decimal numbers, padding, comparison and concatenation.

use vstd::prelude::*;

verus! {

/// The texts of a list of strings.
pub open spec fn texts(list: Seq<String>) -> Seq<Seq<char>> {
    list.map_values(|s: String| s@)
}

/// An optional string as an optional text.
pub open spec fn text_view(s: Option<String>) -> Option<Seq<char>> {
    match s {
        Some(text) => Some(text@),
        None => None,
    }
}

/// An optional text, or another one in its place.
pub open spec fn text_or(text: Option<Seq<char>>, otherwise: Seq<char>) -> Seq<char> {
    match text {
        Some(t) => t,
        None => otherwise,
    }
}

/// The texts `f(0)`, ..., `f(n - 1)`, one after the other.
pub open spec fn concat_rows(n: nat, f: spec_fn(int) -> Seq<char>) -> Seq<char>
    decreases n,
{
    if n == 0 {
        Seq::empty()
    } else {
        concat_rows((n - 1) as nat, f) + f(n - 1)
    }
}

/// The character of a digit below ten.
pub open spec fn digit_char(d: nat) -> char {
    (('0' as u8) + d) as u8 as char
}

/// A number in decimal, without leading zeros.
pub open spec fn decimal_text(n: nat) -> Seq<char>
    decreases n,
{
    if n < 10 {
        seq![digit_char(n)]
    } else {
        decimal_text(n / 10).push(digit_char(n % 10))
    }
}

/// The text of one digit.
fn digit_text(d: u128) -> (r: &'static str)
    requires
        d < 10,
    ensures
        r@ == seq![digit_char(d as nat)],
{
    proof {
        reveal_strlit("0");
        reveal_strlit("1");
        reveal_strlit("2");
        reveal_strlit("3");
        reveal_strlit("4");
        reveal_strlit("5");
        reveal_strlit("6");
        reveal_strlit("7");
        reveal_strlit("8");
        reveal_strlit("9");
    }
    let r: &'static str = if d == 0 {
        "0"
    } else if d == 1 {
        "1"
    } else if d == 2 {
        "2"
    } else if d == 3 {
        "3"
    } else if d == 4 {
        "4"
    } else if d == 5 {
        "5"
    } else if d == 6 {
        "6"
    } else if d == 7 {
        "7"
    } else if d == 8 {
        "8"
    } else {
        "9"
    };
    assert(r@ =~= seq![digit_char(d as nat)]);
    r
}

/// A number in decimal.
pub fn decimal(n: u128) -> (r: String)
    ensures
        r@ == decimal_text(n as nat),
    decreases n,
{
    if n < 10 {
        digit_text(n).to_string()
    } else {
        let mut text: String = decimal(n / 10);
        let ghost head = text@;
        text.append(digit_text(n % 10));
        assert(text@ =~= head.push(digit_char((n % 10) as nat)));
        text
    }
}

/// A number below a hundred, in two digits.
pub open spec fn two_digits(n: nat) -> Seq<char> {
    seq![digit_char(n / 10), digit_char(n % 10)]
}

/// A number below a hundred, in two digits.
pub fn pad_two(n: u8) -> (r: String)
    requires
        n < 100,
    ensures
        r@ == two_digits(n as nat),
{
    let wide: u128 = n as u128;
    let mut text: String = digit_text(wide / 10).to_string();
    text.append(digit_text(wide % 10));
    assert(text@ =~= two_digits(n as nat));
    text
}

/// A run of spaces.
pub open spec fn blank(n: nat) -> Seq<char> {
    Seq::new(n, |i: int| ' ')
}

/// A run of spaces.
pub fn spaces(n: usize) -> (r: String)
    ensures
        r@ == blank(n as nat),
{
    let mut text: String = String::new();
    let mut i: usize = 0;
    assert(text@ =~= blank(0));
    while i < n
        invariant
            i <= n,
            text@ == blank(i as nat),
        decreases n - i,
    {
        proof {
            reveal_strlit(" ");
        }
        text.append(" ");
        i = i + 1;
        assert(text@ =~= blank(i as nat));
    }
    text
}

/// Whether two texts are the same.
pub fn same_text(a: &str, b: &str) -> (r: bool)
    ensures
        r == (a@ == b@),
{
    a.to_string() == b.to_string()
}

/// Whether a text begins with another.
pub open spec fn has_prefix(text: Seq<char>, prefix: Seq<char>) -> bool {
    prefix.len() <= text.len() && text.subrange(0, prefix.len() as int) == prefix
}

/// Whether a text begins with another.
pub fn starts_with(text: &str, prefix: &str) -> (r: bool)
    ensures
        r == has_prefix(text@, prefix@),
{
    let n: usize = prefix.unicode_len();
    if n > text.unicode_len() {
        return false;
    }
    same_text(text.substring_char(0, n), prefix)
}

/// The concatenation of three texts.
pub fn join3(a: &str, b: &str, c: &str) -> (r: String)
    ensures
        r@ == a@ + b@ + c@,
{
    let mut text: String = a.to_string();
    text.append(b);
    text.append(c);
    text
}

/// Rows of which the first `n` are those of one list and the others those of another are the rows
/// of the two lists, one after the other.
pub proof fn rows_join(
    n: nat,
    m: nat,
    f: spec_fn(int) -> Seq<char>,
    g: spec_fn(int) -> Seq<char>,
    h: spec_fn(int) -> Seq<char>,
)
    requires
        forall|i: int| 0 <= i < n ==> #[trigger] h(i) == f(i),
        forall|i: int| n <= i < n + m ==> #[trigger] h(i) == g(i - n),
    ensures
        concat_rows(n + m, h) == concat_rows(n, f) + concat_rows(m, g),
    decreases n + m,
{
    if m > 0 {
        rows_join(n, (m - 1) as nat, f, g, h);
        let last = n + m - 1;
        assert(h(last) == g(last - n));
        assert(concat_rows(n, f) + concat_rows(m, g) =~= concat_rows(n, f) + concat_rows(
            (m - 1) as nat,
            g,
        ) + g(m - 1));
    } else if n > 0 {
        rows_join((n - 1) as nat, 0, f, g, h);
        assert(h(n - 1) == f(n - 1));
        assert(concat_rows(n, f) + concat_rows(0, g) =~= concat_rows(n, f));
        assert(concat_rows((n - 1) as nat, f) + concat_rows(0, g) =~= concat_rows(
            (n - 1) as nat,
            f,
        ));
    } else {
        assert(concat_rows(0, h) =~= concat_rows(0, f) + concat_rows(0, g));
    }
}

/// A number is written in digits, with no zero in front but for zero itself.
pub proof fn numbers_are_written_in_digits(n: nat)
    ensures
        decimal_text(n).len() > 0,
        forall|i: int| 0 <= i < decimal_text(n).len() ==> '0' <= #[trigger] decimal_text(n)[i] <= '9',
        n > 0 ==> decimal_text(n)[0] != '0',
        n < 10 ==> decimal_text(n).len() == 1,
        n >= 10 ==> decimal_text(n).len() == decimal_text(n / 10).len() + 1,
        decimal_text(n).last() as nat == '0' as nat + n % 10,
        n >= 10 ==> decimal_text(n).drop_last() == decimal_text(n / 10),
    decreases n,
{
    lemma_digit(n % 10);
    if n >= 10 {
        numbers_are_written_in_digits(n / 10);
        assert(decimal_text(n).drop_last() =~= decimal_text(n / 10));
    }
}

proof fn lemma_digit(d: nat)
    requires
        d < 10,
    ensures
        '0' <= digit_char(d) <= '9',
        digit_char(d) as nat == '0' as nat + d,
{
}

/// Different numbers are written differently.
pub proof fn numbers_are_told_apart(a: nat, b: nat)
    requires
        decimal_text(a) == decimal_text(b),
    ensures
        a == b,
    decreases a,
{
    numbers_are_written_in_digits(a);
    numbers_are_written_in_digits(b);
    if a >= 10 {
        numbers_are_written_in_digits(a / 10);
        numbers_are_told_apart(a / 10, b / 10);
    } else if b >= 10 {
        numbers_are_written_in_digits(b / 10);
    }
}

/// A number below a hundred takes two digits, the first of them zero where one would do.
pub proof fn two_digits_pad_with_zero(n: nat)
    requires
        n < 100,
    ensures
        two_digits(n) == (if n < 10 {
            seq!['0'] + decimal_text(n)
        } else {
            decimal_text(n)
        }),
{
    reveal_with_fuel(decimal_text, 3);
    lemma_digit(n % 10);
    lemma_digit(n / 10);
    if n < 10 {
        assert(two_digits(n) =~= seq!['0'] + decimal_text(n));
    } else {
        assert(two_digits(n) =~= decimal_text(n));
    }
}

/// A text begins with another exactly when it is that one and something more.
pub proof fn prefixes_are_what_comes_first(text: Seq<char>, prefix: Seq<char>, rest: Seq<char>)
    ensures
        has_prefix(prefix + rest, prefix),
        has_prefix(text, prefix) <==> exists|more: Seq<char>| text == #[trigger] (prefix + more),
{
    assert((prefix + rest).subrange(0, prefix.len() as int) =~= prefix);
    if has_prefix(text, prefix) {
        let more = text.subrange(prefix.len() as int, text.len() as int);
        assert(text =~= prefix + more);
    }
    if exists|more: Seq<char>| text == #[trigger] (prefix + more) {
        let more = choose|more: Seq<char>| text == #[trigger] (prefix + more);
        assert(text.subrange(0, prefix.len() as int) =~= prefix);
    }
}

/// A run of spaces is as long as it says, and holds nothing else.
pub proof fn blanks_are_spaces(n: nat, m: nat)
    ensures
        blank(n).len() == n,
        forall|i: int| 0 <= i < n ==> #[trigger] blank(n)[i] == ' ',
        blank(n + m) == blank(n) + blank(m),
{
    assert(blank(n + m) =~= blank(n) + blank(m));
}

/// No rows are nothing, one row is that row, and one row more comes last.
pub proof fn rows_come_one_after_the_other(n: nat, f: spec_fn(int) -> Seq<char>)
    ensures
        concat_rows(0, f) == Seq::<char>::empty(),
        concat_rows(1, f) == f(0),
        concat_rows(n + 1, f) == concat_rows(n, f) + f(n as int),
{
    reveal_with_fuel(concat_rows, 2);
    assert(Seq::<char>::empty() + f(0) =~= f(0));
}

/// A text that is there is used as it is, and another one only where there is none.
pub proof fn texts_are_replaced_only_where_missing(text: Seq<char>, otherwise: Seq<char>)
    ensures
        text_or(Some(text), otherwise) == text,
        text_or(None, otherwise) == otherwise,
{
}

} // verus!
