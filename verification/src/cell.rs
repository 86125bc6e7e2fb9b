use vstd::prelude::*;
use vstd::string::*;

use crate::text::push_char;

verus! {

/// One worksheet cell, as the workbook reader hands it over.
///
/// The variants follow the reader's own cell kinds.  A floating-point
/// value (a plain number, or a date-time serial number) arrives already
/// written out in decimal by the caller: this library holds no floats.
#[derive(Clone, Debug, PartialEq, Eq)]
pub enum Cell {
    /// No value.
    Empty,
    /// A string.
    String(String),
    /// A floating-point number, written out in decimal.
    Float(String),
    /// An integer.
    Int(i64),
    /// A boolean.
    Bool(bool),
    /// A date-time serial number, written out in decimal.
    DateTime(String),
    /// A date-time in ISO 8601 text.
    DateTimeIso(String),
    /// A duration in ISO 8601 text.
    DurationIso(String),
    /// An error value such as `#DIV/0!`.
    Error,
}

/// The decimal digit character for `d` (`0 <= d < 10`).
pub open spec fn digit_char(d: nat) -> char {
    (d + 48) as char
}

/// The decimal digits of `n`, most significant first, without leading zeros.
pub open spec fn nat_digits(n: nat) -> Seq<char>
    decreases n,
{
    if n < 10 {
        seq![digit_char(n)]
    } else {
        nat_digits(n / 10).push(digit_char(n % 10))
    }
}

/// Every number has at least one digit.
pub proof fn lemma_nat_digits_nonempty(n: nat)
    ensures
        nat_digits(n).len() >= 1,
    decreases n,
{
    if n >= 10 {
        lemma_nat_digits_nonempty(n / 10);
    }
}

/// Different numbers have different decimal texts.
pub proof fn lemma_nat_digits_injective(a: nat, b: nat)
    requires
        nat_digits(a) == nat_digits(b),
    ensures
        a == b,
    decreases a,
{
    if a >= 10 {
        lemma_nat_digits_nonempty(a / 10);
    }
    if b >= 10 {
        lemma_nat_digits_nonempty(b / 10);
    }
    if a < 10 && b < 10 {
        assert(nat_digits(a)[0] == digit_char(a));
        assert(nat_digits(b)[0] == digit_char(b));
        assert(digit_char(a) as u32 == a + 48);
        assert(digit_char(b) as u32 == b + 48);
    } else if a >= 10 && b >= 10 {
        assert(nat_digits(a).drop_last() == nat_digits(a / 10));
        assert(nat_digits(b).drop_last() == nat_digits(b / 10));
        lemma_nat_digits_injective(a / 10, b / 10);
        assert(nat_digits(a).last() == digit_char(a % 10));
        assert(nat_digits(b).last() == digit_char(b % 10));
        assert(digit_char(a % 10) as u32 == a % 10 + 48);
        assert(digit_char(b % 10) as u32 == b % 10 + 48);
    } else if a >= 10 {
        assert(nat_digits(a).len() == nat_digits(a / 10).len() + 1);
        assert(nat_digits(b).len() == 1);
    } else {
        assert(nat_digits(b).len() == nat_digits(b / 10).len() + 1);
        assert(nat_digits(a).len() == 1);
    }
}

/// The decimal text of an integer: a minus sign for negative values, then
/// the digits of its magnitude.
pub open spec fn int_text(i: int) -> Seq<char> {
    if i < 0 {
        seq!['-'] + nat_digits((-i) as nat)
    } else {
        nat_digits(i as nat)
    }
}

/// The text that a cell contributes to a CSV record.
pub open spec fn cell_text(c: Cell) -> Seq<char> {
    match c {
        Cell::Empty => Seq::empty(),
        Cell::String(s) => s@,
        Cell::DateTimeIso(s) => s@,
        Cell::DurationIso(s) => s@,
        Cell::Int(i) => int_text(i as int),
        Cell::Float(s) => s@,
        Cell::DateTime(s) => s@,
        Cell::Bool(b) => if b { "true"@ } else { "false"@ },
        Cell::Error => "#ERROR"@,
    }
}

/// A cell that carries text, a string, a date-time or duration in ISO 8601,
/// or a number already written out, contributes exactly that text: nothing
/// is trimmed, quoted or changed.
pub proof fn law_text_cells_render_unchanged(s: String)
    ensures
        cell_text(Cell::String(s)) == s@,
        cell_text(Cell::DateTimeIso(s)) == s@,
        cell_text(Cell::DurationIso(s)) == s@,
        cell_text(Cell::Float(s)) == s@,
        cell_text(Cell::DateTime(s)) == s@,
{
}

/// The text of an integer holds a minus sign exactly for negative values,
/// followed by decimal digits only, with no leading zero but for zero itself.
pub proof fn law_int_text_is_decimal(i: int)
    ensures
        (int_text(i)[0] == '-') <==> i < 0,
        forall|k: int|
            (if i < 0 { 1int } else { 0int }) <= k < int_text(i).len() ==> '0' <= #[trigger] int_text(
                i,
            )[k] <= '9',
        int_text(i).len() > (if i < 0 { 1int } else { 0int }),
{
    let m: nat = if i < 0 { (-i) as nat } else { i as nat };
    lemma_nat_digits_shape(m);
    if i < 0 {
        assert(int_text(i) == seq!['-'] + nat_digits(m));
        assert forall|k: int| 1 <= k < int_text(i).len() implies '0' <= #[trigger] int_text(i)[k] <= '9' by {
            assert(int_text(i)[k] == nat_digits(m)[k - 1]);
        }
    } else {
        assert(nat_digits(m)[0] != '-');
    }
}

/// Every character of a number's digits is a decimal digit.
pub proof fn lemma_nat_digits_shape(n: nat)
    ensures
        nat_digits(n).len() >= 1,
        forall|k: int| 0 <= k < nat_digits(n).len() ==> '0' <= #[trigger] nat_digits(n)[k] <= '9',
    decreases n,
{
    if n >= 10 {
        lemma_nat_digits_shape(n / 10);
        assert forall|k: int| 0 <= k < nat_digits(n).len() implies '0' <= #[trigger] nat_digits(n)[k] <= '9' by {
            if k < nat_digits(n / 10).len() {
                assert(nat_digits(n)[k] == nat_digits(n / 10)[k]);
            } else {
                assert(nat_digits(n)[k] == digit_char(n % 10));
                assert(digit_char(n % 10) as u32 == n % 10 + 48);
            }
        }
    } else {
        assert(digit_char(n) as u32 == n + 48);
    }
}

/// Appends the decimal digits of `n` to `s`.
fn push_digits(s: &mut String, n: u64)
    ensures
        final(s)@ == old(s)@ + nat_digits(n as nat),
    decreases n,
{
    if n >= 10 {
        push_digits(s, n / 10);
    }
    let d: u8 = (n % 10) as u8;
    push_char(s, (d + 48) as char);
    assert(digit_char((n % 10) as nat) == (d + 48) as char);
    if n >= 10 {
        assert(nat_digits(n as nat) == nat_digits((n / 10) as nat).push(digit_char((n % 10) as nat)));
        assert(s@ =~= old(s)@ + nat_digits(n as nat));
    } else {
        assert(s@ =~= old(s)@ + nat_digits(n as nat));
    }
}

/// The decimal text of a count, as `to_string` writes it.
pub fn count_to_text(n: usize) -> (t: String)
    ensures
        t@ == nat_digits(n as nat),
{
    let mut t = String::new();
    push_digits(&mut t, n as u64);
    assert(t@ =~= nat_digits(n as nat));
    t
}

/// The decimal text of an integer, as `to_string` writes it.
pub fn int_to_text(i: i64) -> (t: String)
    ensures
        t@ == int_text(i as int),
{
    let mut t = String::new();
    if i < 0 {
        push_char(&mut t, '-');
        let magnitude: u64 = ((-(i + 1)) as u64) + 1;
        push_digits(&mut t, magnitude);
        assert(t@ =~= seq!['-'] + nat_digits((-(i as int)) as nat));
    } else {
        push_digits(&mut t, i as u64);
        assert(t@ =~= nat_digits(i as nat));
    }
    t
}

/// Renders a cell as CSV field text.
pub fn render_cell(c: &Cell) -> (t: String)
    ensures
        t@ == cell_text(*c),
{
    match c {
        Cell::Empty => String::new(),
        Cell::String(s) => s.clone(),
        Cell::DateTimeIso(s) => s.clone(),
        Cell::DurationIso(s) => s.clone(),
        Cell::Int(i) => int_to_text(*i),
        Cell::Float(s) => s.clone(),
        Cell::DateTime(s) => s.clone(),
        Cell::Bool(b) => if *b {
            String::from_str("true")
        } else {
            String::from_str("false")
        },
        Cell::Error => String::from_str("#ERROR"),
    }
}

} // verus!
