//! How places in a text are written out.
use crate::outline::Position;
use crate::tree::{end_position, node_outline, start_position};
use tree_sitter::Node;
use vstd::prelude::*;
use vstd::string::StringExecFns;

verus! {

/// The character for a number below ten.
pub open spec fn digit(d: int) -> char {
    (('0' as int) + d) as char
}

/// A number in decimal notation.
pub open spec fn decimal(n: nat) -> Seq<char>
    decreases n,
{
    if n < 10 {
        seq![digit(n as int)]
    } else {
        decimal(n / 10).push(digit((n % 10) as int))
    }
}

/// A pair of positions, written from one: `[row:column - row:column]`.
pub open spec fn range_text(start: Position, end: Position) -> Seq<char> {
    "["@ + decimal((start.row + 1) as nat) + ":"@ + decimal((start.column + 1) as nat) + " - "@
        + decimal((end.row + 1) as nat) + ":"@ + decimal((end.column + 1) as nat) + "]"@
}

fn digit_text(d: u64) -> (text: &'static str)
    requires
        d < 10,
    ensures
        text@ == seq![digit(d as int)],
{
    proof {
        reveal_strlit("0");
        reveal_strlit("1");
        reveal_strlit("2");
        reveal_strlit("3");
        reveal_strlit("4");
        reveal_strlit("5");
        reveal_strlit("6");
        reveal_strlit("7");
        reveal_strlit("8");
        reveal_strlit("9");
    }
    match d {
        0 => "0",
        1 => "1",
        2 => "2",
        3 => "3",
        4 => "4",
        5 => "5",
        6 => "6",
        7 => "7",
        8 => "8",
        _ => "9",
    }
}

/// Appends a number in decimal notation.
pub fn push_decimal(out: &mut String, n: u64)
    ensures
        final(out)@ == old(out)@ + decimal(n as nat),
    decreases n,
{
    if n < 10 {
        out.append(digit_text(n));
    } else {
        push_decimal(out, n / 10);
        out.append(digit_text(n % 10));
        assert(out@ =~= old(out)@ + decimal(n as nat));
    }
}

/// Writes out a pair of positions.
pub fn format_range(start: Position, end: Position) -> (text: String)
    ensures
        text@ == range_text(start, end),
{
    let mut text = String::new();
    text.append("[");
    push_decimal(&mut text, start.row as u64 + 1);
    text.append(":");
    push_decimal(&mut text, start.column as u64 + 1);
    text.append(" - ");
    push_decimal(&mut text, end.row as u64 + 1);
    text.append(":");
    push_decimal(&mut text, end.column as u64 + 1);
    text.append("]");
    assert(text@ =~= range_text(start, end));
    text
}

/// Writes out where a node starts and ends.
pub fn format_node_range(node: &Node<'_>) -> (text: String)
    ensures
        text@ == range_text(
            node_outline(*node).rows[0].node.start,
            node_outline(*node).rows[0].node.end,
        ),
{
    let start = start_position(node);
    let end = end_position(node);
    format_range(start, end)
}

/// The number that a text of decimal digits stands for.
pub open spec fn numeral_value(text: Seq<char>) -> int
    decreases text.len(),
{
    if text.len() == 0 {
        0
    } else {
        numeral_value(text.drop_last()) * 10 + (text.last() as int - '0' as int)
    }
}

/// Whether a character is a decimal digit.
pub open spec fn is_digit(c: char) -> bool {
    '0' <= c <= '9'
}

/// A number in decimal notation is made of digits only, has no needless zero in front, and read
/// digit by digit gives the number back.
pub proof fn law_decimal_reads_back(n: nat)
    ensures
        decimal(n).len() > 0,
        forall|i: int| 0 <= i < decimal(n).len() ==> is_digit(#[trigger] decimal(n)[i]),
        decimal(n).len() > 1 ==> decimal(n)[0] != '0',
        n > 0 ==> decimal(n)[0] != '0',
        numeral_value(decimal(n)) == n,
    decreases n,
{
    reveal_with_fuel(numeral_value, 2);
    if n >= 10 {
        law_decimal_reads_back(n / 10);
        assert(decimal(n).drop_last() =~= decimal(n / 10));
    } else {
        assert(decimal(n).drop_last() =~= Seq::<char>::empty());
    }
}

/// Two different numbers are written differently.
pub proof fn law_decimal_tells_numbers_apart(n: nat, m: nat)
    requires
        n != m,
    ensures
        decimal(n) != decimal(m),
{
    law_decimal_reads_back(n);
    law_decimal_reads_back(m);
}

/// A pair of positions is written in brackets, the start before the end, the row of each before
/// its column, and each of the four numbers counted from one.
pub proof fn law_range_text_parts(start: Position, end: Position) -> (parts: (
    Seq<char>,
    Seq<char>,
    Seq<char>,
    Seq<char>,
))
    ensures
        range_text(start, end) == seq!['['] + parts.0 + seq![':'] + parts.1 + seq![' ', '-', ' ']
            + parts.2 + seq![':'] + parts.3 + seq![']'],
        forall|i: int| 0 <= i < parts.0.len() ==> is_digit(#[trigger] parts.0[i]),
        forall|i: int| 0 <= i < parts.1.len() ==> is_digit(#[trigger] parts.1[i]),
        forall|i: int| 0 <= i < parts.2.len() ==> is_digit(#[trigger] parts.2[i]),
        forall|i: int| 0 <= i < parts.3.len() ==> is_digit(#[trigger] parts.3[i]),
        parts.0.len() > 0 && parts.0[0] != '0',
        parts.1.len() > 0 && parts.1[0] != '0',
        parts.2.len() > 0 && parts.2[0] != '0',
        parts.3.len() > 0 && parts.3[0] != '0',
        numeral_value(parts.0) == start.row + 1,
        numeral_value(parts.1) == start.column + 1,
        numeral_value(parts.2) == end.row + 1,
        numeral_value(parts.3) == end.column + 1,
{
    let parts = (
        decimal((start.row + 1) as nat),
        decimal((start.column + 1) as nat),
        decimal((end.row + 1) as nat),
        decimal((end.column + 1) as nat),
    );
    reveal_strlit("[");
    reveal_strlit(":");
    reveal_strlit(" - ");
    reveal_strlit("]");
    law_decimal_reads_back((start.row + 1) as nat);
    law_decimal_reads_back((start.column + 1) as nat);
    law_decimal_reads_back((end.row + 1) as nat);
    law_decimal_reads_back((end.column + 1) as nat);
    assert("["@ =~= seq!['[']);
    assert(":"@ =~= seq![':']);
    assert(" - "@ =~= seq![' ', '-', ' ']);
    assert("]"@ =~= seq![']']);
    parts
}

/// Where digits end in two equal texts, they end at the same place.
proof fn lemma_digits_end(a: Seq<char>, rest_a: Seq<char>, b: Seq<char>, rest_b: Seq<char>)
    requires
        forall|i: int| 0 <= i < a.len() ==> is_digit(#[trigger] a[i]),
        forall|i: int| 0 <= i < b.len() ==> is_digit(#[trigger] b[i]),
        rest_a.len() > 0 && !is_digit(rest_a[0]),
        rest_b.len() > 0 && !is_digit(rest_b[0]),
        a + rest_a == b + rest_b,
    ensures
        a == b,
        rest_a == rest_b,
{
    let whole = a + rest_a;
    if a.len() < b.len() {
        assert(whole[a.len() as int] == rest_a[0]);
        assert(whole[a.len() as int] == b[a.len() as int]);
    } else if b.len() < a.len() {
        assert(whole[b.len() as int] == a[b.len() as int]);
        assert(whole[b.len() as int] == rest_b[0]);
    }
    assert(a =~= whole.take(a.len() as int));
    assert(b =~= whole.take(b.len() as int));
    assert(rest_a =~= whole.skip(a.len() as int));
    assert(rest_b =~= whole.skip(b.len() as int));
}

/// Two pairs of positions that are written alike are the same.
pub proof fn law_range_text_tells_places_apart(
    start: Position,
    end: Position,
    other_start: Position,
    other_end: Position,
)
    requires
        range_text(start, end) == range_text(other_start, other_end),
    ensures
        start == other_start,
        end == other_end,
{
    let p = law_range_text_parts(start, end);
    let q = law_range_text_parts(other_start, other_end);
    let colon = seq![':'];
    let dash = seq![' ', '-', ' '];
    let close = seq![']'];
    let p3 = p.3 + close;
    let q3 = q.3 + close;
    let p2 = p.2 + (colon + p3);
    let q2 = q.2 + (colon + q3);
    let p1 = p.1 + (dash + p2);
    let q1 = q.1 + (dash + q2);
    let p0 = p.0 + (colon + p1);
    let q0 = q.0 + (colon + q1);
    assert(range_text(start, end) =~= seq!['['] + p0);
    assert(range_text(other_start, other_end) =~= seq!['['] + q0);
    assert(p0 =~= (seq!['['] + p0).skip(1));
    assert(q0 =~= (seq!['['] + q0).skip(1));
    lemma_digits_end(p.0, colon + p1, q.0, colon + q1);
    assert(p1 =~= (colon + p1).skip(1));
    assert(q1 =~= (colon + q1).skip(1));
    lemma_digits_end(p.1, dash + p2, q.1, dash + q2);
    assert(p2 =~= (dash + p2).skip(3));
    assert(q2 =~= (dash + q2).skip(3));
    lemma_digits_end(p.2, colon + p3, q.2, colon + q3);
    assert(p3 =~= (colon + p3).skip(1));
    assert(q3 =~= (colon + q3).skip(1));
    lemma_digits_end(p.3, close, q.3, close);
}

} // verus!
