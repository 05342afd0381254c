//! Text renderings of level tables and of message bytes.

use vstd::prelude::*;

verus! {

/// The character of hexadecimal digit `d`, lower case.
pub open spec fn digit_spec(d: nat) -> char {
    if d < 10 {
        ((48 + d) as u8) as char
    } else {
        ((87 + d) as u8) as char
    }
}

/// The decimal digits of `n`, without leading zeros.
pub open spec fn decimal(n: nat) -> Seq<char>
    decreases n,
{
    if n < 10 {
        seq![digit_spec(n)]
    } else {
        decimal(n / 10).push(digit_spec(n % 10))
    }
}

/// `s` right-aligned in a field two characters wide.
pub open spec fn pad2(s: Seq<char>) -> Seq<char> {
    if s.len() < 2 {
        seq![' '] + s
    } else {
        s
    }
}

/// `k` asterisks.
pub open spec fn stars(k: nat) -> Seq<char> {
    Seq::new(k, |_i: int| '*')
}

/// The length of a level's bar: six characters for every full ten levels.
pub open spec fn bar_length(level: u8) -> nat {
    ((level / 10) * 6) as nat
}

/// One line of the chart: the harmonic number, a colon, and the level's bar.
pub open spec fn graph_line(index: nat, level: u8) -> Seq<char> {
    pad2(decimal(index)) + seq![':', ' '] + stars(bar_length(level)) + seq!['\n']
}

/// The chart of a table, harmonic 1 on the first line.
pub open spec fn vertical_graph(levels: Seq<u8>) -> Seq<char>
    decreases levels.len(),
{
    if levels.len() == 0 {
        seq![]
    } else {
        vertical_graph(levels.drop_last()) + graph_line(levels.len() as nat, levels.last())
    }
}

/// Byte `b` as two lower-case hexadecimal digits.
pub open spec fn hex_byte(b: u8) -> Seq<char> {
    seq![digit_spec((b / 16) as nat), digit_spec((b % 16) as nat)]
}

/// Each byte as two lower-case hexadecimal digits, separated by single spaces.
pub open spec fn hex_text(bytes: Seq<u8>) -> Seq<char>
    decreases bytes.len(),
{
    if bytes.len() == 0 {
        seq![]
    } else if bytes.len() == 1 {
        hex_byte(bytes[0])
    } else {
        hex_text(bytes.drop_last()) + seq![' '] + hex_byte(bytes.last())
    }
}

/// Relies on `String::push`: appends one character.
#[verifier::external_body]
fn push_char(s: &mut String, c: char)
    ensures
        final(s)@ == old(s)@.push(c),
{
    s.push(c);
}

fn digit_char(d: u8) -> (c: char)
    requires
        d < 16,
    ensures
        c == digit_spec(d as nat),
{
    if d < 10 {
        (48 + d) as char
    } else {
        (87 + d) as char
    }
}

proof fn lemma_decimal_len(n: nat)
    ensures
        decimal(n).len() >= 1,
        n >= 10 ==> decimal(n).len() >= 2,
    decreases n,
{
    if n >= 10 {
        lemma_decimal_len(n / 10);
    }
}

fn push_decimal(s: &mut String, n: usize)
    ensures
        final(s)@ == old(s)@ + decimal(n as nat),
    decreases n,
{
    if n >= 10 {
        push_decimal(s, n / 10);
    }
    push_char(s, digit_char((n % 10) as u8));
    assert(final(s)@ =~= old(s)@ + decimal(n as nat));
}

fn push_graph_line(s: &mut String, index: usize, level: u8)
    ensures
        final(s)@ == old(s)@ + graph_line(index as nat, level),
{
    proof {
        lemma_decimal_len(index as nat);
    }
    if index < 10 {
        push_char(s, ' ');
    }
    push_decimal(s, index);
    push_char(s, ':');
    push_char(s, ' ');
    let count: usize = (level as usize / 10) * 6;
    let mut k: usize = 0;
    let ghost head = s@;
    while k < count
        invariant
            k <= count,
            count == bar_length(level),
            s@ == head + stars(k as nat),
        decreases count - k,
    {
        push_char(s, '*');
        k = k + 1;
        assert(s@ =~= head + stars(k as nat));
    }
    push_char(s, '\n');
    assert(final(s)@ =~= old(s)@ + graph_line(index as nat, level));
}

/// The chart of a table: one line per harmonic, each with a bar whose length
/// grows with the level.
pub fn make_vertical_graph(levels: &[u8]) -> (r: String)
    ensures
        r@ == vertical_graph(levels@),
{
    let mut result = String::new();
    let mut i: usize = 0;
    while i < levels.len()
        invariant
            i <= levels@.len(),
            result@ == vertical_graph(levels@.subrange(0, i as int)),
        decreases levels@.len() - i,
    {
        push_graph_line(&mut result, i + 1, levels[i]);
        assert(levels@.subrange(0, i + 1).drop_last() =~= levels@.subrange(0, i as int));
        i = i + 1;
    }
    assert(levels@.subrange(0, i as int) =~= levels@);
    result
}

/// A horizontal chart of a table; this layout draws nothing.
#[allow(unused_variables)]
pub fn make_horizontal_graph(levels: &[u8]) -> (r: String)
    ensures
        r@ == Seq::<char>::empty(),
{
    String::new()
}

/// The chart of a table that is shown to the user: the vertical one.
pub fn make_graph(levels: &[u8]) -> (r: String)
    ensures
        r@ == vertical_graph(levels@),
{
    make_vertical_graph(levels)
}

/// The bytes as lower-case hexadecimal pairs separated by single spaces.
pub fn hex_line(bytes: &[u8]) -> (r: String)
    ensures
        r@ == hex_text(bytes@),
{
    let mut result = String::new();
    let mut i: usize = 0;
    while i < bytes.len()
        invariant
            i <= bytes@.len(),
            result@ == hex_text(bytes@.subrange(0, i as int)),
        decreases bytes@.len() - i,
    {
        let ghost before = result@;
        let b = bytes[i];
        if i > 0 {
            push_char(&mut result, ' ');
        }
        push_char(&mut result, digit_char(b / 16));
        push_char(&mut result, digit_char(b % 16));
        assert(bytes@.subrange(0, i + 1).drop_last() =~= bytes@.subrange(0, i as int));
        if i == 0 {
            assert(result@ =~= hex_text(bytes@.subrange(0, 1)));
        } else {
            assert(result@ =~= before + seq![' '] + hex_byte(b));
        }
        i = i + 1;
    }
    assert(bytes@.subrange(0, i as int) =~= bytes@);
    result
}

} // verus!
