//! The standard alphabet: a pattern for each of the 65 symbols of the
//! transport text. It follows Morse code for the upper-case letters and the
//! digits where it can, and gives every lower-case letter a pattern of its
//! own, since the transport text tells `A` from `a`.

use vstd::prelude::*;
use crate::alphabet::{
    injective, pattern_from, pattern_of, table_view, Alphabet, AlphabetEntry, SymbolPattern,
};
use crate::error::CodecError;
use crate::signal::SignalUnit;

verus! {

/// The number of transport symbols: 64 digits and the padding symbol.
pub const SYMBOL_COUNT: usize = 65;

/// The pattern of each transport symbol, in the order of `transport_symbol`.
/// A pattern is written as a binary number: a leading one, then one bit for
/// each unit, first unit first, `1` for a dash and `0` for a dot.
pub const PATTERN_CODES: [u8; SYMBOL_COUNT] = [
    // A B C D E F G H I
    0b1_01, 0b1_1000, 0b1_1010, 0b1_100, 0b1_0, 0b1_0010, 0b1_110, 0b1_0000, 0b1_00,
    // J K L M N O P Q R
    0b1_0111, 0b1_101, 0b1_0100, 0b1_11, 0b1_10, 0b1_111, 0b1_0110, 0b1_1101, 0b1_010,
    // S T U V W X Y Z
    0b1_000, 0b1_1, 0b1_001, 0b1_0001, 0b1_011, 0b1_1001, 0b1_1011, 0b1_1100,
    // a b c d e f g
    0b1_11010, 0b1_10101, 0b1_01100, 0b1_100100, 0b1_001000, 0b1_11101, 0b1_01110,
    // h i j k l m n
    0b1_00101, 0b1_0010010, 0b1_00100, 0b1_101001, 0b1_1110010, 0b1_010100, 0b1_100101,
    // o p q r s t u
    0b1_11100, 0b1_100110, 0b1_001010, 0b1_01001, 0b1_110110, 0b1_0011010, 0b1_0101001,
    // v w x y z
    0b1_100010, 0b1_0110010, 0b1_110010, 0b1_0010111, 0b1_0101010,
    // 0 1 2 3 4 5 6
    0b1_11111, 0b1_01111, 0b1_00111, 0b1_00011, 0b1_00001, 0b1_00000, 0b1_10000,
    // 7 8 9
    0b1_11000, 0b1_111001, 0b1_11110,
    // + / =
    0b1_01010, 0b1_10010, 0b1_10001,
];

/// The transport symbol with the given index: `A` to `Z`, `a` to `z`, `0` to
/// `9`, `+`, `/`, and last the padding symbol `=`.
pub open spec fn transport_symbol_at(index: int) -> char {
    if index < 26 {
        ((65 + index) as u8) as char
    } else if index < 52 {
        ((97 + index - 26) as u8) as char
    } else if index < 62 {
        ((48 + index - 52) as u8) as char
    } else if index == 62 {
        '+'
    } else if index == 63 {
        '/'
    } else {
        '='
    }
}

/// `symbol` is one of the 65 symbols of the transport text.
pub open spec fn is_transport_symbol(symbol: char) -> bool {
    exists|index: int| 0 <= index < 65 && #[trigger] transport_symbol_at(index) == symbol
}

/// The pattern that a code stands for.
pub open spec fn code_pattern(code: nat) -> Seq<SignalUnit>
    decreases code,
{
    if code <= 1 {
        Seq::empty()
    } else {
        code_pattern(code / 2).push(
            if code % 2 == 1 {
                SignalUnit::Dash
            } else {
                SignalUnit::Dot
            },
        )
    }
}

/// The code that stands for a pattern.
pub open spec fn pattern_code(pattern: Seq<SignalUnit>) -> nat
    decreases pattern.len(),
{
    if pattern.len() == 0 {
        1
    } else {
        2 * pattern_code(pattern.drop_last()) + if pattern.last() == SignalUnit::Dash {
            1nat
        } else {
            0nat
        }
    }
}

/// The table has a pattern for every symbol of the transport text.
pub open spec fn covers_transport(table: Seq<SymbolPattern>) -> bool {
    forall|symbol: char| is_transport_symbol(symbol) ==> pattern_of(table, symbol) is Some
}

/// The rows of the standard alphabet.
pub open spec fn standard_rows() -> Seq<SymbolPattern> {
    Seq::new(
        65,
        |i: int|
            SymbolPattern {
                symbol: transport_symbol_at(i),
                pattern: code_pattern(PATTERN_CODES[i] as nat),
            },
    )
}

/// A code is found again from its pattern.
pub proof fn lemma_code_of_pattern(code: nat)
    requires
        code >= 1,
    ensures
        pattern_code(code_pattern(code)) == code,
    decreases code,
{
    if code > 1 {
        lemma_code_of_pattern(code / 2);
        let unit = if code % 2 == 1 {
            SignalUnit::Dash
        } else {
            SignalUnit::Dot
        };
        assert(code_pattern(code).drop_last() =~= code_pattern(code / 2));
        assert(code_pattern(code).last() == unit);
    }
}

/// The transport symbol with the given index.
pub fn transport_symbol(index: u8) -> (symbol: char)
    requires
        index < 65,
    ensures
        symbol == transport_symbol_at(index as int),
{
    if index < 26 {
        (65u8 + index) as char
    } else if index < 52 {
        (97u8 + (index - 26)) as char
    } else if index < 62 {
        (48u8 + (index - 52)) as char
    } else if index == 62 {
        '+'
    } else if index == 63 {
        '/'
    } else {
        '='
    }
}

/// Appends the units of the pattern that `code` stands for.
fn push_code_units(code: u8, pattern: &mut Vec<SignalUnit>)
    ensures
        final(pattern)@ == old(pattern)@ + code_pattern(code as nat),
    decreases code,
{
    if code > 1 {
        push_code_units(code / 2, pattern);
        let unit = if code % 2 == 1 {
            SignalUnit::Dash
        } else {
            SignalUnit::Dot
        };
        pattern.push(unit);
        assert(pattern@ =~= old(pattern)@ + code_pattern(code as nat));
    } else {
        assert(pattern@ =~= old(pattern)@ + code_pattern(code as nat));
    }
}

/// The pattern that `code` stands for.
pub fn pattern_from_code(code: u8) -> (pattern: Vec<SignalUnit>)
    ensures
        pattern@ == code_pattern(code as nat),
{
    let mut pattern: Vec<SignalUnit> = Vec::new();
    push_code_units(code, &mut pattern);
    assert(pattern@ =~= code_pattern(code as nat));
    pattern
}

/// The forward table of the standard alphabet, not yet validated.
pub fn standard_table() -> (table: Vec<AlphabetEntry>)
    ensures
        table_view(table@) == standard_rows(),
{
    let mut table: Vec<AlphabetEntry> = Vec::new();
    let mut i: u8 = 0;
    while i < 65
        invariant
            i <= 65,
            table@.len() == i,
            forall|k: int| 0 <= k < i ==> (#[trigger] table@[k])@ == standard_rows()[k],
        decreases 65 - i,
    {
        let entry = AlphabetEntry {
            symbol: transport_symbol(i),
            pattern: pattern_from_code(PATTERN_CODES[i as usize]),
        };
        table.push(entry);
        i += 1;
    }
    assert(table_view(table@) =~= standard_rows());
    table
}

/// No two rows of the standard alphabet hold the same symbol.
pub proof fn lemma_standard_symbols_distinct()
    ensures
        forall|i: int, j: int|
            0 <= i < j < 65 ==> #[trigger] transport_symbol_at(i) != #[trigger] transport_symbol_at(j),
{
}

/// No two symbols of the standard alphabet have the same pattern.
pub proof fn lemma_standard_injective()
    ensures
        injective(standard_rows()),
{
    let rows = standard_rows();
    assert forall|i: int, j: int| 0 <= i < j < rows.len() implies (#[trigger] rows[i]).pattern
        != (#[trigger] rows[j]).pattern by {
        assert(PATTERN_CODES[i] != PATTERN_CODES[j]);
        assert(PATTERN_CODES[i] >= 1 && PATTERN_CODES[j] >= 1);
        lemma_code_of_pattern(PATTERN_CODES[i] as nat);
        lemma_code_of_pattern(PATTERN_CODES[j] as nat);
    }
}

/// The forward lookup gives the pattern of row `i` if no earlier row holds
/// its symbol.
proof fn lemma_first_row(table: Seq<SymbolPattern>, i: int, from: int)
    requires
        0 <= from <= i < table.len(),
        forall|j: int| from <= j < i ==> (#[trigger] table[j]).symbol != table[i].symbol,
    ensures
        pattern_from(table, table[i].symbol, from) == Some(table[i].pattern),
    decreases i - from,
{
    if from < i {
        assert(table[from].symbol != table[i].symbol);
        lemma_first_row(table, i, from + 1);
    }
}

/// The standard alphabet gives each transport symbol the pattern that its
/// code stands for.
pub proof fn lemma_standard_pattern(index: int)
    requires
        0 <= index < 65,
    ensures
        pattern_of(standard_rows(), transport_symbol_at(index)) == Some(
            code_pattern(PATTERN_CODES[index] as nat),
        ),
{
    let rows = standard_rows();
    lemma_standard_symbols_distinct();
    assert forall|j: int| 0 <= j < index implies (#[trigger] rows[j]).symbol
        != rows[index].symbol by {
        assert(transport_symbol_at(j) != transport_symbol_at(index));
    }
    lemma_first_row(rows, index, 0);
}

/// The standard alphabet is total: it has a pattern for every symbol of the
/// transport text.
pub proof fn lemma_standard_covers()
    ensures
        covers_transport(standard_rows()),
{
    assert forall|symbol: char| is_transport_symbol(symbol) implies pattern_of(
        standard_rows(),
        symbol,
    ) is Some by {
        let index = choose|index: int|
            0 <= index < 65 && #[trigger] transport_symbol_at(index) == symbol;
        lemma_standard_pattern(index);
    }
}

/// The standard alphabet is injective on symbols: two distinct transport
/// symbols never have the same pattern.
pub proof fn lemma_standard_patterns_distinct(x: char, y: char)
    requires
        is_transport_symbol(x),
        is_transport_symbol(y),
        x != y,
    ensures
        pattern_of(standard_rows(), x) is Some,
        pattern_of(standard_rows(), y) is Some,
        pattern_of(standard_rows(), x) != pattern_of(standard_rows(), y),
{
    let i = choose|index: int| 0 <= index < 65 && #[trigger] transport_symbol_at(index) == x;
    let j = choose|index: int| 0 <= index < 65 && #[trigger] transport_symbol_at(index) == y;
    lemma_standard_pattern(i);
    lemma_standard_pattern(j);
    lemma_standard_injective();
    let rows = standard_rows();
    if i < j {
        assert(rows[i].pattern != rows[j].pattern);
    } else {
        assert(rows[j].pattern != rows[i].pattern);
    }
}

impl Alphabet {
    /// Builds the standard alphabet and validates it as any other table.
    /// The validation never fails: the table is proved free of collisions.
    pub fn build() -> (r: Result<Alphabet, CodecError>)
        ensures
            r is Ok,
            r->Ok_0@ == standard_rows(),
    {
        proof {
            lemma_standard_injective();
        }
        Alphabet::from_table(standard_table())
    }
}

} // verus!
