//! The symbol alphabet: which pattern of dots and dashes stands for which
//! symbol of the transport text, and back.

use vstd::prelude::*;
use crate::error::CodecError;
use crate::signal::SignalUnit;

verus! {

/// One row of an alphabet table.
#[derive(Clone, Debug, PartialEq, Eq)]
pub struct AlphabetEntry {
    pub symbol: char,
    pub pattern: Vec<SignalUnit>,
}

/// A row of an alphabet table as contracts see it.
pub struct SymbolPattern {
    pub symbol: char,
    pub pattern: Seq<SignalUnit>,
}

impl View for AlphabetEntry {
    type V = SymbolPattern;

    open spec fn view(&self) -> SymbolPattern {
        SymbolPattern { symbol: self.symbol, pattern: self.pattern@ }
    }
}

/// The rows of a table, each by its view.
pub open spec fn table_view(entries: Seq<AlphabetEntry>) -> Seq<SymbolPattern> {
    entries.map_values(|e: AlphabetEntry| e@)
}

/// No two rows of the table share a pattern.
pub open spec fn injective(table: Seq<SymbolPattern>) -> bool {
    forall|i: int, j: int|
        0 <= i < j < table.len() ==> (#[trigger] table[i]).pattern != (#[trigger] table[j]).pattern
}

/// Row `i` has the pattern of another row.
pub open spec fn collides(table: Seq<SymbolPattern>, i: int) -> bool {
    exists|j: int| 0 <= j < table.len() && j != i && (#[trigger] table[j]).pattern == table[i].pattern
}

/// The symbols of the colliding rows among the first `n`, in table order.
pub open spec fn colliding_among(table: Seq<SymbolPattern>, n: nat) -> Seq<char>
    decreases n,
{
    if n == 0 {
        Seq::empty()
    } else {
        let before = colliding_among(table, (n - 1) as nat);
        if collides(table, n - 1) {
            before.push(table[n - 1].symbol)
        } else {
            before
        }
    }
}

/// The symbols of all colliding rows, in table order.
pub open spec fn colliding_symbols(table: Seq<SymbolPattern>) -> Seq<char> {
    colliding_among(table, table.len())
}

/// The pattern of the first row at or after `from` that holds `symbol`.
pub open spec fn pattern_from(table: Seq<SymbolPattern>, symbol: char, from: int) -> Option<
    Seq<SignalUnit>,
>
    decreases table.len() - from,
{
    if from < 0 || from >= table.len() {
        None
    } else if table[from].symbol == symbol {
        Some(table[from].pattern)
    } else {
        pattern_from(table, symbol, from + 1)
    }
}

/// The forward mapping: the pattern that the table gives to `symbol`.
pub open spec fn pattern_of(table: Seq<SymbolPattern>, symbol: char) -> Option<Seq<SignalUnit>> {
    pattern_from(table, symbol, 0)
}

/// The symbol of the first row at or after `from` that holds `pattern`.
pub open spec fn symbol_from(table: Seq<SymbolPattern>, pattern: Seq<SignalUnit>, from: int) -> Option<
    char,
>
    decreases table.len() - from,
{
    if from < 0 || from >= table.len() {
        None
    } else if table[from].pattern == pattern {
        Some(table[from].symbol)
    } else {
        symbol_from(table, pattern, from + 1)
    }
}

/// The reverse mapping: the symbol that the table gives to `pattern`.
pub open spec fn symbol_of(table: Seq<SymbolPattern>, pattern: Seq<SignalUnit>) -> Option<char> {
    symbol_from(table, pattern, 0)
}

/// Tells whether two patterns are the same sequence of units.
pub fn patterns_equal(a: &Vec<SignalUnit>, b: &Vec<SignalUnit>) -> (same: bool)
    ensures
        same == (a@ == b@),
{
    if a.len() != b.len() {
        return false;
    }
    let mut i: usize = 0;
    while i < a.len()
        invariant
            i <= a.len(),
            a.len() == b.len(),
            forall|k: int| 0 <= k < i ==> a@[k] == b@[k],
        decreases a.len() - i,
    {
        if a[i] != b[i] {
            return false;
        }
        i += 1;
    }
    assert(a@ =~= b@);
    true
}


/// A table without colliding rows flags no symbol, and only such a table.
pub proof fn lemma_flagged_iff_collision(table: Seq<SymbolPattern>, n: nat)
    requires
        n <= table.len(),
    ensures
        colliding_among(table, n).len() == 0 <==> forall|i: int| 0 <= i < n ==> !collides(table, i),
    decreases n,
{
    if n > 0 {
        lemma_flagged_iff_collision(table, (n - 1) as nat);
    }
}

/// Injectivity says the same as: no row collides.
pub proof fn lemma_injective_iff_no_collision(table: Seq<SymbolPattern>)
    ensures
        injective(table) <==> forall|i: int| 0 <= i < table.len() ==> !collides(table, i),
{
    if injective(table) {
        assert forall|i: int| 0 <= i < table.len() implies !collides(table, i) by {
            if collides(table, i) {
                let j = choose|j: int|
                    0 <= j < table.len() && j != i && (#[trigger] table[j]).pattern
                        == table[i].pattern;
                if i < j {
                    assert(table[i].pattern != table[j].pattern);
                } else {
                    assert(table[j].pattern != table[i].pattern);
                }
            }
        }
    }
    if forall|i: int| 0 <= i < table.len() ==> !collides(table, i) {
        assert forall|i: int, j: int| 0 <= i < j < table.len() implies (#[trigger] table[i]).pattern
            != (#[trigger] table[j]).pattern by {
            assert(!collides(table, i));
        }
    }
}

/// Tells whether another row of the table has the pattern of row `i`.
fn has_twin(table: &Vec<AlphabetEntry>, i: usize) -> (hit: bool)
    requires
        i < table.len(),
    ensures
        hit == collides(table_view(table@), i as int),
{
    let ghost rows = table_view(table@);
    let mut j: usize = 0;
    while j < table.len()
        invariant
            j <= table.len(),
            i < table.len(),
            rows == table_view(table@),
            forall|k: int| 0 <= k < j && k != i ==> (#[trigger] rows[k]).pattern != rows[i as int].pattern,
        decreases table.len() - j,
    {
        if j != i && patterns_equal(&table[j].pattern, &table[i].pattern) {
            assert(rows[j as int].pattern == rows[i as int].pattern);
            return true;
        }
        j += 1;
    }
    false
}

/// The self-check: lists, in table order, the symbol of every row whose
/// pattern another row has too. The table is fit for use only if the list is
/// empty.
pub fn check_collisions(table: &Vec<AlphabetEntry>) -> (flagged: Vec<char>)
    ensures
        flagged@ == colliding_symbols(table_view(table@)),
        flagged@.len() == 0 <==> injective(table_view(table@)),
{
    let ghost rows = table_view(table@);
    let mut flagged: Vec<char> = Vec::new();
    let mut i: usize = 0;
    while i < table.len()
        invariant
            i <= table.len(),
            rows == table_view(table@),
            flagged@ == colliding_among(rows, i as nat),
        decreases table.len() - i,
    {
        if has_twin(table, i) {
            flagged.push(table[i].symbol);
        }
        i += 1;
    }
    proof {
        lemma_flagged_iff_collision(rows, rows.len());
        lemma_injective_iff_no_collision(rows);
    }
    flagged
}

/// A validated alphabet: a table in which no two rows share a pattern, so
/// that every pattern it renders can be resolved again.
#[derive(Debug)]
pub struct Alphabet {
    entries: Vec<AlphabetEntry>,
}

impl View for Alphabet {
    type V = Seq<SymbolPattern>;

    closed spec fn view(&self) -> Seq<SymbolPattern> {
        table_view(self.entries@)
    }
}

impl Alphabet {
    /// What holds of every alphabet: no two of its rows share a pattern.
    #[verifier::type_invariant]
    pub open spec fn well_formed(&self) -> bool {
        injective(self@)
    }

    /// Validates a table. It is accepted if and only if no two of its rows
    /// share a pattern. A symbol that stands in several rows keeps the
    /// pattern of the first.
    pub fn from_table(table: Vec<AlphabetEntry>) -> (r: Result<Alphabet, CodecError>)
        ensures
            injective(table_view(table@)) ==> r is Ok && r->Ok_0@ == table_view(table@),
            !injective(table_view(table@)) ==> r == Err::<Alphabet, CodecError>(
                CodecError::AlphabetCollision,
            ),
    {
        let flagged = check_collisions(&table);
        if flagged.len() == 0 {
            Ok(Alphabet { entries: table })
        } else {
            Err(CodecError::AlphabetCollision)
        }
    }

    /// The rows of the table, none of which shares its pattern with another.
    pub fn entries(&self) -> (rows: &Vec<AlphabetEntry>)
        ensures
            table_view(rows@) == self@,
            injective(self@),
    {
        proof {
            use_type_invariant(self);
        }
        &self.entries
    }

    /// The forward lookup: the pattern of `symbol`, or `UnknownSymbol` if no
    /// row holds it.
    pub fn pattern(&self, symbol: char) -> (r: Result<&Vec<SignalUnit>, CodecError>)
        ensures
            match pattern_of(self@, symbol) {
                Some(p) => r is Ok && r->Ok_0@ == p,
                None => r == Err::<&Vec<SignalUnit>, CodecError>(CodecError::UnknownSymbol(symbol)),
            },
    {
        let ghost rows = self@;
        let mut i: usize = 0;
        while i < self.entries.len()
            invariant
                i <= self.entries.len(),
                rows == table_view(self.entries@),
                pattern_of(rows, symbol) == pattern_from(rows, symbol, i as int),
            decreases self.entries.len() - i,
        {
            if self.entries[i].symbol == symbol {
                return Ok(&self.entries[i].pattern);
            }
            i += 1;
        }
        Err(CodecError::UnknownSymbol(symbol))
    }

    /// The reverse lookup: the symbol whose pattern is `pattern`, or
    /// `Irrecoverable` if no row holds it.
    pub fn symbol(&self, pattern: &Vec<SignalUnit>) -> (r: Result<char, CodecError>)
        ensures
            r == match symbol_of(self@, pattern@) {
                Some(c) => Ok::<char, CodecError>(c),
                None => Err::<char, CodecError>(CodecError::Irrecoverable),
            },
    {
        let ghost rows = self@;
        let mut i: usize = 0;
        while i < self.entries.len()
            invariant
                i <= self.entries.len(),
                rows == table_view(self.entries@),
                symbol_of(rows, pattern@) == symbol_from(rows, pattern@, i as int),
            decreases self.entries.len() - i,
        {
            if patterns_equal(&self.entries[i].pattern, pattern) {
                return Ok(self.entries[i].symbol);
            }
            i += 1;
        }
        Err(CodecError::Irrecoverable)
    }
}

} // verus!
