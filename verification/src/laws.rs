//! What holds between rendering and scanning: a rendered text is recovered
//! unchanged, and a rendered stream with the sign of one sample inverted is
//! never taken for the clean one.

use vstd::prelude::*;
use crate::alphabet::{injective, pattern_from, pattern_of, symbol_from, symbol_of, SymbolPattern};
use crate::decoder::{recovered_text, scan, ScanState};
use crate::encoder::{render_pattern, render_text};
use crate::error::CodecError;
use crate::signal::{Reading, Sample, SignalUnit, DOT_BITS};

verus! {

/// The number of samples that close a symbol.
pub open spec fn boundaries(samples: Seq<Sample>) -> nat
    decreases samples.len(),
{
    if samples.len() == 0 {
        0
    } else {
        boundaries(samples.drop_last()) + if samples.last().reading() == Reading::Boundary {
            1nat
        } else {
            0nat
        }
    }
}

/// `corrupted` is `clean` with the sign of sample `i` inverted, and that
/// sample is not a zero, whose sign carries nothing.
pub open spec fn is_sign_flip(clean: Seq<Sample>, corrupted: Seq<Sample>, i: int) -> bool {
    &&& 0 <= i < clean.len()
    &&& clean[i].bits != DOT_BITS
    &&& corrupted == clean.update(i, clean[i].flipped())
}

/// A forward lookup that succeeds names a row that holds the symbol and the
/// pattern.
proof fn lemma_pattern_row(table: Seq<SymbolPattern>, symbol: char, from: int) -> (i: int)
    requires
        0 <= from,
        pattern_from(table, symbol, from) is Some,
    ensures
        from <= i < table.len(),
        table[i].symbol == symbol,
        pattern_from(table, symbol, from) == Some(table[i].pattern),
    decreases table.len() - from,
{
    if table[from].symbol == symbol {
        from
    } else {
        lemma_pattern_row(table, symbol, from + 1)
    }
}

/// The reverse lookup finds row `i` if no earlier row holds its pattern.
proof fn lemma_symbol_row(table: Seq<SymbolPattern>, i: int, from: int)
    requires
        0 <= from <= i < table.len(),
        forall|j: int| from <= j < i ==> (#[trigger] table[j]).pattern != table[i].pattern,
    ensures
        symbol_from(table, table[i].pattern, from) == Some(table[i].symbol),
    decreases i - from,
{
    if from < i {
        assert(table[from].pattern != table[i].pattern);
        lemma_symbol_row(table, i, from + 1);
    }
}

/// The reverse mapping undoes the forward mapping: the pattern that an
/// injective table gives to a symbol resolves to that symbol.
pub proof fn lemma_reverse_of_forward(table: Seq<SymbolPattern>, symbol: char)
    requires
        injective(table),
        pattern_of(table, symbol) is Some,
    ensures
        symbol_of(table, pattern_of(table, symbol)->Some_0) == Some(symbol),
{
    let i = lemma_pattern_row(table, symbol, 0);
    assert forall|j: int| 0 <= j < i implies (#[trigger] table[j]).pattern != table[i].pattern by {
        assert(table[j].pattern != table[i].pattern);
    }
    lemma_symbol_row(table, i, 0);
}

/// Scanning the samples of a pattern gathers its units and resolves nothing.
pub proof fn lemma_scan_pattern(
    table: Seq<SymbolPattern>,
    samples: Seq<Sample>,
    pattern: Seq<SignalUnit>,
)
    requires
        scan(table, samples) is Ok,
    ensures
        scan(table, samples + render_pattern(pattern)) == Ok::<ScanState, CodecError>(
            ScanState {
                text: scan(table, samples)->Ok_0.text,
                pending: scan(table, samples)->Ok_0.pending + pattern,
            },
        ),
    decreases pattern.len(),
{
    let state = scan(table, samples)->Ok_0;
    if pattern.len() == 0 {
        assert(samples + render_pattern(pattern) =~= samples);
        assert(state.pending + pattern =~= state.pending);
    } else {
        let shorter = pattern.drop_last();
        lemma_scan_pattern(table, samples, shorter);
        let joined = samples + render_pattern(pattern);
        assert(joined.drop_last() =~= samples + render_pattern(shorter));
        assert(joined.last() == Sample::of_unit(pattern.last()));
        assert(joined.last().reading() == Reading::Unit(pattern.last()));
        assert((state.pending + shorter).push(pattern.last()) =~= state.pending + pattern);
    }
}

/// The round trip of the transport text: scanning the samples that an
/// injective table renders for a text resolves exactly that text and leaves
/// no unit behind.
pub proof fn lemma_text_round_trip(table: Seq<SymbolPattern>, text: Seq<char>)
    requires
        injective(table),
        render_text(table, text) is Ok,
    ensures
        scan(table, render_text(table, text)->Ok_0) == Ok::<ScanState, CodecError>(
            ScanState { text: text, pending: Seq::empty() },
        ),
        recovered_text(table, render_text(table, text)->Ok_0) == Ok::<Seq<char>, CodecError>(text),
    decreases text.len(),
{
    if text.len() == 0 {
        assert(text =~= Seq::<char>::empty());
    } else {
        let shorter = text.drop_last();
        let symbol = text.last();
        lemma_text_round_trip(table, shorter);
        let before = render_text(table, shorter)->Ok_0;
        let pattern = pattern_of(table, symbol)->Some_0;
        lemma_scan_pattern(table, before, pattern);
        lemma_reverse_of_forward(table, symbol);
        let stream = render_text(table, text)->Ok_0;
        assert(stream.drop_last() =~= before + render_pattern(pattern));
        assert(Seq::<SignalUnit>::empty() + pattern =~= pattern);
        assert(shorter.push(symbol) =~= text);
    }
}

/// Every sample that a text renders to is one of the three levels.
pub proof fn lemma_rendered_levels(table: Seq<SymbolPattern>, text: Seq<char>)
    requires
        render_text(table, text) is Ok,
    ensures
        forall|i: int|
            0 <= i < render_text(table, text)->Ok_0.len() ==> (#[trigger] render_text(
                table,
                text,
            )->Ok_0[i]).is_level(),
    decreases text.len(),
{
    if text.len() > 0 {
        lemma_rendered_levels(table, text.drop_last());
    }
}

/// A scan fails in one way only.
pub proof fn lemma_scan_error(table: Seq<SymbolPattern>, samples: Seq<Sample>)
    requires
        scan(table, samples) is Err,
    ensures
        scan(table, samples) == Err::<ScanState, CodecError>(CodecError::Irrecoverable),
    decreases samples.len(),
{
    if samples.len() > 0 && scan(table, samples.drop_last()) is Err {
        lemma_scan_error(table, samples.drop_last());
    }
}

/// A scan resolves one symbol for each separator.
pub proof fn lemma_scan_counts_boundaries(table: Seq<SymbolPattern>, samples: Seq<Sample>)
    requires
        scan(table, samples) is Ok,
    ensures
        scan(table, samples)->Ok_0.text.len() == boundaries(samples),
    decreases samples.len(),
{
    if samples.len() > 0 {
        lemma_scan_counts_boundaries(table, samples.drop_last());
    }
}

/// Inverting the sign of a sample that is a dash or a separator changes the
/// number of separators.
pub proof fn lemma_flip_changes_boundaries(samples: Seq<Sample>, i: int)
    requires
        0 <= i < samples.len(),
        samples[i].is_level(),
        samples[i].bits != DOT_BITS,
    ensures
        boundaries(samples.update(i, samples[i].flipped())) != boundaries(samples),
        boundaries(samples.update(i, samples[i].flipped())) <= boundaries(samples) + 1,
        boundaries(samples) <= boundaries(samples.update(i, samples[i].flipped())) + 1,
    decreases samples.len(),
{
    let changed = samples.update(i, samples[i].flipped());
    if i == samples.len() - 1 {
        assert(changed.drop_last() =~= samples.drop_last());
    } else {
        lemma_flip_changes_boundaries(samples.drop_last(), i);
        assert(changed.drop_last() =~= samples.drop_last().update(i, samples[i].flipped()));
    }
}

/// Corruption of the transport text is detected: if the sign of one dash or
/// separator of a rendered text is inverted, the scan either fails as
/// `Irrecoverable` or recovers a text of another length. It never recovers
/// the text that was rendered.
pub proof fn lemma_sign_flip_detected(
    table: Seq<SymbolPattern>,
    text: Seq<char>,
    corrupted: Seq<Sample>,
    i: int,
)
    requires
        injective(table),
        render_text(table, text) is Ok,
        is_sign_flip(render_text(table, text)->Ok_0, corrupted, i),
    ensures
        match recovered_text(table, corrupted) {
            Ok(other) => other.len() != text.len(),
            Err(e) => e == CodecError::Irrecoverable,
        },
{
    let clean = render_text(table, text)->Ok_0;
    lemma_text_round_trip(table, text);
    lemma_scan_counts_boundaries(table, clean);
    lemma_rendered_levels(table, text);
    lemma_flip_changes_boundaries(clean, i);
    if scan(table, corrupted) is Ok {
        lemma_scan_counts_boundaries(table, corrupted);
    } else {
        lemma_scan_error(table, corrupted);
    }
}

} // verus!
