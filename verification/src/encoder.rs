//! The payload encoder: from bytes to transport text, and from each symbol
//! of the text to the samples of its pattern and one separator.

use vstd::prelude::*;
use crate::alphabet::{pattern_of, Alphabet, SymbolPattern};
use crate::decoder::{decoded_payload, recovered_text};
use crate::error::CodecError;
use crate::handshake::handshake_samples;
use crate::laws::{lemma_rendered_levels, lemma_text_round_trip};
use crate::signal::{Sample, SignalUnit};
use crate::standard::covers_transport;
use crate::transport::{encodable_len, to_transport_text, transport_text};

verus! {

/// The samples of a pattern: one for each unit.
pub open spec fn render_pattern(pattern: Seq<SignalUnit>) -> Seq<Sample> {
    pattern.map_values(|unit: SignalUnit| Sample::of_unit(unit))
}

/// The samples of a transport text: for each symbol in order its pattern and
/// one separator. The first symbol without a pattern is reported.
pub open spec fn render_text(table: Seq<SymbolPattern>, text: Seq<char>) -> Result<
    Seq<Sample>,
    CodecError,
>
    decreases text.len(),
{
    if text.len() == 0 {
        Ok(Seq::empty())
    } else {
        match render_text(table, text.drop_last()) {
            Err(e) => Err(e),
            Ok(before) => match pattern_of(table, text.last()) {
                None => Err(CodecError::UnknownSymbol(text.last())),
                Some(pattern) => Ok(
                    before + render_pattern(pattern) + seq![Sample::separator_spec()],
                ),
            },
        }
    }
}

/// The stream of a payload: the handshake, if there is one, then the samples
/// of the payload's transport text.
pub open spec fn encoded_stream(
    table: Seq<SymbolPattern>,
    payload: Seq<u8>,
    preamble: Seq<Sample>,
) -> Result<Seq<Sample>, CodecError> {
    match render_text(table, transport_text(payload)) {
        Ok(samples) => Ok(preamble + samples),
        Err(e) => Err(e),
    }
}

/// The samples that a handshake stands for: none if there is no handshake.
pub open spec fn preamble_of(handshake: Option<Vec<Sample>>) -> Seq<Sample> {
    match handshake {
        Some(samples) => samples@,
        None => Seq::empty(),
    }
}

/// The table has a pattern for every symbol of the text.
pub open spec fn covers_text(table: Seq<SymbolPattern>, text: Seq<char>) -> bool {
    forall|i: int| 0 <= i < text.len() ==> pattern_of(table, #[trigger] text[i]) is Some
}

/// A text is rendered if and only if the table has a pattern for each of its
/// symbols.
pub proof fn lemma_render_succeeds(table: Seq<SymbolPattern>, text: Seq<char>)
    ensures
        render_text(table, text) is Ok <==> covers_text(table, text),
    decreases text.len(),
{
    if text.len() > 0 {
        let shorter = text.drop_last();
        lemma_render_succeeds(table, shorter);
        if covers_text(table, text) {
            assert forall|i: int| 0 <= i < shorter.len() implies pattern_of(
                table,
                #[trigger] shorter[i],
            ) is Some by {
                assert(shorter[i] == text[i]);
            }
            assert(pattern_of(table, text[text.len() - 1]) is Some);
        }
        if render_text(table, text) is Ok {
            assert forall|i: int| 0 <= i < text.len() implies pattern_of(
                table,
                #[trigger] text[i],
            ) is Some by {
                if i < shorter.len() {
                    assert(shorter[i] == text[i]);
                }
            }
        }
    }
}

/// A text that begins with a text that cannot be rendered cannot be rendered
/// either, for the same reason.
pub proof fn lemma_render_error_persists(table: Seq<SymbolPattern>, text: Seq<char>, n: int)
    requires
        0 <= n <= text.len(),
        render_text(table, text.take(n)) is Err,
    ensures
        render_text(table, text) == render_text(table, text.take(n)),
    decreases text.len() - n,
{
    if n < text.len() {
        assert(text.take(n + 1).drop_last() =~= text.take(n));
        lemma_render_error_persists(table, text, n + 1);
    } else {
        assert(text.take(n) =~= text);
    }
}

/// Appends the samples of `text` to `stream`.
fn append_rendering(text: &Vec<char>, alphabet: &Alphabet, stream: &mut Vec<Sample>) -> (r: Result<
    (),
    CodecError,
>)
    ensures
        match render_text(alphabet@, text@) {
            Ok(samples) => r is Ok && final(stream)@ == old(stream)@ + samples,
            Err(e) => r == Err::<(), CodecError>(e),
        },
{
    let ghost table = alphabet@;
    let ghost before = stream@;
    let ghost rendered: Seq<Sample> = Seq::empty();
    let mut i: usize = 0;
    assert(text@.take(0) =~= Seq::<char>::empty());
    while i < text.len()
        invariant
            i <= text.len(),
            table == alphabet@,
            render_text(table, text@.take(i as int)) == Ok::<Seq<Sample>, CodecError>(rendered),
            stream@ == before + rendered,
        decreases text.len() - i,
    {
        let symbol = text[i];
        assert(text@.take(i + 1).drop_last() =~= text@.take(i as int));
        assert(text@.take(i + 1).last() == symbol);
        match alphabet.pattern(symbol) {
            Err(e) => {
                proof {
                    lemma_render_error_persists(table, text@, i + 1);
                }
                return Err(e);
            },
            Ok(pattern) => {
                let ghost base = stream@;
                let mut k: usize = 0;
                while k < pattern.len()
                    invariant
                        k <= pattern.len(),
                        stream@ == base + render_pattern(pattern@).take(k as int),
                    decreases pattern.len() - k,
                {
                    stream.push(Sample::from_unit(pattern[k]));
                    k += 1;
                    assert(stream@ =~= base + render_pattern(pattern@).take(k as int));
                }
                stream.push(Sample::separator());
                proof {
                    assert(render_pattern(pattern@).take(k as int) =~= render_pattern(pattern@));
                    rendered = rendered + render_pattern(pattern@) + seq![Sample::separator_spec()];
                    assert(stream@ =~= before + rendered);
                }
            },
        }
        i += 1;
    }
    assert(text@.take(i as int) =~= text@);
    Ok(())
}

/// Renders a transport text as samples. Fails with `UnknownSymbol` on the
/// first symbol that the alphabet has no pattern for, and only then. Every
/// sample is one of the three levels, and the text is recovered from the
/// samples unchanged.
pub fn render(text: &Vec<char>, alphabet: &Alphabet) -> (r: Result<Vec<Sample>, CodecError>)
    ensures
        match render_text(alphabet@, text@) {
            Ok(samples) => r is Ok && r->Ok_0@ == samples,
            Err(e) => r == Err::<Vec<Sample>, CodecError>(e),
        },
        r is Ok <==> covers_text(alphabet@, text@),
        r is Ok ==> forall|i: int| 0 <= i < r->Ok_0@.len() ==> (#[trigger] r->Ok_0@[i]).is_level(),
        r is Ok ==> recovered_text(alphabet@, r->Ok_0@) == Ok::<Seq<char>, CodecError>(text@),
{
    let mut stream: Vec<Sample> = Vec::new();
    proof {
        use_type_invariant(alphabet);
        lemma_render_succeeds(alphabet@, text@);
    }
    match append_rendering(text, alphabet, &mut stream) {
        Ok(()) => {
            proof {
                assert(stream@ =~= render_text(alphabet@, text@)->Ok_0);
                lemma_rendered_levels(alphabet@, text@);
                lemma_text_round_trip(alphabet@, text@);
            }
            Ok(stream)
        },
        Err(e) => Err(e),
    }
}

/// Encodes a payload as a stream of samples: the handshake, if one is given,
/// then for each symbol of the payload's transport text the samples of its
/// pattern and one separator. The handshake is the one synthesized for
/// `sample_rate`; each unit of the payload takes one sample, whatever the
/// rate.
///
/// Fails with `UnknownSymbol` on the first symbol of the transport text that
/// the alphabet has no pattern for, and only then. Every sample after the
/// handshake is one of the three levels, and decoding the stream at the same
/// sample rate gives the payload back.
pub fn encode(
    payload: &Vec<u8>,
    sample_rate: u32,
    handshake: Option<Vec<Sample>>,
    alphabet: &Alphabet,
) -> (r: Result<Vec<Sample>, CodecError>)
    requires
        encodable_len(payload@.len()),
        handshake is Some ==> preamble_of(handshake).len() == handshake_samples(sample_rate),
    ensures
        match encoded_stream(alphabet@, payload@, preamble_of(handshake)) {
            Ok(samples) => r is Ok && r->Ok_0@ == samples,
            Err(e) => r == Err::<Vec<Sample>, CodecError>(e),
        },
        r is Ok <==> covers_text(alphabet@, transport_text(payload@)),
        covers_transport(alphabet@) ==> r is Ok,
        r is Ok ==> forall|i: int|
            preamble_of(handshake).len() <= i < r->Ok_0@.len() ==> (#[trigger] r->Ok_0@[i]).is_level(),
        r is Ok ==> decoded_payload(alphabet@, r->Ok_0@, sample_rate, handshake is Some) == Ok::<
            Seq<u8>,
            CodecError,
        >(payload@),
{
    let ghost table = alphabet@;
    let ghost preamble = preamble_of(handshake);
    let mut stream: Vec<Sample> = match handshake {
        Some(samples) => samples,
        None => Vec::new(),
    };
    let text = to_transport_text(payload);
    proof {
        use_type_invariant(alphabet);
        lemma_render_succeeds(table, text@);
    }
    match append_rendering(&text, alphabet, &mut stream) {
        Ok(()) => {
            proof {
                let rendered = render_text(table, text@)->Ok_0;
                lemma_rendered_levels(table, text@);
                lemma_text_round_trip(table, text@);
                assert(stream@.skip(preamble.len() as int) =~= rendered);
                assert forall|i: int| preamble.len() <= i < stream@.len() implies (#[trigger] stream@[
                    i
                ]).is_level() by {
                    assert(stream@[i] == rendered[i - preamble.len()]);
                }
            }
            Ok(stream)
        },
        Err(e) => Err(e),
    }
}

} // verus!
