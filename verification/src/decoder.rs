//! The sample-stream decoder: from the signs of the samples back to the
//! transport text, and from the text to the payload.

use vstd::prelude::*;
use crate::alphabet::{symbol_of, Alphabet, SymbolPattern};
use crate::error::CodecError;
use crate::handshake::{handshake_length, handshake_samples};
use crate::signal::{Reading, Sample, SignalUnit};
use crate::encoder::render_text;
use crate::laws::{is_sign_flip, lemma_sign_flip_detected};
use crate::transport::{from_transport_text, transport_bytes, transport_text};

verus! {

/// Where the decoder stands after some samples: the text resolved so far,
/// and the units gathered since the last separator.
pub struct ScanState {
    pub text: Seq<char>,
    pub pending: Seq<SignalUnit>,
}

/// The state after all `samples`, or `Irrecoverable` if a separator closed
/// a pattern that the table does not hold.
pub open spec fn scan(table: Seq<SymbolPattern>, samples: Seq<Sample>) -> Result<
    ScanState,
    CodecError,
>
    decreases samples.len(),
{
    if samples.len() == 0 {
        Ok(ScanState { text: Seq::empty(), pending: Seq::empty() })
    } else {
        match scan(table, samples.drop_last()) {
            Err(e) => Err(e),
            Ok(state) => match samples.last().reading() {
                Reading::Unit(unit) => Ok(
                    ScanState { text: state.text, pending: state.pending.push(unit) },
                ),
                Reading::Boundary => match symbol_of(table, state.pending) {
                    Some(symbol) => Ok(
                        ScanState { text: state.text.push(symbol), pending: Seq::empty() },
                    ),
                    None => Err(CodecError::Irrecoverable),
                },
            },
        }
    }
}

/// The transport text that the samples hold. Units after the last separator
/// belong to no symbol and are dropped.
pub open spec fn recovered_text(table: Seq<SymbolPattern>, samples: Seq<Sample>) -> Result<
    Seq<char>,
    CodecError,
> {
    match scan(table, samples) {
        Ok(state) => Ok(state.text),
        Err(e) => Err(e),
    }
}

/// The number of leading samples that the decoder passes over: none without
/// a handshake, else the length of the handshake at this sample rate, or the
/// whole stream if it is shorter.
pub open spec fn skipped_samples(len: nat, sample_rate: u32, include_handshake: bool) -> nat {
    if !include_handshake {
        0
    } else if handshake_samples(sample_rate) <= len {
        handshake_samples(sample_rate)
    } else {
        len
    }
}

/// The samples that remain after the handshake.
pub open spec fn payload_samples(
    samples: Seq<Sample>,
    sample_rate: u32,
    include_handshake: bool,
) -> Seq<Sample> {
    samples.skip(skipped_samples(samples.len(), sample_rate, include_handshake) as int)
}

/// What decoding a stream gives: the payload of the recovered text,
/// `Irrecoverable` if the text cannot be recovered, `MalformedText` if it
/// can, but is the text of no payload.
pub open spec fn decoded_payload(
    table: Seq<SymbolPattern>,
    samples: Seq<Sample>,
    sample_rate: u32,
    include_handshake: bool,
) -> Result<Seq<u8>, CodecError> {
    match recovered_text(table, payload_samples(samples, sample_rate, include_handshake)) {
        Err(e) => Err(e),
        Ok(text) => match transport_bytes(text) {
            Some(payload) => Ok(payload),
            None => Err(CodecError::MalformedText),
        },
    }
}

/// Once the scan has failed it stays failed, whatever follows.
pub proof fn lemma_scan_error_persists(table: Seq<SymbolPattern>, samples: Seq<Sample>, n: int)
    requires
        0 <= n <= samples.len(),
        scan(table, samples.take(n)) is Err,
    ensures
        scan(table, samples) == scan(table, samples.take(n)),
    decreases samples.len() - n,
{
    if n < samples.len() {
        assert(samples.take(n + 1).drop_last() =~= samples.take(n));
        lemma_scan_error_persists(table, samples, n + 1);
    } else {
        assert(samples.take(n) =~= samples);
    }
}

/// Recovers the transport text from the samples at and after `start`.
/// A positive sample is a dash, a zero a dot, and a negative one closes the
/// symbol gathered so far. Fails with `Irrecoverable` if and only if some
/// closed pattern is not in the alphabet.
pub fn recover_text(samples: &Vec<Sample>, start: usize, alphabet: &Alphabet) -> (r: Result<
    Vec<char>,
    CodecError,
>)
    requires
        start <= samples.len(),
    ensures
        match recovered_text(alphabet@, samples@.skip(start as int)) {
            Ok(text) => r is Ok && r->Ok_0@ == text,
            Err(e) => r == Err::<Vec<char>, CodecError>(e),
        },
{
    let ghost table = alphabet@;
    let ghost rest = samples@.skip(start as int);
    let mut text: Vec<char> = Vec::new();
    let mut pending: Vec<SignalUnit> = Vec::new();
    let mut i: usize = start;
    assert(rest.take(0) =~= Seq::<Sample>::empty());
    while i < samples.len()
        invariant
            start <= i <= samples.len(),
            table == alphabet@,
            rest == samples@.skip(start as int),
            scan(table, rest.take(i - start)) == Ok::<ScanState, CodecError>(
                ScanState { text: text@, pending: pending@ },
            ),
        decreases samples.len() - i,
    {
        let sample = samples[i];
        assert(rest.take(i - start + 1).drop_last() =~= rest.take(i - start));
        assert(rest.take(i - start + 1).last() == sample);
        match sample.read() {
            Reading::Unit(unit) => {
                pending.push(unit);
            },
            Reading::Boundary => {
                match alphabet.symbol(&pending) {
                    Ok(symbol) => {
                        text.push(symbol);
                        pending = Vec::new();
                    },
                    Err(e) => {
                        proof {
                            lemma_scan_error_persists(table, rest, i - start + 1);
                        }
                        return Err(e);
                    },
                }
            },
        }
        i += 1;
    }
    assert(rest.take(i - start) =~= rest);
    Ok(text)
}

/// Decodes a stream of samples: passes over the handshake, if there is one,
/// by its length at `sample_rate`; recovers the transport text from what
/// remains; and reads the payload from the text.
///
/// Fails with `Irrecoverable` if and only if a closed pattern is not in the
/// alphabet, and with `MalformedText` if and only if the recovered text is
/// the text of no payload. A stream that is the encoding of a payload with
/// the sign of one dash or separator inverted never decodes to that payload.
pub fn decode(
    samples: &Vec<Sample>,
    sample_rate: u32,
    include_handshake: bool,
    alphabet: &Alphabet,
) -> (r: Result<Vec<u8>, CodecError>)
    ensures
        match decoded_payload(alphabet@, samples@, sample_rate, include_handshake) {
            Ok(payload) => r is Ok && r->Ok_0@ == payload,
            Err(e) => r == Err::<Vec<u8>, CodecError>(e),
        },
        forall|sent: Seq<u8>, i: int|
            render_text(alphabet@, transport_text(sent)) is Ok && #[trigger] is_sign_flip(
                render_text(alphabet@, transport_text(sent))->Ok_0,
                payload_samples(samples@, sample_rate, include_handshake),
                i,
            ) ==> !(r is Ok && r->Ok_0@ == sent),
{
    let ghost table = alphabet@;
    let ghost rest = payload_samples(samples@, sample_rate, include_handshake);
    let start: usize = if include_handshake {
        let skip = handshake_length(sample_rate);
        if skip <= samples.len() as u64 {
            skip as usize
        } else {
            samples.len()
        }
    } else {
        0
    };
    match recover_text(samples, start, alphabet) {
        Err(e) => Err(e),
        Ok(text) => {
            let r = from_transport_text(&text);
            proof {
                use_type_invariant(alphabet);
                assert forall|sent: Seq<u8>, i: int|
                    render_text(table, transport_text(sent)) is Ok && #[trigger] is_sign_flip(
                        render_text(table, transport_text(sent))->Ok_0,
                        rest,
                        i,
                    ) implies !(r is Ok && r->Ok_0@ == sent) by {
                    if r is Ok && r->Ok_0@ == sent {
                        lemma_sign_flip_detected(table, text@, rest, i);
                    }
                }
            }
            r
        },
    }
}

} // verus!
