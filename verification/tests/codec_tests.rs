use morse_wav::alphabet::{Alphabet, AlphabetEntry};
use morse_wav::decoder::{decode, recover_text};
use morse_wav::encoder::{encode, render};
use morse_wav::error::CodecError;
use morse_wav::handshake::handshake_length;
use morse_wav::signal::{Sample, SignalUnit, DASH_BITS, DOT_BITS, SEPARATOR_BITS};

fn sample(value: f32) -> Sample {
    Sample { bits: value.to_bits() }
}

fn samples(values: &[f32]) -> Vec<Sample> {
    values.iter().map(|v| sample(*v)).collect()
}

fn amplitudes(stream: &[Sample]) -> Vec<f32> {
    stream.iter().map(|s| f32::from_bits(s.bits)).collect()
}

fn chars(text: &str) -> Vec<char> {
    text.chars().collect()
}

/// A preamble of the right length whose samples are no levels.
fn handshake(rate: u32) -> Vec<Sample> {
    let n = handshake_length(rate) as usize;
    (0..n).map(|i| sample(((i % 7) as f32 - 3.0) * 0.3)).collect()
}

fn man_stream() -> Vec<f32> {
    vec![
        0.5, -0.5, // T
        0.0, 0.0, 0.5, -0.5, // U
        0.0, 0.0, 0.5, 0.0, -0.5, // F
        0.5, 0.5, 0.5, -0.5, // O
    ]
}

#[test]
fn man_encodes_to_the_samples_of_tufo() {
    let alphabet = Alphabet::build().unwrap();
    let stream = encode(&vec![0x4D, 0x41, 0x4E], 48000, None, &alphabet).unwrap();
    assert_eq!(amplitudes(&stream), man_stream());
    assert_eq!(decode(&stream, 48000, false, &alphabet), Ok(vec![0x4D, 0x41, 0x4E]));
}

#[test]
fn tufo_renders_symbol_by_symbol() {
    let alphabet = Alphabet::build().unwrap();
    let stream = render(&chars("TUFO"), &alphabet).unwrap();
    assert_eq!(amplitudes(&stream), man_stream());
    assert_eq!(recover_text(&stream, 0, &alphabet), Ok(chars("TUFO")));
}

#[test]
fn empty_payload_encodes_to_an_empty_stream() {
    let alphabet = Alphabet::build().unwrap();
    let stream = encode(&vec![], 48000, None, &alphabet).unwrap();
    assert!(stream.is_empty());
    assert_eq!(decode(&stream, 48000, false, &alphabet), Ok(vec![]));
    assert_eq!(render(&vec![], &alphabet), Ok(vec![]));
    assert_eq!(recover_text(&vec![], 0, &alphabet), Ok(vec![]));
}

#[test]
fn empty_payload_with_handshake_is_the_handshake_alone() {
    let alphabet = Alphabet::build().unwrap();
    let preamble = handshake(16);
    let stream = encode(&vec![], 16, Some(preamble.clone()), &alphabet).unwrap();
    assert_eq!(stream, preamble);
    assert_eq!(stream.len(), 112);
    assert_eq!(decode(&stream, 16, true, &alphabet), Ok(vec![]));
}

#[test]
fn handshake_stands_before_the_payload() {
    let alphabet = Alphabet::build().unwrap();
    let preamble = handshake(10);
    let stream = encode(&vec![0x4D, 0x41, 0x4E], 10, Some(preamble.clone()), &alphabet).unwrap();
    assert_eq!(stream.len(), 70 + 15);
    assert_eq!(&stream[..70], &preamble[..]);
    assert_eq!(amplitudes(&stream[70..]), man_stream());
    assert_eq!(decode(&stream, 10, true, &alphabet), Ok(vec![0x4D, 0x41, 0x4E]));
}

#[test]
fn round_trip_without_handshake() {
    let alphabet = Alphabet::build().unwrap();
    let mut payload: Vec<u8> = Vec::new();
    for b in 0..=255u8 {
        payload.push(b.wrapping_mul(37).wrapping_add(11));
        for rate in [8000u32, 44100, 48000] {
            let stream = encode(&payload, rate, None, &alphabet).unwrap();
            assert_eq!(decode(&stream, rate, false, &alphabet), Ok(payload.clone()));
        }
    }
}

#[test]
fn round_trip_with_handshake() {
    let alphabet = Alphabet::build().unwrap();
    let payloads: Vec<Vec<u8>> = vec![
        vec![],
        vec![0],
        vec![0xFF, 0x00],
        vec![0x4D, 0x41, 0x4E],
        (0..=255u8).collect(),
        b"any carnal pleasure.".to_vec(),
    ];
    for rate in [1u32, 3, 100, 8000] {
        let preamble = handshake(rate);
        for payload in payloads.iter() {
            let stream = encode(payload, rate, Some(preamble.clone()), &alphabet).unwrap();
            assert_eq!(decode(&stream, rate, true, &alphabet), Ok(payload.clone()));
        }
    }
}

#[test]
fn round_trip_at_44100_with_handshake() {
    let alphabet = Alphabet::build().unwrap();
    let preamble = handshake(44100);
    assert_eq!(preamble.len(), 308_700);
    let payload = b"Man is distinguished".to_vec();
    let stream = encode(&payload, 44100, Some(preamble), &alphabet).unwrap();
    assert_eq!(decode(&stream, 44100, true, &alphabet), Ok(payload));
}

#[test]
fn payload_samples_are_one_of_three_levels() {
    let alphabet = Alphabet::build().unwrap();
    let payload: Vec<u8> = (0..=255u8).collect();
    let stream = encode(&payload, 48000, None, &alphabet).unwrap();
    for s in stream.iter() {
        assert!(s.bits == DASH_BITS || s.bits == DOT_BITS || s.bits == SEPARATOR_BITS);
        let a = f32::from_bits(s.bits);
        assert!(a == 0.5 || a == 0.0 || a == -0.5);
    }
    let preamble = handshake(2);
    let with = encode(&payload, 2, Some(preamble), &alphabet).unwrap();
    for s in with[14..].iter() {
        assert!(s.bits == DASH_BITS || s.bits == DOT_BITS || s.bits == SEPARATOR_BITS);
    }
}

#[test]
fn each_symbol_ends_with_one_separator() {
    let alphabet = Alphabet::build().unwrap();
    let payload = vec![1u8, 2, 3, 4, 5];
    let stream = encode(&payload, 48000, None, &alphabet).unwrap();
    let separators = stream.iter().filter(|s| s.bits == SEPARATOR_BITS).count();
    assert_eq!(separators, 8);
    assert_eq!(stream.last().unwrap().bits, SEPARATOR_BITS);
}

#[test]
fn unknown_symbol_stops_the_rendering() {
    let alphabet = Alphabet::build().unwrap();
    assert_eq!(render(&chars("A!?"), &alphabet), Err(CodecError::UnknownSymbol('!')));
    assert_eq!(render(&chars("TUFO."), &alphabet), Err(CodecError::UnknownSymbol('.')));
}

#[test]
fn encode_fails_where_the_alphabet_lacks_a_symbol() {
    let table = vec![
        AlphabetEntry { symbol: 'T', pattern: vec![SignalUnit::Dash] },
        AlphabetEntry { symbol: 'U', pattern: vec![SignalUnit::Dot] },
    ];
    let alphabet = Alphabet::from_table(table).unwrap();
    assert_eq!(
        encode(&vec![0x4D, 0x41, 0x4E], 48000, None, &alphabet),
        Err(CodecError::UnknownSymbol('F'))
    );
    assert_eq!(render(&chars("TUT"), &alphabet), Ok(samples(&[0.5, -0.5, 0.0, -0.5, 0.5, -0.5])));
}

#[test]
fn decoder_reads_by_sign() {
    let alphabet = Alphabet::build().unwrap();
    let stream = samples(&[0.9, -0.1, 0.0, -0.0, 0.001, -7.0]);
    assert_eq!(recover_text(&stream, 0, &alphabet), Ok(chars("TU")));
    let with_nan = samples(&[f32::NAN, 0.5, -0.5]);
    assert_eq!(recover_text(&with_nan, 0, &alphabet), Ok(chars("A")));
}

#[test]
fn units_after_the_last_separator_are_dropped() {
    let alphabet = Alphabet::build().unwrap();
    assert_eq!(recover_text(&samples(&[0.5]), 0, &alphabet), Ok(chars("")));
    assert_eq!(recover_text(&samples(&[0.5, -0.5, 0.0, 0.5]), 0, &alphabet), Ok(chars("T")));
    let mut stream = samples(&man_stream());
    stream.extend(samples(&[0.5, 0.5, 0.5, 0.5, 0.5, 0.5, 0.5, 0.5, 0.5]));
    assert_eq!(decode(&stream, 48000, false, &alphabet), Ok(vec![0x4D, 0x41, 0x4E]));
}

#[test]
fn recover_text_starts_where_it_is_told() {
    let alphabet = Alphabet::build().unwrap();
    let stream = samples(&[0.5, -0.5, 0.0, 0.0, 0.5, -0.5]);
    assert_eq!(recover_text(&stream, 0, &alphabet), Ok(chars("TU")));
    assert_eq!(recover_text(&stream, 2, &alphabet), Ok(chars("U")));
    assert_eq!(recover_text(&stream, 3, &alphabet), Ok(chars("A")));
    assert_eq!(recover_text(&stream, 6, &alphabet), Ok(chars("")));
}

#[test]
fn pattern_outside_the_alphabet_is_irrecoverable() {
    let alphabet = Alphabet::build().unwrap();
    let long = samples(&[0.5, 0.5, 0.5, 0.5, 0.5, 0.5, 0.5, 0.5, -0.5]);
    assert_eq!(recover_text(&long, 0, &alphabet), Err(CodecError::Irrecoverable));
    assert_eq!(decode(&long, 48000, false, &alphabet), Err(CodecError::Irrecoverable));
    let empty_symbol = samples(&[-0.5]);
    assert_eq!(decode(&empty_symbol, 48000, false, &alphabet), Err(CodecError::Irrecoverable));
    let double = samples(&[0.5, -0.5, -0.5]);
    assert_eq!(decode(&double, 48000, false, &alphabet), Err(CodecError::Irrecoverable));
    let after = samples(&[-0.5, 0.5, -0.5]);
    assert_eq!(recover_text(&after, 0, &alphabet), Err(CodecError::Irrecoverable));
}

#[test]
fn irrecoverable_comes_before_malformed() {
    let alphabet = Alphabet::build().unwrap();
    let stream = samples(&[0.5, -0.5, -0.5]);
    assert_eq!(decode(&stream, 48000, false, &alphabet), Err(CodecError::Irrecoverable));
}

#[test]
fn recovered_text_of_no_payload_is_malformed() {
    let alphabet = Alphabet::build().unwrap();
    let tuf = render(&chars("TUF"), &alphabet).unwrap();
    assert_eq!(decode(&tuf, 48000, false, &alphabet), Err(CodecError::MalformedText));
    let t = samples(&[0.5, -0.5]);
    assert_eq!(decode(&t, 48000, false, &alphabet), Err(CodecError::MalformedText));
}

#[test]
fn decoder_skips_the_handshake_by_its_length() {
    let alphabet = Alphabet::build().unwrap();
    let mut stream = handshake(1);
    assert_eq!(stream.len(), 7);
    stream.extend(samples(&man_stream()));
    assert_eq!(decode(&stream, 1, true, &alphabet), Ok(vec![0x4D, 0x41, 0x4E]));
    let mut shifted = samples(&[0.0; 14]);
    shifted.extend(samples(&man_stream()));
    assert_eq!(decode(&shifted, 2, true, &alphabet), Ok(vec![0x4D, 0x41, 0x4E]));
    assert_ne!(decode(&shifted, 1, true, &alphabet), Ok(vec![0x4D, 0x41, 0x4E]));
}

#[test]
fn stream_shorter_than_the_handshake_holds_nothing() {
    let alphabet = Alphabet::build().unwrap();
    let stream = samples(&man_stream());
    assert_eq!(decode(&stream, 48000, true, &alphabet), Ok(vec![]));
    assert_eq!(decode(&vec![], 48000, true, &alphabet), Ok(vec![]));
    let exact = handshake(2);
    assert_eq!(decode(&exact, 2, true, &alphabet), Ok(vec![]));
}

#[test]
fn flipping_a_dash_or_separator_never_gives_the_payload() {
    let alphabet = Alphabet::build().unwrap();
    let payloads: Vec<Vec<u8>> =
        vec![vec![0x4D, 0x41, 0x4E], vec![0], vec![0xFF, 0xFE], (0..40u8).collect()];
    for payload in payloads.iter() {
        let clean = encode(payload, 48000, None, &alphabet).unwrap();
        for i in 0..clean.len() {
            if clean[i].bits == DOT_BITS {
                continue;
            }
            let mut corrupted = clean.clone();
            corrupted[i] = corrupted[i].flip();
            assert_ne!(decode(&corrupted, 48000, false, &alphabet), Ok(payload.clone()));
            let text = recover_text(&corrupted, 0, &alphabet);
            match text {
                Ok(other) => assert_ne!(other.len(), 4 * ((payload.len() + 2) / 3)),
                Err(e) => assert_eq!(e, CodecError::Irrecoverable),
            }
        }
    }
}

#[test]
fn flipping_behind_a_handshake_never_gives_the_payload() {
    let alphabet = Alphabet::build().unwrap();
    let payload = vec![0x4D, 0x41, 0x4E];
    let clean = encode(&payload, 3, Some(handshake(3)), &alphabet).unwrap();
    for i in 21..clean.len() {
        if clean[i].bits == DOT_BITS {
            continue;
        }
        let mut corrupted = clean.clone();
        corrupted[i] = corrupted[i].flip();
        assert_ne!(decode(&corrupted, 3, true, &alphabet), Ok(payload.clone()));
    }
}

#[test]
fn flipping_a_dash_of_man_splits_a_symbol() {
    let alphabet = Alphabet::build().unwrap();
    let mut corrupted = samples(&man_stream());
    corrupted[11] = corrupted[11].flip();
    assert_eq!(recover_text(&corrupted, 0, &alphabet), Err(CodecError::Irrecoverable));
    let mut split = samples(&man_stream());
    split[12] = split[12].flip();
    assert_eq!(recover_text(&split, 0, &alphabet), Ok(chars("TUFTT")));
    assert_eq!(decode(&split, 48000, false, &alphabet), Err(CodecError::MalformedText));
}

#[test]
fn flipping_a_zero_changes_nothing() {
    let alphabet = Alphabet::build().unwrap();
    let mut stream = samples(&man_stream());
    assert_eq!(stream[2].bits, DOT_BITS);
    stream[2] = stream[2].flip();
    assert_eq!(f32::from_bits(stream[2].bits).to_bits(), (-0.0f32).to_bits());
    assert_eq!(decode(&stream, 48000, false, &alphabet), Ok(vec![0x4D, 0x41, 0x4E]));
}
