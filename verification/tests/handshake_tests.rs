use morse_wav::handshake::{
    handshake_length, handshake_segments, segment_length, HandshakeSegment, SegmentKind,
    TOTAL_SECONDS,
};

#[test]
fn plan_has_the_five_segments_in_order() {
    let plan = handshake_segments();
    assert_eq!(plan.len(), 5);
    assert_eq!(
        plan,
        vec![
            HandshakeSegment {
                kind: SegmentKind::Tone,
                frequency_hz: 1100,
                second_frequency_hz: 0,
                seconds: 1
            },
            HandshakeSegment {
                kind: SegmentKind::Tone,
                frequency_hz: 1100,
                second_frequency_hz: 0,
                seconds: 3
            },
            HandshakeSegment {
                kind: SegmentKind::Silence,
                frequency_hz: 0,
                second_frequency_hz: 0,
                seconds: 1
            },
            HandshakeSegment {
                kind: SegmentKind::Tone,
                frequency_hz: 2100,
                second_frequency_hz: 0,
                seconds: 1
            },
            HandshakeSegment {
                kind: SegmentKind::CompositeTone,
                frequency_hz: 2100,
                second_frequency_hz: 400,
                seconds: 1
            },
        ]
    );
}

#[test]
fn plan_lasts_seven_seconds() {
    let seconds: u64 = handshake_segments().iter().map(|s| s.seconds as u64).sum();
    assert_eq!(seconds, 7);
    assert_eq!(TOTAL_SECONDS, 7);
}

#[test]
fn handshake_length_is_rate_times_seconds() {
    assert_eq!(handshake_length(44100), 308_700);
    assert_eq!(handshake_length(48000), 336_000);
    assert_eq!(handshake_length(8000), 56_000);
    assert_eq!(handshake_length(1), 7);
    assert_eq!(handshake_length(0), 0);
    assert_eq!(handshake_length(u32::MAX), 7 * (u32::MAX as u64));
}

#[test]
fn handshake_length_is_the_sum_of_its_segments() {
    for rate in [0u32, 1, 8, 8000, 22050, 44100, 48000, 96000, 192000, u32::MAX] {
        let plan = handshake_segments();
        let sum: u64 = plan.iter().map(|s| segment_length(s, rate)).sum();
        assert_eq!(handshake_length(rate), sum);
        assert_eq!(handshake_length(rate), rate as u64 * TOTAL_SECONDS);
    }
}

#[test]
fn segment_length_is_seconds_times_rate() {
    let plan = handshake_segments();
    assert_eq!(segment_length(&plan[0], 44100), 44100);
    assert_eq!(segment_length(&plan[1], 44100), 132_300);
    assert_eq!(segment_length(&plan[2], 44100), 44100);
    let long = HandshakeSegment {
        kind: SegmentKind::Silence,
        frequency_hz: 0,
        second_frequency_hz: 0,
        seconds: u32::MAX,
    };
    assert_eq!(segment_length(&long, u32::MAX), (u32::MAX as u64) * (u32::MAX as u64));
}
