//! The call handshake: a preamble of tone bursts and silence that stands
//! before the payload. This module holds its plan and its length in samples;
//! the tones themselves are computed where the audio is written.

use vstd::prelude::*;

verus! {

/// What sounds during a segment.
#[derive(Clone, Copy, Debug, PartialEq, Eq, Structural)]
pub enum SegmentKind {
    /// One sine tone.
    Tone,
    /// Nothing.
    Silence,
    /// The sum of two sine tones.
    CompositeTone,
}

/// One segment of the handshake. A frequency that the kind does not use is
/// zero.
#[derive(Clone, Copy, Debug, PartialEq, Eq, Structural)]
pub struct HandshakeSegment {
    pub kind: SegmentKind,
    pub frequency_hz: u32,
    pub second_frequency_hz: u32,
    pub seconds: u32,
}

/// The length of the whole handshake in seconds.
pub const TOTAL_SECONDS: u64 = 7;

/// The five segments in order: calling tone, extended calling tone, silence,
/// answer tone, composite answer tone.
pub open spec fn segment_plan() -> Seq<HandshakeSegment> {
    seq![
        HandshakeSegment {
            kind: SegmentKind::Tone,
            frequency_hz: 1100,
            second_frequency_hz: 0,
            seconds: 1,
        },
        HandshakeSegment {
            kind: SegmentKind::Tone,
            frequency_hz: 1100,
            second_frequency_hz: 0,
            seconds: 3,
        },
        HandshakeSegment {
            kind: SegmentKind::Silence,
            frequency_hz: 0,
            second_frequency_hz: 0,
            seconds: 1,
        },
        HandshakeSegment {
            kind: SegmentKind::Tone,
            frequency_hz: 2100,
            second_frequency_hz: 0,
            seconds: 1,
        },
        HandshakeSegment {
            kind: SegmentKind::CompositeTone,
            frequency_hz: 2100,
            second_frequency_hz: 400,
            seconds: 1,
        },
    ]
}

/// The seconds that the first `n` segments of a plan last.
pub open spec fn seconds_of_first(plan: Seq<HandshakeSegment>, n: nat) -> nat
    decreases n,
{
    if n == 0 || n > plan.len() {
        0
    } else {
        seconds_of_first(plan, (n - 1) as nat) + plan[n - 1].seconds as nat
    }
}

/// The number of samples that one segment takes at a sample rate.
pub open spec fn segment_samples(segment: HandshakeSegment, sample_rate: u32) -> nat {
    (segment.seconds * sample_rate) as nat
}

/// The number of samples that the first `n` segments of a plan take.
pub open spec fn samples_of_first(plan: Seq<HandshakeSegment>, n: nat, sample_rate: u32) -> nat
    decreases n,
{
    if n == 0 || n > plan.len() {
        0
    } else {
        samples_of_first(plan, (n - 1) as nat, sample_rate) + segment_samples(
            plan[n - 1],
            sample_rate,
        )
    }
}

/// The number of samples of the whole handshake at a sample rate.
pub open spec fn handshake_samples(sample_rate: u32) -> nat {
    samples_of_first(segment_plan(), segment_plan().len(), sample_rate)
}

/// The handshake takes the sample rate times the seconds of its plan, at
/// every sample rate; and the plan lasts `TOTAL_SECONDS`.
pub proof fn lemma_handshake_samples(sample_rate: u32)
    ensures
        seconds_of_first(segment_plan(), segment_plan().len()) == TOTAL_SECONDS,
        handshake_samples(sample_rate) == sample_rate * seconds_of_first(
            segment_plan(),
            segment_plan().len(),
        ),
        handshake_samples(sample_rate) == sample_rate * TOTAL_SECONDS,
{
    let plan = segment_plan();
    reveal_with_fuel(samples_of_first, 6);
    reveal_with_fuel(seconds_of_first, 6);
    assert(plan.len() == 5);
    assert(samples_of_first(plan, 5, sample_rate) == 1 * sample_rate + 3 * sample_rate + 1
        * sample_rate + 1 * sample_rate + 1 * sample_rate);
}

/// The plan of the handshake.
pub fn handshake_segments() -> (plan: Vec<HandshakeSegment>)
    ensures
        plan@ == segment_plan(),
{
    let mut plan: Vec<HandshakeSegment> = Vec::new();
    plan.push(
        HandshakeSegment {
            kind: SegmentKind::Tone,
            frequency_hz: 1100,
            second_frequency_hz: 0,
            seconds: 1,
        },
    );
    plan.push(
        HandshakeSegment {
            kind: SegmentKind::Tone,
            frequency_hz: 1100,
            second_frequency_hz: 0,
            seconds: 3,
        },
    );
    plan.push(
        HandshakeSegment {
            kind: SegmentKind::Silence,
            frequency_hz: 0,
            second_frequency_hz: 0,
            seconds: 1,
        },
    );
    plan.push(
        HandshakeSegment {
            kind: SegmentKind::Tone,
            frequency_hz: 2100,
            second_frequency_hz: 0,
            seconds: 1,
        },
    );
    plan.push(
        HandshakeSegment {
            kind: SegmentKind::CompositeTone,
            frequency_hz: 2100,
            second_frequency_hz: 400,
            seconds: 1,
        },
    );
    assert(plan@ =~= segment_plan());
    plan
}

/// The number of samples that `segment` takes at `sample_rate`.
pub fn segment_length(segment: &HandshakeSegment, sample_rate: u32) -> (n: u64)
    ensures
        n == segment_samples(*segment, sample_rate),
{
    assert(segment.seconds * sample_rate <= 0xFFFF_FFFF * 0xFFFF_FFFF) by (nonlinear_arith)
        requires
            segment.seconds <= 0xFFFF_FFFF,
            sample_rate <= 0xFFFF_FFFF,
    ;
    (segment.seconds as u64) * (sample_rate as u64)
}

/// The number of samples of the whole handshake at `sample_rate`, computed
/// from the plan: the number that the decoder skips.
pub fn handshake_length(sample_rate: u32) -> (n: u64)
    ensures
        n == handshake_samples(sample_rate),
        n == sample_rate * TOTAL_SECONDS,
{
    let plan = handshake_segments();
    let mut total: u64 = 0;
    let mut i: usize = 0;
    proof {
        lemma_handshake_samples(sample_rate);
    }
    while i < plan.len()
        invariant
            i <= plan.len(),
            plan@ == segment_plan(),
            total == samples_of_first(plan@, i as nat, sample_rate),
            handshake_samples(sample_rate) == sample_rate * TOTAL_SECONDS,
        decreases plan.len() - i,
    {
        proof {
            lemma_samples_monotonic(plan@, (i + 1) as nat, plan@.len(), sample_rate);
        }
        total = total + segment_length(&plan[i], sample_rate);
        i += 1;
    }
    total
}

/// A longer run of segments takes at least as many samples.
proof fn lemma_samples_monotonic(plan: Seq<HandshakeSegment>, n: nat, m: nat, sample_rate: u32)
    requires
        n <= m <= plan.len(),
    ensures
        samples_of_first(plan, n, sample_rate) <= samples_of_first(plan, m, sample_rate),
    decreases m,
{
    if n < m {
        lemma_samples_monotonic(plan, n, (m - 1) as nat, sample_rate);
    }
}

} // verus!
