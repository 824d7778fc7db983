//! Loudness measurement of decoded 16-bit audio.
//!
//! The energy of a stream is gathered here exactly, in integers; the gain is
//! then either left unchanged or derived from the root mean square of the
//! samples, `(target / rms / channels) * 10000`, by the caller that holds the
//! floating-point side.

use vstd::prelude::*;

verus! {

/// The largest square of a 16-bit sample.
pub const MAX_SQUARE: u128 = 0x4000_0000;

/// How the gain of a track is chosen.
#[derive(Clone, Copy, Debug, PartialEq, Eq, Structural)]
pub enum LoudnessNormalization {
    /// The track plays as decoded.
    Off,
    /// The gain follows from the root mean square of the samples.
    RMS,
    /// EBU R128 loudness: not supported.
    EbuR128,
}

/// Why no gain can be chosen.
#[derive(Clone, Copy, Debug, PartialEq, Eq, Structural)]
pub enum LoudnessError {
    /// The policy has no implementation.
    Unsupported,
}

/// The gain to apply to a track.
#[derive(Clone, Copy, Debug, PartialEq, Eq, Structural)]
pub enum Gain {
    /// A gain of one: the samples stay as they are.
    Unchanged,
    /// The gain derived from the root mean square `sqrt(sum_of_squares / sample_count)`
    /// and the channel count.
    FromRms { sum_of_squares: u128, sample_count: u64, channels: u16 },
}

/// The sum of the squares of `samples`.
pub open spec fn sum_of_squares(samples: Seq<i16>) -> int
    decreases samples.len(),
{
    if samples.len() == 0 {
        0
    } else {
        sum_of_squares(samples.drop_last()) + samples.last() * samples.last()
    }
}

/// The gain that `policy` gives for a stream whose squares sum to `sum` over
/// `count` samples of `channels` channels.
pub open spec fn gain_for(policy: LoudnessNormalization, sum: int, count: int, channels: u16) -> Result<
    Gain,
    LoudnessError,
> {
    match policy {
        LoudnessNormalization::Off => Ok(Gain::Unchanged),
        LoudnessNormalization::RMS => if count == 0 || sum == 0 {
            Ok(Gain::Unchanged)
        } else {
            Ok(Gain::FromRms { sum_of_squares: sum as u128, sample_count: count as u64, channels })
        },
        LoudnessNormalization::EbuR128 => Err(LoudnessError::Unsupported),
    }
}

/// The energy of the samples read so far: the sum of their squares and their count.
#[derive(Clone, Copy, Debug)]
pub struct SampleEnergy {
    sum_of_squares: u128,
    sample_count: u64,
}

impl SampleEnergy {
    pub closed spec fn sum(&self) -> int {
        self.sum_of_squares as int
    }

    pub closed spec fn count(&self) -> int {
        self.sample_count as int
    }

    /// No sample is larger in square than a 16-bit one.
    pub open spec fn well_formed(&self) -> bool {
        0 <= self.sum() <= self.count() * MAX_SQUARE
    }

    /// The energy of no sample at all.
    pub fn new() -> (r: SampleEnergy)
        ensures
            r.well_formed(),
            r.sum() == 0,
            r.count() == 0,
    {
        SampleEnergy { sum_of_squares: 0, sample_count: 0 }
    }

    /// Counts one more sample.
    pub fn add_sample(&mut self, sample: i16)
        requires
            old(self).well_formed(),
            old(self).count() < u64::MAX,
        ensures
            final(self).well_formed(),
            final(self).sum() == old(self).sum() + sample * sample,
            final(self).count() == old(self).count() + 1,
    {
        let v = sample as i64;
        proof {
            assert(0 <= v * v <= MAX_SQUARE) by (nonlinear_arith)
                requires
                    -32768 <= v <= 32767,
            ;
            assert(self.sum() + v * v <= (self.count() + 1) * MAX_SQUARE) by (nonlinear_arith)
                requires
                    self.sum() <= self.count() * MAX_SQUARE,
                    v * v <= MAX_SQUARE,
            ;
            assert((self.count() + 1) * MAX_SQUARE < u128::MAX) by (nonlinear_arith)
                requires
                    self.count() < u64::MAX,
            ;
        }
        let square = (v * v) as u128;
        self.sum_of_squares = self.sum_of_squares + square;
        self.sample_count = self.sample_count + 1;
    }

    /// The energy of `samples`.
    pub fn measure(samples: &[i16]) -> (r: SampleEnergy)
        requires
            samples@.len() < u64::MAX,
        ensures
            r.well_formed(),
            r.sum() == sum_of_squares(samples@),
            r.count() == samples@.len(),
    {
        let mut energy = SampleEnergy::new();
        let mut i: usize = 0;
        while i < samples.len()
            invariant
                i <= samples@.len() < u64::MAX,
                energy.well_formed(),
                energy.sum() == sum_of_squares(samples@.subrange(0, i as int)),
                energy.count() == i,
            decreases samples@.len() - i,
        {
            proof {
                let next = samples@.subrange(0, i + 1);
                assert(next.drop_last() =~= samples@.subrange(0, i as int));
            }
            energy.add_sample(samples[i]);
            i += 1;
        }
        proof {
            assert(samples@.subrange(0, i as int) =~= samples@);
        }
        energy
    }

    /// The sum of the squares of the samples.
    pub fn sum_of_squares(&self) -> (r: u128)
        ensures
            r == self.sum(),
    {
        self.sum_of_squares
    }

    /// The number of samples.
    pub fn sample_count(&self) -> (r: u64)
        ensures
            r == self.count(),
    {
        self.sample_count
    }
}

impl LoudnessNormalization {
    /// The gain for a stream of `channels` channels with the given energy.
    /// `Off` leaves every stream unchanged; `RMS` leaves a stream without
    /// samples, or of silence alone, unchanged; `EbuR128` is refused.
    pub fn gain(&self, energy: &SampleEnergy, channels: u16) -> (r: Result<Gain, LoudnessError>)
        ensures
            r == gain_for(*self, energy.sum(), energy.count(), channels),
    {
        match self {
            LoudnessNormalization::Off => Ok(Gain::Unchanged),
            LoudnessNormalization::RMS => {
                if energy.sample_count == 0 || energy.sum_of_squares == 0 {
                    Ok(Gain::Unchanged)
                } else {
                    Ok(
                        Gain::FromRms {
                            sum_of_squares: energy.sum_of_squares,
                            sample_count: energy.sample_count,
                            channels,
                        },
                    )
                }
            },
            LoudnessNormalization::EbuR128 => Err(LoudnessError::Unsupported),
        }
    }
}

/// The sum of squares of a stream of zeros is zero.
proof fn lemma_silence_has_no_energy(samples: Seq<i16>)
    requires
        forall|i: int| 0 <= i < samples.len() ==> samples[i] == 0,
    ensures
        sum_of_squares(samples) == 0,
    decreases samples.len(),
{
    if samples.len() > 0 {
        lemma_silence_has_no_energy(samples.drop_last());
    }
}

/// With no normalization the gain is unchanged, whatever the stream.
pub proof fn lemma_none_keeps_gain(sum: int, count: int, channels: u16)
    ensures
        gain_for(LoudnessNormalization::Off, sum, count, channels) == Ok::<Gain, LoudnessError>(
            Gain::Unchanged,
        ),
{
}

/// With RMS normalization a stream of silence keeps its gain, as a stream
/// without samples does.
pub proof fn lemma_silence_keeps_gain(samples: Seq<i16>, channels: u16)
    requires
        forall|i: int| 0 <= i < samples.len() ==> samples[i] == 0,
    ensures
        gain_for(LoudnessNormalization::RMS, sum_of_squares(samples), samples.len() as int, channels)
            == Ok::<Gain, LoudnessError>(Gain::Unchanged),
{
    lemma_silence_has_no_energy(samples);
}

} // verus!
