use playlist_player::loudness::{Gain, LoudnessError, LoudnessNormalization, SampleEnergy};

#[test]
fn off_keeps_gain_whatever_the_stream() {
    let loud = SampleEnergy::measure(&[i16::MAX, i16::MIN, 1000, -5]);
    let silent = SampleEnergy::measure(&[]);
    for energy in [loud, silent] {
        for channels in [0u16, 1, 2, 8] {
            assert_eq!(LoudnessNormalization::Off.gain(&energy, channels), Ok(Gain::Unchanged));
        }
    }
}

#[test]
fn rms_of_silence_keeps_gain() {
    let energy = SampleEnergy::measure(&[0; 4096]);
    assert_eq!(energy.sample_count(), 4096);
    assert_eq!(energy.sum_of_squares(), 0);
    assert_eq!(LoudnessNormalization::RMS.gain(&energy, 2), Ok(Gain::Unchanged));
}

#[test]
fn rms_of_no_samples_keeps_gain() {
    let energy = SampleEnergy::new();
    assert_eq!(LoudnessNormalization::RMS.gain(&energy, 2), Ok(Gain::Unchanged));
}

#[test]
fn rms_carries_the_energy() {
    let energy = SampleEnergy::measure(&[3, -4, 0, 12]);
    assert_eq!(energy.sum_of_squares(), 9 + 16 + 144);
    assert_eq!(energy.sample_count(), 4);
    assert_eq!(
        LoudnessNormalization::RMS.gain(&energy, 2),
        Ok(Gain::FromRms { sum_of_squares: 169, sample_count: 4, channels: 2 })
    );
}

#[test]
fn extreme_samples_are_summed_exactly() {
    let energy = SampleEnergy::measure(&[i16::MIN, i16::MAX]);
    assert_eq!(energy.sum_of_squares(), 32768u128 * 32768 + 32767u128 * 32767);
}

#[test]
fn adding_samples_one_by_one_matches_measure() {
    let samples = [7i16, -300, 25000, -1, 0];
    let mut energy = SampleEnergy::new();
    for s in samples {
        energy.add_sample(s);
    }
    let whole = SampleEnergy::measure(&samples);
    assert_eq!(energy.sum_of_squares(), whole.sum_of_squares());
    assert_eq!(energy.sample_count(), whole.sample_count());
}

#[test]
fn ebu_r128_is_refused() {
    let energy = SampleEnergy::measure(&[1, 2, 3]);
    assert_eq!(LoudnessNormalization::EbuR128.gain(&energy, 2), Err(LoudnessError::Unsupported));
}
