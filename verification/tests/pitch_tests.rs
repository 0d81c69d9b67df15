use usrs_core::pitch::{
    above_silence_threshold, autocorrelation_mismatch, candidate_period, get_dominant_note,
    get_max_amplitude, get_note_weights, process_capture, EstimatedNote, HIGH_STEP, LOW_STEP,
};
use usrs_core::note::Letter;
use usrs_core::CoreError;

const SAMPLE_RATE: u32 = 44_100;

fn sine_buffer(freq_hz: f64, amplitude: f64, len: usize) -> Vec<i16> {
    let mut v = Vec::with_capacity(len);
    for i in 0..len {
        let phase = 2.0 * std::f64::consts::PI * freq_hz * (i as f64) / (SAMPLE_RATE as f64);
        v.push((amplitude * phase.sin()).round() as i16);
    }
    v
}

#[test]
fn silence_has_zero_amplitude_and_is_gated() {
    let samples = vec![0i16; 2048];
    assert_eq!(get_max_amplitude(&samples), 0);
    assert!(!above_silence_threshold(&samples));
    assert_eq!(process_capture(&samples, SAMPLE_RATE), Ok(None));
}

#[test]
fn max_amplitude_takes_absolute_values() {
    assert_eq!(get_max_amplitude(&[]), 0);
    assert_eq!(get_max_amplitude(&[0, -5, 3]), 5);
    assert_eq!(get_max_amplitude(&[7, -2]), 7);
    assert_eq!(get_max_amplitude(&[i16::MIN]), 32768);
}

#[test]
fn silence_threshold_is_a_tenth_of_full_scale() {
    // normalized amplitude is 2 * x / 32767; estimation starts
    // strictly above one tenth, so raw 1638 is still silence and 1639
    // is loud enough.
    assert!(!above_silence_threshold(&[1638, -1638]));
    assert!(above_silence_threshold(&[1639]));
    assert!(above_silence_threshold(&[-1639]));
}

#[test]
fn autocorrelation_mismatch_is_zero_for_perfect_period() {
    let samples = [5i16; 10];
    assert_eq!(autocorrelation_mismatch(&samples, 3), 0);
    let alternating = [0i16, 10, 0, 10];
    assert_eq!(autocorrelation_mismatch(&alternating, 2), 0);
    assert_eq!(autocorrelation_mismatch(&alternating, 1), 30);
}

#[test]
fn candidate_period_comes_from_the_equal_tempered_scale() {
    // A4 (step 69) is exactly 440 Hz: 44100 / 440 = 100.2 samples,
    // rounded to 100. A wrapper handing its argument back unchanged
    // would give a period of hundreds of thousands of samples here.
    assert_eq!(candidate_period(SAMPLE_RATE, 69), 100);
    // A3 (step 57) is 220 Hz: 44100 / 220 = 200.5 - eps, rounded 200.
    assert_eq!(candidate_period(SAMPLE_RATE, 57), 200);
}

#[test]
fn candidate_periods_match_the_pitch_crate() {
    // the period of every candidate equals the sample rate divided by
    // the frequency that pitch_calc assigns to the step, in millihertz,
    // rounded to the nearest whole sample
    for step in LOW_STEP..HIGH_STEP {
        let hz_milli = (pitch_calc::Step(step as f32).to_hz().hz() * 1000.0f32).round() as u64;
        let expected = (2 * (SAMPLE_RATE as u64) * 1000 + hz_milli) / (2 * hz_milli);
        assert_eq!(candidate_period(SAMPLE_RATE, step), expected, "step {}", step);
    }
}

#[test]
fn note_weights_cover_the_scale_in_order() {
    let samples = sine_buffer(440.0, 8000.0, 2048);
    let weights = get_note_weights(&samples, SAMPLE_RATE).unwrap();
    assert_eq!(weights.len(), (HIGH_STEP - LOW_STEP) as usize);
    for (k, w) in weights.iter().enumerate() {
        assert_eq!(w.step, LOW_STEP + k as u32);
    }
}

#[test]
fn too_short_buffer_is_invalid_input() {
    // the lowest candidate's period at 44100 Hz is 674 samples; a
    // buffer of 100 cannot be shifted by it. The samples are loud, so
    // the estimator is actually consulted.
    let samples = vec![5000i16; 100];
    assert_eq!(get_dominant_note(&samples, SAMPLE_RATE), Err(CoreError::InvalidInput));
    assert_eq!(process_capture(&samples, SAMPLE_RATE), Err(CoreError::InvalidInput));
}

#[test]
fn buffer_just_above_the_longest_period_is_accepted() {
    let samples = sine_buffer(440.0, 8000.0, 675);
    assert!(get_dominant_note(&samples, SAMPLE_RATE).is_ok());
}

fn step_frequency(step: u32) -> f64 {
    440.0 * 2f64.powf((step as f64 - 69.0) / 12.0)
}

#[test]
fn sine_wave_selects_its_own_candidate() {
    // a perfect sine at a candidate frequency in the scale's bottom
    // octave must win the scan, up to an adjacent semitone under
    // period quantization. (For higher candidates the scan can prefer
    // a subharmonic: the shift of several whole periods may align
    // even better than one, a known bias of this estimator.)
    let e2 = sine_buffer(step_frequency(40), 8000.0, 2048);
    let note = get_dominant_note(&e2, SAMPLE_RATE).unwrap();
    assert!((note.step as i32 - 40).abs() <= 1, "estimated step {}", note.step);

    let g2 = sine_buffer(step_frequency(43), 8000.0, 2048);
    let note = get_dominant_note(&g2, SAMPLE_RATE).unwrap();
    assert!((note.step as i32 - 43).abs() <= 1, "estimated step {}", note.step);
}

#[test]
fn loud_sine_is_estimated_end_to_end() {
    let samples = sine_buffer(step_frequency(40), 8000.0, 2048);
    let got = process_capture(&samples, SAMPLE_RATE).unwrap();
    let note = got.expect("a loud buffer must yield a note");
    assert!((note.step as i32 - 40).abs() <= 1);
}

#[test]
fn estimated_note_letter_octave_and_label() {
    let a4 = EstimatedNote { step: 69 };
    assert_eq!(a4.letter(), Letter::A);
    assert_eq!(a4.octave(), 4);
    assert_eq!(a4.label(), "A4");

    let c2 = EstimatedNote { step: 36 };
    assert_eq!(c2.letter(), Letter::C);
    assert_eq!(c2.octave(), 2);
    assert_eq!(c2.label(), "C2");

    let gsh5 = EstimatedNote { step: 80 };
    assert_eq!(gsh5.letter(), Letter::Gsh);
    assert_eq!(gsh5.label(), "Gsh5");
}
