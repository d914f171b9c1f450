use knightingale_core::audio::{downmix_i16, trim_edge_silence, TARGET_SAMPLE_RATE};

#[test]
fn downmix_stereo_to_mono() {
    let stereo = vec![100i16, 200, 300, 400];
    let mono = downmix_i16(&stereo, 2);
    assert_eq!(mono, vec![150, 350]);
}

#[test]
fn trim_strips_edges() {
    let samples: Vec<i16> = vec![10, 20, 30, 5000, 6000, 7000, 40, 30, 20];
    let trimmed = trim_edge_silence(&samples, 100);
    assert_eq!(trimmed, &[5000, 6000, 7000]);
}

#[test]
fn trim_handles_all_silent() {
    let samples: Vec<i16> = vec![10, 20, 30, 40];
    let trimmed = trim_edge_silence(&samples, 100);
    assert!(trimmed.is_empty());
}

#[test]
fn trim_keeps_quiet_samples_between_loud_ones() {
    let samples: Vec<i16> = vec![0, -300, 5, 0, 400, 1];
    assert_eq!(trim_edge_silence(&samples, 200), &[-300, 5, 0, 400]);
}

#[test]
fn trim_uses_magnitude_of_threshold_and_samples() {
    let samples: Vec<i16> = vec![-99, -101, 100, i16::MIN, 99];
    assert_eq!(trim_edge_silence(&samples, -100), &[-101, 100, i16::MIN]);
    assert_eq!(trim_edge_silence(&[], 0), &[] as &[i16]);
}

#[test]
fn trim_keeps_a_sample_at_the_threshold() {
    assert_eq!(trim_edge_silence(&[100], 100), &[100]);
    assert_eq!(trim_edge_silence(&[0, 99, -100, 99], 100), &[-100]);
    assert_eq!(trim_edge_silence(&[0, 0], 0), &[0, 0]);
}

#[test]
fn downmix_mono_is_a_copy() {
    assert_eq!(downmix_i16(&[1, -2, 3], 1), vec![1, -2, 3]);
    assert_eq!(downmix_i16(&[1, -2, 3], 0), vec![1, -2, 3]);
}

#[test]
fn downmix_rounds_toward_zero_and_keeps_partial_frame() {
    // (-3 + -2) / 2 = -2 (toward zero); the trailing 7 is divided by 2 too.
    assert_eq!(downmix_i16(&[-3, -2, 7], 2), vec![-2, 3]);
    assert_eq!(downmix_i16(&[i16::MIN, i16::MIN, i16::MAX, i16::MAX], 2), vec![i16::MIN, i16::MAX]);
}

#[test]
fn target_rate_is_16k() {
    assert_eq!(TARGET_SAMPLE_RATE, 16_000);
}

#[test]
fn downmix_many_channels() {
    let silent = vec![0i16; 100_000];
    assert_eq!(downmix_i16(&silent, 100_000), vec![0]);
    let mut loud = vec![i16::MAX; 65_000];
    loud.extend(vec![1i16; 3]);
    assert_eq!(downmix_i16(&loud, 65_000), vec![i16::MAX, 0]);
}

#[test]
fn trimming_twice_or_with_the_negated_threshold_is_the_same() {
    let samples: Vec<i16> = vec![3, -120, 7, 0, 130, -2, 99];
    let once = trim_edge_silence(&samples, 100);
    assert_eq!(once, &[-120, 7, 0, 130]);
    assert_eq!(trim_edge_silence(once, 100), once);
    assert_eq!(trim_edge_silence(&samples, -100), once);
}
