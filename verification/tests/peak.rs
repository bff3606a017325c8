use fart_analyzer::error::AnalysisError;
use fart_analyzer::spectrum::peak_bin;

fn patterns(magnitudes: &[f32]) -> Vec<u32> {
    magnitudes.iter().map(|m| m.to_bits()).collect()
}

#[test]
fn empty_spectrum_has_no_peak() {
    let none: Vec<u32> = Vec::new();
    assert_eq!(peak_bin(&none), Err(AnalysisError::InvalidInput));
}

#[test]
fn single_bin_is_the_peak() {
    assert_eq!(peak_bin(&patterns(&[3.0])), Ok(0));
    assert_eq!(peak_bin(&patterns(&[0.0])), Ok(0));
    assert_eq!(peak_bin(&patterns(&[f32::NAN])), Ok(0));
}

#[test]
fn greatest_magnitude_wins() {
    assert_eq!(peak_bin(&patterns(&[1.0, 7.5, 2.0, 0.5, 0.0, 0.0, 0.0, 0.0])), Ok(1));
    assert_eq!(peak_bin(&patterns(&[1.0, 2.0, 3.0, 4.0, 9.0, 0.0, 0.0, 0.0])), Ok(4));
    assert_eq!(peak_bin(&patterns(&[9.0, 2.0, 3.0, 4.0, 1.0, 0.0, 0.0, 0.0])), Ok(0));
}

#[test]
fn first_of_equal_magnitudes_wins() {
    assert_eq!(peak_bin(&patterns(&[1.0, 5.0, 5.0, 5.0, 2.0, 0.0, 0.0, 0.0])), Ok(1));
    assert_eq!(peak_bin(&patterns(&[0.0, 0.0, 0.0, 0.0])), Ok(0));
    assert_eq!(peak_bin(&patterns(&[2.0, 2.0])), Ok(0));
}

#[test]
fn the_zeros_tie() {
    assert_eq!(peak_bin(&patterns(&[-0.0, 0.0, 0.0, 0.0])), Ok(0));
    assert_eq!(peak_bin(&patterns(&[0.0, -0.0, 0.0, 0.0])), Ok(0));
}

#[test]
fn bins_above_nyquist_are_not_searched() {
    assert_eq!(peak_bin(&patterns(&[1.0, 2.0, 3.0, 9.0])), Ok(2));
    assert_eq!(peak_bin(&patterns(&[0.0, 1.0, 0.5, 0.25, 0.1, 0.25, 0.5, 8.0])), Ok(1));
    assert_eq!(peak_bin(&patterns(&[0.0, 0.0, 0.0, 0.0, 0.0, 6.0, 6.0, 6.0])), Ok(0));
}

#[test]
fn the_nyquist_bin_is_searched() {
    assert_eq!(peak_bin(&patterns(&[1.0, 4.0])), Ok(1));
    assert_eq!(peak_bin(&patterns(&[1.0, 2.0, 3.0, 0.0])), Ok(2));
    assert_eq!(peak_bin(&patterns(&[0.0, 1.0, 2.0, 3.0, 4.0, 0.0, 0.0, 0.0])), Ok(4));
}

#[test]
fn spectrum_of_odd_length() {
    assert_eq!(peak_bin(&patterns(&[1.0, 2.0, 3.0])), Ok(1));
    assert_eq!(peak_bin(&patterns(&[1.0, 2.0, 3.0, 4.0, 5.0])), Ok(2));
}

#[test]
fn nan_is_below_every_number() {
    assert_eq!(peak_bin(&patterns(&[f32::NAN, 1.0, 2.0, 0.0])), Ok(2));
    assert_eq!(peak_bin(&patterns(&[f32::NAN, 0.0, 0.0, 0.0])), Ok(1));
    assert_eq!(peak_bin(&patterns(&[3.0, f32::NAN, 2.0, 0.0])), Ok(0));
    assert_eq!(peak_bin(&patterns(&[1.0, f32::NAN, 2.0, 0.0])), Ok(2));
    assert_eq!(peak_bin(&patterns(&[f32::NAN, -f32::NAN, f32::NAN, f32::NAN])), Ok(0));
}

#[test]
fn infinity_is_above_every_number() {
    assert_eq!(peak_bin(&patterns(&[f32::MAX, f32::INFINITY, f32::INFINITY, 0.0])), Ok(1));
}

#[test]
fn subnormal_magnitudes_are_ordered() {
    let spectrum = vec![0u32, 1, 3, 2, 0, 0, 0, 0];
    assert_eq!(peak_bin(&spectrum), Ok(2));
}

#[test]
fn peak_is_never_above_nyquist() {
    let mut seed: u32 = 0x1234_5678;
    for len in 1usize..200 {
        let mut spectrum: Vec<u32> = Vec::new();
        for _ in 0..len {
            seed = seed.wrapping_mul(1664525).wrapping_add(1013904223);
            spectrum.push((seed >> 1) % 0x7f80_0001);
        }
        let p = peak_bin(&spectrum).unwrap();
        assert!(2 * p <= len);
        for i in 0..=(len / 2) {
            assert!(f32::from_bits(spectrum[i]) <= f32::from_bits(spectrum[p]));
        }
        for i in 0..p {
            assert!(f32::from_bits(spectrum[i]) < f32::from_bits(spectrum[p]));
        }
    }
}

#[test]
fn searching_twice_gives_the_same_bin() {
    let spectrum = patterns(&[0.1, 0.7, 0.7, 0.2, 0.9, 0.9, 0.3, 0.0]);
    assert_eq!(peak_bin(&spectrum), peak_bin(&spectrum));
    assert_eq!(peak_bin(&spectrum), Ok(4));
}
