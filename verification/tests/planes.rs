use symphonia_adapters::planes::{copy_mono, split_stereo};

#[test]
fn mono_samples_are_copied() {
    let mut plane = [0.0f32; 3];
    copy_mono(&[0.5, -0.25, 1.0], &mut plane);
    assert_eq!(plane, [0.5, -0.25, 1.0]);
}

#[test]
fn stereo_samples_are_split() {
    let mut left = [0.0f32; 3];
    let mut right = [0.0f32; 3];
    split_stereo(&[0.1, 0.2, 0.3, 0.4, 0.5, 0.6], &mut left, &mut right);
    assert_eq!(left, [0.1, 0.3, 0.5]);
    assert_eq!(right, [0.2, 0.4, 0.6]);
}

#[test]
fn samples_behind_a_short_frame_stay() {
    let mut left = [7i16; 3];
    let mut right = [8i16; 4];
    split_stereo(&[1, 2], &mut left, &mut right);
    assert_eq!(left, [1, 7, 7]);
    assert_eq!(right, [2, 8, 8, 8]);
    split_stereo(&[], &mut left, &mut right);
    assert_eq!(left, [1, 7, 7]);
}

#[test]
fn split_samples_interleave_again() {
    let pcm: Vec<i16> = (0..200).map(|i| i * 31 - 500).collect();
    let mut left = vec![0i16; 100];
    let mut right = vec![0i16; 100];
    split_stereo(&pcm, &mut left, &mut right);
    let again: Vec<i16> = left.iter().zip(&right).flat_map(|(l, r)| [*l, *r]).collect();
    assert_eq!(again, pcm);
}
