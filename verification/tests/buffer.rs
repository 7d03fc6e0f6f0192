use keyfinder::AudioData;

/// Fixed-point scale used by these tests: an amplitude of 1.0 is 2^24.
fn fx(x: f32) -> i32 {
    (x * 16777216.0) as i32
}

#[test]
fn test_audio_data_new() {
    let audio = AudioData::new();
    assert_eq!(audio.sample_count(), 0);
}

#[test]
fn test_audio_data_set_and_get_properties() {
    let mut audio = AudioData::new();
    audio.set_frame_rate(44100);
    audio.set_channels(2);

    assert_eq!(audio.frame_rate(), 44100);
    assert_eq!(audio.channels(), 2);
}

#[test]
fn test_audio_data_extend() {
    let mut audio = AudioData::new();
    audio.set_frame_rate(44100);
    audio.set_channels(2);

    let samples = vec![fx(0.1), fx(-0.2), fx(0.3), fx(-0.4)];
    audio.append(&samples);

    assert_eq!(audio.sample_count(), 4);
    assert_eq!(audio.frame_count(), 2);
}

#[test]
fn test_audio_data_from_iterator() {
    let samples: Vec<i32> = [0.1, 0.2, 0.3, 0.4, 0.5, 0.6].into_iter().map(fx).collect();
    let mut audio = AudioData::from_samples(samples);
    audio.set_frame_rate(48000);
    audio.set_channels(1);

    assert_eq!(audio.sample_count(), 6);
    assert_eq!(audio.frame_count(), 6);
    assert_eq!(audio.channels(), 1);
}

#[test]
fn test_audio_data_reduce_to_mono() {
    let mut audio = AudioData::new();
    audio.set_frame_rate(44100);
    audio.set_channels(2);

    // Stereo: left, right, left, right
    audio.append(&vec![fx(0.5), fx(-0.5), fx(0.3), fx(-0.3)]);

    audio.reduce_to_mono();

    assert_eq!(audio.channels(), 1);
    assert_eq!(audio.frame_count(), 2);
}

#[test]
fn test_audio_data_downsample() {
    let mut audio = AudioData::new();
    audio.set_frame_rate(44100);
    audio.set_channels(1);

    audio.append(&vec![fx(0.1), fx(0.2), fx(0.3), fx(0.4)]);

    audio.downsample(2);

    assert_eq!(audio.frame_rate(), 22050);
}

#[test]
fn test_audio_data_default() {
    let audio = AudioData::default();
    assert_eq!(audio.sample_count(), 0);
}

#[test]
fn frame_count_times_channels_is_sample_count() {
    let mut audio = AudioData::new();
    audio.set_channels(3);
    audio.append(&vec![1, 2, 3, 4, 5, 6]);

    assert_eq!(audio.frame_count() * audio.channels() as usize, audio.sample_count());
}

#[test]
fn append_in_batches_equals_append_at_once() {
    let mut by_batches = AudioData::new();
    by_batches.append(&vec![10, 20]);
    by_batches.append(&vec![30, 40]);

    let mut at_once = AudioData::new();
    at_once.append(&vec![10, 20, 30, 40]);

    assert_eq!(by_batches.samples(), at_once.samples());
    assert_eq!(by_batches.sample_count(), 4);
}

#[test]
fn append_empty_is_noop() {
    let mut audio = AudioData::from_samples(vec![7, 8]);
    audio.append(&vec![]);

    assert_eq!(audio.samples(), &vec![7, 8]);
}

#[test]
fn reduce_to_mono_averages_each_frame() {
    let mut audio = AudioData::new();
    audio.set_frame_rate(44100);
    audio.set_channels(2);
    // One frame with an even sum, one whose mean rounds down: (-5 + 2) / 2
    // floors to -2.
    audio.append(&vec![6, 2, -5, 2]);

    audio.reduce_to_mono();

    assert_eq!(audio.channels(), 1);
    assert_eq!(audio.samples(), &vec![4, -2]);
    assert_eq!(audio.frame_rate(), 44100);
}

#[test]
fn reduce_to_mono_is_idempotent() {
    let mut once = AudioData::new();
    once.set_frame_rate(44100);
    once.set_channels(2);
    once.append(&vec![100, 200, -300, 500]);
    once.reduce_to_mono();

    let mut twice = AudioData::new();
    twice.set_frame_rate(44100);
    twice.set_channels(2);
    twice.append(&vec![100, 200, -300, 500]);
    twice.reduce_to_mono();
    twice.reduce_to_mono();

    assert_eq!(twice.samples(), once.samples());
    assert_eq!(twice.channels(), once.channels());
    assert_eq!(twice.frame_rate(), once.frame_rate());
}

#[test]
fn reduce_to_mono_on_mono_or_empty_is_noop() {
    let mut mono = AudioData::from_samples(vec![1, 2, 3]);
    mono.set_channels(1);
    mono.reduce_to_mono();
    assert_eq!(mono.samples(), &vec![1, 2, 3]);
    assert_eq!(mono.channels(), 1);

    let mut empty = AudioData::new();
    empty.set_channels(2);
    empty.reduce_to_mono();
    assert_eq!(empty.sample_count(), 0);
    assert_eq!(empty.channels(), 2);
}

#[test]
fn reduce_to_mono_drops_trailing_partial_frame() {
    let mut audio = AudioData::new();
    audio.set_channels(2);
    audio.append(&vec![1, 2, 3]);

    audio.reduce_to_mono();

    assert_eq!(audio.samples(), &vec![1]);
    assert_eq!(audio.frame_count(), 1);
}

#[test]
fn downsample_by_two_keeps_every_other_frame() {
    let mut audio = AudioData::new();
    audio.set_frame_rate(44100);
    audio.set_channels(1);
    audio.append(&vec![10, 20, 30, 40]);

    audio.downsample(2);

    assert_eq!(audio.samples(), &vec![10, 30]);
    assert_eq!(audio.frame_rate(), 22050);
    assert_eq!(audio.channels(), 1);
}

#[test]
fn downsample_keeps_whole_frames_together() {
    let mut audio = AudioData::new();
    audio.set_frame_rate(48000);
    audio.set_channels(2);
    audio.append(&vec![1, 2, 3, 4, 5, 6]);

    audio.downsample(2);

    // Frames 0 and 2 stay, each with both channels.
    assert_eq!(audio.samples(), &vec![1, 2, 5, 6]);
    assert_eq!(audio.frame_rate(), 24000);
}

#[test]
fn downsample_by_one_or_zero_is_noop() {
    let mut audio = AudioData::new();
    audio.set_frame_rate(44100);
    audio.set_channels(1);
    audio.append(&vec![10, 20, 30]);

    audio.downsample(1);
    assert_eq!(audio.samples(), &vec![10, 20, 30]);
    assert_eq!(audio.frame_rate(), 44100);

    audio.downsample(0);
    assert_eq!(audio.samples(), &vec![10, 20, 30]);
    assert_eq!(audio.frame_rate(), 44100);
}

#[test]
fn frame_count_of_empty_buffer_is_zero() {
    let mut audio = AudioData::new();
    audio.set_channels(2);

    assert_eq!(audio.sample_count(), 0);
    assert_eq!(audio.frame_count(), 0);
}

#[test]
fn frame_count_without_channels_is_zero() {
    let audio = AudioData::from_samples(vec![1, 2, 3]);

    assert_eq!(audio.channels(), 0);
    assert_eq!(audio.frame_count(), 0);
}

#[test]
fn analysis_ready_wants_well_formed_metadata() {
    let mut audio = AudioData::new();
    audio.set_frame_rate(44100);
    audio.set_channels(2);
    audio.append(&vec![1, 2, 3, 4]);
    assert!(audio.analysis_ready());

    audio.set_frame_rate(0);
    assert!(!audio.analysis_ready());
    audio.set_frame_rate(44100);

    audio.set_channels(0);
    assert!(!audio.analysis_ready());

    // A sample count that is not a whole number of frames is malformed.
    audio.set_channels(3);
    assert!(!audio.analysis_ready());
}
