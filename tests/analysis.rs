use tuner::app::{collect_block, AppBuilder, DEFAULT_HEIGHT, DEFAULT_WIDTH, DEFAULT_WINDOW_TITLE};
use tuner::circular_buffer::CircularBuffer;
use tuner::audio_analysis::{low_cut_bins, padded_len, Note, SampleRate, A4_FREQUENCY};

#[test]
fn note_names() {
    assert_eq!(Note::from_number(69), Note::A);
    assert_eq!(Note::from_number(69).to_str(), "A");
    assert_eq!(Note::from_number(60), Note::C);
    assert_eq!(Note::from_number(61).to_str(), "C#");
    assert_eq!(Note::from_number(71), Note::B);
    assert_eq!(Note::from_number(0), Note::C);
    assert_eq!(Note::INVALID.to_str(), "ZENIS");
    assert_eq!(A4_FREQUENCY, 440);
}

#[test]
fn sample_rates() {
    assert_eq!(SampleRate::KHz44_1.to_u32(), 44100);
    assert_eq!(SampleRate::KHz48.to_u32(), 48000);
    assert_eq!(SampleRate::KHz88_2.to_u32(), 88200);
    assert_eq!(SampleRate::KHz96.to_u32(), 96000);
}

#[test]
fn low_cut() {
    // 131072-point transform at 48 kHz: bin 163 is 59.69 Hz, bin 164 is 60.06 Hz.
    assert_eq!(low_cut_bins(131072, 48000), 164);
    // Bin 2 of a 2000-point transform at 60000 Hz is exactly 60 Hz and is cut.
    assert_eq!(low_cut_bins(2000, 60000), 3);
    // Every bin of the half spectrum is at most 60 Hz.
    assert_eq!(low_cut_bins(64, 100), 32);
    assert_eq!(low_cut_bins(0, 48000), 0);
}

#[test]
fn padded_lengths() {
    assert_eq!(padded_len(32768, 3), Some(131072));
    assert_eq!(padded_len(1000, 0), Some(1024));
    assert_eq!(padded_len(1024, 0), Some(1024));
    assert_eq!(padded_len(3, 2), Some(16));
    assert_eq!(padded_len(0, 5), Some(1));
    assert_eq!(padded_len(usize::MAX, 1), None);
    assert_eq!(padded_len(usize::MAX / 2 + 2, 0), None);
}

#[test]
fn builder_defaults_and_overrides() {
    let b = AppBuilder::default();
    assert_eq!(b.title(), DEFAULT_WINDOW_TITLE);
    assert_eq!(b.width(), DEFAULT_WIDTH);
    assert_eq!(b.height(), DEFAULT_HEIGHT);
    assert!(b.vsync());
    let b = AppBuilder::default()
        .window_title("tuner")
        .window_width(1280)
        .window_height(720)
        .vsync_enabled(false);
    assert_eq!(b.title(), "tuner");
    assert_eq!(b.width(), 1280);
    assert_eq!(b.height(), 720);
    assert!(!b.vsync());
}

#[test]
fn blocks_are_handed_on_once_full() {
    let mut staging: CircularBuffer<u32> = CircularBuffer::new(8);
    assert_eq!(collect_block(&mut staging, &[1, 2, 3], 4), None);
    assert_eq!(staging.len(), 3);
    assert_eq!(collect_block(&mut staging, &[4, 5], 4), Some(vec![1, 2, 3, 4]));
    assert_eq!(staging.len(), 1);
    // Overflowing the staging buffer drops the oldest samples first.
    let input: Vec<u32> = (6..16).collect();
    assert_eq!(collect_block(&mut staging, &input, 4), Some(vec![8, 9, 10, 11]));
    let (a, b) = staging.as_slices();
    let rest: Vec<u32> = a.iter().chain(b.iter()).cloned().collect();
    assert_eq!(rest, vec![12, 13, 14, 15]);
}
