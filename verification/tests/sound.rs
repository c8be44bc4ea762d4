use fast_photo_viewer::audio::{
    channel_source, interleave, push_again, sound_played, AudioRing, ChannelSource, DEFAULT_CHANNELS,
    DEFAULT_RATE,
};
use fast_photo_viewer::shared::Shared;

#[test]
fn planes_are_interleaved() {
    assert_eq!(interleave(&[1, 2, 3], Some(&[4, 5, 6]), 3), vec![1, 4, 2, 5, 3, 6]);
    assert_eq!(interleave(&[1, 2], None, 2), vec![1, 1, 2, 2]);
    assert_eq!(interleave(&[1], Some(&[4, 5]), 3), vec![1, 4, 0, 5, 0, 0]);
    assert_eq!(interleave(&[1, 2], Some(&[3, 4]), 1), vec![1, 3]);
    assert_eq!(interleave(&[], None, 0), Vec::<u32>::new());
}

#[test]
fn silence_is_zero() {
    assert_eq!(0.0f32.to_bits(), interleave(&[], None, 1)[0]);
    assert_eq!((DEFAULT_RATE, DEFAULT_CHANNELS), (48_000, 2));
}

#[test]
fn a_ring_takes_what_it_has_room_for() {
    let mut ring = AudioRing::new(1);
    let samples: Vec<u32> = (1..=20).collect();
    let offset = ring.push_from(&samples, 0);
    assert_eq!(offset, 8);
    assert_eq!(ring.push_from(&samples, offset), 8);
    let mut shared = Shared::new();
    assert_eq!(ring.output(&mut shared, 4, 2), vec![(1, 2), (3, 4)]);
    assert_eq!(ring.push_from(&samples, offset), 12);
    assert_eq!(ring.output(&mut shared, 8, 2), vec![(5, 6), (7, 8), (9, 10), (11, 12)]);
}

#[test]
fn an_empty_ring_is_silent() {
    let mut ring = AudioRing::new(1);
    let mut shared = Shared::new();
    assert_eq!(ring.output(&mut shared, 4, 2), vec![(0, 0), (0, 0)]);
    assert_eq!(ring.push_from(&vec![5], 0), 1);
    assert_eq!(ring.output(&mut shared, 4, 2), vec![(5, 5), (0, 0)]);
}

#[test]
fn the_number_of_frames_follows_the_channels() {
    let mut ring = AudioRing::new(2);
    let mut shared = Shared::new();
    assert_eq!(ring.output(&mut shared, 7, 3).len(), 2);
    assert_eq!(ring.output(&mut shared, 3, 1).len(), 3);
    assert_eq!(ring.output(&mut shared, 3, 0).len(), 3);
}

#[test]
fn a_seek_throws_away_what_waits() {
    let mut ring = AudioRing::new(1);
    ring.push_from(&vec![1, 2, 3, 4], 0);
    let mut shared = Shared::new();
    shared.audio_drain_flag = true;
    assert_eq!(ring.output(&mut shared, 2, 2), vec![(0, 0)]);
    assert!(!shared.audio_drain_flag);
    ring.push_from(&vec![7, 8], 0);
    assert_eq!(ring.output(&mut shared, 2, 2), vec![(7, 8)]);
}

#[test]
fn frames_come_out_as_they_went_in() {
    let mut ring = AudioRing::new(10);
    let mut shared = Shared::new();
    let samples = interleave(&[1, 2, 3], Some(&[11, 12, 13]), 3);
    ring.push_from(&samples, 0);
    let mut out = ring.output(&mut shared, 2, 2);
    out.extend(ring.output(&mut shared, 4, 2));
    assert_eq!(out, vec![(1, 11), (2, 12), (3, 13)]);
}

#[test]
fn pushing_ends_after_its_deadline() {
    assert!(push_again(3, 4, 0));
    assert!(push_again(3, 4, 4));
    assert!(!push_again(3, 4, 5));
    assert!(!push_again(4, 4, 0));
}

#[test]
fn further_channels_get_the_mean() {
    assert_eq!(channel_source(0), ChannelSource::Left);
    assert_eq!(channel_source(1), ChannelSource::Right);
    assert_eq!(channel_source(2), ChannelSource::Mean);
    assert_eq!(channel_source(7), ChannelSource::Mean);
}

#[test]
fn sound_moves_the_clock_on() {
    let mut shared = Shared::new();
    sound_played(&mut shared, 480, 10_000);
    assert_eq!(shared.audio_clock_us, 10_000);
    sound_played(&mut shared, 0, 10_000);
    assert_eq!(shared.audio_clock_us, 10_000);
    shared.clock_frozen = true;
    sound_played(&mut shared, 480, 10_000);
    assert_eq!(shared.audio_clock_us, 10_000);
}
