use eq_layer::ring::{slot_action, LatencyBuffer, Playback};
use eq_layer::run::{poll_interval_ms, Instance};
use eq_layer::settings::Settings;

#[test]
fn the_queue_is_sized_from_the_latency() {
    let buffer = LatencyBuffer::new(48000, 100).unwrap();
    assert_eq!(buffer.len(), 4800);
    let mut buffer = buffer;
    let offered = vec![1u32; 20000];
    assert_eq!(buffer.capture(&offered), 4 * 4800 - 4800);
    assert_eq!(buffer.len(), 19200);
}

#[test]
fn a_latency_of_less_than_a_frame_gives_no_queue() {
    assert!(LatencyBuffer::new(48000, 0).is_none());
    assert!(LatencyBuffer::new(0, 100).is_none());
    assert!(LatencyBuffer::new(999, 1).is_none());
    assert!(LatencyBuffer::new(1000, 1).is_some());
    assert_eq!(LatencyBuffer::new(1999, 1).unwrap().len(), 1);
}

#[test]
fn the_latency_of_silence_is_played_first() {
    let mut buffer = LatencyBuffer::new(1000, 3).unwrap();
    assert_eq!(buffer.capture(&[7, 8, 9]), 3);
    let out = buffer.playback(8, false);
    assert_eq!(
        out,
        vec![
            Playback::Bypass(0),
            Playback::Bypass(0),
            Playback::Bypass(0),
            Playback::Bypass(7),
            Playback::Bypass(8),
            Playback::Bypass(9),
            Playback::Silence,
            Playback::Silence,
        ]
    );
    assert_eq!(buffer.len(), 0);
}

#[test]
fn a_full_queue_drops_what_it_is_offered() {
    let mut buffer = LatencyBuffer::new(1000, 1).unwrap();
    assert_eq!(buffer.capture(&[1, 2, 3, 4, 5]), 3);
    assert_eq!(buffer.len(), 4);
    assert!(!buffer.push(6));
    assert_eq!(buffer.capture(&[7, 8]), 0);
    assert_eq!(buffer.len(), 4);
    assert_eq!(
        buffer.playback(5, true),
        vec![
            Playback::Process(0),
            Playback::Process(1),
            Playback::Process(2),
            Playback::Process(3),
            Playback::Silence,
        ]
    );
}

#[test]
fn an_empty_queue_gives_no_sample() {
    let mut buffer = LatencyBuffer::new(1000, 1).unwrap();
    assert_eq!(buffer.pop(), Some(0));
    assert_eq!(buffer.pop(), None);
    assert_eq!(buffer.pop(), None);
    assert_eq!(buffer.playback(2, true), vec![Playback::Silence, Playback::Silence]);
    assert!(buffer.playback(0, true).is_empty());
    assert_eq!(buffer.len(), 0);
}

#[test]
fn samples_leave_in_the_order_in_which_they_came() {
    let mut buffer = LatencyBuffer::new(1000, 2).unwrap();
    assert_eq!(buffer.pop(), Some(0));
    assert_eq!(buffer.pop(), Some(0));
    for round in 0..5u32 {
        for k in 0..8u32 {
            assert!(buffer.push(round * 8 + k));
        }
        assert!(!buffer.push(1000));
        for k in 0..8u32 {
            assert_eq!(buffer.pop(), Some(round * 8 + k));
        }
        assert_eq!(buffer.pop(), None);
    }
}

#[test]
fn the_two_ends_share_the_queue() {
    let buffer = LatencyBuffer::new(1000, 2).unwrap();
    let (mut capture, mut playback) = buffer.split();
    assert_eq!(capture.capture(&[5, 6, 7]), 3);
    assert_eq!(capture.capture(&[8, 9, 10, 11, 12]), 3);
    assert_eq!(
        playback.playback(4, true),
        vec![
            Playback::Process(0),
            Playback::Process(0),
            Playback::Process(5),
            Playback::Process(6),
        ]
    );
    assert_eq!(
        playback.playback(6, false),
        vec![
            Playback::Bypass(7),
            Playback::Bypass(8),
            Playback::Bypass(9),
            Playback::Bypass(10),
            Playback::Silence,
            Playback::Silence,
        ]
    );
    assert_eq!(capture.capture(&[]), 0);
}

#[test]
fn the_two_ends_keep_the_order_over_many_blocks() {
    let buffer = LatencyBuffer::new(1000, 64).unwrap();
    let (mut capture, mut playback) = buffer.split();
    let mut taken = 0usize;
    for block in 0..50u32 {
        let data: Vec<u32> = (0..4).map(|k| 1 + block * 4 + k).collect();
        taken += capture.capture(&data);
    }
    assert_eq!(taken, 4 * 64 - 64);
    let out = playback.playback(4 * 64 + 1, false);
    assert_eq!(out.len(), 4 * 64 + 1);
    for (i, slot) in out.iter().enumerate() {
        let expected = if i < 64 {
            Playback::Bypass(0)
        } else if i < 4 * 64 {
            Playback::Bypass((i - 64) as u32 + 1)
        } else {
            Playback::Silence
        };
        assert_eq!(*slot, expected);
    }
}

#[test]
fn one_slot_at_a_time() {
    let mut buffer = LatencyBuffer::new(1000, 1).unwrap();
    assert!(buffer.push(7));
    assert_eq!(buffer.next_slot(true), Playback::Process(0));
    assert_eq!(buffer.next_slot(false), Playback::Bypass(7));
    assert_eq!(buffer.next_slot(true), Playback::Silence);
    assert_eq!(buffer.len(), 0);
    let (mut capture, mut playback) = LatencyBuffer::new(1000, 1).unwrap().split();
    assert!(capture.offer(5));
    assert!(capture.offer(6));
    assert!(capture.offer(7));
    assert!(!capture.offer(8));
    assert_eq!(playback.next_slot(false), Playback::Bypass(0));
    assert!(capture.offer(9));
    assert!(!capture.offer(10));
    assert_eq!(playback.next_slot(true), Playback::Process(5));
    assert_eq!(playback.next_slot(false), Playback::Bypass(6));
    assert_eq!(playback.next_slot(false), Playback::Bypass(7));
    assert_eq!(playback.next_slot(false), Playback::Bypass(9));
    assert_eq!(playback.next_slot(false), Playback::Silence);
    assert_eq!(playback.next_slot(true), Playback::Silence);
}

#[test]
fn what_playback_does_with_a_slot() {
    assert_eq!(slot_action(Some(3), true), Playback::Process(3));
    assert_eq!(slot_action(Some(3), false), Playback::Bypass(3));
    assert_eq!(slot_action(None, true), Playback::Silence);
    assert_eq!(slot_action(None, false), Playback::Silence);
}

#[test]
fn silence_is_the_bit_pattern_of_zero() {
    let mut buffer = LatencyBuffer::new(1000, 1).unwrap();
    match buffer.pop() {
        Some(bits) => assert_eq!(f32::from_bits(bits), 0.0),
        None => panic!("the queue holds its latency of silence"),
    }
}

#[test]
fn counting_up_stops_the_old_instance_and_not_the_new_one() {
    let settings = Settings::new(100);
    let old = Instance::begin(&settings);
    assert!(!old.should_stop(&settings));
    assert_eq!(settings.supersede(), 0);
    assert!(old.should_stop(&settings));
    let new = Instance::begin(&settings);
    assert!(!new.should_stop(&settings));
    assert!(old.should_stop(&settings));
    assert_eq!(settings.instance(), 1);
}

#[test]
fn a_clone_of_the_settings_shares_flag_and_counter() {
    let settings = Settings::new(250);
    let shared = settings.clone();
    let instance = Instance::begin(&shared);
    settings.supersede();
    assert!(instance.should_stop(&shared));
    assert!(shared.eq_enabled());
    settings.set_eq_enabled(false);
    assert!(!shared.eq_enabled());
    assert_eq!(shared.latency, 250);
}

#[test]
fn an_instance_compares_its_tag() {
    let instance = Instance::tagged(7);
    assert!(!instance.is_superseded_by(7));
    assert!(instance.is_superseded_by(8));
    assert!(instance.is_superseded_by(6));
    assert!(Instance::tagged(usize::MAX).is_superseded_by(0));
    assert_eq!(instance, Instance::tagged(7));
}

#[test]
fn the_poll_interval_is_the_latency() {
    assert_eq!(poll_interval_ms(&Settings::new(100)), 100);
    assert_eq!(poll_interval_ms(&Settings::new(0)), 0);
    assert_eq!(poll_interval_ms(&Settings::new(u32::MAX)), u32::MAX as u64);
}
