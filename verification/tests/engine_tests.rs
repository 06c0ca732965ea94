//! Tests for the engine: message processing, queue policy, and rendering.

use synth::config::DMA_BUFFER_SIZE;
use synth::engine::Engine;
use synth::message::Message;

fn buffer_of(len: usize) -> Vec<u8> {
    let mut b: Vec<u8> = Vec::new();
    for i in 0..len {
        b.push((i % 251) as u8);
    }
    b
}

#[test]
fn render_writes_multiple_of_four() {
    for len in 0..12usize {
        let mut e = Engine::new(44_100);
        let mut buf = buffer_of(len);
        let written: usize = e.render(&mut buf);
        assert_eq!(written, len - (len % 4));
        assert!(written <= buf.len());
        assert_eq!(buf.len(), len);
        // Trailing bytes past the last complete frame stay untouched.
        for j in written..len {
            assert_eq!(buf[j], (j % 251) as u8);
        }
    }
}

#[test]
fn render_rejects_short_buffer() {
    let mut e = Engine::new(44_100);
    let mut buf = buffer_of(3);
    assert_eq!(e.render(&mut buf), 0);
    assert_eq!(buf, buffer_of(3));
}

#[test]
fn scenario_no_voice_active_renders_silence() {
    // No voice ever toggled on: any buffer size renders all-zero bytes,
    // even with selection and parameter traffic in the queue.
    let mut e = Engine::new(44_100);
    assert!(e.enqueue_message(Message::SelectVoice(0)));
    assert!(e.enqueue_message(Message::SetFrequency(220_000)));
    assert!(e.enqueue_message(Message::SetVolume(32768)));
    let mut buf = buffer_of(DMA_BUFFER_SIZE);
    let written: usize = e.render(&mut buf);
    assert_eq!(written, DMA_BUFFER_SIZE);
    for j in 0..written {
        assert_eq!(buf[j], 0);
    }
}

#[test]
fn scenario_single_frame_stereo_duplicated() {
    // Select voice 0, toggle it on, set 220 Hz and full volume; render one
    // 4-byte frame at 44.1 kHz. The frame holds two identical little-endian
    // 16-bit samples, non-zero, magnitude bounded by the master gain.
    let mut e = Engine::new(44_100);
    assert!(e.enqueue_message(Message::SelectVoice(0)));
    assert!(e.enqueue_message(Message::ToggleVoice(0)));
    assert!(e.enqueue_message(Message::SetFrequency(220_000)));
    assert!(e.enqueue_message(Message::SetVolume(32768)));
    let mut buf = buffer_of(4);
    assert_eq!(e.render(&mut buf), 4);
    assert_eq!(buf[0], buf[2]);
    assert_eq!(buf[1], buf[3]);
    let sample: i16 = i16::from_le_bytes([buf[0], buf[1]]);
    assert!(sample != 0);
    assert!(-27852 <= sample as i32 && sample as i32 <= 27852);
    // Exact value of the first rendered sample of this scenario.
    assert_eq!(buf, vec![201u8, 3u8, 201u8, 3u8]);
}

#[test]
fn scenario_queue_overflow_drops_newest() {
    // Queue at capacity: one more SetVolume is discarded, the queue length
    // is unchanged, and nothing panics.
    let mut e = Engine::new(44_100);
    for _ in 0..8 {
        assert!(e.enqueue_message(Message::SetVolume(1)));
    }
    assert_eq!(e.pending_messages(), 8);
    assert!(!e.enqueue_message(Message::SetVolume(2)));
    assert_eq!(e.pending_messages(), 8);
    // The engine still renders and drains the eight accepted messages.
    let mut buf = buffer_of(8);
    assert_eq!(e.render(&mut buf), 8);
    assert_eq!(e.pending_messages(), 0);
}

#[test]
fn toggle_invalid_index_is_ignored() {
    let mut e = Engine::new(44_100);
    assert!(e.enqueue_message(Message::ToggleVoice(5)));
    let mut buf = buffer_of(8);
    assert_eq!(e.render(&mut buf), 8);
    for j in 0..8 {
        assert_eq!(buf[j], 0);
    }
}

#[test]
fn toggle_turns_voice_on() {
    // Toggle voice 0 on with everything else at defaults: 77 Hz, volume
    // 29491. The first two frames hold the exact expected samples.
    let mut e = Engine::new(44_100);
    assert!(e.enqueue_message(Message::ToggleVoice(0)));
    let mut buf = buffer_of(8);
    assert_eq!(e.render(&mut buf), 8);
    assert_eq!(buf, vec![194u8, 0u8, 194u8, 0u8, 71u8, 2u8, 71u8, 2u8]);
}

#[test]
fn toggle_twice_silences_again() {
    let mut e = Engine::new(44_100);
    assert!(e.enqueue_message(Message::ToggleVoice(0)));
    assert!(e.enqueue_message(Message::ToggleVoice(0)));
    let mut buf = buffer_of(8);
    assert_eq!(e.render(&mut buf), 8);
    for j in 0..8 {
        assert_eq!(buf[j], 0);
    }
}

#[test]
fn messages_apply_in_fifo_order() {
    // SetVolume before SelectVoice is a no-op (nothing selected yet), so
    // the voice keeps its default volume; the reversed order applies it.
    let mut a = Engine::new(44_100);
    assert!(a.enqueue_message(Message::SetVolume(0)));
    assert!(a.enqueue_message(Message::SelectVoice(0)));
    assert!(a.enqueue_message(Message::ToggleVoice(0)));
    let mut buf_a = buffer_of(4);
    assert_eq!(a.render(&mut buf_a), 4);
    assert_eq!(buf_a, vec![194u8, 0u8, 194u8, 0u8]);

    let mut b = Engine::new(44_100);
    assert!(b.enqueue_message(Message::SelectVoice(0)));
    assert!(b.enqueue_message(Message::SetVolume(0)));
    assert!(b.enqueue_message(Message::ToggleVoice(0)));
    let mut buf_b = buffer_of(4);
    assert_eq!(b.render(&mut buf_b), 4);
    assert_eq!(buf_b, vec![192u8, 0u8, 192u8, 0u8]);
}

#[test]
fn parameter_message_without_selection_is_ignored() {
    let mut e = Engine::new(44_100);
    assert!(e.enqueue_message(Message::SetFrequency(220_000)));
    assert!(e.enqueue_message(Message::ToggleVoice(0)));
    let mut buf = buffer_of(4);
    assert_eq!(e.render(&mut buf), 4);
    // The frequency message was dropped: the voice still plays 77 Hz.
    assert_eq!(buf, vec![194u8, 0u8, 194u8, 0u8]);
}

#[test]
fn full_mix_stays_inside_master_gain() {
    // All three voices on at full volume: every rendered sample stays
    // within the headroom the master gain provides.
    let mut e = Engine::new(44_100);
    for i in 0..3u8 {
        assert!(e.enqueue_message(Message::SelectVoice(i)));
        assert!(e.enqueue_message(Message::SetVolume(32768)));
    }
    let mut buf = buffer_of(DMA_BUFFER_SIZE);
    assert_eq!(e.render(&mut buf), DMA_BUFFER_SIZE);
    // Selections alone make no sound.
    for j in 0..DMA_BUFFER_SIZE {
        assert_eq!(buf[j], 0);
    }
    for i in 0..3u8 {
        assert!(e.enqueue_message(Message::ToggleVoice(i)));
    }
    assert_eq!(e.render(&mut buf), DMA_BUFFER_SIZE);
    let mut nonzero: usize = 0;
    for f in 0..(DMA_BUFFER_SIZE / 4) {
        let left: i16 = i16::from_le_bytes([buf[4 * f], buf[4 * f + 1]]);
        let right: i16 = i16::from_le_bytes([buf[4 * f + 2], buf[4 * f + 3]]);
        assert_eq!(left, right);
        assert!(-27852 <= left as i32 && left as i32 <= 27852);
        if left != 0 {
            nonzero += 1;
        }
    }
    assert!(nonzero > 0);
}

#[test]
fn selection_overwrites_prior_selection() {
    // Selecting voice 1 after voice 0 routes the volume change to voice 1:
    // voice 0 keeps its default volume, so the mix matches the default-only
    // scenario.
    let mut e = Engine::new(44_100);
    assert!(e.enqueue_message(Message::SelectVoice(0)));
    assert!(e.enqueue_message(Message::SelectVoice(1)));
    assert!(e.enqueue_message(Message::SetVolume(0)));
    assert!(e.enqueue_message(Message::ToggleVoice(0)));
    let mut buf = buffer_of(4);
    assert_eq!(e.render(&mut buf), 4);
    assert_eq!(buf, vec![194u8, 0u8, 194u8, 0u8]);
}
