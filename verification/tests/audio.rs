use feosynth::audio::{drain, process, render_buffer, take};
use feosynth::midi::{midi_queue, MidiMessage};
use feosynth::oscillator::Oscillator;
use feosynth::types::SampleRated;
use feosynth::wavetable::Waveforms;

fn engine() -> Oscillator {
    let mut osc = Oscillator::new(Waveforms::Saw);
    osc.set_sample_rate(48000);
    osc
}

#[test]
fn drain_dispatches_what_waits_in_order() {
    let (mut producer, consumer) = midi_queue();
    let mut osc = engine();
    let mut expected = engine();
    let script = [
        MidiMessage::NoteOn { channel: 0, note: 60, velocity: 100 },
        MidiMessage::NoteOn { channel: 0, note: 64, velocity: 90 },
        MidiMessage::NoteOff { channel: 0, note: 60, velocity: 0 },
        MidiMessage::NoteOn { channel: 0, note: 60, velocity: 20 },
    ];
    for msg in script.iter() {
        producer.push(*msg).unwrap();
        expected.dispatch(msg);
    }
    assert_eq!(drain(&consumer, &mut osc), 4);
    assert_eq!(drain(&consumer, &mut osc), 0);
    assert_eq!(osc.active_voices(), 2);
    assert_eq!(osc.note(60).vel, expected.note(60).vel);
    assert_eq!(osc.polyphony(), expected.polyphony());
    for _ in 0..100 {
        assert_eq!(osc.render_frame(), expected.render_frame());
    }
}

#[test]
fn take_dispatches_what_was_found() {
    let mut osc = engine();
    let mut expected = engine();
    let on = MidiMessage::NoteOn { channel: 0, note: 60, velocity: 100 };
    assert!(take(&mut osc, Some(on)));
    expected.dispatch(&on);
    assert_eq!(osc.active_voices(), 1);
    assert_eq!(osc.note(60).vel, expected.note(60).vel);
    assert!(osc.note(60).down);
    assert!(!take(&mut osc, None));
    assert_eq!(osc.active_voices(), 1);
    assert_eq!(osc.polyphony(), 1);
    for _ in 0..50 {
        assert_eq!(osc.render_frame(), expected.render_frame());
    }
}

#[test]
fn drain_takes_a_full_queue() {
    let (mut producer, consumer) = midi_queue();
    let mut osc = engine();
    for i in 0..300u32 {
        let _ = producer.push(MidiMessage::NoteOn { channel: 0, note: (i % 128) as u8, velocity: 1 });
    }
    assert_eq!(drain(&consumer, &mut osc), 256);
    assert_eq!(osc.active_voices(), 128);
    assert_eq!(osc.polyphony(), 128);
    assert_eq!(consumer.poll(), None);
}

#[test]
fn render_buffer_interleaves_frames() {
    let mut osc = engine();
    let mut expected = engine();
    osc.note_on(69, 127);
    expected.note_on(69, 127);
    let mut out = vec![7; 64];
    render_buffer(&mut osc, &mut out, 2);
    assert_eq!(out.len(), 64);
    for f in 0..32 {
        let (l, r) = expected.render_frame();
        assert_eq!(out[2 * f], l);
        assert_eq!(out[2 * f + 1], r);
    }
    assert_eq!(osc.note(69).phase.phase, expected.note(69).phase.phase);
}

#[test]
fn render_buffer_fills_a_last_incomplete_frame() {
    let mut osc = engine();
    let mut expected = engine();
    osc.note_on(30, 127);
    expected.note_on(30, 127);
    let mut out = vec![0; 10];
    render_buffer(&mut osc, &mut out, 4);
    let mut frames = Vec::new();
    for _ in 0..3 {
        frames.push(expected.render_frame().0);
    }
    for i in 0..10 {
        assert_eq!(out[i], frames[i / 4]);
    }
    assert_eq!(osc.note(30).phase.phase, expected.note(30).phase.phase);
    assert!(out[9] != 0);
}

#[test]
fn render_buffer_of_one_channel_and_of_no_samples() {
    let mut osc = engine();
    let mut expected = engine();
    osc.note_on(90, 127);
    expected.note_on(90, 127);
    let mut none: Vec<i64> = Vec::new();
    render_buffer(&mut osc, &mut none, 2);
    assert!(none.is_empty());
    let mut out = vec![0; 5];
    render_buffer(&mut osc, &mut out, 1);
    for i in 0..5 {
        assert_eq!(out[i], expected.render_frame().0);
    }
}

#[test]
fn process_drains_before_it_renders() {
    let (mut producer, consumer) = midi_queue();
    let mut osc = engine();
    let mut expected = engine();
    let on = MidiMessage::NoteOn { channel: 0, note: 57, velocity: 127 };
    producer.push(on).unwrap();
    expected.dispatch(&on);
    let mut out = vec![0; 32];
    assert_eq!(process(&mut osc, &consumer, &mut out, 2), 1);
    for f in 0..16 {
        let (l, _) = expected.render_frame();
        assert_eq!(out[2 * f], l);
        assert_eq!(out[2 * f + 1], l);
    }
    assert!(out[31] != 0);
    // a message that arrives later waits for the next buffer
    let off = MidiMessage::NoteOff { channel: 0, note: 57, velocity: 0 };
    producer.push(off).unwrap();
    assert!(osc.note(57).down);
    assert_eq!(process(&mut osc, &consumer, &mut out, 2), 1);
    assert!(!osc.note(57).down);
}

#[test]
fn silence_fills_a_buffer_with_zeros() {
    let (_producer, consumer) = midi_queue();
    let mut osc = Oscillator::new(Waveforms::Sine);
    osc.set_sample_rate(48000);
    let mut out = vec![5; 2048];
    assert_eq!(process(&mut osc, &consumer, &mut out, 2), 0);
    assert!(out.iter().all(|s| *s == 0));
}
