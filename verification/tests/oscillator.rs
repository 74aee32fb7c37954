use feosynth::adsr::Stage;
use feosynth::midi::MidiMessage;
use feosynth::oscillator::{Note, Oscillator, Waveforms, MAX_POLY};
use feosynth::temperament::{Tuning, TuningData};
use feosynth::types::{Generator, MidiDispatcher, SampleRated, ONE};
use feosynth::voice::mix;

fn note_on(note: u8, velocity: u8) -> MidiMessage {
    MidiMessage::NoteOn { channel: 0, note, velocity }
}

fn note_off(note: u8) -> MidiMessage {
    MidiMessage::NoteOff { channel: 0, note, velocity: 0 }
}

fn pedal(value: u8) -> MidiMessage {
    MidiMessage::ControlChange { channel: 0, controller: 64, value }
}

#[test]
fn test_oscillator() {
    let rate = 96000;
    let mut osc = Oscillator::new(Waveforms::Sine);
    assert!(osc.note(0).phase.sample_rate == 0);
    osc.set_sample_rate(rate);
    assert!(osc.note(0).phase.sample_rate > 0);
    assert!(osc.note(64).phase.incr > 0);
    println!("incr = {}", osc.note(64).phase.incr);
    let v = osc.generate()[0];
    println!("v = {}", v);
    assert!(v == 0);

    assert!(osc.note(64).phase.phase == 0);
    assert!(osc.note(64).down == false);
    osc.note_on(64, 120);
    assert!(osc.note(64).down == true);
    let v = osc.generate()[0];
    println!("v = {}", v);
    assert!(v == 0);
    let v = osc.generate()[0];
    println!("v = {}", v);
    assert!(v != 0);
    assert!(osc.note(64).phase.phase > 0);
}

#[test]
fn fresh_engine_renders_silence() {
    let mut osc = Oscillator::new(Waveforms::Sine);
    osc.set_sample_rate(48000);
    for _ in 0..1024 {
        assert_eq!(osc.render_frame(), (0, 0));
    }
    assert_eq!(osc.active_voices(), 0);
}

#[test]
fn fresh_engine_is_in_equal_temperament_with_silent_voices() {
    let osc = Oscillator::new(Waveforms::Saw);
    let equal = TuningData::new(Tuning::EquaTemp);
    assert_eq!(osc.temperament().tuning, Tuning::EquaTemp);
    assert_eq!(osc.temperament().freq_table, equal.freq_table);
    assert_eq!(osc.active_voices(), 0);
    assert_eq!(osc.polyphony(), 0);
    assert_eq!(osc.pedal(), 0);
    assert_eq!(osc.waveform(), Waveforms::Saw);
    assert_eq!(osc.wavetable().entry(1), 0x4000);
    for n in 0..128 {
        let note = osc.note(n);
        assert_eq!(note.phase.phase, 0);
        assert_eq!(note.phase.incr, 0);
        assert_eq!(note.vel, 0);
        assert!(!note.down);
        assert!(note.amp_env.is_off());
        assert!(!osc.is_active(n));
    }
}

#[test]
fn attack_ramp_rises_from_zero() {
    let mut osc = Oscillator::new(Waveforms::Sine);
    osc.set_sample_rate(48000);
    osc.dispatch(&note_on(60, 127));
    let mut output = Vec::new();
    for _ in 0..10 {
        output.push(osc.render_frame().0);
    }
    assert_eq!(output[0], 0);
    for i in 1..10 {
        assert!(output[i] > output[i - 1]);
    }
}

#[test]
fn polyphony_counts_sounding_voices() {
    let mut osc = Oscillator::new(Waveforms::Saw);
    osc.set_sample_rate(48000);
    osc.dispatch(&note_on(60, 100));
    osc.dispatch(&note_on(64, 100));
    osc.dispatch(&note_on(67, 100));
    osc.render_frame();
    assert_eq!(osc.active_voices(), 3);
    assert_eq!(osc.polyphony(), 3);
    osc.dispatch(&note_off(60));
    osc.dispatch(&note_off(64));
    osc.dispatch(&note_off(67));
    assert_eq!(osc.active_voices(), 3);
    assert_eq!(osc.polyphony(), 0);
    // release is 0.25 s: 12000 frames
    for _ in 0..12001 {
        osc.render_frame();
    }
    assert_eq!(osc.active_voices(), 0);
}

#[test]
fn released_voice_leaves_the_active_set_at_phase_zero() {
    let mut osc = Oscillator::new(Waveforms::Triangle);
    osc.set_sample_rate(48000);
    osc.dispatch(&note_on(69, 90));
    osc.dispatch(&note_off(69));
    assert!(osc.is_active(69));
    // more than release and decay together: 0.26 s
    for _ in 0..12481 {
        osc.render_frame();
    }
    assert!(!osc.is_active(69));
    assert_eq!(osc.note(69).phase.phase, 0);
    assert!(osc.note(69).amp_env.is_off());
    assert_eq!(osc.note(69).flt_env.stage, Stage::Release);
    assert_eq!(osc.render_frame(), (0, 0));
}

#[test]
fn released_voice_is_gone_right_after_its_release_time() {
    let mut osc = Oscillator::new(Waveforms::Triangle);
    osc.set_sample_rate(48000);
    osc.dispatch(&note_on(69, 90));
    for _ in 0..480 {
        osc.render_frame();
    }
    assert_eq!(osc.note(69).amp, ONE);
    osc.dispatch(&note_off(69));
    for _ in 0..11999 {
        osc.render_frame();
    }
    assert!(osc.is_active(69));
    assert!(osc.note(69).phase.phase != 0);
    osc.render_frame();
    osc.render_frame();
    assert!(!osc.is_active(69));
    assert_eq!(osc.note(69).phase.phase, 0);
}

#[test]
fn rendering_is_deterministic_for_fixed_waveforms() {
    for w in [Waveforms::Sine, Waveforms::Square, Waveforms::Triangle, Waveforms::Saw] {
        let mut a = Oscillator::new(w);
        let mut b = Oscillator::new(w);
        a.set_sample_rate(44100);
        b.set_sample_rate(44100);
        let script = [note_on(60, 100), note_on(67, 64), pedal(100), note_off(60), pedal(0), note_off(67)];
        for msg in script.iter() {
            a.dispatch(msg);
            b.dispatch(msg);
            for _ in 0..300 {
                assert_eq!(a.render_frame(), b.render_frame());
            }
        }
        assert_eq!(a.active_voices(), b.active_voices());
    }
}

#[test]
fn frame_is_the_sum_of_the_voices() {
    let mut both = Oscillator::new(Waveforms::Saw);
    let mut low = Oscillator::new(Waveforms::Saw);
    let mut high = Oscillator::new(Waveforms::Saw);
    for osc in [&mut both, &mut low, &mut high] {
        osc.set_sample_rate(48000);
    }
    both.dispatch(&note_on(48, 80));
    both.dispatch(&note_on(72, 127));
    low.dispatch(&note_on(48, 80));
    high.dispatch(&note_on(72, 127));
    for _ in 0..2000 {
        let (l, r) = both.render_frame();
        assert_eq!(l, r);
        assert_eq!(l, low.render_frame().0 + high.render_frame().0);
        assert!(l.abs() <= 2 * ONE);
    }
}

#[test]
fn one_voice_renders_table_times_envelope_times_velocity() {
    let mut osc = Oscillator::new(Waveforms::Saw);
    osc.set_sample_rate(48000);
    osc.dispatch(&note_on(69, 100));
    let mut voice: Note = osc.note(69);
    let table = feosynth::wavetable::WaveTable::new(Waveforms::Saw);
    assert_eq!(voice.vel, 3381864012);
    assert_eq!(voice.phase.incr, 39370534);
    for _ in 0..600 {
        let before = voice;
        let amp = voice.amp_env.run();
        let y = table.lookup(&mut voice.phase);
        let expected = mix(y, amp, before.vel);
        assert_eq!(osc.render_frame().0, expected);
    }
}

#[test]
fn mix_rounds_toward_zero() {
    assert_eq!(mix(ONE / 2, ONE / 2, ONE / 2), 536870912);
    assert_eq!(mix(-ONE / 2, ONE / 2, ONE / 2), -536870912);
    assert_eq!(mix(-3, ONE, ONE / 2), -1);
    assert_eq!(mix(3, ONE, ONE / 2), 1);
    assert_eq!(mix(ONE, ONE, ONE), ONE);
    assert_eq!(mix(-ONE, ONE, ONE), -ONE);
    assert_eq!(mix(ONE, 0, ONE), 0);
    assert_eq!(mix(1, ONE, ONE - 1), 0);
    assert_eq!(mix(-1, ONE, ONE - 1), 0);
}

#[test]
fn note_on_sets_velocity_and_opens_both_envelopes() {
    let mut osc = Oscillator::new(Waveforms::Sine);
    osc.set_sample_rate(48000);
    osc.dispatch(&note_on(64, 120));
    let note = osc.note(64);
    assert_eq!(note.vel, 4058236815);
    assert!(note.down);
    assert_eq!(note.amp_env.stage, Stage::Attack);
    assert_eq!(note.flt_env.stage, Stage::Attack);
    assert!(osc.is_active(64));
    assert_eq!(osc.active_voices(), 1);
    osc.dispatch(&note_on(10, 127));
    assert_eq!(osc.note(10).vel, ONE);
}

#[test]
fn note_on_with_velocity_zero_is_a_note_off() {
    let mut osc = Oscillator::new(Waveforms::Sine);
    osc.set_sample_rate(48000);
    osc.dispatch(&note_on(64, 120));
    osc.dispatch(&note_on(64, 0));
    let note = osc.note(64);
    assert!(!note.down);
    assert_eq!(note.amp_env.stage, Stage::Release);
    assert_eq!(note.vel, 4058236815);
    assert_eq!(osc.polyphony(), 0);
}

#[test]
fn note_off_for_a_silent_voice_changes_no_voice() {
    let mut osc = Oscillator::new(Waveforms::Sine);
    osc.set_sample_rate(48000);
    osc.dispatch(&note_on(64, 120));
    osc.dispatch(&note_off(65));
    assert!(osc.note(65).amp_env.is_off());
    assert!(!osc.note(65).down);
    assert!(!osc.is_active(65));
    assert_eq!(osc.active_voices(), 1);
    assert_eq!(osc.polyphony(), 0);
    osc.dispatch(&note_off(65));
    assert_eq!(osc.polyphony(), 0);
}

#[test]
fn invalid_note_numbers_are_dropped() {
    let mut osc = Oscillator::new(Waveforms::Sine);
    osc.set_sample_rate(48000);
    osc.dispatch(&note_on(128, 100));
    osc.dispatch(&note_on(255, 100));
    osc.dispatch(&note_on(60, 128));
    osc.dispatch(&note_off(200));
    assert_eq!(osc.active_voices(), 0);
    assert_eq!(osc.polyphony(), 0);
    osc.note_on(-1, 100);
    osc.note_off(-128);
    assert_eq!(osc.active_voices(), 0);
    assert_eq!(osc.polyphony(), 0);
    assert_eq!(osc.render_frame(), (0, 0));
}

#[test]
fn negative_velocity_keeps_the_old_one() {
    let mut osc = Oscillator::new(Waveforms::Sine);
    osc.set_sample_rate(48000);
    osc.note_on(60, 100);
    osc.note_off(60);
    osc.note_on(60, -1);
    assert_eq!(osc.note(60).vel, 3381864012);
    assert!(osc.note(60).down);
    assert_eq!(osc.note(60).amp_env.stage, Stage::Attack);
}

#[test]
fn retrigger_moves_the_voice_to_the_front_once() {
    let mut osc = Oscillator::new(Waveforms::Sine);
    osc.set_sample_rate(48000);
    osc.dispatch(&note_on(60, 100));
    osc.dispatch(&note_on(62, 100));
    osc.dispatch(&note_on(60, 50));
    assert_eq!(osc.active_voices(), 2);
    assert_eq!(osc.polyphony(), 3);
    assert_eq!(osc.note(60).vel, 50 * ONE / 127);
}

#[test]
fn polyphony_counter_saturates() {
    let mut osc = Oscillator::new(Waveforms::Sine);
    osc.set_sample_rate(48000);
    for _ in 0..3 {
        for n in 0..128 {
            osc.dispatch(&note_on(n, 1));
        }
    }
    assert_eq!(osc.polyphony(), MAX_POLY);
    assert_eq!(osc.polyphony(), 128);
    assert_eq!(osc.active_voices(), 128);
    let (l, _) = osc.render_frame();
    assert!(l.abs() <= 128 * ONE);
    for n in 0..128 {
        osc.dispatch(&note_off(n));
    }
    assert_eq!(osc.polyphony(), 0);
    osc.dispatch(&note_off(3));
    assert_eq!(osc.polyphony(), 0);
}

#[test]
fn sustain_pedal_holds_released_keys() {
    let mut osc = Oscillator::new(Waveforms::Sine);
    osc.set_sample_rate(48000);
    osc.dispatch(&pedal(64));
    assert_eq!(osc.pedal(), 64);
    osc.dispatch(&note_on(60, 100));
    osc.dispatch(&note_on(62, 100));
    for _ in 0..1000 {
        osc.render_frame();
    }
    osc.dispatch(&note_off(60));
    assert!(!osc.note(60).down);
    assert_eq!(osc.note(60).amp_env.stage, Stage::Sustain);
    for _ in 0..20000 {
        osc.render_frame();
    }
    assert!(osc.is_active(60));
    // the pedal moves but stays down: nothing is released
    osc.dispatch(&pedal(127));
    assert_eq!(osc.note(60).amp_env.stage, Stage::Sustain);
    // the pedal comes up: the key that is up is released, the held one not
    osc.dispatch(&pedal(63));
    assert_eq!(osc.pedal(), 63);
    assert_eq!(osc.note(60).amp_env.stage, Stage::Release);
    assert_eq!(osc.note(60).flt_env.stage, Stage::Release);
    assert_eq!(osc.note(62).amp_env.stage, Stage::Sustain);
    assert!(osc.note(62).down);
    for _ in 0..12001 {
        osc.render_frame();
    }
    assert!(!osc.is_active(60));
    assert!(osc.is_active(62));
    assert_eq!(osc.active_voices(), 1);
}

#[test]
fn pedal_that_stays_up_releases_nothing() {
    let mut osc = Oscillator::new(Waveforms::Sine);
    osc.set_sample_rate(48000);
    osc.dispatch(&note_on(60, 100));
    osc.dispatch(&pedal(10));
    osc.dispatch(&pedal(0));
    assert_eq!(osc.note(60).amp_env.stage, Stage::Attack);
    // silent voices stay silent when the pedal comes up
    osc.dispatch(&pedal(100));
    osc.dispatch(&pedal(0));
    assert!(osc.note(61).amp_env.is_off());
    assert_eq!(osc.active_voices(), 1);
}

#[test]
fn other_messages_change_nothing() {
    let mut osc = Oscillator::new(Waveforms::Sine);
    osc.set_sample_rate(48000);
    osc.dispatch(&note_on(60, 100));
    let before = osc.note(60);
    let others = [
        MidiMessage::PolyphonicPressure { channel: 1, note: 60, pressure: 3 },
        MidiMessage::ControlChange { channel: 0, controller: 7, value: 100 },
        MidiMessage::ControlChange { channel: 0, controller: 64, value: 200 },
        MidiMessage::ProgramChange { channel: 0, program: 5 },
        MidiMessage::ChannelPressure { channel: 0, pressure: 9 },
        MidiMessage::PitchBend { channel: 0, bend: 8192 },
        MidiMessage::SysEx { length: 4 },
    ];
    for msg in others.iter() {
        osc.dispatch_midi_in(msg);
    }
    let after = osc.note(60);
    assert_eq!(after.vel, before.vel);
    assert_eq!(after.down, before.down);
    assert_eq!(after.amp_env.stage, before.amp_env.stage);
    assert_eq!(osc.pedal(), 0);
    assert_eq!(osc.polyphony(), 1);
    assert_eq!(osc.active_voices(), 1);
}

#[test]
fn set_sample_rate_retunes_every_voice() {
    let mut osc = Oscillator::new(Waveforms::Sine);
    osc.set_sample_rate(96000);
    assert_eq!(osc.note(69).phase.incr, 19685267);
    assert_eq!(osc.note(69).phase.sample_rate, 96000);
    assert_eq!(osc.note(69).amp_env.sample_rate, 96000);
    assert_eq!(osc.note(69).amp_env.da, 4473925);
    assert_eq!(osc.note(69).flt_env.da, 4473925);
    osc.set_sample_rate(48000);
    assert_eq!(osc.note(69).phase.incr, 39370534);
    assert_eq!(osc.note(81).phase.incr, 2 * 39370534 - 1);
    assert_eq!(osc.note(69).amp_env.da, 8947849);
    for n in 0..128u8 {
        let f = osc.temperament().lookup(n as i8);
        assert_eq!(osc.note(n).phase.incr, osc.note(n).phase.calc_freq(f));
    }
}

#[test]
fn set_temperament_retunes_every_voice() {
    let mut osc = Oscillator::new(Waveforms::Sine);
    osc.set_sample_rate(48000);
    osc.dispatch(&note_on(60, 100));
    osc.set_temperament(Tuning::PtolTemp);
    assert_eq!(osc.temperament().tuning, Tuning::PtolTemp);
    assert_eq!(osc.temperament().lookup(60), 264 << 32);
    // 264 * 2^32 / 48000
    assert_eq!(osc.note(60).phase.incr, 23622320);
    assert!(osc.is_active(60));
    assert!(osc.note(60).down);
    for n in 0..128u8 {
        let f = osc.temperament().lookup(n as i8);
        assert_eq!(osc.note(n).phase.incr, osc.note(n).phase.calc_freq(f));
    }
}

#[test]
fn generate_returns_the_frame_on_both_channels() {
    let mut a = Oscillator::new(Waveforms::Square);
    let mut b = Oscillator::new(Waveforms::Square);
    a.set_sample_rate(48000);
    b.set_sample_rate(48000);
    a.note_on(40, 127);
    b.note_on(40, 127);
    for _ in 0..500 {
        let frame = a.generate();
        let (l, r) = b.render_frame();
        assert_eq!(frame, [l, r]);
        assert_eq!(frame[0], frame[1]);
    }
}

#[test]
fn new_note_is_silent() {
    let note = Note::new();
    assert_eq!(note.amp, 0);
    assert_eq!(note.flt, 0);
    assert_eq!(note.vel, 0);
    assert!(!note.down);
    assert!(note.amp_env.is_off());
    assert!(note.flt_env.is_off());
    assert_eq!(note.phase.phase, 0);
}

#[test]
fn do_adsr_silences_a_voice_whose_envelope_ran_out() {
    let mut note = Note::new();
    note.set_sample_rate(48000);
    note.phase.phase = 12345;
    note.amp_env.stage = Stage::Release;
    note.amp_env.val = 5;
    note.flt_env.stage = Stage::Sustain;
    note.flt_env.val = 77;
    note.do_adsr();
    assert!(note.amp_env.is_off());
    assert_eq!(note.amp, 0);
    assert_eq!(note.flt, 77);
    assert_eq!(note.flt_env.stage, Stage::Release);
    assert_eq!(note.phase.phase, 0);
}
