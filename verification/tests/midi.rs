use feosynth::midi::{
    decode, decode_stream, midi_queue, MidiMessage, SendOutcome, QUEUE_CAPACITY, SUSTAIN_PEDAL,
};
use feosynth::types::SynthError;
use midistream::{Msg, MsgDecoder, SimpleMsg};

#[test]
fn decodes_each_kind_of_channel_message() {
    assert_eq!(
        decode(&[0x80, 60, 64], 0),
        Ok((MidiMessage::NoteOff { channel: 0, note: 60, velocity: 64 }, 3))
    );
    assert_eq!(
        decode(&[0x93, 0x40, 0x64], 0),
        Ok((MidiMessage::NoteOn { channel: 3, note: 0x40, velocity: 0x64 }, 3))
    );
    assert_eq!(
        decode(&[0xAF, 1, 2], 0),
        Ok((MidiMessage::PolyphonicPressure { channel: 15, note: 1, pressure: 2 }, 3))
    );
    assert_eq!(
        decode(&[0xB1, 64, 127], 0),
        Ok((MidiMessage::ControlChange { channel: 1, controller: SUSTAIN_PEDAL, value: 127 }, 3))
    );
    assert_eq!(decode(&[0xC2, 9], 0), Ok((MidiMessage::ProgramChange { channel: 2, program: 9 }, 2)));
    assert_eq!(decode(&[0xD5, 33], 0), Ok((MidiMessage::ChannelPressure { channel: 5, pressure: 33 }, 2)));
    assert_eq!(decode(&[0xE7, 1, 2], 0), Ok((MidiMessage::PitchBend { channel: 7, bend: 130 }, 3)));
}

#[test]
fn pitch_bend_is_fourteen_bits() {
    assert_eq!(decode(&[0xE0, 0, 0], 0), Ok((MidiMessage::PitchBend { channel: 0, bend: 0 }, 3)));
    assert_eq!(decode(&[0xE0, 0x7F, 0x7F], 0), Ok((MidiMessage::PitchBend { channel: 0, bend: 16383 }, 3)));
    assert_eq!(decode(&[0xE0, 0x40, 0x00], 0), Ok((MidiMessage::PitchBend { channel: 0, bend: 8192 }, 3)));
    assert_eq!(decode(&[0xE0, 0x00, 0x40], 0), Ok((MidiMessage::PitchBend { channel: 0, bend: 64 }, 3)));
}

#[test]
fn decodes_system_exclusive_up_to_its_end() {
    assert_eq!(decode(&[0xF0, 0xF7], 0), Ok((MidiMessage::SysEx { length: 0 }, 2)));
    assert_eq!(
        decode(&[0xF0, 0x7F, 0x7F, 0x06, 0x01, 0xF7, 0x90], 0),
        Ok((MidiMessage::SysEx { length: 4 }, 6))
    );
    let mut long = vec![0xF0u8];
    for i in 0..500 {
        long.push((i % 128) as u8);
    }
    long.push(0xF7);
    assert_eq!(decode(&long, 0), Ok((MidiMessage::SysEx { length: 500 }, 502)));
}

#[test]
fn decodes_from_a_position() {
    let bytes = [0x90, 60, 100, 0x80, 60, 0];
    assert_eq!(decode(&bytes, 3), Ok((MidiMessage::NoteOff { channel: 0, note: 60, velocity: 0 }, 6)));
    assert_eq!(decode(&bytes, 6), Err(SynthError::DecoderMalformed));
    assert_eq!(decode(&bytes, 600), Err(SynthError::DecoderMalformed));
    assert_eq!(decode(&bytes, usize::MAX), Err(SynthError::DecoderMalformed));
}

#[test]
fn malformed_bytes_are_refused() {
    let malformed = SynthError::DecoderMalformed;
    // nothing there
    assert_eq!(decode(&[], 0), Err(malformed));
    // a data byte where a status byte is due: no running status
    assert_eq!(decode(&[60, 100], 0), Err(malformed));
    assert_eq!(decode(&[0x7F], 0), Err(malformed));
    // truncated
    assert_eq!(decode(&[0x90], 0), Err(malformed));
    assert_eq!(decode(&[0x90, 60], 0), Err(malformed));
    assert_eq!(decode(&[0xC0], 0), Err(malformed));
    assert_eq!(decode(&[0xE0, 1], 0), Err(malformed));
    // a status byte where a data byte is due
    assert_eq!(decode(&[0x90, 0x80, 1], 0), Err(malformed));
    assert_eq!(decode(&[0x90, 1, 0x80], 0), Err(malformed));
    assert_eq!(decode(&[0xC0, 0xC0], 0), Err(malformed));
    // system exclusive without its end, or broken off by a status byte
    assert_eq!(decode(&[0xF0], 0), Err(malformed));
    assert_eq!(decode(&[0xF0, 1, 2, 3], 0), Err(malformed));
    assert_eq!(decode(&[0xF0, 1, 0x90, 0xF7], 0), Err(malformed));
    // status bytes that begin no message
    for status in 0xF1..=0xFFu8 {
        assert_eq!(decode(&[status, 0, 0], 0), Err(malformed));
    }
}

#[test]
fn every_channel_status_byte_decodes() {
    for status in 0x80..0xF0u8 {
        let r = decode(&[status, 5, 6], 0);
        let channel = status & 0x0F;
        let expected = match status >> 4 {
            0x8 => (MidiMessage::NoteOff { channel, note: 5, velocity: 6 }, 3),
            0x9 => (MidiMessage::NoteOn { channel, note: 5, velocity: 6 }, 3),
            0xA => (MidiMessage::PolyphonicPressure { channel, note: 5, pressure: 6 }, 3),
            0xB => (MidiMessage::ControlChange { channel, controller: 5, value: 6 }, 3),
            0xC => (MidiMessage::ProgramChange { channel, program: 5 }, 2),
            0xD => (MidiMessage::ChannelPressure { channel, pressure: 5 }, 2),
            _ => (MidiMessage::PitchBend { channel, bend: 5 * 128 + 6 }, 3),
        };
        assert_eq!(r, Ok(expected));
    }
}

#[test]
fn stream_decodes_messages_in_order() {
    let bytes = [0x90, 60, 100, 0xB0, 64, 127, 0xC3, 7, 0xF0, 1, 2, 0xF7, 0x80, 60, 0];
    assert_eq!(
        decode_stream(&bytes),
        vec![
            MidiMessage::NoteOn { channel: 0, note: 60, velocity: 100 },
            MidiMessage::ControlChange { channel: 0, controller: 64, value: 127 },
            MidiMessage::ProgramChange { channel: 3, program: 7 },
            MidiMessage::SysEx { length: 2 },
            MidiMessage::NoteOff { channel: 0, note: 60, velocity: 0 },
        ]
    );
    assert_eq!(decode_stream(&[]), vec![]);
}

#[test]
fn stream_skips_what_it_cannot_decode() {
    // running status is not supported: the second pair of data bytes is skipped
    let bytes = [0x90, 60, 100, 62, 100, 0x80, 60, 0];
    assert_eq!(
        decode_stream(&bytes),
        vec![
            MidiMessage::NoteOn { channel: 0, note: 60, velocity: 100 },
            MidiMessage::NoteOff { channel: 0, note: 60, velocity: 0 },
        ]
    );
    // a truncated message is dropped and the next one decoded
    assert_eq!(
        decode_stream(&[0x90, 60, 0x80, 61, 5, 0xF8, 0x91]),
        vec![MidiMessage::NoteOff { channel: 0, note: 61, velocity: 5 }]
    );
    assert_eq!(decode_stream(&[1, 2, 3, 0xF7, 0xFF]), vec![]);
}

#[test]
fn decoder_agrees_with_midistream_on_complete_channel_messages() {
    for status in 0x80..0xE0u8 {
        for (d1, d2) in [(0u8, 0u8), (60, 100), (127, 127), (1, 64)] {
            let bytes = [status, d1, d2];
            let used = if status >> 4 == 0xC || status >> 4 == 0xD { 2 } else { 3 };
            let ours = decode(&bytes, 0).unwrap();
            assert_eq!(ours.1, used);
            let theirs = MsgDecoder::new(bytes[..used].iter().map(|b| *b)).next().unwrap().unwrap();
            let same = match (ours.0, theirs) {
                (MidiMessage::NoteOff { channel, note, velocity }, Msg::Simple(SimpleMsg::NoteOff(n))) => {
                    channel == *n.channel && note == *n.note && velocity == *n.value
                }
                (MidiMessage::NoteOn { channel, note, velocity }, Msg::Simple(SimpleMsg::NoteOn(n))) => {
                    channel == *n.channel && note == *n.note && velocity == *n.value
                }
                (
                    MidiMessage::PolyphonicPressure { channel, note, pressure },
                    Msg::Simple(SimpleMsg::PolyKeyPressure(n)),
                ) => channel == *n.channel && note == *n.note && pressure == *n.value,
                (
                    MidiMessage::ControlChange { channel, controller, value },
                    Msg::Simple(SimpleMsg::ControlChange(c)),
                ) => channel == *c.channel && controller == *c.control && value == *c.value,
                (MidiMessage::ProgramChange { channel, program }, Msg::Simple(SimpleMsg::ProgramChange(c))) => {
                    channel == *c.channel && program == *c.value
                }
                (
                    MidiMessage::ChannelPressure { channel, pressure },
                    Msg::Simple(SimpleMsg::ChannelKeyPressure(c)),
                ) => channel == *c.channel && pressure == *c.value,
                _ => false,
            };
            assert!(same);
        }
    }
}

#[test]
fn queue_overflow_drops_the_newest() {
    let (mut producer, consumer) = midi_queue();
    let mut accepted = 0;
    let mut dropped = 0;
    for i in 0..300u32 {
        let msg = MidiMessage::NoteOn { channel: (i / 128) as u8, note: (i % 128) as u8, velocity: 100 };
        match producer.push(msg) {
            Ok(()) => accepted += 1,
            Err(e) => {
                assert_eq!(e, SynthError::QueueFull);
                dropped += 1;
            }
        }
    }
    assert_eq!(accepted, 256);
    assert_eq!(dropped, 44);
    assert_eq!(producer.accepted(), 256);
    assert_eq!(producer.dropped(), 44);
    assert_eq!(QUEUE_CAPACITY, 256);
    for i in 0..256u32 {
        assert_eq!(
            consumer.poll(),
            Some(MidiMessage::NoteOn { channel: (i / 128) as u8, note: (i % 128) as u8, velocity: 100 })
        );
    }
    assert_eq!(consumer.poll(), None);
}

#[test]
fn queue_hands_messages_on_in_order() {
    let (mut producer, consumer) = midi_queue();
    assert_eq!(consumer.poll(), None);
    let a = MidiMessage::NoteOn { channel: 0, note: 1, velocity: 2 };
    let b = MidiMessage::SysEx { length: 9 };
    assert_eq!(producer.push(a), Ok(()));
    assert_eq!(producer.push(b), Ok(()));
    assert_eq!(consumer.poll(), Some(a));
    assert_eq!(producer.push(a), Ok(()));
    assert_eq!(consumer.poll(), Some(b));
    assert_eq!(consumer.poll(), Some(a));
    assert_eq!(consumer.poll(), None);
    assert_eq!(producer.accepted(), 3);
    assert_eq!(producer.dropped(), 0);
}

#[test]
fn queue_has_room_again_after_a_message_is_taken() {
    let (mut producer, consumer) = midi_queue();
    let msg = MidiMessage::ProgramChange { channel: 0, program: 1 };
    for _ in 0..256 {
        assert_eq!(producer.push(msg), Ok(()));
    }
    assert_eq!(producer.push(msg), Err(SynthError::QueueFull));
    assert_eq!(consumer.poll(), Some(msg));
    assert_eq!(producer.push(msg), Ok(()));
    assert_eq!(producer.push(msg), Err(SynthError::QueueFull));
    assert_eq!(producer.accepted(), 257);
    assert_eq!(producer.dropped(), 2);
}

#[test]
fn queue_without_a_consumer_is_closed() {
    let (mut producer, consumer) = midi_queue();
    drop(consumer);
    let msg = MidiMessage::ProgramChange { channel: 0, program: 1 };
    assert_eq!(producer.push(msg), Err(SynthError::QueueClosed));
    assert_eq!(producer.accepted(), 0);
    assert_eq!(producer.dropped(), 1);
}

#[test]
fn queue_without_a_producer_still_hands_out_what_it_holds() {
    let (mut producer, consumer) = midi_queue();
    let msg = MidiMessage::ChannelPressure { channel: 2, pressure: 1 };
    assert_eq!(producer.push(msg), Ok(()));
    drop(producer);
    assert_eq!(consumer.poll(), Some(msg));
    assert_eq!(consumer.poll(), None);
}

#[test]
fn record_books_each_outcome() {
    let (mut producer, _consumer) = midi_queue();
    assert_eq!(producer.record(SendOutcome::Sent), Ok(()));
    assert_eq!(producer.record(SendOutcome::Full), Err(SynthError::QueueFull));
    assert_eq!(producer.record(SendOutcome::Closed), Err(SynthError::QueueClosed));
    assert_eq!(producer.record(SendOutcome::Sent), Ok(()));
    assert_eq!(producer.accepted(), 2);
    assert_eq!(producer.dropped(), 2);
}

#[test]
fn feed_decodes_and_queues() {
    let (mut producer, consumer) = midi_queue();
    let queued = producer.feed(&[0x90, 60, 100, 0x33, 0x80, 60, 0]);
    assert_eq!(queued, 2);
    assert_eq!(producer.accepted(), 2);
    assert_eq!(producer.dropped(), 0);
    assert_eq!(consumer.poll(), Some(MidiMessage::NoteOn { channel: 0, note: 60, velocity: 100 }));
    assert_eq!(consumer.poll(), Some(MidiMessage::NoteOff { channel: 0, note: 60, velocity: 0 }));
    assert_eq!(consumer.poll(), None);
    assert_eq!(producer.feed(&[0xF1, 3]), 0);
    assert_eq!(producer.accepted(), 2);
}

#[test]
fn feed_counts_what_found_no_room() {
    let (mut producer, _consumer) = midi_queue();
    let mut bytes = Vec::new();
    for i in 0..300 {
        bytes.push(0xC0);
        bytes.push((i % 128) as u8);
    }
    assert_eq!(producer.feed(&bytes), 256);
    assert_eq!(producer.accepted(), 256);
    assert_eq!(producer.dropped(), 44);
}
