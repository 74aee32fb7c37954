//! MIDI messages, their decoding from bytes, and the queue that carries them
//! from the MIDI thread to the audio callback.

use vstd::prelude::*;
use crate::types::{saturated, SynthError};
use crossbeam::channel::{Receiver, Sender, TrySendError};

verus! {

/// One decoded MIDI message. Channels are 0 to 15, data fields 7 bits wide,
/// a pitch bend 14 bits.
#[derive(Clone, Copy, Debug, PartialEq, Eq, Structural)]
pub enum MidiMessage {
    NoteOff { channel: u8, note: u8, velocity: u8 },
    NoteOn { channel: u8, note: u8, velocity: u8 },
    PolyphonicPressure { channel: u8, note: u8, pressure: u8 },
    ControlChange { channel: u8, controller: u8, value: u8 },
    ProgramChange { channel: u8, program: u8 },
    ChannelPressure { channel: u8, pressure: u8 },
    PitchBend { channel: u8, bend: u16 },
    /// A system-exclusive message with `length` bytes between its first
    /// byte, 0xF0, and its last, 0xF7.
    SysEx { length: usize },
}

/// The controller number of the sustain pedal.
pub const SUSTAIN_PEDAL: u8 = 64;

/// First byte of a system-exclusive message.
pub const SYSEX_START: u8 = 0xF0;

/// Last byte of a system-exclusive message.
pub const SYSEX_END: u8 = 0xF7;

/// Whether `b` is a data byte, one with its high bit clear.
pub open spec fn is_data(b: u8) -> bool {
    b < 0x80
}

/// The number of data bytes of the channel message that status byte `s`
/// begins, `0x80 <= s < 0xF0`.
pub open spec fn data_length(s: u8) -> int {
    if s / 16 == 0xC || s / 16 == 0xD {
        1
    } else {
        2
    }
}

/// The channel message that status byte `s` begins with data bytes `d1` and
/// `d2` (`d2` unused where the message has one data byte). The channel is
/// the low nibble of the status byte; a pitch bend is the first data byte
/// times 128 plus the second.
pub open spec fn channel_message(s: u8, d1: u8, d2: u8) -> MidiMessage {
    let channel = s % 16;
    let kind = s / 16;
    if kind == 0x8 {
        MidiMessage::NoteOff { channel, note: d1, velocity: d2 }
    } else if kind == 0x9 {
        MidiMessage::NoteOn { channel, note: d1, velocity: d2 }
    } else if kind == 0xA {
        MidiMessage::PolyphonicPressure { channel, note: d1, pressure: d2 }
    } else if kind == 0xB {
        MidiMessage::ControlChange { channel, controller: d1, value: d2 }
    } else if kind == 0xC {
        MidiMessage::ProgramChange { channel, program: d1 }
    } else if kind == 0xD {
        MidiMessage::ChannelPressure { channel, pressure: d1 }
    } else {
        MidiMessage::PitchBend { channel, bend: (d1 * 128 + d2) as u16 }
    }
}

/// Where the system-exclusive message that is being read at `i` ends: the
/// position of the first 0xF7 from `i` on, if only data bytes come before it.
pub open spec fn sysex_end(s: Seq<u8>, i: int) -> Option<int>
    decreases s.len() - i,
{
    if i < 0 || i >= s.len() {
        None
    } else if s[i] == SYSEX_END {
        Some(i)
    } else if !is_data(s[i]) {
        None
    } else {
        sysex_end(s, i + 1)
    }
}

/// The message that starts at `pos`, with the position behind it; or why
/// there is none: the bytes end too early, the byte at `pos` is no status
/// byte that begins a message (running status is not supported), or a
/// status byte stands where a data byte is due.
pub open spec fn decode_at(s: Seq<u8>, pos: int) -> Result<(MidiMessage, int), SynthError> {
    if pos < 0 || pos >= s.len() {
        Err(SynthError::DecoderMalformed)
    } else if s[pos] < 0x80 {
        Err(SynthError::DecoderMalformed)
    } else if s[pos] < SYSEX_START {
        let n = data_length(s[pos]);
        if pos + n >= s.len() {
            Err(SynthError::DecoderMalformed)
        } else if !is_data(s[pos + 1]) || !is_data(s[pos + n]) {
            Err(SynthError::DecoderMalformed)
        } else {
            Ok((channel_message(s[pos], s[pos + 1], s[pos + n]), pos + n + 1))
        }
    } else if s[pos] == SYSEX_START {
        match sysex_end(s, pos + 1) {
            Some(e) => Ok((MidiMessage::SysEx { length: (e - pos - 1) as usize }, e + 1)),
            None => Err(SynthError::DecoderMalformed),
        }
    } else {
        Err(SynthError::DecoderMalformed)
    }
}

/// The messages of `s` from `pos` on, in order. Where no message starts,
/// one byte is skipped.
pub open spec fn decoded_from(s: Seq<u8>, pos: int) -> Seq<MidiMessage>
    decreases s.len() - pos,
{
    if pos < 0 || pos >= s.len() {
        Seq::empty()
    } else {
        match decode_at(s, pos) {
            Ok((m, next)) => if pos < next <= s.len() {
                seq![m] + decoded_from(s, next)
            } else {
                Seq::empty()
            },
            Err(_) => decoded_from(s, pos + 1),
        }
    }
}

/// The end of a system-exclusive message lies within the bytes and not
/// before the place the search starts from.
pub proof fn lemma_sysex_end_bounds(s: Seq<u8>, i: int)
    requires
        0 <= i,
    ensures
        sysex_end(s, i) matches Some(e) ==> i <= e < s.len() && s[e] == SYSEX_END,
    decreases s.len() - i,
{
    if i < s.len() && s[i] != SYSEX_END && is_data(s[i]) {
        lemma_sysex_end_bounds(s, i + 1);
    }
}

/// A decoded message ends behind its start and within the bytes.
pub proof fn lemma_decode_advances(s: Seq<u8>, pos: int)
    requires
        0 <= pos,
    ensures
        decode_at(s, pos) matches Ok((_, next)) ==> pos < next <= s.len(),
{
    lemma_sysex_end_bounds(s, pos + 1);
}

/// Finds the end of a system-exclusive message; see [`sysex_end`].
fn find_sysex_end(bytes: &[u8], start: usize) -> (end: Option<usize>)
    requires
        start <= bytes@.len(),
    ensures
        end matches Some(e) ==> sysex_end(bytes@, start as int) == Some(e as int) && start <= e
            < bytes@.len(),
        end is None ==> sysex_end(bytes@, start as int) is None,
{
    let mut i: usize = start;
    while i < bytes.len()
        invariant
            start <= i <= bytes@.len(),
            sysex_end(bytes@, i as int) == sysex_end(bytes@, start as int),
        decreases bytes@.len() - i,
    {
        let b: u8 = bytes[i];
        if b == SYSEX_END {
            return Some(i);
        }
        if b >= 0x80 {
            return None;
        }
        i += 1;
    }
    None
}

/// Decodes the message that starts at `pos`. Returns the message and the
/// position behind it, or `DecoderMalformed` where no message starts.
pub fn decode(bytes: &[u8], pos: usize) -> (r: Result<(MidiMessage, usize), SynthError>)
    ensures
        match r {
            Ok((m, next)) => decode_at(bytes@, pos as int) == Ok::<(MidiMessage, int), SynthError>(
                (m, next as int),
            ) && pos < next <= bytes@.len(),
            Err(e) => e == SynthError::DecoderMalformed && decode_at(bytes@, pos as int) is Err,
        },
{
    proof {
        lemma_decode_advances(bytes@, pos as int);
    }
    if pos >= bytes.len() {
        return Err(SynthError::DecoderMalformed);
    }
    let status: u8 = bytes[pos];
    if status < 0x80 {
        return Err(SynthError::DecoderMalformed);
    }
    if status == SYSEX_START {
        return match find_sysex_end(bytes, pos + 1) {
            Some(e) => Ok((MidiMessage::SysEx { length: e - pos - 1 }, e + 1)),
            None => Err(SynthError::DecoderMalformed),
        };
    }
    if status > SYSEX_START {
        return Err(SynthError::DecoderMalformed);
    }
    let kind: u8 = status / 16;
    let channel: u8 = status % 16;
    let n: usize = if kind == 0xC || kind == 0xD {
        1
    } else {
        2
    };
    if bytes.len() - pos <= n {
        return Err(SynthError::DecoderMalformed);
    }
    let d1: u8 = bytes[pos + 1];
    let d2: u8 = bytes[pos + n];
    if d1 >= 0x80 || d2 >= 0x80 {
        return Err(SynthError::DecoderMalformed);
    }
    let m = if kind == 0x8 {
        MidiMessage::NoteOff { channel, note: d1, velocity: d2 }
    } else if kind == 0x9 {
        MidiMessage::NoteOn { channel, note: d1, velocity: d2 }
    } else if kind == 0xA {
        MidiMessage::PolyphonicPressure { channel, note: d1, pressure: d2 }
    } else if kind == 0xB {
        MidiMessage::ControlChange { channel, controller: d1, value: d2 }
    } else if kind == 0xC {
        MidiMessage::ProgramChange { channel, program: d1 }
    } else if kind == 0xD {
        MidiMessage::ChannelPressure { channel, pressure: d1 }
    } else {
        MidiMessage::PitchBend { channel, bend: (d1 as u16) * 128 + (d2 as u16) }
    };
    Ok((m, pos + n + 1))
}

/// Decodes every message in `bytes`, in order. A byte at which no message
/// starts is skipped.
pub fn decode_stream(bytes: &[u8]) -> (out: Vec<MidiMessage>)
    ensures
        out@ == decoded_from(bytes@, 0),
{
    let mut out: Vec<MidiMessage> = Vec::new();
    let mut pos: usize = 0;
    while pos < bytes.len()
        invariant
            pos <= bytes@.len(),
            out@ + decoded_from(bytes@, pos as int) == decoded_from(bytes@, 0),
        decreases bytes@.len() - pos,
    {
        let ghost before = out@;
        match decode(bytes, pos) {
            Ok((m, next)) => {
                out.push(m);
                assert(out@ + decoded_from(bytes@, next as int) =~= before + (seq![m] + decoded_from(
                    bytes@,
                    next as int,
                )));
                pos = next;
            },
            Err(_) => {
                pos += 1;
            },
        }
    }
    assert(out@ + Seq::<MidiMessage>::empty() =~= out@);
    out
}

/// The number of messages the MIDI queue holds.
pub const QUEUE_CAPACITY: usize = 256;

/// `crossbeam::channel::Sender`, the sending half of a channel. Nothing of
/// what is inside it is visible here.
#[verifier::external_type_specification]
#[verifier::external_body]
#[verifier::reject_recursive_types(T)]
pub struct ExSender<T>(crossbeam::channel::Sender<T>);

/// `crossbeam::channel::Receiver`, the receiving half of a channel. Nothing
/// of what is inside it is visible here.
#[verifier::external_type_specification]
#[verifier::external_body]
#[verifier::reject_recursive_types(T)]
pub struct ExReceiver<T>(crossbeam::channel::Receiver<T>);

/// How an attempt to queue a message ended.
#[derive(Clone, Copy, Debug, PartialEq, Eq, Structural)]
pub enum SendOutcome {
    Sent,
    Full,
    Closed,
}

/// What `Sender::capacity` returns for `tx`: the limit that its channel was
/// made with, `None` for a channel without one. A channel keeps the limit
/// it was made with for as long as it lives.
pub uninterp spec fn sender_capacity(tx: Sender<MidiMessage>) -> Option<usize>;

/// What `Receiver::capacity` returns for `rx`: the limit that its channel
/// was made with, `None` for a channel without one.
pub uninterp spec fn receiver_capacity(rx: Receiver<MidiMessage>) -> Option<usize>;

/// Makes the two ends of a bounded queue by `crossbeam::channel::bounded`.
/// That function panics where the capacity is too large for its index
/// arithmetic, and a capacity of 0 makes a rendezvous channel; both are
/// left out. As that function's documentation shows, both ends report the
/// capacity the channel was made with; no more is claimed of them.
#[verifier::external_body]
fn bounded_channel(capacity: usize) -> (ends: (Sender<MidiMessage>, Receiver<MidiMessage>))
    requires
        0 < capacity <= 0x1_0000,
    ensures
        sender_capacity(ends.0) == Some(capacity),
        receiver_capacity(ends.1) == Some(capacity),
{
    crossbeam::channel::bounded(capacity)
}

/// Offers `msg` to the queue by `Sender::try_send`, which never blocks. It
/// either queues the message, or reports that the queue is full, or that
/// every receiver is gone. Which of the three happens depends on the other
/// end, so nothing is claimed of the outcome.
#[verifier::external_body]
fn try_send(tx: &Sender<MidiMessage>, msg: MidiMessage) -> (outcome: SendOutcome) {
    match tx.try_send(msg) {
        Ok(()) => SendOutcome::Sent,
        Err(TrySendError::Full(_)) => SendOutcome::Full,
        Err(TrySendError::Disconnected(_)) => SendOutcome::Closed,
    }
}

/// Takes the next message off the queue by `Receiver::try_recv`, which
/// never blocks; `None` where the queue is empty or every sender is gone.
/// What comes depends on the other end, so nothing is claimed of it.
#[verifier::external_body]
fn try_recv(rx: &Receiver<MidiMessage>) -> (msg: Option<MidiMessage>) {
    rx.try_recv().ok()
}

/// The sending end of the MIDI queue, for the thread that reads the MIDI
/// input. It counts the messages it queued and those it had to drop.
pub struct MidiProducer {
    tx: Sender<MidiMessage>,
    accepted: u64,
    dropped: u64,
}

/// The receiving end of the MIDI queue, for the audio callback. Taking a
/// message never blocks.
pub struct MidiConsumer {
    rx: Receiver<MidiMessage>,
}

/// What an attempt to queue a message returns, by its outcome.
pub open spec fn send_result(outcome: SendOutcome) -> Result<(), SynthError> {
    match outcome {
        SendOutcome::Sent => Ok(()),
        SendOutcome::Full => Err(SynthError::QueueFull),
        SendOutcome::Closed => Err(SynthError::QueueClosed),
    }
}

/// A new MIDI queue: both ends of one channel that holds at most
/// [`QUEUE_CAPACITY`] messages, the producer's counters at 0.
pub fn midi_queue() -> (ends: (MidiProducer, MidiConsumer))
    ensures
        ends.0.capacity() == Some(QUEUE_CAPACITY),
        ends.1.capacity() == Some(QUEUE_CAPACITY),
        ends.0.accepted_count() == 0,
        ends.0.dropped_count() == 0,
{
    let (tx, rx) = bounded_channel(QUEUE_CAPACITY);
    (MidiProducer { tx, accepted: 0, dropped: 0 }, MidiConsumer { rx })
}

impl MidiProducer {
    /// The limit of the queue this end sends into.
    pub closed spec fn capacity(&self) -> Option<usize> {
        sender_capacity(self.tx)
    }

    /// How many messages were queued so far.
    pub closed spec fn accepted_count(&self) -> int {
        self.accepted as int
    }

    /// How many messages were dropped so far.
    pub closed spec fn dropped_count(&self) -> int {
        self.dropped as int
    }

    /// How many messages were queued so far.
    pub fn accepted(&self) -> (n: u64)
        ensures
            n == self.accepted_count(),
    {
        self.accepted
    }

    /// How many messages were dropped so far.
    pub fn dropped(&self) -> (n: u64)
        ensures
            n == self.dropped_count(),
    {
        self.dropped
    }

    /// Books the outcome of one attempt to queue a message: a message that
    /// was queued counts as accepted, any other as dropped. Returns what the
    /// attempt amounts to for the caller.
    pub fn record(&mut self, outcome: SendOutcome) -> (r: Result<(), SynthError>)
        ensures
            r == send_result(outcome),
            outcome == SendOutcome::Sent ==> final(self).accepted_count() == saturated(
                old(self).accepted_count() + 1,
            ) && final(self).dropped_count() == old(self).dropped_count(),
            outcome != SendOutcome::Sent ==> final(self).dropped_count() == saturated(
                old(self).dropped_count() + 1,
            ) && final(self).accepted_count() == old(self).accepted_count(),
    {
        match outcome {
            SendOutcome::Sent => {
                self.accepted = self.accepted.saturating_add(1);
                Ok(())
            },
            SendOutcome::Full => {
                self.dropped = self.dropped.saturating_add(1);
                Err(SynthError::QueueFull)
            },
            SendOutcome::Closed => {
                self.dropped = self.dropped.saturating_add(1);
                Err(SynthError::QueueClosed)
            },
        }
    }

    /// Offers `msg` to the queue without blocking. A message that finds no
    /// room is dropped, not retried. Exactly one of the two counters goes
    /// up: the accepted on `Ok`, the dropped on `Err`.
    pub fn push(&mut self, msg: MidiMessage) -> (r: Result<(), SynthError>)
        ensures
            r is Ok ==> final(self).accepted_count() == saturated(old(self).accepted_count() + 1)
                && final(self).dropped_count() == old(self).dropped_count(),
            r is Err ==> final(self).dropped_count() == saturated(old(self).dropped_count() + 1)
                && final(self).accepted_count() == old(self).accepted_count(),
            r is Err ==> r == Err::<(), SynthError>(SynthError::QueueFull) || r == Err::<
                (),
                SynthError,
            >(SynthError::QueueClosed),
    {
        let outcome = try_send(&self.tx, msg);
        self.record(outcome)
    }

    /// Decodes the messages in `bytes` and offers each to the queue, in
    /// order. Returns how many were queued; the others were dropped.
    pub fn feed(&mut self, bytes: &[u8]) -> (queued: usize)
        ensures
            queued <= decoded_from(bytes@, 0).len(),
            final(self).accepted_count() == saturated(old(self).accepted_count() + queued),
            final(self).dropped_count() == saturated(
                old(self).dropped_count() + decoded_from(bytes@, 0).len() - queued,
            ),
    {
        let messages = decode_stream(bytes);
        let mut queued: usize = 0;
        let mut i: usize = 0;
        while i < messages.len()
            invariant
                queued <= i <= messages@.len(),
                self.accepted_count() == saturated(old(self).accepted_count() + queued),
                self.dropped_count() == saturated(old(self).dropped_count() + i - queued),
            decreases messages@.len() - i,
        {
            match self.push(messages[i]) {
                Ok(_) => {
                    queued += 1;
                },
                Err(_) => {},
            }
            i += 1;
        }
        queued
    }
}

impl MidiConsumer {
    /// The limit of the queue this end takes from.
    pub closed spec fn capacity(&self) -> Option<usize> {
        receiver_capacity(self.rx)
    }

    /// Takes the next message off the queue, if one is there. Never blocks.
    pub fn poll(&self) -> (msg: Option<MidiMessage>) {
        try_recv(&self.rx)
    }
}

} // verus!
