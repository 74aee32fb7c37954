//! What the audio callback does for one buffer.

use vstd::prelude::*;
use vstd::arithmetic::div_mod::lemma_fundamental_div_mod_converse;
use crate::midi::{MidiConsumer, MidiMessage, QUEUE_CAPACITY};
use crate::oscillator::Oscillator;
use crate::types::Sample;

verus! {

/// The number of frames that `len` interleaved samples of `channels`
/// channels take up; a last, incomplete frame counts.
pub open spec fn frames_in(len: int, channels: int) -> int {
    (len + channels - 1) / channels
}

/// Does for the voice manager what one look into the MIDI queue calls for:
/// a message that was found is dispatched, and there may be more; nothing
/// found changes nothing, and the queue is done with for now.
pub fn take(osc: &mut Oscillator, polled: Option<MidiMessage>) -> (more: bool)
    requires
        old(osc).wf(),
    ensures
        final(osc).wf(),
        polled matches Some(m) ==> more && final(osc)@ == old(osc)@.dispatched(m),
        polled is None ==> !more && final(osc)@ == old(osc)@,
{
    match polled {
        Some(msg) => {
            osc.dispatch(&msg);
            true
        },
        None => false,
    }
}

/// Takes what is waiting in the MIDI queue, at most one queue's capacity of
/// messages, and hands each to the voice manager in the order it was
/// taken; see [`take`]. Returns how many messages were handled. Which
/// messages these are is up to the sending thread; the voice manager ends
/// up as if exactly they had been dispatched to it.
pub fn drain(queue: &MidiConsumer, osc: &mut Oscillator) -> (handled: usize)
    requires
        old(osc).wf(),
    ensures
        final(osc).wf(),
        handled <= QUEUE_CAPACITY,
        exists|msgs: Seq<MidiMessage>|
            msgs.len() == handled && final(osc)@ == #[trigger] old(osc)@.dispatched_all(msgs),
{
    let ghost mut msgs: Seq<MidiMessage> = Seq::empty();
    let mut handled: usize = 0;
    while handled < QUEUE_CAPACITY
        invariant
            handled <= QUEUE_CAPACITY,
            osc.wf(),
            msgs.len() == handled,
            osc@ == old(osc)@.dispatched_all(msgs),
        decreases QUEUE_CAPACITY - handled,
    {
        let polled: Option<MidiMessage> = queue.poll();
        if !take(osc, polled) {
            break ;
        }
        proof {
            let longer = msgs.push(polled->Some_0);
            assert(longer.drop_last() =~= msgs);
            assert(longer.last() == polled->Some_0);
            msgs = longer;
        }
        handled += 1;
    }
    handled
}

/// Fills `out` with interleaved frames: sample `i` of the buffer is the
/// sample of frame `i / channels`, so every channel of a frame carries the
/// same sample. The voice manager renders one frame for each frame of the
/// buffer, a last incomplete one included.
pub fn render_buffer(osc: &mut Oscillator, out: &mut Vec<Sample>, channels: usize)
    requires
        old(osc).wf(),
        channels > 0,
    ensures
        final(osc).wf(),
        final(out)@.len() == old(out)@.len(),
        final(osc)@ == old(osc)@.rendered_by(frames_in(old(out)@.len() as int, channels as int) as nat),
        forall|i: int|
            0 <= i < final(out)@.len() ==> #[trigger] final(out)@[i] == old(osc)@.frame_at(
                (i / (channels as int)) as nat,
            ),
{
    let ghost start = osc@;
    let len: usize = out.len();
    let mut i: usize = 0;
    let mut frame: usize = 0;
    let mut channel: usize = 0;
    let mut value: Sample = 0;
    while i < len
        invariant
            i <= len,
            len == out@.len(),
            len == old(out)@.len(),
            channels > 0,
            start == old(osc)@,
            osc.wf(),
            channel < channels,
            frame <= i,
            i == frame * channels + channel,
            channel == 0 ==> osc@ == start.rendered_by(frame as nat),
            channel > 0 ==> osc@ == start.rendered_by((frame + 1) as nat),
            channel > 0 ==> value == start.frame_at(frame as nat),
            forall|k: int| 0 <= k < i ==> #[trigger] out@[k] == start.frame_at((k / (channels as int)) as nat),
        decreases len - i,
    {
        if channel == 0 {
            proof {
                start.lemma_rendered_by_next(frame as nat);
            }
            let (left, _right) = osc.render_frame();
            value = left;
        }
        proof {
            lemma_fundamental_div_mod_converse(i as int, channels as int, frame as int, channel as int);
        }
        out[i] = value;
        i += 1;
        channel += 1;
        if channel == channels {
            channel = 0;
            proof {
                assert((frame + 1) * channels == frame * channels + channels) by (nonlinear_arith);
            }
            frame += 1;
        }
    }
    proof {
        if channel == 0 {
            lemma_fundamental_div_mod_converse(
                len as int + channels as int - 1,
                channels as int,
                frame as int,
                channels as int - 1,
            );
        } else {
            assert((frame + 1) * channels == frame * channels + channels) by (nonlinear_arith);
            lemma_fundamental_div_mod_converse(
                len as int + channels as int - 1,
                channels as int,
                frame as int + 1,
                channel as int - 1,
            );
        }
    }
}

/// What the audio callback does for one buffer: first every message that
/// waits in the MIDI queue takes effect, then the buffer is filled, so no
/// message takes effect within a buffer. Returns how many messages were
/// handled.
pub fn process(osc: &mut Oscillator, queue: &MidiConsumer, out: &mut Vec<Sample>, channels: usize) -> (handled:
    usize)
    requires
        old(osc).wf(),
        channels > 0,
    ensures
        final(osc).wf(),
        final(out)@.len() == old(out)@.len(),
        handled <= QUEUE_CAPACITY,
        exists|msgs: Seq<MidiMessage>|
            {
                let heard = #[trigger] old(osc)@.dispatched_all(msgs);
                &&& msgs.len() == handled
                &&& final(osc)@ == heard.rendered_by(
                    frames_in(old(out)@.len() as int, channels as int) as nat,
                )
                &&& forall|i: int|
                    0 <= i < final(out)@.len() ==> #[trigger] final(out)@[i] == heard.frame_at(
                        (i / (channels as int)) as nat,
                    )
            },
{
    let handled: usize = drain(queue, osc);
    let ghost msgs = choose|msgs: Seq<MidiMessage>|
        msgs.len() == handled && osc@ == #[trigger] old(osc)@.dispatched_all(msgs);
    render_buffer(osc, out, channels);
    assert(msgs.len() == handled);
    handled
}

} // verus!
