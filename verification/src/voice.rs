//! One voice: an oscillator phase, two envelopes and a velocity.

use vstd::prelude::*;
use crate::adsr::{lemma_frame_delta_bounds, lemma_step_wf, Gate, Stage, ADSR};
use crate::counter::Counter;
use crate::types::{lemma_mul_bounds, Sample, SampleRate, SampleRated, ONE};
use crate::wavetable::{interpolated, lemma_between_range, table_in_range, WaveTable};

verus! {

/// The largest MIDI data value.
pub const MIDI_MAX: u8 = 127;

/// The amplitude of key velocity `v`: `v / 127`, rounded down.
pub open spec fn velocity_level(v: int) -> int {
    v * ONE / (MIDI_MAX as int)
}

/// A table value `t` scaled by an envelope value and a velocity, both in
/// `[0, 1]`: `t * amp * vel`, rounded toward zero.
pub open spec fn mixed(t: int, amp: int, vel: int) -> int {
    if t >= 0 {
        t * amp * vel / 0x1_0000_0000_0000_0000
    } else {
        -((-t) * amp * vel / 0x1_0000_0000_0000_0000)
    }
}

/// A mixed value is no larger in magnitude than the table value.
pub(crate) proof fn lemma_mixed_range(t: int, amp: int, vel: int)
    requires
        -ONE <= t <= ONE,
        0 <= amp <= ONE,
        0 <= vel <= ONE,
    ensures
        -ONE <= mixed(t, amp, vel) <= ONE,
        t >= 0 ==> 0 <= t * amp <= ONE * ONE && 0 <= t * amp * vel <= ONE * ONE * ONE,
        t < 0 ==> 0 <= (-t) * amp <= ONE * ONE && 0 <= (-t) * amp * vel <= ONE * ONE * ONE,
{
    let mag = if t >= 0 {
        t
    } else {
        -t
    };
    lemma_mul_bounds(mag, amp, ONE as int, ONE as int);
    lemma_mul_bounds(mag * amp, vel, ONE * ONE, ONE as int);
}

/// Scales a table value by an envelope value and a velocity; see [`mixed`].
pub fn mix(t: Sample, amp: Sample, vel: Sample) -> (s: Sample)
    requires
        -ONE <= t <= ONE,
        0 <= amp <= ONE,
        0 <= vel <= ONE,
    ensures
        s == mixed(t as int, amp as int, vel as int),
        -ONE <= s <= ONE,
{
    proof {
        lemma_mixed_range(t as int, amp as int, vel as int);
    }
    if t >= 0 {
        let wide: u128 = (t as u128) * (amp as u128) * (vel as u128);
        (wide / 0x1_0000_0000_0000_0000u128) as i64
    } else {
        let wide: u128 = ((-t) as u128) * (amp as u128) * (vel as u128);
        -((wide / 0x1_0000_0000_0000_0000u128) as i64)
    }
}

/// One voice: the phase of its oscillator, its two envelopes, the velocity
/// it was struck with, and whether its key is held.
#[derive(Clone, Copy, Debug)]
pub struct Note {
    pub phase: Counter,
    pub amp: Sample,
    pub flt: Sample,
    pub amp_env: ADSR,
    pub flt_env: ADSR,
    pub down: bool,
    pub vel: Sample,
}

impl Note {
    /// The voice's numbers are in range, a held key's amplitude envelope is
    /// neither releasing nor off, and a silent voice rests at phase 0.
    pub open spec fn wf(self) -> bool {
        &&& self.amp_env.wf()
        &&& self.flt_env.wf()
        &&& 0 <= self.vel <= ONE
        &&& self.down ==> self.amp_env.stage != Stage::Release && self.amp_env.stage != Stage::Off
        &&& self.amp_env.stage == Stage::Off ==> self.phase.phase == 0
    }

    /// A silent voice with its key up.
    pub open spec fn initial() -> Note {
        Note {
            phase: Counter::initial(),
            amp: 0,
            flt: 0,
            amp_env: ADSR::initial(),
            flt_env: ADSR::initial(),
            down: false,
            vel: 0,
        }
    }

    /// Whether the voice's amplitude envelope is running.
    pub open spec fn sounding(self) -> bool {
        self.amp_env.stage != Stage::Off
    }

    /// The voice with its key struck at velocity `v`; a negative `v` keeps
    /// the velocity it had.
    pub open spec fn pressed(self, v: int) -> Note {
        Note {
            vel: if v >= 0 {
                velocity_level(v) as i64
            } else {
                self.vel
            },
            down: true,
            amp_env: self.amp_env.opened(),
            flt_env: self.flt_env.opened(),
            ..self
        }
    }

    /// The voice with both envelopes releasing.
    pub open spec fn released(self) -> Note {
        Note { amp_env: self.amp_env.closed(), flt_env: self.flt_env.closed(), ..self }
    }

    /// The voice with its key let go while the sustain pedal is at `sus`:
    /// the envelopes release unless the pedal holds them.
    pub open spec fn let_go(self, sus: int) -> Note {
        let up = Note { down: false, ..self };
        if sus < 64 {
            up.released()
        } else {
            up
        }
    }

    /// The voice with both envelopes one frame on, and silenced (phase 0,
    /// filter envelope releasing) if the amplitude envelope has run out.
    pub open spec fn enveloped(self) -> Note {
        let amp_env = self.amp_env.step();
        let flt_env = self.flt_env.step();
        if amp_env.stage == Stage::Off {
            Note {
                amp: amp_env.val,
                flt: flt_env.val,
                amp_env,
                flt_env: flt_env.closed(),
                phase: Counter { phase: 0, ..self.phase },
                ..self
            }
        } else {
            Note { amp: amp_env.val, flt: flt_env.val, amp_env, flt_env, ..self }
        }
    }

    /// The voice one frame later: its envelopes have stepped and, unless it
    /// fell silent, its phase has advanced.
    pub open spec fn stepped(self) -> Note {
        let e = self.enveloped();
        if e.sounding() {
            Note { phase: e.phase.advanced(), ..e }
        } else {
            e
        }
    }

    /// What the voice adds to the frame that takes it to [`Self::stepped`]:
    /// the table at its phase, scaled by its new envelope value and its
    /// velocity; nothing if it fell silent.
    pub open spec fn contribution(self, table: Seq<Sample>) -> int {
        let e = self.enveloped();
        if e.sounding() {
            mixed(interpolated(table, e.phase), e.amp as int, e.vel as int)
        } else {
            0
        }
    }

    /// The voice with its frame rate set and its phase step derived for
    /// frequency `f`.
    pub open spec fn retuned(self, f: int) -> Note {
        Note { phase: self.phase.tuned_to(f), ..self }
    }

    /// The voice at another frame rate.
    pub open spec fn at_rate(self, sample_rate: SampleRate) -> Note {
        Note {
            phase: Counter { sample_rate, ..self.phase },
            amp_env: (ADSR { sample_rate, ..self.amp_env }).recalculated(),
            flt_env: (ADSR { sample_rate, ..self.flt_env }).recalculated(),
            ..self
        }
    }

    /// A silent voice; see [`Note::initial`].
    pub fn new() -> (note: Note)
        ensures
            note == Note::initial(),
            note.wf(),
    {
        Note {
            phase: Counter::new(),
            amp: 0,
            amp_env: ADSR::new(),
            flt: 0,
            flt_env: ADSR::new(),
            down: false,
            vel: 0,
        }
    }

    /// Steps both envelopes by one frame; a voice whose amplitude envelope
    /// has run out is silenced.
    pub fn do_adsr(&mut self)
        requires
            old(self).wf(),
        ensures
            *final(self) == old(self).enveloped(),
            final(self).wf(),
            0 <= final(self).amp <= ONE,
    {
        self.amp = self.amp_env.run();
        self.flt = self.flt_env.run();
        if self.amp_env.is_off() {
            self.flt_env.gate_close();
            self.phase.set_phase(0);
        }
    }

    /// Plays the voice for one frame from `table` and returns what it adds
    /// to the frame.
    pub fn render(&mut self, table: &WaveTable) -> (s: Sample)
        requires
            old(self).wf(),
            table.wf(),
        ensures
            *final(self) == old(self).stepped(),
            final(self).wf(),
            s == old(self).contribution(table@),
            -ONE <= s <= ONE,
    {
        self.do_adsr();
        if self.amp_env.is_off() {
            0
        } else {
            let y: Sample = table.lookup(&mut self.phase);
            mix(y, self.amp, self.vel)
        }
    }
}

impl SampleRated for Note {
    /// Hands the frame rate to the counter and both envelopes.
    fn set_sample_rate(&mut self, sample_rate: SampleRate)
        ensures
            *final(self) == old(self).at_rate(sample_rate),
            old(self).wf() ==> final(self).wf(),
    {
        self.phase.set_sample_rate(sample_rate);
        self.amp_env.set_sample_rate(sample_rate);
        self.flt_env.set_sample_rate(sample_rate);
    }
}

/// A frame keeps a well-formed voice well-formed.
pub proof fn lemma_stepped_wf(note: Note)
    requires
        note.wf(),
    ensures
        note.stepped().wf(),
        note.stepped().down == note.down,
        note.stepped().vel == note.vel,
        !note.sounding() ==> !note.stepped().sounding(),
{
    lemma_step_wf(note.amp_env);
    lemma_step_wf(note.flt_env);
}

/// Another frame rate keeps a well-formed voice well-formed.
pub proof fn lemma_at_rate_wf(note: Note, sample_rate: SampleRate)
    requires
        note.wf(),
    ensures
        note.at_rate(sample_rate).wf(),
{
    lemma_frame_delta_bounds(note.amp_env.a as int, sample_rate as int);
    lemma_frame_delta_bounds(note.amp_env.d as int, sample_rate as int);
    lemma_frame_delta_bounds(note.amp_env.r as int, sample_rate as int);
    lemma_frame_delta_bounds(note.flt_env.a as int, sample_rate as int);
    lemma_frame_delta_bounds(note.flt_env.d as int, sample_rate as int);
    lemma_frame_delta_bounds(note.flt_env.r as int, sample_rate as int);
}

/// What a well-formed voice adds to a frame lies within full scale.
pub proof fn lemma_contribution_range(note: Note, table: Seq<Sample>)
    requires
        note.wf(),
        table_in_range(table),
    ensures
        -ONE <= note.contribution(table) <= ONE,
{
    lemma_step_wf(note.amp_env);
    let e = note.enveloped();
    if e.sounding() {
        let c = e.phase;
        assert(0 <= c.slot() < table.len());
        lemma_between_range(
            table[c.slot()] as int,
            table[(c.slot() + 1) % (table.len() as int)] as int,
            c.remainder(),
        );
        lemma_mixed_range(interpolated(table, c), e.amp as int, e.vel as int);
    }
}

} // verus!
