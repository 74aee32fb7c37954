//! The voice manager: 128 voices, the list of those that sound, MIDI
//! dispatch and the mixing of a frame.

use vstd::prelude::*;
use std::collections::VecDeque;
pub use crate::counter::Counter;
pub use crate::voice::Note;
pub use crate::wavetable::{WaveTable, Waveforms};
use crate::midi::{MidiMessage, SUSTAIN_PEDAL};
use crate::temperament::{lemma_preset_is_unique, Tuning, TuningData, Tunings};
use crate::types::{min_int, Generator, MidiDispatcher, Sample, SampleRate, SampleRated, ONE};
use crate::voice::{lemma_at_rate_wf, lemma_contribution_range, lemma_stepped_wf, velocity_level, MIDI_MAX};
use crate::adsr::{lemma_frame_delta_bounds, lemma_frame_delta_covers, lemma_step_wf, Gate, Stage};
use crate::wavetable::{table_holds, table_in_range};

verus! {

/// The number of voices, one per MIDI note.
pub const VOICES: usize = 128;

/// The polyphony counter stops here.
pub const MAX_POLY: usize = 128;

/// A sustain pedal at or above this holds released keys.
pub const PEDAL_DOWN: u8 = 64;

/// `s` without the entry `x`, where it has one.
pub open spec fn without(s: Seq<u8>, x: u8) -> Seq<u8> {
    if s.contains(x) {
        s.remove(s.index_of(x))
    } else {
        s
    }
}

/// The voices of `s`, in order, that still sound after one more frame.
pub open spec fn survivors(s: Seq<u8>, notes: Seq<Note>) -> Seq<u8>
    decreases s.len(),
{
    if s.len() == 0 {
        s
    } else {
        let rest = survivors(s.drop_last(), notes);
        if notes[s.last() as int].stepped().sounding() {
            rest.push(s.last())
        } else {
            rest
        }
    }
}

/// The sum of what the voices of `s` add to the next frame.
pub open spec fn frame_sum(s: Seq<u8>, notes: Seq<Note>, table: Seq<Sample>) -> int
    decreases s.len(),
{
    if s.len() == 0 {
        0
    } else {
        frame_sum(s.drop_last(), notes, table) + notes[s.last() as int].contribution(table)
    }
}

/// The voice manager as a value: its wavetable, its tuning, its 128 voices
/// and the list of those that sound, most recently struck first.
pub struct OscillatorModel {
    pub table: Seq<Sample>,
    pub waveform: Waveforms,
    pub preset: Tuning,
    pub temperament: TuningData,
    pub sus: u8,
    pub poly: usize,
    pub notes: Seq<Note>,
    pub active: Seq<u8>,
}

impl OscillatorModel {
    /// The state is consistent: the table and every voice are well-formed,
    /// and the active list names, once each, exactly the voices whose
    /// amplitude envelope is not off.
    pub open spec fn wf(self) -> bool {
        &&& table_in_range(self.table)
        &&& self.notes.len() == VOICES
        &&& forall|i: int| 0 <= i < VOICES ==> (#[trigger] self.notes[i]).wf()
        &&& self.active.no_duplicates()
        &&& self.active.len() <= VOICES
        &&& forall|k: int| 0 <= k < self.active.len() ==> #[trigger] self.active[k] < VOICES
        &&& forall|n: u8|
            n < VOICES ==> (#[trigger] self.active.contains(n) <==> self.notes[n as int].sounding())
        &&& self.poly <= MAX_POLY
    }

    /// The state after the key of note `n` is struck at velocity `v`: the
    /// voice restarts its attack and moves to the front of the active list,
    /// and the polyphony counter goes up, stopping at `MAX_POLY`.
    pub open spec fn with_note_on(self, n: u8, v: int) -> OscillatorModel {
        OscillatorModel {
            notes: self.notes.update(n as int, self.notes[n as int].pressed(v)),
            active: seq![n] + without(self.active, n),
            poly: min_int(self.poly + 1, MAX_POLY as int) as usize,
            ..self
        }
    }

    /// The state after the key of note `n` is let go: the polyphony counter
    /// goes down, stopping at 0, and a sounding voice is released unless the
    /// sustain pedal holds it.
    pub open spec fn with_note_off(self, n: u8) -> OscillatorModel {
        OscillatorModel {
            notes: if self.active.contains(n) {
                self.notes.update(n as int, self.notes[n as int].let_go(self.sus as int))
            } else {
                self.notes
            },
            poly: if self.poly > 0 {
                (self.poly - 1) as usize
            } else {
                0
            },
            ..self
        }
    }

    /// The state after the sustain pedal moves to `value`: when it comes up,
    /// from 64 or more to less, every sounding voice whose key is up is
    /// released.
    pub open spec fn with_pedal(self, value: u8) -> OscillatorModel {
        OscillatorModel {
            notes: if self.sus >= PEDAL_DOWN && value < PEDAL_DOWN {
                Seq::new(
                    self.notes.len(),
                    |i: int|
                        if self.notes[i].sounding() && !self.notes[i].down {
                            self.notes[i].released()
                        } else {
                            self.notes[i]
                        },
                )
            } else {
                self.notes
            },
            sus: value,
            ..self
        }
    }

    /// The state after one MIDI message. A note-on with velocity 0 is a
    /// note-off; controller 64 is the sustain pedal; a message with a note,
    /// velocity or pedal value above 127 is dropped; every other message
    /// changes nothing.
    pub open spec fn dispatched(self, msg: MidiMessage) -> OscillatorModel {
        match msg {
            MidiMessage::NoteOn { channel, note, velocity } => {
                if note > MIDI_MAX || velocity > MIDI_MAX {
                    self
                } else if velocity == 0 {
                    self.with_note_off(note)
                } else {
                    self.with_note_on(note, velocity as int)
                }
            },
            MidiMessage::NoteOff { channel, note, velocity } => {
                if note > MIDI_MAX {
                    self
                } else {
                    self.with_note_off(note)
                }
            },
            MidiMessage::ControlChange { channel, controller, value } => {
                if controller == SUSTAIN_PEDAL && value <= MIDI_MAX {
                    self.with_pedal(value)
                } else {
                    self
                }
            },
            _ => self,
        }
    }

    /// The state after the messages `msgs`, in order.
    pub open spec fn dispatched_all(self, msgs: Seq<MidiMessage>) -> OscillatorModel
        decreases msgs.len(),
    {
        if msgs.len() == 0 {
            self
        } else {
            self.dispatched_all(msgs.drop_last()).dispatched(msgs.last())
        }
    }

    /// The sample of the next frame: the sum of what the active voices add.
    pub open spec fn frame(self) -> int {
        frame_sum(self.active, self.notes, self.table)
    }

    /// The state after the next frame: every active voice has stepped, and
    /// those that fell silent have left the active list.
    pub open spec fn rendered(self) -> OscillatorModel {
        OscillatorModel {
            notes: Seq::new(
                self.notes.len(),
                |i: int|
                    if self.notes[i].sounding() {
                        self.notes[i].stepped()
                    } else {
                        self.notes[i]
                    },
            ),
            active: survivors(self.active, self.notes),
            ..self
        }
    }

    /// The state after `k` frames.
    pub open spec fn rendered_by(self, k: nat) -> OscillatorModel
        decreases k,
    {
        if k == 0 {
            self
        } else {
            self.rendered().rendered_by((k - 1) as nat)
        }
    }

    /// The sample of frame `k`, counting from 0.
    pub open spec fn frame_at(self, k: nat) -> int {
        self.rendered_by(k).frame()
    }
}

/// A list without duplicates whose entries are below `bound` is no longer
/// than `bound`.
pub(crate) proof fn lemma_distinct_bounded(s: Seq<u8>, bound: int)
    requires
        s.no_duplicates(),
        0 <= bound,
        forall|k: int| 0 <= k < s.len() ==> #[trigger] s[k] < bound,
    ensures
        s.len() <= bound,
    decreases bound,
{
    if bound == 0 {
        if s.len() > 0 {
            assert(s[0] < 0);
        }
    } else {
        let top = (bound - 1) as u8;
        if bound <= 256 && s.contains(top) {
            let i = s.index_of(top);
            let rest = s.remove(i);
            assert forall|k: int| 0 <= k < rest.len() implies #[trigger] rest[k] < bound - 1 by {
                if k < i {
                    assert(rest[k] == s[k]);
                    assert(s[k] != s[i]);
                } else {
                    assert(rest[k] == s[k + 1]);
                    assert(s[k + 1] != s[i]);
                }
            }
            assert(rest.no_duplicates());
            lemma_distinct_bounded(rest, bound - 1);
        } else {
            assert forall|k: int| 0 <= k < s.len() implies #[trigger] s[k] < bound - 1 by {
                if bound <= 256 {
                    assert(s.contains(s[k]));
                }
            }
            lemma_distinct_bounded(s, bound - 1);
        }
    }
}

/// What `without` does to a list without duplicates: `x` is gone, every
/// other entry stays, and the order is kept.
pub proof fn lemma_without(s: Seq<u8>, x: u8)
    requires
        s.no_duplicates(),
    ensures
        without(s, x).no_duplicates(),
        !without(s, x).contains(x),
        forall|y: u8| y != x ==> (#[trigger] without(s, x).contains(y) <==> s.contains(y)),
        without(s, x).len() <= s.len(),
        s.contains(x) ==> without(s, x).len() == s.len() - 1,
{
    let w = without(s, x);
    if s.contains(x) {
        let i = s.index_of(x);
        assert forall|y: u8| y != x implies (#[trigger] w.contains(y) <==> s.contains(y)) by {
            if s.contains(y) {
                let j = s.index_of(y);
                if j < i {
                    assert(w[j] == y);
                } else {
                    assert(w[j - 1] == y);
                }
            }
            if w.contains(y) {
                let j = w.index_of(y);
                if j < i {
                    assert(s[j] == y);
                } else {
                    assert(s[j + 1] == y);
                }
            }
        }
        if w.contains(x) {
            let j = w.index_of(x);
            if j < i {
                assert(s[j] == x);
            } else {
                assert(s[j + 1] == x);
            }
        }
    } else {
        assert forall|y: u8| y != x implies (#[trigger] w.contains(y) <==> s.contains(y)) by {}
    }
}

/// The survivors of a list are those of its entries that still sound after
/// the frame, each once if the list had each once.
pub proof fn lemma_survivors(s: Seq<u8>, notes: Seq<Note>)
    ensures
        survivors(s, notes).len() <= s.len(),
        forall|x: u8|
            #[trigger] survivors(s, notes).contains(x) <==> (s.contains(x) && notes[x as int].stepped().sounding()),
        s.no_duplicates() ==> survivors(s, notes).no_duplicates(),
    decreases s.len(),
{
    let out = survivors(s, notes);
    if s.len() == 0 {
        assert forall|x: u8| #[trigger] out.contains(x) <==> (s.contains(x) && notes[x as int].stepped().sounding()) by {}
    } else {
        let head = s.drop_last();
        let last = s.last();
        let rest = survivors(head, notes);
        lemma_survivors(head, notes);
        assert forall|x: u8| #[trigger] out.contains(x) <==> (s.contains(x) && notes[x as int].stepped().sounding()) by {
            if s.contains(x) {
                let j = s.index_of(x);
                if j < head.len() {
                    assert(head[j] == x);
                    assert(head.contains(x));
                }
            }
            if head.contains(x) {
                let j = head.index_of(x);
                assert(s[j] == x);
            }
            assert(s[s.len() - 1] == last);
            if notes[last as int].stepped().sounding() {
                assert(out == rest.push(last));
                if rest.contains(x) {
                    let j = rest.index_of(x);
                    assert(out[j] == x);
                }
                assert(out[out.len() - 1] == last);
                if out.contains(x) {
                    let j = out.index_of(x);
                    if j < rest.len() {
                        assert(rest[j] == x);
                    }
                }
            }
        }
        if s.no_duplicates() {
            assert(head.no_duplicates());
            if notes[last as int].stepped().sounding() {
                if rest.contains(last) {
                    assert(head.contains(last));
                    let j = head.index_of(last);
                    assert(s[j] == s[s.len() - 1]);
                }
                assert forall|a: int, b: int| 0 <= a < out.len() && 0 <= b < out.len() && a != b implies out[a] != out[b] by {
                    if a < rest.len() && b < rest.len() {
                    } else if a < rest.len() {
                        assert(rest.contains(rest[a]));
                    } else if b < rest.len() {
                        assert(rest.contains(rest[b]));
                    }
                }
            }
        }
    }
}

/// The sum of a frame is no larger in magnitude than the number of active
/// voices times full scale.
pub(crate) proof fn lemma_frame_sum_range(s: Seq<u8>, notes: Seq<Note>, table: Seq<Sample>)
    requires
        table_in_range(table),
        notes.len() == VOICES,
        forall|i: int| 0 <= i < VOICES ==> (#[trigger] notes[i]).wf(),
        forall|k: int| 0 <= k < s.len() ==> #[trigger] s[k] < VOICES,
    ensures
        -(s.len() * ONE) <= frame_sum(s, notes, table) <= s.len() * ONE,
    decreases s.len(),
{
    if s.len() > 0 {
        let head = s.drop_last();
        lemma_frame_sum_range(head, notes, table);
        assert(s[s.len() - 1] < VOICES);
        lemma_contribution_range(notes[s.last() as int], table);
        assert(s.len() * ONE == head.len() * ONE + ONE) by (nonlinear_arith)
            requires
                s.len() == head.len() + 1,
        ;
    }
}

impl OscillatorModel {
    /// A frame keeps a consistent state consistent.
    pub proof fn lemma_rendered_wf(self)
        requires
            self.wf(),
        ensures
            self.rendered().wf(),
    {
        let next = self.rendered();
        lemma_survivors(self.active, self.notes);
        assert forall|i: int| 0 <= i < VOICES implies (#[trigger] next.notes[i]).wf() by {
            lemma_stepped_wf(self.notes[i]);
        }
        assert forall|k: int| 0 <= k < next.active.len() implies #[trigger] next.active[k] < VOICES by {
            assert(next.active.contains(next.active[k]));
            let x = next.active[k];
            assert(self.active.contains(x));
            let j = self.active.index_of(x);
            assert(self.active[j] < VOICES);
        }
        assert forall|n: u8| n < VOICES implies (#[trigger] next.active.contains(n)
            <==> next.notes[n as int].sounding()) by {
            lemma_stepped_wf(self.notes[n as int]);
        }
    }

    /// One more frame after `k` frames is `k + 1` frames.
    pub proof fn lemma_rendered_by_next(self, k: nat)
        ensures
            self.rendered_by(k + 1) == self.rendered_by(k).rendered(),
        decreases k,
    {
        if k > 0 {
            self.rendered().lemma_rendered_by_next((k - 1) as nat);
            assert(self.rendered_by(k + 1) == self.rendered().rendered_by(k));
            assert(self.rendered().rendered_by(k) == self.rendered().rendered_by((k - 1) as nat).rendered());
        } else {
            assert(self.rendered_by(1) == self.rendered().rendered_by(0));
        }
    }

    /// Any number of frames keeps a consistent state consistent.
    pub proof fn lemma_rendered_by_wf(self, k: nat)
        requires
            self.wf(),
        ensures
            self.rendered_by(k).wf(),
        decreases k,
    {
        if k > 0 {
            self.lemma_rendered_wf();
            self.rendered().lemma_rendered_by_wf((k - 1) as nat);
        }
    }
}

impl OscillatorModel {
    /// The state a new voice manager starts from: equal temperament, pedal
    /// up, nothing sounding, every voice silent and tuned to its note, and
    /// the table of `waveform` (for noise, some table within full scale).
    pub open spec fn is_fresh(self, waveform: Waveforms) -> bool {
        &&& self.waveform == waveform
        &&& table_in_range(self.table)
        &&& waveform != Waveforms::Noise ==> table_holds(self.table, waveform)
        &&& self.preset == Tuning::EquaTemp
        &&& self.temperament.is_preset(Tuning::EquaTemp)
        &&& self.sus == 0
        &&& self.poly == 0
        &&& self.active.len() == 0
        &&& self.notes.len() == VOICES
        &&& forall|i: int|
            0 <= i < VOICES ==> #[trigger] self.notes[i] == Note::initial().retuned(
                self.temperament.freq_table[i] as int,
            )
    }

    /// `self` is `before` moved to the tuning of `preset`: the temperament
    /// is the preset's at 440 Hz and every voice steps at its note's new
    /// frequency; nothing else differs.
    pub open spec fn is_retempered(self, before: OscillatorModel, preset: Tuning) -> bool {
        &&& self.preset == preset
        &&& self.temperament.is_preset(preset)
        &&& self.table == before.table
        &&& self.waveform == before.waveform
        &&& self.sus == before.sus
        &&& self.poly == before.poly
        &&& self.active == before.active
        &&& self.notes.len() == before.notes.len()
        &&& forall|i: int|
            0 <= i < VOICES && i < before.notes.len() ==> #[trigger] self.notes[i]
                == before.notes[i].retuned(self.temperament.freq_table[i] as int)
    }

    /// `self` is `before` at another frame rate: every voice has the new
    /// rate in its counter and envelopes, and the state is then retempered
    /// to its own preset.
    pub open spec fn is_at_rate(self, before: OscillatorModel, sample_rate: SampleRate) -> bool {
        self.is_retempered(
            OscillatorModel {
                notes: Seq::new(
                    before.notes.len(),
                    |i: int|
                        if i < VOICES {
                            before.notes[i].at_rate(sample_rate)
                        } else {
                            before.notes[i]
                        },
                ),
                ..before
            },
            before.preset,
        )
    }

    /// Striking a key keeps a consistent state consistent.
    pub proof fn lemma_note_on_wf(self, n: u8, v: int)
        requires
            self.wf(),
            n < VOICES,
            v <= MIDI_MAX,
        ensures
            self.with_note_on(n, v).wf(),
    {
        let next = self.with_note_on(n, v);
        let rest = without(self.active, n);
        lemma_without(self.active, n);
        assert(0 <= velocity_level(v) <= ONE || v < 0) by {
            if v >= 0 {
                assert(0 <= v * ONE / (MIDI_MAX as int) <= ONE);
            }
        }
        assert(next.active[0] == n);
        assert forall|k: int| 0 <= k < next.active.len() implies #[trigger] next.active[k] < VOICES by {
            if k > 0 {
                assert(next.active[k] == rest[k - 1]);
                assert(rest.contains(rest[k - 1]));
                let y = rest[k - 1];
                assert(self.active.contains(y));
                let j = self.active.index_of(y);
                assert(self.active[j] < VOICES);
            }
        }
        assert forall|a: int, b: int|
            0 <= a < next.active.len() && 0 <= b < next.active.len() && a != b implies next.active[a]
            != next.active[b] by {
            if a > 0 {
                assert(next.active[a] == rest[a - 1]);
                assert(rest.contains(rest[a - 1]));
            }
            if b > 0 {
                assert(next.active[b] == rest[b - 1]);
                assert(rest.contains(rest[b - 1]));
            }
        }
        lemma_distinct_bounded(next.active, VOICES as int);
        assert forall|y: u8| y < VOICES implies (#[trigger] next.active.contains(y)
            <==> next.notes[y as int].sounding()) by {
            if y == n {
                assert(next.active[0] == y);
            } else {
                if rest.contains(y) {
                    let j = rest.index_of(y);
                    assert(next.active[j + 1] == y);
                }
                if next.active.contains(y) {
                    let j = next.active.index_of(y);
                    assert(j > 0);
                    assert(rest[j - 1] == y);
                }
            }
        }
    }

    /// Letting a key go keeps a consistent state consistent.
    pub proof fn lemma_note_off_wf(self, n: u8)
        requires
            self.wf(),
            n < VOICES,
        ensures
            self.with_note_off(n).wf(),
    {
        let next = self.with_note_off(n);
        assert forall|y: u8| y < VOICES implies (#[trigger] next.active.contains(y)
            <==> next.notes[y as int].sounding()) by {
            assert(self.active.contains(y) <==> self.notes[y as int].sounding());
        }
    }

    /// Moving the pedal keeps a consistent state consistent.
    pub proof fn lemma_pedal_wf(self, value: u8)
        requires
            self.wf(),
        ensures
            self.with_pedal(value).wf(),
    {
        let next = self.with_pedal(value);
        assert forall|y: u8| y < VOICES implies (#[trigger] next.active.contains(y)
            <==> next.notes[y as int].sounding()) by {
            assert(self.active.contains(y) <==> self.notes[y as int].sounding());
        }
        assert forall|i: int| 0 <= i < VOICES implies (#[trigger] next.notes[i]).wf() by {
            assert(self.notes[i].wf());
        }
    }

    /// A message keeps a consistent state consistent.
    pub proof fn lemma_dispatched_wf(self, msg: MidiMessage)
        requires
            self.wf(),
        ensures
            self.dispatched(msg).wf(),
    {
        match msg {
            MidiMessage::NoteOn { channel, note, velocity } => {
                if note <= MIDI_MAX && velocity <= MIDI_MAX {
                    if velocity == 0 {
                        self.lemma_note_off_wf(note);
                    } else {
                        self.lemma_note_on_wf(note, velocity as int);
                    }
                }
            },
            MidiMessage::NoteOff { channel, note, velocity } => {
                if note <= MIDI_MAX {
                    self.lemma_note_off_wf(note);
                }
            },
            MidiMessage::ControlChange { channel, controller, value } => {
                self.lemma_pedal_wf(value);
            },
            _ => {},
        }
    }
}

/// The voice manager: 128 voices, one per MIDI note, played from one
/// wavetable under one tuning.
pub struct Oscillator {
    table: WaveTable,
    waveform: Waveforms,
    tunings: Tunings<TuningData>,
    tuning_preset: Tuning,
    temperament: TuningData,
    sus: u8,
    poly: usize,
    notes: Vec<Note>,
    active_notes: VecDeque<u8>,
}

impl View for Oscillator {
    type V = OscillatorModel;

    /// The voice manager's state as a value.
    closed spec fn view(&self) -> OscillatorModel {
        OscillatorModel {
            table: self.table@,
            waveform: self.waveform,
            preset: self.tuning_preset,
            temperament: self.temperament,
            sus: self.sus,
            poly: self.poly,
            notes: self.notes@,
            active: self.active_notes@,
        }
    }
}

impl Oscillator {
    /// The voice manager's state is consistent; see [`OscillatorModel::wf`].
    pub closed spec fn wf(&self) -> bool {
        &&& self.table.wf()
        &&& self.tunings.wf()
        &&& self@.wf()
    }

    /// A well-formed voice manager has a consistent state.
    pub proof fn lemma_wf_view(&self)
        requires
            self.wf(),
        ensures
            self@.wf(),
    {
    }

    /// A voice manager playing `waveform`, in equal temperament, silent,
    /// its frame rate not yet set.
    pub fn new(waveform: Waveforms) -> (osc: Oscillator)
        ensures
            osc.wf(),
            osc@.wf(),
            osc@.is_fresh(waveform),
    {
        let mut notes: Vec<Note> = Vec::new();
        let mut i: usize = 0;
        while i < VOICES
            invariant
                i <= VOICES,
                notes@.len() == i,
                forall|k: int| 0 <= k < i ==> #[trigger] notes@[k] == Note::initial(),
            decreases VOICES - i,
        {
            notes.push(Note::new());
            i += 1;
        }
        let mut osc = Oscillator {
            notes,
            active_notes: VecDeque::with_capacity(VOICES),
            tunings: Tunings::new(),
            tuning_preset: Tuning::EquaTemp,
            temperament: TuningData::new(Tuning::EquaTemp),
            poly: 0,
            sus: 0,
            waveform,
            table: WaveTable::new(waveform),
        };
        proof {
            osc.table.lemma_wf_view();
            assert forall|n: u8| n < VOICES implies (#[trigger] osc@.active.contains(n)
                <==> osc@.notes[n as int].sounding()) by {
                assert(osc@.notes[n as int] == Note::initial());
            }
            assert(osc@.wf());
        }
        let ghost notes_before = osc@.notes;
        osc.retemper();
        proof {
            assert forall|i: int| 0 <= i < VOICES implies #[trigger] osc@.notes[i] == Note::initial().retuned(
                osc@.temperament.freq_table[i] as int,
            ) by {
                assert(notes_before[i] == Note::initial());
            }
        }
        osc
    }

    /// Loads the tuning of the current preset and retunes every voice.
    fn retemper(&mut self)
        ensures
            final(self).tunings == old(self).tunings,
            final(self).table == old(self).table,
            old(self).tunings.wf() ==> final(self)@.is_retempered(old(self)@, old(self)@.preset),
            old(self).wf() ==> final(self).wf(),
    {
        self.temperament = *self.tunings.index(self.tuning_preset);
        let count: usize = if self.notes.len() < VOICES {
            self.notes.len()
        } else {
            VOICES
        };
        let mut n: usize = 0;
        while n < count
            invariant
                n <= count <= VOICES,
                count <= self.notes@.len(),
                count == VOICES || count == self.notes@.len(),
                self.notes@.len() == old(self).notes@.len(),
                self.table == old(self).table,
                self.waveform == old(self).waveform,
                self.tunings == old(self).tunings,
                self.tuning_preset == old(self).tuning_preset,
                self.temperament == old(self).tunings.entry(old(self).tuning_preset),
                self.sus == old(self).sus,
                self.poly == old(self).poly,
                self.active_notes == old(self).active_notes,
                forall|k: int|
                    0 <= k < n ==> #[trigger] self.notes@[k] == old(self).notes@[k].retuned(
                        self.temperament.freq_table[k] as int,
                    ),
                forall|k: int| n <= k < self.notes@.len() ==> #[trigger] self.notes@[k] == old(self).notes@[k],
            decreases count - n,
        {
            let mut note: Note = self.notes[n];
            note.phase.set_freq(self.temperament.lookup(n as i8));
            self.notes[n] = note;
            n += 1;
        }
        proof {
            if old(self).wf() {
                let before = old(self)@;
                let after = self@;
                assert forall|i: int| 0 <= i < VOICES implies (#[trigger] after.notes[i]).wf() by {
                    assert(before.notes[i].wf());
                }
                assert forall|y: u8| y < VOICES implies (#[trigger] after.active.contains(y)
                    <==> after.notes[y as int].sounding()) by {
                    assert(before.active.contains(y) <==> before.notes[y as int].sounding());
                }
            }
        }
    }

    /// Moves the voice manager to the tuning of `preset` and retunes every
    /// voice.
    pub fn set_temperament(&mut self, preset: Tuning)
        requires
            old(self).wf(),
        ensures
            final(self).wf(),
            final(self)@.is_retempered(old(self)@, preset),
    {
        self.tuning_preset = preset;
        proof {
            let mid = self@;
            let before = old(self)@;
            assert forall|y: u8| y < VOICES implies (#[trigger] mid.active.contains(y)
                <==> mid.notes[y as int].sounding()) by {
                assert(before.active.contains(y) <==> before.notes[y as int].sounding());
            }
        }
        self.retemper();
    }

    /// Takes `x` out of the active list, where it is in it.
    fn drop_active(&mut self, x: u8)
        requires
            old(self).active_notes@.no_duplicates(),
        ensures
            final(self).active_notes@ == without(old(self).active_notes@, x),
            final(self).table == old(self).table,
            final(self).waveform == old(self).waveform,
            final(self).tunings == old(self).tunings,
            final(self).tuning_preset == old(self).tuning_preset,
            final(self).temperament == old(self).temperament,
            final(self).sus == old(self).sus,
            final(self).poly == old(self).poly,
            final(self).notes == old(self).notes,
    {
        let mut i: usize = 0;
        while i < self.active_notes.len()
            invariant
                i <= self.active_notes@.len(),
                self.active_notes == old(self).active_notes,
                self.table == old(self).table,
                self.waveform == old(self).waveform,
                self.tunings == old(self).tunings,
                self.tuning_preset == old(self).tuning_preset,
                self.temperament == old(self).temperament,
                self.sus == old(self).sus,
                self.poly == old(self).poly,
                self.notes == old(self).notes,
                self.active_notes@.no_duplicates(),
                forall|k: int| 0 <= k < i ==> #[trigger] self.active_notes@[k] != x,
            decreases self.active_notes@.len() - i,
        {
            if self.active_notes[i] == x {
                proof {
                    let s = self.active_notes@;
                    assert(s.contains(x));
                    let j = s.index_of(x);
                    assert(s[j] == s[i as int]);
                    assert(j == i);
                }
                let _ = self.active_notes.remove(i);
                return ;
            }
            i += 1;
        }
    }

    /// Strikes the key of note `n` at velocity `v`. A negative `n` is
    /// dropped; a negative `v` keeps the velocity the voice had.
    pub fn note_on(&mut self, n: i8, v: i8)
        requires
            old(self).wf(),
        ensures
            final(self).wf(),
            n >= 0 ==> final(self)@ == old(self)@.with_note_on(n as u8, v as int),
            n < 0 ==> final(self)@ == old(self)@,
    {
        if n < 0 {
            return ;
        }
        let un: usize = n as usize;
        let mut note: Note = self.notes[un];
        note.amp_env.gate_open();
        note.flt_env.gate_open();
        note.down = true;
        if v >= 0 {
            note.vel = (v as i64) * ONE / (MIDI_MAX as i64);
        }
        self.notes[un] = note;
        if self.poly < MAX_POLY {
            self.poly += 1;
        }
        self.drop_active(n as u8);
        self.active_notes.push_front(n as u8);
        proof {
            let before = old(self)@;
            let expected = before.with_note_on(n as u8, v as int);
            assert(self@.active =~= expected.active);
            assert(self@.notes =~= expected.notes);
            before.lemma_note_on_wf(n as u8, v as int);
        }
    }

    /// Lets the key of note `n` go. A negative `n` is dropped.
    pub fn note_off(&mut self, n: i8)
        requires
            old(self).wf(),
        ensures
            final(self).wf(),
            n >= 0 ==> final(self)@ == old(self)@.with_note_off(n as u8),
            n < 0 ==> final(self)@ == old(self)@,
    {
        if n < 0 {
            return ;
        }
        if self.poly > 0 {
            self.poly -= 1;
        }
        let un: usize = n as usize;
        let mut note: Note = self.notes[un];
        assert(old(self)@.active.contains(n as u8) <==> note.sounding());
        if !note.amp_env.is_off() {
            note.down = false;
            if self.sus < PEDAL_DOWN {
                note.amp_env.gate_close();
                note.flt_env.gate_close();
            }
            self.notes[un] = note;
        }
        proof {
            let before = old(self)@;
            let expected = before.with_note_off(n as u8);
            assert(self@.notes =~= expected.notes);
            before.lemma_note_off_wf(n as u8);
        }
    }

    /// Moves the sustain pedal to `value`. When the pedal comes up, every
    /// sounding voice whose key is up is released.
    pub fn sustain(&mut self, value: u8)
        requires
            old(self).wf(),
        ensures
            final(self).wf(),
            final(self)@ == old(self)@.with_pedal(value),
    {
        if self.sus >= PEDAL_DOWN && value < PEDAL_DOWN {
            let mut k: usize = 0;
            while k < self.active_notes.len()
                invariant
                    k <= self.active_notes@.len(),
                    old(self).wf(),
                    self.active_notes == old(self).active_notes,
                    self.table == old(self).table,
                    self.waveform == old(self).waveform,
                    self.tunings == old(self).tunings,
                    self.tuning_preset == old(self).tuning_preset,
                    self.temperament == old(self).temperament,
                    self.sus == old(self).sus,
                    self.poly == old(self).poly,
                    self.notes@.len() == VOICES,
                    forall|i: int|
                        0 <= i < VOICES ==> #[trigger] self.notes@[i] == if old(self).active_notes@.take(
                            k as int,
                        ).contains(i as u8) && !old(self).notes@[i].down {
                            old(self).notes@[i].released()
                        } else {
                            old(self).notes@[i]
                        },
                decreases self.active_notes@.len() - k,
            {
                let ghost seen = old(self).active_notes@.take(k as int);
                let ghost seen_next = old(self).active_notes@.take(k as int + 1);
                let un: usize = self.active_notes[k] as usize;
                let mut note: Note = self.notes[un];
                if !note.down {
                    note.amp_env.gate_close();
                    note.flt_env.gate_close();
                    self.notes[un] = note;
                }
                proof {
                    assert(seen_next =~= seen.push(un as u8));
                    assert(seen_next[k as int] == un as u8);
                    assert forall|x: u8| #[trigger] seen_next.contains(x) <==> (seen.contains(x) || x
                        == un) by {
                        if seen.contains(x) {
                            let j = seen.index_of(x);
                            assert(seen_next[j] == x);
                        }
                        if seen_next.contains(x) {
                            let j = seen_next.index_of(x);
                            if j < k {
                                assert(seen[j] == x);
                            }
                        }
                    }
                }
                k += 1;
            }
            proof {
                let before = old(self)@;
                assert(before.active.take(before.active.len() as int) =~= before.active);
                assert forall|i: int| 0 <= i < VOICES implies #[trigger] self.notes@[i] == if before.notes[i].sounding()
                    && !before.notes[i].down {
                    before.notes[i].released()
                } else {
                    before.notes[i]
                } by {
                    assert(before.active.contains(i as u8) <==> before.notes[i].sounding());
                }
            }
        }
        self.sus = value;
        proof {
            let before = old(self)@;
            assert(self@.notes =~= before.with_pedal(value).notes);
            before.lemma_pedal_wf(value);
        }
    }

    /// Handles one MIDI message; see [`OscillatorModel::dispatched`].
    pub fn dispatch(&mut self, msg: &MidiMessage)
        requires
            old(self).wf(),
        ensures
            final(self).wf(),
            final(self)@ == old(self)@.dispatched(*msg),
    {
        match *msg {
            MidiMessage::NoteOn { channel, note, velocity } => {
                if note <= MIDI_MAX && velocity <= MIDI_MAX {
                    if velocity == 0 {
                        self.note_off(note as i8);
                    } else {
                        self.note_on(note as i8, velocity as i8);
                    }
                }
            },
            MidiMessage::NoteOff { channel, note, velocity } => {
                if note <= MIDI_MAX {
                    self.note_off(note as i8);
                }
            },
            MidiMessage::ControlChange { channel, controller, value } => {
                if controller == SUSTAIN_PEDAL && value <= MIDI_MAX {
                    self.sustain(value);
                }
            },
            _ => {},
        }
    }

    /// Renders one stereo frame: every active voice plays one frame and
    /// adds its part; voices that fall silent leave the active list. Both
    /// channels carry the same sample.
    pub fn render_frame(&mut self) -> (frame: (Sample, Sample))
        requires
            old(self).wf(),
        ensures
            final(self).wf(),
            final(self)@ == old(self)@.rendered(),
            frame.0 == old(self)@.frame(),
            frame.1 == frame.0,
            -(VOICES * ONE) <= frame.0 <= VOICES * ONE,
    {
        let ghost before = self@;
        let ghost mut done: int = 0;
        let mut left: Sample = 0;
        let mut i: usize = 0;
        proof {
            assert(before.active.take(0) =~= Seq::<u8>::empty());
            assert(before.active.skip(0) =~= before.active);
            assert(self.active_notes@ =~= survivors(before.active.take(0), before.notes) + before.active.skip(0));
        }
        while i < self.active_notes.len()
            invariant
                0 <= i <= done <= before.active.len() <= VOICES,
                before == old(self)@,
                before.wf(),
                self.table.wf(),
                self.tunings == old(self).tunings,
                self.table == old(self).table,
                self.waveform == old(self).waveform,
                self.tuning_preset == old(self).tuning_preset,
                self.temperament == old(self).temperament,
                self.sus == old(self).sus,
                self.poly == old(self).poly,
                self.notes@.len() == VOICES,
                i == survivors(before.active.take(done), before.notes).len(),
                self.active_notes@ == survivors(before.active.take(done), before.notes) + before.active.skip(
                    done,
                ),
                forall|k: int|
                    0 <= k < VOICES ==> #[trigger] self.notes@[k] == if before.active.take(done).contains(
                        k as u8,
                    ) {
                        before.notes[k].stepped()
                    } else {
                        before.notes[k]
                    },
                left == frame_sum(before.active.take(done), before.notes, before.table),
                -(done * ONE) <= left <= done * ONE,
            decreases before.active.len() - done,
        {
            let ghost seen = before.active.take(done);
            let ghost seen_next = before.active.take(done + 1);
            let ghost kept = survivors(seen, before.notes);
            let n: u8 = self.active_notes[i];
            let un: usize = n as usize;
            proof {
                assert(before.active.skip(done).len() > 0);
                assert(n == before.active.skip(done)[0]);
                assert(n == before.active[done]);
                assert(seen_next.drop_last() =~= seen);
                assert(seen_next.last() == n);
                assert(before.active[done] < VOICES);
                if seen.contains(n) {
                    let j = seen.index_of(n);
                    assert(before.active[j] == before.active[done]);
                }
                assert(self.notes@[un as int] == before.notes[un as int]);
                assert(before.notes[un as int].wf());
                lemma_contribution_range(before.notes[un as int], before.table);
                assert forall|x: u8| #[trigger] seen_next.contains(x) <==> (seen.contains(x) || x == n) by {
                    if seen.contains(x) {
                        let j = seen.index_of(x);
                        assert(seen_next[j] == x);
                    }
                    if seen_next.contains(x) {
                        let j = seen_next.index_of(x);
                        if j < done {
                            assert(seen[j] == x);
                        }
                    }
                    if x == n {
                        assert(seen_next[done] == n);
                    }
                }
            }
            let mut note: Note = self.notes[un];
            let part: Sample = note.render(&self.table);
            left = left + part;
            if note.amp_env.is_off() {
                let _ = self.active_notes.remove(i);
                proof {
                    assert(self.active_notes@ =~= kept + before.active.skip(done + 1));
                }
            } else {
                proof {
                    assert(self.active_notes@ =~= kept.push(n) + before.active.skip(done + 1));
                }
                i += 1;
            }
            self.notes[un] = note;
            proof {
                assert((done + 1) * ONE == done * ONE + ONE) by (nonlinear_arith);
                done = done + 1;
            }
        }
        proof {
            assert(done == before.active.len());
            assert(before.active.take(done) =~= before.active);
            assert(before.active.skip(done) =~= Seq::<u8>::empty());
            assert(self.active_notes@ =~= survivors(before.active, before.notes));
            let expected = before.rendered();
            assert forall|k: int| 0 <= k < VOICES implies #[trigger] self.notes@[k] == expected.notes[k] by {
                assert(before.active.contains(k as u8) <==> before.notes[k].sounding());
            }
            assert(self@.notes =~= expected.notes);
            before.lemma_rendered_wf();
            assert(VOICES * ONE >= done * ONE) by (nonlinear_arith)
                requires
                    done <= VOICES,
            ;
        }
        (left, left)
    }

    /// The number of voices that sound.
    pub fn active_voices(&self) -> (count: usize)
        ensures
            count == self@.active.len(),
    {
        self.active_notes.len()
    }

    /// Whether voice `n` is in the active list.
    pub fn is_active(&self, n: u8) -> (active: bool)
        requires
            self.wf(),
        ensures
            active == self@.active.contains(n),
            n < VOICES ==> active == self@.notes[n as int].sounding(),
    {
        if n as usize >= VOICES {
            proof {
                if self@.active.contains(n) {
                    let j = self@.active.index_of(n);
                    assert(self@.active[j] < VOICES);
                }
            }
            false
        } else {
            !self.notes[n as usize].amp_env.is_off()
        }
    }

    /// Voice `n` as it is now.
    pub fn note(&self, n: u8) -> (note: Note)
        requires
            self.wf(),
            n < VOICES,
        ensures
            note == self@.notes[n as int],
    {
        self.notes[n as usize]
    }

    /// The waveform being played.
    pub fn waveform(&self) -> (waveform: Waveforms)
        ensures
            waveform == self@.waveform,
    {
        self.waveform
    }

    /// The polyphony counter.
    pub fn polyphony(&self) -> (poly: usize)
        ensures
            poly == self@.poly,
    {
        self.poly
    }

    /// The position of the sustain pedal.
    pub fn pedal(&self) -> (sus: u8)
        ensures
            sus == self@.sus,
    {
        self.sus
    }

    /// The tuning in use.
    pub fn temperament(&self) -> (td: &TuningData)
        ensures
            *td == self@.temperament,
    {
        &self.temperament
    }

    /// The wavetable in use.
    pub fn wavetable(&self) -> (table: &WaveTable)
        ensures
            table@ == self@.table,
            self.wf() ==> table.wf(),
    {
        &self.table
    }
}

impl SampleRated for Oscillator {
    /// Hands the frame rate to every voice and retunes the voices to the
    /// tuning of the current preset.
    fn set_sample_rate(&mut self, sample_rate: SampleRate)
        ensures
            old(self).wf() ==> final(self).wf() && final(self)@.is_at_rate(old(self)@, sample_rate),
    {
        let count: usize = if self.notes.len() < VOICES {
            self.notes.len()
        } else {
            VOICES
        };
        let mut n: usize = 0;
        while n < count
            invariant
                n <= count <= VOICES,
                count <= self.notes@.len(),
                count == VOICES || count == self.notes@.len(),
                self.notes@.len() == old(self).notes@.len(),
                self.table == old(self).table,
                self.waveform == old(self).waveform,
                self.tunings == old(self).tunings,
                self.tuning_preset == old(self).tuning_preset,
                self.temperament == old(self).temperament,
                self.sus == old(self).sus,
                self.poly == old(self).poly,
                self.active_notes == old(self).active_notes,
                forall|k: int| 0 <= k < n ==> #[trigger] self.notes@[k] == old(self).notes@[k].at_rate(sample_rate),
                forall|k: int| n <= k < self.notes@.len() ==> #[trigger] self.notes@[k] == old(self).notes@[k],
            decreases count - n,
        {
            let mut note: Note = self.notes[n];
            note.set_sample_rate(sample_rate);
            self.notes[n] = note;
            n += 1;
        }
        proof {
            if old(self).wf() {
                let before = old(self)@;
                let mid = self@;
                assert forall|i: int| 0 <= i < VOICES implies (#[trigger] mid.notes[i]).wf() by {
                    assert(before.notes[i].wf());
                    lemma_at_rate_wf(before.notes[i], sample_rate);
                }
                assert forall|y: u8| y < VOICES implies (#[trigger] mid.active.contains(y)
                    <==> mid.notes[y as int].sounding()) by {
                    assert(before.active.contains(y) <==> before.notes[y as int].sounding());
                }
                assert(mid.notes =~= Seq::new(
                    before.notes.len(),
                    |i: int|
                        if i < VOICES {
                            before.notes[i].at_rate(sample_rate)
                        } else {
                            before.notes[i]
                        },
                ));
            }
        }
        self.retemper();
    }
}

impl Generator for Oscillator {
    /// A voice manager can render whenever its state is consistent.
    open spec fn ready(&self) -> bool {
        self.wf()
    }

    /// One stereo frame; see [`Oscillator::render_frame`].
    fn generate(&mut self) -> (frame: [Sample; 2])
        ensures
            final(self)@ == old(self)@.rendered(),
            frame[0] == old(self)@.frame(),
            frame[1] == frame[0],
    {
        let (left, right) = self.render_frame();
        [left, right]
    }
}

impl MidiDispatcher for Oscillator {
    /// A voice manager takes messages whenever its state is consistent.
    open spec fn attentive(&self) -> bool {
        self.wf()
    }

    /// Handles one MIDI message; see [`Oscillator::dispatch`].
    fn dispatch_midi_in(&mut self, msg: &MidiMessage)
        ensures
            final(self)@ == old(self)@.dispatched(*msg),
    {
        self.dispatch(msg);
    }
}

impl OscillatorModel {
    /// In a consistent state a voice is in the active list if and only if
    /// its amplitude envelope is not off or its key is still held.
    pub proof fn lemma_active_iff_sounding_or_held(self, n: u8)
        requires
            self.wf(),
            n < VOICES,
        ensures
            self.active.contains(n) <==> (self.notes[n as int].sounding() || self.notes[n as int].down),
    {
        assert(self.notes[n as int].wf());
    }

    /// A silent voice stays as it is, and out of the active list, for as
    /// long as only frames are rendered.
    pub proof fn lemma_silent_stays(self, n: u8, k: nat)
        requires
            self.wf(),
            n < VOICES,
            !self.notes[n as int].sounding(),
        ensures
            !self.rendered_by(k).active.contains(n),
            self.rendered_by(k).notes[n as int] == self.notes[n as int],
        decreases k,
    {
        if k > 0 {
            self.lemma_rendered_wf();
            self.rendered().lemma_silent_stays(n, (k - 1) as nat);
        }
    }

    /// A releasing voice has fallen silent, left the active list and gone
    /// back to phase 0 once its release delta, frame by frame, has used up
    /// the envelope value it started from.
    pub proof fn lemma_release_runs_out(self, n: u8, k: nat)
        requires
            self.wf(),
            n < VOICES,
            self.notes[n as int].amp_env.stage == Stage::Release,
            k >= 1,
            k * self.notes[n as int].amp_env.dr >= self.notes[n as int].amp_env.val,
        ensures
            !self.rendered_by(k).active.contains(n),
            !self.rendered_by(k).notes[n as int].sounding(),
            self.rendered_by(k).notes[n as int].phase.phase == 0,
        decreases k,
    {
        let env = self.notes[n as int].amp_env;
        let next = self.rendered();
        self.lemma_rendered_wf();
        lemma_stepped_wf(self.notes[n as int]);
        lemma_step_wf(env);
        lemma_frame_delta_bounds(env.r as int, env.sample_rate as int);
        assert(next.notes[n as int] == self.notes[n as int].stepped());
        if env.val - env.dr <= 0 {
            next.lemma_silent_stays(n, (k - 1) as nat);
        } else {
            let after = next.notes[n as int].amp_env;
            assert(after.val == env.val - env.dr);
            assert((k - 1) * env.dr >= after.val) by (nonlinear_arith)
                requires
                    k * env.dr >= env.val,
                    after.val == env.val - env.dr,
            ;
            assert(k - 1 >= 1) by (nonlinear_arith)
                requires
                    (k - 1) * env.dr >= after.val,
                    after.val > 0,
                    k >= 1,
            ;
            next.lemma_release_runs_out(n, (k - 1) as nat);
        }
    }

    /// Strike a key, let it go, and render more frames than the release time
    /// holds: the voice is then out of the active list and its phase is 0.
    /// This needs the sustain pedal to be up, or else the first message to
    /// be no strike (velocity 0) for a voice that is silent or releasing
    /// already: a pedal that is down holds every other voice.
    /// (`frames * ONE > r * sample_rate` says that `frames` exceeds `r`
    /// seconds' worth of frames.)
    pub proof fn lemma_voice_falls_silent(self, channel: u8, n: u8, v: u8, frames: nat)
        requires
            self.wf(),
            n <= MIDI_MAX,
            v <= MIDI_MAX,
            self.sus < PEDAL_DOWN || (v == 0 && (self.notes[n as int].amp_env.stage == Stage::Off
                || self.notes[n as int].amp_env.stage == Stage::Release)),
            frames * ONE > self.notes[n as int].amp_env.r * self.notes[n as int].amp_env.sample_rate,
        ensures
            ({
                let end = self.dispatched(MidiMessage::NoteOn { channel, note: n, velocity: v }).dispatched(
                    MidiMessage::NoteOff { channel, note: n, velocity: 0 },
                ).rendered_by(frames);
                !end.active.contains(n) && end.notes[n as int].phase.phase == 0
            }),
    {
        let struck = self.dispatched(MidiMessage::NoteOn { channel, note: n, velocity: v });
        self.lemma_dispatched_wf(MidiMessage::NoteOn { channel, note: n, velocity: v });
        let let_go = struck.dispatched(MidiMessage::NoteOff { channel, note: n, velocity: 0 });
        struck.lemma_dispatched_wf(MidiMessage::NoteOff { channel, note: n, velocity: 0 });
        assert(let_go == struck.with_note_off(n));
        let before = self.notes[n as int].amp_env;
        assert(self.notes[n as int].wf());
        assert(struck.notes[n as int].wf());
        assert(let_go.notes[n as int].wf());
        if v > 0 {
            assert(struck == self.with_note_on(n, v as int));
            assert(struck.active[0] == n);
        } else {
            assert(struck == self.with_note_off(n));
        }
        let env = let_go.notes[n as int].amp_env;
        assert(env.r == before.r && env.sample_rate == before.sample_rate && env.dr == before.dr);
        if let_go.notes[n as int].sounding() {
            assert(let_go.active.contains(n));
            assert(struck.active.contains(n));
            assert(env.stage == Stage::Release);
            lemma_frame_delta_covers(before.r as int, before.sample_rate as int, frames as int);
            assert(frames >= 1) by (nonlinear_arith)
                requires
                    frames * ONE > before.r * before.sample_rate,
                    before.r >= 0,
                    before.sample_rate >= 0,
            ;
            let_go.lemma_release_runs_out(n, frames);
        } else {
            let_go.lemma_silent_stays(n, frames);
        }
    }
}

impl OscillatorModel {
    /// The sample of a frame is no larger in magnitude than full scale
    /// times the number of voices that sound: nothing is clipped, and
    /// nothing can overflow.
    pub proof fn lemma_frame_range(self)
        requires
            self.wf(),
        ensures
            -(self.active.len() * ONE) <= self.frame() <= self.active.len() * ONE,
    {
        lemma_frame_sum_range(self.active, self.notes, self.table);
    }

    /// There is one fresh state for each waveform with fixed entries. With
    /// the functions that change the state and render frames all being
    /// functions of the state, two voice managers made for the same such
    /// waveform and given the same messages render the same frames.
    pub proof fn lemma_fresh_is_unique(self, other: OscillatorModel, waveform: Waveforms, msgs: Seq<MidiMessage>, k: nat)
        requires
            waveform != Waveforms::Noise,
            self.is_fresh(waveform),
            other.is_fresh(waveform),
        ensures
            self == other,
            self.dispatched_all(msgs).frame_at(k) == other.dispatched_all(msgs).frame_at(k),
    {
        assert(self.table =~= other.table);
        lemma_preset_is_unique(self.temperament, other.temperament, Tuning::EquaTemp);
        assert(self.notes =~= other.notes);
        assert(self.active =~= other.active);
    }
}

} // verus!
