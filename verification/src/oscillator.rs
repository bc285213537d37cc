//! The state of the oscillator and what commands and audio cycles do to it,
//! as a mathematical model. The engine is held to this model.

use vstd::prelude::*;
use vstd::arithmetic::div_mod::*;
use vstd::arithmetic::mul::*;
use crate::command::{CommandView, WaveformKind};
use crate::pitch::note_pattern;
use crate::single::{exact_step, is_zero};
use crate::wavetable::BankView;

verus! {

/// A phase cursor carried over to a table of the given length: unchanged
/// where it still points into the table, else moved to the last sample.
pub open spec fn clamp_phase(phase: nat, table_len: nat) -> nat {
    if phase < table_len {
        phase
    } else {
        (table_len - 1) as nat
    }
}

/// A phase cursor after it has moved `frames` steps round the table.
pub open spec fn phase_after(phase: nat, step: nat, frames: nat, table_len: nat) -> nat {
    ((phase + frames * step) % table_len) as nat
}

/// The oscillator: the tables it can play, the one it plays, its frequency
/// and sample rate as bit patterns, and a phase cursor for each channel.
pub struct OscillatorState {
    pub bank: BankView,
    pub waveform: WaveformKind,
    pub frequency: u32,
    pub sample_rate: u32,
    pub left_phase: nat,
    pub right_phase: nat,
}

impl OscillatorState {
    /// The table that is played.
    pub open spec fn table(self) -> Seq<u32> {
        self.bank.table(self.waveform)
    }

    /// No table is empty, and both cursors point into the table that is
    /// played.
    pub open spec fn wf(self) -> bool {
        &&& self.bank.wf()
        &&& self.left_phase < self.table().len()
        &&& self.right_phase < self.table().len()
    }

    /// The oscillator is silent while its frequency is zero.
    pub open spec fn silent(self) -> bool {
        is_zero(self.frequency)
    }

    /// The number of samples that the cursors move per frame.
    pub open spec fn step(self) -> nat {
        exact_step(self.table().len(), self.frequency, self.sample_rate)
    }

    /// The state at rest: the sine table, silence, both cursors at the start.
    pub open spec fn initial(bank: BankView, sample_rate: u32) -> OscillatorState {
        OscillatorState {
            bank,
            waveform: WaveformKind::Sine,
            frequency: 0,
            sample_rate,
            left_phase: 0,
            right_phase: 0,
        }
    }

    /// The state after one command.
    ///
    /// A note-on sets the frequency of its note and a note-off sets zero.
    /// The parameter `frequency` is set to the value given; any other
    /// parameter leaves the state as it is. A waveform command swaps the
    /// table and keeps the cursors where they are, moved to the last sample
    /// only where the new table is too short for them.
    pub open spec fn apply(self, command: CommandView) -> OscillatorState {
        match command {
            CommandView::NoteOn(note) => OscillatorState { frequency: note_pattern(note), ..self },
            CommandView::NoteOff => OscillatorState { frequency: 0, ..self },
            CommandView::SetParameter(name, value) => if name == "frequency"@ {
                OscillatorState { frequency: value, ..self }
            } else {
                self
            },
            CommandView::SetWaveform(kind) => OscillatorState {
                waveform: kind,
                left_phase: clamp_phase(self.left_phase, self.bank.table(kind).len()),
                right_phase: clamp_phase(self.right_phase, self.bank.table(kind).len()),
                ..self
            },
        }
    }

    /// The state after a run of commands, applied in order.
    pub open spec fn apply_all(self, commands: Seq<CommandView>) -> OscillatorState
        decreases commands.len(),
    {
        if commands.len() == 0 {
            self
        } else {
            self.apply_all(commands.drop_last()).apply(commands.last())
        }
    }

    /// The state after `frames` frames were rendered. A silent oscillator
    /// stays where it is.
    pub open spec fn advance(self, frames: nat) -> OscillatorState {
        if self.silent() {
            self
        } else {
            OscillatorState {
                left_phase: phase_after(self.left_phase, self.step(), frames, self.table().len()),
                right_phase: phase_after(self.right_phase, self.step(), frames, self.table().len()),
                ..self
            }
        }
    }

    /// The sample at position `index` of the interleaved output: even
    /// positions are the left channel, odd ones the right, and frame `k`
    /// reads the table where the cursor stands after `k` steps.
    pub open spec fn output_sample(self, index: int) -> u32 {
        let frame = (index / 2) as nat;
        let len = self.table().len();
        if self.silent() {
            0
        } else if index % 2 == 0 {
            self.table()[phase_after(self.left_phase, self.step(), frame, len) as int]
        } else {
            self.table()[phase_after(self.right_phase, self.step(), frame, len) as int]
        }
    }

    /// The interleaved stereo output of `frames` frames.
    pub open spec fn render(self, frames: nat) -> Seq<u32> {
        Seq::new(2 * frames, |index: int| self.output_sample(index))
    }
}

/// What a command is reported for: the name of a parameter that the
/// oscillator does not have.
pub open spec fn rejected_parameter(command: CommandView) -> Option<Seq<char>> {
    match command {
        CommandView::SetParameter(name, _) => if name == "frequency"@ {
            None
        } else {
            Some(name)
        },
        _ => None,
    }
}

/// The parameters that a run of commands is reported for, in order.
pub open spec fn rejected_parameters(commands: Seq<CommandView>) -> Seq<Seq<char>>
    decreases commands.len(),
{
    if commands.len() == 0 {
        Seq::empty()
    } else {
        let before = rejected_parameters(commands.drop_last());
        match rejected_parameter(commands.last()) {
            Some(name) => before.push(name),
            None => before,
        }
    }
}

/// A cursor that has moved round the table points into the table.
pub proof fn lemma_phase_in_bounds(phase: nat, step: nat, frames: nat, table_len: nat)
    requires
        table_len > 0,
    ensures
        phase_after(phase, step, frames, table_len) < table_len,
{
    lemma_mod_bound((phase + frames * step) as int, table_len as int);
}

/// Moving a cursor one more step is one addition and at most one
/// subtraction, once the step is reduced to less than the table's length.
pub proof fn lemma_phase_next(phase: nat, step: nat, frames: nat, table_len: nat)
    requires
        table_len > 0,
    ensures
        ({
            let here = phase_after(phase, step, frames, table_len);
            let moved = here + step % table_len;
            phase_after(phase, step, frames + 1, table_len) == if moved >= table_len {
                moved - table_len
            } else {
                moved as int
            }
        }),
{
    let len = table_len as int;
    let total = (phase + frames * step) as int;
    let here = phase_after(phase, step, frames, table_len);
    let moved = (here + step % table_len) as int;
    assert((frames + 1) * step == frames * step + step) by (nonlinear_arith);
    lemma_add_mod_noop(total, step as int, len);
    lemma_mod_bound(total, len);
    lemma_mod_bound(step as int, len);
    if moved >= len {
        lemma_mod_sub_multiples_vanish(moved, len);
        lemma_small_mod((moved - len) as nat, table_len);
    } else {
        lemma_small_mod(moved as nat, table_len);
    }
}

/// Moving a cursor in two runs is the same as moving it in one.
pub proof fn lemma_phase_composes(phase: nat, step: nat, first: nat, second: nat, table_len: nat)
    requires
        table_len > 0,
    ensures
        phase_after(phase_after(phase, step, first, table_len), step, second, table_len) == phase_after(
            phase,
            step,
            first + second,
            table_len,
        ),
{
    let len = table_len as int;
    assert((first + second) * step == first * step + second * step) by (nonlinear_arith);
    lemma_add_mod_noop((phase + first * step) as int, (second * step) as int, len);
    lemma_mod_twice((phase + first * step) as int, len);
    lemma_add_mod_noop(((phase + first * step) as int) % len, (second * step) as int, len);
}

/// Every command leaves a well-formed oscillator well-formed: the cursors
/// point into the table that is played, whatever its length.
pub proof fn lemma_apply_keeps_wf(state: OscillatorState, command: CommandView)
    requires
        state.wf(),
    ensures
        state.apply(command).wf(),
        state.apply(command).bank == state.bank,
        state.apply(command).sample_rate == state.sample_rate,
{
    match command {
        CommandView::SetWaveform(kind) => {
            assert(state.bank.table(kind).len() > 0);
        },
        _ => {},
    }
}

/// A run of commands leaves a well-formed oscillator well-formed.
pub proof fn lemma_apply_all_keeps_wf(state: OscillatorState, commands: Seq<CommandView>)
    requires
        state.wf(),
    ensures
        state.apply_all(commands).wf(),
        state.apply_all(commands).bank == state.bank,
        state.apply_all(commands).sample_rate == state.sample_rate,
    decreases commands.len(),
{
    if commands.len() > 0 {
        lemma_apply_all_keeps_wf(state, commands.drop_last());
        lemma_apply_keeps_wf(state.apply_all(commands.drop_last()), commands.last());
    }
}

/// Applying two runs of commands one after the other is applying them as one
/// run.
pub proof fn lemma_apply_all_concat(
    state: OscillatorState,
    first: Seq<CommandView>,
    second: Seq<CommandView>,
)
    ensures
        state.apply_all(first + second) == state.apply_all(first).apply_all(second),
    decreases second.len(),
{
    if second.len() == 0 {
        assert(first + second == first);
    } else {
        assert((first + second).drop_last() == first + second.drop_last());
        lemma_apply_all_concat(state, first, second.drop_last());
    }
}

/// What two runs of commands are reported for is what they are reported for
/// as one run.
pub proof fn lemma_rejected_parameters_concat(first: Seq<CommandView>, second: Seq<CommandView>)
    ensures
        rejected_parameters(first + second) == rejected_parameters(first) + rejected_parameters(second),
    decreases second.len(),
{
    if second.len() == 0 {
        assert(first + second == first);
        assert(rejected_parameters(first) + rejected_parameters(second) == rejected_parameters(first));
    } else {
        assert((first + second).drop_last() == first + second.drop_last());
        lemma_rejected_parameters_concat(first, second.drop_last());
        let before = rejected_parameters(first) + rejected_parameters(second.drop_last());
        match rejected_parameter(second.last()) {
            Some(name) => {
                assert(before.push(name) == rejected_parameters(first) + rejected_parameters(
                    second.drop_last(),
                ).push(name));
            },
            None => {},
        }
    }
}

/// After any number of frames, at any step, the cursors point into the
/// table: a step of the table's length or more is reduced in full.
pub proof fn lemma_advance_keeps_wf(state: OscillatorState, frames: nat)
    requires
        state.wf(),
    ensures
        state.advance(frames).wf(),
        state.advance(frames).left_phase < state.table().len(),
        state.advance(frames).right_phase < state.table().len(),
{
    let len = state.table().len();
    lemma_phase_in_bounds(state.left_phase, state.step(), frames, len);
    lemma_phase_in_bounds(state.right_phase, state.step(), frames, len);
}

/// A note-off always sets the frequency to exactly zero, and the oscillator
/// then renders silence and stays where it is.
pub proof fn lemma_note_off_silences(state: OscillatorState, frames: nat)
    ensures
        state.apply(CommandView::NoteOff).frequency == 0,
        state.apply(CommandView::NoteOff).render(frames) == Seq::new(2 * frames, |index: int| 0u32),
        state.apply(CommandView::NoteOff).advance(frames) == state.apply(CommandView::NoteOff),
{
    let off = state.apply(CommandView::NoteOff);
    assert(off.render(frames) =~= Seq::new(2 * frames, |index: int| 0u32));
}

/// A waveform command keeps the numeric value of each cursor that still
/// points into the new table, and moves any other to the new table's last
/// sample. Frequency and sample rate stay as they are.
pub proof fn lemma_waveform_switch_keeps_phase(state: OscillatorState, kind: WaveformKind)
    requires
        state.wf(),
    ensures
        ({
            let switched = state.apply(CommandView::SetWaveform(kind));
            let len = state.bank.table(kind).len();
            &&& switched.table() == state.bank.table(kind)
            &&& switched.frequency == state.frequency
            &&& state.left_phase < len ==> switched.left_phase == state.left_phase
            &&& state.right_phase < len ==> switched.right_phase == state.right_phase
            &&& state.left_phase >= len ==> switched.left_phase == len - 1
            &&& state.right_phase >= len ==> switched.right_phase == len - 1
            &&& switched.left_phase < len
            &&& switched.right_phase < len
        }),
{
    assert(state.bank.table(kind).len() > 0);
}

/// Two buffers rendered one after the other hold what one buffer of their
/// joint length holds, and leave the oscillator in the same state.
pub proof fn lemma_render_splits(state: OscillatorState, first: nat, second: nat)
    requires
        state.wf(),
    ensures
        state.render(first) + state.advance(first).render(second) == state.render(first + second),
        state.advance(first).advance(second) == state.advance(first + second),
{
    let len = state.table().len();
    let step = state.step();
    let mid = state.advance(first);
    lemma_phase_composes(state.left_phase, step, first, second, len);
    lemma_phase_composes(state.right_phase, step, first, second, len);
    let joined = state.render(first) + mid.render(second);
    let whole = state.render(first + second);
    assert(joined.len() == whole.len());
    assert forall|index: int| 0 <= index < whole.len() implies joined[index] == whole[index] by {
        if index >= 2 * first && !state.silent() {
            let inner = index - 2 * first;
            assert(joined[index] == mid.output_sample(inner));
            assert(inner % 2 == index % 2);
            assert(inner / 2 + first == index / 2);
            lemma_phase_composes(state.left_phase, step, first, (inner / 2) as nat, len);
            lemma_phase_composes(state.right_phase, step, first, (inner / 2) as nat, len);
        }
    }
    assert(joined =~= whole);
}

} // verus!
