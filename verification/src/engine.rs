//! The synthesis engine: an oscillator that reads its samples from a
//! wavetable, one phase cursor for each stereo channel.

use vstd::prelude::*;
use vstd::arithmetic::div_mod::*;
use crate::command::{
    midi_command,
    midi_commands,
    same_text,
    Command,
    CommandSet,
    CommandView,
    Diagnostic,
    WaveformKind,
};
use crate::midi::MidiEvent;
use crate::oscillator::{
    lemma_phase_next,
    phase_after,
    rejected_parameter,
    rejected_parameters,
    OscillatorState,
};
use crate::pitch::note_frequency;
use crate::single::{denotes_zero, reduced_step, ZERO};
use crate::wavetable::{WaveTable, WaveTableBank};

verus! {

impl Diagnostic {
    /// The diagnostic reports the parameter of this name as unsupported.
    pub open spec fn names_parameter(self, name: Seq<char>) -> bool {
        self matches Diagnostic::UnsupportedParameter(reported) && reported@ == name
    }
}

/// Whether a run of diagnostics reports exactly these parameters, in order.
pub open spec fn report_parameters(diagnostics: Seq<Diagnostic>, names: Seq<Seq<char>>) -> bool {
    &&& diagnostics.len() == names.len()
    &&& forall|index: int|
        0 <= index < names.len() ==> (#[trigger] diagnostics[index]).names_parameter(names[index])
}

/// The statuses of the events that stand for no command, in order.
pub open spec fn unsupported_statuses(events: Seq<MidiEvent>) -> Seq<u8>
    decreases events.len(),
{
    if events.len() == 0 {
        Seq::empty()
    } else {
        let before = unsupported_statuses(events.drop_last());
        if midi_command(events.last()).is_none() {
            before.push(events.last().message.status)
        } else {
            before
        }
    }
}

/// Whether a run of diagnostics reports exactly these MIDI statuses, in order.
pub open spec fn report_statuses(diagnostics: Seq<Diagnostic>, statuses: Seq<u8>) -> bool {
    &&& diagnostics.len() == statuses.len()
    &&& forall|index: int|
        0 <= index < statuses.len() ==> #[trigger] diagnostics[index]
            == Diagnostic::UnsupportedMidiStatus(statuses[index])
}

/// Moves a cursor by a step that is less than the table's length, wrapping
/// at the table's end.
fn wrapped(phase: usize, step: usize, table_len: usize) -> (moved: usize)
    requires
        phase < table_len,
        step < table_len,
    ensures
        moved == if phase + step >= table_len {
            phase + step - table_len
        } else {
            phase + step
        },
        moved < table_len,
{
    if phase >= table_len - step {
        phase - (table_len - step)
    } else {
        phase + step
    }
}

/// The wavetable oscillator. Its state is that of the model; see
/// [`OscillatorState`].
#[derive(Debug)]
pub struct WaveTableModule {
    left_phase: usize,
    right_phase: usize,
    frequency: u32,
    wave_tables: WaveTableBank,
    waveform: WaveformKind,
    sample_rate: u32,
}

impl View for WaveTableModule {
    type V = OscillatorState;

    closed spec fn view(&self) -> OscillatorState {
        OscillatorState {
            bank: self.wave_tables@,
            waveform: self.waveform,
            frequency: self.frequency,
            sample_rate: self.sample_rate,
            left_phase: self.left_phase as nat,
            right_phase: self.right_phase as nat,
        }
    }
}

impl WaveTableModule {
    #[verifier::type_invariant]
    spec fn cursors_in_table(&self) -> bool {
        self@.wf()
    }

    /// Makes an oscillator at rest: it plays the sine table of the bank, is
    /// silent, and has both cursors at the start of the table.
    pub fn new(wave_tables: WaveTableBank, sample_rate: u32) -> (module: WaveTableModule)
        ensures
            module@ == OscillatorState::initial(wave_tables@, sample_rate),
            module@.wf(),
    {
        let _ = wave_tables.table(WaveformKind::Sine);
        WaveTableModule {
            left_phase: 0,
            right_phase: 0,
            frequency: ZERO,
            wave_tables,
            waveform: WaveformKind::Sine,
            sample_rate,
        }
    }

    /// The cursor of the left channel.
    pub fn left_phase(&self) -> (phase: usize)
        ensures
            phase == self@.left_phase,
            phase < self@.table().len(),
    {
        proof {
            use_type_invariant(self);
        }
        self.left_phase
    }

    /// The cursor of the right channel.
    pub fn right_phase(&self) -> (phase: usize)
        ensures
            phase == self@.right_phase,
            phase < self@.table().len(),
    {
        proof {
            use_type_invariant(self);
        }
        self.right_phase
    }

    /// The frequency, as a bit pattern.
    pub fn frequency(&self) -> (frequency: u32)
        ensures
            frequency == self@.frequency,
    {
        self.frequency
    }

    /// The sample rate, as a bit pattern.
    pub fn sample_rate(&self) -> (sample_rate: u32)
        ensures
            sample_rate == self@.sample_rate,
    {
        self.sample_rate
    }

    /// The waveform that is played.
    pub fn waveform(&self) -> (waveform: WaveformKind)
        ensures
            waveform == self@.waveform,
    {
        self.waveform
    }

    /// The table that is played.
    pub fn wave_table(&self) -> (table: &WaveTable)
        ensures
            table@ == self@.table(),
            self@.wf(),
    {
        proof {
            use_type_invariant(self);
        }
        self.wave_tables.table(self.waveform)
    }

    /// Swaps the table for that of another waveform. The cursors stay where
    /// they are unless the new table is too short for them.
    fn select_waveform(&mut self, kind: WaveformKind)
        ensures
            final(self)@ == old(self)@.apply(CommandView::SetWaveform(kind)),
            final(self)@.wf(),
    {
        proof {
            use_type_invariant(&*self);
        }
        let table_len = self.wave_tables.table(kind).len();
        if self.left_phase >= table_len {
            self.left_phase = table_len - 1;
        }
        if self.right_phase >= table_len {
            self.right_phase = table_len - 1;
        }
        self.waveform = kind;
    }

    /// Sets a parameter by its name. The one parameter is `frequency`.
    fn set_parameter(&mut self, name: &str, value: u32) -> (diagnostic: Option<Diagnostic>)
        ensures
            final(self)@ == old(self)@.apply(CommandView::SetParameter(name@, value)),
            final(self)@.wf(),
            match rejected_parameter(CommandView::SetParameter(name@, value)) {
                Some(rejected) => diagnostic matches Some(report) && report.names_parameter(rejected),
                None => diagnostic.is_none(),
            },
    {
        proof {
            use_type_invariant(&*self);
        }
        if same_text(name, "frequency") {
            self.frequency = value;
            None
        } else {
            Some(Diagnostic::UnsupportedParameter(name.to_owned()))
        }
    }

    /// Applies one command. A parameter that the oscillator does not have is
    /// reported and changes nothing; no command fails.
    pub fn apply_command(&mut self, command: &Command) -> (diagnostic: Option<Diagnostic>)
        ensures
            final(self)@ == old(self)@.apply(command@),
            final(self)@.wf(),
            match rejected_parameter(command@) {
                Some(rejected) => diagnostic matches Some(report) && report.names_parameter(rejected),
                None => diagnostic.is_none(),
            },
    {
        proof {
            use_type_invariant(&*self);
        }
        match command {
            Command::NoteOn(note) => {
                self.frequency = note_frequency(*note);
                None
            },
            Command::NoteOff => {
                self.frequency = ZERO;
                None
            },
            Command::SetParameter(name, value) => self.set_parameter(name.as_str(), *value),
            Command::SetWaveform(kind) => {
                self.select_waveform(*kind);
                None
            },
        }
    }

    /// Applies the commands of a set in their order and returns what they
    /// are reported for.
    pub fn apply_commands(&mut self, commands: &CommandSet) -> (diagnostics: Vec<Diagnostic>)
        ensures
            final(self)@ == old(self)@.apply_all(commands@),
            final(self)@.wf(),
            report_parameters(diagnostics@, rejected_parameters(commands@)),
    {
        proof {
            use_type_invariant(&*self);
        }
        let mut diagnostics: Vec<Diagnostic> = Vec::new();
        let mut index: usize = 0;
        while index < commands.commands.len()
            invariant
                index <= commands.commands.len(),
                self@ == old(self)@.apply_all(commands@.take(index as int)),
                self@.wf(),
                report_parameters(diagnostics@, rejected_parameters(commands@.take(index as int))),
            decreases commands.commands.len() - index,
        {
            proof {
                assert(commands@.take(index + 1).drop_last() == commands@.take(index as int));
                assert(commands@.take(index + 1).last() == commands.commands@[index as int]@);
            }
            match self.apply_command(&commands.commands[index]) {
                Some(report) => {
                    diagnostics.push(report);
                },
                None => {},
            }
            index = index + 1;
        }
        proof {
            assert(commands@.take(commands.commands.len() as int) == commands@);
        }
        diagnostics
    }

    /// Applies a batch of MIDI events in their order: a note-on sets the
    /// frequency of its note, a note-off sets zero. An event with any other
    /// status is reported and changes nothing.
    pub fn process_midi_input(&mut self, input: Vec<MidiEvent>) -> (diagnostics: Vec<Diagnostic>)
        ensures
            final(self)@ == old(self)@.apply_all(midi_commands(input@)),
            final(self)@.wf(),
            report_statuses(diagnostics@, unsupported_statuses(input@)),
    {
        proof {
            use_type_invariant(&*self);
        }
        let mut diagnostics: Vec<Diagnostic> = Vec::new();
        let mut index: usize = 0;
        while index < input.len()
            invariant
                index <= input.len(),
                self@ == old(self)@.apply_all(midi_commands(input@.take(index as int))),
                self@.wf(),
                report_statuses(diagnostics@, unsupported_statuses(input@.take(index as int))),
            decreases input.len() - index,
        {
            proof {
                assert(input@.take(index + 1).drop_last() == input@.take(index as int));
            }
            match input[index].to_command() {
                Ok(command) => {
                    let ghost before = midi_commands(input@.take(index as int));
                    proof {
                        assert(before.push(command@).drop_last() == before);
                    }
                    let _ = self.apply_command(&command);
                },
                Err(report) => {
                    diagnostics.push(report);
                },
            }
            index = index + 1;
        }
        proof {
            assert(input@.take(input.len() as int) == input@);
        }
        diagnostics
    }

    /// Applies one named input: a waveform keyword selects that waveform,
    /// `frequency` sets the frequency to `input`, and any other name is
    /// reported and changes nothing.
    pub fn process_command_input(&mut self, command: &str, input: u32) -> (diagnostic: Option<
        Diagnostic,
    >)
        ensures
            final(self)@ == old(self)@.apply(crate::command::input_command(command@, input)),
            final(self)@.wf(),
            match rejected_parameter(crate::command::input_command(command@, input)) {
                Some(rejected) => diagnostic matches Some(report) && report.names_parameter(rejected),
                None => diagnostic.is_none(),
            },
    {
        match WaveformKind::from_token(command) {
            Some(kind) => {
                self.select_waveform(kind);
                None
            },
            None => self.set_parameter(command, input),
        }
    }

    /// Fills an interleaved stereo buffer and moves the cursors past it.
    ///
    /// While the frequency is zero the buffer is filled with zeros and the
    /// cursors stay. Otherwise each frame takes the sample under the left
    /// cursor and the sample under the right one, and both cursors then move
    /// by the step, wrapping round the table as often as the step asks.
    pub fn process_audio_output(&mut self, output: &mut [u32])
        requires
            old(output)@.len() % 2 == 0,
        ensures
            final(output)@ == old(self)@.render((old(output)@.len() / 2) as nat),
            final(self)@ == old(self)@.advance((old(output)@.len() / 2) as nat),
            final(self)@.wf(),
    {
        proof {
            use_type_invariant(&*self);
        }
        let total: usize = output.len();
        let frames: usize = total / 2;
        if denotes_zero(self.frequency) {
            let mut index: usize = 0;
            while index < output.len()
                invariant
                    index <= output@.len(),
                    output@.len() == old(output)@.len(),
                    forall|at: int| 0 <= at < index ==> output@[at] == 0,
                decreases output@.len() - index,
            {
                output[index] = ZERO;
                index = index + 1;
            }
            proof {
                assert(output@ =~= old(self)@.render(frames as nat));
            }
            return ;
        }
        let table = self.wave_tables.table(self.waveform);
        let table_len: usize = table.len();
        let step: usize = reduced_step(table_len, self.frequency, self.sample_rate);
        let ghost start = self@;
        let ghost exact = start.step();
        let mut left: usize = self.left_phase;
        let mut right: usize = self.right_phase;
        let mut frame: usize = 0;
        proof {
            lemma_small_mod(left as nat, table_len as nat);
            lemma_small_mod(right as nat, table_len as nat);
            assert(0 * exact == 0);
        }
        while frame < frames
            invariant
                frame <= frames,
                2 * frames == total,
                total == old(output)@.len(),
                output@.len() == total,
                start == old(self)@,
                start.wf(),
                !start.silent(),
                exact == start.step(),
                table@ == start.table(),
                table_len == table@.len(),
                step == exact % (table_len as nat),
                left == phase_after(start.left_phase, exact, frame as nat, table_len as nat),
                right == phase_after(start.right_phase, exact, frame as nat, table_len as nat),
                forall|at: int| 0 <= at < 2 * frame ==> output@[at] == start.output_sample(at),
            decreases frames - frame,
        {
            proof {
                lemma_mod_bound((start.left_phase + frame * exact) as int, table_len as int);
                lemma_mod_bound((start.right_phase + frame * exact) as int, table_len as int);
                lemma_phase_next(start.left_phase, exact, frame as nat, table_len as nat);
                lemma_phase_next(start.right_phase, exact, frame as nat, table_len as nat);
            }
            output[2 * frame] = table.sample(left);
            output[2 * frame + 1] = table.sample(right);
            left = wrapped(left, step, table_len);
            right = wrapped(right, step, table_len);
            frame = frame + 1;
        }
        self.left_phase = left;
        self.right_phase = right;
        proof {
            assert(output@ =~= start.render(frames as nat));
        }
    }

    /// One audio cycle: applies the commands that were drained for it, in
    /// their order, and then fills the output buffer.
    pub fn process_audio(&mut self, commands: &CommandSet, output: &mut [u32]) -> (diagnostics: Vec<
        Diagnostic,
    >)
        requires
            old(output)@.len() % 2 == 0,
        ensures
            final(output)@ == old(self)@.apply_all(commands@).render((old(output)@.len() / 2) as nat),
            final(self)@ == old(self)@.apply_all(commands@).advance((old(output)@.len() / 2) as nat),
            final(self)@.wf(),
            report_parameters(diagnostics@, rejected_parameters(commands@)),
    {
        let diagnostics = self.apply_commands(commands);
        self.process_audio_output(output);
        diagnostics
    }
}

} // verus!
