//! Commands: the units of control intent that producers send to the audio
//! thread.

use vstd::prelude::*;
use crate::midi::{MidiEvent, NOTE_OFF, NOTE_ON};

verus! {

/// The waveform families that the synthesizer can play.
#[derive(Clone, Copy, Debug, PartialEq, Eq, Structural)]
pub enum WaveformKind {
    Sine,
    Square,
    Sawtooth,
    Triangle,
}

/// One unit of control intent. A value of a parameter is a single-precision
/// bit pattern.
#[derive(Clone, Debug, PartialEq, Eq)]
pub enum Command {
    NoteOn(u8),
    NoteOff,
    SetParameter(String, u32),
    SetWaveform(WaveformKind),
}

/// A command as contracts see it, with the parameter's name as a sequence of
/// characters.
pub enum CommandView {
    NoteOn(u8),
    NoteOff,
    SetParameter(Seq<char>, u32),
    SetWaveform(WaveformKind),
}

impl View for Command {
    type V = CommandView;

    open spec fn view(&self) -> CommandView {
        match self {
            Command::NoteOn(note) => CommandView::NoteOn(*note),
            Command::NoteOff => CommandView::NoteOff,
            Command::SetParameter(name, value) => CommandView::SetParameter(name@, *value),
            Command::SetWaveform(kind) => CommandView::SetWaveform(*kind),
        }
    }
}

/// What the audio thread reports instead of failing.
#[derive(Clone, Debug, PartialEq, Eq)]
pub enum Diagnostic {
    /// A parameter was set that the synthesizer does not have.
    UnsupportedParameter(String),
    /// A MIDI message came with a status other than note-on and note-off.
    UnsupportedMidiStatus(u8),
    /// Every producer has hung up; the synthesizer plays on as it is.
    ChannelDisconnected,
    /// The stream dropped input samples; the previous input is kept.
    InputOverflowed,
    /// The stream ran out of output samples before this buffer arrived.
    OutputUnderflowed,
    /// Reading from the stream failed in another way.
    ReadFailed,
    /// Writing to the stream failed in another way.
    WriteFailed,
}

/// The waveform that a token selects, if it is one of the four keywords.
pub open spec fn waveform_of_token(token: Seq<char>) -> Option<WaveformKind> {
    if token == "sine"@ {
        Some(WaveformKind::Sine)
    } else if token == "square"@ {
        Some(WaveformKind::Square)
    } else if token == "sawtooth"@ {
        Some(WaveformKind::Sawtooth)
    } else if token == "triangle"@ {
        Some(WaveformKind::Triangle)
    } else {
        None
    }
}

/// The command that a named input stands for: a waveform keyword selects
/// that waveform, whatever the value; any other name sets a parameter.
pub open spec fn input_command(key: Seq<char>, value: u32) -> CommandView {
    match waveform_of_token(key) {
        Some(kind) => CommandView::SetWaveform(kind),
        None => CommandView::SetParameter(key, value),
    }
}

/// The command that a MIDI event stands for, if its status is supported.
pub open spec fn midi_command(event: MidiEvent) -> Option<CommandView> {
    if event.message.status == NOTE_ON {
        Some(CommandView::NoteOn(event.message.data))
    } else if event.message.status == NOTE_OFF {
        Some(CommandView::NoteOff)
    } else {
        None
    }
}

/// The commands of a run of MIDI events, in order, without the events whose
/// status is not supported.
pub open spec fn midi_commands(events: Seq<MidiEvent>) -> Seq<CommandView>
    decreases events.len(),
{
    if events.len() == 0 {
        Seq::empty()
    } else {
        let before = midi_commands(events.drop_last());
        match midi_command(events.last()) {
            Some(command) => before.push(command),
            None => before,
        }
    }
}

/// Compares two string slices with `==`, which is `<str as PartialEq>::eq` of
/// std. It is taken on trust that the result is true exactly when both hold
/// the same characters in the same order.
#[verifier::external_body]
pub(crate) fn same_text(left: &str, right: &str) -> (same: bool)
    ensures
        same == (left@ == right@),
{
    left == right
}

impl WaveformKind {
    /// Reads a waveform keyword. The keywords are `sine`, `square`,
    /// `sawtooth` and `triangle`, in lower case, with nothing around them.
    pub fn from_token(token: &str) -> (kind: Option<WaveformKind>)
        ensures
            kind == waveform_of_token(token@),
    {
        if same_text(token, "sine") {
            Some(WaveformKind::Sine)
        } else if same_text(token, "square") {
            Some(WaveformKind::Square)
        } else if same_text(token, "sawtooth") {
            Some(WaveformKind::Sawtooth)
        } else if same_text(token, "triangle") {
            Some(WaveformKind::Triangle)
        } else {
            None
        }
    }
}

impl MidiEvent {
    /// Maps the event to its command. Note-on carries the note number;
    /// any status other than note-on and note-off is reported.
    pub fn to_command(&self) -> (outcome: Result<Command, Diagnostic>)
        ensures
            match outcome {
                Ok(command) => midi_command(*self) == Some(command@),
                Err(diagnostic) => midi_command(*self).is_none() && diagnostic
                    == Diagnostic::UnsupportedMidiStatus(self.message.status),
            },
    {
        if self.message.status == NOTE_ON {
            Ok(Command::NoteOn(self.message.data))
        } else if self.message.status == NOTE_OFF {
            Ok(Command::NoteOff)
        } else {
            Err(Diagnostic::UnsupportedMidiStatus(self.message.status))
        }
    }
}

/// A batch of commands that travels through the channel as one message.
#[derive(Clone, Debug, PartialEq, Eq)]
pub struct CommandSet {
    pub commands: Vec<Command>,
}

impl View for CommandSet {
    type V = Seq<CommandView>;

    open spec fn view(&self) -> Seq<CommandView> {
        self.commands@.map_values(|command: Command| command@)
    }
}

impl CommandSet {
    /// The commands of a batch of MIDI events, in their order. Events with an
    /// unsupported status give no command.
    pub fn from_midi(events: Vec<MidiEvent>) -> (set: CommandSet)
        ensures
            set@ == midi_commands(events@),
    {
        let mut commands: Vec<Command> = Vec::new();
        let mut index: usize = 0;
        while index < events.len()
            invariant
                index <= events.len(),
                commands@.map_values(|command: Command| command@) == midi_commands(
                    events@.take(index as int),
                ),
            decreases events.len() - index,
        {
            let ghost before = commands@;
            proof {
                assert(events@.take(index + 1).drop_last() == events@.take(index as int));
            }
            match events[index].to_command() {
                Ok(command) => {
                    commands.push(command);
                    proof {
                        assert(commands@.map_values(|command: Command| command@) =~= before.map_values(
                            |command: Command| command@,
                        ).push(command@));
                    }
                },
                Err(_) => {},
            }
            index = index + 1;
        }
        proof {
            assert(events@.take(events.len() as int) == events@);
        }
        CommandSet { commands }
    }

    /// The single command of a named input.
    pub fn from_input(key: String, value: u32) -> (set: CommandSet)
        ensures
            set@ == seq![input_command(key@, value)],
    {
        let command = match WaveformKind::from_token(key.as_str()) {
            Some(kind) => Command::SetWaveform(kind),
            None => Command::SetParameter(key, value),
        };
        let mut commands: Vec<Command> = Vec::with_capacity(1);
        commands.push(command);
        proof {
            assert(commands@.map_values(|command: Command| command@) =~= seq![
                input_command(key@, value),
            ]);
        }
        CommandSet { commands }
    }
}

} // verus!
