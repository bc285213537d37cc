//! Console input: one line of text becomes one set of commands.

use vstd::prelude::*;
use crate::command::{waveform_of_token, Command, CommandSet, CommandView, WaveformKind};

verus! {

/// A line of input that is neither a keyword nor a number.
#[derive(Clone, Debug, PartialEq, Eq)]
pub enum InputError {
    /// The text that was not a number.
    NotANumber(String),
}

impl InputError {
    /// The error is about this text.
    pub open spec fn names(self, token: Seq<char>) -> bool {
        self matches InputError::NotANumber(text) && text@ == token
    }
}

/// The parameters of the oscillator, by number.
#[derive(Clone, Copy, Debug, PartialEq, Eq, Structural)]
pub enum SineParameter {
    Frequency,
}

impl SineParameter {
    /// The parameter with the given number, counted from zero.
    pub fn from_usize(id: usize) -> (parameter: Option<SineParameter>)
        ensures
            parameter == if id == 0 {
                Some(SineParameter::Frequency)
            } else {
                None
            },
    {
        if id == 0 {
            Some(SineParameter::Frequency)
        } else {
            None
        }
    }

    /// The name under which a command sets the parameter.
    pub fn name(&self) -> (name: &'static str)
        ensures
            name@ == "frequency"@,
    {
        "frequency"
    }
}

/// The name `frequency` is none of the waveform keywords.
pub proof fn lemma_frequency_is_no_keyword()
    ensures
        waveform_of_token("frequency"@).is_none(),
{
    reveal_strlit("frequency");
    reveal_strlit("sine");
    reveal_strlit("square");
    reveal_strlit("sawtooth");
    reveal_strlit("triangle");
    assert("frequency"@.len() == 9);
    assert("sine"@.len() == 4);
    assert("square"@.len() == 6);
    assert("sawtooth"@.len() == 8);
    assert("triangle"@.len() == 8);
}

/// What a line of input stands for.
///
/// A waveform keyword selects that waveform. Any other text sets the
/// frequency if it is a number, and is an error if it is not.
pub open spec fn interpretation(token: Seq<char>, number: Option<u32>) -> Option<CommandView> {
    match waveform_of_token(token) {
        Some(kind) => Some(CommandView::SetWaveform(kind)),
        None => match number {
            Some(value) => Some(CommandView::SetParameter("frequency"@, value)),
            None => None,
        },
    }
}

/// Reads the console.
pub struct CliProcessor;

impl CliProcessor {
    /// Interprets one line of input. `token` is the line without the white
    /// space around it, and `number` is the single-precision value that the
    /// token denotes, where it denotes one.
    pub fn interpret(token: &str, number: Option<u32>) -> (outcome: Result<CommandSet, InputError>)
        ensures
            match interpretation(token@, number) {
                Some(command) => outcome matches Ok(set) && set@ == seq![command],
                None => outcome matches Err(error) && error.names(token@),
            },
    {
        match WaveformKind::from_token(token) {
            Some(kind) => {
                let mut commands: Vec<Command> = Vec::with_capacity(1);
                commands.push(Command::SetWaveform(kind));
                let set = CommandSet { commands };
                proof {
                    assert(set@ =~= seq![CommandView::SetWaveform(kind)]);
                }
                Ok(set)
            },
            None => match number {
                Some(value) => {
                    proof {
                        lemma_frequency_is_no_keyword();
                    }
                    Ok(CommandSet::from_input(SineParameter::Frequency.name().to_owned(), value))
                },
                None => Err(InputError::NotANumber(token.to_owned())),
            },
        }
    }
}

} // verus!
