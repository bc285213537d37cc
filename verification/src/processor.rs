//! The audio processing loop, one cycle at a time: drain the pending
//! commands, take the input buffer, fill the output buffer.
//!
//! The duplex stream itself is driven from outside. Each cycle the driver's
//! results are handed to the processor, which decides what they mean and
//! never fails on them: a glitch in one cycle is reported and the loop goes
//! on.

use vstd::prelude::*;
use crate::command::{CommandSet, CommandView, Diagnostic};
use crate::engine::{report_parameters, WaveTableModule};
use crate::oscillator::{
    lemma_apply_all_concat,
    lemma_apply_all_keeps_wf,
    lemma_rejected_parameters_concat,
    rejected_parameters,
    OscillatorState,
};

verus! {

/// The number of channels of the duplex stream: left and right, interleaved.
pub const CHANNELS: usize = 2;

/// `crossbeam_channel::Receiver`, the receiving side of a channel. Nothing of
/// what it holds is visible here.
#[verifier::external_type_specification]
#[verifier::external_body]
#[verifier::reject_recursive_types(T)]
pub struct ExReceiver<T>(crossbeam_channel::Receiver<T>);

/// What one poll of the command channel found.
#[derive(Debug, PartialEq, Eq)]
pub enum Received {
    /// The oldest pending set of commands.
    Commands(CommandSet),
    /// Nothing is pending.
    Empty,
    /// Nothing is pending and every producer has hung up.
    Disconnected,
}

/// Why a read from or a write to the duplex stream did not succeed.
#[derive(Clone, Copy, Debug, PartialEq, Eq, Structural)]
pub enum StreamError {
    /// Input samples were dropped before they were read.
    InputOverflowed,
    /// The output ran dry before it was written.
    OutputUnderflowed,
    /// Any other failure of the stream.
    Other,
}

/// Polls the channel with `crossbeam_channel::Receiver::try_recv`, which takes
/// the oldest pending message without blocking, or tells that none is
/// pending and whether the channel is disconnected. What it finds depends on
/// the producers, so nothing is claimed of the result.
#[verifier::external_body]
fn try_receive(receiver: &crossbeam_channel::Receiver<CommandSet>) -> (received: Received) {
    match receiver.try_recv() {
        Ok(commands) => Received::Commands(commands),
        Err(crossbeam_channel::TryRecvError::Empty) => Received::Empty,
        Err(crossbeam_channel::TryRecvError::Disconnected) => Received::Disconnected,
    }
}

/// The state of the loop as contracts see it.
pub struct LoopState {
    /// The oscillator.
    pub module: OscillatorState,
    /// The samples of the last input buffer that was read.
    pub input: Seq<u32>,
    /// Whether the disconnection of the command channel has been reported.
    pub disconnected: bool,
    /// The number of frames of each buffer.
    pub frames_per_buffer: nat,
    /// The sample rate of the stream, as a bit pattern.
    pub sample_rate: u32,
}

impl LoopState {
    /// The number of samples of each buffer.
    pub open spec fn samples_per_buffer(self) -> nat {
        self.frames_per_buffer * 2
    }

    /// The oscillator is well-formed and the input buffer has its length.
    pub open spec fn wf(self) -> bool {
        &&& self.module.wf()
        &&& self.input.len() == self.samples_per_buffer()
        &&& self.samples_per_buffer() <= usize::MAX
    }

    /// The state after one poll of the command channel. Commands are applied
    /// in their order; a disconnected channel is remembered.
    pub open spec fn absorb(self, received: Received) -> LoopState {
        match received {
            Received::Commands(commands) => LoopState {
                module: self.module.apply_all(commands@),
                ..self
            },
            Received::Empty => self,
            Received::Disconnected => LoopState { disconnected: true, ..self },
        }
    }

    /// Whether draining goes on after this poll: only commands are followed
    /// by another poll.
    pub open spec fn goes_on(received: Received) -> bool {
        received is Commands
    }

    /// Whether this poll makes the loop report the disconnection: it does the
    /// first time the channel is found disconnected, and never again.
    pub open spec fn reports_disconnection(self, received: Received) -> bool {
        received is Disconnected && !self.disconnected
    }

    /// Whether `diagnostics` is what this poll is reported with: the
    /// parameters that its commands were rejected for, or the disconnection
    /// where that is to be reported, or nothing.
    pub open spec fn reported_with(self, received: Received, diagnostics: Seq<Diagnostic>) -> bool {
        match received {
            Received::Commands(commands) => report_parameters(
                diagnostics,
                rejected_parameters(commands@),
            ),
            Received::Empty => diagnostics.len() == 0,
            Received::Disconnected => diagnostics == if self.reports_disconnection(received) {
                seq![Diagnostic::ChannelDisconnected]
            } else {
                Seq::<Diagnostic>::empty()
            },
        }
    }

    /// Whether `after` and `diagnostics` are what draining the channel can
    /// leave behind when `applied` is the run of commands that it took, in
    /// their order: the commands were applied to the oscillator and nothing
    /// else changed, but that a disconnection is remembered. The diagnostics
    /// are the rejected parameters in their order, followed by the
    /// disconnection if this draining was the first to meet it.
    pub open spec fn drained(
        self,
        after: LoopState,
        applied: Seq<CommandView>,
        diagnostics: Seq<Diagnostic>,
    ) -> bool {
        &&& after == LoopState {
            module: self.module.apply_all(applied),
            disconnected: after.disconnected,
            ..self
        }
        &&& self.disconnected ==> after.disconnected
        &&& if after.disconnected && !self.disconnected {
            &&& diagnostics.len() > 0
            &&& diagnostics.last() == Diagnostic::ChannelDisconnected
            &&& report_parameters(diagnostics.drop_last(), rejected_parameters(applied))
        } else {
            report_parameters(diagnostics, rejected_parameters(applied))
        }
    }

    /// The state after the stream's answer to a read. A buffer that was read
    /// replaces the input; after a failed read the previous input stays.
    pub open spec fn take_input(self, outcome: Result<Seq<u32>, StreamError>) -> LoopState {
        match outcome {
            Ok(samples) => LoopState { input: samples, ..self },
            Err(_) => self,
        }
    }

    /// The state after one output buffer was filled.
    pub open spec fn after_output(self) -> LoopState {
        LoopState { module: self.module.advance(self.frames_per_buffer), ..self }
    }
}

/// Once the channel was found disconnected, no later poll reports it again,
/// whatever it finds, and none changes the oscillator but by commands: the
/// loop plays on with the state that the last command left.
pub proof fn lemma_disconnection_is_reported_once(state: LoopState, later: Received)
    ensures
        state.absorb(Received::Disconnected).disconnected,
        state.absorb(Received::Disconnected).module == state.module,
        !state.absorb(Received::Disconnected).reports_disconnection(later),
        state.absorb(Received::Disconnected).absorb(later).disconnected,
        !(later is Commands) ==> state.absorb(Received::Disconnected).absorb(later).module
            == state.module,
{
}

/// A read or a write that failed changes nothing but the diagnostics: the
/// input buffer and the oscillator are as they were, and the next cycle
/// starts from them.
pub proof fn lemma_failed_read_keeps_state(state: LoopState, error: StreamError)
    ensures
        state.take_input(Err(error)) == state,
{
}

/// What a failed read is reported as.
pub open spec fn read_diagnostic(error: StreamError) -> Diagnostic {
    match error {
        StreamError::InputOverflowed => Diagnostic::InputOverflowed,
        _ => Diagnostic::ReadFailed,
    }
}

/// What a failed write is reported as.
pub open spec fn write_diagnostic(error: StreamError) -> Diagnostic {
    match error {
        StreamError::OutputUnderflowed => Diagnostic::OutputUnderflowed,
        _ => Diagnostic::WriteFailed,
    }
}

/// The audio processing loop around one oscillator.
#[derive(Debug)]
pub struct PortAudioProcessor {
    channels: usize,
    sample_rate: u32,
    frames_per_buffer: usize,
    samples_per_buffer: usize,
    audio_module: WaveTableModule,
    input: Vec<u32>,
    disconnected: bool,
}

impl View for PortAudioProcessor {
    type V = LoopState;

    closed spec fn view(&self) -> LoopState {
        LoopState {
            module: self.audio_module@,
            input: self.input@,
            disconnected: self.disconnected,
            frames_per_buffer: self.frames_per_buffer as nat,
            sample_rate: self.sample_rate,
        }
    }
}

impl PortAudioProcessor {
    /// The processor is as `new` made it and its own methods left it: the
    /// stream is stereo, the buffer sizes agree, and the state is well-formed.
    pub closed spec fn wf(&self) -> bool {
        &&& self.channels == CHANNELS
        &&& self.samples_per_buffer == self.frames_per_buffer * CHANNELS
        &&& self@.wf()
    }

    /// Sets the loop up for a stream of `frames_per_buffer` frames a cycle.
    /// The stream is stereo: any other number of channels is refused, and so
    /// is a buffer whose number of samples does not fit the machine word.
    /// The input buffer starts as silence.
    pub fn new(
        audio_module: WaveTableModule,
        channels: usize,
        sample_rate: u32,
        frames_per_buffer: usize,
    ) -> (processor: Option<PortAudioProcessor>)
        ensures
            processor.is_some() <==> channels == CHANNELS && frames_per_buffer * CHANNELS <= usize::MAX,
            processor matches Some(made) ==> made@ == (LoopState {
                module: audio_module@,
                input: Seq::new((frames_per_buffer * 2) as nat, |index: int| 0u32),
                disconnected: false,
                frames_per_buffer: frames_per_buffer as nat,
                sample_rate,
            }) && made.wf(),
    {
        if channels != CHANNELS || frames_per_buffer > usize::MAX / CHANNELS {
            return None;
        }
        let _ = audio_module.wave_table();
        let samples_per_buffer: usize = frames_per_buffer * channels;
        let mut input: Vec<u32> = Vec::with_capacity(samples_per_buffer);
        let mut index: usize = 0;
        while index < samples_per_buffer
            invariant
                index <= samples_per_buffer,
                input@.len() == index,
                forall|at: int| 0 <= at < index ==> input@[at] == 0,
            decreases samples_per_buffer - index,
        {
            input.push(0);
            index = index + 1;
        }
        proof {
            assert(input@ =~= Seq::new((frames_per_buffer * 2) as nat, |index: int| 0u32));
        }
        Some(
            PortAudioProcessor {
                channels,
                sample_rate,
                frames_per_buffer,
                samples_per_buffer,
                audio_module,
                input,
                disconnected: false,
            },
        )
    }

    /// The number of channels, which is two.
    pub fn channels(&self) -> (channels: usize)
        requires
            self.wf(),
        ensures
            channels == CHANNELS,
    {
        self.channels
    }

    /// The sample rate of the stream, as a bit pattern.
    pub fn sample_rate(&self) -> (sample_rate: u32)
        ensures
            sample_rate == self@.sample_rate,
    {
        self.sample_rate
    }

    /// The number of frames of each buffer.
    pub fn frames_per_buffer(&self) -> (frames: usize)
        ensures
            frames == self@.frames_per_buffer,
    {
        self.frames_per_buffer
    }

    /// The number of samples of each buffer: two for each frame.
    pub fn samples_per_buffer(&self) -> (samples: usize)
        requires
            self.wf(),
        ensures
            samples == self@.samples_per_buffer(),
    {
        self.samples_per_buffer
    }

    /// The oscillator.
    pub fn audio_module(&self) -> (module: &WaveTableModule)
        ensures
            module@ == self@.module,
    {
        &self.audio_module
    }

    /// The samples of the last input buffer that was read.
    pub fn input(&self) -> (input: &Vec<u32>)
        ensures
            input@ == self@.input,
    {
        &self.input
    }

    /// Whether the command channel was found disconnected.
    pub fn disconnected(&self) -> (disconnected: bool)
        ensures
            disconnected == self@.disconnected,
    {
        self.disconnected
    }

    /// Takes in what one poll of the command channel found, and tells
    /// whether the draining goes on. Commands are applied in their order and
    /// the draining goes on; an empty channel ends it; a disconnected one ends
    /// it too, and is reported the first time only.
    pub fn absorb(&mut self, received: Received) -> (outcome: (bool, Vec<Diagnostic>))
        requires
            old(self).wf(),
        ensures
            final(self)@ == old(self)@.absorb(received),
            final(self).wf(),
            outcome.0 == LoopState::goes_on(received),
            old(self)@.reported_with(received, outcome.1@),
    {
        match received {
            Received::Commands(commands) => {
                proof {
                    lemma_apply_all_keeps_wf(self@.module, commands@);
                }
                let reports = self.audio_module.apply_commands(&commands);
                (true, reports)
            },
            Received::Empty => (false, Vec::new()),
            Received::Disconnected => {
                let mut reports: Vec<Diagnostic> = Vec::new();
                if !self.disconnected {
                    self.disconnected = true;
                    reports.push(Diagnostic::ChannelDisconnected);
                    proof {
                        assert(reports@ =~= seq![Diagnostic::ChannelDisconnected]);
                    }
                }
                (false, reports)
            },
        }
    }

    /// Drains the command channel without ever waiting: polls until the
    /// channel is empty or disconnected, and at most `limit` times, so that
    /// producers that keep sending cannot hold the audio thread up.
    ///
    /// Which commands it finds is up to the producers. Whatever they are,
    /// they are applied in the order in which they were taken, nothing but
    /// the oscillator's state changes, and a disconnection is reported by
    /// the first draining that meets it and by no later one.
    pub fn receive_commands(
        &mut self,
        receiver: &crossbeam_channel::Receiver<CommandSet>,
        limit: usize,
    ) -> (diagnostics: Vec<Diagnostic>)
        requires
            old(self).wf(),
        ensures
            final(self).wf(),
            exists|applied: Seq<CommandView>|
                old(self)@.drained(final(self)@, applied, diagnostics@),
            limit == 0 ==> final(self)@ == old(self)@ && diagnostics@.len() == 0,
    {
        let mut diagnostics: Vec<Diagnostic> = Vec::new();
        let mut polls: usize = 0;
        let mut goes_on: bool = true;
        let ghost mut applied: Seq<CommandView> = Seq::empty();
        proof {
            assert(old(self)@.drained(self@, applied, diagnostics@));
        }
        while goes_on && polls < limit
            invariant
                polls <= limit,
                self.wf(),
                old(self)@.drained(self@, applied, diagnostics@),
                goes_on ==> self@.disconnected == old(self)@.disconnected,
                polls == 0 ==> self@ == old(self)@ && diagnostics@.len() == 0,
            decreases limit - polls,
        {
            let received = try_receive(receiver);
            let ghost before = self@;
            let ghost reported = diagnostics@;
            let ghost found = received;
            let (more, mut reports) = self.absorb(received);
            let ghost fresh = reports@;
            diagnostics.append(&mut reports);
            goes_on = more;
            proof {
                assert(diagnostics@ == reported + fresh);
                match found {
                    Received::Commands(commands) => {
                        lemma_apply_all_concat(old(self)@.module, applied, commands@);
                        lemma_rejected_parameters_concat(applied, commands@);
                        applied = applied + commands@;
                    },
                    Received::Empty => {
                        assert(reported + fresh == reported);
                    },
                    Received::Disconnected => {
                        if before.disconnected {
                            assert(reported + fresh == reported);
                        } else {
                            assert((reported + fresh).drop_last() == reported);
                        }
                    },
                }
            }
            polls = polls + 1;
        }
        diagnostics
    }

    /// Takes in the stream's answer to a read of one buffer. A buffer that
    /// was read becomes the input of this cycle. A failed read is reported,
    /// an overflow of the input as such, and the cycle goes on with the
    /// input of the cycle before.
    pub fn handle_read(&mut self, outcome: Result<&[u32], StreamError>) -> (diagnostic: Option<
        Diagnostic,
    >)
        requires
            old(self).wf(),
            outcome matches Ok(samples) ==> samples@.len() == old(self)@.samples_per_buffer(),
        ensures
            final(self)@ == old(self)@.take_input(
                match outcome {
                    Ok(samples) => Ok(samples@),
                    Err(error) => Err(error),
                },
            ),
            final(self).wf(),
            diagnostic == match outcome {
                Ok(_) => None,
                Err(error) => Some(read_diagnostic(error)),
            },
    {
        match outcome {
            Ok(samples) => {
                let mut index: usize = 0;
                while index < samples.len()
                    invariant
                        index <= samples@.len(),
                        samples@.len() == self.samples_per_buffer,
                        self.input@.len() == self.samples_per_buffer,
                        self.channels == CHANNELS,
                        self.samples_per_buffer == self.frames_per_buffer * CHANNELS,
                        self.audio_module@ == old(self).audio_module@,
                        self.audio_module@.wf(),
                        self.disconnected == old(self).disconnected,
                        self.frames_per_buffer == old(self).frames_per_buffer,
                        self.sample_rate == old(self).sample_rate,
                        forall|at: int| 0 <= at < index ==> self.input@[at] == samples@[at],
                    decreases samples@.len() - index,
                {
                    self.input[index] = samples[index];
                    index = index + 1;
                }
                proof {
                    assert(self.input@ =~= samples@);
                }
                None
            },
            Err(StreamError::InputOverflowed) => Some(Diagnostic::InputOverflowed),
            Err(_) => Some(Diagnostic::ReadFailed),
        }
    }

    /// Fills one output buffer of the stream from the oscillator.
    pub fn fill_output(&mut self, output: &mut [u32])
        requires
            old(self).wf(),
            old(output)@.len() == old(self)@.samples_per_buffer(),
        ensures
            final(output)@ == old(self)@.module.render(old(self)@.frames_per_buffer),
            final(self)@ == old(self)@.after_output(),
            final(self).wf(),
    {
        self.audio_module.process_audio_output(output);
    }

    /// Takes in the stream's answer to a write of one buffer. A failed write
    /// is reported, an underflow of the output as such; the loop goes on
    /// either way.
    pub fn handle_write(&self, outcome: Result<(), StreamError>) -> (diagnostic: Option<Diagnostic>)
        ensures
            diagnostic == match outcome {
                Ok(_) => None,
                Err(error) => Some(write_diagnostic(error)),
            },
    {
        match outcome {
            Ok(_) => None,
            Err(StreamError::OutputUnderflowed) => Some(Diagnostic::OutputUnderflowed),
            Err(_) => Some(Diagnostic::WriteFailed),
        }
    }
}

} // verus!
