use modulardsp::command::{Command, CommandSet, Diagnostic, WaveformKind};
use modulardsp::engine::WaveTableModule;
use modulardsp::processor::{PortAudioProcessor, Received, StreamError};
use modulardsp::wavetable::{WaveTable, WaveTableBank};

fn bits(value: f32) -> u32 {
    value.to_bits()
}

fn table(first: u32, len: usize) -> WaveTable {
    WaveTable::from_samples((0..len as u32).map(|index| first + index).collect()).unwrap()
}

fn module() -> WaveTableModule {
    let bank = WaveTableBank::new(table(0, 1000), table(10_000, 1000), table(20_000, 1000), table(30_000, 1000));
    WaveTableModule::new(bank, bits(44100.0))
}

fn processor(frames: usize) -> PortAudioProcessor {
    PortAudioProcessor::new(module(), 2, bits(44100.0), frames).unwrap()
}

fn set(commands: Vec<Command>) -> CommandSet {
    CommandSet { commands }
}

#[test]
fn new_processor_has_a_silent_input_buffer() {
    let processor = processor(128);
    assert_eq!(processor.channels(), 2);
    assert_eq!(processor.frames_per_buffer(), 128);
    assert_eq!(processor.samples_per_buffer(), 256);
    assert_eq!(processor.sample_rate(), bits(44100.0));
    assert_eq!(processor.input(), &vec![0u32; 256]);
    assert!(!processor.disconnected());
    assert_eq!(processor.audio_module().frequency(), 0);
}

#[test]
fn only_stereo_streams_are_accepted() {
    assert!(PortAudioProcessor::new(module(), 1, bits(44100.0), 128).is_none());
    assert!(PortAudioProcessor::new(module(), 0, bits(44100.0), 128).is_none());
    assert!(PortAudioProcessor::new(module(), 3, bits(44100.0), 128).is_none());
    assert!(PortAudioProcessor::new(module(), 2, bits(44100.0), 0).is_some());
}

#[test]
fn a_buffer_beyond_the_machine_word_is_refused() {
    assert!(PortAudioProcessor::new(module(), 2, bits(44100.0), usize::MAX).is_none());
    assert!(PortAudioProcessor::new(module(), 2, bits(44100.0), usize::MAX / 2 + 1).is_none());
}

#[test]
fn absorbing_commands_applies_them_and_goes_on() {
    let mut processor = processor(4);
    let (goes_on, diagnostics) = processor.absorb(Received::Commands(set(vec![
        Command::NoteOn(69),
        Command::SetParameter("volume".to_string(), 1),
        Command::SetWaveform(WaveformKind::Square),
    ])));
    assert!(goes_on);
    assert_eq!(diagnostics, vec![Diagnostic::UnsupportedParameter("volume".to_string())]);
    assert_eq!(processor.audio_module().frequency(), bits(440.0));
    assert_eq!(processor.audio_module().waveform(), WaveformKind::Square);
}

#[test]
fn an_empty_channel_ends_the_draining() {
    let mut processor = processor(4);
    assert_eq!(processor.absorb(Received::Empty), (false, vec![]));
    assert!(!processor.disconnected());
    assert_eq!(processor.audio_module().frequency(), 0);
}

#[test]
fn a_disconnection_is_reported_once() {
    let mut processor = processor(4);
    assert_eq!(processor.absorb(Received::Disconnected), (false, vec![Diagnostic::ChannelDisconnected]));
    assert!(processor.disconnected());
    assert_eq!(processor.absorb(Received::Disconnected), (false, vec![]));
    assert_eq!(processor.absorb(Received::Empty), (false, vec![]));
    assert_eq!(processor.absorb(Received::Disconnected), (false, vec![]));
    assert!(processor.disconnected());
}

#[test]
fn draining_takes_every_pending_set_in_order() {
    let (sender, receiver) = crossbeam_channel::bounded(1024);
    sender.send(set(vec![Command::NoteOn(60)])).unwrap();
    sender.send(set(vec![Command::SetWaveform(WaveformKind::Triangle), Command::NoteOn(69)])).unwrap();
    sender.send(set(vec![Command::SetParameter("depth".to_string(), 3)])).unwrap();
    let mut processor = processor(4);
    let diagnostics = processor.receive_commands(&receiver, 1024);
    assert_eq!(diagnostics, vec![Diagnostic::UnsupportedParameter("depth".to_string())]);
    assert_eq!(processor.audio_module().frequency(), bits(440.0));
    assert_eq!(processor.audio_module().waveform(), WaveformKind::Triangle);
    assert!(receiver.is_empty());
    assert!(!processor.disconnected());
    assert_eq!(processor.receive_commands(&receiver, 1024), vec![]);
    drop(sender);
}

#[test]
fn draining_an_empty_channel_returns_at_once() {
    let (sender, receiver) = crossbeam_channel::bounded::<CommandSet>(1024);
    let mut processor = processor(4);
    assert_eq!(processor.receive_commands(&receiver, 1024), vec![]);
    assert_eq!(processor.audio_module().frequency(), 0);
    assert!(!processor.disconnected());
    drop(sender);
}

#[test]
fn draining_stops_at_the_limit() {
    let (sender, receiver) = crossbeam_channel::bounded(1024);
    sender.send(set(vec![Command::NoteOn(21)])).unwrap();
    sender.send(set(vec![Command::NoteOn(33)])).unwrap();
    sender.send(set(vec![Command::NoteOn(45)])).unwrap();
    let mut processor = processor(4);
    processor.receive_commands(&receiver, 2);
    assert_eq!(processor.audio_module().frequency(), bits(55.0));
    assert_eq!(receiver.len(), 1);
    processor.receive_commands(&receiver, 0);
    assert_eq!(receiver.len(), 1);
    processor.receive_commands(&receiver, 2);
    assert_eq!(processor.audio_module().frequency(), bits(110.0));
    assert!(receiver.is_empty());
    drop(sender);
}

#[test]
fn disconnected_channel_keeps_the_last_state_and_logs_once() {
    let (sender, receiver) = crossbeam_channel::bounded(1024);
    sender.send(set(vec![Command::NoteOn(69)])).unwrap();
    let mut processor = processor(4);
    let mut output = vec![0u32; 8];

    assert_eq!(processor.receive_commands(&receiver, 1024), vec![]);
    processor.fill_output(&mut output);
    assert_eq!(output, vec![0, 0, 9, 9, 18, 18, 27, 27]);

    sender.send(set(vec![Command::SetWaveform(WaveformKind::Square)])).unwrap();
    drop(sender);

    // What was sent before the producers hung up is still applied.
    assert_eq!(processor.receive_commands(&receiver, 1024), vec![Diagnostic::ChannelDisconnected]);
    assert!(processor.disconnected());
    processor.fill_output(&mut output);
    assert_eq!(output, vec![10_036, 10_036, 10_045, 10_045, 10_054, 10_054, 10_063, 10_063]);

    for cycle in 2..6u32 {
        assert_eq!(processor.receive_commands(&receiver, 1024), vec![]);
        processor.fill_output(&mut output);
        assert_eq!(output[0], 10_000 + 36 * cycle);
        assert_eq!(processor.audio_module().frequency(), bits(440.0));
    }
}

#[test]
fn a_read_replaces_the_input_buffer() {
    let mut processor = processor(2);
    let samples = vec![bits(0.1), bits(0.2), bits(0.3), bits(0.4)];
    assert_eq!(processor.handle_read(Ok(&samples)), None);
    assert_eq!(processor.input(), &samples);
}

#[test]
fn a_failed_read_keeps_the_previous_input() {
    let mut processor = processor(2);
    let samples = vec![1, 2, 3, 4];
    processor.handle_read(Ok(&samples));
    assert_eq!(
        processor.handle_read(Err(StreamError::InputOverflowed)),
        Some(Diagnostic::InputOverflowed)
    );
    assert_eq!(processor.input(), &samples);
    assert_eq!(processor.handle_read(Err(StreamError::Other)), Some(Diagnostic::ReadFailed));
    assert_eq!(
        processor.handle_read(Err(StreamError::OutputUnderflowed)),
        Some(Diagnostic::ReadFailed)
    );
    assert_eq!(processor.input(), &samples);
}

#[test]
fn a_failed_write_is_reported_and_nothing_else() {
    let processor = processor(2);
    assert_eq!(processor.handle_write(Ok(())), None);
    assert_eq!(
        processor.handle_write(Err(StreamError::OutputUnderflowed)),
        Some(Diagnostic::OutputUnderflowed)
    );
    assert_eq!(processor.handle_write(Err(StreamError::Other)), Some(Diagnostic::WriteFailed));
    assert_eq!(
        processor.handle_write(Err(StreamError::InputOverflowed)),
        Some(Diagnostic::WriteFailed)
    );
}

#[test]
fn output_is_filled_with_the_whole_buffer_each_cycle() {
    let mut processor = processor(128);
    processor.absorb(Received::Commands(set(vec![Command::NoteOn(69)])));
    let mut output = vec![7u32; 256];
    processor.fill_output(&mut output);
    for frame in 0..128u32 {
        assert_eq!(output[2 * frame as usize], (9 * frame) % 1000);
        assert_eq!(output[2 * frame as usize + 1], (9 * frame) % 1000);
    }
    assert_eq!(processor.audio_module().left_phase(), 152);
    processor.fill_output(&mut output);
    assert_eq!(output[0], 152);
}

#[test]
fn a_glitch_in_one_cycle_does_not_stop_the_next() {
    let mut processor = processor(2);
    processor.absorb(Received::Commands(set(vec![Command::NoteOn(69)])));
    let mut output = vec![0u32; 4];
    assert!(processor.handle_read(Err(StreamError::InputOverflowed)).is_some());
    processor.fill_output(&mut output);
    assert!(processor.handle_write(Err(StreamError::OutputUnderflowed)).is_some());
    assert_eq!(output, vec![0, 0, 9, 9]);
    assert_eq!(processor.handle_read(Ok(&[1, 2, 3, 4])), None);
    processor.fill_output(&mut output);
    assert_eq!(processor.handle_write(Ok(())), None);
    assert_eq!(output, vec![18, 18, 27, 27]);
}
