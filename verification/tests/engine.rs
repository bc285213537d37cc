use modulardsp::command::{Command, CommandSet, Diagnostic, WaveformKind};
use modulardsp::engine::WaveTableModule;
use modulardsp::midi::{MidiEvent, MidiMessage};
use modulardsp::wavetable::{WaveTable, WaveTableBank};

fn bits(value: f32) -> u32 {
    value.to_bits()
}

fn sine_table(resolution: usize) -> WaveTable {
    WaveTable::create_wave_form(resolution, |index: usize, points: usize| {
        let x = index as f64 / points as f64;
        bits((2.0 * std::f64::consts::PI * x).sin() as f32)
    })
    .unwrap()
}

fn ramp_table(resolution: usize, start: u32) -> WaveTable {
    WaveTable::from_samples((0..resolution as u32).map(|index| start + index).collect()).unwrap()
}

fn bank(resolution: usize) -> WaveTableBank {
    WaveTableBank::new(
        sine_table(resolution),
        WaveTable::create_square_wave(bits(1.0), resolution).unwrap(),
        ramp_table(resolution, 1_000_000),
        ramp_table(resolution, 2_000_000),
    )
}

fn module(resolution: usize) -> WaveTableModule {
    WaveTableModule::new(bank(resolution), bits(44100.0))
}

fn event(status: u8, data: u8) -> MidiEvent {
    MidiEvent { message: MidiMessage { status, data } }
}

#[test]
fn new_module_is_at_rest() {
    let module = module(1000);
    assert_eq!(module.frequency(), bits(0.0));
    assert_eq!(module.sample_rate(), bits(44100.0));
    assert_eq!(module.left_phase(), 0);
    assert_eq!(module.right_phase(), 0);
    assert_eq!(module.waveform(), WaveformKind::Sine);
    assert_eq!(module.wave_table().len(), 1000);
}

#[test]
fn empty_queue_and_zero_frequency_give_silence() {
    let mut module = module(1000);
    let mut output = vec![bits(0.5); 256];
    let diagnostics = module.process_audio(&CommandSet { commands: vec![] }, &mut output);
    assert!(diagnostics.is_empty());
    assert_eq!(output, vec![bits(0.0); 256]);
    assert_eq!(module.left_phase(), 0);
    assert_eq!(module.right_phase(), 0);
}

#[test]
fn silence_does_not_move_the_cursors() {
    let mut module = module(1000);
    module.apply_command(&Command::NoteOn(69));
    let mut output = vec![0u32; 64];
    module.process_audio_output(&mut output);
    let left = module.left_phase();
    assert_eq!(left, (32 * 9) % 1000);
    module.apply_command(&Command::NoteOff);
    module.process_audio_output(&mut output);
    assert_eq!(output, vec![0u32; 64]);
    assert_eq!(module.left_phase(), left);
    assert_eq!(module.right_phase(), left);
}

#[test]
fn frequency_parameter_then_one_cycle_reads_every_ninth_sample() {
    let mut module = module(1000);
    let commands = CommandSet::from_input("frequency".to_string(), bits(440.0));
    let mut output = vec![0u32; 256];
    let diagnostics = module.process_audio(&commands, &mut output);
    assert!(diagnostics.is_empty());
    assert_eq!(module.frequency(), bits(440.0));
    let table = sine_table(1000);
    for frame in 0..128 {
        let expected = table.sample((9 * frame) % 1000);
        assert_eq!(output[2 * frame], expected, "left sample of frame {frame}");
        assert_eq!(output[2 * frame + 1], expected, "right sample of frame {frame}");
    }
    assert_eq!(module.left_phase(), (9 * 128) % 1000);
    assert_eq!(module.right_phase(), (9 * 128) % 1000);
}

#[test]
fn note_on_69_is_concert_pitch() {
    let mut module = module(1000);
    assert_eq!(module.apply_command(&Command::NoteOn(69)), None);
    let frequency = f32::from_bits(module.frequency());
    assert!((frequency - 440.0).abs() < 0.01);
    assert_eq!(module.frequency(), bits(440.0));
}

#[test]
fn note_off_sets_the_frequency_to_exactly_zero() {
    for note in [0u8, 21, 69, 127, 255] {
        let mut module = module(1000);
        module.apply_command(&Command::NoteOn(note));
        assert_ne!(module.frequency(), 0);
        assert_eq!(module.apply_command(&Command::NoteOff), None);
        assert_eq!(module.frequency(), 0);
        assert_eq!(f32::from_bits(module.frequency()), 0.0);
    }
    let mut module = module(1000);
    module.apply_command(&Command::SetParameter("frequency".to_string(), bits(f32::NAN)));
    module.apply_command(&Command::NoteOff);
    assert_eq!(module.frequency(), 0);
}

#[test]
fn cursors_stay_in_the_table_for_small_steps() {
    let mut module = module(1000);
    for frequency in [1.0f32, 44.1, 440.0, 4400.0, 22049.0, 44099.0] {
        module.apply_command(&Command::SetParameter("frequency".to_string(), bits(frequency)));
        let mut output = vec![0u32; 130];
        module.process_audio_output(&mut output);
        assert!(module.left_phase() < 1000);
        assert!(module.right_phase() < 1000);
    }
}

#[test]
fn a_step_beyond_the_table_length_is_reduced_in_full() {
    // 1000 * 110250 / 44100 = 2500: two and a half turns round the table.
    let mut module = module(1000);
    module.apply_command(&Command::SetParameter("frequency".to_string(), bits(110250.0)));
    let mut output = vec![0u32; 6];
    module.process_audio_output(&mut output);
    let table = sine_table(1000);
    assert_eq!(output[0], table.sample(0));
    assert_eq!(output[2], table.sample(500));
    assert_eq!(output[4], table.sample(0));
    assert_eq!(module.left_phase(), 500);
    assert_eq!(module.right_phase(), 500);

    // A step of many millions of table lengths.
    let mut module = module_with_rate(7, 1.0e-30);
    module.apply_command(&Command::SetParameter("frequency".to_string(), bits(3.0e38)));
    let mut output = vec![0u32; 200];
    module.process_audio_output(&mut output);
    assert!(module.left_phase() < 7);
    assert!(module.right_phase() < 7);
}

fn module_with_rate(resolution: usize, rate: f32) -> WaveTableModule {
    WaveTableModule::new(bank(resolution), bits(rate))
}

#[test]
fn a_frequency_that_is_not_positive_holds_the_cursors() {
    let mut module = module(1000);
    module.apply_command(&Command::NoteOn(69));
    let mut output = vec![0u32; 20];
    module.process_audio_output(&mut output);
    assert_eq!(module.left_phase(), 90);
    module.apply_command(&Command::SetParameter("frequency".to_string(), bits(-440.0)));
    module.process_audio_output(&mut output);
    let held = sine_table(1000).sample(90);
    assert_eq!(output, vec![held; 20]);
    assert_eq!(module.left_phase(), 90);
}

#[test]
fn waveform_switch_keeps_the_cursors() {
    let mut module = module(1000);
    module.apply_command(&Command::NoteOn(69));
    let mut output = vec![0u32; 100];
    module.process_audio_output(&mut output);
    assert_eq!(module.left_phase(), 450);
    assert_eq!(module.apply_command(&Command::SetWaveform(WaveformKind::Square)), None);
    assert_eq!(module.waveform(), WaveformKind::Square);
    assert_eq!(module.left_phase(), 450);
    assert_eq!(module.right_phase(), 450);
    assert_eq!(module.frequency(), bits(440.0));
    module.process_audio_output(&mut output);
    assert_eq!(output[0], bits(1.0));
    assert_eq!(output[1], bits(1.0));
    // frame 6 reads sample 450 + 54 = 504, in the second half of the period
    assert_eq!(output[12], bits(-1.0));
}

#[test]
fn waveform_switch_to_a_shorter_table_clamps_the_cursors() {
    let tables = WaveTableBank::new(
        sine_table(1000),
        WaveTable::create_square_wave(bits(1.0), 100).unwrap(),
        ramp_table(451, 0),
        ramp_table(450, 0),
    );
    let mut module = WaveTableModule::new(tables, bits(44100.0));
    module.apply_command(&Command::NoteOn(69));
    let mut output = vec![0u32; 100];
    module.process_audio_output(&mut output);
    assert_eq!(module.left_phase(), 450);

    module.apply_command(&Command::SetWaveform(WaveformKind::Sawtooth));
    assert_eq!(module.left_phase(), 450);
    assert_eq!(module.right_phase(), 450);

    module.apply_command(&Command::SetWaveform(WaveformKind::Triangle));
    assert_eq!(module.left_phase(), 449);
    assert_eq!(module.right_phase(), 449);

    module.apply_command(&Command::SetWaveform(WaveformKind::Square));
    assert_eq!(module.left_phase(), 99);
    assert_eq!(module.right_phase(), 99);

    module.apply_command(&Command::SetWaveform(WaveformKind::Sine));
    assert_eq!(module.left_phase(), 99);
    assert_eq!(module.wave_table().len(), 1000);
}

#[test]
fn unknown_parameters_are_reported_and_ignored() {
    let mut module = module(1000);
    module.apply_command(&Command::NoteOn(69));
    let diagnostic = module.apply_command(&Command::SetParameter("volume".to_string(), bits(0.5)));
    assert_eq!(diagnostic, Some(Diagnostic::UnsupportedParameter("volume".to_string())));
    assert_eq!(module.frequency(), bits(440.0));
    assert_eq!(module.waveform(), WaveformKind::Sine);
}

#[test]
fn commands_are_applied_in_arrival_order() {
    let mut module = module(1000);
    let commands = CommandSet {
        commands: vec![
            Command::NoteOn(69),
            Command::SetParameter("gain".to_string(), 1),
            Command::SetWaveform(WaveformKind::Triangle),
            Command::NoteOff,
            Command::SetParameter("pan".to_string(), 2),
            Command::SetParameter("frequency".to_string(), bits(220.0)),
        ],
    };
    let diagnostics = module.apply_commands(&commands);
    assert_eq!(
        diagnostics,
        vec![
            Diagnostic::UnsupportedParameter("gain".to_string()),
            Diagnostic::UnsupportedParameter("pan".to_string()),
        ]
    );
    assert_eq!(module.frequency(), bits(220.0));
    assert_eq!(module.waveform(), WaveformKind::Triangle);
}

#[test]
fn midi_input_sets_and_clears_the_frequency() {
    let mut module = module(1000);
    let diagnostics = module.process_midi_input(vec![event(0x90, 57), event(0xb0, 7), event(0x90, 69)]);
    assert_eq!(diagnostics, vec![Diagnostic::UnsupportedMidiStatus(0xb0)]);
    assert_eq!(module.frequency(), bits(440.0));
    let diagnostics = module.process_midi_input(vec![event(0x80, 69), event(0xe0, 1), event(0xf8, 0)]);
    assert_eq!(
        diagnostics,
        vec![Diagnostic::UnsupportedMidiStatus(0xe0), Diagnostic::UnsupportedMidiStatus(0xf8)]
    );
    assert_eq!(module.frequency(), 0);
}

#[test]
fn command_input_by_name() {
    let mut module = module(1000);
    assert_eq!(module.process_command_input("frequency", bits(330.0)), None);
    assert_eq!(module.frequency(), bits(330.0));
    assert_eq!(module.process_command_input("square", bits(0.0)), None);
    assert_eq!(module.waveform(), WaveformKind::Square);
    assert_eq!(module.frequency(), bits(330.0));
    assert_eq!(module.process_command_input("sawtooth", bits(7.0)), None);
    assert_eq!(module.waveform(), WaveformKind::Sawtooth);
    assert_eq!(module.process_command_input("triangle", 0), None);
    assert_eq!(module.waveform(), WaveformKind::Triangle);
    assert_eq!(module.process_command_input("sine", 0), None);
    assert_eq!(module.waveform(), WaveformKind::Sine);
    assert_eq!(
        module.process_command_input("Sine", 0),
        Some(Diagnostic::UnsupportedParameter("Sine".to_string()))
    );
    assert_eq!(module.waveform(), WaveformKind::Sine);
    assert_eq!(module.frequency(), bits(330.0));
}

#[test]
fn two_buffers_in_a_row_equal_one_long_buffer() {
    let mut split = module(1000);
    let mut whole = module(1000);
    split.apply_command(&Command::NoteOn(100));
    whole.apply_command(&Command::NoteOn(100));
    let mut first = vec![0u32; 90];
    let mut second = vec![0u32; 166];
    let mut long = vec![0u32; 256];
    split.process_audio_output(&mut first);
    split.process_audio_output(&mut second);
    whole.process_audio_output(&mut long);
    first.extend(second);
    assert_eq!(first, long);
    assert_eq!(split.left_phase(), whole.left_phase());
    assert_eq!(split.right_phase(), whole.right_phase());
}

#[test]
fn an_empty_buffer_changes_nothing() {
    let mut module = module(1000);
    module.apply_command(&Command::NoteOn(69));
    let mut output: Vec<u32> = vec![];
    module.process_audio_output(&mut output);
    assert_eq!(module.left_phase(), 0);
    assert_eq!(module.right_phase(), 0);
}

#[test]
fn a_table_of_one_sample_repeats_it() {
    let one = || WaveTable::from_samples(vec![bits(0.25)]).unwrap();
    let mut module = WaveTableModule::new(WaveTableBank::new(one(), one(), one(), one()), bits(44100.0));
    module.apply_command(&Command::NoteOn(69));
    let mut output = vec![0u32; 8];
    module.process_audio_output(&mut output);
    assert_eq!(output, vec![bits(0.25); 8]);
    assert_eq!(module.left_phase(), 0);
}
