//! MIDI events as a port delivers them, reduced to the status and the first
//! data byte.

use vstd::prelude::*;

verus! {

/// The status byte of a note-off message.
pub const NOTE_OFF: u8 = 0x80;

/// The status byte of a note-on message.
pub const NOTE_ON: u8 = 0x90;

/// A MIDI message: its status byte and its first data byte, which for the
/// note messages is the note number.
#[derive(Clone, Copy, Debug, PartialEq, Eq, Structural)]
pub struct MidiMessage {
    pub status: u8,
    pub data: u8,
}

/// One event read from a MIDI port.
#[derive(Clone, Copy, Debug, PartialEq, Eq, Structural)]
pub struct MidiEvent {
    pub message: MidiMessage,
}

/// A message in the form a port driver hands it over, with both data bytes.
#[derive(Clone, Copy, Debug, PartialEq, Eq, Structural)]
pub struct PortMessage {
    pub status: u8,
    pub data1: u8,
    pub data2: u8,
}

/// A source of MIDI events that runs until its device goes away, handing each
/// batch of events it reads to the callback.
pub trait MidiProcessor {
    fn process_midi<C: Fn(Vec<MidiEvent>)>(&mut self, callback: C);
}

/// The event that a port message stands for: same status, first data byte.
pub open spec fn event_of(message: PortMessage) -> MidiEvent {
    MidiEvent { message: MidiMessage { status: message.status, data: message.data1 } }
}

/// Turns the messages of a MIDI port into events.
pub struct PortMidiProcessor;

impl PortMidiProcessor {
    pub fn new() -> (processor: Self)
        ensures
            processor == PortMidiProcessor,
    {
        PortMidiProcessor
    }

    /// Converts one batch of port messages, keeping their order. The second
    /// data byte is dropped.
    pub fn translate(&self, batch: &Vec<PortMessage>) -> (events: Vec<MidiEvent>)
        ensures
            events@ == batch@.map_values(|message: PortMessage| event_of(message)),
    {
        let mut events: Vec<MidiEvent> = Vec::with_capacity(batch.len());
        let mut index: usize = 0;
        while index < batch.len()
            invariant
                index <= batch.len(),
                events@ == batch@.take(index as int).map_values(
                    |message: PortMessage| event_of(message),
                ),
            decreases batch.len() - index,
        {
            let message = batch[index];
            events.push(
                MidiEvent { message: MidiMessage { status: message.status, data: message.data1 } },
            );
            proof {
                assert(batch@.take(index + 1) == batch@.take(index as int).push(batch@[index as int]));
                assert(events@ =~= batch@.take(index + 1).map_values(
                    |message: PortMessage| event_of(message),
                ));
            }
            index = index + 1;
        }
        proof {
            assert(batch@.take(batch.len() as int) == batch@);
        }
        events
    }
}

} // verus!
