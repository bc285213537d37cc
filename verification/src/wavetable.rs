//! Wavetables: one period of a waveform as a fixed run of samples.

use vstd::prelude::*;
use crate::command::WaveformKind;
use crate::single::{negated, negation};

verus! {

/// One period of a square wave of the given amplitude, at `resolution`
/// points: the amplitude through the first half of the period, its negation
/// from the middle on. The sign of the wave at its two zero crossings is
/// settled here: the sample at the start of the period has the amplitude's
/// sign, the sample in the middle the other.
pub open spec fn square_wave(amplitude: u32, resolution: nat) -> Seq<u32> {
    Seq::new(
        resolution,
        |index: int|
            if 2 * index < resolution {
                amplitude
            } else {
                negation(amplitude)
            },
    )
}

/// One period of a waveform: a run of samples that is never empty and never
/// changes once made.
#[derive(Debug, PartialEq, Eq)]
pub struct WaveTable {
    samples: Vec<u32>,
}

impl View for WaveTable {
    type V = Seq<u32>;

    closed spec fn view(&self) -> Seq<u32> {
        self.samples@
    }
}

impl Clone for WaveTable {
    fn clone(&self) -> (copy: WaveTable)
        ensures
            copy@ == self@,
    {
        proof {
            use_type_invariant(self);
        }
        WaveTable { samples: self.samples.clone() }
    }
}

impl WaveTable {
    #[verifier::type_invariant]
    spec fn holds_a_sample(&self) -> bool {
        self.samples@.len() > 0
    }

    /// Makes a table of the given samples, unless there are none.
    pub fn from_samples(samples: Vec<u32>) -> (table: Option<WaveTable>)
        ensures
            table.is_some() <==> samples@.len() > 0,
            table matches Some(made) ==> made@ == samples@,
    {
        if samples.len() == 0 {
            None
        } else {
            Some(WaveTable { samples })
        }
    }

    /// Samples a waveform at `resolution` evenly spaced points of one period.
    /// The sample at index `i` is `calculate(i, resolution)`, which stands for
    /// the waveform's amplitude at `i / resolution` of the period. Without a
    /// single point there is no table.
    pub fn create_wave_form<C: Fn(usize, usize) -> u32>(resolution: usize, calculate: C) -> (table:
        Option<WaveTable>)
        requires
            forall|index: usize| index < resolution ==> calculate.requires((index, resolution)),
        ensures
            table.is_some() <==> resolution > 0,
            table matches Some(made) ==> made@.len() == resolution && forall|index: usize|
                index < resolution ==> calculate.ensures(
                    (index, resolution),
                    #[trigger] made@[index as int],
                ),
    {
        let mut samples: Vec<u32> = Vec::with_capacity(resolution);
        let mut index: usize = 0;
        while index < resolution
            invariant
                index <= resolution,
                samples@.len() == index,
                forall|at: usize| at < resolution ==> calculate.requires((at, resolution)),
                forall|at: usize|
                    at < index ==> calculate.ensures((at, resolution), #[trigger] samples@[at as int]),
            decreases resolution - index,
        {
            let sample = calculate(index, resolution);
            samples.push(sample);
            index = index + 1;
        }
        WaveTable::from_samples(samples)
    }

    /// Makes the table of a square wave; see [`square_wave`]. Without a
    /// single point there is no table.
    pub fn create_square_wave(amplitude: u32, resolution: usize) -> (table: Option<WaveTable>)
        ensures
            table.is_some() <==> resolution > 0,
            table matches Some(made) ==> made@ == square_wave(amplitude, resolution as nat),
    {
        let low: u32 = negated(amplitude);
        let mut samples: Vec<u32> = Vec::with_capacity(resolution);
        let mut index: usize = 0;
        while index < resolution
            invariant
                index <= resolution,
                low == negation(amplitude),
                samples@ == square_wave(amplitude, resolution as nat).take(index as int),
            decreases resolution - index,
        {
            if index < resolution - index {
                samples.push(amplitude);
            } else {
                samples.push(low);
            }
            index = index + 1;
            proof {
                assert(samples@ =~= square_wave(amplitude, resolution as nat).take(index as int));
            }
        }
        proof {
            assert(samples@ =~= square_wave(amplitude, resolution as nat));
        }
        WaveTable::from_samples(samples)
    }

    /// The number of samples, which is at least one.
    pub fn len(&self) -> (len: usize)
        ensures
            len == self@.len(),
            len > 0,
    {
        proof {
            use_type_invariant(self);
        }
        self.samples.len()
    }

    /// The sample at an index within the table.
    pub fn sample(&self, index: usize) -> (sample: u32)
        requires
            index < self@.len(),
        ensures
            sample == self@[index as int],
    {
        self.samples[index]
    }

    /// All the samples, in order.
    pub fn samples(&self) -> (samples: &Vec<u32>)
        ensures
            samples@ == self@,
    {
        &self.samples
    }
}

/// A square wave has exactly two levels. Over an even number of points they
/// split it in two halves of the same length, and each sample of the second
/// half is the negation of the sample half a period before it.
pub proof fn lemma_square_wave_is_balanced(amplitude: u32, resolution: nat)
    requires
        resolution % 2 == 0,
    ensures
        negation(amplitude) != amplitude,
        square_wave(amplitude, resolution).len() == resolution,
        forall|index: int|
            0 <= index < resolution / 2 ==> #[trigger] square_wave(amplitude, resolution)[index]
                == amplitude,
        forall|index: int|
            resolution / 2 <= index < resolution ==> #[trigger] square_wave(
                amplitude,
                resolution,
            )[index] == negation(amplitude),
{
}

/// The tables of a bank as contracts see them.
pub struct BankView {
    pub sine: Seq<u32>,
    pub square: Seq<u32>,
    pub sawtooth: Seq<u32>,
    pub triangle: Seq<u32>,
}

impl BankView {
    /// The table of a waveform.
    pub open spec fn table(self, kind: WaveformKind) -> Seq<u32> {
        match kind {
            WaveformKind::Sine => self.sine,
            WaveformKind::Square => self.square,
            WaveformKind::Sawtooth => self.sawtooth,
            WaveformKind::Triangle => self.triangle,
        }
    }

    /// Every table holds at least one sample.
    pub open spec fn wf(self) -> bool {
        forall|kind: WaveformKind| #[trigger] self.table(kind).len() > 0
    }
}

/// One table for each waveform, made ahead of time so that the audio thread
/// switches waveforms without computing or allocating anything.
#[derive(Debug, PartialEq, Eq)]
pub struct WaveTableBank {
    sine: WaveTable,
    square: WaveTable,
    sawtooth: WaveTable,
    triangle: WaveTable,
}

impl View for WaveTableBank {
    type V = BankView;

    closed spec fn view(&self) -> BankView {
        BankView {
            sine: self.sine@,
            square: self.square@,
            sawtooth: self.sawtooth@,
            triangle: self.triangle@,
        }
    }
}

impl Clone for WaveTableBank {
    fn clone(&self) -> (copy: WaveTableBank)
        ensures
            copy@ == self@,
    {
        WaveTableBank {
            sine: self.sine.clone(),
            square: self.square.clone(),
            sawtooth: self.sawtooth.clone(),
            triangle: self.triangle.clone(),
        }
    }
}

impl WaveTableBank {
    /// Puts four tables together. Their lengths may differ.
    pub fn new(sine: WaveTable, square: WaveTable, sawtooth: WaveTable, triangle: WaveTable) -> (bank:
        WaveTableBank)
        ensures
            bank@ == (BankView { sine: sine@, square: square@, sawtooth: sawtooth@, triangle: triangle@ }),
            bank@.wf(),
    {
        proof {
            use_type_invariant(&sine);
            use_type_invariant(&square);
            use_type_invariant(&sawtooth);
            use_type_invariant(&triangle);
        }
        WaveTableBank { sine, square, sawtooth, triangle }
    }

    /// The table of a waveform.
    pub fn table(&self, kind: WaveformKind) -> (table: &WaveTable)
        ensures
            table@ == self@.table(kind),
            self@.wf(),
    {
        proof {
            use_type_invariant(&self.sine);
            use_type_invariant(&self.square);
            use_type_invariant(&self.sawtooth);
            use_type_invariant(&self.triangle);
        }
        match kind {
            WaveformKind::Sine => &self.sine,
            WaveformKind::Square => &self.square,
            WaveformKind::Sawtooth => &self.sawtooth,
            WaveformKind::Triangle => &self.triangle,
        }
    }
}

} // verus!
