//! The spinners that show that the tool is at work.

use vstd::prelude::*;

verus! {

#[derive(Debug, Clone, Copy, PartialEq, Eq, Structural)]
pub enum SpinnerPreset {
    Dots,
    Pulse,
    FillSweep,
    DiagSwipe,
    Cascade,
    Columns,
    Sand,
    WaveRows,
    Scan,
}

/// The spinner at a place of the list of all of them.
pub open spec fn preset_at(i: int) -> SpinnerPreset {
    if i == 0 {
        SpinnerPreset::Dots
    } else if i == 1 {
        SpinnerPreset::Pulse
    } else if i == 2 {
        SpinnerPreset::FillSweep
    } else if i == 3 {
        SpinnerPreset::DiagSwipe
    } else if i == 4 {
        SpinnerPreset::Cascade
    } else if i == 5 {
        SpinnerPreset::Columns
    } else if i == 6 {
        SpinnerPreset::Sand
    } else if i == 7 {
        SpinnerPreset::WaveRows
    } else {
        SpinnerPreset::Scan
    }
}

pub open spec fn preset_name(preset: SpinnerPreset) -> Seq<char> {
    match preset {
        SpinnerPreset::Dots => "dots"@,
        SpinnerPreset::Pulse => "pulse"@,
        SpinnerPreset::FillSweep => "fillsweep"@,
        SpinnerPreset::DiagSwipe => "diagswipe"@,
        SpinnerPreset::Cascade => "cascade"@,
        SpinnerPreset::Columns => "columns"@,
        SpinnerPreset::Sand => "sand"@,
        SpinnerPreset::WaveRows => "waverows"@,
        SpinnerPreset::Scan => "scan"@,
    }
}

/// All spinners.
pub fn spinner_presets() -> (r: Vec<SpinnerPreset>)
    ensures
        r@.len() == 9,
        forall|i: int| 0 <= i < 9 ==> #[trigger] r@[i] == preset_at(i),
{
    let mut presets: Vec<SpinnerPreset> = Vec::new();
    presets.push(SpinnerPreset::Dots);
    presets.push(SpinnerPreset::Pulse);
    presets.push(SpinnerPreset::FillSweep);
    presets.push(SpinnerPreset::DiagSwipe);
    presets.push(SpinnerPreset::Cascade);
    presets.push(SpinnerPreset::Columns);
    presets.push(SpinnerPreset::Sand);
    presets.push(SpinnerPreset::WaveRows);
    presets.push(SpinnerPreset::Scan);
    presets
}

impl SpinnerPreset {
    /// The spinner that a random number picks.
    pub fn random(entropy: usize) -> (r: SpinnerPreset)
        ensures
            r == preset_at(entropy as int % 9),
    {
        spinner_presets()[entropy % 9]
    }

    /// The name of a preset.
    pub fn name(self) -> (r: &'static str)
        ensures
            r@ == preset_name(self),
    {
        match self {
            SpinnerPreset::Dots => "dots",
            SpinnerPreset::Pulse => "pulse",
            SpinnerPreset::FillSweep => "fillsweep",
            SpinnerPreset::DiagSwipe => "diagswipe",
            SpinnerPreset::Cascade => "cascade",
            SpinnerPreset::Columns => "columns",
            SpinnerPreset::Sand => "sand",
            SpinnerPreset::WaveRows => "waverows",
            SpinnerPreset::Scan => "scan",
        }
    }
}

} // verus!
