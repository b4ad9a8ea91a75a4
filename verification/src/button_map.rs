//! The button map: which MIDI controller number drives which parameter.
//!
//! The map is read from a configuration file at startup (the file handling
//! and decoding live outside the library) and consulted for every
//! parameter-change event. `param_for_cc` fixes the dispatch: the fields
//! are tried in a set order, and the first one equal to the controller
//! number wins, so a number used twice drives only the earlier parameter.

use vstd::prelude::*;

verus! {

/// The synthesizer parameters a controller number can drive.
#[derive(Copy, Clone, Debug, PartialEq, Eq, Structural)]
pub enum ParamId {
    MasterVolume,
    KeyVelocity,
    VolumeAttack,
    VolumeDecay,
    VolumeSustain,
    VolumeRelease,
    Osc1Waveform,
    Osc2Waveform,
    OscBalance,
    FilterCutoff,
    FilterResonance,
    EnableCompressor,
    FilterRelative,
    DistortionPregain,
    DistortionLevel,
    DistortionMix,
}

/// The controller number assigned to each parameter.
#[derive(Copy, Clone, Debug, PartialEq, Eq, Structural)]
pub struct ButtonMap {
    pub master_volume: u8,
    pub key_velocity: u8,
    pub volume_attack: u8,
    pub volume_decay: u8,
    pub volume_sustain: u8,
    pub volume_release: u8,
    pub osc1_waveform: u8,
    pub osc2_waveform: u8,
    pub osc_balance: u8,
    pub distortion_pregain: u8,
    pub distortion_level: u8,
    pub distortion_mix: u8,
    pub filter_cutoff: u8,
    pub filter_resonance: u8,
    pub filter_relative: u8,
    pub enable_compressor: u8,
}

/// The parameter controller number `cc` drives under map `m`: the first
/// field equal to `cc`, in this fixed order, or none.
pub open spec fn param_for_cc(m: ButtonMap, cc: u8) -> Option<ParamId> {
    if cc == m.master_volume {
        Some(ParamId::MasterVolume)
    } else if cc == m.key_velocity {
        Some(ParamId::KeyVelocity)
    } else if cc == m.volume_attack {
        Some(ParamId::VolumeAttack)
    } else if cc == m.volume_decay {
        Some(ParamId::VolumeDecay)
    } else if cc == m.volume_sustain {
        Some(ParamId::VolumeSustain)
    } else if cc == m.volume_release {
        Some(ParamId::VolumeRelease)
    } else if cc == m.osc1_waveform {
        Some(ParamId::Osc1Waveform)
    } else if cc == m.osc2_waveform {
        Some(ParamId::Osc2Waveform)
    } else if cc == m.osc_balance {
        Some(ParamId::OscBalance)
    } else if cc == m.filter_cutoff {
        Some(ParamId::FilterCutoff)
    } else if cc == m.filter_resonance {
        Some(ParamId::FilterResonance)
    } else if cc == m.enable_compressor {
        Some(ParamId::EnableCompressor)
    } else if cc == m.filter_relative {
        Some(ParamId::FilterRelative)
    } else if cc == m.distortion_pregain {
        Some(ParamId::DistortionPregain)
    } else if cc == m.distortion_level {
        Some(ParamId::DistortionLevel)
    } else if cc == m.distortion_mix {
        Some(ParamId::DistortionMix)
    } else {
        None
    }
}

impl ButtonMap {
    /// Looks up the parameter that controller number `cc` drives, if any.
    /// Unassigned controller numbers yield `None` and are ignored by the
    /// synthesizer.
    pub fn param_for(&self, cc: u8) -> (r: Option<ParamId>)
        ensures
            r == param_for_cc(*self, cc),
    {
        if cc == self.master_volume {
            Some(ParamId::MasterVolume)
        } else if cc == self.key_velocity {
            Some(ParamId::KeyVelocity)
        } else if cc == self.volume_attack {
            Some(ParamId::VolumeAttack)
        } else if cc == self.volume_decay {
            Some(ParamId::VolumeDecay)
        } else if cc == self.volume_sustain {
            Some(ParamId::VolumeSustain)
        } else if cc == self.volume_release {
            Some(ParamId::VolumeRelease)
        } else if cc == self.osc1_waveform {
            Some(ParamId::Osc1Waveform)
        } else if cc == self.osc2_waveform {
            Some(ParamId::Osc2Waveform)
        } else if cc == self.osc_balance {
            Some(ParamId::OscBalance)
        } else if cc == self.filter_cutoff {
            Some(ParamId::FilterCutoff)
        } else if cc == self.filter_resonance {
            Some(ParamId::FilterResonance)
        } else if cc == self.enable_compressor {
            Some(ParamId::EnableCompressor)
        } else if cc == self.filter_relative {
            Some(ParamId::FilterRelative)
        } else if cc == self.distortion_pregain {
            Some(ParamId::DistortionPregain)
        } else if cc == self.distortion_level {
            Some(ParamId::DistortionLevel)
        } else if cc == self.distortion_mix {
            Some(ParamId::DistortionMix)
        } else {
            None
        }
    }
}

} // verus!
