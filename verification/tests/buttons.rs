use midisynth::button_map::{ButtonMap, ParamId};

fn sample_map() -> ButtonMap {
    ButtonMap {
        master_volume: 81,
        key_velocity: 82,
        volume_attack: 1,
        volume_decay: 2,
        volume_sustain: 3,
        volume_release: 4,
        osc1_waveform: 11,
        osc2_waveform: 12,
        osc_balance: 13,
        distortion_pregain: 21,
        distortion_level: 22,
        distortion_mix: 23,
        filter_cutoff: 31,
        filter_resonance: 32,
        filter_relative: 33,
        enable_compressor: 34,
    }
}

#[test]
fn every_assigned_controller_resolves() {
    let m = sample_map();
    assert_eq!(m.param_for(81), Some(ParamId::MasterVolume));
    assert_eq!(m.param_for(82), Some(ParamId::KeyVelocity));
    assert_eq!(m.param_for(1), Some(ParamId::VolumeAttack));
    assert_eq!(m.param_for(2), Some(ParamId::VolumeDecay));
    assert_eq!(m.param_for(3), Some(ParamId::VolumeSustain));
    assert_eq!(m.param_for(4), Some(ParamId::VolumeRelease));
    assert_eq!(m.param_for(11), Some(ParamId::Osc1Waveform));
    assert_eq!(m.param_for(12), Some(ParamId::Osc2Waveform));
    assert_eq!(m.param_for(13), Some(ParamId::OscBalance));
    assert_eq!(m.param_for(21), Some(ParamId::DistortionPregain));
    assert_eq!(m.param_for(22), Some(ParamId::DistortionLevel));
    assert_eq!(m.param_for(23), Some(ParamId::DistortionMix));
    assert_eq!(m.param_for(31), Some(ParamId::FilterCutoff));
    assert_eq!(m.param_for(32), Some(ParamId::FilterResonance));
    assert_eq!(m.param_for(33), Some(ParamId::FilterRelative));
    assert_eq!(m.param_for(34), Some(ParamId::EnableCompressor));
}

#[test]
fn unassigned_controller_is_ignored() {
    let m = sample_map();
    assert_eq!(m.param_for(99), None);
    assert_eq!(m.param_for(0), None);
}

/// A controller number assigned twice drives only the parameter earlier
/// in the dispatch order.
#[test]
fn duplicate_assignment_first_wins() {
    let mut m = sample_map();
    m.filter_cutoff = 81; // same as master_volume
    assert_eq!(m.param_for(81), Some(ParamId::MasterVolume));
}
