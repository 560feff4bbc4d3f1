use vstd::prelude::*;

verus! {

/// Every effect the catalog knows of. Only some are implemented this cycle
/// (see `implemented_effects`); the rest are catalog placeholders.
#[derive(Clone, Copy, PartialEq, Eq, Structural, Hash, Debug)]
pub enum EffectType {
    Isolator,
    DjfxLooper,
    VinylSim,
    Filter,
    Delay,
    Reverb,
    Scatter,
    Slicer,
    Chorus,
    Flanger,
    Phaser,
    Tremolo,
    AutoPan,
    Compressor,
    Equalizer,
    LoFi,
    Bitcrusher,
    RingMod,
    PitchShifter,
    Distortion,
    Overdrive,
    Fuzz,
    Wah,
    Octave,
    Resonator,
    TapeEcho,
    Shimmer,
    Gater,
    Reverse,
    Stutter,
    TapeStop,
    Compressor2,
    Equalizer2,
    Chorus2,
    Flanger2,
    Phaser2,
    Delay2,
}

/// Scaling curve used to map a normalized 0..1 control value onto a
/// parameter's real-unit range.
#[derive(Clone, Copy, PartialEq, Eq, Structural, Debug)]
pub enum Curve {
    Linear,
    Exponential,
}

/// Static descriptor of one tunable effect parameter. The numeric fields are
/// exact decimals held in thousandths: `min_milli == -60000` is -60.0 and
/// `default_milli == 500` is the normalized knob position 0.5.
#[derive(Clone, Copy, Debug)]
pub struct ParamSpec {
    /// Stable display name, e.g. "Cutoff".
    pub name: &'static str,
    /// Real unit, e.g. "Hz"; empty when unitless.
    pub unit: &'static str,
    /// Real-unit value at the normalized position 0, in thousandths.
    pub min_milli: i32,
    /// Real-unit value at the normalized position 1, in thousandths.
    pub max_milli: i32,
    /// Default knob position, normalized to 0..1, in thousandths.
    pub default_milli: i32,
    /// Curve applied when a knob position is mapped onto the real range.
    pub curve: Curve,
}

pub open spec fn spec_param(
    name: &'static str,
    unit: &'static str,
    min_milli: i32,
    max_milli: i32,
    default_milli: i32,
    curve: Curve,
) -> ParamSpec {
    ParamSpec { name, unit, min_milli, max_milli, default_milli, curve }
}

/// The parameter table of every effect; empty for effects that declare none.
pub open spec fn metadata(e: EffectType) -> Seq<ParamSpec> {
    match e {
        EffectType::Filter => seq![spec_param("Cutoff", "Hz", 20000, 20000000, 500, Curve::Exponential)],
        EffectType::Isolator => seq![
            spec_param("Low", "", 0, 2000, 500, Curve::Linear),
            spec_param("Mid", "", 0, 2000, 500, Curve::Linear),
            spec_param("High", "", 0, 2000, 500, Curve::Linear),
        ],
        EffectType::Delay => seq![spec_param("Time", "s", 0, 2000, 250, Curve::Linear)],
        EffectType::Reverb => seq![spec_param("Damping", "Hz", 200000, 18000000, 1000, Curve::Exponential)],
        EffectType::VinylSim => seq![spec_param("Noise", "", 0, 500, 100, Curve::Linear)],
        EffectType::DjfxLooper => seq![spec_param("Feedback", "", 0, 1000, 500, Curve::Linear)],
        EffectType::Scatter => seq![spec_param("Depth", "", 0, 1000, 1000, Curve::Linear)],
        EffectType::Slicer => seq![spec_param("Depth", "", 0, 1000, 1000, Curve::Linear)],
        EffectType::Tremolo => seq![
            spec_param("Rate", "Hz", 100, 20000, 400, Curve::Exponential),
            spec_param("Depth", "", 0, 1000, 500, Curve::Linear),
        ],
        EffectType::AutoPan => seq![
            spec_param("Rate", "Hz", 100, 10000, 400, Curve::Exponential),
            spec_param("Depth", "", 0, 1000, 700, Curve::Linear),
        ],
        EffectType::Chorus => seq![
            spec_param("Rate", "Hz", 100, 5000, 300, Curve::Exponential),
            spec_param("Depth", "", 0, 1000, 500, Curve::Linear),
        ],
        EffectType::Flanger => seq![
            spec_param("Rate", "Hz", 50, 5000, 250, Curve::Exponential),
            spec_param("Depth", "", 0, 1000, 600, Curve::Linear),
            spec_param("Feedback", "", 0, 900, 500, Curve::Linear),
        ],
        EffectType::Phaser => seq![
            spec_param("Rate", "Hz", 50, 4000, 300, Curve::Exponential),
            spec_param("Depth", "", 0, 1000, 700, Curve::Linear),
        ],
        EffectType::Compressor => seq![
            spec_param("Threshold", "dB", -60000i32, 0, 700, Curve::Linear),
            spec_param("Ratio", ":1", 1000, 20000, 200, Curve::Linear),
            spec_param("Attack", "ms", 100, 100000, 200, Curve::Exponential),
            spec_param("Release", "ms", 5000, 1000000, 400, Curve::Exponential),
        ],
        EffectType::Equalizer => seq![
            spec_param("Low", "", 0, 2000, 500, Curve::Linear),
            spec_param("Mid", "", 0, 2000, 500, Curve::Linear),
            spec_param("High", "", 0, 2000, 500, Curve::Linear),
        ],
        EffectType::Wah => seq![
            spec_param("Freq", "Hz", 200000, 3000000, 400, Curve::Exponential),
            spec_param("Resonance", "", 500, 12000, 600, Curve::Linear),
            spec_param("Depth", "", 0, 1000, 1000, Curve::Linear),
        ],
        _ => Seq::empty(),
    }
}

/// The documented parameters of every effect: each table lists, in knob
/// order, the parameters its processor exposes, with their names, units,
/// ranges (in thousandths), default knob positions and curves. Every other
/// effect declares none.
pub proof fn lemma_parameter_catalog()
    ensures
        metadata(EffectType::Filter).len() == 1,
        metadata(EffectType::Filter)[0].name@ == "Cutoff"@ && metadata(EffectType::Filter)[0].unit@ == "Hz"@,
        metadata(EffectType::Filter)[0].min_milli == 20000 && metadata(EffectType::Filter)[0].max_milli == 20000000,
        metadata(EffectType::Filter)[0].default_milli == 500 && metadata(EffectType::Filter)[0].curve == Curve::Exponential,
        metadata(EffectType::Isolator).len() == 3,
        metadata(EffectType::Isolator)[0].name@ == "Low"@ && metadata(EffectType::Isolator)[0].unit@ == ""@,
        metadata(EffectType::Isolator)[0].min_milli == 0 && metadata(EffectType::Isolator)[0].max_milli == 2000,
        metadata(EffectType::Isolator)[0].default_milli == 500 && metadata(EffectType::Isolator)[0].curve == Curve::Linear,
        metadata(EffectType::Isolator)[1].name@ == "Mid"@ && metadata(EffectType::Isolator)[1].unit@ == ""@,
        metadata(EffectType::Isolator)[1].min_milli == 0 && metadata(EffectType::Isolator)[1].max_milli == 2000,
        metadata(EffectType::Isolator)[1].default_milli == 500 && metadata(EffectType::Isolator)[1].curve == Curve::Linear,
        metadata(EffectType::Isolator)[2].name@ == "High"@ && metadata(EffectType::Isolator)[2].unit@ == ""@,
        metadata(EffectType::Isolator)[2].min_milli == 0 && metadata(EffectType::Isolator)[2].max_milli == 2000,
        metadata(EffectType::Isolator)[2].default_milli == 500 && metadata(EffectType::Isolator)[2].curve == Curve::Linear,
        metadata(EffectType::Delay).len() == 1,
        metadata(EffectType::Delay)[0].name@ == "Time"@ && metadata(EffectType::Delay)[0].unit@ == "s"@,
        metadata(EffectType::Delay)[0].min_milli == 0 && metadata(EffectType::Delay)[0].max_milli == 2000,
        metadata(EffectType::Delay)[0].default_milli == 250 && metadata(EffectType::Delay)[0].curve == Curve::Linear,
        metadata(EffectType::Reverb).len() == 1,
        metadata(EffectType::Reverb)[0].name@ == "Damping"@ && metadata(EffectType::Reverb)[0].unit@ == "Hz"@,
        metadata(EffectType::Reverb)[0].min_milli == 200000 && metadata(EffectType::Reverb)[0].max_milli == 18000000,
        metadata(EffectType::Reverb)[0].default_milli == 1000 && metadata(EffectType::Reverb)[0].curve == Curve::Exponential,
        metadata(EffectType::VinylSim).len() == 1,
        metadata(EffectType::VinylSim)[0].name@ == "Noise"@ && metadata(EffectType::VinylSim)[0].unit@ == ""@,
        metadata(EffectType::VinylSim)[0].min_milli == 0 && metadata(EffectType::VinylSim)[0].max_milli == 500,
        metadata(EffectType::VinylSim)[0].default_milli == 100 && metadata(EffectType::VinylSim)[0].curve == Curve::Linear,
        metadata(EffectType::DjfxLooper).len() == 1,
        metadata(EffectType::DjfxLooper)[0].name@ == "Feedback"@ && metadata(EffectType::DjfxLooper)[0].unit@ == ""@,
        metadata(EffectType::DjfxLooper)[0].min_milli == 0 && metadata(EffectType::DjfxLooper)[0].max_milli == 1000,
        metadata(EffectType::DjfxLooper)[0].default_milli == 500 && metadata(EffectType::DjfxLooper)[0].curve == Curve::Linear,
        metadata(EffectType::Scatter).len() == 1,
        metadata(EffectType::Scatter)[0].name@ == "Depth"@ && metadata(EffectType::Scatter)[0].unit@ == ""@,
        metadata(EffectType::Scatter)[0].min_milli == 0 && metadata(EffectType::Scatter)[0].max_milli == 1000,
        metadata(EffectType::Scatter)[0].default_milli == 1000 && metadata(EffectType::Scatter)[0].curve == Curve::Linear,
        metadata(EffectType::Slicer).len() == 1,
        metadata(EffectType::Slicer)[0].name@ == "Depth"@ && metadata(EffectType::Slicer)[0].unit@ == ""@,
        metadata(EffectType::Slicer)[0].min_milli == 0 && metadata(EffectType::Slicer)[0].max_milli == 1000,
        metadata(EffectType::Slicer)[0].default_milli == 1000 && metadata(EffectType::Slicer)[0].curve == Curve::Linear,
        metadata(EffectType::Tremolo).len() == 2,
        metadata(EffectType::Tremolo)[0].name@ == "Rate"@ && metadata(EffectType::Tremolo)[0].unit@ == "Hz"@,
        metadata(EffectType::Tremolo)[0].min_milli == 100 && metadata(EffectType::Tremolo)[0].max_milli == 20000,
        metadata(EffectType::Tremolo)[0].default_milli == 400 && metadata(EffectType::Tremolo)[0].curve == Curve::Exponential,
        metadata(EffectType::Tremolo)[1].name@ == "Depth"@ && metadata(EffectType::Tremolo)[1].unit@ == ""@,
        metadata(EffectType::Tremolo)[1].min_milli == 0 && metadata(EffectType::Tremolo)[1].max_milli == 1000,
        metadata(EffectType::Tremolo)[1].default_milli == 500 && metadata(EffectType::Tremolo)[1].curve == Curve::Linear,
        metadata(EffectType::AutoPan).len() == 2,
        metadata(EffectType::AutoPan)[0].name@ == "Rate"@ && metadata(EffectType::AutoPan)[0].unit@ == "Hz"@,
        metadata(EffectType::AutoPan)[0].min_milli == 100 && metadata(EffectType::AutoPan)[0].max_milli == 10000,
        metadata(EffectType::AutoPan)[0].default_milli == 400 && metadata(EffectType::AutoPan)[0].curve == Curve::Exponential,
        metadata(EffectType::AutoPan)[1].name@ == "Depth"@ && metadata(EffectType::AutoPan)[1].unit@ == ""@,
        metadata(EffectType::AutoPan)[1].min_milli == 0 && metadata(EffectType::AutoPan)[1].max_milli == 1000,
        metadata(EffectType::AutoPan)[1].default_milli == 700 && metadata(EffectType::AutoPan)[1].curve == Curve::Linear,
        metadata(EffectType::Chorus).len() == 2,
        metadata(EffectType::Chorus)[0].name@ == "Rate"@ && metadata(EffectType::Chorus)[0].unit@ == "Hz"@,
        metadata(EffectType::Chorus)[0].min_milli == 100 && metadata(EffectType::Chorus)[0].max_milli == 5000,
        metadata(EffectType::Chorus)[0].default_milli == 300 && metadata(EffectType::Chorus)[0].curve == Curve::Exponential,
        metadata(EffectType::Chorus)[1].name@ == "Depth"@ && metadata(EffectType::Chorus)[1].unit@ == ""@,
        metadata(EffectType::Chorus)[1].min_milli == 0 && metadata(EffectType::Chorus)[1].max_milli == 1000,
        metadata(EffectType::Chorus)[1].default_milli == 500 && metadata(EffectType::Chorus)[1].curve == Curve::Linear,
        metadata(EffectType::Flanger).len() == 3,
        metadata(EffectType::Flanger)[0].name@ == "Rate"@ && metadata(EffectType::Flanger)[0].unit@ == "Hz"@,
        metadata(EffectType::Flanger)[0].min_milli == 50 && metadata(EffectType::Flanger)[0].max_milli == 5000,
        metadata(EffectType::Flanger)[0].default_milli == 250 && metadata(EffectType::Flanger)[0].curve == Curve::Exponential,
        metadata(EffectType::Flanger)[1].name@ == "Depth"@ && metadata(EffectType::Flanger)[1].unit@ == ""@,
        metadata(EffectType::Flanger)[1].min_milli == 0 && metadata(EffectType::Flanger)[1].max_milli == 1000,
        metadata(EffectType::Flanger)[1].default_milli == 600 && metadata(EffectType::Flanger)[1].curve == Curve::Linear,
        metadata(EffectType::Flanger)[2].name@ == "Feedback"@ && metadata(EffectType::Flanger)[2].unit@ == ""@,
        metadata(EffectType::Flanger)[2].min_milli == 0 && metadata(EffectType::Flanger)[2].max_milli == 900,
        metadata(EffectType::Flanger)[2].default_milli == 500 && metadata(EffectType::Flanger)[2].curve == Curve::Linear,
        metadata(EffectType::Phaser).len() == 2,
        metadata(EffectType::Phaser)[0].name@ == "Rate"@ && metadata(EffectType::Phaser)[0].unit@ == "Hz"@,
        metadata(EffectType::Phaser)[0].min_milli == 50 && metadata(EffectType::Phaser)[0].max_milli == 4000,
        metadata(EffectType::Phaser)[0].default_milli == 300 && metadata(EffectType::Phaser)[0].curve == Curve::Exponential,
        metadata(EffectType::Phaser)[1].name@ == "Depth"@ && metadata(EffectType::Phaser)[1].unit@ == ""@,
        metadata(EffectType::Phaser)[1].min_milli == 0 && metadata(EffectType::Phaser)[1].max_milli == 1000,
        metadata(EffectType::Phaser)[1].default_milli == 700 && metadata(EffectType::Phaser)[1].curve == Curve::Linear,
        metadata(EffectType::Compressor).len() == 4,
        metadata(EffectType::Compressor)[0].name@ == "Threshold"@ && metadata(EffectType::Compressor)[0].unit@ == "dB"@,
        metadata(EffectType::Compressor)[0].min_milli == -60000 && metadata(EffectType::Compressor)[0].max_milli == 0,
        metadata(EffectType::Compressor)[0].default_milli == 700 && metadata(EffectType::Compressor)[0].curve == Curve::Linear,
        metadata(EffectType::Compressor)[1].name@ == "Ratio"@ && metadata(EffectType::Compressor)[1].unit@ == ":1"@,
        metadata(EffectType::Compressor)[1].min_milli == 1000 && metadata(EffectType::Compressor)[1].max_milli == 20000,
        metadata(EffectType::Compressor)[1].default_milli == 200 && metadata(EffectType::Compressor)[1].curve == Curve::Linear,
        metadata(EffectType::Compressor)[2].name@ == "Attack"@ && metadata(EffectType::Compressor)[2].unit@ == "ms"@,
        metadata(EffectType::Compressor)[2].min_milli == 100 && metadata(EffectType::Compressor)[2].max_milli == 100000,
        metadata(EffectType::Compressor)[2].default_milli == 200 && metadata(EffectType::Compressor)[2].curve == Curve::Exponential,
        metadata(EffectType::Compressor)[3].name@ == "Release"@ && metadata(EffectType::Compressor)[3].unit@ == "ms"@,
        metadata(EffectType::Compressor)[3].min_milli == 5000 && metadata(EffectType::Compressor)[3].max_milli == 1000000,
        metadata(EffectType::Compressor)[3].default_milli == 400 && metadata(EffectType::Compressor)[3].curve == Curve::Exponential,
        metadata(EffectType::Equalizer).len() == 3,
        metadata(EffectType::Equalizer)[0].name@ == "Low"@ && metadata(EffectType::Equalizer)[0].unit@ == ""@,
        metadata(EffectType::Equalizer)[0].min_milli == 0 && metadata(EffectType::Equalizer)[0].max_milli == 2000,
        metadata(EffectType::Equalizer)[0].default_milli == 500 && metadata(EffectType::Equalizer)[0].curve == Curve::Linear,
        metadata(EffectType::Equalizer)[1].name@ == "Mid"@ && metadata(EffectType::Equalizer)[1].unit@ == ""@,
        metadata(EffectType::Equalizer)[1].min_milli == 0 && metadata(EffectType::Equalizer)[1].max_milli == 2000,
        metadata(EffectType::Equalizer)[1].default_milli == 500 && metadata(EffectType::Equalizer)[1].curve == Curve::Linear,
        metadata(EffectType::Equalizer)[2].name@ == "High"@ && metadata(EffectType::Equalizer)[2].unit@ == ""@,
        metadata(EffectType::Equalizer)[2].min_milli == 0 && metadata(EffectType::Equalizer)[2].max_milli == 2000,
        metadata(EffectType::Equalizer)[2].default_milli == 500 && metadata(EffectType::Equalizer)[2].curve == Curve::Linear,
        metadata(EffectType::Wah).len() == 3,
        metadata(EffectType::Wah)[0].name@ == "Freq"@ && metadata(EffectType::Wah)[0].unit@ == "Hz"@,
        metadata(EffectType::Wah)[0].min_milli == 200000 && metadata(EffectType::Wah)[0].max_milli == 3000000,
        metadata(EffectType::Wah)[0].default_milli == 400 && metadata(EffectType::Wah)[0].curve == Curve::Exponential,
        metadata(EffectType::Wah)[1].name@ == "Resonance"@ && metadata(EffectType::Wah)[1].unit@ == ""@,
        metadata(EffectType::Wah)[1].min_milli == 500 && metadata(EffectType::Wah)[1].max_milli == 12000,
        metadata(EffectType::Wah)[1].default_milli == 600 && metadata(EffectType::Wah)[1].curve == Curve::Linear,
        metadata(EffectType::Wah)[2].name@ == "Depth"@ && metadata(EffectType::Wah)[2].unit@ == ""@,
        metadata(EffectType::Wah)[2].min_milli == 0 && metadata(EffectType::Wah)[2].max_milli == 1000,
        metadata(EffectType::Wah)[2].default_milli == 1000 && metadata(EffectType::Wah)[2].curve == Curve::Linear,
        forall|e: EffectType| e != EffectType::Filter && e != EffectType::Isolator && e != EffectType::Delay && e != EffectType::Reverb && e != EffectType::VinylSim && e != EffectType::DjfxLooper && e != EffectType::Scatter && e != EffectType::Slicer && e != EffectType::Tremolo && e != EffectType::AutoPan && e != EffectType::Chorus && e != EffectType::Flanger && e != EffectType::Phaser && e != EffectType::Compressor && e != EffectType::Equalizer && e != EffectType::Wah ==> #[trigger] metadata(e).len() == 0,
{
}

/// Static parameter metadata of an effect: one entry per tunable parameter,
/// empty for effects that declare none. The tables are static: nothing is
/// allocated.
pub fn effect_metadata(effect_type: EffectType) -> (r: &'static [ParamSpec])
    ensures
        r@ == metadata(effect_type),
{
    match effect_type {
        EffectType::Filter => {
            let table: &'static [ParamSpec] = &[
                ParamSpec { name: "Cutoff", unit: "Hz", min_milli: 20000, max_milli: 20000000, default_milli: 500, curve: Curve::Exponential },
            ];
            table
        },
        EffectType::Isolator => {
            let table: &'static [ParamSpec] = &[
                ParamSpec { name: "Low", unit: "", min_milli: 0, max_milli: 2000, default_milli: 500, curve: Curve::Linear },
                ParamSpec { name: "Mid", unit: "", min_milli: 0, max_milli: 2000, default_milli: 500, curve: Curve::Linear },
                ParamSpec { name: "High", unit: "", min_milli: 0, max_milli: 2000, default_milli: 500, curve: Curve::Linear },
            ];
            table
        },
        EffectType::Delay => {
            let table: &'static [ParamSpec] = &[
                ParamSpec { name: "Time", unit: "s", min_milli: 0, max_milli: 2000, default_milli: 250, curve: Curve::Linear },
            ];
            table
        },
        EffectType::Reverb => {
            let table: &'static [ParamSpec] = &[
                ParamSpec { name: "Damping", unit: "Hz", min_milli: 200000, max_milli: 18000000, default_milli: 1000, curve: Curve::Exponential },
            ];
            table
        },
        EffectType::VinylSim => {
            let table: &'static [ParamSpec] = &[
                ParamSpec { name: "Noise", unit: "", min_milli: 0, max_milli: 500, default_milli: 100, curve: Curve::Linear },
            ];
            table
        },
        EffectType::DjfxLooper => {
            let table: &'static [ParamSpec] = &[
                ParamSpec { name: "Feedback", unit: "", min_milli: 0, max_milli: 1000, default_milli: 500, curve: Curve::Linear },
            ];
            table
        },
        EffectType::Scatter => {
            let table: &'static [ParamSpec] = &[
                ParamSpec { name: "Depth", unit: "", min_milli: 0, max_milli: 1000, default_milli: 1000, curve: Curve::Linear },
            ];
            table
        },
        EffectType::Slicer => {
            let table: &'static [ParamSpec] = &[
                ParamSpec { name: "Depth", unit: "", min_milli: 0, max_milli: 1000, default_milli: 1000, curve: Curve::Linear },
            ];
            table
        },
        EffectType::Tremolo => {
            let table: &'static [ParamSpec] = &[
                ParamSpec { name: "Rate", unit: "Hz", min_milli: 100, max_milli: 20000, default_milli: 400, curve: Curve::Exponential },
                ParamSpec { name: "Depth", unit: "", min_milli: 0, max_milli: 1000, default_milli: 500, curve: Curve::Linear },
            ];
            table
        },
        EffectType::AutoPan => {
            let table: &'static [ParamSpec] = &[
                ParamSpec { name: "Rate", unit: "Hz", min_milli: 100, max_milli: 10000, default_milli: 400, curve: Curve::Exponential },
                ParamSpec { name: "Depth", unit: "", min_milli: 0, max_milli: 1000, default_milli: 700, curve: Curve::Linear },
            ];
            table
        },
        EffectType::Chorus => {
            let table: &'static [ParamSpec] = &[
                ParamSpec { name: "Rate", unit: "Hz", min_milli: 100, max_milli: 5000, default_milli: 300, curve: Curve::Exponential },
                ParamSpec { name: "Depth", unit: "", min_milli: 0, max_milli: 1000, default_milli: 500, curve: Curve::Linear },
            ];
            table
        },
        EffectType::Flanger => {
            let table: &'static [ParamSpec] = &[
                ParamSpec { name: "Rate", unit: "Hz", min_milli: 50, max_milli: 5000, default_milli: 250, curve: Curve::Exponential },
                ParamSpec { name: "Depth", unit: "", min_milli: 0, max_milli: 1000, default_milli: 600, curve: Curve::Linear },
                ParamSpec { name: "Feedback", unit: "", min_milli: 0, max_milli: 900, default_milli: 500, curve: Curve::Linear },
            ];
            table
        },
        EffectType::Phaser => {
            let table: &'static [ParamSpec] = &[
                ParamSpec { name: "Rate", unit: "Hz", min_milli: 50, max_milli: 4000, default_milli: 300, curve: Curve::Exponential },
                ParamSpec { name: "Depth", unit: "", min_milli: 0, max_milli: 1000, default_milli: 700, curve: Curve::Linear },
            ];
            table
        },
        EffectType::Compressor => {
            let table: &'static [ParamSpec] = &[
                ParamSpec { name: "Threshold", unit: "dB", min_milli: -60000, max_milli: 0, default_milli: 700, curve: Curve::Linear },
                ParamSpec { name: "Ratio", unit: ":1", min_milli: 1000, max_milli: 20000, default_milli: 200, curve: Curve::Linear },
                ParamSpec { name: "Attack", unit: "ms", min_milli: 100, max_milli: 100000, default_milli: 200, curve: Curve::Exponential },
                ParamSpec { name: "Release", unit: "ms", min_milli: 5000, max_milli: 1000000, default_milli: 400, curve: Curve::Exponential },
            ];
            table
        },
        EffectType::Equalizer => {
            let table: &'static [ParamSpec] = &[
                ParamSpec { name: "Low", unit: "", min_milli: 0, max_milli: 2000, default_milli: 500, curve: Curve::Linear },
                ParamSpec { name: "Mid", unit: "", min_milli: 0, max_milli: 2000, default_milli: 500, curve: Curve::Linear },
                ParamSpec { name: "High", unit: "", min_milli: 0, max_milli: 2000, default_milli: 500, curve: Curve::Linear },
            ];
            table
        },
        EffectType::Wah => {
            let table: &'static [ParamSpec] = &[
                ParamSpec { name: "Freq", unit: "Hz", min_milli: 200000, max_milli: 3000000, default_milli: 400, curve: Curve::Exponential },
                ParamSpec { name: "Resonance", unit: "", min_milli: 500, max_milli: 12000, default_milli: 600, curve: Curve::Linear },
                ParamSpec { name: "Depth", unit: "", min_milli: 0, max_milli: 1000, default_milli: 1000, curve: Curve::Linear },
            ];
            table
        },
        _ => &[],
    }
}

/// The effects that are implemented this cycle, in selector order.
pub open spec fn implemented() -> Seq<EffectType> {
    seq![
        EffectType::Filter,
        EffectType::Isolator,
        EffectType::Delay,
        EffectType::Reverb,
        EffectType::VinylSim,
        EffectType::DjfxLooper,
        EffectType::Scatter,
        EffectType::Slicer,
        EffectType::Tremolo,
        EffectType::AutoPan,
        EffectType::Chorus,
        EffectType::Flanger,
        EffectType::Phaser,
    ]
}

/// Authoritative list of the effects implemented this cycle: the single
/// source of truth for the frontend selector and `is_implemented`.
pub fn implemented_effects() -> (r: Vec<EffectType>)
    ensures
        r@ == implemented(),
        r@.no_duplicates(),
        r.len() == 13,
{
    let mut v: Vec<EffectType> = Vec::new();
    v.push(EffectType::Filter);
    v.push(EffectType::Isolator);
    v.push(EffectType::Delay);
    v.push(EffectType::Reverb);
    v.push(EffectType::VinylSim);
    v.push(EffectType::DjfxLooper);
    v.push(EffectType::Scatter);
    v.push(EffectType::Slicer);
    v.push(EffectType::Tremolo);
    v.push(EffectType::AutoPan);
    v.push(EffectType::Chorus);
    v.push(EffectType::Flanger);
    v.push(EffectType::Phaser);
    assert(v@ =~= implemented());
    v
}

/// The effects that have a processing implementation: the implemented list
/// plus the compressor and the equalizer, which can be built but are not yet
/// offered in the selector.
pub open spec fn buildable(e: EffectType) -> bool {
    implemented().contains(e) || e == EffectType::Compressor || e == EffectType::Equalizer
}

/// Every implemented effect can be built.
pub proof fn lemma_implemented_buildable(e: EffectType)
    requires
        implemented().contains(e),
    ensures
        buildable(e),
{
}

/// Whether `create_effect` yields a real processing effect for this variant:
/// the implemented effects, the compressor and the equalizer. For any other
/// variant a request to install one is a no-op.
pub fn is_implemented(effect_type: EffectType) -> (r: bool)
    ensures
        r == buildable(effect_type),
{
    match effect_type {
        EffectType::Compressor | EffectType::Equalizer => true,
        _ => in_implemented_list(effect_type),
    }
}

/// Whether the effect is one of `implemented_effects`.
fn in_implemented_list(effect_type: EffectType) -> (r: bool)
    ensures
        r == implemented().contains(effect_type),
{
    let list = implemented_effects();
    let mut i: usize = 0;
    while i < list.len()
        invariant
            list@ == implemented(),
            0 <= i <= list.len(),
            forall|j: int| 0 <= j < i ==> list@[j] != effect_type,
        decreases list.len() - i,
    {
        if list[i] == effect_type {
            assert(list@[i as int] == effect_type);
            return true;
        }
        i = i + 1;
    }
    false
}

/// Equality of two string slices by their characters.
pub(crate) fn str_eq(a: &str, b: &str) -> (r: bool)
    ensures
        r == (a@ == b@),
{
    let x = a.to_owned();
    let y = b.to_owned();
    x == y
}

/// The frontend identifier of an effect; empty for effects that are not
/// implemented this cycle.
pub open spec fn label(e: EffectType) -> &'static str {
    match e {
        EffectType::Filter => "Filter",
        EffectType::Isolator => "Isolator",
        EffectType::Delay => "Delay",
        EffectType::Reverb => "Reverb",
        EffectType::VinylSim => "VinylSim",
        EffectType::DjfxLooper => "DjfxLooper",
        EffectType::Scatter => "Scatter",
        EffectType::Slicer => "Slicer",
        EffectType::Tremolo => "Tremolo",
        EffectType::AutoPan => "AutoPan",
        EffectType::Chorus => "Chorus",
        EffectType::Flanger => "Flanger",
        EffectType::Phaser => "Phaser",
        _ => "",
    }
}

/// `name` is the identifier of the implemented effect `e`.
pub open spec fn names(e: EffectType, name: Seq<char>) -> bool {
    implemented().contains(e) && label(e)@ == name
}

/// What a frontend identifier reads as: the implemented effect it is the
/// identifier of, or nothing.
pub open spec fn parse_effect(name: Seq<char>) -> Option<EffectType> {
    if exists|e: EffectType| names(e, name) {
        Some(choose|e: EffectType| names(e, name))
    } else {
        None
    }
}

proof fn lemma_identifier_facts()
    ensures
        "Isolator"@.len() == 8 && "Isolator"@[0] == 'I',
        "DjfxLooper"@.len() == 10 && "DjfxLooper"@[0] == 'D',
        "VinylSim"@.len() == 8 && "VinylSim"@[0] == 'V',
        "Filter"@.len() == 6 && "Filter"@[0] == 'F',
        "Delay"@.len() == 5 && "Delay"@[0] == 'D',
        "Reverb"@.len() == 6 && "Reverb"@[0] == 'R',
        "Scatter"@.len() == 7 && "Scatter"@[0] == 'S',
        "Slicer"@.len() == 6 && "Slicer"@[0] == 'S',
        "Tremolo"@.len() == 7 && "Tremolo"@[0] == 'T',
        "AutoPan"@.len() == 7 && "AutoPan"@[0] == 'A',
        "Chorus"@.len() == 6 && "Chorus"@[0] == 'C',
        "Flanger"@.len() == 7 && "Flanger"@[0] == 'F',
        "Phaser"@.len() == 6 && "Phaser"@[0] == 'P',
{
    reveal_strlit("Isolator");
    reveal_strlit("DjfxLooper");
    reveal_strlit("VinylSim");
    reveal_strlit("Filter");
    reveal_strlit("Delay");
    reveal_strlit("Reverb");
    reveal_strlit("Scatter");
    reveal_strlit("Slicer");
    reveal_strlit("Tremolo");
    reveal_strlit("AutoPan");
    reveal_strlit("Chorus");
    reveal_strlit("Flanger");
    reveal_strlit("Phaser");
}

/// No two implemented effects share an identifier.
pub proof fn lemma_labels_distinct(e1: EffectType, e2: EffectType)
    requires
        implemented().contains(e1),
        implemented().contains(e2),
        label(e1)@ == label(e2)@,
    ensures
        e1 == e2,
{
    lemma_identifier_facts();
    let k1 = choose|k: int| 0 <= k < implemented().len() && implemented()[k] == e1;
    let k2 = choose|k: int| 0 <= k < implemented().len() && implemented()[k] == e2;
    assert(0 <= k1 < 13 && 0 <= k2 < 13);
}

/// An identifier is read as `e` exactly when it is `e`'s identifier.
proof fn lemma_parse_is(name: Seq<char>, e: EffectType)
    requires
        names(e, name),
    ensures
        parse_effect(name) == Some(e),
{
    let c = choose|x: EffectType| names(x, name);
    lemma_labels_distinct(c, e);
}

/// Maps a frontend effect identifier to its `EffectType`; `None` for unknown
/// or unimplemented identifiers.
pub fn effect_type_from_str(name: &str) -> (r: Option<EffectType>)
    ensures
        r == parse_effect(name@),
{
    if str_eq(name, "Isolator") {
        proof {
            lemma_parse_is(name@, EffectType::Isolator);
        }
        Some(EffectType::Isolator)
    } else if str_eq(name, "DjfxLooper") {
        proof {
            lemma_parse_is(name@, EffectType::DjfxLooper);
        }
        Some(EffectType::DjfxLooper)
    } else if str_eq(name, "VinylSim") {
        proof {
            lemma_parse_is(name@, EffectType::VinylSim);
        }
        Some(EffectType::VinylSim)
    } else if str_eq(name, "Filter") {
        proof {
            lemma_parse_is(name@, EffectType::Filter);
        }
        Some(EffectType::Filter)
    } else if str_eq(name, "Delay") {
        proof {
            lemma_parse_is(name@, EffectType::Delay);
        }
        Some(EffectType::Delay)
    } else if str_eq(name, "Reverb") {
        proof {
            lemma_parse_is(name@, EffectType::Reverb);
        }
        Some(EffectType::Reverb)
    } else if str_eq(name, "Scatter") {
        proof {
            lemma_parse_is(name@, EffectType::Scatter);
        }
        Some(EffectType::Scatter)
    } else if str_eq(name, "Slicer") {
        proof {
            lemma_parse_is(name@, EffectType::Slicer);
        }
        Some(EffectType::Slicer)
    } else if str_eq(name, "Tremolo") {
        proof {
            lemma_parse_is(name@, EffectType::Tremolo);
        }
        Some(EffectType::Tremolo)
    } else if str_eq(name, "AutoPan") {
        proof {
            lemma_parse_is(name@, EffectType::AutoPan);
        }
        Some(EffectType::AutoPan)
    } else if str_eq(name, "Chorus") {
        proof {
            lemma_parse_is(name@, EffectType::Chorus);
        }
        Some(EffectType::Chorus)
    } else if str_eq(name, "Flanger") {
        proof {
            lemma_parse_is(name@, EffectType::Flanger);
        }
        Some(EffectType::Flanger)
    } else if str_eq(name, "Phaser") {
        proof {
            lemma_parse_is(name@, EffectType::Phaser);
        }
        Some(EffectType::Phaser)
    } else {
        assert forall|e: EffectType| !names(e, name@) by {
            if implemented().contains(e) {
                let k = choose|k: int| 0 <= k < implemented().len() && implemented()[k] == e;
                assert(0 <= k < 13);
            }
        }
        None
    }
}

/// A parameter descriptor is usable: its range is non-empty, an exponential
/// curve starts above zero, and its default knob position lies in 0..1.
pub open spec fn param_valid(p: ParamSpec) -> bool {
    &&& p.min_milli < p.max_milli
    &&& p.curve == Curve::Exponential ==> p.min_milli > 0
    &&& 0 <= p.default_milli <= 1000
}

/// Every implemented effect declares at least one parameter, and every
/// parameter of every effect has `min < max`, a positive minimum where its
/// curve is exponential, and a default knob position within 0..1.
pub proof fn lemma_metadata_valid(e: EffectType)
    ensures
        implemented().contains(e) ==> metadata(e).len() > 0,
        forall|i: int| 0 <= i < metadata(e).len() ==> #[trigger] param_valid(metadata(e)[i]),
{
    if implemented().contains(e) {
        let k = choose|k: int| 0 <= k < implemented().len() && implemented()[k] == e;
        assert(0 <= k < 13);
    }
}


/// One populated effect slot: the effect plus its dedicated wet/dry mix
/// amount. The mix is data, never one of the effect's parameters.
pub struct EffectSlot<E, V> {
    pub effect: E,
    pub mix: V,
}

/// The number of slots in every effect chain.
pub const CHAIN_SLOTS: usize = 4;

/// A chain of four effect slots, processed in slot order.
pub struct EffectChain<S> {
    pub slots: [Option<S>; 4],
}

impl<S> EffectChain<S> {
    /// A chain with every slot empty.
    pub fn new() -> (r: Self)
        ensures
            forall|i: int| 0 <= i < 4 ==> r.slots[i] is None,
    {
        EffectChain { slots: [None, None, None, None] }
    }

    /// Puts `item` into `slot` and hands back what must be retired: the
    /// previous occupant (if any), or `item` itself when `slot` is out of
    /// range, in which case the chain is left as it was.
    pub fn install(&mut self, slot: usize, item: S) -> (retired: Option<S>)
        ensures
            slot < CHAIN_SLOTS ==> {
                &&& final(self).slots@ == old(self).slots@.update(slot as int, Some(item))
                &&& retired == old(self).slots[slot as int]
            },
            slot >= CHAIN_SLOTS ==> *final(self) == *old(self) && retired == Some(item),
    {
        if slot < CHAIN_SLOTS {
            let prev = self.slots[slot].take();
            self.slots[slot] = Some(item);
            prev
        } else {
            Some(item)
        }
    }

    /// Empties `slot` and hands back its previous occupant for retirement;
    /// an out-of-range slot changes nothing.
    pub fn remove(&mut self, slot: usize) -> (retired: Option<S>)
        ensures
            slot < CHAIN_SLOTS ==> {
                &&& final(self).slots@ == old(self).slots@.update(slot as int, None)
                &&& retired == old(self).slots[slot as int]
            },
            slot >= CHAIN_SLOTS ==> *final(self) == *old(self) && retired is None,
    {
        if slot < CHAIN_SLOTS {
            self.slots[slot].take()
        } else {
            None
        }
    }
}

} // verus!
