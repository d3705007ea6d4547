//! The plugin's parameter table.
//!
//! Every parameter has a stable id (contiguous from 0, mirrored by the GUI), a
//! display name, whether it is an on/off toggle, and its range and default.
//! Values are held exactly in fixed point, counted in ten-thousandths of the
//! parameter's unit (degrees, metres, dB, Hz, or on/off), so `10000` is one
//! unit.

use vstd::prelude::*;

verus! {

/// Source azimuth in degrees.
pub const P_AZIMUTH: u32 = 0;
/// Source elevation in degrees.
pub const P_ELEVATION: u32 = 1;
/// Source distance in metres.
pub const P_DISTANCE: u32 = 2;
/// Head radius in metres.
pub const P_HEAD_RADIUS: u32 = 3;
/// Largest near-field distance boost in dB.
pub const P_NEAR_GAIN: u32 = 4;
/// Interaural time difference on/off.
pub const P_EN_ITD: u32 = 5;
/// Broadband interaural level difference on/off.
pub const P_EN_ILD: u32 = 6;
/// Far-ear head-shadow shelf on/off.
pub const P_EN_HEAD_SHADOW: u32 = 7;
/// Inverse-distance gain on/off.
pub const P_EN_DISTANCE_GAIN: u32 = 8;
/// Air absorption EQ on/off.
pub const P_EN_AIR: u32 = 9;
/// Proximity low shelf on/off.
pub const P_EN_PROXIMITY: u32 = 10;
/// Per-ear spread of the spectral cue in degrees.
pub const P_EAR_OFFSET: u32 = 11;
/// Overall strength of the spectral cues.
pub const P_SPECTRAL: u32 = 12;
/// Frontal N1 notch frequency in Hz.
pub const P_N1_FRONT: u32 = 13;
/// Frontal N2 notch frequency in Hz.
pub const P_N2_FRONT: u32 = 14;
/// P1 peak frequency in Hz.
pub const P_P1: u32 = 15;
/// P2 peak frequency in Hz.
pub const P_P2: u32 = 16;

/// The number of parameters.
pub const PARAM_COUNT: u32 = 17;

/// Fixed-point ticks per unit of a parameter value.
pub const PARAM_TICKS_PER_UNIT: i64 = 10000;

/// One entry of the parameter table.
#[derive(Clone, Copy, Debug)]
pub struct ParamSpec {
    pub id: u32,
    pub name: &'static str,
    /// An on/off toggle (stepped, 0 or 1).
    pub stepped: bool,
    /// Smallest value, in ticks.
    pub min: i64,
    /// Largest value, in ticks.
    pub max: i64,
    /// Default value, in ticks.
    pub default: i64,
}

/// The table entry for `id`, if there is one.
pub open spec fn param_spec(id: u32) -> Option<ParamSpec> {
    match id {
        0 => Some(ParamSpec {
            id: P_AZIMUTH,
            name: "Azimuth",
            stepped: false,
            min: -1800000i64,
            max: 1800000,
            default: 0,
        }),
        1 => Some(ParamSpec {
            id: P_ELEVATION,
            name: "Elevation",
            stepped: false,
            min: -900000i64,
            max: 900000,
            default: 0,
        }),
        2 => Some(ParamSpec {
            id: P_DISTANCE,
            name: "Distance",
            stepped: false,
            min: 500,
            max: 200000,
            default: 10000,
        }),
        3 => Some(ParamSpec {
            id: P_HEAD_RADIUS,
            name: "Head Radius",
            stepped: false,
            min: 600,
            max: 1100,
            default: 875,
        }),
        4 => Some(ParamSpec {
            id: P_NEAR_GAIN,
            name: "Near Gain",
            stepped: false,
            min: 0,
            max: 240000,
            default: 180000,
        }),
        5 => Some(ParamSpec {
            id: P_EN_ITD,
            name: "ITD",
            stepped: true,
            min: 0,
            max: 10000,
            default: 10000,
        }),
        6 => Some(ParamSpec {
            id: P_EN_ILD,
            name: "ILD",
            stepped: true,
            min: 0,
            max: 10000,
            default: 10000,
        }),
        7 => Some(ParamSpec {
            id: P_EN_HEAD_SHADOW,
            name: "Head Shadow",
            stepped: true,
            min: 0,
            max: 10000,
            default: 10000,
        }),
        8 => Some(ParamSpec {
            id: P_EN_DISTANCE_GAIN,
            name: "Distance Gain",
            stepped: true,
            min: 0,
            max: 10000,
            default: 10000,
        }),
        9 => Some(ParamSpec {
            id: P_EN_AIR,
            name: "Air Absorption",
            stepped: true,
            min: 0,
            max: 10000,
            default: 10000,
        }),
        10 => Some(ParamSpec {
            id: P_EN_PROXIMITY,
            name: "Proximity",
            stepped: true,
            min: 0,
            max: 10000,
            default: 10000,
        }),
        11 => Some(ParamSpec {
            id: P_EAR_OFFSET,
            name: "Ear Offset",
            stepped: false,
            min: 0,
            max: 900000,
            default: 450000,
        }),
        12 => Some(ParamSpec {
            id: P_SPECTRAL,
            name: "Spectral Strength",
            stepped: false,
            min: 0,
            max: 20000,
            default: 10000,
        }),
        13 => Some(ParamSpec {
            id: P_N1_FRONT,
            name: "N1 Front",
            stepped: false,
            min: 40000000,
            max: 140000000,
            default: 80000000,
        }),
        14 => Some(ParamSpec {
            id: P_N2_FRONT,
            name: "N2 Front",
            stepped: false,
            min: 60000000,
            max: 160000000,
            default: 115000000,
        }),
        15 => Some(ParamSpec {
            id: P_P1,
            name: "P1 Peak",
            stepped: false,
            min: 30000000,
            max: 70000000,
            default: 45000000,
        }),
        16 => Some(ParamSpec {
            id: P_P2,
            name: "P2 Peak",
            stepped: false,
            min: 60000000,
            max: 110000000,
            default: 85000000,
        }),
        _ => None,
    }
}

/// Looks up the parameter with id `id`.
pub fn param(id: u32) -> (r: Option<ParamSpec>)
    ensures
        r == param_spec(id),
{
    match id {
        P_AZIMUTH => Some(ParamSpec {
            id: P_AZIMUTH,
            name: "Azimuth",
            stepped: false,
            min: -1800000i64,
            max: 1800000,
            default: 0,
        }),
        P_ELEVATION => Some(ParamSpec {
            id: P_ELEVATION,
            name: "Elevation",
            stepped: false,
            min: -900000i64,
            max: 900000,
            default: 0,
        }),
        P_DISTANCE => Some(ParamSpec {
            id: P_DISTANCE,
            name: "Distance",
            stepped: false,
            min: 500,
            max: 200000,
            default: 10000,
        }),
        P_HEAD_RADIUS => Some(ParamSpec {
            id: P_HEAD_RADIUS,
            name: "Head Radius",
            stepped: false,
            min: 600,
            max: 1100,
            default: 875,
        }),
        P_NEAR_GAIN => Some(ParamSpec {
            id: P_NEAR_GAIN,
            name: "Near Gain",
            stepped: false,
            min: 0,
            max: 240000,
            default: 180000,
        }),
        P_EN_ITD => Some(ParamSpec {
            id: P_EN_ITD,
            name: "ITD",
            stepped: true,
            min: 0,
            max: 10000,
            default: 10000,
        }),
        P_EN_ILD => Some(ParamSpec {
            id: P_EN_ILD,
            name: "ILD",
            stepped: true,
            min: 0,
            max: 10000,
            default: 10000,
        }),
        P_EN_HEAD_SHADOW => Some(ParamSpec {
            id: P_EN_HEAD_SHADOW,
            name: "Head Shadow",
            stepped: true,
            min: 0,
            max: 10000,
            default: 10000,
        }),
        P_EN_DISTANCE_GAIN => Some(ParamSpec {
            id: P_EN_DISTANCE_GAIN,
            name: "Distance Gain",
            stepped: true,
            min: 0,
            max: 10000,
            default: 10000,
        }),
        P_EN_AIR => Some(ParamSpec {
            id: P_EN_AIR,
            name: "Air Absorption",
            stepped: true,
            min: 0,
            max: 10000,
            default: 10000,
        }),
        P_EN_PROXIMITY => Some(ParamSpec {
            id: P_EN_PROXIMITY,
            name: "Proximity",
            stepped: true,
            min: 0,
            max: 10000,
            default: 10000,
        }),
        P_EAR_OFFSET => Some(ParamSpec {
            id: P_EAR_OFFSET,
            name: "Ear Offset",
            stepped: false,
            min: 0,
            max: 900000,
            default: 450000,
        }),
        P_SPECTRAL => Some(ParamSpec {
            id: P_SPECTRAL,
            name: "Spectral Strength",
            stepped: false,
            min: 0,
            max: 20000,
            default: 10000,
        }),
        P_N1_FRONT => Some(ParamSpec {
            id: P_N1_FRONT,
            name: "N1 Front",
            stepped: false,
            min: 40000000,
            max: 140000000,
            default: 80000000,
        }),
        P_N2_FRONT => Some(ParamSpec {
            id: P_N2_FRONT,
            name: "N2 Front",
            stepped: false,
            min: 60000000,
            max: 160000000,
            default: 115000000,
        }),
        P_P1 => Some(ParamSpec {
            id: P_P1,
            name: "P1 Peak",
            stepped: false,
            min: 30000000,
            max: 70000000,
            default: 45000000,
        }),
        P_P2 => Some(ParamSpec {
            id: P_P2,
            name: "P2 Peak",
            stepped: false,
            min: 60000000,
            max: 110000000,
            default: 85000000,
        }),
        _ => None,
    }
}

/// The whole table, in id order.
pub fn params() -> (r: Vec<ParamSpec>)
    ensures
        r.len() == PARAM_COUNT,
        forall|i: int| 0 <= i < r.len() ==> param_spec(i as u32) == Some(#[trigger] r@[i]),
{
    let mut r: Vec<ParamSpec> = Vec::new();
    let mut id: u32 = 0;
    while id < PARAM_COUNT
        invariant
            id <= PARAM_COUNT,
            r.len() == id,
            forall|i: int| 0 <= i < r.len() ==> param_spec(i as u32) == Some(#[trigger] r@[i]),
        decreases PARAM_COUNT - id,
    {
        r.push(param(id).unwrap());
        id += 1;
    }
    r
}

/// Parameter ids are contiguous from zero: exactly the ids below
/// `PARAM_COUNT` have an entry, and each entry carries its own id (so no two
/// entries share one).
pub proof fn lemma_param_ids_contiguous(id: u32)
    ensures
        param_spec(id) is Some <==> id < PARAM_COUNT,
        param_spec(id) is Some ==> param_spec(id)->0.id == id,
{
}

/// Every parameter has a non-empty range that holds its default.
pub proof fn lemma_param_default_in_range(id: u32)
    requires
        id < PARAM_COUNT,
    ensures
        param_spec(id)->0.min < param_spec(id)->0.max,
        param_spec(id)->0.min <= param_spec(id)->0.default <= param_spec(id)->0.max,
{
}

/// The position controls: azimuth over the full circle and elevation over the
/// full vertical range, both starting in front on the horizon, and distance
/// from 5 cm to 20 m starting at the 1 m reference distance.
pub proof fn lemma_position_params()
    ensures
        param_spec(P_AZIMUTH) is Some,
        param_spec(P_AZIMUTH)->0.name == "Azimuth",
        !param_spec(P_AZIMUTH)->0.stepped,
        param_spec(P_AZIMUTH)->0.min == -180 * PARAM_TICKS_PER_UNIT,
        param_spec(P_AZIMUTH)->0.max == 180 * PARAM_TICKS_PER_UNIT,
        param_spec(P_AZIMUTH)->0.default == 0,
        param_spec(P_ELEVATION) is Some,
        param_spec(P_ELEVATION)->0.name == "Elevation",
        !param_spec(P_ELEVATION)->0.stepped,
        param_spec(P_ELEVATION)->0.min == -90 * PARAM_TICKS_PER_UNIT,
        param_spec(P_ELEVATION)->0.max == 90 * PARAM_TICKS_PER_UNIT,
        param_spec(P_ELEVATION)->0.default == 0,
        param_spec(P_DISTANCE) is Some,
        param_spec(P_DISTANCE)->0.name == "Distance",
        !param_spec(P_DISTANCE)->0.stepped,
        param_spec(P_DISTANCE)->0.min == 1 * PARAM_TICKS_PER_UNIT / 20,
        param_spec(P_DISTANCE)->0.max == 20 * PARAM_TICKS_PER_UNIT,
        param_spec(P_DISTANCE)->0.default == 1 * PARAM_TICKS_PER_UNIT,
{
}

/// The head radius (6 to 11 cm, default 8.75 cm), the near-field boost (0 to
/// 24 dB, default 18 dB), the per-ear spectral spread (0 to 90 degrees, default
/// 45) and the spectral strength (0 to 2, default 1).
pub proof fn lemma_head_and_gain_params()
    ensures
        param_spec(P_HEAD_RADIUS) is Some,
        param_spec(P_HEAD_RADIUS)->0.name == "Head Radius",
        !param_spec(P_HEAD_RADIUS)->0.stepped,
        param_spec(P_HEAD_RADIUS)->0.min == 3 * PARAM_TICKS_PER_UNIT / 50,
        param_spec(P_HEAD_RADIUS)->0.max == 11 * PARAM_TICKS_PER_UNIT / 100,
        param_spec(P_HEAD_RADIUS)->0.default == 7 * PARAM_TICKS_PER_UNIT / 80,
        param_spec(P_NEAR_GAIN) is Some,
        param_spec(P_NEAR_GAIN)->0.name == "Near Gain",
        !param_spec(P_NEAR_GAIN)->0.stepped,
        param_spec(P_NEAR_GAIN)->0.min == 0,
        param_spec(P_NEAR_GAIN)->0.max == 24 * PARAM_TICKS_PER_UNIT,
        param_spec(P_NEAR_GAIN)->0.default == 18 * PARAM_TICKS_PER_UNIT,
        param_spec(P_EAR_OFFSET) is Some,
        param_spec(P_EAR_OFFSET)->0.name == "Ear Offset",
        !param_spec(P_EAR_OFFSET)->0.stepped,
        param_spec(P_EAR_OFFSET)->0.min == 0,
        param_spec(P_EAR_OFFSET)->0.max == 90 * PARAM_TICKS_PER_UNIT,
        param_spec(P_EAR_OFFSET)->0.default == 45 * PARAM_TICKS_PER_UNIT,
        param_spec(P_SPECTRAL) is Some,
        param_spec(P_SPECTRAL)->0.name == "Spectral Strength",
        !param_spec(P_SPECTRAL)->0.stepped,
        param_spec(P_SPECTRAL)->0.min == 0,
        param_spec(P_SPECTRAL)->0.max == 2 * PARAM_TICKS_PER_UNIT,
        param_spec(P_SPECTRAL)->0.default == 1 * PARAM_TICKS_PER_UNIT,
{
}

/// The spectral feature frequencies in Hz: N1 4-14 kHz (default 8 kHz), N2
/// 6-16 kHz (default 11.5 kHz), P1 3-7 kHz (default 4.5 kHz), P2 6-11 kHz
/// (default 8.5 kHz).
pub proof fn lemma_spectral_feature_params()
    ensures
        param_spec(P_N1_FRONT) is Some,
        param_spec(P_N1_FRONT)->0.name == "N1 Front",
        !param_spec(P_N1_FRONT)->0.stepped,
        param_spec(P_N1_FRONT)->0.min == 4000 * PARAM_TICKS_PER_UNIT,
        param_spec(P_N1_FRONT)->0.max == 14000 * PARAM_TICKS_PER_UNIT,
        param_spec(P_N1_FRONT)->0.default == 8000 * PARAM_TICKS_PER_UNIT,
        param_spec(P_N2_FRONT) is Some,
        param_spec(P_N2_FRONT)->0.name == "N2 Front",
        !param_spec(P_N2_FRONT)->0.stepped,
        param_spec(P_N2_FRONT)->0.min == 6000 * PARAM_TICKS_PER_UNIT,
        param_spec(P_N2_FRONT)->0.max == 16000 * PARAM_TICKS_PER_UNIT,
        param_spec(P_N2_FRONT)->0.default == 11500 * PARAM_TICKS_PER_UNIT,
        param_spec(P_P1) is Some,
        param_spec(P_P1)->0.name == "P1 Peak",
        !param_spec(P_P1)->0.stepped,
        param_spec(P_P1)->0.min == 3000 * PARAM_TICKS_PER_UNIT,
        param_spec(P_P1)->0.max == 7000 * PARAM_TICKS_PER_UNIT,
        param_spec(P_P1)->0.default == 4500 * PARAM_TICKS_PER_UNIT,
        param_spec(P_P2) is Some,
        param_spec(P_P2)->0.name == "P2 Peak",
        !param_spec(P_P2)->0.stepped,
        param_spec(P_P2)->0.min == 6000 * PARAM_TICKS_PER_UNIT,
        param_spec(P_P2)->0.max == 11000 * PARAM_TICKS_PER_UNIT,
        param_spec(P_P2)->0.default == 8500 * PARAM_TICKS_PER_UNIT,
{
}

/// The on/off toggles are exactly the ids from `P_EN_ITD` to `P_EN_PROXIMITY`
/// (ITD, ILD, head shadow, distance gain, air absorption, proximity); each
/// ranges over off and on and is on by default.
pub proof fn lemma_toggles_default_on(id: u32)
    requires
        param_spec(id) is Some,
    ensures
        param_spec(id)->0.stepped <==> P_EN_ITD <= id <= P_EN_PROXIMITY,
        param_spec(id)->0.stepped ==> param_spec(id)->0.default == PARAM_TICKS_PER_UNIT,
        param_spec(id)->0.stepped ==> param_spec(id)->0.min == 0,
        param_spec(id)->0.stepped ==> param_spec(id)->0.max == PARAM_TICKS_PER_UNIT,
{
}

/// The names of the toggles.
pub proof fn lemma_toggle_names()
    ensures
        param_spec(P_EN_ITD)->0.name == "ITD",
        param_spec(P_EN_ILD)->0.name == "ILD",
        param_spec(P_EN_HEAD_SHADOW)->0.name == "Head Shadow",
        param_spec(P_EN_DISTANCE_GAIN)->0.name == "Distance Gain",
        param_spec(P_EN_AIR)->0.name == "Air Absorption",
        param_spec(P_EN_PROXIMITY)->0.name == "Proximity",
{
}

/// Values are counted in ten-thousandths of a unit.
pub proof fn lemma_fixed_point_scale()
    ensures
        PARAM_TICKS_PER_UNIT == 10000,
        PARAM_COUNT == 17,
{
}

/// The toggles range over exactly off (0) and on (one unit).
pub proof fn lemma_toggle_range(id: u32)
    requires
        param_spec(id) is Some,
        param_spec(id)->0.stepped,
    ensures
        param_spec(id)->0.min == 0,
        param_spec(id)->0.max == PARAM_TICKS_PER_UNIT,
{
}

} // verus!
