//! The settings tables of a run: one smooth cycle of hues over the species
//! and the same movement tuning for each of them.

use vstd::prelude::*;
use crate::config::{DisplaySettings, GlobalSettings, Rgb, SimulationConfig, SpeciesSettings};
use crate::fixed::ONE;

verus! {

/// Hue of the first species: a fifth of the way round the colour wheel.
pub const FIRST_HUE: u32 = 13_107;

/// The fully saturated, fully bright colour of a hue. A hue is a fraction of
/// the way round the colour wheel; whole turns are dropped. Each sixth of
/// the wheel holds one channel at one, one at zero, and moves the third
/// linearly between the two: upwards in the even sixths, downwards in the
/// odd ones.
pub open spec fn rgb_spec(hue: u32) -> Rgb {
    let one = ONE as int;
    let adj = (hue as int % one) * 6;
    let sector = adj / one;
    let ramp = adj % one;
    let v = (if sector % 2 == 0 {
        ramp
    } else {
        one - ramp
    }) as u32;
    if sector == 0 {
        Rgb { r: ONE, g: v, b: 0 }
    } else if sector == 1 {
        Rgb { r: v, g: ONE, b: 0 }
    } else if sector == 2 {
        Rgb { r: 0, g: ONE, b: v }
    } else if sector == 3 {
        Rgb { r: 0, g: v, b: ONE }
    } else if sector == 4 {
        Rgb { r: v, g: 0, b: ONE }
    } else {
        Rgb { r: ONE, g: 0, b: v }
    }
}

/// The hue of species `i` of `species_count`: the first hue plus the
/// species' share of a full turn.
pub open spec fn species_hue(i: u32, species_count: u32) -> u32 {
    (FIRST_HUE + (i as int * ONE as int) / (species_count as int)) as u32
}

/// The display settings of species `i` of `species_count`.
pub open spec fn species_display(i: u32, species_count: u32) -> DisplaySettings {
    DisplaySettings { color: rgb_spec(species_hue(i, species_count)), weight: ONE }
}

/// The movement tuning every species starts with: a trail weight of 5, a
/// follow weight of 4, 15 cells and 15 radians per unit of time, sensors 25
/// cells ahead and 30 degrees apart, each one cell in radius.
pub open spec fn standard_species() -> SpeciesSettings {
    SpeciesSettings {
        trail_weight: 327_680,
        self_follow: 262_144,
        move_speed: 983_040,
        turn_speed: 156_456,
        sensor_angle: 5_461,
        sensor_offset: 1_638_400,
        sensor_size: 1,
    }
}

/// The constants of the standard run: half a million agents of eight
/// species on a field of 1080 by 1080 cells, five sub-steps of a fiftieth
/// of a time unit per frame, a decay rate of one half and a diffuse rate of
/// four, and no capture.
pub open spec fn standard_config_spec() -> SimulationConfig {
    SimulationConfig {
        agent_count: 500_000,
        width: 1080,
        height: 1080,
        species_count: 8,
        global: GlobalSettings { decay_rate: 32_768, diffuse_rate: 262_144 },
        fixed_delta_time: 1_311,
        runs_per_frame: 5,
        capture: false,
    }
}

/// Every channel of a hue's colour lies between zero and one, one channel
/// is one and another is zero.
pub proof fn lemma_rgb_saturated(hue: u32)
    ensures
        rgb_spec(hue).r <= ONE,
        rgb_spec(hue).g <= ONE,
        rgb_spec(hue).b <= ONE,
        rgb_spec(hue).r == ONE || rgb_spec(hue).g == ONE || rgb_spec(hue).b == ONE,
        rgb_spec(hue).r == 0 || rgb_spec(hue).g == 0 || rgb_spec(hue).b == 0,
{
}

/// The colour does not change when the hue goes once more round the wheel.
pub proof fn lemma_rgb_periodic(hue: u32)
    requires
        hue + ONE <= u32::MAX,
    ensures
        rgb_spec((hue + ONE) as u32) == rgb_spec(hue),
{
}

/// The fully saturated, fully bright colour of a hue.
pub fn rgb(hue: u32) -> (color: Rgb)
    ensures
        color == rgb_spec(hue),
{
    let adj: u32 = (hue % ONE) * 6;
    let sector: u32 = adj / ONE;
    let ramp: u32 = adj % ONE;
    let v: u32 = if sector % 2 == 0 {
        ramp
    } else {
        ONE - ramp
    };
    if sector == 0 {
        Rgb { r: ONE, g: v, b: 0 }
    } else if sector == 1 {
        Rgb { r: v, g: ONE, b: 0 }
    } else if sector == 2 {
        Rgb { r: 0, g: ONE, b: v }
    } else if sector == 3 {
        Rgb { r: 0, g: v, b: ONE }
    } else if sector == 4 {
        Rgb { r: v, g: 0, b: ONE }
    } else {
        Rgb { r: ONE, g: 0, b: v }
    }
}

/// The display table of a run: species `i` has the colour of its hue and a
/// weight of one.
pub fn display_table(species_count: u32) -> (table: Vec<DisplaySettings>)
    ensures
        table@.len() == species_count,
        forall|i: int|
            0 <= i < species_count ==> table@[i] == species_display(i as u32, species_count),
{
    let mut table: Vec<DisplaySettings> = Vec::new();
    let mut i: u32 = 0;
    while i < species_count
        invariant
            i <= species_count,
            table@.len() == i,
            forall|j: int| 0 <= j < i ==> table@[j] == species_display(j as u32, species_count),
        decreases species_count - i,
    {
        assert(i as int * 65536 / (species_count as int) < 65536) by (nonlinear_arith)
            requires
                0 <= i < species_count,
        ;
        let share: u64 = (i as u64) * (ONE as u64) / (species_count as u64);
        let hue: u32 = FIRST_HUE + share as u32;
        table.push(DisplaySettings { color: rgb(hue), weight: ONE });
        i += 1;
    }
    table
}

/// The species table of a run: every species has the standard tuning.
pub fn species_table(species_count: u32) -> (table: Vec<SpeciesSettings>)
    ensures
        table@.len() == species_count,
        forall|i: int| 0 <= i < species_count ==> table@[i] == standard_species(),
{
    let mut table: Vec<SpeciesSettings> = Vec::new();
    let mut i: u32 = 0;
    while i < species_count
        invariant
            i <= species_count,
            table@.len() == i,
            forall|j: int| 0 <= j < i ==> table@[j] == standard_species(),
        decreases species_count - i,
    {
        table.push(
            SpeciesSettings {
                trail_weight: 327_680,
                self_follow: 262_144,
                move_speed: 983_040,
                turn_speed: 156_456,
                sensor_angle: 5_461,
                sensor_offset: 1_638_400,
                sensor_size: 1,
            },
        );
        i += 1;
    }
    table
}

/// The constants of the standard run.
pub fn standard_config() -> (config: SimulationConfig)
    ensures
        config == standard_config_spec(),
        config.wf(),
{
    SimulationConfig {
        agent_count: 500_000,
        width: 1080,
        height: 1080,
        species_count: 8,
        global: GlobalSettings { decay_rate: 32_768, diffuse_rate: 262_144 },
        fixed_delta_time: 1_311,
        runs_per_frame: 5,
        capture: false,
    }
}

} // verus!
