//! The immutable configuration of a run.
//!
//! Rates, weights, speeds and colours are 16.16 fixed-point numbers; angles
//! are fractions of a turn in the same format (see [`crate::fixed`]).

use vstd::prelude::*;

verus! {

/// Largest number of cells a field may hold over all its layers, and the
/// largest number of bytes in a presentation buffer.
pub const MAX_FIELD_CELLS: u64 = 0xffff_ffff;

/// Largest sensor radius, in cells.
pub const MAX_SENSOR_SIZE: u32 = 64;

/// Simulation-wide constants.
#[derive(Clone, Copy, Debug, PartialEq, Eq)]
pub struct GlobalSettings {
    /// Fraction of the trail lost per unit of time.
    pub decay_rate: u32,
    /// Strength, per unit of time, of the blend of a cell with its neighbours.
    pub diffuse_rate: u32,
}

/// Movement and deposit tuning of one species.
#[derive(Clone, Copy, Debug, PartialEq, Eq)]
pub struct SpeciesSettings {
    /// Amount added to the deposit field by one agent in one sub-step.
    pub trail_weight: u32,
    /// Weight of the other species' trails in a sensor reading.
    pub self_follow: u32,
    /// Distance covered per unit of time, in cells.
    pub move_speed: u32,
    /// Turn per unit of time, in turns.
    pub turn_speed: u32,
    /// Angle between the forward sensor and each side sensor, in turns.
    pub sensor_angle: u32,
    /// Distance from the agent to its sensors, in cells.
    pub sensor_offset: u32,
    /// Radius of the square neighbourhood a sensor averages, in whole cells.
    pub sensor_size: u32,
}

/// A colour with three fixed-point channels.
#[derive(Clone, Copy, Debug, PartialEq, Eq)]
pub struct Rgb {
    pub r: u32,
    pub g: u32,
    pub b: u32,
}

/// Presentation of one species.
#[derive(Clone, Copy, Debug, PartialEq, Eq)]
pub struct DisplaySettings {
    pub color: Rgb,
    /// Scale of the species' contribution to a pixel.
    pub weight: u32,
}

/// Why a simulation cannot be set up.
#[derive(Clone, Copy, Debug, PartialEq, Eq)]
pub enum FatalInitError {
    /// The species count is zero.
    NoSpecies,
    /// The field has zero width or zero height.
    EmptyField,
    /// The fixed time step is zero.
    ZeroTimeStep,
    /// A displayed frame would run no sub-step.
    NoSubSteps,
    /// The field needs more cells, or the presentation buffer more bytes,
    /// than `MAX_FIELD_CELLS`.
    ResourceExhausted,
    /// A settings table does not have one entry per species.
    TableLength,
    /// A species has a sensor radius above `MAX_SENSOR_SIZE`.
    SensorTooLarge,
    /// The population does not hold `agent_count` agents.
    PopulationSize,
    /// An agent names a species outside the settings table.
    UnknownSpecies,
}

/// The constants of one run.
#[derive(Clone, Copy, Debug, PartialEq, Eq)]
pub struct SimulationConfig {
    pub agent_count: u32,
    pub width: u32,
    pub height: u32,
    pub species_count: u32,
    pub global: GlobalSettings,
    /// Simulated time covered by one sub-step.
    pub fixed_delta_time: u32,
    /// Sub-steps run for each displayed frame.
    pub runs_per_frame: u32,
    /// Whether the image of every frame is also handed out for capture.
    pub capture: bool,
}

impl SimulationConfig {
    /// Number of cells of a field with one layer per species.
    pub open spec fn cell_count(&self) -> int {
        self.width as int * self.height as int * self.species_count as int
    }

    /// Number of bytes of a four-channel image of the field's size.
    pub open spec fn image_bytes(&self) -> int {
        4 * (self.width as int * self.height as int)
    }

    /// The first reason, in the order of `FatalInitError`, for which the
    /// configuration cannot be used, if there is one.
    pub open spec fn defect(&self) -> Option<FatalInitError> {
        if self.species_count == 0 {
            Some(FatalInitError::NoSpecies)
        } else if self.width == 0 || self.height == 0 {
            Some(FatalInitError::EmptyField)
        } else if self.fixed_delta_time == 0 {
            Some(FatalInitError::ZeroTimeStep)
        } else if self.runs_per_frame == 0 {
            Some(FatalInitError::NoSubSteps)
        } else if self.cell_count() > MAX_FIELD_CELLS || self.image_bytes() > MAX_FIELD_CELLS {
            Some(FatalInitError::ResourceExhausted)
        } else {
            None
        }
    }

    /// A configuration a simulation can be built from.
    pub open spec fn wf(&self) -> bool {
        self.defect() is None
    }

    /// Accepts the configuration or names its first defect.
    pub fn validate(&self) -> (res: Result<(), FatalInitError>)
        ensures
            res is Ok <==> self.wf(),
            res matches Err(e) ==> self.defect() == Some(e),
    {
        if self.species_count == 0 {
            return Err(FatalInitError::NoSpecies);
        }
        if self.width == 0 || self.height == 0 {
            return Err(FatalInitError::EmptyField);
        }
        if self.fixed_delta_time == 0 {
            return Err(FatalInitError::ZeroTimeStep);
        }
        if self.runs_per_frame == 0 {
            return Err(FatalInitError::NoSubSteps);
        }
        let w: u64 = self.width as u64;
        let h: u64 = self.height as u64;
        let s: u64 = self.species_count as u64;
        assert(w * h <= 0xffff_ffff * 0xffff_ffff) by (nonlinear_arith)
            requires
                0 <= w <= 0xffff_ffff,
                0 <= h <= 0xffff_ffff,
        ;
        let area: u64 = w * h;
        if area > MAX_FIELD_CELLS / 4 {
            assert(self.image_bytes() > MAX_FIELD_CELLS);
            return Err(FatalInitError::ResourceExhausted);
        }
        assert(area * s <= 0x3fff_ffff * 0xffff_ffff) by (nonlinear_arith)
            requires
                0 <= area <= 0x3fff_ffff,
                0 <= s <= 0xffff_ffff,
        ;
        if area * s > MAX_FIELD_CELLS {
            return Err(FatalInitError::ResourceExhausted);
        }
        Ok(())
    }
}

impl SpeciesSettings {
    /// Settings the agent kernel can work with.
    pub open spec fn wf(&self) -> bool {
        self.sensor_size <= MAX_SENSOR_SIZE
    }
}

/// Whether every entry of a species table is usable.
pub open spec fn species_table_wf(table: Seq<SpeciesSettings>) -> bool {
    forall|i: int| 0 <= i < table.len() ==> (#[trigger] table[i]).wf()
}

/// The first defect of a pair of settings tables for `species_count`
/// species, if there is one.
pub open spec fn tables_defect(
    species_count: u32,
    species: Seq<SpeciesSettings>,
    display: Seq<DisplaySettings>,
) -> Option<FatalInitError> {
    if species.len() != species_count || display.len() != species_count {
        Some(FatalInitError::TableLength)
    } else if !species_table_wf(species) {
        Some(FatalInitError::SensorTooLarge)
    } else {
        None
    }
}

/// Checks that both settings tables have one usable entry per species.
pub fn validate_tables(
    species_count: u32,
    species: &Vec<SpeciesSettings>,
    display: &Vec<DisplaySettings>,
) -> (res: Result<(), FatalInitError>)
    ensures
        res is Ok <==> tables_defect(species_count, species@, display@) is None,
        res matches Err(e) ==> tables_defect(species_count, species@, display@) == Some(e),
{
    if species.len() != species_count as usize || display.len() != species_count as usize {
        return Err(FatalInitError::TableLength);
    }
    let mut i: usize = 0;
    while i < species.len()
        invariant
            i <= species.len(),
            species.len() == species_count,
            display.len() == species_count,
            forall|j: int| 0 <= j < i ==> (#[trigger] species@[j]).wf(),
        decreases species.len() - i,
    {
        if species[i].sensor_size > MAX_SENSOR_SIZE {
            assert(!species@[i as int].wf());
            return Err(FatalInitError::SensorTooLarge);
        }
        i += 1;
    }
    Ok(())
}

} // verus!
