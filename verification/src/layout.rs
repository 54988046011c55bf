//! The device resources of a run and how the four pipeline stages bind them.
//!
//! Nothing here touches a device: the functions say what has to be
//! allocated, how large, and which resource sits in which binding slot for
//! either readable copy of the trail field.

use vstd::prelude::*;
use crate::config::SimulationConfig;
use crate::dispatch::{div_ceil, lemma_div_ceil_is_least_cover, LAYERS_PER_TEXTURE};
use crate::orchestrator::{slices_for, MoldNodeInner, ReadState};

verus! {

/// Bytes of one agent record on the device.
pub const AGENT_STRIDE: u64 = 16;

/// Bytes of one species settings record on the device.
pub const SPECIES_STRIDE: u64 = 28;

/// Bytes of one display settings record on the device.
pub const DISPLAY_STRIDE: u64 = 16;

/// Bytes of the global settings record on the device.
pub const GLOBALS_SIZE: u64 = 8;

/// Bytes of the time record on the device.
pub const TIME_SIZE: u64 = 8;

/// Bytes per pixel of the presentation buffer.
pub const PIXEL_BYTES: u64 = 4;

/// A buffer or texture of the pipeline.
#[derive(Clone, Copy, Debug, PartialEq, Eq)]
pub enum Resource {
    /// The agent population.
    Agents,
    /// The species settings table.
    SpeciesTable,
    /// The display settings table.
    DisplayTable,
    /// The global settings.
    Globals,
    /// The elapsed time and the time step.
    Time,
    /// Copy A of the trail field.
    TrailA,
    /// Copy B of the trail field.
    TrailB,
    /// The deposit field.
    Deposits,
    /// The presentation buffer.
    Presentation,
    /// The host-readable copy of the presentation buffer.
    ReadBack,
}

/// How a stage uses a bound resource.
#[derive(Clone, Copy, Debug, PartialEq, Eq)]
pub enum Access {
    Uniform,
    ReadOnly,
    ReadWrite,
    WriteOnly,
}

/// One slot of a bind group.
#[derive(Clone, Copy, Debug, PartialEq, Eq)]
pub struct Binding {
    pub slot: u32,
    pub resource: Resource,
    pub access: Access,
}

/// A stage of the pipeline.
#[derive(Clone, Copy, Debug, PartialEq, Eq)]
pub enum Stage {
    /// The agent kernel.
    Update,
    /// The diffusion and decay kernel.
    Blur,
    /// The combine kernel.
    Combine,
    /// The composite of the presentation buffer onto the display surface.
    Display,
}

/// Texel layout of a texture.
#[derive(Clone, Copy, Debug, PartialEq, Eq)]
pub enum TexelFormat {
    /// Four half-precision channels: four species layers per slice.
    Rgba16Float,
    /// One single-precision channel: one species layer per slice.
    R32Float,
    /// Four normalised bytes.
    Rgba8Unorm,
}

/// Size and format of a texture.
#[derive(Clone, Copy, Debug, PartialEq, Eq)]
pub struct TextureShape {
    pub width: u32,
    pub height: u32,
    pub layers: u32,
    pub format: TexelFormat,
}

/// What a resource must be usable for.
#[derive(Clone, Copy, Debug, PartialEq, Eq)]
pub struct Usage {
    /// Bound as a storage buffer or storage texture.
    pub storage: bool,
    /// Bound as a uniform buffer.
    pub uniform: bool,
    /// Source of a copy.
    pub copy_src: bool,
    /// Target of a copy, a clear or a write from the host.
    pub copy_dst: bool,
    /// Mapped for reading by the host.
    pub map_read: bool,
}

/// What each resource is used for: the tables, the agents, the fields and
/// the presentation buffer are storage for the kernels; the global settings
/// and the time are uniforms; the time is written and the deposit field
/// cleared between dispatches; the presentation buffer is copied into the
/// read-back buffer, which the host maps.
pub open spec fn usage_spec(resource: Resource) -> Usage {
    let none = Usage {
        storage: false,
        uniform: false,
        copy_src: false,
        copy_dst: false,
        map_read: false,
    };
    match resource {
        Resource::Agents | Resource::SpeciesTable | Resource::DisplayTable | Resource::TrailA
        | Resource::TrailB => Usage { storage: true, ..none },
        Resource::Globals => Usage { uniform: true, ..none },
        Resource::Time => Usage { uniform: true, copy_dst: true, ..none },
        Resource::Deposits => Usage { storage: true, copy_dst: true, ..none },
        Resource::Presentation => Usage { storage: true, copy_src: true, ..none },
        Resource::ReadBack => Usage { copy_dst: true, map_read: true, ..none },
    }
}

/// The size in bytes of one record of a buffer that a stage binds, if the
/// resource is one.
pub open spec fn record_size_spec(resource: Resource) -> Option<u64> {
    match resource {
        Resource::Agents => Some(AGENT_STRIDE),
        Resource::SpeciesTable => Some(SPECIES_STRIDE),
        Resource::DisplayTable => Some(DISPLAY_STRIDE),
        Resource::Globals => Some(GLOBALS_SIZE),
        Resource::Time => Some(TIME_SIZE),
        _ => None,
    }
}

/// The bind group that makes the time visible to a kernel.
pub open spec fn time_group_spec() -> Seq<Binding> {
    seq![Binding { slot: 0, resource: Resource::Time, access: Access::Uniform }]
}

/// Whether a stage binds the time group next to its own: the two kernels
/// of a sub-step do.
pub open spec fn reads_time_spec(stage: Stage) -> bool {
    stage == Stage::Update || stage == Stage::Blur
}

/// The trail copy that is read in state `active`.
pub open spec fn readable_trail(active: ReadState) -> Resource {
    match active {
        ReadState::A => Resource::TrailA,
        ReadState::B => Resource::TrailB,
    }
}

/// The trail copy that is written in state `active`.
pub open spec fn writable_trail(active: ReadState) -> Resource {
    readable_trail(active.flipped())
}

/// The bind group of `stage` when copy `active` is readable.
pub open spec fn bind_group_spec(stage: Stage, active: ReadState) -> Seq<Binding> {
    match stage {
        Stage::Update => seq![
            Binding { slot: 0, resource: Resource::Agents, access: Access::ReadWrite },
            Binding { slot: 1, resource: Resource::SpeciesTable, access: Access::ReadOnly },
            Binding { slot: 2, resource: readable_trail(active), access: Access::ReadOnly },
            Binding { slot: 3, resource: Resource::Deposits, access: Access::WriteOnly },
        ],
        Stage::Blur => seq![
            Binding { slot: 0, resource: Resource::Globals, access: Access::Uniform },
            Binding { slot: 1, resource: readable_trail(active), access: Access::ReadOnly },
            Binding { slot: 2, resource: Resource::Deposits, access: Access::ReadOnly },
            Binding { slot: 3, resource: writable_trail(active), access: Access::WriteOnly },
        ],
        Stage::Combine => seq![
            Binding { slot: 0, resource: Resource::DisplayTable, access: Access::ReadOnly },
            Binding { slot: 1, resource: readable_trail(active), access: Access::ReadOnly },
            Binding { slot: 2, resource: Resource::Presentation, access: Access::WriteOnly },
        ],
        Stage::Display => seq![
            Binding { slot: 0, resource: Resource::Presentation, access: Access::ReadOnly },
        ],
    }
}

/// Whether a binding lets its stage write the resource.
pub open spec fn writes(b: Binding) -> bool {
    b.access == Access::WriteOnly || b.access == Access::ReadWrite
}

/// Whether a binding lets its stage read the resource.
pub open spec fn reads(b: Binding) -> bool {
    b.access != Access::WriteOnly
}

/// Whether a resource is one of the two copies of the trail field.
pub open spec fn is_trail(r: Resource) -> bool {
    r == Resource::TrailA || r == Resource::TrailB
}

/// The shape of a texture resource of the run, if the resource is one.
pub open spec fn texture_shape_spec(config: SimulationConfig, resource: Resource) -> Option<
    TextureShape,
> {
    match resource {
        Resource::TrailA | Resource::TrailB => Some(
            TextureShape {
                width: config.width,
                height: config.height,
                layers: slices_for(config.species_count),
                format: TexelFormat::Rgba16Float,
            },
        ),
        Resource::Deposits => Some(
            TextureShape {
                width: config.width,
                height: config.height,
                layers: config.species_count,
                format: TexelFormat::R32Float,
            },
        ),
        Resource::Presentation => Some(
            TextureShape {
                width: config.width,
                height: config.height,
                layers: 1,
                format: TexelFormat::Rgba8Unorm,
            },
        ),
        _ => None,
    }
}

/// The size in bytes of a buffer resource of the run, if the resource is one.
pub open spec fn buffer_size_spec(config: SimulationConfig, resource: Resource) -> Option<int> {
    match resource {
        Resource::Agents => Some(AGENT_STRIDE as int * config.agent_count as int),
        Resource::SpeciesTable => Some(SPECIES_STRIDE as int * config.species_count as int),
        Resource::DisplayTable => Some(DISPLAY_STRIDE as int * config.species_count as int),
        Resource::Globals => Some(GLOBALS_SIZE as int),
        Resource::Time => Some(TIME_SIZE as int),
        Resource::ReadBack => Some(config.image_bytes()),
        _ => None,
    }
}

/// Bytes of one row of the presentation buffer.
pub open spec fn bytes_per_row_spec(config: SimulationConfig) -> int {
    PIXEL_BYTES as int * config.width as int
}

/// The bind group of `stage` when copy `active` is readable.
pub fn bind_group(stage: Stage, active: ReadState) -> (group: Vec<Binding>)
    ensures
        group@ == bind_group_spec(stage, active),
{
    let read = match active {
        ReadState::A => Resource::TrailA,
        ReadState::B => Resource::TrailB,
    };
    let write = match active {
        ReadState::A => Resource::TrailB,
        ReadState::B => Resource::TrailA,
    };
    let mut group: Vec<Binding> = Vec::new();
    match stage {
        Stage::Update => {
            group.push(Binding { slot: 0, resource: Resource::Agents, access: Access::ReadWrite });
            group.push(
                Binding { slot: 1, resource: Resource::SpeciesTable, access: Access::ReadOnly },
            );
            group.push(Binding { slot: 2, resource: read, access: Access::ReadOnly });
            group.push(Binding { slot: 3, resource: Resource::Deposits, access: Access::WriteOnly });
        },
        Stage::Blur => {
            group.push(Binding { slot: 0, resource: Resource::Globals, access: Access::Uniform });
            group.push(Binding { slot: 1, resource: read, access: Access::ReadOnly });
            group.push(Binding { slot: 2, resource: Resource::Deposits, access: Access::ReadOnly });
            group.push(Binding { slot: 3, resource: write, access: Access::WriteOnly });
        },
        Stage::Combine => {
            group.push(
                Binding { slot: 0, resource: Resource::DisplayTable, access: Access::ReadOnly },
            );
            group.push(Binding { slot: 1, resource: read, access: Access::ReadOnly });
            group.push(
                Binding { slot: 2, resource: Resource::Presentation, access: Access::WriteOnly },
            );
        },
        Stage::Display => {
            group.push(
                Binding { slot: 0, resource: Resource::Presentation, access: Access::ReadOnly },
            );
        },
    }
    assert(group@ =~= bind_group_spec(stage, active));
    group
}

/// The shape of a texture of the run; `None` for a buffer.
pub fn texture_shape(config: &SimulationConfig, resource: Resource) -> (shape: Option<TextureShape>)
    ensures
        shape == texture_shape_spec(*config, resource),
{
    proof {
        lemma_div_ceil_is_least_cover(config.species_count as int, LAYERS_PER_TEXTURE as int);
    }
    match resource {
        Resource::TrailA | Resource::TrailB => Some(
            TextureShape {
                width: config.width,
                height: config.height,
                layers: div_ceil(config.species_count, LAYERS_PER_TEXTURE),
                format: TexelFormat::Rgba16Float,
            },
        ),
        Resource::Deposits => Some(
            TextureShape {
                width: config.width,
                height: config.height,
                layers: config.species_count,
                format: TexelFormat::R32Float,
            },
        ),
        Resource::Presentation => Some(
            TextureShape {
                width: config.width,
                height: config.height,
                layers: 1,
                format: TexelFormat::Rgba8Unorm,
            },
        ),
        _ => None,
    }
}

/// The size in bytes of a buffer of the run; `None` for a texture.
pub fn buffer_size(config: &SimulationConfig, resource: Resource) -> (size: Option<u64>)
    requires
        config.wf(),
    ensures
        size is Some <==> buffer_size_spec(*config, resource) is Some,
        size matches Some(n) ==> buffer_size_spec(*config, resource) == Some(n as int),
{
    match resource {
        Resource::Agents => Some(AGENT_STRIDE * (config.agent_count as u64)),
        Resource::SpeciesTable => Some(SPECIES_STRIDE * (config.species_count as u64)),
        Resource::DisplayTable => Some(DISPLAY_STRIDE * (config.species_count as u64)),
        Resource::Globals => Some(GLOBALS_SIZE),
        Resource::Time => Some(TIME_SIZE),
        Resource::ReadBack => {
            let w: u64 = config.width as u64;
            let h: u64 = config.height as u64;
            assert(w * h <= 0xffff_ffff) by (nonlinear_arith)
                requires
                    4 * (w * h) <= 0xffff_ffff,
            ;
            Some(PIXEL_BYTES * (w * h))
        },
        _ => None,
    }
}

/// What a resource must be usable for.
pub fn usage(resource: Resource) -> (u: Usage)
    ensures
        u == usage_spec(resource),
{
    let none = Usage {
        storage: false,
        uniform: false,
        copy_src: false,
        copy_dst: false,
        map_read: false,
    };
    match resource {
        Resource::Agents | Resource::SpeciesTable | Resource::DisplayTable | Resource::TrailA
        | Resource::TrailB => Usage { storage: true, ..none },
        Resource::Globals => Usage { uniform: true, ..none },
        Resource::Time => Usage { uniform: true, copy_dst: true, ..none },
        Resource::Deposits => Usage { storage: true, copy_dst: true, ..none },
        Resource::Presentation => Usage { storage: true, copy_src: true, ..none },
        Resource::ReadBack => Usage { copy_dst: true, map_read: true, ..none },
    }
}

/// The size in bytes of one record of a buffer that a stage binds; `None`
/// for a texture and for the read-back buffer.
pub fn record_size(resource: Resource) -> (size: Option<u64>)
    ensures
        size == record_size_spec(resource),
{
    match resource {
        Resource::Agents => Some(AGENT_STRIDE),
        Resource::SpeciesTable => Some(SPECIES_STRIDE),
        Resource::DisplayTable => Some(DISPLAY_STRIDE),
        Resource::Globals => Some(GLOBALS_SIZE),
        Resource::Time => Some(TIME_SIZE),
        _ => None,
    }
}

/// The bind group that makes the time visible to a kernel.
pub fn time_group() -> (group: Vec<Binding>)
    ensures
        group@ == time_group_spec(),
{
    let mut group: Vec<Binding> = Vec::new();
    group.push(Binding { slot: 0, resource: Resource::Time, access: Access::Uniform });
    assert(group@ =~= time_group_spec());
    group
}

/// Whether a stage binds the time group next to its own.
pub fn reads_time(stage: Stage) -> (yes: bool)
    ensures
        yes == reads_time_spec(stage),
{
    match stage {
        Stage::Update | Stage::Blur => true,
        _ => false,
    }
}

/// Bytes of one row of the presentation buffer.
pub fn bytes_per_row(config: &SimulationConfig) -> (bytes: u64)
    ensures
        bytes == bytes_per_row_spec(*config),
{
    PIXEL_BYTES * (config.width as u64)
}

/// No stage reads and writes the same copy of the trail field: whichever
/// copy is readable, a stage reads no other trail copy than the readable
/// one and writes no other than the writable one, and the two differ.
pub proof fn lemma_no_read_write_conflict(stage: Stage, active: ReadState, i: int)
    requires
        0 <= i < bind_group_spec(stage, active).len(),
    ensures
        readable_trail(active) != writable_trail(active),
        ({
            let b = bind_group_spec(stage, active)[i];
            is_trail(b.resource) ==> {
                &&& reads(b) ==> b.resource == readable_trail(active)
                &&& writes(b) ==> b.resource == writable_trail(active)
                &&& !(reads(b) && writes(b))
            }
        }),
{
}

/// Every resource a stage binds is usable the way the stage binds it:
/// uniforms as uniforms, everything else as storage.
pub proof fn lemma_bound_resources_are_usable(stage: Stage, active: ReadState, i: int)
    requires
        0 <= i < bind_group_spec(stage, active).len(),
    ensures
        ({
            let b = bind_group_spec(stage, active)[i];
            if b.access == Access::Uniform {
                usage_spec(b.resource).uniform
            } else {
                usage_spec(b.resource).storage
            }
        }),
        usage_spec(time_group_spec()[0].resource).uniform,
{
}

/// Reads follow writes: every sub-step after the first reads the copy of
/// the trail field that the sub-step before it wrote, and so does the
/// combine pass after the last sub-step of a frame.
pub proof fn lemma_reads_follow_writes(start: MoldNodeInner, delta: u32, k: nat)
    requires
        k >= 1,
    ensures
        readable_trail(start.after(delta, k).state) == writable_trail(
            start.after(delta, (k - 1) as nat).state,
        ),
{
}

/// The deposit field is written by the agent kernel and read by the
/// diffusion kernel, and no other stage binds it.
pub proof fn lemma_deposit_field_users(stage: Stage, active: ReadState, i: int)
    requires
        0 <= i < bind_group_spec(stage, active).len(),
        bind_group_spec(stage, active)[i].resource == Resource::Deposits,
    ensures
        stage == Stage::Update || stage == Stage::Blur,
        stage == Stage::Update ==> bind_group_spec(stage, active)[i].access == Access::WriteOnly,
        stage == Stage::Blur ==> bind_group_spec(stage, active)[i].access == Access::ReadOnly,
{
}

} // verus!
