//! The frame orchestrator: a two-state machine that sequences the sub-steps
//! of a displayed frame and says, for each dispatch, which copy of the trail
//! field is read and which is written.
//!
//! The orchestrator issues no device call itself. It turns its state into a
//! list of [`Command`]s; whoever owns the device runs them in order.

use vstd::prelude::*;
use crate::config::SimulationConfig;
use crate::dispatch::{div_ceil, div_ceil_spec, lemma_div_ceil_is_least_cover, LAYERS_PER_TEXTURE,
    WORKGROUP_SIZE};

verus! {

/// Which copy of the trail field holds the current, readable state.
#[derive(Clone, Copy, Debug, PartialEq, Eq)]
pub enum ReadState {
    A,
    B,
}

impl ReadState {
    /// The other copy: the one a sub-step writes.
    pub open spec fn flipped(self) -> ReadState {
        match self {
            ReadState::A => ReadState::B,
            ReadState::B => ReadState::A,
        }
    }

    /// The other copy: the one a sub-step writes.
    pub fn flip(self) -> (other: ReadState)
        ensures
            other == self.flipped(),
            other != self,
    {
        match self {
            ReadState::A => ReadState::B,
            ReadState::B => ReadState::A,
        }
    }
}

/// One unit of work for the device, in the order it must be issued.
#[derive(Clone, Copy, Debug, PartialEq, Eq)]
pub enum Command {
    /// Make the elapsed time and the time step visible to the kernels.
    WriteTime { total: u64, delta: u32 },
    /// Run the agent kernel, reading trail copy `read`, over `groups` groups.
    DispatchUpdate { read: ReadState, groups: u32 },
    /// Run the diffusion kernel, reading trail copy `read` and the deposit
    /// field and writing the other trail copy.
    DispatchBlur { read: ReadState, groups_x: u32, groups_y: u32, groups_z: u32 },
    /// Set `layers` layers of the deposit field to zero.
    ClearDeposits { layers: u32 },
    /// Run the combine kernel on trail copy `read`.
    DispatchCombine { read: ReadState, groups_x: u32, groups_y: u32 },
    /// Hand the presentation buffer out as frame number `frame_index`.
    Capture { frame_index: u64 },
    /// Composite the presentation buffer onto the display surface.
    Present,
}

/// A failure met while a frame's commands were run. None of them touches
/// the simulation state.
#[derive(Clone, Copy, Debug, PartialEq, Eq)]
pub enum FrameError {
    /// The display surface could not be had for this frame.
    TransientPresentError,
    /// The captured frame could not be stored.
    CaptureError,
}

/// The orchestrator's state: elapsed simulated time and the readable copy.
#[derive(Clone, Copy, Debug, PartialEq, Eq)]
pub struct MoldNodeInner {
    /// Elapsed simulated time, as a fixed-point number.
    pub time: u64,
    /// The copy of the trail field the next sub-step reads.
    pub state: ReadState,
}

/// Workgroups along one axis that cover `items` invocations.
pub open spec fn groups_for(items: u32) -> u32 {
    div_ceil_spec(items as int, WORKGROUP_SIZE as int) as u32
}

/// Texture slices that hold `species` packed layers.
pub open spec fn slices_for(species: u32) -> u32 {
    div_ceil_spec(species as int, LAYERS_PER_TEXTURE as int) as u32
}

impl MoldNodeInner {
    /// The state before the first sub-step: no time elapsed, copy A readable.
    pub open spec fn initial() -> MoldNodeInner {
        MoldNodeInner { time: 0, state: ReadState::A }
    }

    /// The state one sub-step of length `delta` later. The clock stops at
    /// the largest time it can hold.
    pub open spec fn advanced(self, delta: u32) -> MoldNodeInner {
        MoldNodeInner {
            time: if self.time + delta > u64::MAX {
                u64::MAX
            } else {
                (self.time + delta) as u64
            },
            state: self.state.flipped(),
        }
    }

    /// The state `k` sub-steps of length `delta` later.
    pub open spec fn after(self, delta: u32, k: nat) -> MoldNodeInner
        decreases k,
    {
        if k == 0 {
            self
        } else {
            self.after(delta, (k - 1) as nat).advanced(delta)
        }
    }

    /// The commands of the sub-step that starts in this state.
    pub open spec fn sub_step_commands(self, config: SimulationConfig) -> Seq<Command> {
        seq![
            Command::WriteTime { total: self.time, delta: config.fixed_delta_time },
            Command::DispatchUpdate { read: self.state, groups: groups_for(config.agent_count) },
            Command::DispatchBlur {
                read: self.state,
                groups_x: groups_for(config.width),
                groups_y: groups_for(config.height),
                groups_z: slices_for(config.species_count),
            },
            Command::ClearDeposits { layers: config.species_count },
        ]
    }

    /// The commands of the first `k` sub-steps from this state.
    pub open spec fn sub_steps_plan(self, config: SimulationConfig, k: nat) -> Seq<Command>
        decreases k,
    {
        if k == 0 {
            Seq::empty()
        } else {
            self.sub_steps_plan(config, (k - 1) as nat) + self.after(
                config.fixed_delta_time,
                (k - 1) as nat,
            ).sub_step_commands(config)
        }
    }

    /// Number of whole frames completed in this state, less one: the index
    /// under which the frame that just ended is captured.
    pub open spec fn frame_index(self, config: SimulationConfig) -> int {
        self.time as int / (config.fixed_delta_time as int * config.runs_per_frame as int) - 1
    }

    /// What follows the sub-steps of a frame that ends in this state.
    pub open spec fn closing_commands(self, config: SimulationConfig, display_enabled: bool) -> Seq<
        Command,
    > {
        seq![
            Command::DispatchCombine {
                read: self.state,
                groups_x: groups_for(config.width),
                groups_y: groups_for(config.height),
            },
        ] + (if config.capture {
            seq![Command::Capture { frame_index: self.frame_index(config) as u64 }]
        } else {
            Seq::empty()
        }) + (if display_enabled {
            seq![Command::Present]
        } else {
            Seq::empty()
        })
    }

    /// All commands of the displayed frame that starts in this state.
    pub open spec fn frame_plan(self, config: SimulationConfig, display_enabled: bool) -> Seq<
        Command,
    > {
        let runs = config.runs_per_frame as nat;
        self.sub_steps_plan(config, runs) + self.after(
            config.fixed_delta_time,
            runs,
        ).closing_commands(config, display_enabled)
    }

    /// The state before the first sub-step.
    pub fn new() -> (s: MoldNodeInner)
        ensures
            s == MoldNodeInner::initial(),
    {
        MoldNodeInner { time: 0, state: ReadState::A }
    }

    /// Moves to the state one sub-step later: the time advances by `delta`
    /// and the two trail copies swap roles.
    pub fn advance(&mut self, delta: u32)
        ensures
            *final(self) == old(self).advanced(delta),
    {
        self.time = if self.time > u64::MAX - delta as u64 {
            u64::MAX
        } else {
            self.time + delta as u64
        };
        self.state = self.state.flip();
    }

    /// Plans one sub-step and moves to the state that follows it: the time
    /// advances by the fixed step and the two trail copies swap roles.
    pub fn sub_step(&mut self, config: &SimulationConfig) -> (commands: Vec<Command>)
        ensures
            *final(self) == old(self).advanced(config.fixed_delta_time),
            commands@ == old(self).sub_step_commands(*config),
    {
        proof {
            lemma_div_ceil_is_least_cover(config.agent_count as int, WORKGROUP_SIZE as int);
            lemma_div_ceil_is_least_cover(config.width as int, WORKGROUP_SIZE as int);
            lemma_div_ceil_is_least_cover(config.height as int, WORKGROUP_SIZE as int);
            lemma_div_ceil_is_least_cover(config.species_count as int, LAYERS_PER_TEXTURE as int);
        }
        let mut commands: Vec<Command> = Vec::new();
        commands.push(Command::WriteTime { total: self.time, delta: config.fixed_delta_time });
        commands.push(
            Command::DispatchUpdate {
                read: self.state,
                groups: div_ceil(config.agent_count, WORKGROUP_SIZE),
            },
        );
        commands.push(
            Command::DispatchBlur {
                read: self.state,
                groups_x: div_ceil(config.width, WORKGROUP_SIZE),
                groups_y: div_ceil(config.height, WORKGROUP_SIZE),
                groups_z: div_ceil(config.species_count, LAYERS_PER_TEXTURE),
            },
        );
        commands.push(Command::ClearDeposits { layers: config.species_count });
        assert(commands@ =~= self.sub_step_commands(*config));
        self.advance(config.fixed_delta_time);
        commands
    }

    /// Plans one displayed frame: `runs_per_frame` sub-steps, then the
    /// combine pass on the copy that is readable after them, then capture
    /// and presentation where they are enabled. The state advances by all
    /// sub-steps whether or not the frame is presented.
    pub fn advance_and_present(&mut self, config: &SimulationConfig, display_enabled: bool) -> (plan:
        Vec<Command>)
        requires
            config.wf(),
        ensures
            *final(self) == old(self).after(config.fixed_delta_time, config.runs_per_frame as nat),
            plan@ == old(self).frame_plan(*config, display_enabled),
    {
        let ghost start = *self;
        let delta: u32 = config.fixed_delta_time;
        let runs: u32 = config.runs_per_frame;
        let mut plan: Vec<Command> = Vec::new();
        let mut i: u32 = 0;
        while i < runs
            invariant
                i <= runs,
                delta == config.fixed_delta_time,
                runs == config.runs_per_frame,
                *self == start.after(delta, i as nat),
                plan@ == start.sub_steps_plan(*config, i as nat),
            decreases runs - i,
        {
            let mut commands = self.sub_step(config);
            plan.append(&mut commands);
            i += 1;
        }
        proof {
            lemma_div_ceil_is_least_cover(config.width as int, WORKGROUP_SIZE as int);
            lemma_div_ceil_is_least_cover(config.height as int, WORKGROUP_SIZE as int);
            lemma_after_time(start, delta, runs as nat);
        }
        let ghost end = *self;
        let ghost steps = plan@;
        plan.push(
            Command::DispatchCombine {
                read: self.state,
                groups_x: div_ceil(config.width, WORKGROUP_SIZE),
                groups_y: div_ceil(config.height, WORKGROUP_SIZE),
            },
        );
        if config.capture {
            let frame_index = self.frame_index_of(config);
            plan.push(Command::Capture { frame_index });
        }
        if display_enabled {
            plan.push(Command::Present);
        }
        assert(plan@ =~= steps + end.closing_commands(*config, display_enabled));
        plan
    }

    /// The index under which the frame that ends in this state is captured:
    /// the number of whole frames of simulated time elapsed, less one.
    pub fn frame_index_of(&self, config: &SimulationConfig) -> (index: u64)
        requires
            config.wf(),
            self.time >= config.runs_per_frame * config.fixed_delta_time,
        ensures
            index == self.frame_index(*config),
    {
        let delta: u64 = config.fixed_delta_time as u64;
        let runs: u64 = config.runs_per_frame as u64;
        assert(0 < delta * runs <= 0xffff_ffff * 0xffff_ffff) by (nonlinear_arith)
            requires
                0 < delta <= 0xffff_ffff,
                0 < runs <= 0xffff_ffff,
        ;
        assert(delta * runs == runs * delta) by (nonlinear_arith);
        let frame_time: u64 = delta * runs;
        let time: u64 = self.time;
        assert(time / frame_time >= 1) by (nonlinear_arith)
            requires
                time >= frame_time,
                frame_time > 0,
        ;
        time / frame_time - 1
    }
}

/// How a frame ended, given what happened while its commands were run. A
/// failed capture is reported before a missing surface; a frame that was
/// not to be presented cannot fail for want of a surface.
pub open spec fn frame_outcome_spec(
    capture_failed: bool,
    display_enabled: bool,
    surface_available: bool,
) -> Result<(), FrameError> {
    if capture_failed {
        Err(FrameError::CaptureError)
    } else if display_enabled && !surface_available {
        Err(FrameError::TransientPresentError)
    } else {
        Ok(())
    }
}

/// Classifies the end of a frame. Both errors are warnings: the state has
/// already advanced when they are met.
pub fn frame_outcome(capture_failed: bool, display_enabled: bool, surface_available: bool) -> (res:
    Result<(), FrameError>)
    ensures
        res == frame_outcome_spec(capture_failed, display_enabled, surface_available),
{
    if capture_failed {
        Err(FrameError::CaptureError)
    } else if display_enabled && !surface_available {
        Err(FrameError::TransientPresentError)
    } else {
        Ok(())
    }
}

/// After `k` sub-steps the elapsed time has grown by `k` time steps, or
/// has stopped at the largest time the clock can hold.
pub proof fn lemma_after_time(s: MoldNodeInner, delta: u32, k: nat)
    ensures
        s.time + k * delta <= u64::MAX ==> s.after(delta, k).time == s.time + k * delta,
        s.time + k * delta > u64::MAX ==> s.after(delta, k).time == u64::MAX,
        s.after(delta, k).time >= s.time,
        k <= u32::MAX ==> s.after(delta, k).time >= k * delta,
    decreases k,
{
    if k <= u32::MAX {
        assert(k * delta <= u64::MAX) by (nonlinear_arith)
            requires
                0 <= k <= 0xffff_ffff,
                0 <= delta <= 0xffff_ffff,
        ;
    }
    if k > 0 {
        assert((k - 1) * delta + delta == k * delta && (k - 1) * delta >= 0) by (nonlinear_arith)
            requires
                k >= 1,
                delta >= 0,
        ;
        lemma_after_time(s, delta, (k - 1) as nat);
    } else {
        assert(k * delta == 0) by (nonlinear_arith)
            requires
                k == 0,
        ;
    }
}

/// Double-buffer alternation: `k` sub-steps after a state, the readable copy
/// is the same if `k` is even and the other one if `k` is odd.
pub proof fn lemma_alternation(s: MoldNodeInner, delta: u32, k: nat)
    ensures
        k % 2 == 0 ==> s.after(delta, k).state == s.state,
        k % 2 == 1 ==> s.after(delta, k).state == s.state.flipped(),
    decreases k,
{
    if k > 0 {
        lemma_alternation(s, delta, (k - 1) as nat);
    }
}

/// From the initial state, copy A is readable after an even number of
/// sub-steps and copy B after an odd number.
pub proof fn lemma_alternation_from_start(delta: u32, k: nat)
    ensures
        MoldNodeInner::initial().after(delta, k).state == (if k % 2 == 0 {
            ReadState::A
        } else {
            ReadState::B
        }),
{
    lemma_alternation(MoldNodeInner::initial(), delta, k);
}

/// The plan of `k` sub-steps is `k` blocks of four commands, and block `i`
/// is the plan of the sub-step that starts `i` sub-steps after the state.
/// So every agent dispatch but the first comes right after a clear of the
/// deposit field, and every dispatch of a block reads the same copy.
pub proof fn lemma_plan_blocks(s: MoldNodeInner, config: SimulationConfig, k: nat, i: nat)
    requires
        i < k,
    ensures
        s.sub_steps_plan(config, k).len() == 4 * k,
        s.sub_steps_plan(config, k).subrange(4 * (i as int), 4 * (i as int) + 4) == s.after(
            config.fixed_delta_time,
            i,
        ).sub_step_commands(config),
    decreases k,
{
    let prev = (k - 1) as nat;
    lemma_plan_len(s, config, prev);
    let block = s.after(config.fixed_delta_time, prev).sub_step_commands(config);
    let head = s.sub_steps_plan(config, prev);
    if i < prev {
        lemma_plan_blocks(s, config, prev, i);
        assert((head + block).subrange(4 * (i as int), 4 * (i as int) + 4) =~= head.subrange(4 * (i as int), 4 * (i as int) + 4));
    } else {
        assert((head + block).subrange(4 * (i as int), 4 * (i as int) + 4) =~= block);
    }
}

/// The plan of `k` sub-steps holds four commands per sub-step.
pub proof fn lemma_plan_len(s: MoldNodeInner, config: SimulationConfig, k: nat)
    ensures
        s.sub_steps_plan(config, k).len() == 4 * k,
    decreases k,
{
    if k > 0 {
        lemma_plan_len(s, config, (k - 1) as nat);
    }
}

} // verus!
