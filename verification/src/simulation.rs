//! The whole simulation on the host: population, settings, the two copies
//! of the trail field, the deposit field and the orchestrator state, with
//! the kernels run in the order the orchestrator plans them.

use vstd::prelude::*;
use crate::agent::Agent;
use crate::combine::{combine, combined, PresentationBuffer};
use crate::config::{tables_defect, validate_tables, DisplaySettings, FatalInitError, GlobalSettings,
    SimulationConfig, SpeciesSettings};
use crate::diffuse::{blend_weight, diffuse, diffuse_step, keep_factor, lemma_diffuse_step_shape,
    lemma_mass_without_decay, zero_like};
use crate::field::{lemma_sum_bounds, Field, Grid};
use crate::fixed::ONE;
use crate::orchestrator::{lemma_after_time, MoldNodeInner, ReadState};
use crate::update::{deposit_index, deposit_weight_sum, deposits_after, lemma_deposit_index_bounds,
    lemma_deposits_mass, lemma_updated_population_in_field, population_in_field, population_wf,
    update_agents, updated_population};

verus! {

/// A simulation that runs its kernels on the host.
pub struct Simulation {
    pub config: SimulationConfig,
    pub species: Vec<SpeciesSettings>,
    pub display: Vec<DisplaySettings>,
    pub agents: Vec<Agent>,
    pub trail_a: Field,
    pub trail_b: Field,
    pub deposits: Field,
    pub node: MoldNodeInner,
}

/// What a simulation is between two sub-steps: the population, the
/// readable copy of the trail field, and the orchestrator state. The other
/// copy of the trail field holds nothing that is read again, and the
/// deposit field is zero.
pub struct World {
    pub agents: Seq<Agent>,
    pub trail: Grid,
    pub node: MoldNodeInner,
}

/// What one frame hands to its consumers.
#[derive(Debug, PartialEq, Eq)]
pub struct Frame {
    /// The image combined from the trail field after the frame's sub-steps.
    pub image: PresentationBuffer,
    /// The index under which the image is to be captured, where capture is
    /// enabled.
    pub capture_index: Option<u64>,
    /// Whether the image is to be composited onto the display surface.
    pub present: bool,
}

/// The deposit field the diffusion kernel reads in a sub-step: zero but for
/// the deposits of the population of that very sub-step.
pub open spec fn step_deposits(
    trail: Grid,
    species: Seq<SpeciesSettings>,
    arrived: Seq<Agent>,
) -> Grid {
    Grid {
        width: trail.width,
        height: trail.height,
        layers: trail.layers,
        cells: deposits_after(
            zero_like(trail).cells,
            arrived,
            species,
            trail.width as int,
            trail.height as int,
            arrived.len(),
        ),
    }
}

/// The world one sub-step later: the agents move on the readable trail
/// field and deposit, the trail field diffuses and decays and takes the
/// deposits in, and the orchestrator state advances.
pub open spec fn stepped(
    world: World,
    species: Seq<SpeciesSettings>,
    global: GlobalSettings,
    delta_time: u32,
) -> World {
    let arrived = updated_population(world.trail, species, world.agents, world.node.time, delta_time);
    World {
        agents: arrived,
        trail: diffuse_step(
            world.trail,
            step_deposits(world.trail, species, arrived),
            global,
            delta_time,
        ),
        node: world.node.advanced(delta_time),
    }
}

/// The world `k` sub-steps later.
pub open spec fn stepped_by(
    world: World,
    species: Seq<SpeciesSettings>,
    global: GlobalSettings,
    delta_time: u32,
    k: nat,
) -> World
    decreases k,
{
    if k == 0 {
        world
    } else {
        stepped(stepped_by(world, species, global, delta_time, (k - 1) as nat), species, global, delta_time)
    }
}

/// The first reason for which no simulation can be built from the given
/// parts, if there is one: a defect of the configuration, then of the
/// settings tables, then a population of the wrong size, then an agent of
/// an unknown species.
pub open spec fn init_defect(
    config: SimulationConfig,
    species: Seq<SpeciesSettings>,
    display: Seq<DisplaySettings>,
    agents: Seq<Agent>,
) -> Option<FatalInitError> {
    if config.defect() is Some {
        config.defect()
    } else if tables_defect(config.species_count, species, display) is Some {
        tables_defect(config.species_count, species, display)
    } else if agents.len() != config.agent_count {
        Some(FatalInitError::PopulationSize)
    } else if !population_wf(agents, config.species_count as int) {
        Some(FatalInitError::UnknownSpecies)
    } else {
        None
    }
}

impl Simulation {
    /// Whether a field has the shape the configuration asks for.
    pub open spec fn shaped(&self, field: &Field) -> bool {
        &&& field.wf()
        &&& field.width == self.config.width
        &&& field.height == self.config.height
        &&& field.layers == self.config.species_count
    }

    /// The parts fit together, and the deposit field is zero: whatever the
    /// diffusion kernel reads from it in a sub-step was deposited in that
    /// sub-step.
    pub open spec fn wf(&self) -> bool {
        &&& init_defect(self.config, self.species@, self.display@, self.agents@) is None
        &&& self.shaped(&self.trail_a)
        &&& self.shaped(&self.trail_b)
        &&& self.shaped(&self.deposits)
        &&& self.deposits.is_zero()
    }

    /// The copy of the trail field that holds the current state.
    pub open spec fn readable(&self) -> Grid {
        match self.node.state {
            ReadState::A => self.trail_a@,
            ReadState::B => self.trail_b@,
        }
    }

    /// The simulation as a world.
    pub open spec fn world(&self) -> World {
        World { agents: self.agents@, trail: self.readable(), node: self.node }
    }

    /// Builds a simulation with an empty trail field from its parts, or
    /// names the first defect that prevents it.
    pub fn new(
        config: SimulationConfig,
        species: Vec<SpeciesSettings>,
        display: Vec<DisplaySettings>,
        agents: Vec<Agent>,
    ) -> (res: Result<Simulation, FatalInitError>)
        ensures
            res is Ok <==> init_defect(config, species@, display@, agents@) is None,
            res matches Err(e) ==> init_defect(config, species@, display@, agents@) == Some(e),
            res matches Ok(sim) ==> {
                &&& sim.wf()
                &&& sim.config == config
                &&& sim.species@ == species@
                &&& sim.display@ == display@
                &&& sim.agents@ == agents@
                &&& sim.node == MoldNodeInner::initial()
                &&& sim.trail_a.is_zero()
            },
    {
        match config.validate() {
            Err(e) => {
                return Err(e);
            },
            Ok(()) => {},
        }
        match validate_tables(config.species_count, &species, &display) {
            Err(e) => {
                return Err(e);
            },
            Ok(()) => {},
        }
        if agents.len() != config.agent_count as usize {
            return Err(FatalInitError::PopulationSize);
        }
        let mut i: usize = 0;
        while i < agents.len()
            invariant
                i <= agents.len(),
                config.defect() is None,
                tables_defect(config.species_count, species@, display@) is None,
                agents@.len() == config.agent_count,
                forall|j: int| 0 <= j < i ==> (#[trigger] agents@[j]).species < config.species_count,
            decreases agents.len() - i,
        {
            if agents[i].species >= config.species_count {
                return Err(FatalInitError::UnknownSpecies);
            }
            i += 1;
        }
        let trail_a = Field::new(config.width, config.height, config.species_count);
        let trail_b = Field::new(config.width, config.height, config.species_count);
        let deposits = Field::new(config.width, config.height, config.species_count);
        Ok(
            Simulation {
                config,
                species,
                display,
                agents,
                trail_a,
                trail_b,
                deposits,
                node: MoldNodeInner::new(),
            },
        )
    }

    /// Runs one sub-step: the agent kernel on the readable copy of the
    /// trail field, the diffusion kernel from the readable copy into the
    /// other one, a clear of the deposit field, and the swap of the two
    /// copies.
    pub fn sub_step(&mut self)
        requires
            old(self).wf(),
        ensures
            final(self).wf(),
            final(self).config == old(self).config,
            final(self).species@ == old(self).species@,
            final(self).display@ == old(self).display@,
            final(self).world() == stepped(
                old(self).world(),
                old(self).species@,
                old(self).config.global,
                old(self).config.fixed_delta_time,
            ),
            final(self).node == old(self).node.advanced(old(self).config.fixed_delta_time),
            population_in_field(
                final(self).agents@,
                old(self).config.width as int,
                old(self).config.height as int,
            ),
    {
        let delta: u32 = self.config.fixed_delta_time;
        let time: u64 = self.node.time;
        let ghost before = self.world();
        let ghost arrived = updated_population(before.trail, self.species@, before.agents, time, delta);
        assert(self.deposits@.cells =~= zero_like(before.trail).cells);
        proof {
            lemma_updated_population_in_field(before.trail, self.species@, before.agents, time, delta);
        }
        match self.node.state {
            ReadState::A => {
                update_agents(
                    &mut self.agents,
                    &self.species,
                    &self.trail_a,
                    &mut self.deposits,
                    time,
                    delta,
                );
                assert(self.deposits@ == step_deposits(before.trail, self.species@, arrived));
                diffuse(&self.config.global, delta, &self.trail_a, &self.deposits, &mut self.trail_b);
            },
            ReadState::B => {
                update_agents(
                    &mut self.agents,
                    &self.species,
                    &self.trail_b,
                    &mut self.deposits,
                    time,
                    delta,
                );
                assert(self.deposits@ == step_deposits(before.trail, self.species@, arrived));
                diffuse(&self.config.global, delta, &self.trail_b, &self.deposits, &mut self.trail_a);
            },
        }
        self.deposits.clear();
        self.node.advance(delta);
    }

    /// Runs one displayed frame: `runs_per_frame` sub-steps, then the
    /// combine kernel on the copy of the trail field that is readable after
    /// them. The simulation advances whether or not the frame is to be
    /// presented.
    pub fn advance_and_present(&mut self, display_enabled: bool) -> (frame: Frame)
        requires
            old(self).wf(),
        ensures
            final(self).wf(),
            final(self).config == old(self).config,
            final(self).species@ == old(self).species@,
            final(self).display@ == old(self).display@,
            final(self).world() == stepped_by(
                old(self).world(),
                old(self).species@,
                old(self).config.global,
                old(self).config.fixed_delta_time,
                old(self).config.runs_per_frame as nat,
            ),
            final(self).node == old(self).node.after(
                old(self).config.fixed_delta_time,
                old(self).config.runs_per_frame as nat,
            ),
            population_in_field(
                final(self).agents@,
                old(self).config.width as int,
                old(self).config.height as int,
            ),
            frame.image.wf(),
            frame.image.width == old(self).config.width,
            frame.image.height == old(self).config.height,
            frame.image.pixels@ == combined(final(self).world().trail, old(self).display@),
            frame.present == display_enabled,
            frame.capture_index == (if old(self).config.capture {
                Some(final(self).node.frame_index(old(self).config) as u64)
            } else {
                None
            }),
    {
        let ghost start = self.world();
        let delta: u32 = self.config.fixed_delta_time;
        let runs: u32 = self.config.runs_per_frame;
        let mut i: u32 = 0;
        while i < runs
            invariant
                i <= runs,
                self.wf(),
                self.config == old(self).config,
                self.species@ == old(self).species@,
                self.display@ == old(self).display@,
                delta == self.config.fixed_delta_time,
                runs == self.config.runs_per_frame,
                self.world() == stepped_by(
                    start,
                    self.species@,
                    self.config.global,
                    delta,
                    i as nat,
                ),
            decreases runs - i,
        {
            self.sub_step();
            i += 1;
        }
        proof {
            lemma_world_after(start, self.species@, self.config.global, delta, runs as nat);
            lemma_after_time(start.node, delta, runs as nat);
        }
        let mut image = PresentationBuffer::new(self.config.width, self.config.height);
        match self.node.state {
            ReadState::A => {
                combine(&self.display, &self.trail_a, &mut image);
            },
            ReadState::B => {
                combine(&self.display, &self.trail_b, &mut image);
            },
        }
        let capture_index: Option<u64> = if self.config.capture {
            Some(self.node.frame_index_of(&self.config))
        } else {
            None
        };
        Frame { image, capture_index, present: display_enabled }
    }
}

/// Over any number of sub-steps the world keeps its population size and
/// the shape of its trail field, and its orchestrator state advances by
/// that many sub-steps. Every agent keeps its species, and after at least
/// one sub-step every agent stands inside the field.
pub proof fn lemma_world_after(
    world: World,
    species: Seq<SpeciesSettings>,
    global: GlobalSettings,
    delta_time: u32,
    k: nat,
)
    requires
        world.trail.wf(),
        0 < world.trail.width <= u32::MAX,
        0 < world.trail.height <= u32::MAX,
    ensures
        stepped_by(world, species, global, delta_time, k).node == world.node.after(delta_time, k),
        stepped_by(world, species, global, delta_time, k).agents.len() == world.agents.len(),
        stepped_by(world, species, global, delta_time, k).trail.wf(),
        stepped_by(world, species, global, delta_time, k).trail.same_shape(world.trail),
        k > 0 ==> population_in_field(
            stepped_by(world, species, global, delta_time, k).agents,
            world.trail.width as int,
            world.trail.height as int,
        ),
        forall|i: int|
            0 <= i < world.agents.len() ==> (#[trigger] stepped_by(
                world,
                species,
                global,
                delta_time,
                k,
            ).agents[i]).species == world.agents[i].species,
    decreases k,
{
    if k > 0 {
        let before = stepped_by(world, species, global, delta_time, (k - 1) as nat);
        lemma_world_after(world, species, global, delta_time, (k - 1) as nat);
        lemma_updated_population_in_field(
            before.trail,
            species,
            before.agents,
            before.node.time,
            delta_time,
        );
        let arrived = updated_population(
            before.trail,
            species,
            before.agents,
            before.node.time,
            delta_time,
        );
        let deposits = step_deposits(before.trail, species, arrived);
        lemma_diffuse_step_shape(before.trail, deposits, global, delta_time);
        let after = stepped_by(world, species, global, delta_time, k);
        assert forall|i: int| 0 <= i < world.agents.len() implies (#[trigger] after.agents[i]).species
            == world.agents[i].species by {
            assert(arrived[i].species == before.agents[i].species);
        }
    }
}

/// Whether no cell of `trail` reaches the largest intensity when the cell
/// of `deposits` at the same place is added to it.
pub open spec fn unsaturated(trail: Grid, deposits: Grid) -> bool {
    forall|i: int|
        0 <= i < trail.cells.len() ==> trail.cells[i] + deposits.cells[i] < u32::MAX
}

/// Deposit isolation: the deposit field the diffusion kernel reads in a
/// sub-step holds the trail weights of the agents of that sub-step and
/// nothing else. Its mass is at most the sum of their trail weights, and
/// exactly that sum where no cell has reached the largest intensity.
pub proof fn lemma_step_deposit_mass(
    trail: Grid,
    species: Seq<SpeciesSettings>,
    arrived: Seq<Agent>,
)
    requires
        trail.wf(),
        population_in_field(arrived, trail.width as int, trail.height as int),
        population_wf(arrived, trail.layers as int),
    ensures
        step_deposits(trail, species, arrived).wf(),
        step_deposits(trail, species, arrived).same_shape(trail),
        0 <= step_deposits(trail, species, arrived).mass() <= deposit_weight_sum(
            arrived,
            species,
            arrived.len(),
        ),
        step_deposits(trail, species, arrived).bounded_by(u32::MAX - 1) ==> step_deposits(
            trail,
            species,
            arrived,
        ).mass() == deposit_weight_sum(arrived, species, arrived.len()),
        arrived.len() == 0 ==> step_deposits(trail, species, arrived).is_zero(),
{
    let zero = zero_like(trail).cells;
    let w = trail.width as int;
    let h = trail.height as int;
    let after = deposits_after(zero, arrived, species, w, h, arrived.len());
    assert forall|i: int| 0 <= i < arrived.len() implies 0 <= #[trigger] deposit_index(
        arrived[i],
        w,
        h,
    ) < zero.len() by {
        lemma_deposit_index_bounds(arrived[i], w, h, trail.layers as int);
    }
    lemma_deposits_mass(zero, arrived, species, w, h, arrived.len());
    lemma_sum_bounds(zero, 0);
    lemma_sum_bounds(after, u32::MAX as int);
    assert(step_deposits(trail, species, arrived).cells == after);
}

/// Mass conservation over a sub-step: with neither diffusion nor decay,
/// and no cell at the largest intensity, the mass of the trail field grows
/// in a sub-step by exactly the sum of the trail weights of all agents.
pub proof fn lemma_step_mass(
    world: World,
    species: Seq<SpeciesSettings>,
    global: GlobalSettings,
    delta_time: u32,
)
    requires
        world.trail.wf(),
        0 < world.trail.width <= u32::MAX,
        0 < world.trail.height <= u32::MAX,
        population_wf(world.agents, world.trail.layers as int),
        blend_weight(global, delta_time) == 0,
        keep_factor(global, delta_time) == ONE,
        unsaturated(
            world.trail,
            step_deposits(
                world.trail,
                species,
                updated_population(
                    world.trail,
                    species,
                    world.agents,
                    world.node.time,
                    delta_time,
                ),
            ),
        ),
    ensures
        stepped(world, species, global, delta_time).trail.mass() == world.trail.mass()
            + deposit_weight_sum(
            stepped(world, species, global, delta_time).agents,
            species,
            world.agents.len(),
        ),
{
    let trail = world.trail;
    let arrived = updated_population(trail, species, world.agents, world.node.time, delta_time);
    let deposits = step_deposits(trail, species, arrived);
    lemma_updated_population_in_field(trail, species, world.agents, world.node.time, delta_time);
    assert(population_wf(arrived, trail.layers as int)) by {
        assert forall|i: int| 0 <= i < arrived.len() implies (#[trigger] arrived[i]).species
            < trail.layers by {
            assert(arrived[i].species == world.agents[i].species);
        }
    }
    lemma_step_deposit_mass(trail, species, arrived);
    assert(deposits.bounded_by(u32::MAX - 1));
    assert(deposits.mass() == deposit_weight_sum(arrived, species, arrived.len()));
    assert(deposits.cells.len() == trail.cells.len());
    lemma_mass_without_decay(trail, deposits, global, delta_time);
    assert(stepped(world, species, global, delta_time).trail == diffuse_step(
        trail,
        deposits,
        global,
        delta_time,
    ));
}

} // verus!
