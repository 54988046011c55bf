//! The agent kernel: one sub-step of the whole population.
//!
//! Every agent reads only the current trail field and its own entry, writes
//! only its own entry, and adds its species' trail weight to one cell of
//! the deposit field. The result is the same in whatever order the agents
//! are taken, except that a cell stops growing at the largest intensity.

use vstd::prelude::*;
use crate::agent::{jitter_noise, jitter_noise_spec, lemma_updated_agent_in_field, update_agent,
    updated_agent, Agent};
use crate::config::{species_table_wf, SpeciesSettings};
use crate::field::{cell_index, deposited, lemma_cell_index_bounds, lemma_deposit_mass, sum_cells,
    Field, Grid};
use crate::fixed::ONE;

verus! {

/// Whether every agent names a species below `species_count`.
pub open spec fn population_wf(agents: Seq<Agent>, species_count: int) -> bool {
    forall|i: int| 0 <= i < agents.len() ==> (#[trigger] agents[i]).species < species_count
}

/// Whether every agent stands inside a field of the given size.
pub open spec fn population_in_field(agents: Seq<Agent>, width: int, height: int) -> bool {
    forall|i: int| 0 <= i < agents.len() ==> (#[trigger] agents[i]).in_field(width, height)
}

/// The population after one sub-step on `trail` that starts at `time`.
pub open spec fn updated_population(
    trail: Grid,
    species: Seq<SpeciesSettings>,
    agents: Seq<Agent>,
    time: u64,
    delta_time: u32,
) -> Seq<Agent> {
    Seq::new(
        agents.len(),
        |i: int|
            updated_agent(
                trail,
                species[agents[i].species as int],
                agents[i],
                jitter_noise_spec(i as u32, time),
                delta_time,
            ),
    )
}

/// The storage index of the cell an agent deposits into: the cell that
/// holds its position, in the layer of its species.
pub open spec fn deposit_index(agent: Agent, width: int, height: int) -> int {
    cell_index(
        width,
        height,
        agent.position.x as int / (ONE as int),
        agent.position.y as int / (ONE as int),
        agent.species as int,
    )
}

/// The cells of a deposit field after the first `n` agents have each added
/// the trail weight of their species to their cell.
pub open spec fn deposits_after(
    cells: Seq<u32>,
    agents: Seq<Agent>,
    species: Seq<SpeciesSettings>,
    width: int,
    height: int,
    n: nat,
) -> Seq<u32>
    decreases n,
{
    if n == 0 {
        cells
    } else {
        deposited(
            deposits_after(cells, agents, species, width, height, (n - 1) as nat),
            deposit_index(agents[n - 1], width, height),
            species[agents[n - 1].species as int].trail_weight,
        )
    }
}

/// The sum of the trail weights of the first `n` agents.
pub open spec fn deposit_weight_sum(agents: Seq<Agent>, species: Seq<SpeciesSettings>, n: nat) -> int
    decreases n,
{
    if n == 0 {
        0
    } else {
        deposit_weight_sum(agents, species, (n - 1) as nat) + species[agents[n
            - 1].species as int].trail_weight
    }
}

/// The sum of the trail weights of those of the first `n` agents that
/// deposit into the cell with storage index `j`.
pub open spec fn cell_weight_sum(
    agents: Seq<Agent>,
    species: Seq<SpeciesSettings>,
    width: int,
    height: int,
    n: nat,
    j: int,
) -> int
    decreases n,
{
    if n == 0 {
        0
    } else {
        cell_weight_sum(agents, species, width, height, (n - 1) as nat, j) + (if deposit_index(
            agents[n - 1],
            width,
            height,
        ) == j {
            species[agents[n - 1].species as int].trail_weight as int
        } else {
            0
        })
    }
}

/// An agent inside the field that names a layer of the field deposits into
/// a cell of the field.
pub proof fn lemma_deposit_index_bounds(agent: Agent, width: int, height: int, layers: int)
    requires
        agent.in_field(width, height),
        agent.species < layers,
    ensures
        0 <= deposit_index(agent, width, height) < width * height * layers,
        0 <= agent.position.x as int / (ONE as int) < width,
        0 <= agent.position.y as int / (ONE as int) < height,
{
    lemma_cell_index_bounds(
        width,
        height,
        layers,
        agent.position.x as int / (ONE as int),
        agent.position.y as int / (ONE as int),
        agent.species as int,
    );
}

/// One sub-step leaves every agent inside the field, with its species.
pub proof fn lemma_updated_population_in_field(
    trail: Grid,
    species: Seq<SpeciesSettings>,
    agents: Seq<Agent>,
    time: u64,
    delta_time: u32,
)
    requires
        0 < trail.width <= u32::MAX,
        0 < trail.height <= u32::MAX,
    ensures
        updated_population(trail, species, agents, time, delta_time).len() == agents.len(),
        population_in_field(
            updated_population(trail, species, agents, time, delta_time),
            trail.width as int,
            trail.height as int,
        ),
        forall|i: int|
            0 <= i < agents.len() ==> (#[trigger] updated_population(
                trail,
                species,
                agents,
                time,
                delta_time,
            )[i]).species == agents[i].species,
{
    let next = updated_population(trail, species, agents, time, delta_time);
    assert forall|i: int| 0 <= i < next.len() implies (#[trigger] next[i]).in_field(
        trail.width as int,
        trail.height as int,
    ) && next[i].species == agents[i].species by {
        lemma_updated_agent_in_field(
            trail,
            species[agents[i].species as int],
            agents[i],
            jitter_noise_spec(i as u32, time),
            delta_time,
        );
    }
}

/// Deposits do not depend on the order of the agents: after the deposits
/// of `n` agents a cell holds what it held before plus the trail weights of
/// all agents that deposit into it, up to the largest intensity.
pub proof fn lemma_deposits_order_free(
    cells: Seq<u32>,
    agents: Seq<Agent>,
    species: Seq<SpeciesSettings>,
    width: int,
    height: int,
    n: nat,
    j: int,
)
    requires
        n <= agents.len(),
        0 <= j < cells.len(),
        forall|i: int|
            0 <= i < n ==> 0 <= #[trigger] deposit_index(agents[i], width, height) < cells.len(),
    ensures
        0 <= cell_weight_sum(agents, species, width, height, n, j),
        deposits_after(cells, agents, species, width, height, n).len() == cells.len(),
        deposits_after(cells, agents, species, width, height, n)[j] == (if cells[j]
            + cell_weight_sum(agents, species, width, height, n, j) > u32::MAX {
            u32::MAX as int
        } else {
            cells[j] + cell_weight_sum(agents, species, width, height, n, j)
        }),
    decreases n,
{
    if n > 0 {
        lemma_deposits_order_free(cells, agents, species, width, height, (n - 1) as nat, j);
        assert(0 <= deposit_index(agents[n - 1], width, height) < cells.len());
    }
}

/// Deposits are additive. The deposits of `n` agents never shrink a cell
/// and never add more than the agents' trail weights to the mass of the
/// field; and where no cell has reached the largest intensity, they add
/// exactly the agents' trail weights, however many agents share a cell.
pub proof fn lemma_deposits_mass(
    cells: Seq<u32>,
    agents: Seq<Agent>,
    species: Seq<SpeciesSettings>,
    width: int,
    height: int,
    n: nat,
)
    requires
        n <= agents.len(),
        forall|i: int|
            0 <= i < n ==> 0 <= #[trigger] deposit_index(agents[i], width, height) < cells.len(),
    ensures
        deposits_after(cells, agents, species, width, height, n).len() == cells.len(),
        forall|j: int|
            0 <= j < cells.len() ==> cells[j] <= #[trigger] deposits_after(
                cells,
                agents,
                species,
                width,
                height,
                n,
            )[j],
        sum_cells(deposits_after(cells, agents, species, width, height, n)) <= sum_cells(cells)
            + deposit_weight_sum(agents, species, n),
        (forall|j: int|
            0 <= j < cells.len() ==> #[trigger] deposits_after(
                cells,
                agents,
                species,
                width,
                height,
                n,
            )[j] < u32::MAX) ==> sum_cells(deposits_after(cells, agents, species, width, height, n))
            == sum_cells(cells) + deposit_weight_sum(agents, species, n),
    decreases n,
{
    if n > 0 {
        let before = deposits_after(cells, agents, species, width, height, (n - 1) as nat);
        let after = deposits_after(cells, agents, species, width, height, n);
        let i = deposit_index(agents[n - 1], width, height);
        let amount = species[agents[n - 1].species as int].trail_weight;
        lemma_deposits_mass(cells, agents, species, width, height, (n - 1) as nat);
        assert(0 <= i < cells.len());
        lemma_deposit_mass(before, i, amount);
        assert(after == deposited(before, i, amount));
        assert forall|j: int| 0 <= j < cells.len() implies cells[j] <= #[trigger] after[j] by {
            assert(cells[j] <= before[j]);
        }
        if forall|j: int| 0 <= j < cells.len() ==> #[trigger] after[j] < u32::MAX {
            assert forall|j: int| 0 <= j < cells.len() implies #[trigger] before[j] < u32::MAX by {
                assert(after[j] < u32::MAX);
            }
            assert(after[i] < u32::MAX);
        }
    }
}

/// Runs the kernel: every agent takes one sub-step on `trail` and deposits
/// its species' trail weight into the cell it arrives in.
pub fn update_agents(
    agents: &mut Vec<Agent>,
    species: &Vec<SpeciesSettings>,
    trail: &Field,
    deposits: &mut Field,
    time: u64,
    delta_time: u32,
)
    requires
        trail.wf(),
        trail.width > 0,
        trail.height > 0,
        old(deposits).wf(),
        old(deposits).same_shape(trail),
        species@.len() == trail.layers,
        species_table_wf(species@),
        population_wf(old(agents)@, trail.layers as int),
        old(agents)@.len() <= u32::MAX,
    ensures
        final(agents)@ == updated_population(trail@, species@, old(agents)@, time, delta_time),
        population_wf(final(agents)@, trail.layers as int),
        population_in_field(final(agents)@, trail.width as int, trail.height as int),
        final(deposits).wf(),
        final(deposits).same_shape(trail),
        final(deposits)@.cells == deposits_after(
            old(deposits)@.cells,
            final(agents)@,
            species@,
            trail.width as int,
            trail.height as int,
            final(agents)@.len(),
        ),
{
    let ghost before = agents@;
    let ghost start = deposits@.cells;
    let ghost target = updated_population(trail@, species@, before, time, delta_time);
    proof {
        lemma_updated_population_in_field(trail@, species@, before, time, delta_time);
    }
    let n: usize = agents.len();
    let mut i: usize = 0;
    while i < n
        invariant
            i <= n,
            n == before.len(),
            n <= u32::MAX,
            agents@.len() == n,
            target == updated_population(trail@, species@, before, time, delta_time),
            trail.wf(),
            trail.width > 0,
            trail.height > 0,
            deposits.wf(),
            deposits.same_shape(trail),
            species@.len() == trail.layers,
            species_table_wf(species@),
            population_wf(before, trail.layers as int),
            population_in_field(target, trail.width as int, trail.height as int),
            forall|j: int| 0 <= j < n ==> (#[trigger] target[j]).species == before[j].species,
            forall|j: int| 0 <= j < i ==> agents@[j] == target[j],
            forall|j: int| i <= j < n ==> agents@[j] == before[j],
            deposits@.cells == deposits_after(
                start,
                target,
                species@,
                trail.width as int,
                trail.height as int,
                i as nat,
            ),
        decreases n - i,
    {
        let agent: Agent = agents[i];
        assert(before[i as int].species < trail.layers);
        let settings: &SpeciesSettings = &species[agent.species as usize];
        assert(species@[agent.species as int].wf());
        let noise: u32 = jitter_noise(i as u32, time);
        let next: Agent = update_agent(trail, settings, &agent, noise, delta_time);
        assert(next == target[i as int]);
        proof {
            assert(target[i as int].in_field(trail.width as int, trail.height as int));
            lemma_deposit_index_bounds(
                next,
                trail.width as int,
                trail.height as int,
                trail.layers as int,
            );
        }
        let cx: u32 = (next.position.x / (ONE as i64)) as u32;
        let cy: u32 = (next.position.y / (ONE as i64)) as u32;
        deposits.deposit(cx, cy, next.species, settings.trail_weight);
        agents[i] = next;
        i += 1;
    }
    assert(agents@ =~= target);
    assert forall|j: int| 0 <= j < agents@.len() implies (#[trigger] agents@[j]).species
        < trail.layers by {
        assert(target[j].species == before[j].species);
    }
}

} // verus!
