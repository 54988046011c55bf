//! The initial population: agents placed at random in a disk round the
//! centre of the field, heading for the centre, species by species in turn.

use vstd::prelude::*;
use crate::agent::{project, project_onto, turned, Agent, Vec2};
use crate::config::SimulationConfig;
use crate::fixed::{is_sqrt_of, isqrt, lemma_sqrt_exists, sqrt_spec, ONE};
use crate::rng::sample_below;
use crate::trig::{cos, cos_spec, lemma_trig_range, sin, sin_spec, HALF_TURN};
use crate::update::{population_in_field, population_wf};

verus! {

/// Cells kept free between the disk of the initial population and the
/// nearest edge of the field.
pub const SPAWN_MARGIN: u32 = 20;

/// The radius, in cells, of the disk of the initial population: half the
/// smaller side of the field less the margin, and zero where the field is
/// too small for the margin.
pub open spec fn spawn_radius_spec(width: u32, height: u32) -> u32 {
    let side = if width <= height {
        width
    } else {
        height
    };
    if side / 2 >= SPAWN_MARGIN {
        (side / 2 - SPAWN_MARGIN) as u32
    } else {
        0
    }
}

/// The coordinate of the middle of a field of `cells` cells.
pub open spec fn center_coord(cells: u32) -> int {
    cells as int * (ONE as int) / 2
}

/// The distance from the centre of an agent placed in a disk of `radius`
/// cells on radial sample `radial`: the radius times the square root of the
/// sample, so that equal areas of the disk get equal shares of the agents.
pub open spec fn spawn_distance(radial: u32, radius: u32) -> int {
    radius as int * sqrt_spec(radial as int * (ONE as int))
}

/// The agent of species zero placed on radial sample `radial` and angle
/// `angle` in a disk of `radius` cells round the centre of the field. It
/// heads for the centre.
pub open spec fn circle_agent(radial: u32, angle: u32, radius: u32, width: u32, height: u32) -> Agent {
    let dist = spawn_distance(radial, radius);
    Agent {
        position: Vec2 {
            x: (center_coord(width) + project(cos_spec(angle), dist)) as i64,
            y: (center_coord(height) + project(sin_spec(angle), dist)) as i64,
        },
        direction: turned(angle, HALF_TURN as int),
        species: 0,
    }
}

/// The agent of species zero placed at the centre of the field with
/// heading `angle`.
pub open spec fn point_agent(angle: u32, width: u32, height: u32) -> Agent {
    Agent {
        position: Vec2 { x: center_coord(width) as i64, y: center_coord(height) as i64 },
        direction: turned(angle, 0),
        species: 0,
    }
}

/// Whether `agent` is agent number `i` of an initial population for
/// `config`: for some radial sample and some angle below one it is the
/// agent placed on them in the disk of the field, with species `i` modulo
/// the species count.
pub open spec fn is_spawned(agent: Agent, i: int, config: SimulationConfig) -> bool {
    exists|radial: u32, angle: u32|
        {
            &&& radial < ONE
            &&& angle < ONE
            &&& agent.position == (#[trigger] circle_agent(
                radial,
                angle,
                spawn_radius_spec(config.width, config.height),
                config.width,
                config.height,
            )).position
            &&& agent.direction == circle_agent(
                radial,
                angle,
                spawn_radius_spec(config.width, config.height),
                config.width,
                config.height,
            ).direction
            &&& agent.species == i % (config.species_count as int)
        }
}

/// An agent is placed no further from the centre along either axis than
/// the radius of the disk, and an agent placed in a disk that fits the
/// field stands inside the field.
pub proof fn lemma_circle_agent_in_field(
    radial: u32,
    angle: u32,
    radius: u32,
    width: u32,
    height: u32,
)
    requires
        radial < ONE,
    ensures
        width > 0 && height > 0 && 2 * radius <= width && 2 * radius <= height ==> circle_agent(
            radial,
            angle,
            radius,
            width,
            height,
        ).in_field(width as int, height as int),
        0 <= spawn_distance(radial, radius) <= radius * (ONE - 1),
        -spawn_distance(radial, radius) <= project(
            cos_spec(angle),
            spawn_distance(radial, radius),
        ) <= spawn_distance(radial, radius),
        -spawn_distance(radial, radius) <= project(
            sin_spec(angle),
            spawn_distance(radial, radius),
        ) <= spawn_distance(radial, radius),
{
    let one = ONE as int;
    let n = radial as int * one;
    let root = sqrt_spec(n);
    lemma_sqrt_exists(n);
    assert(root < one) by (nonlinear_arith)
        requires
            is_sqrt_of(root, n),
            n < one * one,
            one == 65536,
    ;
    let dist = spawn_distance(radial, radius);
    assert(0 <= dist <= radius * (one - 1)) by (nonlinear_arith)
        requires
            dist == radius as int * root,
            0 <= root <= one - 1,
            0 <= radius,
    ;
    lemma_trig_range(angle);
    lemma_project_bounds(cos_spec(angle), dist);
    lemma_project_bounds(sin_spec(angle), dist);
    assert(radius * (one - 1) == radius * one - radius) by (nonlinear_arith);
}

/// A projection is no longer than the projected length.
pub proof fn lemma_project_bounds(c: int, dist: int)
    requires
        -(ONE as int) <= c <= ONE,
        dist >= 0,
    ensures
        -dist <= project(c, dist) <= dist,
{
    let one = ONE as int;
    let size = if c >= 0 {
        c
    } else {
        -c
    };
    assert(0 <= size * dist / one <= dist) by (nonlinear_arith)
        requires
            0 <= size <= one,
            dist >= 0,
            one == 65536,
    ;
}

/// The radius of the disk of the initial population.
pub fn spawn_radius(width: u32, height: u32) -> (radius: u32)
    ensures
        radius == spawn_radius_spec(width, height),
        2 * radius <= width,
        2 * radius <= height,
{
    let side: u32 = if width <= height {
        width
    } else {
        height
    };
    if side / 2 >= SPAWN_MARGIN {
        side / 2 - SPAWN_MARGIN
    } else {
        0
    }
}

impl Agent {
    /// Places an agent of species zero in the disk of `radius` cells round
    /// the centre of the field, on radial sample `radial`, a fraction of
    /// one, and at angle `angle` as seen from the centre, heading for the
    /// centre. In a disk that fits the field the agent stands inside the
    /// field.
    pub fn gen_circle(radial: u32, angle: u32, radius: u32, width: u32, height: u32) -> (agent:
        Agent)
        requires
            radial < ONE,
        ensures
            agent == circle_agent(radial, angle, radius, width, height),
            width > 0 && height > 0 && 2 * radius <= width && 2 * radius <= height
                ==> agent.in_field(width as int, height as int),
    {
        proof {
            lemma_circle_agent_in_field(radial, angle, radius, width, height);
        }
        let root: u64 = isqrt((radial as u64) * (ONE as u64));
        assert(radius as int * root as int == spawn_distance(radial, radius));
        let dist: u64 = (radius as u64) * root;
        let cx: i64 = ((width as u64) * (ONE as u64) / 2) as i64;
        let cy: i64 = ((height as u64) * (ONE as u64) / 2) as i64;
        let dx: i64 = project_onto(cos(angle), dist);
        let dy: i64 = project_onto(sin(angle), dist);
        let direction: u32 = (angle % ONE + HALF_TURN) % ONE;
        Agent { position: Vec2 { x: cx + dx, y: cy + dy }, direction, species: 0 }
    }

    /// Places an agent of species zero at the centre of the field with
    /// heading `angle`.
    pub fn gen_point(angle: u32, width: u32, height: u32) -> (agent: Agent)
        ensures
            agent == point_agent(angle, width, height),
            width > 0 && height > 0 ==> agent.in_field(width as int, height as int),
    {
        let cx: i64 = ((width as u64) * (ONE as u64) / 2) as i64;
        let cy: i64 = ((height as u64) * (ONE as u64) / 2) as i64;
        Agent { position: Vec2 { x: cx, y: cy }, direction: angle % ONE, species: 0 }
    }
}

/// Draws the initial population of a run from the random number generator
/// of the current thread: `agent_count` agents, each placed by
/// [`Agent::gen_circle`] on two fresh samples in the disk of the field,
/// agent `i` of species `i` modulo the species count.
pub fn spawn_population(config: &SimulationConfig) -> (agents: Vec<Agent>)
    requires
        config.wf(),
    ensures
        agents@.len() == config.agent_count,
        forall|i: int| 0 <= i < agents@.len() ==> is_spawned(#[trigger] agents@[i], i, *config),
        population_wf(agents@, config.species_count as int),
        population_in_field(agents@, config.width as int, config.height as int),
{
    let radius: u32 = spawn_radius(config.width, config.height);
    let mut rng = rand::thread_rng();
    let mut agents: Vec<Agent> = Vec::new();
    let mut i: u32 = 0;
    while i < config.agent_count
        invariant
            i <= config.agent_count,
            config.wf(),
            radius == spawn_radius_spec(config.width, config.height),
            2 * radius <= config.width,
            2 * radius <= config.height,
            agents@.len() == i,
            forall|j: int| 0 <= j < i ==> is_spawned(#[trigger] agents@[j], j, *config),
            population_wf(agents@, config.species_count as int),
            population_in_field(agents@, config.width as int, config.height as int),
        decreases config.agent_count - i,
    {
        let radial: u32 = sample_below(&mut rng, ONE);
        let angle: u32 = sample_below(&mut rng, ONE);
        let placed: Agent = Agent::gen_circle(radial, angle, radius, config.width, config.height);
        let agent = Agent {
            position: placed.position,
            direction: placed.direction,
            species: i % config.species_count,
        };
        assert(is_spawned(agent, i as int, *config)) by {
            let witness = circle_agent(radial, angle, radius, config.width, config.height);
            assert(agent.position == witness.position && agent.direction == witness.direction);
        }
        agents.push(agent);
        i += 1;
    }
    agents
}

} // verus!
