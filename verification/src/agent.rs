//! One agent and what one sub-step does to it: sense, steer, move, and stay
//! inside the field.
//!
//! A position is a pair of 16.16 fixed-point coordinates in cells; a
//! heading is a fraction of a turn, counted from the positive x axis
//! towards the positive y axis.

use vstd::prelude::*;
use crate::config::SpeciesSettings;
use crate::field::{clamp_coord, Field, Grid};
use crate::fixed::{scale, scale_spec, ONE};
use crate::sense::{sense, sensor_reading};
use crate::trig::{cos, cos_spec, sin, sin_spec, HALF_TURN};

verus! {

/// A point of the plane.
#[derive(Clone, Copy, Debug, PartialEq, Eq)]
pub struct Vec2 {
    pub x: i64,
    pub y: i64,
}

/// One simulated particle.
#[derive(Clone, Copy, Debug, PartialEq, Eq)]
pub struct Agent {
    /// Where the agent stands, in cells.
    pub position: Vec2,
    /// The heading; only its fractional part matters.
    pub direction: u32,
    /// Index into the species settings table.
    pub species: u32,
}

/// What an agent does with its heading after it has read its sensors.
#[derive(Clone, Copy, Debug, PartialEq, Eq)]
pub enum Turn {
    /// Keep the heading: the forward reading is not below either side.
    Straight,
    /// Turn towards the left sensor, against the sense of the heading.
    Left,
    /// Turn towards the right sensor, in the sense of the heading.
    Right,
    /// Turn by a pseudo-random amount: the readings favour no side.
    Jitter,
}

/// One round of the integer hash that drives the jitter.
pub open spec fn mix_spec(v: u32) -> u32 {
    let s1 = v ^ 2_747_636_419u32;
    let s2 = ((s1 as int * 2_654_435_769) % 0x1_0000_0000) as u32;
    let s3 = s2 ^ (s2 >> 16);
    let s4 = ((s3 as int * 2_654_435_769) % 0x1_0000_0000) as u32;
    let s5 = s4 ^ (s4 >> 16);
    ((s5 as int * 2_654_435_769) % 0x1_0000_0000) as u32
}

/// The pseudo-random number of agent `index` in the sub-step that starts at
/// `time`. It depends on nothing else, so agents can be updated in any
/// order, and a run can be repeated.
pub open spec fn jitter_noise_spec(index: u32, time: u64) -> u32 {
    mix_spec(mix_spec(index) ^ ((time % 0x1_0000_0000) as u32))
}

/// The largest coordinate inside a field of `cells` cells along an axis.
pub open spec fn last_coord(cells: int) -> int {
    cells * (ONE as int) - 1
}

/// The coordinate nearest to `v` inside a field of `cells` cells.
pub open spec fn rehomed(v: int, cells: int) -> int {
    if v < 0 {
        0
    } else if v > last_coord(cells) {
        last_coord(cells)
    } else {
        v
    }
}

/// The length `dist` scaled by the sine or cosine `c`, rounded towards zero.
pub open spec fn project(c: int, dist: int) -> int {
    if c >= 0 {
        c * dist / (ONE as int)
    } else {
        -((-c) * dist / (ONE as int))
    }
}

/// The cell that holds coordinate `coord`, or the nearest cell of the field
/// where the coordinate lies outside.
pub open spec fn cell_of(coord: int, cells: int) -> int {
    clamp_coord(coord / (ONE as int), cells)
}

/// The heading `delta` further on, as a fraction of a turn.
pub open spec fn turned(direction: u32, delta: int) -> u32 {
    ((direction as int % (ONE as int) + delta) % (ONE as int)) as u32
}

/// The decision taken on three sensor readings. Equal readings all round
/// give a jitter; otherwise a forward reading that is not below either side
/// keeps the heading; otherwise the higher side wins, and two equal sides
/// give a jitter.
pub open spec fn steer_choice(forward: int, left: int, right: int) -> Turn {
    if left == forward && right == forward {
        Turn::Jitter
    } else if forward >= left && forward >= right {
        Turn::Straight
    } else if left > right {
        Turn::Left
    } else if right > left {
        Turn::Right
    } else {
        Turn::Jitter
    }
}

/// The turn of one sub-step: the turn speed times the time step.
pub open spec fn turn_amount(settings: SpeciesSettings, delta_time: u32) -> int {
    scale_spec(settings.turn_speed as int, delta_time as int)
}

/// The change of heading for a decision: a full turn amount to either side,
/// or for a jitter a part of it chosen by `noise`, between a full turn
/// amount to the left and a full turn amount to the right.
pub open spec fn turn_delta(choice: Turn, amount: int, noise: u32) -> int {
    match choice {
        Turn::Straight => 0,
        Turn::Left => -amount,
        Turn::Right => amount,
        Turn::Jitter => noise as int % (2 * amount + 1) - amount,
    }
}

/// The reading of the sensor that an agent at `(x, y)` holds out along
/// `heading`.
pub open spec fn probe_reading(
    trail: Grid,
    settings: SpeciesSettings,
    own: u32,
    x: int,
    y: int,
    heading: u32,
) -> int {
    let reach = settings.sensor_offset as int;
    sensor_reading(
        trail,
        settings,
        own,
        cell_of(x + project(cos_spec(heading), reach), trail.width as int),
        cell_of(y + project(sin_spec(heading), reach), trail.height as int),
    )
}

/// The heading an agent at `(x, y)` takes after reading its three sensors.
pub open spec fn steered_heading(
    trail: Grid,
    settings: SpeciesSettings,
    own: u32,
    x: int,
    y: int,
    direction: u32,
    noise: u32,
    delta_time: u32,
) -> u32 {
    let ahead = turned(direction, 0);
    let forward = probe_reading(trail, settings, own, x, y, ahead);
    let left = probe_reading(
        trail,
        settings,
        own,
        x,
        y,
        turned(direction, -(settings.sensor_angle as int)),
    );
    let right = probe_reading(
        trail,
        settings,
        own,
        x,
        y,
        turned(direction, settings.sensor_angle as int),
    );
    turned(
        direction,
        turn_delta(steer_choice(forward, left, right), turn_amount(settings, delta_time), noise),
    )
}

/// The heading after a move to `(mx, my)`: where the move left the field
/// across a vertical edge the heading's x component is mirrored, and where
/// it left across a horizontal edge the y component.
pub open spec fn reflected(heading: u32, mx: int, my: int, width: int, height: int) -> u32 {
    let across_x = if mx < 0 || mx > last_coord(width) {
        turned(HALF_TURN, -(heading as int))
    } else {
        heading
    };
    if my < 0 || my > last_coord(height) {
        turned(0, -(across_x as int))
    } else {
        across_x
    }
}

/// The agent after one sub-step on trail field `trail`.
pub open spec fn updated_agent(
    trail: Grid,
    settings: SpeciesSettings,
    agent: Agent,
    noise: u32,
    delta_time: u32,
) -> Agent {
    let w = trail.width as int;
    let h = trail.height as int;
    let x = rehomed(agent.position.x as int, w);
    let y = rehomed(agent.position.y as int, h);
    let heading = steered_heading(
        trail,
        settings,
        agent.species,
        x,
        y,
        agent.direction,
        noise,
        delta_time,
    );
    let step = scale_spec(settings.move_speed as int, delta_time as int);
    let mx = x + project(cos_spec(heading), step);
    let my = y + project(sin_spec(heading), step);
    Agent {
        position: Vec2 { x: rehomed(mx, w) as i64, y: rehomed(my, h) as i64 },
        direction: reflected(heading, mx, my, w, h),
        species: agent.species,
    }
}

impl Agent {
    /// Whether the agent stands inside a field of the given size: both
    /// coordinates are at least zero and below the size.
    pub open spec fn in_field(&self, width: int, height: int) -> bool {
        &&& 0 <= self.position.x < width * (ONE as int)
        &&& 0 <= self.position.y < height * (ONE as int)
    }
}

/// Boundary containment: whatever the agent, the trail field and the
/// settings hold, the agent stands inside the field after a sub-step, and
/// it keeps its species.
pub proof fn lemma_updated_agent_in_field(
    trail: Grid,
    settings: SpeciesSettings,
    agent: Agent,
    noise: u32,
    delta_time: u32,
)
    requires
        0 < trail.width <= u32::MAX,
        0 < trail.height <= u32::MAX,
    ensures
        updated_agent(trail, settings, agent, noise, delta_time).in_field(
            trail.width as int,
            trail.height as int,
        ),
        updated_agent(trail, settings, agent, noise, delta_time).species == agent.species,
        updated_agent(trail, settings, agent, noise, delta_time).direction < ONE,
{
}

/// One round of the integer hash that drives the jitter.
pub fn mix(v: u32) -> (r: u32)
    ensures
        r == mix_spec(v),
{
    let s1: u32 = v ^ 2_747_636_419u32;
    let s2: u32 = ((s1 as u64 * 2_654_435_769) % 0x1_0000_0000) as u32;
    let s3: u32 = s2 ^ (s2 >> 16);
    let s4: u32 = ((s3 as u64 * 2_654_435_769) % 0x1_0000_0000) as u32;
    let s5: u32 = s4 ^ (s4 >> 16);
    ((s5 as u64 * 2_654_435_769) % 0x1_0000_0000) as u32
}

/// The pseudo-random number of agent `index` in the sub-step that starts at
/// `time`.
pub fn jitter_noise(index: u32, time: u64) -> (noise: u32)
    ensures
        noise == jitter_noise_spec(index, time),
{
    let low: u32 = (time % 0x1_0000_0000) as u32;
    mix(mix(index) ^ low)
}

/// The heading `amount` further on, or `amount` further back.
fn turn(direction: u32, amount: u64, back: bool) -> (d: u32)
    ensures
        d == turned(
            direction,
            if back {
                -(amount as int)
            } else {
                amount as int
            },
        ),
        d < ONE,
{
    let base: u32 = direction % ONE;
    let part: u32 = (amount % (ONE as u64)) as u32;
    assert(amount as int == (amount as int / 65536) * 65536 + part);
    if back {
        (base + ONE - part) % ONE
    } else {
        (base + part) % ONE
    }
}

/// The coordinate nearest to `v` inside a field of `cells` cells.
fn rehome(v: i64, cells: u32) -> (r: i64)
    requires
        cells > 0,
    ensures
        r == rehomed(v as int, cells as int),
        0 <= r <= last_coord(cells as int),
        r < 0x1_0000_0000_0000,
{
    let last: i64 = (cells as i64) * (ONE as i64) - 1;
    if v < 0 {
        0
    } else if v > last {
        last
    } else {
        v
    }
}

/// The length `dist` scaled by the sine or cosine `c`.
pub(crate) fn project_onto(c: i64, dist: u64) -> (d: i64)
    requires
        -(ONE as int) <= c <= ONE,
        dist <= 0xffff_ffff_ffff,
    ensures
        d == project(c as int, dist as int),
        -(dist as int) <= d <= dist,
{
    let size: u64 = if c >= 0 {
        c as u64
    } else {
        (-c) as u64
    };
    assert(size * dist <= 65536 * dist && 65536 * dist <= 65536 * 0xffff_ffff_ffff)
        by (nonlinear_arith)
        requires
            0 <= size <= 65536,
            0 <= dist <= 0xffff_ffff_ffff,
    ;
    let scaled: u64 = size * dist / (ONE as u64);
    assert(scaled <= dist) by (nonlinear_arith)
        requires
            scaled == size * dist / 65536,
            size * dist <= 65536 * dist,
            0 <= dist,
    ;
    if c >= 0 {
        scaled as i64
    } else {
        -(scaled as i64)
    }
}

/// The cell that holds coordinate `coord`, or the nearest cell of the field.
fn cell_at(coord: i64, cells: u32) -> (c: u32)
    requires
        cells > 0,
    ensures
        c == cell_of(coord as int, cells as int),
        c < cells,
{
    if coord < 0 {
        0
    } else {
        let c: i64 = coord / (ONE as i64);
        if c >= cells as i64 {
            cells - 1
        } else {
            c as u32
        }
    }
}

/// The reading of the sensor that an agent at `(x, y)` holds out along
/// `heading`.
fn probe(trail: &Field, settings: &SpeciesSettings, own: u32, x: i64, y: i64, heading: u32) -> (reading:
    u128)
    requires
        trail.wf(),
        settings.wf(),
        trail.width > 0,
        trail.height > 0,
        0 <= x < 0x1_0000_0000_0000,
        0 <= y < 0x1_0000_0000_0000,
    ensures
        reading == probe_reading(trail@, *settings, own, x as int, y as int, heading),
{
    let reach: u64 = settings.sensor_offset as u64;
    let px: i64 = x + project_onto(cos(heading), reach);
    let py: i64 = y + project_onto(sin(heading), reach);
    sense(trail, settings, own, cell_at(px, trail.width), cell_at(py, trail.height))
}

/// The decision taken on three sensor readings.
pub fn choose_turn(forward: u128, left: u128, right: u128) -> (choice: Turn)
    ensures
        choice == steer_choice(forward as int, left as int, right as int),
{
    if left == forward && right == forward {
        Turn::Jitter
    } else if forward >= left && forward >= right {
        Turn::Straight
    } else if left > right {
        Turn::Left
    } else if right > left {
        Turn::Right
    } else {
        Turn::Jitter
    }
}

/// The heading an agent at `(x, y)` takes after reading its three sensors.
fn steer(
    trail: &Field,
    settings: &SpeciesSettings,
    own: u32,
    x: i64,
    y: i64,
    direction: u32,
    noise: u32,
    delta_time: u32,
) -> (heading: u32)
    requires
        trail.wf(),
        settings.wf(),
        trail.width > 0,
        trail.height > 0,
        0 <= x < 0x1_0000_0000_0000,
        0 <= y < 0x1_0000_0000_0000,
    ensures
        heading == steered_heading(
            trail@,
            *settings,
            own,
            x as int,
            y as int,
            direction,
            noise,
            delta_time,
        ),
        heading < ONE,
{
    let ahead: u32 = turn(direction, 0, false);
    let forward: u128 = probe(trail, settings, own, x, y, ahead);
    let left: u128 = probe(
        trail,
        settings,
        own,
        x,
        y,
        turn(direction, settings.sensor_angle as u64, true),
    );
    let right: u128 = probe(
        trail,
        settings,
        own,
        x,
        y,
        turn(direction, settings.sensor_angle as u64, false),
    );
    let amount: u64 = scale(settings.turn_speed, delta_time);
    match choose_turn(forward, left, right) {
        Turn::Straight => ahead,
        Turn::Left => turn(direction, amount, true),
        Turn::Right => turn(direction, amount, false),
        Turn::Jitter => {
            let part: u64 = (noise as u64) % (2 * amount + 1);
            if part >= amount {
                turn(direction, part - amount, false)
            } else {
                turn(direction, amount - part, true)
            }
        },
    }
}

/// Runs one sub-step for one agent: the agent is brought inside the field
/// if it stands outside, reads its sensors on `trail`, steers, moves by its
/// speed times the time step, and is reflected at the edges of the field.
pub fn update_agent(
    trail: &Field,
    settings: &SpeciesSettings,
    agent: &Agent,
    noise: u32,
    delta_time: u32,
) -> (next: Agent)
    requires
        trail.wf(),
        settings.wf(),
        trail.width > 0,
        trail.height > 0,
    ensures
        next == updated_agent(trail@, *settings, *agent, noise, delta_time),
        next.in_field(trail.width as int, trail.height as int),
        next.species == agent.species,
{
    let x: i64 = rehome(agent.position.x, trail.width);
    let y: i64 = rehome(agent.position.y, trail.height);
    let heading: u32 = steer(
        trail,
        settings,
        agent.species,
        x,
        y,
        agent.direction,
        noise,
        delta_time,
    );
    let step: u64 = scale(settings.move_speed, delta_time);
    let mx: i64 = x + project_onto(cos(heading), step);
    let my: i64 = y + project_onto(sin(heading), step);
    let last_x: i64 = (trail.width as i64) * (ONE as i64) - 1;
    let last_y: i64 = (trail.height as i64) * (ONE as i64) - 1;
    let across_x: u32 = if mx < 0 || mx > last_x {
        turn(HALF_TURN, heading as u64, true)
    } else {
        heading
    };
    let direction: u32 = if my < 0 || my > last_y {
        turn(0, across_x as u64, true)
    } else {
        across_x
    };
    Agent {
        position: Vec2 { x: rehome(mx, trail.width), y: rehome(my, trail.height) },
        direction,
        species: agent.species,
    }
}

} // verus!
