use mold::agent::{choose_turn, jitter_noise, mix, update_agent, Agent, Turn, Vec2};
use mold::config::SpeciesSettings;
use mold::field::Field;
use mold::sense::sense;

const ONE: i64 = 65_536;
const DT: u32 = 1_311;

fn standard() -> SpeciesSettings {
    SpeciesSettings {
        trail_weight: 327_680,
        self_follow: 262_144,
        move_speed: 983_040,
        turn_speed: 156_456,
        sensor_angle: 5_461,
        sensor_offset: 1_638_400,
        sensor_size: 1,
    }
}

fn agent(x: i64, y: i64, direction: u32, species: u32) -> Agent {
    Agent { position: Vec2 { x, y }, direction, species }
}

fn walker() -> Agent {
    agent(10 * ONE + 100, 32 * ONE + 7, 0, 0)
}

#[test]
fn the_hash_is_a_fixed_function() {
    assert_eq!(mix(0), 1_739_749_167);
    assert_eq!(mix(1), 150_776_505);
    assert_eq!(mix(2), 1_432_511_529);
    assert_eq!(mix(u32::MAX), 3_360_068_443);
}

#[test]
fn the_jitter_depends_on_agent_and_time_only() {
    assert_eq!(jitter_noise(0, 0), 1_640_446_612);
    assert_eq!(jitter_noise(1, 0), 4_079_339_141);
    assert_eq!(jitter_noise(0, 1_311), 697_525_292);
    assert_eq!(jitter_noise(7, 5 * 1_311), 2_085_685_980);
    assert_eq!(jitter_noise(5, 1_311), 388_192_708);
    // only the low 32 bits of the time count
    assert_eq!(jitter_noise(3, (1u64 << 32) + 5), 1_604_453_646);
    assert_eq!(jitter_noise(3, 5), 1_604_453_646);
    assert_eq!(jitter_noise(7, 5 * 1_311), jitter_noise(7, 5 * 1_311));
}

#[test]
fn the_highest_reading_decides_the_turn() {
    assert_eq!(choose_turn(5, 1, 2), Turn::Straight);
    assert_eq!(choose_turn(5, 5, 2), Turn::Straight);
    assert_eq!(choose_turn(5, 2, 5), Turn::Straight);
    assert_eq!(choose_turn(1, 5, 2), Turn::Left);
    assert_eq!(choose_turn(1, 2, 5), Turn::Right);
    assert_eq!(choose_turn(3, 5, 2), Turn::Left);
    assert_eq!(choose_turn(3, 2, 5), Turn::Right);
    assert_eq!(choose_turn(3, 9, 2), Turn::Left);
    assert_eq!(choose_turn(3, 5, 9), Turn::Right);
}

#[test]
fn equal_readings_give_a_jitter() {
    assert_eq!(choose_turn(0, 0, 0), Turn::Jitter);
    assert_eq!(choose_turn(7, 7, 7), Turn::Jitter);
    assert_eq!(choose_turn(u128::MAX, u128::MAX, u128::MAX), Turn::Jitter);
    // both sides equal and above the forward reading
    assert_eq!(choose_turn(1, 4, 4), Turn::Jitter);
}

#[test]
fn a_sensor_averages_its_square_with_species_weights() {
    let mut trail = Field::new(64, 64, 2);
    trail.put(35, 32, 1, 3 * 65_536);
    let settings = standard();
    // seen by species 0 the other layer counts four times
    assert_eq!(sense(&trail, &settings, 0, 35, 32), 5_726_623_061);
    assert_eq!(sense(&trail, &settings, 0, 34, 31), 5_726_623_061);
    assert_eq!(sense(&trail, &settings, 0, 36, 33), 5_726_623_061);
    // seen by its own species it counts once
    assert_eq!(sense(&trail, &settings, 1, 35, 32), 1_431_655_765);
    // two cells away it is out of reach
    assert_eq!(sense(&trail, &settings, 0, 37, 32), 0);
    assert_eq!(sense(&trail, &settings, 0, 35, 30), 0);
}

#[test]
fn a_sensor_of_radius_zero_reads_one_cell() {
    let mut trail = Field::new(4, 4, 1);
    trail.put(2, 1, 0, 1_000);
    let settings = SpeciesSettings { sensor_size: 0, ..standard() };
    assert_eq!(sense(&trail, &settings, 0, 2, 1), 65_536_000);
    assert_eq!(sense(&trail, &settings, 0, 1, 1), 0);
}

#[test]
fn a_sensor_at_an_edge_repeats_the_edge_cells() {
    let mut trail = Field::new(4, 4, 1);
    trail.put(0, 0, 0, 9);
    let settings = standard();
    // the corner cell fills four of the nine places of the square
    assert_eq!(sense(&trail, &settings, 0, 0, 0), 4 * 9 * 65_536 / 9);
    assert_eq!(sense(&trail, &settings, 0, 1, 0), 2 * 9 * 65_536 / 9);
    assert_eq!(sense(&trail, &settings, 0, 1, 1), 9 * 65_536 / 9);
    // the widest sensor on the smallest field
    let mut dot = Field::new(1, 1, 1);
    dot.put(0, 0, 0, 5);
    let wide = SpeciesSettings { sensor_size: 64, ..standard() };
    assert_eq!(sense(&dot, &wide, 0, 0, 0), 5 * 65_536);
}

#[test]
fn on_an_empty_field_an_agent_jitters() {
    let trail = Field::new(64, 64, 2);
    let next = update_agent(&trail, &standard(), &walker(), jitter_noise(0, 0), DT);
    assert_eq!(next, agent(674_379, 2_091_800, 62_673, 0));
    // the jitter is at most one turn amount to either side
    let amount: u32 = 3_129;
    for index in 0..200u32 {
        let turned = update_agent(&trail, &standard(), &walker(), jitter_noise(index, 0), DT);
        let d = turned.direction;
        assert!(d <= amount || d >= 65_536 - amount, "direction {}", d);
    }
}

#[test]
fn an_agent_turns_towards_the_trail() {
    let mut left = Field::new(64, 64, 2);
    left.put(31, 19, 0, 5 * 65_536);
    assert_eq!(
        update_agent(&left, &standard(), &walker(), 123, DT),
        agent(674_236, 2_091_321, 62_407, 0)
    );
    let mut right = Field::new(64, 64, 2);
    right.put(31, 44, 0, 5 * 65_536);
    assert_eq!(
        update_agent(&right, &standard(), &walker(), 123, DT),
        agent(674_236, 2_102_997, 3_129, 0)
    );
    // a weaker trail straight ahead does not hold it
    right.put(35, 32, 0, 3 * 65_536);
    assert_eq!(
        update_agent(&right, &standard(), &walker(), 123, DT),
        agent(674_236, 2_102_997, 3_129, 0)
    );
}

#[test]
fn an_agent_keeps_its_heading_towards_a_trail_ahead() {
    let mut trail = Field::new(64, 64, 2);
    trail.put(35, 32, 1, 3 * 65_536);
    // 0.3 cells along the x axis
    assert_eq!(
        update_agent(&trail, &standard(), &walker(), 123, DT),
        agent(675_125, 2_097_159, 0, 0)
    );
}

#[test]
fn an_agent_is_reflected_at_the_edges() {
    let trail = Field::new(64, 64, 2);
    let steady = SpeciesSettings { turn_speed: 0, ..standard() };
    // leaving to the right: the heading is mirrored to the left
    assert_eq!(
        update_agent(&trail, &steady, &agent(64 * ONE - 10, 5 * ONE, 0, 1), 0, DT),
        agent(64 * ONE - 1, 5 * ONE, 32_768, 1)
    );
    // leaving through the top: a heading of three quarters becomes one quarter
    assert_eq!(
        update_agent(&trail, &steady, &agent(5 * ONE, 3, 49_152, 1), 0, DT),
        agent(5 * ONE, 0, 16_384, 1)
    );
    // leaving through a corner mirrors both components
    assert_eq!(update_agent(&trail, &steady, &agent(3, 2, 40_960, 0), 0, DT), agent(0, 0, 8_192, 0));
}

#[test]
fn an_agent_outside_the_field_is_brought_back() {
    let trail = Field::new(64, 64, 2);
    let steady = SpeciesSettings { turn_speed: 0, ..standard() };
    let lost = agent(-5, 1_000_000_000_000_000, 8_192 + 3 * 65_536, 1);
    assert_eq!(update_agent(&trail, &steady, &lost, 0, DT), agent(13_880, 64 * ONE - 1, 57_344, 1));
    for far in [i64::MIN, -1, 0, 64 * ONE, i64::MAX] {
        for heading in [0u32, 16_384, 32_768, 49_152, u32::MAX] {
            let next = update_agent(&trail, &standard(), &agent(far, far, heading, 0), 77, DT);
            assert!(0 <= next.position.x && next.position.x < 64 * ONE);
            assert!(0 <= next.position.y && next.position.y < 64 * ONE);
            assert!(next.direction < 65_536);
        }
    }
}

#[test]
fn no_agent_ever_leaves_the_field() {
    let mut trail = Field::new(17, 9, 3);
    let mut seed: u32 = 99;
    for cell in trail.cells.iter_mut() {
        seed = mix(seed);
        *cell = seed % 500_000;
    }
    let fast = SpeciesSettings {
        move_speed: u32::MAX,
        turn_speed: u32::MAX,
        sensor_offset: u32::MAX,
        sensor_angle: u32::MAX,
        sensor_size: 64,
        ..standard()
    };
    let mut current = agent(3 * ONE, 4 * ONE, 1_000, 2);
    for step in 0..300u32 {
        let settings = if step % 2 == 0 { standard() } else { fast };
        let dt: u32 = if step % 3 == 0 { u32::MAX } else { DT };
        current = update_agent(&trail, &settings, &current, jitter_noise(step, 0), dt);
        assert!(0 <= current.position.x && current.position.x < 17 * ONE);
        assert!(0 <= current.position.y && current.position.y < 9 * ONE);
        assert_eq!(current.species, 2);
    }
}
