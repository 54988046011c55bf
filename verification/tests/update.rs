use mold::agent::{jitter_noise, update_agent, Agent, Vec2};
use mold::config::SpeciesSettings;
use mold::field::Field;
use mold::update::update_agents;

const ONE: i64 = 65_536;
const DT: u32 = 1_311;

fn tuned(trail_weight: u32) -> SpeciesSettings {
    SpeciesSettings {
        trail_weight,
        self_follow: 262_144,
        move_speed: 983_040,
        turn_speed: 156_456,
        sensor_angle: 5_461,
        sensor_offset: 1_638_400,
        sensor_size: 1,
    }
}

fn agent(x: i64, y: i64, direction: u32, species: u32) -> Agent {
    Agent { position: Vec2 { x, y }, direction, species }
}

#[test]
fn every_agent_moves_and_deposits_where_it_arrives() {
    let trail = Field::new(64, 64, 2);
    let mut deposits = Field::new(64, 64, 2);
    let species = vec![tuned(327_680), tuned(1_000)];
    let mut agents = vec![
        agent(10 * ONE + 100, 32 * ONE + 7, 0, 0),
        agent(64 * ONE - 10, 5 * ONE, 0, 1),
        agent(3, 2, 40_960, 0),
        agent(-5, 1_000_000_000_000_000, 8_192 + 3 * 65_536, 1),
    ];
    update_agents(&mut agents, &species, &trail, &mut deposits, 7 * 1_311, DT);
    assert_eq!(
        agents,
        vec![
            agent(675_122, 2_096_843, 65_371, 0),
            agent(4_194_303, 324_349, 34_527, 1),
            agent(0, 0, 7_559, 0),
            agent(10_485, 4_194_303, 55_021, 1),
        ]
    );
    let mut expected = Field::new(64, 64, 2);
    expected.put(10, 31, 0, 327_680);
    expected.put(63, 4, 1, 1_000);
    expected.put(0, 0, 0, 327_680);
    expected.put(0, 63, 1, 1_000);
    assert_eq!(deposits, expected);
}

#[test]
fn the_kernel_is_the_single_agent_step_for_each_index() {
    let mut trail = Field::new(20, 30, 3);
    let mut seed: u32 = 5;
    for cell in trail.cells.iter_mut() {
        seed = seed.wrapping_mul(1_664_525).wrapping_add(1_013_904_223);
        *cell = seed % 400_000;
    }
    let species = vec![tuned(1), tuned(2), tuned(3)];
    let before: Vec<Agent> = (0..50u32)
        .map(|i| agent((i as i64) * 20_000, (i as i64) * 37_000, i * 1_111, i % 3))
        .collect();
    let mut agents = before.clone();
    let mut deposits = Field::new(20, 30, 3);
    update_agents(&mut agents, &species, &trail, &mut deposits, 42, DT);
    for (i, old) in before.iter().enumerate() {
        let alone =
            update_agent(&trail, &species[old.species as usize], old, jitter_noise(i as u32, 42), DT);
        assert_eq!(agents[i], alone);
    }
    assert_eq!(deposits.total(), 17 * 1 + 17 * 2 + 16 * 3);
}

#[test]
fn agents_that_share_a_cell_lose_nothing() {
    let trail = Field::new(8, 8, 1);
    let mut deposits = Field::new(8, 8, 1);
    // they stand still, all in one cell
    let still = SpeciesSettings { move_speed: 0, ..tuned(327_680) };
    let mut agents = vec![agent(3 * ONE + 5, 4 * ONE + 9, 123, 0); 1_000];
    update_agents(&mut agents, &vec![still], &trail, &mut deposits, 0, DT);
    assert_eq!(deposits.get(3, 4, 0), 327_680_000);
    assert_eq!(deposits.total(), 327_680_000);
}

#[test]
fn deposits_come_on_top_of_what_the_field_holds() {
    let trail = Field::new(8, 8, 1);
    let mut deposits = Field::new(8, 8, 1);
    deposits.put(3, 4, 0, 11);
    deposits.put(0, 0, 0, 7);
    let still = SpeciesSettings { move_speed: 0, ..tuned(100) };
    let mut agents = vec![agent(3 * ONE, 4 * ONE, 0, 0); 3];
    update_agents(&mut agents, &vec![still], &trail, &mut deposits, 0, DT);
    assert_eq!(deposits.get(3, 4, 0), 311);
    assert_eq!(deposits.get(0, 0, 0), 7);
    assert_eq!(deposits.total(), 318);
}

#[test]
fn a_full_cell_takes_no_more() {
    let trail = Field::new(2, 2, 1);
    let mut deposits = Field::new(2, 2, 1);
    let still = SpeciesSettings { move_speed: 0, ..tuned(u32::MAX - 1) };
    let mut agents = vec![agent(ONE, ONE, 0, 0); 3];
    update_agents(&mut agents, &vec![still], &trail, &mut deposits, 0, DT);
    assert_eq!(deposits.get(1, 1, 0), u32::MAX);
    assert_eq!(deposits.total(), u32::MAX as u64);
}

#[test]
fn an_empty_population_changes_nothing() {
    let trail = Field::new(4, 4, 2);
    let mut deposits = Field::new(4, 4, 2);
    deposits.put(1, 1, 1, 9);
    let mut agents: Vec<Agent> = Vec::new();
    update_agents(&mut agents, &vec![tuned(1), tuned(1)], &trail, &mut deposits, 0, DT);
    assert!(agents.is_empty());
    assert_eq!(deposits.total(), 9);
}

#[test]
fn the_order_of_the_agents_does_not_change_the_deposits() {
    let trail = Field::new(6, 5, 3);
    let still = |w: u32| SpeciesSettings { move_speed: 0, turn_speed: 0, ..tuned(w) };
    let species = vec![still(3), still(50), still(u32::MAX)];
    let agents: Vec<Agent> = (0..40u32)
        .map(|i| agent(((i * 7) % 6) as i64 * ONE + 9, ((i * 3) % 5) as i64 * ONE, 0, i % 3))
        .collect();
    let mut forward = agents.clone();
    let mut backward: Vec<Agent> = agents.iter().rev().cloned().collect();
    let mut first = Field::new(6, 5, 3);
    let mut second = Field::new(6, 5, 3);
    first.put(1, 1, 2, 77);
    second.put(1, 1, 2, 77);
    update_agents(&mut forward, &species, &trail, &mut first, 0, DT);
    update_agents(&mut backward, &species, &trail, &mut second, 0, DT);
    assert_eq!(first, second);
    // some cell of the heavy species is full, and stays full either way
    assert!(first.cells.iter().any(|&c| c == u32::MAX));
    assert!(first.total() > 0);
}
