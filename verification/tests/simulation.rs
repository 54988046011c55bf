use mold::agent::{Agent, Vec2};
use mold::config::{
    DisplaySettings, FatalInitError, GlobalSettings, Rgb, SimulationConfig, SpeciesSettings,
};
use mold::field::Field;
use mold::orchestrator::{MoldNodeInner, ReadState};
use mold::palette::{display_table, species_table};
use mold::population::spawn_population;
use mold::simulation::Simulation;

const ONE: u32 = 65_536;

fn config(agent_count: u32, species_count: u32, global: GlobalSettings) -> SimulationConfig {
    SimulationConfig {
        agent_count,
        width: 64,
        height: 64,
        species_count,
        global,
        fixed_delta_time: 1_311,
        runs_per_frame: 5,
        capture: false,
    }
}

fn no_loss() -> GlobalSettings {
    GlobalSettings { decay_rate: 0, diffuse_rate: 0 }
}

fn blind(trail_weight: u32) -> SpeciesSettings {
    SpeciesSettings {
        trail_weight,
        self_follow: 0,
        move_speed: 983_040,
        turn_speed: 156_456,
        sensor_angle: 0,
        sensor_offset: 0,
        sensor_size: 0,
    }
}

fn white() -> DisplaySettings {
    DisplaySettings { color: Rgb { r: ONE, g: ONE, b: ONE }, weight: ONE }
}

fn readable(sim: &Simulation) -> &Field {
    match sim.node.state {
        ReadState::A => &sim.trail_a,
        ReadState::B => &sim.trail_b,
    }
}

fn built(config: SimulationConfig, species: Vec<SpeciesSettings>) -> Simulation {
    let shown = display_table(config.species_count);
    let agents = spawn_population(&config);
    match Simulation::new(config, species, shown, agents) {
        Ok(sim) => sim,
        Err(e) => panic!("no simulation: {:?}", e),
    }
}

#[test]
fn a_new_simulation_is_empty_and_reads_copy_a() {
    let sim = built(config(100, 2, no_loss()), species_table(2));
    assert_eq!(sim.node, MoldNodeInner { time: 0, state: ReadState::A });
    assert_eq!(sim.agents.len(), 100);
    assert_eq!(sim.trail_a, Field::new(64, 64, 2));
    assert_eq!(sim.trail_b, Field::new(64, 64, 2));
    assert_eq!(sim.deposits, Field::new(64, 64, 2));
}

#[test]
fn total_mass_is_exactly_additive_without_decay() {
    let weight: u32 = 327_680;
    let mut sim = built(config(1_000, 1, no_loss()), vec![blind(weight)]);
    for step in 1..=100u64 {
        sim.sub_step();
        assert_eq!(readable(&sim).total(), 1_000 * (weight as u64) * step);
    }
    assert_eq!(readable(&sim).total(), 1_000 * 327_680 * 100);
    assert!(readable(&sim).cells.iter().all(|&c| c < u32::MAX));
}

#[test]
fn the_deposit_field_is_zero_after_every_sub_step() {
    let mut sim = built(
        config(500, 3, GlobalSettings { decay_rate: 32_768, diffuse_rate: 262_144 }),
        species_table(3),
    );
    for _ in 0..12 {
        sim.sub_step();
        assert!(sim.deposits.cells.iter().all(|&c| c == 0));
        assert_eq!(sim.deposits.total(), 0);
    }
    let frame = sim.advance_and_present(true);
    assert!(frame.present);
    assert!(sim.deposits.cells.iter().all(|&c| c == 0));
}

#[test]
fn the_readable_copy_alternates_between_a_and_b() {
    let mut sim = built(config(10, 1, no_loss()), vec![blind(ONE)]);
    for k in 0..9u64 {
        assert_eq!(sim.node.state, if k % 2 == 0 { ReadState::A } else { ReadState::B });
        assert_eq!(sim.node.time, k * 1_311);
        // the readable copy holds everything deposited so far
        assert_eq!(readable(&sim).total(), 10 * (ONE as u64) * k);
        sim.sub_step();
    }
}

#[test]
fn agents_stay_inside_the_field_for_the_whole_run() {
    let mut sim = built(
        config(300, 4, GlobalSettings { decay_rate: 32_768, diffuse_rate: 262_144 }),
        species_table(4),
    );
    for _ in 0..40 {
        sim.sub_step();
        for (i, a) in sim.agents.iter().enumerate() {
            assert!(0 <= a.position.x && a.position.x < 64 * 65_536);
            assert!(0 <= a.position.y && a.position.y < 64 * 65_536);
            assert_eq!(a.species, (i % 4) as u32);
        }
    }
}

#[test]
fn a_frame_runs_all_its_sub_steps_and_shows_the_trail() {
    let mut sim = built(config(400, 1, no_loss()), vec![blind(ONE)]);
    sim.display = vec![white()];
    let frame = sim.advance_and_present(true);
    assert_eq!(sim.node, MoldNodeInner { time: 5 * 1_311, state: ReadState::B });
    assert_eq!(readable(&sim).total(), 400 * (ONE as u64) * 5);
    assert!(frame.present);
    assert_eq!(frame.capture_index, None);
    assert_eq!((frame.image.width, frame.image.height), (64, 64));
    assert_eq!(frame.image.pixels.len(), 64 * 64 * 4);
    let trail = readable(&sim);
    for y in 0..64u32 {
        for x in 0..64u32 {
            let value = trail.get(x, y, 0) as u64;
            let byte: u8 = if value >= ONE as u64 { 255 } else { (value * 255 / 65_536) as u8 };
            let at = 4 * (y as usize * 64 + x as usize);
            assert_eq!(frame.image.pixels[at..at + 4], [byte, byte, byte, 255]);
        }
    }
    // the agents started in the disk, so something is lit and the corners are dark
    assert!(frame.image.pixels.chunks(4).any(|p| p[0] == 255));
    assert_eq!(frame.image.pixels[..4], [0, 0, 0, 255]);
}

#[test]
fn a_hidden_frame_advances_like_a_shown_one() {
    let base = config(50, 2, GlobalSettings { decay_rate: 32_768, diffuse_rate: 262_144 });
    let agents = spawn_population(&base);
    let mut shown =
        Simulation::new(base, species_table(2), display_table(2), agents.clone()).unwrap();
    let mut hidden = Simulation::new(base, species_table(2), display_table(2), agents).unwrap();
    for _ in 0..3 {
        let a = shown.advance_and_present(true);
        let b = hidden.advance_and_present(false);
        assert!(a.present && !b.present);
        assert_eq!(a.image, b.image);
        assert_eq!(shown.agents, hidden.agents);
        assert_eq!(shown.node, hidden.node);
        assert_eq!(readable(&shown), readable(&hidden));
    }
    assert_eq!(shown.node.time, 15 * 1_311);
}

#[test]
fn captured_frames_carry_their_index() {
    let capturing = SimulationConfig { capture: true, ..config(20, 1, no_loss()) };
    let mut sim = built(capturing, vec![blind(ONE)]);
    for index in 0..4u64 {
        let frame = sim.advance_and_present(index % 2 == 0);
        assert_eq!(frame.capture_index, Some(index));
        assert_eq!(frame.present, index % 2 == 0);
    }
}

#[test]
fn a_run_can_be_repeated() {
    let base = config(200, 3, GlobalSettings { decay_rate: 32_768, diffuse_rate: 262_144 });
    let agents = spawn_population(&base);
    let mut first =
        Simulation::new(base, species_table(3), display_table(3), agents.clone()).unwrap();
    let mut second = Simulation::new(base, species_table(3), display_table(3), agents).unwrap();
    for _ in 0..4 {
        let a = first.advance_and_present(true);
        let b = second.advance_and_present(true);
        assert_eq!(a, b);
    }
    assert_eq!(first.agents, second.agents);
    assert_eq!(first.trail_a, second.trail_a);
    assert_eq!(first.trail_b, second.trail_b);
}

#[test]
fn a_defective_configuration_builds_no_simulation() {
    let bad = SimulationConfig { species_count: 0, ..config(0, 1, no_loss()) };
    let res = Simulation::new(bad, Vec::new(), Vec::new(), Vec::new());
    assert_eq!(res.err(), Some(FatalInitError::NoSpecies));
    let flat = SimulationConfig { height: 0, ..config(0, 1, no_loss()) };
    let res = Simulation::new(flat, vec![blind(1)], vec![white()], Vec::new());
    assert_eq!(res.err(), Some(FatalInitError::EmptyField));
}

#[test]
fn tables_and_population_must_fit_the_configuration() {
    let base = config(2, 2, no_loss());
    let agent = |species: u32| Agent { position: Vec2 { x: 0, y: 0 }, direction: 0, species };
    let two = || vec![blind(1), blind(1)];
    let shown = || vec![white(), white()];
    let res = Simulation::new(base, vec![blind(1)], shown(), vec![agent(0), agent(1)]);
    assert_eq!(res.err(), Some(FatalInitError::TableLength));
    let res = Simulation::new(base, two(), vec![white()], vec![agent(0), agent(1)]);
    assert_eq!(res.err(), Some(FatalInitError::TableLength));
    let wide = vec![blind(1), SpeciesSettings { sensor_size: 65, ..blind(1) }];
    let res = Simulation::new(base, wide, shown(), vec![agent(0), agent(1)]);
    assert_eq!(res.err(), Some(FatalInitError::SensorTooLarge));
    let res = Simulation::new(base, two(), shown(), vec![agent(0)]);
    assert_eq!(res.err(), Some(FatalInitError::PopulationSize));
    let res = Simulation::new(base, two(), shown(), vec![agent(0), agent(2)]);
    assert_eq!(res.err(), Some(FatalInitError::UnknownSpecies));
    // a wrong size is reported before an unknown species
    let res = Simulation::new(base, two(), shown(), vec![agent(5)]);
    assert_eq!(res.err(), Some(FatalInitError::PopulationSize));
    assert!(Simulation::new(base, two(), shown(), vec![agent(1), agent(0)]).is_ok());
}
