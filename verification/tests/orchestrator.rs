use mold::config::{GlobalSettings, SimulationConfig};
use mold::orchestrator::{frame_outcome, Command, FrameError, MoldNodeInner, ReadState};
use mold::palette::standard_config;

fn small(capture: bool) -> SimulationConfig {
    SimulationConfig {
        agent_count: 1_000,
        width: 64,
        height: 33,
        species_count: 5,
        global: GlobalSettings { decay_rate: 0, diffuse_rate: 0 },
        fixed_delta_time: 1_311,
        runs_per_frame: 3,
        capture,
    }
}

#[test]
fn the_first_state_reads_copy_a_at_time_zero() {
    assert_eq!(MoldNodeInner::new(), MoldNodeInner { time: 0, state: ReadState::A });
}

#[test]
fn flipping_swaps_the_two_copies() {
    assert_eq!(ReadState::A.flip(), ReadState::B);
    assert_eq!(ReadState::B.flip(), ReadState::A);
    assert_eq!(ReadState::A.flip().flip(), ReadState::A);
}

#[test]
fn a_sub_step_plans_time_update_blur_and_clear() {
    let config = small(false);
    let mut node = MoldNodeInner { time: 2_622, state: ReadState::B };
    let commands = node.sub_step(&config);
    assert_eq!(
        commands,
        vec![
            Command::WriteTime { total: 2_622, delta: 1_311 },
            Command::DispatchUpdate { read: ReadState::B, groups: 32 },
            Command::DispatchBlur { read: ReadState::B, groups_x: 2, groups_y: 2, groups_z: 2 },
            Command::ClearDeposits { layers: 5 },
        ]
    );
    assert_eq!(node, MoldNodeInner { time: 3_933, state: ReadState::A });
}

#[test]
fn the_active_copy_alternates_with_every_sub_step() {
    let config = small(false);
    let mut node = MoldNodeInner::new();
    for k in 0..101u64 {
        let expected = if k % 2 == 0 { ReadState::A } else { ReadState::B };
        assert_eq!(node.state, expected);
        assert_eq!(node.time, k * 1_311);
        node.advance(config.fixed_delta_time);
    }
}

#[test]
fn a_frame_runs_its_sub_steps_then_combines() {
    let config = small(false);
    let mut node = MoldNodeInner::new();
    let plan = node.advance_and_present(&config, true);
    let mut expected: Vec<Command> = Vec::new();
    let reads = [ReadState::A, ReadState::B, ReadState::A];
    for k in 0..3u64 {
        expected.push(Command::WriteTime { total: k * 1_311, delta: 1_311 });
        expected.push(Command::DispatchUpdate { read: reads[k as usize], groups: 32 });
        expected.push(Command::DispatchBlur {
            read: reads[k as usize],
            groups_x: 2,
            groups_y: 2,
            groups_z: 2,
        });
        expected.push(Command::ClearDeposits { layers: 5 });
    }
    // three sub-steps from A leave B readable
    expected.push(Command::DispatchCombine { read: ReadState::B, groups_x: 2, groups_y: 2 });
    expected.push(Command::Present);
    assert_eq!(plan, expected);
    assert_eq!(node, MoldNodeInner { time: 3 * 1_311, state: ReadState::B });
}

#[test]
fn a_hidden_frame_still_advances_the_simulation() {
    let config = small(false);
    let mut shown = MoldNodeInner::new();
    let mut hidden = MoldNodeInner::new();
    let with_present = shown.advance_and_present(&config, true);
    let without = hidden.advance_and_present(&config, false);
    assert_eq!(shown, hidden);
    assert_eq!(with_present.len(), without.len() + 1);
    assert_eq!(with_present[..without.len()], without[..]);
    assert_eq!(with_present.last(), Some(&Command::Present));
    assert!(!without.contains(&Command::Present));
}

#[test]
fn captured_frames_are_numbered_from_zero() {
    let config = small(true);
    let mut node = MoldNodeInner::new();
    for frame in 0..4u64 {
        let plan = node.advance_and_present(&config, true);
        assert_eq!(plan.len(), 3 * 4 + 3);
        assert_eq!(plan[13], Command::Capture { frame_index: frame });
        assert_eq!(plan[14], Command::Present);
        assert_eq!(node.frame_index_of(&config), frame);
    }
    let plan = node.advance_and_present(&config, false);
    assert_eq!(plan.len(), 3 * 4 + 2);
    assert_eq!(plan[13], Command::Capture { frame_index: 4 });
}

#[test]
fn every_agent_dispatch_follows_a_clear_of_the_deposits() {
    let config = standard_config();
    let mut node = MoldNodeInner::new();
    for _ in 0..3 {
        let plan = node.advance_and_present(&config, true);
        assert_eq!(plan.len(), 5 * 4 + 2);
        for block in 0..5 {
            assert!(matches!(plan[4 * block], Command::WriteTime { .. }));
            assert!(matches!(plan[4 * block + 1], Command::DispatchUpdate { .. }));
            assert!(matches!(plan[4 * block + 2], Command::DispatchBlur { .. }));
            assert_eq!(plan[4 * block + 3], Command::ClearDeposits { layers: 8 });
        }
    }
}

#[test]
fn the_standard_run_dispatches_the_standard_grids() {
    let config = standard_config();
    let mut node = MoldNodeInner::new();
    let plan = node.sub_step(&config);
    assert_eq!(plan[1], Command::DispatchUpdate { read: ReadState::A, groups: 15_625 });
    assert_eq!(
        plan[2],
        Command::DispatchBlur { read: ReadState::A, groups_x: 34, groups_y: 34, groups_z: 2 }
    );
}

#[test]
fn frame_errors_are_warnings_in_a_fixed_order() {
    assert_eq!(frame_outcome(false, true, true), Ok(()));
    assert_eq!(frame_outcome(false, false, false), Ok(()));
    assert_eq!(frame_outcome(false, false, true), Ok(()));
    assert_eq!(frame_outcome(false, true, false), Err(FrameError::TransientPresentError));
    assert_eq!(frame_outcome(true, true, true), Err(FrameError::CaptureError));
    assert_eq!(frame_outcome(true, true, false), Err(FrameError::CaptureError));
    assert_eq!(frame_outcome(true, false, false), Err(FrameError::CaptureError));
}

#[test]
fn the_clock_stops_at_the_largest_time() {
    let config = small(true);
    let mut node = MoldNodeInner { time: u64::MAX - 1_000, state: ReadState::A };
    node.advance(1_000);
    assert_eq!(node, MoldNodeInner { time: u64::MAX, state: ReadState::B });
    node.advance(1);
    assert_eq!(node, MoldNodeInner { time: u64::MAX, state: ReadState::A });
    let mut late = MoldNodeInner { time: u64::MAX - 2_000, state: ReadState::A };
    let plan = late.advance_and_present(&config, false);
    assert_eq!(late, MoldNodeInner { time: u64::MAX, state: ReadState::B });
    assert_eq!(plan[0], Command::WriteTime { total: u64::MAX - 2_000, delta: 1_311 });
    assert_eq!(plan[4], Command::WriteTime { total: u64::MAX - 689, delta: 1_311 });
    assert_eq!(plan[8], Command::WriteTime { total: u64::MAX, delta: 1_311 });
    assert_eq!(plan[13], Command::Capture { frame_index: u64::MAX / 3_933 - 1 });
}

#[test]
fn a_frame_index_counts_whole_frames() {
    let config = small(false);
    let at = |time: u64| MoldNodeInner { time, state: ReadState::A }.frame_index_of(&config);
    assert_eq!(at(3_933), 0);
    assert_eq!(at(2 * 3_933 - 1), 0);
    assert_eq!(at(2 * 3_933), 1);
    assert_eq!(at(100 * 3_933 + 17), 99);
}
