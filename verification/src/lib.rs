//! Verified core of a slime-mold style trail simulation.
//!
//! A large population of point agents moves over a two-dimensional field.
//! Every agent senses the trail ahead of it, steers towards the strongest
//! reading, moves, and deposits a trace; the trace then diffuses and decays.
//! Several such sub-steps make one displayed frame, which ends with the
//! reduction of all species' trails to one image.
//!
//! All quantities are integers or 16.16 fixed-point numbers, so every
//! kernel is a total, deterministic function with a proved contract.
//!
//! * [`config`], [`palette`]: the constants of a run and its settings tables.
//! * [`fixed`], [`trig`]: fixed-point arithmetic.
//! * [`field`]: the trail field and the deposit field.
//! * [`agent`], [`sense`], [`update`]: the agent kernel.
//! * [`diffuse`]: the diffusion and decay kernel.
//! * [`combine`]: the combine kernel.
//! * [`population`], [`rng`]: the initial population.
//! * [`orchestrator`], [`dispatch`], [`layout`]: the plan of a frame for a
//!   compute device, and the resources it runs on.
//! * [`simulation`]: the same frame run on the host.

pub mod agent;
pub mod combine;
pub mod config;
pub mod diffuse;
pub mod dispatch;
pub mod field;
pub mod fixed;
pub mod layout;
pub mod orchestrator;
pub mod palette;
pub mod population;
pub mod rng;
pub mod sense;
pub mod simulation;
pub mod trig;
pub mod update;
