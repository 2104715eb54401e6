//! Deterministic client-side-prediction / server-reconciliation netcode
//! core.
//!
//! The simulation works entirely in fixed-point integers (micro-units),
//! so a tick is a pure function of its inputs and replays bit-identically
//! on the client, on the server, and during rollback resimulation.
//!
//! - [`input`]: per-tick input snapshots, the bounded input buffer, and
//!   the stale-input resolution policy.
//! - [`movement`]: the shared deterministic movement step and the
//!   fixed-step integrator.
//! - [`tick`]: the fixed-rate tick scheduler, with the rollback tick.
//! - [`rollback`]: divergence detection against authoritative snapshots
//!   and rollback-and-resimulate.
//! - [`session`]: the player aggregate, the registry keyed by player id,
//!   and the prediction / authority controllers.
//! - [`states`], [`netconfig`]: the game state machine and the session
//!   bootstrap configuration, as plain data.
//! - [`math`], [`trig`], [`log`]: fixed-point arithmetic, deterministic
//!   sine/cosine, and the tick-indexed bounded history.

pub mod math;
pub mod log;
pub mod trig;
pub mod input;
pub mod movement;
pub mod tick;
pub mod rollback;
pub mod states;
pub mod netconfig;
pub mod session;
