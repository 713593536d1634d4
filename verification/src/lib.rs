//! Deterministic offline finance-simulation core: integer money, a
//! double-entry ledger, a counter-based random stream, the operating firm,
//! the session state machine, measurement stimuli, and the coliseum gates.
pub mod money;
pub mod ring;
pub mod ledger;
pub mod fsm;
pub mod rng;
pub mod telemetry;
pub mod digest;
pub mod genesis;
pub mod genesis_json;
pub mod market;
pub mod firm;
pub mod action;
pub mod settle;
pub mod unit_scale;
pub mod stimulus;
pub mod bias;
pub mod persist;
pub mod snapshot;
pub mod oracle;
pub mod text;
pub mod mentor_zpd;
pub mod tactics;
pub mod render_guard;
pub mod session_artifact;
pub mod evaluation;
pub mod interviewer_context;
pub mod commands_db;
pub mod coliseum_commands;
pub mod director;
pub mod bridge;
pub mod phantom_bot;
pub mod request_cap;
pub mod coliseum;
