//! OpenClaw Manager's logic: what it reads from the tools it drives, what it
//! decides from it, and what it answers, with contracts proved by Verus.
pub mod archive;
pub mod environment;
pub mod installer;
pub mod laws;
pub mod logs;
pub mod model;
pub mod paths;
pub mod ports;
pub mod service;
pub mod skills;
pub mod text;
pub mod version;
