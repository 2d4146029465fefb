//! ProcNet Recorder: which process sends and receives how much, over which connections, recorded in
//! sessions that can be compared and exported.
//!
//! The library holds what is decided and computed. Events come in through [`etw`] and are summed by
//! [`aggregator`], [`tracker`] and [`curve`]; [`runtime`] bounds their number and publishes
//! [`snapshot`]s, which [`recording`] and [`controller`] turn into stored sessions. Reading the
//! system, the database and drawing are left to the program around it.
use vstd::prelude::*;

pub mod address;
pub mod aggregator;
pub mod alert;
pub mod calendar;
pub mod captions;
pub mod cleanup;
pub mod controller;
pub mod curve;
pub mod database;
pub mod duration;
pub mod etw;
pub mod export;
pub mod fixture;
pub mod fixture_tcp;
pub mod fixture_udp;
pub mod icons;
pub mod journal;
pub mod json;
pub mod labels;
pub mod launch;
pub mod model;
pub mod options;
pub mod ordered;
pub mod picture;
pub mod plot;
pub mod quoting;
pub mod recording;
pub mod report;
pub mod risk;
pub mod rows;
pub mod runtime;
pub mod session;
pub mod session_export;
pub mod settings;
pub mod snapshot;
pub mod storage;
pub mod system;
pub mod table;
pub mod tables;
pub mod text;
pub mod tracker;
pub mod wide;
pub mod window;

verus! {

/// The project's display name.
pub const PROJECT_NAME: &'static str = "ProcNet Recorder";

/// The project's display name.
pub fn project_name() -> (name: &'static str)
    ensures
        name@ == PROJECT_NAME@,
{
    PROJECT_NAME
}

} // verus!
