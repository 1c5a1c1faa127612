//! A personal organizer for development folders: projects, the collections
//! that group them, and the tags attached to both.

pub mod auto_tags;
pub mod collections;
pub mod database;
pub mod display;
pub mod invariants;
pub mod laws;
pub mod location;
pub mod model;
pub mod paths;
pub mod projects;
pub mod resolution;
pub mod rows;
pub mod sequences;
pub mod tags;
pub mod types;
