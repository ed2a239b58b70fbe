//! A library for computing reviewable diffs of dependency-manager output.
//!
//! Given a change under review, the build pipeline checks the proposed commit
//! out, runs the relevant dependency installers, resets to the parent commit,
//! runs them again, and records a unified diff of the two installed trees in
//! a job table, deduplicating concurrent submissions.
//!
//! The modules, leaves first: [`text`] holds the verified string primitives,
//! [`models`] the job row and its statuses, [`store`] the job table with its
//! get-or-create and terminal transitions, [`utils`] the changed-path parsing
//! and manifest-marker checks, [`render`] the diff colouring, and
//! [`pipeline`] the decision core that drives one job from submission to a
//! terminal status.

pub mod models;
pub mod pipeline;
pub mod render;
pub mod store;
pub mod text;
pub mod utils;
