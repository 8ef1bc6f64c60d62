//! The rules of an agent orchestrator: which sessions exist, what they may do, and
//! what each request is answered. Everything here is a function from plain values to
//! plain values; the daemon around it reads the disk, runs git and talks to the page.

pub mod text;
pub mod ids;
pub mod paths;
pub mod model;
pub mod tracker;
pub mod api;
pub mod sessions;
pub mod spaces;
pub mod spawn;
pub mod config;
pub mod relocate;
pub mod story;
pub mod bank;
pub mod spare;
pub mod managed;
pub mod restart;
pub mod post;
pub mod preview;
pub mod review_api;
