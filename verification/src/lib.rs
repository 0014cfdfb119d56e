//! Verified core of the `cvg` command-line client: the formatting, parsing,
//! validation and diffing logic behind its subcommands.
pub mod text;
pub mod numeric;
pub mod cells;
pub mod monitor;
pub mod zombies;
pub mod port;
pub mod query;
pub mod cli;
pub mod ontology;
pub mod agents;
pub mod bus;
pub mod capability;
pub mod fleet;
pub mod discover;
pub mod order;
pub mod routes;
pub mod register;
pub mod pages;
pub mod service;
pub mod show;
pub mod snapshot;
pub mod gateway;
pub mod spawn;
pub mod templates;
pub mod merge_driver;
pub mod gates;
pub mod purpose;
