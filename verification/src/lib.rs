//! A daisy-chained actor pipeline - forwarders wired by broadcast ports,
//! driven by a supervisor - together with the hand-rolled dictionary, the
//! puzzle solutions and the pattern demonstrations that grew up around it.
//! Every function here carries its contract; the asynchronous plumbing that
//! runs the pipeline lives outside the library and only performs what the
//! forwarders decide.

pub mod abstractions;
pub mod chain;
pub mod dictionary;
pub mod factory;
pub mod forwarder;
pub mod gate;
pub mod gats;
pub mod graph;
pub mod grid;
pub mod hrtb_generic;
pub mod interfaces;
pub mod lifetime_stuff;
pub mod patterns;
pub mod plugin;
pub mod puzzle;
pub mod stream;
pub mod syracuse;
pub mod text;
