//! A policy-driven DNS dispatcher: the IP-range index, the domain matcher,
//! the rule engine, the upstream race and the persistent-connection state
//! machine, each with its contract.
pub mod config;
pub mod connection;
pub mod dispatcher;
pub mod domain;
pub mod ip;
pub mod message;
pub mod mixed;
pub mod pattern;
pub mod race;
