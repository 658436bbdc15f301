//! The decisions of an agent that runs a Minecraft server on behalf of a backend.
//!
//! Every module here computes: texts in, texts and decisions out. Files, processes, sockets and
//! timers belong to the program around the library, which performs what the library decides and
//! reports back what happened.

pub mod agent;
pub mod config;
pub mod console;
pub mod defaults;
pub mod installer;
pub mod json;
pub mod json_reading;
pub mod numbers;
pub mod paths;
pub mod properties;
pub mod protocol;
pub mod server;
pub mod session;
pub mod startup;
pub mod text;
pub mod tls;
