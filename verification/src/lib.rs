//! Control plane for interactive coding agents.
//!
//! An agent is a child process that reads prompts and writes a stream of
//! JSON events. This library holds everything about such an agent that can
//! be decided without touching the process: how its events are decoded
//! ([`stream_parser`]), the state that follows from them ([`state_machine`]),
//! whether a tool may run ([`permission`]), what the supervisor of the agent
//! does next ([`executor`]), and how agents and deterministic stages are
//! chained into pipelines ([`pipeline`], [`runner`]). The subtitle codec
//! ([`subtitle_parser`]) is the deterministic stage that the bundled
//! pipeline is built around.
//!
//! The caller owns all input and output. It spawns the agent, hands each line
//! of its output to the executor, writes what the executor asks for, and
//! performs the stages that the runner names.
//!
//! Every function is verified against its contract. What is taken on trust
//! are the bindings to the standard library and to `serde_json`, `regex`,
//! `chrono` and `uuid` in [`text`], [`json`], [`pattern`], [`clock`] and
//! [`parser`].

pub mod adapter;
pub mod agent;
pub mod assoc;
pub mod clock;
pub mod executor;
pub mod json;
pub mod message;
pub mod parser;
pub mod pattern;
pub mod permission;
pub mod pipeline;
pub mod poller;
pub mod runner;
pub mod state_machine;
pub mod stream_parser;
pub mod subtitle_laws;
pub mod subtitle_parser;
pub mod text;
pub mod text_lemmas;
pub mod youtube;
