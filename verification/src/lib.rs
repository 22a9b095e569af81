//! Core of a capability-based RPC connection: the per-connection state
//! machine that owns the question, answer, import and export tables,
//! multiplexes incoming and outgoing messages, buffers pipelined calls
//! against pending answers, and translates between wire capability
//! descriptors and local capability handles.
//!
//! The transport and the schema-directed byte encoding are external
//! collaborators: the dispatcher consumes decoded [`wire::Message`] values
//! and emits [`dispatch::Action`] values that an embedding runs (writing a
//! message, firing a response sink, invoking a local capability).

pub mod wire;
pub mod table;
pub mod handles;
pub mod context;
pub mod events;
pub mod answer;
pub mod dispatch;
pub mod laws;
