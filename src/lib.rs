//! Multi-channel capture sessions for an audio-graph host: port selection,
//! port bindings, per-port file naming, the writer's and the realtime
//! producer's state machines, archive contents and the start/stop controller.

pub mod naming;
pub mod ports;
pub mod writer;
pub mod archive;
pub mod control;
