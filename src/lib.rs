//! Inspecting and rewriting the live game state of a running console session:
//! field offsets, packed ability sets, an emitter for the console's machine
//! code, and the handshake that hands that code to the console.
pub mod assembler;
pub mod codec;
pub mod emitter;
pub mod patches;
pub mod protocol;
pub mod registry;
pub mod state;
