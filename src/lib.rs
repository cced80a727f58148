//! Build-time transformation of remotable compute functions.
//!
//! A remotable function takes byte sequences and returns bytes. The library
//! validates its signature, resolves the configuration written in its
//! annotation, and plans the two artefacts that replace it: an asynchronous
//! dispatcher that runs the computation in a local sandbox or on a
//! distributed compute network, and a standalone kernel program holding the
//! annotated function's body.
//!
//! `protocol` states, as verified functions over plain values, the run-time
//! marshaling protocol that the rendered dispatcher and kernel are meant to
//! follow: which bytes become subtasks, what a local run receives, how a
//! result is read back, and how the kernel finds its files. The rendered
//! code itself is produced outside the library and is not verified.

pub mod error;
pub mod attrs;
pub mod expand;
pub mod protocol;
pub mod signature;
