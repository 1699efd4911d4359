//! Snap-together parts on a discrete grid: part definitions, their validation,
//! and a world that places parts without overlap.
pub mod connectors;
pub mod grid;
pub mod lattice;
pub mod loader;
pub mod part;
pub mod pointer;
pub mod text;
pub mod world;
