//! A part's metadata: identity and the names of its other resources.
use vstd::prelude::*;

verus! {

pub struct LatticeRef {
    /// Name of the lattice resource, relative to the part's directory.
    pub file: String,
    /// Unit that the lattice must declare on its x and y axes.
    pub unit_xy: String,
    /// Unit that the lattice must declare on its z axis.
    pub unit_z: String,
}

pub struct ConnectorsRef {
    /// Name of the connectors resource, relative to the part's directory.
    pub file: String,
}

/// Visual assets; carried along, never interpreted here.
pub struct VisualRef {
    pub mesh: String,
    pub materials: String,
}

pub struct PartMeta {
    pub id: String,
    pub name: String,
    pub system: String,
    pub lattice: LatticeRef,
    pub connectors: ConnectorsRef,
    pub visual: Option<VisualRef>,
}

} // verus!
