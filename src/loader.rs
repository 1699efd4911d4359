//! Composes a part from its three resources and cross-checks them.
//!
//! Reading and decoding the resources happens outside this crate; what comes
//! back from it is handed in here as typed values, and the failures of that
//! stage are reported through the same error type.
use vstd::prelude::*;

use crate::connectors::ConnectorFile;
use crate::lattice::{Cell, Lattice};
use crate::part::PartMeta;

verus! {

pub struct Part {
    pub meta: PartMeta,
    pub lattice: Lattice,
    pub connectors: ConnectorFile,
}

impl Part {
    /// The lattice lies inside its bounds and has the units that the
    /// metadata declares.
    pub open spec fn wf(&self) -> bool {
        self.lattice.in_bounds() && units_match(&self.meta, &self.lattice)
    }
}

/// Why a part could not be loaded. The read and parse variants carry the
/// resource's path and the reader's or decoder's message.
pub enum LoadError {
    MetaRead { path: String, message: String },
    MetaParse { path: String, message: String },
    LatticeRead { path: String, message: String },
    LatticeParse { path: String, message: String },
    /// The first occupied cell that lies outside the lattice's bounds.
    LatticeOutOfBounds(Cell),
    /// The units that the metadata declares and those that the lattice has.
    UnitMismatch {
        expected_xy: String,
        expected_z: String,
        actual_x: String,
        actual_y: String,
        actual_z: String,
    },
    ConnectorsRead { path: String, message: String },
    ConnectorsParse { path: String, message: String },
}

/// The lattice's x and y units both equal the declared xy unit, and its z unit
/// equals the declared z unit, character for character.
pub open spec fn units_match(meta: &PartMeta, lattice: &Lattice) -> bool {
    &&& lattice.units.x@ == meta.lattice.unit_xy@
    &&& lattice.units.y@ == meta.lattice.unit_xy@
    &&& lattice.units.z@ == meta.lattice.unit_z@
}

/// What `check_lattice` and `assemble_part` report for a given metadata and
/// lattice: nothing when both checks pass, else the first that fails.
pub open spec fn lattice_check_result(meta: &PartMeta, lattice: &Lattice, r: Result<(), LoadError>) -> bool {
    if !lattice.in_bounds() {
        r matches Err(LoadError::LatticeOutOfBounds(c)) && exists|i: int|
            lattice.first_out_of_bounds(i) && lattice.occupied@[i] == c
    } else if !units_match(meta, lattice) {
        r matches Err(LoadError::UnitMismatch { expected_xy, expected_z, actual_x, actual_y, actual_z })
            && expected_xy@ == meta.lattice.unit_xy@ && expected_z@ == meta.lattice.unit_z@
            && actual_x@ == lattice.units.x@ && actual_y@ == lattice.units.y@
            && actual_z@ == lattice.units.z@
    } else {
        r is Ok
    }
}

/// Checks the lattice against its own bounds, then its units against those
/// that the metadata declares.
pub fn check_lattice(meta: &PartMeta, lattice: &Lattice) -> (r: Result<(), LoadError>)
    ensures
        lattice_check_result(meta, lattice, r),
{
    match lattice.validate() {
        Err(c) => {
            return Err(LoadError::LatticeOutOfBounds(c));
        },
        Ok(()) => {},
    }
    if lattice.units.x != meta.lattice.unit_xy || lattice.units.y != meta.lattice.unit_xy
        || lattice.units.z != meta.lattice.unit_z
    {
        return Err(
            LoadError::UnitMismatch {
                expected_xy: meta.lattice.unit_xy.clone(),
                expected_z: meta.lattice.unit_z.clone(),
                actual_x: lattice.units.x.clone(),
                actual_y: lattice.units.y.clone(),
                actual_z: lattice.units.z.clone(),
            },
        );
    }
    Ok(())
}

/// Composes a part from resources that were read and decoded: the lattice is
/// checked as `check_lattice` does, then the connectors are validated. No
/// part comes back unless every check passes.
pub fn assemble_part(meta: PartMeta, lattice: Lattice, connectors: ConnectorFile) -> (r: Result<
    Part,
    LoadError,
>)
    ensures
        r is Ok <==> lattice.in_bounds() && units_match(&meta, &lattice),
        r matches Ok(p) ==> p.meta == meta && p.lattice == lattice && p.connectors == connectors
            && p.wf(),
        r matches Err(e) ==> lattice_check_result(&meta, &lattice, Err(e)),
{
    match check_lattice(&meta, &lattice) {
        Err(e) => {
            return Err(e);
        },
        Ok(()) => {},
    }
    let checked = connectors.validate();
    assert(checked is Ok);
    Ok(Part { meta, lattice, connectors })
}

} // verus!
