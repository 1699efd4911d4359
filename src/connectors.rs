//! A part's attachment points. Kind and direction are closed enumerations, so
//! a connector that exists is a legal one.
use vstd::prelude::*;

verus! {

#[derive(Clone, Copy, Debug, PartialEq, Eq, Structural)]
pub enum ConnectorType {
    Stud,
    Tube,
    Pin,
    AxleHole,
}

/// One of the six axis-aligned directions.
#[derive(Clone, Copy, Debug, PartialEq, Eq, Structural)]
pub enum Direction {
    PosX,
    NegX,
    PosY,
    NegY,
    PosZ,
    NegZ,
}

#[derive(Clone, Copy, Debug, PartialEq, Eq, Structural)]
pub struct Position {
    pub x: i32,
    pub y: i32,
    pub z: i32,
}

#[derive(Clone, Copy, Debug, PartialEq, Eq, Structural)]
pub struct Connector {
    pub kind: ConnectorType,
    pub pos: Position,
    pub dir: Direction,
}

pub struct ConnectorFile {
    pub connectors: Vec<Connector>,
}

impl ConnectorFile {
    /// Always succeeds: an illegal kind or direction cannot be represented, so
    /// it is refused where the file is read, before a value of this type exists.
    pub fn validate(&self) -> (r: Result<(), String>)
        ensures
            r is Ok,
    {
        Ok(())
    }
}

} // verus!
