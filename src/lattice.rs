//! A part's local grid: the occupied cells, their inclusive bounds and units.
use vstd::prelude::*;

verus! {

/// Per-axis unit labels, such as `"stud"` or `"plate"`.
pub struct Units {
    pub x: String,
    pub y: String,
    pub z: String,
}

/// Inclusive `[min, max]` range per axis.
pub struct Bounds {
    pub x: [i32; 2],
    pub y: [i32; 2],
    pub z: [i32; 2],
}

/// One cell of a part's local grid.
#[derive(Clone, Copy, Debug, PartialEq, Eq, Structural)]
pub struct Cell {
    pub x: i32,
    pub y: i32,
    pub z: i32,
}

pub struct Lattice {
    pub units: Units,
    pub bounds: Bounds,
    pub occupied: Vec<Cell>,
}

/// `lo <= v <= hi`, the inclusive range test for one axis.
pub open spec fn in_range(r: [i32; 2], v: i32) -> bool {
    r[0] <= v && v <= r[1]
}

impl Bounds {
    pub open spec fn spec_contains(&self, c: Cell) -> bool {
        in_range(self.x, c.x) && in_range(self.y, c.y) && in_range(self.z, c.z)
    }

    /// Whether `c` lies inside the bounds on all three axes, ends included.
    pub fn contains(&self, c: &Cell) -> (r: bool)
        ensures
            r == self.spec_contains(*c),
    {
        (self.x[0] <= c.x && c.x <= self.x[1]) && (self.y[0] <= c.y && c.y <= self.y[1]) && (
        self.z[0] <= c.z && c.z <= self.z[1])
    }
}

impl Lattice {
    /// Every occupied cell lies inside the bounds.
    pub open spec fn in_bounds(&self) -> bool {
        forall|i: int| 0 <= i < self.occupied@.len() ==> self.bounds.spec_contains(#[trigger] self.occupied@[i])
    }

    /// The index of the first occupied cell outside the bounds.
    pub open spec fn first_out_of_bounds(&self, i: int) -> bool {
        &&& 0 <= i < self.occupied@.len()
        &&& !self.bounds.spec_contains(self.occupied@[i])
        &&& forall|j: int| 0 <= j < i ==> self.bounds.spec_contains(#[trigger] self.occupied@[j])
    }

    /// Checks that every occupied cell lies inside the bounds; on failure the
    /// error is the first occupied cell, in list order, that does not.
    pub fn validate(&self) -> (r: Result<(), Cell>)
        ensures
            r is Ok <==> self.in_bounds(),
            r matches Err(c) ==> exists|i: int| self.first_out_of_bounds(i) && self.occupied@[i] == c,
    {
        let mut i: usize = 0;
        while i < self.occupied.len()
            invariant
                0 <= i <= self.occupied@.len(),
                forall|j: int| 0 <= j < i ==> self.bounds.spec_contains(#[trigger] self.occupied@[j]),
            decreases self.occupied@.len() - i,
        {
            let c = &self.occupied[i];
            if !self.bounds.contains(c) {
                assert(self.first_out_of_bounds(i as int));
                return Err(*c);
            }
            i = i + 1;
        }
        Ok(())
    }
}

/// A cell one step past either end of the range on any axis lies outside the
/// bounds, so a lattice that occupies it does not validate.
pub proof fn lemma_one_step_outside_fails(l: &Lattice, i: int)
    requires
        0 <= i < l.occupied@.len(),
        ({
            let c = l.occupied@[i];
            ||| c.x == l.bounds.x[0] - 1
            ||| c.x == l.bounds.x[1] + 1
            ||| c.y == l.bounds.y[0] - 1
            ||| c.y == l.bounds.y[1] + 1
            ||| c.z == l.bounds.z[0] - 1
            ||| c.z == l.bounds.z[1] + 1
        }),
    ensures
        !l.bounds.spec_contains(l.occupied@[i]),
        !l.in_bounds(),
{
}

} // verus!
