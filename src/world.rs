//! The shared world: which integer cells are taken, and by which placement.
use vstd::prelude::*;

use std::collections::HashMap;

use crate::lattice::Cell;
use crate::loader::Part;
use crate::text::{decimal, push_decimal};

verus! {

broadcast use vstd::std_specs::hash::group_hash_axioms;

/// One integer cell of the shared world.
#[derive(Clone, Copy, Debug, PartialEq, Eq, Hash, Structural)]
pub struct WorldCell {
    pub x: i32,
    pub y: i32,
    pub z: i32,
}

impl From<Cell> for WorldCell {
    fn from(c: Cell) -> (r: WorldCell)
        ensures
            r == (WorldCell { x: c.x, y: c.y, z: c.z }),
    {
        WorldCell { x: c.x, y: c.y, z: c.z }
    }
}

impl vstd::std_specs::convert::FromSpecImpl<Cell> for WorldCell {
    open spec fn obeys_from_spec() -> bool {
        true
    }

    open spec fn from_spec(c: Cell) -> WorldCell {
        WorldCell { x: c.x, y: c.y, z: c.z }
    }
}

/// The identity of one placement; the first placement in a world gets 1.
#[derive(Clone, Copy, Debug, PartialEq, Eq, Hash, Structural)]
pub struct PartInstanceId(pub u64);

/// Why a placement was refused.
#[derive(Clone, Copy, Debug, PartialEq, Eq, Structural)]
pub enum PlacementError {
    /// The first of the part's cells, in the lattice's order, that was taken.
    OccupiedCell(WorldCell),
}

/// `(x, y, z)` in base ten.
pub open spec fn cell_text(c: WorldCell) -> Seq<char> {
    "("@ + decimal(c.x as int) + ", "@ + decimal(c.y as int) + ", "@ + decimal(c.z as int) + ")"@
}

impl PlacementError {
    pub open spec fn spec_message(&self) -> Seq<char> {
        match self {
            PlacementError::OccupiedCell(c) => "cell already occupied: "@ + cell_text(*c),
        }
    }

    /// A sentence for people, naming the cell: `cell already occupied: (x, y, z)`.
    pub fn message(&self) -> (r: String)
        ensures
            r@ == self.spec_message(),
    {
        match self {
            PlacementError::OccupiedCell(c) => {
                let mut s = String::from_str("cell already occupied: (");
                push_decimal(&mut s, c.x);
                s.append(", ");
                push_decimal(&mut s, c.y);
                s.append(", ");
                push_decimal(&mut s, c.z);
                s.append(")");
                proof {
                    reveal_strlit("cell already occupied: (");
                    reveal_strlit("cell already occupied: ");
                    reveal_strlit("(");
                }
                assert(s@ =~= self.spec_message());
                s
            },
        }
    }
}

pub open spec fn fits_i32(v: int) -> bool {
    i32::MIN <= v <= i32::MAX
}

/// A part-local cell moved by `offset`.
pub open spec fn shifted(c: Cell, offset: WorldCell) -> WorldCell {
    WorldCell {
        x: (c.x + offset.x) as i32,
        y: (c.y + offset.y) as i32,
        z: (c.z + offset.z) as i32,
    }
}

/// Every cell of the part, moved by `offset`, has coordinates that fit in `i32`.
pub open spec fn placement_in_range(part: &Part, offset: WorldCell) -> bool {
    forall|i: int|
        #![trigger part.lattice.occupied@[i]]
        0 <= i < part.lattice.occupied@.len() ==> {
            &&& fits_i32(part.lattice.occupied@[i].x + offset.x)
            &&& fits_i32(part.lattice.occupied@[i].y + offset.y)
            &&& fits_i32(part.lattice.occupied@[i].z + offset.z)
        }
}

/// The world cells that a part covers at `offset`, in the lattice's order.
pub open spec fn placed_cells(part: &Part, offset: WorldCell) -> Seq<WorldCell> {
    part.lattice.occupied@.map_values(|c: Cell| shifted(c, offset))
}

const HALF: i64 = 0x8000_0000;

const SHIFT_Y: u128 = 0x1_0000_0000;

const SHIFT_X: u128 = 0x1_0000_0000_0000_0000;

/// A cell's coordinates, each moved into `[0, 2^32)`, packed into 96 bits.
spec fn key_of(c: WorldCell) -> int {
    (c.x + 0x8000_0000) * 0x1_0000_0000_0000_0000 + (c.y + 0x8000_0000) * 0x1_0000_0000 + (c.z
        + 0x8000_0000)
}

spec fn key(c: WorldCell) -> u128 {
    key_of(c) as u128
}

spec fn cell_of_key(k: u128) -> WorldCell {
    WorldCell {
        x: (k / 0x1_0000_0000_0000_0000 - 0x8000_0000) as i32,
        y: ((k / 0x1_0000_0000) % 0x1_0000_0000 - 0x8000_0000) as i32,
        z: (k % 0x1_0000_0000 - 0x8000_0000) as i32,
    }
}

proof fn lemma_key_round_trip(c: WorldCell)
    ensures
        0 <= key_of(c) < 0x1_0000_0000_0000_0000_0000_0000,
        key(c) as int == key_of(c),
        cell_of_key(key(c)) == c,
{
    let a = c.x + 0x8000_0000;
    let b = c.y + 0x8000_0000;
    let d = c.z + 0x8000_0000;
    let k = key_of(c);
    assert(k / 0x1_0000_0000_0000_0000 == a) by (nonlinear_arith)
        requires
            k == a * 0x1_0000_0000_0000_0000 + b * 0x1_0000_0000 + d,
            0 <= a < 0x1_0000_0000,
            0 <= b < 0x1_0000_0000,
            0 <= d < 0x1_0000_0000,
    ;
    assert(k / 0x1_0000_0000 == a * 0x1_0000_0000 + b) by (nonlinear_arith)
        requires
            k == a * 0x1_0000_0000_0000_0000 + b * 0x1_0000_0000 + d,
            0 <= a < 0x1_0000_0000,
            0 <= b < 0x1_0000_0000,
            0 <= d < 0x1_0000_0000,
    ;
    assert((a * 0x1_0000_0000 + b) % 0x1_0000_0000 == b) by (nonlinear_arith)
        requires
            0 <= a < 0x1_0000_0000,
            0 <= b < 0x1_0000_0000,
    ;
    assert(k % 0x1_0000_0000 == d) by (nonlinear_arith)
        requires
            k == a * 0x1_0000_0000_0000_0000 + b * 0x1_0000_0000 + d,
            0 <= a < 0x1_0000_0000,
            0 <= b < 0x1_0000_0000,
            0 <= d < 0x1_0000_0000,
    ;
}

proof fn lemma_key_injective(c1: WorldCell, c2: WorldCell)
    ensures
        key(c1) == key(c2) <==> c1 == c2,
{
    lemma_key_round_trip(c1);
    lemma_key_round_trip(c2);
}

proof fn lemma_cell_of_key_round_trip(k: u128)
    requires
        k < 0x1_0000_0000_0000_0000_0000_0000,
    ensures
        key(cell_of_key(k)) == k,
{
    let a = k / 0x1_0000_0000_0000_0000;
    let b = (k / 0x1_0000_0000) % 0x1_0000_0000;
    let d = k % 0x1_0000_0000;
    assert(k == a * 0x1_0000_0000_0000_0000 + b * 0x1_0000_0000 + d && 0 <= a < 0x1_0000_0000 && 0
        <= b < 0x1_0000_0000 && 0 <= d < 0x1_0000_0000) by (nonlinear_arith)
        requires
            k < 0x1_0000_0000_0000_0000_0000_0000,
            a == k / 0x1_0000_0000_0000_0000,
            b == (k / 0x1_0000_0000) % 0x1_0000_0000,
            d == k % 0x1_0000_0000,
    ;
}

fn cell_key(c: WorldCell) -> (r: u128)
    ensures
        r == key(c),
{
    proof {
        lemma_key_round_trip(c);
    }
    let a = (c.x as i64 + HALF) as u128;
    let b = (c.y as i64 + HALF) as u128;
    let d = (c.z as i64 + HALF) as u128;
    a * SHIFT_X + b * SHIFT_Y + d
}

/// What a call of `place_part` on `before` leaves behind (`after`) and
/// returns (`r`): success exactly when every cell of the part is free; on
/// success the next identity, with the part's cells added to the occupancy;
/// on failure the first taken cell, with the world unchanged.
pub open spec fn placement_outcome(
    before: World,
    after: World,
    part: &Part,
    offset: WorldCell,
    r: Result<PartInstanceId, PlacementError>,
) -> bool {
    let cells = placed_cells(part, offset);
    &&& r is Ok <==> before.all_free(cells)
    &&& r matches Ok(id) ==> {
        &&& id == PartInstanceId(before.next_id())
        &&& after.next_id() == before.next_id() + 1
        &&& after.occupants() == before.occupants().union_prefer_right(
            Map::new(|c: WorldCell| cells.contains(c), |c: WorldCell| id),
        )
    }
    &&& r matches Err(PlacementError::OccupiedCell(c)) ==> {
        &&& after.occupants() == before.occupants()
        &&& after.next_id() == before.next_id()
        &&& exists|i: int| before.first_conflict(cells, i) && cells[i] == c
    }
}

pub struct World {
    occupancy: HashMap<u128, PartInstanceId>,
    next_id: u64,
}

impl World {
    /// Which placement holds each occupied cell.
    pub closed spec fn occupants(&self) -> Map<WorldCell, PartInstanceId> {
        Map::new(
            |c: WorldCell| self.occupancy@.contains_key(key(c)),
            |c: WorldCell| self.occupancy@[key(c)],
        )
    }

    /// The identity that the next successful placement receives.
    pub closed spec fn next_id(&self) -> u64 {
        self.next_id
    }

    /// Every key stands for a cell, and every placement recorded is older than
    /// the next identity to be issued.
    pub closed spec fn wf(&self) -> bool {
        &&& 1 <= self.next_id
        &&& forall|k: u128| #[trigger]
            self.occupancy@.contains_key(k) ==> k < 0x1_0000_0000_0000_0000_0000_0000 && 1
                <= self.occupancy@[k].0 < self.next_id
    }

    proof fn lemma_occupants(&self)
        requires
            self.wf(),
        ensures
            self.occupants().dom().finite(),
            self.occupants().dom().len() == self.occupancy@.len(),
            forall|c: WorldCell| #[trigger]
                self.occupants().contains_key(c) ==> 1 <= self.occupants()[c].0 < self.next_id(),
    {
        let dom = self.occupancy@.dom();
        let f = |k: u128| cell_of_key(k);
        assert forall|k1: u128, k2: u128|
            dom.contains(k1) && dom.contains(k2) && #[trigger] f(k1) == #[trigger] f(k2) implies k1
            == k2 by {
            lemma_cell_of_key_round_trip(k1);
            lemma_cell_of_key_round_trip(k2);
        }
        assert forall|c: WorldCell| #[trigger] self.occupants().dom().contains(c) <==> dom.map(
            f,
        ).contains(c) by {
            lemma_key_round_trip(c);
            if dom.map(f).contains(c) {
                let k = choose|k: u128| dom.contains(k) && f(k) == c;
                lemma_cell_of_key_round_trip(k);
            }
            if self.occupants().dom().contains(c) {
                assert(dom.contains(key(c)) && f(key(c)) == c);
            }
        }
        assert(self.occupants().dom() =~= dom.map(f));
        vstd::set_lib::lemma_map_size(dom, self.occupants().dom(), f);
    }

    /// An empty world; the first placement will receive identity 1.
    pub fn new() -> (r: World)
        ensures
            r.wf(),
            r.occupants() == Map::<WorldCell, PartInstanceId>::empty(),
            r.next_id() == 1,
    {
        let r = World { occupancy: HashMap::new(), next_id: 1 };
        assert(r.occupants() =~= Map::<WorldCell, PartInstanceId>::empty());
        r
    }

    /// Whether some placement holds `cell`.
    pub fn is_occupied(&self, cell: WorldCell) -> (r: bool)
        ensures
            r == self.occupants().contains_key(cell),
    {
        let k = cell_key(cell);
        self.occupancy.contains_key(&k)
    }

    /// The number of occupied cells.
    pub fn occupancy_len(&self) -> (r: usize)
        requires
            self.wf(),
        ensures
            r == self.occupants().dom().len(),
    {
        proof {
            self.lemma_occupants();
        }
        self.occupancy.len()
    }

    /// Whether `place_part(part, offset)` may be called: an identity is left
    /// to issue, and every cell of the part at `offset` has coordinates that
    /// fit in `i32`.
    pub fn can_place(&self, part: &Part, offset: WorldCell) -> (r: bool)
        ensures
            r == (self.next_id() < u64::MAX && placement_in_range(part, offset)),
    {
        if self.next_id == u64::MAX {
            return false;
        }
        let occupied = &part.lattice.occupied;
        let mut i: usize = 0;
        while i < occupied.len()
            invariant
                0 <= i <= occupied@.len(),
                occupied@ == part.lattice.occupied@,
                forall|j: int|
                    #![trigger occupied@[j]]
                    0 <= j < i ==> {
                        &&& fits_i32(occupied@[j].x + offset.x)
                        &&& fits_i32(occupied@[j].y + offset.y)
                        &&& fits_i32(occupied@[j].z + offset.z)
                    },
            decreases occupied@.len() - i,
        {
            let c = occupied[i];
            let x = c.x as i64 + offset.x as i64;
            let y = c.y as i64 + offset.y as i64;
            let z = c.z as i64 + offset.z as i64;
            let lo = i32::MIN as i64;
            let hi = i32::MAX as i64;
            if x < lo || x > hi || y < lo || y > hi || z < lo || z > hi {
                return false;
            }
            i = i + 1;
        }
        true
    }

    /// `i` is the first index at which `cells` holds an occupied cell.
    pub open spec fn first_conflict(&self, cells: Seq<WorldCell>, i: int) -> bool {
        &&& 0 <= i < cells.len()
        &&& self.occupants().contains_key(cells[i])
        &&& forall|j: int| 0 <= j < i ==> !self.occupants().contains_key(#[trigger] cells[j])
    }

    /// No cell of `cells` is occupied.
    pub open spec fn all_free(&self, cells: Seq<WorldCell>) -> bool {
        forall|i: int| 0 <= i < cells.len() ==> !self.occupants().contains_key(#[trigger] cells[i])
    }

    /// Places `part` with its local origin at `offset`.
    ///
    /// Every cell is checked before any is taken: if one of the part's cells
    /// is occupied, the placement fails with the first such cell in the
    /// lattice's order and the world is left exactly as it was. Otherwise the
    /// placement receives the next identity and holds all of its cells.
    pub fn place_part(&mut self, part: &Part, offset: WorldCell) -> (r: Result<
        PartInstanceId,
        PlacementError,
    >)
        requires
            old(self).wf(),
            old(self).next_id() < u64::MAX,
            placement_in_range(part, offset),
        ensures
            final(self).wf(),
            placement_outcome(*old(self), *final(self), part, offset, r),
    {
        let ghost cells = placed_cells(part, offset);
        let occupied = &part.lattice.occupied;
        let mut shifted_cells: Vec<WorldCell> = Vec::new();
        let mut i: usize = 0;
        while i < occupied.len()
            invariant
                0 <= i <= occupied@.len(),
                occupied@ == part.lattice.occupied@,
                cells == placed_cells(part, offset),
                placement_in_range(part, offset),
                shifted_cells@ == cells.subrange(0, i as int),
                self.occupancy@ == old(self).occupancy@,
                self.next_id == old(self).next_id,
            decreases occupied@.len() - i,
        {
            let c = occupied[i];
            assert(part.lattice.occupied@[i as int] == c);
            shifted_cells.push(
                WorldCell { x: c.x + offset.x, y: c.y + offset.y, z: c.z + offset.z },
            );
            assert(shifted_cells@ =~= cells.subrange(0, i + 1));
            i = i + 1;
        }
        assert(shifted_cells@ =~= cells);

        let mut j: usize = 0;
        while j < shifted_cells.len()
            invariant
                0 <= j <= shifted_cells@.len(),
                shifted_cells@ == cells,
                cells == placed_cells(part, offset),
                forall|m: int| 0 <= m < j ==> !self.occupants().contains_key(#[trigger] cells[m]),
                self.occupancy@ == old(self).occupancy@,
                self.next_id == old(self).next_id,
                old(self).wf(),
            decreases shifted_cells@.len() - j,
        {
            let cell = shifted_cells[j];
            if self.is_occupied(cell) {
                assert(self.first_conflict(cells, j as int));
                assert(self.occupants() =~= old(self).occupants());
                assert(!old(self).all_free(cells));
                return Err(PlacementError::OccupiedCell(cell));
            }
            j = j + 1;
        }

        let id = PartInstanceId(self.next_id);
        self.next_id = self.next_id + 1;
        let ghost before = self.occupancy@;
        let mut n: usize = 0;
        while n < shifted_cells.len()
            invariant
                0 <= n <= shifted_cells@.len(),
                shifted_cells@ == cells,
                cells == placed_cells(part, offset),
                self.next_id == id.0 + 1,
                before == old(self).occupancy@,
                old(self).wf(),
                self.occupancy@ == before.union_prefer_right(
                    Map::new(
                        |k: u128| exists|m: int| 0 <= m < n && #[trigger] key(cells[m]) == k,
                        |k: u128| id,
                    ),
                ),
            decreases shifted_cells@.len() - n,
        {
            let k = cell_key(shifted_cells[n]);
            self.occupancy.insert(k, id);
            assert(key(cells[n as int]) == k);
            assert(self.occupancy@ =~= before.union_prefer_right(
                Map::new(
                    |kk: u128| exists|m: int| 0 <= m < n + 1 && #[trigger] key(cells[m]) == kk,
                    |kk: u128| id,
                ),
            ));
            n = n + 1;
        }
        proof {
            let placed = Map::new(|c: WorldCell| cells.contains(c), |c: WorldCell| id);
            assert forall|c: WorldCell|
                (exists|m: int| 0 <= m < cells.len() && #[trigger] key(cells[m]) == key(c))
                    <==> cells.contains(c) by {
                if cells.contains(c) {
                    let m = choose|m: int| 0 <= m < cells.len() && cells[m] == c;
                    assert(key(cells[m]) == key(c));
                }
                if exists|m: int| 0 <= m < cells.len() && #[trigger] key(cells[m]) == key(c) {
                    let m = choose|m: int| 0 <= m < cells.len() && #[trigger] key(cells[m]) == key(c);
                    lemma_key_injective(cells[m], c);
                }
            }
            assert(self.occupants() =~= old(self).occupants().union_prefer_right(placed));
            assert forall|k: u128| #[trigger] self.occupancy@.contains_key(k) implies k
                < 0x1_0000_0000_0000_0000_0000_0000 && 1 <= self.occupancy@[k].0 < self.next_id by {
                if !before.contains_key(k) {
                    let m = choose|m: int| 0 <= m < cells.len() && #[trigger] key(cells[m]) == k;
                    lemma_key_round_trip(cells[m]);
                }
            }
        }
        Ok(id)
    }
}

/// After a successful placement every cell of the part is held by the new
/// placement, and every other cell is held exactly as it was before.
pub proof fn lemma_placed_cells_occupied(
    before: World,
    after: World,
    part: &Part,
    offset: WorldCell,
    id: PartInstanceId,
)
    requires
        placement_outcome(before, after, part, offset, Ok(id)),
    ensures
        forall|i: int|
            0 <= i < placed_cells(part, offset).len() ==> after.occupants().contains_key(
                #[trigger] placed_cells(part, offset)[i],
            ) && after.occupants()[placed_cells(part, offset)[i]] == id,
        forall|c: WorldCell|
            !placed_cells(part, offset).contains(c) ==> (#[trigger] after.occupants().contains_key(c)
                <==> before.occupants().contains_key(c)),
{
    let cells = placed_cells(part, offset);
    assert forall|i: int| 0 <= i < cells.len() implies after.occupants().contains_key(
        #[trigger] cells[i],
    ) && after.occupants()[cells[i]] == id by {
        assert(cells.contains(cells[i]));
    }
}

/// Placing a part so that one of its cells is already taken fails with
/// `OccupiedCell`, and the number of occupied cells stays as it was.
pub proof fn lemma_overlap_refused(
    before: World,
    after: World,
    part: &Part,
    offset: WorldCell,
    r: Result<PartInstanceId, PlacementError>,
    i: int,
)
    requires
        before.wf(),
        placement_outcome(before, after, part, offset, r),
        0 <= i < placed_cells(part, offset).len(),
        before.occupants().contains_key(placed_cells(part, offset)[i]),
    ensures
        r is Err,
        after.occupants().dom().len() == before.occupants().dom().len(),
{
}

/// Identities are issued in placement order: a successful placement gets the
/// identity after the one that the previous successful placement got, and a
/// fresh world issues 1 first.
pub proof fn lemma_ids_in_placement_order(
    w0: World,
    w1: World,
    w2: World,
    part1: &Part,
    offset1: WorldCell,
    id1: PartInstanceId,
    part2: &Part,
    offset2: WorldCell,
    id2: PartInstanceId,
)
    requires
        placement_outcome(w0, w1, part1, offset1, Ok(id1)),
        placement_outcome(w1, w2, part2, offset2, Ok(id2)),
    ensures
        id2.0 == id1.0 + 1,
        w0.next_id() == 1 ==> id1.0 == 1 && id2.0 == 2,
{
}

/// A failed placement issues no identity: the next success gets the same one
/// that it would have got without the failure.
pub proof fn lemma_failure_keeps_next_id(
    before: World,
    after: World,
    part: &Part,
    offset: WorldCell,
    e: PlacementError,
)
    requires
        placement_outcome(before, after, part, offset, Err(e)),
    ensures
        after.next_id() == before.next_id(),
        after.occupants() == before.occupants(),
{
}

/// An identity is never issued twice: the one that a placement receives is
/// held by no cell before it.
pub proof fn lemma_new_id_unused(
    before: World,
    after: World,
    part: &Part,
    offset: WorldCell,
    id: PartInstanceId,
)
    requires
        before.wf(),
        placement_outcome(before, after, part, offset, Ok(id)),
    ensures
        forall|c: WorldCell| #[trigger] before.occupants().contains_key(c) ==> before.occupants()[c] != id,
{
    before.lemma_occupants();
}

/// The number of successful placements among `rs`.
pub open spec fn successes(rs: Seq<Result<PartInstanceId, PlacementError>>) -> nat
    decreases rs.len(),
{
    if rs.len() == 0 {
        0
    } else {
        successes(rs.drop_last()) + if rs.last() is Ok {
            1nat
        } else {
            0nat
        }
    }
}

/// `worlds[k + 1]` and `results[k]` are what the `k`-th call of `place_part`,
/// with `parts[k]` at `offsets[k]`, made of `worlds[k]`.
pub open spec fn placement_trace(
    worlds: Seq<World>,
    parts: Seq<Part>,
    offsets: Seq<WorldCell>,
    results: Seq<Result<PartInstanceId, PlacementError>>,
) -> bool {
    &&& worlds.len() == results.len() + 1
    &&& parts.len() == results.len()
    &&& offsets.len() == results.len()
    &&& forall|k: int|
        0 <= k < results.len() ==> #[trigger] placement_outcome(
            worlds[k],
            worlds[k + 1],
            &parts[k],
            offsets[k],
            results[k],
        )
}

proof fn lemma_successes_prefix(rs: Seq<Result<PartInstanceId, PlacementError>>, k: int)
    requires
        0 <= k < rs.len(),
    ensures
        successes(rs.take(k + 1)) == successes(rs.take(k)) + if rs[k] is Ok {
            1nat
        } else {
            0nat
        },
{
    assert(rs.take(k + 1).drop_last() =~= rs.take(k));
}

proof fn lemma_successes_monotone(rs: Seq<Result<PartInstanceId, PlacementError>>, i: int, j: int)
    requires
        0 <= i <= j <= rs.len(),
    ensures
        successes(rs.take(i)) <= successes(rs.take(j)),
    decreases j - i,
{
    if i < j {
        lemma_successes_prefix(rs, j - 1);
        lemma_successes_monotone(rs, i, j - 1);
    }
}

proof fn lemma_trace_next_id(
    worlds: Seq<World>,
    parts: Seq<Part>,
    offsets: Seq<WorldCell>,
    results: Seq<Result<PartInstanceId, PlacementError>>,
    k: int,
)
    requires
        placement_trace(worlds, parts, offsets, results),
        0 <= k <= results.len(),
    ensures
        worlds[k].next_id() == worlds[0].next_id() + successes(results.take(k)),
    decreases k,
{
    if k == 0 {
        assert(results.take(0) =~= Seq::<Result<PartInstanceId, PlacementError>>::empty());
    } else {
        lemma_trace_next_id(worlds, parts, offsets, results, k - 1);
        lemma_successes_prefix(results, k - 1);
        assert(placement_outcome(worlds[k - 1], worlds[k], &parts[k - 1], offsets[k - 1], results[k - 1]));
    }
}

/// Over any sequence of placements, a successful one receives the first
/// world's next identity plus the number of successes before it; so in a
/// fresh world the successes receive 1, 2, 3, ... in order, failures in
/// between issue nothing, and later successes receive larger identities.
pub proof fn lemma_ids_count_successes(
    worlds: Seq<World>,
    parts: Seq<Part>,
    offsets: Seq<WorldCell>,
    results: Seq<Result<PartInstanceId, PlacementError>>,
    i: int,
    j: int,
)
    requires
        placement_trace(worlds, parts, offsets, results),
        0 <= i < j < results.len(),
        results[i] is Ok,
        results[j] is Ok,
    ensures
        results[j]->Ok_0.0 == worlds[0].next_id() + successes(results.take(j)),
        worlds[0].next_id() == 1 ==> results[j]->Ok_0.0 == 1 + successes(results.take(j)),
        results[i]->Ok_0.0 < results[j]->Ok_0.0,
{
    lemma_trace_next_id(worlds, parts, offsets, results, i);
    lemma_trace_next_id(worlds, parts, offsets, results, j);
    assert(placement_outcome(worlds[i], worlds[i + 1], &parts[i], offsets[i], results[i]));
    assert(placement_outcome(worlds[j], worlds[j + 1], &parts[j], offsets[j], results[j]));
    lemma_successes_prefix(results, i);
    lemma_successes_monotone(results, i + 1, j);
}

} // verus!
