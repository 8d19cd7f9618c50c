//! One player's grid and ships: placement validation, placement, and shot
//! resolution. A cell either holds the water marker or the id of the live
//! ship occupying it; sinking a ship resets its cells to water.

use vstd::prelude::*;

verus! {

/// Marker for an unoccupied (or cleared) grid cell.
pub const WATER: char = '~';

#[derive(Clone, Copy, PartialEq, Eq, Structural, Debug)]
pub enum Orientation {
    Horizontal,
    Vertical,
}

/// A grid position: `x` is the column, `y` is the row.
#[derive(Clone, Copy, PartialEq, Eq, Structural, Debug)]
pub struct Coord {
    pub x: usize,
    pub y: usize,
}

#[derive(Clone, Debug)]
pub struct Ship {
    pub id: char,
    pub coordinates: Vec<Coord>,
    pub is_sunk: bool,
}

/// Why a requested placement was rejected.
#[derive(Clone, Copy, PartialEq, Eq, Structural, Debug)]
pub enum PlacementError {
    OutOfBounds,
    Overlap,
}

#[derive(Clone)]
pub struct Board {
    pub grid: Vec<Vec<char>>,
    pub grid_size: usize,
    pub ship_size: usize,
    pub ship_x_bound: usize,
    pub ship_y_bound: usize,
    pub ships: Vec<Ship>,
}

/// Column of the `i`-th cell of a run starting at column `x`.
pub open spec fn run_x(x: int, orientation: Orientation, i: int) -> int {
    match orientation {
        Orientation::Horizontal => x + i,
        Orientation::Vertical => x,
    }
}

/// Row of the `i`-th cell of a run starting at row `y`.
pub open spec fn run_y(y: int, orientation: Orientation, i: int) -> int {
    match orientation {
        Orientation::Horizontal => y,
        Orientation::Vertical => y + i,
    }
}

/// The first `n` cells of the run starting at `(x, y)` include `(x2, y2)`.
pub open spec fn run_covers_prefix(
    x: int,
    y: int,
    orientation: Orientation,
    n: int,
    x2: int,
    y2: int,
) -> bool {
    exists|i: int|
        0 <= i < n && #[trigger] run_x(x, orientation, i) == x2 && #[trigger] run_y(
            y,
            orientation,
            i,
        ) == y2
}

/// One of the first `n` coordinates of ship `s` is the cell `(x, y)`.
pub open spec fn ship_covers_prefix(s: Ship, n: int, x: int, y: int) -> bool {
    exists|i: int|
        0 <= i < n && i < s.coordinates@.len() && (#[trigger] s.coordinates@[i]).x == x
            && s.coordinates@[i].y == y
}

/// Ship `s` occupies the cell `(x, y)`.
pub open spec fn ship_covers(s: Ship, x: int, y: int) -> bool {
    ship_covers_prefix(s, s.coordinates@.len() as int, x, y)
}

/// How one shot changes a board: a shot into water misses and leaves the
/// board as it was; a shot into a cell marked with a live ship's id sinks
/// that whole ship, resets every one of its cells to water, and removes it
/// from the live index. The configuration never changes.
pub open spec fn shoot_post(pre: Board, post: Board, r: Option<char>, x: int, y: int) -> bool {
    &&& post.grid_size == pre.grid_size
    &&& post.ship_size == pre.ship_size
    &&& post.ship_x_bound == pre.ship_x_bound
    &&& post.ship_y_bound == pre.ship_y_bound
    &&& if pre.cell(x, y) == WATER {
        &&& r is None
        &&& post == pre
    } else {
        let id = pre.cell(x, y);
        let i = pre.live_ship_index(id);
        &&& r == Some(id)
        &&& pre.has_live_ship(id)
        &&& post.ships@ == pre.ships@.remove(i)
        &&& post.ships@.len() == pre.ships@.len() - 1
        &&& forall|x2: int, y2: int|
            pre.in_bounds(x2, y2) ==> #[trigger] post.cell(x2, y2) == (if ship_covers(
                pre.ships@[i],
                x2,
                y2,
            ) {
                WATER
            } else {
                pre.cell(x2, y2)
            })
    }
}

impl Board {
    /// The marker held by the cell at column `x`, row `y`.
    pub open spec fn cell(self, x: int, y: int) -> char {
        self.grid@[y]@[x]
    }

    pub open spec fn in_bounds(self, x: int, y: int) -> bool {
        0 <= x < self.grid_size && 0 <= y < self.grid_size
    }

    /// The whole run of `ship_size` cells starting at `(x, y)` stays on the grid.
    pub open spec fn run_in_bounds(self, x: int, y: int, orientation: Orientation) -> bool {
        match orientation {
            Orientation::Horizontal => 0 <= y < self.grid_size && 0 <= x && x + self.ship_size
                <= self.grid_size,
            Orientation::Vertical => 0 <= x < self.grid_size && 0 <= y && y + self.ship_size
                <= self.grid_size,
        }
    }

    /// Every cell of the run starting at `(x, y)` is water.
    pub open spec fn run_clear(self, x: int, y: int, orientation: Orientation) -> bool {
        forall|i: int|
            0 <= i < self.ship_size ==> #[trigger] self.cell(
                run_x(x, orientation, i),
                run_y(y, orientation, i),
            ) == WATER
    }

    /// A placement is accepted exactly when its run is on the grid and clear.
    pub open spec fn placement_ok(self, x: int, y: int, orientation: Orientation) -> bool {
        self.run_in_bounds(x, y, orientation) && self.run_clear(x, y, orientation)
    }

    /// Some live ship carries this id.
    pub open spec fn has_live_ship(self, id: char) -> bool {
        exists|i: int| 0 <= i < self.ships@.len() && (#[trigger] self.ships@[i]).id == id
    }

    /// Index of the live ship carrying `id` (meaningful under `has_live_ship`).
    pub open spec fn live_ship_index(self, id: char) -> int {
        choose|i: int| 0 <= i < self.ships@.len() && (#[trigger] self.ships@[i]).id == id
    }

    /// A live ship record is consistent with the grid: a real id, not sunk,
    /// exactly `ship_size` coordinates, each on the grid and marked with the id.
    pub open spec fn ship_ok(self, s: Ship) -> bool {
        &&& s.id != WATER
        &&& !s.is_sunk
        &&& s.coordinates@.len() == self.ship_size
        &&& forall|i: int|
            0 <= i < s.coordinates@.len() ==> self.in_bounds(
                (#[trigger] s.coordinates@[i]).x as int,
                s.coordinates@[i].y as int,
            ) && self.cell(s.coordinates@[i].x as int, s.coordinates@[i].y as int) == s.id
    }

    /// A non-water cell is claimed by some live ship with that id.
    pub open spec fn cell_owned(self, x: int, y: int) -> bool {
        exists|i: int|
            0 <= i < self.ships@.len() && (#[trigger] self.ships@[i]).id == self.cell(x, y)
                && ship_covers(self.ships@[i], x, y)
    }

    /// The board invariant: the grid is square, the cached bounds agree with
    /// the configuration, ship ids are unique, every live ship matches the
    /// grid, and every non-water cell belongs to a live ship.
    pub open spec fn wf(self) -> bool {
        &&& 1 <= self.ship_size <= self.grid_size
        &&& self.ship_x_bound == self.grid_size - self.ship_size
        &&& self.ship_y_bound == self.grid_size - self.ship_size
        &&& self.grid@.len() == self.grid_size
        &&& forall|r: int|
            0 <= r < self.grid_size ==> (#[trigger] self.grid@[r])@.len() == self.grid_size
        &&& forall|i: int, j: int|
            0 <= i < j < self.ships@.len() ==> (#[trigger] self.ships@[i]).id != (
            #[trigger] self.ships@[j]).id
        &&& forall|i: int| 0 <= i < self.ships@.len() ==> self.ship_ok(#[trigger] self.ships@[i])
        &&& forall|x: int, y: int|
            self.in_bounds(x, y) && #[trigger] self.cell(x, y) != WATER ==> self.cell_owned(x, y)
    }
}

/// Two distinct positions along a run name two distinct cells, so a placed
/// ship occupies exactly as many cells as its length.
pub proof fn lemma_run_cells_distinct(x: int, y: int, orientation: Orientation, i: int, j: int)
    requires
        i != j,
    ensures
        run_x(x, orientation, i) != run_x(x, orientation, j) || run_y(y, orientation, i) != run_y(
            y,
            orientation,
            j,
        ),
{
}

/// On an all-water board every run that stays on the grid is clear, so any
/// in-bounds placement is accepted.
pub proof fn lemma_all_water_placement_ok(b: Board, x: int, y: int, orientation: Orientation)
    requires
        b.wf(),
        forall|x2: int, y2: int| b.in_bounds(x2, y2) ==> #[trigger] b.cell(x2, y2) == WATER,
        b.run_in_bounds(x, y, orientation),
    ensures
        b.placement_ok(x, y, orientation),
{
    assert forall|i: int| 0 <= i < b.ship_size implies #[trigger] b.cell(
        run_x(x, orientation, i),
        run_y(y, orientation, i),
    ) == WATER by {
        assert(b.in_bounds(run_x(x, orientation, i), run_y(y, orientation, i)));
    }
}

/// Under the board invariant a cell is occupied exactly when one of the live
/// ships covers it: an `Overlap` rejection is precisely an intersection with
/// a previously placed ship.
pub proof fn lemma_occupied_iff_ship_covers(b: Board, x: int, y: int)
    requires
        b.wf(),
        b.in_bounds(x, y),
    ensures
        b.cell(x, y) != WATER <==> exists|i: int|
            0 <= i < b.ships@.len() && ship_covers(#[trigger] b.ships@[i], x, y),
{
    if b.cell(x, y) != WATER {
        assert(b.cell_owned(x, y));
        let i = choose|i: int|
            0 <= i < b.ships@.len() && (#[trigger] b.ships@[i]).id == b.cell(x, y) && ship_covers(
                b.ships@[i],
                x,
                y,
            );
        assert(0 <= i < b.ships@.len() && ship_covers(b.ships@[i], x, y));
    }
    if exists|i: int| 0 <= i < b.ships@.len() && ship_covers(#[trigger] b.ships@[i], x, y) {
        let i = choose|i: int| 0 <= i < b.ships@.len() && ship_covers(#[trigger] b.ships@[i], x, y);
        let s = b.ships@[i];
        assert(b.ship_ok(s));
        let m = choose|m: int|
            0 <= m < s.coordinates@.len() && (#[trigger] s.coordinates@[m]).x == x
                && s.coordinates@[m].y == y;
        assert(0 <= m < s.coordinates@.len() && s.coordinates@[m].x == x && s.coordinates@[m].y
            == y);
        assert(b.cell(x, y) == s.id);
    }
}

/// Shooting a water cell misses and leaves the board exactly as it was, and
/// doing so twice at the same cell misses both times.
pub proof fn lemma_shoot_water_idempotent(
    b0: Board,
    b1: Board,
    b2: Board,
    r1: Option<char>,
    r2: Option<char>,
    x: int,
    y: int,
)
    requires
        b0.cell(x, y) == WATER,
        shoot_post(b0, b1, r1, x, y),
        shoot_post(b1, b2, r2, x, y),
    ensures
        r1 is None,
        b1 == b0,
        r2 is None,
        b2 == b0,
{
}

/// A shot into a live ship's cell reports exactly that ship, shrinks the live
/// count by exactly one, and turns every one of the ship's former cells to
/// water, so a follow-up shot at any of those cells misses and changes
/// nothing.
pub proof fn lemma_hit_sinks_then_misses(
    b0: Board,
    b1: Board,
    b2: Board,
    r1: Option<char>,
    r2: Option<char>,
    x: int,
    y: int,
    x2: int,
    y2: int,
)
    requires
        b0.wf(),
        b0.in_bounds(x, y),
        b0.cell(x, y) != WATER,
        shoot_post(b0, b1, r1, x, y),
        b0.in_bounds(x2, y2),
        ship_covers(b0.ships@[b0.live_ship_index(b0.cell(x, y))], x2, y2),
        shoot_post(b1, b2, r2, x2, y2),
    ensures
        r1 == Some(b0.cell(x, y)),
        b1.ships@.len() == b0.ships@.len() - 1,
        b1.cell(x2, y2) == WATER,
        r2 is None,
        b2 == b1,
{
    assert(b1.cell(x2, y2) == WATER);
}

/// Every hit sinks exactly one ship, so a run of hits drains the live count
/// by one per shot; in particular, after as many hits as there were live
/// ships at the start, exactly zero remain.
pub proof fn lemma_hits_deplete(states: Seq<Board>, shots: Seq<(int, int)>, ids: Seq<char>)
    requires
        states.len() == shots.len() + 1,
        ids.len() == shots.len(),
        forall|i: int|
            0 <= i < shots.len() ==> shoot_post(
                #[trigger] states[i],
                states[i + 1],
                Some(ids[i]),
                shots[i].0,
                shots[i].1,
            ),
    ensures
        states.last().ships@.len() == states.first().ships@.len() - shots.len(),
        states.first().ships@.len() == shots.len() ==> states.last().ships@.len() == 0,
    decreases shots.len(),
{
    if shots.len() == 0 {
        assert(states.last() == states.first());
    } else {
        assert(shoot_post(states[0], states[1], Some(ids[0]), shots[0].0, shots[0].1));
        assert(states[1].ships@.len() == states[0].ships@.len() - 1);
        let states2 = states.subrange(1, states.len() as int);
        let shots2 = shots.subrange(1, shots.len() as int);
        let ids2 = ids.subrange(1, ids.len() as int);
        assert forall|i: int| 0 <= i < shots2.len() implies shoot_post(
            #[trigger] states2[i],
            states2[i + 1],
            Some(ids2[i]),
            shots2[i].0,
            shots2[i].1,
        ) by {
            assert(states2[i] == states[i + 1]);
            assert(states2[i + 1] == states[i + 2]);
            assert(shots2[i] == shots[i + 1]);
            assert(ids2[i] == ids[i + 1]);
        }
        lemma_hits_deplete(states2, shots2, ids2);
        assert(states2.last() == states.last());
        assert(states2.first() == states[1]);
    }
}

fn get_coordinate(grid: &Vec<Vec<char>>, x: usize, y: usize) -> (c: char)
    requires
        y < grid@.len(),
        x < grid@[y as int]@.len(),
    ensures
        c == grid@[y as int]@[x as int],
{
    grid[y][x]
}

fn set_coordinate(grid: &mut Vec<Vec<char>>, x: usize, y: usize, value: char)
    requires
        y < old(grid)@.len(),
        x < old(grid)@[y as int]@.len(),
    ensures
        final(grid)@.len() == old(grid)@.len(),
        final(grid)@[y as int]@ == old(grid)@[y as int]@.update(x as int, value),
        forall|r: int|
            0 <= r < old(grid)@.len() && r != y ==> #[trigger] final(grid)@[r] == old(grid)@[r],
{
    let row = &mut grid[y];
    row[x] = value;
}

impl Board {
    /// A fresh all-water board. The grid must be at least as large as a ship
    /// so that the placement bounds are meaningful.
    pub fn new(grid_size: usize, ship_size: usize) -> (board: Board)
        requires
            1 <= ship_size <= grid_size,
        ensures
            board.wf(),
            board.grid_size == grid_size,
            board.ship_size == ship_size,
            board.ships@.len() == 0,
            forall|x: int, y: int| board.in_bounds(x, y) ==> #[trigger] board.cell(x, y) == WATER,
    {
        let mut grid: Vec<Vec<char>> = Vec::new();
        let mut r: usize = 0;
        while r < grid_size
            invariant
                r <= grid_size,
                grid@.len() == r,
                forall|i: int| 0 <= i < r ==> (#[trigger] grid@[i])@.len() == grid_size,
                forall|i: int, j: int|
                    0 <= i < r && 0 <= j < grid_size ==> #[trigger] grid@[i]@[j] == WATER,
            decreases grid_size - r,
        {
            let mut row: Vec<char> = Vec::new();
            let mut c: usize = 0;
            while c < grid_size
                invariant
                    c <= grid_size,
                    row@.len() == c,
                    forall|j: int| 0 <= j < c ==> #[trigger] row@[j] == WATER,
                decreases grid_size - c,
            {
                row.push(WATER);
                c += 1;
            }
            grid.push(row);
            r += 1;
        }
        Board {
            grid,
            grid_size,
            ship_size,
            ship_x_bound: grid_size - ship_size,
            ship_y_bound: grid_size - ship_size,
            ships: Vec::new(),
        }
    }

    /// `(x, y)` is a cell of this grid.
    pub fn check_bounds(&self, x: usize, y: usize) -> (r: bool)
        ensures
            r == (x < self.grid_size && y < self.grid_size),
    {
        x < self.grid_size && y < self.grid_size
    }

    /// The whole ship run starting at `(x, y)` stays on the grid.
    pub fn check_bounds_ship(&self, x: usize, y: usize, ship_orientation: &Orientation) -> (r:
        bool)
        requires
            self.wf(),
        ensures
            r == self.run_in_bounds(x as int, y as int, *ship_orientation),
    {
        match ship_orientation {
            Orientation::Horizontal => x <= self.ship_x_bound && y < self.grid_size,
            Orientation::Vertical => x < self.grid_size && y <= self.ship_y_bound,
        }
    }

    /// The live ship carrying `ship_id`, if any.
    pub fn get_ship_by_id(&self, ship_id: char) -> (r: Option<&Ship>)
        requires
            self.wf(),
        ensures
            r is Some <==> self.has_live_ship(ship_id),
            r matches Some(s) ==> *s == self.ships@[self.live_ship_index(ship_id)] && s.id
                == ship_id,
    {
        let mut i: usize = 0;
        while i < self.ships.len()
            invariant
                self.wf(),
                i <= self.ships@.len(),
                forall|j: int| 0 <= j < i ==> (#[trigger] self.ships@[j]).id != ship_id,
            decreases self.ships@.len() - i,
        {
            if self.ships[i].id == ship_id {
                proof {
                    assert(self.has_live_ship(ship_id));
                    let j = self.live_ship_index(ship_id);
                    assert(0 <= j < self.ships@.len() && self.ships@[j].id == ship_id);
                    if i < j {
                        assert(self.ships@[i as int].id != self.ships@[j].id);
                    }
                    if j < i {
                        assert(self.ships@[j].id != self.ships@[i as int].id);
                    }
                }
                return Some(&self.ships[i]);
            }
            i += 1;
        }
        None
    }

    /// Decide whether a ship may be placed with its run starting at `(x, y)`.
    /// Pure: reads the grid, changes nothing, and may be repeated freely.
    pub fn validate_placement(&self, x: usize, y: usize, orientation: Orientation) -> (r: Result<
        (),
        PlacementError,
    >)
        requires
            self.wf(),
        ensures
            r == Ok::<(), PlacementError>(()) <==> self.placement_ok(x as int, y as int, orientation),
            r == Err::<(), PlacementError>(PlacementError::OutOfBounds) <==> !self.run_in_bounds(
                x as int,
                y as int,
                orientation,
            ),
            r == Err::<(), PlacementError>(PlacementError::Overlap) <==> (self.run_in_bounds(
                x as int,
                y as int,
                orientation,
            ) && !self.run_clear(x as int, y as int, orientation)),
    {
        if !self.check_bounds_ship(x, y, &orientation) {
            return Err(PlacementError::OutOfBounds);
        }
        let ship_size = self.ship_size;
        let mut i: usize = 0;
        while i < ship_size
            invariant
                self.wf(),
                ship_size == self.ship_size,
                i <= ship_size,
                self.run_in_bounds(x as int, y as int, orientation),
                forall|k: int|
                    0 <= k < i ==> #[trigger] self.cell(
                        run_x(x as int, orientation, k),
                        run_y(y as int, orientation, k),
                    ) == WATER,
            decreases ship_size - i,
        {
            let (cx, cy) = match orientation {
                Orientation::Horizontal => (x + i, y),
                Orientation::Vertical => (x, y + i),
            };
            if get_coordinate(&self.grid, cx, cy) != WATER {
                proof {
                    assert(self.cell(
                        run_x(x as int, orientation, i as int),
                        run_y(y as int, orientation, i as int),
                    ) != WATER);
                }
                return Err(PlacementError::Overlap);
            }
            proof {
                assert(self.cell(
                    run_x(x as int, orientation, i as int),
                    run_y(y as int, orientation, i as int),
                ) == WATER);
            }
            i += 1;
        }
        Ok(())
    }

    /// Mark the run of cells starting at `(x, y)` with `ship_id` and record
    /// the new live ship. Expects validation to have passed already: the run
    /// must be on the grid and all water, and the id fresh.
    pub fn place_ship(&mut self, x: usize, y: usize, orientation: Orientation, ship_id: char)
        requires
            old(self).wf(),
            old(self).placement_ok(x as int, y as int, orientation),
            ship_id != WATER,
            !old(self).has_live_ship(ship_id),
        ensures
            final(self).wf(),
            final(self).grid_size == old(self).grid_size,
            final(self).ship_size == old(self).ship_size,
            final(self).ships@.len() == old(self).ships@.len() + 1,
            final(self).ships@ == old(self).ships@.push(final(self).ships@.last()),
            ({
                let s = final(self).ships@.last();
                &&& s.id == ship_id
                &&& !s.is_sunk
                &&& s.coordinates@.len() == old(self).ship_size
                &&& forall|k: int|
                    0 <= k < s.coordinates@.len() ==> (#[trigger] s.coordinates@[k]).x == run_x(
                        x as int,
                        orientation,
                        k,
                    ) && s.coordinates@[k].y == run_y(y as int, orientation, k)
            }),
            forall|x2: int, y2: int|
                old(self).in_bounds(x2, y2) ==> #[trigger] final(self).cell(x2, y2) == (
                if run_covers_prefix(x as int, y as int, orientation, old(self).ship_size as int, x2, y2) {
                    ship_id
                } else {
                    old(self).cell(x2, y2)
                }),
            forall|x2: int, y2: int|
                old(self).in_bounds(x2, y2) ==> (#[trigger] final(self).cell(x2, y2) == ship_id
                    <==> run_covers_prefix(
                    x as int,
                    y as int,
                    orientation,
                    old(self).ship_size as int,
                    x2,
                    y2,
                )),
    {
        let ship_size = self.ship_size;
        let mut ship_coordinates: Vec<Coord> = Vec::new();
        let mut i: usize = 0;
        while i < ship_size
            invariant
                old(self).wf(),
                old(self).placement_ok(x as int, y as int, orientation),
                ship_id != WATER,
                !old(self).has_live_ship(ship_id),
                ship_size == old(self).ship_size,
                i <= ship_size,
                self.grid_size == old(self).grid_size,
                self.ship_size == old(self).ship_size,
                self.ship_x_bound == old(self).ship_x_bound,
                self.ship_y_bound == old(self).ship_y_bound,
                self.ships == old(self).ships,
                self.grid@.len() == old(self).grid@.len(),
                forall|r: int|
                    0 <= r < self.grid_size ==> (#[trigger] self.grid@[r])@.len()
                        == self.grid_size,
                ship_coordinates@.len() == i,
                forall|k: int|
                    0 <= k < i ==> (#[trigger] ship_coordinates@[k]).x == run_x(
                        x as int,
                        orientation,
                        k,
                    ) && ship_coordinates@[k].y == run_y(y as int, orientation, k),
                forall|x2: int, y2: int|
                    old(self).in_bounds(x2, y2) ==> #[trigger] self.cell(x2, y2) == (
                    if run_covers_prefix(x as int, y as int, orientation, i as int, x2, y2) {
                        ship_id
                    } else {
                        old(self).cell(x2, y2)
                    }),
            decreases ship_size - i,
        {
            let (cx, cy) = match orientation {
                Orientation::Horizontal => (x + i, y),
                Orientation::Vertical => (x, y + i),
            };
            let ghost prev = *self;
            set_coordinate(&mut self.grid, cx, cy, ship_id);
            ship_coordinates.push(Coord { x: cx, y: cy });
            proof {
                let xi = x as int;
                let yi = y as int;
                let cxi = cx as int;
                let cyi = cy as int;
                assert(cxi == run_x(xi, orientation, i as int));
                assert(cyi == run_y(yi, orientation, i as int));
                assert forall|x2: int, y2: int| old(self).in_bounds(x2, y2) implies #[trigger] self.cell(
                    x2,
                    y2,
                ) == (if run_covers_prefix(xi, yi, orientation, i + 1, x2, y2) {
                    ship_id
                } else {
                    old(self).cell(x2, y2)
                }) by {
                    if y2 == cyi {
                        assert(self.grid@[y2]@ == prev.grid@[y2]@.update(cxi, ship_id));
                    } else {
                        assert(self.grid@[y2] == prev.grid@[y2]);
                    }
                    assert(prev.cell(x2, y2) == (if run_covers_prefix(
                        xi,
                        yi,
                        orientation,
                        i as int,
                        x2,
                        y2,
                    ) {
                        ship_id
                    } else {
                        old(self).cell(x2, y2)
                    }));
                    if x2 == cxi && y2 == cyi {
                        assert(run_covers_prefix(xi, yi, orientation, i + 1, x2, y2));
                        assert(self.cell(x2, y2) == ship_id);
                    } else {
                        assert(self.cell(x2, y2) == prev.cell(x2, y2));
                        if run_covers_prefix(xi, yi, orientation, i + 1, x2, y2) {
                            let k = choose|k: int|
                                0 <= k < i + 1 && run_x(xi, orientation, k) == x2 && run_y(
                                    yi,
                                    orientation,
                                    k,
                                ) == y2;
                            assert(k < i);
                            assert(run_covers_prefix(xi, yi, orientation, i as int, x2, y2));
                        } else {
                            assert(!run_covers_prefix(xi, yi, orientation, i as int, x2, y2));
                        }
                    }
                }
            }
            i += 1;
        }
        let ghost mid = *self;
        let ship = Ship { id: ship_id, coordinates: ship_coordinates, is_sunk: false };
        self.ships.push(ship);
        proof {
            let pre = *old(self);
            let n = pre.ship_size as int;
            let xi = x as int;
            let yi = y as int;
            let s = self.ships@.last();
            assert(self.ships@ == pre.ships@.push(s));
            assert(self.grid == mid.grid);
            // The grid after the loop, read through the final state.
            assert forall|x2: int, y2: int| pre.in_bounds(x2, y2) implies #[trigger] self.cell(
                x2,
                y2,
            ) == (if run_covers_prefix(xi, yi, orientation, n, x2, y2) {
                ship_id
            } else {
                pre.cell(x2, y2)
            }) by {
                assert(self.cell(x2, y2) == mid.cell(x2, y2));
                assert(mid.cell(x2, y2) == (if run_covers_prefix(xi, yi, orientation, n, x2, y2) {
                    ship_id
                } else {
                    pre.cell(x2, y2)
                }));
            }
            // Every cell of the run lies on the grid.
            assert forall|k: int| 0 <= k < n implies pre.in_bounds(
                run_x(xi, orientation, k),
                run_y(yi, orientation, k),
            ) by {}
            // A cell of the run was water beforehand.
            assert forall|x2: int, y2: int|
                run_covers_prefix(xi, yi, orientation, n, x2, y2) implies (pre.in_bounds(x2, y2)
                && pre.cell(x2, y2) == WATER) by {
                let k = choose|k: int|
                    0 <= k < n && run_x(xi, orientation, k) == x2 && run_y(yi, orientation, k)
                        == y2;
                assert(pre.cell(run_x(xi, orientation, k), run_y(yi, orientation, k)) == WATER);
            }
            // The id is fresh, so no earlier ship carries it.
            assert forall|i: int| 0 <= i < pre.ships@.len() implies (#[trigger] pre.ships@[i]).id
                != ship_id by {}
            // Earlier ships keep their marks: the run touched only water.
            assert forall|i: int| 0 <= i < pre.ships@.len() implies self.ship_ok(
                #[trigger] self.ships@[i],
            ) by {
                let sh = pre.ships@[i];
                assert(self.ships@[i] == sh);
                assert(pre.ship_ok(sh));
                assert forall|k: int| 0 <= k < sh.coordinates@.len() implies self.in_bounds(
                    (#[trigger] sh.coordinates@[k]).x as int,
                    sh.coordinates@[k].y as int,
                ) && self.cell(sh.coordinates@[k].x as int, sh.coordinates@[k].y as int)
                    == sh.id by {
                    let cx2 = sh.coordinates@[k].x as int;
                    let cy2 = sh.coordinates@[k].y as int;
                    assert(pre.in_bounds(cx2, cy2) && pre.cell(cx2, cy2) == sh.id);
                    if run_covers_prefix(xi, yi, orientation, n, cx2, cy2) {
                        assert(pre.cell(cx2, cy2) == WATER);
                        assert(false);
                    }
                }
            }
            // The new record matches the grid.
            assert(self.ship_ok(s)) by {
                assert forall|k: int| 0 <= k < s.coordinates@.len() implies self.in_bounds(
                    (#[trigger] s.coordinates@[k]).x as int,
                    s.coordinates@[k].y as int,
                ) && self.cell(s.coordinates@[k].x as int, s.coordinates@[k].y as int)
                    == s.id by {
                    assert(s.coordinates@[k].x == run_x(xi, orientation, k));
                    assert(s.coordinates@[k].y == run_y(yi, orientation, k));
                    assert(run_covers_prefix(
                        xi,
                        yi,
                        orientation,
                        n,
                        s.coordinates@[k].x as int,
                        s.coordinates@[k].y as int,
                    ));
                }
            }
            // Every non-water cell still has a live owner.
            assert forall|x2: int, y2: int|
                self.in_bounds(x2, y2) && #[trigger] self.cell(x2, y2) != WATER implies self.cell_owned(
                x2,
                y2,
            ) by {
                if run_covers_prefix(xi, yi, orientation, n, x2, y2) {
                    let idx = pre.ships@.len() as int;
                    assert(self.ships@[idx] == s);
                    let k = choose|k: int|
                        0 <= k < n && run_x(xi, orientation, k) == x2 && run_y(yi, orientation, k)
                            == y2;
                    assert(s.coordinates@[k].x == x2 && s.coordinates@[k].y == y2);
                    assert(ship_covers(s, x2, y2));
                    assert(self.cell(x2, y2) == ship_id);
                } else {
                    assert(self.cell(x2, y2) == pre.cell(x2, y2));
                    assert(pre.cell_owned(x2, y2));
                    let i = choose|i: int|
                        0 <= i < pre.ships@.len() && (#[trigger] pre.ships@[i]).id == pre.cell(
                            x2,
                            y2,
                        ) && ship_covers(pre.ships@[i], x2, y2);
                    assert(self.ships@[i] == pre.ships@[i]);
                }
            }
            // Conversely, a cell marked with the new id is a cell of the run.
            assert forall|x2: int, y2: int|
                pre.in_bounds(x2, y2) && #[trigger] self.cell(x2, y2) == ship_id implies run_covers_prefix(
                xi,
                yi,
                orientation,
                n,
                x2,
                y2,
            ) by {
                if !run_covers_prefix(xi, yi, orientation, n, x2, y2) {
                    assert(pre.cell(x2, y2) == ship_id);
                    assert(pre.cell_owned(x2, y2));
                    let i = choose|i: int|
                        0 <= i < pre.ships@.len() && (#[trigger] pre.ships@[i]).id == pre.cell(
                            x2,
                            y2,
                        ) && ship_covers(pre.ships@[i], x2, y2);
                    assert(pre.has_live_ship(ship_id));
                    assert(false);
                }
            }
        }
    }

    /// Number of ships still afloat on this board.
    pub fn get_remaining_ships_count(&self) -> (n: usize)
        ensures
            n == self.ships@.len(),
    {
        self.ships.len()
    }

    /// Destroy the live ship carrying `ship_id`: reset every one of its cells
    /// to water and evict it from the live index. Without such a ship this
    /// does nothing.
    fn sink(&mut self, ship_id: &char)
        requires
            old(self).wf(),
        ensures
            final(self).wf(),
            !old(self).has_live_ship(*ship_id) ==> *final(self) == *old(self),
            old(self).has_live_ship(*ship_id) ==> ({
                let i = old(self).live_ship_index(*ship_id);
                &&& final(self).grid_size == old(self).grid_size
                &&& final(self).ship_size == old(self).ship_size
                &&& final(self).ship_x_bound == old(self).ship_x_bound
                &&& final(self).ship_y_bound == old(self).ship_y_bound
                &&& final(self).ships@ == old(self).ships@.remove(i)
                &&& forall|x2: int, y2: int|
                    old(self).in_bounds(x2, y2) ==> #[trigger] final(self).cell(x2, y2) == (
                    if ship_covers(old(self).ships@[i], x2, y2) {
                        WATER
                    } else {
                        old(self).cell(x2, y2)
                    })
            }),
    {
        let n = self.ships.len();
        let mut found = false;
        let mut idx: usize = 0;
        let mut j: usize = 0;
        while j < n
            invariant
                *self == *old(self),
                self.wf(),
                n == self.ships@.len(),
                j <= n,
                found ==> idx < n && self.ships@[idx as int].id == *ship_id,
                !found ==> forall|k: int| 0 <= k < j ==> (#[trigger] self.ships@[k]).id
                    != *ship_id,
            decreases n - j,
        {
            if !found && self.ships[j].id == *ship_id {
                found = true;
                idx = j;
            }
            j += 1;
        }
        if !found {
            return;
        }
        proof {
            assert(self.has_live_ship(*ship_id));
            let i0 = self.live_ship_index(*ship_id);
            assert(0 <= i0 < self.ships@.len() && self.ships@[i0].id == *ship_id);
            if i0 < idx {
                assert(self.ships@[i0].id != self.ships@[idx as int].id);
            }
            if idx < i0 {
                assert(self.ships@[idx as int].id != self.ships@[i0].id);
            }
            assert(i0 == idx);
        }
        let len = self.ships[idx].coordinates.len();
        let mut k: usize = 0;
        while k < len
            invariant
                old(self).wf(),
                idx < old(self).ships@.len(),
                self.ships == old(self).ships,
                self.grid_size == old(self).grid_size,
                self.ship_size == old(self).ship_size,
                self.ship_x_bound == old(self).ship_x_bound,
                self.ship_y_bound == old(self).ship_y_bound,
                self.grid@.len() == old(self).grid@.len(),
                forall|r: int|
                    0 <= r < self.grid_size ==> (#[trigger] self.grid@[r])@.len()
                        == self.grid_size,
                len == old(self).ships@[idx as int].coordinates@.len(),
                k <= len,
                forall|x2: int, y2: int|
                    old(self).in_bounds(x2, y2) ==> #[trigger] self.cell(x2, y2) == (
                    if ship_covers_prefix(old(self).ships@[idx as int], k as int, x2, y2) {
                        WATER
                    } else {
                        old(self).cell(x2, y2)
                    }),
            decreases len - k,
        {
            let c = self.ships[idx].coordinates[k];
            proof {
                let s = old(self).ships@[idx as int];
                assert(old(self).ship_ok(s));
                assert(old(self).in_bounds(s.coordinates@[k as int].x as int, s.coordinates@[k as int].y as int));
            }
            let ghost prev = *self;
            set_coordinate(&mut self.grid, c.x, c.y, WATER);
            proof {
                let s = old(self).ships@[idx as int];
                let cxi = c.x as int;
                let cyi = c.y as int;
                assert forall|x2: int, y2: int| old(self).in_bounds(x2, y2) implies #[trigger] self.cell(
                    x2,
                    y2,
                ) == (if ship_covers_prefix(s, k + 1, x2, y2) {
                    WATER
                } else {
                    old(self).cell(x2, y2)
                }) by {
                    if y2 == cyi {
                        assert(self.grid@[y2]@ == prev.grid@[y2]@.update(cxi, WATER));
                    } else {
                        assert(self.grid@[y2] == prev.grid@[y2]);
                    }
                    assert(prev.cell(x2, y2) == (if ship_covers_prefix(s, k as int, x2, y2) {
                        WATER
                    } else {
                        old(self).cell(x2, y2)
                    }));
                    if x2 == cxi && y2 == cyi {
                        assert(s.coordinates@[k as int].x == x2 && s.coordinates@[k as int].y
                            == y2);
                        assert(ship_covers_prefix(s, k + 1, x2, y2));
                        assert(self.cell(x2, y2) == WATER);
                    } else {
                        assert(self.cell(x2, y2) == prev.cell(x2, y2));
                        if ship_covers_prefix(s, k + 1, x2, y2) {
                            let m = choose|m: int|
                                0 <= m < k + 1 && m < s.coordinates@.len() && (
                                #[trigger] s.coordinates@[m]).x == x2 && s.coordinates@[m].y
                                    == y2;
                            assert(m < k);
                            assert(ship_covers_prefix(s, k as int, x2, y2));
                        } else {
                            assert(!ship_covers_prefix(s, k as int, x2, y2));
                        }
                    }
                }
            }
            k += 1;
        }
        let ghost mid = *self;
        self.ships.remove(idx);
        proof {
            let pre = *old(self);
            let s = pre.ships@[idx as int];
            assert(self.ships@ == pre.ships@.remove(idx as int));
            assert(self.grid == mid.grid);
            // The grid after the clearing loop, read through the final state.
            assert forall|x2: int, y2: int| pre.in_bounds(x2, y2) implies #[trigger] self.cell(
                x2,
                y2,
            ) == (if ship_covers(s, x2, y2) {
                WATER
            } else {
                pre.cell(x2, y2)
            }) by {
                assert(self.cell(x2, y2) == mid.cell(x2, y2));
                assert(mid.cell(x2, y2) == (if ship_covers_prefix(s, s.coordinates@.len() as int, x2, y2) {
                    WATER
                } else {
                    pre.cell(x2, y2)
                }));
            }
            // Where each surviving ship sits in the shortened index.
            assert forall|a: int| 0 <= a < self.ships@.len() implies #[trigger] self.ships@[a] == (
            if a < idx {
                pre.ships@[a]
            } else {
                pre.ships@[a + 1]
            }) by {}
            // Ids stay distinct.
            assert forall|a: int, b: int|
                0 <= a < b < self.ships@.len() implies (#[trigger] self.ships@[a]).id != (
            #[trigger] self.ships@[b]).id by {
                let a0 = if a < idx { a } else { a + 1 };
                let b0 = if b < idx { b } else { b + 1 };
                assert(pre.ships@[a0].id != pre.ships@[b0].id);
            }
            // Distinct live ships never share a cell, so survivors keep their marks.
            assert forall|a: int| 0 <= a < self.ships@.len() implies self.ship_ok(
                #[trigger] self.ships@[a],
            ) by {
                let a0 = if a < idx { a } else { a + 1 };
                let sh = pre.ships@[a0];
                assert(self.ships@[a] == sh);
                assert(pre.ship_ok(sh));
                assert forall|m: int| 0 <= m < sh.coordinates@.len() implies self.in_bounds(
                    (#[trigger] sh.coordinates@[m]).x as int,
                    sh.coordinates@[m].y as int,
                ) && self.cell(sh.coordinates@[m].x as int, sh.coordinates@[m].y as int)
                    == sh.id by {
                    let cx2 = sh.coordinates@[m].x as int;
                    let cy2 = sh.coordinates@[m].y as int;
                    assert(pre.in_bounds(cx2, cy2) && pre.cell(cx2, cy2) == sh.id);
                    if ship_covers(s, cx2, cy2) {
                        let w = choose|w: int|
                            0 <= w < s.coordinates@.len() && (#[trigger] s.coordinates@[w]).x
                                == cx2 && s.coordinates@[w].y == cy2;
                        assert(0 <= w < s.coordinates@.len() && s.coordinates@[w].x == cx2
                            && s.coordinates@[w].y == cy2);
                        assert(pre.cell(cx2, cy2) == s.id);
                        assert(sh.id == s.id);
                        assert(a0 != idx);
                        if a0 < idx {
                            assert(pre.ships@[a0].id != pre.ships@[idx as int].id);
                        } else {
                            assert(pre.ships@[idx as int].id != pre.ships@[a0].id);
                        }
                        assert(false);
                    }
                }
            }
            // Every surviving non-water cell still has a live owner.
            assert forall|x2: int, y2: int|
                self.in_bounds(x2, y2) && #[trigger] self.cell(x2, y2) != WATER implies self.cell_owned(
                x2,
                y2,
            ) by {
                assert(!ship_covers(s, x2, y2));
                assert(self.cell(x2, y2) == pre.cell(x2, y2));
                assert(pre.cell_owned(x2, y2));
                let o = choose|o: int|
                    0 <= o < pre.ships@.len() && (#[trigger] pre.ships@[o]).id == pre.cell(
                        x2,
                        y2,
                    ) && ship_covers(pre.ships@[o], x2, y2);
                assert(o != idx);
                let a = if o < idx {
                    o
                } else {
                    o - 1
                };
                assert(self.ships@[a] == pre.ships@[o]);
                assert((#[trigger] self.ships@[a]).id == self.cell(x2, y2) && ship_covers(
                    self.ships@[a],
                    x2,
                    y2,
                ));
            }
        }
    }

    /// Resolve one shot at `(x, y)`. Water means a miss and no change; a cell
    /// marked with a live ship's id sinks that whole ship at once and reports
    /// which ship was hit.
    pub fn shoot(&mut self, x: usize, y: usize) -> (r: Option<char>)
        requires
            old(self).wf(),
            x < old(self).grid_size,
            y < old(self).grid_size,
        ensures
            final(self).wf(),
            shoot_post(*old(self), *final(self), r, x as int, y as int),
    {
        let target = get_coordinate(&self.grid, x, y);
        if target == WATER {
            return None;
        }
        proof {
            assert(self.cell(x as int, y as int) != WATER);
            assert(self.cell_owned(x as int, y as int));
            let i = choose|i: int|
                0 <= i < self.ships@.len() && (#[trigger] self.ships@[i]).id == self.cell(
                    x as int,
                    y as int,
                ) && ship_covers(self.ships@[i], x as int, y as int);
            assert(self.has_live_ship(target));
        }
        let is_live = match self.get_ship_by_id(target) {
            None => false,
            Some(ship) => !ship.is_sunk,
        };
        proof {
            let i = self.live_ship_index(target);
            assert(self.ship_ok(self.ships@[i]));
            assert(is_live);
        }
        if is_live {
            self.sink(&target);
            Some(target)
        } else {
            None
        }
    }
}

} // verus!
