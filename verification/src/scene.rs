//! The scene: the mutable grid of cells, the player's coordinate, and the
//! undo history. A move extracts the three-cell window ahead of the player,
//! lets the cell algebra resolve it, and commits the result together with an
//! undo record; `undo` plays the newest record back.

use vstd::prelude::*;
use vstd::string::StrSliceExecFns;

use crate::cell::{bears_player, spec_shift, spec_vol, triple_vol, Cell, Triple};

verus! {

/// The characters a textual layout may use.
pub open spec fn legal_char(ch: char) -> bool {
    ch == ' ' || ch == '#' || ch == 'o' || ch == 'O' || ch == 'x' || ch == 'i' || ch == 'I'
}

/// The cell each layout character stands for.
pub open spec fn char_cell(ch: char) -> Cell {
    if ch == ' ' {
        Cell::Ground
    } else if ch == '#' {
        Cell::Wall
    } else if ch == 'o' {
        Cell::Case
    } else if ch == 'O' {
        Cell::CaseOnTarget
    } else if ch == 'x' {
        Cell::Target
    } else if ch == 'i' {
        Cell::Player
    } else {
        Cell::PlayerOnTarget
    }
}

/// The characters that place the player.
pub open spec fn is_player_char(ch: char) -> bool {
    ch == 'i' || ch == 'I'
}

/// The rows of a layout as sequences of characters.
pub open spec fn layout_view(rows: Seq<&str>) -> Seq<Seq<char>> {
    Seq::new(rows.len(), |i: int| rows[i]@)
}

/// A player character stands at (r, c) of the layout.
pub open spec fn player_spot(lay: Seq<Seq<char>>, r: int, c: int) -> bool {
    0 <= r < lay.len() && 0 <= c < lay[r].len() && is_player_char(lay[r][c])
}

/// Some player character occurs in the layout.
pub open spec fn has_player(lay: Seq<Seq<char>>) -> bool {
    exists|r: int, c: int| player_spot(lay, r, c)
}

/// (r, c) is the layout's player spot that a row-major scan meets last.
pub open spec fn last_player_spot(lay: Seq<Seq<char>>, r: int, c: int) -> bool {
    &&& player_spot(lay, r, c)
    &&& forall|r2: int, c2: int|
        #[trigger] player_spot(lay, r2, c2) ==> r2 < r || (r2 == r && c2 <= c)
}

/// (r, c) comes strictly before the scan position (rlim, clim) in row-major
/// order.
spec fn scanned_before(r: int, c: int, rlim: int, clim: int) -> bool {
    r < rlim || (r == rlim && c < clim)
}

/// What the loading scan knows of the player coordinate once it has reached
/// position (rlim, clim): `cur` is the newest player spot already scanned,
/// or still `orig` when none was.
spec fn player_tracking(
    lay: Seq<Seq<char>>,
    rlim: int,
    clim: int,
    orig: Coordinate,
    cur: Coordinate,
) -> bool {
    if exists|r: int, c: int| #[trigger] player_spot(lay, r, c) && scanned_before(r, c, rlim, clim) {
        &&& player_spot(lay, cur.0 as int, cur.1 as int)
        &&& scanned_before(cur.0 as int, cur.1 as int, rlim, clim)
        &&& forall|r: int, c: int|
            #[trigger] player_spot(lay, r, c) && scanned_before(r, c, rlim, clim) ==> r < cur.0
                || (r == cur.0 && c <= cur.1)
    } else {
        cur == orig
    }
}

/// A (row, column) position in the grid.
pub type Coordinate = (usize, usize);

/// The grid itself: rows of cells, row-major.
pub type Grid = Vec<Vec<Cell>>;

/// One entry of the undo history: the three coordinates a move touched and
/// the three cells that stood there before the move.
pub type UndoRecord = (Coordinate, Coordinate, Coordinate, Triple);

/// Whether (r, c) indexes an existing cell. Rows are checked one by one, so
/// a ragged grid is handled faithfully.
pub open spec fn pos_in_bounds(grid: Seq<Seq<Cell>>, r: int, c: int) -> bool {
    0 <= r < grid.len() && 0 <= c < grid[r].len()
}

/// The grid with the cell at `p` replaced by `v`.
pub open spec fn write_cell(grid: Seq<Seq<Cell>>, p: Coordinate, v: Cell) -> Seq<Seq<Cell>> {
    grid.update(p.0 as int, grid[p.0 as int].update(p.1 as int, v))
}

/// Total volume of one row: the number of its solid (occupied or wall)
/// cells.
pub open spec fn row_vol(row: Seq<Cell>) -> int
    decreases row.len(),
{
    if row.len() == 0 {
        0
    } else {
        row_vol(row.drop_last()) + spec_vol(row.last())
    }
}

/// Total volume of the whole grid.
pub open spec fn grid_vol(grid: Seq<Seq<Cell>>) -> int
    decreases grid.len(),
{
    if grid.len() == 0 {
        0
    } else {
        grid_vol(grid.drop_last()) + row_vol(grid.last())
    }
}

proof fn lemma_row_vol_update(row: Seq<Cell>, i: int, v: Cell)
    requires
        0 <= i < row.len(),
    ensures
        row_vol(row.update(i, v)) == row_vol(row) - spec_vol(row[i]) + spec_vol(v),
    decreases row.len(),
{
    if i == row.len() - 1 {
        assert(row.update(i, v).drop_last() =~= row.drop_last());
    } else {
        lemma_row_vol_update(row.drop_last(), i, v);
        assert(row.update(i, v).drop_last() =~= row.drop_last().update(i, v));
    }
}

proof fn lemma_grid_vol_row_update(grid: Seq<Seq<Cell>>, i: int, row: Seq<Cell>)
    requires
        0 <= i < grid.len(),
    ensures
        grid_vol(grid.update(i, row)) == grid_vol(grid) - row_vol(grid[i]) + row_vol(row),
    decreases grid.len(),
{
    if i == grid.len() - 1 {
        assert(grid.update(i, row).drop_last() =~= grid.drop_last());
    } else {
        lemma_grid_vol_row_update(grid.drop_last(), i, row);
        assert(grid.update(i, row).drop_last() =~= grid.drop_last().update(i, row));
    }
}

/// Writing one cell changes the grid's volume by exactly the difference of
/// the new and the old cell's volume.
pub proof fn lemma_write_cell_vol(grid: Seq<Seq<Cell>>, p: Coordinate, v: Cell)
    requires
        pos_in_bounds(grid, p.0 as int, p.1 as int),
    ensures
        grid_vol(write_cell(grid, p, v)) == grid_vol(grid) - spec_vol(grid[p.0 as int][p.1 as int])
            + spec_vol(v),
{
    lemma_row_vol_update(grid[p.0 as int], p.1 as int, v);
    lemma_grid_vol_row_update(grid, p.0 as int, grid[p.0 as int].update(p.1 as int, v));
}

/// The mathematical state of a scene: the grid, the player's coordinate,
/// and the undo history, oldest record first.
#[verifier::ext_equal]
pub struct SceneView {
    pub grid: Seq<Seq<Cell>>,
    pub player: Coordinate,
    pub history: Seq<UndoRecord>,
}

/// A unit step along one axis: exactly one of the two deltas is nonzero,
/// and it is 1 or -1.
pub open spec fn is_direction(dr: int, dc: int) -> bool {
    ||| dr == 0 && (dc == 1 || dc == -1)
    ||| dc == 0 && (dr == 1 || dr == -1)
}

impl SceneView {
    /// Whether `p` names an existing cell of this grid.
    pub open spec fn coord_ok(self, p: Coordinate) -> bool {
        pos_in_bounds(self.grid, p.0 as int, p.1 as int)
    }

    /// The cell standing at `p`.
    pub open spec fn cell(self, p: Coordinate) -> Cell {
        self.grid[p.0 as int][p.1 as int]
    }

    /// Every history record points at cells that exist, so playing a record
    /// back stays inside the grid. Established by the constructors and kept
    /// by every operation.
    pub open spec fn wf(self) -> bool {
        forall|i: int|
            0 <= i < self.history.len() ==> self.record_in_bounds(#[trigger] self.history[i])
    }

    pub open spec fn record_in_bounds(self, rec: UndoRecord) -> bool {
        self.coord_ok(rec.0) && self.coord_ok(rec.1) && self.coord_ok(rec.2)
    }

    /// Solved: no case standing on bare ground anywhere; cases already on
    /// targets do not count.
    pub open spec fn solved(self) -> bool {
        forall|r: int, c: int|
            pos_in_bounds(self.grid, r, c) ==> #[trigger] self.grid[r][c] != Cell::Case
    }

    /// The player's cell and the two cells beyond it, along (dr, dc), all
    /// exist in the grid.
    pub open spec fn has_room(self, dr: int, dc: int) -> bool {
        &&& pos_in_bounds(self.grid, self.player.0 as int, self.player.1 as int)
        &&& pos_in_bounds(self.grid, self.player.0 + dr, self.player.1 + dc)
        &&& pos_in_bounds(self.grid, self.player.0 + 2 * dr, self.player.1 + 2 * dc)
    }

    /// The three-cell window a move along (dr, dc) acts on.
    pub open spec fn window(self, dr: int, dc: int) -> Triple {
        (
            self.grid[self.player.0 as int][self.player.1 as int],
            self.grid[self.player.0 + dr][self.player.1 + dc],
            self.grid[self.player.0 + 2 * dr][self.player.1 + 2 * dc],
        )
    }

    /// A move along (dr, dc) goes through: there is room for the window and
    /// the cell algebra accepts the shift.
    pub open spec fn move_enabled(self, dr: int, dc: int) -> bool {
        self.has_room(dr, dc) && spec_shift(self.window(dr, dc)).1
    }

    /// The three cells standing at the player's coordinate, `p1` and `p2`.
    pub open spec fn window3(self, p1: Coordinate, p2: Coordinate) -> Triple {
        (self.cell(self.player), self.cell(p1), self.cell(p2))
    }

    /// The scene after committing a successful shift of the window at
    /// `self.player`, `p1`, `p2`: the three transformed cells are written
    /// back, the player advances to `p1`, and the pre-move window is pushed
    /// onto the history.
    pub open spec fn commit3(self, p1: Coordinate, p2: Coordinate) -> SceneView {
        let before = self.window3(p1, p2);
        let t = spec_shift(before).0;
        SceneView {
            grid: write_cell(write_cell(write_cell(self.grid, self.player, t.0), p1, t.1), p2, t.2),
            player: p1,
            history: self.history.push((self.player, p1, p2, before)),
        }
    }

    /// The scene after a move request along (dr, dc): the committed scene
    /// when the move is enabled, the scene unchanged otherwise.
    pub open spec fn spec_move(self, dr: int, dc: int) -> SceneView {
        if self.move_enabled(dr, dc) {
            let p1 = (((self.player.0 + dr) as usize), ((self.player.1 + dc) as usize));
            let p2 = (((self.player.0 + 2 * dr) as usize), ((self.player.1 + 2 * dc) as usize));
            self.commit3(p1, p2)
        } else {
            self
        }
    }

    /// Dimensions small enough to be those of an actual in-memory grid;
    /// every scene reachable through the executable interface has them.
    pub open spec fn fits(self) -> bool {
        &&& self.grid.len() <= usize::MAX
        &&& forall|i: int| 0 <= i < self.grid.len() ==> (#[trigger] self.grid[i]).len() <= usize::MAX
    }

    /// Exactly one cell bears the player, and the player coordinate points
    /// at it.
    pub open spec fn player_consistent(self) -> bool {
        &&& self.coord_ok(self.player)
        &&& bears_player(self.cell(self.player))
        &&& forall|r: int, c: int|
            pos_in_bounds(self.grid, r, c) && bears_player(#[trigger] self.grid[r][c]) ==> r
                == self.player.0 && c == self.player.1
    }

    /// The scene after an undo request: with an empty history the scene is
    /// unchanged; otherwise the newest record's three cells are restored and
    /// the player returns to the record's first coordinate.
    pub open spec fn spec_undo(self) -> SceneView {
        if self.history.len() == 0 {
            self
        } else {
            let rec = self.history.last();
            SceneView {
                grid: write_cell(
                    write_cell(write_cell(self.grid, rec.0, rec.3.0), rec.1, rec.3.1),
                    rec.2,
                    rec.3.2,
                ),
                player: rec.0,
                history: self.history.drop_last(),
            }
        }
    }
}

/// The playing scene: grid, player coordinate, and undo history. The fields
/// stay private so that every scene reachable through this interface is
/// well-formed (`SceneView::wf`).
pub struct Scene {
    player: Coordinate,
    map: Grid,
    history: Vec<UndoRecord>,
}

impl View for Scene {
    type V = SceneView;

    closed spec fn view(&self) -> SceneView {
        SceneView {
            grid: Seq::new(self.map@.len(), |i: int| self.map@[i]@),
            player: self.player,
            history: self.history@,
        }
    }
}

impl Scene {
    /// The view of an in-memory scene always has machine-sized dimensions,
    /// which lets the laws below apply to it.
    pub proof fn lemma_view_fits(&self)
        ensures
            self@.fits(),
    {
        assert(self.map@.len() == self.map.len());
        assert forall|i: int| 0 <= i < self@.grid.len() implies (#[trigger] self@.grid[i]).len()
            <= usize::MAX by {
            assert(self@.grid[i] == self.map@[i]@);
            assert(self.map@[i]@.len() == self.map@[i].len());
        }
    }

    /// A fresh scene: empty grid, player at the origin, empty history.
    pub fn init() -> (scene: Scene)
        ensures
            scene@.grid.len() == 0,
            scene@.player == (0usize, 0usize),
            scene@.history.len() == 0,
            scene@.wf(),
    {
        Scene { player: (0, 0), map: Vec::new(), history: Vec::new() }
    }

    /// Populate the scene from a textual layout: space for ground, `#` for
    /// a wall, `o` for a case, `O` for a case on a target, `x` for a target,
    /// `i` for the player, `I` for the player on a target. The grid and the
    /// history are rebuilt from scratch; the player coordinate is taken from
    /// the layout's last player character, or kept as it was when the layout
    /// places no player.
    pub fn load(&mut self, layout: &[&str])
        requires
            forall|i: int, j: int| #![auto]
                0 <= i < layout@.len() && 0 <= j < layout@[i]@.len() ==> legal_char(
                    layout@[i]@[j],
                ),
        ensures
            final(self)@.grid.len() == layout@.len(),
            forall|i: int|
                0 <= i < layout@.len() ==> (#[trigger] final(self)@.grid[i]).len()
                    == layout@[i]@.len(),
            forall|i: int, j: int| #![auto]
                0 <= i < layout@.len() && 0 <= j < layout@[i]@.len() ==> final(self)@.grid[i][j]
                    == char_cell(layout@[i]@[j]),
            final(self)@.history.len() == 0,
            has_player(layout_view(layout@)) ==> last_player_spot(
                layout_view(layout@),
                final(self)@.player.0 as int,
                final(self)@.player.1 as int,
            ),
            !has_player(layout_view(layout@)) ==> final(self)@.player == old(self)@.player,
            final(self)@.wf(),
    {
        let ghost lv = layout_view(layout@);
        let ghost orig_player = self.player;
        self.map = Vec::new();
        self.history = Vec::new();
        let mut player: Coordinate = self.player;
        let rows = layout.len();
        let mut r: usize = 0;
        while r < rows
            invariant
                rows == layout@.len(),
                r <= rows,
                lv == layout_view(layout@),
                forall|i: int, j: int| #![auto]
                    0 <= i < lv.len() && 0 <= j < lv[i].len() ==> legal_char(lv[i][j]),
                self.history@.len() == 0,
                self.map@.len() == r,
                forall|i: int| 0 <= i < r ==> (#[trigger] self.map@[i])@.len() == lv[i].len(),
                forall|i: int, j: int| #![auto]
                    0 <= i < r && 0 <= j < lv[i].len() ==> self.map@[i]@[j] == char_cell(lv[i][j]),
                player_tracking(lv, r as int, 0, orig_player, player),
            decreases rows - r,
        {
            let row = layout[r];
            let cols = row.unicode_len();
            let mut columns: Vec<Cell> = Vec::new();
            let mut c: usize = 0;
            while c < cols
                invariant
                    rows == layout@.len(),
                    r < rows,
                    lv == layout_view(layout@),
                    row@ == lv[r as int],
                    cols == lv[r as int].len(),
                    forall|i: int, j: int| #![auto]
                        0 <= i < lv.len() && 0 <= j < lv[i].len() ==> legal_char(lv[i][j]),
                    c <= cols,
                    columns@.len() == c,
                    forall|j: int| 0 <= j < c ==> #[trigger] columns@[j] == char_cell(lv[r as int][j]),
                    player_tracking(lv, r as int, c as int, orig_player, player),
                decreases cols - c,
            {
                let ch = row.get_char(c);
                let cell = if ch == ' ' {
                    Cell::Ground
                } else if ch == '#' {
                    Cell::Wall
                } else if ch == 'o' {
                    Cell::Case
                } else if ch == 'O' {
                    Cell::CaseOnTarget
                } else if ch == 'x' {
                    Cell::Target
                } else if ch == 'i' {
                    player = (r, c);
                    Cell::Player
                } else {
                    player = (r, c);
                    Cell::PlayerOnTarget
                };
                columns.push(cell);
                proof {
                    if is_player_char(lv[r as int][c as int]) {
                        assert(player_spot(lv, r as int, c as int));
                        assert(player == (r, c));
                        assert(player_tracking(lv, r as int, c + 1, orig_player, player));
                    } else {
                        if exists|r2: int, c2: int|
                            #[trigger] player_spot(lv, r2, c2) && scanned_before(
                                r2,
                                c2,
                                r as int,
                                c + 1,
                            ) {
                            let (r2, c2) = choose|r2: int, c2: int|
                                #[trigger] player_spot(lv, r2, c2) && scanned_before(
                                    r2,
                                    c2,
                                    r as int,
                                    c + 1,
                                );
                            assert(scanned_before(r2, c2, r as int, c as int));
                        }
                        assert(player_tracking(lv, r as int, c + 1, orig_player, player));
                    }
                }
                c += 1;
            }
            self.map.push(columns);
            proof {
                if exists|r2: int, c2: int|
                    #[trigger] player_spot(lv, r2, c2) && scanned_before(r2, c2, r + 1, 0) {
                    let (r2, c2) = choose|r2: int, c2: int|
                        #[trigger] player_spot(lv, r2, c2) && scanned_before(r2, c2, r + 1, 0);
                    assert(scanned_before(r2, c2, r as int, cols as int));
                }
                assert forall|r2: int, c2: int|
                    #[trigger] player_spot(lv, r2, c2) && scanned_before(r2, c2, r + 1, 0) implies
                    scanned_before(r2, c2, r as int, cols as int) by {}
                assert(player_tracking(lv, r + 1, 0, orig_player, player));
            }
            r += 1;
        }
        self.player = player;
        proof {
            if has_player(lv) {
                let (pr, pc) = choose|pr: int, pc: int| player_spot(lv, pr, pc);
                assert(scanned_before(pr, pc, rows as int, 0));
                assert(player_spot(lv, player.0 as int, player.1 as int));
                assert forall|r2: int, c2: int| #[trigger] player_spot(lv, r2, c2) implies r2
                    < player.0 || (r2 == player.0 && c2 <= player.1) by {
                    assert(scanned_before(r2, c2, rows as int, 0));
                }
                assert(last_player_spot(lv, player.0 as int, player.1 as int));
            }
        }
    }

    /// Grid dimensions: row count and the column count of the first row
    /// (the grid is taken to be rectangular).
    pub fn get_size(&self) -> (size: (usize, usize))
        requires
            self@.grid.len() > 0,
        ensures
            size.0 == self@.grid.len(),
            size.1 == self@.grid[0].len(),
    {
        (self.map.len(), self.map[0].len())
    }

    /// The player's current coordinate.
    pub fn get_player(&self) -> (p: Coordinate)
        ensures
            p == self@.player,
    {
        self.player
    }

    /// Read-only access to the whole grid.
    pub fn get_map(&self) -> (grid: &Grid)
        ensures
            grid@.len() == self@.grid.len(),
            forall|i: int| 0 <= i < grid@.len() ==> (#[trigger] grid@[i])@ == self@.grid[i],
    {
        &self.map
    }

    /// The cell standing at `p`.
    pub fn get_cell(&self, p: Coordinate) -> (c: Cell)
        requires
            self@.coord_ok(p),
        ensures
            c == self@.cell(p),
    {
        self.map[p.0][p.1]
    }

    /// Coordinates of loose cases; not tracked by this engine, so always
    /// empty.
    pub fn get_boxes(&self) -> (boxes: Vec<Coordinate>)
        ensures
            boxes@.len() == 0,
    {
        Vec::new()
    }

    /// Whether the puzzle is solved: no case left on bare ground.
    pub fn is_pass(&self) -> (pass: bool)
        ensures
            pass == self@.solved(),
    {
        let rows = self.map.len();
        let mut r: usize = 0;
        while r < rows
            invariant
                rows == self@.grid.len(),
                r <= rows,
                forall|i: int, j: int|
                    0 <= i < r && 0 <= j < self@.grid[i].len() ==> #[trigger] self@.grid[i][j]
                        != Cell::Case,
            decreases rows - r,
        {
            let cols = self.map[r].len();
            let mut c: usize = 0;
            while c < cols
                invariant
                    rows == self@.grid.len(),
                    r < rows,
                    cols == self@.grid[r as int].len(),
                    c <= cols,
                    forall|j: int|
                        0 <= j < c ==> #[trigger] self@.grid[r as int][j] != Cell::Case,
                decreases cols - c,
            {
                if self.map[r][c] == Cell::Case {
                    assert(!self@.solved());
                    return false;
                }
                c += 1;
            }
            r += 1;
        }
        true
    }

    /// Reads the window at the player's cell, `p1` and `p2`, hands it to
    /// the cell algebra, and commits the result when the shift succeeds.
    fn try_shift_at(&mut self, p1: Coordinate, p2: Coordinate) -> (moved: bool)
        requires
            old(self)@.coord_ok(old(self)@.player),
            old(self)@.coord_ok(p1),
            old(self)@.coord_ok(p2),
        ensures
            moved == spec_shift(old(self)@.window3(p1, p2)).1,
            moved ==> final(self)@ == old(self)@.commit3(p1, p2),
            !moved ==> final(self)@ == old(self)@,
            old(self)@.wf() ==> final(self)@.wf(),
    {
        let ghost s0 = self@;
        let p0 = self.player;
        let l = self.map[p0.0][p0.1];
        let m = self.map[p1.0][p1.1];
        let far = self.map[p2.0][p2.1];
        let origin = (l, m, far);
        let (transform, moved) = Cell::shift(&origin);
        if moved {
            self.map[p0.0][p0.1] = transform.0;
            self.map[p1.0][p1.1] = transform.1;
            self.map[p2.0][p2.1] = transform.2;
            self.player = p1;
            self.history.push((p0, p1, p2, origin));
            proof {
                let s1 = self@;
                let committed = s0.commit3(p1, p2);
                assert(s1.grid =~~= committed.grid);
                assert(s1 =~= committed);
                if s0.wf() {
                    assert forall|i: int|
                        0 <= i < s1.history.len() implies s1.record_in_bounds(
                        #[trigger] s1.history[i],
                    ) by {
                        assert(forall|k: int|
                            0 <= k < s1.grid.len() ==> (#[trigger] s1.grid[k]).len()
                                == s0.grid[k].len());
                        if i < s0.history.len() {
                            assert(s0.record_in_bounds(s0.history[i]));
                        }
                    }
                }
            }
        }
        moved
    }

    /// Try to move the player one cell to the right, pushing a case ahead
    /// of it when the algebra allows; rejected moves leave the scene as it
    /// was. A window that would run past the grid's edge is rejected too.
    pub fn move_right(&mut self) -> (moved: bool)
        requires
            old(self)@.wf(),
        ensures
            moved == old(self)@.move_enabled(0, 1),
            final(self)@ == old(self)@.spec_move(0, 1),
            final(self)@.wf(),
    {
        let (r, c) = self.player;
        if r >= self.map.len() {
            return false;
        }
        let cols = self.map[r].len();
        if cols < 3 || c >= cols - 2 {
            return false;
        }
        self.try_shift_at((r, c + 1), (r, c + 2))
    }

    /// Try to move the player one cell to the left; see `move_right`.
    pub fn move_left(&mut self) -> (moved: bool)
        requires
            old(self)@.wf(),
        ensures
            moved == old(self)@.move_enabled(0, -1),
            final(self)@ == old(self)@.spec_move(0, -1),
            final(self)@.wf(),
    {
        let (r, c) = self.player;
        if r >= self.map.len() {
            return false;
        }
        let cols = self.map[r].len();
        if c >= cols || c < 2 {
            return false;
        }
        self.try_shift_at((r, c - 1), (r, c - 2))
    }

    /// Try to move the player one cell up (towards row 0); see `move_right`.
    pub fn move_upward(&mut self) -> (moved: bool)
        requires
            old(self)@.wf(),
        ensures
            moved == old(self)@.move_enabled(-1, 0),
            final(self)@ == old(self)@.spec_move(-1, 0),
            final(self)@.wf(),
    {
        let (r, c) = self.player;
        if r >= self.map.len() || r < 2 {
            return false;
        }
        if c >= self.map[r].len() || c >= self.map[r - 1].len() || c >= self.map[r - 2].len() {
            return false;
        }
        self.try_shift_at((r - 1, c), (r - 2, c))
    }

    /// Try to move the player one cell down; see `move_right`.
    pub fn move_down(&mut self) -> (moved: bool)
        requires
            old(self)@.wf(),
        ensures
            moved == old(self)@.move_enabled(1, 0),
            final(self)@ == old(self)@.spec_move(1, 0),
            final(self)@.wf(),
    {
        let (r, c) = self.player;
        let rows = self.map.len();
        if rows < 3 || r >= rows - 2 {
            return false;
        }
        if c >= self.map[r].len() || c >= self.map[r + 1].len() || c >= self.map[r + 2].len() {
            return false;
        }
        self.try_shift_at((r + 1, c), (r + 2, c))
    }

    /// Take back the newest successful move: restore the three recorded
    /// cells and the player's coordinate. With an empty history this is a
    /// no-op, not an error.
    pub fn undo(&mut self)
        requires
            old(self)@.wf(),
        ensures
            final(self)@ == old(self)@.spec_undo(),
            final(self)@.wf(),
    {
        let ghost s0 = self@;
        match self.history.pop() {
            Some(rec) => {
                proof {
                    assert(s0.record_in_bounds(s0.history[s0.history.len() - 1]));
                }
                let (from, mid, far, triple) = rec;
                self.map[from.0][from.1] = triple.0;
                self.map[mid.0][mid.1] = triple.1;
                self.map[far.0][far.1] = triple.2;
                self.player = (from.0, from.1);
                proof {
                    let s1 = self@;
                    assert(s1.grid =~~= s0.spec_undo().grid);
                    assert(s1 =~= s0.spec_undo());
                    assert(forall|k: int|
                        0 <= k < s1.grid.len() ==> (#[trigger] s1.grid[k]).len()
                            == s0.grid[k].len());
                    assert forall|i: int|
                        0 <= i < s1.history.len() implies s1.record_in_bounds(
                        #[trigger] s1.history[i],
                    ) by {
                        assert(s0.record_in_bounds(s0.history[i]));
                    }
                }
            },
            None => {},
        }
    }
}

/// Round trip: when a move along (dr, dc) is enabled, taking it and then
/// undoing restores the grid, the player coordinate and the history exactly.
pub proof fn lemma_move_undo_round_trip(s: SceneView, dr: int, dc: int)
    requires
        is_direction(dr, dc),
        s.fits(),
        s.move_enabled(dr, dc),
    ensures
        s.spec_move(dr, dc).spec_undo() == s,
{
    let p0 = s.player;
    let p1 = (((s.player.0 + dr) as usize), ((s.player.1 + dc) as usize));
    let p2 = (((s.player.0 + 2 * dr) as usize), ((s.player.1 + 2 * dc) as usize));
    assert(p1.0 as int == s.player.0 + dr && p1.1 as int == s.player.1 + dc);
    assert(p2.0 as int == s.player.0 + 2 * dr && p2.1 as int == s.player.1 + 2 * dc);
    let s2 = s.spec_move(dr, dc);
    assert(s2.history.drop_last() =~= s.history);
    assert(s2.spec_undo().grid =~~= s.grid);
    assert(s2.spec_undo() =~= s);
}

/// Undo at the boundary: with an empty history an undo request leaves the
/// scene exactly as it is.
pub proof fn lemma_undo_empty_history_noop(s: SceneView)
    requires
        s.history.len() == 0,
    ensures
        s.spec_undo() == s,
{
}

/// Conservation over the whole grid: a move request, granted or rejected,
/// never changes the grid's total volume.
pub proof fn lemma_move_conserves_grid_volume(s: SceneView, dr: int, dc: int)
    requires
        is_direction(dr, dc),
        s.fits(),
    ensures
        grid_vol(s.spec_move(dr, dc).grid) == grid_vol(s.grid),
{
    if s.move_enabled(dr, dc) {
        let p0 = s.player;
        let p1 = (((s.player.0 + dr) as usize), ((s.player.1 + dc) as usize));
        let p2 = (((s.player.0 + 2 * dr) as usize), ((s.player.1 + 2 * dc) as usize));
        assert(p1.0 as int == s.player.0 + dr && p1.1 as int == s.player.1 + dc);
        assert(p2.0 as int == s.player.0 + 2 * dr && p2.1 as int == s.player.1 + 2 * dc);
        let w = s.window3(p1, p2);
        let t = spec_shift(w).0;
        let g1 = write_cell(s.grid, p0, t.0);
        let g2 = write_cell(g1, p1, t.1);
        let g3 = write_cell(g2, p2, t.2);
        lemma_write_cell_vol(s.grid, p0, t.0);
        assert(forall|k: int| 0 <= k < g1.len() ==> (#[trigger] g1[k]).len() == s.grid[k].len());
        assert(g1[p1.0 as int][p1.1 as int] == w.1);
        lemma_write_cell_vol(g1, p1, t.1);
        assert(forall|k: int| 0 <= k < g2.len() ==> (#[trigger] g2[k]).len() == g1[k].len());
        assert(g2[p2.0 as int][p2.1 as int] == w.2);
        lemma_write_cell_vol(g2, p2, t.2);
        assert(triple_vol(t) == triple_vol(w));
        assert(s.spec_move(dr, dc).grid == g3);
    }
}

/// A move request, granted or rejected, keeps exactly one player-bearing
/// cell in the grid, with the player coordinate pointing at it.
pub proof fn lemma_move_preserves_player_consistency(s: SceneView, dr: int, dc: int)
    requires
        is_direction(dr, dc),
        s.fits(),
        s.player_consistent(),
    ensures
        s.spec_move(dr, dc).player_consistent(),
{
    if s.move_enabled(dr, dc) {
        let p0 = s.player;
        let p1 = (((s.player.0 + dr) as usize), ((s.player.1 + dc) as usize));
        let p2 = (((s.player.0 + 2 * dr) as usize), ((s.player.1 + 2 * dc) as usize));
        assert(p1.0 as int == s.player.0 + dr && p1.1 as int == s.player.1 + dc);
        assert(p2.0 as int == s.player.0 + 2 * dr && p2.1 as int == s.player.1 + 2 * dc);
        let w = s.window3(p1, p2);
        let t = spec_shift(w).0;
        assert(bears_player(w.0));
        assert(!bears_player(w.1) && !bears_player(w.2));
        assert(!bears_player(t.0) && bears_player(t.1) && !bears_player(t.2));
        let s2 = s.spec_move(dr, dc);
        assert(forall|k: int|
            0 <= k < s2.grid.len() ==> (#[trigger] s2.grid[k]).len() == s.grid[k].len());
        assert(s2.cell(p1) == t.1);
        assert forall|r: int, c: int|
            pos_in_bounds(s2.grid, r, c) && bears_player(#[trigger] s2.grid[r][c]) implies r
            == s2.player.0 && c == s2.player.1 by {
            if (r, c) != (p0.0 as int, p0.1 as int) && (r, c) != (p1.0 as int, p1.1 as int) && (
            r,
            c,
            ) != (p2.0 as int, p2.1 as int) {
                assert(s2.grid[r][c] == s.grid[r][c]);
            }
        }
    }
}

} // verus!
