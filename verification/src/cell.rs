//! The cell algebra: what occupies a grid position, how a cell decomposes
//! into a floor and an occupant, and the shift algorithm that resolves a
//! move over a window of three consecutive cells.

use vstd::prelude::*;

verus! {

/// One grid position: a floor (ground or target) together with an occupant
/// (none, a case, or the player), or a wall, which never decomposes.
#[derive(Clone, Copy, PartialEq, Eq, Structural, Hash, Debug)]
pub enum Cell {
    Case,
    Wall,
    Ground,
    Player,
    Target,
    PlayerOnTarget,
    CaseOnTarget,
}

/// The three consecutive cells along a move's direction: the player's cell,
/// one ahead, and two ahead. A move touches exactly these and nothing else.
pub type Triple = (Cell, Cell, Cell);

/// The 0/1 weight of a cell used by the conservation check: bare floors
/// weigh nothing, every occupied cell (and a wall) weighs one.
pub open spec fn spec_vol(c: Cell) -> int {
    match c {
        Cell::Ground => 0,
        Cell::Target => 0,
        _ => 1,
    }
}

/// Decomposition of a cell into (floor, occupant). The occupant is itself a
/// pseudo-cell: `Case` or `Player` when something stands there, `Ground`
/// standing for "no occupant". Walls and bare floors keep themselves as the
/// floor part.
pub open spec fn spec_separate(c: Cell) -> (Cell, Cell) {
    match c {
        Cell::Case => (Cell::Ground, Cell::Case),
        Cell::CaseOnTarget => (Cell::Target, Cell::Case),
        Cell::Player => (Cell::Ground, Cell::Player),
        Cell::PlayerOnTarget => (Cell::Target, Cell::Player),
        _ => (c, Cell::Ground),
    }
}

/// Composition of a floor cell with an incoming occupant pseudo-cell.
/// Anything that is not a bare floor absorbs nothing and stays itself.
pub open spec fn spec_overlay(c: Cell, unit: Cell) -> Cell {
    match c {
        Cell::Ground => match unit {
            Cell::Case => Cell::Case,
            Cell::Player => Cell::Player,
            _ => Cell::Ground,
        },
        Cell::Target => match unit {
            Cell::Case => Cell::CaseOnTarget,
            Cell::Player => Cell::PlayerOnTarget,
            _ => Cell::Target,
        },
        _ => c,
    }
}

/// Whether the player stands on this cell (alone or on a target).
pub open spec fn bears_player(c: Cell) -> bool {
    c == Cell::Player || c == Cell::PlayerOnTarget
}

/// Total volume of a three-cell window.
pub open spec fn triple_vol(t: Triple) -> int {
    spec_vol(t.0) + spec_vol(t.1) + spec_vol(t.2)
}

/// The move-resolution algorithm on a window (L, M, R) in travel direction:
/// L's occupant steps onto M's floor, M's occupant is pushed onto R. The
/// single conservation check (total volume unchanged) rejects every illegal
/// combination; on failure the window is returned unchanged.
pub open spec fn spec_shift(t: Triple) -> (Triple, bool) {
    let (l, m, r) = t;
    let (l_origin, l_move) = spec_separate(l);
    let (m_origin, m_move) = spec_separate(m);
    let m_overlay = spec_overlay(m_origin, l_move);
    let r_overlay = spec_overlay(r, m_move);
    if triple_vol(t) == spec_vol(l_origin) + spec_vol(m_overlay) + spec_vol(r_overlay) {
        ((l_origin, m_overlay, r_overlay), true)
    } else {
        (t, false)
    }
}

impl Cell {
    /// Executable move resolution; see `spec_shift` for the algorithm.
    pub fn shift(triple: &Triple) -> (res: (Triple, bool))
        ensures
            res == spec_shift(*triple),
    {
        let (l, m, r) = *triple;
        let (l_origin, l_move) = l.separate();
        let (m_origin, m_move) = m.separate();
        let m_overlay = m_origin.overlay(&l_move);
        let r_overlay = r.overlay(&m_move);
        let valid_vol = l.vol() + m.vol() + r.vol();
        let new_vol = l_origin.vol() + m_overlay.vol() + r_overlay.vol();
        if valid_vol == new_vol {
            ((l_origin, m_overlay, r_overlay), true)
        } else {
            ((l, m, r), false)
        }
    }

    /// Whether an occupant may step onto this cell: true exactly for the
    /// bare floors (ground and target).
    pub fn can_override(&self) -> (res: bool)
        ensures
            res <==> (*self == Cell::Ground || *self == Cell::Target),
    {
        match *self {
            Cell::Ground => true,
            Cell::Target => true,
            _ => false,
        }
    }

    fn vol(&self) -> (res: u8)
        ensures
            res as int == spec_vol(*self),
    {
        match *self {
            Cell::Ground => 0,
            Cell::Target => 0,
            _ => 1,
        }
    }

    fn overlay(&self, unit: &Self) -> (res: Self)
        ensures
            res == spec_overlay(*self, *unit),
    {
        match *self {
            Cell::Ground => match *unit {
                Cell::Case => Cell::Case,
                Cell::Player => Cell::Player,
                _ => Cell::Ground,
            },
            Cell::Target => match *unit {
                Cell::Case => Cell::CaseOnTarget,
                Cell::Player => Cell::PlayerOnTarget,
                _ => Cell::Target,
            },
            _ => *self,
        }
    }

    fn separate(&self) -> (res: (Self, Self))
        ensures
            res == spec_separate(*self),
    {
        match *self {
            Cell::Case => (Cell::Ground, Cell::Case),
            Cell::CaseOnTarget => (Cell::Target, Cell::Case),
            Cell::Player => (Cell::Ground, Cell::Player),
            Cell::PlayerOnTarget => (Cell::Target, Cell::Player),
            _ => (*self, Cell::Ground),
        }
    }
}

/// Conservation: whenever `spec_shift` reports success, the total volume of
/// the window is exactly what it was before the move.
pub proof fn lemma_shift_conserves_volume(t: Triple)
    ensures
        spec_shift(t).1 ==> triple_vol(spec_shift(t).0) == triple_vol(t),
{
}

/// A rejected shift hands the window back exactly as it was.
pub proof fn lemma_shift_failure_keeps_window(t: Triple)
    ensures
        !spec_shift(t).1 ==> spec_shift(t).0 == t,
{
}

/// Stepping into a wall is always rejected, whatever stands two ahead.
pub proof fn lemma_shift_into_wall_fails(r: Cell)
    ensures
        !spec_shift((Cell::Player, Cell::Wall, r)).1,
        spec_shift((Cell::Player, Cell::Wall, r)).0 == (Cell::Player, Cell::Wall, r),
{
}

/// Pushing a case against a wall or against another case is always rejected.
pub proof fn lemma_shift_push_blocked(r: Cell)
    requires
        r == Cell::Wall || r == Cell::Case || r == Cell::CaseOnTarget,
    ensures
        !spec_shift((Cell::Player, Cell::Case, r)).1,
        spec_shift((Cell::Player, Cell::Case, r)).0 == (Cell::Player, Cell::Case, r),
{
}

/// Stepping onto open ground always succeeds and moves the player one cell.
pub proof fn lemma_shift_onto_ground_succeeds()
    ensures
        spec_shift((Cell::Player, Cell::Ground, Cell::Ground)) == (
            (Cell::Ground, Cell::Player, Cell::Ground),
            true,
        ),
{
}

} // verus!
