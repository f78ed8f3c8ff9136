//! Laws of the update rules, stated over the cell-matrix model and proved
//! from the rules' definitions.
use vstd::prelude::*;
use vstd::multiset::group_multiset_axioms;

use crate::cells::penetrability;
use crate::cells::CellStates;
use crate::grid::adjacent;
use crate::grid::exchange;
use crate::grid::in_bounds;
use crate::grid::lemma_exchange_substances;
use crate::grid::lemma_put_substances;
use crate::grid::put;
use crate::grid::substances;
use crate::grid::Cell;
use crate::rules::burn_outcome;
use crate::rules::burst_outcome;
use crate::rules::can_enter;
use crate::rules::fall_target;
use crate::rules::flow_target;
use crate::rules::infect_outcome;
use crate::rules::move_to;
use crate::rules::on_ray;
use crate::rules::outcome;
use crate::rules::ray_distance;
use crate::rules::unit_step;
use crate::rules::FIRE_DIM;
use crate::rules::REACH_RANGE;
use crate::rules::RISE_CUT;
use crate::rules::Roll;
use crate::rules::VAPOR_CLEAR;
use crate::rules::VAPOR_CONDENSE;

verus! {

/// The substances that move by displacement.
pub open spec fn displaces(s: CellStates) -> bool {
    s == CellStates::Sand || s == CellStates::Gunpowder || s == CellStates::Water || s
        == CellStates::Vapor
}

/// How hot a cell burns: intensity plus one for fire, 0 for anything else.
pub open spec fn heat(s: CellStates) -> int {
    match s {
        CellStates::Fire(level) => level + 1,
        _ => 0,
    }
}

proof fn lemma_move_to_displaces(m: Seq<Seq<Cell>>, x: int, y: int, t: Option<(int, int)>)
    requires
        in_bounds(m, x, y),
        t matches Some(p) ==> can_enter(m, p.0, p.1, m[x][y].state) && adjacent(x, y, p.0, p.1),
    ensures
        forall|i: int, j: int|
            in_bounds(m, i, j) && !(i == x && j == y) && #[trigger] move_to(m, x, y, t)[i][j]
                != m[i][j] ==> {
                &&& adjacent(x, y, i, j)
                &&& penetrability(m[i][j].state) > penetrability(move_to(m, x, y, t)[i][j].state)
                &&& move_to(m, x, y, t)[x][y].state == m[i][j].state
            },
{
}

/// Displacement only moves a substance into a strictly more penetrable
/// cell. For a probe of sand, gunpowder, water or vapor, every other cell
/// that changes is a neighbor of the probed one, held something strictly
/// more penetrable than what it holds now, and what it held is now in the
/// probed cell. Vapor that turns into air before it rises is left out: its
/// rise is checked against vapor, so that air may swap with a fire above.
pub proof fn lemma_displacement_into_more_penetrable(m: Seq<Seq<Cell>>, x: int, y: int, r: Roll)
    requires
        in_bounds(m, x, y),
        r.valid(),
        displaces(m[x][y].state),
        m[x][y].state == CellStates::Vapor ==> r.decay >= VAPOR_CLEAR,
    ensures
        forall|i: int, j: int|
            in_bounds(m, i, j) && !(i == x && j == y) && #[trigger] outcome(m, x, y, r)[i][j]
                != m[i][j] ==> {
                &&& adjacent(x, y, i, j)
                &&& penetrability(m[i][j].state) > penetrability(outcome(m, x, y, r)[i][j].state)
                &&& outcome(m, x, y, r)[x][y].state == m[i][j].state
            },
{
    let s = m[x][y].state;
    let side = r.side as int;
    if s == CellStates::Water {
        lemma_move_to_displaces(m, x, y, flow_target(m, x, y, side));
    } else if s == CellStates::Vapor {
        let faded = if r.decay < VAPOR_CLEAR {
            put(m, x, y, CellStates::Air)
        } else if r.decay < VAPOR_CONDENSE {
            put(m, x, y, CellStates::Water)
        } else {
            m
        };
        let t = (x + r.sway, y - 1);
        assert(faded[x][y].state == CellStates::Water || faded[x][y].state == CellStates::Vapor);
        assert(forall|i: int, j: int|
            in_bounds(m, i, j) && !(i == x && j == y) ==> #[trigger] faded[i][j] == m[i][j]);
        if can_enter(faded, t.0, t.1, CellStates::Vapor) && r.chance > RISE_CUT {
            assert(faded[t.0][t.1] == m[t.0][t.1]);
        }
    } else {
        lemma_move_to_displaces(m, x, y, fall_target(m, x, y, side));
    }
}

/// The swap-based rules keep the multiset of substances: falling sand and
/// gunpowder, flowing water, and vapor that rises without decaying.
pub proof fn lemma_swap_rules_conserve(m: Seq<Seq<Cell>>, x: int, y: int, r: Roll)
    requires
        in_bounds(m, x, y),
        r.valid(),
        m[x][y].state == CellStates::Sand || m[x][y].state == CellStates::Gunpowder || m[x][y].state
            == CellStates::Water || (m[x][y].state == CellStates::Vapor && r.decay >= VAPOR_CONDENSE),
    ensures
        substances(outcome(m, x, y, r)) == substances(m),
{
    let s = m[x][y].state;
    let side = r.side as int;
    let t = if s == CellStates::Water {
        flow_target(m, x, y, side)
    } else if s == CellStates::Vapor {
        Some((x + r.sway, y - 1))
    } else {
        fall_target(m, x, y, side)
    };
    if let Some(p) = t {
        lemma_exchange_substances(m, x, y, p.0, p.1);
    }
}

/// Infection overwrites rather than swaps: when a plague takes a neighbor
/// that held something else, the grid holds one more plague than before.
pub proof fn lemma_infection_adds_plague(m: Seq<Seq<Cell>>, x: int, y: int, dx: int, dy: int)
    requires
        in_bounds(m, x, y),
        in_bounds(m, x + dx, y + dy),
        m[x + dx][y + dy].state != CellStates::Plague,
        penetrability(m[x + dx][y + dy].state) >= penetrability(CellStates::Plague),
    ensures
        substances(infect_outcome(m, x, y, dx, dy)).count(CellStates::Plague) == substances(m).count(
            CellStates::Plague,
        ) + 1,
{
    broadcast use group_multiset_axioms;

    lemma_put_substances(m, x + dx, y + dy, CellStates::Plague);
    let n = infect_outcome(m, x, y, dx, dy);
    assert(substances(n).insert(m[x + dx][y + dy].state).count(CellStates::Plague) == substances(
        m,
    ).insert(CellStates::Plague).count(CellStates::Plague));
}

/// Fire never heats up under its own rule: every cell that held fire holds
/// afterwards air or a fire no more intense.
pub proof fn lemma_fire_never_heats(
    m: Seq<Seq<Cell>>,
    x: int,
    y: int,
    sway: int,
    chance: int,
    decay: int,
)
    requires
        in_bounds(m, x, y),
        m[x][y].state is Fire,
    ensures
        forall|i: int, j: int|
            in_bounds(m, i, j) && m[i][j].state is Fire ==> {
                let after = #[trigger] burn_outcome(m, x, y, sway, chance, decay)[i][j].state;
                &&& after is Fire || after == CellStates::Air
                &&& heat(after) <= heat(m[i][j].state)
            },
{
}

/// A fire that draws a decay value below `FIRE_DIM` loses heat, so a fire
/// of heat at most three goes out after at most three such draws.
pub proof fn lemma_fire_decays(m: Seq<Seq<Cell>>, x: int, y: int, sway: int, chance: int, decay: int)
    requires
        in_bounds(m, x, y),
        m[x][y].state is Fire,
        decay < FIRE_DIM,
    ensures
        heat(burn_outcome(m, x, y, sway, chance, decay)[x][y].state) < heat(m[x][y].state),
{
}

/// The cell `k` steps out from `(x, y)` in direction `(dx, dy)`.
pub open spec fn ray_cell(x: int, y: int, dx: int, dy: int, k: int) -> (int, int) {
    (x + k * dx, y + k * dy)
}

/// A spark's burst leaves air at the spark's cell and changes no other
/// cell but those on its ray, at most `reach` (so at most 44) steps out.
pub proof fn lemma_burst_bounds(m: Seq<Seq<Cell>>, x: int, y: int, dx: int, dy: int, reach: int)
    requires
        in_bounds(m, x, y),
        unit_step(dx, dy),
        0 <= reach < REACH_RANGE,
    ensures
        burst_outcome(m, x, y, dx, dy, reach)[x][y].state == CellStates::Air,
        forall|i: int, j: int|
            in_bounds(m, i, j) && !(i == x && j == y) && #[trigger] burst_outcome(m, x, y, dx, dy, reach)[i][j]
                != m[i][j] ==> exists|k: int|
                1 <= k <= reach && (i, j) == #[trigger] ray_cell(x, y, dx, dy, k),
{
    assert forall|i: int, j: int|
        in_bounds(m, i, j) && !(i == x && j == y) && #[trigger] burst_outcome(m, x, y, dx, dy, reach)[i][j]
            != m[i][j] implies exists|k: int|
            1 <= k <= reach && (i, j) == #[trigger] ray_cell(x, y, dx, dy, k) by {
        let k = ray_distance(x, y, dx, dy, i, j);
        assert(1 <= k <= reach && i == x + k * dx && j == y + k * dy) by (nonlinear_arith)
            requires
                on_ray(x, y, dx, dy, 0, reach, i, j),
                k == ray_distance(x, y, dx, dy, i, j),
                unit_step(dx, dy),
        ;
        assert((i, j) == ray_cell(x, y, dx, dy, k));
    }
}

} // verus!
