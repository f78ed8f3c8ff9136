//! The update rules: one stochastic transition per substance, applied to a
//! single probed cell, and the step that draws the probe.
use vstd::prelude::*;

use crate::cells::penetrability;
use crate::cells::storable;
use crate::cells::CellStates;
use crate::cells::FIRE_MAX;
use crate::grid::convert;
use crate::grid::exchange;
use crate::grid::in_bounds;
use crate::grid::offset_at;
use crate::grid::put;
use crate::grid::substances;
use crate::grid::with_state;
use crate::grid::Cell;
use crate::grid::Grid;
use rand::rngs::ThreadRng;
use rand::Rng;

verus! {

/// Relies on rand::Rng::gen_range: a value drawn uniformly from `lo..hi`;
/// it panics on an empty range, which `requires` leaves out.
#[verifier::external_body]
fn draw(rng: &mut ThreadRng, lo: i32, hi: i32) -> (r: i32)
    requires
        lo < hi,
    ensures
        lo <= r < hi,
{
    rng.gen_range(lo..hi)
}

/// A rising fire or vapor moves only when a draw from `0..RISE_ODDS` is
/// above `RISE_CUT`.
pub const RISE_ODDS: i32 = 50;

/// See `RISE_ODDS`.
pub const RISE_CUT: i32 = 20;

/// Fire draws its decay from `0..FIRE_DECAY_RANGE`.
pub const FIRE_DECAY_RANGE: i32 = 50;

/// A fire decay draw below this puts the fire out.
pub const FIRE_OUT: i32 = 6;

/// A fire decay draw from `FIRE_OUT` up to below this lowers its intensity.
pub const FIRE_DIM: i32 = 41;

/// Vapor draws its decay from `0..VAPOR_DECAY_RANGE`.
pub const VAPOR_DECAY_RANGE: i32 = 400;

/// A vapor decay draw below this turns the vapor into air.
pub const VAPOR_CLEAR: i32 = 2;

/// A vapor decay draw from `VAPOR_CLEAR` up to below this condenses it.
pub const VAPOR_CONDENSE: i32 = 4;

/// A spark's trail reaches a distance drawn from `0..REACH_RANGE`.
pub const REACH_RANGE: i32 = 45;

/// The random values one probe may use. Each rule reads the ones it needs.
#[derive(Clone, Copy, Debug, PartialEq, Eq, Structural)]
pub struct Roll {
    /// The side (-1 or 1) a grain or drop tries first; a plague's step in x.
    pub side: i32,
    /// A plague's step in y (-1 or 1).
    pub lean: i32,
    /// The horizontal offset (-1, 0 or 1) of a rising fire or vapor.
    pub sway: i32,
    /// The rise check, from `0..RISE_ODDS`.
    pub chance: i32,
    /// The decay draw: from `0..FIRE_DECAY_RANGE` for fire, from
    /// `0..VAPOR_DECAY_RANGE` for vapor.
    pub decay: i32,
    /// The x part of a spark's direction; with `aim_y`, a unit step other
    /// than `(0, 0)`.
    pub aim_x: i32,
    /// The y part of a spark's direction.
    pub aim_y: i32,
    /// The length of a spark's trail, from `0..REACH_RANGE`.
    pub reach: i32,
}

/// `(dx, dy)` is one of the eight unit steps.
pub open spec fn unit_step(dx: int, dy: int) -> bool {
    -1 <= dx <= 1 && -1 <= dy <= 1 && !(dx == 0 && dy == 0)
}

impl Roll {
    /// Every value lies in the range it is drawn from.
    pub open spec fn valid(self) -> bool {
        &&& self.side == -1 || self.side == 1
        &&& self.lean == -1 || self.lean == 1
        &&& -1 <= self.sway <= 1
        &&& 0 <= self.chance < RISE_ODDS
        &&& 0 <= self.decay < VAPOR_DECAY_RANGE
        &&& unit_step(self.aim_x as int, self.aim_y as int)
        &&& 0 <= self.reach < REACH_RANGE
    }

    /// The values a probe of a cell holding `s` may draw.
    pub open spec fn fits(self, s: CellStates) -> bool {
        &&& self.valid()
        &&& s is Fire ==> self.decay < FIRE_DECAY_RANGE
    }
}

/// A substance `s` may move into `(x, y)`: the cell exists and is strictly
/// more penetrable than `s`.
pub open spec fn can_enter(m: Seq<Seq<Cell>>, x: int, y: int, s: CellStates) -> bool {
    in_bounds(m, x, y) && penetrability(m[x][y].state) > penetrability(s)
}

/// Where a grain at `(x, y)` falls: straight down, else the diagonal on
/// `side`, else the other diagonal.
pub open spec fn fall_target(m: Seq<Seq<Cell>>, x: int, y: int, side: int) -> Option<(int, int)> {
    let s = m[x][y].state;
    if can_enter(m, x, y + 1, s) {
        Some((x, y + 1))
    } else if can_enter(m, x + side, y + 1, s) {
        Some((x + side, y + 1))
    } else if can_enter(m, x - side, y + 1, s) {
        Some((x - side, y + 1))
    } else {
        None
    }
}

/// Where a drop at `(x, y)` goes: where a grain would fall, else sideways,
/// `side` first.
pub open spec fn flow_target(m: Seq<Seq<Cell>>, x: int, y: int, side: int) -> Option<(int, int)> {
    let s = m[x][y].state;
    match fall_target(m, x, y, side) {
        Some(t) => Some(t),
        None => if can_enter(m, x + side, y, s) {
            Some((x + side, y))
        } else if can_enter(m, x - side, y, s) {
            Some((x - side, y))
        } else {
            None
        },
    }
}

/// Exchange `(x, y)` with the target, if there is one.
pub open spec fn move_to(m: Seq<Seq<Cell>>, x: int, y: int, t: Option<(int, int)>) -> Seq<Seq<Cell>> {
    match t {
        Some(p) => exchange(m, x, y, p.0, p.1),
        None => m,
    }
}

/// Sand and gunpowder: fall by displacement.
pub open spec fn fall_outcome(m: Seq<Seq<Cell>>, x: int, y: int, side: int) -> Seq<Seq<Cell>> {
    move_to(m, x, y, fall_target(m, x, y, side))
}

/// Water: fall, else spread sideways, by displacement.
pub open spec fn flow_outcome(m: Seq<Seq<Cell>>, x: int, y: int, side: int) -> Seq<Seq<Cell>> {
    move_to(m, x, y, flow_target(m, x, y, side))
}

/// Plague: overwrite the diagonal neighbor `(x + dx, y + dy)` when it is at
/// least as penetrable as plague.
pub open spec fn infect_outcome(m: Seq<Seq<Cell>>, x: int, y: int, dx: int, dy: int) -> Seq<Seq<Cell>> {
    if in_bounds(m, x + dx, y + dy) && penetrability(m[x + dx][y + dy].state) >= penetrability(
        CellStates::Plague,
    ) {
        put(m, x + dx, y + dy, CellStates::Plague)
    } else {
        m
    }
}

/// The intensity of a fire; 0 for anything else.
pub open spec fn fire_level(s: CellStates) -> u8 {
    match s {
        CellStates::Fire(level) => level,
        _ => 0,
    }
}

/// A fire one intensity lower; air below intensity 0.
pub open spec fn dimmed(level: u8) -> CellStates {
    if level == 0 {
        CellStates::Air
    } else {
        CellStates::Fire((level - 1) as u8)
    }
}

/// Fire: ignite gunpowder around it into sparks, boil water around it into
/// vapor, maybe copy itself one row up (`sway` across), then decay.
pub open spec fn burn_outcome(
    m: Seq<Seq<Cell>>,
    x: int,
    y: int,
    sway: int,
    chance: int,
    decay: int,
) -> Seq<Seq<Cell>> {
    let fire = m[x][y].state;
    let heated = convert(
        convert(m, x, y, CellStates::Gunpowder, CellStates::Spark),
        x,
        y,
        CellStates::Water,
        CellStates::Vapor,
    );
    let risen = if can_enter(heated, x + sway, y - 1, fire) && chance > RISE_CUT {
        put(heated, x + sway, y - 1, fire)
    } else {
        heated
    };
    if decay < FIRE_OUT {
        put(risen, x, y, CellStates::Air)
    } else if decay < FIRE_DIM {
        put(risen, x, y, dimmed(fire_level(fire)))
    } else {
        risen
    }
}

/// `k` steps along one axis of direction `d`.
pub open spec fn along(d: int, k: int) -> int {
    if d > 0 {
        k
    } else if d < 0 {
        -k
    } else {
        0
    }
}

/// How many steps of direction `(dx, dy)` lead from `(x, y)` to `(i, j)`,
/// when `(i, j)` lies on that ray.
pub open spec fn ray_distance(x: int, y: int, dx: int, dy: int, i: int, j: int) -> int {
    if dx > 0 {
        i - x
    } else if dx < 0 {
        x - i
    } else if dy > 0 {
        j - y
    } else {
        y - j
    }
}

/// `(i, j)` lies on the ray from `(x, y)` in direction `(dx, dy)`, more
/// than `lo` and at most `hi` steps out.
pub open spec fn on_ray(x: int, y: int, dx: int, dy: int, lo: int, hi: int, i: int, j: int) -> bool {
    let k = ray_distance(x, y, dx, dy, i, j);
    &&& lo < k <= hi
    &&& i == x + along(dx, k)
    &&& j == y + along(dy, k)
}

/// The cells on the ray more than `lo` and at most `hi` steps out turned
/// into the hottest fire.
pub open spec fn ray_marked(
    m: Seq<Seq<Cell>>,
    x: int,
    y: int,
    dx: int,
    dy: int,
    lo: int,
    hi: int,
) -> Seq<Seq<Cell>> {
    Seq::new(
        m.len(),
        |i: int|
            Seq::new(
                m[i].len(),
                |j: int|
                    if on_ray(x, y, dx, dy, lo, hi, i, j) {
                        with_state(m[i][j], CellStates::Fire(FIRE_MAX))
                    } else {
                        m[i][j]
                    },
            ),
    )
}

/// Spark: a trail of the hottest fire `reach` steps long in direction
/// `(dx, dy)`, overwriting whatever it passes; the spark itself turns to air.
pub open spec fn burst_outcome(m: Seq<Seq<Cell>>, x: int, y: int, dx: int, dy: int, reach: int) -> Seq<Seq<Cell>> {
    put(ray_marked(m, x, y, dx, dy, 0, reach), x, y, CellStates::Air)
}

/// Vapor: maybe turn to air or condense to water, then maybe swap with the
/// cell one row up (`sway` across) when that cell is more penetrable than
/// vapor.
pub open spec fn waft_outcome(
    m: Seq<Seq<Cell>>,
    x: int,
    y: int,
    decay: int,
    sway: int,
    chance: int,
) -> Seq<Seq<Cell>> {
    let faded = if decay < VAPOR_CLEAR {
        put(m, x, y, CellStates::Air)
    } else if decay < VAPOR_CONDENSE {
        put(m, x, y, CellStates::Water)
    } else {
        m
    };
    if can_enter(faded, x + sway, y - 1, CellStates::Vapor) && chance > RISE_CUT {
        exchange(faded, x, y, x + sway, y - 1)
    } else {
        faded
    }
}

/// What one probe of `(x, y)` with the values `r` does to `m`.
pub open spec fn outcome(m: Seq<Seq<Cell>>, x: int, y: int, r: Roll) -> Seq<Seq<Cell>> {
    match m[x][y].state {
        CellStates::Sand | CellStates::Gunpowder => fall_outcome(m, x, y, r.side as int),
        CellStates::Water => flow_outcome(m, x, y, r.side as int),
        CellStates::Plague => infect_outcome(m, x, y, r.side as int, r.lean as int),
        CellStates::Fire(_) => burn_outcome(m, x, y, r.sway as int, r.chance as int, r.decay as int),
        CellStates::Spark => burst_outcome(m, x, y, r.aim_x as int, r.aim_y as int, r.reach as int),
        CellStates::Vapor => waft_outcome(m, x, y, r.decay as int, r.sway as int, r.chance as int),
        _ => m,
    }
}

/// `n` is what one probe of `m` may leave: some cell, drawn values that fit
/// its substance, and the outcome of its rule.
pub open spec fn one_step(m: Seq<Seq<Cell>>, n: Seq<Seq<Cell>>) -> bool {
    exists|x: int, y: int, r: Roll|
        in_bounds(m, x, y) && r.fits(m[x][y].state) && #[trigger] outcome(m, x, y, r) == n
}

impl Grid {
    /// Whether `s` may move into `(x, y)`.
    fn admits(&self, x: i32, y: i32, s: CellStates) -> (r: bool)
        requires
            self.wf(),
        ensures
            r == can_enter(self@, x as int, y as int, s),
    {
        match self.get_cell(x, y) {
            Some(other) => other.state.hardness() > s.hardness(),
            None => false,
        }
    }

    /// The rule of sand and gunpowder at `(x, y)`: fall straight down, else
    /// down the diagonal on `side`, else down the other one, into the first
    /// cell more penetrable than the grain.
    pub fn fall(&mut self, x: i32, y: i32, side: i32)
        requires
            old(self).wf(),
            in_bounds(old(self)@, x as int, y as int),
            side == -1 || side == 1,
        ensures
            final(self).wf(),
            final(self).size == old(self).size,
            final(self)@ == fall_outcome(old(self)@, x as int, y as int, side as int),
            substances(final(self)@) == substances(old(self)@),
    {
        let state = self.cells[x as usize][y as usize].state;
        if self.admits(x, y + 1, state) {
            self.swap(x, y, (x, y + 1));
            return;
        }
        if self.admits(x + side, y + 1, state) {
            self.swap(x, y, (x + side, y + 1));
            return;
        }
        if self.admits(x - side, y + 1, state) {
            self.swap(x, y, (x - side, y + 1));
        }
    }

    /// The rule of water at `(x, y)`: fall as sand does, else move sideways,
    /// `side` first, into a cell more penetrable than water.
    pub fn flow(&mut self, x: i32, y: i32, side: i32)
        requires
            old(self).wf(),
            in_bounds(old(self)@, x as int, y as int),
            side == -1 || side == 1,
        ensures
            final(self).wf(),
            final(self).size == old(self).size,
            final(self)@ == flow_outcome(old(self)@, x as int, y as int, side as int),
            substances(final(self)@) == substances(old(self)@),
    {
        let state = self.cells[x as usize][y as usize].state;
        if self.admits(x, y + 1, state) {
            self.swap(x, y, (x, y + 1));
            return;
        }
        if self.admits(x + side, y + 1, state) {
            self.swap(x, y, (x + side, y + 1));
            return;
        }
        if self.admits(x - side, y + 1, state) {
            self.swap(x, y, (x - side, y + 1));
            return;
        }
        if self.admits(x + side, y, state) {
            self.swap(x, y, (x + side, y));
            return;
        }
        if self.admits(x - side, y, state) {
            self.swap(x, y, (x - side, y));
        }
    }

    /// The rule of plague at `(x, y)`: overwrite the diagonal neighbor
    /// `(x + dx, y + dy)` with plague when it is at least as penetrable.
    pub fn infect(&mut self, x: i32, y: i32, dx: i32, dy: i32)
        requires
            old(self).wf(),
            in_bounds(old(self)@, x as int, y as int),
            dx == -1 || dx == 1,
            dy == -1 || dy == 1,
        ensures
            final(self).wf(),
            final(self).size == old(self).size,
            final(self)@ == infect_outcome(old(self)@, x as int, y as int, dx as int, dy as int),
    {
        let victim = (x + dx, y + dy);
        match self.get_cell(victim.0, victim.1) {
            Some(other) => {
                if other.state.hardness() >= CellStates::Plague.hardness() {
                    self.set(victim.0, victim.1, CellStates::Plague);
                }
            },
            None => {},
        }
    }

    /// The rule of fire at `(x, y)`: turn gunpowder around it into sparks
    /// and water around it into vapor; when the cell one row up and `sway`
    /// across is more penetrable than fire and `chance` is above
    /// `RISE_CUT`, copy the fire there; then decay by `decay`.
    pub fn burn(&mut self, x: i32, y: i32, sway: i32, chance: i32, decay: i32)
        requires
            old(self).wf(),
            in_bounds(old(self)@, x as int, y as int),
            old(self)@[x as int][y as int].state is Fire,
            -1 <= sway <= 1,
        ensures
            final(self).wf(),
            final(self).size == old(self).size,
            final(self)@ == burn_outcome(
                old(self)@,
                x as int,
                y as int,
                sway as int,
                chance as int,
                decay as int,
            ),
    {
        let fire = self.cells[x as usize][y as usize].state;
        let level: u8 = match fire {
            CellStates::Fire(level) => level,
            _ => 0,
        };
        assert(storable(fire));
        self.convert_around(x, y, CellStates::Gunpowder, CellStates::Spark);
        self.convert_around(x, y, CellStates::Water, CellStates::Vapor);
        if self.admits(x + sway, y - 1, fire) && chance > RISE_CUT {
            self.set(x + sway, y - 1, fire);
        }
        if decay < FIRE_OUT {
            self.set(x, y, CellStates::Air);
        } else if decay < FIRE_DIM {
            let next = if level == 0 {
                CellStates::Air
            } else {
                CellStates::Fire(level - 1)
            };
            self.set(x, y, next);
        }
    }

    /// The rule of a spark at `(x, y)`: overwrite every cell `1..=reach`
    /// steps out in direction `(dx, dy)` with the hottest fire, whatever it
    /// holds, then turn the spark itself into air.
    pub fn burst(&mut self, x: i32, y: i32, dx: i32, dy: i32, reach: i32)
        requires
            old(self).wf(),
            in_bounds(old(self)@, x as int, y as int),
            unit_step(dx as int, dy as int),
            0 <= reach,
        ensures
            final(self).wf(),
            final(self).size == old(self).size,
            final(self)@ == burst_outcome(
                old(self)@,
                x as int,
                y as int,
                dx as int,
                dy as int,
                reach as int,
            ),
    {
        let ghost m = self@;
        let mut power: i32 = reach;
        assert(self@ =~~= ray_marked(m, x as int, y as int, dx as int, dy as int, reach as int, reach as int));
        while power > 0
            invariant
                old(self).wf(),
                m == old(self)@,
                self.wf(),
                self.size == old(self).size,
                unit_step(dx as int, dy as int),
                0 <= power <= reach,
                self@ == ray_marked(m, x as int, y as int, dx as int, dy as int, power as int, reach as int),
            decreases power,
        {
            let tx: i64 = if dx > 0 {
                x as i64 + power as i64
            } else if dx < 0 {
                x as i64 - power as i64
            } else {
                x as i64
            };
            let ty: i64 = if dy > 0 {
                y as i64 + power as i64
            } else if dy < 0 {
                y as i64 - power as i64
            } else {
                y as i64
            };
            assert(on_ray(x as int, y as int, dx as int, dy as int, power - 1, reach as int, tx as int, ty as int));
            if self.bounds_wide(tx, ty) {
                self.set(tx as i32, ty as i32, CellStates::Fire(FIRE_MAX));
            }
            assert(self@ =~~= ray_marked(
                m,
                x as int,
                y as int,
                dx as int,
                dy as int,
                power - 1,
                reach as int,
            ));
            power = power - 1;
        }
        self.set(x, y, CellStates::Air);
    }

    /// The rule of vapor at `(x, y)`: by `decay`, maybe turn into air or
    /// condense into water; then, when the cell one row up and `sway`
    /// across is more penetrable than vapor and `chance` is above
    /// `RISE_CUT`, swap with it.
    pub fn waft(&mut self, x: i32, y: i32, decay: i32, sway: i32, chance: i32)
        requires
            old(self).wf(),
            in_bounds(old(self)@, x as int, y as int),
            -1 <= sway <= 1,
        ensures
            final(self).wf(),
            final(self).size == old(self).size,
            final(self)@ == waft_outcome(
                old(self)@,
                x as int,
                y as int,
                decay as int,
                sway as int,
                chance as int,
            ),
    {
        if decay < VAPOR_CLEAR {
            self.set(x, y, CellStates::Air);
        } else if decay < VAPOR_CONDENSE {
            self.set(x, y, CellStates::Water);
        }
        if self.admits(x + sway, y - 1, CellStates::Vapor) && chance > RISE_CUT {
            self.swap(x, y, (x + sway, y - 1));
        }
    }

    /// One probe of `(x, y)` with the drawn values `roll`: apply the rule of
    /// the substance found there. Air, wall and barrier do nothing.
    pub fn apply(&mut self, x: i32, y: i32, roll: Roll)
        requires
            old(self).wf(),
            in_bounds(old(self)@, x as int, y as int),
            roll.valid(),
        ensures
            final(self).wf(),
            final(self).size == old(self).size,
            final(self)@ == outcome(old(self)@, x as int, y as int, roll),
    {
        match self.cells[x as usize][y as usize].state {
            CellStates::Sand | CellStates::Gunpowder => self.fall(x, y, roll.side),
            CellStates::Water => self.flow(x, y, roll.side),
            CellStates::Plague => self.infect(x, y, roll.side, roll.lean),
            CellStates::Fire(_) => self.burn(x, y, roll.sway, roll.chance, roll.decay),
            CellStates::Spark => self.burst(x, y, roll.aim_x, roll.aim_y, roll.reach),
            CellStates::Vapor => self.waft(x, y, roll.decay, roll.sway, roll.chance),
            CellStates::Air | CellStates::Wall | CellStates::Barrier | CellStates::Border => {},
        }
    }

    /// One step of the automaton: draw a cell uniformly, draw the values its
    /// rule needs, and apply the rule.
    pub fn step(&mut self)
        requires
            old(self).wf(),
            old(self).size.0 > 0,
            old(self).size.1 > 0,
        ensures
            final(self).wf(),
            final(self).size == old(self).size,
            one_step(old(self)@, final(self)@),
    {
        let x = draw(&mut self.rng, 0, self.size.0);
        let y = draw(&mut self.rng, 0, self.size.1);
        assert(self@[x as int] == self.cells@[x as int]@);
        assert(in_bounds(self@, x as int, y as int));
        let state = self.cells[x as usize][y as usize].state;
        let roll = roll_for(&mut self.rng, state);
        let ghost before = self@;
        self.apply(x, y, roll);
        assert(in_bounds(before, x as int, y as int) && roll.fits(before[x as int][y as int].state));
    }
}

/// Draw -1 or 1.
fn draw_sign(rng: &mut ThreadRng) -> (r: i32)
    ensures
        r == -1 || r == 1,
{
    draw(rng, 0, 2) * 2 - 1
}

/// Draw the values that the rule of `s` reads; the others keep fixed
/// values within their ranges.
fn roll_for(rng: &mut ThreadRng, s: CellStates) -> (r: Roll)
    ensures
        r.fits(s),
{
    let mut roll = Roll { side: 1, lean: 1, sway: 0, chance: 0, decay: 0, aim_x: 1, aim_y: 0, reach: 0 };
    match s {
        CellStates::Sand | CellStates::Gunpowder | CellStates::Water => {
            roll.side = draw_sign(rng);
        },
        CellStates::Plague => {
            roll.side = draw_sign(rng);
            roll.lean = draw_sign(rng);
        },
        CellStates::Fire(_) => {
            roll.sway = draw(rng, -1, 2);
            roll.chance = draw(rng, 0, RISE_ODDS);
            roll.decay = draw(rng, 0, FIRE_DECAY_RANGE);
        },
        CellStates::Spark => {
            let aim = offset_at(draw(rng, 0, 8) as usize);
            roll.aim_x = aim.0;
            roll.aim_y = aim.1;
            roll.reach = draw(rng, 0, REACH_RANGE);
        },
        CellStates::Vapor => {
            roll.decay = draw(rng, 0, VAPOR_DECAY_RANGE);
            roll.sway = draw(rng, -1, 2);
            roll.chance = draw(rng, 0, RISE_ODDS);
        },
        _ => {},
    }
    roll
}

} // verus!
