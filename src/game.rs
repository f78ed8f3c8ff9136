//! A play session around the grid: pausing, the brush, save slots and the
//! undo history. Drawing and input stay outside the library.
use vstd::prelude::*;

use crate::cells::penetrability;
use crate::cells::storable;
use crate::cells::CellStates;
use crate::grid::air_cell;
use crate::grid::all_storable;
use crate::grid::in_bounds;
use crate::grid::shaped;
use crate::grid::with_state;
use crate::grid::Cell;
use crate::grid::Grid;
use crate::rules::one_step;

verus! {

/// Columns of a new session's grid.
pub const GRID_WIDTH: i32 = 192;

/// Rows of a new session's grid.
pub const GRID_HEIGHT: i32 = 144;

/// Probes per frame of a new session.
pub const ITERATIONS: i32 = 15000;

/// How many snapshots the undo history keeps.
pub const BACKUP_LIMIT: usize = 1000;

/// The brush size of a new session.
pub const BRUSH_START: i32 = 3;

/// The smallest brush.
pub const BRUSH_MIN: i32 = 1;

/// The largest brush.
pub const BRUSH_MAX: i32 = 25;

/// What the session is doing: running the automaton, paused, or showing a
/// popup window.
#[derive(Clone, Copy, Debug, PartialEq, Eq, Hash, Structural)]
pub enum GameState {
    Running,
    Paused,
    Window,
}

/// The paint brush: its width, the substance it paints (none selected: it
/// does not paint), and whether it may overwrite denser substances.
pub struct Brush {
    pub size: i32,
    pub state: Option<CellStates>,
    pub override_state: bool,
}

/// The session's settings.
pub struct Settings {
    pub iterations: i32,
    pub pause: bool,
    pub brush: Brush,
}

/// A play session.
pub struct Game {
    pub grid: Grid,
    pub settings: Settings,
    pub screen: (i32, i32),
    pub saved: Vec<Vec<Vec<Cell>>>,
    pub backup: Vec<Vec<Vec<Cell>>>,
    pub window: Option<String>,
}

/// The cell matrix a snapshot holds.
pub open spec fn snapshot(s: Vec<Vec<Cell>>) -> Seq<Seq<Cell>> {
    s@.map_values(|c: Vec<Cell>| c@)
}

/// The cell matrices a list of snapshots holds.
pub open spec fn snapshots(v: Seq<Vec<Vec<Cell>>>) -> Seq<Seq<Seq<Cell>>> {
    v.map_values(|s: Vec<Vec<Cell>>| snapshot(s))
}

/// A history with its oldest entry dropped once it holds more than
/// `BACKUP_LIMIT`.
pub open spec fn trimmed(h: Seq<Seq<Seq<Cell>>>) -> Seq<Seq<Seq<Cell>>> {
    if h.len() > BACKUP_LIMIT {
        h.drop_first()
    } else {
        h
    }
}

/// `n` can follow from `m` in exactly `k` probes.
pub open spec fn steps_to(m: Seq<Seq<Cell>>, n: Seq<Seq<Cell>>, k: nat) -> bool
    decreases k,
{
    if k == 0 {
        m == n
    } else {
        exists|p: Seq<Seq<Cell>>| steps_to(m, p, (k - 1) as nat) && #[trigger] one_step(p, n)
    }
}

/// One more probe extends a run of probes.
pub proof fn lemma_steps_extend(m: Seq<Seq<Cell>>, p: Seq<Seq<Cell>>, n: Seq<Seq<Cell>>, k: nat)
    requires
        steps_to(m, p, k),
        one_step(p, n),
    ensures
        steps_to(m, n, k + 1),
{
    assert((((k + 1) as nat) - 1) as nat == k);
}

/// The state shown for a popup window and a pause flag.
pub open spec fn state_of(window: Option<String>, pause: bool) -> GameState {
    if window is Some {
        GameState::Window
    } else if pause {
        GameState::Paused
    } else {
        GameState::Running
    }
}

impl Game {
    /// The session's invariant: a non-empty, well-formed grid, a brush of a
    /// size the controls allow, and a brush substance that may be stored.
    pub open spec fn wf(&self) -> bool {
        &&& self.grid.wf()
        &&& self.grid.size.0 > 0
        &&& self.grid.size.1 > 0
        &&& BRUSH_MIN <= self.settings.brush.size <= BRUSH_MAX
        &&& self.settings.brush.state matches Some(s) ==> storable(s)
    }

    /// A new session on a `GRID_WIDTH` by `GRID_HEIGHT` grid of air, running,
    /// with no brush substance selected, no saves and no history.
    pub fn new(screen: (i32, i32)) -> (g: Game)
        ensures
            g.wf(),
            g.grid.size == (GRID_WIDTH, GRID_HEIGHT),
            forall|x: int, y: int| #[trigger] in_bounds(g.grid@, x, y) ==> g.grid@[x][y] == air_cell(),
            g.screen == screen,
            g.settings.iterations == ITERATIONS,
            !g.settings.pause,
            g.settings.brush.size == BRUSH_START,
            g.settings.brush.state is None,
            !g.settings.brush.override_state,
            g.saved@.len() == 0,
            g.backup@.len() == 0,
            g.window is None,
    {
        Game {
            grid: Grid::new((GRID_WIDTH, GRID_HEIGHT)),
            screen,
            settings: Settings {
                iterations: ITERATIONS,
                pause: false,
                brush: Brush { size: BRUSH_START, state: None, override_state: false },
            },
            saved: Vec::new(),
            window: None,
            backup: Vec::new(),
        }
    }

    /// Whether a popup is open, else whether the session is paused.
    pub fn state(&self) -> (r: GameState)
        ensures
            r == state_of(self.window, self.settings.pause),
    {
        match self.window {
            Some(_) => GameState::Window,
            None => {
                if self.settings.pause {
                    GameState::Paused
                } else {
                    GameState::Running
                }
            },
        }
    }

    /// Record a new drawing-surface size.
    pub fn resize_screen(&mut self, screen: (i32, i32))
        ensures
            final(self).screen == screen,
            final(self).grid == old(self).grid,
            final(self).settings == old(self).settings,
            final(self).saved == old(self).saved,
            final(self).backup == old(self).backup,
            final(self).window == old(self).window,
    {
        self.screen = screen;
    }

    /// One frame of simulation: unless paused, `iterations` probes.
    pub fn update(&mut self)
        requires
            old(self).wf(),
        ensures
            final(self).wf(),
            final(self).grid.size == old(self).grid.size,
            old(self).settings.pause ==> final(self).grid@ == old(self).grid@,
            !old(self).settings.pause ==> steps_to(
                old(self).grid@,
                final(self).grid@,
                if old(self).settings.iterations > 0 {
                    old(self).settings.iterations as nat
                } else {
                    0
                },
            ),
            final(self).settings == old(self).settings,
            final(self).saved == old(self).saved,
            final(self).backup == old(self).backup,
            final(self).window == old(self).window,
    {
        if !self.settings.pause {
            let ghost start = self.grid@;
            let mut i: i32 = 0;
            while i < self.settings.iterations
                invariant
                    self.wf(),
                    self.grid.size == old(self).grid.size,
                    self.settings == old(self).settings,
                    self.saved == old(self).saved,
                    self.backup == old(self).backup,
                    self.window == old(self).window,
                    start == old(self).grid@,
                    0 <= i,
                    i <= self.settings.iterations || i == 0,
                    steps_to(start, self.grid@, i as nat),
                decreases self.settings.iterations - i,
            {
                let ghost before = self.grid@;
                self.grid.step();
                assert(steps_to(start, before, i as nat) && one_step(before, self.grid@));
                proof {
                    lemma_steps_extend(start, before, self.grid@, i as nat);
                }
                i = i + 1;
            }
        }
    }

    /// Push a snapshot of the grid onto the undo history, dropping the
    /// oldest once it holds more than `BACKUP_LIMIT`.
    pub fn backup(&mut self)
        requires
            old(self).wf(),
        ensures
            final(self).wf(),
            snapshots(final(self).backup@) == trimmed(snapshots(old(self).backup@).push(old(self).grid@)),
            final(self).grid == old(self).grid,
            final(self).settings == old(self).settings,
            final(self).saved == old(self).saved,
            final(self).window == old(self).window,
    {
        let copy = self.grid.clone_cells();
        let ghost before = self.backup@;
        self.backup.push(copy);
        assert(snapshots(self.backup@) =~= snapshots(before).push(self.grid@));
        if self.backup.len() > BACKUP_LIMIT {
            let ghost full = self.backup@;
            self.backup.remove(0);
            assert(snapshots(self.backup@) =~= snapshots(full).drop_first());
        }
    }

    /// Put back the newest snapshot of the undo history, if there is one.
    /// A snapshot that does not fit the grid is dropped without effect.
    pub fn undo(&mut self)
        requires
            old(self).wf(),
        ensures
            final(self).wf(),
            final(self).grid.size == old(self).grid.size,
            old(self).backup@.len() == 0 ==> final(self).grid@ == old(self).grid@ && final(self).backup@ == old(self).backup@,
            old(self).backup@.len() > 0 ==> {
                let last = snapshot(old(self).backup@.last());
                &&& final(self).backup@ == old(self).backup@.drop_last()
                &&& final(self).grid@ == if shaped(
                    last,
                    old(self).grid.size.0 as int,
                    old(self).grid.size.1 as int,
                ) && all_storable(last) {
                    last
                } else {
                    old(self).grid@
                }
            },
            final(self).settings == old(self).settings,
            final(self).saved == old(self).saved,
            final(self).window == old(self).window,
    {
        if let Some(cells) = self.backup.pop() {
            self.grid.restore_cells(cells);
        }
    }

    /// Push a snapshot of the grid onto the save slots.
    pub fn save(&mut self)
        requires
            old(self).wf(),
        ensures
            final(self).wf(),
            snapshots(final(self).saved@) == snapshots(old(self).saved@).push(old(self).grid@),
            final(self).grid == old(self).grid,
            final(self).settings == old(self).settings,
            final(self).backup == old(self).backup,
            final(self).window == old(self).window,
    {
        let copy = self.grid.clone_cells();
        let ghost before = self.saved@;
        self.saved.push(copy);
        assert(snapshots(self.saved@) =~= snapshots(before).push(self.grid@));
    }

    /// Take the newest save slot, if there is one: snapshot the grid onto
    /// the undo history, then put the saved matrix in place. A saved matrix
    /// that does not fit the grid leaves it as it was.
    pub fn load(&mut self)
        requires
            old(self).wf(),
        ensures
            final(self).wf(),
            final(self).grid.size == old(self).grid.size,
            old(self).saved@.len() == 0 ==> final(self).grid@ == old(self).grid@ && final(self).backup@ == old(self).backup@ && final(self).saved@ == old(self).saved@,
            old(self).saved@.len() > 0 ==> {
                let slot = snapshot(old(self).saved@.last());
                &&& final(self).saved@ == old(self).saved@.drop_last()
                &&& snapshots(final(self).backup@) == trimmed(
                    snapshots(old(self).backup@).push(old(self).grid@),
                )
                &&& final(self).grid@ == if shaped(
                    slot,
                    old(self).grid.size.0 as int,
                    old(self).grid.size.1 as int,
                ) && all_storable(slot) {
                    slot
                } else {
                    old(self).grid@
                }
            },
            final(self).settings == old(self).settings,
            final(self).window == old(self).window,
    {
        if let Some(cells) = self.saved.pop() {
            self.backup();
            self.grid.restore_cells(cells);
        }
    }

    /// Choose `state` as the brush substance, or clear the choice when it
    /// is already chosen.
    pub fn select(&mut self, state: CellStates)
        requires
            old(self).wf(),
            storable(state),
        ensures
            final(self).wf(),
            final(self).settings.brush.state == if old(self).settings.brush.state == Some(state) {
                None
            } else {
                Some(state)
            },
            final(self).settings.brush.size == old(self).settings.brush.size,
            final(self).settings.brush.override_state == old(self).settings.brush.override_state,
            final(self).settings.pause == old(self).settings.pause,
            final(self).settings.iterations == old(self).settings.iterations,
            final(self).grid == old(self).grid,
            final(self).saved == old(self).saved,
            final(self).backup == old(self).backup,
            final(self).window == old(self).window,
    {
        let chosen = match self.settings.brush.state {
            Some(s) => s == state,
            None => false,
        };
        if chosen {
            self.settings.brush.state = None;
        } else {
            self.settings.brush.state = Some(state);
        }
    }

    /// Set the brush size, held within `BRUSH_MIN..=BRUSH_MAX`.
    pub fn set_brush_size(&mut self, size: i32)
        requires
            old(self).wf(),
        ensures
            final(self).wf(),
            final(self).settings.brush.size == if size < BRUSH_MIN {
                BRUSH_MIN
            } else if size > BRUSH_MAX {
                BRUSH_MAX
            } else {
                size
            },
            final(self).settings.brush.state == old(self).settings.brush.state,
            final(self).settings.brush.override_state == old(self).settings.brush.override_state,
            final(self).settings.pause == old(self).settings.pause,
            final(self).settings.iterations == old(self).settings.iterations,
            final(self).grid == old(self).grid,
            final(self).saved == old(self).saved,
            final(self).backup == old(self).backup,
            final(self).window == old(self).window,
    {
        self.settings.brush.size = if size < BRUSH_MIN {
            BRUSH_MIN
        } else if size > BRUSH_MAX {
            BRUSH_MAX
        } else {
            size
        };
    }
}

/// The brush may put `s` over a cell holding `t`: air always goes, an
/// overriding brush always paints, otherwise only over a cell at least as
/// penetrable as `s`.
pub open spec fn brush_allows(t: CellStates, s: CellStates, overriding: bool) -> bool {
    s == CellStates::Air || overriding || penetrability(t) >= penetrability(s)
}

/// The square of side `size` with corner `(lo_x, lo_y)` painted with `s`
/// where the brush allows, over its first `a` columns and the first `b`
/// cells of column `a`.
pub open spec fn brushed_part(
    m: Seq<Seq<Cell>>,
    lo_x: int,
    lo_y: int,
    size: int,
    a: int,
    b: int,
    s: CellStates,
    overriding: bool,
) -> Seq<Seq<Cell>> {
    Seq::new(
        m.len(),
        |i: int|
            Seq::new(
                m[i].len(),
                |j: int|
                    if lo_x <= i && lo_y <= j < lo_y + size && (i < lo_x + a || (i == lo_x + a && j
                        < lo_y + b)) && brush_allows(m[i][j].state, s, overriding) {
                        with_state(m[i][j], s)
                    } else {
                        m[i][j]
                    },
            ),
    )
}

/// A brush of side `size` centred on `(cx, cy)` painted with `s` where it
/// may overwrite.
pub open spec fn brushed(
    m: Seq<Seq<Cell>>,
    cx: int,
    cy: int,
    size: int,
    s: CellStates,
    overriding: bool,
) -> Seq<Seq<Cell>> {
    brushed_part(m, cx - size / 2, cy - size / 2, size, size, 0, s, overriding)
}

/// Every cell turned to air over the first `a` columns and the first `b`
/// cells of column `a`; temperatures stay.
pub open spec fn cleared_part(m: Seq<Seq<Cell>>, a: int, b: int) -> Seq<Seq<Cell>> {
    Seq::new(
        m.len(),
        |i: int|
            Seq::new(
                m[i].len(),
                |j: int|
                    if i < a || (i == a && j < b) {
                        with_state(m[i][j], CellStates::Air)
                    } else {
                        m[i][j]
                    },
            ),
    )
}

/// Every cell turned to air; temperatures stay.
pub open spec fn cleared(m: Seq<Seq<Cell>>) -> Seq<Seq<Cell>> {
    cleared_part(m, m.len() as int, 0)
}

impl Game {
    /// The brush acts at `(cx, cy)`: the cell lies in the grid and no popup
    /// is open.
    pub open spec fn can_brush(&self, cx: int, cy: int) -> bool {
        in_bounds(self.grid@, cx, cy) && self.window is None
    }

    /// Paint `s` with the brush centred on `(cx, cy)` where the brush
    /// allows it.
    fn brush(&mut self, cx: i32, cy: i32, s: CellStates, overriding: bool)
        requires
            old(self).wf(),
            storable(s),
        ensures
            final(self).wf(),
            final(self).grid.size == old(self).grid.size,
            final(self).grid@ == brushed(
                old(self).grid@,
                cx as int,
                cy as int,
                old(self).settings.brush.size as int,
                s,
                overriding,
            ),
            final(self).settings == old(self).settings,
            final(self).saved == old(self).saved,
            final(self).backup == old(self).backup,
            final(self).window == old(self).window,
    {
        let size = self.settings.brush.size;
        let lo_x: i64 = cx as i64 - (size / 2) as i64;
        let lo_y: i64 = cy as i64 - (size / 2) as i64;
        let ghost m = self.grid@;
        assert(self.grid@ =~~= brushed_part(m, lo_x as int, lo_y as int, size as int, 0, 0, s, overriding));
        let mut a: i32 = 0;
        while a < size
            invariant
                old(self).wf(),
                self.wf(),
                storable(s),
                m == old(self).grid@,
                size == old(self).settings.brush.size,
                self.grid.size == old(self).grid.size,
                self.settings == old(self).settings,
                self.saved == old(self).saved,
                self.backup == old(self).backup,
                self.window == old(self).window,
                0 <= a <= size,
                lo_x == cx as i64 - (size / 2) as i64,
                lo_y == cy as i64 - (size / 2) as i64,
                self.grid@ == brushed_part(m, lo_x as int, lo_y as int, size as int, a as int, 0, s, overriding),
            decreases size - a,
        {
            let mut b: i32 = 0;
            while b < size
                invariant
                    old(self).wf(),
                    self.wf(),
                    storable(s),
                    m == old(self).grid@,
                    size == old(self).settings.brush.size,
                    self.grid.size == old(self).grid.size,
                    self.settings == old(self).settings,
                    self.saved == old(self).saved,
                    self.backup == old(self).backup,
                    self.window == old(self).window,
                    0 <= a < size,
                    0 <= b <= size,
                    lo_x == cx as i64 - (size / 2) as i64,
                    lo_y == cy as i64 - (size / 2) as i64,
                    self.grid@ == brushed_part(
                        m,
                        lo_x as int,
                        lo_y as int,
                        size as int,
                        a as int,
                        b as int,
                        s,
                        overriding,
                    ),
                decreases size - b,
            {
                let px = lo_x + a as i64;
                let py = lo_y + b as i64;
                if self.grid.bounds_wide(px, py) {
                    assert(self.grid@[px as int] == self.grid.cells@[px as int]@);
                    let here = self.grid.cells[px as usize][py as usize].state;
                    if s == CellStates::Air || overriding || here.hardness() >= s.hardness() {
                        self.grid.set(px as i32, py as i32, s);
                    }
                }
                assert(self.grid@ =~~= brushed_part(
                    m,
                    lo_x as int,
                    lo_y as int,
                    size as int,
                    a as int,
                    b + 1,
                    s,
                    overriding,
                ));
                b = b + 1;
            }
            assert(self.grid@ =~~= brushed_part(
                m,
                lo_x as int,
                lo_y as int,
                size as int,
                a + 1,
                0,
                s,
                overriding,
            ));
            a = a + 1;
        }
    }

    /// The left button at `(cx, cy)`: when the brush can act there, take a
    /// snapshot for undo if the stroke `begins`, then paint the selected
    /// substance, if any, where the brush allows.
    pub fn paint(&mut self, cx: i32, cy: i32, begins: bool)
        requires
            old(self).wf(),
        ensures
            final(self).wf(),
            final(self).grid.size == old(self).grid.size,
            final(self).grid@ == if old(self).can_brush(cx as int, cy as int)
                && old(self).settings.brush.state is Some {
                brushed(
                    old(self).grid@,
                    cx as int,
                    cy as int,
                    old(self).settings.brush.size as int,
                    old(self).settings.brush.state->0,
                    old(self).settings.brush.override_state,
                )
            } else {
                old(self).grid@
            },
            old(self).can_brush(cx as int, cy as int) && begins ==> snapshots(final(self).backup@)
                == trimmed(snapshots(old(self).backup@).push(old(self).grid@)),
            !(old(self).can_brush(cx as int, cy as int) && begins) ==> final(self).backup
                == old(self).backup,
            final(self).settings == old(self).settings,
            final(self).saved == old(self).saved,
            final(self).window == old(self).window,
    {
        if !self.grid.bounds(cx, cy) || self.state() == GameState::Window {
            return;
        }
        if begins {
            self.backup();
        }
        match self.settings.brush.state {
            Some(s) => {
                let overriding = self.settings.brush.override_state;
                self.brush(cx, cy, s, overriding);
            },
            None => {},
        }
    }

    /// The right button at `(cx, cy)`: when the brush can act there, take a
    /// snapshot for undo if the stroke `begins`, then turn the brush's
    /// square to air.
    pub fn erase(&mut self, cx: i32, cy: i32, begins: bool)
        requires
            old(self).wf(),
        ensures
            final(self).wf(),
            final(self).grid.size == old(self).grid.size,
            final(self).grid@ == if old(self).can_brush(cx as int, cy as int) {
                brushed(
                    old(self).grid@,
                    cx as int,
                    cy as int,
                    old(self).settings.brush.size as int,
                    CellStates::Air,
                    false,
                )
            } else {
                old(self).grid@
            },
            old(self).can_brush(cx as int, cy as int) && begins ==> snapshots(final(self).backup@)
                == trimmed(snapshots(old(self).backup@).push(old(self).grid@)),
            !(old(self).can_brush(cx as int, cy as int) && begins) ==> final(self).backup
                == old(self).backup,
            final(self).settings == old(self).settings,
            final(self).saved == old(self).saved,
            final(self).window == old(self).window,
    {
        if !self.grid.bounds(cx, cy) || self.state() == GameState::Window {
            return;
        }
        if begins {
            self.backup();
        }
        self.brush(cx, cy, CellStates::Air, false);
    }

    /// Turn every cell of the grid to air.
    pub fn clear(&mut self)
        requires
            old(self).wf(),
        ensures
            final(self).wf(),
            final(self).grid.size == old(self).grid.size,
            final(self).grid@ == cleared(old(self).grid@),
            final(self).settings == old(self).settings,
            final(self).saved == old(self).saved,
            final(self).backup == old(self).backup,
            final(self).window == old(self).window,
    {
        let ghost m = self.grid@;
        assert(self.grid@ =~~= cleared_part(m, 0, 0));
        let mut x: i32 = 0;
        while x < self.grid.size.0
            invariant
                old(self).wf(),
                self.wf(),
                m == old(self).grid@,
                self.grid.size == old(self).grid.size,
                self.settings == old(self).settings,
                self.saved == old(self).saved,
                self.backup == old(self).backup,
                self.window == old(self).window,
                0 <= x <= self.grid.size.0,
                self.grid@ == cleared_part(m, x as int, 0),
            decreases self.grid.size.0 - x,
        {
            let mut y: i32 = 0;
            while y < self.grid.size.1
                invariant
                    old(self).wf(),
                    self.wf(),
                    m == old(self).grid@,
                    self.grid.size == old(self).grid.size,
                    self.settings == old(self).settings,
                    self.saved == old(self).saved,
                    self.backup == old(self).backup,
                    self.window == old(self).window,
                    0 <= x < self.grid.size.0,
                    0 <= y <= self.grid.size.1,
                    self.grid@ == cleared_part(m, x as int, y as int),
                decreases self.grid.size.1 - y,
            {
                self.grid.set(x, y, CellStates::Air);
                assert(self.grid@ =~~= cleared_part(m, x as int, y + 1));
                y = y + 1;
            }
            assert(self.grid@ =~~= cleared_part(m, x + 1, 0));
            x = x + 1;
        }
    }
}

} // verus!
