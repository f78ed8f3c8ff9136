//! The grid: cell storage, bounds-checked access, neighborhood queries and
//! the multiset of substances it holds.
use vstd::prelude::*;
use vstd::multiset::Multiset;
use vstd::seq_lib::to_multiset_contains;
use vstd::seq_lib::to_multiset_update;
use vstd::multiset::group_multiset_axioms;

use crate::cells::penetrability;
use crate::cells::storable;
use crate::cells::CellStates;
use rand::rngs::ThreadRng;

verus! {

#[verifier::external_type_specification]
#[verifier::external_body]
pub struct ExThreadRng(ThreadRng);

/// Relies on rand::thread_rng: a handle to this thread's generator.
#[verifier::external_body]
fn fresh_rng() -> ThreadRng {
    rand::thread_rng()
}

/// One cell of the grid. `temp` is a reserved attribute that no rule reads.
#[derive(Clone, Copy, Debug, PartialEq, Eq, Structural)]
pub struct Cell {
    pub state: CellStates,
    pub temp: i32,
}

impl Cell {
    /// A cell of air.
    pub fn new() -> (r: Cell)
        ensures
            r == air_cell(),
    {
        Cell { state: CellStates::Air, temp: CellStates::Air.temperature() }
    }
}

/// The cell every grid starts with.
pub open spec fn air_cell() -> Cell {
    Cell { state: CellStates::Air, temp: 0 }
}

/// `(x, y)` lies inside the cell matrix `m`, which is indexed by column first.
pub open spec fn in_bounds(m: Seq<Seq<Cell>>, x: int, y: int) -> bool {
    0 <= x < m.len() && 0 <= y < m[x].len()
}

/// `m` has `w` columns of `h` cells each.
pub open spec fn shaped(m: Seq<Seq<Cell>>, w: int, h: int) -> bool {
    &&& m.len() == w
    &&& forall|x: int| 0 <= x < w ==> #[trigger] m[x].len() == h
}

/// Every cell of `m` holds a substance that may live in the grid.
pub open spec fn all_storable(m: Seq<Seq<Cell>>) -> bool {
    forall|x: int, y: int| #[trigger] in_bounds(m, x, y) ==> storable(m[x][y].state)
}

/// `c` with its substance replaced by `s`; the temperature stays.
pub open spec fn with_state(c: Cell, s: CellStates) -> Cell {
    Cell { state: s, temp: c.temp }
}

/// Overwrite the substance at `(x, y)`; nothing happens outside the matrix.
pub open spec fn put(m: Seq<Seq<Cell>>, x: int, y: int, s: CellStates) -> Seq<Seq<Cell>> {
    if in_bounds(m, x, y) {
        m.update(x, m[x].update(y, with_state(m[x][y], s)))
    } else {
        m
    }
}

/// Exchange the substances at `(x, y)` and `(ox, oy)`; nothing happens when
/// either lies outside the matrix.
pub open spec fn exchange(m: Seq<Seq<Cell>>, x: int, y: int, ox: int, oy: int) -> Seq<Seq<Cell>> {
    if in_bounds(m, x, y) && in_bounds(m, ox, oy) {
        put(put(m, x, y, m[ox][oy].state), ox, oy, m[x][y].state)
    } else {
        m
    }
}

/// Overwriting one cell keeps the shape of the matrix, and keeps it
/// storable when the new substance is.
pub proof fn lemma_put_keeps_shape(m: Seq<Seq<Cell>>, w: int, h: int, x: int, y: int, s: CellStates)
    requires
        shaped(m, w, h),
    ensures
        shaped(put(m, x, y, s), w, h),
        all_storable(m) && storable(s) ==> all_storable(put(m, x, y, s)),
        forall|i: int, j: int| #[trigger]
            in_bounds(put(m, x, y, s), i, j) == in_bounds(m, i, j),
{
    let n = put(m, x, y, s);
    assert forall|i: int| 0 <= i < w implies #[trigger] n[i].len() == h by {}
    if all_storable(m) && storable(s) {
        assert forall|i: int, j: int| #[trigger] in_bounds(n, i, j) implies storable(n[i][j].state) by {
            assert(in_bounds(m, i, j));
        }
    }
}

/// The multiset of substances in one column.
pub open spec fn column_substances(c: Seq<Cell>) -> Multiset<CellStates> {
    c.map_values(|cell: Cell| cell.state).to_multiset()
}

/// The multiset of substances in the whole matrix.
pub open spec fn substances(m: Seq<Seq<Cell>>) -> Multiset<CellStates>
    decreases m.len(),
{
    if m.len() == 0 {
        Multiset::empty()
    } else {
        substances(m.drop_last()).add(column_substances(m.last()))
    }
}

proof fn lemma_column_put(c: Seq<Cell>, y: int, s: CellStates)
    requires
        0 <= y < c.len(),
    ensures
        column_substances(c.update(y, with_state(c[y], s))).insert(c[y].state)
            == column_substances(c).insert(s),
{
    broadcast use group_multiset_axioms, to_multiset_update, to_multiset_contains;

    let sc = c.map_values(|cell: Cell| cell.state);
    assert(c.update(y, with_state(c[y], s)).map_values(|cell: Cell| cell.state) =~= sc.update(
        y,
        s,
    ));
    assert(sc.contains(sc[y]));
    assert(column_substances(c.update(y, with_state(c[y], s))).insert(c[y].state)
        =~= column_substances(c).insert(s));
}

/// Overwriting one cell trades its old substance for the new one in the
/// multiset of substances.
pub proof fn lemma_put_substances(m: Seq<Seq<Cell>>, x: int, y: int, s: CellStates)
    requires
        in_bounds(m, x, y),
    ensures
        substances(put(m, x, y, s)).insert(m[x][y].state) == substances(m).insert(s),
    decreases m.len(),
{
    broadcast use group_multiset_axioms;

    let n = put(m, x, y, s);
    let v = m[x][y].state;
    assert(substances(n) == substances(n.drop_last()).add(column_substances(n.last())));
    assert(substances(m) == substances(m.drop_last()).add(column_substances(m.last())));
    if x == m.len() - 1 {
        assert(n.drop_last() =~= m.drop_last());
        assert(n.last() == m.last().update(y, with_state(m.last()[y], s)));
        lemma_column_put(m.last(), y, s);
        let d = substances(m.drop_last());
        let c1 = column_substances(n.last());
        let c0 = column_substances(m.last());
        assert(c1.insert(v) == c0.insert(s));
        assert(d.add(c1).insert(v) =~= d.add(c1.insert(v)));
        assert(d.add(c0).insert(s) =~= d.add(c0.insert(s)));
    } else {
        assert(n.drop_last() =~= put(m.drop_last(), x, y, s));
        assert(n.last() == m.last());
        lemma_put_substances(m.drop_last(), x, y, s);
        let d1 = substances(n.drop_last());
        let d0 = substances(m.drop_last());
        let c = column_substances(m.last());
        assert(d1.insert(v) == d0.insert(s));
        assert(d1.add(c).insert(v) =~= d1.insert(v).add(c));
        assert(d0.add(c).insert(s) =~= d0.insert(s).add(c));
    }
}

/// Exchanging two substances keeps the multiset of substances.
pub proof fn lemma_exchange_substances(m: Seq<Seq<Cell>>, x: int, y: int, ox: int, oy: int)
    ensures
        substances(exchange(m, x, y, ox, oy)) == substances(m),
{
    broadcast use group_multiset_axioms;

    if in_bounds(m, x, y) && in_bounds(m, ox, oy) {
        let a = m[x][y].state;
        let b = m[ox][oy].state;
        let m1 = put(m, x, y, b);
        assert(in_bounds(m1, ox, oy));
        assert(m1[ox][oy].state == b);
        let m2 = put(m1, ox, oy, a);
        assert(exchange(m, x, y, ox, oy) == m2);
        lemma_put_substances(m, x, y, b);
        lemma_put_substances(m1, ox, oy, a);
        assert(substances(m2).insert(b) == substances(m).insert(b));
        assert(substances(m2) =~= substances(m)) by {
            assert forall|w: CellStates| substances(m2).count(w) == substances(m).count(w) by {
                assert(substances(m2).insert(b).count(w) == substances(m).insert(b).count(w));
            }
        }
    }
}

/// The offsets of the eight neighbors, in scan order: row-major over
/// `-1..=1` in each axis, the center skipped.
pub open spec fn neighbor_offset(k: int) -> (int, int) {
    if k == 0 {
        (-1, -1)
    } else if k == 1 {
        (-1, 0)
    } else if k == 2 {
        (-1, 1)
    } else if k == 3 {
        (0, -1)
    } else if k == 4 {
        (0, 1)
    } else if k == 5 {
        (1, -1)
    } else if k == 6 {
        (1, 0)
    } else {
        (1, 1)
    }
}

/// Where the offset `(di, dj)` stands in scan order.
pub open spec fn scan_index(di: int, dj: int) -> int {
    let r = (di + 1) * 3 + (dj + 1);
    if r > 4 {
        r - 1
    } else {
        r
    }
}

/// `(i, j)` is one of the eight cells around `(x, y)`.
pub open spec fn adjacent(x: int, y: int, i: int, j: int) -> bool {
    &&& -1 <= i - x <= 1
    &&& -1 <= j - y <= 1
    &&& !(i == x && j == y)
}

/// The in-bounds neighbors of `(x, y)` holding `s`, among the first `k`
/// offsets in scan order.
pub open spec fn scan(m: Seq<Seq<Cell>>, x: int, y: int, s: CellStates, k: int) -> Seq<(int, int)>
    decreases k,
{
    if k <= 0 {
        Seq::empty()
    } else {
        let o = neighbor_offset(k - 1);
        let rest = scan(m, x, y, s, k - 1);
        if in_bounds(m, x + o.0, y + o.1) && m[x + o.0][y + o.1].state == s {
            rest.push((x + o.0, y + o.1))
        } else {
            rest
        }
    }
}

/// The neighbors of `(x, y)` holding `s`, in scan order.
pub open spec fn neighbors_with(m: Seq<Seq<Cell>>, x: int, y: int, s: CellStates) -> Seq<(int, int)> {
    scan(m, x, y, s, 8)
}

/// Some neighbor of `(x, y)` holds `s`.
pub open spec fn has_neighbor(m: Seq<Seq<Cell>>, x: int, y: int, s: CellStates) -> bool {
    exists|i: int, j: int| adjacent(x, y, i, j) && #[trigger] in_bounds(m, i, j) && m[i][j].state == s
}

/// Every neighbor of `(x, y)` holding `from` turned into `to`.
pub open spec fn convert(m: Seq<Seq<Cell>>, x: int, y: int, from: CellStates, to: CellStates) -> Seq<Seq<Cell>> {
    Seq::new(
        m.len(),
        |i: int|
            Seq::new(
                m[i].len(),
                |j: int|
                    if adjacent(x, y, i, j) && m[i][j].state == from {
                        with_state(m[i][j], to)
                    } else {
                        m[i][j]
                    },
            ),
    )
}

/// The cells listed in `ps` turned into `to`.
pub open spec fn mark(m: Seq<Seq<Cell>>, ps: Seq<(int, int)>, to: CellStates) -> Seq<Seq<Cell>> {
    Seq::new(
        m.len(),
        |i: int|
            Seq::new(
                m[i].len(),
                |j: int|
                    if ps.contains((i, j)) {
                        with_state(m[i][j], to)
                    } else {
                        m[i][j]
                    },
            ),
    )
}

/// A pair of machine coordinates as a pair of integers.
pub open spec fn point(p: (i32, i32)) -> (int, int) {
    (p.0 as int, p.1 as int)
}

/// What the first `k` offsets of a scan found.
pub proof fn lemma_scan_contains(m: Seq<Seq<Cell>>, x: int, y: int, s: CellStates, k: int)
    requires
        0 <= k <= 8,
    ensures
        forall|i: int, j: int| #[trigger]
            scan(m, x, y, s, k).contains((i, j)) <==> (adjacent(x, y, i, j) && scan_index(i - x, j - y)
                < k && in_bounds(m, i, j) && m[i][j].state == s),
    decreases k,
{
    if k > 0 {
        lemma_scan_contains(m, x, y, s, k - 1);
        let o = neighbor_offset(k - 1);
        assert forall|i: int, j: int| #[trigger]
            scan(m, x, y, s, k).contains((i, j)) <==> (adjacent(x, y, i, j) && scan_index(i - x, j - y)
                < k && in_bounds(m, i, j) && m[i][j].state == s) by {
            let rest = scan(m, x, y, s, k - 1);
            if in_bounds(m, x + o.0, y + o.1) && m[x + o.0][y + o.1].state == s {
                assert(rest.push((x + o.0, y + o.1)).contains((i, j)) <==> (rest.contains((i, j)) || (i, j)
                    == (x + o.0, y + o.1))) by {
                    if rest.push((x + o.0, y + o.1)).contains((i, j)) {
                        let t = choose|t: int|
                            0 <= t < rest.len() + 1 && #[trigger] rest.push((x + o.0, y + o.1))[t] == (i, j);
                        if t < rest.len() {
                            assert(rest[t] == (i, j));
                        }
                    }
                    if rest.contains((i, j)) {
                        let t = choose|t: int| 0 <= t < rest.len() && #[trigger] rest[t] == (i, j);
                        assert(rest.push((x + o.0, y + o.1))[t] == (i, j));
                    }
                    if (i, j) == (x + o.0, y + o.1) {
                        assert(rest.push((x + o.0, y + o.1))[rest.len() as int] == (i, j));
                    }
                }
            }
        }
    }
}

/// The grid: a matrix of cells indexed `[x][y]`, its size, and the random
/// source that drives the rules.
pub struct Grid {
    pub cells: Vec<Vec<Cell>>,
    pub rng: ThreadRng,
    pub size: (i32, i32),
}

impl View for Grid {
    type V = Seq<Seq<Cell>>;

    open spec fn view(&self) -> Seq<Seq<Cell>> {
        self.cells@.map_values(|c: Vec<Cell>| c@)
    }
}

/// A column of `h` air cells.
fn air_column(h: i32) -> (r: Vec<Cell>)
    requires
        h >= 0,
    ensures
        r@.len() == h,
        forall|y: int| 0 <= y < h ==> #[trigger] r@[y] == air_cell(),
{
    let mut r: Vec<Cell> = Vec::new();
    let mut y: i32 = 0;
    while y < h
        invariant
            0 <= y <= h,
            r@.len() == y,
            forall|j: int| 0 <= j < y ==> #[trigger] r@[j] == air_cell(),
        decreases h - y,
    {
        r.push(Cell::new());
        y = y + 1;
    }
    r
}

impl Grid {
    /// The grid's invariant: the matrix has the recorded size and holds
    /// only storable substances.
    pub open spec fn wf(&self) -> bool {
        &&& self.size.0 >= 0
        &&& self.size.1 >= 0
        &&& shaped(self@, self.size.0 as int, self.size.1 as int)
        &&& all_storable(self@)
    }

    /// A grid of `size.0` columns and `size.1` rows, all air.
    pub fn new(size: (i32, i32)) -> (g: Grid)
        requires
            size.0 >= 0,
            size.1 >= 0,
        ensures
            g.wf(),
            g.size == size,
            forall|x: int, y: int| #[trigger] in_bounds(g@, x, y) ==> g@[x][y] == air_cell(),
    {
        let mut cells: Vec<Vec<Cell>> = Vec::new();
        let mut x: i32 = 0;
        while x < size.0
            invariant
                0 <= x <= size.0,
                size.1 >= 0,
                cells@.len() == x,
                forall|i: int| 0 <= i < x ==> #[trigger] cells@[i]@.len() == size.1,
                forall|i: int, j: int|
                    0 <= i < x && 0 <= j < size.1 ==> #[trigger] cells@[i]@[j] == air_cell(),
            decreases size.0 - x,
        {
            cells.push(air_column(size.1));
            x = x + 1;
        }
        let g = Grid { cells, rng: fresh_rng(), size };
        assert forall|i: int, j: int| #[trigger] in_bounds(g@, i, j) implies g@[i][j]
            == air_cell() by {
            assert(g@[i] == g.cells@[i]@);
        }
        g
    }

    /// Whether `(x, y)` lies inside the grid.
    pub fn bounds(&self, x: i32, y: i32) -> (r: bool)
        requires
            self.wf(),
        ensures
            r == in_bounds(self@, x as int, y as int),
    {
        x >= 0 && x < self.size.0 && y >= 0 && y < self.size.1
    }

    /// The cell at `(x, y)`, or `None` outside the grid.
    pub fn get_cell(&self, x: i32, y: i32) -> (r: Option<&Cell>)
        requires
            self.wf(),
        ensures
            r.is_some() == in_bounds(self@, x as int, y as int),
            r.is_some() ==> *r.unwrap() == self@[x as int][y as int],
    {
        if self.bounds(x, y) {
            return Some(&self.cells[x as usize][y as usize]);
        }
        None
    }

    /// Overwrite the substance at `(x, y)`, keeping its temperature; outside
    /// the grid nothing changes.
    pub fn set(&mut self, x: i32, y: i32, state: CellStates)
        requires
            old(self).wf(),
            storable(state),
        ensures
            final(self).wf(),
            final(self).size == old(self).size,
            final(self)@ == put(old(self)@, x as int, y as int, state),
            !in_bounds(old(self)@, x as int, y as int) ==> final(self)@ == old(self)@,
    {
        if !self.bounds(x, y) {
            return;
        }
        self.cells[x as usize][y as usize].state = state;
        assert(self@ =~~= put(old(self)@, x as int, y as int, state));
        proof {
            lemma_put_keeps_shape(old(self)@, self.size.0 as int, self.size.1 as int, x as int, y as int, state);
        }
    }
    /// Whether `(x, y)` lies inside the grid, for coordinates that may have
    /// stepped past the range of `i32`.
    pub(crate) fn bounds_wide(&self, x: i64, y: i64) -> (r: bool)
        requires
            self.wf(),
        ensures
            r == in_bounds(self@, x as int, y as int),
    {
        x >= 0 && x < self.size.0 as i64 && y >= 0 && y < self.size.1 as i64
    }

    /// Exchange the substances at `(x, y)` and `other`, keeping both
    /// temperatures; nothing changes when either lies outside the grid.
    pub fn swap(&mut self, x: i32, y: i32, other: (i32, i32))
        requires
            old(self).wf(),
        ensures
            final(self).wf(),
            final(self).size == old(self).size,
            final(self)@ == exchange(old(self)@, x as int, y as int, other.0 as int, other.1 as int),
            !in_bounds(old(self)@, x as int, y as int) || !in_bounds(
                old(self)@,
                other.0 as int,
                other.1 as int,
            ) ==> final(self)@ == old(self)@,
            substances(final(self)@) == substances(old(self)@),
    {
        proof {
            lemma_exchange_substances(old(self)@, x as int, y as int, other.0 as int, other.1 as int);
        }
        if !self.bounds(x, y) || !self.bounds(other.0, other.1) {
            return;
        }
        let state = self.cells[x as usize][y as usize].state;
        let moved = self.cells[other.0 as usize][other.1 as usize].state;
        self.set(x, y, moved);
        self.set(other.0, other.1, state);
    }

    /// The neighbors of `(x, y)` that hold `state`, in scan order.
    pub fn find_all_around(&self, x: i32, y: i32, state: &CellStates) -> (r: Vec<(i32, i32)>)
        requires
            self.wf(),
        ensures
            r@.map_values(|p: (i32, i32)| point(p)) == neighbors_with(self@, x as int, y as int, *state),
    {
        let mut result: Vec<(i32, i32)> = Vec::new();
        let mut k: usize = 0;
        while k < 8
            invariant
                self.wf(),
                k <= 8,
                result@.map_values(|p: (i32, i32)| point(p)) == scan(self@, x as int, y as int, *state, k as int),
            decreases 8 - k,
        {
            let (di, dj) = offset_at(k);
            let nx = x as i64 + di as i64;
            let ny = y as i64 + dj as i64;
            let ghost before = result@;
            if self.bounds_wide(nx, ny) && self.cells[nx as usize][ny as usize].state == *state {
                result.push((nx as i32, ny as i32));
                assert(result@.map_values(|p: (i32, i32)| point(p)) =~= before.map_values(
                    |p: (i32, i32)| point(p),
                ).push((nx as int, ny as int)));
            }
            k = k + 1;
        }
        result
    }

    /// Whether some neighbor of `(x, y)` holds `state`.
    pub fn is_around(&self, x: i32, y: i32, state: &CellStates) -> (r: bool)
        requires
            self.wf(),
        ensures
            r == has_neighbor(self@, x as int, y as int, *state),
    {
        let mut k: usize = 0;
        while k < 8
            invariant
                self.wf(),
                k <= 8,
                forall|i: int, j: int|
                    adjacent(x as int, y as int, i, j) && scan_index(i - x, j - y) < k && #[trigger] in_bounds(
                        self@,
                        i,
                        j,
                    ) ==> self@[i][j].state != *state,
            decreases 8 - k,
        {
            let (di, dj) = offset_at(k);
            let nx = x as i64 + di as i64;
            let ny = y as i64 + dj as i64;
            if self.bounds_wide(nx, ny) && self.cells[nx as usize][ny as usize].state == *state {
                assert(adjacent(x as int, y as int, nx as int, ny as int) && in_bounds(self@, nx as int, ny as int));
                return true;
            }
            k = k + 1;
        }
        false
    }

    /// Turn every neighbor of `(x, y)` that holds `from` into `to`.
    pub(crate) fn convert_around(&mut self, x: i32, y: i32, from: CellStates, to: CellStates)
        requires
            old(self).wf(),
            storable(to),
        ensures
            final(self).wf(),
            final(self).size == old(self).size,
            final(self)@ == convert(old(self)@, x as int, y as int, from, to),
    {
        let ghost m = self@;
        let found = self.find_all_around(x, y, &from);
        let ghost ps = found@.map_values(|p: (i32, i32)| point(p));
        proof {
            lemma_scan_contains(m, x as int, y as int, from, 8);
            assert(self@ =~~= mark(m, ps.take(0), to));
        }
        let mut t: usize = 0;
        while t < found.len()
            invariant
                self.wf(),
                storable(to),
                self.size == old(self).size,
                shaped(m, self.size.0 as int, self.size.1 as int),
                t <= found@.len(),
                ps == found@.map_values(|p: (i32, i32)| point(p)),
                ps == neighbors_with(m, x as int, y as int, from),
                forall|i: int, j: int| #[trigger]
                    ps.contains((i, j)) <==> (adjacent(x as int, y as int, i, j) && scan_index(i - x, j - y)
                        < 8 && in_bounds(m, i, j) && m[i][j].state == from),
                self@ == mark(m, ps.take(t as int), to),
            decreases found@.len() - t,
        {
            let p = found[t];
            assert(ps[t as int] == point(p));
            assert(ps.contains(point(p)));
            let ghost prev = self@;
            self.set(p.0, p.1, to);
            assert(self@ =~~= mark(m, ps.take(t + 1), to)) by {
                assert forall|i: int, j: int| #[trigger] ps.take(t + 1).contains((i, j)) <==> (ps.take(
                    t as int,
                ).contains((i, j)) || (i, j) == point(p)) by {
                    if ps.take(t + 1).contains((i, j)) {
                        let u = choose|u: int| 0 <= u < t + 1 && #[trigger] ps.take(t + 1)[u] == (i, j);
                        if u < t {
                            assert(ps.take(t as int)[u] == (i, j));
                        }
                    }
                    if ps.take(t as int).contains((i, j)) {
                        let u = choose|u: int| 0 <= u < t && #[trigger] ps.take(t as int)[u] == (i, j);
                        assert(ps.take(t + 1)[u] == (i, j));
                    }
                    if (i, j) == point(p) {
                        assert(ps.take(t + 1)[t as int] == (i, j));
                    }
                }
            }
            t = t + 1;
        }
        assert(ps.take(found@.len() as int) =~= ps);
        assert forall|i: int, j: int| adjacent(x as int, y as int, i, j) implies scan_index(i - x, j - y) < 8 by {}
        assert(self@ =~~= convert(m, x as int, y as int, from, to));
    }
}

/// The offset of the `k`-th neighbor in scan order.
pub(crate) fn offset_at(k: usize) -> (r: (i32, i32))
    requires
        k < 8,
    ensures
        point(r) == neighbor_offset(k as int),
{
    if k == 0 {
        (-1, -1)
    } else if k == 1 {
        (-1, 0)
    } else if k == 2 {
        (-1, 1)
    } else if k == 3 {
        (0, -1)
    } else if k == 4 {
        (0, 1)
    } else if k == 5 {
        (1, -1)
    } else if k == 6 {
        (1, 0)
    } else {
        (1, 1)
    }
}

impl Grid {
    /// The cell at `(x, y)`, to change in place; `(x, y)` must lie inside
    /// the grid.
    pub fn cell_unchecked(&mut self, x: i32, y: i32) -> (r: &mut Cell)
        requires
            old(self).wf(),
            in_bounds(old(self)@, x as int, y as int),
        ensures
            *r == old(self)@[x as int][y as int],
            final(self).size == old(self).size,
            final(self)@ == old(self)@.update(x as int, old(self)@[x as int].update(y as int, *final(r))),
    {
        assert(self@[x as int] == self.cells@[x as int]@);
        &mut self.cells[x as usize][y as usize]
    }

    /// An independent copy of the cell matrix, for save slots and undo.
    pub fn clone_cells(&self) -> (r: Vec<Vec<Cell>>)
        requires
            self.wf(),
        ensures
            r@.map_values(|c: Vec<Cell>| c@) == self@,
    {
        let mut r: Vec<Vec<Cell>> = Vec::new();
        let mut x: usize = 0;
        while x < self.cells.len()
            invariant
                x <= self.cells@.len(),
                r@.len() == x,
                forall|i: int| 0 <= i < x ==> #[trigger] r@[i]@ == self.cells@[i]@,
            decreases self.cells@.len() - x,
        {
            let column = &self.cells[x];
            let mut copy: Vec<Cell> = Vec::new();
            let mut y: usize = 0;
            while y < column.len()
                invariant
                    y <= column@.len(),
                    copy@ == column@.take(y as int),
                decreases column@.len() - y,
            {
                copy.push(column[y]);
                y = y + 1;
                assert(copy@ =~= column@.take(y as int));
            }
            assert(copy@ =~= column@);
            r.push(copy);
            x = x + 1;
        }
        assert(r@.map_values(|c: Vec<Cell>| c@) =~= self@);
        r
    }

    /// Replace the cell matrix with `cells`, as taken by `clone_cells`.
    /// A matrix of another size, or one holding a substance that may not
    /// live in the grid, is refused and the grid is left as it was.
    pub fn restore_cells(&mut self, cells: Vec<Vec<Cell>>) -> (r: bool)
        requires
            old(self).wf(),
        ensures
            final(self).wf(),
            final(self).size == old(self).size,
            r == (shaped(
                cells@.map_values(|c: Vec<Cell>| c@),
                old(self).size.0 as int,
                old(self).size.1 as int,
            ) && all_storable(cells@.map_values(|c: Vec<Cell>| c@))),
            r ==> final(self)@ == cells@.map_values(|c: Vec<Cell>| c@),
            !r ==> final(self)@ == old(self)@,
    {
        let ghost m = cells@.map_values(|c: Vec<Cell>| c@);
        if cells.len() != self.size.0 as usize {
            return false;
        }
        let mut x: usize = 0;
        while x < cells.len()
            invariant
                x <= cells@.len(),
                m == cells@.map_values(|c: Vec<Cell>| c@),
                old(self).wf(),
                *self == *old(self),
                self.size.1 >= 0,
                forall|i: int| 0 <= i < x ==> #[trigger] m[i].len() == self.size.1,
                forall|i: int, j: int| 0 <= i < x && #[trigger] in_bounds(m, i, j) ==> storable(m[i][j].state),
            decreases cells@.len() - x,
        {
            let column = &cells[x];
            assert(column@ == m[x as int]);
            if column.len() != self.size.1 as usize {
                return false;
            }
            let mut y: usize = 0;
            while y < column.len()
                invariant
                    x < cells@.len(),
                    m == cells@.map_values(|c: Vec<Cell>| c@),
                    old(self).wf(),
                    *self == *old(self),
                    y <= column@.len(),
                    column@ == m[x as int],
                    forall|j: int| 0 <= j < y ==> #[trigger] storable(column@[j].state),
                decreases column@.len() - y,
            {
                if !column[y].state.storable() {
                    assert(in_bounds(m, x as int, y as int));
                    return false;
                }
                y = y + 1;
            }
            x = x + 1;
        }
        self.cells = cells;
        true
    }
}

} // verus!
