use automatomas::cells::CellStates;
use automatomas::grid::Grid;
use automatomas::rules::Roll;

fn count(g: &Grid, s: CellStates) -> usize {
    g.cells.iter().flatten().filter(|c| c.state == s).count()
}

fn filled(w: i32, h: i32, s: CellStates) -> Grid {
    let mut g = Grid::new((w, h));
    for x in 0..w {
        for y in 0..h {
            g.set(x, y, s);
        }
    }
    g
}

fn roll() -> Roll {
    Roll { side: 1, lean: 1, sway: 0, chance: 0, decay: 49, aim_x: 1, aim_y: 0, reach: 0 }
}

#[test]
fn sand_falls_straight_down() {
    let mut g = Grid::new((3, 3));
    g.set(1, 0, CellStates::Sand);
    g.fall(1, 0, 1);
    assert_eq!(g.cells[1][0].state, CellStates::Air);
    assert_eq!(g.cells[1][1].state, CellStates::Sand);
}

#[test]
fn sand_slides_down_a_diagonal() {
    let mut g = Grid::new((3, 3));
    g.set(1, 1, CellStates::Sand);
    g.set(1, 2, CellStates::Wall);
    g.fall(1, 1, -1);
    assert_eq!(g.cells[0][2].state, CellStates::Sand);
    assert_eq!(g.cells[1][1].state, CellStates::Air);
    g.set(1, 1, CellStates::Sand);
    g.fall(1, 1, -1);
    assert_eq!(g.cells[2][2].state, CellStates::Sand);
    assert_eq!(g.cells[1][1].state, CellStates::Air);
}

#[test]
fn sand_blocked_stays() {
    let mut g = filled(3, 3, CellStates::Wall);
    g.set(1, 1, CellStates::Sand);
    let before = g.clone_cells();
    g.fall(1, 1, 1);
    assert_eq!(g.cells, before);
}

#[test]
fn sand_sinks_through_water() {
    let mut g = Grid::new((1, 2));
    g.set(0, 0, CellStates::Sand);
    g.set(0, 1, CellStates::Water);
    g.fall(0, 0, 1);
    assert_eq!(g.cells[0][0].state, CellStates::Water);
    assert_eq!(g.cells[0][1].state, CellStates::Sand);
}

#[test]
fn equal_penetrability_blocks_displacement() {
    let mut g = Grid::new((1, 2));
    g.set(0, 0, CellStates::Sand);
    g.set(0, 1, CellStates::Gunpowder);
    g.fall(0, 0, 1);
    assert_eq!(g.cells[0][0].state, CellStates::Sand);
    assert_eq!(g.cells[0][1].state, CellStates::Gunpowder);
}

#[test]
fn water_spreads_sideways() {
    let mut g = Grid::new((3, 2));
    g.set(0, 1, CellStates::Wall);
    g.set(1, 1, CellStates::Wall);
    g.set(2, 1, CellStates::Wall);
    g.set(1, 0, CellStates::Water);
    g.flow(1, 0, 1);
    assert_eq!(g.cells[2][0].state, CellStates::Water);
    assert_eq!(g.cells[1][0].state, CellStates::Air);
    g.flow(2, 0, 1);
    assert_eq!(g.cells[1][0].state, CellStates::Water);
    assert_eq!(count(&g, CellStates::Water), 1);
}

#[test]
fn water_falls_before_spreading() {
    let mut g = Grid::new((3, 2));
    g.set(1, 0, CellStates::Water);
    g.flow(1, 0, -1);
    assert_eq!(g.cells[1][1].state, CellStates::Water);
}

#[test]
fn plague_overwrites_equally_dense() {
    let mut g = filled(3, 3, CellStates::Sand);
    g.set(1, 1, CellStates::Plague);
    g.infect(1, 1, 1, 1);
    assert_eq!(g.cells[2][2].state, CellStates::Plague);
    assert_eq!(count(&g, CellStates::Plague), 2);
    assert_eq!(count(&g, CellStates::Sand), 7);
}

#[test]
fn plague_overwrites_air_and_wall_not_barrier() {
    let mut g = Grid::new((3, 3));
    g.set(1, 1, CellStates::Plague);
    g.set(0, 0, CellStates::Wall);
    g.set(2, 0, CellStates::Barrier);
    g.infect(1, 1, -1, -1);
    assert_eq!(g.cells[0][0].state, CellStates::Plague);
    g.infect(1, 1, 1, -1);
    assert_eq!(g.cells[2][0].state, CellStates::Barrier);
    g.infect(1, 1, 1, 1);
    assert_eq!(g.cells[2][2].state, CellStates::Plague);
}

#[test]
fn plague_at_the_edge_does_nothing_outside() {
    let mut g = Grid::new((1, 1));
    g.set(0, 0, CellStates::Plague);
    g.infect(0, 0, -1, 1);
    assert_eq!(count(&g, CellStates::Plague), 1);
}

#[test]
fn fire_boils_adjacent_water() {
    let mut g = Grid::new((3, 3));
    g.set(1, 1, CellStates::Fire(2));
    g.set(0, 1, CellStates::Water);
    g.set(2, 2, CellStates::Gunpowder);
    g.burn(1, 1, 0, 0, 49);
    assert_eq!(g.cells[0][1].state, CellStates::Vapor);
    assert_eq!(g.cells[2][2].state, CellStates::Spark);
    assert_eq!(g.cells[1][1].state, CellStates::Fire(2));
}

#[test]
fn fire_leaves_distant_water() {
    let mut g = Grid::new((4, 4));
    g.set(0, 0, CellStates::Fire(1));
    g.set(2, 2, CellStates::Water);
    g.burn(0, 0, 0, 0, 49);
    assert_eq!(g.cells[2][2].state, CellStates::Water);
    assert_eq!(g.cells[0][0].state, CellStates::Fire(1));
}

#[test]
fn fire_decay_bands() {
    let mut g = Grid::new((1, 1));
    g.set(0, 0, CellStates::Fire(2));
    g.burn(0, 0, 0, 0, 41);
    assert_eq!(g.cells[0][0].state, CellStates::Fire(2));
    g.burn(0, 0, 0, 0, 40);
    assert_eq!(g.cells[0][0].state, CellStates::Fire(1));
    g.burn(0, 0, 0, 0, 6);
    assert_eq!(g.cells[0][0].state, CellStates::Fire(0));
    g.burn(0, 0, 0, 0, 6);
    assert_eq!(g.cells[0][0].state, CellStates::Air);
    g.set(0, 0, CellStates::Fire(2));
    g.burn(0, 0, 0, 0, 5);
    assert_eq!(g.cells[0][0].state, CellStates::Air);
}

#[test]
fn fire_rises_by_copy() {
    let mut g = Grid::new((3, 3));
    g.set(1, 1, CellStates::Fire(1));
    g.burn(1, 1, 1, 21, 49);
    assert_eq!(g.cells[2][0].state, CellStates::Fire(1));
    assert_eq!(g.cells[1][1].state, CellStates::Fire(1));
    g.burn(1, 1, -1, 20, 49);
    assert_eq!(g.cells[0][0].state, CellStates::Air);
}

#[test]
fn fire_does_not_rise_into_denser_cells() {
    let mut g = Grid::new((1, 2));
    g.set(0, 1, CellStates::Fire(2));
    g.set(0, 0, CellStates::Vapor);
    g.burn(0, 1, 0, 49, 49);
    assert_eq!(g.cells[0][0].state, CellStates::Vapor);
}

#[test]
fn fire_ignition_does_not_conserve() {
    let mut g = Grid::new((3, 3));
    g.set(1, 1, CellStates::Fire(2));
    g.set(0, 0, CellStates::Gunpowder);
    g.set(2, 0, CellStates::Gunpowder);
    g.burn(1, 1, 0, 0, 49);
    assert_eq!(count(&g, CellStates::Gunpowder), 0);
    assert_eq!(count(&g, CellStates::Spark), 2);
}

#[test]
fn spark_burst_along_ray() {
    let mut g = filled(50, 50, CellStates::Sand);
    g.set(25, 25, CellStates::Spark);
    g.burst(25, 25, 1, 0, 10);
    assert_eq!(g.cells[25][25].state, CellStates::Air);
    for k in 1..=10 {
        assert_eq!(g.cells[25 + k][25].state, CellStates::Fire(2));
    }
    assert_eq!(g.cells[36][25].state, CellStates::Sand);
    assert_eq!(count(&g, CellStates::Fire(2)), 10);
    assert_eq!(count(&g, CellStates::Air), 1);
    assert_eq!(count(&g, CellStates::Spark), 0);
}

#[test]
fn spark_burst_diagonal_overwrites_anything() {
    let mut g = Grid::new((10, 10));
    g.set(5, 5, CellStates::Spark);
    g.set(3, 7, CellStates::Barrier);
    g.burst(5, 5, -1, 1, 3);
    assert_eq!(g.cells[4][6].state, CellStates::Fire(2));
    assert_eq!(g.cells[3][7].state, CellStates::Fire(2));
    assert_eq!(g.cells[2][8].state, CellStates::Fire(2));
    assert_eq!(g.cells[1][9].state, CellStates::Air);
    assert_eq!(g.cells[5][5].state, CellStates::Air);
}

#[test]
fn spark_burst_leaving_the_grid() {
    let mut g = Grid::new((5, 5));
    g.set(1, 1, CellStates::Spark);
    g.burst(1, 1, 0, -1, 44);
    assert_eq!(g.cells[1][0].state, CellStates::Fire(2));
    assert_eq!(count(&g, CellStates::Fire(2)), 1);
    assert_eq!(g.cells[1][1].state, CellStates::Air);
}

#[test]
fn spark_burst_of_zero_reach() {
    let mut g = Grid::new((3, 3));
    g.set(1, 1, CellStates::Spark);
    g.burst(1, 1, 1, 1, 0);
    assert_eq!(count(&g, CellStates::Air), 9);
}

#[test]
fn vapor_rises_by_swap() {
    let mut g = Grid::new((3, 3));
    g.set(1, 1, CellStates::Vapor);
    g.set(1, 0, CellStates::Sand);
    g.waft(1, 1, 399, 1, 21);
    assert_eq!(g.cells[2][0].state, CellStates::Vapor);
    assert_eq!(g.cells[1][1].state, CellStates::Air);
    assert_eq!(count(&g, CellStates::Vapor), 1);
    assert_eq!(count(&g, CellStates::Sand), 1);
}

#[test]
fn vapor_decay_bands() {
    let mut g = Grid::new((1, 1));
    g.set(0, 0, CellStates::Vapor);
    g.waft(0, 0, 4, 0, 49);
    assert_eq!(g.cells[0][0].state, CellStates::Vapor);
    g.waft(0, 0, 3, 0, 49);
    assert_eq!(g.cells[0][0].state, CellStates::Water);
    g.set(0, 0, CellStates::Vapor);
    g.waft(0, 0, 1, 0, 49);
    assert_eq!(g.cells[0][0].state, CellStates::Air);
}

#[test]
fn vapor_blocked_by_failed_check() {
    let mut g = Grid::new((1, 2));
    g.set(0, 1, CellStates::Vapor);
    g.waft(0, 1, 399, 0, 20);
    assert_eq!(g.cells[0][1].state, CellStates::Vapor);
    g.waft(0, 1, 399, 0, 21);
    assert_eq!(g.cells[0][0].state, CellStates::Vapor);
}

#[test]
fn apply_dispatches_by_substance() {
    let mut g = Grid::new((3, 3));
    g.set(1, 0, CellStates::Gunpowder);
    g.set(0, 0, CellStates::Wall);
    g.apply(1, 0, roll());
    assert_eq!(g.cells[1][1].state, CellStates::Gunpowder);
    g.apply(0, 0, roll());
    assert_eq!(g.cells[0][0].state, CellStates::Wall);
    g.apply(2, 2, roll());
    assert_eq!(count(&g, CellStates::Air), 7);
    let mut r = roll();
    r.reach = 2;
    r.aim_x = 0;
    r.aim_y = 1;
    g.set(2, 0, CellStates::Spark);
    g.apply(2, 0, r);
    assert_eq!(g.cells[2][0].state, CellStates::Air);
    assert_eq!(g.cells[2][1].state, CellStates::Fire(2));
    assert_eq!(g.cells[2][2].state, CellStates::Fire(2));
}

#[test]
fn sand_settles_at_the_bottom() {
    let mut g = Grid::new((3, 3));
    g.set(1, 0, CellStates::Sand);
    for _ in 0..2000 {
        g.step();
    }
    assert_eq!(g.cells[1][2].state, CellStates::Sand);
    assert_eq!(count(&g, CellStates::Sand), 1);
    for _ in 0..500 {
        g.step();
    }
    assert_eq!(g.cells[1][2].state, CellStates::Sand);
}

#[test]
fn step_probes_more_than_the_first_cell() {
    let mut g = Grid::new((3, 2));
    g.set(2, 0, CellStates::Sand);
    for _ in 0..1000 {
        g.step();
    }
    assert_eq!(g.cells[2][1].state, CellStates::Sand);
}

#[test]
fn isolated_fire_burns_out() {
    let mut g = Grid::new((1, 1));
    g.set(0, 0, CellStates::Fire(2));
    let mut level = 3;
    let mut steps = 0;
    while g.cells[0][0].state != CellStates::Air && steps < 10000 {
        g.step();
        steps += 1;
        match g.cells[0][0].state {
            CellStates::Fire(l) => {
                assert!((l as i32) + 1 <= level);
                level = l as i32 + 1;
            }
            CellStates::Air => level = 0,
            other => panic!("unexpected {:?}", other),
        }
    }
    assert_eq!(g.cells[0][0].state, CellStates::Air);
}

#[test]
fn spark_step_leaves_air() {
    let mut g = Grid::new((1, 1));
    g.set(0, 0, CellStates::Spark);
    g.step();
    assert_eq!(g.cells[0][0].state, CellStates::Air);
}

#[test]
fn decayed_vapor_rises_against_its_own_tier() {
    let mut g = Grid::new((1, 2));
    g.set(0, 0, CellStates::Fire(0));
    g.set(0, 1, CellStates::Vapor);
    g.waft(0, 1, 0, 0, 21);
    assert_eq!(g.cells[0][0].state, CellStates::Air);
    assert_eq!(g.cells[0][1].state, CellStates::Fire(0));
}
