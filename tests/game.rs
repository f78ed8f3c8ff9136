use automatomas::cells::CellStates;
use automatomas::game::Game;
use automatomas::game::GameState;
use automatomas::grid::Grid;

fn small_game() -> Game {
    let mut game = Game::new((640, 480));
    game.grid = Grid::new((6, 6));
    game
}

fn count(g: &Grid, s: CellStates) -> usize {
    g.cells.iter().flatten().filter(|c| c.state == s).count()
}

#[test]
fn new_game_defaults() {
    let game = Game::new((640, 480));
    assert_eq!(game.grid.size, (192, 144));
    assert_eq!(game.screen, (640, 480));
    assert_eq!(game.settings.iterations, 15000);
    assert!(!game.settings.pause);
    assert_eq!(game.settings.brush.size, 3);
    assert_eq!(game.settings.brush.state, None);
    assert!(!game.settings.brush.override_state);
    assert!(game.saved.is_empty());
    assert!(game.backup.is_empty());
    assert_eq!(game.state(), GameState::Running);
    assert_eq!(count(&game.grid, CellStates::Air), 192 * 144);
}

#[test]
fn state_follows_window_then_pause() {
    let mut game = small_game();
    game.settings.pause = true;
    assert_eq!(game.state(), GameState::Paused);
    game.window = Some("Help".to_string());
    assert_eq!(game.state(), GameState::Window);
    game.settings.pause = false;
    assert_eq!(game.state(), GameState::Window);
    game.window = None;
    assert_eq!(game.state(), GameState::Running);
}

#[test]
fn resize_records_screen() {
    let mut game = small_game();
    game.resize_screen((800, 600));
    assert_eq!(game.screen, (800, 600));
}

#[test]
fn select_toggles_brush() {
    let mut game = small_game();
    game.select(CellStates::Sand);
    assert_eq!(game.settings.brush.state, Some(CellStates::Sand));
    game.select(CellStates::Water);
    assert_eq!(game.settings.brush.state, Some(CellStates::Water));
    game.select(CellStates::Water);
    assert_eq!(game.settings.brush.state, None);
}

#[test]
fn brush_size_is_clamped() {
    let mut game = small_game();
    game.set_brush_size(0);
    assert_eq!(game.settings.brush.size, 1);
    game.set_brush_size(40);
    assert_eq!(game.settings.brush.size, 25);
    game.set_brush_size(7);
    assert_eq!(game.settings.brush.size, 7);
}

#[test]
fn paint_fills_brush_square() {
    let mut game = small_game();
    game.select(CellStates::Sand);
    game.paint(2, 2, true);
    for x in 0..6 {
        for y in 0..6 {
            let inside = (1..=3).contains(&x) && (1..=3).contains(&y);
            let want = if inside { CellStates::Sand } else { CellStates::Air };
            assert_eq!(game.grid.cells[x][y].state, want);
        }
    }
    assert_eq!(game.backup.len(), 1);
    game.paint(2, 2, false);
    assert_eq!(game.backup.len(), 1);
}

#[test]
fn paint_clips_at_the_edge() {
    let mut game = small_game();
    game.select(CellStates::Water);
    game.paint(0, 0, false);
    assert_eq!(count(&game.grid, CellStates::Water), 4);
    assert!(game.backup.is_empty());
}

#[test]
fn paint_respects_denser_cells() {
    let mut game = small_game();
    game.grid.set(2, 2, CellStates::Wall);
    game.select(CellStates::Water);
    game.paint(2, 2, false);
    assert_eq!(game.grid.cells[2][2].state, CellStates::Wall);
    assert_eq!(count(&game.grid, CellStates::Water), 8);
    game.settings.brush.override_state = true;
    game.paint(2, 2, false);
    assert_eq!(game.grid.cells[2][2].state, CellStates::Water);
}

#[test]
fn paint_without_substance_only_backs_up() {
    let mut game = small_game();
    game.paint(2, 2, true);
    assert_eq!(count(&game.grid, CellStates::Air), 36);
    assert_eq!(game.backup.len(), 1);
}

#[test]
fn paint_refused_outside_or_in_window() {
    let mut game = small_game();
    game.select(CellStates::Sand);
    game.paint(6, 2, true);
    game.paint(-1, 2, true);
    game.window = Some("About".to_string());
    game.paint(2, 2, true);
    assert_eq!(count(&game.grid, CellStates::Air), 36);
    assert!(game.backup.is_empty());
}

#[test]
fn erase_clears_brush_square() {
    let mut game = small_game();
    game.grid.set(1, 1, CellStates::Barrier);
    game.grid.set(4, 4, CellStates::Sand);
    game.erase(2, 2, true);
    assert_eq!(game.grid.cells[1][1].state, CellStates::Air);
    assert_eq!(game.grid.cells[4][4].state, CellStates::Sand);
    assert_eq!(game.backup.len(), 1);
}

#[test]
fn undo_restores_before_stroke() {
    let mut game = small_game();
    game.select(CellStates::Sand);
    game.paint(2, 2, true);
    assert_eq!(count(&game.grid, CellStates::Sand), 9);
    game.undo();
    assert_eq!(count(&game.grid, CellStates::Sand), 0);
    assert!(game.backup.is_empty());
    game.undo();
    assert_eq!(count(&game.grid, CellStates::Air), 36);
}

#[test]
fn backup_keeps_at_most_the_limit() {
    let mut game = small_game();
    for i in 0..1001 {
        if i == 1 {
            game.grid.set(0, 0, CellStates::Wall);
        }
        game.backup();
    }
    assert_eq!(game.backup.len(), 1000);
    assert_eq!(game.backup[0][0][0].state, CellStates::Wall);
}

#[test]
fn save_and_load_round_trip() {
    let mut game = small_game();
    game.grid.set(3, 3, CellStates::Plague);
    game.save();
    game.grid.set(3, 3, CellStates::Water);
    game.load();
    assert_eq!(game.grid.cells[3][3].state, CellStates::Plague);
    assert!(game.saved.is_empty());
    assert_eq!(game.backup.len(), 1);
    game.undo();
    assert_eq!(game.grid.cells[3][3].state, CellStates::Water);
}

#[test]
fn load_with_no_saves_does_nothing() {
    let mut game = small_game();
    game.load();
    assert!(game.backup.is_empty());
}

#[test]
fn clear_turns_everything_to_air() {
    let mut game = small_game();
    game.grid.set(0, 0, CellStates::Sand);
    game.grid.set(5, 5, CellStates::Fire(2));
    game.grid.cells[5][5].temp = 3;
    game.clear();
    assert_eq!(count(&game.grid, CellStates::Air), 36);
    assert_eq!(game.grid.cells[5][5].temp, 3);
}

#[test]
fn paused_update_changes_nothing() {
    let mut game = small_game();
    game.grid.set(2, 0, CellStates::Sand);
    game.settings.pause = true;
    game.update();
    assert_eq!(game.grid.cells[2][0].state, CellStates::Sand);
}

#[test]
fn running_update_moves_sand() {
    let mut game = small_game();
    game.grid.set(2, 0, CellStates::Sand);
    game.settings.iterations = 5000;
    game.update();
    assert_eq!(game.grid.cells[2][5].state, CellStates::Sand);
}
