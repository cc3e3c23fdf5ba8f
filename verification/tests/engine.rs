use sokoban::cell::Cell;
use sokoban::scene::Scene;

fn vol(c: &Cell) -> u8 {
    match c {
        Cell::Ground | Cell::Target => 0,
        _ => 1,
    }
}

fn triple_vol(t: &(Cell, Cell, Cell)) -> u8 {
    vol(&t.0) + vol(&t.1) + vol(&t.2)
}

#[test]
pub fn test_shift() {
    assert_eq!(
        Cell::shift(&(Cell::Player, Cell::Wall, Cell::Ground)),
        ((Cell::Player, Cell::Wall, Cell::Ground), false)
    );
    assert_eq!(
        Cell::shift(&(Cell::Player, Cell::Ground, Cell::Ground)),
        ((Cell::Ground, Cell::Player, Cell::Ground), true)
    );
    assert_eq!(
        Cell::shift(&(Cell::Player, Cell::Case, Cell::Wall)),
        ((Cell::Player, Cell::Case, Cell::Wall), false)
    );
}

#[test]
fn shift_conserves_volume_on_success() {
    let windows = [
        (Cell::Player, Cell::Ground, Cell::Ground),
        (Cell::Player, Cell::Case, Cell::Ground),
        (Cell::Player, Cell::Case, Cell::Target),
        (Cell::PlayerOnTarget, Cell::CaseOnTarget, Cell::Ground),
        (Cell::Player, Cell::Target, Cell::Wall),
    ];
    for w in windows.iter() {
        let (after, moved) = Cell::shift(w);
        assert!(moved);
        assert_eq!(triple_vol(&after), triple_vol(w));
    }
}

#[test]
fn shift_into_wall_always_fails() {
    let rights = [
        Cell::Ground,
        Cell::Wall,
        Cell::Target,
        Cell::Case,
        Cell::CaseOnTarget,
        Cell::Player,
        Cell::PlayerOnTarget,
    ];
    for r in rights.iter() {
        let before = (Cell::Player, Cell::Wall, *r);
        assert_eq!(Cell::shift(&before), (before, false));
    }
}

#[test]
fn shift_push_against_obstacle_fails() {
    for r in [Cell::Wall, Cell::Case, Cell::CaseOnTarget].iter() {
        let before = (Cell::Player, Cell::Case, *r);
        assert_eq!(Cell::shift(&before), (before, false));
    }
}

#[test]
fn shift_onto_ground_succeeds() {
    assert_eq!(
        Cell::shift(&(Cell::Player, Cell::Ground, Cell::Ground)),
        ((Cell::Ground, Cell::Player, Cell::Ground), true)
    );
}

#[test]
fn can_override_only_bare_floors() {
    assert!(Cell::Ground.can_override());
    assert!(Cell::Target.can_override());
    assert!(!Cell::Wall.can_override());
    assert!(!Cell::Case.can_override());
    assert!(!Cell::CaseOnTarget.can_override());
    assert!(!Cell::Player.can_override());
    assert!(!Cell::PlayerOnTarget.can_override());
}

#[test]
fn move_then_undo_restores_scene() {
    let mut scene = Scene::init();
    scene.load(&["#####", "#i  #", "# o #", "#  x#", "#####"]);
    let grid_before = scene.get_map().clone();
    let player_before = scene.get_player();
    assert!(scene.move_down());
    scene.undo();
    assert_eq!(scene.get_map(), &grid_before);
    assert_eq!(scene.get_player(), player_before);
}

#[test]
fn undo_on_empty_history_is_noop() {
    let mut scene = Scene::init();
    scene.load(&["#####", "#i o#", "#####"]);
    let grid_before = scene.get_map().clone();
    let player_before = scene.get_player();
    scene.undo();
    assert_eq!(scene.get_map(), &grid_before);
    assert_eq!(scene.get_player(), player_before);
}

#[test]
fn repeated_undo_walks_back_to_load() {
    let mut scene = Scene::init();
    scene.load(&["######", "#i  x#", "# o  #", "#    #", "######"]);
    let grid_before = scene.get_map().clone();
    let player_before = scene.get_player();
    assert!(scene.move_right());
    assert!(scene.move_down());
    assert!(scene.move_right());
    scene.undo();
    scene.undo();
    scene.undo();
    scene.undo();
    assert_eq!(scene.get_map(), &grid_before);
    assert_eq!(scene.get_player(), player_before);
}

#[test]
fn solved_ignores_cases_on_targets() {
    let mut scene = Scene::init();
    scene.load(&["###", "#O#", "###"]);
    assert!(scene.is_pass());

    let mut scene = Scene::init();
    scene.load(&["####", "#Oo#", "####"]);
    assert!(!scene.is_pass());

    let mut scene = Scene::init();
    scene.load(&["##", "##"]);
    assert!(scene.is_pass());
}

#[test]
fn load_places_player_and_case() {
    let mut scene = Scene::init();
    scene.load(&["#####", "#i  #", "# o #", "#  x#", "#####"]);
    assert_eq!(scene.get_size(), (5, 5));
    assert_eq!(scene.get_player(), (1, 1));
    assert_eq!(scene.get_cell((1, 1)), Cell::Player);
    assert_eq!(scene.get_cell((2, 2)), Cell::Case);
    assert_eq!(scene.get_cell((3, 3)), Cell::Target);
    assert_eq!(scene.get_cell((0, 0)), Cell::Wall);
    assert!(!scene.is_pass());
}

#[test]
fn pushing_the_case_onto_the_target_solves() {
    let mut scene = Scene::init();
    scene.load(&["#####", "#i  #", "# o #", "#  x#", "#####"]);
    assert!(scene.move_down());
    assert!(scene.move_right());
    assert_eq!(scene.get_cell((2, 3)), Cell::Case);
    assert!(scene.move_upward());
    assert!(scene.move_right());
    assert!(scene.move_down());
    assert_eq!(scene.get_cell((3, 3)), Cell::CaseOnTarget);
    assert_eq!(scene.get_cell((2, 3)), Cell::Player);
    assert!(scene.is_pass());
}

#[test]
fn one_rightward_push_solves_the_line() {
    let mut scene = Scene::init();
    scene.load(&["iox"]);
    assert!(!scene.is_pass());
    assert!(scene.move_right());
    assert_eq!(scene.get_cell((0, 0)), Cell::Ground);
    assert_eq!(scene.get_cell((0, 1)), Cell::Player);
    assert_eq!(scene.get_cell((0, 2)), Cell::CaseOnTarget);
    assert_eq!(scene.get_player(), (0, 1));
    assert!(scene.is_pass());
    assert!(!scene.move_right());
}

#[test]
fn moves_without_room_are_rejected() {
    let mut scene = Scene::init();
    scene.load(&["io"]);
    let grid_before = scene.get_map().clone();
    assert!(!scene.move_right());
    assert!(!scene.move_left());
    assert!(!scene.move_upward());
    assert!(!scene.move_down());
    assert_eq!(scene.get_map(), &grid_before);
    assert_eq!(scene.get_player(), (0, 0));
}

#[test]
fn load_keeps_last_player_character() {
    let mut scene = Scene::init();
    scene.load(&["i  ", "  I"]);
    assert_eq!(scene.get_player(), (1, 2));
    assert_eq!(scene.get_cell((0, 0)), Cell::Player);
    assert_eq!(scene.get_cell((1, 2)), Cell::PlayerOnTarget);
}

#[test]
fn reload_starts_a_fresh_session() {
    let mut scene = Scene::init();
    scene.load(&["i  x", " o  "]);
    assert!(scene.move_right());
    scene.load(&["ix", "  "]);
    let grid_before = scene.get_map().clone();
    scene.undo();
    assert_eq!(scene.get_map(), &grid_before);
    assert_eq!(scene.get_player(), (0, 0));
}

#[test]
fn all_four_directions_move_the_player() {
    let mut scene = Scene::init();
    scene.load(&["#####", "#   #", "# i #", "#   #", "#####"]);
    assert!(scene.move_upward());
    assert_eq!(scene.get_player(), (1, 2));
    assert!(scene.move_down());
    assert_eq!(scene.get_player(), (2, 2));
    assert!(scene.move_left());
    assert_eq!(scene.get_player(), (2, 1));
    assert!(scene.move_right());
    assert_eq!(scene.get_player(), (2, 2));
}

#[test]
fn get_boxes_reports_nothing() {
    let mut scene = Scene::init();
    scene.load(&["io"]);
    assert!(scene.get_boxes().is_empty());
}

#[test]
fn player_walks_onto_and_off_a_target() {
    let mut scene = Scene::init();
    scene.load(&["ix  "]);
    assert!(scene.move_right());
    assert_eq!(scene.get_cell((0, 1)), Cell::PlayerOnTarget);
    assert!(scene.move_right());
    assert_eq!(scene.get_cell((0, 1)), Cell::Target);
    assert_eq!(scene.get_cell((0, 2)), Cell::Player);
}
