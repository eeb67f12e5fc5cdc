use game_of_life::cells::within_edge;
use game_of_life::cells::CellMap;
use game_of_life::coords::CoordSet;
use game_of_life::WORLD_EDGE;

fn alive_after_commit(cells: &[(i32, i32)]) -> CellMap {
    let mut m = CellMap::new();
    m.stage_all(&cells.to_vec());
    m.commit(&CoordSet::new(), &CoordSet::new());
    m
}

fn alive(m: &CellMap) -> Vec<(i32, i32)> {
    let mut v = m.cells();
    v.sort();
    v
}

fn set_of(cells: &[(i32, i32)]) -> CoordSet {
    let mut s = CoordSet::new();
    for &(x, y) in cells {
        s.insert(x, y);
    }
    s
}

#[test]
fn new_lattice_is_empty() {
    let m = CellMap::new();
    assert_eq!(m.alive_count(), 0);
    assert_eq!(m.cells(), vec![]);
    assert!(!m.is_alive(0, 0));
    assert!(!m.is_pending(0, 0));
    let d = CellMap::default();
    assert_eq!(d.alive_count(), 0);
}

#[test]
fn blinker_has_period_two() {
    let mut m = alive_after_commit(&[(1, 0), (1, 1), (1, 2)]);
    assert_eq!(alive(&m), vec![(1, 0), (1, 1), (1, 2)]);
    m.step();
    assert_eq!(alive(&m), vec![(0, 1), (1, 1), (2, 1)]);
    m.step();
    assert_eq!(alive(&m), vec![(1, 0), (1, 1), (1, 2)]);
}

#[test]
fn block_is_a_still_life() {
    let mut m = alive_after_commit(&[(0, 0), (1, 0), (0, 1), (1, 1)]);
    m.step();
    assert_eq!(alive(&m), vec![(0, 0), (0, 1), (1, 0), (1, 1)]);
}

#[test]
fn glider_moves_one_cell_in_four_generations() {
    let mut m = alive_after_commit(&[(1, 0), (2, 1), (0, 2), (1, 2), (2, 2)]);
    for _ in 0..4 {
        m.step();
    }
    assert_eq!(alive(&m), vec![(1, 3), (2, 1), (2, 3), (3, 2), (3, 3)]);
}

#[test]
fn staging_does_not_change_the_alive_set() {
    let mut m = alive_after_commit(&[(0, 0)]);
    m.stage_spawn(5, 5);
    assert!(m.is_pending(5, 5));
    assert!(!m.is_alive(5, 5));
    assert_eq!(alive(&m), vec![(0, 0)]);
}

#[test]
fn staging_twice_equals_staging_once() {
    let mut once = CellMap::new();
    once.stage_spawn(2, 3);
    let mut twice = CellMap::new();
    twice.stage_spawn(2, 3);
    twice.stage_spawn(2, 3);
    assert!(twice.is_pending(2, 3));
    once.commit(&CoordSet::new(), &CoordSet::new());
    twice.commit(&CoordSet::new(), &CoordSet::new());
    assert_eq!(alive(&once), vec![(2, 3)]);
    assert_eq!(alive(&twice), alive(&once));
}

#[test]
fn commit_empties_the_staging_set() {
    let mut m = CellMap::new();
    m.stage_spawn(1, 1);
    m.stage_spawn(WORLD_EDGE + 1, 0);
    m.commit(&CoordSet::new(), &CoordSet::new());
    assert!(!m.is_pending(1, 1));
    assert!(!m.is_pending(WORLD_EDGE + 1, 0));
    let mut n = CellMap::new();
    n.stage_spawn(1, 1);
    n.step();
    assert!(!n.is_pending(1, 1));
}

#[test]
fn commit_applies_births_and_deaths() {
    let mut m = alive_after_commit(&[(0, 0), (1, 0)]);
    m.stage_spawn(9, 9);
    m.commit(&set_of(&[(5, 5)]), &set_of(&[(0, 0)]));
    assert_eq!(alive(&m), vec![(1, 0), (5, 5), (9, 9)]);
}

#[test]
fn commit_removes_a_death_that_is_also_given_as_a_birth() {
    let mut m = alive_after_commit(&[(0, 0)]);
    m.commit(&set_of(&[(3, 3)]), &set_of(&[(3, 3)]));
    assert_eq!(alive(&m), vec![(0, 0)]);
}

#[test]
fn commit_drops_cells_beyond_the_edge() {
    let mut m = CellMap::new();
    m.stage_spawn(WORLD_EDGE, -WORLD_EDGE);
    m.stage_spawn(WORLD_EDGE + 1, 0);
    m.stage_spawn(0, -WORLD_EDGE - 1);
    m.commit(&set_of(&[(-WORLD_EDGE, WORLD_EDGE), (i32::MAX, i32::MIN)]), &CoordSet::new());
    assert_eq!(alive(&m), vec![(-WORLD_EDGE, WORLD_EDGE), (WORLD_EDGE, -WORLD_EDGE)]);
}

#[test]
fn no_cell_is_born_beyond_the_edge() {
    let e = WORLD_EDGE;
    let mut m = alive_after_commit(&[(e, -1), (e, 0), (e, 1)]);
    m.step();
    assert_eq!(alive(&m), vec![(e - 1, 0), (e, 0)]);
    assert!(!m.is_alive(e + 1, 0));
}

#[test]
fn staged_cell_that_is_alive_and_dies_stays_dead() {
    let mut m = alive_after_commit(&[(0, 0)]);
    m.stage_spawn(0, 0);
    m.step();
    assert_eq!(alive(&m), vec![]);
}

#[test]
fn staged_cells_join_at_the_next_generation() {
    let mut m = alive_after_commit(&[(0, 0), (1, 0), (0, 1), (1, 1)]);
    m.stage_spawn(10, 10);
    assert_eq!(m.alive_count(), 4);
    m.step();
    assert_eq!(alive(&m), vec![(0, 0), (0, 1), (1, 0), (1, 1), (10, 10)]);
}

#[test]
fn within_edge_is_inclusive() {
    assert_eq!(WORLD_EDGE, 4000);
    assert!(within_edge(4000, 4000));
    assert!(within_edge(-4000, -4000));
    assert!(within_edge(0, 0));
    assert!(!within_edge(4001, 0));
    assert!(!within_edge(0, 4001));
    assert!(!within_edge(-4001, 0));
    assert!(!within_edge(0, -4001));
    assert!(!within_edge(i32::MIN, 0));
    assert!(!within_edge(0, i32::MIN));
}

#[test]
fn draw_cursor_stages_the_cell_under_the_pointer() {
    let mut m = CellMap::new();
    m.draw_cursor(Some((3, -2)), true);
    assert!(m.is_pending(3, -2));
    assert!(!m.is_alive(3, -2));
}

#[test]
fn draw_cursor_needs_the_primary_action() {
    let mut m = CellMap::new();
    m.draw_cursor(Some((3, -2)), false);
    assert!(!m.is_pending(3, -2));
}

#[test]
fn draw_cursor_without_a_position_does_nothing() {
    let mut m = CellMap::new();
    m.stage_spawn(1, 1);
    m.draw_cursor(None, true);
    assert!(m.is_pending(1, 1));
    m.commit(&CoordSet::new(), &CoordSet::new());
    assert_eq!(alive(&m), vec![(1, 1)]);
}

#[test]
fn draw_cursor_on_an_alive_cell_stages_nothing() {
    let mut m = alive_after_commit(&[(3, -2)]);
    m.draw_cursor(Some((3, -2)), true);
    assert!(!m.is_pending(3, -2));
    assert!(m.is_alive(3, -2));
}

#[test]
fn clear_empties_both_sets() {
    let mut m = alive_after_commit(&[(0, 0), (1, 0)]);
    m.stage_spawn(4, 4);
    m.clear();
    assert_eq!(m.alive_count(), 0);
    assert!(!m.is_pending(4, 4));
}

#[test]
fn cells_lists_each_alive_cell_once() {
    let m = alive_after_commit(&[(2, 2), (1, 1), (2, 2), (-7, 0)]);
    assert_eq!(m.alive_count(), 3);
    assert_eq!(alive(&m), vec![(-7, 0), (1, 1), (2, 2)]);
}
