use game_of_life::coords::CoordSet;
use game_of_life::rules::count_neighbours;
use game_of_life::rules::evaluate;

fn set_of(cells: &[(i32, i32)]) -> CoordSet {
    let mut s = CoordSet::new();
    for &(x, y) in cells {
        s.insert(x, y);
    }
    s
}

fn sorted(s: &CoordSet) -> Vec<(i32, i32)> {
    let mut v = s.to_vec();
    v.sort();
    v
}

#[test]
fn empty_generation_has_no_births_and_no_deaths() {
    let (born, dying) = evaluate(&CoordSet::new());
    assert!(born.is_empty());
    assert!(dying.is_empty());
}

#[test]
fn lone_cell_dies_and_nothing_is_born() {
    let (born, dying) = evaluate(&set_of(&[(7, -3)]));
    assert_eq!(sorted(&born), vec![]);
    assert_eq!(sorted(&dying), vec![(7, -3)]);
}

#[test]
fn blinker_births_and_deaths() {
    let (born, dying) = evaluate(&set_of(&[(1, 0), (1, 1), (1, 2)]));
    assert_eq!(sorted(&born), vec![(0, 1), (2, 1)]);
    assert_eq!(sorted(&dying), vec![(1, 0), (1, 2)]);
}

#[test]
fn block_has_no_births_and_no_deaths() {
    let (born, dying) = evaluate(&set_of(&[(0, 0), (1, 0), (0, 1), (1, 1)]));
    assert!(born.is_empty());
    assert!(dying.is_empty());
}

#[test]
fn dead_cell_with_three_neighbours_is_born() {
    let (born, _) = evaluate(&set_of(&[(0, 0), (2, 0), (1, 2)]));
    assert_eq!(sorted(&born), vec![(1, 1)]);
}

#[test]
fn dead_cell_with_two_or_four_neighbours_is_not_born() {
    let (born, _) = evaluate(&set_of(&[(0, 0), (2, 0)]));
    assert!(!born.contains(1, 1));
    assert!(!born.contains(1, 0));
    let (born, _) = evaluate(&set_of(&[(0, 0), (2, 0), (0, 2), (2, 2)]));
    assert!(!born.contains(1, 1));
}

#[test]
fn alive_cell_survives_with_two_and_with_three_neighbours() {
    let (_, dying) = evaluate(&set_of(&[(0, 0), (1, 0), (2, 0)]));
    assert!(!dying.contains(1, 0));
    let (_, dying) = evaluate(&set_of(&[(0, 0), (1, 0), (2, 0), (1, 1)]));
    assert!(!dying.contains(1, 0));
}

#[test]
fn alive_cell_dies_with_one_and_with_four_neighbours() {
    let (_, dying) = evaluate(&set_of(&[(0, 0), (1, 0)]));
    assert_eq!(sorted(&dying), vec![(0, 0), (1, 0)]);
    let (_, dying) = evaluate(&set_of(&[(1, 1), (0, 0), (2, 0), (0, 2), (2, 2)]));
    assert!(dying.contains(1, 1));
}

#[test]
fn evaluate_does_not_depend_on_insertion_order() {
    let glider = [(1, 0), (2, 1), (0, 2), (1, 2), (2, 2)];
    let mut reversed = glider;
    reversed.reverse();
    let (born_a, dying_a) = evaluate(&set_of(&glider));
    let (born_b, dying_b) = evaluate(&set_of(&reversed));
    assert_eq!(sorted(&born_a), sorted(&born_b));
    assert_eq!(sorted(&dying_a), sorted(&dying_b));
    assert_eq!(sorted(&born_a), vec![(0, 1), (1, 3)]);
    assert_eq!(sorted(&dying_a), vec![(0, 2), (1, 0)]);
}

#[test]
fn evaluate_does_not_change_its_input() {
    let alive = set_of(&[(1, 0), (1, 1), (1, 2)]);
    let _ = evaluate(&alive);
    assert_eq!(sorted(&alive), vec![(1, 0), (1, 1), (1, 2)]);
}

#[test]
fn count_neighbours_counts_all_eight() {
    let ring = set_of(&[(-1, -1), (-1, 0), (-1, 1), (0, -1), (0, 1), (1, -1), (1, 0), (1, 1)]);
    assert_eq!(count_neighbours(&ring, 0, 0), 8);
    assert_eq!(count_neighbours(&ring, 1, 1), 2);
    assert_eq!(count_neighbours(&ring, 3, 3), 0);
}

#[test]
fn count_neighbours_does_not_count_the_cell_itself() {
    let s = set_of(&[(4, 4)]);
    assert_eq!(count_neighbours(&s, 4, 4), 0);
    assert_eq!(count_neighbours(&s, 5, 5), 1);
}

#[test]
fn count_neighbours_at_the_corner_of_the_lattice() {
    let s = set_of(&[(i32::MAX, i32::MAX), (i32::MAX - 1, i32::MAX), (i32::MIN, i32::MIN)]);
    assert_eq!(count_neighbours(&s, i32::MAX, i32::MAX), 1);
    assert_eq!(count_neighbours(&s, i32::MAX, i32::MAX - 1), 2);
    assert_eq!(count_neighbours(&s, i32::MIN, i32::MIN), 0);
    assert_eq!(count_neighbours(&s, i32::MIN + 1, i32::MIN), 1);
}

#[test]
fn coord_set_holds_each_coordinate_once() {
    let mut s = CoordSet::new();
    assert!(s.insert(3, -4));
    assert!(!s.insert(3, -4));
    assert!(s.insert(-4, 3));
    assert_eq!(s.len(), 2);
    assert!(s.contains(3, -4));
    assert!(!s.contains(-3, 4));
    assert!(s.remove(3, -4));
    assert!(!s.remove(3, -4));
    assert_eq!(sorted(&s), vec![(-4, 3)]);
    s.clear();
    assert!(s.is_empty());
    assert_eq!(s.len(), 0);
}

#[test]
fn coord_set_tells_extreme_coordinates_apart() {
    let corners =
        [(i32::MIN, i32::MIN), (i32::MIN, i32::MAX), (i32::MAX, i32::MIN), (i32::MAX, i32::MAX), (0, 0), (-1, -1), (0, -1), (-1, 0)];
    let s = set_of(&corners);
    assert_eq!(s.len(), 8);
    let mut expected = corners.to_vec();
    expected.sort();
    assert_eq!(sorted(&s), expected);
    assert!(!s.contains(i32::MAX, 0));
    assert!(!s.contains(1, 0));
}
