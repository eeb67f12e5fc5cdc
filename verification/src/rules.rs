//! The birth and survival rule.
//!
//! A generation is a set of alive coordinates. [`evaluate`] reads one
//! generation and returns the coordinates that are born and those that die;
//! it never reads its own output, so the result depends on the generation
//! alone.

use crate::coords::interior;
use crate::coords::lemma_listed_step;
use crate::coords::listed;
use crate::coords::point;
use crate::coords::CoordSet;
use vstd::prelude::*;

verus! {

/// 1 if `(x, y)` is alive, else 0.
pub open spec fn alive_at(alive: Set<(int, int)>, x: int, y: int) -> int {
    if alive.contains((x, y)) {
        1
    } else {
        0
    }
}

/// The number of alive cells among the eight Moore neighbours of `c`.
pub open spec fn live_neighbours(alive: Set<(int, int)>, c: (int, int)) -> int {
    alive_at(alive, c.0 - 1, c.1 - 1) + alive_at(alive, c.0 - 1, c.1) + alive_at(
        alive,
        c.0 - 1,
        c.1 + 1,
    ) + alive_at(alive, c.0, c.1 - 1) + alive_at(alive, c.0, c.1 + 1) + alive_at(
        alive,
        c.0 + 1,
        c.1 - 1,
    ) + alive_at(alive, c.0 + 1, c.1) + alive_at(alive, c.0 + 1, c.1 + 1)
}

/// Whether `a` and `b` are Moore neighbours.
pub open spec fn adjacent(a: (int, int), b: (int, int)) -> bool {
    &&& a != b
    &&& -1 <= a.0 - b.0 <= 1
    &&& -1 <= a.1 - b.1 <= 1
}

/// An alive cell with two or three alive neighbours stays alive.
pub open spec fn survives(alive: Set<(int, int)>, c: (int, int)) -> bool {
    alive.contains(c) && 2 <= live_neighbours(alive, c) <= 3
}

/// An alive cell with fewer than two or more than three alive neighbours dies.
pub open spec fn dies(alive: Set<(int, int)>, c: (int, int)) -> bool {
    alive.contains(c) && !(2 <= live_neighbours(alive, c) <= 3)
}

/// A dead cell with exactly three alive neighbours is born.
pub open spec fn born(alive: Set<(int, int)>, c: (int, int)) -> bool {
    !alive.contains(c) && live_neighbours(alive, c) == 3
}

/// The coordinates born from a generation.
pub open spec fn births(alive: Set<(int, int)>) -> Set<(int, int)> {
    Set::new(|c: (int, int)| born(alive, c))
}

/// The coordinates that die in a generation.
pub open spec fn deaths(alive: Set<(int, int)>) -> Set<(int, int)> {
    Set::new(|c: (int, int)| dies(alive, c))
}

/// Whether every cell of a generation has all its neighbours on the lattice.
pub open spec fn steppable(alive: Set<(int, int)>) -> bool {
    forall|c: (int, int)| alive.contains(c) ==> interior(c)
}

/// A cell with an alive neighbour is adjacent to an alive cell.
pub proof fn lemma_live_neighbour_exists(alive: Set<(int, int)>, c: (int, int))
    requires
        live_neighbours(alive, c) > 0,
    ensures
        exists|a: (int, int)| alive.contains(a) && adjacent(a, c),
{
    let x = c.0;
    let y = c.1;
    if alive.contains((x - 1, y - 1)) {
        assert(adjacent((x - 1, y - 1), c));
    } else if alive.contains((x - 1, y)) {
        assert(adjacent((x - 1, y), c));
    } else if alive.contains((x - 1, y + 1)) {
        assert(adjacent((x - 1, y + 1), c));
    } else if alive.contains((x, y - 1)) {
        assert(adjacent((x, y - 1), c));
    } else if alive.contains((x, y + 1)) {
        assert(adjacent((x, y + 1), c));
    } else if alive.contains((x + 1, y - 1)) {
        assert(adjacent((x + 1, y - 1), c));
    } else if alive.contains((x + 1, y)) {
        assert(adjacent((x + 1, y), c));
    } else {
        assert(alive.contains((x + 1, y + 1)));
        assert(adjacent((x + 1, y + 1), c));
    }
}

/// The cells that an enumeration lists.
pub open spec fn cells_of(cells: Seq<(i32, i32)>) -> Set<(int, int)> {
    Set::new(|c: (int, int)| listed(cells, cells.len() as int, c))
}

/// The births and deaths of a generation do not depend on the order in
/// which its cells are enumerated, nor on how often a cell is listed: two
/// enumerations of the same cells give the same births and the same deaths.
pub proof fn lemma_evaluate_ignores_order(u: Seq<(i32, i32)>, v: Seq<(i32, i32)>)
    requires
        forall|c: (int, int)| listed(u, u.len() as int, c) <==> listed(v, v.len() as int, c),
    ensures
        births(cells_of(u)) == births(cells_of(v)),
        deaths(cells_of(u)) == deaths(cells_of(v)),
{
    assert(cells_of(u) =~= cells_of(v));
}

/// The empty generation is a fixed point: nothing is born and nothing dies.
pub proof fn lemma_empty_generation()
    ensures
        births(Set::<(int, int)>::empty()) == Set::<(int, int)>::empty(),
        deaths(Set::<(int, int)>::empty()) == Set::<(int, int)>::empty(),
{
    assert(births(Set::<(int, int)>::empty()) =~= Set::<(int, int)>::empty());
    assert(deaths(Set::<(int, int)>::empty()) =~= Set::<(int, int)>::empty());
}

/// No cell is both born and dying, and only alive cells die.
pub proof fn lemma_births_and_deaths(alive: Set<(int, int)>)
    ensures
        births(alive).disjoint(alive),
        deaths(alive).subset_of(alive),
{
}

/// Whether `(x, y)` is alive, for coordinates that may lie off the lattice.
fn alive_wide(alive: &CoordSet, x: i64, y: i64) -> (b: bool)
    ensures
        b == alive@.contains((x as int, y as int)),
{
    if x < -0x8000_0000 || x > 0x7fff_ffff || y < -0x8000_0000 || y > 0x7fff_ffff {
        proof {
            alive.lemma_view();
        }
        false
    } else {
        alive.contains(x as i32, y as i32)
    }
}

/// Counts the alive cells among the eight neighbours of `(x, y)`.
pub fn count_neighbours(alive: &CoordSet, x: i32, y: i32) -> (n: u8)
    ensures
        n == live_neighbours(alive@, (x as int, y as int)),
{
    let x: i64 = x as i64;
    let y: i64 = y as i64;
    let mut n: u8 = 0;
    if alive_wide(alive, x - 1, y - 1) {
        n += 1;
    }
    if alive_wide(alive, x - 1, y) {
        n += 1;
    }
    if alive_wide(alive, x - 1, y + 1) {
        n += 1;
    }
    if alive_wide(alive, x, y - 1) {
        n += 1;
    }
    if alive_wide(alive, x, y + 1) {
        n += 1;
    }
    if alive_wide(alive, x + 1, y - 1) {
        n += 1;
    }
    if alive_wide(alive, x + 1, y) {
        n += 1;
    }
    if alive_wide(alive, x + 1, y + 1) {
        n += 1;
    }
    n
}

/// What holds of the dead cells looked at so far: each is dead, and the
/// births found are those among them with exactly three alive neighbours.
spec fn candidates_judged(
    alive: Set<(int, int)>,
    checked: Set<(int, int)>,
    found: Set<(int, int)>,
) -> bool {
    &&& forall|n: (int, int)| checked.contains(n) ==> !alive.contains(n)
    &&& forall|n: (int, int)|
        found.contains(n) <==> checked.contains(n) && live_neighbours(alive, n) == 3
}

/// Judges one neighbour of an alive cell: a dead cell not looked at before
/// is counted, and recorded as a birth if it has exactly three alive
/// neighbours.
fn judge_candidate(
    alive: &CoordSet,
    checked: &mut CoordSet,
    found: &mut CoordSet,
    x: i32,
    y: i32,
)
    requires
        candidates_judged(alive@, old(checked)@, old(found)@),
    ensures
        candidates_judged(alive@, final(checked)@, final(found)@),
        final(checked)@ == if alive@.contains((x as int, y as int)) {
            old(checked)@
        } else {
            old(checked)@.insert((x as int, y as int))
        },
{
    if alive.contains(x, y) {
        return ;
    }
    if checked.contains(x, y) {
        assert(checked@ =~= old(checked)@.insert((x as int, y as int)));
        return ;
    }
    let n = count_neighbours(alive, x, y);
    if n == 3 {
        found.insert(x, y);
    }
    checked.insert(x, y);
}

/// Computes the births and deaths of one generation.
///
/// Every alive cell is counted against `old_alive`; each dead neighbour of
/// an alive cell is counted once, however many alive cells it touches.
pub fn evaluate(old_alive: &CoordSet) -> (r: (CoordSet, CoordSet))
    requires
        steppable(old_alive@),
    ensures
        r.0@ == births(old_alive@),
        r.1@ == deaths(old_alive@),
{
    let cells = old_alive.to_vec();
    let mut found = CoordSet::new();
    let mut dying = CoordSet::new();
    let mut checked = CoordSet::new();
    let mut i: usize = 0;
    while i < cells.len()
        invariant
            0 <= i <= cells.len(),
            steppable(old_alive@),
            forall|c: (int, int)| old_alive@.contains(c) <==> listed(cells@, cells@.len() as int, c),
            candidates_judged(old_alive@, checked@, found@),
            forall|c: (int, int)|
                dying@.contains(c) <==> dies(old_alive@, c) && listed(cells@, i as int, c),
            forall|c: (int, int), n: (int, int)|
                listed(cells@, i as int, c) && #[trigger] adjacent(c, n) && !old_alive@.contains(n)
                    ==> checked@.contains(n),
        decreases cells.len() - i,
    {
        let (x, y) = cells[i];
        let ghost c = (x as int, y as int);
        let ghost before = checked@;
        assert(listed(cells@, cells@.len() as int, c)) by {
            assert(point(cells@[i as int]) == c);
        }
        assert(interior(c));
        let n = count_neighbours(old_alive, x, y);
        if n < 2 || n > 3 {
            dying.insert(x, y);
        }
        judge_candidate(old_alive, &mut checked, &mut found, x - 1, y - 1);
        judge_candidate(old_alive, &mut checked, &mut found, x - 1, y);
        judge_candidate(old_alive, &mut checked, &mut found, x - 1, y + 1);
        judge_candidate(old_alive, &mut checked, &mut found, x, y - 1);
        judge_candidate(old_alive, &mut checked, &mut found, x, y + 1);
        judge_candidate(old_alive, &mut checked, &mut found, x + 1, y - 1);
        judge_candidate(old_alive, &mut checked, &mut found, x + 1, y);
        judge_candidate(old_alive, &mut checked, &mut found, x + 1, y + 1);
        proof {
            assert(before.subset_of(checked@));
            assert forall|d: (int, int)| listed(cells@, i + 1, d) <==> (listed(cells@, i as int, d)
                || d == c) by {
                lemma_listed_step(cells@, i as int, d);
            }
            assert forall|n: (int, int)| #[trigger] adjacent(c, n) && !old_alive@.contains(
                n,
            ) implies checked@.contains(n) by {
                let dx = n.0 - c.0;
                let dy = n.1 - c.1;
                assert(n == (c.0 + dx, c.1 + dy));
            }
        }
        i += 1;
    }
    proof {
        assert forall|c: (int, int)| found@.contains(c) <==> born(old_alive@, c) by {
            if born(old_alive@, c) {
                lemma_live_neighbour_exists(old_alive@, c);
                let a = choose|a: (int, int)| old_alive@.contains(a) && adjacent(a, c);
                assert(listed(cells@, cells@.len() as int, a));
                assert(adjacent(a, c));
            }
        }
        assert(found@ =~= births(old_alive@));
        assert(dying@ =~= deaths(old_alive@));
    }
    (found, dying)
}

} // verus!
