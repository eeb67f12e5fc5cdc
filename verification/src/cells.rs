//! The lattice state: the alive cells of the current generation and the
//! cells staged to be spawned at the next commit.

use crate::coords::lemma_listed_step;
use crate::coords::listed;
use crate::coords::point;
use crate::coords::CoordSet;
use crate::rules::births;
use crate::rules::deaths;
use crate::rules::evaluate;
use crate::rules::live_neighbours;
use crate::WORLD_EDGE;
use vstd::prelude::*;

verus! {

/// The boundary policy: a cell may be created at `c` only if neither
/// component lies beyond the world edge.
pub open spec fn in_bounds(c: (int, int)) -> bool {
    &&& -WORLD_EDGE <= c.0 <= WORLD_EDGE
    &&& -WORLD_EDGE <= c.1 <= WORLD_EDGE
}

/// The alive set after a commit: the cells staged or born that are in
/// bounds join the alive ones, then the dying ones leave.
pub open spec fn committed(
    alive: Set<(int, int)>,
    pending: Set<(int, int)>,
    born: Set<(int, int)>,
    dying: Set<(int, int)>,
) -> Set<(int, int)> {
    Set::new(
        |c: (int, int)|
            !dying.contains(c) && (alive.contains(c) || (in_bounds(c) && (born.contains(c)
                || pending.contains(c)))),
    )
}

/// The alive set one generation after `alive`, with `pending` staged.
pub open spec fn next_generation(alive: Set<(int, int)>, pending: Set<(int, int)>) -> Set<
    (int, int),
> {
    committed(alive, pending, births(alive), deaths(alive))
}

/// Whether every coordinate of the set is in bounds.
pub open spec fn bounded(cells: Set<(int, int)>) -> bool {
    forall|c: (int, int)| #[trigger] cells.contains(c) ==> in_bounds(c)
}

/// The rule of the game, for one generation and any coordinate: a dead
/// coordinate in bounds with exactly three alive neighbours is alive in the
/// next generation; an alive one with two or three alive neighbours stays
/// alive; every other alive one is dead in the next generation; and a dead
/// one that is neither born nor staged stays dead.
pub proof fn lemma_rule(alive: Set<(int, int)>, pending: Set<(int, int)>, c: (int, int))
    ensures
        !alive.contains(c) && live_neighbours(alive, c) == 3 && in_bounds(c) ==> next_generation(
            alive,
            pending,
        ).contains(c),
        alive.contains(c) && 2 <= live_neighbours(alive, c) <= 3 ==> next_generation(
            alive,
            pending,
        ).contains(c),
        alive.contains(c) && !(2 <= live_neighbours(alive, c) <= 3) ==> !next_generation(
            alive,
            pending,
        ).contains(c),
        !alive.contains(c) && live_neighbours(alive, c) != 3 && !pending.contains(c)
            ==> !next_generation(alive, pending).contains(c),
{
}

/// Staging is idempotent: to stage a coordinate twice before a commit is
/// to stage it once.
pub proof fn lemma_stage_twice(pending: Set<(int, int)>, c: (int, int))
    ensures
        pending.insert(c).insert(c) == pending.insert(c),
{
    assert(pending.insert(c).insert(c) =~= pending.insert(c));
}

/// No cell that a commit adds lies beyond the world edge.
pub proof fn lemma_commit_in_bounds(
    alive: Set<(int, int)>,
    pending: Set<(int, int)>,
    born: Set<(int, int)>,
    dying: Set<(int, int)>,
    c: (int, int),
)
    requires
        committed(alive, pending, born, dying).contains(c),
        !alive.contains(c),
    ensures
        in_bounds(c),
{
}

/// A commit of a bounded alive set leaves a bounded alive set.
pub proof fn lemma_commit_bounded(
    alive: Set<(int, int)>,
    pending: Set<(int, int)>,
    born: Set<(int, int)>,
    dying: Set<(int, int)>,
)
    requires
        bounded(alive),
    ensures
        bounded(committed(alive, pending, born, dying)),
{
}

/// Tests the boundary policy.
pub fn within_edge(x: i32, y: i32) -> (b: bool)
    ensures
        b == in_bounds((x as int, y as int)),
{
    -WORLD_EDGE <= x && x <= WORLD_EDGE && -WORLD_EDGE <= y && y <= WORLD_EDGE
}

/// Adds to `target` the coordinates of `source` that are in bounds.
fn spawn_in_bounds(target: &mut CoordSet, source: &CoordSet)
    ensures
        forall|c: (int, int)|
            #[trigger] final(target)@.contains(c) <==> old(target)@.contains(c) || (in_bounds(c)
                && source@.contains(c)),
{
    let cells = source.to_vec();
    let ghost before = target@;
    let mut i: usize = 0;
    while i < cells.len()
        invariant
            0 <= i <= cells.len(),
            forall|c: (int, int)| #[trigger] source@.contains(c) <==> listed(cells@, cells@.len() as int, c),
            forall|c: (int, int)|
                #[trigger] target@.contains(c) <==> before.contains(c) || (in_bounds(c) && listed(
                    cells@,
                    i as int,
                    c,
                )),
        decreases cells.len() - i,
    {
        let (x, y) = cells[i];
        if within_edge(x, y) {
            target.insert(x, y);
        }
        proof {
            assert forall|c: (int, int)|
                #[trigger] target@.contains(c) <==> before.contains(c) || (in_bounds(c) && listed(
                    cells@,
                    i + 1,
                    c,
                )) by {
                lemma_listed_step(cells@, i as int, c);
            }
        }
        i += 1;
    }
}

/// Removes from `target` the coordinates of `source`.
fn remove_all(target: &mut CoordSet, source: &CoordSet)
    ensures
        forall|c: (int, int)|
            #[trigger] final(target)@.contains(c) <==> old(target)@.contains(c) && !source@.contains(c),
{
    let cells = source.to_vec();
    let ghost before = target@;
    let mut i: usize = 0;
    while i < cells.len()
        invariant
            0 <= i <= cells.len(),
            forall|c: (int, int)| #[trigger] source@.contains(c) <==> listed(cells@, cells@.len() as int, c),
            forall|c: (int, int)|
                #[trigger] target@.contains(c) <==> before.contains(c) && !listed(cells@, i as int, c),
        decreases cells.len() - i,
    {
        let (x, y) = cells[i];
        target.remove(x, y);
        proof {
            assert forall|c: (int, int)|
                #[trigger] target@.contains(c) <==> before.contains(c) && !listed(cells@, i + 1, c) by {
                lemma_listed_step(cells@, i as int, c);
            }
        }
        i += 1;
    }
}

/// The cells of the lattice: the current generation, and the cells staged
/// to be spawned when the next generation is committed.
pub struct CellMap {
    current: CoordSet,
    to_spawn: CoordSet,
}

impl CellMap {
    /// The alive cells of the current generation.
    pub closed spec fn alive(&self) -> Set<(int, int)> {
        self.current@
    }

    /// The cells staged to be spawned at the next commit.
    pub closed spec fn pending(&self) -> Set<(int, int)> {
        self.to_spawn@
    }

    /// Every alive cell is in bounds.
    pub open spec fn wf(&self) -> bool {
        bounded(self.alive())
    }

    /// An empty lattice with nothing staged.
    pub fn new() -> (m: CellMap)
        ensures
            m.wf(),
            m.alive() == Set::<(int, int)>::empty(),
            m.pending() == Set::<(int, int)>::empty(),
    {
        CellMap { current: CoordSet::new(), to_spawn: CoordSet::new() }
    }

    /// Whether `(x, y)` is alive.
    pub fn is_alive(&self, x: i32, y: i32) -> (b: bool)
        ensures
            b == self.alive().contains((x as int, y as int)),
    {
        self.current.contains(x, y)
    }

    /// Whether `(x, y)` is staged.
    pub fn is_pending(&self, x: i32, y: i32) -> (b: bool)
        ensures
            b == self.pending().contains((x as int, y as int)),
    {
        self.to_spawn.contains(x, y)
    }

    /// The number of alive cells.
    pub fn alive_count(&self) -> (n: usize)
        ensures
            n == self.alive().len(),
    {
        self.current.len()
    }

    /// The alive cells, each once, in no particular order.
    pub fn cells(&self) -> (v: Vec<(i32, i32)>)
        ensures
            v@.no_duplicates(),
            v@.len() == self.alive().len(),
            forall|c: (int, int)| #[trigger] self.alive().contains(c) <==> listed(v@, v@.len() as int, c),
    {
        self.current.to_vec()
    }

    /// Stages `(x, y)` to be spawned at the next commit, whether or not it
    /// is alive now.
    pub fn stage_spawn(&mut self, x: i32, y: i32)
        ensures
            final(self).pending() == old(self).pending().insert((x as int, y as int)),
            final(self).alive() == old(self).alive(),
    {
        self.to_spawn.insert(x, y);
    }

    /// Stages every coordinate of `cells`.
    pub fn stage_all(&mut self, cells: &Vec<(i32, i32)>)
        ensures
            forall|c: (int, int)|
                #[trigger] final(self).pending().contains(c) <==> old(self).pending().contains(c) || listed(
                    cells@,
                    cells@.len() as int,
                    c,
                ),
            final(self).alive() == old(self).alive(),
    {
        let ghost alive = self.alive();
        let ghost before = self.pending();
        let mut i: usize = 0;
        while i < cells.len()
            invariant
                0 <= i <= cells.len(),
                self.alive() == alive,
                forall|c: (int, int)|
                    #[trigger] self.pending().contains(c) <==> before.contains(c) || listed(
                        cells@,
                        i as int,
                        c,
                    ),
            decreases cells.len() - i,
        {
            let (x, y) = cells[i];
            self.stage_spawn(x, y);
            proof {
                assert forall|c: (int, int)|
                    #[trigger] self.pending().contains(c) <==> before.contains(c) || listed(
                        cells@,
                        i + 1,
                        c,
                    ) by {
                    lemma_listed_step(cells@, i as int, c);
                }
            }
            i += 1;
        }
    }

    /// Applies one pointer sample: while the primary action is active and
    /// the pointer is over a cell that is not alive, that cell is staged.
    pub fn draw_cursor(&mut self, cursor: Option<(i32, i32)>, pressed: bool)
        ensures
            final(self).alive() == old(self).alive(),
            final(self).pending() == match cursor {
                Some(c) if pressed && !old(self).alive().contains(point(c)) => old(
                    self,
                ).pending().insert(point(c)),
                _ => old(self).pending(),
            },
    {
        if !pressed {
            return ;
        }
        if let Some((x, y)) = cursor {
            if !self.current.contains(x, y) {
                self.to_spawn.insert(x, y);
            }
        }
    }

    /// Merges the staged cells and the given births and deaths into the
    /// alive set, and empties the staging set.
    pub fn commit(&mut self, born: &CoordSet, dying: &CoordSet)
        requires
            old(self).wf(),
        ensures
            final(self).wf(),
            final(self).alive() == committed(
                old(self).alive(),
                old(self).pending(),
                born@,
                dying@,
            ),
            final(self).pending() == Set::<(int, int)>::empty(),
    {
        spawn_in_bounds(&mut self.current, born);
        spawn_in_bounds(&mut self.current, &self.to_spawn);
        remove_all(&mut self.current, dying);
        self.to_spawn.clear();
        assert(self.alive() =~= committed(
            old(self).alive(),
            old(self).pending(),
            born@,
            dying@,
        ));
    }

    /// Advances the lattice by one generation: the births and deaths of
    /// the current generation are computed and committed together with the
    /// staged cells.
    pub fn step(&mut self)
        requires
            old(self).wf(),
        ensures
            final(self).wf(),
            final(self).alive() == next_generation(old(self).alive(), old(self).pending()),
            final(self).pending() == Set::<(int, int)>::empty(),
    {
        let (born, dying) = evaluate(&self.current);
        self.commit(&born, &dying);
    }

    /// Empties the alive set and the staging set.
    pub fn clear(&mut self)
        ensures
            final(self).wf(),
            final(self).alive() == Set::<(int, int)>::empty(),
            final(self).pending() == Set::<(int, int)>::empty(),
    {
        self.current.clear();
        self.to_spawn.clear();
    }
}

impl Default for CellMap {
    fn default() -> (m: CellMap)
        ensures
            m.wf(),
            m.alive() == Set::<(int, int)>::empty(),
            m.pending() == Set::<(int, int)>::empty(),
    {
        CellMap::new()
    }
}

} // verus!
