//! The simulation as one owned value: the lattice, the countdown, the pause
//! flag, the generation counter and the generator.

use crate::cells::next_generation;
use crate::cells::CellMap;
use crate::generator::Generator;
use crate::timer::restarted;
use crate::timer::ticked;
use crate::timer::AgeTimer;
use crate::timer::Countdown;
use crate::timer::IsPaused;
use crate::timer::INITIAL_AGE_DURATION;
use vstd::prelude::*;

verus! {

/// The number of generations committed so far.
pub struct Age(pub u64);

/// What a tick reads and changes: the alive and the staged cells, the
/// countdown, the pause flag and the generation count.
pub struct WorldState {
    pub alive: Set<(int, int)>,
    pub pending: Set<(int, int)>,
    pub countdown: Countdown,
    pub paused: bool,
    pub age: int,
}

/// The state after a tick of `delta` nanoseconds. A paused simulation
/// stays as it is. A running one advances its countdown; if the countdown
/// fires, the next generation is committed with the staged cells, and the
/// generation count grows by one.
pub open spec fn tick_state(s: WorldState, delta: int) -> WorldState {
    if s.paused {
        s
    } else if ticked(s.countdown, delta).finished {
        WorldState {
            alive: next_generation(s.alive, s.pending),
            pending: Set::empty(),
            countdown: ticked(s.countdown, delta),
            paused: false,
            age: s.age + 1,
        }
    } else {
        WorldState { countdown: ticked(s.countdown, delta), ..s }
    }
}

/// The state after a run of ticks, one for each of `deltas`.
pub open spec fn run(s: WorldState, deltas: Seq<int>) -> WorldState
    decreases deltas.len(),
{
    if deltas.len() == 0 {
        s
    } else {
        tick_state(run(s, deltas.drop_last()), deltas.last())
    }
}

/// While the simulation is paused, no number of ticks changes anything:
/// the generation count, the cells and the countdown stay as they are.
pub proof fn lemma_paused_run(s: WorldState, deltas: Seq<int>)
    requires
        s.paused,
    ensures
        run(s, deltas) == s,
    decreases deltas.len(),
{
    if deltas.len() > 0 {
        lemma_paused_run(s, deltas.drop_last());
    }
}

/// The generation count never falls, and a tick raises it by at most one.
pub proof fn lemma_age_monotonic(s: WorldState, delta: int)
    ensures
        s.age <= tick_state(s, delta).age <= s.age + 1,
{
}

/// The state made of the given parts.
pub open spec fn state_of(cell_map: CellMap, timer: AgeTimer, is_paused: IsPaused, age: Age) -> WorldState {
    WorldState {
        alive: cell_map.alive(),
        pending: cell_map.pending(),
        countdown: timer@,
        paused: is_paused.0,
        age: age.0 as int,
    }
}

/// One tick of `delta` nanoseconds: unless the simulation is paused, the
/// countdown advances, and when it fires the lattice steps to its next
/// generation. Says whether it stepped.
pub fn check_cells(
    delta: u64,
    timer: &mut AgeTimer,
    is_paused: &IsPaused,
    age: &mut Age,
    cell_map: &mut CellMap,
) -> (stepped: bool)
    requires
        old(timer).wf(),
        old(cell_map).wf(),
        old(age).0 < u64::MAX,
    ensures
        final(timer).wf(),
        final(cell_map).wf(),
        state_of(*final(cell_map), *final(timer), *is_paused, *final(age)) == tick_state(
            state_of(*old(cell_map), *old(timer), *is_paused, *old(age)),
            delta as int,
        ),
        stepped == (!is_paused.0 && ticked(old(timer)@, delta as int).finished),
{
    if is_paused.0 {
        return false;
    }
    let due = timer.tick(delta);
    if !due {
        return false;
    }
    age.0 += 1;
    cell_map.step();
    true
}

/// A simulation.
pub struct World {
    pub cell_map: CellMap,
    pub timer: AgeTimer,
    pub is_paused: IsPaused,
    pub age: Age,
    pub generator: Generator,
}

impl View for World {
    type V = WorldState;

    open spec fn view(&self) -> WorldState {
        state_of(self.cell_map, self.timer, self.is_paused, self.age)
    }
}

impl World {
    /// The lattice and the countdown are well formed.
    pub open spec fn wf(&self) -> bool {
        self.cell_map.wf() && self.timer.wf()
    }

    /// A running simulation with an empty lattice, nothing staged, no
    /// generation committed and the initial period.
    pub fn new(generator: Generator) -> (world: World)
        ensures
            world.wf(),
            world.generator == generator,
            world@ == (WorldState {
                alive: Set::empty(),
                pending: Set::empty(),
                countdown: restarted(INITIAL_AGE_DURATION as int),
                paused: false,
                age: 0,
            }),
    {
        World {
            cell_map: CellMap::new(),
            timer: AgeTimer::new(INITIAL_AGE_DURATION),
            is_paused: IsPaused(false),
            age: Age(0),
            generator,
        }
    }

    /// One tick of `delta` nanoseconds. Says whether a generation was
    /// committed.
    pub fn tick(&mut self, delta: u64) -> (stepped: bool)
        requires
            old(self).wf(),
            old(self)@.age < u64::MAX,
        ensures
            final(self).wf(),
            final(self)@ == tick_state(old(self)@, delta as int),
            final(self).generator == old(self).generator,
            stepped == (final(self)@.age == old(self)@.age + 1),
    {
        check_cells(delta, &mut self.timer, &self.is_paused, &mut self.age, &mut self.cell_map)
    }

    /// What a display shows: the period in whole milliseconds, the number
    /// of generations committed, and the number of alive cells.
    pub fn status(&self) -> (s: (u64, u64, usize))
        requires
            self.wf(),
        ensures
            s.0 == self@.countdown.period / 1_000_000,
            s.1 == self@.age,
            s.2 == self@.alive.len(),
    {
        (self.timer.duration_millis(), self.age.0, self.cell_map.alive_count())
    }
}

} // verus!
