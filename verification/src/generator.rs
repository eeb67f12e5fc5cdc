//! The procedural generator: which coordinates of a square region are
//! accepted as initial cells, given one noise field per layer.
//!
//! A noise field holds one sample for every coordinate of the region, in
//! scan order, as an integer number of millionths. The generator decides
//! from the fields alone; how a field is sampled is not its concern.

use crate::cells::CellMap;
use rand::Rng;
use vstd::prelude::*;

verus! {

/// The number of sample units in 1: samples and bounds are in millionths.
pub const NOISE_SCALE: i32 = 1_000_000;

/// One layer of noise: the factor by which coordinates are divided before
/// the field is sampled, and the interval `[lo, hi)` of accepted samples.
#[derive(Clone, Copy, Debug)]
pub struct NoiseLayer {
    pub factor: u32,
    pub lo: i32,
    pub hi: i32,
}

/// Where the sample of `(x, y)` stands in a field of a region with the
/// given half-extent: the region is scanned column by column.
pub open spec fn scan_index(half: int, x: int, y: int) -> int {
    (x + half) * (2 * half) + (y + half)
}

/// Whether `(x, y)` lies in the square region of the given half-extent.
pub open spec fn in_region(half: int, x: int, y: int) -> bool {
    -half <= x < half && -half <= y < half
}

/// Whether `(x, y)` is no farther from the centre than the half-extent.
pub open spec fn inside_circle(half: int, x: int, y: int) -> bool {
    x * x + y * y <= half * half
}

/// Whether the field has a sample at `i` and the layer accepts it.
pub open spec fn layer_passes(layer: NoiseLayer, field: Seq<i32>, i: int) -> bool {
    0 <= i < field.len() && layer.lo <= field[i] < layer.hi
}

/// Whether each of the first `upto` layers has a field and accepts its
/// sample at `i`.
pub open spec fn layers_pass(
    layers: Seq<NoiseLayer>,
    fields: Seq<Vec<i32>>,
    upto: int,
    i: int,
) -> bool {
    forall|k: int|
        0 <= k < upto ==> k < fields.len() && layer_passes(#[trigger] layers[k], fields[k]@, i)
}

/// Whether `a` is scanned before `b`: its column lies to the left, or it
/// lies lower in the same column.
pub open spec fn scanned_before(a: (i32, i32), b: (i32, i32)) -> bool {
    a.0 < b.0 || (a.0 == b.0 && a.1 < b.1)
}

/// Whether the coordinates stand in scan order, each once.
pub open spec fn in_scan_order(cells: Seq<(i32, i32)>) -> bool {
    forall|i: int, j: int| 0 <= i < j < cells.len() ==> scanned_before(cells[i], cells[j])
}

/// A generator of initial patterns.
pub struct Generator {
    seed: u32,
    half_extent: i32,
    circular: bool,
    layers: Vec<NoiseLayer>,
}

/// `rand::thread_rng().gen()`: a number drawn from the thread's random
/// generator. Nothing is known of it.
#[verifier::external_body]
fn random_seed() -> u32 {
    rand::thread_rng().gen()
}

/// Tests the acceptance interval of a layer.
pub fn layer_accepts(layer: &NoiseLayer, sample: i32) -> (b: bool)
    ensures
        b == (layer.lo <= sample < layer.hi),
{
    layer.lo <= sample && sample < layer.hi
}

/// Tests whether `(x, y)` is no farther from the centre than `half`.
pub fn within_circle(half: i32, x: i32, y: i32) -> (b: bool)
    ensures
        b == inside_circle(half as int, x as int, y as int),
{
    let h: i128 = half as i128;
    let x: i128 = x as i128;
    let y: i128 = y as i128;
    assert(0 <= x * x <= 0x4000_0000_0000_0000) by (nonlinear_arith)
        requires
            -0x8000_0000 <= x <= 0x8000_0000,
    ;
    assert(0 <= y * y <= 0x4000_0000_0000_0000) by (nonlinear_arith)
        requires
            -0x8000_0000 <= y <= 0x8000_0000,
    ;
    assert(0 <= h * h <= 0x4000_0000_0000_0000) by (nonlinear_arith)
        requires
            -0x8000_0000 <= h <= 0x8000_0000,
    ;
    x * x + y * y <= h * h
}

impl Generator {
    /// The seed of the noise fields.
    pub closed spec fn seed_spec(&self) -> u32 {
        self.seed
    }

    /// Half the side of the square region.
    pub closed spec fn half(&self) -> int {
        self.half_extent as int
    }

    /// Whether coordinates outside the circle are excluded.
    pub closed spec fn is_circular(&self) -> bool {
        self.circular
    }

    /// The noise layers.
    pub closed spec fn layers_spec(&self) -> Seq<NoiseLayer> {
        self.layers@
    }

    /// Whether `(x, y)` is accepted: it lies in the region, inside the
    /// circle where that is asked for, and every layer accepts its sample.
    pub open spec fn accepts(&self, fields: Seq<Vec<i32>>, x: int, y: int) -> bool {
        &&& in_region(self.half(), x, y)
        &&& self.is_circular() ==> inside_circle(self.half(), x, y)
        &&& layers_pass(
            self.layers_spec(),
            fields,
            self.layers_spec().len() as int,
            scan_index(self.half(), x, y),
        )
    }

    /// The coordinates accepted for the given fields.
    pub open spec fn accepted(&self, fields: Seq<Vec<i32>>) -> Set<(int, int)> {
        Set::new(|c: (int, int)| self.accepts(fields, c.0, c.1))
    }

    /// A generator with the given seed. A negative half-extent counts as 0.
    pub fn with_seed(seed: u32, half_extent: i32, circular: bool, layers: Vec<NoiseLayer>) -> (g:
        Generator)
        ensures
            g.seed_spec() == seed,
            g.half() == if half_extent < 0 {
                0
            } else {
                half_extent as int
            },
            g.is_circular() == circular,
            g.layers_spec() == layers@,
    {
        let half_extent = if half_extent < 0 {
            0
        } else {
            half_extent
        };
        Generator { seed, half_extent, circular, layers }
    }

    /// A generator with a seed drawn at random.
    pub fn random(half_extent: i32, circular: bool, layers: Vec<NoiseLayer>) -> (g: Generator)
        ensures
            g.half() == if half_extent < 0 {
                0
            } else {
                half_extent as int
            },
            g.is_circular() == circular,
            g.layers_spec() == layers@,
    {
        Generator::with_seed(random_seed(), half_extent, circular, layers)
    }

    /// Draws a new seed at random and returns it; the rest stays.
    pub fn reseed(&mut self) -> (seed: u32)
        ensures
            final(self).seed_spec() == seed,
            final(self).half() == old(self).half(),
            final(self).is_circular() == old(self).is_circular(),
            final(self).layers_spec() == old(self).layers_spec(),
    {
        proof {
            use_type_invariant(&*self);
        }
        let seed = random_seed();
        self.seed = seed;
        seed
    }

    /// The seed of the noise fields.
    pub fn seed(&self) -> (seed: u32)
        ensures
            seed == self.seed_spec(),
    {
        self.seed
    }

    /// Half the side of the square region.
    pub fn half_extent(&self) -> (half: i32)
        ensures
            half == self.half(),
            half >= 0,
    {
        proof {
            use_type_invariant(self);
        }
        self.half_extent
    }

    /// Whether coordinates outside the circle are excluded.
    pub fn circular(&self) -> (b: bool)
        ensures
            b == self.is_circular(),
    {
        self.circular
    }

    /// The noise layers.
    pub fn layers(&self) -> (layers: &Vec<NoiseLayer>)
        ensures
            layers@ == self.layers_spec(),
    {
        &self.layers
    }

    #[verifier::type_invariant]
    spec fn inv(self) -> bool {
        self.half_extent >= 0
    }

    /// Whether every layer accepts its sample at `index`.
    fn all_layers_accept(&self, fields: &Vec<Vec<i32>>, index: u128) -> (b: bool)
        ensures
            b == layers_pass(
                self.layers_spec(),
                fields@,
                self.layers_spec().len() as int,
                index as int,
            ),
    {
        let mut k: usize = 0;
        while k < self.layers.len()
            invariant
                0 <= k <= self.layers.len(),
                layers_pass(self.layers@, fields@, k as int, index as int),
            decreases self.layers.len() - k,
        {
            let ghost layer = self.layers@[k as int];
            if k >= fields.len() {
                return false;
            }
            let field = &fields[k];
            if index >= field.len() as u128 {
                assert(!layer_passes(layer, fields@[k as int]@, index as int));
                return false;
            }
            if !layer_accepts(&self.layers[k], field[index as usize]) {
                assert(!layer_passes(layer, fields@[k as int]@, index as int));
                return false;
            }
            k += 1;
        }
        true
    }

    /// The accepted coordinates, in scan order.
    pub fn select(&self, fields: &Vec<Vec<i32>>) -> (cells: Vec<(i32, i32)>)
        ensures
            in_scan_order(cells@),
            forall|c: (int, int)|
                #[trigger] self.accepted(fields@).contains(c) <==> crate::coords::listed(
                    cells@,
                    cells@.len() as int,
                    c,
                ),
    {
        proof {
            use_type_invariant(self);
        }
        let h = self.half_extent;
        let mut cells: Vec<(i32, i32)> = Vec::new();
        let mut index: u128 = 0;
        let mut x: i32 = -h;
        assert(scan_index(h as int, -h as int, -h as int) == 0) by (nonlinear_arith);
        while x < h
            invariant
                h == self.half_extent,
                0 <= h,
                -h <= x <= h,
                index == scan_index(h as int, x as int, -h as int),
                in_scan_order(cells@),
                forall|i: int| 0 <= i < cells@.len() ==> (#[trigger] cells@[i]).0 < x,
                forall|c: (int, int)|
                    #[trigger] crate::coords::listed(cells@, cells@.len() as int, c) <==> c.0 < x
                        && self.accepts(fields@, c.0, c.1),
            decreases h - x,
        {
            let mut y: i32 = -h;
            while y < h
                invariant
                    h == self.half_extent,
                    0 <= h,
                    -h <= x < h,
                    -h <= y <= h,
                    index == scan_index(h as int, x as int, y as int),
                    in_scan_order(cells@),
                    forall|i: int|
                        0 <= i < cells@.len() ==> scanned_before(#[trigger] cells@[i], (x, y)),
                    forall|c: (int, int)|
                        #[trigger] crate::coords::listed(cells@, cells@.len() as int, c) <==> (c.0
                            < x || (c.0 == x && c.1 < y)) && self.accepts(fields@, c.0, c.1),
                decreases h - y,
            {
                let ghost before = cells@;
                let inside = !self.circular || within_circle(h, x, y);
                let take = inside && self.all_layers_accept(fields, index);
                if take {
                    cells.push((x, y));
                }
                proof {
                    lemma_scan_bound(h as int, x as int, y as int);
                    assert(take == self.accepts(fields@, x as int, y as int));
                    assert forall|c: (int, int)|
                        #[trigger] crate::coords::listed(cells@, cells@.len() as int, c) <==> (c.0
                            < x || (c.0 == x && c.1 < y + 1)) && self.accepts(
                            fields@,
                            c.0,
                            c.1,
                        ) by {
                        lemma_listed_push(before, cells@, take, (x, y), c);
                    }
                }
                index += 1;
                y += 1;
            }
            proof {
                lemma_scan_column(h as int, x as int);
            }
            x += 1;
        }
        cells
    }
}

/// The scan index of a coordinate of the region lies below the number of
/// coordinates of the region, which fits in 65 bits.
proof fn lemma_scan_bound(half: int, x: int, y: int)
    requires
        0 <= half <= i32::MAX,
        in_region(half, x, y),
    ensures
        0 <= scan_index(half, x, y) < 0x1_0000_0000_0000_0000,
{
    assert(0 <= (x + half) * (2 * half) <= (2 * half - 1) * (2 * half)) by (nonlinear_arith)
        requires
            0 <= x + half <= 2 * half - 1,
            0 <= half,
    ;
    assert((2 * half - 1) * (2 * half) + 2 * half <= 0x1_0000_0000_0000_0000) by (nonlinear_arith)
        requires
            0 <= half <= 0x7fff_ffff,
    ;
}

/// The last coordinate of a column is followed by the first of the next.
proof fn lemma_scan_column(half: int, x: int)
    ensures
        scan_index(half, x, half) == scan_index(half, x + 1, -half),
{
    assert((x + 1 + half) * (2 * half) == (x + half) * (2 * half) + 2 * half)
        by (nonlinear_arith);
}

/// What is listed after a push that may or may not have happened.
proof fn lemma_listed_push(
    before: Seq<(i32, i32)>,
    after: Seq<(i32, i32)>,
    pushed: bool,
    cell: (i32, i32),
    c: (int, int),
)
    requires
        after == if pushed {
            before.push(cell)
        } else {
            before
        },
    ensures
        crate::coords::listed(after, after.len() as int, c) <==> crate::coords::listed(
            before,
            before.len() as int,
            c,
        ) || (pushed && crate::coords::point(cell) == c),
{
    if pushed {
        crate::coords::lemma_listed_step(after, before.len() as int, c);
        if crate::coords::listed(before, before.len() as int, c) {
            let j = choose|j: int|
                0 <= j < before.len() && crate::coords::point(#[trigger] before[j]) == c;
            assert(after[j] == before[j]);
        }
        if crate::coords::listed(after, before.len() as int, c) {
            let j = choose|j: int|
                0 <= j < before.len() && crate::coords::point(#[trigger] after[j]) == c;
            assert(after[j] == before[j]);
        }
    }
}

/// Stages the coordinates that the generator accepts for the given fields.
pub fn generate_random_cells(cell_map: &mut CellMap, generator: &Generator, fields: &Vec<Vec<i32>>)
    ensures
        final(cell_map).alive() == old(cell_map).alive(),
        final(cell_map).pending() == old(cell_map).pending().union(generator.accepted(fields@)),
{
    let cells = generator.select(fields);
    cell_map.stage_all(&cells);
    assert(cell_map.pending() =~= old(cell_map).pending().union(generator.accepted(fields@)));
}

/// Stages the initial pattern of a lattice.
pub fn spawn_initial_cells(cell_map: &mut CellMap, generator: &Generator, fields: &Vec<Vec<i32>>)
    ensures
        final(cell_map).alive() == old(cell_map).alive(),
        final(cell_map).pending() == old(cell_map).pending().union(generator.accepted(fields@)),
{
    generate_random_cells(cell_map, generator, fields);
}

/// Empties the lattice and stages a fresh pattern: the coordinates that the
/// generator accepts for the given fields.
pub fn reset_cells(cell_map: &mut CellMap, generator: &Generator, fields: &Vec<Vec<i32>>)
    ensures
        final(cell_map).wf(),
        final(cell_map).alive() == Set::<(int, int)>::empty(),
        final(cell_map).pending() == generator.accepted(fields@),
{
    cell_map.clear();
    spawn_initial_cells(cell_map, generator, fields);
    assert(cell_map.pending() =~= generator.accepted(fields@));
}

} // verus!
