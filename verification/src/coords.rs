//! Sets of lattice coordinates.
//!
//! A coordinate is a pair of `i32`. A [`CoordSet`] stores each coordinate as
//! one `u64` key, so that the set can live in a `HashSet` of integers; its
//! view is the mathematical set of `(int, int)` pairs it holds.

use std::collections::HashSet;
use vstd::prelude::*;
use vstd::std_specs::iter::IteratorSpec;

verus! {

broadcast use vstd::std_specs::hash::group_hash_axioms;

/// Whether both components of `c` fit in an `i32`.
pub open spec fn on_lattice(c: (int, int)) -> bool {
    &&& i32::MIN <= c.0 <= i32::MAX
    &&& i32::MIN <= c.1 <= i32::MAX
}

/// Whether all eight neighbours of `c` are on the lattice too.
pub open spec fn interior(c: (int, int)) -> bool {
    &&& i32::MIN < c.0 < i32::MAX
    &&& i32::MIN < c.1 < i32::MAX
}

/// The mathematical coordinate of an executable one.
pub open spec fn point(c: (i32, i32)) -> (int, int) {
    (c.0 as int, c.1 as int)
}

/// The key under which a coordinate on the lattice is stored.
pub open spec fn key_of(c: (int, int)) -> int {
    (c.0 + 0x8000_0000) * 0x1_0000_0000 + (c.1 + 0x8000_0000)
}

/// The coordinate stored under a key.
pub open spec fn coord_of(k: int) -> (int, int) {
    (k / 0x1_0000_0000 - 0x8000_0000, k % 0x1_0000_0000 - 0x8000_0000)
}

/// Keys and coordinates on the lattice correspond one to one.
pub proof fn lemma_key_roundtrip(c: (int, int))
    requires
        on_lattice(c),
    ensures
        0 <= key_of(c) <= u64::MAX,
        coord_of(key_of(c)) == c,
{
}

/// Every `u64` is the key of exactly one coordinate on the lattice.
pub proof fn lemma_coord_roundtrip(k: int)
    requires
        0 <= k <= u64::MAX,
    ensures
        on_lattice(coord_of(k)),
        key_of(coord_of(k)) == k,
{
}

/// Whether `c` is one of the first `upto` coordinates of `cells`.
pub open spec fn listed(cells: Seq<(i32, i32)>, upto: int, c: (int, int)) -> bool {
    exists|j: int| 0 <= j < upto && point(#[trigger] cells[j]) == c
}

/// A coordinate is listed up to `upto + 1` if it is listed up to `upto` or
/// stands at `upto`.
pub proof fn lemma_listed_step(cells: Seq<(i32, i32)>, upto: int, c: (int, int))
    requires
        0 <= upto < cells.len(),
    ensures
        listed(cells, upto + 1, c) <==> listed(cells, upto, c) || point(cells[upto]) == c,
{
    if listed(cells, upto + 1, c) {
        let j = choose|j: int| 0 <= j < upto + 1 && point(#[trigger] cells[j]) == c;
        if j < upto {
            assert(listed(cells, upto, c));
        }
    }
    if listed(cells, upto, c) {
        let j = choose|j: int| 0 <= j < upto && point(#[trigger] cells[j]) == c;
        assert(0 <= j < upto + 1);
    }
}

fn encode(x: i32, y: i32) -> (k: u64)
    ensures
        k == key_of((x as int, y as int)),
{
    let hi: u64 = (x as i64 + 0x8000_0000) as u64;
    let lo: u64 = (y as i64 + 0x8000_0000) as u64;
    hi * 0x1_0000_0000 + lo
}

fn decode(k: u64) -> (c: (i32, i32))
    ensures
        point(c) == coord_of(k as int),
{
    let x: i64 = (k / 0x1_0000_0000) as i64 - 0x8000_0000;
    let y: i64 = (k % 0x1_0000_0000) as i64 - 0x8000_0000;
    (x as i32, y as i32)
}

/// A finite set of lattice coordinates.
pub struct CoordSet {
    keys: HashSet<u64>,
}

impl View for CoordSet {
    type V = Set<(int, int)>;

    closed spec fn view(&self) -> Set<(int, int)> {
        Set::new(|c: (int, int)| on_lattice(c) && self.keys@.contains(key_of(c) as u64))
    }
}

impl CoordSet {
    /// The keys of a set are the images of its coordinates, one for one.
    proof fn lemma_keys(&self)
        ensures
            self@.finite(),
            self@.len() == self.keys@.len(),
            self@ == self.keys@.map(|k: u64| coord_of(k as int)),
    {
        let f = |k: u64| coord_of(k as int);
        let image = self.keys@.map(f);
        assert(self.keys@.finite()) by {
            let ks = self.keys.iter().remaining().unref();
            assert(ks.to_set() == self.keys@);
            vstd::seq_lib::seq_to_set_is_finite(ks);
        }
        assert forall|c: (int, int)| self@.contains(c) <==> image.contains(c) by {
            if self@.contains(c) {
                lemma_key_roundtrip(c);
                assert(self.keys@.contains(key_of(c) as u64));
                assert(f(key_of(c) as u64) == c);
            }
            if image.contains(c) {
                let k = choose|k: u64| self.keys@.contains(k) && f(k) == c;
                lemma_coord_roundtrip(k as int);
            }
        }
        assert(self@ =~= image);
        assert forall|a: u64, b: u64| #[trigger] f(a) == #[trigger] f(b) implies a == b by {
            lemma_coord_roundtrip(a as int);
            lemma_coord_roundtrip(b as int);
        }
        assert(vstd::relations::injective_on(f, self.keys@));
        self.keys@.lemma_map_finite(f);
        vstd::set_lib::lemma_map_size(self.keys@, image, f);
    }

    /// A coordinate set is finite and holds lattice coordinates only.
    pub proof fn lemma_view(&self)
        ensures
            self@.finite(),
            forall|c: (int, int)| #[trigger] self@.contains(c) ==> on_lattice(c),
    {
        self.lemma_keys();
    }

    /// The empty set.
    pub fn new() -> (s: CoordSet)
        ensures
            s@ == Set::<(int, int)>::empty(),
    {
        let s = CoordSet { keys: HashSet::new() };
        assert(s@ =~= Set::<(int, int)>::empty());
        s
    }

    /// Whether `(x, y)` is in the set.
    pub fn contains(&self, x: i32, y: i32) -> (b: bool)
        ensures
            b == self@.contains((x as int, y as int)),
    {
        let k = encode(x, y);
        self.keys.contains(&k)
    }

    /// Adds `(x, y)`; says whether it was new.
    pub fn insert(&mut self, x: i32, y: i32) -> (fresh: bool)
        ensures
            final(self)@ == old(self)@.insert((x as int, y as int)),
            fresh == !old(self)@.contains((x as int, y as int)),
    {
        let k = encode(x, y);
        let fresh = self.keys.insert(k);
        proof {
            let c = (x as int, y as int);
            assert forall|d: (int, int)| self@.contains(d) <==> old(self)@.insert(c).contains(
                d,
            ) by {
                if on_lattice(d) {
                    lemma_key_roundtrip(d);
                    lemma_key_roundtrip(c);
                }
            }
            assert(self@ =~= old(self)@.insert(c));
        }
        fresh
    }

    /// Removes `(x, y)`; says whether it was there.
    pub fn remove(&mut self, x: i32, y: i32) -> (present: bool)
        ensures
            final(self)@ == old(self)@.remove((x as int, y as int)),
            present == old(self)@.contains((x as int, y as int)),
    {
        let k = encode(x, y);
        let present = self.keys.remove(&k);
        proof {
            let c = (x as int, y as int);
            assert forall|d: (int, int)| self@.contains(d) <==> old(self)@.remove(c).contains(
                d,
            ) by {
                if on_lattice(d) {
                    lemma_key_roundtrip(d);
                    lemma_key_roundtrip(c);
                }
            }
            assert(self@ =~= old(self)@.remove(c));
        }
        present
    }

    /// Empties the set.
    pub fn clear(&mut self)
        ensures
            final(self)@ == Set::<(int, int)>::empty(),
    {
        self.keys.clear();
        assert(self@ =~= Set::<(int, int)>::empty());
    }

    /// The number of coordinates in the set.
    pub fn len(&self) -> (n: usize)
        ensures
            n == self@.len(),
    {
        proof {
            self.lemma_keys();
        }
        self.keys.len()
    }

    /// Whether the set holds nothing.
    pub fn is_empty(&self) -> (b: bool)
        ensures
            b == (self@ == Set::<(int, int)>::empty()),
    {
        proof {
            self.lemma_keys();
            if self.keys@.is_empty() {
                assert(self@ =~= Set::<(int, int)>::empty());
            } else {
                let k = choose|k: u64| self.keys@.contains(k);
                lemma_coord_roundtrip(k as int);
                assert(self@.contains(coord_of(k as int)));
            }
        }
        self.keys.is_empty()
    }

    /// The coordinates of the set, each once, in no particular order.
    pub fn to_vec(&self) -> (v: Vec<(i32, i32)>)
        ensures
            v@.no_duplicates(),
            v@.len() == self@.len(),
            forall|c: (int, int)| #[trigger] self@.contains(c) <==> listed(v@, v@.len() as int, c),
    {
        let mut v: Vec<(i32, i32)> = Vec::new();
        proof {
            self.lemma_keys();
        }
        for k in it: self.keys.iter()
            invariant
                v@.len() == it.index(),
                forall|i: int|
                    0 <= i < v@.len() ==> point(#[trigger] v@[i]) == coord_of(*it.seq()[i] as int),
        {
            let c = decode(*k);
            v.push(c);
        }
        proof {
            let ks = self.keys.iter().remaining().unref();
            assert(ks.to_set() == self.keys@);
            assert(ks.no_duplicates());
            assert forall|i: int, j: int| 0 <= i < v@.len() && 0 <= j < v@.len() && i != j implies v@[i]
                != v@[j] by {
                lemma_coord_roundtrip(ks[i] as int);
                lemma_coord_roundtrip(ks[j] as int);
            }
            assert forall|c: (int, int)| self@.contains(c) implies exists|i: int|
                0 <= i < v@.len() && point(#[trigger] v@[i]) == c by {
                lemma_key_roundtrip(c);
                let k = key_of(c) as u64;
                assert(ks.to_set().contains(k));
                let i = choose|i: int| 0 <= i < ks.len() && ks[i] == k;
                assert(point(v@[i]) == c);
            }
            assert forall|c: (int, int)|
                (exists|i: int| 0 <= i < v@.len() && point(#[trigger] v@[i]) == c) implies self@.contains(
                c,
            ) by {
                let i = choose|i: int| 0 <= i < v@.len() && point(#[trigger] v@[i]) == c;
                lemma_coord_roundtrip(ks[i] as int);
                assert(ks.to_set().contains(ks[i]));
            }
        }
        v
    }
}

} // verus!
