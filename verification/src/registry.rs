//! The vertex registry: every point once, in the order of first appearance.

use crate::vertex::{
    lemma_key_same_point, lemma_same_point_reflexive, lemma_same_point_symmetric,
    lemma_same_point_transitive, PointKey, Vertex,
};
use indexmap::IndexSet;
use std::collections::hash_map::RandomState;
use vstd::prelude::*;

verus! {

/// `indexmap::IndexSet`, of which nothing is seen but through the functions
/// below.
#[verifier::external_type_specification]
#[verifier::external_body]
#[verifier::reject_recursive_types(T)]
#[verifier::reject_recursive_types(S)]
pub struct ExIndexSet<T, S>(IndexSet<T, S>);

/// The keys that an `IndexSet` holds, in the order of their indices.
pub uninterp spec fn set_items(set: IndexSet<PointKey, RandomState>) -> Seq<PointKey>;

/// `IndexSet::new`: a set that holds nothing.
#[verifier::external_body]
fn set_new() -> (set: IndexSet<PointKey, RandomState>)
    ensures
        set_items(set) == Seq::<PointKey>::empty(),
{
    IndexSet::new()
}

/// `IndexSet::insert_full`: where the set holds a key equal to `key`, the
/// set stays as it is and the index of that key comes back with `false`;
/// where it holds none, `key` is added behind the others and its index, the
/// number of keys held before, comes back with `true`.
#[verifier::external_body]
fn set_insert_full(set: &mut IndexSet<PointKey, RandomState>, key: PointKey) -> (r: (usize, bool))
    ensures
        set_items(*old(set)).contains(key) ==> {
            &&& !r.1
            &&& r.0 < set_items(*old(set)).len()
            &&& set_items(*old(set))[r.0 as int] == key
            &&& set_items(*final(set)) == set_items(*old(set))
        },
        !set_items(*old(set)).contains(key) ==> {
            &&& r.1
            &&& r.0 == set_items(*old(set)).len()
            &&& set_items(*final(set)) == set_items(*old(set)).push(key)
        },
{
    set.insert_full(key)
}

/// The index of the first entry of `points` that is the same point as `v`.
pub open spec fn position(points: Seq<Vertex>, v: Vertex) -> Option<int>
    decreases points.len(),
{
    if points.len() == 0 {
        None
    } else {
        match position(points.drop_last(), v) {
            Some(i) => Some(i),
            None => if points.last().same_point(v) {
                Some(points.len() - 1)
            } else {
                None
            },
        }
    }
}

/// The entries after `v` was interned: unchanged where `v` is among them,
/// else with `v` behind them.
pub open spec fn interned(points: Seq<Vertex>, v: Vertex) -> Seq<Vertex> {
    if position(points, v) is Some {
        points
    } else {
        points.push(v)
    }
}

/// The index that interning `v` gives.
pub open spec fn slot(points: Seq<Vertex>, v: Vertex) -> int {
    match position(points, v) {
        Some(i) => i,
        None => points.len() as int,
    }
}

/// The entries after each of `points` was interned, from first to last.
pub open spec fn interned_all(vertices: Seq<Vertex>, points: Seq<Vertex>) -> Seq<Vertex>
    decreases points.len(),
{
    if points.len() == 0 {
        vertices
    } else {
        interned(interned_all(vertices, points.drop_last()), points.last())
    }
}

/// The index that the point at position `i` of `points` is given when the
/// points are interned from first to last.
pub open spec fn slot_of(vertices: Seq<Vertex>, points: Seq<Vertex>, i: int) -> int {
    slot(interned_all(vertices, points.take(i)), points[i])
}

/// Whether `longer` begins with the entries of `shorter`.
pub open spec fn extends(longer: Seq<Vertex>, shorter: Seq<Vertex>) -> bool {
    &&& shorter.len() <= longer.len()
    &&& forall|k: int| 0 <= k < shorter.len() ==> #[trigger] longer[k] == shorter[k]
}

/// Whether `vertices` holds an entry that is the same point as `v`.
pub open spec fn holds(vertices: Seq<Vertex>, v: Vertex) -> bool {
    exists|k: int| 0 <= k < vertices.len() && (#[trigger] vertices[k]).same_point(v)
}

/// Whether no two entries of `points` are the same point.
pub open spec fn distinct(points: Seq<Vertex>) -> bool {
    forall|i: int, j: int|
        0 <= i < j < points.len() ==> !(#[trigger] points[i]).same_point(#[trigger] points[j])
}

/// The keys of `points`, entry by entry.
pub open spec fn keys(points: Seq<Vertex>) -> Seq<PointKey> {
    Seq::new(points.len(), |i: int| points[i].key_spec())
}

/// What `position` finds: the first entry that is the same point, when
/// there is one.
pub proof fn lemma_position(points: Seq<Vertex>, v: Vertex)
    ensures
        match position(points, v) {
            Some(i) => {
                &&& 0 <= i < points.len()
                &&& points[i].same_point(v)
                &&& forall|j: int| 0 <= j < i ==> !(#[trigger] points[j]).same_point(v)
            },
            None => forall|j: int| 0 <= j < points.len() ==> !(#[trigger] points[j]).same_point(v),
        },
    decreases points.len(),
{
    if points.len() > 0 {
        let front = points.drop_last();
        lemma_position(front, v);
        assert forall|j: int| 0 <= j < front.len() implies front[j] == #[trigger] points[j] by {}
    }
}

/// Interning keeps the entries that were there and keeps them distinct; the
/// index it gives is that of an entry that is the same point; an entry that
/// was not there before is the vertex that was interned.
pub proof fn lemma_interned(vertices: Seq<Vertex>, v: Vertex)
    requires
        distinct(vertices),
    ensures
        extends(interned(vertices, v), vertices),
        distinct(interned(vertices, v)),
        0 <= slot(vertices, v) < interned(vertices, v).len(),
        interned(vertices, v)[slot(vertices, v)].same_point(v),
        forall|k: int|
            vertices.len() <= k < interned(vertices, v).len() ==> #[trigger] interned(
                vertices,
                v,
            )[k] == v,
{
    lemma_position(vertices, v);
}

/// Interning several points keeps the entries that were there and keeps
/// them distinct; each point is given the index of an entry that is the
/// same point; an entry that was not there before is one of the points.
pub proof fn lemma_interned_all(vertices: Seq<Vertex>, points: Seq<Vertex>)
    requires
        distinct(vertices),
    ensures
        extends(interned_all(vertices, points), vertices),
        distinct(interned_all(vertices, points)),
        forall|i: int|
            0 <= i < points.len() ==> {
                &&& 0 <= #[trigger] slot_of(vertices, points, i) < interned_all(
                    vertices,
                    points,
                ).len()
                &&& interned_all(vertices, points)[slot_of(vertices, points, i)].same_point(
                    points[i],
                )
            },
        forall|k: int|
            vertices.len() <= k < interned_all(vertices, points).len() ==> points.contains(
                #[trigger] interned_all(vertices, points)[k],
            ),
    decreases points.len(),
{
    if points.len() > 0 {
        let front = points.drop_last();
        let before = interned_all(vertices, front);
        let after = interned_all(vertices, points);
        lemma_interned_all(vertices, front);
        lemma_interned(before, points.last());
        assert forall|i: int| 0 <= i < points.len() implies {
            &&& 0 <= #[trigger] slot_of(vertices, points, i) < after.len()
            &&& after[slot_of(vertices, points, i)].same_point(points[i])
        } by {
            if i < front.len() {
                assert(points.take(i) =~= front.take(i));
                assert(slot_of(vertices, points, i) == slot_of(vertices, front, i));
                assert(after[slot_of(vertices, front, i)] == before[slot_of(vertices, front, i)]);
            } else {
                assert(points.take(i) =~= front);
            }
        }
        assert forall|k: int| vertices.len() <= k < after.len() implies points.contains(
            #[trigger] after[k],
        ) by {
            if k < before.len() {
                assert(after[k] == before[k]);
                assert(front.contains(before[k]));
                let i = choose|i: int| 0 <= i < front.len() && front[i] == before[k];
                assert(points[i] == after[k]);
            } else {
                assert(points[points.len() - 1] == after[k]);
            }
        }
    }
}

/// Points of which no two are the same, interned into an empty registry,
/// are its entries as they stand.
pub proof fn lemma_interned_all_distinct(points: Seq<Vertex>)
    requires
        distinct(points),
    ensures
        interned_all(Seq::empty(), points) == points,
    decreases points.len(),
{
    if points.len() > 0 {
        let front = points.drop_last();
        lemma_interned_all_distinct(front);
        lemma_position(front, points.last());
        assert(position(front, points.last()) is None) by {
            if position(front, points.last()) is Some {
                let i = position(front, points.last())->0;
                assert(points[i].same_point(points[points.len() - 1]));
            }
        }
        assert(front.push(points.last()) =~= points);
    } else {
        assert(points =~= Seq::empty());
    }
}

/// The vertex registry: an arena of the points in the order in which they
/// were first interned, and a hashed index from each point's key to its
/// place in the arena.
#[derive(Debug)]
pub struct VertexRegistry {
    index: IndexSet<PointKey, RandomState>,
    arena: Vec<Vertex>,
}

impl View for VertexRegistry {
    type V = Seq<Vertex>;

    closed spec fn view(&self) -> Seq<Vertex> {
        self.arena@
    }
}

impl VertexRegistry {
    /// The index agrees with the arena.
    pub closed spec fn wf(&self) -> bool {
        set_items(self.index) == keys(self.arena@)
    }

    /// A registry that holds the points of `self` and no two the same.
    pub open spec fn valid(&self) -> bool {
        self.wf() && distinct(self@)
    }

    /// The entries of a registry can be counted in `usize`.
    pub proof fn lemma_countable(&self)
        ensures
            self@.len() <= usize::MAX,
    {
        assert(self.arena@.len() == self.arena.len());
    }

    /// An empty registry.
    pub fn new() -> (r: VertexRegistry)
        ensures
            r.valid(),
            r@ == Seq::<Vertex>::empty(),
    {
        let r = VertexRegistry { index: set_new(), arena: Vec::new() };
        assert(set_items(r.index) =~= keys(r.arena@));
        r
    }

    /// The number of points held.
    pub fn len(&self) -> (n: usize)
        ensures
            n == self@.len(),
    {
        self.arena.len()
    }

    /// The point at index `i`.
    pub fn get(&self, i: usize) -> (v: Vertex)
        requires
            i < self@.len(),
        ensures
            v == self@[i as int],
    {
        self.arena[i]
    }

    /// Interns `v`: gives the index of the entry that is the same point,
    /// and where there is none, adds `v` as the last entry and gives its
    /// index.
    pub fn intern(&mut self, v: Vertex) -> (idx: usize)
        requires
            old(self).valid(),
        ensures
            final(self).valid(),
            final(self)@ == interned(old(self)@, v),
            idx == slot(old(self)@, v),
            idx < final(self)@.len(),
            final(self)@[idx as int].same_point(v),
    {
        let key = v.key();
        let ghost before = self.arena@;
        proof {
            lemma_position(before, v);
            assert forall|j: int| 0 <= j < before.len() implies (#[trigger] keys(before)[j] == key
                <==> before[j].same_point(v)) by {
                lemma_key_same_point(before[j], v);
            }
        }
        let (idx, fresh) = set_insert_full(&mut self.index, key);
        if fresh {
            self.arena.push(v);
            proof {
                assert(position(before, v) is None) by {
                    if position(before, v) is Some {
                        let i = position(before, v)->0;
                        assert(keys(before)[i] == key);
                    }
                }
                assert(keys(before).push(key) =~= keys(before.push(v)));
                assert forall|i: int, j: int| 0 <= i < j < self.arena@.len() implies !(
                #[trigger] self.arena@[i]).same_point(#[trigger] self.arena@[j]) by {
                    if j == before.len() {
                        lemma_same_point_symmetric(before[i], v);
                    }
                }
                lemma_same_point_reflexive(v);
            }
        } else {
            proof {
                let i = position(before, v)->0;
                assert(position(before, v) is Some) by {
                    let j = keys(before).index_of(key);
                    assert(before[j].same_point(v));
                }
                assert(i == idx) by {
                    if i < idx {
                        lemma_same_point_symmetric(before[idx as int], v);
                        lemma_same_point_transitive(before[i], v, before[idx as int]);
                    }
                }
            }
        }
        idx
    }

    /// Interns each of `points`, from first to last, and gives their
    /// indices in that order.
    pub fn intern_all(&mut self, points: &Vec<Vertex>) -> (indices: Vec<usize>)
        requires
            old(self).valid(),
        ensures
            final(self).valid(),
            final(self)@ == interned_all(old(self)@, points@),
            indices@.len() == points@.len(),
            forall|i: int|
                0 <= i < points@.len() ==> #[trigger] indices@[i] == slot_of(
                    old(self)@,
                    points@,
                    i,
                ),
    {
        let mut indices: Vec<usize> = Vec::new();
        let mut k: usize = 0;
        assert(points@.take(0) =~= Seq::empty());
        while k < points.len()
            invariant
                k <= points.len(),
                self.valid(),
                self@ == interned_all(old(self)@, points@.take(k as int)),
                indices@.len() == k,
                forall|i: int|
                    0 <= i < k ==> #[trigger] indices@[i] == slot_of(old(self)@, points@, i),
            decreases points.len() - k,
        {
            proof {
                assert(points@.take(k + 1).drop_last() =~= points@.take(k as int));
                assert(points@.take(k + 1).last() == points@[k as int]);
            }
            let index = self.intern(points[k]);
            indices.push(index);
            k = k + 1;
        }
        assert(points@.take(k as int) =~= points@);
        indices
    }

    /// The points in the order of their indices.
    pub fn to_ordered_sequence(&self) -> (points: Vec<Vertex>)
        ensures
            points@ == self@,
    {
        let mut points: Vec<Vertex> = Vec::new();
        let mut i: usize = 0;
        while i < self.arena.len()
            invariant
                i <= self.arena.len(),
                points@ == self.arena@.take(i as int),
            decreases self.arena.len() - i,
        {
            points.push(self.arena[i]);
            i = i + 1;
        }
        points
    }
}

} // verus!
