//! Waypoint path construction.
//!
//! Scattered declarative markers, each carrying a group name and an
//! ordinal, are grouped by name; a platform's path is its spawn
//! position followed by its group's markers sorted ascending by
//! ordinal (ties broken by position, so the result is a pure function
//! of the marker set). A platform whose group has no markers degrades
//! to a single-point path at its spawn position — a recoverable
//! configuration gap, never an error.

use crate::fixvec::Vec3;
use vstd::prelude::*;
use vstd::relations::{sorted_by, total_ordering};
use vstd::seq_lib::group_to_multiset_ensures;
use vstd::seq_lib::lemma_sorted_unique;

verus! {

broadcast use group_to_multiset_ensures;

/// The group name a platform or marker is authored with.
#[derive(Clone, PartialEq, Eq, Debug)]
pub struct PlatformGroup(pub String);

/// The ordinal a waypoint marker is authored with.
#[derive(Clone, Copy, PartialEq, Eq, Structural, Debug)]
pub struct PlatformWaypoint {
    pub index: usize,
}

/// One marker as the scene hands it over: group name, ordinal, and the
/// world position read from its transform.
#[derive(Clone, Debug)]
pub struct WaypointEntry {
    pub group: PlatformGroup,
    pub waypoint: PlatformWaypoint,
    pub pos: Vec3,
}

/// A marker stripped to what ordering needs: ordinal and position.
#[derive(Clone, Copy, PartialEq, Eq, Structural, Debug)]
pub struct PathStop {
    pub index: usize,
    pub pos: Vec3,
}

/// The closed-loop path of one platform: never empty, spawn first.
#[derive(Clone, Debug)]
pub struct PlatformPath {
    pub locations: Vec<Vec3>,
}

impl PlatformPath {
    /// Every path holds at least its platform's spawn position.
    pub open spec fn wf(self) -> bool {
        self.locations@.len() >= 1
    }
}

/// Ordering of stops: ascending ordinal, ties broken by position
/// coordinates so that the order is total.
pub open spec fn stop_leq(a: PathStop, b: PathStop) -> bool {
    if a.index != b.index {
        a.index < b.index
    } else if a.pos@.x != b.pos@.x {
        a.pos@.x < b.pos@.x
    } else if a.pos@.y != b.pos@.y {
        a.pos@.y < b.pos@.y
    } else {
        a.pos@.z <= b.pos@.z
    }
}

/// The ordering as a first-class relation.
pub open spec fn stop_le_fn() -> spec_fn(PathStop, PathStop) -> bool {
    |a: PathStop, b: PathStop| stop_leq(a, b)
}

/// Stop ordering is a total ordering, so a sorted arrangement of any
/// bag of stops is unique.
pub proof fn lemma_stop_le_total()
    ensures
        total_ordering(stop_le_fn()),
{
    let r = stop_le_fn();
    assert forall|a: PathStop, b: PathStop| #[trigger] r(a, b) && #[trigger] r(b, a) implies a
        == b by {
        assert(a.pos.x == b.pos.x && a.pos.y == b.pos.y && a.pos.z == b.pos.z && a.index
            == b.index);
    }
    assert forall|a: PathStop, b: PathStop| #[trigger] r(a, b) || #[trigger] r(b, a) by {
        if !stop_leq(a, b) {
            assert(stop_leq(b, a));
        }
    }
}

/// Whether a marker belongs to the group named `g`.
pub open spec fn group_matches(e: WaypointEntry, g: Seq<char>) -> bool {
    e.group.0@ == g
}

/// The stop a marker contributes.
pub open spec fn stop_of(e: WaypointEntry) -> PathStop {
    PathStop { index: e.waypoint.index, pos: e.pos }
}

/// The stops of the markers that belong to group `g`, in marker order.
pub open spec fn bucket_spec(markers: Seq<WaypointEntry>, g: Seq<char>) -> Seq<PathStop>
    decreases markers.len(),
{
    if markers.len() == 0 {
        Seq::empty()
    } else {
        let rest = bucket_spec(markers.drop_last(), g);
        if group_matches(markers.last(), g) {
            rest.push(stop_of(markers.last()))
        } else {
            rest
        }
    }
}

/// The locations of a platform's path: its spawn position, then its
/// group's stops sorted by the stop ordering, positions only.
pub open spec fn path_locations_spec(spawn: Vec3, markers: Seq<WaypointEntry>, g: Seq<char>) -> Seq<
    Vec3,
> {
    seq![spawn] + bucket_spec(markers, g).sort_by(stop_le_fn()).map_values(|s: PathStop| s.pos)
}

/// Removing one marker takes exactly its contribution, if any, out of
/// the bucket's bag of stops.
proof fn lemma_bucket_remove(m: Seq<WaypointEntry>, j: int, g: Seq<char>)
    requires
        0 <= j < m.len(),
    ensures
        group_matches(m[j], g) ==> bucket_spec(m, g).to_multiset() == bucket_spec(
            m.remove(j),
            g,
        ).to_multiset().insert(stop_of(m[j])),
        !group_matches(m[j], g) ==> bucket_spec(m, g).to_multiset() == bucket_spec(
            m.remove(j),
            g,
        ).to_multiset(),
    decreases m.len(),
{
    if j == m.len() - 1 {
        assert(m.remove(j) =~= m.drop_last());
    } else {
        let d = m.drop_last();
        lemma_bucket_remove(d, j, g);
        assert(m.remove(j).drop_last() =~= d.remove(j));
        assert(m.remove(j).last() == m.last());
        if group_matches(m.last(), g) {
            assert(bucket_spec(m, g) == bucket_spec(d, g).push(stop_of(m.last())));
            assert(bucket_spec(m.remove(j), g) == bucket_spec(d.remove(j), g).push(
                stop_of(m.last()),
            ));
            if group_matches(m[j], g) {
                assert(bucket_spec(d, g).to_multiset().insert(stop_of(m.last())) =~= bucket_spec(
                    d.remove(j),
                    g,
                ).to_multiset().insert(stop_of(m[j])).insert(stop_of(m.last())));
                assert(bucket_spec(d.remove(j), g).to_multiset().insert(stop_of(m[j])).insert(
                    stop_of(m.last()),
                ) =~= bucket_spec(d.remove(j), g).to_multiset().insert(stop_of(m.last())).insert(
                    stop_of(m[j]),
                ));
            }
        } else {
            assert(bucket_spec(m, g) == bucket_spec(d, g));
            assert(bucket_spec(m.remove(j), g) == bucket_spec(d.remove(j), g));
        }
    }
}

/// The bucket's bag of stops is a function of the marker bag alone:
/// the order markers arrive in does not matter.
proof fn lemma_bucket_permutation(m1: Seq<WaypointEntry>, m2: Seq<WaypointEntry>, g: Seq<char>)
    requires
        m1.to_multiset() == m2.to_multiset(),
    ensures
        bucket_spec(m1, g).to_multiset() == bucket_spec(m2, g).to_multiset(),
    decreases m1.len(),
{
    if m1.len() == 0 {
        assert(m2.to_multiset().len() == 0);
        assert(m2.len() == 0);
    } else {
        let x = m1.last();
        assert(m1[m1.len() - 1] == x);
        assert(m1.contains(x));
        assert(m1.to_multiset().count(x) > 0);
        assert(m2.to_multiset().count(x) > 0);
        assert(m2.contains(x));
        let j = choose|j: int| 0 <= j < m2.len() && m2[j] == x;
        assert(m1.drop_last() =~= m1.remove(m1.len() - 1));
        assert(m1.drop_last().to_multiset() == m1.to_multiset().remove(x));
        assert(m2.remove(j).to_multiset() == m2.to_multiset().remove(x));
        lemma_bucket_permutation(m1.drop_last(), m2.remove(j), g);
        lemma_bucket_remove(m2, j, g);
        if group_matches(x, g) {
            assert(bucket_spec(m1, g) == bucket_spec(m1.drop_last(), g).push(stop_of(x)));
        } else {
            assert(bucket_spec(m1, g) == bucket_spec(m1.drop_last(), g));
        }
    }
}

/// Path construction is a pure function of the marker set: two marker
/// sequences holding the same markers, in any order, give identical
/// location sequences for every platform.
pub proof fn lemma_path_construction_pure(
    spawn: Vec3,
    m1: Seq<WaypointEntry>,
    m2: Seq<WaypointEntry>,
    g: Seq<char>,
)
    requires
        m1.to_multiset() == m2.to_multiset(),
    ensures
        path_locations_spec(spawn, m1, g) == path_locations_spec(spawn, m2, g),
{
    lemma_bucket_permutation(m1, m2, g);
    lemma_stop_le_total();
    let b1 = bucket_spec(m1, g);
    let b2 = bucket_spec(m2, g);
    b1.lemma_sort_by_ensures(stop_le_fn());
    b2.lemma_sort_by_ensures(stop_le_fn());
    lemma_sorted_unique(b1.sort_by(stop_le_fn()), b2.sort_by(stop_le_fn()), stop_le_fn());
    assert(b1.sort_by(stop_le_fn()) == b2.sort_by(stop_le_fn()));
}

/// Exec form of the stop ordering.
fn stop_le(a: &PathStop, b: &PathStop) -> (r: bool)
    ensures
        r == stop_leq(*a, *b),
{
    if a.index != b.index {
        a.index < b.index
    } else if a.pos.x != b.pos.x {
        a.pos.x < b.pos.x
    } else if a.pos.y != b.pos.y {
        a.pos.y < b.pos.y
    } else {
        a.pos.z <= b.pos.z
    }
}

/// Inserting where everything before stays at-or-below and everything
/// after stays at-or-above keeps a sequence sorted.
proof fn lemma_sorted_insert(s: Seq<PathStop>, j: int, x: PathStop)
    requires
        sorted_by(s, stop_le_fn()),
        0 <= j <= s.len(),
        forall|k: int| 0 <= k < j ==> stop_leq(#[trigger] s[k], x),
        j < s.len() ==> stop_leq(x, s[j]),
    ensures
        sorted_by(s.insert(j, x), stop_le_fn()),
{
    lemma_stop_le_total();
    let t = s.insert(j, x);
    assert forall|p: int, q: int| 0 <= p < q < t.len() implies #[trigger] stop_le_fn()(
        t[p],
        t[q],
    ) by {
        if p < j && q < j {
            assert(t[p] == s[p] && t[q] == s[q]);
        } else if p < j && q == j {
            assert(t[p] == s[p] && t[q] == x);
        } else if p < j && q > j {
            assert(t[p] == s[p] && t[q] == s[q - 1]);
            if q - 1 == j {
                if j < s.len() {
                    assert(stop_le_fn()(s[p], s[j]));
                }
            } else {
                assert(stop_le_fn()(s[p], s[q - 1]));
            }
        } else if p == j {
            assert(t[p] == x && t[q] == s[q - 1]);
            assert(stop_leq(x, s[j]));
            if q - 1 > j {
                assert(stop_le_fn()(s[j], s[q - 1]));
            }
        } else {
            assert(t[p] == s[p - 1] && t[q] == s[q - 1]);
            assert(stop_le_fn()(s[p - 1], s[q - 1]));
        }
    }
}

/// Insertion sort: the unique arrangement of the input's stops that
/// the stop ordering allows.
fn sort_stops(input: &Vec<PathStop>) -> (r: Vec<PathStop>)
    ensures
        r@ == input@.sort_by(stop_le_fn()),
{
    let mut out: Vec<PathStop> = Vec::new();
    let mut i: usize = 0;
    while i < input.len()
        invariant
            i <= input@.len(),
            sorted_by(out@, stop_le_fn()),
            out@.to_multiset() == input@.subrange(0, i as int).to_multiset(),
        decreases input@.len() - i,
    {
        let x = input[i];
        let mut j: usize = 0;
        while j < out.len() && stop_le(&out[j], &x)
            invariant
                j <= out@.len(),
                forall|k: int| 0 <= k < j ==> stop_leq(#[trigger] out@[k], x),
            decreases out@.len() - j,
        {
            j += 1;
        }
        proof {
            lemma_stop_le_total();
            if j < out@.len() {
                assert(!stop_leq(out@[j as int], x));
                assert(stop_le_fn()(out@[j as int], x) || stop_le_fn()(x, out@[j as int]));
            }
            assert(input@.subrange(0, i as int).push(input@[i as int]) =~= input@.subrange(
                0,
                i as int + 1,
            ));
            lemma_sorted_insert(out@, j as int, x);
        }
        let ghost out0 = out@;
        out.insert(j, x);
        proof {
            assert(out@ == out0.insert(j as int, x));
            assert(out@.to_multiset() == out0.to_multiset().insert(x));
            assert(input@.subrange(0, i as int).push(input@[i as int]).to_multiset()
                == input@.subrange(0, i as int).to_multiset().insert(input@[i as int]));
        }
        i += 1;
    }
    proof {
        assert(input@.subrange(0, input@.len() as int) =~= input@);
        lemma_stop_le_total();
        input@.lemma_sort_by_ensures(stop_le_fn());
        lemma_sorted_unique(out@, input@.sort_by(stop_le_fn()), stop_le_fn());
    }
    out
}

/// Build one platform's path: its spawn position first, then its
/// group's markers sorted ascending by ordinal. With no matching
/// markers the path degenerates to a single-point loop at the spawn.
pub fn build_platform_path(group: &PlatformGroup, spawn: Vec3, markers: &Vec<WaypointEntry>) -> (r:
    PlatformPath)
    ensures
        r.locations@ == path_locations_spec(spawn, markers@, group.0@),
        r.wf(),
        r.locations@[0] == spawn,
{
    let mut bucket: Vec<PathStop> = Vec::new();
    let mut i: usize = 0;
    while i < markers.len()
        invariant
            i <= markers@.len(),
            bucket@ == bucket_spec(markers@.subrange(0, i as int), group.0@),
        decreases markers@.len() - i,
    {
        let e = &markers[i];
        proof {
            assert(markers@.subrange(0, i as int + 1).drop_last() =~= markers@.subrange(
                0,
                i as int,
            ));
            assert(markers@.subrange(0, i as int + 1).last() == markers@[i as int]);
        }
        if e.group.0 == group.0 {
            bucket.push(PathStop { index: e.waypoint.index, pos: e.pos });
        }
        i += 1;
    }
    proof {
        assert(markers@.subrange(0, markers@.len() as int) =~= markers@);
    }
    let sorted = sort_stops(&bucket);
    let mut locations: Vec<Vec3> = Vec::new();
    locations.push(spawn);
    let mut j: usize = 0;
    while j < sorted.len()
        invariant
            j <= sorted@.len(),
            locations@ == seq![spawn] + sorted@.subrange(0, j as int).map_values(
                |s: PathStop| s.pos,
            ),
        decreases sorted@.len() - j,
    {
        proof {
            assert(sorted@.subrange(0, j as int + 1) =~= sorted@.subrange(0, j as int).push(
                sorted@[j as int],
            ));
            assert(sorted@.subrange(0, j as int + 1).map_values(|s: PathStop| s.pos)
                =~= sorted@.subrange(0, j as int).map_values(|s: PathStop| s.pos).push(
                sorted@[j as int].pos,
            ));
        }
        let stop = sorted[j];
        locations.push(stop.pos);
        j += 1;
    }
    proof {
        assert(sorted@.subrange(0, sorted@.len() as int) =~= sorted@);
    }
    PlatformPath { locations }
}

} // verus!
