//! Shortest-route queries over the tile graph, memoized per origin tile with
//! a time-based staleness window, and reachability checks used to keep the
//! goal reachable.
use vstd::prelude::*;
use std::collections::HashMap;
use pathfinding::prelude::{astar, astar_bag_collect};
use crate::field::{Field, FieldLocation};

verus! {

broadcast use vstd::std_specs::hash::group_hash_axioms;

/// How long, in milliseconds, a memoized query stays trusted.
pub const STALE_WINDOW_MS: u64 = 1000;

/// `path` leads from `from` to the goal tile, taking only allowed steps
/// (never onto `avoid`) and visiting no tile twice.
pub open spec fn is_route(
    field: Field,
    from: FieldLocation,
    path: Seq<FieldLocation>,
    avoid: Option<FieldLocation>,
) -> bool {
    &&& path.len() >= 1
    &&& path[0] == from
    &&& path.last() == field.spec_target()
    &&& path.no_duplicates()
    &&& forall|i: int|
        0 <= i < path.len() - 1 ==> #[trigger] field.step_allowed(path[i], path[i + 1], avoid)
}

/// What entering tile `n` costs: 1 when every step costs 1, else the tile's cost.
pub open spec fn step_cost(field: Field, n: FieldLocation, flat: bool) -> int {
    if flat {
        1
    } else {
        field.cost_at(n)
    }
}

/// The cost of walking `path`: the cost of entering each tile after the first.
pub open spec fn route_cost(field: Field, path: Seq<FieldLocation>, flat: bool) -> int
    decreases path.len(),
{
    if path.len() <= 1 {
        0
    } else {
        route_cost(field, path.drop_last(), flat) + step_cost(field, path.last(), flat)
    }
}

/// Relies on `pathfinding::directed::astar::astar_bag_collect`: each path it
/// returns starts at `start`, ends at a tile where `success` holds (here the
/// goal), moves only to tiles that `successors` lists, and holds no tile
/// twice; there is at least one, and each costs the reported cost, the sum of
/// the costs `successors` gives its steps. With an estimate that never
/// overestimates, as here, these are all the shortest paths: no path is
/// cheaper and every path of that cost is among them. It returns `None`
/// exactly when no path exists.
#[verifier::external_body]
fn collect_shortest_paths(field: &Field, start: FieldLocation, flat: bool) -> (r: Option<
    (Vec<Vec<FieldLocation>>, i64),
>)
    requires
        field.wf(),
        field.in_bounds(start),
    ensures
        r is Some <==> exists|p: Seq<FieldLocation>| is_route(*field, start, p, None),
        r is Some ==> found_paths(r).len() >= 1,
        r is Some ==> forall|i: int|
            0 <= i < found_paths(r).len() ==> is_route(
                *field,
                start,
                #[trigger] found_paths(r)[i],
                None,
            ) && route_cost(*field, found_paths(r)[i], flat) == found_cost(r),
        r is Some ==> forall|p: Seq<FieldLocation>|
            #[trigger] is_route(*field, start, p, None) ==> route_cost(*field, p, flat) >= found_cost(
                r,
            ),
        r is Some ==> forall|p: Seq<FieldLocation>|
            #[trigger] is_route(*field, start, p, None) && route_cost(*field, p, flat) == found_cost(r)
                ==> exists|i: int| 0 <= i < found_paths(r).len() && found_paths(r)[i] == p,
{
    astar_bag_collect(
        &start,
        |n| field.search_successors(n, flat, None),
        |n| field.search_estimate(n),
        |n| field.is_in_goal(n),
    )
}

/// Relies on `pathfinding::directed::astar::astar`: it returns a path when a
/// tile where `success` holds (here the goal) can be reached from `start`
/// through `successors`, and `None` when none can.
#[verifier::external_body]
fn reaches_goal(field: &Field, start: FieldLocation, blocked: FieldLocation) -> (r: bool)
    requires
        field.wf(),
        field.in_bounds(start),
    ensures
        r == exists|p: Seq<FieldLocation>| is_route(*field, start, p, Some(blocked)),
{
    astar(
        &start,
        |n| field.search_successors(n, false, Some(blocked)),
        |n| field.search_estimate(n),
        |n| field.is_in_goal(n),
    ).is_some()
}

/// Whether enemies could still reach the goal from the spawner if `blocked`
/// were closed.
pub fn can_path_from_spawn_if(field: &Field, blocked: FieldLocation) -> (r: bool)
    requires
        field.wf(),
    ensures
        r == exists|p: Seq<FieldLocation>|
            is_route(*field, field.spec_source(), p, Some(blocked)),
{
    proof {
        field.lemma_endpoints();
    }
    let source = field.source();
    reaches_goal(field, FieldLocation(source.0, source.1), blocked)
}

/// A tower may stand on `location` when the tile is empty and the goal stays
/// reachable from the spawner without it.
pub fn is_valid_tower_location(field: &Field, location: FieldLocation) -> (r: bool)
    requires
        field.wf(),
        field.in_bounds(location),
    ensures
        r == (field.contents_at(location) is Empty && exists|p: Seq<FieldLocation>|
            is_route(*field, field.spec_source(), p, Some(location))),
{
    field.get_contents(&location).is_empty() && can_path_from_spawn_if(field, location)
}

/// A memoized query result.
pub struct CacheEntry {
    pub computed_at: u64,
    pub paths: Vec<Vec<FieldLocation>>,
    pub cost: i64,
}

/// The paths of a query result as sequences of tiles.
pub open spec fn paths_view(paths: Vec<Vec<FieldLocation>>) -> Seq<Seq<FieldLocation>> {
    paths@.map_values(|p: Vec<FieldLocation>| p@)
}

/// The routes of a query result, as sequences of tiles.
pub open spec fn found_paths(r: Option<(Vec<Vec<FieldLocation>>, i64)>) -> Seq<Seq<FieldLocation>> {
    match r {
        Some((paths, _)) => paths_view(paths),
        None => Seq::empty(),
    }
}

/// The cost of a query result.
pub open spec fn found_cost(r: Option<(Vec<Vec<FieldLocation>>, i64)>) -> int {
    match r {
        Some((_, cost)) => cost as int,
        None => 0,
    }
}

/// An entry computed at `stamp` is trusted at `now` while less than the
/// staleness window has passed.
pub open spec fn is_fresh(stamp: u64, now: u64) -> bool {
    now - stamp < STALE_WINDOW_MS
}

/// Memoized shortest-route queries, keyed by the origin tile's index.
pub struct PathCache {
    entries: HashMap<u64, CacheEntry>,
}

/// The cache for agents that pay each tile's cost.
pub struct BestPaths(pub PathCache);

/// The cache for agents that pay 1 for every tile.
pub struct BestSeekerPaths(pub PathCache);

impl PathCache {
    pub closed spec fn entries(self) -> Map<u64, CacheEntry> {
        self.entries@
    }

    pub fn new() -> (cache: Self)
        ensures
            cache.entries() == Map::<u64, CacheEntry>::empty(),
    {
        PathCache { entries: HashMap::new() }
    }
}

/// What one query of the tile `tile` at time `now` does: with a fresh entry
/// for the tile it returns that entry's paths and cost and leaves the cache
/// alone; otherwise it searches, returns what the search found, and, when a
/// route was found, stores it stamped with `now` (failed searches are not
/// stored). A search finds routes exactly when the goal can be reached; it
/// then returns the cheapest routes to the goal: at least one, each of the
/// reported cost, no route cheaper, and every route of that cost among them.
pub open spec fn query_outcome(
    before: Map<u64, CacheEntry>,
    field: Field,
    tile: FieldLocation,
    flat: bool,
    now: u64,
    r: Option<(Vec<Vec<FieldLocation>>, i64)>,
    after: Map<u64, CacheEntry>,
) -> bool {
    let key = field.index_of(tile) as u64;
    if before.contains_key(key) && is_fresh(before[key].computed_at, now) {
        &&& r is Some
        &&& found_paths(r) == paths_view(before[key].paths)
        &&& found_cost(r) == before[key].cost
        &&& after == before
    } else {
        &&& (r is Some <==> exists|p: Seq<FieldLocation>| is_route(field, tile, p, None))
        &&& match r {
            Some((paths, cost)) => {
                &&& paths@.len() >= 1
                &&& forall|i: int|
                    0 <= i < paths@.len() ==> is_route(field, tile, (#[trigger] paths@[i])@, None)
                        && route_cost(field, paths@[i]@, flat) == cost
                &&& forall|p: Seq<FieldLocation>|
                    #[trigger] is_route(field, tile, p, None) ==> route_cost(field, p, flat) >= cost
                &&& forall|p: Seq<FieldLocation>|
                    #[trigger] is_route(field, tile, p, None) && route_cost(field, p, flat) == cost
                        ==> exists|i: int| 0 <= i < paths@.len() && paths@[i]@ == p
                &&& after.contains_key(key)
                &&& after[key].computed_at == now
                &&& paths_view(after[key].paths) == paths_view(paths)
                &&& after[key].cost == cost
                &&& after.remove(key) == before.remove(key)
            },
            None => after == before,
        }
    }
}

fn fresh(stamp: u64, now: u64) -> (r: bool)
    ensures
        r == is_fresh(stamp, now),
{
    now < stamp || now - stamp < STALE_WINDOW_MS
}

fn copy_path(path: &Vec<FieldLocation>) -> (r: Vec<FieldLocation>)
    ensures
        r@ == path@,
{
    let mut r: Vec<FieldLocation> = Vec::new();
    let mut i: usize = 0;
    while i < path.len()
        invariant
            i <= path@.len(),
            r@ == path@.subrange(0, i as int),
        decreases path@.len() - i,
    {
        r.push(path[i]);
        i = i + 1;
        assert(r@ =~= path@.subrange(0, i as int));
    }
    assert(path@.subrange(0, path@.len() as int) =~= path@);
    r
}

fn copy_paths(paths: &Vec<Vec<FieldLocation>>) -> (r: Vec<Vec<FieldLocation>>)
    ensures
        paths_view(r) == paths_view(*paths),
{
    let mut r: Vec<Vec<FieldLocation>> = Vec::new();
    let mut i: usize = 0;
    while i < paths.len()
        invariant
            i <= paths@.len(),
            r@.len() == i,
            forall|j: int| 0 <= j < i ==> (#[trigger] r@[j])@ == paths@[j]@,
        decreases paths@.len() - i,
    {
        r.push(copy_path(&paths[i]));
        i = i + 1;
    }
    assert(paths_view(r) =~= paths_view(*paths));
    r
}

/// All cheapest routes from `tile` to the goal, with their cost, answered
/// from `memorized` while its entry for the tile is fresh and searched (and
/// memoized) otherwise. `flat` selects agents that pay 1 for every tile.
pub fn get_shortest_path(
    tile: &FieldLocation,
    field: &Field,
    flat: bool,
    now: u64,
    memorized: &mut PathCache,
) -> (r: Option<(Vec<Vec<FieldLocation>>, i64)>)
    requires
        field.wf(),
        field.in_bounds(*tile),
    ensures
        query_outcome(old(memorized).entries(), *field, *tile, flat, now, r, final(memorized).entries()),
{
    proof {
        field.lemma_wf(*tile);
    }
    let key = field.tile_index(tile) as u64;
    match memorized.entries.get(&key) {
        Some(entry) => {
            if fresh(entry.computed_at, now) {
                let r = Some((copy_paths(&entry.paths), entry.cost));
                return r;
            }
        },
        None => {},
    }
    let shortest = collect_shortest_paths(field, *tile, flat);
    match &shortest {
        Some((paths, cost)) => {
            let entry = CacheEntry { computed_at: now, paths: copy_paths(paths), cost: *cost };
            memorized.entries.insert(key, entry);
            assert(memorized.entries().remove(key) =~= old(memorized).entries().remove(key));
            assert(found_paths(shortest) == paths_view(*paths));
            assert forall|i: int| 0 <= i < paths@.len() implies is_route(
                *field,
                *tile,
                (#[trigger] paths@[i])@,
                None,
            ) && route_cost(*field, paths@[i]@, flat) == *cost by {
                assert(found_paths(shortest)[i] == paths@[i]@);
            }
            assert forall|p: Seq<FieldLocation>|
                #[trigger] is_route(*field, *tile, p, None) && route_cost(*field, p, flat) == *cost
                    implies exists|i: int| 0 <= i < paths@.len() && paths@[i]@ == p by {
                let i = choose|i: int| 0 <= i < found_paths(shortest).len() && found_paths(shortest)[i] == p;
                assert(found_paths(shortest)[i] == paths@[i]@);
            }
        },
        None => {},
    }
    shortest
}

/// Two queries of the same tile, the second made while the entry that the
/// first left for the tile is still fresh: the second returns the same
/// routes and cost as the first, and leaves the cache as it was.
pub proof fn repeated_query_within_window(
    c0: Map<u64, CacheEntry>,
    c1: Map<u64, CacheEntry>,
    c2: Map<u64, CacheEntry>,
    field: Field,
    tile: FieldLocation,
    flat: bool,
    t1: u64,
    t2: u64,
    r1: Option<(Vec<Vec<FieldLocation>>, i64)>,
    r2: Option<(Vec<Vec<FieldLocation>>, i64)>,
)
    requires
        query_outcome(c0, field, tile, flat, t1, r1, c1),
        query_outcome(c1, field, tile, flat, t2, r2, c2),
        r1 is Some,
        c1.contains_key(field.index_of(tile) as u64),
        is_fresh(c1[field.index_of(tile) as u64].computed_at, t2),
    ensures
        r2 is Some,
        found_paths(r2) == found_paths(r1),
        found_cost(r2) == found_cost(r1),
        c2 == c1,
{
}

/// Two queries of the same tile on the same graph that both had to search
/// (no fresh entry was at hand) report the same outcome: both find routes of
/// the same cost, or neither finds one.
pub proof fn recomputed_queries_agree(
    c0: Map<u64, CacheEntry>,
    c1: Map<u64, CacheEntry>,
    d0: Map<u64, CacheEntry>,
    d1: Map<u64, CacheEntry>,
    field: Field,
    tile: FieldLocation,
    flat: bool,
    t1: u64,
    t2: u64,
    r1: Option<(Vec<Vec<FieldLocation>>, i64)>,
    r2: Option<(Vec<Vec<FieldLocation>>, i64)>,
)
    requires
        query_outcome(c0, field, tile, flat, t1, r1, c1),
        query_outcome(d0, field, tile, flat, t2, r2, d1),
        !(c0.contains_key(field.index_of(tile) as u64) && is_fresh(
            c0[field.index_of(tile) as u64].computed_at,
            t1,
        )),
        !(d0.contains_key(field.index_of(tile) as u64) && is_fresh(
            d0[field.index_of(tile) as u64].computed_at,
            t2,
        )),
    ensures
        r1 is Some <==> r2 is Some,
        r1 is Some ==> found_cost(r1) == found_cost(r2),
{
    if r1 is Some && r2 is Some {
        let p1 = found_paths(r1)[0];
        let p2 = found_paths(r2)[0];
        let (paths1, _) = r1->0;
        let (paths2, _) = r2->0;
        assert(p1 == paths1@[0]@);
        assert(p2 == paths2@[0]@);
        assert(is_route(field, tile, p1, None));
        assert(is_route(field, tile, p2, None));
    }
}

} // verus!
