use ten_second_towers::field::{
    get_tile_from_location, Field, FieldLocation, FieldLocationContents, Pathability,
};
use ten_second_towers::pathing::{
    can_path_from_spawn_if, get_shortest_path, is_valid_tower_location, PathCache,
};
use ten_second_towers::towers::{TowerClass, TowerType};

/// A `width` by `height` field, spawner on the left of the middle row and
/// goal on the right of it, tiles 32 px wide, offset by 16 px.
fn field(width: i32, height: i32) -> Field {
    let source = (0, height / 2);
    let target = (width - 1, height / 2);
    let mut locations = Vec::new();
    for y in 0..height {
        for x in 0..width {
            let contents = if (x, y) == source {
                FieldLocationContents::Spawner
            } else if (x, y) == target {
                FieldLocationContents::Goal
            } else {
                FieldLocationContents::Empty
            };
            locations.push(((y * width + x) as u64, contents, Pathability::Pathable));
        }
    }
    Field::new(width, height, 32, (16, 16), source, target, locations)
}

fn tower_at(field: &mut Field, x: i32, y: i32) {
    let contents = FieldLocationContents::Tower(100, TowerType { class: TowerClass::Wall, level: 0 });
    field.update_contents(&FieldLocation(x, y), &contents);
}

#[test]
fn new_field_starts_at_unit_cost() {
    let f = field(4, 3);
    assert_eq!(f.get_tile_cost(&FieldLocation(2, 2)), 1);
    assert!(f.is_pathable(&FieldLocation(3, 1)));
    assert_eq!(f.get_goal(), FieldLocation(3, 1));
    assert!(f.is_in_goal(&FieldLocation(3, 1)));
    assert!(!f.is_in_goal(&FieldLocation(2, 1)));
    assert_eq!(*f.get_entity(&FieldLocation(1, 2)), 9);
    assert!(matches!(f.get_contents(&FieldLocation(0, 1)), FieldLocationContents::Spawner));
}

#[test]
fn decrement_never_goes_below_one() {
    let mut f = field(3, 3);
    let l = FieldLocation(1, 1);
    f.increment_tile_cost(&l, 50);
    assert_eq!(f.get_tile_cost(&l), 51);
    f.decrement_tile_cost(&l, 20);
    assert_eq!(f.get_tile_cost(&l), 31);
    for _ in 0..5 {
        f.decrement_tile_cost(&l, 20);
        assert!(f.get_tile_cost(&l) >= 1);
    }
    assert_eq!(f.get_tile_cost(&l), 1);
    f.decrement_tile_cost(&l, i32::MAX);
    assert_eq!(f.get_tile_cost(&l), 1);
}

#[test]
fn neighbors_come_left_down_right_up() {
    let mut f = field(3, 3);
    f.increment_tile_cost(&FieldLocation(2, 1), 4);
    let n = f.get_neighbors(&FieldLocation(1, 1));
    assert_eq!(
        n,
        vec![
            (FieldLocation(0, 1), 1),
            (FieldLocation(1, 0), 1),
            (FieldLocation(2, 1), 5),
            (FieldLocation(1, 2), 1),
        ]
    );
    let corner = f.get_neighbors(&FieldLocation(0, 0));
    assert_eq!(corner, vec![(FieldLocation(1, 0), 1), (FieldLocation(0, 1), 1)]);
}

#[test]
fn towers_block_and_flat_cost_ignores_weights() {
    let mut f = field(3, 3);
    tower_at(&mut f, 1, 0);
    f.increment_tile_cost(&FieldLocation(2, 1), 9);
    assert!(!f.is_pathable(&FieldLocation(1, 0)));
    let weighted = f.get_pathable_neighbors(&FieldLocation(1, 1));
    assert_eq!(
        weighted,
        vec![(FieldLocation(0, 1), 1), (FieldLocation(2, 1), 10), (FieldLocation(1, 2), 1)]
    );
    let flat = f.get_pathable_neighbors_flat_cost(&FieldLocation(1, 1));
    assert_eq!(
        flat,
        vec![(FieldLocation(0, 1), 1), (FieldLocation(2, 1), 1), (FieldLocation(1, 2), 1)]
    );
    f.update_contents(&FieldLocation(1, 0), &FieldLocationContents::Empty);
    assert!(f.is_pathable(&FieldLocation(1, 0)));
}

#[test]
fn squared_distance_estimates_goal() {
    let f = field(5, 3);
    assert_eq!(f.estimate_distance_to_goal(&FieldLocation(0, 0)), 16 + 1);
    assert_eq!(f.estimate_distance_to_goal(&FieldLocation(4, 1)), 0);
}

#[test]
fn pixels_map_to_tiles() {
    let f = field(4, 3);
    assert_eq!(get_tile_from_location((16, 16), &f), Some((0, 0)));
    assert_eq!(get_tile_from_location((47, 48), &f), Some((0, 1)));
    assert_eq!(get_tile_from_location((15, 20), &f), None);
    assert_eq!(get_tile_from_location((16 + 4 * 32, 20), &f), None);
    assert_eq!(get_tile_from_location((16 + 3 * 32 + 31, 16 + 2 * 32), &f), Some((3, 2)));
    assert_eq!(f.get_spawn_transform(), (16 + 16, 16 + 32 + 16));
}

#[test]
fn enemies_in_and_near_tiles() {
    let mut f = field(3, 3);
    f.add_enemy_in_tile(&FieldLocation(1, 1), 1, (50, 50));
    f.add_enemy_in_tile(&FieldLocation(0, 1), 2, (20, 50));
    f.add_enemy_in_tile(&FieldLocation(2, 2), 3, (90, 90));
    assert_eq!(f.get_enemies_in_tile(&FieldLocation(1, 1)), &vec![(1, (50, 50))]);
    assert_eq!(
        f.get_enemies_in_or_near_tile(&FieldLocation(1, 1)),
        vec![(1, (50, 50)), (2, (20, 50))]
    );
    f.clear_enemies_in_tiles();
    assert!(f.get_enemies_in_tile(&FieldLocation(1, 1)).is_empty());
}

#[test]
fn shortest_paths_reach_the_goal() {
    let f = field(4, 3);
    let mut cache = PathCache::new();
    let (paths, cost) = get_shortest_path(&FieldLocation(0, 1), &f, false, 0, &mut cache).unwrap();
    assert_eq!(cost, 3);
    assert_eq!(paths, vec![vec![
        FieldLocation(0, 1),
        FieldLocation(1, 1),
        FieldLocation(2, 1),
        FieldLocation(3, 1),
    ]]);
}

#[test]
fn weighted_search_avoids_costly_tiles() {
    let mut f = field(3, 3);
    f.increment_tile_cost(&FieldLocation(1, 1), 100);
    let mut cache = PathCache::new();
    let (paths, cost) = get_shortest_path(&FieldLocation(0, 1), &f, false, 0, &mut cache).unwrap();
    assert_eq!(cost, 4);
    // Both detours, over the top and under the bottom, cost 4.
    assert_eq!(paths.len(), 2);
    for path in &paths {
        assert!(!path.contains(&FieldLocation(1, 1)));
    }
    let mut flat_cache = PathCache::new();
    let (flat_paths, flat_cost) =
        get_shortest_path(&FieldLocation(0, 1), &f, true, 0, &mut flat_cache).unwrap();
    assert_eq!(flat_cost, 2);
    assert_eq!(flat_paths.len(), 1);
}

#[test]
fn fresh_cache_entry_is_reused() {
    let mut f = field(4, 3);
    let mut cache = PathCache::new();
    let first = get_shortest_path(&FieldLocation(0, 1), &f, false, 1000, &mut cache).unwrap();
    tower_at(&mut f, 1, 1);
    let second = get_shortest_path(&FieldLocation(0, 1), &f, false, 1999, &mut cache).unwrap();
    assert_eq!(first, second);
    let third = get_shortest_path(&FieldLocation(0, 1), &f, false, 2000, &mut cache).unwrap();
    assert_eq!(third.1, 5);
    assert!(third.0.iter().all(|p| !p.contains(&FieldLocation(1, 1))));
}

#[test]
fn recomputing_on_same_graph_keeps_cost() {
    let f = field(5, 5);
    let mut cache = PathCache::new();
    let first = get_shortest_path(&FieldLocation(0, 0), &f, false, 0, &mut cache).unwrap();
    let later = get_shortest_path(&FieldLocation(0, 0), &f, false, 5000, &mut cache).unwrap();
    assert_eq!(first.1, later.1);
    let mut sorted_first = first.0.clone();
    let mut sorted_later = later.0.clone();
    sorted_first.sort_by_key(|p| format!("{:?}", p));
    sorted_later.sort_by_key(|p| format!("{:?}", p));
    assert_eq!(sorted_first, sorted_later);
}

#[test]
fn unreachable_goal_is_not_cached() {
    let mut f = field(3, 3);
    tower_at(&mut f, 1, 0);
    tower_at(&mut f, 1, 1);
    tower_at(&mut f, 1, 2);
    let mut cache = PathCache::new();
    assert!(get_shortest_path(&FieldLocation(0, 1), &f, false, 0, &mut cache).is_none());
    f.update_contents(&FieldLocation(1, 1), &FieldLocationContents::Empty);
    assert!(get_shortest_path(&FieldLocation(0, 1), &f, false, 10, &mut cache).is_some());
}

#[test]
fn blocking_the_only_corridor_cuts_the_goal_off() {
    let mut f = field(3, 3);
    tower_at(&mut f, 1, 0);
    tower_at(&mut f, 1, 2);
    assert!(can_path_from_spawn_if(&f, FieldLocation(2, 2)));
    assert!(!can_path_from_spawn_if(&f, FieldLocation(1, 1)));
    assert!(!is_valid_tower_location(&f, FieldLocation(1, 1)));
    assert!(is_valid_tower_location(&f, FieldLocation(2, 2)));
    assert!(!is_valid_tower_location(&f, FieldLocation(1, 0)));
}
