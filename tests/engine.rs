use ten_second_towers::bt::{
    AuditEvent, BehaviorTreeAudit, BehaviorTreeState, Inverter, Node, Selector, Sequence,
};
use ten_second_towers::enemies::{BulletType, EnemyType};
use ten_second_towers::enemy_nodes::{
    AttackNode, EnemyImpulses, EnemyNode, EnemyWorldView, PathfindNode,
};
use ten_second_towers::field::FieldLocation;
use ten_second_towers::tower_nodes::{
    FireBulletNode, RotatingAssistNode, TowerImpulses, TowerNode, TowerWorldView,
};
use ten_second_towers::towers::{TowerClass, TowerType};

fn enemy_view(paths: Option<(Vec<Vec<FieldLocation>>, i64)>, towers: Vec<(u64, TowerType)>) -> EnemyWorldView {
    EnemyWorldView {
        field_offset_size: ((16, 16), 32),
        location: (48, 48),
        tile: FieldLocation(1, 1),
        my_type: EnemyType::Basic,
        distance_from_goal: 4,
        shortest_paths: paths,
        neighbor_towers: towers,
    }
}

fn pathfind() -> Node<EnemyNode> {
    Node::Leaf(EnemyNode::Pathfind(PathfindNode { name: "Pathfind".to_string(), idx: 0 }))
}

fn attack() -> Node<EnemyNode> {
    Node::Leaf(EnemyNode::Attack(AttackNode { name: "FallbackIdle".to_string(), idx: 0 }))
}

fn tower(class: TowerClass) -> TowerType {
    TowerType { class, level: 0 }
}

fn fire(name: &str, cooldown_ms: u64) -> Node<TowerNode> {
    Node::Leaf(TowerNode::FireBullet(FireBulletNode {
        name: name.to_string(),
        bullet_type: BulletType::Basic { sprite_index: 0, damage: 1 },
        fired: false,
        speed: 512,
        cooldown_ms,
        lifetime_ms: 250,
    }))
}

fn tower_view(time_since_shot: u64, enemies: Vec<((i32, i32), EnemyType, (i32, i32))>) -> TowerWorldView {
    TowerWorldView {
        delta_ms: 100,
        location: (0, 0),
        enemies,
        my_type: tower(TowerClass::Triple),
        time_since_shot,
        has_ammo: true,
        neighbor_towers: Vec::new(),
    }
}

fn entered(events: &[AuditEvent], name: &str) -> usize {
    events
        .iter()
        .filter(|e| matches!(e, AuditEvent::Enter(n) if n == name))
        .count()
}

#[test]
fn selector_falls_back_when_no_path_exists() {
    let mut tree = Node::Selector(Selector::new("Selector".to_string(), vec![pathfind(), attack()]));
    let model = enemy_view(None, vec![(7, tower(TowerClass::Attack))]);
    let mut impulses = EnemyImpulses::new();
    let mut audit = Some(BehaviorTreeAudit::new());
    let state = tree.resume_with(&model, &mut impulses, &mut None, &mut audit);
    assert_eq!(state, BehaviorTreeState::Complete);
    assert_eq!(impulses.attack_tower, Some(7));
    assert_eq!(impulses.move_towards, None);
    let audit = audit.unwrap();
    let events = audit.events();
    assert_eq!(entered(events, "Pathfind"), 1);
    assert_eq!(entered(events, "FallbackIdle"), 1);
    assert!(matches!(&events[0], AuditEvent::Enter(n) if n == "Selector"));
    assert!(matches!(&events[2], AuditEvent::Exit(n, BehaviorTreeState::Failed) if n == "Pathfind"));
    assert!(matches!(events.last().unwrap(), AuditEvent::Exit(n, BehaviorTreeState::Complete) if n == "Selector"));
}

#[test]
fn selector_fails_when_every_child_fails() {
    let mut tree = Node::Selector(Selector::new("Selector".to_string(), vec![pathfind(), pathfind()]));
    let model = enemy_view(None, Vec::new());
    let mut impulses = EnemyImpulses::new();
    let state = tree.resume_with(&model, &mut impulses, &mut None, &mut None);
    assert_eq!(state, BehaviorTreeState::Failed);
}

#[test]
fn pathfind_steps_towards_second_tile_of_route() {
    let mut tree = pathfind();
    let route = vec![FieldLocation(1, 1), FieldLocation(2, 1), FieldLocation(3, 1)];
    let model = enemy_view(Some((vec![route], 2)), Vec::new());
    let mut impulses = EnemyImpulses::new();
    let state = tree.resume_with(&model, &mut impulses, &mut None, &mut None);
    assert_eq!(state, BehaviorTreeState::Complete);
    // Center of tile (2, 1) is (16 + 64 + 16, 16 + 32 + 16) = (96, 64); twice the offset from (48, 48).
    let direction = impulses.move_towards.unwrap();
    assert_eq!((direction.x, direction.y), (96, 32));
}

#[test]
fn pathfind_fails_at_the_goal_tile() {
    let mut tree = pathfind();
    let model = enemy_view(Some((vec![vec![FieldLocation(1, 1)]], 0)), Vec::new());
    let mut impulses = EnemyImpulses::new();
    let state = tree.resume_with(&model, &mut impulses, &mut None, &mut None);
    assert_eq!(state, BehaviorTreeState::Failed);
    assert_eq!(impulses.move_towards, None);
}

#[test]
fn attack_rotates_through_neighbors() {
    let mut tree = attack();
    let towers = vec![(1, tower(TowerClass::Attack)), (2, tower(TowerClass::Silo))];
    let model = enemy_view(None, towers);
    let mut targets = Vec::new();
    for _ in 0..3 {
        let mut impulses = EnemyImpulses::new();
        tree.resume_with(&model, &mut impulses, &mut None, &mut None);
        targets.push(impulses.attack_tower.unwrap());
    }
    assert_eq!(targets, vec![1, 2, 1]);
}

#[test]
fn sequence_stops_at_failing_child() {
    let mut tree = Node::Sequence(Sequence::new("Sequence".to_string(), vec![attack(), pathfind(), attack()]));
    let model = enemy_view(None, vec![(3, tower(TowerClass::Wall))]);
    let mut impulses = EnemyImpulses::new();
    let mut audit = Some(BehaviorTreeAudit::new());
    let state = tree.resume_with(&model, &mut impulses, &mut None, &mut audit);
    assert_eq!(state, BehaviorTreeState::Failed);
    assert_eq!(entered(audit.unwrap().events(), "FallbackIdle"), 1);
}

#[test]
fn sequence_completes_when_all_children_complete() {
    let mut tree = Node::Sequence(Sequence::new("Sequence".to_string(), vec![attack(), attack()]));
    let model = enemy_view(None, Vec::new());
    let mut impulses = EnemyImpulses::new();
    let state = tree.resume_with(&model, &mut impulses, &mut None, &mut None);
    assert_eq!(state, BehaviorTreeState::Complete);
}

#[test]
fn inverter_swaps_terminal_outcomes() {
    let model = enemy_view(None, Vec::new());
    let mut inverted_fail = Node::Inverter(Inverter::new("NotPath".to_string(), pathfind()));
    let mut impulses = EnemyImpulses::new();
    assert_eq!(
        inverted_fail.resume_with(&model, &mut impulses, &mut None, &mut None),
        BehaviorTreeState::Complete
    );
    let mut inverted_complete = Node::Inverter(Inverter::new("NotAttack".to_string(), attack()));
    assert_eq!(
        inverted_complete.resume_with(&model, &mut impulses, &mut None, &mut None),
        BehaviorTreeState::Failed
    );
}

#[test]
fn inverter_passes_waiting_through() {
    let mut tree = Node::Inverter(Inverter::new("NotReload".to_string(), Node::Leaf(TowerNode::RotatingAssist(
        RotatingAssistNode { name: "Reload".to_string(), idx: 0 },
    ))));
    let mut model = tower_view(0, Vec::new());
    model.neighbor_towers = vec![(9, tower(TowerClass::Attack))];
    let mut impulses = TowerImpulses::new();
    let state = tree.resume_with(&model, &mut impulses, &mut None, &mut None);
    assert_eq!(state, BehaviorTreeState::Waiting);
    assert_eq!(impulses.assist, Some(9));
}

#[test]
fn firing_sequence_waits_through_cooldown_then_shoots() {
    let mut tree = Node::Sequence(Sequence::new("Sequence".to_string(), vec![
        fire("TripleFirst", 1000),
        fire("Triple0", 50),
        fire("Triple1", 50),
    ]));
    let enemies = vec![((100, 0), EnemyType::Basic, (0, 0))];
    for tick in 0..10u64 {
        let model = tower_view(100 * tick, enemies.clone());
        let mut impulses = TowerImpulses::new();
        let state = tree.resume_with(&model, &mut impulses, &mut None, &mut None);
        assert_eq!(state, BehaviorTreeState::Waiting, "tick {}", tick);
        assert!(impulses.fire_now.is_none(), "tick {}", tick);
    }
    // At tick 10 the full cooldown has passed.
    let model = tower_view(1000, enemies.clone());
    let mut impulses = TowerImpulses::new();
    let state = tree.resume_with(&model, &mut impulses, &mut None, &mut None);
    assert_eq!(state, BehaviorTreeState::Waiting);
    let command = impulses.fire_now.unwrap();
    assert_eq!(command.speed, 512);
    assert_eq!(command.lifetime_ms, 250);
    // A still target 100 px away is met after 100 / 512 s, aimed straight at it.
    assert_eq!((command.aim.x, command.aim.y), (100000, 0));
}

#[test]
fn firing_waits_without_a_target_or_out_of_reach() {
    let mut tree = fire("Attack", 0);
    let mut impulses = TowerImpulses::new();
    let empty = tower_view(500, Vec::new());
    assert_eq!(tree.resume_with(&empty, &mut impulses, &mut None, &mut None), BehaviorTreeState::Waiting);
    let far = tower_view(500, vec![((1000, 0), EnemyType::Fast, (0, 0))]);
    let mut audit = Some(BehaviorTreeAudit::new());
    assert_eq!(tree.resume_with(&far, &mut impulses, &mut None, &mut audit), BehaviorTreeState::Waiting);
    assert!(impulses.fire_now.is_none());
    let audit = audit.unwrap();
    assert!(audit
        .events()
        .iter()
        .any(|e| matches!(e, AuditEvent::Mark(n, l) if n == "Attack" && l == "Too far")));
}

#[test]
fn fired_node_confirms_on_next_call() {
    let mut tree = fire("Attack", 0);
    let model = tower_view(500, vec![((64, 0), EnemyType::Basic, (0, 0))]);
    let mut impulses = TowerImpulses::new();
    assert_eq!(tree.resume_with(&model, &mut impulses, &mut None, &mut None), BehaviorTreeState::Waiting);
    assert!(impulses.fire_now.is_some());
    let mut impulses = TowerImpulses::new();
    assert_eq!(tree.resume_with(&model, &mut impulses, &mut None, &mut None), BehaviorTreeState::Complete);
    assert!(impulses.fire_now.is_none());
}

#[test]
fn reset_restarts_sequence_at_first_child() {
    let mut tree = Node::Sequence(Sequence::new("Sequence".to_string(), vec![
        Node::Leaf(TowerNode::RotatingAssist(RotatingAssistNode { name: "A".to_string(), idx: 0 })),
        fire("B", 1000),
    ]));
    let mut model = tower_view(0, Vec::new());
    model.has_ammo = false;
    model.neighbor_towers = vec![(4, tower(TowerClass::Silo))];
    let mut impulses = TowerImpulses::new();
    // The assist leaf completes without ammunition; the fire leaf then waits on its cooldown.
    assert_eq!(tree.resume_with(&model, &mut impulses, &mut None, &mut None), BehaviorTreeState::Waiting);
    model.has_ammo = true;
    let mut audit = Some(BehaviorTreeAudit::new());
    tree.resume_with(&model, &mut impulses, &mut None, &mut audit);
    assert_eq!(entered(audit.unwrap().events(), "A"), 0);
    tree.reset(&model);
    let mut impulses = TowerImpulses::new();
    let mut audit = Some(BehaviorTreeAudit::new());
    assert_eq!(tree.resume_with(&model, &mut impulses, &mut None, &mut audit), BehaviorTreeState::Waiting);
    assert_eq!(entered(audit.unwrap().events(), "A"), 1);
    assert_eq!(impulses.assist, Some(4));
}

#[test]
fn auditing_does_not_change_results() {
    let model = enemy_view(None, vec![(5, tower(TowerClass::Attack))]);
    let mut with_audit = Node::Selector(Selector::new("Selector".to_string(), vec![pathfind(), attack()]));
    let mut without_audit = Node::Selector(Selector::new("Selector".to_string(), vec![pathfind(), attack()]));
    let mut a = EnemyImpulses::new();
    let mut b = EnemyImpulses::new();
    let s1 = with_audit.resume_with(&model, &mut a, &mut None, &mut Some(BehaviorTreeAudit::new()));
    let s2 = without_audit.resume_with(&model, &mut b, &mut None, &mut None);
    assert_eq!(s1, s2);
    assert_eq!(a.attack_tower, b.attack_tower);
}

#[test]
fn enemy_trees_follow_their_kind() {
    let model = enemy_view(None, vec![(11, tower(TowerClass::Attack))]);
    let mut basic = EnemyType::Basic.get_behavior_tree("enemy-1".to_string());
    let mut impulses = EnemyImpulses::new();
    assert_eq!(basic.0.resume_with(&model, &mut impulses, &mut None, &mut None), BehaviorTreeState::Failed);
    let mut thief = EnemyType::Thief.get_behavior_tree("enemy-2".to_string());
    let route = vec![FieldLocation(1, 1), FieldLocation(1, 2)];
    let model = enemy_view(Some((vec![route], 1)), vec![(11, tower(TowerClass::Attack))]);
    let mut impulses = EnemyImpulses::new();
    assert_eq!(thief.0.resume_with(&model, &mut impulses, &mut None, &mut None), BehaviorTreeState::Complete);
    assert_eq!(impulses.attack_tower, Some(11));
    assert!(impulses.move_towards.is_some());
}

#[test]
fn attack_tower_tree_fires_with_level_damage() {
    let mut tree = TowerClass::Attack.get_behavior_tree(2, "tower-1".to_string());
    let model = tower_view(400, vec![((50, 50), EnemyType::Basic, (0, 0))]);
    let mut impulses = TowerImpulses::new();
    assert_eq!(tree.0.resume_with(&model, &mut impulses, &mut None, &mut None), BehaviorTreeState::Waiting);
    assert_eq!(impulses.fire_now.unwrap().bullet_type, BulletType::Basic { sprite_index: 0, damage: 3 });
}

#[test]
fn silo_tree_resupplies_neighbors() {
    let mut tree = TowerType { class: TowerClass::Silo, level: 1 }.get_behavior_tree("tower-2".to_string());
    let mut model = tower_view(0, Vec::new());
    model.neighbor_towers = vec![(21, tower(TowerClass::Attack)), (22, tower(TowerClass::Triple))];
    let mut impulses = TowerImpulses::new();
    assert_eq!(tree.0.resume_with(&model, &mut impulses, &mut None, &mut None), BehaviorTreeState::Waiting);
    assert_eq!(impulses.assist, Some(21));
    let mut impulses = TowerImpulses::new();
    tree.0.resume_with(&model, &mut impulses, &mut None, &mut None);
    assert_eq!(impulses.assist, Some(22));
}

#[test]
fn gas_is_left_untouched_by_current_leaves() {
    let mut tree = Node::Sequence(Sequence::new("Sequence".to_string(), vec![attack(), attack()]));
    let model = enemy_view(None, Vec::new());
    let mut impulses = EnemyImpulses::new();
    let mut gas = Some(3);
    tree.resume_with(&model, &mut impulses, &mut gas, &mut None);
    assert_eq!(gas, Some(3));
}

#[test]
fn composites_keep_their_names() {
    let mut tree = Node::Sequence(Sequence::new("root".to_string(), vec![Node::Inverter(
        Inverter::new("flip".to_string(), attack()),
    )]));
    assert_eq!(tree.get_name(), "root");
    let model = enemy_view(None, Vec::new());
    let mut impulses = EnemyImpulses::new();
    let mut audit = Some(BehaviorTreeAudit::new());
    tree.resume_with(&model, &mut impulses, &mut None, &mut audit);
    assert_eq!(tree.get_name(), "root");
    let audit = audit.unwrap();
    assert_eq!(entered(audit.events(), "root"), 1);
    assert_eq!(entered(audit.events(), "flip"), 1);
    let thief = EnemyType::Thief.get_behavior_tree("thief-7".to_string());
    assert_eq!(thief.0.get_name(), "thief-7");
}

#[test]
fn firing_waits_just_before_the_cooldown_ends() {
    let mut tree = fire("Attack", 1000);
    let enemies = vec![((100, 0), EnemyType::Basic, (0, 0))];
    let mut impulses = TowerImpulses::new();
    assert_eq!(tree.resume_with(&tower_view(999, enemies.clone()), &mut impulses, &mut None, &mut None), BehaviorTreeState::Waiting);
    assert!(impulses.fire_now.is_none());
    assert_eq!(tree.resume_with(&tower_view(1000, enemies), &mut impulses, &mut None, &mut None), BehaviorTreeState::Waiting);
    assert!(impulses.fire_now.is_some());
}

#[test]
fn reset_twice_is_reset_once() {
    let mut tree = Node::Selector(Selector::new("s".to_string(), vec![
        Node::Leaf(TowerNode::RotatingAssist(RotatingAssistNode { name: "A".to_string(), idx: 0 })),
    ]));
    let mut model = tower_view(0, Vec::new());
    model.neighbor_towers = vec![(1, tower(TowerClass::Attack)), (2, tower(TowerClass::Attack))];
    let mut impulses = TowerImpulses::new();
    tree.resume_with(&model, &mut impulses, &mut None, &mut None);
    tree.reset(&model);
    tree.reset(&model);
    let mut impulses = TowerImpulses::new();
    tree.resume_with(&model, &mut impulses, &mut None, &mut None);
    assert_eq!(impulses.assist, Some(1));
}

#[test]
fn built_trees_name_their_leaves_by_position() {
    let mut thief = EnemyType::Thief.get_behavior_tree("thief-3".to_string());
    let route = vec![FieldLocation(1, 1), FieldLocation(1, 2)];
    let model = enemy_view(Some((vec![route], 1)), vec![(11, tower(TowerClass::Attack))]);
    let mut impulses = EnemyImpulses::new();
    let mut audit = Some(BehaviorTreeAudit::new());
    thief.0.resume_with(&model, &mut impulses, &mut None, &mut audit);
    let audit = audit.unwrap();
    assert_eq!(entered(audit.events(), "thief-3"), 1);
    assert_eq!(entered(audit.events(), "thief-3/0"), 1);
    assert_eq!(entered(audit.events(), "thief-3/1"), 1);

    let mut triple = TowerClass::Triple.get_behavior_tree(9, "tower-5".to_string());
    let model = tower_view(2000, vec![((50, 0), EnemyType::Basic, (0, 0))]);
    let mut names = Vec::new();
    for _ in 0..30 {
        let mut impulses = TowerImpulses::new();
        let mut audit = Some(BehaviorTreeAudit::new());
        triple.0.resume_with(&model, &mut impulses, &mut None, &mut audit);
        for event in audit.unwrap().events() {
            if let AuditEvent::Enter(n) = event {
                if !names.contains(n) {
                    names.push(n.clone());
                }
            }
        }
    }
    assert!(names.contains(&"tower-5/10".to_string()));
    assert!(names.contains(&"tower-5/1".to_string()));
    assert_eq!(names.len(), 1 + 12);
}
