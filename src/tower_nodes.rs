//! What a tower sees each tick, what it may decide, and the leaf nodes of
//! its behavior tree.
use vstd::prelude::*;
use vstd::string::*;
use crate::bt::{
    AuditRecord, BehaviorTree, BehaviorTreeAudit, BehaviorTreeState, Node, Resumption, Sequence,
    Tree, audit_mark, run_children, start_index, child_name, child_name_of, child_names_differ, lemma_audit_unchanged,
    lemma_leaf_view,
};
use crate::enemies::{BulletType, EnemyType};
use crate::enemy_nodes::{Vector, rotated};
use crate::targeting::{
    LeadShot, MAX_TARGETING_MAGNITUDE, lead_shot, lead_solution, within_targeting_range,
};
use crate::towers::{MAX_TOWER_LEVEL, TowerClass, TowerType};

verus! {

/// An order to fire: the projectile, the aim vector, the projectile speed in
/// pixels per second and its lifetime in milliseconds.
#[derive(Debug, Clone, Copy, PartialEq, Eq, Structural)]
pub struct FireCommand {
    pub bullet_type: BulletType,
    pub aim: Vector,
    pub speed: i32,
    pub lifetime_ms: u64,
}

/// The intents a tower's tree writes each tick.
#[derive(Debug, Clone, Copy, Default)]
pub struct TowerImpulses {
    pub face_towards: Option<Vector>,
    pub attack_enemy: Option<u64>,
    pub fire_now: Option<FireCommand>,
    pub assist: Option<u64>,
}

impl TowerImpulses {
    /// No intent at all.
    pub fn new() -> (r: Self)
        ensures
            r.face_towards is None,
            r.attack_enemy is None,
            r.fire_now is None,
            r.assist is None,
    {
        TowerImpulses { face_towards: None, attack_enemy: None, fire_now: None, assist: None }
    }
}

/// A tower's snapshot of the world for one tick. Positions are in pixels,
/// velocities in pixels per second and times in milliseconds.
pub struct TowerWorldView {
    pub delta_ms: u64,
    pub location: (i32, i32),
    /// Each enemy's position, kind and velocity.
    pub enemies: Vec<((i32, i32), EnemyType, (i32, i32))>,
    pub my_type: TowerType,
    pub time_since_shot: u64,
    pub has_ammo: bool,
    /// Towers next to this tower's tile.
    pub neighbor_towers: Vec<(u64, TowerType)>,
}

pub open spec fn squared_offset(a: (i32, i32), b: (i32, i32)) -> int {
    (b.0 - a.0) * (b.0 - a.0) + (b.1 - a.1) * (b.1 - a.1)
}

/// Among the first `n` enemies, the first one closest to `location`.
pub open spec fn closest_among(
    location: (i32, i32),
    enemies: Seq<((i32, i32), EnemyType, (i32, i32))>,
    n: int,
) -> int
    decreases n,
{
    if n <= 1 {
        0
    } else {
        let best = closest_among(location, enemies, n - 1);
        if squared_offset(location, enemies[n - 1].0) < squared_offset(location, enemies[best].0) {
            n - 1
        } else {
            best
        }
    }
}

/// The first enemy closest to `location`, if there is any.
pub open spec fn closest_enemy(
    location: (i32, i32),
    enemies: Seq<((i32, i32), EnemyType, (i32, i32))>,
) -> Option<int> {
    if enemies.len() == 0 {
        None
    } else {
        Some(closest_among(location, enemies, enemies.len() as int))
    }
}

fn squared_offset_exec(a: (i32, i32), b: (i32, i32)) -> (r: i128)
    ensures
        r == squared_offset(a, b),
        0 <= r <= 0x8_0000_0000_0000_0000,
{
    let dx = b.0 as i128 - a.0 as i128;
    let dy = b.1 as i128 - a.1 as i128;
    assert(0 <= dx * dx <= 0x4_0000_0000_0000_0000 && 0 <= dy * dy <= 0x4_0000_0000_0000_0000)
        by (nonlinear_arith)
        requires
            -0x1_0000_0000 <= dx <= 0x1_0000_0000,
            -0x1_0000_0000 <= dy <= 0x1_0000_0000,
    ;
    dx * dx + dy * dy
}

/// The index of the first enemy closest to `my_location`.
pub fn get_closest_enemy(
    my_location: (i32, i32),
    enemies: &Vec<((i32, i32), EnemyType, (i32, i32))>,
) -> (r: Option<usize>)
    ensures
        match r {
            Some(k) => closest_enemy(my_location, enemies@) == Some(k as int) && k
                < enemies@.len(),
            None => closest_enemy(my_location, enemies@) is None,
        },
{
    if enemies.len() == 0 {
        return None;
    }
    let mut best_index: usize = 0;
    let mut best_distance = squared_offset_exec(my_location, enemies[0].0);
    let mut index: usize = 1;
    while index < enemies.len()
        invariant
            1 <= index <= enemies@.len(),
            best_index == closest_among(my_location, enemies@, index as int),
            best_index < index,
            best_distance == squared_offset(my_location, enemies@[best_index as int].0),
        decreases enemies@.len() - index,
    {
        let distance = squared_offset_exec(my_location, enemies[index].0);
        if distance < best_distance {
            best_index = index;
            best_distance = distance;
        }
        index = index + 1;
    }
    Some(best_index)
}

/// Whether a target at `target` lies beyond the range that a projectile of
/// `speed` covers in `lifetime_ms`.
pub open spec fn out_of_reach(
    location: (i32, i32),
    target: (i32, i32),
    lifetime_ms: u64,
    speed: i32,
) -> bool {
    squared_offset(location, target) * 1000000 > (lifetime_ms * speed) * (lifetime_ms * speed)
}

fn out_of_reach_exec(location: (i32, i32), target: (i32, i32), lifetime_ms: u64, speed: i32) -> (r:
    bool)
    ensures
        r == out_of_reach(location, target, lifetime_ms, speed),
{
    let d2 = squared_offset_exec(location, target);
    let lhs = d2 * 1000000;
    let l = lifetime_ms as i128;
    let sp = speed as i128;
    assert(-0x8000_0000_0000_0000_0000_0000 <= l * sp <= 0x8000_0000_0000_0000_0000_0000)
        by (nonlinear_arith)
        requires
            0 <= l <= 0xffff_ffff_ffff_ffff,
            -0x8000_0000 <= sp < 0x8000_0000,
    ;
    let reach = l * sp;
    if reach >= 0x8000_0000_0000_0000 || reach <= -0x8000_0000_0000_0000 {
        assert(reach * reach >= 0x4000_0000_0000_0000_0000_0000_0000_0000) by (nonlinear_arith)
            requires
                reach >= 0x8000_0000_0000_0000 || reach <= -0x8000_0000_0000_0000,
        ;
        false
    } else {
        assert(0 <= reach * reach < 0x4000_0000_0000_0000_0000_0000_0000_0000) by (nonlinear_arith)
            requires
                -0x8000_0000_0000_0000 < reach < 0x8000_0000_0000_0000,
        ;
        lhs > reach * reach
    }
}

/// The solver's answer for a shot, or `None` outside its accepted range.
pub open spec fn firing_solution(
    speed: i32,
    location: (i32, i32),
    target: (i32, i32),
    velocity: (i32, i32),
) -> Option<LeadShot> {
    if 0 <= speed <= MAX_TARGETING_MAGNITUDE && within_targeting_range(location)
        && within_targeting_range(target) && within_targeting_range(velocity) {
        lead_solution(speed, location, target, velocity)
    } else {
        None
    }
}

fn in_targeting_range(p: (i32, i32)) -> (r: bool)
    ensures
        r == within_targeting_range(p),
{
    -MAX_TARGETING_MAGNITUDE <= p.0 && p.0 <= MAX_TARGETING_MAGNITUDE && -MAX_TARGETING_MAGNITUDE
        <= p.1 && p.1 <= MAX_TARGETING_MAGNITUDE
}

/// Resupplies neighboring towers in turn while this tower has ammunition.
#[derive(Debug, Clone)]
pub struct RotatingAssistNode {
    pub name: String,
    pub idx: usize,
}

impl BehaviorTree for RotatingAssistNode {
    type Model = TowerWorldView;
    type Controller = TowerImpulses;

    open spec fn spec_name(&self) -> Seq<char> {
        self.name@
    }

    /// Without neighbors it fails; with neighbors and ammunition it assists
    /// neighbor number `idx` (modulo their number), moves the rotation on and
    /// keeps waiting; once out of ammunition it completes.
    open spec fn spec_resume(
        &self,
        model: TowerWorldView,
        controller: TowerImpulses,
        gas: Option<i32>,
    ) -> Resumption<RotatingAssistNode, TowerImpulses> {
        let towers = model.neighbor_towers@;
        if towers.len() == 0 {
            Resumption {
                node: *self,
                controller,
                gas,
                state: BehaviorTreeState::Failed,
                events: Seq::empty(),
            }
        } else if model.has_ammo {
            Resumption {
                node: RotatingAssistNode { name: self.name, idx: rotated(self.idx) },
                controller: TowerImpulses {
                    assist: Some(towers[self.idx as int % towers.len() as int].0),
                    ..controller
                },
                gas,
                state: BehaviorTreeState::Waiting,
                events: Seq::empty(),
            }
        } else {
            Resumption {
                node: *self,
                controller,
                gas,
                state: BehaviorTreeState::Complete,
                events: Seq::empty(),
            }
        }
    }

    open spec fn spec_reset(&self, model: TowerWorldView) -> RotatingAssistNode {
        RotatingAssistNode { name: self.name, idx: 0 }
    }

    proof fn lemma_reset_idempotent(&self, model: TowerWorldView) {
    }

    fn get_name(&self) -> (name: &String) {
        &self.name
    }

    fn reset(&mut self, model: &TowerWorldView) {
        self.idx = 0;
    }

    fn resume_with(
        &mut self,
        model: &TowerWorldView,
        controller: &mut TowerImpulses,
        gas: &mut Option<i32>,
        audit: &mut Option<BehaviorTreeAudit>,
    ) -> (state: BehaviorTreeState) {
        proof {
            lemma_audit_unchanged(*audit);
        }
        let n = model.neighbor_towers.len();
        if n == 0 {
            BehaviorTreeState::Failed
        } else if model.has_ammo {
            controller.assist = Some(model.neighbor_towers[self.idx % n].0);
            self.idx = crate::enemy_nodes::rotate(self.idx);
            BehaviorTreeState::Waiting
        } else {
            BehaviorTreeState::Complete
        }
    }
}

/// Fires one projectile at the closest enemy, leading it, once the cooldown
/// has passed; completes on the call after it fired.
#[derive(Debug, Clone)]
pub struct FireBulletNode {
    pub name: String,
    pub bullet_type: BulletType,
    pub fired: bool,
    /// Projectile speed, in pixels per second.
    pub speed: i32,
    /// Time that must pass after the last shot, in milliseconds.
    pub cooldown_ms: u64,
    /// Projectile lifetime, in milliseconds.
    pub lifetime_ms: u64,
}

impl BehaviorTree for FireBulletNode {
    type Model = TowerWorldView;
    type Controller = TowerImpulses;

    open spec fn spec_name(&self) -> Seq<char> {
        self.name@
    }

    /// After firing, completes. Before the cooldown has fully passed, or without
    /// ammunition, waits. Otherwise it waits too: with no enemy, or with the
    /// closest one out of reach, without firing; else it fires at the
    /// closest enemy when the solver has a solution, and marks itself fired.
    open spec fn spec_resume(
        &self,
        model: TowerWorldView,
        controller: TowerImpulses,
        gas: Option<i32>,
    ) -> Resumption<FireBulletNode, TowerImpulses> {
        if self.fired {
            Resumption {
                node: *self,
                controller,
                gas,
                state: BehaviorTreeState::Complete,
                events: seq![AuditRecord::Mark(self.name@, "FireConfirm"@)],
            }
        } else if model.time_since_shot < self.cooldown_ms || !model.has_ammo {
            Resumption {
                node: *self,
                controller,
                gas,
                state: BehaviorTreeState::Waiting,
                events: seq![AuditRecord::Mark(self.name@, "Cooldown"@)],
            }
        } else {
            match closest_enemy(model.location, model.enemies@) {
                None => Resumption {
                    node: *self,
                    controller,
                    gas,
                    state: BehaviorTreeState::Waiting,
                    events: seq![AuditRecord::Mark(self.name@, "No target"@)],
                },
                Some(k) => {
                    let (target, _, velocity) = model.enemies@[k];
                    if out_of_reach(model.location, target, self.lifetime_ms, self.speed) {
                        Resumption {
                            node: *self,
                            controller,
                            gas,
                            state: BehaviorTreeState::Waiting,
                            events: seq![AuditRecord::Mark(self.name@, "Too far"@)],
                        }
                    } else {
                        match firing_solution(self.speed, model.location, target, velocity) {
                            Some(shot) => Resumption {
                                node: FireBulletNode { fired: true, ..*self },
                                controller: TowerImpulses {
                                    face_towards: Some(Vector { x: shot.aim_x, y: shot.aim_y }),
                                    fire_now: Some(
                                        FireCommand {
                                            bullet_type: self.bullet_type,
                                            aim: Vector { x: shot.aim_x, y: shot.aim_y },
                                            speed: self.speed,
                                            lifetime_ms: self.lifetime_ms,
                                        },
                                    ),
                                    ..controller
                                },
                                gas,
                                state: BehaviorTreeState::Waiting,
                                events: seq![AuditRecord::Mark(self.name@, "Fired"@)],
                            },
                            None => Resumption {
                                node: *self,
                                controller,
                                gas,
                                state: BehaviorTreeState::Waiting,
                                events: seq![AuditRecord::Mark(self.name@, "Fired"@)],
                            },
                        }
                    }
                },
            }
        }
    }

    open spec fn spec_reset(&self, model: TowerWorldView) -> FireBulletNode {
        FireBulletNode { fired: false, ..*self }
    }

    proof fn lemma_reset_idempotent(&self, model: TowerWorldView) {
    }

    fn get_name(&self) -> (name: &String) {
        &self.name
    }

    fn reset(&mut self, model: &TowerWorldView) {
        self.fired = false;
    }

    fn resume_with(
        &mut self,
        model: &TowerWorldView,
        controller: &mut TowerImpulses,
        gas: &mut Option<i32>,
        audit: &mut Option<BehaviorTreeAudit>,
    ) -> (state: BehaviorTreeState) {
        if self.fired {
            audit_mark(audit, &self.name, "FireConfirm");
            return BehaviorTreeState::Complete;
        }
        if model.time_since_shot < self.cooldown_ms || !model.has_ammo {
            audit_mark(audit, &self.name, "Cooldown");
            return BehaviorTreeState::Waiting;
        }
        match get_closest_enemy(model.location, &model.enemies) {
            None => {
                audit_mark(audit, &self.name, "No target");
                BehaviorTreeState::Waiting
            },
            Some(k) => {
                let (target, _, velocity) = model.enemies[k];
                if out_of_reach_exec(model.location, target, self.lifetime_ms, self.speed) {
                    audit_mark(audit, &self.name, "Too far");
                    return BehaviorTreeState::Waiting;
                }
                let solvable = 0 <= self.speed && self.speed <= MAX_TARGETING_MAGNITUDE
                    && in_targeting_range(model.location) && in_targeting_range(target)
                    && in_targeting_range(velocity);
                if solvable {
                    match lead_shot(self.speed, model.location, target, velocity) {
                        Some(shot) => {
                            let aim = Vector { x: shot.aim_x, y: shot.aim_y };
                            controller.face_towards = Some(aim);
                            controller.fire_now = Some(
                                FireCommand {
                                    bullet_type: self.bullet_type,
                                    aim,
                                    speed: self.speed,
                                    lifetime_ms: self.lifetime_ms,
                                },
                            );
                            self.fired = true;
                        },
                        None => {},
                    }
                }
                audit_mark(audit, &self.name, "Fired");
                BehaviorTreeState::Waiting
            },
        }
    }
}

/// The leaves a tower's tree can hold.
pub enum TowerNode {
    FireBullet(FireBulletNode),
    RotatingAssist(RotatingAssistNode),
}

impl BehaviorTree for TowerNode {
    type Model = TowerWorldView;
    type Controller = TowerImpulses;

    open spec fn spec_name(&self) -> Seq<char> {
        match self {
            TowerNode::FireBullet(node) => node.spec_name(),
            TowerNode::RotatingAssist(node) => node.spec_name(),
        }
    }

    open spec fn spec_resume(
        &self,
        model: TowerWorldView,
        controller: TowerImpulses,
        gas: Option<i32>,
    ) -> Resumption<TowerNode, TowerImpulses> {
        match self {
            TowerNode::FireBullet(node) => {
                let r = node.spec_resume(model, controller, gas);
                Resumption {
                    node: TowerNode::FireBullet(r.node),
                    controller: r.controller,
                    gas: r.gas,
                    state: r.state,
                    events: r.events,
                }
            },
            TowerNode::RotatingAssist(node) => {
                let r = node.spec_resume(model, controller, gas);
                Resumption {
                    node: TowerNode::RotatingAssist(r.node),
                    controller: r.controller,
                    gas: r.gas,
                    state: r.state,
                    events: r.events,
                }
            },
        }
    }

    open spec fn spec_reset(&self, model: TowerWorldView) -> TowerNode {
        match self {
            TowerNode::FireBullet(node) => TowerNode::FireBullet(node.spec_reset(model)),
            TowerNode::RotatingAssist(node) => TowerNode::RotatingAssist(node.spec_reset(model)),
        }
    }

    proof fn lemma_reset_idempotent(&self, model: TowerWorldView) {
        match self {
            TowerNode::FireBullet(node) => node.lemma_reset_idempotent(model),
            TowerNode::RotatingAssist(node) => node.lemma_reset_idempotent(model),
        }
    }

    fn get_name(&self) -> (name: &String) {
        match self {
            TowerNode::FireBullet(node) => node.get_name(),
            TowerNode::RotatingAssist(node) => node.get_name(),
        }
    }

    fn reset(&mut self, model: &TowerWorldView) {
        match self {
            TowerNode::FireBullet(node) => node.reset(model),
            TowerNode::RotatingAssist(node) => node.reset(model),
        }
    }

    fn resume_with(
        &mut self,
        model: &TowerWorldView,
        controller: &mut TowerImpulses,
        gas: &mut Option<i32>,
        audit: &mut Option<BehaviorTreeAudit>,
    ) -> (state: BehaviorTreeState) {
        match self {
            TowerNode::FireBullet(node) => node.resume_with(model, controller, gas, audit),
            TowerNode::RotatingAssist(node) => node.resume_with(model, controller, gas, audit),
        }
    }
}

/// A tower's behavior tree.
pub struct TowerBehaviorTree(pub Node<TowerNode>);

/// `t` is a leaf that has not fired and fires `bullet_type` at `speed`, with
/// the given cooldown and projectile lifetime.
pub open spec fn is_fire_leaf(
    t: Tree<TowerNode>,
    bullet_type: BulletType,
    speed: i32,
    cooldown_ms: u64,
    lifetime_ms: u64,
) -> bool {
    match t {
        Tree::Leaf(TowerNode::FireBullet(node)) => {
            &&& !node.fired
            &&& node.bullet_type == bullet_type
            &&& node.speed == speed
            &&& node.cooldown_ms == cooldown_ms
            &&& node.lifetime_ms == lifetime_ms
        },
        _ => false,
    }
}

/// `t` is a fresh leaf that resupplies neighbors.
pub open spec fn is_assist_leaf(t: Tree<TowerNode>) -> bool {
    match t {
        Tree::Leaf(TowerNode::RotatingAssist(node)) => node.idx == 0,
        _ => false,
    }
}

fn fire_leaf(name: String, bullet_type: BulletType, speed: i32, cooldown_ms: u64, lifetime_ms: u64)
    -> (node: Node<TowerNode>)
    ensures
        is_fire_leaf(node@, bullet_type, speed, cooldown_ms, lifetime_ms),
        node@.name() == name@,
{
    let leaf = TowerNode::FireBullet(
        FireBulletNode { name, bullet_type, fired: false, speed, cooldown_ms, lifetime_ms },
    );
    proof {
        lemma_leaf_view(leaf);
    }
    Node::Leaf(leaf)
}

/// The cooldown of a big bomb tower at `level`, in milliseconds.
pub open spec fn bomb_cooldown(level: int) -> u64 {
    (1000int / (level + 1)) as u64
}

impl TowerClass {
    /// A fresh tree named `name` for a tower of this class at `level`: a sequence of
    /// firing leaves (one shot, or for the triple tower an opening shot and a
    /// burst of `level + 2` quick ones), or, for silos and walls, a leaf that
    /// resupplies neighbors. Burst towers have no tree.
    pub fn get_behavior_tree(&self, level: i32, name: String) -> (tree: TowerBehaviorTree)
        requires
            *self != TowerClass::Burst,
            0 <= level <= MAX_TOWER_LEVEL,
        ensures
            tree.0@ is Sequence,
            tree.0@->Sequence_name == name@,
            tree.0@->Sequence_index is None,
            ({
                let children = tree.0@->Sequence_children;
                match *self {
                    TowerClass::Attack => children.len() == 1 && is_fire_leaf(
                        children[0],
                        BulletType::Basic { sprite_index: 0, damage: (1 + level) as i32 },
                        512,
                        333,
                        250,
                    ),
                    TowerClass::Triple => {
                        &&& children.len() == level + 3
                        &&& is_fire_leaf(
                            children[0],
                            BulletType::Basic { sprite_index: 1, damage: 1 },
                            512,
                            1000,
                            250,
                        )
                        &&& forall|j: int|
                            1 <= j < children.len() ==> is_fire_leaf(
                                #[trigger] children[j],
                                BulletType::Basic { sprite_index: 0, damage: 1 },
                                512,
                                50,
                                250,
                            )
                    },
                    TowerClass::BigBomb => children.len() == 1 && is_fire_leaf(
                        children[0],
                        BulletType::Basic { sprite_index: 1, damage: 10 },
                        256,
                        bomb_cooldown(level as int),
                        500,
                    ),
                    TowerClass::Silo | TowerClass::Wall => children.len() == 1 && is_assist_leaf(
                        children[0],
                    ),
                    TowerClass::Burst => true,
                }
            }),
            forall|j: int|
                0 <= j < tree.0@->Sequence_children.len() ==> (#[trigger] tree.0@->Sequence_children[j]).name()
                    == child_name(name@, j as nat),
            forall|i: int, j: int|
                0 <= i < j < tree.0@->Sequence_children.len() ==> (#[trigger] tree.0@->Sequence_children[i]).name()
                    != (#[trigger] tree.0@->Sequence_children[j]).name(),
    {
        let mut nodes: Vec<Node<TowerNode>> = Vec::new();
        match self {
            TowerClass::Attack => {
                nodes.push(
                    fire_leaf(
                        child_name_of(&name, 0),
                        BulletType::Basic { sprite_index: 0, damage: 1 + level },
                        512,
                        333,
                        250,
                    ),
                );
            },
            TowerClass::Triple => {
                nodes.push(
                    fire_leaf(
                        child_name_of(&name, 0),
                        BulletType::Basic { sprite_index: 1, damage: 1 },
                        512,
                        1000,
                        250,
                    ),
                );
                let mut i: i32 = 0;
                while i < level + 2
                    invariant
                        0 <= i <= level + 2,
                        level <= MAX_TOWER_LEVEL,
                        nodes@.len() == i + 1,
                        forall|j: int|
                            0 <= j < nodes@.len() ==> (#[trigger] nodes@[j])@.name() == child_name(
                                name@,
                                j as nat,
                            ),
                        is_fire_leaf(
                            nodes@[0]@,
                            BulletType::Basic { sprite_index: 1, damage: 1 },
                            512,
                            1000,
                            250,
                        ),
                        forall|j: int|
                            1 <= j < nodes@.len() ==> is_fire_leaf(
                                (#[trigger] nodes@[j])@,
                                BulletType::Basic { sprite_index: 0, damage: 1 },
                                512,
                                50,
                                250,
                            ),
                    decreases level + 2 - i,
                {
                    let leaf_name = child_name_of(&name, (i + 1) as u32);
                    nodes.push(
                        fire_leaf(leaf_name, BulletType::Basic { sprite_index: 0, damage: 1 }, 512, 50, 250),
                    );
                    i = i + 1;
                }
            },
            TowerClass::BigBomb => {
                nodes.push(
                    fire_leaf(
                        child_name_of(&name, 0),
                        BulletType::Basic { sprite_index: 1, damage: 10 },
                        256,
                        1000 / (level as u64 + 1),
                        500,
                    ),
                );
            },
            _ => {
                let leaf = TowerNode::RotatingAssist(
                    RotatingAssistNode { name: child_name_of(&name, 0), idx: 0 },
                );
                proof {
                    lemma_leaf_view(leaf);
                }
                nodes.push(Node::Leaf(leaf));
            },
        }
        let ghost root = name@;
        let ghost count = nodes@.len();
        assert forall|i: int, j: int| 0 <= i < j < count implies #[trigger] child_name(root, i as nat)
            != #[trigger] child_name(root, j as nat) by {
            child_names_differ(root, i as nat, j as nat);
        }
        TowerBehaviorTree(Node::Sequence(Sequence::new(name, nodes)))
    }
}

impl TowerType {
    /// A fresh tree for this tower (see [`TowerClass::get_behavior_tree`]).
    pub fn get_behavior_tree(&self, name: String) -> (tree: TowerBehaviorTree)
        requires
            self.class != TowerClass::Burst,
            0 <= self.level <= MAX_TOWER_LEVEL,
        ensures
            tree.0@ is Sequence,
            tree.0@->Sequence_name == name@,
            tree.0@->Sequence_index is None,
            ({
                let children = tree.0@->Sequence_children;
                match self.class {
                    TowerClass::Attack => children.len() == 1 && is_fire_leaf(
                        children[0],
                        BulletType::Basic { sprite_index: 0, damage: (1 + self.level) as i32 },
                        512,
                        333,
                        250,
                    ),
                    TowerClass::Triple => {
                        &&& children.len() == self.level + 3
                        &&& is_fire_leaf(
                            children[0],
                            BulletType::Basic { sprite_index: 1, damage: 1 },
                            512,
                            1000,
                            250,
                        )
                        &&& forall|j: int|
                            1 <= j < children.len() ==> is_fire_leaf(
                                #[trigger] children[j],
                                BulletType::Basic { sprite_index: 0, damage: 1 },
                                512,
                                50,
                                250,
                            )
                    },
                    TowerClass::BigBomb => children.len() == 1 && is_fire_leaf(
                        children[0],
                        BulletType::Basic { sprite_index: 1, damage: 10 },
                        256,
                        bomb_cooldown(self.level as int),
                        500,
                    ),
                    TowerClass::Silo | TowerClass::Wall => children.len() == 1 && is_assist_leaf(
                        children[0],
                    ),
                    TowerClass::Burst => true,
                }
            }),
    {
        self.class.get_behavior_tree(self.level, name)
    }
}

/// A sequence that resumes at its first child, where that child is a firing
/// leaf that has not fired and whose cooldown has not fully passed: the call
/// waits, remembers the first child, writes no intent and leaves every child
/// as it was. So a tree called tick after tick before the cooldown ends keeps
/// waiting at its first child, and no later child runs.
pub proof fn firing_sequence_waits_out_cooldown(
    name: Seq<char>,
    children: Seq<Tree<TowerNode>>,
    index: Option<usize>,
    model: TowerWorldView,
    controller: TowerImpulses,
    gas: Option<i32>,
)
    requires
        children.len() >= 1,
        start_index(index) == 0,
        match children[0] {
            Tree::Leaf(TowerNode::FireBullet(node)) => !node.fired && model.time_since_shot
                < node.cooldown_ms,
            _ => false,
        },
    ensures
        ({
            let r = (Tree::Sequence { name, children, index }).resume(model, controller, gas);
            &&& r.state == BehaviorTreeState::Waiting
            &&& r.controller == controller
            &&& r.node == Tree::Sequence { name, children, index: Some(0usize) }
        }),
{
    let first = children[0];
    let leaf_run = first.resume(model, controller, gas);
    assert(leaf_run.state == BehaviorTreeState::Waiting);
    assert(leaf_run.node == first);
    let run = run_children(children, 0, BehaviorTreeState::Complete, model, controller, gas);
    assert(run.children =~= children);
}

} // verus!
