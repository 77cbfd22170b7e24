//! What an enemy sees each tick, what it may decide, and the leaf nodes of
//! its behavior tree.
use vstd::prelude::*;
use vstd::string::*;
use crate::bt::{
    BehaviorTree, BehaviorTreeAudit, BehaviorTreeState, Node,
    Resumption, Sequence, Tree, trees, child_name, child_name_of, child_names_differ, lemma_audit_unchanged,
    lemma_leaf_view,
};
use crate::enemies::EnemyType;
use crate::field::FieldLocation;
use crate::towers::TowerType;

verus! {

/// A vector in pixels (a direction need not be of unit length).
#[derive(Debug, Clone, Copy, PartialEq, Eq, Structural, Default)]
pub struct Vector {
    pub x: i128,
    pub y: i128,
}

/// The intents an enemy's tree writes each tick.
#[derive(Debug, Clone, Copy, Default)]
pub struct EnemyImpulses {
    pub move_towards: Option<Vector>,
    pub attack_tower: Option<u64>,
    pub explode_now: bool,
}

impl EnemyImpulses {
    /// No intent at all.
    pub fn new() -> (r: Self)
        ensures
            r.move_towards is None,
            r.attack_tower is None,
            !r.explode_now,
    {
        EnemyImpulses { move_towards: None, attack_tower: None, explode_now: false }
    }
}

/// An enemy's snapshot of the world for one tick.
pub struct EnemyWorldView {
    /// The field's offset and tile size, in pixels.
    pub field_offset_size: ((i32, i32), i32),
    /// The enemy's position, in pixels.
    pub location: (i32, i32),
    pub tile: FieldLocation,
    pub my_type: EnemyType,
    pub distance_from_goal: i32,
    /// The cheapest routes from the enemy's tile to the goal, with their cost.
    pub shortest_paths: Option<(Vec<Vec<FieldLocation>>, i64)>,
    /// Towers next to the enemy's tile.
    pub neighbor_towers: Vec<(u64, TowerType)>,
}

/// The tile a pathfinding enemy steps to next: the second tile of route
/// number `idx` (modulo the number of routes), if that route has one.
pub open spec fn next_step(model: EnemyWorldView, idx: usize) -> Option<FieldLocation> {
    match model.shortest_paths {
        Some((paths, _)) => {
            if paths@.len() == 0 {
                None
            } else {
                let path = paths@[idx as int % paths@.len() as int]@;
                if path.len() >= 2 {
                    Some(path[1])
                } else {
                    None
                }
            }
        },
        None => None,
    }
}

/// The direction from the enemy's position to the center of `tile`, as
/// twice the offset between them (so that it stays whole).
pub open spec fn direction_to_tile(model: EnemyWorldView, tile: FieldLocation) -> Vector {
    let offset = model.field_offset_size.0;
    let size = model.field_offset_size.1;
    Vector {
        x: (2 * (offset.0 + size * tile.0 - model.location.0) + size) as i128,
        y: (2 * (offset.1 + size * tile.1 - model.location.1) + size) as i128,
    }
}

/// The next index of a rotation.
pub open spec fn rotated(idx: usize) -> usize {
    if idx == usize::MAX {
        0
    } else {
        (idx + 1) as usize
    }
}

pub(crate) fn rotate(idx: usize) -> (r: usize)
    ensures
        r == rotated(idx),
{
    if idx == usize::MAX {
        0
    } else {
        idx + 1
    }
}

/// Moves towards the goal along one of the cheapest routes.
#[derive(Debug, Clone)]
pub struct PathfindNode {
    pub name: String,
    /// Which of the equally cheap routes this enemy follows.
    pub idx: usize,
}

impl BehaviorTree for PathfindNode {
    type Model = EnemyWorldView;
    type Controller = EnemyImpulses;

    open spec fn spec_name(&self) -> Seq<char> {
        self.name@
    }

    /// Steps towards the next tile of its route and completes; fails when
    /// there is no route to follow.
    open spec fn spec_resume(
        &self,
        model: EnemyWorldView,
        controller: EnemyImpulses,
        gas: Option<i32>,
    ) -> Resumption<PathfindNode, EnemyImpulses> {
        match next_step(model, self.idx) {
            Some(tile) => Resumption {
                node: *self,
                controller: EnemyImpulses {
                    move_towards: Some(direction_to_tile(model, tile)),
                    ..controller
                },
                gas,
                state: BehaviorTreeState::Complete,
                events: Seq::empty(),
            },
            None => Resumption {
                node: *self,
                controller,
                gas,
                state: BehaviorTreeState::Failed,
                events: Seq::empty(),
            },
        }
    }

    open spec fn spec_reset(&self, model: EnemyWorldView) -> PathfindNode {
        *self
    }

    proof fn lemma_reset_idempotent(&self, model: EnemyWorldView) {
    }

    fn get_name(&self) -> (name: &String) {
        &self.name
    }

    fn reset(&mut self, model: &EnemyWorldView) {
    }

    fn resume_with(
        &mut self,
        model: &EnemyWorldView,
        controller: &mut EnemyImpulses,
        gas: &mut Option<i32>,
        audit: &mut Option<BehaviorTreeAudit>,
    ) -> (state: BehaviorTreeState) {
        proof {
            lemma_audit_unchanged(*audit);
        }
        let next = match &model.shortest_paths {
            Some((paths, _)) => {
                if paths.len() == 0 {
                    None
                } else {
                    let path = &paths[self.idx % paths.len()];
                    if path.len() >= 2 {
                        Some(path[1])
                    } else {
                        None
                    }
                }
            },
            None => None,
        };
        match next {
            Some(tile) => {
                let offset = model.field_offset_size.0;
                let size = model.field_offset_size.1 as i128;
                assert(-0x4000_0000_0000_0000 <= size * tile.0 <= 0x4000_0000_0000_0000
                    && -0x4000_0000_0000_0000 <= size * tile.1 <= 0x4000_0000_0000_0000)
                    by (nonlinear_arith)
                    requires
                        -0x8000_0000 <= size < 0x8000_0000,
                        -0x8000_0000 <= tile.0 < 0x8000_0000,
                        -0x8000_0000 <= tile.1 < 0x8000_0000,
                ;
                controller.move_towards = Some(
                    Vector {
                        x: 2 * (offset.0 as i128 + size * tile.0 as i128 - model.location.0 as i128)
                            + size,
                        y: 2 * (offset.1 as i128 + size * tile.1 as i128 - model.location.1 as i128)
                            + size,
                    },
                );
                BehaviorTreeState::Complete
            },
            None => BehaviorTreeState::Failed,
        }
    }
}

/// Picks one of the towers next to the enemy as its target, rotating through
/// them from one success to the next.
#[derive(Debug, Clone)]
pub struct AttackNode {
    pub name: String,
    pub idx: usize,
}

impl BehaviorTree for AttackNode {
    type Model = EnemyWorldView;
    type Controller = EnemyImpulses;

    open spec fn spec_name(&self) -> Seq<char> {
        self.name@
    }

    /// With towers around, targets tower number `idx` (modulo their number)
    /// and moves the rotation on; completes either way.
    open spec fn spec_resume(
        &self,
        model: EnemyWorldView,
        controller: EnemyImpulses,
        gas: Option<i32>,
    ) -> Resumption<AttackNode, EnemyImpulses> {
        let towers = model.neighbor_towers@;
        if towers.len() > 0 {
            Resumption {
                node: AttackNode { name: self.name, idx: rotated(self.idx) },
                controller: EnemyImpulses {
                    attack_tower: Some(towers[self.idx as int % towers.len() as int].0),
                    ..controller
                },
                gas,
                state: BehaviorTreeState::Complete,
                events: Seq::empty(),
            }
        } else {
            Resumption {
                node: *self,
                controller,
                gas,
                state: BehaviorTreeState::Complete,
                events: Seq::empty(),
            }
        }
    }

    open spec fn spec_reset(&self, model: EnemyWorldView) -> AttackNode {
        AttackNode { name: self.name, idx: 0 }
    }

    proof fn lemma_reset_idempotent(&self, model: EnemyWorldView) {
    }

    fn get_name(&self) -> (name: &String) {
        &self.name
    }

    fn reset(&mut self, model: &EnemyWorldView) {
        self.idx = 0;
    }

    fn resume_with(
        &mut self,
        model: &EnemyWorldView,
        controller: &mut EnemyImpulses,
        gas: &mut Option<i32>,
        audit: &mut Option<BehaviorTreeAudit>,
    ) -> (state: BehaviorTreeState) {
        proof {
            lemma_audit_unchanged(*audit);
        }
        let n = model.neighbor_towers.len();
        if n > 0 {
            controller.attack_tower = Some(model.neighbor_towers[self.idx % n].0);
            self.idx = rotate(self.idx);
        }
        BehaviorTreeState::Complete
    }
}

/// The leaves an enemy's tree can hold.
pub enum EnemyNode {
    Pathfind(PathfindNode),
    Attack(AttackNode),
}

impl BehaviorTree for EnemyNode {
    type Model = EnemyWorldView;
    type Controller = EnemyImpulses;

    open spec fn spec_name(&self) -> Seq<char> {
        match self {
            EnemyNode::Pathfind(node) => node.spec_name(),
            EnemyNode::Attack(node) => node.spec_name(),
        }
    }

    open spec fn spec_resume(
        &self,
        model: EnemyWorldView,
        controller: EnemyImpulses,
        gas: Option<i32>,
    ) -> Resumption<EnemyNode, EnemyImpulses> {
        match self {
            EnemyNode::Pathfind(node) => {
                let r = node.spec_resume(model, controller, gas);
                Resumption {
                    node: EnemyNode::Pathfind(r.node),
                    controller: r.controller,
                    gas: r.gas,
                    state: r.state,
                    events: r.events,
                }
            },
            EnemyNode::Attack(node) => {
                let r = node.spec_resume(model, controller, gas);
                Resumption {
                    node: EnemyNode::Attack(r.node),
                    controller: r.controller,
                    gas: r.gas,
                    state: r.state,
                    events: r.events,
                }
            },
        }
    }

    open spec fn spec_reset(&self, model: EnemyWorldView) -> EnemyNode {
        match self {
            EnemyNode::Pathfind(node) => EnemyNode::Pathfind(node.spec_reset(model)),
            EnemyNode::Attack(node) => EnemyNode::Attack(node.spec_reset(model)),
        }
    }

    proof fn lemma_reset_idempotent(&self, model: EnemyWorldView) {
        match self {
            EnemyNode::Pathfind(node) => node.lemma_reset_idempotent(model),
            EnemyNode::Attack(node) => node.lemma_reset_idempotent(model),
        }
    }

    fn get_name(&self) -> (name: &String) {
        match self {
            EnemyNode::Pathfind(node) => node.get_name(),
            EnemyNode::Attack(node) => node.get_name(),
        }
    }

    fn reset(&mut self, model: &EnemyWorldView) {
        match self {
            EnemyNode::Pathfind(node) => node.reset(model),
            EnemyNode::Attack(node) => node.reset(model),
        }
    }

    fn resume_with(
        &mut self,
        model: &EnemyWorldView,
        controller: &mut EnemyImpulses,
        gas: &mut Option<i32>,
        audit: &mut Option<BehaviorTreeAudit>,
    ) -> (state: BehaviorTreeState) {
        match self {
            EnemyNode::Pathfind(node) => node.resume_with(model, controller, gas, audit),
            EnemyNode::Attack(node) => node.resume_with(model, controller, gas, audit),
        }
    }
}

/// An enemy's behavior tree.
pub struct EnemyBehaviorTree(pub Node<EnemyNode>);

/// Relies on `rand::random::<usize>`: any index may come back.
#[verifier::external_body]
fn random_index() -> usize {
    rand::random::<usize>()
}

/// A leaf that walks the enemy along one of the cheapest routes.
pub open spec fn is_pathfind_leaf(t: Tree<EnemyNode>) -> bool {
    match t {
        Tree::Leaf(EnemyNode::Pathfind(node)) => true,
        _ => false,
    }
}

/// A fresh leaf that attacks neighboring towers.
pub open spec fn is_attack_leaf(t: Tree<EnemyNode>) -> bool {
    match t {
        Tree::Leaf(EnemyNode::Attack(node)) => node.idx == 0,
        _ => false,
    }
}

impl EnemyType {
    /// A fresh tree named `name` for an enemy of this kind: a sequence that walks along a
    /// randomly chosen cheapest route, followed, for thieves and muggers, by
    /// an attack on a neighboring tower.
    pub fn get_behavior_tree(&self, name: String) -> (tree: EnemyBehaviorTree)
        ensures
            tree.0@ is Sequence,
            tree.0@->Sequence_name == name@,
            tree.0@->Sequence_index is None,
            tree.0@->Sequence_children.len() == match *self {
                EnemyType::Thief | EnemyType::Mugger => 2int,
                _ => 1int,
            },
            is_pathfind_leaf(tree.0@->Sequence_children[0]),
            (*self == EnemyType::Thief || *self == EnemyType::Mugger) ==> is_attack_leaf(
                tree.0@->Sequence_children[1],
            ),
            forall|j: int|
                0 <= j < tree.0@->Sequence_children.len() ==> (#[trigger] tree.0@->Sequence_children[j]).name()
                    == child_name(name@, j as nat),
            forall|i: int, j: int|
                0 <= i < j < tree.0@->Sequence_children.len() ==> (#[trigger] tree.0@->Sequence_children[i]).name()
                    != (#[trigger] tree.0@->Sequence_children[j]).name(),
    {
        let path = PathfindNode { name: child_name_of(&name, 0), idx: random_index() };
        let mut nodes: Vec<Node<EnemyNode>> = Vec::new();
        nodes.push(Node::Leaf(EnemyNode::Pathfind(path)));
        match self {
            EnemyType::Thief | EnemyType::Mugger => {
                nodes.push(
                    Node::Leaf(
                        EnemyNode::Attack(AttackNode { name: child_name_of(&name, 1), idx: 0 }),
                    ),
                );
            },
            _ => {},
        }
        proof {
            lemma_leaf_view(nodes@[0]->Leaf_0);
            if nodes@.len() > 1 {
                lemma_leaf_view(nodes@[1]->Leaf_0);
            }
        }
        let ghost root = name@;
        let ghost children = trees(nodes@);
        assert forall|i: int, j: int| 0 <= i < j < children.len() implies (
        #[trigger] children[i]).name() != (#[trigger] children[j]).name() by {
            child_names_differ(root, i as nat, j as nat);
        }
        let sequence = Sequence::new(name, nodes);
        EnemyBehaviorTree(Node::Sequence(sequence))
    }
}

} // verus!
