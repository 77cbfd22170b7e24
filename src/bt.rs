//! The behavior-tree engine: node outcomes, the optional audit trail, the
//! leaf capability that domain nodes implement, and the composite nodes
//! (`Sequence`, `Selector`, `Inverter`) that walk their children once per tick.
//!
//! Every node has a mathematical model, a [`Tree`], and the effect of one
//! `resume_with` call is stated by the spec function [`Tree::resume`].
use vstd::prelude::*;
use vstd::string::*;

verus! {

/// The outcome of resuming a node for one tick.
#[derive(Debug, Clone, Copy, PartialEq, Eq, Structural)]
pub enum BehaviorTreeState {
    Complete,
    Failed,
    Waiting,
    NeedsGas,
}

impl BehaviorTreeState {
    /// `Waiting` and `NeedsGas` pause a node: a later tick resumes it at the
    /// same point.
    pub open spec fn is_pause(self) -> bool {
        self == BehaviorTreeState::Waiting || self == BehaviorTreeState::NeedsGas
    }
}

/// What an inverter reports for the outcome of its child.
pub open spec fn inverted(state: BehaviorTreeState) -> BehaviorTreeState {
    match state {
        BehaviorTreeState::Complete => BehaviorTreeState::Failed,
        BehaviorTreeState::Failed => BehaviorTreeState::Complete,
        other => other,
    }
}

fn invert(state: BehaviorTreeState) -> (r: BehaviorTreeState)
    ensures
        r == inverted(state),
{
    match state {
        BehaviorTreeState::Complete => BehaviorTreeState::Failed,
        BehaviorTreeState::Failed => BehaviorTreeState::Complete,
        other => other,
    }
}

/// One entry of an audit trail.
#[derive(Debug)]
pub enum AuditEvent {
    Enter(String),
    Exit(String, BehaviorTreeState),
    Mark(String, String),
}

/// The content of an audit entry, with names as character sequences.
pub enum AuditRecord {
    Enter(Seq<char>),
    Exit(Seq<char>, BehaviorTreeState),
    Mark(Seq<char>, Seq<char>),
}

impl AuditEvent {
    pub open spec fn record(self) -> AuditRecord {
        match self {
            AuditEvent::Enter(name) => AuditRecord::Enter(name@),
            AuditEvent::Exit(name, state) => AuditRecord::Exit(name@, state),
            AuditEvent::Mark(name, label) => AuditRecord::Mark(name@, label@),
        }
    }
}

/// An ordered log of the nodes entered and left during a call, and of the
/// decision points that leaves mark.
pub struct BehaviorTreeAudit {
    events: Vec<AuditEvent>,
}

impl View for BehaviorTreeAudit {
    type V = Seq<AuditRecord>;

    closed spec fn view(&self) -> Seq<AuditRecord> {
        self.events@.map_values(|e: AuditEvent| e.record())
    }
}

impl BehaviorTreeAudit {
    pub fn new() -> (audit: Self)
        ensures
            audit@ == Seq::<AuditRecord>::empty(),
    {
        let audit = BehaviorTreeAudit { events: Vec::new() };
        assert(audit@ =~= Seq::<AuditRecord>::empty());
        audit
    }

    /// The recorded events, oldest first.
    pub fn events(&self) -> (events: &Vec<AuditEvent>)
        ensures
            events@.map_values(|e: AuditEvent| e.record()) == self@,
    {
        &self.events
    }

    fn push(&mut self, event: AuditEvent)
        ensures
            final(self)@ == old(self)@.push(event.record()),
    {
        self.events.push(event);
        assert(self@ =~= old(self)@.push(event.record()));
    }
}

/// `after` is `before` with `events` appended, or both are absent.
pub open spec fn audit_extended(
    before: Option<BehaviorTreeAudit>,
    after: Option<BehaviorTreeAudit>,
    events: Seq<AuditRecord>,
) -> bool {
    match before {
        None => after is None,
        Some(a) => after is Some && after->0@ == a@ + events,
    }
}

proof fn lemma_audit_chain(
    a: Option<BehaviorTreeAudit>,
    b: Option<BehaviorTreeAudit>,
    c: Option<BehaviorTreeAudit>,
    x: Seq<AuditRecord>,
    y: Seq<AuditRecord>,
)
    requires
        audit_extended(a, b, x),
        audit_extended(b, c, y),
    ensures
        audit_extended(a, c, x + y),
{
    if a is Some {
        assert(c->0@ =~= a->0@ + (x + y));
    }
}

/// Leaving the audit trail alone extends it by nothing.
pub proof fn lemma_audit_unchanged(audit: Option<BehaviorTreeAudit>)
    ensures
        audit_extended(audit, audit, Seq::empty()),
{
    if audit is Some {
        assert(audit->0@ + Seq::<AuditRecord>::empty() =~= audit->0@);
    }
}

/// Records that the node `name` is entered.
pub fn audit_enter(audit: &mut Option<BehaviorTreeAudit>, name: &String)
    ensures
        audit_extended(*old(audit), *final(audit), seq![AuditRecord::Enter(name@)]),
{
    match audit {
        Some(a) => {
            let ghost before = a@;
            a.push(AuditEvent::Enter(name.clone()));
            assert(a@ =~= before + seq![AuditRecord::Enter(name@)]);
        },
        None => {},
    }
}

/// Records that the node `name` is left with `state`.
pub fn audit_exit(audit: &mut Option<BehaviorTreeAudit>, name: &String, state: BehaviorTreeState)
    ensures
        audit_extended(*old(audit), *final(audit), seq![AuditRecord::Exit(name@, state)]),
{
    match audit {
        Some(a) => {
            let ghost before = a@;
            a.push(AuditEvent::Exit(name.clone(), state));
            assert(a@ =~= before + seq![AuditRecord::Exit(name@, state)]);
        },
        None => {},
    }
}

/// Records that the node `name` reached the decision point `label`.
pub fn audit_mark(audit: &mut Option<BehaviorTreeAudit>, name: &String, label: &str)
    ensures
        audit_extended(*old(audit), *final(audit), seq![AuditRecord::Mark(name@, label@)]),
{
    match audit {
        Some(a) => {
            let ghost before = a@;
            a.push(AuditEvent::Mark(name.clone(), String::from_str(label)));
            assert(a@ =~= before + seq![AuditRecord::Mark(name@, label@)]);
        },
        None => {},
    }
}

/// The effect of one resumption: the node after the call, the output and
/// step budget after the call, the outcome, and the audit entries written.
pub struct Resumption<N, C> {
    pub node: N,
    pub controller: C,
    pub gas: Option<i32>,
    pub state: BehaviorTreeState,
    pub events: Seq<AuditRecord>,
}

/// The capability of a leaf node: domain logic that reads a world view,
/// writes intents into a controller and owns whatever progress state it needs.
///
/// A leaf's audit entries are its marks; the engine writes the enter and exit
/// entries around every node.
pub trait BehaviorTree: Sized {
    type Model;
    type Controller;

    spec fn spec_name(&self) -> Seq<char>;

    spec fn spec_resume(
        &self,
        model: Self::Model,
        controller: Self::Controller,
        gas: Option<i32>,
    ) -> Resumption<Self, Self::Controller>;

    spec fn spec_reset(&self, model: Self::Model) -> Self;

    /// Resetting twice is resetting once.
    proof fn lemma_reset_idempotent(&self, model: Self::Model)
        ensures
            self.spec_reset(model).spec_reset(model) == self.spec_reset(model),
    ;

    fn get_name(&self) -> (name: &String)
        ensures
            name@ == self.spec_name(),
    ;

    fn reset(&mut self, model: &Self::Model)
        ensures
            *final(self) == old(self).spec_reset(*model),
    ;

    fn resume_with(
        &mut self,
        model: &Self::Model,
        controller: &mut Self::Controller,
        gas: &mut Option<i32>,
        audit: &mut Option<BehaviorTreeAudit>,
    ) -> (state: BehaviorTreeState)
        ensures
            ({
                let r = old(self).spec_resume(*model, *old(controller), *old(gas));
                &&& *final(self) == r.node
                &&& *final(controller) == r.controller
                &&& *final(gas) == r.gas
                &&& state == r.state
                &&& audit_extended(*old(audit), *final(audit), r.events)
            }),
            final(self).spec_name() == old(self).spec_name(),
    ;
}

/// The mathematical model of a node.
pub enum Tree<L> {
    Sequence { name: Seq<char>, children: Seq<Tree<L>>, index: Option<usize> },
    Selector { name: Seq<char>, children: Seq<Tree<L>>, index: Option<usize> },
    Inverter { name: Seq<char>, child: Box<Tree<L>> },
    Leaf(L),
}

/// The effect of running the children of a composite from one position on.
pub struct ChildrenRun<L, C> {
    pub children: Seq<Tree<L>>,
    pub controller: C,
    pub gas: Option<i32>,
    pub state: BehaviorTreeState,
    pub index: Option<usize>,
    pub events: Seq<AuditRecord>,
}

/// The child a composite resumes from: the remembered index, or the first.
pub open spec fn start_index(index: Option<usize>) -> int {
    match index {
        Some(k) => k as int,
        None => 0,
    }
}

/// Runs `children` from position `i` on, in one call. A child that returns
/// `advance` passes control to the next child; a pause stops the run and is
/// remembered; the other terminal outcome stops the run. When no child is
/// left the run ends with `advance`. (`advance` is `Complete` for a sequence
/// and `Failed` for a selector.)
pub open spec fn run_children<L: BehaviorTree>(
    children: Seq<Tree<L>>,
    i: int,
    advance: BehaviorTreeState,
    model: L::Model,
    controller: L::Controller,
    gas: Option<i32>,
) -> ChildrenRun<L, L::Controller>
    decreases children, children.len() - i,
{
    if i < 0 || i >= children.len() {
        ChildrenRun {
            children,
            controller,
            gas,
            state: advance,
            index: None,
            events: Seq::empty(),
        }
    } else {
        let r = children[i].resume(model, controller, gas);
        if r.state == advance {
            let rest = run_children(children, i + 1, advance, model, r.controller, r.gas);
            ChildrenRun {
                children: rest.children.update(i, r.node),
                controller: rest.controller,
                gas: rest.gas,
                state: rest.state,
                index: rest.index,
                events: r.events + rest.events,
            }
        } else {
            ChildrenRun {
                children: children.update(i, r.node),
                controller: r.controller,
                gas: r.gas,
                state: r.state,
                index: if r.state.is_pause() {
                    Some(i as usize)
                } else {
                    None
                },
                events: r.events,
            }
        }
    }
}

proof fn lemma_run_children_len<L: BehaviorTree>(
    children: Seq<Tree<L>>,
    i: int,
    advance: BehaviorTreeState,
    model: L::Model,
    controller: L::Controller,
    gas: Option<i32>,
)
    ensures
        run_children(children, i, advance, model, controller, gas).children.len()
            == children.len(),
    decreases children.len() - i,
{
    if 0 <= i < children.len() {
        let r = children[i].resume(model, controller, gas);
        if r.state == advance {
            lemma_run_children_len(children, i + 1, advance, model, r.controller, r.gas);
        }
    }
}

/// Resets every tree of `children`.
pub open spec fn reset_all<L: BehaviorTree>(children: Seq<Tree<L>>, model: L::Model) -> Seq<
    Tree<L>,
>
    decreases children, 0int,
{
    Seq::new(
        children.len(),
        |j: int|
            if 0 <= j < children.len() {
                children[j].reset(model)
            } else {
                children[0]
            },
    )
}

impl<L: BehaviorTree> Tree<L> {
    pub open spec fn name(self) -> Seq<char> {
        match self {
            Tree::Sequence { name, .. } => name,
            Tree::Selector { name, .. } => name,
            Tree::Inverter { name, .. } => name,
            Tree::Leaf(leaf) => leaf.spec_name(),
        }
    }

    /// One `resume_with` call on this tree, without the node's own enter and
    /// exit audit entries.
    pub open spec fn resume_inner(
        self,
        model: L::Model,
        controller: L::Controller,
        gas: Option<i32>,
    ) -> Resumption<Tree<L>, L::Controller>
        decreases self, 1int,
    {
        match self {
            Tree::Sequence { name, children, index } => {
                let run = run_children(
                    children,
                    start_index(index),
                    BehaviorTreeState::Complete,
                    model,
                    controller,
                    gas,
                );
                Resumption {
                    node: Tree::Sequence { name, children: run.children, index: run.index },
                    controller: run.controller,
                    gas: run.gas,
                    state: run.state,
                    events: run.events,
                }
            },
            Tree::Selector { name, children, index } => {
                let run = run_children(
                    children,
                    start_index(index),
                    BehaviorTreeState::Failed,
                    model,
                    controller,
                    gas,
                );
                Resumption {
                    node: Tree::Selector { name, children: run.children, index: run.index },
                    controller: run.controller,
                    gas: run.gas,
                    state: run.state,
                    events: run.events,
                }
            },
            Tree::Inverter { name, child } => {
                let r = (*child).resume(model, controller, gas);
                Resumption {
                    node: Tree::Inverter { name, child: Box::new(r.node) },
                    controller: r.controller,
                    gas: r.gas,
                    state: inverted(r.state),
                    events: r.events,
                }
            },
            Tree::Leaf(leaf) => {
                let r = leaf.spec_resume(model, controller, gas);
                Resumption {
                    node: Tree::Leaf(r.node),
                    controller: r.controller,
                    gas: r.gas,
                    state: r.state,
                    events: r.events,
                }
            },
        }
    }

    /// One `resume_with` call on this tree: every node is wrapped by its
    /// enter and exit audit entries.
    pub open spec fn resume(
        self,
        model: L::Model,
        controller: L::Controller,
        gas: Option<i32>,
    ) -> Resumption<Tree<L>, L::Controller>
        decreases self, 2int,
    {
        let inner = self.resume_inner(model, controller, gas);
        Resumption {
            node: inner.node,
            controller: inner.controller,
            gas: inner.gas,
            state: inner.state,
            events: seq![AuditRecord::Enter(self.name())] + inner.events + seq![
                AuditRecord::Exit(self.name(), inner.state),
            ],
        }
    }

    /// Discards all progress: composites forget their remembered index and
    /// reset every descendant; leaves reset their own state.
    pub open spec fn reset(self, model: L::Model) -> Tree<L>
        decreases self, 1int,
    {
        match self {
            Tree::Sequence { name, children, index } => Tree::Sequence {
                name,
                children: reset_all(children, model),
                index: None,
            },
            Tree::Selector { name, children, index } => Tree::Selector {
                name,
                children: reset_all(children, model),
                index: None,
            },
            Tree::Inverter { name, child } => Tree::Inverter {
                name,
                child: Box::new((*child).reset(model)),
            },
            Tree::Leaf(leaf) => Tree::Leaf(leaf.spec_reset(model)),
        }
    }
}

/// A node of a behavior tree. Each node is owned by its parent, and the whole
/// tree by one agent.
pub enum Node<L> {
    Sequence(Sequence<L>),
    Selector(Selector<L>),
    Inverter(Inverter<L>),
    Leaf(L),
}

/// Runs its children in order until one does not complete.
pub struct Sequence<L> {
    name: String,
    nodes: Vec<Node<L>>,
    index: Option<usize>,
}

/// Tries its children in order until one does not fail.
pub struct Selector<L> {
    name: String,
    nodes: Vec<Node<L>>,
    index: Option<usize>,
}

/// Swaps the terminal outcomes of its single child.
pub struct Inverter<L> {
    name: String,
    node: Box<Node<L>>,
}

/// The models of a list of nodes.
pub open spec fn trees<L>(nodes: Seq<Node<L>>) -> Seq<Tree<L>>
    decreases nodes, 0int,
{
    Seq::new(
        nodes.len(),
        |j: int|
            if 0 <= j < nodes.len() {
                nodes[j].tree()
            } else {
                Tree::Leaf(arbitrary())
            },
    )
}

impl<L> Node<L> {
    /// The model of this node.
    pub closed spec fn tree(self) -> Tree<L>
        decreases self, 1int,
    {
        match self {
            Node::Sequence(s) => Tree::Sequence {
                name: s.name@,
                children: trees(s.nodes@),
                index: s.index,
            },
            Node::Selector(s) => Tree::Selector {
                name: s.name@,
                children: trees(s.nodes@),
                index: s.index,
            },
            Node::Inverter(inv) => Tree::Inverter { name: inv.name@, child: Box::new((*inv.node).tree()) },
            Node::Leaf(leaf) => Tree::Leaf(leaf),
        }
    }
}

/// A leaf node's model is the leaf itself.
pub proof fn lemma_leaf_view<L>(leaf: L)
    ensures
        (Node::Leaf(leaf))@ == Tree::<L>::Leaf(leaf),
{
}

impl<L> View for Node<L> {
    type V = Tree<L>;

    open spec fn view(&self) -> Tree<L> {
        self.tree()
    }
}

/// The run from `start` on, seen after the children in `[start, i)` have
/// been resumed: those positions hold the new children `prefix`, `acc` holds
/// the audit entries written so far, and `rest` is what remains of the run.
pub open spec fn glue<L, C>(
    prefix: Seq<Tree<L>>,
    start: int,
    i: int,
    acc: Seq<AuditRecord>,
    rest: ChildrenRun<L, C>,
) -> ChildrenRun<L, C> {
    ChildrenRun {
        children: Seq::new(
            rest.children.len(),
            |j: int|
                if start <= j < i {
                    prefix[j]
                } else {
                    rest.children[j]
                },
        ),
        controller: rest.controller,
        gas: rest.gas,
        state: rest.state,
        index: rest.index,
        events: acc + rest.events,
    }
}

impl<L: BehaviorTree> Node<L> {
    /// The node's stable name, used in audit entries.
    pub fn get_name(&self) -> (name: &String)
        ensures
            name@ == self@.name(),
    {
        match self {
            Node::Sequence(s) => &s.name,
            Node::Selector(s) => &s.name,
            Node::Inverter(inv) => &inv.name,
            Node::Leaf(leaf) => leaf.get_name(),
        }
    }

    /// Resumes this node for one tick against `model`, writing intents into
    /// `controller`. The audit trail, when present, records the call and is
    /// never consulted.
    pub fn resume_with(
        &mut self,
        model: &L::Model,
        controller: &mut L::Controller,
        gas: &mut Option<i32>,
        audit: &mut Option<BehaviorTreeAudit>,
    ) -> (state: BehaviorTreeState)
        ensures
            ({
                let r = old(self)@.resume(*model, *old(controller), *old(gas));
                &&& final(self)@ == r.node
                &&& *final(controller) == r.controller
                &&& *final(gas) == r.gas
                &&& state == r.state
                &&& audit_extended(*old(audit), *final(audit), r.events)
            }),
        decreases *old(self),
    {
        let ghost a0 = *audit;
        audit_enter(audit, self.get_name());
        let ghost a1 = *audit;
        let state = match self {
            Node::Sequence(s) => run_nodes(
                &mut s.nodes,
                &mut s.index,
                BehaviorTreeState::Complete,
                model,
                controller,
                gas,
                audit,
            ),
            Node::Selector(s) => run_nodes(
                &mut s.nodes,
                &mut s.index,
                BehaviorTreeState::Failed,
                model,
                controller,
                gas,
                audit,
            ),
            Node::Inverter(inv) => {
                let child_state = (&mut *inv.node).resume_with(model, controller, gas, audit);
                invert(child_state)
            },
            Node::Leaf(leaf) => leaf.resume_with(model, controller, gas, audit),
        };
        let ghost a2 = *audit;
        audit_exit(audit, self.get_name(), state);
        proof {
            let r = old(self)@.resume(*model, *old(controller), *old(gas));
            let inner_events = old(self)@.resume_inner(*model, *old(controller), *old(gas)).events;
            lemma_audit_chain(a0, a1, a2, seq![AuditRecord::Enter(old(self)@.name())], inner_events);
            lemma_audit_chain(
                a0,
                a2,
                *audit,
                seq![AuditRecord::Enter(old(self)@.name())] + inner_events,
                seq![AuditRecord::Exit(old(self)@.name(), state)],
            );
            assert(r.events =~= seq![AuditRecord::Enter(old(self)@.name())] + inner_events + seq![
                AuditRecord::Exit(old(self)@.name(), state),
            ]);
        }
        state
    }

    /// Discards all progress of this node and its descendants.
    pub fn reset(&mut self, model: &L::Model)
        ensures
            final(self)@ == old(self)@.reset(*model),
        decreases *old(self),
    {
        match self {
            Node::Sequence(s) => {
                reset_nodes(&mut s.nodes, model);
                s.index = None;
            },
            Node::Selector(s) => {
                reset_nodes(&mut s.nodes, model);
                s.index = None;
            },
            Node::Inverter(inv) => (&mut *inv.node).reset(model),
            Node::Leaf(leaf) => leaf.reset(model),
        }
    }
}

/// Runs the children of a composite from its remembered index on (see
/// [`run_children`]) and updates the remembered index.
fn run_nodes<L: BehaviorTree>(
    nodes: &mut Vec<Node<L>>,
    index: &mut Option<usize>,
    advance: BehaviorTreeState,
    model: &L::Model,
    controller: &mut L::Controller,
    gas: &mut Option<i32>,
    audit: &mut Option<BehaviorTreeAudit>,
) -> (state: BehaviorTreeState)
    requires
        advance == BehaviorTreeState::Complete || advance == BehaviorTreeState::Failed,
    ensures
        ({
            let r = run_children(
                trees(old(nodes)@),
                start_index(*old(index)),
                advance,
                *model,
                *old(controller),
                *old(gas),
            );
            &&& trees(final(nodes)@) == r.children
            &&& *final(index) == r.index
            &&& *final(controller) == r.controller
            &&& *final(gas) == r.gas
            &&& state == r.state
            &&& audit_extended(*old(audit), *final(audit), r.events)
        }),
    decreases *old(nodes),
{
    let ghost orig_vec = *nodes;
    let ghost orig_nodes = nodes@;
    let ghost orig = trees(orig_nodes);
    let ghost audit0 = *audit;
    let start: usize = match *index {
        Some(k) => k,
        None => 0,
    };
    let ghost goal = run_children(orig, start as int, advance, *model, *controller, *gas);
    let ghost mut acc = Seq::<AuditRecord>::empty();
    let mut i: usize = start;
    assert(goal.children =~= glue(trees(nodes@), start as int, i as int, acc, goal).children);
    assert(goal.events =~= glue(trees(nodes@), start as int, i as int, acc, goal).events);
    while i < nodes.len()
        invariant
            orig_vec == *old(nodes),
            goal == run_children(
                trees(old(nodes)@),
                start_index(*old(index)),
                advance,
                *model,
                *old(controller),
                *old(gas),
            ),
            audit0 == *old(audit),
            start <= i,
            nodes@.len() == orig_nodes.len(),
            orig_vec@ == orig_nodes,
            orig == trees(orig_nodes),
            forall|j: int|
                0 <= j < orig_nodes.len() && !(start <= j < i) ==> nodes@[j] == orig_nodes[j],
            goal == glue(
                trees(nodes@),
                start as int,
                i as int,
                acc,
                run_children(orig, i as int, advance, *model, *controller, *gas),
            ),
            audit_extended(audit0, *audit, acc),
            advance == BehaviorTreeState::Complete || advance == BehaviorTreeState::Failed,
        decreases nodes.len() - i,
    {
        let ghost before = nodes@;
        let ghost c_i = *controller;
        let ghost g_i = *gas;
        let ghost a_i = *audit;
        let ghost rest_i = run_children(orig, i as int, advance, *model, c_i, g_i);
        proof {
            vstd::std_specs::vec::axiom_vec_index_decreases(orig_vec, i as int);
        }
        let child_state = nodes[i].resume_with(model, controller, gas, audit);
        let ghost r = orig[i as int].resume(*model, c_i, g_i);
        proof {
            lemma_audit_chain(audit0, a_i, *audit, acc, r.events);
        }
        assert(nodes@[i as int]@ == r.node);
        if child_state == advance {
            proof {
                lemma_run_children_len(orig, i + 1, advance, *model, *controller, *gas);
            }
            assert(rest_i.children == run_children(orig, i + 1, advance, *model, *controller, *gas).children.update(i as int, r.node));
            let ghost rest_next = run_children(orig, i + 1, advance, *model, *controller, *gas);
            let ghost g_before = glue(trees(before), start as int, i as int, acc, rest_i);
            let ghost g_after = glue(trees(nodes@), start as int, i + 1, acc + r.events, rest_next);
            assert(g_before.children =~= g_after.children);
            assert(g_before.events =~= g_after.events);
            proof {
                acc = acc + r.events;
            }
            i = i + 1;
        } else {
            let ghost g_before = glue(trees(before), start as int, i as int, acc, rest_i);
            assert(g_before.children =~= trees(nodes@));
            assert(g_before.events =~= acc + r.events);
            if child_state == BehaviorTreeState::Waiting || child_state == BehaviorTreeState::NeedsGas {
                *index = Some(i);
            } else {
                *index = None;
            }
            return child_state;
        }
    }
    let ghost rest = run_children(orig, i as int, advance, *model, *controller, *gas);
    let ghost g = glue(trees(nodes@), start as int, i as int, acc, rest);
    assert(g.children =~= trees(nodes@));
    assert(g.events =~= acc);
    *index = None;
    advance
}

/// Resets every node of `nodes`.
fn reset_nodes<L: BehaviorTree>(nodes: &mut Vec<Node<L>>, model: &L::Model)
    ensures
        trees(final(nodes)@) == reset_all(trees(old(nodes)@), *model),
    decreases *old(nodes),
{
    let ghost orig_vec = *nodes;
    let ghost orig_nodes = nodes@;
    let mut i: usize = 0;
    while i < nodes.len()
        invariant
            orig_vec == *old(nodes),
            nodes@.len() == orig_nodes.len(),
            orig_vec@ == orig_nodes,
            forall|j: int| 0 <= j < i ==> nodes@[j]@ == orig_nodes[j]@.reset(*model),
            forall|j: int| i <= j < orig_nodes.len() ==> nodes@[j] == orig_nodes[j],
        decreases nodes.len() - i,
    {
        proof {
            vstd::std_specs::vec::axiom_vec_index_decreases(orig_vec, i as int);
        }
        nodes[i].reset(model);
        i = i + 1;
    }
    assert(trees(nodes@) =~= reset_all(trees(orig_nodes), *model));
}

impl<L: BehaviorTree> Sequence<L> {
    /// A sequence named `name` over `nodes`, starting at the first child.
    pub fn new(name: String, nodes: Vec<Node<L>>) -> (sequence: Self)
        ensures
            Node::Sequence(sequence)@ == (Tree::<L>::Sequence {
                name: name@,
                children: trees(nodes@),
                index: None,
            }),
    {
        Sequence { name, nodes, index: None }
    }
}

impl<L: BehaviorTree> Selector<L> {
    /// A selector named `name` over `nodes`, starting at the first child.
    pub fn new(name: String, nodes: Vec<Node<L>>) -> (selector: Self)
        ensures
            Node::Selector(selector)@ == (Tree::<L>::Selector {
                name: name@,
                children: trees(nodes@),
                index: None,
            }),
    {
        Selector { name, nodes, index: None }
    }
}

impl<L: BehaviorTree> Inverter<L> {
    /// An inverter named `name` over `node`.
    pub fn new(name: String, node: Node<L>) -> (inverter: Self)
        ensures
            Node::Inverter(inverter)@ == (Tree::<L>::Inverter {
                name: name@,
                child: Box::new(node@),
            }),
    {
        Inverter { name, node: Box::new(node) }
    }
}

/// The controller and step budget handed to child `k` when a run of
/// `children` starts at child `i` and every child before `k` passes control on.
pub open spec fn handed_to<L: BehaviorTree>(
    children: Seq<Tree<L>>,
    i: int,
    k: int,
    model: L::Model,
    controller: L::Controller,
    gas: Option<i32>,
) -> (L::Controller, Option<i32>)
    decreases k - i,
{
    if k <= i {
        (controller, gas)
    } else {
        let (c, g) = handed_to(children, i, k - 1, model, controller, gas);
        let r = children[k - 1].resume(model, c, g);
        (r.controller, r.gas)
    }
}

/// The outcome of child `k` in a run of `children` that starts at child `i`.
pub open spec fn outcome_at<L: BehaviorTree>(
    children: Seq<Tree<L>>,
    i: int,
    k: int,
    model: L::Model,
    controller: L::Controller,
    gas: Option<i32>,
) -> BehaviorTreeState {
    let (c, g) = handed_to(children, i, k, model, controller, gas);
    children[k].resume(model, c, g).state
}

proof fn lemma_handed_to_shift<L: BehaviorTree>(
    children: Seq<Tree<L>>,
    i: int,
    k: int,
    model: L::Model,
    controller: L::Controller,
    gas: Option<i32>,
)
    requires
        i < k,
    ensures
        ({
            let r = children[i].resume(model, controller, gas);
            handed_to(children, i + 1, k, model, r.controller, r.gas) == handed_to(
                children,
                i,
                k,
                model,
                controller,
                gas,
            )
        }),
    decreases k - i,
{
    reveal_with_fuel(handed_to, 2);
    if k > i + 1 {
        lemma_handed_to_shift(children, i, k - 1, model, controller, gas);
    }
}

proof fn lemma_run_stops_at<L: BehaviorTree>(
    children: Seq<Tree<L>>,
    i: int,
    k: int,
    advance: BehaviorTreeState,
    model: L::Model,
    controller: L::Controller,
    gas: Option<i32>,
)
    requires
        0 <= i <= k < children.len(),
        forall|j: int| i <= j < k ==> outcome_at(children, i, j, model, controller, gas) == advance,
        outcome_at(children, i, k, model, controller, gas) != advance,
    ensures
        ({
            let run = run_children(children, i, advance, model, controller, gas);
            let stop = outcome_at(children, i, k, model, controller, gas);
            &&& run.state == stop
            &&& run.index == if stop.is_pause() {
                Some(k as usize)
            } else {
                None::<usize>
            }
            &&& run.children.len() == children.len()
            &&& forall|j: int|
                0 <= j < children.len() && (j < i || k < j) ==> #[trigger] run.children[j]
                    == children[j]
        }),
    decreases k - i,
{
    let r = children[i].resume(model, controller, gas);
    lemma_run_children_len(children, i, advance, model, controller, gas);
    if i < k {
        lemma_run_children_len(children, i + 1, advance, model, r.controller, r.gas);
        assert(outcome_at(children, i, i, model, controller, gas) == advance);
        assert forall|j: int| i + 1 <= j < k implies #[trigger] outcome_at(
            children,
            i + 1,
            j,
            model,
            r.controller,
            r.gas,
        ) == advance by {
            lemma_handed_to_shift(children, i, j, model, controller, gas);
            assert(outcome_at(children, i, j, model, controller, gas) == advance);
        }
        lemma_handed_to_shift(children, i, k, model, controller, gas);
        lemma_run_stops_at(children, i + 1, k, advance, model, r.controller, r.gas);
    }
}

/// In one call of a sequence that resumes at child `i`: when children
/// `i..k-1` complete and child `k` does not, the sequence reports the outcome
/// of child `k`, and it remembers position `k` exactly when that outcome is
/// `Waiting` or `NeedsGas`. The children after `k` are not run.
pub proof fn sequence_reports_first_unfinished_child<L: BehaviorTree>(
    name: Seq<char>,
    children: Seq<Tree<L>>,
    index: Option<usize>,
    k: int,
    model: L::Model,
    controller: L::Controller,
    gas: Option<i32>,
)
    requires
        start_index(index) <= k < children.len(),
        forall|j: int|
            start_index(index) <= j < k ==> outcome_at(
                children,
                start_index(index),
                j,
                model,
                controller,
                gas,
            ) == BehaviorTreeState::Complete,
        outcome_at(children, start_index(index), k, model, controller, gas)
            != BehaviorTreeState::Complete,
    ensures
        ({
            let r = (Tree::Sequence { name, children, index }).resume(model, controller, gas);
            let stop = outcome_at(children, start_index(index), k, model, controller, gas);
            &&& r.state == stop
            &&& r.node is Sequence
            &&& r.node->Sequence_index == if stop.is_pause() {
                Some(k as usize)
            } else {
                None::<usize>
            }
            &&& forall|j: int|
                k < j < children.len() ==> #[trigger] r.node->Sequence_children[j] == children[j]
        }),
{
    lemma_run_stops_at(
        children,
        start_index(index),
        k,
        BehaviorTreeState::Complete,
        model,
        controller,
        gas,
    );
}

/// In one call of a selector that resumes at child `i`: when children
/// `i..k-1` fail and child `k` does not, the selector reports the outcome of
/// child `k` without trying a later child, and it remembers position `k`
/// exactly when that outcome is `Waiting` or `NeedsGas`. The children after
/// `k` are not run.
pub proof fn selector_reports_first_unfailed_child<L: BehaviorTree>(
    name: Seq<char>,
    children: Seq<Tree<L>>,
    index: Option<usize>,
    k: int,
    model: L::Model,
    controller: L::Controller,
    gas: Option<i32>,
)
    requires
        start_index(index) <= k < children.len(),
        forall|j: int|
            start_index(index) <= j < k ==> outcome_at(
                children,
                start_index(index),
                j,
                model,
                controller,
                gas,
            ) == BehaviorTreeState::Failed,
        outcome_at(children, start_index(index), k, model, controller, gas)
            != BehaviorTreeState::Failed,
    ensures
        ({
            let r = (Tree::Selector { name, children, index }).resume(model, controller, gas);
            let stop = outcome_at(children, start_index(index), k, model, controller, gas);
            &&& r.state == stop
            &&& r.node is Selector
            &&& r.node->Selector_index == if stop.is_pause() {
                Some(k as usize)
            } else {
                None::<usize>
            }
            &&& forall|j: int|
                k < j < children.len() ==> #[trigger] r.node->Selector_children[j] == children[j]
        }),
{
    lemma_run_stops_at(
        children,
        start_index(index),
        k,
        BehaviorTreeState::Failed,
        model,
        controller,
        gas,
    );
}

/// An inverter reports `Failed` when its child completes and `Complete` when
/// its child fails; `Waiting` and `NeedsGas` pass through unchanged, and so do
/// the child's intents.
pub proof fn inverter_flips_terminal_outcomes<L: BehaviorTree>(
    name: Seq<char>,
    child: Tree<L>,
    model: L::Model,
    controller: L::Controller,
    gas: Option<i32>,
)
    ensures
        ({
            let r = (Tree::Inverter { name, child: Box::new(child) }).resume(model, controller, gas);
            let c = child.resume(model, controller, gas);
            &&& c.state == BehaviorTreeState::Complete ==> r.state == BehaviorTreeState::Failed
            &&& c.state == BehaviorTreeState::Failed ==> r.state == BehaviorTreeState::Complete
            &&& c.state == BehaviorTreeState::Waiting ==> r.state == BehaviorTreeState::Waiting
            &&& c.state == BehaviorTreeState::NeedsGas ==> r.state == BehaviorTreeState::NeedsGas
            &&& r.controller == c.controller
        }),
{
}

/// No composite anywhere in the tree remembers a child index.
pub open spec fn without_progress<L: BehaviorTree>(t: Tree<L>) -> bool
    decreases t,
{
    match t {
        Tree::Sequence { children, index, .. } => index is None && forall|j: int|
            0 <= j < children.len() ==> without_progress(#[trigger] children[j]),
        Tree::Selector { children, index, .. } => index is None && forall|j: int|
            0 <= j < children.len() ==> without_progress(#[trigger] children[j]),
        Tree::Inverter { child, .. } => without_progress(*child),
        Tree::Leaf(_) => true,
    }
}

/// Resetting a tree clears the progress of every descendant composite, so
/// the next call of a sequence or selector starts at its first child, whatever
/// index it remembered before.
pub proof fn reset_clears_progress<L: BehaviorTree>(t: Tree<L>, model: L::Model)
    ensures
        without_progress(t.reset(model)),
        t.reset(model) is Sequence ==> start_index(t.reset(model)->Sequence_index) == 0,
        t.reset(model) is Selector ==> start_index(t.reset(model)->Selector_index) == 0,
    decreases t,
{
    match t {
        Tree::Sequence { children, .. } => {
            let reset_children = reset_all(children, model);
            assert forall|j: int| 0 <= j < reset_children.len() implies without_progress(
                #[trigger] reset_children[j],
            ) by {
                reset_clears_progress(children[j], model);
            }
        },
        Tree::Selector { children, .. } => {
            let reset_children = reset_all(children, model);
            assert forall|j: int| 0 <= j < reset_children.len() implies without_progress(
                #[trigger] reset_children[j],
            ) by {
                reset_clears_progress(children[j], model);
            }
        },
        Tree::Inverter { child, .. } => {
            reset_clears_progress(*child, model);
        },
        Tree::Leaf(_) => {},
    }
}

/// Resetting a tree twice leaves it as resetting it once.
pub proof fn reset_is_idempotent<L: BehaviorTree>(t: Tree<L>, model: L::Model)
    ensures
        t.reset(model).reset(model) == t.reset(model),
    decreases t,
{
    match t {
        Tree::Sequence { children, .. } => {
            let once = reset_all(children, model);
            assert forall|j: int| 0 <= j < once.len() implies #[trigger] reset_all(once, model)[j]
                == once[j] by {
                reset_is_idempotent(children[j], model);
            }
            assert(reset_all(once, model) =~= once);
        },
        Tree::Selector { children, .. } => {
            let once = reset_all(children, model);
            assert forall|j: int| 0 <= j < once.len() implies #[trigger] reset_all(once, model)[j]
                == once[j] by {
                reset_is_idempotent(children[j], model);
            }
            assert(reset_all(once, model) =~= once);
        },
        Tree::Inverter { child, .. } => {
            reset_is_idempotent(*child, model);
        },
        Tree::Leaf(leaf) => {
            leaf.lemma_reset_idempotent(model);
        },
    }
}

proof fn lemma_run_exhausts<L: BehaviorTree>(
    children: Seq<Tree<L>>,
    i: int,
    advance: BehaviorTreeState,
    model: L::Model,
    controller: L::Controller,
    gas: Option<i32>,
)
    requires
        0 <= i <= children.len(),
        forall|j: int|
            i <= j < children.len() ==> outcome_at(children, i, j, model, controller, gas)
                == advance,
    ensures
        run_children(children, i, advance, model, controller, gas).state == advance,
        run_children(children, i, advance, model, controller, gas).index is None,
    decreases children.len() - i,
{
    if i < children.len() {
        let r = children[i].resume(model, controller, gas);
        assert(outcome_at(children, i, i, model, controller, gas) == advance);
        assert forall|j: int| i + 1 <= j < children.len() implies #[trigger] outcome_at(
            children,
            i + 1,
            j,
            model,
            r.controller,
            r.gas,
        ) == advance by {
            lemma_handed_to_shift(children, i, j, model, controller, gas);
            assert(outcome_at(children, i, j, model, controller, gas) == advance);
        }
        lemma_run_exhausts(children, i + 1, advance, model, r.controller, r.gas);
    }
}

/// In one call of a sequence that resumes at child `i`: when every child
/// from `i` on completes, the sequence completes and forgets its position.
pub proof fn sequence_completes_when_every_child_completes<L: BehaviorTree>(
    name: Seq<char>,
    children: Seq<Tree<L>>,
    index: Option<usize>,
    model: L::Model,
    controller: L::Controller,
    gas: Option<i32>,
)
    requires
        start_index(index) <= children.len(),
        forall|j: int|
            start_index(index) <= j < children.len() ==> outcome_at(
                children,
                start_index(index),
                j,
                model,
                controller,
                gas,
            ) == BehaviorTreeState::Complete,
    ensures
        ({
            let r = (Tree::Sequence { name, children, index }).resume(model, controller, gas);
            &&& r.state == BehaviorTreeState::Complete
            &&& r.node is Sequence
            &&& r.node->Sequence_index is None
        }),
{
    lemma_run_exhausts(
        children,
        start_index(index),
        BehaviorTreeState::Complete,
        model,
        controller,
        gas,
    );
}

/// In one call of a selector that resumes at child `i`: when every child
/// from `i` on fails, the selector fails and forgets its position.
pub proof fn selector_fails_when_every_child_fails<L: BehaviorTree>(
    name: Seq<char>,
    children: Seq<Tree<L>>,
    index: Option<usize>,
    model: L::Model,
    controller: L::Controller,
    gas: Option<i32>,
)
    requires
        start_index(index) <= children.len(),
        forall|j: int|
            start_index(index) <= j < children.len() ==> outcome_at(
                children,
                start_index(index),
                j,
                model,
                controller,
                gas,
            ) == BehaviorTreeState::Failed,
    ensures
        ({
            let r = (Tree::Selector { name, children, index }).resume(model, controller, gas);
            &&& r.state == BehaviorTreeState::Failed
            &&& r.node is Selector
            &&& r.node->Selector_index is None
        }),
{
    lemma_run_exhausts(children, start_index(index), BehaviorTreeState::Failed, model, controller, gas);
}

/// The character of decimal digit `d`.
pub open spec fn digit_char(d: int) -> char {
    if d == 0 {
        '0'
    } else if d == 1 {
        '1'
    } else if d == 2 {
        '2'
    } else if d == 3 {
        '3'
    } else if d == 4 {
        '4'
    } else if d == 5 {
        '5'
    } else if d == 6 {
        '6'
    } else if d == 7 {
        '7'
    } else if d == 8 {
        '8'
    } else {
        '9'
    }
}

/// The decimal numeral of `n`.
pub open spec fn decimal(n: nat) -> Seq<char>
    decreases n,
{
    if n < 10 {
        seq![digit_char(n as int)]
    } else {
        decimal((n / 10) as nat).push(digit_char((n % 10) as int))
    }
}

/// The name of the child at `position` of a node named `parent`.
pub open spec fn child_name(parent: Seq<char>, position: nat) -> Seq<char> {
    parent + seq!['/'] + decimal(position)
}

proof fn lemma_decimal_len(n: nat)
    ensures
        decimal(n).len() >= 1,
        n >= 10 ==> decimal(n).len() >= 2,
        decimal(n).last() == digit_char((n % 10) as int),
    decreases n,
{
    if n >= 10 {
        lemma_decimal_len((n / 10) as nat);
    }
}

proof fn lemma_decimal_injective(a: nat, b: nat)
    requires
        decimal(a) == decimal(b),
    ensures
        a == b,
    decreases a,
{
    lemma_decimal_len(a);
    lemma_decimal_len(b);
    assert(a % 10 == b % 10);
    if a >= 10 && b >= 10 {
        assert(decimal((a / 10) as nat) =~= decimal(a).drop_last());
        assert(decimal((b / 10) as nat) =~= decimal(b).drop_last());
        lemma_decimal_injective((a / 10) as nat, (b / 10) as nat);
    }
}

/// Children at different positions get different names, and none is named
/// like its parent.
pub proof fn child_names_differ(parent: Seq<char>, i: nat, j: nat)
    ensures
        i != j ==> child_name(parent, i) != child_name(parent, j),
        child_name(parent, i) != parent,
{
    lemma_decimal_len(i);
    if i != j && child_name(parent, i) == child_name(parent, j) {
        let n = parent.len() as int + 1;
        assert(decimal(i) =~= child_name(parent, i).subrange(n, child_name(parent, i).len() as int));
        assert(decimal(j) =~= child_name(parent, j).subrange(n, child_name(parent, j).len() as int));
        lemma_decimal_injective(i, j);
    }
    assert(child_name(parent, i).len() > parent.len());
}

fn append_digit(s: &mut String, d: u32)
    requires
        d < 10,
    ensures
        final(s)@ == old(s)@.push(digit_char(d as int)),
{
    match d {
        0 => {
            s.append("0");
            proof {
                reveal_strlit("0");
            }
        },
        1 => {
            s.append("1");
            proof {
                reveal_strlit("1");
            }
        },
        2 => {
            s.append("2");
            proof {
                reveal_strlit("2");
            }
        },
        3 => {
            s.append("3");
            proof {
                reveal_strlit("3");
            }
        },
        4 => {
            s.append("4");
            proof {
                reveal_strlit("4");
            }
        },
        5 => {
            s.append("5");
            proof {
                reveal_strlit("5");
            }
        },
        6 => {
            s.append("6");
            proof {
                reveal_strlit("6");
            }
        },
        7 => {
            s.append("7");
            proof {
                reveal_strlit("7");
            }
        },
        8 => {
            s.append("8");
            proof {
                reveal_strlit("8");
            }
        },
        9 => {
            s.append("9");
            proof {
                reveal_strlit("9");
            }
        },
        _ => {},
    }
    assert(s@ =~= old(s)@.push(digit_char(d as int)));
}

fn append_decimal(s: &mut String, n: u32)
    ensures
        final(s)@ == old(s)@ + decimal(n as nat),
    decreases n,
{
    if n >= 10 {
        append_decimal(s, n / 10);
    }
    append_digit(s, n % 10);
    assert(s@ =~= old(s)@ + decimal(n as nat));
}

/// The name of the child at `position` of the node named `parent`.
pub fn child_name_of(parent: &String, position: u32) -> (name: String)
    ensures
        name@ == child_name(parent@, position as nat),
{
    let mut name = parent.clone();
    name.append("/");
    proof {
        reveal_strlit("/");
    }
    append_decimal(&mut name, position);
    assert(name@ =~= child_name(parent@, position as nat));
    name
}

} // verus!
