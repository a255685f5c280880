//! The search: edges, node instances, the working state of one run, and
//! the solver that drives it.

use crate::error::{Error, ErrorView};
use crate::eval::{
    evaluated, file_view, optional_file_view, payload_view, quoted, reads_spec, Evaluator,
    EvaluatorView, FileResult, FileView, Payload, PayloadView,
};
use crate::expr::{BagExpr, BagExprView, BagInfo, Capability};
use crate::flag::{
    first_inside, first_outside, interned, lemma_first_outside, Flag, FlagMap, FlagSet, Flags,
};
use crate::nodes::{
    EndOn, EndOnGenericProducer, EndOnProducer, EndOnTerminate, Node, NodeKind, NodeKindView,
    Request,
};
use crate::order::{next_at, EdgeOrder, Pending, WorkingQueue};
use crate::uri::UriView;
use crate::BagRequest;
use core::marker::PhantomData;
use vstd::prelude::*;

verus! {

/// The mathematical content of an [`EdgeBuilder`].
pub struct EdgeView {
    pub priority: i32,
    pub satis: Set<Flag>,
    pub stops: Option<ErrorView>,
    pub value: Option<EvaluatorView>,
}

/// Builds an edge between two nodes.
pub struct EdgeBuilder {
    priority: i32,
    satis: FlagSet,
    stops: Option<Error>,
    value: Option<Evaluator>,
}

impl EdgeBuilder {
    /// What the edge says so far.
    pub closed spec fn view(&self) -> EdgeView {
        EdgeView {
            priority: self.priority,
            satis: self.satis@,
            stops: match self.stops {
                Some(e) => Some(e@),
                None => None,
            },
            value: match self.value {
                Some(ev) => Some(ev@),
                None => None,
            },
        }
    }

    /// The declared flags are held without duplicates.
    pub closed spec fn wf(&self) -> bool {
        self.satis.wf()
    }

    /// An edge of priority 0 that declares no flag, is not stopped and has
    /// the trivial evaluator.
    pub fn new() -> (edge: EdgeBuilder)
        ensures
            edge.wf(),
            edge@ == (EdgeView { priority: 0, satis: Set::empty(), stops: None, value: None }),
    {
        EdgeBuilder { priority: 0, satis: FlagSet::new(), stops: None, value: None }
    }

    /// For the reason `err`, this edge does not exist between the two nodes.
    pub fn stop(&mut self, err: Error)
        ensures
            final(self).wf() == old(self).wf(),
            final(self)@ == (EdgeView { stops: Some(err@), ..old(self)@ }),
    {
        self.stops = Some(err);
    }

    /// Sets how the payload of the new node is made from its parent's.
    pub fn value(&mut self, eval: Evaluator)
        ensures
            final(self).wf() == old(self).wf(),
            final(self)@ == (EdgeView { value: Some(eval@), ..old(self)@ }),
    {
        self.value = Some(eval);
    }

    /// Sets the exploration priority.
    pub fn priority(&mut self, priority: i32)
        ensures
            final(self).wf() == old(self).wf(),
            final(self)@ == (EdgeView { priority, ..old(self)@ }),
    {
        self.priority = priority;
    }

    /// Declares that a path over this edge satisfies `flag`.
    pub fn satisfies_flag(&mut self, flag: Flag)
        requires
            old(self).wf(),
        ensures
            final(self).wf(),
            final(self)@ == (EdgeView { satis: old(self)@.satis.insert(flag), ..old(self)@ }),
    {
        self.satis.insert(flag);
    }

    /// Declares that a path over this edge satisfies each of `flags`.
    pub fn satisfies_flags(&mut self, flags: &Vec<Flag>)
        requires
            old(self).wf(),
        ensures
            final(self).wf(),
            final(self)@ == (EdgeView {
                satis: old(self)@.satis.union(flags@.to_set()),
                ..old(self)@
            }),
    {
        self.satis.extend(flags);
    }

    /// Declares that a path over this edge satisfies the flag named `flag`,
    /// which is interned in `flags`.
    pub fn satisfies(&mut self, flags: &mut Flags, flag: &str)
        requires
            old(self).wf(),
            old(flags).wf(),
        ensures
            final(self).wf(),
            final(flags).wf(),
            final(flags).names() == interned(old(flags).names(), flag@).0,
            final(self)@ == (EdgeView {
                satis: old(self)@.satis.insert(Flag::at(interned(old(flags).names(), flag@).1)),
                ..old(self)@
            }),
    {
        let f = Flag::from_str(flags, flag);
        self.satisfies_flag(f);
    }

    /// Adds the node `n` that this edge leads to: see [`emitted`].
    fn build(self, n: NodeKind, es: &mut Edges)
        requires
            self.wf(),
            n.wf(),
            old(es).wf(),
        ensures
            final(es).wf(),
            final(es)@ == emitted(old(es)@, n@, self@),
    {
        if es.emitted.len() >= usize::MAX - es.base {
            return ;
        }
        let EdgeBuilder { priority, satis, stops, value } = self;
        // stop if forbidden flag
        let stops = match es.forbidden.first_common(&satis) {
            Some(f) => Some(Error::Forbidden(f)),
            None => stops,
        };
        let stopped = stops.is_some();
        // value function
        let value = match stops {
            Some(e) => Err(e),
            None => match value {
                Some(f) => Ok(f),
                None => Ok(Evaluator::Trivial),
            },
        };
        // build true set of satisfied flags
        let mut satisfies = es.inherited.duplicate();
        satisfies.extend_common(&satis, es.required);
        let satis_count = saturate(satisfies.len());
        // create new node instance
        let index = es.base + es.emitted.len();
        let node = NodeInstance { data: n, parent: es.parent, satisfies, declared: satis, value };
        let ghost before = es@;
        assert(node@ == built(
            n@,
            self@,
            before.parent,
            before.inherited,
            before.required,
            before.forbidden,
        ));
        es.emitted.push(Some(node));
        // add to explore queue
        es.pending.push((EdgeOrder { active: !stopped, satisfies: satis_count, priority }, index));
        proof {
            assert(es@.emitted =~= before.emitted.push(node@));
        }
    }
}

/// `n` as a count of satisfied flags: `n` itself, or the greatest count
/// there is where `n` is beyond it.
pub open spec fn count_of(n: nat) -> u32 {
    if n <= u32::MAX {
        n as u32
    } else {
        u32::MAX
    }
}

/// `n` as a count of satisfied flags.
fn saturate(n: usize) -> (count: u32)
    ensures
        count == count_of(n as nat),
{
    if n > 0xffff_ffff {
        0xffff_ffff
    } else {
        n as u32
    }
}

/// The mathematical content of a [`NodeInstance`].
pub struct NodeView {
    pub data: NodeKindView,
    pub parent: nat,
    pub satisfies: Set<Flag>,
    pub declared: Set<Flag>,
    pub value: Result<EvaluatorView, ErrorView>,
}

/// One node made during a run.
pub struct NodeInstance {
    data: NodeKind,
    parent: usize,
    satisfies: FlagSet,
    declared: FlagSet,
    value: Result<Evaluator, Error>,
}

impl NodeInstance {
    /// What the node holds.
    pub closed spec fn view(&self) -> NodeView {
        NodeView {
            data: self.data@,
            parent: self.parent as nat,
            satisfies: self.satisfies@,
            declared: self.declared@,
            value: match self.value {
                Ok(ev) => Ok(ev@),
                Err(e) => Err(e@),
            },
        }
    }

    /// The flag sets and the node's data are well formed.
    pub closed spec fn wf(&self) -> bool {
        &&& self.satisfies.wf()
        &&& self.declared.wf()
        &&& self.data.wf()
    }

    /// The node's kind and data.
    pub closed spec fn kind_spec(&self) -> &NodeKind {
        &self.data
    }

    /// The node's kind and data.
    pub fn kind(&self) -> (kind: &NodeKind)
        ensures
            kind == self.kind_spec(),
            kind@ == self@.data,
            self.wf() ==> kind.wf(),
    {
        &self.data
    }

    /// The node as a node of type `N`, if it is one.
    pub fn downcast_ref<N: Node>(&self) -> (node: Option<&N>)
        ensures
            node == N::of_kind(self.kind_spec()),
    {
        N::downcast_ref(&self.data)
    }

    /// Whether the node is a node of type `N`.
    pub fn is<N: Node>(&self) -> (yes: bool)
        ensures
            yes == (N::of_kind(self.kind_spec()) is Some),
    {
        N::downcast_ref(&self.data).is_some()
    }

    /// The index of the node's parent.
    pub fn parent(&self) -> (parent: usize)
        ensures
            parent == self@.parent,
    {
        self.parent
    }

    /// The required flags that the path to this node satisfies.
    pub fn satisfies(&self) -> (flags: &FlagSet)
        ensures
            flags@ == self@.satisfies,
            self.wf() ==> flags.wf(),
    {
        &self.satisfies
    }

    /// The flags that the edge into this node declared.
    pub fn declared(&self) -> (flags: &FlagSet)
        ensures
            flags@ == self@.declared,
            self.wf() ==> flags.wf(),
    {
        &self.declared
    }

    /// Whether the edge into this node exists.
    pub fn active(&self) -> (active: bool)
        ensures
            active == (self@.value is Ok),
    {
        self.value.is_ok()
    }
}

/// The node that an edge leads to. An edge that declares a forbidden flag
/// is stopped, by the first such flag in the order in which the request
/// forbids them, whatever the rule said. A stopped edge carries its reason
/// in place of an evaluator. Of the flags the edge declares, those that the
/// request requires are added to what the parent satisfies.
pub open spec fn built(
    kind: NodeKindView,
    edge: EdgeView,
    parent: nat,
    inherited: Set<Flag>,
    required: Set<Flag>,
    forbidden: Seq<Flag>,
) -> NodeView {
    let stops = match first_inside(forbidden, edge.satis) {
        Some(f) => Some(ErrorView::Forbidden(f)),
        None => edge.stops,
    };
    NodeView {
        data: kind,
        parent,
        satisfies: inherited.union(edge.satis.intersect(required)),
        declared: edge.satis,
        value: match stops {
            Some(e) => Err(e),
            None => match edge.value {
                Some(ev) => Ok(ev),
                None => Ok(EvaluatorView::Trivial),
            },
        },
    }
}

/// The key under which a node is scheduled.
pub open spec fn key_of(node: NodeView, priority: i32) -> EdgeOrder {
    EdgeOrder {
        active: node.value is Ok,
        satisfies: count_of(node.satisfies.len()),
        priority,
    }
}

/// The mathematical content of [`Edges`].
pub struct EdgesView {
    /// The index of the node that is being expanded.
    pub parent: nat,
    /// The index that the first emitted node gets.
    pub base: nat,
    /// What the path to the parent satisfies.
    pub inherited: Set<Flag>,
    /// What the request requires.
    pub required: Set<Flag>,
    /// What the request forbids, in the request's order.
    pub forbidden: Seq<Flag>,
    /// The nodes emitted so far.
    pub emitted: Seq<NodeView>,
    /// Their keys and indices.
    pub pending: Seq<Pending>,
}

/// The edges after one more is added. The new node gets the next index and
/// is scheduled under its key. Once the indices are used up, nothing is
/// added.
pub open spec fn emitted(es: EdgesView, kind: NodeKindView, edge: EdgeView) -> EdgesView {
    if es.base + es.emitted.len() >= usize::MAX {
        es
    } else {
        let node = built(kind, edge, es.parent, es.inherited, es.required, es.forbidden);
        EdgesView {
            emitted: es.emitted.push(node),
            pending: es.pending.push(
                (key_of(node, edge.priority), (es.base + es.emitted.len()) as usize),
            ),
            ..es
        }
    }
}

/// Collects the edges that rules add to the node that is being expanded.
pub struct Edges<'work> {
    required: &'work FlagSet,
    forbidden: &'work FlagSet,
    inherited: &'work FlagSet,
    parent: usize,
    base: usize,
    emitted: Vec<Option<NodeInstance>>,
    pending: Vec<Pending>,
}

impl<'work> Edges<'work> {
    /// What has been collected, and for which node.
    pub closed spec fn view(&self) -> EdgesView {
        EdgesView {
            parent: self.parent as nat,
            base: self.base as nat,
            inherited: self.inherited@,
            required: self.required@,
            forbidden: self.forbidden.order(),
            emitted: self.emitted@.map_values(|slot: Option<NodeInstance>| slot->Some_0@),
            pending: self.pending@,
        }
    }

    /// Each emitted node is there and well formed, and the indices fit.
    pub closed spec fn wf(&self) -> bool {
        &&& self.required.wf()
        &&& self.forbidden.wf()
        &&& self.inherited.wf()
        &&& self.base + self.emitted@.len() <= usize::MAX
        &&& self.pending@.len() == self.emitted@.len()
        &&& forall|i: int|
            0 <= i < self.emitted@.len() ==> (#[trigger] self.emitted@[i]) is Some
                && self.emitted@[i]->Some_0.wf()
    }

    /// Adds an edge from the node that is being expanded to a new node
    /// `node`.
    pub fn add(&mut self, node: NodeKind, edge: EdgeBuilder)
        requires
            old(self).wf(),
            node.wf(),
            edge.wf(),
        ensures
            final(self).wf(),
            final(self)@ == emitted(old(self)@, node@, edge@),
    {
        edge.build(node, self)
    }
}


/// An edge that a rule proposes: the kind of the new node, and the edge to
/// it.
pub type Proposal = (NodeKindView, EdgeView);

/// The edges after each of `more` is added in turn.
pub open spec fn emitted_all(es: EdgesView, more: Seq<Proposal>) -> EdgesView
    decreases more.len(),
{
    if more.len() == 0 {
        es
    } else {
        emitted(emitted_all(es, more.drop_last()), more.last().0, more.last().1)
    }
}

/// Adding a run of edges and one more is adding the run, then the one.
pub proof fn lemma_emitted_push(es: EdgesView, more: Seq<Proposal>, last: Proposal)
    ensures
        emitted_all(es, more.push(last)) == emitted(emitted_all(es, more), last.0, last.1),
{
    assert(more.push(last).drop_last() =~= more);
}

/// Adding a run of one edge is adding the edge.
pub proof fn lemma_emitted_one(es: EdgesView, only: Proposal)
    ensures
        emitted_all(es, seq![only]) == emitted(es, only.0, only.1),
{
    lemma_emitted_push(es, Seq::empty(), only);
    assert(seq![only] =~= Seq::<Proposal>::empty().push(only));
}

/// Adding a run of two edges is adding the first, then the second.
pub proof fn lemma_emitted_two(es: EdgesView, first: Proposal, second: Proposal)
    ensures
        emitted_all(es, seq![first, second]) == emitted(
            emitted(es, first.0, first.1),
            second.0,
            second.1,
        ),
{
    lemma_emitted_one(es, first);
    lemma_emitted_push(es, seq![first], second);
    assert(seq![first, second] =~= seq![first].push(second));
}

/// Adding two runs of edges one after the other is adding them joined.
pub proof fn lemma_emitted_all_concat(es: EdgesView, first: Seq<Proposal>, second: Seq<Proposal>)
    ensures
        emitted_all(emitted_all(es, first), second) == emitted_all(es, first + second),
    decreases second.len(),
{
    if second.len() == 0 {
        assert(first + second =~= first);
    } else {
        lemma_emitted_all_concat(es, first, second.drop_last());
        assert((first + second).drop_last() =~= first + second.drop_last());
        assert((first + second).last() == second.last());
    }
}

/// What a rule sees of the node that is being expanded.
pub struct NodeInput<'work> {
    pub span: proc_macro2::Span,
    pub args: &'work FlagMap,
    pub node: &'work NodeKind,
}

impl<'work> NodeInput<'work> {
    /// The argument that the request gives under `name`, if it gives one.
    pub fn arg(&self, name: Flag) -> (value: Option<&String>)
        ensures
            value is Some <==> self.args@.contains_key(name),
            value matches Some(v) ==> v@ == self.args@[name],
    {
        self.args.get(&name)
    }
}

/// A transformation rule: for a node of a kind it knows, the edges that
/// lead on from it; for any other node, none.
pub trait TransformInstance {
    /// The edges that the rule adds to a node, in order. A rule that does
    /// not say adds none.
    open spec fn edges(&self, args: Map<Flag, Seq<char>>, node: NodeKindView) -> Seq<Proposal> {
        Seq::empty()
    }

    /// Adds the rule's edges for the node `input` to `edges`.
    fn apply(&self, input: &NodeInput, edges: &mut Edges)
        requires
            input.node.wf(),
            old(edges).wf(),
        ensures
            final(edges).wf(),
            final(edges)@ == emitted_all(old(edges)@, self.edges(input.args@, input.node@)),
    ;
}

/// An edge as a rule writes it: the kind of the new node, and the edge to
/// it.
pub type Proposed = (NodeKind, EdgeBuilder);

/// The content of some edges as a rule writes them.
pub open spec fn proposed_view(out: Seq<Proposed>) -> Seq<Proposal> {
    out.map_values(|p: Proposed| (p.0@, p.1@))
}

/// Each of the edges, and the node it leads to, is well formed.
pub open spec fn proposed_wf(out: Seq<Proposed>) -> bool {
    forall|i: int| 0 <= i < out.len() ==> (#[trigger] out[i]).0.wf() && out[i].1.wf()
}

/// Transform instance from a closure: a rule for nodes of type `N`, whose
/// edges the closure writes, given the node and the arguments of the
/// request.
pub struct FnTransform<N: Node, F: Fn(&N, &FlagMap) -> Vec<Proposed>> {
    func: F,
    _ph: PhantomData<N>,
}

impl<N: Node, F: Fn(&N, &FlagMap) -> Vec<Proposed>> FnTransform<N, F> {
    /// What is asked of the closure: it takes every node and every
    /// arguments; what it writes is well formed; and what it writes goes by
    /// the content of the node and of the arguments alone.
    pub open spec fn lawful(func: F) -> bool {
        &&& forall|n: &N, args: &FlagMap| #[trigger] call_requires(func, (n, args))
        &&& forall|n: &N, args: &FlagMap, out: Vec<Proposed>| #[trigger]
            call_ensures(func, (n, args), out) ==> proposed_wf(out@)
        &&& forall|
            n1: &N,
            a1: &FlagMap,
            o1: Vec<Proposed>,
            n2: &N,
            a2: &FlagMap,
            o2: Vec<Proposed>,
        |
            #![trigger call_ensures(func, (n1, a1), o1), call_ensures(func, (n2, a2), o2)]
            call_ensures(func, (n1, a1), o1) && call_ensures(func, (n2, a2), o2) && n1.kind()@
                == n2.kind()@ && a1@ == a2@ ==> proposed_view(o1@) == proposed_view(o2@)
    }

    /// The closure is lawful.
    #[verifier::type_invariant]
    closed spec fn inv(&self) -> bool {
        Self::lawful(self.func)
    }

    /// Whether the closure may write `out` for a node and arguments of this
    /// content.
    pub closed spec fn writes(&self, args: Map<Flag, Seq<char>>, node: NodeKindView, out: Vec<Proposed>) -> bool {
        exists|n: &N, a: &FlagMap| #[trigger]
            call_ensures(self.func, (n, a), out) && n.kind()@ == node && a@ == args
    }

    /// The closure that writes the edges.
    pub closed spec fn closure(&self) -> F {
        self.func
    }

    /// A rule from a closure.
    pub fn new(func: F) -> (rule: Self)
        requires
            Self::lawful(func),
        ensures
            rule.closure() == func,
    {
        FnTransform { func, _ph: PhantomData }
    }

    /// The edges of the rule are what its closure writes: for a node of
    /// type `N`, the content of whatever the closure may return for it.
    pub proof fn lemma_edges(&self, n: &N, args: &FlagMap, out: Vec<Proposed>)
        requires
            Self::lawful(self.closure()),
            call_ensures(self.closure(), (n, args), out),
        ensures
            self.edges(args@, n.kind()@) == proposed_view(out@),
    {
        assert(self.writes(args@, n.kind()@, out));
        let chosen = choose|o: Vec<Proposed>| self.writes(args@, n.kind()@, o);
        let (m, a) = choose|m: &N, a: &FlagMap| #[trigger]
            call_ensures(self.func, (m, a), chosen) && m.kind()@ == n.kind()@ && a@ == args@;
    }

    /// For a node that is none of type `N`, the rule has no edges.
    pub proof fn lemma_no_edges(&self, args: Map<Flag, Seq<char>>, kind: &NodeKind)
        requires
            N::of_kind(kind) is None,
        ensures
            self.edges(args, kind@) == Seq::<Proposal>::empty(),
    {
        assert forall|out: Vec<Proposed>| !self.writes(args, kind@, out) by {
            if self.writes(args, kind@, out) {
                let (n, a) = choose|n: &N, a: &FlagMap| #[trigger]
                    call_ensures(self.func, (n, a), out) && n.kind()@ == kind@ && a@ == args;
                N::lemma_kind(kind, *n);
            }
        }
    }
}

impl<N: Node, F: Fn(&N, &FlagMap) -> Vec<Proposed>> TransformInstance for FnTransform<N, F> {
    closed spec fn edges(&self, args: Map<Flag, Seq<char>>, node: NodeKindView) -> Seq<Proposal> {
        if exists|out: Vec<Proposed>| self.writes(args, node, out) {
            proposed_view((choose|out: Vec<Proposed>| self.writes(args, node, out))@)
        } else {
            Seq::empty()
        }
    }

    fn apply(&self, input: &NodeInput, edges: &mut Edges) {
        proof {
            use_type_invariant(self);
        }
        let ghost want = self.edges(input.args@, input.node@);
        let ghost start = edges@;
        let data = match N::downcast_ref(input.node) {
            Some(m) => m,
            None => {
                proof {
                    self.lemma_no_edges(input.args@, input.node);
                }
                return ;
            },
        };
        let mut out = (self.func)(data, input.args);
        proof {
            N::lemma_kind(input.node, *data);
            self.lemma_edges(data, input.args, out);
        }
        let ghost all = out@;
        // turn the edges round, so that they can be taken from the end
        let mut rev: Vec<Proposed> = Vec::new();
        while out.len() > 0
            invariant
                out@.len() + rev@.len() == all.len(),
                out@ == all.take(out@.len() as int),
                forall|j: int| 0 <= j < rev@.len() ==> rev@[j] == all[all.len() - 1 - j],
            decreases out.len(),
        {
            let p = out.pop().unwrap();
            rev.push(p);
        }
        let ghost n = all.len();
        while rev.len() > 0
            invariant
                rev@.len() <= n,
                n == all.len(),
                want == proposed_view(all),
                proposed_wf(all),
                forall|j: int| 0 <= j < rev@.len() ==> rev@[j] == all[n - 1 - j],
                edges.wf(),
                edges@ == emitted_all(start, want.take(n - rev@.len())),
            decreases rev.len(),
        {
            let ghost k = n - rev@.len();
            let (kind, edge) = rev.pop().unwrap();
            proof {
                assert((kind, edge) == all[k]);
                assert(want[k] == (kind@, edge@));
                assert(want.take(k + 1) =~= want.take(k).push(want[k]));
                lemma_emitted_push(start, want.take(k), want[k]);
            }
            edges.add(kind, edge);
        }
        proof {
            assert(want.take(n as int) =~= want);
        }
    }
}


/// The edges that the first `upto` of `rules` add to a node, in the order
/// in which the rules were registered.
pub open spec fn proposals<R: TransformInstance>(
    rules: Seq<R>,
    upto: nat,
    args: Map<Flag, Seq<char>>,
    node: NodeKindView,
) -> Seq<Proposal>
    decreases upto,
{
    if upto == 0 || upto > rules.len() {
        Seq::empty()
    } else {
        proposals(rules, (upto - 1) as nat, args, node) + rules[upto - 1].edges(args, node)
    }
}

/// What a run has made so far: its nodes, and those that wait to be
/// explored.
pub struct SearchView {
    pub nodes: Seq<NodeView>,
    pub queue: Seq<Pending>,
}

/// What a run is given and never changes.
pub struct RunView {
    pub args: Map<Flag, Seq<char>>,
    pub target: Set<Capability>,
    /// The required flags, in the request's order.
    pub required: Seq<Flag>,
    /// The forbidden flags, in the request's order.
    pub forbidden: Seq<Flag>,
}

/// The edges of node `node` before any rule has added one.
pub open spec fn no_edges(run: RunView, state: SearchView, node: nat) -> EdgesView {
    EdgesView {
        parent: node,
        base: state.nodes.len(),
        inherited: state.nodes[node as int].satisfies,
        required: run.required.to_set(),
        forbidden: run.forbidden,
        emitted: Seq::empty(),
        pending: Seq::empty(),
    }
}

/// The state after node `node` is expanded: every rule, in registration
/// order, adds its edges; the new nodes follow the old ones and are
/// scheduled behind all that is pending.
pub open spec fn expanded<R: TransformInstance>(
    run: RunView,
    rules: Seq<R>,
    state: SearchView,
    node: nat,
) -> SearchView {
    let es = emitted_all(
        no_edges(run, state, node),
        proposals(rules, rules.len(), run.args, state.nodes[node as int].data),
    );
    SearchView { nodes: state.nodes + es.emitted, queue: state.queue + es.pending }
}

/// How a node hangs on its parent: it satisfies what the parent does and
/// what its own edge declares of the required flags, and its edge is
/// stopped if it declares a forbidden flag.
pub open spec fn linked(
    node: NodeView,
    parent: NodeView,
    required: Set<Flag>,
    forbidden: Set<Flag>,
) -> bool {
    &&& node.satisfies == parent.satisfies.union(node.declared.intersect(required))
    &&& !node.declared.disjoint(forbidden) ==> node.value is Err
}

/// The nodes of a run form a tree under the root at index 0: every other
/// node comes after its parent and hangs on it as [`linked`] says.
pub open spec fn arena_ok(nodes: Seq<NodeView>, required: Set<Flag>, forbidden: Set<Flag>) -> bool {
    &&& nodes.len() > 0
    &&& nodes[0].satisfies == Set::<Flag>::empty()
    &&& forall|i: int|
        0 < i < nodes.len() ==> (#[trigger] nodes[i]).parent < i && linked(
            nodes[i],
            nodes[nodes[i].parent as int],
            required,
            forbidden,
        )
}

/// Every pending entry names a node.
pub open spec fn queue_ok(queue: Seq<Pending>, nodes: nat) -> bool {
    forall|i: int| 0 <= i < queue.len() ==> (#[trigger] queue[i]).1 < nodes
}

/// Edges that are added to a node hang on it.
pub proof fn lemma_emitted_all_linked(es: EdgesView, more: Seq<Proposal>, parent: NodeView)
    requires
        es.inherited == parent.satisfies,
        es.pending.len() == es.emitted.len(),
        forall|i: int|
            0 <= i < es.emitted.len() ==> (#[trigger] es.emitted[i]).parent == es.parent && linked(
                es.emitted[i],
                parent,
                es.required,
                es.forbidden.to_set(),
            ),
        forall|i: int|
            0 <= i < es.pending.len() ==> (#[trigger] es.pending[i]).1 < es.base
                + es.emitted.len(),
    ensures
        ({
            let out = emitted_all(es, more);
            &&& out.parent == es.parent
            &&& out.base == es.base
            &&& out.inherited == es.inherited
            &&& out.required == es.required
            &&& out.forbidden == es.forbidden
            &&& out.pending.len() == out.emitted.len()
            &&& forall|i: int|
                0 <= i < out.emitted.len() ==> (#[trigger] out.emitted[i]).parent == es.parent
                    && linked(out.emitted[i], parent, es.required, es.forbidden.to_set())
            &&& forall|i: int|
                0 <= i < out.pending.len() ==> (#[trigger] out.pending[i]).1 < es.base
                    + out.emitted.len()
        }),
    decreases more.len(),
{
    if more.len() > 0 {
        lemma_emitted_all_linked(es, more.drop_last(), parent);
        let mid = emitted_all(es, more.drop_last());
        let out = emitted_all(es, more);
        if mid.base + mid.emitted.len() < usize::MAX {
            let node = built(
                more.last().0,
                more.last().1,
                mid.parent,
                mid.inherited,
                mid.required,
                mid.forbidden,
            );
            crate::flag::lemma_first_inside(mid.forbidden, more.last().1.satis);
            assert(linked(node, parent, es.required, es.forbidden.to_set()));
            assert forall|i: int| 0 <= i < out.emitted.len() implies (#[trigger] out.emitted[i]).parent
                == es.parent && linked(out.emitted[i], parent, es.required, es.forbidden.to_set()) by {
                if i < mid.emitted.len() {
                    assert(out.emitted[i] == mid.emitted[i]);
                }
            }
            assert forall|i: int| 0 <= i < out.pending.len() implies (#[trigger] out.pending[i]).1
                < es.base + out.emitted.len() by {
                if i < mid.pending.len() {
                    assert(out.pending[i] == mid.pending[i]);
                }
            }
        }
    }
}

/// Data used during the resolution of a specific asset.
pub struct Working {
    span: proc_macro2::Span,
    args: FlagMap,
    nodes: Vec<Option<NodeInstance>>,
    queue: WorkingQueue,
    target: BagInfo,
    required: FlagSet,
    forbidden: FlagSet,
}

impl Working {
    /// The node slots: a node, or nothing once the node has been taken.
    pub closed spec fn slots(&self) -> Seq<Option<NodeView>> {
        self.nodes@.map_values(
            |slot: Option<NodeInstance>|
                match slot {
                    Some(n) => Some(n@),
                    None => None,
                },
        )
    }

    /// The nodes, where none has been taken.
    pub closed spec fn state(&self) -> SearchView {
        SearchView {
            nodes: self.nodes@.map_values(|slot: Option<NodeInstance>| slot->Some_0@),
            queue: self.queue@,
        }
    }

    /// What the run was given.
    pub closed spec fn run(&self) -> RunView {
        RunView {
            args: self.args@,
            target: self.target@,
            required: self.required.order(),
            forbidden: self.forbidden.order(),
        }
    }

    /// The sets are well formed, and every node that is there is.
    pub closed spec fn wf(&self) -> bool {
        &&& self.required.wf()
        &&& self.forbidden.wf()
        &&& self.target.wf()
        &&& forall|i: int|
            0 <= i < self.nodes@.len() ==> (#[trigger] self.nodes@[i]) is Some
                ==> self.nodes@[i]->Some_0.wf()
    }

    /// No node has been taken yet.
    pub closed spec fn complete(&self) -> bool {
        forall|i: int| 0 <= i < self.nodes@.len() ==> (#[trigger] self.nodes@[i]) is Some
    }

    /// The number of node slots.
    pub fn len(&self) -> (n: usize)
        ensures
            n == self.slots().len(),
    {
        self.nodes.len()
    }

    /// The node in slot `index`, unless it has been taken.
    pub fn node(&self, index: usize) -> (node: Option<&NodeInstance>)
        requires
            index < self.slots().len(),
        ensures
            match node {
                Some(n) => self.slots()[index as int] == Some(n@),
                None => self.slots()[index as int] is None,
            },
    {
        self.nodes[index].as_ref()
    }

    /// The place in the source that the request came from.
    pub closed spec fn span_spec(&self) -> proc_macro2::Span {
        self.span
    }

    /// The place in the source that the request came from.
    pub fn span(&self) -> (span: proc_macro2::Span)
        ensures
            span == self.span_spec(),
    {
        self.span
    }

    /// The arguments of the request.
    pub fn args(&self) -> (args: &FlagMap)
        ensures
            args@ == self.run().args,
    {
        &self.args
    }

    /// The capabilities that the request asks for.
    pub fn target(&self) -> (target: &BagInfo)
        ensures
            target@ == self.run().target,
            self.wf() ==> target.wf(),
    {
        &self.target
    }

    /// The flags that the request requires.
    pub fn required(&self) -> (required: &FlagSet)
        ensures
            required.order() == self.run().required,
            self.wf() ==> required.wf(),
    {
        &self.required
    }

    /// The flags that the request forbids.
    pub fn forbidden(&self) -> (forbidden: &FlagSet)
        ensures
            forbidden.order() == self.run().forbidden,
            self.wf() ==> forbidden.wf(),
    {
        &self.forbidden
    }

    /// Applies every rule to node `node`, and schedules the nodes they add.
    fn expand<R: TransformInstance>(&mut self, transforms: &Vec<R>, node: usize)
        requires
            old(self).wf(),
            old(self).complete(),
            node < old(self).state().nodes.len(),
        ensures
            final(self).wf(),
            final(self).complete(),
            final(self).run() == old(self).run(),
            final(self).span_spec() == old(self).span_spec(),
            final(self).state() == expanded(old(self).run(), transforms@, old(self).state(), node as nat),
    {
        let ghost run = self.run();
        let ghost before = self.state();
        let ghost start = no_edges(run, before, node as nat);
        let parent = match &self.nodes[node] {
            Some(n) => n,
            None => {
                assert(false);
                return ;
            },
        };
        let input = NodeInput { span: self.span, args: &self.args, node: &parent.data };
        let mut edges = Edges {
            required: &self.required,
            forbidden: &self.forbidden,
            inherited: &parent.satisfies,
            parent: node,
            base: self.nodes.len(),
            emitted: Vec::new(),
            pending: Vec::new(),
        };
        assert(edges@.emitted =~= Seq::empty());
        assert(edges@ == start);
        let mut i: usize = 0;
        while i < transforms.len()
            invariant
                i <= transforms.len(),
                input.node.wf(),
                input.args@ == run.args,
                input.node@ == before.nodes[node as int].data,
                edges.wf(),
                edges@ == emitted_all(start, proposals(transforms@, i as nat, run.args, input.node@)),
            decreases transforms.len() - i,
        {
            let ghost sofar = proposals(transforms@, i as nat, run.args, input.node@);
            transforms[i].apply(&input, &mut edges);
            proof {
                lemma_emitted_all_concat(
                    start,
                    sofar,
                    transforms@[i as int].edges(run.args, input.node@),
                );
            }
            i += 1;
        }
        let ghost out = edges@;
        let Edges { emitted, pending, .. } = edges;
        let mut emitted = emitted;
        let ghost old_nodes = self.nodes@;
        self.nodes.append(&mut emitted);
        self.queue.extend(pending);
        proof {
            assert(self.state().nodes =~= before.nodes + out.emitted);
        }
    }
}


/// How to create a bag for a specific asset.
#[derive(Debug)]
pub struct Solution {
    pub bag_expr: BagExpr,
}

/// The content of a solution, or of the failure to make one.
pub open spec fn solution_view(s: Result<Solution, Error>) -> Result<BagExprView, ErrorView> {
    match s {
        Ok(solution) => Ok(solution.bag_expr@),
        Err(e) => Err(e@),
    }
}

/// A condition that ends the search, and the way from the payload of the
/// node that met it to the solution.
pub trait Terminal {
    /// Whether a node of this kind ends the search for this target. A
    /// terminal that does not say ends it on no node.
    open spec fn matches(&self, target: Set<Capability>, node: NodeKindView) -> bool {
        false
    }

    /// Whether node `n` ends the search.
    fn terminate(&self, w: &Working, n: &NodeInstance) -> (hit: bool)
        requires
            w.wf(),
            n.wf(),
        ensures
            hit == self.matches(w.run().target, n@.data),
    ;

    /// The solution that a payload amounts to, for this target. A terminal
    /// that does not say accepts no payload.
    open spec fn extracted(&self, target: Set<Capability>, payload: PayloadView) -> Result<
        BagExprView,
        ErrorView,
    > {
        Err(ErrorView::Cast)
    }

    /// Makes the solution from the payload of the node that ended the
    /// search.
    fn extract(&self, w: Working, payload: Payload) -> (s: Result<Solution, Error>)
        requires
            w.wf(),
        ensures
            solution_view(s) == self.extracted(w.run().target, payload@),
    ;
}

/// The first of `terminals`, from position `from` on, that matches.
pub open spec fn first_match<T: Terminal>(
    terminals: Seq<T>,
    from: nat,
    target: Set<Capability>,
    node: NodeKindView,
) -> Option<nat>
    decreases terminals.len() - from,
{
    if from >= terminals.len() {
        None
    } else if terminals[from as int].matches(target, node) {
        Some(from)
    } else {
        first_match(terminals, from + 1, target, node)
    }
}

/// The terminal that a node meets: the first, in registration order, that
/// matches its kind. A node whose edge is stopped meets none.
pub open spec fn met<T: Terminal>(
    terminals: Seq<T>,
    target: Set<Capability>,
    node: NodeView,
) -> Option<nat> {
    if node.value is Ok {
        first_match(terminals, 0, target, node.data)
    } else {
        None
    }
}

/// `path` before what a backtrace found, where it found a path.
pub open spec fn after(
    path: Seq<NodeView>,
    found: (Seq<Option<NodeView>>, Result<Seq<NodeView>, ErrorView>),
) -> (Seq<Option<NodeView>>, Result<Seq<NodeView>, ErrorView>) {
    (
        found.0,
        match found.1 {
            Ok(rest) => Ok(path + rest),
            Err(e) => Err(e),
        },
    )
}

/// The backtrace from node `from`: the slots afterwards, and the nodes on
/// the way to the root, `from` first and the root left out, or the reason
/// why there is none. Each node on the way is taken out of its slot. The
/// walk ends with a failure at a slot that is empty or out of range, at a
/// node whose edge is stopped, and at a node whose parent does not come
/// before it.
pub open spec fn traced(slots: Seq<Option<NodeView>>, from: nat) -> (
    Seq<Option<NodeView>>,
    Result<Seq<NodeView>, ErrorView>,
)
    decreases from,
{
    if from == 0 {
        (slots, Ok(Seq::empty()))
    } else if from >= slots.len() {
        (slots, Err(ErrorView::BacktraceLoop))
    } else {
        match slots[from as int] {
            None => (slots, Err(ErrorView::BacktraceLoop)),
            Some(node) => {
                let taken = slots.update(from as int, None);
                match node.value {
                    Err(e) => (taken, Err(e)),
                    Ok(_) => if node.parent >= from {
                        (taken, Err(ErrorView::BacktraceLoop))
                    } else {
                        after(seq![node], traced(taken, node.parent))
                    },
                }
            },
        }
    }
}

/// A node can be backtraced once: after a backtrace from a node other than
/// the root, a second one from the same node fails.
pub proof fn lemma_backtrace_single_use(slots: Seq<Option<NodeView>>, from: nat)
    requires
        from != 0,
    ensures
        traced(traced(slots, from).0, from).1 == Err::<Seq<NodeView>, ErrorView>(
            ErrorView::BacktraceLoop,
        ),
{
    let first = traced(slots, from);
    if from < slots.len() {
        lemma_traced_keeps(slots, from);
        if slots[from as int] is Some {
            assert(first.0[from as int] is None);
        }
    }
}

/// A backtrace from `from` leaves the number of slots as it is, changes no
/// slot after `from`, and empties the slot of `from` if it took the node.
pub proof fn lemma_traced_keeps(slots: Seq<Option<NodeView>>, from: nat)
    ensures
        traced(slots, from).0.len() == slots.len(),
        forall|j: int| from < j < slots.len() ==> traced(slots, from).0[j] == slots[j],
        0 < from < slots.len() ==> traced(slots, from).0[from as int] is None,
    decreases from,
{
    if 0 < from < slots.len() {
        if let Some(node) = slots[from as int] {
            let taken = slots.update(from as int, None);
            if node.value is Ok && node.parent < from {
                lemma_traced_keeps(taken, node.parent);
                let out = traced(taken, node.parent).0;
                assert(traced(slots, from).0 == out);
                assert(out[from as int] == taken[from as int]);
                assert forall|j: int| from < j < slots.len() implies out[j] == slots[j] by {
                    assert(out[j] == taken[j]);
                }
            }
        }
    }
}

/// The flags that the edges into the nodes of `path` declare.
pub open spec fn declares(path: Seq<NodeView>) -> Set<Flag> {
    Set::new(|f: Flag| exists|i: int| 0 <= i < path.len() && (#[trigger] path[i]).declared.contains(f))
}

/// No edge into a node of `path` declares a flag of `forbidden`.
pub open spec fn avoids(path: Seq<NodeView>, forbidden: Set<Flag>) -> bool {
    forall|i: int| 0 <= i < path.len() ==> (#[trigger] path[i]).declared.disjoint(forbidden)
}

/// In a well-linked arena, a backtrace that succeeds passes no edge that
/// declares a forbidden flag, and the node it started from satisfies
/// exactly the required flags that the edges on the path declare.
pub proof fn lemma_traced_sound(
    slots: Seq<Option<NodeView>>,
    nodes: Seq<NodeView>,
    from: nat,
    required: Set<Flag>,
    forbidden: Set<Flag>,
)
    requires
        arena_ok(nodes, required, forbidden),
        slots.len() == nodes.len(),
        from < nodes.len(),
        forall|j: int| 0 <= j <= from ==> slots[j] == Some(nodes[j]),
    ensures
        traced(slots, from).1 matches Ok(path) ==> avoids(path, forbidden) && nodes[from as int].satisfies
            == declares(path).intersect(required),
    decreases from,
{
    if from == 0 {
        assert(declares(Seq::<NodeView>::empty()).intersect(required) =~= Set::<Flag>::empty());
    } else {
        let node = nodes[from as int];
        let taken = slots.update(from as int, None);
        if node.value is Ok && node.parent < from {
            lemma_traced_sound(taken, nodes, node.parent, required, forbidden);
            if let Ok(rest) = traced(taken, node.parent).1 {
                let path = seq![node] + rest;
                assert(traced(slots, from).1 == Ok::<Seq<NodeView>, ErrorView>(path));
                assert(linked(node, nodes[node.parent as int], required, forbidden));
                assert forall|i: int| 0 <= i < path.len() implies (#[trigger] path[i]).declared.disjoint(
                    forbidden,
                ) by {
                    if i > 0 {
                        assert(path[i] == rest[i - 1]);
                    }
                }
                assert forall|f: Flag| declares(path).contains(f) <==> (node.declared.contains(f)
                    || declares(rest).contains(f)) by {
                    if declares(path).contains(f) {
                        let i = choose|i: int|
                            0 <= i < path.len() && (#[trigger] path[i]).declared.contains(f);
                        if i > 0 {
                            assert(rest[i - 1].declared.contains(f));
                        }
                    }
                    if node.declared.contains(f) {
                        assert(path[0].declared.contains(f));
                    }
                    if declares(rest).contains(f) {
                        let i = choose|i: int|
                            0 <= i < rest.len() && (#[trigger] rest[i]).declared.contains(f);
                        assert(path[i + 1].declared.contains(f));
                    }
                }
                assert(node.satisfies =~= declares(path).intersect(required));
            }
        }
    }
}

/// The content of a path of nodes.
pub open spec fn path_view(path: Seq<NodeInstance>) -> Seq<NodeView> {
    path.map_values(|n: NodeInstance| n@)
}

/// The content of what a backtrace returned.
pub open spec fn backtrace_view(r: Result<Vec<NodeInstance>, Error>) -> Result<
    Seq<NodeView>,
    ErrorView,
> {
    match r {
        Ok(path) => Ok(path_view(path@)),
        Err(e) => Err(e@),
    }
}

impl Working {
    /// Walks from node `from` to the root and takes each node on the way
    /// out of its slot: see [`traced`].
    pub fn backtrace(&mut self, from: usize) -> (path: Result<Vec<NodeInstance>, Error>)
        requires
            old(self).wf(),
        ensures
            final(self).wf(),
            final(self).run() == old(self).run(),
            final(self).span_spec() == old(self).span_spec(),
            (final(self).slots(), backtrace_view(path)) == traced(old(self).slots(), from as nat),
            path matches Ok(p) ==> forall|i: int| 0 <= i < p@.len() ==> (#[trigger] p@[i]).wf(),
    {
        let ghost start = self.slots();
        let mut path: Vec<NodeInstance> = Vec::new();
        let mut cur = from;
        proof {
            let found = traced(start, from as nat);
            assert(path_view(path@) + found.1->Ok_0 =~= found.1->Ok_0);
        }
        loop
            invariant
                self.wf(),
                self.run() == old(self).run(),
                self.span_spec() == old(self).span_spec(),
                start == old(self).slots(),
                traced(start, from as nat) == after(path_view(path@), traced(self.slots(), cur as nat)),
                forall|i: int| 0 <= i < path@.len() ==> (#[trigger] path@[i]).wf(),
            decreases cur,
        {
            let ghost slots = self.slots();
            let ghost sofar = path_view(path@);
            if cur == 0 {
                assert(sofar + Seq::<NodeView>::empty() =~= sofar);
                return Ok(path);
            }
            if cur >= self.nodes.len() {
                return Err(Error::BacktraceLoop);
            }
            let slot = &mut self.nodes[cur];
            let node = match slot.take() {
                None => {
                    assert(self.slots() =~= slots);
                    return Err(Error::BacktraceLoop);
                },
                Some(node) => node,
            };
            assert(self.slots() =~= slots.update(cur as int, None));
            assert(slots[cur as int] == Some(node@));
            if node.value.is_err() {
                let NodeInstance { value, .. } = node;
                match value {
                    Err(e) => {
                        return Err(e);
                    },
                    Ok(_) => {
                        return Err(Error::BacktraceLoop);
                    },
                }
            }
            if node.parent >= cur {
                return Err(Error::BacktraceLoop);
            }
            proof {
                let rest = traced(self.slots(), node.parent as nat);
                assert(path_view(path@.push(node)) =~= sofar + seq![node@]);
                if let Ok(more) = rest.1 {
                    assert(sofar + (seq![node@] + more) =~= (sofar + seq![node@]) + more);
                }
            }
            cur = node.parent;
            path.push(node);
        }
    }
}


/// How a search ended.
pub enum Outcome {
    /// Nothing is pending and no node was terminal.
    Exhausted,
    /// Node `node` met terminal `terminal`; `state` is the state then.
    Found { state: SearchView, node: nat, terminal: nat },
}

/// The root: the request itself, satisfying nothing, with the trivial
/// payload.
pub open spec fn root(uri: UriView) -> NodeView {
    NodeView {
        data: NodeKindView::Request(uri),
        parent: 0,
        satisfies: Set::empty(),
        declared: Set::empty(),
        value: Ok(EvaluatorView::Trivial),
    }
}

/// The state in which a search starts: the root, scheduled as an active
/// edge with nothing satisfied and priority 0.
pub open spec fn seeded(uri: UriView) -> SearchView {
    SearchView {
        nodes: seq![root(uri)],
        queue: seq![(EdgeOrder { active: true, satisfies: 0, priority: 0 }, 0usize)],
    }
}

/// How the search from `state` ends, if it ends within `fuel` expansions.
/// Each round dequeues the oldest node of the greatest key. If the node
/// meets a terminal, the search ends; if it meets none, the node is
/// expanded.
pub open spec fn searched<R: TransformInstance, T: Terminal>(
    run: RunView,
    rules: Seq<R>,
    terminals: Seq<T>,
    state: SearchView,
    fuel: nat,
) -> Option<Outcome>
    decreases fuel,
{
    if state.queue.len() == 0 {
        Some(Outcome::Exhausted)
    } else {
        let at = next_at(state.queue);
        let node = state.queue[at].1 as nat;
        let rest = SearchView { nodes: state.nodes, queue: state.queue.remove(at) };
        match met(terminals, run.target, state.nodes[node as int]) {
            Some(terminal) => Some(Outcome::Found { state: rest, node, terminal }),
            None => if fuel == 0 {
                None
            } else {
                searched(run, rules, terminals, expanded(run, rules, rest, node), (fuel - 1) as nat)
            },
        }
    }
}

/// A search that ends within some fuel ends the same way with more.
pub proof fn lemma_searched_more<R: TransformInstance, T: Terminal>(
    run: RunView,
    rules: Seq<R>,
    terminals: Seq<T>,
    state: SearchView,
    fuel: nat,
    more: nat,
)
    requires
        searched(run, rules, terminals, state, fuel) is Some,
    ensures
        searched(run, rules, terminals, state, fuel + more) == searched(
            run,
            rules,
            terminals,
            state,
            fuel,
        ),
    decreases fuel,
{
    if state.queue.len() > 0 {
        let at = next_at(state.queue);
        let node = state.queue[at].1 as nat;
        let rest = SearchView { nodes: state.nodes, queue: state.queue.remove(at) };
        if met(terminals, run.target, state.nodes[node as int]) is None {
            lemma_searched_more(
                run,
                rules,
                terminals,
                expanded(run, rules, rest, node),
                (fuel - 1) as nat,
                more,
            );
        }
    }
}

/// Expanding a node keeps the arena a tree and the queue within it, and
/// schedules each node it adds once.
pub proof fn lemma_expanded_ok<R: TransformInstance>(
    run: RunView,
    rules: Seq<R>,
    state: SearchView,
    node: nat,
)
    requires
        arena_ok(state.nodes, run.required.to_set(), run.forbidden.to_set()),
        queue_ok(state.queue, state.nodes.len()),
        node < state.nodes.len(),
    ensures
        ({
            let next = expanded(run, rules, state, node);
            &&& arena_ok(next.nodes, run.required.to_set(), run.forbidden.to_set())
            &&& queue_ok(next.queue, next.nodes.len())
            &&& next.nodes.len() >= state.nodes.len()
            &&& next.nodes.len() - state.nodes.len() == next.queue.len() - state.queue.len()
        }),
{
    let next = expanded(run, rules, state, node);
    let es = emitted_all(
        no_edges(run, state, node),
        proposals(rules, rules.len(), run.args, state.nodes[node as int].data),
    );
    lemma_emitted_all_linked(
        no_edges(run, state, node),
        proposals(rules, rules.len(), run.args, state.nodes[node as int].data),
        state.nodes[node as int],
    );
    assert forall|i: int| 0 < i < next.nodes.len() implies (#[trigger] next.nodes[i]).parent < i
        && linked(
        next.nodes[i],
        next.nodes[next.nodes[i].parent as int],
        run.required.to_set(),
        run.forbidden.to_set(),
    ) by {
        if i < state.nodes.len() {
            assert(next.nodes[i] == state.nodes[i]);
            assert(next.nodes[state.nodes[i].parent as int] == state.nodes[state.nodes[i].parent as int]);
        } else {
            assert(next.nodes[i] == es.emitted[i - state.nodes.len()]);
            assert(next.nodes[node as int] == state.nodes[node as int]);
        }
    }
    assert forall|i: int| 0 <= i < next.queue.len() implies (#[trigger] next.queue[i]).1
        < next.nodes.len() by {
        if i < state.queue.len() {
            assert(next.queue[i] == state.queue[i]);
        } else {
            assert(next.queue[i] == es.pending[i - state.queue.len()]);
        }
    }
}

/// A search that starts from a tree ends in one.
pub proof fn lemma_searched_ok<R: TransformInstance, T: Terminal>(
    run: RunView,
    rules: Seq<R>,
    terminals: Seq<T>,
    state: SearchView,
    fuel: nat,
)
    requires
        arena_ok(state.nodes, run.required.to_set(), run.forbidden.to_set()),
        queue_ok(state.queue, state.nodes.len()),
    ensures
        searched(run, rules, terminals, state, fuel) matches Some(
            Outcome::Found { state: end, node, terminal },
        ) ==> arena_ok(end.nodes, run.required.to_set(), run.forbidden.to_set()) && node
            < end.nodes.len(),
    decreases fuel,
{
    if state.queue.len() > 0 {
        let at = next_at(state.queue);
        crate::order::lemma_next_at(state.queue);
        let node = state.queue[at].1 as nat;
        let rest = SearchView { nodes: state.nodes, queue: state.queue.remove(at) };
        assert forall|i: int| 0 <= i < rest.queue.len() implies (#[trigger] rest.queue[i]).1
            < rest.nodes.len() by {
            assert(rest.queue[i] == state.queue[if i < at {
                i
            } else {
                i + 1
            }]);
        }
        if met(terminals, run.target, state.nodes[node as int]) is None && fuel > 0 {
            lemma_expanded_ok(run, rules, rest, node);
            lemma_searched_ok(
                run,
                rules,
                terminals,
                expanded(run, rules, rest, node),
                (fuel - 1) as nat,
            );
        }
    }
}

/// Whatever the rules and terminals are, a plan that solving gives passes
/// no edge that declares a forbidden flag, and the edges it passes declare
/// every required flag: a request that requires a flag which no edge on
/// the way declares fails, though a terminal node was reached.
pub proof fn lemma_solved_sound<R: TransformInstance, T: Terminal>(
    run: RunView,
    uri: UriView,
    rules: Seq<R>,
    terminals: Seq<T>,
    fuel: nat,
)
    ensures
        solved(run, uri, rules, terminals, fuel) matches Some(Ok(plan)) ==> avoids(
            plan.steps,
            run.forbidden.to_set(),
        ) && run.required.to_set().subset_of(declares(plan.steps)),
{
    let start = seeded(uri);
    lemma_searched_ok(run, rules, terminals, start, fuel);
    if let Some(Outcome::Found { state, node, terminal }) = searched(
        run,
        rules,
        terminals,
        start,
        fuel,
    ) {
        lemma_first_outside(run.required, state.nodes[node as int].satisfies);
        lemma_traced_sound(
            state.nodes.map_values(|n: NodeView| Some(n)),
            state.nodes,
            node,
            run.required.to_set(),
            run.forbidden.to_set(),
        );
    }
}

/// A terminal node whose path lacks a required flag gives no plan but a
/// failure that names such a flag.
pub proof fn lemma_missing_requirement(run: RunView, state: SearchView, node: nat, terminal: nat)
    requires
        !run.required.to_set().subset_of(state.nodes[node as int].satisfies),
    ensures
        concluded(run, Outcome::Found { state, node, terminal }) matches Err(
            ErrorView::Missing(flag),
        ) && run.required.to_set().contains(flag) && !state.nodes[node as int].satisfies.contains(
            flag,
        ),
{
    lemma_first_outside(run.required, state.nodes[node as int].satisfies);
}


/// The mathematical content of a [`Plan`].
pub struct PlanView {
    /// What the run was given.
    pub run: RunView,
    /// The nodes on the winning path, the terminal node first and the root
    /// left out.
    pub steps: Seq<NodeView>,
    /// The position of the terminal that matched.
    pub terminal: nat,
}

/// What a search that ended amounts to: a failure where nothing was found;
/// where a terminal node was found, a failure naming the first required
/// flag, in the request's order, that its path does not satisfy; else what
/// the backtrace from it gives.
pub open spec fn concluded(run: RunView, outcome: Outcome) -> Result<PlanView, ErrorView> {
    match outcome {
        Outcome::Exhausted => Err(ErrorView::Exhausted),
        Outcome::Found { state, node, terminal } => match first_outside(
            run.required,
            state.nodes[node as int].satisfies,
        ) {
            Some(flag) => Err(ErrorView::Missing(flag)),
            None => match traced(state.nodes.map_values(|n: NodeView| Some(n)), node).1 {
                Err(e) => Err(e),
                Ok(steps) => Ok(PlanView { run, steps, terminal }),
            },
        },
    }
}

/// What solving a request gives, if the search ends within `fuel`
/// expansions.
pub open spec fn solved<R: TransformInstance, T: Terminal>(
    run: RunView,
    uri: UriView,
    rules: Seq<R>,
    terminals: Seq<T>,
    fuel: nat,
) -> Option<Result<PlanView, ErrorView>> {
    match searched(run, rules, terminals, seeded(uri), fuel) {
        Some(outcome) => Some(concluded(run, outcome)),
        None => None,
    }
}

/// Solving is deterministic: the same request against the same rules and
/// terminals, in the same order, gives the same result, however long the
/// search is allowed to run.
pub proof fn lemma_solved_deterministic<R: TransformInstance, T: Terminal>(
    run: RunView,
    uri: UriView,
    rules: Seq<R>,
    terminals: Seq<T>,
    fuel: nat,
    other: nat,
)
    requires
        solved(run, uri, rules, terminals, fuel) is Some,
        solved(run, uri, rules, terminals, other) is Some,
    ensures
        solved(run, uri, rules, terminals, fuel) == solved(run, uri, rules, terminals, other),
{
    if fuel <= other {
        lemma_searched_more(run, rules, terminals, seeded(uri), fuel, (other - fuel) as nat);
    } else {
        lemma_searched_more(run, rules, terminals, seeded(uri), other, (fuel - other) as nat);
    }
}

/// The sequence of operations that turns a request into its solution: the
/// nodes of the winning path with their evaluators, and the terminal that
/// accepted the last of them.
pub struct Plan {
    work: Working,
    steps: Vec<NodeInstance>,
    terminal: usize,
}

impl Plan {
    /// What the plan holds.
    pub closed spec fn view(&self) -> PlanView {
        PlanView {
            run: self.work.run(),
            steps: path_view(self.steps@),
            terminal: self.terminal as nat,
        }
    }

    /// The run's data and the nodes on the path are well formed.
    pub closed spec fn wf(&self) -> bool {
        &&& self.work.wf()
        &&& forall|i: int| 0 <= i < self.steps@.len() ==> (#[trigger] self.steps@[i]).wf()
    }
}

/// The content of a plan, or of the failure to make one.
pub open spec fn plan_view(r: Result<Plan, Error>) -> Result<PlanView, ErrorView> {
    match r {
        Ok(plan) => Ok(plan@),
        Err(e) => Err(e@),
    }
}

/// Stores and solves asset transform graph.
pub struct Solver<R: TransformInstance, T: Terminal> {
    pub transforms: Vec<R>,
    pub terminals: Vec<T>,
}

impl<R: TransformInstance> Solver<R, EndOn> {
    /// A solver without rules that ends on a producer that satisfies the
    /// target, on a generic producer, and on a terminate node, tried in
    /// this order.
    pub fn new() -> (solver: Self)
        ensures
            solver.transforms@ == Seq::<R>::empty(),
            solver.terminals@ == seq![
                EndOn::Producer(EndOnProducer),
                EndOn::GenericProducer(EndOnGenericProducer),
                EndOn::Terminate(EndOnTerminate),
            ],
    {
        let mut terminals: Vec<EndOn> = Vec::new();
        terminals.push(EndOn::Producer(EndOnProducer));
        terminals.push(EndOn::GenericProducer(EndOnGenericProducer));
        terminals.push(EndOn::Terminate(EndOnTerminate));
        assert(terminals@ =~= seq![
            EndOn::Producer(EndOnProducer),
            EndOn::GenericProducer(EndOnGenericProducer),
            EndOn::Terminate(EndOnTerminate),
        ]);
        Solver { transforms: Vec::new(), terminals }
    }
}

impl<R: TransformInstance, T: Terminal> Solver<R, T> {
    /// The first terminal, in registration order, that node `node` meets:
    /// see [`met`].
    fn first_terminal(&self, work: &Working, node: usize) -> (hit: Option<usize>)
        requires
            work.wf(),
            work.complete(),
            node < work.state().nodes.len(),
        ensures
            match hit {
                Some(t) => met(self.terminals@, work.run().target, work.state().nodes[node as int])
                    == Some(t as nat) && t < self.terminals@.len(),
                None => met(self.terminals@, work.run().target, work.state().nodes[node as int])
                    is None,
            },
    {
        let nodei = match &work.nodes[node] {
            Some(n) => n,
            None => {
                assert(false);
                return None;
            },
        };
        if !nodei.active() {
            return None;
        }
        let mut t: usize = 0;
        while t < self.terminals.len()
            invariant
                t <= self.terminals.len(),
                work.wf(),
                nodei.wf(),
                node < work.state().nodes.len(),
                nodei@ == work.state().nodes[node as int],
                nodei@.value is Ok,
                first_match(self.terminals@, 0, work.run().target, nodei@.data) == first_match(
                    self.terminals@,
                    t as nat,
                    work.run().target,
                    nodei@.data,
                ),
            decreases self.terminals.len() - t,
        {
            if self.terminals[t].terminate(work, nodei) {
                return Some(t);
            }
            t += 1;
        }
        None
    }

    /// Searches the graph that the rules span from the request, until a
    /// node meets a terminal or nothing is left to explore. Returns the
    /// working state, and the node and the terminal it met where there is
    /// one.
    pub fn search(&self, bag: BagRequest) -> (end: (Working, Option<(usize, usize)>))
        requires
            bag.wf(),
        ensures
            end.0.wf(),
            end.0.complete(),
            end.0.run() == bag.run(),
            end.0.span_spec() == bag.span,
            arena_ok(end.0.state().nodes, bag.required@, bag.forbidden@),
            exists|fuel: nat|
                searched(bag.run(), self.transforms@, self.terminals@, seeded(bag.uri@), fuel)
                    == Some(found(end.0.state(), end.1)),
            end.1 matches Some((node, terminal)) ==> node < end.0.state().nodes.len() && terminal
                < self.terminals@.len(),
    {
        let ghost run = bag.run();
        let BagRequest { uri, target, required, forbidden, args, span } = bag;
        let start = NodeInstance {
            data: NodeKind::Request(Request(uri)),
            parent: 0,
            satisfies: FlagSet::new(),
            declared: FlagSet::new(),
            value: Ok(Evaluator::Trivial),
        };
        let mut nodes: Vec<Option<NodeInstance>> = Vec::new();
        nodes.push(Some(start));
        let mut queue = WorkingQueue::new();
        queue.insert(EdgeOrder { active: true, satisfies: 0, priority: 0 }, 0);
        let mut work = Working { span, args, nodes, queue, target, required, forbidden };
        let ghost init = work.state();
        let ghost mut spent: nat = 0;
        let ghost mut visited: nat = 0;
        let ghost rules = self.transforms@;
        let ghost terminals = self.terminals@;
        proof {
            assert(init.nodes =~= seeded(bag.uri@).nodes);
            assert(init.queue =~= seeded(bag.uri@).queue);
            assert(init == seeded(bag.uri@));
        }
        loop
            invariant
                work.wf(),
                work.complete(),
                work.run() == run,
                work.span_spec() == bag.span,
                run == bag.run(),
                rules == self.transforms@,
                terminals == self.terminals@,
                init == seeded(bag.uri@),
                arena_ok(work.state().nodes, run.required.to_set(), run.forbidden.to_set()),
                queue_ok(work.state().queue, work.state().nodes.len()),
                visited + work.state().queue.len() == work.state().nodes.len(),
                forall|fuel: nat| #[trigger]
                    searched(run, rules, terminals, work.state(), fuel) == searched(
                        run,
                        rules,
                        terminals,
                        init,
                        spent + fuel,
                    ),
            decreases usize::MAX - visited,
        {
            let ghost state = work.state();
            // find next node in queue, starting with the highest priority
            let node = match work.queue.pop() {
                Some(n) => n,
                None => {
                    proof {
                        assert(searched(run, rules, terminals, state, 0) == Some(Outcome::Exhausted));
                        assert(searched(run, rules, terminals, init, spent) == Some(
                            found(work.state(), None),
                        ));
                    }
                    return (work, None);
                },
            };
            let ghost at = next_at(state.queue);
            let ghost rest = SearchView { nodes: state.nodes, queue: state.queue.remove(at) };
            assert(work.state() == rest);
            assert(node < state.nodes.len());
            let total = work.nodes.len();
            assert(visited < total) by {
                assert(state.nodes.len() == work.nodes@.len());
            }
            // is solved yet?
            if let Some(terminal) = self.first_terminal(&work, node) {
                proof {
                    let outcome = found(rest, Some((node, terminal)));
                    assert(searched(run, rules, terminals, state, 0) == Some(outcome));
                    assert(searched(run, rules, terminals, init, spent) == Some(outcome));
                }
                return (work, Some((node, terminal)));
            }
            // make next search layer
            work.expand(&self.transforms, node);
            proof {
                let next = work.state();
                assert(next == expanded(run, rules, rest, node as nat));
                lemma_expanded_ok(run, rules, rest, node as nat);
                assert forall|fuel: nat| #[trigger]
                    searched(run, rules, terminals, next, fuel) == searched(
                        run,
                        rules,
                        terminals,
                        init,
                        spent + 1 + fuel,
                    ) by {
                    assert(searched(run, rules, terminals, state, fuel + 1) == searched(
                        run,
                        rules,
                        terminals,
                        next,
                        fuel,
                    ));
                    assert(spent + (fuel + 1) == spent + 1 + fuel);
                }
                spent = spent + 1;
                visited = visited + 1;
            }
        }
    }

    /// Searches the graph that the rules span from the request, and
    /// reconstructs the path to the first node that a terminal accepts.
    ///
    /// The result is the one that [`solved`] describes. A plan that comes
    /// back passes no edge that declares a forbidden flag, and the edges it
    /// passes declare every required flag.
    pub fn solve(&self, bag: BagRequest) -> (plan: Result<Plan, Error>)
        requires
            bag.wf(),
        ensures
            exists|fuel: nat|
                solved(bag.run(), bag.uri@, self.transforms@, self.terminals@, fuel) == Some(
                    plan_view(plan),
                ),
            plan matches Ok(p) ==> {
                &&& p.wf()
                &&& p@.run == bag.run()
                &&& p@.terminal < self.terminals@.len()
                &&& avoids(p@.steps, bag.forbidden@)
                &&& bag.required@.subset_of(declares(p@.steps))
            },
    {
        let ghost run = bag.run();
        let (work, end) = self.search(bag);
        let mut work = work;
        let ghost state = work.state();
        let ghost fuel = choose|fuel: nat|
            searched(run, self.transforms@, self.terminals@, seeded(bag.uri@), fuel) == Some(
                found(state, end),
            );
        let plan = match end {
            None => Err(Error::Exhausted),
            Some((node, terminal)) => {
                let nodei = match &work.nodes[node] {
                    Some(n) => n,
                    None => {
                        assert(false);
                        return Err(Error::BacktraceLoop);
                    },
                };
                // missing requirements
                match work.required.first_missing(&nodei.satisfies) {
                    Some(missing) => Err(Error::Missing(missing)),
                    None => {
                        proof {
                            assert(work.slots() =~= state.nodes.map_values(|n: NodeView| Some(n)));
                            lemma_first_outside(run.required, state.nodes[node as int].satisfies);
                            lemma_traced_sound(
                                work.slots(),
                                state.nodes,
                                node as nat,
                                run.required.to_set(),
                                run.forbidden.to_set(),
                            );
                        }
                        match work.backtrace(node) {
                            Ok(steps) => Ok(Plan { work, steps, terminal }),
                            Err(e) => Err(e),
                        }
                    },
                }
            },
        };
        assert(solved(run, bag.uri@, self.transforms@, self.terminals@, fuel) == Some(
            plan_view(plan),
        ));
        plan
    }
}

/// How a search ended, from the state it ended in and the node and the
/// terminal it met, where it met one.
pub open spec fn found(state: SearchView, end: Option<(usize, usize)>) -> Outcome {
    match end {
        None => Outcome::Exhausted,
        Some((node, terminal)) => Outcome::Found {
            state,
            node: node as nat,
            terminal: terminal as nat,
        },
    }
}

/// The paths of the files that replaying `steps` needs, in the order in
/// which it needs them.
pub open spec fn reads_of(steps: Seq<NodeView>) -> Seq<Seq<char>>
    decreases steps.len(),
{
    if steps.len() == 0 {
        Seq::empty()
    } else {
        let rest = reads_of(steps.drop_last());
        match steps.last().value {
            Ok(ev) => match reads_spec(ev) {
                Some(path) => seq![path] + rest,
                None => rest,
            },
            Err(_) => rest,
        }
    }
}

/// The payload that replaying `steps` on `input` gives. The steps are
/// taken from the last, which is nearest to the root, to the first; each
/// applies its evaluator to what the one before gave. A step that needs a
/// file takes the first of `files` that is left. A step that writes a
/// literal takes the first of `literals` that is left as its printed form,
/// and the empty text where none is left. The first failure ends the
/// replay.
pub open spec fn replayed(
    steps: Seq<NodeView>,
    input: PayloadView,
    files: Seq<FileView>,
    literals: Seq<Seq<char>>,
) -> Result<PayloadView, ErrorView>
    decreases steps.len(),
{
    if steps.len() == 0 {
        Ok(input)
    } else {
        match steps.last().value {
            Err(e) => Err(e),
            Ok(ev) => {
                let takes = reads_spec(ev) is Some && files.len() > 0;
                let file = if takes {
                    Some(files[0])
                } else {
                    None
                };
                let left = if takes {
                    files.skip(1)
                } else {
                    files
                };
                let writes = quoted(ev, input) is Some && literals.len() > 0;
                let literal = if writes {
                    literals[0]
                } else {
                    Seq::empty()
                };
                let later = if writes {
                    literals.skip(1)
                } else {
                    literals
                };
                match evaluated(ev, input, file, literal) {
                    Err(e) => Err(e),
                    Ok(out) => replayed(steps.drop_last(), out, left, later),
                }
            },
        }
    }
}

/// The solution that a plan gives once the files it needs have been read
/// and the literals it writes have been printed: the payload that
/// replaying its steps from the unit payload gives, as the terminal that
/// matched extracts it.
pub open spec fn finished<T: Terminal>(
    terminals: Seq<T>,
    plan: PlanView,
    files: Seq<FileView>,
    literals: Seq<Seq<char>>,
) -> Result<BagExprView, ErrorView> {
    match replayed(plan.steps, PayloadView::Unit, files, literals) {
        Err(e) => Err(e),
        Ok(payload) => if plan.terminal < terminals.len() {
            terminals[plan.terminal as int].extracted(plan.run.target, payload)
        } else {
            Err(ErrorView::Cast)
        },
    }
}

/// The content of some texts.
pub open spec fn texts_view(texts: Seq<String>) -> Seq<Seq<char>> {
    texts.map_values(|t: String| t@)
}

/// The content of the printed literals that are given, if any are.
pub open spec fn given_view(given: Option<Vec<String>>) -> Seq<Seq<char>> {
    match given {
        Some(literals) => texts_view(literals@),
        None => Seq::empty(),
    }
}

/// The content of the files handed to a replay.
pub open spec fn files_view(files: Seq<FileResult>) -> Seq<FileView> {
    files.map_values(|f: FileResult| file_view(f))
}

/// The content of some paths.
pub open spec fn paths_view(paths: Seq<String>) -> Seq<Seq<char>> {
    paths.map_values(|p: String| p@)
}

impl Plan {
    /// The position, among the solver's terminals, of the one that matched.
    pub fn terminal(&self) -> (terminal: usize)
        ensures
            terminal == self@.terminal,
    {
        self.terminal
    }

    /// The number of steps from the root to the terminal node.
    pub fn len(&self) -> (n: usize)
        ensures
            n == self@.steps.len(),
    {
        self.steps.len()
    }

    /// The node of step `i`, counted from the terminal node.
    pub fn step(&self, i: usize) -> (node: &NodeInstance)
        requires
            i < self@.steps.len(),
        ensures
            node@ == self@.steps[i as int],
    {
        &self.steps[i]
    }

    /// The paths of the files that the plan needs, in the order in which it
    /// needs them.
    pub fn reads(&self) -> (paths: Vec<String>)
        ensures
            paths_view(paths@) == reads_of(self@.steps),
    {
        let mut paths: Vec<String> = Vec::new();
        let mut i: usize = self.steps.len();
        let ghost steps = self@.steps;
        proof {
            assert(steps.take(i as int) =~= steps);
            assert(paths_view(paths@) + reads_of(steps) =~= reads_of(steps));
        }
        while i > 0
            invariant
                i <= self.steps.len(),
                steps == self@.steps,
                steps.len() == self.steps@.len(),
                paths_view(paths@) + reads_of(steps.take(i as int)) == reads_of(steps),
            decreases i,
        {
            let ghost upto = steps.take(i as int);
            let ghost sofar = paths_view(paths@);
            i -= 1;
            proof {
                assert(upto.drop_last() =~= steps.take(i as int));
                assert(upto.last() == self.steps@[i as int]@);
            }
            if let Ok(ev) = &self.steps[i].value {
                if let Some(path) = ev.reads() {
                    paths.push(path.clone());
                    proof {
                        let rest = reads_of(steps.take(i as int));
                        assert(paths_view(paths@) =~= sofar + seq![path@]);
                        assert((sofar + seq![path@]) + rest =~= sofar + (seq![path@] + rest));
                    }
                }
            }
        }
        proof {
            assert(steps.take(0).len() == 0);
            assert(paths_view(paths@) + Seq::<Seq<char>>::empty() =~= paths_view(paths@));
        }
        paths
    }
}

impl<R: TransformInstance, T: Terminal> Solver<R, T> {
    /// Replays a plan and extracts the solution. `files` holds what reading
    /// each file of [`Plan::reads`] gave, in that order. The literals that
    /// the steps write are printed by the `proc_macro2` crate; whatever
    /// texts that gives, the solution is made of them as [`finished`] says.
    pub fn finish(&self, plan: Plan, files: Vec<FileResult>) -> (s: Result<Solution, Error>)
        requires
            plan.wf(),
        ensures
            exists|literals: Seq<Seq<char>>|
                solution_view(s) == #[trigger] finished(
                    self.terminals@,
                    plan@,
                    files_view(files@),
                    literals,
                ),
    {
        let (s, Ghost(literals)) = self.replay(plan, files, None);
        assert(solution_view(s) == finished(
            self.terminals@,
            plan@,
            files_view(files@),
            literals,
        ));
        s
    }

    /// Replays a plan and extracts the solution, with the literals that the
    /// steps write given in their printed form. `files` holds what reading
    /// each file of [`Plan::reads`] gave, and `literals` the printed form of
    /// each literal, both in the order in which the steps come to them.
    pub fn finish_with(&self, plan: Plan, files: Vec<FileResult>, literals: Vec<String>) -> (s:
        Result<Solution, Error>)
        requires
            plan.wf(),
        ensures
            solution_view(s) == finished(
                self.terminals@,
                plan@,
                files_view(files@),
                texts_view(literals@),
            ),
    {
        let (s, Ghost(used)) = self.replay(plan, files, Some(literals));
        s
    }

    /// Replays a plan and extracts the solution. A step that writes a
    /// literal takes its printed form from `given` where that is there, and
    /// has it printed where not. Returns, beside the solution, the printed
    /// forms that stand for the literals.
    fn replay(&self, plan: Plan, files: Vec<FileResult>, given: Option<Vec<String>>) -> (out: (
        Result<Solution, Error>,
        Ghost<Seq<Seq<char>>>,
    ))
        requires
            plan.wf(),
        ensures
            solution_view(out.0) == finished(
                self.terminals@,
                plan@,
                files_view(files@),
                out.1@,
            ),
            given matches Some(literals) ==> out.1@ == texts_view(literals@),
    {
        let ghost view = plan@;
        let ghost all = files_view(files@);
        let ghost lits = given_view(given);
        let Plan { work, steps, terminal } = plan;
        let mut steps = steps;
        let mut pool = files;
        let mut payload = Payload::Unit;
        let mut next: usize = 0;
        let mut taken: usize = 0;
        let ghost mut used: Seq<Seq<char>> = Seq::empty();
        proof {
            assert(all.skip(0) =~= all);
            assert(lits.take(0) =~= used);
            assert forall|rest: Seq<Seq<char>>| used + rest == rest by {
                assert(used + rest =~= rest);
            }
        }
        while steps.len() > 0
            invariant
                work.wf(),
                work.run() == view.run,
                terminal == view.terminal,
                view == plan@,
                all == files_view(files@),
                next <= pool@.len(),
                pool@.len() == all.len(),
                files_view(pool@).skip(next as int) == all.skip(next as int),
                lits == given_view(given),
                given is Some ==> taken <= lits.len() && used == lits.take(taken as int),
                given is None ==> taken == 0,
                forall|rest: Seq<Seq<char>>|
                    (given is None || rest == lits.skip(taken as int)) ==> #[trigger] replayed(
                        path_view(steps@),
                        payload@,
                        all.skip(next as int),
                        rest,
                    ) == replayed(view.steps, PayloadView::Unit, all, used + rest),
            decreases steps.len(),
        {
            let ghost before = path_view(steps@);
            let ghost left = all.skip(next as int);
            let ghost input = payload@;
            let ghost sofar = used;
            let ghost began = taken;
            let node = match steps.pop() {
                Some(node) => node,
                None => {
                    return (Err(Error::Cast), Ghost(used));
                },
            };
            proof {
                assert(before.last() == node@);
                assert(before.drop_last() =~= path_view(steps@));
            }
            let NodeInstance { value, .. } = node;
            let ev = match value {
                Ok(ev) => ev,
                Err(e) => {
                    proof {
                        let rest = lits.skip(taken as int);
                        assert(replayed(before, input, left, rest) == Err::<
                            PayloadView,
                            ErrorView,
                        >(e@));
                        if given is Some {
                            assert(used + rest =~= lits);
                        }
                    }
                    return (Err(e), Ghost(used + lits.skip(taken as int)));
                },
            };
            let file = if ev.reads().is_some() {
                take_file(&mut pool, &mut next)
            } else {
                None
            };
            let ghost takes = reads_spec(ev@) is Some && left.len() > 0;
            assert(optional_file_view(file) == if takes {
                Some(left[0])
            } else {
                None
            });
            assert(all.skip(next as int) == if takes {
                left.skip(1)
            } else {
                left
            }) by {
                if takes {
                    assert(all.skip(next as int) =~= left.skip(1));
                }
            }
            assert(files_view(pool@).skip(next as int) == all.skip(next as int));
            // the printed form of what the step writes as a literal
            let ghost mut rest: Seq<Seq<char>> = lits.skip(taken as int);
            let literal = match ev.quotes(&payload) {
                Some(q) => match &given {
                    Some(literals) => {
                        if taken < literals.len() {
                            let literal = literals[taken].clone();
                            proof {
                                assert(rest[0] == literal@);
                                assert(rest.skip(1) =~= lits.skip(taken + 1));
                                assert(lits.take(taken + 1) =~= used.push(literal@));
                                used = used.push(literal@);
                            }
                            taken += 1;
                            literal
                        } else {
                            String::new()
                        }
                    },
                    None => {
                        let literal = crate::eval::printed(&Some(q));
                        proof {
                            rest = seq![literal@];
                            used = used.push(literal@);
                        }
                        literal
                    },
                },
                None => String::new(),
            };
            let ghost writes = quoted(ev@, input) is Some && rest.len() > 0;
            let ghost later = if writes {
                rest.skip(1)
            } else {
                rest
            };
            assert(literal@ == if writes {
                rest[0]
            } else {
                Seq::<char>::empty()
            });
            match ev.apply_with(payload, file, literal) {
                Ok(out) => {
                    proof {
                        // the replay from here on, with the literals `more`
                        // that are left, is the replay from this step on
                        // with the step's own literal before them
                        assert forall|more: Seq<Seq<char>>|
                            (given is None || more == lits.skip(
                                taken as int,
                            )) implies #[trigger] replayed(
                            path_view(steps@),
                            out@,
                            all.skip(next as int),
                            more,
                        ) == replayed(view.steps, PayloadView::Unit, all, used + more) by {
                            let whole = if !writes {
                                more
                            } else if given is None {
                                seq![literal@] + more
                            } else {
                                rest
                            };
                            if writes {
                                assert(whole[0] == literal@);
                                assert(whole.skip(1) =~= more);
                            }
                            assert(sofar + whole =~= used + more);
                            assert(replayed(before, input, left, whole) == replayed(
                                path_view(steps@),
                                out@,
                                all.skip(next as int),
                                more,
                            ));
                        }
                    }
                    payload = out;
                },
                Err(e) => {
                    proof {
                        assert(replayed(before, input, left, rest) == Err::<
                            PayloadView,
                            ErrorView,
                        >(e@));
                        assert(sofar + rest =~= used + later);
                        if given is Some {
                            assert(sofar + rest =~= lits);
                        }
                    }
                    return (Err(e), Ghost(used + later));
                },
            }
        }
        let ghost rest = lits.skip(taken as int);
        proof {
            assert(path_view(steps@).len() == 0);
            assert(replayed(path_view(steps@), payload@, all.skip(next as int), rest) == Ok::<
                PayloadView,
                ErrorView,
            >(payload@));
            assert(replayed(view.steps, PayloadView::Unit, all, used + rest) == Ok::<
                PayloadView,
                ErrorView,
            >(payload@));
            if given is Some {
                assert(used + rest =~= lits);
            }
        }
        let s = if terminal < self.terminals.len() {
            self.terminals[terminal].extract(work, payload)
        } else {
            Err(Error::Cast)
        };
        (s, Ghost(used + rest))
    }
}

/// Takes the file at position `next` of `pool`, if there is one, and moves
/// on to the position after it.
fn take_file(pool: &mut Vec<FileResult>, next: &mut usize) -> (file: Option<FileResult>)
    requires
        *old(next) <= old(pool)@.len(),
    ensures
        *final(next) <= final(pool)@.len(),
        final(pool)@.len() == old(pool)@.len(),
        files_view(old(pool)@).skip(*old(next) as int).len() > 0 ==> {
            &&& file is Some
            &&& *final(next) == *old(next) + 1
            &&& file_view(file->Some_0) == files_view(old(pool)@).skip(*old(next) as int)[0]
            &&& files_view(final(pool)@).skip(*final(next) as int) == files_view(old(pool)@).skip(
                *old(next) as int,
            ).skip(1)
        },
        files_view(old(pool)@).skip(*old(next) as int).len() == 0 ==> {
            &&& file is None
            &&& *final(next) == *old(next)
            &&& final(pool)@ == old(pool)@
        },
{
    if *next < pool.len() {
        let mut taken: FileResult = Err(String::new());
        let at = *next;
        core::mem::swap(&mut pool[at], &mut taken);
        *next = at + 1;
        proof {
            let before = files_view(old(pool)@).skip(at as int);
            assert(before[0] == file_view(old(pool)@[at as int]));
            assert(files_view(pool@).skip(at + 1) =~= before.skip(1));
        }
        Some(taken)
    } else {
        None
    }
}

} // verus!
