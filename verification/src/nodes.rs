//! The kinds of node in the resolution graph.

use crate::error::{Error, ErrorView};
use crate::eval::{Payload, PayloadView};
use crate::expr::{satisfies_spec, BagExprView, BagInfo, Capability, ExprType, ExprTypeView};
use crate::solver::{NodeInstance, Solution, Terminal, Working};
use crate::mime::{Mime, MimeView};
use crate::uri::{Uri, UriView};
use vstd::prelude::*;

verus! {

/// The starting node, a basic asset request.
pub struct Request(pub Uri);

/// A file on this machine, by its path.
pub struct LocalPath(pub String);

/// The bytes of a local file, with the media type they are taken to have.
pub struct LocalRead(pub Mime);

/// Data that has been read, with its media type.
pub struct ReadData(pub Mime);

/// An expression of the given type.
pub struct Data(pub ExprType);

/// A bag with the given capabilities.
pub struct Producer(pub BagInfo);

/// A bag that can be made to fit any target.
pub struct GenericProducer;

/// A node that ends the search wherever it appears.
pub struct Terminate;

/// A node of a kind that a rule set brings along: the name of the kind,
/// and the data of the node.
pub struct Custom {
    pub tag: String,
    pub data: String,
}

/// A position in the resolution graph: one of the node kinds, with its
/// data.
pub enum NodeKind {
    Request(Request),
    LocalPath(LocalPath),
    LocalRead(LocalRead),
    ReadData(ReadData),
    Data(Data),
    Producer(Producer),
    GenericProducer(GenericProducer),
    Terminate(Terminate),
    Custom(Custom),
}

/// The mathematical content of a [`NodeKind`]. A producer's capabilities
/// are given in the order in which it holds them.
pub enum NodeKindView {
    Request(UriView),
    LocalPath(Seq<char>),
    LocalRead(MimeView),
    ReadData(MimeView),
    Data(ExprTypeView),
    Producer(Seq<Capability>),
    GenericProducer,
    Terminate,
    Custom(Seq<char>, Seq<char>),
}

impl View for NodeKind {
    type V = NodeKindView;

    open spec fn view(&self) -> NodeKindView {
        match self {
            NodeKind::Request(n) => NodeKindView::Request(n.0@),
            NodeKind::LocalPath(n) => NodeKindView::LocalPath(n.0@),
            NodeKind::LocalRead(n) => NodeKindView::LocalRead(n.0@),
            NodeKind::ReadData(n) => NodeKindView::ReadData(n.0@),
            NodeKind::Data(n) => NodeKindView::Data(n.0@),
            NodeKind::Producer(n) => NodeKindView::Producer(n.0.order()),
            NodeKind::GenericProducer(_) => NodeKindView::GenericProducer,
            NodeKind::Terminate(_) => NodeKindView::Terminate,
            NodeKind::Custom(n) => NodeKindView::Custom(n.tag@, n.data@),
        }
    }
}

impl NodeKind {
    /// A producer's descriptor holds no capability twice.
    pub open spec fn wf(&self) -> bool {
        match self {
            NodeKind::Producer(n) => n.0.wf(),
            _ => true,
        }
    }
}


/// A type that defines a node: one kind among the kinds of node.
pub trait Node: Sized {
    /// The node as a kind.
    spec fn kind(self) -> NodeKind;

    /// The node of this type that `kind` is, if it is one.
    spec fn of_kind(kind: &NodeKind) -> Option<&Self>;

    /// Wraps the node into the kind it is.
    fn erase(self) -> (kind: NodeKind)
        ensures
            kind == self.kind(),
    ;

    /// The node of this type that `kind` is, if it is one.
    fn downcast_ref(kind: &NodeKind) -> (node: Option<&Self>)
        ensures
            node == Self::of_kind(kind),
    ;

    /// The node that a kind is, is that kind; and a kind that is no node of
    /// this type has the content of none.
    proof fn lemma_kind(kind: &NodeKind, node: Self)
        ensures
            Self::of_kind(kind) matches Some(found) ==> found.kind() == *kind,
            Self::of_kind(kind) is None ==> node.kind()@ != kind@,
    ;
}

impl Node for Request {
    open spec fn kind(self) -> NodeKind {
        NodeKind::Request(self)
    }

    open spec fn of_kind(kind: &NodeKind) -> Option<&Self> {
        match kind {
            NodeKind::Request(n) => Some(n),
            _ => None,
        }
    }

    fn erase(self) -> (kind: NodeKind) {
        NodeKind::Request(self)
    }

    fn downcast_ref(kind: &NodeKind) -> (node: Option<&Self>) {
        match kind {
            NodeKind::Request(n) => Some(n),
            _ => None,
        }
    }

    proof fn lemma_kind(kind: &NodeKind, node: Self) {
    }
}

impl Node for LocalPath {
    open spec fn kind(self) -> NodeKind {
        NodeKind::LocalPath(self)
    }

    open spec fn of_kind(kind: &NodeKind) -> Option<&Self> {
        match kind {
            NodeKind::LocalPath(n) => Some(n),
            _ => None,
        }
    }

    fn erase(self) -> (kind: NodeKind) {
        NodeKind::LocalPath(self)
    }

    fn downcast_ref(kind: &NodeKind) -> (node: Option<&Self>) {
        match kind {
            NodeKind::LocalPath(n) => Some(n),
            _ => None,
        }
    }

    proof fn lemma_kind(kind: &NodeKind, node: Self) {
    }
}

impl Node for LocalRead {
    open spec fn kind(self) -> NodeKind {
        NodeKind::LocalRead(self)
    }

    open spec fn of_kind(kind: &NodeKind) -> Option<&Self> {
        match kind {
            NodeKind::LocalRead(n) => Some(n),
            _ => None,
        }
    }

    fn erase(self) -> (kind: NodeKind) {
        NodeKind::LocalRead(self)
    }

    fn downcast_ref(kind: &NodeKind) -> (node: Option<&Self>) {
        match kind {
            NodeKind::LocalRead(n) => Some(n),
            _ => None,
        }
    }

    proof fn lemma_kind(kind: &NodeKind, node: Self) {
    }
}

impl Node for ReadData {
    open spec fn kind(self) -> NodeKind {
        NodeKind::ReadData(self)
    }

    open spec fn of_kind(kind: &NodeKind) -> Option<&Self> {
        match kind {
            NodeKind::ReadData(n) => Some(n),
            _ => None,
        }
    }

    fn erase(self) -> (kind: NodeKind) {
        NodeKind::ReadData(self)
    }

    fn downcast_ref(kind: &NodeKind) -> (node: Option<&Self>) {
        match kind {
            NodeKind::ReadData(n) => Some(n),
            _ => None,
        }
    }

    proof fn lemma_kind(kind: &NodeKind, node: Self) {
    }
}

impl Node for Data {
    open spec fn kind(self) -> NodeKind {
        NodeKind::Data(self)
    }

    open spec fn of_kind(kind: &NodeKind) -> Option<&Self> {
        match kind {
            NodeKind::Data(n) => Some(n),
            _ => None,
        }
    }

    fn erase(self) -> (kind: NodeKind) {
        NodeKind::Data(self)
    }

    fn downcast_ref(kind: &NodeKind) -> (node: Option<&Self>) {
        match kind {
            NodeKind::Data(n) => Some(n),
            _ => None,
        }
    }

    proof fn lemma_kind(kind: &NodeKind, node: Self) {
    }
}

impl Node for Producer {
    open spec fn kind(self) -> NodeKind {
        NodeKind::Producer(self)
    }

    open spec fn of_kind(kind: &NodeKind) -> Option<&Self> {
        match kind {
            NodeKind::Producer(n) => Some(n),
            _ => None,
        }
    }

    fn erase(self) -> (kind: NodeKind) {
        NodeKind::Producer(self)
    }

    fn downcast_ref(kind: &NodeKind) -> (node: Option<&Self>) {
        match kind {
            NodeKind::Producer(n) => Some(n),
            _ => None,
        }
    }

    proof fn lemma_kind(kind: &NodeKind, node: Self) {
    }
}

impl Node for GenericProducer {
    open spec fn kind(self) -> NodeKind {
        NodeKind::GenericProducer(self)
    }

    open spec fn of_kind(kind: &NodeKind) -> Option<&Self> {
        match kind {
            NodeKind::GenericProducer(n) => Some(n),
            _ => None,
        }
    }

    fn erase(self) -> (kind: NodeKind) {
        NodeKind::GenericProducer(self)
    }

    fn downcast_ref(kind: &NodeKind) -> (node: Option<&Self>) {
        match kind {
            NodeKind::GenericProducer(n) => Some(n),
            _ => None,
        }
    }

    proof fn lemma_kind(kind: &NodeKind, node: Self) {
    }
}

impl Node for Custom {
    open spec fn kind(self) -> NodeKind {
        NodeKind::Custom(self)
    }

    open spec fn of_kind(kind: &NodeKind) -> Option<&Self> {
        match kind {
            NodeKind::Custom(n) => Some(n),
            _ => None,
        }
    }

    fn erase(self) -> (kind: NodeKind) {
        NodeKind::Custom(self)
    }

    fn downcast_ref(kind: &NodeKind) -> (node: Option<&Self>) {
        match kind {
            NodeKind::Custom(n) => Some(n),
            _ => None,
        }
    }

    proof fn lemma_kind(kind: &NodeKind, node: Self) {
    }
}

impl Node for Terminate {
    open spec fn kind(self) -> NodeKind {
        NodeKind::Terminate(self)
    }

    open spec fn of_kind(kind: &NodeKind) -> Option<&Self> {
        match kind {
            NodeKind::Terminate(n) => Some(n),
            _ => None,
        }
    }

    fn erase(self) -> (kind: NodeKind) {
        NodeKind::Terminate(self)
    }

    fn downcast_ref(kind: &NodeKind) -> (node: Option<&Self>) {
        match kind {
            NodeKind::Terminate(n) => Some(n),
            _ => None,
        }
    }

    proof fn lemma_kind(kind: &NodeKind, node: Self) {
    }
}

/// Ends the search on a producer whose capabilities satisfy the target.
pub struct EndOnProducer;

impl Terminal for EndOnProducer {
    open spec fn matches(&self, target: Set<Capability>, node: NodeKindView) -> bool {
        match node {
            NodeKindView::Producer(caps) => satisfies_spec(caps.to_set(), target),
            _ => false,
        }
    }

    fn terminate(&self, w: &Working, n: &NodeInstance) -> (hit: bool) {
        match n.kind() {
            NodeKind::Producer(p) => p.0.satisfies(w.target()),
            _ => false,
        }
    }

    open spec fn extracted(&self, target: Set<Capability>, payload: PayloadView) -> Result<
        BagExprView,
        ErrorView,
    > {
        match payload {
            PayloadView::Bag(bag) => Ok(bag),
            _ => Err(ErrorView::Cast),
        }
    }

    fn extract(&self, w: Working, payload: Payload) -> (s: Result<Solution, Error>) {
        match payload {
            Payload::Bag(bag) => Ok(Solution { bag_expr: bag }),
            _ => Err(Error::Cast),
        }
    }
}

/// Ends the search on a generic producer, whatever the target.
pub struct EndOnGenericProducer;

impl Terminal for EndOnGenericProducer {
    open spec fn matches(&self, target: Set<Capability>, node: NodeKindView) -> bool {
        node is GenericProducer
    }

    fn terminate(&self, w: &Working, n: &NodeInstance) -> (hit: bool) {
        match n.kind() {
            NodeKind::GenericProducer(_) => true,
            _ => false,
        }
    }

    open spec fn extracted(&self, target: Set<Capability>, payload: PayloadView) -> Result<
        BagExprView,
        ErrorView,
    > {
        match payload {
            PayloadView::Bag(bag) => Ok(bag),
            _ => Err(ErrorView::Cast),
        }
    }

    fn extract(&self, w: Working, payload: Payload) -> (s: Result<Solution, Error>) {
        match payload {
            Payload::Bag(bag) => Ok(Solution { bag_expr: bag }),
            _ => Err(Error::Cast),
        }
    }
}

/// Ends the search on a terminate node.
pub struct EndOnTerminate;

impl Terminal for EndOnTerminate {
    open spec fn matches(&self, target: Set<Capability>, node: NodeKindView) -> bool {
        node is Terminate
    }

    fn terminate(&self, w: &Working, n: &NodeInstance) -> (hit: bool) {
        match n.kind() {
            NodeKind::Terminate(_) => true,
            _ => false,
        }
    }

    open spec fn extracted(&self, target: Set<Capability>, payload: PayloadView) -> Result<
        BagExprView,
        ErrorView,
    > {
        match payload {
            PayloadView::Bag(bag) => Ok(bag),
            _ => Err(ErrorView::Cast),
        }
    }

    fn extract(&self, w: Working, payload: Payload) -> (s: Result<Solution, Error>) {
        match payload {
            Payload::Bag(bag) => Ok(Solution { bag_expr: bag }),
            _ => Err(Error::Cast),
        }
    }
}


/// The terminals that every solver starts with.
pub enum EndOn {
    Producer(EndOnProducer),
    GenericProducer(EndOnGenericProducer),
    Terminate(EndOnTerminate),
}

impl Terminal for EndOn {
    open spec fn matches(&self, target: Set<Capability>, node: NodeKindView) -> bool {
        match self {
            EndOn::Producer(t) => t.matches(target, node),
            EndOn::GenericProducer(t) => t.matches(target, node),
            EndOn::Terminate(t) => t.matches(target, node),
        }
    }

    fn terminate(&self, w: &Working, n: &NodeInstance) -> (hit: bool) {
        match self {
            EndOn::Producer(t) => t.terminate(w, n),
            EndOn::GenericProducer(t) => t.terminate(w, n),
            EndOn::Terminate(t) => t.terminate(w, n),
        }
    }

    open spec fn extracted(&self, target: Set<Capability>, payload: PayloadView) -> Result<
        BagExprView,
        ErrorView,
    > {
        match self {
            EndOn::Producer(t) => t.extracted(target, payload),
            EndOn::GenericProducer(t) => t.extracted(target, payload),
            EndOn::Terminate(t) => t.extracted(target, payload),
        }
    }

    fn extract(&self, w: Working, payload: Payload) -> (s: Result<Solution, Error>) {
        match self {
            EndOn::Producer(t) => t.extract(w, payload),
            EndOn::GenericProducer(t) => t.extract(w, payload),
            EndOn::Terminate(t) => t.extract(w, payload),
        }
    }
}

/// A terminal of a planner: one of those it starts with, or one of the
/// kind that its user registers.
pub enum End<T> {
    Builtin(EndOn),
    Custom(T),
}

impl<T: Terminal> Terminal for End<T> {
    open spec fn matches(&self, target: Set<Capability>, node: NodeKindView) -> bool {
        match self {
            End::Builtin(t) => t.matches(target, node),
            End::Custom(t) => t.matches(target, node),
        }
    }

    fn terminate(&self, w: &Working, n: &NodeInstance) -> (hit: bool) {
        match self {
            End::Builtin(t) => t.terminate(w, n),
            End::Custom(t) => t.terminate(w, n),
        }
    }

    open spec fn extracted(&self, target: Set<Capability>, payload: PayloadView) -> Result<
        BagExprView,
        ErrorView,
    > {
        match self {
            End::Builtin(t) => t.extracted(target, payload),
            End::Custom(t) => t.extracted(target, payload),
        }
    }

    fn extract(&self, w: Working, payload: Payload) -> (s: Result<Solution, Error>) {
        match self {
            End::Builtin(t) => t.extract(w, payload),
            End::Custom(t) => t.extract(w, payload),
        }
    }
}

} // verus!
