//! Asset-resolution planner: a best-first search over registered
//! transformation rules that turns an asset request into a typed plan.
//!
//! A [`BagRequest`] names an asset, the capabilities that the bag for it
//! must have, and the flags that the way to it must or must not have. A
//! [`Bagger`] searches the graph that its rules span from the request
//! ([`Bagger::solve`]). What comes back is a [`solver::Plan`]: the steps
//! from the request to a node that a terminal accepts. The plan says which
//! files it needs ([`solver::Plan::reads`]); the caller reads them and
//! hands them over ([`Bagger::finish`]), and gets the [`Solution`].

use vstd::prelude::*;

pub mod bag;
pub mod builtins;
pub mod error;
pub mod eval;
pub mod expr;
pub mod flag;
pub mod grab;
pub mod mime;
pub mod nodes;
pub mod order;
pub mod solver;
pub mod syntax;
pub mod uri;

pub use expr::BagInfo;
pub use flag::Flag;
pub use nodes::Node;
pub use solver::{EdgeBuilder, NodeInput, Solution};
pub use uri::Uri;

use builtins::{builtin_names, builtin_rules, register_builtins, Builtin, Rule};
use error::Error;
use eval::FileResult;
use flag::{interned, with_flag, without_flag, FlagMap, FlagSet, Flags};
use nodes::{End, EndOn, EndOnGenericProducer, EndOnProducer, EndOnTerminate};
use solver::{
    avoids, declares, files_view, finished, found, plan_view, searched, seeded, solution_view,
    solved, texts_view, Plan, RunView, Solver, Terminal, TransformInstance, Working,
};

verus! {

/// A place in source code, as the `proc_macro2` crate knows it. The planner
/// carries it from the request to the rules and never looks inside.
#[verifier::external_type_specification]
#[verifier::external_body]
pub struct ExSpan(proc_macro2::Span);

/// `proc_macro2::Span::call_site`: the place where the macro that is being
/// expanded was called.
#[verifier::external_body]
fn call_site() -> (span: proc_macro2::Span) {
    proc_macro2::Span::call_site()
}

/// What is asked for: an asset, what the bag for it must be capable of, the
/// flags that the way to it must or must not have, and the place in the
/// source that diagnostics point at.
#[derive(Debug)]
pub struct BagRequest {
    pub uri: Uri,
    pub target: BagInfo,
    pub required: FlagSet,
    pub forbidden: FlagSet,
    pub args: FlagMap,
    pub span: proc_macro2::Span,
}

impl BagRequest {
    /// The target and the flag sets hold nothing twice.
    pub open spec fn wf(&self) -> bool {
        &&& self.target.wf()
        &&& self.required.wf()
        &&& self.forbidden.wf()
    }

    /// What a run for this request is given.
    pub open spec fn run(&self) -> RunView {
        RunView {
            args: self.args@,
            target: self.target@,
            required: self.required.order(),
            forbidden: self.forbidden.order(),
        }
    }

    /// A request for `uri` as a bag with the capabilities `target`, with no
    /// flag required or forbidden and no argument.
    pub fn new(uri: Uri, target: BagInfo) -> (request: BagRequest)
        ensures
            request.uri == uri,
            request.target == target,
            request.required@ == Set::<Flag>::empty(),
            request.required.order() == Seq::<Flag>::empty(),
            request.forbidden@ == Set::<Flag>::empty(),
            request.forbidden.order() == Seq::<Flag>::empty(),
            request.args@ == Map::<Flag, Seq<char>>::empty(),
            request.wf() == target.wf(),
    {
        BagRequest {
            uri,
            target,
            required: FlagSet::new(),
            forbidden: FlagSet::new(),
            args: FlagMap::new(),
            span: call_site(),
        }
    }

    /// A copy of the request.
    pub fn duplicate(&self) -> (copy: BagRequest)
        ensures
            copy.uri@ == self.uri@,
            copy.run() == self.run(),
            copy.required@ == self.required@,
            copy.forbidden@ == self.forbidden@,
            copy.span == self.span,
            copy.wf() == self.wf(),
    {
        BagRequest {
            uri: self.uri.duplicate(),
            target: self.target.duplicate(),
            required: self.required.duplicate(),
            forbidden: self.forbidden.duplicate(),
            args: self.args.duplicate(),
            span: self.span,
        }
    }

    /// Requires `flag`, and forbids it no longer.
    pub fn require_flag(&mut self, flag: Flag)
        requires
            old(self).wf(),
        ensures
            final(self).wf(),
            final(self).required@ == old(self).required@.insert(flag),
            final(self).required.order() == with_flag(old(self).required.order(), flag),
            final(self).forbidden@ == old(self).forbidden@.remove(flag),
            final(self).forbidden.order() == without_flag(old(self).forbidden.order(), flag),
            final(self).uri == old(self).uri,
            final(self).target == old(self).target,
            final(self).args == old(self).args,
            final(self).span == old(self).span,
    {
        self.required.insert(flag);
        self.forbidden.remove(&flag);
    }

    /// Requires the flag named `flag`, which is interned in `flags`.
    pub fn require(&mut self, flags: &mut Flags, flag: &str)
        requires
            old(self).wf(),
            old(flags).wf(),
        ensures
            final(self).wf(),
            final(flags).wf(),
            final(flags).names() == interned(old(flags).names(), flag@).0,
            final(self).required@ == old(self).required@.insert(
                Flag::at(interned(old(flags).names(), flag@).1),
            ),
            final(self).required.order() == with_flag(
                old(self).required.order(),
                Flag::at(interned(old(flags).names(), flag@).1),
            ),
            final(self).forbidden@ == old(self).forbidden@.remove(
                Flag::at(interned(old(flags).names(), flag@).1),
            ),
            final(self).forbidden.order() == without_flag(
                old(self).forbidden.order(),
                Flag::at(interned(old(flags).names(), flag@).1),
            ),
            final(self).uri == old(self).uri,
            final(self).target == old(self).target,
            final(self).args == old(self).args,
            final(self).span == old(self).span,
    {
        let f = Flag::from_str(flags, flag);
        self.require_flag(f)
    }

    /// Forbids `flag`, and requires it no longer.
    pub fn forbid_flag(&mut self, flag: Flag)
        requires
            old(self).wf(),
        ensures
            final(self).wf(),
            final(self).forbidden@ == old(self).forbidden@.insert(flag),
            final(self).forbidden.order() == with_flag(old(self).forbidden.order(), flag),
            final(self).required@ == old(self).required@.remove(flag),
            final(self).required.order() == without_flag(old(self).required.order(), flag),
            final(self).uri == old(self).uri,
            final(self).target == old(self).target,
            final(self).args == old(self).args,
            final(self).span == old(self).span,
    {
        self.forbidden.insert(flag);
        self.required.remove(&flag);
    }

    /// Forbids the flag named `flag`, which is interned in `flags`.
    pub fn forbid(&mut self, flags: &mut Flags, flag: &str)
        requires
            old(self).wf(),
            old(flags).wf(),
        ensures
            final(self).wf(),
            final(flags).wf(),
            final(flags).names() == interned(old(flags).names(), flag@).0,
            final(self).forbidden@ == old(self).forbidden@.insert(
                Flag::at(interned(old(flags).names(), flag@).1),
            ),
            final(self).forbidden.order() == with_flag(
                old(self).forbidden.order(),
                Flag::at(interned(old(flags).names(), flag@).1),
            ),
            final(self).required@ == old(self).required@.remove(
                Flag::at(interned(old(flags).names(), flag@).1),
            ),
            final(self).required.order() == without_flag(
                old(self).required.order(),
                Flag::at(interned(old(flags).names(), flag@).1),
            ),
            final(self).uri == old(self).uri,
            final(self).target == old(self).target,
            final(self).args == old(self).args,
            final(self).span == old(self).span,
    {
        let f = Flag::from_str(flags, flag);
        self.forbid_flag(f)
    }

    /// Sets the argument `flag` to `val`.
    pub fn arg_flag(&mut self, flag: Flag, val: &str)
        ensures
            final(self).args@ == old(self).args@.insert(flag, val@),
            final(self).uri == old(self).uri,
            final(self).target == old(self).target,
            final(self).required == old(self).required,
            final(self).forbidden == old(self).forbidden,
            final(self).span == old(self).span,
    {
        self.args.insert(flag, val.to_owned());
    }

    /// Sets the argument named `flag`, which is interned in `flags`, to
    /// `val`.
    pub fn arg(&mut self, flags: &mut Flags, flag: &str, val: &str)
        requires
            old(flags).wf(),
        ensures
            final(flags).wf(),
            final(flags).names() == interned(old(flags).names(), flag@).0,
            final(self).args@ == old(self).args@.insert(
                Flag::at(interned(old(flags).names(), flag@).1),
                val@,
            ),
            final(self).uri == old(self).uri,
            final(self).target == old(self).target,
            final(self).required == old(self).required,
            final(self).forbidden == old(self).forbidden,
            final(self).span == old(self).span,
    {
        let f = Flag::from_str(flags, flag);
        self.arg_flag(f, val)
    }
}


/// The planner: the built-in rules and terminals, and those registered
/// after them.
pub struct Bagger<R: TransformInstance = Builtin, T: Terminal = EndOn> {
    solver: Solver<Rule<R>, End<T>>,
}

/// The terminals that a planner starts with, in the order in which they
/// are tried.
pub open spec fn builtin_terminals<T>() -> Seq<End<T>> {
    seq![
        End::Builtin(EndOn::Producer(EndOnProducer)),
        End::Builtin(EndOn::GenericProducer(EndOnGenericProducer)),
        End::Builtin(EndOn::Terminate(EndOnTerminate)),
    ]
}

impl Bagger<Builtin, EndOn> {
    /// A planner with the built-in terminals and rules. The flags that the
    /// rules speak of are interned in `flags`.
    pub fn new(flags: &mut Flags) -> (bggr: Bagger)
        requires
            old(flags).wf(),
        ensures
            final(flags).wf(),
            final(flags).names() == builtin_names(old(flags).names()),
            bggr.terminals() == builtin_terminals::<EndOn>(),
            bggr.rules() == builtin_rules::<Builtin>(old(flags).names()),
    {
        Bagger::with_builtins(flags)
    }
}

impl<R: TransformInstance, T: Terminal> Bagger<R, T> {
    /// The registered rules, in registration order.
    pub closed spec fn rules(&self) -> Seq<Rule<R>> {
        self.solver.transforms@
    }

    /// The registered terminals, in registration order.
    pub closed spec fn terminals(&self) -> Seq<End<T>> {
        self.solver.terminals@
    }

    /// A planner with the built-in terminals and rules, to which rules of
    /// type `R` and terminals of type `T` can be added. The flags that the
    /// built-in rules speak of are interned in `flags`.
    pub fn with_builtins(flags: &mut Flags) -> (bggr: Self)
        requires
            old(flags).wf(),
        ensures
            final(flags).wf(),
            final(flags).names() == builtin_names(old(flags).names()),
            bggr.terminals() == builtin_terminals::<T>(),
            bggr.rules() == builtin_rules::<R>(old(flags).names()),
    {
        let mut terminals: Vec<End<T>> = Vec::new();
        terminals.push(End::Builtin(EndOn::Producer(EndOnProducer)));
        terminals.push(End::Builtin(EndOn::GenericProducer(EndOnGenericProducer)));
        terminals.push(End::Builtin(EndOn::Terminate(EndOnTerminate)));
        assert(terminals@ =~= builtin_terminals::<T>());
        let mut bggr = Bagger { solver: Solver { transforms: Vec::new(), terminals } };
        register_builtins(&mut bggr, flags);
        assert(bggr.rules() =~= builtin_rules::<R>(old(flags).names()));
        bggr
    }

    /// Registers a rule, built in or not, after those that are registered.
    pub fn register(&mut self, rule: Rule<R>)
        ensures
            final(self).rules() == old(self).rules().push(rule),
            final(self).terminals() == old(self).terminals(),
    {
        self.solver.transforms.push(rule);
    }

    /// Registers a rule, after those that are registered.
    pub fn transform(&mut self, trans: R)
        ensures
            final(self).rules() == old(self).rules().push(Rule::Custom(trans)),
            final(self).terminals() == old(self).terminals(),
    {
        self.solver.transforms.push(Rule::Custom(trans));
    }

    /// Registers a terminal, after those that are registered.
    pub fn terminal(&mut self, term: T)
        ensures
            final(self).terminals() == old(self).terminals().push(End::Custom(term)),
            final(self).rules() == old(self).rules(),
    {
        self.solver.terminals.push(End::Custom(term));
    }

    /// Searches for a terminal node: see [`Solver::search`].
    pub fn search(&self, bag: BagRequest) -> (end: (Working, Option<(usize, usize)>))
        requires
            bag.wf(),
        ensures
            end.0.wf(),
            end.0.complete(),
            end.0.run() == bag.run(),
            end.0.span_spec() == bag.span,
            exists|fuel: nat|
                searched(bag.run(), self.rules(), self.terminals(), seeded(bag.uri@), fuel)
                    == Some(found(end.0.state(), end.1)),
            end.1 matches Some((node, terminal)) ==> node < end.0.state().nodes.len() && terminal
                < self.terminals().len(),
    {
        let end = self.solver.search(bag);
        proof {
            let fuel = choose|fuel: nat|
                searched(
                    bag.run(),
                    self.solver.transforms@,
                    self.solver.terminals@,
                    seeded(bag.uri@),
                    fuel,
                ) == Some(found(end.0.state(), end.1));
            assert(searched(bag.run(), self.rules(), self.terminals(), seeded(bag.uri@), fuel)
                == Some(found(end.0.state(), end.1)));
        }
        end
    }

    /// Plans the request: see [`Solver::solve`].
    pub fn solve(&self, bag: BagRequest) -> (plan: Result<Plan, Error>)
        requires
            bag.wf(),
        ensures
            exists|fuel: nat|
                solved(bag.run(), bag.uri@, self.rules(), self.terminals(), fuel) == Some(
                    plan_view(plan),
                ),
            plan matches Ok(p) ==> {
                &&& p.wf()
                &&& p@.run == bag.run()
                &&& p@.terminal < self.terminals().len()
                &&& avoids(p@.steps, bag.forbidden@)
                &&& bag.required@.subset_of(declares(p@.steps))
            },
    {
        let plan = self.solver.solve(bag);
        proof {
            let fuel = choose|fuel: nat|
                solved(
                    bag.run(),
                    bag.uri@,
                    self.solver.transforms@,
                    self.solver.terminals@,
                    fuel,
                ) == Some(plan_view(plan));
            assert(solved(bag.run(), bag.uri@, self.rules(), self.terminals(), fuel) == Some(
                plan_view(plan),
            ));
        }
        plan
    }

    /// Replays a plan on the files it needs: see [`Solver::finish`].
    pub fn finish(&self, plan: Plan, files: Vec<FileResult>) -> (s: Result<Solution, Error>)
        requires
            plan.wf(),
        ensures
            exists|literals: Seq<Seq<char>>|
                solution_view(s) == #[trigger] finished(
                    self.terminals(),
                    plan@,
                    files_view(files@),
                    literals,
                ),
    {
        let s = self.solver.finish(plan, files);
        proof {
            let literals = choose|literals: Seq<Seq<char>>|
                solution_view(s) == #[trigger] finished(
                    self.solver.terminals@,
                    plan@,
                    files_view(files@),
                    literals,
                );
            assert(solution_view(s) == finished(
                self.terminals(),
                plan@,
                files_view(files@),
                literals,
            ));
        }
        s
    }

    /// Replays a plan on the files it needs, with the literals it writes
    /// given in their printed form: see [`Solver::finish_with`].
    pub fn finish_with(&self, plan: Plan, files: Vec<FileResult>, literals: Vec<String>) -> (s:
        Result<Solution, Error>)
        requires
            plan.wf(),
        ensures
            solution_view(s) == finished(
                self.terminals(),
                plan@,
                files_view(files@),
                texts_view(literals@),
            ),
    {
        self.solver.finish_with(plan, files, literals)
    }
}

} // verus!
