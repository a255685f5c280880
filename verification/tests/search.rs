use bagger::error::Error;
use bagger::eval::{Evaluator, Payload, Quoted};
use bagger::expr::{BagExpr, BagTrait, Type};
use bagger::flag::{Flag, FlagSet, Flags};
use bagger::flag::FlagMap;
use bagger::nodes::{
    Custom, EndOn, EndOnTerminate, LocalPath, Node, NodeKind, Producer, Request, Terminate,
};
use bagger::solver::{
    Edges, FnTransform, NodeInstance, Solver, Terminal, TransformInstance, Working,
};
use bagger::{BagInfo, BagRequest, Bagger, EdgeBuilder, NodeInput, Solution, Uri};

fn request(path: &str, target: &str) -> BagRequest {
    BagRequest::new(Uri::local(path), BagInfo::simple(Type::named(target), None))
}

/// A rule for tests: from the request to a terminate node that declares a
/// flag, behind a second edge of higher priority that is stopped.
struct Direct {
    declares: Flag,
}

impl TransformInstance for Direct {
    fn apply(&self, input: &NodeInput, edges: &mut Edges) {
        if Request::downcast_ref(input.node).is_some() {
            let mut edge = EdgeBuilder::new();
            edge.satisfies_flag(self.declares);
            edge.value(Evaluator::Constant(Payload::Bag(BagExpr {
                expr: "made()".to_string(),
                yields: Type::named("Made"),
            })));
            edges.add(Terminate.erase(), edge);

            let mut edge = EdgeBuilder::new();
            edge.priority(7);
            edge.stop(Error::Stopped("closed".to_string()));
            edges.add(Terminate.erase(), edge);
        }
    }
}

#[test]
fn a_rule_of_ones_own_is_searched() {
    let mut flags = Flags::new();
    let fast = Flag::from_str(&mut flags, "fast");
    let mut solver: Solver<Direct, EndOn> = Solver::new();
    solver.transforms.push(Direct { declares: fast });

    let mut req = request("x", "str");
    req.require_flag(fast);
    let plan = solver.solve(req).ok().unwrap();
    assert_eq!(plan.len(), 1);
    assert_eq!(plan.terminal(), 2);
    assert!(plan.step(0).declared().contains(&fast));
    assert!(plan.step(0).satisfies().contains(&fast));
    assert!(plan.step(0).active());
    assert_eq!(plan.step(0).parent(), 0);
    assert!(plan.step(0).is::<Terminate>());
    assert!(plan.step(0).downcast_ref::<LocalPath>().is_none());
    let sol = solver.finish(plan, Vec::new()).ok().unwrap();
    assert_eq!(sol.bag_expr.expr, "made()");
    assert_eq!(sol.bag_expr.yields, Type::named("Made"));
}

#[test]
fn an_active_edge_is_explored_before_a_stopped_one_of_higher_priority() {
    let mut flags = Flags::new();
    let fast = Flag::from_str(&mut flags, "fast");
    let mut solver: Solver<Direct, EndOn> = Solver::new();
    solver.transforms.push(Direct { declares: fast });
    let (work, end) = solver.search(request("x", "str"));
    assert_eq!(end, Some((1, 2)));
    assert_eq!(work.len(), 3);
    assert!(work.node(1).unwrap().active());
    assert!(!work.node(2).unwrap().active());
}

#[test]
fn a_forbidden_flag_stops_the_edge_that_declares_it() {
    let mut flags = Flags::new();
    let fast = Flag::from_str(&mut flags, "fast");
    let mut solver: Solver<Direct, EndOn> = Solver::new();
    solver.transforms.push(Direct { declares: fast });
    let mut req = request("x", "str");
    req.forbid_flag(fast);
    let (mut work, end) = solver.search(req);
    // both edges are stopped now, and a stopped edge meets no terminal
    assert_eq!(end, None);
    assert_eq!(work.len(), 3);
    assert!(!work.node(1).unwrap().active());
    assert_eq!(work.backtrace(2).err(), Some(Error::Stopped("closed".to_string())));
    assert_eq!(work.backtrace(1).err(), Some(Error::Forbidden(fast)));
}

#[test]
fn a_node_is_backtraced_once() {
    let mut flags = Flags::new();
    let bggr = Bagger::new(&mut flags);
    let mut req = request("./tests/hello.txt", "str");
    req.require(&mut flags, "include");
    let (mut work, end) = bggr.search(req);
    let (node, terminal) = end.unwrap();
    assert_eq!(terminal, 0);
    let first = work.backtrace(node).ok().unwrap();
    assert_eq!(first.len(), 2);
    assert!(work.node(node).is_none());
    assert_eq!(work.backtrace(node).err(), Some(Error::BacktraceLoop));
}

#[test]
fn the_root_is_never_taken() {
    let mut flags = Flags::new();
    let bggr = Bagger::new(&mut flags);
    let (mut work, _) = bggr.search(request("./tests/hello.txt", "str"));
    assert_eq!(work.backtrace(0).ok().map(|path| path.len()), Some(0));
    assert_eq!(work.backtrace(0).ok().map(|path| path.len()), Some(0));
    assert!(work.node(0).is_some());
    let beyond = work.len();
    assert_eq!(work.backtrace(beyond).err(), Some(Error::BacktraceLoop));
}

#[test]
fn solving_twice_gives_the_same_solution() {
    let mut flags = Flags::new();
    let bggr = Bagger::new(&mut flags);
    let mut req = request("./tests/hello.txt", "String");
    req.require(&mut flags, "static");
    let solve = |req: BagRequest| {
        let plan = bggr.solve(req).ok().unwrap();
        let reads = plan.reads();
        let files = reads.iter().map(|_| Ok(b"Hi".to_vec())).collect();
        let sol = bggr.finish(plan, files).ok().unwrap();
        (reads, sol.bag_expr.expr, sol.bag_expr.yields)
    };
    let first = solve(req.duplicate());
    let second = solve(req);
    assert_eq!(first, second);
}

#[test]
fn an_owned_string_is_mapped_lazily_from_the_static_text() {
    let mut flags = Flags::new();
    let bggr = Bagger::new(&mut flags);
    let mut req = request("./tests/hello.txt", "String");
    req.require(&mut flags, "static");
    req.forbid(&mut flags, "include");
    let plan = bggr.solve(req).ok().unwrap();
    assert_eq!(plan.len(), 4);
    let sol = bggr.finish(plan, vec![Ok(b"Hi".to_vec())]).ok().unwrap();
    let inner = "::bag::bags::Static<&'static str>";
    assert_eq!(
        sol.bag_expr.yields.text,
        format!("::bag::bags::LazyMap<({inner},), String, fn(({inner},)) -> String>")
    );
    assert_eq!(
        sol.bag_expr.expr,
        format!(
            "::bag::bags::LazyMap::<({inner},), String, fn(({inner},)) -> String>::new(\
             ({{ ::bag::bags::Static::<&'static str>({{ \"Hi\" }}) }},), \
             |(chars,)| ::bag::Bag::<str>::get(&chars).to_owned())"
        )
    );
}

#[test]
fn an_owned_vector_is_mapped_lazily_from_the_embedded_bytes() {
    let mut flags = Flags::new();
    let bggr = Bagger::new(&mut flags);
    let mut req = request("./tests/tiny.png", "Vec<u8>");
    req.require(&mut flags, "include");
    let plan = bggr.solve(req).ok().unwrap();
    assert!(plan.reads().is_empty());
    let sol = bggr.finish(plan, Vec::new()).ok().unwrap();
    let inner = "::bag::bags::Static<&'static [u8]>";
    assert_eq!(
        sol.bag_expr.expr,
        format!(
            "::bag::bags::LazyMap::<({inner},), Vec<u8>, fn(({inner},)) -> Vec<u8>>::new(\
             ({{ ::bag::bags::Static::<&'static [u8]>({{ include_bytes!(\"./tests/tiny.png\") }}) }},), \
             |(elems,)| ::bag::Bag::<[_]>::get(&elems).to_owned())"
        )
    );
}

#[test]
fn a_scheme_that_is_not_the_file_system_stops_the_way() {
    let mut flags = Flags::new();
    let bggr = Bagger::new(&mut flags);
    let mut uri = Uri::local("/a.txt");
    uri.scheme = Some("https".to_string());
    let req = BagRequest::new(uri, BagInfo::simple(Type::named("str"), None));
    assert_eq!(
        bggr.solve(req).err(),
        Some(Error::Stopped("scheme does not reference the file system".to_string()))
    );
    let mut uri = Uri::local("/a.txt");
    uri.scheme = Some("files".to_string());
    let req = BagRequest::new(uri, BagInfo::simple(Type::named("str"), None));
    assert!(bggr.solve(req).is_ok());
}

#[test]
fn a_file_that_cannot_be_read_fails_the_replay() {
    let mut flags = Flags::new();
    let bggr = Bagger::new(&mut flags);
    let mut req = request("./tests/hello.txt", "str");
    req.require(&mut flags, "static");
    req.forbid(&mut flags, "include");
    let plan = bggr.solve(req.duplicate()).ok().unwrap();
    assert_eq!(
        bggr.finish(plan, vec![Err("No such file".to_string())]).err(),
        Some(Error::Io("No such file".to_string()))
    );
    let plan = bggr.solve(req.duplicate()).ok().unwrap();
    assert_eq!(
        bggr.finish(plan, Vec::new()).err(),
        Some(Error::Io("file was not read".to_string()))
    );
    let plan = bggr.solve(req).ok().unwrap();
    assert_eq!(bggr.finish(plan, vec![Ok(vec![0xff])]).err(), Some(Error::NotUtf8));
}

#[test]
fn bytes_are_written_as_a_byte_string() {
    let mut flags = Flags::new();
    let bggr = Bagger::new(&mut flags);
    let mut req = BagRequest::new(
        Uri::local("./tests/tiny.png"),
        BagInfo::simple(Type::slice("u8"), None),
    );
    req.require(&mut flags, "static");
    req.forbid(&mut flags, "include");
    let plan = bggr.solve(req).ok().unwrap();
    let sol = bggr.finish(plan, vec![Ok(vec![0x89, b'P', b'"', 0])]).ok().unwrap();
    assert_eq!(
        sol.bag_expr.expr,
        "::bag::bags::Static::<&'static [u8]>({ b\"\\x89P\\\"\\0\" })"
    );
}

#[test]
fn text_is_written_as_an_escaped_string() {
    let out = Evaluator::TextLiteral
        .apply(Payload::Bytes(b"a\"b\n".to_vec()), None)
        .ok()
        .unwrap();
    match out {
        Payload::Bag(bag) => {
            assert_eq!(bag.expr, "::bag::bags::Static::<&'static str>({ \"a\\\"b\\n\" })")
        }
        _ => panic!("expected a bag"),
    }
}

#[test]
fn an_evaluator_refuses_a_payload_of_the_wrong_kind() {
    let wrong = || Payload::Bytes(vec![1]);
    let cast = |ev: Evaluator, input: Payload| ev.apply(input, None).err();
    assert_eq!(cast(Evaluator::ReadFile("a".to_string()), wrong()), Some(Error::Cast));
    assert_eq!(cast(Evaluator::EmbedStr("a".to_string()), wrong()), Some(Error::Cast));
    assert_eq!(cast(Evaluator::EmbedBytes("a".to_string()), wrong()), Some(Error::Cast));
    assert_eq!(cast(Evaluator::BytesLiteral, Payload::Unit), Some(Error::Cast));
    assert_eq!(cast(Evaluator::TextLiteral, Payload::Unit), Some(Error::Cast));
    assert_eq!(cast(Evaluator::BagStatic, Payload::Unit), Some(Error::Cast));
    assert_eq!(cast(Evaluator::BagLazyMap, Payload::Unit), Some(Error::Cast));
    let map = Evaluator::MapBag {
        name: "x".to_string(),
        expr: "x".to_string(),
        ty: Type::named("X"),
    };
    assert_eq!(cast(map, Payload::Unit), Some(Error::Cast));
    assert!(matches!(Evaluator::Trivial.apply(wrong(), None), Ok(Payload::Unit)));
    assert!(matches!(
        Evaluator::Constant(Payload::Bytes(vec![7])).apply(Payload::Unit, None),
        Ok(Payload::Bytes(bytes)) if bytes == vec![7]
    ));
    assert_eq!(Evaluator::ReadFile("a".to_string()).reads(), Some(&"a".to_string()));
    assert_eq!(Evaluator::Trivial.reads(), None);
}

#[test]
fn a_terminal_refuses_a_payload_that_is_no_bag() {
    let mut flags = Flags::new();
    let fast = Flag::from_str(&mut flags, "fast");
    struct Empty;
    impl TransformInstance for Empty {
        fn apply(&self, input: &NodeInput, edges: &mut Edges) {
            if Request::downcast_ref(input.node).is_some() {
                edges.add(Terminate.erase(), EdgeBuilder::new());
            }
        }
    }
    let _ = fast;
    let mut solver: Solver<Empty, EndOn> = Solver::new();
    solver.transforms.push(Empty);
    let plan = solver.solve(request("x", "str")).ok().unwrap();
    assert_eq!(solver.finish(plan, Vec::new()).err(), Some(Error::Cast));
    let _ = EndOnTerminate;
}

#[test]
fn a_producer_ends_the_search_when_it_satisfies_the_target() {
    let info = BagInfo::simple(Type::named("str"), Some(Type::named("&'static str")));
    let kind = Producer(info).erase();
    assert!(Producer::downcast_ref(&kind).is_some());
    assert!(Request::downcast_ref(&kind).is_none());
    match &kind {
        NodeKind::Producer(p) => assert!(p.0.contains(BagTrait::Simple, &Type::named("str"))),
        _ => panic!("expected a producer"),
    }
    let mut set = FlagSet::new();
    set.insert(Flag::artifact());
    assert_eq!(set.len(), 1);
}

#[test]
fn a_plan_avoids_what_is_forbidden_and_declares_what_is_required() {
    let mut flags = Flags::new();
    let bggr = Bagger::new(&mut flags);
    let is_static = Flag::from_str(&mut flags, "static");
    let embedded = Flag::from_str(&mut flags, "include");
    let mut req = request("./tests/hello.txt", "str");
    req.require_flag(is_static);
    req.forbid_flag(embedded);
    let plan = bggr.solve(req).ok().unwrap();
    assert_eq!(plan.len(), 3);
    let mut declared = FlagSet::new();
    for i in 0..plan.len() {
        assert!(!plan.step(i).declared().contains(&embedded));
        assert!(plan.step(i).active());
        if plan.step(i).declared().contains(&is_static) {
            declared.insert(is_static);
        }
    }
    assert!(declared.contains(&is_static));
    assert!(plan.step(0).satisfies().contains(&is_static));
    assert!(!plan.step(2).satisfies().contains(&is_static));

    let mut req = request("./tests/hello.txt", "str");
    req.require_flag(embedded);
    let plan = bggr.solve(req).ok().unwrap();
    assert_eq!(plan.len(), 2);
    assert!(plan.step(0).declared().contains(&embedded));
}

#[test]
fn requiring_lifts_a_ban_and_forbidding_lifts_a_demand() {
    let mut flags = Flags::new();
    let flag = Flag::from_str(&mut flags, "static");
    let mut req = request("a", "str");
    req.forbid_flag(flag);
    assert!(req.forbidden.contains(&flag));
    req.require_flag(flag);
    assert!(req.required.contains(&flag));
    assert!(!req.forbidden.contains(&flag));
    req.forbid(&mut flags, "static");
    assert!(!req.required.contains(&flag));
    assert!(req.forbidden.contains(&flag));
    req.arg_flag(flag, "x");
    req.arg(&mut flags, "static", "y");
    assert_eq!(req.args.get(&flag), Some(&"y".to_string()));
}

#[test]
fn a_planner_takes_rules_and_terminals_of_its_user() {
    let mut flags = Flags::new();
    let mut bggr: Bagger<Direct, EndOn> = Bagger::with_builtins(&mut flags);
    let fast = Flag::from_str(&mut flags, "fast");
    bggr.transform(Direct { declares: fast });
    bggr.terminal(EndOn::Terminate(EndOnTerminate));

    let mut req = request("./tests/hello.txt", "Made");
    req.require_flag(fast);
    let plan = bggr.solve(req).ok().unwrap();
    assert_eq!(plan.len(), 1);
    assert_eq!(plan.terminal(), 2);
    let sol = bggr.finish(plan, Vec::new()).ok().unwrap();
    assert_eq!(sol.bag_expr.expr, "made()");

    // the built-in rules are still there
    let mut req = request("./tests/hello.txt", "str");
    req.require(&mut flags, "include");
    assert_eq!(bggr.solve(req).ok().map(|plan| plan.len()), Some(2));
}

fn planner<F>(flags: &mut Flags, func: F) -> Bagger<FnTransform<Request, F>, EndOn>
where
    F: Fn(&Request, &FlagMap) -> Vec<(NodeKind, EdgeBuilder)>,
{
    let mut bggr = Bagger::with_builtins(flags);
    bggr.transform(FnTransform::new(func));
    bggr
}

#[test]
fn a_closure_is_a_rule_for_the_nodes_of_its_type() {
    let mut flags = Flags::new();
    let size = Flag::from_str(&mut flags, "size");
    let bggr = planner(&mut flags, move |request: &Request, args: &FlagMap| {
        let mut edge = EdgeBuilder::new();
        let text = format!("{}@{}", request.0.path, args.get(&size).map_or("?", |s| s.as_str()));
        edge.value(Evaluator::Constant(Payload::Bag(BagExpr {
            expr: text,
            yields: Type::named("Made"),
        })));
        vec![(Terminate.erase(), edge)]
    });
    let mut req = request("a.bin", "Made");
    req.arg_flag(size, "120px");
    let plan = bggr.solve(req).ok().unwrap();
    assert_eq!(plan.len(), 1);
    let sol = bggr.finish(plan, Vec::new()).ok().unwrap();
    assert_eq!(sol.bag_expr.expr, "a.bin@120px");
}

/// A terminal for tests: ends the search on a node of a kind of its own.
struct EndOnArchive;

impl Terminal for EndOnArchive {
    fn terminate(&self, _: &Working, n: &NodeInstance) -> bool {
        match n.downcast_ref::<Custom>() {
            Some(node) => node.tag == "archive",
            None => false,
        }
    }

    fn extract(&self, _: Working, payload: Payload) -> Result<Solution, Error> {
        match payload {
            Payload::Bag(bag) => Ok(Solution { bag_expr: bag }),
            _ => Err(Error::Cast),
        }
    }
}

#[test]
fn a_rule_set_brings_its_own_kind_of_node_and_its_terminal() {
    let mut flags = Flags::new();
    let rule = FnTransform::new(|path: &LocalPath, _: &FlagMap| {
        let mut edge = EdgeBuilder::new();
        edge.priority(5);
        edge.value(Evaluator::Constant(Payload::Bag(BagExpr {
            expr: format!("unpack({:?})", path.0),
            yields: Type::named("Archive"),
        })));
        let node = Custom { tag: "archive".to_string(), data: path.0.clone() };
        vec![(node.erase(), edge)]
    });
    let mut bggr = Bagger::with_builtins(&mut flags);
    bggr.transform(rule);
    bggr.terminal(EndOnArchive);
    let plan = bggr.solve(request("a.zip", "Archive")).ok().unwrap();
    assert_eq!(plan.terminal(), 3);
    assert_eq!(plan.len(), 2);
    assert_eq!(
        plan.step(0).downcast_ref::<Custom>().map(|node| node.data.as_str()),
        Some("a.zip")
    );
    let sol = bggr.finish(plan, Vec::new()).ok().unwrap();
    assert_eq!(sol.bag_expr.expr, "unpack(\"a.zip\")");
}

#[test]
fn an_evaluator_says_what_it_writes_as_a_literal() {
    let path = || "a\"b.txt".to_string();
    assert_eq!(
        Evaluator::EmbedStr(path()).quotes(&Payload::Unit),
        Some(Quoted::Text(path()))
    );
    assert_eq!(
        Evaluator::EmbedBytes(path()).quotes(&Payload::Unit),
        Some(Quoted::Text(path()))
    );
    assert_eq!(Evaluator::EmbedStr(path()).quotes(&Payload::Bytes(vec![1])), None);
    assert_eq!(
        Evaluator::BytesLiteral.quotes(&Payload::Bytes(vec![0, 255])),
        Some(Quoted::Bytes(vec![0, 255]))
    );
    assert_eq!(
        Evaluator::TextLiteral.quotes(&Payload::Bytes(b"hi".to_vec())),
        Some(Quoted::Text("hi".to_string()))
    );
    assert_eq!(Evaluator::TextLiteral.quotes(&Payload::Bytes(vec![0xff])), None);
    assert_eq!(Evaluator::TextLiteral.quotes(&Payload::Unit), None);
    assert_eq!(Evaluator::Trivial.quotes(&Payload::Unit), None);
    assert_eq!(Evaluator::ReadFile(path()).quotes(&Payload::Unit), None);
}

#[test]
fn an_evaluator_builds_on_the_printed_literal_it_is_given() {
    let bag = |out: Result<Payload, Error>| match out {
        Ok(Payload::Bag(bag)) => bag.expr,
        _ => panic!("expected a bag"),
    };
    let given = "<literal>".to_string();
    assert_eq!(
        bag(Evaluator::EmbedStr("a.txt".to_string()).apply_with(Payload::Unit, None, given.clone())),
        "::bag::bags::Static::<&'static str>({ include_str!(<literal>) })"
    );
    assert_eq!(
        bag(Evaluator::EmbedBytes("a.txt".to_string()).apply_with(
            Payload::Unit,
            None,
            given.clone()
        )),
        "::bag::bags::Static::<&'static [u8]>({ include_bytes!(<literal>) })"
    );
    assert_eq!(
        bag(Evaluator::BytesLiteral.apply_with(Payload::Bytes(vec![1]), None, given.clone())),
        "::bag::bags::Static::<&'static [u8]>({ <literal> })"
    );
    assert_eq!(
        bag(Evaluator::TextLiteral.apply_with(Payload::Bytes(vec![b'a']), None, given.clone())),
        "::bag::bags::Static::<&'static str>({ <literal> })"
    );
    assert_eq!(
        Evaluator::TextLiteral
            .apply_with(Payload::Bytes(vec![0xff]), None, given.clone())
            .err(),
        Some(Error::NotUtf8)
    );
    assert_eq!(
        Evaluator::ReadFile("a".to_string())
            .apply_with(Payload::Unit, Some(Err("gone".to_string())), given)
            .err(),
        Some(Error::Io("gone".to_string()))
    );
}

#[test]
fn a_plan_is_replayed_on_the_printed_literals_it_is_given() {
    let mut flags = Flags::new();
    let bggr = Bagger::new(&mut flags);
    let mut req = request("./tests/hello.txt", "String");
    req.require(&mut flags, "static");
    req.forbid(&mut flags, "include");
    let plan = bggr.solve(req.duplicate()).ok().unwrap();
    let sol = bggr
        .finish_with(plan, vec![Ok(b"Hi".to_vec())], vec!["\"Hi\"".to_string()])
        .ok()
        .unwrap();
    let plan = bggr.solve(req.duplicate()).ok().unwrap();
    let printed = bggr.finish(plan, vec![Ok(b"Hi".to_vec())]).ok().unwrap();
    assert_eq!(sol.bag_expr.expr, printed.bag_expr.expr);

    // a literal that is not given is the empty text; one too many is left
    let plan = bggr.solve(req.duplicate()).ok().unwrap();
    let sol = bggr.finish_with(plan, vec![Ok(b"Hi".to_vec())], Vec::new()).ok().unwrap();
    assert!(sol.bag_expr.expr.contains("::bag::bags::Static::<&'static str>({  })"));
    let plan = bggr.solve(req).ok().unwrap();
    let sol = bggr
        .finish_with(
            plan,
            vec![Ok(b"Hi".to_vec())],
            vec!["one".to_string(), "two".to_string()],
        )
        .ok()
        .unwrap();
    assert!(sol.bag_expr.expr.contains("({ one })"));
    assert!(!sol.bag_expr.expr.contains("two"));
}

#[test]
fn the_first_flag_in_the_order_of_the_request_is_the_one_reported() {
    let mut flags = Flags::new();
    let bggr = Bagger::new(&mut flags);
    let small = Flag::from_str(&mut flags, "small");
    let fast = Flag::from_str(&mut flags, "fast");
    let mut req = request("./tests/hello.txt", "str");
    req.require_flag(fast);
    req.require_flag(small);
    assert_eq!(bggr.solve(req).err(), Some(Error::Missing(fast)));

    let mut req = request("./tests/hello.txt", "str");
    req.require_flag(small);
    req.require_flag(fast);
    req.require_flag(small);
    assert_eq!(bggr.solve(req.duplicate()).err(), Some(Error::Missing(small)));
    req.forbid_flag(small);
    assert_eq!(bggr.solve(req).err(), Some(Error::Missing(fast)));
}

#[test]
fn a_producer_of_the_infallible_bag_ends_the_search_for_the_fallible_one() {
    let mut flags = Flags::new();
    let bggr = Bagger::new(&mut flags);
    let mut req = BagRequest::new(
        Uri::local("./tests/hello.txt"),
        BagInfo::simple_try(Type::named("str"), None),
    );
    req.require(&mut flags, "include");
    let plan = bggr.solve(req).ok().unwrap();
    assert_eq!(plan.len(), 2);
    assert_eq!(plan.terminal(), 0);
}
