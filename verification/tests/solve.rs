use bagger::error::Error;
use bagger::expr::Type;
use bagger::flag::{Flag, Flags};
use bagger::syntax::{GenericArgument, Path, PathArguments, PathSegment, TypeSyntax};
use bagger::{BagInfo, BagRequest, Bagger, Uri};

/// The written target `Bag<ty>`.
fn bag_of(ty: Type) -> TypeSyntax {
    TypeSyntax::Path(Path {
        segments: vec![PathSegment {
            ident: "Bag".to_string(),
            arguments: PathArguments::AngleBracketed(vec![GenericArgument::Type(ty)]),
        }],
    })
}

fn tokens(text: &str) -> String {
    text.parse::<proc_macro2::TokenStream>().unwrap().to_string()
}

const PNG: [u8; 12] = [0x89, b'P', b'N', b'G', 0x0d, 0x0a, 0x1a, 0x0a, 0, 0, 0, 0x0d];

#[test]
pub fn solve_static_str() {
    let mut flags = Flags::new();
    let bggr = Bagger::new(&mut flags);
    let mut req = BagRequest::new(
        Uri::local("./tests/hello.txt"),
        BagInfo::from_quote(&bag_of(Type::named("str"))).unwrap(),
    );
    req.require(&mut flags, "static");
    req.forbid(&mut flags, "include");

    let plan = bggr.solve(req).ok().unwrap();
    assert_eq!(plan.reads(), vec!["./tests/hello.txt".to_string()]);
    let sol = bggr
        .finish(plan, vec![Ok(b"Hello, World!\n".to_vec())])
        .ok()
        .unwrap();
    assert_eq!(
        tokens(&sol.bag_expr.expr),
        tokens(r#"::bag::bags::Static::<&'static str>({ "Hello, World!\n" })"#),
    );
    assert_eq!(
        tokens(&sol.bag_expr.yields.text),
        tokens("::bag::bags::Static<&'static str>"),
    );
}

#[test]
pub fn solve_include_str() {
    let mut flags = Flags::new();
    let bggr = Bagger::new(&mut flags);
    let mut req = BagRequest::new(
        Uri::local("./tests/hello.txt"),
        BagInfo::from_quote(&bag_of(Type::named("str"))).unwrap(),
    );
    req.require(&mut flags, "include");

    let plan = bggr.solve(req).ok().unwrap();
    assert!(plan.reads().is_empty());
    let sol = bggr.finish(plan, Vec::new()).ok().unwrap();
    assert_eq!(
        tokens(&sol.bag_expr.expr),
        tokens(r#"::bag::bags::Static::<&'static str>({ include_str!("./tests/hello.txt") })"#),
    );
    assert_eq!(
        tokens(&sol.bag_expr.yields.text),
        tokens("::bag::bags::Static<&'static str>"),
    );
}

#[test]
pub fn solve_include_bytes() {
    let mut flags = Flags::new();
    let bggr = Bagger::new(&mut flags);
    let mut req = BagRequest::new(
        Uri::local("./tests/tiny.png"),
        BagInfo::from_quote(&bag_of(Type::slice("u8"))).unwrap(),
    );
    req.require(&mut flags, "include");

    let plan = bggr.solve(req).ok().unwrap();
    let sol = bggr.finish(plan, Vec::new()).ok().unwrap();
    assert_eq!(
        tokens(&sol.bag_expr.expr),
        tokens(r#"::bag::bags::Static::<&'static [u8]>({ include_bytes!("./tests/tiny.png") })"#),
    );
    assert_eq!(
        tokens(&sol.bag_expr.yields.text),
        tokens("::bag::bags::Static<&'static [u8]>"),
    );
}

fn solve_and_finish(
    bggr: &Bagger,
    req: BagRequest,
    contents: &[u8],
) -> Result<bagger::Solution, Error> {
    let plan = bggr.solve(req)?;
    let files = plan.reads().iter().map(|_| Ok(contents.to_vec())).collect();
    bggr.finish(plan, files)
}

#[test]
pub fn solve_static_png_as_str() {
    let mut flags = Flags::new();
    let bggr = Bagger::new(&mut flags);

    let mut req = BagRequest::new(
        Uri::local("./tests/tiny.png"),
        BagInfo::simple(Type::named("str"), None),
    );
    req.require(&mut flags, "static");
    req.forbid(&mut flags, "include");

    assert!(solve_and_finish(&bggr, req, &PNG).is_err());

    let mut req = BagRequest::new(
        Uri::local("./tests/tiny.png"),
        BagInfo::simple(Type::named("str"), None),
    );
    req.require(&mut flags, "static");
    req.forbid(&mut flags, "include");
    req.arg(&mut flags, "content", "text/plain");

    assert!(solve_and_finish(&bggr, req, &PNG).is_err());
}

#[test]
pub fn solve_include_png_as_str() {
    let mut flags = Flags::new();
    let bggr = Bagger::new(&mut flags);

    let mut req = BagRequest::new(
        Uri::local("./tests/tiny.png"),
        BagInfo::simple(Type::named("str"), None),
    );
    req.require(&mut flags, "include");

    assert!(solve_and_finish(&bggr, req, &PNG).is_err());

    let mut req = BagRequest::new(
        Uri::local("./tests/tiny.png"),
        BagInfo::simple(Type::named("str"), None),
    );
    req.require(&mut flags, "include");
    req.arg(&mut flags, "content", "text/plain");

    assert!(solve_and_finish(&bggr, req, &PNG).is_ok());
}

#[test]
fn a_way_over_a_forbidden_flag_names_the_flag_in_the_failure() {
    let mut flags = Flags::new();
    let bggr = Bagger::new(&mut flags);
    let mut req = BagRequest::new(
        Uri::local("./tests/tiny.png"),
        BagInfo::simple(Type::named("Vec<u8>"), None),
    );
    req.require(&mut flags, "include");
    req.forbid(&mut flags, "static");
    let forbidden = Flag::from_str(&mut flags, "static");
    match bggr.solve(req) {
        Err(Error::Forbidden(flag)) => assert_eq!(flag, forbidden),
        _ => panic!("expected the forbidden flag"),
    }
}

#[test]
fn a_stopped_edge_alone_leads_nowhere() {
    let mut flags = Flags::new();
    let bggr = Bagger::new(&mut flags);
    let mut req = BagRequest::new(
        Uri::local("./tests/tiny.png"),
        BagInfo::simple(Type::named("str"), None),
    );
    req.require(&mut flags, "static");
    req.forbid(&mut flags, "include");
    assert!(matches!(bggr.solve(req), Err(Error::Exhausted)));
}

#[test]
fn a_flag_that_no_rule_declares_is_missing() {
    let mut flags = Flags::new();
    let bggr = Bagger::new(&mut flags);
    let mut req = BagRequest::new(
        Uri::local("./tests/hello.txt"),
        BagInfo::simple(Type::named("str"), None),
    );
    req.require(&mut flags, "compressed");
    let wanted = Flag::from_str(&mut flags, "compressed");
    match bggr.solve(req) {
        Err(Error::Missing(flag)) => assert_eq!(flag, wanted),
        _ => panic!("expected the missing flag"),
    }
}

#[test]
fn a_target_that_nothing_produces_exhausts_the_search() {
    let mut flags = Flags::new();
    let bggr = Bagger::new(&mut flags);
    let req = BagRequest::new(
        Uri::local("./tests/hello.txt"),
        BagInfo::simple(Type::named("u64"), None),
    );
    assert!(matches!(bggr.solve(req), Err(Error::Exhausted)));
}
