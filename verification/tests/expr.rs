use bagger::error::Error;
use bagger::expr::{BagExpr, BagTrait, BagType, Expr, ExprType, Type};
use bagger::syntax::{GenericArgument, Path, PathArguments, PathSegment, TypeParamBound, TypeSyntax};
use bagger::BagInfo;

fn named(text: &str) -> Type {
    Type::named(text)
}

fn segment(ident: &str, arguments: PathArguments) -> PathSegment {
    PathSegment { ident: ident.to_string(), arguments }
}

fn bound(ident: &str, ty: Type) -> TypeParamBound {
    TypeParamBound::Trait(Path {
        segments: vec![segment(
            ident,
            PathArguments::AngleBracketed(vec![GenericArgument::Type(ty)]),
        )],
    })
}

#[test]
fn each_trait_has_its_failable_counterpart() {
    let cases = [
        (BagTrait::Simple, BagTrait::Try),
        (BagTrait::Try, BagTrait::Try),
        (BagTrait::Unbag, BagTrait::TryUnbag),
        (BagTrait::TryUnbag, BagTrait::TryUnbag),
        (BagTrait::Async, BagTrait::Async),
    ];
    for (mut from, to) in cases {
        from.failable();
        assert_eq!(from, to);
    }
    assert_eq!(BagTrait::Try.stronger(), Some(BagTrait::Simple));
    assert_eq!(BagTrait::TryUnbag.stronger(), Some(BagTrait::Unbag));
    assert_eq!(BagTrait::Simple.stronger(), None);
}

#[test]
fn types_are_the_same_when_text_and_element_agree() {
    assert!(named("str").same(&named("str")));
    assert!(!named("str").same(&named("String")));
    assert!(Type::slice("u8").same(&Type::slice("u8")));
    assert!(!Type::slice("u8").same(&named("[u8]")));
    assert_eq!(Type::slice("u8").text, "[u8]");
    assert_eq!(Type::slice("u8").elem, Some("u8".to_string()));
    assert_eq!(named("u8").duplicate(), named("u8"));
}

#[test]
fn simplifying_keeps_the_infallible_entry_alone() {
    let mut info = BagInfo::empty();
    info.insert(BagTrait::Try, named("str"));
    info.insert(BagTrait::Simple, named("str"));
    info.insert(BagTrait::TryUnbag, named("String"));
    info.insert(BagTrait::Try, named("u8"));
    info.insert(BagTrait::Async, named("str"));
    info.insert(BagTrait::Unbag, named("String"));
    assert_eq!(info.len(), 6);
    info.simplify();
    assert_eq!(info.len(), 4);
    assert!(info.contains(BagTrait::Simple, &named("str")));
    assert!(!info.contains(BagTrait::Try, &named("str")));
    assert!(info.contains(BagTrait::Unbag, &named("String")));
    assert!(!info.contains(BagTrait::TryUnbag, &named("String")));
    assert!(info.contains(BagTrait::Try, &named("u8")));
    assert!(info.contains(BagTrait::Async, &named("str")));
    assert_eq!(info.trait_at(0), BagTrait::Simple);
    assert_eq!(info.type_at(1), &named("u8"));
    let before = info.duplicate();
    info.simplify();
    assert!(info.same(&before));
}

#[test]
fn a_descriptor_satisfies_itself_and_what_asks_less() {
    let full = BagInfo::simple(named("str"), Some(named("&'static str")));
    let less = BagInfo::simple(named("str"), None);
    assert!(full.satisfies(&full));
    assert!(full.satisfies(&less));
    assert!(!less.satisfies(&full));
    assert!(full.satisfies(&BagInfo::empty()));
    assert!(!full.same(&less));
    assert!(full.includes(&less));
    assert!(!less.includes(&full));
}

#[test]
fn an_infallible_capability_satisfies_a_demand_for_the_fallible_one() {
    let a = BagInfo::simple(named("str"), None);
    let b = BagInfo::simple_try(named("str"), None);
    assert!(a.satisfies(&b));
    assert!(!b.satisfies(&a));
    assert!(!a.includes(&b));
    assert!(a.provides(BagTrait::Try, &named("str")));
    assert!(a.provides(BagTrait::Simple, &named("str")));
    assert!(!a.provides(BagTrait::Try, &named("String")));
    assert!(!a.provides(BagTrait::TryUnbag, &named("str")));
    assert!(!b.provides(BagTrait::Simple, &named("str")));

    let owned = BagInfo::simple(named("str"), Some(named("String")));
    let wanted = BagInfo::simple_try(named("str"), Some(named("String")));
    assert!(owned.satisfies(&wanted));
    assert!(!wanted.satisfies(&owned));
}

#[test]
fn simplifying_does_not_change_what_a_descriptor_satisfies() {
    let mut info = BagInfo::empty();
    info.insert(BagTrait::Try, named("str"));
    info.insert(BagTrait::Simple, named("str"));
    let before = info.duplicate();
    info.simplify();
    assert_eq!(info.len(), 1);
    let wants_try = BagInfo::simple_try(named("str"), None);
    assert!(before.satisfies(&wants_try));
    assert!(info.satisfies(&wants_try));
    assert!(info.satisfies(&before));
    assert!(before.satisfies(&info));
}

#[test]
fn asking_for_more_never_makes_an_unsatisfied_demand_satisfied() {
    let have = BagInfo::simple(named("str"), None);
    let mut want = BagInfo::simple(named("String"), None);
    assert!(!have.satisfies(&want));
    want.insert(BagTrait::Simple, named("str"));
    assert!(!have.satisfies(&want));
    want.insert(BagTrait::Unbag, named("str"));
    assert!(!have.satisfies(&want));
}

#[test]
fn inserting_twice_holds_once() {
    let mut info = BagInfo::empty();
    assert!(info.insert(BagTrait::Simple, named("str")));
    assert!(!info.insert(BagTrait::Simple, named("str")));
    assert_eq!(info.len(), 1);
}

#[test]
fn a_bag_type_has_its_full_type_and_capabilities() {
    let ty = BagType::simple(named("Static<u8>"), named("u8"), Some(named("u8")));
    assert_eq!(ty.full, named("Static<u8>"));
    assert!(ty.info.contains(BagTrait::Simple, &named("u8")));
    assert!(ty.info.contains(BagTrait::Unbag, &named("u8")));
    let ty = BagType::simple_try(named("TryStatic<u8>"), named("u8"), None);
    assert!(ty.info.contains(BagTrait::Try, &named("u8")));
    assert_eq!(ty.info.len(), 1);
}

#[test]
fn the_full_type_of_a_result_is_wrapped() {
    assert_eq!(ExprType::of(named("u8")).full(), named("u8"));
    assert_eq!(
        ExprType::of_result(named("u8")).full(),
        named("Result<u8, ::failure::Error>")
    );
}

#[test]
fn flattening_binds_the_inputs_before_the_expression() {
    let mut e = Expr::from_quote("a + b".to_string(), ExprType::of(named("u8")));
    assert_eq!(
        Expr::from_quote("1".to_string(), ExprType::of(named("u8"))).flatten().expr,
        "{ 1 }"
    );
    e.bind("a".to_string(), Expr::from_quote("1".to_string(), ExprType::of(named("u8"))));
    e.bind(
        "b".to_string(),
        Expr::from_quote("two()".to_string(), ExprType::of_result(named("u8"))),
    );
    let flat = e.flatten();
    assert_eq!(
        flat.expr,
        "{ let a: u8 = { 1 }; let b: Result<u8, ::failure::Error> = { two() }; a + b }"
    );
    assert_eq!(flat.yields, ExprType::of(named("u8")));
}

#[test]
fn a_static_bag_wraps_the_flat_expression() {
    let bag = Expr::from_quote("5".to_string(), ExprType::of(named("u8"))).bag_static();
    assert_eq!(bag.expr, "::bag::bags::Static::<u8>({ 5 })");
    assert_eq!(bag.yields, named("::bag::bags::Static<u8>"));
    let bag = Expr::from_quote("load()".to_string(), ExprType::of_result(named("u8"))).bag_static();
    assert_eq!(bag.expr, "::bag::bags::TryStatic::<u8>({ load() })");
    assert_eq!(bag.yields, named("::bag::bags::TryStatic<u8>"));
}

#[test]
fn a_lazy_bag_takes_its_inputs_as_a_tuple() {
    let mut e = Expr::from_quote("a.len() + b".to_string(), ExprType::of(named("usize")));
    e.bind("a".to_string(), Expr::from_quote("\"x\"".to_string(), ExprType::of(named("&str"))));
    e.bind("b".to_string(), Expr::from_quote("1".to_string(), ExprType::of(named("usize"))));
    let bag = e.bag_lazy_map();
    assert_eq!(
        bag.yields.text,
        "::bag::bags::LazyMap<(&str,usize,), usize, fn((&str,usize,)) -> usize>"
    );
    assert_eq!(
        bag.expr,
        "::bag::bags::LazyMap::<(&str,usize,), usize, fn((&str,usize,)) -> usize>\
         ::new(({ \"x\" },{ 1 },), |(a,b,)| a.len() + b)"
    );
    let bag = Expr::from_quote("load()".to_string(), ExprType::of_result(named("u8"))).bag_lazy_map();
    assert_eq!(bag.yields.text, "::bag::bags::TryLazyMap<(), u8, fn(()) -> u8>");
    assert_eq!(
        bag.expr,
        "::bag::bags::TryLazyMap::<(), u8, fn(()) -> u8>::new((), |()| load())"
    );
}

#[test]
fn a_bag_expression_is_an_expression_without_inputs() {
    let bag = BagExpr { expr: "make()".to_string(), yields: named("B") };
    let copy = bag.duplicate();
    assert_eq!(copy.expr, "make()");
    let e = bag.to_expr();
    assert!(e.inputs.is_empty());
    assert_eq!(e.expr, "make()");
    assert_eq!(e.yields, ExprType::of(named("B")));
}

#[test]
fn the_bag_traits_have_their_names() {
    assert_eq!(BagTrait::from_ident("Bag"), Ok(BagTrait::Simple));
    assert_eq!(BagTrait::from_ident("TryBag"), Ok(BagTrait::Try));
    assert_eq!(BagTrait::from_ident("Unbag"), Ok(BagTrait::Unbag));
    assert_eq!(BagTrait::from_ident("TryUnbag"), Ok(BagTrait::TryUnbag));
    assert_eq!(BagTrait::from_ident("AsyncBag"), Ok(BagTrait::Async));
    assert_eq!(
        BagTrait::from_ident("Clone"),
        Err(Error::NotABag("Clone".to_string()))
    );
}

#[test]
fn a_path_names_a_trait_and_its_type() {
    let path = Path {
        segments: vec![
            segment("bag", PathArguments::Absent),
            segment(
                "Bag",
                PathArguments::AngleBracketed(vec![GenericArgument::Type(named("str"))]),
            ),
        ],
    };
    assert_eq!(BagTrait::from_quote(&path), Ok((BagTrait::Simple, named("str"))));
}

#[test]
fn a_path_that_names_no_capability_says_why() {
    let of = |segments| BagTrait::from_quote(&Path { segments });
    assert_eq!(of(vec![]), Err(Error::NoTrait));
    assert_eq!(
        of(vec![segment("Clone", PathArguments::Absent)]),
        Err(Error::NotABag("Clone".to_string()))
    );
    assert_eq!(
        of(vec![segment("Bag", PathArguments::Absent)]),
        Err(Error::NoParameter("Bag".to_string()))
    );
    assert_eq!(
        of(vec![segment("Bag", PathArguments::Parenthesized)]),
        Err(Error::NoParameter("Bag".to_string()))
    );
    assert_eq!(
        of(vec![segment("Bag", PathArguments::AngleBracketed(vec![]))]),
        Err(Error::NoParameter("Bag".to_string()))
    );
    assert_eq!(
        of(vec![segment(
            "Bag",
            PathArguments::AngleBracketed(vec![
                GenericArgument::Type(named("str")),
                GenericArgument::Type(named("u8")),
            ])
        )]),
        Err(Error::TooManyParameters("Bag".to_string()))
    );
    assert_eq!(
        of(vec![segment(
            "Bag",
            PathArguments::AngleBracketed(vec![GenericArgument::Other("'a".to_string())])
        )]),
        Err(Error::NotAType("'a".to_string(), "Bag".to_string()))
    );
}

#[test]
fn a_written_target_is_read_and_simplified() {
    let q = TypeSyntax::TraitObject(vec![
        bound("TryBag", named("str")),
        TypeParamBound::Lifetime("'static".to_string()),
        bound("Bag", named("str")),
        bound("Unbag", named("String")),
        bound("Bag", named("str")),
    ]);
    let info = BagInfo::from_quote(&q).ok().unwrap();
    assert_eq!(info.len(), 2);
    assert_eq!(info.trait_at(0), BagTrait::Simple);
    assert_eq!(info.type_at(0), &named("str"));
    assert_eq!(info.trait_at(1), BagTrait::Unbag);
    assert_eq!(info.type_at(1), &named("String"));

    let q = TypeSyntax::ImplTrait(vec![bound("Bag", named("u8"))]);
    assert!(BagInfo::from_quote(&q).ok().unwrap().same(&BagInfo::simple(named("u8"), None)));

    let q = TypeSyntax::Path(Path {
        segments: vec![segment(
            "Bag",
            PathArguments::AngleBracketed(vec![GenericArgument::Type(named("str"))]),
        )],
    });
    assert!(BagInfo::from_quote(&q).ok().unwrap().same(&BagInfo::simple(named("str"), None)));
}

#[test]
fn a_target_that_is_no_list_of_traits_is_refused() {
    assert_eq!(BagInfo::from_quote(&TypeSyntax::Other).err(), Some(Error::NotAList));
    let q = TypeSyntax::TraitObject(vec![
        bound("Bag", named("str")),
        bound("Send", named("str")),
        bound("Sync", named("str")),
    ]);
    assert_eq!(
        BagInfo::from_quote(&q).err(),
        Some(Error::NotABag("Send".to_string()))
    );
}
