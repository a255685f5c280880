//! Targets as they are written: a bag trait with its type parameter, or a
//! list of such traits joined by `+`.

use crate::error::{Error, ErrorView};
use crate::expr::{redundant, BagInfo, BagTrait, Capability, Type, TypeView};
use vstd::prelude::*;

verus! {

/// An argument between the angle brackets of a path segment.
pub enum GenericArgument {
    /// A type.
    Type(Type),
    /// Anything else, as it prints.
    Other(String),
}

/// The arguments of a path segment.
pub enum PathArguments {
    /// None at all.
    Absent,
    /// `<A, B>`
    AngleBracketed(Vec<GenericArgument>),
    /// `(A, B) -> C`
    Parenthesized,
}

/// One segment of a path: a name and its arguments.
pub struct PathSegment {
    pub ident: String,
    pub arguments: PathArguments,
}

/// A path such as `bag::Bag<str>`.
pub struct Path {
    pub segments: Vec<PathSegment>,
}

/// One bound of a list of bounds.
pub enum TypeParamBound {
    /// A trait, by its path.
    Trait(Path),
    /// A lifetime, by its name.
    Lifetime(String),
}

/// A target as it is written.
pub enum TypeSyntax {
    /// A single path.
    Path(Path),
    /// `dyn A + B`
    TraitObject(Vec<TypeParamBound>),
    /// `impl A + B`
    ImplTrait(Vec<TypeParamBound>),
    /// Any other type.
    Other,
}

/// The mathematical content of a [`GenericArgument`].
pub enum GenericArgumentView {
    Type(TypeView),
    Other(Seq<char>),
}

/// The mathematical content of [`PathArguments`].
pub enum PathArgumentsView {
    Absent,
    AngleBracketed(Seq<GenericArgumentView>),
    Parenthesized,
}

/// The mathematical content of a [`PathSegment`].
pub struct PathSegmentView {
    pub ident: Seq<char>,
    pub arguments: PathArgumentsView,
}

/// The mathematical content of a [`Path`]: its segments.
pub type PathView = Seq<PathSegmentView>;

/// The mathematical content of a [`TypeParamBound`].
pub enum TypeParamBoundView {
    Trait(PathView),
    Lifetime(Seq<char>),
}

/// The mathematical content of a [`TypeSyntax`].
pub enum TypeSyntaxView {
    Path(PathView),
    TraitObject(Seq<TypeParamBoundView>),
    ImplTrait(Seq<TypeParamBoundView>),
    Other,
}

impl View for GenericArgument {
    type V = GenericArgumentView;

    open spec fn view(&self) -> GenericArgumentView {
        match self {
            GenericArgument::Type(ty) => GenericArgumentView::Type(ty@),
            GenericArgument::Other(text) => GenericArgumentView::Other(text@),
        }
    }
}

impl View for PathArguments {
    type V = PathArgumentsView;

    open spec fn view(&self) -> PathArgumentsView {
        match self {
            PathArguments::Absent => PathArgumentsView::Absent,
            PathArguments::AngleBracketed(args) => PathArgumentsView::AngleBracketed(
                args@.map_values(|a: GenericArgument| a@),
            ),
            PathArguments::Parenthesized => PathArgumentsView::Parenthesized,
        }
    }
}

impl View for PathSegment {
    type V = PathSegmentView;

    open spec fn view(&self) -> PathSegmentView {
        PathSegmentView { ident: self.ident@, arguments: self.arguments@ }
    }
}

impl View for Path {
    type V = PathView;

    open spec fn view(&self) -> PathView {
        self.segments@.map_values(|s: PathSegment| s@)
    }
}

impl View for TypeParamBound {
    type V = TypeParamBoundView;

    open spec fn view(&self) -> TypeParamBoundView {
        match self {
            TypeParamBound::Trait(path) => TypeParamBoundView::Trait(path@),
            TypeParamBound::Lifetime(name) => TypeParamBoundView::Lifetime(name@),
        }
    }
}

/// The content of a list of bounds.
pub open spec fn bounds_view(bounds: Seq<TypeParamBound>) -> Seq<TypeParamBoundView> {
    bounds.map_values(|b: TypeParamBound| b@)
}

impl View for TypeSyntax {
    type V = TypeSyntaxView;

    open spec fn view(&self) -> TypeSyntaxView {
        match self {
            TypeSyntax::Path(path) => TypeSyntaxView::Path(path@),
            TypeSyntax::TraitObject(bounds) => TypeSyntaxView::TraitObject(bounds_view(bounds@)),
            TypeSyntax::ImplTrait(bounds) => TypeSyntaxView::ImplTrait(bounds_view(bounds@)),
            TypeSyntax::Other => TypeSyntaxView::Other,
        }
    }
}

/// The bag trait of this name, if there is one.
pub open spec fn trait_named(name: Seq<char>) -> Option<BagTrait> {
    if name == "Bag"@ {
        Some(BagTrait::Simple)
    } else if name == "TryBag"@ {
        Some(BagTrait::Try)
    } else if name == "Unbag"@ {
        Some(BagTrait::Unbag)
    } else if name == "TryUnbag"@ {
        Some(BagTrait::TryUnbag)
    } else if name == "AsyncBag"@ {
        Some(BagTrait::Async)
    } else {
        None
    }
}

/// The capability that a path names: the bag trait of its last segment,
/// and the one type between that segment's angle brackets.
pub open spec fn capability_of(path: PathView) -> Result<Capability, ErrorView> {
    if path.len() == 0 {
        Err(ErrorView::NoTrait)
    } else {
        let seg = path.last();
        match trait_named(seg.ident) {
            None => Err(ErrorView::NotABag(seg.ident)),
            Some(tr) => match seg.arguments {
                PathArgumentsView::AngleBracketed(args) => if args.len() > 1 {
                    Err(ErrorView::TooManyParameters(seg.ident))
                } else if args.len() == 0 {
                    Err(ErrorView::NoParameter(seg.ident))
                } else {
                    match args[0] {
                        GenericArgumentView::Type(ty) => Ok((tr, ty)),
                        GenericArgumentView::Other(text) => Err(
                            ErrorView::NotAType(text, seg.ident),
                        ),
                    }
                },
                _ => Err(ErrorView::NoParameter(seg.ident)),
            },
        }
    }
}

/// `caps` with `cap` behind it, unless it is there already.
pub open spec fn with_capability(caps: Seq<Capability>, cap: Capability) -> Seq<Capability> {
    if caps.contains(cap) {
        caps
    } else {
        caps.push(cap)
    }
}

/// `caps` with the capability of each trait among the first `upto` of
/// `bounds` added in turn; the first fault, if a trait has one. Bounds
/// that are no traits are passed over.
pub open spec fn with_bounds(caps: Seq<Capability>, bounds: Seq<TypeParamBoundView>, upto: nat) -> Result<
    Seq<Capability>,
    ErrorView,
>
    decreases upto,
{
    if upto == 0 || upto > bounds.len() {
        Ok(caps)
    } else {
        match with_bounds(caps, bounds, (upto - 1) as nat) {
            Err(e) => Err(e),
            Ok(before) => match bounds[upto - 1] {
                TypeParamBoundView::Trait(path) => match capability_of(path) {
                    Ok(cap) => Ok(with_capability(before, cap)),
                    Err(e) => Err(e),
                },
                TypeParamBoundView::Lifetime(_) => Ok(before),
            },
        }
    }
}

/// The capabilities that a written target asks for, before they are
/// simplified.
pub open spec fn written(q: TypeSyntaxView) -> Result<Seq<Capability>, ErrorView> {
    match q {
        TypeSyntaxView::Path(path) => match capability_of(path) {
            Ok(cap) => Ok(seq![cap]),
            Err(e) => Err(e),
        },
        TypeSyntaxView::TraitObject(bounds) => with_bounds(Seq::empty(), bounds, bounds.len()),
        TypeSyntaxView::ImplTrait(bounds) => with_bounds(Seq::empty(), bounds, bounds.len()),
        TypeSyntaxView::Other => Err(ErrorView::NotAList),
    }
}

/// The capabilities that a written target asks for: those it names, without
/// the ones that a stronger one implies.
pub open spec fn target_of(q: TypeSyntaxView) -> Result<Seq<Capability>, ErrorView> {
    match written(q) {
        Err(e) => Err(e),
        Ok(caps) => Ok(caps.filter(|entry: Capability| !redundant(entry, caps.to_set()))),
    }
}

impl BagTrait {
    /// The bag trait named `i`.
    pub fn from_ident(i: &str) -> (tr: Result<BagTrait, Error>)
        ensures
            match tr {
                Ok(t) => trait_named(i@) == Some(t),
                Err(e) => trait_named(i@) is None && e@ == ErrorView::NotABag(i@),
            },
    {
        let name = i.to_owned();
        if name == "Bag".to_owned() {
            Ok(BagTrait::Simple)
        } else if name == "TryBag".to_owned() {
            Ok(BagTrait::Try)
        } else if name == "Unbag".to_owned() {
            Ok(BagTrait::Unbag)
        } else if name == "TryUnbag".to_owned() {
            Ok(BagTrait::TryUnbag)
        } else if name == "AsyncBag".to_owned() {
            Ok(BagTrait::Async)
        } else {
            Err(Error::NotABag(name))
        }
    }

    /// The capability that a path names: see [`capability_of`].
    pub fn from_quote(q: &Path) -> (cap: Result<(BagTrait, Type), Error>)
        ensures
            match cap {
                Ok((tr, ty)) => capability_of(q@) == Ok::<Capability, ErrorView>((tr, ty@)),
                Err(e) => capability_of(q@) == Err::<Capability, ErrorView>(e@),
            },
    {
        if q.segments.len() == 0 {
            return Err(Error::NoTrait);
        }
        let seg = &q.segments[q.segments.len() - 1];
        assert(q@.last() == seg@);
        let tr = match BagTrait::from_ident(seg.ident.as_str()) {
            Ok(tr) => tr,
            Err(e) => {
                return Err(e);
            },
        };
        let ty = if let PathArguments::AngleBracketed(args) = &seg.arguments {
            if args.len() > 1 {
                return Err(Error::TooManyParameters(seg.ident.clone()));
            }
            if args.len() == 0 {
                return Err(Error::NoParameter(seg.ident.clone()));
            }
            match &args[0] {
                GenericArgument::Type(ty) => ty.duplicate(),
                GenericArgument::Other(text) => {
                    return Err(Error::NotAType(text.clone(), seg.ident.clone()));
                },
            }
        } else {
            return Err(Error::NoParameter(seg.ident.clone()));
        };
        Ok((tr, ty))
    }
}

impl BagInfo {
    /// Adds the capability of each trait among `q`, in order, and stops at
    /// the first trait that names none.
    fn add_quote_bounds(&mut self, q: &Vec<TypeParamBound>) -> (done: Result<(), Error>)
        requires
            old(self).wf(),
        ensures
            final(self).wf(),
            match done {
                Ok(()) => with_bounds(old(self).order(), bounds_view(q@), q@.len()) == Ok::<
                    Seq<Capability>,
                    ErrorView,
                >(final(self).order()),
                Err(e) => with_bounds(old(self).order(), bounds_view(q@), q@.len()) == Err::<
                    Seq<Capability>,
                    ErrorView,
                >(e@),
            },
    {
        let ghost bounds = bounds_view(q@);
        let ghost start = self.order();
        let mut i: usize = 0;
        while i < q.len()
            invariant
                i <= q.len(),
                bounds == bounds_view(q@),
                start == old(self).order(),
                self.wf(),
                with_bounds(start, bounds, i as nat) == Ok::<Seq<Capability>, ErrorView>(
                    self.order(),
                ),
            decreases q.len() - i,
        {
            assert(bounds[i as int] == q@[i as int]@);
            if let TypeParamBound::Trait(path) = &q[i] {
                match BagTrait::from_quote(path) {
                    Ok((tr, ty)) => {
                        self.insert(tr, ty);
                    },
                    Err(e) => {
                        proof {
                            assert(with_bounds(start, bounds, (i + 1) as nat) == Err::<
                                Seq<Capability>,
                                ErrorView,
                            >(e@));
                            lemma_with_bounds_fails(start, bounds, (i + 1) as nat, q@.len() as nat);
                        }
                        return Err(e);
                    },
                }
            }
            i += 1;
        }
        Ok(())
    }

    /// Reads the target from its written form, such as
    /// `Bag<str> + Unbag<String>`, and simplifies it.
    pub fn from_quote(q: &TypeSyntax) -> (info: Result<BagInfo, Error>)
        ensures
            match info {
                Ok(i) => i.wf() && target_of(q@) == Ok::<Seq<Capability>, ErrorView>(i.order()),
                Err(e) => target_of(q@) == Err::<Seq<Capability>, ErrorView>(e@),
            },
    {
        let mut info = BagInfo::empty();
        match q {
            TypeSyntax::Path(p) => {
                match BagTrait::from_quote(p) {
                    Ok((tr, ty)) => {
                        info.insert(tr, ty);
                        assert(info.order() =~= seq![(tr, ty@)]);
                    },
                    Err(e) => {
                        return Err(e);
                    },
                }
            },
            TypeSyntax::TraitObject(b) => {
                match info.add_quote_bounds(b) {
                    Ok(()) => {},
                    Err(e) => {
                        return Err(e);
                    },
                }
            },
            TypeSyntax::ImplTrait(b) => {
                match info.add_quote_bounds(b) {
                    Ok(()) => {},
                    Err(e) => {
                        return Err(e);
                    },
                }
            },
            TypeSyntax::Other => {
                return Err(Error::NotAList);
            },
        }
        info.simplify();
        Ok(info)
    }
}

/// A fault at one bound is the fault of every longer run of bounds.
proof fn lemma_with_bounds_fails(
    caps: Seq<Capability>,
    bounds: Seq<TypeParamBoundView>,
    at: nat,
    upto: nat,
)
    requires
        at <= upto <= bounds.len(),
        with_bounds(caps, bounds, at) is Err,
    ensures
        with_bounds(caps, bounds, upto) == with_bounds(caps, bounds, at),
    decreases upto - at,
{
    if at < upto {
        lemma_with_bounds_fails(caps, bounds, at, (upto - 1) as nat);
    }
}

} // verus!
