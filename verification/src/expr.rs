//! Capability descriptors and the expressions that a plan produces.

use vstd::prelude::*;

verus! {

/// The access that a bag gives to what it holds.
#[derive(Debug, Copy, Clone, Hash, PartialEq, Eq, Structural)]
pub enum BagTrait {
    /// A reference, always.
    Simple,
    /// A reference, or an error.
    Try,
    /// The value itself, always.
    Unbag,
    /// The value itself, or an error.
    TryUnbag,
    /// The value, later.
    Async,
}

impl BagTrait {
    /// The failable counterpart of a trait; a failable trait is its own.
    pub open spec fn failable_spec(self) -> BagTrait {
        match self {
            BagTrait::Simple => BagTrait::Try,
            BagTrait::Try => BagTrait::Try,
            BagTrait::Unbag => BagTrait::TryUnbag,
            BagTrait::TryUnbag => BagTrait::TryUnbag,
            BagTrait::Async => BagTrait::Async,
        }
    }

    /// The trait whose presence makes this one redundant, if there is one.
    pub open spec fn stronger_spec(self) -> Option<BagTrait> {
        match self {
            BagTrait::Try => Some(BagTrait::Simple),
            BagTrait::TryUnbag => Some(BagTrait::Unbag),
            _ => None,
        }
    }

    /// Turns this trait into its failable counterpart.
    pub fn failable(&mut self)
        ensures
            *final(self) == old(self).failable_spec(),
    {
        *self = match *self {
            BagTrait::Simple => BagTrait::Try,
            BagTrait::Try => BagTrait::Try,
            BagTrait::Unbag => BagTrait::TryUnbag,
            BagTrait::TryUnbag => BagTrait::TryUnbag,
            BagTrait::Async => BagTrait::Async,
        };
    }

    /// The trait whose presence makes this one redundant, if there is one.
    pub fn stronger(self) -> (s: Option<BagTrait>)
        ensures
            s == self.stronger_spec(),
    {
        match self {
            BagTrait::Try => Some(BagTrait::Simple),
            BagTrait::TryUnbag => Some(BagTrait::Unbag),
            _ => None,
        }
    }
}

/// A type as the planner sees it: its text, and for a slice type the text
/// of its element type.
#[derive(Debug, Clone, PartialEq, Eq)]
pub struct Type {
    pub text: String,
    pub elem: Option<String>,
}

/// The mathematical content of a [`Type`].
pub struct TypeView {
    pub text: Seq<char>,
    pub elem: Option<Seq<char>>,
}

impl View for Type {
    type V = TypeView;

    open spec fn view(&self) -> TypeView {
        TypeView {
            text: self.text@,
            elem: match self.elem {
                Some(e) => Some(e@),
                None => None,
            },
        }
    }
}

/// The type written `text`, which is no slice.
pub open spec fn named_type(text: Seq<char>) -> TypeView {
    TypeView { text, elem: None }
}

/// The slice type `[elem]`.
pub open spec fn slice_type(elem: Seq<char>) -> TypeView {
    TypeView { text: seq!['['] + elem + seq![']'], elem: Some(elem) }
}

impl Type {
    /// The type written `text`, which is no slice.
    pub fn named(text: &str) -> (ty: Type)
        ensures
            ty@ == named_type(text@),
    {
        Type { text: text.to_owned(), elem: None }
    }

    /// The slice type `[elem]`.
    pub fn slice(elem: &str) -> (ty: Type)
        ensures
            ty@ == slice_type(elem@),
    {
        let mut text = "[".to_owned();
        text.append(elem);
        text.append("]");
        proof {
            reveal_strlit("[");
            reveal_strlit("]");
            assert("["@ =~= seq!['[']);
            assert("]"@ =~= seq![']']);
        }
        Type { text, elem: Some(elem.to_owned()) }
    }

    /// Whether both are the same type.
    pub fn same(&self, other: &Type) -> (eq: bool)
        ensures
            eq == (self@ == other@),
    {
        if self.text != other.text {
            return false;
        }
        match (&self.elem, &other.elem) {
            (Some(a), Some(b)) => *a == *b,
            (None, None) => true,
            _ => false,
        }
    }

    /// A copy of the type.
    pub fn duplicate(&self) -> (copy: Type)
        ensures
            copy@ == self@,
    {
        Type {
            text: self.text.clone(),
            elem: match &self.elem {
                Some(e) => Some(e.clone()),
                None => None,
            },
        }
    }
}


/// One capability: a trait, and the type it is about.
pub type Capability = (BagTrait, TypeView);

/// Whether `entry` says nothing that a stronger entry of `all`, for the same
/// type, does not already say.
pub open spec fn redundant(entry: Capability, all: Set<Capability>) -> bool {
    match entry.0.stronger_spec() {
        Some(stronger) => all.contains((stronger, entry.1)),
        None => false,
    }
}

/// The entries of `all` that no stronger entry makes redundant.
pub open spec fn simplified(all: Set<Capability>) -> Set<Capability> {
    all.filter(|entry: Capability| !redundant(entry, all))
}

/// Whether `have` provides the capability `entry`: it holds the entry, or
/// it holds the stronger entry for the same type, which implies it.
pub open spec fn provides(have: Set<Capability>, entry: Capability) -> bool {
    have.contains(entry) || match entry.0.stronger_spec() {
        Some(stronger) => have.contains((stronger, entry.1)),
        None => false,
    }
}

/// Whether the capabilities `have` satisfy the demand `want`: every entry
/// of `want` is provided by `have`. An infallible capability provides its
/// fallible counterpart: `Bag<T>` satisfies a demand for `TryBag<T>`.
pub open spec fn satisfies_spec(have: Set<Capability>, want: Set<Capability>) -> bool {
    forall|entry: Capability| #[trigger] want.contains(entry) ==> provides(have, entry)
}

/// A descriptor satisfies itself.
pub proof fn lemma_satisfies_reflexive(have: Set<Capability>)
    ensures
        satisfies_spec(have, have),
{
}

/// Asking for more never turns an unsatisfied demand into a satisfied one.
pub proof fn lemma_satisfies_antitonic(
    have: Set<Capability>,
    want: Set<Capability>,
    more: Set<Capability>,
)
    requires
        want.subset_of(more),
    ensures
        satisfies_spec(have, more) ==> satisfies_spec(have, want),
{
    if satisfies_spec(have, more) {
        assert forall|entry: Capability| #[trigger] want.contains(entry) implies provides(
            have,
            entry,
        ) by {
            assert(more.contains(entry));
        }
    }
}

/// Having more never turns a satisfied demand into an unsatisfied one.
pub proof fn lemma_satisfies_monotonic(
    have: Set<Capability>,
    more: Set<Capability>,
    want: Set<Capability>,
)
    requires
        have.subset_of(more),
    ensures
        satisfies_spec(have, want) ==> satisfies_spec(more, want),
{
    if satisfies_spec(have, want) {
        assert forall|entry: Capability| #[trigger] want.contains(entry) implies provides(
            more,
            entry,
        ) by {
            assert(provides(have, entry));
        }
    }
}

/// The entries that simplifying removes are redundant indeed: a descriptor
/// satisfies the demands that its simplified form satisfies, and no others;
/// and a demand asks the same simplified or not.
pub proof fn lemma_simplified_satisfies(all: Set<Capability>, other: Set<Capability>)
    ensures
        satisfies_spec(simplified(all), other) == satisfies_spec(all, other),
        satisfies_spec(other, simplified(all)) == satisfies_spec(other, all),
{
    assert forall|entry: Capability| provides(simplified(all), entry) == provides(all, entry) by {
        if all.contains(entry) && !simplified(all).contains(entry) {
            let stronger = entry.0.stronger_spec()->Some_0;
            assert(simplified(all).contains((stronger, entry.1)));
        }
        if let Some(stronger) = entry.0.stronger_spec() {
            if all.contains((stronger, entry.1)) {
                assert(simplified(all).contains((stronger, entry.1)));
            }
        }
    }
    if satisfies_spec(simplified(all), other) {
        assert forall|entry: Capability| #[trigger] other.contains(entry) implies provides(
            all,
            entry,
        ) by {
            assert(provides(simplified(all), entry));
        }
    }
    if satisfies_spec(all, other) {
        assert forall|entry: Capability| #[trigger] other.contains(entry) implies provides(
            simplified(all),
            entry,
        ) by {
            assert(provides(all, entry));
        }
    }
    if satisfies_spec(other, simplified(all)) {
        assert forall|entry: Capability| #[trigger] all.contains(entry) implies provides(
            other,
            entry,
        ) by {
            if simplified(all).contains(entry) {
            } else {
                let stronger = entry.0.stronger_spec()->Some_0;
                assert(simplified(all).contains((stronger, entry.1)));
                assert(provides(other, (stronger, entry.1)));
            }
        }
    }
    if satisfies_spec(other, all) {
        assert forall|entry: Capability| #[trigger] simplified(all).contains(entry) implies provides(
            other,
            entry,
        ) by {
            assert(all.contains(entry));
        }
    }
}

/// Where a descriptor holds the infallible and the fallible entry for one
/// type, simplifying it keeps the infallible one alone; an entry without a
/// stronger one beside it stays.
pub proof fn lemma_simplified_subsumes(all: Set<Capability>, ty: TypeView)
    ensures
        all.contains((BagTrait::Simple, ty)) ==> simplified(all).contains((BagTrait::Simple, ty))
            && !simplified(all).contains((BagTrait::Try, ty)),
        all.contains((BagTrait::Unbag, ty)) ==> simplified(all).contains((BagTrait::Unbag, ty))
            && !simplified(all).contains((BagTrait::TryUnbag, ty)),
        all.contains((BagTrait::Try, ty)) && !all.contains((BagTrait::Simple, ty)) ==> simplified(
            all,
        ).contains((BagTrait::Try, ty)),
        all.contains((BagTrait::TryUnbag, ty)) && !all.contains((BagTrait::Unbag, ty))
            ==> simplified(all).contains((BagTrait::TryUnbag, ty)),
        all.contains((BagTrait::Async, ty)) ==> simplified(all).contains((BagTrait::Async, ty)),
{
}

/// Simplifying leaves nothing redundant, and changes nothing a second time.
pub proof fn lemma_simplified_is_simple(all: Set<Capability>)
    ensures
        forall|entry: Capability| #[trigger]
            simplified(all).contains(entry) ==> !redundant(entry, simplified(all)),
        simplified(simplified(all)) == simplified(all),
{
    assert(simplified(simplified(all)) =~= simplified(all));
}

/// What a producer's output supports: a set of capabilities, held in the
/// order in which they were added.
#[derive(Debug, Clone)]
pub struct BagInfo {
    impls: Vec<(BagTrait, Type)>,
}

impl BagInfo {
    /// The capabilities in the order in which they were added.
    pub closed spec fn order(&self) -> Seq<Capability> {
        self.impls@.map_values(|e: (BagTrait, Type)| (e.0, e.1@))
    }

    /// The capabilities as a set.
    pub open spec fn view(&self) -> Set<Capability> {
        self.order().to_set()
    }

    /// No capability is held twice.
    pub open spec fn wf(&self) -> bool {
        self.order().no_duplicates()
    }

    /// A descriptor without capabilities.
    pub fn empty() -> (info: BagInfo)
        ensures
            info.wf(),
            info.order() == Seq::<Capability>::empty(),
            info@ == Set::<Capability>::empty(),
    {
        let info = BagInfo { impls: Vec::new() };
        assert(info.order() =~= Seq::<Capability>::empty());
        assert(info@ =~= Set::<Capability>::empty());
        info
    }

    /// The number of capabilities.
    pub fn len(&self) -> (n: usize)
        ensures
            n == self.order().len(),
    {
        self.impls.len()
    }

    /// The trait of the capability at position `i`.
    pub fn trait_at(&self, i: usize) -> (tr: BagTrait)
        requires
            i < self.order().len(),
        ensures
            tr == self.order()[i as int].0,
    {
        self.impls[i].0
    }

    /// The type of the capability at position `i`.
    pub fn type_at(&self, i: usize) -> (ty: &Type)
        requires
            i < self.order().len(),
        ensures
            ty@ == self.order()[i as int].1,
    {
        &self.impls[i].1
    }

    /// Whether the capability `tr` of `ty` is held.
    pub fn contains(&self, tr: BagTrait, ty: &Type) -> (held: bool)
        ensures
            held == self@.contains((tr, ty@)),
    {
        let mut i: usize = 0;
        while i < self.impls.len()
            invariant
                i <= self.impls.len(),
                forall|j: int| 0 <= j < i ==> self.order()[j] != (tr, ty@),
            decreases self.impls.len() - i,
        {
            if self.impls[i].0 == tr && self.impls[i].1.same(ty) {
                assert(self.order()[i as int] == (tr, ty@));
                return true;
            }
            i += 1;
        }
        false
    }

    /// Adds the capability `tr` of `ty`; says whether it was new.
    pub fn insert(&mut self, tr: BagTrait, ty: Type) -> (fresh: bool)
        requires
            old(self).wf(),
        ensures
            final(self).wf(),
            fresh == !old(self)@.contains((tr, ty@)),
            final(self)@ == old(self)@.insert((tr, ty@)),
            final(self).order() == if fresh {
                old(self).order().push((tr, ty@))
            } else {
                old(self).order()
            },
    {
        if self.contains(tr, &ty) {
            assert(self@ =~= old(self)@.insert((tr, ty@)));
            false
        } else {
            self.impls.push((tr, ty));
            proof {
                assert(self.order() =~= old(self).order().push((tr, ty@)));
                old(self).order().lemma_push_to_set_commute((tr, ty@));
            }
            true
        }
    }

    /// A target of the form `Bag<bag> + Unbag<unbag>`.
    pub fn simple(bag: Type, unbag: Option<Type>) -> (info: BagInfo)
        ensures
            info.wf(),
            info@ == match unbag {
                Some(u) => set![(BagTrait::Simple, bag@), (BagTrait::Unbag, u@)],
                None => set![(BagTrait::Simple, bag@)],
            },
            info.order() == match unbag {
                Some(u) => seq![(BagTrait::Simple, bag@), (BagTrait::Unbag, u@)],
                None => seq![(BagTrait::Simple, bag@)],
            },
    {
        let mut info = BagInfo::empty();
        info.insert(BagTrait::Simple, bag);
        if let Some(unbag) = unbag {
            info.insert(BagTrait::Unbag, unbag);
        }
        proof {
            assert(info@ =~= match unbag {
                Some(u) => set![(BagTrait::Simple, bag@), (BagTrait::Unbag, u@)],
                None => set![(BagTrait::Simple, bag@)],
            });
            assert(info.order() =~= match unbag {
                Some(u) => seq![(BagTrait::Simple, bag@), (BagTrait::Unbag, u@)],
                None => seq![(BagTrait::Simple, bag@)],
            });
        }
        info
    }

    /// A target of the form `TryBag<bag> + TryUnbag<unbag>`.
    pub fn simple_try(bag: Type, unbag: Option<Type>) -> (info: BagInfo)
        ensures
            info.wf(),
            info@ == match unbag {
                Some(u) => set![(BagTrait::Try, bag@), (BagTrait::TryUnbag, u@)],
                None => set![(BagTrait::Try, bag@)],
            },
            info.order() == match unbag {
                Some(u) => seq![(BagTrait::Try, bag@), (BagTrait::TryUnbag, u@)],
                None => seq![(BagTrait::Try, bag@)],
            },
    {
        let mut info = BagInfo::empty();
        info.insert(BagTrait::Try, bag);
        if let Some(unbag) = unbag {
            info.insert(BagTrait::TryUnbag, unbag);
        }
        proof {
            assert(info@ =~= match unbag {
                Some(u) => set![(BagTrait::Try, bag@), (BagTrait::TryUnbag, u@)],
                None => set![(BagTrait::Try, bag@)],
            });
            assert(info.order() =~= match unbag {
                Some(u) => seq![(BagTrait::Try, bag@), (BagTrait::TryUnbag, u@)],
                None => seq![(BagTrait::Try, bag@)],
            });
        }
        info
    }

    /// Removes the capabilities that a stronger one for the same type
    /// implies: with `Bag<T>` there, `TryBag<T>` says nothing more.
    pub fn simplify(&mut self)
        requires
            old(self).wf(),
        ensures
            final(self).wf(),
            final(self)@ == simplified(old(self)@),
            final(self).order() == old(self).order().filter(
                |entry: Capability| !redundant(entry, old(self)@),
            ),
    {
        let ghost all = self@;
        let ghost before = self.order();
        let ghost keep = |entry: Capability| !redundant(entry, all);
        let mut simp = BagInfo { impls: Vec::new() };
        let mut i: usize = 0;
        proof {
            reveal(Seq::filter);
            assert(before.take(0).filter(keep) =~= Seq::<Capability>::empty());
            assert(simp.order() =~= Seq::<Capability>::empty());
        }
        while i < self.impls.len()
            invariant
                i <= self.impls.len(),
                self.order() == before,
                self@ == all,
                before.no_duplicates(),
                keep == (|entry: Capability| !redundant(entry, all)),
                simp.order() == before.take(i as int).filter(keep),
            decreases self.impls.len() - i,
        {
            let tr = self.impls[i].0;
            let implied = match tr.stronger() {
                Some(stronger) => self.contains(stronger, &self.impls[i].1),
                None => false,
            };
            proof {
                let entry = before[i as int];
                assert(entry == (tr, self.impls[i as int].1@));
                assert(implied == redundant(entry, all));
                assert(before.take(i + 1) =~= before.take(i as int).push(entry));
                before.take(i as int).lemma_filter_push(entry, keep);
            }
            if !implied {
                let ty = self.impls[i].1.duplicate();
                let ghost held = simp.order();
                simp.impls.push((tr, ty));
                assert(simp.order() =~= held.push(before[i as int]));
            }
            i += 1;
        }
        proof {
            assert(before.take(i as int) =~= before);
            lemma_filter_keeps_distinct(before, keep);
            lemma_filter_to_set(before, keep);
            assert(simp@ =~= simplified(all));
        }
        *self = simp;
    }

    /// Whether the capability `tr` of `ty` is provided: held, or implied by
    /// the stronger capability of `ty`.
    pub fn provides(&self, tr: BagTrait, ty: &Type) -> (ok: bool)
        ensures
            ok == provides(self@, (tr, ty@)),
    {
        if self.contains(tr, ty) {
            return true;
        }
        match tr.stronger() {
            Some(stronger) => self.contains(stronger, ty),
            None => false,
        }
    }

    /// Do the bounds in `self` satisfy all the bounds in `other`? A bound
    /// of `other` is satisfied by the same bound in `self` and by the
    /// stronger bound on the same type.
    pub fn satisfies(&self, other: &BagInfo) -> (ok: bool)
        ensures
            ok == satisfies_spec(self@, other@),
    {
        let mut i: usize = 0;
        while i < other.impls.len()
            invariant
                i <= other.impls.len(),
                forall|j: int| 0 <= j < i ==> provides(self@, #[trigger] other.order()[j]),
            decreases other.impls.len() - i,
        {
            if !self.provides(other.impls[i].0, &other.impls[i].1) {
                assert(other@.contains(other.order()[i as int]));
                return false;
            }
            i += 1;
        }
        proof {
            assert forall|entry: Capability| #[trigger] other@.contains(entry) implies provides(
                self@,
                entry,
            ) by {
                let k = choose|k: int| 0 <= k < other.order().len() && other.order()[k] == entry;
                assert(provides(self@, other.order()[k]));
            }
        }
        true
    }

    /// Whether every capability of `other` is held.
    pub fn includes(&self, other: &BagInfo) -> (ok: bool)
        ensures
            ok == other@.subset_of(self@),
    {
        let mut i: usize = 0;
        while i < other.impls.len()
            invariant
                i <= other.impls.len(),
                forall|j: int| 0 <= j < i ==> self@.contains(#[trigger] other.order()[j]),
            decreases other.impls.len() - i,
        {
            if !self.contains(other.impls[i].0, &other.impls[i].1) {
                assert(other@.contains(other.order()[i as int]));
                return false;
            }
            i += 1;
        }
        proof {
            assert forall|entry: Capability| other@.contains(entry) implies self@.contains(
                entry,
            ) by {
                let k = choose|k: int| 0 <= k < other.order().len() && other.order()[k] == entry;
                assert(self@.contains(other.order()[k]));
            }
        }
        true
    }

    /// Whether both hold the same capabilities, in whatever order.
    pub fn same(&self, other: &BagInfo) -> (eq: bool)
        ensures
            eq == (self@ == other@),
    {
        let eq = self.includes(other) && other.includes(self);
        assert(eq == (self@ =~= other@));
        eq
    }

    /// A copy with the same capabilities in the same order.
    pub fn duplicate(&self) -> (copy: BagInfo)
        ensures
            copy.order() == self.order(),
            copy@ == self@,
            copy.wf() == self.wf(),
    {
        let mut copy = BagInfo { impls: Vec::new() };
        let mut i: usize = 0;
        assert(copy.order() =~= self.order().take(0));
        while i < self.impls.len()
            invariant
                i <= self.impls.len(),
                copy.impls@.len() == i,
                copy.order() == self.order().take(i as int),
            decreases self.impls.len() - i,
        {
            let tr = self.impls[i].0;
            let ty = self.impls[i].1.duplicate();
            let ghost held = copy.order();
            copy.impls.push((tr, ty));
            assert(copy.order() =~= held.push(self.order()[i as int]));
            assert(copy.order() =~= self.order().take(i + 1));
            i += 1;
        }
        assert(self.order().take(self.impls.len() as int) =~= self.order());
        copy
    }
}

/// Filtering a sequence without duplicates leaves none.
pub proof fn lemma_filter_keeps_distinct<A>(s: Seq<A>, keep: spec_fn(A) -> bool)
    requires
        s.no_duplicates(),
    ensures
        s.filter(keep).no_duplicates(),
        forall|x: A| s.filter(keep).contains(x) ==> s.contains(x),
    decreases s.len(),
{
    reveal(Seq::filter);
    if s.len() > 0 {
        let front = s.drop_last();
        lemma_filter_keeps_distinct(front, keep);
        assert forall|x: A| s.filter(keep).contains(x) implies s.contains(x) by {
            if front.filter(keep).contains(x) {
                assert(front.contains(x));
                let k = choose|k: int| 0 <= k < front.len() && front[k] == x;
                assert(s[k] == x);
            } else {
                let m = choose|m: int| 0 <= m < s.filter(keep).len() && s.filter(keep)[m] == x;
                if m < front.filter(keep).len() {
                    assert(front.filter(keep)[m] == x);
                }
                assert(x == s[s.len() - 1]);
            }
        }
        if keep(s.last()) {
            if front.filter(keep).contains(s.last()) {
                assert(front.contains(s.last()));
                let k = choose|k: int| 0 <= k < front.len() && front[k] == s.last();
                assert(s[k] == s[s.len() - 1]);
            }
        }
    }
}

/// The elements of a filtered sequence are those of the sequence that pass.
pub proof fn lemma_filter_to_set<A>(s: Seq<A>, keep: spec_fn(A) -> bool)
    ensures
        s.filter(keep).to_set() == s.to_set().filter(keep),
    decreases s.len(),
{
    reveal(Seq::filter);
    if s.len() > 0 {
        let front = s.drop_last();
        lemma_filter_to_set(front, keep);
        assert forall|x: A| s.filter(keep).to_set().contains(x) <==> s.to_set().filter(
            keep,
        ).contains(x) by {
            if s.to_set().contains(x) && keep(x) {
                let k = choose|k: int| 0 <= k < s.len() && s[k] == x;
                if k < front.len() {
                    assert(front[k] == x);
                    assert(front.to_set().contains(x));
                    assert(front.filter(keep).to_set().contains(x));
                    let m = choose|m: int|
                        0 <= m < front.filter(keep).len() && front.filter(keep)[m] == x;
                    assert(s.filter(keep)[m] == x);
                } else {
                    assert(s.filter(keep).last() == x);
                }
            }
            if s.filter(keep).to_set().contains(x) {
                let m = choose|m: int| 0 <= m < s.filter(keep).len() && s.filter(keep)[m] == x;
                if m < front.filter(keep).len() {
                    assert(front.filter(keep)[m] == x);
                    assert(front.filter(keep).to_set().contains(x));
                    assert(front.to_set().contains(x));
                    let k = choose|k: int| 0 <= k < front.len() && front[k] == x;
                    assert(s[k] == x);
                } else {
                    assert(x == s.last());
                    assert(s[s.len() - 1] == x);
                }
            }
        }
        assert(s.filter(keep).to_set() =~= s.to_set().filter(keep));
    } else {
        assert(s.filter(keep).to_set() =~= s.to_set().filter(keep));
    }
}


/// The type of an expression: what it yields, and whether it may fail
/// instead.
#[derive(Debug, Clone, PartialEq, Eq)]
pub struct ExprType {
    pub ok_type: Type,
    pub is_result: bool,
}

/// The mathematical content of an [`ExprType`].
pub struct ExprTypeView {
    pub ok_type: TypeView,
    pub is_result: bool,
}

impl View for ExprType {
    type V = ExprTypeView;

    open spec fn view(&self) -> ExprTypeView {
        ExprTypeView { ok_type: self.ok_type@, is_result: self.is_result }
    }
}

/// The full type of an expression: the type it yields, inside a `Result`
/// where it may fail.
pub open spec fn full_type(ty: ExprTypeView) -> TypeView {
    if ty.is_result {
        TypeView {
            text: "Result<"@ + ty.ok_type.text + ", ::failure::Error>"@,
            elem: None,
        }
    } else {
        ty.ok_type
    }
}

impl ExprType {
    /// The type of an expression that yields a `ty`.
    pub fn of(ty: Type) -> (et: ExprType)
        ensures
            et@ == (ExprTypeView { ok_type: ty@, is_result: false }),
    {
        ExprType { ok_type: ty, is_result: false }
    }

    /// The type of an expression that yields a `ty` or fails.
    pub fn of_result(ty: Type) -> (et: ExprType)
        ensures
            et@ == (ExprTypeView { ok_type: ty@, is_result: true }),
    {
        ExprType { ok_type: ty, is_result: true }
    }

    /// The full type: `ty`, or `Result<ty, ::failure::Error>`.
    pub fn full(self) -> (ty: Type)
        ensures
            ty@ == full_type(self@),
    {
        if self.is_result {
            let mut text = "Result<".to_owned();
            text.append(self.ok_type.text.as_str());
            text.append(", ::failure::Error>");
            Type { text, elem: None }
        } else {
            self.ok_type
        }
    }

    /// A copy of the type.
    pub fn duplicate(&self) -> (copy: ExprType)
        ensures
            copy@ == self@,
    {
        ExprType { ok_type: self.ok_type.duplicate(), is_result: self.is_result }
    }
}

/// An expression that makes a bag, and the type of that bag.
#[derive(Debug)]
pub struct BagExpr {
    pub expr: String,
    pub yields: Type,
}

/// The mathematical content of a [`BagExpr`].
pub struct BagExprView {
    pub expr: Seq<char>,
    pub yields: TypeView,
}

impl View for BagExpr {
    type V = BagExprView;

    open spec fn view(&self) -> BagExprView {
        BagExprView { expr: self.expr@, yields: self.yields@ }
    }
}

/// An expression whose inputs are bound to names before it is evaluated.
#[derive(Debug)]
pub struct Expr {
    pub inputs: Vec<(String, Expr)>,
    pub expr: String,
    pub yields: ExprType,
}

/// The mathematical content of an [`Expr`].
pub struct ExprView {
    pub inputs: Seq<(Seq<char>, ExprView)>,
    pub expr: Seq<char>,
    pub yields: ExprTypeView,
}

/// An expression with its inputs folded into its text.
#[derive(Debug, Clone)]
pub struct FlatExpr {
    pub expr: String,
    pub yields: ExprType,
}

/// The mathematical content of a [`FlatExpr`].
pub struct FlatExprView {
    pub expr: Seq<char>,
    pub yields: ExprTypeView,
}

impl View for FlatExpr {
    type V = FlatExprView;

    open spec fn view(&self) -> FlatExprView {
        FlatExprView { expr: self.expr@, yields: self.yields@ }
    }
}

/// The content of the first `upto` inputs of an expression.
pub open spec fn inputs_view(inputs: Seq<(String, Expr)>, upto: nat) -> Seq<(Seq<char>, ExprView)>
    decreases inputs, upto,
{
    if upto == 0 || upto > inputs.len() {
        Seq::empty()
    } else {
        inputs_view(inputs, (upto - 1) as nat).push(
            (inputs[upto - 1].0@, expr_view(inputs[upto - 1].1)),
        )
    }
}

/// The content of an expression.
pub open spec fn expr_view(e: Expr) -> ExprView
    decreases e,
{
    ExprView {
        inputs: inputs_view(e.inputs@, e.inputs@.len()),
        expr: e.expr@,
        yields: e.yields@,
    }
}

impl View for Expr {
    type V = ExprView;

    open spec fn view(&self) -> ExprView {
        expr_view(*self)
    }
}

/// The `let` statements that bind the first `upto` of `inputs`.
pub open spec fn lets_text(inputs: Seq<(Seq<char>, ExprView)>, upto: nat) -> Seq<char>
    decreases inputs, upto,
{
    if upto == 0 || upto > inputs.len() {
        Seq::empty()
    } else {
        let name = inputs[upto - 1].0;
        let input = inputs[upto - 1].1;
        lets_text(inputs, (upto - 1) as nat) + "let "@ + name + ": "@ + full_type(
            input.yields,
        ).text + " = "@ + flat_text(input) + "; "@
    }
}

/// The text of an expression as one block: its inputs bound by `let`, then
/// the expression itself.
pub open spec fn flat_text(e: ExprView) -> Seq<char>
    decreases e,
{
    "{ "@ + lets_text(e.inputs, e.inputs.len()) + e.expr + " }"@
}

/// An expression folded into one block.
pub open spec fn flattened(e: ExprView) -> FlatExprView {
    FlatExprView { expr: flat_text(e), yields: e.yields }
}

/// The static bag around an expression: `Static` where it cannot fail,
/// `TryStatic` where it can.
pub open spec fn static_bag(e: ExprView) -> BagExprView {
    let wrapper = if e.yields.is_result {
        "::bag::bags::TryStatic"@
    } else {
        "::bag::bags::Static"@
    };
    let ok = e.yields.ok_type.text;
    BagExprView {
        expr: wrapper + "::<"@ + ok + ">("@ + flat_text(e) + ")"@,
        yields: TypeView { text: wrapper + "<"@ + ok + ">"@, elem: None },
    }
}

/// The full types of the first `upto` of `inputs`, each followed by a comma.
pub open spec fn types_text(inputs: Seq<(Seq<char>, ExprView)>, upto: nat) -> Seq<char>
    decreases upto,
{
    if upto == 0 || upto > inputs.len() {
        Seq::empty()
    } else {
        types_text(inputs, (upto - 1) as nat) + full_type(inputs[upto - 1].1.yields).text + ","@
    }
}

/// The flat texts of the first `upto` of `inputs`, each followed by a comma.
pub open spec fn values_text(inputs: Seq<(Seq<char>, ExprView)>, upto: nat) -> Seq<char>
    decreases upto,
{
    if upto == 0 || upto > inputs.len() {
        Seq::empty()
    } else {
        values_text(inputs, (upto - 1) as nat) + flat_text(inputs[upto - 1].1) + ","@
    }
}

/// The names of the first `upto` of `inputs`, each followed by a comma.
pub open spec fn names_text(inputs: Seq<(Seq<char>, ExprView)>, upto: nat) -> Seq<char>
    decreases upto,
{
    if upto == 0 || upto > inputs.len() {
        Seq::empty()
    } else {
        names_text(inputs, (upto - 1) as nat) + inputs[upto - 1].0 + ","@
    }
}

/// The name of the lazy bag for an expression: `TryLazyMap` where it may
/// fail, `LazyMap` where it cannot.
pub open spec fn lazy_map_name(e: ExprView) -> Seq<char> {
    if e.yields.is_result {
        "TryLazyMap"@
    } else {
        "LazyMap"@
    }
}

/// The types of the inputs of `e` as one tuple type.
pub open spec fn tuple_type_text(e: ExprView) -> Seq<char> {
    "("@ + types_text(e.inputs, e.inputs.len()) + ")"@
}

/// The inputs of `e`, each folded into one block, as one tuple.
pub open spec fn tuple_value_text(e: ExprView) -> Seq<char> {
    "("@ + values_text(e.inputs, e.inputs.len()) + ")"@
}

/// The names of the inputs of `e` as one tuple pattern.
pub open spec fn tuple_names_text(e: ExprView) -> Seq<char> {
    "("@ + names_text(e.inputs, e.inputs.len()) + ")"@
}

/// The type arguments of the lazy bag for `e`: the tuple of its inputs,
/// what it yields, and the function from the one to the other.
pub open spec fn lazy_map_args(e: ExprView) -> Seq<char> {
    tuple_type_text(e) + ", "@ + e.yields.ok_type.text + ", fn("@ + tuple_type_text(e) + ") -> "@
        + e.yields.ok_type.text + ">"@
}

/// The type of the lazy bag that maps the inputs of `e` to its value.
pub open spec fn lazy_map_type(e: ExprView) -> Seq<char> {
    "::bag::bags::"@ + lazy_map_name(e) + "<"@ + lazy_map_args(e)
}

/// The lazy bag that evaluates the inputs of `e` at once and `e` itself on
/// first use.
pub open spec fn lazy_map_bag(e: ExprView) -> BagExprView {
    BagExprView {
        expr: "::bag::bags::"@ + lazy_map_name(e) + "::<"@ + lazy_map_args(e) + "::new("@
            + tuple_value_text(e) + ", |"@ + tuple_names_text(e) + "| "@ + e.expr + ")"@,
        yields: TypeView { text: lazy_map_type(e), elem: None },
    }
}

impl BagExpr {
    /// The bag expression as a plain expression without inputs.
    pub fn to_expr(self) -> (e: Expr)
        ensures
            e@ == (ExprView {
                inputs: Seq::empty(),
                expr: self.expr@,
                yields: ExprTypeView { ok_type: self.yields@, is_result: false },
            }),
    {
        let e = Expr { inputs: Vec::new(), expr: self.expr, yields: ExprType::of(self.yields) };
        assert(e@.inputs =~= Seq::empty());
        e
    }

    /// A copy of the bag expression.
    pub fn duplicate(&self) -> (copy: BagExpr)
        ensures
            copy@ == self@,
    {
        BagExpr { expr: self.expr.clone(), yields: self.yields.duplicate() }
    }
}

impl Expr {
    /// An expression without inputs, from its text and type.
    pub fn from_quote(toks: String, yields: ExprType) -> (e: Expr)
        ensures
            e@ == (ExprView { inputs: Seq::empty(), expr: toks@, yields: yields@ }),
    {
        let e = Expr { inputs: Vec::new(), expr: toks, yields };
        assert(e@.inputs =~= Seq::empty());
        e
    }

    /// Binds `input` to `name` for this expression, after the inputs it has.
    pub fn bind(&mut self, name: String, input: Expr)
        ensures
            final(self)@ == (ExprView {
                inputs: old(self)@.inputs.push((name@, input@)),
                expr: old(self)@.expr,
                yields: old(self)@.yields,
            }),
    {
        proof {
            lemma_inputs_view(self.inputs@, self.inputs@.len());
        }
        self.inputs.push((name, input));
        proof {
            let before = old(self).inputs@;
            let after = self.inputs@;
            lemma_inputs_view(after, after.len());
            assert forall|i: int| 0 <= i < before.len() implies after[i] == before[i] by {}
            assert(self@.inputs =~= old(self)@.inputs.push((name@, input@)));
        }
    }

    /// The text of the expression as one block.
    fn flat(&self) -> (text: String)
        ensures
            text@ == flat_text(self@),
        decreases self,
    {
        let mut text = "{ ".to_owned();
        let mut i: usize = 0;
        proof {
            lemma_inputs_view(self.inputs@, self.inputs@.len());
            assert("{ "@ + Seq::<char>::empty() =~= "{ "@);
        }
        while i < self.inputs.len()
            invariant
                i <= self.inputs.len(),
                self@.inputs.len() == self.inputs@.len(),
                forall|j: int|
                    0 <= j < self.inputs@.len() ==> (#[trigger] self@.inputs[j]) == (
                        self.inputs@[j].0@,
                        self.inputs@[j].1@,
                    ),
                text@ == "{ "@ + lets_text(self@.inputs, i as nat),
            decreases self.inputs.len() - i,
        {
            let name = &self.inputs[i].0;
            let input = &self.inputs[i].1;
            let value = input.flat();
            let ty = input.yields.duplicate().full();
            let ghost before = text@;
            text.append("let ");
            text.append(name.as_str());
            text.append(": ");
            text.append(ty.text.as_str());
            text.append(" = ");
            text.append(value.as_str());
            text.append("; ");
            proof {
                let bound = self@.inputs[i as int];
                assert(bound == (name@, input@));
                let done = lets_text(self@.inputs, i as nat);
                let more = lets_text(self@.inputs, (i + 1) as nat);
                assert(more == done + "let "@ + name@ + ": "@ + full_type(input@.yields).text
                    + " = "@ + flat_text(input@) + "; "@);
                assert(text@ =~= "{ "@ + more);
            }
            i += 1;
        }
        text.append(self.expr.as_str());
        text.append(" }");
        text
    }

    /// Folds the inputs into the text of the expression.
    pub fn flatten(self) -> (flat: FlatExpr)
        ensures
            flat@ == flattened(self@),
    {
        let expr = self.flat();
        FlatExpr { expr, yields: self.yields }
    }

    /// Wraps the expression, folded into one block, into a static bag.
    pub fn bag_static(self) -> (bag: BagExpr)
        ensures
            bag@ == static_bag(self@),
    {
        let flat = self.flatten();
        let is_result = flat.yields.is_result;
        let ok = flat.yields.ok_type;
        let mut expr = if is_result {
            "::bag::bags::TryStatic".to_owned()
        } else {
            "::bag::bags::Static".to_owned()
        };
        let mut yields = expr.clone();
        expr.append("::<");
        expr.append(ok.text.as_str());
        expr.append(">(");
        expr.append(flat.expr.as_str());
        expr.append(")");
        yields.append("<");
        yields.append(ok.text.as_str());
        yields.append(">");
        BagExpr { expr, yields: Type { text: yields, elem: None } }
    }

    /// The type of the tuple of the inputs.
    fn tuple_type(&self) -> (text: String)
        ensures
            text@ == tuple_type_text(self@),
    {
        let mut text = "(".to_owned();
        let mut i: usize = 0;
        proof {
            lemma_inputs_view(self.inputs@, self.inputs@.len());
            assert("("@ + Seq::<char>::empty() =~= "("@);
        }
        while i < self.inputs.len()
            invariant
                i <= self.inputs.len(),
                self@.inputs.len() == self.inputs@.len(),
                forall|j: int|
                    0 <= j < self.inputs@.len() ==> (#[trigger] self@.inputs[j]) == (
                        self.inputs@[j].0@,
                        self.inputs@[j].1@,
                    ),
                text@ == "("@ + types_text(self@.inputs, i as nat),
            decreases self.inputs.len() - i,
        {
            let ty = self.inputs[i].1.yields.duplicate().full();
            text.append(ty.text.as_str());
            text.append(",");
            proof {
                let bound = self@.inputs[i as int];
                let more = types_text(self@.inputs, (i + 1) as nat);
                assert(more == types_text(self@.inputs, i as nat) + full_type(
                    bound.1.yields,
                ).text + ","@);
                assert(text@ =~= "("@ + more);
            }
            i += 1;
        }
        text.append(")");
        text
    }

    /// The tuple of the inputs, each folded into one block.
    fn tuple_value(&self) -> (text: String)
        ensures
            text@ == tuple_value_text(self@),
    {
        let mut text = "(".to_owned();
        let mut i: usize = 0;
        proof {
            lemma_inputs_view(self.inputs@, self.inputs@.len());
            assert("("@ + Seq::<char>::empty() =~= "("@);
        }
        while i < self.inputs.len()
            invariant
                i <= self.inputs.len(),
                self@.inputs.len() == self.inputs@.len(),
                forall|j: int|
                    0 <= j < self.inputs@.len() ==> (#[trigger] self@.inputs[j]) == (
                        self.inputs@[j].0@,
                        self.inputs@[j].1@,
                    ),
                text@ == "("@ + values_text(self@.inputs, i as nat),
            decreases self.inputs.len() - i,
        {
            let value = self.inputs[i].1.flat();
            text.append(value.as_str());
            text.append(",");
            proof {
                let bound = self@.inputs[i as int];
                let more = values_text(self@.inputs, (i + 1) as nat);
                assert(more == values_text(self@.inputs, i as nat) + flat_text(bound.1) + ","@);
                assert(text@ =~= "("@ + more);
            }
            i += 1;
        }
        text.append(")");
        text
    }

    /// The pattern that names the inputs.
    fn tuple_names(&self) -> (text: String)
        ensures
            text@ == tuple_names_text(self@),
    {
        let mut text = "(".to_owned();
        let mut i: usize = 0;
        proof {
            lemma_inputs_view(self.inputs@, self.inputs@.len());
            assert("("@ + Seq::<char>::empty() =~= "("@);
        }
        while i < self.inputs.len()
            invariant
                i <= self.inputs.len(),
                self@.inputs.len() == self.inputs@.len(),
                forall|j: int|
                    0 <= j < self.inputs@.len() ==> (#[trigger] self@.inputs[j]) == (
                        self.inputs@[j].0@,
                        self.inputs@[j].1@,
                    ),
                text@ == "("@ + names_text(self@.inputs, i as nat),
            decreases self.inputs.len() - i,
        {
            text.append(self.inputs[i].0.as_str());
            text.append(",");
            proof {
                let bound = self@.inputs[i as int];
                let more = names_text(self@.inputs, (i + 1) as nat);
                assert(more == names_text(self@.inputs, i as nat) + bound.0 + ","@);
                assert(text@ =~= "("@ + more);
            }
            i += 1;
        }
        text.append(")");
        text
    }

    /// The type arguments of the lazy bag for this expression.
    fn lazy_args(&self) -> (text: String)
        ensures
            text@ == lazy_map_args(self@),
    {
        let a_type = self.tuple_type();
        let mut args = a_type.clone();
        args.append(", ");
        args.append(self.yields.ok_type.text.as_str());
        args.append(", fn(");
        args.append(a_type.as_str());
        args.append(") -> ");
        args.append(self.yields.ok_type.text.as_str());
        args.append(">");
        args
    }

    /// The path of the lazy bag for this expression.
    fn lazy_path(&self) -> (text: String)
        ensures
            text@ == "::bag::bags::"@ + lazy_map_name(self@),
    {
        let mut path = "::bag::bags::".to_owned();
        if self.yields.is_result {
            path.append("TryLazyMap");
        } else {
            path.append("LazyMap");
        }
        path
    }

    /// Wraps the expression into a lazy bag: the inputs are evaluated when
    /// the bag is made, the expression itself on first use.
    pub fn bag_lazy_map(self) -> (bag: BagExpr)
        ensures
            bag@ == lazy_map_bag(self@),
    {
        let args = self.lazy_args();
        let values = self.tuple_value();
        let names = self.tuple_names();
        let mut ty = self.lazy_path();
        let mut expr = ty.clone();
        ty.append("<");
        ty.append(args.as_str());
        expr.append("::<");
        expr.append(args.as_str());
        expr.append("::new(");
        expr.append(values.as_str());
        expr.append(", |");
        expr.append(names.as_str());
        expr.append("| ");
        expr.append(self.expr.as_str());
        expr.append(")");
        BagExpr { expr, yields: Type { text: ty, elem: None } }
    }
}

/// The content of the inputs is the content of each input, in order.
pub proof fn lemma_inputs_view(inputs: Seq<(String, Expr)>, upto: nat)
    requires
        upto <= inputs.len(),
    ensures
        inputs_view(inputs, upto).len() == upto,
        forall|j: int|
            0 <= j < upto ==> (#[trigger] inputs_view(inputs, upto)[j]) == (
                inputs[j].0@,
                inputs[j].1@,
            ),
    decreases upto,
{
    if upto > 0 {
        lemma_inputs_view(inputs, (upto - 1) as nat);
    }
}

/// The type of a bag, and what it is capable of.
#[derive(Debug, Clone)]
pub struct BagType {
    pub full: Type,
    pub info: BagInfo,
}

impl BagType {
    /// The bag type `full`, which is a `Bag<view>` and, where `unbag` is
    /// given, an `Unbag<unbag>`.
    pub fn simple(full: Type, view: Type, unbag: Option<Type>) -> (ty: BagType)
        ensures
            ty.full == full,
            ty.info.wf(),
            ty.info.order() == match unbag {
                Some(u) => seq![(BagTrait::Simple, view@), (BagTrait::Unbag, u@)],
                None => seq![(BagTrait::Simple, view@)],
            },
    {
        BagType { full, info: BagInfo::simple(view, unbag) }
    }

    /// The bag type `full`, which is a `TryBag<view>` and, where `unbag` is
    /// given, a `TryUnbag<unbag>`.
    pub fn simple_try(full: Type, view: Type, unbag: Option<Type>) -> (ty: BagType)
        ensures
            ty.full == full,
            ty.info.wf(),
            ty.info.order() == match unbag {
                Some(u) => seq![(BagTrait::Try, view@), (BagTrait::TryUnbag, u@)],
                None => seq![(BagTrait::Try, view@)],
            },
    {
        BagType { full, info: BagInfo::simple_try(view, unbag) }
    }
}

} // verus!
