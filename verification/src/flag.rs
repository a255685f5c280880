//! Interned capability flags, and the sets and maps keyed by them.

use vstd::prelude::*;

verus! {

/// An interned symbol naming a boolean capability.
#[derive(Copy, Clone, Debug, Hash, PartialEq, Eq, Structural, PartialOrd, Ord)]
pub struct Flag {
    id: usize,
}

impl Flag {
    /// The position of this flag's name in the registry that interned it.
    pub closed spec fn id(self) -> nat {
        self.id as nat
    }

    /// The flag at a position.
    pub closed spec fn at(id: nat) -> Flag {
        Flag { id: id as usize }
    }

    /// A flag is the flag at its position.
    pub proof fn lemma_at(flag: Flag)
        ensures
            Flag::at(flag.id()) == flag,
    {
    }

    /// Flags are equal exactly when their positions are.
    pub proof fn lemma_id_injective(a: Flag, b: Flag)
        ensures
            (a.id() == b.id()) <==> (a == b),
    {
    }

    /// The flag that every registry holds from the start, named "artifact".
    pub fn artifact() -> (flag: Flag)
        ensures
            flag.id() == 0,
            flag == Flag::at(0),
    {
        Flag { id: 0 }
    }

    /// Interns `name` in `flags`.
    pub fn new(flags: &mut Flags, name: String) -> (flag: Flag)
        requires
            old(flags).wf(),
        ensures
            final(flags).wf(),
            final(flags).names() == interned(old(flags).names(), name@).0,
            flag.id() == interned(old(flags).names(), name@).1,
            flag == Flag::at(interned(old(flags).names(), name@).1),
            final(flags).knows(flag),
            old(flags).names().is_prefix_of(final(flags).names()),
    {
        flags.intern(name)
    }

    /// Interns a borrowed name in `flags`.
    pub fn from_str(flags: &mut Flags, name: &str) -> (flag: Flag)
        requires
            old(flags).wf(),
        ensures
            final(flags).wf(),
            final(flags).names() == interned(old(flags).names(), name@).0,
            flag.id() == interned(old(flags).names(), name@).1,
            flag == Flag::at(interned(old(flags).names(), name@).1),
            final(flags).knows(flag),
            old(flags).names().is_prefix_of(final(flags).names()),
    {
        flags.intern(name.to_owned())
    }

    /// The name this flag was interned under.
    pub fn name(&self, flags: &Flags) -> (name: String)
        requires
            flags.knows(*self),
        ensures
            name@ == flags.names()[self.id() as int],
    {
        flags.id_to_name[self.id].clone()
    }

    /// Hands the flag's name to `func` and returns what it returns.
    pub fn with_name<V, F: FnOnce(&str) -> V>(&self, flags: &Flags, func: F) -> (out: V)
        requires
            flags.knows(*self),
            forall|s: &str| s@ == flags.names()[self.id() as int] ==> call_requires(func, (s,)),
        ensures
            exists|s: &str|
                s@ == flags.names()[self.id() as int] && call_ensures(func, (s,), out),
    {
        func(flags.id_to_name[self.id].as_str())
    }
}

/// Where `name` stands after interning it among `names`, and the names then.
pub open spec fn interned(names: Seq<Seq<char>>, name: Seq<char>) -> (Seq<Seq<char>>, nat) {
    if names.contains(name) {
        (names, names.index_of(name) as nat)
    } else {
        (names.push(name), names.len())
    }
}

/// The symbol table: each interned name, at the position that is its flag.
pub struct Flags {
    id_to_name: Vec<String>,
}

impl Flags {
    /// The interned names, by flag position.
    pub closed spec fn names(&self) -> Seq<Seq<char>> {
        self.id_to_name@.map_values(|s: String| s@)
    }

    /// No name is interned twice, and position 0 is "artifact".
    pub open spec fn wf(&self) -> bool {
        &&& self.names().no_duplicates()
        &&& self.names().len() > 0
        &&& self.names()[0] == "artifact"@
    }

    /// `flag` was handed out by this registry.
    pub open spec fn knows(&self, flag: Flag) -> bool {
        flag.id() < self.names().len()
    }

    /// A registry that holds only the "artifact" flag.
    pub fn new() -> (flags: Flags)
        ensures
            flags.wf(),
            flags.names() == seq!["artifact"@],
    {
        let mut flags = Flags { id_to_name: Vec::new() };
        flags.insert(Flag::artifact(), "artifact");
        assert(flags.names() =~= seq!["artifact"@]);
        flags
    }

    /// Appends `name` as the name of `flag`, the next free position.
    fn insert(&mut self, flag: Flag, name: &str)
        requires
            old(self).names().len() == flag.id(),
        ensures
            final(self).names() == old(self).names().push(name@),
    {
        self.id_to_name.push(name.to_owned());
        assert(self.names() =~= old(self).names().push(name@));
    }

    /// The number of interned names.
    pub fn len(&self) -> (n: usize)
        ensures
            n == self.names().len(),
    {
        self.id_to_name.len()
    }

    /// The flag of `name`, if it is interned.
    pub fn lookup(&self, name: &String) -> (found: Option<Flag>)
        requires
            self.wf(),
        ensures
            found is Some <==> self.names().contains(name@),
            found matches Some(flag) ==> flag.id() == self.names().index_of(name@),
    {
        let mut i: usize = 0;
        while i < self.id_to_name.len()
            invariant
                i <= self.id_to_name.len(),
                self.wf(),
                forall|j: int| 0 <= j < i ==> self.names()[j] != name@,
            decreases self.id_to_name.len() - i,
        {
            if self.id_to_name[i] == *name {
                proof {
                    let names = self.names();
                    assert(names[i as int] == name@);
                    assert(names.contains(name@));
                    let k = names.index_of(name@);
                    assert(names[k] == name@);
                    assert(k == i);
                }
                return Some(Flag { id: i });
            }
            i += 1;
        }
        None
    }

    /// The flag of `name`: the one it has, or a new one at the next position.
    pub fn intern(&mut self, name: String) -> (flag: Flag)
        requires
            old(self).wf(),
        ensures
            final(self).wf(),
            final(self).names() == interned(old(self).names(), name@).0,
            flag.id() == interned(old(self).names(), name@).1,
            flag == Flag::at(interned(old(self).names(), name@).1),
            final(self).knows(flag),
            old(self).names().is_prefix_of(final(self).names()),
    {
        match self.lookup(&name) {
            Some(flag) => flag,
            None => {
                let id = self.id_to_name.len();
                self.id_to_name.push(name);
                assert(self.names() =~= old(self).names().push(name@));
                Flag { id }
            },
        }
    }

    /// The name of `flag`, if this registry handed it out.
    pub fn name_of(&self, flag: Flag) -> (name: Option<String>)
        ensures
            name is Some <==> self.knows(flag),
            name matches Some(n) ==> n@ == self.names()[flag.id() as int],
    {
        if flag.id < self.id_to_name.len() {
            Some(self.id_to_name[flag.id].clone())
        } else {
            None
        }
    }
}


/// A set of flags that remembers the order in which they were inserted.
#[derive(Debug, Clone)]
pub struct FlagSet {
    items: Vec<Flag>,
}

impl FlagSet {
    /// The flags in insertion order.
    pub closed spec fn order(&self) -> Seq<Flag> {
        self.items@
    }

    /// The flags as a set.
    pub open spec fn view(&self) -> Set<Flag> {
        self.order().to_set()
    }

    /// No flag is held twice.
    pub open spec fn wf(&self) -> bool {
        self.order().no_duplicates()
    }

    /// With no duplicates the set is as large as the sequence is long.
    pub proof fn lemma_len(&self)
        requires
            self.wf(),
        ensures
            self@.finite(),
            self@.len() == self.order().len(),
    {
        self.order().unique_seq_to_set();
    }

    /// The empty set.
    pub fn new() -> (set: FlagSet)
        ensures
            set.wf(),
            set.order() == Seq::<Flag>::empty(),
            set@ == Set::<Flag>::empty(),
    {
        let set = FlagSet { items: Vec::new() };
        assert(set@ =~= Set::<Flag>::empty());
        set
    }

    /// The number of flags held.
    pub fn len(&self) -> (n: usize)
        requires
            self.wf(),
        ensures
            n == self.order().len(),
            n == self@.len(),
    {
        proof {
            self.lemma_len();
        }
        self.items.len()
    }

    /// Whether `flag` is held.
    pub fn contains(&self, flag: &Flag) -> (held: bool)
        ensures
            held == self@.contains(*flag),
    {
        let mut i: usize = 0;
        while i < self.items.len()
            invariant
                i <= self.items.len(),
                forall|j: int| 0 <= j < i ==> self.order()[j] != *flag,
            decreases self.items.len() - i,
        {
            if self.items[i] == *flag {
                assert(self.order()[i as int] == *flag);
                return true;
            }
            i += 1;
        }
        false
    }

    /// Adds `flag`; says whether it was new.
    pub fn insert(&mut self, flag: Flag) -> (fresh: bool)
        requires
            old(self).wf(),
        ensures
            final(self).wf(),
            fresh == !old(self)@.contains(flag),
            final(self)@ == old(self)@.insert(flag),
            final(self).order() == with_flag(old(self).order(), flag),
    {
        if self.contains(&flag) {
            assert(self@ =~= old(self)@.insert(flag));
            false
        } else {
            self.items.push(flag);
            proof {
                old(self).order().lemma_push_to_set_commute(flag);
            }
            true
        }
    }

    /// Takes `flag` out; says whether it was held.
    pub fn remove(&mut self, flag: &Flag) -> (held: bool)
        requires
            old(self).wf(),
        ensures
            final(self).wf(),
            held == old(self)@.contains(*flag),
            final(self)@ == old(self)@.remove(*flag),
            final(self).order() == without_flag(old(self).order(), *flag),
    {
        let ghost keep = other_than(*flag);
        let mut i: usize = 0;
        while i < self.items.len()
            invariant
                i <= self.items.len(),
                self.items@ == old(self).items@,
                self.wf(),
                keep == other_than(*flag),
                forall|j: int| 0 <= j < i ==> self.order()[j] != *flag,
            decreases self.items.len() - i,
        {
            if self.items[i] == *flag {
                self.items.remove(i);
                proof {
                    let before = old(self).order();
                    let after = self.order();
                    assert(after =~= before.remove(i as int));
                    assert(before.filter(keep) =~= after) by {
                        lemma_filter_unique(before, i as int, keep);
                    }
                    assert(self@ =~= old(self)@.remove(*flag)) by {
                        assert forall|f: Flag| self@.contains(f) <==> (old(self)@.contains(f) && f
                            != *flag) by {
                            if self@.contains(f) {
                                let k = choose|k: int| 0 <= k < after.len() && after[k] == f;
                                if k < i {
                                    assert(before[k] == f);
                                } else {
                                    assert(before[k + 1] == f);
                                }
                            }
                            if old(self)@.contains(f) && f != *flag {
                                let k = choose|k: int| 0 <= k < before.len() && before[k] == f;
                                if k < i {
                                    assert(after[k] == f);
                                } else {
                                    assert(after[k - 1] == f);
                                }
                            }
                        }
                    }
                }
                return true;
            }
            i += 1;
        }
        proof {
            let before = old(self).order();
            assert(!old(self)@.contains(*flag));
            assert(self@ =~= old(self)@.remove(*flag));
            lemma_filter_all(before, keep);
        }
        false
    }

    /// Adds each of `flags` in turn.
    pub fn extend(&mut self, flags: &Vec<Flag>)
        requires
            old(self).wf(),
        ensures
            final(self).wf(),
            final(self)@ == old(self)@.union(flags@.to_set()),
    {
        let mut i: usize = 0;
        while i < flags.len()
            invariant
                i <= flags.len(),
                self.wf(),
                self@ == old(self)@.union(flags@.take(i as int).to_set()),
            decreases flags.len() - i,
        {
            self.insert(flags[i]);
            proof {
                let done = flags@.take(i as int);
                assert(flags@.take(i + 1) =~= done.push(flags@[i as int]));
                done.lemma_push_to_set_commute(flags@[i as int]);
                assert(self@ =~= old(self)@.union(flags@.take(i + 1).to_set()));
            }
            i += 1;
        }
        proof {
            assert(flags@.take(flags.len() as int) =~= flags@);
        }
    }

    /// Adds each flag of `other` that `only` holds too, in `other`'s order.
    pub fn extend_common(&mut self, other: &FlagSet, only: &FlagSet)
        requires
            old(self).wf(),
        ensures
            final(self).wf(),
            final(self)@ == old(self)@.union(other@.intersect(only@)),
    {
        let mut i: usize = 0;
        while i < other.items.len()
            invariant
                i <= other.items.len(),
                self.wf(),
                self@ == old(self)@.union(other.order().take(i as int).to_set().intersect(only@)),
            decreases other.items.len() - i,
        {
            let flag = other.items[i];
            proof {
                let done = other.order().take(i as int);
                assert(other.order().take(i + 1) =~= done.push(flag));
                done.lemma_push_to_set_commute(flag);
            }
            if only.contains(&flag) {
                self.insert(flag);
            }
            assert(self@ =~= old(self)@.union(
                other.order().take(i + 1).to_set().intersect(only@),
            ));
            i += 1;
        }
        proof {
            assert(other.order().take(other.items.len() as int) =~= other.order());
        }
    }

    /// The first flag, in insertion order, that `other` lacks.
    pub fn first_missing(&self, other: &FlagSet) -> (found: Option<Flag>)
        ensures
            found == first_outside(self.order(), other@),
            found is None <==> self@.subset_of(other@),
            found matches Some(f) ==> self@.contains(f) && !other@.contains(f),
    {
        let mut i: usize = 0;
        assert(self.order().skip(0) =~= self.order());
        while i < self.items.len()
            invariant
                i <= self.items.len(),
                forall|j: int| 0 <= j < i ==> other@.contains(#[trigger] self.order()[j]),
                first_outside(self.order(), other@) == first_outside(
                    self.order().skip(i as int),
                    other@,
                ),
            decreases self.items.len() - i,
        {
            let flag = self.items[i];
            proof {
                let rest = self.order().skip(i as int);
                assert(rest[0] == flag);
                assert(rest.skip(1) =~= self.order().skip(i + 1));
            }
            if !other.contains(&flag) {
                assert(self.order()[i as int] == flag);
                return Some(flag);
            }
            i += 1;
        }
        proof {
            assert(self.order().skip(i as int).len() == 0);
            assert forall|f: Flag| self@.contains(f) implies other@.contains(f) by {
                let k = choose|k: int| 0 <= k < self.order().len() && self.order()[k] == f;
                assert(other@.contains(self.order()[k]));
            }
        }
        None
    }

    /// The first flag, in insertion order, that `other` holds too.
    pub fn first_common(&self, other: &FlagSet) -> (found: Option<Flag>)
        ensures
            found == first_inside(self.order(), other@),
            found is None <==> self@.disjoint(other@),
            found matches Some(f) ==> self@.contains(f) && other@.contains(f),
    {
        let mut i: usize = 0;
        assert(self.order().skip(0) =~= self.order());
        while i < self.items.len()
            invariant
                i <= self.items.len(),
                forall|j: int| 0 <= j < i ==> !other@.contains(#[trigger] self.order()[j]),
                first_inside(self.order(), other@) == first_inside(
                    self.order().skip(i as int),
                    other@,
                ),
            decreases self.items.len() - i,
        {
            let flag = self.items[i];
            proof {
                let rest = self.order().skip(i as int);
                assert(rest[0] == flag);
                assert(rest.skip(1) =~= self.order().skip(i + 1));
            }
            if other.contains(&flag) {
                assert(self.order()[i as int] == flag);
                return Some(flag);
            }
            i += 1;
        }
        proof {
            assert(self.order().skip(i as int).len() == 0);
            assert forall|f: Flag| !(self@.contains(f) && other@.contains(f)) by {
                if self@.contains(f) {
                    let k = choose|k: int| 0 <= k < self.order().len() && self.order()[k] == f;
                    assert(!other@.contains(self.order()[k]));
                }
            }
        }
        None
    }

    /// A copy with the same flags in the same order.
    pub fn duplicate(&self) -> (copy: FlagSet)
        ensures
            copy.wf() == self.wf(),
            copy.order() == self.order(),
            copy@ == self@,
    {
        FlagSet { items: self.items.clone() }
    }
}

/// `order` with `flag` behind it, unless it is there already.
pub open spec fn with_flag(order: Seq<Flag>, flag: Flag) -> Seq<Flag> {
    if order.contains(flag) {
        order
    } else {
        order.push(flag)
    }
}

/// Whether a flag is another than `flag`.
pub open spec fn other_than(flag: Flag) -> spec_fn(Flag) -> bool {
    |f: Flag| f != flag
}

/// `order` without `flag`, the others in the order they had.
pub open spec fn without_flag(order: Seq<Flag>, flag: Flag) -> Seq<Flag> {
    order.filter(other_than(flag))
}

/// The first element of `order` that is not in `set`.
pub open spec fn first_outside(order: Seq<Flag>, set: Set<Flag>) -> Option<Flag>
    decreases order.len(),
{
    if order.len() == 0 {
        None
    } else if !set.contains(order[0]) {
        Some(order[0])
    } else {
        first_outside(order.skip(1), set)
    }
}

/// The first element of `order` that is in `set`.
pub open spec fn first_inside(order: Seq<Flag>, set: Set<Flag>) -> Option<Flag>
    decreases order.len(),
{
    if order.len() == 0 {
        None
    } else if set.contains(order[0]) {
        Some(order[0])
    } else {
        first_inside(order.skip(1), set)
    }
}

/// The first element of `order` that is in `set` is in both; there is none
/// exactly when the two have nothing in common.
pub proof fn lemma_first_inside(order: Seq<Flag>, set: Set<Flag>)
    ensures
        first_inside(order, set) is None <==> order.to_set().disjoint(set),
        first_inside(order, set) matches Some(f) ==> order.to_set().contains(f) && set.contains(f),
    decreases order.len(),
{
    if order.len() > 0 {
        let rest = order.skip(1);
        lemma_first_inside(rest, set);
        assert forall|f: Flag| order.to_set().contains(f) <==> (f == order[0] || rest.to_set().contains(
            f,
        )) by {
            if order.to_set().contains(f) {
                let k = choose|k: int| 0 <= k < order.len() && order[k] == f;
                if k > 0 {
                    assert(rest[k - 1] == f);
                }
            }
            if rest.to_set().contains(f) {
                let k = choose|k: int| 0 <= k < rest.len() && rest[k] == f;
                assert(order[k + 1] == f);
            }
        }
        assert(order.to_set().contains(order[0]));
    }
}

/// The first element of `order` that is not in `set` is in the one and not
/// in the other; there is none exactly when `set` holds all of `order`.
pub proof fn lemma_first_outside(order: Seq<Flag>, set: Set<Flag>)
    ensures
        first_outside(order, set) is None <==> order.to_set().subset_of(set),
        first_outside(order, set) matches Some(f) ==> order.to_set().contains(f) && !set.contains(f),
    decreases order.len(),
{
    if order.len() > 0 {
        let rest = order.skip(1);
        lemma_first_outside(rest, set);
        assert forall|f: Flag| order.to_set().contains(f) <==> (f == order[0] || rest.to_set().contains(
            f,
        )) by {
            if order.to_set().contains(f) {
                let k = choose|k: int| 0 <= k < order.len() && order[k] == f;
                if k > 0 {
                    assert(rest[k - 1] == f);
                }
            }
            if rest.to_set().contains(f) {
                let k = choose|k: int| 0 <= k < rest.len() && rest[k] == f;
                assert(order[k + 1] == f);
            }
        }
        assert(order.to_set().contains(order[0]));
    }
}

/// Filtering out an element that occurs once, at `i`, removes position `i`.
proof fn lemma_filter_unique(s: Seq<Flag>, i: int, keep: spec_fn(Flag) -> bool)
    requires
        0 <= i < s.len(),
        s.no_duplicates(),
        forall|f: Flag| #[trigger] keep(f) == (f != s[i]),
    ensures
        s.filter(keep) == s.remove(i),
    decreases s.len(),
{
    reveal(Seq::filter);
    let front = s.drop_last();
    let last = s.last();
    if i == s.len() - 1 {
        assert(front =~= s.remove(i));
        assert forall|j: int| 0 <= j < front.len() implies keep(#[trigger] front[j]) by {
            assert(front[j] == s[j]);
        }
        lemma_filter_all(front, keep);
    } else {
        assert(front[i] == s[i]);
        lemma_filter_unique(front, i, keep);
        assert(keep(last));
        assert(s.filter(keep) =~= front.filter(keep).push(last));
        assert(s.remove(i) =~= front.remove(i).push(last));
    }
}

/// Filtering keeps a sequence whose elements all pass.
proof fn lemma_filter_all(s: Seq<Flag>, keep: spec_fn(Flag) -> bool)
    requires
        forall|j: int| 0 <= j < s.len() ==> keep(#[trigger] s[j]),
    ensures
        s.filter(keep) == s,
    decreases s.len(),
{
    reveal(Seq::filter);
    if s.len() > 0 {
        let front = s.drop_last();
        assert forall|j: int| 0 <= j < front.len() implies keep(#[trigger] front[j]) by {
            assert(front[j] == s[j]);
        }
        lemma_filter_all(front, keep);
        assert(s =~= front.push(s.last()));
    } else {
        assert(s.filter(keep) =~= s);
    }
}


/// The names after interning each of `more` in turn.
pub open spec fn interned_all(names: Seq<Seq<char>>, more: Seq<Seq<char>>) -> Seq<Seq<char>>
    decreases more.len(),
{
    if more.len() == 0 {
        names
    } else {
        interned(interned_all(names, more.drop_last()), more.last()).0
    }
}

/// Interning keeps every earlier name at its position, and keeps names apart.
pub proof fn lemma_interned_extends(names: Seq<Seq<char>>, name: Seq<char>)
    requires
        names.no_duplicates(),
    ensures
        interned(names, name).0.no_duplicates(),
        names.is_prefix_of(interned(names, name).0),
        interned(names, name).1 < interned(names, name).0.len(),
        interned(names, name).0[interned(names, name).1 as int] == name,
{
    if names.contains(name) {
        let k = names.index_of(name);
        assert(names[k] == name);
    }
}

/// Interning a run of names keeps every earlier name at its position.
pub proof fn lemma_interned_all_extends(names: Seq<Seq<char>>, more: Seq<Seq<char>>)
    requires
        names.no_duplicates(),
    ensures
        interned_all(names, more).no_duplicates(),
        names.is_prefix_of(interned_all(names, more)),
    decreases more.len(),
{
    if more.len() > 0 {
        lemma_interned_all_extends(names, more.drop_last());
        lemma_interned_extends(interned_all(names, more.drop_last()), more.last());
    }
}

/// Interning is idempotent: a name that is interned again, whatever was
/// interned in between, gets the flag it got the first time, and the
/// registry stays as it was.
pub proof fn lemma_intern_idempotent(
    names: Seq<Seq<char>>,
    name: Seq<char>,
    between: Seq<Seq<char>>,
)
    requires
        names.no_duplicates(),
    ensures
        ({
            let first = interned(names, name);
            let later = interned_all(first.0, between);
            let again = interned(later, name);
            again.1 == first.1 && again.0 == later
        }),
{
    let first = interned(names, name);
    let later = interned_all(first.0, between);
    lemma_interned_extends(names, name);
    lemma_interned_all_extends(first.0, between);
    assert(later[first.1 as int] == first.0[first.1 as int]);
    assert(later.contains(name));
    let k = later.index_of(name);
    assert(later[k] == name);
}

/// Two names get the same flag from one registry exactly when they are
/// equal, in whichever order they are interned.
pub proof fn lemma_intern_injective(names: Seq<Seq<char>>, a: Seq<char>, b: Seq<char>)
    requires
        names.no_duplicates(),
    ensures
        ({
            let first = interned(names, a);
            let second = interned(first.0, b);
            (first.1 == second.1) <==> (a == b)
        }),
        ({
            let a_then_b = interned(interned(names, a).0, b);
            let b_then_a = interned(interned(names, b).0, a);
            a == b ==> a_then_b.1 == b_then_a.1
        }),
{
    let first = interned(names, a);
    let second = interned(first.0, b);
    lemma_interned_extends(names, a);
    lemma_interned_extends(first.0, b);
    if a == b {
        lemma_intern_idempotent(names, a, Seq::empty());
    }
}

/// String arguments keyed by flag; a later value for a flag replaces the
/// earlier one.
#[derive(Debug, Clone)]
pub struct FlagMap {
    entries: Vec<(Flag, String)>,
}

/// The map that a log of insertions amounts to.
pub open spec fn map_of(log: Seq<(Flag, Seq<char>)>) -> Map<Flag, Seq<char>>
    decreases log.len(),
{
    if log.len() == 0 {
        Map::empty()
    } else {
        map_of(log.drop_last()).insert(log.last().0, log.last().1)
    }
}

impl FlagMap {
    /// The insertions made, oldest first.
    pub closed spec fn log(&self) -> Seq<(Flag, Seq<char>)> {
        self.entries@.map_values(|e: (Flag, String)| (e.0, e.1@))
    }

    /// The value held for each flag.
    pub open spec fn view(&self) -> Map<Flag, Seq<char>> {
        map_of(self.log())
    }

    /// The empty map.
    pub fn new() -> (map: FlagMap)
        ensures
            map@ == Map::<Flag, Seq<char>>::empty(),
    {
        let map = FlagMap { entries: Vec::new() };
        assert(map.log() =~= Seq::empty());
        map
    }

    /// Sets the value of `flag`.
    pub fn insert(&mut self, flag: Flag, value: String)
        ensures
            final(self)@ == old(self)@.insert(flag, value@),
    {
        self.entries.push((flag, value));
        assert(self.log().drop_last() =~= old(self).log());
    }

    /// The value of `flag`, if one was set.
    pub fn get(&self, flag: &Flag) -> (value: Option<&String>)
        ensures
            value is Some <==> self@.contains_key(*flag),
            value matches Some(v) ==> v@ == self@[*flag],
    {
        let mut i: usize = self.entries.len();
        assert(self.log().take(i as int) =~= self.log());
        while i > 0
            invariant
                i <= self.entries.len(),
                self@.contains_key(*flag) == map_of(self.log().take(i as int)).contains_key(*flag),
                self@.contains_key(*flag) ==> self@[*flag] == map_of(self.log().take(i as int))[*flag],
            decreases i,
        {
            i -= 1;
            proof {
                let upto = self.log().take(i + 1);
                assert(upto.drop_last() =~= self.log().take(i as int));
                assert(upto.last() == self.log()[i as int]);
            }
            if self.entries[i].0 == *flag {
                return Some(&self.entries[i].1);
            }
        }
        None
    }

    /// A copy that holds the same values.
    pub fn duplicate(&self) -> (copy: FlagMap)
        ensures
            copy@ == self@,
    {
        let mut copy = FlagMap { entries: Vec::new() };
        let mut i: usize = 0;
        while i < self.entries.len()
            invariant
                i <= self.entries.len(),
                copy.entries@.len() == i,
                copy.log() == self.log().take(i as int),
            decreases self.entries.len() - i,
        {
            let flag = self.entries[i].0;
            let value = self.entries[i].1.clone();
            let ghost before = copy.log();
            let ghost held = copy.entries@;
            copy.entries.push((flag, value));
            proof {
                assert forall|j: int| 0 <= j < i + 1 implies copy.log()[j] == self.log().take(
                    i + 1,
                )[j] by {
                    if j < i {
                        assert(copy.entries@[j] == held[j]);
                        assert(before[j] == self.log()[j]);
                    }
                }
                assert(copy.log() =~= self.log().take(i + 1));
            }
            i += 1;
        }
        assert(self.log().take(self.entries.len() as int) =~= self.log());
        copy
    }
}

} // verus!
