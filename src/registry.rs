//! An append-only table of variant factories keyed by a stable identifier.
//!
//! Registration order is the enumeration order; the first entry is the one a
//! selection list shows as its default. Identifiers are unique: registering a
//! variant whose identifier is already present is refused and leaves the
//! table unchanged (the first registration wins).

use vstd::prelude::*;

verus! {

/// A variant that carries a stable short identifier.
pub trait TypeIdentifier {
    /// The identifier, as a sequence of characters.
    spec fn ident(&self) -> Seq<char>;

    /// The identifier, as a string.
    fn short_type_name(&self) -> (r: &'static str)
        ensures
            r@ == self.ident(),
    ;
}

/// No two entries of `s` share an identifier.
pub open spec fn names_unique<K: TypeIdentifier>(s: Seq<K>) -> bool {
    forall|i: int, j: int|
        0 <= i < j < s.len() ==> #[trigger] s[i].ident() != #[trigger] s[j].ident()
}

/// Some entry of `s` has the identifier `name`.
pub open spec fn is_registered<K: TypeIdentifier>(s: Seq<K>, name: Seq<char>) -> bool {
    exists|i: int| 0 <= i < s.len() && #[trigger] s[i].ident() == name
}

/// The table that results from registering `k` into the table `s`.
pub open spec fn after_register<K: TypeIdentifier>(s: Seq<K>, k: K) -> Seq<K> {
    if is_registered(s, k.ident()) {
        s
    } else {
        s.push(k)
    }
}

/// Registering two variants with distinct identifiers, neither of which is
/// registered yet, appends both, in the order of registration, after the
/// entries already present; both are then found by their identifiers, and the
/// identifiers stay unique.
pub proof fn lemma_register_two_in_order<K: TypeIdentifier>(s: Seq<K>, a: K, b: K)
    requires
        names_unique(s),
        !is_registered(s, a.ident()),
        !is_registered(s, b.ident()),
        a.ident() != b.ident(),
    ensures
        after_register(after_register(s, a), b) == s.push(a).push(b),
        names_unique(s.push(a).push(b)),
        is_registered(s.push(a).push(b), a.ident()),
        is_registered(s.push(a).push(b), b.ident()),
{
    let t = s.push(a);
    assert(t[s.len() as int] == a);
    if is_registered(t, b.ident()) {
        let i = choose|i: int| 0 <= i < t.len() && #[trigger] t[i].ident() == b.ident();
        if i < s.len() {
            assert(s[i] == t[i]);
        }
    }
    let u = t.push(b);
    assert(u[s.len() as int] == a);
    assert(u[s.len() + 1int] == b);
    assert forall|i: int, j: int|
        0 <= i < j < u.len() implies #[trigger] u[i].ident() != #[trigger] u[j].ident() by {
        if j < s.len() {
            assert(u[i] == s[i] && u[j] == s[j]);
        } else if i < s.len() {
            assert(u[i] == s[i]);
        }
    }
}

/// Whether two identifiers are the same.
fn same_name(a: &str, b: &str) -> (r: bool)
    ensures
        r == (a@ == b@),
{
    a.to_owned() == b.to_owned()
}

/// Registered factories in registration order.
pub struct Registry<K> {
    factories: Vec<K>,
}

impl<K: TypeIdentifier + Copy> View for Registry<K> {
    type V = Seq<K>;

    closed spec fn view(&self) -> Seq<K> {
        self.factories@
    }
}

impl<K: TypeIdentifier + Copy> Registry<K> {
    /// Identifiers are unique.
    pub open spec fn wf(&self) -> bool {
        names_unique(self@)
    }

    /// An empty registry.
    pub fn new() -> (r: Self)
        ensures
            r.wf(),
            r@ == Seq::<K>::empty(),
    {
        Registry { factories: Vec::new() }
    }

    /// The position of the entry named `name`, if any.
    fn position(&self, name: &str) -> (r: Option<usize>)
        requires
            self.wf(),
        ensures
            r is None <==> !is_registered(self@, name@),
            r matches Some(i) ==> i < self@.len() && self@[i as int].ident() == name@,
    {
        let mut i: usize = 0;
        while i < self.factories.len()
            invariant
                i <= self.factories@.len(),
                self@ == self.factories@,
                forall|j: int| 0 <= j < i ==> #[trigger] self@[j].ident() != name@,
            decreases self.factories@.len() - i,
        {
            let candidate = self.factories[i].short_type_name();
            if same_name(candidate, name) {
                return Some(i);
            }
            i = i + 1;
        }
        None
    }

    /// Appends `factory` unless its identifier is already registered.
    /// Returns whether it was appended.
    pub fn register(&mut self, factory: K) -> (added: bool)
        requires
            old(self).wf(),
        ensures
            final(self).wf(),
            added == !is_registered(old(self)@, factory.ident()),
            final(self)@ == after_register(old(self)@, factory),
    {
        let name = factory.short_type_name();
        match self.position(name) {
            Some(_) => false,
            None => {
                self.factories.push(factory);
                proof {
                    let s = self@;
                    assert forall|i: int, j: int|
                        0 <= i < j < s.len() implies #[trigger] s[i].ident()
                        != #[trigger] s[j].ident() by {
                        if j == s.len() - 1 {
                            assert(s[i] == old(self)@[i]);
                        } else {
                            assert(s[i] == old(self)@[i]);
                            assert(s[j] == old(self)@[j]);
                        }
                    }
                    assert(s =~= old(self)@.push(factory));
                }
                true
            },
        }
    }

    /// All factories, in registration order.
    pub fn list_factories(&self) -> (r: Vec<K>)
        ensures
            r@ == self@,
    {
        let mut r: Vec<K> = Vec::new();
        let mut i: usize = 0;
        while i < self.factories.len()
            invariant
                i <= self.factories@.len(),
                r@ == self.factories@.subrange(0, i as int),
            decreases self.factories@.len() - i,
        {
            r.push(self.factories[i]);
            i = i + 1;
            assert(r@ =~= self.factories@.subrange(0, i as int));
        }
        assert(r@ =~= self.factories@);
        r
    }

    /// The factory registered under `name`, or `None` when no entry has
    /// that identifier.
    pub fn instantiate(&self, name: &str) -> (r: Option<K>)
        requires
            self.wf(),
        ensures
            r is None <==> !is_registered(self@, name@),
            r matches Some(k) ==> self@.contains(k) && k.ident() == name@,
    {
        match self.position(name) {
            Some(i) => Some(self.factories[i]),
            None => None,
        }
    }

    /// The factory at position `index` of the registration order, or `None`
    /// past the end.
    pub fn factory_at(&self, index: usize) -> (r: Option<K>)
        ensures
            r == (if index < self@.len() {
                Some(self@[index as int])
            } else {
                None::<K>
            }),
    {
        if index < self.factories.len() {
            Some(self.factories[index])
        } else {
            None
        }
    }

    /// The number of registered factories.
    pub fn len(&self) -> (r: usize)
        ensures
            r == self@.len(),
    {
        self.factories.len()
    }
}

} // verus!
