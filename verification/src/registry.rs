//! The type registry: a session-scoped interning store.
//!
//! Identities map to integer ids, assigned on first sight and stable for
//! the session. Descriptors live in an append-only arena indexed by id.
//! Registering one identity interns its shape's components first, so a
//! descriptor only ever references ids that exist; an identity that
//! reaches itself through its components terminates because the identity
//! is mapped before its components are walked.

use std::collections::HashMap;
use vstd::prelude::*;
use vstd::set_lib::lemma_len_subset;

use crate::encode::{all_in, build_descriptor, components_of, desc_of, lemma_desc_of_stable};
use crate::protocol::{clone_descriptor, DescV, TypeDescriptor, TypeId};
use crate::shape::{shape_components, OracleTable, TypeEntry, TypeIdent};

verus! {

/// What `register` reports: the identity's id, and whether this call was
/// the first sight of it.
pub struct RegistrationResult {
    pub type_id: TypeId,
    pub is_new: bool,
}

/// The interning store. One per session; never evicts.
pub struct TypeRegistry {
    type_to_id: HashMap<TypeIdent, TypeId>,
    descriptors: Vec<TypeDescriptor>,
    tracked_from: usize,
}

impl TypeRegistry {
    /// The identity-to-id map.
    pub closed spec fn ids(&self) -> Map<TypeIdent, TypeId> {
        self.type_to_id@
    }

    /// The descriptor arena: the descriptor of id `j` sits at index
    /// `j - 1`.
    pub closed spec fn descs(&self) -> Seq<DescV> {
        self.descriptors@.map_values(|d: TypeDescriptor| d@)
    }

    /// Ids above this watermark were assigned since tracking last began.
    pub closed spec fn mark(&self) -> int {
        self.tracked_from as int
    }

    /// Some identity owns arena slot `j`.
    pub open spec fn slot_owned(&self, j: int) -> bool {
        exists|t: TypeIdent| #[trigger] self.ids().contains_key(t) && self.ids()[t] == j
    }

    /// The registry's invariant, relative to an oracle table, with a set
    /// of identities whose descriptors are still being built: ids run
    /// from 1 to the arena length, one identity per id; every settled
    /// identity has all its components interned and its arena slot holds
    /// exactly the encoding of its shape.
    pub open spec fn inv_partial(
        &self,
        oracle: Map<TypeIdent, TypeEntry>,
        pending: Set<TypeIdent>,
    ) -> bool {
        &&& forall|t: TypeIdent| #[trigger]
            self.ids().contains_key(t) ==> 1 <= self.ids()[t] <= self.descs().len()
        &&& forall|t1: TypeIdent, t2: TypeIdent|
            self.ids().contains_key(t1) && self.ids().contains_key(t2) && #[trigger] self.ids()[t1]
                == #[trigger] self.ids()[t2] ==> t1 == t2
        &&& forall|j: int| 1 <= j <= self.descs().len() ==> #[trigger] self.slot_owned(j)
        &&& 0 <= self.mark() <= self.descs().len()
        &&& pending.subset_of(self.ids().dom())
        &&& forall|t: TypeIdent| #[trigger]
            self.ids().contains_key(t) && !pending.contains(t) ==> all_in(
                self.ids(),
                shape_components(oracle, t),
            ) && self.descs()[self.ids()[t] - 1] == desc_of(
                oracle,
                t,
                self.ids(),
                self.ids()[t],
            )
    }

    /// The registry's invariant with no construction in flight.
    pub open spec fn consistent(&self, oracle: Map<TypeIdent, TypeEntry>) -> bool {
        self.inv_partial(oracle, Set::empty())
    }
}

/// How one registry state may follow another: ids are never dropped or
/// reassigned, the arena only grows and existing slots never change, and
/// newly assigned ids lie beyond the old arena.
pub open spec fn registry_extends(pre: TypeRegistry, post: TypeRegistry) -> bool {
    &&& pre.ids().submap_of(post.ids())
    &&& pre.descs().len() <= post.descs().len()
    &&& forall|j: int| 0 <= j < pre.descs().len() ==> #[trigger] post.descs()[j] == pre.descs()[j]
    &&& forall|t: TypeIdent| #[trigger]
        post.ids().contains_key(t) && !pre.ids().contains_key(t) ==> post.ids()[t]
            > pre.descs().len()
}

/// A registry follows from itself.
pub proof fn lemma_extends_refl(r: TypeRegistry)
    ensures
        registry_extends(r, r),
{
    assert forall|k: TypeIdent| r.ids().dom().contains(k) implies r.ids().dom().contains(k)
        && r.ids()[k] == r.ids()[k] by {}
}

/// A submap maps a key it knows exactly as the larger map does.
pub proof fn lemma_submap_val(a: Map<TypeIdent, TypeId>, b: Map<TypeIdent, TypeId>, k: TypeIdent)
    requires
        a.submap_of(b),
        a.dom().contains(k),
    ensures
        b.dom().contains(k),
        a[k] == b[k],
{
    let c1 = a.dom().contains(k);
    let c2 = b.dom().contains(k);
    assert(a.dom().contains(k) ==> b.dom().contains(k) && a[k] == b[k]);
}

/// Following is transitive.
pub proof fn lemma_extends_trans(a: TypeRegistry, b: TypeRegistry, c: TypeRegistry)
    requires
        registry_extends(a, b),
        registry_extends(b, c),
    ensures
        registry_extends(a, c),
{
    vstd::map_lib::lemma_submap_of_trans(a.ids(), b.ids(), c.ids());
    assert forall|t: TypeIdent| #[trigger]
        c.ids().contains_key(t) && !a.ids().contains_key(t) implies c.ids()[t]
        > a.descs().len() by {
        if b.ids().contains_key(t) {
            lemma_submap_val(b.ids(), c.ids(), t);
        }
    }
}


/// `t` is a component of some interned identity's shape.
pub open spec fn component_of_some(
    reg: TypeRegistry,
    oracle: Map<TypeIdent, TypeEntry>,
    t: TypeIdent,
) -> bool {
    exists|s: TypeIdent| #[trigger]
        reg.ids().contains_key(s) && shape_components(oracle, s).contains(t)
}

/// Being some interned identity's component survives interning more.
pub proof fn lemma_component_of_some_monotone(
    a: TypeRegistry,
    b: TypeRegistry,
    oracle: Map<TypeIdent, TypeEntry>,
    t: TypeIdent,
)
    requires
        registry_extends(a, b),
        component_of_some(a, oracle, t),
    ensures
        component_of_some(b, oracle, t),
{
    let s = choose|s: TypeIdent| #[trigger]
        a.ids().contains_key(s) && shape_components(oracle, s).contains(t);
    lemma_submap_val(a.ids(), b.ids(), s);
    assert(b.ids().contains_key(s) && shape_components(oracle, s).contains(t));
}

/// Removing more leaves less: a set difference shrinks as the subtracted
/// set grows.
proof fn lemma_diff_antitone(s: Set<TypeIdent>, a: Set<TypeIdent>, b: Set<TypeIdent>)
    requires
        s.finite(),
        a.subset_of(b),
    ensures
        s.difference(b).len() <= s.difference(a).len(),
        s.difference(b).finite(),
{
    assert(s.difference(b).subset_of(s.difference(a)));
    assert(s.difference(a).subset_of(s));
    lemma_len_subset(s.difference(a), s);
    lemma_len_subset(s.difference(b), s.difference(a));
}

/// A submap's domain is contained in the other map's domain.
proof fn lemma_submap_dom(a: Map<TypeIdent, TypeId>, b: Map<TypeIdent, TypeId>)
    requires
        a.submap_of(b),
    ensures
        a.dom().subset_of(b.dom()),
{
    assert forall|k: TypeIdent| a.dom().contains(k) implies b.dom().contains(k) by {
        lemma_submap_val(a, b, k);
    }
}

impl TypeRegistry {
    /// An empty registry. Ids start at 1; 0 stays reserved for "no type".
    pub fn new() -> (r: Self)
        ensures
            r.ids() == Map::<TypeIdent, TypeId>::empty(),
            r.descs() == Seq::<DescV>::empty(),
            r.mark() == 0,
            forall|oracle: Map<TypeIdent, TypeEntry>| #[trigger] r.consistent(oracle),
    {
        let r = TypeRegistry {
            type_to_id: HashMap::new(),
            descriptors: Vec::new(),
            tracked_from: 0,
        };
        proof {
            assert(r.descs() =~= Seq::<DescV>::empty());
            assert forall|oracle: Map<TypeIdent, TypeEntry>| #[trigger]
                r.consistent(oracle) by {
                assert(Set::<TypeIdent>::empty().subset_of(r.ids().dom()));
            }
        }
        r
    }

    /// Interns one identity and, transitively, its shape's components.
    /// Returns the identity's id, the same on every later sight of the
    /// same identity, together with whether it was new. On a repeated
    /// sight the registry is left exactly as it was.
    pub fn register(&mut self, oracle: &OracleTable, ident: TypeIdent) -> (r: RegistrationResult)
        requires
            old(self).consistent(oracle@),
        ensures
            final(self).consistent(oracle@),
            registry_extends(*old(self), *final(self)),
            final(self).mark() == old(self).mark(),
            final(self).ids().contains_key(ident),
            r.type_id == final(self).ids()[ident],
            r.is_new == !old(self).ids().contains_key(ident),
            !r.is_new ==> *final(self) == *old(self),
            r.is_new ==> r.type_id == old(self).descs().len() + 1,
            forall|t: TypeIdent| #[trigger]
                final(self).ids().contains_key(t) && !old(self).ids().contains_key(t) ==> t
                    == ident || component_of_some(*final(self), oracle@, t),
    {
        let existed = self.type_to_id.contains_key(&ident);
        let id = self.register_inner(oracle, ident, Ghost(Set::empty()));
        RegistrationResult { type_id: id, is_new: !existed }
    }

    /// Interns a type that is a component of another type (a union
    /// member, a parameter type), returning just its id.
    pub fn register_component(&mut self, oracle: &OracleTable, ident: TypeIdent) -> (id: TypeId)
        requires
            old(self).consistent(oracle@),
        ensures
            final(self).consistent(oracle@),
            registry_extends(*old(self), *final(self)),
            final(self).mark() == old(self).mark(),
            final(self).ids().contains_key(ident),
            id == final(self).ids()[ident],
            old(self).ids().contains_key(ident) ==> *final(self) == *old(self),
            forall|t: TypeIdent| #[trigger]
                final(self).ids().contains_key(t) && !old(self).ids().contains_key(t) ==> t
                    == ident || component_of_some(*final(self), oracle@, t),
    {
        let r = self.register(oracle, ident);
        r.type_id
    }

    /// The recursive interning step. `pending` holds the identities whose
    /// arena slots are still placeholders: their owners' frames sit below
    /// this one on the call stack.
    fn register_inner(
        &mut self,
        oracle: &OracleTable,
        ident: TypeIdent,
        pending: Ghost<Set<TypeIdent>>,
    ) -> (id: TypeId)
        requires
            old(self).inv_partial(oracle@, pending@),
        ensures
            final(self).inv_partial(oracle@, pending@),
            registry_extends(*old(self), *final(self)),
            final(self).mark() == old(self).mark(),
            final(self).ids().contains_key(ident),
            id == final(self).ids()[ident],
            old(self).ids().contains_key(ident) ==> *final(self) == *old(self),
            !old(self).ids().contains_key(ident) ==> id == old(self).descs().len() + 1,
            forall|t: TypeIdent| #[trigger]
                final(self).ids().contains_key(t) && !old(self).ids().contains_key(t) ==> t
                    == ident || component_of_some(*final(self), oracle@, t),
        decreases oracle@.dom().difference(self.ids().dom()).len(),
    {
        match self.type_to_id.get(&ident) {
            Some(found) => {
                let id = *found;
                proof {
                    lemma_extends_refl(*self);
                }
                return id;
            },
            None => {},
        }

        // Reserve the id and publish it before walking components, so a
        // shape that reaches itself finds the id already assigned.
        self.descriptors.push(TypeDescriptor::Other { display: None });
        let id = self.descriptors.len();
        self.type_to_id.insert(ident, id);
        let ghost st1 = *self;
        let ghost pend1 = pending@.insert(ident);

        proof {
            assert(st1.ids() == old(self).ids().insert(ident, id));
            assert(st1.descs() =~= old(self).descs().push(
                (TypeDescriptor::Other { display: None })@,
            ));
            lemma_registry_after_reserve(*old(self), st1, oracle@, pending@, ident, id);
        }

        let comps = components_of(oracle, ident);
        proof {
            crate::shape::lemma_table_dom_finite(oracle);
            if comps@.len() > 0 {
                // A nonempty component list means the oracle knows this
                // identity, so reserving it shrank the measure.
                assert(oracle@.contains_key(ident));
                assert(!old(self).ids().contains_key(ident));
                oracle@.dom().lemma_set_insert_diff_decreases(old(self).ids().dom(), ident);
                assert(old(self).ids().dom().insert(ident) == st1.ids().dom()) by {
                    assert(old(self).ids().dom().insert(ident) =~= st1.ids().dom());
                }
            }
        }
        let mut k: usize = 0;
        while k < comps.len()
            invariant
                k <= comps.len(),
                comps@ == shape_components(oracle@, ident),
                oracle@.dom().finite(),
                self.inv_partial(oracle@, pend1),
                pend1 == pending@.insert(ident),
                registry_extends(st1, *self),
                registry_extends(*old(self), *self),
                self.ids().contains_key(ident),
                self.ids()[ident] == id,
                id == st1.descs().len(),
                st1.descs().len() == old(self).descs().len() + 1,
                self.mark() == old(self).mark(),
                forall|j: int| 0 <= j < k ==> self.ids().contains_key(#[trigger] comps@[j]),
                forall|t: TypeIdent| #[trigger]
                    self.ids().contains_key(t) && !old(self).ids().contains_key(t) ==> t == ident
                        || component_of_some(*self, oracle@, t),
                comps@.len() > 0 ==> oracle@.dom().difference(self.ids().dom()).len() < oracle@.dom(
                ).difference(old(self).ids().dom()).len(),
            decreases comps.len() - k,
        {
            let ghost prev = *self;
            let c = comps[k];
            self.register_inner(oracle, c, Ghost(pend1));
            proof {
                lemma_extends_trans(st1, prev, *self);
                lemma_extends_trans(*old(self), prev, *self);
                lemma_submap_val(prev.ids(), self.ids(), ident);
                assert forall|j: int| 0 <= j < k + 1 implies self.ids().contains_key(
                    #[trigger] comps@[j],
                ) by {
                    if j < k {
                        assert(prev.ids().contains_key(comps@[j]));
                        lemma_submap_val(prev.ids(), self.ids(), comps@[j]);
                    }
                }
                lemma_submap_dom(prev.ids(), self.ids());
                lemma_diff_antitone(oracle@.dom(), prev.ids().dom(), self.ids().dom());
                assert forall|t: TypeIdent| #[trigger]
                    self.ids().contains_key(t) && !old(self).ids().contains_key(t) implies t
                    == ident || component_of_some(*self, oracle@, t) by {
                    if t != ident {
                        if prev.ids().contains_key(t) {
                            if !component_of_some(prev, oracle@, t) {
                                assert(t == ident);
                            } else {
                                lemma_component_of_some_monotone(prev, *self, oracle@, t);
                            }
                        } else {
                            // Newly interned by the recursive call: either the
                            // component itself, or rooted deeper down.
                            if t == c {
                                assert(comps@[k as int] == c);
                                assert(shape_components(oracle@, ident).contains(c));
                                assert(self.ids().contains_key(ident)
                                    && shape_components(oracle@, ident).contains(t));
                            }
                        }
                    }
                }
            }
            k = k + 1;
        }

        proof {
            assert(all_in(self.ids(), shape_components(oracle@, ident)));
        }
        let desc = build_descriptor(oracle, &self.type_to_id, ident, id);
        let ghost st2 = *self;
        let ghost dv = desc@;
        self.descriptors[id - 1] = desc;
        proof {
            assert(self.descs() =~= st2.descs().update(id - 1, dv));
            lemma_registry_after_settle(st2, *self, oracle@, pending@, ident, id, dv);
            assert forall|t: TypeIdent| #[trigger]
                self.ids().contains_key(t) && !old(self).ids().contains_key(t) implies t == ident
                || component_of_some(*self, oracle@, t) by {
                if t != ident {
                    assert(st2.ids().contains_key(t));
                    if component_of_some(st2, oracle@, t) {
                        let s = choose|s: TypeIdent| #[trigger]
                            st2.ids().contains_key(s) && shape_components(oracle@, s).contains(t);
                        assert(self.ids().contains_key(s) && shape_components(
                            oracle@,
                            s,
                        ).contains(t));
                    }
                }
            }
            assert(registry_extends(*old(self), *self)) by {
                assert(self.ids() == st2.ids());
                assert forall|j: int| 0 <= j < old(self).descs().len() implies #[trigger] self.descs(
                )[j] == old(self).descs()[j] by {
                    assert(j != id - 1);
                    assert(st2.descs()[j] == old(self).descs()[j]);
                }
                assert forall|t: TypeIdent| #[trigger]
                    self.ids().contains_key(t) && !old(self).ids().contains_key(t) implies self.ids(
                )[t] > old(self).descs().len() by {
                    assert(st2.ids().contains_key(t));
                }
            }
        }
        id
    }
}


/// The invariant does not depend on the tracking watermark: two states
/// with the same ids and arena are equally consistent, wherever the
/// watermark sits within the arena.
pub proof fn lemma_consistent_same_core(
    a: TypeRegistry,
    b: TypeRegistry,
    oracle: Map<TypeIdent, TypeEntry>,
)
    requires
        a.consistent(oracle),
        b.ids() == a.ids(),
        b.descs() == a.descs(),
        0 <= b.mark() <= b.descs().len(),
    ensures
        b.consistent(oracle),
{
    assert forall|j: int| 1 <= j <= b.descs().len() implies #[trigger] b.slot_owned(j) by {
        assert(a.slot_owned(j));
        let t = choose|t: TypeIdent| #[trigger] a.ids().contains_key(t) && a.ids()[t] == j;
        assert(b.ids().contains_key(t) && b.ids()[t] == j);
    }
    assert(Set::<TypeIdent>::empty().subset_of(b.ids().dom()));
}


/// The registry stays consistent when the oracle learns an identity the
/// registry has never interned: every identity a settled descriptor
/// consulted was either in the table already or is interned, so nothing
/// already encoded depended on the newcomer's absence.
pub proof fn lemma_consistent_oracle_insert(
    reg: TypeRegistry,
    oracle: Map<TypeIdent, TypeEntry>,
    nk: TypeIdent,
    e: TypeEntry,
)
    requires
        reg.consistent(oracle),
        !oracle.contains_key(nk),
        !reg.ids().contains_key(nk),
    ensures
        reg.consistent(oracle.insert(nk, e)),
{
    let o2 = oracle.insert(nk, e);
    assert forall|t: TypeIdent| #[trigger]
        reg.ids().contains_key(t) && !Set::<TypeIdent>::empty().contains(t) implies all_in(
        reg.ids(),
        shape_components(o2, t),
    ) && reg.descs()[reg.ids()[t] - 1] == desc_of(o2, t, reg.ids(), reg.ids()[t]) by {
        assert(t != nk);
        crate::encode::lemma_shape_components_oracle_insert(oracle, nk, e, t, reg.ids());
        crate::encode::lemma_desc_of_oracle_insert(
            oracle,
            nk,
            e,
            t,
            reg.ids(),
            reg.ids()[t],
        );
    }
    assert(Set::<TypeIdent>::empty().subset_of(reg.ids().dom()));
}

/// Reserving a fresh id for `ident` (placeholder slot appended, identity
/// mapped) preserves the invariant with `ident` joining the pending set,
/// and the new state follows the old one.
proof fn lemma_registry_after_reserve(
    pre: TypeRegistry,
    post: TypeRegistry,
    oracle: Map<TypeIdent, TypeEntry>,
    pending: Set<TypeIdent>,
    ident: TypeIdent,
    id: TypeId,
)
    requires
        pre.inv_partial(oracle, pending),
        !pre.ids().contains_key(ident),
        id == pre.descs().len() + 1,
        post.ids() == pre.ids().insert(ident, id),
        post.descs().len() == pre.descs().len() + 1,
        forall|j: int| 0 <= j < pre.descs().len() ==> #[trigger] post.descs()[j] == pre.descs()[j],
        post.mark() == pre.mark(),
    ensures
        post.inv_partial(oracle, pending.insert(ident)),
        registry_extends(pre, post),
        post.ids().contains_key(ident),
        post.ids()[ident] == id,
{
    assert(pre.ids().submap_of(post.ids())) by {
        assert forall|k: TypeIdent| pre.ids().dom().contains(k) implies post.ids().dom().contains(
            k,
        ) && pre.ids()[k] == post.ids()[k] by {
            assert(pre.ids().contains_key(k));
            assert(k != ident);
        }
    }
    assert(registry_extends(pre, post)) by {
        assert forall|t: TypeIdent| #[trigger]
            post.ids().contains_key(t) && !pre.ids().contains_key(t) implies post.ids()[t]
            > pre.descs().len() by {
            assert(t == ident);
        }
    }
    // Range, injectivity and slot ownership.
    assert forall|t: TypeIdent| #[trigger] post.ids().contains_key(t) implies 1 <= post.ids()[t]
        <= post.descs().len() by {
        if t != ident {
            assert(pre.ids().contains_key(t));
        }
    }
    assert forall|t1: TypeIdent, t2: TypeIdent|
        post.ids().contains_key(t1) && post.ids().contains_key(t2) && #[trigger] post.ids()[t1]
            == #[trigger] post.ids()[t2] implies t1 == t2 by {
        if t1 != ident && t2 != ident {
            assert(pre.ids().contains_key(t1));
            assert(pre.ids().contains_key(t2));
        } else if t1 == ident && t2 != ident {
            assert(pre.ids().contains_key(t2));
            assert(pre.ids()[t2] <= pre.descs().len());
        } else if t1 != ident && t2 == ident {
            assert(pre.ids().contains_key(t1));
            assert(pre.ids()[t1] <= pre.descs().len());
        }
    }
    assert forall|j: int| 1 <= j <= post.descs().len() implies #[trigger] post.slot_owned(j) by {
        if j == id {
            assert(post.ids().contains_key(ident) && post.ids()[ident] == j);
        } else {
            assert(pre.slot_owned(j));
            let t = choose|t: TypeIdent| #[trigger] pre.ids().contains_key(t) && pre.ids()[t]
                == j;
            assert(post.ids().contains_key(t) && post.ids()[t] == j);
        }
    }
    assert(pending.insert(ident).subset_of(post.ids().dom())) by {
        assert forall|t: TypeIdent| pending.insert(ident).contains(t) implies post.ids(
        ).dom().contains(t) by {
            if t != ident {
                assert(pre.ids().dom().contains(t));
            }
        }
    }
    // Settled identities stay settled: their components stay interned and
    // their slots still hold the encoding, which a larger map leaves
    // unchanged.
    assert forall|t: TypeIdent| #[trigger]
        post.ids().contains_key(t) && !pending.insert(ident).contains(t) implies all_in(
        post.ids(),
        shape_components(oracle, t),
    ) && post.descs()[post.ids()[t] - 1] == desc_of(oracle, t, post.ids(), post.ids()[t]) by {
        assert(t != ident);
        assert(pre.ids().contains_key(t));
        let comps = shape_components(oracle, t);
        assert(all_in(pre.ids(), comps));
        assert forall|j: int| 0 <= j < comps.len() implies post.ids().contains_key(
            #[trigger] comps[j],
        ) by {
            assert(pre.ids().contains_key(comps[j]));
            assert(pre.ids().dom().contains(comps[j]));
        }
        lemma_desc_of_stable(oracle, t, pre.ids(), post.ids(), pre.ids()[t]);
        assert(post.ids()[t] == pre.ids()[t]);
        assert(post.descs()[pre.ids()[t] - 1] == pre.descs()[pre.ids()[t] - 1]);
    }
}

/// Writing the finished descriptor into the reserved slot settles `ident`:
/// the invariant now holds with `ident` out of the pending set.
proof fn lemma_registry_after_settle(
    pre: TypeRegistry,
    post: TypeRegistry,
    oracle: Map<TypeIdent, TypeEntry>,
    pending: Set<TypeIdent>,
    ident: TypeIdent,
    id: TypeId,
    desc: DescV,
)
    requires
        pre.inv_partial(oracle, pending.insert(ident)),
        pre.ids().contains_key(ident),
        pre.ids()[ident] == id,
        1 <= id <= pre.descs().len(),
        all_in(pre.ids(), shape_components(oracle, ident)),
        desc == desc_of(oracle, ident, pre.ids(), id),
        post.ids() == pre.ids(),
        post.descs() == pre.descs().update(id - 1, desc),
        post.mark() == pre.mark(),
    ensures
        post.inv_partial(oracle, pending),
{
    assert(post.descs().len() == pre.descs().len());
    assert(pre.ids().submap_of(post.ids())) by {
        assert forall|k: TypeIdent| pre.ids().dom().contains(k) implies post.ids(
        ).dom().contains(k) && pre.ids()[k] == post.ids()[k] by {}
    }
    assert forall|j: int| 1 <= j <= post.descs().len() implies #[trigger] post.slot_owned(j) by {
        assert(pre.slot_owned(j));
        let t = choose|t: TypeIdent| #[trigger] pre.ids().contains_key(t) && pre.ids()[t] == j;
        assert(post.ids().contains_key(t) && post.ids()[t] == j);
    }
    assert(pending.subset_of(post.ids().dom())) by {
        assert forall|t: TypeIdent| pending.contains(t) implies post.ids().dom().contains(t) by {
            assert(pending.insert(ident).contains(t));
        }
    }
    assert forall|t: TypeIdent| #[trigger]
        post.ids().contains_key(t) && !pending.contains(t) implies all_in(
        post.ids(),
        shape_components(oracle, t),
    ) && post.descs()[post.ids()[t] - 1] == desc_of(oracle, t, post.ids(), post.ids()[t]) by {
        if t == ident {
            assert(post.descs()[id - 1] == desc);
        } else {
            assert(pre.ids().contains_key(t));
            assert(!pending.insert(ident).contains(t));
            assert(pre.ids()[t] != id);
            assert(post.descs()[pre.ids()[t] - 1] == pre.descs()[pre.ids()[t] - 1]);
        }
    }
}


impl TypeRegistry {
    /// The descriptor interned under an id, if the id has been assigned.
    pub fn get_descriptor(&self, id: TypeId) -> (r: Option<&TypeDescriptor>)
        ensures
            match r {
                Some(d) => 1 <= id <= self.descs().len() && d@ == self.descs()[id - 1],
                None => !(1 <= id <= self.descs().len()),
            },
    {
        if 1 <= id && id <= self.descriptors.len() {
            Some(&self.descriptors[id - 1])
        } else {
            None
        }
    }

    /// Every descriptor interned so far, as `(id, descriptor)` pairs in
    /// id order.
    pub fn all_descriptors(&self) -> (r: Vec<(TypeId, TypeDescriptor)>)
        ensures
            r@.len() == self.descs().len(),
            forall|j: int|
                0 <= j < r@.len() ==> (#[trigger] r@[j]).0 == j + 1 && r@[j].1@ == self.descs()[j],
    {
        let mut r: Vec<(TypeId, TypeDescriptor)> = Vec::new();
        let mut i: usize = 0;
        while i < self.descriptors.len()
            invariant
                i <= self.descriptors@.len(),
                r@.len() == i,
                forall|j: int|
                    0 <= j < i ==> (#[trigger] r@[j]).0 == j + 1 && r@[j].1@ == self.descs()[j],
            decreases self.descriptors@.len() - i,
        {
            r.push((i + 1, clone_descriptor(&self.descriptors[i])));
            i = i + 1;
        }
        r
    }

    /// Begins tracking newly assigned ids, including ids assigned
    /// transitively for component types.
    pub fn start_tracking(&mut self)
        ensures
            final(self).ids() == old(self).ids(),
            final(self).descs() == old(self).descs(),
            final(self).mark() == old(self).descs().len(),
    {
        self.tracked_from = self.descriptors.len();
    }

    /// Hands out the descriptors of every id assigned since tracking
    /// began, in id order, and resets the tracking watermark.
    pub fn drain_new_types(&mut self) -> (r: Vec<(TypeId, TypeDescriptor)>)
        requires
            0 <= old(self).mark() <= old(self).descs().len(),
        ensures
            final(self).ids() == old(self).ids(),
            final(self).descs() == old(self).descs(),
            final(self).mark() == old(self).descs().len(),
            r@.len() == old(self).descs().len() - old(self).mark(),
            forall|j: int|
                0 <= j < r@.len() ==> (#[trigger] r@[j]).0 == old(self).mark() + 1 + j
                    && r@[j].1@ == old(self).descs()[old(self).mark() + j],
    {
        let mut r: Vec<(TypeId, TypeDescriptor)> = Vec::new();
        let mut i: usize = self.tracked_from;
        while i < self.descriptors.len()
            invariant
                self.tracked_from <= i <= self.descriptors@.len(),
                self.tracked_from == old(self).mark(),
                *self == *old(self),
                r@.len() == i - self.tracked_from,
                forall|j: int|
                    0 <= j < r@.len() ==> (#[trigger] r@[j]).0 == self.mark() + 1 + j
                        && r@[j].1@ == self.descs()[self.mark() + j],
            decreases self.descriptors@.len() - i,
        {
            r.push((i + 1, clone_descriptor(&self.descriptors[i])));
            i = i + 1;
        }
        self.tracked_from = self.descriptors.len();
        r
    }

    /// The id an identity is interned under, if it has been seen.
    pub fn lookup(&self, ident: TypeIdent) -> (r: Option<TypeId>)
        ensures
            match r {
                Some(id) => self.ids().contains_key(ident) && id == self.ids()[ident],
                None => !self.ids().contains_key(ident),
            },
    {
        match self.type_to_id.get(&ident) {
            Some(id) => Some(*id),
            None => None,
        }
    }
}

} // verus!
