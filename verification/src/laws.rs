//! The library's cross-cutting guarantees, stated and proved once.

use vstd::prelude::*;

use crate::collector::{att_of, visit_atts, visit_atts_list, AstNode, NodeKind};
use crate::protocol::{AttV, TypeId};
use crate::registry::{lemma_submap_val, registry_extends, TypeRegistry};
use crate::shape::TypeIdent;

verus! {

/// Deduplication: two types with equal oracle identity always intern to
/// the same id, whatever file or request brought them. `register`'s
/// contract already pins one call — a repeated sight returns the stored
/// id and leaves the registry untouched — and every mutating operation
/// ensures `registry_extends`; this law closes the loop: across any such
/// chain of operations, an identity's id never changes once assigned.
pub proof fn law_dedup(pre: TypeRegistry, post: TypeRegistry, t: TypeIdent)
    requires
        registry_extends(pre, post),
        pre.ids().contains_key(t),
    ensures
        post.ids().contains_key(t),
        post.ids()[t] == pre.ids()[t],
{
    lemma_submap_val(pre.ids(), post.ids(), t);
}

/// Monotonic disclosure: within one session, `getTypes` responses never
/// overlap and never contradict. A request discloses exactly the ids in
/// `(r_before.len, r_after.len]`; across two successive requests those
/// ranges are disjoint, so no id is sent twice; and a slot, once filled,
/// never changes, so a later full dump (`getTypeRegistry`) repeats each
/// disclosed id with the very same descriptor.
pub proof fn law_monotonic_disclosure(
    r0: TypeRegistry,
    r1: TypeRegistry,
    r2: TypeRegistry,
    id: TypeId,
)
    requires
        registry_extends(r0, r1),
        registry_extends(r1, r2),
    ensures
        !(r0.descs().len() < id <= r1.descs().len() && r1.descs().len() < id
            <= r2.descs().len()),
        r0.descs().len() < id <= r1.descs().len() ==> r2.descs()[id - 1] == r1.descs()[id - 1],
{
}

/// Target unwrapping: a list or tuple binding target is never attributed
/// as one aggregate. Walked as a target it contributes exactly its
/// elements' walks, while the same node walked as an ordinary expression
/// contributes its own record first.
pub proof fn law_target_unwrapping(
    nodes: Seq<AstNode>,
    ids: Map<TypeIdent, TypeId>,
    i: int,
)
    requires
        0 <= i < nodes.len(),
        nodes[i].kind == NodeKind::ExprTuple || nodes[i].kind == NodeKind::ExprList,
    ensures
        visit_atts(nodes, ids, i, true) == visit_atts_list(
            nodes,
            ids,
            nodes[i].children@,
            i,
            true,
        ),
        visit_atts(nodes, ids, i, false) == seq![att_of(nodes[i], ids)] + visit_atts_list(
            nodes,
            ids,
            nodes[i].children@,
            i,
            false,
        ),
{
}

/// An attribution list discloses one record per walked element: the
/// aggregate's element count bounds nothing else in — concatenating the
/// element walks is all the target walk does.
pub proof fn law_target_unwrapping_elements(
    nodes: Seq<AstNode>,
    ids: Map<TypeIdent, TypeId>,
    refs: Seq<usize>,
    hi: int,
)
    requires
        refs.len() > 0,
    ensures
        visit_atts_list(nodes, ids, refs, hi, true) == visit_atts_list(
            nodes,
            ids,
            refs.drop_last(),
            hi,
            true,
        ) + (if (refs.last() as int) < hi {
            visit_atts(nodes, ids, refs.last() as int, true)
        } else {
            Seq::<AttV>::empty()
        }),
{
}

} // verus!
