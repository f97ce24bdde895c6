//! The structural encoder: turns one oracle entry into a wire descriptor,
//! mapping component identities to their interned type ids.
//!
//! `desc_of` is the specification; `build_descriptor` is the verified
//! runtime counterpart. The encoding consults the id map only at the
//! shape's component identities, so a descriptor, once built, stays
//! correct while the registry grows (`lemma_desc_of_stable`).

use std::collections::HashMap;
use vstd::prelude::*;

use crate::protocol::{
    ClassMemberInfo, DescV, FieldV, MemberV, ParamV, ParameterInfo, TypeDescriptor, TypeId,
};
use crate::shape::{
    function_like_components, is_dynamic, opt_ident_seq, params_components, shape_components,
    sig_components, check_dynamic, FnParamShape, OracleTable, SigShape, TypeEntry, TypeIdent,
    TypeShape,
};

verus! {

/// The id an optional component maps to.
pub open spec fn opt_id_of(ids: Map<TypeIdent, TypeId>, o: Option<TypeIdent>) -> Option<TypeId> {
    match o {
        Some(c) => Some(ids[c]),
        None => None,
    }
}

/// A component list mapped to ids.
pub open spec fn ids_of(ids: Map<TypeIdent, TypeId>, s: Seq<TypeIdent>) -> Seq<TypeId> {
    s.map_values(|c: TypeIdent| ids[c])
}

/// The parameter records of a function-literal signature: the declared
/// type is left out when fully dynamic, and no default type id is given
/// (only call signatures carry those).
pub open spec fn fn_params_view(
    oracle: Map<TypeIdent, TypeEntry>,
    ids: Map<TypeIdent, TypeId>,
    params: Seq<FnParamShape>,
) -> Seq<ParamV> {
    params.map_values(
        |p: FnParamShape| ParamV {
            name: p.name@,
            type_id: if is_dynamic(oracle, p.annotated) {
                None
            } else {
                Some(ids[p.annotated])
            },
            kind: p.kind,
            has_default: p.has_default,
            default_type_id: None,
        },
    )
}

/// The parameter records of a callable's first overload; empty with no
/// return type when the callable has no overloads at all.
pub open spec fn callable_params_view(
    oracle: Map<TypeIdent, TypeEntry>,
    ids: Map<TypeIdent, TypeId>,
    overloads: Seq<SigShape>,
) -> Seq<ParamV> {
    if overloads.len() == 0 {
        Seq::empty()
    } else {
        fn_params_view(oracle, ids, overloads[0].params@)
    }
}

/// The return type id of a callable's first overload, left out when
/// fully dynamic or when there is no overload.
pub open spec fn callable_return_view(
    oracle: Map<TypeIdent, TypeEntry>,
    ids: Map<TypeIdent, TypeId>,
    overloads: Seq<SigShape>,
) -> Option<TypeId> {
    if overloads.len() == 0 {
        None
    } else if is_dynamic(oracle, overloads[0].return_ty) {
        None
    } else {
        Some(ids[overloads[0].return_ty])
    }
}

/// View of an optional string shape field.
pub open spec fn opt_name_view(o: Option<String>) -> Option<Seq<char>> {
    match o {
        Some(s) => Some(s@),
        None => None,
    }
}

/// The descriptor encoded for `ident`, given the id map in force when its
/// construction finished. `self_id` is the id assigned to `ident` itself;
/// a subclass-of shape without a concrete base refers back to it.
pub open spec fn desc_of(
    oracle: Map<TypeIdent, TypeEntry>,
    ident: TypeIdent,
    ids: Map<TypeIdent, TypeId>,
    self_id: TypeId,
) -> DescV {
    if !oracle.contains_key(ident) {
        DescV::Other { display: None }
    } else {
        let entry = oracle[ident];
        let display = Some(entry.display@);
        match entry.shape {
            TypeShape::Dynamic { dynamic_kind } => DescV::Dynamic {
                display,
                dynamic_kind: dynamic_kind@,
            },
            TypeShape::Never => DescV::Never { display: Some("Never"@) },
            TypeShape::IntLiteral { value } => DescV::IntLiteral { display, value },
            TypeShape::BoolLiteral { value } => DescV::BoolLiteral { display, value },
            TypeShape::StringLiteral { value } => DescV::StringLiteral { display, value: value@ },
            TypeShape::BytesLiteral { value } => DescV::BytesLiteral { display, value: value@ },
            TypeShape::LiteralString => DescV::LiteralString { display },
            TypeShape::EnumLiteral { class_name, member_name } => DescV::EnumLiteral {
                display,
                class_name: class_name@,
                member_name: member_name@,
            },
            TypeShape::Truthy => DescV::Truthy { display: Some("AlwaysTruthy"@) },
            TypeShape::Falsy => DescV::Falsy { display: Some("AlwaysFalsy"@) },
            TypeShape::Union { members } => DescV::Union {
                display,
                members: ids_of(ids, members@),
            },
            TypeShape::Intersection { positive, negative } => DescV::Intersection {
                display,
                positive: ids_of(ids, positive@),
                negative: ids_of(ids, negative@),
            },
            TypeShape::Instance { class_name, module_name, type_args, supertypes, class_ident } => DescV::Instance {
                display,
                class_name: class_name@,
                module_name: opt_name_view(module_name),
                supertypes: ids_of(ids, supertypes@),
                type_args: ids_of(ids, type_args@),
                class_id: opt_id_of(ids, class_ident),
            },
            TypeShape::ClassLiteral { class_name, module_name, type_params, supertypes, members } => DescV::ClassLiteral {
                display,
                class_name: class_name@,
                module_name: opt_name_view(module_name),
                type_parameters: ids_of(ids, type_params@),
                supertypes: ids_of(ids, supertypes@),
                members: members@.map_values(
                    |m: crate::shape::MemberShape| MemberV { name: m.name@, type_id: ids[m.ty] },
                ),
            },
            TypeShape::SubclassOf { class_ident } => DescV::SubclassOf {
                display,
                base: match class_ident {
                    Some(c) => ids[c],
                    None => self_id,
                },
            },
            TypeShape::Function { name, module_name, type_params, overloads } => DescV::Function {
                display,
                name: name@,
                module_name: opt_name_view(module_name),
                type_parameters: ids_of(ids, type_params@),
                parameters: callable_params_view(oracle, ids, overloads@),
                return_type: callable_return_view(oracle, ids, overloads@),
            },
            TypeShape::Callable => DescV::Callable { display },
            TypeShape::BoundMethod { function } => match function {
                Some(f) => if oracle.contains_key(f) {
                    match oracle[f].shape {
                        TypeShape::Function { name, module_name, type_params, overloads } => DescV::BoundMethod {
                            display,
                            name: Some(name@),
                            module_name: opt_name_view(module_name),
                            type_parameters: ids_of(ids, type_params@),
                            parameters: callable_params_view(oracle, ids, overloads@),
                            return_type: callable_return_view(oracle, ids, overloads@),
                        },
                        _ => DescV::BoundMethod {
                            display,
                            name: None,
                            module_name: None,
                            type_parameters: Seq::empty(),
                            parameters: Seq::empty(),
                            return_type: None,
                        },
                    }
                } else {
                    DescV::BoundMethod {
                        display,
                        name: None,
                        module_name: None,
                        type_parameters: Seq::empty(),
                        parameters: Seq::empty(),
                        return_type: None,
                    }
                },
                None => DescV::BoundMethod {
                    display,
                    name: None,
                    module_name: None,
                    type_parameters: Seq::empty(),
                    parameters: Seq::empty(),
                    return_type: None,
                },
            },
            TypeShape::Module { module_name } => DescV::Module {
                display,
                module_name: module_name@,
            },
            TypeShape::TypeVar { name, variance, bound, constraints } => DescV::TypeVar {
                display,
                name: name@,
                variance: variance@,
                upper_bound: opt_id_of(ids, bound),
                constraints: match constraints {
                    Some(c) => Some(ids_of(ids, c@)),
                    None => None,
                },
            },
            TypeShape::TypeAlias { name } => DescV::TypeAlias { display, name: name@ },
            TypeShape::TypedDict { name, fields } => DescV::TypedDict {
                display,
                name: name@,
                fields: fields@.map_values(
                    |f: crate::shape::FieldShape| FieldV {
                        name: f.name@,
                        type_id: ids[f.ty],
                        required: f.required,
                        read_only: f.read_only,
                    },
                ),
            },
            TypeShape::TypeIs { narrowed } => DescV::TypeIs {
                display,
                narrowed_type: ids[narrowed],
            },
            TypeShape::TypeGuard { guarded } => DescV::TypeGuard {
                display,
                guarded_type: ids[guarded],
            },
            TypeShape::NewType { name, base } => DescV::NewType {
                display,
                name: name@,
                base_type: ids[base],
            },
            TypeShape::SpecialForm { name } => DescV::SpecialForm { display, name: name@ },
            TypeShape::Property => DescV::Property { display },
            TypeShape::Other => DescV::Other { display },
        }
    }
}

/// All elements of a component list are interned.
pub open spec fn all_in(ids: Map<TypeIdent, TypeId>, s: Seq<TypeIdent>) -> bool {
    forall|k: int| 0 <= k < s.len() ==> ids.contains_key(#[trigger] s[k])
}

/// A parameter's non-dynamic declared type is among the parameter list's
/// components.
proof fn lemma_params_components_contains(
    oracle: Map<TypeIdent, TypeEntry>,
    params: Seq<FnParamShape>,
    k: int,
)
    requires
        0 <= k < params.len(),
        !is_dynamic(oracle, params[k].annotated),
    ensures
        params_components(oracle, params).contains(params[k].annotated),
    decreases params.len(),
{
    if k == params.len() - 1 {
        let comps = params_components(oracle, params);
        assert(comps.last() == params.last().annotated);
        assert(comps.contains(params[k].annotated));
    } else {
        lemma_params_components_contains(oracle, params.drop_last(), k);
        let sub = params_components(oracle, params.drop_last());
        let j = choose|j: int| 0 <= j < sub.len() && sub[j] == params.drop_last()[k].annotated;
        assert(params_components(oracle, params)[j] == params[k].annotated);
    }
}

/// Mapping a component list through two id maps gives the same ids when
/// the smaller map already covers the list.
proof fn lemma_ids_of_stable(
    s: Seq<TypeIdent>,
    ids1: Map<TypeIdent, TypeId>,
    ids2: Map<TypeIdent, TypeId>,
)
    requires
        ids1.submap_of(ids2),
        all_in(ids1, s),
    ensures
        ids_of(ids1, s) == ids_of(ids2, s),
{
    assert(forall|k: TypeIdent|
        ids1.dom().contains(k) ==> ids2.dom().contains(k) && ids1[k] == ids2[k]);
    assert(ids_of(ids1, s) =~= ids_of(ids2, s)) by {
        assert forall|k: int| 0 <= k < s.len() implies ids_of(ids1, s)[k] == ids_of(ids2, s)[k] by {
            assert(ids1.contains_key(s[k]));
            assert(ids1.dom().contains(s[k]));
            assert(ids1[s[k]] == ids2[s[k]]);
        }
    }
}

/// The parameter records of a signature are unchanged by growing the id
/// map, provided the smaller map covers the signature's components.
proof fn lemma_fn_params_view_stable(
    oracle: Map<TypeIdent, TypeEntry>,
    params: Seq<FnParamShape>,
    ids1: Map<TypeIdent, TypeId>,
    ids2: Map<TypeIdent, TypeId>,
)
    requires
        ids1.submap_of(ids2),
        all_in(ids1, params_components(oracle, params)),
    ensures
        fn_params_view(oracle, ids1, params) == fn_params_view(oracle, ids2, params),
{
    assert(forall|k: TypeIdent|
        ids1.dom().contains(k) ==> ids2.dom().contains(k) && ids1[k] == ids2[k]);
    assert(fn_params_view(oracle, ids1, params) =~= fn_params_view(oracle, ids2, params)) by {
        assert forall|k: int| 0 <= k < params.len() implies fn_params_view(oracle, ids1, params)[k]
            == fn_params_view(oracle, ids2, params)[k] by {
            if !is_dynamic(oracle, params[k].annotated) {
                lemma_params_components_contains(oracle, params, k);
                let comps = params_components(oracle, params);
                let j = choose|j: int| 0 <= j < comps.len() && comps[j] == params[k].annotated;
                assert(ids1.contains_key(comps[j]));
                assert(ids1.dom().contains(params[k].annotated));
                assert(ids1[params[k].annotated] == ids2[params[k].annotated]);
            }
        }
    }
}

/// Growing the id map never changes a descriptor already encoded from it:
/// the encoding consults only the shape's component identities, and those
/// are already covered.
pub proof fn lemma_desc_of_stable(
    oracle: Map<TypeIdent, TypeEntry>,
    ident: TypeIdent,
    ids1: Map<TypeIdent, TypeId>,
    ids2: Map<TypeIdent, TypeId>,
    self_id: TypeId,
)
    requires
        ids1.submap_of(ids2),
        all_in(ids1, shape_components(oracle, ident)),
    ensures
        desc_of(oracle, ident, ids1, self_id) == desc_of(oracle, ident, ids2, self_id),
{
    assert(forall|k: TypeIdent|
        ids1.dom().contains(k) ==> ids2.dom().contains(k) && ids1[k] == ids2[k]);
    if !oracle.contains_key(ident) {
        return ;
    }
    let comps = shape_components(oracle, ident);
    match oracle[ident].shape {
        TypeShape::Union { members } => {
            lemma_ids_of_stable(members@, ids1, ids2);
        },
        TypeShape::Intersection { positive, negative } => {
            assert(all_in(ids1, positive@)) by {
                assert forall|k: int| 0 <= k < positive@.len() implies ids1.contains_key(
                    #[trigger] positive@[k],
                ) by {
                    assert(comps[k] == positive@[k]);
                }
            }
            assert(all_in(ids1, negative@)) by {
                assert forall|k: int| 0 <= k < negative@.len() implies ids1.contains_key(
                    #[trigger] negative@[k],
                ) by {
                    assert(comps[positive@.len() + k] == negative@[k]);
                }
            }
            lemma_ids_of_stable(positive@, ids1, ids2);
            lemma_ids_of_stable(negative@, ids1, ids2);
        },
        TypeShape::Instance { type_args, supertypes, class_ident, .. } => {
            assert(all_in(ids1, type_args@)) by {
                assert forall|k: int| 0 <= k < type_args@.len() implies ids1.contains_key(
                    #[trigger] type_args@[k],
                ) by {
                    assert(comps[k] == type_args@[k]);
                }
            }
            assert(all_in(ids1, supertypes@)) by {
                assert forall|k: int| 0 <= k < supertypes@.len() implies ids1.contains_key(
                    #[trigger] supertypes@[k],
                ) by {
                    assert(comps[type_args@.len() + k] == supertypes@[k]);
                }
            }
            lemma_ids_of_stable(type_args@, ids1, ids2);
            lemma_ids_of_stable(supertypes@, ids1, ids2);
            if let Some(c) = class_ident {
                assert(comps[type_args@.len() + supertypes@.len() as int] == c);
            }
        },
        TypeShape::ClassLiteral { type_params, supertypes, members, .. } => {
            let mseq = members@.map_values(|m: crate::shape::MemberShape| m.ty);
            assert(all_in(ids1, type_params@)) by {
                assert forall|k: int| 0 <= k < type_params@.len() implies ids1.contains_key(
                    #[trigger] type_params@[k],
                ) by {
                    assert(comps[k] == type_params@[k]);
                }
            }
            assert(all_in(ids1, supertypes@)) by {
                assert forall|k: int| 0 <= k < supertypes@.len() implies ids1.contains_key(
                    #[trigger] supertypes@[k],
                ) by {
                    assert(comps[type_params@.len() + k] == supertypes@[k]);
                }
            }
            lemma_ids_of_stable(type_params@, ids1, ids2);
            lemma_ids_of_stable(supertypes@, ids1, ids2);
            assert(members@.map_values(
                |m: crate::shape::MemberShape| MemberV { name: m.name@, type_id: ids1[m.ty] },
            ) =~= members@.map_values(
                |m: crate::shape::MemberShape| MemberV { name: m.name@, type_id: ids2[m.ty] },
            )) by {
                assert forall|k: int| 0 <= k < members@.len() implies ids1[
                    #[trigger] members@[k].ty
                ] == ids2[members@[k].ty] by {
                    assert(mseq[k] == members@[k].ty);
                    assert(comps[type_params@.len() + supertypes@.len() + k as int] == mseq[k]);
                    assert(ids1.dom().contains(members@[k].ty));
                }
            }
        },
        TypeShape::SubclassOf { class_ident } => {
            if let Some(c) = class_ident {
                assert(comps[0] == c);
            }
        },
        TypeShape::Function { type_params, overloads, .. } => {
            lemma_callable_parts_stable(oracle, type_params@, overloads@, comps, ids1, ids2);
        },
        TypeShape::BoundMethod { function } => {
            if let Some(f) = function {
                if oracle.contains_key(f) {
                    match oracle[f].shape {
                        TypeShape::Function { type_params, overloads, .. } => {
                            lemma_callable_parts_stable(
                                oracle,
                                type_params@,
                                overloads@,
                                comps,
                                ids1,
                                ids2,
                            );
                        },
                        _ => {},
                    }
                }
            }
        },
        TypeShape::TypeVar { bound, constraints, .. } => {
            let bseq = opt_ident_seq(bound);
            if let Some(c) = constraints {
                assert(all_in(ids1, c@)) by {
                    assert forall|k: int| 0 <= k < c@.len() implies ids1.contains_key(
                        #[trigger] c@[k],
                    ) by {
                        assert(comps[bseq.len() + k] == c@[k]);
                    }
                }
                lemma_ids_of_stable(c@, ids1, ids2);
            }
            if let Some(b) = bound {
                assert(comps[0] == b);
            }
        },
        TypeShape::TypedDict { fields, .. } => {
            let fseq = fields@.map_values(|f: crate::shape::FieldShape| f.ty);
            assert(fields@.map_values(
                |f: crate::shape::FieldShape| FieldV {
                    name: f.name@,
                    type_id: ids1[f.ty],
                    required: f.required,
                    read_only: f.read_only,
                },
            ) =~= fields@.map_values(
                |f: crate::shape::FieldShape| FieldV {
                    name: f.name@,
                    type_id: ids2[f.ty],
                    required: f.required,
                    read_only: f.read_only,
                },
            )) by {
                assert forall|k: int| 0 <= k < fields@.len() implies ids1[
                    #[trigger] fields@[k].ty
                ] == ids2[fields@[k].ty] by {
                    assert(fseq[k] == fields@[k].ty);
                    assert(comps[k] == fseq[k]);
                    assert(ids1.dom().contains(fields@[k].ty));
                }
            }
        },
        TypeShape::TypeIs { narrowed } => {
            assert(comps[0] == narrowed);
        },
        TypeShape::TypeGuard { guarded } => {
            assert(comps[0] == guarded);
        },
        TypeShape::NewType { base, .. } => {
            assert(comps[0] == base);
        },
        _ => {},
    }
}

/// Stability of the first-overload parameter and return encoding, shared
/// by function literals and bound methods. `comps` is the component list
/// `type_params + sig_components(overloads)`.
proof fn lemma_callable_parts_stable(
    oracle: Map<TypeIdent, TypeEntry>,
    type_params: Seq<TypeIdent>,
    overloads: Seq<SigShape>,
    comps: Seq<TypeIdent>,
    ids1: Map<TypeIdent, TypeId>,
    ids2: Map<TypeIdent, TypeId>,
)
    requires
        ids1.submap_of(ids2),
        comps == type_params + sig_components(oracle, overloads),
        all_in(ids1, comps),
    ensures
        ids_of(ids1, type_params) == ids_of(ids2, type_params),
        callable_params_view(oracle, ids1, overloads) == callable_params_view(
            oracle,
            ids2,
            overloads,
        ),
        callable_return_view(oracle, ids1, overloads) == callable_return_view(
            oracle,
            ids2,
            overloads,
        ),
{
    assert(forall|k: TypeIdent|
        ids1.dom().contains(k) ==> ids2.dom().contains(k) && ids1[k] == ids2[k]);
    assert(all_in(ids1, type_params)) by {
        assert forall|k: int| 0 <= k < type_params.len() implies ids1.contains_key(
            #[trigger] type_params[k],
        ) by {
            assert(comps[k] == type_params[k]);
        }
    }
    lemma_ids_of_stable(type_params, ids1, ids2);
    let sig = sig_components(oracle, overloads);
    assert(all_in(ids1, sig)) by {
        assert forall|k: int| 0 <= k < sig.len() implies ids1.contains_key(#[trigger] sig[k]) by {
            assert(comps[type_params.len() + k] == sig[k]);
        }
    }
    if overloads.len() > 0 {
        let pc = params_components(oracle, overloads[0].params@);
        assert(all_in(ids1, pc)) by {
            assert forall|k: int| 0 <= k < pc.len() implies ids1.contains_key(
                #[trigger] pc[k],
            ) by {
                assert(sig[k] == pc[k]);
            }
        }
        lemma_fn_params_view_stable(oracle, overloads[0].params@, ids1, ids2);
        if !is_dynamic(oracle, overloads[0].return_ty) {
            assert(sig[pc.len() as int] == overloads[0].return_ty);
            assert(ids1.dom().contains(overloads[0].return_ty));
            assert(ids1[overloads[0].return_ty] == ids2[overloads[0].return_ty]);
        }
    }
}



/// All elements of the left part of a concatenation are interned when the
/// whole concatenation is.
pub(crate) proof fn lemma_all_in_left(ids: Map<TypeIdent, TypeId>, a: Seq<TypeIdent>, b: Seq<TypeIdent>)
    requires
        all_in(ids, a + b),
    ensures
        all_in(ids, a),
{
    assert forall|k: int| 0 <= k < a.len() implies ids.contains_key(#[trigger] a[k]) by {
        assert((a + b)[k] == a[k]);
    }
}

/// All elements of the right part of a concatenation are interned when the
/// whole concatenation is.
pub(crate) proof fn lemma_all_in_right(ids: Map<TypeIdent, TypeId>, a: Seq<TypeIdent>, b: Seq<TypeIdent>)
    requires
        all_in(ids, a + b),
    ensures
        all_in(ids, b),
{
    assert forall|k: int| 0 <= k < b.len() implies ids.contains_key(#[trigger] b[k]) by {
        assert((a + b)[a.len() + k] == b[k]);
    }
}

/// The id interned for a component identity.
fn lookup_id(ids: &HashMap<TypeIdent, TypeId>, c: TypeIdent) -> (r: TypeId)
    requires
        ids@.contains_key(c),
    ensures
        r == ids@[c],
{
    *ids.get(&c).unwrap()
}

/// Maps a component list to its interned ids.
fn map_ids_exec(ids: &HashMap<TypeIdent, TypeId>, v: &Vec<TypeIdent>) -> (r: Vec<TypeId>)
    requires
        all_in(ids@, v@),
    ensures
        r@ == ids_of(ids@, v@),
{
    let mut r: Vec<TypeId> = Vec::new();
    let mut i: usize = 0;
    while i < v.len()
        invariant
            i <= v.len(),
            all_in(ids@, v@),
            r@ == ids_of(ids@, v@.take(i as int)),
        decreases v.len() - i,
    {
        r.push(lookup_id(ids, v[i]));
        proof {
            v@.lemma_map_take_succ(|c: TypeIdent| ids@[c], i as int);
        }
        i = i + 1;
    }
    proof {
        assert(v@.take(v@.len() as int) =~= v@);
    }
    r
}

/// Maps an optional component to its interned id.
fn map_opt_id_exec(ids: &HashMap<TypeIdent, TypeId>, o: &Option<TypeIdent>) -> (r: Option<TypeId>)
    requires
        (*o) matches Some(c) ==> ids@.contains_key(c),
    ensures
        r == opt_id_of(ids@, *o),
{
    match o {
        Some(c) => Some(lookup_id(ids, *c)),
        None => None,
    }
}

/// The component identities of one identity's shape, in interning order
/// (runtime counterpart of [`shape_components`]).
pub(crate) fn components_of(oracle: &OracleTable, ident: TypeIdent) -> (r: Vec<TypeIdent>)
    ensures
        r@ == shape_components(oracle@, ident),
{
    let entry = match oracle.get(ident) {
        Some(e) => e,
        None => {
            return Vec::new();
        },
    };
    match &entry.shape {
        TypeShape::Union { members } => {
            let mut r: Vec<TypeIdent> = Vec::new();
            extend_idents(&mut r, members);
            proof {
                assert(r@ =~= shape_components(oracle@, ident));
            }
            r
        },
        TypeShape::Intersection { positive, negative } => {
            let mut r: Vec<TypeIdent> = Vec::new();
            extend_idents(&mut r, positive);
            extend_idents(&mut r, negative);
            proof {
                assert(r@ =~= shape_components(oracle@, ident));
            }
            r
        },
        TypeShape::Instance { type_args, supertypes, class_ident, .. } => {
            let mut r: Vec<TypeIdent> = Vec::new();
            extend_idents(&mut r, type_args);
            extend_idents(&mut r, supertypes);
            if let Some(c) = class_ident {
                r.push(*c);
            }
            proof {
                assert(r@ =~= shape_components(oracle@, ident));
            }
            r
        },
        TypeShape::ClassLiteral { type_params, supertypes, members, .. } => {
            let mut r: Vec<TypeIdent> = Vec::new();
            extend_idents(&mut r, type_params);
            extend_idents(&mut r, supertypes);
            let mut i: usize = 0;
            while i < members.len()
                invariant
                    i <= members@.len(),
                    r@ == type_params@ + supertypes@ + members@.take(i as int).map_values(
                        |m: crate::shape::MemberShape| m.ty,
                    ),
                decreases members@.len() - i,
            {
                r.push(members[i].ty);
                proof {
                    members@.lemma_map_take_succ(
                        |m: crate::shape::MemberShape| m.ty,
                        i as int,
                    );
                    assert(r@ =~= type_params@ + supertypes@ + members@.take(
                        i + 1 as int,
                    ).map_values(|m: crate::shape::MemberShape| m.ty));
                }
                i = i + 1;
            }
            proof {
                assert(members@.take(members@.len() as int) =~= members@);
                assert(r@ =~= shape_components(oracle@, ident));
            }
            r
        },
        TypeShape::SubclassOf { class_ident } => {
            let mut r: Vec<TypeIdent> = Vec::new();
            if let Some(c) = class_ident {
                r.push(*c);
            }
            proof {
                assert(r@ =~= shape_components(oracle@, ident));
            }
            r
        },
        TypeShape::Function { type_params, overloads, .. } => {
            let mut r: Vec<TypeIdent> = Vec::new();
            extend_idents(&mut r, type_params);
            push_sig_components(oracle, &mut r, overloads);
            proof {
                assert(r@ =~= shape_components(oracle@, ident));
            }
            r
        },
        TypeShape::BoundMethod { function } => {
            let mut r: Vec<TypeIdent> = Vec::new();
            if let Some(f) = function {
                match oracle.get(*f) {
                    Some(fe) => {
                        if let TypeShape::Function { type_params, overloads, .. } = &fe.shape {
                            extend_idents(&mut r, type_params);
                            push_sig_components(oracle, &mut r, overloads);
                        }
                    },
                    None => {
                        r.push(*f);
                    },
                }
            }
            proof {
                assert(r@ =~= shape_components(oracle@, ident));
            }
            r
        },
        TypeShape::TypeVar { bound, constraints, .. } => {
            let mut r: Vec<TypeIdent> = Vec::new();
            if let Some(b) = bound {
                r.push(*b);
            }
            if let Some(c) = constraints {
                extend_idents(&mut r, c);
            }
            proof {
                assert(r@ =~= shape_components(oracle@, ident));
            }
            r
        },
        TypeShape::TypedDict { fields, .. } => {
            let mut r: Vec<TypeIdent> = Vec::new();
            let mut i: usize = 0;
            while i < fields.len()
                invariant
                    i <= fields@.len(),
                    r@ == fields@.take(i as int).map_values(|f: crate::shape::FieldShape| f.ty),
                decreases fields@.len() - i,
            {
                r.push(fields[i].ty);
                proof {
                    fields@.lemma_map_take_succ(|f: crate::shape::FieldShape| f.ty, i as int);
                }
                i = i + 1;
            }
            proof {
                assert(fields@.take(fields@.len() as int) =~= fields@);
                assert(r@ =~= shape_components(oracle@, ident));
            }
            r
        },
        TypeShape::TypeIs { narrowed } => {
            let mut r: Vec<TypeIdent> = Vec::new();
            r.push(*narrowed);
            proof {
                assert(r@ =~= shape_components(oracle@, ident));
            }
            r
        },
        TypeShape::TypeGuard { guarded } => {
            let mut r: Vec<TypeIdent> = Vec::new();
            r.push(*guarded);
            proof {
                assert(r@ =~= shape_components(oracle@, ident));
            }
            r
        },
        TypeShape::NewType { base, .. } => {
            let mut r: Vec<TypeIdent> = Vec::new();
            r.push(*base);
            proof {
                assert(r@ =~= shape_components(oracle@, ident));
            }
            r
        },
        _ => {
            let r: Vec<TypeIdent> = Vec::new();
            proof {
                assert(r@ =~= shape_components(oracle@, ident));
            }
            r
        },
    }
}

/// Appends a component list to a work list.
fn extend_idents(dst: &mut Vec<TypeIdent>, src: &Vec<TypeIdent>)
    ensures
        final(dst)@ == old(dst)@ + src@,
{
    let mut i: usize = 0;
    while i < src.len()
        invariant
            i <= src.len(),
            dst@ == old(dst)@ + src@.take(i as int),
        decreases src.len() - i,
    {
        dst.push(src[i]);
        proof {
            assert(old(dst)@ + src@.take(i + 1 as int) =~= (old(dst)@ + src@.take(i as int)).push(
                src@[i as int],
            ));
        }
        i = i + 1;
    }
    proof {
        assert(old(dst)@ + src@.take(src@.len() as int) =~= old(dst)@ + src@);
    }
}

/// Appends the first overload's components: the parameters' non-dynamic
/// declared types, then the return type unless dynamic.
fn push_sig_components(oracle: &OracleTable, dst: &mut Vec<TypeIdent>, overloads: &Vec<SigShape>)
    ensures
        final(dst)@ == old(dst)@ + sig_components(oracle@, overloads@),
{
    if overloads.len() == 0 {
        proof {
            assert(dst@ =~= dst@ + sig_components(oracle@, overloads@));
        }
        return ;
    }
    let first = &overloads[0];
    let mut i: usize = 0;
    while i < first.params.len()
        invariant
            i <= first.params@.len(),
            first == overloads@[0],
            dst@ == old(dst)@ + params_components(oracle@, first.params@.take(i as int)),
        decreases first.params@.len() - i,
    {
        if !check_dynamic(oracle, first.params[i].annotated) {
            dst.push(first.params[i].annotated);
        }
        proof {
            assert(first.params@.take(i + 1 as int).drop_last() =~= first.params@.take(i as int));
            assert(first.params@.take(i + 1 as int).last() == first.params@[i as int]);
            assert(dst@ =~= old(dst)@ + params_components(
                oracle@,
                first.params@.take(i + 1 as int),
            ));
        }
        i = i + 1;
    }
    proof {
        assert(first.params@.take(first.params@.len() as int) =~= first.params@);
    }
    if !check_dynamic(oracle, first.return_ty) {
        dst.push(first.return_ty);
    }
    proof {
        assert(dst@ =~= old(dst)@ + sig_components(oracle@, overloads@));
    }
}

/// Builds the parameter records of a function-literal signature.
fn build_fn_params(
    oracle: &OracleTable,
    ids: &HashMap<TypeIdent, TypeId>,
    params: &Vec<FnParamShape>,
) -> (r: Vec<ParameterInfo>)
    requires
        all_in(ids@, params_components(oracle@, params@)),
    ensures
        r@.map_values(|p: ParameterInfo| p@) == fn_params_view(oracle@, ids@, params@),
{
    let mut r: Vec<ParameterInfo> = Vec::new();
    let mut i: usize = 0;
    while i < params.len()
        invariant
            i <= params@.len(),
            all_in(ids@, params_components(oracle@, params@)),
            r@.map_values(|p: ParameterInfo| p@) == fn_params_view(
                oracle@,
                ids@,
                params@.take(i as int),
            ),
        decreases params@.len() - i,
    {
        let p = &params[i];
        let type_id: Option<TypeId>;
        if check_dynamic(oracle, p.annotated) {
            type_id = None;
        } else {
            proof {
                lemma_params_components_contains(oracle@, params@, i as int);
                let comps = params_components(oracle@, params@);
                let j = choose|j: int| 0 <= j < comps.len() && comps[j] == params@[
                    i as int
                ].annotated;
                assert(ids@.contains_key(comps[j]));
            }
            type_id = Some(lookup_id(ids, p.annotated));
        }
        let ghost r_prev = r@;
        let rec = ParameterInfo {
            name: p.name.clone(),
            type_id,
            kind: p.kind,
            has_default: p.has_default,
            default_type_id: None,
        };
        let ghost recg = rec;
        r.push(rec);
        proof {
            r_prev.lemma_push_map_commute(|p: ParameterInfo| p@, recg);
            let f = |p: FnParamShape| ParamV {
                name: p.name@,
                type_id: if is_dynamic(oracle@, p.annotated) {
                    None
                } else {
                    Some(ids@[p.annotated])
                },
                kind: p.kind,
                has_default: p.has_default,
                default_type_id: None,
            };
            params@.lemma_map_take_succ(f, i as int);
            assert(recg@ == f(params@[i as int]));
        }
        i = i + 1;
    }
    proof {
        assert(params@.take(params@.len() as int) =~= params@);
    }
    r
}

/// Builds the callable parts shared by function and bound-method
/// descriptors: type-parameter ids, first-overload parameter records and
/// return type id.
fn build_callable_parts(
    oracle: &OracleTable,
    ids: &HashMap<TypeIdent, TypeId>,
    type_params: &Vec<TypeIdent>,
    overloads: &Vec<SigShape>,
) -> (r: (Vec<TypeId>, Vec<ParameterInfo>, Option<TypeId>))
    requires
        all_in(ids@, type_params@ + sig_components(oracle@, overloads@)),
    ensures
        r.0@ == ids_of(ids@, type_params@),
        r.1@.map_values(|p: ParameterInfo| p@) == callable_params_view(oracle@, ids@, overloads@),
        r.2 == callable_return_view(oracle@, ids@, overloads@),
{
    proof {
        lemma_all_in_left(ids@, type_params@, sig_components(oracle@, overloads@));
        lemma_all_in_right(ids@, type_params@, sig_components(oracle@, overloads@));
    }
    let tp = map_ids_exec(ids, type_params);
    if overloads.len() == 0 {
        let params: Vec<ParameterInfo> = Vec::new();
        proof {
            assert(params@.map_values(|p: ParameterInfo| p@) =~= callable_params_view(
                oracle@,
                ids@,
                overloads@,
            ));
        }
        return (tp, params, None);
    }
    let first = &overloads[0];
    let ghost sig = sig_components(oracle@, overloads@);
    let ghost pc = params_components(oracle@, first.params@);
    proof {
        assert(all_in(ids@, pc)) by {
            assert forall|k: int| 0 <= k < pc.len() implies ids@.contains_key(
                #[trigger] pc[k],
            ) by {
                assert(sig[k] == pc[k]);
            }
        }
    }
    let params = build_fn_params(oracle, ids, &first.params);
    let return_type: Option<TypeId>;
    if check_dynamic(oracle, first.return_ty) {
        return_type = None;
    } else {
        proof {
            assert(sig[pc.len() as int] == first.return_ty);
            assert(ids@.contains_key(first.return_ty));
        }
        return_type = Some(lookup_id(ids, first.return_ty));
    }
    (tp, params, return_type)
}

/// Builds the wire descriptor for one identity (runtime counterpart of
/// [`desc_of`]). Every component of the identity's shape must already be
/// interned; an identity the oracle does not know degrades to the
/// catch-all descriptor.
pub(crate) fn build_descriptor(
    oracle: &OracleTable,
    ids: &HashMap<TypeIdent, TypeId>,
    ident: TypeIdent,
    self_id: TypeId,
) -> (r: TypeDescriptor)
    requires
        all_in(ids@, shape_components(oracle@, ident)),
    ensures
        r@ == desc_of(oracle@, ident, ids@, self_id),
{
    let entry = match oracle.get(ident) {
        Some(e) => e,
        None => {
            return TypeDescriptor::Other { display: None };
        },
    };
    let ghost comps = shape_components(oracle@, ident);
    let display = Some(entry.display.clone());
    match &entry.shape {
        TypeShape::Dynamic { dynamic_kind } => TypeDescriptor::Dynamic {
            display,
            dynamic_kind: dynamic_kind.clone(),
        },
        TypeShape::Never => TypeDescriptor::Never { display: Some("Never".to_owned()) },
        TypeShape::IntLiteral { value } => TypeDescriptor::IntLiteral { display, value: *value },
        TypeShape::BoolLiteral { value } => TypeDescriptor::BoolLiteral { display, value: *value },
        TypeShape::StringLiteral { value } => TypeDescriptor::StringLiteral {
            display,
            value: value.clone(),
        },
        TypeShape::BytesLiteral { value } => TypeDescriptor::BytesLiteral {
            display,
            value: value.clone(),
        },
        TypeShape::LiteralString => TypeDescriptor::LiteralString { display },
        TypeShape::EnumLiteral { class_name, member_name } => TypeDescriptor::EnumLiteral {
            display,
            class_name: class_name.clone(),
            member_name: member_name.clone(),
        },
        TypeShape::Truthy => TypeDescriptor::Truthy { display: Some("AlwaysTruthy".to_owned()) },
        TypeShape::Falsy => TypeDescriptor::Falsy { display: Some("AlwaysFalsy".to_owned()) },
        TypeShape::Union { members } => TypeDescriptor::Union {
            display,
            members: map_ids_exec(ids, members),
        },
        TypeShape::Intersection { positive, negative } => {
            proof {
                lemma_all_in_left(ids@, positive@, negative@);
                lemma_all_in_right(ids@, positive@, negative@);
            }
            TypeDescriptor::Intersection {
                display,
                positive: map_ids_exec(ids, positive),
                negative: map_ids_exec(ids, negative),
            }
        },
        TypeShape::Instance { class_name, module_name, type_args, supertypes, class_ident } => {
            proof {
                lemma_all_in_left(ids@, type_args@ + supertypes@, opt_ident_seq(*class_ident));
                lemma_all_in_right(ids@, type_args@ + supertypes@, opt_ident_seq(*class_ident));
                lemma_all_in_left(ids@, type_args@, supertypes@);
                lemma_all_in_right(ids@, type_args@, supertypes@);
                if let Some(c) = class_ident {
                    assert(opt_ident_seq(*class_ident)[0] == *c);
                }
            }
            TypeDescriptor::Instance {
                display,
                class_name: class_name.clone(),
                module_name: clone_opt_string_field(module_name),
                supertypes: map_ids_exec(ids, supertypes),
                type_args: map_ids_exec(ids, type_args),
                class_id: map_opt_id_exec(ids, class_ident),
            }
        },
        TypeShape::ClassLiteral { class_name, module_name, type_params, supertypes, members } => {
            let ghost mseq = members@.map_values(|m: crate::shape::MemberShape| m.ty);
            proof {
                lemma_all_in_left(ids@, type_params@ + supertypes@, mseq);
                lemma_all_in_right(ids@, type_params@ + supertypes@, mseq);
                lemma_all_in_left(ids@, type_params@, supertypes@);
                lemma_all_in_right(ids@, type_params@, supertypes@);
            }
            TypeDescriptor::ClassLiteral {
                display,
                class_name: class_name.clone(),
                module_name: clone_opt_string_field(module_name),
                type_parameters: map_ids_exec(ids, type_params),
                supertypes: map_ids_exec(ids, supertypes),
                members: build_members(ids, members),
            }
        },
        TypeShape::SubclassOf { class_ident } => {
            let base: TypeId;
            match class_ident {
                Some(c) => {
                    proof {
                        assert(comps[0] == *c);
                    }
                    base = lookup_id(ids, *c);
                },
                None => {
                    base = self_id;
                },
            }
            TypeDescriptor::SubclassOf { display, base }
        },
        TypeShape::Function { name, module_name, type_params, overloads } => {
            let parts = build_callable_parts(oracle, ids, type_params, overloads);
            TypeDescriptor::Function {
                display,
                name: name.clone(),
                module_name: clone_opt_string_field(module_name),
                type_parameters: parts.0,
                parameters: parts.1,
                return_type: parts.2,
            }
        },
        TypeShape::Callable => TypeDescriptor::Callable { display },
        TypeShape::BoundMethod { function } => {
            if let Some(f) = function {
                if let Some(fe) = oracle.get(*f) {
                    if let TypeShape::Function { name, module_name, type_params, overloads } = &fe.shape {
                        let parts = build_callable_parts(oracle, ids, type_params, overloads);
                        return TypeDescriptor::BoundMethod {
                            display,
                            name: Some(name.clone()),
                            module_name: clone_opt_string_field(module_name),
                            type_parameters: parts.0,
                            parameters: parts.1,
                            return_type: parts.2,
                        };
                    }
                }
            }
            let empty_params: Vec<ParameterInfo> = Vec::new();
            let empty_tp: Vec<TypeId> = Vec::new();
            proof {
                assert(empty_params@.map_values(|p: ParameterInfo| p@) =~= Seq::<ParamV>::empty());
                assert(empty_tp@ =~= Seq::<TypeId>::empty());
            }
            TypeDescriptor::BoundMethod {
                display,
                name: None,
                module_name: None,
                type_parameters: empty_tp,
                parameters: empty_params,
                return_type: None,
            }
        },
        TypeShape::Module { module_name } => TypeDescriptor::Module {
            display,
            module_name: module_name.clone(),
        },
        TypeShape::TypeVar { name, variance, bound, constraints } => {
            let ghost bseq = opt_ident_seq(*bound);
            proof {
                if let Some(b) = bound {
                    assert(comps[0] == *b);
                    assert(ids@.contains_key(*b));
                }
            }
            let cs: Option<Vec<TypeId>>;
            match constraints {
                Some(c) => {
                    proof {
                        assert(all_in(ids@, c@)) by {
                            assert forall|k: int| 0 <= k < c@.len() implies ids@.contains_key(
                                #[trigger] c@[k],
                            ) by {
                                assert(comps[bseq.len() + k as int] == c@[k]);
                            }
                        }
                    }
                    cs = Some(map_ids_exec(ids, c));
                },
                None => {
                    cs = None;
                },
            }
            TypeDescriptor::TypeVar {
                display,
                name: name.clone(),
                variance: variance.clone(),
                upper_bound: map_opt_id_exec(ids, bound),
                constraints: cs,
            }
        },
        TypeShape::TypeAlias { name } => TypeDescriptor::TypeAlias { display, name: name.clone() },
        TypeShape::TypedDict { name, fields } => TypeDescriptor::TypedDict {
            display,
            name: name.clone(),
            fields: build_fields(ids, fields),
        },
        TypeShape::TypeIs { narrowed } => {
            proof {
                assert(comps[0] == *narrowed);
            }
            TypeDescriptor::TypeIs { display, narrowed_type: lookup_id(ids, *narrowed) }
        },
        TypeShape::TypeGuard { guarded } => {
            proof {
                assert(comps[0] == *guarded);
            }
            TypeDescriptor::TypeGuard { display, guarded_type: lookup_id(ids, *guarded) }
        },
        TypeShape::NewType { name, base } => {
            proof {
                assert(comps[0] == *base);
            }
            TypeDescriptor::NewType {
                display,
                name: name.clone(),
                base_type: lookup_id(ids, *base),
            }
        },
        TypeShape::SpecialForm { name } => TypeDescriptor::SpecialForm {
            display,
            name: name.clone(),
        },
        TypeShape::Property => TypeDescriptor::Property { display },
        TypeShape::Other => TypeDescriptor::Other { display },
    }
}

/// Copies an optional string field of a shape.
fn clone_opt_string_field(o: &Option<String>) -> (r: Option<String>)
    ensures
        opt_name_view(r) == opt_name_view(*o),
{
    match o {
        Some(s) => Some(s.clone()),
        None => None,
    }
}

/// Builds class-member records, mapping each member's type to its id.
fn build_members(
    ids: &HashMap<TypeIdent, TypeId>,
    members: &Vec<crate::shape::MemberShape>,
) -> (r: Vec<ClassMemberInfo>)
    requires
        all_in(ids@, members@.map_values(|m: crate::shape::MemberShape| m.ty)),
    ensures
        r@.map_values(|m: ClassMemberInfo| m@) == members@.map_values(
            |m: crate::shape::MemberShape| MemberV { name: m.name@, type_id: ids@[m.ty] },
        ),
{
    let ghost mseq = members@.map_values(|m: crate::shape::MemberShape| m.ty);
    let mut r: Vec<ClassMemberInfo> = Vec::new();
    let mut i: usize = 0;
    while i < members.len()
        invariant
            i <= members@.len(),
            all_in(ids@, members@.map_values(|m: crate::shape::MemberShape| m.ty)),
            r@.map_values(|m: ClassMemberInfo| m@) == members@.take(i as int).map_values(
                |m: crate::shape::MemberShape| MemberV { name: m.name@, type_id: ids@[m.ty] },
            ),
        decreases members@.len() - i,
    {
        let m = &members[i];
        proof {
            assert(members@.map_values(|m: crate::shape::MemberShape| m.ty)[i as int]
                == members@[i as int].ty);
        }
        let ghost r_prev = r@;
        let rec = ClassMemberInfo { name: m.name.clone(), type_id: lookup_id(ids, m.ty) };
        let ghost recg = rec;
        r.push(rec);
        proof {
            r_prev.lemma_push_map_commute(|m: ClassMemberInfo| m@, recg);
            let f = |m: crate::shape::MemberShape| MemberV { name: m.name@, type_id: ids@[m.ty] };
            members@.lemma_map_take_succ(f, i as int);
            assert(recg@ == f(members@[i as int]));
        }
        i = i + 1;
    }
    proof {
        assert(members@.take(members@.len() as int) =~= members@);
    }
    r
}

/// Builds typed-dict field records, mapping each field's type to its id.
fn build_fields(
    ids: &HashMap<TypeIdent, TypeId>,
    fields: &Vec<crate::shape::FieldShape>,
) -> (r: Vec<crate::protocol::TypedDictFieldInfo>)
    requires
        all_in(ids@, fields@.map_values(|f: crate::shape::FieldShape| f.ty)),
    ensures
        r@.map_values(|f: crate::protocol::TypedDictFieldInfo| f@) == fields@.map_values(
            |f: crate::shape::FieldShape| FieldV {
                name: f.name@,
                type_id: ids@[f.ty],
                required: f.required,
                read_only: f.read_only,
            },
        ),
{
    let mut r: Vec<crate::protocol::TypedDictFieldInfo> = Vec::new();
    let mut i: usize = 0;
    while i < fields.len()
        invariant
            i <= fields@.len(),
            all_in(ids@, fields@.map_values(|f: crate::shape::FieldShape| f.ty)),
            r@.map_values(|f: crate::protocol::TypedDictFieldInfo| f@) == fields@.take(
                i as int,
            ).map_values(
                |f: crate::shape::FieldShape| FieldV {
                    name: f.name@,
                    type_id: ids@[f.ty],
                    required: f.required,
                    read_only: f.read_only,
                },
            ),
        decreases fields@.len() - i,
    {
        let fld = &fields[i];
        proof {
            assert(fields@.map_values(|f: crate::shape::FieldShape| f.ty)[i as int] == fields@[
                i as int
            ].ty);
        }
        let ghost r_prev = r@;
        let rec = crate::protocol::TypedDictFieldInfo {
            name: fld.name.clone(),
            type_id: lookup_id(ids, fld.ty),
            required: fld.required,
            read_only: fld.read_only,
        };
        let ghost recg = rec;
        r.push(rec);
        proof {
            r_prev.lemma_push_map_commute(|f: crate::protocol::TypedDictFieldInfo| f@, recg);
            let f = |f: crate::shape::FieldShape| FieldV {
                name: f.name@,
                type_id: ids@[f.ty],
                required: f.required,
                read_only: f.read_only,
            };
            fields@.lemma_map_take_succ(f, i as int);
            assert(recg@ == f(fields@[i as int]));
        }
        i = i + 1;
    }
    proof {
        assert(fields@.take(fields@.len() as int) =~= fields@);
    }
    r
}



/// Everything a smaller id map covers, a larger one covers too.
pub proof fn lemma_all_in_submap(
    ids1: Map<TypeIdent, TypeId>,
    ids2: Map<TypeIdent, TypeId>,
    s: Seq<TypeIdent>,
)
    requires
        ids1.submap_of(ids2),
        all_in(ids1, s),
    ensures
        all_in(ids2, s),
{
    assert forall|x: int| 0 <= x < s.len() implies ids2.contains_key(#[trigger] s[x]) by {
        assert(ids1.dom().contains(s[x]));
        assert(ids1.dom().contains(s[x]) ==> ids2.dom().contains(s[x]) && ids1[s[x]] == ids2[s[x]]);
    }
}

/// A parameter list's components are unchanged when the oracle learns a
/// fresh identity that was never interned: every identity the list
/// consults is either already in the table or already interned.
proof fn lemma_params_components_oracle_insert(
    o: Map<TypeIdent, TypeEntry>,
    nk: TypeIdent,
    e: TypeEntry,
    ps: Seq<FnParamShape>,
    ids: Map<TypeIdent, TypeId>,
)
    requires
        !o.contains_key(nk),
        !ids.contains_key(nk),
        all_in(ids, params_components(o, ps)),
    ensures
        params_components(o.insert(nk, e), ps) == params_components(o, ps),
    decreases ps.len(),
{
    if ps.len() > 0 {
        let o2 = o.insert(nk, e);
        let pre = params_components(o, ps.drop_last());
        assert(all_in(ids, pre)) by {
            assert forall|x: int| 0 <= x < pre.len() implies ids.contains_key(
                #[trigger] pre[x],
            ) by {
                assert(params_components(o, ps)[x] == pre[x]);
            }
        }
        lemma_params_components_oracle_insert(o, nk, e, ps.drop_last(), ids);
        let a = ps.last().annotated;
        if is_dynamic(o, a) {
            assert(a != nk);
            assert(is_dynamic(o2, a));
        } else {
            assert(params_components(o, ps)[pre.len() as int] == a);
            assert(ids.contains_key(a));
            assert(a != nk);
            assert(!is_dynamic(o2, a));
        }
    }
}

/// A first overload's components are unchanged when the oracle learns a
/// fresh, never-interned identity.
proof fn lemma_sig_components_oracle_insert(
    o: Map<TypeIdent, TypeEntry>,
    nk: TypeIdent,
    e: TypeEntry,
    ovl: Seq<SigShape>,
    ids: Map<TypeIdent, TypeId>,
)
    requires
        !o.contains_key(nk),
        !ids.contains_key(nk),
        all_in(ids, sig_components(o, ovl)),
    ensures
        sig_components(o.insert(nk, e), ovl) == sig_components(o, ovl),
{
    if ovl.len() > 0 {
        let o2 = o.insert(nk, e);
        let pc = params_components(o, ovl[0].params@);
        let sig = sig_components(o, ovl);
        assert(all_in(ids, pc)) by {
            assert forall|x: int| 0 <= x < pc.len() implies ids.contains_key(
                #[trigger] pc[x],
            ) by {
                assert(sig[x] == pc[x]);
            }
        }
        lemma_params_components_oracle_insert(o, nk, e, ovl[0].params@, ids);
        let rt = ovl[0].return_ty;
        if is_dynamic(o, rt) {
            assert(rt != nk);
            assert(is_dynamic(o2, rt));
        } else {
            assert(sig[pc.len() as int] == rt);
            assert(ids.contains_key(rt));
            assert(rt != nk);
            assert(!is_dynamic(o2, rt));
        }
    }
}

/// A settled identity's component list is unchanged when the oracle
/// learns a fresh, never-interned identity.
pub proof fn lemma_shape_components_oracle_insert(
    o: Map<TypeIdent, TypeEntry>,
    nk: TypeIdent,
    e: TypeEntry,
    t: TypeIdent,
    ids: Map<TypeIdent, TypeId>,
)
    requires
        !o.contains_key(nk),
        !ids.contains_key(nk),
        t != nk,
        all_in(ids, shape_components(o, t)),
    ensures
        shape_components(o.insert(nk, e), t) == shape_components(o, t),
{
    let o2 = o.insert(nk, e);
    if !o.contains_key(t) {
        assert(!o2.contains_key(t));
        return ;
    }
    assert(o2[t] == o[t]);
    let comps = shape_components(o, t);
    match o[t].shape {
        TypeShape::Function { type_params, overloads, .. } => {
            let sig = sig_components(o, overloads@);
            assert(all_in(ids, sig)) by {
                assert forall|x: int| 0 <= x < sig.len() implies ids.contains_key(
                    #[trigger] sig[x],
                ) by {
                    assert(comps[type_params@.len() + x] == sig[x]);
                }
            }
            lemma_sig_components_oracle_insert(o, nk, e, overloads@, ids);
        },
        TypeShape::BoundMethod { function } => {
            if let Some(f) = function {
                if o.contains_key(f) {
                    assert(f != nk);
                    assert(o2[f] == o[f]);
                    match o[f].shape {
                        TypeShape::Function { type_params, overloads, .. } => {
                            let sig = sig_components(o, overloads@);
                            assert(all_in(ids, sig)) by {
                                assert forall|x: int| 0 <= x < sig.len() implies ids.contains_key(
                                    #[trigger] sig[x],
                                ) by {
                                    assert(comps[type_params@.len() + x] == sig[x]);
                                }
                            }
                            lemma_sig_components_oracle_insert(o, nk, e, overloads@, ids);
                        },
                        _ => {},
                    }
                } else {
                    assert(comps[0] == f);
                    assert(ids.contains_key(f));
                    assert(f != nk);
                    assert(!o2.contains_key(f));
                }
            }
        },
        _ => {},
    }
}

/// The signature views of a callable are unchanged when the oracle learns
/// a fresh, never-interned identity.
proof fn lemma_callable_views_oracle_insert(
    o: Map<TypeIdent, TypeEntry>,
    nk: TypeIdent,
    e: TypeEntry,
    ovl: Seq<SigShape>,
    ids: Map<TypeIdent, TypeId>,
)
    requires
        !o.contains_key(nk),
        !ids.contains_key(nk),
        all_in(ids, sig_components(o, ovl)),
    ensures
        callable_params_view(o.insert(nk, e), ids, ovl) == callable_params_view(o, ids, ovl),
        callable_return_view(o.insert(nk, e), ids, ovl) == callable_return_view(o, ids, ovl),
{
    if ovl.len() > 0 {
        let o2 = o.insert(nk, e);
        let ps = ovl[0].params@;
        let pc = params_components(o, ps);
        let sig = sig_components(o, ovl);
        assert(all_in(ids, pc)) by {
            assert forall|x: int| 0 <= x < pc.len() implies ids.contains_key(
                #[trigger] pc[x],
            ) by {
                assert(sig[x] == pc[x]);
            }
        }
        assert(fn_params_view(o2, ids, ps) =~= fn_params_view(o, ids, ps)) by {
            assert forall|k: int| 0 <= k < ps.len() implies fn_params_view(o2, ids, ps)[k]
                == fn_params_view(o, ids, ps)[k] by {
                let a = ps[k].annotated;
                if is_dynamic(o, a) {
                    assert(a != nk);
                    assert(is_dynamic(o2, a));
                } else {
                    lemma_params_components_contains(o, ps, k);
                    let j = choose|j: int| 0 <= j < pc.len() && pc[j] == a;
                    assert(ids.contains_key(pc[j]));
                    assert(a != nk);
                    assert(!is_dynamic(o2, a));
                }
            }
        }
        let rt = ovl[0].return_ty;
        if is_dynamic(o, rt) {
            assert(rt != nk);
            assert(is_dynamic(o2, rt));
        } else {
            assert(sig[pc.len() as int] == rt);
            assert(ids.contains_key(rt));
            assert(rt != nk);
            assert(!is_dynamic(o2, rt));
        }
    }
}

/// A settled identity's descriptor encoding is unchanged when the oracle
/// learns a fresh, never-interned identity.
pub proof fn lemma_desc_of_oracle_insert(
    o: Map<TypeIdent, TypeEntry>,
    nk: TypeIdent,
    e: TypeEntry,
    t: TypeIdent,
    ids: Map<TypeIdent, TypeId>,
    self_id: TypeId,
)
    requires
        !o.contains_key(nk),
        !ids.contains_key(nk),
        t != nk,
        all_in(ids, shape_components(o, t)),
    ensures
        desc_of(o.insert(nk, e), t, ids, self_id) == desc_of(o, t, ids, self_id),
{
    let o2 = o.insert(nk, e);
    if !o.contains_key(t) {
        assert(!o2.contains_key(t));
        return ;
    }
    assert(o2[t] == o[t]);
    let comps = shape_components(o, t);
    match o[t].shape {
        TypeShape::Function { type_params, overloads, .. } => {
            let sig = sig_components(o, overloads@);
            assert(all_in(ids, sig)) by {
                assert forall|x: int| 0 <= x < sig.len() implies ids.contains_key(
                    #[trigger] sig[x],
                ) by {
                    assert(comps[type_params@.len() + x] == sig[x]);
                }
            }
            lemma_callable_views_oracle_insert(o, nk, e, overloads@, ids);
        },
        TypeShape::BoundMethod { function } => {
            if let Some(f) = function {
                if o.contains_key(f) {
                    assert(f != nk);
                    assert(o2[f] == o[f]);
                    match o[f].shape {
                        TypeShape::Function { type_params, overloads, .. } => {
                            let sig = sig_components(o, overloads@);
                            assert(all_in(ids, sig)) by {
                                assert forall|x: int| 0 <= x < sig.len() implies ids.contains_key(
                                    #[trigger] sig[x],
                                ) by {
                                    assert(comps[type_params@.len() + x] == sig[x]);
                                }
                            }
                            lemma_callable_views_oracle_insert(o, nk, e, overloads@, ids);
                        },
                        _ => {},
                    }
                } else {
                    assert(comps[0] == f);
                    assert(ids.contains_key(f));
                    assert(f != nk);
                    assert(!o2.contains_key(f));
                }
            }
        },
        _ => {},
    }
}

} // verus!
