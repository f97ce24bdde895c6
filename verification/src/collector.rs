//! The attribution collector: a source-order walk over a syntax tree.
//!
//! The tree is an arena: a node's children sit at strictly smaller
//! indices, so traversal terminates by construction. Each node carries
//! what the oracle answered for it: its inferred type identity, and, for
//! call expressions, the overload bindings resolved for that call site.
//!
//! Most nodes are recorded with their range, kind and interned type id.
//! Assignment, `for` and `with` statements are recorded untyped, and
//! their binding targets are unwrapped: a list or tuple target is never
//! attributed as one aggregate, only its elements are. Call expressions
//! additionally carry a call signature encoded from the first matching
//! overload, falling back to the first declared one.

use vstd::prelude::*;

use crate::protocol::{
    AttV, CallSignatureInfo, NodeAttribution, ParamKind, ParamV, ParameterInfo, SigV, TypeId,
};
use crate::encode::{all_in, lemma_all_in_left, lemma_all_in_right};
use crate::registry::{
    lemma_extends_refl, lemma_extends_trans, lemma_submap_val, registry_extends, TypeRegistry,
};
use crate::shape::OracleTable;
use crate::protocol::TypeDescriptor;
use crate::shape::{opt_ident_seq, TypeIdent};

verus! {

/// The syntactic category of one node.
#[derive(Clone, Copy, PartialEq, Eq, Structural)]
pub enum NodeKind {
    StmtFunctionDef,
    StmtClassDef,
    StmtAssign,
    StmtFor,
    StmtWith,
    StmtOther,
    WithItem,
    Comprehension,
    Parameter,
    ParameterWithDefault,
    Alias,
    ExprBoolOp,
    ExprNamed,
    ExprBinOp,
    ExprUnaryOp,
    ExprLambda,
    ExprIf,
    ExprDict,
    ExprSet,
    ExprListComp,
    ExprSetComp,
    ExprDictComp,
    ExprGenerator,
    ExprAwait,
    ExprYield,
    ExprYieldFrom,
    ExprCompare,
    ExprCall,
    ExprFString,
    ExprTString,
    ExprStringLiteral,
    ExprBytesLiteral,
    ExprNumberLiteral,
    ExprBooleanLiteral,
    ExprNoneLiteral,
    ExprEllipsisLiteral,
    ExprAttribute,
    ExprSubscript,
    ExprStarred,
    ExprName,
    ExprList,
    ExprTuple,
    ExprSlice,
    ExprIpyEscapeCommand,
}

/// The wire spelling of a node kind.
pub open spec fn spec_kind_name(k: NodeKind) -> Seq<char> {
    match k {
        NodeKind::StmtFunctionDef => "StmtFunctionDef"@,
        NodeKind::StmtClassDef => "StmtClassDef"@,
        NodeKind::StmtAssign => "StmtAssign"@,
        NodeKind::StmtFor => "StmtFor"@,
        NodeKind::StmtWith => "StmtWith"@,
        NodeKind::StmtOther => "StmtOther"@,
        NodeKind::WithItem => "WithItem"@,
        NodeKind::Comprehension => "Comprehension"@,
        NodeKind::Parameter => "Parameter"@,
        NodeKind::ParameterWithDefault => "ParameterWithDefault"@,
        NodeKind::Alias => "Alias"@,
        NodeKind::ExprBoolOp => "ExprBoolOp"@,
        NodeKind::ExprNamed => "ExprNamed"@,
        NodeKind::ExprBinOp => "ExprBinOp"@,
        NodeKind::ExprUnaryOp => "ExprUnaryOp"@,
        NodeKind::ExprLambda => "ExprLambda"@,
        NodeKind::ExprIf => "ExprIf"@,
        NodeKind::ExprDict => "ExprDict"@,
        NodeKind::ExprSet => "ExprSet"@,
        NodeKind::ExprListComp => "ExprListComp"@,
        NodeKind::ExprSetComp => "ExprSetComp"@,
        NodeKind::ExprDictComp => "ExprDictComp"@,
        NodeKind::ExprGenerator => "ExprGenerator"@,
        NodeKind::ExprAwait => "ExprAwait"@,
        NodeKind::ExprYield => "ExprYield"@,
        NodeKind::ExprYieldFrom => "ExprYieldFrom"@,
        NodeKind::ExprCompare => "ExprCompare"@,
        NodeKind::ExprCall => "ExprCall"@,
        NodeKind::ExprFString => "ExprFString"@,
        NodeKind::ExprTString => "ExprTString"@,
        NodeKind::ExprStringLiteral => "ExprStringLiteral"@,
        NodeKind::ExprBytesLiteral => "ExprBytesLiteral"@,
        NodeKind::ExprNumberLiteral => "ExprNumberLiteral"@,
        NodeKind::ExprBooleanLiteral => "ExprBooleanLiteral"@,
        NodeKind::ExprNoneLiteral => "ExprNoneLiteral"@,
        NodeKind::ExprEllipsisLiteral => "ExprEllipsisLiteral"@,
        NodeKind::ExprAttribute => "ExprAttribute"@,
        NodeKind::ExprSubscript => "ExprSubscript"@,
        NodeKind::ExprStarred => "ExprStarred"@,
        NodeKind::ExprName => "ExprName"@,
        NodeKind::ExprList => "ExprList"@,
        NodeKind::ExprTuple => "ExprTuple"@,
        NodeKind::ExprSlice => "ExprSlice"@,
        NodeKind::ExprIpyEscapeCommand => "ExprIpyEscapeCommand"@,
    }
}

/// Renders a node kind as its wire spelling.
pub fn kind_name(k: NodeKind) -> (r: String)
    ensures
        r@ == spec_kind_name(k),
{
    match k {
        NodeKind::StmtFunctionDef => "StmtFunctionDef".to_owned(),
        NodeKind::StmtClassDef => "StmtClassDef".to_owned(),
        NodeKind::StmtAssign => "StmtAssign".to_owned(),
        NodeKind::StmtFor => "StmtFor".to_owned(),
        NodeKind::StmtWith => "StmtWith".to_owned(),
        NodeKind::StmtOther => "StmtOther".to_owned(),
        NodeKind::WithItem => "WithItem".to_owned(),
        NodeKind::Comprehension => "Comprehension".to_owned(),
        NodeKind::Parameter => "Parameter".to_owned(),
        NodeKind::ParameterWithDefault => "ParameterWithDefault".to_owned(),
        NodeKind::Alias => "Alias".to_owned(),
        NodeKind::ExprBoolOp => "ExprBoolOp".to_owned(),
        NodeKind::ExprNamed => "ExprNamed".to_owned(),
        NodeKind::ExprBinOp => "ExprBinOp".to_owned(),
        NodeKind::ExprUnaryOp => "ExprUnaryOp".to_owned(),
        NodeKind::ExprLambda => "ExprLambda".to_owned(),
        NodeKind::ExprIf => "ExprIf".to_owned(),
        NodeKind::ExprDict => "ExprDict".to_owned(),
        NodeKind::ExprSet => "ExprSet".to_owned(),
        NodeKind::ExprListComp => "ExprListComp".to_owned(),
        NodeKind::ExprSetComp => "ExprSetComp".to_owned(),
        NodeKind::ExprDictComp => "ExprDictComp".to_owned(),
        NodeKind::ExprGenerator => "ExprGenerator".to_owned(),
        NodeKind::ExprAwait => "ExprAwait".to_owned(),
        NodeKind::ExprYield => "ExprYield".to_owned(),
        NodeKind::ExprYieldFrom => "ExprYieldFrom".to_owned(),
        NodeKind::ExprCompare => "ExprCompare".to_owned(),
        NodeKind::ExprCall => "ExprCall".to_owned(),
        NodeKind::ExprFString => "ExprFString".to_owned(),
        NodeKind::ExprTString => "ExprTString".to_owned(),
        NodeKind::ExprStringLiteral => "ExprStringLiteral".to_owned(),
        NodeKind::ExprBytesLiteral => "ExprBytesLiteral".to_owned(),
        NodeKind::ExprNumberLiteral => "ExprNumberLiteral".to_owned(),
        NodeKind::ExprBooleanLiteral => "ExprBooleanLiteral".to_owned(),
        NodeKind::ExprNoneLiteral => "ExprNoneLiteral".to_owned(),
        NodeKind::ExprEllipsisLiteral => "ExprEllipsisLiteral".to_owned(),
        NodeKind::ExprAttribute => "ExprAttribute".to_owned(),
        NodeKind::ExprSubscript => "ExprSubscript".to_owned(),
        NodeKind::ExprStarred => "ExprStarred".to_owned(),
        NodeKind::ExprName => "ExprName".to_owned(),
        NodeKind::ExprList => "ExprList".to_owned(),
        NodeKind::ExprTuple => "ExprTuple".to_owned(),
        NodeKind::ExprSlice => "ExprSlice".to_owned(),
        NodeKind::ExprIpyEscapeCommand => "ExprIpyEscapeCommand".to_owned(),
    }
}

/// One formal parameter of a resolved call binding, with its specialized
/// declared type and, when present, its default's type.
pub struct CallParamShape {
    pub name: String,
    pub ty: TypeIdent,
    pub kind: ParamKind,
    pub default: Option<TypeIdent>,
}

/// One overload binding the oracle resolved for a call site.
pub struct CallBinding {
    /// Whether this overload's parameters matched the call's arguments
    /// under the oracle's type check.
    pub matched: bool,
    pub params: Vec<CallParamShape>,
    pub return_ty: TypeIdent,
    /// One identity per type variable resolved for this call, in
    /// declaration order; empty when the callable is not generic.
    pub type_args: Vec<TypeIdent>,
}

/// What the oracle resolved for one call expression. Absent entirely when
/// the callee cannot be viewed as callable.
pub struct CallInfo {
    pub overloads: Vec<CallBinding>,
}

/// One syntax node: a source range, a kind, the oracle's answers for it,
/// and its children in source order, each an index strictly below the
/// node's own.
pub struct AstNode {
    pub start: u32,
    pub end: u32,
    pub kind: NodeKind,
    pub inferred: Option<TypeIdent>,
    pub call: Option<CallInfo>,
    pub children: Vec<usize>,
}

/// A parsed module: the node arena and the top-level statements in
/// source order.
pub struct SyntaxTree {
    pub nodes: Vec<AstNode>,
    pub roots: Vec<usize>,
}

/// Children always point below their parent.
pub open spec fn wf_nodes(nodes: Seq<AstNode>) -> bool {
    forall|i: int, j: int|
        0 <= i < nodes.len() && 0 <= j < nodes[i].children@.len() ==> (#[trigger] nodes[i].children@[j]) < i
}

impl SyntaxTree {
    /// A well-formed arena: children below parents, roots in range.
    pub open spec fn wf(&self) -> bool {
        &&& wf_nodes(self.nodes@)
        &&& forall|j: int|
            0 <= j < self.roots@.len() ==> (#[trigger] self.roots@[j]) < self.nodes@.len()
    }
}

/// Statement kinds recorded without a type of their own: their meaning
/// lives in their parts.
pub open spec fn records_untyped(k: NodeKind) -> bool {
    k == NodeKind::StmtAssign || k == NodeKind::StmtFor || k == NodeKind::StmtWith
}

/// Node kinds that produce no attribution of their own.
pub open spec fn records_nothing(k: NodeKind) -> bool {
    k == NodeKind::StmtOther || k == NodeKind::WithItem || k == NodeKind::Comprehension
}

/// The first overload that matched, or -1.
pub open spec fn first_matched(bindings: Seq<CallBinding>, i: int) -> int
    decreases bindings.len() - i,
{
    if i < 0 || i >= bindings.len() {
        -1
    } else if bindings[i].matched {
        i
    } else {
        first_matched(bindings, i + 1)
    }
}

/// The overload a call signature is encoded from: the first that matched,
/// else the first declared, else none.
pub open spec fn chosen_binding(bindings: Seq<CallBinding>) -> int {
    let m = first_matched(bindings, 0);
    if m >= 0 {
        m
    } else if bindings.len() > 0 {
        0int
    } else {
        -1
    }
}

/// The parameter record encoded for one call-binding parameter: the
/// specialized declared type is always given, and variadic parameters
/// never count as having a default.
pub open spec fn call_param_view(ids: Map<TypeIdent, TypeId>, p: CallParamShape) -> ParamV {
    ParamV {
        name: p.name@,
        type_id: Some(ids[p.ty]),
        kind: p.kind,
        has_default: match p.kind {
            ParamKind::Variadic => false,
            ParamKind::KeywordVariadic => false,
            _ => p.default is Some,
        },
        default_type_id: match p.default {
            Some(d) => Some(ids[d]),
            None => None,
        },
    }
}

/// The signature encoded for one call, if any overload was resolved.
pub open spec fn sig_of(call: CallInfo, ids: Map<TypeIdent, TypeId>) -> Option<SigV> {
    let bs = call.overloads@;
    let c = chosen_binding(bs);
    if c < 0 {
        None
    } else {
        let b = bs[c];
        Some(
            SigV {
                parameters: b.params@.map_values(|p: CallParamShape| call_param_view(ids, p)),
                return_type_id: Some(ids[b.return_ty]),
                type_arguments: b.type_args@.map_values(|t: TypeIdent| ids[t]),
            },
        )
    }
}

/// The identities a call-binding parameter list interns, in order: each
/// parameter's type, then its default's type if any.
pub open spec fn params_idents(params: Seq<CallParamShape>) -> Seq<TypeIdent>
    decreases params.len(),
{
    if params.len() == 0 {
        Seq::empty()
    } else {
        params_idents(params.drop_last()) + seq![params.last().ty] + opt_ident_seq(
            params.last().default,
        )
    }
}

/// The identities a call signature interns, in order: the specialized
/// return type, the parameters' types and defaults, the type arguments.
pub open spec fn call_sig_idents(call: CallInfo) -> Seq<TypeIdent> {
    let bs = call.overloads@;
    let c = chosen_binding(bs);
    if c < 0 {
        Seq::empty()
    } else {
        seq![bs[c].return_ty] + params_idents(bs[c].params@) + bs[c].type_args@
    }
}

/// The identities one node interns for its own attribution.
pub open spec fn node_own_idents(node: AstNode) -> Seq<TypeIdent> {
    let inf = if records_untyped(node.kind) || records_nothing(node.kind) {
        Seq::empty()
    } else {
        opt_ident_seq(node.inferred)
    };
    let sig = if node.kind == NodeKind::ExprCall {
        match node.call {
            Some(c) => call_sig_idents(c),
            None => Seq::empty(),
        }
    } else {
        Seq::<TypeIdent>::empty()
    };
    inf + sig
}

/// The attribution recorded for one node, given the final id map.
pub open spec fn att_of(node: AstNode, ids: Map<TypeIdent, TypeId>) -> AttV {
    AttV {
        start: node.start,
        end: node.end,
        node_kind: spec_kind_name(node.kind),
        type_id: if records_untyped(node.kind) {
            None
        } else {
            match node.inferred {
                Some(t) => Some(ids[t]),
                None => None,
            }
        },
        call_signature: if node.kind == NodeKind::ExprCall {
            match node.call {
                Some(c) => sig_of(c, ids),
                None => None,
            }
        } else {
            None
        },
    }
}

/// The attributions the walk records under the subtree at `i`, in order.
/// In target mode a list or tuple node contributes only its elements.
pub open spec fn visit_atts(
    nodes: Seq<AstNode>,
    ids: Map<TypeIdent, TypeId>,
    i: int,
    target: bool,
) -> Seq<AttV>
    decreases i, 1int, 0int,
{
    if !(0 <= i < nodes.len()) {
        Seq::empty()
    } else {
        let node = nodes[i];
        let ch = node.children@;
        if target && (node.kind == NodeKind::ExprList || node.kind == NodeKind::ExprTuple) {
            visit_atts_list(nodes, ids, ch, i, true)
        } else {
            let own = if records_nothing(node.kind) {
                Seq::<AttV>::empty()
            } else {
                seq![att_of(node, ids)]
            };
            let rest = if node.kind == NodeKind::StmtAssign {
                if ch.len() == 0 {
                    Seq::<AttV>::empty()
                } else {
                    visit_atts_list(nodes, ids, ch.drop_last(), i, true) + (if (ch.last() as int)
                        < i {
                        visit_atts(nodes, ids, ch.last() as int, false)
                    } else {
                        Seq::empty()
                    })
                }
            } else if node.kind == NodeKind::StmtFor {
                if ch.len() == 0 {
                    Seq::<AttV>::empty()
                } else {
                    (if (ch[0] as int) < i {
                        visit_atts(nodes, ids, ch[0] as int, true)
                    } else {
                        Seq::empty()
                    }) + visit_atts_list(nodes, ids, ch.skip(1), i, false)
                }
            } else if node.kind == NodeKind::WithItem {
                if ch.len() == 2 {
                    (if (ch[0] as int) < i {
                        visit_atts(nodes, ids, ch[0] as int, true)
                    } else {
                        Seq::empty()
                    }) + (if (ch[1] as int) < i {
                        visit_atts(nodes, ids, ch[1] as int, false)
                    } else {
                        Seq::empty()
                    })
                } else {
                    visit_atts_list(nodes, ids, ch, i, false)
                }
            } else if node.kind == NodeKind::Comprehension {
                if ch.len() >= 2 {
                    (if (ch[0] as int) < i {
                        visit_atts(nodes, ids, ch[0] as int, false)
                    } else {
                        Seq::empty()
                    }) + (if (ch[1] as int) < i {
                        visit_atts(nodes, ids, ch[1] as int, true)
                    } else {
                        Seq::empty()
                    }) + visit_atts_list(nodes, ids, ch.skip(2), i, false)
                } else {
                    visit_atts_list(nodes, ids, ch, i, false)
                }
            } else {
                visit_atts_list(nodes, ids, ch, i, false)
            };
            own + rest
        }
    }
}

/// The attributions of a list of subtrees, all rooted below `hi`.
pub open spec fn visit_atts_list(
    nodes: Seq<AstNode>,
    ids: Map<TypeIdent, TypeId>,
    refs: Seq<usize>,
    hi: int,
    target: bool,
) -> Seq<AttV>
    decreases hi, 0int, refs.len(),
{
    if refs.len() == 0 {
        Seq::empty()
    } else {
        visit_atts_list(nodes, ids, refs.drop_last(), hi, target) + (if (refs.last() as int)
            < hi {
            visit_atts(nodes, ids, refs.last() as int, target)
        } else {
            Seq::empty()
        })
    }
}

/// The identities the walk interns under the subtree at `i`, in order.
pub open spec fn visit_idents(nodes: Seq<AstNode>, i: int, target: bool) -> Seq<TypeIdent>
    decreases i, 1int, 0int,
{
    if !(0 <= i < nodes.len()) {
        Seq::empty()
    } else {
        let node = nodes[i];
        let ch = node.children@;
        if target && (node.kind == NodeKind::ExprList || node.kind == NodeKind::ExprTuple) {
            visit_idents_list(nodes, ch, i, true)
        } else {
            let rest = if node.kind == NodeKind::StmtAssign {
                if ch.len() == 0 {
                    Seq::<TypeIdent>::empty()
                } else {
                    visit_idents_list(nodes, ch.drop_last(), i, true) + (if (ch.last() as int)
                        < i {
                        visit_idents(nodes, ch.last() as int, false)
                    } else {
                        Seq::empty()
                    })
                }
            } else if node.kind == NodeKind::StmtFor {
                if ch.len() == 0 {
                    Seq::<TypeIdent>::empty()
                } else {
                    (if (ch[0] as int) < i {
                        visit_idents(nodes, ch[0] as int, true)
                    } else {
                        Seq::empty()
                    }) + visit_idents_list(nodes, ch.skip(1), i, false)
                }
            } else if node.kind == NodeKind::WithItem {
                if ch.len() == 2 {
                    (if (ch[0] as int) < i {
                        visit_idents(nodes, ch[0] as int, true)
                    } else {
                        Seq::empty()
                    }) + (if (ch[1] as int) < i {
                        visit_idents(nodes, ch[1] as int, false)
                    } else {
                        Seq::empty()
                    })
                } else {
                    visit_idents_list(nodes, ch, i, false)
                }
            } else if node.kind == NodeKind::Comprehension {
                if ch.len() >= 2 {
                    (if (ch[0] as int) < i {
                        visit_idents(nodes, ch[0] as int, false)
                    } else {
                        Seq::empty()
                    }) + (if (ch[1] as int) < i {
                        visit_idents(nodes, ch[1] as int, true)
                    } else {
                        Seq::empty()
                    }) + visit_idents_list(nodes, ch.skip(2), i, false)
                } else {
                    visit_idents_list(nodes, ch, i, false)
                }
            } else {
                visit_idents_list(nodes, ch, i, false)
            };
            node_own_idents(node) + rest
        }
    }
}

/// The identities interned for a list of subtrees, all rooted below `hi`.
pub open spec fn visit_idents_list(
    nodes: Seq<AstNode>,
    refs: Seq<usize>,
    hi: int,
    target: bool,
) -> Seq<TypeIdent>
    decreases hi, 0int, refs.len(),
{
    if refs.len() == 0 {
        Seq::empty()
    } else {
        visit_idents_list(nodes, refs.drop_last(), hi, target) + (if (refs.last() as int)
            < hi {
            visit_idents(nodes, refs.last() as int, target)
        } else {
            Seq::empty()
        })
    }
}


/// Each parameter's type, and its default's type when present, is among
/// the identities the parameter list interns.
proof fn lemma_params_idents_contains(params: Seq<CallParamShape>, k: int)
    requires
        0 <= k < params.len(),
    ensures
        params_idents(params).contains(params[k].ty),
        params[k].default matches Some(d) ==> params_idents(params).contains(d),
    decreases params.len(),
{
    let pi = params_idents(params);
    let pre = params_idents(params.drop_last());
    if k == params.len() - 1 {
        assert(pi[pre.len() as int] == params[k].ty);
        assert(pi.contains(params[k].ty));
        if let Some(d) = params[k].default {
            assert(pi[pre.len() + 1int] == d);
            assert(pi.contains(d));
        }
    } else {
        lemma_params_idents_contains(params.drop_last(), k);
        assert(params.drop_last()[k] == params[k]);
        let j = choose|j: int| 0 <= j < pre.len() && pre[j] == params[k].ty;
        assert(pi[j] == params[k].ty);
        assert(pi.contains(params[k].ty));
        if let Some(d) = params[k].default {
            let j2 = choose|j2: int| 0 <= j2 < pre.len() && pre[j2] == d;
            assert(pi[j2] == d);
            assert(pi.contains(d));
        }
    }
}

/// The parameter records of a call binding are unchanged by growing the
/// id map, provided the smaller map covers the binding's identities.
proof fn lemma_call_params_map_stable(
    params: Seq<CallParamShape>,
    ids1: Map<TypeIdent, TypeId>,
    ids2: Map<TypeIdent, TypeId>,
)
    requires
        ids1.submap_of(ids2),
        all_in(ids1, params_idents(params)),
    ensures
        params.map_values(|p: CallParamShape| call_param_view(ids1, p)) == params.map_values(
            |p: CallParamShape| call_param_view(ids2, p),
        ),
{
    let pi = params_idents(params);
    assert(params.map_values(|p: CallParamShape| call_param_view(ids1, p)) =~= params.map_values(
        |p: CallParamShape| call_param_view(ids2, p),
    )) by {
        assert forall|k: int| 0 <= k < params.len() implies call_param_view(ids1, params[k])
            == call_param_view(ids2, params[k]) by {
            lemma_params_idents_contains(params, k);
            let j = choose|j: int| 0 <= j < pi.len() && pi[j] == params[k].ty;
            assert(ids1.contains_key(pi[j]));
            lemma_submap_val(ids1, ids2, params[k].ty);
            if let Some(d) = params[k].default {
                let j2 = choose|j2: int| 0 <= j2 < pi.len() && pi[j2] == d;
                assert(ids1.contains_key(pi[j2]));
                lemma_submap_val(ids1, ids2, d);
            }
        }
    }
}

/// A call's encoded signature is unchanged by growing the id map,
/// provided the smaller map covers the call's identities.
proof fn lemma_sig_of_stable(
    call: CallInfo,
    ids1: Map<TypeIdent, TypeId>,
    ids2: Map<TypeIdent, TypeId>,
)
    requires
        ids1.submap_of(ids2),
        all_in(ids1, call_sig_idents(call)),
    ensures
        sig_of(call, ids1) == sig_of(call, ids2),
{
    let bs = call.overloads@;
    let c = chosen_binding(bs);
    if c >= 0 {
        let si = call_sig_idents(call);
        let pi = params_idents(bs[c].params@);
        let targs = bs[c].type_args@;
        assert(si[0] == bs[c].return_ty);
        assert(ids1.contains_key(si[0]));
        lemma_submap_val(ids1, ids2, bs[c].return_ty);
        assert(all_in(ids1, pi)) by {
            assert forall|k: int| 0 <= k < pi.len() implies ids1.contains_key(
                #[trigger] pi[k],
            ) by {
                assert(si[1 + k] == pi[k]);
            }
        }
        lemma_call_params_map_stable(bs[c].params@, ids1, ids2);
        assert(targs.map_values(|t: TypeIdent| ids1[t]) =~= targs.map_values(
            |t: TypeIdent| ids2[t],
        )) by {
            assert forall|k: int| 0 <= k < targs.len() implies ids1[targs[k]] == ids2[
                targs[k]
            ] by {
                assert(si[1 + pi.len() + k] == targs[k]);
                assert(ids1.contains_key(si[1 + pi.len() + k]));
                lemma_submap_val(ids1, ids2, targs[k]);
            }
        }
    }
}

/// A recorded node's attribution is unchanged by growing the id map,
/// provided the smaller map covers the node's own identities.
proof fn lemma_att_of_stable(
    node: AstNode,
    ids1: Map<TypeIdent, TypeId>,
    ids2: Map<TypeIdent, TypeId>,
)
    requires
        ids1.submap_of(ids2),
        !records_nothing(node.kind),
        all_in(ids1, node_own_idents(node)),
    ensures
        att_of(node, ids1) == att_of(node, ids2),
{
    let own = node_own_idents(node);
    let inf = if records_untyped(node.kind) || records_nothing(node.kind) {
        Seq::<TypeIdent>::empty()
    } else {
        opt_ident_seq(node.inferred)
    };
    if !records_untyped(node.kind) {
        if let Some(t) = node.inferred {
            assert(own[0] == t);
            assert(ids1.contains_key(own[0]));
            lemma_submap_val(ids1, ids2, t);
        }
    }
    if node.kind == NodeKind::ExprCall {
        if let Some(c) = node.call {
            assert(all_in(ids1, call_sig_idents(c))) by {
                assert forall|k: int| 0 <= k < call_sig_idents(c).len() implies ids1.contains_key(
                    #[trigger] call_sig_idents(c)[k],
                ) by {
                    assert(own[inf.len() + k] == call_sig_idents(c)[k]);
                }
            }
            lemma_sig_of_stable(c, ids1, ids2);
        }
    }
}

/// The attributions of a subtree are unchanged by growing the id map,
/// provided the smaller map covers everything the subtree interns.
proof fn lemma_visit_atts_stable(
    nodes: Seq<AstNode>,
    ids1: Map<TypeIdent, TypeId>,
    ids2: Map<TypeIdent, TypeId>,
    i: int,
    target: bool,
)
    requires
        ids1.submap_of(ids2),
        all_in(ids1, visit_idents(nodes, i, target)),
    ensures
        visit_atts(nodes, ids1, i, target) == visit_atts(nodes, ids2, i, target),
    decreases i, 1int, 0int,
{
    if !(0 <= i < nodes.len()) {
        return ;
    }
    let node = nodes[i];
    let ch = node.children@;
    if target && (node.kind == NodeKind::ExprList || node.kind == NodeKind::ExprTuple) {
        lemma_visit_atts_list_stable(nodes, ids1, ids2, ch, i, true);
        return ;
    }
    let own = node_own_idents(node);
    let restidents = if node.kind == NodeKind::StmtAssign {
        if ch.len() == 0 {
            Seq::<TypeIdent>::empty()
        } else {
            visit_idents_list(nodes, ch.drop_last(), i, true) + (if (ch.last() as int) < i {
                visit_idents(nodes, ch.last() as int, false)
            } else {
                Seq::empty()
            })
        }
    } else if node.kind == NodeKind::StmtFor {
        if ch.len() == 0 {
            Seq::<TypeIdent>::empty()
        } else {
            (if (ch[0] as int) < i {
                visit_idents(nodes, ch[0] as int, true)
            } else {
                Seq::empty()
            }) + visit_idents_list(nodes, ch.skip(1), i, false)
        }
    } else if node.kind == NodeKind::WithItem {
        if ch.len() == 2 {
            (if (ch[0] as int) < i {
                visit_idents(nodes, ch[0] as int, true)
            } else {
                Seq::empty()
            }) + (if (ch[1] as int) < i {
                visit_idents(nodes, ch[1] as int, false)
            } else {
                Seq::empty()
            })
        } else {
            visit_idents_list(nodes, ch, i, false)
        }
    } else if node.kind == NodeKind::Comprehension {
        if ch.len() >= 2 {
            (if (ch[0] as int) < i {
                visit_idents(nodes, ch[0] as int, false)
            } else {
                Seq::empty()
            }) + (if (ch[1] as int) < i {
                visit_idents(nodes, ch[1] as int, true)
            } else {
                Seq::empty()
            }) + visit_idents_list(nodes, ch.skip(2), i, false)
        } else {
            visit_idents_list(nodes, ch, i, false)
        }
    } else {
        visit_idents_list(nodes, ch, i, false)
    };
    assert(visit_idents(nodes, i, target) == own + restidents);
    lemma_all_in_left(ids1, own, restidents);
    lemma_all_in_right(ids1, own, restidents);
    if !records_nothing(node.kind) {
        lemma_att_of_stable(node, ids1, ids2);
    }
    if node.kind == NodeKind::StmtAssign {
        if ch.len() > 0 {
            let a = visit_idents_list(nodes, ch.drop_last(), i, true);
            let b = if (ch.last() as int) < i {
                visit_idents(nodes, ch.last() as int, false)
            } else {
                Seq::empty()
            };
            lemma_all_in_left(ids1, a, b);
            lemma_all_in_right(ids1, a, b);
            lemma_visit_atts_list_stable(nodes, ids1, ids2, ch.drop_last(), i, true);
            if (ch.last() as int) < i {
                lemma_visit_atts_stable(nodes, ids1, ids2, ch.last() as int, false);
            }
        }
    } else if node.kind == NodeKind::StmtFor {
        if ch.len() > 0 {
            let a = if (ch[0] as int) < i {
                visit_idents(nodes, ch[0] as int, true)
            } else {
                Seq::empty()
            };
            let b = visit_idents_list(nodes, ch.skip(1), i, false);
            lemma_all_in_left(ids1, a, b);
            lemma_all_in_right(ids1, a, b);
            if (ch[0] as int) < i {
                lemma_visit_atts_stable(nodes, ids1, ids2, ch[0] as int, true);
            }
            lemma_visit_atts_list_stable(nodes, ids1, ids2, ch.skip(1), i, false);
        }
    } else if node.kind == NodeKind::WithItem {
        if ch.len() == 2 {
            let a = if (ch[0] as int) < i {
                visit_idents(nodes, ch[0] as int, true)
            } else {
                Seq::empty()
            };
            let b = if (ch[1] as int) < i {
                visit_idents(nodes, ch[1] as int, false)
            } else {
                Seq::empty()
            };
            lemma_all_in_left(ids1, a, b);
            lemma_all_in_right(ids1, a, b);
            if (ch[0] as int) < i {
                lemma_visit_atts_stable(nodes, ids1, ids2, ch[0] as int, true);
            }
            if (ch[1] as int) < i {
                lemma_visit_atts_stable(nodes, ids1, ids2, ch[1] as int, false);
            }
        } else {
            lemma_visit_atts_list_stable(nodes, ids1, ids2, ch, i, false);
        }
    } else if node.kind == NodeKind::Comprehension {
        if ch.len() >= 2 {
            let a = if (ch[0] as int) < i {
                visit_idents(nodes, ch[0] as int, false)
            } else {
                Seq::empty()
            };
            let b = if (ch[1] as int) < i {
                visit_idents(nodes, ch[1] as int, true)
            } else {
                Seq::empty()
            };
            let cseq = visit_idents_list(nodes, ch.skip(2), i, false);
            lemma_all_in_left(ids1, a + b, cseq);
            lemma_all_in_right(ids1, a + b, cseq);
            lemma_all_in_left(ids1, a, b);
            lemma_all_in_right(ids1, a, b);
            assert(restidents == (a + b) + cseq);
            if (ch[0] as int) < i {
                lemma_visit_atts_stable(nodes, ids1, ids2, ch[0] as int, false);
            }
            if (ch[1] as int) < i {
                lemma_visit_atts_stable(nodes, ids1, ids2, ch[1] as int, true);
            }
            lemma_visit_atts_list_stable(nodes, ids1, ids2, ch.skip(2), i, false);
        } else {
            lemma_visit_atts_list_stable(nodes, ids1, ids2, ch, i, false);
        }
    } else {
        lemma_visit_atts_list_stable(nodes, ids1, ids2, ch, i, false);
    }
}

/// List counterpart of [`lemma_visit_atts_stable`].
proof fn lemma_visit_atts_list_stable(
    nodes: Seq<AstNode>,
    ids1: Map<TypeIdent, TypeId>,
    ids2: Map<TypeIdent, TypeId>,
    refs: Seq<usize>,
    hi: int,
    target: bool,
)
    requires
        ids1.submap_of(ids2),
        all_in(ids1, visit_idents_list(nodes, refs, hi, target)),
    ensures
        visit_atts_list(nodes, ids1, refs, hi, target) == visit_atts_list(
            nodes,
            ids2,
            refs,
            hi,
            target,
        ),
    decreases hi, 0int, refs.len(),
{
    if refs.len() == 0 {
        return ;
    }
    let a = visit_idents_list(nodes, refs.drop_last(), hi, target);
    let b = if (refs.last() as int) < hi {
        visit_idents(nodes, refs.last() as int, target)
    } else {
        Seq::empty()
    };
    lemma_all_in_left(ids1, a, b);
    lemma_all_in_right(ids1, a, b);
    lemma_visit_atts_list_stable(nodes, ids1, ids2, refs.drop_last(), hi, target);
    if (refs.last() as int) < hi {
        lemma_visit_atts_stable(nodes, ids1, ids2, refs.last() as int, target);
    }
}


/// View of an attribution list.
pub open spec fn atts_view(s: Seq<NodeAttribution>) -> Seq<AttV> {
    s.map_values(|a: NodeAttribution| a@)
}

/// View of an optional call signature.
pub open spec fn opt_sig_view(r: Option<CallSignatureInfo>) -> Option<SigV> {
    match r {
        Some(s) => Some(s@),
        None => None,
    }
}

/// The id already interned for an identity.
fn id_in(reg: &TypeRegistry, t: TypeIdent) -> (r: TypeId)
    requires
        reg.ids().contains_key(t),
    ensures
        r == reg.ids()[t],
{
    reg.lookup(t).unwrap()
}

/// Maps identities to their interned ids.
fn map_reg_ids(reg: &TypeRegistry, v: &Vec<TypeIdent>) -> (r: Vec<TypeId>)
    requires
        all_in(reg.ids(), v@),
    ensures
        r@ == v@.map_values(|t: TypeIdent| reg.ids()[t]),
{
    let mut r: Vec<TypeId> = Vec::new();
    let mut i: usize = 0;
    while i < v.len()
        invariant
            i <= v.len(),
            all_in(reg.ids(), v@),
            r@ == v@.take(i as int).map_values(|t: TypeIdent| reg.ids()[t]),
        decreases v.len() - i,
    {
        r.push(id_in(reg, v[i]));
        proof {
            v@.lemma_map_take_succ(|t: TypeIdent| reg.ids()[t], i as int);
        }
        i = i + 1;
    }
    proof {
        assert(v@.take(v@.len() as int) =~= v@);
    }
    r
}

/// Builds the parameter records of a resolved call binding; everything
/// the binding mentions must already be interned.
fn build_call_params(reg: &TypeRegistry, params: &Vec<CallParamShape>) -> (r: Vec<ParameterInfo>)
    requires
        all_in(reg.ids(), params_idents(params@)),
    ensures
        r@.map_values(|p: ParameterInfo| p@) == params@.map_values(
            |p: CallParamShape| call_param_view(reg.ids(), p),
        ),
{
    let mut r: Vec<ParameterInfo> = Vec::new();
    let mut i: usize = 0;
    while i < params.len()
        invariant
            i <= params@.len(),
            all_in(reg.ids(), params_idents(params@)),
            r@.map_values(|p: ParameterInfo| p@) == params@.take(i as int).map_values(
                |p: CallParamShape| call_param_view(reg.ids(), p),
            ),
        decreases params@.len() - i,
    {
        let p = &params[i];
        proof {
            lemma_params_idents_contains(params@, i as int);
            let pi = params_idents(params@);
            let j = choose|j: int| 0 <= j < pi.len() && pi[j] == params@[i as int].ty;
            assert(reg.ids().contains_key(pi[j]));
            if let Some(d) = params@[i as int].default {
                let j2 = choose|j2: int| 0 <= j2 < pi.len() && pi[j2] == d;
                assert(reg.ids().contains_key(pi[j2]));
            }
        }
        let type_id = Some(id_in(reg, p.ty));
        let has_default: bool = match p.kind {
            ParamKind::Variadic => false,
            ParamKind::KeywordVariadic => false,
            _ => p.default.is_some(),
        };
        let default_type_id: Option<TypeId> = match p.default {
            Some(d) => Some(id_in(reg, d)),
            None => None,
        };
        let ghost r_prev = r@;
        let rec = ParameterInfo {
            name: p.name.clone(),
            type_id,
            kind: p.kind,
            has_default,
            default_type_id,
        };
        let ghost recg = rec;
        r.push(rec);
        proof {
            r_prev.lemma_push_map_commute(|p: ParameterInfo| p@, recg);
            let f = |p: CallParamShape| call_param_view(reg.ids(), p);
            params@.lemma_map_take_succ(f, i as int);
            assert(recg@ == f(params@[i as int]));
        }
        i = i + 1;
    }
    proof {
        assert(params@.take(params@.len() as int) =~= params@);
    }
    r
}

/// Resolves the signature to attach to one call expression: the first
/// overload that matched the call's arguments, else the first declared
/// one, encoded with every mentioned type interned. `None` only when the
/// oracle resolved no overload at all.
#[verifier::loop_isolation(false)]
pub fn build_call_signature(
    oracle: &OracleTable,
    reg: &mut TypeRegistry,
    call: &CallInfo,
) -> (r: Option<CallSignatureInfo>)
    requires
        old(reg).consistent(oracle@),
    ensures
        final(reg).consistent(oracle@),
        registry_extends(*old(reg), *final(reg)),
        final(reg).mark() == old(reg).mark(),
        all_in(final(reg).ids(), call_sig_idents(*call)),
        opt_sig_view(r) == sig_of(*call, final(reg).ids()),
        r is Some <==> call.overloads@.len() > 0,
{
    let ghost bs = call.overloads@;
    let n = call.overloads.len();
    let mut k: usize = 0;
    let mut choice: usize = 0;
    let mut found: bool = false;
    while k < n
        invariant
            n == bs.len(),
            k <= n,
            !found ==> first_matched(bs, 0) == first_matched(bs, k as int),
            found ==> choice < n && first_matched(bs, 0) == choice as int,
        decreases n - k,
    {
        if !found && call.overloads[k].matched {
            choice = k;
            found = true;
            proof {
                assert(first_matched(bs, k as int) == k as int);
            }
        } else {
            proof {
                if !found {
                    assert(first_matched(bs, k as int) == first_matched(bs, k + 1 as int));
                }
            }
        }
        k = k + 1;
    }
    let c: usize;
    if found {
        c = choice;
    } else if n > 0 {
        c = 0;
        proof {
            assert(first_matched(bs, n as int) == -1);
        }
    } else {
        proof {
            assert(first_matched(bs, 0) == -1);
            assert(chosen_binding(bs) == -1);
            assert(call_sig_idents(*call) =~= Seq::<TypeIdent>::empty());
            lemma_extends_refl(*reg);
        }
        return None;
    }
    proof {
        assert(chosen_binding(bs) == c as int);
    }
    let b = &call.overloads[c];
    let ghost si = call_sig_idents(*call);
    let ghost pi = params_idents(b.params@);

    // First pass: intern the return type, the parameters' types and
    // defaults, then the type arguments, in that order.
    reg.register(oracle, b.return_ty);
    let mut j: usize = 0;
    while j < b.params.len()
        invariant
            j <= b.params@.len(),
            *b == call.overloads@[c as int],
            reg.consistent(oracle@),
            registry_extends(*old(reg), *reg),
            reg.mark() == old(reg).mark(),
            reg.ids().contains_key(b.return_ty),
            all_in(reg.ids(), params_idents(b.params@.take(j as int))),
        decreases b.params@.len() - j,
    {
        let ghost prev = *reg;
        reg.register(oracle, b.params[j].ty);
        match b.params[j].default {
            Some(d) => {
                let ghost mid = *reg;
                reg.register(oracle, d);
                proof {
                    lemma_extends_trans(prev, mid, *reg);
                }
            },
            None => {},
        }
        proof {
            lemma_extends_trans(*old(reg), prev, *reg);
            lemma_submap_val(prev.ids(), reg.ids(), b.return_ty);
            let tk = b.params@.take(j + 1 as int);
            assert(tk.drop_last() =~= b.params@.take(j as int));
            assert(tk.last() == b.params@[j as int]);
            assert forall|x: int|
                0 <= x < params_idents(tk).len() implies reg.ids().contains_key(
                #[trigger] params_idents(tk)[x],
            ) by {
                let prefix = params_idents(b.params@.take(j as int));
                if x < prefix.len() {
                    assert(params_idents(tk)[x] == prefix[x]);
                    assert(prev.ids().contains_key(prefix[x]));
                    lemma_submap_val(prev.ids(), reg.ids(), prefix[x]);
                } else if x == prefix.len() {
                    assert(params_idents(tk)[x] == b.params@[j as int].ty);
                } else {
                    assert(params_idents(tk)[x] == opt_ident_seq(b.params@[j as int].default)[
                        x - prefix.len() - 1
                    ]);
                }
            }
        }
        j = j + 1;
    }
    proof {
        assert(b.params@.take(b.params@.len() as int) =~= b.params@);
    }
    let mut j2: usize = 0;
    while j2 < b.type_args.len()
        invariant
            j2 <= b.type_args@.len(),
            *b == call.overloads@[c as int],
            reg.consistent(oracle@),
            registry_extends(*old(reg), *reg),
            reg.mark() == old(reg).mark(),
            reg.ids().contains_key(b.return_ty),
            all_in(reg.ids(), params_idents(b.params@)),
            all_in(reg.ids(), b.type_args@.take(j2 as int)),
        decreases b.type_args@.len() - j2,
    {
        let ghost prev = *reg;
        reg.register(oracle, b.type_args[j2]);
        proof {
            lemma_extends_trans(*old(reg), prev, *reg);
            lemma_submap_val(prev.ids(), reg.ids(), b.return_ty);
            assert forall|x: int|
                0 <= x < params_idents(b.params@).len() implies reg.ids().contains_key(
                #[trigger] params_idents(b.params@)[x],
            ) by {
                assert(prev.ids().contains_key(params_idents(b.params@)[x]));
                lemma_submap_val(prev.ids(), reg.ids(), params_idents(b.params@)[x]);
            }
            assert forall|x: int|
                0 <= x < j2 + 1 implies reg.ids().contains_key(
                #[trigger] b.type_args@.take(j2 + 1 as int)[x],
            ) by {
                if x < j2 {
                    assert(b.type_args@.take(j2 + 1 as int)[x] == b.type_args@.take(j2 as int)[x]);
                    assert(prev.ids().contains_key(b.type_args@.take(j2 as int)[x]));
                    lemma_submap_val(prev.ids(), reg.ids(), b.type_args@.take(j2 as int)[x]);
                }
            }
        }
        j2 = j2 + 1;
    }
    proof {
        assert(b.type_args@.take(b.type_args@.len() as int) =~= b.type_args@);
        assert(si == seq![b.return_ty] + pi + b.type_args@);
        assert forall|x: int| 0 <= x < si.len() implies reg.ids().contains_key(
            #[trigger] si[x],
        ) by {
            if x == 0 {
                assert(si[0] == b.return_ty);
            } else if x < 1 + pi.len() {
                assert(si[x] == pi[x - 1]);
            } else {
                assert(si[x] == b.type_args@[x - 1 - pi.len()]);
            }
        }
    }

    // Second pass: encode from the now-complete id map.
    let params_out = build_call_params(reg, &b.params);
    let ret_id = id_in(reg, b.return_ty);
    let targs_out = map_reg_ids(reg, &b.type_args);
    let sig = CallSignatureInfo {
        parameters: params_out,
        return_type_id: Some(ret_id),
        type_arguments: targs_out,
    };
    Some(sig)
}


/// Carrying interned identities forward: whatever a registry knows, any
/// state following it knows with the same ids.
proof fn lemma_all_in_extends(prev: TypeRegistry, now: TypeRegistry, s: Seq<TypeIdent>)
    requires
        registry_extends(prev, now),
        all_in(prev.ids(), s),
    ensures
        all_in(now.ids(), s),
{
    assert forall|x: int| 0 <= x < s.len() implies now.ids().contains_key(#[trigger] s[x]) by {
        assert(prev.ids().contains_key(s[x]));
        lemma_submap_val(prev.ids(), now.ids(), s[x]);
    }
}

/// Coverage of a concatenation from coverage of its parts.
proof fn lemma_all_in_concat(ids: Map<TypeIdent, TypeId>, a: Seq<TypeIdent>, b: Seq<TypeIdent>)
    requires
        all_in(ids, a),
        all_in(ids, b),
    ensures
        all_in(ids, a + b),
{
    assert forall|x: int| 0 <= x < (a + b).len() implies ids.contains_key(
        #[trigger] (a + b)[x],
    ) by {
        if x < a.len() {
            assert((a + b)[x] == a[x]);
        } else {
            assert((a + b)[x] == b[x - a.len()]);
        }
    }
}

/// The attribution a node contributes for itself, if any.
pub open spec fn own_atts(node: AstNode, ids: Map<TypeIdent, TypeId>) -> Seq<AttV> {
    if records_nothing(node.kind) {
        Seq::<AttV>::empty()
    } else {
        seq![att_of(node, ids)]
    }
}

/// A node's own contribution is unchanged by growing the id map.
proof fn lemma_own_atts_stable(
    node: AstNode,
    ids1: Map<TypeIdent, TypeId>,
    ids2: Map<TypeIdent, TypeId>,
)
    requires
        ids1.submap_of(ids2),
        all_in(ids1, node_own_idents(node)),
    ensures
        own_atts(node, ids1) == own_atts(node, ids2),
{
    if !records_nothing(node.kind) {
        lemma_att_of_stable(node, ids1, ids2);
    }
}

/// Walks the subtrees `refs[from..to]`, all rooted below `hi`, appending
/// their attributions in order and interning every type they mention.
#[verifier::loop_isolation(false)]
fn visit_list(
    tree: &SyntaxTree,
    oracle: &OracleTable,
    reg: &mut TypeRegistry,
    out: &mut Vec<NodeAttribution>,
    refs: &Vec<usize>,
    from: usize,
    to: usize,
    hi: Ghost<int>,
    target: bool,
)
    requires
        tree.wf(),
        from <= to <= refs@.len(),
        forall|j: int| from <= j < to ==> (#[trigger] refs@[j]) < hi@,
        hi@ <= tree.nodes@.len(),
        old(reg).consistent(oracle@),
    ensures
        final(reg).consistent(oracle@),
        registry_extends(*old(reg), *final(reg)),
        final(reg).mark() == old(reg).mark(),
        all_in(
            final(reg).ids(),
            visit_idents_list(tree.nodes@, refs@.subrange(from as int, to as int), hi@, target),
        ),
        atts_view(final(out)@) == atts_view(old(out)@) + visit_atts_list(
            tree.nodes@,
            final(reg).ids(),
            refs@.subrange(from as int, to as int),
            hi@,
            target,
        ),
    decreases hi@, 0int,
{
    let ghost nodes = tree.nodes@;
    proof {
        lemma_extends_refl(*reg);
        assert(refs@.subrange(from as int, from as int) =~= Seq::<usize>::empty());
        assert(atts_view(out@) =~= atts_view(out@) + visit_atts_list(
            nodes,
            reg.ids(),
            refs@.subrange(from as int, from as int),
            hi@,
            target,
        ));
    }
    let mut k: usize = from;
    while k < to
        invariant
            from <= k <= to,
            reg.consistent(oracle@),
            registry_extends(*old(reg), *reg),
            reg.mark() == old(reg).mark(),
            all_in(
                reg.ids(),
                visit_idents_list(nodes, refs@.subrange(from as int, k as int), hi@, target),
            ),
            atts_view(out@) == atts_view(old(out)@) + visit_atts_list(
                nodes,
                reg.ids(),
                refs@.subrange(from as int, k as int),
                hi@,
                target,
            ),
        decreases to - k,
    {
        let ghost prev = *reg;
        let r = refs[k];
        visit_node(tree, oracle, reg, out, r, target);
        proof {
            lemma_extends_trans(*old(reg), prev, *reg);
            let sub0 = refs@.subrange(from as int, k as int);
            let sub1 = refs@.subrange(from as int, k + 1 as int);
            assert(sub1.drop_last() =~= sub0);
            assert(sub1.last() == refs@[k as int]);
            lemma_all_in_extends(prev, *reg, visit_idents_list(nodes, sub0, hi@, target));
            assert(visit_idents_list(nodes, sub1, hi@, target) == visit_idents_list(
                nodes,
                sub0,
                hi@,
                target,
            ) + visit_idents(nodes, refs@[k as int] as int, target));
            lemma_all_in_concat(
                reg.ids(),
                visit_idents_list(nodes, sub0, hi@, target),
                visit_idents(nodes, refs@[k as int] as int, target),
            );
            lemma_visit_atts_list_stable(nodes, prev.ids(), reg.ids(), sub0, hi@, target);
            assert(atts_view(out@) =~= atts_view(old(out)@) + visit_atts_list(
                nodes,
                reg.ids(),
                sub1,
                hi@,
                target,
            ));
        }
        k = k + 1;
    }
}

/// Walks one subtree, appending its attributions in source order and
/// interning every type it mentions. In target mode a list or tuple node
/// is unwrapped element-wise instead of being attributed as an aggregate.
#[verifier::loop_isolation(false)]
fn visit_node(
    tree: &SyntaxTree,
    oracle: &OracleTable,
    reg: &mut TypeRegistry,
    out: &mut Vec<NodeAttribution>,
    i: usize,
    target: bool,
)
    requires
        tree.wf(),
        i < tree.nodes@.len(),
        old(reg).consistent(oracle@),
    ensures
        final(reg).consistent(oracle@),
        registry_extends(*old(reg), *final(reg)),
        final(reg).mark() == old(reg).mark(),
        all_in(final(reg).ids(), visit_idents(tree.nodes@, i as int, target)),
        atts_view(final(out)@) == atts_view(old(out)@) + visit_atts(
            tree.nodes@,
            final(reg).ids(),
            i as int,
            target,
        ),
    decreases i as int, 1int,
{
    let ghost nodes = tree.nodes@;
    let node = &tree.nodes[i];
    let ghost ch = node.children@;
    proof {
        assert forall|j: int| 0 <= j < ch.len() implies (#[trigger] ch[j]) < i by {
            assert(nodes[i as int].children@[j] < i as int);
        }
    }
    let nch = node.children.len();

    if target && (node.kind == NodeKind::ExprList || node.kind == NodeKind::ExprTuple) {
        visit_list(tree, oracle, reg, out, &node.children, 0, nch, Ghost(i as int), true);
        proof {
            assert(ch.subrange(0, ch.len() as int) =~= ch);
        }
        return ;
    }

    // The node's own attribution, if its kind records one.
    let ghost out0 = out@;
    let untyped = node.kind == NodeKind::StmtAssign || node.kind == NodeKind::StmtFor
        || node.kind == NodeKind::StmtWith;
    let silent = node.kind == NodeKind::StmtOther || node.kind == NodeKind::WithItem
        || node.kind == NodeKind::Comprehension;
    if !silent {
        let type_id: Option<TypeId>;
        if untyped {
            type_id = None;
        } else {
            match node.inferred {
                Some(t) => {
                    let rr = reg.register(oracle, t);
                    type_id = Some(rr.type_id);
                },
                None => {
                    type_id = None;
                },
            }
        }
        let ghost reg1 = *reg;
        let call_signature: Option<CallSignatureInfo>;
        if node.kind == NodeKind::ExprCall {
            match &node.call {
                Some(cinfo) => {
                    let ghost prev = *reg;
                    call_signature = build_call_signature(oracle, reg, cinfo);
                    proof {
                        lemma_extends_trans(*old(reg), prev, *reg);
                    }
                },
                None => {
                    call_signature = None;
                },
            }
        } else {
            call_signature = None;
        }
        proof {
            if !untyped {
                if let Some(t) = node.inferred {
                    assert(reg1.ids().contains_key(t));
                    lemma_submap_val(reg1.ids(), reg.ids(), t);
                }
            }
            // Every identity of the node's own record is now interned.
            let inf = if records_untyped(node.kind) || records_nothing(node.kind) {
                Seq::<TypeIdent>::empty()
            } else {
                opt_ident_seq(node.inferred)
            };
            let sigids = if node.kind == NodeKind::ExprCall {
                match &node.call {
                    Some(c) => call_sig_idents(*c),
                    None => Seq::<TypeIdent>::empty(),
                }
            } else {
                Seq::<TypeIdent>::empty()
            };
            assert(all_in(reg.ids(), inf)) by {
                assert forall|x: int| 0 <= x < inf.len() implies reg.ids().contains_key(
                    #[trigger] inf[x],
                ) by {
                    assert(inf[0] == node.inferred.unwrap());
                }
            }
            assert(all_in(reg.ids(), sigids)) by {
                if node.kind == NodeKind::ExprCall {
                    if node.call is None {
                        assert(sigids.len() == 0);
                    }
                }
            }
            lemma_all_in_concat(reg.ids(), inf, sigids);
            assert(node_own_idents(*node) == inf + sigids);
        }
        let rec = NodeAttribution {
            start: node.start,
            end: node.end,
            node_kind: kind_name(node.kind),
            type_id,
            call_signature,
        };
        let ghost recg = rec;
        out.push(rec);
        proof {
            out0.lemma_push_map_commute(|a: NodeAttribution| a@, recg);
            assert(recg@ == att_of(*node, reg.ids()));
            assert(atts_view(out@) =~= atts_view(out0) + own_atts(*node, reg.ids()));
        }
    } else {
        proof {
            assert(node_own_idents(*node) =~= Seq::<TypeIdent>::empty());
            assert(atts_view(out@) =~= atts_view(out0) + own_atts(*node, reg.ids()));
        }
    }
    let ghost rega = *reg;

    // The node's parts, with binding targets unwrapped.
    if node.kind == NodeKind::StmtAssign && nch > 0 {
        let ghost preva = *reg;
        visit_list(tree, oracle, reg, out, &node.children, 0, nch - 1, Ghost(i as int), true);
        let ghost prevb = *reg;
        let lastc = node.children[nch - 1];
        visit_node(tree, oracle, reg, out, lastc, false);
        proof {
            lemma_extends_trans(rega, prevb, *reg);
            lemma_extends_trans(*old(reg), rega, *reg);
            assert(ch.subrange(0, nch - 1 as int) =~= ch.drop_last());
            let a = visit_idents_list(nodes, ch.drop_last(), i as int, true);
            let b = visit_idents(nodes, ch.last() as int, false);
            lemma_all_in_extends(prevb, *reg, a);
            lemma_all_in_extends(rega, *reg, node_own_idents(*node));
            lemma_all_in_concat(reg.ids(), a, b);
            lemma_all_in_concat(reg.ids(), node_own_idents(*node), a + b);
            assert(visit_idents(nodes, i as int, target) == node_own_idents(*node) + (a + b));
            lemma_own_atts_stable(*node, rega.ids(), reg.ids());
            lemma_visit_atts_list_stable(
                nodes,
                prevb.ids(),
                reg.ids(),
                ch.drop_last(),
                i as int,
                true,
            );
            assert(atts_view(out@) =~= atts_view(out0) + visit_atts(
                nodes,
                reg.ids(),
                i as int,
                target,
            ));
        }
    } else if node.kind == NodeKind::StmtFor && nch > 0 {
        let ghost preva = *reg;
        let firstc = node.children[0];
        visit_node(tree, oracle, reg, out, firstc, true);
        let ghost prevb = *reg;
        visit_list(tree, oracle, reg, out, &node.children, 1, nch, Ghost(i as int), false);
        proof {
            lemma_extends_trans(rega, prevb, *reg);
            lemma_extends_trans(*old(reg), rega, *reg);
            assert(ch.subrange(1, nch as int) =~= ch.skip(1));
            let a = visit_idents(nodes, ch[0] as int, true);
            let b = visit_idents_list(nodes, ch.skip(1), i as int, false);
            lemma_all_in_extends(prevb, *reg, a);
            lemma_all_in_extends(rega, *reg, node_own_idents(*node));
            lemma_all_in_concat(reg.ids(), a, b);
            lemma_all_in_concat(reg.ids(), node_own_idents(*node), a + b);
            assert(visit_idents(nodes, i as int, target) == node_own_idents(*node) + (a + b));
            lemma_own_atts_stable(*node, rega.ids(), reg.ids());
            lemma_visit_atts_stable(nodes, prevb.ids(), reg.ids(), ch[0] as int, true);
            assert(atts_view(out@) =~= atts_view(out0) + visit_atts(
                nodes,
                reg.ids(),
                i as int,
                target,
            ));
        }
    } else if node.kind == NodeKind::WithItem && nch == 2 {
        let ghost preva = *reg;
        let c0 = node.children[0];
        visit_node(tree, oracle, reg, out, c0, true);
        let ghost prevb = *reg;
        let c1 = node.children[1];
        visit_node(tree, oracle, reg, out, c1, false);
        proof {
            lemma_extends_trans(rega, prevb, *reg);
            lemma_extends_trans(*old(reg), rega, *reg);
            let a = visit_idents(nodes, ch[0] as int, true);
            let b = visit_idents(nodes, ch[1] as int, false);
            lemma_all_in_extends(prevb, *reg, a);
            lemma_all_in_extends(rega, *reg, node_own_idents(*node));
            lemma_all_in_concat(reg.ids(), a, b);
            lemma_all_in_concat(reg.ids(), node_own_idents(*node), a + b);
            assert(visit_idents(nodes, i as int, target) == node_own_idents(*node) + (a + b));
            lemma_own_atts_stable(*node, rega.ids(), reg.ids());
            lemma_visit_atts_stable(nodes, prevb.ids(), reg.ids(), ch[0] as int, true);
            assert(atts_view(out@) =~= atts_view(out0) + visit_atts(
                nodes,
                reg.ids(),
                i as int,
                target,
            ));
        }
    } else if node.kind == NodeKind::Comprehension && nch >= 2 {
        let ghost preva = *reg;
        let c0 = node.children[0];
        visit_node(tree, oracle, reg, out, c0, false);
        let ghost prevb = *reg;
        let c1 = node.children[1];
        visit_node(tree, oracle, reg, out, c1, true);
        let ghost prevc = *reg;
        visit_list(tree, oracle, reg, out, &node.children, 2, nch, Ghost(i as int), false);
        proof {
            lemma_extends_trans(prevb, prevc, *reg);
            lemma_extends_trans(rega, prevb, *reg);
            lemma_extends_trans(*old(reg), rega, *reg);
            assert(ch.subrange(2, nch as int) =~= ch.skip(2));
            let a = visit_idents(nodes, ch[0] as int, false);
            let b = visit_idents(nodes, ch[1] as int, true);
            let cs = visit_idents_list(nodes, ch.skip(2), i as int, false);
            lemma_all_in_extends(prevb, *reg, a);
            lemma_all_in_extends(prevc, *reg, b);
            lemma_all_in_extends(rega, *reg, node_own_idents(*node));
            lemma_all_in_concat(reg.ids(), a, b);
            lemma_all_in_concat(reg.ids(), a + b, cs);
            lemma_all_in_concat(reg.ids(), node_own_idents(*node), (a + b) + cs);
            assert(visit_idents(nodes, i as int, target) == node_own_idents(*node) + ((a + b)
                + cs));
            lemma_own_atts_stable(*node, rega.ids(), reg.ids());
            lemma_visit_atts_stable(nodes, prevb.ids(), reg.ids(), ch[0] as int, false);
            lemma_visit_atts_stable(nodes, prevc.ids(), reg.ids(), ch[1] as int, true);
            assert(atts_view(out@) =~= atts_view(out0) + visit_atts(
                nodes,
                reg.ids(),
                i as int,
                target,
            ));
        }
    } else {
        let ghost preva = *reg;
        visit_list(tree, oracle, reg, out, &node.children, 0, nch, Ghost(i as int), false);
        proof {
            lemma_extends_trans(*old(reg), preva, *reg);
            assert(ch.subrange(0, nch as int) =~= ch);
            let b = visit_idents_list(nodes, ch, i as int, false);
            lemma_all_in_extends(rega, *reg, node_own_idents(*node));
            lemma_all_in_concat(reg.ids(), node_own_idents(*node), b);
            assert(visit_idents(nodes, i as int, target) == node_own_idents(*node) + b);
            lemma_own_atts_stable(*node, rega.ids(), reg.ids());
            assert(atts_view(out@) =~= atts_view(out0) + visit_atts(
                nodes,
                reg.ids(),
                i as int,
                target,
            ));
        }
    }
}

/// What one walk hands back: the attributions in source order, and the
/// descriptors of exactly the types first interned during this walk.
pub struct CollectionResult {
    pub nodes: Vec<NodeAttribution>,
    pub new_types: Vec<(TypeId, TypeDescriptor)>,
}

/// The attributions of a whole module, in source order.
pub open spec fn tree_atts(tree: SyntaxTree, ids: Map<TypeIdent, TypeId>) -> Seq<AttV> {
    visit_atts_list(tree.nodes@, ids, tree.roots@, tree.nodes@.len() as int, false)
}

/// Every identity a whole module mentions, in interning order.
pub open spec fn tree_idents(tree: SyntaxTree) -> Seq<TypeIdent> {
    visit_idents_list(tree.nodes@, tree.roots@, tree.nodes@.len() as int, false)
}


/// A module's attributions are unchanged by growing the id map, provided
/// the smaller map covers everything the module mentions.
pub proof fn lemma_tree_atts_stable(
    tree: SyntaxTree,
    ids1: Map<TypeIdent, TypeId>,
    ids2: Map<TypeIdent, TypeId>,
)
    requires
        ids1.submap_of(ids2),
        all_in(ids1, tree_idents(tree)),
    ensures
        tree_atts(tree, ids1) == tree_atts(tree, ids2),
{
    lemma_visit_atts_list_stable(
        tree.nodes@,
        ids1,
        ids2,
        tree.roots@,
        tree.nodes@.len() as int,
        false,
    );
}

/// Walks one module against the shared registry: attributes every node in
/// source order, interning each type on first sight, and returns along
/// with the attributions exactly the descriptors newly interned during
/// this walk — each id past the registry's previous extent, in order.
#[verifier::loop_isolation(false)]
pub fn collect_types(
    tree: &SyntaxTree,
    oracle: &OracleTable,
    registry: &mut TypeRegistry,
) -> (r: CollectionResult)
    requires
        tree.wf(),
        old(registry).consistent(oracle@),
    ensures
        final(registry).consistent(oracle@),
        registry_extends(*old(registry), *final(registry)),
        final(registry).mark() == final(registry).descs().len(),
        all_in(final(registry).ids(), tree_idents(*tree)),
        atts_view(r.nodes@) == tree_atts(*tree, final(registry).ids()),
        r.new_types@.len() == final(registry).descs().len() - old(registry).descs().len(),
        forall|j: int|
            0 <= j < r.new_types@.len() ==> (#[trigger] r.new_types@[j]).0 == old(
                registry,
            ).descs().len() + 1 + j && r.new_types@[j].1@ == final(registry).descs()[old(
                registry,
            ).descs().len() + j],
{
    let ghost entry_state = *registry;
    registry.start_tracking();
    proof {
        crate::registry::lemma_consistent_same_core(entry_state, *registry, oracle@);
    }
    let mut out: Vec<NodeAttribution> = Vec::new();
    proof {
        assert(atts_view(out@) =~= Seq::<AttV>::empty());
    }
    visit_list(
        tree,
        oracle,
        registry,
        &mut out,
        &tree.roots,
        0,
        tree.roots.len(),
        Ghost(tree.nodes@.len() as int),
        false,
    );
    proof {
        assert(tree.roots@.subrange(0, tree.roots@.len() as int) =~= tree.roots@);
        assert(atts_view(out@) =~= tree_atts(*tree, registry.ids()));
    }
    let ghost before_drain = *registry;
    let new_types = registry.drain_new_types();
    proof {
        crate::registry::lemma_consistent_same_core(before_drain, *registry, oracle@);
    }
    CollectionResult { nodes: out, new_types }
}

} // verus!
