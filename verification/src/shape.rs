//! The modeled semantic oracle.
//!
//! The oracle interns types: each distinct type is known by an opaque
//! identity. Two occurrences of the same type, from any file or request,
//! carry the same identity. A table maps each identity to a display label
//! and a structural shape whose components are again identities.

use std::collections::HashMap;
use vstd::prelude::*;

use crate::protocol::ParamKind;

verus! {

/// An opaque type identity handed out by the oracle.
pub type TypeIdent = u64;

/// A formal parameter of a function-literal signature.
pub struct FnParamShape {
    pub name: String,
    /// The declared (annotated) type. A fully dynamic annotation marks
    /// the parameter as untyped.
    pub annotated: TypeIdent,
    pub kind: ParamKind,
    pub has_default: bool,
}

/// One overload of a function literal.
pub struct SigShape {
    pub params: Vec<FnParamShape>,
    pub return_ty: TypeIdent,
}

/// A directly declared class member.
pub struct MemberShape {
    pub name: String,
    pub ty: TypeIdent,
}

/// One field of a `TypedDict`.
pub struct FieldShape {
    pub name: String,
    pub ty: TypeIdent,
    pub required: bool,
    pub read_only: bool,
}

/// The structural shape of one type, as the oracle reports it.
pub enum TypeShape {
    Dynamic { dynamic_kind: String },
    Never,
    IntLiteral { value: i64 },
    BoolLiteral { value: bool },
    StringLiteral { value: String },
    BytesLiteral { value: String },
    LiteralString,
    EnumLiteral { class_name: String, member_name: String },
    Truthy,
    Falsy,
    Union { members: Vec<TypeIdent> },
    Intersection { positive: Vec<TypeIdent>, negative: Vec<TypeIdent> },
    Instance {
        class_name: String,
        module_name: Option<String>,
        type_args: Vec<TypeIdent>,
        supertypes: Vec<TypeIdent>,
        /// The backing class literal; absent for synthesized protocols.
        class_ident: Option<TypeIdent>,
    },
    ClassLiteral {
        class_name: String,
        module_name: Option<String>,
        type_params: Vec<TypeIdent>,
        supertypes: Vec<TypeIdent>,
        members: Vec<MemberShape>,
    },
    SubclassOf {
        /// The concrete base class; absent when the base is itself
        /// dynamic or unresolvable, in which case the descriptor refers
        /// to the subclass-of type itself.
        class_ident: Option<TypeIdent>,
    },
    Function {
        name: String,
        module_name: Option<String>,
        type_params: Vec<TypeIdent>,
        overloads: Vec<SigShape>,
    },
    Callable,
    BoundMethod {
        /// The underlying function literal; absent for builtin bound
        /// methods without a stable signature.
        function: Option<TypeIdent>,
    },
    Module { module_name: String },
    TypeVar {
        name: String,
        variance: String,
        bound: Option<TypeIdent>,
        constraints: Option<Vec<TypeIdent>>,
    },
    TypeAlias { name: String },
    TypedDict { name: String, fields: Vec<FieldShape> },
    TypeIs { narrowed: TypeIdent },
    TypeGuard { guarded: TypeIdent },
    NewType { name: String, base: TypeIdent },
    SpecialForm { name: String },
    Property,
    Other,
}

/// What the oracle knows of one identity: a display label and a shape.
pub struct TypeEntry {
    pub display: String,
    pub shape: TypeShape,
}

/// The oracle's identity table. Append-only: an identity, once present,
/// always keeps the entry it was first given.
pub struct OracleTable {
    table: HashMap<TypeIdent, TypeEntry>,
}

impl View for OracleTable {
    type V = Map<TypeIdent, TypeEntry>;

    closed spec fn view(&self) -> Map<TypeIdent, TypeEntry> {
        self.table@
    }
}

impl OracleTable {
    /// An empty table.
    pub fn new() -> (t: Self)
        ensures
            t@ == Map::<TypeIdent, TypeEntry>::empty(),
    {
        OracleTable { table: HashMap::new() }
    }

    /// Whether the table knows this identity.
    pub fn contains(&self, ident: TypeIdent) -> (r: bool)
        ensures
            r == self@.contains_key(ident),
    {
        self.table.contains_key(&ident)
    }

    /// The entry for an identity, if any.
    pub fn get(&self, ident: TypeIdent) -> (r: Option<&TypeEntry>)
        ensures
            match r {
                Some(e) => self@.contains_key(ident) && *e == self@[ident],
                None => !self@.contains_key(ident),
            },
    {
        self.table.get(&ident)
    }

    /// Records an entry for a fresh identity; an identity already present
    /// keeps its first entry.
    pub fn insert_first(&mut self, ident: TypeIdent, entry: TypeEntry)
        ensures
            final(self)@ == if old(self)@.contains_key(ident) {
                old(self)@
            } else {
                old(self)@.insert(ident, entry)
            },
    {
        if !self.table.contains_key(&ident) {
            self.table.insert(ident, entry);
        }
    }
}


/// The oracle table knows finitely many identities.
pub proof fn lemma_table_dom_finite(t: &OracleTable)
    ensures
        t@.dom().finite(),
{
    assert(t.table@.dom().finite());
}

/// An optional identity as a (zero- or one-element) component list.
pub open spec fn opt_ident_seq(o: Option<TypeIdent>) -> Seq<TypeIdent> {
    match o {
        Some(t) => seq![t],
        None => Seq::empty(),
    }
}

/// Whether an identity names a fully dynamic type.
pub open spec fn is_dynamic(oracle: Map<TypeIdent, TypeEntry>, t: TypeIdent) -> bool {
    oracle.contains_key(t) && (oracle[t].shape matches TypeShape::Dynamic { .. })
}

/// The identities a parameter list contributes: each parameter's declared
/// type, in order, leaving out fully dynamic annotations.
pub open spec fn params_components(
    oracle: Map<TypeIdent, TypeEntry>,
    params: Seq<FnParamShape>,
) -> Seq<TypeIdent>
    decreases params.len(),
{
    if params.len() == 0 {
        Seq::empty()
    } else {
        params_components(oracle, params.drop_last()) + (if is_dynamic(
            oracle,
            params.last().annotated,
        ) {
            Seq::<TypeIdent>::empty()
        } else {
            seq![params.last().annotated]
        })
    }
}

/// The identities the first overload of a callable contributes: its
/// parameters' declared types, then its return type, each left out when
/// fully dynamic. Later overloads are not encoded.
pub open spec fn sig_components(
    oracle: Map<TypeIdent, TypeEntry>,
    overloads: Seq<SigShape>,
) -> Seq<TypeIdent> {
    if overloads.len() == 0 {
        Seq::empty()
    } else {
        params_components(oracle, overloads[0].params@) + (if is_dynamic(
            oracle,
            overloads[0].return_ty,
        ) {
            Seq::<TypeIdent>::empty()
        } else {
            seq![overloads[0].return_ty]
        })
    }
}

/// The identities a function-literal identity contributes when encoded as
/// a callable: its type parameters, then its first overload's components.
pub open spec fn function_like_components(
    oracle: Map<TypeIdent, TypeEntry>,
    f: TypeIdent,
) -> Seq<TypeIdent> {
    if oracle.contains_key(f) {
        match oracle[f].shape {
            TypeShape::Function { type_params, overloads, .. } => type_params@ + sig_components(
                oracle,
                overloads@,
            ),
            _ => Seq::empty(),
        }
    } else {
        Seq::empty()
    }
}

/// The component identities of one identity's shape, in the order the
/// registry interns them while building the identity's descriptor.
pub open spec fn shape_components(
    oracle: Map<TypeIdent, TypeEntry>,
    ident: TypeIdent,
) -> Seq<TypeIdent> {
    if !oracle.contains_key(ident) {
        Seq::empty()
    } else {
        match oracle[ident].shape {
            TypeShape::Union { members } => members@,
            TypeShape::Intersection { positive, negative } => positive@ + negative@,
            TypeShape::Instance { type_args, supertypes, class_ident, .. } => type_args@
                + supertypes@ + opt_ident_seq(class_ident),
            TypeShape::ClassLiteral { type_params, supertypes, members, .. } => type_params@
                + supertypes@ + members@.map_values(|m: MemberShape| m.ty),
            TypeShape::SubclassOf { class_ident } => opt_ident_seq(class_ident),
            TypeShape::Function { type_params, overloads, .. } => type_params@ + sig_components(
                oracle,
                overloads@,
            ),
            TypeShape::BoundMethod { function } => match function {
                Some(f) => if oracle.contains_key(f) {
                    function_like_components(oracle, f)
                } else {
                    seq![f]
                },
                None => Seq::empty(),
            },
            TypeShape::TypeVar { bound, constraints, .. } => opt_ident_seq(bound) + (match constraints {
                Some(c) => c@,
                None => Seq::<TypeIdent>::empty(),
            }),
            TypeShape::TypedDict { fields, .. } => fields@.map_values(|f: FieldShape| f.ty),
            TypeShape::TypeIs { narrowed } => seq![narrowed],
            TypeShape::TypeGuard { guarded } => seq![guarded],
            TypeShape::NewType { base, .. } => seq![base],
            _ => Seq::empty(),
        }
    }
}

/// Whether an identity names a fully dynamic type (runtime counterpart
/// of [`is_dynamic`]).
pub fn check_dynamic(oracle: &OracleTable, t: TypeIdent) -> (r: bool)
    ensures
        r == is_dynamic(oracle@, t),
{
    match oracle.get(t) {
        Some(e) => match &e.shape {
            TypeShape::Dynamic { .. } => true,
            _ => false,
        },
        None => false,
    }
}

} // verus!
