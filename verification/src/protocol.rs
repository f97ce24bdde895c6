//! Wire-level records: request parameters, result payloads, node
//! attributions, call signatures and the structural type descriptors.
//!
//! Each record has a spec-level view (`@`) over mathematical types; all
//! contracts in this crate speak of those views.

use vstd::prelude::*;

verus! {

/// A session-scoped identifier for a distinct type. Ids start at 1;
/// 0 is reserved to mean "no type was inferred for this node".
pub type TypeId = usize;

/// JSON-RPC error payload.
pub struct JsonRpcError {
    pub code: i64,
    pub message: String,
}

/// Parameters of the `initialize` request.
pub struct InitializeParams {
    pub project_root: String,
}

/// Parameters of the `getTypes` request.
pub struct GetTypesParams {
    pub file: String,
    pub include_display: bool,
}

/// Default for the `includeDisplay` flag of `getTypes`: display strings
/// are sent unless the client asks otherwise.
pub fn default_true() -> (b: bool)
    ensures
        b,
{
    true
}

/// Result payload of a successful `initialize`.
pub struct InitializeResult {
    pub ok: bool,
}

/// How a formal parameter binds its arguments.
#[derive(Clone, Copy, PartialEq, Eq, Structural)]
pub enum ParamKind {
    PositionalOnly,
    PositionalOrKeyword,
    Variadic,
    KeywordOnly,
    KeywordVariadic,
}

/// The wire spelling of a parameter kind.
pub open spec fn spec_param_kind_label(k: ParamKind) -> Seq<char> {
    match k {
        ParamKind::PositionalOnly => "positionalOnly"@,
        ParamKind::PositionalOrKeyword => "positionalOrKeyword"@,
        ParamKind::Variadic => "variadic"@,
        ParamKind::KeywordOnly => "keywordOnly"@,
        ParamKind::KeywordVariadic => "keywordVariadic"@,
    }
}

/// Renders a parameter kind as its wire spelling.
pub fn param_kind_label(k: ParamKind) -> (r: String)
    ensures
        r@ == spec_param_kind_label(k),
{
    match k {
        ParamKind::PositionalOnly => "positionalOnly".to_owned(),
        ParamKind::PositionalOrKeyword => "positionalOrKeyword".to_owned(),
        ParamKind::Variadic => "variadic".to_owned(),
        ParamKind::KeywordOnly => "keywordOnly".to_owned(),
        ParamKind::KeywordVariadic => "keywordVariadic".to_owned(),
    }
}

/// One formal parameter of a function descriptor or call signature.
pub struct ParameterInfo {
    pub name: String,
    /// Absent when the declared type is fully dynamic, so an untyped
    /// parameter stays distinguishable from one typed `Any`.
    pub type_id: Option<TypeId>,
    pub kind: ParamKind,
    pub has_default: bool,
    /// Only call signatures carry the default's own type id.
    pub default_type_id: Option<TypeId>,
}

pub ghost struct ParamV {
    pub name: Seq<char>,
    pub type_id: Option<TypeId>,
    pub kind: ParamKind,
    pub has_default: bool,
    pub default_type_id: Option<TypeId>,
}

impl View for ParameterInfo {
    type V = ParamV;

    open spec fn view(&self) -> ParamV {
        ParamV {
            name: self.name@,
            type_id: self.type_id,
            kind: self.kind,
            has_default: self.has_default,
            default_type_id: self.default_type_id,
        }
    }
}

/// A directly declared member of a class, with its type id.
pub struct ClassMemberInfo {
    pub name: String,
    pub type_id: TypeId,
}

pub ghost struct MemberV {
    pub name: Seq<char>,
    pub type_id: TypeId,
}

impl View for ClassMemberInfo {
    type V = MemberV;

    open spec fn view(&self) -> MemberV {
        MemberV { name: self.name@, type_id: self.type_id }
    }
}

/// One field of a `TypedDict`.
pub struct TypedDictFieldInfo {
    pub name: String,
    pub type_id: TypeId,
    pub required: bool,
    pub read_only: bool,
}

pub ghost struct FieldV {
    pub name: Seq<char>,
    pub type_id: TypeId,
    pub required: bool,
    pub read_only: bool,
}

impl View for TypedDictFieldInfo {
    type V = FieldV;

    open spec fn view(&self) -> FieldV {
        FieldV {
            name: self.name@,
            type_id: self.type_id,
            required: self.required,
            read_only: self.read_only,
        }
    }
}

/// The resolved signature of one specific call expression.
pub struct CallSignatureInfo {
    pub parameters: Vec<ParameterInfo>,
    pub return_type_id: Option<TypeId>,
    /// One id per type variable resolved for this call, in declaration
    /// order; empty when the callable is not generic.
    pub type_arguments: Vec<TypeId>,
}

pub ghost struct SigV {
    pub parameters: Seq<ParamV>,
    pub return_type_id: Option<TypeId>,
    pub type_arguments: Seq<TypeId>,
}

impl View for CallSignatureInfo {
    type V = SigV;

    open spec fn view(&self) -> SigV {
        SigV {
            parameters: self.parameters@.map_values(|p: ParameterInfo| p@),
            return_type_id: self.return_type_id,
            type_arguments: self.type_arguments@,
        }
    }
}

/// The record linking one syntax node's source range to its inferred type
/// and, for calls, its resolved signature.
pub struct NodeAttribution {
    pub start: u32,
    pub end: u32,
    pub node_kind: String,
    pub type_id: Option<TypeId>,
    pub call_signature: Option<CallSignatureInfo>,
}

pub ghost struct AttV {
    pub start: u32,
    pub end: u32,
    pub node_kind: Seq<char>,
    pub type_id: Option<TypeId>,
    pub call_signature: Option<SigV>,
}

impl View for NodeAttribution {
    type V = AttV;

    open spec fn view(&self) -> AttV {
        AttV {
            start: self.start,
            end: self.end,
            node_kind: self.node_kind@,
            type_id: self.type_id,
            call_signature: match self.call_signature {
                Some(s) => Some(s@),
                None => None,
            },
        }
    }
}

/// The structural, id-referencing encoding of one distinct type.
pub enum TypeDescriptor {
    Instance {
        display: Option<String>,
        class_name: String,
        module_name: Option<String>,
        supertypes: Vec<TypeId>,
        type_args: Vec<TypeId>,
        class_id: Option<TypeId>,
    },
    ClassLiteral {
        display: Option<String>,
        class_name: String,
        module_name: Option<String>,
        type_parameters: Vec<TypeId>,
        supertypes: Vec<TypeId>,
        members: Vec<ClassMemberInfo>,
    },
    SubclassOf { display: Option<String>, base: TypeId },
    Union { display: Option<String>, members: Vec<TypeId> },
    Intersection { display: Option<String>, positive: Vec<TypeId>, negative: Vec<TypeId> },
    Function {
        display: Option<String>,
        name: String,
        module_name: Option<String>,
        type_parameters: Vec<TypeId>,
        parameters: Vec<ParameterInfo>,
        return_type: Option<TypeId>,
    },
    Callable { display: Option<String> },
    BoundMethod {
        display: Option<String>,
        name: Option<String>,
        module_name: Option<String>,
        type_parameters: Vec<TypeId>,
        parameters: Vec<ParameterInfo>,
        return_type: Option<TypeId>,
    },
    IntLiteral { display: Option<String>, value: i64 },
    BoolLiteral { display: Option<String>, value: bool },
    StringLiteral { display: Option<String>, value: String },
    BytesLiteral { display: Option<String>, value: String },
    EnumLiteral { display: Option<String>, class_name: String, member_name: String },
    LiteralString { display: Option<String> },
    Dynamic { display: Option<String>, dynamic_kind: String },
    Never { display: Option<String> },
    Truthy { display: Option<String> },
    Falsy { display: Option<String> },
    TypeVar {
        display: Option<String>,
        name: String,
        variance: String,
        upper_bound: Option<TypeId>,
        constraints: Option<Vec<TypeId>>,
    },
    Module { display: Option<String>, module_name: String },
    TypeAlias { display: Option<String>, name: String },
    TypedDict { display: Option<String>, name: String, fields: Vec<TypedDictFieldInfo> },
    TypeIs { display: Option<String>, narrowed_type: TypeId },
    TypeGuard { display: Option<String>, guarded_type: TypeId },
    NewType { display: Option<String>, name: String, base_type: TypeId },
    SpecialForm { display: Option<String>, name: String },
    Property { display: Option<String> },
    Other { display: Option<String> },
}

pub ghost enum DescV {
    Instance {
        display: Option<Seq<char>>,
        class_name: Seq<char>,
        module_name: Option<Seq<char>>,
        supertypes: Seq<TypeId>,
        type_args: Seq<TypeId>,
        class_id: Option<TypeId>,
    },
    ClassLiteral {
        display: Option<Seq<char>>,
        class_name: Seq<char>,
        module_name: Option<Seq<char>>,
        type_parameters: Seq<TypeId>,
        supertypes: Seq<TypeId>,
        members: Seq<MemberV>,
    },
    SubclassOf { display: Option<Seq<char>>, base: TypeId },
    Union { display: Option<Seq<char>>, members: Seq<TypeId> },
    Intersection { display: Option<Seq<char>>, positive: Seq<TypeId>, negative: Seq<TypeId> },
    Function {
        display: Option<Seq<char>>,
        name: Seq<char>,
        module_name: Option<Seq<char>>,
        type_parameters: Seq<TypeId>,
        parameters: Seq<ParamV>,
        return_type: Option<TypeId>,
    },
    Callable { display: Option<Seq<char>> },
    BoundMethod {
        display: Option<Seq<char>>,
        name: Option<Seq<char>>,
        module_name: Option<Seq<char>>,
        type_parameters: Seq<TypeId>,
        parameters: Seq<ParamV>,
        return_type: Option<TypeId>,
    },
    IntLiteral { display: Option<Seq<char>>, value: i64 },
    BoolLiteral { display: Option<Seq<char>>, value: bool },
    StringLiteral { display: Option<Seq<char>>, value: Seq<char> },
    BytesLiteral { display: Option<Seq<char>>, value: Seq<char> },
    EnumLiteral { display: Option<Seq<char>>, class_name: Seq<char>, member_name: Seq<char> },
    LiteralString { display: Option<Seq<char>> },
    Dynamic { display: Option<Seq<char>>, dynamic_kind: Seq<char> },
    Never { display: Option<Seq<char>> },
    Truthy { display: Option<Seq<char>> },
    Falsy { display: Option<Seq<char>> },
    TypeVar {
        display: Option<Seq<char>>,
        name: Seq<char>,
        variance: Seq<char>,
        upper_bound: Option<TypeId>,
        constraints: Option<Seq<TypeId>>,
    },
    Module { display: Option<Seq<char>>, module_name: Seq<char> },
    TypeAlias { display: Option<Seq<char>>, name: Seq<char> },
    TypedDict { display: Option<Seq<char>>, name: Seq<char>, fields: Seq<FieldV> },
    TypeIs { display: Option<Seq<char>>, narrowed_type: TypeId },
    TypeGuard { display: Option<Seq<char>>, guarded_type: TypeId },
    NewType { display: Option<Seq<char>>, name: Seq<char>, base_type: TypeId },
    SpecialForm { display: Option<Seq<char>>, name: Seq<char> },
    Property { display: Option<Seq<char>> },
    Other { display: Option<Seq<char>> },
}

/// View of an optional owned string.
pub open spec fn opt_str_view(o: Option<String>) -> Option<Seq<char>> {
    match o {
        Some(s) => Some(s@),
        None => None,
    }
}

/// View of an optional id list.
pub open spec fn opt_ids_view(o: Option<Vec<TypeId>>) -> Option<Seq<TypeId>> {
    match o {
        Some(v) => Some(v@),
        None => None,
    }
}

impl View for TypeDescriptor {
    type V = DescV;

    open spec fn view(&self) -> DescV {
        match self {
            TypeDescriptor::Instance { display, class_name, module_name, supertypes, type_args, class_id } => DescV::Instance {
                display: opt_str_view(*display),
                class_name: class_name@,
                module_name: opt_str_view(*module_name),
                supertypes: supertypes@,
                type_args: type_args@,
                class_id: *class_id,
            },
            TypeDescriptor::ClassLiteral { display, class_name, module_name, type_parameters, supertypes, members } => DescV::ClassLiteral {
                display: opt_str_view(*display),
                class_name: class_name@,
                module_name: opt_str_view(*module_name),
                type_parameters: type_parameters@,
                supertypes: supertypes@,
                members: members@.map_values(|m: ClassMemberInfo| m@),
            },
            TypeDescriptor::SubclassOf { display, base } => DescV::SubclassOf {
                display: opt_str_view(*display),
                base: *base,
            },
            TypeDescriptor::Union { display, members } => DescV::Union {
                display: opt_str_view(*display),
                members: members@,
            },
            TypeDescriptor::Intersection { display, positive, negative } => DescV::Intersection {
                display: opt_str_view(*display),
                positive: positive@,
                negative: negative@,
            },
            TypeDescriptor::Function { display, name, module_name, type_parameters, parameters, return_type } => DescV::Function {
                display: opt_str_view(*display),
                name: name@,
                module_name: opt_str_view(*module_name),
                type_parameters: type_parameters@,
                parameters: parameters@.map_values(|p: ParameterInfo| p@),
                return_type: *return_type,
            },
            TypeDescriptor::Callable { display } => DescV::Callable {
                display: opt_str_view(*display),
            },
            TypeDescriptor::BoundMethod { display, name, module_name, type_parameters, parameters, return_type } => DescV::BoundMethod {
                display: opt_str_view(*display),
                name: opt_str_view(*name),
                module_name: opt_str_view(*module_name),
                type_parameters: type_parameters@,
                parameters: parameters@.map_values(|p: ParameterInfo| p@),
                return_type: *return_type,
            },
            TypeDescriptor::IntLiteral { display, value } => DescV::IntLiteral {
                display: opt_str_view(*display),
                value: *value,
            },
            TypeDescriptor::BoolLiteral { display, value } => DescV::BoolLiteral {
                display: opt_str_view(*display),
                value: *value,
            },
            TypeDescriptor::StringLiteral { display, value } => DescV::StringLiteral {
                display: opt_str_view(*display),
                value: value@,
            },
            TypeDescriptor::BytesLiteral { display, value } => DescV::BytesLiteral {
                display: opt_str_view(*display),
                value: value@,
            },
            TypeDescriptor::EnumLiteral { display, class_name, member_name } => DescV::EnumLiteral {
                display: opt_str_view(*display),
                class_name: class_name@,
                member_name: member_name@,
            },
            TypeDescriptor::LiteralString { display } => DescV::LiteralString {
                display: opt_str_view(*display),
            },
            TypeDescriptor::Dynamic { display, dynamic_kind } => DescV::Dynamic {
                display: opt_str_view(*display),
                dynamic_kind: dynamic_kind@,
            },
            TypeDescriptor::Never { display } => DescV::Never { display: opt_str_view(*display) },
            TypeDescriptor::Truthy { display } => DescV::Truthy { display: opt_str_view(*display) },
            TypeDescriptor::Falsy { display } => DescV::Falsy { display: opt_str_view(*display) },
            TypeDescriptor::TypeVar { display, name, variance, upper_bound, constraints } => DescV::TypeVar {
                display: opt_str_view(*display),
                name: name@,
                variance: variance@,
                upper_bound: *upper_bound,
                constraints: opt_ids_view(*constraints),
            },
            TypeDescriptor::Module { display, module_name } => DescV::Module {
                display: opt_str_view(*display),
                module_name: module_name@,
            },
            TypeDescriptor::TypeAlias { display, name } => DescV::TypeAlias {
                display: opt_str_view(*display),
                name: name@,
            },
            TypeDescriptor::TypedDict { display, name, fields } => DescV::TypedDict {
                display: opt_str_view(*display),
                name: name@,
                fields: fields@.map_values(|f: TypedDictFieldInfo| f@),
            },
            TypeDescriptor::TypeIs { display, narrowed_type } => DescV::TypeIs {
                display: opt_str_view(*display),
                narrowed_type: *narrowed_type,
            },
            TypeDescriptor::TypeGuard { display, guarded_type } => DescV::TypeGuard {
                display: opt_str_view(*display),
                guarded_type: *guarded_type,
            },
            TypeDescriptor::NewType { display, name, base_type } => DescV::NewType {
                display: opt_str_view(*display),
                name: name@,
                base_type: *base_type,
            },
            TypeDescriptor::SpecialForm { display, name } => DescV::SpecialForm {
                display: opt_str_view(*display),
                name: name@,
            },
            TypeDescriptor::Property { display } => DescV::Property { display: opt_str_view(*display) },
            TypeDescriptor::Other { display } => DescV::Other { display: opt_str_view(*display) },
        }
    }
}

impl DescV {
    /// The same descriptor with its display label cleared.
    pub open spec fn stripped(self) -> DescV {
        match self {
            DescV::Instance { display, class_name, module_name, supertypes, type_args, class_id } => DescV::Instance { display: None, class_name, module_name, supertypes, type_args, class_id },
            DescV::ClassLiteral { display, class_name, module_name, type_parameters, supertypes, members } => DescV::ClassLiteral { display: None, class_name, module_name, type_parameters, supertypes, members },
            DescV::SubclassOf { display, base } => DescV::SubclassOf { display: None, base },
            DescV::Union { display, members } => DescV::Union { display: None, members },
            DescV::Intersection { display, positive, negative } => DescV::Intersection { display: None, positive, negative },
            DescV::Function { display, name, module_name, type_parameters, parameters, return_type } => DescV::Function { display: None, name, module_name, type_parameters, parameters, return_type },
            DescV::Callable { display } => DescV::Callable { display: None },
            DescV::BoundMethod { display, name, module_name, type_parameters, parameters, return_type } => DescV::BoundMethod { display: None, name, module_name, type_parameters, parameters, return_type },
            DescV::IntLiteral { display, value } => DescV::IntLiteral { display: None, value },
            DescV::BoolLiteral { display, value } => DescV::BoolLiteral { display: None, value },
            DescV::StringLiteral { display, value } => DescV::StringLiteral { display: None, value },
            DescV::BytesLiteral { display, value } => DescV::BytesLiteral { display: None, value },
            DescV::EnumLiteral { display, class_name, member_name } => DescV::EnumLiteral { display: None, class_name, member_name },
            DescV::LiteralString { display } => DescV::LiteralString { display: None },
            DescV::Dynamic { display, dynamic_kind } => DescV::Dynamic { display: None, dynamic_kind },
            DescV::Never { display } => DescV::Never { display: None },
            DescV::Truthy { display } => DescV::Truthy { display: None },
            DescV::Falsy { display } => DescV::Falsy { display: None },
            DescV::TypeVar { display, name, variance, upper_bound, constraints } => DescV::TypeVar { display: None, name, variance, upper_bound, constraints },
            DescV::Module { display, module_name } => DescV::Module { display: None, module_name },
            DescV::TypeAlias { display, name } => DescV::TypeAlias { display: None, name },
            DescV::TypedDict { display, name, fields } => DescV::TypedDict { display: None, name, fields },
            DescV::TypeIs { display, narrowed_type } => DescV::TypeIs { display: None, narrowed_type },
            DescV::TypeGuard { display, guarded_type } => DescV::TypeGuard { display: None, guarded_type },
            DescV::NewType { display, name, base_type } => DescV::NewType { display: None, name, base_type },
            DescV::SpecialForm { display, name } => DescV::SpecialForm { display: None, name },
            DescV::Property { display } => DescV::Property { display: None },
            DescV::Other { display } => DescV::Other { display: None },
        }
    }
}

/// Copies an owned optional string.
pub fn clone_opt_string(o: &Option<String>) -> (r: Option<String>)
    ensures
        opt_str_view(r) == opt_str_view(*o),
{
    match o {
        Some(s) => Some(s.clone()),
        None => None,
    }
}

/// Copies a list of type ids.
pub fn clone_ids(v: &Vec<TypeId>) -> (r: Vec<TypeId>)
    ensures
        r@ == v@,
{
    let mut r: Vec<TypeId> = Vec::new();
    let mut i: usize = 0;
    while i < v.len()
        invariant
            i <= v.len(),
            r@ == v@.take(i as int),
        decreases v.len() - i,
    {
        r.push(v[i]);
        proof {
            assert(v@.take(i + 1 as int) == v@.take(i as int).push(v@[i as int]));
        }
        i = i + 1;
    }
    proof {
        assert(v@.take(v@.len() as int) == v@);
    }
    r
}

/// Copies an optional list of type ids.
pub fn clone_opt_ids(o: &Option<Vec<TypeId>>) -> (r: Option<Vec<TypeId>>)
    ensures
        opt_ids_view(r) == opt_ids_view(*o),
{
    match o {
        Some(v) => Some(clone_ids(v)),
        None => None,
    }
}

/// Copies one parameter record.
pub fn clone_param(p: &ParameterInfo) -> (r: ParameterInfo)
    ensures
        r@ == p@,
{
    ParameterInfo {
        name: p.name.clone(),
        type_id: p.type_id,
        kind: p.kind,
        has_default: p.has_default,
        default_type_id: p.default_type_id,
    }
}

/// Copies a parameter list.
pub fn clone_params(v: &Vec<ParameterInfo>) -> (r: Vec<ParameterInfo>)
    ensures
        r@.map_values(|p: ParameterInfo| p@) == v@.map_values(|p: ParameterInfo| p@),
{
    let mut r: Vec<ParameterInfo> = Vec::new();
    let mut i: usize = 0;
    while i < v.len()
        invariant
            i <= v.len(),
            r@.map_values(|p: ParameterInfo| p@) == v@.take(i as int).map_values(|p: ParameterInfo| p@),
        decreases v.len() - i,
    {
        let ghost r_prev = r@;
        let pc = clone_param(&v[i]);
        let ghost pcg = pc;
        r.push(pc);
        proof {
            r_prev.lemma_push_map_commute(|p: ParameterInfo| p@, pcg);
            v@.lemma_map_take_succ(|p: ParameterInfo| p@, i as int);
        }
        i = i + 1;
    }
    proof {
        assert(v@.take(v@.len() as int) == v@);
    }
    r
}

/// Copies a class-member list.
pub fn clone_members(v: &Vec<ClassMemberInfo>) -> (r: Vec<ClassMemberInfo>)
    ensures
        r@.map_values(|m: ClassMemberInfo| m@) == v@.map_values(|m: ClassMemberInfo| m@),
{
    let mut r: Vec<ClassMemberInfo> = Vec::new();
    let mut i: usize = 0;
    while i < v.len()
        invariant
            i <= v.len(),
            r@.map_values(|m: ClassMemberInfo| m@) == v@.take(i as int).map_values(|m: ClassMemberInfo| m@),
        decreases v.len() - i,
    {
        let ghost r_prev = r@;
        let m = &v[i];
        let mc = ClassMemberInfo { name: m.name.clone(), type_id: m.type_id };
        let ghost mcg = mc;
        r.push(mc);
        proof {
            r_prev.lemma_push_map_commute(|m: ClassMemberInfo| m@, mcg);
            v@.lemma_map_take_succ(|m: ClassMemberInfo| m@, i as int);
        }
        i = i + 1;
    }
    proof {
        assert(v@.take(v@.len() as int) == v@);
    }
    r
}

/// Copies a typed-dict field list.
pub fn clone_fields(v: &Vec<TypedDictFieldInfo>) -> (r: Vec<TypedDictFieldInfo>)
    ensures
        r@.map_values(|f: TypedDictFieldInfo| f@) == v@.map_values(|f: TypedDictFieldInfo| f@),
{
    let mut r: Vec<TypedDictFieldInfo> = Vec::new();
    let mut i: usize = 0;
    while i < v.len()
        invariant
            i <= v.len(),
            r@.map_values(|f: TypedDictFieldInfo| f@) == v@.take(i as int).map_values(|f: TypedDictFieldInfo| f@),
        decreases v.len() - i,
    {
        let ghost r_prev = r@;
        let f = &v[i];
        let fc = TypedDictFieldInfo {
            name: f.name.clone(),
            type_id: f.type_id,
            required: f.required,
            read_only: f.read_only,
        };
        let ghost fcg = fc;
        r.push(fc);
        proof {
            r_prev.lemma_push_map_commute(|f: TypedDictFieldInfo| f@, fcg);
            v@.lemma_map_take_succ(|f: TypedDictFieldInfo| f@, i as int);
        }
        i = i + 1;
    }
    proof {
        assert(v@.take(v@.len() as int) == v@);
    }
    r
}

/// Copies a descriptor.
pub fn clone_descriptor(d: &TypeDescriptor) -> (r: TypeDescriptor)
    ensures
        r@ == d@,
{
    match d {
        TypeDescriptor::Instance { display, class_name, module_name, supertypes, type_args, class_id } => TypeDescriptor::Instance {
            display: clone_opt_string(display),
            class_name: class_name.clone(),
            module_name: clone_opt_string(module_name),
            supertypes: clone_ids(supertypes),
            type_args: clone_ids(type_args),
            class_id: *class_id,
        },
        TypeDescriptor::ClassLiteral { display, class_name, module_name, type_parameters, supertypes, members } => TypeDescriptor::ClassLiteral {
            display: clone_opt_string(display),
            class_name: class_name.clone(),
            module_name: clone_opt_string(module_name),
            type_parameters: clone_ids(type_parameters),
            supertypes: clone_ids(supertypes),
            members: clone_members(members),
        },
        TypeDescriptor::SubclassOf { display, base } => TypeDescriptor::SubclassOf {
            display: clone_opt_string(display),
            base: *base,
        },
        TypeDescriptor::Union { display, members } => TypeDescriptor::Union {
            display: clone_opt_string(display),
            members: clone_ids(members),
        },
        TypeDescriptor::Intersection { display, positive, negative } => TypeDescriptor::Intersection {
            display: clone_opt_string(display),
            positive: clone_ids(positive),
            negative: clone_ids(negative),
        },
        TypeDescriptor::Function { display, name, module_name, type_parameters, parameters, return_type } => TypeDescriptor::Function {
            display: clone_opt_string(display),
            name: name.clone(),
            module_name: clone_opt_string(module_name),
            type_parameters: clone_ids(type_parameters),
            parameters: clone_params(parameters),
            return_type: *return_type,
        },
        TypeDescriptor::Callable { display } => TypeDescriptor::Callable {
            display: clone_opt_string(display),
        },
        TypeDescriptor::BoundMethod { display, name, module_name, type_parameters, parameters, return_type } => TypeDescriptor::BoundMethod {
            display: clone_opt_string(display),
            name: clone_opt_string(name),
            module_name: clone_opt_string(module_name),
            type_parameters: clone_ids(type_parameters),
            parameters: clone_params(parameters),
            return_type: *return_type,
        },
        TypeDescriptor::IntLiteral { display, value } => TypeDescriptor::IntLiteral {
            display: clone_opt_string(display),
            value: *value,
        },
        TypeDescriptor::BoolLiteral { display, value } => TypeDescriptor::BoolLiteral {
            display: clone_opt_string(display),
            value: *value,
        },
        TypeDescriptor::StringLiteral { display, value } => TypeDescriptor::StringLiteral {
            display: clone_opt_string(display),
            value: value.clone(),
        },
        TypeDescriptor::BytesLiteral { display, value } => TypeDescriptor::BytesLiteral {
            display: clone_opt_string(display),
            value: value.clone(),
        },
        TypeDescriptor::EnumLiteral { display, class_name, member_name } => TypeDescriptor::EnumLiteral {
            display: clone_opt_string(display),
            class_name: class_name.clone(),
            member_name: member_name.clone(),
        },
        TypeDescriptor::LiteralString { display } => TypeDescriptor::LiteralString {
            display: clone_opt_string(display),
        },
        TypeDescriptor::Dynamic { display, dynamic_kind } => TypeDescriptor::Dynamic {
            display: clone_opt_string(display),
            dynamic_kind: dynamic_kind.clone(),
        },
        TypeDescriptor::Never { display } => TypeDescriptor::Never { display: clone_opt_string(display) },
        TypeDescriptor::Truthy { display } => TypeDescriptor::Truthy { display: clone_opt_string(display) },
        TypeDescriptor::Falsy { display } => TypeDescriptor::Falsy { display: clone_opt_string(display) },
        TypeDescriptor::TypeVar { display, name, variance, upper_bound, constraints } => TypeDescriptor::TypeVar {
            display: clone_opt_string(display),
            name: name.clone(),
            variance: variance.clone(),
            upper_bound: *upper_bound,
            constraints: clone_opt_ids(constraints),
        },
        TypeDescriptor::Module { display, module_name } => TypeDescriptor::Module {
            display: clone_opt_string(display),
            module_name: module_name.clone(),
        },
        TypeDescriptor::TypeAlias { display, name } => TypeDescriptor::TypeAlias {
            display: clone_opt_string(display),
            name: name.clone(),
        },
        TypeDescriptor::TypedDict { display, name, fields } => TypeDescriptor::TypedDict {
            display: clone_opt_string(display),
            name: name.clone(),
            fields: clone_fields(fields),
        },
        TypeDescriptor::TypeIs { display, narrowed_type } => TypeDescriptor::TypeIs {
            display: clone_opt_string(display),
            narrowed_type: *narrowed_type,
        },
        TypeDescriptor::TypeGuard { display, guarded_type } => TypeDescriptor::TypeGuard {
            display: clone_opt_string(display),
            guarded_type: *guarded_type,
        },
        TypeDescriptor::NewType { display, name, base_type } => TypeDescriptor::NewType {
            display: clone_opt_string(display),
            name: name.clone(),
            base_type: *base_type,
        },
        TypeDescriptor::SpecialForm { display, name } => TypeDescriptor::SpecialForm {
            display: clone_opt_string(display),
            name: name.clone(),
        },
        TypeDescriptor::Property { display } => TypeDescriptor::Property { display: clone_opt_string(display) },
        TypeDescriptor::Other { display } => TypeDescriptor::Other { display: clone_opt_string(display) },
    }
}

impl TypeDescriptor {
    /// Clears the human-readable display label, whatever the variant.
    /// A size and privacy measure for `includeDisplay: false`, not a
    /// semantic change.
    pub fn strip_display(&mut self)
        ensures
            final(self)@ == old(self)@.stripped(),
    {
        let stripped = match &*self {
            TypeDescriptor::Instance { display, class_name, module_name, supertypes, type_args, class_id } => TypeDescriptor::Instance {
                display: None,
                class_name: class_name.clone(),
                module_name: clone_opt_string(module_name),
                supertypes: clone_ids(supertypes),
                type_args: clone_ids(type_args),
                class_id: *class_id,
            },
            TypeDescriptor::ClassLiteral { display, class_name, module_name, type_parameters, supertypes, members } => TypeDescriptor::ClassLiteral {
                display: None,
                class_name: class_name.clone(),
                module_name: clone_opt_string(module_name),
                type_parameters: clone_ids(type_parameters),
                supertypes: clone_ids(supertypes),
                members: clone_members(members),
            },
            TypeDescriptor::SubclassOf { display, base } => TypeDescriptor::SubclassOf { display: None, base: *base },
            TypeDescriptor::Union { display, members } => TypeDescriptor::Union {
                display: None,
                members: clone_ids(members),
            },
            TypeDescriptor::Intersection { display, positive, negative } => TypeDescriptor::Intersection {
                display: None,
                positive: clone_ids(positive),
                negative: clone_ids(negative),
            },
            TypeDescriptor::Function { display, name, module_name, type_parameters, parameters, return_type } => TypeDescriptor::Function {
                display: None,
                name: name.clone(),
                module_name: clone_opt_string(module_name),
                type_parameters: clone_ids(type_parameters),
                parameters: clone_params(parameters),
                return_type: *return_type,
            },
            TypeDescriptor::Callable { display } => TypeDescriptor::Callable { display: None },
            TypeDescriptor::BoundMethod { display, name, module_name, type_parameters, parameters, return_type } => TypeDescriptor::BoundMethod {
                display: None,
                name: clone_opt_string(name),
                module_name: clone_opt_string(module_name),
                type_parameters: clone_ids(type_parameters),
                parameters: clone_params(parameters),
                return_type: *return_type,
            },
            TypeDescriptor::IntLiteral { display, value } => TypeDescriptor::IntLiteral { display: None, value: *value },
            TypeDescriptor::BoolLiteral { display, value } => TypeDescriptor::BoolLiteral { display: None, value: *value },
            TypeDescriptor::StringLiteral { display, value } => TypeDescriptor::StringLiteral {
                display: None,
                value: value.clone(),
            },
            TypeDescriptor::BytesLiteral { display, value } => TypeDescriptor::BytesLiteral {
                display: None,
                value: value.clone(),
            },
            TypeDescriptor::EnumLiteral { display, class_name, member_name } => TypeDescriptor::EnumLiteral {
                display: None,
                class_name: class_name.clone(),
                member_name: member_name.clone(),
            },
            TypeDescriptor::LiteralString { display } => TypeDescriptor::LiteralString { display: None },
            TypeDescriptor::Dynamic { display, dynamic_kind } => TypeDescriptor::Dynamic {
                display: None,
                dynamic_kind: dynamic_kind.clone(),
            },
            TypeDescriptor::Never { display } => TypeDescriptor::Never { display: None },
            TypeDescriptor::Truthy { display } => TypeDescriptor::Truthy { display: None },
            TypeDescriptor::Falsy { display } => TypeDescriptor::Falsy { display: None },
            TypeDescriptor::TypeVar { display, name, variance, upper_bound, constraints } => TypeDescriptor::TypeVar {
                display: None,
                name: name.clone(),
                variance: variance.clone(),
                upper_bound: *upper_bound,
                constraints: clone_opt_ids(constraints),
            },
            TypeDescriptor::Module { display, module_name } => TypeDescriptor::Module {
                display: None,
                module_name: module_name.clone(),
            },
            TypeDescriptor::TypeAlias { display, name } => TypeDescriptor::TypeAlias {
                display: None,
                name: name.clone(),
            },
            TypeDescriptor::TypedDict { display, name, fields } => TypeDescriptor::TypedDict {
                display: None,
                name: name.clone(),
                fields: clone_fields(fields),
            },
            TypeDescriptor::TypeIs { display, narrowed_type } => TypeDescriptor::TypeIs {
                display: None,
                narrowed_type: *narrowed_type,
            },
            TypeDescriptor::TypeGuard { display, guarded_type } => TypeDescriptor::TypeGuard {
                display: None,
                guarded_type: *guarded_type,
            },
            TypeDescriptor::NewType { display, name, base_type } => TypeDescriptor::NewType {
                display: None,
                name: name.clone(),
                base_type: *base_type,
            },
            TypeDescriptor::SpecialForm { display, name } => TypeDescriptor::SpecialForm {
                display: None,
                name: name.clone(),
            },
            TypeDescriptor::Property { display } => TypeDescriptor::Property { display: None },
            TypeDescriptor::Other { display } => TypeDescriptor::Other { display: None },
        };
        *self = stripped;
    }
}

/// Result payload of `getTypes`: attributions for one file plus only the
/// descriptors first disclosed by this request.
pub struct GetTypesResult {
    pub nodes: Vec<NodeAttribution>,
    pub types: Vec<(TypeId, TypeDescriptor)>,
}

/// Result payload of `getTypeRegistry`: every descriptor interned so far
/// in this session, regardless of disclosure history.
pub struct GetTypeRegistryResult {
    pub types: Vec<(TypeId, TypeDescriptor)>,
}

/// One-shot output: attributions grouped by file, one shared registry.
pub struct CliResult {
    pub files: Vec<(String, Vec<NodeAttribution>)>,
    pub types: Vec<(TypeId, TypeDescriptor)>,
}

} // verus!
