//! The session protocol's state machine.
//!
//! A session moves from `Uninitialized` through `Initialized` to
//! `Terminated`. While uninitialized, only `initialize` and `shutdown`
//! are accepted. Once initialized, one registry serves every request, so
//! each distinct type is disclosed to the client exactly once; a repeated
//! `initialize` is rejected rather than silently resetting state. The
//! session also owns the oracle's identity table, which grows append-only
//! as requests bring new identities with them.

use vstd::prelude::*;
use vstd::string::StrSliceExecFns;
use vstd::string::StringExecFns;

use crate::collector::{
    atts_view, collect_types, tree_atts, tree_idents, SyntaxTree,
};
use crate::encode::all_in;
use crate::protocol::{
    clone_descriptor, CliResult, GetTypeRegistryResult, GetTypesResult, NodeAttribution,
    TypeDescriptor, TypeId,
};
use crate::registry::{registry_extends, TypeRegistry};
use crate::shape::{OracleTable, TypeEntry, TypeIdent};

verus! {

/// JSON could not be parsed from the request line.
pub const PARSE_ERROR: i64 = -32700;

/// The request's parameters were missing or malformed.
pub const INVALID_PARAMS: i64 = -32602;

/// The method name is not part of the protocol.
pub const METHOD_NOT_FOUND: i64 = -32601;

/// A domain failure: lifecycle violation, unresolvable file, failed
/// initialization.
pub const DOMAIN_ERROR: i64 = -32000;

/// Where a session stands in its lifecycle.
#[derive(Clone, Copy, Debug, PartialEq, Eq, Structural)]
pub enum SessionPhase {
    Uninitialized,
    Initialized,
    Terminated,
}

/// The protocol methods, with a catch-all for anything else.
#[derive(Clone, Copy, Debug, PartialEq, Eq, Structural)]
pub enum Method {
    Initialize,
    GetTypes,
    GetTypeRegistry,
    Shutdown,
    Unknown,
}

/// What the lifecycle rules say about one request.
#[derive(Clone, Copy, Debug, PartialEq, Eq, Structural)]
pub enum RequestDecision {
    Proceed,
    RejectNotInitialized,
    RejectAlreadyInitialized,
    RejectUnknownMethod,
}

/// The lifecycle table: which methods each phase accepts, and how the
/// others are turned away. Before `initialize`, everything but
/// `initialize` and `shutdown` is "not initialized" — even an unknown
/// method. Afterwards, a repeated `initialize` is "already initialized"
/// and an unknown method is "method not found". A terminated session
/// reads no further requests.
pub open spec fn spec_gate(phase: SessionPhase, m: Method) -> RequestDecision {
    match phase {
        SessionPhase::Uninitialized => match m {
            Method::Initialize => RequestDecision::Proceed,
            Method::Shutdown => RequestDecision::Proceed,
            _ => RequestDecision::RejectNotInitialized,
        },
        SessionPhase::Initialized => match m {
            Method::GetTypes => RequestDecision::Proceed,
            Method::GetTypeRegistry => RequestDecision::Proceed,
            Method::Shutdown => RequestDecision::Proceed,
            Method::Initialize => RequestDecision::RejectAlreadyInitialized,
            Method::Unknown => RequestDecision::RejectUnknownMethod,
        },
        SessionPhase::Terminated => RequestDecision::RejectNotInitialized,
    }
}

/// The error code a rejection is reported with.
pub open spec fn spec_rejection_code(d: RequestDecision) -> i64 {
    match d {
        RequestDecision::Proceed => 0,
        RequestDecision::RejectNotInitialized => DOMAIN_ERROR,
        RequestDecision::RejectAlreadyInitialized => DOMAIN_ERROR,
        RequestDecision::RejectUnknownMethod => METHOD_NOT_FOUND,
    }
}

/// Applies the lifecycle table to one request.
pub fn gate(phase: SessionPhase, m: Method) -> (d: RequestDecision)
    ensures
        d == spec_gate(phase, m),
{
    match phase {
        SessionPhase::Uninitialized => match m {
            Method::Initialize => RequestDecision::Proceed,
            Method::Shutdown => RequestDecision::Proceed,
            _ => RequestDecision::RejectNotInitialized,
        },
        SessionPhase::Initialized => match m {
            Method::GetTypes => RequestDecision::Proceed,
            Method::GetTypeRegistry => RequestDecision::Proceed,
            Method::Shutdown => RequestDecision::Proceed,
            Method::Initialize => RequestDecision::RejectAlreadyInitialized,
            Method::Unknown => RequestDecision::RejectUnknownMethod,
        },
        SessionPhase::Terminated => RequestDecision::RejectNotInitialized,
    }
}

/// The error code a rejection is reported with.
pub fn rejection_code(d: RequestDecision) -> (c: i64)
    ensures
        c == spec_rejection_code(d),
{
    match d {
        RequestDecision::Proceed => 0,
        RequestDecision::RejectNotInitialized => DOMAIN_ERROR,
        RequestDecision::RejectAlreadyInitialized => DOMAIN_ERROR,
        RequestDecision::RejectUnknownMethod => METHOD_NOT_FOUND,
    }
}

/// One protocol session: its lifecycle phase, its registry, and the
/// oracle identities disclosed to it so far.
pub struct Session {
    pub phase: SessionPhase,
    pub registry: TypeRegistry,
    pub oracle: OracleTable,
}

/// How an oracle table absorbs a batch of entries, left to right: an
/// identity already in the table, or already interned by the registry,
/// keeps what the table first knew of it.
pub open spec fn absorbed(
    o: Map<TypeIdent, TypeEntry>,
    ids: Map<TypeIdent, TypeId>,
    es: Seq<(TypeIdent, TypeEntry)>,
) -> Map<TypeIdent, TypeEntry>
    decreases es.len(),
{
    if es.len() == 0 {
        o
    } else {
        let stepped = if o.contains_key(es[0].0) || ids.contains_key(es[0].0) {
            o
        } else {
            o.insert(es[0].0, es[0].1)
        };
        absorbed(stepped, ids, es.skip(1))
    }
}

impl Session {
    /// The session's internal consistency: its registry encodes exactly
    /// what its oracle table says.
    pub open spec fn inv(&self) -> bool {
        self.registry.consistent(self.oracle@)
    }

    /// A fresh session, waiting for `initialize`.
    pub fn new() -> (s: Session)
        ensures
            s.phase == SessionPhase::Uninitialized,
            s.inv(),
            s.registry.descs() == Seq::<crate::protocol::DescV>::empty(),
    {
        Session { phase: SessionPhase::Uninitialized, registry: TypeRegistry::new(), oracle: OracleTable::new() }
    }

    /// Enters the session loop after the project was opened: a fresh
    /// registry and a fresh table, so nothing counts as disclosed yet.
    pub fn begin(&mut self)
        requires
            old(self).phase == SessionPhase::Uninitialized,
        ensures
            final(self).phase == SessionPhase::Initialized,
            final(self).inv(),
            final(self).registry.descs() == Seq::<crate::protocol::DescV>::empty(),
            final(self).registry.mark() == 0,
    {
        self.phase = SessionPhase::Initialized;
        self.registry = TypeRegistry::new();
        self.oracle = OracleTable::new();
    }

    /// Ends the session; nothing is accepted afterwards.
    pub fn end(&mut self)
        ensures
            final(self).phase == SessionPhase::Terminated,
            final(self).registry == old(self).registry,
            final(self).oracle == old(self).oracle,
    {
        self.phase = SessionPhase::Terminated;
    }

    /// Absorbs a batch of oracle entries, first sight winning: an
    /// identity the table knows, or that the registry has already
    /// interned, keeps its original meaning, so nothing already encoded
    /// can change.
    fn absorb(&mut self, entries: Vec<(TypeIdent, TypeEntry)>)
        requires
            old(self).inv(),
        ensures
            final(self).inv(),
            final(self).phase == old(self).phase,
            final(self).registry == old(self).registry,
            final(self).oracle@ == absorbed(old(self).oracle@, old(self).registry.ids(), entries@),
            old(self).oracle@.submap_of(final(self).oracle@),
    {
        let ghost o0 = self.oracle@;
        let ghost es0 = entries@;
        let ghost ids = self.registry.ids();
        let mut rest = entries;
        while rest.len() > 0
            invariant
                self.inv(),
                self.phase == old(self).phase,
                self.registry == old(self).registry,
                ids == self.registry.ids(),
                absorbed(self.oracle@, ids, rest@) == absorbed(o0, ids, es0),
                o0.submap_of(self.oracle@),
            decreases rest@.len(),
        {
            let (k, v) = rest.remove(0);
            let known = self.oracle.contains(k) || self.registry.lookup(k).is_some();
            let ghost before = self.oracle@;
            if !known {
                proof {
                    crate::registry::lemma_consistent_oracle_insert(
                        self.registry,
                        self.oracle@,
                        k,
                        v,
                    );
                }
                self.oracle.insert_first(k, v);
                proof {
                    assert(o0.submap_of(self.oracle@)) by {
                        assert forall|x: TypeIdent| o0.dom().contains(x) implies self.oracle@.dom(
                        ).contains(x) && o0[x] == self.oracle@[x] by {
                            assert(before.dom().contains(x) && o0[x] == before[x]);
                            assert(x != k);
                        }
                    }
                }
            }
        }
        proof {
            assert(absorbed(self.oracle@, ids, rest@) == self.oracle@);
        }
    }

    /// Serves one `getTypes` request: absorbs the identities the request
    /// brought, walks the file's tree against the session registry, and
    /// returns the attributions together with only the descriptors not
    /// previously disclosed in this session — the ids freshly assigned by
    /// this very request, in order. With `include_display` false every
    /// returned descriptor has its display label cleared.
    pub fn get_types(
        &mut self,
        tree: &SyntaxTree,
        entries: Vec<(TypeIdent, TypeEntry)>,
        include_display: bool,
    ) -> (r: GetTypesResult)
        requires
            old(self).inv(),
            old(self).phase == SessionPhase::Initialized,
            tree.wf(),
        ensures
            final(self).inv(),
            final(self).phase == SessionPhase::Initialized,
            final(self).oracle@ == absorbed(old(self).oracle@, old(self).registry.ids(), entries@),
            registry_extends(old(self).registry, final(self).registry),
            final(self).registry.mark() == final(self).registry.descs().len(),
            all_in(final(self).registry.ids(), tree_idents(*tree)),
            atts_view(r.nodes@) == tree_atts(*tree, final(self).registry.ids()),
            r.types@.len() == final(self).registry.descs().len() - old(self).registry.descs().len(),
            forall|j: int|
                0 <= j < r.types@.len() ==> (#[trigger] r.types@[j]).0 == old(
                    self,
                ).registry.descs().len() + 1 + j && r.types@[j].1@ == (if include_display {
                    final(self).registry.descs()[old(self).registry.descs().len() + j]
                } else {
                    final(self).registry.descs()[old(self).registry.descs().len() + j].stripped()
                }),
    {
        self.absorb(entries);
        let result = collect_types(tree, &self.oracle, &mut self.registry);
        let types: Vec<(TypeId, TypeDescriptor)>;
        if include_display {
            types = result.new_types;
        } else {
            types = strip_all(&result.new_types);
        }
        GetTypesResult { nodes: result.nodes, types }
    }

    /// Serves one `getTypeRegistry` request: every descriptor ever
    /// interned this session, regardless of disclosure history.
    pub fn get_type_registry(&self) -> (r: GetTypeRegistryResult)
        requires
            self.phase == SessionPhase::Initialized,
        ensures
            r.types@.len() == self.registry.descs().len(),
            forall|j: int|
                0 <= j < r.types@.len() ==> (#[trigger] r.types@[j]).0 == j + 1
                    && r.types@[j].1@ == self.registry.descs()[j],
    {
        GetTypeRegistryResult { types: self.registry.all_descriptors() }
    }
}

/// Clears the display label of every disclosed descriptor.
fn strip_all(v: &Vec<(TypeId, TypeDescriptor)>) -> (r: Vec<(TypeId, TypeDescriptor)>)
    ensures
        r@.len() == v@.len(),
        forall|j: int|
            0 <= j < v@.len() ==> (#[trigger] r@[j]).0 == v@[j].0 && r@[j].1@ == v@[j].1@.stripped(),
{
    let mut r: Vec<(TypeId, TypeDescriptor)> = Vec::new();
    let mut i: usize = 0;
    while i < v.len()
        invariant
            i <= v@.len(),
            r@.len() == i,
            forall|j: int|
                0 <= j < i ==> (#[trigger] r@[j]).0 == v@[j].0 && r@[j].1@ == v@[j].1@.stripped(),
        decreases v@.len() - i,
    {
        let mut d = clone_descriptor(&v[i].1);
        d.strip_display();
        r.push((v[i].0, d));
        i = i + 1;
    }
    r
}

/// Resolves a request's file path: an absolute path is used as it is, a
/// relative one is resolved against the project root.
pub open spec fn spec_resolve_path(root: Seq<char>, file: Seq<char>) -> Seq<char> {
    if file.len() > 0 && file[0] == '/' {
        file
    } else {
        root + "/"@ + file
    }
}

/// Resolves a request's file path against the project root.
pub fn resolve_path(root: &str, file: &str) -> (r: String)
    ensures
        r@ == spec_resolve_path(root@, file@),
{
    let n = file.unicode_len();
    if n > 0 && file.get_char(0) == '/' {
        file.to_owned()
    } else {
        let mut s = root.to_owned();
        s.append("/");
        s.append(file);
        s
    }
}

/// Runs the one-shot mode's core: one fresh registry shared by every
/// file, each walked in argument order, so types are deduplicated across
/// the files exactly as they would be across session requests; the output
/// carries each file's attributions and the full registry.
pub fn collect_files(files: &Vec<(String, SyntaxTree)>, oracle: &OracleTable) -> (r: CliResult)
    requires
        forall|k: int| 0 <= k < files@.len() ==> (#[trigger] files@[k]).1.wf(),
    ensures
        r.files@.len() == files@.len(),
        exists|reg: TypeRegistry|
            {
                &&& #[trigger] reg.consistent(oracle@)
                &&& forall|k: int|
                    0 <= k < files@.len() ==> (#[trigger] r.files@[k]).0@ == files@[k].0@
                        && atts_view(r.files@[k].1@) == tree_atts(files@[k].1, reg.ids())
                        && all_in(reg.ids(), tree_idents(files@[k].1))
                &&& r.types@.len() == reg.descs().len()
                &&& forall|j: int|
                    0 <= j < r.types@.len() ==> (#[trigger] r.types@[j]).0 == j + 1
                        && r.types@[j].1@ == reg.descs()[j]
            },
{
    let mut registry = TypeRegistry::new();
    let mut out: Vec<(String, Vec<NodeAttribution>)> = Vec::new();
    let mut i: usize = 0;
    while i < files.len()
        invariant
            i <= files@.len(),
            forall|k: int| 0 <= k < files@.len() ==> (#[trigger] files@[k]).1.wf(),
            registry.consistent(oracle@),
            out@.len() == i,
            forall|k: int|
                0 <= k < i ==> (#[trigger] out@[k]).0@ == files@[k].0@ && atts_view(out@[k].1@)
                    == tree_atts(files@[k].1, registry.ids()) && all_in(
                    registry.ids(),
                    tree_idents(files@[k].1),
                ),
        decreases files@.len() - i,
    {
        let ghost prev = registry;
        let ghost out_prev = out@;
        let entry = &files[i];
        let result = collect_types(&entry.1, oracle, &mut registry);
        out.push((entry.0.clone(), result.nodes));
        proof {
            assert(registry_extends(prev, registry));
            assert(prev.ids().submap_of(registry.ids()));
            assert forall|k: int|
                0 <= k < i + 1 implies (#[trigger] out@[k]).0@ == files@[k].0@ && atts_view(
                out@[k].1@,
            ) == tree_atts(files@[k].1, registry.ids()) && all_in(
                registry.ids(),
                tree_idents(files@[k].1),
            ) by {
                if k < i {
                    assert(out@[k] == out_prev[k]);
                    assert((out_prev[k]).0@ == files@[k].0@ && atts_view(out_prev[k].1@)
                        == tree_atts(files@[k].1, prev.ids()) && all_in(
                        prev.ids(),
                        tree_idents(files@[k].1),
                    ));
                    crate::encode::lemma_all_in_submap(
                        prev.ids(),
                        registry.ids(),
                        tree_idents(files@[k].1),
                    );
                    crate::collector::lemma_tree_atts_stable(
                        files@[k].1,
                        prev.ids(),
                        registry.ids(),
                    );
                }
            }
        }
        i = i + 1;
    }
    let types = registry.all_descriptors();
    let ghost regw = registry;
    proof {
        assert(regw.consistent(oracle@));
    }
    CliResult { files: out, types }
}

} // verus!
