//! Lowering from the AST to HIR: the registry of struct and enum
//! definitions and generic templates, the type-variable scopes, and the
//! lowering of type expressions, which specializes generic structs and enums
//! on concrete type arguments.

use crate::ast::types::{TypeExpr, TypeExprKind};
use crate::hir::error::{strings_view, Error, ErrorKind};
use crate::hir::generics::{
    ids_of, mentions_list, occurrences, subst_view, ty_has_typevars, OriginV, Origins,
};
use crate::hir::types::{
    lemma_tys_view, lemma_tys_view_len, mangle_struct_specialization, mangled, tys_duplicate,
    tys_same, tys_view, ty_view, EnumDef, EnumVariant, LocalId, LocalIdGen, StructDef, Ty, TyV,
    TypeVar, TypeVarId,
};
use crate::lexer::cursor::push_char;
use crate::lexer::types::Span;
use std::collections::HashMap;
use vstd::prelude::*;

verus! {

broadcast use lemma_tys_view_len;

/// A struct definition (or template) by value: its name, its type
/// parameters and its fields.
pub struct StructDefV {
    pub name: Seq<char>,
    pub tvs: Seq<u32>,
    pub fields: Seq<(Seq<char>, TyV)>,
}

/// An enum definition (or template) by value: its name, its type parameters
/// and its variants with their field types.
pub struct EnumDefV {
    pub name: Seq<char>,
    pub tvs: Seq<u32>,
    pub variants: Seq<(Seq<char>, Seq<TyV>)>,
}

pub open spec fn fields_view(s: Seq<(String, Ty)>) -> Seq<(Seq<char>, TyV)> {
    s.map_values(|f: (String, Ty)| (f.0@, f.1@))
}

pub open spec fn struct_def_view(d: StructDef) -> StructDefV {
    StructDefV { name: d.name@, tvs: ids_of(d.type_var_ids@), fields: fields_view(d.fields@) }
}

pub open spec fn variants_view(s: Seq<EnumVariant>) -> Seq<(Seq<char>, Seq<TyV>)> {
    s.map_values(|v: EnumVariant| (v.name@, tys_view(v.fields@)))
}

pub open spec fn enum_def_view(d: EnumDef) -> EnumDefV {
    EnumDefV { name: d.name@, tvs: ids_of(d.type_var_ids@), variants: variants_view(d.variants@) }
}

/// A specialization made earlier: the template, the type arguments and the
/// name of the specialized definition.
pub struct CacheEntry {
    pub template: String,
    pub args: Vec<Ty>,
    pub specialized: String,
}

pub open spec fn cache_view(c: CacheEntry) -> (Seq<char>, Seq<TyV>, Seq<char>) {
    (c.template@, tys_view(c.args@), c.specialized@)
}

/// The state of lowering that types depend on.
pub struct Lower {
    /// Concrete struct definitions, specializations included.
    pub structs: Vec<StructDef>,
    /// Generic struct templates.
    pub struct_templates: Vec<StructDef>,
    /// Concrete enum definitions, specializations included.
    pub enums: Vec<EnumDef>,
    /// Generic enum templates.
    pub enum_templates: Vec<EnumDef>,
    /// Every type variable made so far; a variable's id is its index.
    pub type_vars: Vec<TypeVar>,
    /// The type-variable scopes, innermost last: names and their ids.
    pub type_var_scopes: Vec<Vec<(String, TypeVarId)>>,
    /// Struct specializations made so far.
    pub struct_cache: Vec<CacheEntry>,
    /// Enum specializations made so far.
    pub enum_cache: Vec<CacheEntry>,
    /// Where each specialized struct and enum came from.
    pub origins: Origins,
    /// Each variant constructor's name, its enum and its index there.
    pub variant_constructors: Vec<(String, String, usize)>,
    /// The scopes of value names, innermost last; the first is the global
    /// scope.
    pub scopes: Vec<Vec<(String, LocalId)>>,
    /// Hands out local ids.
    pub id_gen: LocalIdGen,
    /// The type of each local, by the number of its id.
    pub bindings: HashMap<u32, Ty>,
    /// Each top-level function name with the ids of every function of that
    /// name, in declaration order.
    pub overloads: Vec<(String, Vec<LocalId>)>,
    /// The id of each pre-registered function, by its declaration's node id.
    pub fn_id_by_node: HashMap<u32, LocalId>,
    /// The type variables of each function's type parameters, in
    /// declaration order, by the number of its id.
    pub fn_decl_type_var_ids: HashMap<u32, Vec<TypeVarId>>,
    /// The signature of each function whose body is still to be lowered, by
    /// the number of its id.
    pub pending_fn_sigs: HashMap<u32, PendingFnSig>,
}

/// A function's signature, lowered before its body.
pub struct PendingFnSig {
    /// The type-variable scope of the signature.
    pub scope: Vec<(String, TypeVarId)>,
    /// The type variables of the declared type parameters, in order.
    pub type_var_ids: Vec<TypeVarId>,
    pub param_tys: Vec<Ty>,
    pub return_ty: Ty,
}

/// A pending signature by value.
pub struct SigV {
    pub scope: Seq<(Seq<char>, u32)>,
    pub tvs: Seq<u32>,
    pub params: Seq<TyV>,
    pub ret: TyV,
}

pub open spec fn sig_view(p: PendingFnSig) -> SigV {
    SigV { scope: scope_view(p.scope), tvs: ids_of(p.type_var_ids@), params: tys_view(p.param_tys@), ret: p.return_ty@ }
}

pub open spec fn local_ids(s: Seq<LocalId>) -> Seq<u32> {
    s.map_values(|l: LocalId| l.0)
}

pub open spec fn value_scope_view(s: Vec<(String, LocalId)>) -> Seq<(Seq<char>, u32)> {
    s@.map_values(|p: (String, LocalId)| (p.0@, p.1.0))
}

/// The state of lowering by value.
#[verifier::ext_equal]
pub struct LowerV {
    pub structs: Seq<StructDefV>,
    pub struct_templates: Seq<StructDefV>,
    pub enums: Seq<EnumDefV>,
    pub enum_templates: Seq<EnumDefV>,
    pub type_vars: Seq<Seq<char>>,
    pub scopes: Seq<Seq<(Seq<char>, u32)>>,
    pub struct_cache: Seq<(Seq<char>, Seq<TyV>, Seq<char>)>,
    pub enum_cache: Seq<(Seq<char>, Seq<TyV>, Seq<char>)>,
    pub origins: Seq<OriginV>,
    pub variant_constructors: Seq<(Seq<char>, Seq<char>, usize)>,
    pub value_scopes: Seq<Seq<(Seq<char>, u32)>>,
    pub next_id: u32,
    pub bindings: Map<u32, TyV>,
    pub overloads: Seq<(Seq<char>, Seq<u32>)>,
    pub fn_id_by_node: Map<u32, u32>,
    pub fn_tvs: Map<u32, Seq<u32>>,
    pub pending: Map<u32, SigV>,
}

pub open spec fn scope_view(s: Vec<(String, TypeVarId)>) -> Seq<(Seq<char>, u32)> {
    s@.map_values(|p: (String, TypeVarId)| (p.0@, p.1.0))
}

impl View for Lower {
    type V = LowerV;

    open spec fn view(&self) -> LowerV {
        LowerV {
            structs: self.structs@.map_values(|d: StructDef| struct_def_view(d)),
            struct_templates: self.struct_templates@.map_values(|d: StructDef| struct_def_view(d)),
            enums: self.enums@.map_values(|d: EnumDef| enum_def_view(d)),
            enum_templates: self.enum_templates@.map_values(|d: EnumDef| enum_def_view(d)),
            type_vars: self.type_vars@.map_values(|v: TypeVar| v.name@),
            scopes: self.type_var_scopes@.map_values(|s: Vec<(String, TypeVarId)>| scope_view(s)),
            struct_cache: self.struct_cache@.map_values(|c: CacheEntry| cache_view(c)),
            enum_cache: self.enum_cache@.map_values(|c: CacheEntry| cache_view(c)),
            origins: self.origins@,
            variant_constructors: self.variant_constructors@.map_values(
                |v: (String, String, usize)| (v.0@, v.1@, v.2),
            ),
            value_scopes: self.scopes@.map_values(|s: Vec<(String, LocalId)>| value_scope_view(s)),
            next_id: self.id_gen.spec_next(),
            bindings: subst_view(self.bindings@),
            overloads: self.overloads@.map_values(|o: (String, Vec<LocalId>)| (o.0@, local_ids(o.1@))),
            fn_id_by_node: self.fn_id_by_node@.map_values(|l: LocalId| l.0),
            fn_tvs: self.fn_decl_type_var_ids@.map_values(|v: Vec<TypeVarId>| ids_of(v@)),
            pending: self.pending_fn_sigs@.map_values(|p: PendingFnSig| sig_view(p)),
        }
    }
}

/// The last struct named `name` in `s`, or -1.
pub open spec fn find_struct(s: Seq<StructDefV>, name: Seq<char>) -> int
    decreases s.len(),
{
    if s.len() == 0 {
        -1
    } else if s.last().name == name {
        s.len() - 1
    } else {
        find_struct(s.drop_last(), name)
    }
}

/// The last enum named `name` in `s`, or -1.
pub open spec fn find_enum(s: Seq<EnumDefV>, name: Seq<char>) -> int
    decreases s.len(),
{
    if s.len() == 0 {
        -1
    } else if s.last().name == name {
        s.len() - 1
    } else {
        find_enum(s.drop_last(), name)
    }
}

pub proof fn lemma_find_struct(s: Seq<StructDefV>, name: Seq<char>)
    ensures
        -1 <= find_struct(s, name) < s.len(),
        find_struct(s, name) >= 0 ==> s[find_struct(s, name)].name == name,
    decreases s.len(),
{
    if s.len() > 0 && s.last().name != name {
        lemma_find_struct(s.drop_last(), name);
    }
}

pub proof fn lemma_find_enum(s: Seq<EnumDefV>, name: Seq<char>)
    ensures
        -1 <= find_enum(s, name) < s.len(),
        find_enum(s, name) >= 0 ==> s[find_enum(s, name)].name == name,
    decreases s.len(),
{
    if s.len() > 0 && s.last().name != name {
        lemma_find_enum(s.drop_last(), name);
    }
}

/// `s` with `d` stored under its name: replacing the definition of that
/// name, or added at the end.
pub open spec fn put_struct(s: Seq<StructDefV>, d: StructDefV) -> Seq<StructDefV> {
    let k = find_struct(s, d.name);
    if k >= 0 {
        s.update(k, d)
    } else {
        s.push(d)
    }
}

pub open spec fn put_enum(s: Seq<EnumDefV>, d: EnumDefV) -> Seq<EnumDefV> {
    let k = find_enum(s, d.name);
    if k >= 0 {
        s.update(k, d)
    } else {
        s.push(d)
    }
}

/// The id bound to `name` in one scope.
pub open spec fn scope_find(s: Seq<(Seq<char>, u32)>, name: Seq<char>) -> Option<u32>
    decreases s.len(),
{
    if s.len() == 0 {
        None
    } else if s.last().0 == name {
        Some(s.last().1)
    } else {
        scope_find(s.drop_last(), name)
    }
}

/// The id bound to `name` in the innermost scope that binds it.
pub open spec fn lookup_tv(scopes: Seq<Seq<(Seq<char>, u32)>>, name: Seq<char>) -> Option<u32>
    decreases scopes.len(),
{
    if scopes.len() == 0 {
        None
    } else {
        match scope_find(scopes.last(), name) {
            Some(id) => Some(id),
            None => lookup_tv(scopes.drop_last(), name),
        }
    }
}

/// The state after a fresh type variable `name` is made and bound in the
/// innermost scope; its id is the number of variables made before.
pub open spec fn bind_fresh(st: LowerV, name: Seq<char>) -> LowerV {
    let id = st.type_vars.len() as u32;
    LowerV {
        type_vars: st.type_vars.push(name),
        scopes: st.scopes.update(st.scopes.len() - 1, st.scopes.last().push((name, id))),
        ..st
    }
}

/// Whether `b` keeps the function registry of `a`: the value scopes, the
/// next local id, the bindings, the overloads and the pending signatures.
pub open spec fn fn_state_kept(a: LowerV, b: LowerV) -> bool {
    &&& b.value_scopes == a.value_scopes
    &&& b.next_id == a.next_id
    &&& b.bindings == a.bindings
    &&& b.overloads == a.overloads
    &&& b.fn_id_by_node == a.fn_id_by_node
    &&& b.fn_tvs == a.fn_tvs
    &&& b.pending == a.pending
}

impl Lower {
    pub open spec fn wf(&self) -> bool {
        self.origins.wf()
    }

    /// An empty registry with no type-variable scope.
    pub fn new() -> (r: Lower)
        ensures
            r.wf(),
            r@.structs.len() == 0,
            r@.struct_templates.len() == 0,
            r@.enums.len() == 0,
            r@.enum_templates.len() == 0,
            r@.type_vars.len() == 0,
            r@.scopes.len() == 0,
            r@.struct_cache.len() == 0,
            r@.enum_cache.len() == 0,
            r@.origins.len() == 0,
            r@.variant_constructors.len() == 0,
            r@.value_scopes == seq![Seq::<(Seq<char>, u32)>::empty()],
            r@.next_id == 0,
            r@.bindings == Map::<u32, TyV>::empty(),
            r@.overloads.len() == 0,
            r@.fn_id_by_node == Map::<u32, u32>::empty(),
            r@.fn_tvs == Map::<u32, Seq<u32>>::empty(),
            r@.pending == Map::<u32, SigV>::empty(),
    {
        let r = Lower {
            structs: Vec::new(),
            struct_templates: Vec::new(),
            enums: Vec::new(),
            enum_templates: Vec::new(),
            type_vars: Vec::new(),
            type_var_scopes: Vec::new(),
            struct_cache: Vec::new(),
            enum_cache: Vec::new(),
            origins: Origins::new(),
            variant_constructors: Vec::new(),
            scopes: vec![Vec::new()],
            id_gen: LocalIdGen::new(),
            bindings: HashMap::new(),
            overloads: Vec::new(),
            fn_id_by_node: HashMap::new(),
            fn_decl_type_var_ids: HashMap::new(),
            pending_fn_sigs: HashMap::new(),
        };
        proof {
            assert(value_scope_view(r.scopes@[0]) =~= Seq::<(Seq<char>, u32)>::empty());
            assert(r@.value_scopes =~= seq![Seq::<(Seq<char>, u32)>::empty()]);
            assert(r@.bindings =~= Map::<u32, TyV>::empty());
            assert(r@.fn_id_by_node =~= Map::<u32, u32>::empty());
            assert(r@.fn_tvs =~= Map::<u32, Seq<u32>>::empty());
            assert(r@.pending =~= Map::<u32, SigV>::empty());
        }
        r
    }

    /// Opens a new innermost type-variable scope.
    pub fn push_type_var_scope(&mut self)
        ensures
            fn_state_kept(old(self)@, final(self)@),
            final(self)@ == (LowerV { scopes: old(self)@.scopes.push(Seq::empty()), ..old(self)@ }),
            final(self).wf() == old(self).wf(),
    {
        let empty: Vec<(String, TypeVarId)> = Vec::new();
        assert(scope_view(empty) =~= Seq::empty());
        self.type_var_scopes.push(empty);
        assert(self@.scopes =~= old(self)@.scopes.push(Seq::empty()));
    }

    /// Closes the innermost type-variable scope and hands back its bindings.
    pub fn pop_type_var_scope(&mut self) -> (r: Vec<(String, TypeVarId)>)
        requires
            old(self)@.scopes.len() > 0,
        ensures
            fn_state_kept(old(self)@, final(self)@),
            scope_view(r) == old(self)@.scopes.last(),
            final(self)@ == (LowerV { scopes: old(self)@.scopes.drop_last(), ..old(self)@ }),
            final(self).wf() == old(self).wf(),
    {
        let r = self.type_var_scopes.pop().unwrap();
        assert(self@.scopes =~= old(self)@.scopes.drop_last());
        r
    }

    /// The type variable `name` stands for in the innermost scope that binds
    /// it.
    pub fn lookup_type_var(&self, name: &String) -> (r: Option<TypeVarId>)
        ensures
            r matches Some(id) ==> lookup_tv(self@.scopes, name@) == Some(id.0),
            r is None ==> lookup_tv(self@.scopes, name@) is None,
    {
        let mut k: usize = self.type_var_scopes.len();
        assert(self@.scopes.take(k as int) =~= self@.scopes);
        while k > 0
            invariant
                k <= self.type_var_scopes.len(),
                lookup_tv(self@.scopes, name@) == lookup_tv(self@.scopes.take(k as int), name@),
            decreases k,
        {
            assert(self@.scopes.take(k as int).drop_last() =~= self@.scopes.take(k - 1));
            let found = scope_get(&self.type_var_scopes[k - 1], name);
            if let Some(id) = found {
                return Some(id);
            }
            k = k - 1;
        }
        None
    }

    /// Makes a type variable named `name`; its id is the number made before
    /// (cut to 32 bits).
    pub fn fresh_type_var_id(&mut self, name: String) -> (id: TypeVarId)
        ensures
            fn_state_kept(old(self)@, final(self)@),
            id.0 == old(self)@.type_vars.len() as u32,
            final(self)@ == (LowerV { type_vars: old(self)@.type_vars.push(name@), ..old(self)@ }),
            final(self).wf() == old(self).wf(),
    {
        let id = TypeVarId(self.type_vars.len() as u32);
        self.type_vars.push(TypeVar { name });
        assert(self@.type_vars =~= old(self)@.type_vars.push(name@));
        id
    }

    /// Binds `name` to `id` in the innermost scope.
    fn bind_in_scope(&mut self, name: String, id: TypeVarId)
        requires
            old(self)@.scopes.len() > 0,
        ensures
            fn_state_kept(old(self)@, final(self)@),
            final(self)@ == (LowerV {
                scopes: old(self)@.scopes.update(
                    old(self)@.scopes.len() - 1,
                    old(self)@.scopes.last().push((name@, id.0)),
                ),
                ..old(self)@
            }),
            final(self).wf() == old(self).wf(),
    {
        let mut scope = self.type_var_scopes.pop().unwrap();
        let ghost before = scope_view(scope);
        scope.push((name, id));
        assert(scope_view(scope) =~= before.push((name@, id.0)));
        self.type_var_scopes.push(scope);
        assert(self@.scopes =~= old(self)@.scopes.update(
            old(self)@.scopes.len() - 1,
            old(self)@.scopes.last().push((name@, id.0)),
        ));
    }

    /// Declares each name of a `<$K, $V>` clause as a fresh type variable in
    /// the innermost scope. A name that is a struct, or already declared in
    /// that scope, is an error at `span`.
    pub fn declare_type_params(&mut self, names: &Vec<String>, span: Span) -> (r: Result<(), Error>)
        requires
            old(self)@.scopes.len() > 0,
        ensures
            fn_state_kept(old(self)@, final(self)@),
            final(self).wf() == old(self).wf(),
            declared(
                r,
                final(self)@,
                declare_spec(old(self)@, strings_view(names@), span),
                span,
            ),
    {
        let ghost st0 = self@;
        let ghost ns = strings_view(names@);
        let mut i: usize = 0;
        assert(ns.skip(0) =~= ns);
        while i < names.len()
            invariant
                fn_state_kept(old(self)@, self@),
                i <= names.len(),
                ns == strings_view(names@),
                st0 == old(self)@,
                self@.scopes.len() > 0,
                self.wf() == old(self).wf(),
                declare_spec(st0, ns, span) == declare_spec(self@, ns.skip(i as int), span),
            decreases names.len() - i,
        {
            let name = &names[i];
            assert(ns.skip(i as int)[0] == name@);
            assert(ns.skip(i as int).drop_first() =~= ns.skip(i + 1));
            let is_struct = struct_index(&self.structs, name).is_some()
                || struct_index(&self.struct_templates, name).is_some();
            assert(ns.skip(i as int).len() > 0);
            if is_struct {
                assert(declare_spec(self@, ns.skip(i as int), span) == DeclareOutcome::IsAStruct(name@, self@));
                return Err(Error { span, kind: ErrorKind::GenericIsAlsoAStruct { name: name.clone() } });
            }
            let last = self.type_var_scopes.len() - 1;
            assert(self@.scopes.last() == scope_view(self.type_var_scopes@[last as int]));
            if scope_get(&self.type_var_scopes[last], name).is_some() {
                assert(declare_spec(self@, ns.skip(i as int), span) == DeclareOutcome::AlreadyDefined(name@, self@));
                return Err(Error { span, kind: ErrorKind::GenericAlreadyDefined { name: name.clone() } });
            }
            let id = self.fresh_type_var_id(name.clone());
            self.bind_in_scope(name.clone(), id);
            i = i + 1;
        }
        assert(ns.skip(names.len() as int) =~= Seq::<Seq<char>>::empty());
        Ok(())
    }
}

/// What declaring the type parameters `names` gives: the state after, or the
/// error (a struct's name, or a name declared twice) and the state when it
/// came.
pub enum DeclareOutcome {
    Done(LowerV),
    IsAStruct(Seq<char>, LowerV),
    AlreadyDefined(Seq<char>, LowerV),
}

pub open spec fn declare_spec(st: LowerV, names: Seq<Seq<char>>, span: Span) -> DeclareOutcome
    decreases names.len(),
{
    if names.len() == 0 {
        DeclareOutcome::Done(st)
    } else {
        let n = names[0];
        if find_struct(st.structs, n) >= 0 || find_struct(st.struct_templates, n) >= 0 {
            DeclareOutcome::IsAStruct(n, st)
        } else if scope_find(st.scopes.last(), n) is Some {
            DeclareOutcome::AlreadyDefined(n, st)
        } else {
            declare_spec(bind_fresh(st, n), names.drop_first(), span)
        }
    }
}

/// Whether the result `r` and final state `st` are the outcome `o`, an error
/// being reported at `span`.
pub open spec fn declared(r: Result<(), Error>, st: LowerV, o: DeclareOutcome, span: Span) -> bool {
    match o {
        DeclareOutcome::Done(s) => r is Ok && st == s,
        DeclareOutcome::IsAStruct(n, s) => st == s && match r {
            Err(e) => e.span == span && match e.kind {
                ErrorKind::GenericIsAlsoAStruct { name } => name@ == n,
                _ => false,
            },
            Ok(_) => false,
        },
        DeclareOutcome::AlreadyDefined(n, s) => st == s && match r {
            Err(e) => e.span == span && match e.kind {
                ErrorKind::GenericAlreadyDefined { name } => name@ == n,
                _ => false,
            },
            Ok(_) => false,
        },
    }
}

/// The index of the last definition named `name`.
pub fn struct_index(v: &Vec<StructDef>, name: &String) -> (r: Option<usize>)
    ensures
        match r {
            Some(k) => k == find_struct(v@.map_values(|d: StructDef| struct_def_view(d)), name@),
            None => find_struct(v@.map_values(|d: StructDef| struct_def_view(d)), name@) == -1,
        },
{
    let ghost s = v@.map_values(|d: StructDef| struct_def_view(d));
    let mut k: usize = v.len();
    assert(s.take(k as int) =~= s);
    while k > 0
        invariant
            k <= v.len(),
            s == v@.map_values(|d: StructDef| struct_def_view(d)),
            find_struct(s, name@) == find_struct(s.take(k as int), name@),
        decreases k,
    {
        assert(s.take(k as int).drop_last() =~= s.take(k - 1));
        assert(s.take(k as int).last() == struct_def_view(v@[k - 1]));
        if v[k - 1].name == *name {
            return Some(k - 1);
        }
        k = k - 1;
    }
    None
}

/// The index of the last enum definition named `name`.
pub fn enum_index(v: &Vec<EnumDef>, name: &String) -> (r: Option<usize>)
    ensures
        match r {
            Some(k) => k == find_enum(v@.map_values(|d: EnumDef| enum_def_view(d)), name@),
            None => find_enum(v@.map_values(|d: EnumDef| enum_def_view(d)), name@) == -1,
        },
{
    let ghost s = v@.map_values(|d: EnumDef| enum_def_view(d));
    let mut k: usize = v.len();
    assert(s.take(k as int) =~= s);
    while k > 0
        invariant
            k <= v.len(),
            s == v@.map_values(|d: EnumDef| enum_def_view(d)),
            find_enum(s, name@) == find_enum(s.take(k as int), name@),
        decreases k,
    {
        assert(s.take(k as int).drop_last() =~= s.take(k - 1));
        assert(s.take(k as int).last() == enum_def_view(v@[k - 1]));
        if v[k - 1].name == *name {
            return Some(k - 1);
        }
        k = k - 1;
    }
    None
}

/// The id `name` is bound to in one scope.
pub fn scope_get(s: &Vec<(String, TypeVarId)>, name: &String) -> (r: Option<TypeVarId>)
    ensures
        r matches Some(id) ==> scope_find(scope_view(*s), name@) == Some(id.0),
        r is None ==> scope_find(scope_view(*s), name@) is None,
{
    let ghost sv = scope_view(*s);
    let mut k: usize = s.len();
    assert(sv.take(k as int) =~= sv);
    while k > 0
        invariant
            k <= s.len(),
            sv == scope_view(*s),
            scope_find(sv, name@) == scope_find(sv.take(k as int), name@),
        decreases k,
    {
        assert(sv.take(k as int).drop_last() =~= sv.take(k - 1));
        assert(sv.take(k as int).last() == (s@[k - 1].0@, s@[k - 1].1.0));
        if s[k - 1].0 == *name {
            return Some(s[k - 1].1);
        }
        k = k - 1;
    }
    None
}

// ---------------------------------------------------------------------------
// Substituting type variables, and specializing generic structs and enums.
// ---------------------------------------------------------------------------

/// How deeply specializations may nest: one specialization's fields calling
/// for another, and so on. Deeper nesting only comes from a template that
/// instantiates itself with ever larger arguments, which never ends.
pub const SPECIALIZATION_DEPTH: u32 = 32;

/// An error of lowering a type, by value.
pub enum LowerErr {
    GenericIsAlsoAStruct(Seq<char>),
    GenericOutsideFunctionSignature(Seq<char>),
    GenericAlreadyDefined(Seq<char>),
    MissingTypeArguments(Seq<char>),
    UnknownType(Seq<char>),
    UnexpectedTypeArguments(Seq<char>),
    TypeArgArityMismatch(Seq<char>, usize, usize),
    DirectStructRecursion(Seq<char>),
    AlreadyDefined(Seq<char>),
    DuplicateVariant(Seq<char>, Seq<char>),
}

/// Whether the error kind `k` is the error `e`.
pub open spec fn kind_is(k: ErrorKind, e: LowerErr) -> bool {
    match e {
        LowerErr::GenericIsAlsoAStruct(n) => k matches ErrorKind::GenericIsAlsoAStruct { name } && name@ == n,
        LowerErr::GenericOutsideFunctionSignature(n) => k matches ErrorKind::GenericOutsideFunctionSignature { name } && name@ == n,
        LowerErr::GenericAlreadyDefined(n) => k matches ErrorKind::GenericAlreadyDefined { name } && name@ == n,
        LowerErr::MissingTypeArguments(n) => k matches ErrorKind::MissingTypeArguments { name } && name@ == n,
        LowerErr::UnknownType(n) => k matches ErrorKind::UnknownType { name } && name@ == n,
        LowerErr::UnexpectedTypeArguments(n) => k matches ErrorKind::UnexpectedTypeArguments { name } && name@ == n,
        LowerErr::TypeArgArityMismatch(n, a, b) => k matches ErrorKind::TypeArgArityMismatch { name, expected, found } && name@ == n && expected == a && found == b,
        LowerErr::DirectStructRecursion(n) => k matches ErrorKind::DirectStructRecursion { name } && name@ == n,
        LowerErr::AlreadyDefined(n) => k matches ErrorKind::AlreadyDefined { name } && name@ == n,
        LowerErr::DuplicateVariant(n, e) => k matches ErrorKind::DuplicateVariant { name, other_enum } && name@ == n && other_enum@ == e,
    }
}

/// Whether a type argument list still holds a type variable or a generic
/// struct.
pub open spec fn still_generic_struct(s: Seq<TyV>) -> bool {
    exists|i: int| 0 <= i < s.len() && (occurrences(#[trigger] s[i]).len() > 0 || s[i] is GenericStruct)
}

/// Whether a type argument list still holds a type variable or a generic
/// enum.
pub open spec fn still_generic_enum(s: Seq<TyV>) -> bool {
    exists|i: int| 0 <= i < s.len() && (occurrences(#[trigger] s[i]).len() > 0 || s[i] is GenericEnum)
}

/// The specialization recorded for `name` and `args`, if any.
pub open spec fn cache_find(c: Seq<(Seq<char>, Seq<TyV>, Seq<char>)>, name: Seq<char>, args: Seq<TyV>) -> Option<Seq<char>>
    decreases c.len(),
{
    if c.len() == 0 {
        None
    } else if c.last().0 == name && c.last().1 == args {
        Some(c.last().2)
    } else {
        cache_find(c.drop_last(), name, args)
    }
}

/// The substitution binding the first `n` type parameters to the first `n`
/// arguments, a later binding of the same variable winning.
pub open spec fn zip_upto(tvs: Seq<u32>, args: Seq<TyV>, n: int) -> Map<u32, TyV>
    decreases n,
{
    if n <= 0 {
        Map::empty()
    } else {
        zip_upto(tvs, args, n - 1).insert(tvs[n - 1], args[n - 1])
    }
}

/// The substitution binding type parameters to arguments pairwise.
pub open spec fn zip_subst(tvs: Seq<u32>, args: Seq<TyV>) -> Map<u32, TyV> {
    zip_upto(tvs, args, if tvs.len() < args.len() { tvs.len() as int } else { args.len() as int })
}

/// Whether the origin record of `specialized` with `args` can be added:
/// no record's arguments, nor `args`, name `specialized`.
pub open spec fn origin_fits(o: Seq<OriginV>, is_enum: bool, specialized: Seq<char>, args: Seq<TyV>) -> bool {
    (forall|m: int| 0 <= m < o.len() ==> !mentions_list(#[trigger] o[m].args, is_enum, specialized))
        && !mentions_list(args, is_enum, specialized)
}

/// A list result with `pre` put in front of its values.
pub open spec fn prepend_list<A, E>(pre: Seq<A>, o: (Result<Seq<A>, E>, LowerV)) -> (Result<Seq<A>, E>, LowerV) {
    (
        match o.0 {
            Ok(rest) => Ok(pre + rest),
            Err(e) => Err(e),
        },
        o.1,
    )
}

pub proof fn lemma_prepend_list<A, E>(p: Seq<A>, q: Seq<A>, o: (Result<Seq<A>, E>, LowerV))
    ensures
        prepend_list(p, prepend_list(q, o)) == prepend_list(p + q, o),
        prepend_list(Seq::<A>::empty(), o) == o,
{
    match o.0 {
        Ok(rest) => {
            assert(p + (q + rest) =~= (p + q) + rest);
            assert(Seq::<A>::empty() + rest =~= rest);
        },
        Err(_) => {},
    }
}

/// Substituting `m` in `t` at specialization depth `fuel`: the type, or the
/// error, and the state afterwards (specializations made on the way are
/// registered).
pub open spec fn subst_spec(st: LowerV, t: TyV, m: Map<u32, TyV>, fuel: nat) -> (Result<TyV, LowerErr>, LowerV)
    decreases fuel, t, 0nat,
{
    match t {
        TyV::TypeVar(id) => (Ok(if m.contains_key(id) { m[id] } else { t }), st),
        TyV::Ptr(inner) => {
            let (r, st1) = subst_spec(st, *inner, m, fuel);
            (
                match r {
                    Ok(x) => Ok(TyV::Ptr(Box::new(x))),
                    Err(e) => Err(e),
                },
                st1,
            )
        },
        TyV::Array { element, count } => {
            let (r, st1) = subst_spec(st, *element, m, fuel);
            (
                match r {
                    Ok(x) => Ok(TyV::Array { element: Box::new(x), count }),
                    Err(e) => Err(e),
                },
                st1,
            )
        },
        TyV::Function { params, return_ty, varargs } => {
            let (ps, st1) = subst_list_spec(st, params, m, fuel);
            match ps {
                Err(e) => (Err(e), st1),
                Ok(ps) => {
                    let (r, st2) = subst_spec(st1, *return_ty, m, fuel);
                    (
                        match r {
                            Ok(x) => Ok(TyV::Function { params: ps, return_ty: Box::new(x), varargs }),
                            Err(e) => Err(e),
                        },
                        st2,
                    )
                },
            }
        },
        TyV::Closure { params, return_ty } => {
            let (ps, st1) = subst_list_spec(st, params, m, fuel);
            match ps {
                Err(e) => (Err(e), st1),
                Ok(ps) => {
                    let (r, st2) = subst_spec(st1, *return_ty, m, fuel);
                    (
                        match r {
                            Ok(x) => Ok(TyV::Closure { params: ps, return_ty: Box::new(x) }),
                            Err(e) => Err(e),
                        },
                        st2,
                    )
                },
            }
        },
        TyV::Tuple(elems) => {
            let (r, st1) = subst_list_spec(st, elems, m, fuel);
            (
                match r {
                    Ok(x) => Ok(TyV::Tuple(x)),
                    Err(e) => Err(e),
                },
                st1,
            )
        },
        TyV::GenericStruct { name, args } => {
            let (r, st1) = subst_list_spec(st, args, m, fuel);
            match r {
                Err(e) => (Err(e), st1),
                Ok(new_args) => if still_generic_struct(new_args) {
                    (Ok(TyV::GenericStruct { name, args: new_args }), st1)
                } else {
                    let k = find_struct(st1.struct_templates, name);
                    if k < 0 {
                        (Err(LowerErr::UnknownType(name)), st1)
                    } else if fuel == 0 {
                        (Err(LowerErr::DirectStructRecursion(name)), st1)
                    } else {
                        let (r2, st2) = specialize_struct_spec(
                            st1,
                            st1.struct_templates[k],
                            new_args,
                            (fuel - 1) as nat,
                        );
                        (
                            match r2 {
                                Ok(n) => Ok(TyV::Struct(n)),
                                Err(e) => Err(e),
                            },
                            st2,
                        )
                    }
                },
            }
        },
        TyV::GenericEnum { name, args } => {
            let (r, st1) = subst_list_spec(st, args, m, fuel);
            match r {
                Err(e) => (Err(e), st1),
                Ok(new_args) => if still_generic_enum(new_args) {
                    (Ok(TyV::GenericEnum { name, args: new_args }), st1)
                } else {
                    let k = find_enum(st1.enum_templates, name);
                    if k < 0 {
                        (Err(LowerErr::UnknownType(name)), st1)
                    } else if fuel == 0 {
                        (Err(LowerErr::DirectStructRecursion(name)), st1)
                    } else {
                        let (r2, st2) = specialize_enum_spec(
                            st1,
                            st1.enum_templates[k],
                            new_args,
                            (fuel - 1) as nat,
                        );
                        (
                            match r2 {
                                Ok(n) => Ok(TyV::Enum(n)),
                                Err(e) => Err(e),
                            },
                            st2,
                        )
                    }
                },
            }
        },
        _ => (Ok(t), st),
    }
}

/// Substituting in each type of a list, first to last, stopping at the
/// first error.
pub open spec fn subst_list_spec(st: LowerV, s: Seq<TyV>, m: Map<u32, TyV>, fuel: nat) -> (Result<Seq<TyV>, LowerErr>, LowerV)
    decreases fuel, s, 0nat,
{
    if s.len() == 0 {
        (Ok(Seq::empty()), st)
    } else {
        let (r, st1) = subst_spec(st, s[0], m, fuel);
        match r {
            Err(e) => (Err(e), st1),
            Ok(x) => prepend_list(seq![x], subst_list_spec(st1, s.subrange(1, s.len() as int), m, fuel)),
        }
    }
}

/// Substituting in the type of each field.
pub open spec fn subst_fields_spec(st: LowerV, s: Seq<(Seq<char>, TyV)>, m: Map<u32, TyV>, fuel: nat) -> (Result<Seq<(Seq<char>, TyV)>, LowerErr>, LowerV)
    decreases fuel, s, 0nat,
{
    if s.len() == 0 {
        (Ok(Seq::empty()), st)
    } else {
        let (r, st1) = subst_spec(st, s[0].1, m, fuel);
        match r {
            Err(e) => (Err(e), st1),
            Ok(x) => prepend_list(seq![(s[0].0, x)], subst_fields_spec(st1, s.subrange(1, s.len() as int), m, fuel)),
        }
    }
}

/// Substituting in the field types of each variant.
pub open spec fn subst_variants_spec(st: LowerV, s: Seq<(Seq<char>, Seq<TyV>)>, m: Map<u32, TyV>, fuel: nat) -> (Result<Seq<(Seq<char>, Seq<TyV>)>, LowerErr>, LowerV)
    decreases fuel, s, 0nat,
{
    if s.len() == 0 {
        (Ok(Seq::empty()), st)
    } else {
        let (r, st1) = subst_list_spec(st, s[0].1, m, fuel);
        match r {
            Err(e) => (Err(e), st1),
            Ok(x) => prepend_list(seq![(s[0].0, x)], subst_variants_spec(st1, s.subrange(1, s.len() as int), m, fuel)),
        }
    }
}

/// Specializing the struct template `tm` on `args`: the name of the
/// specialization, made and registered unless it was made before.
pub open spec fn specialize_struct_spec(st: LowerV, tm: StructDefV, args: Seq<TyV>, fuel: nat) -> (Result<Seq<char>, LowerErr>, LowerV)
    decreases fuel, tm.fields, 1nat,
{
    match cache_find(st.struct_cache, tm.name, args) {
        Some(n) => (Ok(n), st),
        None => {
            let name = mangled(tm.name, args);
            let st1 = LowerV { struct_cache: st.struct_cache.push((tm.name, args, name)), ..st };
            if !origin_fits(st1.origins, false, name, args) {
                (Err(LowerErr::DirectStructRecursion(tm.name)), st1)
            } else {
                let st2 = LowerV {
                    origins: st1.origins.push(OriginV { is_enum: false, specialized: name, template: tm.name, args }),
                    ..st1
                };
                let (r, st3) = subst_fields_spec(st2, tm.fields, zip_subst(tm.tvs, args), fuel);
                match r {
                    Err(e) => (Err(e), st3),
                    Ok(fs) => (
                        Ok(name),
                        LowerV {
                            structs: put_struct(st3.structs, StructDefV { name, tvs: Seq::empty(), fields: fs }),
                            ..st3
                        },
                    ),
                }
            }
        },
    }
}

/// Specializing the enum template `tm` on `args`.
pub open spec fn specialize_enum_spec(st: LowerV, tm: EnumDefV, args: Seq<TyV>, fuel: nat) -> (Result<Seq<char>, LowerErr>, LowerV)
    decreases fuel, tm.variants, 1nat,
{
    match cache_find(st.enum_cache, tm.name, args) {
        Some(n) => (Ok(n), st),
        None => {
            let name = mangled(tm.name, args);
            let st1 = LowerV { enum_cache: st.enum_cache.push((tm.name, args, name)), ..st };
            if !origin_fits(st1.origins, true, name, args) {
                (Err(LowerErr::DirectStructRecursion(tm.name)), st1)
            } else {
                let st2 = LowerV {
                    origins: st1.origins.push(OriginV { is_enum: true, specialized: name, template: tm.name, args }),
                    ..st1
                };
                let (r, st3) = subst_variants_spec(st2, tm.variants, zip_subst(tm.tvs, args), fuel);
                match r {
                    Err(e) => (Err(e), st3),
                    Ok(vs) => (
                        Ok(name),
                        LowerV {
                            enums: put_enum(st3.enums, EnumDefV { name, tvs: Seq::empty(), variants: vs }),
                            ..st3
                        },
                    ),
                }
            }
        },
    }
}

// ---------------------------------------------------------------------------
// Specializations are made once.
// ---------------------------------------------------------------------------

/// Whether every specialization recorded in `a` is recorded, with the same
/// name, in `b`.
pub open spec fn cache_kept(a: LowerV, b: LowerV) -> bool {
    &&& forall|k: Seq<char>, x: Seq<TyV>|
        #[trigger] cache_find(a.struct_cache, k, x) is Some ==> cache_find(b.struct_cache, k, x)
            == cache_find(a.struct_cache, k, x)
    &&& forall|k: Seq<char>, x: Seq<TyV>|
        #[trigger] cache_find(a.enum_cache, k, x) is Some ==> cache_find(b.enum_cache, k, x)
            == cache_find(a.enum_cache, k, x)
}

proof fn lemma_cache_push(c: Seq<(Seq<char>, Seq<TyV>, Seq<char>)>, e: (Seq<char>, Seq<TyV>, Seq<char>))
    requires
        cache_find(c, e.0, e.1) is None,
    ensures
        forall|k: Seq<char>, x: Seq<TyV>|
            #[trigger] cache_find(c, k, x) is Some ==> cache_find(c.push(e), k, x) == cache_find(c, k, x),
        cache_find(c.push(e), e.0, e.1) == Some(e.2),
{
    assert(c.push(e).drop_last() =~= c);
}

/// Substituting keeps every recorded specialization.
proof fn lemma_subst_cache(st: LowerV, t: TyV, m: Map<u32, TyV>, fuel: nat)
    ensures
        cache_kept(st, subst_spec(st, t, m, fuel).1),
    decreases fuel, t, 0nat,
{
    match t {
        TyV::Ptr(inner) => {
            lemma_subst_cache(st, *inner, m, fuel);
        },
        TyV::Array { element, .. } => {
            lemma_subst_cache(st, *element, m, fuel);
        },
        TyV::Function { params, return_ty, .. } => {
            lemma_subst_list_cache(st, params, m, fuel);
            let st1 = subst_list_spec(st, params, m, fuel).1;
            lemma_subst_cache(st1, *return_ty, m, fuel);
        },
        TyV::Closure { params, return_ty } => {
            lemma_subst_list_cache(st, params, m, fuel);
            let st1 = subst_list_spec(st, params, m, fuel).1;
            lemma_subst_cache(st1, *return_ty, m, fuel);
        },
        TyV::Tuple(elems) => {
            lemma_subst_list_cache(st, elems, m, fuel);
        },
        TyV::GenericStruct { name, args } => {
            lemma_subst_list_cache(st, args, m, fuel);
            let (r, st1) = subst_list_spec(st, args, m, fuel);
            if let Ok(new_args) = r {
                let k = find_struct(st1.struct_templates, name);
                if !still_generic_struct(new_args) && k >= 0 && fuel > 0 {
                    lemma_specialize_struct_cache(st1, st1.struct_templates[k], new_args, (fuel - 1) as nat);
                }
            }
        },
        TyV::GenericEnum { name, args } => {
            lemma_subst_list_cache(st, args, m, fuel);
            let (r, st1) = subst_list_spec(st, args, m, fuel);
            if let Ok(new_args) = r {
                let k = find_enum(st1.enum_templates, name);
                if !still_generic_enum(new_args) && k >= 0 && fuel > 0 {
                    lemma_specialize_enum_cache(st1, st1.enum_templates[k], new_args, (fuel - 1) as nat);
                }
            }
        },
        _ => {},
    }
}

proof fn lemma_subst_list_cache(st: LowerV, s: Seq<TyV>, m: Map<u32, TyV>, fuel: nat)
    ensures
        cache_kept(st, subst_list_spec(st, s, m, fuel).1),
    decreases fuel, s, 0nat,
{
    if s.len() > 0 {
        lemma_subst_cache(st, s[0], m, fuel);
        let (r, st1) = subst_spec(st, s[0], m, fuel);
        if r is Ok {
            lemma_subst_list_cache(st1, s.subrange(1, s.len() as int), m, fuel);
        }
    }
}

proof fn lemma_subst_fields_cache(st: LowerV, s: Seq<(Seq<char>, TyV)>, m: Map<u32, TyV>, fuel: nat)
    ensures
        cache_kept(st, subst_fields_spec(st, s, m, fuel).1),
    decreases fuel, s, 0nat,
{
    if s.len() > 0 {
        lemma_subst_cache(st, s[0].1, m, fuel);
        let (r, st1) = subst_spec(st, s[0].1, m, fuel);
        if r is Ok {
            lemma_subst_fields_cache(st1, s.subrange(1, s.len() as int), m, fuel);
        }
    }
}

proof fn lemma_subst_variants_cache(st: LowerV, s: Seq<(Seq<char>, Seq<TyV>)>, m: Map<u32, TyV>, fuel: nat)
    ensures
        cache_kept(st, subst_variants_spec(st, s, m, fuel).1),
    decreases fuel, s, 0nat,
{
    if s.len() > 0 {
        lemma_subst_list_cache(st, s[0].1, m, fuel);
        let (r, st1) = subst_list_spec(st, s[0].1, m, fuel);
        if r is Ok {
            lemma_subst_variants_cache(st1, s.subrange(1, s.len() as int), m, fuel);
        }
    }
}

proof fn lemma_specialize_struct_cache(st: LowerV, tm: StructDefV, args: Seq<TyV>, fuel: nat)
    ensures
        cache_kept(st, specialize_struct_spec(st, tm, args, fuel).1),
        specialize_struct_spec(st, tm, args, fuel).0 matches Ok(n) ==> cache_find(
            specialize_struct_spec(st, tm, args, fuel).1.struct_cache,
            tm.name,
            args,
        ) == Some(n),
    decreases fuel, tm.fields, 1nat,
{
    if cache_find(st.struct_cache, tm.name, args) is None {
        let name = mangled(tm.name, args);
        let e = (tm.name, args, name);
        lemma_cache_push(st.struct_cache, e);
        let st1 = LowerV { struct_cache: st.struct_cache.push(e), ..st };
        if origin_fits(st1.origins, false, name, args) {
            let st2 = LowerV {
                origins: st1.origins.push(OriginV { is_enum: false, specialized: name, template: tm.name, args }),
                ..st1
            };
            lemma_subst_fields_cache(st2, tm.fields, zip_subst(tm.tvs, args), fuel);
        }
    }
}

proof fn lemma_specialize_enum_cache(st: LowerV, tm: EnumDefV, args: Seq<TyV>, fuel: nat)
    ensures
        cache_kept(st, specialize_enum_spec(st, tm, args, fuel).1),
        specialize_enum_spec(st, tm, args, fuel).0 matches Ok(n) ==> cache_find(
            specialize_enum_spec(st, tm, args, fuel).1.enum_cache,
            tm.name,
            args,
        ) == Some(n),
    decreases fuel, tm.variants, 1nat,
{
    if cache_find(st.enum_cache, tm.name, args) is None {
        let name = mangled(tm.name, args);
        let e = (tm.name, args, name);
        lemma_cache_push(st.enum_cache, e);
        let st1 = LowerV { enum_cache: st.enum_cache.push(e), ..st };
        if origin_fits(st1.origins, true, name, args) {
            let st2 = LowerV {
                origins: st1.origins.push(OriginV { is_enum: true, specialized: name, template: tm.name, args }),
                ..st1
            };
            lemma_subst_variants_cache(st2, tm.variants, zip_subst(tm.tvs, args), fuel);
        }
    }
}

/// Specializing a struct template a second time on the same arguments gives
/// the name the first time gave, and changes nothing.
pub proof fn law_specialize_struct_once(st: LowerV, tm: StructDefV, args: Seq<TyV>, f1: nat, f2: nat)
    ensures
        specialize_struct_spec(st, tm, args, f1).0 is Ok ==> {
            let st1 = specialize_struct_spec(st, tm, args, f1).1;
            specialize_struct_spec(st1, tm, args, f2) == (specialize_struct_spec(st, tm, args, f1).0, st1)
        },
{
    lemma_specialize_struct_cache(st, tm, args, f1);
}

/// Specializing an enum template a second time on the same arguments gives
/// the name the first time gave, and changes nothing.
pub proof fn law_specialize_enum_once(st: LowerV, tm: EnumDefV, args: Seq<TyV>, f1: nat, f2: nat)
    ensures
        specialize_enum_spec(st, tm, args, f1).0 is Ok ==> {
            let st1 = specialize_enum_spec(st, tm, args, f1).1;
            specialize_enum_spec(st1, tm, args, f2) == (specialize_enum_spec(st, tm, args, f1).0, st1)
        },
{
    lemma_specialize_enum_cache(st, tm, args, f1);
}

/// Whether `r` and the state `st` are the outcome `o` of a substitution.
pub open spec fn subst_out(r: Result<Ty, ErrorKind>, st: LowerV, o: (Result<TyV, LowerErr>, LowerV)) -> bool {
    st == o.1 && match o.0 {
        Ok(v) => r matches Ok(t) && t@ == v,
        Err(e) => r matches Err(k) && kind_is(k, e),
    }
}

pub open spec fn list_out(r: Result<Vec<Ty>, ErrorKind>, st: LowerV, o: (Result<Seq<TyV>, LowerErr>, LowerV)) -> bool {
    st == o.1 && match o.0 {
        Ok(v) => r matches Ok(t) && tys_view(t@) == v,
        Err(e) => r matches Err(k) && kind_is(k, e),
    }
}

pub open spec fn fields_out(r: Result<Vec<(String, Ty)>, ErrorKind>, st: LowerV, o: (Result<Seq<(Seq<char>, TyV)>, LowerErr>, LowerV)) -> bool {
    st == o.1 && match o.0 {
        Ok(v) => r matches Ok(t) && fields_view(t@) == v,
        Err(e) => r matches Err(k) && kind_is(k, e),
    }
}

pub open spec fn variants_out(r: Result<Vec<EnumVariant>, ErrorKind>, st: LowerV, o: (Result<Seq<(Seq<char>, Seq<TyV>)>, LowerErr>, LowerV)) -> bool {
    st == o.1 && match o.0 {
        Ok(v) => r matches Ok(t) && variants_view(t@) == v,
        Err(e) => r matches Err(k) && kind_is(k, e),
    }
}

pub open spec fn name_out(r: Result<String, ErrorKind>, st: LowerV, o: (Result<Seq<char>, LowerErr>, LowerV)) -> bool {
    st == o.1 && match o.0 {
        Ok(v) => r matches Ok(t) && t@ == v,
        Err(e) => r matches Err(k) && kind_is(k, e),
    }
}

pub proof fn lemma_tys_view_push(s: Seq<Ty>, t: Ty)
    ensures
        tys_view(s.push(t)) == tys_view(s).push(t@),
{
    assert(s.push(t).subrange(0, s.len() as int) =~= s);
}

/// A copy of a list of type-variable ids.
pub fn type_var_ids_duplicate(v: &Vec<TypeVarId>) -> (r: Vec<TypeVarId>)
    ensures
        r@ == v@,
{
    let mut out: Vec<TypeVarId> = Vec::new();
    let mut i: usize = 0;
    while i < v.len()
        invariant
            i <= v.len(),
            out@ == v@.take(i as int),
        decreases v.len() - i,
    {
        out.push(v[i]);
        i = i + 1;
        assert(out@ =~= v@.take(i as int));
    }
    assert(v@.take(i as int) =~= v@);
    out
}

/// A copy of a struct definition.
pub fn struct_def_duplicate(d: &StructDef) -> (r: StructDef)
    ensures
        struct_def_view(r) == struct_def_view(*d),
{
    let mut tvs: Vec<TypeVarId> = Vec::new();
    let mut i: usize = 0;
    while i < d.type_var_ids.len()
        invariant
            i <= d.type_var_ids.len(),
            tvs@ == d.type_var_ids@.take(i as int),
        decreases d.type_var_ids.len() - i,
    {
        tvs.push(d.type_var_ids[i]);
        i = i + 1;
        assert(tvs@ =~= d.type_var_ids@.take(i as int));
    }
    assert(d.type_var_ids@.take(i as int) =~= d.type_var_ids@);
    let mut fields: Vec<(String, Ty)> = Vec::new();
    let mut j: usize = 0;
    while j < d.fields.len()
        invariant
            j <= d.fields.len(),
            fields_view(fields@) == fields_view(d.fields@).take(j as int),
        decreases d.fields.len() - j,
    {
        let f = (d.fields[j].0.clone(), d.fields[j].1.duplicate());
        let ghost prev = fields@;
        fields.push(f);
        proof {
            assert(fields_view(fields@) =~= fields_view(prev).push((f.0@, f.1@)));
            assert(fields_view(d.fields@).take(j + 1) =~= fields_view(d.fields@).take(j as int).push(
                fields_view(d.fields@)[j as int],
            ));
        }
        j = j + 1;
    }
    assert(fields_view(d.fields@).take(j as int) =~= fields_view(d.fields@));
    StructDef { name: d.name.clone(), type_var_ids: tvs, fields }
}

/// A copy of an enum definition.
pub fn enum_def_duplicate(d: &EnumDef) -> (r: EnumDef)
    ensures
        enum_def_view(r) == enum_def_view(*d),
{
    let mut tvs: Vec<TypeVarId> = Vec::new();
    let mut i: usize = 0;
    while i < d.type_var_ids.len()
        invariant
            i <= d.type_var_ids.len(),
            tvs@ == d.type_var_ids@.take(i as int),
        decreases d.type_var_ids.len() - i,
    {
        tvs.push(d.type_var_ids[i]);
        i = i + 1;
        assert(tvs@ =~= d.type_var_ids@.take(i as int));
    }
    assert(d.type_var_ids@.take(i as int) =~= d.type_var_ids@);
    let mut vs: Vec<EnumVariant> = Vec::new();
    let mut j: usize = 0;
    while j < d.variants.len()
        invariant
            j <= d.variants.len(),
            variants_view(vs@) == variants_view(d.variants@).take(j as int),
        decreases d.variants.len() - j,
    {
        let v = EnumVariant { name: d.variants[j].name.clone(), fields: tys_duplicate(&d.variants[j].fields) };
        let ghost prev = vs@;
        vs.push(v);
        proof {
            assert(variants_view(vs@) =~= variants_view(prev).push((v.name@, tys_view(v.fields@))));
            assert(variants_view(d.variants@).take(j + 1) =~= variants_view(d.variants@).take(j as int).push(
                variants_view(d.variants@)[j as int],
            ));
        }
        j = j + 1;
    }
    assert(variants_view(d.variants@).take(j as int) =~= variants_view(d.variants@));
    EnumDef { name: d.name.clone(), type_var_ids: tvs, variants: vs }
}

/// Stores `d` under its name: replacing the definition of that name, or
/// added at the end.
pub fn insert_struct(v: &mut Vec<StructDef>, d: StructDef)
    ensures
        final(v)@.map_values(|x: StructDef| struct_def_view(x)) == put_struct(
            old(v)@.map_values(|x: StructDef| struct_def_view(x)),
            struct_def_view(d),
        ),
{
    let ghost dv = struct_def_view(d);
    let ghost before = v@.map_values(|x: StructDef| struct_def_view(x));
    proof {
        lemma_find_struct(before, d.name@);
    }
    match struct_index(v, &d.name) {
        Some(k) => {
            v.set(k, d);
            assert(v@.map_values(|x: StructDef| struct_def_view(x)) =~= before.update(k as int, dv));
        },
        None => {
            v.push(d);
            assert(v@.map_values(|x: StructDef| struct_def_view(x)) =~= before.push(dv));
        },
    }
}

/// Stores the enum `d` under its name.
pub fn insert_enum(v: &mut Vec<EnumDef>, d: EnumDef)
    ensures
        final(v)@.map_values(|x: EnumDef| enum_def_view(x)) == put_enum(
            old(v)@.map_values(|x: EnumDef| enum_def_view(x)),
            enum_def_view(d),
        ),
{
    let ghost dv = enum_def_view(d);
    let ghost before = v@.map_values(|x: EnumDef| enum_def_view(x));
    proof {
        lemma_find_enum(before, d.name@);
    }
    match enum_index(v, &d.name) {
        Some(k) => {
            v.set(k, d);
            assert(v@.map_values(|x: EnumDef| enum_def_view(x)) =~= before.update(k as int, dv));
        },
        None => {
            v.push(d);
            assert(v@.map_values(|x: EnumDef| enum_def_view(x)) =~= before.push(dv));
        },
    }
}

/// The specialization recorded for `name` and `args`, if any.
pub fn cache_get(c: &Vec<CacheEntry>, name: &String, args: &Vec<Ty>) -> (r: Option<String>)
    ensures
        match r {
            Some(n) => cache_find(c@.map_values(|e: CacheEntry| cache_view(e)), name@, tys_view(args@)) == Some(n@),
            None => cache_find(c@.map_values(|e: CacheEntry| cache_view(e)), name@, tys_view(args@)) is None,
        },
{
    let ghost s = c@.map_values(|e: CacheEntry| cache_view(e));
    let mut k: usize = c.len();
    assert(s.take(k as int) =~= s);
    while k > 0
        invariant
            k <= c.len(),
            s == c@.map_values(|e: CacheEntry| cache_view(e)),
            cache_find(s, name@, tys_view(args@)) == cache_find(s.take(k as int), name@, tys_view(args@)),
        decreases k,
    {
        assert(s.take(k as int).drop_last() =~= s.take(k - 1));
        assert(s.take(k as int).last() == cache_view(c@[k - 1]));
        if c[k - 1].template == *name && tys_same(&c[k - 1].args, args) {
            return Some(c[k - 1].specialized.clone());
        }
        k = k - 1;
    }
    None
}

/// The substitution binding `tvs` to `args` pairwise.
pub fn zip_map(tvs: &Vec<TypeVarId>, args: &Vec<Ty>) -> (m: HashMap<u32, Ty>)
    ensures
        subst_view(m@) == zip_subst(ids_of(tvs@), tys_view(args@)),
{
    let mut m: HashMap<u32, Ty> = HashMap::new();
    let n: usize = if tvs.len() < args.len() { tvs.len() } else { args.len() };
    let ghost ts = ids_of(tvs@);
    let ghost avs = tys_view(args@);
    proof {
        lemma_tys_view(args@);
        assert(subst_view(m@) =~= Map::<u32, TyV>::empty());
    }
    let mut i: usize = 0;
    while i < n
        invariant
            i <= n,
            n <= tvs.len(),
            n <= args.len(),
            ts == ids_of(tvs@),
            avs == tys_view(args@),
            avs.len() == args.len(),
            forall|j: int| 0 <= j < args.len() ==> #[trigger] avs[j] == ty_view(args@[j]),
            subst_view(m@) == zip_upto(ts, avs, i as int),
        decreases n - i,
    {
        let t = args[i].duplicate();
        m.insert(tvs[i].0, t);
        proof {
            assert(ts[i as int] == tvs@[i as int].0);
            assert(subst_view(m@) =~= zip_upto(ts, avs, i as int).insert(ts[i as int], avs[i as int]));
        }
        i = i + 1;
    }
    m
}

/// Whether a list of types still holds a type variable or, as `is_enum`
/// says, a generic enum or a generic struct.
fn still_generic(v: &Vec<Ty>, is_enum: bool) -> (r: bool)
    ensures
        !is_enum ==> r == still_generic_struct(tys_view(v@)),
        is_enum ==> r == still_generic_enum(tys_view(v@)),
{
    proof {
        lemma_tys_view(v@);
    }
    let mut i: usize = 0;
    while i < v.len()
        invariant
            i <= v.len(),
            forall|j: int| 0 <= j < v.len() ==> #[trigger] tys_view(v@)[j] == ty_view(v@[j]),
            forall|j: int|
                0 <= j < i ==> !(occurrences(#[trigger] tys_view(v@)[j]).len() > 0 || (if is_enum {
                    tys_view(v@)[j] is GenericEnum
                } else {
                    tys_view(v@)[j] is GenericStruct
                })),
        decreases v.len() - i,
    {
        let generic_kind = match &v[i] {
            Ty::GenericStruct { .. } => !is_enum,
            Ty::GenericEnum { .. } => is_enum,
            _ => false,
        };
        if ty_has_typevars(&v[i]) || generic_kind {
            assert(tys_view(v@)[i as int] == ty_view(v@[i as int]));
            return true;
        }
        i = i + 1;
    }
    false
}

impl Lower {
    /// Substitutes `m` in `ty`, specializing each generic struct or enum
    /// whose arguments become concrete. Nesting deeper than `fuel`
    /// specializations is refused.
    pub fn subst_ty(&mut self, ty: &Ty, m: &HashMap<u32, Ty>, fuel: u32) -> (r: Result<Ty, ErrorKind>)
        requires
            old(self).wf(),
        ensures
            fn_state_kept(old(self)@, final(self)@),
            final(self).wf(),
            subst_out(r, final(self)@, subst_spec(old(self)@, ty@, subst_view(m@), fuel as nat)),
        decreases fuel, ty@, 0nat,
    {
        match ty {
            Ty::TypeVar(id) => {
                match m.get(&id.0) {
                    Some(t) => {
                        assert(subst_view(m@)[id.0] == t@);
                        Ok(t.duplicate())
                    },
                    None => Ok(Ty::TypeVar(*id)),
                }
            },
            Ty::Ptr(inner) => {
                assert(ty@ == TyV::Ptr(Box::new(ty_view(**inner))));
                assert(decreases_to!(ty@ => ty@->Ptr_0));
                match self.subst_ty(inner, m, fuel) {
                    Ok(x) => Ok(Ty::Ptr(Box::new(x))),
                    Err(e) => Err(e),
                }
            },
            Ty::Array { element, count } => {
                assert(ty@ == TyV::Array { element: Box::new(ty_view(**element)), count: *count });
                assert(decreases_to!(ty@ => ty@->element));
                match self.subst_ty(element, m, fuel) {
                    Ok(x) => Ok(Ty::Array { element: Box::new(x), count: *count }),
                    Err(e) => Err(e),
                }
            },
            Ty::Function { params, return_ty, varargs } => {
                assert(ty@ == TyV::Function {
                    params: tys_view(params@),
                    return_ty: Box::new(ty_view(**return_ty)),
                    varargs: *varargs,
                });
                proof {
                    let tv = ty@;
                    match tv {
                        TyV::Function { params: ps, return_ty: rt, varargs: va } => {
                            assert(decreases_to!(tv => ps));
                            assert(decreases_to!(tv => rt));
                        },
                        _ => {},
                    }
                }
                let ps = match self.subst_tys(params, m, fuel) {
                    Ok(ps) => ps,
                    Err(e) => return Err(e),
                };
                match self.subst_ty(return_ty, m, fuel) {
                    Ok(x) => Ok(Ty::Function { params: ps, return_ty: Box::new(x), varargs: *varargs }),
                    Err(e) => Err(e),
                }
            },
            Ty::Closure { params, return_ty } => {
                assert(ty@ == TyV::Closure { params: tys_view(params@), return_ty: Box::new(ty_view(**return_ty)) });
                proof {
                    let tv = ty@;
                    match tv {
                        TyV::Function { params: ps, return_ty: rt, varargs: va } => {
                            assert(decreases_to!(tv => ps));
                            assert(decreases_to!(tv => rt));
                        },
                        _ => {},
                    }
                }
                let ps = match self.subst_tys(params, m, fuel) {
                    Ok(ps) => ps,
                    Err(e) => return Err(e),
                };
                match self.subst_ty(return_ty, m, fuel) {
                    Ok(x) => Ok(Ty::Closure { params: ps, return_ty: Box::new(x) }),
                    Err(e) => Err(e),
                }
            },
            Ty::Tuple(elems) => {
                match self.subst_tys(elems, m, fuel) {
                    Ok(x) => Ok(Ty::Tuple(x)),
                    Err(e) => Err(e),
                }
            },
            Ty::GenericStruct { name, args } => {
                let new_args = match self.subst_tys(args, m, fuel) {
                    Ok(a) => a,
                    Err(e) => return Err(e),
                };
                if still_generic(&new_args, false) {
                    return Ok(Ty::GenericStruct { name: name.clone(), args: new_args });
                }
                let k = match struct_index(&self.struct_templates, name) {
                    Some(k) => k,
                    None => return Err(ErrorKind::UnknownType { name: name.clone() }),
                };
                if fuel == 0 {
                    return Err(ErrorKind::DirectStructRecursion { name: name.clone() });
                }
                proof {
                    lemma_find_struct(self@.struct_templates, name@);
                }
                let tm = struct_def_duplicate(&self.struct_templates[k]);
                assert(struct_def_view(tm) == self@.struct_templates[k as int]);
                match self.specialize_struct(&tm, new_args, fuel - 1) {
                    Ok(n) => Ok(Ty::Struct(n)),
                    Err(e) => Err(e),
                }
            },
            Ty::GenericEnum { name, args } => {
                let new_args = match self.subst_tys(args, m, fuel) {
                    Ok(a) => a,
                    Err(e) => return Err(e),
                };
                if still_generic(&new_args, true) {
                    return Ok(Ty::GenericEnum { name: name.clone(), args: new_args });
                }
                let k = match enum_index(&self.enum_templates, name) {
                    Some(k) => k,
                    None => return Err(ErrorKind::UnknownType { name: name.clone() }),
                };
                if fuel == 0 {
                    return Err(ErrorKind::DirectStructRecursion { name: name.clone() });
                }
                proof {
                    lemma_find_enum(self@.enum_templates, name@);
                }
                let tm = enum_def_duplicate(&self.enum_templates[k]);
                assert(enum_def_view(tm) == self@.enum_templates[k as int]);
                match self.specialize_enum(&tm, new_args, fuel - 1) {
                    Ok(n) => Ok(Ty::Enum(n)),
                    Err(e) => Err(e),
                }
            },
            _ => Ok(ty.duplicate()),
        }
    }

    /// Substitutes `m` in each type of `v`, first to last.
    pub fn subst_tys(&mut self, v: &Vec<Ty>, m: &HashMap<u32, Ty>, fuel: u32) -> (r: Result<Vec<Ty>, ErrorKind>)
        requires
            old(self).wf(),
        ensures
            fn_state_kept(old(self)@, final(self)@),
            final(self).wf(),
            list_out(r, final(self)@, subst_list_spec(old(self)@, tys_view(v@), subst_view(m@), fuel as nat)),
        decreases fuel, tys_view(v@), 0nat,
    {
        let ghost vv = tys_view(v@);
        let ghost mm = subst_view(m@);
        let ghost whole = subst_list_spec(self@, vv, mm, fuel as nat);
        proof {
            lemma_tys_view(v@);
            assert(vv.skip(0) =~= vv);
            lemma_prepend_list(Seq::<TyV>::empty(), Seq::<TyV>::empty(), whole);
        }
        let mut out: Vec<Ty> = Vec::new();
        let mut i: usize = 0;
        while i < v.len()
            invariant
                fn_state_kept(old(self)@, self@),
                i <= v.len(),
                self.wf(),
                vv == tys_view(v@),
                mm == subst_view(m@),
                vv.len() == v.len(),
                forall|j: int| 0 <= j < v.len() ==> #[trigger] vv[j] == ty_view(v@[j]),
                whole == subst_list_spec(old(self)@, tys_view(v@), subst_view(m@), fuel as nat),
                whole == prepend_list(tys_view(out@), subst_list_spec(self@, vv.skip(i as int), mm, fuel as nat)),
            decreases v.len() - i,
        {
            let ghost before = self@;
            let ghost rest = vv.skip(i as int);
            assert(rest[0] == vv[i as int]);
            assert(rest.subrange(1, rest.len() as int) =~= vv.skip(i + 1));
            proof {
                assert(decreases_to!(vv => vv[i as int]));
            }
            let ghost before = self@;
            let x = self.subst_ty(&v[i], m, fuel);
            match x {
                Err(e) => {
                    assert(subst_list_spec(before, rest, mm, fuel as nat).1 == self@);
                    assert(subst_list_spec(before, rest, mm, fuel as nat).0 == Err::<Seq<TyV>, LowerErr>(subst_spec(before, vv[i as int], mm, fuel as nat).0->Err_0));
                    return Err(e);
                },
                Ok(t) => {
                    proof {
                        lemma_prepend_list(tys_view(out@), seq![t@], subst_list_spec(self@, vv.skip(i + 1), mm, fuel as nat));
                        lemma_tys_view_push(out@, t);
                        assert(tys_view(out@) + seq![t@] =~= tys_view(out@).push(t@));
                    }
                    out.push(t);
                },
            }
            i = i + 1;
        }
        proof {
            assert(vv.skip(i as int) =~= Seq::<TyV>::empty());
            assert(tys_view(out@) + Seq::<TyV>::empty() =~= tys_view(out@));
        }
        Ok(out)
    }

    /// Substitutes `m` in the type of each field, first to last.
    pub fn subst_fields(&mut self, v: &Vec<(String, Ty)>, m: &HashMap<u32, Ty>, fuel: u32) -> (r: Result<Vec<(String, Ty)>, ErrorKind>)
        requires
            old(self).wf(),
        ensures
            fn_state_kept(old(self)@, final(self)@),
            final(self).wf(),
            fields_out(r, final(self)@, subst_fields_spec(old(self)@, fields_view(v@), subst_view(m@), fuel as nat)),
        decreases fuel, fields_view(v@), 0nat,
    {
        let ghost vv = fields_view(v@);
        let ghost mm = subst_view(m@);
        let ghost whole = subst_fields_spec(self@, vv, mm, fuel as nat);
        proof {
            assert(vv.skip(0) =~= vv);
            assert(fields_view(Seq::<(String, Ty)>::empty()) =~= Seq::empty());
            lemma_prepend_list(Seq::<(Seq<char>, TyV)>::empty(), Seq::<(Seq<char>, TyV)>::empty(), whole);
        }
        let mut out: Vec<(String, Ty)> = Vec::new();
        let mut i: usize = 0;
        while i < v.len()
            invariant
                fn_state_kept(old(self)@, self@),
                i <= v.len(),
                self.wf(),
                vv == fields_view(v@),
                mm == subst_view(m@),
                whole == subst_fields_spec(old(self)@, fields_view(v@), subst_view(m@), fuel as nat),
                whole == prepend_list(fields_view(out@), subst_fields_spec(self@, vv.skip(i as int), mm, fuel as nat)),
            decreases v.len() - i,
        {
            let ghost rest = vv.skip(i as int);
            assert(rest[0] == vv[i as int]);
            assert(rest.subrange(1, rest.len() as int) =~= vv.skip(i + 1));
            proof {
                assert(vv[i as int] == (v@[i as int].0@, v@[i as int].1@));
                assert(decreases_to!(vv => vv[i as int]));
                assert(decreases_to!(vv[i as int] => vv[i as int].1));
            }
            let ghost before = self@;
            let x = self.subst_ty(&v[i].1, m, fuel);
            match x {
                Err(e) => {
                    assert(subst_fields_spec(before, rest, mm, fuel as nat).1 == self@);
                    assert(subst_fields_spec(before, rest, mm, fuel as nat).0 == Err::<Seq<(Seq<char>, TyV)>, LowerErr>(subst_spec(before, vv[i as int].1, mm, fuel as nat).0->Err_0));
                    return Err(e);
                },
                Ok(t) => {
                    let f = (v[i].0.clone(), t);
                    proof {
                        lemma_prepend_list(fields_view(out@), seq![(f.0@, f.1@)], subst_fields_spec(self@, vv.skip(i + 1), mm, fuel as nat));
                        assert(fields_view(out@.push(f)) =~= fields_view(out@) + seq![(f.0@, f.1@)]);
                    }
                    out.push(f);
                },
            }
            i = i + 1;
        }
        proof {
            assert(vv.skip(i as int) =~= Seq::<(Seq<char>, TyV)>::empty());
            assert(fields_view(out@) + Seq::<(Seq<char>, TyV)>::empty() =~= fields_view(out@));
        }
        Ok(out)
    }

    /// Substitutes `m` in the field types of each variant, first to last.
    pub fn subst_variants(&mut self, v: &Vec<EnumVariant>, m: &HashMap<u32, Ty>, fuel: u32) -> (r: Result<Vec<EnumVariant>, ErrorKind>)
        requires
            old(self).wf(),
        ensures
            fn_state_kept(old(self)@, final(self)@),
            final(self).wf(),
            variants_out(r, final(self)@, subst_variants_spec(old(self)@, variants_view(v@), subst_view(m@), fuel as nat)),
        decreases fuel, variants_view(v@), 0nat,
    {
        let ghost vv = variants_view(v@);
        let ghost mm = subst_view(m@);
        let ghost whole = subst_variants_spec(self@, vv, mm, fuel as nat);
        proof {
            assert(vv.skip(0) =~= vv);
            assert(variants_view(Seq::<EnumVariant>::empty()) =~= Seq::empty());
            lemma_prepend_list(Seq::<(Seq<char>, Seq<TyV>)>::empty(), Seq::<(Seq<char>, Seq<TyV>)>::empty(), whole);
        }
        let mut out: Vec<EnumVariant> = Vec::new();
        let mut i: usize = 0;
        while i < v.len()
            invariant
                fn_state_kept(old(self)@, self@),
                i <= v.len(),
                self.wf(),
                vv == variants_view(v@),
                mm == subst_view(m@),
                whole == subst_variants_spec(old(self)@, variants_view(v@), subst_view(m@), fuel as nat),
                whole == prepend_list(variants_view(out@), subst_variants_spec(self@, vv.skip(i as int), mm, fuel as nat)),
            decreases v.len() - i,
        {
            let ghost rest = vv.skip(i as int);
            assert(rest[0] == vv[i as int]);
            assert(rest.subrange(1, rest.len() as int) =~= vv.skip(i + 1));
            proof {
                assert(vv[i as int] == (v@[i as int].name@, tys_view(v@[i as int].fields@)));
                assert(decreases_to!(vv => vv[i as int]));
                assert(decreases_to!(vv[i as int] => vv[i as int].1));
            }
            let ghost before = self@;
            let x = self.subst_tys(&v[i].fields, m, fuel);
            match x {
                Err(e) => {
                    assert(subst_variants_spec(before, rest, mm, fuel as nat).1 == self@);
                    assert(subst_variants_spec(before, rest, mm, fuel as nat).0 == Err::<Seq<(Seq<char>, Seq<TyV>)>, LowerErr>(subst_list_spec(before, vv[i as int].1, mm, fuel as nat).0->Err_0));
                    return Err(e);
                },
                Ok(t) => {
                    let f = EnumVariant { name: v[i].name.clone(), fields: t };
                    proof {
                        lemma_prepend_list(variants_view(out@), seq![(f.name@, tys_view(f.fields@))], subst_variants_spec(self@, vv.skip(i + 1), mm, fuel as nat));
                        assert(variants_view(out@.push(f)) =~= variants_view(out@) + seq![(f.name@, tys_view(f.fields@))]);
                    }
                    out.push(f);
                },
            }
            i = i + 1;
        }
        proof {
            assert(vv.skip(i as int) =~= Seq::<(Seq<char>, Seq<TyV>)>::empty());
            assert(variants_view(out@) + Seq::<(Seq<char>, Seq<TyV>)>::empty() =~= variants_view(out@));
        }
        Ok(out)
    }

    /// Specializes the struct template `tm` on the concrete `args`: the name
    /// of the specialization, which is made, recorded and registered unless
    /// it was made before. The cache entry is made before the fields are
    /// substituted, so that a field pointing back at the same
    /// specialization finds it.
    pub fn specialize_struct(&mut self, tm: &StructDef, args: Vec<Ty>, fuel: u32) -> (r: Result<String, ErrorKind>)
        requires
            old(self).wf(),
        ensures
            fn_state_kept(old(self)@, final(self)@),
            final(self).wf(),
            name_out(r, final(self)@, specialize_struct_spec(old(self)@, struct_def_view(*tm), tys_view(args@), fuel as nat)),
        decreases fuel, fields_view(tm.fields@), 1nat,
    {
        let ghost st0 = self@;
        let ghost av = tys_view(args@);
        if let Some(n) = cache_get(&self.struct_cache, &tm.name, &args) {
            return Ok(n);
        }
        let a = args.as_slice();
        let name = mangle_struct_specialization(tm.name.as_str(), a);
        self.struct_cache.push(CacheEntry { template: tm.name.clone(), args: tys_duplicate(&args), specialized: name.clone() });
        assert(self@ =~= (LowerV { struct_cache: st0.struct_cache.push((tm.name@, av, name@)), ..st0 }));
        let ok = self.origins.insert(false, name.clone(), tm.name.clone(), tys_duplicate(&args));
        if !ok {
            return Err(ErrorKind::DirectStructRecursion { name: tm.name.clone() });
        }
        let m = zip_map(&tm.type_var_ids, &args);
        let fields = match self.subst_fields(&tm.fields, &m, fuel) {
            Ok(f) => f,
            Err(e) => return Err(e),
        };
        let ghost fv = fields_view(fields@);
        insert_struct(&mut self.structs, StructDef { name: name.clone(), type_var_ids: Vec::new(), fields });
        proof {
            assert(ids_of(Seq::<TypeVarId>::empty()) =~= Seq::<u32>::empty());
        }
        Ok(name)
    }

    /// Specializes the enum template `tm` on the concrete `args`.
    pub fn specialize_enum(&mut self, tm: &EnumDef, args: Vec<Ty>, fuel: u32) -> (r: Result<String, ErrorKind>)
        requires
            old(self).wf(),
        ensures
            fn_state_kept(old(self)@, final(self)@),
            final(self).wf(),
            name_out(r, final(self)@, specialize_enum_spec(old(self)@, enum_def_view(*tm), tys_view(args@), fuel as nat)),
        decreases fuel, variants_view(tm.variants@), 1nat,
    {
        let ghost st0 = self@;
        let ghost av = tys_view(args@);
        if let Some(n) = cache_get(&self.enum_cache, &tm.name, &args) {
            return Ok(n);
        }
        let a = args.as_slice();
        let name = mangle_struct_specialization(tm.name.as_str(), a);
        self.enum_cache.push(CacheEntry { template: tm.name.clone(), args: tys_duplicate(&args), specialized: name.clone() });
        assert(self@ =~= (LowerV { enum_cache: st0.enum_cache.push((tm.name@, av, name@)), ..st0 }));
        let ok = self.origins.insert(true, name.clone(), tm.name.clone(), tys_duplicate(&args));
        if !ok {
            return Err(ErrorKind::DirectStructRecursion { name: tm.name.clone() });
        }
        let m = zip_map(&tm.type_var_ids, &args);
        let variants = match self.subst_variants(&tm.variants, &m, fuel) {
            Ok(f) => f,
            Err(e) => return Err(e),
        };
        insert_enum(&mut self.enums, EnumDef { name: name.clone(), type_var_ids: Vec::new(), variants });
        proof {
            assert(ids_of(Seq::<TypeVarId>::empty()) =~= Seq::<u32>::empty());
        }
        Ok(name)
    }
}

// ---------------------------------------------------------------------------
// Lowering type expressions.
// ---------------------------------------------------------------------------

/// What a name in type position stands for: a fresh type variable for
/// `$T`, else a struct, an enum, or a type variable in scope.
pub open spec fn named_spec(st: LowerV, n: Seq<char>, span: Span) -> (Result<TyV, (Span, LowerErr)>, LowerV) {
    if n.len() > 0 && n[0] == '$' {
        let sn = n.drop_first();
        if find_struct(st.structs, sn) >= 0 {
            (Err((span, LowerErr::GenericIsAlsoAStruct(sn))), st)
        } else if st.scopes.len() == 0 {
            (Err((span, LowerErr::GenericOutsideFunctionSignature(sn))), st)
        } else if scope_find(st.scopes.last(), sn) is Some {
            (Err((span, LowerErr::GenericAlreadyDefined(sn))), st)
        } else {
            (Ok(TyV::TypeVar(st.type_vars.len() as u32)), bind_fresh(st, sn))
        }
    } else if find_struct(st.structs, n) >= 0 {
        (Ok(TyV::Struct(n)), st)
    } else if find_enum(st.enums, n) >= 0 {
        (Ok(TyV::Enum(n)), st)
    } else if find_struct(st.struct_templates, n) >= 0 || find_enum(st.enum_templates, n) >= 0 {
        (Err((span, LowerErr::MissingTypeArguments(n))), st)
    } else {
        match lookup_tv(st.scopes, n) {
            Some(id) => (Ok(TyV::TypeVar(id)), st),
            None => (Err((span, LowerErr::UnknownType(n))), st),
        }
    }
}

/// Lowering the type expression `t`: the type, or the error with where it
/// is reported, and the state afterwards.
pub open spec fn lower_type_spec(st: LowerV, t: TypeExpr) -> (Result<TyV, (Span, LowerErr)>, LowerV)
    decreases t,
{
    match t.kind {
        TypeExprKind::Int => (Ok(TyV::Int), st),
        TypeExprKind::UInt => (Ok(TyV::UInt), st),
        TypeExprKind::Float => (Ok(TyV::Float), st),
        TypeExprKind::I8 => (Ok(TyV::I8), st),
        TypeExprKind::I32 => (Ok(TyV::I32), st),
        TypeExprKind::I64 => (Ok(TyV::I64), st),
        TypeExprKind::U8 => (Ok(TyV::U8), st),
        TypeExprKind::U32 => (Ok(TyV::U32), st),
        TypeExprKind::U64 => (Ok(TyV::U64), st),
        TypeExprKind::F32 => (Ok(TyV::F32), st),
        TypeExprKind::F64 => (Ok(TyV::F64), st),
        TypeExprKind::Array { element_ty, count } => {
            let (r, st1) = lower_type_spec(st, *element_ty);
            (
                match r {
                    Ok(e) => Ok(TyV::Array { element: Box::new(e), count }),
                    Err(e) => Err(e),
                },
                st1,
            )
        },
        TypeExprKind::Function { params, return_ty } => {
            let (ps, st1) = lower_types_spec(st, params@);
            match ps {
                Err(e) => (Err(e), st1),
                Ok(ps) => {
                    let (r, st2) = lower_type_spec(st1, *return_ty);
                    (
                        match r {
                            Ok(x) => Ok(TyV::Closure { params: ps, return_ty: Box::new(x) }),
                            Err(e) => Err(e),
                        },
                        st2,
                    )
                },
            }
        },
        TypeExprKind::Ptr(target) => {
            let (r, st1) = lower_type_spec(st, *target);
            (
                match r {
                    Ok(x) => Ok(TyV::Ptr(Box::new(x))),
                    Err(e) => Err(e),
                },
                st1,
            )
        },
        TypeExprKind::Named(name) => named_spec(st, name@, t.span),
        TypeExprKind::NamedGeneric { name, args } => {
            let n = name@;
            if find_struct(st.structs, n) >= 0 || find_enum(st.enums, n) >= 0 {
                (Err((t.span, LowerErr::UnexpectedTypeArguments(n))), st)
            } else if find_struct(st.struct_templates, n) >= 0 {
                let tm = st.struct_templates[find_struct(st.struct_templates, n)];
                if tm.tvs.len() != args@.len() {
                    (Err((t.span, LowerErr::TypeArgArityMismatch(n, tm.tvs.len() as usize, args@.len() as usize))), st)
                } else {
                    let (r, st1) = lower_types_spec(st, args@);
                    match r {
                        Err(e) => (Err(e), st1),
                        Ok(la) => if still_generic_struct(la) {
                            (Ok(TyV::GenericStruct { name: n, args: la }), st1)
                        } else {
                            let (r2, st2) = specialize_struct_spec(st1, tm, la, SPECIALIZATION_DEPTH as nat);
                            (
                                match r2 {
                                    Ok(m) => Ok(TyV::Struct(m)),
                                    Err(e) => Err((t.span, e)),
                                },
                                st2,
                            )
                        },
                    }
                }
            } else if find_enum(st.enum_templates, n) >= 0 {
                let tm = st.enum_templates[find_enum(st.enum_templates, n)];
                if tm.tvs.len() != args@.len() {
                    (Err((t.span, LowerErr::TypeArgArityMismatch(n, tm.tvs.len() as usize, args@.len() as usize))), st)
                } else {
                    let (r, st1) = lower_types_spec(st, args@);
                    match r {
                        Err(e) => (Err(e), st1),
                        Ok(la) => if still_generic_enum(la) {
                            (Ok(TyV::GenericEnum { name: n, args: la }), st1)
                        } else {
                            let (r2, st2) = specialize_enum_spec(st1, tm, la, SPECIALIZATION_DEPTH as nat);
                            (
                                match r2 {
                                    Ok(m) => Ok(TyV::Enum(m)),
                                    Err(e) => Err((t.span, e)),
                                },
                                st2,
                            )
                        },
                    }
                }
            } else {
                (Err((t.span, LowerErr::UnknownType(n))), st)
            }
        },
        TypeExprKind::Tuple(elems) => {
            let (r, st1) = lower_types_spec(st, elems@);
            (
                match r {
                    Ok(x) => Ok(TyV::Tuple(x)),
                    Err(e) => Err(e),
                },
                st1,
            )
        },
    }
}

/// Lowering each type expression of a list, first to last, stopping at the
/// first error.
pub open spec fn lower_types_spec(st: LowerV, s: Seq<TypeExpr>) -> (Result<Seq<TyV>, (Span, LowerErr)>, LowerV)
    decreases s,
{
    if s.len() == 0 {
        (Ok(Seq::empty()), st)
    } else {
        let (r, st1) = lower_type_spec(st, s[0]);
        match r {
            Err(e) => (Err(e), st1),
            Ok(x) => prepend_list(seq![x], lower_types_spec(st1, s.subrange(1, s.len() as int))),
        }
    }
}

/// Whether `r` and the state `st` are the outcome `o` of lowering a type.
pub open spec fn lowered(r: Result<Ty, Error>, st: LowerV, o: (Result<TyV, (Span, LowerErr)>, LowerV)) -> bool {
    st == o.1 && match o.0 {
        Ok(v) => r matches Ok(t) && t@ == v,
        Err(e) => r matches Err(x) && x.span == e.0 && kind_is(x.kind, e.1),
    }
}

pub open spec fn lowered_list(r: Result<Vec<Ty>, Error>, st: LowerV, o: (Result<Seq<TyV>, (Span, LowerErr)>, LowerV)) -> bool {
    st == o.1 && match o.0 {
        Ok(v) => r matches Ok(t) && tys_view(t@) == v,
        Err(e) => r matches Err(x) && x.span == e.0 && kind_is(x.kind, e.1),
    }
}

/// `name` without a leading `$`, if it has one.
pub fn strip_dollar(name: &String) -> (r: Option<String>)
    ensures
        match r {
            Some(s) => name@.len() > 0 && name@[0] == '$' && s@ == name@.drop_first(),
            None => !(name@.len() > 0 && name@[0] == '$'),
        },
{
    let mut out = String::new();
    let mut is_dollar = false;
    let mut seen_first = false;
    for c in it: name.as_str().chars()
        invariant
            seen_first == (it.index() > 0),
            it.seq() == name@,
            !seen_first ==> out@ == Seq::<char>::empty() && !is_dollar,
            seen_first ==> is_dollar == (name@[0] == '$') && out@ == name@.take(it.index() as int).drop_first(),
    {
        if !seen_first {
            is_dollar = c == '$';
            seen_first = true;
            proof {
                assert(name@.take(1).drop_first() =~= Seq::<char>::empty());
            }
        } else {
            proof {
                assert(name@.take(it.index() as int).drop_first().push(c) =~= name@.take(it.index() + 1).drop_first());
            }
            push_char(&mut out, c);
        }
    }
    proof {
        if seen_first {
            assert(name@.take(name@.len() as int) =~= name@);
        }
    }
    if is_dollar {
        Some(out)
    } else {
        None
    }
}

impl Lower {
    /// What a name in type position stands for; `$T` makes a fresh type
    /// variable in the innermost scope.
    fn lower_named(&mut self, name: &String, span: Span) -> (r: Result<Ty, Error>)
        requires
            old(self).wf(),
        ensures
            fn_state_kept(old(self)@, final(self)@),
            final(self).wf(),
            lowered(r, final(self)@, named_spec(old(self)@, name@, span)),
    {
        if let Some(stripped) = strip_dollar(name) {
            if struct_index(&self.structs, &stripped).is_some() {
                return Err(Error { span, kind: ErrorKind::GenericIsAlsoAStruct { name: stripped } });
            }
            if self.type_var_scopes.len() == 0 {
                return Err(Error { span, kind: ErrorKind::GenericOutsideFunctionSignature { name: stripped } });
            }
            let last = self.type_var_scopes.len() - 1;
            assert(self@.scopes.last() == scope_view(self.type_var_scopes@[last as int]));
            if scope_get(&self.type_var_scopes[last], &stripped).is_some() {
                return Err(Error { span, kind: ErrorKind::GenericAlreadyDefined { name: stripped } });
            }
            let id = self.fresh_type_var_id(stripped.clone());
            self.bind_in_scope(stripped, id);
            return Ok(Ty::TypeVar(id));
        }
        if struct_index(&self.structs, name).is_some() {
            return Ok(Ty::Struct(name.clone()));
        }
        if enum_index(&self.enums, name).is_some() {
            return Ok(Ty::Enum(name.clone()));
        }
        if struct_index(&self.struct_templates, name).is_some() || enum_index(&self.enum_templates, name).is_some() {
            return Err(Error { span, kind: ErrorKind::MissingTypeArguments { name: name.clone() } });
        }
        match self.lookup_type_var(name) {
            Some(id) => Ok(Ty::TypeVar(id)),
            None => Err(Error { span, kind: ErrorKind::UnknownType { name: name.clone() } }),
        }
    }

    /// Lowers the type expression `t`. A generic struct or enum applied to
    /// concrete arguments is specialized (and registered); applied to
    /// arguments that still hold type variables it stays generic.
    pub fn lower_type(&mut self, t: &TypeExpr) -> (r: Result<Ty, Error>)
        requires
            old(self).wf(),
        ensures
            fn_state_kept(old(self)@, final(self)@),
            final(self).wf(),
            lowered(r, final(self)@, lower_type_spec(old(self)@, *t)),
        decreases t,
    {
        match &t.kind {
            TypeExprKind::Int => Ok(Ty::Int),
            TypeExprKind::UInt => Ok(Ty::UInt),
            TypeExprKind::Float => Ok(Ty::Float),
            TypeExprKind::I8 => Ok(Ty::I8),
            TypeExprKind::I32 => Ok(Ty::I32),
            TypeExprKind::I64 => Ok(Ty::I64),
            TypeExprKind::U8 => Ok(Ty::U8),
            TypeExprKind::U32 => Ok(Ty::U32),
            TypeExprKind::U64 => Ok(Ty::U64),
            TypeExprKind::F32 => Ok(Ty::F32),
            TypeExprKind::F64 => Ok(Ty::F64),
            TypeExprKind::Array { element_ty, count } => {
                match self.lower_type(element_ty) {
                    Ok(e) => Ok(Ty::Array { element: Box::new(e), count: *count }),
                    Err(e) => Err(e),
                }
            },
            TypeExprKind::Function { params, return_ty } => {
                let ps = match self.lower_types(params) {
                    Ok(ps) => ps,
                    Err(e) => return Err(e),
                };
                match self.lower_type(return_ty) {
                    Ok(x) => Ok(Ty::Closure { params: ps, return_ty: Box::new(x) }),
                    Err(e) => Err(e),
                }
            },
            TypeExprKind::Ptr(target) => {
                match self.lower_type(target) {
                    Ok(x) => Ok(Ty::Ptr(Box::new(x))),
                    Err(e) => Err(e),
                }
            },
            TypeExprKind::Named(name) => self.lower_named(name, t.span),
            TypeExprKind::NamedGeneric { name, args } => {
                if struct_index(&self.structs, name).is_some() || enum_index(&self.enums, name).is_some() {
                    return Err(Error { span: t.span, kind: ErrorKind::UnexpectedTypeArguments { name: name.clone() } });
                }
                if let Some(k) = struct_index(&self.struct_templates, name) {
                    proof {
                        lemma_find_struct(self@.struct_templates, name@);
                    }
                    let tm = struct_def_duplicate(&self.struct_templates[k]);
                    assert(struct_def_view(tm) == self@.struct_templates[k as int]);
                    if tm.type_var_ids.len() != args.len() {
                        return Err(Error {
                            span: t.span,
                            kind: ErrorKind::TypeArgArityMismatch {
                                name: name.clone(),
                                expected: tm.type_var_ids.len(),
                                found: args.len(),
                            },
                        });
                    }
                    let lowered_args = match self.lower_types(args) {
                        Ok(a) => a,
                        Err(e) => return Err(e),
                    };
                    if still_generic(&lowered_args, false) {
                        return Ok(Ty::GenericStruct { name: name.clone(), args: lowered_args });
                    }
                    return match self.specialize_struct(&tm, lowered_args, SPECIALIZATION_DEPTH) {
                        Ok(m) => Ok(Ty::Struct(m)),
                        Err(kind) => Err(Error { span: t.span, kind }),
                    };
                }
                if let Some(k) = enum_index(&self.enum_templates, name) {
                    proof {
                        lemma_find_enum(self@.enum_templates, name@);
                    }
                    let tm = enum_def_duplicate(&self.enum_templates[k]);
                    assert(enum_def_view(tm) == self@.enum_templates[k as int]);
                    if tm.type_var_ids.len() != args.len() {
                        return Err(Error {
                            span: t.span,
                            kind: ErrorKind::TypeArgArityMismatch {
                                name: name.clone(),
                                expected: tm.type_var_ids.len(),
                                found: args.len(),
                            },
                        });
                    }
                    let lowered_args = match self.lower_types(args) {
                        Ok(a) => a,
                        Err(e) => return Err(e),
                    };
                    if still_generic(&lowered_args, true) {
                        return Ok(Ty::GenericEnum { name: name.clone(), args: lowered_args });
                    }
                    return match self.specialize_enum(&tm, lowered_args, SPECIALIZATION_DEPTH) {
                        Ok(m) => Ok(Ty::Enum(m)),
                        Err(kind) => Err(Error { span: t.span, kind }),
                    };
                }
                Err(Error { span: t.span, kind: ErrorKind::UnknownType { name: name.clone() } })
            },
            TypeExprKind::Tuple(elems) => {
                match self.lower_types(elems) {
                    Ok(x) => Ok(Ty::Tuple(x)),
                    Err(e) => Err(e),
                }
            },
        }
    }

    /// Lowers each type expression of `v`, first to last.
    pub fn lower_types(&mut self, v: &Vec<TypeExpr>) -> (r: Result<Vec<Ty>, Error>)
        requires
            old(self).wf(),
        ensures
            fn_state_kept(old(self)@, final(self)@),
            final(self).wf(),
            lowered_list(r, final(self)@, lower_types_spec(old(self)@, v@)),
        decreases v,
    {
        let ghost whole = lower_types_spec(self@, v@);
        proof {
            assert(v@.skip(0) =~= v@);
            lemma_prepend_list(Seq::<TyV>::empty(), Seq::<TyV>::empty(), whole);
        }
        let mut out: Vec<Ty> = Vec::new();
        let mut i: usize = 0;
        while i < v.len()
            invariant
                fn_state_kept(old(self)@, self@),
                i <= v.len(),
                self.wf(),
                whole == lower_types_spec(old(self)@, v@),
                whole == prepend_list(tys_view(out@), lower_types_spec(self@, v@.skip(i as int))),
            decreases v.len() - i,
        {
            let ghost rest = v@.skip(i as int);
            assert(rest[0] == v@[i as int]);
            assert(rest.subrange(1, rest.len() as int) =~= v@.skip(i + 1));
            let ghost before = self@;
            let x = self.lower_type(&v[i]);
            match x {
                Err(e) => {
                    assert(lower_types_spec(before, rest).1 == self@);
                    assert(lower_types_spec(before, rest).0 == Err::<Seq<TyV>, (Span, LowerErr)>(lower_type_spec(before, v@[i as int]).0->Err_0));
                    return Err(e);
                },
                Ok(t) => {
                    proof {
                        lemma_prepend_list(tys_view(out@), seq![t@], lower_types_spec(self@, v@.skip(i + 1)));
                        lemma_tys_view_push(out@, t);
                        assert(tys_view(out@) + seq![t@] =~= tys_view(out@).push(t@));
                    }
                    out.push(t);
                },
            }
            i = i + 1;
        }
        proof {
            assert(v@.skip(i as int) =~= Seq::<TypeExpr>::empty());
            assert(tys_view(out@) + Seq::<TyV>::empty() =~= tys_view(out@));
        }
        Ok(out)
    }
}

} // verus!
