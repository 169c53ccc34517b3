//! The pass of lowering that registers top-level functions before any body
//! is lowered: each function's signature is lowered in a type-variable scope
//! of its own, and the function gets a local id, a binding in the global
//! scope, a place in the overload set of its name, and a pending signature.

use crate::ast::types::{Declaration, ExprKind, Param, TypeExpr};
use crate::hir::error::{strings_view, Error, ErrorKind};
use crate::hir::generics::ids_of;
use crate::hir::lower::{
    declare_spec, declared, fn_state_kept, kind_is, lemma_prepend_list, lemma_tys_view_push,
    local_ids, lower_type_spec, prepend_list, scope_find, scope_view, sig_view, value_scope_view,
    DeclareOutcome, Lower, LowerErr, LowerV, PendingFnSig, SigV,
};
use crate::hir::generics::subst_view;
use crate::hir::register::{close_scope, done_out};
use crate::hir::types::{lemma_tys_view, tys_view, LocalId, Ty, TyV, TypeVarId};
use crate::lexer::types::Span;
use vstd::prelude::*;

verus! {

/// Lowering the parameter types of `ps`, first to last.
pub open spec fn lower_params_spec(st: LowerV, ps: Seq<Param>) -> (Result<Seq<TyV>, (Span, LowerErr)>, LowerV)
    decreases ps.len(),
{
    if ps.len() == 0 {
        (Ok(Seq::empty()), st)
    } else {
        let (r, st1) = lower_type_spec(st, ps[0].ty);
        match r {
            Err(e) => (Err(e), st1),
            Ok(t) => prepend_list(seq![t], lower_params_spec(st1, ps.subrange(1, ps.len() as int))),
        }
    }
}

/// Lowering a signature: its type parameters declared (errors reported at
/// `span`), then its parameter types, then its return type (`Unit` when
/// none is written).
pub open spec fn signature_spec(
    st: LowerV,
    tps: Seq<Seq<char>>,
    params: Seq<Param>,
    ret: Option<TypeExpr>,
    span: Span,
) -> (Result<(Seq<TyV>, TyV), (Span, LowerErr)>, LowerV) {
    match declare_spec(st, tps, span) {
        DeclareOutcome::IsAStruct(n, s) => (Err((span, LowerErr::GenericIsAlsoAStruct(n))), s),
        DeclareOutcome::AlreadyDefined(n, s) => (Err((span, LowerErr::GenericAlreadyDefined(n))), s),
        DeclareOutcome::Done(s) => {
            let (ps, s1) = lower_params_spec(s, params);
            match ps {
                Err(e) => (Err(e), s1),
                Ok(ps) => match ret {
                    None => (Ok((ps, TyV::Unit)), s1),
                    Some(t) => {
                        let (r, s2) = lower_type_spec(s1, t);
                        (
                            match r {
                                Ok(rt) => Ok((ps, rt)),
                                Err(e) => Err(e),
                            },
                            s2,
                        )
                    },
                },
            }
        },
    }
}

/// The ids `scope` binds the names to, in order, leaving out names it does
/// not bind.
pub open spec fn scope_ids(scope: Seq<(Seq<char>, u32)>, names: Seq<Seq<char>>) -> Seq<u32>
    decreases names.len(),
{
    if names.len() == 0 {
        Seq::empty()
    } else {
        let prev = scope_ids(scope, names.drop_last());
        match scope_find(scope, names.last()) {
            Some(id) => prev.push(id),
            None => prev,
        }
    }
}

/// The last overload set named `name`, or -1.
pub open spec fn find_overload(ov: Seq<(Seq<char>, Seq<u32>)>, name: Seq<char>) -> int
    decreases ov.len(),
{
    if ov.len() == 0 {
        -1
    } else if ov.last().0 == name {
        ov.len() - 1
    } else {
        find_overload(ov.drop_last(), name)
    }
}

/// The overload sets with `id` added to the set named `name`.
pub open spec fn add_overload(ov: Seq<(Seq<char>, Seq<u32>)>, name: Seq<char>, id: u32) -> Seq<(Seq<char>, Seq<u32>)> {
    let k = find_overload(ov, name);
    if k >= 0 {
        ov.update(k, (name, ov[k].1.push(id)))
    } else {
        ov.push((name, seq![id]))
    }
}

/// Registering one declaration, if it is a function: its signature lowered
/// in a scope of its own (closed again either way), then, on success, a
/// fresh local id bound to its name in the innermost value scope, added to
/// the overload set of its name, recorded for its node, typed with the
/// function type, and given its type variables and pending signature.
pub open spec fn pre_register_spec(st: LowerV, d: Declaration) -> (Result<(), (Span, LowerErr)>, LowerV) {
    match d.value.kind {
        ExprKind::Function { type_params, params, return_ty, .. } => {
            let st0 = LowerV { scopes: st.scopes.push(Seq::empty()), ..st };
            let (r, st1) = signature_spec(st0, strings_view(type_params@), params@, return_ty, d.span);
            let scope = if st1.scopes.len() > 0 {
                st1.scopes.last()
            } else {
                Seq::empty()
            };
            let st2 = close_scope(st1);
            match r {
                Err(e) => (Err(e), st2),
                Ok((ps, rt)) => {
                    let tvs = scope_ids(scope, strings_view(type_params@));
                    let id = st2.next_id;
                    let fty = TyV::Function { params: ps, return_ty: Box::new(rt), varargs: false };
                    let vs = st2.value_scopes;
                    (
                        Ok(()),
                        LowerV {
                            next_id: (id + 1) as u32,
                            value_scopes: vs.update(vs.len() - 1, vs.last().push((d.name@, id))),
                            overloads: add_overload(st2.overloads, d.name@, id),
                            fn_id_by_node: st2.fn_id_by_node.insert(d.id.spec_value(), id),
                            bindings: st2.bindings.insert(id, fty),
                            fn_tvs: st2.fn_tvs.insert(id, tvs),
                            pending: st2.pending.insert(id, SigV { scope, tvs, params: ps, ret: rt }),
                            ..st2
                        },
                    )
                },
            }
        },
        _ => (Ok(()), st),
    }
}

pub proof fn lemma_find_overload(ov: Seq<(Seq<char>, Seq<u32>)>, name: Seq<char>)
    ensures
        -1 <= find_overload(ov, name) < ov.len(),
    decreases ov.len(),
{
    if ov.len() > 0 && ov.last().0 != name {
        lemma_find_overload(ov.drop_last(), name);
    }
}

/// The index of the last overload set named `name`.
pub fn overload_index(ov: &Vec<(String, Vec<LocalId>)>, name: &String) -> (r: Option<usize>)
    ensures
        match r {
            Some(k) => k == find_overload(ov@.map_values(|o: (String, Vec<LocalId>)| (o.0@, local_ids(o.1@))), name@),
            None => find_overload(ov@.map_values(|o: (String, Vec<LocalId>)| (o.0@, local_ids(o.1@))), name@) == -1,
        },
{
    let ghost s = ov@.map_values(|o: (String, Vec<LocalId>)| (o.0@, local_ids(o.1@)));
    let mut k: usize = ov.len();
    assert(s.take(k as int) =~= s);
    while k > 0
        invariant
            k <= ov.len(),
            s == ov@.map_values(|o: (String, Vec<LocalId>)| (o.0@, local_ids(o.1@))),
            find_overload(s, name@) == find_overload(s.take(k as int), name@),
        decreases k,
    {
        assert(s.take(k as int).drop_last() =~= s.take(k - 1));
        assert(s.take(k as int).last() == (ov@[k - 1].0@, local_ids(ov@[k - 1].1@)));
        if ov[k - 1].0 == *name {
            return Some(k - 1);
        }
        k = k - 1;
    }
    None
}

/// Registering the functions among `ds[k..]`, stopping at the first error.
pub open spec fn pre_register_all_spec(st: LowerV, ds: Seq<Declaration>, k: int) -> (Result<(), (Span, LowerErr)>, LowerV)
    decreases ds.len() - k,
{
    if k < 0 || k >= ds.len() {
        (Ok(()), st)
    } else {
        let (r, st1) = pre_register_spec(st, ds[k]);
        match r {
            Err(e) => (Err(e), st1),
            Ok(_) => pre_register_all_spec(st1, ds, k + 1),
        }
    }
}

/// The ids `scope` binds `names` to, in order.
fn scope_ids_of(scope: &Vec<(String, TypeVarId)>, names: &Vec<String>) -> (r: Vec<TypeVarId>)
    ensures
        ids_of(r@) == scope_ids(scope_view(*scope), strings_view(names@)),
{
    let ghost sv = scope_view(*scope);
    let ghost ns = strings_view(names@);
    let mut out: Vec<TypeVarId> = Vec::new();
    let mut i: usize = 0;
    assert(ns.take(0) =~= Seq::<Seq<char>>::empty());
    assert(ids_of(out@) =~= Seq::<u32>::empty());
    while i < names.len()
        invariant
            i <= names.len(),
            sv == scope_view(*scope),
            ns == strings_view(names@),
            ids_of(out@) == scope_ids(sv, ns.take(i as int)),
        decreases names.len() - i,
    {
        assert(ns.take(i + 1).drop_last() =~= ns.take(i as int));
        assert(ns.take(i + 1).last() == names@[i as int]@);
        let ghost prev = out@;
        match crate::hir::lower::scope_get(scope, &names[i]) {
            Some(id) => {
                out.push(id);
                assert(ids_of(out@) =~= ids_of(prev).push(id.0));
            },
            None => {},
        }
        i = i + 1;
    }
    assert(ns.take(i as int) =~= ns);
    out
}

impl Lower {
    /// Lowers the parameter types of `ps`, first to last.
    fn lower_params(&mut self, ps: &Vec<Param>) -> (r: Result<Vec<Ty>, Error>)
        requires
            old(self).wf(),
        ensures
            fn_state_kept(old(self)@, final(self)@),
            final(self).wf(),
            final(self)@ == lower_params_spec(old(self)@, ps@).1,
            match lower_params_spec(old(self)@, ps@).0 {
                Ok(v) => r matches Ok(x) && tys_view(x@) == v,
                Err(e) => r matches Err(x) && x.span == e.0 && kind_is(x.kind, e.1),
            },
    {
        let ghost whole = lower_params_spec(self@, ps@);
        proof {
            assert(ps@.skip(0) =~= ps@);
            assert(tys_view(Seq::<Ty>::empty()) =~= Seq::<TyV>::empty());
            lemma_prepend_list(Seq::<TyV>::empty(), Seq::<TyV>::empty(), whole);
        }
        let mut out: Vec<Ty> = Vec::new();
        let mut i: usize = 0;
        while i < ps.len()
            invariant
                fn_state_kept(old(self)@, self@),
                i <= ps.len(),
                self.wf(),
                whole == lower_params_spec(old(self)@, ps@),
                whole == prepend_list(tys_view(out@), lower_params_spec(self@, ps@.skip(i as int))),
            decreases ps.len() - i,
        {
            let ghost rest = ps@.skip(i as int);
            let ghost before = self@;
            assert(rest[0] == ps@[i as int]);
            assert(rest.subrange(1, rest.len() as int) =~= ps@.skip(i + 1));
            let t = match self.lower_type(&ps[i].ty) {
                Ok(t) => t,
                Err(e) => {
                    assert(lower_params_spec(before, rest).1 == self@);
                    return Err(e);
                },
            };
            proof {
                lemma_prepend_list(tys_view(out@), seq![t@], lower_params_spec(self@, ps@.skip(i + 1)));
                lemma_tys_view_push(out@, t);
                assert(tys_view(out@) + seq![t@] =~= tys_view(out@).push(t@));
            }
            out.push(t);
            i = i + 1;
        }
        proof {
            assert(ps@.skip(i as int) =~= Seq::<Param>::empty());
            assert(tys_view(out@) + Seq::<TyV>::empty() =~= tys_view(out@));
        }
        Ok(out)
    }

    /// Lowers a signature in the innermost type-variable scope: declares
    /// its type parameters, then lowers its parameter and return types.
    fn lower_signature(
        &mut self,
        tps: &Vec<String>,
        params: &Vec<Param>,
        ret: &Option<TypeExpr>,
        span: Span,
    ) -> (r: Result<(Vec<Ty>, Ty), Error>)
        requires
            old(self).wf(),
            old(self)@.scopes.len() > 0,
        ensures
            fn_state_kept(old(self)@, final(self)@),
            final(self).wf(),
            final(self)@ == signature_spec(old(self)@, strings_view(tps@), params@, *ret, span).1,
            match signature_spec(old(self)@, strings_view(tps@), params@, *ret, span).0 {
                Ok((ps, rt)) => r matches Ok(x) && tys_view(x.0@) == ps && x.1@ == rt,
                Err(e) => r matches Err(x) && x.span == e.0 && kind_is(x.kind, e.1),
            },
    {
        match self.declare_type_params(tps, span) {
            Ok(()) => {},
            Err(e) => return Err(e),
        }
        let ps = match self.lower_params(params) {
            Ok(ps) => ps,
            Err(e) => return Err(e),
        };
        match ret {
            None => Ok((ps, Ty::Unit)),
            Some(t) => match self.lower_type(t) {
                Ok(rt) => Ok((ps, rt)),
                Err(e) => Err(e),
            },
        }
    }

    /// Adds `id` to the overload set named `name`.
    fn add_overload_of(&mut self, name: &String, id: LocalId)
        ensures
            final(self)@ == (LowerV { overloads: add_overload(old(self)@.overloads, name@, id.0), ..old(self)@ }),
            final(self).wf() == old(self).wf(),
    {
        let ghost ov = self@.overloads;
        let found = overload_index(&self.overloads, name);
        proof {
            lemma_find_overload(ov, name@);
        }
        if let Some(j) = found {
            let mut ids: Vec<LocalId> = Vec::new();
            let mut i: usize = 0;
            while i < self.overloads[j].1.len()
                invariant
                    j < self.overloads.len(),
                    i <= self.overloads@[j as int].1.len(),
                    ids@ == self.overloads@[j as int].1@.take(i as int),
                decreases self.overloads@[j as int].1.len() - i,
            {
                ids.push(self.overloads[j].1[i]);
                i = i + 1;
                assert(ids@ =~= self.overloads@[j as int].1@.take(i as int));
            }
            assert(self.overloads@[j as int].1@.take(i as int) =~= self.overloads@[j as int].1@);
            let ghost before = ids@;
            ids.push(id);
            assert(local_ids(ids@) =~= local_ids(before).push(id.0));
            self.overloads.set(j, (name.clone(), ids));
            assert(self@.overloads =~= add_overload(ov, name@, id.0));
        } else {
            let v = vec![id];
            assert(local_ids(v@) =~= seq![id.0]);
            self.overloads.push((name.clone(), v));
            assert(self@.overloads =~= add_overload(ov, name@, id.0));
        }
        assert(self@ =~= (LowerV { overloads: add_overload(old(self)@.overloads, name@, id.0), ..old(self)@ }));
    }

    /// Registers a top-level function before any body is lowered: lowers
    /// its signature in a type-variable scope of its own, then gives it a
    /// fresh local id, binds its name in the innermost value scope, adds it
    /// to the overload set of its name, and records its node, its type, its
    /// type variables and its pending signature. Other declarations are left
    /// alone.
    pub fn pre_register_top_level(&mut self, d: &Declaration) -> (r: Result<(), Error>)
        requires
            old(self).wf(),
            old(self)@.value_scopes.len() > 0,
            old(self)@.next_id < u32::MAX,
        ensures
            final(self).wf(),
            done_out(r, final(self)@, pre_register_spec(old(self)@, *d)),
            final(self)@.next_id <= old(self)@.next_id + 1,
            final(self)@.value_scopes.len() == old(self)@.value_scopes.len(),
    {
        match &d.value.kind {
            ExprKind::Function { type_params, params, return_ty, .. } => {
                self.push_type_var_scope();
                let sig = self.lower_signature(type_params, params, return_ty, d.span);
                let ghost st1 = self@;
                let scope = match self.type_var_scopes.pop() {
                    Some(s) => s,
                    None => Vec::new(),
                };
                proof {
                    assert(self@ =~= close_scope(st1));
                    if st1.scopes.len() == 0 {
                        assert(scope_view(scope) =~= Seq::<(Seq<char>, u32)>::empty());
                    }
                }
                let (param_tys, return_ty) = match sig {
                    Ok(x) => x,
                    Err(e) => return Err(e),
                };
                let tvs = scope_ids_of(&scope, type_params);
                let fty = Ty::Function {
                    params: crate::hir::types::tys_duplicate(&param_tys),
                    return_ty: Box::new(return_ty.duplicate()),
                    varargs: false,
                };
                let tvs_copy = crate::hir::lower::type_var_ids_duplicate(&tvs);
                let ghost st2 = self@;
                let id = self.id_gen.fresh();
                let mut cur = self.scopes.pop().unwrap();
                let ghost cur0 = value_scope_view(cur);
                cur.push((d.name.clone(), id));
                assert(value_scope_view(cur) =~= cur0.push((d.name@, id.0)));
                self.scopes.push(cur);
                assert(self@.value_scopes =~= st2.value_scopes.update(
                    st2.value_scopes.len() - 1,
                    st2.value_scopes.last().push((d.name@, id.0)),
                ));
                self.add_overload_of(&d.name, id);
                let ghost st3 = self@;
                self.fn_id_by_node.insert(d.id.value(), id);
                self.bindings.insert(id.0, fty);
                self.fn_decl_type_var_ids.insert(id.0, tvs_copy);
                let sig_value = PendingFnSig { scope, type_var_ids: tvs, param_tys, return_ty };
                let ghost sv = sig_view(sig_value);
                self.pending_fn_sigs.insert(id.0, sig_value);
                proof {
                    assert(self@.fn_id_by_node =~= st3.fn_id_by_node.insert(d.id.spec_value(), id.0));
                    assert(self@.bindings =~= st3.bindings.insert(id.0, fty@));
                    assert(self@.fn_tvs =~= st3.fn_tvs.insert(id.0, ids_of(tvs_copy@)));
                    assert(self@.pending =~= st3.pending.insert(id.0, sv));
                }
                Ok(())
            },
            _ => Ok(()),
        }
    }
}

impl Lower {
    /// Registers every top-level function of `ds`, in order.
    pub fn pre_register_functions(&mut self, ds: &Vec<Declaration>) -> (r: Result<(), Error>)
        requires
            old(self).wf(),
            old(self)@.value_scopes.len() > 0,
            old(self)@.next_id + ds@.len() < u32::MAX,
        ensures
            final(self).wf(),
            final(self)@.value_scopes.len() == old(self)@.value_scopes.len(),
            done_out(r, final(self)@, pre_register_all_spec(old(self)@, ds@, 0)),
    {
        let mut i: usize = 0;
        while i < ds.len()
            invariant
                i <= ds.len(),
                self.wf(),
                self@.value_scopes.len() == old(self)@.value_scopes.len(),
                old(self)@.value_scopes.len() > 0,
                self@.next_id <= old(self)@.next_id + i,
                old(self)@.next_id + ds@.len() < u32::MAX,
                pre_register_all_spec(old(self)@, ds@, 0) == pre_register_all_spec(self@, ds@, i as int),
            decreases ds.len() - i,
        {
            match self.pre_register_top_level(&ds[i]) {
                Ok(()) => {},
                Err(e) => return Err(e),
            }
            i = i + 1;
        }
        Ok(())
    }
}

} // verus!
