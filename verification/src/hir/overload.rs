//! Choosing among the functions that share a name, by the types of the
//! arguments of a call, and the small receiver adjustments of method calls.

use crate::hir::error::{Error, ErrorKind};
use crate::hir::generics::{
    oriented, subst_view, try_unify_one, ty_has_typevars, unify, unify_spec, OriginV,
};
use crate::hir::lower::{
    fn_state_kept, local_ids, lookup_tv, scope_find, subst_list_spec, value_scope_view, Lower,
    LowerV, SPECIALIZATION_DEPTH,
};
use crate::hir::signatures::{find_overload, lemma_find_overload, overload_index};
use crate::hir::types::{
    is_place_kind, lemma_tys_view, tys_duplicate, tys_view, Expr, ExprKind, LocalId, Ty, TyV,
};
use crate::lexer::types::Span;
use std::collections::HashMap;
use vstd::prelude::*;

verus! {

/// The parameter types of the function bound to `id`, or none when `id` is
/// not bound to a function type.
pub open spec fn fn_params_of(b: Map<u32, TyV>, id: u32) -> Seq<TyV> {
    if b.contains_key(id) && b[id] is Function {
        b[id]->Function_params
    } else {
        Seq::empty()
    }
}

/// Whether the pairs of `params` and `args`, from the first on, unify one
/// after the other starting from the substitution `s`, each pair oriented
/// so that the side holding type variables is the one inferred.
pub open spec fn pairs_unify(params: Seq<TyV>, args: Seq<TyV>, s: Map<u32, TyV>, o: Seq<OriginV>) -> bool
    decreases params.len(),
{
    if params.len() == 0 || args.len() == 0 {
        true
    } else {
        let (lhs, rhs) = oriented(args[0], params[0]);
        let (res, s1) = unify_spec(lhs, rhs, s, o);
        res is Ok && pairs_unify(params.drop_first(), args.drop_first(), s1, o)
    }
}

/// Whether a function with parameter types `params` accepts arguments of
/// types `args`: as many of them, unifying pairwise from an empty
/// substitution.
pub open spec fn accepts(params: Seq<TyV>, args: Seq<TyV>, o: Seq<OriginV>) -> bool {
    params.len() == args.len() && pairs_unify(params, args, Map::empty(), o)
}

/// The functions among `cands` that accept `args`, in order.
pub open spec fn accepting(cands: Seq<u32>, b: Map<u32, TyV>, args: Seq<TyV>, o: Seq<OriginV>) -> Seq<u32>
    decreases cands.len(),
{
    if cands.len() == 0 {
        Seq::empty()
    } else {
        let rest = accepting(cands.drop_last(), b, args, o);
        if accepts(fn_params_of(b, cands.last()), args, o) {
            rest.push(cands.last())
        } else {
            rest
        }
    }
}

/// The functions named `name`, in declaration order.
pub open spec fn candidates(ov: Seq<(Seq<char>, Seq<u32>)>, name: Seq<char>) -> Seq<u32> {
    let k = find_overload(ov, name);
    if 0 <= k < ov.len() {
        ov[k].1
    } else {
        Seq::empty()
    }
}

/// The outcome of resolving a call of `name` with arguments of types `args`:
/// the one function that accepts them; otherwise no match, or an ambiguity.
pub open spec fn resolution(
    ov: Seq<(Seq<char>, Seq<u32>)>,
    b: Map<u32, TyV>,
    name: Seq<char>,
    args: Seq<TyV>,
    o: Seq<OriginV>,
) -> Result<u32, bool> {
    let m = accepting(candidates(ov, name), b, args, o);
    if m.len() == 1 {
        Ok(m[0])
    } else {
        Err(m.len() > 1)
    }
}

impl Lower {
    /// The parameter types of the function bound to `id`; none if it is not
    /// a function.
    pub fn fn_params(&self, id: LocalId) -> (r: Vec<Ty>)
        ensures
            tys_view(r@) == fn_params_of(self@.bindings, id.0),
    {
        match self.bindings.get(&id.0) {
            Some(t) => {
                assert(subst_view(self.bindings@)[id.0] == t@);
                match t {
                    Ty::Function { params, .. } => tys_duplicate(params),
                    _ => {
                        let v: Vec<Ty> = Vec::new();
                        assert(tys_view(v@) =~= Seq::<TyV>::empty());
                        v
                    },
                }
            },
            None => {
                let v: Vec<Ty> = Vec::new();
                assert(tys_view(v@) =~= Seq::<TyV>::empty());
                v
            },
        }
    }

    /// Whether a function with parameter types `params` accepts arguments of
    /// types `arg_tys`.
    pub fn overload_matches(&self, params: &Vec<Ty>, arg_tys: &Vec<Ty>) -> (r: bool)
        requires
            self.wf(),
        ensures
            r == accepts(tys_view(params@), tys_view(arg_tys@), self@.origins),
    {
        proof {
            lemma_tys_view(params@);
            lemma_tys_view(arg_tys@);
        }
        if params.len() != arg_tys.len() {
            return false;
        }
        let mut subst: HashMap<u32, Ty> = HashMap::new();
        let ghost ps = tys_view(params@);
        let ghost qs = tys_view(arg_tys@);
        let mut i: usize = 0;
        assert(subst_view(subst@) =~= Map::<u32, TyV>::empty());
        assert(ps.subrange(0, ps.len() as int) =~= ps);
        assert(qs.subrange(0, qs.len() as int) =~= qs);
        while i < params.len()
            invariant
                self.wf(),
                params.len() == arg_tys.len(),
                ps == tys_view(params@),
                qs == tys_view(arg_tys@),
                ps.len() == params.len(),
                qs.len() == arg_tys.len(),
                forall|j: int| 0 <= j < ps.len() ==> ps[j] == (#[trigger] params@[j])@,
                forall|j: int| 0 <= j < qs.len() ==> qs[j] == (#[trigger] arg_tys@[j])@,
                i <= params.len(),
                pairs_unify(ps, qs, Map::empty(), self@.origins) == pairs_unify(
                    ps.subrange(i as int, ps.len() as int),
                    qs.subrange(i as int, qs.len() as int),
                    subst_view(subst@),
                    self@.origins,
                ),
            decreases params.len() - i,
        {
            let p = &params[i];
            let a = &arg_tys[i];
            let ghost before = subst_view(subst@);
            proof {
                let pt = ps.subrange(i as int, ps.len() as int);
                let qt = qs.subrange(i as int, qs.len() as int);
                assert(pt[0] == p@);
                assert(qt[0] == a@);
                assert(pt.drop_first() =~= ps.subrange(i + 1, ps.len() as int));
                assert(qt.drop_first() =~= qs.subrange(i + 1, qs.len() as int));
            }
            let swap = !ty_has_typevars(p) && ty_has_typevars(a);
            let res = if swap {
                unify(a, p, Span::default(), &mut subst, &self.origins)
            } else {
                unify(p, a, Span::default(), &mut subst, &self.origins)
            };
            if res.is_err() {
                return false;
            }
            i = i + 1;
        }
        true
    }

    /// The function named `name` that accepts arguments of types
    /// `arg_tys`: the only one that does, or an error at `span` when none
    /// or several do.
    pub fn resolve_overload(&self, name: &String, arg_tys: &Vec<Ty>, span: Span) -> (r: Result<
        LocalId,
        Error,
    >)
        requires
            self.wf(),
        ensures
            match resolution(self@.overloads, self@.bindings, name@, tys_view(arg_tys@), self@.origins) {
                Ok(id) => r == Ok::<LocalId, Error>(LocalId(id)),
                Err(ambiguous) => r matches Err(e) && e.span == span && if ambiguous {
                    e.kind matches ErrorKind::AmbiguousOverload { name: n } && n@ == name@
                } else {
                    e.kind matches ErrorKind::NoMatchingOverload { name: n } && n@ == name@
                },
            },
    {
        let ghost ov = self@.overloads;
        let ghost args = tys_view(arg_tys@);
        let ghost o = self@.origins;
        let empty: Vec<LocalId> = Vec::new();
        proof {
            lemma_find_overload(ov, name@);
            assert(empty@.map_values(|l: LocalId| l.0) =~= Seq::<u32>::empty());
        }
        let cands: &Vec<LocalId> = match overload_index(&self.overloads, name) {
            Some(k) => {
                assert(ov[k as int] == (self.overloads@[k as int].0@, local_ids(self.overloads@[k as int].1@)));
                &self.overloads[k].1
            },
            None => &empty,
        };
        assert(local_ids(cands@) == candidates(ov, name@));
        let mut matched: Vec<LocalId> = Vec::new();
        let mut i: usize = 0;
        while i < cands.len()
            invariant
                self.wf(),
                i <= cands.len(),
                local_ids(cands@) == candidates(ov, name@),
                ov == self@.overloads,
                args == tys_view(arg_tys@),
                o == self@.origins,
                local_ids(matched@) == accepting(local_ids(cands@).take(i as int), self@.bindings, args, o),
            decreases cands.len() - i,
        {
            let id = cands[i];
            let ps = self.fn_params(id);
            proof {
                let c = local_ids(cands@);
                assert(c.take(i + 1).drop_last() =~= c.take(i as int));
                assert(c.take(i + 1).last() == id.0);
            }
            if self.overload_matches(&ps, arg_tys) {
                matched.push(id);
                assert(local_ids(matched@) =~= local_ids(matched@.drop_last()).push(id.0));
            }
            i = i + 1;
        }
        assert(local_ids(cands@).take(cands.len() as int) =~= local_ids(cands@));
        if matched.len() == 1 {
            Ok(matched[0])
        } else if matched.len() == 0 {
            Err(Error { span, kind: ErrorKind::NoMatchingOverload { name: name.clone() } })
        } else {
            Err(Error { span, kind: ErrorKind::AmbiguousOverload { name: name.clone() } })
        }
    }
}

/// How a method call's receiver is passed: as it is, by address, or
/// dereferenced.
#[derive(Clone, Copy, Debug, PartialEq, Eq, Structural)]
pub enum RecvAdjust {
    AsIs,
    Ref,
    Deref,
}

/// The receiver types to try for a method call, in order of preference, each
/// with its adjustment: the receiver's own type; a pointer to it when the
/// receiver is a place; the pointee when it is a pointer.
pub open spec fn receiver_forms_spec(recv: Expr) -> Seq<(TyV, RecvAdjust)> {
    let a = seq![(recv.ty@, RecvAdjust::AsIs)];
    let b = if is_place(recv.kind) {
        a.push((TyV::Ptr(Box::new(recv.ty@)), RecvAdjust::Ref))
    } else {
        a
    };
    match recv.ty@ {
        TyV::Ptr(inner) => b.push((*inner, RecvAdjust::Deref)),
        _ => b,
    }
}

pub open spec fn is_place(k: ExprKind) -> bool {
    k is Local || k is Field || k is Subscript || k is Deref
}

/// Whether `r` is `recv` passed with adjustment `adj`.
pub open spec fn adjusted(recv: Expr, adj: RecvAdjust, r: Expr) -> bool {
    match adj {
        RecvAdjust::AsIs => r == recv,
        RecvAdjust::Ref => r.span == recv.span && r.ty@ == TyV::Ptr(Box::new(recv.ty@)) && r.kind
            == ExprKind::Ref(Box::new(recv)),
        RecvAdjust::Deref => recv.ty@ matches TyV::Ptr(inner) && r.span == recv.span && r.ty@ == *inner
            && r.kind == ExprKind::Deref(Box::new(recv)),
    }
}

/// Whether a function's first parameter is a pointer.
pub open spec fn takes_pointer_first(fn_ty: TyV) -> bool {
    fn_ty matches TyV::Function { params, .. } && params.len() > 0 && params[0] is Ptr
}

/// For a call through a function value: the receiver by address when the
/// function takes a pointer first and the receiver is a place that is not a
/// pointer, else as it is.
pub open spec fn autoref_adjust(recv: Expr, fn_ty: TyV) -> RecvAdjust {
    if takes_pointer_first(fn_ty) && !(recv.ty@ is Ptr) && is_place(recv.kind) {
        RecvAdjust::Ref
    } else {
        RecvAdjust::AsIs
    }
}

/// The first receiver form, from the `k`-th on, with which the function of
/// parameter types `params` accepts the receiver followed by `others`.
pub open spec fn first_form(
    params: Seq<TyV>,
    forms: Seq<(TyV, RecvAdjust)>,
    others: Seq<TyV>,
    o: Seq<OriginV>,
) -> Option<RecvAdjust>
    decreases forms.len(),
{
    if forms.len() == 0 {
        None
    } else if accepts(params, seq![forms[0].0] + others, o) {
        Some(forms[0].1)
    } else {
        first_form(params, forms.drop_first(), others, o)
    }
}

/// The candidates among `cands` (functions with at least one parameter)
/// that accept the receiver in one of its forms followed by `others`, each
/// with the first form that fits, in order.
pub open spec fn method_matches(
    cands: Seq<u32>,
    b: Map<u32, TyV>,
    forms: Seq<(TyV, RecvAdjust)>,
    others: Seq<TyV>,
    o: Seq<OriginV>,
) -> Seq<(u32, RecvAdjust)>
    decreases cands.len(),
{
    if cands.len() == 0 {
        Seq::empty()
    } else {
        let rest = method_matches(cands.drop_last(), b, forms, others, o);
        let ps = fn_params_of(b, cands.last());
        if ps.len() == 0 {
            rest
        } else {
            match first_form(ps, forms, others, o) {
                Some(adj) => rest.push((cands.last(), adj)),
                None => rest,
            }
        }
    }
}

impl Lower {
    /// Opens a new innermost scope of value names.
    pub fn enter_scope(&mut self)
        ensures
            final(self)@ == (LowerV { value_scopes: old(self)@.value_scopes.push(Seq::empty()), ..old(self)@ }),
            final(self).wf() == old(self).wf(),
    {
        let empty: Vec<(String, LocalId)> = Vec::new();
        assert(value_scope_view(empty) =~= Seq::<(Seq<char>, u32)>::empty());
        self.scopes.push(empty);
        assert(self.scopes@.map_values(|s: Vec<(String, LocalId)>| value_scope_view(s))
            =~= old(self).scopes@.map_values(|s: Vec<(String, LocalId)>| value_scope_view(s)).push(
            Seq::empty(),
        ));
    }

    /// Closes the innermost scope of value names, if any.
    pub fn leave_scope(&mut self)
        ensures
            final(self)@ == (LowerV {
                value_scopes: if old(self)@.value_scopes.len() > 0 {
                    old(self)@.value_scopes.drop_last()
                } else {
                    old(self)@.value_scopes
                },
                ..old(self)@
            }),
            final(self).wf() == old(self).wf(),
    {
        let _ = self.scopes.pop();
        assert(self@.value_scopes =~= if old(self)@.value_scopes.len() > 0 {
            old(self)@.value_scopes.drop_last()
        } else {
            old(self)@.value_scopes
        });
    }

    /// The local that `name` denotes: its binding in the innermost scope
    /// that has one.
    pub fn resolve(&self, name: &String) -> (r: Option<LocalId>)
        ensures
            r matches Some(id) ==> lookup_tv(self@.value_scopes, name@) == Some(id.0),
            r is None ==> lookup_tv(self@.value_scopes, name@) is None,
    {
        let ghost vs = self@.value_scopes;
        let mut k: usize = self.scopes.len();
        assert(vs.take(k as int) =~= vs);
        while k > 0
            invariant
                k <= self.scopes.len(),
                vs == self@.value_scopes,
                lookup_tv(vs, name@) == lookup_tv(vs.take(k as int), name@),
            decreases k,
        {
            let scope = &self.scopes[k - 1];
            let ghost sv = value_scope_view(*scope);
            assert(vs.take(k as int).drop_last() =~= vs.take(k - 1));
            assert(vs.take(k as int).last() == sv);
            let mut j: usize = scope.len();
            assert(sv.take(j as int) =~= sv);
            while j > 0
                invariant
                    j <= scope.len(),
                    sv == value_scope_view(*scope),
                    0 < k <= self.scopes.len(),
                    vs == self@.value_scopes,
                    vs.take(k as int).last() == sv,
                    vs.take(k as int).len() == k,
                    lookup_tv(vs, name@) == lookup_tv(vs.take(k as int), name@),
                    scope_find(sv, name@) == scope_find(sv.take(j as int), name@),
                decreases j,
            {
                assert(sv.take(j as int).drop_last() =~= sv.take(j - 1));
                assert(sv.take(j as int).last() == (scope@[j - 1].0@, scope@[j - 1].1.0));
                if scope[j - 1].0 == *name {
                    assert(scope_find(sv, name@) == Some(scope@[j - 1].1.0));
                    assert(lookup_tv(vs.take(k as int), name@) == Some(scope@[j - 1].1.0));
                    return Some(scope[j - 1].1);
                }
                j = j - 1;
            }
            k = k - 1;
        }
        None
    }
}

/// The receiver `recv` passed with adjustment `adjust`.
pub fn apply_recv_adjust(recv: Expr, adjust: RecvAdjust) -> (r: Expr)
    requires
        adjust is Deref ==> recv.ty@ is Ptr,
    ensures
        adjusted(recv, adjust, r),
{
    match adjust {
        RecvAdjust::AsIs => recv,
        RecvAdjust::Ref => {
            let ty = Ty::Ptr(Box::new(recv.ty.duplicate()));
            let span = recv.span;
            Expr { span, ty, kind: ExprKind::Ref(Box::new(recv)) }
        },
        RecvAdjust::Deref => {
            let span = recv.span;
            let ty = match &recv.ty {
                Ty::Ptr(inner) => inner.duplicate(),
                _ => Ty::Unit,
            };
            Expr { span, ty, kind: ExprKind::Deref(Box::new(recv)) }
        },
    }
}

/// The receiver forms of `recv` (see [`receiver_forms_spec`]).
pub fn receiver_forms(recv: &Expr) -> (r: Vec<(Ty, RecvAdjust)>)
    ensures
        r@.map_values(|f: (Ty, RecvAdjust)| (f.0@, f.1)) == receiver_forms_spec(*recv),
{
    let mut forms: Vec<(Ty, RecvAdjust)> = Vec::new();
    forms.push((recv.ty.duplicate(), RecvAdjust::AsIs));
    if is_place_kind(&recv.kind) {
        forms.push((Ty::Ptr(Box::new(recv.ty.duplicate())), RecvAdjust::Ref));
    }
    match &recv.ty {
        Ty::Ptr(inner) => {
            forms.push((inner.duplicate(), RecvAdjust::Deref));
        },
        _ => {},
    }
    assert(forms@.map_values(|f: (Ty, RecvAdjust)| (f.0@, f.1)) =~= receiver_forms_spec(*recv));
    forms
}

/// For a call through a function value of type `fn_ty`: the receiver by
/// address when the function takes a pointer first and the receiver is a
/// place that is not a pointer; else the receiver as it is.
pub fn maybe_autoref(recv: Expr, fn_ty: &Ty) -> (r: Expr)
    ensures
        adjusted(recv, autoref_adjust(recv, fn_ty@), r),
{
    let first_is_ptr = match fn_ty {
        Ty::Function { params, .. } => {
            proof {
                lemma_tys_view(params@);
            }
            params.len() > 0 && match &params[0] {
                Ty::Ptr(_) => true,
                _ => false,
            }
        },
        _ => false,
    };
    let recv_is_ptr = match &recv.ty {
        Ty::Ptr(_) => true,
        _ => false,
    };
    if first_is_ptr && !recv_is_ptr && is_place_kind(&recv.kind) {
        apply_recv_adjust(recv, RecvAdjust::Ref)
    } else {
        recv
    }
}

proof fn lemma_first_form_fits(ps: Seq<TyV>, forms: Seq<(TyV, RecvAdjust)>, others: Seq<TyV>, o: Seq<OriginV>, ptr: bool)
    requires
        forall|k: int| 0 <= k < forms.len() && (#[trigger] forms[k]).1 is Deref ==> ptr,
    ensures
        first_form(ps, forms, others, o) matches Some(a) && a is Deref ==> ptr,
    decreases forms.len(),
{
    if forms.len() > 0 {
        assert(forms[0].1 is Deref ==> ptr);
        let t = forms.drop_first();
        assert forall|k: int| 0 <= k < t.len() && (#[trigger] t[k]).1 is Deref implies ptr by {
            assert(t[k] == forms[k + 1]);
        }
        lemma_first_form_fits(ps, t, others, o, ptr);
    }
}

proof fn lemma_method_matches_fit(
    cands: Seq<u32>,
    b: Map<u32, TyV>,
    forms: Seq<(TyV, RecvAdjust)>,
    others: Seq<TyV>,
    o: Seq<OriginV>,
    ptr: bool,
)
    requires
        forall|k: int| 0 <= k < forms.len() && (#[trigger] forms[k]).1 is Deref ==> ptr,
    ensures
        forall|k: int|
            0 <= k < method_matches(cands, b, forms, others, o).len() && (#[trigger] method_matches(
                cands,
                b,
                forms,
                others,
                o,
            )[k]).1 is Deref ==> ptr,
    decreases cands.len(),
{
    if cands.len() > 0 {
        lemma_method_matches_fit(cands.drop_last(), b, forms, others, o, ptr);
        lemma_first_form_fits(fn_params_of(b, cands.last()), forms, others, o, ptr);
    }
}

pub open spec fn matches_view(m: Seq<(LocalId, RecvAdjust)>) -> Seq<(u32, RecvAdjust)> {
    m.map_values(|x: (LocalId, RecvAdjust)| (x.0.0, x.1))
}

impl Lower {
    /// Resolves the method `name` called on `recv` with further arguments of
    /// types `other_arg_tys`: among the functions of that name (those with a
    /// parameter), the only one that accepts the receiver in one of its forms
    /// (see [`receiver_forms_spec`]; the first form that fits) followed by
    /// the other arguments, with the receiver adjusted to that form; an error
    /// at `span` when none or several do. When no function has that name, a
    /// local holding a function value is used, with the receiver passed by
    /// address if that function takes a pointer first.
    pub fn resolve_method(&self, name: &String, recv: Expr, other_arg_tys: &Vec<Ty>, span: Span) -> (r: Result<
        (LocalId, Expr),
        Error,
    >)
        requires
            self.wf(),
            candidates(self@.overloads, name@).len() == 0 ==> (lookup_tv(self@.value_scopes, name@) matches Some(
                id,
            ) ==> self@.bindings.contains_key(id)),
        ensures
            candidates(self@.overloads, name@).len() == 0 ==> match lookup_tv(self@.value_scopes, name@) {
                None => r matches Err(e) && e.span == span && (e.kind matches ErrorKind::NameNotFound {
                    name: n,
                } && n@ == name@),
                Some(id) => r matches Ok((l, x)) && l.0 == id && adjusted(
                    recv,
                    autoref_adjust(recv, self@.bindings[id]),
                    x,
                ),
            },
            candidates(self@.overloads, name@).len() > 0 ==> {
                let m = method_matches(
                    candidates(self@.overloads, name@),
                    self@.bindings,
                    receiver_forms_spec(recv),
                    tys_view(other_arg_tys@),
                    self@.origins,
                );
                if m.len() == 1 {
                    r matches Ok((l, x)) && l.0 == m[0].0 && adjusted(recv, m[0].1, x)
                } else {
                    r matches Err(e) && e.span == span && (if m.len() > 1 {
                        e.kind matches ErrorKind::AmbiguousOverload { name: n } && n@ == name@
                    } else {
                        e.kind matches ErrorKind::NoMatchingOverload { name: n } && n@ == name@
                    })
                }
            },
    {
        let ghost ov = self@.overloads;
        let empty: Vec<LocalId> = Vec::new();
        proof {
            lemma_find_overload(ov, name@);
            assert(empty@.map_values(|l: LocalId| l.0) =~= Seq::<u32>::empty());
        }
        let cands: &Vec<LocalId> = match overload_index(&self.overloads, name) {
            Some(k) => {
                assert(ov[k as int] == (self.overloads@[k as int].0@, local_ids(self.overloads@[k as int].1@)));
                &self.overloads[k].1
            },
            None => &empty,
        };
        assert(local_ids(cands@) == candidates(ov, name@));
        if cands.len() == 0 {
            match self.resolve(name) {
                None => {
                    return Err(Error { span, kind: ErrorKind::NameNotFound { name: name.clone() } });
                },
                Some(id) => {
                    let fn_ty = match self.bindings.get(&id.0) {
                        Some(t) => t,
                        None => {
                            assert(false);
                            return Err(Error { span, kind: ErrorKind::NameNotFound { name: name.clone() } });
                        },
                    };
                    assert(subst_view(self.bindings@)[id.0] == fn_ty@);
                    let recv = maybe_autoref(recv, fn_ty);
                    return Ok((id, recv));
                },
            }
        }
        let forms = receiver_forms(&recv);
        let ghost fv = forms@.map_values(|f: (Ty, RecvAdjust)| (f.0@, f.1));
        let ghost others = tys_view(other_arg_tys@);
        let ghost cs = local_ids(cands@);
        let ghost o = self@.origins;
        let ghost b = self@.bindings;
        let mut matched: Vec<(LocalId, RecvAdjust)> = Vec::new();
        let mut i: usize = 0;
        proof {
            lemma_tys_view(other_arg_tys@);
        }
        while i < cands.len()
            invariant
                self.wf(),
                i <= cands.len(),
                cs == local_ids(cands@),
                o == self@.origins,
                b == self@.bindings,
                others == tys_view(other_arg_tys@),
                others.len() == other_arg_tys.len(),
                forall|j: int| 0 <= j < others.len() ==> others[j] == (#[trigger] other_arg_tys@[j])@,
                fv == forms@.map_values(|f: (Ty, RecvAdjust)| (f.0@, f.1)),
                matches_view(matched@) == method_matches(cs.take(i as int), b, fv, others, o),
            decreases cands.len() - i,
        {
            let id = cands[i];
            let ghost before = matched@;
            proof {
                assert(cs.take(i + 1).drop_last() =~= cs.take(i as int));
                assert(cs.take(i + 1).last() == id.0);
            }
            let params = self.fn_params(id);
            if params.len() > 0 {
                let ghost ps = tys_view(params@);
                let mut j: usize = 0;
                let mut found: Option<RecvAdjust> = None;
                assert(fv.subrange(0, fv.len() as int) =~= fv);
                while j < forms.len() && found.is_none()
                    invariant
                        self.wf(),
                        j <= forms.len(),
                        fv == forms@.map_values(|f: (Ty, RecvAdjust)| (f.0@, f.1)),
                        fv.len() == forms.len(),
                        ps == tys_view(params@),
                        others == tys_view(other_arg_tys@),
                        others.len() == other_arg_tys.len(),
                        forall|q: int| 0 <= q < others.len() ==> others[q] == (#[trigger] other_arg_tys@[q])@,
                        o == self@.origins,
                        found is None ==> first_form(ps, fv, others, o) == first_form(
                            ps,
                            fv.subrange(j as int, fv.len() as int),
                            others,
                            o,
                        ),
                        found matches Some(a) ==> first_form(ps, fv, others, o) == Some(a),
                    decreases forms.len() - j + (if found is None { 1int } else { 0int }),
                {
                    let mut full: Vec<Ty> = Vec::new();
                    full.push(forms[j].0.duplicate());
                    let mut q: usize = 0;
                    while q < other_arg_tys.len()
                        invariant
                            q <= other_arg_tys.len(),
                            j < forms.len(),
                            full.len() == q + 1,
                            full@[0]@ == forms@[j as int].0@,
                            forall|z: int| 0 <= z < q ==> (#[trigger] full@[z + 1])@ == other_arg_tys@[z]@,
                        decreases other_arg_tys.len() - q,
                    {
                        full.push(other_arg_tys[q].duplicate());
                        q = q + 1;
                    }
                    proof {
                        lemma_tys_view(full@);
                        assert(fv[j as int] == (forms@[j as int].0@, forms@[j as int].1));
                        let want = seq![fv[j as int].0] + others;
                        assert forall|z: int| 0 <= z < want.len() implies #[trigger] tys_view(full@)[z] == want[z] by {
                            if z > 0 {
                                assert(full@[(z - 1) + 1]@ == other_arg_tys@[z - 1]@);
                            }
                        }
                        assert(tys_view(full@) =~= want);
                        let t = fv.subrange(j as int, fv.len() as int);
                        assert(t[0] == fv[j as int]);
                        assert(t.drop_first() =~= fv.subrange(j + 1, fv.len() as int));
                    }
                    if self.overload_matches(&params, &full) {
                        found = Some(forms[j].1);
                    } else {
                        j = j + 1;
                    }
                }
                proof {
                    if found is None {
                        assert(fv.subrange(j as int, fv.len() as int) =~= Seq::<(TyV, RecvAdjust)>::empty());
                    }
                }
                match found {
                    Some(adj) => {
                        matched.push((id, adj));
                    },
                    None => {},
                }
                assert(matches_view(matched@) =~= method_matches(cs.take(i + 1), b, fv, others, o));
            } else {
                assert(matches_view(matched@) =~= method_matches(cs.take(i + 1), b, fv, others, o));
            }
            i = i + 1;
        }
        assert(cs.take(cands.len() as int) =~= cs);
        proof {
            assert forall|k: int| 0 <= k < fv.len() && (#[trigger] fv[k]).1 is Deref implies recv.ty@ is Ptr by {
            }
            lemma_method_matches_fit(cs, b, fv, others, o, recv.ty@ is Ptr);
        }
        if matched.len() == 1 {
            let (id, adjust) = matched[0];
            assert(matches_view(matched@)[0] == (id.0, adjust));
            Ok((id, apply_recv_adjust(recv, adjust)))
        } else if matched.len() == 0 {
            Err(Error { span, kind: ErrorKind::NoMatchingOverload { name: name.clone() } })
        } else {
            Err(Error { span, kind: ErrorKind::AmbiguousOverload { name: name.clone() } })
        }
    }
}

/// The number of pointer layers around a type.
pub open spec fn ptr_depth(t: TyV) -> nat
    decreases t,
{
    match t {
        TyV::Ptr(inner) => 1 + ptr_depth(*inner),
        _ => 0,
    }
}

/// Whether `r` is `t` under zero or more dereferences, each of a pointer
/// to the type of the node above it, all spanning `t`'s span.
pub open spec fn deref_chain(t: Expr, r: Expr) -> bool
    decreases r,
{
    r == t || (r.kind matches ExprKind::Deref(x) && r.span == t.span && (x.ty@ matches TyV::Ptr(i)
        && r.ty@ == *i) && deref_chain(t, *x))
}

impl Lower {
    /// `target` dereferenced until its type is no longer a pointer, as
    /// field access does.
    pub fn autoderef_to_struct(&self, target: Expr) -> (r: Expr)
        ensures
            deref_chain(target, r),
            !(r.ty@ is Ptr),
    {
        let ghost orig = target;
        let mut t = target;
        loop
            invariant
                deref_chain(orig, t),
                t.span == orig.span,
            ensures
                deref_chain(orig, t),
                !(t.ty@ is Ptr),
            decreases ptr_depth(t.ty@),
        {
            let pointee = match &t.ty {
                Ty::Ptr(inner) => inner.duplicate(),
                _ => {
                    break;
                },
            };
            let span = t.span;
            let ghost prev = t;
            t = Expr { span, ty: pointee, kind: ExprKind::Deref(Box::new(t)) };
            assert(deref_chain(orig, t));
        }
        t
    }
}

/// The known argument types by value; `None` marks an argument not lowered
/// yet.
pub open spec fn known_view(k: Seq<Option<Ty>>) -> Seq<Option<TyV>> {
    k.map_values(|x: Option<Ty>| match x {
        Some(t) => Some(t@),
        None => None,
    })
}

/// Unifying the parameters `ps` pairwise with the known argument types,
/// skipping the unknown ones, from substitution `s`: whether every pair
/// unified, and the substitution afterwards.
pub open spec fn known_fit(ps: Seq<TyV>, known: Seq<Option<TyV>>, s: Map<u32, TyV>, o: Seq<OriginV>) -> (bool, Map<u32, TyV>)
    decreases ps.len(),
{
    if ps.len() == 0 || known.len() == 0 {
        (true, s)
    } else {
        match known[0] {
            None => known_fit(ps.drop_first(), known.drop_first(), s, o),
            Some(a) => {
                let (lhs, rhs) = oriented(a, ps[0]);
                let (res, s1) = unify_spec(lhs, rhs, s, o);
                if res is Err {
                    (false, s1)
                } else {
                    known_fit(ps.drop_first(), known.drop_first(), s1, o)
                }
            },
        }
    }
}

/// The candidates with as many parameters as there are arguments whose
/// parameters fit the known argument types, each with its parameters and the
/// substitution the fit made, in order.
pub open spec fn hint_matches(cands: Seq<u32>, b: Map<u32, TyV>, known: Seq<Option<TyV>>, o: Seq<OriginV>) -> Seq<(Seq<TyV>, Map<u32, TyV>)>
    decreases cands.len(),
{
    if cands.len() == 0 {
        Seq::empty()
    } else {
        let rest = hint_matches(cands.drop_last(), b, known, o);
        let ps = fn_params_of(b, cands.last());
        let (ok, s) = known_fit(ps, known, Map::empty(), o);
        if ps.len() == known.len() && ok {
            rest.push((ps, s))
        } else {
            rest
        }
    }
}

/// The parameter types a call of `name` with these known argument types
/// leads to: when exactly one function of that name fits, its parameter
/// types with the fit's substitution applied (`None` if applying it fails),
/// and the state afterwards.
pub open spec fn hints_spec(st: LowerV, name: Seq<char>, known: Seq<Option<TyV>>) -> (Option<Seq<TyV>>, LowerV) {
    let cands = candidates(st.overloads, name);
    if cands.len() == 0 {
        (None, st)
    } else {
        let m = hint_matches(cands, st.bindings, known, st.origins);
        if m.len() != 1 {
            (None, st)
        } else {
            let (r, st2) = subst_list_spec(st, m[0].0, m[0].1, SPECIALIZATION_DEPTH as nat);
            match r {
                Ok(v) => (Some(v), st2),
                Err(_) => (None, st2),
            }
        }
    }
}

impl Lower {
    fn known_fits(&self, params: &Vec<Ty>, known: &Vec<Option<Ty>>, subst: &mut HashMap<u32, Ty>) -> (r: bool)
        requires
            self.wf(),
        ensures
            (r, subst_view(final(subst)@)) == known_fit(
                tys_view(params@),
                known_view(known@),
                subst_view(old(subst)@),
                self@.origins,
            ),
    {
        let ghost ps = tys_view(params@);
        let ghost ks = known_view(known@);
        let ghost goal = known_fit(ps, ks, subst_view(subst@), self@.origins);
        proof {
            lemma_tys_view(params@);
            assert(ps.subrange(0, ps.len() as int) =~= ps);
            assert(ks.subrange(0, ks.len() as int) =~= ks);
        }
        let mut i: usize = 0;
        while i < params.len() && i < known.len()
            invariant
                self.wf(),
                ps == tys_view(params@),
                ks == known_view(known@),
                ps.len() == params.len(),
                ks.len() == known.len(),
                forall|j: int| 0 <= j < ps.len() ==> ps[j] == (#[trigger] params@[j])@,
                i <= params.len(),
                i <= known.len(),
                goal == known_fit(ps, ks, subst_view(old(subst)@), self@.origins),
                goal == known_fit(
                    ps.subrange(i as int, ps.len() as int),
                    ks.subrange(i as int, ks.len() as int),
                    subst_view(subst@),
                    self@.origins,
                ),
            decreases params.len() - i,
        {
            proof {
                let pt = ps.subrange(i as int, ps.len() as int);
                let kt = ks.subrange(i as int, ks.len() as int);
                assert(pt[0] == params@[i as int]@);
                assert(kt[0] == ks[i as int]);
                assert(pt.drop_first() =~= ps.subrange(i + 1, ps.len() as int));
                assert(kt.drop_first() =~= ks.subrange(i + 1, ks.len() as int));
            }
            match &known[i] {
                None => {
                    assert(ks[i as int] is None);
                },
                Some(a) => {
                    assert(ks[i as int] == Some(a@));
                    let ghost sb = subst_view(subst@);
                    let ghost pt = ps.subrange(i as int, ps.len() as int);
                    let ghost kt = ks.subrange(i as int, ks.len() as int);
                    assert(kt[0] == Some(a@));
                    assert(pt[0] == params@[i as int]@);
                    if !try_unify_one(a, &params[i], subst, &self.origins) {
                        assert(known_fit(pt, kt, sb, self@.origins) == (false, subst_view(subst@)));
                        return false;
                    }
                },
            }
            i = i + 1;
        }
        proof {
            if i == params.len() {
                assert(ps.subrange(i as int, ps.len() as int).len() == 0);
            } else {
                assert(ks.subrange(i as int, ks.len() as int).len() == 0);
            }
        }
        true
    }

    /// Narrows the functions named `name` by the argument types known so far
    /// (`None` for an argument not lowered yet): when exactly one fits, its
    /// parameter types with what the fit inferred substituted (see
    /// [`hints_spec`]).
    pub fn arg_hints_from_args(&mut self, name: &String, known_arg_tys: &Vec<Option<Ty>>) -> (r: Option<Vec<Ty>>)
        requires
            old(self).wf(),
        ensures
            final(self).wf(),
            fn_state_kept(old(self)@, final(self)@),
            final(self)@ == hints_spec(old(self)@, name@, known_view(known_arg_tys@)).1,
            match hints_spec(old(self)@, name@, known_view(known_arg_tys@)).0 {
                None => r is None,
                Some(v) => r matches Some(t) && tys_view(t@) == v,
            },
    {
        let ghost ov = self@.overloads;
        let ghost ks = known_view(known_arg_tys@);
        let empty: Vec<LocalId> = Vec::new();
        proof {
            lemma_find_overload(ov, name@);
            assert(empty@.map_values(|l: LocalId| l.0) =~= Seq::<u32>::empty());
        }
        let cands: &Vec<LocalId> = match overload_index(&self.overloads, name) {
            Some(k) => {
                assert(ov[k as int] == (self.overloads@[k as int].0@, local_ids(self.overloads@[k as int].1@)));
                &self.overloads[k].1
            },
            None => &empty,
        };
        assert(local_ids(cands@) == candidates(ov, name@));
        if cands.len() == 0 {
            return None;
        }
        let ghost cs = local_ids(cands@);
        let ghost b = self@.bindings;
        let ghost o = self@.origins;
        let mut count: usize = 0;
        let mut first: Option<(Vec<Ty>, HashMap<u32, Ty>)> = None;
        let mut i: usize = 0;
        while i < cands.len()
            invariant
                self.wf(),
                self@ == old(self)@,
                i <= cands.len(),
                cs == local_ids(cands@),
                b == self@.bindings,
                o == self@.origins,
                ks == known_view(known_arg_tys@),
                count == hint_matches(cs.take(i as int), b, ks, o).len(),
                count > 0 ==> (first matches Some((p, s)) && (tys_view(p@), subst_view(s@)) == hint_matches(
                    cs.take(i as int),
                    b,
                    ks,
                    o,
                )[0]),
            decreases cands.len() - i,
        {
            let id = cands[i];
            let ghost before = hint_matches(cs.take(i as int), b, ks, o);
            proof {
                assert(cs.take(i + 1).drop_last() =~= cs.take(i as int));
                assert(cs.take(i + 1).last() == id.0);
            }
            let params = self.fn_params(id);
            proof {
                lemma_tys_view(params@);
                lemma_known_len(known_arg_tys@);
            }
            if params.len() == known_arg_tys.len() {
                let mut subst: HashMap<u32, Ty> = HashMap::new();
                assert(subst_view(subst@) =~= Map::<u32, TyV>::empty());
                if self.known_fits(&params, known_arg_tys, &mut subst) {
                    if count == 0 {
                        first = Some((params, subst));
                    }
                    proof {
                        lemma_hint_matches_len(cs.take(i as int), b, ks, o);
                    }
                    count = count + 1;
                }
            }
            i = i + 1;
        }
        assert(cs.take(cands.len() as int) =~= cs);
        if count != 1 {
            return None;
        }
        match first {
            Some((params, subst)) => {
                match self.subst_tys(&params, &subst, SPECIALIZATION_DEPTH) {
                    Ok(v) => Some(v),
                    Err(_) => None,
                }
            },
            None => None,
        }
    }
}

proof fn lemma_known_len(k: Seq<Option<Ty>>)
    ensures
        known_view(k).len() == k.len(),
{
}

proof fn lemma_hint_matches_len(cands: Seq<u32>, b: Map<u32, TyV>, known: Seq<Option<TyV>>, o: Seq<OriginV>)
    ensures
        hint_matches(cands, b, known, o).len() <= cands.len(),
    decreases cands.len(),
{
    if cands.len() > 0 {
        lemma_hint_matches_len(cands.drop_last(), b, known, o);
    }
}

/// The substitution of the first receiver form that fits the first
/// parameter of `ps` and lets the other parameters fit the known argument
/// types.
pub open spec fn recv_fit(ps: Seq<TyV>, forms: Seq<(TyV, RecvAdjust)>, known: Seq<Option<TyV>>, o: Seq<OriginV>) -> Option<Map<u32, TyV>>
    decreases forms.len(),
{
    if forms.len() == 0 || ps.len() == 0 {
        None
    } else {
        let (lhs, rhs) = oriented(forms[0].0, ps[0]);
        let (res, s1) = unify_spec(lhs, rhs, Map::empty(), o);
        let (ok, s2) = known_fit(ps.drop_first(), known, s1, o);
        if res is Ok && ok {
            Some(s2)
        } else {
            recv_fit(ps, forms.drop_first(), known, o)
        }
    }
}

/// The candidates with one parameter more than the known arguments that a
/// receiver form and the known arguments fit, with their parameters and
/// substitution, in order.
pub open spec fn recv_hint_matches(
    cands: Seq<u32>,
    b: Map<u32, TyV>,
    forms: Seq<(TyV, RecvAdjust)>,
    known: Seq<Option<TyV>>,
    o: Seq<OriginV>,
) -> Seq<(Seq<TyV>, Map<u32, TyV>)>
    decreases cands.len(),
{
    if cands.len() == 0 {
        Seq::empty()
    } else {
        let rest = recv_hint_matches(cands.drop_last(), b, forms, known, o);
        let ps = fn_params_of(b, cands.last());
        if ps.len() == known.len() + 1 {
            match recv_fit(ps, forms, known, o) {
                Some(s) => rest.push((ps, s)),
                None => rest,
            }
        } else {
            rest
        }
    }
}

/// Like [`hints_spec`] for a method call on `recv`: the parameter types
/// after the receiver's, of the one function that fits.
pub open spec fn recv_hints_spec(st: LowerV, name: Seq<char>, recv: Expr, known: Seq<Option<TyV>>) -> (Option<Seq<TyV>>, LowerV) {
    let cands = candidates(st.overloads, name);
    if cands.len() == 0 {
        (None, st)
    } else {
        let m = recv_hint_matches(cands, st.bindings, receiver_forms_spec(recv), known, st.origins);
        if m.len() != 1 {
            (None, st)
        } else {
            let (r, st2) = subst_list_spec(st, m[0].0.drop_first(), m[0].1, SPECIALIZATION_DEPTH as nat);
            match r {
                Ok(v) => (Some(v), st2),
                Err(_) => (None, st2),
            }
        }
    }
}

proof fn lemma_recv_hint_matches_len(
    cands: Seq<u32>,
    b: Map<u32, TyV>,
    forms: Seq<(TyV, RecvAdjust)>,
    known: Seq<Option<TyV>>,
    o: Seq<OriginV>,
)
    ensures
        recv_hint_matches(cands, b, forms, known, o).len() <= cands.len(),
    decreases cands.len(),
{
    if cands.len() > 0 {
        lemma_recv_hint_matches_len(cands.drop_last(), b, forms, known, o);
    }
}

proof fn lemma_recv_hint_matches_arity(
    cands: Seq<u32>,
    b: Map<u32, TyV>,
    forms: Seq<(TyV, RecvAdjust)>,
    known: Seq<Option<TyV>>,
    o: Seq<OriginV>,
)
    ensures
        forall|k: int|
            0 <= k < recv_hint_matches(cands, b, forms, known, o).len() ==> (#[trigger] recv_hint_matches(
                cands,
                b,
                forms,
                known,
                o,
            )[k]).0.len() == known.len() + 1,
    decreases cands.len(),
{
    if cands.len() > 0 {
        lemma_recv_hint_matches_arity(cands.drop_last(), b, forms, known, o);
        let rest = recv_hint_matches(cands.drop_last(), b, forms, known, o);
        let m = recv_hint_matches(cands, b, forms, known, o);
        assert forall|k: int| 0 <= k < m.len() implies (#[trigger] m[k]).0.len() == known.len() + 1 by {
            if k < rest.len() {
                assert(m[k] == rest[k]);
            }
        }
    }
}

impl Lower {
    /// Narrows the functions named `name` by the receiver `recv` (in any of
    /// its forms) and the other argument types known so far: when exactly
    /// one fits, its parameter types after the receiver's, with what the fit
    /// inferred substituted (see [`recv_hints_spec`]).
    pub fn arg_hints_from_receiver(&mut self, name: &String, recv: &Expr, known_other_arg_tys: &Vec<Option<Ty>>) -> (r: Option<Vec<Ty>>)
        requires
            old(self).wf(),
        ensures
            final(self).wf(),
            fn_state_kept(old(self)@, final(self)@),
            final(self)@ == recv_hints_spec(old(self)@, name@, *recv, known_view(known_other_arg_tys@)).1,
            match recv_hints_spec(old(self)@, name@, *recv, known_view(known_other_arg_tys@)).0 {
                None => r is None,
                Some(v) => r matches Some(t) && tys_view(t@) == v,
            },
    {
        let ghost ov = self@.overloads;
        let ghost ks = known_view(known_other_arg_tys@);
        let empty: Vec<LocalId> = Vec::new();
        proof {
            lemma_find_overload(ov, name@);
            assert(empty@.map_values(|l: LocalId| l.0) =~= Seq::<u32>::empty());
            lemma_known_len(known_other_arg_tys@);
        }
        let cands: &Vec<LocalId> = match overload_index(&self.overloads, name) {
            Some(k) => {
                assert(ov[k as int] == (self.overloads@[k as int].0@, local_ids(self.overloads@[k as int].1@)));
                &self.overloads[k].1
            },
            None => &empty,
        };
        assert(local_ids(cands@) == candidates(ov, name@));
        if cands.len() == 0 {
            return None;
        }
        let forms = receiver_forms(recv);
        let ghost fv = forms@.map_values(|f: (Ty, RecvAdjust)| (f.0@, f.1));
        let ghost cs = local_ids(cands@);
        let ghost b = self@.bindings;
        let ghost o = self@.origins;
        let mut count: usize = 0;
        let mut first: Option<(Vec<Ty>, HashMap<u32, Ty>)> = None;
        let mut i: usize = 0;
        while i < cands.len()
            invariant
                self.wf(),
                self@ == old(self)@,
                i <= cands.len(),
                cs == local_ids(cands@),
                b == self@.bindings,
                o == self@.origins,
                ks == known_view(known_other_arg_tys@),
                ks.len() == known_other_arg_tys.len(),
                fv == forms@.map_values(|f: (Ty, RecvAdjust)| (f.0@, f.1)),
                fv == receiver_forms_spec(*recv),
                count == recv_hint_matches(cs.take(i as int), b, fv, ks, o).len(),
                count > 0 ==> (first matches Some((p, s)) && (tys_view(p@), subst_view(s@)) == recv_hint_matches(
                    cs.take(i as int),
                    b,
                    fv,
                    ks,
                    o,
                )[0]),
            decreases cands.len() - i,
        {
            let id = cands[i];
            proof {
                assert(cs.take(i + 1).drop_last() =~= cs.take(i as int));
                assert(cs.take(i + 1).last() == id.0);
            }
            let params = self.fn_params(id);
            let ghost ps = tys_view(params@);
            proof {
                lemma_tys_view(params@);
            }
            if params.len() > 0 && params.len() - 1 == known_other_arg_tys.len() {
                let mut rest: Vec<Ty> = Vec::new();
                let mut q: usize = 1;
                while q < params.len()
                    invariant
                        1 <= q <= params.len(),
                        rest.len() == q - 1,
                        forall|z: int| 0 <= z < rest.len() ==> (#[trigger] rest@[z])@ == params@[z + 1]@,
                    decreases params.len() - q,
                {
                    rest.push(params[q].duplicate());
                    q = q + 1;
                }
                proof {
                    lemma_tys_view(rest@);
                    assert(tys_view(rest@) =~= ps.drop_first());
                }
                let mut j: usize = 0;
                let mut found: Option<HashMap<u32, Ty>> = None;
                assert(fv.subrange(0, fv.len() as int) =~= fv);
                while j < forms.len() && found.is_none()
                    invariant
                        self.wf(),
                        j <= forms.len(),
                        fv == forms@.map_values(|f: (Ty, RecvAdjust)| (f.0@, f.1)),
                        fv.len() == forms.len(),
                        ps == tys_view(params@),
                        ps.len() == params.len(),
                        params.len() > 0,
                        forall|z: int| 0 <= z < ps.len() ==> ps[z] == (#[trigger] params@[z])@,
                        tys_view(rest@) == ps.drop_first(),
                        ks == known_view(known_other_arg_tys@),
                        o == self@.origins,
                        found is None ==> recv_fit(ps, fv, ks, o) == recv_fit(
                            ps,
                            fv.subrange(j as int, fv.len() as int),
                            ks,
                            o,
                        ),
                        found matches Some(s) ==> recv_fit(ps, fv, ks, o) == Some(subst_view(s@)),
                    decreases forms.len() - j + (if found is None { 1int } else { 0int }),
                {
                    let ghost t = fv.subrange(j as int, fv.len() as int);
                    proof {
                        assert(t[0] == fv[j as int]);
                        assert(fv[j as int] == (forms@[j as int].0@, forms@[j as int].1));
                        assert(t.drop_first() =~= fv.subrange(j + 1, fv.len() as int));
                    }
                    let mut subst: HashMap<u32, Ty> = HashMap::new();
                    assert(subst_view(subst@) =~= Map::<u32, TyV>::empty());
                    if try_unify_one(&forms[j].0, &params[0], &mut subst, &self.origins) {
                        if self.known_fits(&rest, known_other_arg_tys, &mut subst) {
                            found = Some(subst);
                        } else {
                            j = j + 1;
                        }
                    } else {
                        j = j + 1;
                    }
                }
                proof {
                    if found is None {
                        assert(fv.subrange(j as int, fv.len() as int) =~= Seq::<(TyV, RecvAdjust)>::empty());
                    }
                }
                match found {
                    Some(s) => {
                        if count == 0 {
                            first = Some((params, s));
                        }
                        proof {
                            lemma_recv_hint_matches_len(cs.take(i as int), b, fv, ks, o);
                        }
                        count = count + 1;
                    },
                    None => {},
                }
            }
            i = i + 1;
        }
        assert(cs.take(cands.len() as int) =~= cs);
        if count != 1 {
            return None;
        }
        proof {
            lemma_recv_hint_matches_arity(cs, b, fv, ks, o);
        }
        match first {
            Some((params, subst)) => {
                proof {
                    lemma_tys_view(params@);
                    assert(params.len() == ks.len() + 1);
                }
                let mut rest: Vec<Ty> = Vec::new();
                let mut q: usize = 1;
                while q < params.len()
                    invariant
                        1 <= q,
                        q <= params.len() || params.len() == 0,
                        rest.len() == q - 1,
                        forall|z: int| 0 <= z < rest.len() ==> (#[trigger] rest@[z])@ == params@[z + 1]@,
                    decreases params.len() - q,
                {
                    rest.push(params[q].duplicate());
                    q = q + 1;
                }
                proof {
                    lemma_tys_view(rest@);
                    lemma_tys_view(params@);
                    assert(tys_view(rest@) =~= tys_view(params@).drop_first());
                }
                match self.subst_tys(&rest, &subst, SPECIALIZATION_DEPTH) {
                    Ok(v) => Some(v),
                    Err(_) => None,
                }
            },
            None => None,
        }
    }
}

} // verus!
