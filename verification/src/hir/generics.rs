//! Type variables: finding them in a type, and inferring them by unifying a
//! generic parameter type against an argument type.

use crate::hir::error::{Error, ErrorKind};
use crate::hir::types::{
    lemma_tys_view, lemma_tys_view_len, tys_duplicate, tys_view, ty_view, Ty, TyV, TypeVarId,
};
use crate::lexer::types::Span;
use std::collections::HashMap;
use vstd::prelude::*;

verus! {

broadcast use lemma_tys_view_len;

/// The type variables of `t`, in depth-first order, repeats included.
pub open spec fn occurrences(t: TyV) -> Seq<u32>
    decreases t,
{
    match t {
        TyV::TypeVar(id) => seq![id],
        TyV::Ptr(inner) => occurrences(*inner),
        TyV::Array { element, .. } => occurrences(*element),
        TyV::Function { params, return_ty, .. } => occurrences_list(params) + occurrences(
            *return_ty,
        ),
        TyV::Closure { params, return_ty } => occurrences_list(params) + occurrences(*return_ty),
        TyV::GenericStruct { args, .. } => occurrences_list(args),
        TyV::GenericEnum { args, .. } => occurrences_list(args),
        TyV::Tuple(elems) => occurrences_list(elems),
        _ => Seq::empty(),
    }
}

pub open spec fn occurrences_list(s: Seq<TyV>) -> Seq<u32>
    decreases s,
{
    if s.len() == 0 {
        Seq::empty()
    } else {
        occurrences_list(s.subrange(0, s.len() - 1)) + occurrences(s[s.len() - 1])
    }
}

/// `out` followed by those of `ids` not seen before, each once, in order.
pub open spec fn add_new(out: Seq<u32>, ids: Seq<u32>) -> Seq<u32>
    decreases ids.len(),
{
    if ids.len() == 0 {
        out
    } else {
        let o = add_new(out, ids.subrange(0, ids.len() - 1));
        if o.contains(ids[ids.len() - 1]) {
            o
        } else {
            o.push(ids[ids.len() - 1])
        }
    }
}

pub open spec fn ids_of(s: Seq<TypeVarId>) -> Seq<u32> {
    s.map_values(|x: TypeVarId| x.0)
}

pub proof fn lemma_add_new_concat(out: Seq<u32>, a: Seq<u32>, b: Seq<u32>)
    ensures
        add_new(out, a + b) == add_new(add_new(out, a), b),
    decreases b.len(),
{
    if b.len() == 0 {
        assert(a + b =~= a);
    } else {
        let ab = a + b;
        assert(ab.subrange(0, ab.len() - 1) =~= a + b.subrange(0, b.len() - 1));
        lemma_add_new_concat(out, a, b.subrange(0, b.len() - 1));
    }
}

proof fn lemma_occurrences_push(s: Seq<Ty>, t: Ty)
    ensures
        occurrences_list(tys_view(s.push(t))) == occurrences_list(tys_view(s)) + occurrences(t@),
{
    let x = s.push(t);
    assert(x.subrange(0, x.len() - 1) =~= s);
    let v = tys_view(x);
    assert(v.subrange(0, v.len() - 1) =~= tys_view(s));
}

fn any_has_typevars(v: &Vec<Ty>) -> (r: bool)
    ensures
        r == (occurrences_list(tys_view(v@)).len() > 0),
    decreases v,
{
    let mut i: usize = 0;
    while i < v.len()
        invariant
            i <= v.len(),
            occurrences_list(tys_view(v@.subrange(0, i as int))).len() == 0,
        decreases v.len() - i,
    {
        proof {
            assert(v@.subrange(0, i + 1) =~= v@.subrange(0, i as int).push(v@[i as int]));
            lemma_occurrences_push(v@.subrange(0, i as int), v@[i as int]);
        }
        if ty_has_typevars(&v[i]) {
            proof {
                lemma_occurrences_push(v@.subrange(0, i as int), v@[i as int]);
                let p = v@.subrange(0, i + 1);
                let q = v@.subrange(i + 1, v.len() as int);
                assert(v@ =~= p + q);
                lemma_occurrences_concat(p, q);
            }
            return true;
        }
        i = i + 1;
    }
    assert(v@.subrange(0, v.len() as int) =~= v@);
    false
}

proof fn lemma_occurrences_concat(p: Seq<Ty>, q: Seq<Ty>)
    ensures
        occurrences_list(tys_view(p + q)) == occurrences_list(tys_view(p)) + occurrences_list(
            tys_view(q),
        ),
    decreases q.len(),
{
    if q.len() == 0 {
        assert(p + q =~= p);
        assert(occurrences_list(tys_view(p)) + occurrences_list(tys_view(q)) =~= occurrences_list(
            tys_view(p),
        ));
    } else {
        let q0 = q.subrange(0, q.len() - 1);
        let last = q[q.len() - 1];
        assert(p + q =~= (p + q0).push(last));
        assert(q =~= q0.push(last));
        lemma_occurrences_concat(p, q0);
        lemma_occurrences_push(p + q0, last);
        lemma_occurrences_push(q0, last);
        assert(occurrences_list(tys_view(p)) + occurrences_list(tys_view(q0)) + occurrences(last@)
            =~= occurrences_list(tys_view(p)) + (occurrences_list(tys_view(q0)) + occurrences(
            last@,
        )));
    }
}

/// Whether a type variable occurs anywhere in `ty`.
pub fn ty_has_typevars(ty: &Ty) -> (r: bool)
    ensures
        r == (occurrences(ty@).len() > 0),
    decreases ty,
{
    match ty {
        Ty::TypeVar(_) => true,
        Ty::Ptr(inner) => ty_has_typevars(inner),
        Ty::Array { element, .. } => ty_has_typevars(element),
        Ty::Function { params, return_ty, .. } => any_has_typevars(params) || ty_has_typevars(
            return_ty,
        ),
        Ty::Closure { params, return_ty } => any_has_typevars(params) || ty_has_typevars(
            return_ty,
        ),
        Ty::GenericStruct { args, .. } => any_has_typevars(args),
        Ty::GenericEnum { args, .. } => any_has_typevars(args),
        Ty::Tuple(elems) => any_has_typevars(elems),
        _ => false,
    }
}

fn contains_id(out: &Vec<TypeVarId>, id: u32) -> (r: bool)
    ensures
        r == ids_of(out@).contains(id),
{
    let mut i: usize = 0;
    while i < out.len()
        invariant
            i <= out.len(),
            forall|j: int| 0 <= j < i ==> out@[j].0 != id,
        decreases out.len() - i,
    {
        if out[i].0 == id {
            assert(ids_of(out@)[i as int] == id);
            return true;
        }
        i = i + 1;
    }
    proof {
        if ids_of(out@).contains(id) {
            let j = choose|j: int| 0 <= j < ids_of(out@).len() && ids_of(out@)[j] == id;
            assert(out@[j].0 == id);
        }
    }
    false
}

fn collect_list(v: &Vec<Ty>, out: &mut Vec<TypeVarId>)
    ensures
        ids_of(final(out)@) == add_new(ids_of(old(out)@), occurrences_list(tys_view(v@))),
    decreases v,
{
    let ghost start = ids_of(out@);
    let mut i: usize = 0;
    while i < v.len()
        invariant
            i <= v.len(),
            ids_of(out@) == add_new(start, occurrences_list(tys_view(v@.subrange(0, i as int)))),
        decreases v.len() - i,
    {
        collect_typevars(&v[i], out);
        proof {
            assert(v@.subrange(0, i + 1) =~= v@.subrange(0, i as int).push(v@[i as int]));
            lemma_occurrences_push(v@.subrange(0, i as int), v@[i as int]);
            lemma_add_new_concat(
                start,
                occurrences_list(tys_view(v@.subrange(0, i as int))),
                occurrences(v@[i as int]@),
            );
        }
        i = i + 1;
    }
    assert(v@.subrange(0, v.len() as int) =~= v@);
}

/// Appends to `out` the type variables of `ty` not already in it, in
/// depth-first order, each once.
pub fn collect_typevars(ty: &Ty, out: &mut Vec<TypeVarId>)
    ensures
        ids_of(final(out)@) == add_new(ids_of(old(out)@), occurrences(ty@)),
    decreases ty,
{
    match ty {
        Ty::TypeVar(id) => {
            proof {
                assert(seq![id.0].subrange(0, 0) =~= Seq::<u32>::empty());
                assert(add_new(ids_of(old(out)@), Seq::<u32>::empty()) == ids_of(old(out)@));
                assert(occurrences(ty@) == seq![id.0]);
            }
            if !contains_id(out, id.0) {
                out.push(*id);
                assert(ids_of(out@) =~= ids_of(old(out)@).push(id.0));
            }
        },
        Ty::Ptr(inner) => collect_typevars(inner, out),
        Ty::Array { element, .. } => collect_typevars(element, out),
        Ty::Function { params, return_ty, .. } => {
            collect_list(params, out);
            collect_typevars(return_ty, out);
            proof {
                lemma_add_new_concat(
                    ids_of(old(out)@),
                    occurrences_list(tys_view(params@)),
                    occurrences(return_ty@),
                );
            }
        },
        Ty::Closure { params, return_ty } => {
            collect_list(params, out);
            collect_typevars(return_ty, out);
            proof {
                lemma_add_new_concat(
                    ids_of(old(out)@),
                    occurrences_list(tys_view(params@)),
                    occurrences(return_ty@),
                );
            }
        },
        Ty::GenericStruct { args, .. } => collect_list(args, out),
        Ty::GenericEnum { args, .. } => collect_list(args, out),
        Ty::Tuple(elems) => collect_list(elems, out),
        _ => {},
    }
}

/// Where a specialized struct or enum came from: the template it
/// instantiates and the type arguments it was instantiated with.
#[derive(Debug)]
pub struct Origin {
    pub is_enum: bool,
    pub specialized: String,
    pub template: String,
    pub args: Vec<Ty>,
}

pub struct OriginV {
    pub is_enum: bool,
    pub specialized: Seq<char>,
    pub template: Seq<char>,
    pub args: Seq<TyV>,
}

pub open spec fn origin_view(o: Origin) -> OriginV {
    OriginV {
        is_enum: o.is_enum,
        specialized: o.specialized@,
        template: o.template@,
        args: tys_view(o.args@),
    }
}

/// Whether `t` names the struct (or, with `is_enum`, the enum) `name`.
pub open spec fn mentions(t: TyV, is_enum: bool, name: Seq<char>) -> bool
    decreases t,
{
    match t {
        TyV::Struct(n) => !is_enum && n == name,
        TyV::Enum(n) => is_enum && n == name,
        TyV::Ptr(inner) => mentions(*inner, is_enum, name),
        TyV::Array { element, .. } => mentions(*element, is_enum, name),
        TyV::Function { params, return_ty, .. } => mentions_list(params, is_enum, name) || mentions(
            *return_ty,
            is_enum,
            name,
        ),
        TyV::Closure { params, return_ty } => mentions_list(params, is_enum, name) || mentions(
            *return_ty,
            is_enum,
            name,
        ),
        TyV::GenericStruct { args, .. } => mentions_list(args, is_enum, name),
        TyV::GenericEnum { args, .. } => mentions_list(args, is_enum, name),
        TyV::Tuple(elems) => mentions_list(elems, is_enum, name),
        _ => false,
    }
}

pub open spec fn mentions_list(s: Seq<TyV>, is_enum: bool, name: Seq<char>) -> bool
    decreases s,
{
    if s.len() == 0 {
        false
    } else {
        mentions(s[0], is_enum, name) || mentions_list(s.subrange(1, s.len() as int), is_enum, name)
    }
}

/// No entry's arguments name that entry itself or any entry recorded after
/// it: specializations only refer to what existed before them.
pub open spec fn origins_ok(o: Seq<OriginV>) -> bool {
    forall|m: int, m2: int|
        0 <= m <= m2 < o.len() ==> !mentions_list(
            #[trigger] o[m].args,
            #[trigger] o[m2].is_enum,
            o[m2].specialized,
        )
}

/// The last entry before position `k` recorded for `name` (of the given
/// kind), or -1.
pub open spec fn find(o: Seq<OriginV>, is_enum: bool, name: Seq<char>, k: int) -> int
    decreases k,
{
    if k <= 0 {
        -1
    } else if o[k - 1].is_enum == is_enum && o[k - 1].specialized == name {
        k - 1
    } else {
        find(o, is_enum, name, k - 1)
    }
}

/// The size of `t` with every specialized name unfolded into its template
/// arguments, using only entries before position `k`.
pub open spec fn esize(t: TyV, o: Seq<OriginV>, k: nat) -> nat
    decreases k, t,
{
    match t {
        TyV::Struct(n) => {
            let m = find(o, false, n, k as int);
            if 0 <= m < k && m < o.len() {
                1 + esize_list(o[m].args, o, m as nat)
            } else {
                1
            }
        },
        TyV::Enum(n) => {
            let m = find(o, true, n, k as int);
            if 0 <= m < k && m < o.len() {
                1 + esize_list(o[m].args, o, m as nat)
            } else {
                1
            }
        },
        TyV::Ptr(inner) => 1 + esize(*inner, o, k),
        TyV::Array { element, .. } => 1 + esize(*element, o, k),
        TyV::Function { params, return_ty, .. } => 1 + esize_list(params, o, k) + esize(
            *return_ty,
            o,
            k,
        ),
        TyV::Closure { params, return_ty } => 1 + esize_list(params, o, k) + esize(
            *return_ty,
            o,
            k,
        ),
        TyV::GenericStruct { args, .. } => 1 + esize_list(args, o, k),
        TyV::GenericEnum { args, .. } => 1 + esize_list(args, o, k),
        TyV::Tuple(elems) => 1 + esize_list(elems, o, k),
        _ => 1,
    }
}

pub open spec fn esize_list(s: Seq<TyV>, o: Seq<OriginV>, k: nat) -> nat
    decreases k, s,
{
    if s.len() == 0 {
        0
    } else {
        esize(s[0], o, k) + esize_list(s.subrange(1, s.len() as int), o, k)
    }
}

/// No entry at or after position `j` is named by `t`.
pub open spec fn refs_below(t: TyV, o: Seq<OriginV>, j: int) -> bool {
    forall|m: int| j <= m < o.len() ==> !mentions(t, #[trigger] o[m].is_enum, o[m].specialized)
}

pub open spec fn refs_below_list(s: Seq<TyV>, o: Seq<OriginV>, j: int) -> bool {
    forall|m: int|
        j <= m < o.len() ==> !mentions_list(s, #[trigger] o[m].is_enum, o[m].specialized)
}

pub proof fn lemma_esize_pos(t: TyV, o: Seq<OriginV>, k: nat)
    ensures
        esize(t, o, k) >= 1,
{
}

pub proof fn lemma_find_stable(o: Seq<OriginV>, is_enum: bool, name: Seq<char>, j: int, k: int)
    requires
        0 <= j <= k <= o.len(),
        forall|m: int|
            j <= m < o.len() ==> !(#[trigger] o[m].is_enum == is_enum && o[m].specialized == name),
    ensures
        find(o, is_enum, name, k) == find(o, is_enum, name, j),
    decreases k - j,
{
    if k > j {
        lemma_find_stable(o, is_enum, name, j, k - 1);
    }
}

pub proof fn lemma_find_bound(o: Seq<OriginV>, is_enum: bool, name: Seq<char>, k: int)
    ensures
        -1 <= find(o, is_enum, name, k) < k || (k <= 0 && find(o, is_enum, name, k) == -1),
        find(o, is_enum, name, k) >= 0 ==> o[find(o, is_enum, name, k)].is_enum == is_enum
            && o[find(o, is_enum, name, k)].specialized == name,
    decreases k,
{
    if k > 0 {
        lemma_find_bound(o, is_enum, name, k - 1);
    }
}

pub proof fn lemma_esize_stable(t: TyV, o: Seq<OriginV>, j: nat, k: nat)
    requires
        j <= k <= o.len(),
        refs_below(t, o, j as int),
    ensures
        esize(t, o, j) == esize(t, o, k),
    decreases t,
{
    match t {
        TyV::Struct(n) => {
            assert forall|m: int| j <= m < o.len() implies !(#[trigger] o[m].is_enum == false
                && o[m].specialized == n) by {
                assert(!mentions(t, o[m].is_enum, o[m].specialized));
            }
            lemma_find_stable(o, false, n, j as int, k as int);
            lemma_find_bound(o, false, n, j as int);
        },
        TyV::Enum(n) => {
            assert forall|m: int| j <= m < o.len() implies !(#[trigger] o[m].is_enum == true
                && o[m].specialized == n) by {
                assert(!mentions(t, o[m].is_enum, o[m].specialized));
            }
            lemma_find_stable(o, true, n, j as int, k as int);
            lemma_find_bound(o, true, n, j as int);
        },
        TyV::Ptr(inner) => {
            assert forall|m: int| j <= m < o.len() implies !mentions(
                *inner,
                #[trigger] o[m].is_enum,
                o[m].specialized,
            ) by {
                assert(!mentions(t, o[m].is_enum, o[m].specialized));
            }
            lemma_esize_stable(*inner, o, j, k);
        },
        TyV::Array { element, .. } => {
            assert forall|m: int| j <= m < o.len() implies !mentions(
                *element,
                #[trigger] o[m].is_enum,
                o[m].specialized,
            ) by {
                assert(!mentions(t, o[m].is_enum, o[m].specialized));
            }
            lemma_esize_stable(*element, o, j, k);
        },
        TyV::Function { params, return_ty, .. } => {
            assert forall|m: int| j <= m < o.len() implies !mentions(
                *return_ty,
                #[trigger] o[m].is_enum,
                o[m].specialized,
            ) && !mentions_list(params, o[m].is_enum, o[m].specialized) by {
                assert(!mentions(t, o[m].is_enum, o[m].specialized));
            }
            lemma_esize_stable(*return_ty, o, j, k);
            lemma_esize_list_stable(params, o, j, k);
        },
        TyV::Closure { params, return_ty } => {
            assert forall|m: int| j <= m < o.len() implies !mentions(
                *return_ty,
                #[trigger] o[m].is_enum,
                o[m].specialized,
            ) && !mentions_list(params, o[m].is_enum, o[m].specialized) by {
                assert(!mentions(t, o[m].is_enum, o[m].specialized));
            }
            lemma_esize_stable(*return_ty, o, j, k);
            lemma_esize_list_stable(params, o, j, k);
        },
        TyV::GenericStruct { args, .. } => {
            assert forall|m: int| j <= m < o.len() implies !mentions_list(
                args,
                #[trigger] o[m].is_enum,
                o[m].specialized,
            ) by {
                assert(!mentions(t, o[m].is_enum, o[m].specialized));
            }
            lemma_esize_list_stable(args, o, j, k);
        },
        TyV::GenericEnum { args, .. } => {
            assert forall|m: int| j <= m < o.len() implies !mentions_list(
                args,
                #[trigger] o[m].is_enum,
                o[m].specialized,
            ) by {
                assert(!mentions(t, o[m].is_enum, o[m].specialized));
            }
            lemma_esize_list_stable(args, o, j, k);
        },
        TyV::Tuple(elems) => {
            assert forall|m: int| j <= m < o.len() implies !mentions_list(
                elems,
                #[trigger] o[m].is_enum,
                o[m].specialized,
            ) by {
                assert(!mentions(t, o[m].is_enum, o[m].specialized));
            }
            lemma_esize_list_stable(elems, o, j, k);
        },
        _ => {},
    }
}

pub proof fn lemma_esize_list_stable(s: Seq<TyV>, o: Seq<OriginV>, j: nat, k: nat)
    requires
        j <= k <= o.len(),
        refs_below_list(s, o, j as int),
    ensures
        esize_list(s, o, j) == esize_list(s, o, k),
    decreases s,
{
    if s.len() > 0 {
        assert forall|m: int| j <= m < o.len() implies !mentions(
            s[0],
            #[trigger] o[m].is_enum,
            o[m].specialized,
        ) && !mentions_list(s.subrange(1, s.len() as int), o[m].is_enum, o[m].specialized) by {
            assert(!mentions_list(s, o[m].is_enum, o[m].specialized));
        }
        lemma_esize_stable(s[0], o, j, k);
        lemma_esize_list_stable(s.subrange(1, s.len() as int), o, j, k);
    }
}

proof fn lemma_mentions_list(s: Seq<TyV>, is_enum: bool, name: Seq<char>)
    ensures
        mentions_list(s, is_enum, name) <==> exists|i: int|
            0 <= i < s.len() && mentions(#[trigger] s[i], is_enum, name),
    decreases s.len(),
{
    if s.len() > 0 {
        let rest = s.subrange(1, s.len() as int);
        lemma_mentions_list(rest, is_enum, name);
        if mentions_list(rest, is_enum, name) {
            let i = choose|i: int| 0 <= i < rest.len() && mentions(#[trigger] rest[i], is_enum, name);
            assert(s[i + 1] == rest[i]);
        }
        if exists|i: int| 0 <= i < s.len() && mentions(#[trigger] s[i], is_enum, name) {
            let i = choose|i: int| 0 <= i < s.len() && mentions(#[trigger] s[i], is_enum, name);
            if i > 0 {
                assert(rest[i - 1] == s[i]);
            }
        }
    }
}

fn list_mentions(v: &Vec<Ty>, is_enum: bool, name: &String) -> (r: bool)
    ensures
        r == mentions_list(tys_view(v@), is_enum, name@),
    decreases v,
{
    proof {
        lemma_tys_view(v@);
        lemma_mentions_list(tys_view(v@), is_enum, name@);
    }
    let mut i: usize = 0;
    while i < v.len()
        invariant
            i <= v.len(),
            tys_view(v@).len() == v.len(),
            forall|j: int| 0 <= j < v.len() ==> #[trigger] tys_view(v@)[j] == ty_view(v@[j]),
            forall|j: int| 0 <= j < i ==> !mentions(#[trigger] tys_view(v@)[j], is_enum, name@),
        decreases v.len() - i,
    {
        if ty_mentions(&v[i], is_enum, name) {
            proof {
                lemma_mentions_list(tys_view(v@), is_enum, name@);
                assert(mentions(tys_view(v@)[i as int], is_enum, name@));
            }
            return true;
        }
        i = i + 1;
    }
    false
}

/// Whether `t` names the struct (or, with `is_enum`, the enum) `name`.
pub fn ty_mentions(t: &Ty, is_enum: bool, name: &String) -> (r: bool)
    ensures
        r == mentions(t@, is_enum, name@),
    decreases t,
{
    match t {
        Ty::Struct(n) => !is_enum && *n == *name,
        Ty::Enum(n) => is_enum && *n == *name,
        Ty::Ptr(inner) => ty_mentions(inner, is_enum, name),
        Ty::Array { element, .. } => ty_mentions(element, is_enum, name),
        Ty::Function { params, return_ty, .. } => list_mentions(params, is_enum, name)
            || ty_mentions(return_ty, is_enum, name),
        Ty::Closure { params, return_ty } => list_mentions(params, is_enum, name) || ty_mentions(
            return_ty,
            is_enum,
            name,
        ),
        Ty::GenericStruct { args, .. } => list_mentions(args, is_enum, name),
        Ty::GenericEnum { args, .. } => list_mentions(args, is_enum, name),
        Ty::Tuple(elems) => list_mentions(elems, is_enum, name),
        _ => false,
    }
}

/// The specialized structs and enums recorded so far, with the template and
/// type arguments each was made from. A later record for the same name
/// replaces an earlier one.
pub struct Origins {
    entries: Vec<Origin>,
}

impl Origins {
    pub closed spec fn view(&self) -> Seq<OriginV> {
        self.entries@.map_values(|e: Origin| origin_view(e))
    }

    pub open spec fn wf(&self) -> bool {
        origins_ok(self@)
    }

    pub fn new() -> (r: Origins)
        ensures
            r@ == Seq::<OriginV>::empty(),
            r.wf(),
    {
        let r = Origins { entries: Vec::new() };
        assert(r@ =~= Seq::<OriginV>::empty());
        r
    }

    pub fn len(&self) -> (r: usize)
        ensures
            r == self@.len(),
    {
        self.entries.len()
    }

    /// The record for `name` (of the given kind), if any.
    pub fn get(&self, is_enum: bool, name: &String) -> (r: Option<&Origin>)
        ensures
            match r {
                Some(e) => find(self@, is_enum, name@, self@.len() as int) >= 0 && origin_view(*e)
                    == self@[find(self@, is_enum, name@, self@.len() as int)],
                None => find(self@, is_enum, name@, self@.len() as int) == -1,
            },
    {
        let mut k: usize = self.entries.len();
        while k > 0
            invariant
                k <= self.entries.len(),
                self@.len() == self.entries.len(),
                find(self@, is_enum, name@, self@.len() as int) == find(
                    self@,
                    is_enum,
                    name@,
                    k as int,
                ),
            decreases k,
        {
            let e = &self.entries[k - 1];
            if e.is_enum == is_enum && e.specialized == *name {
                assert(self@[k - 1] == origin_view(*e));
                return Some(e);
            }
            assert(self@[k - 1] == origin_view(self.entries@[k - 1]));
            k = k - 1;
        }
        None
    }

    /// Records that `specialized` instantiates `template` with `args`. The
    /// record is refused (and `false` returned) when it would let a name
    /// refer to itself: when `args`, or the arguments of an earlier record,
    /// name `specialized`.
    pub fn insert(&mut self, is_enum: bool, specialized: String, template: String, args: Vec<Ty>) -> (ok: bool)
        requires
            old(self).wf(),
        ensures
            final(self).wf(),
            ok == ((forall|m: int|
                0 <= m < old(self)@.len() ==> !mentions_list(
                    #[trigger] old(self)@[m].args,
                    is_enum,
                    specialized@,
                )) && !mentions_list(tys_view(args@), is_enum, specialized@)),
            ok ==> final(self)@ == old(self)@.push(
                OriginV {
                    is_enum,
                    specialized: specialized@,
                    template: template@,
                    args: tys_view(args@),
                },
            ),
            !ok ==> final(self)@ == old(self)@,
    {
        let mut i: usize = 0;
        while i < self.entries.len()
            invariant
                i <= self.entries.len(),
                self@.len() == self.entries.len(),
                self@ == old(self)@,
                origins_ok(self@),
                forall|m: int|
                    0 <= m < i ==> !mentions_list(#[trigger] self@[m].args, is_enum, specialized@),
            decreases self.entries.len() - i,
        {
            assert(self@[i as int] == origin_view(self.entries@[i as int]));
            if list_mentions(&self.entries[i].args, is_enum, &specialized) {
                assert(mentions_list(old(self)@[i as int].args, is_enum, specialized@));
                return false;
            }
            i = i + 1;
        }
        if list_mentions(&args, is_enum, &specialized) {
            return false;
        }
        let ghost before = self@;
        let ghost entry = OriginV {
            is_enum,
            specialized: specialized@,
            template: template@,
            args: tys_view(args@),
        };
        self.entries.push(Origin { is_enum, specialized, template, args });
        assert(self@ =~= before.push(entry));
        assert forall|m: int, m2: int| 0 <= m <= m2 < self@.len() implies !mentions_list(
            #[trigger] self@[m].args,
            #[trigger] self@[m2].is_enum,
            self@[m2].specialized,
        ) by {
            if m2 < before.len() {
                assert(self@[m] == before[m]);
                assert(self@[m2] == before[m2]);
            }
        }
        true
    }
}

/// The result of unifying `p` (the parameter side) against `a` (the
/// argument side) starting from substitution `s`: success or the pair of
/// types that failed to match, and the substitution afterwards. Bindings made
/// before a failure are kept.
pub open spec fn unify_spec(p: TyV, a: TyV, s: Map<u32, TyV>, o: Seq<OriginV>) -> (Result<(), (TyV, TyV)>, Map<u32, TyV>)
    decreases esize(p, o, o.len()) + esize(a, o, o.len()), 0nat
    when origins_ok(o)
{
    match (p, a) {
        (TyV::TypeVar(id), _) => {
            if s.contains_key(id) {
                if s[id] != a {
                    (Err((s[id], a)), s)
                } else {
                    (Ok(()), s)
                }
            } else {
                (Ok(()), s.insert(id, a))
            }
        },
        (TyV::Ptr(x), TyV::Ptr(y)) => unify_spec(*x, *y, s, o),
        (TyV::Array { element: x, count: c1 }, TyV::Array { element: y, count: c2 }) if c1 == c2 => {
            unify_spec(*x, *y, s, o)
        },
        (
            TyV::Function { params: ps, return_ty: rp, .. },
            TyV::Function { params: qs, return_ty: rq, .. },
        ) if ps.len() == qs.len() => {
            let (r, s1) = unify_list(ps, qs, s, o);
            if r is Err {
                (r, s1)
            } else {
                unify_spec(*rp, *rq, s1, o)
            }
        },
        (TyV::Closure { params: ps, return_ty: rp }, TyV::Closure { params: qs, return_ty: rq }) if ps.len()
            == qs.len() => {
            let (r, s1) = unify_list(ps, qs, s, o);
            if r is Err {
                (r, s1)
            } else {
                unify_spec(*rp, *rq, s1, o)
            }
        },
        (
            TyV::Closure { params: ps, return_ty: rp },
            TyV::Function { params: qs, return_ty: rq, .. },
        ) if ps.len() == qs.len() => {
            let (r, s1) = unify_list(ps, qs, s, o);
            if r is Err {
                (r, s1)
            } else {
                unify_spec(*rp, *rq, s1, o)
            }
        },
        (
            TyV::Function { params: qs, return_ty: rq, .. },
            TyV::Closure { params: ps, return_ty: rp },
        ) if ps.len() == qs.len() => {
            let (r, s1) = unify_list(ps, qs, s, o);
            if r is Err {
                (r, s1)
            } else {
                unify_spec(*rp, *rq, s1, o)
            }
        },
        (
            TyV::GenericStruct { name: n1, args: a1 },
            TyV::GenericStruct { name: n2, args: a2 },
        ) if n1 == n2 && a1.len() == a2.len() => unify_list(a1, a2, s, o),
        (TyV::GenericStruct { name, args }, TyV::Struct(sp)) => {
            let m = find(o, false, sp, o.len() as int);
            if 0 <= m < o.len() && o[m].template == name && o[m].args.len() == args.len() {
                proof {
                    lemma_esize_list_stable(o[m].args, o, m as nat, o.len());
                }
                unify_list(args, o[m].args, s, o)
            } else {
                (Err((p, a)), s)
            }
        },
        (TyV::Struct(sp), TyV::GenericStruct { name, args }) => {
            let m = find(o, false, sp, o.len() as int);
            if 0 <= m < o.len() && o[m].template == name && o[m].args.len() == args.len() {
                proof {
                    lemma_esize_list_stable(o[m].args, o, m as nat, o.len());
                }
                unify_list(args, o[m].args, s, o)
            } else {
                (Err((p, a)), s)
            }
        },
        (
            TyV::GenericEnum { name: n1, args: a1 },
            TyV::GenericEnum { name: n2, args: a2 },
        ) if n1 == n2 && a1.len() == a2.len() => unify_list(a1, a2, s, o),
        (TyV::GenericEnum { name, args }, TyV::Enum(sp)) => {
            let m = find(o, true, sp, o.len() as int);
            if 0 <= m < o.len() && o[m].template == name && o[m].args.len() == args.len() {
                proof {
                    lemma_esize_list_stable(o[m].args, o, m as nat, o.len());
                }
                unify_list(args, o[m].args, s, o)
            } else {
                (Err((p, a)), s)
            }
        },
        (TyV::Enum(sp), TyV::GenericEnum { name, args }) => {
            let m = find(o, true, sp, o.len() as int);
            if 0 <= m < o.len() && o[m].template == name && o[m].args.len() == args.len() {
                proof {
                    lemma_esize_list_stable(o[m].args, o, m as nat, o.len());
                }
                unify_list(args, o[m].args, s, o)
            } else {
                (Err((p, a)), s)
            }
        },
        (TyV::Tuple(x), TyV::Tuple(y)) if x.len() == y.len() => unify_list(x, y, s, o),
        _ => {
            if p == a {
                (Ok(()), s)
            } else {
                (Err((p, a)), s)
            }
        },
    }
}

/// Unifies the pairs of `ps` and `qs` left to right, stopping at the first
/// failure.
pub open spec fn unify_list(ps: Seq<TyV>, qs: Seq<TyV>, s: Map<u32, TyV>, o: Seq<OriginV>) -> (Result<(), (TyV, TyV)>, Map<u32, TyV>)
    decreases esize_list(ps, o, o.len()) + esize_list(qs, o, o.len()), 1nat
    when origins_ok(o)
{
    if ps.len() == 0 || qs.len() == 0 {
        (Ok(()), s)
    } else {
        let (r, s1) = unify_spec(ps[0], qs[0], s, o);
        if r is Err {
            (r, s1)
        } else {
            proof {
                lemma_esize_pos(ps[0], o, o.len());
                lemma_esize_pos(qs[0], o, o.len());
            }
            unify_list(ps.subrange(1, ps.len() as int), qs.subrange(1, qs.len() as int), s1, o)
        }
    }
}

/// The substitution's bindings, by view.
pub open spec fn subst_view(m: Map<u32, Ty>) -> Map<u32, TyV> {
    m.map_values(|t: Ty| t@)
}

/// Whether `r` reports the outcome `res`: success, or a type mismatch at
/// `span` between the two types of `res`.
pub open spec fn reports(r: Result<(), Error>, span: Span, res: Result<(), (TyV, TyV)>) -> bool {
    match r {
        Ok(()) => res is Ok,
        Err(e) => res is Err && e.span == span && (e.kind matches ErrorKind::TypeMismatch {
            expected,
            found,
        } && expected@ == res->Err_0.0 && found@ == res->Err_0.1),
    }
}

fn mismatch(expected: &Ty, found: &Ty, span: Span) -> (e: Error)
    ensures
        e.span == span,
        e.kind matches ErrorKind::TypeMismatch { expected: x, found: y } && x@ == expected@ && y@
            == found@,
{
    Error {
        span,
        kind: ErrorKind::TypeMismatch { expected: expected.duplicate(), found: found.duplicate() },
    }
}

proof fn lemma_tail(v: Seq<Ty>, i: int)
    requires
        0 <= i < v.len(),
    ensures
        tys_view(v).subrange(i, v.len() as int)[0] == v[i]@,
        tys_view(v).subrange(i, v.len() as int).subrange(1, v.len() - i) =~= tys_view(v).subrange(
            i + 1,
            v.len() as int,
        ),
{
    lemma_tys_view(v);
}

fn unify_pairs(
    ps: &Vec<Ty>,
    qs: &Vec<Ty>,
    i: usize,
    span: Span,
    subst: &mut HashMap<u32, Ty>,
    origins: &Origins,
) -> (r: Result<(), Error>)
    requires
        origins.wf(),
        i <= ps.len(),
        ps.len() == qs.len(),
    ensures
        reports(
            r,
            span,
            unify_list(
                tys_view(ps@).subrange(i as int, ps.len() as int),
                tys_view(qs@).subrange(i as int, qs.len() as int),
                subst_view(old(subst)@),
                origins@,
            ).0,
        ),
        subst_view(final(subst)@) == unify_list(
            tys_view(ps@).subrange(i as int, ps.len() as int),
            tys_view(qs@).subrange(i as int, qs.len() as int),
            subst_view(old(subst)@),
            origins@,
        ).1,
    decreases esize_list(tys_view(ps@).subrange(i as int, ps.len() as int), origins@, origins@.len())
        + esize_list(tys_view(qs@).subrange(i as int, qs.len() as int), origins@, origins@.len()),
        3nat,
{
    if i >= ps.len() {
        return Ok(());
    }
    proof {
        lemma_tail(ps@, i as int);
        lemma_tail(qs@, i as int);
        lemma_esize_pos(ps@[i as int]@, origins@, origins@.len());
        lemma_esize_pos(qs@[i as int]@, origins@, origins@.len());
    }
    let r = unify(&ps[i], &qs[i], span, subst, origins);
    if r.is_err() {
        return r;
    }
    unify_pairs(ps, qs, i + 1, span, subst, origins)
}

/// Unifies a generic parameter type with an argument type, binding type
/// variables of `param_ty` in `subst`. A type variable already bound must
/// meet the same type again. A specialized struct or enum matches its
/// generic template through the record in `origins`. On failure the
/// mismatching pair is reported at `span`; bindings made before it stay.
pub fn unify(
    param_ty: &Ty,
    arg_ty: &Ty,
    span: Span,
    subst: &mut HashMap<u32, Ty>,
    origins: &Origins,
) -> (r: Result<(), Error>)
    requires
        origins.wf(),
    ensures
        reports(r, span, unify_spec(param_ty@, arg_ty@, subst_view(old(subst)@), origins@).0),
        subst_view(final(subst)@) == unify_spec(
            param_ty@,
            arg_ty@,
            subst_view(old(subst)@),
            origins@,
        ).1,
    decreases esize(param_ty@, origins@, origins@.len()) + esize(arg_ty@, origins@, origins@.len()),
        2nat,
{
    let ghost o = origins@;
    let ghost n = origins@.len();
    match (param_ty, arg_ty) {
        (Ty::TypeVar(id), _) => {
            match subst.get(&id.0) {
                Some(existing) => {
                    if !existing.same(arg_ty) {
                        return Err(mismatch(existing, arg_ty, span));
                    }
                    Ok(())
                },
                None => {
                    subst.insert(id.0, arg_ty.duplicate());
                    proof {
                        assert(subst_view(subst@) =~= subst_view(old(subst)@).insert(
                            id.0,
                            arg_ty@,
                        ));
                    }
                    Ok(())
                },
            }
        },
        (Ty::Ptr(x), Ty::Ptr(y)) => unify(x, y, span, subst, origins),
        (Ty::Array { element: x, count: c1 }, Ty::Array { element: y, count: c2 }) => {
            if *c1 == *c2 {
                unify(x, y, span, subst, origins)
            } else {
                Err(mismatch(param_ty, arg_ty, span))
            }
        },
        (
            Ty::Function { params: ps, return_ty: rp, .. },
            Ty::Function { params: qs, return_ty: rq, .. },
        ) => {
            if ps.len() == qs.len() {
                proof {
                    assert(tys_view(ps@).subrange(0, ps.len() as int) =~= tys_view(ps@));
                    assert(tys_view(qs@).subrange(0, qs.len() as int) =~= tys_view(qs@));
                }
                let r = unify_pairs(ps, qs, 0, span, subst, origins);
                if r.is_err() {
                    return r;
                }
                unify(rp, rq, span, subst, origins)
            } else {
                proof {
                    lemma_tys_view(ps@);
                    lemma_tys_view(qs@);
                }
                Err(mismatch(param_ty, arg_ty, span))
            }
        },
        (Ty::Closure { params: ps, return_ty: rp }, Ty::Closure { params: qs, return_ty: rq }) => {
            if ps.len() == qs.len() {
            proof {
                assert(tys_view(ps@).subrange(0, ps.len() as int) =~= tys_view(ps@));
                assert(tys_view(qs@).subrange(0, qs.len() as int) =~= tys_view(qs@));
            }
            let r = unify_pairs(ps, qs, 0, span, subst, origins);
            if r.is_err() {
                return r;
            }
            unify(rp, rq, span, subst, origins)
        } else {
                proof {
                    lemma_tys_view(ps@);
                    lemma_tys_view(qs@);
                }
                Err(mismatch(param_ty, arg_ty, span))
            }
        },
        (
            Ty::Closure { params: ps, return_ty: rp },
            Ty::Function { params: qs, return_ty: rq, .. },
        ) => {
            if ps.len() == qs.len() {
                proof {
                    assert(tys_view(ps@).subrange(0, ps.len() as int) =~= tys_view(ps@));
                    assert(tys_view(qs@).subrange(0, qs.len() as int) =~= tys_view(qs@));
                }
                let r = unify_pairs(ps, qs, 0, span, subst, origins);
                if r.is_err() {
                    return r;
                }
                unify(rp, rq, span, subst, origins)
            } else {
                proof {
                    lemma_tys_view(ps@);
                    lemma_tys_view(qs@);
                }
                Err(mismatch(param_ty, arg_ty, span))
            }
        },
        (
            Ty::Function { params: qs, return_ty: rq, .. },
            Ty::Closure { params: ps, return_ty: rp },
        ) => {
            if ps.len() == qs.len() {
                proof {
                    assert(tys_view(ps@).subrange(0, ps.len() as int) =~= tys_view(ps@));
                    assert(tys_view(qs@).subrange(0, qs.len() as int) =~= tys_view(qs@));
                }
                let r = unify_pairs(ps, qs, 0, span, subst, origins);
                if r.is_err() {
                    return r;
                }
                unify(rp, rq, span, subst, origins)
            } else {
                proof {
                    lemma_tys_view(ps@);
                    lemma_tys_view(qs@);
                }
                Err(mismatch(param_ty, arg_ty, span))
            }
        },
        (
            Ty::GenericStruct { name: n1, args: a1 },
            Ty::GenericStruct { name: n2, args: a2 },
        ) => {
            if *n1 == *n2 && a1.len() == a2.len() {
                proof {
                    assert(tys_view(a1@).subrange(0, a1.len() as int) =~= tys_view(a1@));
                    assert(tys_view(a2@).subrange(0, a2.len() as int) =~= tys_view(a2@));
                }
                unify_pairs(a1, a2, 0, span, subst, origins)
            } else {
                proof {
                    lemma_tys_view(a1@);
                    lemma_tys_view(a2@);
                }
                Err(mismatch(param_ty, arg_ty, span))
            }
        },
        (Ty::GenericStruct { name, args }, Ty::Struct(sp)) => {
            proof {
                lemma_find_bound(o, false, sp@, n as int);
            }
            match origins.get(false, sp) {
                Some(e) => {
                    if e.template == *name && e.args.len() == args.len() {
                        proof {
                            let m = find(o, false, sp@, n as int);
                            lemma_esize_list_stable(o[m].args, o, m as nat, n);
                            assert(tys_view(args@).subrange(0, args.len() as int) =~= tys_view(
                                args@,
                            ));
                            assert(tys_view(e.args@).subrange(0, e.args.len() as int)
                                =~= tys_view(e.args@));
                        }
                        unify_pairs(args, &e.args, 0, span, subst, origins)
                    } else {
                        proof {
                            lemma_tys_view(args@);
                            lemma_tys_view(e.args@);
                        }
                        Err(mismatch(param_ty, arg_ty, span))
                    }
                },
                None => Err(mismatch(param_ty, arg_ty, span)),
            }
        },
        (Ty::Struct(sp), Ty::GenericStruct { name, args }) => {
            proof {
                lemma_find_bound(o, false, sp@, n as int);
            }
            match origins.get(false, sp) {
                Some(e) => {
                    if e.template == *name && e.args.len() == args.len() {
                        proof {
                            let m = find(o, false, sp@, n as int);
                            lemma_esize_list_stable(o[m].args, o, m as nat, n);
                            assert(tys_view(args@).subrange(0, args.len() as int) =~= tys_view(
                                args@,
                            ));
                            assert(tys_view(e.args@).subrange(0, e.args.len() as int)
                                =~= tys_view(e.args@));
                        }
                        unify_pairs(args, &e.args, 0, span, subst, origins)
                    } else {
                        proof {
                            lemma_tys_view(args@);
                            lemma_tys_view(e.args@);
                        }
                        Err(mismatch(param_ty, arg_ty, span))
                    }
                },
                None => Err(mismatch(param_ty, arg_ty, span)),
            }
        },
        (
            Ty::GenericEnum { name: n1, args: a1 },
            Ty::GenericEnum { name: n2, args: a2 },
        ) => {
            if *n1 == *n2 && a1.len() == a2.len() {
                proof {
                    assert(tys_view(a1@).subrange(0, a1.len() as int) =~= tys_view(a1@));
                    assert(tys_view(a2@).subrange(0, a2.len() as int) =~= tys_view(a2@));
                }
                unify_pairs(a1, a2, 0, span, subst, origins)
            } else {
                proof {
                    lemma_tys_view(a1@);
                    lemma_tys_view(a2@);
                }
                Err(mismatch(param_ty, arg_ty, span))
            }
        },
        (Ty::GenericEnum { name, args }, Ty::Enum(sp)) => {
            proof {
                lemma_find_bound(o, true, sp@, n as int);
            }
            match origins.get(true, sp) {
                Some(e) => {
                    if e.template == *name && e.args.len() == args.len() {
                        proof {
                            let m = find(o, true, sp@, n as int);
                            lemma_esize_list_stable(o[m].args, o, m as nat, n);
                            assert(tys_view(args@).subrange(0, args.len() as int) =~= tys_view(
                                args@,
                            ));
                            assert(tys_view(e.args@).subrange(0, e.args.len() as int)
                                =~= tys_view(e.args@));
                        }
                        unify_pairs(args, &e.args, 0, span, subst, origins)
                    } else {
                        proof {
                            lemma_tys_view(args@);
                            lemma_tys_view(e.args@);
                        }
                        Err(mismatch(param_ty, arg_ty, span))
                    }
                },
                None => Err(mismatch(param_ty, arg_ty, span)),
            }
        },
        (Ty::Enum(sp), Ty::GenericEnum { name, args }) => {
            proof {
                lemma_find_bound(o, true, sp@, n as int);
            }
            match origins.get(true, sp) {
                Some(e) => {
                    if e.template == *name && e.args.len() == args.len() {
                        proof {
                            let m = find(o, true, sp@, n as int);
                            lemma_esize_list_stable(o[m].args, o, m as nat, n);
                            assert(tys_view(args@).subrange(0, args.len() as int) =~= tys_view(
                                args@,
                            ));
                            assert(tys_view(e.args@).subrange(0, e.args.len() as int)
                                =~= tys_view(e.args@));
                        }
                        unify_pairs(args, &e.args, 0, span, subst, origins)
                    } else {
                        proof {
                            lemma_tys_view(args@);
                            lemma_tys_view(e.args@);
                        }
                        Err(mismatch(param_ty, arg_ty, span))
                    }
                },
                None => Err(mismatch(param_ty, arg_ty, span)),
            }
        },
        (Ty::Tuple(x), Ty::Tuple(y)) => {
            if x.len() == y.len() {
                proof {
                    assert(tys_view(x@).subrange(0, x.len() as int) =~= tys_view(x@));
                    assert(tys_view(y@).subrange(0, y.len() as int) =~= tys_view(y@));
                }
                unify_pairs(x, y, 0, span, subst, origins)
            } else {
                proof {
                    lemma_tys_view(x@);
                    lemma_tys_view(y@);
                }
                Err(mismatch(param_ty, arg_ty, span))
            }
        },
        _ => {
            if param_ty.same(arg_ty) {
                Ok(())
            } else {
                Err(mismatch(param_ty, arg_ty, span))
            }
        },
    }
}

/// The side of a pair that is unified as the parameter: the argument type
/// takes that role when it alone holds type variables.
pub open spec fn oriented(arg: TyV, param: TyV) -> (TyV, TyV) {
    if occurrences(param).len() == 0 && occurrences(arg).len() > 0 {
        (arg, param)
    } else {
        (param, arg)
    }
}

/// Unifies `arg_ty` with `param_ty`, treating whichever side holds type
/// variables as the one to infer, and tells whether that succeeded.
pub fn try_unify_one(
    arg_ty: &Ty,
    param_ty: &Ty,
    subst: &mut HashMap<u32, Ty>,
    origins: &Origins,
) -> (r: bool)
    requires
        origins.wf(),
    ensures
        ({
            let (lhs, rhs) = oriented(arg_ty@, param_ty@);
            let (res, s2) = unify_spec(lhs, rhs, subst_view(old(subst)@), origins@);
            r == (res is Ok) && subst_view(final(subst)@) == s2
        }),
{
    let swap = !ty_has_typevars(param_ty) && ty_has_typevars(arg_ty);
    let r = if swap {
        unify(arg_ty, param_ty, Span::default(), subst, origins)
    } else {
        unify(param_ty, arg_ty, Span::default(), subst, origins)
    };
    r.is_ok()
}

/// The type arguments a hint supplies for the generic enum `template_name`:
/// those of the specialization the hint names, or those written on the
/// hint itself.
pub open spec fn enum_args_from_hint(template_name: Seq<char>, hint: Option<TyV>, o: Seq<OriginV>) -> Option<Seq<TyV>> {
    match hint {
        Some(TyV::Enum(sp)) => {
            let m = find(o, true, sp, o.len() as int);
            if m >= 0 && o[m].template == template_name {
                Some(o[m].args)
            } else {
                None
            }
        },
        Some(TyV::GenericEnum { name, args }) => {
            if name == template_name {
                Some(args)
            } else {
                None
            }
        },
        _ => None,
    }
}

pub fn enum_type_args_from_hint(template_name: &str, hint: Option<&Ty>, origins: &Origins) -> (r:
    Option<Vec<Ty>>)
    ensures
        match r {
            Some(v) => enum_args_from_hint(
                template_name@,
                match hint {
                    Some(h) => Some(h@),
                    None => None,
                },
                origins@,
            ) == Some(tys_view(v@)),
            None => enum_args_from_hint(
                template_name@,
                match hint {
                    Some(h) => Some(h@),
                    None => None,
                },
                origins@,
            ) is None,
        },
{
    let hint = match hint {
        Some(h) => h,
        None => return None,
    };
    let wanted = template_name.to_owned();
    match hint {
        Ty::Enum(sp) => match origins.get(true, sp) {
            Some(e) => {
                if e.template == wanted {
                    Some(tys_duplicate(&e.args))
                } else {
                    None
                }
            },
            None => None,
        },
        Ty::GenericEnum { name, args } => {
            if *name == wanted {
                Some(tys_duplicate(args))
            } else {
                None
            }
        },
        _ => None,
    }
}

pub open spec fn no_dups(s: Seq<u32>) -> bool {
    forall|i: int, j: int| 0 <= i < j < s.len() ==> s[i] != s[j]
}

/// Collecting type variables keeps what was collected before, in front,
/// lists none twice, and ends with exactly the earlier ones and those found.
pub proof fn law_collect_typevars(out: Seq<u32>, ids: Seq<u32>)
    requires
        no_dups(out),
    ensures
        no_dups(add_new(out, ids)),
        add_new(out, ids).len() >= out.len(),
        add_new(out, ids).subrange(0, out.len() as int) == out,
        forall|x: u32| #[trigger] add_new(out, ids).contains(x) <==> out.contains(x) || ids.contains(x),
    decreases ids.len(),
{
    if ids.len() > 0 {
        let front = ids.subrange(0, ids.len() - 1);
        let x = ids[ids.len() - 1];
        law_collect_typevars(out, front);
        let o = add_new(out, front);
        assert forall|y: u32| #[trigger] ids.contains(y) <==> front.contains(y) || y == x by {
            if ids.contains(y) {
                let i = choose|i: int| 0 <= i < ids.len() && ids[i] == y;
                if i < ids.len() - 1 {
                    assert(front[i] == y);
                }
            }
            if front.contains(y) {
                let i = choose|i: int| 0 <= i < front.len() && front[i] == y;
                assert(ids[i] == y);
            }
        }
        assert forall|y: u32| #[trigger] add_new(out, ids).contains(y) <==> out.contains(y)
            || ids.contains(y) by {
            if !o.contains(x) {
                if o.push(x).contains(y) {
                    let k = choose|k: int| 0 <= k < o.push(x).len() && o.push(x)[k] == y;
                    if k < o.len() {
                        assert(o[k] == y);
                    }
                }
                if o.contains(y) {
                    let k = choose|k: int| 0 <= k < o.len() && o[k] == y;
                    assert(o.push(x)[k] == y);
                }
                if y == x {
                    assert(o.push(x)[o.len() as int] == y);
                }
            }
        }
        if !o.contains(x) {
            assert(o.push(x).subrange(0, out.len() as int) =~= o.subrange(0, out.len() as int));
            assert forall|i: int, j: int| 0 <= i < j < o.push(x).len() implies o.push(x)[i] != o.push(
                x,
            )[j] by {
                if j == o.len() {
                    assert(o.contains(o[i]));
                }
            }
        }
    }
}

/// Collecting the type variables of the same type a second time adds
/// nothing.
pub proof fn law_collect_idempotent(out: Seq<u32>, ids: Seq<u32>)
    ensures
        add_new(add_new(out, ids), ids) == add_new(out, ids),
{
    lemma_add_new_all_present(add_new(out, ids), ids, out);
}

proof fn lemma_add_new_all_present(o: Seq<u32>, ids: Seq<u32>, out: Seq<u32>)
    requires
        o == add_new(out, ids),
    ensures
        add_new(o, ids) == o,
    decreases ids.len(),
{
    lemma_add_new_contains(out, ids);
    lemma_add_new_present(o, ids);
}

proof fn lemma_add_new_contains(out: Seq<u32>, ids: Seq<u32>)
    ensures
        forall|i: int| 0 <= i < ids.len() ==> add_new(out, ids).contains(#[trigger] ids[i]),
        forall|x: u32| out.contains(x) ==> #[trigger] add_new(out, ids).contains(x),
    decreases ids.len(),
{
    if ids.len() > 0 {
        let front = ids.subrange(0, ids.len() - 1);
        lemma_add_new_contains(out, front);
        let o = add_new(out, front);
        let x = ids[ids.len() - 1];
        assert forall|i: int| 0 <= i < ids.len() implies add_new(out, ids).contains(
            #[trigger] ids[i],
        ) by {
            if i < ids.len() - 1 {
                assert(front[i] == ids[i]);
                assert(o.contains(front[i]));
                if !o.contains(x) {
                    let k = choose|k: int| 0 <= k < o.len() && o[k] == ids[i];
                    assert(o.push(x)[k] == ids[i]);
                }
            } else if !o.contains(x) {
                assert(o.push(x)[o.len() as int] == x);
            }
        }
        assert forall|y: u32| out.contains(y) implies #[trigger] add_new(out, ids).contains(y) by {
            assert(o.contains(y));
            if !o.contains(x) {
                let k = choose|k: int| 0 <= k < o.len() && o[k] == y;
                assert(o.push(x)[k] == y);
            }
        }
    }
}

proof fn lemma_add_new_present(o: Seq<u32>, ids: Seq<u32>)
    requires
        forall|i: int| 0 <= i < ids.len() ==> o.contains(#[trigger] ids[i]),
    ensures
        add_new(o, ids) == o,
    decreases ids.len(),
{
    if ids.len() > 0 {
        let front = ids.subrange(0, ids.len() - 1);
        assert forall|i: int| 0 <= i < front.len() implies o.contains(#[trigger] front[i]) by {
            assert(front[i] == ids[i]);
        }
        lemma_add_new_present(o, front);
        assert(o.contains(ids[ids.len() - 1]));
    }
}

/// A type holds type variables exactly when collecting from it, into an
/// empty list, finds some.
pub proof fn law_has_typevars_iff_collected(t: TyV)
    ensures
        (occurrences(t).len() > 0) <==> add_new(Seq::empty(), occurrences(t)).len() > 0,
{
    let occ = occurrences(t);
    law_collect_typevars(Seq::empty(), occ);
    if occ.len() > 0 {
        assert(occ.contains(occ[0]));
        assert(add_new(Seq::empty(), occ).contains(occ[0]));
    } else {
        assert(add_new(Seq::<u32>::empty(), occ) == Seq::<u32>::empty());
    }
}

proof fn lemma_occurrences_list_empty(s: Seq<TyV>)
    ensures
        (occurrences_list(s).len() == 0) <==> forall|i: int|
            0 <= i < s.len() ==> #[trigger] occurrences(s[i]).len() == 0,
    decreases s.len(),
{
    if s.len() > 0 {
        let front = s.subrange(0, s.len() - 1);
        lemma_occurrences_list_empty(front);
        assert(occurrences_list(s) == occurrences_list(front) + occurrences(s[s.len() - 1]));
        if occurrences_list(s).len() == 0 {
            assert forall|i: int| 0 <= i < s.len() implies #[trigger] occurrences(s[i]).len() == 0 by {
                if i < s.len() - 1 {
                    assert(front[i] == s[i]);
                }
            }
        }
        if forall|i: int| 0 <= i < s.len() ==> #[trigger] occurrences(s[i]).len() == 0 {
            assert forall|i: int| 0 <= i < front.len() implies #[trigger] occurrences(front[i]).len()
                == 0 by {
                assert(front[i] == s[i]);
            }
        }
    }
}

/// A type without type variables unifies with itself and leaves the
/// substitution as it was.
pub proof fn law_unify_reflexive(t: TyV, s: Map<u32, TyV>, o: Seq<OriginV>)
    requires
        origins_ok(o),
        occurrences(t).len() == 0,
    ensures
        unify_spec(t, t, s, o) == (Ok::<(), (TyV, TyV)>(()), s),
    decreases esize(t, o, o.len()), 1nat,
{
    match t {
        TyV::Ptr(x) => {
            law_unify_reflexive(*x, s, o);
        },
        TyV::Array { element, .. } => {
            law_unify_reflexive(*element, s, o);
        },
        TyV::Function { params, return_ty, .. } => {
            lemma_occurrences_list_empty(params);
            law_unify_list_reflexive(params, s, o);
            law_unify_reflexive(*return_ty, s, o);
        },
        TyV::Closure { params, return_ty } => {
            lemma_occurrences_list_empty(params);
            law_unify_list_reflexive(params, s, o);
            law_unify_reflexive(*return_ty, s, o);
        },
        TyV::GenericStruct { args, .. } => {
            lemma_occurrences_list_empty(args);
            law_unify_list_reflexive(args, s, o);
        },
        TyV::GenericEnum { args, .. } => {
            lemma_occurrences_list_empty(args);
            law_unify_list_reflexive(args, s, o);
        },
        TyV::Tuple(elems) => {
            lemma_occurrences_list_empty(elems);
            law_unify_list_reflexive(elems, s, o);
        },
        _ => {},
    }
}

proof fn law_unify_list_reflexive(ts: Seq<TyV>, s: Map<u32, TyV>, o: Seq<OriginV>)
    requires
        origins_ok(o),
        forall|i: int| 0 <= i < ts.len() ==> #[trigger] occurrences(ts[i]).len() == 0,
    ensures
        unify_list(ts, ts, s, o) == (Ok::<(), (TyV, TyV)>(()), s),
    decreases esize_list(ts, o, o.len()), 2nat,
{
    if ts.len() > 0 {
        let rest = ts.subrange(1, ts.len() as int);
        assert(occurrences(ts[0]).len() == 0);
        law_unify_reflexive(ts[0], s, o);
        assert forall|i: int| 0 <= i < rest.len() implies #[trigger] occurrences(rest[i]).len() == 0 by {
            assert(rest[i] == ts[i + 1]);
        }
        lemma_esize_pos(ts[0], o, o.len());
        law_unify_list_reflexive(rest, s, o);
    }
}

/// Unification only adds bindings: every binding made before is still there,
/// unchanged, whether it succeeds or fails.
pub proof fn law_unify_keeps_bindings(p: TyV, a: TyV, s: Map<u32, TyV>, o: Seq<OriginV>)
    requires
        origins_ok(o),
    ensures
        forall|k: u32| #[trigger]
            s.contains_key(k) ==> unify_spec(p, a, s, o).1.contains_key(k) && unify_spec(
                p,
                a,
                s,
                o,
            ).1[k] == s[k],
    decreases esize(p, o, o.len()) + esize(a, o, o.len()), 0nat,
{
    match (p, a) {
        (TyV::TypeVar(id), _) => {},
        (TyV::Ptr(x), TyV::Ptr(y)) => {
            law_unify_keeps_bindings(*x, *y, s, o);
        },
        (TyV::Array { element: x, count: c1 }, TyV::Array { element: y, count: c2 }) if c1 == c2 => {
            law_unify_keeps_bindings(*x, *y, s, o);
        },
        (
            TyV::Function { params: ps, return_ty: rp, .. },
            TyV::Function { params: qs, return_ty: rq, .. },
        ) if ps.len() == qs.len() => {
            law_unify_list_keeps_bindings(ps, qs, s, o);
            let (r, s1) = unify_list(ps, qs, s, o);
            law_unify_keeps_bindings(*rp, *rq, s1, o);
        },
        (TyV::Closure { params: ps, return_ty: rp }, TyV::Closure { params: qs, return_ty: rq }) if ps.len()
            == qs.len() => {
            law_unify_list_keeps_bindings(ps, qs, s, o);
            let (r, s1) = unify_list(ps, qs, s, o);
            law_unify_keeps_bindings(*rp, *rq, s1, o);
        },
        (
            TyV::Closure { params: ps, return_ty: rp },
            TyV::Function { params: qs, return_ty: rq, .. },
        ) if ps.len() == qs.len() => {
            law_unify_list_keeps_bindings(ps, qs, s, o);
            let (r, s1) = unify_list(ps, qs, s, o);
            law_unify_keeps_bindings(*rp, *rq, s1, o);
        },
        (
            TyV::Function { params: qs, return_ty: rq, .. },
            TyV::Closure { params: ps, return_ty: rp },
        ) if ps.len() == qs.len() => {
            law_unify_list_keeps_bindings(ps, qs, s, o);
            let (r, s1) = unify_list(ps, qs, s, o);
            law_unify_keeps_bindings(*rp, *rq, s1, o);
        },
        (
            TyV::GenericStruct { name: n1, args: a1 },
            TyV::GenericStruct { name: n2, args: a2 },
        ) if n1 == n2 && a1.len() == a2.len() => {
            law_unify_list_keeps_bindings(a1, a2, s, o);
        },
        (TyV::GenericStruct { name, args }, TyV::Struct(sp)) => {
            let m = find(o, false, sp, o.len() as int);
            if 0 <= m < o.len() && o[m].template == name && o[m].args.len() == args.len() {
                lemma_esize_list_stable(o[m].args, o, m as nat, o.len());
                law_unify_list_keeps_bindings(args, o[m].args, s, o);
            }
        },
        (TyV::Struct(sp), TyV::GenericStruct { name, args }) => {
            let m = find(o, false, sp, o.len() as int);
            if 0 <= m < o.len() && o[m].template == name && o[m].args.len() == args.len() {
                lemma_esize_list_stable(o[m].args, o, m as nat, o.len());
                law_unify_list_keeps_bindings(args, o[m].args, s, o);
            }
        },
        (
            TyV::GenericEnum { name: n1, args: a1 },
            TyV::GenericEnum { name: n2, args: a2 },
        ) if n1 == n2 && a1.len() == a2.len() => {
            law_unify_list_keeps_bindings(a1, a2, s, o);
        },
        (TyV::GenericEnum { name, args }, TyV::Enum(sp)) => {
            let m = find(o, true, sp, o.len() as int);
            if 0 <= m < o.len() && o[m].template == name && o[m].args.len() == args.len() {
                lemma_esize_list_stable(o[m].args, o, m as nat, o.len());
                law_unify_list_keeps_bindings(args, o[m].args, s, o);
            }
        },
        (TyV::Enum(sp), TyV::GenericEnum { name, args }) => {
            let m = find(o, true, sp, o.len() as int);
            if 0 <= m < o.len() && o[m].template == name && o[m].args.len() == args.len() {
                lemma_esize_list_stable(o[m].args, o, m as nat, o.len());
                law_unify_list_keeps_bindings(args, o[m].args, s, o);
            }
        },
        (TyV::Tuple(x), TyV::Tuple(y)) if x.len() == y.len() => {
            law_unify_list_keeps_bindings(x, y, s, o);
        },
        _ => {},
    }
}

proof fn law_unify_list_keeps_bindings(ps: Seq<TyV>, qs: Seq<TyV>, s: Map<u32, TyV>, o: Seq<OriginV>)
    requires
        origins_ok(o),
    ensures
        forall|k: u32| #[trigger]
            s.contains_key(k) ==> unify_list(ps, qs, s, o).1.contains_key(k) && unify_list(
                ps,
                qs,
                s,
                o,
            ).1[k] == s[k],
    decreases esize_list(ps, o, o.len()) + esize_list(qs, o, o.len()), 1nat,
{
    if ps.len() > 0 && qs.len() > 0 {
        law_unify_keeps_bindings(ps[0], qs[0], s, o);
        let (r, s1) = unify_spec(ps[0], qs[0], s, o);
        if r is Ok {
            lemma_esize_pos(ps[0], o, o.len());
            lemma_esize_pos(qs[0], o, o.len());
            law_unify_list_keeps_bindings(
                ps.subrange(1, ps.len() as int),
                qs.subrange(1, qs.len() as int),
                s1,
                o,
            );
        }
    }
}

// ---------------------------------------------------------------------------
// What unification binds.
// ---------------------------------------------------------------------------

pub proof fn lemma_concat_contains(a: Seq<u32>, b: Seq<u32>, k: u32)
    ensures
        a.contains(k) ==> (a + b).contains(k),
        b.contains(k) ==> (a + b).contains(k),
{
    if a.contains(k) {
        let i = choose|i: int| 0 <= i < a.len() && a[i] == k;
        assert((a + b)[i] == k);
    }
    if b.contains(k) {
        let i = choose|i: int| 0 <= i < b.len() && b[i] == k;
        assert((a + b)[a.len() + i] == k);
    }
}

/// The type variables of a list are those of its first type followed by
/// those of the rest.
pub proof fn lemma_occurrences_list_front(s: Seq<TyV>)
    requires
        s.len() > 0,
    ensures
        occurrences_list(s) == occurrences(s[0]) + occurrences_list(s.subrange(1, s.len() as int)),
    decreases s.len(),
{
    let tail = s.subrange(1, s.len() as int);
    if s.len() == 1 {
        assert(s.subrange(0, 0) =~= Seq::<TyV>::empty());
        assert(tail =~= Seq::<TyV>::empty());
        assert(Seq::<u32>::empty() + occurrences(s[0]) =~= occurrences(s[0]) + Seq::<u32>::empty());
    } else {
        let init = s.subrange(0, s.len() - 1);
        lemma_occurrences_list_front(init);
        assert(tail.subrange(0, tail.len() - 1) =~= init.subrange(1, init.len() as int));
        assert(tail[tail.len() - 1] == s[s.len() - 1]);
        assert(init[0] == s[0]);
        assert(occurrences(s[0]) + occurrences_list(init.subrange(1, init.len() as int)) + occurrences(
            s[s.len() - 1],
        ) =~= occurrences(s[0]) + (occurrences_list(init.subrange(1, init.len() as int))
            + occurrences(s[s.len() - 1])));
    }
}

/// Whether `k` is a type variable of `p`, of `a`, or of the arguments of a
/// recorded origin.
pub open spec fn var_among(k: u32, p: Seq<u32>, a: Seq<u32>, o: Seq<OriginV>) -> bool {
    p.contains(k) || a.contains(k) || exists|m: int|
        0 <= m < o.len() && occurrences_list(#[trigger] o[m].args).contains(k)
}

/// Every binding that unifying `p` with `a` adds is for a type variable
/// that occurs in `p` or `a` (or in the arguments a specialization was
/// recorded with).
pub proof fn law_unify_binds_own_vars(p: TyV, a: TyV, s: Map<u32, TyV>, o: Seq<OriginV>)
    requires
        origins_ok(o),
    ensures
        forall|k: u32|
            #[trigger] unify_spec(p, a, s, o).1.contains_key(k) && !s.contains_key(k) ==> var_among(
                k,
                occurrences(p),
                occurrences(a),
                o,
            ),
    decreases esize(p, o, o.len()) + esize(a, o, o.len()), 0nat,
{
    match (p, a) {
        (TyV::TypeVar(id), _) => {
            assert(occurrences(p)[0] == id);
            assert(occurrences(p).contains(id));
        },
        (TyV::Ptr(x), TyV::Ptr(y)) => {
            law_unify_binds_own_vars(*x, *y, s, o);
            assert(unify_spec(p, a, s, o) == unify_spec(*x, *y, s, o));
        },
        (TyV::Array { element: x, count: c1 }, TyV::Array { element: y, count: c2 }) if c1 == c2 => {
            law_unify_binds_own_vars(*x, *y, s, o);
            assert(unify_spec(p, a, s, o) == unify_spec(*x, *y, s, o));
        },
        (
            TyV::Function { params: ps, return_ty: rp, .. },
            TyV::Function { params: qs, return_ty: rq, .. },
        ) if ps.len() == qs.len() => {
            law_unify_list_binds_own_vars(ps, qs, s, o);
            let (r, s1) = unify_list(ps, qs, s, o);
            law_unify_binds_own_vars(*rp, *rq, s1, o);
            assert forall|k: u32| occurrences_list(ps).contains(k) || occurrences(*rp).contains(k) implies occurrences(p).contains(k) by {
                lemma_concat_contains(occurrences_list(ps), occurrences(*rp), k);
            }
            assert forall|k: u32| occurrences_list(qs).contains(k) || occurrences(*rq).contains(k) implies occurrences(a).contains(k) by {
                lemma_concat_contains(occurrences_list(qs), occurrences(*rq), k);
            }
            let out = unify_spec(p, a, s, o);
            assert forall|k: u32| out.1.contains_key(k) && !s.contains_key(k) implies var_among(k, occurrences(p), occurrences(a), o) by {
                if s1.contains_key(k) {
                    assert(unify_list(ps, qs, s, o).1.contains_key(k));
                } else {
                    assert(unify_spec(*rp, *rq, s1, o).1.contains_key(k));
                }
            }
        },
        (TyV::Closure { params: ps, return_ty: rp }, TyV::Closure { params: qs, return_ty: rq }) if ps.len()
            == qs.len() => {
            law_unify_list_binds_own_vars(ps, qs, s, o);
            let (r, s1) = unify_list(ps, qs, s, o);
            law_unify_binds_own_vars(*rp, *rq, s1, o);
            assert forall|k: u32| occurrences_list(ps).contains(k) || occurrences(*rp).contains(k) implies occurrences(p).contains(k) by {
                lemma_concat_contains(occurrences_list(ps), occurrences(*rp), k);
            }
            assert forall|k: u32| occurrences_list(qs).contains(k) || occurrences(*rq).contains(k) implies occurrences(a).contains(k) by {
                lemma_concat_contains(occurrences_list(qs), occurrences(*rq), k);
            }
            let out = unify_spec(p, a, s, o);
            assert forall|k: u32| out.1.contains_key(k) && !s.contains_key(k) implies var_among(k, occurrences(p), occurrences(a), o) by {
                if s1.contains_key(k) {
                    assert(unify_list(ps, qs, s, o).1.contains_key(k));
                } else {
                    assert(unify_spec(*rp, *rq, s1, o).1.contains_key(k));
                }
            }
        },
        (
            TyV::Closure { params: ps, return_ty: rp },
            TyV::Function { params: qs, return_ty: rq, .. },
        ) if ps.len() == qs.len() => {
            law_unify_list_binds_own_vars(ps, qs, s, o);
            let (r, s1) = unify_list(ps, qs, s, o);
            law_unify_binds_own_vars(*rp, *rq, s1, o);
            assert forall|k: u32| occurrences_list(ps).contains(k) || occurrences(*rp).contains(k) implies occurrences(p).contains(k) by {
                lemma_concat_contains(occurrences_list(ps), occurrences(*rp), k);
            }
            assert forall|k: u32| occurrences_list(qs).contains(k) || occurrences(*rq).contains(k) implies occurrences(a).contains(k) by {
                lemma_concat_contains(occurrences_list(qs), occurrences(*rq), k);
            }
            let out = unify_spec(p, a, s, o);
            assert forall|k: u32| out.1.contains_key(k) && !s.contains_key(k) implies var_among(k, occurrences(p), occurrences(a), o) by {
                if s1.contains_key(k) {
                    assert(unify_list(ps, qs, s, o).1.contains_key(k));
                } else {
                    assert(unify_spec(*rp, *rq, s1, o).1.contains_key(k));
                }
            }
        },
        (
            TyV::Function { params: qs, return_ty: rq, .. },
            TyV::Closure { params: ps, return_ty: rp },
        ) if ps.len() == qs.len() => {
            law_unify_list_binds_own_vars(ps, qs, s, o);
            let (r, s1) = unify_list(ps, qs, s, o);
            law_unify_binds_own_vars(*rp, *rq, s1, o);
            assert forall|k: u32| occurrences_list(ps).contains(k) || occurrences(*rp).contains(k) implies occurrences(a).contains(k) by {
                lemma_concat_contains(occurrences_list(ps), occurrences(*rp), k);
            }
            assert forall|k: u32| occurrences_list(qs).contains(k) || occurrences(*rq).contains(k) implies occurrences(p).contains(k) by {
                lemma_concat_contains(occurrences_list(qs), occurrences(*rq), k);
            }
            let out = unify_spec(p, a, s, o);
            assert forall|k: u32| out.1.contains_key(k) && !s.contains_key(k) implies var_among(k, occurrences(p), occurrences(a), o) by {
                if s1.contains_key(k) {
                    assert(unify_list(ps, qs, s, o).1.contains_key(k));
                } else {
                    assert(unify_spec(*rp, *rq, s1, o).1.contains_key(k));
                }
            }
        },
        (
            TyV::GenericStruct { name: n1, args: a1 },
            TyV::GenericStruct { name: n2, args: a2 },
        ) if n1 == n2 && a1.len() == a2.len() => {
            law_unify_list_binds_own_vars(a1, a2, s, o);
            assert forall|k: u32| unify_spec(p, a, s, o).1.contains_key(k) && !s.contains_key(k) implies var_among(k, occurrences(p), occurrences(a), o) by {
                assert(unify_list(a1, a2, s, o).1.contains_key(k));
            }
        },
        (TyV::GenericStruct { name, args }, TyV::Struct(sp)) => {
            let m = find(o, false, sp, o.len() as int);
            if 0 <= m < o.len() && o[m].template == name && o[m].args.len() == args.len() {
                lemma_esize_list_stable(o[m].args, o, m as nat, o.len());
                law_unify_list_binds_own_vars(args, o[m].args, s, o);
                assert forall|k: u32| unify_spec(p, a, s, o).1.contains_key(k) && !s.contains_key(k) implies var_among(k, occurrences(p), occurrences(a), o) by {
                    assert(unify_list(args, o[m].args, s, o).1.contains_key(k));
                }
            }
        },
        (TyV::Struct(sp), TyV::GenericStruct { name, args }) => {
            let m = find(o, false, sp, o.len() as int);
            if 0 <= m < o.len() && o[m].template == name && o[m].args.len() == args.len() {
                lemma_esize_list_stable(o[m].args, o, m as nat, o.len());
                law_unify_list_binds_own_vars(args, o[m].args, s, o);
                assert forall|k: u32| unify_spec(p, a, s, o).1.contains_key(k) && !s.contains_key(k) implies var_among(k, occurrences(p), occurrences(a), o) by {
                    assert(unify_list(args, o[m].args, s, o).1.contains_key(k));
                }
            }
        },
        (
            TyV::GenericEnum { name: n1, args: a1 },
            TyV::GenericEnum { name: n2, args: a2 },
        ) if n1 == n2 && a1.len() == a2.len() => {
            law_unify_list_binds_own_vars(a1, a2, s, o);
            assert forall|k: u32| unify_spec(p, a, s, o).1.contains_key(k) && !s.contains_key(k) implies var_among(k, occurrences(p), occurrences(a), o) by {
                assert(unify_list(a1, a2, s, o).1.contains_key(k));
            }
        },
        (TyV::GenericEnum { name, args }, TyV::Enum(sp)) => {
            let m = find(o, true, sp, o.len() as int);
            if 0 <= m < o.len() && o[m].template == name && o[m].args.len() == args.len() {
                lemma_esize_list_stable(o[m].args, o, m as nat, o.len());
                law_unify_list_binds_own_vars(args, o[m].args, s, o);
                assert forall|k: u32| unify_spec(p, a, s, o).1.contains_key(k) && !s.contains_key(k) implies var_among(k, occurrences(p), occurrences(a), o) by {
                    assert(unify_list(args, o[m].args, s, o).1.contains_key(k));
                }
            }
        },
        (TyV::Enum(sp), TyV::GenericEnum { name, args }) => {
            let m = find(o, true, sp, o.len() as int);
            if 0 <= m < o.len() && o[m].template == name && o[m].args.len() == args.len() {
                lemma_esize_list_stable(o[m].args, o, m as nat, o.len());
                law_unify_list_binds_own_vars(args, o[m].args, s, o);
                assert forall|k: u32| unify_spec(p, a, s, o).1.contains_key(k) && !s.contains_key(k) implies var_among(k, occurrences(p), occurrences(a), o) by {
                    assert(unify_list(args, o[m].args, s, o).1.contains_key(k));
                }
            }
        },
        (TyV::Tuple(x), TyV::Tuple(y)) if x.len() == y.len() => {
            law_unify_list_binds_own_vars(x, y, s, o);
            assert forall|k: u32| unify_spec(p, a, s, o).1.contains_key(k) && !s.contains_key(k) implies var_among(k, occurrences(p), occurrences(a), o) by {
                assert(unify_list(x, y, s, o).1.contains_key(k));
            }
        },
        _ => {},
    }
}

/// Every binding that unifying the lists `ps` and `qs` adds is for a type
/// variable of one of them (or of a recorded origin's arguments).
pub proof fn law_unify_list_binds_own_vars(ps: Seq<TyV>, qs: Seq<TyV>, s: Map<u32, TyV>, o: Seq<OriginV>)
    requires
        origins_ok(o),
    ensures
        forall|k: u32|
            #[trigger] unify_list(ps, qs, s, o).1.contains_key(k) && !s.contains_key(k) ==> var_among(
                k,
                occurrences_list(ps),
                occurrences_list(qs),
                o,
            ),
    decreases esize_list(ps, o, o.len()) + esize_list(qs, o, o.len()), 1nat,
{
    if ps.len() > 0 && qs.len() > 0 {
        law_unify_binds_own_vars(ps[0], qs[0], s, o);
        lemma_occurrences_list_front(ps);
        lemma_occurrences_list_front(qs);
        let pt = ps.subrange(1, ps.len() as int);
        let qt = qs.subrange(1, qs.len() as int);
        assert forall|k: u32| occurrences(ps[0]).contains(k) || occurrences_list(pt).contains(k) implies occurrences_list(ps).contains(k) by {
            lemma_concat_contains(occurrences(ps[0]), occurrences_list(pt), k);
        }
        assert forall|k: u32| occurrences(qs[0]).contains(k) || occurrences_list(qt).contains(k) implies occurrences_list(qs).contains(k) by {
            lemma_concat_contains(occurrences(qs[0]), occurrences_list(qt), k);
        }
        let (r, s1) = unify_spec(ps[0], qs[0], s, o);
        if r is Ok {
            lemma_esize_pos(ps[0], o, o.len());
            lemma_esize_pos(qs[0], o, o.len());
            law_unify_list_binds_own_vars(pt, qt, s1, o);
        }
        assert forall|k: u32| unify_list(ps, qs, s, o).1.contains_key(k) && !s.contains_key(k) implies var_among(k, occurrences_list(ps), occurrences_list(qs), o) by {
            if s1.contains_key(k) {
                assert(unify_spec(ps[0], qs[0], s, o).1.contains_key(k));
            } else {
                assert(unify_list(pt, qt, s1, o).1.contains_key(k));
            }
        }
    }
}

/// Whether `t` is built from basic types, type variables, pointers, arrays
/// and tuples only.
pub open spec fn plain_shape(t: TyV) -> bool
    decreases t,
{
    match t {
        TyV::TypeVar(_) => true,
        TyV::Ptr(x) => plain_shape(*x),
        TyV::Array { element, .. } => plain_shape(*element),
        TyV::Tuple(xs) => plain_shapes(xs),
        TyV::Function { .. } => false,
        TyV::Closure { .. } => false,
        TyV::Struct(_) => false,
        TyV::Enum(_) => false,
        TyV::GenericStruct { .. } => false,
        TyV::GenericEnum { .. } => false,
        _ => true,
    }
}

pub open spec fn plain_shapes(xs: Seq<TyV>) -> bool
    decreases xs,
{
    if xs.len() == 0 {
        true
    } else {
        plain_shape(xs[0]) && plain_shapes(xs.subrange(1, xs.len() as int))
    }
}

/// `t` with each type variable bound in `s` replaced by its binding.
pub open spec fn apply(s: Map<u32, TyV>, t: TyV) -> TyV
    decreases t,
{
    match t {
        TyV::TypeVar(id) => if s.contains_key(id) {
            s[id]
        } else {
            t
        },
        TyV::Ptr(x) => TyV::Ptr(Box::new(apply(s, *x))),
        TyV::Array { element, count } => TyV::Array { element: Box::new(apply(s, *element)), count },
        TyV::Tuple(xs) => TyV::Tuple(apply_list(s, xs)),
        _ => t,
    }
}

pub open spec fn apply_list(s: Map<u32, TyV>, xs: Seq<TyV>) -> Seq<TyV>
    decreases xs,
{
    if xs.len() == 0 {
        Seq::empty()
    } else {
        seq![apply(s, xs[0])] + apply_list(s, xs.subrange(1, xs.len() as int))
    }
}

/// Whether every type variable of `vars` is bound in `s`.
pub open spec fn all_bound(s: Map<u32, TyV>, vars: Seq<u32>) -> bool {
    forall|i: int| 0 <= i < vars.len() ==> s.contains_key(#[trigger] vars[i])
}

/// Whether `s2` keeps every binding of `s1`.
pub open spec fn extends(s2: Map<u32, TyV>, s1: Map<u32, TyV>) -> bool {
    forall|k: u32| #[trigger] s1.contains_key(k) ==> s2.contains_key(k) && s2[k] == s1[k]
}

proof fn lemma_all_bound_concat(s: Map<u32, TyV>, a: Seq<u32>, b: Seq<u32>)
    ensures
        all_bound(s, a + b) == (all_bound(s, a) && all_bound(s, b)),
{
    if all_bound(s, a + b) {
        assert forall|i: int| 0 <= i < a.len() implies s.contains_key(#[trigger] a[i]) by {
            assert((a + b)[i] == a[i]);
        }
        assert forall|i: int| 0 <= i < b.len() implies s.contains_key(#[trigger] b[i]) by {
            assert((a + b)[a.len() + i] == b[i]);
        }
    }
    if all_bound(s, a) && all_bound(s, b) {
        assert forall|i: int| 0 <= i < (a + b).len() implies s.contains_key(#[trigger] (a + b)[i]) by {
            if i < a.len() {
                assert((a + b)[i] == a[i]);
            } else {
                assert((a + b)[i] == b[i - a.len()]);
            }
        }
    }
}

proof fn lemma_all_bound_extends(s1: Map<u32, TyV>, s2: Map<u32, TyV>, vars: Seq<u32>)
    requires
        all_bound(s1, vars),
        extends(s2, s1),
    ensures
        all_bound(s2, vars),
{
    assert forall|i: int| 0 <= i < vars.len() implies s2.contains_key(#[trigger] vars[i]) by {
        assert(s1.contains_key(vars[i]));
    }
}

/// Applying a larger substitution changes nothing once every variable is
/// bound.
proof fn lemma_apply_stable(s1: Map<u32, TyV>, s2: Map<u32, TyV>, t: TyV)
    requires
        plain_shape(t),
        all_bound(s1, occurrences(t)),
        extends(s2, s1),
    ensures
        apply(s2, t) == apply(s1, t),
    decreases t,
{
    match t {
        TyV::TypeVar(id) => {
            assert(occurrences(t)[0] == id);
        },
        TyV::Ptr(x) => {
            lemma_apply_stable(s1, s2, *x);
        },
        TyV::Array { element, .. } => {
            lemma_apply_stable(s1, s2, *element);
        },
        TyV::Tuple(xs) => {
            lemma_apply_list_stable(s1, s2, xs);
        },
        _ => {},
    }
}

proof fn lemma_apply_list_stable(s1: Map<u32, TyV>, s2: Map<u32, TyV>, xs: Seq<TyV>)
    requires
        plain_shapes(xs),
        all_bound(s1, occurrences_list(xs)),
        extends(s2, s1),
    ensures
        apply_list(s2, xs) == apply_list(s1, xs),
    decreases xs,
{
    if xs.len() > 0 {
        lemma_occurrences_list_front(xs);
        let tail = xs.subrange(1, xs.len() as int);
        lemma_all_bound_concat(s1, occurrences(xs[0]), occurrences_list(tail));
        lemma_apply_stable(s1, s2, xs[0]);
        lemma_apply_list_stable(s1, s2, tail);
    }
}

/// A type without type variables is left as it is.
proof fn lemma_apply_closed(s: Map<u32, TyV>, t: TyV)
    requires
        plain_shape(t),
        occurrences(t).len() == 0,
    ensures
        apply(s, t) == t,
    decreases t,
{
    match t {
        TyV::Ptr(x) => {
            lemma_apply_closed(s, *x);
        },
        TyV::Array { element, .. } => {
            lemma_apply_closed(s, *element);
        },
        TyV::Tuple(xs) => {
            lemma_apply_list_closed(s, xs);
        },
        _ => {},
    }
}

proof fn lemma_apply_list_closed(s: Map<u32, TyV>, xs: Seq<TyV>)
    requires
        plain_shapes(xs),
        occurrences_list(xs).len() == 0,
    ensures
        apply_list(s, xs) == xs,
    decreases xs,
{
    if xs.len() > 0 {
        lemma_occurrences_list_front(xs);
        let tail = xs.subrange(1, xs.len() as int);
        lemma_apply_closed(s, xs[0]);
        lemma_apply_list_closed(s, tail);
        assert(seq![xs[0]] + tail =~= xs);
    }
}

/// Unifying a parameter type built from basic types, type variables,
/// pointers, arrays and tuples with an argument type without type
/// variables: on success every type variable of the parameter is bound, and
/// the parameter with the bindings applied is the argument.
pub proof fn law_unify_solves(p: TyV, a: TyV, s: Map<u32, TyV>, o: Seq<OriginV>)
    requires
        origins_ok(o),
        plain_shape(p),
        occurrences(a).len() == 0,
    ensures
        unify_spec(p, a, s, o).0 is Ok ==> all_bound(unify_spec(p, a, s, o).1, occurrences(p))
            && apply(unify_spec(p, a, s, o).1, p) == a,
    decreases esize(p, o, o.len()) + esize(a, o, o.len()), 0nat,
{
    match (p, a) {
        (TyV::TypeVar(id), _) => {
            assert(occurrences(p)[0] == id);
        },
        (TyV::Ptr(x), TyV::Ptr(y)) => {
            law_unify_solves(*x, *y, s, o);
        },
        (TyV::Array { element: x, count: c1 }, TyV::Array { element: y, count: c2 }) if c1 == c2 => {
            law_unify_solves(*x, *y, s, o);
        },
        (TyV::Tuple(x), TyV::Tuple(y)) if x.len() == y.len() => {
            law_unify_list_solves(x, y, s, o);
        },
        _ => {
            if unify_spec(p, a, s, o).0 is Ok {
                assert(p == a);
                lemma_apply_closed(unify_spec(p, a, s, o).1, p);
            }
        },
    }
}

/// The list form of [`law_unify_solves`], for lists of equal length.
pub proof fn law_unify_list_solves(ps: Seq<TyV>, qs: Seq<TyV>, s: Map<u32, TyV>, o: Seq<OriginV>)
    requires
        origins_ok(o),
        plain_shapes(ps),
        occurrences_list(qs).len() == 0,
        ps.len() == qs.len(),
    ensures
        unify_list(ps, qs, s, o).0 is Ok ==> all_bound(unify_list(ps, qs, s, o).1, occurrences_list(ps))
            && apply_list(unify_list(ps, qs, s, o).1, ps) == qs,
    decreases esize_list(ps, o, o.len()) + esize_list(qs, o, o.len()), 1nat,
{
    if ps.len() > 0 {
        lemma_occurrences_list_front(ps);
        lemma_occurrences_list_front(qs);
        let pt = ps.subrange(1, ps.len() as int);
        let qt = qs.subrange(1, qs.len() as int);
        law_unify_solves(ps[0], qs[0], s, o);
        let (r, s1) = unify_spec(ps[0], qs[0], s, o);
        if r is Ok {
            lemma_esize_pos(ps[0], o, o.len());
            lemma_esize_pos(qs[0], o, o.len());
            law_unify_list_solves(pt, qt, s1, o);
            law_unify_list_keeps_bindings(pt, qt, s1, o);
            let s2 = unify_list(pt, qt, s1, o).1;
            if unify_list(pt, qt, s1, o).0 is Ok {
                assert(extends(s2, s1));
                lemma_apply_stable(s1, s2, ps[0]);
                lemma_all_bound_extends(s1, s2, occurrences(ps[0]));
                lemma_all_bound_concat(s2, occurrences(ps[0]), occurrences_list(pt));
                assert(seq![qs[0]] + qt =~= qs);
            }
        }
    } else {
        assert(qs =~= Seq::<TyV>::empty());
    }
}


proof fn lemma_apply_list_len(s: Map<u32, TyV>, xs: Seq<TyV>)
    ensures
        apply_list(s, xs).len() == xs.len(),
    decreases xs,
{
    if xs.len() > 0 {
        lemma_apply_list_len(s, xs.subrange(1, xs.len() as int));
    }
}

/// Unifying a parameter type built from basic types, type variables,
/// pointers, arrays and tuples with an argument type without type variables
/// succeeds whenever some extension `w` of the starting substitution solves
/// the parameter, and the substitution it ends with is kept by `w`.
pub proof fn law_unify_complete(p: TyV, a: TyV, s: Map<u32, TyV>, o: Seq<OriginV>, w: Map<u32, TyV>)
    requires
        origins_ok(o),
        plain_shape(p),
        occurrences(a).len() == 0,
        extends(w, s),
        apply(w, p) == a,
    ensures
        unify_spec(p, a, s, o).0 is Ok,
        extends(w, unify_spec(p, a, s, o).1),
    decreases esize(p, o, o.len()) + esize(a, o, o.len()), 0nat,
{
    match p {
        TyV::TypeVar(id) => {
            if !w.contains_key(id) {
                assert(occurrences(a)[0] == id);
            }
            if s.contains_key(id) {
                assert(w[id] == s[id]);
            } else {
                assert forall|k: u32| #[trigger] s.insert(id, a).contains_key(k) implies w.contains_key(k)
                    && w[k] == s.insert(id, a)[k] by {
                    if k != id {
                        assert(s.contains_key(k));
                    }
                }
            }
        },
        TyV::Ptr(x) => {
            law_unify_complete(*x, apply(w, *x), s, o, w);
        },
        TyV::Array { element: x, .. } => {
            law_unify_complete(*x, apply(w, *x), s, o, w);
        },
        TyV::Tuple(xs) => {
            lemma_apply_list_len(w, xs);
            law_unify_list_complete(xs, apply_list(w, xs), s, o, w);
        },
        _ => {},
    }
}

/// The list form of [`law_unify_complete`].
pub proof fn law_unify_list_complete(
    ps: Seq<TyV>,
    qs: Seq<TyV>,
    s: Map<u32, TyV>,
    o: Seq<OriginV>,
    w: Map<u32, TyV>,
)
    requires
        origins_ok(o),
        plain_shapes(ps),
        occurrences_list(qs).len() == 0,
        extends(w, s),
        apply_list(w, ps) == qs,
    ensures
        unify_list(ps, qs, s, o).0 is Ok,
        extends(w, unify_list(ps, qs, s, o).1),
    decreases esize_list(ps, o, o.len()) + esize_list(qs, o, o.len()), 1nat,
{
    if ps.len() > 0 {
        lemma_apply_list_len(w, ps);
        lemma_occurrences_list_front(qs);
        let pt = ps.subrange(1, ps.len() as int);
        let qt = qs.subrange(1, qs.len() as int);
        assert(qs[0] == apply(w, ps[0]));
        assert(qt =~= apply_list(w, pt));
        law_unify_complete(ps[0], qs[0], s, o, w);
        let s1 = unify_spec(ps[0], qs[0], s, o).1;
        lemma_esize_pos(ps[0], o, o.len());
        lemma_esize_pos(qs[0], o, o.len());
        law_unify_list_complete(pt, qt, s1, o, w);
    }
}

/// For such a parameter and argument, unification succeeds exactly when some
/// extension of the starting substitution solves the parameter.
pub proof fn law_unify_succeeds_iff_solvable(p: TyV, a: TyV, s: Map<u32, TyV>, o: Seq<OriginV>)
    requires
        origins_ok(o),
        plain_shape(p),
        occurrences(a).len() == 0,
    ensures
        unify_spec(p, a, s, o).0 is Ok <==> exists|w: Map<u32, TyV>| extends(w, s) && apply(w, p) == a,
{
    if unify_spec(p, a, s, o).0 is Ok {
        law_unify_solves(p, a, s, o);
        law_unify_keeps_bindings(p, a, s, o);
        let w = unify_spec(p, a, s, o).1;
        assert(extends(w, s));
    }
    if exists|w: Map<u32, TyV>| extends(w, s) && apply(w, p) == a {
        let w = choose|w: Map<u32, TyV>| extends(w, s) && apply(w, p) == a;
        law_unify_complete(p, a, s, o, w);
    }
}

/// When every recorded specialization was made with arguments free of type
/// variables, each binding that unifying `p` with `a` adds is for a type
/// variable of `p` or of `a`.
pub proof fn law_unify_binds_vars_of_its_operands(p: TyV, a: TyV, s: Map<u32, TyV>, o: Seq<OriginV>)
    requires
        origins_ok(o),
        forall|m: int| 0 <= m < o.len() ==> occurrences_list(#[trigger] o[m].args).len() == 0,
    ensures
        forall|k: u32|
            #[trigger] unify_spec(p, a, s, o).1.contains_key(k) && !s.contains_key(k) ==> occurrences(
                p,
            ).contains(k) || occurrences(a).contains(k),
{
    law_unify_binds_own_vars(p, a, s, o);
    assert forall|k: u32| #[trigger]
        unify_spec(p, a, s, o).1.contains_key(k) && !s.contains_key(k) implies occurrences(p).contains(k)
        || occurrences(a).contains(k) by {
        if exists|m: int| 0 <= m < o.len() && occurrences_list(#[trigger] o[m].args).contains(k) {
            let m = choose|m: int| 0 <= m < o.len() && occurrences_list(#[trigger] o[m].args).contains(k);
            assert(occurrences_list(o[m].args).len() == 0);
        }
    }
}

} // verus!
