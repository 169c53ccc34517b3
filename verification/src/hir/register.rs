//! The first passes of lowering a program: every struct and enum declared
//! at the top level is registered by name (so that their bodies may refer to
//! each other and to themselves), then their field and payload types are
//! lowered.

use crate::ast::types::{Declaration, EnumVariantDef, ExprKind, StructTypeField};
use crate::hir::error::{strings_view, Error, ErrorKind};
use crate::hir::lower::{
    enum_def_view, enum_index, find_enum, find_struct, insert_enum, insert_struct, kind_is,
    lemma_find_enum, lemma_find_struct, lemma_prepend_list, lower_type_spec, lower_types_spec,
    prepend_list, put_enum, put_struct, scope_view, struct_def_view, struct_index, EnumDefV, Lower,
    LowerErr, LowerV, StructDefV, fn_state_kept,
};
use crate::hir::types::{
    lemma_tys_view_len, tys_view, EnumDef, EnumVariant, StructDef, Ty, TyV, TypeVar, TypeVarId,
};
use crate::lexer::types::Span;
use vstd::prelude::*;

verus! {

broadcast use lemma_tys_view_len;

/// The enum a variant constructor named `name` belongs to, if any.
pub open spec fn variant_owner(vc: Seq<(Seq<char>, Seq<char>, usize)>, name: Seq<char>) -> Option<Seq<char>>
    decreases vc.len(),
{
    if vc.len() == 0 {
        None
    } else if vc.last().0 == name {
        Some(vc.last().1)
    } else {
        variant_owner(vc.drop_last(), name)
    }
}

/// Whether a struct or enum, concrete or generic, is named `n`.
pub open spec fn type_name_taken(st: LowerV, n: Seq<char>) -> bool {
    find_struct(st.structs, n) >= 0 || find_struct(st.struct_templates, n) >= 0 || find_enum(
        st.enums,
        n,
    ) >= 0 || find_enum(st.enum_templates, n) >= 0
}

/// Registering the constructors of the variants `vs[k..]` of the enum `e`,
/// the variant at index `i` as `(name, e, i)`; a name already registered is
/// an error at the variant.
pub open spec fn register_variants_spec(st: LowerV, e: Seq<char>, vs: Seq<EnumVariantDef>, k: int) -> (Result<(), (Span, LowerErr)>, LowerV)
    decreases vs.len() - k,
{
    if k < 0 || k >= vs.len() {
        (Ok(()), st)
    } else {
        match variant_owner(st.variant_constructors, vs[k].name@) {
            Some(other) => (Err((vs[k].span, LowerErr::DuplicateVariant(vs[k].name@, other))), st),
            None => register_variants_spec(
                LowerV {
                    variant_constructors: st.variant_constructors.push((vs[k].name@, e, k as usize)),
                    ..st
                },
                e,
                vs,
                k + 1,
            ),
        }
    }
}

/// The ids of `count` type variables made after `n0` others.
pub open spec fn fresh_ids(n0: nat, count: nat) -> Seq<u32> {
    Seq::new(count, |i: int| (n0 + i) as u32)
}

/// The variants of an enum with their payloads still to be lowered.
pub open spec fn placeholder_variants(vs: Seq<EnumVariantDef>) -> Seq<(Seq<char>, Seq<TyV>)> {
    vs.map_values(|v: EnumVariantDef| (v.name@, Seq::<TyV>::empty()))
}

/// Registering the name of one declaration, if it declares a struct or an
/// enum: a type variable is made for each type parameter, and the
/// definition is recorded with empty fields (as a template when generic).
pub open spec fn declare_name_spec(st: LowerV, d: Declaration) -> (Result<(), (Span, LowerErr)>, LowerV) {
    match d.value.kind {
        ExprKind::EnumDef { type_params, variants } => {
            if type_name_taken(st, d.name@) {
                (Err((d.span, LowerErr::AlreadyDefined(d.name@))), st)
            } else {
                let (r, st1) = register_variants_spec(st, d.name@, variants@, 0);
                match r {
                    Err(e) => (Err(e), st1),
                    Ok(_) => {
                        let tps = strings_view(type_params@);
                        let def = EnumDefV {
                            name: d.name@,
                            tvs: fresh_ids(st1.type_vars.len(), tps.len()),
                            variants: placeholder_variants(variants@),
                        };
                        let st2 = LowerV { type_vars: st1.type_vars + tps, ..st1 };
                        (
                            Ok(()),
                            if tps.len() == 0 {
                                LowerV { enums: put_enum(st2.enums, def), ..st2 }
                            } else {
                                LowerV { enum_templates: put_enum(st2.enum_templates, def), ..st2 }
                            },
                        )
                    },
                }
            }
        },
        ExprKind::StructDef { type_params, .. } => {
            if type_name_taken(st, d.name@) {
                (Err((d.span, LowerErr::AlreadyDefined(d.name@))), st)
            } else {
                let tps = strings_view(type_params@);
                let def = StructDefV {
                    name: d.name@,
                    tvs: fresh_ids(st.type_vars.len(), tps.len()),
                    fields: Seq::empty(),
                };
                let st2 = LowerV { type_vars: st.type_vars + tps, ..st };
                (
                    Ok(()),
                    if tps.len() == 0 {
                        LowerV { structs: put_struct(st2.structs, def), ..st2 }
                    } else {
                        LowerV { struct_templates: put_struct(st2.struct_templates, def), ..st2 }
                    },
                )
            }
        },
        _ => (Ok(()), st),
    }
}

/// Registering the names of the declarations `ds[k..]`, stopping at the
/// first error.
pub open spec fn declare_names_spec(st: LowerV, ds: Seq<Declaration>, k: int) -> (Result<(), (Span, LowerErr)>, LowerV)
    decreases ds.len() - k,
{
    if k < 0 || k >= ds.len() {
        (Ok(()), st)
    } else {
        let (r, st1) = declare_name_spec(st, ds[k]);
        match r {
            Err(e) => (Err(e), st1),
            Ok(_) => declare_names_spec(st1, ds, k + 1),
        }
    }
}

/// Whether `r` and the state `st` are the outcome `o`.
pub open spec fn done_out(r: Result<(), Error>, st: LowerV, o: (Result<(), (Span, LowerErr)>, LowerV)) -> bool {
    st == o.1 && match o.0 {
        Ok(_) => r is Ok,
        Err(e) => r matches Err(x) && x.span == e.0 && kind_is(x.kind, e.1),
    }
}

// ---------------------------------------------------------------------------
// Struct fields and enum payloads.
// ---------------------------------------------------------------------------

/// The outcome of lowering the fields of a struct: the fields, an error
/// from lowering a type, or the span of a field whose type is the struct
/// itself.
pub enum FieldsOut {
    Fields(Seq<(Seq<char>, TyV)>),
    TypeError(Span, LowerErr),
    OwnType(Span),
}

/// Lowering the fields `fs` of the struct `name`, first to last.
pub open spec fn lower_fields_spec(st: LowerV, name: Seq<char>, fs: Seq<StructTypeField>) -> (FieldsOut, LowerV)
    decreases fs.len(),
{
    if fs.len() == 0 {
        (FieldsOut::Fields(Seq::empty()), st)
    } else {
        let (r, st1) = lower_type_spec(st, fs[0].ty);
        match r {
            Err(e) => (FieldsOut::TypeError(e.0, e.1), st1),
            Ok(t) => if t == TyV::Struct(name) {
                (FieldsOut::OwnType(fs[0].span), st1)
            } else {
                let (rest, st2) = lower_fields_spec(st1, name, fs.subrange(1, fs.len() as int));
                (
                    match rest {
                        FieldsOut::Fields(more) => FieldsOut::Fields(seq![(fs[0].name@, t)] + more),
                        other => other,
                    },
                    st2,
                )
            },
        }
    }
}

/// `s` with the fields of the struct named `name` set to `fs`.
pub open spec fn set_struct_fields(s: Seq<StructDefV>, name: Seq<char>, fs: Seq<(Seq<char>, TyV)>) -> Seq<StructDefV> {
    let k = find_struct(s, name);
    if k >= 0 {
        s.update(k, StructDefV { fields: fs, ..s[k] })
    } else {
        s
    }
}

/// `s` with the variants of the enum named `name` set to `vs`.
pub open spec fn set_enum_variants(s: Seq<EnumDefV>, name: Seq<char>, vs: Seq<(Seq<char>, Seq<TyV>)>) -> Seq<EnumDefV> {
    let k = find_enum(s, name);
    if k >= 0 {
        s.update(k, EnumDefV { variants: vs, ..s[k] })
    } else {
        s
    }
}

/// A scope binding each name to the id at the same index.
pub open spec fn zip_scope(names: Seq<Seq<char>>, ids: Seq<u32>) -> Seq<(Seq<char>, u32)> {
    Seq::new(
        if names.len() < ids.len() {
            names.len()
        } else {
            ids.len()
        },
        |i: int| (names[i], ids[i]),
    )
}

/// The state with the innermost type-variable scope closed.
pub open spec fn close_scope(st: LowerV) -> LowerV {
    LowerV {
        scopes: if st.scopes.len() > 0 {
            st.scopes.drop_last()
        } else {
            st.scopes
        },
        ..st
    }
}

/// The fields of a struct declaration lowered and recorded. A generic
/// struct's type parameters are bound to its type variables in a scope of
/// their own, which is closed again unless lowering a field type fails.
pub open spec fn struct_body_spec(st: LowerV, d: Declaration) -> (Result<(), (Span, LowerErr)>, LowerV) {
    match d.value.kind {
        ExprKind::StructDef { type_params, fields } => {
            let n = d.name@;
            if type_params.len() == 0 {
                let (r, st1) = lower_fields_spec(st, n, fields@);
                match r {
                    FieldsOut::Fields(fs) => (Ok(()), LowerV { structs: set_struct_fields(st1.structs, n, fs), ..st1 }),
                    FieldsOut::TypeError(sp, e) => (Err((sp, e)), st1),
                    FieldsOut::OwnType(sp) => (Err((sp, LowerErr::DirectStructRecursion(n))), st1),
                }
            } else {
                let k = find_struct(st.struct_templates, n);
                let ids = if k >= 0 {
                    st.struct_templates[k].tvs
                } else {
                    Seq::empty()
                };
                let st0 = LowerV { scopes: st.scopes.push(zip_scope(strings_view(type_params@), ids)), ..st };
                let (r, st1) = lower_fields_spec(st0, n, fields@);
                let closed = close_scope(st1);
                match r {
                    FieldsOut::Fields(fs) => (
                        Ok(()),
                        LowerV { struct_templates: set_struct_fields(closed.struct_templates, n, fs), ..closed },
                    ),
                    FieldsOut::TypeError(sp, e) => (Err((sp, e)), st1),
                    FieldsOut::OwnType(sp) => (Err((sp, LowerErr::DirectStructRecursion(n))), closed),
                }
            }
        },
        _ => (Ok(()), st),
    }
}

/// Lowering the payload types of the variants `vs`, first to last.
pub open spec fn lower_variants_spec(st: LowerV, vs: Seq<EnumVariantDef>) -> (Result<Seq<(Seq<char>, Seq<TyV>)>, (Span, LowerErr)>, LowerV)
    decreases vs.len(),
{
    if vs.len() == 0 {
        (Ok(Seq::empty()), st)
    } else {
        let (r, st1) = lower_types_spec(st, vs[0].fields@);
        match r {
            Err(e) => (Err(e), st1),
            Ok(ts) => prepend_list(seq![(vs[0].name@, ts)], lower_variants_spec(st1, vs.subrange(1, vs.len() as int))),
        }
    }
}

/// The payload types of an enum declaration lowered and recorded, a generic
/// enum's type parameters bound in a scope of their own (left open when
/// lowering fails).
pub open spec fn enum_body_spec(st: LowerV, d: Declaration) -> (Result<(), (Span, LowerErr)>, LowerV) {
    match d.value.kind {
        ExprKind::EnumDef { type_params, variants } => {
            let n = d.name@;
            if type_params.len() == 0 {
                let (r, st1) = lower_variants_spec(st, variants@);
                match r {
                    Ok(vs) => (Ok(()), LowerV { enums: set_enum_variants(st1.enums, n, vs), ..st1 }),
                    Err(e) => (Err(e), st1),
                }
            } else {
                let k = find_enum(st.enum_templates, n);
                let ids = if k >= 0 {
                    st.enum_templates[k].tvs
                } else {
                    Seq::empty()
                };
                let st0 = LowerV { scopes: st.scopes.push(zip_scope(strings_view(type_params@), ids)), ..st };
                let (r, st1) = lower_variants_spec(st0, variants@);
                match r {
                    Ok(vs) => {
                        let closed = close_scope(st1);
                        (Ok(()), LowerV { enum_templates: set_enum_variants(closed.enum_templates, n, vs), ..closed })
                    },
                    Err(e) => (Err(e), st1),
                }
            }
        },
        _ => (Ok(()), st),
    }
}

/// Applying `step` to the declarations `ds[k..]`, stopping at the first
/// error.
pub open spec fn bodies_spec(st: LowerV, ds: Seq<Declaration>, k: int, enums: bool) -> (Result<(), (Span, LowerErr)>, LowerV)
    decreases ds.len() - k,
{
    if k < 0 || k >= ds.len() {
        (Ok(()), st)
    } else {
        let (r, st1) = if enums {
            enum_body_spec(st, ds[k])
        } else {
            struct_body_spec(st, ds[k])
        };
        match r {
            Err(e) => (Err(e), st1),
            Ok(_) => bodies_spec(st1, ds, k + 1, enums),
        }
    }
}

/// All three passes: names, then struct fields, then enum payloads.
pub open spec fn register_types_spec(st: LowerV, ds: Seq<Declaration>) -> (Result<(), (Span, LowerErr)>, LowerV) {
    let (r1, st1) = declare_names_spec(st, ds, 0);
    match r1 {
        Err(e) => (Err(e), st1),
        Ok(_) => {
            let (r2, st2) = bodies_spec(st1, ds, 0, false);
            match r2 {
                Err(e) => (Err(e), st2),
                Ok(_) => bodies_spec(st2, ds, 0, true),
            }
        },
    }
}

// ---------------------------------------------------------------------------
// The passes.
// ---------------------------------------------------------------------------

/// `pre` put in front of the fields of an outcome.
pub open spec fn prepend_fields(pre: Seq<(Seq<char>, TyV)>, o: (FieldsOut, LowerV)) -> (FieldsOut, LowerV) {
    (
        match o.0 {
            FieldsOut::Fields(more) => FieldsOut::Fields(pre + more),
            other => other,
        },
        o.1,
    )
}

proof fn lemma_prepend_fields(p: Seq<(Seq<char>, TyV)>, q: Seq<(Seq<char>, TyV)>, o: (FieldsOut, LowerV))
    ensures
        prepend_fields(p, prepend_fields(q, o)) == prepend_fields(p + q, o),
        prepend_fields(Seq::empty(), o) == o,
{
    match o.0 {
        FieldsOut::Fields(more) => {
            assert(p + (q + more) =~= (p + q) + more);
            assert(Seq::<(Seq<char>, TyV)>::empty() + more =~= more);
        },
        _ => {},
    }
}

/// What lowering struct fields gives, as values.
pub enum FieldsResult {
    Fields(Vec<(String, Ty)>),
    TypeError(Error),
    OwnType(Span),
}

pub open spec fn fields_result_is(r: FieldsResult, o: FieldsOut) -> bool {
    match o {
        FieldsOut::Fields(fs) => r matches FieldsResult::Fields(v) && v@.map_values(|f: (String, Ty)| (f.0@, f.1@)) == fs,
        FieldsOut::TypeError(sp, e) => r matches FieldsResult::TypeError(x) && x.span == sp && kind_is(x.kind, e),
        FieldsOut::OwnType(sp) => r matches FieldsResult::OwnType(x) && x == sp,
    }
}

/// The enum that already has a variant named `name`.
fn variant_owner_of(vc: &Vec<(String, String, usize)>, name: &String) -> (r: Option<String>)
    ensures
        match r {
            Some(e) => variant_owner(vc@.map_values(|v: (String, String, usize)| (v.0@, v.1@, v.2)), name@) == Some(e@),
            None => variant_owner(vc@.map_values(|v: (String, String, usize)| (v.0@, v.1@, v.2)), name@) is None,
        },
{
    let ghost s = vc@.map_values(|v: (String, String, usize)| (v.0@, v.1@, v.2));
    let mut k: usize = vc.len();
    assert(s.take(k as int) =~= s);
    while k > 0
        invariant
            k <= vc.len(),
            s == vc@.map_values(|v: (String, String, usize)| (v.0@, v.1@, v.2)),
            variant_owner(s, name@) == variant_owner(s.take(k as int), name@),
        decreases k,
    {
        assert(s.take(k as int).drop_last() =~= s.take(k - 1));
        assert(s.take(k as int).last() == (vc@[k - 1].0@, vc@[k - 1].1@, vc@[k - 1].2));
        if vc[k - 1].0 == *name {
            return Some(vc[k - 1].1.clone());
        }
        k = k - 1;
    }
    None
}

impl Lower {
    /// Registers the constructors of the variants of the enum `e`.
    fn register_variants(&mut self, e: &String, vs: &Vec<EnumVariantDef>) -> (r: Result<(), Error>)
        requires
            old(self).wf(),
        ensures
            fn_state_kept(old(self)@, final(self)@),
            final(self).wf(),
            done_out(r, final(self)@, register_variants_spec(old(self)@, e@, vs@, 0)),
    {
        let mut i: usize = 0;
        while i < vs.len()
            invariant
                fn_state_kept(old(self)@, self@),
                i <= vs.len(),
                self.wf(),
                register_variants_spec(old(self)@, e@, vs@, 0) == register_variants_spec(self@, e@, vs@, i as int),
            decreases vs.len() - i,
        {
            match variant_owner_of(&self.variant_constructors, &vs[i].name) {
                Some(other) => {
                    return Err(Error {
                        span: vs[i].span,
                        kind: ErrorKind::DuplicateVariant { name: vs[i].name.clone(), other_enum: other },
                    });
                },
                None => {
                    let ghost before = self@;
                    self.variant_constructors.push((vs[i].name.clone(), e.clone(), i));
                    assert(self@ =~= (LowerV {
                        variant_constructors: before.variant_constructors.push((vs@[i as int].name@, e@, i)),
                        ..before
                    }));
                },
            }
            i = i + 1;
        }
        Ok(())
    }

    /// Makes a type variable for each name, in order.
    fn fresh_type_vars(&mut self, names: &Vec<String>) -> (ids: Vec<TypeVarId>)
        ensures
            fn_state_kept(old(self)@, final(self)@),
            crate::hir::generics::ids_of(ids@) == fresh_ids(old(self)@.type_vars.len(), names@.len()),
            final(self)@ == (LowerV { type_vars: old(self)@.type_vars + strings_view(names@), ..old(self)@ }),
            final(self).wf() == old(self).wf(),
    {
        let mut ids: Vec<TypeVarId> = Vec::new();
        let mut i: usize = 0;
        assert(old(self)@.type_vars + strings_view(names@).take(0) =~= old(self)@.type_vars);
        while i < names.len()
            invariant
                fn_state_kept(old(self)@, self@),
                i <= names.len(),
                self.wf() == old(self).wf(),
                self@ == (LowerV { type_vars: old(self)@.type_vars + strings_view(names@).take(i as int), ..old(self)@ }),
                crate::hir::generics::ids_of(ids@) == fresh_ids(old(self)@.type_vars.len(), i as nat),
            decreases names.len() - i,
        {
            let id = self.fresh_type_var_id(names[i].clone());
            let ghost prev = ids@;
            ids.push(id);
            proof {
                assert(crate::hir::generics::ids_of(ids@) =~= crate::hir::generics::ids_of(prev).push(id.0));
                assert(fresh_ids(old(self)@.type_vars.len(), (i + 1) as nat) =~= fresh_ids(old(self)@.type_vars.len(), i as nat).push(
                    (old(self)@.type_vars.len() + i) as u32,
                ));
                assert(old(self)@.type_vars + strings_view(names@).take(i + 1) =~= (old(self)@.type_vars
                    + strings_view(names@).take(i as int)).push(names@[i as int]@));
                assert(crate::hir::generics::ids_of(ids@) =~= fresh_ids(old(self)@.type_vars.len(), (i + 1) as nat));
            }
            i = i + 1;
        }
        assert(strings_view(names@).take(i as int) =~= strings_view(names@));
        ids
    }

    /// Whether a struct or enum, concrete or generic, is named `n`.
    fn type_name_taken_exec(&self, n: &String) -> (r: bool)
        ensures
            r == type_name_taken(self@, n@),
    {
        struct_index(&self.structs, n).is_some() || struct_index(&self.struct_templates, n).is_some()
            || enum_index(&self.enums, n).is_some() || enum_index(&self.enum_templates, n).is_some()
    }

    /// Registers the name of one declaration, if it declares a struct or an
    /// enum.
    fn declare_name(&mut self, d: &Declaration) -> (r: Result<(), Error>)
        requires
            old(self).wf(),
        ensures
            fn_state_kept(old(self)@, final(self)@),
            final(self).wf(),
            done_out(r, final(self)@, declare_name_spec(old(self)@, *d)),
    {
        match &d.value.kind {
            ExprKind::EnumDef { type_params, variants } => {
                if self.type_name_taken_exec(&d.name) {
                    return Err(Error { span: d.span, kind: ErrorKind::AlreadyDefined { name: d.name.clone() } });
                }
                match self.register_variants(&d.name, variants) {
                    Ok(()) => {},
                    Err(e) => return Err(e),
                }
                let ghost st1 = self@;
                let tv_ids = self.fresh_type_vars(type_params);
                let mut vs: Vec<EnumVariant> = Vec::new();
                let mut i: usize = 0;
                while i < variants.len()
                    invariant
                        fn_state_kept(old(self)@, self@),
                        i <= variants.len(),
                        vs@.map_values(|v: EnumVariant| (v.name@, tys_view(v.fields@))) == placeholder_variants(variants@).take(i as int),
                    decreases variants.len() - i,
                {
                    let ghost prev = vs@;
                    let v = EnumVariant { name: variants[i].name.clone(), fields: Vec::new() };
                    vs.push(v);
                    proof {
                        assert(tys_view(Seq::<Ty>::empty()) =~= Seq::<TyV>::empty());
                        assert(vs@.map_values(|v: EnumVariant| (v.name@, tys_view(v.fields@))) =~= prev.map_values(|v: EnumVariant| (v.name@, tys_view(v.fields@))).push((v.name@, tys_view(v.fields@))));
                        assert(placeholder_variants(variants@).take(i + 1) =~= placeholder_variants(variants@).take(i as int).push(placeholder_variants(variants@)[i as int]));
                        assert(vs@.map_values(|v: EnumVariant| (v.name@, tys_view(v.fields@))) =~= placeholder_variants(variants@).take(i + 1));
                    }
                    i = i + 1;
                }
                assert(placeholder_variants(variants@).take(i as int) =~= placeholder_variants(variants@));
                let def = EnumDef { name: d.name.clone(), type_var_ids: tv_ids, variants: vs };
                assert(enum_def_view(def) == (EnumDefV {
                    name: d.name@,
                    tvs: fresh_ids(st1.type_vars.len(), type_params@.len()),
                    variants: placeholder_variants(variants@),
                }));
                if type_params.len() == 0 {
                    insert_enum(&mut self.enums, def);
                } else {
                    insert_enum(&mut self.enum_templates, def);
                }
                Ok(())
            },
            ExprKind::StructDef { type_params, .. } => {
                if self.type_name_taken_exec(&d.name) {
                    return Err(Error { span: d.span, kind: ErrorKind::AlreadyDefined { name: d.name.clone() } });
                }
                let ghost st0 = self@;
                let tv_ids = self.fresh_type_vars(type_params);
                let def = StructDef { name: d.name.clone(), type_var_ids: tv_ids, fields: Vec::new() };
                assert(crate::hir::lower::fields_view(def.fields@) =~= Seq::empty());
                assert(struct_def_view(def) == (StructDefV {
                    name: d.name@,
                    tvs: fresh_ids(st0.type_vars.len(), type_params@.len()),
                    fields: Seq::empty(),
                }));
                if type_params.len() == 0 {
                    insert_struct(&mut self.structs, def);
                } else {
                    insert_struct(&mut self.struct_templates, def);
                }
                Ok(())
            },
            _ => Ok(()),
        }
    }

    /// Registers the names of all struct and enum declarations.
    pub fn declare_names(&mut self, ds: &Vec<Declaration>) -> (r: Result<(), Error>)
        requires
            old(self).wf(),
        ensures
            fn_state_kept(old(self)@, final(self)@),
            final(self).wf(),
            done_out(r, final(self)@, declare_names_spec(old(self)@, ds@, 0)),
    {
        let mut i: usize = 0;
        while i < ds.len()
            invariant
                fn_state_kept(old(self)@, self@),
                i <= ds.len(),
                self.wf(),
                declare_names_spec(old(self)@, ds@, 0) == declare_names_spec(self@, ds@, i as int),
            decreases ds.len() - i,
        {
            match self.declare_name(&ds[i]) {
                Ok(()) => {},
                Err(e) => return Err(e),
            }
            i = i + 1;
        }
        Ok(())
    }
}

/// Sets the fields of the struct named `name` in `v`, if there is one.
fn set_fields(v: &mut Vec<StructDef>, name: &String, fields: Vec<(String, Ty)>)
    ensures
        final(v)@.map_values(|d: StructDef| struct_def_view(d)) == set_struct_fields(
            old(v)@.map_values(|d: StructDef| struct_def_view(d)),
            name@,
            crate::hir::lower::fields_view(fields@),
        ),
{
    let ghost before = v@.map_values(|d: StructDef| struct_def_view(d));
    proof {
        lemma_find_struct(before, name@);
    }
    if let Some(k) = struct_index(v, name) {
        let old_def = crate::hir::lower::struct_def_duplicate(&v[k]);
        let ghost fv = crate::hir::lower::fields_view(fields@);
        let d = StructDef { name: old_def.name, type_var_ids: old_def.type_var_ids, fields };
        v.set(k, d);
        assert(v@.map_values(|d: StructDef| struct_def_view(d)) =~= before.update(
            k as int,
            StructDefV { fields: fv, ..before[k as int] },
        ));
    } else {
        assert(v@.map_values(|d: StructDef| struct_def_view(d)) =~= before);
    }
}

/// Sets the variants of the enum named `name` in `v`, if there is one.
fn set_variants(v: &mut Vec<EnumDef>, name: &String, variants: Vec<EnumVariant>)
    ensures
        final(v)@.map_values(|d: EnumDef| enum_def_view(d)) == set_enum_variants(
            old(v)@.map_values(|d: EnumDef| enum_def_view(d)),
            name@,
            crate::hir::lower::variants_view(variants@),
        ),
{
    let ghost before = v@.map_values(|d: EnumDef| enum_def_view(d));
    proof {
        lemma_find_enum(before, name@);
    }
    if let Some(k) = enum_index(v, name) {
        let old_def = crate::hir::lower::enum_def_duplicate(&v[k]);
        let ghost vv = crate::hir::lower::variants_view(variants@);
        let d = EnumDef { name: old_def.name, type_var_ids: old_def.type_var_ids, variants };
        v.set(k, d);
        assert(v@.map_values(|d: EnumDef| enum_def_view(d)) =~= before.update(
            k as int,
            EnumDefV { variants: vv, ..before[k as int] },
        ));
    } else {
        assert(v@.map_values(|d: EnumDef| enum_def_view(d)) =~= before);
    }
}

impl Lower {
    /// Closes the innermost type-variable scope, if one is open.
    fn close_scope(&mut self)
        ensures
            fn_state_kept(old(self)@, final(self)@),
            final(self)@ == close_scope(old(self)@),
            final(self).wf() == old(self).wf(),
    {
        let _ = self.type_var_scopes.pop();
        assert(self@.scopes =~= close_scope(old(self)@).scopes);
    }

    /// Opens a scope binding each of `names` to the id at the same index.
    fn push_scope_with(&mut self, names: &Vec<String>, ids: &Vec<TypeVarId>)
        ensures
            fn_state_kept(old(self)@, final(self)@),
            final(self)@ == (LowerV {
                scopes: old(self)@.scopes.push(zip_scope(strings_view(names@), crate::hir::generics::ids_of(ids@))),
                ..old(self)@
            }),
            final(self).wf() == old(self).wf(),
    {
        let n: usize = if names.len() < ids.len() { names.len() } else { ids.len() };
        let mut scope: Vec<(String, TypeVarId)> = Vec::new();
        let mut i: usize = 0;
        let ghost z = zip_scope(strings_view(names@), crate::hir::generics::ids_of(ids@));
        while i < n
            invariant
                fn_state_kept(old(self)@, self@),
                i <= n,
                n <= names.len(),
                n <= ids.len(),
                z == zip_scope(strings_view(names@), crate::hir::generics::ids_of(ids@)),
                z.len() == n,
                scope_view(scope) == z.take(i as int),
            decreases n - i,
        {
            let ghost prev = scope_view(scope);
            scope.push((names[i].clone(), ids[i]));
            assert(scope_view(scope) =~= prev.push((names@[i as int]@, ids@[i as int].0)));
            assert(z.take(i + 1) =~= z.take(i as int).push(z[i as int]));
            i = i + 1;
        }
        assert(z.take(i as int) =~= z);
        self.type_var_scopes.push(scope);
        assert(self@.scopes =~= old(self)@.scopes.push(z));
    }

    /// Lowers the fields of the struct `name`, first to last; a field whose
    /// type is the struct itself stops it.
    fn lower_fields(&mut self, name: &String, fs: &Vec<StructTypeField>) -> (r: FieldsResult)
        requires
            old(self).wf(),
        ensures
            fn_state_kept(old(self)@, final(self)@),
            final(self).wf(),
            final(self)@ == lower_fields_spec(old(self)@, name@, fs@).1,
            fields_result_is(r, lower_fields_spec(old(self)@, name@, fs@).0),
    {
        let ghost whole = lower_fields_spec(self@, name@, fs@);
        proof {
            assert(fs@.skip(0) =~= fs@);
            lemma_prepend_fields(Seq::empty(), Seq::empty(), whole);
        }
        let mut out: Vec<(String, Ty)> = Vec::new();
        let mut i: usize = 0;
        while i < fs.len()
            invariant
                fn_state_kept(old(self)@, self@),
                i <= fs.len(),
                self.wf(),
                whole == lower_fields_spec(old(self)@, name@, fs@),
                whole == prepend_fields(
                    out@.map_values(|f: (String, Ty)| (f.0@, f.1@)),
                    lower_fields_spec(self@, name@, fs@.skip(i as int)),
                ),
            decreases fs.len() - i,
        {
            let ghost rest = fs@.skip(i as int);
            let ghost before = self@;
            assert(rest[0] == fs@[i as int]);
            assert(rest.subrange(1, rest.len() as int) =~= fs@.skip(i + 1));
            let t = match self.lower_type(&fs[i].ty) {
                Ok(t) => t,
                Err(e) => {
                    return FieldsResult::TypeError(e);
                },
            };
            let own = match &t {
                Ty::Struct(n) => *n == *name,
                _ => false,
            };
            if own {
                return FieldsResult::OwnType(fs[i].span);
            }
            let f = (fs[i].name.clone(), t);
            proof {
                lemma_prepend_fields(
                    out@.map_values(|f: (String, Ty)| (f.0@, f.1@)),
                    seq![(f.0@, f.1@)],
                    lower_fields_spec(self@, name@, fs@.skip(i + 1)),
                );
            }
            let ghost prev = out@;
            out.push(f);
            assert(out@.map_values(|f: (String, Ty)| (f.0@, f.1@)) =~= prev.map_values(
                |f: (String, Ty)| (f.0@, f.1@),
            ) + seq![(f.0@, f.1@)]);
            i = i + 1;
        }
        proof {
            assert(fs@.skip(i as int) =~= Seq::<StructTypeField>::empty());
            assert(out@.map_values(|f: (String, Ty)| (f.0@, f.1@)) + Seq::<(Seq<char>, TyV)>::empty()
                =~= out@.map_values(|f: (String, Ty)| (f.0@, f.1@)));
        }
        FieldsResult::Fields(out)
    }

    /// Lowers the payload types of the variants `vs`, first to last.
    fn lower_variants(&mut self, vs: &Vec<EnumVariantDef>) -> (r: Result<Vec<EnumVariant>, Error>)
        requires
            old(self).wf(),
        ensures
            fn_state_kept(old(self)@, final(self)@),
            final(self).wf(),
            final(self)@ == lower_variants_spec(old(self)@, vs@).1,
            match lower_variants_spec(old(self)@, vs@).0 {
                Ok(v) => r matches Ok(x) && crate::hir::lower::variants_view(x@) == v,
                Err(e) => r matches Err(x) && x.span == e.0 && kind_is(x.kind, e.1),
            },
    {
        let ghost whole = lower_variants_spec(self@, vs@);
        proof {
            assert(vs@.skip(0) =~= vs@);
            assert(crate::hir::lower::variants_view(Seq::<EnumVariant>::empty()) =~= Seq::empty());
            lemma_prepend_list(Seq::<(Seq<char>, Seq<TyV>)>::empty(), Seq::<(Seq<char>, Seq<TyV>)>::empty(), whole);
        }
        let mut out: Vec<EnumVariant> = Vec::new();
        let mut i: usize = 0;
        while i < vs.len()
            invariant
                fn_state_kept(old(self)@, self@),
                i <= vs.len(),
                self.wf(),
                whole == lower_variants_spec(old(self)@, vs@),
                whole == prepend_list(crate::hir::lower::variants_view(out@), lower_variants_spec(self@, vs@.skip(i as int))),
            decreases vs.len() - i,
        {
            let ghost rest = vs@.skip(i as int);
            let ghost before = self@;
            assert(rest[0] == vs@[i as int]);
            assert(rest.subrange(1, rest.len() as int) =~= vs@.skip(i + 1));
            let ts = match self.lower_types(&vs[i].fields) {
                Ok(ts) => ts,
                Err(e) => {
                    assert(lower_variants_spec(before, rest).1 == self@);
                    return Err(e);
                },
            };
            let v = EnumVariant { name: vs[i].name.clone(), fields: ts };
            proof {
                lemma_prepend_list(
                    crate::hir::lower::variants_view(out@),
                    seq![(v.name@, tys_view(v.fields@))],
                    lower_variants_spec(self@, vs@.skip(i + 1)),
                );
            }
            let ghost prev = out@;
            out.push(v);
            assert(crate::hir::lower::variants_view(out@) =~= crate::hir::lower::variants_view(prev) + seq![(v.name@, tys_view(v.fields@))]);
            i = i + 1;
        }
        proof {
            assert(vs@.skip(i as int) =~= Seq::<EnumVariantDef>::empty());
            assert(crate::hir::lower::variants_view(out@) + Seq::<(Seq<char>, Seq<TyV>)>::empty() =~= crate::hir::lower::variants_view(out@));
        }
        Ok(out)
    }

    /// Lowers and records the fields of a struct declaration.
    fn struct_body(&mut self, d: &Declaration) -> (r: Result<(), Error>)
        requires
            old(self).wf(),
        ensures
            fn_state_kept(old(self)@, final(self)@),
            final(self).wf(),
            done_out(r, final(self)@, struct_body_spec(old(self)@, *d)),
    {
        match &d.value.kind {
            ExprKind::StructDef { type_params, fields } => {
                if type_params.len() == 0 {
                    match self.lower_fields(&d.name, fields) {
                        FieldsResult::Fields(fs) => {
                            set_fields(&mut self.structs, &d.name, fs);
                            Ok(())
                        },
                        FieldsResult::TypeError(e) => Err(e),
                        FieldsResult::OwnType(sp) => Err(Error {
                            span: sp,
                            kind: ErrorKind::DirectStructRecursion { name: d.name.clone() },
                        }),
                    }
                } else {
                    proof {
                        lemma_find_struct(self@.struct_templates, d.name@);
                    }
                    let ids: Vec<TypeVarId> = match struct_index(&self.struct_templates, &d.name) {
                        Some(k) => crate::hir::lower::struct_def_duplicate(&self.struct_templates[k]).type_var_ids,
                        None => Vec::new(),
                    };
                    assert(crate::hir::generics::ids_of(Seq::<TypeVarId>::empty()) =~= Seq::<u32>::empty());
                    self.push_scope_with(type_params, &ids);
                    match self.lower_fields(&d.name, fields) {
                        FieldsResult::Fields(fs) => {
                            self.close_scope();
                            set_fields(&mut self.struct_templates, &d.name, fs);
                            Ok(())
                        },
                        FieldsResult::TypeError(e) => Err(e),
                        FieldsResult::OwnType(sp) => {
                            self.close_scope();
                            Err(Error {
                                span: sp,
                                kind: ErrorKind::DirectStructRecursion { name: d.name.clone() },
                            })
                        },
                    }
                }
            },
            _ => Ok(()),
        }
    }

    /// Lowers and records the payload types of an enum declaration.
    fn enum_body(&mut self, d: &Declaration) -> (r: Result<(), Error>)
        requires
            old(self).wf(),
        ensures
            fn_state_kept(old(self)@, final(self)@),
            final(self).wf(),
            done_out(r, final(self)@, enum_body_spec(old(self)@, *d)),
    {
        match &d.value.kind {
            ExprKind::EnumDef { type_params, variants } => {
                if type_params.len() == 0 {
                    match self.lower_variants(variants) {
                        Ok(vs) => {
                            set_variants(&mut self.enums, &d.name, vs);
                            Ok(())
                        },
                        Err(e) => Err(e),
                    }
                } else {
                    proof {
                        lemma_find_enum(self@.enum_templates, d.name@);
                    }
                    let ids: Vec<TypeVarId> = match enum_index(&self.enum_templates, &d.name) {
                        Some(k) => crate::hir::lower::enum_def_duplicate(&self.enum_templates[k]).type_var_ids,
                        None => Vec::new(),
                    };
                    assert(crate::hir::generics::ids_of(Seq::<TypeVarId>::empty()) =~= Seq::<u32>::empty());
                    self.push_scope_with(type_params, &ids);
                    match self.lower_variants(variants) {
                        Ok(vs) => {
                            self.close_scope();
                            set_variants(&mut self.enum_templates, &d.name, vs);
                            Ok(())
                        },
                        Err(e) => Err(e),
                    }
                }
            },
            _ => Ok(()),
        }
    }

    /// Lowers the bodies of the struct declarations (`enums` false) or of
    /// the enum declarations (`enums` true), in order.
    fn bodies(&mut self, ds: &Vec<Declaration>, enums: bool) -> (r: Result<(), Error>)
        requires
            old(self).wf(),
        ensures
            fn_state_kept(old(self)@, final(self)@),
            final(self).wf(),
            done_out(r, final(self)@, bodies_spec(old(self)@, ds@, 0, enums)),
    {
        let mut i: usize = 0;
        while i < ds.len()
            invariant
                fn_state_kept(old(self)@, self@),
                i <= ds.len(),
                self.wf(),
                bodies_spec(old(self)@, ds@, 0, enums) == bodies_spec(self@, ds@, i as int, enums),
            decreases ds.len() - i,
        {
            let r = if enums {
                self.enum_body(&ds[i])
            } else {
                self.struct_body(&ds[i])
            };
            match r {
                Ok(()) => {},
                Err(e) => return Err(e),
            }
            i = i + 1;
        }
        Ok(())
    }

    /// Registers every struct and enum declared in `ds`: first their names
    /// (each type parameter getting a type variable), then the types of
    /// their fields, then those of their variants' payloads. Names taken
    /// twice, variants declared twice, and a struct holding itself directly
    /// are errors.
    pub fn register_types(&mut self, ds: &Vec<Declaration>) -> (r: Result<(), Error>)
        requires
            old(self).wf(),
        ensures
            fn_state_kept(old(self)@, final(self)@),
            final(self).wf(),
            done_out(r, final(self)@, register_types_spec(old(self)@, ds@)),
    {
        match self.declare_names(ds) {
            Ok(()) => {},
            Err(e) => return Err(e),
        }
        match self.bodies(ds, false) {
            Ok(()) => {},
            Err(e) => return Err(e),
        }
        self.bodies(ds, true)
    }
}

} // verus!
