//! Finding a field of a struct type by name, through pointers and generic
//! struct templates.

use crate::hir::lower::{
    fields_view, find_struct, fn_state_kept, lemma_find_struct, struct_def_duplicate, struct_def_view,
    struct_index, subst_fields_spec, zip_map, zip_subst, Lower, LowerV, SPECIALIZATION_DEPTH,
};
use crate::hir::types::{Ty, TyV};
use vstd::prelude::*;

verus! {

/// The type under all the pointer layers of `t`.
pub open spec fn strip_ptrs(t: TyV) -> TyV
    decreases t,
{
    match t {
        TyV::Ptr(inner) => strip_ptrs(*inner),
        _ => t,
    }
}

/// The index of the first field named `name`, or -1.
pub open spec fn field_pos(fs: Seq<(Seq<char>, TyV)>, name: Seq<char>) -> int
    decreases fs.len(),
{
    if fs.len() == 0 {
        -1
    } else if fs[0].0 == name {
        0
    } else {
        let k = field_pos(fs.drop_first(), name);
        if k < 0 {
            -1
        } else {
            k + 1
        }
    }
}

/// The fields of the struct that `t` names under its pointers, and the
/// state afterwards: those of a concrete struct as defined; those of a
/// generic struct's template with its type arguments substituted (which may
/// specialize the structs the fields name); none for another type, an
/// unknown struct, or a substitution that fails.
pub open spec fn field_source(st: LowerV, t: TyV) -> (Option<Seq<(Seq<char>, TyV)>>, LowerV) {
    match strip_ptrs(t) {
        TyV::Struct(n) => {
            let k = find_struct(st.structs, n);
            if 0 <= k < st.structs.len() {
                (Some(st.structs[k].fields), st)
            } else {
                (None, st)
            }
        },
        TyV::GenericStruct { name, args } => {
            let k = find_struct(st.struct_templates, name);
            if 0 <= k < st.struct_templates.len() {
                let tm = st.struct_templates[k];
                let (r, st2) = subst_fields_spec(
                    st,
                    tm.fields,
                    zip_subst(tm.tvs, args),
                    SPECIALIZATION_DEPTH as nat,
                );
                match r {
                    Ok(fs) => (Some(fs), st2),
                    Err(_) => (None, st2),
                }
            } else {
                (None, st)
            }
        },
        _ => (None, st),
    }
}

proof fn lemma_field_pos(fs: Seq<(Seq<char>, TyV)>, name: Seq<char>)
    ensures
        -1 <= field_pos(fs, name) < fs.len(),
        0 <= field_pos(fs, name) ==> fs[field_pos(fs, name)].0 == name,
        forall|j: int| 0 <= j < fs.len() && (field_pos(fs, name) < 0 || j < field_pos(fs, name)) ==> (
        #[trigger] fs[j]).0 != name,
    decreases fs.len(),
{
    if fs.len() > 0 && fs[0].0 != name {
        lemma_field_pos(fs.drop_first(), name);
        assert forall|j: int| 0 <= j < fs.len() && (field_pos(fs, name) < 0 || j < field_pos(fs, name)) implies (
        #[trigger] fs[j]).0 != name by {
            if j > 0 {
                assert(fs[j] == fs.drop_first()[j - 1]);
            }
        }
    }
}

impl Lower {
    /// The index and type of the field `name` of the struct that `ty` names
    /// (through pointers; a generic struct through its template, with its
    /// type arguments substituted); `None` when there is no such field.
    pub fn resolve_field(&mut self, ty: &Ty, name: &String) -> (r: Option<(usize, Ty)>)
        requires
            old(self).wf(),
        ensures
            final(self).wf(),
            fn_state_kept(old(self)@, final(self)@),
            final(self)@ == field_source(old(self)@, ty@).1,
            match field_source(old(self)@, ty@).0 {
                None => r is None,
                Some(fs) => {
                    let k = field_pos(fs, name@);
                    if k < 0 {
                        r is None
                    } else {
                        r matches Some((i, t)) && i == k && t@ == fs[k].1
                    }
                },
            },
    {
        let mut t: &Ty = ty;
        loop
            invariant
                strip_ptrs(t@) == strip_ptrs(ty@),
            ensures
                strip_ptrs(t@) == strip_ptrs(ty@),
                !(t@ is Ptr),
            decreases t@,
        {
            match t {
                Ty::Ptr(inner) => {
                    assert(t@ == TyV::Ptr(Box::new(inner@)));
                    t = inner;
                },
                _ => {
                    break;
                },
            }
        }
        assert(strip_ptrs(t@) == t@);
        let fields: Vec<(String, Ty)> = match t {
            Ty::Struct(n) => {
                proof {
                    lemma_find_struct(self@.structs, n@);
                }
                match struct_index(&self.structs, n) {
                    Some(k) => {
                        let d = struct_def_duplicate(&self.structs[k]);
                        d.fields
                    },
                    None => {
                        return None;
                    },
                }
            },
            Ty::GenericStruct { name: sname, args } => {
                proof {
                    lemma_find_struct(self@.struct_templates, sname@);
                }
                match struct_index(&self.struct_templates, sname) {
                    Some(k) => {
                        let tm = struct_def_duplicate(&self.struct_templates[k]);
                        let m = zip_map(&tm.type_var_ids, args);
                        match self.subst_fields(&tm.fields, &m, SPECIALIZATION_DEPTH) {
                            Ok(fs) => fs,
                            Err(_) => {
                                return None;
                            },
                        }
                    },
                    None => {
                        return None;
                    },
                }
            },
            _ => {
                return None;
            },
        };
        let ghost fv = fields_view(fields@);
        proof {
            lemma_field_pos(fv, name@);
            assert(field_source(old(self)@, ty@).0 == Some(fv));
            assert(self@ == field_source(old(self)@, ty@).1);
        }
        let mut i: usize = 0;
        while i < fields.len()
            invariant
                i <= fields.len(),
                fv == fields_view(fields@),
                self.wf(),
                fn_state_kept(old(self)@, self@),
                self@ == field_source(old(self)@, ty@).1,
                field_source(old(self)@, ty@).0 == Some(fv),
                -1 <= field_pos(fv, name@) < fv.len(),
                0 <= field_pos(fv, name@) ==> fv[field_pos(fv, name@)].0 == name@,
                forall|j: int| 0 <= j < fv.len() && (field_pos(fv, name@) < 0 || j < field_pos(fv, name@)) ==> (
                #[trigger] fv[j]).0 != name@,
                forall|j: int| 0 <= j < i ==> (#[trigger] fv[j]).0 != name@,
            decreases fields.len() - i,
        {
            if fields[i].0 == *name {
                assert(fv[i as int] == (fields@[i as int].0@, fields@[i as int].1@));
                return Some((i, fields[i].1.duplicate()));
            }
            assert(fv[i as int] == (fields@[i as int].0@, fields@[i as int].1@));
            i = i + 1;
        }
        None
    }
}

} // verus!
