//! Sizes and alignments of types as the code generator lays them out,
//! matching LLVM's default layout rules: natural alignment, fields padded to
//! their alignment, aggregates padded to their largest alignment.

use crate::hir::types::{
    lemma_tys_view, lemma_tys_view_len, tys_view, EnumDef, StructDef, Ty, TyV,
};
use vstd::prelude::*;

verus! {

broadcast use lemma_tys_view_len;

/// The largest size any laid-out value may have: leaves room to round up to
/// an alignment without overflow.
pub open spec fn size_limit() -> int {
    usize::MAX - 8
}

/// A struct or enum definition, by value.
pub struct DefV {
    pub is_enum: bool,
    pub name: Seq<char>,
    pub fields: Seq<TyV>,
    pub variants: Seq<Seq<TyV>>,
}

/// A definition the layout knows.
#[derive(Debug)]
pub enum LayoutDef {
    Struct(StructDef),
    Enum(EnumDef),
}

pub open spec fn struct_fields_view(s: Seq<(String, Ty)>) -> Seq<TyV> {
    s.map_values(|f: (String, Ty)| f.1@)
}

pub open spec fn variants_view(vs: Seq<crate::hir::types::EnumVariant>) -> Seq<Seq<TyV>> {
    vs.map_values(|v: crate::hir::types::EnumVariant| tys_view(v.fields@))
}

pub open spec fn def_view(d: LayoutDef) -> DefV {
    match d {
        LayoutDef::Struct(s) => DefV {
            is_enum: false,
            name: s.name@,
            fields: struct_fields_view(s.fields@),
            variants: Seq::empty(),
        },
        LayoutDef::Enum(e) => DefV {
            is_enum: true,
            name: e.name@,
            fields: Seq::empty(),
            variants: variants_view(e.variants@),
        },
    }
}

/// The last definition before position `k` named `name` (of the given
/// kind), or -1.
pub open spec fn find_def(d: Seq<DefV>, is_enum: bool, name: Seq<char>, k: int) -> int
    decreases k,
{
    if k <= 0 {
        -1
    } else if d[k - 1].is_enum == is_enum && d[k - 1].name == name {
        k - 1
    } else {
        find_def(d, is_enum, name, k - 1)
    }
}

pub proof fn lemma_find_def_bound(d: Seq<DefV>, is_enum: bool, name: Seq<char>, k: int)
    requires
        0 <= k,
    ensures
        find_def(d, is_enum, name, k) < k,
        find_def(d, is_enum, name, k) >= -1,
        find_def(d, is_enum, name, k) >= 0 ==> d[find_def(d, is_enum, name, k)].is_enum == is_enum
            && d[find_def(d, is_enum, name, k)].name == name,
    decreases k,
{
    if k > 0 {
        lemma_find_def_bound(d, is_enum, name, k - 1);
    }
}

/// Whether `t` holds, by value (not behind a pointer or inside a function
/// type), the struct (or enum) `name`.
pub open spec fn holds(t: TyV, is_enum: bool, name: Seq<char>) -> bool
    decreases t,
{
    match t {
        TyV::Struct(n) => !is_enum && n == name,
        TyV::Enum(n) => is_enum && n == name,
        TyV::Array { element, .. } => holds(*element, is_enum, name),
        TyV::Tuple(elems) => holds_any(elems, is_enum, name),
        _ => false,
    }
}

pub open spec fn holds_any(ts: Seq<TyV>, is_enum: bool, name: Seq<char>) -> bool
    decreases ts,
{
    if ts.len() == 0 {
        false
    } else {
        holds_any(ts.drop_last(), is_enum, name) || holds(ts.last(), is_enum, name)
    }
}

pub open spec fn variants_hold(vs: Seq<Seq<TyV>>, is_enum: bool, name: Seq<char>) -> bool
    decreases vs.len(),
{
    if vs.len() == 0 {
        false
    } else {
        variants_hold(vs.drop_last(), is_enum, name) || holds_any(vs.last(), is_enum, name)
    }
}

pub open spec fn def_holds(def: DefV, is_enum: bool, name: Seq<char>) -> bool {
    if def.is_enum {
        variants_hold(def.variants, is_enum, name)
    } else {
        holds_any(def.fields, is_enum, name)
    }
}

/// No definition holds, by value, itself or a definition recorded after it:
/// every type has a finite layout.
pub open spec fn defs_ok(d: Seq<DefV>) -> bool {
    forall|m: int, m2: int|
        0 <= m <= m2 < d.len() ==> !def_holds(#[trigger] d[m], #[trigger] d[m2].is_enum, d[m2].name)
}

pub open spec fn round_up(x: int, a: int) -> int {
    (x + a - 1) / a * a
}

pub open spec fn max(a: int, b: int) -> int {
    if a >= b {
        a
    } else {
        b
    }
}

/// Natural alignment, using definitions before position `k`.
pub open spec fn align(t: TyV, d: Seq<DefV>, k: nat) -> int
    decreases k, t, 0nat,
{
    match t {
        TyV::Unit | TyV::I8 | TyV::U8 => 1,
        TyV::Int | TyV::UInt | TyV::I32 | TyV::U32 | TyV::Float | TyV::F32 => 4,
        TyV::I64 | TyV::U64 | TyV::F64 => 8,
        TyV::Ptr(_) | TyV::Function { .. } | TyV::Closure { .. } => 8,
        TyV::Array { element, .. } => align(*element, d, k),
        TyV::Tuple(elems) => max_align(elems, d, k),
        TyV::Struct(n) => {
            let m = find_def(d, false, n, k as int);
            if 0 <= m < k && m < d.len() {
                max_align(d[m].fields, d, m as nat)
            } else {
                1
            }
        },
        TyV::Enum(_) => 4,
        _ => 1,
    }
}

/// The largest alignment among `ts`, 1 when there are none.
pub open spec fn max_align(ts: Seq<TyV>, d: Seq<DefV>, k: nat) -> int
    decreases k, ts, 0nat,
{
    if ts.len() == 0 {
        1
    } else {
        max(max_align(ts.drop_last(), d, k), align(ts.last(), d, k))
    }
}

/// Size in bytes including trailing padding, using definitions before
/// position `k`.
pub open spec fn size(t: TyV, d: Seq<DefV>, k: nat) -> int
    decreases k, t, 1nat,
{
    match t {
        TyV::Unit | TyV::I8 | TyV::U8 => 1,
        TyV::Int | TyV::UInt | TyV::I32 | TyV::U32 | TyV::Float | TyV::F32 => 4,
        TyV::I64 | TyV::U64 | TyV::F64 => 8,
        TyV::Ptr(_) | TyV::Function { .. } => 8,
        TyV::Closure { .. } => 16,
        TyV::Array { element, count } => size(*element, d, k) * count,
        TyV::Tuple(elems) => fields_size(elems, d, k),
        TyV::Struct(n) => {
            let m = find_def(d, false, n, k as int);
            if 0 <= m < k && m < d.len() {
                max(fields_size(d[m].fields, d, m as nat), 1)
            } else {
                0
            }
        },
        TyV::Enum(n) => {
            let m = find_def(d, true, n, k as int);
            if 0 <= m < k && m < d.len() {
                max_payload(d[m].variants, d, m as nat) + 4
            } else {
                0
            }
        },
        _ => 0,
    }
}

/// Where the fields `ts` end when each is placed at the next offset aligned
/// for it.
pub open spec fn fields_end(ts: Seq<TyV>, d: Seq<DefV>, k: nat) -> int
    decreases k, ts, 2nat,
{
    if ts.len() == 0 {
        0
    } else {
        round_up(fields_end(ts.drop_last(), d, k), align(ts.last(), d, k)) + size(ts.last(), d, k)
    }
}

/// The size of the fields `ts` laid out in order, padded to their largest
/// alignment.
pub open spec fn fields_size(ts: Seq<TyV>, d: Seq<DefV>, k: nat) -> int
    decreases k, ts, 3nat,
{
    round_up(fields_end(ts, d, k), max_align(ts, d, k))
}

/// The largest payload among the variants, 0 when there are none.
pub open spec fn max_payload(vs: Seq<Seq<TyV>>, d: Seq<DefV>, k: nat) -> int
    decreases k, vs, 4nat,
{
    if vs.len() == 0 {
        0
    } else {
        max(max_payload(vs.drop_last(), d, k), fields_size(vs.last(), d, k))
    }
}

/// Whether `t` can be laid out: it names only known definitions, has no
/// type variables or unspecialized generics, and no size along the way
/// exceeds the limit.
pub open spec fn fits(t: TyV, d: Seq<DefV>, k: nat) -> bool
    decreases k, t, 5nat,
{
    match t {
        TyV::TypeVar(_) | TyV::GenericStruct { .. } | TyV::GenericEnum { .. } => false,
        TyV::Array { element, count } => fits(*element, d, k) && size(*element, d, k) * count
            <= size_limit(),
        TyV::Tuple(elems) => fits_all(elems, d, k) && fields_size(elems, d, k) <= size_limit(),
        TyV::Struct(n) => {
            let m = find_def(d, false, n, k as int);
            0 <= m < k && m < d.len() && fits_all(d[m].fields, d, m as nat) && fields_size(
                d[m].fields,
                d,
                m as nat,
            ) <= size_limit()
        },
        TyV::Enum(n) => {
            let m = find_def(d, true, n, k as int);
            0 <= m < k && m < d.len() && fits_variants(d[m].variants, d, m as nat) && max_payload(
                d[m].variants,
                d,
                m as nat,
            ) + 4 <= size_limit()
        },
        _ => true,
    }
}

pub open spec fn fits_all(ts: Seq<TyV>, d: Seq<DefV>, k: nat) -> bool
    decreases k, ts, 5nat,
{
    if ts.len() == 0 {
        true
    } else {
        fits_all(ts.drop_last(), d, k) && fits(ts.last(), d, k)
    }
}

pub open spec fn fits_variants(vs: Seq<Seq<TyV>>, d: Seq<DefV>, k: nat) -> bool
    decreases k, vs, 5nat,
{
    if vs.len() == 0 {
        true
    } else {
        fits_variants(vs.drop_last(), d, k) && fits_all(vs.last(), d, k) && fields_size(
            vs.last(),
            d,
            k,
        ) <= size_limit()
    }
}

pub proof fn lemma_round_up(x: int, a: int)
    requires
        0 <= x,
        1 <= a,
    ensures
        x <= round_up(x, a) <= x + a - 1,
{
    let y = x + a - 1;
    vstd::arithmetic::div_mod::lemma_fundamental_div_mod(y, a);
    vstd::arithmetic::div_mod::lemma_mod_bound(y, a);
    assert(round_up(x, a) == y - y % a) by (nonlinear_arith)
        requires
            y == a * (y / a) + y % a,
            round_up(x, a) == (y / a) * a,
    ;
}

pub proof fn lemma_align_bounds(t: TyV, d: Seq<DefV>, k: nat)
    ensures
        1 <= align(t, d, k) <= 8,
    decreases k, t, 0nat,
{
    match t {
        TyV::Array { element, .. } => lemma_align_bounds(*element, d, k),
        TyV::Tuple(elems) => lemma_max_align_bounds(elems, d, k),
        TyV::Struct(n) => {
            let m = find_def(d, false, n, k as int);
            if 0 <= m < k && m < d.len() {
                lemma_max_align_bounds(d[m].fields, d, m as nat);
            }
        },
        _ => {},
    }
}

pub proof fn lemma_max_align_bounds(ts: Seq<TyV>, d: Seq<DefV>, k: nat)
    ensures
        1 <= max_align(ts, d, k) <= 8,
    decreases k, ts, 0nat,
{
    if ts.len() > 0 {
        lemma_max_align_bounds(ts.drop_last(), d, k);
        lemma_align_bounds(ts.last(), d, k);
    }
}

pub proof fn lemma_size_nonneg(t: TyV, d: Seq<DefV>, k: nat)
    ensures
        size(t, d, k) >= 0,
    decreases k, t, 1nat,
{
    match t {
        TyV::Array { element, count } => {
            lemma_size_nonneg(*element, d, k);
            assert(size(*element, d, k) * count >= 0) by (nonlinear_arith)
                requires
                    size(*element, d, k) >= 0,
            ;
        },
        TyV::Tuple(elems) => lemma_fields_size_nonneg(elems, d, k),
        TyV::Struct(n) => {},
        TyV::Enum(n) => {
            let m = find_def(d, true, n, k as int);
            if 0 <= m < k && m < d.len() {
                lemma_max_payload_nonneg(d[m].variants, d, m as nat);
            }
        },
        _ => {},
    }
}

pub proof fn lemma_fields_end_nonneg(ts: Seq<TyV>, d: Seq<DefV>, k: nat)
    ensures
        fields_end(ts, d, k) >= 0,
    decreases k, ts, 2nat,
{
    if ts.len() > 0 {
        lemma_fields_end_nonneg(ts.drop_last(), d, k);
        lemma_align_bounds(ts.last(), d, k);
        lemma_round_up(fields_end(ts.drop_last(), d, k), align(ts.last(), d, k));
        lemma_size_nonneg(ts.last(), d, k);
    }
}

pub proof fn lemma_fields_size_nonneg(ts: Seq<TyV>, d: Seq<DefV>, k: nat)
    ensures
        fields_size(ts, d, k) >= fields_end(ts, d, k) >= 0,
    decreases k, ts, 3nat,
{
    lemma_fields_end_nonneg(ts, d, k);
    lemma_max_align_bounds(ts, d, k);
    lemma_round_up(fields_end(ts, d, k), max_align(ts, d, k));
}

pub proof fn lemma_max_payload_nonneg(vs: Seq<Seq<TyV>>, d: Seq<DefV>, k: nat)
    ensures
        max_payload(vs, d, k) >= 0,
    decreases k, vs, 4nat,
{
    if vs.len() > 0 {
        lemma_max_payload_nonneg(vs.drop_last(), d, k);
    }
}

/// Along the fields, each end is at least the one before.
proof fn lemma_fields_end_prefix(ts: Seq<TyV>, d: Seq<DefV>, k: nat, i: int)
    requires
        0 <= i <= ts.len(),
    ensures
        0 <= fields_end(ts.subrange(0, i), d, k) <= fields_end(ts, d, k),
    decreases ts.len() - i,
{
    lemma_fields_end_nonneg(ts.subrange(0, i), d, k);
    if i < ts.len() {
        let p = ts.subrange(0, i + 1);
        lemma_fields_end_prefix(ts, d, k, i + 1);
        assert(p.drop_last() =~= ts.subrange(0, i));
        lemma_align_bounds(p.last(), d, k);
        lemma_round_up(fields_end(ts.subrange(0, i), d, k), align(p.last(), d, k));
        lemma_size_nonneg(p.last(), d, k);
    } else {
        assert(ts.subrange(0, i) =~= ts);
    }
}

proof fn lemma_fits_all(ts: Seq<TyV>, d: Seq<DefV>, k: nat, i: int)
    requires
        fits_all(ts, d, k),
        0 <= i < ts.len(),
    ensures
        fits(ts[i], d, k),
    decreases ts.len(),
{
    if i < ts.len() - 1 {
        lemma_fits_all(ts.drop_last(), d, k, i);
    }
}

proof fn lemma_fits_variants(vs: Seq<Seq<TyV>>, d: Seq<DefV>, k: nat, i: int)
    requires
        fits_variants(vs, d, k),
        0 <= i < vs.len(),
    ensures
        fits_all(vs[i], d, k),
        fields_size(vs[i], d, k) <= size_limit(),
    decreases vs.len(),
{
    if i < vs.len() - 1 {
        lemma_fits_variants(vs.drop_last(), d, k, i);
    }
}

proof fn lemma_max_payload_prefix(vs: Seq<Seq<TyV>>, d: Seq<DefV>, k: nat, i: int)
    requires
        0 <= i <= vs.len(),
    ensures
        max_payload(vs.subrange(0, i), d, k) <= max_payload(vs, d, k),
    decreases vs.len() - i,
{
    if i < vs.len() {
        lemma_max_payload_prefix(vs, d, k, i + 1);
        assert(vs.subrange(0, i + 1).drop_last() =~= vs.subrange(0, i));
    } else {
        assert(vs.subrange(0, i) =~= vs);
    }
}

/// A type that fits has a size within the limit.
pub proof fn lemma_fits_size(t: TyV, d: Seq<DefV>, k: nat)
    requires
        fits(t, d, k),
    ensures
        0 <= size(t, d, k) <= size_limit(),
{
    lemma_size_nonneg(t, d, k);
}

fn field_types(fields: &Vec<(String, Ty)>) -> (v: Vec<Ty>)
    ensures
        tys_view(v@) == struct_fields_view(fields@),
{
    let mut v: Vec<Ty> = Vec::new();
    let mut i: usize = 0;
    while i < fields.len()
        invariant
            i <= fields.len(),
            v.len() == i,
            forall|j: int| 0 <= j < i ==> #[trigger] v@[j]@ == fields@[j].1@,
        decreases fields.len() - i,
    {
        v.push(fields[i].1.duplicate());
        i = i + 1;
    }
    proof {
        lemma_tys_view(v@);
        let a = tys_view(v@);
        let b = struct_fields_view(fields@);
        assert(a.len() == b.len());
        assert forall|j: int| 0 <= j < a.len() implies a[j] == b[j] by {
            assert(a[j] == v@[j]@);
            assert(v@[j]@ == fields@[j].1@);
        }
        assert(a =~= b);
    }
    v
}

/// The struct and enum definitions the code generator lays out, in the
/// order they were recorded.
pub struct TypeLayout {
    defs: Vec<LayoutDef>,
}

impl TypeLayout {
    pub closed spec fn view(&self) -> Seq<DefV> {
        self.defs@.map_values(|d: LayoutDef| def_view(d))
    }

    pub open spec fn wf(&self) -> bool {
        defs_ok(self@)
    }

    pub fn new() -> (r: TypeLayout)
        ensures
            r@ == Seq::<DefV>::empty(),
            r.wf(),
    {
        let r = TypeLayout { defs: Vec::new() };
        assert(r@ =~= Seq::<DefV>::empty());
        r
    }

    pub fn len(&self) -> (r: usize)
        ensures
            r == self@.len(),
    {
        self.defs.len()
    }

    fn find(&self, is_enum: bool, name: &String, k: usize) -> (r: Option<usize>)
        requires
            k <= self@.len(),
        ensures
            match r {
                Some(m) => m as int == find_def(self@, is_enum, name@, k as int),
                None => find_def(self@, is_enum, name@, k as int) == -1,
            },
    {
        let mut j: usize = k;
        while j > 0
            invariant
                j <= k <= self.defs.len(),
                self@.len() == self.defs.len(),
                find_def(self@, is_enum, name@, k as int) == find_def(self@, is_enum, name@, j as int),
            decreases j,
        {
            let hit = match &self.defs[j - 1] {
                LayoutDef::Struct(sd) => !is_enum && sd.name == *name,
                LayoutDef::Enum(ed) => is_enum && ed.name == *name,
            };
            assert(self@[j - 1] == def_view(self.defs@[j - 1]));
            if hit {
                return Some(j - 1);
            }
            j = j - 1;
        }
        None
    }

    fn max_align_at(&self, ts: &Vec<Ty>, k: usize) -> (r: usize)
        requires
            k <= self@.len(),
            fits_all(tys_view(ts@), self@, k as nat),
        ensures
            r == max_align(tys_view(ts@), self@, k as nat),
        decreases k, ts, 1nat,
    {
        let ghost tv = tys_view(ts@);
        proof {
            lemma_tys_view(ts@);
        }
        let mut acc: usize = 1;
        let mut i: usize = 0;
        while i < ts.len()
            invariant
                i <= ts.len(),
                k <= self@.len(),
                tv == tys_view(ts@),
                tv.len() == ts.len(),
                forall|j: int| 0 <= j < ts.len() ==> #[trigger] tv[j] == ts@[j]@,
                fits_all(tv, self@, k as nat),
                acc == max_align(tv.subrange(0, i as int), self@, k as nat),
            decreases ts.len() - i,
        {
            proof {
                lemma_fits_all(tv, self@, k as nat, i as int);
                assert(tv.subrange(0, i + 1).drop_last() =~= tv.subrange(0, i as int));
            }
            let a = self.align_at(&ts[i], k);
            if a > acc {
                acc = a;
            }
            i = i + 1;
        }
        assert(tv.subrange(0, ts.len() as int) =~= tv);
        acc
    }

    fn align_at(&self, ty: &Ty, k: usize) -> (r: usize)
        requires
            k <= self@.len(),
            fits(ty@, self@, k as nat),
        ensures
            r == align(ty@, self@, k as nat),
        decreases k, ty, 0nat,
    {
        match ty {
            Ty::Unit | Ty::I8 | Ty::U8 => 1,
            Ty::Int | Ty::UInt | Ty::I32 | Ty::U32 | Ty::Float | Ty::F32 => 4,
            Ty::I64 | Ty::U64 | Ty::F64 => 8,
            Ty::Ptr(_) | Ty::Function { .. } | Ty::Closure { .. } => 8,
            Ty::Array { element, .. } => self.align_at(element, k),
            Ty::Tuple(elems) => self.max_align_at(elems, k),
            Ty::Struct(name) => {
                proof {
                    lemma_find_def_bound(self@, false, name@, k as int);
                }
                match self.find(false, name, k) {
                    Some(m) => match &self.defs[m] {
                        LayoutDef::Struct(def) => {
                            let tys = field_types(&def.fields);
                            self.max_align_at(&tys, m)
                        },
                        LayoutDef::Enum(_) => 1,
                    },
                    None => 1,
                }
            },
            Ty::Enum(_) => 4,
            _ => 1,
        }
    }

    fn fields_size_at(&self, ts: &Vec<Ty>, k: usize) -> (r: usize)
        requires
            k <= self@.len(),
            fits_all(tys_view(ts@), self@, k as nat),
            fields_size(tys_view(ts@), self@, k as nat) <= size_limit(),
        ensures
            r == fields_size(tys_view(ts@), self@, k as nat),
        decreases k, ts, 3nat,
    {
        let ghost tv = tys_view(ts@);
        let ghost d = self@;
        proof {
            lemma_tys_view(ts@);
            lemma_fields_size_nonneg(tv, d, k as nat);
        }
        let mut offset: usize = 0;
        let mut max_a: usize = 1;
        let mut i: usize = 0;
        while i < ts.len()
            invariant
                i <= ts.len(),
                k <= self@.len(),
                d == self@,
                tv == tys_view(ts@),
                tv.len() == ts.len(),
                forall|j: int| 0 <= j < ts.len() ==> #[trigger] tv[j] == ts@[j]@,
                fits_all(tv, d, k as nat),
                fields_size(tv, d, k as nat) <= size_limit(),
                fields_end(tv, d, k as nat) <= fields_size(tv, d, k as nat),
                offset == fields_end(tv.subrange(0, i as int), d, k as nat),
                max_a == max_align(tv.subrange(0, i as int), d, k as nat),
            decreases ts.len() - i,
        {
            proof {
                lemma_fits_all(tv, d, k as nat, i as int);
                assert(tv.subrange(0, i + 1).drop_last() =~= tv.subrange(0, i as int));
                lemma_fields_end_prefix(tv, d, k as nat, i as int);
                lemma_fields_end_prefix(tv, d, k as nat, i + 1);
                lemma_align_bounds(tv[i as int], d, k as nat);
                lemma_round_up(offset as int, align(tv[i as int], d, k as nat));
                lemma_size_nonneg(tv[i as int], d, k as nat);
            }
            let a = self.align_at(&ts[i], k);
            if a > max_a {
                max_a = a;
            }
            offset = (offset + a - 1) / a * a;
            let sz = self.size_at(&ts[i], k);
            offset = offset + sz;
            i = i + 1;
        }
        proof {
            assert(tv.subrange(0, ts.len() as int) =~= tv);
            lemma_max_align_bounds(tv, d, k as nat);
            lemma_round_up(offset as int, max_a as int);
        }
        (offset + max_a - 1) / max_a * max_a
    }

    fn size_at(&self, ty: &Ty, k: usize) -> (r: usize)
        requires
            k <= self@.len(),
            fits(ty@, self@, k as nat),
        ensures
            r == size(ty@, self@, k as nat),
        decreases k, ty, 2nat,
    {
        match ty {
            Ty::Unit | Ty::I8 | Ty::U8 => 1,
            Ty::Int | Ty::UInt | Ty::I32 | Ty::U32 | Ty::Float | Ty::F32 => 4,
            Ty::I64 | Ty::U64 | Ty::F64 => 8,
            Ty::Ptr(_) | Ty::Function { .. } => 8,
            Ty::Closure { .. } => 16,
            Ty::Array { element, count } => {
                proof {
                    lemma_fits_size(element@, self@, k as nat);
                }
                let e = self.size_at(element, k);
                e * *count
            },
            Ty::Tuple(elems) => self.fields_size_at(elems, k),
            Ty::Struct(name) => {
                proof {
                    lemma_find_def_bound(self@, false, name@, k as int);
                }
                match self.find(false, name, k) {
                    Some(m) => match &self.defs[m] {
                        LayoutDef::Struct(def) => {
                            let tys = field_types(&def.fields);
                            let n = self.fields_size_at(&tys, m);
                            if n >= 1 {
                                n
                            } else {
                                1
                            }
                        },
                        LayoutDef::Enum(_) => 0,
                    },
                    None => 0,
                }
            },
            Ty::Enum(name) => {
                proof {
                    lemma_find_def_bound(self@, true, name@, k as int);
                }
                match self.find(true, name, k) {
                    Some(m) => match &self.defs[m] {
                        LayoutDef::Enum(def) => {
                            let vs = &def.variants;
                            let ghost vv = variants_view(vs@);
                            let ghost d = self@;
                            let mut acc: usize = 0;
                            let mut i: usize = 0;
                            while i < vs.len()
                                invariant
                                    i <= vs.len(),
                                    m < k <= self@.len(),
                                    d == self@,
                                    vv == variants_view(vs@),
                                    vv.len() == vs.len(),
                                    fits_variants(vv, d, m as nat),
                                    max_payload(vv, d, m as nat) + 4 <= size_limit(),
                                    acc == max_payload(vv.subrange(0, i as int), d, m as nat),
                                decreases vs.len() - i,
                            {
                                proof {
                                    lemma_fits_variants(vv, d, m as nat, i as int);
                                    assert(vv[i as int] == tys_view(vs@[i as int].fields@));
                                    assert(vv.subrange(0, i + 1).drop_last() =~= vv.subrange(
                                        0,
                                        i as int,
                                    ));
                                    lemma_max_payload_prefix(vv, d, m as nat, i + 1);
                                }
                                let p = self.fields_size_at(&vs[i].fields, m);
                                if p > acc {
                                    acc = p;
                                }
                                i = i + 1;
                            }
                            assert(vv.subrange(0, vs.len() as int) =~= vv);
                            acc + 4
                        },
                        LayoutDef::Struct(_) => 0,
                    },
                    None => 0,
                }
            },
            _ => 0,
        }
    }

    /// Natural alignment of a type, matching LLVM's default layout rules.
    pub fn align_bytes(&self, ty: &Ty) -> (r: usize)
        requires
            self.wf(),
            fits(ty@, self@, self@.len()),
        ensures
            r == align(ty@, self@, self@.len()),
    {
        self.align_at(ty, self.defs.len())
    }

    /// Aligned byte size including trailing padding, matching LLVM's default
    /// struct layout; an enum is its tag plus its largest payload.
    pub fn approx_size_bytes(&self, ty: &Ty) -> (r: usize)
        requires
            self.wf(),
            fits(ty@, self@, self@.len()),
        ensures
            r == size(ty@, self@, self@.len()),
    {
        self.size_at(ty, self.defs.len())
    }

    /// Lays out `fields` in order with natural alignment, returning the
    /// aligned size including trailing padding to the largest alignment.
    pub fn aligned_fields_size_pub(&self, fields: &Vec<Ty>) -> (r: usize)
        requires
            self.wf(),
            fits_all(tys_view(fields@), self@, self@.len()),
            fields_size(tys_view(fields@), self@, self@.len()) <= size_limit(),
        ensures
            r == fields_size(tys_view(fields@), self@, self@.len()),
    {
        self.fields_size_at(fields, self.defs.len())
    }
}

fn ty_holds(t: &Ty, is_enum: bool, name: &String) -> (r: bool)
    ensures
        r == holds(t@, is_enum, name@),
    decreases t,
{
    match t {
        Ty::Struct(n) => !is_enum && *n == *name,
        Ty::Enum(n) => is_enum && *n == *name,
        Ty::Array { element, .. } => ty_holds(element, is_enum, name),
        Ty::Tuple(elems) => any_holds(elems, is_enum, name),
        _ => false,
    }
}

fn any_holds(ts: &Vec<Ty>, is_enum: bool, name: &String) -> (r: bool)
    ensures
        r == holds_any(tys_view(ts@), is_enum, name@),
    decreases ts,
{
    let ghost tv = tys_view(ts@);
    proof {
        lemma_tys_view(ts@);
    }
    let mut acc = false;
    let mut i: usize = 0;
    while i < ts.len()
        invariant
            i <= ts.len(),
            tv == tys_view(ts@),
            tv.len() == ts.len(),
            forall|j: int| 0 <= j < ts.len() ==> #[trigger] tv[j] == ts@[j]@,
            acc == holds_any(tv.subrange(0, i as int), is_enum, name@),
        decreases ts.len() - i,
    {
        proof {
            assert(tv.subrange(0, i + 1).drop_last() =~= tv.subrange(0, i as int));
        }
        let h = ty_holds(&ts[i], is_enum, name);
        acc = acc || h;
        i = i + 1;
    }
    assert(tv.subrange(0, ts.len() as int) =~= tv);
    acc
}

fn def_holds_exec(def: &LayoutDef, is_enum: bool, name: &String) -> (r: bool)
    ensures
        r == def_holds(def_view(*def), is_enum, name@),
{
    match def {
        LayoutDef::Struct(sd) => {
            let tys = field_types(&sd.fields);
            any_holds(&tys, is_enum, name)
        },
        LayoutDef::Enum(ed) => {
            let vs = &ed.variants;
            let ghost vv = variants_view(vs@);
            let mut acc = false;
            let mut i: usize = 0;
            while i < vs.len()
                invariant
                    i <= vs.len(),
                    vv == variants_view(vs@),
                    vv.len() == vs.len(),
                    acc == variants_hold(vv.subrange(0, i as int), is_enum, name@),
                decreases vs.len() - i,
            {
                proof {
                    assert(vv.subrange(0, i + 1).drop_last() =~= vv.subrange(0, i as int));
                    assert(vv[i as int] == tys_view(vs@[i as int].fields@));
                }
                let h = any_holds(&vs[i].fields, is_enum, name);
                acc = acc || h;
                i = i + 1;
            }
            assert(vv.subrange(0, vs.len() as int) =~= vv);
            acc
        },
    }
}

impl TypeLayout {
    /// Records a definition. It is refused (and `false` returned) when it
    /// would give some type an infinite layout: when the definition holds
    /// itself by value, or an earlier definition holds its name by value.
    pub fn add(&mut self, def: LayoutDef) -> (ok: bool)
        requires
            old(self).wf(),
        ensures
            final(self).wf(),
            ok == (!def_holds(def_view(def), def_view(def).is_enum, def_view(def).name) && forall|
                m: int,
            |
                0 <= m < old(self)@.len() ==> !def_holds(
                    #[trigger] old(self)@[m],
                    def_view(def).is_enum,
                    def_view(def).name,
                )),
            ok ==> final(self)@ == old(self)@.push(def_view(def)),
            !ok ==> final(self)@ == old(self)@,
    {
        let (is_enum, name) = match &def {
            LayoutDef::Struct(sd) => (false, sd.name.clone()),
            LayoutDef::Enum(ed) => (true, ed.name.clone()),
        };
        assert(is_enum == def_view(def).is_enum && name@ == def_view(def).name);
        if def_holds_exec(&def, is_enum, &name) {
            return false;
        }
        let mut i: usize = 0;
        while i < self.defs.len()
            invariant
                i <= self.defs.len(),
                self@.len() == self.defs.len(),
                self@ == old(self)@,
                defs_ok(self@),
                is_enum == def_view(def).is_enum,
                name@ == def_view(def).name,
                !def_holds(def_view(def), is_enum, name@),
                forall|m: int|
                    0 <= m < i ==> !def_holds(#[trigger] self@[m], is_enum, name@),
            decreases self.defs.len() - i,
        {
            assert(self@[i as int] == def_view(self.defs@[i as int]));
            if def_holds_exec(&self.defs[i], is_enum, &name) {
                assert(def_holds(old(self)@[i as int], is_enum, name@));
                return false;
            }
            i = i + 1;
        }
        let ghost before = self@;
        let ghost entry = def_view(def);
        self.defs.push(def);
        assert(self@ =~= before.push(entry));
        assert forall|m: int, m2: int| 0 <= m <= m2 < self@.len() implies !def_holds(
            #[trigger] self@[m],
            #[trigger] self@[m2].is_enum,
            self@[m2].name,
        ) by {
            if m2 < before.len() {
                assert(self@[m] == before[m]);
                assert(self@[m2] == before[m2]);
            }
        }
        true
    }
}

/// Whether the definition at `k` of `s` holds one of `s` by value.
pub open spec fn holds_some(s: Seq<DefV>, k: int) -> bool {
    exists|j: int| 0 <= j < s.len() && #[trigger] def_holds(s[k], s[j].is_enum, s[j].name)
}

/// The kind and name of a definition.
fn def_key(d: &LayoutDef) -> (r: (bool, String))
    ensures
        r.0 == def_view(*d).is_enum,
        r.1@ == def_view(*d).name,
{
    match d {
        LayoutDef::Struct(sd) => (false, sd.name.clone()),
        LayoutDef::Enum(ed) => (true, ed.name.clone()),
    }
}

pub open spec fn defs_view(s: Seq<LayoutDef>) -> Seq<DefV> {
    s.map_values(|d: LayoutDef| def_view(d))
}

/// Whether the definition at `i` holds none of `s` by value.
fn holds_none_of(s: &Vec<LayoutDef>, i: usize) -> (r: bool)
    requires
        i < s.len(),
    ensures
        r == !holds_some(defs_view(s@), i as int),
{
    let mut j: usize = 0;
    while j < s.len()
        invariant
            i < s.len(),
            j <= s.len(),
            forall|k: int|
                0 <= k < j ==> !def_holds(
                    defs_view(s@)[i as int],
                    #[trigger] defs_view(s@)[k].is_enum,
                    defs_view(s@)[k].name,
                ),
            defs_view(s@).len() == s.len(),
        decreases s.len() - j,
    {
        let (e, n) = def_key(&s[j]);
        assert(defs_view(s@)[j as int] == def_view(s@[j as int]));
        assert(defs_view(s@)[i as int] == def_view(s@[i as int]));
        if def_holds_exec(&s[i], e, &n) {
            return false;
        }
        j = j + 1;
    }
    assert(!holds_some(defs_view(s@), i as int));
    true
}

/// The first definition of `s` that holds none of `s` by value, if any.
fn free_def(s: &Vec<LayoutDef>) -> (r: Option<usize>)
    ensures
        match r {
            Some(i) => i < s.len() && !holds_some(defs_view(s@), i as int),
            None => forall|k: int| 0 <= k < s@.len() ==> #[trigger] holds_some(defs_view(s@), k),
        },
{
    let mut i: usize = 0;
    while i < s.len()
        invariant
            i <= s.len(),
            forall|k: int| 0 <= k < i ==> #[trigger] holds_some(defs_view(s@), k),
        decreases s.len() - i,
    {
        if holds_none_of(s, i) {
            return Some(i);
        }
        i = i + 1;
    }
    None
}

impl TypeLayout {
    /// A layout of the definitions `defs`, recorded in an order where no
    /// definition holds a later one by value, whatever order they come in.
    /// Where no such order exists (some definitions hold one another by
    /// value in a cycle) the definitions left over are handed back: each of
    /// them holds one of them by value.
    pub fn from_defs(defs: Vec<LayoutDef>) -> (r: Result<TypeLayout, Vec<LayoutDef>>)
        ensures
            match r {
                Ok(layout) => layout.wf() && layout@.to_multiset() == defs_view(defs@).to_multiset(),
                Err(rest) => rest@.len() > 0 && forall|i: int|
                    0 <= i < rest@.len() ==> #[trigger] holds_some(defs_view(rest@), i),
            },
    {
        broadcast use vstd::seq_lib::group_to_multiset_ensures;
        let ghost all = defs_view(defs@);
        let mut rest = defs;
        let mut layout = TypeLayout::new();
        assert(layout@.to_multiset() =~= vstd::multiset::Multiset::<DefV>::empty());
        assert(vstd::multiset::Multiset::<DefV>::empty().add(all.to_multiset()) =~= all.to_multiset());
        while rest.len() > 0
            invariant
                layout.wf(),
                layout@.to_multiset().add(defs_view(rest@).to_multiset()) == all.to_multiset(),
                forall|m: int, k: int|
                    0 <= m < layout@.len() && 0 <= k < rest@.len() ==> !def_holds(
                        #[trigger] layout@[m],
                        #[trigger] defs_view(rest@)[k].is_enum,
                        defs_view(rest@)[k].name,
                    ),
            decreases rest.len(),
        {
            let i = match free_def(&rest) {
                Some(i) => i,
                None => return Err(rest),
            };
            let ghost rv = defs_view(rest@);
            let ghost lv = layout@;
            let d = rest.remove(i);
            assert(def_view(d) == rv[i as int]);
            assert(defs_view(rest@) =~= rv.remove(i as int));
            assert(!def_holds(rv[i as int], rv[i as int].is_enum, rv[i as int].name)) by {
                if def_holds(rv[i as int], rv[i as int].is_enum, rv[i as int].name) {
                    assert(holds_some(rv, i as int));
                }
            }
            let ok = layout.add(d);
            assert(ok);
            assert(layout@ == lv.push(rv[i as int]));
            proof {
                broadcast use vstd::multiset::group_multiset_axioms;
                vstd::seq_lib::to_multiset_remove(rv, i as int);
                vstd::seq_lib::to_multiset_build(lv, rv[i as int]);
                vstd::seq_lib::to_multiset_contains(rv, rv[i as int]);
                assert(rv.contains(rv[i as int]));
                assert(layout@.to_multiset().add(defs_view(rest@).to_multiset()) =~= all.to_multiset());
                assert forall|m: int, k: int|
                    0 <= m < layout@.len() && 0 <= k < rest@.len() implies !def_holds(
                        #[trigger] layout@[m],
                        #[trigger] defs_view(rest@)[k].is_enum,
                        defs_view(rest@)[k].name,
                    ) by {
                    let k0 = if k < i { k } else { k + 1 };
                    assert(defs_view(rest@)[k] == rv[k0]);
                    if m < lv.len() {
                        assert(layout@[m] == lv[m]);
                    }
                }
            }
        }
        assert(defs_view(rest@).to_multiset() =~= vstd::multiset::Multiset::<DefV>::empty());
        assert(layout@.to_multiset().add(vstd::multiset::Multiset::<DefV>::empty()) =~= layout@.to_multiset());
        Ok(layout)
    }
}

} // verus!
