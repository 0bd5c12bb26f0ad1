//! Structural subtyping: when one type admits every value of another.
use vstd::prelude::*;
use crate::ast::{Literal, TupleField, Ty, TyKind};

verus! {

broadcast use {vstd::std_specs::vec::group_vec_axioms, vstd::seq::group_seq_axioms};

/// Two literals denote the same value.
pub open spec fn same_literal(a: Literal, b: Literal) -> bool {
    match (a, b) {
        (Literal::Null, Literal::Null) => true,
        (Literal::Integer(x), Literal::Integer(y)) => x == y,
        (Literal::Float(x), Literal::Float(y)) => x@ == y@,
        (Literal::Boolean(x), Literal::Boolean(y)) => x == y,
        (Literal::String(x), Literal::String(y)) => x@ == y@,
        (Literal::Date(x), Literal::Date(y)) => x@ == y@,
        (Literal::Time(x), Literal::Time(y)) => x@ == y@,
        (Literal::Timestamp(x), Literal::Timestamp(y)) => x@ == y@,
        (Literal::ValueAndUnit(x), Literal::ValueAndUnit(y)) => x.n == y.n && x.unit@ == y.unit@,
        _ => false,
    }
}

/// `e` is a supertype of `f`: any two relations are compatible, otherwise the
/// shapes decide.
pub open spec fn super_ty(e: Ty, f: Ty) -> bool
    decreases e, f, 0nat,
{
    (e.spec_is_relation() && f.spec_is_relation()) || super_kind(e.kind, f.kind)
}

/// An expected field type admits a found one; an absent expected type admits anything.
pub open spec fn super_opt(e: Option<Ty>, f: Option<Ty>) -> bool
    decreases e, f, 0nat,
{
    match (e, f) {
        (None, _) => true,
        (Some(x), Some(y)) => super_ty(x, y),
        (Some(_), None) => false,
    }
}

/// Field by field: singles against singles, wildcards against wildcards.
pub open spec fn super_field(e: TupleField, f: TupleField) -> bool
    decreases e, f, 0nat,
{
    match (e, f) {
        (TupleField::Single(_, x), TupleField::Single(_, y)) => super_opt(x, y),
        (TupleField::Wildcard(x), TupleField::Wildcard(y)) => super_opt(x, y),
        _ => false,
    }
}

/// `e` admits each of the first `n` alternatives.
pub open spec fn admits_first(e: TyKind, alts: Seq<(Option<String>, Ty)>, n: nat) -> bool
    decreases e, alts, n,
{
    if n == 0 {
        true
    } else if n > alts.len() {
        false
    } else {
        admits_first(e, alts, (n - 1) as nat) && super_kind(e, alts[n - 1].1.kind)
    }
}

/// One of the first `n` alternatives admits `f`.
pub open spec fn admitted_by_first(alts: Seq<(Option<String>, Ty)>, f: TyKind, n: nat) -> bool
    decreases alts, f, n,
{
    if n == 0 || n > alts.len() {
        false
    } else {
        admitted_by_first(alts, f, (n - 1) as nat) || super_kind(alts[n - 1].1.kind, f)
    }
}

/// The first `n` expected fields admit the found fields at the same positions.
pub open spec fn fields_admit(efs: Seq<TupleField>, ffs: Seq<TupleField>, n: nat) -> bool
    decreases efs, ffs, n,
{
    if n == 0 {
        true
    } else if n > efs.len() || n > ffs.len() {
        false
    } else {
        fields_admit(efs, ffs, (n - 1) as nat) && super_field(efs[n - 1], ffs[n - 1])
    }
}

/// The shape rules. A found union must have each alternative admitted; an
/// expected union admits what one of its alternatives admits; tuples go field by
/// field, arrays by element, functions by arity and result.
pub open spec fn super_kind(e: TyKind, f: TyKind) -> bool
    decreases e, f, 0nat,
{
    match f {
        TyKind::Union(falts) => admits_first(e, falts@, falts@.len()),
        _ => match e {
            TyKind::Union(ealts) => admitted_by_first(ealts@, f, ealts@.len()),
            TyKind::Primitive(p) => match f {
                TyKind::Primitive(q) => p == q,
                _ => false,
            },
            TyKind::Singleton(a) => match f {
                TyKind::Singleton(b) => same_literal(a, b),
                _ => false,
            },
            TyKind::Tuple(efs) => match f {
                TyKind::Tuple(ffs) => efs@.len() == ffs@.len() && fields_admit(
                    efs@,
                    ffs@,
                    efs@.len(),
                ),
                _ => false,
            },
            TyKind::Array(a) => match f {
                TyKind::Array(b) => super_kind(*a, *b),
                _ => false,
            },
            TyKind::Any => f is Any,
            TyKind::Function(ef) => match f {
                TyKind::Function(ff) => ef.args@.len() == ff.args@.len() && match (
                    ef.return_ty,
                    ff.return_ty,
                ) {
                    (None, _) => true,
                    (Some(x), Some(y)) => super_ty(*x, *y),
                    (Some(_), None) => false,
                },
                _ => false,
            },
        },
    }
}

pub fn literal_eq(a: &Literal, b: &Literal) -> (r: bool)
    ensures
        r == same_literal(*a, *b),
{
    match (a, b) {
        (Literal::Null, Literal::Null) => true,
        (Literal::Integer(x), Literal::Integer(y)) => *x == *y,
        (Literal::Float(x), Literal::Float(y)) => *x == *y,
        (Literal::Boolean(x), Literal::Boolean(y)) => *x == *y,
        (Literal::String(x), Literal::String(y)) => *x == *y,
        (Literal::Date(x), Literal::Date(y)) => *x == *y,
        (Literal::Time(x), Literal::Time(y)) => *x == *y,
        (Literal::Timestamp(x), Literal::Timestamp(y)) => *x == *y,
        (Literal::ValueAndUnit(x), Literal::ValueAndUnit(y)) => x.n == y.n && x.unit == y.unit,
        _ => false,
    }
}

impl Ty {
    /// Whether `self` admits every value of `subset`.
    pub fn is_super_type_of(&self, subset: &Ty) -> (r: bool)
        ensures
            r == super_ty(*self, *subset),
        decreases *self, *subset, 0nat,
    {
        if self.is_relation() && subset.is_relation() {
            return true;
        }
        kind_is_super(&self.kind, &subset.kind)
    }
}

fn opt_is_super(e: &Option<Ty>, f: &Option<Ty>) -> (r: bool)
    ensures
        r == super_opt(*e, *f),
    decreases *e, *f, 0nat,
{
    match (e, f) {
        (None, _) => true,
        (Some(x), Some(y)) => x.is_super_type_of(y),
        (Some(_), None) => false,
    }
}

fn field_is_super(e: &TupleField, f: &TupleField) -> (r: bool)
    ensures
        r == super_field(*e, *f),
    decreases *e, *f, 0nat,
{
    match (e, f) {
        (TupleField::Single(_, x), TupleField::Single(_, y)) => opt_is_super(x, y),
        (TupleField::Wildcard(x), TupleField::Wildcard(y)) => opt_is_super(x, y),
        _ => false,
    }
}

fn kind_is_super(e: &TyKind, f: &TyKind) -> (r: bool)
    ensures
        r == super_kind(*e, *f),
    decreases *e, *f, 0nat,
{
    if let TyKind::Union(falts) = f {
        let mut ok = true;
        let mut i: usize = 0;
        assert(decreases_to!(*f => *falts));
        while i < falts.len()
            invariant
                0 <= i <= falts@.len(),
                *f == TyKind::Union(*falts),
                decreases_to!(*f => *falts),
                ok == admits_first(*e, falts@, i as nat),
            decreases falts@.len() - i,
        {
            proof {
                let a = falts@[i as int];
                assert(decreases_to!(*falts => falts@));
                assert(decreases_to!(falts@ => a));
                assert(decreases_to!(a => a.1));
                assert(decreases_to!(a.1 => a.1.kind));
            }
            let here = kind_is_super(e, &falts[i].1.kind);
            ok = ok && here;
            i += 1;
        }
        return ok;
    }
    match e {
        TyKind::Union(ealts) => {
            let mut found = false;
            let mut i: usize = 0;
            assert(decreases_to!(*e => *ealts));
            while i < ealts.len()
                invariant
                    0 <= i <= ealts@.len(),
                    *e == TyKind::Union(*ealts),
                    decreases_to!(*e => *ealts),
                    found == admitted_by_first(ealts@, *f, i as nat),
                decreases ealts@.len() - i,
            {
                proof {
                    let a = ealts@[i as int];
                    assert(decreases_to!(*ealts => ealts@));
                    assert(decreases_to!(ealts@ => a));
                    assert(decreases_to!(a => a.1));
                    assert(decreases_to!(a.1 => a.1.kind));
                }
                let here = kind_is_super(&ealts[i].1.kind, f);
                found = found || here;
                i += 1;
            }
            found
        },
        TyKind::Primitive(p) => match f {
            TyKind::Primitive(q) => *p == *q,
            _ => false,
        },
        TyKind::Singleton(a) => match f {
            TyKind::Singleton(b) => literal_eq(a, b),
            _ => false,
        },
        TyKind::Tuple(efs) => match f {
            TyKind::Tuple(ffs) => {
                if efs.len() != ffs.len() {
                    return false;
                }
                let mut ok = true;
                let mut i: usize = 0;
                assert(decreases_to!(*e => *efs));
                assert(decreases_to!(*f => *ffs));
                while i < efs.len()
                    invariant
                        0 <= i <= efs@.len(),
                        efs@.len() == ffs@.len(),
                        *e == TyKind::Tuple(*efs),
                        decreases_to!(*e => *efs),
                        decreases_to!(*f => *ffs),
                        *f == TyKind::Tuple(*ffs),
                        ok == fields_admit(efs@, ffs@, i as nat),
                    decreases efs@.len() - i,
                {
                    proof {
                        assert(decreases_to!(*efs => efs@));
                        assert(decreases_to!(efs@ => efs@[i as int]));
                        assert(decreases_to!(*ffs => ffs@));
                        assert(decreases_to!(ffs@ => ffs@[i as int]));
                    }
                    let here = field_is_super(&efs[i], &ffs[i]);
                    ok = ok && here;
                    i += 1;
                }
                ok
            },
            _ => false,
        },
        TyKind::Array(a) => match f {
            TyKind::Array(b) => kind_is_super(&**a, &**b),
            _ => false,
        },
        TyKind::Any => match f {
            TyKind::Any => true,
            _ => false,
        },
        TyKind::Function(ef) => match f {
            TyKind::Function(ff) => {
                if ef.args.len() != ff.args.len() {
                    return false;
                }
                match (&ef.return_ty, &ff.return_ty) {
                    (None, _) => true,
                    (Some(x), Some(y)) => (&**x).is_super_type_of(&**y),
                    (Some(_), None) => false,
                }
            },
            _ => false,
        },
    }
}

/// Optional names agree.
pub open spec fn same_name(a: Option<String>, b: Option<String>) -> bool {
    match (a, b) {
        (None, None) => true,
        (Some(x), Some(y)) => x@ == y@,
        _ => false,
    }
}

/// Two types are the same type: same names and the same shape throughout.
pub open spec fn same_ty(a: Ty, b: Ty) -> bool
    decreases a, b, 0nat,
{
    same_name(a.name, b.name) && same_kind(a.kind, b.kind)
}

pub open spec fn same_opt(a: Option<Ty>, b: Option<Ty>) -> bool
    decreases a, b, 0nat,
{
    match (a, b) {
        (None, None) => true,
        (Some(x), Some(y)) => same_ty(x, y),
        _ => false,
    }
}

pub open spec fn same_field(a: TupleField, b: TupleField) -> bool
    decreases a, b, 0nat,
{
    match (a, b) {
        (TupleField::Single(n, x), TupleField::Single(m, y)) => same_name(n, m) && same_opt(x, y),
        (TupleField::Wildcard(x), TupleField::Wildcard(y)) => same_opt(x, y),
        _ => false,
    }
}

/// The first `n` alternatives agree.
pub open spec fn same_alts(a: Seq<(Option<String>, Ty)>, b: Seq<(Option<String>, Ty)>, n: nat) -> bool
    decreases a, b, n,
{
    if n == 0 {
        true
    } else if n > a.len() || n > b.len() {
        false
    } else {
        same_alts(a, b, (n - 1) as nat) && same_name(a[n - 1].0, b[n - 1].0) && same_ty(
            a[n - 1].1,
            b[n - 1].1,
        )
    }
}

/// The first `n` fields agree.
pub open spec fn same_fields(a: Seq<TupleField>, b: Seq<TupleField>, n: nat) -> bool
    decreases a, b, n,
{
    if n == 0 {
        true
    } else if n > a.len() || n > b.len() {
        false
    } else {
        same_fields(a, b, (n - 1) as nat) && same_field(a[n - 1], b[n - 1])
    }
}

/// The first `n` parameter types agree.
pub open spec fn same_args(a: Seq<Option<Ty>>, b: Seq<Option<Ty>>, n: nat) -> bool
    decreases a, b, n,
{
    if n == 0 {
        true
    } else if n > a.len() || n > b.len() {
        false
    } else {
        same_args(a, b, (n - 1) as nat) && same_opt(a[n - 1], b[n - 1])
    }
}

pub open spec fn same_kind(a: TyKind, b: TyKind) -> bool
    decreases a, b, 0nat,
{
    match (a, b) {
        (TyKind::Primitive(p), TyKind::Primitive(q)) => p == q,
        (TyKind::Singleton(x), TyKind::Singleton(y)) => same_literal(x, y),
        (TyKind::Union(x), TyKind::Union(y)) => x@.len() == y@.len() && same_alts(x@, y@, x@.len()),
        (TyKind::Tuple(x), TyKind::Tuple(y)) => x@.len() == y@.len() && same_fields(
            x@,
            y@,
            x@.len(),
        ),
        (TyKind::Array(x), TyKind::Array(y)) => same_kind(*x, *y),
        (TyKind::Any, TyKind::Any) => true,
        (TyKind::Function(x), TyKind::Function(y)) => x.args@.len() == y.args@.len() && same_args(
            x.args@,
            y.args@,
            x.args@.len(),
        ) && match (x.return_ty, y.return_ty) {
            (None, None) => true,
            (Some(r), Some(t)) => same_ty(*r, *t),
            _ => false,
        },
        _ => false,
    }
}

pub fn copy_name(a: &Option<String>) -> (r: Option<String>)
    ensures
        r == *a,
        same_name(r, *a),
{
    match a {
        None => None,
        Some(x) => Some(x.clone()),
    }
}

pub fn copy_literal(l: &Literal) -> (r: Literal)
    ensures
        r == *l,
        same_literal(r, *l),
{
    match l {
        Literal::Null => Literal::Null,
        Literal::Integer(x) => Literal::Integer(*x),
        Literal::Float(x) => Literal::Float(x.clone()),
        Literal::Boolean(x) => Literal::Boolean(*x),
        Literal::String(x) => Literal::String(x.clone()),
        Literal::Date(x) => Literal::Date(x.clone()),
        Literal::Time(x) => Literal::Time(x.clone()),
        Literal::Timestamp(x) => Literal::Timestamp(x.clone()),
        Literal::ValueAndUnit(x) => Literal::ValueAndUnit(
            crate::ast::ValueAndUnit { n: x.n, unit: x.unit.clone() },
        ),
    }
}

impl Ty {
    /// A copy of this type, equal to it throughout.
    pub fn copy(&self) -> (r: Ty)
        ensures
            same_ty(r, *self),
        decreases *self, 0nat, 0nat,
    {
        Ty { name: copy_name(&self.name), kind: copy_kind(&self.kind) }
    }
}

pub fn copy_opt(a: &Option<Ty>) -> (r: Option<Ty>)
    ensures
        same_opt(r, *a),
    decreases *a, 0nat, 0nat,
{
    match a {
        None => None,
        Some(x) => Some(x.copy()),
    }
}

fn copy_field(a: &TupleField) -> (r: TupleField)
    ensures
        same_field(r, *a),
    decreases *a, 0nat, 0nat,
{
    match a {
        TupleField::Single(n, x) => TupleField::Single(copy_name(n), copy_opt(x)),
        TupleField::Wildcard(x) => TupleField::Wildcard(copy_opt(x)),
    }
}

pub fn copy_kind(a: &TyKind) -> (r: TyKind)
    ensures
        same_kind(r, *a),
    decreases *a, 0nat, 0nat,
{
    match a {
        TyKind::Primitive(p) => TyKind::Primitive(*p),
        TyKind::Singleton(l) => TyKind::Singleton(copy_literal(l)),
        TyKind::Union(alts) => {
            let mut out: Vec<(Option<String>, Ty)> = Vec::new();
            let mut i: usize = 0;
            assert(decreases_to!(*a => *alts));
            while i < alts.len()
                invariant
                    0 <= i <= alts@.len(),
                    out@.len() == i,
                    decreases_to!(*a => *alts),
                    same_alts(out@, alts@, i as nat),
                decreases alts@.len() - i,
            {
                proof {
                    let x = alts@[i as int];
                    assert(decreases_to!(*alts => alts@));
                    assert(decreases_to!(alts@ => x));
                    assert(decreases_to!(x => x.1));
                }
                let t = alts[i].1.copy();
                let n = copy_name(&alts[i].0);
                let ghost before = out@;
                out.push((n, t));
                proof {
                    lemma_same_alts_prefix(before, out@, alts@, i as nat);
                }
                i += 1;
            }
            TyKind::Union(out)
        },
        TyKind::Tuple(fields) => {
            let mut out: Vec<TupleField> = Vec::new();
            let mut i: usize = 0;
            assert(decreases_to!(*a => *fields));
            while i < fields.len()
                invariant
                    0 <= i <= fields@.len(),
                    out@.len() == i,
                    decreases_to!(*a => *fields),
                    same_fields(out@, fields@, i as nat),
                decreases fields@.len() - i,
            {
                proof {
                    assert(decreases_to!(*fields => fields@));
                    assert(decreases_to!(fields@ => fields@[i as int]));
                }
                let f = copy_field(&fields[i]);
                let ghost before = out@;
                out.push(f);
                proof {
                    lemma_same_fields_prefix(before, out@, fields@, i as nat);
                }
                i += 1;
            }
            TyKind::Tuple(out)
        },
        TyKind::Array(x) => TyKind::Array(Box::new(copy_kind(&**x))),
        TyKind::Any => TyKind::Any,
        TyKind::Function(func) => {
            let mut args: Vec<Option<Ty>> = Vec::new();
            let mut i: usize = 0;
            assert(decreases_to!(*a => func.args));
            while i < func.args.len()
                invariant
                    0 <= i <= func.args@.len(),
                    args@.len() == i,
                    decreases_to!(*a => func.args),
                    same_args(args@, func.args@, i as nat),
                decreases func.args@.len() - i,
            {
                proof {
                    assert(decreases_to!(func.args => func.args@));
                    assert(decreases_to!(func.args@ => func.args@[i as int]));
                }
                let t = copy_opt(&func.args[i]);
                let ghost before = args@;
                args.push(t);
                proof {
                    lemma_same_args_prefix(before, args@, func.args@, i as nat);
                }
                i += 1;
            }
            let return_ty = match &func.return_ty {
                None => None,
                Some(t) => Some(Box::new((&**t).copy())),
            };
            TyKind::Function(crate::ast::TyFunc { args, return_ty })
        },
    }
}

proof fn lemma_same_alts_prefix(
    a: Seq<(Option<String>, Ty)>,
    a2: Seq<(Option<String>, Ty)>,
    b: Seq<(Option<String>, Ty)>,
    n: nat,
)
    requires
        n <= a.len(),
        n <= a2.len(),
        forall|k: int| 0 <= k < n ==> a[k] == a2[k],
    ensures
        same_alts(a, b, n) == same_alts(a2, b, n),
    decreases n,
{
    if n > 0 {
        lemma_same_alts_prefix(a, a2, b, (n - 1) as nat);
    }
}

proof fn lemma_same_fields_prefix(a: Seq<TupleField>, a2: Seq<TupleField>, b: Seq<TupleField>, n: nat)
    requires
        n <= a.len(),
        n <= a2.len(),
        forall|k: int| 0 <= k < n ==> a[k] == a2[k],
    ensures
        same_fields(a, b, n) == same_fields(a2, b, n),
    decreases n,
{
    if n > 0 {
        lemma_same_fields_prefix(a, a2, b, (n - 1) as nat);
    }
}

proof fn lemma_same_args_prefix(a: Seq<Option<Ty>>, a2: Seq<Option<Ty>>, b: Seq<Option<Ty>>, n: nat)
    requires
        n <= a.len(),
        n <= a2.len(),
        forall|k: int| 0 <= k < n ==> a[k] == a2[k],
    ensures
        same_args(a, b, n) == same_args(a2, b, n),
    decreases n,
{
    if n > 0 {
        lemma_same_args_prefix(a, a2, b, (n - 1) as nat);
    }
}

} // verus!
