//! Evaluation of type expressions, inference of literal types, and validation
//! of a node's type against an expected one.
use vstd::prelude::*;
use crate::ast::{BinOp, Expr, ExprKind, Lineage, Literal, PrimitiveSet, Span, TupleField, Ty, TyKind};
use crate::error::{Error, Reason};
use vstd::string::{StrSliceExecFns, StringExecFns};
use crate::types::{same_ty, super_ty};

verus! {

broadcast use {vstd::std_specs::vec::group_vec_axioms, vstd::seq::group_seq_axioms};

/// The tuple `{start..}`: one element, an open-ended range.
pub open spec fn is_rest_pattern(elems: Seq<Expr>) -> bool {
    elems.len() == 1 && elems[0].kind is Range && elems[0].kind->Range_0.end is None
}

/// The alternatives a type contributes to a union: its own, if it is a union,
/// else itself under its own name.
pub open spec fn alternatives(t: Ty) -> Seq<(Option<String>, Ty)> {
    match t.kind {
        TyKind::Union(parts) => parts@,
        _ => seq![(t.name, t)],
    }
}

/// Evaluation of a type expression fails.
pub open spec fn eval_fails(k: ExprKind) -> bool
    decreases k, 0nat,
{
    match k {
        ExprKind::Type(_) => false,
        ExprKind::Literal(_) => false,
        ExprKind::Tuple(elems) => if is_rest_pattern(elems@) {
            match elems@[0].kind->Range_0.start {
                Some(s) => eval_fails(s.kind),
                None => false,
            }
        } else {
            some_fails(elems@, elems@.len())
        },
        ExprKind::Array(elems) => elems@.len() != 1 || eval_fails(elems@[0].kind),
        ExprKind::Binary { left, op, right } => op != BinOp::Or || eval_fails(left.kind)
            || eval_fails(right.kind),
        _ => true,
    }
}

/// One of the first `n` elements fails to evaluate.
pub open spec fn some_fails(elems: Seq<Expr>, n: nat) -> bool
    decreases elems, n,
{
    if n == 0 || n > elems.len() {
        false
    } else {
        some_fails(elems, (n - 1) as nat) || eval_fails(elems[n - 1].kind)
    }
}

/// `t` is what the type expression `k` evaluates to.
pub open spec fn evaluates_to(k: ExprKind, t: Ty) -> bool
    decreases k, 1nat,
{
    match k {
        ExprKind::Type(ty) => t == ty,
        ExprKind::Literal(l) => t.name is None && t.kind is Singleton && t.kind->Singleton_0 == l,
        ExprKind::Tuple(elems) => t.name is None && t.kind is Tuple && {
            let fs = t.kind->Tuple_0@;
            if is_rest_pattern(elems@) {
                fs.len() == 1 && fs[0] is Wildcard && match elems@[0].kind->Range_0.start {
                    Some(s) => fs[0]->Wildcard_0 is Some && evaluates_to(
                        s.kind,
                        fs[0]->Wildcard_0->Some_0,
                    ),
                    None => fs[0]->Wildcard_0 is None,
                }
            } else {
                fs.len() == elems@.len() && fields_evaluate_to(elems@, fs, fs.len())
            }
        },
        ExprKind::Array(elems) => elems@.len() == 1 && t.name is None && t.kind is Array
            && kind_evaluates_to(elems@[0].kind, *t.kind->Array_0),
        ExprKind::Binary { left, op, right } => op == BinOp::Or && t.name is None
            && t.kind is Union && contributes(k, t.kind->Union_0@),
        _ => false,
    }
}

/// `k` evaluates to a type of shape `tk` (its name set aside).
pub open spec fn kind_evaluates_to(k: ExprKind, tk: TyKind) -> bool
    decreases k, 2nat,
{
    match k {
        ExprKind::Type(ty) => tk == ty.kind,
        _ => evaluates_to(k, Ty { name: None, kind: tk }),
    }
}

/// How many alternatives the type that `k` evaluates to brings into a union.
pub open spec fn contribution_len(k: ExprKind) -> nat
    decreases k,
{
    match k {
        ExprKind::Binary { left, op, right } => contribution_len(left.kind) + contribution_len(
            right.kind,
        ),
        ExprKind::Type(ty) => match ty.kind {
            TyKind::Union(parts) => parts@.len(),
            _ => 1,
        },
        _ => 1,
    }
}

/// `s` are the alternatives that the type `k` evaluates to brings into a union:
/// a union brings its own, any other type itself under its own name.
pub open spec fn contributes(k: ExprKind, s: Seq<(Option<String>, Ty)>) -> bool
    decreases k, if k is Binary { 0nat } else { 2nat },
{
    match k {
        ExprKind::Binary { left, op, right } => {
            let n = contribution_len(left.kind);
            op == BinOp::Or && s.len() == n + contribution_len(right.kind) && contributes(
                left.kind,
                s.subrange(0, n as int),
            ) && contributes(right.kind, s.subrange(n as int, s.len() as int))
        },
        ExprKind::Type(ty) => s == alternatives(ty),
        _ => s.len() == 1 && s[0].0 is None && evaluates_to(k, s[0].1),
    }
}

proof fn lemma_alternatives(k: ExprKind, t: Ty)
    requires
        evaluates_to(k, t),
    ensures
        contributes(k, alternatives(t)),
        alternatives(t).len() == contribution_len(k),
        kind_evaluates_to(k, t.kind),
{
    match k {
        ExprKind::Type(ty) => {},
        ExprKind::Binary { .. } => {},
        _ => {
            assert(t == Ty { name: None, kind: t.kind });
        },
    }
}

/// The first `n` fields are the elements' types, each under the element's alias.
pub open spec fn fields_evaluate_to(elems: Seq<Expr>, fs: Seq<TupleField>, n: nat) -> bool
    decreases elems, n,
{
    if n == 0 {
        true
    } else if n > elems.len() || n > fs.len() {
        false
    } else {
        fields_evaluate_to(elems, fs, (n - 1) as nat) && fs[n - 1] is Single
            && fs[n - 1]->Single_0 == elems[n - 1].alias && fs[n - 1]->Single_1 is Some
            && evaluates_to(elems[n - 1].kind, fs[n - 1]->Single_1->Some_0)
    }
}

/// The message for an array type expression without exactly one element.
pub open spec fn arity_message() -> Seq<char> {
    "For type expressions, arrays must contain exactly one element."@
}

/// The message for an expression outside the type grammar: an identifier is
/// shown by its name, any other shape by what it is.
pub open spec fn not_type_message(k: ExprKind) -> Seq<char> {
    match k {
        ExprKind::Ident(n) => "not a type expression: `"@ + n@ + "`"@,
        ExprKind::Pipeline(_) => "not a type expression: a pipeline"@,
        ExprKind::Range(_) => "not a type expression: a range"@,
        ExprKind::FuncCall(_) => "not a type expression: a function call"@,
        ExprKind::Func(_) => "not a type expression: a function"@,
        ExprKind::SString(_) => "not a type expression: an s-string"@,
        ExprKind::FString(_) => "not a type expression: an f-string"@,
        ExprKind::TransformCall(_) => "not a type expression: a transform"@,
        ExprKind::Param(_) => "not a type expression: a parameter"@,
        ExprKind::Binary { .. } => "not a type expression: a binary operation other than `||`"@,
        _ => seq![],
    }
}

/// An error located at `span`, unless it already has a location.
pub open spec fn located(m: (Seq<char>, Option<Span>), span: Option<Span>) -> (
    Seq<char>,
    Option<Span>,
) {
    (m.0, if m.1 is Some { m.1 } else { span })
}

/// Message and location of the error that evaluating `k` fails with: the
/// first failing part decides, and a failing element of a tuple or an array is
/// located at that element.
pub open spec fn eval_error(k: ExprKind) -> (Seq<char>, Option<Span>)
    decreases k, 0nat,
{
    match k {
        ExprKind::Type(_) => (seq![], None),
        ExprKind::Literal(_) => (seq![], None),
        ExprKind::Tuple(elems) => if is_rest_pattern(elems@) {
            match elems@[0].kind->Range_0.start {
                Some(s) => eval_error(s.kind),
                None => (seq![], None),
            }
        } else {
            first_error(elems@, 0)
        },
        ExprKind::Array(elems) => if elems@.len() != 1 {
            (arity_message(), None)
        } else {
            located(eval_error(elems@[0].kind), elems@[0].span)
        },
        ExprKind::Binary { left, op, right } => if op != BinOp::Or {
            (not_type_message(k), None)
        } else if eval_fails(left.kind) {
            eval_error(left.kind)
        } else {
            eval_error(right.kind)
        },
        _ => (not_type_message(k), None),
    }
}

/// The error of the first element, from the `i`-th on, that fails to evaluate,
/// located at that element.
pub open spec fn first_error(elems: Seq<Expr>, i: nat) -> (Seq<char>, Option<Span>)
    decreases elems, elems.len() - i,
{
    if i >= elems.len() {
        (seq![], None)
    } else if eval_fails(elems[i as int].kind) {
        located(eval_error(elems[i as int].kind), elems[i as int].span)
    } else {
        first_error(elems, i + 1)
    }
}

/// `err` is the diagnostic with message and location `m`.
pub open spec fn is_error(err: Error, m: (Seq<char>, Option<Span>)) -> bool {
    &&& err.reason is Simple
    &&& err.reason->Simple_0@ == m.0
    &&& err.span == m.1
    &&& err.help is None
}

fn not_a_type(k: &ExprKind) -> (r: Error)
    requires
        !(*k is Type || *k is Literal || *k is Tuple || *k is Array),
    ensures
        is_error(r, (not_type_message(*k), None)),
{
    match k {
        ExprKind::Ident(n) => {
            let mut m = "not a type expression: `".to_owned();
            m.append(n.as_str());
            m.append("`");
            Error { reason: Reason::Simple(m), span: None, help: None }
        },
        ExprKind::Pipeline(_) => Error::simple("not a type expression: a pipeline"),
        ExprKind::Range(_) => Error::simple("not a type expression: a range"),
        ExprKind::FuncCall(_) => Error::simple("not a type expression: a function call"),
        ExprKind::Func(_) => Error::simple("not a type expression: a function"),
        ExprKind::SString(_) => Error::simple("not a type expression: an s-string"),
        ExprKind::FString(_) => Error::simple("not a type expression: an f-string"),
        ExprKind::TransformCall(_) => Error::simple("not a type expression: a transform"),
        ExprKind::Param(_) => Error::simple("not a type expression: a parameter"),
        _ => Error::simple("not a type expression: a binary operation other than `||`"),
    }
}

/// Evaluates a resolved expression as a type expression.
pub fn coerce_to_type(expr: Expr) -> (r: Result<Ty, Error>)
    ensures
        r is Err <==> eval_fails(expr.kind),
        r is Ok ==> evaluates_to(expr.kind, r->Ok_0),
        r is Err ==> is_error(r->Err_0, eval_error(expr.kind)),
    decreases expr, 2nat,
{
    coerce_kind_to_set(expr.kind)
}

/// Evaluates an element of a type expression, keeping its alias as the field name;
/// a failure is located at the element.
fn coerce_to_aliased_type(expr: Expr) -> (r: Result<(Option<String>, Ty), Error>)
    ensures
        r is Err <==> eval_fails(expr.kind),
        r is Ok ==> r->Ok_0.0 == expr.alias && evaluates_to(expr.kind, r->Ok_0.1),
        r is Err ==> is_error(r->Err_0, located(eval_error(expr.kind), expr.span)),
    decreases expr, 2nat,
{
    let name = expr.alias;
    match coerce_kind_to_set(expr.kind) {
        Ok(ty) => Ok((name, ty)),
        Err(e) => Err(e.with_span(expr.span)),
    }
}

fn coerce_kind_to_set(expr: ExprKind) -> (r: Result<Ty, Error>)
    ensures
        r is Err <==> eval_fails(expr),
        r is Ok ==> evaluates_to(expr, r->Ok_0),
        r is Err ==> is_error(r->Err_0, eval_error(expr)),
    decreases expr, 1nat,
{
    match expr {
        // already resolved type expressions (mostly primitives)
        ExprKind::Type(set_expr) => {
            assert(evaluates_to(expr, set_expr));
            Ok(set_expr)
        },
        // singletons
        ExprKind::Literal(lit) => {
            let r = Ty { name: None, kind: TyKind::Singleton(lit) };
            assert(evaluates_to(expr, r));
            Ok(r)
        },
        ExprKind::Tuple(_) => coerce_tuple(expr),
        ExprKind::Array(elements) => {
            if elements.len() != 1 {
                return Err(
                    Error::simple("For type expressions, arrays must contain exactly one element."),
                );
            }
            let mut elements = elements;
            let ghost orig = elements@;
            assert(decreases_to!(elements => elements@[0]));
            let items = elements.remove(0);
            assert(items == orig[0]);
            match coerce_to_aliased_type(items) {
                Ok((_, items_type)) => {
                    let r = Ty { name: None, kind: TyKind::Array(Box::new(items_type.kind)) };
                    assert(evaluates_to(orig[0].kind, items_type) && *r.kind->Array_0
                        == items_type.kind);
                    proof {
                        lemma_alternatives(orig[0].kind, items_type);
                    }
                    assert(evaluates_to(expr, r));
                    Ok(r)
                },
                Err(e) => Err(e),
            }
        },
        ExprKind::Binary { left, op, right } => {
            if op != BinOp::Or {
                return Err(
                    Error::simple("not a type expression: a binary operation other than `||`"),
                );
            }
            let ghost left_kind = left.kind;
            let ghost right_kind = right.kind;
            let left = match coerce_to_type(*left) {
                Ok(t) => t,
                Err(e) => return Err(e),
            };
            let right = match coerce_to_type(*right) {
                Ok(t) => t,
                Err(e) => return Err(e),
            };
            let ghost (lt, rt) = (left, right);
            // flatten nested unions
            let mut options: Vec<(Option<String>, Ty)> = Vec::new();
            push_alternatives(&mut options, left);
            push_alternatives(&mut options, right);
            proof {
                lemma_alternatives(left_kind, lt);
                lemma_alternatives(right_kind, rt);
                let n = contribution_len(left_kind);
                assert(options@.subrange(0, n as int) =~= alternatives(lt));
                assert(options@.subrange(n as int, options@.len() as int) =~= alternatives(rt));
                assert(contributes(expr, options@));
            }
            let r = Ty { name: None, kind: TyKind::Union(options) };
            assert(evaluates_to(left_kind, lt) && evaluates_to(right_kind, rt));
            assert(evaluates_to(expr, r));
            Ok(r)
        },
        other => Err(not_a_type(&other)),
    }
}

/// Appends the alternatives that `t` contributes to a union.
fn push_alternatives(options: &mut Vec<(Option<String>, Ty)>, t: Ty)
    ensures
        final(options)@ == old(options)@ + alternatives(t),
{
    let ghost t0 = t;
    match t.kind {
        TyKind::Union(parts) => {
            let mut parts = parts;
            options.append(&mut parts);
        },
        kind => {
            let name = crate::types::copy_name(&t.name);
            options.push((name, Ty { name: t.name, kind }));
            assert(old(options)@.push((t0.name, t0)) =~= old(options)@ + seq![(t0.name, t0)]);
        },
    }
}

/// A tuple type expression: `{x..}` is a wildcard field, otherwise one field per element.
fn coerce_tuple(expr: ExprKind) -> (r: Result<Ty, Error>)
    requires
        expr is Tuple,
    ensures
        r is Err <==> eval_fails(expr),
        r is Ok ==> evaluates_to(expr, r->Ok_0),
        r is Err ==> is_error(r->Err_0, eval_error(expr)),
    decreases expr, 0nat,
{
    let ghost whole = expr;
    let mut elements = match expr {
        ExprKind::Tuple(elements) => elements,
        _ => Vec::new(),
    };
    let ghost orig = elements;
    assert(decreases_to!(whole => whole->Tuple_0));
    assert(decreases_to!(whole->Tuple_0 => whole->Tuple_0@));
    // special case: {x..}
    let rest = elements.len() == 1 && match &elements[0].kind {
        ExprKind::Range(range) => range.end.is_none(),
        _ => false,
    };
    if rest {
        let only = elements.remove(0);
        assert(only == orig@[0]);
        let inner = match only.kind {
            ExprKind::Range(range) => match range.start {
                Some(x) => {
                    assert(decreases_to!(orig@[0] => *x));
                    match coerce_to_type(*x) {
                        Ok(t) => Some(t),
                        Err(e) => return Err(e),
                    }
                },
                None => None,
            },
            _ => {
                proof {
                    assert(false);
                }
                None
            },
        };
        let mut set_elements: Vec<TupleField> = Vec::new();
        set_elements.push(TupleField::Wildcard(inner));
        return Ok(Ty { name: None, kind: TyKind::Tuple(set_elements) });
    }
    let n = elements.len();
    let mut set_elements: Vec<TupleField> = Vec::new();
    let mut i: usize = 0;
    while i < n
        invariant
            elements@ == orig@.subrange(i as int, n as int),
            n == orig@.len(),
            i <= n,
            set_elements@.len() == i,
            !some_fails(orig@, i as nat),
            fields_evaluate_to(orig@, set_elements@, i as nat),
            decreases_to!(whole => orig@),
            whole == expr,
            whole == ExprKind::Tuple(orig),
            !is_rest_pattern(orig@),
            first_error(orig@, 0) == first_error(orig@, i as nat),
        decreases n - i,
    {
        let e = elements.remove(0);
        assert(e == orig@[i as int]);
        assert(decreases_to!(orig@ => orig@[i as int]));
        assert(decreases_to!(whole => orig@[i as int]));
        match coerce_to_aliased_type(e) {
            Ok((name, ty)) => {
                let ghost before = set_elements@;
                set_elements.push(TupleField::Single(name, Some(ty)));
                proof {
                    lemma_fields_prefix(orig@, before, set_elements@, i as nat);
                }
            },
            Err(err) => {
                proof {
                    lemma_some_fails_grows(orig@, (i + 1) as nat, n as nat);
                }
                return Err(err);
            },
        }
        i += 1;
    }
    Ok(Ty { name: None, kind: TyKind::Tuple(set_elements) })
}

/// The type a literal is inferred to have; none yet for a value with a unit.
pub open spec fn literal_kind(l: Literal) -> Option<TyKind> {
    match l {
        Literal::Null => Some(TyKind::Singleton(Literal::Null)),
        Literal::Integer(_) => Some(TyKind::Primitive(PrimitiveSet::Int)),
        Literal::Float(_) => Some(TyKind::Primitive(PrimitiveSet::Float)),
        Literal::Boolean(_) => Some(TyKind::Primitive(PrimitiveSet::Bool)),
        Literal::String(_) => Some(TyKind::Primitive(PrimitiveSet::Text)),
        Literal::Date(_) => Some(TyKind::Primitive(PrimitiveSet::Date)),
        Literal::Time(_) => Some(TyKind::Primitive(PrimitiveSet::Time)),
        Literal::Timestamp(_) => Some(TyKind::Primitive(PrimitiveSet::Timestamp)),
        Literal::ValueAndUnit(_) => None,
    }
}

/// `r` is the type inferred for `e`: its resolved type if it has one, else one
/// read off its syntax where that is possible without an environment.
pub open spec fn inferred(e: Expr, r: Option<Ty>) -> bool
    decreases e, 0nat,
{
    match e.ty {
        Some(t) => r is Some && same_ty(r->Some_0, t),
        None => match e.kind {
            ExprKind::Literal(l) => match literal_kind(l) {
                Some(k) => r == Some(Ty { name: None, kind: k }),
                None => r is None,
            },
            ExprKind::FString(_) => r == Some(
                Ty { name: None, kind: TyKind::Primitive(PrimitiveSet::Text) },
            ),
            ExprKind::Tuple(elems) => r is Some && r->Some_0.name is None
                && r->Some_0.kind is Tuple && r->Some_0.kind->Tuple_0@.len() == elems@.len()
                && fields_inferred(elems@, r->Some_0.kind->Tuple_0@, elems@.len()),
            _ => r is None,
        },
    }
}

/// The first `n` fields are unnamed and hold the types inferred for the elements.
pub open spec fn fields_inferred(elems: Seq<Expr>, fs: Seq<TupleField>, n: nat) -> bool
    decreases elems, n,
{
    if n == 0 {
        true
    } else if n > elems.len() || n > fs.len() {
        false
    } else {
        fields_inferred(elems, fs, (n - 1) as nat) && fs[n - 1] is Single && fs[n - 1]->Single_0
            is None && inferred(elems[n - 1], fs[n - 1]->Single_1)
    }
}

fn literal_type(l: &Literal) -> (r: Option<TyKind>)
    ensures
        r == literal_kind(*l),
{
    match l {
        Literal::Null => Some(TyKind::Singleton(Literal::Null)),
        Literal::Integer(_) => Some(TyKind::Primitive(PrimitiveSet::Int)),
        Literal::Float(_) => Some(TyKind::Primitive(PrimitiveSet::Float)),
        Literal::Boolean(_) => Some(TyKind::Primitive(PrimitiveSet::Bool)),
        Literal::String(_) => Some(TyKind::Primitive(PrimitiveSet::Text)),
        Literal::Date(_) => Some(TyKind::Primitive(PrimitiveSet::Date)),
        Literal::Time(_) => Some(TyKind::Primitive(PrimitiveSet::Time)),
        Literal::Timestamp(_) => Some(TyKind::Primitive(PrimitiveSet::Timestamp)),
        Literal::ValueAndUnit(_) => None,
    }
}

/// Infers the type of a node without an environment. Identifiers, calls,
/// pipelines, ranges and the like are left for a later pass (`None`).
pub fn infer_type(node: &Expr) -> (r: Result<Option<Ty>, Error>)
    ensures
        r is Ok,
        inferred(*node, r->Ok_0),
    decreases *node, 0nat,
{
    if let Some(ty) = &node.ty {
        return Ok(Some(ty.copy()));
    }
    let kind = match &node.kind {
        ExprKind::Literal(literal) => match literal_type(literal) {
            Some(kind) => kind,
            None => return Ok(None),
        },
        ExprKind::FString(_) => TyKind::Primitive(PrimitiveSet::Text),
        ExprKind::Tuple(fields) => {
            let mut out: Vec<TupleField> = Vec::new();
            let mut i: usize = 0;
            assert(decreases_to!(node.kind => node.kind->Tuple_0));
            assert(decreases_to!(node.kind->Tuple_0 => node.kind->Tuple_0@));
            while i < fields.len()
                invariant
                    node.kind == ExprKind::Tuple(*fields),
                    node.ty is None,
                    decreases_to!(*node => fields@),
                    0 <= i <= fields@.len(),
                    out@.len() == i,
                    fields_inferred(fields@, out@, i as nat),
                decreases fields@.len() - i,
            {
                assert(decreases_to!(fields@ => fields@[i as int]));
                let ty = match infer_type(&fields[i]) {
                    Ok(ty) => ty,
                    Err(e) => return Err(e),
                };
                let ghost before = out@;
                out.push(TupleField::Single(None, ty));
                proof {
                    lemma_inferred_prefix(fields@, before, out@, i as nat);
                }
                i += 1;
            }
            TyKind::Tuple(out)
        },
        _ => return Ok(None),
    };
    Ok(Some(Ty { kind, name: None }))
}

proof fn lemma_inferred_prefix(elems: Seq<Expr>, fs: Seq<TupleField>, fs2: Seq<TupleField>, n: nat)
    requires
        n <= fs.len(),
        n <= fs2.len(),
        forall|k: int| 0 <= k < n ==> fs[k] == fs2[k],
    ensures
        fields_inferred(elems, fs, n) == fields_inferred(elems, fs2, n),
    decreases n,
{
    if n > 0 {
        lemma_inferred_prefix(elems, fs, fs2, (n - 1) as nat);
    }
}

/// The field list that a tuple is matched against: a tuple's own fields, or
/// those of the first alternative of a union that yields any.
pub open spec fn tuple_fields_of(t: Ty) -> Option<Seq<TupleField>>
    decreases t, 1nat,
{
    match t.kind {
        TyKind::Tuple(fs) => Some(fs@),
        TyKind::Union(alts) => first_tuple_fields(alts@, 0),
        _ => None,
    }
}

/// The field list of the first alternative, from the `i`-th on, that yields one.
pub open spec fn first_tuple_fields(alts: Seq<(Option<String>, Ty)>, i: nat) -> Option<
    Seq<TupleField>,
>
    decreases alts, alts.len() - i,
{
    if i >= alts.len() {
        None
    } else {
        match tuple_fields_of(alts[i as int].1) {
            Some(fs) => Some(fs),
            None => first_tuple_fields(alts, i + 1),
        }
    }
}

pub open spec fn opt_ty(o: Option<&Ty>) -> Option<Ty> {
    match o {
        Some(t) => Some(*t),
        None => None,
    }
}

/// Validating `f` against `exp` succeeds.
pub open spec fn validates(f: Expr, exp: Option<Ty>) -> bool
    decreases f, 0nat, 0nat,
{
    match exp {
        None => true,
        Some(e) => match f.ty {
            None => true,
            Some(ft) => if f.kind is Tuple && tuple_fields_of(e) is Some {
                let w = walk(f.kind->Tuple_0@, tuple_fields_of(e)->Some_0, 0);
                !w.0 && (w.1 || super_ty(e, ft))
            } else {
                super_ty(e, ft)
            },
        },
    }
}

/// Matching found fields against expected ones from position `i` on:
/// whether a nested validation fails, and whether the shapes match.
pub open spec fn walk(ffs: Seq<Expr>, efs: Seq<TupleField>, i: nat) -> (bool, bool)
    decreases ffs, 1nat, efs.len() - i,
{
    if i >= efs.len() {
        (false, i >= ffs.len())
    } else {
        match efs[i as int] {
            TupleField::Single(_, et) => if i >= ffs.len() {
                (false, false)
            } else if !validates(ffs[i as int], et) {
                (true, false)
            } else {
                walk(ffs, efs, i + 1)
            },
            TupleField::Wildcard(et) => (absorb_fails(ffs, et, i), true),
        }
    }
}

/// A wildcard takes every found field from position `i` on: one of them fails.
pub open spec fn absorb_fails(ffs: Seq<Expr>, et: Option<Ty>, i: nat) -> bool
    decreases ffs, 0nat, ffs.len() - i,
{
    if i >= ffs.len() {
        false
    } else {
        !validates(ffs[i as int], et) || absorb_fails(ffs, et, i + 1)
    }
}

/// The node that validating `f0` against `exp` leaves, when it succeeds: an untyped
/// node takes the expected type (and, untraced, a table of its own where a relation
/// is expected); a tuple has its fields validated in place.
pub open spec fn validated(f0: Expr, exp: Option<Ty>, f1: Expr) -> bool
    decreases f0, 0nat, 0nat,
{
    match exp {
        None => f1 == f0,
        Some(e) => match f0.ty {
            None => f1.id == f0.id && f1.kind == f0.kind && f1.span == f0.span && f1.alias
                == f0.alias && f1.ty is Some && same_ty(f1.ty->Some_0, e) && f1.lineage == (
            if f0.lineage is None && e.spec_is_relation() {
                Some(Lineage { input_id: f0.id, input_name: f0.alias })
            } else {
                f0.lineage
            }),
            Some(_) => if f0.kind is Tuple && tuple_fields_of(e) is Some {
                f1.id == f0.id && f1.span == f0.span && f1.alias == f0.alias && f1.ty == f0.ty
                    && f1.lineage == f0.lineage && f1.kind is Tuple && f1.kind->Tuple_0@.len()
                    == f0.kind->Tuple_0@.len() && walked(
                    f0.kind->Tuple_0@,
                    f1.kind->Tuple_0@,
                    tuple_fields_of(e)->Some_0,
                    0,
                )
            } else {
                f1 == f0
            },
        },
    }
}

/// Found fields from position `i` on, after a successful match.
pub open spec fn walked(ffs0: Seq<Expr>, ffs1: Seq<Expr>, efs: Seq<TupleField>, i: nat) -> bool
    decreases ffs0, 1nat, efs.len() - i,
{
    if i >= efs.len() || i >= ffs0.len() {
        forall|k: int| i <= k < ffs0.len() ==> ffs1[k] == ffs0[k]
    } else {
        match efs[i as int] {
            TupleField::Single(_, et) => validated(ffs0[i as int], et, ffs1[i as int]) && walked(
                ffs0,
                ffs1,
                efs,
                i + 1,
            ),
            TupleField::Wildcard(et) => absorbed(ffs0, ffs1, et, i),
        }
    }
}

pub open spec fn absorbed(ffs0: Seq<Expr>, ffs1: Seq<Expr>, et: Option<Ty>, i: nat) -> bool
    decreases ffs0, 0nat, ffs0.len() - i,
{
    if i >= ffs0.len() {
        true
    } else {
        validated(ffs0[i as int], et, ffs1[i as int]) && absorbed(ffs0, ffs1, et, i + 1)
    }
}

/// Identities of the nodes that a successful validation declares tables for, in order.
pub open spec fn declared(f0: Expr, exp: Option<Ty>) -> Seq<usize>
    decreases f0, 0nat, 0nat,
{
    match exp {
        None => seq![],
        Some(e) => match f0.ty {
            None => if f0.lineage is None && e.spec_is_relation() {
                seq![f0.id]
            } else {
                seq![]
            },
            Some(_) => if f0.kind is Tuple && tuple_fields_of(e) is Some {
                walk_declared(f0.kind->Tuple_0@, tuple_fields_of(e)->Some_0, 0)
            } else {
                seq![]
            },
        },
    }
}

pub open spec fn walk_declared(ffs: Seq<Expr>, efs: Seq<TupleField>, i: nat) -> Seq<usize>
    decreases ffs, 1nat, efs.len() - i,
{
    if i >= efs.len() || i >= ffs.len() {
        seq![]
    } else {
        match efs[i as int] {
            TupleField::Single(_, et) => declared(ffs[i as int], et) + walk_declared(
                ffs,
                efs,
                i + 1,
            ),
            TupleField::Wildcard(et) => absorb_declared(ffs, et, i),
        }
    }
}

pub open spec fn absorb_declared(ffs: Seq<Expr>, et: Option<Ty>, i: nat) -> Seq<usize>
    decreases ffs, 0nat, ffs.len() - i,
{
    if i >= ffs.len() {
        seq![]
    } else {
        declared(ffs[i as int], et) + absorb_declared(ffs, et, i + 1)
    }
}

/// The field list to match a tuple against, if `expected` offers one.
fn find_potential_tuple_fields(expected: &Ty) -> (r: Option<&Vec<TupleField>>)
    ensures
        r is None <==> tuple_fields_of(*expected) is None,
        r is Some ==> tuple_fields_of(*expected) == Some(r->Some_0@),
    decreases *expected, 1nat,
{
    match &expected.kind {
        TyKind::Tuple(fields) => Some(fields),
        TyKind::Union(variants) => {
            let mut i: usize = 0;
            assert(decreases_to!(expected.kind => expected.kind->Union_0));
            assert(decreases_to!(expected.kind->Union_0 => expected.kind->Union_0@));
            while i < variants.len()
                invariant
                    expected.kind == TyKind::Union(*variants),
                    decreases_to!(*expected => variants@),
                    0 <= i <= variants@.len(),
                    first_tuple_fields(variants@, 0) == first_tuple_fields(variants@, i as nat),
                decreases variants@.len() - i,
            {
                assert(decreases_to!(variants@ => variants@[i as int]));
                assert(decreases_to!(variants@[i as int] => variants@[i as int].1));
                if let Some(fields) = find_potential_tuple_fields(&variants[i].1) {
                    return Some(fields);
                }
                i += 1;
            }
            None
        },
        _ => None,
    }
}

/// The resolver's state, as far as validation touches it.
pub struct Context {
    /// Identities of the nodes that a table has been declared for, in order.
    pub inferred_tables: Vec<usize>,
}

impl Context {
    pub fn new() -> (r: Context)
        ensures
            r.inferred_tables@ == Seq::<usize>::empty(),
    {
        Context { inferred_tables: Vec::new() }
    }

    /// Declares a table for a literal node, so that its columns can be inferred
    /// like those of a table reference; returns the node's new lineage.
    pub fn declare_table_for_literal(&mut self, input_id: usize, name_hint: Option<String>) -> (r:
        Lineage)
        ensures
            final(self).inferred_tables@ == old(self).inferred_tables@.push(input_id),
            r == (Lineage { input_id, input_name: name_hint }),
    {
        self.inferred_tables.push(input_id);
        Lineage { input_id, input_name: name_hint }
    }
}

/// `p` occurs in `s`.
pub open spec fn has_substring(s: Seq<char>, p: Seq<char>) -> bool {
    exists|i: int| 0 <= i && i + p.len() <= s.len() && #[trigger] s.subrange(i, i + p.len()) == p
}

/// Whether `p` occurs in `s`.
pub fn contains_str(s: &str, p: &str) -> (r: bool)
    ensures
        r == has_substring(s@, p@),
{
    let n = s.unicode_len();
    let m = p.unicode_len();
    if m > n {
        proof {
            assert forall|i: int| 0 <= i && i + p@.len() <= s@.len() implies #[trigger] s@.subrange(
                i,
                i + p@.len(),
            ) != p@ by {}
        }
        return false;
    }
    let mut i: usize = 0;
    while i <= n - m
        invariant
            n == s@.len(),
            m == p@.len(),
            m <= n,
            i <= n - m + 1,
            forall|k: int| 0 <= k < i ==> #[trigger] s@.subrange(k, k + m) != p@,
        decreases n - i,
    {
        let mut j: usize = 0;
        let mut same = true;
        while j < m
            invariant
                n == s@.len(),
                m == p@.len(),
                i + m <= n,
                j <= m,
                same == (forall|t: int| 0 <= t < j ==> s@[i + t] == p@[t]),
            decreases m - j,
        {
            if s.get_char(i + j) != p.get_char(j) {
                same = false;
            }
            j += 1;
        }
        if same {
            assert(s@.subrange(i as int, i + m) =~= p@);
            return true;
        }
        assert(s@.subrange(i as int, i + m) != p@) by {
            let t = choose|t: int| 0 <= t < m && s@[i + t] != p@[t];
            assert(s@.subrange(i as int, i + m)[t] == s@[i + t]);
        }
        i += 1;
    }
    proof {
        assert forall|k: int| 0 <= k && k + p@.len() <= s@.len() implies #[trigger] s@.subrange(
            k,
            k + p@.len(),
        ) != p@ by {
            assert(k < i);
        }
    }
    false
}

/// The word a type is shown by when it has no name of its own.
pub open spec fn kind_word(k: TyKind) -> Seq<char> {
    match k {
        TyKind::Primitive(p) => match p {
            PrimitiveSet::Int => "int"@,
            PrimitiveSet::Float => "float"@,
            PrimitiveSet::Bool => "bool"@,
            PrimitiveSet::Text => "text"@,
            PrimitiveSet::Date => "date"@,
            PrimitiveSet::Time => "time"@,
            PrimitiveSet::Timestamp => "timestamp"@,
        },
        TyKind::Singleton(_) => "singleton"@,
        TyKind::Union(_) => "union"@,
        TyKind::Tuple(_) => "tuple"@,
        TyKind::Array(_) => "array"@,
        TyKind::Any => "anytype"@,
        TyKind::Function(_) => "func"@,
    }
}

/// How a type is named in a diagnostic.
pub open spec fn described(t: Ty) -> Seq<char> {
    if t.kind is Tuple {
        "a tuple"@
    } else {
        "type `"@ + match t.name {
            Some(n) => n@,
            None => kind_word(t.kind),
        } + "`"@
    }
}

fn kind_word_of(k: &TyKind) -> (r: String)
    ensures
        r@ == kind_word(*k),
{
    match k {
        TyKind::Primitive(p) => match p {
            PrimitiveSet::Int => "int".to_owned(),
            PrimitiveSet::Float => "float".to_owned(),
            PrimitiveSet::Bool => "bool".to_owned(),
            PrimitiveSet::Text => "text".to_owned(),
            PrimitiveSet::Date => "date".to_owned(),
            PrimitiveSet::Time => "time".to_owned(),
            PrimitiveSet::Timestamp => "timestamp".to_owned(),
        },
        TyKind::Singleton(_) => "singleton".to_owned(),
        TyKind::Union(_) => "union".to_owned(),
        TyKind::Tuple(_) => "tuple".to_owned(),
        TyKind::Array(_) => "array".to_owned(),
        TyKind::Any => "anytype".to_owned(),
        TyKind::Function(_) => "func".to_owned(),
    }
}

fn describe(t: &Ty) -> (r: String)
    ensures
        r@ == described(*t),
{
    if t.is_tuple() {
        return "a tuple".to_owned();
    }
    let shown = match &t.name {
        Some(n) => n.clone(),
        None => kind_word_of(&t.kind),
    };
    let mut out = "type `".to_owned();
    out.append(shown.as_str());
    out.append("`");
    out
}

/// The hint attached to a type mismatch, if any: a function where a value was
/// expected suggests a missing argument; a tuple handed to a join where something
/// else was expected suggests parentheses instead of braces.
pub open spec fn mismatch_help(f: Expr, ft: Ty, e: Ty, who: Option<String>) -> Option<Seq<char>> {
    if ft.kind is Function && !(e.kind is Function) {
        Some(
            match f.kind {
                ExprKind::Func(func) => match func.name_hint {
                    Some(n) => "Have you forgotten an argument to function "@ + n@ + "?"@,
                    None => "Have you forgotten an argument in this function call?"@,
                },
                _ => "Have you forgotten an argument in this function call?"@,
            },
        )
    } else if who is Some && has_substring(who->Some_0@, "std.join"@) && ft.kind is Tuple && !(
    e.kind is Tuple) {
        Some("Try using `(...)` instead of `{...}`"@)
    } else {
        None
    }
}

/// `err` is the mismatch diagnostic for node `f` of type `ft` where `e` was expected.
pub open spec fn is_mismatch(err: Error, f: Expr, ft: Ty, e: Ty, who: Option<String>) -> bool {
    &&& err.reason is Expected
    &&& err.reason->who == who
    &&& err.reason->expected@ == described(e)
    &&& err.reason->found@ == described(ft)
    &&& err.span == f.span
    &&& match (err.help, mismatch_help(f, ft, e, who)) {
        (None, None) => true,
        (Some(h), Some(m)) => h@ == m,
        _ => false,
    }
}

fn mismatch(found: &Expr, found_ty: &Ty, expected: &Ty, who: &Option<String>) -> (r: Error)
    ensures
        is_mismatch(r, *found, *found_ty, *expected, *who),
{
    let who_copy = match who {
        Some(w) => Some(w.clone()),
        None => None,
    };
    let e = Error::new(
        Reason::Expected {
            who: who_copy,
            expected: describe(expected),
            found: describe(found_ty),
        },
    );
    let e = Error { span: found.span, ..e };
    if found_ty.is_function() && !expected.is_function() {
        let help = match &found.kind {
            ExprKind::Func(func) => match &func.name_hint {
                Some(n) => {
                    let mut h = "Have you forgotten an argument to function ".to_owned();
                    h.append(n.as_str());
                    h.append("?");
                    h
                },
                None => "Have you forgotten an argument in this function call?".to_owned(),
            },
            _ => "Have you forgotten an argument in this function call?".to_owned(),
        };
        return e.with_help(help);
    }
    let is_join = match who {
        Some(w) => contains_str(w.as_str(), "std.join"),
        None => false,
    };
    if is_join && found_ty.is_tuple() && !expected.is_tuple() {
        return e.with_help("Try using `(...)` instead of `{...}`".to_owned());
    }
    e
}

/// The failure of validating `f` against `exp` comes from a nested field.
pub open spec fn nested_failure(f: Expr, exp: Option<Ty>) -> bool {
    &&& exp is Some
    &&& f.ty is Some
    &&& f.kind is Tuple
    &&& tuple_fields_of(exp->Some_0) is Some
    &&& walk(f.kind->Tuple_0@, tuple_fields_of(exp->Some_0)->Some_0, 0).0
}

/// Where a failing match of found fields against expected ones fails: the index
/// of the first field whose validation fails, and the type it was held to.
pub open spec fn walk_failure(ffs: Seq<Expr>, efs: Seq<TupleField>, i: nat) -> (int, Option<Ty>)
    decreases efs.len() - i,
{
    if i >= efs.len() {
        (0, None)
    } else {
        match efs[i as int] {
            TupleField::Single(_, et) => if i >= ffs.len() {
                (0, None)
            } else if !validates(ffs[i as int], et) {
                (i as int, et)
            } else {
                walk_failure(ffs, efs, i + 1)
            },
            TupleField::Wildcard(et) => (absorb_failure(ffs, et, i), et),
        }
    }
}

/// The first field, from the `i`-th on, that fails validation against `et`.
pub open spec fn absorb_failure(ffs: Seq<Expr>, et: Option<Ty>, i: nat) -> int
    decreases ffs.len() - i,
{
    if i >= ffs.len() {
        0
    } else if !validates(ffs[i as int], et) {
        i as int
    } else {
        absorb_failure(ffs, et, i + 1)
    }
}

/// `err` is the error that validating `f` against `exp` fails with: that of the
/// first failing field of a tuple, unchanged, or else the mismatch diagnostic.
pub open spec fn validation_error(f: Expr, exp: Option<Ty>, who: Option<String>, err: Error) -> bool
    decreases f,
{
    if nested_failure(f, exp) {
        let ffs = f.kind->Tuple_0@;
        let w = walk_failure(ffs, tuple_fields_of(exp->Some_0)->Some_0, 0);
        0 <= w.0 < ffs.len() && validation_error(ffs[w.0], w.1, who, err)
    } else {
        is_mismatch(err, f, f.ty->Some_0, exp->Some_0, who)
    }
}

impl Context {
    /// Validates that the node `found` has the type `expected`, or infers it: an
    /// untyped node takes the expected type; a tuple is matched field by field,
    /// each field validated in place; otherwise the expected type must be a
    /// supertype of the node's. `who` names the construct for diagnostics.
    pub fn validate_type(&mut self, found: &mut Expr, expected: Option<&Ty>, who: &Option<String>) -> (r:
        Result<(), Error>)
        ensures
            r is Ok <==> validates(*old(found), opt_ty(expected)),
            r is Ok ==> validated(*old(found), opt_ty(expected), *final(found)),
            r is Ok ==> final(self).inferred_tables@ == old(self).inferred_tables@ + declared(
                *old(found),
                opt_ty(expected),
            ),
            r is Err ==> validation_error(*old(found), opt_ty(expected), *who, r->Err_0),
            r is Err && !(old(found).kind is Tuple) ==> *final(found) == *old(found)
                && final(self).inferred_tables@ == old(self).inferred_tables@,
        decreases *old(found), 0nat, 0nat,
    {
        let expected = match expected {
            Some(e) => e,
            None => return Ok(()),
        };
        if found.ty.is_none() {
            if found.lineage.is_none() && expected.is_relation() {
                // an untraced node where a relation is expected gets a table of its
                // own, so that its columns can be inferred like a table reference's
                let alias = crate::types::copy_name(&found.alias);
                let frame = self.declare_table_for_literal(found.id, alias);
                found.lineage = Some(frame);
            }
            found.ty = Some(expected.copy());
            return Ok(());
        }
        let ghost f0 = *found;
        let matched = match &mut found.kind {
            ExprKind::Tuple(found_fields) => {
                assert(decreases_to!(f0 => f0.kind));
                match self.validate_tuple_type(found_fields, expected, who) {
                    Ok(b) => b,
                    Err(e) => return Err(e),
                }
            },
            _ => false,
        };
        if matched {
            return Ok(());
        }
        let above = match &found.ty {
            Some(ft) => expected.is_super_type_of(ft),
            None => false,
        };
        if above {
            return Ok(());
        }
        match &found.ty {
            Some(ft) => Err(mismatch(found, ft, expected, who)),
            None => Err(Error::simple("a validated node has a type")),
        }
    }

    /// Matches the fields of a found tuple against the field list that `expected`
    /// offers. `Ok(false)` where it offers none or the counts differ.
    fn validate_tuple_type(
        &mut self,
        found_fields: &mut Vec<Expr>,
        expected: &Ty,
        who: &Option<String>,
    ) -> (r: Result<bool, Error>)
        ensures
            tuple_fields_of(*expected) is None ==> r == Ok::<bool, Error>(false)
                && *final(found_fields) == *old(found_fields)
                && final(self).inferred_tables@ == old(self).inferred_tables@,
            tuple_fields_of(*expected) is Some ==> {
                let efs = tuple_fields_of(*expected)->Some_0;
                let w = walk(old(found_fields)@, efs, 0);
                &&& (r is Err <==> w.0)
                &&& (r is Ok ==> r->Ok_0 == w.1)
                &&& (r is Ok ==> final(found_fields)@.len() == old(found_fields)@.len())
                &&& (r is Ok ==> walked(old(found_fields)@, final(found_fields)@, efs, 0))
                &&& (r is Ok ==> final(self).inferred_tables@ == old(self).inferred_tables@
                    + walk_declared(old(found_fields)@, efs, 0))
                &&& (r is Err ==> {
                    let j = walk_failure(old(found_fields)@, efs, 0);
                    &&& 0 <= j.0 < old(found_fields)@.len()
                    &&& validation_error(old(found_fields)@[j.0], j.1, *who, r->Err_0)
                    &&& final(found_fields)@.len() == old(found_fields)@.len()
                    &&& forall|k: int|
                        j.0 < k < old(found_fields)@.len() ==> final(found_fields)@[k] == old(
                            found_fields,
                        )@[k]
                })
            },
        decreases *old(found_fields), 1nat, 0nat,
    {
        let expected_fields = match find_potential_tuple_fields(expected) {
            Some(fields) => fields,
            None => return Ok(false),
        };
        let ghost f0 = found_fields@;
        let ghost efs = expected_fields@;
        let ghost t0 = self.inferred_tables@;
        let ghost mut acc: Seq<usize> = seq![];
        let mut i: usize = 0;
        while i < expected_fields.len()
            invariant
                efs == expected_fields@,
                tuple_fields_of(*expected) == Some(efs),
                f0 == old(found_fields)@,
                t0 == old(self).inferred_tables@,
                found_fields@.len() == f0.len(),
                i <= efs.len(),
                i <= f0.len(),
                forall|k: int| i <= k < f0.len() ==> found_fields@[k] == f0[k],
                forall|k: int|
                    0 <= k < i ==> #[trigger] efs[k] is Single && validated(
                        f0[k],
                        efs[k]->Single_1,
                        found_fields@[k],
                    ),
                walk(f0, efs, 0) == walk(f0, efs, i as nat),
                walk_failure(f0, efs, 0) == walk_failure(f0, efs, i as nat),
                self.inferred_tables@ == t0 + acc,
                walk_declared(f0, efs, 0) == acc + walk_declared(f0, efs, i as nat),
                decreases_to!(*old(found_fields) => f0),
            decreases efs.len() - i,
        {
            match &expected_fields[i] {
                TupleField::Single(_, expected_kind) => {
                    if i >= found_fields.len() {
                        proof {
                            lemma_walked_from(f0, found_fields@, efs, 0, i as nat);
                        }
                        return Ok(false);
                    }
                    let et: Option<&Ty> = match expected_kind {
                        Some(t) => Some(t),
                        None => None,
                    };
                    let ghost before = found_fields@;
                    let ghost tb = self.inferred_tables@;
                    assert(decreases_to!(f0 => f0[i as int]));
                    match self.validate_type(&mut found_fields[i], et, who) {
                        Ok(()) => {},
                        Err(e) => return Err(e),
                    }
                    proof {
                        assert(found_fields@ == before.update(i as int, found_fields@[i as int]));
                        let d = declared(f0[i as int], *expected_kind);
                        assert(walk_declared(f0, efs, i as nat) == d + walk_declared(
                            f0,
                            efs,
                            (i + 1) as nat,
                        ));
                        assert(self.inferred_tables@ == tb + d);
                        assert(acc + (d + walk_declared(f0, efs, (i + 1) as nat)) =~= (acc + d)
                            + walk_declared(f0, efs, (i + 1) as nat));
                        assert(t0 + acc + d =~= t0 + (acc + d));
                        acc = acc + d;
                    }
                },
                TupleField::Wildcard(expected_wildcard) => {
                    let et: Option<&Ty> = match expected_wildcard {
                        Some(t) => Some(t),
                        None => None,
                    };
                    let ghost start = i;
                    let ghost mut acc2: Seq<usize> = seq![];
                    let mut k: usize = i;
                    while k < found_fields.len()
                        invariant
                            efs == expected_fields@,
                            tuple_fields_of(*expected) == Some(efs),
                            f0 == old(found_fields)@,
                            t0 == old(self).inferred_tables@,
                            start < efs.len(),
                            efs[start as int] == TupleField::Wildcard(*expected_wildcard),
                            opt_ty(et) == *expected_wildcard,
                            found_fields@.len() == f0.len(),
                            start <= k <= f0.len(),
                            forall|m: int| k <= m < f0.len() ==> found_fields@[m] == f0[m],
                            forall|m: int|
                                0 <= m < start ==> #[trigger] efs[m] is Single && validated(
                                    f0[m],
                                    efs[m]->Single_1,
                                    found_fields@[m],
                                ),
                            forall|m: int|
                                start <= m < k ==> validated(
                                    f0[m],
                                    *expected_wildcard,
                                    #[trigger] found_fields@[m],
                                ),
                            walk(f0, efs, 0) == walk(f0, efs, start as nat),
                            walk_failure(f0, efs, 0) == walk_failure(f0, efs, start as nat),
                            absorb_failure(f0, *expected_wildcard, start as nat) == absorb_failure(
                                f0,
                                *expected_wildcard,
                                k as nat,
                            ),
                            absorb_fails(f0, *expected_wildcard, start as nat) == absorb_fails(
                                f0,
                                *expected_wildcard,
                                k as nat,
                            ),
                            self.inferred_tables@ == t0 + acc + acc2,
                            walk_declared(f0, efs, 0) == acc + walk_declared(f0, efs, start as nat),
                            absorb_declared(f0, *expected_wildcard, start as nat) == acc2
                                + absorb_declared(f0, *expected_wildcard, k as nat),
                            decreases_to!(*old(found_fields) => f0),
                        decreases f0.len() - k,
                    {
                        let ghost before = found_fields@;
                        let ghost tb = self.inferred_tables@;
                        assert(decreases_to!(f0 => f0[k as int]));
                        match self.validate_type(&mut found_fields[k], et, who) {
                            Ok(()) => {},
                            Err(e) => {
                                assert(absorb_fails(f0, *expected_wildcard, k as nat));
                                assert(walk(f0, efs, start as nat).0);
                                return Err(e);
                            },
                        }
                        proof {
                            assert(found_fields@ == before.update(k as int, found_fields@[k as int]));
                            let d = declared(f0[k as int], *expected_wildcard);
                            let rest = absorb_declared(f0, *expected_wildcard, (k + 1) as nat);
                            assert(acc2 + (d + rest) =~= (acc2 + d) + rest);
                            assert(t0 + acc + acc2 + d =~= t0 + acc + (acc2 + d));
                            acc2 = acc2 + d;
                        }
                        k += 1;
                    }
                    proof {
                        lemma_absorbed_from(f0, found_fields@, *expected_wildcard, start as nat);
                        lemma_walked_from(f0, found_fields@, efs, 0, start as nat);
                        assert(acc + acc2 =~= acc + (acc2 + seq![]));
                        assert(t0 + acc + acc2 =~= t0 + (acc + acc2));
                    }
                    return Ok(true);
                },
            }
            i += 1;
        }
        proof {
            lemma_walked_from(f0, found_fields@, efs, 0, i as nat);
            assert(acc + seq![] =~= acc);
        }
        Ok(i >= found_fields.len())
    }
}

proof fn lemma_walked_from(ffs0: Seq<Expr>, ffs1: Seq<Expr>, efs: Seq<TupleField>, j: nat, i: nat)
    requires
        j <= i <= efs.len(),
        i <= ffs0.len(),
        forall|k: int|
            0 <= k < i ==> #[trigger] efs[k] is Single && validated(
                ffs0[k],
                efs[k]->Single_1,
                ffs1[k],
            ),
        walked(ffs0, ffs1, efs, i),
    ensures
        walked(ffs0, ffs1, efs, j),
    decreases i - j,
{
    if j < i {
        lemma_walked_from(ffs0, ffs1, efs, j + 1, i);
        assert(efs[j as int] is Single);
    }
}

proof fn lemma_absorbed_from(ffs0: Seq<Expr>, ffs1: Seq<Expr>, et: Option<Ty>, j: nat)
    requires
        j <= ffs0.len(),
        forall|m: int| j <= m < ffs0.len() ==> validated(ffs0[m], et, #[trigger] ffs1[m]),
    ensures
        absorbed(ffs0, ffs1, et, j),
    decreases ffs0.len() - j,
{
    if j < ffs0.len() {
        lemma_absorbed_from(ffs0, ffs1, et, j + 1);
    }
}

/// An already resolved type evaluates to itself, unchanged.
pub proof fn lemma_resolved_type_is_fixed(ty: Ty, t: Ty)
    ensures
        !eval_fails(ExprKind::Type(ty)),
        evaluates_to(ExprKind::Type(ty), t) <==> t == ty,
{
}

/// An array type expression evaluates exactly when it has one element and that
/// element evaluates; with none or several it fails with the arity message.
/// With one, the result is an unnamed array of the element's type, whatever the
/// element's alias.
pub proof fn lemma_array_arity(elems: Vec<Expr>, t: Ty, x: Ty)
    ensures
        eval_fails(ExprKind::Array(elems)) <==> (elems@.len() != 1 || eval_fails(elems@[0].kind)),
        elems@.len() != 1 ==> eval_fails(ExprKind::Array(elems)) && eval_error(
            ExprKind::Array(elems),
        ) == (arity_message(), None::<Span>),
        elems@.len() == 1 && evaluates_to(elems@[0].kind, x) && t == (Ty {
            name: None,
            kind: TyKind::Array(Box::new(x.kind)),
        }) ==> evaluates_to(ExprKind::Array(elems), t),
        evaluates_to(ExprKind::Array(elems), t) ==> t.name is None && t.kind is Array
            && kind_evaluates_to(elems@[0].kind, *t.kind->Array_0),
{
    if elems@.len() == 1 && evaluates_to(elems@[0].kind, x) {
        lemma_alternatives(elems@[0].kind, x);
    }
}

/// Neither a union expression nor a resolved union.
pub open spec fn single_alternative(k: ExprKind) -> bool {
    !(k is Binary) && !(k is Type && k->Type_0.kind is Union)
}

/// `a | (b | c)`, where none of the three is itself a union, evaluates to one
/// union of three alternatives, none of which is a union.
pub proof fn lemma_union_flattening(
    a: Expr,
    b: Expr,
    c: Expr,
    inner: Box<Expr>,
    outer: ExprKind,
    t: Ty,
)
    requires
        single_alternative(a.kind),
        single_alternative(b.kind),
        single_alternative(c.kind),
        inner.kind == (ExprKind::Binary { left: Box::new(b), op: BinOp::Or, right: Box::new(c) }),
        outer == (ExprKind::Binary { left: Box::new(a), op: BinOp::Or, right: inner }),
        evaluates_to(outer, t),
    ensures
        t.kind is Union,
        t.kind->Union_0@.len() == 3,
        forall|i: int| 0 <= i < 3 ==> !(#[trigger] t.kind->Union_0@[i].1.kind is Union),
{
    let alts = t.kind->Union_0@;
    assert(contributes(outer, alts));
    assert(contribution_len(a.kind) == 1);
    assert(contribution_len(b.kind) == 1);
    assert(contribution_len(c.kind) == 1);
    assert(contribution_len(inner.kind) == 2);
    let rest = alts.subrange(1, 3);
    assert(contributes(a.kind, alts.subrange(0, 1)));
    assert(contributes(inner.kind, rest));
    assert(contributes(b.kind, rest.subrange(0, 1)));
    assert(contributes(c.kind, rest.subrange(1, 2)));
    lemma_single_alternative(a.kind, alts.subrange(0, 1));
    lemma_single_alternative(b.kind, rest.subrange(0, 1));
    lemma_single_alternative(c.kind, rest.subrange(1, 2));
    assert(alts[0] == alts.subrange(0, 1)[0]);
    assert(alts[1] == rest.subrange(0, 1)[0]);
    assert(alts[2] == rest.subrange(1, 2)[0]);
}

/// The resolved unions among the leaves of a union expression hold no union
/// among their alternatives.
pub open spec fn flat_leaves(k: ExprKind) -> bool
    decreases k,
{
    match k {
        ExprKind::Binary { left, op, right } => flat_leaves(left.kind) && flat_leaves(right.kind),
        ExprKind::Type(ty) => match ty.kind {
            TyKind::Union(parts) => forall|i: int|
                0 <= i < parts@.len() ==> !(#[trigger] parts@[i].1.kind is Union),
            _ => true,
        },
        _ => true,
    }
}

/// A union expression of any shape, whose leaves are flat, evaluates to one
/// union holding, in order, each leaf's alternatives: one for a leaf that is not
/// a union, its own alternatives for one that is; none of them is a union.
pub proof fn lemma_union_flattening_general(k: ExprKind, t: Ty)
    requires
        k is Binary,
        flat_leaves(k),
        evaluates_to(k, t),
    ensures
        t.kind is Union,
        contributes(k, t.kind->Union_0@),
        t.kind->Union_0@.len() == contribution_len(k),
        forall|i: int|
            0 <= i < t.kind->Union_0@.len() ==> !(#[trigger] t.kind->Union_0@[i].1.kind is Union),
{
    lemma_contributions_flat(k, t.kind->Union_0@);
}

proof fn lemma_contributions_flat(k: ExprKind, s: Seq<(Option<String>, Ty)>)
    requires
        flat_leaves(k),
        contributes(k, s),
    ensures
        s.len() == contribution_len(k),
        forall|i: int| 0 <= i < s.len() ==> !(#[trigger] s[i].1.kind is Union),
    decreases k,
{
    match k {
        ExprKind::Binary { left, op, right } => {
            let n = contribution_len(left.kind);
            let a = s.subrange(0, n as int);
            let b = s.subrange(n as int, s.len() as int);
            lemma_contributions_flat(left.kind, a);
            lemma_contributions_flat(right.kind, b);
            assert forall|i: int| 0 <= i < s.len() implies !(#[trigger] s[i].1.kind is Union) by {
                if i < n {
                    assert(s[i] == a[i]);
                } else {
                    assert(s[i] == b[i - n]);
                }
            }
        },
        ExprKind::Type(ty) => {},
        _ => {
            assert(evaluates_to(k, s[0].1));
        },
    }
}

proof fn lemma_single_alternative(k: ExprKind, s: Seq<(Option<String>, Ty)>)
    requires
        single_alternative(k),
        contributes(k, s),
    ensures
        s.len() == 1,
        !(s[0].1.kind is Union),
{
    match k {
        ExprKind::Type(ty) => {},
        _ => {
            assert(evaluates_to(k, s[0].1));
        },
    }
}

/// An untyped node validated against an expected type ends up with exactly that type.
pub proof fn lemma_inference_fill(f0: Expr, e: Ty, f1: Expr)
    requires
        f0.ty is None,
        validated(f0, Some(e), f1),
    ensures
        validates(f0, Some(e)),
        f1.ty is Some,
        same_ty(f1.ty->Some_0, e),
{
}

/// A typed tuple of untyped fields validated against `{x..}` succeeds, and every
/// field ends up with type `x`.
pub proof fn lemma_wildcard_absorbs(f0: Expr, x: Ty, exp: Ty, f1: Expr)
    requires
        f0.ty is Some,
        f0.kind is Tuple,
        forall|i: int|
            0 <= i < f0.kind->Tuple_0@.len() ==> (#[trigger] f0.kind->Tuple_0@[i]).ty is None,
        exp.kind is Tuple,
        exp.kind->Tuple_0@ == seq![TupleField::Wildcard(Some(x))],
        validated(f0, Some(exp), f1),
    ensures
        validates(f0, Some(exp)),
        f1.kind is Tuple,
        f1.kind->Tuple_0@.len() == f0.kind->Tuple_0@.len(),
        forall|i: int|
            0 <= i < f1.kind->Tuple_0@.len() ==> (#[trigger] f1.kind->Tuple_0@[i]).ty is Some
                && same_ty(f1.kind->Tuple_0@[i].ty->Some_0, x),
{
    let ffs0 = f0.kind->Tuple_0@;
    let ffs1 = f1.kind->Tuple_0@;
    let efs = exp.kind->Tuple_0@;
    assert(tuple_fields_of(exp) == Some(efs));
    lemma_absorb_untyped(ffs0, Some(x), 0);
    assert(walk(ffs0, efs, 0) == (false, true));
    assert(walked(ffs0, ffs1, efs, 0));
    assert forall|i: int| 0 <= i < ffs1.len() implies (#[trigger] ffs1[i]).ty is Some && same_ty(
        ffs1[i].ty->Some_0,
        x,
    ) by {
        lemma_absorbed_at(ffs0, ffs1, Some(x), 0, i as nat);
    }
}

proof fn lemma_absorb_untyped(ffs: Seq<Expr>, et: Option<Ty>, i: nat)
    requires
        forall|k: int| 0 <= k < ffs.len() ==> (#[trigger] ffs[k]).ty is None,
    ensures
        !absorb_fails(ffs, et, i),
    decreases ffs.len() - i,
{
    if i < ffs.len() {
        assert(ffs[i as int].ty is None);
        assert(validates(ffs[i as int], et));
        lemma_absorb_untyped(ffs, et, i + 1);
    }
}

proof fn lemma_absorbed_at(ffs0: Seq<Expr>, ffs1: Seq<Expr>, et: Option<Ty>, j: nat, i: nat)
    requires
        absorbed(ffs0, ffs1, et, j),
        j <= i < ffs0.len(),
    ensures
        validated(ffs0[i as int], et, ffs1[i as int]),
    decreases i - j,
{
    if j < i {
        lemma_absorbed_at(ffs0, ffs1, et, j + 1, i);
    }
}

proof fn lemma_fields_prefix(elems: Seq<Expr>, fs: Seq<TupleField>, fs2: Seq<TupleField>, n: nat)
    requires
        n <= fs.len(),
        n <= fs2.len(),
        forall|k: int| 0 <= k < n ==> fs[k] == fs2[k],
    ensures
        fields_evaluate_to(elems, fs, n) == fields_evaluate_to(elems, fs2, n),
    decreases n,
{
    if n > 0 {
        lemma_fields_prefix(elems, fs, fs2, (n - 1) as nat);
    }
}

proof fn lemma_some_fails_grows(elems: Seq<Expr>, m: nat, n: nat)
    requires
        some_fails(elems, m),
        m <= n <= elems.len(),
    ensures
        some_fails(elems, n),
    decreases n - m,
{
    if m < n {
        lemma_some_fails_grows(elems, m, (n - 1) as nat);
    }
}

} // verus!
