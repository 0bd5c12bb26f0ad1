use prql_core::ast::{
    BinOp, Expr, ExprKind, Func, Literal, PrimitiveSet, Range, Span, TupleField, Ty, TyKind,
};
use prql_core::error::Reason;
use prql_core::type_resolver::{coerce_to_type, contains_str, infer_type, Context};

fn node(kind: ExprKind) -> Expr {
    Expr { id: 0, kind, span: None, alias: None, ty: None, lineage: None }
}

fn prim(p: PrimitiveSet) -> Ty {
    Ty { name: None, kind: TyKind::Primitive(p) }
}

fn named(name: &str, p: PrimitiveSet) -> Ty {
    Ty { name: Some(name.to_string()), kind: TyKind::Primitive(p) }
}

fn is_prim(t: &Ty, p: PrimitiveSet) -> bool {
    matches!(t.kind, TyKind::Primitive(q) if q == p)
}

fn type_node(t: Ty) -> Expr {
    node(ExprKind::Type(t))
}

fn or(left: Expr, right: Expr) -> Expr {
    node(ExprKind::Binary { left: Box::new(left), op: BinOp::Or, right: Box::new(right) })
}

fn int_tuple(values: &[i64]) -> Expr {
    node(ExprKind::Tuple(values.iter().map(|v| node(ExprKind::Literal(Literal::Integer(*v)))).collect()))
}

#[test]
fn resolved_type_is_returned_unchanged() {
    let t = coerce_to_type(type_node(named("my_int", PrimitiveSet::Int))).unwrap();
    assert_eq!(t.name.as_deref(), Some("my_int"));
    assert!(is_prim(&t, PrimitiveSet::Int));
}

#[test]
fn literal_becomes_singleton() {
    let t = coerce_to_type(node(ExprKind::Literal(Literal::Integer(5)))).unwrap();
    assert!(t.name.is_none());
    assert!(matches!(t.kind, TyKind::Singleton(Literal::Integer(5))));
}

#[test]
fn union_is_flattened() {
    let e = or(
        type_node(named("a", PrimitiveSet::Int)),
        or(type_node(named("b", PrimitiveSet::Text)), type_node(named("c", PrimitiveSet::Bool))),
    );
    let t = coerce_to_type(e).unwrap();
    match t.kind {
        TyKind::Union(alts) => {
            assert_eq!(alts.len(), 3);
            let names: Vec<_> = alts.iter().map(|(n, _)| n.clone().unwrap()).collect();
            assert_eq!(names, vec!["a", "b", "c"]);
            assert!(alts.iter().all(|(_, t)| !matches!(t.kind, TyKind::Union(_))));
            assert!(is_prim(&alts[1].1, PrimitiveSet::Text));
        }
        _ => panic!("expected a union"),
    }
}

#[test]
fn union_left_nested_is_flattened() {
    let e = or(or(type_node(prim(PrimitiveSet::Int)), type_node(prim(PrimitiveSet::Text))), type_node(prim(PrimitiveSet::Bool)));
    let t = coerce_to_type(e).unwrap();
    assert!(matches!(&t.kind, TyKind::Union(alts) if alts.len() == 3 && alts.iter().all(|(n, _)| n.is_none())));
}

#[test]
fn wildcard_sugar_with_type() {
    let range = Range { start: Some(Box::new(type_node(prim(PrimitiveSet::Int)))), end: None };
    let t = coerce_to_type(node(ExprKind::Tuple(vec![node(ExprKind::Range(range))]))).unwrap();
    match t.kind {
        TyKind::Tuple(fields) => {
            assert_eq!(fields.len(), 1);
            assert!(matches!(&fields[0], TupleField::Wildcard(Some(x)) if is_prim(x, PrimitiveSet::Int)));
        }
        _ => panic!("expected a tuple"),
    }
}

#[test]
fn wildcard_sugar_without_type() {
    let range = Range { start: None, end: None };
    let t = coerce_to_type(node(ExprKind::Tuple(vec![node(ExprKind::Range(range))]))).unwrap();
    assert!(matches!(&t.kind, TyKind::Tuple(fields) if fields.len() == 1 && matches!(fields[0], TupleField::Wildcard(None))));
}

#[test]
fn closed_range_is_not_wildcard() {
    let range = Range { start: None, end: Some(Box::new(type_node(prim(PrimitiveSet::Int)))) };
    let r = coerce_to_type(node(ExprKind::Tuple(vec![node(ExprKind::Range(range))])));
    assert!(r.is_err());
}

#[test]
fn tuple_fields_keep_aliases() {
    let mut a = type_node(prim(PrimitiveSet::Int));
    a.alias = Some("x".to_string());
    let b = type_node(prim(PrimitiveSet::Text));
    let t = coerce_to_type(node(ExprKind::Tuple(vec![a, b]))).unwrap();
    match t.kind {
        TyKind::Tuple(fields) => {
            assert_eq!(fields.len(), 2);
            assert!(matches!(&fields[0], TupleField::Single(Some(n), Some(x)) if n == "x" && is_prim(x, PrimitiveSet::Int)));
            assert!(matches!(&fields[1], TupleField::Single(None, Some(x)) if is_prim(x, PrimitiveSet::Text)));
        }
        _ => panic!("expected a tuple"),
    }
}

#[test]
fn array_arity() {
    assert!(coerce_to_type(node(ExprKind::Array(vec![]))).is_err());
    let two = vec![type_node(prim(PrimitiveSet::Int)), type_node(prim(PrimitiveSet::Int))];
    let err = coerce_to_type(node(ExprKind::Array(two))).unwrap_err();
    assert!(matches!(err.reason, Reason::Simple(m) if m == "For type expressions, arrays must contain exactly one element."));
    let t = coerce_to_type(node(ExprKind::Array(vec![type_node(named("n", PrimitiveSet::Int))]))).unwrap();
    assert!(t.name.is_none());
    assert!(matches!(t.kind, TyKind::Array(inner) if matches!(*inner, TyKind::Primitive(PrimitiveSet::Int))));
}

#[test]
fn identifier_is_not_a_type_expression() {
    let err = coerce_to_type(node(ExprKind::Ident("x".to_string()))).unwrap_err();
    assert!(matches!(err.reason, Reason::Simple(m) if m == "not a type expression: `x`"));
    let and = node(ExprKind::Binary {
        left: Box::new(type_node(prim(PrimitiveSet::Int))),
        op: BinOp::And,
        right: Box::new(type_node(prim(PrimitiveSet::Int))),
    });
    let err = coerce_to_type(and).unwrap_err();
    assert!(matches!(err.reason, Reason::Simple(m) if m == "not a type expression: a binary operation other than `||`"));
}

#[test]
fn array_element_failure_is_located() {
    let mut bad = node(ExprKind::Ident("y".to_string()));
    bad.span = Some(Span { start: 7, end: 8 });
    let err = coerce_to_type(node(ExprKind::Array(vec![bad]))).unwrap_err();
    assert_eq!(err.span, Some(Span { start: 7, end: 8 }));
    assert!(matches!(err.reason, Reason::Simple(m) if m == "not a type expression: `y`"));
}

#[test]
fn inner_location_is_kept() {
    let mut bad = node(ExprKind::Ident("z".to_string()));
    bad.span = Some(Span { start: 5, end: 6 });
    let mut inner = node(ExprKind::Tuple(vec![type_node(prim(PrimitiveSet::Int)), bad]));
    inner.span = Some(Span { start: 1, end: 9 });
    let err = coerce_to_type(node(ExprKind::Tuple(vec![inner, type_node(prim(PrimitiveSet::Int))]))).unwrap_err();
    assert_eq!(err.span, Some(Span { start: 5, end: 6 }));
}

#[test]
fn nested_failure_is_located() {
    let mut bad = node(ExprKind::Ident("x".to_string()));
    bad.span = Some(Span { start: 3, end: 4 });
    let e = node(ExprKind::Tuple(vec![type_node(prim(PrimitiveSet::Int)), bad]));
    let err = coerce_to_type(e).unwrap_err();
    assert_eq!(err.span, Some(Span { start: 3, end: 4 }));
}

#[test]
fn literal_inference_table() {
    let t = infer_type(&node(ExprKind::Literal(Literal::Integer(1)))).unwrap().unwrap();
    assert!(is_prim(&t, PrimitiveSet::Int));
    let t = infer_type(&node(ExprKind::Literal(Literal::String("x".to_string())))).unwrap().unwrap();
    assert!(is_prim(&t, PrimitiveSet::Text));
    let t = infer_type(&node(ExprKind::Literal(Literal::Null))).unwrap().unwrap();
    assert!(matches!(t.kind, TyKind::Singleton(Literal::Null)));
    let t = infer_type(&node(ExprKind::Literal(Literal::Boolean(true)))).unwrap().unwrap();
    assert!(is_prim(&t, PrimitiveSet::Bool));
    let t = infer_type(&node(ExprKind::Literal(Literal::Date("2020-01-01".to_string())))).unwrap().unwrap();
    assert!(is_prim(&t, PrimitiveSet::Date));
    assert!(infer_type(&node(ExprKind::Ident("a".to_string()))).unwrap().is_none());
    assert!(infer_type(&node(ExprKind::FuncCall(prql_core::ast::FuncCall { name: Box::new(node(ExprKind::Ident("f".to_string()))), args: vec![] }))).unwrap().is_none());
}

#[test]
fn inference_of_fstring_and_tuple() {
    let t = infer_type(&node(ExprKind::FString(vec![]))).unwrap().unwrap();
    assert!(is_prim(&t, PrimitiveSet::Text));
    let e = node(ExprKind::Tuple(vec![
        node(ExprKind::Literal(Literal::Integer(1))),
        node(ExprKind::Ident("a".to_string())),
    ]));
    let t = infer_type(&e).unwrap().unwrap();
    match t.kind {
        TyKind::Tuple(fields) => {
            assert_eq!(fields.len(), 2);
            assert!(matches!(&fields[0], TupleField::Single(None, Some(x)) if is_prim(x, PrimitiveSet::Int)));
            assert!(matches!(&fields[1], TupleField::Single(None, None)));
        }
        _ => panic!("expected a tuple"),
    }
}

#[test]
fn inference_keeps_resolved_type() {
    let mut e = node(ExprKind::Ident("a".to_string()));
    e.ty = Some(named("t", PrimitiveSet::Time));
    let t = infer_type(&e).unwrap().unwrap();
    assert_eq!(t.name.as_deref(), Some("t"));
    assert!(is_prim(&t, PrimitiveSet::Time));
}

#[test]
fn inference_fill() {
    let mut ctx = Context::new();
    let mut found = node(ExprKind::Ident("a".to_string()));
    let expected = prim(PrimitiveSet::Text);
    ctx.validate_type(&mut found, Some(&expected), &None).unwrap();
    assert!(is_prim(found.ty.as_ref().unwrap(), PrimitiveSet::Text));
    assert!(found.lineage.is_none());
    assert!(ctx.inferred_tables.is_empty());
}

#[test]
fn no_expected_type_changes_nothing() {
    let mut ctx = Context::new();
    let mut found = node(ExprKind::Ident("a".to_string()));
    ctx.validate_type(&mut found, None, &None).unwrap();
    assert!(found.ty.is_none());
}

#[test]
fn relation_literal_gets_a_table() {
    let mut ctx = Context::new();
    let mut found = node(ExprKind::SString(vec![]));
    found.id = 42;
    found.alias = Some("t".to_string());
    let relation = Ty { name: None, kind: TyKind::Array(Box::new(TyKind::Tuple(vec![]))) };
    ctx.validate_type(&mut found, Some(&relation), &None).unwrap();
    let lineage = found.lineage.unwrap();
    assert_eq!(lineage.input_id, 42);
    assert_eq!(lineage.input_name.as_deref(), Some("t"));
    assert_eq!(ctx.inferred_tables, vec![42]);
    assert!(matches!(found.ty.unwrap().kind, TyKind::Array(_)));
}

fn typed_int_tuple(values: &[i64]) -> Expr {
    let mut e = int_tuple(values);
    let fields = values.iter().map(|_| TupleField::Single(None, Some(prim(PrimitiveSet::Int)))).collect();
    e.ty = Some(Ty { name: None, kind: TyKind::Tuple(fields) });
    e
}

#[test]
fn field_count_mismatch_is_an_error() {
    let mut ctx = Context::new();
    let mut found = typed_int_tuple(&[1, 2]);
    found.span = Some(Span { start: 0, end: 5 });
    let expected = Ty { name: None, kind: TyKind::Tuple(vec![TupleField::Single(None, Some(prim(PrimitiveSet::Int)))]) };
    let err = ctx.validate_type(&mut found, Some(&expected), &Some("select".to_string())).unwrap_err();
    match err.reason {
        Reason::Expected { who, expected, found } => {
            assert_eq!(who.as_deref(), Some("select"));
            assert_eq!(expected, "a tuple");
            assert_eq!(found, "a tuple");
        }
        _ => panic!("expected a mismatch"),
    }
    assert_eq!(err.span, Some(Span { start: 0, end: 5 }));
    assert!(err.help.is_none());
    assert!(matches!(&found.kind, ExprKind::Tuple(fields) if fields.len() == 2));
}

#[test]
fn nested_field_error_is_passed_on() {
    let mut ctx = Context::new();
    let mut inner = node(ExprKind::Ident("a".to_string()));
    inner.ty = Some(prim(PrimitiveSet::Text));
    inner.span = Some(Span { start: 2, end: 3 });
    let mut later = node(ExprKind::Ident("b".to_string()));
    later.id = 9;
    let mut found = node(ExprKind::Tuple(vec![inner, later]));
    found.ty = Some(Ty { name: None, kind: TyKind::Tuple(vec![]) });
    let expected = Ty { name: None, kind: TyKind::Tuple(vec![TupleField::Wildcard(Some(prim(PrimitiveSet::Int)))]) };
    let err = ctx.validate_type(&mut found, Some(&expected), &None).unwrap_err();
    assert_eq!(err.span, Some(Span { start: 2, end: 3 }));
    match err.reason {
        Reason::Expected { expected, found, .. } => {
            assert_eq!(expected, "type `int`");
            assert_eq!(found, "type `text`");
        }
        _ => panic!("expected a mismatch"),
    }
    match &found.kind {
        ExprKind::Tuple(fields) => assert!(fields[1].ty.is_none()),
        _ => panic!("expected a tuple"),
    }
}

#[test]
fn failed_plain_validation_changes_nothing() {
    let mut ctx = Context::new();
    let mut found = node(ExprKind::Ident("a".to_string()));
    found.ty = Some(prim(PrimitiveSet::Int));
    assert!(ctx.validate_type(&mut found, Some(&prim(PrimitiveSet::Bool)), &None).is_err());
    assert!(is_prim(found.ty.as_ref().unwrap(), PrimitiveSet::Int));
    assert!(found.lineage.is_none());
    assert!(ctx.inferred_tables.is_empty());
}

#[test]
fn wildcard_absorbs_all_fields() {
    let mut ctx = Context::new();
    let mut found = typed_int_tuple(&[1, 2, 3]);
    let expected = Ty { name: None, kind: TyKind::Tuple(vec![TupleField::Wildcard(Some(prim(PrimitiveSet::Int)))]) };
    ctx.validate_type(&mut found, Some(&expected), &None).unwrap();
    match &found.kind {
        ExprKind::Tuple(fields) => {
            assert_eq!(fields.len(), 3);
            for f in fields {
                assert!(is_prim(f.ty.as_ref().unwrap(), PrimitiveSet::Int));
            }
        }
        _ => panic!("expected a tuple"),
    }
}

#[test]
fn tuple_matched_against_union_alternative() {
    let mut ctx = Context::new();
    let mut found = typed_int_tuple(&[1]);
    let tuple = Ty { name: None, kind: TyKind::Tuple(vec![TupleField::Single(None, Some(prim(PrimitiveSet::Int)))]) };
    let expected = Ty { name: None, kind: TyKind::Union(vec![(None, prim(PrimitiveSet::Text)), (None, tuple)]) };
    ctx.validate_type(&mut found, Some(&expected), &None).unwrap();
    match &found.kind {
        ExprKind::Tuple(fields) => assert!(is_prim(fields[0].ty.as_ref().unwrap(), PrimitiveSet::Int)),
        _ => panic!("expected a tuple"),
    }
}

#[test]
fn supertype_check_on_plain_nodes() {
    let mut ctx = Context::new();
    let mut found = node(ExprKind::Ident("a".to_string()));
    found.ty = Some(prim(PrimitiveSet::Int));
    let expected = Ty { name: None, kind: TyKind::Union(vec![(None, prim(PrimitiveSet::Text)), (None, prim(PrimitiveSet::Int))]) };
    assert!(ctx.validate_type(&mut found, Some(&expected), &None).is_ok());
    let err = ctx.validate_type(&mut found, Some(&prim(PrimitiveSet::Text)), &None).unwrap_err();
    match err.reason {
        Reason::Expected { expected, found, .. } => {
            assert_eq!(expected, "type `text`");
            assert_eq!(found, "type `int`");
        }
        _ => panic!("expected a mismatch"),
    }
}

#[test]
fn function_mismatch_suggests_an_argument() {
    let mut ctx = Context::new();
    let body = node(ExprKind::Ident("x".to_string()));
    let mut found = node(ExprKind::Func(Func { name_hint: Some("foo".to_string()), params: vec![], body: Box::new(body) }));
    found.ty = Some(Ty { name: None, kind: TyKind::Function(prql_core::ast::TyFunc { args: vec![None], return_ty: None }) });
    let err = ctx.validate_type(&mut found, Some(&named("my_int", PrimitiveSet::Int)), &None).unwrap_err();
    assert_eq!(err.help.as_deref(), Some("Have you forgotten an argument to function foo?"));
    match err.reason {
        Reason::Expected { expected, found, .. } => {
            assert_eq!(expected, "type `my_int`");
            assert_eq!(found, "type `func`");
        }
        _ => panic!("expected a mismatch"),
    }
}

#[test]
fn join_mismatch_suggests_parentheses() {
    let mut ctx = Context::new();
    let mut found = node(ExprKind::Ident("x".to_string()));
    found.ty = Some(Ty { name: None, kind: TyKind::Tuple(vec![]) });
    let who = Some("std.join".to_string());
    let err = ctx.validate_type(&mut found, Some(&prim(PrimitiveSet::Bool)), &who).unwrap_err();
    assert_eq!(err.help.as_deref(), Some("Try using `(...)` instead of `{...}`"));
}

#[test]
fn substring_search() {
    assert!(contains_str("in std.join call", "std.join"));
    assert!(contains_str("abc", ""));
    assert!(!contains_str("std.joi", "std.join"));
    assert!(!contains_str("from", "std.join"));
}

#[test]
fn supertype_relation() {
    let int = prim(PrimitiveSet::Int);
    assert!(int.is_super_type_of(&prim(PrimitiveSet::Int)));
    assert!(!int.is_super_type_of(&prim(PrimitiveSet::Text)));
    let rel_a = Ty { name: None, kind: TyKind::Array(Box::new(TyKind::Tuple(vec![]))) };
    let rel_b = Ty { name: None, kind: TyKind::Array(Box::new(TyKind::Tuple(vec![TupleField::Wildcard(None)]))) };
    assert!(rel_a.is_super_type_of(&rel_b));
    let found_union = Ty { name: None, kind: TyKind::Union(vec![(None, prim(PrimitiveSet::Int)), (None, prim(PrimitiveSet::Text))]) };
    assert!(!int.is_super_type_of(&found_union));
    assert!(found_union.is_super_type_of(&found_union.copy()));
}
