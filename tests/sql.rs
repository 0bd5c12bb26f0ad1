use prql_core::sql::{
    anchor, append_signature, compile, preprocess, Context, Dialect, Options, Query, QueryOpts,
    RelationKind, Target, AnchorContext,
};

#[test]
fn test_end_with_new_line() {
    let sql = compile("SELECT * FROM a", &Options::default().no_signature(), "0.8.1");
    assert_eq!(sql, "SELECT\n  *\nFROM\n  a\n")
}

#[test]
fn unformatted_is_left_alone() {
    let options = Options::default().no_signature().no_format();
    assert_eq!(compile("SELECT * FROM a", &options, "0.8.1"), "SELECT * FROM a");
}

#[test]
fn signature_inline_with_dialect() {
    let options = Options::default().no_format().with_target(Target::Sql(Some(Dialect::Postgres)));
    assert_eq!(
        compile("SELECT 1", &options, "1.2.3"),
        "SELECT 1 -- Generated by PRQL compiler version:1.2.3 target:sql.postgres (https://prql-lang.org)"
    );
}

#[test]
fn signature_on_own_lines_when_formatted() {
    let sql = append_signature("SELECT\n  1\n".to_string(), &Options::default(), "1.2.3");
    assert_eq!(sql, "SELECT\n  1\n\n-- Generated by PRQL compiler version:1.2.3 (https://prql-lang.org)\n");
}

#[test]
fn generic_dialect_has_no_target() {
    let options = Options::default().no_format().with_target(Target::Sql(Some(Dialect::Generic)));
    assert_eq!(
        append_signature("x".to_string(), &options, "0.1.0"),
        "x -- Generated by PRQL compiler version:0.1.0 (https://prql-lang.org)"
    );
}

#[test]
fn formatting_changes_text() {
    let options = Options::default().no_signature();
    let out = compile("SELECT a, b FROM t WHERE a = 1", &options, "0.1.0");
    assert_ne!(out, "SELECT a, b FROM t WHERE a = 1");
    assert!(out.ends_with('\n'));
}

#[test]
fn default_query_options() {
    let q = QueryOpts::default();
    assert!(!q.omit_ident_prefix);
    assert!(!q.pre_projection);
    assert!(q.allow_ctes);
    assert!(q.allow_stars);
    assert!(!q.window_function);
}

#[test]
fn scopes_balance() {
    let mut ctx = Context::new(Dialect::Generic, AnchorContext { table_names: vec![] });
    let start = ctx.query();
    let n = 4;
    for i in 0..n {
        ctx.push_query();
        let mut q = ctx.query();
        q.allow_ctes = false;
        q.window_function = i % 2 == 0;
        q.pre_projection = true;
        ctx.set_query(q);
    }
    assert_eq!(ctx.depth(), n);
    for _ in 0..n {
        ctx.pop_query();
    }
    assert_eq!(ctx.depth(), 0);
    assert_eq!(ctx.query(), start);
}

#[test]
fn nested_scope_changes_do_not_leak() {
    let mut ctx = Context::new(Dialect::Postgres, AnchorContext { table_names: vec![] });
    ctx.push_query();
    let mut q = ctx.query();
    q.omit_ident_prefix = true;
    ctx.set_query(q);
    ctx.push_query();
    assert!(ctx.query().omit_ident_prefix);
    ctx.pop_query();
    assert!(ctx.query().omit_ident_prefix);
    ctx.pop_query();
    assert!(!ctx.query().omit_ident_prefix);
}

#[test]
fn pipeline_is_required() {
    let q: Query<u32> = Query { table_names: vec!["a".to_string()], relation: RelationKind::Pipeline(vec![1, 2]) };
    let (pipeline, ctx) = preprocess(q).unwrap();
    assert_eq!(pipeline, vec![1, 2]);
    assert_eq!(ctx.dialect, Dialect::Generic);
    let q: Query<u32> = Query { table_names: vec![], relation: RelationKind::ExternRef("a".to_string()) };
    let err = anchor(q).unwrap_err();
    assert!(matches!(err.reason, prql_core::error::Reason::Simple(m) if m == "Main RQ relation is not a pipeline."));
}
