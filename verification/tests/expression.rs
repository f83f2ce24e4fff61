use vector::ast::{
    Assignment, AssignmentOp, AssignmentTarget, Container, Expr, IfStatement, Literal, Opcode,
    RootExpr,
};
use vector::compiler::{compile, compile_with_features, Features};
use vector::diagnostic::{Diagnostic, DiagnosticKind, Severity, Span};
use vector::env::{ExternalEnv, LocalEnv};
use vector::expression;
use vector::funcs::FunctionSpec;
use vector::kind::Kind;

fn sp() -> Span {
    Span::new(0, 0)
}

fn int_lit(v: i64) -> Expr {
    Expr::Literal(sp(), Literal::Int(v))
}

fn boolean(v: bool) -> Expr {
    Expr::Literal(sp(), Literal::Bool(v))
}

fn text(v: &str) -> Expr {
    Expr::Literal(sp(), Literal::Str(v.to_string()))
}

fn variable(name: &str) -> Expr {
    Expr::Variable(sp(), name.to_string())
}

fn assign(name: &str, value: Expr) -> Expr {
    Expr::Assignment(
        sp(),
        Assignment::Single {
            target: AssignmentTarget::Internal(name.to_string(), None),
            op: AssignmentOp::Assign,
            expr: Box::new(value),
        },
    )
}

fn call(name: &str) -> Expr {
    Expr::FunctionCall(
        sp(),
        vector::ast::FunctionCall {
            ident: name.to_string(),
            abort_on_error: false,
            arguments: vec![],
            closure: None,
        },
    )
}

fn roots(exprs: Vec<Expr>) -> Vec<RootExpr> {
    exprs.into_iter().map(RootExpr::Expr).collect()
}

fn fallible_foo() -> FunctionSpec {
    FunctionSpec {
        ident: "foo".to_string(),
        parameters: vec![],
        return_kind: Kind::bytes(),
        fallible: true,
        takes_closure: false,
        deprecated: false,
    }
}

fn compile_ok(fns: &Vec<FunctionSpec>, ast: Vec<RootExpr>) -> (vector::program::Program, Vec<Diagnostic>) {
    let mut external = ExternalEnv::new(Kind::object());
    compile(fns, &ast, &mut external).expect("compilation should succeed")
}

fn compile_err(fns: &Vec<FunctionSpec>, ast: Vec<RootExpr>) -> Vec<Diagnostic> {
    let mut external = ExternalEnv::new(Kind::object());
    compile(fns, &ast, &mut external).expect_err("compilation should fail")
}

#[test]
fn terminal_expression_truncates_program() {
    // [abort, e2, e3]: the program holds only the compiled abort, and the
    // unreachable expressions raise no errors even though they read
    // undefined variables.
    let ast = roots(vec![
        Expr::Abort(sp(), None),
        variable("never_defined"),
        variable("also_never_defined"),
    ]);
    let (program, warnings) = compile_ok(&vec![], ast);
    assert_eq!(program.expressions.len(), 1);
    assert!(matches!(program.expressions[0], expression::Expr::Abort { .. }));
    assert!(warnings.is_empty());
    assert!(program.info.abortable);
}

#[test]
fn coalescing_clears_fallibility() {
    // foo() ?? "default" compiles cleanly even though foo() alone is
    // fallible.
    let fns = vec![fallible_foo()];
    let ast = roots(vec![Expr::Op(
        sp(),
        Box::new(call("foo")),
        Opcode::Coalesce,
        Box::new(text("default")),
    )]);
    let (_program, warnings) = compile_ok(&fns, ast);
    assert!(warnings.is_empty());
}

#[test]
fn bare_fallible_expression_is_one_error() {
    let fns = vec![fallible_foo()];
    let errors = compile_err(&fns, roots(vec![call("foo")]));
    assert_eq!(errors.len(), 1);
    assert_eq!(errors[0].kind, DiagnosticKind::FallibleExpression);
    assert_eq!(errors[0].severity, Severity::Error);
}

fn if_else(predicate: Expr, consequent: Vec<Expr>, alternative: Option<Vec<Expr>>) -> Expr {
    Expr::IfStatement(sp(), IfStatement { predicate: vec![predicate], consequent, alternative })
}

#[test]
fn branch_widening_keeps_common_kind() {
    // Both branches leave x a boolean: a later predicate on x still
    // compiles.
    let ast = roots(vec![
        if_else(
            boolean(true),
            vec![assign("x", boolean(true))],
            Some(vec![assign("x", boolean(false))]),
        ),
        if_else(variable("x"), vec![int_lit(1)], None),
    ]);
    let (_program, warnings) = compile_ok(&vec![], ast);
    assert!(warnings.is_empty());
}

#[test]
fn branch_widening_unions_branch_kinds() {
    // The consequent leaves x a boolean, the alternative an integer: the
    // post-if kind of x is their union, so a predicate on x no longer
    // compiles.
    let ast = roots(vec![
        if_else(
            boolean(true),
            vec![assign("x", boolean(true))],
            Some(vec![assign("x", int_lit(1))]),
        ),
        if_else(variable("x"), vec![int_lit(1)], None),
    ]);
    let errors = compile_err(&vec![], ast);
    assert_eq!(errors.len(), 1);
    assert_eq!(errors[0].kind, DiagnosticKind::NonBooleanPredicate);
}

#[test]
fn branch_widening_without_alternative_keeps_original() {
    // Without an alternative, the original kind stays in the union:
    // boolean-then-boolean passes, integer-then-boolean does not.
    let passes = roots(vec![
        assign("x", boolean(true)),
        if_else(boolean(true), vec![assign("x", boolean(false))], None),
        if_else(variable("x"), vec![int_lit(1)], None),
    ]);
    compile_ok(&vec![], passes);

    let fails = roots(vec![
        assign("x", int_lit(7)),
        if_else(boolean(true), vec![assign("x", boolean(false))], None),
        if_else(variable("x"), vec![int_lit(1)], None),
    ]);
    let errors = compile_err(&vec![], fails);
    assert_eq!(errors.len(), 1);
    assert_eq!(errors[0].kind, DiagnosticKind::NonBooleanPredicate);
}

fn block(exprs: Vec<Expr>) -> Expr {
    Expr::Container(sp(), Container::Block(exprs))
}

#[test]
fn block_scoped_variable_does_not_leak() {
    // y is declared only inside the block: reading it afterwards is an
    // undefined-variable error.
    let ast = roots(vec![
        block(vec![assign("y", int_lit(2))]),
        variable("y"),
    ]);
    let errors = compile_err(&vec![], ast);
    assert_eq!(errors.len(), 1);
    assert_eq!(
        errors[0].kind,
        DiagnosticKind::UndefinedVariable { ident: "y".to_string() },
    );
}

#[test]
fn block_mutation_of_outer_variable_is_kept() {
    // x exists before the block and is mutated to a boolean inside it:
    // after the block a predicate on x compiles.
    let ast = roots(vec![
        assign("x", int_lit(7)),
        block(vec![assign("x", boolean(true))]),
        if_else(variable("x"), vec![int_lit(1)], None),
    ]);
    compile_ok(&vec![], ast);
}

#[test]
fn scope_merge_is_idempotent() {
    let mut env = LocalEnv::new();
    env.insert("a", Kind::integer());
    env.insert("b", Kind::boolean().union(&Kind::null()));

    let merged = env.merge(&env);
    assert_eq!(merged.get("a"), env.get("a"));
    assert_eq!(merged.get("b"), env.get("b"));
    assert_eq!(merged.get("missing"), None);
}

#[test]
fn parse_errors_are_collected_not_fatal() {
    let ast = vec![
        RootExpr::Error(sp(), "unexpected token".to_string()),
        RootExpr::Expr(int_lit(1)),
    ];
    let errors = compile_err(&vec![], ast);
    assert_eq!(errors.len(), 1);
    assert!(matches!(errors[0].kind, DiagnosticKind::ParseFailure { .. }));
}

#[test]
fn undefined_function_is_reported() {
    let errors = compile_err(&vec![], roots(vec![call("nope")]));
    assert_eq!(errors.len(), 1);
    assert_eq!(
        errors[0].kind,
        DiagnosticKind::UndefinedFunction { ident: "nope".to_string() },
    );
}

#[test]
fn deprecated_function_warns_but_compiles() {
    let fns = vec![FunctionSpec {
        ident: "old_one".to_string(),
        parameters: vec![],
        return_kind: Kind::bytes(),
        fallible: false,
        takes_closure: false,
        deprecated: true,
    }];
    let (_program, warnings) = compile_ok(&fns, roots(vec![call("old_one")]));
    assert_eq!(warnings.len(), 1);
    assert_eq!(warnings[0].severity, Severity::Warning);
    assert_eq!(
        warnings[0].kind,
        DiagnosticKind::DeprecatedFunction { ident: "old_one".to_string() },
    );
}

#[test]
fn failed_assignment_suppresses_later_reads() {
    // The right-hand side of the assignment fails to compile; the read of
    // x afterwards is suppressed, so the root cause is reported once.
    let ast = roots(vec![
        assign("x", call("nope")),
        variable("x"),
    ]);
    let errors = compile_err(&vec![], ast);
    assert_eq!(errors.len(), 1);
    assert_eq!(
        errors[0].kind,
        DiagnosticKind::UndefinedFunction { ident: "nope".to_string() },
    );
}

#[test]
fn error_assignment_of_infallible_expression_is_rejected() {
    let ast = roots(vec![Expr::Assignment(
        sp(),
        Assignment::Infallible {
            ok: AssignmentTarget::Internal("ok_value".to_string(), None),
            err: AssignmentTarget::Internal("err_value".to_string(), None),
            op: AssignmentOp::Assign,
            expr: Box::new(int_lit(1)),
        },
    )]);
    let errors = compile_err(&vec![], ast);
    assert_eq!(errors.len(), 1);
    assert_eq!(errors[0].kind, DiagnosticKind::UnneededErrorAssignment);
}

#[test]
fn error_assignment_clears_fallibility() {
    let fns = vec![fallible_foo()];
    let ast = roots(vec![Expr::Assignment(
        sp(),
        Assignment::Infallible {
            ok: AssignmentTarget::Internal("ok_value".to_string(), None),
            err: AssignmentTarget::Internal("err_value".to_string(), None),
            op: AssignmentOp::Assign,
            expr: Box::new(call("foo")),
        },
    )]);
    let (_program, warnings) = compile_ok(&fns, ast);
    assert!(warnings.is_empty());
}

#[test]
fn event_reads_and_writes_are_recorded() {
    let ast = roots(vec![
        Expr::Query(
            sp(),
            vector::ast::Query {
                target: vector::ast::QueryTarget::External,
                path: ".message".to_string(),
            },
        ),
        Expr::Assignment(
            sp(),
            Assignment::Single {
                target: AssignmentTarget::External(Some(".status".to_string())),
                op: AssignmentOp::Assign,
                expr: Box::new(int_lit(200)),
            },
        ),
    ]);
    let (program, _warnings) = compile_ok(&vec![], ast);
    assert_eq!(program.info.target_queries, vec![".message".to_string()]);
    assert_eq!(program.info.target_assignments, vec![".status".to_string()]);
    assert!(!program.info.abortable);
}

#[test]
fn invalid_regex_literal_is_reported() {
    let ast = roots(vec![Expr::Literal(sp(), Literal::Regex("f(oo".to_string()))]);
    let errors = compile_err(&vec![], ast);
    assert_eq!(errors.len(), 1);
    assert!(matches!(errors[0].kind, DiagnosticKind::InvalidRegex { .. }));

    let ok = roots(vec![Expr::Literal(sp(), Literal::Regex("f(o+)o".to_string()))]);
    compile_ok(&vec![], ok);
}

#[test]
fn invalid_timestamp_literal_is_reported() {
    let ast = roots(vec![Expr::Literal(sp(), Literal::Timestamp("not a time".to_string()))]);
    let errors = compile_err(&vec![], ast);
    assert_eq!(errors.len(), 1);
    assert!(matches!(errors[0].kind, DiagnosticKind::InvalidTimestamp { .. }));

    let ok = roots(vec![Expr::Literal(
        sp(),
        Literal::Timestamp("2021-01-01T00:00:00Z".to_string()),
    )]);
    compile_ok(&vec![], ok);
}

#[test]
fn disabled_expression_kind_is_a_structured_error() {
    let mut features = Features::all();
    features.abort = false;
    let ast = roots(vec![Expr::Abort(sp(), None)]);
    let mut external = ExternalEnv::new(Kind::object());
    let errors = compile_with_features(&vec![], &ast, &mut external, features)
        .expect_err("disabled kind must fail");
    assert_eq!(errors.len(), 1);
    assert!(matches!(errors[0].kind, DiagnosticKind::MissingFeature { .. }));
}

#[test]
fn empty_program_compiles_to_noop() {
    let (program, warnings) = compile_ok(&vec![], vec![]);
    assert_eq!(program.expressions.len(), 1);
    assert!(matches!(program.expressions[0], expression::Expr::Noop));
    assert!(warnings.is_empty());
    assert!(!program.info.fallible);
    assert!(!program.info.abortable);
}

#[test]
fn diagnostics_expose_severity_message_and_span() {
    let errors = compile_err(&vec![], roots(vec![variable("ghost_town")]));
    assert_eq!(errors.len(), 1);
    assert_eq!(errors[0].severity, Severity::Error);
    assert_eq!(errors[0].span, sp());
    assert_eq!(errors[0].message(), "undefined variable: ghost_town");
    assert!(errors[0].is_error());
}

#[test]
fn abort_on_error_call_marks_program_abortable() {
    let fns = vec![fallible_foo()];
    let ast = roots(vec![Expr::FunctionCall(
        sp(),
        vector::ast::FunctionCall {
            ident: "foo".to_string(),
            abort_on_error: true,
            arguments: vec![],
            closure: None,
        },
    )]);
    let (program, warnings) = compile_ok(&fns, ast);
    assert!(warnings.is_empty());
    assert!(program.info.abortable);
    assert!(program.info.fallible);
}
