//! The expression compiler: walks the AST, resolves each node into a
//! typed compiled expression, tracks fallibility and abortability, and
//! accumulates diagnostics.  Compilation fails exactly when a diagnostic
//! of error severity was collected; otherwise the compiled program is
//! returned beside the collected warnings.

use vstd::prelude::*;

use crate::ast;
use crate::ast::{AssignmentOp, AssignmentTarget, Opcode, RootExpr};
use crate::diagnostic::{spec_is_error_severity, Diagnostic, DiagnosticKind, Severity, Span};
use crate::env::{spec_env_insert, spec_env_merge, spec_get, spec_restrict, ExternalEnv, LocalEnv};
use crate::expression::{Expr, TypeDef};
use crate::funcs::{find_function, FunctionSpec};
use crate::kind::Kind;
use crate::program::{Program, ProgramInfo};
use crate::text::str_eq;
use crate::trusted::{regex_pattern_ok, spec_regex_ok, spec_timestamp_ok, timestamp_text_ok};

verus! {

/// Which expression kinds this compiler was built with.  Compiling a
/// disabled kind yields a structured diagnostic instead of a compiled
/// node.
#[derive(Clone, Copy, PartialEq, Eq, Structural, Debug)]
pub struct Features {
    pub literal: bool,
    pub if_statement: bool,
    pub op: bool,
    pub assignment: bool,
    pub query: bool,
    pub function_call: bool,
    pub unary: bool,
    pub abort: bool,
}

impl Features {
    /// Every expression kind enabled.
    pub fn all() -> (f: Features)
        ensures
            f == (Features {
                literal: true,
                if_statement: true,
                op: true,
                assignment: true,
                query: true,
                function_call: true,
                unary: true,
                abort: true,
            }),
    {
        Features {
            literal: true,
            if_statement: true,
            op: true,
            assignment: true,
            query: true,
            function_call: true,
            unary: true,
            abort: true,
        }
    }
}

/// The earlier diagnostics are kept, in place and in order, by a
/// compilation step.
pub open spec fn diags_kept(pre: Seq<Diagnostic>, post: Seq<Diagnostic>) -> bool {
    &&& pre.len() <= post.len()
    &&& forall|i: int| 0 <= i < pre.len() ==> post[i] == pre[i]
}

/// The kind a valid literal yields, or nothing where the literal text
/// does not parse as its notation demands.
pub open spec fn spec_literal_outcome(lit: ast::Literal) -> Option<Kind> {
    match lit {
        ast::Literal::Str(_) => Some(Kind { bytes: true, ..Kind::spec_never() }),
        ast::Literal::Int(_) => Some(Kind { integer: true, ..Kind::spec_never() }),
        ast::Literal::Float(_) => Some(Kind { float: true, ..Kind::spec_never() }),
        ast::Literal::Bool(_) => Some(Kind { boolean: true, ..Kind::spec_never() }),
        ast::Literal::Null => Some(Kind { null: true, ..Kind::spec_never() }),
        ast::Literal::Regex(p) => if spec_regex_ok(p@) {
            Some(Kind { regex: true, ..Kind::spec_never() })
        } else {
            None
        },
        ast::Literal::Timestamp(t) => if spec_timestamp_ok(t@) {
            Some(Kind { timestamp: true, ..Kind::spec_never() })
        } else {
            None
        },
    }
}

/// The canonical assignment `x = <valid literal>`: the assigned variable
/// and the literal's kind.
pub open spec fn spec_assignment_shape(a: ast::Assignment) -> Option<(Seq<char>, Kind)> {
    match a {
        ast::Assignment::Single { target, op, expr } => match (target, op, *expr) {
            (
                AssignmentTarget::Internal(x, None),
                AssignmentOp::Assign,
                ast::Expr::Literal(_, lit),
            ) => match spec_literal_outcome(lit) {
                Some(k) => Some((x@, k)),
                None => None,
            },
            _ => None,
        },
        _ => None,
    }
}

/// The error-handling assignment form whose expression is a valid
/// literal, which can never fail: the shape that is always rejected.
pub open spec fn spec_infallible_literal(a: ast::Assignment) -> bool {
    match a {
        ast::Assignment::Infallible { ok: _, err: _, op: AssignmentOp::Assign, expr } => match *expr {
            ast::Expr::Literal(_, lit) => spec_literal_outcome(lit) is Some,
            _ => false,
        },
        _ => false,
    }
}

/// The canonical event assignment `.path = <valid literal>`: the written
/// path and the literal's kind.
pub open spec fn spec_ext_assign_shape(e: ast::Expr) -> Option<(String, Kind)> {
    match e {
        ast::Expr::Assignment(_, a) => spec_ext_assignment_shape(a),
        _ => None,
    }
}

/// The canonical event assignment, at the assignment node itself.
pub open spec fn spec_ext_assignment_shape(a: ast::Assignment) -> Option<(String, Kind)> {
    match a {
        ast::Assignment::Single { target, op, expr } => match (target, op, *expr) {
            (
                AssignmentTarget::External(Some(p)),
                AssignmentOp::Assign,
                ast::Expr::Literal(_, lit),
            ) => match spec_literal_outcome(lit) {
                Some(k) => Some((p, k)),
                None => None,
            },
            _ => None,
        },
        _ => None,
    }
}

/// An event read `.path`: the queried path.
pub open spec fn spec_ext_query_path(e: ast::Expr) -> Option<String> {
    match e {
        ast::Expr::Query(_, q) => if q.target is External {
            Some(q.path)
        } else {
            None
        },
        _ => None,
    }
}

/// The canonical assignment shape, on a whole expression node.
pub open spec fn spec_assign_shape(e: ast::Expr) -> Option<(Seq<char>, Kind)> {
    match e {
        ast::Expr::Assignment(_, a) => spec_assignment_shape(a),
        _ => None,
    }
}

/// An expression list holding exactly one canonical assignment.
pub open spec fn spec_single_assign(exprs: Seq<ast::Expr>) -> Option<(Seq<char>, Kind)> {
    if exprs.len() == 1 {
        spec_assign_shape(exprs[0])
    } else {
        None
    }
}

/// An expression list holding exactly one valid literal, and its kind.
pub open spec fn spec_single_literal(exprs: Seq<ast::Expr>) -> Option<Kind> {
    if exprs.len() == 1 {
        match exprs[0] {
            ast::Expr::Literal(_, lit) => spec_literal_outcome(lit),
            _ => None,
        }
    } else {
        None
    }
}

/// A predicate list holding exactly one boolean literal.
pub open spec fn spec_bool_predicate(exprs: Seq<ast::Expr>) -> bool {
    exprs.len() == 1 && (exprs[0] matches ast::Expr::Literal(_, ast::Literal::Bool(_)))
}

/// A root-expression list opening with a bare abort, the canonical
/// terminal expression.
pub open spec fn spec_abort_first(nodes: Seq<RootExpr>) -> bool {
    nodes.len() > 0 && match nodes[0] {
        RootExpr::Expr(e) => e matches ast::Expr::Abort(_, None),
        _ => false,
    }
}

/// Error coalescing whose right side is a valid literal: the shape that
/// always clears a pending fallibility error.
pub open spec fn spec_coalesce_literal(e: ast::Expr) -> bool {
    match e {
        ast::Expr::Op(_, _, Opcode::Coalesce, rhs) => match *rhs {
            ast::Expr::Literal(_, lit) => spec_literal_outcome(lit) is Some,
            _ => false,
        },
        _ => false,
    }
}

/// The outcome of typing a binary operation.
pub open spec fn spec_op_outcome(lhs: TypeDef, opcode: Opcode, rhs: TypeDef) -> Option<TypeDef> {
    match opcode {
        Opcode::Coalesce => Some(
            TypeDef { fallible: rhs.fallible, kind: lhs.kind.spec_union(rhs.kind) },
        ),
        Opcode::Or => Some(
            TypeDef { fallible: lhs.fallible || rhs.fallible, kind: lhs.kind.spec_union(rhs.kind) },
        ),
        Opcode::And | Opcode::Eq | Opcode::Ne => Some(
            TypeDef {
                fallible: lhs.fallible || rhs.fallible,
                kind: Kind { boolean: true, ..Kind::spec_never() },
            },
        ),
        Opcode::Gt | Opcode::Ge | Opcode::Lt | Opcode::Le => Some(
            TypeDef {
                fallible: lhs.fallible || rhs.fallible || !lhs.kind.spec_is_numeric()
                    || !rhs.kind.spec_is_numeric(),
                kind: Kind { boolean: true, ..Kind::spec_never() },
            },
        ),
        Opcode::Div => Some(
            TypeDef {
                fallible: true,
                kind: (Kind { float: true, ..Kind::spec_never() }).spec_union(
                    Kind { integer: true, ..Kind::spec_never() },
                ),
            },
        ),
        Opcode::Add | Opcode::Sub | Opcode::Mul => {
            if lhs.kind.spec_is_numeric() && rhs.kind.spec_is_numeric() {
                Some(
                    TypeDef {
                        fallible: lhs.fallible || rhs.fallible,
                        kind: lhs.kind.spec_union(rhs.kind),
                    },
                )
            } else if opcode is Add && lhs.kind.spec_is_exactly_bytes()
                && rhs.kind.spec_is_exactly_bytes() {
                Some(
                    TypeDef {
                        fallible: lhs.fallible || rhs.fallible,
                        kind: Kind { bytes: true, ..Kind::spec_never() },
                    },
                )
            } else {
                Some(
                    TypeDef {
                        fallible: true,
                        kind: ((Kind { bytes: true, ..Kind::spec_never() }).spec_union(
                            Kind { integer: true, ..Kind::spec_never() },
                        )).spec_union(Kind { float: true, ..Kind::spec_never() }),
                    },
                )
            }
        },
        Opcode::Merge => {
            if lhs.kind.spec_is_exactly_object() && rhs.kind.spec_is_exactly_object() {
                Some(
                    TypeDef {
                        fallible: lhs.fallible || rhs.fallible,
                        kind: Kind { object: true, ..Kind::spec_never() },
                    },
                )
            } else {
                None
            }
        },
    }
}

/// The error-severity diagnostics of a list, in order.
pub open spec fn spec_errors_of(ds: Seq<Diagnostic>) -> Seq<Diagnostic>
    decreases ds.len(),
{
    if ds.len() == 0 {
        Seq::empty()
    } else {
        let head = if spec_is_error_severity(ds[0].severity) {
            seq![ds[0]]
        } else {
            Seq::empty()
        };
        head + spec_errors_of(ds.drop_first())
    }
}

/// The warning diagnostics of a list, in order.
pub open spec fn spec_warnings_of(ds: Seq<Diagnostic>) -> Seq<Diagnostic>
    decreases ds.len(),
{
    if ds.len() == 0 {
        Seq::empty()
    } else {
        let head = if !spec_is_error_severity(ds[0].severity) {
            seq![ds[0]]
        } else {
            Seq::empty()
        };
        head + spec_warnings_of(ds.drop_first())
    }
}

proof fn lemma_partition_push(ds: Seq<Diagnostic>, d: Diagnostic)
    ensures
        spec_errors_of(ds.push(d)) == spec_errors_of(ds) + (if spec_is_error_severity(d.severity) {
            seq![d]
        } else {
            Seq::empty()
        }),
        spec_warnings_of(ds.push(d)) == spec_warnings_of(ds) + (if !spec_is_error_severity(
            d.severity,
        ) {
            seq![d]
        } else {
            Seq::empty()
        }),
    decreases ds.len(),
{
    if ds.len() == 0 {
        assert(ds.push(d)[0] == d);
        assert(ds.push(d).drop_first() =~= Seq::<Diagnostic>::empty());
        assert(spec_errors_of(Seq::<Diagnostic>::empty()) == Seq::<Diagnostic>::empty());
        assert(spec_warnings_of(Seq::<Diagnostic>::empty()) == Seq::<Diagnostic>::empty());
        assert(spec_errors_of(ds) == Seq::<Diagnostic>::empty());
        assert(spec_warnings_of(ds) == Seq::<Diagnostic>::empty());
        assert(spec_errors_of(ds.push(d)) =~= (if spec_is_error_severity(d.severity) {
            seq![d]
        } else {
            Seq::<Diagnostic>::empty()
        }));
        assert(spec_errors_of(ds) + (if spec_is_error_severity(d.severity) {
            seq![d]
        } else {
            Seq::<Diagnostic>::empty()
        }) =~= (if spec_is_error_severity(d.severity) {
            seq![d]
        } else {
            Seq::<Diagnostic>::empty()
        }));
        assert(spec_warnings_of(ds.push(d)) =~= (if !spec_is_error_severity(d.severity) {
            seq![d]
        } else {
            Seq::<Diagnostic>::empty()
        }));
        assert(spec_warnings_of(ds) + (if !spec_is_error_severity(d.severity) {
            seq![d]
        } else {
            Seq::<Diagnostic>::empty()
        }) =~= (if !spec_is_error_severity(d.severity) {
            seq![d]
        } else {
            Seq::<Diagnostic>::empty()
        }));
    } else {
        assert(ds.push(d)[0] == ds[0]);
        assert(ds.push(d).drop_first() =~= ds.drop_first().push(d));
        lemma_partition_push(ds.drop_first(), d);
        assert(spec_errors_of(ds.push(d)) =~= spec_errors_of(ds) + (if spec_is_error_severity(
            d.severity,
        ) {
            seq![d]
        } else {
            Seq::<Diagnostic>::empty()
        }));
        assert(spec_warnings_of(ds.push(d)) =~= spec_warnings_of(ds) + (if !spec_is_error_severity(
            d.severity,
        ) {
            seq![d]
        } else {
            Seq::<Diagnostic>::empty()
        }));
    }
}

proof fn lemma_partition_severities(ds: Seq<Diagnostic>)
    ensures
        forall|i: int|
            0 <= i < spec_errors_of(ds).len() ==> spec_is_error_severity(
                (#[trigger] spec_errors_of(ds)[i]).severity,
            ),
        forall|i: int|
            0 <= i < spec_warnings_of(ds).len() ==> !spec_is_error_severity(
                (#[trigger] spec_warnings_of(ds)[i]).severity,
            ),
    decreases ds.len(),
{
    if ds.len() > 0 {
        lemma_partition_severities(ds.drop_first());
    }
}

/// A query target a later lookup should not report again, because the
/// root cause of its absence was already reported.
pub struct SkipEntry {
    pub external: bool,
    pub ident: String,
    pub path: String,
}

/// Whether a read of this target was suppressed by an earlier failed
/// assignment to it.
pub open spec fn spec_skipped(
    skip: Seq<SkipEntry>,
    ext: bool,
    ident: Seq<char>,
    path: Seq<char>,
) -> bool {
    exists|i: int|
        0 <= i < skip.len() && (#[trigger] skip[i]).external == ext && skip[i].ident@ == ident
            && skip[i].path@ == path
}

struct Compiler<'a> {
    fns: &'a Vec<FunctionSpec>,
    features: Features,
    diagnostics: Vec<Diagnostic>,
    fallible: bool,
    abortable: bool,
    local: LocalEnv,
    external_queries: Vec<String>,
    external_assignments: Vec<String>,
    /// Query targets whose defining assignment failed to compile: reads
    /// of these are suppressed so one root cause is reported once.
    skip_missing_query_target: Vec<SkipEntry>,
    /// The first fallible expression of the chain being compiled, kept
    /// pending until something clears it or the chain ends.
    fallible_expression_error: Option<Diagnostic>,
}

/// Compile a parsed program against a function registry and the ambient
/// event-type context, with every expression kind enabled.
///
/// Returns the compiled program beside the collected warnings, or, if any
/// diagnostic of error severity was collected, the list of those errors.
pub fn compile(fns: &Vec<FunctionSpec>, ast_program: &Vec<RootExpr>, external: &mut ExternalEnv) -> (r:
    Result<(Program, Vec<Diagnostic>), Vec<Diagnostic>>)
    ensures
        match r {
            Ok((program, warnings)) => forall|i: int|
                0 <= i < warnings@.len() ==> !spec_is_error_severity(
                    #[trigger] warnings@[i].severity,
                ),
            Err(errors) => errors@.len() > 0 && forall|i: int|
                0 <= i < errors@.len() ==> spec_is_error_severity(#[trigger] errors@[i].severity),
        },
        ast_program@.len() == 0 ==> (r matches Ok((p, w)) && p.expressions@.len() == 1 && (
        p.expressions@[0] is Noop) && w@.len() == 0 && !p.info.fallible && !p.info.abortable
            && p.info.target_queries@.len() == 0 && p.info.target_assignments@.len() == 0),
        ast_program@.len() == 1 ==> match ast_program@[0] {
            RootExpr::Error(sp2, detail) => r matches Err(e) && e@ =~= seq![
                (Diagnostic {
                    severity: Severity::Error,
                    kind: (DiagnosticKind::ParseFailure { detail: detail }),
                    span: sp2,
                }),
            ],
            _ => true,
        },
        spec_abort_first(ast_program@) ==> (r matches Ok((p, w)) && p.expressions@.len() == 1 && (
        p.expressions@[0] is Abort) && w@.len() == 0 && p.info.abortable),
        (ast_program@.len() == 1 && true) ==> match ast_program@[0] {
            RootExpr::Expr(e) => match spec_ext_query_path(e) {
                Some(p) => r matches Ok((pr, w)) && pr.info.target_queries@ =~= seq![p]
                    && pr.info.target_assignments@.len() == 0 && !pr.info.fallible
                    && !pr.info.abortable && w@.len() == 0 && pr.expressions@.len() == 1,
                None => true,
            },
            _ => true,
        },
        (ast_program@.len() == 1 && true) ==> match ast_program@[0] {
            RootExpr::Expr(e) => match spec_ext_assign_shape(e) {
                Some((p, _)) => r matches Ok((pr, w)) && pr.info.target_assignments@ =~= seq![p]
                    && pr.info.target_queries@.len() == 0 && !pr.info.fallible
                    && !pr.info.abortable && w@.len() == 0 && pr.expressions@.len() == 1,
                None => true,
            },
            _ => true,
        },
{
    compile_with_features(fns, ast_program, external, Features::all())
}

/// Compile with a chosen set of enabled expression kinds.
pub fn compile_with_features(
    fns: &Vec<FunctionSpec>,
    ast_program: &Vec<RootExpr>,
    external: &mut ExternalEnv,
    features: Features,
) -> (r: Result<(Program, Vec<Diagnostic>), Vec<Diagnostic>>)
    ensures
        match r {
            Ok((program, warnings)) => forall|i: int|
                0 <= i < warnings@.len() ==> !spec_is_error_severity(
                    #[trigger] warnings@[i].severity,
                ),
            Err(errors) => errors@.len() > 0 && forall|i: int|
                0 <= i < errors@.len() ==> spec_is_error_severity(#[trigger] errors@[i].severity),
        },
        ast_program@.len() == 0 ==> (r matches Ok((p, w)) && p.expressions@.len() == 1 && (
        p.expressions@[0] is Noop) && w@.len() == 0 && !p.info.fallible && !p.info.abortable
            && p.info.target_queries@.len() == 0 && p.info.target_assignments@.len() == 0),
        ast_program@.len() == 1 ==> match ast_program@[0] {
            RootExpr::Error(sp2, detail) => r matches Err(e) && e@ =~= seq![
                (Diagnostic {
                    severity: Severity::Error,
                    kind: (DiagnosticKind::ParseFailure { detail: detail }),
                    span: sp2,
                }),
            ],
            _ => true,
        },
        spec_abort_first(ast_program@) && features.abort ==> (r matches Ok((p, w))
            && p.expressions@.len() == 1 && (p.expressions@[0] is Abort) && w@.len() == 0
            && p.info.abortable),
        (ast_program@.len() == 1 && features.query) ==> match ast_program@[0] {
            RootExpr::Expr(e) => match spec_ext_query_path(e) {
                Some(p) => r matches Ok((pr, w)) && pr.info.target_queries@ =~= seq![p]
                    && pr.info.target_assignments@.len() == 0 && !pr.info.fallible
                    && !pr.info.abortable && w@.len() == 0 && pr.expressions@.len() == 1,
                None => true,
            },
            _ => true,
        },
        (ast_program@.len() == 1 && features.assignment && features.literal) ==> match ast_program@[0] {
            RootExpr::Expr(e) => match spec_ext_assign_shape(e) {
                Some((p, _)) => r matches Ok((pr, w)) && pr.info.target_assignments@ =~= seq![p]
                    && pr.info.target_queries@.len() == 0 && !pr.info.fallible
                    && !pr.info.abortable && w@.len() == 0 && pr.expressions@.len() == 1,
                None => true,
            },
            _ => true,
        },
{
    let mut compiler = Compiler {
        fns,
        features,
        diagnostics: Vec::new(),
        fallible: false,
        abortable: false,
        local: LocalEnv::new(),
        external_queries: Vec::new(),
        external_assignments: Vec::new(),
        skip_missing_query_target: Vec::new(),
        fallible_expression_error: None,
    };
    let expressions = compiler.compile_root_exprs(ast_program, external);

    let ghost all_diags = compiler.diagnostics@;
    let mut errors: Vec<Diagnostic> = Vec::new();
    let mut warnings: Vec<Diagnostic> = Vec::new();
    let mut rest = compiler.diagnostics;
    let ghost mut k: int = 0;
    proof {
        assert(all_diags.take(0) =~= Seq::<Diagnostic>::empty());
        assert(all_diags.skip(0) =~= all_diags);
        assert(spec_errors_of(all_diags.take(0)) =~= Seq::<Diagnostic>::empty());
        assert(spec_warnings_of(all_diags.take(0)) =~= Seq::<Diagnostic>::empty());
    }
    while rest.len() > 0
        invariant
            0 <= k <= all_diags.len(),
            rest@ == all_diags.skip(k),
            errors@ == spec_errors_of(all_diags.take(k)),
            warnings@ == spec_warnings_of(all_diags.take(k)),
        decreases rest@.len(),
    {
        proof {
            assert(all_diags.skip(k)[0] == all_diags[k]);
            assert(rest@.drop_first() =~= all_diags.skip(k + 1));
        }
        let d = rest.remove(0);
        let is_err = matches!(d.severity, Severity::Bug | Severity::Error);
        proof {
            lemma_partition_push(all_diags.take(k), all_diags[k]);
            assert(all_diags.take(k + 1) =~= all_diags.take(k).push(all_diags[k]));
        }
        if is_err {
            errors.push(d);
        } else {
            warnings.push(d);
        }
        proof {
            k = k + 1;
        }
    }
    proof {
        assert(all_diags.take(all_diags.len() as int) =~= all_diags);
        lemma_partition_severities(all_diags);
        if ast_program@.len() == 1 {
            match ast_program@[0] {
                RootExpr::Error(sp2, detail) => {
                    let d = Diagnostic {
                        severity: Severity::Error,
                        kind: DiagnosticKind::ParseFailure { detail },
                        span: sp2,
                    };
                    assert(all_diags =~= seq![d]);
                    assert(seq![d].drop_first() =~= Seq::<Diagnostic>::empty());
                    assert(spec_errors_of(Seq::<Diagnostic>::empty()) =~= Seq::<
                        Diagnostic,
                    >::empty());
                    assert(spec_errors_of(all_diags) =~= seq![d]);
                },
                _ => {},
            }
        }
    }

    if errors.len() > 0 {
        return Err(errors);
    }

    let info = ProgramInfo {
        fallible: compiler.fallible,
        abortable: compiler.abortable,
        target_queries: compiler.external_queries,
        target_assignments: compiler.external_assignments,
    };
    Ok((Program { expressions, info }, warnings))
}

impl<'a> Compiler<'a> {
    spec fn diags(&self) -> Seq<Diagnostic> {
        self.diagnostics@
    }

    /// Compile the root expressions in order.  A parse-error node turns
    /// into a diagnostic; an expression whose type is "never" is the
    /// terminal expression, and nothing after it is compiled or emitted.
    /// An unhandled pending fallibility error surfaces per root
    /// expression.
    fn compile_root_exprs(&mut self, nodes: &Vec<RootExpr>, external: &mut ExternalEnv) -> (r: Vec<
        Expr,
    >)
        ensures
            diags_kept(old(self).diags(), final(self).diags()),
            final(self).features == old(self).features,
            final(self).fns == old(self).fns,
            old(self).abortable ==> final(self).abortable,
            old(self).fallible ==> final(self).fallible,
            r@.len() >= 1,
            nodes@.len() == 0 ==> (r@.len() == 1 && (r@[0] is Noop) && final(self).diags()
                == old(self).diags() && final(self).fallible == old(self).fallible
                && final(self).abortable == old(self).abortable && final(self).external_queries
                == old(self).external_queries && final(self).external_assignments
                == old(self).external_assignments),
            nodes@.len() == 1 ==> match nodes@[0] {
                RootExpr::Error(sp2, detail) => r@.len() == 1 && (r@[0] is Noop)
                    && final(self).diags() == old(self).diags().push(
                    (Diagnostic {
                        severity: Severity::Error,
                        kind: (DiagnosticKind::ParseFailure { detail: detail }),
                        span: sp2,
                    }),
                ) && final(self).fallible == old(self).fallible && final(self).abortable
                    == old(self).abortable && final(self).external_queries
                    == old(self).external_queries && final(self).external_assignments
                    == old(self).external_assignments,
                _ => true,
            },
            spec_abort_first(nodes@) && old(self).features.abort ==> (r@.len() == 1 && (r@[0]
                is Abort) && final(self).diags() == old(self).diags() && final(self).abortable
                && final(self).fallible == old(self).fallible && final(self).external_queries
                == old(self).external_queries && final(self).external_assignments
                == old(self).external_assignments),
            (nodes@.len() == 1 && old(self).features.query
                && old(self).skip_missing_query_target@.len() == 0) ==> match nodes@[0] {
                RootExpr::Expr(e) => match spec_ext_query_path(e) {
                    Some(p) => {
                        &&& final(self).external_queries@ == old(self).external_queries@.push(p)
                        &&& final(self).external_assignments == old(self).external_assignments
                        &&& final(self).diags() == old(self).diags()
                        &&& final(self).fallible == old(self).fallible
                        &&& final(self).abortable == old(self).abortable
                        &&& r@.len() == 1
                    },
                    None => true,
                },
                _ => true,
            },
            (nodes@.len() == 1 && old(self).features.assignment && old(self).features.literal)
                ==> match nodes@[0] {
                RootExpr::Expr(e) => match spec_ext_assign_shape(e) {
                    Some((p, _)) => {
                        &&& final(self).external_assignments@
                            == old(self).external_assignments@.push(p)
                        &&& final(self).external_queries == old(self).external_queries
                        &&& final(self).diags() == old(self).diags()
                        &&& final(self).fallible == old(self).fallible
                        &&& final(self).abortable == old(self).abortable
                        &&& r@.len() == 1
                    },
                    None => true,
                },
                _ => true,
            },
    {
        let mut node_exprs: Vec<Expr> = Vec::new();
        let ghost diags0 = self.diags();
        let n = nodes.len();
        let mut i: usize = 0;
        let mut terminated = false;
        while i < n
            invariant
                i <= n,
                n == nodes@.len(),
                diags_kept(diags0, self.diags()),
                diags0 == old(self).diags(),
                self.features == old(self).features,
                self.fns == old(self).fns,
                old(self).abortable ==> self.abortable,
                old(self).fallible ==> self.fallible,
                i == 0 ==> (node_exprs@.len() == 0 && !terminated && self.diags() == diags0
                    && self.fallible == old(self).fallible && self.abortable == old(self).abortable
                    && self.external_queries == old(self).external_queries
                    && self.external_assignments == old(self).external_assignments
                    && self.skip_missing_query_target == old(self).skip_missing_query_target
                    && self.local == old(self).local && self.fallible_expression_error
                    == old(self).fallible_expression_error),
                spec_abort_first(nodes@) && old(self).features.abort && i >= 1 ==> (terminated
                    && node_exprs@.len() == 1 && (node_exprs@[0] is Abort) && self.diags() == diags0
                    && self.abortable && self.fallible == old(self).fallible
                    && self.external_queries == old(self).external_queries
                    && self.external_assignments == old(self).external_assignments),
                (nodes@.len() == 1 && old(self).features.query
                    && old(self).skip_missing_query_target@.len() == 0 && i >= 1)
                    ==> match nodes@[0] {
                    RootExpr::Expr(e) => match spec_ext_query_path(e) {
                        Some(p) => self.external_queries@ == old(self).external_queries@.push(p)
                            && self.external_assignments == old(self).external_assignments
                            && self.diags() == diags0 && self.fallible == old(self).fallible
                            && self.abortable == old(self).abortable && node_exprs@.len() == 1,
                        None => true,
                    },
                    _ => true,
                },
                (nodes@.len() == 1 && old(self).features.assignment && old(self).features.literal
                    && i >= 1) ==> match nodes@[0] {
                    RootExpr::Expr(e) => match spec_ext_assign_shape(e) {
                        Some((p, _)) => self.external_assignments@
                            == old(self).external_assignments@.push(p) && self.external_queries
                            == old(self).external_queries && self.diags() == diags0
                            && self.fallible == old(self).fallible && self.abortable
                            == old(self).abortable && node_exprs@.len() == 1,
                        None => true,
                    },
                    _ => true,
                },
                (nodes@.len() == 1 && i >= 1) ==> match nodes@[0] {
                    RootExpr::Error(sp2, detail) => node_exprs@.len() == 0 && self.diags()
                        == diags0.push(
                        (Diagnostic {
                            severity: Severity::Error,
                            kind: (DiagnosticKind::ParseFailure { detail: detail }),
                            span: sp2,
                        }),
                    ) && self.fallible == old(self).fallible && self.abortable
                        == old(self).abortable && self.external_queries
                        == old(self).external_queries && self.external_assignments
                        == old(self).external_assignments,
                    _ => true,
                },
            decreases n - i,
        {
            if !terminated {
                match &nodes[i] {
                    RootExpr::Expr(node_expr) => {
                        self.fallible_expression_error = None;
                        let compiled = self.compile_expr(node_expr, external);
                        match compiled {
                            Some((expr, type_def)) => {
                                let pending = self.fallible_expression_error.take();
                                match pending {
                                    Some(d) => {
                                        self.diagnostics.push(d);
                                    },
                                    None => {},
                                }
                                node_exprs.push(expr);
                                if type_def.is_never() {
                                    // A terminal expression: what follows
                                    // can never execute, so it is neither
                                    // compiled nor emitted.
                                    terminated = true;
                                }
                            },
                            None => {},
                        }
                    },
                    RootExpr::Error(span, detail) => {
                        self.diagnostics.push(
                            Diagnostic::error(
                                DiagnosticKind::ParseFailure { detail: detail.clone() },
                                *span,
                            ),
                        );
                    },
                }
            }
            i = i + 1;
        }
        if node_exprs.len() == 0 {
            node_exprs.push(Expr::Noop);
        }
        node_exprs
    }

    /// Compile a list of expressions, stopping after one whose type is
    /// "never".  The list's type is its last expression's, fallible as
    /// soon as any member is.
    fn compile_exprs(&mut self, nodes: &Vec<ast::Expr>, external: &mut ExternalEnv) -> (r: Option<
        (Vec<Expr>, TypeDef),
    >)
        ensures
            diags_kept(old(self).diags(), final(self).diags()),
            final(self).features == old(self).features,
            final(self).fns == old(self).fns,
            old(self).abortable ==> final(self).abortable,
            old(self).fallible ==> final(self).fallible,
            nodes@.len() == 0 ==> (r matches Some((es, td)) && es@.len() == 0 && td == (TypeDef {
                fallible: false,
                kind: (Kind { null: true, ..Kind::spec_never() }),
            }) && final(self).local == old(self).local && final(self).diags() == old(self).diags()
                && final(self).fallible_expression_error == old(self).fallible_expression_error
                && final(external).target_kind() == old(external).target_kind()),
            old(self).features.literal ==> match spec_single_literal(nodes@) {
                Some(k) => {
                    &&& r matches Some((es, td)) && es@.len() == 1 && td == (TypeDef {
                        fallible: false,
                        kind: k,
                    })
                    &&& final(self).local == old(self).local
                    &&& final(self).diags() == old(self).diags()
                    &&& final(self).fallible_expression_error
                        == old(self).fallible_expression_error
                    &&& final(external).target_kind() == old(external).target_kind()
                },
                None => true,
            },
            old(self).features.assignment && old(self).features.literal ==> match
                spec_single_assign(nodes@) {
                Some((x, k)) => {
                    &&& r matches Some((es, td)) && es@.len() == 1 && td == (TypeDef {
                        fallible: false,
                        kind: k,
                    })
                    &&& final(self).local@ == spec_env_insert(old(self).local@, x, k)
                    &&& final(self).diags() == old(self).diags()
                    &&& final(self).fallible_expression_error
                        == old(self).fallible_expression_error
                    &&& final(external).target_kind() == old(external).target_kind()
                },
                None => true,
            },
        decreases nodes, 0nat,
    {
        let ghost diags0 = self.diags();
        let n = nodes.len();
        let mut exprs: Vec<Expr> = Vec::new();
        let mut type_def = TypeDef { fallible: false, kind: Kind::null() };
        if n == 0 {
            return Some((exprs, type_def));
        }
        let first = self.compile_expr(&nodes[0], external);
        match first {
            Some((expr, td)) => {
                exprs.push(expr);
                type_def = TypeDef { fallible: td.fallible, kind: td.kind };
                if td.is_never() {
                    // A terminal expression: the rest of the list can
                    // never execute.
                    return Some((exprs, type_def));
                }
            },
            None => {
                return None;
            },
        }
        let mut i: usize = 1;
        while i < n
            invariant
                1 <= i <= n,
                n == nodes@.len(),
                diags0 == old(self).diags(),
                diags_kept(diags0, self.diags()),
                self.features == old(self).features,
                self.fns == old(self).fns,
                old(self).abortable ==> self.abortable,
                old(self).fallible ==> self.fallible,
                old(self).features.literal ==> match spec_single_literal(nodes@) {
                    Some(k) => exprs@.len() == 1 && type_def == (TypeDef {
                        fallible: false,
                        kind: k,
                    }) && self.local == old(self).local && self.diags() == diags0
                        && self.fallible_expression_error == old(self).fallible_expression_error
                        && external.target_kind() == old(external).target_kind(),
                    None => true,
                },
                old(self).features.assignment && old(self).features.literal ==> match
                    spec_single_assign(nodes@) {
                    Some((x, k)) => exprs@.len() == 1 && type_def == (TypeDef {
                        fallible: false,
                        kind: k,
                    }) && self.local@ == spec_env_insert(old(self).local@, x, k) && self.diags()
                        == diags0 && self.fallible_expression_error == old(
                        self,
                    ).fallible_expression_error && external.target_kind() == old(
                        external,
                    ).target_kind(),
                    None => true,
                },
            decreases n - i,
        {
            let compiled = self.compile_expr(&nodes[i], external);
            match compiled {
                Some((expr, td)) => {
                    exprs.push(expr);
                    type_def = TypeDef { fallible: type_def.fallible || td.fallible, kind: td.kind };
                    if td.is_never() {
                        return Some((exprs, type_def));
                    }
                },
                None => {
                    return None;
                },
            }
            i = i + 1;
        }
        Some((exprs, type_def))
    }

    /// Compile one expression node.  A fallible result starts the pending
    /// fallibility chain if none is tracked yet.
    #[verifier::rlimit(100)]
    fn compile_expr(&mut self, node: &ast::Expr, external: &mut ExternalEnv) -> (r: Option<
        (Expr, TypeDef),
    >)
        ensures
            diags_kept(old(self).diags(), final(self).diags()),
            final(self).features == old(self).features,
            final(self).fns == old(self).fns,
            old(self).abortable ==> final(self).abortable,
            old(self).fallible ==> final(self).fallible,
            (*node) matches ast::Expr::Literal(_, lit) ==> {
                &&& final(self).local == old(self).local
                &&& final(self).fallible_expression_error == old(self).fallible_expression_error
                &&& final(self).fallible == old(self).fallible
                &&& final(self).abortable == old(self).abortable
                &&& final(self).external_queries == old(self).external_queries
                &&& final(self).external_assignments == old(self).external_assignments
                &&& final(self).skip_missing_query_target == old(self).skip_missing_query_target
                &&& final(external).target_kind() == old(external).target_kind()
                &&& (!old(self).features.literal ==> r is None)
                &&& (old(self).features.literal ==> match spec_literal_outcome(lit) {
                    Some(k) => r matches Some((e, td)) && e == Expr::Literal(lit) && td == (TypeDef {
                        fallible: false,
                        kind: k,
                    }) && final(self).diags() == old(self).diags(),
                    None => r is None && final(self).diags().len() == old(self).diags().len() + 1,
                })
            },
            (*node) matches ast::Expr::Variable(sp2, ident) ==> {
                &&& final(self).local == old(self).local
                &&& final(self).fallible_expression_error == old(self).fallible_expression_error
                &&& final(external).target_kind() == old(external).target_kind()
                &&& (spec_skipped(old(self).skip_missing_query_target@, false, ident@, "."@)
                    ==> r is None && final(self).diags() == old(self).diags())
                &&& (!spec_skipped(old(self).skip_missing_query_target@, false, ident@, "."@)
                    ==> match spec_get(old(self).local@, ident@) {
                    Some(k) => r matches Some((_, td)) && td == (TypeDef {
                        fallible: false,
                        kind: k,
                    }) && final(self).diags() == old(self).diags(),
                    None => r is None && final(self).diags() == old(self).diags().push(
                        (Diagnostic {
                            severity: Severity::Error,
                            kind: (DiagnosticKind::UndefinedVariable { ident: ident }),
                            span: sp2,
                        }),
                    ),
                })
            },
            (*node) matches ast::Expr::Abort(_, None) && old(self).features.abort ==> (r matches
                Some((e, td)) && (e is Abort) && td == (TypeDef {
                fallible: false,
                kind: Kind::spec_never(),
            }) && final(self).diags() == old(self).diags() && final(self).abortable
                && final(self).local == old(self).local && final(self).fallible_expression_error
                == old(self).fallible_expression_error && final(self).fallible
                == old(self).fallible && final(self).external_queries
                == old(self).external_queries && final(self).external_assignments
                == old(self).external_assignments && final(external).target_kind()
                == old(external).target_kind()),
            old(self).features.assignment && old(self).features.literal ==> match spec_assign_shape(
                *node,
            ) {
                Some((x, k)) => {
                    &&& r matches Some((_, td)) && td == (TypeDef { fallible: false, kind: k })
                    &&& final(self).local@ == spec_env_insert(old(self).local@, x, k)
                    &&& final(self).diags() == old(self).diags()
                    &&& final(self).fallible_expression_error
                        == old(self).fallible_expression_error
                    &&& final(external).target_kind() == old(external).target_kind()
                },
                None => true,
            },
            old(self).features.assignment && old(self).features.literal ==> match
                spec_ext_assign_shape(*node) {
                Some((p, k)) => {
                    &&& r matches Some((_, td)) && td == (TypeDef { fallible: false, kind: k })
                    &&& final(self).local == old(self).local
                    &&& final(self).diags() == old(self).diags()
                    &&& final(self).fallible_expression_error
                        == old(self).fallible_expression_error
                    &&& final(self).external_assignments@
                        == old(self).external_assignments@.push(p)
                    &&& final(self).external_queries == old(self).external_queries
                    &&& final(self).fallible == old(self).fallible
                    &&& final(self).abortable == old(self).abortable
                    &&& final(external).target_kind() == old(external).target_kind().spec_union(
                        Kind { object: true, ..Kind::spec_never() },
                    )
                },
                None => true,
            },
            old(self).features.query && old(self).skip_missing_query_target@.len() == 0 ==> match
                spec_ext_query_path(*node) {
                Some(p) => {
                    &&& r matches Some((_, td)) && td == (TypeDef {
                        fallible: false,
                        kind: Kind::spec_any(),
                    })
                    &&& final(self).local == old(self).local
                    &&& final(self).diags() == old(self).diags()
                    &&& final(self).fallible_expression_error
                        == old(self).fallible_expression_error
                    &&& final(self).external_queries@ == old(self).external_queries@.push(p)
                    &&& final(self).external_assignments == old(self).external_assignments
                    &&& final(self).fallible == old(self).fallible
                    &&& final(self).abortable == old(self).abortable
                    &&& final(external).target_kind() == old(external).target_kind()
                },
                None => true,
            },
            spec_coalesce_literal(*node) && old(self).features.op && old(self).features.literal
                && r is Some ==> final(self).fallible_expression_error is None,
        decreases node, 0nat,
    {
        let span = node.span();
        let compiled = match node {
            ast::Expr::Literal(span, lit) => self.compile_literal(lit, *span),
            ast::Expr::Container(_, c) => self.compile_container(c, external),
            ast::Expr::IfStatement(span, stmt) => self.compile_if_statement(stmt, *span, external),
            ast::Expr::Op(span, lhs, opcode, rhs) => {
                if !self.features.op {
                    self.diagnostics.push(
                        Diagnostic::error(
                            DiagnosticKind::MissingFeature {
                                feature: String::from_str("expr-op"),
                            },
                            *span,
                        ),
                    );
                    None
                } else {
                    match self.compile_expr(lhs, external) {
                        Some((lhs_expr, lhs_td)) => {
                            if matches!(opcode, Opcode::Coalesce) {
                                // Error coalescing handles the left side's
                                // failure.
                                self.fallible_expression_error = None;
                            }
                            match self.compile_expr(rhs, external) {
                                Some((rhs_expr, rhs_td)) => {
                                    match self.op_type_def(lhs_td, *opcode, rhs_td, *span) {
                                        Some(td) => Some(
                                            (
                                                Expr::Op {
                                                    lhs: Box::new(lhs_expr),
                                                    opcode: *opcode,
                                                    rhs: Box::new(rhs_expr),
                                                },
                                                td,
                                            ),
                                        ),
                                        None => None,
                                    }
                                },
                                None => None,
                            }
                        },
                        None => None,
                    }
                }
            },
            ast::Expr::Assignment(span, a) => self.compile_assignment(a, *span, external),
            ast::Expr::Query(span, q) => self.compile_query(q, *span, external),
            ast::Expr::FunctionCall(span, call) => self.compile_function_call(call, *span, external),
            ast::Expr::Variable(span, ident) => self.compile_variable(ident, *span),
            ast::Expr::Not(span, inner) => self.compile_not(inner, *span, external),
            ast::Expr::Abort(span, message) => self.compile_abort(message, *span, external),
        };
        match compiled {
            Some((expr, type_def)) => {
                if type_def.fallible && self.fallible_expression_error.is_none() {
                    // The first fallible expression of this chain: kept
                    // pending until something clears it or the chain ends.
                    self.fallible_expression_error = Some(
                        Diagnostic::error(DiagnosticKind::FallibleExpression, span),
                    );
                }
                Some((expr, type_def))
            },
            None => None,
        }
    }

    /// Compile a literal.  Regular-expression and timestamp literals are
    /// validated through the crates that will evaluate them.
    fn compile_literal(&mut self, lit: &ast::Literal, span: Span) -> (r: Option<(Expr, TypeDef)>)
        ensures
            diags_kept(old(self).diags(), final(self).diags()),
            final(self).features == old(self).features,
            final(self).fns == old(self).fns,
            old(self).abortable ==> final(self).abortable,
            old(self).fallible ==> final(self).fallible,
            final(self).local == old(self).local,
            final(self).fallible_expression_error == old(self).fallible_expression_error,
            final(self).fallible == old(self).fallible,
            final(self).abortable == old(self).abortable,
            final(self).external_queries == old(self).external_queries,
            final(self).external_assignments == old(self).external_assignments,
            final(self).skip_missing_query_target == old(self).skip_missing_query_target,
            !old(self).features.literal ==> r is None,
            old(self).features.literal ==> match spec_literal_outcome(*lit) {
                Some(k) => r matches Some((e, td)) && e == Expr::Literal(*lit) && td == (TypeDef {
                    fallible: false,
                    kind: k,
                }) && final(self).diags() == old(self).diags(),
                None => r is None && final(self).diags().len() == old(self).diags().len() + 1,
            },
    {
        if !self.features.literal {
            self.diagnostics.push(
                Diagnostic::error(
                    DiagnosticKind::MissingFeature { feature: String::from_str("expr-literal") },
                    span,
                ),
            );
            return None;
        }
        let (value, kind) = match lit {
            ast::Literal::Str(s) => (ast::Literal::Str(s.clone()), Kind::bytes()),
            ast::Literal::Int(v) => (ast::Literal::Int(*v), Kind::integer()),
            ast::Literal::Float(text) => (ast::Literal::Float(text.clone()), Kind::float()),
            ast::Literal::Bool(v) => (ast::Literal::Bool(*v), Kind::boolean()),
            ast::Literal::Null => (ast::Literal::Null, Kind::null()),
            ast::Literal::Regex(pattern) => {
                if !regex_pattern_ok(pattern.as_str()) {
                    self.diagnostics.push(
                        Diagnostic::error(
                            DiagnosticKind::InvalidRegex { pattern: pattern.clone() },
                            span,
                        ),
                    );
                    return None;
                }
                (ast::Literal::Regex(pattern.clone()), Kind::regex())
            },
            ast::Literal::Timestamp(text) => {
                if !timestamp_text_ok(text.as_str()) {
                    self.diagnostics.push(
                        Diagnostic::error(
                            DiagnosticKind::InvalidTimestamp { text: text.clone() },
                            span,
                        ),
                    );
                    return None;
                }
                (ast::Literal::Timestamp(text.clone()), Kind::timestamp())
            },
        };
        Some((Expr::Literal(value), TypeDef { fallible: false, kind }))
    }

    /// Compile a grouping container.
    fn compile_container(&mut self, container: &ast::Container, external: &mut ExternalEnv) -> (r:
        Option<(Expr, TypeDef)>)
        ensures
            diags_kept(old(self).diags(), final(self).diags()),
            final(self).features == old(self).features,
            final(self).fns == old(self).fns,
            old(self).abortable ==> final(self).abortable,
            old(self).fallible ==> final(self).fallible,
        decreases container, 0nat,
    {
        match container {
            ast::Container::Group(inner) => {
                let compiled = self.compile_expr(inner, external);
                match compiled {
                    Some((expr, td)) => Some((Expr::Group(Box::new(expr)), td)),
                    None => None,
                }
            },
            ast::Container::Block(exprs) => self.compile_block(exprs, external),
            ast::Container::Array(exprs) => {
                let compiled = self.compile_exprs(exprs, external);
                match compiled {
                    Some((exprs, td)) => Some(
                        (
                            Expr::Array(exprs),
                            TypeDef { fallible: td.fallible, kind: Kind::array() },
                        ),
                    ),
                    None => None,
                }
            },
            ast::Container::Object(entries) => self.compile_object(entries, external),
        }
    }

    /// Compile a block.  The block sees the surrounding scope; bindings
    /// it introduces are dropped when it closes, mutations it makes to
    /// pre-existing bindings are kept.
    fn compile_block(&mut self, exprs: &Vec<ast::Expr>, external: &mut ExternalEnv) -> (r: Option<
        (Expr, TypeDef),
    >)
        ensures
            diags_kept(old(self).diags(), final(self).diags()),
            final(self).features == old(self).features,
            final(self).fns == old(self).fns,
            old(self).abortable ==> final(self).abortable,
            old(self).fallible ==> final(self).fallible,
            final(self).local@.len() == old(self).local@.len(),
            forall|i: int|
                0 <= i < final(self).local@.len() ==> (#[trigger] final(self).local@[i]).0
                    == old(self).local@[i].0,
            old(self).features.assignment && old(self).features.literal ==> match
                spec_single_assign(exprs@) {
                Some((x, k)) => {
                    &&& r matches Some((_, td)) && td == (TypeDef { fallible: false, kind: k })
                    &&& final(self).local@ == spec_restrict(
                        old(self).local@,
                        spec_env_insert(old(self).local@, x, k),
                    )
                    &&& final(self).diags() == old(self).diags()
                    &&& final(self).fallible_expression_error
                        == old(self).fallible_expression_error
                    &&& final(external).target_kind() == old(external).target_kind()
                },
                None => true,
            },
        decreases exprs, 1nat,
    {
        let local_snapshot = self.local.duplicate();
        let ghost local0 = self.local@;
        let compiled = self.compile_exprs(exprs, external);
        match compiled {
            Some((exprs, td)) => {
                let ghost child = self.local@;
                let closed = local_snapshot.apply_child_scope(&self.local);
                self.local = closed;
                proof {
                    assert(self.local@ == spec_restrict(local0, child));
                    assert forall|i: int| 0 <= i < self.local@.len() implies (
                    #[trigger] self.local@[i]).0 == local0[i].0 by {
                        assert(spec_restrict(local0, child)[i].0 == local0[i].0);
                    }
                }
                Some((Expr::Block(exprs), td))
            },
            None => {
                let ghost child = self.local@;
                let closed = local_snapshot.apply_child_scope(&self.local);
                self.local = closed;
                proof {
                    assert(self.local@ == spec_restrict(local0, child));
                    assert forall|i: int| 0 <= i < self.local@.len() implies (
                    #[trigger] self.local@[i]).0 == local0[i].0 by {
                        assert(spec_restrict(local0, child)[i].0 == local0[i].0);
                    }
                }
                None
            },
        }
    }

    /// Compile an object literal, field by field.
    fn compile_object(
        &mut self,
        entries: &Vec<(String, ast::Expr)>,
        external: &mut ExternalEnv,
    ) -> (r: Option<(Expr, TypeDef)>)
        ensures
            diags_kept(old(self).diags(), final(self).diags()),
            final(self).features == old(self).features,
            final(self).fns == old(self).fns,
            old(self).abortable ==> final(self).abortable,
            old(self).fallible ==> final(self).fallible,
        decreases entries, 0nat,
    {
        let mut compiled_entries: Vec<(String, Expr)> = Vec::new();
        let mut fallible = false;
        let n = entries.len();
        let mut i: usize = 0;
        let ghost diags0 = self.diags();
        while i < n
            invariant
                i <= n,
                n == entries@.len(),
                diags0 == old(self).diags(),
                diags_kept(diags0, self.diags()),
                self.features == old(self).features,
                self.fns == old(self).fns,
                old(self).abortable ==> self.abortable,
                old(self).fallible ==> self.fallible,
            decreases n - i,
        {
            let compiled = self.compile_expr(&entries[i].1, external);
            match compiled {
                Some((expr, td)) => {
                    compiled_entries.push((entries[i].0.clone(), expr));
                    fallible = fallible || td.fallible;
                },
                None => {
                    return None;
                },
            }
            i = i + 1;
        }
        Some((Expr::Object(compiled_entries), TypeDef { fallible, kind: Kind::object() }))
    }

    /// Compile an if-statement.  The predicate must be an infallible
    /// boolean.  The consequent is compiled against the current state and
    /// the alternative against the pre-branch snapshot; afterwards the
    /// local and event scopes each become the merge of the two branch
    /// outcomes, or of the branch outcome and the pre-branch state when
    /// there is no alternative, because control may skip the branch.
    fn compile_if_statement(
        &mut self,
        stmt: &ast::IfStatement,
        span: Span,
        external: &mut ExternalEnv,
    ) -> (r: Option<(Expr, TypeDef)>)
        ensures
            diags_kept(old(self).diags(), final(self).diags()),
            final(self).features == old(self).features,
            final(self).fns == old(self).fns,
            old(self).abortable ==> final(self).abortable,
            old(self).fallible ==> final(self).fallible,
            (old(self).fallible_expression_error is None && spec_bool_predicate(stmt.predicate@)
                && old(self).features.if_statement && old(self).features.literal
                && old(self).features.assignment) ==> match (
                spec_single_assign(stmt.consequent@),
                &stmt.alternative,
            ) {
                (Some((x1, k1)), Some(alt)) => match spec_single_assign(alt@) {
                    Some((x2, k2)) => {
                        &&& r is Some
                        &&& final(self).local@ == spec_env_merge(
                            spec_env_insert(old(self).local@, x2, k2),
                            spec_env_insert(old(self).local@, x1, k1),
                        )
                        &&& final(self).diags() == old(self).diags()
                        &&& final(external).target_kind() == old(external).target_kind()
                    },
                    None => true,
                },
                (Some((x1, k1)), None) => {
                    &&& r is Some
                    &&& final(self).local@ == spec_env_merge(
                        spec_env_insert(old(self).local@, x1, k1),
                        old(self).local@,
                    )
                    &&& final(self).diags() == old(self).diags()
                    &&& final(external).target_kind() == old(external).target_kind()
                },
                _ => true,
            },
        decreases stmt, 0nat,
    {
        if !self.features.if_statement {
            self.diagnostics.push(
                Diagnostic::error(
                    DiagnosticKind::MissingFeature {
                        feature: String::from_str("expr-if_statement"),
                    },
                    span,
                ),
            );
            return None;
        }
        let predicate = match self.compile_predicate(&stmt.predicate, span, external) {
            Some(p) => p,
            None => {
                return None;
            },
        };

        let original_locals = self.local.duplicate();
        let original_external = external.target();

        // Branch assignments stay visible after the statement (they are
        // merged below), unlike bindings a plain block introduces.
        let consequent = match self.compile_exprs(&stmt.consequent, external) {
            Some(compiled) => compiled,
            None => {
                return None;
            },
        };

        match &stmt.alternative {
            Some(branch) => {
                let consequent_locals = self.local.duplicate();
                let consequent_external = external.target();

                self.local = original_locals;
                external.update_target(original_external);

                let else_block = match self.compile_exprs(branch, external) {
                    Some(compiled) => compiled,
                    None => {
                        return None;
                    },
                };

                // The state after the branch is the outcome of one of the
                // two blocks, never the pre-branch state.
                self.local = self.local.merge(&consequent_locals);
                external.update_target(consequent_external.union(&external.target()));
                proof {
                    assert(old(external).target_kind().spec_union(old(external).target_kind())
                        == old(external).target_kind());
                }

                let kind = consequent.1.kind.union(&else_block.1.kind);
                let fallible = consequent.1.fallible || else_block.1.fallible;
                Some(
                    (
                        Expr::IfStatement {
                            predicate,
                            consequent: consequent.0,
                            alternative: Some(else_block.0),
                        },
                        TypeDef { fallible, kind },
                    ),
                )
            },
            None => {
                // Without an alternative, control may skip the branch
                // entirely: merge the branch outcome with the original
                // state, and the statement may also yield null.
                self.local = self.local.merge(&original_locals);
                external.update_target(original_external.union(&external.target()));
                proof {
                    assert(old(external).target_kind().spec_union(old(external).target_kind())
                        == old(external).target_kind());
                }

                let kind = consequent.1.kind.union(&Kind::null());
                Some(
                    (
                        Expr::IfStatement {
                            predicate,
                            consequent: consequent.0,
                            alternative: None,
                        },
                        TypeDef { fallible: consequent.1.fallible, kind },
                    ),
                )
            },
        }
    }

    /// Compile an if-predicate: it must resolve to a boolean and must not
    /// be fallible.
    fn compile_predicate(
        &mut self,
        exprs: &Vec<ast::Expr>,
        span: Span,
        external: &mut ExternalEnv,
    ) -> (r: Option<Vec<Expr>>)
        ensures
            diags_kept(old(self).diags(), final(self).diags()),
            final(self).features == old(self).features,
            final(self).fns == old(self).fns,
            old(self).abortable ==> final(self).abortable,
            old(self).fallible ==> final(self).fallible,
            r is Some ==> final(self).fallible_expression_error is None,
            (old(self).fallible_expression_error is None && spec_bool_predicate(exprs@)
                && old(self).features.literal) ==> (r is Some && final(self).local
                == old(self).local && final(self).diags() == old(self).diags()
                && final(self).fallible_expression_error is None && final(external).target_kind()
                == old(external).target_kind()),
        decreases exprs, 1nat,
    {
        proof {
            if spec_bool_predicate(exprs@) {
                assert(spec_single_literal(exprs@) == Some(
                    Kind { boolean: true, ..Kind::spec_never() },
                ));
            }
        }
        let compiled = match self.compile_exprs(exprs, external) {
            Some(c) => c,
            None => {
                return None;
            },
        };
        if !compiled.1.kind.is_exactly_boolean() {
            self.diagnostics.push(
                Diagnostic::error(DiagnosticKind::NonBooleanPredicate, span),
            );
            return None;
        }
        if self.fallible_expression_error.is_some() {
            self.fallible_expression_error = None;
            self.diagnostics.push(Diagnostic::error(DiagnosticKind::FalliblePredicate, span));
            return None;
        }
        Some(compiled.0)
    }

    /// The type of a binary operation, from its operand types.  The merge
    /// operator demands object operands; arithmetic on operands that may
    /// not be numbers can fail at run time.
    fn op_type_def(&mut self, lhs_td: TypeDef, opcode: Opcode, rhs_td: TypeDef, span: Span) -> (r:
        Option<TypeDef>)
        ensures
            diags_kept(old(self).diags(), final(self).diags()),
            final(self).features == old(self).features,
            final(self).fns == old(self).fns,
            old(self).abortable ==> final(self).abortable,
            old(self).fallible ==> final(self).fallible,
            final(self).local == old(self).local,
            final(self).fallible_expression_error == old(self).fallible_expression_error,
            final(self).fallible == old(self).fallible,
            final(self).abortable == old(self).abortable,
            r == spec_op_outcome(lhs_td, opcode, rhs_td),
            r is Some ==> final(self).diags() == old(self).diags(),
            r is None ==> final(self).diags() == old(self).diags().push(
                (Diagnostic {
                    severity: Severity::Error,
                    kind: DiagnosticKind::InvalidMergeOperation,
                    span: span,
                }),
            ),
    {
        let type_def = match opcode {
            Opcode::Coalesce => TypeDef {
                fallible: rhs_td.fallible,
                kind: lhs_td.kind.union(&rhs_td.kind),
            },
            Opcode::Or => TypeDef {
                fallible: lhs_td.fallible || rhs_td.fallible,
                kind: lhs_td.kind.union(&rhs_td.kind),
            },
            Opcode::And => TypeDef {
                fallible: lhs_td.fallible || rhs_td.fallible,
                kind: Kind::boolean(),
            },
            Opcode::Eq | Opcode::Ne => TypeDef {
                fallible: lhs_td.fallible || rhs_td.fallible,
                kind: Kind::boolean(),
            },
            Opcode::Gt | Opcode::Ge | Opcode::Lt | Opcode::Le => TypeDef {
                fallible: lhs_td.fallible || rhs_td.fallible || !lhs_td.kind.is_numeric()
                    || !rhs_td.kind.is_numeric(),
                kind: Kind::boolean(),
            },
            Opcode::Div => TypeDef {
                // Division can always fail: the divisor may be zero.
                fallible: true,
                kind: Kind::float().union(&Kind::integer()),
            },
            Opcode::Add | Opcode::Sub | Opcode::Mul => {
                if lhs_td.kind.is_numeric() && rhs_td.kind.is_numeric() {
                    TypeDef {
                        fallible: lhs_td.fallible || rhs_td.fallible,
                        kind: lhs_td.kind.union(&rhs_td.kind),
                    }
                } else if matches!(opcode, Opcode::Add) && lhs_td.kind.is_exactly_bytes()
                    && rhs_td.kind.is_exactly_bytes() {
                    TypeDef { fallible: lhs_td.fallible || rhs_td.fallible, kind: Kind::bytes() }
                } else {
                    // The operand kinds leave room for a run-time type
                    // mismatch.
                    TypeDef {
                        fallible: true,
                        kind: Kind::bytes().union(&Kind::integer()).union(&Kind::float()),
                    }
                }
            },
            Opcode::Merge => {
                if lhs_td.kind.is_exactly_object() && rhs_td.kind.is_exactly_object() {
                    TypeDef { fallible: lhs_td.fallible || rhs_td.fallible, kind: Kind::object() }
                } else {
                    self.diagnostics.push(
                        Diagnostic::error(DiagnosticKind::InvalidMergeOperation, span),
                    );
                    return None;
                }
            },
        };
        Some(type_def)
    }

    /// Note a query target whose defining assignment failed to compile.
    fn skip_missing_assignment_target(&mut self, target: &AssignmentTarget)
        ensures
            diags_kept(old(self).diags(), final(self).diags()),
            final(self).features == old(self).features,
            final(self).fns == old(self).fns,
            old(self).abortable ==> final(self).abortable,
            old(self).fallible ==> final(self).fallible,
            final(self).diags() == old(self).diags(),
            final(self).local == old(self).local,
            final(self).fallible_expression_error == old(self).fallible_expression_error,
            final(self).external_queries == old(self).external_queries,
            final(self).external_assignments == old(self).external_assignments,
            target is Noop ==> final(self).skip_missing_query_target
                == old(self).skip_missing_query_target,
            !(target is Noop) ==> {
                let entries = final(self).skip_missing_query_target@;
                let before = old(self).skip_missing_query_target@;
                &&& entries.len() == before.len() + 1
                &&& (forall|k: int| 0 <= k < before.len() ==> #[trigger] entries[k] == before[k])
                &&& ((*target) matches AssignmentTarget::Internal(x, p) ==> !entries.last().external
                    && entries.last().ident == x && (match p {
                    Some(pp) => entries.last().path == pp,
                    None => entries.last().path@ == "."@,
                }))
                &&& ((*target) matches AssignmentTarget::External(p) ==> entries.last().external
                    && entries.last().ident@ == Seq::<char>::empty() && (match p {
                    Some(pp) => entries.last().path == pp,
                    None => entries.last().path@ == "."@,
                }))
            },
    {
        match target {
            AssignmentTarget::Noop => {},
            AssignmentTarget::Internal(ident, path) => {
                let path = match path {
                    Some(p) => p.clone(),
                    None => String::from_str("."),
                };
                self.skip_missing_query_target.push(
                    SkipEntry { external: false, ident: ident.clone(), path },
                );
            },
            AssignmentTarget::External(path) => {
                let path = match path {
                    Some(p) => p.clone(),
                    None => String::from_str("."),
                };
                self.skip_missing_query_target.push(
                    SkipEntry { external: true, ident: String::new(), path },
                );
            },
        }
    }

    /// Whether a query of this target was suppressed.
    fn is_skipped_target(&self, external_target: bool, ident: &str, path: &str) -> (r: bool)
        ensures
            r == spec_skipped(self.skip_missing_query_target@, external_target, ident@, path@),
    {
        let n = self.skip_missing_query_target.len();
        let mut i: usize = 0;
        while i < n
            invariant
                i <= n,
                n == self.skip_missing_query_target@.len(),
                forall|k: int|
                    0 <= k < i ==> !((#[trigger] self.skip_missing_query_target@[k]).external
                        == external_target && self.skip_missing_query_target@[k].ident@ == ident@
                        && self.skip_missing_query_target@[k].path@ == path@),
            decreases n - i,
        {
            let entry = &self.skip_missing_query_target[i];
            if entry.external == external_target && str_eq(entry.ident.as_str(), ident) && str_eq(
                entry.path.as_str(),
                path,
            ) {
                proof {
                    assert(spec_skipped(
                        self.skip_missing_query_target@,
                        external_target,
                        ident@,
                        path@,
                    ));
                }
                return true;
            }
            i = i + 1;
        }
        false
    }

    /// Apply one assignment target to the scopes: a variable takes the
    /// assigned kind, an event path is recorded as written.
    fn apply_assignment_target(
        &mut self,
        target: &AssignmentTarget,
        kind: Kind,
        external: &mut ExternalEnv,
    )
        ensures
            diags_kept(old(self).diags(), final(self).diags()),
            final(self).diags() == old(self).diags(),
            final(self).features == old(self).features,
            final(self).fns == old(self).fns,
            old(self).abortable ==> final(self).abortable,
            old(self).fallible ==> final(self).fallible,
            final(self).fallible_expression_error == old(self).fallible_expression_error,
            final(self).fallible == old(self).fallible,
            final(self).abortable == old(self).abortable,
            final(self).external_queries == old(self).external_queries,
            target is Noop ==> final(self).local == old(self).local
                && final(external).target_kind() == old(external).target_kind()
                && final(self).external_assignments == old(self).external_assignments,
            (*target) matches AssignmentTarget::Internal(x, p) ==> {
                &&& final(self).local@ == spec_env_insert(
                    old(self).local@,
                    x@,
                    if p is Some {
                        Kind::spec_any()
                    } else {
                        kind
                    },
                )
                &&& final(external).target_kind() == old(external).target_kind()
                &&& final(self).external_assignments == old(self).external_assignments
            },
            target is External ==> final(self).local == old(self).local
                && final(external).target_kind() == old(external).target_kind().spec_union(
                Kind { object: true, ..Kind::spec_never() },
            ) && final(self).external_assignments@.len() == old(self).external_assignments@.len()
                + 1 && final(self).external_queries == old(self).external_queries,
            (*target) matches AssignmentTarget::External(Some(p))
                ==> final(self).external_assignments@
                == old(self).external_assignments@.push(p),
    {
        match target {
            AssignmentTarget::Noop => {},
            AssignmentTarget::Internal(ident, path) => {
                match path {
                    // A path assignment mutates something inside the
                    // variable: the variable's kind is no longer tracked
                    // precisely.
                    Some(_) => self.local.insert(ident.as_str(), Kind::any()),
                    None => self.local.insert(ident.as_str(), kind),
                }
            },
            AssignmentTarget::External(path) => {
                let path = match path {
                    Some(p) => p.clone(),
                    None => String::from_str("."),
                };
                self.external_assignments.push(path);
                let widened = external.target().union(&Kind::object());
                external.update_target(widened);
            },
        }
    }

    /// Compile an assignment.  The error-handling form `ok, err = expr`
    /// demands a fallible expression and clears its pending fallibility:
    /// the assignment itself handles the failure.
    fn compile_assignment(
        &mut self,
        assignment: &ast::Assignment,
        span: Span,
        external: &mut ExternalEnv,
    ) -> (r: Option<(Expr, TypeDef)>)
        ensures
            diags_kept(old(self).diags(), final(self).diags()),
            final(self).features == old(self).features,
            final(self).fns == old(self).fns,
            old(self).abortable ==> final(self).abortable,
            old(self).fallible ==> final(self).fallible,
            old(self).features.assignment && old(self).features.literal ==> match
                spec_assignment_shape(*assignment) {
                Some((x, k)) => {
                    &&& r matches Some((_, td)) && td == (TypeDef { fallible: false, kind: k })
                    &&& final(self).local@ == spec_env_insert(old(self).local@, x, k)
                    &&& final(self).diags() == old(self).diags()
                    &&& final(self).fallible_expression_error
                        == old(self).fallible_expression_error
                    &&& final(external).target_kind() == old(external).target_kind()
                },
                None => true,
            },
            old(self).features.assignment && old(self).features.literal ==> match
                spec_ext_assignment_shape(*assignment) {
                Some((p, k)) => {
                    &&& r matches Some((_, td)) && td == (TypeDef { fallible: false, kind: k })
                    &&& final(self).local == old(self).local
                    &&& final(self).diags() == old(self).diags()
                    &&& final(self).fallible_expression_error
                        == old(self).fallible_expression_error
                    &&& final(self).external_assignments@
                        == old(self).external_assignments@.push(p)
                    &&& final(self).external_queries == old(self).external_queries
                    &&& final(self).fallible == old(self).fallible
                    &&& final(self).abortable == old(self).abortable
                    &&& final(external).target_kind() == old(external).target_kind().spec_union(
                        Kind { object: true, ..Kind::spec_never() },
                    )
                },
                None => true,
            },
            (assignment is Infallible && r is Some) ==> final(self).fallible_expression_error
                is None,
            (spec_infallible_literal(*assignment) && old(self).features.assignment
                && old(self).features.literal) ==> (r is None && final(self).diags()
                == old(self).diags().push(
                (Diagnostic {
                    severity: Severity::Error,
                    kind: DiagnosticKind::UnneededErrorAssignment,
                    span: span,
                }),
            )),
        decreases assignment, 0nat,
    {
        if !self.features.assignment {
            self.diagnostics.push(
                Diagnostic::error(
                    DiagnosticKind::MissingFeature { feature: String::from_str("expr-assignment") },
                    span,
                ),
            );
            return None;
        }
        match assignment {
            ast::Assignment::Single { target, op, expr } => {
                let compiled = self.compile_expr(expr, external);
                let (value_expr, value_td) = match compiled {
                    Some(c) => c,
                    None => {
                        self.skip_missing_assignment_target(target);
                        return None;
                    },
                };
                if matches!(op, AssignmentOp::Merge) && !value_td.kind.is_exactly_object() {
                    self.diagnostics.push(
                        Diagnostic::error(DiagnosticKind::InvalidMergeOperation, span),
                    );
                    return None;
                }
                self.apply_assignment_target(target, value_td.kind, external);
                Some(
                    (
                        Expr::Assignment {
                            ok: target.clone(),
                            err: None,
                            op: *op,
                            expr: Box::new(value_expr),
                        },
                        value_td,
                    ),
                )
            },
            ast::Assignment::Infallible { ok, err, op, expr } => {
                let compiled = self.compile_expr(expr, external);
                let (value_expr, value_td) = match compiled {
                    Some(c) => c,
                    None => {
                        self.skip_missing_assignment_target(ok);
                        self.skip_missing_assignment_target(err);
                        return None;
                    },
                };
                if matches!(op, AssignmentOp::Merge) && !value_td.kind.is_exactly_object() {
                    self.diagnostics.push(
                        Diagnostic::error(DiagnosticKind::InvalidMergeOperation, span),
                    );
                    return None;
                }
                if !value_td.fallible {
                    self.diagnostics.push(
                        Diagnostic::error(DiagnosticKind::UnneededErrorAssignment, span),
                    );
                    return None;
                }
                // The error-handling assignment nullifies the expression's
                // fallibility.
                self.fallible_expression_error = None;
                self.apply_assignment_target(ok, value_td.kind, external);
                self.apply_assignment_target(
                    err,
                    Kind::bytes().union(&Kind::null()),
                    external,
                );
                Some(
                    (
                        Expr::Assignment {
                            ok: ok.clone(),
                            err: Some(err.clone()),
                            op: *op,
                            expr: Box::new(value_expr),
                        },
                        TypeDef { fallible: false, kind: value_td.kind },
                    ),
                )
            },
        }
    }

    /// Compile a path query.  A read of the event target is recorded for
    /// the program metadata; a read whose root cause already failed to
    /// compile is suppressed.
    fn compile_query(&mut self, query: &ast::Query, span: Span, external: &mut ExternalEnv) -> (r:
        Option<(Expr, TypeDef)>)
        ensures
            diags_kept(old(self).diags(), final(self).diags()),
            final(self).features == old(self).features,
            final(self).fns == old(self).fns,
            old(self).abortable ==> final(self).abortable,
            old(self).fallible ==> final(self).fallible,
            old(self).features.query && query.target is External ==> {
                &&& final(self).local == old(self).local
                &&& final(self).diags() == old(self).diags()
                &&& final(self).fallible_expression_error == old(self).fallible_expression_error
                &&& final(self).external_assignments == old(self).external_assignments
                &&& final(self).fallible == old(self).fallible
                &&& final(self).abortable == old(self).abortable
                &&& final(external).target_kind() == old(external).target_kind()
                &&& (spec_skipped(old(self).skip_missing_query_target@, true, ""@, query.path@)
                    ==> r is None && final(self).external_queries
                    == old(self).external_queries)
                &&& (!spec_skipped(old(self).skip_missing_query_target@, true, ""@, query.path@)
                    ==> (r matches Some((_, td)) && td == (TypeDef {
                    fallible: false,
                    kind: Kind::spec_any(),
                }) && final(self).external_queries@ == old(self).external_queries@.push(
                    query.path,
                )))
            },
        decreases query, 0nat,
    {
        if !self.features.query {
            self.diagnostics.push(
                Diagnostic::error(
                    DiagnosticKind::MissingFeature { feature: String::from_str("expr-query") },
                    span,
                ),
            );
            return None;
        }
        match &query.target {
            ast::QueryTarget::External => {
                if self.is_skipped_target(true, "", query.path.as_str()) {
                    return None;
                }
                self.external_queries.push(query.path.clone());
                Some(
                    (
                        Expr::Query {
                            external: true,
                            variable: None,
                            subject: None,
                            path: query.path.clone(),
                        },
                        TypeDef { fallible: false, kind: Kind::any() },
                    ),
                )
            },
            ast::QueryTarget::Internal(ident) => {
                if self.is_skipped_target(false, ident.as_str(), query.path.as_str()) {
                    return None;
                }
                let compiled = self.compile_variable(ident, span);
                match compiled {
                    Some(_) => Some(
                        (
                            Expr::Query {
                                external: false,
                                variable: Some(ident.clone()),
                                subject: None,
                                path: query.path.clone(),
                            },
                            TypeDef { fallible: false, kind: Kind::any() },
                        ),
                    ),
                    None => None,
                }
            },
            ast::QueryTarget::Container(container) => {
                let compiled = self.compile_container(container, external);
                match compiled {
                    Some((expr, _)) => Some(
                        (
                            Expr::Query {
                                external: false,
                                variable: None,
                                subject: Some(Box::new(expr)),
                                path: query.path.clone(),
                            },
                            TypeDef { fallible: false, kind: Kind::any() },
                        ),
                    ),
                    None => None,
                }
            },
            ast::QueryTarget::FunctionCall(call) => {
                let compiled = self.compile_function_call(&**call, span, external);
                match compiled {
                    Some((expr, _)) => Some(
                        (
                            Expr::Query {
                                external: false,
                                variable: None,
                                subject: Some(Box::new(expr)),
                                path: query.path.clone(),
                            },
                            TypeDef { fallible: false, kind: Kind::any() },
                        ),
                    ),
                    None => None,
                }
            },
        }
    }

    /// Compile a function call: arguments first, then the closure block
    /// against a snapshot taken before the closure parameters were bound,
    /// so that those parameters stay scoped to the closure.
    fn compile_function_call(
        &mut self,
        call: &ast::FunctionCall,
        span: Span,
        external: &mut ExternalEnv,
    ) -> (r: Option<(Expr, TypeDef)>)
        ensures
            diags_kept(old(self).diags(), final(self).diags()),
            final(self).features == old(self).features,
            final(self).fns == old(self).fns,
            old(self).abortable ==> final(self).abortable,
            old(self).fallible ==> final(self).fallible,
            call.abort_on_error && r is Some ==> final(self).abortable && final(self).fallible,
            call.closure is Some && call.arguments@.len() == 0 && r is Some
                ==> (final(self).local@.len() == old(self).local@.len() && (forall|k: int|
                0 <= k < final(self).local@.len() ==> (#[trigger] final(self).local@[k]).0
                    == old(self).local@[k].0)),
            (old(self).features.function_call && call.arguments@.len() == 0 && (forall|i: int|
                0 <= i < old(self).fns@.len() ==> (#[trigger] old(self).fns@[i]).ident@
                    != call.ident@)) ==> (r is None && final(self).diags() == old(
                self,
            ).diags().push(
                (Diagnostic {
                    severity: Severity::Error,
                    kind: (DiagnosticKind::UndefinedFunction { ident: call.ident }),
                    span: span,
                }),
            )),
        decreases call, 0nat,
    {
        if !self.features.function_call {
            self.diagnostics.push(
                Diagnostic::error(
                    DiagnosticKind::MissingFeature {
                        feature: String::from_str("expr-function_call"),
                    },
                    span,
                ),
            );
            return None;
        }
        // Reading the whole event through `get` counts as an event read.
        if str_eq(call.ident.as_str(), "get") {
            self.external_queries.push(String::from_str("."));
        }

        let mut arguments: Vec<Expr> = Vec::new();
        let n = call.arguments.len();
        let mut i: usize = 0;
        let ghost diags0 = self.diags();
        while i < n
            invariant
                i <= n,
                n == call.arguments@.len(),
                diags_kept(old(self).diags(), diags0),
                diags_kept(diags0, self.diags()),
                diags0 == old(self).diags(),
                call.arguments@.len() == 0 ==> self.diags() == diags0,
                call.arguments@.len() == 0 ==> self.local == old(self).local,
                self.features == old(self).features,
                self.fns == old(self).fns,
                old(self).abortable ==> self.abortable,
                old(self).fallible ==> self.fallible,
            decreases n - i,
        {
            let compiled = self.compile_expr(&call.arguments[i].expr, external);
            match compiled {
                Some((expr, _)) => {
                    arguments.push(expr);
                },
                None => {
                    return None;
                },
            }
            i = i + 1;
        }

        if call.abort_on_error {
            // A run-time error in such a call deliberately terminates the
            // whole program.  Both flags are intended: the program holds a
            // deliberate early-termination path (abortable), and an
            // evaluation of it can end before completing (fallible).
            self.abortable = true;
            self.fallible = true;
        }

        let (return_kind, spec_fallible, takes_closure, deprecated) = match find_function(
            self.fns,
            call.ident.as_str(),
        ) {
            Some(fspec) => {
                if call.arguments.len() > fspec.parameters.len() {
                    self.diagnostics.push(
                        Diagnostic::error(
                            DiagnosticKind::TooManyArguments { ident: call.ident.clone() },
                            span,
                        ),
                    );
                    return None;
                }
                (fspec.return_kind, fspec.fallible, fspec.takes_closure, fspec.deprecated)
            },
            None => {
                self.diagnostics.push(
                    Diagnostic::error(
                        DiagnosticKind::UndefinedFunction { ident: call.ident.clone() },
                        span,
                    ),
                );
                return None;
            },
        };

        if deprecated {
            self.diagnostics.push(
                Diagnostic::warning(
                    DiagnosticKind::DeprecatedFunction { ident: call.ident.clone() },
                    span,
                ),
            );
        }

        let closure = match &call.closure {
            Some(closure) => {
                if !takes_closure {
                    self.diagnostics.push(
                        Diagnostic::error(
                            DiagnosticKind::UnexpectedClosure { ident: call.ident.clone() },
                            span,
                        ),
                    );
                    return None;
                }
                // The scope as it was before the closure parameters were
                // bound: they must not leak past the closure.
                let local_snapshot = self.local.duplicate();
                let m = closure.variables.len();
                let ghost diags1 = self.diags();
                let mut j: usize = 0;
                while j < m
                    invariant
                        j <= m,
                        m == closure.variables@.len(),
                        diags_kept(old(self).diags(), diags0),
                        diags_kept(diags0, diags1),
                        diags_kept(diags1, self.diags()),
                        self.features == old(self).features,
                        self.fns == old(self).fns,
                        old(self).abortable ==> self.abortable,
                        old(self).fallible ==> self.fallible,
                        call.abort_on_error ==> self.abortable && self.fallible,
                    decreases m - j,
                {
                    self.local.insert(closure.variables[j].as_str(), Kind::any());
                    j = j + 1;
                }
                let block = self.compile_exprs(&closure.block, external);
                let ghost child = self.local@;
                let ghost snap = local_snapshot@;
                let closed = local_snapshot.apply_child_scope(&self.local);
                self.local = closed;
                proof {
                    assert(self.local@ == spec_restrict(snap, child));
                    assert forall|k: int| 0 <= k < self.local@.len() implies (
                    #[trigger] self.local@[k]).0 == snap[k].0 by {
                        assert(spec_restrict(snap, child)[k].0 == snap[k].0);
                    }
                }
                match block {
                    Some((exprs, _)) => {
                        let mut variables: Vec<String> = Vec::new();
                        let mut k: usize = 0;
                        while k < m
                            invariant
                                k <= m,
                                m == closure.variables@.len(),
                            decreases m - k,
                        {
                            variables.push(closure.variables[k].clone());
                            k = k + 1;
                        }
                        Some((variables, exprs))
                    },
                    None => {
                        return None;
                    },
                }
            },
            None => None,
        };

        let fallible = spec_fallible && !call.abort_on_error;
        Some(
            (
                Expr::FunctionCall {
                    ident: call.ident.clone(),
                    abort_on_error: call.abort_on_error,
                    arguments,
                    closure,
                },
                TypeDef { fallible, kind: return_kind },
            ),
        )
    }

    /// Compile a variable read: the variable must be in scope, unless its
    /// defining assignment already failed and the read is suppressed.
    fn compile_variable(&mut self, ident: &String, span: Span) -> (r: Option<(Expr, TypeDef)>)
        ensures
            diags_kept(old(self).diags(), final(self).diags()),
            final(self).features == old(self).features,
            final(self).fns == old(self).fns,
            old(self).abortable ==> final(self).abortable,
            old(self).fallible ==> final(self).fallible,
            final(self).local == old(self).local,
            final(self).fallible_expression_error == old(self).fallible_expression_error,
            final(self).fallible == old(self).fallible,
            final(self).abortable == old(self).abortable,
            spec_skipped(old(self).skip_missing_query_target@, false, ident@, "."@) ==> r is None
                && final(self).diags() == old(self).diags(),
            !spec_skipped(old(self).skip_missing_query_target@, false, ident@, "."@) ==> match
                spec_get(old(self).local@, ident@) {
                Some(k) => r matches Some((_, td)) && td == (TypeDef { fallible: false, kind: k })
                    && final(self).diags() == old(self).diags(),
                None => r is None && final(self).diags() == old(self).diags().push(
                    (Diagnostic {
                        severity: Severity::Error,
                        kind: (DiagnosticKind::UndefinedVariable { ident: *ident }),
                        span: span,
                    }),
                ),
            },
    {
        if self.is_skipped_target(false, ident.as_str(), ".") {
            return None;
        }
        match self.local.get(ident.as_str()) {
            Some(kind) => Some(
                (Expr::Variable { ident: ident.clone() }, TypeDef { fallible: false, kind }),
            ),
            None => {
                self.diagnostics.push(
                    Diagnostic::error(
                        DiagnosticKind::UndefinedVariable { ident: ident.clone() },
                        span,
                    ),
                );
                None
            },
        }
    }

    /// Compile a negation: the operand must be able to be boolean.
    fn compile_not(&mut self, inner: &ast::Expr, span: Span, external: &mut ExternalEnv) -> (r:
        Option<(Expr, TypeDef)>)
        ensures
            diags_kept(old(self).diags(), final(self).diags()),
            final(self).features == old(self).features,
            final(self).fns == old(self).fns,
            old(self).abortable ==> final(self).abortable,
            old(self).fallible ==> final(self).fallible,
        decreases inner, 1nat,
    {
        if !self.features.unary {
            self.diagnostics.push(
                Diagnostic::error(
                    DiagnosticKind::MissingFeature { feature: String::from_str("expr-unary") },
                    span,
                ),
            );
            return None;
        }
        let compiled = match self.compile_expr(inner, external) {
            Some(c) => c,
            None => {
                return None;
            },
        };
        if !compiled.1.kind.boolean {
            self.diagnostics.push(Diagnostic::error(DiagnosticKind::InvalidNegation, span));
            return None;
        }
        let fallible = compiled.1.fallible || !compiled.1.kind.is_exactly_boolean();
        Some(
            (
                Expr::Not(Box::new(compiled.0)),
                TypeDef { fallible, kind: Kind::boolean() },
            ),
        )
    }

    /// Compile an abort.  The program is abortable from here on; the
    /// optional message must be able to be a string.  An abort never
    /// yields a value.
    fn compile_abort(
        &mut self,
        message: &Option<Box<ast::Expr>>,
        span: Span,
        external: &mut ExternalEnv,
    ) -> (r: Option<(Expr, TypeDef)>)
        ensures
            diags_kept(old(self).diags(), final(self).diags()),
            final(self).features == old(self).features,
            final(self).fns == old(self).fns,
            old(self).abortable ==> final(self).abortable,
            old(self).fallible ==> final(self).fallible,
            message is None && old(self).features.abort ==> (r matches Some((e, td)) && (e
                is Abort) && td == (TypeDef { fallible: false, kind: Kind::spec_never() })
                && final(self).diags() == old(self).diags() && final(self).abortable
                && final(self).local == old(self).local
                && final(self).fallible_expression_error == old(self).fallible_expression_error
                && final(self).fallible == old(self).fallible && final(self).external_queries
                == old(self).external_queries && final(self).external_assignments
                == old(self).external_assignments && final(external).target_kind()
                == old(external).target_kind()),
        decreases message, 0nat,
    {
        if !self.features.abort {
            self.diagnostics.push(
                Diagnostic::error(
                    DiagnosticKind::MissingFeature { feature: String::from_str("expr-abort") },
                    span,
                ),
            );
            return None;
        }
        self.abortable = true;
        let message = match message {
            Some(expr) => {
                let compiled = match self.compile_expr(expr, external) {
                    Some(c) => c,
                    None => {
                        return None;
                    },
                };
                if !compiled.1.kind.bytes {
                    self.diagnostics.push(
                        Diagnostic::error(DiagnosticKind::InvalidAbortMessage, span),
                    );
                    return None;
                }
                Some(Box::new(compiled.0))
            },
            None => None,
        };
        Some(
            (
                Expr::Abort { message },
                TypeDef { fallible: false, kind: Kind::never() },
            ),
        )
    }
}

} // verus!
