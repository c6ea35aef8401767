use tinybuf_script::{
    eval_expr_for_tests, run, to_string, Answer, CallReply, Env, ErrorKind, Expr, Interpreter,
    ListItem, OpInfo, OpsInfo, Output, Request, Returned, Stmt, TypeInfo, Value,
};

fn num(i: i64) -> Expr {
    Expr::Int(i)
}

fn var(s: &str) -> Expr {
    Expr::Var(s.to_string())
}

fn sym(s: &str) -> Expr {
    Expr::Sym(s.to_string())
}

fn text(s: &str) -> Expr {
    Expr::Str(s.to_string())
}

fn item(value: Expr) -> ListItem {
    ListItem { key: None, value }
}

fn bx(e: Expr) -> Box<Expr> {
    Box::new(e)
}

fn line(s: &str) -> String {
    s.to_string()
}

fn logged(s: &str) -> Output {
    Output::Line(s.to_string())
}

fn let_(name: &str, e: Expr) -> Stmt {
    Stmt::Let(name.to_string(), e)
}

fn func(name: &str, params: &[&str], body: Vec<Stmt>) -> Stmt {
    Stmt::LetFunc(name.to_string(), params.iter().map(|p| p.to_string()).collect(), body)
}

fn call(name: &str, args: Vec<Expr>) -> Expr {
    Expr::Call(name.to_string(), args)
}

fn add(a: Expr, b: Expr) -> Expr {
    Expr::Add(bx(a), bx(b))
}

#[test]
fn literals_evaluate_to_themselves() {
    assert_eq!(eval_expr_for_tests(&num(7)), Ok(Value::Int(7)));
    assert_eq!(eval_expr_for_tests(&text("a")), Ok(Value::Str("a".to_string())));
    assert_eq!(eval_expr_for_tests(&sym("a")), Ok(Value::Sym("a".to_string())));
    assert_eq!(eval_expr_for_tests(&Expr::Group(bx(num(3)))), Ok(Value::Int(3)));
}

#[test]
fn undefined_variable_is_a_name_error() {
    let e = eval_expr_for_tests(&var("nope")).unwrap_err();
    assert_eq!(e.kind, ErrorKind::Name);
    assert_eq!(e.message, "undefined variable: nope");
}

#[test]
fn undefined_function_is_a_name_error() {
    let e = eval_expr_for_tests(&call("f", vec![num(1)])).unwrap_err();
    assert_eq!(e.kind, ErrorKind::Name);
    assert_eq!(e.message, "undefined function: f");
    let program = vec![let_("f", num(1)), Stmt::PrintExpr(call("f", vec![]))];
    assert_eq!(run(&program).unwrap_err().message, "undefined function: f");
}

#[test]
fn conditional_expression() {
    let e = Expr::If(bx(num(1)), bx(num(10)), Some(bx(num(20))));
    assert_eq!(eval_expr_for_tests(&e), Ok(Value::Int(10)));
    let e = Expr::If(bx(num(0)), bx(num(10)), Some(bx(num(20))));
    assert_eq!(eval_expr_for_tests(&e), Ok(Value::Int(20)));
    let e = Expr::If(bx(text("")), bx(num(10)), None);
    assert_eq!(eval_expr_for_tests(&e), Ok(Value::Int(0)));
    let e = Expr::If(bx(text("x")), bx(num(10)), None);
    assert_eq!(eval_expr_for_tests(&e), Ok(Value::Int(10)));
    let e = Expr::If(bx(sym("x")), bx(num(10)), Some(bx(num(20))));
    assert_eq!(eval_expr_for_tests(&e), Ok(Value::Int(20)));
    let e = Expr::If(bx(Expr::SList(vec![num(1)])), bx(num(10)), Some(bx(num(20))));
    assert_eq!(eval_expr_for_tests(&e), Ok(Value::Int(20)));
}

#[test]
fn list_of_expressions_evaluates_each() {
    let e = Expr::SList(vec![add(num(1), num(2)), text("x")]);
    assert_eq!(
        eval_expr_for_tests(&e),
        Ok(Value::List(vec![Value::Int(3), Value::Str("x".to_string())], vec![]))
    );
}

#[test]
fn value_of_reads_names() {
    let program = vec![
        let_("a", num(1)),
        let_("b", text("two")),
        Stmt::PrintExpr(call("value_of", vec![text("a")])),
        Stmt::PrintExpr(call("value_of", vec![sym("b")])),
        Stmt::PrintExpr(
            call("value_of", vec![Expr::List(vec![item(var("a")), item(var("b")), item(num(3))])]),
        ),
    ];
    assert_eq!(run(&program), Ok(vec![line("1"), line("two"), line("(1 two 3)")]));
}

#[test]
fn value_of_failures() {
    let e = eval_expr_for_tests(&call("value_of", vec![])).unwrap_err();
    assert_eq!(e.kind, ErrorKind::Arity);
    assert_eq!(e.message, "value_of expects 1 argument");
    let e = eval_expr_for_tests(&call("value_of", vec![num(1)])).unwrap_err();
    assert_eq!(e.kind, ErrorKind::Type);
    assert_eq!(e.message, "value_of expects a list or sym/string");
    let e = eval_expr_for_tests(&call("value_of", vec![text("zz")])).unwrap_err();
    assert_eq!(e.kind, ErrorKind::Name);
    assert_eq!(e.message, "undefined variable: zz");
    let e = eval_expr_for_tests(&call("value_of", vec![Expr::SList(vec![text("zz")])]))
        .unwrap_err();
    assert_eq!(e.message, "undefined variable: zz");
}

#[test]
fn custom_operator_calls_its_function() {
    let program = vec![
        func("plus", &["a", "b"], vec![Stmt::ExprStmt(add(var("a"), var("b")))]),
        Stmt::RegOp("+++".to_string(), "plus".to_string()),
        Stmt::PrintExpr(Expr::Custom(bx(num(2)), "+++".to_string(), bx(num(3)))),
    ];
    assert_eq!(run(&program), Ok(vec![line("5")]));
}

#[test]
fn custom_operator_failures() {
    let e = eval_expr_for_tests(&Expr::Custom(bx(num(2)), "?".to_string(), bx(num(3))))
        .unwrap_err();
    assert_eq!(e.kind, ErrorKind::Name);
    assert_eq!(e.message, "undefined custom operator: ?");
    let program = vec![
        Stmt::RegOp("?".to_string(), "gone".to_string()),
        Stmt::PrintExpr(Expr::Custom(bx(num(2)), "?".to_string(), bx(num(3)))),
    ];
    let e = run(&program).unwrap_err();
    assert_eq!(e.kind, ErrorKind::Name);
    assert_eq!(e.message, "undefined operator function: gone");
    let program = vec![
        func("one", &["a"], vec![Stmt::ExprStmt(var("a"))]),
        Stmt::RegOp("?".to_string(), "one".to_string()),
        Stmt::PrintExpr(Expr::Custom(bx(num(2)), "?".to_string(), bx(num(3)))),
    ];
    let e = run(&program).unwrap_err();
    assert_eq!(e.kind, ErrorKind::Arity);
    assert_eq!(e.message, "custom operator must bind to binary function");
}

#[test]
fn map_applies_a_function_to_each_item() {
    let program = vec![
        func("double", &["x"], vec![Stmt::ExprStmt(Expr::Mul(bx(var("x")), bx(num(2))))]),
        Stmt::PrintExpr(
            Expr::MapWith(bx(Expr::SList(vec![num(1), num(2), num(3)])), "double".to_string()),
        ),
    ];
    assert_eq!(run(&program), Ok(vec![line("(2 4 6)")]));
}

#[test]
fn map_failures() {
    let e = eval_expr_for_tests(&Expr::MapWith(bx(num(1)), "f".to_string())).unwrap_err();
    assert_eq!(e.kind, ErrorKind::Type);
    assert_eq!(e.message, "map left operand must be a list");
    let e = eval_expr_for_tests(&Expr::MapWith(bx(Expr::SList(vec![])), "f".to_string()))
        .unwrap_err();
    assert_eq!(e.kind, ErrorKind::Name);
    assert_eq!(e.message, "undefined function: f");
    let program = vec![
        func("two", &["a", "b"], vec![Stmt::ExprStmt(var("a"))]),
        Stmt::PrintExpr(Expr::MapWith(bx(Expr::SList(vec![num(1)])), "two".to_string())),
    ];
    let e = run(&program).unwrap_err();
    assert_eq!(e.kind, ErrorKind::Arity);
    assert_eq!(e.message, "map function must be unary");
}

#[test]
fn block_expression_gives_its_last_expression() {
    let e = Expr::Block(vec![let_("a", num(2)), Stmt::ExprStmt(add(var("a"), num(1)))]);
    assert_eq!(eval_expr_for_tests(&e), Ok(Value::Int(3)));
    let e = Expr::Block(vec![
        Stmt::Return(Some(num(9))),
        Stmt::ExprStmt(num(1)),
    ]);
    assert_eq!(eval_expr_for_tests(&e), Ok(Value::Int(9)));
    let e = Expr::Block(vec![
        Stmt::If(num(1), Box::new(Stmt::Return(Some(num(5)))), None),
        Stmt::ExprStmt(num(1)),
    ]);
    assert_eq!(eval_expr_for_tests(&e), Ok(Value::Int(5)));
    let e = Expr::Block(vec![]);
    assert_eq!(eval_expr_for_tests(&e), Ok(Value::Int(0)));
    let e = Expr::BlockNoValue(vec![Stmt::ExprStmt(num(4))]);
    assert_eq!(eval_expr_for_tests(&e), Ok(Value::Int(0)));
    let e = Expr::Block(vec![Stmt::Next]);
    let err = eval_expr_for_tests(&e).unwrap_err();
    assert_eq!(err.kind, ErrorKind::Structure);
    assert_eq!(err.message, "unsupported statement in expression block");
}

#[test]
fn block_expression_has_its_own_scope_and_emits() {
    let program = vec![
        let_("a", num(1)),
        Stmt::PrintExpr(Expr::Block(vec![
            let_("a", num(2)),
            Stmt::PrintExpr(var("a")),
            Stmt::ExprStmt(var("a")),
        ])),
        Stmt::PrintExpr(var("a")),
    ];
    assert_eq!(run(&program), Ok(vec![line("2"), line("2"), line("1")]));
}

#[test]
fn print_template_fills_each_placeholder() {
    let program = vec![
        Stmt::PrintTemplate("x={} y={}".to_string(), Some(num(5))),
        Stmt::PrintTemplate("no placeholder".to_string(), Some(num(5))),
        Stmt::PrintTemplate("{} plain {}".to_string(), None),
        Stmt::PrintTemplate("{{}}".to_string(), Some(text("in"))),
    ];
    assert_eq!(
        run(&program),
        Ok(vec![line("x=5 y=5"), line("no placeholder"), line("{} plain {}"), line("{in}")])
    );
}

#[test]
fn values_render_as_text() {
    assert_eq!(to_string(&Value::Int(-12)), "-12");
    assert_eq!(to_string(&Value::Int(0)), "0");
    assert_eq!(to_string(&Value::Int(i64::MIN)), "-9223372036854775808");
    assert_eq!(to_string(&Value::Int(i64::MAX)), "9223372036854775807");
    assert_eq!(to_string(&Value::Str("s".to_string())), "s");
    assert_eq!(to_string(&Value::Sym("y".to_string())), "y");
    assert_eq!(to_string(&Value::List(vec![], vec![])), "()");
    let inner = Value::List(vec![Value::Int(1), Value::Int(2)], vec![]);
    assert_eq!(to_string(&Value::List(vec![inner, Value::Int(3)], vec![])), "((1 2) 3)");
    let f = Value::Func(vec![], Expr::Int(1), Env::new());
    assert_eq!(to_string(&f), "<func>");
    assert_eq!(to_string(&Value::FuncBlock(vec![], vec![], Env::new())), "<func>");
}

#[test]
fn function_with_statements_returns_or_gives_zero() {
    let program = vec![
        func("f", &["x"], vec![
            Stmt::PrintTemplate("in f".to_string(), None),
            Stmt::If(
                Expr::Gt(bx(var("x")), bx(num(0))),
                Box::new(Stmt::Return(Some(var("x")))),
                None,
            ),
            Stmt::PrintTemplate("not positive".to_string(), None),
        ]),
        Stmt::PrintExpr(call("f", vec![num(3)])),
        Stmt::PrintExpr(call("f", vec![num(-3)])),
    ];
    assert_eq!(
        run(&program),
        Ok(vec![line("in f"), line("3"), line("in f"), line("not positive"), line("0")])
    );
}

#[test]
fn break_cannot_leave_a_function() {
    let program = vec![
        func("f", &[], vec![Stmt::Break(None), Stmt::Next]),
        Stmt::PrintExpr(call("f", vec![])),
    ];
    let e = run(&program).unwrap_err();
    assert_eq!(e.kind, ErrorKind::ControlFlow);
    assert_eq!(e.message, "Unexpected control flow in function");
}

#[test]
fn function_does_not_change_the_callers_scope() {
    let program = vec![
        let_("a", num(1)),
        func(
            "f",
            &[],
            vec![
                let_("a", num(2)),
                Stmt::RegOp("@".to_string(), "f".to_string()),
                Stmt::Return(Some(var("a"))),
            ],
        ),
        Stmt::PrintExpr(call("f", vec![])),
        Stmt::PrintExpr(var("a")),
        Stmt::PrintExpr(Expr::Custom(bx(num(1)), "@".to_string(), bx(num(2)))),
    ];
    let mut it = Interpreter::new(false);
    let mut out = Vec::new();
    let e = it.run_into(&program, &mut out).unwrap_err();
    assert_eq!(out, vec![logged("2"), logged("1")]);
    assert_eq!(e.message, "undefined custom operator: @");
}

#[test]
fn function_cannot_call_itself() {
    let program = vec![
        func("f", &["n"], vec![Stmt::Return(Some(call("f", vec![var("n")])))]),
        Stmt::PrintExpr(call("f", vec![num(1)])),
    ];
    let e = run(&program).unwrap_err();
    assert_eq!(e.kind, ErrorKind::Name);
    assert_eq!(e.message, "undefined function: f");
}

#[test]
fn endless_nesting_hits_the_depth_limit() {
    let program = vec![
        func("f", &["g"], vec![Stmt::Return(Some(call("g", vec![var("g")])))]),
        Stmt::PrintExpr(call("f", vec![var("f")])),
    ];
    let e = run(&program).unwrap_err();
    assert_eq!(e.kind, ErrorKind::Depth);
    assert_eq!(e.message, "depth limit exceeded");
    let program = vec![
        func("f", &["g"], vec![Stmt::ExprStmt(call("g", vec![var("g")]))]),
        Stmt::PrintExpr(call("f", vec![var("f")])),
    ];
    assert_eq!(run(&program).unwrap_err().kind, ErrorKind::Depth);
}

#[test]
fn depth_limit_can_be_set() {
    let mut it = Interpreter::new(false);
    it.max_depth = 1;
    let program = vec![
        func("id", &["x"], vec![Stmt::ExprStmt(var("x"))]),
        func("twice", &["x"], vec![Stmt::ExprStmt(call("id", vec![call("id", vec![var("x")])]))]),
        Stmt::PrintExpr(call("id", vec![num(1)])),
    ];
    assert_eq!(it.run(&program), Ok(vec![line("1")]));
    let mut it = Interpreter::new(false);
    it.max_depth = 0;
    assert_eq!(it.run(&program).unwrap_err().kind, ErrorKind::Depth);
}

#[test]
fn list_statement_calls_a_function_and_prints_the_result() {
    let program = vec![
        func("add", &["a", "b"], vec![Stmt::Return(Some(add(var("a"), var("b"))))]),
        Stmt::RunList(vec![sym("add"), num(1), num(2)]),
        Stmt::RunList(vec![]),
    ];
    assert_eq!(run(&program), Ok(vec![line("3"), line("empty list")]));
}

#[test]
fn list_statement_is_read_as_a_statement() {
    let program = vec![
        Stmt::RunList(vec![sym("let"), text("x"), num(4)]),
        Stmt::RunList(vec![sym("print"), add(var("x"), num(1))]),
        Stmt::RunList(vec![var("print_template"), text("t {}"), var("x")]),
    ];
    assert_eq!(run(&program), Ok(vec![line("5"), line("t 4")]));
    let e = run(&vec![Stmt::RunList(vec![num(1), num(2), num(3)])]).unwrap_err();
    assert_eq!(e.kind, ErrorKind::Structure);
    assert_eq!(e.message, "invalid stmt list");
    let e = run(&vec![Stmt::RunList(vec![sym("return"), num(2)])]).unwrap_err();
    assert_eq!(e.kind, ErrorKind::ControlFlow);
    assert_eq!(e.message, "Return not allowed at top level");
}

#[test]
fn registry_statements_wait_for_their_answers() {
    let program = vec![Stmt::ListTypes, Stmt::PrintTemplate("after".to_string(), None)];
    let mut it = Interpreter::new(false);
    let mut out = Vec::new();
    let e = it.run_into(&program, &mut out).unwrap_err();
    assert_eq!(e.kind, ErrorKind::Pending);
    assert_eq!(out, vec![Output::Asked(Request::TypeNames)]);
}

#[test]
fn registry_statements_print_what_the_registry_answers() {
    let program = vec![
        Stmt::ListTypes,
        Stmt::ListType("testobj".to_string()),
        Stmt::Call("testobj".to_string(), "add".to_string(), vec![num(1), add(num(1), num(1))]),
        Stmt::ListTypes,
    ];
    let info = TypeInfo {
        name: "testobj".to_string(),
        description: Some("demo type".to_string()),
        kind: 0,
        size: 8,
        fields: vec![],
        methods: vec![],
        ops: OpsInfo::Known(vec![Some(OpInfo {
            name: Some("add".to_string()),
            signature: None,
            description: Some("sum two i64".to_string()),
        })]),
    };
    let mut it = Interpreter::new(false);
    it.ctx.answers = vec![
        Answer::Names(vec![Some("testobj".to_string()), None, Some("test_struct".to_string())]),
        Answer::Described(info),
        Answer::Called(CallReply::Done(0, Some(Returned::Int(3)))),
        Answer::Names(vec![]),
    ];
    let mut out = Vec::new();
    assert!(it.run_into(&program, &mut out).is_ok());
    let lines: Vec<String> = out
        .iter()
        .filter_map(|o| match o {
            Output::Line(s) => Some(s.clone()),
            _ => None,
        })
        .collect();
    assert_eq!(
        lines,
        vec![
            "testobj",
            "test_struct",
            "type testobj",
            "  desc demo type",
            "  kind simple",
            "  size 8",
            "  fields <none>",
            "  methods <none>",
            "  op add - sum two i64",
            "3",
            "no types",
        ]
    );
    assert_eq!(out[0], Output::Asked(Request::TypeNames));
    assert_eq!(out[3], Output::Asked(Request::Describe("testobj".to_string())));
    assert_eq!(
        out[11],
        Output::Asked(Request::Call("testobj".to_string(), "add".to_string(), vec![1, 2]))
    );
}

#[test]
fn registry_call_that_cannot_be_made_fails() {
    let program = vec![Stmt::Call("t".to_string(), "op".to_string(), vec![num(1)])];
    let mut it = Interpreter::new(false);
    it.ctx.answers = vec![Answer::Called(CallReply::AllocFailed)];
    let mut out = Vec::new();
    let e = it.run_into(&program, &mut out).unwrap_err();
    assert_eq!(e.kind, ErrorKind::Foreign);
    assert_eq!(e.message, "alloc arg failed");
    it.ctx.answers = vec![Answer::Called(CallReply::Done(-1, None))];
    let mut out = Vec::new();
    assert!(it.run_into(&program, &mut out).is_ok());
    assert_eq!(out[1], logged("op call failed"));
    it.ctx.answers = vec![Answer::Int(1)];
    let mut out = Vec::new();
    let e = it.run_into(&program, &mut out).unwrap_err();
    assert_eq!(e.kind, ErrorKind::Foreign);
    assert_eq!(e.message, "unexpected answer");
}

#[test]
fn registry_call_takes_integers_only() {
    let program = vec![Stmt::Call("t".to_string(), "op".to_string(), vec![text("s")])];
    let e = run(&program).unwrap_err();
    assert_eq!(e.kind, ErrorKind::Type);
    assert_eq!(e.message, "string args not supported");
    let program = vec![Stmt::Call("t".to_string(), "op".to_string(), vec![sym("s")])];
    let e = run(&program).unwrap_err();
    assert_eq!(e.kind, ErrorKind::Type);
    assert_eq!(e.message, "unsupported arg type");
}

#[test]
fn environment_binds_and_rebinds() {
    let mut env = Env::new();
    assert_eq!(env.get("a"), None);
    env.insert("a".to_string(), Value::Int(1));
    env.insert("b".to_string(), Value::Int(2));
    env.insert("a".to_string(), Value::Int(3));
    assert_eq!(env.get("a"), Some(&Value::Int(3)));
    assert_eq!(env.get("b"), Some(&Value::Int(2)));
    assert_eq!(env.entries.len(), 2);
}

#[test]
fn deep_expression_nesting_uses_no_depth() {
    let mut e = num(0);
    for _ in 0..200 {
        e = add(e, num(1));
    }
    assert_eq!(eval_expr_for_tests(&e), Ok(Value::Int(200)));
}

#[test]
fn deepest_allowed_nesting_runs() {
    let again = call("g", vec![var("g"), Expr::Sub(bx(var("n")), bx(num(1)))]);
    let body = Expr::If(bx(Expr::Gt(bx(var("n")), bx(num(0)))), bx(again), Some(bx(var("n"))));
    let define = func("f", &["g", "n"], vec![Stmt::Return(Some(body))]);
    let program = vec![define.clone(), Stmt::PrintExpr(call("f", vec![var("f"), num(63)]))];
    assert_eq!(run(&program), Ok(vec![line("0")]));
    let program = vec![define, Stmt::PrintExpr(call("f", vec![var("f"), num(64)]))];
    assert_eq!(run(&program).unwrap_err().kind, ErrorKind::Depth);
}
