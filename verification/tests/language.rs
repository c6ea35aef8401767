use tinybuf_script::{
    eval_expr_for_tests, run, run_tests, Error, ErrorKind, Expr, Interpreter, ListItem, Output,
    Stmt, Value,
};

fn num(i: i64) -> Expr {
    Expr::Int(i)
}

fn var(s: &str) -> Expr {
    Expr::Var(s.to_string())
}

fn sym(s: &str) -> Expr {
    Expr::Sym(s.to_string())
}

fn text(s: &str) -> Expr {
    Expr::Str(s.to_string())
}

fn item(value: Expr) -> ListItem {
    ListItem { key: None, value }
}

fn keyed(key: &str, value: Expr) -> ListItem {
    ListItem { key: Some(key.to_string()), value }
}

fn bx(e: Expr) -> Box<Expr> {
    Box::new(e)
}

fn line(s: &str) -> String {
    s.to_string()
}

fn logged(s: &str) -> Output {
    Output::Line(s.to_string())
}

fn let_(name: &str, e: Expr) -> Stmt {
    Stmt::Let(name.to_string(), e)
}

fn func(name: &str, params: &[&str], body: Vec<Stmt>) -> Stmt {
    Stmt::LetFunc(name.to_string(), params.iter().map(|p| p.to_string()).collect(), body)
}

fn call(name: &str, args: Vec<Expr>) -> Expr {
    Expr::Call(name.to_string(), args)
}

fn block(keyword: &str, meta: Vec<ListItem>, body: Vec<Stmt>) -> Stmt {
    Stmt::Block(keyword.to_string(), meta, body)
}

fn kind_of(r: Result<Value, Error>) -> ErrorKind {
    r.unwrap_err().kind
}

#[test]
fn division_truncates_towards_zero() {
    assert_eq!(eval_expr_for_tests(&Expr::Div(bx(num(7)), bx(num(2)))), Ok(Value::Int(3)));
    assert_eq!(eval_expr_for_tests(&Expr::Div(bx(num(-7)), bx(num(2)))), Ok(Value::Int(-3)));
    assert_eq!(eval_expr_for_tests(&Expr::Div(bx(num(7)), bx(num(-2)))), Ok(Value::Int(-3)));
    assert_eq!(eval_expr_for_tests(&Expr::Div(bx(num(-7)), bx(num(-2)))), Ok(Value::Int(3)));
}

#[test]
fn remainder_has_the_sign_of_the_dividend() {
    assert_eq!(eval_expr_for_tests(&Expr::Mod(bx(num(-7)), bx(num(2)))), Ok(Value::Int(-1)));
    assert_eq!(eval_expr_for_tests(&Expr::Mod(bx(num(7)), bx(num(-2)))), Ok(Value::Int(1)));
    assert_eq!(eval_expr_for_tests(&Expr::Mod(bx(num(7)), bx(num(2)))), Ok(Value::Int(1)));
    assert_eq!(eval_expr_for_tests(&Expr::Mod(bx(num(i64::MIN)), bx(num(-1)))), Ok(Value::Int(0)));
}

#[test]
fn arithmetic_wraps_around() {
    assert_eq!(
        eval_expr_for_tests(&Expr::Add(bx(num(i64::MAX)), bx(num(1)))),
        Ok(Value::Int(i64::MIN))
    );
    assert_eq!(
        eval_expr_for_tests(&Expr::Sub(bx(num(i64::MIN)), bx(num(1)))),
        Ok(Value::Int(i64::MAX))
    );
    assert_eq!(
        eval_expr_for_tests(&Expr::Mul(bx(num(i64::MAX)), bx(num(2)))),
        Ok(Value::Int(-2))
    );
    assert_eq!(
        eval_expr_for_tests(&Expr::Div(bx(num(i64::MIN)), bx(num(-1)))),
        Ok(Value::Int(i64::MIN))
    );
}

#[test]
fn powers() {
    assert_eq!(eval_expr_for_tests(&Expr::Pow(bx(num(2)), bx(num(10)))), Ok(Value::Int(1024)));
    assert_eq!(eval_expr_for_tests(&Expr::Pow(bx(num(-3)), bx(num(3)))), Ok(Value::Int(-27)));
    assert_eq!(eval_expr_for_tests(&Expr::Pow(bx(num(5)), bx(num(0)))), Ok(Value::Int(1)));
    assert_eq!(eval_expr_for_tests(&Expr::Pow(bx(num(2)), bx(num(64)))), Ok(Value::Int(0)));
    assert_eq!(
        eval_expr_for_tests(&Expr::Pow(bx(num(2)), bx(num(63)))),
        Ok(Value::Int(i64::MIN))
    );
    assert_eq!(
        eval_expr_for_tests(&Expr::Pow(bx(num(3)), bx(num(41)))),
        Ok(Value::Int(3i64.wrapping_pow(41)))
    );
    assert_eq!(
        kind_of(eval_expr_for_tests(&Expr::Pow(bx(num(2)), bx(num(-1))))),
        ErrorKind::Arithmetic
    );
}

#[test]
fn division_by_zero_fails() {
    let r = eval_expr_for_tests(&Expr::Div(bx(num(1)), bx(num(0)))).unwrap_err();
    assert_eq!(r.kind, ErrorKind::Arithmetic);
    assert_eq!(r.message, "division by zero");
    assert_eq!(
        kind_of(eval_expr_for_tests(&Expr::Mod(bx(num(1)), bx(num(0))))),
        ErrorKind::Arithmetic
    );
}

#[test]
fn comparison_gives_one_or_zero() {
    assert_eq!(eval_expr_for_tests(&Expr::Gt(bx(num(2)), bx(num(1)))), Ok(Value::Int(1)));
    assert_eq!(eval_expr_for_tests(&Expr::Gt(bx(num(1)), bx(num(1)))), Ok(Value::Int(0)));
    assert_eq!(eval_expr_for_tests(&Expr::Lt(bx(num(1)), bx(num(2)))), Ok(Value::Int(1)));
    let r = eval_expr_for_tests(&Expr::Lt(bx(text("a")), bx(num(2)))).unwrap_err();
    assert_eq!(r.kind, ErrorKind::Type);
    assert_eq!(r.message, "type error: < expects integers");
}

#[test]
fn arithmetic_on_a_string_is_a_type_error() {
    let r = eval_expr_for_tests(&Expr::Add(bx(text("a")), bx(num(2)))).unwrap_err();
    assert_eq!(r.kind, ErrorKind::Type);
    assert_eq!(r.message, "type error: expected integers");
}

#[test]
fn closure_keeps_the_environment_of_its_definition() {
    let program = vec![
        let_("x", num(1)),
        func("f", &[], vec![Stmt::ExprStmt(var("x"))]),
        let_("x", num(2)),
        Stmt::PrintExpr(call("f", vec![])),
        Stmt::PrintExpr(var("x")),
    ];
    assert_eq!(run(&program), Ok(vec![line("1"), line("2")]));
}

#[test]
fn closure_with_a_statement_body_keeps_its_environment() {
    let program = vec![
        let_("x", num(1)),
        func("f", &[], vec![Stmt::Return(Some(var("x")))]),
        let_("x", num(2)),
        Stmt::RunList(vec![sym("f")]),
    ];
    assert_eq!(run(&program), Ok(vec![line("1")]));
}

#[test]
fn wrong_argument_count_is_an_arity_error() {
    let program = vec![
        func("add", &["a", "b"], vec![Stmt::ExprStmt(Expr::Add(bx(var("a")), bx(var("b"))))]),
        Stmt::PrintExpr(call("add", vec![num(1)])),
    ];
    let e = run(&program).unwrap_err();
    assert_eq!(e.kind, ErrorKind::Arity);
    assert_eq!(e.message, "arity mismatch: expected 2, got 1");
    let program = vec![
        func("add", &["a", "b"], vec![Stmt::Return(Some(Expr::Add(bx(var("a")), bx(var("b")))))]),
        Stmt::PrintExpr(call("add", vec![num(1), num(2), num(3)])),
    ];
    let e = run(&program).unwrap_err();
    assert_eq!(e.kind, ErrorKind::Arity);
    assert_eq!(e.message, "arity mismatch: expected 2, got 3");
}

#[test]
fn list_with_a_function_at_its_head_is_a_call() {
    let program = vec![
        func("add", &["a", "b"], vec![Stmt::ExprStmt(Expr::Add(bx(var("a")), bx(var("b"))))]),
        Stmt::PrintExpr(Expr::List(vec![item(var("add")), item(num(1)), item(num(2))])),
        Stmt::PrintExpr(Expr::List(vec![item(sym("add")), item(num(3)), item(num(4))])),
    ];
    assert_eq!(run(&program), Ok(vec![line("3"), line("7")]));
}

#[test]
fn list_without_a_function_at_its_head_is_data() {
    let e = Expr::List(vec![item(num(1)), item(num(2)), item(num(3))]);
    assert_eq!(
        eval_expr_for_tests(&e),
        Ok(Value::List(vec![Value::Int(1), Value::Int(2), Value::Int(3)], vec![]))
    );
    let e = Expr::List(vec![item(var("add")), item(num(1))]);
    assert_eq!(
        eval_expr_for_tests(&e),
        Ok(Value::List(vec![Value::Sym("add".to_string()), Value::Int(1)], vec![]))
    );
}

#[test]
fn named_argument_in_a_call_is_rejected() {
    let program = vec![
        func("id", &["a"], vec![Stmt::ExprStmt(var("a"))]),
        Stmt::PrintExpr(Expr::List(vec![item(var("id")), keyed("a", num(1))])),
    ];
    let e = run(&program).unwrap_err();
    assert_eq!(e.kind, ErrorKind::Type);
}

#[test]
fn keyed_list_is_read_by_key_and_by_position() {
    let list = Expr::List(vec![keyed("a", num(1)), item(num(2)), keyed("b", num(3))]);
    let program = vec![
        let_("l", list),
        Stmt::PrintExpr(Expr::Index(bx(var("l")), bx(text("a")))),
        Stmt::PrintExpr(Expr::Index(bx(var("l")), bx(num(1)))),
        Stmt::PrintExpr(Expr::Index(bx(var("l")), bx(text("b")))),
        Stmt::PrintExpr(var("l")),
    ];
    assert_eq!(run(&program), Ok(vec![line("1"), line("2"), line("3"), line("(1 2 3)")]));
    let program = vec![
        let_("l", Expr::List(vec![keyed("a", num(1)), item(num(2)), keyed("b", num(3))])),
        Stmt::PrintExpr(Expr::Index(bx(var("l")), bx(num(3)))),
    ];
    let e = run(&program).unwrap_err();
    assert_eq!(e.kind, ErrorKind::Lookup);
    assert_eq!(e.message, "index out of range");
    let program = vec![
        let_("l", Expr::List(vec![keyed("a", num(1))])),
        Stmt::PrintExpr(Expr::Index(bx(var("l")), bx(num(-1)))),
    ];
    assert_eq!(run(&program).unwrap_err().kind, ErrorKind::Lookup);
    let program = vec![
        let_("l", Expr::List(vec![keyed("a", num(1))])),
        Stmt::PrintExpr(Expr::Index(bx(var("l")), bx(text("z")))),
    ];
    let e = run(&program).unwrap_err();
    assert_eq!(e.kind, ErrorKind::Lookup);
    assert_eq!(e.message, "key not found");
}

#[test]
fn keyed_list_records_each_key_once() {
    let list = Expr::List(vec![keyed("a", num(1)), keyed("b", num(2)), keyed("a", num(3))]);
    assert_eq!(
        eval_expr_for_tests(&list),
        Ok(Value::List(
            vec![Value::Int(1), Value::Int(2), Value::Int(3)],
            vec![("a".to_string(), 2), ("b".to_string(), 1)]
        ))
    );
}

#[test]
fn indexing_what_is_no_list_is_a_type_error() {
    let e = eval_expr_for_tests(&Expr::Index(bx(num(1)), bx(num(0)))).unwrap_err();
    assert_eq!(e.kind, ErrorKind::Type);
    assert_eq!(e.message, "indexing requires a list");
    let l = Expr::SList(vec![num(1)]);
    let e = eval_expr_for_tests(&Expr::Index(bx(l), bx(sym("a")))).unwrap_err();
    assert_eq!(e.kind, ErrorKind::Type);
    assert_eq!(e.message, "index must be int or string");
}

fn break_loop(meta: Vec<ListItem>) -> Stmt {
    block(
        "loop",
        meta,
        vec![Stmt::PrintTemplate("body".to_string(), None), Stmt::Break(None)],
    )
}

#[test]
fn loop_that_breaks_at_once_runs_its_body_once() {
    let step = Expr::List(vec![item(sym("print_template")), item(text("step"))]);
    let program = vec![break_loop(vec![keyed("step", step)])];
    assert_eq!(run(&program), Ok(vec![line("body")]));
}

#[test]
fn loop_counts_with_its_own_state() {
    let persist = Expr::List(vec![item(sym("let")), item(text("i")), item(num(0))]);
    let step = Expr::List(
        vec![item(sym("let")), item(text("i")), item(Expr::Add(bx(var("i")), bx(num(1))))],
    );
    let body = vec![
        Stmt::If(Expr::Gt(bx(var("i")), bx(num(2))), Box::new(Stmt::Break(None)), None),
        Stmt::PrintExpr(var("i")),
    ];
    let program = vec![
        let_("i", num(40)),
        block("loop", vec![keyed("persist", persist), keyed("step", step)], body),
        Stmt::PrintExpr(var("i")),
    ];
    assert_eq!(run(&program), Ok(vec![line("0"), line("1"), line("2"), line("40")]));
}

#[test]
fn loop_stops_at_its_cap() {
    let program = vec![block("loop", vec![], vec![Stmt::PrintTemplate("x".to_string(), None)])];
    assert_eq!(run(&program).unwrap().len(), 1000);
    let program = vec![
        block(
            "test_init",
            vec![],
            vec![],
        ),
        block("loop", vec![], vec![Stmt::PrintTemplate("x".to_string(), None)]),
    ];
    assert_eq!(run_tests(&program).unwrap().len(), 100);
}

#[test]
fn labelled_break_leaves_the_loop_of_that_name() {
    let inner = block(
        "loop",
        vec![keyed("name", text("inner"))],
        vec![Stmt::PrintTemplate("in".to_string(), None), Stmt::Break(Some("outer".to_string()))],
    );
    let outer = block(
        "loop",
        vec![keyed("name", text("outer"))],
        vec![inner, Stmt::PrintTemplate("unreached".to_string(), None)],
    );
    let program = vec![outer, Stmt::PrintTemplate("after".to_string(), None)];
    assert_eq!(run(&program), Ok(vec![line("in"), line("after")]));
}

#[test]
fn next_goes_on_to_the_step() {
    let persist = Expr::List(vec![item(sym("let")), item(text("i")), item(num(0))]);
    let step = Expr::List(
        vec![item(sym("let")), item(text("i")), item(Expr::Add(bx(var("i")), bx(num(1))))],
    );
    let body = vec![
        Stmt::If(Expr::Gt(bx(var("i")), bx(num(3))), Box::new(Stmt::Break(None)), None),
        Stmt::If(Expr::Lt(bx(var("i")), bx(num(2))), Box::new(Stmt::Next), None),
        Stmt::PrintExpr(var("i")),
    ];
    let program = vec![block("loop", vec![keyed("persist", persist), keyed("step", step)], body)];
    assert_eq!(run(&program), Ok(vec![line("2"), line("3")]));
}

#[test]
fn malformed_loop_metadata_is_a_structural_error() {
    let program = vec![break_loop(vec![keyed("persist", num(1))])];
    let e = run(&program).unwrap_err();
    assert_eq!(e.kind, ErrorKind::Structure);
    let program = vec![break_loop(vec![keyed("step", text("x"))])];
    assert_eq!(run(&program).unwrap_err().kind, ErrorKind::Structure);
}

#[test]
fn test_block_does_not_leak_but_test_init_does() {
    let program = vec![
        block("test", vec![], vec![let_("y", num(5)), Stmt::PrintExpr(var("y"))]),
        Stmt::PrintExpr(var("y")),
    ];
    let e = run_tests(&program).unwrap_err();
    assert_eq!(e.kind, ErrorKind::Name);
    assert_eq!(e.message, "undefined variable: y");
    let program = vec![
        block("test_init", vec![], vec![let_("y", num(5))]),
        block("test", vec![], vec![Stmt::PrintExpr(var("y"))]),
        Stmt::PrintExpr(var("y")),
    ];
    assert_eq!(run_tests(&program), Ok(vec![line("5"), line("5")]));
}

#[test]
fn test_blocks_run_in_test_mode_only() {
    let program = vec![
        block("test", vec![], vec![Stmt::PrintTemplate("t".to_string(), None)]),
        block("test_init", vec![], vec![Stmt::PrintTemplate("i".to_string(), None)]),
        block("notest", vec![], vec![Stmt::PrintTemplate("n".to_string(), None)]),
    ];
    assert_eq!(run(&program), Ok(vec![line("n")]));
    assert_eq!(run_tests(&program), Ok(vec![line("t"), line("i")]));
}

#[test]
fn nested_test_block_does_not_run() {
    let inner = block("test", vec![], vec![Stmt::PrintTemplate("inner".to_string(), None)]);
    let program = vec![
        block("test", vec![], vec![Stmt::PrintTemplate("outer".to_string(), None), inner]),
    ];
    assert_eq!(run_tests(&program), Ok(vec![line("outer")]));
}

#[test]
fn notest_block_does_not_leak() {
    let program = vec![
        block("notest", vec![], vec![let_("y", num(5))]),
        Stmt::PrintExpr(var("y")),
    ];
    assert_eq!(run(&program).unwrap_err().kind, ErrorKind::Name);
}

#[test]
fn unknown_block_keyword_fails() {
    let program = vec![block("nope", vec![], vec![])];
    let e = run(&program).unwrap_err();
    assert_eq!(e.kind, ErrorKind::Structure);
    assert_eq!(e.message, "Unknown block type: nope");
}

#[test]
fn registered_keyword_behaves_as_its_handler() {
    let mut it = Interpreter::new(false);
    it.register_block_handler("repeat", tinybuf_script::BlockHandler::Loop);
    let program = vec![
        block(
            "repeat",
            vec![],
            vec![Stmt::PrintTemplate("x".to_string(), None), Stmt::Break(None)],
        ),
    ];
    assert_eq!(it.run(&program), Ok(vec![line("x")]));
}

#[test]
fn signal_at_the_top_is_an_error() {
    let e = run(&vec![Stmt::Return(None)]).unwrap_err();
    assert_eq!(e.kind, ErrorKind::ControlFlow);
    assert_eq!(e.message, "Return not allowed at top level");
    let e = run(&vec![Stmt::Break(None)]).unwrap_err();
    assert_eq!(e.message, "Break not allowed at top level");
    let e = run(&vec![Stmt::Next]).unwrap_err();
    assert_eq!(e.message, "Next not allowed at top level");
}

#[test]
fn statements_after_a_signal_do_not_run() {
    let mut it = Interpreter::new(false);
    let program = vec![
        Stmt::PrintTemplate("a".to_string(), None),
        Stmt::If(num(1), Box::new(Stmt::Return(Some(num(7)))), None),
        Stmt::PrintTemplate("b".to_string(), None),
    ];
    let (out, flow) = it.run_block(&program).unwrap();
    assert_eq!(out, vec![line("a")]);
    assert_eq!(flow, tinybuf_script::ControlFlow::Return(Some(Value::Int(7))));
}

#[test]
fn output_before_a_failure_is_kept() {
    let mut it = Interpreter::new(false);
    let mut out = Vec::new();
    let program = vec![
        Stmt::PrintTemplate("a".to_string(), None),
        Stmt::PrintExpr(var("missing")),
        Stmt::PrintTemplate("b".to_string(), None),
    ];
    let e = it.run_into(&program, &mut out).unwrap_err();
    assert_eq!(e.kind, ErrorKind::Name);
    assert_eq!(out, vec![logged("a")]);
}

#[test]
fn test_block_does_not_leak_operators() {
    let sum = Expr::Add(bx(var("a")), bx(var("b")));
    let define = func("plus", &["a", "b"], vec![Stmt::ExprStmt(sum)]);
    let use_it = Stmt::PrintExpr(Expr::Custom(bx(num(1)), "+++".to_string(), bx(num(2))));
    let register = Stmt::RegOp("+++".to_string(), "plus".to_string());
    let program = vec![
        define,
        block("test", vec![], vec![register, use_it]),
        Stmt::PrintExpr(Expr::Custom(bx(num(1)), "+++".to_string(), bx(num(2)))),
    ];
    let mut it = Interpreter::new(true);
    let mut out = Vec::new();
    let e = it.run_into(&program, &mut out).unwrap_err();
    assert_eq!(out, vec![logged("3")]);
    assert_eq!(e.kind, ErrorKind::Name);
    assert_eq!(e.message, "undefined custom operator: +++");
    assert!(it.ctx.test_mode);
}

#[test]
fn failing_test_block_still_puts_the_environment_back() {
    let program = vec![
        let_("x", num(1)),
        block("test", vec![], vec![let_("x", num(2)), Stmt::PrintExpr(var("missing"))]),
    ];
    let mut it = Interpreter::new(true);
    let mut out = Vec::new();
    assert_eq!(it.run_into(&program, &mut out).unwrap_err().kind, ErrorKind::Name);
    assert_eq!(it.env.get("x"), Some(&Value::Int(1)));
    assert!(it.ctx.test_mode);
}

#[test]
fn failing_loop_still_puts_the_environment_back() {
    let persist = Expr::List(vec![item(sym("let")), item(text("i")), item(num(0))]);
    let program = vec![
        let_("i", num(7)),
        block(
            "loop",
            vec![keyed("persist", persist)],
            vec![let_("j", num(1)), Stmt::PrintExpr(var("missing"))],
        ),
    ];
    let mut it = Interpreter::new(false);
    let mut out = Vec::new();
    assert_eq!(it.run_into(&program, &mut out).unwrap_err().kind, ErrorKind::Name);
    assert_eq!(it.env.get("i"), Some(&Value::Int(7)));
    assert_eq!(it.env.get("j"), None);
}
