use tinybuf_script::{
    eval_expr_for_tests, to_string, Answer, Arg, Env, Error, ErrorKind, Expr, Interpreter, Output,
    ParamType, Request, Stmt, Value,
};

fn num(i: i64) -> Expr {
    Expr::Int(i)
}

fn var(s: &str) -> Expr {
    Expr::Var(s.to_string())
}

fn sym(s: &str) -> Expr {
    Expr::Sym(s.to_string())
}

fn text(s: &str) -> Expr {
    Expr::Str(s.to_string())
}

fn line(s: &str) -> Output {
    Output::Line(s.to_string())
}

fn method(receiver: Expr, op: &str, args: Vec<Expr>) -> Expr {
    Expr::Method(Box::new(receiver), op.to_string(), args)
}

fn invoke(ty: &str, op: &str, receiver: Option<u64>, args: Vec<Arg>) -> Output {
    Output::Asked(Request::Invoke(ty.to_string(), op.to_string(), receiver, args))
}

fn run_with(answers: Vec<Answer>, program: &[Stmt]) -> (Vec<Output>, Result<(), Error>) {
    let mut it = Interpreter::new(false);
    it.ctx.answers = answers;
    let mut out = Vec::new();
    let r = it.run_into(program, &mut out).map(|_| ());
    (out, r)
}

#[test]
fn method_call_without_an_answer_is_pending() {
    let program = vec![Stmt::PrintExpr(method(sym("testobj"), "add", vec![num(1), num(2)]))];
    let (out, r) = run_with(vec![], &program);
    assert_eq!(out, vec![invoke("testobj", "add", None, vec![Arg::Int(1), Arg::Int(2)])]);
    let e = r.unwrap_err();
    assert_eq!(e.kind, ErrorKind::Pending);
    assert_eq!(e.message, "host answer pending");
}

#[test]
fn method_call_goes_on_with_the_answer() {
    let program = vec![
        Stmt::Let("s".to_string(), method(var("testobj"), "add", vec![num(1), num(2)])),
        Stmt::PrintExpr(Expr::Add(Box::new(var("s")), Box::new(num(10)))),
    ];
    let (out, r) = run_with(vec![Answer::Int(3)], &program);
    assert_eq!(r, Ok(()));
    assert_eq!(
        out,
        vec![invoke("testobj", "add", None, vec![Arg::Int(1), Arg::Int(2)]), line("13")]
    );
}

#[test]
fn answers_are_used_in_the_order_of_the_requests() {
    let program = vec![
        Stmt::Let("p".to_string(), method(sym("point"), "new", vec![num(1), num(2)])),
        Stmt::PrintExpr(var("p")),
        Stmt::PrintExpr(method(var("p"), "len", vec![])),
        Stmt::PrintExpr(method(var("p"), "dist", vec![var("p")])),
    ];
    let first = invoke("point", "new", None, vec![Arg::Int(1), Arg::Int(2)]);
    let second = invoke("point", "len", Some(7), vec![]);
    let third = invoke("point", "dist", Some(7), vec![Arg::Object(7)]);
    let object = Answer::Object(7, "point".to_string());

    let (out, r) = run_with(vec![], &program);
    assert_eq!(out, vec![first.clone_for_test()]);
    assert_eq!(r.unwrap_err().kind, ErrorKind::Pending);

    let (out, r) = run_with(vec![object.clone()], &program);
    assert_eq!(out, vec![first.clone_for_test(), line("<object point>"), second.clone_for_test()]);
    assert_eq!(r.unwrap_err().kind, ErrorKind::Pending);

    let (out, r) = run_with(vec![object.clone(), Answer::Int(2), Answer::Int(0)], &program);
    assert_eq!(r, Ok(()));
    assert_eq!(
        out,
        vec![first, line("<object point>"), second, line("2"), third, line("0")]
    );
}

trait CloneForTest {
    fn clone_for_test(&self) -> Self;
}

impl CloneForTest for Output {
    fn clone_for_test(&self) -> Output {
        match self {
            Output::Line(s) => Output::Line(s.clone()),
            Output::Asked(Request::Invoke(a, b, c, d)) => {
                Output::Asked(Request::Invoke(a.clone(), b.clone(), *c, d.clone()))
            }
            Output::Asked(_) => panic!("only invocations are copied here"),
        }
    }
}

#[test]
fn failed_operation_is_a_foreign_error() {
    let program = vec![Stmt::PrintExpr(method(sym("t"), "op", vec![]))];
    let (_, r) = run_with(vec![Answer::Failed(-3)], &program);
    let e = r.unwrap_err();
    assert_eq!(e.kind, ErrorKind::Foreign);
    assert_eq!(e.message, "op call failed");
    let (_, r) = run_with(vec![Answer::Returned(Value::Int(1))], &program);
    let e = r.unwrap_err();
    assert_eq!(e.kind, ErrorKind::Foreign);
    assert_eq!(e.message, "unexpected answer");
}

#[test]
fn method_call_needs_an_object_or_a_type() {
    let program = vec![
        Stmt::Let("x".to_string(), num(1)),
        Stmt::PrintExpr(method(var("x"), "op", vec![])),
    ];
    let (out, r) = run_with(vec![Answer::Int(1)], &program);
    assert_eq!(out, vec![]);
    let e = r.unwrap_err();
    assert_eq!(e.kind, ErrorKind::Type);
    assert_eq!(e.message, "method call requires an object");
}

#[test]
fn operation_takes_integers_and_objects_only() {
    let e = eval_expr_for_tests(&method(sym("t"), "op", vec![text("s")])).unwrap_err();
    assert_eq!(e.kind, ErrorKind::Type);
    assert_eq!(e.message, "string args not supported");
    let e = eval_expr_for_tests(&method(sym("t"), "op", vec![sym("s")])).unwrap_err();
    assert_eq!(e.kind, ErrorKind::Type);
    assert_eq!(e.message, "unsupported arg type");
    let e = eval_expr_for_tests(&method(sym("t"), "op", vec![num(1)])).unwrap_err();
    assert_eq!(e.kind, ErrorKind::Pending);
}

#[test]
fn native_function_is_asked_of_the_host() {
    let mut it = Interpreter::new(false);
    it.register_native("shout", vec![ParamType::Str]);
    it.ctx.answers = vec![Answer::Returned(Value::Str("HI".to_string()))];
    let program = vec![
        Stmt::Let("a".to_string(), num(1)),
        Stmt::PrintExpr(Expr::Call("shout".to_string(), vec![text("hi")])),
    ];
    let mut out = Vec::new();
    assert!(it.run_into(&program, &mut out).is_ok());
    let mut env = Env::new();
    env.insert(
        "shout".to_string(),
        Value::NativeFunc(vec![ParamType::Str], "shout".to_string()),
    );
    env.insert("a".to_string(), Value::Int(1));
    assert_eq!(
        out,
        vec![
            Output::Asked(Request::Native(
                "shout".to_string(),
                vec![Value::Str("hi".to_string())],
                env
            )),
            line("HI"),
        ]
    );
}

#[test]
fn native_function_checks_its_arguments_before_the_host_is_asked() {
    let mut it = Interpreter::new(false);
    it.register_native("shout", vec![ParamType::Str, ParamType::Any]);
    let mut out = Vec::new();
    let program = vec![Stmt::PrintExpr(Expr::Call("shout".to_string(), vec![num(1), num(2)]))];
    let e = it.run_into(&program, &mut out).unwrap_err();
    assert_eq!(e.kind, ErrorKind::Type);
    assert_eq!(e.message, "argument type mismatch");
    assert_eq!(out, vec![]);
    let program = vec![Stmt::PrintExpr(Expr::Call("shout".to_string(), vec![text("a")]))];
    let e = it.run_into(&program, &mut out).unwrap_err();
    assert_eq!(e.kind, ErrorKind::Arity);
    assert_eq!(e.message, "arity mismatch: expected 2, got 1");
    assert_eq!(out, vec![]);
    let program = vec![Stmt::PrintExpr(Expr::Call("shout".to_string(), vec![text("a"), sym("b")]))];
    let e = it.run_into(&program, &mut out).unwrap_err();
    assert_eq!(e.kind, ErrorKind::Pending);
    assert_eq!(out.len(), 1);
}

#[test]
fn each_parameter_kind_takes_its_values() {
    let object = Value::Object(1, "t".to_string());
    let list = Value::List(vec![], vec![]);
    let values = [
        Value::Int(1),
        Value::Str("s".to_string()),
        Value::Sym("y".to_string()),
        list,
        object,
    ];
    let kinds =
        [ParamType::Int, ParamType::Str, ParamType::Sym, ParamType::List, ParamType::Obj];
    for (i, k) in kinds.iter().enumerate() {
        for (j, v) in values.iter().enumerate() {
            assert_eq!(k.takes(v), i == j);
        }
    }
    for v in values.iter() {
        assert!(ParamType::Any.takes(v));
    }
}

#[test]
fn native_function_failure_is_handed_on() {
    let mut it = Interpreter::new(false);
    it.register_native("boom", vec![]);
    it.ctx.answers =
        vec![Answer::Raised(Error { kind: ErrorKind::Type, message: "no".to_string() })];
    let mut out = Vec::new();
    let program = vec![Stmt::PrintExpr(Expr::Call("boom".to_string(), vec![]))];
    let e = it.run_into(&program, &mut out).unwrap_err();
    assert_eq!(e.kind, ErrorKind::Type);
    assert_eq!(e.message, "no");
    it.ctx.answers = vec![Answer::Int(1)];
    let mut out = Vec::new();
    let e = it.run_into(&program, &mut out).unwrap_err();
    assert_eq!(e.kind, ErrorKind::Foreign);
}

#[test]
fn native_function_is_callable_as_the_head_of_a_list() {
    let mut it = Interpreter::new(false);
    it.register_native("one", vec![ParamType::Int]);
    it.ctx.answers = vec![Answer::Returned(Value::Int(5)), Answer::Returned(Value::Int(6))];
    let item = |value| tinybuf_script::ListItem { key: None, value };
    let program = vec![
        Stmt::PrintExpr(Expr::List(vec![item(var("one")), item(num(1))])),
        Stmt::RunList(vec![sym("one"), num(2)]),
    ];
    let mut out = Vec::new();
    assert!(it.run_into(&program, &mut out).is_ok());
    assert_eq!(out.len(), 4);
    assert_eq!(out[1], line("5"));
    assert_eq!(out[3], line("6"));
}

#[test]
fn objects_and_natives_render_and_are_false() {
    assert_eq!(to_string(&Value::Object(3, "point".to_string())), "<object point>");
    assert_eq!(to_string(&Value::NativeFunc(vec![], "f".to_string())), "<native>");
    assert!(!Value::Object(3, "point".to_string()).is_truthy());
    assert!(Value::NativeFunc(vec![], "f".to_string()).is_callable());
    assert!(!Value::Object(3, "point".to_string()).is_callable());
}

use tinybuf_script::interpreter::count_asked;

#[test]
fn requests_in_the_log_are_counted() {
    let log = vec![
        line("a"),
        invoke("t", "op", None, vec![]),
        line("b"),
        Output::Asked(Request::TypeNames),
    ];
    assert_eq!(count_asked(&log), 2);
    assert_eq!(count_asked(&vec![]), 0);
}

use tinybuf_script::{pending_request, Attempt};

/// A registry that keeps its instances in a table and counts what is asked of it.
struct FakeRegistry {
    points: Vec<(i64, i64)>,
    performed: usize,
}

impl FakeRegistry {
    fn perform(&mut self, request: &Request) -> Answer {
        self.performed += 1;
        match request {
            Request::Invoke(ty, op, receiver, args) if ty == "point" => {
                let ints: Vec<i64> = args
                    .iter()
                    .map(|a| match a {
                        Arg::Int(i) => *i,
                        Arg::Object(h) => *h as i64,
                    })
                    .collect();
                match (op.as_str(), receiver) {
                    ("new", None) if ints.len() == 2 => {
                        self.points.push((ints[0], ints[1]));
                        Answer::Object((self.points.len() - 1) as u64, "point".to_string())
                    }
                    ("x", Some(h)) => Answer::Int(self.points[*h as usize].0),
                    ("sum", Some(h)) => {
                        let p = self.points[*h as usize];
                        Answer::Int(p.0 + p.1)
                    }
                    _ => Answer::Failed(-1),
                }
            }
            Request::Native(name, args, _) if name == "twice" => match &args[0] {
                Value::Int(i) => Answer::Returned(Value::Int(2 * i)),
                _ => Answer::Failed(-1),
            },
            _ => Answer::Failed(-2),
        }
    }
}

fn replay(
    interp: &mut Interpreter,
    registry: &mut FakeRegistry,
    program: &[Stmt],
) -> (Vec<String>, Result<(), Error>) {
    let mut answers: Vec<Answer> = Vec::new();
    loop {
        match interp.attempt(program, &answers) {
            Attempt::Waiting(request) => answers.push(registry.perform(&request)),
            Attempt::Finished(next, lines, failure) => {
                *interp = next;
                return (lines, failure.map_or(Ok(()), Err));
            }
        }
    }
}

#[test]
fn host_that_runs_again_with_each_answer_finishes_the_program() {
    let mut interp = Interpreter::new(false);
    interp.register_native("twice", vec![ParamType::Int]);
    let mut registry = FakeRegistry { points: vec![], performed: 0 };
    let program = vec![
        Stmt::PrintTemplate("start".to_string(), None),
        Stmt::Let("p".to_string(), method(sym("point"), "new", vec![num(3), num(4)])),
        Stmt::Let("q".to_string(), method(sym("point"), "new", vec![num(10), num(20)])),
        Stmt::PrintExpr(method(var("p"), "sum", vec![])),
        Stmt::PrintExpr(Expr::Call(
            "twice".to_string(),
            vec![method(var("q"), "x", vec![])],
        )),
    ];
    let (out, r) = replay(&mut interp, &mut registry, &program);
    assert_eq!(r, Ok(()));
    assert_eq!(out, vec!["start", "7", "20"]);
    assert_eq!(registry.performed, 5);
    assert_eq!(registry.points, vec![(3, 4), (10, 20)]);

    let next = vec![Stmt::PrintExpr(method(var("q"), "sum", vec![]))];
    let (out, r) = replay(&mut interp, &mut registry, &next);
    assert_eq!(r, Ok(()));
    assert_eq!(out, vec!["30"]);
    assert_eq!(registry.performed, 6);
}

#[test]
fn failure_of_the_registry_ends_the_program() {
    let mut interp = Interpreter::new(false);
    let mut registry = FakeRegistry { points: vec![], performed: 0 };
    let program = vec![
        Stmt::PrintTemplate("a".to_string(), None),
        Stmt::PrintExpr(method(sym("point"), "nope", vec![])),
        Stmt::PrintTemplate("b".to_string(), None),
    ];
    let (out, r) = replay(&mut interp, &mut registry, &program);
    assert_eq!(r.unwrap_err().kind, ErrorKind::Foreign);
    assert_eq!(out, vec!["a"]);
    assert_eq!(registry.performed, 1);
}

#[test]
fn waiting_run_is_told_from_a_finished_one() {
    let ask = invoke("t", "op", None, vec![]);
    assert!(pending_request(&vec![], &vec![]).is_none());
    assert!(pending_request(&vec![line("a")], &vec![]).is_none());
    let log = vec![line("a"), ask];
    assert_eq!(
        pending_request(&log, &vec![]),
        Some(&Request::Invoke("t".to_string(), "op".to_string(), None, vec![]))
    );
    assert!(pending_request(&log, &vec![Answer::Int(1)]).is_none());
}

use tinybuf_script::live_objects;

/// A registry that counts the instances it makes and releases.
struct CountingRegistry {
    live: Vec<bool>,
    made: usize,
    released: usize,
    double_frees: usize,
}

impl CountingRegistry {
    fn new() -> CountingRegistry {
        CountingRegistry { live: vec![], made: 0, released: 0, double_frees: 0 }
    }

    fn perform(&mut self, request: &Request) -> Answer {
        match request {
            Request::Invoke(ty, op, None, _) if op == "new" => {
                self.live.push(true);
                self.made += 1;
                Answer::Object((self.live.len() - 1) as u64, ty.clone())
            }
            _ => Answer::Failed(-1),
        }
    }

    fn release(&mut self, handle: u64) {
        if self.live[handle as usize] {
            self.live[handle as usize] = false;
            self.released += 1;
        } else {
            self.double_frees += 1;
        }
    }

    /// Releases the instances that no value of the interpreter holds.
    fn sweep(&mut self, interp: &Interpreter) {
        let held = live_objects(&interp.env);
        for h in 0..self.live.len() as u64 {
            if self.live[h as usize] && !held.contains(&h) {
                self.release(h);
            }
        }
    }

    fn run(&mut self, interp: &mut Interpreter, program: &[Stmt]) -> Result<(), Error> {
        let mut answers: Vec<Answer> = Vec::new();
        loop {
            match interp.attempt(program, &answers) {
                Attempt::Waiting(request) => answers.push(self.perform(&request)),
                Attempt::Finished(next, _, failure) => {
                    *interp = next;
                    self.sweep(interp);
                    return failure.map_or(Ok(()), Err);
                }
            }
        }
    }
}

#[test]
fn discarded_object_is_released_exactly_once() {
    let mut interp = Interpreter::new(false);
    let mut registry = CountingRegistry::new();
    let program = vec![Stmt::ExprStmt(method(sym("point"), "new", vec![]))];
    assert_eq!(registry.run(&mut interp, &program), Ok(()));
    assert_eq!((registry.made, registry.released, registry.double_frees), (1, 1, 0));
    registry.sweep(&interp);
    registry.sweep(&interp);
    assert_eq!((registry.made, registry.released, registry.double_frees), (1, 1, 0));
}

#[test]
fn held_object_is_released_when_nothing_holds_it_any_more() {
    let mut interp = Interpreter::new(false);
    let mut registry = CountingRegistry::new();
    let make = |name: &str| Stmt::Let(name.to_string(), method(sym("point"), "new", vec![]));
    let program = vec![
        make("p"),
        Stmt::LetFunc("f".to_string(), vec![], vec![Stmt::ExprStmt(var("p"))]),
        make("q"),
        Stmt::Let("l".to_string(), Expr::SList(vec![var("q"), num(1)])),
    ];
    assert_eq!(registry.run(&mut interp, &program), Ok(()));
    assert_eq!((registry.made, registry.released), (2, 0));
    let mut held = live_objects(&interp.env);
    held.sort();
    held.dedup();
    assert_eq!(held, vec![0, 1]);

    let unbind = |name: &str| Stmt::Let(name.to_string(), num(0));
    assert_eq!(registry.run(&mut interp, &vec![unbind("p"), unbind("q")]), Ok(()));
    assert_eq!((registry.made, registry.released), (2, 0));
    assert_eq!(registry.run(&mut interp, &vec![unbind("l")]), Ok(()));
    assert_eq!((registry.made, registry.released), (2, 1));
    assert_eq!(registry.live, vec![true, false]);
    assert_eq!(live_objects(&interp.env), vec![0]);
    assert_eq!(registry.run(&mut interp, &vec![unbind("f")]), Ok(()));
    assert_eq!((registry.made, registry.released, registry.double_frees), (2, 2, 0));
    assert_eq!(live_objects(&interp.env), Vec::<u64>::new());
}

#[test]
fn attempt_leaves_the_interpreter_as_it_is() {
    let mut interp = Interpreter::new(false);
    interp.env.insert("x".to_string(), Value::Int(1));
    let program = vec![
        Stmt::Let("x".to_string(), num(2)),
        Stmt::PrintExpr(var("x")),
        Stmt::Let("y".to_string(), method(sym("t"), "op", vec![var("x")])),
        Stmt::PrintExpr(var("y")),
    ];
    match interp.attempt(&program, &vec![]) {
        Attempt::Waiting(request) => assert_eq!(
            request,
            Request::Invoke("t".to_string(), "op".to_string(), None, vec![Arg::Int(2)])
        ),
        Attempt::Finished(..) => panic!("the program asks the host"),
    }
    assert_eq!(interp.env.get("x"), Some(&Value::Int(1)));
    assert_eq!(interp.env.get("y"), None);
    match interp.attempt(&program, &vec![Answer::Int(9)]) {
        Attempt::Finished(next, lines, failure) => {
            assert_eq!(lines, vec!["2", "9"]);
            assert_eq!(failure, None);
            assert_eq!(next.env.get("y"), Some(&Value::Int(9)));
            assert!(next.ctx.answers.is_empty());
        }
        Attempt::Waiting(_) => panic!("the host has answered"),
    }
    assert_eq!(interp.env.get("x"), Some(&Value::Int(1)));
}

#[test]
fn attempt_that_fails_is_finished() {
    let interp = Interpreter::new(false);
    let program = vec![
        Stmt::PrintTemplate("a".to_string(), None),
        Stmt::PrintExpr(var("missing")),
    ];
    match interp.attempt(&program, &vec![]) {
        Attempt::Finished(_, lines, failure) => {
            assert_eq!(lines, vec!["a"]);
            assert_eq!(failure.unwrap().kind, ErrorKind::Name);
        }
        Attempt::Waiting(_) => panic!("the program asks nothing"),
    }
    match interp.attempt(&vec![Stmt::Break(None)], &vec![]) {
        Attempt::Finished(_, _, failure) => {
            assert_eq!(failure.unwrap().message, "Break not allowed at top level");
        }
        Attempt::Waiting(_) => panic!("the program asks nothing"),
    }
}
