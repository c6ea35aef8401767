use tinybuf_script::assoc::position;
use tinybuf_script::ast::{clone_exprs, clone_stmts};
use tinybuf_script::interpreter::{eval, item_at, read_plan, report_lines, unwrap_group_expr};
use tinybuf_script::listform::{expr_to_string, list_expr_items, values_of_items};
use tinybuf_script::text::{chars_of, joined, fill_template, int_to_string, usize_to_string};
use tinybuf_script::value::{keys_get, keys_put, pairs_get, pairs_put};
use tinybuf_script::{
    printed_lines, Answer, CallReply, Env, ErrorKind, Expr, Interpreter, ListItem, Output, Request,
    Returned, Stmt, Value,
};

#[test]
fn integers_in_decimal() {
    assert_eq!(int_to_string(0), "0");
    assert_eq!(int_to_string(7), "7");
    assert_eq!(int_to_string(-7), "-7");
    assert_eq!(int_to_string(10), "10");
    assert_eq!(int_to_string(1234567890), "1234567890");
    assert_eq!(int_to_string(i64::MIN), i64::MIN.to_string());
    assert_eq!(int_to_string(i64::MAX), i64::MAX.to_string());
    assert_eq!(usize_to_string(0), "0");
    assert_eq!(usize_to_string(usize::MAX), usize::MAX.to_string());
}

#[test]
fn strings_as_characters() {
    assert_eq!(chars_of("a\u{e9}b"), vec!['a', '\u{e9}', 'b']);
    assert_eq!(chars_of(""), Vec::<char>::new());
    assert_eq!(joined("ab", "cd"), "abcd");
    assert_eq!(joined("", ""), "");
}

#[test]
fn templates() {
    assert_eq!(fill_template("{}", "x"), "x");
    assert_eq!(fill_template("a{}b{}c", "-"), "a-b-c");
    assert_eq!(fill_template("{", "x"), "{");
    assert_eq!(fill_template("}{", "x"), "}{");
    assert_eq!(fill_template("{}{}", "{}"), "{}{}");
    assert_eq!(fill_template("", "x"), "");
    assert_eq!(fill_template("\u{e9}{}", "\u{4e16}"), "\u{e9}\u{4e16}");
}

#[test]
fn tables_bind_in_place() {
    let mut table: Vec<(String, String)> = Vec::new();
    assert_eq!(pairs_get(&table, "a"), None);
    pairs_put(&mut table, "a".to_string(), "1".to_string());
    pairs_put(&mut table, "b".to_string(), "2".to_string());
    pairs_put(&mut table, "a".to_string(), "3".to_string());
    assert_eq!(table, vec![("a".to_string(), "3".to_string()), ("b".to_string(), "2".to_string())]);
    assert_eq!(pairs_get(&table, "b"), Some(&"2".to_string()));
    assert_eq!(position(&table, "a"), 0);
    assert_eq!(position(&table, "b"), 1);
    assert_eq!(position(&table, "c"), 2);
    let mut keys: Vec<(String, usize)> = Vec::new();
    keys_put(&mut keys, "k".to_string(), 4);
    keys_put(&mut keys, "k".to_string(), 5);
    assert_eq!(keys_get(&keys, "k"), Some(5));
    assert_eq!(keys_get(&keys, "x"), None);
    assert_eq!(keys.len(), 1);
}

#[test]
fn copies_are_equal() {
    let e = Expr::If(
        Box::new(Expr::Var("c".to_string())),
        Box::new(Expr::List(vec![ListItem { key: Some("k".to_string()), value: Expr::Int(1) }])),
        Some(Box::new(Expr::Method(
            Box::new(Expr::Sym("t".to_string())),
            "op".to_string(),
            vec![],
        ))),
    );
    assert_eq!(e.clone(), e);
    let s = Stmt::Block(
        "loop".to_string(),
        vec![ListItem { key: None, value: e.clone() }],
        vec![Stmt::If(e.clone(), Box::new(Stmt::Next), Some(Box::new(Stmt::Break(None))))],
    );
    assert_eq!(s.clone(), s);
    assert_eq!(clone_exprs(&vec![e.clone(), Expr::Int(2)]), vec![e.clone(), Expr::Int(2)]);
    assert_eq!(clone_stmts(&vec![s.clone()]), vec![s]);
    let mut env = Env::new();
    env.insert("x".to_string(), Value::List(vec![Value::Int(1)], vec![("k".to_string(), 0)]));
    let f = Value::FuncBlock(vec!["a".to_string()], vec![Stmt::Next], env);
    assert_eq!(f.clone(), f);
    let mut it = Interpreter::new(true);
    it.env.insert("f".to_string(), f);
    it.ctx.answers = vec![Answer::Int(1)];
    let copy = it.clone();
    assert_eq!(copy.env, it.env);
    assert_eq!(copy.ctx.answers, it.ctx.answers);
    assert_eq!(copy.ctx.test_mode, it.ctx.test_mode);
    assert_eq!(copy.ctx.handlers, it.ctx.handlers);
    assert_eq!(copy.max_depth, it.max_depth);
}

#[test]
fn names_and_items_of_expressions() {
    assert_eq!(expr_to_string(&Expr::Str("a".to_string())), Some("a".to_string()));
    assert_eq!(expr_to_string(&Expr::Var("b".to_string())), Some("b".to_string()));
    assert_eq!(expr_to_string(&Expr::Sym("c".to_string())), Some("c".to_string()));
    assert_eq!(expr_to_string(&Expr::Int(1)), None);
    let items = vec![
        ListItem { key: Some("k".to_string()), value: Expr::Int(1) },
        ListItem { key: None, value: Expr::Int(2) },
    ];
    assert_eq!(values_of_items(&items), vec![Expr::Int(1), Expr::Int(2)]);
    assert_eq!(list_expr_items(&Expr::List(items)), Some(vec![Expr::Int(1), Expr::Int(2)]));
    assert_eq!(list_expr_items(&Expr::Int(1)), None);
    let grouped = Expr::Group(Box::new(Expr::Group(Box::new(Expr::Int(3)))));
    assert_eq!(unwrap_group_expr(&grouped), &Expr::Int(3));
    assert_eq!(unwrap_group_expr(&Expr::Int(4)), &Expr::Int(4));
}

#[test]
fn items_of_a_list_value() {
    let items = vec![Value::Int(10), Value::Int(20)];
    let keys = vec![("k".to_string(), 1), ("far".to_string(), 9)];
    assert_eq!(item_at(&items, &keys, &Value::Int(0)), Ok(Value::Int(10)));
    assert_eq!(item_at(&items, &keys, &Value::Str("k".to_string())), Ok(Value::Int(20)));
    assert_eq!(item_at(&items, &keys, &Value::Int(2)).unwrap_err().kind, ErrorKind::Lookup);
    assert_eq!(item_at(&items, &keys, &Value::Int(i64::MIN)).unwrap_err().kind, ErrorKind::Lookup);
    assert_eq!(
        item_at(&items, &keys, &Value::Str("far".to_string())).unwrap_err().message,
        "index out of range"
    );
    assert_eq!(
        item_at(&items, &keys, &Value::Str("no".to_string())).unwrap_err().message,
        "key not found"
    );
    assert_eq!(
        item_at(&items, &keys, &Value::Sym("k".to_string())).unwrap_err().kind,
        ErrorKind::Type
    );
}

#[test]
fn plan_of_a_loop() {
    let stmt = |name: &str| {
        Expr::List(vec![
            ListItem { key: None, value: Expr::Sym("print_template".to_string()) },
            ListItem { key: None, value: Expr::Str(name.to_string()) },
        ])
    };
    let several = Expr::List(vec![
        ListItem { key: None, value: stmt("a") },
        ListItem { key: None, value: Expr::Int(0) },
        ListItem { key: None, value: stmt("b") },
    ]);
    let meta = vec![
        ListItem { key: Some("name".to_string()), value: Expr::Str("first".to_string()) },
        ListItem { key: Some("persist".to_string()), value: Expr::Group(Box::new(stmt("p"))) },
        ListItem { key: Some("step".to_string()), value: several },
        ListItem { key: Some("name".to_string()), value: Expr::Str("second".to_string()) },
        ListItem { key: Some("name".to_string()), value: Expr::Int(3) },
        ListItem { key: Some("other".to_string()), value: Expr::Str("x".to_string()) },
        ListItem { key: None, value: Expr::Str("y".to_string()) },
    ];
    let plan = read_plan(&meta).unwrap();
    assert_eq!(plan.label, Some("second".to_string()));
    assert_eq!(plan.persist, vec![Stmt::PrintTemplate("p".to_string(), None)]);
    assert_eq!(
        plan.step,
        vec![
            Stmt::PrintTemplate("a".to_string(), None),
            Stmt::PrintTemplate("b".to_string(), None)
        ]
    );
    let empty = read_plan(&vec![]).unwrap();
    assert_eq!((empty.persist.len(), empty.step.len(), empty.label), (0, 0, None));
    let bad = vec![ListItem {
        key: Some("step".to_string()),
        value: Expr::List(vec![ListItem { key: None, value: Expr::Sym("nope".to_string()) }]),
    }];
    assert_eq!(read_plan(&bad).unwrap_err().message, "unknown directive");
    let none = vec![ListItem { key: Some("persist".to_string()), value: Expr::List(vec![]) }];
    assert_eq!(read_plan(&none).unwrap().persist, vec![]);
}

#[test]
fn evaluation_appends_to_the_log() {
    let it = Interpreter::new(false);
    let mut out = vec![Output::Line("before".to_string())];
    let block = Expr::Block(vec![Stmt::PrintExpr(Expr::Int(1)), Stmt::ExprStmt(Expr::Int(2))]);
    assert_eq!(eval(&block, &it.env, &it.ctx, &mut out, 4), Ok(Value::Int(2)));
    assert_eq!(out, vec![Output::Line("before".to_string()), Output::Line("1".to_string())]);
    out.push(Output::Asked(Request::TypeNames));
    assert_eq!(printed_lines(&out), vec!["before", "1"]);
}

#[test]
fn reports_of_answers() {
    assert_eq!(report_lines(&Answer::Names(vec![])), Ok(vec!["no types".to_string()]));
    assert_eq!(
        report_lines(&Answer::Called(CallReply::Done(2, None))),
        Ok(vec!["ok 2".to_string()])
    );
    assert_eq!(
        report_lines(&Answer::Called(CallReply::Done(0, Some(Returned::Other)))),
        Ok(vec!["value".to_string()])
    );
    assert_eq!(
        report_lines(&Answer::Called(CallReply::AllocFailed)).unwrap_err().kind,
        ErrorKind::Foreign
    );
    assert_eq!(report_lines(&Answer::Failed(1)).unwrap_err().message, "unexpected answer");
}
