use tinybuf_script::{list_to_stmt, stmt_to_list_expr, ErrorKind, Expr, ListItem, Stmt};

fn num(i: i64) -> Expr {
    Expr::Int(i)
}

fn sym(s: &str) -> Expr {
    Expr::Sym(s.to_string())
}

fn text(s: &str) -> Expr {
    Expr::Str(s.to_string())
}

fn item(value: Expr) -> ListItem {
    ListItem { key: None, value }
}

fn list(values: Vec<Expr>) -> Expr {
    Expr::List(values.into_iter().map(item).collect())
}

fn message(items: &[Expr]) -> String {
    let e = list_to_stmt(items).unwrap_err();
    assert_eq!(e.kind, ErrorKind::Structure);
    e.message
}

#[test]
fn reads_simple_directives() {
    assert_eq!(
        list_to_stmt(&[sym("let"), text("x"), num(1)]),
        Ok(Stmt::Let("x".to_string(), num(1)))
    );
    assert_eq!(
        list_to_stmt(&[Expr::Var("let".to_string()), Expr::Var("x".to_string()), num(1)]),
        Ok(Stmt::Let("x".to_string(), num(1)))
    );
    assert_eq!(list_to_stmt(&[sym("print"), num(1)]), Ok(Stmt::PrintExpr(num(1))));
    assert_eq!(
        list_to_stmt(&[sym("print_template"), text("t")]),
        Ok(Stmt::PrintTemplate("t".to_string(), None))
    );
    assert_eq!(
        list_to_stmt(&[sym("print_template"), text("t"), num(1)]),
        Ok(Stmt::PrintTemplate("t".to_string(), Some(num(1))))
    );
    assert_eq!(list_to_stmt(&[sym("list_types")]), Ok(Stmt::ListTypes));
    assert_eq!(list_to_stmt(&[sym("list_types"), num(1)]), Ok(Stmt::ListTypes));
    assert_eq!(
        list_to_stmt(&[sym("list_type"), sym("t")]),
        Ok(Stmt::ListType("t".to_string()))
    );
    assert_eq!(
        list_to_stmt(&[sym("reg_operator"), text("+"), sym("f")]),
        Ok(Stmt::RegOp("+".to_string(), "f".to_string()))
    );
    assert_eq!(list_to_stmt(&[sym("return")]), Ok(Stmt::Return(None)));
    assert_eq!(list_to_stmt(&[sym("return"), num(1)]), Ok(Stmt::Return(Some(num(1)))));
    assert_eq!(list_to_stmt(&[sym("break")]), Ok(Stmt::Break(None)));
    assert_eq!(
        list_to_stmt(&[sym("break_to"), sym("outer")]),
        Ok(Stmt::Break(Some("outer".to_string())))
    );
    assert_eq!(list_to_stmt(&[sym("next")]), Ok(Stmt::Next));
    assert_eq!(list_to_stmt(&[sym("expr"), num(1)]), Ok(Stmt::ExprStmt(num(1))));
    assert_eq!(
        list_to_stmt(&[sym("call"), text("t"), text("op"), num(1), num(2)]),
        Ok(Stmt::Call("t".to_string(), "op".to_string(), vec![num(1), num(2)]))
    );
}

#[test]
fn reads_nested_statements() {
    let then = list(vec![sym("print"), num(1)]);
    let other = list(vec![sym("print"), num(2)]);
    assert_eq!(
        list_to_stmt(&[sym("if"), num(1), then.clone()]),
        Ok(Stmt::If(num(1), Box::new(Stmt::PrintExpr(num(1))), None))
    );
    assert_eq!(
        list_to_stmt(&[sym("if"), num(1), then.clone(), other]),
        Ok(Stmt::If(
            num(1),
            Box::new(Stmt::PrintExpr(num(1))),
            Some(Box::new(Stmt::PrintExpr(num(2))))
        ))
    );
    let body = list(vec![then.clone(), list(vec![sym("return"), num(3)])]);
    assert_eq!(
        list_to_stmt(&[sym("let_func"), text("f"), list(vec![sym("a"), text("b")]), body.clone()]),
        Ok(Stmt::LetFunc(
            "f".to_string(),
            vec!["a".to_string(), "b".to_string()],
            vec![Stmt::PrintExpr(num(1)), Stmt::Return(Some(num(3)))]
        ))
    );
    let meta = Expr::List(vec![ListItem { key: Some("name".to_string()), value: text("l") }]);
    assert_eq!(
        list_to_stmt(&[sym("block"), text("loop"), meta, body]),
        Ok(Stmt::Block(
            "loop".to_string(),
            vec![ListItem { key: Some("name".to_string()), value: text("l") }],
            vec![Stmt::PrintExpr(num(1)), Stmt::Return(Some(num(3)))]
        ))
    );
}

#[test]
fn head_that_is_a_list_is_replaced_by_its_items() {
    let head = list(vec![sym("let"), text("x")]);
    assert_eq!(list_to_stmt(&[head, num(1)]), Ok(Stmt::Let("x".to_string(), num(1))));
    let nested = list(vec![list(vec![sym("print")])]);
    assert_eq!(list_to_stmt(&[nested, num(1)]), Ok(Stmt::PrintExpr(num(1))));
    let empty = list(vec![]);
    assert_eq!(list_to_stmt(&[empty, sym("next")]), Ok(Stmt::Next));
    assert_eq!(message(&[list(vec![])]), "empty stmt list");
}

#[test]
fn malformed_lists_fail_with_their_message() {
    assert_eq!(message(&[]), "empty stmt list");
    assert_eq!(message(&[num(1)]), "invalid stmt list");
    assert_eq!(message(&[sym("frobnicate")]), "unknown directive");
    assert_eq!(message(&[sym("let"), text("x")]), "let expects name and expr");
    assert_eq!(message(&[sym("let"), num(1), num(2)]), "let name must be string or ident");
    assert_eq!(message(&[sym("print")]), "print expects expr");
    assert_eq!(message(&[sym("print_template")]), "print_template expects 1 or 2 args");
    assert_eq!(message(&[sym("print_template"), num(1)]), "template must be string");
    assert_eq!(message(&[sym("list_type")]), "list_type expects name");
    assert_eq!(message(&[sym("list_type"), num(1)]), "type name must be string");
    assert_eq!(message(&[sym("reg_operator"), text("+")]), "reg_operator expects op and function");
    assert_eq!(message(&[sym("reg_operator"), num(1), text("f")]), "op must be string");
    assert_eq!(
        message(&[sym("reg_operator"), text("+"), num(1)]),
        "function name must be string"
    );
    assert_eq!(message(&[sym("return"), num(1), num(2)]), "return expects 0 or 1 arg");
    assert_eq!(message(&[sym("break"), num(1)]), "break expects no arguments");
    assert_eq!(message(&[sym("break_to")]), "break_to expects 1 arg");
    assert_eq!(message(&[sym("break_to"), num(1)]), "label must be string or ident");
    assert_eq!(message(&[sym("next"), num(1)]), "next expects no arguments");
    assert_eq!(message(&[sym("if"), num(1)]), "if expects 2 or 3 args");
    assert_eq!(message(&[sym("if"), num(1), num(2)]), "if then must be a list-encoded stmt");
    assert_eq!(
        message(&[sym("if"), num(1), list(vec![sym("next")]), num(2)]),
        "if else must be a list-encoded stmt"
    );
    assert_eq!(
        message(&[sym("if"), num(1), list(vec![sym("nope")])]),
        "unknown directive"
    );
    assert_eq!(message(&[sym("call"), text("t")]), "call expects type, op and args");
    assert_eq!(message(&[sym("call"), num(1), text("op")]), "type must be string");
    assert_eq!(message(&[sym("call"), text("t"), num(1)]), "op must be string");
    assert_eq!(message(&[sym("let_func"), text("f")]), "let_func expects name, params, body");
    assert_eq!(
        message(&[sym("let_func"), num(1), list(vec![]), list(vec![])]),
        "func name must be string"
    );
    assert_eq!(
        message(&[sym("let_func"), text("f"), num(1), list(vec![])]),
        "params must be list"
    );
    assert_eq!(
        message(&[sym("let_func"), text("f"), list(vec![num(1)]), list(vec![])]),
        "param must be string or ident"
    );
    assert_eq!(
        message(&[sym("let_func"), text("f"), list(vec![]), num(1)]),
        "body must be list"
    );
    assert_eq!(
        message(&[sym("let_func"), text("f"), list(vec![]), list(vec![num(1)])]),
        "body items must be list"
    );
    assert_eq!(message(&[sym("expr")]), "expr expects 1 arg");
    assert_eq!(message(&[sym("block"), num(1)]), "block header must be list");
    assert_eq!(message(&[sym("block")]), "block expects header and body");
    assert_eq!(
        message(&[sym("block"), num(1), list(vec![]), list(vec![])]),
        "block name must be string"
    );
    assert_eq!(
        message(&[sym("block"), text("b"), num(1), list(vec![])]),
        "block meta must be list"
    );
    assert_eq!(
        message(&[sym("block"), text("b"), list(vec![]), num(1)]),
        "block body must be list"
    );
    assert_eq!(
        message(&[sym("block"), text("b"), list(vec![]), list(vec![num(1)])]),
        "block body items must be list"
    );
}

#[test]
fn writes_statements_as_lists() {
    assert_eq!(
        stmt_to_list_expr(&Stmt::Let("x".to_string(), num(1))),
        list(vec![sym("let"), text("x"), num(1)])
    );
    assert_eq!(stmt_to_list_expr(&Stmt::Next), list(vec![sym("next")]));
    assert_eq!(stmt_to_list_expr(&Stmt::Break(None)), list(vec![sym("break")]));
    assert_eq!(
        stmt_to_list_expr(&Stmt::Break(Some("l".to_string()))),
        list(vec![sym("break_to"), text("l")])
    );
    assert_eq!(
        stmt_to_list_expr(&Stmt::PrintTemplate("t".to_string(), None)),
        list(vec![sym("print_template"), text("t")])
    );
    assert_eq!(
        stmt_to_list_expr(&Stmt::RunList(vec![num(1), num(2)])),
        list(vec![num(1), num(2)])
    );
    assert_eq!(
        stmt_to_list_expr(&Stmt::Call("t".to_string(), "op".to_string(), vec![num(1)])),
        list(vec![sym("call"), text("t"), text("op"), num(1)])
    );
    let block = Stmt::Block(
        "loop".to_string(),
        vec![ListItem { key: Some("name".to_string()), value: text("l") }],
        vec![Stmt::Next],
    );
    let header = list(vec![
        sym("block"),
        text("loop"),
        Expr::List(vec![ListItem { key: Some("name".to_string()), value: text("l") }]),
    ]);
    assert_eq!(
        stmt_to_list_expr(&block),
        list(vec![header, list(vec![list(vec![sym("next")])])])
    );
}

#[test]
fn what_is_written_is_read_back() {
    let stmts = vec![
        Stmt::Let("x".to_string(), num(1)),
        Stmt::PrintTemplate("t".to_string(), Some(num(2))),
        Stmt::PrintTemplate("t".to_string(), None),
        Stmt::PrintExpr(num(3)),
        Stmt::ListTypes,
        Stmt::ListType("t".to_string()),
        Stmt::RegOp("+".to_string(), "f".to_string()),
        Stmt::LetFunc(
            "f".to_string(),
            vec!["a".to_string()],
            vec![Stmt::Return(Some(num(1))), Stmt::Next],
        ),
        Stmt::Return(None),
        Stmt::Call("t".to_string(), "op".to_string(), vec![num(1), num(2)]),
        Stmt::ExprStmt(num(4)),
        Stmt::Block(
            "test".to_string(),
            vec![ListItem { key: Some("k".to_string()), value: num(1) }],
            vec![Stmt::Break(None), Stmt::Break(Some("l".to_string()))],
        ),
        Stmt::If(num(1), Box::new(Stmt::Next), Some(Box::new(Stmt::Break(None)))),
        Stmt::If(num(1), Box::new(Stmt::Next), None),
    ];
    for s in stmts {
        let written = stmt_to_list_expr(&s);
        let items: Vec<Expr> = match written {
            Expr::List(items) => items.into_iter().map(|i| i.value).collect(),
            _ => panic!("a statement is written as a list"),
        };
        assert_eq!(list_to_stmt(&items), Ok(s));
    }
}
