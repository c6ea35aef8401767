//! Statements written as lists: the reading of a list of expressions as a
//! statement, and the writing of a statement as a list expression.

use vstd::prelude::*;
use vstd::string::StringExecFns;
use crate::ast::{
    clone_items, exprs_view, items_view, stmts_view, strings_view, Expr, ExprModel, ItemModel,
    ListItem, Stmt, StmtModel,
};
use crate::text::str_eq;
use crate::value::{Error, ErrorKind, ErrorModel};

verus! {

/// The failure of a list that is no statement.
pub open spec fn malformed(message: Seq<char>) -> ErrorModel {
    ErrorModel { kind: ErrorKind::Structure, message }
}

/// The name that an expression stands for where a name is expected: that of
/// a string, a variable or a symbol.
pub open spec fn name_of(e: ExprModel) -> Option<Seq<char>> {
    match e {
        ExprModel::Str(s) => Some(s),
        ExprModel::Var(s) => Some(s),
        ExprModel::Sym(s) => Some(s),
        _ => None,
    }
}

/// The values of the items of a list, without their keys.
pub open spec fn item_values(items: Seq<ItemModel>) -> Seq<ExprModel> {
    Seq::new(items.len(), |i: int| items[i].value)
}

/// The values of the items of a list expression; nothing for another expression.
pub open spec fn list_items(e: ExprModel) -> Option<Seq<ExprModel>> {
    match e {
        ExprModel::List(items) => Some(item_values(items)),
        _ => None,
    }
}

/// The number of list expressions nested in the item values of `e`, `e` included.
pub open spec fn weight(e: ExprModel) -> nat
    decreases e, 0nat,
{
    match e {
        ExprModel::List(items) => 1 + items_weight(items, items.len()),
        _ => 0,
    }
}

/// The weights of the first `n` item values, added up.
pub open spec fn items_weight(items: Seq<ItemModel>, n: nat) -> nat
    decreases items, n,
{
    if n == 0 || n > items.len() {
        0
    } else {
        items_weight(items, (n - 1) as nat) + weight(items[n - 1].value)
    }
}

/// The weights of the first `n` expressions, added up.
pub open spec fn total(es: Seq<ExprModel>, n: nat) -> nat
    decreases n,
{
    if n == 0 || n > es.len() {
        0
    } else {
        total(es, (n - 1) as nat) + weight(es[n - 1])
    }
}

/// The weight of all of `es`.
pub open spec fn total_weight(es: Seq<ExprModel>) -> nat {
    total(es, es.len())
}

/// The items of a list weigh as their values do.
pub proof fn lemma_items_weight(items: Seq<ItemModel>, n: nat)
    requires
        n <= items.len(),
    ensures
        items_weight(items, n) == total(item_values(items), n),
    decreases n,
{
    if n > 0 {
        lemma_items_weight(items, (n - 1) as nat);
    }
}

/// One of the first `n` expressions weighs no more than all of them.
pub proof fn lemma_total_bound(es: Seq<ExprModel>, n: nat, k: int)
    requires
        0 <= k < n <= es.len(),
    ensures
        weight(es[k]) <= total(es, n),
    decreases n,
{
    if k < n - 1 {
        lemma_total_bound(es, (n - 1) as nat, k);
    }
}

/// Two lists behind each other weigh as much as both.
pub proof fn lemma_total_concat(a: Seq<ExprModel>, b: Seq<ExprModel>, n: nat)
    requires
        n <= b.len(),
    ensures
        total(a + b, a.len() + n) == total(a, a.len()) + total(b, n),
    decreases n,
{
    if n > 0 {
        lemma_total_concat(a, b, (n - 1) as nat);
        assert((a + b)[a.len() + n - 1] == b[n - 1]);
    } else {
        lemma_total_prefix(a + b, a, a.len());
    }
}

/// Lists that begin alike weigh the same as far as they do.
pub proof fn lemma_total_prefix(s: Seq<ExprModel>, t: Seq<ExprModel>, n: nat)
    requires
        n <= s.len(),
        n <= t.len(),
        forall|i: int| 0 <= i < n ==> s[i] == t[i],
    ensures
        total(s, n) == total(t, n),
    decreases n,
{
    if n > 0 {
        lemma_total_prefix(s, t, (n - 1) as nat);
    }
}

/// A list without its head weighs as much less as the head weighs.
pub proof fn lemma_total_skip(es: Seq<ExprModel>, n: nat)
    requires
        n < es.len(),
    ensures
        total(es.skip(1), n) + weight(es[0]) == total(es, n + 1),
    decreases n,
{
    if n > 0 {
        lemma_total_skip(es, (n - 1) as nat);
        assert(es.skip(1)[n - 1] == es[n as int]);
        assert(total(es, n + 1) == total(es, n) + weight(es[n as int]));
    } else {
        assert(total(es, 0) == 0);
        assert(total(es, 1) == total(es, 0) + weight(es[0]));
    }
}

/// The items of a list weigh less than the list.
pub proof fn lemma_inner_weight(e: ExprModel)
    requires
        e is List,
    ensures
        total_weight(list_items(e)->0) + 1 == weight(e),
{
    let items = e->List_0;
    lemma_items_weight(items, items.len());
}

/// A list whose head is a list weighs more than the list with that head
/// replaced by its items.
pub proof fn lemma_flatten_weight(items: Seq<ExprModel>)
    requires
        items.len() > 0,
        items[0] is List,
    ensures
        total_weight(list_items(items[0])->0 + items.skip(1)) + 1 == total_weight(items),
{
    let h = list_items(items[0])->0;
    let rest = items.skip(1);
    lemma_total_concat(h, rest, rest.len());
    lemma_total_skip(items, (items.len() - 1) as nat);
    lemma_inner_weight(items[0]);
}

/// One member of a list weighs no more than the list.
pub proof fn lemma_member_weight(items: Seq<ExprModel>, k: int)
    requires
        0 <= k < items.len(),
    ensures
        weight(items[k]) <= total_weight(items),
{
    lemma_total_bound(items, items.len(), k);
}

/// The names that the expressions from position `i` on stand for, after
/// `acc`; the failure with `message` at the first that stands for none.
pub open spec fn names_from(
    es: Seq<ExprModel>,
    i: int,
    acc: Seq<Seq<char>>,
    message: Seq<char>,
) -> Result<Seq<Seq<char>>, ErrorModel>
    decreases es.len() - i,
{
    if i < 0 || i >= es.len() {
        Ok(acc)
    } else {
        match name_of(es[i]) {
            Some(n) => names_from(es, i + 1, acc.push(n), message),
            None => Err(malformed(message)),
        }
    }
}

/// The statements that the expressions from position `i` on encode, after
/// `acc`. Each must be a list: the failure with `message` at the first that
/// is none, or the failure of the first list that encodes no statement.
pub open spec fn stmts_from(
    es: Seq<ExprModel>,
    i: int,
    acc: Seq<StmtModel>,
    message: Seq<char>,
) -> Result<Seq<StmtModel>, ErrorModel>
    decreases total_weight(es), 3 + es.len() - i,
{
    if i < 0 || i >= es.len() {
        Ok(acc)
    } else {
        match list_items(es[i]) {
            Some(inner) => {
                proof {
                    lemma_inner_weight(es[i]);
                    lemma_member_weight(es, i);
                }
                match stmt_of_list(inner) {
                    Ok(s) => stmts_from(es, i + 1, acc.push(s), message),
                    Err(e) => Err(e),
                }
            },
            None => Err(malformed(message)),
        }
    }
}

/// The statement that a list of expressions encodes.
///
/// The head names the directive; a variable stands for its name there. A
/// head that is itself a list is replaced by its items.
pub open spec fn stmt_of_list(items: Seq<ExprModel>) -> Result<StmtModel, ErrorModel>
    decreases total_weight(items), 2nat,
{
    if items.len() == 0 {
        Err(malformed("empty stmt list"@))
    } else {
        match items[0] {
            ExprModel::Var(name) => directive(name, items),
            ExprModel::Sym(name) => directive(name, items),
            ExprModel::List(h) => {
                proof {
                    lemma_flatten_weight(items);
                }
                stmt_of_list(item_values(h) + items.skip(1))
            },
            _ => Err(malformed("invalid stmt list"@)),
        }
    }
}

/// The statement that the directive `name` makes of `items`, whose head
/// named it.
pub open spec fn directive(name: Seq<char>, items: Seq<ExprModel>) -> Result<StmtModel, ErrorModel>
    recommends
        items.len() > 0,
    decreases total_weight(items), 1nat,
{
    if name == "let"@ {
        let_stmt(items)
    } else if name == "print"@ {
        print_stmt(items)
    } else if name == "print_template"@ {
        template_stmt(items)
    } else if name == "list_types"@ {
        Ok(StmtModel::ListTypes)
    } else if name == "list_type"@ {
        list_type_stmt(items)
    } else if name == "reg_operator"@ {
        reg_operator_stmt(items)
    } else if name == "return"@ {
        return_stmt(items)
    } else if name == "break"@ {
        if items.len() == 1 {
            Ok(StmtModel::Break(None))
        } else {
            Err(malformed("break expects no arguments"@))
        }
    } else if name == "break_to"@ {
        break_to_stmt(items)
    } else if name == "next"@ {
        if items.len() == 1 {
            Ok(StmtModel::Next)
        } else {
            Err(malformed("next expects no arguments"@))
        }
    } else if name == "if"@ {
        if_stmt(items)
    } else if name == "call"@ {
        call_stmt(items)
    } else if name == "let_func"@ {
        let_func_stmt(items)
    } else if name == "expr"@ {
        if items.len() != 2 {
            Err(malformed("expr expects 1 arg"@))
        } else {
            Ok(StmtModel::ExprStmt(items[1]))
        }
    } else if name == "block"@ {
        block_stmt(items)
    } else {
        Err(malformed("unknown directive"@))
    }
}

/// `let`, a name and an expression.
pub open spec fn let_stmt(items: Seq<ExprModel>) -> Result<StmtModel, ErrorModel> {
    if items.len() != 3 {
        Err(malformed("let expects name and expr"@))
    } else {
        match name_of(items[1]) {
            Some(x) => Ok(StmtModel::Let(x, items[2])),
            None => Err(malformed("let name must be string or ident"@)),
        }
    }
}

/// `print` and an expression.
pub open spec fn print_stmt(items: Seq<ExprModel>) -> Result<StmtModel, ErrorModel> {
    if items.len() != 2 {
        Err(malformed("print expects expr"@))
    } else {
        Ok(StmtModel::PrintExpr(items[1]))
    }
}

/// `print_template`, a template and at most one expression.
pub open spec fn template_stmt(items: Seq<ExprModel>) -> Result<StmtModel, ErrorModel> {
    if items.len() == 2 || items.len() == 3 {
        match name_of(items[1]) {
            Some(tpl) => Ok(
                StmtModel::PrintTemplate(
                    tpl,
                    if items.len() == 3 {
                        Some(items[2])
                    } else {
                        None
                    },
                ),
            ),
            None => Err(malformed("template must be string"@)),
        }
    } else {
        Err(malformed("print_template expects 1 or 2 args"@))
    }
}

/// `list_type` and the name of a type.
pub open spec fn list_type_stmt(items: Seq<ExprModel>) -> Result<StmtModel, ErrorModel> {
    if items.len() != 2 {
        Err(malformed("list_type expects name"@))
    } else {
        match name_of(items[1]) {
            Some(x) => Ok(StmtModel::ListType(x)),
            None => Err(malformed("type name must be string"@)),
        }
    }
}

/// `reg_operator`, an operator and the name of a function.
pub open spec fn reg_operator_stmt(items: Seq<ExprModel>) -> Result<StmtModel, ErrorModel> {
    if items.len() != 3 {
        Err(malformed("reg_operator expects op and function"@))
    } else {
        match name_of(items[1]) {
            Some(op) => match name_of(items[2]) {
                Some(f) => Ok(StmtModel::RegOp(op, f)),
                None => Err(malformed("function name must be string"@)),
            },
            None => Err(malformed("op must be string"@)),
        }
    }
}

/// `return` and at most one expression.
pub open spec fn return_stmt(items: Seq<ExprModel>) -> Result<StmtModel, ErrorModel> {
    if items.len() == 1 {
        Ok(StmtModel::Return(None))
    } else if items.len() == 2 {
        Ok(StmtModel::Return(Some(items[1])))
    } else {
        Err(malformed("return expects 0 or 1 arg"@))
    }
}

/// `break_to` and a label.
pub open spec fn break_to_stmt(items: Seq<ExprModel>) -> Result<StmtModel, ErrorModel> {
    if items.len() == 2 {
        match name_of(items[1]) {
            Some(label) => Ok(StmtModel::Break(Some(label))),
            None => Err(malformed("label must be string or ident"@)),
        }
    } else {
        Err(malformed("break_to expects 1 arg"@))
    }
}

/// `call`, a type, an operation and the arguments.
pub open spec fn call_stmt(items: Seq<ExprModel>) -> Result<StmtModel, ErrorModel> {
    if items.len() < 3 {
        Err(malformed("call expects type, op and args"@))
    } else {
        match name_of(items[1]) {
            Some(ty) => match name_of(items[2]) {
                Some(op) => Ok(StmtModel::Call(ty, op, items.skip(3))),
                None => Err(malformed("op must be string"@)),
            },
            None => Err(malformed("type must be string"@)),
        }
    }
}

/// `if`, a condition, a list-encoded statement and at most one more.
pub open spec fn if_stmt(items: Seq<ExprModel>) -> Result<StmtModel, ErrorModel>
    decreases total_weight(items), 0nat,
{
    let n = items.len();
    if n == 3 || n == 4 {
        match list_items(items[2]) {
            Some(inner) => {
                proof {
                    lemma_inner_weight(items[2]);
                    lemma_member_weight(items, 2);
                }
                match stmt_of_list(inner) {
                    Ok(then_stmt) => if n == 3 {
                        Ok(StmtModel::If(items[1], Box::new(then_stmt), None))
                    } else {
                        match list_items(items[3]) {
                            Some(other) => {
                                proof {
                                    lemma_inner_weight(items[3]);
                                    lemma_member_weight(items, 3);
                                }
                                match stmt_of_list(other) {
                                    Ok(else_stmt) => Ok(
                                        StmtModel::If(
                                            items[1],
                                            Box::new(then_stmt),
                                            Some(Box::new(else_stmt)),
                                        ),
                                    ),
                                    Err(e) => Err(e),
                                }
                            },
                            None => Err(malformed("if else must be a list-encoded stmt"@)),
                        }
                    },
                    Err(e) => Err(e),
                }
            },
            None => Err(malformed("if then must be a list-encoded stmt"@)),
        }
    } else {
        Err(malformed("if expects 2 or 3 args"@))
    }
}

/// `let_func`, a name, the list of parameters and the list of list-encoded
/// statements of the body.
pub open spec fn let_func_stmt(items: Seq<ExprModel>) -> Result<StmtModel, ErrorModel>
    decreases total_weight(items), 0nat,
{
    if items.len() != 4 {
        Err(malformed("let_func expects name, params, body"@))
    } else {
        match name_of(items[1]) {
            Some(f) => match list_items(items[2]) {
                Some(params) => match names_from(
                    params,
                    0,
                    Seq::empty(),
                    "param must be string or ident"@,
                ) {
                    Ok(ps) => match list_items(items[3]) {
                        Some(body) => {
                            proof {
                                lemma_inner_weight(items[3]);
                                lemma_member_weight(items, 3);
                            }
                            match stmts_from(body, 0, Seq::empty(), "body items must be list"@) {
                                Ok(stmts) => Ok(StmtModel::LetFunc(f, ps, stmts)),
                                Err(e) => Err(e),
                            }
                        },
                        None => Err(malformed("body must be list"@)),
                    },
                    Err(e) => Err(e),
                },
                None => Err(malformed("params must be list"@)),
            },
            None => Err(malformed("func name must be string"@)),
        }
    }
}

/// `block`, a keyword, the list of metadata and the list of list-encoded
/// statements of the body.
pub open spec fn block_stmt(items: Seq<ExprModel>) -> Result<StmtModel, ErrorModel>
    decreases total_weight(items), 0nat,
{
    if items.len() == 2 {
        Err(malformed("block header must be list"@))
    } else if items.len() == 4 {
        match name_of(items[1]) {
            Some(keyword) => match items[2] {
                ExprModel::List(meta) => match list_items(items[3]) {
                    Some(body) => {
                        proof {
                            lemma_inner_weight(items[3]);
                            lemma_member_weight(items, 3);
                        }
                        match stmts_from(body, 0, Seq::empty(), "block body items must be list"@) {
                            Ok(stmts) => Ok(StmtModel::Block(keyword, meta, stmts)),
                            Err(e) => Err(e),
                        }
                    },
                    None => Err(malformed("block body must be list"@)),
                },
                _ => Err(malformed("block meta must be list"@)),
            },
            None => Err(malformed("block name must be string"@)),
        }
    } else {
        Err(malformed("block expects header and body"@))
    }
}

/// The model of the outcome of reading a statement.
pub open spec fn stmt_result_view(r: Result<Stmt, Error>) -> Result<StmtModel, ErrorModel> {
    match r {
        Ok(s) => Ok(s.view()),
        Err(e) => Err(e.view()),
    }
}

fn malformed_error(message: &str) -> (r: Error)
    ensures
        r.view() == malformed(message@),
{
    Error { kind: ErrorKind::Structure, message: String::from_str(message) }
}

/// The name that an expression stands for where a name is expected.
pub fn expr_to_string(e: &Expr) -> (r: Option<String>)
    ensures
        match r {
            Some(s) => name_of(e.view()) == Some(s@),
            None => name_of(e.view()).is_none(),
        },
{
    match e {
        Expr::Str(s) => Some(s.clone()),
        Expr::Var(s) => Some(s.clone()),
        Expr::Sym(s) => Some(s.clone()),
        _ => None,
    }
}

/// The values of list items, without their keys.
pub fn values_of_items(items: &Vec<ListItem>) -> (r: Vec<Expr>)
    ensures
        exprs_view(r@) == item_values(items_view(items@)),
{
    let mut out: Vec<Expr> = Vec::new();
    let mut i: usize = 0;
    while i < items.len()
        invariant
            i <= items.len(),
            out.len() == i,
            forall|j: int| 0 <= j < i ==> (#[trigger] out[j]).view() == items[j].value.view(),
        decreases items.len() - i,
    {
        out.push(items[i].value.clone());
        i += 1;
    }
    assert(exprs_view(out@) =~= item_values(items_view(items@)));
    out
}

/// The values of the items of a list expression; nothing for another expression.
pub fn list_expr_items(e: &Expr) -> (r: Option<Vec<Expr>>)
    ensures
        match r {
            Some(v) => list_items(e.view()) == Some(exprs_view(v@)),
            None => list_items(e.view()).is_none(),
        },
{
    match e {
        Expr::List(items) => Some(values_of_items(items)),
        _ => None,
    }
}

/// Copies of the expressions from position `from` on, appended to `out`.
fn push_tail(out: &mut Vec<Expr>, src: &[Expr], from: usize)
    requires
        from <= src@.len(),
    ensures
        exprs_view(final(out)@) == exprs_view(old(out)@) + exprs_view(src@).skip(from as int),
{
    let mut i: usize = from;
    assert(exprs_view(out@) =~= exprs_view(old(out)@) + exprs_view(src@).subrange(
        from as int,
        i as int,
    ));
    while i < src.len()
        invariant
            from <= i <= src@.len(),
            exprs_view(out@) == exprs_view(old(out)@) + exprs_view(src@).subrange(
                from as int,
                i as int,
            ),
        decreases src@.len() - i,
    {
        let ghost before = exprs_view(out@);
        let e = src[i].clone();
        out.push(e);
        assert(exprs_view(out@) =~= before.push(e.view()));
        assert(exprs_view(out@) =~= exprs_view(old(out)@) + exprs_view(src@).subrange(
            from as int,
            i + 1,
        ));
        i += 1;
    }
    assert(exprs_view(src@).subrange(from as int, i as int) =~= exprs_view(src@).skip(from as int));
}

fn names_of_exprs(es: &Vec<Expr>, message: &str) -> (r: Result<Vec<String>, Error>)
    ensures
        match r {
            Ok(v) => names_from(exprs_view(es@), 0, Seq::empty(), message@) == Ok::<
                Seq<Seq<char>>,
                ErrorModel,
            >(strings_view(v@)),
            Err(e) => names_from(exprs_view(es@), 0, Seq::empty(), message@) == Err::<
                Seq<Seq<char>>,
                ErrorModel,
            >(e.view()),
        },
{
    let mut out: Vec<String> = Vec::new();
    let mut i: usize = 0;
    assert(strings_view(out@) =~= Seq::<Seq<char>>::empty());
    while i < es.len()
        invariant
            i <= es.len(),
            names_from(exprs_view(es@), 0, Seq::empty(), message@) == names_from(
                exprs_view(es@),
                i as int,
                strings_view(out@),
                message@,
            ),
        decreases es.len() - i,
    {
        let ghost before = strings_view(out@);
        match expr_to_string(&es[i]) {
            Some(s) => {
                out.push(s);
                assert(strings_view(out@) =~= before.push(s@));
            },
            None => {
                return Err(malformed_error(message));
            },
        }
        i += 1;
    }
    Ok(out)
}

fn stmts_of_exprs(es: &Vec<Expr>, message: &str) -> (r: Result<Vec<Stmt>, Error>)
    ensures
        match r {
            Ok(v) => stmts_from(exprs_view(es@), 0, Seq::empty(), message@) == Ok::<
                Seq<StmtModel>,
                ErrorModel,
            >(stmts_view(v@)),
            Err(e) => stmts_from(exprs_view(es@), 0, Seq::empty(), message@) == Err::<
                Seq<StmtModel>,
                ErrorModel,
            >(e.view()),
        },
    decreases total_weight(exprs_view(es@)), 4 + es.len(),
{
    let mut out: Vec<Stmt> = Vec::new();
    let mut i: usize = 0;
    assert(stmts_view(out@) =~= Seq::<StmtModel>::empty());
    while i < es.len()
        invariant
            i <= es.len(),
            stmts_from(exprs_view(es@), 0, Seq::empty(), message@) == stmts_from(
                exprs_view(es@),
                i as int,
                stmts_view(out@),
                message@,
            ),
        decreases es.len() - i,
    {
        let ghost before = stmts_view(out@);
        match list_expr_items(&es[i]) {
            Some(inner) => {
                proof {
                    lemma_inner_weight(exprs_view(es@)[i as int]);
                    lemma_member_weight(exprs_view(es@), i as int);
                }
                match list_to_stmt(inner.as_slice()) {
                    Ok(s) => {
                        out.push(s);
                        assert(stmts_view(out@) =~= before.push(s.view()));
                    },
                    Err(e) => {
                        return Err(e);
                    },
                }
            },
            None => {
                return Err(malformed_error(message));
            },
        }
        i += 1;
    }
    Ok(out)
}

/// Reads a list of expressions as a statement.
pub fn list_to_stmt(items: &[Expr]) -> (r: Result<Stmt, Error>)
    ensures
        stmt_result_view(r) == stmt_of_list(exprs_view(items@)),
    decreases total_weight(exprs_view(items@)), 2nat,
{
    if items.len() == 0 {
        return Err(malformed_error("empty stmt list"));
    }
    match &items[0] {
        Expr::Var(name) => read_directive(name.as_str(), items),
        Expr::Sym(name) => read_directive(name.as_str(), items),
        Expr::List(h) => {
            let mut flat = values_of_items(h);
            push_tail(&mut flat, items, 1);
            proof {
                lemma_flatten_weight(exprs_view(items@));
            }
            list_to_stmt(flat.as_slice())
        },
        _ => Err(malformed_error("invalid stmt list")),
    }
}

fn read_directive(name: &str, items: &[Expr]) -> (r: Result<Stmt, Error>)
    requires
        items@.len() > 0,
    ensures
        stmt_result_view(r) == directive(name@, exprs_view(items@)),
    decreases total_weight(exprs_view(items@)), 1nat,
{
    let n = items.len();
    if str_eq(name, "let") {
        read_let(items)
    } else if str_eq(name, "print") {
        if n != 2 {
            return Err(malformed_error("print expects expr"));
        }
        Ok(Stmt::PrintExpr(items[1].clone()))
    } else if str_eq(name, "print_template") {
        read_template(items)
    } else if str_eq(name, "list_types") {
        Ok(Stmt::ListTypes)
    } else if str_eq(name, "list_type") {
        if n != 2 {
            return Err(malformed_error("list_type expects name"));
        }
        match expr_to_string(&items[1]) {
            Some(x) => Ok(Stmt::ListType(x)),
            None => Err(malformed_error("type name must be string")),
        }
    } else if str_eq(name, "reg_operator") {
        read_reg_operator(items)
    } else if str_eq(name, "return") {
        read_return(items)
    } else if str_eq(name, "break") {
        if n == 1 {
            Ok(Stmt::Break(None))
        } else {
            Err(malformed_error("break expects no arguments"))
        }
    } else if str_eq(name, "break_to") {
        if n == 2 {
            match expr_to_string(&items[1]) {
                Some(label) => Ok(Stmt::Break(Some(label))),
                None => Err(malformed_error("label must be string or ident")),
            }
        } else {
            Err(malformed_error("break_to expects 1 arg"))
        }
    } else if str_eq(name, "next") {
        if n == 1 {
            Ok(Stmt::Next)
        } else {
            Err(malformed_error("next expects no arguments"))
        }
    } else if str_eq(name, "if") {
        read_if(items)
    } else if str_eq(name, "call") {
        read_call(items)
    } else if str_eq(name, "let_func") {
        read_let_func(items)
    } else if str_eq(name, "expr") {
        if n != 2 {
            return Err(malformed_error("expr expects 1 arg"));
        }
        Ok(Stmt::ExprStmt(items[1].clone()))
    } else if str_eq(name, "block") {
        read_block(items)
    } else {
        Err(malformed_error("unknown directive"))
    }
}

fn read_let(items: &[Expr]) -> (r: Result<Stmt, Error>)
    ensures
        stmt_result_view(r) == let_stmt(exprs_view(items@)),
{
    if items.len() != 3 {
        return Err(malformed_error("let expects name and expr"));
    }
    match expr_to_string(&items[1]) {
        Some(x) => Ok(Stmt::Let(x, items[2].clone())),
        None => Err(malformed_error("let name must be string or ident")),
    }
}

fn read_template(items: &[Expr]) -> (r: Result<Stmt, Error>)
    ensures
        stmt_result_view(r) == template_stmt(exprs_view(items@)),
{
    let n = items.len();
    if n == 2 || n == 3 {
        match expr_to_string(&items[1]) {
            Some(tpl) => {
                if n == 3 {
                    Ok(Stmt::PrintTemplate(tpl, Some(items[2].clone())))
                } else {
                    Ok(Stmt::PrintTemplate(tpl, None))
                }
            },
            None => Err(malformed_error("template must be string")),
        }
    } else {
        Err(malformed_error("print_template expects 1 or 2 args"))
    }
}

fn read_reg_operator(items: &[Expr]) -> (r: Result<Stmt, Error>)
    ensures
        stmt_result_view(r) == reg_operator_stmt(exprs_view(items@)),
{
    if items.len() != 3 {
        return Err(malformed_error("reg_operator expects op and function"));
    }
    match expr_to_string(&items[1]) {
        Some(op) => match expr_to_string(&items[2]) {
            Some(f) => Ok(Stmt::RegOp(op, f)),
            None => Err(malformed_error("function name must be string")),
        },
        None => Err(malformed_error("op must be string")),
    }
}

fn read_return(items: &[Expr]) -> (r: Result<Stmt, Error>)
    ensures
        stmt_result_view(r) == return_stmt(exprs_view(items@)),
{
    let n = items.len();
    if n == 1 {
        Ok(Stmt::Return(None))
    } else if n == 2 {
        Ok(Stmt::Return(Some(items[1].clone())))
    } else {
        Err(malformed_error("return expects 0 or 1 arg"))
    }
}

fn read_call(items: &[Expr]) -> (r: Result<Stmt, Error>)
    ensures
        stmt_result_view(r) == call_stmt(exprs_view(items@)),
{
    if items.len() < 3 {
        return Err(malformed_error("call expects type, op and args"));
    }
    match expr_to_string(&items[1]) {
        Some(ty) => match expr_to_string(&items[2]) {
            Some(op) => {
                let mut args: Vec<Expr> = Vec::new();
                assert(exprs_view(args@) =~= Seq::<ExprModel>::empty());
                push_tail(&mut args, items, 3);
                assert(exprs_view(args@) =~= exprs_view(items@).skip(3));
                Ok(Stmt::Call(ty, op, args))
            },
            None => Err(malformed_error("op must be string")),
        },
        None => Err(malformed_error("type must be string")),
    }
}

fn read_if(items: &[Expr]) -> (r: Result<Stmt, Error>)
    ensures
        stmt_result_view(r) == if_stmt(exprs_view(items@)),
    decreases total_weight(exprs_view(items@)), 0nat,
{
    let n = items.len();
    let ghost ms = exprs_view(items@);
    if n == 3 || n == 4 {
        let inner = match list_expr_items(&items[2]) {
            Some(inner) => inner,
            None => {
                return Err(malformed_error("if then must be a list-encoded stmt"));
            },
        };
        proof {
            lemma_inner_weight(ms[2]);
            lemma_member_weight(ms, 2);
        }
        let then_stmt = match list_to_stmt(inner.as_slice()) {
            Ok(s) => s,
            Err(e) => {
                return Err(e);
            },
        };
        if n == 3 {
            return Ok(Stmt::If(items[1].clone(), Box::new(then_stmt), None));
        }
        let other = match list_expr_items(&items[3]) {
            Some(other) => other,
            None => {
                return Err(malformed_error("if else must be a list-encoded stmt"));
            },
        };
        proof {
            lemma_inner_weight(ms[3]);
            lemma_member_weight(ms, 3);
        }
        match list_to_stmt(other.as_slice()) {
            Ok(else_stmt) => Ok(
                Stmt::If(items[1].clone(), Box::new(then_stmt), Some(Box::new(else_stmt))),
            ),
            Err(e) => Err(e),
        }
    } else {
        Err(malformed_error("if expects 2 or 3 args"))
    }
}

fn read_let_func(items: &[Expr]) -> (r: Result<Stmt, Error>)
    ensures
        stmt_result_view(r) == let_func_stmt(exprs_view(items@)),
    decreases total_weight(exprs_view(items@)), 0nat,
{
    let ghost ms = exprs_view(items@);
    if items.len() != 4 {
        return Err(malformed_error("let_func expects name, params, body"));
    }
    let f = match expr_to_string(&items[1]) {
        Some(f) => f,
        None => {
            return Err(malformed_error("func name must be string"));
        },
    };
    let params = match list_expr_items(&items[2]) {
        Some(params) => params,
        None => {
            return Err(malformed_error("params must be list"));
        },
    };
    let ps = match names_of_exprs(&params, "param must be string or ident") {
        Ok(ps) => ps,
        Err(e) => {
            return Err(e);
        },
    };
    let body = match list_expr_items(&items[3]) {
        Some(body) => body,
        None => {
            return Err(malformed_error("body must be list"));
        },
    };
    proof {
        lemma_inner_weight(ms[3]);
        lemma_member_weight(ms, 3);
    }
    match stmts_of_exprs(&body, "body items must be list") {
        Ok(stmts) => Ok(Stmt::LetFunc(f, ps, stmts)),
        Err(e) => Err(e),
    }
}

fn read_block(items: &[Expr]) -> (r: Result<Stmt, Error>)
    ensures
        stmt_result_view(r) == block_stmt(exprs_view(items@)),
    decreases total_weight(exprs_view(items@)), 0nat,
{
    let ghost ms = exprs_view(items@);
    let n = items.len();
    if n == 2 {
        Err(malformed_error("block header must be list"))
    } else if n == 4 {
        let keyword = match expr_to_string(&items[1]) {
            Some(k) => k,
            None => {
                return Err(malformed_error("block name must be string"));
            },
        };
        let meta = match &items[2] {
            Expr::List(v) => clone_items(v),
            _ => {
                return Err(malformed_error("block meta must be list"));
            },
        };
        let body = match list_expr_items(&items[3]) {
            Some(body) => body,
            None => {
                return Err(malformed_error("block body must be list"));
            },
        };
        proof {
            lemma_inner_weight(ms[3]);
            lemma_member_weight(ms, 3);
        }
        match stmts_of_exprs(&body, "block body items must be list") {
            Ok(stmts) => Ok(Stmt::Block(keyword, meta, stmts)),
            Err(e) => Err(e),
        }
    } else {
        Err(malformed_error("block expects header and body"))
    }
}

/// The list item without a key that holds `e`.
pub open spec fn plain(e: ExprModel) -> ItemModel {
    ItemModel { key: None, value: e }
}

/// The expressions as list items without keys.
pub open spec fn plain_items(es: Seq<ExprModel>) -> Seq<ItemModel> {
    Seq::new(es.len(), |i: int| plain(es[i]))
}

/// The names as string items without keys.
pub open spec fn name_items(names: Seq<Seq<char>>) -> Seq<ItemModel> {
    Seq::new(names.len(), |i: int| plain(ExprModel::Str(names[i])))
}

/// The statements as list items without keys, each statement written as a list.
pub open spec fn stmt_items(body: Seq<StmtModel>) -> Seq<ItemModel>
    decreases body,
{
    Seq::new(
        body.len(),
        |i: int|
            if 0 <= i < body.len() {
                plain(list_of_stmt(body[i]))
            } else {
                arbitrary()
            },
    )
}

/// The list with the directive `name` at its head and `rest` behind it.
pub open spec fn directive_list(name: Seq<char>, rest: Seq<ItemModel>) -> ExprModel {
    ExprModel::List(seq![plain(ExprModel::Sym(name))] + rest)
}

/// The list expression that encodes a statement.
pub open spec fn list_of_stmt(s: StmtModel) -> ExprModel
    decreases s,
{
    match s {
        StmtModel::Let(name, e) => directive_list(
            "let"@,
            seq![plain(ExprModel::Str(name)), plain(e)],
        ),
        StmtModel::PrintTemplate(tpl, arg) => directive_list(
            "print_template"@,
            match arg {
                Some(e) => seq![plain(ExprModel::Str(tpl)), plain(e)],
                None => seq![plain(ExprModel::Str(tpl))],
            },
        ),
        StmtModel::PrintExpr(e) => directive_list("print"@, seq![plain(e)]),
        StmtModel::ListTypes => directive_list("list_types"@, Seq::empty()),
        StmtModel::ListType(name) => directive_list(
            "list_type"@,
            seq![plain(ExprModel::Str(name))],
        ),
        StmtModel::RegOp(op, f) => directive_list(
            "reg_operator"@,
            seq![plain(ExprModel::Str(op)), plain(ExprModel::Str(f))],
        ),
        StmtModel::LetFunc(name, params, body) => directive_list(
            "let_func"@,
            seq![
                plain(ExprModel::Str(name)),
                plain(ExprModel::List(name_items(params))),
                plain(ExprModel::List(stmt_items(body))),
            ],
        ),
        StmtModel::Return(arg) => directive_list(
            "return"@,
            match arg {
                Some(e) => seq![plain(e)],
                None => Seq::empty(),
            },
        ),
        StmtModel::Break(None) => directive_list("break"@, Seq::empty()),
        StmtModel::Break(Some(label)) => directive_list(
            "break_to"@,
            seq![plain(ExprModel::Str(label))],
        ),
        StmtModel::Next => directive_list("next"@, Seq::empty()),
        StmtModel::If(c, t, e) => directive_list(
            "if"@,
            match e {
                Some(other) => seq![plain(c), plain(list_of_stmt(*t)), plain(list_of_stmt(*other))],
                None => seq![plain(c), plain(list_of_stmt(*t))],
            },
        ),
        StmtModel::Call(ty, op, args) => directive_list(
            "call"@,
            seq![plain(ExprModel::Str(ty)), plain(ExprModel::Str(op))] + plain_items(args),
        ),
        StmtModel::RunList(items) => ExprModel::List(plain_items(items)),
        StmtModel::ExprStmt(e) => directive_list("expr"@, seq![plain(e)]),
        StmtModel::Block(name, meta, body) => ExprModel::List(
            seq![
                plain(
                    directive_list(
                        "block"@,
                        seq![plain(ExprModel::Str(name)), plain(ExprModel::List(meta))],
                    ),
                ),
                plain(ExprModel::List(stmt_items(body))),
            ],
        ),
    }
}

fn plain_item(e: Expr) -> (r: ListItem)
    ensures
        r.view() == plain(e.view()),
{
    ListItem { key: None, value: e }
}

fn str_item(s: &String) -> (r: ListItem)
    ensures
        r.view() == plain(ExprModel::Str(s@)),
{
    ListItem { key: None, value: Expr::Str(s.clone()) }
}

/// The vector that starts a directive's list: the directive's name.
fn start_list(name: &str) -> (r: Vec<ListItem>)
    ensures
        items_view(r@) == seq![plain(ExprModel::Sym(name@))],
{
    let mut v: Vec<ListItem> = Vec::new();
    v.push(ListItem { key: None, value: Expr::Sym(String::from_str(name)) });
    assert(items_view(v@) =~= seq![plain(ExprModel::Sym(name@))]);
    v
}

fn push_item(v: &mut Vec<ListItem>, item: ListItem)
    ensures
        items_view(final(v)@) == items_view(old(v)@).push(item.view()),
{
    v.push(item);
    assert(items_view(v@) =~= items_view(old(v)@).push(item.view()));
}

fn directive0(name: &str) -> (r: Expr)
    ensures
        r.view() == directive_list(name@, Seq::empty()),
{
    let v = start_list(name);
    assert(items_view(v@) =~= seq![plain(ExprModel::Sym(name@))] + Seq::<ItemModel>::empty());
    Expr::List(v)
}

fn directive1(name: &str, a: ListItem) -> (r: Expr)
    ensures
        r.view() == directive_list(name@, seq![a.view()]),
{
    let mut v = start_list(name);
    push_item(&mut v, a);
    assert(items_view(v@) =~= seq![plain(ExprModel::Sym(name@))] + seq![a.view()]);
    Expr::List(v)
}

fn directive2(name: &str, a: ListItem, b: ListItem) -> (r: Expr)
    ensures
        r.view() == directive_list(name@, seq![a.view(), b.view()]),
{
    let mut v = start_list(name);
    push_item(&mut v, a);
    push_item(&mut v, b);
    assert(items_view(v@) =~= seq![plain(ExprModel::Sym(name@))] + seq![a.view(), b.view()]);
    Expr::List(v)
}

fn directive3(name: &str, a: ListItem, b: ListItem, c: ListItem) -> (r: Expr)
    ensures
        r.view() == directive_list(name@, seq![a.view(), b.view(), c.view()]),
{
    let mut v = start_list(name);
    push_item(&mut v, a);
    push_item(&mut v, b);
    push_item(&mut v, c);
    assert(items_view(v@) =~= seq![plain(ExprModel::Sym(name@))] + seq![
        a.view(),
        b.view(),
        c.view(),
    ]);
    Expr::List(v)
}

fn pair_list(a: Expr, b: Expr) -> (r: Expr)
    ensures
        r.view() == ExprModel::List(seq![plain(a.view()), plain(b.view())]),
{
    let mut v: Vec<ListItem> = Vec::new();
    v.push(plain_item(a));
    v.push(plain_item(b));
    assert(items_view(v@) =~= seq![plain(a.view()), plain(b.view())]);
    Expr::List(v)
}

fn name_list(params: &Vec<String>) -> (r: Expr)
    ensures
        r.view() == ExprModel::List(name_items(strings_view(params@))),
{
    let mut ps: Vec<ListItem> = Vec::new();
    let mut i: usize = 0;
    while i < params.len()
        invariant
            i <= params.len(),
            ps.len() == i,
            forall|j: int|
                0 <= j < i ==> (#[trigger] ps[j]).view() == plain(ExprModel::Str(params[j]@)),
        decreases params.len() - i,
    {
        ps.push(str_item(&params[i]));
        i += 1;
    }
    assert(items_view(ps@) =~= name_items(strings_view(params@)));
    Expr::List(ps)
}

fn plain_list(items: &Vec<Expr>) -> (r: Expr)
    ensures
        r.view() == ExprModel::List(plain_items(exprs_view(items@))),
{
    let mut v: Vec<ListItem> = Vec::new();
    let mut i: usize = 0;
    while i < items.len()
        invariant
            i <= items.len(),
            v.len() == i,
            forall|j: int| 0 <= j < i ==> (#[trigger] v[j]).view() == plain(items[j].view()),
        decreases items.len() - i,
    {
        v.push(plain_item(items[i].clone()));
        i += 1;
    }
    assert(items_view(v@) =~= plain_items(exprs_view(items@)));
    Expr::List(v)
}

fn call_list(ty: &String, op: &String, args: &Vec<Expr>) -> (r: Expr)
    ensures
        r.view() == directive_list(
            "call"@,
            seq![plain(ExprModel::Str(ty@)), plain(ExprModel::Str(op@))] + plain_items(
                exprs_view(args@),
            ),
        ),
{
    let mut v = start_list("call");
    push_item(&mut v, str_item(ty));
    push_item(&mut v, str_item(op));
    let mut i: usize = 0;
    while i < args.len()
        invariant
            i <= args.len(),
            items_view(v@) =~= seq![
                plain(ExprModel::Sym("call"@)),
                plain(ExprModel::Str(ty@)),
                plain(ExprModel::Str(op@)),
            ] + plain_items(exprs_view(args@)).take(i as int),
        decreases args.len() - i,
    {
        push_item(&mut v, plain_item(args[i].clone()));
        i += 1;
    }
    assert(plain_items(exprs_view(args@)).take(i as int) =~= plain_items(exprs_view(args@)));
    assert(items_view(v@) =~= seq![plain(ExprModel::Sym("call"@))] + (seq![
        plain(ExprModel::Str(ty@)),
        plain(ExprModel::Str(op@)),
    ] + plain_items(exprs_view(args@))));
    Expr::List(v)
}

fn stmts_as_list(body: &Vec<Stmt>) -> (r: Expr)
    ensures
        r.view() == ExprModel::List(stmt_items(stmts_view(body@))),
    decreases body,
{
    let mut out: Vec<ListItem> = Vec::new();
    let mut i: usize = 0;
    while i < body.len()
        invariant
            i <= body.len(),
            out.len() == i,
            forall|j: int|
                0 <= j < i ==> (#[trigger] out[j]).view() == plain(list_of_stmt(body[j].view())),
        decreases body.len() - i,
    {
        out.push(plain_item(stmt_to_list_expr(&body[i])));
        i += 1;
    }
    assert(items_view(out@) =~= stmt_items(stmts_view(body@)));
    Expr::List(out)
}

/// Writes a statement as a list expression.
pub fn stmt_to_list_expr(stmt: &Stmt) -> (r: Expr)
    ensures
        r.view() == list_of_stmt(stmt.view()),
    decreases stmt,
{
    match stmt {
        Stmt::Let(name, e) => directive2("let", str_item(name), plain_item(e.clone())),
        Stmt::PrintTemplate(tpl, arg) => match arg {
            Some(e) => directive2("print_template", str_item(tpl), plain_item(e.clone())),
            None => directive1("print_template", str_item(tpl)),
        },
        Stmt::PrintExpr(e) => directive1("print", plain_item(e.clone())),
        Stmt::ListTypes => directive0("list_types"),
        Stmt::ListType(name) => directive1("list_type", str_item(name)),
        Stmt::RegOp(op, f) => directive2("reg_operator", str_item(op), str_item(f)),
        Stmt::LetFunc(name, params, body) => directive3(
            "let_func",
            str_item(name),
            plain_item(name_list(params)),
            plain_item(stmts_as_list(body)),
        ),
        Stmt::Return(arg) => match arg {
            Some(e) => directive1("return", plain_item(e.clone())),
            None => directive0("return"),
        },
        Stmt::Break(None) => directive0("break"),
        Stmt::Break(Some(label)) => directive1("break_to", str_item(label)),
        Stmt::Next => directive0("next"),
        Stmt::If(c, t, e) => match e {
            Some(other) => directive3(
                "if",
                plain_item(c.clone()),
                plain_item(stmt_to_list_expr(t)),
                plain_item(stmt_to_list_expr(other)),
            ),
            None => directive2("if", plain_item(c.clone()), plain_item(stmt_to_list_expr(t))),
        },
        Stmt::Call(ty, op, args) => call_list(ty, op, args),
        Stmt::RunList(items) => plain_list(items),
        Stmt::ExprStmt(e) => directive1("expr", plain_item(e.clone())),
        Stmt::Block(name, meta, body) => {
            let header = directive2(
                "block",
                str_item(name),
                plain_item(Expr::List(clone_items(meta))),
            );
            pair_list(header, stmts_as_list(body))
        },
    }
}

} // verus!
