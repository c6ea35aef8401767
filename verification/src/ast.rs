//! The syntax tree of the scripting language: statements, expressions and the
//! items of keyed lists, each with the mathematical model that the contracts
//! of the interpreter speak of.

use vstd::prelude::*;

verus! {

/// A statement.
#[derive(Debug, PartialEq)]
pub enum Stmt {
    Let(String, Expr),
    PrintTemplate(String, Option<Expr>),
    PrintExpr(Expr),
    ListTypes,
    ListType(String),
    RegOp(String, String),
    LetFunc(String, Vec<String>, Vec<Stmt>),
    Return(Option<Expr>),
    Call(String, String, Vec<Expr>),
    RunList(Vec<Expr>),
    ExprStmt(Expr),
    Block(String, Vec<ListItem>, Vec<Stmt>),
    Break(Option<String>),
    Next,
    If(Expr, Box<Stmt>, Option<Box<Stmt>>),
}

/// One item of a list expression, with its key if it has one.
#[derive(Debug, PartialEq)]
pub struct ListItem {
    pub key: Option<String>,
    pub value: Expr,
}

/// An expression.
#[derive(Debug, PartialEq)]
pub enum Expr {
    Int(i64),
    Str(String),
    Var(String),
    Sym(String),
    List(Vec<ListItem>),
    Block(Vec<Stmt>),
    BlockNoValue(Vec<Stmt>),
    SList(Vec<Expr>),
    Call(String, Vec<Expr>),
    Add(Box<Expr>, Box<Expr>),
    Sub(Box<Expr>, Box<Expr>),
    Mul(Box<Expr>, Box<Expr>),
    Div(Box<Expr>, Box<Expr>),
    Mod(Box<Expr>, Box<Expr>),
    Pow(Box<Expr>, Box<Expr>),
    Gt(Box<Expr>, Box<Expr>),
    Lt(Box<Expr>, Box<Expr>),
    If(Box<Expr>, Box<Expr>, Option<Box<Expr>>),
    Custom(Box<Expr>, String, Box<Expr>),
    MapWith(Box<Expr>, String),
    Group(Box<Expr>),
    Index(Box<Expr>, Box<Expr>),
    /// An operation (second) called on a receiver (first) with arguments.
    Method(Box<Expr>, String, Vec<Expr>),
}

/// The binary operators on integers.
#[derive(Debug, Clone, Copy, PartialEq, Eq)]
pub enum BinOp {
    Add,
    Sub,
    Mul,
    Div,
    Mod,
    Pow,
    Gt,
    Lt,
}

/// The model of a statement: strings are sequences of characters, vectors
/// are sequences.
pub enum StmtModel {
    Let(Seq<char>, ExprModel),
    PrintTemplate(Seq<char>, Option<ExprModel>),
    PrintExpr(ExprModel),
    ListTypes,
    ListType(Seq<char>),
    RegOp(Seq<char>, Seq<char>),
    LetFunc(Seq<char>, Seq<Seq<char>>, Seq<StmtModel>),
    Return(Option<ExprModel>),
    Call(Seq<char>, Seq<char>, Seq<ExprModel>),
    RunList(Seq<ExprModel>),
    ExprStmt(ExprModel),
    Block(Seq<char>, Seq<ItemModel>, Seq<StmtModel>),
    Break(Option<Seq<char>>),
    Next,
    If(ExprModel, Box<StmtModel>, Option<Box<StmtModel>>),
}

/// The model of a list item.
pub struct ItemModel {
    pub key: Option<Seq<char>>,
    pub value: ExprModel,
}

/// The model of an expression. The eight integer operators share one
/// variant.
pub enum ExprModel {
    Int(i64),
    Str(Seq<char>),
    Var(Seq<char>),
    Sym(Seq<char>),
    List(Seq<ItemModel>),
    Block(Seq<StmtModel>),
    BlockNoValue(Seq<StmtModel>),
    SList(Seq<ExprModel>),
    Call(Seq<char>, Seq<ExprModel>),
    Binary(BinOp, Box<ExprModel>, Box<ExprModel>),
    If(Box<ExprModel>, Box<ExprModel>, Option<Box<ExprModel>>),
    Custom(Box<ExprModel>, Seq<char>, Box<ExprModel>),
    MapWith(Box<ExprModel>, Seq<char>),
    Group(Box<ExprModel>),
    Index(Box<ExprModel>, Box<ExprModel>),
    Method(Box<ExprModel>, Seq<char>, Seq<ExprModel>),
}

/// The model of an optional string.
pub open spec fn opt_string_view(s: Option<String>) -> Option<Seq<char>> {
    match s {
        Some(t) => Some(t@),
        None => None,
    }
}

/// The model of a sequence of strings.
pub open spec fn strings_view(s: Seq<String>) -> Seq<Seq<char>> {
    Seq::new(s.len(), |i: int| s[i]@)
}

/// The model of a sequence of expressions, item by item.
pub open spec fn exprs_view(s: Seq<Expr>) -> Seq<ExprModel>
    decreases s,
{
    Seq::new(
        s.len(),
        |i: int|
            if 0 <= i < s.len() {
                s[i].view()
            } else {
                arbitrary()
            },
    )
}

/// The model of a sequence of list items, item by item.
pub open spec fn items_view(s: Seq<ListItem>) -> Seq<ItemModel>
    decreases s,
{
    Seq::new(
        s.len(),
        |i: int|
            if 0 <= i < s.len() {
                s[i].view()
            } else {
                arbitrary()
            },
    )
}

/// The model of a sequence of statements, item by item.
pub open spec fn stmts_view(s: Seq<Stmt>) -> Seq<StmtModel>
    decreases s,
{
    Seq::new(
        s.len(),
        |i: int|
            if 0 <= i < s.len() {
                s[i].view()
            } else {
                arbitrary()
            },
    )
}

/// The model of an optional expression.
pub open spec fn opt_expr_view(e: Option<Expr>) -> Option<ExprModel>
    decreases e,
{
    match e {
        Some(x) => Some(x.view()),
        None => None,
    }
}

impl ListItem {
    pub open spec fn view(&self) -> ItemModel
        decreases self,
    {
        ItemModel { key: opt_string_view(self.key), value: self.value.view() }
    }
}

impl Expr {
    pub open spec fn view(&self) -> ExprModel
        decreases self,
    {
        match self {
            Expr::Int(i) => ExprModel::Int(*i),
            Expr::Str(s) => ExprModel::Str(s@),
            Expr::Var(s) => ExprModel::Var(s@),
            Expr::Sym(s) => ExprModel::Sym(s@),
            Expr::List(items) => ExprModel::List(items_view(items@)),
            Expr::Block(stmts) => ExprModel::Block(stmts_view(stmts@)),
            Expr::BlockNoValue(stmts) => ExprModel::BlockNoValue(stmts_view(stmts@)),
            Expr::SList(items) => ExprModel::SList(exprs_view(items@)),
            Expr::Call(name, args) => ExprModel::Call(name@, exprs_view(args@)),
            Expr::Add(a, b) => ExprModel::Binary(
                BinOp::Add,
                Box::new(a.view()),
                Box::new(b.view()),
            ),
            Expr::Sub(a, b) => ExprModel::Binary(
                BinOp::Sub,
                Box::new(a.view()),
                Box::new(b.view()),
            ),
            Expr::Mul(a, b) => ExprModel::Binary(
                BinOp::Mul,
                Box::new(a.view()),
                Box::new(b.view()),
            ),
            Expr::Div(a, b) => ExprModel::Binary(
                BinOp::Div,
                Box::new(a.view()),
                Box::new(b.view()),
            ),
            Expr::Mod(a, b) => ExprModel::Binary(
                BinOp::Mod,
                Box::new(a.view()),
                Box::new(b.view()),
            ),
            Expr::Pow(a, b) => ExprModel::Binary(
                BinOp::Pow,
                Box::new(a.view()),
                Box::new(b.view()),
            ),
            Expr::Gt(a, b) => ExprModel::Binary(BinOp::Gt, Box::new(a.view()), Box::new(b.view())),
            Expr::Lt(a, b) => ExprModel::Binary(BinOp::Lt, Box::new(a.view()), Box::new(b.view())),
            Expr::If(c, t, e) => ExprModel::If(
                Box::new(c.view()),
                Box::new(t.view()),
                match e {
                    Some(x) => Some(Box::new(x.view())),
                    None => None,
                },
            ),
            Expr::Custom(a, op, b) => ExprModel::Custom(
                Box::new(a.view()),
                op@,
                Box::new(b.view()),
            ),
            Expr::MapWith(list, name) => ExprModel::MapWith(Box::new(list.view()), name@),
            Expr::Group(e) => ExprModel::Group(Box::new(e.view())),
            Expr::Index(list, index) => ExprModel::Index(
                Box::new(list.view()),
                Box::new(index.view()),
            ),
            Expr::Method(receiver, op, args) => ExprModel::Method(
                Box::new(receiver.view()),
                op@,
                exprs_view(args@),
            ),
        }
    }
}

impl Stmt {
    pub open spec fn view(&self) -> StmtModel
        decreases self,
    {
        match self {
            Stmt::Let(name, e) => StmtModel::Let(name@, e.view()),
            Stmt::PrintTemplate(tpl, arg) => StmtModel::PrintTemplate(
                tpl@,
                match arg {
                    Some(x) => Some(x.view()),
                    None => None,
                },
            ),
            Stmt::PrintExpr(e) => StmtModel::PrintExpr(e.view()),
            Stmt::ListTypes => StmtModel::ListTypes,
            Stmt::ListType(name) => StmtModel::ListType(name@),
            Stmt::RegOp(op, name) => StmtModel::RegOp(op@, name@),
            Stmt::LetFunc(name, params, body) => StmtModel::LetFunc(
                name@,
                strings_view(params@),
                stmts_view(body@),
            ),
            Stmt::Return(e) => StmtModel::Return(
                match e {
                    Some(x) => Some(x.view()),
                    None => None,
                },
            ),
            Stmt::Call(ty, op, args) => StmtModel::Call(ty@, op@, exprs_view(args@)),
            Stmt::RunList(items) => StmtModel::RunList(exprs_view(items@)),
            Stmt::ExprStmt(e) => StmtModel::ExprStmt(e.view()),
            Stmt::Block(name, meta, body) => StmtModel::Block(
                name@,
                items_view(meta@),
                stmts_view(body@),
            ),
            Stmt::Break(label) => StmtModel::Break(opt_string_view(*label)),
            Stmt::Next => StmtModel::Next,
            Stmt::If(c, t, e) => StmtModel::If(
                c.view(),
                Box::new(t.view()),
                match e {
                    Some(x) => Some(Box::new(x.view())),
                    None => None,
                },
            ),
        }
    }
}

/// A copy of a vector of strings.
pub fn clone_strings(v: &Vec<String>) -> (r: Vec<String>)
    ensures
        r@ == v@,
{
    let mut out: Vec<String> = Vec::new();
    let mut i: usize = 0;
    while i < v.len()
        invariant
            i <= v.len(),
            out@ =~= v@.take(i as int),
        decreases v.len() - i,
    {
        out.push(v[i].clone());
        i += 1;
    }
    assert(v@.take(v.len() as int) =~= v@);
    out
}

/// A copy of an optional string.
pub fn clone_opt_string(s: &Option<String>) -> (r: Option<String>)
    ensures
        r == *s,
{
    match s {
        Some(t) => Some(t.clone()),
        None => None,
    }
}

/// A copy of a vector of expressions, with the same model.
pub fn clone_exprs(v: &Vec<Expr>) -> (r: Vec<Expr>)
    ensures
        exprs_view(r@) == exprs_view(v@),
    decreases v,
{
    let mut out: Vec<Expr> = Vec::new();
    let mut i: usize = 0;
    while i < v.len()
        invariant
            i <= v.len(),
            out.len() == i,
            forall|j: int| 0 <= j < i ==> (#[trigger] out[j]).view() == v[j].view(),
        decreases v.len() - i,
    {
        out.push(v[i].clone());
        i += 1;
    }
    assert(exprs_view(out@) =~= exprs_view(v@));
    out
}

/// A copy of a vector of list items, with the same model.
pub fn clone_items(v: &Vec<ListItem>) -> (r: Vec<ListItem>)
    ensures
        items_view(r@) == items_view(v@),
    decreases v,
{
    let mut out: Vec<ListItem> = Vec::new();
    let mut i: usize = 0;
    while i < v.len()
        invariant
            i <= v.len(),
            out.len() == i,
            forall|j: int| 0 <= j < i ==> (#[trigger] out[j]).view() == v[j].view(),
        decreases v.len() - i,
    {
        out.push(v[i].clone());
        i += 1;
    }
    assert(items_view(out@) =~= items_view(v@));
    out
}

/// A copy of a vector of statements, with the same model.
pub fn clone_stmts(v: &Vec<Stmt>) -> (r: Vec<Stmt>)
    ensures
        stmts_view(r@) == stmts_view(v@),
    decreases v,
{
    let mut out: Vec<Stmt> = Vec::new();
    let mut i: usize = 0;
    while i < v.len()
        invariant
            i <= v.len(),
            out.len() == i,
            forall|j: int| 0 <= j < i ==> (#[trigger] out[j]).view() == v[j].view(),
        decreases v.len() - i,
    {
        out.push(v[i].clone());
        i += 1;
    }
    assert(stmts_view(out@) =~= stmts_view(v@));
    out
}

/// A copy of an optional expression, with the same model.
pub fn clone_opt_expr(e: &Option<Expr>) -> (r: Option<Expr>)
    ensures
        opt_expr_view(r) == opt_expr_view(*e),
    decreases e,
{
    match e {
        Some(x) => Some(x.clone()),
        None => None,
    }
}

impl Clone for ListItem {
    fn clone(&self) -> (r: Self)
        ensures
            r.view() == self.view(),
        decreases self,
    {
        ListItem { key: clone_opt_string(&self.key), value: self.value.clone() }
    }
}

impl Clone for Expr {
    fn clone(&self) -> (r: Self)
        ensures
            r.view() == self.view(),
        decreases self,
    {
        match self {
            Expr::Int(i) => Expr::Int(*i),
            Expr::Str(s) => Expr::Str(s.clone()),
            Expr::Var(s) => Expr::Var(s.clone()),
            Expr::Sym(s) => Expr::Sym(s.clone()),
            Expr::List(items) => Expr::List(clone_items(items)),
            Expr::Block(stmts) => Expr::Block(clone_stmts(stmts)),
            Expr::BlockNoValue(stmts) => Expr::BlockNoValue(clone_stmts(stmts)),
            Expr::SList(items) => Expr::SList(clone_exprs(items)),
            Expr::Call(name, args) => Expr::Call(name.clone(), clone_exprs(args)),
            Expr::Add(a, b) => Expr::Add(Box::new((**a).clone()), Box::new((**b).clone())),
            Expr::Sub(a, b) => Expr::Sub(Box::new((**a).clone()), Box::new((**b).clone())),
            Expr::Mul(a, b) => Expr::Mul(Box::new((**a).clone()), Box::new((**b).clone())),
            Expr::Div(a, b) => Expr::Div(Box::new((**a).clone()), Box::new((**b).clone())),
            Expr::Mod(a, b) => Expr::Mod(Box::new((**a).clone()), Box::new((**b).clone())),
            Expr::Pow(a, b) => Expr::Pow(Box::new((**a).clone()), Box::new((**b).clone())),
            Expr::Gt(a, b) => Expr::Gt(Box::new((**a).clone()), Box::new((**b).clone())),
            Expr::Lt(a, b) => Expr::Lt(Box::new((**a).clone()), Box::new((**b).clone())),
            Expr::If(c, t, e) => {
                let other = match e {
                    Some(x) => Some(Box::new((**x).clone())),
                    None => None,
                };
                Expr::If(Box::new((**c).clone()), Box::new((**t).clone()), other)
            },
            Expr::Custom(a, op, b) => Expr::Custom(
                Box::new((**a).clone()),
                op.clone(),
                Box::new((**b).clone()),
            ),
            Expr::MapWith(list, name) => Expr::MapWith(Box::new((**list).clone()), name.clone()),
            Expr::Group(e) => Expr::Group(Box::new((**e).clone())),
            Expr::Index(list, index) => Expr::Index(
                Box::new((**list).clone()),
                Box::new((**index).clone()),
            ),
            Expr::Method(receiver, op, args) => Expr::Method(
                Box::new((**receiver).clone()),
                op.clone(),
                clone_exprs(args),
            ),
        }
    }
}

impl Clone for Stmt {
    fn clone(&self) -> (r: Self)
        ensures
            r.view() == self.view(),
        decreases self,
    {
        match self {
            Stmt::Let(name, e) => Stmt::Let(name.clone(), e.clone()),
            Stmt::PrintTemplate(tpl, arg) => Stmt::PrintTemplate(tpl.clone(), clone_opt_expr(arg)),
            Stmt::PrintExpr(e) => Stmt::PrintExpr(e.clone()),
            Stmt::ListTypes => Stmt::ListTypes,
            Stmt::ListType(name) => Stmt::ListType(name.clone()),
            Stmt::RegOp(op, name) => Stmt::RegOp(op.clone(), name.clone()),
            Stmt::LetFunc(name, params, body) => Stmt::LetFunc(
                name.clone(),
                clone_strings(params),
                clone_stmts(body),
            ),
            Stmt::Return(e) => Stmt::Return(clone_opt_expr(e)),
            Stmt::Call(ty, op, args) => Stmt::Call(ty.clone(), op.clone(), clone_exprs(args)),
            Stmt::RunList(items) => Stmt::RunList(clone_exprs(items)),
            Stmt::ExprStmt(e) => Stmt::ExprStmt(e.clone()),
            Stmt::Block(name, meta, body) => Stmt::Block(
                name.clone(),
                clone_items(meta),
                clone_stmts(body),
            ),
            Stmt::Break(label) => Stmt::Break(clone_opt_string(label)),
            Stmt::Next => Stmt::Next,
            Stmt::If(c, t, e) => {
                let other = match e {
                    Some(x) => Some(Box::new((**x).clone())),
                    None => None,
                };
                Stmt::If(c.clone(), Box::new((**t).clone()), other)
            },
        }
    }
}

} // verus!
