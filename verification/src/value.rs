//! Run-time values, environments, control-flow signals, errors and emitted
//! output, each with its model.

use vstd::prelude::*;
use crate::assoc::{bind, distinct, entry_names, lemma_bind_distinct, lookup, names, position};
use crate::ast::{
    clone_stmts, clone_strings, stmts_view, strings_view, Expr, ExprModel, Stmt, StmtModel,
};
use crate::registry::{clone_names, names_view, CallReply, TypeInfo, TypeModel};
use crate::text::{decimal, push_char, push_int};
use vstd::string::StringExecFns;

verus! {

/// The kinds of value that a parameter of a native function may ask for.
#[derive(Debug, Clone, Copy, PartialEq, Eq)]
pub enum ParamType {
    Int,
    Str,
    Sym,
    List,
    Obj,
    Any,
}

/// A run-time value.
///
/// A list carries its items and the keys of those that have one, each key
/// with the position of its item. A function carries its parameters, its
/// body and a copy of the environment in which it was defined. A native
/// function carries the kinds of its parameters and the name under which
/// the host knows it. An object carries the handle under which the host
/// knows the instance, and the name of its type.
#[derive(Debug, PartialEq)]
pub enum Value {
    Int(i64),
    Str(String),
    Sym(String),
    List(Vec<Value>, Vec<(String, usize)>),
    Func(Vec<String>, Expr, Env),
    FuncBlock(Vec<String>, Vec<Stmt>, Env),
    NativeFunc(Vec<ParamType>, String),
    Object(u64, String),
}

/// Names and the values bound to them. `get` finds the first binding of a
/// name; in an environment that `new` made and `insert` filled, no name is
/// bound twice.
#[derive(Debug, PartialEq)]
pub struct Env {
    pub entries: Vec<(String, Value)>,
}

/// What the execution of statements hands to the enclosing construct.
#[derive(Debug, PartialEq)]
pub enum ControlFlow {
    Continue,
    Return(Option<Value>),
    Break(Option<String>),
    Next,
}

/// The classes of failure.
#[derive(Debug, Clone, Copy, PartialEq, Eq)]
pub enum ErrorKind {
    /// An undefined variable, function or custom operator.
    Name,
    /// An argument count that differs from the parameter count.
    Arity,
    /// A value of the wrong kind for the operation.
    Type,
    /// A position outside a list, or a key that a list does not have.
    Lookup,
    /// Division by zero, or a negative exponent.
    Arithmetic,
    /// `return`, `break` or `next` where nothing can handle it.
    ControlFlow,
    /// Malformed block metadata or list-encoded statement, unknown block keyword.
    Structure,
    /// Calls, blocks and list-encoded statements nested beyond the limit.
    Depth,
    /// The host's type registry could not do what a program asked of it.
    Foreign,
    /// The host has not answered yet what the program asks here.
    Pending,
}

/// A failure: its class and its message.
#[derive(Debug, PartialEq)]
pub struct Error {
    pub kind: ErrorKind,
    pub message: String,
}

/// An argument of an operation of the host's type registry.
#[derive(Debug, Clone, Copy, PartialEq, Eq)]
pub enum Arg {
    Int(i64),
    Object(u64),
}

/// What a program asks of the host in the middle of an evaluation, to go
/// on with the answer.
#[derive(Debug, PartialEq)]
pub enum Request {
    /// The operation (second) of the type (first) is invoked, on the
    /// instance with the handle if there is one, with the arguments.
    Invoke(String, String, Option<u64>, Vec<Arg>),
    /// The native function of that name is called with the arguments, in
    /// the environment of the caller.
    Native(String, Vec<Value>, Env),
    /// The names of the registered types are asked for.
    TypeNames,
    /// What the registry reports of the type of that name is asked for.
    Describe(String),
    /// The operation (second) of the type (first) is called on the integers.
    Call(String, String, Vec<i64>),
}

/// What the host answers to a request.
#[derive(Debug, PartialEq)]
pub enum Answer {
    /// The operation gave an integer.
    Int(i64),
    /// The operation gave an instance: its handle and the name of its type.
    Object(u64, String),
    /// The operation failed, with the registry's status.
    Failed(i32),
    /// The native function gave a value.
    Returned(Value),
    /// The native function failed.
    Raised(Error),
    /// The names of the registered types, one entry for each type, empty
    /// where the registry gives no name.
    Names(Vec<Option<String>>),
    /// What the registry reports of the type.
    Described(TypeInfo),
    /// How the call of the operation went.
    Called(CallReply),
}

/// One item of the output log of a program: a line of text, or the record
/// of a request that was made of the host, for which nothing is printed.
#[derive(Debug, PartialEq)]
pub enum Output {
    Line(String),
    Asked(Request),
}

/// The model of the keys of a list: each with the position of its item.
pub type KeysModel = Seq<(Seq<char>, nat)>;

/// The model of an environment: names, each with the value bound to it.
pub type EnvModel = Seq<(Seq<char>, ValueModel)>;

/// The model of a value.
pub enum ValueModel {
    Int(i64),
    Str(Seq<char>),
    Sym(Seq<char>),
    List(Seq<ValueModel>, KeysModel),
    Func(Seq<Seq<char>>, ExprModel, EnvModel),
    FuncBlock(Seq<Seq<char>>, Seq<StmtModel>, EnvModel),
    NativeFunc(Seq<ParamType>, Seq<char>),
    Object(u64, Seq<char>),
}

/// The model of a control-flow signal.
pub enum FlowModel {
    Continue,
    Return(Option<ValueModel>),
    Break(Option<Seq<char>>),
    Next,
}

/// The model of a failure.
pub struct ErrorModel {
    pub kind: ErrorKind,
    pub message: Seq<char>,
}

/// The model of a request.
pub enum RequestModel {
    Invoke(Seq<char>, Seq<char>, Option<u64>, Seq<Arg>),
    Native(Seq<char>, Seq<ValueModel>, EnvModel),
    TypeNames,
    Describe(Seq<char>),
    Call(Seq<char>, Seq<char>, Seq<i64>),
}

/// The model of an answer.
pub enum AnswerModel {
    Int(i64),
    Object(u64, Seq<char>),
    Failed(i32),
    Returned(ValueModel),
    Raised(ErrorModel),
    Names(Seq<Option<Seq<char>>>),
    Described(TypeModel),
    Called(CallReply),
}

/// The model of an item of the output log.
pub enum OutputModel {
    Line(Seq<char>),
    Asked(RequestModel),
}

/// The model of the keys of a list.
pub open spec fn keys_view(s: Seq<(String, usize)>) -> KeysModel {
    Seq::new(s.len(), |i: int| (s[i].0@, s[i].1 as nat))
}

/// The model of a sequence of values, item by item.
pub open spec fn values_view(s: Seq<Value>) -> Seq<ValueModel>
    decreases s,
{
    Seq::new(
        s.len(),
        |i: int|
            if 0 <= i < s.len() {
                s[i].view()
            } else {
                arbitrary()
            },
    )
}

/// The model of a sequence of bindings, item by item.
pub open spec fn bindings_view(s: Seq<(String, Value)>) -> EnvModel
    decreases s,
{
    Seq::new(
        s.len(),
        |i: int|
            if 0 <= i < s.len() {
                (s[i].0@, s[i].1.view())
            } else {
                arbitrary()
            },
    )
}

/// The model of a sequence of emitted items, item by item.
pub open spec fn outputs_view(s: Seq<Output>) -> Seq<OutputModel> {
    Seq::new(s.len(), |i: int| s[i].view())
}

impl Value {
    pub open spec fn view(&self) -> ValueModel
        decreases self,
    {
        match self {
            Value::Int(i) => ValueModel::Int(*i),
            Value::Str(s) => ValueModel::Str(s@),
            Value::Sym(s) => ValueModel::Sym(s@),
            Value::List(items, keys) => ValueModel::List(values_view(items@), keys_view(keys@)),
            Value::Func(params, body, env) => ValueModel::Func(
                strings_view(params@),
                body.view(),
                env.view(),
            ),
            Value::FuncBlock(params, body, env) => ValueModel::FuncBlock(
                strings_view(params@),
                stmts_view(body@),
                env.view(),
            ),
            Value::NativeFunc(params, name) => ValueModel::NativeFunc(params@, name@),
            Value::Object(handle, ty) => ValueModel::Object(*handle, ty@),
        }
    }
}

impl Env {
    pub open spec fn view(&self) -> EnvModel
        decreases self,
    {
        bindings_view(self.entries@)
    }
}

impl ControlFlow {
    pub open spec fn view(&self) -> FlowModel {
        match self {
            ControlFlow::Continue => FlowModel::Continue,
            ControlFlow::Return(Some(v)) => FlowModel::Return(Some(v.view())),
            ControlFlow::Return(None) => FlowModel::Return(None),
            ControlFlow::Break(Some(l)) => FlowModel::Break(Some(l@)),
            ControlFlow::Break(None) => FlowModel::Break(None),
            ControlFlow::Next => FlowModel::Next,
        }
    }
}

impl Error {
    pub open spec fn view(&self) -> ErrorModel {
        ErrorModel { kind: self.kind, message: self.message@ }
    }
}

impl Request {
    pub open spec fn view(&self) -> RequestModel {
        match self {
            Request::Invoke(ty, op, receiver, args) => RequestModel::Invoke(
                ty@,
                op@,
                *receiver,
                args@,
            ),
            Request::Native(name, args, env) => RequestModel::Native(
                name@,
                values_view(args@),
                env.view(),
            ),
            Request::TypeNames => RequestModel::TypeNames,
            Request::Describe(name) => RequestModel::Describe(name@),
            Request::Call(ty, op, args) => RequestModel::Call(ty@, op@, args@),
        }
    }
}

impl Answer {
    pub open spec fn view(&self) -> AnswerModel {
        match self {
            Answer::Int(v) => AnswerModel::Int(*v),
            Answer::Object(handle, ty) => AnswerModel::Object(*handle, ty@),
            Answer::Failed(status) => AnswerModel::Failed(*status),
            Answer::Returned(v) => AnswerModel::Returned(v.view()),
            Answer::Raised(e) => AnswerModel::Raised(e.view()),
            Answer::Names(names) => AnswerModel::Names(names_view(names@)),
            Answer::Described(info) => AnswerModel::Described(info.view()),
            Answer::Called(reply) => AnswerModel::Called(*reply),
        }
    }
}

/// The model of a sequence of answers, item by item.
pub open spec fn answers_view(s: Seq<Answer>) -> Seq<AnswerModel> {
    Seq::new(s.len(), |i: int| s[i].view())
}

impl Output {
    pub open spec fn view(&self) -> OutputModel {
        match self {
            Output::Line(s) => OutputModel::Line(s@),
            Output::Asked(request) => OutputModel::Asked(request.view()),
        }
    }
}

/// A copy of a vector of values, with the same model.
pub fn clone_values(v: &Vec<Value>) -> (r: Vec<Value>)
    ensures
        values_view(r@) == values_view(v@),
    decreases v,
{
    let mut out: Vec<Value> = Vec::new();
    let mut i: usize = 0;
    while i < v.len()
        invariant
            i <= v.len(),
            out.len() == i,
            forall|j: int| 0 <= j < i ==> (#[trigger] out[j]).view() == v[j].view(),
        decreases v.len() - i,
    {
        out.push(v[i].clone());
        i += 1;
    }
    assert(values_view(out@) =~= values_view(v@));
    out
}

/// A copy of the keys of a list, with the same model.
pub fn clone_keys(v: &Vec<(String, usize)>) -> (r: Vec<(String, usize)>)
    ensures
        keys_view(r@) == keys_view(v@),
{
    let mut out: Vec<(String, usize)> = Vec::new();
    let mut i: usize = 0;
    while i < v.len()
        invariant
            i <= v.len(),
            out.len() == i,
            forall|j: int| 0 <= j < i ==> (#[trigger] out[j]).0@ == v[j].0@ && out[j].1 == v[j].1,
        decreases v.len() - i,
    {
        out.push((v[i].0.clone(), v[i].1));
        i += 1;
    }
    assert(keys_view(out@) =~= keys_view(v@));
    out
}

/// A copy of the parameter kinds of a native function.
pub fn clone_param_types(v: &Vec<ParamType>) -> (r: Vec<ParamType>)
    ensures
        r@ == v@,
{
    let mut out: Vec<ParamType> = Vec::new();
    let mut i: usize = 0;
    while i < v.len()
        invariant
            i <= v.len(),
            out@ =~= v@.take(i as int),
        decreases v.len() - i,
    {
        out.push(v[i]);
        i += 1;
    }
    assert(v@.take(v.len() as int) =~= v@);
    out
}

impl Clone for Value {
    fn clone(&self) -> (r: Self)
        ensures
            r.view() == self.view(),
        decreases self,
    {
        match self {
            Value::Int(i) => Value::Int(*i),
            Value::Str(s) => Value::Str(s.clone()),
            Value::Sym(s) => Value::Sym(s.clone()),
            Value::List(items, keys) => Value::List(clone_values(items), clone_keys(keys)),
            Value::Func(params, body, env) => Value::Func(
                clone_strings(params),
                body.clone(),
                env.clone(),
            ),
            Value::FuncBlock(params, body, env) => Value::FuncBlock(
                clone_strings(params),
                clone_stmts(body),
                env.clone(),
            ),
            Value::NativeFunc(params, name) => Value::NativeFunc(
                clone_param_types(params),
                name.clone(),
            ),
            Value::Object(handle, ty) => Value::Object(*handle, ty.clone()),
        }
    }
}

impl Clone for Env {
    fn clone(&self) -> (r: Self)
        ensures
            r.view() == self.view(),
        decreases self,
    {
        let mut out: Vec<(String, Value)> = Vec::new();
        let mut i: usize = 0;
        while i < self.entries.len()
            invariant
                i <= self.entries.len(),
                out.len() == i,
                forall|j: int|
                    0 <= j < i ==> (#[trigger] out[j]).0@ == self.entries[j].0@
                        && out[j].1.view() == self.entries[j].1.view(),
            decreases self.entries.len() - i,
        {
            proof {
                assert(decreases_to!(self => self.entries[i as int].1));
            }
            out.push((self.entries[i].0.clone(), self.entries[i].1.clone()));
            i += 1;
        }
        assert(bindings_view(out@) =~= bindings_view(self.entries@));
        Env { entries: out }
    }
}

impl Clone for ControlFlow {
    fn clone(&self) -> (r: Self)
        ensures
            r.view() == self.view(),
    {
        match self {
            ControlFlow::Continue => ControlFlow::Continue,
            ControlFlow::Return(Some(v)) => ControlFlow::Return(Some(v.clone())),
            ControlFlow::Return(None) => ControlFlow::Return(None),
            ControlFlow::Break(Some(l)) => ControlFlow::Break(Some(l.clone())),
            ControlFlow::Break(None) => ControlFlow::Break(None),
            ControlFlow::Next => ControlFlow::Next,
        }
    }
}

impl Clone for Error {
    fn clone(&self) -> (r: Self)
        ensures
            r.view() == self.view(),
    {
        Error { kind: self.kind, message: self.message.clone() }
    }
}

impl Clone for Request {
    fn clone(&self) -> (r: Self)
        ensures
            r.view() == self.view(),
    {
        match self {
            Request::Invoke(ty, op, receiver, args) => {
                let mut copy: Vec<Arg> = Vec::new();
                let mut i: usize = 0;
                while i < args.len()
                    invariant
                        i <= args.len(),
                        copy@ =~= args@.take(i as int),
                    decreases args.len() - i,
                {
                    copy.push(args[i]);
                    i += 1;
                }
                assert(args@.take(args.len() as int) =~= args@);
                Request::Invoke(ty.clone(), op.clone(), *receiver, copy)
            },
            Request::Native(name, args, env) => Request::Native(
                name.clone(),
                clone_values(args),
                env.clone(),
            ),
            Request::TypeNames => Request::TypeNames,
            Request::Describe(name) => Request::Describe(name.clone()),
            Request::Call(ty, op, args) => {
                let mut copy: Vec<i64> = Vec::new();
                let mut i: usize = 0;
                while i < args.len()
                    invariant
                        i <= args.len(),
                        copy@ =~= args@.take(i as int),
                    decreases args.len() - i,
                {
                    copy.push(args[i]);
                    i += 1;
                }
                assert(args@.take(args.len() as int) =~= args@);
                Request::Call(ty.clone(), op.clone(), copy)
            },
        }
    }
}

impl Clone for Answer {
    fn clone(&self) -> (r: Self)
        ensures
            r.view() == self.view(),
    {
        match self {
            Answer::Int(v) => Answer::Int(*v),
            Answer::Object(handle, ty) => Answer::Object(*handle, ty.clone()),
            Answer::Failed(status) => Answer::Failed(*status),
            Answer::Returned(v) => Answer::Returned(v.clone()),
            Answer::Raised(e) => Answer::Raised(e.clone()),
            Answer::Names(names) => Answer::Names(clone_names(names)),
            Answer::Described(info) => Answer::Described(info.clone()),
            Answer::Called(reply) => Answer::Called(*reply),
        }
    }
}

/// A copy of a sequence of answers, with the same model.
pub fn clone_answers(v: &Vec<Answer>) -> (r: Vec<Answer>)
    ensures
        answers_view(r@) == answers_view(v@),
{
    let mut out: Vec<Answer> = Vec::new();
    let mut i: usize = 0;
    while i < v.len()
        invariant
            i <= v.len(),
            out.len() == i,
            forall|j: int| 0 <= j < i ==> (#[trigger] out[j]).view() == v[j].view(),
        decreases v.len() - i,
    {
        out.push(v[i].clone());
        i += 1;
    }
    assert(answers_view(out@) =~= answers_view(v@));
    out
}

impl Env {
    /// Whether no name is bound twice.
    pub open spec fn well_formed(&self) -> bool {
        distinct(names(self.view()))
    }

    /// The environment that binds nothing.
    pub fn new() -> (r: Env)
        ensures
            r.view() == Seq::<(Seq<char>, ValueModel)>::empty(),
            r.well_formed(),
    {
        let r = Env { entries: Vec::new() };
        assert(r.view() =~= Seq::<(Seq<char>, ValueModel)>::empty());
        r
    }

    /// The value bound to `name`, if any.
    pub fn get(&self, name: &str) -> (r: Option<&Value>)
        ensures
            match r {
                Some(v) => lookup(self.view(), name@) == Some(v.view()),
                None => lookup(self.view(), name@).is_none(),
            },
    {
        assert(names(self.view()) =~= entry_names(self.entries@));
        let i = position(&self.entries, name);
        if i < self.entries.len() {
            Some(&self.entries[i].1)
        } else {
            None
        }
    }

    /// Binds `name` to `value`, in place of an earlier binding of `name` if
    /// there is one.
    pub fn insert(&mut self, name: String, value: Value)
        ensures
            final(self).view() == bind(old(self).view(), name@, value.view()),
            old(self).well_formed() ==> final(self).well_formed(),
    {
        proof {
            if self.well_formed() {
                lemma_bind_distinct(self.view(), name@, value.view());
            }
        }
        assert(names(self.view()) =~= entry_names(self.entries@));
        let i = position(&self.entries, name.as_str());
        if i < self.entries.len() {
            self.entries.set(i, (name, value));
        } else {
            self.entries.push((name, value));
        }
        assert(self.view() =~= bind(old(self).view(), name@, value.view()));
    }
}

/// The model of a table from names to names.
pub open spec fn pairs_view(s: Seq<(String, String)>) -> Seq<(Seq<char>, Seq<char>)> {
    Seq::new(s.len(), |i: int| (s[i].0@, s[i].1@))
}

/// The name that `table` binds `key` to, if any.
pub fn pairs_get<'a>(table: &'a Vec<(String, String)>, key: &str) -> (r: Option<&'a String>)
    ensures
        match r {
            Some(v) => lookup(pairs_view(table@), key@) == Some(v@),
            None => lookup(pairs_view(table@), key@).is_none(),
        },
{
    assert(names(pairs_view(table@)) =~= entry_names(table@));
    let i = position(table, key);
    if i < table.len() {
        Some(&table[i].1)
    } else {
        None
    }
}

/// Binds `key` to `value` in `table`.
pub fn pairs_put(table: &mut Vec<(String, String)>, key: String, value: String)
    ensures
        pairs_view(final(table)@) == bind(pairs_view(old(table)@), key@, value@),
{
    assert(names(pairs_view(table@)) =~= entry_names(table@));
    let i = position(table, key.as_str());
    if i < table.len() {
        table.set(i, (key, value));
    } else {
        table.push((key, value));
    }
    assert(pairs_view(table@) =~= bind(pairs_view(old(table)@), key@, value@));
}

/// A copy of a table from names to names.
pub fn clone_pairs(v: &Vec<(String, String)>) -> (r: Vec<(String, String)>)
    ensures
        pairs_view(r@) == pairs_view(v@),
{
    let mut out: Vec<(String, String)> = Vec::new();
    let mut i: usize = 0;
    while i < v.len()
        invariant
            i <= v.len(),
            out.len() == i,
            forall|j: int| 0 <= j < i ==> (#[trigger] out[j]).0@ == v[j].0@ && out[j].1@ == v[j].1@,
        decreases v.len() - i,
    {
        out.push((v[i].0.clone(), v[i].1.clone()));
        i += 1;
    }
    assert(pairs_view(out@) =~= pairs_view(v@));
    out
}

/// The position that the keys of a list give for `key`, if any.
pub fn keys_get(keys: &Vec<(String, usize)>, key: &str) -> (r: Option<usize>)
    ensures
        match r {
            Some(v) => lookup(keys_view(keys@), key@) == Some(v as nat),
            None => lookup(keys_view(keys@), key@).is_none(),
        },
{
    assert(names(keys_view(keys@)) =~= entry_names(keys@));
    let i = position(keys, key);
    if i < keys.len() {
        Some(keys[i].1)
    } else {
        None
    }
}

/// Gives `key` the position `at` among the keys of a list.
pub fn keys_put(keys: &mut Vec<(String, usize)>, key: String, at: usize)
    ensures
        keys_view(final(keys)@) == bind(keys_view(old(keys)@), key@, at as nat),
{
    assert(names(keys_view(keys@)) =~= entry_names(keys@));
    let i = position(keys, key.as_str());
    if i < keys.len() {
        keys.set(i, (key, at));
    } else {
        keys.push((key, at));
    }
    assert(keys_view(keys@) =~= bind(keys_view(old(keys)@), key@, at as nat));
}

/// Whether a value counts as true: an integer other than zero, or a string
/// that is not empty.
pub open spec fn truthy(v: ValueModel) -> bool {
    match v {
        ValueModel::Int(i) => i != 0,
        ValueModel::Str(s) => s.len() > 0,
        _ => false,
    }
}

/// Whether a value can be applied to arguments.
pub open spec fn callable(v: ValueModel) -> bool {
    v is Func || v is FuncBlock || v is NativeFunc
}

/// The number of parameters of a function.
pub open spec fn param_count(v: ValueModel) -> nat {
    match v {
        ValueModel::Func(params, _, _) => params.len(),
        ValueModel::FuncBlock(params, _, _) => params.len(),
        ValueModel::NativeFunc(params, _) => params.len(),
        _ => 0,
    }
}

/// Whether a parameter of the kind takes the value.
pub open spec fn accepts(t: ParamType, v: ValueModel) -> bool {
    match t {
        ParamType::Int => v is Int,
        ParamType::Str => v is Str,
        ParamType::Sym => v is Sym,
        ParamType::List => v is List,
        ParamType::Obj => v is Object,
        ParamType::Any => true,
    }
}

/// The text that stands for a value in output: an integer in decimal, a
/// string or symbol as it is, a list as its items between brackets with
/// single spaces between them, a function as `<func>`, a native function
/// as `<native>`, an object as `<object` and the name of its type and `>`.
pub open spec fn render(v: ValueModel) -> Seq<char>
    decreases v, 0nat,
{
    match v {
        ValueModel::Int(i) => decimal(i as int),
        ValueModel::Str(s) => s,
        ValueModel::Sym(s) => s,
        ValueModel::List(items, _) => render_from(items, 0, seq!['(']).push(')'),
        ValueModel::Func(_, _, _) => "<func>"@,
        ValueModel::FuncBlock(_, _, _) => "<func>"@,
        ValueModel::NativeFunc(_, _) => "<native>"@,
        ValueModel::Object(_, ty) => "<object "@ + ty + ">"@,
    }
}

/// `acc`, and behind it the texts of the items from position `i` on, each
/// but the first of the list after a space.
pub open spec fn render_from(items: Seq<ValueModel>, i: int, acc: Seq<char>) -> Seq<char>
    decreases items, items.len() - i,
{
    if i < 0 || i >= items.len() {
        acc
    } else if i == 0 {
        render_from(items, i + 1, acc + render(items[i]))
    } else {
        render_from(items, i + 1, acc.push(' ') + render(items[i]))
    }
}

impl Value {
    /// Whether the value counts as true.
    pub fn is_truthy(&self) -> (r: bool)
        ensures
            r == truthy(self.view()),
    {
        match self {
            Value::Int(i) => *i != 0,
            Value::Str(s) => !s.as_str().is_empty(),
            _ => false,
        }
    }

    /// Whether the value can be applied to arguments.
    pub fn is_callable(&self) -> (r: bool)
        ensures
            r == callable(self.view()),
    {
        match self {
            Value::Func(_, _, _) => true,
            Value::FuncBlock(_, _, _) => true,
            Value::NativeFunc(_, _) => true,
            _ => false,
        }
    }
}

/// Appends the text of a value.
pub fn push_value(out: &mut String, v: &Value)
    ensures
        final(out)@ == old(out)@ + render(v.view()),
    decreases v,
{
    match v {
        Value::Int(i) => push_int(out, *i),
        Value::Str(s) => out.append(s.as_str()),
        Value::Sym(s) => out.append(s.as_str()),
        Value::List(items, _) => {
            push_char(out, '(');
            let ghost ms = values_view(items@);
            let ghost mut acc: Seq<char> = seq!['('];
            assert(out@ =~= old(out)@ + acc);
            let mut i: usize = 0;
            while i < items.len()
                invariant
                    i <= items.len(),
                    ms == values_view(items@),
                    out@ == old(out)@ + acc,
                    render_from(ms, 0, seq!['(']) == render_from(ms, i as int, acc),
                    v == Value::List(*items, v->List_1),
                decreases items.len() - i,
            {
                if i > 0 {
                    push_char(out, ' ');
                }
                let ghost sep = if i > 0 {
                    acc.push(' ')
                } else {
                    acc
                };
                assert(out@ =~= old(out)@ + sep);
                proof {
                    assert(decreases_to!(v => v->List_0[i as int]));
                }
                push_value(out, &items[i]);
                proof {
                    acc = sep + render(ms[i as int]);
                    assert(out@ =~= old(out)@ + acc);
                }
                i += 1;
            }
            push_char(out, ')');
            assert(out@ =~= old(out)@ + render(v.view()));
        },
        Value::Func(_, _, _) => out.append("<func>"),
        Value::FuncBlock(_, _, _) => out.append("<func>"),
        Value::NativeFunc(_, _) => out.append("<native>"),
        Value::Object(_, ty) => {
            out.append("<object ");
            out.append(ty.as_str());
            out.append(">");
        },
    }
}

/// The text that stands for a value in output.
pub fn to_string(v: &Value) -> (r: String)
    ensures
        r@ == render(v.view()),
{
    let mut out = String::new();
    push_value(&mut out, v);
    assert(out@ =~= render(v.view()));
    out
}

impl ParamType {
    /// Whether a parameter of this kind takes the value.
    pub fn takes(&self, v: &Value) -> (r: bool)
        ensures
            r == accepts(*self, v.view()),
    {
        match self {
            ParamType::Int => match v {
                Value::Int(_) => true,
                _ => false,
            },
            ParamType::Str => match v {
                Value::Str(_) => true,
                _ => false,
            },
            ParamType::Sym => match v {
                Value::Sym(_) => true,
                _ => false,
            },
            ParamType::List => match v {
                Value::List(_, _) => true,
                _ => false,
            },
            ParamType::Obj => match v {
                Value::Object(_, _) => true,
                _ => false,
            },
            ParamType::Any => true,
        }
    }
}

} // verus!
