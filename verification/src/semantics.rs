//! What programs mean: the value of an expression and the effect of a
//! statement, as functions on models.
//!
//! Output is a log that evaluation extends: with the lines that the
//! program prints, and with the requests that it makes of the host. The
//! host's answers are part of the interpreter; a request whose answer is
//! not among them ends the evaluation as pending. `depth` bounds how far
//! function bodies, blocks and list-encoded statements may nest: entering
//! one takes one from it, and at zero the attempt fails.

use vstd::prelude::*;
use crate::arith::{int_binary, operand_message};
use crate::assoc::{bind, lookup};
use crate::ast::{ExprModel, ItemModel, StmtModel};
use crate::listform::{item_values, malformed, stmt_of_list};
use crate::registry::{answer_model, type_list_model, type_model};
use crate::text::{decimal_nat, fill};
use crate::value::{
    accepts, callable, param_count, render, truthy, AnswerModel, Arg, EnvModel, ErrorKind,
    ErrorModel, FlowModel, KeysModel, OutputModel, ParamType, RequestModel, ValueModel,
};

verus! {

/// The built-in behaviours that a block keyword can be bound to.
#[derive(Debug, Clone, Copy, PartialEq, Eq)]
pub enum BlockHandler {
    /// Runs the body in test mode only, and undoes what it did to the
    /// environment and the operators.
    Test,
    /// Runs the body in test mode only, and keeps what it did.
    TestInit,
    /// Runs the body outside test mode only, and undoes what it did to the
    /// environment and the operators.
    NoTest,
    /// Runs the body repeatedly.
    Loop,
}

/// The model of the custom operators: each with the name of its function.
pub type OpsModel = Seq<(Seq<char>, Seq<char>)>;

/// The model of the block keywords: each with what it does.
pub type HandlersModel = Seq<(Seq<char>, BlockHandler)>;

/// The model of an interpreter: the environment, the custom operators with
/// the functions they name, the mode, the block keywords, and what the host
/// has answered so far.
pub struct StateModel {
    pub env: EnvModel,
    pub ops: OpsModel,
    pub test_mode: bool,
    pub handlers: HandlersModel,
    pub answers: Seq<AnswerModel>,
}

/// The outcome of evaluating an expression: the output log and the value or failure.
pub struct Eval {
    pub out: Seq<OutputModel>,
    pub res: Result<ValueModel, ErrorModel>,
}

/// The outcome of evaluating several expressions.
pub struct EvalMany {
    pub out: Seq<OutputModel>,
    pub res: Result<Seq<ValueModel>, ErrorModel>,
}

/// The outcome of evaluating the arguments of a registry call.
pub struct EvalInts {
    pub out: Seq<OutputModel>,
    pub res: Result<Seq<i64>, ErrorModel>,
}

/// The outcome of executing statements: the output log, the interpreter
/// afterwards, and the control-flow signal or failure.
pub struct Run {
    pub out: Seq<OutputModel>,
    pub state: StateModel,
    pub res: Result<FlowModel, ErrorModel>,
}

/// The outcome of executing statements of a block expression: the output
/// log, the block's environment, the value of the last expression
/// statement, and the returned value if a `return` was met.
pub struct BlockRun {
    pub out: Seq<OutputModel>,
    pub env: EnvModel,
    pub last: ValueModel,
    pub res: Result<Option<ValueModel>, ErrorModel>,
}

/// What the metadata of a loop says: the statements that set up the loop's
/// own state, those that follow each round, and the loop's label.
pub struct LoopPlan {
    pub persist: Seq<StmtModel>,
    pub step: Seq<StmtModel>,
    pub label: Option<Seq<char>>,
}

/// The failure of the class with the message.
pub open spec fn failure(kind: ErrorKind, message: Seq<char>) -> ErrorModel {
    ErrorModel { kind, message }
}

/// The failure of nesting beyond the limit.
pub open spec fn depth_failure() -> ErrorModel {
    failure(ErrorKind::Depth, "depth limit exceeded"@)
}

/// An evaluation that gave the value.
pub open spec fn done(out: Seq<OutputModel>, v: ValueModel) -> Eval {
    Eval { out, res: Ok(v) }
}

/// An evaluation that failed.
pub open spec fn failed(out: Seq<OutputModel>, kind: ErrorKind, message: Seq<char>) -> Eval {
    Eval { out, res: Err(failure(kind, message)) }
}

/// An execution after which the next statement runs.
pub open spec fn proceed(out: Seq<OutputModel>, state: StateModel) -> Run {
    Run { out, state, res: Ok(FlowModel::Continue) }
}

/// An execution that failed.
pub open spec fn stopped(out: Seq<OutputModel>, state: StateModel, e: ErrorModel) -> Run {
    Run { out, state, res: Err(e) }
}

/// The interpreter with another environment.
pub open spec fn with_env(st: StateModel, env: EnvModel) -> StateModel {
    StateModel {
        env,
        ops: st.ops,
        test_mode: st.test_mode,
        handlers: st.handlers,
        answers: st.answers,
    }
}

/// The interpreter with another mode.
pub open spec fn with_mode(st: StateModel, test_mode: bool) -> StateModel {
    StateModel {
        env: st.env,
        ops: st.ops,
        test_mode,
        handlers: st.handlers,
        answers: st.answers,
    }
}

/// The interpreter `after` a scoped block, with the environment, the
/// operators and the mode put back as they were `before` it.
pub open spec fn restored(after: StateModel, before: StateModel) -> StateModel {
    StateModel {
        env: before.env,
        ops: before.ops,
        test_mode: before.test_mode,
        handlers: after.handlers,
        answers: after.answers,
    }
}

/// The list without keys that holds the values, or the failure.
pub open spec fn list_of(r: EvalMany) -> Eval {
    Eval {
        out: r.out,
        res: match r.res {
            Ok(vs) => Ok(ValueModel::List(vs, Seq::empty())),
            Err(e) => Err(e),
        },
    }
}

/// The message of a call with `got` arguments of a function with
/// `expected` parameters.
pub open spec fn arity_message(expected: nat, got: nat) -> Seq<char> {
    "arity mismatch: expected "@ + decimal_nat(expected) + ", got "@ + decimal_nat(got)
}

/// The environment with each parameter from position `i` on bound to its argument.
pub open spec fn bind_params(
    env: EnvModel,
    params: Seq<Seq<char>>,
    args: Seq<ValueModel>,
    i: int,
) -> EnvModel
    decreases params.len() - i,
{
    if i < 0 || i >= params.len() || i >= args.len() {
        env
    } else {
        bind_params(bind(env, params[i], args[i]), params, args, i + 1)
    }
}

/// The values from position `i` on, after `acc`, with each string or symbol
/// replaced by what the environment binds it to.
pub open spec fn resolve_from(
    items: Seq<ValueModel>,
    i: int,
    acc: Seq<ValueModel>,
    env: EnvModel,
) -> Result<Seq<ValueModel>, ErrorModel>
    decreases items.len() - i,
{
    if i < 0 || i >= items.len() {
        Ok(acc)
    } else {
        match items[i] {
            ValueModel::Str(s) => match lookup(env, s) {
                Some(v) => resolve_from(items, i + 1, acc.push(v), env),
                None => Err(failure(ErrorKind::Name, "undefined variable: "@ + s)),
            },
            ValueModel::Sym(s) => match lookup(env, s) {
                Some(v) => resolve_from(items, i + 1, acc.push(v), env),
                None => Err(failure(ErrorKind::Name, "undefined variable: "@ + s)),
            },
            other => resolve_from(items, i + 1, acc.push(other), env),
        }
    }
}

/// The name at the head of a list that may be a function application: the
/// first item has no key and is a variable or a symbol.
pub open spec fn head_name(items: Seq<ItemModel>) -> Option<Seq<char>> {
    if items.len() > 0 && items[0].key.is_none() {
        match items[0].value {
            ExprModel::Var(n) => Some(n),
            ExprModel::Sym(n) => Some(n),
            _ => None,
        }
    } else {
        None
    }
}

/// Whether a list expression is a function application in `env`: its head
/// names a function there.
pub open spec fn is_application(items: Seq<ItemModel>, env: EnvModel) -> bool {
    match head_name(items) {
        Some(n) => match lookup(env, n) {
            Some(f) => callable(f),
            None => false,
        },
        None => false,
    }
}

/// The value of an item of a list: at position `i`, or by key.
pub open spec fn index_value(items: Seq<ValueModel>, keys: KeysModel, index: ValueModel) -> Result<
    ValueModel,
    ErrorModel,
> {
    match index {
        ValueModel::Int(i) => if 0 <= i < items.len() {
            Ok(items[i as int])
        } else {
            Err(failure(ErrorKind::Lookup, "index out of range"@))
        },
        ValueModel::Str(s) => match lookup(keys, s) {
            Some(at) => if at < items.len() {
                Ok(items[at as int])
            } else {
                Err(failure(ErrorKind::Lookup, "index out of range"@))
            },
            None => Err(failure(ErrorKind::Lookup, "key not found"@)),
        },
        _ => Err(failure(ErrorKind::Type, "index must be int or string"@)),
    }
}

/// The number of requests that the log records.
pub open spec fn asked(out: Seq<OutputModel>) -> nat
    decreases out.len(),
{
    if out.len() == 0 {
        0
    } else if out.last() is Asked {
        asked(out.drop_last()) + 1
    } else {
        asked(out.drop_last())
    }
}

/// The outcome of a request: the output log and the answer or failure.
pub struct Asking {
    pub out: Seq<OutputModel>,
    pub res: Result<AnswerModel, ErrorModel>,
}

/// A request made of the host. The request is recorded in the log. The
/// answer is the one that the host gave to the request of this number,
/// counted from the start of the log; where the host has not given that
/// many, the evaluation cannot go on.
pub open spec fn ask(
    request: RequestModel,
    answers: Seq<AnswerModel>,
    out: Seq<OutputModel>,
) -> Asking {
    Asking {
        out: out.push(OutputModel::Asked(request)),
        res: if asked(out) < answers.len() {
            Ok(answers[asked(out) as int])
        } else {
            Err(failure(ErrorKind::Pending, "host answer pending"@))
        },
    }
}

/// The value that an answer to an invoked operation stands for: the
/// integer, or the object; a failure of the registry is a failure.
pub open spec fn invoked_value(a: AnswerModel) -> Result<ValueModel, ErrorModel> {
    match a {
        AnswerModel::Int(v) => Ok(ValueModel::Int(v)),
        AnswerModel::Object(handle, ty) => Ok(ValueModel::Object(handle, ty)),
        AnswerModel::Failed(_) => Err(failure(ErrorKind::Foreign, "op call failed"@)),
        _ => Err(failure(ErrorKind::Foreign, "unexpected answer"@)),
    }
}

/// The value that an answer to a call of a native function stands for.
pub open spec fn native_value(a: AnswerModel) -> Result<ValueModel, ErrorModel> {
    match a {
        AnswerModel::Returned(v) => Ok(v),
        AnswerModel::Raised(e) => Err(e),
        _ => Err(failure(ErrorKind::Foreign, "unexpected answer"@)),
    }
}

/// Whether each parameter from position `i` on takes its argument.
pub open spec fn all_accepted(params: Seq<ParamType>, args: Seq<ValueModel>, i: int) -> bool
    decreases params.len() - i,
{
    if i < 0 || i >= params.len() || i >= args.len() {
        true
    } else {
        accepts(params[i], args[i]) && all_accepted(params, args, i + 1)
    }
}

/// The result of calling a native function: the kinds of the arguments
/// are checked, and only then is the host asked.
pub open spec fn native_call(
    params: Seq<ParamType>,
    name: Seq<char>,
    args: Seq<ValueModel>,
    st: StateModel,
    out: Seq<OutputModel>,
) -> Eval {
    if !all_accepted(params, args, 0) {
        failed(out, ErrorKind::Type, "argument type mismatch"@)
    } else {
        let a = ask(RequestModel::Native(name, args, st.env), st.answers, out);
        Eval {
            out: a.out,
            res: match a.res {
                Ok(answer) => native_value(answer),
                Err(e) => Err(e),
            },
        }
    }
}

/// The outcome of evaluating the arguments of an operation.
pub struct EvalArgs {
    pub out: Seq<OutputModel>,
    pub res: Result<Seq<Arg>, ErrorModel>,
}

/// The arguments that the expressions from position `i` on give to an
/// operation, after `acc`: each must give an integer or an object.
pub open spec fn eval_op_args(
    es: Seq<ExprModel>,
    i: int,
    acc: Seq<Arg>,
    st: StateModel,
    out: Seq<OutputModel>,
    depth: nat,
) -> EvalArgs
    decreases depth, 3nat, es, es.len() - i,
{
    if i < 0 || i >= es.len() {
        EvalArgs { out, res: Ok(acc) }
    } else {
        let r = eval_model(es[i], st, out, depth);
        match r.res {
            Ok(ValueModel::Int(n)) => eval_op_args(
                es,
                i + 1,
                acc.push(Arg::Int(n)),
                st,
                r.out,
                depth,
            ),
            Ok(ValueModel::Object(handle, _)) => eval_op_args(
                es,
                i + 1,
                acc.push(Arg::Object(handle)),
                st,
                r.out,
                depth,
            ),
            Ok(ValueModel::Str(_)) => EvalArgs {
                out: r.out,
                res: Err(failure(ErrorKind::Type, "string args not supported"@)),
            },
            Ok(_) => EvalArgs {
                out: r.out,
                res: Err(failure(ErrorKind::Type, "unsupported arg type"@)),
            },
            Err(e) => EvalArgs { out: r.out, res: Err(e) },
        }
    }
}

/// The name of a type where the receiver of a method call is a bare name
/// that stands for a type: a symbol, or a variable that is not bound.
pub open spec fn type_receiver(receiver: ExprModel, env: EnvModel) -> Option<Seq<char>> {
    match receiver {
        ExprModel::Sym(t) => Some(t),
        ExprModel::Var(t) => if lookup(env, t).is_none() {
            Some(t)
        } else {
            None
        },
        _ => None,
    }
}

/// The value of a method call. Where the receiver names a type, the
/// operation of that type is invoked without an instance; otherwise the
/// receiver must give an object, and the operation of its type is invoked
/// on it. The arguments are evaluated after the receiver.
pub open spec fn eval_method(
    e: ExprModel,
    st: StateModel,
    out: Seq<OutputModel>,
    depth: nat,
) -> Eval
    recommends
        e is Method,
    decreases depth, 3nat, e, 0nat,
{
    match e {
        ExprModel::Method(receiver, op, args) => match type_receiver(*receiver, st.env) {
            Some(ty) => invoke(
                ty,
                op,
                None,
                eval_op_args(args, 0, Seq::empty(), st, out, depth),
                st,
            ),
            None => {
                let r = eval_model(*receiver, st, out, depth);
                match r.res {
                    Ok(ValueModel::Object(handle, ty)) => invoke(
                        ty,
                        op,
                        Some(handle),
                        eval_op_args(args, 0, Seq::empty(), st, r.out, depth),
                        st,
                    ),
                    Ok(_) => failed(r.out, ErrorKind::Type, "method call requires an object"@),
                    Err(_) => r,
                }
            },
        },
        _ => done(out, ValueModel::Int(0)),
    }
}

/// The operation invoked once its arguments are evaluated.
pub open spec fn invoke(
    ty: Seq<char>,
    op: Seq<char>,
    receiver: Option<u64>,
    args: EvalArgs,
    st: StateModel,
) -> Eval {
    match args.res {
        Ok(a) => {
            let asking = ask(RequestModel::Invoke(ty, op, receiver, a), st.answers, args.out);
            Eval {
                out: asking.out,
                res: match asking.res {
                    Ok(answer) => invoked_value(answer),
                    Err(e) => Err(e),
                },
            }
        },
        Err(e) => Eval { out: args.out, res: Err(e) },
    }
}

/// The value of an expression.
pub open spec fn eval_model(e: ExprModel, st: StateModel, out: Seq<OutputModel>, depth: nat) -> Eval
    decreases depth, 3nat, e, 1nat,
{
    match e {
        ExprModel::Int(i) => done(out, ValueModel::Int(i)),
        ExprModel::Str(s) => done(out, ValueModel::Str(s)),
        ExprModel::Sym(s) => done(out, ValueModel::Sym(s)),
        ExprModel::Var(name) => match lookup(st.env, name) {
            Some(v) => done(out, v),
            None => failed(out, ErrorKind::Name, "undefined variable: "@ + name),
        },
        ExprModel::Block(stmts) => block_value(
            block_from(stmts, 0, st.env, ValueModel::Int(0), st, out, depth),
        ),
        ExprModel::BlockNoValue(stmts) => {
            let r = block_value(block_from(stmts, 0, st.env, ValueModel::Int(0), st, out, depth));
            match r.res {
                Ok(_) => done(r.out, ValueModel::Int(0)),
                Err(_) => r,
            }
        },
        ExprModel::SList(items) => list_of(eval_from(items, 0, Seq::empty(), st, out, depth)),
        ExprModel::List(_) => eval_list(e, st, out, depth),
        ExprModel::Call(_, _) => eval_call(e, st, out, depth),
        ExprModel::Binary(_, _, _) => eval_binary(e, st, out, depth),
        ExprModel::If(_, _, _) => eval_if(e, st, out, depth),
        ExprModel::Custom(_, _, _) => eval_custom(e, st, out, depth),
        ExprModel::MapWith(_, _) => eval_map(e, st, out, depth),
        ExprModel::Group(inner) => eval_model(*inner, st, out, depth),
        ExprModel::Index(_, _) => eval_index(e, st, out, depth),
        ExprModel::Method(_, _, _) => eval_method(e, st, out, depth),
    }
}

/// The values of the expressions from position `i` on, after `acc`.
pub open spec fn eval_from(
    es: Seq<ExprModel>,
    i: int,
    acc: Seq<ValueModel>,
    st: StateModel,
    out: Seq<OutputModel>,
    depth: nat,
) -> EvalMany
    decreases depth, 3nat, es, es.len() - i,
{
    if i < 0 || i >= es.len() {
        EvalMany { out, res: Ok(acc) }
    } else {
        let r = eval_model(es[i], st, out, depth);
        match r.res {
            Ok(v) => eval_from(es, i + 1, acc.push(v), st, r.out, depth),
            Err(e) => EvalMany { out: r.out, res: Err(e) },
        }
    }
}

/// The integers that the expressions from position `i` on evaluate to, after
/// `acc`; a value that is no integer is a failure.
pub open spec fn eval_ints(
    es: Seq<ExprModel>,
    i: int,
    acc: Seq<i64>,
    st: StateModel,
    out: Seq<OutputModel>,
    depth: nat,
) -> EvalInts
    decreases depth, 3nat, es, es.len() - i,
{
    if i < 0 || i >= es.len() {
        EvalInts { out, res: Ok(acc) }
    } else {
        let r = eval_model(es[i], st, out, depth);
        match r.res {
            Ok(ValueModel::Int(n)) => eval_ints(es, i + 1, acc.push(n), st, r.out, depth),
            Ok(ValueModel::Str(_)) => EvalInts {
                out: r.out,
                res: Err(failure(ErrorKind::Type, "string args not supported"@)),
            },
            Ok(_) => EvalInts {
                out: r.out,
                res: Err(failure(ErrorKind::Type, "unsupported arg type"@)),
            },
            Err(e) => EvalInts { out: r.out, res: Err(e) },
        }
    }
}

/// The list that the items from position `i` on make, after the values
/// `vals` and the keys `keys`. An item that is a bare variable stands for
/// the symbol of that name; a key is recorded with the position of its item.
pub open spec fn eval_items(
    items: Seq<ItemModel>,
    i: int,
    vals: Seq<ValueModel>,
    keys: KeysModel,
    st: StateModel,
    out: Seq<OutputModel>,
    depth: nat,
) -> Eval
    decreases depth, 3nat, items, items.len() - i,
{
    if i < 0 || i >= items.len() {
        done(out, ValueModel::List(vals, keys))
    } else {
        let r = match items[i].value {
            ExprModel::Var(name) => done(out, ValueModel::Sym(name)),
            other => eval_model(other, st, out, depth),
        };
        match r.res {
            Ok(v) => eval_items(
                items,
                i + 1,
                vals.push(v),
                match items[i].key {
                    Some(k) => bind(keys, k, i as nat),
                    None => keys,
                },
                st,
                r.out,
                depth,
            ),
            Err(e) => r,
        }
    }
}

/// The arguments that the items from position `i` on give, after `acc`. An
/// item with a key is a failure.
pub open spec fn eval_args(
    items: Seq<ItemModel>,
    i: int,
    acc: Seq<ValueModel>,
    st: StateModel,
    out: Seq<OutputModel>,
    depth: nat,
) -> EvalMany
    decreases depth, 3nat, items, items.len() - i,
{
    if i < 0 || i >= items.len() {
        EvalMany { out, res: Ok(acc) }
    } else if items[i].key.is_some() {
        EvalMany { out, res: Err(failure(ErrorKind::Type, "named arguments are not supported"@)) }
    } else {
        let r = eval_model(items[i].value, st, out, depth);
        match r.res {
            Ok(v) => eval_args(items, i + 1, acc.push(v), st, r.out, depth),
            Err(e) => EvalMany { out: r.out, res: Err(e) },
        }
    }
}

/// The value of a list expression: the result of the application where its
/// head names a function, the list of its items' values where not.
pub open spec fn eval_list(e: ExprModel, st: StateModel, out: Seq<OutputModel>, depth: nat) -> Eval
    recommends
        e is List,
    decreases depth, 3nat, e, 0nat,
{
    match e {
        ExprModel::List(items) => if is_application(items, st.env) {
            let f = lookup(st.env, head_name(items)->0)->0;
            let a = eval_args(items, 1, Seq::empty(), st, out, depth);
            match a.res {
                Ok(vs) => apply_model(f, vs, st, a.out, depth),
                Err(x) => Eval { out: a.out, res: Err(x) },
            }
        } else {
            eval_items(items, 0, Seq::empty(), Seq::empty(), st, out, depth)
        },
        _ => done(out, ValueModel::Int(0)),
    }
}

/// The value of a call by name. `value_of` is built in: it gives what the
/// environment binds a name to, or the list of what it binds the names in a
/// list to.
pub open spec fn eval_call(e: ExprModel, st: StateModel, out: Seq<OutputModel>, depth: nat) -> Eval
    recommends
        e is Call,
    decreases depth, 3nat, e, 0nat,
{
    match e {
        ExprModel::Call(name, args) => if name == "value_of"@ {
            if args.len() != 1 {
                failed(out, ErrorKind::Arity, "value_of expects 1 argument"@)
            } else {
                let r = eval_model(args[0], st, out, depth);
                match r.res {
                    Ok(v) => value_of(v, st.env, r.out),
                    Err(_) => r,
                }
            }
        } else {
            let a = eval_from(args, 0, Seq::empty(), st, out, depth);
            match a.res {
                Ok(vs) => match lookup(st.env, name) {
                    Some(f) => if callable(f) {
                        apply_model(f, vs, st, a.out, depth)
                    } else {
                        failed(a.out, ErrorKind::Name, "undefined function: "@ + name)
                    },
                    None => failed(a.out, ErrorKind::Name, "undefined function: "@ + name),
                },
                Err(x) => Eval { out: a.out, res: Err(x) },
            }
        },
        _ => done(out, ValueModel::Int(0)),
    }
}

/// What `value_of` makes of its argument.
pub open spec fn value_of(v: ValueModel, env: EnvModel, out: Seq<OutputModel>) -> Eval {
    match v {
        ValueModel::List(items, _) => match resolve_from(items, 0, Seq::empty(), env) {
            Ok(vs) => done(out, ValueModel::List(vs, Seq::empty())),
            Err(x) => Eval { out, res: Err(x) },
        },
        ValueModel::Str(s) => match lookup(env, s) {
            Some(x) => done(out, x),
            None => failed(out, ErrorKind::Name, "undefined variable: "@ + s),
        },
        ValueModel::Sym(s) => match lookup(env, s) {
            Some(x) => done(out, x),
            None => failed(out, ErrorKind::Name, "undefined variable: "@ + s),
        },
        _ => failed(out, ErrorKind::Type, "value_of expects a list or sym/string"@),
    }
}

/// The value of an operator on two expressions: the left one is evaluated
/// first, and both must give integers.
pub open spec fn eval_binary(
    e: ExprModel,
    st: StateModel,
    out: Seq<OutputModel>,
    depth: nat,
) -> Eval
    recommends
        e is Binary,
    decreases depth, 3nat, e, 0nat,
{
    match e {
        ExprModel::Binary(op, a, b) => {
            let ra = eval_model(*a, st, out, depth);
            match ra.res {
                Ok(va) => {
                    let rb = eval_model(*b, st, ra.out, depth);
                    match rb.res {
                        Ok(vb) => binary_value(op, va, vb, rb.out),
                        Err(_) => rb,
                    }
                },
                Err(_) => ra,
            }
        },
        _ => done(out, ValueModel::Int(0)),
    }
}

/// What an operator makes of two values.
pub open spec fn binary_value(
    op: crate::ast::BinOp,
    va: ValueModel,
    vb: ValueModel,
    out: Seq<OutputModel>,
) -> Eval {
    match (va, vb) {
        (ValueModel::Int(x), ValueModel::Int(y)) => match int_binary(op, x, y) {
            Ok(z) => done(out, ValueModel::Int(z)),
            Err(x) => Eval { out, res: Err(x) },
        },
        _ => failed(out, ErrorKind::Type, operand_message(op)),
    }
}

/// The value of a conditional expression: zero where the condition is false
/// and there is no other branch.
pub open spec fn eval_if(e: ExprModel, st: StateModel, out: Seq<OutputModel>, depth: nat) -> Eval
    recommends
        e is If,
    decreases depth, 3nat, e, 0nat,
{
    match e {
        ExprModel::If(c, t, other) => {
            let rc = eval_model(*c, st, out, depth);
            match rc.res {
                Ok(v) => if truthy(v) {
                    eval_model(*t, st, rc.out, depth)
                } else {
                    match other {
                        Some(o) => eval_model(*o, st, rc.out, depth),
                        None => done(rc.out, ValueModel::Int(0)),
                    }
                },
                Err(_) => rc,
            }
        },
        _ => done(out, ValueModel::Int(0)),
    }
}

/// The value of a custom operator on two expressions: both are evaluated,
/// then the operator is looked up, then the function it names.
pub open spec fn eval_custom(
    e: ExprModel,
    st: StateModel,
    out: Seq<OutputModel>,
    depth: nat,
) -> Eval
    recommends
        e is Custom,
    decreases depth, 3nat, e, 0nat,
{
    match e {
        ExprModel::Custom(a, op, b) => {
            let ra = eval_model(*a, st, out, depth);
            match ra.res {
                Ok(va) => {
                    let rb = eval_model(*b, st, ra.out, depth);
                    match rb.res {
                        Ok(vb) => match operator_function(op, st) {
                            Ok(f) => apply_model(f, seq![va, vb], st, rb.out, depth),
                            Err(x) => Eval { out: rb.out, res: Err(x) },
                        },
                        Err(_) => rb,
                    }
                },
                Err(_) => ra,
            }
        },
        _ => done(out, ValueModel::Int(0)),
    }
}

/// The function of two parameters that a custom operator names.
pub open spec fn operator_function(
    op: Seq<char>,
    st: StateModel,
) -> Result<ValueModel, ErrorModel> {
    match lookup(st.ops, op) {
        Some(fname) => match lookup(st.env, fname) {
            Some(f) => if !callable(f) {
                Err(failure(ErrorKind::Name, "undefined operator function: "@ + fname))
            } else if param_count(f) != 2 {
                Err(failure(ErrorKind::Arity, "custom operator must bind to binary function"@))
            } else {
                Ok(f)
            },
            None => Err(failure(ErrorKind::Name, "undefined operator function: "@ + fname)),
        },
        None => Err(failure(ErrorKind::Name, "undefined custom operator: "@ + op)),
    }
}

/// The function of one parameter that a map names.
pub open spec fn map_function(name: Seq<char>, st: StateModel) -> Result<ValueModel, ErrorModel> {
    match lookup(st.env, name) {
        Some(f) => if !callable(f) {
            Err(failure(ErrorKind::Name, "undefined function: "@ + name))
        } else if param_count(f) != 1 {
            Err(failure(ErrorKind::Arity, "map function must be unary"@))
        } else {
            Ok(f)
        },
        None => Err(failure(ErrorKind::Name, "undefined function: "@ + name)),
    }
}

/// The value of a map: the list without keys of what the function makes of
/// each item of the list, in order.
pub open spec fn eval_map(e: ExprModel, st: StateModel, out: Seq<OutputModel>, depth: nat) -> Eval
    recommends
        e is MapWith,
    decreases depth, 3nat, e, 0nat,
{
    match e {
        ExprModel::MapWith(list, name) => {
            let rl = eval_model(*list, st, out, depth);
            match rl.res {
                Ok(ValueModel::List(items, _)) => match map_function(name, st) {
                    Ok(f) => list_of(map_from(f, items, 0, Seq::empty(), st, rl.out, depth)),
                    Err(x) => Eval { out: rl.out, res: Err(x) },
                },
                Ok(_) => failed(rl.out, ErrorKind::Type, "map left operand must be a list"@),
                Err(_) => rl,
            }
        },
        _ => done(out, ValueModel::Int(0)),
    }
}

/// What `f` makes of each item from position `i` on, after `acc`.
pub open spec fn map_from(
    f: ValueModel,
    items: Seq<ValueModel>,
    i: int,
    acc: Seq<ValueModel>,
    st: StateModel,
    out: Seq<OutputModel>,
    depth: nat,
) -> EvalMany
    decreases depth, 2nat, items, items.len() - i,
{
    if i < 0 || i >= items.len() {
        EvalMany { out, res: Ok(acc) }
    } else {
        let r = apply_model(f, seq![items[i]], st, out, depth);
        match r.res {
            Ok(v) => map_from(f, items, i + 1, acc.push(v), st, r.out, depth),
            Err(e) => EvalMany { out: r.out, res: Err(e) },
        }
    }
}

/// The value of an indexing: the list is evaluated first, and the index only
/// where that gave a list.
pub open spec fn eval_index(e: ExprModel, st: StateModel, out: Seq<OutputModel>, depth: nat) -> Eval
    recommends
        e is Index,
    decreases depth, 3nat, e, 0nat,
{
    match e {
        ExprModel::Index(list, index) => {
            let rl = eval_model(*list, st, out, depth);
            match rl.res {
                Ok(ValueModel::List(items, keys)) => {
                    let ri = eval_model(*index, st, rl.out, depth);
                    match ri.res {
                        Ok(iv) => Eval { out: ri.out, res: index_value(items, keys, iv) },
                        Err(_) => ri,
                    }
                },
                Ok(_) => failed(rl.out, ErrorKind::Type, "indexing requires a list"@),
                Err(_) => rl,
            }
        },
        _ => done(out, ValueModel::Int(0)),
    }
}

/// The result of applying a function to arguments. The number of arguments
/// is checked before anything is bound; the body runs in the environment
/// that the function captured, with the parameters bound in it. A native
/// function is the host's to run.
pub open spec fn apply_model(
    f: ValueModel,
    args: Seq<ValueModel>,
    st: StateModel,
    out: Seq<OutputModel>,
    depth: nat,
) -> Eval
    decreases depth, 1nat, f, 0nat,
{
    if !callable(f) {
        failed(out, ErrorKind::Type, "not a function"@)
    } else if args.len() != param_count(f) {
        failed(out, ErrorKind::Arity, arity_message(param_count(f), args.len()))
    } else if f is NativeFunc {
        native_call(f->NativeFunc_0, f->NativeFunc_1, args, st, out)
    } else if depth == 0 {
        Eval { out, res: Err(depth_failure()) }
    } else {
        match f {
            ValueModel::Func(params, body, fenv) => eval_model(
                body,
                with_env(st, bind_params(fenv, params, args, 0)),
                out,
                (depth - 1) as nat,
            ),
            ValueModel::FuncBlock(params, body, fenv) => function_result(
                run_from(
                    body,
                    0,
                    with_env(st, bind_params(fenv, params, args, 0)),
                    out,
                    (depth - 1) as nat,
                ),
            ),
            _ => done(out, ValueModel::Int(0)),
        }
    }
}

/// The value of a function whose body ran: the returned value, zero where
/// nothing was returned; `break` and `next` cannot leave a function.
pub open spec fn function_result(r: Run) -> Eval {
    Eval {
        out: r.out,
        res: match r.res {
            Ok(FlowModel::Return(Some(v))) => Ok(v),
            Ok(FlowModel::Return(None)) => Ok(ValueModel::Int(0)),
            Ok(FlowModel::Continue) => Ok(ValueModel::Int(0)),
            Ok(_) => Err(failure(ErrorKind::ControlFlow, "Unexpected control flow in function"@)),
            Err(e) => Err(e),
        },
    }
}

/// The value of a block expression whose statements ran: the returned
/// value, or that of the last expression statement.
pub open spec fn block_value(b: BlockRun) -> Eval {
    Eval {
        out: b.out,
        res: match b.res {
            Ok(Some(v)) => Ok(v),
            Ok(None) => Ok(b.last),
            Err(e) => Err(e),
        },
    }
}

/// The statements of a block expression from position `i` on, executed in
/// the block's own environment until one returns or fails.
pub open spec fn block_from(
    stmts: Seq<StmtModel>,
    i: int,
    env: EnvModel,
    last: ValueModel,
    st: StateModel,
    out: Seq<OutputModel>,
    depth: nat,
) -> BlockRun
    decreases depth, 3nat, stmts, stmts.len() - i,
{
    if i < 0 || i >= stmts.len() {
        BlockRun { out, env, last, res: Ok(None) }
    } else {
        let r = block_stmt(stmts[i], env, last, st, out, depth);
        match r.res {
            Ok(None) => block_from(stmts, i + 1, r.env, r.last, st, r.out, depth),
            _ => r,
        }
    }
}

/// One statement of a block expression. Only `let`, `print`, expression
/// statements, `return` and `if` may stand there.
pub open spec fn block_stmt(
    stmt: StmtModel,
    env: EnvModel,
    last: ValueModel,
    st: StateModel,
    out: Seq<OutputModel>,
    depth: nat,
) -> BlockRun
    decreases depth, 3nat, stmt, 0nat,
{
    match stmt {
        StmtModel::Let(name, e) => {
            let r = eval_model(e, with_env(st, env), out, depth);
            match r.res {
                Ok(v) => BlockRun { out: r.out, env: bind(env, name, v), last, res: Ok(None) },
                Err(x) => BlockRun { out: r.out, env, last, res: Err(x) },
            }
        },
        StmtModel::PrintExpr(e) => {
            let r = eval_model(e, with_env(st, env), out, depth);
            match r.res {
                Ok(v) => BlockRun {
                    out: r.out.push(OutputModel::Line(render(v))),
                    env,
                    last,
                    res: Ok(None),
                },
                Err(x) => BlockRun { out: r.out, env, last, res: Err(x) },
            }
        },
        StmtModel::ExprStmt(e) => {
            let r = eval_model(e, with_env(st, env), out, depth);
            match r.res {
                Ok(v) => BlockRun { out: r.out, env, last: v, res: Ok(None) },
                Err(x) => BlockRun { out: r.out, env, last, res: Err(x) },
            }
        },
        StmtModel::Return(Some(e)) => {
            let r = eval_model(e, with_env(st, env), out, depth);
            match r.res {
                Ok(v) => BlockRun { out: r.out, env, last, res: Ok(Some(v)) },
                Err(x) => BlockRun { out: r.out, env, last, res: Err(x) },
            }
        },
        StmtModel::Return(None) => BlockRun { out, env, last, res: Ok(Some(ValueModel::Int(0))) },
        StmtModel::If(c, t, other) => {
            let r = eval_model(c, with_env(st, env), out, depth);
            match r.res {
                Ok(v) => if truthy(v) {
                    block_stmt(*t, env, ValueModel::Int(0), st, r.out, depth)
                } else {
                    match other {
                        Some(o) => block_stmt(*o, env, ValueModel::Int(0), st, r.out, depth),
                        None => BlockRun { out: r.out, env, last, res: Ok(None) },
                    }
                },
                Err(x) => BlockRun { out: r.out, env, last, res: Err(x) },
            }
        },
        _ => BlockRun {
            out,
            env,
            last,
            res: Err(failure(ErrorKind::Structure, "unsupported statement in expression block"@)),
        },
    }
}

/// The statements from position `i` on, executed in order until one fails
/// or gives a signal other than `Continue`.
pub open spec fn run_from(
    stmts: Seq<StmtModel>,
    i: int,
    st: StateModel,
    out: Seq<OutputModel>,
    depth: nat,
) -> Run
    decreases depth, 3nat, stmts, stmts.len() - i,
{
    if i < 0 || i >= stmts.len() {
        proceed(out, st)
    } else {
        let r = exec_model(stmts[i], st, out, depth);
        match r.res {
            Ok(FlowModel::Continue) => run_from(stmts, i + 1, r.state, r.out, depth),
            _ => r,
        }
    }
}

/// A program at the top: a signal other than `Continue` that reaches it is a failure.
pub open spec fn top_result(r: Run) -> Run {
    Run {
        out: r.out,
        state: r.state,
        res: match r.res {
            Ok(FlowModel::Continue) => Ok(FlowModel::Continue),
            Ok(FlowModel::Return(_)) => Err(
                failure(ErrorKind::ControlFlow, "Return not allowed at top level"@),
            ),
            Ok(FlowModel::Break(_)) => Err(
                failure(ErrorKind::ControlFlow, "Break not allowed at top level"@),
            ),
            Ok(FlowModel::Next) => Err(
                failure(ErrorKind::ControlFlow, "Next not allowed at top level"@),
            ),
            Err(e) => Err(e),
        },
    }
}

/// The lines as items of the output log.
pub open spec fn line_items(lines: Seq<Seq<char>>) -> Seq<OutputModel> {
    Seq::new(lines.len(), |i: int| OutputModel::Line(lines[i]))
}

/// The lines that report what the registry answered to a statement: the
/// names of the types, the description of a type, or the line for a call;
/// a call that could not be made is a failure.
pub open spec fn report(answer: AnswerModel) -> Result<Seq<Seq<char>>, ErrorModel> {
    match answer {
        AnswerModel::Names(names) => Ok(type_list_model(names)),
        AnswerModel::Described(info) => Ok(type_model(info)),
        AnswerModel::Called(reply) => match answer_model(reply) {
            Ok(line) => Ok(seq![line]),
            Err(e) => Err(e),
        },
        _ => Err(failure(ErrorKind::Foreign, "unexpected answer"@)),
    }
}

/// A statement that asked the registry: the report of the answer is emitted.
pub open spec fn reported(a: Asking, st: StateModel) -> Run {
    match a.res {
        Ok(answer) => match report(answer) {
            Ok(lines) => proceed(a.out + line_items(lines), st),
            Err(e) => stopped(a.out, st, e),
        },
        Err(e) => stopped(a.out, st, e),
    }
}

/// The function that a `let_func` makes: one of a single expression where
/// the body is one expression statement, one of a statement list otherwise.
/// It holds the environment as it is at the definition.
pub open spec fn function_value(
    params: Seq<Seq<char>>,
    body: Seq<StmtModel>,
    env: EnvModel,
) -> ValueModel {
    if body.len() == 1 && body[0] is ExprStmt {
        ValueModel::Func(params, body[0]->ExprStmt_0, env)
    } else {
        ValueModel::FuncBlock(params, body, env)
    }
}

/// The effect of one statement.
pub open spec fn exec_model(
    stmt: StmtModel,
    st: StateModel,
    out: Seq<OutputModel>,
    depth: nat,
) -> Run
    decreases depth, 3nat, stmt, 1nat,
{
    match stmt {
        StmtModel::Let(name, e) => {
            let r = eval_model(e, st, out, depth);
            match r.res {
                Ok(v) => proceed(r.out, with_env(st, bind(st.env, name, v))),
                Err(x) => stopped(r.out, st, x),
            }
        },
        StmtModel::LetFunc(name, params, body) => proceed(
            out,
            with_env(st, bind(st.env, name, function_value(params, body, st.env))),
        ),
        StmtModel::PrintTemplate(tpl, None) => proceed(out.push(OutputModel::Line(tpl)), st),
        StmtModel::PrintTemplate(tpl, Some(e)) => {
            let r = eval_model(e, st, out, depth);
            match r.res {
                Ok(v) => proceed(r.out.push(OutputModel::Line(fill(tpl, render(v)))), st),
                Err(x) => stopped(r.out, st, x),
            }
        },
        StmtModel::PrintExpr(e) => {
            let r = eval_model(e, st, out, depth);
            match r.res {
                Ok(v) => proceed(r.out.push(OutputModel::Line(render(v))), st),
                Err(x) => stopped(r.out, st, x),
            }
        },
        StmtModel::RegOp(op, fname) => proceed(
            out,
            StateModel {
                env: st.env,
                ops: bind(st.ops, op, fname),
                test_mode: st.test_mode,
                handlers: st.handlers,
                answers: st.answers,
            },
        ),
        StmtModel::ListTypes => reported(ask(RequestModel::TypeNames, st.answers, out), st),
        StmtModel::ListType(name) => reported(
            ask(RequestModel::Describe(name), st.answers, out),
            st,
        ),
        StmtModel::Call(ty, op, args) => {
            let r = eval_ints(args, 0, Seq::empty(), st, out, depth);
            match r.res {
                Ok(ints) => reported(ask(RequestModel::Call(ty, op, ints), st.answers, r.out), st),
                Err(x) => stopped(r.out, st, x),
            }
        },
        StmtModel::RunList(_) => exec_run_list(stmt, st, out, depth),
        StmtModel::Return(Some(e)) => {
            let r = eval_model(e, st, out, depth);
            match r.res {
                Ok(v) => Run { out: r.out, state: st, res: Ok(FlowModel::Return(Some(v))) },
                Err(x) => stopped(r.out, st, x),
            }
        },
        StmtModel::Return(None) => Run { out, state: st, res: Ok(FlowModel::Return(None)) },
        StmtModel::ExprStmt(e) => {
            let r = eval_model(e, st, out, depth);
            match r.res {
                Ok(_) => proceed(r.out, st),
                Err(x) => stopped(r.out, st, x),
            }
        },
        StmtModel::Block(name, meta, body) => match lookup(st.handlers, name) {
            Some(h) => handle_model(h, meta, body, st, out, depth),
            None => stopped(out, st, failure(ErrorKind::Structure, "Unknown block type: "@ + name)),
        },
        StmtModel::If(c, t, other) => {
            let r = eval_model(c, st, out, depth);
            match r.res {
                Ok(v) => if truthy(v) {
                    exec_model(*t, st, r.out, depth)
                } else {
                    match other {
                        Some(o) => exec_model(*o, st, r.out, depth),
                        None => proceed(r.out, st),
                    }
                },
                Err(x) => stopped(r.out, st, x),
            }
        },
        StmtModel::Break(label) => Run { out, state: st, res: Ok(FlowModel::Break(label)) },
        StmtModel::Next => Run { out, state: st, res: Ok(FlowModel::Next) },
    }
}

/// Whether a list statement is a function application: its head is a symbol
/// that names a function.
pub open spec fn is_run_call(items: Seq<ExprModel>, env: EnvModel) -> bool {
    items.len() > 0 && match items[0] {
        ExprModel::Sym(name) => match lookup(env, name) {
            Some(f) => callable(f),
            None => false,
        },
        _ => false,
    }
}

/// The effect of a list statement. The empty list emits a line that says
/// so. An application emits the text of its result. Any other list is read
/// as a statement and run as a program of its own.
pub open spec fn exec_run_list(
    stmt: StmtModel,
    st: StateModel,
    out: Seq<OutputModel>,
    depth: nat,
) -> Run
    recommends
        stmt is RunList,
    decreases depth, 3nat, stmt, 0nat,
{
    match stmt {
        StmtModel::RunList(items) => if items.len() == 0 {
            proceed(out.push(OutputModel::Line("empty list"@)), st)
        } else if is_run_call(items, st.env) {
            let f = lookup(st.env, items[0]->Sym_0)->0;
            let a = eval_from(items, 1, Seq::empty(), st, out, depth);
            match a.res {
                Ok(vs) => {
                    let r = apply_model(f, vs, st, a.out, depth);
                    match r.res {
                        Ok(v) => proceed(r.out.push(OutputModel::Line(render(v))), st),
                        Err(x) => stopped(r.out, st, x),
                    }
                },
                Err(x) => stopped(a.out, st, x),
            }
        } else {
            match stmt_of_list(items) {
                Ok(s) => if depth == 0 {
                    stopped(out, st, depth_failure())
                } else {
                    top_result(run_from(seq![s], 0, st, out, (depth - 1) as nat))
                },
                Err(x) => stopped(out, st, x),
            }
        },
        _ => proceed(out, st),
    }
}

/// The expression inside any number of groupings.
pub open spec fn unwrap_group(e: ExprModel) -> ExprModel
    decreases e,
{
    match e {
        ExprModel::Group(inner) => unwrap_group(*inner),
        _ => e,
    }
}

/// The statements that the items from position `i` on encode, after `acc`:
/// each item that is a list is read as a statement, the others are passed over.
pub open spec fn lists_from(items: Seq<ItemModel>, i: int, acc: Seq<StmtModel>) -> Result<
    Seq<StmtModel>,
    ErrorModel,
>
    decreases items.len() - i,
{
    if i < 0 || i >= items.len() {
        Ok(acc)
    } else {
        match items[i].value {
            ExprModel::List(inner) => match stmt_of_list(item_values(inner)) {
                Ok(s) => lists_from(items, i + 1, acc.push(s)),
                Err(e) => Err(e),
            },
            _ => lists_from(items, i + 1, acc),
        }
    }
}

/// The statements of a `persist` or `step` entry of a loop's metadata. The
/// entry is a list: one statement where its first item is no list, a list
/// of statements where it is. `message` is the failure of an entry that is
/// no list.
pub open spec fn section_stmts(value: ExprModel, message: Seq<char>) -> Result<
    Seq<StmtModel>,
    ErrorModel,
> {
    match unwrap_group(value) {
        ExprModel::List(items) => if items.len() > 0 && !(items[0].value is List) {
            match stmt_of_list(item_values(items)) {
                Ok(s) => Ok(seq![s]),
                Err(e) => Err(e),
            }
        } else {
            lists_from(items, 0, Seq::empty())
        },
        _ => Err(malformed(message)),
    }
}

/// What the metadata from position `i` on adds to `plan`. A later entry
/// replaces an earlier one of the same key.
pub open spec fn plan_from(meta: Seq<ItemModel>, i: int, plan: LoopPlan) -> Result<
    LoopPlan,
    ErrorModel,
>
    decreases meta.len() - i,
{
    if i < 0 || i >= meta.len() {
        Ok(plan)
    } else {
        match meta[i].key {
            Some(k) => if k == "persist"@ {
                match section_stmts(meta[i].value, "persist must be a list"@) {
                    Ok(stmts) => plan_from(
                        meta,
                        i + 1,
                        LoopPlan { persist: stmts, step: plan.step, label: plan.label },
                    ),
                    Err(e) => Err(e),
                }
            } else if k == "step"@ {
                match section_stmts(meta[i].value, "step must be a list"@) {
                    Ok(stmts) => plan_from(
                        meta,
                        i + 1,
                        LoopPlan { persist: plan.persist, step: stmts, label: plan.label },
                    ),
                    Err(e) => Err(e),
                }
            } else if k == "name"@ && meta[i].value is Str {
                plan_from(
                    meta,
                    i + 1,
                    LoopPlan {
                        persist: plan.persist,
                        step: plan.step,
                        label: Some(meta[i].value->Str_0),
                    },
                )
            } else {
                plan_from(meta, i + 1, plan)
            },
            None => plan_from(meta, i + 1, plan),
        }
    }
}

/// The plan of a loop with the given metadata.
pub open spec fn loop_plan(meta: Seq<ItemModel>) -> Result<LoopPlan, ErrorModel> {
    plan_from(meta, 0, LoopPlan { persist: Seq::empty(), step: Seq::empty(), label: None })
}

/// The most rounds that a loop makes.
pub open spec fn round_cap(test_mode: bool) -> nat {
    if test_mode {
        100
    } else {
        1000
    }
}

/// What a signal met in a loop means for the loop: nothing where the loop
/// goes on, the signal that the loop hands to its caller where it ends.
/// `return` and a `break` with another label leave the loop as they are;
/// a `break` without a label or with the loop's own ends it normally.
pub open spec fn loop_exit(flow: FlowModel, label: Option<Seq<char>>) -> Option<FlowModel> {
    match flow {
        FlowModel::Return(v) => Some(FlowModel::Return(v)),
        FlowModel::Break(Some(target)) => if label == Some(target) {
            Some(FlowModel::Continue)
        } else {
            Some(FlowModel::Break(Some(target)))
        },
        FlowModel::Break(None) => Some(FlowModel::Continue),
        FlowModel::Next => None,
        FlowModel::Continue => None,
    }
}

/// The effect of a block whose keyword is bound to `h`.
pub open spec fn handle_model(
    h: BlockHandler,
    meta: Seq<ItemModel>,
    body: Seq<StmtModel>,
    st: StateModel,
    out: Seq<OutputModel>,
    depth: nat,
) -> Run
    decreases depth, 2nat, body, 0nat,
{
    match h {
        BlockHandler::Test => if !st.test_mode {
            proceed(out, st)
        } else if depth == 0 {
            stopped(out, st, depth_failure())
        } else {
            let r = run_from(body, 0, with_mode(st, false), out, (depth - 1) as nat);
            Run { out: r.out, state: restored(r.state, st), res: r.res }
        },
        BlockHandler::TestInit => if !st.test_mode {
            proceed(out, st)
        } else if depth == 0 {
            stopped(out, st, depth_failure())
        } else {
            let r = run_from(body, 0, with_mode(st, false), out, (depth - 1) as nat);
            Run { out: r.out, state: with_mode(r.state, st.test_mode), res: r.res }
        },
        BlockHandler::NoTest => if st.test_mode {
            proceed(out, st)
        } else if depth == 0 {
            stopped(out, st, depth_failure())
        } else {
            let r = run_from(body, 0, st, out, (depth - 1) as nat);
            Run { out: r.out, state: restored(r.state, st), res: r.res }
        },
        BlockHandler::Loop => match loop_plan(meta) {
            Ok(plan) => if depth == 0 {
                stopped(out, st, depth_failure())
            } else {
                let p = run_from(plan.persist, 0, st, out, (depth - 1) as nat);
                match p.res {
                    Ok(FlowModel::Continue) => loop_model(
                        body,
                        plan.step,
                        plan.label,
                        p.state,
                        st.env,
                        round_cap(st.test_mode),
                        p.out,
                        depth,
                    ),
                    _ => Run { out: p.out, state: with_env(p.state, st.env), res: p.res },
                }
            },
            Err(e) => stopped(out, st, e),
        },
    }
}

/// At most `rounds` rounds of a loop. `st` holds the loop's own environment;
/// each round runs the body in a copy of it, and then the step in it,
/// which may change it. The caller's environment `saved` is put back
/// however the loop ends.
pub open spec fn loop_model(
    body: Seq<StmtModel>,
    step: Seq<StmtModel>,
    label: Option<Seq<char>>,
    st: StateModel,
    saved: EnvModel,
    rounds: nat,
    out: Seq<OutputModel>,
    depth: nat,
) -> Run
    decreases depth, 1nat, body, rounds,
{
    if rounds == 0 || depth == 0 {
        proceed(out, with_env(st, saved))
    } else {
        let b = run_from(body, 0, st, out, (depth - 1) as nat);
        match b.res {
            Err(e) => stopped(b.out, with_env(b.state, saved), e),
            Ok(flow) => match loop_exit(flow, label) {
                Some(signal) => Run {
                    out: b.out,
                    state: with_env(b.state, saved),
                    res: Ok(signal),
                },
                None => {
                    let s = run_from(step, 0, with_env(b.state, st.env), b.out, (depth - 1) as nat);
                    match s.res {
                        Err(e) => stopped(s.out, with_env(s.state, saved), e),
                        Ok(after) => match loop_exit(after, label) {
                            Some(signal) => Run {
                                out: s.out,
                                state: with_env(s.state, saved),
                                res: Ok(signal),
                            },
                            None => loop_model(
                                body,
                                step,
                                label,
                                s.state,
                                saved,
                                (rounds - 1) as nat,
                                s.out,
                                depth,
                            ),
                        },
                    }
                },
            },
        }
    }
}

} // verus!
