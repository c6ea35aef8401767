//! The interpreter: expressions are evaluated and statements executed as
//! the semantics say.

use vstd::prelude::*;
use vstd::string::StringExecFns;
use crate::arith::{int_op, operand_error};
use crate::assoc::{bind, entry_names, lookup, names, position};
use crate::ast::{
    clone_opt_string, clone_stmts, clone_strings, exprs_view, items_view, opt_string_view,
    stmts_view, strings_view, BinOp, Expr, ExprModel, ListItem, Stmt, StmtModel,
};
use crate::listform::{list_to_stmt, values_of_items};
use crate::registry::{call_answer, lines_view, type_lines, type_list_lines};
use crate::semantics::{
    all_accepted, apply_model, arity_message, ask, asked, binary_value, bind_params, block_from,
    block_stmt, block_value, depth_failure, eval_args, eval_binary, eval_call, eval_custom,
    eval_from, eval_if, eval_index, eval_ints, eval_items, eval_list, eval_map, eval_method,
    eval_model, eval_op_args, exec_model, exec_run_list, failure, function_value, handle_model,
    head_name, index_value, invoke, invoked_value, is_application, is_run_call, line_items,
    lists_from, loop_exit, loop_model, loop_plan, map_from, map_function, native_call, native_value,
    operator_function, plan_from, report, reported, resolve_from, run_from, section_stmts,
    top_result, type_receiver, unwrap_group, value_of, with_env, Asking, BlockHandler, BlockRun,
    Eval, EvalArgs, EvalInts, EvalMany, HandlersModel, LoopPlan, Run, StateModel,
};
use crate::text::{fill_template, joined, str_eq, usize_to_string};
use crate::value::{
    answers_view, clone_answers, clone_pairs, clone_values, keys_get, keys_put, keys_view,
    outputs_view, pairs_get, pairs_put, pairs_view, param_count, to_string, values_view, Answer,
    AnswerModel, Arg, ControlFlow, Env, EnvModel, Error, ErrorKind, ErrorModel, FlowModel, Output,
    OutputModel, ParamType, Request, Value, ValueModel,
};
use crate::replay::{law_run_faithful};
use crate::wellformed::{law_eval_ok, law_run_ok, result_ok, state_ok};

verus! {

/// What an interpreter holds besides its environment: the custom operators
/// with the functions they name, the mode, the block keywords with
/// what they do, and the answers of the host.
#[derive(Debug)]
pub struct Context {
    pub ops: Vec<(String, String)>,
    pub test_mode: bool,
    pub handlers: Vec<(String, BlockHandler)>,
    /// What the host has answered so far, in the order of the requests.
    pub answers: Vec<Answer>,
}

/// An interpreter.
#[derive(Debug)]
pub struct Interpreter {
    pub env: Env,
    pub ctx: Context,
    /// How far function bodies, blocks and list-encoded statements may nest.
    pub max_depth: usize,
}

/// The model of the block keywords.
pub open spec fn handlers_view(s: Seq<(String, BlockHandler)>) -> HandlersModel {
    Seq::new(s.len(), |i: int| (s[i].0@, s[i].1))
}

impl Context {
    /// The model of an interpreter with this context and the environment `env`.
    pub open spec fn state(&self, env: EnvModel) -> StateModel {
        StateModel {
            env,
            ops: pairs_view(self.ops@),
            test_mode: self.test_mode,
            handlers: handlers_view(self.handlers@),
            answers: answers_view(self.answers@),
        }
    }

    fn duplicate(&self) -> (r: Context)
        ensures
            forall|env: EnvModel| #[trigger] r.state(env) == self.state(env),
    {
        let mut handlers: Vec<(String, BlockHandler)> = Vec::new();
        let mut i: usize = 0;
        while i < self.handlers.len()
            invariant
                i <= self.handlers.len(),
                handlers.len() == i,
                forall|j: int|
                    0 <= j < i ==> (#[trigger] handlers[j]).0@ == self.handlers[j].0@
                        && handlers[j].1 == self.handlers[j].1,
            decreases self.handlers.len() - i,
        {
            handlers.push((self.handlers[i].0.clone(), self.handlers[i].1));
            i += 1;
        }
        assert(handlers_view(handlers@) =~= handlers_view(self.handlers@));
        Context {
            ops: clone_pairs(&self.ops),
            test_mode: self.test_mode,
            handlers,
            answers: clone_answers(&self.answers),
        }
    }
}

impl Interpreter {
    pub open spec fn view(&self) -> StateModel {
        self.ctx.state(self.env.view())
    }
}

impl Clone for Interpreter {
    fn clone(&self) -> (r: Self)
        ensures
            r.view() == self.view(),
            r.max_depth == self.max_depth,
    {
        Interpreter { env: self.env.clone(), ctx: self.ctx.duplicate(), max_depth: self.max_depth }
    }
}

/// The model of the outcome of an evaluation.
pub open spec fn eval_outcome(out: Seq<Output>, r: Result<Value, Error>) -> Eval {
    Eval {
        out: outputs_view(out),
        res: match r {
            Ok(v) => Ok(v.view()),
            Err(e) => Err(e.view()),
        },
    }
}

/// The model of the outcome of evaluating several expressions.
pub open spec fn many_outcome(out: Seq<Output>, r: Result<Vec<Value>, Error>) -> EvalMany {
    EvalMany {
        out: outputs_view(out),
        res: match r {
            Ok(v) => Ok(values_view(v@)),
            Err(e) => Err(e.view()),
        },
    }
}

/// The model of the outcome of executing statements.
pub open spec fn run_outcome(
    out: Seq<Output>,
    state: StateModel,
    r: Result<ControlFlow, Error>,
) -> Run {
    Run {
        out: outputs_view(out),
        state,
        res: match r {
            Ok(f) => Ok(f.view()),
            Err(e) => Err(e.view()),
        },
    }
}

/// The model of the outcome of one statement of a block expression.
pub open spec fn block_outcome(
    out: Seq<Output>,
    env: EnvModel,
    last: ValueModel,
    r: Result<Option<Value>, Error>,
) -> BlockRun {
    BlockRun {
        out: outputs_view(out),
        env,
        last,
        res: match r {
            Ok(Some(v)) => Ok(Some(v.view())),
            Ok(None) => Ok(None),
            Err(e) => Err(e.view()),
        },
    }
}

fn error(kind: ErrorKind, message: &str) -> (r: Error)
    ensures
        r.view() == failure(kind, message@),
{
    Error { kind, message: String::from_str(message) }
}

fn error_about(kind: ErrorKind, prefix: &str, name: &str) -> (r: Error)
    ensures
        r.view() == failure(kind, prefix@ + name@),
{
    Error { kind, message: joined(prefix, name) }
}

fn depth_error() -> (r: Error)
    ensures
        r.view() == depth_failure(),
{
    error(ErrorKind::Depth, "depth limit exceeded")
}

fn emit(out: &mut Vec<Output>, item: Output)
    ensures
        outputs_view(final(out)@) == outputs_view(old(out)@).push(item.view()),
{
    out.push(item);
    assert(outputs_view(out@) =~= outputs_view(old(out)@).push(item.view()));
}

fn push_result(vals: &mut Vec<Value>, v: Value)
    ensures
        values_view(final(vals)@) == values_view(old(vals)@).push(v.view()),
{
    vals.push(v);
    assert(values_view(vals@) =~= values_view(old(vals)@).push(v.view()));
}

fn no_values() -> (r: Vec<Value>)
    ensures
        values_view(r@) == Seq::<ValueModel>::empty(),
{
    let r: Vec<Value> = Vec::new();
    assert(values_view(r@) =~= Seq::<ValueModel>::empty());
    r
}

fn no_keys() -> (r: Vec<(String, usize)>)
    ensures
        keys_view(r@) == Seq::<(Seq<char>, nat)>::empty(),
{
    let r: Vec<(String, usize)> = Vec::new();
    assert(keys_view(r@) =~= Seq::<(Seq<char>, nat)>::empty());
    r
}

/// The operator and the operands of an expression with an integer operator.
fn operands(e: &Expr) -> (r: (BinOp, &Expr, &Expr))
    requires
        e.view() is Binary,
    ensures
        e.view() == ExprModel::Binary(r.0, Box::new(r.1.view()), Box::new(r.2.view())),
        decreases_to!(e => r.1),
        decreases_to!(e => r.2),
{
    match e {
        Expr::Add(a, b) => (BinOp::Add, a, b),
        Expr::Sub(a, b) => (BinOp::Sub, a, b),
        Expr::Mul(a, b) => (BinOp::Mul, a, b),
        Expr::Div(a, b) => (BinOp::Div, a, b),
        Expr::Mod(a, b) => (BinOp::Mod, a, b),
        Expr::Pow(a, b) => (BinOp::Pow, a, b),
        Expr::Gt(a, b) => (BinOp::Gt, a, b),
        Expr::Lt(a, b) => (BinOp::Lt, a, b),
        _ => {
            assert(false);
            (BinOp::Add, e, e)
        },
    }
}

/// Evaluates an expression in `env`. Where the environment and the
/// answers of the host are well-formed, so is the value.
pub fn eval(e: &Expr, env: &Env, ctx: &Context, out: &mut Vec<Output>, depth: usize) -> (r: Result<
    Value,
    Error,
>)
    ensures
        eval_outcome(final(out)@, r) == eval_model(
            e.view(),
            ctx.state(env.view()),
            outputs_view(old(out)@),
            depth as nat,
        ),
        state_ok(ctx.state(env.view())) ==> result_ok(eval_outcome(final(out)@, r).res),
    decreases depth, 3nat, e, 1nat,
{
    proof {
        if state_ok(ctx.state(env.view())) {
            law_eval_ok(e.view(), ctx.state(env.view()), outputs_view(out@), depth as nat);
        }
    }
    match e {
        Expr::Int(i) => Ok(Value::Int(*i)),
        Expr::Str(s) => Ok(Value::Str(s.clone())),
        Expr::Sym(s) => Ok(Value::Sym(s.clone())),
        Expr::Var(name) => match env.get(name.as_str()) {
            Some(v) => Ok(v.clone()),
            None => Err(error_about(ErrorKind::Name, "undefined variable: ", name.as_str())),
        },
        Expr::Block(stmts) => eval_block_expr(stmts, env, ctx, out, depth),
        Expr::BlockNoValue(stmts) => match eval_block_expr(stmts, env, ctx, out, depth) {
            Ok(_) => Ok(Value::Int(0)),
            Err(x) => Err(x),
        },
        Expr::SList(items) => match eval_seq(items, 0, env, ctx, out, depth) {
            Ok(vs) => Ok(Value::List(vs, no_keys())),
            Err(x) => Err(x),
        },
        Expr::List(_) => eval_list_expr(e, env, ctx, out, depth),
        Expr::Call(_, _) => eval_call_expr(e, env, ctx, out, depth),
        Expr::If(_, _, _) => eval_if_expr(e, env, ctx, out, depth),
        Expr::Custom(_, _, _) => eval_custom_expr(e, env, ctx, out, depth),
        Expr::MapWith(_, _) => eval_map_expr(e, env, ctx, out, depth),
        Expr::Group(inner) => eval(inner, env, ctx, out, depth),
        Expr::Index(_, _) => eval_index_expr(e, env, ctx, out, depth),
        Expr::Method(_, _, _) => eval_method_expr(e, env, ctx, out, depth),
        _ => eval_binary_expr(e, env, ctx, out, depth),
    }
}

/// Evaluates the expressions from position `from` on, in order.
fn eval_seq(
    es: &Vec<Expr>,
    from: usize,
    env: &Env,
    ctx: &Context,
    out: &mut Vec<Output>,
    depth: usize,
) -> (r: Result<Vec<Value>, Error>)
    ensures
        many_outcome(final(out)@, r) == eval_from(
            exprs_view(es@),
            from as int,
            Seq::empty(),
            ctx.state(env.view()),
            outputs_view(old(out)@),
            depth as nat,
        ),
    decreases depth, 3nat, es, es.len() + 1,
{
    let mut vals = no_values();
    let mut i: usize = from;
    let ghost st = ctx.state(env.view());
    let ghost ms = exprs_view(es@);
    while i < es.len()
        invariant
            ms == exprs_view(es@),
            st == ctx.state(env.view()),
            eval_from(ms, from as int, Seq::empty(), st, outputs_view(old(out)@), depth as nat)
                == eval_from(
                    ms,
                    i as int,
                    values_view(vals@),
                    st,
                    outputs_view(out@),
                    depth as nat,
                ),
        decreases es.len() - i,
    {
        proof {
            assert(decreases_to!(es => es[i as int]));
        }
        match eval(&es[i], env, ctx, out, depth) {
            Ok(v) => {
                push_result(&mut vals, v);
            },
            Err(x) => {
                return Err(x);
            },
        }
        i += 1;
    }
    Ok(vals)
}

/// Evaluates an expression with an integer operator.
fn eval_binary_expr(e: &Expr, env: &Env, ctx: &Context, out: &mut Vec<Output>, depth: usize) -> (r:
    Result<Value, Error>)
    requires
        e.view() is Binary,
    ensures
        eval_outcome(final(out)@, r) == eval_binary(
            e.view(),
            ctx.state(env.view()),
            outputs_view(old(out)@),
            depth as nat,
        ),
    decreases depth, 3nat, e, 0nat,
{
    let (op, a, b) = operands(e);
    let va = match eval(a, env, ctx, out, depth) {
        Ok(v) => v,
        Err(x) => {
            return Err(x);
        },
    };
    let vb = match eval(b, env, ctx, out, depth) {
        Ok(v) => v,
        Err(x) => {
            return Err(x);
        },
    };
    binary(op, &va, &vb, Ghost(outputs_view(out@)))
}

/// Applies an integer operator to two values.
fn binary(op: BinOp, va: &Value, vb: &Value, Ghost(out): Ghost<Seq<OutputModel>>) -> (r: Result<
    Value,
    Error,
>)
    ensures
        (Eval {
            out,
            res: match r {
                Ok(v) => Ok(v.view()),
                Err(e) => Err(e.view()),
            },
        }) == binary_value(op, va.view(), vb.view(), out),
{
    match (va, vb) {
        (Value::Int(x), Value::Int(y)) => match int_op(op, *x, *y) {
            Ok(z) => Ok(Value::Int(z)),
            Err(x) => Err(x),
        },
        _ => Err(operand_error(op)),
    }
}

/// Evaluates a conditional expression.
fn eval_if_expr(e: &Expr, env: &Env, ctx: &Context, out: &mut Vec<Output>, depth: usize) -> (r:
    Result<Value, Error>)
    requires
        e.view() is If,
    ensures
        eval_outcome(final(out)@, r) == eval_if(
            e.view(),
            ctx.state(env.view()),
            outputs_view(old(out)@),
            depth as nat,
        ),
    decreases depth, 3nat, e, 0nat,
{
    match e {
        Expr::If(c, t, other) => {
            let v = match eval(c, env, ctx, out, depth) {
                Ok(v) => v,
                Err(x) => {
                    return Err(x);
                },
            };
            if v.is_truthy() {
                eval(t, env, ctx, out, depth)
            } else {
                match other {
                    Some(o) => eval(o, env, ctx, out, depth),
                    None => Ok(Value::Int(0)),
                }
            }
        },
        _ => Ok(Value::Int(0)),
    }
}

/// Evaluates an indexing.
fn eval_index_expr(e: &Expr, env: &Env, ctx: &Context, out: &mut Vec<Output>, depth: usize) -> (r:
    Result<Value, Error>)
    requires
        e.view() is Index,
    ensures
        eval_outcome(final(out)@, r) == eval_index(
            e.view(),
            ctx.state(env.view()),
            outputs_view(old(out)@),
            depth as nat,
        ),
    decreases depth, 3nat, e, 0nat,
{
    match e {
        Expr::Index(list, index) => {
            let lv = match eval(list, env, ctx, out, depth) {
                Ok(v) => v,
                Err(x) => {
                    return Err(x);
                },
            };
            match lv {
                Value::List(items, keys) => {
                    let iv = match eval(index, env, ctx, out, depth) {
                        Ok(v) => v,
                        Err(x) => {
                            return Err(x);
                        },
                    };
                    item_at(&items, &keys, &iv)
                },
                _ => Err(error(ErrorKind::Type, "indexing requires a list")),
            }
        },
        _ => Ok(Value::Int(0)),
    }
}

/// The item of a list at a position or under a key.
pub fn item_at(items: &Vec<Value>, keys: &Vec<(String, usize)>, index: &Value) -> (r: Result<
    Value,
    Error,
>)
    ensures
        match r {
            Ok(v) => index_value(values_view(items@), keys_view(keys@), index.view()) == Ok::<
                ValueModel,
                ErrorModel,
            >(v.view()),
            Err(e) => index_value(values_view(items@), keys_view(keys@), index.view()) == Err::<
                ValueModel,
                ErrorModel,
            >(e.view()),
        },
{
    match index {
        Value::Int(i) => {
            if *i >= 0 && (*i as u64) < (items.len() as u64) {
                Ok(items[*i as usize].clone())
            } else {
                Err(error(ErrorKind::Lookup, "index out of range"))
            }
        },
        Value::Str(s) => match keys_get(keys, s.as_str()) {
            Some(at) => {
                if at < items.len() {
                    Ok(items[at].clone())
                } else {
                    Err(error(ErrorKind::Lookup, "index out of range"))
                }
            },
            None => Err(error(ErrorKind::Lookup, "key not found")),
        },
        _ => Err(error(ErrorKind::Type, "index must be int or string")),
    }
}

/// The environment that a function's body runs in.
fn bind_args(fenv: &Env, params: &Vec<String>, args: &Vec<Value>) -> (r: Env)
    requires
        params.len() == args.len(),
    ensures
        r.view() == bind_params(fenv.view(), strings_view(params@), values_view(args@), 0),
{
    let mut env = fenv.clone();
    let mut i: usize = 0;
    let ghost ps = strings_view(params@);
    let ghost vs = values_view(args@);
    while i < params.len()
        invariant
            i <= params.len(),
            params.len() == args.len(),
            ps == strings_view(params@),
            vs == values_view(args@),
            bind_params(fenv.view(), ps, vs, 0) == bind_params(env.view(), ps, vs, i as int),
        decreases params.len() - i,
    {
        env.insert(params[i].clone(), args[i].clone());
        i += 1;
    }
    env
}

fn arity_error(expected: usize, got: usize) -> (r: Error)
    ensures
        r.view() == failure(ErrorKind::Arity, arity_message(expected as nat, got as nat)),
{
    let mut message = String::from_str("arity mismatch: expected ");
    message.append(usize_to_string(expected).as_str());
    message.append(", got ");
    message.append(usize_to_string(got).as_str());
    Error { kind: ErrorKind::Arity, message }
}

/// The number of requests that the log records.
pub fn count_asked(out: &Vec<Output>) -> (r: usize)
    ensures
        r == asked(outputs_view(out@)),
{
    let mut n: usize = 0;
    let mut i: usize = 0;
    let ghost log = outputs_view(out@);
    assert(log.take(0) =~= Seq::<OutputModel>::empty());
    while i < out.len()
        invariant
            i <= out.len(),
            n <= i,
            log == outputs_view(out@),
            n == asked(log.take(i as int)),
        decreases out.len() - i,
    {
        proof {
            assert(log.take(i + 1).drop_last() =~= log.take(i as int));
            assert(log.take(i + 1).last() == out[i as int].view());
        }
        match &out[i] {
            Output::Asked(_) => {
                n += 1;
            },
            _ => {},
        }
        i += 1;
    }
    assert(log.take(out.len() as int) =~= log);
    n
}

/// The request that a run with the log `out` is waiting on: the last item
/// of the log, where the log records more requests than there are answers
/// and ends with a request.
pub fn pending_request<'a>(out: &'a Vec<Output>, answers: &Vec<Answer>) -> (r: Option<&'a Request>)
    ensures
        match r {
            Some(request) => asked(outputs_view(out@)) > answers.len() && out.len() > 0
                && outputs_view(out@).last() == OutputModel::Asked(request.view()),
            None => asked(outputs_view(out@)) <= answers.len() || out.len() == 0 || !(
            outputs_view(out@).last() is Asked),
        },
{
    if count_asked(out) <= answers.len() || out.len() == 0 {
        return None;
    }
    match &out[out.len() - 1] {
        Output::Asked(request) => Some(request),
        _ => None,
    }
}

/// Makes a request of the host: records it, and hands back the answer
/// that the host gave to the request of this number.
fn ask_host(request: Request, ctx: &Context, out: &mut Vec<Output>) -> (r: Result<Answer, Error>)
    ensures
        (Asking {
            out: outputs_view(final(out)@),
            res: match r {
                Ok(a) => Ok(a.view()),
                Err(e) => Err(e.view()),
            },
        }) == ask(request.view(), answers_view(ctx.answers@), outputs_view(old(out)@)),
{
    let k = count_asked(out);
    emit(out, Output::Asked(request));
    if k < ctx.answers.len() {
        Ok(ctx.answers[k].clone())
    } else {
        Err(error(ErrorKind::Pending, "host answer pending"))
    }
}

/// Calls a native function: the host is asked once the arguments are of
/// the kinds that the parameters take.
fn call_native(
    params: &Vec<ParamType>,
    name: &String,
    args: &Vec<Value>,
    env: &Env,
    ctx: &Context,
    out: &mut Vec<Output>,
) -> (r: Result<Value, Error>)
    requires
        params.len() == args.len(),
    ensures
        eval_outcome(final(out)@, r) == native_call(
            params@,
            name@,
            values_view(args@),
            ctx.state(env.view()),
            outputs_view(old(out)@),
        ),
{
    let mut i: usize = 0;
    let ghost vs = values_view(args@);
    while i < params.len()
        invariant
            i <= params.len(),
            params.len() == args.len(),
            vs == values_view(args@),
            all_accepted(params@, vs, 0) == all_accepted(params@, vs, i as int),
        decreases params.len() - i,
    {
        if !params[i].takes(&args[i]) {
            return Err(error(ErrorKind::Type, "argument type mismatch"));
        }
        i += 1;
    }
    let request = Request::Native(name.clone(), clone_values(args), env.clone());
    match ask_host(request, ctx, out) {
        Ok(Answer::Returned(v)) => Ok(v),
        Ok(Answer::Raised(e)) => Err(e),
        Ok(_) => Err(error(ErrorKind::Foreign, "unexpected answer")),
        Err(e) => Err(e),
    }
}

/// Applies a function to arguments.
fn apply(
    f: &Value,
    args: &Vec<Value>,
    env: &Env,
    ctx: &Context,
    out: &mut Vec<Output>,
    depth: usize,
) -> (r: Result<Value, Error>)
    ensures
        eval_outcome(final(out)@, r) == apply_model(
            f.view(),
            values_view(args@),
            ctx.state(env.view()),
            outputs_view(old(out)@),
            depth as nat,
        ),
    decreases depth, 1nat, f, 0nat,
{
    match f {
        Value::Func(params, body, fenv) => {
            if args.len() != params.len() {
                return Err(arity_error(params.len(), args.len()));
            }
            if depth == 0 {
                return Err(depth_error());
            }
            let call_env = bind_args(fenv, params, args);
            eval(body, &call_env, ctx, out, depth - 1)
        },
        Value::FuncBlock(params, body, fenv) => {
            if args.len() != params.len() {
                return Err(arity_error(params.len(), args.len()));
            }
            if depth == 0 {
                return Err(depth_error());
            }
            let call_env = bind_args(fenv, params, args);
            let mut inner = Interpreter { env: call_env, ctx: ctx.duplicate(), max_depth: depth };
            match run_stmts(&mut inner, body, out, depth - 1) {
                Ok(ControlFlow::Return(Some(v))) => Ok(v),
                Ok(ControlFlow::Return(None)) => Ok(Value::Int(0)),
                Ok(ControlFlow::Continue) => Ok(Value::Int(0)),
                Ok(_) => Err(error(ErrorKind::ControlFlow, "Unexpected control flow in function")),
                Err(x) => Err(x),
            }
        },
        Value::NativeFunc(params, name) => {
            if args.len() != params.len() {
                return Err(arity_error(params.len(), args.len()));
            }
            call_native(params, name, args, env, ctx, out)
        },
        _ => Err(error(ErrorKind::Type, "not a function")),
    }
}

/// The model of the outcome of evaluating the arguments of an operation.
pub open spec fn args_outcome(out: Seq<Output>, r: Result<Vec<Arg>, Error>) -> EvalArgs {
    EvalArgs {
        out: outputs_view(out),
        res: match r {
            Ok(v) => Ok(v@),
            Err(e) => Err(e.view()),
        },
    }
}

/// Evaluates the arguments of an operation: each must give an integer or
/// an object.
fn eval_op_arg_exprs(
    es: &Vec<Expr>,
    env: &Env,
    ctx: &Context,
    out: &mut Vec<Output>,
    depth: usize,
) -> (r: Result<Vec<Arg>, Error>)
    ensures
        args_outcome(final(out)@, r) == eval_op_args(
            exprs_view(es@),
            0,
            Seq::empty(),
            ctx.state(env.view()),
            outputs_view(old(out)@),
            depth as nat,
        ),
    decreases depth, 3nat, es, es.len() + 1,
{
    let mut vals: Vec<Arg> = Vec::new();
    let mut i: usize = 0;
    let ghost st = ctx.state(env.view());
    let ghost ms = exprs_view(es@);
    assert(vals@ =~= Seq::<Arg>::empty());
    while i < es.len()
        invariant
            ms == exprs_view(es@),
            st == ctx.state(env.view()),
            eval_op_args(ms, 0, Seq::empty(), st, outputs_view(old(out)@), depth as nat)
                == eval_op_args(ms, i as int, vals@, st, outputs_view(out@), depth as nat),
        decreases es.len() - i,
    {
        proof {
            assert(decreases_to!(es => es[i as int]));
        }
        match eval(&es[i], env, ctx, out, depth) {
            Ok(Value::Int(n)) => {
                vals.push(Arg::Int(n));
            },
            Ok(Value::Object(handle, _)) => {
                vals.push(Arg::Object(handle));
            },
            Ok(Value::Str(_)) => {
                return Err(error(ErrorKind::Type, "string args not supported"));
            },
            Ok(_) => {
                return Err(error(ErrorKind::Type, "unsupported arg type"));
            },
            Err(x) => {
                return Err(x);
            },
        }
        i += 1;
    }
    Ok(vals)
}

/// Invokes an operation whose arguments are evaluated.
fn invoke_op(
    ty: String,
    op: String,
    receiver: Option<u64>,
    args: Vec<Arg>,
    ctx: &Context,
    Ghost(env): Ghost<EnvModel>,
    out: &mut Vec<Output>,
) -> (r: Result<Value, Error>)
    ensures
        eval_outcome(final(out)@, r) == invoke(
            ty@,
            op@,
            receiver,
            EvalArgs { out: outputs_view(old(out)@), res: Ok(args@) },
            ctx.state(env),
        ),
{
    match ask_host(Request::Invoke(ty, op, receiver, args), ctx, out) {
        Ok(Answer::Int(v)) => Ok(Value::Int(v)),
        Ok(Answer::Object(handle, name)) => Ok(Value::Object(handle, name)),
        Ok(Answer::Failed(_)) => Err(error(ErrorKind::Foreign, "op call failed")),
        Ok(_) => Err(error(ErrorKind::Foreign, "unexpected answer")),
        Err(e) => Err(e),
    }
}

/// The name of the type that a bare receiver stands for, if it stands for one.
fn receiver_type(receiver: &Expr, env: &Env) -> (r: Option<String>)
    ensures
        match r {
            Some(t) => type_receiver(receiver.view(), env.view()) == Some(t@),
            None => type_receiver(receiver.view(), env.view()).is_none(),
        },
{
    match receiver {
        Expr::Sym(t) => Some(t.clone()),
        Expr::Var(t) => match env.get(t.as_str()) {
            Some(_) => None,
            None => Some(t.clone()),
        },
        _ => None,
    }
}

/// Evaluates a method call.
fn eval_method_expr(e: &Expr, env: &Env, ctx: &Context, out: &mut Vec<Output>, depth: usize) -> (r:
    Result<Value, Error>)
    requires
        e.view() is Method,
    ensures
        eval_outcome(final(out)@, r) == eval_method(
            e.view(),
            ctx.state(env.view()),
            outputs_view(old(out)@),
            depth as nat,
        ),
    decreases depth, 3nat, e, 0nat,
{
    match e {
        Expr::Method(receiver, op, args) => match receiver_type(receiver, env) {
            Some(ty) => {
                let a = match eval_op_arg_exprs(args, env, ctx, out, depth) {
                    Ok(a) => a,
                    Err(x) => {
                        return Err(x);
                    },
                };
                invoke_op(ty, op.clone(), None, a, ctx, Ghost(env.view()), out)
            },
            None => {
                let target = match eval(receiver, env, ctx, out, depth) {
                    Ok(v) => v,
                    Err(x) => {
                        return Err(x);
                    },
                };
                match target {
                    Value::Object(handle, ty) => {
                        let a = match eval_op_arg_exprs(args, env, ctx, out, depth) {
                            Ok(a) => a,
                            Err(x) => {
                                return Err(x);
                            },
                        };
                        invoke_op(ty, op.clone(), Some(handle), a, ctx, Ghost(env.view()), out)
                    },
                    _ => Err(error(ErrorKind::Type, "method call requires an object")),
                }
            },
        },
        _ => Ok(Value::Int(0)),
    }
}

/// Evaluates a block expression: its statements run in a copy of `env`.
fn eval_block_expr(
    stmts: &Vec<Stmt>,
    env: &Env,
    ctx: &Context,
    out: &mut Vec<Output>,
    depth: usize,
) -> (r: Result<Value, Error>)
    ensures
        eval_outcome(final(out)@, r) == block_value(
            block_from(
                stmts_view(stmts@),
                0,
                env.view(),
                ValueModel::Int(0),
                ctx.state(env.view()),
                outputs_view(old(out)@),
                depth as nat,
            ),
        ),
    decreases depth, 3nat, stmts, stmts.len() + 1,
{
    let mut scope = env.clone();
    let mut last = Value::Int(0);
    let mut i: usize = 0;
    let ghost st = ctx.state(env.view());
    let ghost ms = stmts_view(stmts@);
    while i < stmts.len()
        invariant
            ms == stmts_view(stmts@),
            st == ctx.state(env.view()),
            block_from(
                ms,
                0,
                env.view(),
                ValueModel::Int(0),
                st,
                outputs_view(old(out)@),
                depth as nat,
            ) == block_from(
                ms,
                i as int,
                scope.view(),
                last.view(),
                st,
                outputs_view(out@),
                depth as nat,
            ),
        decreases stmts.len() - i,
    {
        proof {
            assert(decreases_to!(stmts => stmts[i as int]));
        }
        match block_step(&stmts[i], &mut scope, &mut last, ctx, Ghost(st), out, depth) {
            Ok(None) => {},
            Ok(Some(v)) => {
                return Ok(v);
            },
            Err(x) => {
                return Err(x);
            },
        }
        i += 1;
    }
    Ok(last)
}

/// Executes one statement of a block expression.
fn block_step(
    stmt: &Stmt,
    scope: &mut Env,
    last: &mut Value,
    ctx: &Context,
    Ghost(st): Ghost<StateModel>,
    out: &mut Vec<Output>,
    depth: usize,
) -> (r: Result<Option<Value>, Error>)
    requires
        with_env(st, old(scope).view()) == ctx.state(old(scope).view()),
    ensures
        block_outcome(final(out)@, final(scope).view(), final(last).view(), r) == block_stmt(
            stmt.view(),
            old(scope).view(),
            old(last).view(),
            st,
            outputs_view(old(out)@),
            depth as nat,
        ),
    decreases depth, 3nat, stmt, 0nat,
{
    match stmt {
        Stmt::Let(name, e) => {
            let v = match eval(e, scope, ctx, out, depth) {
                Ok(v) => v,
                Err(x) => {
                    return Err(x);
                },
            };
            scope.insert(name.clone(), v);
            Ok(None)
        },
        Stmt::PrintExpr(e) => {
            let v = match eval(e, scope, ctx, out, depth) {
                Ok(v) => v,
                Err(x) => {
                    return Err(x);
                },
            };
            emit(out, Output::Line(to_string(&v)));
            Ok(None)
        },
        Stmt::ExprStmt(e) => {
            let v = match eval(e, scope, ctx, out, depth) {
                Ok(v) => v,
                Err(x) => {
                    return Err(x);
                },
            };
            *last = v;
            Ok(None)
        },
        Stmt::Return(Some(e)) => {
            match eval(e, scope, ctx, out, depth) {
                Ok(v) => Ok(Some(v)),
                Err(x) => Err(x),
            }
        },
        Stmt::Return(None) => Ok(Some(Value::Int(0))),
        Stmt::If(c, t, other) => {
            let v = match eval(c, scope, ctx, out, depth) {
                Ok(v) => v,
                Err(x) => {
                    return Err(x);
                },
            };
            if v.is_truthy() {
                *last = Value::Int(0);
                block_step(t, scope, last, ctx, Ghost(st), out, depth)
            } else {
                match other {
                    Some(o) => {
                        *last = Value::Int(0);
                        block_step(o, scope, last, ctx, Ghost(st), out, depth)
                    },
                    None => Ok(None),
                }
            }
        },
        _ => Err(error(ErrorKind::Structure, "unsupported statement in expression block")),
    }
}

/// Whether the head of a list names a function in `env`; the function if so.
fn head_function<'a>(items: &Vec<ListItem>, env: &'a Env) -> (r: Option<&'a Value>)
    ensures
        match r {
            Some(f) => is_application(items_view(items@), env.view()) && lookup(
                env.view(),
                head_name(items_view(items@))->0,
            ) == Some(f.view()),
            None => !is_application(items_view(items@), env.view()),
        },
{
    if items.len() == 0 {
        return None;
    }
    if items[0].key.is_some() {
        return None;
    }
    let found = match &items[0].value {
        Expr::Var(n) => env.get(n.as_str()),
        Expr::Sym(n) => env.get(n.as_str()),
        _ => None,
    };
    match found {
        Some(f) => if f.is_callable() {
            Some(f)
        } else {
            None
        },
        None => None,
    }
}

/// Evaluates a list expression.
fn eval_list_expr(e: &Expr, env: &Env, ctx: &Context, out: &mut Vec<Output>, depth: usize) -> (r:
    Result<Value, Error>)
    requires
        e.view() is List,
    ensures
        eval_outcome(final(out)@, r) == eval_list(
            e.view(),
            ctx.state(env.view()),
            outputs_view(old(out)@),
            depth as nat,
        ),
    decreases depth, 3nat, e, 0nat,
{
    match e {
        Expr::List(items) => match head_function(items, env) {
            Some(f) => {
                let args = match eval_arg_items(items, env, ctx, out, depth) {
                    Ok(vs) => vs,
                    Err(x) => {
                        return Err(x);
                    },
                };
                apply(f, &args, env, ctx, out, depth)
            },
            None => eval_data_items(items, env, ctx, out, depth),
        },
        _ => Ok(Value::Int(0)),
    }
}

/// Evaluates the arguments of an application written as a list.
fn eval_arg_items(
    items: &Vec<ListItem>,
    env: &Env,
    ctx: &Context,
    out: &mut Vec<Output>,
    depth: usize,
) -> (r: Result<Vec<Value>, Error>)
    ensures
        many_outcome(final(out)@, r) == eval_args(
            items_view(items@),
            1,
            Seq::empty(),
            ctx.state(env.view()),
            outputs_view(old(out)@),
            depth as nat,
        ),
    decreases depth, 3nat, items, items.len() + 1,
{
    let mut vals = no_values();
    let mut i: usize = 1;
    let ghost st = ctx.state(env.view());
    let ghost ms = items_view(items@);
    while i < items.len()
        invariant
            ms == items_view(items@),
            st == ctx.state(env.view()),
            eval_args(ms, 1, Seq::empty(), st, outputs_view(old(out)@), depth as nat) == eval_args(
                ms,
                i as int,
                values_view(vals@),
                st,
                outputs_view(out@),
                depth as nat,
            ),
        decreases items.len() - i,
    {
        if items[i].key.is_some() {
            return Err(error(ErrorKind::Type, "named arguments are not supported"));
        }
        proof {
            assert(decreases_to!(items => items[i as int].value));
        }
        match eval(&items[i].value, env, ctx, out, depth) {
            Ok(v) => {
                push_result(&mut vals, v);
            },
            Err(x) => {
                return Err(x);
            },
        }
        i += 1;
    }
    Ok(vals)
}

/// Evaluates the items of a list that is data.
fn eval_data_items(
    items: &Vec<ListItem>,
    env: &Env,
    ctx: &Context,
    out: &mut Vec<Output>,
    depth: usize,
) -> (r: Result<Value, Error>)
    ensures
        eval_outcome(final(out)@, r) == eval_items(
            items_view(items@),
            0,
            Seq::empty(),
            Seq::empty(),
            ctx.state(env.view()),
            outputs_view(old(out)@),
            depth as nat,
        ),
    decreases depth, 3nat, items, items.len() + 1,
{
    let mut vals = no_values();
    let mut keys = no_keys();
    let mut i: usize = 0;
    let ghost st = ctx.state(env.view());
    let ghost ms = items_view(items@);
    while i < items.len()
        invariant
            ms == items_view(items@),
            st == ctx.state(env.view()),
            eval_items(
                ms,
                0,
                Seq::empty(),
                Seq::empty(),
                st,
                outputs_view(old(out)@),
                depth as nat,
            ) == eval_items(
                ms,
                i as int,
                values_view(vals@),
                keys_view(keys@),
                st,
                outputs_view(out@),
                depth as nat,
            ),
        decreases items.len() - i,
    {
        let v = match &items[i].value {
            Expr::Var(name) => Value::Sym(name.clone()),
            other => {
                proof {
                    assert(decreases_to!(items => items[i as int].value));
                }
                match eval(other, env, ctx, out, depth) {
                    Ok(v) => v,
                    Err(x) => {
                        return Err(x);
                    },
                }
            },
        };
        push_result(&mut vals, v);
        match &items[i].key {
            Some(k) => {
                keys_put(&mut keys, k.clone(), i);
            },
            None => {},
        }
        i += 1;
    }
    Ok(Value::List(vals, keys))
}

/// What `value_of` makes of its argument.
fn value_of_value(v: Value, env: &Env, Ghost(out): Ghost<Seq<OutputModel>>) -> (r: Result<
    Value,
    Error,
>)
    ensures
        (Eval {
            out,
            res: match r {
                Ok(x) => Ok(x.view()),
                Err(e) => Err(e.view()),
            },
        }) == value_of(v.view(), env.view(), out),
{
    match v {
        Value::List(items, _) => {
            let mut vals = no_values();
            let mut i: usize = 0;
            let ghost ms = values_view(items@);
            while i < items.len()
                invariant
                    ms == values_view(items@),
                    v.view() is List,
                    v.view()->List_0 == ms,
                    resolve_from(ms, 0, Seq::empty(), env.view()) == resolve_from(
                        ms,
                        i as int,
                        values_view(vals@),
                        env.view(),
                    ),
                decreases items.len() - i,
            {
                match &items[i] {
                    Value::Str(s) => match env.get(s.as_str()) {
                        Some(x) => {
                            push_result(&mut vals, x.clone());
                        },
                        None => {
                            return Err(
                                error_about(ErrorKind::Name, "undefined variable: ", s.as_str()),
                            );
                        },
                    },
                    Value::Sym(s) => match env.get(s.as_str()) {
                        Some(x) => {
                            push_result(&mut vals, x.clone());
                        },
                        None => {
                            return Err(
                                error_about(ErrorKind::Name, "undefined variable: ", s.as_str()),
                            );
                        },
                    },
                    other => {
                        push_result(&mut vals, other.clone());
                    },
                }
                i += 1;
            }
            Ok(Value::List(vals, no_keys()))
        },
        Value::Str(s) => match env.get(s.as_str()) {
            Some(x) => Ok(x.clone()),
            None => Err(error_about(ErrorKind::Name, "undefined variable: ", s.as_str())),
        },
        Value::Sym(s) => match env.get(s.as_str()) {
            Some(x) => Ok(x.clone()),
            None => Err(error_about(ErrorKind::Name, "undefined variable: ", s.as_str())),
        },
        _ => Err(error(ErrorKind::Type, "value_of expects a list or sym/string")),
    }
}

/// Evaluates a call by name.
fn eval_call_expr(e: &Expr, env: &Env, ctx: &Context, out: &mut Vec<Output>, depth: usize) -> (r:
    Result<Value, Error>)
    requires
        e.view() is Call,
    ensures
        eval_outcome(final(out)@, r) == eval_call(
            e.view(),
            ctx.state(env.view()),
            outputs_view(old(out)@),
            depth as nat,
        ),
    decreases depth, 3nat, e, 0nat,
{
    match e {
        Expr::Call(name, args) => {
            if str_eq(name.as_str(), "value_of") {
                if args.len() != 1 {
                    return Err(error(ErrorKind::Arity, "value_of expects 1 argument"));
                }
                proof {
                    assert(decreases_to!(e => e->Call_1[0]));
                    assert(exprs_view(args@)[0] == args[0].view());
                }
                let v = match eval(&args[0], env, ctx, out, depth) {
                    Ok(v) => v,
                    Err(x) => {
                        return Err(x);
                    },
                };
                value_of_value(v, env, Ghost(outputs_view(out@)))
            } else {
                let vals = match eval_seq(args, 0, env, ctx, out, depth) {
                    Ok(vs) => vs,
                    Err(x) => {
                        return Err(x);
                    },
                };
                match env.get(name.as_str()) {
                    Some(f) => if f.is_callable() {
                        apply(f, &vals, env, ctx, out, depth)
                    } else {
                        Err(error_about(ErrorKind::Name, "undefined function: ", name.as_str()))
                    },
                    None => Err(
                        error_about(ErrorKind::Name, "undefined function: ", name.as_str()),
                    ),
                }
            }
        },
        _ => Ok(Value::Int(0)),
    }
}

/// The number of parameters of a function.
fn count_params(f: &Value) -> (r: usize)
    ensures
        r == param_count(f.view()),
{
    match f {
        Value::Func(params, _, _) => params.len(),
        Value::FuncBlock(params, _, _) => params.len(),
        Value::NativeFunc(params, _) => params.len(),
        _ => 0,
    }
}

/// The function of two parameters that a custom operator names.
fn find_operator<'a>(op: &str, env: &'a Env, ctx: &Context) -> (r: Result<&'a Value, Error>)
    ensures
        match r {
            Ok(f) => operator_function(op@, ctx.state(env.view())) == Ok::<
                ValueModel,
                ErrorModel,
            >(f.view()),
            Err(e) => operator_function(op@, ctx.state(env.view())) == Err::<
                ValueModel,
                ErrorModel,
            >(e.view()),
        },
{
    let fname = match pairs_get(&ctx.ops, op) {
        Some(fname) => fname,
        None => {
            return Err(error_about(ErrorKind::Name, "undefined custom operator: ", op));
        },
    };
    match env.get(fname.as_str()) {
        Some(f) => {
            if !f.is_callable() {
                Err(error_about(ErrorKind::Name, "undefined operator function: ", fname.as_str()))
            } else if count_params(f) != 2 {
                Err(error(ErrorKind::Arity, "custom operator must bind to binary function"))
            } else {
                Ok(f)
            }
        },
        None => Err(
            error_about(ErrorKind::Name, "undefined operator function: ", fname.as_str()),
        ),
    }
}

/// The function of one parameter that a map names.
fn find_map_function<'a>(name: &str, env: &'a Env, ctx: &Context) -> (r: Result<&'a Value, Error>)
    ensures
        match r {
            Ok(f) => map_function(name@, ctx.state(env.view())) == Ok::<ValueModel, ErrorModel>(
                f.view(),
            ),
            Err(e) => map_function(name@, ctx.state(env.view())) == Err::<ValueModel, ErrorModel>(
                e.view(),
            ),
        },
{
    match env.get(name) {
        Some(f) => {
            if !f.is_callable() {
                Err(error_about(ErrorKind::Name, "undefined function: ", name))
            } else if count_params(f) != 1 {
                Err(error(ErrorKind::Arity, "map function must be unary"))
            } else {
                Ok(f)
            }
        },
        None => Err(error_about(ErrorKind::Name, "undefined function: ", name)),
    }
}

/// Evaluates a custom operator on two expressions.
fn eval_custom_expr(e: &Expr, env: &Env, ctx: &Context, out: &mut Vec<Output>, depth: usize) -> (r:
    Result<Value, Error>)
    requires
        e.view() is Custom,
    ensures
        eval_outcome(final(out)@, r) == eval_custom(
            e.view(),
            ctx.state(env.view()),
            outputs_view(old(out)@),
            depth as nat,
        ),
    decreases depth, 3nat, e, 0nat,
{
    match e {
        Expr::Custom(a, op, b) => {
            let va = match eval(a, env, ctx, out, depth) {
                Ok(v) => v,
                Err(x) => {
                    return Err(x);
                },
            };
            let vb = match eval(b, env, ctx, out, depth) {
                Ok(v) => v,
                Err(x) => {
                    return Err(x);
                },
            };
            let f = match find_operator(op.as_str(), env, ctx) {
                Ok(f) => f,
                Err(x) => {
                    return Err(x);
                },
            };
            let mut args = no_values();
            push_result(&mut args, va);
            push_result(&mut args, vb);
            assert(values_view(args@) =~= seq![va.view(), vb.view()]);
            apply(f, &args, env, ctx, out, depth)
        },
        _ => Ok(Value::Int(0)),
    }
}

/// Evaluates a map.
fn eval_map_expr(e: &Expr, env: &Env, ctx: &Context, out: &mut Vec<Output>, depth: usize) -> (r:
    Result<Value, Error>)
    requires
        e.view() is MapWith,
    ensures
        eval_outcome(final(out)@, r) == eval_map(
            e.view(),
            ctx.state(env.view()),
            outputs_view(old(out)@),
            depth as nat,
        ),
    decreases depth, 3nat, e, 0nat,
{
    match e {
        Expr::MapWith(list, name) => {
            let lv = match eval(list, env, ctx, out, depth) {
                Ok(v) => v,
                Err(x) => {
                    return Err(x);
                },
            };
            match lv {
                Value::List(items, _) => {
                    let f = match find_map_function(name.as_str(), env, ctx) {
                        Ok(f) => f,
                        Err(x) => {
                            return Err(x);
                        },
                    };
                    match map_items(f, &items, env, ctx, out, depth) {
                        Ok(vs) => Ok(Value::List(vs, no_keys())),
                        Err(x) => Err(x),
                    }
                },
                _ => Err(error(ErrorKind::Type, "map left operand must be a list")),
            }
        },
        _ => Ok(Value::Int(0)),
    }
}

/// Applies `f` to each item in turn.
fn map_items(
    f: &Value,
    items: &Vec<Value>,
    env: &Env,
    ctx: &Context,
    out: &mut Vec<Output>,
    depth: usize,
) -> (r: Result<Vec<Value>, Error>)
    ensures
        many_outcome(final(out)@, r) == map_from(
            f.view(),
            values_view(items@),
            0,
            Seq::empty(),
            ctx.state(env.view()),
            outputs_view(old(out)@),
            depth as nat,
        ),
    decreases depth, 2nat, items, items.len() + 1,
{
    let mut vals = no_values();
    let mut i: usize = 0;
    let ghost st = ctx.state(env.view());
    let ghost ms = values_view(items@);
    while i < items.len()
        invariant
            ms == values_view(items@),
            st == ctx.state(env.view()),
            map_from(f.view(), ms, 0, Seq::empty(), st, outputs_view(old(out)@), depth as nat)
                == map_from(
                f.view(),
                ms,
                i as int,
                values_view(vals@),
                st,
                outputs_view(out@),
                depth as nat,
            ),
        decreases items.len() - i,
    {
        let mut args = no_values();
        push_result(&mut args, items[i].clone());
        assert(values_view(args@) =~= seq![ms[i as int]]);
        match apply(f, &args, env, ctx, out, depth) {
            Ok(v) => {
                push_result(&mut vals, v);
            },
            Err(x) => {
                return Err(x);
            },
        }
        i += 1;
    }
    Ok(vals)
}

/// The model of the outcome of evaluating the arguments of a registry call.
pub open spec fn ints_outcome(out: Seq<Output>, r: Result<Vec<i64>, Error>) -> EvalInts {
    EvalInts {
        out: outputs_view(out),
        res: match r {
            Ok(v) => Ok(v@),
            Err(e) => Err(e.view()),
        },
    }
}

/// Evaluates the arguments of a registry call: each must give an integer.
fn eval_int_args(
    es: &Vec<Expr>,
    env: &Env,
    ctx: &Context,
    out: &mut Vec<Output>,
    depth: usize,
) -> (r: Result<Vec<i64>, Error>)
    ensures
        ints_outcome(final(out)@, r) == eval_ints(
            exprs_view(es@),
            0,
            Seq::empty(),
            ctx.state(env.view()),
            outputs_view(old(out)@),
            depth as nat,
        ),
    decreases depth, 3nat, es, es.len() + 1,
{
    let mut vals: Vec<i64> = Vec::new();
    let mut i: usize = 0;
    let ghost st = ctx.state(env.view());
    let ghost ms = exprs_view(es@);
    assert(vals@ =~= Seq::<i64>::empty());
    while i < es.len()
        invariant
            ms == exprs_view(es@),
            st == ctx.state(env.view()),
            eval_ints(ms, 0, Seq::empty(), st, outputs_view(old(out)@), depth as nat) == eval_ints(
                ms,
                i as int,
                vals@,
                st,
                outputs_view(out@),
                depth as nat,
            ),
        decreases es.len() - i,
    {
        proof {
            assert(decreases_to!(es => es[i as int]));
        }
        match eval(&es[i], env, ctx, out, depth) {
            Ok(Value::Int(n)) => {
                vals.push(n);
            },
            Ok(Value::Str(_)) => {
                return Err(error(ErrorKind::Type, "string args not supported"));
            },
            Ok(_) => {
                return Err(error(ErrorKind::Type, "unsupported arg type"));
            },
            Err(x) => {
                return Err(x);
            },
        }
        i += 1;
    }
    Ok(vals)
}

/// The lines that report what the registry answered to a statement.
pub fn report_lines(answer: &Answer) -> (r: Result<Vec<String>, Error>)
    ensures
        match r {
            Ok(lines) => report(answer.view()) == Ok::<Seq<Seq<char>>, ErrorModel>(
                lines_view(lines@),
            ),
            Err(e) => report(answer.view()) == Err::<Seq<Seq<char>>, ErrorModel>(e.view()),
        },
{
    match answer {
        Answer::Names(names) => Ok(type_list_lines(names)),
        Answer::Described(info) => Ok(type_lines(info)),
        Answer::Called(reply) => match call_answer(*reply) {
            Ok(line) => {
                let mut lines: Vec<String> = Vec::new();
                lines.push(line);
                assert(lines_view(lines@) =~= seq![line@]);
                Ok(lines)
            },
            Err(e) => Err(e),
        },
        _ => Err(error(ErrorKind::Foreign, "unexpected answer")),
    }
}

/// Emits the report of what the registry answered to a statement.
fn emit_report(
    answer: Result<Answer, Error>,
    out: &mut Vec<Output>,
    Ghost(st): Ghost<StateModel>,
) -> (r: Result<ControlFlow, Error>)
    ensures
        run_outcome(final(out)@, st, r) == reported(
            Asking {
                out: outputs_view(old(out)@),
                res: match answer {
                    Ok(a) => Ok(a.view()),
                    Err(e) => Err(e.view()),
                },
            },
            st,
        ),
{
    let a = match answer {
        Ok(a) => a,
        Err(e) => {
            return Err(e);
        },
    };
    let lines = match report_lines(&a) {
        Ok(lines) => lines,
        Err(e) => {
            return Err(e);
        },
    };
    let ghost ls = lines_view(lines@);
    let mut i: usize = 0;
    assert(outputs_view(out@) =~= outputs_view(old(out)@) + line_items(ls.take(0)));
    while i < lines.len()
        invariant
            i <= lines.len(),
            ls == lines_view(lines@),
            outputs_view(out@) == outputs_view(old(out)@) + line_items(ls.take(i as int)),
        decreases lines.len() - i,
    {
        let ghost before = outputs_view(out@);
        emit(out, Output::Line(lines[i].clone()));
        assert(outputs_view(out@) =~= outputs_view(old(out)@) + line_items(ls.take(i + 1)));
        i += 1;
    }
    assert(ls.take(lines.len() as int) =~= ls);
    Ok(ControlFlow::Continue)
}

/// The function that a `let_func` makes in `env`.
fn make_function(params: &Vec<String>, body: &Vec<Stmt>, env: &Env) -> (r: Value)
    ensures
        r.view() == function_value(strings_view(params@), stmts_view(body@), env.view()),
{
    if body.len() == 1 {
        match &body[0] {
            Stmt::ExprStmt(e) => {
                return Value::Func(clone_strings(params), e.clone(), env.clone());
            },
            _ => {},
        }
    }
    Value::FuncBlock(clone_strings(params), clone_stmts(body), env.clone())
}

/// What the block keywords bind `name` to, if anything.
fn handler_get(handlers: &Vec<(String, BlockHandler)>, name: &str) -> (r: Option<BlockHandler>)
    ensures
        r == lookup(handlers_view(handlers@), name@),
{
    assert(names(handlers_view(handlers@)) =~= entry_names(handlers@));
    let i = position(handlers, name);
    if i < handlers.len() {
        Some(handlers[i].1)
    } else {
        None
    }
}

/// Binds the block keyword `name` to `handler`.
fn handler_put(handlers: &mut Vec<(String, BlockHandler)>, name: String, handler: BlockHandler)
    ensures
        handlers_view(final(handlers)@) == bind(handlers_view(old(handlers)@), name@, handler),
{
    assert(names(handlers_view(handlers@)) =~= entry_names(handlers@));
    let i = position(handlers, name.as_str());
    if i < handlers.len() {
        handlers.set(i, (name, handler));
    } else {
        handlers.push((name, handler));
    }
    assert(handlers_view(handlers@) =~= bind(handlers_view(old(handlers)@), name@, handler));
}

/// Executes the statements in order, until one fails or gives a signal
/// other than `Continue`.
fn run_stmts(
    interp: &mut Interpreter,
    stmts: &Vec<Stmt>,
    out: &mut Vec<Output>,
    depth: usize,
) -> (r:
    Result<ControlFlow, Error>)
    ensures
        run_outcome(final(out)@, final(interp).view(), r) == run_from(
            stmts_view(stmts@),
            0,
            old(interp).view(),
            outputs_view(old(out)@),
            depth as nat,
        ),
        final(interp).max_depth == old(interp).max_depth,
    decreases depth, 3nat, stmts, stmts.len() + 1,
{
    let mut i: usize = 0;
    let ghost ms = stmts_view(stmts@);
    while i < stmts.len()
        invariant
            ms == stmts_view(stmts@),
            interp.max_depth == old(interp).max_depth,
            run_from(ms, 0, old(interp).view(), outputs_view(old(out)@), depth as nat) == run_from(
                ms,
                i as int,
                interp.view(),
                outputs_view(out@),
                depth as nat,
            ),
        decreases stmts.len() - i,
    {
        proof {
            assert(decreases_to!(stmts => stmts[i as int]));
        }
        match exec_stmt(interp, &stmts[i], out, depth) {
            Ok(ControlFlow::Continue) => {},
            Ok(flow) => {
                return Ok(flow);
            },
            Err(x) => {
                return Err(x);
            },
        }
        i += 1;
    }
    Ok(ControlFlow::Continue)
}

/// Executes one statement.
fn exec_stmt(interp: &mut Interpreter, stmt: &Stmt, out: &mut Vec<Output>, depth: usize) -> (r:
    Result<ControlFlow, Error>)
    ensures
        run_outcome(final(out)@, final(interp).view(), r) == exec_model(
            stmt.view(),
            old(interp).view(),
            outputs_view(old(out)@),
            depth as nat,
        ),
        final(interp).max_depth == old(interp).max_depth,
    decreases depth, 3nat, stmt, 1nat,
{
    match stmt {
        Stmt::Let(name, e) => {
            let v = match eval(e, &interp.env, &interp.ctx, out, depth) {
                Ok(v) => v,
                Err(x) => {
                    return Err(x);
                },
            };
            interp.env.insert(name.clone(), v);
            Ok(ControlFlow::Continue)
        },
        Stmt::LetFunc(name, params, body) => {
            let f = make_function(params, body, &interp.env);
            interp.env.insert(name.clone(), f);
            Ok(ControlFlow::Continue)
        },
        Stmt::PrintTemplate(tpl, None) => {
            emit(out, Output::Line(tpl.clone()));
            Ok(ControlFlow::Continue)
        },
        Stmt::PrintTemplate(tpl, Some(e)) => {
            let v = match eval(e, &interp.env, &interp.ctx, out, depth) {
                Ok(v) => v,
                Err(x) => {
                    return Err(x);
                },
            };
            let text = to_string(&v);
            emit(out, Output::Line(fill_template(tpl.as_str(), text.as_str())));
            Ok(ControlFlow::Continue)
        },
        Stmt::PrintExpr(e) => {
            let v = match eval(e, &interp.env, &interp.ctx, out, depth) {
                Ok(v) => v,
                Err(x) => {
                    return Err(x);
                },
            };
            emit(out, Output::Line(to_string(&v)));
            Ok(ControlFlow::Continue)
        },
        Stmt::RegOp(op, fname) => {
            pairs_put(&mut interp.ctx.ops, op.clone(), fname.clone());
            Ok(ControlFlow::Continue)
        },
        Stmt::ListTypes => {
            let answer = ask_host(Request::TypeNames, &interp.ctx, out);
            emit_report(answer, out, Ghost(interp.view()))
        },
        Stmt::ListType(name) => {
            let answer = ask_host(Request::Describe(name.clone()), &interp.ctx, out);
            emit_report(answer, out, Ghost(interp.view()))
        },
        Stmt::Call(ty, op, args) => {
            let ints = match eval_int_args(args, &interp.env, &interp.ctx, out, depth) {
                Ok(v) => v,
                Err(x) => {
                    return Err(x);
                },
            };
            let answer = ask_host(Request::Call(ty.clone(), op.clone(), ints), &interp.ctx, out);
            emit_report(answer, out, Ghost(interp.view()))
        },
        Stmt::RunList(_) => run_list(interp, stmt, out, depth),
        Stmt::Return(Some(e)) => {
            match eval(e, &interp.env, &interp.ctx, out, depth) {
                Ok(v) => Ok(ControlFlow::Return(Some(v))),
                Err(x) => Err(x),
            }
        },
        Stmt::Return(None) => Ok(ControlFlow::Return(None)),
        Stmt::ExprStmt(e) => {
            match eval(e, &interp.env, &interp.ctx, out, depth) {
                Ok(_) => Ok(ControlFlow::Continue),
                Err(x) => Err(x),
            }
        },
        Stmt::Block(name, meta, body) => match handler_get(&interp.ctx.handlers, name.as_str()) {
            Some(h) => handle(interp, h, meta, body, out, depth),
            None => Err(error_about(ErrorKind::Structure, "Unknown block type: ", name.as_str())),
        },
        Stmt::If(c, t, other) => {
            let v = match eval(c, &interp.env, &interp.ctx, out, depth) {
                Ok(v) => v,
                Err(x) => {
                    return Err(x);
                },
            };
            if v.is_truthy() {
                exec_stmt(interp, t, out, depth)
            } else {
                match other {
                    Some(o) => exec_stmt(interp, o, out, depth),
                    None => Ok(ControlFlow::Continue),
                }
            }
        },
        Stmt::Break(label) => Ok(ControlFlow::Break(clone_opt_string(label))),
        Stmt::Next => Ok(ControlFlow::Next),
    }
}

/// A signal that reaches the top of a program: only `Continue` may.
fn top_flow(r: Result<ControlFlow, Error>) -> (t: Result<ControlFlow, Error>)
    ensures
        forall|out: Seq<Output>, state: StateModel| #[trigger]
            run_outcome(out, state, t) == top_result(run_outcome(out, state, r)),
{
    match r {
        Ok(ControlFlow::Continue) => Ok(ControlFlow::Continue),
        Ok(ControlFlow::Return(_)) => Err(
            error(ErrorKind::ControlFlow, "Return not allowed at top level"),
        ),
        Ok(ControlFlow::Break(_)) => Err(
            error(ErrorKind::ControlFlow, "Break not allowed at top level"),
        ),
        Ok(ControlFlow::Next) => Err(
            error(ErrorKind::ControlFlow, "Next not allowed at top level"),
        ),
        Err(x) => Err(x),
    }
}

/// The function that the head of a list statement names, if it names one.
fn run_call_head<'a>(items: &Vec<Expr>, env: &'a Env) -> (r: Option<&'a Value>)
    requires
        items.len() > 0,
    ensures
        match r {
            Some(f) => is_run_call(exprs_view(items@), env.view()) && lookup(
                env.view(),
                exprs_view(items@)[0]->Sym_0,
            ) == Some(f.view()),
            None => !is_run_call(exprs_view(items@), env.view()),
        },
{
    match &items[0] {
        Expr::Sym(name) => match env.get(name.as_str()) {
            Some(f) => if f.is_callable() {
                Some(f)
            } else {
                None
            },
            None => None,
        },
        _ => None,
    }
}

/// Executes a list statement.
fn run_list(interp: &mut Interpreter, stmt: &Stmt, out: &mut Vec<Output>, depth: usize) -> (r:
    Result<ControlFlow, Error>)
    requires
        stmt.view() is RunList,
    ensures
        run_outcome(final(out)@, final(interp).view(), r) == exec_run_list(
            stmt.view(),
            old(interp).view(),
            outputs_view(old(out)@),
            depth as nat,
        ),
        final(interp).max_depth == old(interp).max_depth,
    decreases depth, 3nat, stmt, 0nat,
{
    match stmt {
        Stmt::RunList(items) => {
            if items.len() == 0 {
                emit(out, Output::Line(String::from_str("empty list")));
                assert(exprs_view(items@).len() == 0);
                return Ok(ControlFlow::Continue);
            }
            match run_call_head(items, &interp.env) {
                Some(f) => {
                    let args = match eval_seq(items, 1, &interp.env, &interp.ctx, out, depth) {
                        Ok(vs) => vs,
                        Err(x) => {
                            return Err(x);
                        },
                    };
                    match apply(f, &args, &interp.env, &interp.ctx, out, depth) {
                        Ok(v) => {
                            emit(out, Output::Line(to_string(&v)));
                            Ok(ControlFlow::Continue)
                        },
                        Err(x) => Err(x),
                    }
                },
                None => {
                    let s = match list_to_stmt(items.as_slice()) {
                        Ok(s) => s,
                        Err(x) => {
                            return Err(x);
                        },
                    };
                    if depth == 0 {
                        return Err(depth_error());
                    }
                    let mut program: Vec<Stmt> = Vec::new();
                    program.push(s);
                    assert(stmts_view(program@) =~= seq![s.view()]);
                    let r = run_stmts(interp, &program, out, depth - 1);
                    top_flow(r)
                },
            }
        },
        _ => Ok(ControlFlow::Continue),
    }
}

/// Executes a block whose keyword is bound to `h`.
fn handle(
    interp: &mut Interpreter,
    h: BlockHandler,
    meta: &Vec<ListItem>,
    body: &Vec<Stmt>,
    out: &mut Vec<Output>,
    depth: usize,
) -> (r: Result<ControlFlow, Error>)
    ensures
        run_outcome(final(out)@, final(interp).view(), r) == handle_model(
            h,
            items_view(meta@),
            stmts_view(body@),
            old(interp).view(),
            outputs_view(old(out)@),
            depth as nat,
        ),
        final(interp).max_depth == old(interp).max_depth,
    decreases depth, 2nat, body, 1nat,
{
    match h {
        BlockHandler::Test => handle_test(interp, body, out, depth),
        BlockHandler::TestInit => handle_test_init(interp, body, out, depth),
        BlockHandler::NoTest => handle_notest(interp, body, out, depth),
        BlockHandler::Loop => handle_loop(interp, meta, body, out, depth),
    }
}

/// Executes a `test` block: the body runs only in test mode, with the mode
/// switched off, and what it does to the environment and the operators is
/// undone.
fn handle_test(
    interp: &mut Interpreter,
    body: &Vec<Stmt>,
    out: &mut Vec<Output>,
    depth: usize,
) -> (r:
    Result<ControlFlow, Error>)
    ensures
        run_outcome(final(out)@, final(interp).view(), r) == handle_model(
            BlockHandler::Test,
            Seq::empty(),
            stmts_view(body@),
            old(interp).view(),
            outputs_view(old(out)@),
            depth as nat,
        ),
        final(interp).max_depth == old(interp).max_depth,
    decreases depth, 2nat, body, 0nat,
{
    if !interp.ctx.test_mode {
        return Ok(ControlFlow::Continue);
    }
    if depth == 0 {
        return Err(depth_error());
    }
    let saved_env = interp.env.clone();
    let saved_ops = clone_pairs(&interp.ctx.ops);
    interp.ctx.test_mode = false;
    let r = run_stmts(interp, body, out, depth - 1);
    interp.ctx.test_mode = true;
    interp.env = saved_env;
    interp.ctx.ops = saved_ops;
    r
}

/// Executes a `notest` block: the body runs only outside test mode, and
/// what it does to the environment and the operators is undone.
fn handle_notest(
    interp: &mut Interpreter,
    body: &Vec<Stmt>,
    out: &mut Vec<Output>,
    depth: usize,
) -> (r: Result<ControlFlow, Error>)
    ensures
        run_outcome(final(out)@, final(interp).view(), r) == handle_model(
            BlockHandler::NoTest,
            Seq::empty(),
            stmts_view(body@),
            old(interp).view(),
            outputs_view(old(out)@),
            depth as nat,
        ),
        final(interp).max_depth == old(interp).max_depth,
    decreases depth, 2nat, body, 0nat,
{
    if interp.ctx.test_mode {
        return Ok(ControlFlow::Continue);
    }
    if depth == 0 {
        return Err(depth_error());
    }
    let saved_env = interp.env.clone();
    let saved_ops = clone_pairs(&interp.ctx.ops);
    let r = run_stmts(interp, body, out, depth - 1);
    interp.ctx.test_mode = false;
    interp.env = saved_env;
    interp.ctx.ops = saved_ops;
    r
}

/// Executes a `test_init` block: the body runs only in test mode, and what
/// it does is kept.
fn handle_test_init(
    interp: &mut Interpreter,
    body: &Vec<Stmt>,
    out: &mut Vec<Output>,
    depth: usize,
) -> (r: Result<ControlFlow, Error>)
    ensures
        run_outcome(final(out)@, final(interp).view(), r) == handle_model(
            BlockHandler::TestInit,
            Seq::empty(),
            stmts_view(body@),
            old(interp).view(),
            outputs_view(old(out)@),
            depth as nat,
        ),
        final(interp).max_depth == old(interp).max_depth,
    decreases depth, 2nat, body, 0nat,
{
    if !interp.ctx.test_mode {
        return Ok(ControlFlow::Continue);
    }
    if depth == 0 {
        return Err(depth_error());
    }
    interp.ctx.test_mode = false;
    let r = run_stmts(interp, body, out, depth - 1);
    interp.ctx.test_mode = true;
    r
}

/// What the metadata of a loop says.
#[derive(Debug, PartialEq)]
pub struct Plan {
    pub persist: Vec<Stmt>,
    pub step: Vec<Stmt>,
    pub label: Option<String>,
}

impl Plan {
    pub open spec fn view(&self) -> LoopPlan {
        LoopPlan {
            persist: stmts_view(self.persist@),
            step: stmts_view(self.step@),
            label: opt_string_view(self.label),
        }
    }
}

/// The expression inside any number of groupings.
pub fn unwrap_group_expr(e: &Expr) -> (r: &Expr)
    ensures
        r.view() == unwrap_group(e.view()),
    decreases e,
{
    match e {
        Expr::Group(inner) => unwrap_group_expr(inner),
        _ => e,
    }
}

fn no_stmts() -> (r: Vec<Stmt>)
    ensures
        stmts_view(r@) == Seq::<StmtModel>::empty(),
{
    let r: Vec<Stmt> = Vec::new();
    assert(stmts_view(r@) =~= Seq::<StmtModel>::empty());
    r
}

fn push_stmt(stmts: &mut Vec<Stmt>, s: Stmt)
    ensures
        stmts_view(final(stmts)@) == stmts_view(old(stmts)@).push(s.view()),
{
    stmts.push(s);
    assert(stmts_view(stmts@) =~= stmts_view(old(stmts)@).push(s.view()));
}

/// The statements that the items which are lists encode.
fn read_lists(items: &Vec<ListItem>) -> (r: Result<Vec<Stmt>, Error>)
    ensures
        match r {
            Ok(v) => lists_from(items_view(items@), 0, Seq::empty()) == Ok::<
                Seq<StmtModel>,
                ErrorModel,
            >(stmts_view(v@)),
            Err(e) => lists_from(items_view(items@), 0, Seq::empty()) == Err::<
                Seq<StmtModel>,
                ErrorModel,
            >(e.view()),
        },
{
    let mut out = no_stmts();
    let mut i: usize = 0;
    let ghost ms = items_view(items@);
    while i < items.len()
        invariant
            ms == items_view(items@),
            lists_from(ms, 0, Seq::empty()) == lists_from(ms, i as int, stmts_view(out@)),
        decreases items.len() - i,
    {
        match &items[i].value {
            Expr::List(inner) => {
                let values = values_of_items(inner);
                match list_to_stmt(values.as_slice()) {
                    Ok(s) => {
                        push_stmt(&mut out, s);
                    },
                    Err(x) => {
                        return Err(x);
                    },
                }
            },
            _ => {},
        }
        i += 1;
    }
    Ok(out)
}

/// The statements of a `persist` or `step` entry.
fn read_section(value: &Expr, message: &str) -> (r: Result<Vec<Stmt>, Error>)
    ensures
        match r {
            Ok(v) => section_stmts(value.view(), message@) == Ok::<Seq<StmtModel>, ErrorModel>(
                stmts_view(v@),
            ),
            Err(e) => section_stmts(value.view(), message@) == Err::<Seq<StmtModel>, ErrorModel>(
                e.view(),
            ),
        },
{
    match unwrap_group_expr(value) {
        Expr::List(items) => {
            let single = items.len() > 0 && match &items[0].value {
                Expr::List(_) => false,
                _ => true,
            };
            if single {
                let values = values_of_items(items);
                match list_to_stmt(values.as_slice()) {
                    Ok(s) => {
                        let mut out = no_stmts();
                        push_stmt(&mut out, s);
                        assert(stmts_view(out@) =~= seq![s.view()]);
                        Ok(out)
                    },
                    Err(x) => Err(x),
                }
            } else {
                read_lists(items)
            }
        },
        _ => Err(error(ErrorKind::Structure, message)),
    }
}

/// Reads the metadata of a loop.
pub fn read_plan(meta: &Vec<ListItem>) -> (r: Result<Plan, Error>)
    ensures
        match r {
            Ok(p) => loop_plan(items_view(meta@)) == Ok::<LoopPlan, ErrorModel>(p.view()),
            Err(e) => loop_plan(items_view(meta@)) == Err::<LoopPlan, ErrorModel>(e.view()),
        },
{
    let mut plan = Plan { persist: no_stmts(), step: no_stmts(), label: None };
    let mut i: usize = 0;
    let ghost ms = items_view(meta@);
    while i < meta.len()
        invariant
            ms == items_view(meta@),
            loop_plan(ms) == plan_from(ms, i as int, plan.view()),
        decreases meta.len() - i,
    {
        match &meta[i].key {
            Some(k) => {
                if str_eq(k.as_str(), "persist") {
                    match read_section(&meta[i].value, "persist must be a list") {
                        Ok(stmts) => {
                            plan.persist = stmts;
                        },
                        Err(x) => {
                            return Err(x);
                        },
                    }
                } else if str_eq(k.as_str(), "step") {
                    match read_section(&meta[i].value, "step must be a list") {
                        Ok(stmts) => {
                            plan.step = stmts;
                        },
                        Err(x) => {
                            return Err(x);
                        },
                    }
                } else if str_eq(k.as_str(), "name") {
                    match &meta[i].value {
                        Expr::Str(v) => {
                            plan.label = Some(v.clone());
                        },
                        _ => {},
                    }
                }
            },
            None => {},
        }
        i += 1;
    }
    Ok(plan)
}

/// What a signal met in a loop means for the loop.
fn loop_signal(flow: ControlFlow, label: &Option<String>) -> (r: Option<ControlFlow>)
    ensures
        match r {
            Some(f) => loop_exit(flow.view(), opt_string_view(*label)) == Some(f.view()),
            None => loop_exit(flow.view(), opt_string_view(*label)).is_none(),
        },
{
    match flow {
        ControlFlow::Return(v) => Some(ControlFlow::Return(v)),
        ControlFlow::Break(Some(target)) => {
            let own = match label {
                Some(l) => str_eq(l.as_str(), target.as_str()),
                None => false,
            };
            if own {
                Some(ControlFlow::Continue)
            } else {
                Some(ControlFlow::Break(Some(target)))
            }
        },
        ControlFlow::Break(None) => Some(ControlFlow::Continue),
        ControlFlow::Next => None,
        ControlFlow::Continue => None,
    }
}

/// Runs at most `rounds` rounds of a loop whose own environment the
/// interpreter holds, and puts the environment `saved` back.
fn run_rounds(
    interp: &mut Interpreter,
    body: &Vec<Stmt>,
    plan: &Plan,
    saved: Env,
    rounds: usize,
    out: &mut Vec<Output>,
    depth: usize,
) -> (r: Result<ControlFlow, Error>)
    requires
        depth > 0,
    ensures
        run_outcome(final(out)@, final(interp).view(), r) == loop_model(
            stmts_view(body@),
            plan.view().step,
            plan.view().label,
            old(interp).view(),
            saved.view(),
            rounds as nat,
            outputs_view(old(out)@),
            depth as nat,
        ),
        final(interp).max_depth == old(interp).max_depth,
    decreases depth, 1nat, body, 0nat,
{
    let mut k: usize = 0;
    let ghost b = stmts_view(body@);
    let ghost s = plan.view().step;
    let ghost l = plan.view().label;
    while k < rounds
        invariant
            k <= rounds,
            depth > 0,
            b == stmts_view(body@),
            s == plan.view().step,
            l == plan.view().label,
            interp.max_depth == old(interp).max_depth,
            loop_model(
                b,
                s,
                l,
                old(interp).view(),
                saved.view(),
                rounds as nat,
                outputs_view(old(out)@),
                depth as nat,
            ) == loop_model(
                b,
                s,
                l,
                interp.view(),
                saved.view(),
                (rounds - k) as nat,
                outputs_view(out@),
                depth as nat,
            ),
        decreases rounds - k,
    {
        let own = interp.env.clone();
        match run_stmts(interp, body, out, depth - 1) {
            Ok(flow) => match loop_signal(flow, &plan.label) {
                Some(signal) => {
                    interp.env = saved;
                    return Ok(signal);
                },
                None => {},
            },
            Err(x) => {
                interp.env = saved;
                return Err(x);
            },
        }
        interp.env = own;
        match run_stmts(interp, &plan.step, out, depth - 1) {
            Ok(flow) => match loop_signal(flow, &plan.label) {
                Some(signal) => {
                    interp.env = saved;
                    return Ok(signal);
                },
                None => {},
            },
            Err(x) => {
                interp.env = saved;
                return Err(x);
            },
        }
        k += 1;
    }
    interp.env = saved;
    Ok(ControlFlow::Continue)
}

/// Executes a `loop` block.
fn handle_loop(
    interp: &mut Interpreter,
    meta: &Vec<ListItem>,
    body: &Vec<Stmt>,
    out: &mut Vec<Output>,
    depth: usize,
) -> (r: Result<ControlFlow, Error>)
    ensures
        run_outcome(final(out)@, final(interp).view(), r) == handle_model(
            BlockHandler::Loop,
            items_view(meta@),
            stmts_view(body@),
            old(interp).view(),
            outputs_view(old(out)@),
            depth as nat,
        ),
        final(interp).max_depth == old(interp).max_depth,
    decreases depth, 2nat, body, 0nat,
{
    let plan = match read_plan(meta) {
        Ok(p) => p,
        Err(x) => {
            return Err(x);
        },
    };
    if depth == 0 {
        return Err(depth_error());
    }
    let saved = interp.env.clone();
    let rounds: usize = if interp.ctx.test_mode {
        100
    } else {
        1000
    };
    match run_stmts(interp, &plan.persist, out, depth - 1) {
        Ok(ControlFlow::Continue) => {},
        Ok(flow) => {
            interp.env = saved;
            return Ok(flow);
        },
        Err(x) => {
            interp.env = saved;
            return Err(x);
        },
    }
    run_rounds(interp, body, &plan, saved, rounds, out, depth)
}

/// How far function bodies, blocks and list-encoded statements may nest in
/// an interpreter that was not told otherwise.
pub const DEFAULT_MAX_DEPTH: usize = 64;

/// The block keywords that every new interpreter knows.
pub open spec fn builtin_handlers() -> HandlersModel {
    seq![
        ("test"@, BlockHandler::Test),
        ("test_init"@, BlockHandler::TestInit),
        ("notest"@, BlockHandler::NoTest),
        ("loop"@, BlockHandler::Loop),
    ]
}

/// The model of a new interpreter.
pub open spec fn initial_state(test_mode: bool) -> StateModel {
    StateModel {
        env: Seq::empty(),
        ops: Seq::empty(),
        test_mode,
        handlers: builtin_handlers(),
        answers: Seq::empty(),
    }
}

/// The lines of the log from position `i` on, after `acc`.
pub open spec fn printed_from(out: Seq<OutputModel>, i: int, acc: Seq<Seq<char>>) -> Seq<
    Seq<char>,
>
    decreases out.len() - i,
{
    if i < 0 || i >= out.len() {
        acc
    } else {
        match out[i] {
            OutputModel::Line(s) => printed_from(out, i + 1, acc.push(s)),
            OutputModel::Asked(_) => printed_from(out, i + 1, acc),
        }
    }
}

/// The lines of the log, in order.
pub open spec fn printed(out: Seq<OutputModel>) -> Seq<Seq<char>> {
    printed_from(out, 0, Seq::empty())
}

/// The lines of the log, in order.
pub fn printed_lines(out: &Vec<Output>) -> (r: Vec<String>)
    ensures
        lines_view(r@) == printed(outputs_view(out@)),
{
    let mut lines: Vec<String> = Vec::new();
    let mut i: usize = 0;
    let ghost log = outputs_view(out@);
    assert(lines_view(lines@) =~= Seq::<Seq<char>>::empty());
    while i < out.len()
        invariant
            i <= out.len(),
            log == outputs_view(out@),
            printed(log) == printed_from(log, i as int, lines_view(lines@)),
        decreases out.len() - i,
    {
        let ghost before = lines_view(lines@);
        match &out[i] {
            Output::Line(s) => {
                lines.push(s.clone());
                assert(lines_view(lines@) =~= before.push(s@));
            },
            Output::Asked(_) => {},
        }
        i += 1;
    }
    lines
}

/// The model of the outcome of a program: the printed lines where it
/// succeeded, the failure where it failed.
pub open spec fn program_outcome(r: Result<Vec<String>, Error>) -> Result<
    Seq<Seq<char>>,
    ErrorModel,
> {
    match r {
        Ok(lines) => Ok(lines_view(lines@)),
        Err(e) => Err(e.view()),
    }
}

/// What a run that started with an empty output log hands to its caller:
/// the lines of the log where it ended with `Continue`, its failure
/// otherwise.
pub open spec fn program_result(m: Run) -> Result<Seq<Seq<char>>, ErrorModel> {
    match m.res {
        Ok(_) => Ok(printed(m.out)),
        Err(e) => Err(e),
    }
}

/// The model of the outcome of a block: the printed lines and the signal,
/// or the failure.
pub open spec fn block_result_view(r: Result<(Vec<String>, ControlFlow), Error>) -> Result<
    (Seq<Seq<char>>, FlowModel),
    ErrorModel,
> {
    match r {
        Ok((lines, flow)) => Ok((lines_view(lines@), flow.view())),
        Err(e) => Err(e.view()),
    }
}

/// What a run of a block hands to its caller.
pub open spec fn block_result(m: Run) -> Result<(Seq<Seq<char>>, FlowModel), ErrorModel> {
    match m.res {
        Ok(flow) => Ok((printed(m.out), flow)),
        Err(e) => Err(e),
    }
}

impl Interpreter {
    /// An interpreter with an empty environment, no custom operators and
    /// the built-in block keywords.
    pub fn new(test_mode: bool) -> (r: Self)
        ensures
            r.view() == initial_state(test_mode),
            r.max_depth == DEFAULT_MAX_DEPTH,
    {
        let mut handlers: Vec<(String, BlockHandler)> = Vec::new();
        handlers.push((String::from_str("test"), BlockHandler::Test));
        handlers.push((String::from_str("test_init"), BlockHandler::TestInit));
        handlers.push((String::from_str("notest"), BlockHandler::NoTest));
        handlers.push((String::from_str("loop"), BlockHandler::Loop));
        assert(handlers_view(handlers@) =~= builtin_handlers());
        let ops: Vec<(String, String)> = Vec::new();
        assert(pairs_view(ops@) =~= Seq::<(Seq<char>, Seq<char>)>::empty());
        let answers: Vec<Answer> = Vec::new();
        assert(answers_view(answers@) =~= Seq::<AnswerModel>::empty());
        Interpreter {
            env: Env::new(),
            ctx: Context { ops, test_mode, handlers, answers },
            max_depth: DEFAULT_MAX_DEPTH,
        }
    }

    /// Binds the block keyword `name` to `handler`, in place of what it was
    /// bound to.
    pub fn register_block_handler(&mut self, name: &str, handler: BlockHandler)
        ensures
            final(self).view() == (StateModel {
                env: old(self).view().env,
                ops: old(self).view().ops,
                test_mode: old(self).view().test_mode,
                handlers: bind(old(self).view().handlers, name@, handler),
                answers: old(self).view().answers,
            }),
            final(self).max_depth == old(self).max_depth,
    {
        handler_put(&mut self.ctx.handlers, String::from_str(name), handler);
    }

    /// Binds `name` to the native function that the host knows under that
    /// name, with parameters of the given kinds.
    pub fn register_native(&mut self, name: &str, params: Vec<ParamType>)
        ensures
            final(self).view() == with_env(
                old(self).view(),
                bind(old(self).view().env, name@, ValueModel::NativeFunc(params@, name@)),
            ),
            final(self).max_depth == old(self).max_depth,
    {
        self.env.insert(String::from_str(name), Value::NativeFunc(params, String::from_str(name)));
    }

    /// Executes the statements in order and appends what they emit to
    /// `out`, which keeps it also where the execution fails. An
    /// environment that is well-formed stays so.
    ///
    /// Where a statement asks the host for something that the interpreter
    /// holds no answer to, the execution fails as pending, with the
    /// request last in `out`: see `pending_request`.
    pub fn run_into(&mut self, program: &[Stmt], out: &mut Vec<Output>) -> (r: Result<
        ControlFlow,
        Error,
    >)
        ensures
            run_outcome(final(out)@, final(self).view(), r) == run_from(
                stmts_view(program@),
                0,
                old(self).view(),
                outputs_view(old(out)@),
                old(self).max_depth as nat,
            ),
            final(self).max_depth == old(self).max_depth,
            state_ok(old(self).view()) ==> state_ok(final(self).view()),
    {
        proof {
            if state_ok(self.view()) {
                law_run_ok(
                    stmts_view(program@),
                    0,
                    self.view(),
                    outputs_view(out@),
                    self.max_depth as nat,
                );
            }
        }
        let depth = self.max_depth;
        let mut i: usize = 0;
        let ghost ms = stmts_view(program@);
        while i < program.len()
            invariant
                ms == stmts_view(program@),
                self.max_depth == old(self).max_depth,
                depth == self.max_depth,
                run_from(ms, 0, old(self).view(), outputs_view(old(out)@), depth as nat)
                    == run_from(ms, i as int, self.view(), outputs_view(out@), depth as nat),
                state_ok(old(self).view()) ==> state_ok(
                    run_from(ms, 0, old(self).view(), outputs_view(old(out)@), depth as nat).state,
                ),
            decreases program@.len() - i,
        {
            match exec_stmt(self, &program[i], out, depth) {
                Ok(ControlFlow::Continue) => {},
                Ok(flow) => {
                    return Ok(flow);
                },
                Err(x) => {
                    return Err(x);
                },
            }
            i += 1;
        }
        Ok(ControlFlow::Continue)
    }

    /// Executes the statements in order: the lines they emitted and the
    /// signal they ended with, or the failure.
    pub fn run_block(&mut self, program: &[Stmt]) -> (r: Result<(Vec<String>, ControlFlow), Error>)
        ensures
            block_result_view(r) == block_result(
                run_from(
                    stmts_view(program@),
                    0,
                    old(self).view(),
                    Seq::empty(),
                    old(self).max_depth as nat,
                ),
            ),
            final(self).view() == run_from(
                stmts_view(program@),
                0,
                old(self).view(),
                Seq::empty(),
                old(self).max_depth as nat,
            ).state,
            final(self).max_depth == old(self).max_depth,
    {
        let mut out: Vec<Output> = Vec::new();
        assert(outputs_view(out@) =~= Seq::<OutputModel>::empty());
        match self.run_into(program, &mut out) {
            Ok(flow) => Ok((printed_lines(&out), flow)),
            Err(x) => Err(x),
        }
    }

    /// Runs a program: the lines it emitted, or its failure. A `return`,
    /// `break` or `next` that reaches the top is a failure, and so is a
    /// request to the host that the interpreter holds no answer to.
    pub fn run(&mut self, program: &[Stmt]) -> (r: Result<Vec<String>, Error>)
        ensures
            program_outcome(r) == program_result(
                top_result(
                    run_from(
                        stmts_view(program@),
                        0,
                        old(self).view(),
                        Seq::empty(),
                        old(self).max_depth as nat,
                    ),
                ),
            ),
            final(self).view() == run_from(
                stmts_view(program@),
                0,
                old(self).view(),
                Seq::empty(),
                old(self).max_depth as nat,
            ).state,
            final(self).max_depth == old(self).max_depth,
    {
        let mut out: Vec<Output> = Vec::new();
        assert(outputs_view(out@) =~= Seq::<OutputModel>::empty());
        let r = self.run_into(program, &mut out);
        let t = top_flow(r);
        assert(run_outcome(out@, self.view(), t) == top_result(run_outcome(out@, self.view(), r)));
        match t {
            Ok(_) => Ok(printed_lines(&out)),
            Err(x) => Err(x),
        }
    }
}

/// How an attempt to run a program with the answers that the host has
/// given so far ended.
#[derive(Debug)]
pub enum Attempt {
    /// The run waits on the host for this request.
    Waiting(Request),
    /// The run ended, with nothing that the host has to do for it: the
    /// interpreter afterwards, with no answers left in it; the lines that
    /// the program printed; and the failure of the program, if it failed.
    Finished(Interpreter, Vec<String>, Option<Error>),
}

/// The interpreter with other answers of the host.
pub open spec fn with_answers(st: StateModel, answers: Seq<AnswerModel>) -> StateModel {
    StateModel {
        env: st.env,
        ops: st.ops,
        test_mode: st.test_mode,
        handlers: st.handlers,
        answers,
    }
}

/// The failure of a program, if it failed: its own, or that of a signal
/// other than `Continue` that reached the top.
pub open spec fn program_failure(m: Run) -> Option<ErrorModel> {
    match top_result(m).res {
        Ok(_) => None,
        Err(e) => Some(e),
    }
}

impl Interpreter {
    /// Runs the program from this interpreter with the answers that the
    /// host has given so far, and leaves this interpreter as it is.
    ///
    /// The host does what the attempt waits on, puts its answer behind the
    /// others, and attempts again; the attempt with all answers finishes.
    pub fn attempt(&self, program: &[Stmt], answers: &Vec<Answer>) -> (r: Attempt)
        ensures
            ({
                let run = run_from(
                    stmts_view(program@),
                    0,
                    with_answers(self.view(), answers_view(answers@)),
                    Seq::empty(),
                    self.max_depth as nat,
                );
                match r {
                    Attempt::Waiting(request) => {
                        &&& asked(run.out) == answers.len() + 1
                        &&& run.out.len() > 0
                        &&& run.out.last() == OutputModel::Asked(request.view())
                    },
                    Attempt::Finished(next, lines, failure) => {
                        &&& asked(run.out) <= answers.len()
                        &&& lines_view(lines@) == printed(run.out)
                        &&& match failure {
                            Some(e) => program_failure(run) == Some(e.view()),
                            None => program_failure(run).is_none(),
                        }
                        &&& next.view() == with_answers(run.state, Seq::empty())
                        &&& next.max_depth == self.max_depth
                    },
                }
            }),
    {
        let mut it = self.clone();
        it.ctx.answers = clone_answers(answers);
        let ghost before = it.view();
        assert(before == with_answers(self.view(), answers_view(answers@)));
        let mut out: Vec<Output> = Vec::new();
        assert(outputs_view(out@) =~= Seq::<OutputModel>::empty());
        let result = it.run_into(program, &mut out);
        proof {
            law_run_faithful(
                stmts_view(program@),
                0,
                before,
                Seq::empty(),
                Seq::empty(),
                self.max_depth as nat,
            );
        }
        match pending_request(&out, answers) {
            Some(request) => Attempt::Waiting(request.clone()),
            None => {
                let ended = top_flow(result);
                assert(run_outcome(out@, it.view(), ended) == top_result(
                    run_outcome(out@, it.view(), result),
                ));
                let none: Vec<Answer> = Vec::new();
                assert(answers_view(none@) =~= Seq::<AnswerModel>::empty());
                it.ctx.answers = none;
                let failure = match ended {
                    Ok(_) => None,
                    Err(e) => Some(e),
                };
                Attempt::Finished(it, printed_lines(&out), failure)
            },
        }
    }
}

/// Runs a program in a new interpreter, outside test mode.
pub fn run(program: &[Stmt]) -> (r: Result<Vec<String>, Error>)
    ensures
        program_outcome(r) == program_result(
            top_result(
                run_from(
                    stmts_view(program@),
                    0,
                    initial_state(false),
                    Seq::empty(),
                    DEFAULT_MAX_DEPTH as nat,
                ),
            ),
        ),
{
    let mut it = Interpreter::new(false);
    it.run(program)
}

/// Runs a program in a new interpreter, in test mode.
pub fn run_tests(program: &[Stmt]) -> (r: Result<Vec<String>, Error>)
    ensures
        program_outcome(r) == program_result(
            top_result(
                run_from(
                    stmts_view(program@),
                    0,
                    initial_state(true),
                    Seq::empty(),
                    DEFAULT_MAX_DEPTH as nat,
                ),
            ),
        ),
{
    let mut it = Interpreter::new(true);
    it.run(program)
}

/// The value of an expression in a new interpreter. What the evaluation
/// emits is dropped.
pub fn eval_expr_for_tests(expr: &Expr) -> (r: Result<Value, Error>)
    ensures
        match r {
            Ok(v) => eval_model(
                expr.view(),
                initial_state(false),
                Seq::empty(),
                DEFAULT_MAX_DEPTH as nat,
            ).res == Ok::<ValueModel, ErrorModel>(v.view()),
            Err(e) => eval_model(
                expr.view(),
                initial_state(false),
                Seq::empty(),
                DEFAULT_MAX_DEPTH as nat,
            ).res == Err::<ValueModel, ErrorModel>(e.view()),
        },
{
    let it = Interpreter::new(false);
    let mut out: Vec<Output> = Vec::new();
    assert(outputs_view(out@) =~= Seq::<OutputModel>::empty());
    eval(expr, &it.env, &it.ctx, &mut out, DEFAULT_MAX_DEPTH)
}

} // verus!
