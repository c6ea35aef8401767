//! Well-formed values: in every list, each key has the position of an item
//! and no key occurs twice. Evaluation gives well-formed values and keeps
//! environments well-formed.

use vstd::prelude::*;
use crate::assoc::{bind, index_of, lemma_index_of, lookup, names};
use crate::ast::{ExprModel, ItemModel, StmtModel};
use crate::laws::{keys_fit, law_run_keeps_setup, lemma_bind_keys_fit};
use crate::semantics::{
    apply_model, bind_params, block_from, block_stmt, done, eval_args, eval_binary, eval_call,
    eval_custom, eval_from, eval_if, eval_index, eval_items, eval_list, eval_map, eval_method,
    eval_model, exec_model, exec_run_list, function_value, handle_model, head_name, is_application,
    is_run_call, loop_exit, loop_model, loop_plan, map_from, map_function, operator_function,
    resolve_from, round_cap, run_from, with_env, with_mode, BlockHandler, StateModel,
};
use crate::value::{
    AnswerModel, EnvModel, ErrorModel, FlowModel, KeysModel, OutputModel, ValueModel,
};
use crate::listform::{stmt_of_list};

verus! {

/// Whether a value is well-formed: its lists have their keys in order, and
/// so have the values it holds.
pub open spec fn value_ok(v: ValueModel) -> bool
    decreases v,
{
    match v {
        ValueModel::List(items, keys) => keys_fit(keys, items.len()) && forall|i: int|
            0 <= i < items.len() ==> value_ok(#[trigger] items[i]),
        ValueModel::Func(_, _, env) => forall|i: int|
            0 <= i < env.len() ==> value_ok((#[trigger] env[i]).1),
        ValueModel::FuncBlock(_, _, env) => forall|i: int|
            0 <= i < env.len() ==> value_ok((#[trigger] env[i]).1),
        _ => true,
    }
}

/// Whether all the values are well-formed.
pub open spec fn values_ok(vs: Seq<ValueModel>) -> bool {
    forall|i: int| 0 <= i < vs.len() ==> value_ok(#[trigger] vs[i])
}

/// Whether all that an environment binds is well-formed.
pub open spec fn env_ok(env: EnvModel) -> bool {
    forall|i: int| 0 <= i < env.len() ==> value_ok((#[trigger] env[i]).1)
}

/// Whether the values that the host answered with are well-formed.
pub open spec fn answers_ok(answers: Seq<AnswerModel>) -> bool {
    forall|i: int|
        0 <= i < answers.len() ==> match #[trigger] answers[i] {
            AnswerModel::Returned(v) => value_ok(v),
            _ => true,
        }
}

/// Whether the environment of an interpreter and the answers of the host
/// are well-formed.
pub open spec fn state_ok(st: StateModel) -> bool {
    env_ok(st.env) && answers_ok(st.answers)
}

/// Whether a signal carries a well-formed value, if it carries one.
pub open spec fn flow_ok(r: Result<FlowModel, ErrorModel>) -> bool {
    match r {
        Ok(FlowModel::Return(Some(v))) => value_ok(v),
        _ => true,
    }
}

/// Whether the result of an evaluation is well-formed, if it is a value.
pub open spec fn result_ok(r: Result<ValueModel, ErrorModel>) -> bool {
    match r {
        Ok(v) => value_ok(v),
        Err(_) => true,
    }
}

/// Whether the results of an evaluation are well-formed, if they are values.
pub open spec fn results_ok(r: Result<Seq<ValueModel>, ErrorModel>) -> bool {
    match r {
        Ok(vs) => values_ok(vs),
        Err(_) => true,
    }
}

/// What a well-formed environment binds a name to is well-formed.
pub proof fn lemma_lookup_ok(env: EnvModel, name: Seq<char>)
    requires
        env_ok(env),
    ensures
        lookup(env, name) is Some ==> value_ok(lookup(env, name)->0),
{
    lemma_index_of(names(env), name);
}

/// Binding a name to a well-formed value keeps an environment well-formed.
pub proof fn lemma_bind_ok(env: EnvModel, name: Seq<char>, v: ValueModel)
    requires
        env_ok(env),
        value_ok(v),
    ensures
        env_ok(bind(env, name, v)),
{
    lemma_index_of(names(env), name);
    let t = bind(env, name, v);
    assert forall|i: int| 0 <= i < t.len() implies value_ok((#[trigger] t[i]).1) by {
        if i < env.len() && i != index_of(names(env), name) {
            assert(t[i] == env[i]);
        }
    }
}

/// Binding parameters to well-formed arguments keeps an environment well-formed.
pub proof fn lemma_bind_params_ok(
    env: EnvModel,
    params: Seq<Seq<char>>,
    args: Seq<ValueModel>,
    i: int,
)
    requires
        env_ok(env),
        values_ok(args),
        0 <= i,
    ensures
        env_ok(bind_params(env, params, args, i)),
    decreases params.len() - i,
{
    if i < params.len() && i < args.len() {
        lemma_bind_ok(env, params[i], args[i]);
        lemma_bind_params_ok(bind(env, params[i], args[i]), params, args, i + 1);
    }
}

/// Replacing names by what a well-formed environment binds them to gives
/// well-formed values.
pub proof fn lemma_resolve_ok(items: Seq<ValueModel>, i: int, acc: Seq<ValueModel>, env: EnvModel)
    requires
        env_ok(env),
        values_ok(items),
        values_ok(acc),
        0 <= i,
    ensures
        results_ok(resolve_from(items, i, acc, env)),
    decreases items.len() - i,
{
    if i < items.len() {
        match items[i] {
            ValueModel::Str(s) => {
                lemma_lookup_ok(env, s);
                if lookup(env, s) is Some {
                    lemma_resolve_ok(items, i + 1, acc.push(lookup(env, s)->0), env);
                }
            },
            ValueModel::Sym(s) => {
                lemma_lookup_ok(env, s);
                if lookup(env, s) is Some {
                    lemma_resolve_ok(items, i + 1, acc.push(lookup(env, s)->0), env);
                }
            },
            other => {
                lemma_resolve_ok(items, i + 1, acc.push(other), env);
            },
        }
    }
}

/// The value of an expression in a well-formed environment is well-formed.
pub proof fn law_eval_ok(e: ExprModel, st: StateModel, out: Seq<OutputModel>, depth: nat)
    requires
        state_ok(st),
    ensures
        result_ok(eval_model(e, st, out, depth).res),
    decreases depth, 3nat, e, 1nat,
{
    match e {
        ExprModel::Var(name) => {
            lemma_lookup_ok(st.env, name);
        },
        ExprModel::Block(stmts) => {
            lemma_block_from_ok(stmts, 0, st.env, ValueModel::Int(0), st, out, depth);
        },
        ExprModel::BlockNoValue(stmts) => {},
        ExprModel::SList(items) => {
            lemma_eval_from_ok(items, 0, Seq::empty(), st, out, depth);
        },
        ExprModel::List(_) => {
            lemma_eval_list_ok(e, st, out, depth);
        },
        ExprModel::Call(_, _) => {
            lemma_eval_call_ok(e, st, out, depth);
        },
        ExprModel::Binary(_, _, _) => {
            lemma_eval_binary_ok(e, st, out, depth);
        },
        ExprModel::If(_, _, _) => {
            lemma_eval_if_ok(e, st, out, depth);
        },
        ExprModel::Custom(_, _, _) => {
            lemma_eval_custom_ok(e, st, out, depth);
        },
        ExprModel::MapWith(_, _) => {
            lemma_eval_map_ok(e, st, out, depth);
        },
        ExprModel::Group(inner) => {
            law_eval_ok(*inner, st, out, depth);
        },
        ExprModel::Index(_, _) => {
            lemma_eval_index_ok(e, st, out, depth);
        },
        ExprModel::Method(_, _, _) => {
            lemma_eval_method_ok(e, st, out, depth);
        },
        _ => {},
    }
}

proof fn lemma_eval_method_ok(e: ExprModel, st: StateModel, out: Seq<OutputModel>, depth: nat)
    requires
        e is Method,
    ensures
        result_ok(eval_method(e, st, out, depth).res),
{
}

proof fn lemma_eval_binary_ok(e: ExprModel, st: StateModel, out: Seq<OutputModel>, depth: nat)
    requires
        e is Binary,
    ensures
        result_ok(eval_binary(e, st, out, depth).res),
{
}

proof fn lemma_eval_if_ok(e: ExprModel, st: StateModel, out: Seq<OutputModel>, depth: nat)
    requires
        state_ok(st),
        e is If,
    ensures
        result_ok(eval_if(e, st, out, depth).res),
    decreases depth, 3nat, e, 0nat,
{
    match e {
        ExprModel::If(c, t, other) => {
            let rc = eval_model(*c, st, out, depth);
            law_eval_ok(*t, st, rc.out, depth);
            match other {
                Some(o) => {
                    law_eval_ok(*o, st, rc.out, depth);
                },
                None => {},
            }
        },
        _ => {},
    }
}

proof fn lemma_eval_index_ok(e: ExprModel, st: StateModel, out: Seq<OutputModel>, depth: nat)
    requires
        state_ok(st),
        e is Index,
    ensures
        result_ok(eval_index(e, st, out, depth).res),
    decreases depth, 3nat, e, 0nat,
{
    match e {
        ExprModel::Index(list, index) => {
            let rl = eval_model(*list, st, out, depth);
            law_eval_ok(*list, st, out, depth);
            match rl.res {
                Ok(ValueModel::List(items, keys)) => {
                    let ri = eval_model(*index, st, rl.out, depth);
                    match ri.res {
                        Ok(ValueModel::Str(s)) => {
                            lemma_index_of(names(keys), s);
                        },
                        _ => {},
                    }
                },
                _ => {},
            }
        },
        _ => {},
    }
}

proof fn lemma_eval_from_ok(
    es: Seq<ExprModel>,
    i: int,
    acc: Seq<ValueModel>,
    st: StateModel,
    out: Seq<OutputModel>,
    depth: nat,
)
    requires
        state_ok(st),
        values_ok(acc),
        0 <= i,
    ensures
        results_ok(eval_from(es, i, acc, st, out, depth).res),
    decreases depth, 3nat, es, es.len() - i,
{
    if i < es.len() {
        let r = eval_model(es[i], st, out, depth);
        law_eval_ok(es[i], st, out, depth);
        if r.res is Ok {
            lemma_eval_from_ok(es, i + 1, acc.push(r.res->Ok_0), st, r.out, depth);
        }
    }
}

proof fn lemma_eval_args_ok(
    items: Seq<ItemModel>,
    i: int,
    acc: Seq<ValueModel>,
    st: StateModel,
    out: Seq<OutputModel>,
    depth: nat,
)
    requires
        state_ok(st),
        values_ok(acc),
        0 <= i,
    ensures
        results_ok(eval_args(items, i, acc, st, out, depth).res),
    decreases depth, 3nat, items, items.len() - i,
{
    if i < items.len() && items[i].key.is_none() {
        let r = eval_model(items[i].value, st, out, depth);
        law_eval_ok(items[i].value, st, out, depth);
        if r.res is Ok {
            lemma_eval_args_ok(items, i + 1, acc.push(r.res->Ok_0), st, r.out, depth);
        }
    }
}

proof fn lemma_eval_items_ok(
    items: Seq<ItemModel>,
    i: int,
    vals: Seq<ValueModel>,
    keys: KeysModel,
    st: StateModel,
    out: Seq<OutputModel>,
    depth: nat,
)
    requires
        state_ok(st),
        values_ok(vals),
        keys_fit(keys, items.len()),
        0 <= i <= items.len(),
        vals.len() == i,
    ensures
        result_ok(eval_items(items, i, vals, keys, st, out, depth).res),
    decreases depth, 3nat, items, items.len() - i,
{
    if i < items.len() {
        let r = match items[i].value {
            ExprModel::Var(name) => done(out, ValueModel::Sym(name)),
            other => eval_model(other, st, out, depth),
        };
        match items[i].value {
            ExprModel::Var(name) => {},
            other => {
                law_eval_ok(other, st, out, depth);
            },
        }
        if r.res is Ok {
            let keys2 = match items[i].key {
                Some(k) => bind(keys, k, i as nat),
                None => keys,
            };
            if items[i].key.is_some() {
                lemma_bind_keys_fit(keys, items[i].key.unwrap(), i as nat, items.len());
            }
            lemma_eval_items_ok(items, i + 1, vals.push(r.res->Ok_0), keys2, st, r.out, depth);
        }
    }
}

proof fn lemma_eval_list_ok(e: ExprModel, st: StateModel, out: Seq<OutputModel>, depth: nat)
    requires
        state_ok(st),
        e is List,
    ensures
        result_ok(eval_list(e, st, out, depth).res),
    decreases depth, 3nat, e, 0nat,
{
    match e {
        ExprModel::List(items) => {
            if is_application(items, st.env) {
                let f = lookup(st.env, head_name(items)->0)->0;
                lemma_lookup_ok(st.env, head_name(items)->0);
                let a = eval_args(items, 1, Seq::empty(), st, out, depth);
                lemma_eval_args_ok(items, 1, Seq::empty(), st, out, depth);
                if a.res is Ok {
                    lemma_apply_ok(f, a.res->Ok_0, st, a.out, depth);
                }
            } else {
                lemma_eval_items_ok(items, 0, Seq::empty(), Seq::empty(), st, out, depth);
            }
        },
        _ => {},
    }
}

proof fn lemma_eval_call_ok(e: ExprModel, st: StateModel, out: Seq<OutputModel>, depth: nat)
    requires
        state_ok(st),
        e is Call,
    ensures
        result_ok(eval_call(e, st, out, depth).res),
    decreases depth, 3nat, e, 0nat,
{
    match e {
        ExprModel::Call(name, args) => {
            if name == "value_of"@ {
                if args.len() == 1 {
                    let r = eval_model(args[0], st, out, depth);
                    law_eval_ok(args[0], st, out, depth);
                    match r.res {
                        Ok(ValueModel::List(items, _)) => {
                            lemma_resolve_ok(items, 0, Seq::empty(), st.env);
                        },
                        Ok(ValueModel::Str(s)) => {
                            lemma_lookup_ok(st.env, s);
                        },
                        Ok(ValueModel::Sym(s)) => {
                            lemma_lookup_ok(st.env, s);
                        },
                        _ => {},
                    }
                }
            } else {
                let a = eval_from(args, 0, Seq::empty(), st, out, depth);
                lemma_eval_from_ok(args, 0, Seq::empty(), st, out, depth);
                lemma_lookup_ok(st.env, name);
                if a.res is Ok && lookup(st.env, name) is Some {
                    lemma_apply_ok(lookup(st.env, name)->0, a.res->Ok_0, st, a.out, depth);
                }
            }
        },
        _ => {},
    }
}

proof fn lemma_eval_custom_ok(e: ExprModel, st: StateModel, out: Seq<OutputModel>, depth: nat)
    requires
        state_ok(st),
        e is Custom,
    ensures
        result_ok(eval_custom(e, st, out, depth).res),
    decreases depth, 3nat, e, 0nat,
{
    match e {
        ExprModel::Custom(a, op, b) => {
            let ra = eval_model(*a, st, out, depth);
            law_eval_ok(*a, st, out, depth);
            if ra.res is Ok {
                let rb = eval_model(*b, st, ra.out, depth);
                law_eval_ok(*b, st, ra.out, depth);
                if rb.res is Ok {
                    match lookup(st.ops, op) {
                        Some(fname) => {
                            lemma_lookup_ok(st.env, fname);
                        },
                        None => {},
                    }
                    match operator_function(op, st) {
                        Ok(f) => {
                            lemma_apply_ok(f, seq![ra.res->Ok_0, rb.res->Ok_0], st, rb.out, depth);
                        },
                        Err(_) => {},
                    }
                }
            }
        },
        _ => {},
    }
}

proof fn lemma_eval_map_ok(e: ExprModel, st: StateModel, out: Seq<OutputModel>, depth: nat)
    requires
        state_ok(st),
        e is MapWith,
    ensures
        result_ok(eval_map(e, st, out, depth).res),
    decreases depth, 3nat, e, 0nat,
{
    match e {
        ExprModel::MapWith(list, name) => {
            let rl = eval_model(*list, st, out, depth);
            law_eval_ok(*list, st, out, depth);
            match rl.res {
                Ok(ValueModel::List(items, _)) => {
                    lemma_lookup_ok(st.env, name);
                    match map_function(name, st) {
                        Ok(f) => {
                            lemma_map_from_ok(f, items, 0, Seq::empty(), st, rl.out, depth);
                        },
                        Err(_) => {},
                    }
                },
                _ => {},
            }
        },
        _ => {},
    }
}

proof fn lemma_map_from_ok(
    f: ValueModel,
    items: Seq<ValueModel>,
    i: int,
    acc: Seq<ValueModel>,
    st: StateModel,
    out: Seq<OutputModel>,
    depth: nat,
)
    requires
        state_ok(st),
        value_ok(f),
        values_ok(items),
        values_ok(acc),
        0 <= i,
    ensures
        results_ok(map_from(f, items, i, acc, st, out, depth).res),
    decreases depth, 2nat, items, items.len() - i,
{
    if i < items.len() {
        let r = apply_model(f, seq![items[i]], st, out, depth);
        lemma_apply_ok(f, seq![items[i]], st, out, depth);
        if r.res is Ok {
            lemma_map_from_ok(f, items, i + 1, acc.push(r.res->Ok_0), st, r.out, depth);
        }
    }
}

proof fn lemma_apply_ok(
    f: ValueModel,
    args: Seq<ValueModel>,
    st: StateModel,
    out: Seq<OutputModel>,
    depth: nat,
)
    requires
        answers_ok(st.answers),
        value_ok(f),
        values_ok(args),
    ensures
        result_ok(apply_model(f, args, st, out, depth).res),
    decreases depth, 1nat, f, 0nat,
{
    if depth > 0 {
        match f {
            ValueModel::Func(params, body, fenv) => {
                assert(env_ok(fenv));
                lemma_bind_params_ok(fenv, params, args, 0);
                law_eval_ok(
                    body,
                    with_env(st, bind_params(fenv, params, args, 0)),
                    out,
                    (depth - 1) as nat,
                );
            },
            ValueModel::FuncBlock(params, body, fenv) => {
                assert(env_ok(fenv));
                lemma_bind_params_ok(fenv, params, args, 0);
                law_run_ok(
                    body,
                    0,
                    with_env(st, bind_params(fenv, params, args, 0)),
                    out,
                    (depth - 1) as nat,
                );
            },
            _ => {},
        }
    }
}

proof fn lemma_block_from_ok(
    stmts: Seq<StmtModel>,
    i: int,
    env: EnvModel,
    last: ValueModel,
    st: StateModel,
    out: Seq<OutputModel>,
    depth: nat,
)
    requires
        env_ok(env),
        answers_ok(st.answers),
        value_ok(last),
        0 <= i,
    ensures
        ({
            let b = block_from(stmts, i, env, last, st, out, depth);
            &&& env_ok(b.env)
            &&& value_ok(b.last)
            &&& match b.res {
                Ok(Some(v)) => value_ok(v),
                _ => true,
            }
        }),
    decreases depth, 3nat, stmts, stmts.len() - i,
{
    if i < stmts.len() {
        let r = block_stmt(stmts[i], env, last, st, out, depth);
        lemma_block_stmt_ok(stmts[i], env, last, st, out, depth);
        if r.res == Ok::<Option<ValueModel>, ErrorModel>(None) {
            lemma_block_from_ok(stmts, i + 1, r.env, r.last, st, r.out, depth);
        }
    }
}

proof fn lemma_block_stmt_ok(
    stmt: StmtModel,
    env: EnvModel,
    last: ValueModel,
    st: StateModel,
    out: Seq<OutputModel>,
    depth: nat,
)
    requires
        env_ok(env),
        answers_ok(st.answers),
        value_ok(last),
    ensures
        ({
            let b = block_stmt(stmt, env, last, st, out, depth);
            &&& env_ok(b.env)
            &&& value_ok(b.last)
            &&& match b.res {
                Ok(Some(v)) => value_ok(v),
                _ => true,
            }
        }),
    decreases depth, 3nat, stmt, 0nat,
{
    match stmt {
        StmtModel::Let(name, e) => {
            let r = eval_model(e, with_env(st, env), out, depth);
            law_eval_ok(e, with_env(st, env), out, depth);
            if r.res is Ok {
                lemma_bind_ok(env, name, r.res->Ok_0);
            }
        },
        StmtModel::PrintExpr(e) => {},
        StmtModel::ExprStmt(e) => {
            law_eval_ok(e, with_env(st, env), out, depth);
        },
        StmtModel::Return(Some(e)) => {
            law_eval_ok(e, with_env(st, env), out, depth);
        },
        StmtModel::If(c, t, other) => {
            let r = eval_model(c, with_env(st, env), out, depth);
            lemma_block_stmt_ok(*t, env, ValueModel::Int(0), st, r.out, depth);
            match other {
                Some(o) => {
                    lemma_block_stmt_ok(*o, env, ValueModel::Int(0), st, r.out, depth);
                },
                None => {},
            }
        },
        _ => {},
    }
}

/// A run of statements in a well-formed environment leaves the environment
/// well-formed, and a value that it returns is well-formed.
pub proof fn law_run_ok(
    stmts: Seq<StmtModel>,
    i: int,
    st: StateModel,
    out: Seq<OutputModel>,
    depth: nat,
)
    requires
        state_ok(st),
        0 <= i,
    ensures
        state_ok(run_from(stmts, i, st, out, depth).state),
        flow_ok(run_from(stmts, i, st, out, depth).res),
    decreases depth, 3nat, stmts, stmts.len() - i,
{
    if i < stmts.len() {
        let r = exec_model(stmts[i], st, out, depth);
        law_statement_ok(stmts[i], st, out, depth);
        if r.res == Ok::<FlowModel, ErrorModel>(FlowModel::Continue) {
            law_run_ok(stmts, i + 1, r.state, r.out, depth);
        }
    }
}

/// A statement executed in a well-formed environment leaves the
/// environment well-formed, and a value that it returns is well-formed.
pub proof fn law_statement_ok(stmt: StmtModel, st: StateModel, out: Seq<OutputModel>, depth: nat)
    requires
        state_ok(st),
    ensures
        state_ok(exec_model(stmt, st, out, depth).state),
        flow_ok(exec_model(stmt, st, out, depth).res),
    decreases depth, 3nat, stmt, 1nat,
{
    match stmt {
        StmtModel::Let(name, e) => {
            let r = eval_model(e, st, out, depth);
            law_eval_ok(e, st, out, depth);
            if r.res is Ok {
                lemma_bind_ok(st.env, name, r.res->Ok_0);
            }
        },
        StmtModel::LetFunc(name, params, body) => {
            let f = function_value(params, body, st.env);
            assert(value_ok(f));
            lemma_bind_ok(st.env, name, f);
        },
        StmtModel::RunList(_) => {
            lemma_run_list_ok(stmt, st, out, depth);
        },
        StmtModel::Return(Some(e)) => {
            law_eval_ok(e, st, out, depth);
        },
        StmtModel::Block(name, meta, body) => {
            match lookup(st.handlers, name) {
                Some(h) => {
                    lemma_block_ok(h, meta, body, st, out, depth);
                },
                None => {},
            }
        },
        StmtModel::If(c, t, other) => {
            let r = eval_model(c, st, out, depth);
            law_statement_ok(*t, st, r.out, depth);
            match other {
                Some(o) => {
                    law_statement_ok(*o, st, r.out, depth);
                },
                None => {},
            }
        },
        _ => {},
    }
}

proof fn lemma_run_list_ok(stmt: StmtModel, st: StateModel, out: Seq<OutputModel>, depth: nat)
    requires
        state_ok(st),
        stmt is RunList,
    ensures
        state_ok(exec_run_list(stmt, st, out, depth).state),
        flow_ok(exec_run_list(stmt, st, out, depth).res),
    decreases depth, 3nat, stmt, 0nat,
{
    match stmt {
        StmtModel::RunList(items) => {
            if items.len() > 0 && !is_run_call(items, st.env) {
                match stmt_of_list(items) {
                    Ok(s) => {
                        if depth > 0 {
                            law_run_ok(seq![s], 0, st, out, (depth - 1) as nat);
                        }
                    },
                    Err(_) => {},
                }
            }
        },
        _ => {},
    }
}

proof fn lemma_block_ok(
    h: BlockHandler,
    meta: Seq<ItemModel>,
    body: Seq<StmtModel>,
    st: StateModel,
    out: Seq<OutputModel>,
    depth: nat,
)
    requires
        state_ok(st),
    ensures
        state_ok(handle_model(h, meta, body, st, out, depth).state),
        flow_ok(handle_model(h, meta, body, st, out, depth).res),
    decreases depth, 2nat, body, 0nat,
{
    if depth > 0 {
        match h {
            BlockHandler::Test => {
                law_run_ok(body, 0, with_mode(st, false), out, (depth - 1) as nat);
            },
            BlockHandler::TestInit => {
                law_run_ok(body, 0, with_mode(st, false), out, (depth - 1) as nat);
            },
            BlockHandler::NoTest => {
                law_run_ok(body, 0, st, out, (depth - 1) as nat);
            },
            BlockHandler::Loop => {
                match loop_plan(meta) {
                    Ok(plan) => {
                        let p = run_from(plan.persist, 0, st, out, (depth - 1) as nat);
                        law_run_ok(plan.persist, 0, st, out, (depth - 1) as nat);
                        lemma_loop_ok(
                            body,
                            plan.step,
                            plan.label,
                            p.state,
                            st.env,
                            round_cap(st.test_mode),
                            p.out,
                            depth,
                        );
                    },
                    Err(_) => {},
                }
            },
        }
    }
}

proof fn lemma_loop_ok(
    body: Seq<StmtModel>,
    step: Seq<StmtModel>,
    label: Option<Seq<char>>,
    st: StateModel,
    saved: EnvModel,
    rounds: nat,
    out: Seq<OutputModel>,
    depth: nat,
)
    requires
        state_ok(st),
        env_ok(saved),
    ensures
        state_ok(loop_model(body, step, label, st, saved, rounds, out, depth).state),
        flow_ok(loop_model(body, step, label, st, saved, rounds, out, depth).res),
    decreases depth, 1nat, body, rounds,
{
    if rounds > 0 && depth > 0 {
        let b = run_from(body, 0, st, out, (depth - 1) as nat);
        law_run_ok(body, 0, st, out, (depth - 1) as nat);
        if (b.res is Ok) && loop_exit(b.res->Ok_0, label).is_none() {
            let s = run_from(step, 0, with_env(b.state, st.env), b.out, (depth - 1) as nat);
            law_run_ok(step, 0, with_env(b.state, st.env), b.out, (depth - 1) as nat);
            if (s.res is Ok) && loop_exit(s.res->Ok_0, label).is_none() {
                lemma_loop_ok(body, step, label, s.state, saved, (rounds - 1) as nat, s.out, depth);
            }
        }
    }
}

} // verus!
