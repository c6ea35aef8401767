//! Laws of the language, proved of the semantics.

use vstd::prelude::*;
use crate::arith::{int_binary, trunc_div, trunc_rem, wrap};
use crate::assoc::{bind, binds, index_of, lemma_bind_lookup, lemma_index_of, lookup, names};
use crate::ast::{BinOp, ExprModel, ItemModel, StmtModel};
use crate::listform::{
    block_stmt, call_stmt, directive, directive_list, if_stmt, item_values, let_func_stmt,
    list_items, list_of_stmt, name_items, names_from, plain, plain_items, stmt_items, stmt_of_list,
    stmts_from,
};
use crate::semantics::{
    all_accepted, apply_model, arity_message, done, eval_args, eval_binary, eval_call, eval_from,
    eval_items, eval_list, eval_model, exec_model, exec_run_list, failed, function_value,
    handle_model, head_name, index_value, is_application, is_run_call, loop_exit, loop_model,
    loop_plan, map_function, operator_function, proceed, round_cap, run_from, with_env, with_mode,
    BlockHandler, Eval, StateModel,
};
use crate::value::{
    accepts, callable, param_count, EnvModel, ErrorKind, ErrorModel, FlowModel, KeysModel,
    OutputModel, ParamType, ValueModel,
};

verus! {

/// A quotient cut off towards zero and the remainder that goes with it give
/// the dividend back; the remainder is smaller in size than the divisor and
/// is zero or has the sign of the dividend.
pub proof fn law_quotient_and_remainder(x: int, y: int)
    requires
        y != 0,
    ensures
        x == y * trunc_div(x, y) + trunc_rem(x, y),
        y > 0 ==> -y < trunc_rem(x, y) < y,
        y < 0 ==> y < trunc_rem(x, y) < -y,
        x >= 0 ==> trunc_rem(x, y) >= 0,
        x <= 0 ==> trunc_rem(x, y) <= 0,
{
    let ax = if x >= 0 {
        x
    } else {
        -x
    };
    let ay = if y > 0 {
        y
    } else {
        -y
    };
    vstd::arithmetic::div_mod::lemma_fundamental_div_mod(ax, ay);
    vstd::arithmetic::div_mod::lemma_mod_pos_bound(ax, ay);
    let q = ax / ay;
    let r = ax % ay;
    assert(ax == ay * q + r);
    if x >= 0 {
        if y > 0 {
        } else {
            assert(y * (-q) == ay * q) by (nonlinear_arith)
                requires
                    ay == -y,
            ;
        }
    } else {
        if y > 0 {
            assert(y * (-q) == -(ay * q)) by (nonlinear_arith)
                requires
                    ay == y,
            ;
        } else {
            assert(y * q == -(ay * q)) by (nonlinear_arith)
                requires
                    ay == -y,
            ;
        }
    }
}

/// An operator on two expressions that give integers gives what the
/// operator makes of the integers: the sum, difference, product or power
/// wrapped to 64 bits, the quotient cut off towards zero, the remainder
/// with the sign of the dividend, or one or zero for a comparison.
pub proof fn law_integer_arithmetic(
    op: BinOp,
    a: ExprModel,
    b: ExprModel,
    x: i64,
    y: i64,
    st: StateModel,
    out: Seq<OutputModel>,
    depth: nat,
)
    requires
        eval_model(a, st, out, depth).res == Ok::<ValueModel, ErrorModel>(
            ValueModel::Int(x),
        ),
        eval_model(b, st, eval_model(a, st, out, depth).out, depth).res == Ok::<
            ValueModel,
            ErrorModel,
        >(ValueModel::Int(y)),
    ensures
        eval_model(ExprModel::Binary(op, Box::new(a), Box::new(b)), st, out, depth).out
            == eval_model(b, st, eval_model(a, st, out, depth).out, depth).out,
        match int_binary(op, x, y) {
            Ok(z) => eval_model(
                ExprModel::Binary(op, Box::new(a), Box::new(b)),
                st,
                out,
                depth,
            ).res == Ok::<ValueModel, ErrorModel>(ValueModel::Int(z)),
            Err(e) => eval_model(
                ExprModel::Binary(op, Box::new(a), Box::new(b)),
                st,
                out,
                depth,
            ).res == Err::<ValueModel, ErrorModel>(e),
        },
        op == BinOp::Add ==> int_binary(op, x, y) == Ok::<i64, ErrorModel>(
            wrap(x + y),
        ),
        op == BinOp::Sub ==> int_binary(op, x, y) == Ok::<i64, ErrorModel>(
            wrap(x - y),
        ),
        op == BinOp::Mul ==> int_binary(op, x, y) == Ok::<i64, ErrorModel>(
            wrap(x * y),
        ),
        op == BinOp::Div && y != 0 ==> int_binary(op, x, y) == Ok::<i64, ErrorModel>(
            wrap(trunc_div(x as int, y as int)),
        ),
        op == BinOp::Mod && y != 0 ==> int_binary(op, x, y) == Ok::<i64, ErrorModel>(
            wrap(trunc_rem(x as int, y as int)),
        ),
{
    let e = ExprModel::Binary(op, Box::new(a), Box::new(b));
    assert(eval_model(e, st, out, depth) == eval_binary(e, st, out, depth));
}

/// A function applied to a number of arguments other than the number of its
/// parameters fails with an arity error: nothing is bound, nothing of its
/// body runs, and nothing is emitted.
pub proof fn law_arity(
    f: ValueModel,
    args: Seq<ValueModel>,
    st: StateModel,
    out: Seq<OutputModel>,
    depth: nat,
)
    requires
        callable(f),
        args.len() != param_count(f),
    ensures
        apply_model(f, args, st, out, depth) == failed(
            out,
            ErrorKind::Arity,
            arity_message(param_count(f), args.len()),
        ),
{
}

/// The arguments are all accepted just when each parameter takes its argument.
pub proof fn lemma_all_accepted(params: Seq<ParamType>, args: Seq<ValueModel>, i: int)
    requires
        0 <= i,
        params.len() == args.len(),
    ensures
        all_accepted(params, args, i) <==> forall|j: int|
            i <= j < params.len() ==> accepts(#[trigger] params[j], args[j]),
    decreases params.len() - i,
{
    if i < params.len() {
        lemma_all_accepted(params, args, i + 1);
    }
}

/// A native function called with an argument of a kind that its parameter
/// does not take fails with a type error before the host is asked: nothing
/// is recorded in the log.
pub proof fn law_native_types(
    params: Seq<ParamType>,
    name: Seq<char>,
    args: Seq<ValueModel>,
    j: int,
    st: StateModel,
    out: Seq<OutputModel>,
    depth: nat,
)
    requires
        params.len() == args.len(),
        0 <= j < params.len(),
        !accepts(params[j], args[j]),
    ensures
        apply_model(ValueModel::NativeFunc(params, name), args, st, out, depth) == failed(
            out,
            ErrorKind::Type,
            "argument type mismatch"@,
        ),
{
    lemma_all_accepted(params, args, 0);
}

/// A call by name of a function with the wrong number of arguments fails
/// with an arity error.
pub proof fn law_call_arity(
    name: Seq<char>,
    args: Seq<ExprModel>,
    f: ValueModel,
    st: StateModel,
    out: Seq<OutputModel>,
    depth: nat,
)
    requires
        name != "value_of"@,
        lookup(st.env, name) == Some(f),
        callable(f),
        eval_from(args, 0, Seq::empty(), st, out, depth).res is Ok,
        args.len() != param_count(f),
    ensures
        eval_model(ExprModel::Call(name, args), st, out, depth).res is Err,
        eval_model(ExprModel::Call(name, args), st, out, depth).res->Err_0.kind
            == ErrorKind::Arity,
{
    let e = ExprModel::Call(name, args);
    assert(eval_model(e, st, out, depth) == eval_call(e, st, out, depth));
    let a = eval_from(args, 0, Seq::empty(), st, out, depth);
    lemma_eval_from_len(args, 0, Seq::empty(), st, out, depth);
    law_arity(f, a.res->Ok_0, st, a.out, depth);
}

/// A custom operator that names a function of other than two parameters
/// fails with an arity error, and a map that names a function of other than
/// one parameter does.
pub proof fn law_operator_arity(op: Seq<char>, fname: Seq<char>, f: ValueModel, st: StateModel)
    requires
        lookup(st.env, fname) == Some(f),
        callable(f),
    ensures
        lookup(st.ops, op) == Some(fname) && param_count(f) != 2 ==> operator_function(op, st)
            is Err && operator_function(op, st)->Err_0.kind == ErrorKind::Arity,
        param_count(f) != 1 ==> map_function(fname, st) is Err && map_function(
            fname,
            st,
        )->Err_0.kind == ErrorKind::Arity,
{
}

/// The values that `eval_from` gives are as many as the expressions.
pub proof fn lemma_eval_from_len(
    es: Seq<ExprModel>,
    i: int,
    acc: Seq<ValueModel>,
    st: StateModel,
    out: Seq<OutputModel>,
    depth: nat,
)
    requires
        0 <= i <= es.len(),
    ensures
        eval_from(es, i, acc, st, out, depth).res is Ok ==> eval_from(
            es,
            i,
            acc,
            st,
            out,
            depth,
        ).res->Ok_0.len() == acc.len() + es.len() - i,
    decreases es.len() - i,
{
    if i < es.len() {
        let r = eval_model(es[i], st, out, depth);
        if (r.res is Ok) {
            lemma_eval_from_len(es, i + 1, acc.push(r.res->Ok_0), st, r.out, depth);
        }
    }
}

/// What applying a function of the language gives does not depend on the
/// environment of the caller: the body sees the environment that the
/// function captured, and the arguments.
pub proof fn law_call_ignores_caller_env(
    f: ValueModel,
    args: Seq<ValueModel>,
    st: StateModel,
    other: EnvModel,
    out: Seq<OutputModel>,
    depth: nat,
)
    requires
        !(f is NativeFunc),
    ensures
        apply_model(f, args, with_env(st, other), out, depth) == apply_model(
            f,
            args,
            st,
            out,
            depth,
        ),
{
    assert(forall|env: EnvModel| with_env(with_env(st, other), env) == with_env(st, env));
}

/// A function holds the environment of its definition: `let_func` binds
/// the name to a function with the environment as it is then, and binding
/// another name later leaves that function as it is.
pub proof fn law_closure_snapshot(
    name: Seq<char>,
    params: Seq<Seq<char>>,
    body: Seq<StmtModel>,
    st: StateModel,
    out: Seq<OutputModel>,
    depth: nat,
    later: Seq<char>,
    v: ValueModel,
)
    requires
        later != name,
    ensures
        ({
            let defined = exec_model(StmtModel::LetFunc(name, params, body), st, out, depth);
            let f = function_value(params, body, st.env);
            &&& defined.res == Ok::<FlowModel, ErrorModel>(FlowModel::Continue)
            &&& defined.out == out
            &&& lookup(defined.state.env, name) == Some(f)
            &&& lookup(bind(defined.state.env, later, v), name) == Some(f)
            &&& match f {
                ValueModel::Func(_, _, env) => env == st.env,
                ValueModel::FuncBlock(_, _, env) => env == st.env,
                _ => false,
            }
        }),
{
    let f = function_value(params, body, st.env);
    lemma_bind_lookup(st.env, name, f, name);
    lemma_bind_lookup(bind(st.env, name, f), later, v, name);
}

/// A list expression whose head names a function is that function applied
/// to the values of the other items.
pub proof fn law_list_application(
    items: Seq<ItemModel>,
    st: StateModel,
    out: Seq<OutputModel>,
    depth: nat,
)
    requires
        is_application(items, st.env),
    ensures
        ({
            let f = lookup(st.env, head_name(items)->0)->0;
            let a = eval_args(items, 1, Seq::empty(), st, out, depth);
            eval_model(ExprModel::List(items), st, out, depth) == match a.res {
                Ok(vs) => apply_model(f, vs, st, a.out, depth),
                Err(x) => Eval { out: a.out, res: Err(x) },
            }
        }),
{
    let e = ExprModel::List(items);
    assert(eval_model(e, st, out, depth) == eval_list(e, st, out, depth));
}

/// Whether keys are in order: each with a position before `len`, and no key twice.
pub open spec fn keys_fit(keys: KeysModel, len: nat) -> bool {
    &&& forall|j: int| 0 <= j < keys.len() ==> (#[trigger] keys[j]).1 < len
    &&& forall|j: int, k: int|
        0 <= j < k < keys.len() ==> (#[trigger] keys[j]).0 != (#[trigger] keys[k]).0
}

/// Binding a key to a position in range keeps keys in order.
pub proof fn lemma_bind_keys_fit(keys: KeysModel, key: Seq<char>, at: nat, len: nat)
    requires
        keys_fit(keys, len),
        at < len,
    ensures
        keys_fit(bind(keys, key, at), len),
{
    let i = index_of(names(keys), key);
    lemma_index_of(names(keys), key);
    let t = bind(keys, key, at);
    assert forall|j: int, k: int| 0 <= j < k < t.len() implies (#[trigger] t[j]).0 != (
    #[trigger] t[k]).0 by {
        if i < keys.len() {
            if j == i {
                assert(keys[k].0 == t[k].0);
                assert(keys[i].0 == key);
            } else if k == i {
                assert(keys[j].0 == t[j].0);
                assert(keys[i].0 == key);
            } else {
                assert(keys[j].0 == t[j].0 && keys[k].0 == t[k].0);
            }
        } else {
            if k == keys.len() {
                assert(names(keys)[j] != key);
            } else {
                assert(keys[j].0 == t[j].0 && keys[k].0 == t[k].0);
            }
        }
    }
}

/// The list that `eval_items` gives has one value for each item, and keys
/// in order.
pub proof fn lemma_eval_items(
    items: Seq<ItemModel>,
    i: int,
    vals: Seq<ValueModel>,
    keys: KeysModel,
    st: StateModel,
    out: Seq<OutputModel>,
    depth: nat,
)
    requires
        0 <= i <= items.len(),
        vals.len() == i,
        keys_fit(keys, items.len()),
    ensures
        match eval_items(items, i, vals, keys, st, out, depth).res {
            Ok(ValueModel::List(vs, ks)) => vs.len() == items.len() && keys_fit(ks, items.len()),
            Ok(_) => false,
            Err(_) => true,
        },
    decreases items.len() - i,
{
    if i < items.len() {
        let r = match items[i].value {
            ExprModel::Var(name) => done(out, ValueModel::Sym(name)),
            other => eval_model(other, st, out, depth),
        };
        if (r.res is Ok) {
            let keys2 = match items[i].key {
                Some(k) => bind(keys, k, i as nat),
                None => keys,
            };
            if items[i].key.is_some() {
                lemma_bind_keys_fit(keys, items[i].key.unwrap(), i as nat, items.len());
            }
            lemma_eval_items(items, i + 1, vals.push(r.res->Ok_0), keys2, st, r.out, depth);
        }
    }
}

/// A list expression whose head names no function is data: where its
/// evaluation succeeds it gives a list with one value for each item, in
/// which every key has the position of an item and no key occurs twice.
pub proof fn law_list_data(items: Seq<ItemModel>, st: StateModel, out: Seq<OutputModel>, depth: nat)
    requires
        !is_application(items, st.env),
    ensures
        match eval_model(ExprModel::List(items), st, out, depth).res {
            Ok(ValueModel::List(vs, ks)) => vs.len() == items.len() && keys_fit(ks, items.len()),
            Ok(_) => false,
            Err(_) => true,
        },
{
    let e = ExprModel::List(items);
    assert(eval_model(e, st, out, depth) == eval_list(e, st, out, depth));
    lemma_eval_items(items, 0, Seq::empty(), Seq::empty(), st, out, depth);
}

/// Indexing by a position in range gives the item there, and by a position
/// out of range fails with a lookup error; indexing by a key gives the item
/// at the key's position, and by a key that the list does not have fails
/// with a lookup error.
pub proof fn law_indexing(items: Seq<ValueModel>, keys: KeysModel, i: i64, key: Seq<char>)
    requires
        keys_fit(keys, items.len()),
    ensures
        0 <= i < items.len() ==> index_value(items, keys, ValueModel::Int(i)) == Ok::<
            ValueModel,
            ErrorModel,
        >(items[i as int]),
        !(0 <= i < items.len()) ==> index_value(items, keys, ValueModel::Int(i)) is Err
            && index_value(items, keys, ValueModel::Int(i))->Err_0.kind == ErrorKind::Lookup,
        binds(keys, key) ==> index_value(items, keys, ValueModel::Str(key)) == Ok::<
            ValueModel,
            ErrorModel,
        >(items[lookup(keys, key).unwrap() as int]),
        !binds(keys, key) ==> index_value(items, keys, ValueModel::Str(key)) is Err && index_value(
            items,
            keys,
            ValueModel::Str(key),
        )->Err_0.kind == ErrorKind::Lookup,
{
    lemma_index_of(names(keys), key);
}

/// Statements behind one that gives a signal other than `Continue`, or
/// fails, do not run: the run ends as that statement ended.
pub proof fn law_signal_short_circuits(
    stmts: Seq<StmtModel>,
    i: int,
    st: StateModel,
    out: Seq<OutputModel>,
    depth: nat,
)
    requires
        0 <= i < stmts.len(),
        exec_model(stmts[i], st, out, depth).res != Ok::<FlowModel, ErrorModel>(
            FlowModel::Continue,
        ),
    ensures
        run_from(stmts, i, st, out, depth) == exec_model(stmts[i], st, out, depth),
{
}

/// A `test` block leaves the environment, the operators and the mode as
/// they were, however its body ends; so does a `notest` block.
pub proof fn law_test_block_is_scoped(
    meta: Seq<ItemModel>,
    body: Seq<StmtModel>,
    st: StateModel,
    out: Seq<OutputModel>,
    depth: nat,
)
    ensures
        handle_model(BlockHandler::Test, meta, body, st, out, depth).state.env == st.env,
        handle_model(BlockHandler::Test, meta, body, st, out, depth).state.ops == st.ops,
        handle_model(BlockHandler::Test, meta, body, st, out, depth).state.test_mode
            == st.test_mode,
        handle_model(BlockHandler::NoTest, meta, body, st, out, depth).state.env == st.env,
        handle_model(BlockHandler::NoTest, meta, body, st, out, depth).state.ops == st.ops,
        handle_model(BlockHandler::NoTest, meta, body, st, out, depth).state.test_mode
            == st.test_mode,
{
}

/// A `test_init` block that runs keeps the environment and the operators
/// as its body left them.
pub proof fn law_test_init_keeps(
    meta: Seq<ItemModel>,
    body: Seq<StmtModel>,
    st: StateModel,
    out: Seq<OutputModel>,
    depth: nat,
)
    requires
        st.test_mode,
        depth > 0,
    ensures
        ({
            let inner = run_from(body, 0, with_mode(st, false), out, (depth - 1) as nat);
            let r = handle_model(BlockHandler::TestInit, meta, body, st, out, depth);
            &&& r.state.env == inner.state.env
            &&& r.state.ops == inner.state.ops
            &&& r.state.test_mode
            &&& r.out == inner.out
            &&& r.res == inner.res
        }),
{
}

/// A test block outside test mode, and a `notest` block in it, does nothing.
pub proof fn law_block_mode(
    meta: Seq<ItemModel>,
    body: Seq<StmtModel>,
    st: StateModel,
    out: Seq<OutputModel>,
    depth: nat,
)
    ensures
        !st.test_mode ==> handle_model(BlockHandler::Test, meta, body, st, out, depth)
            == proceed(out, st),
        !st.test_mode ==> handle_model(BlockHandler::TestInit, meta, body, st, out, depth)
            == proceed(out, st),
        st.test_mode ==> handle_model(BlockHandler::NoTest, meta, body, st, out, depth)
            == proceed(out, st),
{
}

/// A round of a loop whose body ends with a `break` for this loop is the
/// last: the loop emits what that run of the body emitted, its step does
/// not run, and it ends normally with the caller's environment put back.
pub proof fn law_loop_break(
    body: Seq<StmtModel>,
    step: Seq<StmtModel>,
    label: Option<Seq<char>>,
    st: StateModel,
    saved: EnvModel,
    rounds: nat,
    out: Seq<OutputModel>,
    depth: nat,
)
    requires
        rounds > 0,
        depth > 0,
        ({
            let b = run_from(body, 0, st, out, (depth - 1) as nat);
            ||| b.res == Ok::<FlowModel, ErrorModel>(FlowModel::Break(None))
            ||| (label.is_some() && b.res == Ok::<FlowModel, ErrorModel>(
                FlowModel::Break(label),
            ))
        }),
    ensures
        ({
            let b = run_from(body, 0, st, out, (depth - 1) as nat);
            let r = loop_model(body, step, label, st, saved, rounds, out, depth);
            &&& r.out == b.out
            &&& r.res == Ok::<FlowModel, ErrorModel>(FlowModel::Continue)
            &&& r.state == with_env(b.state, saved)
        }),
{
}

/// A loop puts the caller's environment back however it ends.
pub proof fn law_loop_restores(
    body: Seq<StmtModel>,
    step: Seq<StmtModel>,
    label: Option<Seq<char>>,
    st: StateModel,
    saved: EnvModel,
    rounds: nat,
    out: Seq<OutputModel>,
    depth: nat,
)
    ensures
        loop_model(body, step, label, st, saved, rounds, out, depth).state.env == saved,
    decreases rounds,
{
    if rounds > 0 && depth > 0 {
        let b = run_from(body, 0, st, out, (depth - 1) as nat);
        if (b.res is Ok) && loop_exit(b.res->Ok_0, label).is_none() {
            let s = run_from(step, 0, with_env(b.state, st.env), b.out, (depth - 1) as nat);
            if (s.res is Ok) && loop_exit(s.res->Ok_0, label).is_none() {
                law_loop_restores(
                    body,
                    step,
                    label,
                    s.state,
                    saved,
                    (rounds - 1) as nat,
                    s.out,
                    depth,
                );
            }
        }
    }
}

/// A `loop` block leaves the environment of its caller as it was, however
/// it ends.
pub proof fn law_loop_block_restores(
    meta: Seq<ItemModel>,
    body: Seq<StmtModel>,
    st: StateModel,
    out: Seq<OutputModel>,
    depth: nat,
)
    ensures
        handle_model(BlockHandler::Loop, meta, body, st, out, depth).state.env == st.env,
{
    match loop_plan(meta) {
        Ok(plan) => {
            if depth > 0 {
                let p = run_from(plan.persist, 0, st, out, (depth - 1) as nat);
                law_loop_restores(
                    body,
                    plan.step,
                    plan.label,
                    p.state,
                    st.env,
                    round_cap(st.test_mode),
                    p.out,
                    depth,
                );
            }
        },
        Err(_) => {},
    }
}

/// Whether two interpreters have the same mode, the same block keywords
/// and the same answers of the host.
pub open spec fn same_setup(a: StateModel, b: StateModel) -> bool {
    a.handlers == b.handlers && a.test_mode == b.test_mode && a.answers == b.answers
}

/// No statement changes the mode, the block keywords or the answers of the
/// host.
pub proof fn law_statement_keeps_setup(
    stmt: StmtModel,
    st: StateModel,
    out: Seq<OutputModel>,
    depth: nat,
)
    ensures
        same_setup(exec_model(stmt, st, out, depth).state, st),
    decreases depth, 3nat, stmt, 1nat,
{
    match stmt {
        StmtModel::RunList(_) => {
            lemma_run_list_keeps_setup(stmt, st, out, depth);
        },
        StmtModel::Block(name, meta, body) => {
            match lookup(st.handlers, name) {
                Some(h) => {
                    lemma_block_keeps_setup(h, meta, body, st, out, depth);
                },
                None => {},
            }
        },
        StmtModel::If(c, t, other) => {
            let r = eval_model(c, st, out, depth);
            law_statement_keeps_setup(*t, st, r.out, depth);
            match other {
                Some(o) => {
                    law_statement_keeps_setup(*o, st, r.out, depth);
                },
                None => {},
            }
        },
        _ => {},
    }
}

/// No run of statements changes the mode, the block keywords or the
/// answers of the host.
pub proof fn law_run_keeps_setup(
    stmts: Seq<StmtModel>,
    i: int,
    st: StateModel,
    out: Seq<OutputModel>,
    depth: nat,
)
    ensures
        same_setup(run_from(stmts, i, st, out, depth).state, st),
    decreases depth, 3nat, stmts, stmts.len() - i,
{
    if 0 <= i < stmts.len() {
        let r = exec_model(stmts[i], st, out, depth);
        law_statement_keeps_setup(stmts[i], st, out, depth);
        if r.res == Ok::<FlowModel, ErrorModel>(FlowModel::Continue) {
            law_run_keeps_setup(stmts, i + 1, r.state, r.out, depth);
        }
    }
}

proof fn lemma_run_list_keeps_setup(
    stmt: StmtModel,
    st: StateModel,
    out: Seq<OutputModel>,
    depth: nat,
)
    ensures
        same_setup(exec_run_list(stmt, st, out, depth).state, st),
    decreases depth, 3nat, stmt, 0nat,
{
    match stmt {
        StmtModel::RunList(items) => {
            if items.len() > 0 && !is_run_call(items, st.env) {
                match stmt_of_list(items) {
                    Ok(s) => {
                        if depth > 0 {
                            law_run_keeps_setup(seq![s], 0, st, out, (depth - 1) as nat);
                        }
                    },
                    Err(_) => {},
                }
            }
        },
        _ => {},
    }
}

proof fn lemma_block_keeps_setup(
    h: BlockHandler,
    meta: Seq<ItemModel>,
    body: Seq<StmtModel>,
    st: StateModel,
    out: Seq<OutputModel>,
    depth: nat,
)
    ensures
        same_setup(handle_model(h, meta, body, st, out, depth).state, st),
    decreases depth, 2nat, body, 0nat,
{
    if depth > 0 {
        match h {
            BlockHandler::Test => {
                law_run_keeps_setup(body, 0, with_mode(st, false), out, (depth - 1) as nat);
            },
            BlockHandler::TestInit => {
                law_run_keeps_setup(body, 0, with_mode(st, false), out, (depth - 1) as nat);
            },
            BlockHandler::NoTest => {
                law_run_keeps_setup(body, 0, st, out, (depth - 1) as nat);
            },
            BlockHandler::Loop => {
                match loop_plan(meta) {
                    Ok(plan) => {
                        let p = run_from(plan.persist, 0, st, out, (depth - 1) as nat);
                        law_run_keeps_setup(plan.persist, 0, st, out, (depth - 1) as nat);
                        lemma_loop_keeps_setup(
                            body,
                            plan.step,
                            plan.label,
                            p.state,
                            st.env,
                            round_cap(st.test_mode),
                            p.out,
                            depth,
                        );
                    },
                    Err(_) => {},
                }
            },
        }
    }
}

proof fn lemma_loop_keeps_setup(
    body: Seq<StmtModel>,
    step: Seq<StmtModel>,
    label: Option<Seq<char>>,
    st: StateModel,
    saved: EnvModel,
    rounds: nat,
    out: Seq<OutputModel>,
    depth: nat,
)
    ensures
        same_setup(loop_model(body, step, label, st, saved, rounds, out, depth).state, st),
    decreases depth, 1nat, body, rounds,
{
    if rounds > 0 && depth > 0 {
        let b = run_from(body, 0, st, out, (depth - 1) as nat);
        law_run_keeps_setup(body, 0, st, out, (depth - 1) as nat);
        if (b.res is Ok) && loop_exit(b.res->Ok_0, label).is_none() {
            let s = run_from(step, 0, with_env(b.state, st.env), b.out, (depth - 1) as nat);
            law_run_keeps_setup(step, 0, with_env(b.state, st.env), b.out, (depth - 1) as nat);
            if (s.res is Ok) && loop_exit(s.res->Ok_0, label).is_none() {
                lemma_loop_keeps_setup(
                    body,
                    step,
                    label,
                    s.state,
                    saved,
                    (rounds - 1) as nat,
                    s.out,
                    depth,
                );
            }
        }
    }
}

/// A `test` block, and a `notest` block, leaves the interpreter exactly as it was.
pub proof fn law_scoped_block_leaves_no_trace(
    meta: Seq<ItemModel>,
    body: Seq<StmtModel>,
    st: StateModel,
    out: Seq<OutputModel>,
    depth: nat,
)
    ensures
        handle_model(BlockHandler::Test, meta, body, st, out, depth).state == st,
        handle_model(BlockHandler::NoTest, meta, body, st, out, depth).state == st,
{
    lemma_block_keeps_setup(BlockHandler::Test, meta, body, st, out, depth);
    lemma_block_keeps_setup(BlockHandler::NoTest, meta, body, st, out, depth);
}

/// Whether a statement holds no list statement, itself included. A list
/// statement is written as its list, which reads as what the list spells.
pub open spec fn writable(s: StmtModel) -> bool
    decreases s,
{
    match s {
        StmtModel::RunList(_) => false,
        StmtModel::LetFunc(_, _, body) => forall|i: int|
            0 <= i < body.len() ==> writable(#[trigger] body[i]),
        StmtModel::Block(_, _, body) => forall|i: int|
            0 <= i < body.len() ==> writable(#[trigger] body[i]),
        StmtModel::If(_, t, other) => writable(*t) && match other {
            Some(o) => writable(*o),
            None => true,
        },
        _ => true,
    }
}

/// The expressions that the list of a statement holds.
pub open spec fn written(s: StmtModel) -> Seq<ExprModel> {
    item_values(list_of_stmt(s)->List_0)
}

proof fn lemma_directive_names()
    ensures
        "let"@.len() == 3,
        "print"@.len() == 5,
        "print"@[0] == 'p',
        "print_template"@.len() == 14,
        "list_types"@.len() == 10,
        "list_type"@.len() == 9,
        "reg_operator"@.len() == 12,
        "return"@.len() == 6,
        "break"@.len() == 5,
        "break"@[0] == 'b',
        "break"@[1] == 'r',
        "break_to"@.len() == 8,
        "break_to"@[0] == 'b',
        "next"@.len() == 4,
        "next"@[0] == 'n',
        "if"@.len() == 2,
        "call"@.len() == 4,
        "call"@[0] == 'c',
        "let_func"@.len() == 8,
        "let_func"@[0] == 'l',
        "expr"@.len() == 4,
        "expr"@[0] == 'e',
        "block"@.len() == 5,
        "block"@[0] == 'b',
        "block"@[1] == 'l',
{
    reveal_strlit("let");
    reveal_strlit("print");
    reveal_strlit("print_template");
    reveal_strlit("list_types");
    reveal_strlit("list_type");
    reveal_strlit("reg_operator");
    reveal_strlit("return");
    reveal_strlit("break");
    reveal_strlit("break_to");
    reveal_strlit("next");
    reveal_strlit("if");
    reveal_strlit("call");
    reveal_strlit("let_func");
    reveal_strlit("expr");
    reveal_strlit("block");
}

/// The list of a directive holds the directive's name and then the values
/// of the items behind it.
proof fn lemma_written_directive(name: Seq<char>, rest: Seq<ItemModel>)
    ensures
        item_values(directive_list(name, rest)->List_0) == seq![ExprModel::Sym(name)] + item_values(
            rest,
        ),
{
    assert(item_values(directive_list(name, rest)->List_0) =~= seq![ExprModel::Sym(name)]
        + item_values(rest));
}

proof fn lemma_names_read_back(params: Seq<Seq<char>>, i: int, acc: Seq<Seq<char>>, m: Seq<char>)
    requires
        0 <= i <= params.len(),
        acc == params.take(i),
    ensures
        names_from(item_values(name_items(params)), i, acc, m) == Ok::<
            Seq<Seq<char>>,
            ErrorModel,
        >(params),
    decreases params.len() - i,
{
    if i < params.len() {
        assert(params.take(i).push(params[i]) =~= params.take(i + 1));
        lemma_names_read_back(params, i + 1, params.take(i + 1), m);
    } else {
        assert(params.take(i) =~= params);
    }
}

proof fn lemma_stmts_read_back(body: Seq<StmtModel>, i: int, acc: Seq<StmtModel>, m: Seq<char>)
    requires
        0 <= i <= body.len(),
        acc == body.take(i),
        forall|j: int| 0 <= j < body.len() ==> writable(#[trigger] body[j]),
    ensures
        stmts_from(item_values(stmt_items(body)), i, acc, m) == Ok::<
            Seq<StmtModel>,
            ErrorModel,
        >(body),
    decreases body, body.len() - i,
{
    if i < body.len() {
        law_written_is_read(body[i]);
        assert(item_values(stmt_items(body))[i] == list_of_stmt(body[i]));
        assert(body.take(i).push(body[i]) =~= body.take(i + 1));
        lemma_stmts_read_back(body, i + 1, body.take(i + 1), m);
    } else {
        assert(body.take(i) =~= body);
    }
}

/// What a statement is written as reads back as the statement, unless the
/// statement holds a list statement.
pub proof fn law_written_is_read(s: StmtModel)
    requires
        writable(s),
    ensures
        list_of_stmt(s) is List,
        stmt_of_list(written(s)) == Ok::<StmtModel, ErrorModel>(s),
    decreases s, 0nat,
{
    lemma_directive_names();
    match s {
        StmtModel::Let(name, e) => {
            lemma_written_directive("let"@, seq![plain(ExprModel::Str(name)), plain(e)]);
            assert(directive("let"@, written(s)) == Ok::<StmtModel, ErrorModel>(s));
        },
        StmtModel::PrintTemplate(tpl, arg) => {
            match arg {
                Some(e) => {
                    lemma_written_directive(
                        "print_template"@,
                        seq![plain(ExprModel::Str(tpl)), plain(e)],
                    );
                },
                None => {
                    lemma_written_directive("print_template"@, seq![plain(ExprModel::Str(tpl))]);
                },
            }
            assert(directive("print_template"@, written(s)) == Ok::<
                StmtModel,
                ErrorModel,
            >(s));
        },
        StmtModel::PrintExpr(e) => {
            lemma_written_directive("print"@, seq![plain(e)]);
            assert(directive("print"@, written(s)) == Ok::<StmtModel, ErrorModel>(s));
        },
        StmtModel::ListTypes => {
            lemma_written_directive("list_types"@, Seq::empty());
            assert(directive("list_types"@, written(s)) == Ok::<
                StmtModel,
                ErrorModel,
            >(s));
        },
        StmtModel::ListType(name) => {
            lemma_written_directive("list_type"@, seq![plain(ExprModel::Str(name))]);
            assert(directive("list_type"@, written(s)) == Ok::<
                StmtModel,
                ErrorModel,
            >(s));
        },
        StmtModel::RegOp(op, f) => {
            lemma_written_directive(
                "reg_operator"@,
                seq![plain(ExprModel::Str(op)), plain(ExprModel::Str(f))],
            );
            assert(directive("reg_operator"@, written(s)) == Ok::<
                StmtModel,
                ErrorModel,
            >(s));
        },
        StmtModel::LetFunc(name, params, body) => {
            let rest = seq![
                plain(ExprModel::Str(name)),
                plain(ExprModel::List(name_items(params))),
                plain(ExprModel::List(stmt_items(body))),
            ];
            lemma_written_directive("let_func"@, rest);
            assert(params.take(0) =~= Seq::<Seq<char>>::empty());
            assert(body.take(0) =~= Seq::<StmtModel>::empty());
            lemma_names_read_back(params, 0, Seq::empty(), "param must be string or ident"@);
            lemma_stmts_read_back(body, 0, Seq::empty(), "body items must be list"@);
            assert(let_func_stmt(written(s)) == Ok::<StmtModel, ErrorModel>(s));
            assert(directive("let_func"@, written(s)) == let_func_stmt(written(s)));
        },
        StmtModel::Return(arg) => {
            match arg {
                Some(e) => {
                    lemma_written_directive("return"@, seq![plain(e)]);
                },
                None => {
                    lemma_written_directive("return"@, Seq::empty());
                },
            }
            assert(directive("return"@, written(s)) == Ok::<StmtModel, ErrorModel>(
                s,
            ));
        },
        StmtModel::Break(None) => {
            lemma_written_directive("break"@, Seq::empty());
            assert(directive("break"@, written(s)) == Ok::<StmtModel, ErrorModel>(s));
        },
        StmtModel::Break(Some(label)) => {
            lemma_written_directive("break_to"@, seq![plain(ExprModel::Str(label))]);
            assert(directive("break_to"@, written(s)) == Ok::<
                StmtModel,
                ErrorModel,
            >(s));
        },
        StmtModel::Next => {
            lemma_written_directive("next"@, Seq::empty());
            assert(directive("next"@, written(s)) == Ok::<StmtModel, ErrorModel>(s));
        },
        StmtModel::If(c, t, other) => {
            law_written_is_read(*t);
            match other {
                Some(o) => {
                    law_written_is_read(*o);
                    lemma_written_directive(
                        "if"@,
                        seq![plain(c), plain(list_of_stmt(*t)), plain(list_of_stmt(*o))],
                    );
                },
                None => {
                    lemma_written_directive("if"@, seq![plain(c), plain(list_of_stmt(*t))]);
                },
            }
            assert(if_stmt(written(s)) == Ok::<StmtModel, ErrorModel>(s));
            assert(directive("if"@, written(s)) == if_stmt(written(s)));
        },
        StmtModel::Call(ty, op, args) => {
            let rest = seq![plain(ExprModel::Str(ty)), plain(ExprModel::Str(op))] + plain_items(
                args,
            );
            lemma_written_directive("call"@, rest);
            assert(written(s).skip(3) =~= args);
            assert(call_stmt(written(s)) == Ok::<StmtModel, ErrorModel>(s));
            assert(directive("call"@, written(s)) == call_stmt(written(s)));
        },
        StmtModel::ExprStmt(e) => {
            lemma_written_directive("expr"@, seq![plain(e)]);
            assert(directive("expr"@, written(s)) == Ok::<StmtModel, ErrorModel>(s));
        },
        StmtModel::Block(name, meta, body) => {
            let head = seq![plain(ExprModel::Str(name)), plain(ExprModel::List(meta))];
            lemma_written_directive("block"@, head);
            let header = directive_list("block"@, head);
            let flat = item_values(header->List_0) + written(s).skip(1);
            assert(written(s) =~= seq![header, ExprModel::List(stmt_items(body))]);
            assert(flat =~= seq![
                ExprModel::Sym("block"@),
                ExprModel::Str(name),
                ExprModel::List(meta),
                ExprModel::List(stmt_items(body)),
            ]);
            assert(body.take(0) =~= Seq::<StmtModel>::empty());
            lemma_stmts_read_back(body, 0, Seq::empty(), "block body items must be list"@);
            assert(block_stmt(flat) == Ok::<StmtModel, ErrorModel>(s));
            assert(directive("block"@, flat) == block_stmt(flat));
            assert(stmt_of_list(flat) == directive("block"@, flat));
        },
        StmtModel::RunList(_) => {},
    }
}

} // verus!
