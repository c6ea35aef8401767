//! Requests to the host and their answers: a run makes its requests in an
//! order that does not depend on the answers still to come, so a host can
//! run a program again with one more answer each time until none is
//! pending.

use vstd::prelude::*;
use crate::assoc::{bind, lookup};
use crate::ast::{ExprModel, ItemModel, StmtModel};
use crate::laws::{law_run_keeps_setup, law_statement_keeps_setup};
use crate::semantics::{
    apply_model, ask, asked, bind_params, block_from, block_stmt, done, eval_args, eval_binary,
    eval_call, eval_custom, eval_from, eval_if, eval_index, eval_ints, eval_items, eval_list,
    eval_map, eval_method, eval_model, eval_op_args, exec_model, exec_run_list, failure,
    handle_model, head_name, invoke, is_application, is_run_call, line_items, loop_exit, loop_model,
    loop_plan, map_from, map_function, native_call, operator_function, report, reported, round_cap,
    run_from, type_receiver, with_env, with_mode, BlockHandler, Run, StateModel,
};
use crate::value::{
    render, AnswerModel, Arg, EnvModel, ErrorKind, ErrorModel, FlowModel, KeysModel, OutputModel,
    RequestModel, ValueModel,
};
use crate::text::{fill};
use crate::listform::{stmt_of_list};

verus! {

/// The interpreter with further answers of the host behind those it has.
pub open spec fn more(st: StateModel, extra: Seq<AnswerModel>) -> StateModel {
    StateModel {
        env: st.env,
        ops: st.ops,
        test_mode: st.test_mode,
        handlers: st.handlers,
        answers: st.answers + extra,
    }
}

/// Whether every request that the log records has an answer.
pub open spec fn settled(out: Seq<OutputModel>, st: StateModel) -> bool {
    asked(out) <= st.answers.len()
}

/// What holds of every step of an evaluation that took the log from
/// `before` to `after`: the log only grew; if every request that it
/// records has an answer, the step comes out the `same` with further
/// answers; if not, though every request had one before, the step is
/// `pending`, and the log ends with the request that waits, the first
/// without an answer.
pub open spec fn faithful(
    before: Seq<OutputModel>,
    after: Seq<OutputModel>,
    pending: bool,
    st: StateModel,
    same: bool,
) -> bool {
    &&& begins(before, after)
    &&& asked(after) >= asked(before)
    &&& settled(after, st) ==> same
    &&& settled(before, st) && !settled(after, st) ==> pending && ends_asking(after) && asked(
        after,
    ) == st.answers.len() + 1
}

/// Whether an evaluation ended because the host has not answered a request.
pub open spec fn is_pending<T>(r: Result<T, ErrorModel>) -> bool {
    r is Err && r->Err_0 == failure(
        ErrorKind::Pending,
        "host answer pending"@,
    )
}

/// Whether the log `a` is the beginning of the log `b`.
pub open spec fn begins(a: Seq<OutputModel>, b: Seq<OutputModel>) -> bool {
    a.len() <= b.len() && forall|i: int| 0 <= i < a.len() ==> #[trigger] a[i] == b[i]
}

/// Whether the last item of the log is a request.
pub open spec fn ends_asking(out: Seq<OutputModel>) -> bool {
    out.len() > 0 && out.last() is Asked
}

/// One more item in the log is one more request if it is a request.
pub proof fn lemma_asked_push(out: Seq<OutputModel>, item: OutputModel)
    ensures
        asked(out.push(item)) == asked(out) + if item is Asked {
            1nat
        } else {
            0nat
        },
{
    assert(out.push(item).drop_last() =~= out);
}

/// A request whose answer is there gets the same answer when more answers
/// come behind.
pub proof fn lemma_ask(
    request: RequestModel,
    st: StateModel,
    extra: Seq<AnswerModel>,
    out: Seq<OutputModel>,
)
    ensures
        faithful(
            out,
            ask(request, st.answers, out).out,
            is_pending(ask(request, st.answers, out).res),
            st,
            ask(request, more(st, extra).answers, out) == ask(request, st.answers, out),
        ),
{
    lemma_asked_push(out, OutputModel::Asked(request));
}

/// Lines add no request to the log.
pub proof fn lemma_asked_lines(out: Seq<OutputModel>, lines: Seq<Seq<char>>)
    ensures
        asked(out + line_items(lines)) == asked(out),
        lines.len() > 0 ==> !((out + line_items(lines)).last() is Asked),
    decreases lines.len(),
{
    let items = line_items(lines);
    if lines.len() == 0 {
        assert(out + items =~= out);
    } else {
        let shorter = lines.drop_last();
        lemma_asked_lines(out, shorter);
        assert(out + items =~= (out + line_items(shorter)).push(
            OutputModel::Line(lines.last()),
        ));
        lemma_asked_push(
            out + line_items(shorter),
            OutputModel::Line(lines.last()),
        );
    }
}

/// A statement that asks the registry and emits the report is faithful.
proof fn lemma_reported(
    request: RequestModel,
    st: StateModel,
    extra: Seq<AnswerModel>,
    out: Seq<OutputModel>,
)
    ensures
        faithful(
            out,
            reported(ask(request, st.answers, out), st).out,
            is_pending(reported(ask(request, st.answers, out), st).res),
            st,
            same_run(
                reported(ask(request, st.answers, out), st),
                reported(
                    ask(request, more(st, extra).answers, out),
                    more(st, extra),
                ),
                extra,
            ),
        ),
{
    lemma_ask(request, st, extra, out);
    let a = ask(request, st.answers, out);
    match a.res {
        Ok(answer) => {
            match report(answer) {
                Ok(lines) => {
                    lemma_asked_lines(a.out, lines);
                },
                Err(_) => {},
            }
        },
        Err(_) => {},
    }
}

/// Evaluating an expression is faithful to the answers of the host.
pub proof fn law_eval_faithful(
    e: ExprModel,
    st: StateModel,
    extra: Seq<AnswerModel>,
    out: Seq<OutputModel>,
    depth: nat,
)
    ensures
        faithful(
            out,
            eval_model(e, st, out, depth).out,
            is_pending(eval_model(e, st, out, depth).res),
            st,
            eval_model(e, more(st, extra), out, depth) == eval_model(e, st, out, depth),
        ),
    decreases depth, 3nat, e, 1nat,
{
    match e {
        ExprModel::Block(stmts) => {
            lemma_block_from_faithful(stmts, 0, st.env, ValueModel::Int(0), st, extra, out, depth);
        },
        ExprModel::BlockNoValue(stmts) => {
            lemma_block_from_faithful(stmts, 0, st.env, ValueModel::Int(0), st, extra, out, depth);
        },
        ExprModel::SList(items) => {
            lemma_eval_from_faithful(items, 0, Seq::empty(), st, extra, out, depth);
        },
        ExprModel::List(_) => {
            lemma_eval_list_faithful(e, st, extra, out, depth);
        },
        ExprModel::Call(_, _) => {
            lemma_eval_call_faithful(e, st, extra, out, depth);
        },
        ExprModel::Binary(_, _, _) => {
            lemma_eval_binary_faithful(e, st, extra, out, depth);
        },
        ExprModel::If(_, _, _) => {
            lemma_eval_if_faithful(e, st, extra, out, depth);
        },
        ExprModel::Custom(_, _, _) => {
            lemma_eval_custom_faithful(e, st, extra, out, depth);
        },
        ExprModel::MapWith(_, _) => {
            lemma_eval_map_faithful(e, st, extra, out, depth);
        },
        ExprModel::Group(inner) => {
            law_eval_faithful(*inner, st, extra, out, depth);
        },
        ExprModel::Index(_, _) => {
            lemma_eval_index_faithful(e, st, extra, out, depth);
        },
        ExprModel::Method(_, _, _) => {
            lemma_eval_method_faithful(e, st, extra, out, depth);
        },
        _ => {},
    }
}

proof fn lemma_eval_from_faithful(
    es: Seq<ExprModel>,
    i: int,
    acc: Seq<ValueModel>,
    st: StateModel,
    extra: Seq<AnswerModel>,
    out: Seq<OutputModel>,
    depth: nat,
)
    requires
        0 <= i,
    ensures
        faithful(
            out,
            eval_from(es, i, acc, st, out, depth).out,
            is_pending(eval_from(es, i, acc, st, out, depth).res),
            st,
            eval_from(es, i, acc, more(st, extra), out, depth) == eval_from(
                es,
                i,
                acc,
                st,
                out,
                depth,
            ),
        ),
    decreases depth, 3nat, es, es.len() - i,
{
    if i < es.len() {
        let r = eval_model(es[i], st, out, depth);
        law_eval_faithful(es[i], st, extra, out, depth);
        if r.res is Ok {
            lemma_eval_from_faithful(es, i + 1, acc.push(r.res->Ok_0), st, extra, r.out, depth);
        }
    }
}

proof fn lemma_eval_ints_faithful(
    es: Seq<ExprModel>,
    i: int,
    acc: Seq<i64>,
    st: StateModel,
    extra: Seq<AnswerModel>,
    out: Seq<OutputModel>,
    depth: nat,
)
    requires
        0 <= i,
    ensures
        faithful(
            out,
            eval_ints(es, i, acc, st, out, depth).out,
            is_pending(eval_ints(es, i, acc, st, out, depth).res),
            st,
            eval_ints(es, i, acc, more(st, extra), out, depth) == eval_ints(
                es,
                i,
                acc,
                st,
                out,
                depth,
            ),
        ),
    decreases depth, 3nat, es, es.len() - i,
{
    if i < es.len() {
        let r = eval_model(es[i], st, out, depth);
        law_eval_faithful(es[i], st, extra, out, depth);
        match r.res {
            Ok(ValueModel::Int(n)) => {
                lemma_eval_ints_faithful(es, i + 1, acc.push(n), st, extra, r.out, depth);
            },
            _ => {},
        }
    }
}

proof fn lemma_eval_op_args_faithful(
    es: Seq<ExprModel>,
    i: int,
    acc: Seq<Arg>,
    st: StateModel,
    extra: Seq<AnswerModel>,
    out: Seq<OutputModel>,
    depth: nat,
)
    requires
        0 <= i,
    ensures
        faithful(
            out,
            eval_op_args(es, i, acc, st, out, depth).out,
            is_pending(eval_op_args(es, i, acc, st, out, depth).res),
            st,
            eval_op_args(es, i, acc, more(st, extra), out, depth) == eval_op_args(
                es,
                i,
                acc,
                st,
                out,
                depth,
            ),
        ),
    decreases depth, 3nat, es, es.len() - i,
{
    if i < es.len() {
        let r = eval_model(es[i], st, out, depth);
        law_eval_faithful(es[i], st, extra, out, depth);
        match r.res {
            Ok(ValueModel::Int(n)) => {
                lemma_eval_op_args_faithful(
                    es,
                    i + 1,
                    acc.push(Arg::Int(n)),
                    st,
                    extra,
                    r.out,
                    depth,
                );
            },
            Ok(ValueModel::Object(handle, _)) => {
                lemma_eval_op_args_faithful(
                    es,
                    i + 1,
                    acc.push(Arg::Object(handle)),
                    st,
                    extra,
                    r.out,
                    depth,
                );
            },
            _ => {},
        }
    }
}

proof fn lemma_eval_items_faithful(
    items: Seq<ItemModel>,
    i: int,
    vals: Seq<ValueModel>,
    keys: KeysModel,
    st: StateModel,
    extra: Seq<AnswerModel>,
    out: Seq<OutputModel>,
    depth: nat,
)
    requires
        0 <= i,
    ensures
        faithful(
            out,
            eval_items(items, i, vals, keys, st, out, depth).out,
            is_pending(eval_items(items, i, vals, keys, st, out, depth).res),
            st,
            eval_items(items, i, vals, keys, more(st, extra), out, depth) == eval_items(
                items,
                i,
                vals,
                keys,
                st,
                out,
                depth,
            ),
        ),
    decreases depth, 3nat, items, items.len() - i,
{
    if i < items.len() {
        let r = match items[i].value {
            ExprModel::Var(name) => done(out, ValueModel::Sym(name)),
            other => eval_model(other, st, out, depth),
        };
        match items[i].value {
            ExprModel::Var(name) => {},
            other => {
                law_eval_faithful(other, st, extra, out, depth);
            },
        }
        if r.res is Ok {
            let keys2 = match items[i].key {
                Some(k) => bind(keys, k, i as nat),
                None => keys,
            };
            lemma_eval_items_faithful(
                items,
                i + 1,
                vals.push(r.res->Ok_0),
                keys2,
                st,
                extra,
                r.out,
                depth,
            );
        }
    }
}

proof fn lemma_eval_args_faithful(
    items: Seq<ItemModel>,
    i: int,
    acc: Seq<ValueModel>,
    st: StateModel,
    extra: Seq<AnswerModel>,
    out: Seq<OutputModel>,
    depth: nat,
)
    requires
        0 <= i,
    ensures
        faithful(
            out,
            eval_args(items, i, acc, st, out, depth).out,
            is_pending(eval_args(items, i, acc, st, out, depth).res),
            st,
            eval_args(items, i, acc, more(st, extra), out, depth) == eval_args(
                items,
                i,
                acc,
                st,
                out,
                depth,
            ),
        ),
    decreases depth, 3nat, items, items.len() - i,
{
    if i < items.len() && items[i].key.is_none() {
        let r = eval_model(items[i].value, st, out, depth);
        law_eval_faithful(items[i].value, st, extra, out, depth);
        if r.res is Ok {
            lemma_eval_args_faithful(items, i + 1, acc.push(r.res->Ok_0), st, extra, r.out, depth);
        }
    }
}

proof fn lemma_eval_list_faithful(
    e: ExprModel,
    st: StateModel,
    extra: Seq<AnswerModel>,
    out: Seq<OutputModel>,
    depth: nat,
)
    requires
        e is List,
    ensures
        faithful(
            out,
            eval_list(e, st, out, depth).out,
            is_pending(eval_list(e, st, out, depth).res),
            st,
            eval_list(e, more(st, extra), out, depth) == eval_list(e, st, out, depth),
        ),
    decreases depth, 3nat, e, 0nat,
{
    match e {
        ExprModel::List(items) => {
            if is_application(items, st.env) {
                let f = lookup(st.env, head_name(items)->0)->0;
                let a = eval_args(items, 1, Seq::empty(), st, out, depth);
                lemma_eval_args_faithful(items, 1, Seq::empty(), st, extra, out, depth);
                if a.res is Ok {
                    lemma_apply_faithful(f, a.res->Ok_0, st, extra, a.out, depth);
                }
            } else {
                lemma_eval_items_faithful(
                    items,
                    0,
                    Seq::empty(),
                    Seq::empty(),
                    st,
                    extra,
                    out,
                    depth,
                );
            }
        },
        _ => {},
    }
}

proof fn lemma_eval_call_faithful(
    e: ExprModel,
    st: StateModel,
    extra: Seq<AnswerModel>,
    out: Seq<OutputModel>,
    depth: nat,
)
    requires
        e is Call,
    ensures
        faithful(
            out,
            eval_call(e, st, out, depth).out,
            is_pending(eval_call(e, st, out, depth).res),
            st,
            eval_call(e, more(st, extra), out, depth) == eval_call(e, st, out, depth),
        ),
    decreases depth, 3nat, e, 0nat,
{
    match e {
        ExprModel::Call(name, args) => {
            if name == "value_of"@ {
                if args.len() == 1 {
                    law_eval_faithful(args[0], st, extra, out, depth);
                }
            } else {
                let a = eval_from(args, 0, Seq::empty(), st, out, depth);
                lemma_eval_from_faithful(args, 0, Seq::empty(), st, extra, out, depth);
                if a.res is Ok && lookup(st.env, name) is Some {
                    lemma_apply_faithful(
                        lookup(st.env, name)->0,
                        a.res->Ok_0,
                        st,
                        extra,
                        a.out,
                        depth,
                    );
                }
            }
        },
        _ => {},
    }
}

proof fn lemma_eval_binary_faithful(
    e: ExprModel,
    st: StateModel,
    extra: Seq<AnswerModel>,
    out: Seq<OutputModel>,
    depth: nat,
)
    requires
        e is Binary,
    ensures
        faithful(
            out,
            eval_binary(e, st, out, depth).out,
            is_pending(eval_binary(e, st, out, depth).res),
            st,
            eval_binary(e, more(st, extra), out, depth) == eval_binary(e, st, out, depth),
        ),
    decreases depth, 3nat, e, 0nat,
{
    match e {
        ExprModel::Binary(op, a, b) => {
            let ra = eval_model(*a, st, out, depth);
            law_eval_faithful(*a, st, extra, out, depth);
            if ra.res is Ok {
                law_eval_faithful(*b, st, extra, ra.out, depth);
            }
        },
        _ => {},
    }
}

proof fn lemma_eval_if_faithful(
    e: ExprModel,
    st: StateModel,
    extra: Seq<AnswerModel>,
    out: Seq<OutputModel>,
    depth: nat,
)
    requires
        e is If,
    ensures
        faithful(
            out,
            eval_if(e, st, out, depth).out,
            is_pending(eval_if(e, st, out, depth).res),
            st,
            eval_if(e, more(st, extra), out, depth) == eval_if(e, st, out, depth),
        ),
    decreases depth, 3nat, e, 0nat,
{
    match e {
        ExprModel::If(c, t, other) => {
            let rc = eval_model(*c, st, out, depth);
            law_eval_faithful(*c, st, extra, out, depth);
            if rc.res is Ok {
                law_eval_faithful(*t, st, extra, rc.out, depth);
                match other {
                    Some(o) => {
                        law_eval_faithful(*o, st, extra, rc.out, depth);
                    },
                    None => {},
                }
            }
        },
        _ => {},
    }
}

proof fn lemma_eval_custom_faithful(
    e: ExprModel,
    st: StateModel,
    extra: Seq<AnswerModel>,
    out: Seq<OutputModel>,
    depth: nat,
)
    requires
        e is Custom,
    ensures
        faithful(
            out,
            eval_custom(e, st, out, depth).out,
            is_pending(eval_custom(e, st, out, depth).res),
            st,
            eval_custom(e, more(st, extra), out, depth) == eval_custom(e, st, out, depth),
        ),
    decreases depth, 3nat, e, 0nat,
{
    match e {
        ExprModel::Custom(a, op, b) => {
            let ra = eval_model(*a, st, out, depth);
            law_eval_faithful(*a, st, extra, out, depth);
            if ra.res is Ok {
                let rb = eval_model(*b, st, ra.out, depth);
                law_eval_faithful(*b, st, extra, ra.out, depth);
                if rb.res is Ok {
                    assert(operator_function(op, more(st, extra)) == operator_function(op, st));
                    match operator_function(op, st) {
                        Ok(f) => {
                            lemma_apply_faithful(
                                f,
                                seq![ra.res->Ok_0, rb.res->Ok_0],
                                st,
                                extra,
                                rb.out,
                                depth,
                            );
                        },
                        Err(_) => {},
                    }
                }
            }
        },
        _ => {},
    }
}

proof fn lemma_eval_map_faithful(
    e: ExprModel,
    st: StateModel,
    extra: Seq<AnswerModel>,
    out: Seq<OutputModel>,
    depth: nat,
)
    requires
        e is MapWith,
    ensures
        faithful(
            out,
            eval_map(e, st, out, depth).out,
            is_pending(eval_map(e, st, out, depth).res),
            st,
            eval_map(e, more(st, extra), out, depth) == eval_map(e, st, out, depth),
        ),
    decreases depth, 3nat, e, 0nat,
{
    match e {
        ExprModel::MapWith(list, name) => {
            let rl = eval_model(*list, st, out, depth);
            law_eval_faithful(*list, st, extra, out, depth);
            match rl.res {
                Ok(ValueModel::List(items, _)) => {
                    assert(map_function(name, more(st, extra)) == map_function(name, st));
                    match map_function(name, st) {
                        Ok(f) => {
                            lemma_map_from_faithful(
                                f,
                                items,
                                0,
                                Seq::empty(),
                                st,
                                extra,
                                rl.out,
                                depth,
                            );
                        },
                        Err(_) => {},
                    }
                },
                _ => {},
            }
        },
        _ => {},
    }
}

proof fn lemma_map_from_faithful(
    f: ValueModel,
    items: Seq<ValueModel>,
    i: int,
    acc: Seq<ValueModel>,
    st: StateModel,
    extra: Seq<AnswerModel>,
    out: Seq<OutputModel>,
    depth: nat,
)
    requires
        0 <= i,
    ensures
        faithful(
            out,
            map_from(f, items, i, acc, st, out, depth).out,
            is_pending(map_from(f, items, i, acc, st, out, depth).res),
            st,
            map_from(f, items, i, acc, more(st, extra), out, depth) == map_from(
                f,
                items,
                i,
                acc,
                st,
                out,
                depth,
            ),
        ),
    decreases depth, 2nat, items, items.len() - i,
{
    if i < items.len() {
        let r = apply_model(f, seq![items[i]], st, out, depth);
        lemma_apply_faithful(f, seq![items[i]], st, extra, out, depth);
        if r.res is Ok {
            lemma_map_from_faithful(
                f,
                items,
                i + 1,
                acc.push(r.res->Ok_0),
                st,
                extra,
                r.out,
                depth,
            );
        }
    }
}

proof fn lemma_eval_index_faithful(
    e: ExprModel,
    st: StateModel,
    extra: Seq<AnswerModel>,
    out: Seq<OutputModel>,
    depth: nat,
)
    requires
        e is Index,
    ensures
        faithful(
            out,
            eval_index(e, st, out, depth).out,
            is_pending(eval_index(e, st, out, depth).res),
            st,
            eval_index(e, more(st, extra), out, depth) == eval_index(e, st, out, depth),
        ),
    decreases depth, 3nat, e, 0nat,
{
    match e {
        ExprModel::Index(list, index) => {
            let rl = eval_model(*list, st, out, depth);
            law_eval_faithful(*list, st, extra, out, depth);
            match rl.res {
                Ok(ValueModel::List(_, _)) => {
                    law_eval_faithful(*index, st, extra, rl.out, depth);
                },
                _ => {},
            }
        },
        _ => {},
    }
}

proof fn lemma_eval_method_faithful(
    e: ExprModel,
    st: StateModel,
    extra: Seq<AnswerModel>,
    out: Seq<OutputModel>,
    depth: nat,
)
    requires
        e is Method,
    ensures
        faithful(
            out,
            eval_method(e, st, out, depth).out,
            is_pending(eval_method(e, st, out, depth).res),
            st,
            eval_method(e, more(st, extra), out, depth) == eval_method(e, st, out, depth),
        ),
    decreases depth, 3nat, e, 0nat,
{
    match e {
        ExprModel::Method(receiver, op, args) => {
            match type_receiver(*receiver, st.env) {
                Some(ty) => {
                    let a = eval_op_args(args, 0, Seq::empty(), st, out, depth);
                    lemma_eval_op_args_faithful(args, 0, Seq::empty(), st, extra, out, depth);
                    match a.res {
                        Ok(v) => {
                            lemma_ask(RequestModel::Invoke(ty, op, None, v), st, extra, a.out);
                        },
                        Err(_) => {},
                    }
                },
                None => {
                    let r = eval_model(*receiver, st, out, depth);
                    law_eval_faithful(*receiver, st, extra, out, depth);
                    match r.res {
                        Ok(ValueModel::Object(handle, ty)) => {
                            let a = eval_op_args(args, 0, Seq::empty(), st, r.out, depth);
                            lemma_eval_op_args_faithful(
                                args,
                                0,
                                Seq::empty(),
                                st,
                                extra,
                                r.out,
                                depth,
                            );
                            match a.res {
                                Ok(v) => {
                                    lemma_ask(
                                        RequestModel::Invoke(ty, op, Some(handle), v),
                                        st,
                                        extra,
                                        a.out,
                                    );
                                },
                                Err(_) => {},
                            }
                        },
                        _ => {},
                    }
                },
            }
        },
        _ => {},
    }
}

proof fn lemma_apply_faithful(
    f: ValueModel,
    args: Seq<ValueModel>,
    st: StateModel,
    extra: Seq<AnswerModel>,
    out: Seq<OutputModel>,
    depth: nat,
)
    ensures
        faithful(
            out,
            apply_model(f, args, st, out, depth).out,
            is_pending(apply_model(f, args, st, out, depth).res),
            st,
            apply_model(f, args, more(st, extra), out, depth) == apply_model(
                f,
                args,
                st,
                out,
                depth,
            ),
        ),
    decreases depth, 1nat, f, 0nat,
{
    match f {
        ValueModel::Func(params, body, fenv) => {
            if depth > 0 {
                let inner = with_env(st, bind_params(fenv, params, args, 0));
                assert(with_env(more(st, extra), inner.env) == more(inner, extra));
                law_eval_faithful(body, inner, extra, out, (depth - 1) as nat);
            }
        },
        ValueModel::FuncBlock(params, body, fenv) => {
            if depth > 0 {
                let inner = with_env(st, bind_params(fenv, params, args, 0));
                assert(with_env(more(st, extra), inner.env) == more(inner, extra));
                law_run_faithful(body, 0, inner, extra, out, (depth - 1) as nat);
            }
        },
        ValueModel::NativeFunc(params, name) => {
            lemma_ask(RequestModel::Native(name, args, st.env), st, extra, out);
        },
        _ => {},
    }
}

proof fn lemma_block_from_faithful(
    stmts: Seq<StmtModel>,
    i: int,
    env: EnvModel,
    last: ValueModel,
    st: StateModel,
    extra: Seq<AnswerModel>,
    out: Seq<OutputModel>,
    depth: nat,
)
    requires
        0 <= i,
    ensures
        faithful(
            out,
            block_from(stmts, i, env, last, st, out, depth).out,
            is_pending(block_from(stmts, i, env, last, st, out, depth).res),
            st,
            block_from(stmts, i, env, last, more(st, extra), out, depth) == block_from(
                stmts,
                i,
                env,
                last,
                st,
                out,
                depth,
            ),
        ),
    decreases depth, 3nat, stmts, stmts.len() - i,
{
    if i < stmts.len() {
        let r = block_stmt(stmts[i], env, last, st, out, depth);
        lemma_block_stmt_faithful(stmts[i], env, last, st, extra, out, depth);
        if r.res == Ok::<Option<ValueModel>, ErrorModel>(None) {
            lemma_block_from_faithful(stmts, i + 1, r.env, r.last, st, extra, r.out, depth);
        }
    }
}

proof fn lemma_block_stmt_faithful(
    stmt: StmtModel,
    env: EnvModel,
    last: ValueModel,
    st: StateModel,
    extra: Seq<AnswerModel>,
    out: Seq<OutputModel>,
    depth: nat,
)
    ensures
        faithful(
            out,
            block_stmt(stmt, env, last, st, out, depth).out,
            is_pending(block_stmt(stmt, env, last, st, out, depth).res),
            st,
            block_stmt(stmt, env, last, more(st, extra), out, depth) == block_stmt(
                stmt,
                env,
                last,
                st,
                out,
                depth,
            ),
        ),
    decreases depth, 3nat, stmt, 0nat,
{
    let inner = with_env(st, env);
    assert(with_env(more(st, extra), env) == more(inner, extra));
    match stmt {
        StmtModel::Let(name, e) => {
            law_eval_faithful(e, inner, extra, out, depth);
        },
        StmtModel::PrintExpr(e) => {
            let r = eval_model(e, inner, out, depth);
            law_eval_faithful(e, inner, extra, out, depth);
            if r.res is Ok {
                lemma_asked_push(r.out, OutputModel::Line(render(r.res->Ok_0)));
            }
        },
        StmtModel::ExprStmt(e) => {
            law_eval_faithful(e, inner, extra, out, depth);
        },
        StmtModel::Return(Some(e)) => {
            law_eval_faithful(e, inner, extra, out, depth);
        },
        StmtModel::If(c, t, other) => {
            let r = eval_model(c, inner, out, depth);
            law_eval_faithful(c, inner, extra, out, depth);
            if r.res is Ok {
                lemma_block_stmt_faithful(*t, env, ValueModel::Int(0), st, extra, r.out, depth);
                match other {
                    Some(o) => {
                        lemma_block_stmt_faithful(
                            *o,
                            env,
                            ValueModel::Int(0),
                            st,
                            extra,
                            r.out,
                            depth,
                        );
                    },
                    None => {},
                }
            }
        },
        _ => {},
    }
}

/// Whether the run `b`, made with further answers, came out as the run `a`:
/// with the same log and the same end, and the same interpreter but for the
/// further answers.
pub open spec fn same_run(
    a: Run,
    b: Run,
    extra: Seq<AnswerModel>,
) -> bool {
    b.out == a.out && b.res == a.res && b.state == more(a.state, extra)
}

/// A run of statements is faithful to the answers of the host: if each of
/// its requests had an answer, it comes out the same when more answers come
/// behind; if not, it ends waiting, with that request last in its log.
pub proof fn law_run_faithful(
    stmts: Seq<StmtModel>,
    i: int,
    st: StateModel,
    extra: Seq<AnswerModel>,
    out: Seq<OutputModel>,
    depth: nat,
)
    requires
        0 <= i,
    ensures
        faithful(
            out,
            run_from(stmts, i, st, out, depth).out,
            is_pending(run_from(stmts, i, st, out, depth).res),
            st,
            same_run(
                run_from(stmts, i, st, out, depth),
                run_from(stmts, i, more(st, extra), out, depth),
                extra,
            ),
        ),
    decreases depth, 3nat, stmts, stmts.len() - i,
{
    if i < stmts.len() {
        let r = exec_model(stmts[i], st, out, depth);
        law_statement_faithful(stmts[i], st, extra, out, depth);
        law_statement_keeps_setup(stmts[i], st, out, depth);
        if r.res == Ok::<FlowModel, ErrorModel>(FlowModel::Continue) {
            law_run_faithful(stmts, i + 1, r.state, extra, r.out, depth);
        }
    }
}

/// A statement is faithful to the answers of the host.
pub proof fn law_statement_faithful(
    stmt: StmtModel,
    st: StateModel,
    extra: Seq<AnswerModel>,
    out: Seq<OutputModel>,
    depth: nat,
)
    ensures
        faithful(
            out,
            exec_model(stmt, st, out, depth).out,
            is_pending(exec_model(stmt, st, out, depth).res),
            st,
            same_run(
                exec_model(stmt, st, out, depth),
                exec_model(stmt, more(st, extra), out, depth),
                extra,
            ),
        ),
    decreases depth, 3nat, stmt, 1nat,
{
    match stmt {
        StmtModel::Let(name, e) => {
            law_eval_faithful(e, st, extra, out, depth);
        },
        StmtModel::PrintTemplate(tpl, None) => {
            lemma_asked_push(out, OutputModel::Line(tpl));
        },
        StmtModel::PrintTemplate(tpl, Some(e)) => {
            let r = eval_model(e, st, out, depth);
            law_eval_faithful(e, st, extra, out, depth);
            if r.res is Ok {
                lemma_asked_push(
                    r.out,
                    OutputModel::Line(fill(tpl, render(r.res->Ok_0))),
                );
            }
        },
        StmtModel::PrintExpr(e) => {
            let r = eval_model(e, st, out, depth);
            law_eval_faithful(e, st, extra, out, depth);
            if r.res is Ok {
                lemma_asked_push(r.out, OutputModel::Line(render(r.res->Ok_0)));
            }
        },
        StmtModel::ListTypes => {
            lemma_reported(RequestModel::TypeNames, st, extra, out);
        },
        StmtModel::ListType(name) => {
            lemma_reported(RequestModel::Describe(name), st, extra, out);
        },
        StmtModel::Call(ty, op, args) => {
            let r = eval_ints(args, 0, Seq::empty(), st, out, depth);
            lemma_eval_ints_faithful(args, 0, Seq::empty(), st, extra, out, depth);
            if r.res is Ok {
                lemma_reported(RequestModel::Call(ty, op, r.res->Ok_0), st, extra, r.out);
            }
        },
        StmtModel::RunList(_) => {
            lemma_run_list_faithful(stmt, st, extra, out, depth);
        },
        StmtModel::Return(Some(e)) => {
            law_eval_faithful(e, st, extra, out, depth);
        },
        StmtModel::ExprStmt(e) => {
            law_eval_faithful(e, st, extra, out, depth);
        },
        StmtModel::Block(name, meta, body) => {
            match lookup(st.handlers, name) {
                Some(h) => {
                    lemma_block_faithful(h, meta, body, st, extra, out, depth);
                },
                None => {},
            }
        },
        StmtModel::If(c, t, other) => {
            let r = eval_model(c, st, out, depth);
            law_eval_faithful(c, st, extra, out, depth);
            if r.res is Ok {
                law_statement_faithful(*t, st, extra, r.out, depth);
                match other {
                    Some(o) => {
                        law_statement_faithful(*o, st, extra, r.out, depth);
                    },
                    None => {},
                }
            }
        },
        _ => {},
    }
}

proof fn lemma_run_list_faithful(
    stmt: StmtModel,
    st: StateModel,
    extra: Seq<AnswerModel>,
    out: Seq<OutputModel>,
    depth: nat,
)
    requires
        stmt is RunList,
    ensures
        faithful(
            out,
            exec_run_list(stmt, st, out, depth).out,
            is_pending(exec_run_list(stmt, st, out, depth).res),
            st,
            same_run(
                exec_run_list(stmt, st, out, depth),
                exec_run_list(stmt, more(st, extra), out, depth),
                extra,
            ),
        ),
    decreases depth, 3nat, stmt, 0nat,
{
    match stmt {
        StmtModel::RunList(items) => {
            if items.len() == 0 {
                lemma_asked_push(out, OutputModel::Line("empty list"@));
            } else if is_run_call(items, st.env) {
                let f = lookup(st.env, items[0]->Sym_0)->0;
                let a = eval_from(items, 1, Seq::empty(), st, out, depth);
                lemma_eval_from_faithful(items, 1, Seq::empty(), st, extra, out, depth);
                if a.res is Ok {
                    let r = apply_model(f, a.res->Ok_0, st, a.out, depth);
                    lemma_apply_faithful(f, a.res->Ok_0, st, extra, a.out, depth);
                    if r.res is Ok {
                        lemma_asked_push(
                            r.out,
                            OutputModel::Line(render(r.res->Ok_0)),
                        );
                    }
                }
            } else {
                match stmt_of_list(items) {
                    Ok(s) => {
                        if depth > 0 {
                            law_run_faithful(seq![s], 0, st, extra, out, (depth - 1) as nat);
                        }
                    },
                    Err(_) => {},
                }
            }
        },
        _ => {},
    }
}

proof fn lemma_block_faithful(
    h: BlockHandler,
    meta: Seq<ItemModel>,
    body: Seq<StmtModel>,
    st: StateModel,
    extra: Seq<AnswerModel>,
    out: Seq<OutputModel>,
    depth: nat,
)
    ensures
        faithful(
            out,
            handle_model(h, meta, body, st, out, depth).out,
            is_pending(handle_model(h, meta, body, st, out, depth).res),
            st,
            same_run(
                handle_model(h, meta, body, st, out, depth),
                handle_model(h, meta, body, more(st, extra), out, depth),
                extra,
            ),
        ),
    decreases depth, 2nat, body, 0nat,
{
    if depth > 0 {
        match h {
            BlockHandler::Test => {
                assert(with_mode(more(st, extra), false) == more(with_mode(st, false), extra));
                law_run_faithful(body, 0, with_mode(st, false), extra, out, (depth - 1) as nat);
            },
            BlockHandler::TestInit => {
                assert(with_mode(more(st, extra), false) == more(with_mode(st, false), extra));
                law_run_faithful(body, 0, with_mode(st, false), extra, out, (depth - 1) as nat);
            },
            BlockHandler::NoTest => {
                law_run_faithful(body, 0, st, extra, out, (depth - 1) as nat);
            },
            BlockHandler::Loop => {
                match loop_plan(meta) {
                    Ok(plan) => {
                        let p = run_from(plan.persist, 0, st, out, (depth - 1) as nat);
                        law_run_faithful(plan.persist, 0, st, extra, out, (depth - 1) as nat);
                        law_run_keeps_setup(plan.persist, 0, st, out, (depth - 1) as nat);
                        lemma_loop_faithful(
                            body,
                            plan.step,
                            plan.label,
                            p.state,
                            st.env,
                            round_cap(st.test_mode),
                            extra,
                            p.out,
                            depth,
                        );
                    },
                    Err(_) => {},
                }
            },
        }
    }
}

proof fn lemma_loop_faithful(
    body: Seq<StmtModel>,
    step: Seq<StmtModel>,
    label: Option<Seq<char>>,
    st: StateModel,
    saved: EnvModel,
    rounds: nat,
    extra: Seq<AnswerModel>,
    out: Seq<OutputModel>,
    depth: nat,
)
    ensures
        faithful(
            out,
            loop_model(body, step, label, st, saved, rounds, out, depth).out,
            is_pending(loop_model(body, step, label, st, saved, rounds, out, depth).res),
            st,
            same_run(
                loop_model(body, step, label, st, saved, rounds, out, depth),
                loop_model(body, step, label, more(st, extra), saved, rounds, out, depth),
                extra,
            ),
        ),
    decreases depth, 1nat, body, rounds,
{
    if rounds > 0 && depth > 0 {
        let b = run_from(body, 0, st, out, (depth - 1) as nat);
        law_run_faithful(body, 0, st, extra, out, (depth - 1) as nat);
        law_run_keeps_setup(body, 0, st, out, (depth - 1) as nat);
        if (b.res is Ok) && loop_exit(b.res->Ok_0, label).is_none() {
            let mid = with_env(b.state, st.env);
            assert(with_env(more(b.state, extra), st.env) == more(mid, extra));
            let s = run_from(step, 0, mid, b.out, (depth - 1) as nat);
            law_run_faithful(step, 0, mid, extra, b.out, (depth - 1) as nat);
            law_run_keeps_setup(step, 0, mid, b.out, (depth - 1) as nat);
            if (s.res is Ok) && loop_exit(s.res->Ok_0, label).is_none() {
                lemma_loop_faithful(
                    body,
                    step,
                    label,
                    s.state,
                    saved,
                    (rounds - 1) as nat,
                    extra,
                    s.out,
                    depth,
                );
            }
        }
    }
}

/// The log of a run is the beginning of the log of the same run with
/// further answers: the requests come in an order that does not depend on
/// the answers still to come.
pub proof fn law_eval_begins(
    e: ExprModel,
    st: StateModel,
    extra: Seq<AnswerModel>,
    out: Seq<OutputModel>,
    depth: nat,
)
    requires
        settled(out, st),
    ensures
        begins(eval_model(e, st, out, depth).out, eval_model(e, more(st, extra), out, depth).out),
    decreases depth, 3nat, e, 1nat,
{
    match e {
        ExprModel::Block(stmts) => {
            lemma_block_from_begins(stmts, 0, st.env, ValueModel::Int(0), st, extra, out, depth);
        },
        ExprModel::BlockNoValue(stmts) => {
            lemma_block_from_begins(stmts, 0, st.env, ValueModel::Int(0), st, extra, out, depth);
        },
        ExprModel::SList(items) => {
            lemma_eval_from_begins(items, 0, Seq::empty(), st, extra, out, depth);
        },
        ExprModel::List(_) => {
            lemma_eval_list_begins(e, st, extra, out, depth);
        },
        ExprModel::Call(_, _) => {
            lemma_eval_call_begins(e, st, extra, out, depth);
        },
        ExprModel::Binary(_, _, _) => {
            lemma_eval_binary_begins(e, st, extra, out, depth);
        },
        ExprModel::If(_, _, _) => {
            lemma_eval_if_begins(e, st, extra, out, depth);
        },
        ExprModel::Custom(_, _, _) => {
            lemma_eval_custom_begins(e, st, extra, out, depth);
        },
        ExprModel::MapWith(_, _) => {
            lemma_eval_map_begins(e, st, extra, out, depth);
        },
        ExprModel::Group(inner) => {
            law_eval_begins(*inner, st, extra, out, depth);
        },
        ExprModel::Index(_, _) => {
            lemma_eval_index_begins(e, st, extra, out, depth);
        },
        ExprModel::Method(_, _, _) => {
            lemma_eval_method_begins(e, st, extra, out, depth);
        },
        _ => {},
    }
}

proof fn lemma_eval_from_begins(
    es: Seq<ExprModel>,
    i: int,
    acc: Seq<ValueModel>,
    st: StateModel,
    extra: Seq<AnswerModel>,
    out: Seq<OutputModel>,
    depth: nat,
)
    requires
        0 <= i,
        settled(out, st),
    ensures
        begins(
            eval_from(es, i, acc, st, out, depth).out,
            eval_from(es, i, acc, more(st, extra), out, depth).out,
        ),
    decreases depth, 3nat, es, es.len() - i,
{
    if i < es.len() {
        let st2 = more(st, extra);
        let r = eval_model(es[i], st, out, depth);
        let r2 = eval_model(es[i], st2, out, depth);
        law_eval_faithful(es[i], st, extra, out, depth);
        law_eval_begins(es[i], st, extra, out, depth);
        if settled(r.out, st) {
            if r.res is Ok {
                lemma_eval_from_begins(es, i + 1, acc.push(r.res->Ok_0), st, extra, r.out, depth);
            }
        } else if r2.res is Ok {
            lemma_eval_from_faithful(es, i + 1, acc.push(r2.res->Ok_0), st2, extra, r2.out, depth);
        }
    }
}

proof fn lemma_eval_ints_begins(
    es: Seq<ExprModel>,
    i: int,
    acc: Seq<i64>,
    st: StateModel,
    extra: Seq<AnswerModel>,
    out: Seq<OutputModel>,
    depth: nat,
)
    requires
        0 <= i,
        settled(out, st),
    ensures
        begins(
            eval_ints(es, i, acc, st, out, depth).out,
            eval_ints(es, i, acc, more(st, extra), out, depth).out,
        ),
    decreases depth, 3nat, es, es.len() - i,
{
    if i < es.len() {
        let st2 = more(st, extra);
        let r = eval_model(es[i], st, out, depth);
        let r2 = eval_model(es[i], st2, out, depth);
        law_eval_faithful(es[i], st, extra, out, depth);
        law_eval_begins(es[i], st, extra, out, depth);
        if settled(r.out, st) {
            match r.res {
                Ok(ValueModel::Int(n)) => {
                    lemma_eval_ints_begins(es, i + 1, acc.push(n), st, extra, r.out, depth);
                },
                _ => {},
            }
        } else {
            match r2.res {
                Ok(ValueModel::Int(n)) => {
                    lemma_eval_ints_faithful(es, i + 1, acc.push(n), st2, extra, r2.out, depth);
                },
                _ => {},
            }
        }
    }
}

proof fn lemma_eval_op_args_begins(
    es: Seq<ExprModel>,
    i: int,
    acc: Seq<Arg>,
    st: StateModel,
    extra: Seq<AnswerModel>,
    out: Seq<OutputModel>,
    depth: nat,
)
    requires
        0 <= i,
        settled(out, st),
    ensures
        begins(
            eval_op_args(es, i, acc, st, out, depth).out,
            eval_op_args(es, i, acc, more(st, extra), out, depth).out,
        ),
    decreases depth, 3nat, es, es.len() - i,
{
    if i < es.len() {
        let st2 = more(st, extra);
        let r = eval_model(es[i], st, out, depth);
        let r2 = eval_model(es[i], st2, out, depth);
        law_eval_faithful(es[i], st, extra, out, depth);
        law_eval_begins(es[i], st, extra, out, depth);
        if settled(r.out, st) {
            match r.res {
                Ok(ValueModel::Int(n)) => {
                    lemma_eval_op_args_begins(
                        es,
                        i + 1,
                        acc.push(Arg::Int(n)),
                        st,
                        extra,
                        r.out,
                        depth,
                    );
                },
                Ok(ValueModel::Object(handle, _)) => {
                    lemma_eval_op_args_begins(
                        es,
                        i + 1,
                        acc.push(Arg::Object(handle)),
                        st,
                        extra,
                        r.out,
                        depth,
                    );
                },
                _ => {},
            }
        } else {
            match r2.res {
                Ok(ValueModel::Int(n)) => {
                    lemma_eval_op_args_faithful(
                        es,
                        i + 1,
                        acc.push(Arg::Int(n)),
                        st2,
                        extra,
                        r2.out,
                        depth,
                    );
                },
                Ok(ValueModel::Object(handle, _)) => {
                    lemma_eval_op_args_faithful(
                        es,
                        i + 1,
                        acc.push(Arg::Object(handle)),
                        st2,
                        extra,
                        r2.out,
                        depth,
                    );
                },
                _ => {},
            }
        }
    }
}

proof fn lemma_eval_items_begins(
    items: Seq<ItemModel>,
    i: int,
    vals: Seq<ValueModel>,
    keys: KeysModel,
    st: StateModel,
    extra: Seq<AnswerModel>,
    out: Seq<OutputModel>,
    depth: nat,
)
    requires
        0 <= i,
        settled(out, st),
    ensures
        begins(
            eval_items(items, i, vals, keys, st, out, depth).out,
            eval_items(items, i, vals, keys, more(st, extra), out, depth).out,
        ),
    decreases depth, 3nat, items, items.len() - i,
{
    if i < items.len() {
        let st2 = more(st, extra);
        let keys2 = match items[i].key {
            Some(k) => bind(keys, k, i as nat),
            None => keys,
        };
        match items[i].value {
            ExprModel::Var(name) => {
                lemma_eval_items_begins(
                    items,
                    i + 1,
                    vals.push(ValueModel::Sym(name)),
                    keys2,
                    st,
                    extra,
                    out,
                    depth,
                );
            },
            other => {
                let r = eval_model(other, st, out, depth);
                let r2 = eval_model(other, st2, out, depth);
                law_eval_faithful(other, st, extra, out, depth);
                law_eval_begins(other, st, extra, out, depth);
                if settled(r.out, st) {
                    if r.res is Ok {
                        lemma_eval_items_begins(
                            items,
                            i + 1,
                            vals.push(r.res->Ok_0),
                            keys2,
                            st,
                            extra,
                            r.out,
                            depth,
                        );
                    }
                } else if r2.res is Ok {
                    lemma_eval_items_faithful(
                        items,
                        i + 1,
                        vals.push(r2.res->Ok_0),
                        keys2,
                        st2,
                        extra,
                        r2.out,
                        depth,
                    );
                }
            },
        }
    }
}

proof fn lemma_eval_args_begins(
    items: Seq<ItemModel>,
    i: int,
    acc: Seq<ValueModel>,
    st: StateModel,
    extra: Seq<AnswerModel>,
    out: Seq<OutputModel>,
    depth: nat,
)
    requires
        0 <= i,
        settled(out, st),
    ensures
        begins(
            eval_args(items, i, acc, st, out, depth).out,
            eval_args(items, i, acc, more(st, extra), out, depth).out,
        ),
    decreases depth, 3nat, items, items.len() - i,
{
    if i < items.len() && items[i].key.is_none() {
        let st2 = more(st, extra);
        let r = eval_model(items[i].value, st, out, depth);
        let r2 = eval_model(items[i].value, st2, out, depth);
        law_eval_faithful(items[i].value, st, extra, out, depth);
        law_eval_begins(items[i].value, st, extra, out, depth);
        if settled(r.out, st) {
            if r.res is Ok {
                lemma_eval_args_begins(
                    items,
                    i + 1,
                    acc.push(r.res->Ok_0),
                    st,
                    extra,
                    r.out,
                    depth,
                );
            }
        } else if r2.res is Ok {
            lemma_eval_args_faithful(
                items,
                i + 1,
                acc.push(r2.res->Ok_0),
                st2,
                extra,
                r2.out,
                depth,
            );
        }
    }
}

proof fn lemma_eval_list_begins(
    e: ExprModel,
    st: StateModel,
    extra: Seq<AnswerModel>,
    out: Seq<OutputModel>,
    depth: nat,
)
    requires
        e is List,
        settled(out, st),
    ensures
        begins(eval_list(e, st, out, depth).out, eval_list(e, more(st, extra), out, depth).out),
    decreases depth, 3nat, e, 0nat,
{
    match e {
        ExprModel::List(items) => {
            let st2 = more(st, extra);
            if is_application(items, st.env) {
                let f = lookup(st.env, head_name(items)->0)->0;
                let a = eval_args(items, 1, Seq::empty(), st, out, depth);
                let a2 = eval_args(items, 1, Seq::empty(), st2, out, depth);
                lemma_eval_args_faithful(items, 1, Seq::empty(), st, extra, out, depth);
                lemma_eval_args_begins(items, 1, Seq::empty(), st, extra, out, depth);
                if settled(a.out, st) {
                    if a.res is Ok {
                        lemma_apply_begins(f, a.res->Ok_0, st, extra, a.out, depth);
                    }
                } else if a2.res is Ok {
                    lemma_apply_faithful(f, a2.res->Ok_0, st2, extra, a2.out, depth);
                }
            } else {
                lemma_eval_items_begins(
                    items,
                    0,
                    Seq::empty(),
                    Seq::empty(),
                    st,
                    extra,
                    out,
                    depth,
                );
            }
        },
        _ => {},
    }
}

proof fn lemma_eval_call_begins(
    e: ExprModel,
    st: StateModel,
    extra: Seq<AnswerModel>,
    out: Seq<OutputModel>,
    depth: nat,
)
    requires
        e is Call,
        settled(out, st),
    ensures
        begins(eval_call(e, st, out, depth).out, eval_call(e, more(st, extra), out, depth).out),
    decreases depth, 3nat, e, 0nat,
{
    match e {
        ExprModel::Call(name, args) => {
            let st2 = more(st, extra);
            if name == "value_of"@ {
                if args.len() == 1 {
                    law_eval_begins(args[0], st, extra, out, depth);
                }
            } else {
                let a = eval_from(args, 0, Seq::empty(), st, out, depth);
                let a2 = eval_from(args, 0, Seq::empty(), st2, out, depth);
                lemma_eval_from_faithful(args, 0, Seq::empty(), st, extra, out, depth);
                lemma_eval_from_begins(args, 0, Seq::empty(), st, extra, out, depth);
                if lookup(st.env, name) is Some {
                    let f = lookup(st.env, name)->0;
                    if settled(a.out, st) {
                        if a.res is Ok {
                            lemma_apply_begins(f, a.res->Ok_0, st, extra, a.out, depth);
                        }
                    } else if a2.res is Ok {
                        lemma_apply_faithful(f, a2.res->Ok_0, st2, extra, a2.out, depth);
                    }
                }
            }
        },
        _ => {},
    }
}

proof fn lemma_eval_binary_begins(
    e: ExprModel,
    st: StateModel,
    extra: Seq<AnswerModel>,
    out: Seq<OutputModel>,
    depth: nat,
)
    requires
        e is Binary,
        settled(out, st),
    ensures
        begins(eval_binary(e, st, out, depth).out, eval_binary(e, more(st, extra), out, depth).out),
    decreases depth, 3nat, e, 0nat,
{
    match e {
        ExprModel::Binary(op, a, b) => {
            let st2 = more(st, extra);
            let ra = eval_model(*a, st, out, depth);
            let ra2 = eval_model(*a, st2, out, depth);
            law_eval_faithful(*a, st, extra, out, depth);
            law_eval_begins(*a, st, extra, out, depth);
            if settled(ra.out, st) {
                if ra.res is Ok {
                    law_eval_begins(*b, st, extra, ra.out, depth);
                }
            } else if ra2.res is Ok {
                law_eval_faithful(*b, st2, extra, ra2.out, depth);
            }
        },
        _ => {},
    }
}

proof fn lemma_eval_if_begins(
    e: ExprModel,
    st: StateModel,
    extra: Seq<AnswerModel>,
    out: Seq<OutputModel>,
    depth: nat,
)
    requires
        e is If,
        settled(out, st),
    ensures
        begins(eval_if(e, st, out, depth).out, eval_if(e, more(st, extra), out, depth).out),
    decreases depth, 3nat, e, 0nat,
{
    match e {
        ExprModel::If(c, t, other) => {
            let st2 = more(st, extra);
            let rc = eval_model(*c, st, out, depth);
            let rc2 = eval_model(*c, st2, out, depth);
            law_eval_faithful(*c, st, extra, out, depth);
            law_eval_begins(*c, st, extra, out, depth);
            if settled(rc.out, st) {
                if rc.res is Ok {
                    law_eval_begins(*t, st, extra, rc.out, depth);
                    match other {
                        Some(o) => {
                            law_eval_begins(*o, st, extra, rc.out, depth);
                        },
                        None => {},
                    }
                }
            } else if rc2.res is Ok {
                law_eval_faithful(*t, st2, extra, rc2.out, depth);
                match other {
                    Some(o) => {
                        law_eval_faithful(*o, st2, extra, rc2.out, depth);
                    },
                    None => {},
                }
            }
        },
        _ => {},
    }
}

proof fn lemma_eval_custom_begins(
    e: ExprModel,
    st: StateModel,
    extra: Seq<AnswerModel>,
    out: Seq<OutputModel>,
    depth: nat,
)
    requires
        e is Custom,
        settled(out, st),
    ensures
        begins(eval_custom(e, st, out, depth).out, eval_custom(e, more(st, extra), out, depth).out),
    decreases depth, 3nat, e, 0nat,
{
    match e {
        ExprModel::Custom(a, op, b) => {
            let st2 = more(st, extra);
            let ra = eval_model(*a, st, out, depth);
            let ra2 = eval_model(*a, st2, out, depth);
            law_eval_faithful(*a, st, extra, out, depth);
            law_eval_begins(*a, st, extra, out, depth);
            assert(operator_function(op, st2) == operator_function(op, st));
            if settled(ra.out, st) {
                if ra.res is Ok {
                    let rb = eval_model(*b, st, ra.out, depth);
                    let rb2 = eval_model(*b, st2, ra.out, depth);
                    law_eval_faithful(*b, st, extra, ra.out, depth);
                    law_eval_begins(*b, st, extra, ra.out, depth);
                    match operator_function(op, st) {
                        Ok(f) => {
                            if settled(rb.out, st) {
                                if rb.res is Ok {
                                    lemma_apply_begins(
                                        f,
                                        seq![ra.res->Ok_0, rb.res->Ok_0],
                                        st,
                                        extra,
                                        rb.out,
                                        depth,
                                    );
                                }
                            } else if rb2.res is Ok {
                                lemma_apply_faithful(
                                    f,
                                    seq![ra.res->Ok_0, rb2.res->Ok_0],
                                    st2,
                                    extra,
                                    rb2.out,
                                    depth,
                                );
                            }
                        },
                        Err(_) => {},
                    }
                }
            } else if ra2.res is Ok {
                let rb2 = eval_model(*b, st2, ra2.out, depth);
                law_eval_faithful(*b, st2, extra, ra2.out, depth);
                if rb2.res is Ok {
                    match operator_function(op, st) {
                        Ok(f) => {
                            lemma_apply_faithful(
                                f,
                                seq![ra2.res->Ok_0, rb2.res->Ok_0],
                                st2,
                                extra,
                                rb2.out,
                                depth,
                            );
                        },
                        Err(_) => {},
                    }
                }
            }
        },
        _ => {},
    }
}

proof fn lemma_eval_map_begins(
    e: ExprModel,
    st: StateModel,
    extra: Seq<AnswerModel>,
    out: Seq<OutputModel>,
    depth: nat,
)
    requires
        e is MapWith,
        settled(out, st),
    ensures
        begins(eval_map(e, st, out, depth).out, eval_map(e, more(st, extra), out, depth).out),
    decreases depth, 3nat, e, 0nat,
{
    match e {
        ExprModel::MapWith(list, name) => {
            let st2 = more(st, extra);
            let rl = eval_model(*list, st, out, depth);
            let rl2 = eval_model(*list, st2, out, depth);
            law_eval_faithful(*list, st, extra, out, depth);
            law_eval_begins(*list, st, extra, out, depth);
            assert(map_function(name, st2) == map_function(name, st));
            match map_function(name, st) {
                Ok(f) => {
                    if settled(rl.out, st) {
                        match rl.res {
                            Ok(ValueModel::List(items, _)) => {
                                lemma_map_from_begins(
                                    f,
                                    items,
                                    0,
                                    Seq::empty(),
                                    st,
                                    extra,
                                    rl.out,
                                    depth,
                                );
                            },
                            _ => {},
                        }
                    } else {
                        match rl2.res {
                            Ok(ValueModel::List(items, _)) => {
                                lemma_map_from_faithful(
                                    f,
                                    items,
                                    0,
                                    Seq::empty(),
                                    st2,
                                    extra,
                                    rl2.out,
                                    depth,
                                );
                            },
                            _ => {},
                        }
                    }
                },
                Err(_) => {},
            }
        },
        _ => {},
    }
}

proof fn lemma_map_from_begins(
    f: ValueModel,
    items: Seq<ValueModel>,
    i: int,
    acc: Seq<ValueModel>,
    st: StateModel,
    extra: Seq<AnswerModel>,
    out: Seq<OutputModel>,
    depth: nat,
)
    requires
        0 <= i,
        settled(out, st),
    ensures
        begins(
            map_from(f, items, i, acc, st, out, depth).out,
            map_from(f, items, i, acc, more(st, extra), out, depth).out,
        ),
    decreases depth, 2nat, items, items.len() - i,
{
    if i < items.len() {
        let st2 = more(st, extra);
        let r = apply_model(f, seq![items[i]], st, out, depth);
        let r2 = apply_model(f, seq![items[i]], st2, out, depth);
        lemma_apply_faithful(f, seq![items[i]], st, extra, out, depth);
        lemma_apply_begins(f, seq![items[i]], st, extra, out, depth);
        if settled(r.out, st) {
            if r.res is Ok {
                lemma_map_from_begins(
                    f,
                    items,
                    i + 1,
                    acc.push(r.res->Ok_0),
                    st,
                    extra,
                    r.out,
                    depth,
                );
            }
        } else if r2.res is Ok {
            lemma_map_from_faithful(
                f,
                items,
                i + 1,
                acc.push(r2.res->Ok_0),
                st2,
                extra,
                r2.out,
                depth,
            );
        }
    }
}

proof fn lemma_eval_index_begins(
    e: ExprModel,
    st: StateModel,
    extra: Seq<AnswerModel>,
    out: Seq<OutputModel>,
    depth: nat,
)
    requires
        e is Index,
        settled(out, st),
    ensures
        begins(eval_index(e, st, out, depth).out, eval_index(e, more(st, extra), out, depth).out),
    decreases depth, 3nat, e, 0nat,
{
    match e {
        ExprModel::Index(list, index) => {
            let st2 = more(st, extra);
            let rl = eval_model(*list, st, out, depth);
            let rl2 = eval_model(*list, st2, out, depth);
            law_eval_faithful(*list, st, extra, out, depth);
            law_eval_begins(*list, st, extra, out, depth);
            if settled(rl.out, st) {
                match rl.res {
                    Ok(ValueModel::List(_, _)) => {
                        law_eval_begins(*index, st, extra, rl.out, depth);
                    },
                    _ => {},
                }
            } else {
                match rl2.res {
                    Ok(ValueModel::List(_, _)) => {
                        law_eval_faithful(*index, st2, extra, rl2.out, depth);
                    },
                    _ => {},
                }
            }
        },
        _ => {},
    }
}

/// An operation invoked behind its arguments: the logs begin alike.
proof fn lemma_invoke_begins(
    ty: Seq<char>,
    op: Seq<char>,
    receiver: Option<u64>,
    args: Seq<ExprModel>,
    st: StateModel,
    extra: Seq<AnswerModel>,
    out: Seq<OutputModel>,
    depth: nat,
)
    requires
        settled(out, st),
    ensures
        begins(
            invoke(
                ty,
                op,
                receiver,
                eval_op_args(args, 0, Seq::empty(), st, out, depth),
                st,
            ).out,
            invoke(
                ty,
                op,
                receiver,
                eval_op_args(args, 0, Seq::empty(), more(st, extra), out, depth),
                more(st, extra),
            ).out,
        ),
    decreases depth, 3nat, args, args.len() + 1,
{
    let st2 = more(st, extra);
    let a = eval_op_args(args, 0, Seq::empty(), st, out, depth);
    let a2 = eval_op_args(args, 0, Seq::empty(), st2, out, depth);
    lemma_eval_op_args_faithful(args, 0, Seq::empty(), st, extra, out, depth);
    lemma_eval_op_args_begins(args, 0, Seq::empty(), st, extra, out, depth);
    if settled(a.out, st) {
        match a.res {
            Ok(v) => {
                lemma_ask(RequestModel::Invoke(ty, op, receiver, v), st, extra, a.out);
            },
            Err(_) => {},
        }
    } else {
        match a2.res {
            Ok(v) => {
                lemma_ask(RequestModel::Invoke(ty, op, receiver, v), st2, extra, a2.out);
            },
            Err(_) => {},
        }
    }
}

proof fn lemma_eval_method_begins(
    e: ExprModel,
    st: StateModel,
    extra: Seq<AnswerModel>,
    out: Seq<OutputModel>,
    depth: nat,
)
    requires
        e is Method,
        settled(out, st),
    ensures
        begins(eval_method(e, st, out, depth).out, eval_method(e, more(st, extra), out, depth).out),
    decreases depth, 3nat, e, 0nat,
{
    match e {
        ExprModel::Method(receiver, op, args) => {
            let st2 = more(st, extra);
            match type_receiver(*receiver, st.env) {
                Some(ty) => {
                    lemma_invoke_begins(ty, op, None, args, st, extra, out, depth);
                },
                None => {
                    let r = eval_model(*receiver, st, out, depth);
                    let r2 = eval_model(*receiver, st2, out, depth);
                    law_eval_faithful(*receiver, st, extra, out, depth);
                    law_eval_begins(*receiver, st, extra, out, depth);
                    if settled(r.out, st) {
                        match r.res {
                            Ok(ValueModel::Object(handle, ty)) => {
                                lemma_invoke_begins(
                                    ty,
                                    op,
                                    Some(handle),
                                    args,
                                    st,
                                    extra,
                                    r.out,
                                    depth,
                                );
                            },
                            _ => {},
                        }
                    } else {
                        match r2.res {
                            Ok(ValueModel::Object(handle, ty)) => {
                                let a2 = eval_op_args(args, 0, Seq::empty(), st2, r2.out, depth);
                                lemma_eval_op_args_faithful(
                                    args,
                                    0,
                                    Seq::empty(),
                                    st2,
                                    extra,
                                    r2.out,
                                    depth,
                                );
                                match a2.res {
                                    Ok(v) => {
                                        lemma_ask(
                                            RequestModel::Invoke(ty, op, Some(handle), v),
                                            st2,
                                            extra,
                                            a2.out,
                                        );
                                    },
                                    Err(_) => {},
                                }
                            },
                            _ => {},
                        }
                    }
                },
            }
        },
        _ => {},
    }
}

proof fn lemma_apply_begins(
    f: ValueModel,
    args: Seq<ValueModel>,
    st: StateModel,
    extra: Seq<AnswerModel>,
    out: Seq<OutputModel>,
    depth: nat,
)
    requires
        settled(out, st),
    ensures
        begins(
            apply_model(f, args, st, out, depth).out,
            apply_model(f, args, more(st, extra), out, depth).out,
        ),
    decreases depth, 1nat, f, 0nat,
{
    match f {
        ValueModel::Func(params, body, fenv) => {
            if depth > 0 {
                let inner = with_env(st, bind_params(fenv, params, args, 0));
                assert(with_env(more(st, extra), inner.env) == more(inner, extra));
                law_eval_begins(body, inner, extra, out, (depth - 1) as nat);
            }
        },
        ValueModel::FuncBlock(params, body, fenv) => {
            if depth > 0 {
                let inner = with_env(st, bind_params(fenv, params, args, 0));
                assert(with_env(more(st, extra), inner.env) == more(inner, extra));
                law_run_begins(body, 0, inner, extra, out, (depth - 1) as nat);
            }
        },
        ValueModel::NativeFunc(params, name) => {
            lemma_ask(RequestModel::Native(name, args, st.env), st, extra, out);
        },
        _ => {},
    }
}

proof fn lemma_block_from_begins(
    stmts: Seq<StmtModel>,
    i: int,
    env: EnvModel,
    last: ValueModel,
    st: StateModel,
    extra: Seq<AnswerModel>,
    out: Seq<OutputModel>,
    depth: nat,
)
    requires
        0 <= i,
        settled(out, st),
    ensures
        begins(
            block_from(stmts, i, env, last, st, out, depth).out,
            block_from(stmts, i, env, last, more(st, extra), out, depth).out,
        ),
    decreases depth, 3nat, stmts, stmts.len() - i,
{
    if i < stmts.len() {
        let st2 = more(st, extra);
        let r = block_stmt(stmts[i], env, last, st, out, depth);
        let r2 = block_stmt(stmts[i], env, last, st2, out, depth);
        lemma_block_stmt_faithful(stmts[i], env, last, st, extra, out, depth);
        lemma_block_stmt_begins(stmts[i], env, last, st, extra, out, depth);
        if settled(r.out, st) {
            if r.res == Ok::<Option<ValueModel>, ErrorModel>(None) {
                lemma_block_from_begins(stmts, i + 1, r.env, r.last, st, extra, r.out, depth);
            }
        } else if r2.res == Ok::<Option<ValueModel>, ErrorModel>(None) {
            lemma_block_from_faithful(stmts, i + 1, r2.env, r2.last, st2, extra, r2.out, depth);
        }
    }
}

proof fn lemma_block_stmt_begins(
    stmt: StmtModel,
    env: EnvModel,
    last: ValueModel,
    st: StateModel,
    extra: Seq<AnswerModel>,
    out: Seq<OutputModel>,
    depth: nat,
)
    requires
        settled(out, st),
    ensures
        begins(
            block_stmt(stmt, env, last, st, out, depth).out,
            block_stmt(stmt, env, last, more(st, extra), out, depth).out,
        ),
    decreases depth, 3nat, stmt, 0nat,
{
    let inner = with_env(st, env);
    let st2 = more(st, extra);
    assert(with_env(st2, env) == more(inner, extra));
    match stmt {
        StmtModel::Let(name, e) => {
            law_eval_begins(e, inner, extra, out, depth);
        },
        StmtModel::PrintExpr(e) => {
            let r = eval_model(e, inner, out, depth);
            let r2 = eval_model(e, more(inner, extra), out, depth);
            law_eval_faithful(e, inner, extra, out, depth);
            law_eval_begins(e, inner, extra, out, depth);
        },
        StmtModel::ExprStmt(e) => {
            law_eval_begins(e, inner, extra, out, depth);
        },
        StmtModel::Return(Some(e)) => {
            law_eval_begins(e, inner, extra, out, depth);
        },
        StmtModel::If(c, t, other) => {
            let r = eval_model(c, inner, out, depth);
            let r2 = eval_model(c, more(inner, extra), out, depth);
            law_eval_faithful(c, inner, extra, out, depth);
            law_eval_begins(c, inner, extra, out, depth);
            if settled(r.out, st) {
                if r.res is Ok {
                    lemma_block_stmt_begins(*t, env, ValueModel::Int(0), st, extra, r.out, depth);
                    match other {
                        Some(o) => {
                            lemma_block_stmt_begins(
                                *o,
                                env,
                                ValueModel::Int(0),
                                st,
                                extra,
                                r.out,
                                depth,
                            );
                        },
                        None => {},
                    }
                }
            } else if r2.res is Ok {
                lemma_block_stmt_faithful(*t, env, ValueModel::Int(0), st2, extra, r2.out, depth);
                match other {
                    Some(o) => {
                        lemma_block_stmt_faithful(
                            *o,
                            env,
                            ValueModel::Int(0),
                            st2,
                            extra,
                            r2.out,
                            depth,
                        );
                    },
                    None => {},
                }
            }
        },
        _ => {},
    }
}

/// The log of a run of statements is the beginning of the log of the same
/// run with further answers.
pub proof fn law_run_begins(
    stmts: Seq<StmtModel>,
    i: int,
    st: StateModel,
    extra: Seq<AnswerModel>,
    out: Seq<OutputModel>,
    depth: nat,
)
    requires
        0 <= i,
        settled(out, st),
    ensures
        begins(
            run_from(stmts, i, st, out, depth).out,
            run_from(stmts, i, more(st, extra), out, depth).out,
        ),
    decreases depth, 3nat, stmts, stmts.len() - i,
{
    if i < stmts.len() {
        let st2 = more(st, extra);
        let r = exec_model(stmts[i], st, out, depth);
        let r2 = exec_model(stmts[i], st2, out, depth);
        law_statement_faithful(stmts[i], st, extra, out, depth);
        law_statement_begins(stmts[i], st, extra, out, depth);
        law_statement_keeps_setup(stmts[i], st, out, depth);
        if settled(r.out, st) {
            if r.res == Ok::<FlowModel, ErrorModel>(FlowModel::Continue) {
                law_run_begins(stmts, i + 1, r.state, extra, r.out, depth);
            }
        } else if r2.res == Ok::<FlowModel, ErrorModel>(FlowModel::Continue) {
            law_run_faithful(stmts, i + 1, r2.state, extra, r2.out, depth);
        }
    }
}

/// The log of a statement is the beginning of the log of the same
/// statement with further answers.
pub proof fn law_statement_begins(
    stmt: StmtModel,
    st: StateModel,
    extra: Seq<AnswerModel>,
    out: Seq<OutputModel>,
    depth: nat,
)
    requires
        settled(out, st),
    ensures
        begins(
            exec_model(stmt, st, out, depth).out,
            exec_model(stmt, more(st, extra), out, depth).out,
        ),
    decreases depth, 3nat, stmt, 1nat,
{
    let st2 = more(st, extra);
    match stmt {
        StmtModel::Let(name, e) => {
            law_eval_begins(e, st, extra, out, depth);
        },
        StmtModel::PrintTemplate(tpl, Some(e)) => {
            law_eval_faithful(e, st, extra, out, depth);
            law_eval_begins(e, st, extra, out, depth);
        },
        StmtModel::PrintExpr(e) => {
            law_eval_faithful(e, st, extra, out, depth);
            law_eval_begins(e, st, extra, out, depth);
        },
        StmtModel::ListTypes => {
            lemma_reported(RequestModel::TypeNames, st, extra, out);
        },
        StmtModel::ListType(name) => {
            lemma_reported(RequestModel::Describe(name), st, extra, out);
        },
        StmtModel::Call(ty, op, args) => {
            let r = eval_ints(args, 0, Seq::empty(), st, out, depth);
            let r2 = eval_ints(args, 0, Seq::empty(), st2, out, depth);
            lemma_eval_ints_faithful(args, 0, Seq::empty(), st, extra, out, depth);
            lemma_eval_ints_begins(args, 0, Seq::empty(), st, extra, out, depth);
            if settled(r.out, st) {
                if r.res is Ok {
                    lemma_reported(RequestModel::Call(ty, op, r.res->Ok_0), st, extra, r.out);
                }
            } else if r2.res is Ok {
                lemma_reported(RequestModel::Call(ty, op, r2.res->Ok_0), st2, extra, r2.out);
            }
        },
        StmtModel::RunList(_) => {
            lemma_run_list_begins(stmt, st, extra, out, depth);
        },
        StmtModel::Return(Some(e)) => {
            law_eval_begins(e, st, extra, out, depth);
        },
        StmtModel::ExprStmt(e) => {
            law_eval_begins(e, st, extra, out, depth);
        },
        StmtModel::Block(name, meta, body) => {
            match lookup(st.handlers, name) {
                Some(h) => {
                    lemma_block_begins(h, meta, body, st, extra, out, depth);
                },
                None => {},
            }
        },
        StmtModel::If(c, t, other) => {
            let r = eval_model(c, st, out, depth);
            let r2 = eval_model(c, st2, out, depth);
            law_eval_faithful(c, st, extra, out, depth);
            law_eval_begins(c, st, extra, out, depth);
            if settled(r.out, st) {
                if r.res is Ok {
                    law_statement_begins(*t, st, extra, r.out, depth);
                    match other {
                        Some(o) => {
                            law_statement_begins(*o, st, extra, r.out, depth);
                        },
                        None => {},
                    }
                }
            } else if r2.res is Ok {
                law_statement_faithful(*t, st2, extra, r2.out, depth);
                match other {
                    Some(o) => {
                        law_statement_faithful(*o, st2, extra, r2.out, depth);
                    },
                    None => {},
                }
            }
        },
        _ => {},
    }
}

proof fn lemma_run_list_begins(
    stmt: StmtModel,
    st: StateModel,
    extra: Seq<AnswerModel>,
    out: Seq<OutputModel>,
    depth: nat,
)
    requires
        stmt is RunList,
        settled(out, st),
    ensures
        begins(
            exec_run_list(stmt, st, out, depth).out,
            exec_run_list(stmt, more(st, extra), out, depth).out,
        ),
    decreases depth, 3nat, stmt, 0nat,
{
    match stmt {
        StmtModel::RunList(items) => {
            let st2 = more(st, extra);
            if items.len() == 0 {
            } else if is_run_call(items, st.env) {
                let f = lookup(st.env, items[0]->Sym_0)->0;
                let a = eval_from(items, 1, Seq::empty(), st, out, depth);
                let a2 = eval_from(items, 1, Seq::empty(), st2, out, depth);
                lemma_eval_from_faithful(items, 1, Seq::empty(), st, extra, out, depth);
                lemma_eval_from_begins(items, 1, Seq::empty(), st, extra, out, depth);
                if settled(a.out, st) {
                    if a.res is Ok {
                        lemma_apply_faithful(f, a.res->Ok_0, st, extra, a.out, depth);
                        lemma_apply_begins(f, a.res->Ok_0, st, extra, a.out, depth);
                    }
                } else if a2.res is Ok {
                    lemma_apply_faithful(f, a2.res->Ok_0, st2, extra, a2.out, depth);
                }
            } else {
                match stmt_of_list(items) {
                    Ok(s) => {
                        if depth > 0 {
                            law_run_begins(seq![s], 0, st, extra, out, (depth - 1) as nat);
                        }
                    },
                    Err(_) => {},
                }
            }
        },
        _ => {},
    }
}

proof fn lemma_block_begins(
    h: BlockHandler,
    meta: Seq<ItemModel>,
    body: Seq<StmtModel>,
    st: StateModel,
    extra: Seq<AnswerModel>,
    out: Seq<OutputModel>,
    depth: nat,
)
    requires
        settled(out, st),
    ensures
        begins(
            handle_model(h, meta, body, st, out, depth).out,
            handle_model(h, meta, body, more(st, extra), out, depth).out,
        ),
    decreases depth, 2nat, body, 0nat,
{
    if depth > 0 {
        let st2 = more(st, extra);
        match h {
            BlockHandler::Test => {
                assert(with_mode(st2, false) == more(with_mode(st, false), extra));
                law_run_begins(body, 0, with_mode(st, false), extra, out, (depth - 1) as nat);
            },
            BlockHandler::TestInit => {
                assert(with_mode(st2, false) == more(with_mode(st, false), extra));
                law_run_begins(body, 0, with_mode(st, false), extra, out, (depth - 1) as nat);
            },
            BlockHandler::NoTest => {
                law_run_begins(body, 0, st, extra, out, (depth - 1) as nat);
            },
            BlockHandler::Loop => {
                match loop_plan(meta) {
                    Ok(plan) => {
                        let p = run_from(plan.persist, 0, st, out, (depth - 1) as nat);
                        let p2 = run_from(plan.persist, 0, st2, out, (depth - 1) as nat);
                        law_run_faithful(plan.persist, 0, st, extra, out, (depth - 1) as nat);
                        law_run_begins(plan.persist, 0, st, extra, out, (depth - 1) as nat);
                        law_run_keeps_setup(plan.persist, 0, st, out, (depth - 1) as nat);
                        law_run_keeps_setup(plan.persist, 0, st2, out, (depth - 1) as nat);
                        if settled(p.out, st) {
                            lemma_loop_begins(
                                body,
                                plan.step,
                                plan.label,
                                p.state,
                                st.env,
                                round_cap(st.test_mode),
                                extra,
                                p.out,
                                depth,
                            );
                        } else {
                            lemma_loop_faithful(
                                body,
                                plan.step,
                                plan.label,
                                p2.state,
                                st.env,
                                round_cap(st.test_mode),
                                extra,
                                p2.out,
                                depth,
                            );
                        }
                    },
                    Err(_) => {},
                }
            },
        }
    }
}

proof fn lemma_loop_begins(
    body: Seq<StmtModel>,
    step: Seq<StmtModel>,
    label: Option<Seq<char>>,
    st: StateModel,
    saved: EnvModel,
    rounds: nat,
    extra: Seq<AnswerModel>,
    out: Seq<OutputModel>,
    depth: nat,
)
    requires
        settled(out, st),
    ensures
        begins(
            loop_model(body, step, label, st, saved, rounds, out, depth).out,
            loop_model(body, step, label, more(st, extra), saved, rounds, out, depth).out,
        ),
    decreases depth, 1nat, body, rounds,
{
    if rounds > 0 && depth > 0 {
        let st2 = more(st, extra);
        let b = run_from(body, 0, st, out, (depth - 1) as nat);
        let b2 = run_from(body, 0, st2, out, (depth - 1) as nat);
        law_run_faithful(body, 0, st, extra, out, (depth - 1) as nat);
        law_run_begins(body, 0, st, extra, out, (depth - 1) as nat);
        law_run_keeps_setup(body, 0, st, out, (depth - 1) as nat);
        law_run_keeps_setup(body, 0, st2, out, (depth - 1) as nat);
        if settled(b.out, st) {
            if (b.res is Ok) && loop_exit(b.res->Ok_0, label).is_none() {
                let mid = with_env(b.state, st.env);
                assert(with_env(more(b.state, extra), st.env) == more(mid, extra));
                let s = run_from(step, 0, mid, b.out, (depth - 1) as nat);
                let s2 = run_from(step, 0, more(mid, extra), b.out, (depth - 1) as nat);
                law_run_faithful(step, 0, mid, extra, b.out, (depth - 1) as nat);
                law_run_begins(step, 0, mid, extra, b.out, (depth - 1) as nat);
                law_run_keeps_setup(step, 0, mid, b.out, (depth - 1) as nat);
                law_run_keeps_setup(step, 0, more(mid, extra), b.out, (depth - 1) as nat);
                if settled(s.out, st) {
                    if (s.res is Ok) && loop_exit(s.res->Ok_0, label).is_none() {
                        lemma_loop_begins(
                            body,
                            step,
                            label,
                            s.state,
                            saved,
                            (rounds - 1) as nat,
                            extra,
                            s.out,
                            depth,
                        );
                    }
                } else if (s2.res is Ok) && loop_exit(s2.res->Ok_0, label).is_none() {
                    lemma_loop_faithful(
                        body,
                        step,
                        label,
                        s2.state,
                        saved,
                        (rounds - 1) as nat,
                        extra,
                        s2.out,
                        depth,
                    );
                }
            }
        } else if (b2.res is Ok) && loop_exit(b2.res->Ok_0, label).is_none() {
            let mid2 = with_env(b2.state, st2.env);
            let s2 = run_from(step, 0, mid2, b2.out, (depth - 1) as nat);
            law_run_faithful(step, 0, mid2, extra, b2.out, (depth - 1) as nat);
            law_run_keeps_setup(step, 0, mid2, b2.out, (depth - 1) as nat);
            if (s2.res is Ok) && loop_exit(s2.res->Ok_0, label).is_none() {
                lemma_loop_faithful(
                    body,
                    step,
                    label,
                    s2.state,
                    saved,
                    (rounds - 1) as nat,
                    extra,
                    s2.out,
                    depth,
                );
            }
        }
    }
}

/// What a host may rely on that runs a program again with one more answer
/// each time. A run from an empty log whose requests all have an answer
/// comes out the same whatever answers come behind. A run that lacks an
/// answer ends pending, the request that waits is the last item of its log,
/// and that log is the beginning of the log of the run with further answers:
/// so the answers given before still meet the requests they were given to.
pub proof fn law_replay(
    program: Seq<StmtModel>,
    st: StateModel,
    extra: Seq<AnswerModel>,
    depth: nat,
)
    ensures
        ({
            let run = run_from(program, 0, st, Seq::empty(), depth);
            let again = run_from(program, 0, more(st, extra), Seq::empty(), depth);
            &&& begins(run.out, again.out)
            &&& settled(run.out, st) ==> same_run(run, again, extra)
            &&& !settled(run.out, st) ==> is_pending(run.res) && ends_asking(run.out) && asked(
                run.out,
            ) == st.answers.len() + 1
        }),
{
    law_run_faithful(program, 0, st, extra, Seq::empty(), depth);
    law_run_begins(program, 0, st, extra, Seq::empty(), depth);
}

} // verus!
