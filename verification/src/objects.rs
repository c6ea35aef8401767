//! The objects that values hold. An object that no value of the
//! environment holds can no longer be reached by a program, and the host
//! may release its instance.

use vstd::prelude::*;
use vstd::seq_lib::{lemma_seq_contains_after_push, lemma_seq_empty_contains_nothing};
use crate::value::{bindings_view, values_view, Env, EnvModel, Value, ValueModel};

verus! {

/// Whether the value holds the object with the handle: it is that object,
/// or a list with an item that holds it, or a function whose environment
/// binds a value that holds it.
pub open spec fn holds(v: ValueModel, handle: u64) -> bool
    decreases v, 0nat,
{
    match v {
        ValueModel::Object(h, _) => h == handle,
        ValueModel::List(items, _) => some_holds(items, items.len(), handle),
        ValueModel::Func(_, _, env) => some_binds(env, env.len(), handle),
        ValueModel::FuncBlock(_, _, env) => some_binds(env, env.len(), handle),
        _ => false,
    }
}

/// Whether one of the first `n` values holds the object.
pub open spec fn some_holds(items: Seq<ValueModel>, n: nat, handle: u64) -> bool
    decreases items, n,
{
    if n == 0 || n > items.len() {
        false
    } else {
        some_holds(items, (n - 1) as nat, handle) || holds(items[n - 1], handle)
    }
}

/// Whether one of the first `n` bindings binds a value that holds the object.
pub open spec fn some_binds(env: EnvModel, n: nat, handle: u64) -> bool
    decreases env, n,
{
    if n == 0 || n > env.len() {
        false
    } else {
        some_binds(env, (n - 1) as nat, handle) || holds(env[n - 1].1, handle)
    }
}

/// Whether the environment binds a value that holds the object.
pub open spec fn env_holds(env: EnvModel, handle: u64) -> bool {
    some_binds(env, env.len(), handle)
}

/// Appends the handles of the objects that the bindings hold.
fn push_bound_objects(entries: &Vec<(String, Value)>, acc: &mut Vec<u64>)
    ensures
        forall|h: u64|
            #[trigger] final(acc)@.contains(h) == (old(acc)@.contains(h) || some_binds(
                bindings_view(entries@),
                entries.len() as nat,
                h,
            )),
    decreases entries,
{
    let ghost ms = bindings_view(entries@);
    let mut i: usize = 0;
    while i < entries.len()
        invariant
            i <= entries.len(),
            ms == bindings_view(entries@),
            forall|h: u64|
                #[trigger] acc@.contains(h) == (old(acc)@.contains(h) || some_binds(
                    ms,
                    i as nat,
                    h,
                )),
        decreases entries.len() - i,
    {
        let ghost before = acc@;
        proof {
            assert(decreases_to!(entries => entries[i as int].1));
            assert(ms[i as int].1 == entries[i as int].1.view());
        }
        push_objects(&entries[i].1, acc);
        proof {
            assert forall|h: u64|
                #[trigger] acc@.contains(h) == (old(acc)@.contains(h) || some_binds(
                    ms,
                    (i + 1) as nat,
                    h,
                )) by {
                assert(before.contains(h) == (old(acc)@.contains(h) || some_binds(
                    ms,
                    i as nat,
                    h,
                )));
                assert(some_binds(ms, (i + 1) as nat, h) == (some_binds(ms, i as nat, h) || holds(
                    ms[i as int].1,
                    h,
                )));
            }
        }
        i += 1;
    }
}

/// Appends the handles of the objects that the value holds.
pub fn push_objects(v: &Value, acc: &mut Vec<u64>)
    ensures
        forall|h: u64|
            #[trigger] final(acc)@.contains(h) == (old(acc)@.contains(h) || holds(v.view(), h)),
    decreases v,
{
    match v {
        Value::Object(handle, _) => {
            acc.push(*handle);
            proof {
                assert forall|h: u64|
                    #[trigger] acc@.contains(h) == (old(acc)@.contains(h) || holds(
                        v.view(),
                        h,
                    )) by {
                    lemma_seq_contains_after_push(old(acc)@, *handle, h);
                }
            }
        },
        Value::List(items, _) => {
            let ghost ms = values_view(items@);
            let mut i: usize = 0;
            while i < items.len()
                invariant
                    i <= items.len(),
                    ms == values_view(items@),
                    v == Value::List(*items, v->List_1),
                    forall|h: u64|
                        #[trigger] acc@.contains(h) == (old(acc)@.contains(h) || some_holds(
                            ms,
                            i as nat,
                            h,
                        )),
                decreases items.len() - i,
            {
                let ghost before = acc@;
                proof {
                    assert(decreases_to!(v => v->List_0[i as int]));
                    assert(ms[i as int] == items[i as int].view());
                }
                push_objects(&items[i], acc);
                proof {
                    assert forall|h: u64|
                        #[trigger] acc@.contains(h) == (old(acc)@.contains(h) || some_holds(
                            ms,
                            (i + 1) as nat,
                            h,
                        )) by {
                        assert(before.contains(h) == (old(acc)@.contains(h) || some_holds(
                            ms,
                            i as nat,
                            h,
                        )));
                        assert(some_holds(ms, (i + 1) as nat, h) == (some_holds(ms, i as nat, h)
                            || holds(ms[i as int], h)));
                    }
                }
                i += 1;
            }
        },
        Value::Func(_, _, env) => {
            push_bound_objects(&env.entries, acc);
        },
        Value::FuncBlock(_, _, env) => {
            push_bound_objects(&env.entries, acc);
        },
        _ => {},
    }
}

/// The handles of the objects that the values of the environment hold,
/// each at least once.
pub fn live_objects(env: &Env) -> (r: Vec<u64>)
    ensures
        forall|h: u64| #[trigger] r@.contains(h) == env_holds(env.view(), h),
{
    let mut acc: Vec<u64> = Vec::new();
    proof {
        assert forall|h: u64| !acc@.contains(h) by {
            lemma_seq_empty_contains_nothing(h);
        }
    }
    push_bound_objects(&env.entries, &mut acc);
    acc
}

} // verus!
