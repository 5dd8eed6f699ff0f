//! Laws of the key-value store over sequences of commands.
use vstd::prelude::*;

use crate::kv::{apply_all, next_state, Command, KvValueModel};

verus! {

/// Whether a command replaces or removes the value under `k`.
pub open spec fn overwrites(c: Command, k: Seq<char>) -> bool {
    match c {
        Command::Put { key, .. } => key@ == k,
        Command::PutArray { key, .. } => key@ == k,
        Command::Delete { key } => key@ == k,
        _ => false,
    }
}

/// Whether a command appends under `k`.
pub open spec fn appends_to(c: Command, k: Seq<char>) -> bool {
    match c {
        Command::Append { key, .. } => key@ == k,
        _ => false,
    }
}

/// The number of commands among `commands` that append under `k`.
pub open spec fn count_appends(commands: Seq<Command>, k: Seq<char>) -> nat
    decreases commands.len(),
{
    if commands.len() == 0 {
        0
    } else {
        count_appends(commands.drop_last(), k) + if appends_to(commands.last(), k) {
            1nat
        } else {
            0nat
        }
    }
}

/// The metrics array grows by exactly one entry per append to it: once it
/// is set to an empty array, and while nothing replaces or removes it, it
/// holds as many metrics as there were appends, so never more than the
/// HTTP steps that ran.
pub proof fn lemma_metric_count(
    m: Map<Seq<char>, KvValueModel>,
    commands: Seq<Command>,
    k: Seq<char>,
)
    requires
        m.contains_key(k),
        m[k] == KvValueModel::Array(Seq::empty()),
        forall|i: int| 0 <= i < commands.len() ==> !overwrites(#[trigger] commands[i], k),
    ensures
        apply_all(m, commands).contains_key(k),
        apply_all(m, commands)[k] matches KvValueModel::Array(a) && a.len() == count_appends(
            commands,
            k,
        ),
    decreases commands.len(),
{
    if commands.len() > 0 {
        let rest = commands.drop_last();
        assert forall|i: int| 0 <= i < rest.len() implies !overwrites(#[trigger] rest[i], k) by {
            assert(rest[i] == commands[i]);
        }
        lemma_metric_count(m, rest, k);
        assert(!overwrites(commands[commands.len() - 1], k));
    }
}

/// What a store holds under `k` is fixed by the last command that wrote it:
/// after a `Put` of `value` under `k`, followed only by commands that do not
/// write `k`, the store holds that value whatever it held before. A virtual
/// user therefore reads back its own last write, however its store began.
pub proof fn lemma_last_write_wins(
    m: Map<Seq<char>, KvValueModel>,
    commands: Seq<Command>,
    i: int,
    k: Seq<char>,
    value: serde_json::Value,
)
    requires
        0 <= i < commands.len(),
        commands[i] matches Command::Put { key, value: v } && key@ == k && v == value,
        forall|j: int|
            i < j < commands.len() ==> !overwrites(#[trigger] commands[j], k) && !appends_to(
                commands[j],
                k,
            ),
    ensures
        apply_all(m, commands).contains_key(k),
        apply_all(m, commands)[k] == KvValueModel::Scalar(value),
    decreases commands.len(),
{
    let rest = commands.drop_last();
    if i < commands.len() - 1 {
        assert forall|j: int| i < j < rest.len() implies !overwrites(#[trigger] rest[j], k)
            && !appends_to(rest[j], k) by {
            assert(rest[j] == commands[j]);
        }
        lemma_last_write_wins(m, rest, i, k, value);
        let last = commands[commands.len() - 1];
        assert(!overwrites(last, k) && !appends_to(last, k));
    }
}

/// The commands of several steps, one after another.
pub open spec fn concat_all(steps: Seq<Seq<Command>>) -> Seq<Command>
    decreases steps.len(),
{
    if steps.len() == 0 {
        Seq::empty()
    } else {
        concat_all(steps.drop_last()) + steps.last()
    }
}

proof fn lemma_count_concat(a: Seq<Command>, b: Seq<Command>, k: Seq<char>)
    ensures
        count_appends(a + b, k) == count_appends(a, k) + count_appends(b, k),
    decreases b.len(),
{
    if b.len() > 0 {
        assert((a + b).drop_last() =~= a + b.drop_last());
        lemma_count_concat(a, b.drop_last(), k);
    } else {
        assert(a + b =~= a);
    }
}

/// The global-store commands of one HTTP step append its metric once when
/// the metrics key is present, and nothing otherwise: asked whether `k` is
/// stored, the step sends `after`, which `http::metric_commands` makes of
/// the answer. Applied to the store, they push the metric onto the metrics
/// array, and change nothing when there is no array.
pub proof fn lemma_http_step_metric(
    m: Map<Seq<char>, KvValueModel>,
    ask: Command,
    after: Seq<Command>,
    metric: serde_json::Value,
    k: Seq<char>,
)
    requires
        ask matches Command::Exists { key } && key@ == k,
        m.contains_key(k) ==> after.len() == 1 && (after[0] matches Command::Append {
            key,
            value,
        } && key@ == k && value == metric),
        !m.contains_key(k) ==> after.len() == 0,
    ensures
        apply_all(m, seq![ask] + after) == match m.get(k) {
            Some(KvValueModel::Array(a)) => m.insert(k, KvValueModel::Array(a.push(metric))),
            _ => m,
        },
        count_appends(seq![ask] + after, k) == if m.contains_key(k) {
            1nat
        } else {
            0nat
        },
        forall|i: int| 0 <= i < (seq![ask] + after).len() ==> !overwrites(#[trigger] (seq![ask] + after)[i], k),
{
    let all = seq![ask] + after;
    let one = seq![ask];
    assert(one.drop_last() =~= Seq::<Command>::empty());
    assert(one.last() == ask);
    assert(count_appends(Seq::<Command>::empty(), k) == 0);
    assert(count_appends(one, k) == 0);
    assert(apply_all(m, Seq::<Command>::empty()) == m);
    assert(apply_all(m, one) == m);
    if m.contains_key(k) {
        assert(all.drop_last() =~= one);
        assert(all.last() == after[0]);
    } else {
        assert(all =~= one);
    }
}

/// The metrics array never holds more metrics than HTTP steps ran, and as
/// many when each of them appended: starting from an empty array, with
/// each step's commands appending to it at most once and none replacing or
/// removing it.
pub proof fn lemma_metrics_bound(
    m: Map<Seq<char>, KvValueModel>,
    steps: Seq<Seq<Command>>,
    k: Seq<char>,
)
    requires
        m.contains_key(k),
        m[k] == KvValueModel::Array(Seq::empty()),
        forall|i: int| 0 <= i < steps.len() ==> count_appends(#[trigger] steps[i], k) <= 1,
        forall|i: int, j: int|
            0 <= i < steps.len() && 0 <= j < steps[i].len() ==> !overwrites(
                #[trigger] steps[i][j],
                k,
            ),
    ensures
        apply_all(m, concat_all(steps))[k] matches KvValueModel::Array(a) && a.len()
            <= steps.len(),
        (forall|i: int| 0 <= i < steps.len() ==> count_appends(#[trigger] steps[i], k) == 1)
            ==> (apply_all(m, concat_all(steps))[k] matches KvValueModel::Array(a) && a.len()
            == steps.len()),
    decreases steps.len(),
{
    lemma_concat_facts(steps, k);
    lemma_metric_count(m, concat_all(steps), k);
}

proof fn lemma_concat_facts(steps: Seq<Seq<Command>>, k: Seq<char>)
    requires
        forall|i: int| 0 <= i < steps.len() ==> count_appends(#[trigger] steps[i], k) <= 1,
        forall|i: int, j: int|
            0 <= i < steps.len() && 0 <= j < steps[i].len() ==> !overwrites(
                #[trigger] steps[i][j],
                k,
            ),
    ensures
        count_appends(concat_all(steps), k) <= steps.len(),
        (forall|i: int| 0 <= i < steps.len() ==> count_appends(#[trigger] steps[i], k) == 1)
            ==> count_appends(concat_all(steps), k) == steps.len(),
        forall|i: int|
            0 <= i < concat_all(steps).len() ==> !overwrites(#[trigger] concat_all(steps)[i], k),
    decreases steps.len(),
{
    if steps.len() > 0 {
        let rest = steps.drop_last();
        assert forall|i: int| 0 <= i < rest.len() implies count_appends(#[trigger] rest[i], k)
            <= 1 by {
            assert(rest[i] == steps[i]);
        }
        assert forall|i: int, j: int| 0 <= i < rest.len() && 0 <= j < rest[i].len() implies !overwrites(
            #[trigger] rest[i][j],
            k,
        ) by {
            assert(rest[i] == steps[i]);
        }
        lemma_concat_facts(rest, k);
        let last = steps.last();
        assert(last == steps[steps.len() - 1]);
        lemma_count_concat(concat_all(rest), last, k);
        if forall|i: int| 0 <= i < steps.len() ==> count_appends(#[trigger] steps[i], k) == 1 {
            assert forall|i: int| 0 <= i < rest.len() implies count_appends(#[trigger] rest[i], k)
                == 1 by {
                assert(rest[i] == steps[i]);
            }
        }
        let all = concat_all(steps);
        let front = concat_all(rest);
        assert forall|i: int| 0 <= i < all.len() implies !overwrites(#[trigger] all[i], k) by {
            if i < front.len() {
                assert(all[i] == front[i]);
            } else {
                assert(all[i] == last[i - front.len()]);
                assert(!overwrites(steps[steps.len() - 1][i - front.len()], k));
            }
        }
    }
}

/// Whether a name appears among the variables `vars`.
pub open spec fn names_hold(vars: Seq<(String, serde_json::Value)>, k: Seq<char>) -> bool {
    exists|i: int| 0 <= i < vars.len() && #[trigger] vars[i].0@ == k
}

/// The variables `vars` as a map; a later entry of a name wins.
pub open spec fn vars_map(vars: Seq<(String, serde_json::Value)>) -> Map<Seq<char>, KvValueModel>
    decreases vars.len(),
{
    if vars.len() == 0 {
        Map::empty()
    } else {
        vars_map(vars.drop_last()).insert(
            vars.last().0@,
            KvValueModel::Scalar(vars.last().1),
        )
    }
}

/// A `Delete` for each of `before` that `after` no longer holds, in order.
pub open spec fn delete_commands(before: Seq<String>, after: Seq<(String, serde_json::Value)>) -> Seq<
    Command,
>
    decreases before.len(),
{
    if before.len() == 0 {
        Seq::empty()
    } else if names_hold(after, before.last()@) {
        delete_commands(before.drop_last(), after)
    } else {
        delete_commands(before.drop_last(), after).push(Command::Delete { key: before.last() })
    }
}

/// A `Put` for each of `after`, in order.
pub open spec fn put_commands(after: Seq<(String, serde_json::Value)>) -> Seq<Command> {
    Seq::new(after.len(), |i: int| Command::Put { key: after[i].0, value: after[i].1 })
}

proof fn lemma_apply_concat(
    m: Map<Seq<char>, KvValueModel>,
    a: Seq<Command>,
    b: Seq<Command>,
)
    ensures
        apply_all(m, a + b) == apply_all(apply_all(m, a), b),
    decreases b.len(),
{
    if b.len() > 0 {
        assert((a + b).drop_last() =~= a + b.drop_last());
        lemma_apply_concat(m, a, b.drop_last());
    } else {
        assert(a + b =~= a);
    }
}

proof fn lemma_vars_map_dom(vars: Seq<(String, serde_json::Value)>, k: Seq<char>)
    ensures
        vars_map(vars).contains_key(k) <==> names_hold(vars, k),
    decreases vars.len(),
{
    if vars.len() > 0 {
        let rest = vars.drop_last();
        lemma_vars_map_dom(rest, k);
        if names_hold(rest, k) {
            let i = choose|i: int| 0 <= i < rest.len() && #[trigger] rest[i].0@ == k;
            assert(vars[i].0@ == k);
        }
        if names_hold(vars, k) && vars.last().0@ != k {
            let i = choose|i: int| 0 <= i < vars.len() && #[trigger] vars[i].0@ == k;
            assert(rest[i].0@ == k);
        }
        if vars.last().0@ == k {
            assert(vars[vars.len() - 1].0@ == k);
        }
    }
}

proof fn lemma_deletes(
    m: Map<Seq<char>, KvValueModel>,
    before: Seq<String>,
    after: Seq<(String, serde_json::Value)>,
)
    ensures
        forall|k: Seq<char>| #[trigger]
            apply_all(m, delete_commands(before, after)).contains_key(k) <==> (m.contains_key(k)
                && !(exists|i: int| 0 <= i < before.len() && before[i]@ == k && !names_hold(after, k))),
        forall|k: Seq<char>| #[trigger]
            apply_all(m, delete_commands(before, after)).contains_key(k) ==> apply_all(
                m,
                delete_commands(before, after),
            )[k] == m[k],
    decreases before.len(),
{
    if before.len() > 0 {
        let rest = before.drop_last();
        lemma_deletes(m, rest, after);
        let d = delete_commands(rest, after);
        let r = apply_all(m, d);
        let last = before.last();
        assert forall|k: Seq<char>| (exists|i: int| 0 <= i < before.len() && before[i]@ == k
            && !names_hold(after, k)) <==> ((exists|i: int|
            0 <= i < rest.len() && rest[i]@ == k && !names_hold(after, k)) || (last@ == k
            && !names_hold(after, k))) by {
            if exists|i: int| 0 <= i < before.len() && before[i]@ == k && !names_hold(after, k) {
                let i = choose|i: int|
                    0 <= i < before.len() && before[i]@ == k && !names_hold(after, k);
                if i < rest.len() {
                    assert(rest[i] == before[i]);
                }
            }
            if exists|i: int| 0 <= i < rest.len() && rest[i]@ == k && !names_hold(after, k) {
                let i = choose|i: int| 0 <= i < rest.len() && rest[i]@ == k && !names_hold(after, k);
                assert(before[i] == rest[i]);
            }
            if last@ == k && !names_hold(after, k) {
                assert(before[before.len() - 1]@ == k);
            }
        }
        if !names_hold(after, last@) {
            let full = d.push(Command::Delete { key: last });
            assert(full.drop_last() =~= d);
            assert(apply_all(m, full) == r.remove(last@));
        }
    }
}

proof fn lemma_puts(m: Map<Seq<char>, KvValueModel>, after: Seq<(String, serde_json::Value)>)
    ensures
        apply_all(m, put_commands(after)) == m.union_prefer_right(vars_map(after)),
    decreases after.len(),
{
    if after.len() > 0 {
        let rest = after.drop_last();
        assert(put_commands(after).drop_last() =~= put_commands(rest));
        lemma_puts(m, rest);
        assert(m.union_prefer_right(vars_map(after)) =~= m.union_prefer_right(
            vars_map(rest),
        ).insert(after.last().0@, KvValueModel::Scalar(after.last().1)));
    } else {
        assert(m.union_prefer_right(vars_map(after)) =~= m);
    }
}

/// After a script step, the variables are exactly what the script returned:
/// deleting the variables it no longer holds and then writing each one it
/// returned, in order, turns a store whose keys were `before` into the
/// returned variables, with a later entry of a name winning.
pub proof fn lemma_script_update(
    m: Map<Seq<char>, KvValueModel>,
    before: Seq<String>,
    after: Seq<(String, serde_json::Value)>,
)
    requires
        forall|k: Seq<char>| #[trigger] m.contains_key(k) <==> exists|i: int|
            0 <= i < before.len() && before[i]@ == k,
    ensures
        apply_all(m, delete_commands(before, after) + put_commands(after)) == vars_map(after),
{
    let d = delete_commands(before, after);
    lemma_apply_concat(m, d, put_commands(after));
    lemma_deletes(m, before, after);
    let m1 = apply_all(m, d);
    lemma_puts(m1, after);
    assert forall|k: Seq<char>| m1.contains_key(k) implies #[trigger] vars_map(after).contains_key(
        k,
    ) by {
        lemma_vars_map_dom(after, k);
        let i = choose|i: int| 0 <= i < before.len() && before[i]@ == k;
    }
    assert(m1.union_prefer_right(vars_map(after)) =~= vars_map(after));
}

} // verus!
