//! The decisions of an HTTP request step: its time bound, its redirect
//! limit, what it publishes into the user's variables and what its metric
//! records. The transport itself is driven from outside.
use vstd::prelude::*;

use crate::executor::millis_of;
use crate::executor::secs_to_millis;
use crate::json::{json_int, json_string};
use crate::kv::Command;
use crate::status::FunctionStatus;

verus! {

/// Seconds an HTTP step may take when it does not say.
pub const DEFAULT_TIMEOUT_SECS: u64 = 60;

/// Redirects followed when an HTTP step does not say.
pub const DEFAULT_REDIRECT_LIMIT: u32 = 5;

/// The key of the global metrics array.
pub fn metrics_key() -> (r: String)
    ensures
        r@ == "load_gen_metrics"@,
{
    String::from_str("load_gen_metrics")
}

/// The key under which the global store keeps the metrics output path.
pub fn output_path_key() -> (r: String)
    ensures
        r@ == "metrics_output_path"@,
{
    String::from_str("metrics_output_path")
}

/// The time bound of an HTTP step in milliseconds: its own timeout (60 s
/// when unset), cut to what remains of the user's time.
pub fn effective_timeout_ms(step_timeout_secs: Option<u64>, remaining_ms: Option<u64>) -> (r: u64)
    ensures
        ({
            let own = match step_timeout_secs {
                Some(t) => millis_of(t),
                None => millis_of(DEFAULT_TIMEOUT_SECS),
            };
            r == match remaining_ms {
                Some(t) => if own < t {
                    own
                } else {
                    t as int
                },
                None => own,
            }
        }),
{
    let own = match step_timeout_secs {
        Some(t) => secs_to_millis(t),
        None => secs_to_millis(DEFAULT_TIMEOUT_SECS),
    };
    match remaining_ms {
        Some(t) => if own < t {
            own
        } else {
            t
        },
        None => own,
    }
}

/// The number of redirects to follow.
pub fn redirect_limit(limit: Option<u32>) -> (r: u32)
    ensures
        r == match limit {
            Some(l) => l,
            None => DEFAULT_REDIRECT_LIMIT,
        },
{
    match limit {
        Some(l) => l,
        None => DEFAULT_REDIRECT_LIMIT,
    }
}

/// Whether a status code is in the success range 200 to 299.
pub fn is_success(status: u16) -> (r: bool)
    ensures
        r == (200 <= status <= 299),
{
    200 <= status && status <= 299
}

/// The body a metric keeps: none for a success, the whole body otherwise.
pub fn metric_body(status: u16, body: &String) -> (r: String)
    ensures
        r@ == if 200 <= status <= 299 {
            Seq::<char>::empty()
        } else {
            body@
        },
{
    if is_success(status) {
        String::new()
    } else {
        body.clone()
    }
}

/// What an HTTP step leaves in the user's variables.
#[derive(Debug)]
pub struct Publication {
    /// The response body, or the error message.
    pub response: String,
    /// The status code; 0 when no response came.
    pub status_code: i64,
    /// The response headers as a JSON object text.
    pub headers_json: String,
}

/// What a failed HTTP step publishes: the error message, the status code
/// (0 when no response came) and the headers (`{}` when none came).
pub fn failure_publication(message: String, status_code: Option<i64>, headers_json: Option<
    String,
>) -> (r: Publication)
    ensures
        r.response@ == message@,
        r.status_code == match status_code {
            Some(c) => c,
            None => 0,
        },
        r.headers_json@ == match headers_json {
            Some(h) => h@,
            None => "{}"@,
        },
{
    let status_code = match status_code {
        Some(c) => c,
        None => 0,
    };
    let headers_json = match headers_json {
        Some(h) => h,
        None => String::from_str("{}"),
    };
    Publication { response: message, status_code, headers_json }
}

/// The key that a `Put` command writes; empty for other commands.
pub open spec fn put_key(c: Command) -> Seq<char> {
    match c {
        Command::Put { key, .. } => key@,
        _ => Seq::empty(),
    }
}

/// The value that a `Put` command writes, if it is one.
pub open spec fn put_value(c: Command) -> Option<serde_json::Value> {
    match c {
        Command::Put { value, .. } => Some(value),
        _ => None,
    }
}

/// `commands` write `response`, `status_code` and `headers_json` under
/// `http_response`, `http_status_code` and `http_response_headers`, in that
/// order, and do nothing else.
pub open spec fn publishes(
    commands: Seq<Command>,
    response: Seq<char>,
    status_code: i64,
    headers_json: Seq<char>,
) -> bool {
    &&& commands.len() == 3
    &&& put_key(commands[0]) == "http_response"@
    &&& put_value(commands[0]) == Some(json_string(response))
    &&& put_key(commands[1]) == "http_status_code"@
    &&& put_value(commands[1]) == Some(json_int(status_code))
    &&& put_key(commands[2]) == "http_response_headers"@
    &&& put_value(commands[2]) == Some(json_string(headers_json))
}

/// The local-store commands that publish a step's result: `http_response`,
/// `http_status_code` and `http_response_headers`, in that order.
pub fn publish_commands(p: Publication) -> (r: Vec<Command>)
    ensures
        publishes(r@, p.response@, p.status_code, p.headers_json@),
{
    let mut r: Vec<Command> = Vec::new();
    r.push(
        Command::Put {
            key: String::from_str("http_response"),
            value: serde_json::Value::from(p.response),
        },
    );
    r.push(
        Command::Put {
            key: String::from_str("http_status_code"),
            value: serde_json::Value::from(p.status_code),
        },
    );
    r.push(
        Command::Put {
            key: String::from_str("http_response_headers"),
            value: serde_json::Value::from(p.headers_json),
        },
    );
    r
}

/// The JSON object text that `serde_json` writes for string pairs with
/// distinct names.
pub uninterp spec fn json_object_text(pairs: Seq<(Seq<char>, Seq<char>)>) -> Seq<char>;

/// The content of string pairs.
pub open spec fn pair_views(p: Seq<(String, String)>) -> Seq<(Seq<char>, Seq<char>)> {
    p.map_values(|x: (String, String)| (x.0@, x.1@))
}

/// No name occurs twice.
pub open spec fn distinct_names(p: Seq<(Seq<char>, Seq<char>)>) -> bool {
    forall|i: int, j: int|
        0 <= i < p.len() && 0 <= j < p.len() && i != j ==> #[trigger] p[i].0 != #[trigger] p[j].0
}

/// `p` without the pairs named `k`.
pub open spec fn without_name(p: Seq<(Seq<char>, Seq<char>)>, k: Seq<char>) -> Seq<
    (Seq<char>, Seq<char>),
>
    decreases p.len(),
{
    if p.len() == 0 {
        p
    } else if p.last().0 == k {
        without_name(p.drop_last(), k)
    } else {
        without_name(p.drop_last(), k).push(p.last())
    }
}

/// One pair per name, holding the last value given for it, at the place of
/// that last value.
pub open spec fn last_wins(p: Seq<(Seq<char>, Seq<char>)>) -> Seq<(Seq<char>, Seq<char>)>
    decreases p.len(),
{
    if p.len() == 0 {
        p
    } else {
        without_name(last_wins(p.drop_last()), p.last().0).push(p.last())
    }
}

proof fn lemma_without_name(p: Seq<(Seq<char>, Seq<char>)>, k: Seq<char>)
    requires
        distinct_names(p),
    ensures
        distinct_names(without_name(p, k)),
        forall|i: int|
            0 <= i < without_name(p, k).len() ==> #[trigger] without_name(p, k)[i].0 != k
                && exists|j: int| 0 <= j < p.len() && p[j] == without_name(p, k)[i],
    decreases p.len(),
{
    if p.len() > 0 {
        let rest = p.drop_last();
        assert(distinct_names(rest)) by {
            assert forall|i: int, j: int|
                0 <= i < rest.len() && 0 <= j < rest.len() && i != j implies #[trigger] rest[i].0
                != #[trigger] rest[j].0 by {
                assert(rest[i] == p[i] && rest[j] == p[j]);
            }
        }
        lemma_without_name(rest, k);
        let w = without_name(rest, k);
        assert forall|i: int| 0 <= i < w.len() implies exists|j: int|
            0 <= j < p.len() && p[j] == #[trigger] w[i] by {
            let j = choose|j: int| 0 <= j < rest.len() && rest[j] == w[i];
            assert(p[j] == w[i]);
        }
        if p.last().0 != k {
            let w2 = w.push(p.last());
            assert forall|i: int| 0 <= i < w.len() implies #[trigger] w[i].0 != p.last().0 by {
                let j = choose|j: int| 0 <= j < rest.len() && rest[j] == w[i];
                assert(p[j] == w[i]);
                assert(j != p.len() - 1);
            }
            assert forall|i: int| 0 <= i < w2.len() implies #[trigger] w2[i].0 != k && exists|
                j: int,
            | 0 <= j < p.len() && p[j] == w2[i] by {
                if i == w.len() {
                    assert(p[p.len() - 1] == w2[i]);
                } else {
                    assert(w2[i] == w[i]);
                }
            }
            assert forall|a: int, b: int|
                0 <= a < w2.len() && 0 <= b < w2.len() && a != b implies #[trigger] w2[a].0
                != #[trigger] w2[b].0 by {
                if a < w.len() && b < w.len() {
                    assert(w2[a] == w[a] && w2[b] == w[b]);
                } else if a < w.len() {
                    assert(w2[a] == w[a]);
                } else {
                    assert(w2[b] == w[b]);
                }
            }
        }
    }
}

proof fn lemma_last_wins_distinct(p: Seq<(Seq<char>, Seq<char>)>)
    ensures
        distinct_names(last_wins(p)),
    decreases p.len(),
{
    if p.len() > 0 {
        lemma_last_wins_distinct(p.drop_last());
        let k = p.last().0;
        let w = without_name(last_wins(p.drop_last()), k);
        lemma_without_name(last_wins(p.drop_last()), k);
        let w2 = w.push(p.last());
        assert forall|a: int, b: int|
            0 <= a < w2.len() && 0 <= b < w2.len() && a != b implies #[trigger] w2[a].0
            != #[trigger] w2[b].0 by {
            if a < w.len() && b < w.len() {
                assert(w2[a] == w[a] && w2[b] == w[b]);
            } else if a < w.len() {
                assert(w2[a] == w[a]);
            } else {
                assert(w2[b] == w[b]);
            }
        }
    }
}

/// Relies on `serde_json::to_string` of a `BTreeMap` from names to values:
/// the JSON object text of the pairs. With distinct names the map holds
/// every pair.
#[verifier::external_body]
fn object_text(pairs: &Vec<(String, String)>) -> (r: String)
    requires
        distinct_names(pair_views(pairs@)),
    ensures
        r@ == json_object_text(pair_views(pairs@)),
{
    let map: std::collections::BTreeMap<&str, &str> =
        pairs.iter().map(|(k, v)| (k.as_str(), v.as_str())).collect();
    serde_json::to_string(&map).unwrap_or_default()
}

fn copy_without_name(p: &Vec<(String, String)>, k: &String) -> (r: Vec<(String, String)>)
    ensures
        pair_views(r@) == without_name(pair_views(p@), k@),
{
    let mut r: Vec<(String, String)> = Vec::new();
    let mut i: usize = 0;
    while i < p.len()
        invariant
            i <= p.len(),
            pair_views(r@) == without_name(pair_views(p@).subrange(0, i as int), k@),
        decreases p.len() - i,
    {
        let ghost sub = pair_views(p@).subrange(0, i + 1);
        assert(sub.drop_last() =~= pair_views(p@).subrange(0, i as int));
        if p[i].0 != *k {
            r.push((p[i].0.clone(), p[i].1.clone()));
        }
        assert(pair_views(r@) =~= without_name(sub, k@));
        i = i + 1;
    }
    assert(pair_views(p@).subrange(0, i as int) =~= pair_views(p@));
    r
}

/// The response headers as a JSON object text; where a name repeats, the
/// last value wins.
pub fn headers_json(headers: &Vec<(String, String)>) -> (r: String)
    ensures
        r@ == json_object_text(last_wins(pair_views(headers@))),
{
    let mut out: Vec<(String, String)> = Vec::new();
    let mut i: usize = 0;
    while i < headers.len()
        invariant
            i <= headers.len(),
            pair_views(out@) == last_wins(pair_views(headers@).subrange(0, i as int)),
        decreases headers.len() - i,
    {
        let ghost sub = pair_views(headers@).subrange(0, i + 1);
        assert(sub.drop_last() =~= pair_views(headers@).subrange(0, i as int));
        let mut next = copy_without_name(&out, &headers[i].0);
        next.push((headers[i].0.clone(), headers[i].1.clone()));
        assert(pair_views(next@) =~= last_wins(sub));
        out = next;
        i = i + 1;
    }
    assert(pair_views(headers@).subrange(0, i as int) =~= pair_views(headers@));
    proof {
        lemma_last_wins_distinct(pair_views(headers@));
    }
    object_text(&out)
}

/// How the transport handled an HTTP step.
#[derive(Debug)]
pub enum HttpOutcome {
    /// No response came.
    SendFailed { message: String },
    /// A response came, but its body could not be read.
    ReadFailed { status: u16, headers_json: String, message: String },
    /// A response and its body came.
    Received { status: u16, headers_json: String, body: String },
}

/// What an HTTP step does once the transport is done.
#[derive(Debug)]
pub struct HttpEffects {
    /// The step's status: passed exactly when a body was received.
    pub status: FunctionStatus,
    /// Commands that publish the result into the user's variables.
    pub local: Vec<Command>,
    /// The status code a metric records; 0 when no response came.
    pub metric_status: i64,
    /// The body a metric records: the error message, or the response body
    /// unless the status is a success.
    pub metric_body: String,
}

/// Decides what an HTTP step publishes, records and reports for each way
/// the transport can end.
pub fn http_effects(outcome: HttpOutcome) -> (r: HttpEffects)
    ensures
        (r.status == FunctionStatus::Passed) <==> (outcome is Received),
        match outcome {
            HttpOutcome::SendFailed { message } => {
                &&& publishes(r.local@, message@, 0, "{}"@)
                &&& r.metric_status == 0
                &&& r.metric_body@ == message@
            },
            HttpOutcome::ReadFailed { status, headers_json, message } => {
                &&& publishes(r.local@, message@, status as i64, headers_json@)
                &&& r.metric_status == status
                &&& r.metric_body@ == message@
            },
            HttpOutcome::Received { status, headers_json, body } => publishes(
                r.local@,
                body@,
                status as i64,
                headers_json@,
            ) && r.metric_status == status && r.metric_body@ == if 200 <= status <= 299 {
                Seq::<char>::empty()
            } else {
                body@
            },
        },
{
    match outcome {
        HttpOutcome::SendFailed { message } => {
            let metric_body = message.clone();
            let p = failure_publication(message, None, None);
            HttpEffects {
                status: FunctionStatus::Failed,
                local: publish_commands(p),
                metric_status: 0,
                metric_body,
            }
        },
        HttpOutcome::ReadFailed { status, headers_json, message } => {
            let metric_body = message.clone();
            let p = failure_publication(message, Some(status as i64), Some(headers_json));
            HttpEffects {
                status: FunctionStatus::Failed,
                local: publish_commands(p),
                metric_status: status as i64,
                metric_body,
            }
        },
        HttpOutcome::Received { status, headers_json, body } => {
            let metric_body = metric_body(status, &body);
            let p = Publication { response: body, status_code: status as i64, headers_json };
            HttpEffects {
                status: FunctionStatus::Passed,
                local: publish_commands(p),
                metric_status: status as i64,
                metric_body,
            }
        },
    }
}

/// The global-store command that tells whether metrics are collected.
pub fn collecting_command() -> (r: Command)
    ensures
        r matches Command::Exists { key } && key@ == "load_gen_metrics"@,
{
    Command::Exists { key: metrics_key() }
}

/// The global-store commands of an HTTP step once it is done: one append of
/// its metric when metrics are collected, none otherwise.
pub fn metric_commands(collecting: bool, metric: serde_json::Value) -> (r: Vec<Command>)
    ensures
        collecting ==> r@.len() == 1 && (r@[0] matches Command::Append { key, value } && key@
            == "load_gen_metrics"@ && value == metric),
        !collecting ==> r@.len() == 0,
{
    let mut r: Vec<Command> = Vec::new();
    if collecting {
        r.push(metric_command(metric));
    }
    r
}

/// The global-store command that records one metric.
pub fn metric_command(metric: serde_json::Value) -> (r: Command)
    ensures
        r matches Command::Append { key, value } && key@ == "load_gen_metrics"@ && value == metric,
{
    Command::Append { key: metrics_key(), value: metric }
}

} // verus!
