//! The key-value store behind the global metrics collector and each virtual
//! user's local variables. One owner applies commands to it in arrival
//! order; `KvStore::apply` is the whole state machine.
use vstd::prelude::*;

use crate::json::{copy_json, json_text};

verus! {

/// A stored value: one opaque JSON scalar, or an array of them that
/// `Command::Append` can grow.
#[derive(Debug)]
pub enum KvValue {
    Scalar(serde_json::Value),
    Array(Vec<serde_json::Value>),
}

/// The mathematical content of a `KvValue`.
pub enum KvValueModel {
    Scalar(serde_json::Value),
    Array(Seq<serde_json::Value>),
}

impl View for KvValue {
    type V = KvValueModel;

    open spec fn view(&self) -> KvValueModel {
        match self {
            KvValue::Scalar(v) => KvValueModel::Scalar(*v),
            KvValue::Array(a) => KvValueModel::Array(a@),
        }
    }
}

impl KvValue {
    /// A copy of this value with the same content.
    pub fn duplicate(&self) -> (r: KvValue)
        ensures
            r@ == self@,
    {
        match self {
            KvValue::Scalar(v) => KvValue::Scalar(copy_json(v)),
            KvValue::Array(a) => {
                let mut out: Vec<serde_json::Value> = Vec::new();
                let mut i: usize = 0;
                while i < a.len()
                    invariant
                        i <= a.len(),
                        out@ == a@.subrange(0, i as int),
                    decreases a.len() - i,
                {
                    out.push(copy_json(&a[i]));
                    i = i + 1;
                    assert(out@ =~= a@.subrange(0, i as int));
                }
                assert(out@ =~= a@);
                KvValue::Array(out)
            },
        }
    }
}

/// Errors of reading a value of a required shape from the store.
#[derive(Debug)]
pub enum KvError {
    /// The value under the key does not have the shape that was asked for.
    DeserializeError,
    /// Nothing is stored under the key.
    NoDataFound { key: String },
}

/// The array read back under `key`: an error when nothing is stored there
/// or a scalar is.
pub fn expect_array(key: &String, v: Option<KvValue>) -> (r: Result<Vec<serde_json::Value>, KvError>)
    ensures
        match v {
            None => r matches Err(KvError::NoDataFound { key: k }) && k@ == key@,
            Some(KvValue::Array(a)) => r matches Ok(b) && b@ == a@,
            Some(KvValue::Scalar(_)) => r matches Err(KvError::DeserializeError),
        },
{
    match v {
        None => Err(KvError::NoDataFound { key: key.clone() }),
        Some(KvValue::Array(a)) => Ok(a),
        Some(KvValue::Scalar(_)) => Err(KvError::DeserializeError),
    }
}

/// The text of the JSON string read back under `key`: an error when nothing
/// is stored there or the value is not a JSON string.
pub fn expect_text(key: &String, v: Option<KvValue>) -> (r: Result<String, KvError>)
    ensures
        match v {
            None => r matches Err(KvError::NoDataFound { key: k }) && k@ == key@,
            Some(KvValue::Array(_)) => r matches Err(KvError::DeserializeError),
            Some(KvValue::Scalar(j)) => match r {
                Ok(t) => json_text(j) == Some(t@),
                Err(e) => json_text(j) is None && e is DeserializeError,
            },
        },
{
    match v {
        None => Err(KvError::NoDataFound { key: key.clone() }),
        Some(KvValue::Array(_)) => Err(KvError::DeserializeError),
        Some(KvValue::Scalar(j)) => match j.as_str() {
            Some(text) => Ok(String::from_str(text)),
            None => Err(KvError::DeserializeError),
        },
    }
}

/// A request to the store.
#[derive(Debug)]
pub enum Command {
    /// Look up a key.
    Get { key: String },
    /// Test whether a key is stored.
    Exists { key: String },
    /// Store a scalar, replacing what was there.
    Put { key: String, value: serde_json::Value },
    /// Store an array, replacing what was there.
    PutArray { key: String, values: Vec<serde_json::Value> },
    /// Remove a key.
    Delete { key: String },
    /// Push onto the array under a key; no change for a scalar or a missing key.
    Append { key: String, value: serde_json::Value },
    /// Take a snapshot of the keys.
    ListKeys,
}

/// The answer to a `Command`.
#[derive(Debug)]
pub enum Reply {
    /// For `Get`.
    Value(Option<KvValue>),
    /// For `Exists`.
    Exists(bool),
    /// For `ListKeys`.
    Keys(Vec<String>),
    /// For the commands that change the store.
    Done,
}

/// The store's content after `command` is applied to `m`.
pub open spec fn next_state(m: Map<Seq<char>, KvValueModel>, command: Command) -> Map<
    Seq<char>,
    KvValueModel,
> {
    match command {
        Command::Put { key, value } => m.insert(key@, KvValueModel::Scalar(value)),
        Command::PutArray { key, values } => m.insert(key@, KvValueModel::Array(values@)),
        Command::Delete { key } => m.remove(key@),
        Command::Append { key, value } => match m.get(key@) {
            Some(KvValueModel::Array(a)) => m.insert(key@, KvValueModel::Array(a.push(value))),
            _ => m,
        },
        _ => m,
    }
}

/// The store's content after `commands` are applied to `m` in order.
pub open spec fn apply_all(m: Map<Seq<char>, KvValueModel>, commands: Seq<Command>) -> Map<
    Seq<char>,
    KvValueModel,
>
    decreases commands.len(),
{
    if commands.len() == 0 {
        m
    } else {
        next_state(apply_all(m, commands.drop_last()), commands.last())
    }
}

/// `keys` lists the keys of `m`, each once.
pub open spec fn lists_keys(m: Map<Seq<char>, KvValueModel>, keys: Seq<String>) -> bool {
    &&& forall|k: Seq<char>| #[trigger] m.contains_key(k) <==> exists|i: int|
        0 <= i < keys.len() && keys[i]@ == k
    &&& forall|i: int, j: int|
        0 <= i < keys.len() && 0 <= j < keys.len() && i != j ==> #[trigger] keys[i]@
            != #[trigger] keys[j]@
}

/// `reply` is the answer to `command` on a store whose content is `m`.
pub open spec fn reply_matches(m: Map<Seq<char>, KvValueModel>, command: Command, reply: Reply) -> bool {
    match command {
        Command::Get { key } => match reply {
            Reply::Value(Some(v)) => m.contains_key(key@) && v@ == m[key@],
            Reply::Value(None) => !m.contains_key(key@),
            _ => false,
        },
        Command::Exists { key } => reply == Reply::Exists(m.contains_key(key@)),
        Command::ListKeys => match reply {
            Reply::Keys(keys) => lists_keys(m, keys@),
            _ => false,
        },
        _ => reply == Reply::Done,
    }
}

/// A map from string keys to values, with unique keys.
pub struct KvStore {
    entries: Vec<(String, KvValue)>,
}

impl KvStore {
    pub closed spec fn key_at(&self, i: int, k: Seq<char>) -> bool {
        0 <= i < self.entries@.len() && self.entries@[i].0@ == k
    }

    /// No key is stored twice.
    pub closed spec fn wf(&self) -> bool {
        forall|i: int, j: int|
            0 <= i < self.entries@.len() && 0 <= j < self.entries@.len() && i != j
                ==> #[trigger] self.entries@[i].0@ != #[trigger] self.entries@[j].0@
    }

    /// The store as a map from keys to value contents.
    pub closed spec fn view(&self) -> Map<Seq<char>, KvValueModel> {
        Map::new(
            |k: Seq<char>| exists|i: int| self.key_at(i, k),
            |k: Seq<char>| self.entries@[choose|i: int| self.key_at(i, k)].1@,
        )
    }

    proof fn lemma_view_at(&self, i: int)
        requires
            self.wf(),
            0 <= i < self.entries@.len(),
        ensures
            self@.contains_key(self.entries@[i].0@),
            self@[self.entries@[i].0@] == self.entries@[i].1@,
    {
        let k = self.entries@[i].0@;
        assert(self.key_at(i, k));
        let j = choose|j: int| self.key_at(j, k);
        assert(self.key_at(j, k));
        assert(j == i);
    }

    /// An empty store.
    pub fn new() -> (r: KvStore)
        ensures
            r.wf(),
            r@ == Map::<Seq<char>, KvValueModel>::empty(),
    {
        let r = KvStore { entries: Vec::new() };
        assert(r@ =~= Map::<Seq<char>, KvValueModel>::empty());
        r
    }

    fn find(&self, key: &String) -> (r: Option<usize>)
        requires
            self.wf(),
        ensures
            match r {
                Some(i) => self.key_at(i as int, key@),
                None => !self@.contains_key(key@),
            },
    {
        let mut i: usize = 0;
        while i < self.entries.len()
            invariant
                i <= self.entries@.len(),
                forall|j: int| 0 <= j < i ==> !#[trigger] self.key_at(j, key@),
            decreases self.entries.len() - i,
        {
            if self.entries[i].0 == *key {
                return Some(i);
            }
            i = i + 1;
        }
        None
    }

    /// The value stored under `key`, if any.
    pub fn get(&self, key: &String) -> (r: Option<&KvValue>)
        requires
            self.wf(),
        ensures
            r.is_some() == self@.contains_key(key@),
            r.is_some() ==> r.unwrap()@ == self@[key@],
    {
        match self.find(key) {
            Some(i) => {
                proof {
                    self.lemma_view_at(i as int);
                }
                Some(&self.entries[i].1)
            },
            None => None,
        }
    }

    /// Whether a value is stored under `key`.
    pub fn contains_key(&self, key: &String) -> (r: bool)
        requires
            self.wf(),
        ensures
            r == self@.contains_key(key@),
    {
        self.find(key).is_some()
    }

    /// Stores `value` under `key`, replacing what was there.
    pub fn set(&mut self, key: String, value: KvValue)
        requires
            old(self).wf(),
        ensures
            final(self).wf(),
            final(self)@ == old(self)@.insert(key@, value@),
    {
        let ghost k = key@;
        let ghost v = value@;
        let ghost pre = *self;
        match self.find(&key) {
            Some(i) => {
                self.entries.set(i, (key, value));
                proof {
                    assert(self.entries@ == pre.entries@.update(i as int, self.entries@[i as int]));
                    assert(self.wf()) by {
                        assert forall|a: int, b: int|
                            0 <= a < self.entries@.len() && 0 <= b < self.entries@.len() && a
                                != b implies #[trigger] self.entries@[a].0@
                            != #[trigger] self.entries@[b].0@ by {
                            if a != i && b != i {
                                assert(pre.entries@[a] == self.entries@[a]);
                                assert(pre.entries@[b] == self.entries@[b]);
                            } else if a == i {
                                assert(pre.entries@[b] == self.entries@[b]);
                            } else {
                                assert(pre.entries@[a] == self.entries@[a]);
                            }
                        }
                    }
                    self.lemma_frame_update(pre, i as int);
                }
            },
            None => {
                self.entries.push((key, value));
                proof {
                    let n = pre.entries@.len() as int;
                    assert(self.entries@ == pre.entries@.push(self.entries@[n]));
                    assert forall|a: int| 0 <= a < n implies pre.entries@[a].0@ != k by {
                        if pre.entries@[a].0@ == k {
                            assert(pre.key_at(a, k));
                        }
                    }
                    assert(self.wf()) by {
                        assert forall|a: int, b: int|
                            0 <= a < self.entries@.len() && 0 <= b < self.entries@.len() && a
                                != b implies #[trigger] self.entries@[a].0@
                            != #[trigger] self.entries@[b].0@ by {
                            if a < n && b < n {
                                assert(pre.entries@[a] == self.entries@[a]);
                                assert(pre.entries@[b] == self.entries@[b]);
                            } else if a < n {
                                assert(pre.entries@[a] == self.entries@[a]);
                            } else {
                                assert(pre.entries@[b] == self.entries@[b]);
                            }
                        }
                    }
                    assert forall|x: Seq<char>| #[trigger]
                        self@.contains_key(x) == pre@.insert(k, v).contains_key(x) by {
                        if x != k && self@.contains_key(x) {
                            let j = choose|j: int| self.key_at(j, x);
                            assert(pre.key_at(j, x));
                        }
                        if x != k && pre@.contains_key(x) {
                            let j = choose|j: int| pre.key_at(j, x);
                            assert(self.key_at(j, x));
                        }
                        if x == k {
                            assert(self.key_at(n, x));
                        }
                    }
                    assert forall|x: Seq<char>| #[trigger] self@.contains_key(x) implies self@[x]
                        == pre@.insert(k, v)[x] by {
                        let j = choose|j: int| self.key_at(j, x);
                        assert(self.key_at(j, x));
                        self.lemma_view_at(j);
                        if j < n {
                            assert(pre.entries@[j] == self.entries@[j]);
                            pre.lemma_view_at(j);
                        }
                    }
                    assert(self@ =~= pre@.insert(k, v));
                }
            },
        }
    }

    /// When `self` differs from the well-formed `pre` only at index `i`,
    /// which keeps its key, the view differs only at that key.
    proof fn lemma_frame_update(&self, pre: KvStore, i: int)
        requires
            pre.wf(),
            self.wf(),
            0 <= i < pre.entries@.len(),
            self.entries@ == pre.entries@.update(i, self.entries@[i]),
            self.entries@[i].0@ == pre.entries@[i].0@,
        ensures
            self@ == pre@.insert(self.entries@[i].0@, self.entries@[i].1@),
    {
        let k = self.entries@[i].0@;
        let v = self.entries@[i].1@;
        assert forall|x: Seq<char>| #[trigger]
            self@.contains_key(x) == pre@.insert(k, v).contains_key(x) by {
            if self@.contains_key(x) {
                let j = choose|j: int| self.key_at(j, x);
                assert(pre.key_at(j, x));
            }
            if pre@.contains_key(x) {
                let j = choose|j: int| pre.key_at(j, x);
                assert(self.key_at(j, x));
            }
            if x == k {
                assert(self.key_at(i, x));
            }
        }
        assert forall|x: Seq<char>| #[trigger] self@.contains_key(x) implies self@[x] == pre@.insert(
            k,
            v,
        )[x] by {
            let j = choose|j: int| self.key_at(j, x);
            assert(self.key_at(j, x));
            self.lemma_view_at(j);
            if j != i {
                pre.lemma_view_at(j);
            }
        }
        assert(self@ =~= pre@.insert(k, v));
    }

    /// Removes what is stored under `key`; a missing key is left alone.
    pub fn delete(&mut self, key: &String)
        requires
            old(self).wf(),
        ensures
            final(self).wf(),
            final(self)@ == old(self)@.remove(key@),
    {
        let ghost pre = *self;
        let ghost k = key@;
        match self.find(key) {
            Some(i) => {
                let _ = self.entries.remove(i);
                proof {
                    let ii = i as int;
                    assert(self.entries@ == pre.entries@.remove(ii));
                    assert(self.wf()) by {
                        assert forall|a: int, b: int|
                            0 <= a < self.entries@.len() && 0 <= b < self.entries@.len() && a
                                != b implies #[trigger] self.entries@[a].0@
                            != #[trigger] self.entries@[b].0@ by {
                            let pa = if a < ii { a } else { a + 1 };
                            let pb = if b < ii { b } else { b + 1 };
                            assert(self.entries@[a] == pre.entries@[pa]);
                            assert(self.entries@[b] == pre.entries@[pb]);
                        }
                    }
                    assert forall|x: Seq<char>| #[trigger]
                        self@.contains_key(x) == pre@.remove(k).contains_key(x) by {
                        if self@.contains_key(x) {
                            let j = choose|j: int| self.key_at(j, x);
                            let pj = if j < ii { j } else { j + 1 };
                            assert(self.entries@[j] == pre.entries@[pj]);
                            assert(pre.key_at(pj, x));
                            assert(pj != ii);
                        }
                        if pre@.contains_key(x) && x != k {
                            let j = choose|j: int| pre.key_at(j, x);
                            assert(j != ii);
                            let sj = if j < ii { j } else { j - 1 };
                            assert(self.entries@[sj] == pre.entries@[j]);
                            assert(self.key_at(sj, x));
                        }
                    }
                    assert forall|x: Seq<char>| #[trigger] self@.contains_key(x) implies self@[x]
                        == pre@.remove(k)[x] by {
                        let j = choose|j: int| self.key_at(j, x);
                        assert(self.key_at(j, x));
                        self.lemma_view_at(j);
                        let pj = if j < ii { j } else { j + 1 };
                        assert(self.entries@[j] == pre.entries@[pj]);
                        pre.lemma_view_at(pj);
                    }
                    assert(self@ =~= pre@.remove(k));
                }
            },
            None => {
                assert(self@ =~= pre@.remove(k));
            },
        }
    }

    /// Pushes `value` onto the array stored under `key`. When the key is
    /// missing or holds a scalar, nothing changes.
    pub fn append(&mut self, key: &String, value: serde_json::Value)
        requires
            old(self).wf(),
        ensures
            final(self).wf(),
            final(self)@ == match old(self)@.get(key@) {
                Some(KvValueModel::Array(a)) => old(self)@.insert(
                    key@,
                    KvValueModel::Array(a.push(value)),
                ),
                _ => old(self)@,
            },
    {
        let ghost pre = *self;
        match self.find(key) {
            Some(i) => {
                proof {
                    pre.lemma_view_at(i as int);
                }
                let (k, v) = self.entries.remove(i);
                let v = match v {
                    KvValue::Array(mut a) => {
                        a.push(value);
                        KvValue::Array(a)
                    },
                    other => other,
                };
                self.entries.insert(i, (k, v));
                proof {
                    let ii = i as int;
                    assert(self.entries@ =~= pre.entries@.update(ii, self.entries@[ii]));
                    assert(self.wf()) by {
                        assert forall|a: int, b: int|
                            0 <= a < self.entries@.len() && 0 <= b < self.entries@.len() && a
                                != b implies #[trigger] self.entries@[a].0@
                            != #[trigger] self.entries@[b].0@ by {
                            assert(self.entries@[a].0@ == pre.entries@[a].0@);
                            assert(self.entries@[b].0@ == pre.entries@[b].0@);
                        }
                    }
                    self.lemma_frame_update(pre, ii);
                    match pre.entries@[ii].1@ {
                        KvValueModel::Array(_) => {},
                        _ => {
                            assert(pre@.insert(key@, pre@[key@]) =~= pre@);
                        },
                    }
                }
            },
            None => {},
        }
    }

    /// Removes every entry.
    pub fn clear(&mut self)
        ensures
            final(self).wf(),
            final(self)@ == Map::<Seq<char>, KvValueModel>::empty(),
    {
        self.entries = Vec::new();
        assert(self@ =~= Map::<Seq<char>, KvValueModel>::empty());
    }

    /// The keys currently stored, each once.
    pub fn list_keys(&self) -> (r: Vec<String>)
        requires
            self.wf(),
        ensures
            forall|k: Seq<char>| #[trigger] self@.contains_key(k) <==> exists|i: int|
                0 <= i < r.len() && r@[i]@ == k,
            forall|i: int, j: int|
                0 <= i < r.len() && 0 <= j < r.len() && i != j ==> #[trigger] r@[i]@
                    != #[trigger] r@[j]@,
    {
        let mut r: Vec<String> = Vec::new();
        let mut i: usize = 0;
        while i < self.entries.len()
            invariant
                self.wf(),
                i <= self.entries@.len(),
                r.len() == i,
                forall|j: int| 0 <= j < i ==> #[trigger] r@[j]@ == self.entries@[j].0@,
            decreases self.entries.len() - i,
        {
            r.push(self.entries[i].0.clone());
            i = i + 1;
        }
        assert forall|k: Seq<char>| #[trigger] self@.contains_key(k) <==> exists|j: int|
            0 <= j < r.len() && r@[j]@ == k by {
            if self@.contains_key(k) {
                let j = choose|j: int| self.key_at(j, k);
                assert(r@[j]@ == k);
            }
            if exists|j: int| 0 <= j < r.len() && r@[j]@ == k {
                let j = choose|j: int| 0 <= j < r.len() && r@[j]@ == k;
                assert(self.key_at(j, k));
            }
        }
        r
    }

    /// Applies `commands` in order.
    pub fn apply_each(&mut self, commands: Vec<Command>)
        requires
            old(self).wf(),
        ensures
            final(self).wf(),
            final(self)@ == apply_all(old(self)@, commands@),
    {
        let ghost all = commands@;
        let ghost start = self@;
        let commands_len = commands.len();
        let mut rest = commands;
        let mut done: usize = 0;
        while rest.len() > 0
            invariant
                self.wf(),
                done + rest.len() == all.len(),
                all.len() == commands_len,
                rest@ == all.subrange(done as int, all.len() as int),
                self@ == apply_all(start, all.subrange(0, done as int)),
            decreases rest.len(),
        {
            let c = rest.remove(0);
            proof {
                assert(c == all[done as int]);
                assert(all.subrange(0, done + 1).drop_last() =~= all.subrange(0, done as int));
            }
            let _ = self.apply(c);
            done = done + 1;
            assert(rest@ =~= all.subrange(done as int, all.len() as int));
        }
        assert(all.subrange(0, done as int) =~= all);
    }

    /// Applies one command and produces its reply.
    pub fn apply(&mut self, command: Command) -> (r: Reply)
        requires
            old(self).wf(),
        ensures
            final(self).wf(),
            final(self)@ == next_state(old(self)@, command),
            reply_matches(old(self)@, command, r),
    {
        match command {
            Command::Get { key } => match self.get(&key) {
                Some(v) => Reply::Value(Some(v.duplicate())),
                None => Reply::Value(None),
            },
            Command::Exists { key } => Reply::Exists(self.contains_key(&key)),
            Command::Put { key, value } => {
                self.set(key, KvValue::Scalar(value));
                Reply::Done
            },
            Command::PutArray { key, values } => {
                self.set(key, KvValue::Array(values));
                Reply::Done
            },
            Command::Delete { key } => {
                self.delete(&key);
                Reply::Done
            },
            Command::Append { key, value } => {
                self.append(&key, value);
                Reply::Done
            },
            Command::ListKeys => Reply::Keys(self.list_keys()),
        }
    }
}

} // verus!
