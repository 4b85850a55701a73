//! The store, a concurrent hash map of strings, and the engine that runs
//! commands against it.
use vstd::prelude::*;

use crate::command::{Command, CommandModel, Key, Reply, ReplyModel, Value};
use crate::decimal::{i64_text, int_text, parse_failure_text, parse_i64, parsed_i64};

verus! {

/// `scc::HashMap`, as an opaque type; `entries` names what it holds.
#[verifier::external_type_specification]
#[verifier::external_body]
#[verifier::reject_recursive_types(K)]
#[verifier::reject_recursive_types(V)]
#[verifier::reject_recursive_types(H)]
pub struct ExSccHashMap<K, V, H: core::hash::BuildHasher>(scc::HashMap<K, V, H>);

/// The key-value pairs that an `scc::HashMap` of strings holds.
pub uninterp spec fn entries(m: scc::HashMap<String, String>) -> Map<Seq<char>, Seq<char>>;

/// Relies on `scc::HashMap::new`: a map with no entries.
#[verifier::external_body]
fn map_new() -> (r: scc::HashMap<String, String>)
    ensures
        entries(r) =~= Map::empty(),
{
    scc::HashMap::new()
}


/// Relies on `scc::HashMap::read`: `None` for an absent key, else the value
/// stored under it, which the reader clones out.
#[verifier::external_body]
fn map_read(m: &scc::HashMap<String, String>, k: &String) -> (r: Option<String>)
    ensures
        match r {
            Some(v) => entries(*m).contains_key(k@) && entries(*m)[k@] == v@,
            None => !entries(*m).contains_key(k@),
        },
{
    m.read(k, |_, v| v.clone())
}

/// Relies on `scc::HashMap::upsert`: the pair is inserted, replacing the
/// value that was stored under the key, if any.
#[verifier::external_body]
fn map_upsert(m: &mut scc::HashMap<String, String>, k: String, v: String)
    ensures
        entries(*final(m)) == entries(*old(m)).insert(k@, v@),
{
    m.upsert(k, v);
}

/// Relies on `scc::HashMap::update`: `None` and no change for an absent
/// key; otherwise the stored value is handed, under the entry's lock, to
/// `increment_text`, whose result comes back.
#[verifier::external_body]
fn map_update_increment(m: &mut scc::HashMap<String, String>, k: &String) -> (r: Option<
    Result<i64, IncrError>,
>)
    ensures
        match r {
            None => !entries(*old(m)).contains_key(k@) && entries(*final(m)) == entries(*old(m)),
            Some(res) => entries(*old(m)).contains_key(k@) && increment_step(
                entries(*old(m))[k@],
                entries(*final(m))[k@],
                res,
            ) && entries(*final(m)) == entries(*old(m)).insert(k@, entries(*final(m))[k@]),
        },
{
    m.update(k, |_, v| increment_text(v))
}

/// Why an increment failed. The stored value is left as it was.
#[derive(Clone, Debug, PartialEq, Eq)]
pub enum IncrError {
    /// The stored value is not a base-10 `i64`; `reason` says what is wrong
    /// with it.
    NotAnInteger { value: String, reason: String },
    /// The stored value is `i64::MAX`, which has no successor.
    Overflow { value: String },
}

/// The message of a failed increment of a value that already is `i64::MAX`.
pub open spec fn overflow_message() -> Seq<char> {
    "increment would overflow"@
}

/// The integer that an increment stores in place of `before`: `None` when
/// `before` is no `i64`, or is `i64::MAX`.
pub open spec fn incremented(before: Seq<char>) -> Option<i64> {
    match parsed_i64(before) {
        Some(n) => if n < i64::MAX {
            Some((n + 1) as i64)
        } else {
            None
        },
        None => None,
    }
}

/// The message of the error that an increment of `before` fails with.
pub open spec fn increment_failure_text(before: Seq<char>) -> Seq<char> {
    if parsed_i64(before) is Some {
        overflow_message()
    } else {
        parse_failure_text(before)
    }
}

impl IncrError {
    /// Whether `self` is the error that an increment of `before` fails with.
    pub open spec fn describes(&self, before: Seq<char>) -> bool {
        match self {
            IncrError::NotAnInteger { value, reason } => parsed_i64(before) is None && value@
                == before && reason@ == parse_failure_text(before),
            IncrError::Overflow { value } => parsed_i64(before) == Some(i64::MAX) && value@
                == before,
        }
    }

    pub open spec fn message_spec(&self) -> Seq<char> {
        match self {
            IncrError::NotAnInteger { reason, .. } => reason@,
            IncrError::Overflow { .. } => overflow_message(),
        }
    }

    /// A human-readable description of the failure.
    pub fn message(self) -> (r: String)
        ensures
            r@ == self.message_spec(),
    {
        match self {
            IncrError::NotAnInteger { reason, .. } => reason,
            IncrError::Overflow { .. } => "increment would overflow".to_string(),
        }
    }
}

/// One increment of a stored text: `before` becomes `after` and `r` comes
/// back.
pub open spec fn increment_step(before: Seq<char>, after: Seq<char>, r: Result<i64, IncrError>) -> bool {
    match r {
        Ok(n) => incremented(before) == Some(n) && after == int_text(n as int),
        Err(e) => incremented(before) is None && after == before && e.describes(before),
    }
}

/// Replaces a stored integer by its successor, or leaves the text as it is
/// and says why it cannot.
pub fn increment_text(v: &mut String) -> (r: Result<i64, IncrError>)
    ensures
        increment_step(old(v)@, final(v)@, r),
{
    match parse_i64(v.as_str()) {
        Ok(n) => {
            if n < i64::MAX {
                let next: i64 = n + 1;
                *v = i64_text(next);
                Ok(next)
            } else {
                Err(IncrError::Overflow { value: v.clone() })
            }
        },
        Err(reason) => Err(IncrError::NotAnInteger { value: v.clone(), reason }),
    }
}


/// What running command `c` on the store contents `m` gives: the contents
/// afterwards and the reply.
pub open spec fn execute(m: Map<Seq<char>, Seq<char>>, c: CommandModel) -> (Map<
    Seq<char>,
    Seq<char>,
>, ReplyModel) {
    match c {
        CommandModel::Get(k) => (m, if m.contains_key(k) {
            ReplyModel::BulkString(m[k])
        } else {
            ReplyModel::Null
        }),
        CommandModel::SetValue(k, v) => (m.insert(k, v), ReplyModel::Ack),
        CommandModel::Incr(k) => if !m.contains_key(k) {
            (m.insert(k, int_text(1)), ReplyModel::Integer(1))
        } else {
            match incremented(m[k]) {
                Some(n) => (m.insert(k, int_text(n as int)), ReplyModel::Integer(n)),
                None => (m, ReplyModel::Error(increment_failure_text(m[k]))),
            }
        },
        CommandModel::Client => (m, ReplyModel::Ack),
    }
}

/// The store: string keys to string values, in a hash map that locks per
/// bucket rather than as a whole.
pub struct ConcurrentHashMap {
    map: scc::HashMap<String, String>,
}

impl View for ConcurrentHashMap {
    type V = Map<Seq<char>, Seq<char>>;

    closed spec fn view(&self) -> Map<Seq<char>, Seq<char>> {
        entries(self.map)
    }
}

impl ConcurrentHashMap {
    /// An empty store.
    pub fn new() -> (r: Self)
        ensures
            r@ == Map::<Seq<char>, Seq<char>>::empty(),
    {
        ConcurrentHashMap { map: map_new() }
    }

    /// The value stored under `key`, if any.
    pub fn get(&self, key: String) -> (r: Option<String>)
        ensures
            match r {
                Some(v) => self@.contains_key(key@) && self@[key@] == v@,
                None => !self@.contains_key(key@),
            },
    {
        map_read(&self.map, &key)
    }

    /// Stores `value` under `key`, replacing what was there.
    pub fn set(&mut self, key: String, value: String)
        ensures
            final(self)@ == old(self)@.insert(key@, value@),
    {
        map_upsert(&mut self.map, key, value);
    }

    /// Adds one to the integer stored under `key` and returns the sum. An
    /// absent key becomes `"1"`. A value that is no `i64`, or is `i64::MAX`,
    /// is left as it is and the error says why.
    pub fn incr(&mut self, key: String) -> (r: Result<i64, IncrError>)
        ensures
            old(self)@.contains_key(key@) ==> increment_step(old(self)@[key@], final(self)@[key@], r)
                && final(self)@ == old(self)@.insert(key@, final(self)@[key@]),
            !old(self)@.contains_key(key@) ==> r is Ok && r->Ok_0 == 1 && final(self)@ == old(
                self,
            )@.insert(key@, int_text(1)),
    {
        match map_update_increment(&mut self.map, &key) {
            Some(r) => r,
            None => {
                let one = "1".to_string();
                proof {
                    reveal_strlit("1");
                    assert(one@ =~= int_text(1));
                }
                map_upsert(&mut self.map, key, one);
                Ok(1)
            },
        }
    }

    /// Runs one command and gives its reply.
    pub fn call(&mut self, command: Command) -> (r: Reply)
        ensures
            (final(self)@, r@) == execute(old(self)@, command@),
    {
        match command {
            Command::Get { key: Key(k) } => match self.get(k) {
                Some(v) => Reply::BulkString(v),
                None => Reply::Null,
            },
            Command::SetValue { key: Key(k), value: Value(v) } => {
                self.set(k, v);
                Reply::Ack
            },
            Command::Incr { key: Key(k) } => match self.incr(k) {
                Ok(n) => Reply::Integer(n),
                Err(e) => Reply::Error(e.message()),
            },
            Command::Client => Reply::Ack,
        }
    }
}

} // verus!
