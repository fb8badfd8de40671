//! Lua tables as plain data: an array part holding the keys `1..=n` and a
//! hash part holding every other key, viewed as a map from keys to values.

use vstd::prelude::*;
use crate::error::Error;
use crate::value::{Value, ObjectId, LightUserData};
use crate::string::{LuaString, bytes_equal, string_from_vec};
use std::collections::VecDeque;

verus! {

/// A table key as a mathematical value: what makes two keys the same key.
pub enum Key {
    Boolean(bool),
    LightUserData(usize),
    Integer(i64),
    String(Seq<u8>),
    Table(ObjectId),
    Function(ObjectId),
    Thread(ObjectId),
    UserData(ObjectId),
    Buffer(ObjectId),
}

/// The key that a value stands for; `nil` and error values are not keys.
pub open spec fn key_of(v: Value) -> Option<Key> {
    match v {
        Value::Nil => None,
        Value::Error(_) => None,
        Value::Boolean(b) => Some(Key::Boolean(b)),
        Value::LightUserData(p) => Some(Key::LightUserData(p.0)),
        Value::Integer(i) => Some(Key::Integer(i)),
        Value::String(s) => Some(Key::String(s@)),
        Value::Table(id) => Some(Key::Table(id)),
        Value::Function(id) => Some(Key::Function(id)),
        Value::Thread(id) => Some(Key::Thread(id)),
        Value::UserData(id) => Some(Key::UserData(id)),
        Value::Buffer(id) => Some(Key::Buffer(id)),
    }
}

/// Whether two key values stand for the same key.
pub fn key_equal(a: &Value, b: &Value) -> (r: bool)
    requires
        key_of(*a) is Some,
        key_of(*b) is Some,
    ensures
        r == (key_of(*a) == key_of(*b)),
{
    match (a, b) {
        (Value::Boolean(x), Value::Boolean(y)) => *x == *y,
        (Value::LightUserData(x), Value::LightUserData(y)) => x.0 == y.0,
        (Value::Integer(x), Value::Integer(y)) => *x == *y,
        (Value::String(x), Value::String(y)) => bytes_equal(x.as_bytes(), y.as_bytes()),
        (Value::Table(x), Value::Table(y)) => x.0 == y.0,
        (Value::Function(x), Value::Function(y)) => x.0 == y.0,
        (Value::Thread(x), Value::Thread(y)) => x.0 == y.0,
        (Value::UserData(x), Value::UserData(y)) => x.0 == y.0,
        (Value::Buffer(x), Value::Buffer(y)) => x.0 == y.0,
        _ => false,
    }
}

/// The error raised by a write to a readonly table.
pub open spec fn spec_readonly_error(e: Error) -> bool {
    e matches Error::RuntimeError(m) && m@ == "attempt to modify a readonly table"@
}

/// The value that the hash entries hold under `k`, when some entry has it.
pub open spec fn spec_hash_get(h: Seq<(Value, Value)>, k: Key) -> Option<Value> {
    if exists|i: int| 0 <= i < h.len() && key_of(#[trigger] h[i].0) == Some(k) {
        Some(h[choose|i: int| 0 <= i < h.len() && key_of(#[trigger] h[i].0) == Some(k)].1)
    } else {
        None
    }
}

/// No two hash entries have the same key.
pub open spec fn spec_distinct_keys(h: Seq<(Value, Value)>) -> bool {
    forall|i: int, j: int|
        0 <= i < h.len() && 0 <= j < h.len() && i != j ==> key_of(#[trigger] h[i].0) != key_of(
            #[trigger] h[j].0,
        )
}

/// With distinct keys, an entry holding `k` is the value under `k`.
pub proof fn lemma_hash_get_at(h: Seq<(Value, Value)>, k: Key, i: int)
    requires
        spec_distinct_keys(h),
        0 <= i < h.len(),
        key_of(h[i].0) == Some(k),
    ensures
        spec_hash_get(h, k) == Some(h[i].1),
{
    let j = choose|j: int| 0 <= j < h.len() && key_of(#[trigger] h[j].0) == Some(k);
    assert(key_of(h[j].0) == Some(k));
}

/// Removing an entry keeps the keys distinct and removes exactly its key.
pub proof fn lemma_hash_remove(h: Seq<(Value, Value)>, i: int, k: Key)
    requires
        spec_distinct_keys(h),
        0 <= i < h.len(),
    ensures
        spec_distinct_keys(h.remove(i)),
        spec_hash_get(h.remove(i), k) == if key_of(h[i].0) == Some(k) {
            None
        } else {
            spec_hash_get(h, k)
        },
{
    let h2 = h.remove(i);
    assert forall|a: int, b: int|
        0 <= a < h2.len() && 0 <= b < h2.len() && a != b implies key_of(#[trigger] h2[a].0) != key_of(
            #[trigger] h2[b].0,
        ) by {
        let a1 = if a < i { a } else { a + 1 };
        let b1 = if b < i { b } else { b + 1 };
        assert(h2[a] == h[a1]);
        assert(h2[b] == h[b1]);
    }
    if key_of(h[i].0) == Some(k) {
        assert forall|j: int| 0 <= j < h2.len() implies key_of(#[trigger] h2[j].0) != Some(k) by {
            let j1 = if j < i { j } else { j + 1 };
            assert(h2[j] == h[j1]);
        }
    } else {
        if exists|j: int| 0 <= j < h.len() && key_of(#[trigger] h[j].0) == Some(k) {
            let j = choose|j: int| 0 <= j < h.len() && key_of(#[trigger] h[j].0) == Some(k);
            lemma_hash_get_at(h, k, j);
            let j2 = if j < i { j } else { j - 1 };
            assert(h2[j2] == h[j]);
            lemma_hash_get_at(h2, k, j2);
        } else {
            assert forall|j: int| 0 <= j < h2.len() implies key_of(#[trigger] h2[j].0) != Some(k) by {
                let j1 = if j < i { j } else { j + 1 };
                assert(h2[j] == h[j1]);
            }
        }
    }
}

/// Replacing the value of an entry keeps the keys and changes only that value.
pub proof fn lemma_hash_update(h: Seq<(Value, Value)>, i: int, e: (Value, Value), k: Key)
    requires
        spec_distinct_keys(h),
        0 <= i < h.len(),
        key_of(e.0) == key_of(h[i].0),
    ensures
        spec_distinct_keys(h.update(i, e)),
        spec_hash_get(h.update(i, e), k) == if key_of(h[i].0) == Some(k) {
            Some(e.1)
        } else {
            spec_hash_get(h, k)
        },
{
    let h2 = h.update(i, e);
    assert forall|a: int, b: int|
        0 <= a < h2.len() && 0 <= b < h2.len() && a != b implies key_of(#[trigger] h2[a].0) != key_of(
            #[trigger] h2[b].0,
        ) by {
        assert(key_of(h2[a].0) == key_of(h[a].0));
        assert(key_of(h2[b].0) == key_of(h[b].0));
    }
    if key_of(h[i].0) == Some(k) {
        lemma_hash_get_at(h2, k, i);
    } else {
        if exists|j: int| 0 <= j < h.len() && key_of(#[trigger] h[j].0) == Some(k) {
            let j = choose|j: int| 0 <= j < h.len() && key_of(#[trigger] h[j].0) == Some(k);
            lemma_hash_get_at(h, k, j);
            lemma_hash_get_at(h2, k, j);
        } else {
            assert forall|j: int| 0 <= j < h2.len() implies key_of(#[trigger] h2[j].0) != Some(k) by {
                assert(key_of(h2[j].0) == key_of(h[j].0));
            }
        }
    }
}

/// Appending an entry with a new key keeps the keys distinct and adds that key.
pub proof fn lemma_hash_push(h: Seq<(Value, Value)>, e: (Value, Value), k: Key)
    requires
        spec_distinct_keys(h),
        key_of(e.0) is Some,
        spec_hash_get(h, key_of(e.0)->Some_0) is None,
    ensures
        spec_distinct_keys(h.push(e)),
        spec_hash_get(h.push(e), k) == if key_of(e.0) == Some(k) {
            Some(e.1)
        } else {
            spec_hash_get(h, k)
        },
{
    let h2 = h.push(e);
    let n = h.len() as int;
    assert forall|j: int| 0 <= j < h.len() implies key_of(#[trigger] h[j].0) != key_of(e.0) by {
        if key_of(h[j].0) == key_of(e.0) {
            lemma_hash_get_at(h, key_of(e.0)->Some_0, j);
        }
    }
    assert forall|a: int, b: int|
        0 <= a < h2.len() && 0 <= b < h2.len() && a != b implies key_of(#[trigger] h2[a].0) != key_of(
            #[trigger] h2[b].0,
        ) by {
        if a < n {
            assert(h2[a] == h[a]);
        }
        if b < n {
            assert(h2[b] == h[b]);
        }
    }
    if key_of(e.0) == Some(k) {
        lemma_hash_get_at(h2, k, n);
    } else {
        if exists|j: int| 0 <= j < h.len() && key_of(#[trigger] h[j].0) == Some(k) {
            let j = choose|j: int| 0 <= j < h.len() && key_of(#[trigger] h[j].0) == Some(k);
            lemma_hash_get_at(h, k, j);
            assert(h2[j] == h[j]);
            lemma_hash_get_at(h2, k, j);
        } else {
            assert forall|j: int| 0 <= j < h2.len() implies key_of(#[trigger] h2[j].0) != Some(k) by {
                if j < n {
                    assert(h2[j] == h[j]);
                }
            }
        }
    }
}

/// A Lua table.
#[derive(Debug)]
pub struct Table {
    pub(crate) id: ObjectId,
    pub(crate) array: Vec<Value>,
    pub(crate) hash: Vec<(Value, Value)>,
    pub(crate) readonly: bool,
    pub(crate) metatable: Option<ObjectId>,
}

impl Table {
    /// The well-formedness of a table: the array part holds no `nil`, the
    /// hash part holds valid distinct keys with non-`nil` values and none of
    /// the keys `1..=n+1` (so that `n`, the array length, is a border).
    pub closed spec fn wf(&self) -> bool {
        &&& self.array@.len() + self.hash@.len() < i64::MAX
        &&& forall|i: int| 0 <= i < self.array@.len() ==> !(#[trigger] self.array@[i] is Nil)
        &&& spec_distinct_keys(self.hash@)
        &&& forall|i: int| 0 <= i < self.hash@.len() ==> (#[trigger] key_of(self.hash@[i].0)) is Some
        &&& forall|i: int| 0 <= i < self.hash@.len() ==> !(#[trigger] self.hash@[i].1 is Nil)
        &&& forall|i: int| 0 <= i < self.hash@.len() ==> !(#[trigger] self.hash@[i].0 matches Value::Integer(
            j,
        ) && 1 <= j <= self.array@.len() + 1)
    }

    /// The value stored under `k`, if any.
    pub closed spec fn spec_get(&self, k: Key) -> Option<Value> {
        match k {
            Key::Integer(i) => if 1 <= i <= self.array@.len() {
                Some(self.array@[i - 1])
            } else {
                spec_hash_get(self.hash@, k)
            },
            _ => spec_hash_get(self.hash@, k),
        }
    }

    /// The length that `#` reports without metamethods: a border of the table.
    pub closed spec fn spec_raw_len(&self) -> nat {
        self.array@.len()
    }

    /// The number of entries the table holds.
    pub closed spec fn spec_size(&self) -> nat {
        self.array@.len() + self.hash@.len()
    }

    /// The identity of the table.
    pub closed spec fn spec_id(&self) -> ObjectId {
        self.id
    }

    /// Whether the table is readonly.
    pub closed spec fn spec_readonly(&self) -> bool {
        self.readonly
    }

    /// The table's metatable, by identity.
    pub closed spec fn spec_metatable(&self) -> Option<ObjectId> {
        self.metatable
    }
}

impl View for Table {
    type V = Map<Key, Value>;

    open spec fn view(&self) -> Map<Key, Value> {
        Map::new(|k: Key| self.spec_get(k) is Some, |k: Key| self.spec_get(k)->Some_0)
    }
}

/// The map after writing `v` under `k`: writing `nil` removes the key.
pub open spec fn spec_after_set(m: Map<Key, Value>, k: Key, v: Value) -> Map<Key, Value> {
    if v is Nil {
        m.remove(k)
    } else {
        m.insert(k, v)
    }
}

/// The value under `q` after writing `v` under `k`.
pub open spec fn spec_get_after_set(old: Option<Value>, q: Key, k: Key, v: Value) -> Option<Value> {
    if q == k {
        if v is Nil { None } else { Some(v) }
    } else {
        old
    }
}

/// The error of `raw_insert` at a position outside `1..=n+1`.
pub open spec fn spec_insert_bounds_error(e: Error, idx: i64) -> bool {
    e matches Error::RuntimeError(m) && m@ == "bad argument #2 to 'insert' (position out of bounds): "@
        + crate::error::spec_decimal(idx as int)
}

/// The error of `raw_remove` at a position outside `1..=n`.
pub open spec fn spec_remove_bounds_error(e: Error, idx: i64) -> bool {
    e matches Error::RuntimeError(m) && m@ == "bad argument #1 to 'remove' (position out of bounds): "@
        + crate::error::spec_decimal(idx as int)
}

/// The entry under `q` after inserting `v` at `idx` of a sequence of length
/// `n`: the keys `idx+1..=n+1` hold what `idx..=n` held, `idx` holds `v`.
pub open spec fn spec_inserted_at(m: Map<Key, Value>, n: int, idx: int, v: Value, q: Key) -> Option<Value> {
    if q matches Key::Integer(j) && idx + 1 <= j <= n + 1 {
        m.get(Key::Integer((q->Integer_0 - 1) as i64))
    } else if q == Key::Integer(idx as i64) {
        if v is Nil { None } else { Some(v) }
    } else {
        m.get(q)
    }
}

/// The map after inserting `v` at `idx` of a sequence of length `n`.
pub open spec fn spec_inserted(m: Map<Key, Value>, n: int, idx: int, v: Value) -> Map<Key, Value> {
    Map::new(|q: Key| spec_inserted_at(m, n, idx, v, q) is Some, |q: Key| spec_inserted_at(m, n, idx, v, q)->Some_0)
}

/// The entry under `q` after removing position `idx` of a sequence of
/// length `n`: the keys `idx..n-1` hold what `idx+1..=n` held, `n` is gone.
pub open spec fn spec_removed_at(m: Map<Key, Value>, n: int, idx: int, q: Key) -> Option<Value> {
    if q matches Key::Integer(j) && idx <= j <= n - 1 {
        m.get(Key::Integer((q->Integer_0 + 1) as i64))
    } else if q == Key::Integer(n as i64) {
        None
    } else {
        m.get(q)
    }
}

/// The map after removing position `idx` of a sequence of length `n`.
pub open spec fn spec_removed(m: Map<Key, Value>, n: int, idx: int) -> Map<Key, Value> {
    Map::new(|q: Key| spec_removed_at(m, n, idx, q) is Some, |q: Key| spec_removed_at(m, n, idx, q)->Some_0)
}

/// The entry of a table under `q` after an insertion, in terms of its entries.
closed spec fn spec_inserted_get(t: Table, n: int, idx: int, v: Value, q: Key) -> Option<Value> {
    if q matches Key::Integer(j) && idx + 1 <= j <= n + 1 {
        t.spec_get(Key::Integer((q->Integer_0 - 1) as i64))
    } else if q == Key::Integer(idx as i64) {
        if v is Nil { None } else { Some(v) }
    } else {
        t.spec_get(q)
    }
}

/// The entry of a table under `q` after a removal, in terms of its entries.
closed spec fn spec_removed_get(t: Table, n: int, idx: int, q: Key) -> Option<Value> {
    if q matches Key::Integer(j) && idx <= j <= n - 1 {
        t.spec_get(Key::Integer((q->Integer_0 + 1) as i64))
    } else if q == Key::Integer(n as i64) {
        None
    } else {
        t.spec_get(q)
    }
}

/// Entry-wise insertion gives the inserted map.
proof fn lemma_inserted_view(before: Table, after: Table, n: int, idx: int, v: Value)
    requires
        forall|q: Key| #[trigger] after.spec_get(q) == spec_inserted_get(before, n, idx, v, q),
    ensures
        after@ == spec_inserted(before@, n, idx, v),
{
    assert forall|q: Key| #[trigger] spec_inserted_at(before@, n, idx, v, q) == spec_inserted_get(before, n, idx, v, q) by {
        if q matches Key::Integer(j) && idx + 1 <= j <= n + 1 {
            let p = Key::Integer((q->Integer_0 - 1) as i64);
            assert(before@.get(p) == before.spec_get(p));
        } else {
            assert(before@.get(q) == before.spec_get(q));
        }
    }
    assert(after@ =~= spec_inserted(before@, n, idx, v)) by {
        assert forall|q: Key| #[trigger] after@.contains_key(q) == spec_inserted(before@, n, idx, v).contains_key(q) by {
            assert(after.spec_get(q) == spec_inserted_at(before@, n, idx, v, q));
        }
        assert forall|q: Key| after@.contains_key(q) implies #[trigger] after@[q] == spec_inserted(before@, n, idx, v)[q] by {
            assert(after.spec_get(q) == spec_inserted_at(before@, n, idx, v, q));
        }
    }
}

/// Entry-wise removal gives the removed map.
proof fn lemma_removed_view(before: Table, after: Table, n: int, idx: int)
    requires
        forall|q: Key| #[trigger] after.spec_get(q) == spec_removed_get(before, n, idx, q),
    ensures
        after@ == spec_removed(before@, n, idx),
{
    assert forall|q: Key| #[trigger] spec_removed_at(before@, n, idx, q) == spec_removed_get(before, n, idx, q) by {
        if q matches Key::Integer(j) && idx <= j <= n - 1 {
            let p = Key::Integer((q->Integer_0 + 1) as i64);
            assert(before@.get(p) == before.spec_get(p));
        } else {
            assert(before@.get(q) == before.spec_get(q));
        }
    }
    assert(after@ =~= spec_removed(before@, n, idx)) by {
        assert forall|q: Key| #[trigger] after@.contains_key(q) == spec_removed(before@, n, idx).contains_key(q) by {
            assert(after.spec_get(q) == spec_removed_at(before@, n, idx, q));
        }
        assert forall|q: Key| after@.contains_key(q) implies #[trigger] after@[q] == spec_removed(before@, n, idx)[q] by {
            assert(after.spec_get(q) == spec_removed_at(before@, n, idx, q));
        }
    }
}

/// The raw length is a border: the keys `1..=n` are present and `n + 1` is not.
pub proof fn lemma_raw_len_is_border(t: &Table)
    requires
        t.wf(),
    ensures
        forall|i: i64| 1 <= i <= t.spec_raw_len() ==> #[trigger] t@.contains_key(Key::Integer(i)),
        !t@.contains_key(Key::Integer((t.spec_raw_len() + 1) as i64)),
{
    let n = t.array@.len();
    if spec_hash_get(t.hash@, Key::Integer((n + 1) as i64)) is Some {
        let i = choose|i: int| 0 <= i < t.hash@.len() && key_of(#[trigger] t.hash@[i].0) == Some(Key::Integer((n + 1) as i64));
        assert(key_of(t.hash@[i].0) == Some(Key::Integer((n + 1) as i64)));
    }
}

/// A table holds no `nil` value.
pub proof fn lemma_values_not_nil(t: &Table, k: Key)
    requires
        t.wf(),
        t@.contains_key(k),
    ensures
        !(t@[k] is Nil),
{
    if !(k matches Key::Integer(i) && 1 <= i <= t.array@.len()) {
        let j = choose|j: int| 0 <= j < t.hash@.len() && key_of(#[trigger] t.hash@[j].0) == Some(k);
        lemma_hash_get_at(t.hash@, k, j);
    }
}

/// The items of a vector as a queue, in the same order.
pub(crate) fn into_queue<T>(items: Vec<T>) -> (r: VecDeque<T>)
    ensures
        r@ == items@,
{
    let mut items = items;
    let ghost all = items@;
    let mut out: VecDeque<T> = VecDeque::new();
    while items.len() > 0
        invariant
            all == items@ + out@,
        decreases items.len(),
    {
        let ghost before = items@;
        match items.pop() {
            Some(x) => {
                out.push_front(x);
                assert(before == items@.push(x));
                assert(all =~= items@ + out@);
            },
            None => {},
        }
    }
    assert(all =~= out@);
    out
}

/// `s` lists the entries of the table: each key once, with its value.
pub open spec fn spec_entries_of(t: Table, s: Seq<(Value, Value)>) -> bool {
    &&& s.len() == t.spec_size()
    &&& forall|i: int| 0 <= i < s.len() ==> (key_of(#[trigger] s[i].0) matches Some(k) && t@.contains_key(k)
        && crate::value::spec_same_value(s[i].1, t@[k]))
    &&& forall|k: Key| #[trigger] t@.contains_key(k) ==> exists|i: int| 0 <= i < s.len() && key_of(#[trigger] s[i].0) == Some(k)
    &&& spec_distinct_keys(s)
}

/// Some state of the closure type `F` returns `out` for the value `v`.
pub open spec fn spec_value_call<F: FnMut(Value) -> Result<(), Error>>(v: Value, out: Result<(), Error>) -> bool {
    exists|g: F, o: Result<(), Error>| call_ensures(g, (v,), o) && (o is Ok ==> out is Ok) && (o matches Err(x) ==> out
        == Err::<(), Error>(x))
}

/// Some state of the closure type `F` returns `out` for the entry `(k, v)`.
pub open spec fn spec_entry_call<F: FnMut(Value, Value) -> Result<(), Error>>(k: Value, v: Value, out: Result<(), Error>) -> bool {
    exists|g: F, o: Result<(), Error>| call_ensures(g, (k, v), o) && (o is Ok ==> out is Ok) && (o matches Err(x) ==> out
        == Err::<(), Error>(x))
}

/// Calling the closure on `vals` in order, stopping at the first error,
/// ends with `r`: every call succeeded and `r` is `Ok`, or `r` is the error
/// of a call after which no call was made and before which all succeeded.
pub open spec fn spec_value_run<F: FnMut(Value) -> Result<(), Error>>(vals: Seq<Value>, r: Result<(), Error>) -> bool {
    match r {
        Ok(_) => forall|i: int| 0 <= i < vals.len() ==> spec_value_call::<F>(#[trigger] vals[i], Ok(())),
        Err(e) => exists|i: int| 0 <= i < vals.len() && spec_value_call::<F>(#[trigger] vals[i], Err(e)) && forall|j: int|
            0 <= j < i ==> spec_value_call::<F>(#[trigger] vals[j], Ok(())),
    }
}

/// Calling the closure on the entries in order, stopping at the first
/// error, ends with `r` (as in [`spec_value_run`]).
pub open spec fn spec_entry_run<F: FnMut(Value, Value) -> Result<(), Error>>(s: Seq<(Value, Value)>, r: Result<(), Error>) -> bool {
    match r {
        Ok(_) => forall|i: int| 0 <= i < s.len() ==> spec_entry_call::<F>((#[trigger] s[i]).0, s[i].1, Ok(())),
        Err(e) => exists|i: int| 0 <= i < s.len() && spec_entry_call::<F>((#[trigger] s[i]).0, s[i].1, Err(e)) && forall|j: int|
            0 <= j < i ==> spec_entry_call::<F>((#[trigger] s[j]).0, s[j].1, Ok(())),
    }
}

/// How many tables a read through `__index` visits at most before the VM
/// gives up.
pub const MAX_INDEX_CHAIN: u64 = 100;

/// The bytes of the name `__index`.
pub open spec fn spec_index_key() -> Seq<u8> {
    seq![95u8, 95u8, 105u8, 110u8, 100u8, 101u8, 120u8]
}

/// The bytes of the name `__index`.
fn index_name() -> (r: Vec<u8>)
    ensures
        r@ == spec_index_key(),
{
    let mut v: Vec<u8> = Vec::new();
    v.push(95u8);
    v.push(95u8);
    v.push(105u8);
    v.push(110u8);
    v.push(100u8);
    v.push(101u8);
    v.push(120u8);
    v
}

/// A copy of a byte vector.
fn copy_name(v: &Vec<u8>) -> (r: Vec<u8>)
    ensures
        r@ == v@,
{
    crate::string::copy_bytes(v.as_slice())
}

/// The error of a read whose `__index` chain is too long.
pub open spec fn spec_chain_too_long_error(e: Error) -> bool {
    e matches Error::RuntimeError(m) && m@ == "'__index' chain too long; possible loop"@
}

/// The tables held: each well formed, no two with the same identity.
pub open spec fn spec_heap_wf(tables: Seq<Table>) -> bool {
    &&& forall|i: int| 0 <= i < tables.len() ==> (#[trigger] tables[i]).wf()
    &&& forall|i: int, j: int| 0 <= i < tables.len() && 0 <= j < tables.len() && i != j ==> (#[trigger] tables[i]).spec_id()
        != (#[trigger] tables[j]).spec_id()
}

/// The table held with identity `id`, if any.
pub open spec fn spec_find_table(tables: Seq<Table>, id: ObjectId) -> Option<Table> {
    if exists|i: int| 0 <= i < tables.len() && (#[trigger] tables[i]).spec_id() == id {
        Some(tables[choose|i: int| 0 <= i < tables.len() && (#[trigger] tables[i]).spec_id() == id])
    } else {
        None
    }
}

/// Where a read through `__index` tables ends.
pub enum IndexStep {
    /// The value read (`nil` when there is none).
    Found(Value),
    /// The VM must read the key from this value.
    Vm(Value),
    /// The chain of `__index` tables is too long.
    TooLong,
}

/// Where a read of `k` from `t` ends: the entry held, else (with a
/// metatable held in `tables`) its `__index`: none gives `nil`, a table held
/// is read in turn while `fuel` lasts; a function, a table not held, a
/// metatable not held or another value leaves the read to the VM.
pub open spec fn spec_index_chain(tables: Seq<Table>, t: Table, k: Option<Key>, fuel: nat) -> IndexStep
    decreases fuel,
{
    if k is Some && t@.contains_key(k->Some_0) {
        IndexStep::Found(t@[k->Some_0])
    } else {
        match t.spec_metatable() {
            None => IndexStep::Found(Value::Nil),
            Some(mid) => match spec_find_table(tables, mid) {
                None => IndexStep::Vm(Value::Table(t.spec_id())),
                Some(mt) => match mt@.get(Key::String(spec_index_key())) {
                    None => IndexStep::Found(Value::Nil),
                    Some(Value::Table(hid)) => match spec_find_table(tables, hid) {
                        None => IndexStep::Vm(Value::Table(hid)),
                        Some(h) => if fuel == 0 {
                            IndexStep::TooLong
                        } else {
                            spec_index_chain(tables, h, k, (fuel - 1) as nat)
                        },
                    },
                    Some(Value::Function(_)) => IndexStep::Vm(Value::Table(t.spec_id())),
                    Some(other) => IndexStep::Vm(other),
                },
            },
        }
    }
}

/// Where reading through `__index` tables ended, with the values read.
#[derive(Debug)]
pub enum IndexOutcome {
    /// The value read (`nil` when there is none).
    Found(Value),
    /// The VM must read the key from this value.
    Vm(Value),
    /// The chain of `__index` tables is too long.
    TooLong,
}

/// `r` is what reading `t[key]` as the VM does can give (see
/// [`spec_index_chain`]): the value found (`nil` when there is none), what
/// `vm_get` gave where the VM acts, or the chain-too-long error.
pub open spec fn spec_get_result<F: Fn(Value, Value) -> Result<Value, Error>>(
    tables: Seq<Table>,
    t: Table,
    key: Value,
    vm_get: F,
    r: Result<Value, Error>,
) -> bool {
    match spec_index_chain(tables, t, key_of(key), (MAX_INDEX_CHAIN - 1) as nat) {
        IndexStep::Found(v) => r matches Ok(x) && crate::value::spec_same_value(x, v),
        IndexStep::Vm(recv) => exists|recv2: Value, key2: Value| {
            &&& crate::value::spec_same_value(recv2, recv)
            &&& crate::value::spec_same_value(key2, key)
            &&& call_ensures(vm_get, (recv2, key2), r)
        },
        IndexStep::TooLong => r matches Err(e) && spec_chain_too_long_error(e),
    }
}

/// The position of the table with identity `id` among `tables`.
fn find_table(tables: &Vec<Table>, id: ObjectId) -> (r: Option<usize>)
    requires
        spec_heap_wf(tables@),
    ensures
        r matches Some(i) ==> i < tables@.len() && spec_find_table(tables@, id) == Some(tables@[i as int]),
        r is None ==> spec_find_table(tables@, id) is None,
{
    let mut i: usize = 0;
    while i < tables.len()
        invariant
            i <= tables@.len(),
            spec_heap_wf(tables@),
            forall|j: int| 0 <= j < i ==> (#[trigger] tables@[j]).spec_id() != id,
        decreases tables.len() - i,
    {
        if tables[i].to_pointer().0 == id.0 {
            proof {
                assert(tables@[i as int].spec_id() == id);
                let c = choose|c: int| 0 <= c < tables@.len() && (#[trigger] tables@[c]).spec_id() == id;
                if c != i {
                    assert(tables@[c].spec_id() != tables@[i as int].spec_id());
                }
            }
            return Some(i);
        }
        i += 1;
    }
    None
}

impl Table {
    /// An empty, writable table without a metatable.
    pub fn empty(id: ObjectId) -> (r: Table)
        ensures
            r.wf(),
            r@ == Map::<Key, Value>::empty(),
            r.spec_id() == id,
            !r.spec_readonly(),
            r.spec_metatable() is None,
            r.spec_raw_len() == 0,
            r.spec_size() == 0,
    {
        let t = Table { id, array: Vec::new(), hash: Vec::new(), readonly: false, metatable: None };
        assert(t@ =~= Map::<Key, Value>::empty());
        t
    }

    /// Finds the hash entry holding the key `key`.
    fn hash_find(&self, key: &Value) -> (r: Option<usize>)
        requires
            spec_distinct_keys(self.hash@),
            forall|i: int| 0 <= i < self.hash@.len() ==> (#[trigger] key_of(self.hash@[i].0)) is Some,
            key_of(*key) is Some,
        ensures
            r matches Some(i) ==> i < self.hash@.len() && key_of(self.hash@[i as int].0) == key_of(*key),
            r is None ==> spec_hash_get(self.hash@, key_of(*key)->Some_0) is None,
    {
        let mut i: usize = 0;
        while i < self.hash.len()
            invariant
                spec_distinct_keys(self.hash@),
                forall|i: int| 0 <= i < self.hash@.len() ==> (#[trigger] key_of(self.hash@[i].0)) is Some,
                key_of(*key) is Some,
                i <= self.hash@.len(),
                forall|j: int| 0 <= j < i ==> key_of(#[trigger] self.hash@[j].0) != key_of(*key),
            decreases self.hash.len() - i,
        {
            if key_equal(&self.hash[i].0, key) {
                return Some(i);
            }
            i += 1;
        }
        None
    }

    /// The raw length of a well-formed table fits a Lua integer.
    pub proof fn lemma_raw_len_bound(&self)
        requires
            self.wf(),
        ensures
            self.spec_raw_len() < i64::MAX,
    {
    }

    /// A well-formed table holds as many keys as entries.
    pub proof fn lemma_key_count(&self)
        requires
            self.wf(),
        ensures
            self@.dom().finite(),
            self@.dom().len() == self.spec_size(),
    {
        let n = self.array@.len() as int;
        let h = self.hash@;
        let ks = Seq::new(
            (n + h.len()) as nat,
            |i: int| if i < n { Key::Integer((i + 1) as i64) } else { key_of(h[i - n].0)->Some_0 },
        );
        assert forall|i: int, j: int| 0 <= i < ks.len() && 0 <= j < ks.len() && i != j implies ks[i] != ks[j] by {
            if i >= n && j >= n {
                assert(key_of(h[i - n].0) != key_of(h[j - n].0));
                assert(key_of(h[i - n].0) is Some && key_of(h[j - n].0) is Some);
            } else if i >= n {
                assert(key_of(h[i - n].0) is Some);
                assert(!(h[i - n].0 matches Value::Integer(x) && 1 <= x <= n + 1));
            } else if j >= n {
                assert(key_of(h[j - n].0) is Some);
                assert(!(h[j - n].0 matches Value::Integer(x) && 1 <= x <= n + 1));
            }
        }
        assert(ks.no_duplicates());
        ks.unique_seq_to_set();
        assert forall|k: Key| #[trigger] ks.to_set().contains(k) == self@.dom().contains(k) by {
            if ks.to_set().contains(k) {
                let i = choose|i: int| 0 <= i < ks.len() && ks[i] == k;
                if i >= n {
                    assert(key_of(h[i - n].0) is Some);
                    assert(!(h[i - n].0 matches Value::Integer(x) && 1 <= x <= n + 1));
                    assert(key_of(h[i - n].0) == Some(k));
                    lemma_hash_get_at(h, k, i - n);
                }
            }
            if self@.dom().contains(k) {
                if k is Integer && 1 <= k->Integer_0 <= n {
                    let i = k->Integer_0 - 1;
                    assert(ks[i] == k);
                } else {
                    let a = choose|a: int| 0 <= a < h.len() && key_of(#[trigger] h[a].0) == Some(k);
                    assert(ks[n + a] == k);
                }
            }
        }
        assert(ks.to_set() =~= self@.dom());
        vstd::seq_lib::seq_to_set_is_finite(ks);
    }

    /// The raw length (`#t` without metamethods).
    pub fn raw_len(&self) -> (r: usize)
        ensures
            r == self.spec_raw_len(),
            self.wf() ==> r < i64::MAX,
    {
        self.array.len()
    }

    /// `t[key]` without metamethods; `nil` when absent or when `key` is not a key.
    pub fn raw_get(&self, key: &Value) -> (r: Value)
        requires
            self.wf(),
        ensures
            match key_of(*key) {
                None => r is Nil,
                Some(k) => match self@.get(k) {
                    None => r is Nil,
                    Some(v) => crate::value::spec_same_value(r, v),
                },
            },
    {
        match key {
            Value::Nil | Value::Error(_) => return Value::Nil,
            Value::Integer(i) => {
                if 1 <= *i && *i <= self.array.len() as i64 {
                    return self.array[(*i - 1) as usize].clone();
                }
            },
            _ => {},
        }
        match self.hash_find(key) {
            Some(i) => {
                proof { lemma_hash_get_at(self.hash@, key_of(*key)->Some_0, i as int); }
                self.hash[i].1.clone()
            },
            None => Value::Nil,
        }
    }

    /// Writes `value` under a key that lives in the hash part.
    fn hash_set(&mut self, key: Value, value: Value)
        requires
            old(self).wf(),
            key_of(key) is Some,
            !(key matches Value::Integer(j) && 1 <= j <= old(self).array@.len() + 1),
            old(self).spec_size() + 1 < i64::MAX,
        ensures
            final(self).wf(),
            final(self).array@ == old(self).array@,
            final(self).spec_size() <= old(self).spec_size() + 1,
            final(self).id == old(self).id,
            final(self).readonly == old(self).readonly,
            final(self).metatable == old(self).metatable,
            forall|q: Key| #[trigger] final(self).spec_get(q) == spec_get_after_set(
                old(self).spec_get(q),
                q,
                key_of(key)->Some_0,
                value,
            ),
    {
        let ghost k = key_of(key)->Some_0;
        let ghost h = self.hash@;
        match self.hash_find(&key) {
            Some(i) => {
                if value.is_nil() {
                    self.hash.remove(i);
                    assert forall|q: Key| #[trigger] spec_hash_get(self.hash@, q) == (if q == k { None } else { spec_hash_get(h, q) }) by {
                        lemma_hash_remove(h, i as int, q);
                    }
                    proof { lemma_hash_remove(h, i as int, k); }
                    assert forall|j: int| 0 <= j < self.hash@.len() implies (#[trigger] key_of(self.hash@[j].0)) is Some
                        && !(self.hash@[j].1 is Nil)
                        && !(self.hash@[j].0 matches Value::Integer(x) && 1 <= x <= self.array@.len() + 1) by {
                        let j1 = if j < i { j } else { j + 1 };
                        assert(self.hash@[j] == h[j1]);
                    }
                } else {
                    self.hash.set(i, (key, value));
                    assert forall|q: Key| #[trigger] spec_hash_get(self.hash@, q) == (if q == k { Some(value) } else { spec_hash_get(h, q) }) by {
                        lemma_hash_update(h, i as int, (key, value), q);
                    }
                    proof { lemma_hash_update(h, i as int, (key, value), k); }
                    assert forall|j: int| 0 <= j < self.hash@.len() implies (#[trigger] key_of(self.hash@[j].0)) is Some
                        && !(self.hash@[j].1 is Nil)
                        && !(self.hash@[j].0 matches Value::Integer(x) && 1 <= x <= self.array@.len() + 1) by {
                        if j != i {
                            assert(self.hash@[j] == h[j]);
                        }
                    }
                }
            },
            None => {
                if !value.is_nil() {
                    self.hash.push((key, value));
                    assert forall|q: Key| #[trigger] spec_hash_get(self.hash@, q) == (if q == k { Some(value) } else { spec_hash_get(h, q) }) by {
                        lemma_hash_push(h, (key, value), q);
                    }
                    proof { lemma_hash_push(h, (key, value), k); }
                    assert forall|j: int| 0 <= j < self.hash@.len() implies (#[trigger] key_of(self.hash@[j].0)) is Some
                        && !(self.hash@[j].1 is Nil)
                        && !(self.hash@[j].0 matches Value::Integer(x) && 1 <= x <= self.array@.len() + 1) by {
                        if j < h.len() {
                            assert(self.hash@[j] == h[j]);
                        }
                    }
                }
            },
        }
    }

    /// Writes `value` under the key `i`, a position of the array part.
    fn array_set(&mut self, i: usize, value: Value)
        requires
            old(self).wf(),
            1 <= i <= old(self).array@.len(),
        ensures
            final(self).wf(),
            final(self).spec_size() <= old(self).spec_size(),
            final(self).id == old(self).id,
            final(self).readonly == old(self).readonly,
            final(self).metatable == old(self).metatable,
            forall|q: Key| #[trigger] final(self).spec_get(q) == spec_get_after_set(
                old(self).spec_get(q),
                q,
                Key::Integer(i as i64),
                value,
            ),
    {
        let n = self.array.len();
        let ghost old_array = self.array@;
        let ghost h = self.hash@;
        if !value.is_nil() {
            self.array.set(i - 1, value);
            return;
        }
        if i == n {
            self.array.pop();
            assert forall|q: Key| #[trigger] self.spec_get(q) == spec_get_after_set(
                old(self).spec_get(q),
                q,
                Key::Integer(i as i64),
                value,
            ) by {
                if q == Key::Integer(i as i64) {
                    assert forall|j: int| 0 <= j < h.len() implies key_of(#[trigger] h[j].0) != Some(q) by {
                        assert(!(h[j].0 matches Value::Integer(x) && 1 <= x <= n + 1));
                    }
                }
            }
            return;
        }
        // A hole inside the array part: the keys above it move to the hash part.
        let mut tail = self.array.split_off(i);
        self.array.pop();
        assert(self.array@ =~= old_array.subrange(0, i - 1));
        assert(tail@ =~= old_array.subrange(i as int, n as int));
        while tail.len() > 0
            invariant
                1 <= i < n,
                n == old_array.len(),
                old(self).array@ == old_array,
                n + h.len() < i64::MAX,
                self.array@ == old_array.subrange(0, i - 1),
                tail@ == old_array.subrange(i as int, i + tail@.len()),
                i + tail@.len() <= n,
                self.hash@.len() == h.len() + (n - i - tail@.len()),
                self.id == old(self).id,
                self.readonly == old(self).readonly,
                self.metatable == old(self).metatable,
                spec_distinct_keys(self.hash@),
                forall|j: int| 0 <= j < old_array.len() ==> !(#[trigger] old_array[j] is Nil),
                forall|j: int| 0 <= j < self.hash@.len() ==> (#[trigger] key_of(self.hash@[j].0)) is Some,
                forall|j: int| 0 <= j < self.hash@.len() ==> !(#[trigger] self.hash@[j].1 is Nil),
                forall|j: int| 0 <= j < self.hash@.len() ==> !(#[trigger] self.hash@[j].0 matches Value::Integer(
                    x,
                ) && 1 <= x <= i),
                forall|q: Key| #[trigger] self.spec_get(q) == (if q matches Key::Integer(m) && i + 1 <= m <= i
                    + tail@.len() {
                    None
                } else {
                    spec_get_after_set(old(self).spec_get(q), q, Key::Integer(i as i64), value)
                }),
            decreases tail.len(),
        {
            let ghost hh = self.hash@;
            let ghost rem = tail@.len();
            let ghost snap: Table = *self;
            let v = match tail.pop() {
                Some(v) => v,
                None => Value::Nil,
            };
            let m = i + tail.len() + 1;
            let key = Value::Integer(m as i64);
            assert(v == old_array[m - 1]);
            assert(spec_hash_get(hh, Key::Integer(m as i64)) is None) by {
                assert(self.spec_get(Key::Integer(m as i64)) is None);
            }
            self.hash.push((key, v));
            assert forall|q: Key| #[trigger] spec_hash_get(self.hash@, q) == (if q == Key::Integer(m as i64) { Some(v) } else { spec_hash_get(hh, q) }) by {
                lemma_hash_push(hh, (key, v), q);
            }
            proof { lemma_hash_push(hh, (key, v), Key::Integer(m as i64)); }
            assert forall|j: int| 0 <= j < self.hash@.len() implies (#[trigger] key_of(self.hash@[j].0)) is Some
                && !(self.hash@[j].1 is Nil)
                && !(self.hash@[j].0 matches Value::Integer(x) && 1 <= x <= i) by {
                if j < hh.len() {
                    assert(self.hash@[j] == hh[j]);
                }
            }
            assert forall|q: Key| #[trigger] self.spec_get(q) == (if q matches Key::Integer(mm) && i + 1 <= mm <= i
                + tail@.len() {
                None
            } else {
                spec_get_after_set(old(self).spec_get(q), q, Key::Integer(i as i64), value)
            }) by {
                assert(snap.spec_get(q) == (if q matches Key::Integer(mm) && i + 1 <= mm <= i + rem {
                    None
                } else {
                    spec_get_after_set(old(self).spec_get(q), q, Key::Integer(i as i64), value)
                }));
                if q == Key::Integer(m as i64) {
                    assert(old(self).spec_get(q) == Some(old_array[m - 1]));
                }
            }
        }
    }

    /// Writes a non-`nil` `value` under the key `n + 1` and pulls the keys
    /// that follow from the hash part into the array part.
    fn array_push(&mut self, value: Value)
        requires
            old(self).wf(),
            !(value is Nil),
            old(self).spec_size() + 1 < i64::MAX,
        ensures
            final(self).wf(),
            final(self).spec_size() == old(self).spec_size() + 1,
            final(self).id == old(self).id,
            final(self).readonly == old(self).readonly,
            final(self).metatable == old(self).metatable,
            forall|q: Key| #[trigger] final(self).spec_get(q) == spec_get_after_set(
                old(self).spec_get(q),
                q,
                Key::Integer((old(self).array@.len() + 1) as i64),
                value,
            ),
    {
        let ghost n = self.array@.len();
        let ghost k = Key::Integer((n + 1) as i64);
        self.array.push(value);
        let mut done = false;
        while !done
            invariant
                self.array@.len() + self.hash@.len() == n + old(self).hash@.len() + 1,
                n + old(self).hash@.len() + 1 < i64::MAX,
                self.array@.len() >= n + 1,
                self.id == old(self).id,
                self.readonly == old(self).readonly,
                self.metatable == old(self).metatable,
                forall|j: int| 0 <= j < self.array@.len() ==> !(#[trigger] self.array@[j] is Nil),
                spec_distinct_keys(self.hash@),
                forall|j: int| 0 <= j < self.hash@.len() ==> (#[trigger] key_of(self.hash@[j].0)) is Some,
                forall|j: int| 0 <= j < self.hash@.len() ==> !(#[trigger] self.hash@[j].1 is Nil),
                forall|j: int| 0 <= j < self.hash@.len() ==> !(#[trigger] self.hash@[j].0 matches Value::Integer(
                    x,
                ) && 1 <= x <= self.array@.len()),
                done ==> forall|j: int| 0 <= j < self.hash@.len() ==> !(#[trigger] self.hash@[j].0 matches Value::Integer(
                    x,
                ) && x == self.array@.len() + 1),
                forall|q: Key| #[trigger] self.spec_get(q) == spec_get_after_set(old(self).spec_get(q), q, k, value),
            decreases self.hash@.len() + if done { 0int } else { 1int },
        {
            let len = self.array.len();
            let next = Value::Integer(len as i64 + 1);
            match self.hash_find(&next) {
                Some(j) => {
                    let ghost hh = self.hash@;
                    let ghost mk = Key::Integer((len as i64 + 1) as i64);
                    let ghost snap: Table = *self;
                    let entry = self.hash.remove(j);
                    proof { lemma_hash_get_at(hh, mk, j as int); }
                    assert forall|q: Key| #[trigger] spec_hash_get(self.hash@, q) == (if q == mk { None } else { spec_hash_get(hh, q) }) by {
                        lemma_hash_remove(hh, j as int, q);
                    }
                    proof { lemma_hash_remove(hh, j as int, mk); }
                    self.array.push(entry.1);
                    assert forall|jj: int| 0 <= jj < self.hash@.len() implies (#[trigger] key_of(self.hash@[jj].0)) is Some
                        && !(self.hash@[jj].1 is Nil)
                        && !(self.hash@[jj].0 matches Value::Integer(x) && 1 <= x <= self.array@.len()) by {
                        let j1 = if jj < j { jj } else { jj + 1 };
                        assert(self.hash@[jj] == hh[j1]);
                        assert(key_of(hh[j1].0) != key_of(hh[j as int].0));
                    }
                    assert forall|q: Key| #[trigger] self.spec_get(q) == snap.spec_get(q) by {
                        if q == mk {
                            assert(self.array@[len as int] == entry.1);
                        }
                    }
                },
                None => {
                    done = true;
                    assert forall|jj: int| 0 <= jj < self.hash@.len() implies !(#[trigger] self.hash@[jj].0 matches Value::Integer(
                        x,
                    ) && x == self.array@.len() + 1) by {
                        if self.hash@[jj].0 matches Value::Integer(x) && x == self.array@.len() + 1 {
                            assert(key_of(self.hash@[jj].0) == Some(Key::Integer((len as i64 + 1) as i64)));
                        }
                    }
                },
            }
        }
    }

    /// Well-formedness, except that the hash part may still hold the key
    /// just after the array part.
    closed spec fn wf_loose(&self) -> bool {
        &&& self.array@.len() + self.hash@.len() < i64::MAX
        &&& forall|i: int| 0 <= i < self.array@.len() ==> !(#[trigger] self.array@[i] is Nil)
        &&& spec_distinct_keys(self.hash@)
        &&& forall|i: int| 0 <= i < self.hash@.len() ==> (#[trigger] key_of(self.hash@[i].0)) is Some
        &&& forall|i: int| 0 <= i < self.hash@.len() ==> !(#[trigger] self.hash@[i].1 is Nil)
        &&& forall|i: int| 0 <= i < self.hash@.len() ==> !(#[trigger] self.hash@[i].0 matches Value::Integer(
            j,
        ) && 1 <= j <= self.array@.len())
    }

    /// Pulls the keys that follow the array part from the hash part into it.
    fn absorb(&mut self)
        requires
            old(self).wf_loose(),
        ensures
            final(self).wf(),
            final(self).spec_size() == old(self).spec_size(),
            final(self).array@.len() >= old(self).array@.len(),
            final(self).id == old(self).id,
            final(self).readonly == old(self).readonly,
            final(self).metatable == old(self).metatable,
            forall|q: Key| #[trigger] final(self).spec_get(q) == old(self).spec_get(q),
    {
        let mut done = false;
        while !done
            invariant
                self.array@.len() + self.hash@.len() == old(self).array@.len() + old(self).hash@.len(),
                old(self).array@.len() + old(self).hash@.len() < i64::MAX,
                self.array@.len() >= old(self).array@.len(),
                self.id == old(self).id,
                self.readonly == old(self).readonly,
                self.metatable == old(self).metatable,
                forall|j: int| 0 <= j < self.array@.len() ==> !(#[trigger] self.array@[j] is Nil),
                spec_distinct_keys(self.hash@),
                forall|j: int| 0 <= j < self.hash@.len() ==> (#[trigger] key_of(self.hash@[j].0)) is Some,
                forall|j: int| 0 <= j < self.hash@.len() ==> !(#[trigger] self.hash@[j].1 is Nil),
                forall|j: int| 0 <= j < self.hash@.len() ==> !(#[trigger] self.hash@[j].0 matches Value::Integer(
                    x,
                ) && 1 <= x <= self.array@.len()),
                done ==> forall|j: int| 0 <= j < self.hash@.len() ==> !(#[trigger] self.hash@[j].0 matches Value::Integer(
                    x,
                ) && x == self.array@.len() + 1),
                forall|q: Key| #[trigger] self.spec_get(q) == old(self).spec_get(q),
            decreases self.hash@.len() + if done { 0int } else { 1int },
        {
            let len = self.array.len();
            let next = Value::Integer(len as i64 + 1);
            match self.hash_find(&next) {
                Some(j) => {
                    let ghost hh = self.hash@;
                    let ghost mk = Key::Integer((len as i64 + 1) as i64);
                    let ghost snap: Table = *self;
                    let entry = self.hash.remove(j);
                    proof { lemma_hash_get_at(hh, mk, j as int); }
                    assert forall|q: Key| #[trigger] spec_hash_get(self.hash@, q) == (if q == mk { None } else { spec_hash_get(hh, q) }) by {
                        lemma_hash_remove(hh, j as int, q);
                    }
                    proof { lemma_hash_remove(hh, j as int, mk); }
                    self.array.push(entry.1);
                    assert forall|jj: int| 0 <= jj < self.hash@.len() implies (#[trigger] key_of(self.hash@[jj].0)) is Some
                        && !(self.hash@[jj].1 is Nil)
                        && !(self.hash@[jj].0 matches Value::Integer(x) && 1 <= x <= self.array@.len()) by {
                        let j1 = if jj < j { jj } else { jj + 1 };
                        assert(self.hash@[jj] == hh[j1]);
                        assert(key_of(hh[j1].0) != key_of(hh[j as int].0));
                    }
                    assert forall|q: Key| #[trigger] self.spec_get(q) == snap.spec_get(q) by {
                        if q == mk {
                            assert(self.array@[len as int] == entry.1);
                        }
                    }
                },
                None => {
                    done = true;
                    assert forall|jj: int| 0 <= jj < self.hash@.len() implies !(#[trigger] self.hash@[jj].0 matches Value::Integer(
                        x,
                    ) && x == self.array@.len() + 1) by {
                        if self.hash@[jj].0 matches Value::Integer(x) && x == self.array@.len() + 1 {
                            assert(key_of(self.hash@[jj].0) == Some(Key::Integer((len as i64 + 1) as i64)));
                        }
                    }
                },
            }
        }
    }

    /// Inserts `value` at position `idx` of the sequence, moving the
    /// elements from `idx` on one place up (raw).
    pub fn raw_insert(&mut self, idx: i64, value: Value) -> (r: Result<(), Error>)
        requires
            old(self).wf(),
            old(self).spec_size() + 2 < i64::MAX,
        ensures
            final(self).wf(),
            final(self).spec_id() == old(self).spec_id(),
            final(self).spec_readonly() == old(self).spec_readonly(),
            final(self).spec_metatable() == old(self).spec_metatable(),
            !(1 <= idx <= old(self).spec_raw_len() + 1) ==> (r matches Err(e) && spec_insert_bounds_error(e, idx)
                && final(self)@ == old(self)@),
            1 <= idx <= old(self).spec_raw_len() + 1 && old(self).spec_readonly() ==> (r matches Err(e)
                && spec_readonly_error(e) && final(self)@ == old(self)@),
            1 <= idx <= old(self).spec_raw_len() + 1 && !old(self).spec_readonly() ==> (r is Ok && final(self)@
                == spec_inserted(old(self)@, old(self).spec_raw_len() as int, idx as int, value)),
    {
        let n = self.array.len();
        proof {
            reveal_strlit("");
            assert(""@ =~= Seq::<char>::empty());
        }
        if idx < 1 || idx > n as i64 + 1 {
            return Err(Error::RuntimeError(crate::error::concat3(
                "bad argument #2 to 'insert' (position out of bounds): ",
                crate::error::decimal(idx).as_str(),
                "",
            )));
        }
        if self.readonly {
            return Err(Error::runtime("attempt to modify a readonly table"));
        }
        let ghost before = *self;
        let ghost v = value;
        let is_nil = value.is_nil();
        let placed = if is_nil { Value::Boolean(false) } else { value };
        let ghost p = placed;
        self.array.insert((idx - 1) as usize, placed);
        assert forall|j: int| 0 <= j < self.hash@.len() implies !(#[trigger] self.hash@[j].0 matches Value::Integer(
            x,
        ) && 1 <= x <= self.array@.len()) by {
            assert(!(before.hash@[j].0 matches Value::Integer(x) && 1 <= x <= n + 1));
        }
        assert forall|q: Key| #[trigger] self.spec_get(q) == spec_inserted_get(before, n as int, idx as int, p, q) by {
            if let Key::Integer(x) = q {
                if 1 <= x <= n + 1 {
                    if x > idx {
                        assert(self.array@[x - 1] == before.array@[x - 2]);
                    } else if x < idx {
                        assert(self.array@[x - 1] == before.array@[x - 1]);
                    }
                }
            }
        }
        let ghost mid = *self;
        self.absorb();
        if is_nil {
            let ghost mid2 = *self;
            let len_now = self.array.len();
            assert(len_now >= n + 1);
            assert(idx <= len_now);
            let pos = idx as usize;
            assert(pos as i64 == idx);
            self.array_set(pos, Value::Nil);
            assert forall|q: Key| #[trigger] self.spec_get(q) == spec_inserted_get(before, n as int, idx as int, v, q) by {
                assert(mid2.spec_get(q) == mid.spec_get(q));
                assert(mid.spec_get(q) == spec_inserted_get(before, n as int, idx as int, p, q));
            }
        } else {
            assert forall|q: Key| #[trigger] self.spec_get(q) == spec_inserted_get(before, n as int, idx as int, v, q) by {
                assert(mid.spec_get(q) == spec_inserted_get(before, n as int, idx as int, p, q));
            }
        }
        proof { lemma_inserted_view(before, *self, n as int, idx as int, v); }
        Ok(())
    }

    /// Removes the element at position `idx` of the sequence, moving the
    /// elements after it one place down (raw); `nil` when the sequence is empty.
    pub fn raw_remove(&mut self, idx: i64) -> (r: Result<Value, Error>)
        requires
            old(self).wf(),
        ensures
            final(self).wf(),
            final(self).spec_id() == old(self).spec_id(),
            final(self).spec_readonly() == old(self).spec_readonly(),
            final(self).spec_metatable() == old(self).spec_metatable(),
            old(self).spec_raw_len() == 0 ==> (r matches Ok(v) && v is Nil && final(self)@ == old(self)@),
            old(self).spec_raw_len() > 0 && !(1 <= idx <= old(self).spec_raw_len()) ==> (r matches Err(e)
                && spec_remove_bounds_error(e, idx) && final(self)@ == old(self)@),
            old(self).spec_raw_len() > 0 && 1 <= idx <= old(self).spec_raw_len() && old(self).spec_readonly() ==> (r matches Err(
                e,
            ) && spec_readonly_error(e) && final(self)@ == old(self)@),
            old(self).spec_raw_len() > 0 && 1 <= idx <= old(self).spec_raw_len() && !old(self).spec_readonly() ==> (r matches Ok(
                v,
            ) && v == old(self)@[Key::Integer(idx)] && final(self)@ == spec_removed(
                old(self)@,
                old(self).spec_raw_len() as int,
                idx as int,
            )),
    {
        let n = self.array.len();
        if n == 0 {
            return Ok(Value::Nil);
        }
        proof {
            reveal_strlit("");
            assert(""@ =~= Seq::<char>::empty());
        }
        if idx < 1 || idx > n as i64 {
            return Err(Error::RuntimeError(crate::error::concat3(
                "bad argument #1 to 'remove' (position out of bounds): ",
                crate::error::decimal(idx).as_str(),
                "",
            )));
        }
        if self.readonly {
            return Err(Error::runtime("attempt to modify a readonly table"));
        }
        let ghost before = *self;
        let removed = self.array.remove((idx - 1) as usize);
        assert forall|j: int| 0 <= j < self.hash@.len() implies !(#[trigger] self.hash@[j].0 matches Value::Integer(
            x,
        ) && 1 <= x <= self.array@.len() + 1) by {
            assert(!(before.hash@[j].0 matches Value::Integer(x) && 1 <= x <= n + 1));
        }
        assert forall|q: Key| #[trigger] self.spec_get(q) == spec_removed_get(before, n as int, idx as int, q) by {
            if let Key::Integer(x) = q {
                if 1 <= x <= n {
                    if x >= idx && x < n {
                        assert(self.array@[x - 1] == before.array@[x as int]);
                    } else if x < idx {
                        assert(self.array@[x - 1] == before.array@[x - 1]);
                    } else {
                        assert forall|j: int| 0 <= j < self.hash@.len() implies key_of(#[trigger] self.hash@[j].0) != Some(q) by {
                            assert(!(self.hash@[j].0 matches Value::Integer(y) && 1 <= y <= n));
                        }
                    }
                }
            }
        }
        proof { lemma_removed_view(before, *self, n as int, idx as int); }
        Ok(removed)
    }

    /// Writes `value` under `key`, dispatching to the part that holds the key.
    fn set_value(&mut self, key: Value, value: Value)
        requires
            old(self).wf(),
            key_of(key) is Some,
            old(self).spec_size() + 1 < i64::MAX,
        ensures
            final(self).wf(),
            final(self).spec_size() <= old(self).spec_size() + 1,
            final(self).id == old(self).id,
            final(self).readonly == old(self).readonly,
            final(self).metatable == old(self).metatable,
            forall|q: Key| #[trigger] final(self).spec_get(q) == spec_get_after_set(
                old(self).spec_get(q),
                q,
                key_of(key)->Some_0,
                value,
            ),
    {
        let n = self.array.len();
        if let Value::Integer(i) = key {
            if 1 <= i && i <= n as i64 {
                self.array_set(i as usize, value);
                return;
            }
            if i == n as i64 + 1 {
                if !value.is_nil() {
                    self.array_push(value);
                } else {
                    assert forall|q: Key| #[trigger] self.spec_get(q) == spec_get_after_set(
                        old(self).spec_get(q),
                        q,
                        key_of(key)->Some_0,
                        value,
                    ) by {
                        if q == key_of(key)->Some_0 {
                            assert forall|j: int| 0 <= j < self.hash@.len() implies key_of(
                                #[trigger] self.hash@[j].0,
                            ) != Some(q) by {
                                assert(!(self.hash@[j].0 matches Value::Integer(x) && 1 <= x <= n + 1));
                            }
                        }
                    }
                }
                return;
            }
        }
        self.hash_set(key, value);
    }

    /// `t[key] = value` without metamethods.
    ///
    /// Fails on a readonly table; writing `nil` removes the key.
    pub fn raw_set(&mut self, key: Value, value: Value) -> (r: Result<(), Error>)
        requires
            old(self).wf(),
            key_of(key) is Some,
            old(self).spec_size() + 1 < i64::MAX,
        ensures
            final(self).wf(),
            final(self).spec_id() == old(self).spec_id(),
            final(self).spec_readonly() == old(self).spec_readonly(),
            final(self).spec_metatable() == old(self).spec_metatable(),
            final(self).spec_size() <= old(self).spec_size() + 1,
            r is Ok <==> !old(self).spec_readonly(),
            r is Ok ==> final(self)@ == spec_after_set(old(self)@, key_of(key)->Some_0, value),
            r matches Err(e) ==> spec_readonly_error(e) && final(self)@ == old(self)@,
    {
        if self.readonly {
            return Err(Error::runtime("attempt to modify a readonly table"));
        }
        let ghost k = key_of(key)->Some_0;
        let ghost v = value;
        self.set_value(key, value);
        assert(self@ =~= spec_after_set(old(self)@, k, v));
        Ok(())
    }

    /// Appends `value` at `#t + 1` without metamethods.
    pub fn raw_push(&mut self, value: Value) -> (r: Result<(), Error>)
        requires
            old(self).wf(),
            old(self).spec_size() + 1 < i64::MAX,
        ensures
            final(self).wf(),
            final(self).spec_id() == old(self).spec_id(),
            final(self).spec_readonly() == old(self).spec_readonly(),
            final(self).spec_metatable() == old(self).spec_metatable(),
            r is Ok <==> !old(self).spec_readonly(),
            r is Ok ==> final(self)@ == spec_after_set(
                old(self)@,
                Key::Integer((old(self).spec_raw_len() + 1) as i64),
                value,
            ),
            r matches Err(e) ==> spec_readonly_error(e) && final(self)@ == old(self)@,
    {
        let n = self.array.len();
        self.raw_set(Value::Integer(n as i64 + 1), value)
    }

    /// Removes and returns the last element of the sequence without
    /// metamethods; `nil` when the sequence is empty.
    pub fn raw_pop(&mut self) -> (r: Result<Value, Error>)
        requires
            old(self).wf(),
        ensures
            final(self).wf(),
            final(self).spec_id() == old(self).spec_id(),
            final(self).spec_readonly() == old(self).spec_readonly(),
            final(self).spec_metatable() == old(self).spec_metatable(),
            old(self).spec_raw_len() == 0 ==> (r matches Ok(v) && v is Nil && final(self)@ == old(self)@),
            old(self).spec_raw_len() > 0 && old(self).spec_readonly() ==> (r matches Err(e) && spec_readonly_error(e)
                && final(self)@ == old(self)@),
            old(self).spec_raw_len() > 0 && !old(self).spec_readonly() ==> (r matches Ok(v)
                && v == old(self)@[Key::Integer(old(self).spec_raw_len() as i64)]
                && final(self)@ == old(self)@.remove(Key::Integer(old(self).spec_raw_len() as i64))
                && final(self).spec_raw_len() == old(self).spec_raw_len() - 1),
    {
        let n = self.array.len();
        if n == 0 {
            return Ok(Value::Nil);
        }
        if self.readonly {
            return Err(Error::runtime("attempt to modify a readonly table"));
        }
        let v = match self.array.pop() {
            Some(v) => v,
            None => Value::Nil,
        };
        let ghost k = Key::Integer(n as i64);
        assert forall|j: int| 0 <= j < self.hash@.len() implies key_of(#[trigger] self.hash@[j].0) != Some(k) by {
            assert(!(self.hash@[j].0 matches Value::Integer(x) && 1 <= x <= n + 1));
        }
        assert(self@ =~= old(self)@.remove(k));
        Ok(v)
    }

    /// `t[key]`, reading through `__index` as the VM does: the table's own
    /// entry first; then, where the table has a metatable whose `__index` is
    /// a table held in `tables`, that table in turn (at most
    /// [`MAX_INDEX_CHAIN`] tables in all, else the VM's "chain too long"
    /// error). Where the VM has to act (an `__index` function, a metatable or
    /// table not in `tables`, an `__index` value of another type),
    /// `vm_get(receiver, key)` reads `receiver[key]` as the VM would, and
    /// what it gives, value or error, is returned.
    pub fn get<F: Fn(Value, Value) -> Result<Value, Error>>(
        &self,
        key: &Value,
        tables: &Vec<Table>,
        vm_get: F,
    ) -> (r: Result<Value, Error>)
        requires
            self.wf(),
            spec_heap_wf(tables@),
            forall|recv: Value, k: Value| call_requires(vm_get, (recv, k)),
        ensures
            spec_get_result(tables@, *self, *key, vm_get, r),
    {
        match self.index_chain(key, tables) {
            IndexOutcome::Found(v) => Ok(v),
            IndexOutcome::Vm(recv) => {
                let key2 = key.clone();
                let ghost r2 = recv;
                let ghost k2 = key2;
                let out = vm_get(recv, key2);
                assert(call_ensures(vm_get, (r2, k2), out));
                out
            },
            IndexOutcome::TooLong => Err(Error::runtime("'__index' chain too long; possible loop")),
        }
    }

    /// Whether `t[key]` is not `nil`, reading through `__index` as the VM
    /// does: what [`Table::get`] gives, a value tested for `nil`, an error
    /// passed on.
    pub fn contains_key<F: Fn(Value, Value) -> Result<Value, Error>>(
        &self,
        key: &Value,
        tables: &Vec<Table>,
        vm_get: F,
    ) -> (r: Result<bool, Error>)
        requires
            self.wf(),
            spec_heap_wf(tables@),
            forall|recv: Value, k: Value| call_requires(vm_get, (recv, k)),
        ensures
            exists|g: Result<Value, Error>| {
                &&& spec_get_result(tables@, *self, *key, vm_get, g)
                &&& r == match g {
                    Ok(v) => Ok::<bool, Error>(!(v is Nil)),
                    Err(e) => Err::<bool, Error>(e),
                }
            },
            match spec_index_chain(tables@, *self, key_of(*key), (MAX_INDEX_CHAIN - 1) as nat) {
                IndexStep::Found(v) => r == Ok::<bool, Error>(!(v is Nil)),
                IndexStep::Vm(recv) => exists|recv2: Value, key2: Value, out: Result<Value, Error>| {
                    &&& crate::value::spec_same_value(recv2, recv)
                    &&& crate::value::spec_same_value(key2, *key)
                    &&& call_ensures(vm_get, (recv2, key2), out)
                    &&& out matches Ok(v) ==> r == Ok::<bool, Error>(!(v is Nil))
                    &&& out matches Err(e) ==> r == Err::<bool, Error>(e)
                },
                IndexStep::TooLong => r matches Err(e) && spec_chain_too_long_error(e),
            },
    {
        let g = self.get(key, tables, vm_get);
        match g {
            Ok(v) => Ok(!v.is_nil()),
            Err(e) => Err(e),
        }
    }

    /// Where reading `self[key]` through `__index` tables ends (see
    /// [`spec_index_chain`]); a value found is the same value as the one
    /// held.
    pub fn index_chain(&self, key: &Value, tables: &Vec<Table>) -> (r: IndexOutcome)
        requires
            self.wf(),
            spec_heap_wf(tables@),
        ensures
            match spec_index_chain(tables@, *self, key_of(*key), (MAX_INDEX_CHAIN - 1) as nat) {
                IndexStep::Found(v) => r matches IndexOutcome::Found(x) && crate::value::spec_same_value(x, v),
                IndexStep::Vm(recv) => r matches IndexOutcome::Vm(x) && crate::value::spec_same_value(x, recv),
                IndexStep::TooLong => r is TooLong,
            },
    {
        let name = index_name();
        let mut cur: &Table = self;
        let mut fuel: u64 = MAX_INDEX_CHAIN - 1;
        loop
            invariant
                cur.wf(),
                spec_heap_wf(tables@),
                name@ == spec_index_key(),
                fuel <= MAX_INDEX_CHAIN - 1,
                spec_index_chain(tables@, *cur, key_of(*key), fuel as nat) == spec_index_chain(
                    tables@,
                    *self,
                    key_of(*key),
                    (MAX_INDEX_CHAIN - 1) as nat,
                ),
            decreases fuel,
        {
            let own = cur.raw_get(key);
            if !own.is_nil() {
                proof {
                    if !(key_of(*key) matches Some(k) && cur@.contains_key(k)) {
                        assert(own is Nil);
                    }
                }
                return IndexOutcome::Found(own);
            }
            proof {
                if let Some(k) = key_of(*key) {
                    if cur@.contains_key(k) {
                        lemma_values_not_nil(cur, k);
                    }
                }
            }
            let mid = match cur.metatable() {
                None => {
                    return IndexOutcome::Found(Value::Nil);
                },
                Some(m) => m,
            };
            let mt = match find_table(tables, mid) {
                None => {
                    return IndexOutcome::Vm(Value::Table(cur.to_pointer()));
                },
                Some(i) => &tables[i],
            };
            let handler = mt.raw_get(&Value::String(string_from_vec(copy_name(&name))));
            proof {
                if mt@.contains_key(Key::String(spec_index_key())) {
                    lemma_values_not_nil(mt, Key::String(spec_index_key()));
                }
            }
            match handler {
                Value::Nil => {
                    return IndexOutcome::Found(Value::Nil);
                },
                Value::Table(hid) => {
                    match find_table(tables, hid) {
                        None => {
                            return IndexOutcome::Vm(Value::Table(hid));
                        },
                        Some(j) => {
                            if fuel == 0 {
                                return IndexOutcome::TooLong;
                            }
                            cur = &tables[j];
                            fuel = fuel - 1;
                        },
                    }
                },
                Value::Function(_) => {
                    return IndexOutcome::Vm(Value::Table(cur.to_pointer()));
                },
                other => {
                    return IndexOutcome::Vm(other);
                },
            }
        }
    }

    /// Whether the table has no entries at all (array or hash part).
    pub fn is_empty(&self) -> (r: bool)
        requires
            self.wf(),
        ensures
            r == (self@ == Map::<Key, Value>::empty()),
    {
        let r = self.array.len() == 0 && self.hash.len() == 0;
        if !r {
            if self.array.len() > 0 {
                assert(self@.contains_key(Key::Integer(1)));
            } else {
                let ghost k = key_of(self.hash@[0].0)->Some_0;
                proof { lemma_hash_get_at(self.hash@, k, 0); }
                assert(self@.contains_key(k));
            }
        } else {
            assert(self@ =~= Map::<Key, Value>::empty());
        }
        r
    }

    /// Calls `f` with each value of the sequence part, in order, stopping at
    /// the first error, which is returned.
    pub fn for_each_value<F: FnMut(Value) -> Result<(), Error>>(&self, f: F) -> (r: Result<(), Error>)
        requires
            self.wf(),
            forall|g: F, v: Value| call_requires(g, (v,)),
        ensures
            exists|vals: Seq<Value>| {
                &&& vals.len() == self.spec_raw_len()
                &&& forall|i: int| 0 <= i < vals.len() ==> crate::value::spec_same_value(
                    #[trigger] vals[i],
                    self@[Key::Integer((i + 1) as i64)],
                )
                &&& spec_value_run::<F>(vals, r)
            },
    {
        let vals = self.sequence_values();
        let ghost all = vals@;
        let mut queue = into_queue(vals);
        let mut f = f;
        let ghost mut done: int = 0;
        while queue.len() > 0
            invariant
                0 <= done <= all.len(),
                queue@ == all.subrange(done, all.len() as int),
                forall|j: int| 0 <= j < done ==> spec_value_call::<F>(#[trigger] all[j], Ok(())),
                forall|g: F, v: Value| call_requires(g, (v,)),
                all.len() == self.spec_raw_len(),
                forall|i: int| 0 <= i < all.len() ==> crate::value::spec_same_value(
                    #[trigger] all[i],
                    self@[Key::Integer((i + 1) as i64)],
                ),
            decreases queue.len(),
        {
            let v = match queue.pop_front() {
                Some(v) => v,
                None => Value::Nil,
            };
            assert(v == all[done]);
            let ghost before = f;
            let res = f(v);
            assert(call_ensures(before, (all[done],), res));
            match res {
                Ok(()) => {
                    proof {
                        assert(spec_value_call::<F>(all[done], Ok(())));
                        done = done + 1;
                    }
                },
                Err(e) => {
                    assert(spec_value_call::<F>(all[done], Err(e)));
                    assert(spec_value_run::<F>(all, Err::<(), Error>(e)));
                    return Err(e);
                },
            }
        }
        assert(done == all.len());
        assert(spec_value_run::<F>(all, Ok::<(), Error>(())));
        Ok(())
    }

    /// Calls `f` with each entry of the table, in the order of
    /// [`Table::pairs`], stopping at the first error, which is returned.
    pub fn for_each<F: FnMut(Value, Value) -> Result<(), Error>>(&self, f: F) -> (r: Result<(), Error>)
        requires
            self.wf(),
            forall|g: F, k: Value, v: Value| call_requires(g, (k, v)),
        ensures
            exists|s: Seq<(Value, Value)>| spec_entries_of(*self, s) && spec_entry_run::<F>(s, r),
    {
        let entries = self.pairs();
        let ghost all = entries@;
        let mut queue = into_queue(entries);
        let mut f = f;
        let ghost mut done: int = 0;
        while queue.len() > 0
            invariant
                0 <= done <= all.len(),
                queue@ == all.subrange(done, all.len() as int),
                forall|j: int| 0 <= j < done ==> spec_entry_call::<F>((#[trigger] all[j]).0, all[j].1, Ok(())),
                forall|g: F, k: Value, v: Value| call_requires(g, (k, v)),
                spec_entries_of(*self, all),
            decreases queue.len(),
        {
            let (k, v) = match queue.pop_front() {
                Some(e) => e,
                None => (Value::Nil, Value::Nil),
            };
            assert((k, v) == all[done]);
            let ghost before = f;
            let res = f(k, v);
            assert(call_ensures(before, (all[done].0, all[done].1), res));
            match res {
                Ok(()) => {
                    proof {
                        assert(spec_entry_call::<F>(all[done].0, all[done].1, Ok(())));
                        done = done + 1;
                    }
                },
                Err(e) => {
                    assert(spec_entry_call::<F>(all[done].0, all[done].1, Err(e)));
                    assert(spec_entry_run::<F>(all, Err::<(), Error>(e)));
                    return Err(e);
                },
            }
        }
        assert(done == all.len());
        assert(spec_entry_run::<F>(all, Ok::<(), Error>(())));
        Ok(())
    }

    /// The values of the sequence `t[1], t[2], ...` up to the first `nil`.
    pub fn sequence_values(&self) -> (r: Vec<Value>)
        requires
            self.wf(),
        ensures
            r@.len() == self.spec_raw_len(),
            forall|i: int| 0 <= i < r@.len() ==> crate::value::spec_same_value(
                #[trigger] r@[i],
                self@[Key::Integer((i + 1) as i64)],
            ),
            !self@.contains_key(Key::Integer((self.spec_raw_len() + 1) as i64)),
    {
        proof { lemma_raw_len_is_border(self); }
        let mut out: Vec<Value> = Vec::new();
        let mut i: usize = 0;
        while i < self.array.len()
            invariant
                self.wf(),
                i <= self.array@.len(),
                out@.len() == i,
                forall|j: int| 0 <= j < i ==> crate::value::spec_same_value(
                    #[trigger] out@[j],
                    self@[Key::Integer((j + 1) as i64)],
                ),
            decreases self.array.len() - i,
        {
            let v = self.array[i].clone();
            assert(self@[Key::Integer((i + 1) as i64)] == self.array@[i as int]);
            out.push(v);
            i += 1;
        }
        out
    }

    /// Every `(key, value)` entry of the table, each key once.
    pub fn pairs(&self) -> (r: Vec<(Value, Value)>)
        requires
            self.wf(),
        ensures
            r@.len() == self.spec_size(),
            forall|i: int| 0 <= i < r@.len() ==> (key_of(#[trigger] r@[i].0) matches Some(k)
                && self@.contains_key(k) && crate::value::spec_same_value(r@[i].1, self@[k])),
            forall|k: Key| #[trigger] self@.contains_key(k) ==> exists|i: int| 0 <= i < r@.len() && key_of(
                #[trigger] r@[i].0,
            ) == Some(k),
            spec_distinct_keys(r@),
    {
        let mut out: Vec<(Value, Value)> = Vec::new();
        let n = self.array.len();
        let mut i: usize = 0;
        while i < n
            invariant
                self.wf(),
                n == self.array@.len(),
                i <= n,
                out@.len() == i,
                forall|j: int| 0 <= j < i ==> (#[trigger] out@[j]).0 == Value::Integer((j + 1) as i64)
                    && crate::value::spec_same_value(out@[j].1, self.array@[j]),
            decreases n - i,
        {
            let v = self.array[i].clone();
            out.push((Value::Integer(i as i64 + 1), v));
            i += 1;
        }
        let mut j: usize = 0;
        while j < self.hash.len()
            invariant
                self.wf(),
                n == self.array@.len(),
                j <= self.hash@.len(),
                out@.len() == n + j,
                forall|a: int| 0 <= a < n ==> (#[trigger] out@[a]).0 == Value::Integer((a + 1) as i64)
                    && crate::value::spec_same_value(out@[a].1, self.array@[a]),
                forall|a: int| 0 <= a < j ==> key_of((#[trigger] out@[n + a]).0) == key_of(self.hash@[a].0)
                    && crate::value::spec_same_value(out@[n + a].1, self.hash@[a].1),
            decreases self.hash.len() - j,
        {
            let k = self.hash[j].0.clone();
            let v = self.hash[j].1.clone();
            proof { crate::value::lemma_same_value_key(k, self.hash@[j as int].0); }
            out.push((k, v));
            j += 1;
        }
        proof { self.lemma_pairs_entries(out@); }
        out
    }

    /// The entries listed array part first, then hash part, describe the map.
    proof fn lemma_pairs_entries(&self, out: Seq<(Value, Value)>)
        requires
            self.wf(),
            out.len() == self.array@.len() + self.hash@.len(),
            forall|a: int| 0 <= a < self.array@.len() ==> (#[trigger] out[a]).0 == Value::Integer((a + 1) as i64)
                && crate::value::spec_same_value(out[a].1, self.array@[a]),
            forall|a: int| 0 <= a < self.hash@.len() ==> key_of((#[trigger] out[self.array@.len() + a]).0) == key_of(
                self.hash@[a].0,
            ) && crate::value::spec_same_value(out[self.array@.len() + a].1, self.hash@[a].1),
        ensures
            forall|i: int| 0 <= i < out.len() ==> (key_of(#[trigger] out[i].0) matches Some(k)
                && self@.contains_key(k) && crate::value::spec_same_value(out[i].1, self@[k])),
            forall|k: Key| #[trigger] self@.contains_key(k) ==> exists|i: int| 0 <= i < out.len() && key_of(
                #[trigger] out[i].0,
            ) == Some(k),
            spec_distinct_keys(out),
    {
        let n = self.array@.len() as int;
        assert forall|i: int| 0 <= i < out.len() implies (key_of(#[trigger] out[i].0) matches Some(k)
            && self@.contains_key(k) && crate::value::spec_same_value(out[i].1, self@[k])) by {
            if i < n {
                assert(out[i] == out[i]);
            } else {
                let a = i - n;
                assert(key_of(out[n + a].0) == key_of(self.hash@[a].0));
                let k = key_of(self.hash@[a].0)->Some_0;
                lemma_hash_get_at(self.hash@, k, a);
                assert(!(self.hash@[a].0 matches Value::Integer(x) && 1 <= x <= n + 1));
            }
        }
        assert forall|k: Key| #[trigger] self@.contains_key(k) implies exists|i: int| 0 <= i < out.len() && key_of(
            #[trigger] out[i].0,
        ) == Some(k) by {
            if k is Integer && 1 <= k->Integer_0 <= n {
                let i = (k->Integer_0 - 1) as int;
                assert(key_of(out[i].0) == Some(k));
            } else {
                let a = choose|a: int| 0 <= a < self.hash@.len() && key_of(#[trigger] self.hash@[a].0) == Some(k);
                assert(key_of(out[n + a].0) == Some(k));
            }
        }
        assert forall|i: int, j: int| 0 <= i < out.len() && 0 <= j < out.len() && i != j implies key_of(
            #[trigger] out[i].0,
        ) != key_of(#[trigger] out[j].0) by {
            if i < n && j < n {
            } else if i >= n && j >= n {
                assert(key_of(out[n + (i - n)].0) == key_of(self.hash@[i - n].0));
                assert(key_of(out[n + (j - n)].0) == key_of(self.hash@[j - n].0));
            } else if i < n {
                assert(key_of(out[n + (j - n)].0) == key_of(self.hash@[j - n].0));
                assert(!(self.hash@[j - n].0 matches Value::Integer(x) && 1 <= x <= n + 1));
            } else {
                assert(key_of(out[n + (i - n)].0) == key_of(self.hash@[i - n].0));
                assert(!(self.hash@[i - n].0 matches Value::Integer(x) && 1 <= x <= n + 1));
            }
        }
    }

    /// Removes every entry (raw); fails on a readonly table.
    pub fn clear(&mut self) -> (r: Result<(), Error>)
        requires
            old(self).wf(),
        ensures
            final(self).wf(),
            final(self).spec_id() == old(self).spec_id(),
            final(self).spec_readonly() == old(self).spec_readonly(),
            final(self).spec_metatable() == old(self).spec_metatable(),
            r is Ok <==> !old(self).spec_readonly(),
            r is Ok ==> final(self)@ == Map::<Key, Value>::empty(),
            r matches Err(e) ==> spec_readonly_error(e) && final(self)@ == old(self)@,
    {
        if self.readonly {
            return Err(Error::runtime("attempt to modify a readonly table"));
        }
        self.array = Vec::new();
        self.hash = Vec::new();
        assert(self@ =~= Map::<Key, Value>::empty());
        Ok(())
    }

    /// The metatable of the table, by identity.
    pub fn metatable(&self) -> (r: Option<ObjectId>)
        ensures
            r == self.spec_metatable(),
    {
        self.metatable
    }

    /// Sets or removes the metatable; fails on a readonly table.
    pub fn set_metatable(&mut self, metatable: Option<ObjectId>) -> (r: Result<(), Error>)
        requires
            old(self).wf(),
        ensures
            final(self).wf(),
            final(self)@ == old(self)@,
            final(self).spec_id() == old(self).spec_id(),
            final(self).spec_readonly() == old(self).spec_readonly(),
            final(self).spec_raw_len() == old(self).spec_raw_len(),
            final(self).spec_size() == old(self).spec_size(),
            r is Ok <==> !old(self).spec_readonly(),
            r is Ok ==> final(self).spec_metatable() == metatable,
            r matches Err(e) ==> spec_readonly_error(e) && final(self).spec_metatable() == old(self).spec_metatable(),
    {
        if self.readonly {
            return Err(Error::runtime("attempt to modify a readonly table"));
        }
        self.metatable = metatable;
        Ok(())
    }

    /// Whether two handles refer to the same table (identity, no `__eq`).
    pub fn equals(&self, other: &Table) -> (r: bool)
        ensures
            r == (self.spec_id() == other.spec_id()),
    {
        self.id.0 == other.id.0
    }

    /// Whether the table is readonly.
    pub fn is_readonly(&self) -> (r: bool)
        ensures
            r == self.spec_readonly(),
    {
        self.readonly
    }

    /// Marks the table readonly or writable.
    pub fn set_readonly(&mut self, enabled: bool)
        requires
            old(self).wf(),
        ensures
            final(self).wf(),
            final(self)@ == old(self)@,
            final(self).spec_readonly() == enabled,
            final(self).spec_id() == old(self).spec_id(),
            final(self).spec_metatable() == old(self).spec_metatable(),
            final(self).spec_raw_len() == old(self).spec_raw_len(),
            final(self).spec_size() == old(self).spec_size(),
    {
        self.readonly = enabled;
    }

    /// The identity of the table, for identity comparison.
    pub fn to_pointer(&self) -> (r: ObjectId)
        ensures
            r == self.spec_id(),
    {
        self.id
    }
}

/// A raw write is read back: the written key holds the value (or nothing,
/// for `nil`), and every other key keeps its entry.
pub proof fn law_raw_set_read_back(m: Map<Key, Value>, k: Key, v: Value)
    ensures
        spec_after_set(m, k, v).get(k) == (if v is Nil { None } else { Some(v) }),
        forall|q: Key| q != k ==> #[trigger] spec_after_set(m, k, v).get(q) == m.get(q),
{
}

/// Removing what was just inserted restores the table: inserting a value at
/// `idx` of a sequence of length `n` (with nothing at `n + 1`) and removing
/// position `idx` of the longer sequence gives the table back.
pub proof fn law_insert_then_remove(m: Map<Key, Value>, n: int, idx: int, v: Value)
    requires
        0 <= n < i64::MAX - 1,
        1 <= idx <= n + 1,
        !(v is Nil),
        !m.contains_key(Key::Integer((n + 1) as i64)),
    ensures
        spec_removed(spec_inserted(m, n, idx, v), n + 1, idx) == m,
{
    let ins = spec_inserted(m, n, idx, v);
    let rem = spec_removed(ins, n + 1, idx);
    assert forall|q: Key| #[trigger] rem.get(q) == m.get(q) by {
        if let Key::Integer(j) = q {
            if idx <= j <= n {
                let p = Key::Integer((j + 1) as i64);
                assert(ins.get(p) == spec_inserted_at(m, n, idx, v, p));
                assert(spec_inserted_at(m, n, idx, v, p) == m.get(Key::Integer(j)));
            } else if j == n + 1 {
            } else {
                assert(ins.get(q) == spec_inserted_at(m, n, idx, v, q));
            }
        } else {
            assert(ins.get(q) == spec_inserted_at(m, n, idx, v, q));
        }
    }
    assert(rem =~= m) by {
        assert forall|q: Key| #[trigger] rem.contains_key(q) == m.contains_key(q) by {
            assert(rem.get(q) == m.get(q));
        }
        assert forall|q: Key| rem.contains_key(q) implies #[trigger] rem[q] == m[q] by {
            assert(rem.get(q) == m.get(q));
        }
    }
}

} // verus!
