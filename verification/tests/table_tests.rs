use ulua_rt::error::Error;
use ulua_rt::state::Lua;
use ulua_rt::string::create_string;
use ulua_rt::table::Table;
use ulua_rt::value::{ObjectId, Value};

fn as_int(v: &Value) -> i64 {
    match v {
        Value::Integer(i) => *i,
        _ => panic!("expected an integer, got {:?}", v),
    }
}

fn seq(t: &Table) -> Vec<i64> {
    t.sequence_values().iter().map(as_int).collect()
}

fn runtime_message(e: Error) -> String {
    match e {
        Error::RuntimeError(m) => m,
        other => panic!("expected a runtime error, got {:?}", other),
    }
}

#[test]
fn raw_set_then_raw_get() {
    let mut lua = Lua::new(1);
    let mut t = lua.create_table();
    let key = Value::String(create_string(b"name"));
    t.raw_set(key.clone(), Value::Integer(7)).unwrap();
    assert_eq!(as_int(&t.raw_get(&key)), 7);
    assert!(t.contains_key(&key, &vec![], |_, _| Ok(Value::Nil)).unwrap());
    t.raw_set(key.clone(), Value::Nil).unwrap();
    assert!(t.raw_get(&key).is_nil());
    assert!(!t.contains_key(&key, &vec![], |_, _| Ok(Value::Nil)).unwrap());
    assert!(t.raw_get(&Value::Nil).is_nil());
}

#[test]
fn raw_len_counts_the_sequence() {
    let mut lua = Lua::new(1);
    let mut t = lua.create_table();
    assert_eq!(t.raw_len(), 0);
    t.raw_set(Value::Integer(2), Value::Integer(20)).unwrap();
    assert_eq!(t.raw_len(), 0);
    t.raw_set(Value::Integer(1), Value::Integer(10)).unwrap();
    assert_eq!(t.raw_len(), 2);
    t.raw_set(Value::Integer(3), Value::Integer(30)).unwrap();
    assert_eq!(seq(&t), vec![10, 20, 30]);
    t.raw_set(Value::Integer(2), Value::Nil).unwrap();
    assert_eq!(t.raw_len(), 1);
    assert_eq!(as_int(&t.raw_get(&Value::Integer(3))), 30);
}

#[test]
fn raw_push_and_raw_pop() {
    let mut lua = Lua::new(1);
    let mut t = lua.create_table();
    t.raw_push(Value::Integer(1)).unwrap();
    t.raw_push(Value::Integer(2)).unwrap();
    assert_eq!(seq(&t), vec![1, 2]);
    assert_eq!(as_int(&t.raw_pop().unwrap()), 2);
    assert_eq!(as_int(&t.raw_pop().unwrap()), 1);
    assert!(t.raw_pop().unwrap().is_nil());
    assert!(t.is_empty());
}

#[test]
fn raw_insert_shifts_up() {
    let mut lua = Lua::new(1);
    let mut t = lua.create_sequence_from(vec![Value::Integer(1), Value::Integer(2), Value::Integer(3)]).unwrap();
    t.raw_insert(2, Value::Integer(9)).unwrap();
    assert_eq!(seq(&t), vec![1, 9, 2, 3]);
    t.raw_insert(5, Value::Integer(4)).unwrap();
    assert_eq!(seq(&t), vec![1, 9, 2, 3, 4]);
    let e = t.raw_insert(7, Value::Integer(0)).unwrap_err();
    assert_eq!(runtime_message(e), "bad argument #2 to 'insert' (position out of bounds): 7");
    let e = t.raw_insert(0, Value::Integer(0)).unwrap_err();
    assert_eq!(runtime_message(e), "bad argument #2 to 'insert' (position out of bounds): 0");
}

#[test]
fn raw_insert_nil_leaves_a_hole() {
    let mut lua = Lua::new(1);
    let mut t = lua.create_sequence_from(vec![Value::Integer(1), Value::Integer(2)]).unwrap();
    t.raw_insert(1, Value::Nil).unwrap();
    assert!(t.raw_get(&Value::Integer(1)).is_nil());
    assert_eq!(as_int(&t.raw_get(&Value::Integer(2))), 1);
    assert_eq!(as_int(&t.raw_get(&Value::Integer(3))), 2);
    assert_eq!(t.raw_len(), 0);
}

#[test]
fn raw_remove_shifts_down() {
    let mut lua = Lua::new(1);
    let mut t = lua.create_sequence_from(vec![Value::Integer(1), Value::Integer(2), Value::Integer(3)]).unwrap();
    assert_eq!(as_int(&t.raw_remove(1).unwrap()), 1);
    assert_eq!(seq(&t), vec![2, 3]);
    let e = t.raw_remove(3).unwrap_err();
    assert_eq!(runtime_message(e), "bad argument #1 to 'remove' (position out of bounds): 3");
    assert_eq!(as_int(&t.raw_remove(2).unwrap()), 3);
    assert_eq!(as_int(&t.raw_remove(1).unwrap()), 2);
    assert!(t.raw_remove(5).unwrap().is_nil());
}

#[test]
fn readonly_table_refuses_writes() {
    let mut lua = Lua::new(1);
    let mut t = lua.create_sequence_from(vec![Value::Integer(1)]).unwrap();
    t.set_readonly(true);
    assert!(t.is_readonly());
    let e = t.raw_set(Value::Integer(2), Value::Integer(2)).unwrap_err();
    assert_eq!(runtime_message(e), "attempt to modify a readonly table");
    assert!(t.raw_push(Value::Integer(2)).is_err());
    assert!(t.raw_pop().is_err());
    assert!(t.clear().is_err());
    assert!(t.set_metatable(Some(ObjectId(9))).is_err());
    assert_eq!(seq(&t), vec![1]);
}

#[test]
fn pairs_lists_every_entry_once() {
    let mut lua = Lua::new(1);
    let pairs = vec![
        (Value::Integer(1), Value::Integer(10)),
        (Value::String(create_string(b"k")), Value::Boolean(true)),
        (Value::Integer(5), Value::Integer(50)),
        (Value::Integer(1), Value::Integer(11)),
    ];
    let t = lua.create_table_from(pairs).unwrap();
    let entries = t.pairs();
    assert_eq!(entries.len(), 3);
    assert_eq!(as_int(&t.raw_get(&Value::Integer(1))), 11);
    assert_eq!(t.raw_len(), 1);
}

#[test]
fn clear_and_identity() {
    let mut lua = Lua::new(1);
    let mut t = lua.create_sequence_from(vec![Value::Integer(1), Value::Integer(2)]).unwrap();
    let u = lua.create_table();
    assert!(!t.equals(&u));
    assert!(t.equals(&t));
    t.clear().unwrap();
    assert!(t.is_empty());
    assert_eq!(t.metatable(), None);
    t.set_metatable(Some(ObjectId(42))).unwrap();
    assert_eq!(t.metatable(), Some(ObjectId(42)));
}

#[test]
fn for_each_value_visits_the_sequence_and_stops_at_an_error() {
    let mut t = Table::empty(ObjectId(40));
    for i in 1..=4 {
        t.raw_set(Value::Integer(i), Value::Integer(i * 10)).unwrap();
    }
    let mut seen = Vec::new();
    t.for_each_value(|v| {
        if let Value::Integer(i) = v {
            seen.push(i);
        }
        Ok(())
    })
    .unwrap();
    assert_eq!(seen, vec![10, 20, 30, 40]);
    let mut calls = 0;
    let r = t.for_each_value(|v| {
        calls += 1;
        match v {
            Value::Integer(30) => Err(Error::RuntimeError("stop".to_string())),
            _ => Ok(()),
        }
    });
    assert!(matches!(r, Err(Error::RuntimeError(ref m)) if m == "stop"));
    assert_eq!(calls, 3);
}

#[test]
fn for_each_visits_every_entry_once() {
    let mut t = Table::empty(ObjectId(41));
    t.raw_set(Value::Integer(1), Value::Boolean(true)).unwrap();
    t.raw_set(Value::String(create_string(b"k")), Value::Integer(5)).unwrap();
    t.raw_set(Value::Integer(9), Value::Integer(7)).unwrap();
    let mut count = 0;
    let mut sum = 0;
    t.for_each(|_, v| {
        count += 1;
        if let Value::Integer(i) = v {
            sum += i;
        }
        Ok(())
    })
    .unwrap();
    assert_eq!(count, 3);
    assert_eq!(sum, 12);
}

fn name(s: &str) -> Value {
    Value::String(create_string(s.as_bytes()))
}

#[test]
fn contains_key_reads_through_an_index_table() {
    let mut lua = Lua::new(1);
    let mut base = lua.create_table();
    base.raw_set(name("x"), Value::Integer(1)).unwrap();
    let mut mt = lua.create_table();
    mt.raw_set(name("__index"), Value::Table(base.to_pointer())).unwrap();
    let mut t = lua.create_table();
    t.set_metatable(Some(mt.to_pointer())).unwrap();
    t.raw_set(name("own"), Value::Integer(2)).unwrap();
    let tables = vec![mt, base];
    let never = |_: Value, _: Value| -> Result<Value, Error> { panic!("the VM is not asked") };
    assert!(t.contains_key(&name("own"), &tables, never).unwrap());
    assert!(t.contains_key(&name("x"), &tables, never).unwrap());
    assert!(!t.contains_key(&name("y"), &tables, never).unwrap());
    // without the metatable held, the read is left to the VM
    let asked = t.contains_key(&name("x"), &vec![], |recv, key| {
        assert!(matches!(recv, Value::Table(_)));
        assert!(matches!(key, Value::String(_)));
        Ok(Value::Integer(1))
    });
    assert!(asked.unwrap());
}

#[test]
fn contains_key_asks_the_vm_for_an_index_function() {
    let mut lua = Lua::new(1);
    let mut mt = lua.create_table();
    mt.raw_set(name("__index"), Value::Function(ObjectId(77))).unwrap();
    let mut t = lua.create_table();
    t.set_metatable(Some(mt.to_pointer())).unwrap();
    let tid = t.to_pointer();
    let tables = vec![mt];
    let found = t.contains_key(&name("k"), &tables, |recv, _| {
        assert!(matches!(recv, Value::Table(id) if id == tid));
        Ok(Value::Boolean(false))
    });
    assert!(found.unwrap());
    let nil = t.contains_key(&name("k"), &tables, |_, _| Ok(Value::Nil));
    assert!(!nil.unwrap());
    let failed = t.contains_key(&name("k"), &tables, |_, _| Err(Error::runtime("boom")));
    assert_eq!(runtime_message(failed.unwrap_err()), "boom");
}

#[test]
fn contains_key_reports_an_index_loop() {
    let mut lua = Lua::new(1);
    let mut mt = lua.create_table();
    let mut t = lua.create_table();
    mt.raw_set(name("__index"), Value::Table(t.to_pointer())).unwrap();
    t.set_metatable(Some(mt.to_pointer())).unwrap();
    let tables = vec![mt, t];
    let r = tables[1].contains_key(&name("missing"), &tables, |_, _| Ok(Value::Nil));
    assert_eq!(runtime_message(r.unwrap_err()), "'__index' chain too long; possible loop");
}

#[test]
fn get_reads_through_index_and_agrees_with_contains_key() {
    let mut lua = Lua::new(1);
    let mut base = lua.create_table();
    base.raw_set(name("x"), Value::Integer(1)).unwrap();
    let mut mt = lua.create_table();
    mt.raw_set(name("__index"), Value::Table(base.to_pointer())).unwrap();
    let mut t = lua.create_table();
    t.set_metatable(Some(mt.to_pointer())).unwrap();
    let tables = vec![mt, base];
    let never = |_: Value, _: Value| -> Result<Value, Error> { panic!("the VM is not asked") };
    assert_eq!(as_int(&t.get(&name("x"), &tables, never).unwrap()), 1);
    assert!(t.get(&name("y"), &tables, never).unwrap().is_nil());
    let boom = |_: Value, _: Value| -> Result<Value, Error> { Err(Error::runtime("boom")) };
    assert_eq!(runtime_message(t.get(&name("z"), &vec![], boom).unwrap_err()), "boom");
    assert_eq!(runtime_message(t.contains_key(&name("z"), &vec![], boom).unwrap_err()), "boom");
}
