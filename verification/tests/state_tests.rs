use ulua_rt::error::{pop_error, Error, ErrorObject, TypeDiagnostic, STATUS_OUT_OF_MEMORY};
use ulua_rt::gc::{GcIncParams, GcMode};
use ulua_rt::options::{LuaOptions, StdLib};
use ulua_rt::state::{Lua, SandboxAction, SANDBOX_SAVED_GLOBALS_NAME};
use ulua_rt::value::{ObjectId, Value};

fn runtime_message(e: Error) -> String {
    match e {
        Error::RuntimeError(m) => m,
        other => panic!("expected a runtime error, got {:?}", other),
    }
}

fn as_int(v: &Value) -> i64 {
    match v {
        Value::Integer(i) => *i,
        _ => panic!("expected an integer, got {:?}", v),
    }
}

#[test]
fn registry_value_reads_back() {
    let mut lua = Lua::new(7);
    let key = lua.create_registry_value(Value::Integer(42)).unwrap();
    assert!(lua.owns_registry_value(&key));
    assert_eq!(as_int(&lua.registry_value(&key).unwrap()), 42);
    lua.replace_registry_value(&key, Value::Integer(43)).unwrap();
    assert_eq!(as_int(&lua.registry_value(&key).unwrap()), 43);
    let slot = key.slot();
    lua.remove_registry_value(key).unwrap();
    let other = Lua::new(7);
    let _ = other;
    let k2 = lua.create_registry_value(Value::Boolean(true)).unwrap();
    assert_ne!(k2.slot(), slot);
}

#[test]
fn registry_key_of_another_vm_is_refused() {
    let mut a = Lua::new(1);
    let b = Lua::new(2);
    let key = a.create_registry_value(Value::Integer(1)).unwrap();
    assert!(!b.owns_registry_value(&key));
    assert!(matches!(b.registry_value(&key), Err(Error::MismatchedRegistryKey)));
}

#[test]
fn named_registry_values() {
    let mut lua = Lua::new(1);
    lua.set_named_registry_value("answer", Value::Integer(42)).unwrap();
    assert_eq!(as_int(&lua.named_registry_value("answer").unwrap()), 42);
    lua.unset_named_registry_value("answer").unwrap();
    assert!(lua.named_registry_value("answer").unwrap().is_nil());
    let e = lua.set_named_registry_value("a\0b", Value::Integer(1)).unwrap_err();
    assert_eq!(runtime_message(e), "name contains a NUL byte");
}

#[test]
fn modules_register_and_resolve() {
    let mut lua = Lua::new(1);
    let e = lua.register_module("mymod", Value::Integer(1)).unwrap_err();
    assert_eq!(runtime_message(e), "module name must begin with '@'");
    lua.register_module("@My/Mod", Value::Integer(5)).unwrap();
    assert_eq!(as_int(&lua.require("@My/Mod").unwrap()), 5);
    assert_eq!(as_int(&lua.require("@my/mod").unwrap()), 5);
    assert_eq!(as_int(&lua.require("@MY/MOD").unwrap()), 5);
    lua.unload_module("@My/Mod").unwrap();
    let e = lua.require("@My/Mod").unwrap_err();
    assert_eq!(runtime_message(e), "module '@My/Mod' not found: module was not registered");
}

#[test]
fn app_data_set_borrow_and_remove() {
    let mut lua = Lua::new(1);
    assert_eq!(lua.try_set_app_data(1, Value::Integer(10)).unwrap().map(|v| as_int(&v)), None);
    assert_eq!(lua.try_set_app_data(1, Value::Integer(11)).unwrap().map(|v| as_int(&v)), Some(10));
    let g = lua.app_data_ref(1).unwrap();
    assert_eq!(as_int(lua.app_data_value(&g).unwrap()), 11);
    let e = lua.try_set_app_data(2, Value::Integer(1)).unwrap_err();
    assert_eq!(runtime_message(e), "cannot mutably borrow app data container");
    let e = lua.try_app_data_mut(1).unwrap_err();
    assert_eq!(runtime_message(e), "app data is currently borrowed");
    lua.release_app_data_ref(g);
    let m = lua.try_app_data_mut(1).unwrap().unwrap();
    let e = lua.try_app_data_ref(1).unwrap_err();
    assert_eq!(runtime_message(e), "app data is currently mutably borrowed");
    lua.set_app_data_value(&m, Value::Integer(12));
    lua.release_app_data_mut(m);
    assert!(lua.try_app_data_ref(3).unwrap().is_none());
    assert_eq!(lua.remove_app_data(1).map(|v| as_int(&v)), Some(12));
    assert!(lua.remove_app_data(1).is_none());
}

#[test]
fn gc_parameters_report_the_previous_mode() {
    let mut lua = Lua::new(1);
    let first = lua.gc_inc(150, 0, 2);
    match first {
        GcMode::Incremental(p) => {
            assert_eq!(p.get_goal(), Some(200));
            assert_eq!(p.get_step_multiplier(), Some(200));
            assert_eq!(p.get_step_size(), Some(1));
        },
        _ => panic!("incremental expected"),
    }
    let params = GcIncParams::new().goal(120).step_multiplier(300);
    assert_eq!(params.get_goal(), Some(120));
    assert_eq!(params.get_step_size(), None);
    let prev = lua.gc_set_mode(GcMode::Incremental(params));
    match prev {
        GcMode::Incremental(p) => {
            assert_eq!(p.get_goal(), Some(150));
            assert_eq!(p.get_step_multiplier(), Some(200));
            assert_eq!(p.get_step_size(), Some(2));
        },
        _ => panic!("incremental expected"),
    }
}

#[test]
fn memory_limit_and_categories() {
    let mut lua = Lua::new(1);
    assert_eq!(lua.set_memory_limit(1000).unwrap(), 0);
    assert_eq!(lua.set_memory_limit(2000).unwrap(), 1000);
    lua.set_memory_category("net_io").unwrap();
    lua.set_memory_category("main").unwrap();
    let e = lua.set_memory_category("bad name").unwrap_err();
    assert_eq!(runtime_message(e), "invalid memory category name: \"bad name\"");
    assert!(lua.set_memory_category("").is_err());
    for i in 0..253 {
        lua.set_memory_category(&format!("c{}", i)).unwrap();
    }
    let e = lua.set_memory_category("one_more").unwrap_err();
    assert_eq!(runtime_message(e), "too many memory categories (limit 254 user categories)");
    lua.set_memory_category("c0").unwrap();
}

#[test]
fn jit_and_fflags_are_refused() {
    let lua = Lua::new(1);
    let e = lua.enable_jit(true).unwrap_err();
    assert_eq!(runtime_message(e), "Luau JIT support is not enabled in this build (requires feature 'jit')");
    assert!(!lua.is_jit_enabled());
    let e = Lua::set_fflag("LuauFoo", true).unwrap_err();
    assert_eq!(runtime_message(e), "fflag 'LuauFoo' is not supported");
}

#[test]
fn new_with_options() {
    let lua = Lua::new_with(3, StdLib::none(), LuaOptions::new().catch_rust_panics(false)).unwrap();
    let _ = lua;
    assert!(StdLib::none().union(StdLib::math()).contains(StdLib::math()));
    assert!(StdLib::all().contains(StdLib::base()));
    assert!(StdLib::none().is_none());
    assert!(LuaOptions::new().catch_rust_panics);
}

fn diag(line: u32, message: &str, in_definitions: bool) -> TypeDiagnostic {
    TypeDiagnostic {
        module: None,
        line,
        column: 1,
        end_line: line,
        end_column: 2,
        message: message.to_string(),
        in_definitions,
    }
}

#[test]
fn definitions_accumulate() {
    let mut lua = Lua::new(1);
    lua.add_definitions("declare a: number", vec![diag(1, "script error", false)]).unwrap();
    lua.add_definitions("declare b: string", vec![]).unwrap();
    assert_eq!(lua.definitions(), b"declare a: number\ndeclare b: string");
    match lua.add_definitions("declare", vec![diag(1, "bad", true), diag(2, "ok", false)]) {
        Err(Error::TypeError(ds)) => {
            assert_eq!(ds.len(), 1);
            assert_eq!(ds[0].message, "bad");
        },
        _ => panic!("definition errors expected"),
    }
    assert_eq!(lua.combined_definitions("declare c: boolean"), b"declare a: number\ndeclare b: string\ndeclare c: boolean".to_vec());
}

#[test]
fn create_objects_get_fresh_identities() {
    let mut lua = Lua::new(1);
    let a = lua.create_table();
    let b = lua.create_table();
    assert!(!a.equals(&b));
    let f = lua.create_function().unwrap();
    let t = lua.create_thread(f).unwrap();
    assert!(t.is_resumable());
    let chunk = lua.load("return 1");
    assert_eq!(chunk.name(), "chunk");
    assert_eq!(chunk.chunk_name(), "=chunk");
}

#[test]
fn stdlib_selections_combine_with_or() {
    let both = StdLib::table() | StdLib::string();
    assert_eq!(both, StdLib(10));
    assert!(both.contains(StdLib::table()) && both.contains(StdLib::string()));
    assert!(!both.contains(StdLib::math()));
    assert!(!(StdLib::none() | StdLib::none()).contains(StdLib::math()));
    assert!((StdLib::none() | StdLib::none()).is_none());
}

#[test]
fn refused_app_data_write_keeps_every_value() {
    let mut lua = Lua::new(1);
    lua.set_app_data(1, Value::Integer(10));
    lua.set_app_data(2, Value::Integer(20));
    let g = lua.app_data_ref(2).unwrap();
    assert!(lua.try_set_app_data(1, Value::Integer(99)).is_err());
    assert!(lua.try_set_app_data(3, Value::Integer(99)).is_err());
    lua.release_app_data_ref(g);
    let a = lua.app_data_ref(1).unwrap();
    assert_eq!(as_int(lua.app_data_value(&a).unwrap()), 10);
    let b = lua.app_data_ref(2).unwrap();
    assert_eq!(as_int(lua.app_data_value(&b).unwrap()), 20);
    assert!(lua.app_data_ref(3).is_none());
    lua.release_app_data_ref(a);
    lua.release_app_data_ref(b);
}

#[test]
fn sequence_constructor_sets_length_and_no_metatable() {
    let mut lua = Lua::new(1);
    let t = lua.create_sequence_from(vec![Value::Integer(10), Value::Integer(20), Value::Integer(30)]).unwrap();
    assert_eq!(t.raw_len(), 3);
    assert!(t.metatable().is_none());
    let u = lua.create_table_from(vec![(Value::Integer(5), Value::Integer(1))]).unwrap();
    assert!(u.metatable().is_none());
}

#[test]
fn vms_made_apart_refuse_each_others_keys() {
    let mut a = Lua::new(1);
    let b = Lua::new(2);
    let k = a.create_registry_value(Value::Integer(3)).unwrap();
    assert!(a.owns_registry_value(&k));
    assert!(!b.owns_registry_value(&k));
    assert!(matches!(b.registry_value(&k), Err(Error::MismatchedRegistryKey)));
}

#[test]
fn registry_key_clones_share_one_slot() {
    let mut lua = Lua::new(1);
    let k = lua.create_registry_value(Value::Integer(3)).unwrap();
    let k2 = lua.clone_registry_key(&k);
    assert!(k2 == k);
    lua.remove_registry_value(k).unwrap();
    // the clone still holds the value
    assert!(matches!(lua.registry_value(&k2), Ok(Value::Integer(3))));
    let k3 = lua.clone_registry_key(&k2);
    lua.replace_registry_value(&k3, Value::Integer(4)).unwrap();
    assert!(matches!(lua.registry_value(&k2), Ok(Value::Integer(4))));
    lua.remove_registry_value(k3).unwrap();
    let probe = lua.clone_registry_key(&k2);
    lua.remove_registry_value(probe).unwrap();
    assert!(matches!(lua.registry_value(&k2), Ok(Value::Integer(4))));
    lua.remove_registry_value(k2).unwrap();
    let k4 = lua.create_registry_value(Value::Integer(5)).unwrap();
    assert!(matches!(lua.registry_value(&k4), Ok(Value::Integer(5))));
}

#[test]
fn sandbox_keeps_the_first_globals_and_restores_them_once() {
    let mut lua = Lua::new(1);
    assert!(!lua.is_sandboxed());
    assert!(matches!(lua.sandbox(true, ObjectId(9)), SandboxAction::Sandbox));
    assert!(lua.is_sandboxed());
    assert!(matches!(lua.named_registry_value(SANDBOX_SAVED_GLOBALS_NAME), Ok(Value::Table(ObjectId(9)))));
    // a second entry keeps the first saved globals
    assert!(matches!(lua.sandbox(true, ObjectId(10)), SandboxAction::Sandbox));
    assert!(matches!(lua.named_registry_value(SANDBOX_SAVED_GLOBALS_NAME), Ok(Value::Table(ObjectId(9)))));
    assert!(matches!(lua.sandbox(false, ObjectId(10)), SandboxAction::Restore(ObjectId(9))));
    assert!(!lua.is_sandboxed());
    assert!(matches!(lua.named_registry_value(SANDBOX_SAVED_GLOBALS_NAME), Ok(Value::Nil)));
    assert!(matches!(lua.sandbox(false, ObjectId(10)), SandboxAction::Nothing));
}

#[test]
fn failed_calls_become_errors() {
    match pop_error(2, ErrorObject::Text(b"boom".to_vec())) {
        Error::RuntimeError(m) => assert_eq!(m, "boom"),
        other => panic!("expected a runtime error, got {:?}", other),
    }
    match pop_error(STATUS_OUT_OF_MEMORY, ErrorObject::Text(b"whatever".to_vec())) {
        Error::MemoryError(m) => assert_eq!(m, "whatever"),
        other => panic!("expected a memory error, got {:?}", other),
    }
    match pop_error(3, ErrorObject::Text(b"not enough memory".to_vec())) {
        Error::MemoryError(m) => assert_eq!(m, "not enough memory"),
        other => panic!("expected a memory error, got {:?}", other),
    }
    match pop_error(2, ErrorObject::Other) {
        Error::RuntimeError(m) => assert_eq!(m, "<non-string error>"),
        other => panic!("expected a runtime error, got {:?}", other),
    }
    match pop_error(2, ErrorObject::Text(vec![0x61, 0xff])) {
        Error::RuntimeError(m) => assert_eq!(m, "a\u{fffd}"),
        other => panic!("expected a runtime error, got {:?}", other),
    }
    match pop_error(2, ErrorObject::Structured { cause: Error::CallbackDestructed, traceback: "tb".to_string() }) {
        Error::CallbackError { traceback, cause } => {
            assert_eq!(traceback, "tb");
            assert!(matches!(*cause, Error::CallbackDestructed));
        },
        other => panic!("expected a callback error, got {:?}", other),
    }
}
