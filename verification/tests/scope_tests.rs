use std::cell::RefCell;
use ulua_rt::error::Error;
use ulua_rt::function::Function;
use ulua_rt::scope::{Destructor, Scope};
use ulua_rt::state::Lua;
use ulua_rt::userdata::AnyUserData;
use ulua_rt::value::Value;

#[test]
fn scope_runs_destructors_last_first() {
    let mut lua = Lua::new(1);
    let mut s = Scope::new();
    let f = s.create_function(&mut lua, 10).unwrap();
    let u = s.create_userdata(&mut lua, Value::Integer(5)).unwrap();
    s.add_destructor(3);
    let order = s.end();
    assert_eq!(order, vec![Destructor::Custom(3), Destructor::UserData(u.to_pointer()), Destructor::Callback(f.id)]);
}

#[test]
fn scope_objects_work_inside_and_are_destructed_after() {
    let mut lua = Lua::new(1);
    let ran = RefCell::new(Vec::new());
    let mut made: Option<(Function, Function, AnyUserData)> = None;
    let r = lua.scope(
        |lua: &mut Lua, scope: &mut Scope| {
            let f = scope.create_function(lua, 10)?;
            assert_eq!(lua.enter_callback(&f).unwrap(), Some(10));
            lua.leave_callback(&f);
            let g = scope.create_function_mut(lua, 11)?;
            assert_eq!(lua.enter_callback(&g).unwrap(), Some(11));
            // re-entering a running mutable callback is refused
            assert!(matches!(lua.enter_callback(&g), Err(Error::RecursiveMutCallback)));
            lua.leave_callback(&g);
            assert_eq!(lua.enter_callback(&g).unwrap(), Some(11));
            lua.leave_callback(&g);
            let mut u = scope.create_userdata(lua, Value::Integer(5))?;
            assert!(matches!(lua.userdata_value(&u), Ok(Value::Integer(5))));
            // a scoped userdata carries no type id: reading it by type is a mismatch
            assert_eq!(u.type_id(), None);
            assert!(matches!(u.borrow(1), Err(Error::UserDataTypeMismatch)));
            scope.add_destructor(7);
            scope.add_destructor(8);
            made = Some((f, g, u));
            Ok(42)
        },
        |hosts: Vec<u64>| ran.borrow_mut().extend(hosts),
    );
    assert_eq!(r.unwrap(), 42);
    assert_eq!(*ran.borrow(), vec![8, 7]);
    let (f, g, u) = made.unwrap();
    assert!(matches!(lua.enter_callback(&f), Err(Error::CallbackDestructed)));
    assert!(matches!(lua.enter_callback(&g), Err(Error::CallbackDestructed)));
    assert!(matches!(lua.userdata_value(&u), Err(Error::UserDataDestructed)));
    // a function not made by a scope is called as usual
    let h = lua.create_function().unwrap();
    assert_eq!(lua.enter_callback(&h).unwrap(), None);
}

#[test]
fn scope_returns_the_closure_error_and_still_ends() {
    let mut lua = Lua::new(1);
    let mut made: Option<Function> = None;
    let r: Result<(), Error> = lua.scope(
        |lua: &mut Lua, scope: &mut Scope| {
            made = Some(scope.create_function(lua, 1)?);
            Err(Error::runtime("stop"))
        },
        |_: Vec<u64>| {},
    );
    match r {
        Err(Error::RuntimeError(m)) => assert_eq!(m, "stop"),
        other => panic!("expected the closure's error, got {:?}", other),
    }
    assert!(matches!(lua.enter_callback(&made.unwrap()), Err(Error::CallbackDestructed)));
}

#[test]
fn scope_hands_host_destructors_once_last_first_even_on_error() {
    let mut lua = Lua::new(1);
    let log = RefCell::new(Vec::new());
    let r: Result<(), Error> = lua.scope(
        |_: &mut Lua, scope: &mut Scope| {
            scope.add_destructor(1);
            scope.add_destructor(2);
            Err(Error::runtime("stop"))
        },
        |hosts: Vec<u64>| log.borrow_mut().extend(hosts),
    );
    assert!(matches!(r, Err(Error::RuntimeError(ref m)) if m == "stop"));
    assert_eq!(*log.borrow(), vec![2, 1]);
}

#[test]
fn scoped_userdata_starts_unborrowed_with_its_value() {
    let mut lua = Lua::new(1);
    let mut s = Scope::new();
    let u = s.create_userdata(&mut lua, Value::Integer(9)).unwrap();
    assert!(matches!(u.type_id(), None));
    assert!(matches!(lua.userdata_value(&u), Ok(Value::Integer(9))));
}
