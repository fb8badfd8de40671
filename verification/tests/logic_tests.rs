use ulua_rt::async_thread::{poll_report, poll_step, AsyncResume, AsyncThread, FuturePoll, FutureSlot, PollAnswer, PollReport, PollStart, PollStep};
use ulua_rt::callback::{callback_action, panic_error_message, CallbackAction};
use ulua_rt::chunk::{compile_result, contains_text, expression_source, ChunkMode};
use ulua_rt::compiler::{c_string, Compiler};
use ulua_rt::conversion::{char_from_lua, string_from_lua, bool_from_lua, first_value, int_from_lua, lua_string_from_lua, result_into_lua_multi, u64_into_lua, IntRead};
use ulua_rt::debug::{parse_what, DebugWhat};
use ulua_rt::error::{Error, OutsideError, TypeDiagnostic};
use ulua_rt::function::{concat_bound, reported_source, FunctionInfo};
use ulua_rt::interrupt::{interrupt_action, InterruptAction, InterruptSlot, VmState};
use ulua_rt::memory::{allows_allocation, is_valid_category};
use ulua_rt::metamethod::MetaMethod;
use ulua_rt::multi::{MultiValue, Variadic};
use ulua_rt::string::{create_string, escape_bytes, lex_compare};
use ulua_rt::thread::{resume_outcome, status_from_codes, ResumeOutcome, ResumeRequest, Thread, ThreadStatus};
use ulua_rt::typecheck::{check_result, definition_errors, location_diagnostic};
use ulua_rt::userdata::{resolve_index, resolve_newindex, AnyUserData, IndexResolution, NewIndexResolution};
use ulua_rt::value::{LightUserData, ObjectId, Value};
use ulua_rt::state::Lua;
use ulua_rt::traits::{IntoLua, IntoLuaMulti};

fn as_int(v: &Value) -> i64 {
    match v {
        Value::Integer(i) => *i,
        _ => panic!("expected an integer, got {:?}", v),
    }
}

#[test]
fn truthiness_of_values() {
    assert_eq!(bool_from_lua(Value::Nil).unwrap(), false);
    assert_eq!(bool_from_lua(Value::Boolean(false)).unwrap(), false);
    assert_eq!(bool_from_lua(Value::Boolean(true)).unwrap(), true);
    assert_eq!(bool_from_lua(Value::Integer(0)).unwrap(), true);
    assert_eq!(bool_from_lua(Value::String(create_string(b""))).unwrap(), true);
    assert!(matches!(bool_from_lua(Value::Error(Box::new(Error::CoroutineUnresumable))), Err(Error::CoroutineUnresumable)));
}

#[test]
fn integer_conversion_ranges() {
    match int_from_lua(Value::Integer(200), 0, 255, "u8").unwrap() {
        IntRead::Done(v) => assert_eq!(v, 200),
        _ => panic!("integer expected"),
    }
    match int_from_lua(Value::Integer(256), 0, 255, "u8").unwrap_err() {
        Error::FromLuaConversionError { from, to, message } => {
            assert_eq!(from, "number");
            assert_eq!(to, "u8");
            assert_eq!(message.as_deref(), Some("out of range"));
        },
        _ => panic!("conversion error expected"),
    }
    match int_from_lua(Value::Boolean(true), 0, 255, "u8").unwrap_err() {
        Error::FromLuaConversionError { from, message, .. } => {
            assert_eq!(from, "boolean");
            assert!(message.is_none());
        },
        _ => panic!("conversion error expected"),
    }
    assert!(matches!(int_from_lua(Value::String(create_string(b"12")), 0, 255, "u8"), Ok(IntRead::FromString(_))));
    assert!(matches!(u64_into_lua(u64::MAX, "u64"), Err(Error::ToLuaConversionError { .. })));
    assert_eq!(as_int(&u64_into_lua(5, "u64").unwrap()), 5);
}

#[test]
fn strings_from_values() {
    assert_eq!(lua_string_from_lua(Value::Integer(-12)).unwrap().as_bytes(), b"-12");
    assert_eq!(lua_string_from_lua(Value::String(create_string(b"x"))).unwrap().as_bytes(), b"x");
    assert!(lua_string_from_lua(Value::Nil).is_err());
}

#[test]
fn result_spreads_into_values() {
    let ok = result_into_lua_multi(Ok(MultiValue::from_vec(vec![Value::Integer(1)])));
    assert_eq!(ok.len(), 1);
    let err = result_into_lua_multi(Err(Error::runtime("boom"))).into_vec();
    assert_eq!(err.len(), 2);
    assert!(err[0].is_nil());
    assert!(matches!(&err[1], Value::Error(_)));
    assert!(first_value(MultiValue::new()).is_nil());
    assert_eq!(as_int(&first_value(MultiValue::from_vec(vec![Value::Integer(3), Value::Integer(4)]))), 3);
}

#[test]
fn multi_value_round_trip() {
    assert_eq!(MultiValue::default().len(), 0);
    let v = vec![Value::Integer(1), Value::Nil, Value::Integer(3)];
    let m = MultiValue::from_vec(v);
    assert_eq!(m.len(), 3);
    let back = m.into_vec();
    assert_eq!(as_int(&back[0]), 1);
    assert!(back[1].is_nil());
    assert_eq!(as_int(&back[2]), 3);
    let mut m = MultiValue::with_capacity(2);
    m.push_back(Value::Integer(2));
    m.push_front(Value::Integer(1));
    assert_eq!(as_int(&m.pop_front().unwrap()), 1);
    assert_eq!(as_int(&m.pop_back().unwrap()), 2);
    assert!(m.is_empty());
    let mut v: Variadic<u8> = Variadic::new();
    v.push(1);
    assert_eq!(v.into_vec(), vec![1u8]);
}

#[test]
fn thread_status_from_codes() {
    assert_eq!(status_from_codes(true, 0, 1, 0), ThreadStatus::Running);
    assert_eq!(status_from_codes(false, 6, 2, 0), ThreadStatus::Resumable);
    assert_eq!(status_from_codes(false, 1, 1, 0), ThreadStatus::Resumable);
    assert_eq!(status_from_codes(false, 0, 2, 0), ThreadStatus::Normal);
    assert_eq!(status_from_codes(false, 0, 3, 0), ThreadStatus::Finished);
    assert_eq!(status_from_codes(false, 2, 4, 0), ThreadStatus::Error);
    assert_eq!(status_from_codes(false, 0, 9, 1), ThreadStatus::Resumable);
    assert_eq!(status_from_codes(false, 0, 9, 0), ThreadStatus::Finished);
    assert!(matches!(resume_outcome(2), ResumeOutcome::Failed));
    assert!(matches!(resume_outcome(6), ResumeOutcome::Interrupted));
    assert!(matches!(resume_outcome(1), ResumeOutcome::Produced));
}

#[test]
fn thread_resume_and_reset_rules() {
    let t = Thread::new(ObjectId(1), ThreadStatus::Finished);
    assert!(t.is_finished());
    assert!(matches!(t.resume(MultiValue::new()), Err(Error::CoroutineUnresumable)));
    let t = Thread::new(ObjectId(1), ThreadStatus::Resumable);
    assert!(matches!(t.resume_error(Value::Nil), Ok(ResumeRequest::RaiseError(_))));
    let mut r = Thread::new(ObjectId(2), ThreadStatus::Running);
    match r.reset(ObjectId(3)).unwrap_err() {
        Error::RuntimeError(m) => assert_eq!(m, "cannot reset a running thread"),
        _ => panic!("runtime error expected"),
    }
    let mut e = Thread::new(ObjectId(2), ThreadStatus::Error);
    e.reset(ObjectId(3)).unwrap();
    assert!(e.is_resumable());
}

#[test]
fn async_driver_answers() {
    let mut a = AsyncThread::new(ObjectId(1), MultiValue::from_vec(vec![Value::Integer(5)]));
    match a.poll_start() {
        PollStart::Resume(args) => assert_eq!(args.len(), 1),
        _ => panic!("resume expected"),
    }
    match a.poll_start() {
        PollStart::Resume(args) => assert_eq!(args.len(), 0),
        _ => panic!("resume expected"),
    }
    assert!(matches!(a.future_answer(AsyncResume::Yielded(MultiValue::new())), PollAnswer::WakeAndPending));
    assert!(matches!(a.future_answer(AsyncResume::Pending), PollAnswer::Pending));
    assert!(matches!(a.future_answer(AsyncResume::Returned(MultiValue::new())), PollAnswer::Ready(Ok(_))));
    assert!(matches!(a.poll_start(), PollStart::AlreadyDone));
    let mut s = AsyncThread::new(ObjectId(1), MultiValue::new());
    assert!(matches!(s.stream_answer(AsyncResume::Yielded(MultiValue::new())), PollAnswer::Ready(Ok(_))));
    assert!(matches!(s.stream_answer(AsyncResume::Failed(Error::runtime("x"))), PollAnswer::Ready(Err(_))));
    assert!(matches!(s.poll_start(), PollStart::AlreadyDone));
    assert!(matches!(AsyncThread::stream_done_answer(), PollAnswer::End));
}

#[test]
fn userdata_borrow_rules() {
    let mut u = AnyUserData::new(ObjectId(1), Some(7), Value::Integer(3));
    assert!(u.is(7));
    assert!(!u.is(8));
    assert!(matches!(u.borrow(8), Err(Error::UserDataTypeMismatch)));
    let g = u.borrow(7).unwrap();
    assert_eq!(as_int(u.read(&g).unwrap()), 3);
    assert!(matches!(u.borrow_mut(7), Err(Error::UserDataBorrowMutError)));
    assert!(matches!(u.take(7), Err(Error::UserDataBorrowMutError)));
    u.release(g);
    let m = u.borrow_mut(7).unwrap();
    assert!(matches!(u.borrow(7), Err(Error::UserDataBorrowError)));
    u.write(&m, Value::Integer(4));
    u.release_mut(m);
    assert_eq!(as_int(&u.take(7).unwrap()), 4);
    assert!(matches!(u.borrow(7), Err(Error::UserDataDestructed)));
    assert!(!u.is(7));
}

#[test]
fn userdata_field_resolution() {
    assert!(matches!(resolve_index(true, Some(ObjectId(1)), Value::Integer(2), None), IndexResolution::Getter(_)));
    assert!(matches!(resolve_index(false, Some(ObjectId(1)), Value::Integer(2), None), IndexResolution::Method(_)));
    assert!(matches!(resolve_index(true, None, Value::Nil, Some(ObjectId(3))), IndexResolution::UserIndex(_)));
    assert!(matches!(resolve_index(true, None, Value::Nil, None), IndexResolution::Nil));
    assert!(matches!(resolve_newindex(Some(ObjectId(1)), Some(ObjectId(2)), "x"), Ok(NewIndexResolution::Setter(_))));
    match resolve_newindex(None, None, "size").unwrap_err() {
        Error::RuntimeError(m) => assert_eq!(m, "attempt to set unknown field 'size' on userdata"),
        _ => panic!("runtime error expected"),
    }
}

#[test]
fn metamethod_names() {
    assert_eq!(MetaMethod::Add.name(), "__add");
    assert_eq!(MetaMethod::IDiv.name(), "__idiv");
    assert_eq!(MetaMethod::NewIndex.name(), "__newindex");
    assert_eq!(MetaMethod::ToString.name(), "__tostring");
    assert_eq!(MetaMethod::from_str("index"), Some(MetaMethod::Index));
    assert_eq!(MetaMethod::from_str("__index"), None);
    assert!(MetaMethod::Len.is_named("__len"));
}

#[test]
fn debug_records() {
    assert_eq!(parse_what(b"Lua"), DebugWhat::Lua);
    assert_eq!(parse_what(b"main"), DebugWhat::Main);
    assert_eq!(parse_what(b"C"), DebugWhat::C);
    assert_eq!(parse_what(b"tail"), DebugWhat::Unknown);
    let d = ulua_rt::debug::Debug::from_report(Some("f".to_string()), b"Lua", None, None, -1, 0);
    assert_eq!(d.current_line(), None);
    assert_eq!(d.line_defined(), None);
    assert_eq!(d.name(), Some("f"));
    let d = ulua_rt::debug::Debug::from_report(None, b"main", None, None, 0, 3);
    assert_eq!(d.current_line(), Some(0));
    assert_eq!(d.line_defined(), Some(3));
}

#[test]
fn function_sources_and_bound_args() {
    assert_eq!(reported_source("Lua", "=chunk"), "chunk");
    assert_eq!(reported_source("main", "@file.lua"), "file.lua");
    assert_eq!(reported_source("C", "=[C]"), "=[C]");
    assert_eq!(reported_source("Lua", "plain"), "plain");
    let info = FunctionInfo::from_report(None, "Lua".to_string(), Some("=x"), None, 0, 0, 1, true);
    assert_eq!(info.source.as_deref(), Some("x"));
    assert_eq!(info.line_defined, None);
    let bound = vec![Value::Integer(1)];
    let all = concat_bound(&bound, MultiValue::from_vec(vec![Value::Integer(2)])).into_vec();
    assert_eq!(all.len(), 2);
    assert_eq!(as_int(&all[0]), 1);
    assert_eq!(as_int(&all[1]), 2);
}

#[test]
fn interrupt_slot_and_actions() {
    assert!(matches!(interrupt_action(Ok(VmState::Continue), true), InterruptAction::Continue));
    assert!(matches!(interrupt_action(Ok(VmState::Yield), true), InterruptAction::Break));
    assert!(matches!(interrupt_action(Ok(VmState::Yield), false), InterruptAction::Continue));
    match interrupt_action(Err(Error::runtime("stop")), true) {
        InterruptAction::Raise(m) => assert_eq!(m, "stop"),
        _ => panic!("raise expected"),
    }
    match interrupt_action(Err(Error::CoroutineUnresumable), true) {
        InterruptAction::Raise(m) => assert_eq!(m, "cannot resume this coroutine"),
        _ => panic!("raise expected"),
    }
    let mut slot = InterruptSlot::new();
    slot.set_interrupt(1);
    let (cb, rev) = slot.take_for_call();
    assert_eq!(cb, Some(1));
    slot.restore_if_untouched(1, rev);
    let (cb2, rev2) = slot.take_for_call();
    assert_eq!(cb2, Some(1));
    slot.set_interrupt(2);
    slot.restore_if_untouched(1, rev2);
    assert_eq!(slot.take_for_call().0, Some(2));
}

#[test]
fn memory_decisions() {
    assert!(allows_allocation(0, 1000, 0, 1000));
    assert!(allows_allocation(100, 1000, 50, 10));
    assert!(!allows_allocation(100, 90, 0, 20));
    assert!(allows_allocation(100, 90, 0, 10));
    assert!(allows_allocation(100, 90, 20, 30));
    assert!(is_valid_category(b"net_io2"));
    assert!(!is_valid_category(b"net-io"));
    assert!(!is_valid_category(b""));
}

#[test]
fn error_texts() {
    assert_eq!(Error::runtime("x").text(), "runtime error: x");
    assert_eq!(Error::MemoryError("oom".to_string()).text(), "memory error: oom");
    assert_eq!(
        Error::FromLuaConversionError { from: "nil", to: "u8".to_string(), message: Some("why".to_string()) }.text(),
        "error converting Lua nil to u8 (why)"
    );
    assert_eq!(
        Error::ToLuaConversionError { from: "u64", to: "integer", message: None }.text(),
        "error converting u64 to Lua integer"
    );
    let cb = Error::CallbackError { traceback: "trace".to_string(), cause: Box::new(Error::runtime("inner")) };
    assert_eq!(cb.text(), "runtime error: inner\ntrace");
    let d = TypeDiagnostic {
        module: Some("m".to_string()),
        line: 2,
        column: 5,
        end_line: 2,
        end_column: 6,
        message: "bad".to_string(),
        in_definitions: true,
    };
    assert_eq!(d.text(), "(host definitions) m:2:5: bad");
    assert_eq!(Error::TypeError(vec![d]).text(), "type error(s):\n  (host definitions) m:2:5: bad");
    assert_eq!(Error::external(OutsideError::Other("io".to_string())).text(), "io");
    // an error of the runtime passes through, not wrapped again
    match Error::external(OutsideError::Runtime(Error::runtime("inner"))) {
        Error::RuntimeError(m) => assert_eq!(m, "inner"),
        other => panic!("expected the runtime error itself, got {:?}", other),
    }
}

#[test]
fn typecheck_results() {
    let d = location_diagnostic(None, 0, 0, 1, 4, "m".to_string(), false);
    assert_eq!((d.line, d.column, d.end_line, d.end_column), (1, 1, 2, 5));
    assert!(check_result(vec![]).is_ok());
    assert!(matches!(check_result(vec![d]), Err(Error::TypeError(_))));
    let kept = definition_errors(vec![
        location_diagnostic(None, 0, 0, 0, 0, "a".to_string(), true),
        location_diagnostic(None, 0, 0, 0, 0, "b".to_string(), false),
    ]);
    assert_eq!(kept.len(), 1);
    assert_eq!(kept[0].message, "a");
}

#[test]
fn callbacks() {
    assert!(matches!(callback_action(Ok(MultiValue::new())), CallbackAction::Return(_)));
    assert!(matches!(callback_action(Err(Error::CallbackDestructed)), CallbackAction::RaiseStructured(_)));
    match callback_action(Err(Error::runtime("bad"))) {
        CallbackAction::Raise(m) => assert_eq!(m, "runtime error: bad"),
        _ => panic!("raise expected"),
    }
    assert_eq!(panic_error_message("oops"), "rust panic: oops");
}

#[test]
fn compiler_options_and_chunks() {
    assert_eq!(c_string(b"vec".to_vec()), Some(b"vec".to_vec()));
    assert_eq!(c_string(b"v\0c".to_vec()), None);
    let c = Compiler::new().set_mutable_globals(vec![b"a".to_vec(), b"b\0".to_vec(), b"c".to_vec()]);
    let _ = c;
    assert!(contains_text("expected 'end' got <eof>", "<eof>"));
    assert!(!contains_text("expected 'end'", "<eof>"));
    assert_eq!(expression_source("1 + 1"), "return 1 + 1");
    match compile_result(vec![0u8, 1, 2], "[string]:1: got <eof>") {
        Err(Error::SyntaxError { message, incomplete_input }) => {
            assert_eq!(message, "[string]:1: got <eof>");
            assert!(incomplete_input);
        },
        _ => panic!("syntax error expected"),
    }
    assert_eq!(compile_result(vec![4u8, 1], "").unwrap(), vec![4u8, 1]);
    assert_eq!(ChunkMode::Text, ChunkMode::Text);
}

#[test]
fn string_helpers() {
    assert_eq!(lex_compare(b"abc", b"abd"), -1);
    assert_eq!(lex_compare(b"ab", b"a"), 1);
    assert_eq!(lex_compare(b"", b""), 0);
    let s = create_string(b"a\xffb");
    assert!(s.to_str().is_err());
    assert_eq!(s.to_string_lossy(), "a\u{fffd}b");
    assert_eq!(s.display().text(), "a\u{fffd}b");
    assert_eq!(create_string(b"ok").to_str().unwrap(), "ok");
    let _ = escape_bytes(b"\n");
    let _ = LightUserData(0);
}

#[test]
fn strings_and_chars_from_values() {
    assert_eq!(string_from_lua(Value::String(create_string(b"abc"))).unwrap(), "abc");
    assert_eq!(string_from_lua(Value::Integer(-42)).unwrap(), "-42");
    assert!(matches!(
        string_from_lua(Value::Boolean(true)),
        Err(Error::FromLuaConversionError { from: "boolean", .. })
    ));
    assert!(string_from_lua(Value::String(create_string(&[0xc3]))).is_err());
    assert_eq!(char_from_lua(Value::Integer(65)).unwrap(), 'A');
    assert_eq!(char_from_lua(Value::String(create_string("é".as_bytes()))).unwrap(), 'é');
    match char_from_lua(Value::Integer(0xD800)) {
        Err(Error::FromLuaConversionError { from, message, .. }) => {
            assert_eq!(from, "number");
            assert_eq!(message.as_deref(), Some("integer out of range for a unicode char"));
        }
        other => panic!("unexpected {:?}", other),
    }
    match char_from_lua(Value::String(create_string(b"ab"))) {
        Err(Error::FromLuaConversionError { message, .. }) => {
            assert_eq!(message.as_deref(), Some("expected string to have exactly one char"));
        }
        other => panic!("unexpected {:?}", other),
    }
    match char_from_lua(Value::Nil) {
        Err(Error::FromLuaConversionError { from, message, .. }) => {
            assert_eq!(from, "nil");
            assert_eq!(message.as_deref(), Some("expected string or integer"));
        }
        other => panic!("unexpected {:?}", other),
    }
}

#[test]
fn strings_and_chars_into_values() {
    let lua = Lua::new(1);
    match 'ß'.into_lua(&lua).unwrap() {
        Value::String(s) => assert_eq!(s.as_bytes(), "ß".as_bytes()),
        other => panic!("unexpected {:?}", other),
    }
    match String::from("hey").into_lua(&lua).unwrap() {
        Value::String(s) => assert_eq!(s.as_bytes(), b"hey"),
        other => panic!("unexpected {:?}", other),
    }
    match "x".into_lua(&lua).unwrap() {
        Value::String(s) => assert_eq!(s.as_bytes(), b"x"),
        other => panic!("unexpected {:?}", other),
    }
}

#[test]
fn metamethod_text_names_read_back() {
    let all = [
        MetaMethod::Add, MetaMethod::Sub, MetaMethod::Mul, MetaMethod::Div, MetaMethod::Mod, MetaMethod::Pow,
        MetaMethod::Unm, MetaMethod::IDiv, MetaMethod::Concat, MetaMethod::Len, MetaMethod::Eq, MetaMethod::Lt,
        MetaMethod::Le, MetaMethod::Index, MetaMethod::NewIndex, MetaMethod::Call, MetaMethod::ToString,
        MetaMethod::Iter, MetaMethod::Type,
    ];
    for m in all {
        let name = m.name();
        assert!(name.starts_with("__"));
        assert_eq!(MetaMethod::from_str(&name[2..]), Some(m));
    }
}

#[test]
fn variadic_converts_in_order_and_stops_at_the_first_error() {
    use_variadic();
}

fn use_variadic() {
    let lua = Lua::new(9);
    let ok = Variadic::from_vec(vec![1u64, 2, 3]).into_lua_multi(&lua).unwrap().into_vec();
    assert_eq!(ok.iter().map(as_int).collect::<Vec<_>>(), vec![1, 2, 3]);
    let err = Variadic::from_vec(vec![1u64, u64::MAX, 2]).into_lua_multi(&lua).unwrap_err();
    assert!(matches!(err, Error::ToLuaConversionError { from: "u64", .. }));
    let some: Option<u64> = Some(7);
    assert!(matches!(some.into_lua(&lua), Ok(Value::Integer(7))));
    let none: Option<u64> = None;
    assert!(matches!(none.into_lua(&lua), Ok(Value::Nil)));
}

#[test]
fn poll_decisions() {
    let mut slot = FutureSlot::Future;
    assert!(matches!(poll_step(&mut slot, false), PollStep::PollFuture));
    assert!(matches!(poll_report(&mut slot, FuturePoll::Pending { with_values: false }), PollReport::Pending));
    assert!(matches!(poll_report(&mut slot, FuturePoll::Pending { with_values: true }), PollReport::PendingWithValues));
    let two = MultiValue::from_vec(vec![Value::Integer(1), Value::Integer(2)]);
    match poll_report(&mut slot, FuturePoll::Ready(Ok(two))) {
        PollReport::Values(v) => assert_eq!(v.len(), 2),
        other => panic!("expected two values, got {:?}", other),
    }
    let three = MultiValue::from_vec(vec![Value::Integer(1), Value::Integer(2), Value::Integer(3)]);
    match poll_report(&mut slot, FuturePoll::Ready(Ok(three))) {
        PollReport::Packed(v) => assert_eq!(v.len(), 3),
        other => panic!("expected a packed result, got {:?}", other),
    }
    match poll_report(&mut slot, FuturePoll::Ready(Err(Error::runtime("bad")))) {
        PollReport::Raise(m) => assert_eq!(m, "runtime error: bad"),
        other => panic!("expected a raise, got {:?}", other),
    }
    assert!(matches!(slot, FutureSlot::Future));
    // a panic drops the future: the next poll is refused as destructed
    match poll_report(&mut slot, FuturePoll::Panicked("boom".to_string())) {
        PollReport::Raise(m) => assert_eq!(m, "rust panic: boom"),
        other => panic!("expected a raise, got {:?}", other),
    }
    assert!(matches!(poll_step(&mut slot, false), PollStep::RaiseDestructed));
    // terminate parks and drops the future
    let mut slot = FutureSlot::Future;
    assert!(matches!(poll_step(&mut slot, true), PollStep::Park));
    assert!(matches!(poll_step(&mut slot, false), PollStep::RaiseDestructed));
    // a deferred conversion error surfaces at the first poll
    let mut slot = FutureSlot::Failed(Error::runtime("cannot convert"));
    match poll_step(&mut slot, false) {
        PollStep::Raise(m) => assert_eq!(m, "runtime error: cannot convert"),
        other => panic!("expected a raise, got {:?}", other),
    }
}
