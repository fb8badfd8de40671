use ulua_rt::buffer::{create_buffer_with_capacity, SeekError, SeekFrom};
use ulua_rt::error::Error;
use ulua_rt::state::Lua;

#[test]
fn overlapping_write_moves_within_buffer() {
    let mut lua = Lua::new(1);
    let source = lua.create_buffer(b"abcdefg").unwrap();
    let sink = source.clone();
    let window = source.as_slice(&lua)[..3].to_vec();
    sink.write_bytes(&mut lua, 2, &window);
    assert_eq!(sink.to_vec(&lua), b"ababcfg");
    assert_eq!(source.to_vec(&lua), b"ababcfg");
}

#[test]
fn buffer_with_capacity_is_zeroed() {
    let mut lua = Lua::new(1);
    let b = lua.create_buffer_with_capacity(4).unwrap();
    assert_eq!(b.to_vec(&lua), vec![0u8, 0, 0, 0]);
    assert_eq!(b.len(&lua), 4);
    assert!(!b.is_empty(&lua));
    let e = lua.create_buffer_with_capacity(0).unwrap();
    assert!(e.is_empty(&lua));
    assert_ne!(b.to_pointer(), e.to_pointer());
}

#[test]
fn buffer_too_big_is_refused() {
    match create_buffer_with_capacity(1073741825) {
        Err(Error::RuntimeError(m)) => assert_eq!(m, "memory allocation error: block too big"),
        _ => panic!("expected a runtime error"),
    }
    let mut lua = Lua::new(1);
    match lua.create_buffer_with_capacity(1073741825) {
        Err(Error::RuntimeError(m)) => assert_eq!(m, "memory allocation error: block too big"),
        _ => panic!("expected a runtime error"),
    }
}

#[test]
fn buffer_write_then_read_back() {
    let mut lua = Lua::new(1);
    let b = lua.create_buffer(b"hello world").unwrap();
    b.write_bytes(&mut lua, 6, b"WORLD");
    assert_eq!(b.read_bytes(&lua, 6, 5), b"WORLD".to_vec());
    assert_eq!(b.read_bytes(&lua, 0, 5), b"hello".to_vec());
}

#[test]
fn cursor_reads_writes_and_seeks() {
    let mut lua = Lua::new(1);
    let b = lua.create_buffer(b"abcdef").unwrap();
    let mut c = b.cursor();
    assert_eq!(c.read(&lua, 2), b"ab".to_vec());
    assert_eq!(c.write(&mut lua, b"XY"), 2);
    assert_eq!(c.position, 4);
    assert_eq!(c.seek(&lua, SeekFrom::End(-1)), Ok(5));
    assert_eq!(c.read(&lua, 10), b"f".to_vec());
    assert_eq!(c.write(&mut lua, b"zz"), 0);
    assert_eq!(c.seek(&lua, SeekFrom::Current(-7)), Err(SeekError::NegativePosition));
    assert_eq!(c.seek(&lua, SeekFrom::Start(0)), Ok(0));
    assert_eq!(c.read(&lua, 6), b"abXYef".to_vec());
}

#[test]
fn cursor_over_a_clone_writes_the_shared_bytes() {
    let mut lua = Lua::new(1);
    let b = lua.create_buffer(b"hello").unwrap();
    let mut c = b.clone().cursor();
    assert_eq!(c.read(&lua, 8), b"hello".to_vec());
    assert_eq!(c.read(&lua, 8), Vec::<u8>::new());
    assert_eq!(c.write(&mut lua, b"x"), 0);
    assert_eq!(c.seek(&lua, SeekFrom::Start(1)), Ok(1));
    assert_eq!(c.write(&mut lua, b"EL"), 2);
    assert_eq!(b.to_vec(&lua), b"hELlo");
    assert_eq!(c.seek(&lua, SeekFrom::End(1)), Err(SeekError::BeyondEnd));
    assert_eq!(c.position, 3);
}

#[test]
fn writes_never_change_a_buffer_length() {
    let mut lua = Lua::new(1);
    let b = lua.create_buffer_with_capacity(8).unwrap();
    let c = b.clone();
    b.write_bytes(&mut lua, 0, b"abc");
    c.write_bytes(&mut lua, 5, b"xyz");
    b.write_bytes(&mut lua, 2, b"");
    c.write_bytes(&mut lua, 0, b"12345678");
    assert_eq!(b.len(&lua), 8);
    assert_eq!(c.len(&lua), 8);
    assert_eq!(b.to_vec(&lua), b"12345678");
}
