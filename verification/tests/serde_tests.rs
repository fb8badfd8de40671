use std::cmp::Ordering;

use ulua_rt::error::Error;
use ulua_rt::serialize::de::{
    check_value_for_skip, encode_as_array, find_array_len, is_null, key_order, sort_cmp, AnyRead, Deserializer,
    Options as DeOptions,
};
use ulua_rt::serialize::ser::{null, Options as SerOptions, Serializer};
use ulua_rt::serialize::value_serialize::Emit;
use ulua_rt::state::Lua;
use ulua_rt::string::create_string;
use ulua_rt::table::Table;
use ulua_rt::value::{ObjectId, Value};

const NULL: ObjectId = ObjectId(900);
const ARRAY_MT: ObjectId = ObjectId(901);

fn text(s: &str) -> Value {
    Value::String(create_string(s.as_bytes()))
}

fn table(id: u64, entries: Vec<(Value, Value)>) -> Table {
    let mut t = Table::empty(ObjectId(id));
    for (k, v) in entries {
        t.raw_set(k, v).unwrap();
    }
    t
}

fn same(a: &Value, b: &Value) -> bool {
    format!("{:?}", a) == format!("{:?}", b)
}

fn message(e: Error) -> String {
    match e {
        Error::DeserializeError(m) => m,
        other => panic!("expected a deserialize error, got {:?}", other),
    }
}

#[test]
fn deserialize_options_defaults_and_builders() {
    let o = DeOptions::new();
    assert!(o.deny_unsupported_types);
    assert!(o.deny_recursive_tables);
    assert!(!o.sort_keys);
    assert!(!o.encode_empty_tables_as_array);
    assert!(!o.detect_mixed_tables);
    let o = o.sort_keys(true).deny_recursive_tables(false).detect_mixed_tables(true);
    assert!(o.sort_keys && !o.deny_recursive_tables && o.detect_mixed_tables);
    assert!(o.deny_unsupported_types);
}

#[test]
fn serialize_options_and_null() {
    let o = SerOptions::new();
    assert!(o.set_array_metatable && o.serialize_none_to_null && o.serialize_unit_to_null);
    let s = Serializer::new(NULL);
    assert!(same(&s.serialize_none(), &null(NULL)));
    assert!(is_null(&s.serialize_unit(), NULL));
    let s = Serializer::new_with_options(NULL, SerOptions::new().serialize_none_to_null(false));
    assert!(same(&s.serialize_none(), &Value::Nil));
    assert!(is_null(&s.serialize_unit(), NULL));
    assert!(!is_null(&Value::Table(ObjectId(3)), NULL));
    assert!(matches!(s.serialize_u64(5), Some(Value::Integer(5))));
    assert!(s.serialize_u64(u64::MAX).is_none());
}

#[test]
fn serialized_sequence_reads_back_as_an_array() {
    let mut lua = Lua::new(1);
    let s = Serializer::new(NULL);
    let mut seq = s.serialize_seq(&mut lua, ARRAY_MT);
    seq.serialize_element(Value::Integer(10)).unwrap();
    seq.serialize_element(Value::Boolean(true)).unwrap();
    let t = seq.end();
    assert_eq!(t.metatable(), Some(ARRAY_MT));
    assert_eq!(encode_as_array(&t, DeOptions::new(), ARRAY_MT), Some(2));
    let d = Deserializer::new(Value::Table(t.to_pointer()), NULL);
    match d.deserialize_any(Some(&t), ARRAY_MT).unwrap() {
        AnyRead::Sequence(mut r) => {
            let first = r.next_element(&t).unwrap().unwrap();
            assert!(same(first.value(), &Value::Integer(10)));
            let second = r.next_element(&t).unwrap().unwrap();
            assert!(same(second.value(), &Value::Boolean(true)));
            assert!(r.next_element(&t).unwrap().is_none());
            assert!(r.finish().is_ok());
        }
        other => panic!("expected a sequence, got {:?}", other),
    }
}

#[test]
fn empty_table_with_array_metatable_is_an_empty_array() {
    let mut t = table(5, vec![]);
    assert_eq!(encode_as_array(&t, DeOptions::new(), ARRAY_MT), None);
    assert_eq!(encode_as_array(&t, DeOptions::new().encode_empty_tables_as_array(true), ARRAY_MT), Some(0));
    t.set_metatable(Some(ARRAY_MT)).unwrap();
    assert_eq!(encode_as_array(&t, DeOptions::new(), ARRAY_MT), Some(0));
}

#[test]
fn mixed_table_detection() {
    let mixed = DeOptions::new().detect_mixed_tables(true);
    let sparse = table(6, vec![(Value::Integer(1), Value::Integer(1)), (Value::Integer(4), Value::Integer(4))]);
    assert_eq!(encode_as_array(&sparse, mixed, ARRAY_MT), Some(4));
    let keyed = table(7, vec![(Value::Integer(1), Value::Integer(1)), (text("a"), Value::Integer(2))]);
    assert_eq!(encode_as_array(&keyed, mixed, ARRAY_MT), None);
    let mut entries = Vec::new();
    for i in 1..=10 {
        entries.push((Value::Integer(i * 3), Value::Integer(i)));
    }
    let too_sparse = table(8, entries);
    assert_eq!(encode_as_array(&too_sparse, mixed, ARRAY_MT), None);
    assert_eq!(find_array_len(&vec![(Value::Integer(2), Value::Nil), (Value::Integer(7), Value::Nil)]), Some((2, 7)));
    assert_eq!(find_array_len(&vec![(Value::Integer(0), Value::Nil)]), None);
}

#[test]
fn skip_rules() {
    let opts = DeOptions::new();
    assert_eq!(check_value_for_skip(&Value::Table(ObjectId(2)), opts, &vec![ObjectId(2)], NULL), Err("recursive table detected"));
    let lenient = opts.deny_recursive_tables(false).deny_unsupported_types(false);
    assert_eq!(check_value_for_skip(&Value::Table(ObjectId(2)), lenient, &vec![ObjectId(2)], NULL), Ok(true));
    assert_eq!(check_value_for_skip(&Value::Function(ObjectId(3)), lenient, &vec![], NULL), Ok(true));
    assert_eq!(check_value_for_skip(&Value::Function(ObjectId(3)), opts, &vec![], NULL), Ok(false));
    assert_eq!(check_value_for_skip(&null(NULL), opts, &vec![NULL], NULL), Ok(false));
}

#[test]
fn any_reads_scalars_and_refuses_functions() {
    let t = table(9, vec![]);
    let read = |v: Value, o: DeOptions| Deserializer::new_with_options(v, o, NULL).deserialize_any(Some(&t), ARRAY_MT);
    assert!(matches!(read(Value::Nil, DeOptions::new()), Ok(AnyRead::Unit)));
    assert!(matches!(read(Value::Integer(-4), DeOptions::new()), Ok(AnyRead::Integer(-4))));
    assert!(matches!(read(text("hi"), DeOptions::new()), Ok(AnyRead::Str(ref s)) if s == "hi"));
    let bytes = Value::String(create_string(&[0xff, 0x00]));
    assert!(matches!(read(bytes, DeOptions::new()), Ok(AnyRead::Bytes(ref b)) if b == &vec![0xff, 0x00]));
    assert!(matches!(read(null(NULL), DeOptions::new()), Ok(AnyRead::Absent)));
    let e = read(Value::Function(ObjectId(4)), DeOptions::new()).unwrap_err();
    assert_eq!(message(e), "unsupported value type `function`");
    assert!(matches!(read(Value::Function(ObjectId(4)), DeOptions::new().deny_unsupported_types(false)), Ok(AnyRead::Unit)));
    match read(Value::Table(ObjectId(9)), DeOptions::new()) {
        Ok(AnyRead::Mapping(m)) => assert!(m.finish().is_ok()),
        other => panic!("expected a map, got {:?}", other),
    }
}

#[test]
fn option_and_unit_reading() {
    assert!(!Deserializer::new(Value::Nil, NULL).deserialize_option());
    assert!(!Deserializer::new(null(NULL), NULL).deserialize_option());
    assert!(Deserializer::new(Value::Boolean(false), NULL).deserialize_option());
    let d = Deserializer::new(null(NULL), NULL);
    assert!(matches!(d.deserialize_unit(None, ARRAY_MT), Ok(AnyRead::Unit)));
    let d = Deserializer::new(Value::Boolean(true), NULL);
    assert!(matches!(d.deserialize_unit(None, ARRAY_MT), Ok(AnyRead::Bool(true))));
}

#[test]
fn sequence_with_fewer_reads_is_an_error() {
    let t = table(10, vec![(Value::Integer(1), text("a")), (Value::Integer(2), text("b")), (Value::Integer(3), text("c"))]);
    let d = Deserializer::new(Value::Table(ObjectId(10)), NULL);
    let mut r = d.deserialize_seq(Some(&t)).unwrap();
    assert!(r.next_element(&t).unwrap().is_some());
    let e = r.finish().unwrap_err();
    assert_eq!(message(e), "invalid length 3, expected fewer elements in the table");
    let e = Deserializer::new(Value::Integer(1), NULL).deserialize_seq(None).unwrap_err();
    assert_eq!(message(e), "invalid type: integer, expected table");
}

#[test]
fn sequence_refuses_a_table_inside_itself() {
    let t = table(11, vec![(Value::Integer(1), Value::Table(ObjectId(11)))]);
    let d = Deserializer::new(Value::Table(ObjectId(11)), NULL);
    let mut r = d.deserialize_seq(Some(&t)).unwrap();
    let e = r.next_element(&t).unwrap_err();
    assert_eq!(message(e), "recursive table detected");
    let d = Deserializer::new_with_options(Value::Table(ObjectId(11)), DeOptions::new().deny_recursive_tables(false), NULL);
    let mut r = d.deserialize_seq(Some(&t)).unwrap();
    assert!(r.next_element(&t).unwrap().is_none());
    assert!(r.finish().is_ok());
}

#[test]
fn map_keys_in_sorted_order() {
    let t = table(
        12,
        vec![
            (text("b"), Value::Integer(2)),
            (Value::Integer(5), Value::Integer(5)),
            (text("a"), Value::Integer(1)),
            (Value::Boolean(true), Value::Integer(0)),
        ],
    );
    let d = Deserializer::new_with_options(Value::Table(ObjectId(12)), DeOptions::new().sort_keys(true), NULL);
    let mut m = d.deserialize_map(Some(&t)).unwrap();
    let mut keys = Vec::new();
    while let Some(k) = m.next_key().unwrap() {
        keys.push(k.value().clone());
        let v = m.next_value().unwrap();
        assert!(matches!(v.value(), Value::Integer(_)));
    }
    let expected = vec![Value::Boolean(true), Value::Integer(5), text("a"), text("b")];
    assert_eq!(keys.len(), expected.len());
    for (k, e) in keys.iter().zip(expected.iter()) {
        assert!(same(k, e));
    }
    assert!(m.finish().is_ok());
    assert_eq!(message(m.next_value().unwrap_err()), "value is missing");
}

#[test]
fn map_with_entries_left_is_an_error() {
    let t = table(13, vec![(text("x"), Value::Integer(1)), (text("y"), Value::Integer(2))]);
    let d = Deserializer::new(Value::Table(ObjectId(13)), NULL);
    let mut m = d.deserialize_map(Some(&t)).unwrap();
    assert!(m.next_key().unwrap().is_some());
    assert_eq!(message(m.finish().unwrap_err()), "invalid length 2, expected fewer elements in the table");
    let e = Deserializer::new(Value::Boolean(true), NULL).deserialize_map(None).unwrap_err();
    assert_eq!(message(e), "invalid type: boolean, expected table");
}

#[test]
fn map_skips_unsupported_values_when_lenient() {
    let t = table(14, vec![(text("f"), Value::Function(ObjectId(50))), (text("n"), Value::Integer(1))]);
    let opts = DeOptions::new().deny_unsupported_types(false);
    let d = Deserializer::new_with_options(Value::Table(ObjectId(14)), opts, NULL);
    let mut m = d.deserialize_map(Some(&t)).unwrap();
    let k = m.next_key().unwrap().unwrap();
    assert!(same(k.value(), &text("n")));
    assert!(same(m.next_value().unwrap().value(), &Value::Integer(1)));
    assert!(m.next_key().unwrap().is_none());
}

#[test]
fn enums_from_strings_and_single_key_tables() {
    let e = Deserializer::new(text("Red"), NULL).deserialize_enum(None).unwrap();
    assert_eq!(e.variant(), "Red");
    assert!(e.unit_variant().is_ok());

    let t = table(15, vec![(text("Point"), Value::Integer(3))]);
    let e = Deserializer::new(Value::Table(ObjectId(15)), NULL).deserialize_enum(Some(&t)).unwrap();
    assert_eq!(e.variant(), "Point");
    let data = e.newtype_variant().unwrap();
    assert!(same(data.value(), &Value::Integer(3)));

    let t = table(16, vec![(text("Point"), Value::Integer(3))]);
    let e = Deserializer::new(Value::Table(ObjectId(16)), NULL).deserialize_enum(Some(&t)).unwrap();
    assert_eq!(message(e.unit_variant().unwrap_err()), "invalid type: newtype variant, expected unit variant");

    let e = Deserializer::new(text("Red"), NULL).deserialize_enum(None).unwrap();
    assert_eq!(message(e.newtype_variant().unwrap_err()), "invalid type: unit variant, expected newtype variant");

    let t = table(17, vec![(Value::Integer(7), Value::Boolean(true))]);
    let e = Deserializer::new(Value::Table(ObjectId(17)), NULL).deserialize_enum(Some(&t)).unwrap();
    assert_eq!(e.variant(), "7");
}

#[test]
fn enums_refused() {
    let empty = table(18, vec![]);
    let e = Deserializer::new(Value::Table(ObjectId(18)), NULL).deserialize_enum(Some(&empty)).unwrap_err();
    assert_eq!(message(e), "invalid value: map, expected map with a single key");
    let two = table(19, vec![(text("A"), Value::Integer(1)), (text("B"), Value::Integer(2))]);
    let e = Deserializer::new(Value::Table(ObjectId(19)), NULL).deserialize_enum(Some(&two)).unwrap_err();
    assert_eq!(message(e), "invalid value: map, expected map with a single key");
    let e = Deserializer::new(Value::Integer(1), NULL).deserialize_enum(None).unwrap_err();
    assert_eq!(message(e), "bad enum value");
    let inner = table(20, vec![(text("A"), Value::Function(ObjectId(60)))]);
    let lenient = DeOptions::new().deny_unsupported_types(false);
    let e = Deserializer::new_with_options(Value::Table(ObjectId(20)), lenient, NULL).deserialize_enum(Some(&inner)).unwrap_err();
    assert_eq!(message(e), "bad enum value");
    let selfref = table(21, vec![(text("A"), Value::Table(ObjectId(21)))]);
    let e = Deserializer::new(Value::Table(ObjectId(21)), NULL).deserialize_enum(Some(&selfref)).unwrap_err();
    assert_eq!(message(e), "recursive table detected");
    let boolkey = table(22, vec![(Value::Boolean(true), Value::Integer(1))]);
    let e = Deserializer::new(Value::Table(ObjectId(22)), NULL).deserialize_enum(Some(&boolkey)).unwrap_err();
    assert!(matches!(e, Error::FromLuaConversionError { from: "boolean", .. }));
}

#[test]
fn tuple_and_struct_variants() {
    let data = table(23, vec![(Value::Integer(1), Value::Integer(4))]);
    let outer = table(24, vec![(text("Pair"), Value::Table(ObjectId(23)))]);
    let e = Deserializer::new(Value::Table(ObjectId(24)), NULL).deserialize_enum(Some(&outer)).unwrap();
    let mut s = e.tuple_variant(Some(&data)).unwrap();
    assert!(same(s.next_element(&data).unwrap().unwrap().value(), &Value::Integer(4)));
    let e = Deserializer::new(text("Unit"), NULL).deserialize_enum(None).unwrap();
    assert_eq!(message(e.struct_variant(None).unwrap_err()), "invalid type: unit variant, expected struct variant");
    let e = Deserializer::new(text("Unit"), NULL).deserialize_enum(None).unwrap();
    assert_eq!(message(e.tuple_variant(None).unwrap_err()), "invalid type: unit variant, expected tuple variant");
}

#[test]
fn key_order_of_values() {
    assert_eq!(sort_cmp(&Value::Nil, &null(NULL), NULL), Ordering::Less);
    assert_eq!(sort_cmp(&null(NULL), &Value::Boolean(false), NULL), Ordering::Less);
    assert_eq!(sort_cmp(&Value::Boolean(false), &Value::Boolean(true), NULL), Ordering::Less);
    assert_eq!(sort_cmp(&Value::Integer(9), &text("a"), NULL), Ordering::Less);
    assert_eq!(sort_cmp(&text("ab"), &text("b"), NULL), Ordering::Less);
    assert_eq!(sort_cmp(&Value::Table(ObjectId(2)), &Value::Function(ObjectId(1)), NULL), Ordering::Greater);
    assert_eq!(key_order(&Value::Integer(3), &Value::Integer(3), NULL), 0);
    // swapping the keys flips the order
    let values = vec![Value::Nil, Value::Boolean(true), Value::Integer(-1), text("z"), Value::Thread(ObjectId(4))];
    for a in &values {
        for b in &values {
            assert_eq!(key_order(a, b, NULL), -key_order(b, a, NULL));
        }
    }
}

#[test]
fn newtype_variant_round_trip() {
    let mut lua = Lua::new(2);
    let s = Serializer::new(NULL);
    let t = s.serialize_newtype_variant(&mut lua, "Circle", Value::Integer(7));
    let d = Deserializer::new(Value::Table(t.to_pointer()), NULL);
    let e = d.deserialize_enum(Some(&t)).unwrap();
    assert_eq!(e.variant(), "Circle");
    assert!(same(e.newtype_variant().unwrap().value(), &Value::Integer(7)));
}

#[test]
fn serialized_sequence_round_trip() {
    let mut lua = Lua::new(3);
    let s = Serializer::new_with_options(NULL, SerOptions::new().set_array_metatable(false));
    let mut seq = s.serialize_seq(&mut lua, ARRAY_MT);
    let vals = vec![text("a"), Value::Integer(2), Value::Boolean(false), text("d")];
    for v in &vals {
        seq.serialize_element(v.clone()).unwrap();
    }
    let t = seq.end();
    assert_eq!(t.metatable(), None);
    assert_eq!(t.raw_len(), 4);
    let d = Deserializer::new(Value::Table(t.to_pointer()), NULL);
    let mut r = d.deserialize_seq(Some(&t)).unwrap();
    let mut back = Vec::new();
    while let Some(x) = r.next_element(&t).unwrap() {
        back.push(x.value().clone());
    }
    assert!(r.finish().is_ok());
    assert_eq!(back.len(), vals.len());
    for (a, b) in back.iter().zip(vals.iter()) {
        assert!(same(a, b));
    }
}

#[test]
fn values_emit_for_serialization() {
    let t = table(30, vec![]);
    let emit = |v: Value| v.to_serializable(NULL).emit(Some(&t), ARRAY_MT);
    assert!(matches!(emit(Value::Nil), Ok(Emit::Unit)));
    assert!(matches!(emit(null(NULL)), Ok(Emit::Nothing)));
    assert!(matches!(emit(Value::Boolean(true)), Ok(Emit::Bool(true))));
    assert!(matches!(emit(Value::Integer(8)), Ok(Emit::Integer(8))));
    assert!(matches!(emit(text("s")), Ok(Emit::Str(ref x)) if x == "s"));
    assert!(matches!(emit(Value::Buffer(ObjectId(31))), Ok(Emit::BufferBytes(ObjectId(31)))));
    match emit(Value::Thread(ObjectId(5))) {
        Err(Error::SerializeError(m)) => assert_eq!(m, "cannot serialize <thread>"),
        other => panic!("unexpected {:?}", other),
    }
    let lenient = Value::Thread(ObjectId(5)).to_serializable(NULL).deny_unsupported_types(false);
    assert!(matches!(lenient.emit(None, ARRAY_MT), Ok(Emit::Unit)));
    assert!(matches!(emit(Value::Table(ObjectId(30))), Ok(Emit::Mapping(_))));
    let empty_as_array = Value::Table(ObjectId(30)).to_serializable(NULL).encode_empty_tables_as_array(true);
    assert!(matches!(empty_as_array.emit(Some(&t), ARRAY_MT), Ok(Emit::Sequence(_))));
}

#[test]
fn table_emits_elements_and_refuses_recursion() {
    let t = table(32, vec![(Value::Integer(1), Value::Integer(5)), (Value::Integer(2), Value::Table(ObjectId(32)))]);
    match Value::Table(ObjectId(32)).to_serializable(NULL).emit(Some(&t), ARRAY_MT) {
        Ok(Emit::Sequence(mut s)) => {
            assert!(same(s.next_element(&t).unwrap().unwrap().value(), &Value::Integer(5)));
            match s.next_element(&t) {
                Err(Error::SerializeError(m)) => assert_eq!(m, "recursive table detected"),
                other => panic!("unexpected {:?}", other),
            }
        }
        other => panic!("unexpected {:?}", other),
    }
    let lenient = Value::Table(ObjectId(32)).to_serializable(NULL).deny_recursive_tables(false);
    match lenient.emit(Some(&t), ARRAY_MT) {
        Ok(Emit::Sequence(mut s)) => {
            assert!(s.next_element(&t).unwrap().is_some());
            assert!(s.next_element(&t).unwrap().is_none());
        }
        other => panic!("unexpected {:?}", other),
    }
}

#[test]
fn table_emits_sorted_entries() {
    let t = table(33, vec![(text("z"), Value::Integer(1)), (text("a"), Value::Integer(2)), (Value::Integer(3), Value::Boolean(true))]);
    let v = Value::Table(ObjectId(33)).to_serializable(NULL).sort_keys(true);
    match v.emit(Some(&t), ARRAY_MT) {
        Ok(Emit::Mapping(mut m)) => {
            let mut keys = Vec::new();
            while let Some((k, _)) = m.next_entry().unwrap() {
                keys.push(k.value().clone());
            }
            let expected = vec![Value::Integer(3), text("a"), text("z")];
            assert_eq!(keys.len(), 3);
            for (k, e) in keys.iter().zip(expected.iter()) {
                assert!(same(k, e));
            }
        }
        other => panic!("unexpected {:?}", other),
    }
}
