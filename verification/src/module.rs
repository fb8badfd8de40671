//! Module registration: a cache table from `@`-prefixed aliases to modules,
//! looked up exactly first and then by the lower-cased alias.

use vstd::prelude::*;
use vstd::string::StringSliceAdditionalSpecFns;
use crate::error::Error;
use crate::string::{LuaString, create_string, string_from_vec};
use crate::table::{Key, Table, key_of, spec_after_set};
use crate::value::{Value, spec_same_value};

verus! {

/// The byte lower-cased in ASCII.
pub open spec fn spec_ascii_lower_byte(b: u8) -> u8 {
    if 65 <= b <= 90 { (b + 32) as u8 } else { b }
}

/// The bytes lower-cased in ASCII.
pub open spec fn spec_ascii_lower(s: Seq<u8>) -> Seq<u8> {
    s.map_values(|b: u8| spec_ascii_lower_byte(b))
}

/// The bytes of `bytes`, lower-cased in ASCII.
pub fn ascii_lowercase(bytes: &[u8]) -> (r: Vec<u8>)
    ensures
        r@ == spec_ascii_lower(bytes@),
{
    let mut out: Vec<u8> = Vec::with_capacity(bytes.len());
    let mut i: usize = 0;
    while i < bytes.len()
        invariant
            i <= bytes.len(),
            out@ == spec_ascii_lower(bytes@.subrange(0, i as int)),
        decreases bytes.len() - i,
    {
        let b = bytes[i];
        let l = if 65 <= b && b <= 90 { b + 32 } else { b };
        out.push(l);
        assert(spec_ascii_lower(bytes@.subrange(0, i + 1)) =~= spec_ascii_lower(bytes@.subrange(0, i as int)).push(l));
        i += 1;
    }
    assert(bytes@.subrange(0, bytes.len() as int) =~= bytes@);
    out
}

/// The error for an alias that does not begin with `@`.
pub open spec fn spec_bad_alias_error(e: Error) -> bool {
    e matches Error::RuntimeError(m) && m@ == "module name must begin with '@'"@
}

/// Whether an alias is acceptable: it begins with `@`.
pub open spec fn spec_is_alias(name: Seq<u8>) -> bool {
    name.len() > 0 && name[0] == 64u8
}

/// Stores `module` under `name` and under its lower-cased form.
pub fn register_in(cache: &mut Table, name: &str, module: Value) -> (r: Result<(), Error>)
    requires
        old(cache).wf(),
        !old(cache).spec_readonly(),
        old(cache).spec_size() + 2 < i64::MAX,
    ensures
        final(cache).wf(),
        !final(cache).spec_readonly(),
        final(cache).spec_size() <= old(cache).spec_size() + 2,
        r is Ok <==> spec_is_alias(name.spec_bytes()),
        r matches Err(e) ==> spec_bad_alias_error(e) && final(cache)@ == old(cache)@,
        r is Ok ==> (exists|copy: Value| spec_same_value(copy, module)
            && final(cache)@ == spec_after_set(
                spec_after_set(old(cache)@, Key::String(name.spec_bytes()), copy),
                Key::String(spec_ascii_lower(name.spec_bytes())),
                module,
            )),
{
    let bytes = name.as_bytes();
    if bytes.len() == 0 || bytes[0] != 64u8 {
        return Err(Error::runtime("module name must begin with '@'"));
    }
    let lower = ascii_lowercase(bytes);
    let copy = module.clone();
    let ghost c = copy;
    let ghost m0 = cache@;
    let _ = cache.raw_set(Value::String(create_string(bytes)), copy);
    let ghost m1 = cache@;
    assert(m1 == spec_after_set(m0, Key::String(name.spec_bytes()), c));
    let _ = cache.raw_set(Value::String(string_from_vec(lower)), module);
    assert(spec_same_value(c, module));
    Ok(())
}

/// Removes `name` and its lower-cased form from the cache.
pub fn unload_in(cache: &mut Table, name: &str)
    requires
        old(cache).wf(),
        !old(cache).spec_readonly(),
        old(cache).spec_size() + 2 < i64::MAX,
    ensures
        final(cache).wf(),
        !final(cache).spec_readonly(),
        final(cache).spec_size() <= old(cache).spec_size() + 2,
        final(cache)@ == old(cache)@.remove(Key::String(name.spec_bytes())).remove(
            Key::String(spec_ascii_lower(name.spec_bytes())),
        ),
{
    let bytes = name.as_bytes();
    let lower = ascii_lowercase(bytes);
    let _ = cache.raw_set(Value::String(create_string(bytes)), Value::Nil);
    let _ = cache.raw_set(Value::String(string_from_vec(lower)), Value::Nil);
}

/// The module that `require(name)` resolves to: the exact alias first, then
/// the lower-cased alias.
pub open spec fn spec_resolve(m: Map<Key, Value>, name: Seq<u8>) -> Option<Value> {
    if m.contains_key(Key::String(name)) {
        Some(m[Key::String(name)])
    } else if m.contains_key(Key::String(spec_ascii_lower(name))) {
        Some(m[Key::String(spec_ascii_lower(name))])
    } else {
        None
    }
}

/// The error of `require` for an alias that was never registered.
pub open spec fn spec_not_found_error(e: Error, name: Seq<char>) -> bool {
    e matches Error::RuntimeError(m) && m@ == "module '"@ + name + "' not found: module was not registered"@
}

/// Resolves `name` in the cache: the exact alias, then the lower-cased one.
pub fn require_in(cache: &Table, name: &str) -> (r: Result<Value, Error>)
    requires
        cache.wf(),
    ensures
        spec_resolve(cache@, name.spec_bytes()) matches Some(v) ==> (r matches Ok(x) && spec_same_value(x, v)),
        spec_resolve(cache@, name.spec_bytes()) is None ==> (r matches Err(e) && spec_not_found_error(e, name@)),
{
    let bytes = name.as_bytes();
    let exact = cache.raw_get(&Value::String(create_string(bytes)));
    proof {
        if cache@.contains_key(Key::String(bytes@)) {
            crate::table::lemma_values_not_nil(cache, Key::String(bytes@));
        }
    }
    if !exact.is_nil() {
        return Ok(exact);
    }
    let lower = ascii_lowercase(bytes);
    let ghost lk = Key::String(lower@);
    let l = cache.raw_get(&Value::String(string_from_vec(lower)));
    proof {
        if cache@.contains_key(lk) {
            crate::table::lemma_values_not_nil(cache, lk);
        }
    }
    if !l.is_nil() {
        Ok(l)
    } else {
        Err(Error::RuntimeError(crate::error::concat3("module '", name, "' not found: module was not registered")))
    }
}

/// A registered module is found again: `require` of the registered alias
/// gives the module, and so does `require` of any alias with the same
/// lower-cased form that was not registered itself.
pub proof fn law_register_then_require(m: Map<Key, Value>, name: Seq<u8>, other: Seq<u8>, copy: Value, module: Value)
    requires
        !(module is Nil),
        spec_same_value(copy, module),
    ensures
        ({
            let after = spec_after_set(
                spec_after_set(m, Key::String(name), copy),
                Key::String(spec_ascii_lower(name)),
                module,
            );
            &&& spec_resolve(after, name) matches Some(v) && spec_same_value(v, module)
            &&& spec_ascii_lower(other) == spec_ascii_lower(name) && !after.contains_key(Key::String(other))
                ==> spec_resolve(after, other) == Some(module)
        }),
{
    crate::value::lemma_same_value_reflexive(module);
    assert(!(copy is Nil));
}

} // verus!
