//! Lua strings: immutable byte strings compared by their contents.

use vstd::prelude::*;
use vstd::utf8::{valid_utf8, decode_utf8};
use vstd::string::StringSliceAdditionalSpecFns;
use core::cmp::Ordering;
use crate::error::Error;

verus! {

/// A Lua string: a sequence of bytes, not necessarily UTF-8.
#[derive(Debug)]
pub struct LuaString {
    pub(crate) bytes: Vec<u8>,
}

impl View for LuaString {
    type V = Seq<u8>;

    closed spec fn view(&self) -> Seq<u8> {
        self.bytes@
    }
}

impl Clone for LuaString {
    fn clone(&self) -> (r: Self)
        ensures
            r@ == self@,
    {
        LuaString { bytes: self.bytes.clone() }
    }
}

/// Decodes `bytes` as UTF-8 (`std::str::from_utf8`): `Some` exactly when
/// the bytes are valid UTF-8, holding the text they encode.
#[verifier::external_body]
fn utf8_str(bytes: &[u8]) -> (r: Option<&str>)
    ensures
        r is Some <==> valid_utf8(bytes@),
        r matches Some(s) ==> s.spec_bytes() == bytes@ && s@ == decode_utf8(bytes@),
{
    core::str::from_utf8(bytes).ok()
}

/// The text (`Display`) of the `std::str::Utf8Error` that
/// `std::str::from_utf8` reports on `bytes`.
pub uninterp spec fn spec_utf8_error_text(bytes: Seq<u8>) -> Seq<char>;

/// The text of the error `std::str::from_utf8` reports on bytes that are
/// not valid UTF-8 (the `Display` of `std::str::Utf8Error`, which names the
/// position of the fault); the text is named, not stated.
#[verifier::external_body]
fn utf8_error_text(bytes: &[u8]) -> (r: String)
    requires
        !valid_utf8(bytes@),
    ensures
        r@ == spec_utf8_error_text(bytes@),
{
    match core::str::from_utf8(bytes) {
        Err(e) => e.to_string(),
        Ok(_) => String::new(),
    }
}

/// The conversion error for bytes that are not valid UTF-8.
pub open spec fn spec_is_utf8_error(e: Error, bytes: Seq<u8>) -> bool {
    match e {
        Error::FromLuaConversionError { from, to, message } => {
            &&& from == "string"
            &&& to@ == "String"@
            &&& message matches Some(m) && m@ == "invalid utf-8: "@ + spec_utf8_error_text(bytes)
        },
        _ => false,
    }
}

/// What `String::from_utf8_lossy` makes of `bytes`.
pub uninterp spec fn spec_utf8_lossy(bytes: Seq<u8>) -> Seq<char>;

/// `String::from_utf8_lossy`: valid UTF-8 is decoded unchanged (its
/// documentation); invalid sequences become U+FFFD, which is named, not stated.
#[verifier::external_body]
pub(crate) fn utf8_lossy(bytes: &[u8]) -> (r: String)
    ensures
        r@ == spec_utf8_lossy(bytes@),
        valid_utf8(bytes@) ==> r@ == decode_utf8(bytes@),
{
    String::from_utf8_lossy(bytes).into_owned()
}

/// Lexicographic comparison of byte strings: `-1`, `0` or `1`.
pub open spec fn spec_lex_compare(a: Seq<u8>, b: Seq<u8>) -> int
    decreases a.len(),
{
    if a.len() == 0 {
        if b.len() == 0 { 0 } else { -1 }
    } else if b.len() == 0 {
        1
    } else if a[0] < b[0] {
        -1
    } else if a[0] > b[0] {
        1
    } else {
        spec_lex_compare(a.drop_first(), b.drop_first())
    }
}

/// Byte strings compare by their first differing byte, and a proper
/// prefix comes before the longer string.
pub proof fn law_lex_compare_first_difference(a: Seq<u8>, b: Seq<u8>, i: int)
    requires
        0 <= i <= a.len(),
        i <= b.len(),
        a.subrange(0, i) == b.subrange(0, i),
    ensures
        i < a.len() && i < b.len() && a[i] < b[i] ==> spec_lex_compare(a, b) < 0,
        i < a.len() && i < b.len() && a[i] > b[i] ==> spec_lex_compare(a, b) > 0,
        i == a.len() && i < b.len() ==> spec_lex_compare(a, b) < 0,
        i < a.len() && i == b.len() ==> spec_lex_compare(a, b) > 0,
    decreases i,
{
    if i > 0 {
        assert(a[0] == a.subrange(0, i)[0]);
        assert(b[0] == b.subrange(0, i)[0]);
        assert(a.drop_first().subrange(0, i - 1) =~= a.subrange(0, i).drop_first());
        assert(b.drop_first().subrange(0, i - 1) =~= b.subrange(0, i).drop_first());
        law_lex_compare_first_difference(a.drop_first(), b.drop_first(), i - 1);
        if i < a.len() {
            assert(a.drop_first()[i - 1] == a[i]);
        }
        if i < b.len() {
            assert(b.drop_first()[i - 1] == b[i]);
        }
    }
}

/// The ordering that a comparison result stands for.
pub open spec fn ordering_of(c: int) -> Ordering {
    if c < 0 { Ordering::Less } else if c == 0 { Ordering::Equal } else { Ordering::Greater }
}

/// Byte strings compare equal exactly when they are the same bytes, and
/// comparison is antisymmetric.
pub proof fn lemma_lex_compare_laws(a: Seq<u8>, b: Seq<u8>)
    ensures
        spec_lex_compare(a, b) == 0 <==> a == b,
        spec_lex_compare(a, b) == -spec_lex_compare(b, a),
        -1 <= spec_lex_compare(a, b) <= 1,
    decreases a.len(),
{
    if a.len() != 0 && b.len() != 0 && a[0] == b[0] {
        lemma_lex_compare_laws(a.drop_first(), b.drop_first());
        if a.drop_first() == b.drop_first() {
            assert(a =~= seq![a[0]] + a.drop_first());
            assert(b =~= seq![b[0]] + b.drop_first());
        }
    }
    if a.len() == 0 && b.len() == 0 {
        assert(a =~= b);
    }
}

/// Lexicographic order is transitive.
pub proof fn lemma_lex_compare_transitive(a: Seq<u8>, b: Seq<u8>, c: Seq<u8>)
    requires
        spec_lex_compare(a, b) <= 0,
        spec_lex_compare(b, c) <= 0,
    ensures
        spec_lex_compare(a, c) <= 0,
    decreases a.len(),
{
    if a.len() != 0 && b.len() != 0 && c.len() != 0 && a[0] == b[0] && b[0] == c[0] {
        lemma_lex_compare_transitive(a.drop_first(), b.drop_first(), c.drop_first());
    }
}

/// Compares two byte strings lexicographically: `-1`, `0` or `1`.
pub fn lex_compare(a: &[u8], b: &[u8]) -> (r: i8)
    ensures
        r == spec_lex_compare(a@, b@),
{
    let mut i: usize = 0;
    assert(a@.skip(0) =~= a@);
    assert(b@.skip(0) =~= b@);
    while i < a.len() && i < b.len()
        invariant
            i <= a.len(),
            i <= b.len(),
            spec_lex_compare(a@, b@) == spec_lex_compare(a@.skip(i as int), b@.skip(i as int)),
        decreases a.len() - i,
    {
        if a[i] < b[i] {
            return -1;
        }
        if a[i] > b[i] {
            return 1;
        }
        assert(a@.skip(i as int).drop_first() =~= a@.skip(i + 1));
        assert(b@.skip(i as int).drop_first() =~= b@.skip(i + 1));
        i += 1;
    }
    if i < b.len() {
        -1
    } else if i < a.len() {
        1
    } else {
        0
    }
}

/// Compares two byte strings lexicographically.
pub fn compare_bytes(a: &[u8], b: &[u8]) -> (r: Ordering)
    ensures
        r == ordering_of(spec_lex_compare(a@, b@)),
{
    let c = lex_compare(a, b);
    if c < 0 {
        Ordering::Less
    } else if c == 0 {
        Ordering::Equal
    } else {
        Ordering::Greater
    }
}

/// Whether two byte strings are the same bytes.
pub fn bytes_equal(a: &[u8], b: &[u8]) -> (r: bool)
    ensures
        r == (a@ == b@),
{
    if a.len() != b.len() {
        return false;
    }
    let mut i: usize = 0;
    while i < a.len()
        invariant
            i <= a.len(),
            a.len() == b.len(),
            a@.subrange(0, i as int) == b@.subrange(0, i as int),
        decreases a.len() - i,
    {
        if a[i] != b[i] {
            assert(a@[i as int] != b@[i as int]);
            return false;
        }
        assert(a@.subrange(0, i + 1) =~= a@.subrange(0, i as int).push(a@[i as int]));
        assert(b@.subrange(0, i + 1) =~= b@.subrange(0, i as int).push(b@[i as int]));
        i += 1;
    }
    assert(a@ =~= a@.subrange(0, a.len() as int));
    assert(b@ =~= b@.subrange(0, b.len() as int));
    true
}

/// How one byte is written inside a `b"..."` literal.
pub open spec fn spec_escape_byte(b: u8) -> Seq<u8> {
    if b == 0 {
        seq![92u8, 48u8]
    } else if b == 13 {
        seq![92u8, 114u8]
    } else if b == 10 {
        seq![92u8, 110u8]
    } else if b == 9 {
        seq![92u8, 116u8]
    } else if b == 92 {
        seq![92u8, 92u8]
    } else if b == 34 {
        seq![92u8, 34u8]
    } else if 0x20 <= b <= 0x7e {
        seq![b]
    } else {
        seq![92u8, 120u8, spec_hex_digit(b / 16), spec_hex_digit(b % 16)]
    }
}

/// The lower-case hexadecimal digit of `d < 16`.
pub open spec fn spec_hex_digit(d: u8) -> u8 {
    if d < 10 { (48 + d) as u8 } else { (87 + d) as u8 }
}

/// The escaped body of a byte-string literal for `bytes`.
pub open spec fn spec_escape_bytes(bytes: Seq<u8>) -> Seq<u8>
    decreases bytes.len(),
{
    if bytes.len() == 0 {
        seq![]
    } else {
        spec_escape_bytes(bytes.drop_last()) + spec_escape_byte(bytes.last())
    }
}

fn hex_digit(d: u8) -> (r: u8)
    requires
        d < 16,
    ensures
        r == spec_hex_digit(d),
{
    if d < 10 { 48 + d } else { 87 + d }
}

fn escape_byte(b: u8) -> (r: Vec<u8>)
    ensures
        r@ == spec_escape_byte(b),
{
    if b == 0 {
        vec![92u8, 48u8]
    } else if b == 13 {
        vec![92u8, 114u8]
    } else if b == 10 {
        vec![92u8, 110u8]
    } else if b == 9 {
        vec![92u8, 116u8]
    } else if b == 92 {
        vec![92u8, 92u8]
    } else if b == 34 {
        vec![92u8, 34u8]
    } else if 0x20 <= b && b <= 0x7e {
        vec![b]
    } else {
        vec![92u8, 120u8, hex_digit(b / 16), hex_digit(b % 16)]
    }
}

/// Writes `bytes` as the body of a `b"..."` literal: the printable ASCII
/// bytes as they are, the usual escapes for NUL, CR, LF, TAB, backslash and
/// quote, and `\xNN` for the rest.
pub fn escape_bytes(bytes: &[u8]) -> (r: Vec<u8>)
    ensures
        r@ == spec_escape_bytes(bytes@),
{
    let mut out: Vec<u8> = Vec::new();
    let mut i: usize = 0;
    while i < bytes.len()
        invariant
            i <= bytes.len(),
            out@ == spec_escape_bytes(bytes@.subrange(0, i as int)),
        decreases bytes.len() - i,
    {
        let mut e = escape_byte(bytes[i]);
        assert(bytes@.subrange(0, i + 1).drop_last() =~= bytes@.subrange(0, i as int));
        out.append(&mut e);
        i += 1;
    }
    assert(bytes@.subrange(0, bytes.len() as int) =~= bytes@);
    out
}

/// Builds a Lua string holding a copy of `bytes`.
pub fn create_string(bytes: &[u8]) -> (r: LuaString)
    ensures
        r@ == bytes@,
{
    LuaString { bytes: copy_bytes(bytes) }
}

/// Builds a Lua string that takes over the bytes of `bytes`.
pub fn string_from_vec(bytes: Vec<u8>) -> (r: LuaString)
    ensures
        r@ == bytes@,
{
    LuaString { bytes }
}

/// A new vector holding the bytes of `bytes`.
pub fn copy_bytes(bytes: &[u8]) -> (r: Vec<u8>)
    ensures
        r@ == bytes@,
{
    let mut out: Vec<u8> = Vec::with_capacity(bytes.len());
    let mut i: usize = 0;
    while i < bytes.len()
        invariant
            i <= bytes.len(),
            out@ == bytes@.subrange(0, i as int),
        decreases bytes.len() - i,
    {
        out.push(bytes[i]);
        assert(bytes@.subrange(0, i + 1) =~= bytes@.subrange(0, i as int).push(bytes@[i as int]));
        i += 1;
    }
    assert(bytes@.subrange(0, bytes.len() as int) =~= bytes@);
    out
}

/// A view of a Lua string that prints its bytes as UTF-8, each invalid
/// sequence replaced.
#[derive(Debug)]
pub struct LuaStringDisplay<'a> {
    pub(crate) s: &'a LuaString,
}

impl<'a> LuaStringDisplay<'a> {
    /// The bytes shown.
    pub closed spec fn spec_bytes(&self) -> Seq<u8> {
        self.s@
    }

    /// The printed text.
    pub fn text(&self) -> (r: String)
        ensures
            r@ == spec_utf8_lossy(self.spec_bytes()),
    {
        self.s.to_string_lossy()
    }
}

impl LuaString {
    /// A view that prints the string as UTF-8, invalid sequences replaced.
    pub fn display(&self) -> (r: LuaStringDisplay<'_>)
        ensures
            r.spec_bytes() == self@,
    {
        LuaStringDisplay { s: self }
    }

    /// The bytes of the string.
    pub fn as_bytes(&self) -> (r: &[u8])
        ensures
            r@ == self@,
    {
        self.bytes.as_slice()
    }

    /// The string as UTF-8 text; an error when the bytes are not valid UTF-8.
    pub fn to_str(&self) -> (r: Result<String, Error>)
        ensures
            r is Ok <==> valid_utf8(self@),
            r matches Ok(s) ==> s@ == decode_utf8(self@),
            r matches Err(e) ==> spec_is_utf8_error(e, self@),
    {
        match utf8_str(self.bytes.as_slice()) {
            Some(s) => Ok(s.to_owned()),
            None => {
                let text = utf8_error_text(self.bytes.as_slice());
                let message = crate::error::concat3("invalid utf-8: ", text.as_str(), "");
                proof {
                    reveal_strlit("");
                    assert(message@ =~= "invalid utf-8: "@ + text@);
                }
                Err(Error::FromLuaConversionError { from: "string", to: "String".to_owned(), message: Some(message) })
            },
        }
    }

    /// The string as text, with every invalid sequence replaced by U+FFFD.
    pub fn to_string_lossy(&self) -> (r: String)
        ensures
            r@ == spec_utf8_lossy(self@),
            valid_utf8(self@) ==> r@ == decode_utf8(self@),
    {
        utf8_lossy(self.bytes.as_slice())
    }

    /// The bytes followed by the terminating NUL that Lua strings carry.
    pub fn as_bytes_with_nul(&self) -> (r: Vec<u8>)
        ensures
            r@ == self@.push(0u8),
    {
        let mut v = self.bytes.clone();
        v.push(0u8);
        v
    }

    /// The byte-string literal form of the string (`b"..."`), as written by
    /// `Debug` when the bytes are not valid UTF-8.
    pub fn escaped_bytes(&self) -> (r: Vec<u8>)
        ensures
            r@ == seq![98u8, 34u8] + spec_escape_bytes(self@) + seq![34u8],
    {
        let mut out: Vec<u8> = vec![98u8, 34u8];
        let mut body = escape_bytes(self.bytes.as_slice());
        out.append(&mut body);
        out.push(34u8);
        out
    }

    /// Compares the bytes of two strings lexicographically.
    pub fn compare(&self, other: &LuaString) -> (r: Ordering)
        ensures
            r == ordering_of(spec_lex_compare(self@, other@)),
    {
        compare_bytes(self.bytes.as_slice(), other.bytes.as_slice())
    }

    /// Whether the string holds exactly `other`.
    pub fn eq_bytes(&self, other: &[u8]) -> (r: bool)
        ensures
            r == (self@ == other@),
    {
        bytes_equal(self.bytes.as_slice(), other)
    }
}

/// Whether the two texts are the same.
pub(crate) fn same_text(a: &str, b: &str) -> (r: bool)
    ensures
        r == (a@ == b@),
{
    let n = a.unicode_len();
    if n != b.unicode_len() {
        return false;
    }
    let mut i: usize = 0;
    while i < n
        invariant
            n == a@.len(),
            n == b@.len(),
            i <= n,
            forall|j: int| 0 <= j < i ==> a@[j] == b@[j],
        decreases n - i,
    {
        if a.get_char(i) != b.get_char(i) {
            return false;
        }
        i += 1;
    }
    assert(a@ =~= b@);
    true
}

} // verus!
