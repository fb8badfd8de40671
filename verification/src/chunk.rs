//! Chunks of code to load: their source, name and mode, and how the
//! compiler's output becomes a result.

use vstd::prelude::*;
use vstd::string::StrSliceExecFns;
use crate::compiler::Compiler;
use crate::error::Error;
use crate::value::ObjectId;

verus! {

/// How a chunk's bytes are read.
#[derive(Debug, Clone, Copy, PartialEq, Eq, Structural)]
pub enum ChunkMode {
    /// Source text.
    Text,
    /// Compiled bytecode.
    Binary,
}

/// The source of a chunk.
#[derive(Debug)]
pub enum ChunkSource {
    /// Source text.
    Text(String),
    /// Compiled bytecode.
    Bytecode(Vec<u8>),
}

/// A chunk to load.
#[derive(Debug)]
pub struct Chunk {
    pub(crate) source: ChunkSource,
    pub(crate) name: String,
    pub(crate) environment: Option<ObjectId>,
    pub(crate) compiler: Option<Compiler>,
    pub(crate) mode: ChunkMode,
}

/// The name a chunk gets when none is set.
pub open spec fn spec_default_name() -> Seq<char> {
    seq!['c', 'h', 'u', 'n', 'k']
}

impl Chunk {
    /// A chunk of source text, named `chunk`.
    pub fn from_text(source: String) -> (r: Chunk)
        ensures
            r.spec_source() matches ChunkSource::Text(s) && s@ == source@,
            r.spec_name() == spec_default_name(),
            r.spec_mode() == ChunkMode::Text,
            r.spec_environment() is None,
    {
        let name = String::from_str("chunk");
        proof {
            reveal_strlit("chunk");
        }
        Chunk { source: ChunkSource::Text(source), name, environment: None, compiler: None, mode: ChunkMode::Text }
    }

    /// A chunk of bytecode, named `chunk`.
    pub fn from_bytecode(bytecode: Vec<u8>) -> (r: Chunk)
        ensures
            r.spec_source() matches ChunkSource::Bytecode(b) && b@ == bytecode@,
            r.spec_name() == spec_default_name(),
            r.spec_mode() == ChunkMode::Binary,
            r.spec_environment() is None,
    {
        let name = String::from_str("chunk");
        proof {
            reveal_strlit("chunk");
        }
        Chunk {
            source: ChunkSource::Bytecode(bytecode),
            name,
            environment: None,
            compiler: None,
            mode: ChunkMode::Binary,
        }
    }

    /// The source.
    pub closed spec fn spec_source(&self) -> ChunkSource {
        self.source
    }

    /// The name.
    pub closed spec fn spec_name(&self) -> Seq<char> {
        self.name@
    }

    /// The mode.
    pub closed spec fn spec_mode(&self) -> ChunkMode {
        self.mode
    }

    /// The chunk's own compiler options, if any were set.
    pub closed spec fn spec_compiler(&self) -> Option<Compiler> {
        self.compiler
    }

    /// The environment table, if one is set.
    pub closed spec fn spec_environment(&self) -> Option<ObjectId> {
        self.environment
    }

    /// The chunk with its name set.
    pub fn set_name(self, name: String) -> (r: Chunk)
        ensures
            r.spec_name() == name@,
            r.spec_mode() == self.spec_mode(),
            r.spec_environment() == self.spec_environment(),
            r.spec_source() == self.spec_source(),
            r.spec_compiler() == self.spec_compiler(),
    {
        Chunk { name, ..self }
    }

    /// The chunk with its mode set.
    pub fn set_mode(self, mode: ChunkMode) -> (r: Chunk)
        ensures
            r.spec_mode() == mode,
            r.spec_name() == self.spec_name(),
            r.spec_environment() == self.spec_environment(),
            r.spec_source() == self.spec_source(),
            r.spec_compiler() == self.spec_compiler(),
    {
        Chunk { mode, ..self }
    }

    /// The chunk with its environment table set.
    pub fn set_environment(self, env: ObjectId) -> (r: Chunk)
        ensures
            r.spec_environment() == Some(env),
            r.spec_name() == self.spec_name(),
            r.spec_mode() == self.spec_mode(),
            r.spec_source() == self.spec_source(),
            r.spec_compiler() == self.spec_compiler(),
    {
        Chunk { environment: Some(env), ..self }
    }

    /// The chunk with its own compiler options.
    pub fn set_compiler(self, compiler: Compiler) -> (r: Chunk)
        ensures
            r.spec_compiler() == Some(compiler),
            r.spec_source() == self.spec_source(),
            r.spec_name() == self.spec_name(),
            r.spec_mode() == self.spec_mode(),
            r.spec_environment() == self.spec_environment(),
    {
        Chunk { compiler: Some(compiler), ..self }
    }

    /// The mode.
    pub fn mode(&self) -> (r: ChunkMode)
        ensures
            r == self.spec_mode(),
    {
        self.mode
    }

    /// The name.
    pub fn name(&self) -> (r: &str)
        ensures
            r@ == self.spec_name(),
    {
        self.name.as_str()
    }

    /// The name the chunk is loaded under: `=` and its name.
    pub fn chunk_name(&self) -> (r: String)
        ensures
            r@ == seq!['='] + self.spec_name(),
    {
        proof {
            reveal_strlit("=");
            reveal_strlit("");
        }
        crate::error::concat3("=", self.name.as_str(), "")
    }
}

/// Whether `pat` occurs in `s` at `i`.
pub open spec fn spec_occurs_at(s: Seq<char>, pat: Seq<char>, i: int) -> bool {
    0 <= i && i + pat.len() <= s.len() && s.subrange(i, i + pat.len()) == pat
}

/// Whether `pat` occurs in `s`.
pub open spec fn spec_contains(s: Seq<char>, pat: Seq<char>) -> bool {
    exists|i: int| #[trigger] spec_occurs_at(s, pat, i)
}

/// Whether `pat` occurs in `s`.
pub fn contains_text(s: &str, pat: &str) -> (r: bool)
    ensures
        r == spec_contains(s@, pat@),
{
    let n = s.unicode_len();
    let m = pat.unicode_len();
    if m > n {
        assert forall|i: int| !#[trigger] spec_occurs_at(s@, pat@, i) by {}
        return false;
    }
    let mut i: usize = 0;
    while i <= n - m
        invariant
            n == s@.len(),
            m == pat@.len(),
            m <= n,
            i <= n - m + 1,
            forall|k: int| 0 <= k < i ==> !#[trigger] spec_occurs_at(s@, pat@, k),
        decreases n - i,
    {
        let mut j: usize = 0;
        let mut same = true;
        while j < m
            invariant
                n == s@.len(),
                m == pat@.len(),
                i + m <= n,
                j <= m,
                same <==> forall|k: int| 0 <= k < j ==> s@[i + k] == pat@[k],
            decreases m - j,
        {
            if s.get_char(i + j) != pat.get_char(j) {
                same = false;
            }
            j += 1;
        }
        if same {
            assert(s@.subrange(i as int, i + m) =~= pat@);
            assert(spec_occurs_at(s@, pat@, i as int));
            return true;
        }
        assert(!spec_occurs_at(s@, pat@, i as int)) by {
            if s@.subrange(i as int, i + m) == pat@ {
                assert forall|k: int| 0 <= k < m implies s@[i + k] == pat@[k] by {
                    assert(s@.subrange(i as int, i + m)[k] == s@[i + k]);
                }
            }
        }
        i += 1;
    }
    assert forall|k: int| !#[trigger] spec_occurs_at(s@, pat@, k) by {
        if 0 <= k < i {
        }
    }
    false
}

/// The source that evaluating a text first tries: `return ` and the text.
pub fn expression_source(text: &str) -> (r: String)
    ensures
        r@ == "return "@ + text@,
{
    proof {
        reveal_strlit("");
        assert(("return "@ + text@ + ""@) =~= "return "@ + text@);
    }
    crate::error::concat3("return ", text, "")
}

/// The result of a compilation whose error text (when the output starts
/// with a 0 byte) is `message`: a syntax error, incomplete when the text
/// mentions `<eof>`; otherwise the bytecode.
pub fn compile_result(output: Vec<u8>, message: &str) -> (r: Result<Vec<u8>, Error>)
    ensures
        output@.len() > 0 && output@[0] == 0u8 ==> (r matches Err(Error::SyntaxError { message: m, incomplete_input: inc })
            && m@ == message@ && inc == spec_contains(message@, "<eof>"@)),
        !(output@.len() > 0 && output@[0] == 0u8) ==> (r matches Ok(b) && b@ == output@),
{
    if output.len() > 0 && output[0] == 0u8 {
        let incomplete_input = contains_text(message, "<eof>");
        return Err(Error::SyntaxError { message: message.to_owned(), incomplete_input });
    }
    Ok(output)
}

} // verus!
