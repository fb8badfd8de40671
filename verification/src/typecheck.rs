//! Diagnostics of the static type analysis: their positions, their text, and
//! how a check's diagnostics become its result.

use vstd::prelude::*;
use crate::error::{Error, TypeDiagnostic, spec_decimal};

verus! {

/// The diagnostics that lie in the host definitions, in order.
pub open spec fn spec_definition_errors(s: Seq<TypeDiagnostic>) -> Seq<TypeDiagnostic> {
    s.filter(|d: TypeDiagnostic| d.in_definitions)
}

/// Keeps the diagnostics that lie in the host definitions, in order.
pub fn definition_errors(diagnostics: Vec<TypeDiagnostic>) -> (r: Vec<TypeDiagnostic>)
    ensures
        r@ == spec_definition_errors(diagnostics@),
{
    let ghost all = diagnostics@;
    let mut rest = diagnostics;
    let mut out: Vec<TypeDiagnostic> = Vec::new();
    let mut i: usize = 0;
    proof {
        reveal(Seq::filter);
        assert(spec_definition_errors(all.subrange(0, 0)) =~= Seq::<TypeDiagnostic>::empty());
    }
    let total: usize = rest.len();
    assert(all.len() == total);
    while rest.len() > 0
        invariant
            i <= all.len(),
            all.len() <= usize::MAX,
            rest@ == all.subrange(i as int, all.len() as int),
            out@ == spec_definition_errors(all.subrange(0, i as int)),
        decreases rest.len(),
    {
        let d = rest.remove(0);
        assert(all[i as int] == d);
        let ghost prefix = all.subrange(0, i as int);
        assert(all.subrange(0, i + 1) =~= prefix.push(d));
        proof {
            reveal(Seq::filter);
            assert(prefix.push(d).drop_last() =~= prefix);
        }
        if d.in_definitions {
            out.push(d);
        }
        i += 1;
        assert(rest@ =~= all.subrange(i as int, all.len() as int));
    }
    assert(all.subrange(0, all.len() as int) =~= all);
    out
}

/// The result of a check: clean when there is no diagnostic.
pub fn check_result(diagnostics: Vec<TypeDiagnostic>) -> (r: Result<(), Error>)
    ensures
        diagnostics@.len() == 0 ==> r is Ok,
        diagnostics@.len() > 0 ==> (r matches Err(Error::TypeError(ds)) && ds@ == diagnostics@),
{
    if diagnostics.len() == 0 {
        Ok(())
    } else {
        Err(Error::TypeError(diagnostics))
    }
}

/// A diagnostic at a 0-based span of the analysis, reported 1-based.
pub fn location_diagnostic(
    module: Option<String>,
    begin_line: u32,
    begin_column: u32,
    end_line: u32,
    end_column: u32,
    message: String,
    in_definitions: bool,
) -> (r: TypeDiagnostic)
    requires
        begin_line < u32::MAX,
        begin_column < u32::MAX,
        end_line < u32::MAX,
        end_column < u32::MAX,
    ensures
        r.line == begin_line + 1,
        r.column == begin_column + 1,
        r.end_line == end_line + 1,
        r.end_column == end_column + 1,
        r.message == message,
        r.module == module,
        r.in_definitions == in_definitions,
{
    TypeDiagnostic {
        module,
        line: begin_line + 1,
        column: begin_column + 1,
        end_line: end_line + 1,
        end_column: end_column + 1,
        message,
        in_definitions,
    }
}

/// The text of a diagnostic: `(host definitions) ` when it lies in the
/// definitions, `module:` when it names one, then `line:column: message`.
pub open spec fn spec_diagnostic_text(d: TypeDiagnostic) -> Seq<char> {
    (if d.in_definitions { "(host definitions) "@ } else { Seq::empty() })
        + (match d.module { Some(m) => m@ + ":"@, None => Seq::empty() })
        + spec_decimal(d.line as int) + ":"@ + spec_decimal(d.column as int) + ": "@ + d.message@
}

impl TypeDiagnostic {
    /// The text of the diagnostic, as it prints.
    pub fn text(&self) -> (r: String)
        ensures
            r@ == spec_diagnostic_text(*self),
    {
        let head = if self.in_definitions { "(host definitions) " } else { "" };
        let line = crate::error::decimal(self.line as i64);
        let column = crate::error::decimal(self.column as i64);
        let a = crate::error::concat3(head, "", "");
        let b = match &self.module {
            Some(m) => crate::error::concat3(a.as_str(), m.as_str(), ":"),
            None => crate::error::concat3(a.as_str(), "", ""),
        };
        let c = crate::error::concat3(b.as_str(), line.as_str(), ":");
        let d = crate::error::concat3(c.as_str(), column.as_str(), ": ");
        let e = crate::error::concat3(d.as_str(), self.message.as_str(), "");
        proof {
            reveal_strlit("");
            assert(""@ =~= Seq::<char>::empty());
            assert(e@ =~= spec_diagnostic_text(*self));
        }
        e
    }
}

} // verus!
