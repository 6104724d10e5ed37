//! A minimal model of the call-expression and argument nodes the resolver
//! reads and the emitter produces.
use vstd::prelude::*;
use vstd::string::StrSliceExecFns;

use crate::errors::EmitError;

verus! {

/// Whether text can stand inside a level-zero long-bracket string literal:
/// it must not hold a closing `]]`, nor end with `]`.
pub open spec fn long_bracket_ok(s: Seq<char>) -> bool {
    &&& forall|i: int| 0 <= i < s.len() - 1 ==> !(#[trigger] s[i] == ']' && s[i + 1] == ']')
    &&& s.len() > 0 ==> s[s.len() - 1] != ']'
}

/// A string-literal node, emitted in long-bracket form so that separators
/// and quotes in path text never need escaping.
pub struct StringExpression {
    value: String,
}

impl StringExpression {
    /// The text the literal evaluates to.
    pub closed spec fn spec_value(&self) -> Seq<char> {
        self.value@
    }

    /// Wraps text as a long-bracket literal; rejected when the text cannot
    /// be bracketed without escaping.
    pub fn new(value: String) -> (r: Result<StringExpression, EmitError>)
        ensures
            match r {
                Ok(e) => long_bracket_ok(value@) && e.spec_value() == value@,
                Err(e) => !long_bracket_ok(value@) && e is Literal,
            },
    {
        let n: usize = value.as_str().unicode_len();
        if n > 0 && value.as_str().get_char(n - 1) == ']' {
            return Err(EmitError::Literal);
        }
        let mut i: usize = 0;
        while i < n && i + 1 < n
            invariant
                0 <= i <= n,
                n == value@.len(),
                forall|j: int| 0 <= j < i ==> !(#[trigger] value@[j] == ']' && value@[j + 1] == ']'),
            decreases n - i,
        {
            if value.as_str().get_char(i) == ']' && value.as_str().get_char(i + 1) == ']' {
                return Err(EmitError::Literal);
            }
            i = i + 1;
        }
        Ok(StringExpression { value })
    }

    /// The text the literal evaluates to.
    pub fn get_value(&self) -> (r: &String)
        ensures
            r@ == self.spec_value(),
    {
        &self.value
    }
}

/// A call-argument node, as far as import recognition reads it: a lone
/// string literal, or any other argument shape.
pub enum Arguments {
    StringLiteral(StringExpression),
    Other,
}

/// A call expression: the name the call is made through and its arguments.
pub struct FunctionCall {
    pub name: String,
    pub arguments: Arguments,
}

/// A recognized path-style import: a call through `require` whose single
/// argument is a string literal.
pub open spec fn is_path_require(call: FunctionCall) -> bool {
    call.name@ == "require"@ && call.arguments is StringLiteral
}

/// The text of a call's literal argument; empty for any other shape.
pub open spec fn literal_text(a: Arguments) -> Seq<char> {
    match a {
        Arguments::StringLiteral(e) => e.spec_value(),
        Arguments::Other => Seq::empty(),
    }
}

/// Recognizes the shape of a path-style import: the literal node when the
/// call is one, nothing when it is not.
pub fn match_path_require_call(call: &FunctionCall) -> (r: Option<&StringExpression>)
    ensures
        match r {
            Some(e) => is_path_require(*call) && e.spec_value() == literal_text(call.arguments),
            None => !is_path_require(*call),
        },
{
    match &call.arguments {
        Arguments::StringLiteral(e) => {
            if crate::text::text_eq(call.name.as_str(), "require") {
                Some(e)
            } else {
                None
            }
        },
        Arguments::Other => None,
    }
}

} // verus!
