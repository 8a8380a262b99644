use vstd::prelude::*;
use crate::path::{key_spec, parse_key};
use crate::text::{split, split_spec, str_eq};
use crate::value::{LiteralView, Value};

verus! {

/// Why a predicate string was rejected.
#[derive(Debug, Clone, Copy, PartialEq, Eq, Structural)]
pub enum ParseError {
    /// Fewer than three comma-separated fields.
    MissingField,
    /// The third field holds no `:` between type tag and literal.
    MissingTypeSeparator,
    /// The literal is tagged `n` but does not read as a number.
    BadNumber,
    /// The literal is tagged `b` but is neither `true` nor `false`.
    BadBool,
}

/// The raw fields of a predicate string `path,operator,tag:text`.
#[derive(Debug)]
pub struct PredicateParts {
    pub path: String,
    pub operator: String,
    pub tag: String,
    pub text: String,
}

impl View for PredicateParts {
    type V = (Seq<char>, Seq<char>, Seq<char>, Seq<char>);

    open spec fn view(&self) -> Self::V {
        (self.path@, self.operator@, self.tag@, self.text@)
    }
}

/// A parsed predicate: the pointer of its path, its operator token, and its
/// typed literal.
#[derive(Debug)]
pub struct Predicate {
    pub path: String,
    pub operator: String,
    pub value: Value,
}

impl View for Predicate {
    type V = (Seq<char>, Seq<char>, LiteralView);

    open spec fn view(&self) -> Self::V {
        (self.path@, self.operator@, self.value@)
    }
}

pub open spec fn result_view<T: View>(r: Result<T, ParseError>) -> Result<T::V, ParseError> {
    match r {
        Ok(x) => Ok(x@),
        Err(e) => Err(e),
    }
}

/// The fields of a predicate string: the first three comma-separated fields
/// (any further ones are ignored), the third one cut at its colons into type
/// tag and literal text (pieces after a second colon are ignored).
pub open spec fn split_args_spec(s: Seq<char>) -> Result<
    (Seq<char>, Seq<char>, Seq<char>, Seq<char>),
    ParseError,
> {
    let fields = split_spec(s, ',');
    if fields.len() < 3 {
        Err(ParseError::MissingField)
    } else {
        let lit = split_spec(fields[2], ':');
        if lit.len() < 2 {
            Err(ParseError::MissingTypeSeparator)
        } else {
            Ok((fields[0], fields[1], lit[0], lit[1]))
        }
    }
}

/// Cuts a predicate string into its raw fields.
pub fn split_args_str(pred_str: &str) -> (r: Result<PredicateParts, ParseError>)
    ensures
        result_view(r) == split_args_spec(pred_str@),
{
    let fields = split(pred_str, ',');
    if fields.len() < 3 {
        return Err(ParseError::MissingField);
    }
    let lit = split(fields[2].as_str(), ':');
    if lit.len() < 2 {
        return Err(ParseError::MissingTypeSeparator);
    }
    let parts = PredicateParts {
        path: fields[0].clone(),
        operator: fields[1].clone(),
        tag: lit[0].clone(),
        text: lit[1].clone(),
    };
    Ok(parts)
}

/// The literal that a type tag and a literal text denote. `number` is the
/// reading of the text as a binary64 number, as its bit pattern, or `None`
/// where the text is no number; it matters for the tag `n` alone.
pub open spec fn literal_spec(tag: Seq<char>, text: Seq<char>, number: Option<u64>) -> Result<
    LiteralView,
    ParseError,
> {
    if tag == seq!['n'] {
        match number {
            Some(bits) => Ok(LiteralView::Num(bits)),
            None => Err(ParseError::BadNumber),
        }
    } else if tag == seq!['s'] {
        Ok(LiteralView::Str(text))
    } else if tag == seq!['b'] {
        if text == seq!['t', 'r', 'u', 'e'] {
            Ok(LiteralView::Bool(true))
        } else if text == seq!['f', 'a', 'l', 's', 'e'] {
            Ok(LiteralView::Bool(false))
        } else {
            Err(ParseError::BadBool)
        }
    } else {
        Ok(LiteralView::Unknown)
    }
}

/// Builds the typed literal of a predicate from its tag and text.
pub fn literal_of(tag: &str, text: &str, number: Option<u64>) -> (r: Result<Value, ParseError>)
    ensures
        result_view(r) == literal_spec(tag@, text@, number),
{
    proof {
        reveal_strlit("n");
        reveal_strlit("s");
        reveal_strlit("b");
        reveal_strlit("true");
        reveal_strlit("false");
        assert("n"@ =~= seq!['n']);
        assert("s"@ =~= seq!['s']);
        assert("b"@ =~= seq!['b']);
        assert("true"@ =~= seq!['t', 'r', 'u', 'e']);
        assert("false"@ =~= seq!['f', 'a', 'l', 's', 'e']);
    }
    if str_eq(tag, "n") {
        match number {
            Some(bits) => Ok(Value::Num(bits)),
            None => Err(ParseError::BadNumber),
        }
    } else if str_eq(tag, "s") {
        Ok(Value::Str(text.to_owned()))
    } else if str_eq(tag, "b") {
        if str_eq(text, "true") {
            Ok(Value::Bool(true))
        } else if str_eq(text, "false") {
            Ok(Value::Bool(false))
        } else {
            Err(ParseError::BadBool)
        }
    } else {
        Ok(Value::Unknown)
    }
}

/// The predicate that a string denotes, given the reading of its literal text
/// as a number.
pub open spec fn parse_spec(s: Seq<char>, number: Option<u64>) -> Result<
    (Seq<char>, Seq<char>, LiteralView),
    ParseError,
> {
    match split_args_spec(s) {
        Err(e) => Err(e),
        Ok(f) => match literal_spec(f.2, f.3, number) {
            Err(e) => Err(e),
            Ok(v) => Ok((key_spec(f.0), f.1, v)),
        },
    }
}

/// Parses a predicate string `path,operator,tag:text`. `number` is the
/// reading of the literal text (as `split_args_str` gives it) as a binary64
/// number, by its bit pattern, or `None` where it does not read as one.
pub fn parse_args_str(pred_str: &str, number: Option<u64>) -> (r: Result<Predicate, ParseError>)
    ensures
        result_view(r) == parse_spec(pred_str@, number),
{
    let parts = match split_args_str(pred_str) {
        Ok(p) => p,
        Err(e) => return Err(e),
    };
    let value = match literal_of(parts.tag.as_str(), parts.text.as_str(), number) {
        Ok(v) => v,
        Err(e) => return Err(e),
    };
    let path = parse_key(parts.path.as_str());
    Ok(Predicate { path, operator: parts.operator, value })
}

} // verus!
