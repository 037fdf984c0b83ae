use crate::text::plain_text;
use crate::value::Value;
use vstd::prelude::*;
use vstd::string::StringExecFns;

verus! {

/// A configuration value: what a catalog node binds, what an input
/// supplies, and what a step names as an operand.
#[derive(Clone, Debug, PartialEq, Eq)]
pub enum Scalar {
    Null,
    Bool(bool),
    Number(Value),
    Text(String),
    /// A list or a record, held as its serialised text.
    Other(String),
}

impl Scalar {
    /// The text by which a value is compared with the values of label
    /// nodes: strings stand for themselves, numbers and booleans are
    /// written in their canonical form.
    pub open spec fn text(&self) -> Seq<char> {
        match *self {
            Scalar::Null => "null"@,
            Scalar::Bool(b) => if b { "true"@ } else { "false"@ },
            Scalar::Number(v) => plain_text(v@),
            Scalar::Text(s) => s@,
            Scalar::Other(s) => s@,
        }
    }

    /// Writes the value out as `text` describes.
    pub fn to_text(&self) -> (r: String)
        ensures
            r@ == self.text(),
    {
        match self {
            Scalar::Null => String::from_str("null"),
            Scalar::Bool(b) => if *b {
                String::from_str("true")
            } else {
                String::from_str("false")
            },
            Scalar::Number(v) => v.to_text(),
            Scalar::Text(s) => s.clone(),
            Scalar::Other(s) => s.clone(),
        }
    }
}

} // verus!
