//! What a failed boot carries: the variable, its value, what was accepted and
//! the underlying error, and its one-line rendering.

use vstd::prelude::*;

use crate::text::{debug_quoted, debug_text, Text};

verus! {

/// The rendering of a refusal:
/// `VARIABLE="value" is not valid — expected ACCEPTED ( (detail))`.
pub open spec fn refusal_line(
    variable: Seq<char>,
    value: Seq<char>,
    accepted: Seq<char>,
    detail: Option<Seq<char>>,
) -> Seq<char> {
    let head = variable + "="@ + debug_text(value) + " is not valid — expected "@ + accepted;
    match detail {
        Some(d) => head + " ("@ + d + ")"@,
        None => head,
    }
}

/// The spec-side picture of a `Refusal`.
pub struct RefusalV {
    pub variable: Seq<char>,
    pub value: Seq<char>,
    pub accepted: Seq<char>,
    pub detail: Option<Seq<char>>,
}

/// A refusal with no detail.
pub open spec fn refusal_v(variable: Seq<char>, value: Seq<char>, accepted: Seq<char>) -> RefusalV {
    RefusalV { variable, value, accepted, detail: None }
}

/// A refusal with a detail.
pub open spec fn refusal_d(
    variable: Seq<char>,
    value: Seq<char>,
    accepted: Seq<char>,
    detail: Seq<char>,
) -> RefusalV {
    RefusalV { variable, value, accepted, detail: Some(detail) }
}

#[derive(Debug, Clone, PartialEq, Eq)]
pub struct Refusal {
    /// The spelling the operator set: an env name, a flag, a file key.
    pub variable: String,
    pub value: String,
    pub accepted: String,
    pub detail: Option<String>,
}

impl View for Refusal {
    type V = RefusalV;

    open spec fn view(&self) -> RefusalV {
        RefusalV {
            variable: self.variable@,
            value: self.value@,
            accepted: self.accepted@,
            detail: match self.detail {
                Some(d) => Some(d@),
                None => None,
            },
        }
    }
}

impl Refusal {
    pub fn new<V: Text, W: Text, A: Text>(variable: V, value: W, accepted: A) -> (r: Self)
        ensures
            r.variable@ == variable.text(),
            r.value@ == value.text(),
            r.accepted@ == accepted.text(),
            r.detail is None,
    {
        Refusal {
            variable: variable.into_string(),
            value: value.into_string(),
            accepted: accepted.into_string(),
            detail: None,
        }
    }

    pub fn with_detail<D: Text>(self, detail: D) -> (r: Self)
        ensures
            r.variable == self.variable,
            r.value == self.value,
            r.accepted == self.accepted,
            r.detail matches Some(d) && d@ == detail.text(),
    {
        Refusal { detail: Some(detail.into_string()), ..self }
    }

    /// The rendering `Display` gives.
    pub fn to_string(&self) -> (r: String)
        ensures
            r@ == refusal_line(self@.variable, self@.value, self@.accepted, self@.detail),
    {
        let mut out = self.variable.clone();
        out.append("=");
        let quoted = debug_quoted(self.value.as_str());
        out.append(quoted.as_str());
        out.append(" is not valid — expected ");
        out.append(self.accepted.as_str());
        match &self.detail {
            Some(d) => {
                out.append(" (");
                out.append(d.as_str());
                out.append(")");
            },
            None => {},
        }
        out
    }
}

} // verus!
