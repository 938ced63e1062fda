//! The canonical error taxonomy every call of this adapter reports through,
//! and the classifier that turns upstream free-text failures into it.

use vstd::prelude::*;

use crate::text::{contains_lower, spec_contains, spec_lower};

verus! {

/// A canonical error value, produced fresh per call and never mutated.
#[derive(Debug, Clone)]
pub enum BorsaError {
    /// The resource does not exist from the vendor's perspective.
    NotFound { what: String },
    /// The vendor's transport or service failed for an unclassified reason;
    /// the originating connector's name is preserved for diagnostics.
    Connector { connector: String, msg: String },
    /// Caller-supplied input is structurally wrong.
    InvalidArg(String),
    /// The request is well-formed but this vendor cannot serve it.
    Unsupported(String),
    /// A payload was present but could not be interpreted into the canonical
    /// shape.
    Data(String),
    /// An untyped failure that no layer has classified yet.
    Other(String),
}

impl BorsaError {
    /// Builds a `NotFound` error for the named resource.
    pub fn not_found(what: String) -> (r: BorsaError)
        ensures
            r == (BorsaError::NotFound { what }),
    {
        BorsaError::NotFound { what }
    }

    /// Builds a `Connector` error carrying the originating connector's name.
    pub fn connector(connector: &str, msg: String) -> (r: BorsaError)
        ensures
            r matches BorsaError::Connector { connector: c, msg: m } && c@ == connector@ && m == msg,
    {
        BorsaError::Connector { connector: connector.to_owned(), msg }
    }

    /// Builds an `Unsupported` error with the given description.
    pub fn unsupported(msg: &str) -> (r: BorsaError)
        ensures
            r matches BorsaError::Unsupported(m) && m@ == msg@,
    {
        BorsaError::Unsupported(msg.to_owned())
    }

    /// The error rendered as one line of text, kind first.
    pub fn message(&self) -> (r: String)
        ensures
            self matches BorsaError::NotFound { what } ==> r@ == "not found: "@ + what@,
            self matches BorsaError::Connector { connector, msg } ==> r@ == "connector '"@
                + connector@ + "': "@ + msg@,
            self matches BorsaError::InvalidArg(m) ==> r@ == "invalid argument: "@ + m@,
            self matches BorsaError::Unsupported(m) ==> r@ == "unsupported: "@ + m@,
            self matches BorsaError::Data(m) ==> r@ == "data error: "@ + m@,
            self matches BorsaError::Other(m) ==> r@ == m@,
    {
        match self {
            BorsaError::NotFound { what } => {
                let mut s = String::new();
                s.append("not found: ");
                s.append(what.as_str());
                s
            },
            BorsaError::Connector { connector, msg } => {
                let mut s = String::new();
                s.append("connector '");
                s.append(connector.as_str());
                s.append("': ");
                s.append(msg.as_str());
                s
            },
            BorsaError::InvalidArg(m) => {
                let mut s = String::new();
                s.append("invalid argument: ");
                s.append(m.as_str());
                s
            },
            BorsaError::Unsupported(m) => {
                let mut s = String::new();
                s.append("unsupported: ");
                s.append(m.as_str());
                s
            },
            BorsaError::Data(m) => {
                let mut s = String::new();
                s.append("data error: ");
                s.append(m.as_str());
                s
            },
            BorsaError::Other(m) => m.clone(),
        }
    }
}

/// The fixed, case-insensitive vocabulary of upstream phrasings that signal
/// "nothing found".  The vendor reports errors as free text only, so this is
/// necessarily a heuristic; unknown phrasings stay connector failures.
pub open spec fn spec_not_found_text(msg: Seq<char>) -> bool {
    ||| spec_contains(spec_lower(msg), "invalid api call"@)
    ||| spec_contains(spec_lower(msg), "no data"@)
    ||| spec_contains(spec_lower(msg), "not found"@)
    ||| spec_contains(spec_lower(msg), "unknown symbol"@)
    ||| spec_contains(spec_lower(msg), "no matches"@)
}

/// Whether an upstream error message matches the "nothing found" vocabulary,
/// ignoring ASCII case.
pub fn looks_like_not_found(msg: &str) -> (r: bool)
    ensures
        r == spec_not_found_text(msg@),
{
    contains_lower(msg, "invalid api call") || contains_lower(msg, "no data") || contains_lower(
        msg,
        "not found",
    ) || contains_lower(msg, "unknown symbol") || contains_lower(msg, "no matches")
}

/// What classifying `e` while fetching `what` leaves behind: a
/// connector-identified or untyped error whose text matches the
/// "nothing found" vocabulary narrows to `NotFound`; any other untyped
/// error is wrapped under this adapter's connector name; every other kind
/// passes through unchanged.
pub open spec fn spec_normalized(e: BorsaError, what: Seq<char>, r: BorsaError) -> bool {
    &&& e matches BorsaError::Connector { connector: c0, msg: m0 } ==> if spec_not_found_text(
        m0@,
    ) {
        r matches BorsaError::NotFound { what: w } && w@ == what
    } else {
        r == (BorsaError::Connector { connector: c0, msg: m0 })
    }
    &&& e matches BorsaError::Other(m0) ==> if spec_not_found_text(m0@) {
        r matches BorsaError::NotFound { what: w } && w@ == what
    } else {
        r matches BorsaError::Connector { connector: c, msg: m } && c@ == crate::CONNECTOR_NAME@
            && m == m0
    }
    &&& !(e matches BorsaError::Connector { .. }) && !(e matches BorsaError::Other(_)) ==> r == e
}

/// Classifies an upstream failure while fetching `what`.
pub fn normalize_error(e: BorsaError, what: &str) -> (r: BorsaError)
    ensures
        spec_normalized(e, what@, r),
{
    match e {
        BorsaError::Connector { connector, msg } => {
            if looks_like_not_found(msg.as_str()) {
                BorsaError::not_found(what.to_owned())
            } else {
                BorsaError::Connector { connector, msg }
            }
        },
        BorsaError::Other(msg) => {
            if looks_like_not_found(msg.as_str()) {
                BorsaError::not_found(what.to_owned())
            } else {
                BorsaError::connector(crate::CONNECTOR_NAME, msg)
            }
        },
        other => other,
    }
}

} // verus!
