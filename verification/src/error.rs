//! The error taxonomy of the retrieval engine. Per-item failures are
//! absorbed where they arise and never surface here; these are the
//! per-query and per-session failures.
use vstd::prelude::*;

verus! {

/// Why a query, or the whole worker, failed.
#[derive(Clone, Debug, PartialEq, Eq)]
pub enum Error {
    /// Network, DNS or HTTP failure against a source; triggers the fallback
    /// from the mirror to automation, terminal once automation also failed.
    TransientSource { detail: String },
    /// The expected page structure was absent.
    StructuralParse { detail: String },
    /// A wait of the automation workflow exceeded its bound.
    AutomationTimeout { step: String },
    /// An expected interactive element was missing or an action failed.
    AutomationStep { step: String },
    /// The browser session could not be established at startup; fatal to
    /// the whole worker.
    SessionUnavailable,
}

impl Error {
    /// The human-readable cause carried by this error.
    pub open spec fn spec_message(self) -> Seq<char> {
        match self {
            Error::TransientSource { detail } => "source unreachable: "@ + detail@,
            Error::StructuralParse { detail } => "page structure absent: "@ + detail@,
            Error::AutomationTimeout { step } => "automation wait timed out: "@ + step@,
            Error::AutomationStep { step } => "automation step failed: "@ + step@,
            Error::SessionUnavailable => "browser session unavailable"@,
        }
    }

    /// Render the cause as text.
    pub fn message(&self) -> (r: String)
        ensures
            r@ == self.spec_message(),
    {
        match self {
            Error::TransientSource { detail } => String::from_str("source unreachable: ").concat(
                detail.as_str(),
            ),
            Error::StructuralParse { detail } => String::from_str("page structure absent: ")
                .concat(detail.as_str()),
            Error::AutomationTimeout { step } => String::from_str("automation wait timed out: ")
                .concat(step.as_str()),
            Error::AutomationStep { step } => String::from_str("automation step failed: ").concat(
                step.as_str(),
            ),
            Error::SessionUnavailable => String::from_str("browser session unavailable"),
        }
    }
}

} // verus!
