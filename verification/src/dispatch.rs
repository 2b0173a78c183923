//! The query dispatcher's decisions: mirror first, automation only as a
//! fallback, one typed response per query with the envelope echoed back.
//! The runtime loop that owns the browser session performs the fetches
//! and automation steps; it asks these functions what to do next.
use vstd::prelude::*;
use crate::error::Error;
use crate::model::{
    DekaInfo, RetrievalOutcome, TGMessgae, TGResponse, TGResponseErr, TGResponseOkay,
};

verus! {

/// What the dispatcher does once the mirror attempt has finished.
#[derive(Clone, Debug, PartialEq, Eq)]
pub enum DispatchStep {
    /// The mirror found records: respond at once, without touching the
    /// shared browser session.
    Respond(Vec<DekaInfo>),
    /// The mirror found nothing or failed: acquire the session and run
    /// the automation fallback; its outcome is final.
    RunAutomation,
}

/// Decide the dispatch step after the mirror attempt. Automation runs
/// exactly when the mirror found no records — never when it returned at
/// least one record, always when it came back empty or failed.
pub fn after_mirror(mirror: RetrievalOutcome) -> (s: DispatchStep)
    ensures
        (s is RunAutomation) <==> (match mirror {
            RetrievalOutcome::Records(v) => v@.len() == 0,
            RetrievalOutcome::Empty => true,
            RetrievalOutcome::Failed(_) => true,
        }),
        s matches DispatchStep::Respond(v) ==> mirror == RetrievalOutcome::Records(v) && v@.len()
            > 0,
{
    match mirror {
        RetrievalOutcome::Records(v) => {
            if v.len() > 0 {
                DispatchStep::Respond(v)
            } else {
                DispatchStep::RunAutomation
            }
        },
        _ => DispatchStep::RunAutomation,
    }
}

/// The fixed sender tag of every response.
pub open spec fn spec_from_tag() -> Seq<char> {
    "deka"@
}

/// The prefix put before a failure's cause in the error text.
pub open spec fn spec_error_prefix() -> Seq<char> {
    "Unable to find Deka:\n"@
}

/// Wrap a final outcome into the one response for a query. The envelope
/// is echoed verbatim. Records give a successful response carrying them;
/// an empty outcome gives a successful response with no list; a failure
/// gives an error response whose text carries the cause.
pub fn wrap_response(message: TGMessgae, outcome: RetrievalOutcome) -> (r: TGResponse)
    ensures
        (r is Okay) <==> !(outcome is Failed),
        r matches TGResponse::Okay(ok) ==> ok.from@ == spec_from_tag() && ok.message == message
            && (match outcome {
            RetrievalOutcome::Records(v) => ok.result == Some(v),
            RetrievalOutcome::Empty => ok.result is None,
            RetrievalOutcome::Failed(_) => false,
        }),
        r matches TGResponse::Error(er) ==> er.from@ == spec_from_tag() && er.message == message
            && (outcome matches RetrievalOutcome::Failed(e) && er.error@ == spec_error_prefix()
            + e.spec_message()),
{
    match outcome {
        RetrievalOutcome::Records(v) => TGResponse::Okay(
            TGResponseOkay { from: String::from_str("deka"), message, result: Some(v) },
        ),
        RetrievalOutcome::Empty => TGResponse::Okay(
            TGResponseOkay { from: String::from_str("deka"), message, result: None },
        ),
        RetrievalOutcome::Failed(e) => TGResponse::Error(
            TGResponseErr {
                from: String::from_str("deka"),
                message,
                error: String::from_str("Unable to find Deka:\n").concat(e.message().as_str()),
            },
        ),
    }
}

/// Law: a failed query's error text carries the failure's cause within
/// it, whatever the cause.
pub proof fn lemma_error_text_contains_cause(e: Error)
    ensures
        crate::text::spec_contains(spec_error_prefix() + e.spec_message(), e.spec_message()),
{
    let whole = spec_error_prefix() + e.spec_message();
    let i = spec_error_prefix().len() as int;
    assert(whole.subrange(i, i + e.spec_message().len()) =~= e.spec_message());
    assert(crate::text::contains_at(whole, e.spec_message(), i));
}

} // verus!
