//! Data model: incoming relay messages, the two query forms, retrieved case
//! records, and the typed responses handed back to the relay boundary.
use vstd::prelude::*;
use crate::error::Error;

verus! {

/// What one attempt against a source came to: records found, a search
/// that ran and found nothing, or a typed failure carrying a cause.
#[derive(Clone, Debug, PartialEq, Eq)]
pub enum RetrievalOutcome {
    /// The search ran and found these records.
    Records(Vec<DekaInfo>),
    /// The search ran and found nothing.
    Empty,
    /// The attempt failed for the carried cause.
    Failed(Error),
}

/// The sender of a relay message; echoed back, never interpreted.
#[derive(Clone, Debug, PartialEq, Eq)]
pub struct TGUser {
    pub id: u64,
    pub is_bot: bool,
    pub first_name: String,
    pub last_name: Option<String>,
    pub username: String,
    pub language_code: String,
}

/// The chat a relay message came from; echoed back, never interpreted.
#[derive(Clone, Debug, PartialEq, Eq)]
pub struct TGChat {
    pub id: u64,
    pub username: String,
    pub first_name: String,
    pub chat_type: String,
}

/// One relay message body; echoed back, never interpreted.
#[derive(Clone, Debug, PartialEq, Eq)]
pub struct TGMessageInfo {
    pub message_id: u64,
    pub from: TGUser,
    pub chat: TGChat,
    pub date: u64,
    pub text: String,
}

/// The opaque relay envelope: preserved verbatim from query to response.
#[derive(Clone, Debug, PartialEq, Eq)]
pub struct TGMessgae {
    pub update_id: u64,
    pub message: TGMessageInfo,
}

/// A lookup of one case by its serial number and judgment year.
#[derive(Clone, Debug, PartialEq, Eq)]
pub struct TGDekaNumber {
    pub deka_serial: String,
    pub deka_year: u32,
    pub with_long_note: bool,
}

/// A free-text search, optionally narrowed to one law, one section and a
/// year range.
#[derive(Clone, Debug, PartialEq, Eq)]
pub struct TGDekaSearch {
    pub search_words: Vec<String>,
    pub search_law: Option<String>,
    pub search_law_no: Option<String>,
    pub case_from: Option<u32>,
    pub case_to: Option<u32>,
    pub with_long_note: bool,
}

/// A case query: one of the two query forms.
#[derive(Clone, Debug, PartialEq, Eq)]
pub enum TGDeka {
    Number(TGDekaNumber),
    Search(TGDekaSearch),
}

impl TGDeka {
    /// The query invariant: a by-number query carries a serial and a
    /// positive year; a search carries at least one keyword, and its
    /// year range is not reversed when both bounds are given.
    pub open spec fn well_formed(self) -> bool {
        match self {
            TGDeka::Number(n) => n.deka_serial@.len() > 0 && n.deka_year > 0,
            TGDeka::Search(s) => s.search_words@.len() > 0 && (match (s.case_from, s.case_to) {
                (Some(a), Some(b)) => a <= b,
                _ => true,
            }),
        }
    }

    /// Check the query invariant at the relay boundary.
    pub fn is_well_formed(&self) -> (r: bool)
        ensures
            r == self.well_formed(),
    {
        match self {
            TGDeka::Number(n) => n.deka_serial.as_str().unicode_len() > 0 && n.deka_year > 0,
            TGDeka::Search(s) => s.search_words.len() > 0 && (match (s.case_from, s.case_to) {
                (Some(a), Some(b)) => a <= b,
                _ => true,
            }),
        }
    }
}

/// One incoming query together with the envelope to echo back.
#[derive(Clone, Debug, PartialEq, Eq)]
pub struct MessagePayload {
    pub message: TGMessgae,
    pub info: TGDeka,
}

/// Provenance of a record: the statute citations and the source description.
#[derive(Clone, Debug, PartialEq, Eq)]
pub struct DekaMetadata {
    pub law: String,
    pub source: String,
}

/// One retrieved case record.
#[derive(Clone, Debug, PartialEq, Eq)]
pub struct DekaInfo {
    pub deka_no: String,
    pub short_note: String,
    pub long_note: Option<String>,
    pub metadata: DekaMetadata,
}

/// A successful response: the echoed envelope and the records found, or
/// no list at all when the source could not be reached.
#[derive(Clone, Debug, PartialEq, Eq)]
pub struct TGResponseOkay {
    pub from: String,
    pub message: TGMessgae,
    pub result: Option<Vec<DekaInfo>>,
}

/// A failed response: the echoed envelope and a human-readable cause.
#[derive(Clone, Debug, PartialEq, Eq)]
pub struct TGResponseErr {
    pub from: String,
    pub message: TGMessgae,
    pub error: String,
}

/// The one response returned per query.
#[derive(Clone, Debug, PartialEq, Eq)]
pub enum TGResponse {
    Okay(TGResponseOkay),
    Error(TGResponseErr),
}

} // verus!
