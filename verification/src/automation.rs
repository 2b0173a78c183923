//! The automation driver's pure half: what to fill into which search
//! form, how the fixed workflow advances after each wait, what each
//! result item yields, and how print-view extended notes are matched
//! back onto records. The browser steps themselves run outside the
//! library; they hand element texts in and take decisions back.
use vstd::prelude::*;
use crate::model::{DekaInfo, DekaMetadata, RetrievalOutcome, TGDekaNumber, TGDekaSearch};
use crate::text::{
    blank_char, chars_of, contains_chars, dec_string, find_first, first_occ_at, is_blank,
    join_strings_sep, spec_contains, spec_dec, spec_join_sep, spec_starts_with, spec_trim,
    starts_with_chars, string_of_chars, trim_chars,
};

verus! {

/// The front page of the authoritative source.
pub open spec fn spec_authoritative_home() -> Seq<char> {
    "http://deka.supremecourt.or.th/"@
}

/// The case-type filter label selected on either form: Thai for
/// "Supreme Court judgment".
pub open spec fn spec_doc_type_label() -> Seq<char> {
    "\u{0e04}\u{0e33}\u{0e1e}\u{0e34}\u{0e1e}\u{0e32}\u{0e01}\u{0e29}\u{0e32}\u{0e28}\u{0e32}\u{0e25}\u{0e0e}\u{0e35}\u{0e01}\u{0e32}"@
}

/// The conjunction token joining search keywords: Thai for "and", with
/// the source's surrounding dots and spaces.
pub open spec fn spec_and_token() -> Seq<char> {
    " .\u{0e41}\u{0e25}\u{0e30}. "@
}

/// The bound on the results-page and print-page waits, in seconds; a
/// wait past it is a hard failure for the query.
pub const RESULT_WAIT_TIMEOUT_SECS: u64 = 30;

/// The front page of the authoritative source, as text for navigation.
pub fn authoritative_home() -> (r: String)
    ensures
        r@ == spec_authoritative_home(),
{
    String::from_str("http://deka.supremecourt.or.th/")
}

/// The workflow phases shared by both query forms after submission.
#[derive(Clone, Copy, Debug, PartialEq, Eq, Structural)]
pub enum DriverPhase {
    /// The form has been submitted.
    Submitted,
    /// Waiting for the results page URL, bounded at thirty seconds.
    WaitingForResultsPage,
    /// Waiting for the result marker element to render.
    WaitingForResultMarker,
    /// Turning on the inline extended-note toggle.
    ExpandLongNoteToggle,
    /// Reading the result items.
    ExtractResultItems,
    /// Navigating the print view to recover missing extended notes.
    PrintViewForMissingLongNotes,
    /// The query finished; its records are final.
    Done,
    /// The query failed; its error is final.
    Failed,
}

/// What the runtime reports back after performing one phase.
#[derive(Clone, Copy, Debug, PartialEq, Eq, Structural)]
pub enum DriverEvent {
    /// The wait or action succeeded.
    Advanced,
    /// The wait exceeded its bound.
    TimedOut,
    /// An expected element was missing or an action failed.
    StepFailed,
}

/// The next phase of the workflow: the linear wait chain, with the
/// toggle phase only when extended notes were requested and the print
/// view only when one is still missing afterwards; any timeout or step
/// failure is fatal to the query. Terminal phases absorb every event.
pub open spec fn spec_driver_next(
    phase: DriverPhase,
    ev: DriverEvent,
    with_long_note: bool,
    any_long_note_missing: bool,
) -> DriverPhase {
    match phase {
        DriverPhase::Done => DriverPhase::Done,
        DriverPhase::Failed => DriverPhase::Failed,
        _ => {
            if !(ev is Advanced) {
                DriverPhase::Failed
            } else {
                match phase {
                    DriverPhase::Submitted => DriverPhase::WaitingForResultsPage,
                    DriverPhase::WaitingForResultsPage => DriverPhase::WaitingForResultMarker,
                    DriverPhase::WaitingForResultMarker => {
                        if with_long_note {
                            DriverPhase::ExpandLongNoteToggle
                        } else {
                            DriverPhase::ExtractResultItems
                        }
                    },
                    DriverPhase::ExpandLongNoteToggle => DriverPhase::ExtractResultItems,
                    DriverPhase::ExtractResultItems => {
                        if with_long_note && any_long_note_missing {
                            DriverPhase::PrintViewForMissingLongNotes
                        } else {
                            DriverPhase::Done
                        }
                    },
                    DriverPhase::PrintViewForMissingLongNotes => DriverPhase::Done,
                    _ => DriverPhase::Failed,
                }
            }
        },
    }
}

/// Advance the workflow one phase. The second result tells the runtime
/// to release the per-query browser window: that happens exactly when
/// the query ends, on success and on failure alike, so a timed-out query
/// never leaves the session locked. The print view is never entered when
/// extended notes were not requested.
pub fn driver_next(
    phase: DriverPhase,
    ev: DriverEvent,
    with_long_note: bool,
    any_long_note_missing: bool,
) -> (r: (DriverPhase, bool))
    ensures
        r.0 == spec_driver_next(phase, ev, with_long_note, any_long_note_missing),
        !with_long_note ==> !(r.0 is PrintViewForMissingLongNotes),
        !(phase is Done) && !(phase is Failed) && !(ev is Advanced) ==> r.0 is Failed,
        r.1 == (r.0 is Done || r.0 is Failed),
{
    let next = match phase {
        DriverPhase::Done => DriverPhase::Done,
        DriverPhase::Failed => DriverPhase::Failed,
        _ => {
            match ev {
                DriverEvent::Advanced => {
                    match phase {
                        DriverPhase::Submitted => DriverPhase::WaitingForResultsPage,
                        DriverPhase::WaitingForResultsPage => DriverPhase::WaitingForResultMarker,
                        DriverPhase::WaitingForResultMarker => {
                            if with_long_note {
                                DriverPhase::ExpandLongNoteToggle
                            } else {
                                DriverPhase::ExtractResultItems
                            }
                        },
                        DriverPhase::ExpandLongNoteToggle => DriverPhase::ExtractResultItems,
                        DriverPhase::ExtractResultItems => {
                            if with_long_note && any_long_note_missing {
                                DriverPhase::PrintViewForMissingLongNotes
                            } else {
                                DriverPhase::Done
                            }
                        },
                        DriverPhase::PrintViewForMissingLongNotes => DriverPhase::Done,
                        _ => DriverPhase::Failed,
                    }
                },
                _ => DriverPhase::Failed,
            }
        },
    };
    let release = match next {
        DriverPhase::Done => true,
        DriverPhase::Failed => true,
        _ => false,
    };
    (next, release)
}

/// What the by-number form is filled with.
#[derive(Clone, Debug, PartialEq, Eq)]
pub struct NumberFormFill {
    pub doc_type: String,
    pub serial: String,
    pub start_year: String,
    pub end_year: String,
}

/// Fill the by-number form: the case-type filter, the serial, and both
/// year bounds set to the same year.
pub fn by_number_form(p: &TGDekaNumber) -> (f: NumberFormFill)
    ensures
        f.doc_type@ == spec_doc_type_label(),
        f.serial@ == p.deka_serial@,
        f.start_year@ == spec_dec(p.deka_year as nat),
        f.end_year@ == f.start_year@,
{
    let year = dec_string(p.deka_year as u64);
    NumberFormFill {
        doc_type: String::from_str(
            "\u{0e04}\u{0e33}\u{0e1e}\u{0e34}\u{0e1e}\u{0e32}\u{0e01}\u{0e29}\u{0e32}\u{0e28}\u{0e32}\u{0e25}\u{0e0e}\u{0e35}\u{0e01}\u{0e32}",
        ),
        serial: p.deka_serial.clone(),
        start_year: year.clone(),
        end_year: year,
    }
}

/// What the search form is filled with: the advanced form when a law
/// name is given, the basic form otherwise.
#[derive(Clone, Debug, PartialEq, Eq)]
pub struct SearchFormFill {
    pub advanced: bool,
    pub doc_type: String,
    pub keywords: String,
    pub law_name: Option<String>,
    pub law_section: Option<String>,
    pub start_year: Option<String>,
    pub end_year: Option<String>,
}

/// Fill the search form. Keywords are joined with the conjunction token;
/// the law section is filled only on the advanced form; the end year
/// defaults to the start year when absent; years are filled only when a
/// start year is given.
pub fn by_search_form(p: &TGDekaSearch) -> (f: SearchFormFill)
    ensures
        f.advanced == (p.search_law is Some),
        f.doc_type@ == spec_doc_type_label(),
        f.keywords@ == spec_join_sep(p.search_words.deep_view(), spec_and_token()),
        (match p.search_law {
            Some(l) => f.law_name matches Some(n) && n@ == l@,
            None => f.law_name is None,
        }),
        (match p.search_law_no {
            Some(l) => {
                if p.search_law is Some {
                    f.law_section matches Some(n) && n@ == l@
                } else {
                    f.law_section is None
                }
            },
            None => f.law_section is None,
        }),
        (match p.case_from {
            Some(cf) => {
                &&& f.start_year matches Some(sy) && sy@ == spec_dec(cf as nat)
                &&& f.end_year matches Some(ey) && ey@ == spec_dec(
                    (match p.case_to {
                        Some(ct) => ct,
                        None => cf,
                    }) as nat,
                )
            },
            None => f.start_year is None && f.end_year is None,
        }),
{
    let keyword_chars = join_strings_sep(&p.search_words, " .\u{0e41}\u{0e25}\u{0e30}. ");
    let keywords = string_of_chars(&keyword_chars);
    let law_name = match &p.search_law {
        Some(l) => Some(l.clone()),
        None => None,
    };
    let law_section = match (&p.search_law, &p.search_law_no) {
        (Some(_), Some(l)) => Some(l.clone()),
        _ => None,
    };
    let (start_year, end_year) = match p.case_from {
        Some(cf) => {
            let end = match p.case_to {
                Some(ct) => ct,
                None => cf,
            };
            (Some(dec_string(cf as u64)), Some(dec_string(end as u64)))
        },
        None => (None, None),
    };
    SearchFormFill {
        advanced: match &p.search_law {
            Some(_) => true,
            None => false,
        },
        doc_type: String::from_str(
            "\u{0e04}\u{0e33}\u{0e1e}\u{0e34}\u{0e1e}\u{0e32}\u{0e01}\u{0e29}\u{0e32}\u{0e28}\u{0e32}\u{0e25}\u{0e0e}\u{0e35}\u{0e01}\u{0e32}",
        ),
        keywords,
        law_name,
        law_section,
        start_year,
        end_year,
    }
}

/// The first autocomplete entry whose visible text contains the law
/// name: first match wins, with no disambiguation when several share the
/// substring; nothing when no entry matches.
pub fn pick_autocomplete(entries: &Vec<String>, law_name: &str) -> (r: Option<usize>)
    ensures
        r matches Some(i) ==> i < entries@.len() && spec_contains(
            entries.deep_view()[i as int],
            law_name@,
        ) && (forall|j: int|
            0 <= j < i ==> !spec_contains(#[trigger] entries.deep_view()[j], law_name@)),
        (r is None) <==> (forall|j: int|
            0 <= j < entries@.len() ==> !spec_contains(#[trigger] entries.deep_view()[j], law_name@)),
{
    let needle = chars_of(law_name);
    let mut i: usize = 0;
    while i < entries.len()
        invariant
            i <= entries@.len(),
            needle@ == law_name@,
            forall|j: int| 0 <= j < i ==> !spec_contains(#[trigger] entries.deep_view()[j], law_name@),
        decreases entries@.len() - i,
    {
        let hay = chars_of(entries[i].as_str());
        proof {
            assert(entries.deep_view()[i as int] =~= entries@[i as int]@);
        }
        if contains_chars(&hay, &needle) {
            return Some(i);
        }
        i = i + 1;
    }
    None
}

/// The text holds at least one blank character.
pub open spec fn has_blank(h: Seq<char>) -> bool {
    exists|i: int| 0 <= i < h.len() && is_blank(#[trigger] h[i])
}

/// The longest blank-free suffix of a text: what stands after its last
/// blank character.
pub open spec fn blankless_suffix(h: Seq<char>) -> Seq<char>
    decreases h.len(),
{
    if h.len() == 0 {
        Seq::<char>::empty()
    } else if is_blank(h.last()) {
        Seq::<char>::empty()
    } else {
        blankless_suffix(h.drop_last()).push(h.last())
    }
}

/// The case number read from a result item's compound hidden field,
/// written there as label, blank separator, then the number: the text
/// after the last blank. When the field holds no blank, or nothing
/// follows the last blank, the whole field stands in as the case number
/// — a record is never dropped for an unmatched field.
pub open spec fn spec_case_no_of(h: Seq<char>) -> Seq<char> {
    if has_blank(h) && blankless_suffix(h).len() > 0 {
        blankless_suffix(h)
    } else {
        h
    }
}

proof fn lemma_blankless_suffix_at(h: Seq<char>, k: int)
    requires
        0 < k <= h.len(),
        is_blank(h[k - 1]),
        forall|m: int| k <= m < h.len() ==> !is_blank(#[trigger] h[m]),
    ensures
        blankless_suffix(h) =~= h.skip(k),
    decreases h.len(),
{
    if k == h.len() {
        assert(is_blank(h.last()));
        assert(h.skip(k) =~= Seq::<char>::empty());
    } else {
        assert(!is_blank(h.last()));
        assert(forall|m: int| k <= m < h.drop_last().len() ==> !is_blank(#[trigger] h.drop_last()[m]));
        lemma_blankless_suffix_at(h.drop_last(), k);
        assert(h.drop_last().skip(k).push(h.last()) =~= h.skip(k));
    }
}

proof fn lemma_blankless_suffix_all(h: Seq<char>)
    requires
        forall|m: int| 0 <= m < h.len() ==> !is_blank(#[trigger] h[m]),
    ensures
        blankless_suffix(h) =~= h,
    decreases h.len(),
{
    if h.len() > 0 {
        assert(forall|m: int| 0 <= m < h.drop_last().len() ==> !is_blank(#[trigger] h.drop_last()[m]));
        lemma_blankless_suffix_all(h.drop_last());
    }
}

/// Extract the case number from a result item's compound hidden field.
pub fn extract_case_number(hidden: &str) -> (r: String)
    ensures
        r@ == spec_case_no_of(hidden@),
{
    let v = chars_of(hidden);
    let n = v.len();
    let mut k: usize = n;
    while k > 0 && !blank_char(v[k - 1])
        invariant
            k <= n,
            n == v@.len(),
            forall|m: int| k <= m < n ==> !is_blank(#[trigger] v@[m]),
        decreases k,
    {
        k = k - 1;
    }
    if k == 0 {
        proof {
            lemma_blankless_suffix_all(v@);
            assert(!has_blank(v@));
        }
        return string_of_chars(&v);
    }
    proof {
        assert(is_blank(v@[k - 1 as int]));
        assert(has_blank(v@));
        lemma_blankless_suffix_at(v@, k as int);
    }
    if k == n {
        proof {
            assert(v@.skip(k as int).len() == 0);
        }
        return string_of_chars(&v);
    }
    let mut suffix: Vec<char> = Vec::new();
    let mut i: usize = k;
    while i < n
        invariant
            k <= i <= n,
            n == v@.len(),
            suffix@ == v@.subrange(k as int, i as int),
        decreases n - i,
    {
        let c = v[i];
        suffix.push(c);
        proof {
            assert(v@.subrange(k as int, i as int).push(v@[i as int]) =~= v@.subrange(
                k as int,
                i + 1 as int,
            ));
        }
        i = i + 1;
    }
    proof {
        assert(v@.subrange(k as int, n as int) =~= v@.skip(k as int));
    }
    string_of_chars(&suffix)
}

/// Trim an element's text into an optional note: present only when
/// something remains after trimming.
pub fn clean_note(t: &str) -> (r: Option<String>)
    ensures
        (r is Some) <==> spec_trim(t@).len() > 0,
        r matches Some(n) ==> n@ == spec_trim(t@),
{
    let v = chars_of(t);
    let w = trim_chars(&v);
    if w.len() == 0 {
        None
    } else {
        Some(string_of_chars(&w))
    }
}

/// The raw texts read from one result-list item: the compound hidden
/// field and the four fixed sub-selectors, each absent where its element
/// was missing or unreadable.
#[derive(Clone, Debug, PartialEq, Eq)]
pub struct ResultItemRaw {
    pub hidden_no: Option<String>,
    pub short: Option<String>,
    pub long: Option<String>,
    pub law: Option<String>,
    pub source: Option<String>,
}

/// An item yields a record only when its short note, statute block and
/// source were all readable; a missing extended note or hidden field
/// never drops it.
pub open spec fn item_good(item: ResultItemRaw) -> bool {
    item.short is Some && item.law is Some && item.source is Some
}

/// The record one result item yields.
pub open spec fn result_record_from(rec: DekaInfo, item: ResultItemRaw) -> bool {
    &&& item_good(item)
    &&& rec.deka_no@ == spec_case_no_of(
        match item.hidden_no {
            Some(h) => h@,
            None => Seq::<char>::empty(),
        },
    )
    &&& rec.short_note@ == item.short->Some_0@
    &&& (match item.long {
        Some(l) => {
            if spec_trim(l@).len() > 0 {
                rec.long_note matches Some(n) && n@ == spec_trim(l@)
            } else {
                rec.long_note is None
            }
        },
        None => rec.long_note is None,
    })
    &&& rec.metadata.law@ == item.law->Some_0@
    &&& rec.metadata.source@ == item.source->Some_0@
}

/// Compile one result item into a record, or drop it.
pub fn compile_result_item(item: &ResultItemRaw) -> (r: Option<DekaInfo>)
    ensures
        (r is Some) <==> item_good(*item),
        r matches Some(rec) ==> result_record_from(rec, *item),
{
    let short = match &item.short {
        Some(s) => s.clone(),
        None => {
            return None;
        },
    };
    let law = match &item.law {
        Some(s) => s.clone(),
        None => {
            return None;
        },
    };
    let source = match &item.source {
        Some(s) => s.clone(),
        None => {
            return None;
        },
    };
    let deka_no = match &item.hidden_no {
        Some(h) => extract_case_number(h.as_str()),
        None => {
            let empty: Vec<char> = Vec::new();
            proof {
                assert(!has_blank(Seq::<char>::empty()));
                assert(spec_case_no_of(Seq::<char>::empty()) =~= Seq::<char>::empty());
            }
            string_of_chars(&empty)
        },
    };
    let long_note = match &item.long {
        Some(l) => clean_note(l.as_str()),
        None => None,
    };
    Some(
        DekaInfo {
            deka_no,
            short_note: short,
            long_note,
            metadata: DekaMetadata { law, source },
        },
    )
}

/// The records of a batch of result items, in result order, readable
/// items kept and unreadable ones dropped.
pub open spec fn spec_compiled_records(items: Seq<ResultItemRaw>, recs: Seq<DekaInfo>) -> bool
    decreases items.len(),
{
    if items.len() == 0 {
        recs.len() == 0
    } else if item_good(items[0]) {
        &&& recs.len() >= 1
        &&& result_record_from(recs[0], items[0])
        &&& spec_compiled_records(items.drop_first(), recs.drop_first())
    } else {
        spec_compiled_records(items.drop_first(), recs)
    }
}

proof fn lemma_compiled_records_snoc(
    items: Seq<ResultItemRaw>,
    recs: Seq<DekaInfo>,
    item: ResultItemRaw,
    rec: Option<DekaInfo>,
)
    requires
        spec_compiled_records(items, recs),
        match rec {
            Some(rc) => result_record_from(rc, item),
            None => !item_good(item),
        },
    ensures
        spec_compiled_records(
            items.push(item),
            match rec {
                Some(rc) => recs.push(rc),
                None => recs,
            },
        ),
    decreases items.len(),
{
    let ni = items.push(item);
    let nr = match rec {
        Some(rc) => recs.push(rc),
        None => recs,
    };
    if items.len() == 0 {
        assert(recs.len() == 0);
        assert(recs =~= Seq::<DekaInfo>::empty());
        assert(ni.drop_first() =~~= Seq::<ResultItemRaw>::empty());
        assert(ni[0] == item);
        assert(spec_compiled_records(Seq::<ResultItemRaw>::empty(), Seq::<DekaInfo>::empty()));
        match rec {
            Some(rc) => {
                assert(nr[0] == rc);
                assert(nr.drop_first() =~~= Seq::<DekaInfo>::empty());
            },
            None => {
                assert(spec_compiled_records(ni.drop_first(), nr));
            },
        }
    } else {
        assert(ni[0] == items[0]);
        assert(ni.drop_first() =~~= items.drop_first().push(item));
        if item_good(items[0]) {
            assert(nr[0] == recs[0]);
            lemma_compiled_records_snoc(items.drop_first(), recs.drop_first(), item, rec);
            match rec {
                Some(rc) => {
                    assert(nr.drop_first() =~~= recs.drop_first().push(rc));
                },
                None => {
                    assert(nr.drop_first() =~~= recs.drop_first());
                },
            }
        } else {
            lemma_compiled_records_snoc(items.drop_first(), recs, item, rec);
        }
    }
}

/// Compile a batch of result items into the automation outcome: one
/// record per readable item, in result order; unreadable items are
/// dropped one by one, and a batch with no surviving record is the
/// empty outcome, not a failure.
pub fn compile_results(items: &Vec<ResultItemRaw>) -> (r: RetrievalOutcome)
    ensures
        !(r is Failed),
        (r is Records) <==> (exists|i: int| 0 <= i < items@.len() && item_good(#[trigger] items@[i])),
        r matches RetrievalOutcome::Records(v) ==> v@.len() >= 1 && spec_compiled_records(
            items@,
            v@,
        ),
        r is Empty ==> spec_compiled_records(items@, Seq::<DekaInfo>::empty()),
{
    let mut recs: Vec<DekaInfo> = Vec::new();
    let mut i: usize = 0;
    proof {
        assert(items@.take(0) =~= Seq::<ResultItemRaw>::empty());
    }
    while i < items.len()
        invariant
            i <= items@.len(),
            spec_compiled_records(items@.take(i as int), recs@),
            (recs@.len() > 0) <==> (exists|k: int| 0 <= k < i && item_good(#[trigger] items@[k])),
        decreases items@.len() - i,
    {
        let ghost prefix = items@.take(i as int);
        let ghost old_recs = recs@;
        proof {
            assert(prefix.push(items@[i as int]) =~= items@.take(i + 1 as int));
        }
        match compile_result_item(&items[i]) {
            Some(rec) => {
                let ghost grec = rec;
                recs.push(rec);
                proof {
                    lemma_compiled_records_snoc(prefix, old_recs, items@[i as int], Some(grec));
                }
            },
            None => {
                proof {
                    lemma_compiled_records_snoc(prefix, old_recs, items@[i as int], None);
                }
            },
        }
        i = i + 1;
    }
    proof {
        assert(items@.take(items@.len() as int) =~= items@);
    }
    if recs.len() == 0 {
        proof {
            assert(recs@ =~= Seq::<DekaInfo>::empty());
        }
        RetrievalOutcome::Empty
    } else {
        RetrievalOutcome::Records(recs)
    }
}

/// The marker phrase opening the judgment reasoning: Thai for "the
/// Supreme Court ruled that".
pub open spec fn spec_reasoning_marker() -> Seq<char> {
    "\u{0e28}\u{0e32}\u{0e25}\u{0e0e}\u{0e35}\u{0e01}\u{0e32}\u{0e27}\u{0e34}\u{0e19}\u{0e34}\u{0e08}\u{0e09}\u{0e31}\u{0e22}\u{0e27}\u{0e48}\u{0e32}"@
}

/// The prefix of a print-page paragraph naming a judgment: Thai for
/// "judgment".
pub open spec fn spec_judgment_prefix() -> Seq<char> {
    "\u{0e04}\u{0e33}"@
}

/// The phrase before the case number on a print page: Thai for "Supreme
/// Court case number".
pub open spec fn spec_case_no_marker() -> Seq<char> {
    "\u{0e28}\u{0e32}\u{0e25}\u{0e0e}\u{0e35}\u{0e01}\u{0e32}\u{0e17}\u{0e35}\u{0e48}"@
}

/// The long-note candidate of one print block: its paragraphs holding
/// the reasoning marker, concatenated in order.
pub open spec fn spec_print_long(ps: Seq<Seq<char>>) -> Seq<char>
    decreases ps.len(),
{
    if ps.len() == 0 {
        Seq::<char>::empty()
    } else {
        spec_print_long(ps.drop_last()) + (if spec_contains(ps.last(), spec_reasoning_marker()) {
            ps.last()
        } else {
            Seq::<char>::empty()
        })
    }
}

/// Concatenate the paragraphs of one print block that hold the judgment
/// reasoning marker, building that block's long-note candidate.
pub fn print_block_long_note(paras: &Vec<String>) -> (r: String)
    ensures
        r@ == spec_print_long(paras.deep_view()),
{
    let marker = chars_of(
        "\u{0e28}\u{0e32}\u{0e25}\u{0e0e}\u{0e35}\u{0e01}\u{0e32}\u{0e27}\u{0e34}\u{0e19}\u{0e34}\u{0e08}\u{0e09}\u{0e31}\u{0e22}\u{0e27}\u{0e48}\u{0e32}",
    );
    let mut out: Vec<char> = Vec::new();
    let mut i: usize = 0;
    proof {
        assert(paras.deep_view().take(0) =~~= Seq::<Seq<char>>::empty());
    }
    while i < paras.len()
        invariant
            i <= paras@.len(),
            marker@ == spec_reasoning_marker(),
            out@ == spec_print_long(paras.deep_view().take(i as int)),
        decreases paras@.len() - i,
    {
        let p = chars_of(paras[i].as_str());
        proof {
            assert(paras.deep_view()[i as int] =~= paras@[i as int]@);
            assert(paras.deep_view().take(i + 1 as int).drop_last() =~~= paras.deep_view().take(
                i as int,
            ));
            assert(paras.deep_view().take(i + 1 as int).last() == paras.deep_view()[i as int]);
        }
        if contains_chars(&p, &marker) {
            let mut part = p;
            out.append(&mut part);
        }
        proof {
            assert(out@ =~= spec_print_long(paras.deep_view().take(i + 1 as int)));
        }
        i = i + 1;
    }
    proof {
        assert(paras.deep_view().take(paras@.len() as int) =~~= paras.deep_view());
    }
    string_of_chars(&out)
}

/// The case number a print paragraph names, if any: the paragraph must
/// open with the judgment prefix and hold the case-number phrase; the
/// number is what follows the phrase's first occurrence, trimmed, and
/// must be non-blank.
pub open spec fn names_case_no(p: Seq<char>, i: int, no: Seq<char>) -> bool {
    &&& spec_starts_with(p, spec_judgment_prefix())
    &&& first_occ_at(p, spec_case_no_marker(), i)
    &&& no == spec_trim(p.skip(i + spec_case_no_marker().len()))
    &&& no.len() > 0
}

/// Read the case number a print paragraph names, if any.
#[verifier::rlimit(60)]
#[verifier::spinoff_prover]
pub fn print_block_case_no(para: &str) -> (r: Option<String>)
    ensures
        (r is Some) <==> (exists|k: int, cand: Seq<char>| #[trigger] names_case_no(para@, k, cand)),
        r matches Some(s) ==> (forall|k: int, cand: Seq<char>|
            #[trigger] names_case_no(para@, k, cand) ==> cand == s@),
{
    let p = chars_of(para);
    let prefix = chars_of("\u{0e04}\u{0e33}");
    let marker = chars_of(
        "\u{0e28}\u{0e32}\u{0e25}\u{0e0e}\u{0e35}\u{0e01}\u{0e32}\u{0e17}\u{0e35}\u{0e48}",
    );
    let _para_len = p.len();
    if !starts_with_chars(&p, &prefix) {
        proof {
            assert(!(exists|k: int, cand: Seq<char>| names_case_no(para@, k, cand)));
        }
        return None;
    }
    match find_first(&p, &marker) {
        None => {
            proof {
                assert forall|i: int, no: Seq<char>| !names_case_no(para@, i, no) by {
                    if names_case_no(para@, i, no) {
                        assert(crate::text::contains_at(para@, spec_case_no_marker(), i));
                    }
                }
            }
            None
        },
        Some(i) => {
            let end = i + marker.len();
            let mut tail: Vec<char> = Vec::new();
            let mut j: usize = end;
            while j < p.len()
                invariant
                    end <= j <= p@.len(),
                    tail@ == p@.subrange(end as int, j as int),
                decreases p@.len() - j,
            {
                let c = p[j];
                tail.push(c);
                proof {
                    assert(p@.subrange(end as int, j as int).push(p@[j as int]) =~= p@.subrange(
                        end as int,
                        j + 1 as int,
                    ));
                }
                j = j + 1;
            }
            proof {
                assert(tail@ =~= p@.skip(end as int));
            }
            let no = trim_chars(&tail);
            if no.len() == 0 {
                proof {
                    assert forall|k: int, cand: Seq<char>| !names_case_no(para@, k, cand) by {
                        if names_case_no(para@, k, cand) {
                            crate::text::lemma_first_occ_unique(
                                para@,
                                spec_case_no_marker(),
                                k,
                                i as int,
                            );
                        }
                    }
                }
                None
            } else {
                let out = string_of_chars(&no);
                proof {
                    assert(out@ == no@);
                    assert(names_case_no(para@, i as int, out@));
                    assert(exists|k: int, cand: Seq<char>| names_case_no(para@, k, cand));
                    assert forall|k: int, cand: Seq<char>|
                        names_case_no(para@, k, cand) implies cand == no@ by {
                        crate::text::lemma_first_occ_unique(
                            para@,
                            spec_case_no_marker(),
                            k,
                            i as int,
                        );
                    }
                }
                Some(out)
            }
        },
    }
}

/// Attach a recovered extended note onto the records: the first record
/// whose case number equals the recovered one, exactly, takes the note;
/// every other record stays as it was; with no equal case number nothing
/// changes.
pub fn attach_long_note(recs: &mut Vec<DekaInfo>, case_no: &String, long_text: &String)
    ensures
        final (recs)@.len() == old(recs)@.len(),
        (forall|i: int|
            0 <= i < old(recs)@.len() ==> (#[trigger] old(recs)@[i]).deka_no@ != case_no@) ==> final (
        recs)@ == old(recs)@,
        (exists|i: int|
            0 <= i < old(recs)@.len() && (#[trigger] old(recs)@[i]).deka_no@ == case_no@)
            ==> exists|k: int|
            {
                &&& 0 <= k < old(recs)@.len()
                &&& (#[trigger] old(recs)@[k]).deka_no@ == case_no@
                &&& (forall|j: int| 0 <= j < k ==> (#[trigger] old(recs)@[j]).deka_no@ != case_no@)
                &&& final (recs)@[k].deka_no == old(recs)@[k].deka_no
                &&& final (recs)@[k].short_note == old(recs)@[k].short_note
                &&& final (recs)@[k].metadata == old(recs)@[k].metadata
                &&& (final (recs)@[k].long_note matches Some(n) && n@ == long_text@)
                &&& (forall|j: int|
                    0 <= j < old(recs)@.len() && j != k ==> final (recs)@[j] == old(recs)@[j])
            },
{
    let n = recs.len();
    let mut k: usize = 0;
    while k < n
        invariant
            k <= n,
            n == recs@.len(),
            recs@ == old(recs)@,
            forall|j: int| 0 <= j < k ==> (#[trigger] recs@[j]).deka_no@ != case_no@,
        decreases n - k,
    {
        if recs[k].deka_no == *case_no {
            let mut rec = recs.remove(k);
            rec.long_note = Some(long_text.clone());
            recs.insert(k, rec);
            proof {
                assert(recs@ =~= old(recs)@.update(k as int, recs@[k as int]));
            }
            return ;
        }
        k = k + 1;
    }
}

/// The timestamped name of a screenshot artifact: the capture time is
/// spliced in before the extension, at the name's first extension mark;
/// a name without one stays as it is.
pub fn screenshot_name(base: &str, secs: u64) -> (r: String)
    ensures
        !spec_contains(base@, ".png"@) ==> r@ == base@,
        spec_contains(base@, ".png"@) ==> exists|i: int|
            #[trigger] first_occ_at(base@, ".png"@, i) && r@ == base@.subrange(0, i) + "-"@
                + spec_dec(secs as nat) + ".png"@ + base@.skip(i + 4),
{
    let b = chars_of(base);
    let _base_len = b.len();
    let ext = chars_of(".png");
    match find_first(&b, &ext) {
        None => string_of_chars(&b),
        Some(i) => {
            proof {
                reveal_strlit(".png");
                reveal_strlit("-");
                assert(ext@.len() == 4);
            }
            let mut out: Vec<char> = Vec::new();
            let mut j: usize = 0;
            while j < i
                invariant
                    j <= i,
                    i <= b@.len(),
                    out@ == b@.subrange(0, j as int),
                decreases i - j,
            {
                let c = b[j];
                out.push(c);
                proof {
                    assert(b@.subrange(0, j as int).push(b@[j as int]) =~= b@.subrange(
                        0,
                        j + 1 as int,
                    ));
                }
                j = j + 1;
            }
            out.push('-');
            let mut stamp = crate::text::dec_chars(secs);
            out.append(&mut stamp);
            let mut tail_ext = chars_of(".png");
            out.append(&mut tail_ext);
            let mut j2: usize = i + 4;
            let ghost mid = out@;
            while j2 < b.len()
                invariant
                    i + 4 <= j2 <= b@.len(),
                    out@ == mid + b@.subrange(i + 4 as int, j2 as int),
                decreases b@.len() - j2,
            {
                let c = b[j2];
                out.push(c);
                proof {
                    assert(mid + b@.subrange(i + 4 as int, j2 as int) + seq![b@[j2 as int]] =~= mid
                        + b@.subrange(i + 4 as int, j2 + 1 as int));
                }
                j2 = j2 + 1;
            }
            proof {
                assert(out@ =~= b@.subrange(0, i as int) + "-"@ + spec_dec(secs as nat) + ".png"@
                    + b@.skip(i + 4 as int));
            }
            string_of_chars(&out)
        },
    }
}

/// Whether the print-view pass is needed: only when extended notes were
/// requested and at least one record still lacks one.
pub fn needs_print_pass(with_long_note: bool, recs: &Vec<DekaInfo>) -> (r: bool)
    ensures
        r == (with_long_note && exists|i: int|
            0 <= i < recs@.len() && (#[trigger] recs@[i]).long_note is None),
{
    if !with_long_note {
        return false;
    }
    let mut i: usize = 0;
    while i < recs.len()
        invariant
            i <= recs@.len(),
            with_long_note,
            forall|j: int| 0 <= j < i ==> !((#[trigger] recs@[j]).long_note is None),
        decreases recs@.len() - i,
    {
        let rec = &recs[i];
        if rec.long_note.is_none() {
            proof {
                assert(0 <= i < recs@.len() && (recs@[i as int]).long_note is None);
            }
            return true;
        }
        i = i + 1;
    }
    false
}

} // verus!
