use deka_core::automation::{
    by_number_form, by_search_form, driver_next, needs_print_pass, pick_autocomplete, DriverEvent,
    DriverPhase,
};
use deka_core::dispatch::{after_mirror, wrap_response, DispatchStep};
use deka_core::error::Error;
use deka_core::mirror::{mirror_candidates, mirror_collect, mirror_query_text, mirror_search_url, parse_case_page};
use deka_core::model::{
    DekaInfo, DekaMetadata, RetrievalOutcome, TGChat, TGDeka, TGDekaNumber, TGDekaSearch,
    TGMessageInfo, TGMessgae, TGResponse, TGUser,
};

fn envelope() -> TGMessgae {
    TGMessgae {
        update_id: 1234,
        message: TGMessageInfo {
            message_id: 1234,
            from: TGUser {
                id: 123456,
                is_bot: false,
                first_name: "test".to_string(),
                last_name: None,
                username: "tester".to_string(),
                language_code: "EN".to_string(),
            },
            chat: TGChat {
                id: 1234568,
                first_name: "test".to_string(),
                username: "tester".to_string(),
                chat_type: "general".to_string(),
            },
            date: 12334554,
            text: "ฎีกา 264/2567".to_string(),
        },
    }
}

fn by_number(serial: &str, year: u32, with_long_note: bool) -> TGDekaNumber {
    TGDekaNumber { deka_serial: serial.to_string(), deka_year: year, with_long_note }
}

fn a_record(no: &str) -> DekaInfo {
    DekaInfo {
        deka_no: no.to_string(),
        short_note: "ย่อ".to_string(),
        long_note: None,
        metadata: DekaMetadata { law: String::new(), source: String::new() },
    }
}

const LISTING: &str = r#"<html><body><div class="blog-posts">
<div class="blog-post"><h2 class="post-title"><a href="https://www.dekasuksa.com/2024/01/post-a.html">a</a></h2></div>
<div class="blog-post"><h2 class="post-title"><a href="https://www.dekasuksa.com/2024/02/post-b.html">b</a></h2></div>
</body></html>"#;

const PAGE_A: &str = r#"<html><body>
<h1 class="post-title">คำพิพากษาศาลฎีกาที่ ๒๖๔/๒๕๖๗</h1>
<div class="post-body post-content">ผู้เช่าซื้อผิดนัดชำระ

ป.พ.พ. มาตรา 420</div>
</body></html>"#;

#[test]
fn by_number_queries_become_serial_slash_year() {
    let q = mirror_query_text(&TGDeka::Number(by_number("264", 2567, false)));
    assert_eq!(q, "264/2567");
}

#[test]
fn search_queries_join_their_parts_with_spaces() {
    let q = mirror_query_text(&TGDeka::Search(TGDekaSearch {
        search_words: vec!["เช่าซื้อ".to_string(), "รถยนต์".to_string()],
        search_law: Some("ประมวลกฎหมายแพ่งและพาณิชย์".to_string()),
        search_law_no: Some("420".to_string()),
        case_from: Some(2560),
        case_to: Some(2567),
        with_long_note: false,
    }));
    assert_eq!(q, "เช่าซื้อ รถยนต์ ประมวลกฎหมายแพ่งและพาณิชย์ 420 2560");
}

#[test]
fn mirror_url_carries_the_query_encoded() {
    let u = mirror_search_url("264/2567").unwrap();
    let parsed = url::Url::parse(&u).unwrap();
    assert_eq!(parsed.host_str(), Some("www.dekasuksa.com"));
    assert_eq!(parsed.path(), "/search");
    let q: Vec<(String, String)> =
        parsed.query_pairs().map(|(k, v)| (k.to_string(), v.to_string())).collect();
    assert_eq!(q, vec![("q".to_string(), "264/2567".to_string())]);
}

#[test]
fn listing_links_come_back_in_order() {
    let links = mirror_candidates(LISTING).unwrap();
    assert_eq!(
        links,
        vec![
            "https://www.dekasuksa.com/2024/01/post-a.html".to_string(),
            "https://www.dekasuksa.com/2024/02/post-b.html".to_string(),
        ]
    );
}

#[test]
fn empty_listing_is_the_empty_outcome_not_a_failure() {
    let links = mirror_candidates("<html><body><p>nothing here</p></body></html>").unwrap();
    assert_eq!(links, Vec::<String>::new());
    let outcome = mirror_collect(&links, &vec![]);
    assert_eq!(outcome, RetrievalOutcome::Empty);
}

#[test]
fn case_pages_become_records_with_provenance() {
    let rec = parse_case_page(PAGE_A, "https://www.dekasuksa.com/2024/01/post-a.html").unwrap();
    assert_eq!(rec.deka_no, "คำพิพากษาศาลฎีกาที่ 264/2567");
    assert_eq!(rec.short_note, "ผู้เช่าซื้อผิดนัดชำระ\n");
    assert_eq!(rec.long_note, None);
    assert_eq!(rec.metadata.law, "ป.พ.พ. มาตรา 420\n");
    assert_eq!(
        rec.metadata.source,
        "เว็บไซต์ฎีกาศึกษา https://www.dekasuksa.com/2024/01/post-a.html"
    );
}

#[test]
fn pages_that_fail_to_load_or_parse_are_dropped() {
    let links = vec!["u1".to_string(), "u2".to_string(), "u3".to_string()];
    let bodies = vec![None, Some("<p>not a case page</p>".to_string()), Some(PAGE_A.to_string())];
    match mirror_collect(&links, &bodies) {
        RetrievalOutcome::Records(v) => {
            assert_eq!(v.len(), 1);
            assert_eq!(v[0].metadata.source, "เว็บไซต์ฎีกาศึกษา u3");
        },
        other => panic!("expected records, got {:?}", other),
    }
}

#[test]
fn mirror_records_answer_without_automation() {
    let step = after_mirror(RetrievalOutcome::Records(vec![a_record("264/2567")]));
    assert!(matches!(step, DispatchStep::Respond(_)));
}

#[test]
fn empty_or_failed_mirror_always_escalates() {
    assert_eq!(after_mirror(RetrievalOutcome::Empty), DispatchStep::RunAutomation);
    assert_eq!(
        after_mirror(RetrievalOutcome::Failed(Error::TransientSource {
            detail: "down".to_string()
        })),
        DispatchStep::RunAutomation
    );
    assert_eq!(after_mirror(RetrievalOutcome::Records(vec![])), DispatchStep::RunAutomation);
}

#[test]
fn number_form_fills_both_year_bounds() {
    let f = by_number_form(&by_number("264", 2567, false));
    assert_eq!(f.doc_type, "คำพิพากษาศาลฎีกา");
    assert_eq!(f.serial, "264");
    assert_eq!(f.start_year, "2567");
    assert_eq!(f.end_year, "2567");
}

#[test]
fn search_form_joins_keywords_with_the_conjunction() {
    let f = by_search_form(&TGDekaSearch {
        search_words: vec!["เช่าซื้อ".to_string(), "รถยนต์".to_string()],
        search_law: Some("ประมวลกฎหมายแพ่งและพาณิชย์".to_string()),
        search_law_no: Some("420".to_string()),
        case_from: Some(2560),
        case_to: Some(2567),
        with_long_note: false,
    });
    assert!(f.advanced);
    assert_eq!(f.keywords, "เช่าซื้อ .และ. รถยนต์");
    assert_eq!(f.law_name, Some("ประมวลกฎหมายแพ่งและพาณิชย์".to_string()));
    assert_eq!(f.law_section, Some("420".to_string()));
    assert_eq!(f.start_year, Some("2560".to_string()));
    assert_eq!(f.end_year, Some("2567".to_string()));
}

#[test]
fn search_form_defaults_and_basic_form() {
    let f = by_search_form(&TGDekaSearch {
        search_words: vec!["เช่าซื้อ".to_string()],
        search_law: None,
        search_law_no: Some("420".to_string()),
        case_from: Some(2560),
        case_to: None,
        with_long_note: false,
    });
    assert!(!f.advanced);
    assert_eq!(f.keywords, "เช่าซื้อ");
    assert_eq!(f.law_name, None);
    assert_eq!(f.law_section, None);
    assert_eq!(f.end_year, Some("2560".to_string()));
}

#[test]
fn autocomplete_takes_the_first_containing_entry() {
    let entries = vec![
        "ประมวลรัษฎากร".to_string(),
        "ประมวลกฎหมายแพ่งและพาณิชย์".to_string(),
        "ประมวลกฎหมายแพ่งและพาณิชย์ (ฉบับเก่า)".to_string(),
    ];
    assert_eq!(pick_autocomplete(&entries, "ประมวลกฎหมายแพ่งและพาณิชย์"), Some(1));
    assert_eq!(pick_autocomplete(&entries, "ไม่มี"), None);
}

#[test]
fn print_pass_runs_only_for_requested_missing_notes() {
    let complete = vec![DekaInfo { long_note: Some("ยาว".to_string()), ..a_record("1/2567") }];
    let missing = vec![a_record("1/2567")];
    assert!(!needs_print_pass(false, &missing));
    assert!(!needs_print_pass(true, &complete));
    assert!(needs_print_pass(true, &missing));
}

#[test]
fn workflow_without_long_notes_never_prints() {
    let mut phase = DriverPhase::Submitted;
    let mut seen_print = false;
    for _ in 0..8 {
        let (next, _) = driver_next(phase, DriverEvent::Advanced, false, true);
        seen_print = seen_print || matches!(next, DriverPhase::PrintViewForMissingLongNotes);
        phase = next;
    }
    assert!(!seen_print);
    assert_eq!(phase, DriverPhase::Done);
}

#[test]
fn workflow_with_long_notes_takes_toggle_and_print() {
    let (p1, _) = driver_next(DriverPhase::WaitingForResultMarker, DriverEvent::Advanced, true, true);
    assert_eq!(p1, DriverPhase::ExpandLongNoteToggle);
    let (p2, _) = driver_next(DriverPhase::ExtractResultItems, DriverEvent::Advanced, true, true);
    assert_eq!(p2, DriverPhase::PrintViewForMissingLongNotes);
    let (p3, release) = driver_next(p2, DriverEvent::Advanced, true, true);
    assert_eq!(p3, DriverPhase::Done);
    assert!(release);
}

#[test]
fn timeout_fails_the_query_and_releases_the_window() {
    let (phase, release) =
        driver_next(DriverPhase::WaitingForResultsPage, DriverEvent::TimedOut, false, false);
    assert_eq!(phase, DriverPhase::Failed);
    assert!(release);
    let resp = wrap_response(
        envelope(),
        RetrievalOutcome::Failed(Error::AutomationTimeout { step: "results page".to_string() }),
    );
    match resp {
        TGResponse::Error(e) => {
            assert_eq!(e.from, "deka");
            assert_eq!(e.message, envelope());
            assert!(e.error.contains("automation wait timed out"));
            assert!(e.error.contains("results page"));
        },
        other => panic!("expected an error response, got {:?}", other),
    }
}

#[test]
fn one_matching_record_round_trip() {
    let info = TGDeka::Number(by_number("264", 2567, false));
    let q = mirror_query_text(&info);
    assert_eq!(q, "264/2567");
    let links = mirror_candidates(LISTING).unwrap();
    let bodies = vec![Some(PAGE_A.to_string()), None];
    assert_eq!(links.len(), bodies.len());
    let outcome = mirror_collect(&links, &bodies);
    let records = match after_mirror(outcome.clone()) {
        DispatchStep::Respond(v) => v,
        DispatchStep::RunAutomation => panic!("mirror found a record; no automation expected"),
    };
    assert_eq!(records.len(), 1);
    assert!(records[0].deka_no.ends_with("264/2567"));
    assert_eq!(records[0].long_note, None);
    match wrap_response(envelope(), outcome) {
        TGResponse::Okay(ok) => {
            assert_eq!(ok.from, "deka");
            assert_eq!(ok.message, envelope());
            let recs = ok.result.unwrap();
            assert!(recs[0].deka_no.ends_with("264/2567"));
        },
        other => panic!("expected a success response, got {:?}", other),
    }
}

#[test]
fn responsive_search_round_trip() {
    let info = TGDeka::Search(TGDekaSearch {
        search_words: vec!["เช่าซื้อ".to_string(), "รถยนต์".to_string()],
        search_law: Some("ประมวลกฎหมายแพ่งและพาณิชย์".to_string()),
        search_law_no: Some("420".to_string()),
        case_from: Some(2560),
        case_to: Some(2567),
        with_long_note: false,
    });
    let q = mirror_query_text(&info);
    let u = mirror_search_url(&q).unwrap();
    assert!(u.starts_with("https://www.dekasuksa.com/search?q="));
    let links = mirror_candidates(LISTING).unwrap();
    let bodies = vec![Some(PAGE_A.to_string()), Some(PAGE_A.to_string())];
    let outcome = mirror_collect(&links, &bodies);
    match wrap_response(envelope(), outcome) {
        TGResponse::Okay(ok) => {
            let recs = ok.result.unwrap();
            assert!(!recs.is_empty());
        },
        other => panic!("expected a success response, got {:?}", other),
    }
}

#[test]
fn query_invariant_is_checked() {
    assert!(TGDeka::Number(by_number("264", 2567, false)).is_well_formed());
    assert!(!TGDeka::Number(by_number("", 2567, false)).is_well_formed());
    assert!(!TGDeka::Number(by_number("264", 0, false)).is_well_formed());
    let search = |words: Vec<String>, from: Option<u32>, to: Option<u32>| {
        TGDeka::Search(TGDekaSearch {
            search_words: words,
            search_law: None,
            search_law_no: None,
            case_from: from,
            case_to: to,
            with_long_note: false,
        })
    };
    assert!(search(vec!["เช่าซื้อ".to_string()], Some(2560), Some(2567)).is_well_formed());
    assert!(search(vec!["เช่าซื้อ".to_string()], Some(2560), None).is_well_formed());
    assert!(!search(vec![], None, None).is_well_formed());
    assert!(!search(vec!["เช่าซื้อ".to_string()], Some(2567), Some(2560)).is_well_formed());
}
