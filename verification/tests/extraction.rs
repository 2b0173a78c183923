use deka_core::automation::{
    attach_long_note, clean_note, compile_result_item, compile_results, extract_case_number,
    print_block_case_no, print_block_long_note, screenshot_name, ResultItemRaw,
};
use deka_core::digits::normalize_digits;
use deka_core::model::{DekaInfo, DekaMetadata, RetrievalOutcome};
use deka_core::normalize::normalize;
use deka_core::text::dec_string;

fn record(no: &str, long: Option<&str>) -> DekaInfo {
    DekaInfo {
        deka_no: no.to_string(),
        short_note: "s".to_string(),
        long_note: long.map(|l| l.to_string()),
        metadata: DekaMetadata { law: String::new(), source: String::new() },
    }
}

#[test]
fn thai_digits_map_to_ascii() {
    assert_eq!(normalize_digits("๐๑๒๓๔๕๖๗๘๙"), "0123456789");
    assert_eq!(normalize_digits("๒๖๔/๒๕๖๗"), "264/2567");
}

#[test]
fn ascii_digits_stay_fixed() {
    assert_eq!(normalize_digits("264/2567"), "264/2567");
    assert_eq!(normalize_digits("0123456789"), "0123456789");
}

#[test]
fn other_text_stays_fixed_around_digits() {
    assert_eq!(
        normalize_digits("คำพิพากษาศาลฎีกาที่ ๒๖๔/๒๕๖๗"),
        "คำพิพากษาศาลฎีกาที่ 264/2567"
    );
}

#[test]
fn decimal_rendering_is_exact() {
    assert_eq!(dec_string(0), "0");
    assert_eq!(dec_string(2567), "2567");
    assert_eq!(dec_string(1000000), "1000000");
}

#[test]
fn normalizer_splits_short_and_long_note() {
    let rec = normalize(
        "คำพิพากษาศาลฎีกาที่ ๒๖๔/๒๕๖๗",
        "สรุปย่อ\nเพิ่มเติม\nยาวหนึ่ง\nยาวสอง",
    );
    assert_eq!(rec.deka_no, "คำพิพากษาศาลฎีกาที่ 264/2567");
    assert_eq!(rec.short_note, "สรุปย่อ\n");
    assert_eq!(rec.long_note, Some("ยาวหนึ่ง\nยาวสอง\n".to_string()));
    assert_eq!(rec.metadata.law, "");
    assert_eq!(rec.metadata.source, "");
}

#[test]
fn normalizer_empty_line_opens_law_phase() {
    let rec = normalize("t", "สรุปหนึ่ง\nสรุปสอง\n\nป.พ.พ. มาตรา 420\nป.วิ.พ. มาตรา 55");
    assert_eq!(rec.short_note, "สรุปหนึ่ง\nสรุปสอง\n");
    assert_eq!(rec.long_note, None);
    assert_eq!(rec.metadata.law, "ป.พ.พ. มาตรา 420\nป.วิ.พ. มาตรา 55\n");
}

#[test]
fn normalizer_law_phase_drops_narrative_lines() {
    let narrative = "x".repeat(120);
    let body = format!("สรุป\n\nมาตรา 1\n{}\nมาตรา 2", narrative);
    let rec = normalize("t", &body);
    assert_eq!(rec.metadata.law, "มาตรา 1\nมาตรา 2\n");
}

#[test]
fn normalizer_law_phase_needs_collected_short_note() {
    let rec = normalize("t", "\nมาตรา 1");
    assert_eq!(rec.short_note, "");
    assert_eq!(rec.metadata.law, "");
}

#[test]
fn law_phase_is_idempotent_on_its_own_output() {
    let first = normalize("t", "สรุป\n\nมาตรา 1\nมาตรา 2 ");
    let refed = format!("สรุป\n\n{}", first.metadata.law);
    let second = normalize("t", &refed);
    assert_eq!(second.metadata.law, first.metadata.law);
}

#[test]
fn case_number_is_the_text_after_the_last_blank() {
    assert_eq!(
        extract_case_number("คำพิพากษาศาลฎีกาที่ 264/2567"),
        "264/2567"
    );
    assert_eq!(extract_case_number("label marker 3853/2566"), "3853/2566");
}

#[test]
fn case_number_falls_back_to_the_whole_field() {
    assert_eq!(extract_case_number("264/2567"), "264/2567");
    assert_eq!(extract_case_number("264/2567 "), "264/2567 ");
    assert_eq!(extract_case_number(""), "");
}

#[test]
fn notes_are_trimmed_and_blank_notes_dropped() {
    assert_eq!(clean_note("  ยาว  "), Some("ยาว".to_string()));
    assert_eq!(clean_note("   "), None);
    assert_eq!(clean_note(""), None);
}

#[test]
fn result_item_compiles_into_a_record() {
    let item = ResultItemRaw {
        hidden_no: Some("ฎีกา <ดูย่อ> 264/2567".to_string()),
        short: Some("ย่อ".to_string()),
        long: Some(" ยาว ".to_string()),
        law: Some("ป.พ.พ.".to_string()),
        source: Some("ระบบ".to_string()),
    };
    let rec = compile_result_item(&item).unwrap();
    assert_eq!(rec.deka_no, "264/2567");
    assert_eq!(rec.short_note, "ย่อ");
    assert_eq!(rec.long_note, Some("ยาว".to_string()));
    assert_eq!(rec.metadata.law, "ป.พ.พ.");
    assert_eq!(rec.metadata.source, "ระบบ");
}

#[test]
fn unreadable_items_are_dropped_not_fatal() {
    let good = ResultItemRaw {
        hidden_no: Some("ฎีกา 1/2567".to_string()),
        short: Some("ย่อ".to_string()),
        long: None,
        law: Some("".to_string()),
        source: Some("".to_string()),
    };
    let bad = ResultItemRaw { hidden_no: None, short: None, long: None, law: None, source: None };
    match compile_results(&vec![bad.clone(), good.clone()]) {
        RetrievalOutcome::Records(v) => {
            assert_eq!(v.len(), 1);
            assert_eq!(v[0].deka_no, "1/2567");
        },
        other => panic!("expected records, got {:?}", other),
    }
    assert_eq!(compile_results(&vec![bad]), RetrievalOutcome::Empty);
}

#[test]
fn print_paragraphs_with_the_reasoning_marker_are_kept() {
    let paras = vec![
        "หัวเรื่อง".to_string(),
        "ศาลฎีกาวินิจฉัยว่า จำเลยผิดสัญญา".to_string(),
        "ท้ายเรื่อง".to_string(),
    ];
    assert_eq!(
        print_block_long_note(&paras),
        "ศาลฎีกาวินิจฉัยว่า จำเลยผิดสัญญา"
    );
    assert_eq!(print_block_long_note(&vec!["อื่น".to_string()]), "");
}

#[test]
fn print_paragraph_names_its_case_number() {
    assert_eq!(
        print_block_case_no("คำพิพากษาศาลฎีกาที่ 264/2567"),
        Some("264/2567".to_string())
    );
    assert_eq!(print_block_case_no("หมายเหตุ ศาลฎีกาที่ 264/2567"), None);
    assert_eq!(print_block_case_no("คำพิพากษาอื่น"), None);
    assert_eq!(print_block_case_no("คำพิพากษาศาลฎีกาที่   "), None);
}

#[test]
fn recovered_long_note_lands_on_the_first_equal_case_number() {
    let mut recs = vec![record("1/2567", None), record("2/2567", None), record("2/2567", None)];
    attach_long_note(
        &mut recs,
        &"2/2567".to_string(),
        &"ศาลฎีกาวินิจฉัยว่า ...".to_string(),
    );
    assert_eq!(recs[0].long_note, None);
    assert_eq!(recs[1].long_note, Some("ศาลฎีกาวินิจฉัยว่า ...".to_string()));
    assert_eq!(recs[2].long_note, None);
}

#[test]
fn unmatched_case_number_changes_nothing() {
    let mut recs = vec![record("1/2567", None)];
    let before = recs.clone();
    attach_long_note(&mut recs, &"9/9999".to_string(), &"ยาว".to_string());
    assert_eq!(recs, before);
}

#[test]
fn screenshot_names_carry_the_capture_time() {
    assert_eq!(
        screenshot_name("./memo/tests/deka.supremecourt-test.png", 17),
        "./memo/tests/deka.supremecourt-test-17.png"
    );
    assert_eq!(screenshot_name("no-extension", 17), "no-extension");
}
