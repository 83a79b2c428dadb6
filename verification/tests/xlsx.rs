use std::time::Duration;

use mizan::perf_budget::{budget_verdict, fifth, within_budget, Span};
use mizan::xlsx::{decode_attachment, first_non_empty, is_xlsx_mime, rows_to_csv, XlsxError};

#[test]
fn is_xlsx_mime_matches_official_set() {
    assert!(is_xlsx_mime("application/vnd.openxmlformats-officedocument.spreadsheetml.sheet"));
    assert!(is_xlsx_mime("application/vnd.ms-excel"));
    assert!(!is_xlsx_mime("text/csv"));
    assert!(!is_xlsx_mime("application/pdf"));
}

fn row(cells: &[&str]) -> Vec<String> {
    cells.iter().map(|c| c.to_string()).collect()
}

#[test]
fn csv_rows_quote_metachars_and_truncate() {
    let rows = vec![
        row(&["Asset", "Note"]),
        row(&["Apple, Inc.", "split 4:1 - \"big news\""]),
        row(&["MSFT", ""]),
    ];
    let csv = rows_to_csv(&rows, 1000);
    assert_eq!(csv, "Asset,Note\n\"Apple, Inc.\",\"split 4:1 - \"\"big news\"\"\"\nMSFT,\n");
    let capped = rows_to_csv(&rows, 2);
    assert!(capped.contains("Asset,Note"));
    assert!(!capped.contains("MSFT"));
    assert!(capped.ends_with("[truncated at 2 rows — re-upload as CSV if you need the full file]\n"));
    assert_eq!(rows_to_csv(&rows, 3), csv);
}

#[test]
fn invalid_base64_is_a_decode_error() {
    match decode_attachment("not-base64!!") {
        Err(e @ XlsxError::Base64(_)) => assert!(e.message().starts_with("XLSX base64 decode failed: ")),
        _ => panic!("expected a base64 error"),
    }
    match decode_attachment("aGVsbG8=") {
        Ok(bytes) => assert_eq!(bytes, b"hello".to_vec()),
        Err(_) => panic!("expected bytes"),
    }
    assert_eq!(XlsxError::NoSheets.message(), "XLSX workbook has no non-empty sheets");
}

#[test]
fn first_sheet_with_cells_is_chosen() {
    assert_eq!(first_non_empty(&vec![false, true, true]), Some(1));
    assert_eq!(first_non_empty(&vec![false, false]), None);
}

#[test]
fn within_budget_passes_under_threshold() {
    let (_, elapsed) = within_budget("noop", Span::from_millis(100), false, || {}).unwrap();
    assert!(elapsed.as_nanos() < Span::from_millis(100).as_nanos());
}

#[test]
fn within_budget_reports_overrun() {
    let r = within_budget("slow", Span::from_nanos(1), false, || {
        let mut x = 0u64;
        for i in 0..100_000u64 {
            x = std::hint::black_box(x.wrapping_add(i));
        }
        x
    });
    assert!(r.unwrap_err().starts_with("perf budget exceeded: slow took"));
    let (v, _) = within_budget("strict", Span::from_secs(60), true, || 7).unwrap();
    assert_eq!(v, 7);
}

#[test]
fn verdict_passes_only_under_the_budget() {
    let took = Span::from_millis(3);
    let budget = Span::from_millis(5);
    let ok = budget_verdict("op", 42, took, budget).unwrap();
    assert_eq!(ok.0, 42);
    assert_eq!(ok.1.as_nanos(), 3_000_000);
    let err = budget_verdict("op", 42, budget, budget).unwrap_err();
    assert_eq!(err, "perf budget exceeded: op took 5ms, budget was 5ms");
}

#[test]
fn strict_budget_is_a_fifth() {
    let f = fifth(Span::from_millis(100));
    assert_eq!((f.secs, f.nanos), (0, 20_000_000));
    let g = fifth(Span { secs: 7, nanos: 3 });
    assert_eq!(g.as_nanos(), 7_000_000_003 / 5);
    assert_eq!((g.secs, g.nanos), (1, 400_000_000));
    let err = budget_verdict("op", (), Span::from_millis(20), f).unwrap_err();
    assert_eq!(err, "perf budget exceeded: op took 20ms, budget was 20ms");
}

#[test]
fn span_constructors_agree_with_duration() {
    for ms in [0u64, 1, 999, 1000, 1500, 123_456_789] {
        let s = Span::from_millis(ms);
        let d = Duration::from_millis(ms);
        assert_eq!((s.secs, s.nanos), (d.as_secs(), d.subsec_nanos()));
        assert_eq!(fifth(s).as_nanos(), (d / 5).as_nanos());
    }
}
