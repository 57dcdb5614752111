use teleplot_core::ingest::Diagnostic;
use teleplot_core::ingest::LineResult;
use teleplot_core::ingest::process_line;
use teleplot_core::ingest::split_fields;

/// Boundary classification, as the ingestion worker performs it: a field
/// that parses as a finite numeric value becomes its 64-bit encoding.
fn classify(tok: &str) -> Option<u64> {
    match tok.parse::<f64>() {
        Ok(v) if v.is_finite() => Some(v.to_bits()),
        _ => None,
    }
}

fn run_line(line: &str, expected: usize) -> LineResult {
    let bytes: Vec<u8> = line.as_bytes().to_vec();
    let tokens = split_fields(&bytes);
    let values: Vec<Option<u64>> = tokens
        .iter()
        .map(|t| classify(std::str::from_utf8(t).unwrap()))
        .collect();
    process_line(&bytes, &values, expected)
}

fn bits(x: f64) -> u64 {
    x.to_bits()
}

#[test]
fn split_plain_line() {
    let tokens = split_fields(&b"1.0,2.0,3.0".to_vec());
    assert_eq!(tokens.len(), 3);
    assert_eq!(tokens[0].as_slice(), b"1.0");
    assert_eq!(tokens[1].as_slice(), b"2.0");
    assert_eq!(tokens[2].as_slice(), b"3.0");
}

#[test]
fn split_keeps_empty_fields() {
    let tokens = split_fields(&b"a,,b".to_vec());
    assert_eq!(tokens.len(), 3);
    assert_eq!(tokens[0].as_slice(), b"a");
    assert_eq!(tokens[1].as_slice(), b"");
    assert_eq!(tokens[2].as_slice(), b"b");
}

#[test]
fn split_trailing_separator() {
    let tokens = split_fields(&b"a,".to_vec());
    assert_eq!(tokens.len(), 2);
    assert_eq!(tokens[0].as_slice(), b"a");
    assert_eq!(tokens[1].as_slice(), b"");
}

#[test]
fn split_empty_line_is_one_empty_field() {
    let tokens = split_fields(&Vec::new());
    assert_eq!(tokens.len(), 1);
    assert_eq!(tokens[0].as_slice(), b"");
}

#[test]
fn valid_line_becomes_record_in_order() {
    let r = run_line("1.0,2.0,3.0", 3);
    let rec = r.record.expect("matching line must produce a record");
    assert_eq!(rec.values, vec![bits(1.0), bits(2.0), bits(3.0)]);
    assert_eq!(r.diagnostics.len(), 0);
}

#[test]
fn bad_token_is_dropped_and_named() {
    let r = run_line("1.0,abc,3.0", 2);
    let rec = r.record.expect("two finite values remain");
    assert_eq!(rec.values, vec![bits(1.0), bits(3.0)]);
    assert_eq!(r.diagnostics.len(), 1);
    match &r.diagnostics[0] {
        Diagnostic::NonFinite { token } => assert_eq!(token.as_slice(), b"abc"),
        Diagnostic::Mismatch { .. } => panic!("expected a non-finite report"),
    }
}

#[test]
fn non_finite_tokens_are_rejected_per_field() {
    let r = run_line("1.0,NaN,inf,3.0", 2);
    let rec = r.record.expect("two finite values remain");
    assert_eq!(rec.values, vec![bits(1.0), bits(3.0)]);
    assert_eq!(r.diagnostics.len(), 2);
    match &r.diagnostics[0] {
        Diagnostic::NonFinite { token } => assert_eq!(token.as_slice(), b"NaN"),
        Diagnostic::Mismatch { .. } => panic!("expected a non-finite report"),
    }
    match &r.diagnostics[1] {
        Diagnostic::NonFinite { token } => assert_eq!(token.as_slice(), b"inf"),
        Diagnostic::Mismatch { .. } => panic!("expected a non-finite report"),
    }
}

#[test]
fn cardinality_mismatch_names_both_counts_and_line() {
    let r = run_line("1.0,2.0", 3);
    assert!(r.record.is_none());
    assert_eq!(r.diagnostics.len(), 1);
    match &r.diagnostics[0] {
        Diagnostic::Mismatch { expected, got, line } => {
            assert_eq!(*expected, 3);
            assert_eq!(*got, 2);
            assert_eq!(line.as_slice(), b"1.0,2.0");
        },
        Diagnostic::NonFinite { .. } => panic!("expected a mismatch report"),
    }
}

#[test]
fn dimension_zero_is_fully_silent() {
    let r = run_line("junk,1.0,also junk", 0);
    assert!(r.record.is_none());
    assert_eq!(r.diagnostics.len(), 0);
}

#[test]
fn rejected_token_and_mismatch_both_reported() {
    let r = run_line("bad,5.0,6.0", 3);
    assert!(r.record.is_none());
    assert_eq!(r.diagnostics.len(), 2);
    match &r.diagnostics[0] {
        Diagnostic::NonFinite { token } => assert_eq!(token.as_slice(), b"bad"),
        Diagnostic::Mismatch { .. } => panic!("expected the non-finite report first"),
    }
    match &r.diagnostics[1] {
        Diagnostic::Mismatch { expected, got, line } => {
            assert_eq!(*expected, 3);
            assert_eq!(*got, 2);
            assert_eq!(line.as_slice(), b"bad,5.0,6.0");
        },
        Diagnostic::NonFinite { .. } => panic!("expected the mismatch report second"),
    }
}
