//! Line ingestion: splitting, per-token classification, cardinality check.
//!
//! A line of telemetry is ASCII text: sample values separated by commas.
//! The surrounding program classifies each field — a field that reads as a
//! finite numeric value becomes its 64-bit encoding, any other field is
//! rejected — and hands the classification in; this module owns everything
//! else.  Each rejected token is reported individually by a diagnostic
//! naming the exact token.  A line whose count of accepted values equals
//! the expected dimension becomes a [`Record`]; with a nonzero expected
//! dimension and a differing count the whole line is dropped with a
//! diagnostic naming both counts and the raw line; with expected dimension
//! zero (no mode selected yet) the line is dropped silently, with no record
//! and no diagnostic at all.

use vstd::prelude::*;

verus! {

/// The field separator: an ASCII comma.
pub const FIELD_SEP: u8 = 44;

/// One validated frame: one sample per active channel, in channel order.
/// Samples are opaque 64-bit encodings of the device's numeric values.
pub struct Record {
    pub values: Vec<u64>,
}

/// Ghost-level content of a [`Diagnostic`].
pub enum DiagView {
    /// A field was rejected: `token` is the exact rejected token.
    NonFinite { token: Seq<u8> },
    /// A line was dropped: the count of accepted values differed from the
    /// expected dimension.
    Mismatch { expected: int, got: int, line: Seq<u8> },
}

/// One operator-facing anomaly report from ingesting a line.
pub enum Diagnostic {
    /// A field that did not read as a finite numeric value was dropped.
    NonFinite { token: Vec<u8> },
    /// A whole line was dropped over its count of accepted values.
    Mismatch { expected: usize, got: usize, line: Vec<u8> },
}

impl DeepView for Diagnostic {
    type V = DiagView;

    open spec fn deep_view(&self) -> DiagView {
        match self {
            Diagnostic::NonFinite { token } => DiagView::NonFinite { token: token.deep_view() },
            Diagnostic::Mismatch { expected, got, line } => DiagView::Mismatch {
                expected: *expected as int,
                got: *got as int,
                line: line.deep_view(),
            },
        }
    }
}

/// Index of the first separator in `s`, or -1 when `s` holds none.
pub open spec fn first_sep(s: Seq<u8>) -> int
    decreases s.len(),
{
    if s.len() == 0 {
        -1
    } else if s[0] == FIELD_SEP {
        0
    } else if first_sep(s.skip(1)) < 0 {
        -1
    } else {
        1 + first_sep(s.skip(1))
    }
}

/// The comma-separated fields of `s`, separators left out, empty fields
/// kept: an empty line has exactly one (empty) field.
pub open spec fn spec_fields(s: Seq<u8>) -> Seq<Seq<u8>>
    decreases s.len(),
{
    let i = first_sep(s);
    if 0 <= i < s.len() {
        seq![s.take(i)] + spec_fields(s.skip(i + 1))
    } else {
        seq![s]
    }
}

/// `first_sep` finds exactly the first separator: it stays in bounds,
/// points at a separator, and nothing before it is one; when it is -1 the
/// whole sequence is separator-free.
pub proof fn lemma_first_sep(s: Seq<u8>)
    ensures
        -1 <= first_sep(s) < s.len(),
        first_sep(s) >= 0 ==> s[first_sep(s)] == FIELD_SEP,
        forall|k: int| 0 <= k < first_sep(s) ==> s[k] != FIELD_SEP,
        first_sep(s) < 0 ==> forall|k: int| 0 <= k < s.len() ==> s[k] != FIELD_SEP,
    decreases s.len(),
{
    if s.len() == 0 {
    } else if s[0] == FIELD_SEP {
    } else {
        lemma_first_sep(s.skip(1));
        assert forall|k: int| 0 <= k < first_sep(s) implies s[k] != FIELD_SEP by {
            if k > 0 {
                assert(s.skip(1)[k - 1] == s[k]);
            }
        };
        if first_sep(s) < 0 {
            assert forall|k: int| 0 <= k < s.len() implies s[k] != FIELD_SEP by {
                if k > 0 {
                    assert(s.skip(1)[k - 1] == s[k]);
                }
            };
        }
    }
}

/// The first separator of `s` is at `j` exactly when `s[j]` is a separator
/// and nothing before it is.
pub proof fn lemma_first_sep_at(s: Seq<u8>, j: int)
    requires
        0 <= j < s.len(),
        s[j] == FIELD_SEP,
        forall|k: int| 0 <= k < j ==> s[k] != FIELD_SEP,
    ensures
        first_sep(s) == j,
{
    lemma_first_sep(s);
    if first_sep(s) < 0 {
        assert(s[j] != FIELD_SEP);
        assert(false);
    } else if first_sep(s) < j {
        assert(s[first_sep(s)] != FIELD_SEP);
        assert(false);
    } else if first_sep(s) > j {
        assert(s[j] != FIELD_SEP);
        assert(false);
    }
}

/// A separator-free sequence is a single field.
pub proof fn lemma_fields_whole(s: Seq<u8>)
    requires
        forall|k: int| 0 <= k < s.len() ==> s[k] != FIELD_SEP,
    ensures
        spec_fields(s) == seq![s],
{
    lemma_first_sep(s);
    if first_sep(s) >= 0 {
        assert(s[first_sep(s)] != FIELD_SEP);
        assert(false);
    }
}

/// A byte vector's deep view is its view.
proof fn lemma_bytes_deep_view(v: Vec<u8>)
    ensures
        v.deep_view() == v@,
{
    assert(v.deep_view() =~= v@);
}

/// Splits a line into its comma-separated fields, in order.
pub fn split_fields(line: &Vec<u8>) -> (r: Vec<Vec<u8>>)
    ensures
        r.deep_view() == spec_fields(line@),
{
    let ghost l = line@;
    let mut r: Vec<Vec<u8>> = Vec::new();
    let mut cur: Vec<u8> = Vec::new();
    let ghost mut start: int = 0;
    let mut i: usize = 0;
    let n = line.len();
    proof {
        assert(l.skip(0) =~= l);
        assert(r.deep_view() =~= Seq::<Seq<u8>>::empty());
        assert(Seq::<Seq<u8>>::empty() + spec_fields(l) =~= spec_fields(l));
    }
    while i < n
        invariant
            n == l.len(),
            l == line@,
            0 <= start <= i <= n,
            cur@ == l.subrange(start, i as int),
            forall|k: int| start <= k < i ==> l[k] != FIELD_SEP,
            spec_fields(l) == r.deep_view() + spec_fields(l.skip(start)),
        decreases n - i,
    {
        let c = line[i];
        if c == FIELD_SEP {
            proof {
                let rest = l.skip(start);
                assert(forall|k: int| 0 <= k < rest.len() ==> rest[k] == l[k + start]);
                lemma_first_sep_at(rest, i - start);
                assert(rest.take(i - start) =~= cur@);
                assert(rest.skip(i - start + 1) =~= l.skip(i + 1));
                assert(spec_fields(rest) == seq![cur@] + spec_fields(l.skip(i + 1)));
            }
            proof {
                lemma_bytes_deep_view(cur);
            }
            let ghost old_dv = r.deep_view();
            r.push(cur);
            cur = Vec::new();
            proof {
                assert(r.deep_view() =~= old_dv.push(l.subrange(start, i as int)));
                start = i + 1;
                assert(spec_fields(l) =~= r.deep_view() + spec_fields(l.skip(start)));
                assert(cur@ =~= l.subrange(start, i + 1));
            }
        } else {
            cur.push(c);
            proof {
                assert(cur@ =~= l.subrange(start, i + 1));
            }
        }
        i = i + 1;
    }
    proof {
        let rest = l.skip(start);
        assert(forall|k: int| 0 <= k < rest.len() ==> rest[k] == l[k + start]);
        lemma_fields_whole(rest);
        assert(rest =~= cur@);
    }
    proof {
        lemma_bytes_deep_view(cur);
    }
    let ghost old_dv = r.deep_view();
    r.push(cur);
    proof {
        assert(r.deep_view() =~= old_dv.push(l.skip(start)));
        assert(r.deep_view() =~= spec_fields(l));
    }
    r
}

/// The samples kept from one line: the accepted values in original order,
/// rejected tokens left out.
pub open spec fn spec_kept(vs: Seq<Option<u64>>) -> Seq<u64>
    decreases vs.len(),
{
    if vs.len() == 0 {
        Seq::<u64>::empty()
    } else {
        let front = spec_kept(vs.drop_last());
        match vs.last() {
            Some(x) => front.push(x),
            None => front,
        }
    }
}

/// The diagnostics for the rejected tokens of one line, one per rejected
/// token, in token order, each naming the exact token.
pub open spec fn spec_token_diags(tokens: Seq<Seq<u8>>, vs: Seq<Option<u64>>) -> Seq<DiagView>
    decreases vs.len(),
{
    if vs.len() == 0 {
        Seq::<DiagView>::empty()
    } else {
        let front = spec_token_diags(tokens.drop_last(), vs.drop_last());
        match vs.last() {
            Some(_) => front,
            None => front.push(DiagView::NonFinite { token: tokens[vs.len() - 1] }),
        }
    }
}

/// The full diagnostic output for one line: the per-token reports, then,
/// exactly when the count of accepted values differs from the nonzero
/// expected dimension, one mismatch report naming both counts and the line.
pub open spec fn spec_line_diags(
    line: Seq<u8>,
    vs: Seq<Option<u64>>,
    expected: int,
) -> Seq<DiagView> {
    let toks = spec_token_diags(spec_fields(line), vs);
    if spec_kept(vs).len() == expected {
        toks
    } else {
        toks.push(DiagView::Mismatch { expected: expected, got: spec_kept(vs).len() as int, line: line })
    }
}

/// The outcome of ingesting one line.
pub struct LineResult {
    /// The validated record, exactly when the count of accepted values
    /// equals the nonzero expected dimension.
    pub record: Option<Record>,
    /// The diagnostics the line gave rise to, in order of discovery.
    pub diagnostics: Vec<Diagnostic>,
}

/// Copies a byte vector.
fn copy_bytes(src: &Vec<u8>) -> (r: Vec<u8>)
    ensures
        r@ == src@,
{
    let mut r: Vec<u8> = Vec::new();
    let mut i: usize = 0;
    let n = src.len();
    while i < n
        invariant
            n == src@.len(),
            i <= n,
            r@ == src@.subrange(0, i as int),
        decreases n - i,
    {
        r.push(src[i]);
        proof {
            assert(r@ =~= src@.subrange(0, i + 1));
        }
        i = i + 1;
    }
    proof {
        assert(r@ =~= src@);
    }
    r
}

/// Ingests one line.  `values` is the classification of the line's fields,
/// in field order: the 64-bit encoding of a field that read as a finite
/// numeric value, or nothing for a rejected field.  `expected` is the
/// active mode's dimension at the moment the line was read.
///
/// With `expected == 0` the line is dropped silently: no record, no
/// diagnostic.  Otherwise every rejected token is reported, and the line
/// becomes a record exactly when the count of accepted values equals
/// `expected`; a differing count drops the line with a report naming both
/// counts and the raw line.
pub fn process_line(line: &Vec<u8>, values: &Vec<Option<u64>>, expected: usize) -> (r: LineResult)
    requires
        values@.len() == spec_fields(line@).len(),
    ensures
        expected == 0 ==> r.record is None && r.diagnostics@ == Seq::<Diagnostic>::empty(),
        expected != 0 ==> {
            &&& (r.record is Some <==> spec_kept(values@).len() == expected)
            &&& (r.record is Some ==> r.record->0.values@ == spec_kept(values@))
            &&& r.diagnostics.deep_view() == spec_line_diags(line@, values@, expected as int)
        },
{
    if expected == 0 {
        return LineResult { record: None, diagnostics: Vec::new() };
    }
    let tokens = split_fields(line);
    let n = tokens.len();
    proof {
        assert(tokens.deep_view().len() == n);
    }
    let mut kept: Vec<u64> = Vec::new();
    let mut diags: Vec<Diagnostic> = Vec::new();
    let mut i: usize = 0;
    while i < n
        invariant
            tokens.deep_view() == spec_fields(line@),
            n == tokens@.len(),
            values@.len() == n,
            i <= n,
            kept@ == spec_kept(values@.take(i as int)),
            diags.deep_view() == spec_token_diags(
                spec_fields(line@).take(i as int),
                values@.take(i as int),
            ),
        decreases n - i,
    {
        let ghost prev_kept = kept@;
        let ghost prev_dv = diags.deep_view();
        proof {
            assert(values@.take(i + 1).drop_last() =~= values@.take(i as int));
            assert(spec_fields(line@).take(i + 1).drop_last() =~= spec_fields(line@).take(
                i as int,
            ));
            assert(values@.take(i + 1).last() == values@[i as int]);
            assert(spec_fields(line@).take(i + 1).last() == spec_fields(line@)[i as int]);
            assert(tokens.deep_view()[i as int] == tokens@[i as int].deep_view());
        }
        match values[i] {
            Some(v) => {
                kept.push(v);
                proof {
                    assert(kept@ =~= prev_kept.push(v));
                }
            },
            None => {
                let token = copy_bytes(&tokens[i]);
                proof {
                    lemma_bytes_deep_view(token);
                    assert(token@ =~= tokens@[i as int].deep_view());
                }
                diags.push(Diagnostic::NonFinite { token });
                proof {
                    assert(diags.deep_view() =~= prev_dv.push(
                        DiagView::NonFinite { token: spec_fields(line@)[i as int] },
                    ));
                }
            },
        }
        i = i + 1;
    }
    proof {
        assert(values@.take(n as int) =~= values@);
        assert(spec_fields(line@).take(n as int) =~= spec_fields(line@));
    }
    let got = kept.len();
    if got == expected {
        LineResult { record: Some(Record { values: kept }), diagnostics: diags }
    } else {
        let ghost prev_dv = diags.deep_view();
        let line_copy = copy_bytes(line);
        proof {
            lemma_bytes_deep_view(line_copy);
        }
        diags.push(Diagnostic::Mismatch { expected, got, line: line_copy });
        proof {
            assert(diags.deep_view() =~= prev_dv.push(DiagView::Mismatch {
                expected: expected as int,
                got: got as int,
                line: line@,
            }));
        }
        LineResult { record: None, diagnostics: diags }
    }
}

} // verus!
