//! CSV texts and the rows they hold, after RFC 4180.

use cordyceps::csv::{parse_csv, CsvError};

fn rows(text: &str) -> Vec<Vec<String>> {
    parse_csv(text).unwrap()
}

/// RFC 4180 §2.4 — "Within the header and each record, there may be one or
/// more fields, separated by commas." A single record of plain unquoted fields
/// splits on commas into one row.
#[test]
fn simple_row() {
    assert_eq!(parse_csv("a,b,c").unwrap(), vec![vec!["a", "b", "c"]]);
}

/// RFC 4180 §2.1 — "Each record is located on a separate line." Two records
/// separated by a line break parse into two distinct rows.
#[test]
fn multiple_rows() {
    assert_eq!(
        parse_csv("a,b\nc,d").unwrap(),
        vec![vec!["a", "b"], vec!["c", "d"]]
    );
}

/// RFC 4180 §2.4 — commas are field delimiters, so two adjacent commas in
/// `a,,c` denote an empty field between `a` and `c`.
#[test]
fn empty_middle_field() {
    assert_eq!(parse_csv("a,,c").unwrap(), vec![vec!["a", "", "c"]]);
}

/// RFC 4180 §2.6 — "Fields containing line breaks (CRLF), double quotes, and
/// commas should be enclosed in double-quotes." A comma inside a quoted field
/// is literal data, not a field delimiter.
#[test]
fn quoted_field_with_comma() {
    assert_eq!(parse_csv("\"a,b\",c").unwrap(), vec![vec!["a,b", "c"]]);
}

// ----------------------------------------------------------------------------
// Quoting (RFC §2.5–§2.7)
// ----------------------------------------------------------------------------

/// RFC 4180 §2.7 — a double-quote inside a quoted field is escaped by doubling it,
/// so `"a""b"` decodes to the single field `a"b`.
#[test]
fn escaped_double_quote() {
    assert_eq!(parse_csv("\"a\"\"b\"").unwrap(), vec![vec!["a\"b"]]);
}

/// RFC 4180 §2.5 — an empty quoted field `""` is the EMPTY STRING, not a literal
/// quote character. A naive parser that emits `"` or `""` here is wrong.
#[test]
fn empty_quoted_field_is_empty_string() {
    assert_eq!(parse_csv("\"\"").unwrap(), vec![vec![""]]);
}

/// RFC 4180 §2.5 — same rule mid-record: the empty quoted field between two commas
/// is an empty string, alongside its non-empty neighbours.
#[test]
fn empty_quoted_field_among_others() {
    assert_eq!(parse_csv("a,\"\",c").unwrap(), vec![vec!["a", "", "c"]]);
}

/// RFC 4180 §2.6 — a newline inside a quoted field is DATA, not a record
/// separator, so the input stays a single row with one field.
#[test]
fn newline_inside_quoted_field() {
    assert_eq!(parse_csv("\"a\nb\"").unwrap(), vec![vec!["a\nb"]]);
}

// ----------------------------------------------------------------------------
// Whitespace (RFC §2.4: "Spaces are considered part of a field and should not be
// ignored.")
// ----------------------------------------------------------------------------

/// RFC 4180 §2.4 — leading/trailing spaces in UNQUOTED fields are part of the
/// field and must be preserved verbatim, NOT trimmed.
#[test]
fn preserves_unquoted_whitespace() {
    assert_eq!(parse_csv(" a , b ").unwrap(), vec![vec![" a ", " b "]]);
}

/// RFC 4180 §2.5/§2.6 — spaces INSIDE a quoted field are literal data; `" a "`
/// decodes to ` a ` with both spaces intact.
#[test]
fn preserves_whitespace_inside_quotes() {
    assert_eq!(parse_csv("\" a \"").unwrap(), vec![vec![" a "]]);
}

// ----------------------------------------------------------------------------
// Line endings (RFC §2.1–§2.2) — CRLF, LF, bare CR, and trailing-newline edges.
// ----------------------------------------------------------------------------

/// RFC 4180 §2.1 — records are delimited by CRLF. `a,b\r\nc,d` is two records,
/// and the carriage return must not leak into the first row's last field.
#[test]
fn crlf_record_separator() {
    assert_eq!(
        parse_csv("a,b\r\nc,d").unwrap(),
        vec![vec!["a", "b"], vec!["c", "d"]]
    );
}

/// RFC 4180 §2.1 — a CRLF is ONE separator, not two. Mixed `a\r\nb\nc` is three
/// records with NO spurious empty row between `a` and `b` (the classic bug from
/// splitting on `\r` and `\n` independently).
#[test]
fn mixed_crlf_and_lf() {
    assert_eq!(
        parse_csv("a\r\nb\nc").unwrap(),
        vec![vec!["a"], vec!["b"], vec!["c"]]
    );
}

/// De-facto (old-Mac) — a bare `\r` not followed by `\n` is a record separator, so
/// `a\rb` is two rows. A parser that treats it as data, or only handles `\n`/`\r\n`,
/// gets this wrong.
#[test]
fn bare_cr_record_separator() {
    assert_eq!(parse_csv("a\rb").unwrap(), vec![vec!["a"], vec!["b"]]);
}

/// RFC 4180 §2.2 — the last record may or may not end in a line break; a trailing
/// LF must NOT produce a spurious empty final record.
#[test]
fn trailing_lf_no_empty_row() {
    assert_eq!(parse_csv("a,b\n").unwrap(), vec![vec!["a", "b"]]);
}

/// RFC 4180 §2.2 — same rule for a trailing CRLF: `a,b\r\n` is exactly one record.
#[test]
fn trailing_crlf_no_empty_row() {
    assert_eq!(parse_csv("a,b\r\n").unwrap(), vec![vec!["a", "b"]]);
}

/// Empty input is zero records, not one empty row. `parse_csv("")` must be the
/// empty Vec — a parser that returns `[[""]]` for empty input is wrong.
#[test]
fn empty_input_no_rows() {
    let expected: Vec<Vec<String>> = vec![];
    assert_eq!(parse_csv("").unwrap(), expected);
}

// ----------------------------------------------------------------------------
// Malformed quoting must be rejected (RFC §2.5): quotes may not appear in or after
// an unquoted field.
// ----------------------------------------------------------------------------

/// RFC 4180 §2.5 — "if fields are not enclosed with double quotes, then double
/// quotes may not appear inside the fields." A quote in the middle of an unquoted
/// field (`ab"c"d`) is malformed and must return `Err`, not a silently-accepted
/// field with literal quotes.
#[test]
fn quote_in_unquoted_field_is_error() {
    assert!(parse_csv("ab\"c\"d").is_err());
}

/// RFC 4180 §2.5 — a closed quoted field must be followed by a delimiter or line
/// break. Trailing text after the closing quote (`"a"b`) is malformed and must
/// return `Err`.
#[test]
fn text_after_closing_quote_is_error() {
    assert!(parse_csv("\"a\"b").is_err());
}

/// RFC 4180 §2.5 — a field opened with `"` must be closed with a matching `"`.
/// Reaching end-of-input inside an open quote (`"abc`) is malformed and must
/// return `Err`.
#[test]
fn unterminated_quote_is_error() {
    assert!(parse_csv("\"abc").is_err());
}

// ----------------------------------------------------------------------------
// Edges
// ----------------------------------------------------------------------------

#[test]
fn malformed_texts_name_the_error() {
    assert_eq!(parse_csv("\"abc"), Err(CsvError::UnterminatedQuote));
    assert_eq!(parse_csv("a,b\n\"c\"d"), Err(CsvError::UnterminatedQuote));
    assert_eq!(parse_csv(" \"a\""), Err(CsvError::UnterminatedQuote));
    assert_eq!(parse_csv("a\""), Err(CsvError::UnterminatedQuote));
    assert_eq!(CsvError::UnterminatedQuote.message(), "unterminated quoted field");
}

#[test]
fn empty_fields_at_the_ends_count() {
    assert_eq!(rows(","), vec![vec!["", ""]]);
    assert_eq!(rows("a,\n,b"), vec![vec!["a", ""], vec!["", "b"]]);
}

#[test]
fn a_blank_line_is_a_row_with_an_empty_field() {
    assert_eq!(rows("a\n\nb"), vec![vec!["a"], vec![""], vec!["b"]]);
    assert_eq!(rows("\n"), vec![vec![""]]);
}

#[test]
fn line_breaks_in_quotes_are_kept_as_written() {
    assert_eq!(rows("\"a\r\nb\rc\n\",d"), vec![vec!["a\r\nb\rc\n", "d"]]);
}

#[test]
fn characters_beyond_ascii_are_data() {
    assert_eq!(rows("é,\"日\"\"本\"\n—"), vec![vec!["é", "日\"本"], vec!["—"]]);
}

#[test]
fn written_rows_read_back() {
    let table = vec![
        vec!["plain", " spaced ", ""],
        vec!["quo\"te", "com,ma", "line\nbreak", "\r"],
        vec![""],
    ];
    for line_break in ["\n", "\r\n", "\r"] {
        for closed in [true, false] {
            let lines: Vec<String> = table
                .iter()
                .map(|row| {
                    row.iter()
                        .map(|f| format!("\"{}\"", f.replace('"', "\"\"")))
                        .collect::<Vec<_>>()
                        .join(",")
                })
                .collect();
            let mut text = lines.join(line_break);
            if closed {
                text.push_str(line_break);
            }
            assert_eq!(rows(&text), table);
        }
    }
}

#[test]
fn a_last_line_break_makes_no_row() {
    for text in ["a", "a,b\nc", "a,", "\"x\ny\"", "a\n\nb"] {
        for line_break in ["\n", "\r\n", "\r"] {
            assert_eq!(rows(&format!("{text}{line_break}")), rows(text));
        }
    }
    // Behind an empty text it does, and behind another line break.
    assert_ne!(rows("\n"), rows(""));
    assert_ne!(rows("a\n\n"), rows("a\n"));
    // Unless it completes a CRLF.
    assert_eq!(rows("a\r\n"), rows("a\r"));
}

#[test]
fn every_row_has_a_field() {
    for text in ["", "\n\n", ",\n,", "a\r\rb", "\"\"\n\"\""] {
        assert!(rows(text).iter().all(|row| !row.is_empty()));
    }
}

#[test]
fn texts_are_read_one_after_the_other() {
    for first in ["a", "a,b\nc", "\"x\ny\",", "a\r\n\"\""] {
        for line_break in ["\n", "\r\n", "\r"] {
            for second in ["", "d", "d,\"e\"\n", ",\r\n\r\nf"] {
                let mut expected = rows(first);
                expected.extend(rows(second));
                assert_eq!(rows(&format!("{first}{line_break}{second}")), expected);
            }
            assert!(parse_csv(&format!("{first}{line_break}a\"")).is_err());
        }
    }
}
