//! Comma-separated values as RFC 4180 describes them.
//!
//! A text is a run of records. A record is one or more fields with a comma
//! between each two, and ends at a line break (CRLF, LF or a lone CR) or at the
//! end of the text. A field is either quoted, and then holds any characters with
//! a double quote written twice, or plain, and then holds no double quote, comma
//! or line break. White space belongs to the field it stands in.

use vstd::prelude::*;

use crate::text;

verus! {

/// Why a text is not a run of records.
#[derive(Debug, Clone, PartialEq, Eq, Structural)]
pub enum CsvError {
    /// The double quotes of a field do not pair up: a quoted field is not closed
    /// before the end of the text or before its delimiter, or a double quote
    /// stands in a field that does not start with one.
    UnterminatedQuote,
}

impl CsvError {
    /// The error in words.
    pub fn message(&self) -> (r: String)
        ensures
            r@ == "unterminated quoted field"@,
    {
        match self {
            CsvError::UnterminatedQuote => "unterminated quoted field".to_owned(),
        }
    }
}

/// The characters that line breaks are made of.
pub open spec fn is_break(c: char) -> bool {
    c == '\r' || c == '\n'
}

/// The characters that a plain field may hold.
pub open spec fn is_plain(c: char) -> bool {
    c != '"' && c != ',' && !is_break(c)
}

/// Where the run of plain characters that starts at `i` ends.
pub open spec fn plain_end(s: Seq<char>, i: int) -> int
    decreases s.len() - i,
{
    if 0 <= i < s.len() && is_plain(s[i]) {
        plain_end(s, i + 1)
    } else {
        i
    }
}

/// The quoted field whose opening quote stands just before `i`: its value, and
/// the position behind its closing quote. `None` where it is never closed.
pub open spec fn quoted_at(s: Seq<char>, i: int) -> Option<(Seq<char>, int)>
    decreases s.len() - i,
{
    if i < 0 || i >= s.len() {
        None
    } else if s[i] != '"' {
        match quoted_at(s, i + 1) {
            Some((value, end)) => Some((seq![s[i]] + value, end)),
            None => None,
        }
    } else if i + 1 < s.len() && s[i + 1] == '"' {
        match quoted_at(s, i + 2) {
            Some((value, end)) => Some((seq!['"'] + value, end)),
            None => None,
        }
    } else {
        Some((Seq::empty(), i + 1))
    }
}

/// The field that starts at `i`: its value, and the position behind it.
pub open spec fn field_at(s: Seq<char>, i: int) -> Option<(Seq<char>, int)> {
    if 0 <= i < s.len() && s[i] == '"' {
        quoted_at(s, i + 1)
    } else {
        Some((s.subrange(i, plain_end(s, i)), plain_end(s, i)))
    }
}

/// The position behind the line break at `i`; CRLF is one line break.
pub open spec fn break_end(s: Seq<char>, i: int) -> int {
    if s[i] == '\r' && i + 1 < s.len() && s[i + 1] == '\n' {
        i + 2
    } else {
        i + 1
    }
}

pub(crate) proof fn lemma_plain_end(s: Seq<char>, i: int)
    requires
        0 <= i <= s.len(),
    ensures
        i <= plain_end(s, i) <= s.len(),
        forall|k: int| i <= k < plain_end(s, i) ==> is_plain(#[trigger] s[k]),
        plain_end(s, i) < s.len() ==> !is_plain(s[plain_end(s, i)]),
    decreases s.len() - i,
{
    if i < s.len() && is_plain(s[i]) {
        lemma_plain_end(s, i + 1);
    }
}

pub(crate) proof fn lemma_quoted_end(s: Seq<char>, i: int)
    ensures
        quoted_at(s, i) matches Some((_, end)) ==> i < end <= s.len(),
    decreases s.len() - i,
{
    if 0 <= i < s.len() {
        lemma_quoted_end(s, i + 1);
        if i + 1 < s.len() {
            lemma_quoted_end(s, i + 2);
        }
    }
}

pub(crate) proof fn lemma_field_end(s: Seq<char>, i: int)
    requires
        0 <= i <= s.len(),
    ensures
        field_at(s, i) matches Some((_, end)) ==> i <= end <= s.len(),
{
    lemma_quoted_end(s, i + 1);
    lemma_plain_end(s, i);
}

/// The record that starts at `i`: its fields, and the position behind it and the
/// line break that ends it. `None` where one of its fields is malformed.
pub open spec fn record_at(s: Seq<char>, i: int) -> Option<(Seq<Seq<char>>, int)>
    decreases s.len() - i,
    when 0 <= i <= s.len()
    via record_at_decreases
{
    match field_at(s, i) {
        Some((value, end)) => if end >= s.len() {
            Some((seq![value], end))
        } else if s[end] == ',' {
            match record_at(s, end + 1) {
                Some((values, rest)) => Some((seq![value] + values, rest)),
                None => None,
            }
        } else if is_break(s[end]) {
            Some((seq![value], break_end(s, end)))
        } else {
            None
        },
        None => None,
    }
}

#[via_fn]
proof fn record_at_decreases(s: Seq<char>, i: int) {
    lemma_field_end(s, i);
}

pub(crate) proof fn lemma_record_end(s: Seq<char>, i: int)
    requires
        0 <= i <= s.len(),
    ensures
        record_at(s, i) matches Some((values, end)) ==> {
            &&& i <= end <= s.len()
            &&& i < s.len() ==> i < end
            &&& values.len() > 0
        },
    decreases s.len() - i,
{
    lemma_field_end(s, i);
    if let Some((_, end)) = field_at(s, i) {
        if end < s.len() && s[end] == ',' {
            lemma_record_end(s, end + 1);
        }
    }
}

/// The records from `i` to the end of the text.
pub open spec fn rows_at(s: Seq<char>, i: int) -> Option<Seq<Seq<Seq<char>>>>
    decreases s.len() - i,
    when 0 <= i <= s.len()
    via rows_at_decreases
{
    if i >= s.len() {
        Some(Seq::empty())
    } else {
        match record_at(s, i) {
            Some((row, end)) => match rows_at(s, end) {
                Some(rows) => Some(seq![row] + rows),
                None => None,
            },
            None => None,
        }
    }
}

#[via_fn]
proof fn rows_at_decreases(s: Seq<char>, i: int) {
    lemma_record_end(s, i);
}

/// The rows of fields that the text `s` holds, `None` where it is malformed.
pub open spec fn csv_rows(s: Seq<char>) -> Option<Seq<Seq<Seq<char>>>> {
    rows_at(s, 0)
}

/// Reads the quoted field whose opening quote stands just before `start`.
fn parse_quoted(chars: &Vec<char>, start: usize) -> (r: Result<(String, usize), CsvError>)
    requires
        start <= chars@.len(),
    ensures
        match r {
            Ok((value, end)) => quoted_at(chars@, start as int) == Some((value@, end as int)),
            Err(_) => quoted_at(chars@, start as int) is None,
        },
{
    let mut value: String = String::new();
    let mut i: usize = start;
    let ghost whole = quoted_at(chars@, start as int);
    while i < chars.len()
        invariant
            start <= i <= chars@.len(),
            whole == quoted_at(chars@, start as int),
            match quoted_at(chars@, i as int) {
                Some((rest, end)) => whole == Some((value@ + rest, end)),
                None => whole is None,
            },
        decreases chars@.len() - i,
    {
        let ghost before = value@;
        let c: char = chars[i];
        if c != '"' {
            value.push(c);
            proof {
                if let Some((rest, end)) = quoted_at(chars@, i + 1) {
                    assert(before + (seq![c] + rest) =~= value@ + rest);
                }
            }
            i += 1;
        } else if i + 1 < chars.len() && chars[i + 1] == '"' {
            value.push('"');
            proof {
                if let Some((rest, end)) = quoted_at(chars@, i + 2) {
                    assert(before + (seq!['"'] + rest) =~= value@ + rest);
                }
            }
            i += 2;
        } else {
            assert(value@ + Seq::<char>::empty() =~= value@);
            return Ok((value, i + 1));
        }
    }
    Err(CsvError::UnterminatedQuote)
}

/// Reads the field that starts at `start`.
fn parse_field(chars: &Vec<char>, start: usize) -> (r: Result<(String, usize), CsvError>)
    requires
        start <= chars@.len(),
    ensures
        match r {
            Ok((value, end)) => field_at(chars@, start as int) == Some((value@, end as int)),
            Err(_) => field_at(chars@, start as int) is None,
        },
{
    if start < chars.len() && chars[start] == '"' {
        return parse_quoted(chars, start + 1);
    }
    let mut end: usize = start;
    while end < chars.len() && chars[end] != '"' && chars[end] != ',' && chars[end] != '\r'
        && chars[end] != '\n'
        invariant
            start <= end <= chars@.len(),
            plain_end(chars@, start as int) == plain_end(chars@, end as int),
        decreases chars@.len() - end,
    {
        end += 1;
    }
    Ok((text::string_of(chars, start, end), end))
}

/// Reads the record that starts at `start`.
fn parse_record(chars: &Vec<char>, start: usize) -> (r: Result<(Vec<String>, usize), CsvError>)
    requires
        start <= chars@.len(),
    ensures
        match r {
            Ok((values, end)) => record_at(chars@, start as int) == Some(
                (values.deep_view(), end as int),
            ),
            Err(_) => record_at(chars@, start as int) is None,
        },
{
    let mut values: Vec<String> = Vec::new();
    let mut i: usize = start;
    let ghost whole = record_at(chars@, start as int);
    assert(values.deep_view() =~= Seq::empty());
    proof {
        if let Some((rest, end)) = whole {
            assert(values.deep_view() + rest =~= rest);
        }
    }
    loop
        invariant
            start <= i <= chars@.len(),
            whole == record_at(chars@, start as int),
            match record_at(chars@, i as int) {
                Some((rest, end)) => whole == Some((values.deep_view() + rest, end)),
                None => whole is None,
            },
        decreases chars@.len() - i,
    {
        proof {
            lemma_field_end(chars@, i as int);
        }
        let (value, end): (String, usize) = match parse_field(chars, i) {
            Ok(found) => found,
            Err(e) => {
                return Err(e);
            },
        };
        let ghost before = values.deep_view();
        values.push(value);
        assert(values.deep_view() =~= before.push(value@));
        assert(values.deep_view() =~= before + seq![value@]);
        if end >= chars.len() {
            return Ok((values, end));
        }
        if chars[end] == ',' {
            proof {
                if let Some((rest, e)) = record_at(chars@, end + 1) {
                    assert(before + (seq![value@] + rest) =~= values.deep_view() + rest);
                }
            }
            i = end + 1;
        } else if chars[end] == '\r' && end + 1 < chars.len() && chars[end + 1] == '\n' {
            return Ok((values, end + 2));
        } else if chars[end] == '\r' || chars[end] == '\n' {
            return Ok((values, end + 1));
        } else {
            return Err(CsvError::UnterminatedQuote);
        }
    }
}

/// Parses RFC 4180 CSV text into rows of fields.
pub fn parse_csv(input: &str) -> (r: Result<Vec<Vec<String>>, CsvError>)
    ensures
        match r {
            Ok(rows) => csv_rows(input@) == Some(rows.deep_view()),
            Err(e) => csv_rows(input@) is None && e == CsvError::UnterminatedQuote,
        },
{
    let chars: Vec<char> = text::chars_of(input);
    let mut rows: Vec<Vec<String>> = Vec::new();
    let mut i: usize = 0;
    let ghost whole = csv_rows(input@);
    proof {
        if let Some(rest) = whole {
            assert(rows.deep_view() + rest =~= rest);
        }
    }
    while i < chars.len()
        invariant
            i <= chars@.len(),
            chars@ == input@,
            match rows_at(chars@, i as int) {
                Some(rest) => whole == Some(rows.deep_view() + rest),
                None => whole is None,
            },
            whole == csv_rows(input@),
        decreases chars@.len() - i,
    {
        proof {
            lemma_record_end(chars@, i as int);
        }
        match parse_record(&chars, i) {
            Ok((row, end)) => {
                let ghost before = rows.deep_view();
                rows.push(row);
                assert(rows.deep_view() =~= before.push(row.deep_view()));
                proof {
                    if let Some(rest) = rows_at(chars@, end as int) {
                        assert(before + (seq![row.deep_view()] + rest) =~= rows.deep_view() + rest);
                    }
                }
                i = end;
            },
            Err(e) => {
                return Err(e);
            },
        }
    }
    assert(rows.deep_view() + Seq::<Seq<Seq<char>>>::empty() =~= rows.deep_view());
    Ok(rows)
}

} // verus!
