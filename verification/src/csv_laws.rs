//! What holds of every CSV text: which texts are malformed, that rows of fields
//! that are written down are read back, and that texts are read one by one.

use vstd::prelude::*;

use crate::csv;

verus! {

/// Every row has at least one field.
pub proof fn law_rows_hold_fields(s: Seq<char>)
    ensures
        csv::csv_rows(s) matches Some(rows) ==> forall|k: int|
            0 <= k < rows.len() ==> (#[trigger] rows[k]).len() > 0,
{
    lemma_rows_hold_fields(s, 0);
}

proof fn lemma_rows_hold_fields(s: Seq<char>, i: int)
    requires
        0 <= i <= s.len(),
    ensures
        csv::rows_at(s, i) matches Some(rows) ==> forall|k: int|
            0 <= k < rows.len() ==> (#[trigger] rows[k]).len() > 0,
    decreases s.len() - i,
{
    if i < s.len() {
        csv::lemma_record_end(s, i);
        if let Some((row, end)) = csv::record_at(s, i) {
            lemma_rows_hold_fields(s, end);
        }
    }
}

/// Whether the field that starts at `i` is malformed: it is quoted and never
/// closed, or what follows it is neither a comma nor a line break.
pub open spec fn malformed_at(s: Seq<char>, i: int) -> bool {
    match csv::field_at(s, i) {
        Some((_, end)) => end < s.len() && s[end] != ',' && !csv::is_break(s[end]),
        None => true,
    }
}

/// Where the field after the one at `i` starts.
pub open spec fn next_field(s: Seq<char>, i: int) -> Option<int> {
    match csv::field_at(s, i) {
        Some((_, end)) => if end < s.len() && s[end] == ',' {
            Some(end + 1)
        } else if end < s.len() && csv::is_break(s[end]) && csv::break_end(s, end) < s.len() {
            Some(csv::break_end(s, end))
        } else {
            None
        },
        None => None,
    }
}

/// Whether going from field to field leads from `i` to `k`.
pub open spec fn leads_to(s: Seq<char>, i: int, k: int) -> bool
    decreases s.len() - i,
{
    i == k || match next_field(s, i) {
        Some(j) => i < j <= s.len() && leads_to(s, j, k),
        None => false,
    }
}

/// Whether a field of the text starts at `k`.
pub open spec fn starts_field(s: Seq<char>, k: int) -> bool {
    s.len() > 0 && leads_to(s, 0, k)
}

spec fn fails_from(s: Seq<char>, i: int) -> bool {
    match csv::record_at(s, i) {
        Some((_, end)) => csv::rows_at(s, end) is None,
        None => true,
    }
}

spec fn leads_to_malformed(s: Seq<char>, i: int) -> bool {
    exists|k: int| #[trigger] leads_to(s, i, k) && malformed_at(s, k)
}

proof fn lemma_leads_to_malformed(s: Seq<char>, i: int)
    requires
        0 <= i <= s.len(),
    ensures
        leads_to_malformed(s, i) == (malformed_at(s, i) || match next_field(s, i) {
            Some(j) => leads_to_malformed(s, j),
            None => false,
        }),
{
    csv::lemma_field_end(s, i);
    if malformed_at(s, i) {
        assert(leads_to(s, i, i));
    }
    if let Some(j) = next_field(s, i) {
        assert(i < j <= s.len());
        if leads_to_malformed(s, j) {
            let k = choose|k: int| #[trigger] leads_to(s, j, k) && malformed_at(s, k);
            assert(leads_to(s, i, k));
        }
    }
    if leads_to_malformed(s, i) && !malformed_at(s, i) {
        let k = choose|k: int| #[trigger] leads_to(s, i, k) && malformed_at(s, k);
        let j = next_field(s, i)->0;
        assert(leads_to(s, j, k));
    }
}

proof fn lemma_rows_fail(s: Seq<char>, i: int)
    requires
        0 <= i <= s.len(),
    ensures
        csv::rows_at(s, i) is None <==> i < s.len() && fails_from(s, i),
{
    csv::lemma_record_end(s, i);
    if i < s.len() {
        if let Some((_, end)) = csv::record_at(s, i) {
            if csv::rows_at(s, end) is None {
                assert(csv::rows_at(s, i) is None);
            }
        }
    }
}

proof fn lemma_fails_from(s: Seq<char>, i: int)
    requires
        0 <= i <= s.len(),
    ensures
        fails_from(s, i) == leads_to_malformed(s, i),
    decreases s.len() - i,
{
    lemma_leads_to_malformed(s, i);
    csv::lemma_field_end(s, i);
    csv::lemma_record_end(s, i);
    if let Some(j) = next_field(s, i) {
        lemma_fails_from(s, j);
    }
    if let Some((_, end)) = csv::field_at(s, i) {
        if end >= s.len() {
            assert(csv::rows_at(s, end) is Some);
        } else if csv::is_break(s[end]) {
            let j = csv::break_end(s, end);
            assert(csv::record_at(s, i) matches Some((_, e)) && e == j);
            lemma_rows_fail(s, j);
        }
    }
}

/// A text is malformed exactly where one of its fields is: a quoted field that is
/// never closed, text behind a closing quote, or a quote in a plain field.
pub proof fn law_malformed_text(s: Seq<char>)
    ensures
        csv::csv_rows(s) is None <==> exists|k: int| #[trigger]
            starts_field(s, k) && malformed_at(s, k),
{
    if s.len() > 0 {
        lemma_fails_from(s, 0);
        if leads_to_malformed(s, 0) {
            let k = choose|k: int| #[trigger] leads_to(s, 0, k) && malformed_at(s, k);
            assert(starts_field(s, k));
        }
        lemma_rows_fail(s, 0);
    }
}

/// The three line breaks.
pub enum LineBreak {
    Lf,
    CrLf,
    Cr,
}

impl LineBreak {
    pub open spec fn chars(self) -> Seq<char> {
        match self {
            LineBreak::Lf => seq!['\n'],
            LineBreak::CrLf => seq!['\r', '\n'],
            LineBreak::Cr => seq!['\r'],
        }
    }
}

/// A field as somebody writes it down: its value, and whether in quotes.
pub struct WrittenField {
    pub value: Seq<char>,
    pub quoted: bool,
}

/// A record as somebody writes it down: its fields, and the line break behind it.
pub struct WrittenRow {
    pub fields: Seq<WrittenField>,
    pub line_break: LineBreak,
}

/// `value` with each double quote written twice.
pub open spec fn doubled_quotes(value: Seq<char>) -> Seq<char>
    decreases value.len(),
{
    if value.len() == 0 {
        Seq::empty()
    } else if value[0] == '"' {
        seq!['"', '"'] + doubled_quotes(value.skip(1))
    } else {
        seq![value[0]] + doubled_quotes(value.skip(1))
    }
}

impl WrittenField {
    pub open spec fn text(self) -> Seq<char> {
        if self.quoted {
            seq!['"'] + doubled_quotes(self.value) + seq!['"']
        } else {
            self.value
        }
    }

    /// A field may go without quotes where it holds plain characters only.
    pub open spec fn fits(self) -> bool {
        self.quoted || forall|k: int|
            0 <= k < self.value.len() ==> {
                let c = #[trigger] self.value[k];
                c != '"' && c != ',' && c != '\r' && c != '\n'
            }
    }
}

/// The fields with a comma between each two.
pub open spec fn fields_text(fields: Seq<WrittenField>) -> Seq<char>
    decreases fields.len(),
{
    if fields.len() == 0 {
        Seq::empty()
    } else if fields.len() == 1 {
        fields[0].text()
    } else {
        fields[0].text() + seq![','] + fields_text(fields.skip(1))
    }
}

impl WrittenRow {
    pub open spec fn text(self) -> Seq<char> {
        fields_text(self.fields)
    }

    pub open spec fn fits(self) -> bool {
        &&& self.fields.len() > 0
        &&& forall|k: int| 0 <= k < self.fields.len() ==> (#[trigger] self.fields[k]).fits()
    }

    pub open spec fn values(self) -> Seq<Seq<char>> {
        self.fields.map_values(|f: WrittenField| f.value)
    }
}

/// The rows one after the other, each with its line break; the last one without
/// it where `closed` is false.
pub open spec fn table_text(rows: Seq<WrittenRow>, closed: bool) -> Seq<char>
    decreases rows.len(),
{
    if rows.len() == 0 {
        Seq::empty()
    } else if rows.len() == 1 && !closed {
        rows[0].text()
    } else {
        rows[0].text() + rows[0].line_break.chars() + table_text(rows.skip(1), closed)
    }
}

/// Whether the text of the rows shows where each of them ends. It does not where
/// a lone CR meets the LF of an empty row, which reads as CRLF, nor where the
/// last row is empty and has no line break.
pub open spec fn rows_show(rows: Seq<WrittenRow>, closed: bool) -> bool
    decreases rows.len(),
{
    if rows.len() == 0 {
        true
    } else if rows.len() == 1 && !closed {
        rows[0].text().len() > 0
    } else {
        let rest = table_text(rows.skip(1), closed);
        &&& !(rows[0].line_break is Cr && rest.len() > 0 && rest[0] == '\n')
        &&& rows_show(rows.skip(1), closed)
    }
}

spec fn stands_at(s: Seq<char>, i: int, t: Seq<char>) -> bool {
    &&& 0 <= i
    &&& i + t.len() <= s.len()
    &&& forall|k: int| 0 <= k < t.len() ==> s[i + k] == #[trigger] t[k]
}

proof fn lemma_stands_at_split(s: Seq<char>, i: int, a: Seq<char>, b: Seq<char>)
    requires
        stands_at(s, i, a + b),
    ensures
        stands_at(s, i, a),
        stands_at(s, i + a.len(), b),
{
    assert forall|k: int| 0 <= k < a.len() implies s[i + k] == #[trigger] a[k] by {
        assert((a + b)[k] == a[k]);
    }
    assert forall|k: int| 0 <= k < b.len() implies s[i + a.len() + k] == #[trigger] b[k] by {
        assert((a + b)[a.len() + k] == b[k]);
    }
}

proof fn lemma_quoted_reads_back(s: Seq<char>, i: int, value: Seq<char>)
    requires
        stands_at(s, i, doubled_quotes(value) + seq!['"']),
        i + doubled_quotes(value).len() + 1 < s.len() ==> s[i + doubled_quotes(value).len() + 1]
            != '"',
    ensures
        csv::quoted_at(s, i) == Some((value, i + doubled_quotes(value).len() + 1)),
    decreases value.len(),
{
    let d = doubled_quotes(value);
    lemma_stands_at_split(s, i, d, seq!['"']);
    assert(s[i + d.len()] == seq!['"'][0]);
    if value.len() > 0 {
        let rest = value.skip(1);
        let first = if value[0] == '"' {
            seq!['"', '"']
        } else {
            seq![value[0]]
        };
        assert(d == first + doubled_quotes(rest));
        assert(d + seq!['"'] =~= first + (doubled_quotes(rest) + seq!['"']));
        lemma_stands_at_split(s, i, first, doubled_quotes(rest) + seq!['"']);
        lemma_quoted_reads_back(s, i + first.len(), rest);
        assert(s[i + 0] == first[0]);
        if value[0] == '"' {
            assert(s[i + 1] == first[1]);
        }
        assert(seq![value[0]] + rest =~= value);
    } else {
        assert(value =~= Seq::empty());
    }
}

proof fn lemma_plain_run(s: Seq<char>, i: int, end: int)
    requires
        0 <= i <= end <= s.len(),
        forall|k: int| i <= k < end ==> csv::is_plain(#[trigger] s[k]),
        end < s.len() ==> !csv::is_plain(s[end]),
    ensures
        csv::plain_end(s, i) == end,
    decreases end - i,
{
    if i < end {
        lemma_plain_run(s, i + 1, end);
    }
}

spec fn at_delimiter(s: Seq<char>, i: int) -> bool {
    i == s.len() || (0 <= i < s.len() && (s[i] == ',' || csv::is_break(s[i])))
}

proof fn lemma_field_reads_back(s: Seq<char>, i: int, f: WrittenField)
    requires
        f.fits(),
        stands_at(s, i, f.text()),
        at_delimiter(s, i + f.text().len()),
    ensures
        csv::field_at(s, i) == Some((f.value, i + f.text().len())),
{
    let end = i + f.text().len();
    if f.quoted {
        let d = doubled_quotes(f.value);
        assert(f.text() =~= seq!['"'] + (d + seq!['"']));
        lemma_stands_at_split(s, i, seq!['"'], d + seq!['"']);
        assert(s[i + 0] == seq!['"'][0]);
        lemma_quoted_reads_back(s, i + 1, f.value);
    } else {
        assert forall|k: int| i <= k < end implies csv::is_plain(#[trigger] s[k]) by {
            assert(s[i + (k - i)] == f.value[k - i]);
        }
        lemma_plain_run(s, i, end);
        assert(s.subrange(i, end) =~= f.value) by {
            assert forall|k: int| 0 <= k < f.value.len() implies s.subrange(i, end)[k]
                == f.value[k] by {
                assert(s[i + k] == f.text()[k]);
            }
        }
    }
}

proof fn lemma_fields_read_back(s: Seq<char>, i: int, fields: Seq<WrittenField>)
    requires
        fields.len() > 0,
        forall|k: int| 0 <= k < fields.len() ==> (#[trigger] fields[k]).fits(),
        stands_at(s, i, fields_text(fields)),
        ({
            let end = i + fields_text(fields).len();
            end == s.len() || csv::is_break(s[end])
        }),
    ensures
        ({
            let end = i + fields_text(fields).len();
            csv::record_at(s, i) == Some(
                (
                    fields.map_values(|f: WrittenField| f.value),
                    if end == s.len() {
                        end
                    } else {
                        csv::break_end(s, end)
                    },
                ),
            )
        }),
    decreases fields.len(),
{
    let first = fields[0].text();
    let all = fields.map_values(|f: WrittenField| f.value);
    if fields.len() == 1 {
        lemma_field_reads_back(s, i, fields[0]);
        assert(all =~= seq![fields[0].value]);
    } else {
        let rest = fields.skip(1);
        let tail = seq![','] + fields_text(rest);
        assert(fields_text(fields) =~= first + tail);
        lemma_stands_at_split(s, i, first, tail);
        lemma_stands_at_split(s, i + first.len(), seq![','], fields_text(rest));
        assert(s[i + first.len() + 0] == seq![','][0]);
        assert forall|k: int| 0 <= k < rest.len() implies (#[trigger] rest[k]).fits() by {
            assert(rest[k] == fields[k + 1]);
        }
        lemma_field_reads_back(s, i, fields[0]);
        lemma_fields_read_back(s, i + first.len() + 1, rest);
        assert(all =~= seq![fields[0].value] + rest.map_values(|f: WrittenField| f.value));
    }
}

proof fn lemma_table_reads_back(s: Seq<char>, i: int, rows: Seq<WrittenRow>, closed: bool)
    requires
        forall|k: int| 0 <= k < rows.len() ==> (#[trigger] rows[k]).fits(),
        rows_show(rows, closed),
        stands_at(s, i, table_text(rows, closed)),
        i + table_text(rows, closed).len() == s.len(),
    ensures
        csv::rows_at(s, i) == Some(rows.map_values(|r: WrittenRow| r.values())),
    decreases rows.len(),
{
    let all = rows.map_values(|r: WrittenRow| r.values());
    if rows.len() == 0 {
        assert(all =~= Seq::empty());
    } else if rows.len() == 1 && !closed {
        lemma_fields_read_back(s, i, rows[0].fields);
        assert(csv::rows_at(s, s.len() as int) == Some(Seq::<Seq<Seq<char>>>::empty()));
        assert(all =~= seq![rows[0].values()] + Seq::<Seq<Seq<char>>>::empty());
    } else {
        let first = rows[0].text();
        let lb = rows[0].line_break.chars();
        let rest = rows.skip(1);
        let tail = table_text(rest, closed);
        assert(table_text(rows, closed) =~= first + (lb + tail));
        lemma_stands_at_split(s, i, first, lb + tail);
        let at = i + first.len();
        lemma_stands_at_split(s, at, lb, tail);
        assert(s[at + 0] == lb[0]);
        if rows[0].line_break is CrLf {
            assert(s[at + 1] == lb[1]);
        }
        if tail.len() > 0 {
            assert(s[at + lb.len() + 0] == tail[0]);
        }
        assert(csv::break_end(s, at) == at + lb.len());
        assert forall|k: int| 0 <= k < rest.len() implies (#[trigger] rest[k]).fits() by {
            assert(rest[k] == rows[k + 1]);
        }
        lemma_fields_read_back(s, i, rows[0].fields);
        lemma_table_reads_back(s, at + lb.len(), rest, closed);
        assert(all =~= seq![rows[0].values()] + rest.map_values(|r: WrittenRow| r.values()));
    }
}

/// Rows that are written down are read back as they were: whichever fields are
/// quoted (those with a double quote, a comma or a line break have to be),
/// whichever line break ends each row, and whether or not one follows the last.
pub proof fn law_written_rows_read_back(rows: Seq<WrittenRow>, closed: bool)
    requires
        forall|k: int| 0 <= k < rows.len() ==> (#[trigger] rows[k]).fits(),
        rows_show(rows, closed),
    ensures
        csv::csv_rows(table_text(rows, closed)) == Some(
            rows.map_values(|r: WrittenRow| r.values()),
        ),
{
    lemma_table_reads_back(table_text(rows, closed), 0, rows, closed);
}

proof fn lemma_quoted_keeps(s: Seq<char>, b: LineBreak, i: int)
    requires
        0 <= i,
    ensures
        csv::quoted_at(s + b.chars(), i) == csv::quoted_at(s, i),
    decreases (s + b.chars()).len() - i,
{
    let t = s + b.chars();
    if i < t.len() {
        lemma_quoted_keeps(s, b, i + 1);
        if i + 1 < t.len() {
            lemma_quoted_keeps(s, b, i + 2);
        }
        if i < s.len() {
            assert(t[i] == s[i]);
        } else {
            assert(csv::is_break(t[i]));
        }
        if i + 1 < s.len() {
            assert(t[i + 1] == s[i + 1]);
        } else if i + 1 < t.len() {
            assert(csv::is_break(t[i + 1]));
        }
    }
}

proof fn lemma_field_keeps(s: Seq<char>, b: LineBreak, i: int)
    requires
        0 <= i <= s.len(),
    ensures
        csv::field_at(s + b.chars(), i) == csv::field_at(s, i),
{
    let t = s + b.chars();
    assert(csv::is_break(t[s.len() as int]));
    lemma_quoted_keeps(s, b, i + 1);
    csv::lemma_plain_end(s, i);
    let end = csv::plain_end(s, i);
    assert forall|k: int| i <= k < end implies csv::is_plain(#[trigger] t[k]) by {
        assert(t[k] == s[k]);
    }
    lemma_plain_run(t, i, end);
    assert(t.subrange(i, end) =~= s.subrange(i, end));
}

proof fn lemma_record_keeps(s: Seq<char>, b: LineBreak, i: int)
    requires
        0 <= i <= s.len(),
    ensures
        match csv::record_at(s, i) {
            Some((values, end)) => {
                &&& csv::record_at(s + b.chars(), i) matches Some((w, e))
                &&& w == values
                &&& end < s.len() ==> e == end
                &&& end == s.len() && (!csv::is_break(s.last()) || (b is Lf && s.last() == '\r'))
                    ==> e == s.len() + b.chars().len()
            },
            None => csv::record_at(s + b.chars(), i) is None,
        },
    decreases s.len() - i,
{
    let t = s + b.chars();
    lemma_field_keeps(s, b, i);
    csv::lemma_field_end(s, i);
    assert(csv::is_break(t[s.len() as int]));
    if let Some((_, end)) = csv::field_at(s, i) {
        if end < s.len() {
            assert(t[end] == s[end]);
            if end + 1 < s.len() {
                assert(t[end + 1] == s[end + 1]);
            }
            if s[end] == ',' {
                lemma_record_keeps(s, b, end + 1);
            }
        }
    }
}

proof fn lemma_rows_keep(s: Seq<char>, b: LineBreak, i: int)
    requires
        0 <= i < s.len(),
        csv::rows_at(s, i) is None || !csv::is_break(s.last()) || (b is Lf && s.last() == '\r'),
    ensures
        csv::rows_at(s + b.chars(), i) == csv::rows_at(s, i),
    decreases s.len() - i,
{
    let t = s + b.chars();
    lemma_record_keeps(s, b, i);
    csv::lemma_record_end(s, i);
    if let Some((_, end)) = csv::record_at(s, i) {
        if end < s.len() {
            assert(csv::rows_at(s, i) is None ==> csv::rows_at(s, end) is None);
            lemma_rows_keep(s, b, end);
        } else {
            assert(csv::rows_at(s, end) is Some);
            assert(csv::rows_at(t, t.len() as int) == csv::rows_at(s, end));
        }
    }
}

/// A line break behind the last record makes no row of its own. (Behind a text
/// that is empty or already ends in one it does, unless it completes a CRLF.)
pub proof fn law_last_line_break_is_optional(s: Seq<char>, b: LineBreak)
    requires
        s.len() > 0,
        csv::csv_rows(s) is None || !csv::is_break(s.last()) || (b is Lf && s.last() == '\r'),
    ensures
        csv::csv_rows(s + b.chars()) == csv::csv_rows(s),
{
    lemma_rows_keep(s, b, 0);
}

/// The same field or record, `by` positions further on.
spec fn moved<T>(r: Option<(T, int)>, by: int) -> Option<(T, int)> {
    match r {
        Some((value, end)) => Some((value, end + by)),
        None => None,
    }
}

proof fn lemma_quoted_moves(p: Seq<char>, q: Seq<char>, i: int)
    requires
        0 <= i,
    ensures
        csv::quoted_at(p + q, p.len() + i) == moved(csv::quoted_at(q, i), p.len() as int),
    decreases q.len() - i,
{
    if i < q.len() {
        lemma_quoted_moves(p, q, i + 1);
        if i + 1 < q.len() {
            assert((p + q)[p.len() + i + 1] == q[i + 1]);
            lemma_quoted_moves(p, q, i + 2);
        }
        assert((p + q)[p.len() + i] == q[i]);
    }
}

proof fn lemma_field_moves(p: Seq<char>, q: Seq<char>, i: int)
    requires
        0 <= i <= q.len(),
    ensures
        csv::field_at(p + q, p.len() + i) == moved(csv::field_at(q, i), p.len() as int),
{
    let t = p + q;
    lemma_quoted_moves(p, q, i + 1);
    csv::lemma_plain_end(q, i);
    let end = csv::plain_end(q, i);
    assert forall|k: int| p.len() + i <= k < p.len() + end implies csv::is_plain(
        #[trigger] t[k],
    ) by {
        assert(t[k] == q[k - p.len()]);
    }
    lemma_plain_run(t, p.len() + i, p.len() + end);
    assert(t.subrange(p.len() + i, p.len() + end) =~= q.subrange(i, end));
}

proof fn lemma_record_moves(p: Seq<char>, q: Seq<char>, i: int)
    requires
        0 <= i <= q.len(),
    ensures
        csv::record_at(p + q, p.len() + i) == moved(csv::record_at(q, i), p.len() as int),
    decreases q.len() - i,
{
    let t = p + q;
    lemma_field_moves(p, q, i);
    csv::lemma_field_end(q, i);
    if let Some((_, end)) = csv::field_at(q, i) {
        if end < q.len() {
            assert(t[p.len() + end] == q[end]);
            if end + 1 < q.len() {
                assert(t[p.len() + end + 1] == q[end + 1]);
            }
            if q[end] == ',' {
                lemma_record_moves(p, q, end + 1);
            }
        }
    }
}

proof fn lemma_rows_move(p: Seq<char>, q: Seq<char>, i: int)
    requires
        0 <= i <= q.len(),
    ensures
        csv::rows_at(p + q, p.len() + i) == csv::rows_at(q, i),
    decreases q.len() - i,
{
    if i < q.len() {
        lemma_record_moves(p, q, i);
        csv::lemma_record_end(q, i);
        if let Some((_, end)) = csv::record_at(q, i) {
            lemma_rows_move(p, q, end);
        }
    }
}

proof fn lemma_quoted_stays(s: Seq<char>, x: Seq<char>, i: int)
    requires
        0 <= i,
        x.len() > 0,
        csv::is_break(x[0]),
        csv::quoted_at(s, i) is Some,
    ensures
        csv::quoted_at(s + x, i) == csv::quoted_at(s, i),
    decreases s.len() - i,
{
    let t = s + x;
    assert(t[i] == s[i]);
    assert(t[s.len() as int] == x[0]);
    if i + 1 < s.len() {
        assert(t[i + 1] == s[i + 1]);
    }
    if s[i] != '"' {
        lemma_quoted_stays(s, x, i + 1);
    } else if i + 1 < s.len() && s[i + 1] == '"' {
        lemma_quoted_stays(s, x, i + 2);
    }
}

proof fn lemma_field_stays(s: Seq<char>, x: Seq<char>, i: int)
    requires
        0 <= i <= s.len(),
        x.len() > 0,
        csv::is_break(x[0]),
        csv::field_at(s, i) is Some,
    ensures
        csv::field_at(s + x, i) == csv::field_at(s, i),
{
    let t = s + x;
    assert(t[s.len() as int] == x[0]);
    if i < s.len() {
        assert(t[i] == s[i]);
    }
    if i < s.len() && s[i] == '"' {
        lemma_quoted_stays(s, x, i + 1);
    } else {
        csv::lemma_plain_end(s, i);
        let end = csv::plain_end(s, i);
        assert forall|k: int| i <= k < end implies csv::is_plain(#[trigger] t[k]) by {
            assert(t[k] == s[k]);
        }
        lemma_plain_run(t, i, end);
        assert(t.subrange(i, end) =~= s.subrange(i, end));
    }
}

proof fn lemma_record_stays(s: Seq<char>, x: Seq<char>, i: int)
    requires
        0 <= i <= s.len(),
        s.len() > 0,
        !csv::is_break(s.last()),
        x.len() > 0,
        csv::is_break(x[0]),
        csv::record_at(s, i) is Some,
    ensures
        csv::record_at(s, i) matches Some((values, end)) && csv::record_at(s + x, i) == Some(
            (
                values,
                if end < s.len() {
                    end
                } else {
                    csv::break_end(s + x, s.len() as int)
                },
            ),
        ),
    decreases s.len() - i,
{
    let t = s + x;
    lemma_field_stays(s, x, i);
    csv::lemma_field_end(s, i);
    assert(t[s.len() as int] == x[0]);
    if let Some((_, end)) = csv::field_at(s, i) {
        if end < s.len() {
            assert(t[end] == s[end]);
            if end + 1 < s.len() {
                assert(t[end + 1] == s[end + 1]);
            }
            if s[end] == ',' {
                lemma_record_stays(s, x, end + 1);
            }
        }
    }
}

proof fn lemma_rows_stay(s: Seq<char>, x: Seq<char>, i: int)
    requires
        0 <= i < s.len(),
        !csv::is_break(s.last()),
        x.len() > 0,
        csv::is_break(x[0]),
        csv::rows_at(s, i) is Some,
    ensures
        csv::rows_at(s + x, i) == followed(
            csv::rows_at(s, i),
            csv::rows_at(s + x, csv::break_end(s + x, s.len() as int)),
        ),
    decreases s.len() - i,
{
    let t = s + x;
    lemma_record_stays(s, x, i);
    csv::lemma_record_end(s, i);
    if let Some((row, end)) = csv::record_at(s, i) {
        let from = csv::break_end(t, s.len() as int);
        if end < s.len() {
            lemma_rows_stay(s, x, end);
            if let (Some(rest), Some(tail)) = (csv::rows_at(s, end), csv::rows_at(t, from)) {
                assert(seq![row] + (rest + tail) =~= (seq![row] + rest) + tail);
            }
        } else {
            assert(csv::rows_at(s, end) == Some(Seq::<Seq<Seq<char>>>::empty()));
            assert(csv::rows_at(s, i) == Some(seq![row] + Seq::<Seq<Seq<char>>>::empty()));
            assert(seq![row] + Seq::<Seq<Seq<char>>>::empty() =~= seq![row]);
        }
    }
}

/// The rows of one text and then those of another, where both are well-formed.
pub open spec fn followed(
    first: Option<Seq<Seq<Seq<char>>>>,
    second: Option<Seq<Seq<Seq<char>>>>,
) -> Option<Seq<Seq<Seq<char>>>> {
    match (first, second) {
        (Some(a), Some(b)) => Some(a + b),
        _ => None,
    }
}

/// Two texts with a line break between them hold the rows of the first and then
/// those of the second. (A first text that is malformed may be completed by the
/// second, one that is empty or ends in a line break gets one more empty record,
/// and a lone CR before a LF is half a line break.)
pub proof fn law_texts_are_read_one_after_the_other(s: Seq<char>, b: LineBreak, rest: Seq<char>)
    requires
        csv::csv_rows(s) is Some,
        s.len() > 0,
        !csv::is_break(s.last()),
        !(b is Cr && rest.len() > 0 && rest[0] == '\n'),
    ensures
        csv::csv_rows(s + b.chars() + rest) == followed(csv::csv_rows(s), csv::csv_rows(rest)),
{
    let x = b.chars() + rest;
    let t = s + x;
    assert(s + b.chars() + rest =~= t);
    assert(t[s.len() as int] == b.chars()[0]);
    if x.len() > 1 {
        assert(t[s.len() + 1int] == x[1]);
    }
    assert(csv::break_end(t, s.len() as int) == s.len() + b.chars().len());
    lemma_rows_stay(s, x, 0);
    lemma_rows_move(s + b.chars(), rest, 0);
}

/// Whether `s` is the rows `rows` written down in one of the ways there are.
pub open spec fn is_writing(
    written: Seq<WrittenRow>,
    closed: bool,
    rows: Seq<Seq<Seq<char>>>,
    s: Seq<char>,
) -> bool {
    &&& forall|k: int| 0 <= k < written.len() ==> (#[trigger] written[k]).fits()
    &&& rows_show(written, closed)
    &&& written.len() == rows.len()
    &&& forall|k: int| 0 <= k < rows.len() ==> (#[trigger] written[k]).values() == rows[k]
    &&& table_text(written, closed) == s
}

proof fn lemma_quoted_is_written(s: Seq<char>, i: int)
    requires
        0 <= i,
        csv::quoted_at(s, i) is Some,
    ensures
        csv::quoted_at(s, i) matches Some((value, end)) && i < end <= s.len() && s.subrange(i, end)
            == doubled_quotes(value) + seq!['"'],
    decreases s.len() - i,
{
    csv::lemma_quoted_end(s, i);
    let (value, end) = csv::quoted_at(s, i)->0;
    if s[i] != '"' {
        lemma_quoted_is_written(s, i + 1);
        let (rest, e) = csv::quoted_at(s, i + 1)->0;
        assert(value.skip(1) =~= rest);
        assert(s.subrange(i, end) =~= seq![s[i]] + s.subrange(i + 1, end));
        assert(s.subrange(i, end) =~= doubled_quotes(value) + seq!['"']);
    } else if i + 1 < s.len() && s[i + 1] == '"' {
        lemma_quoted_is_written(s, i + 2);
        let (rest, e) = csv::quoted_at(s, i + 2)->0;
        assert(value.skip(1) =~= rest);
        assert(s.subrange(i, end) =~= seq!['"', '"'] + s.subrange(i + 2, end));
        assert(s.subrange(i, end) =~= doubled_quotes(value) + seq!['"']);
    } else {
        assert(s.subrange(i, end) =~= doubled_quotes(value) + seq!['"']);
    }
}

proof fn lemma_field_is_written(s: Seq<char>, i: int) -> (f: WrittenField)
    requires
        0 <= i <= s.len(),
        csv::field_at(s, i) is Some,
    ensures
        f.fits(),
        csv::field_at(s, i) matches Some((value, end)) && f.value == value && i <= end <= s.len()
            && s.subrange(i, end) == f.text(),
{
    csv::lemma_field_end(s, i);
    let (value, end) = csv::field_at(s, i)->0;
    if i < s.len() && s[i] == '"' {
        lemma_quoted_is_written(s, i + 1);
        let f = WrittenField { value, quoted: true };
        assert(s.subrange(i, end) =~= seq!['"'] + s.subrange(i + 1, end));
        assert(s.subrange(i, end) =~= f.text());
        f
    } else {
        csv::lemma_plain_end(s, i);
        let f = WrittenField { value, quoted: false };
        assert forall|k: int| 0 <= k < value.len() implies {
            let c = #[trigger] value[k];
            c != '"' && c != ',' && c != '\r' && c != '\n'
        } by {
            assert(csv::is_plain(s[i + k]));
        }
        f
    }
}

proof fn lemma_record_is_written(s: Seq<char>, i: int) -> (r: (Seq<WrittenField>, int))
    requires
        0 <= i <= s.len(),
        csv::record_at(s, i) is Some,
    ensures
        r.0.len() > 0,
        forall|k: int| 0 <= k < r.0.len() ==> (#[trigger] r.0[k]).fits(),
        i <= r.1 <= s.len(),
        s.subrange(i, r.1) == fields_text(r.0),
        csv::record_at(s, i) matches Some((values, end)) && {
            &&& values == r.0.map_values(|f: WrittenField| f.value)
            &&& r.1 == s.len() ==> end == s.len()
            &&& r.1 < s.len() ==> csv::is_break(s[r.1]) && end == csv::break_end(s, r.1)
        },
    decreases s.len() - i,
{
    csv::lemma_field_end(s, i);
    let f = lemma_field_is_written(s, i);
    let (value, end) = csv::field_at(s, i)->0;
    let (values, _) = csv::record_at(s, i)->0;
    if end < s.len() && s[end] == ',' {
        let (rest, to) = lemma_record_is_written(s, end + 1);
        let fields = seq![f] + rest;
        assert(fields.skip(1) =~= rest);
        assert(s.subrange(i, to) =~= s.subrange(i, end) + seq![','] + s.subrange(end + 1, to));
        assert(values =~= fields.map_values(|f: WrittenField| f.value));
        assert forall|k: int| 0 <= k < fields.len() implies (#[trigger] fields[k]).fits() by {
            if k > 0 {
                assert(fields[k] == rest[k - 1]);
            }
        }
        (fields, to)
    } else {
        let fields = seq![f];
        assert(values =~= fields.map_values(|f: WrittenField| f.value));
        (fields, end)
    }
}

proof fn lemma_rows_are_written(s: Seq<char>, i: int) -> (r: (Seq<WrittenRow>, bool))
    requires
        0 <= i <= s.len(),
        csv::rows_at(s, i) is Some,
    ensures
        is_writing(r.0, r.1, csv::rows_at(s, i)->0, s.skip(i)),
        i == s.len() ==> r.1,
    decreases s.len() - i,
{
    let rows = csv::rows_at(s, i)->0;
    if i == s.len() {
        let written = Seq::<WrittenRow>::empty();
        assert(s.skip(i) =~= table_text(written, true));
        (written, true)
    } else {
        csv::lemma_record_end(s, i);
        let (values, end) = csv::record_at(s, i)->0;
        let (fields, to) = lemma_record_is_written(s, i);
        let (rest, rest_closed) = lemma_rows_are_written(s, end);
        let line_break = if to < s.len() && s[to] == '\r' {
            if to + 1 < s.len() && s[to + 1] == '\n' {
                LineBreak::CrLf
            } else {
                LineBreak::Cr
            }
        } else {
            LineBreak::Lf
        };
        let row = WrittenRow { fields, line_break };
        assert(row.fits());
        let written = seq![row] + rest;
        assert(written.skip(1) =~= rest);
        let closed = to < s.len() && rest_closed;
        if to == s.len() {
            assert(rest.len() == 0);
            assert(s.skip(i) =~= s.subrange(i, to));
        } else {
            assert(s.skip(i) =~= s.subrange(i, to) + line_break.chars() + s.skip(end));
        }
        assert(row.values() == values);
        assert forall|k: int| 0 <= k < written.len() implies (#[trigger] written[k]).fits() by {
            if k > 0 {
                assert(written[k] == rest[k - 1]);
            }
        }
        assert forall|k: int| 0 <= k < rows.len() implies (#[trigger] written[k]).values()
            == rows[k] by {
            if k > 0 {
                assert(written[k] == rest[k - 1]);
            }
        }
        (written, closed)
    }
}

/// A text is accepted exactly where it is some rows written down: each field
/// either in quotes, with its own double quotes doubled, or as it is and then
/// without a double quote, comma or line break in it. The rows are those it is the
/// writing of.
pub proof fn law_accepted_texts_are_written_rows(s: Seq<char>, rows: Seq<Seq<Seq<char>>>)
    ensures
        csv::csv_rows(s) == Some(rows) <==> exists|written: Seq<WrittenRow>, closed: bool|
            #[trigger]
            is_writing(written, closed, rows, s),
{
    if csv::csv_rows(s) == Some(rows) {
        let (written, closed) = lemma_rows_are_written(s, 0);
        assert(s.skip(0) =~= s);
        assert(is_writing(written, closed, rows, s));
    }
    if exists|written: Seq<WrittenRow>, closed: bool| #[trigger]
        is_writing(written, closed, rows, s) {
        let (written, closed) = choose|written: Seq<WrittenRow>, closed: bool| #[trigger]
            is_writing(written, closed, rows, s);
        law_written_rows_read_back(written, closed);
        assert(written.map_values(|r: WrittenRow| r.values()) =~= rows);
    }
}

/// A double quote in a field that does not start with one makes a text malformed,
/// whatever comes behind it.
pub proof fn law_no_quote_in_a_plain_field(field: Seq<char>, rest: Seq<char>)
    requires
        field.len() > 0,
        forall|k: int|
            0 <= k < field.len() ==> {
                let c = #[trigger] field[k];
                c != '"' && c != ',' && c != '\r' && c != '\n'
            },
    ensures
        csv::csv_rows(field + seq!['"'] + rest) is None,
{
    let s = field + seq!['"'] + rest;
    let end = field.len() as int;
    assert forall|k: int| 0 <= k < end implies csv::is_plain(#[trigger] s[k]) by {
        assert(s[k] == field[k]);
    }
    assert(s[end] == '"');
    assert(s[0] == field[0]);
    lemma_plain_run(s, 0, end);
}

/// A quoted field ends at its closing quote: behind that comes a comma, a line
/// break or the end of the text, or the text is malformed.
pub proof fn law_nothing_behind_a_closing_quote(value: Seq<char>, c: char, rest: Seq<char>)
    requires
        c != '"' && c != ',' && c != '\r' && c != '\n',
    ensures
        csv::csv_rows(seq!['"'] + doubled_quotes(value) + seq!['"'] + seq![c] + rest) is None,
{
    let d = doubled_quotes(value);
    let s = seq!['"'] + d + seq!['"'] + seq![c] + rest;
    assert(s =~= seq!['"'] + ((d + seq!['"']) + (seq![c] + rest)));
    lemma_stands_whole(s, 1, d + seq!['"'], seq!['"'], seq![c] + rest);
    assert(s[1 + d.len() + 1int] == c);
    lemma_quoted_reads_back(s, 1, value);
    assert(s[0] == '"');
}

proof fn lemma_stands_whole(s: Seq<char>, i: int, t: Seq<char>, a: Seq<char>, b: Seq<char>)
    requires
        s == a + (t + b),
        i == a.len(),
    ensures
        stands_at(s, i, t),
{
    assert forall|k: int| 0 <= k < t.len() implies s[i + k] == #[trigger] t[k] by {}
}

/// A quoted field that is never closed makes a text malformed.
pub proof fn law_a_quoted_field_is_closed(value: Seq<char>)
    ensures
        csv::csv_rows(seq!['"'] + doubled_quotes(value)) is None,
{
    let s = seq!['"'] + doubled_quotes(value);
    assert(s[0] == '"');
    lemma_never_closed(s, 1, value);
}

proof fn lemma_never_closed(s: Seq<char>, i: int, value: Seq<char>)
    requires
        0 <= i,
        stands_at(s, i, doubled_quotes(value)),
        i + doubled_quotes(value).len() == s.len(),
    ensures
        csv::quoted_at(s, i) is None,
    decreases value.len(),
{
    if value.len() > 0 {
        let first = if value[0] == '"' {
            seq!['"', '"']
        } else {
            seq![value[0]]
        };
        lemma_stands_at_split(s, i, first, doubled_quotes(value.skip(1)));
        assert(s[i + 0] == first[0]);
        if value[0] == '"' {
            assert(s[i + 1] == first[1]);
        }
        lemma_never_closed(s, i + first.len(), value.skip(1));
    }
}

} // verus!
