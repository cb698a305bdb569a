//! CSV and TSV parsing and writing, on plain text.
//!
//! The parser works line by line: the first line names the columns, every
//! following non-blank line is a row, fields split on the delimiter
//! outside double quotes and lose one surrounding quote pair. Column
//! types are inferred from a sample of the rows. Reading and writing
//! files is the caller's business; this module only turns text into a
//! `DataSource` and back.

use vstd::prelude::*;
use crate::constants::MAX_CSV_ROWS;
use crate::text::{ascii_lower, chars_vec, check_float_literal, count_char,
    is_digit, is_float_literal, string_from_chars, subrange_vec, to_lower_vec};
use crate::types::{cell_text, DataCell, DataColumn, DataOrigin, DataRow, DataSource, DataType, parses_to};

verus! {

/// Errors of the data pipeline.
#[derive(Debug)]
pub enum DataError {
    /// The file is larger than the eager parser accepts.
    TooLarge { size_mb: u64, max_mb: usize },
    /// The text holds more rows than the eager parser accepts.
    TooManyRows { rows: usize, max_rows: usize },
    /// The text is empty.
    EmptyFile,
    /// No columns were found.
    NoColumns,
    /// The data is malformed.
    InvalidData(String),
}

/// An ASCII space character, as trimming sees it.
pub open spec fn is_space(c: char) -> bool {
    c == ' ' || c == '\t' || c == '\r' || c == '\n'
}

/// `s` without leading and trailing ASCII whitespace.
pub open spec fn trim_spec(s: Seq<char>) -> Seq<char>
    decreases s.len(),
{
    if s.len() == 0 {
        s
    } else if is_space(s.first()) {
        trim_spec(s.drop_first())
    } else if is_space(s.last()) {
        trim_spec(s.drop_last())
    } else {
        s
    }
}

/// Trim ASCII whitespace from both ends.
pub fn trim_chars(v: &Vec<char>) -> (r: Vec<char>)
    ensures
        r@ == trim_spec(v@),
{
    let mut a: usize = 0;
    let mut b: usize = v.len();
    proof {
        assert(v@.subrange(0, v@.len() as int) =~= v@);
    }
    while a < b && (v[a] == ' ' || v[a] == '\t' || v[a] == '\r' || v[a] == '\n')
        invariant
            0 <= a <= b <= v@.len(),
            trim_spec(v@) == trim_spec(v@.subrange(a as int, b as int)),
        decreases b - a,
    {
        proof {
            let seg = v@.subrange(a as int, b as int);
            assert(seg.drop_first() =~= v@.subrange(a + 1, b as int));
        }
        a = a + 1;
    }
    while a < b && (v[b - 1] == ' ' || v[b - 1] == '\t' || v[b - 1] == '\r' || v[b - 1] == '\n')
        invariant
            0 <= a <= b <= v@.len(),
            trim_spec(v@) == trim_spec(v@.subrange(a as int, b as int)),
            a < b ==> !is_space(v@[a as int]),
        decreases b - a,
    {
        proof {
            let seg = v@.subrange(a as int, b as int);
            assert(seg.drop_last() =~= v@.subrange(a as int, b - 1));
        }
        b = b - 1;
    }
    proof {
        let seg = v@.subrange(a as int, b as int);
        if seg.len() > 0 {
            assert(!is_space(seg.first()));
            assert(!is_space(seg.last()));
        }
        assert(trim_spec(seg) == seg);
    }
    subrange_vec(v, a, b)
}

/// One surrounding quote pair is removed from a trimmed field.
pub open spec fn unquote_spec(s: Seq<char>) -> Seq<char> {
    let t = trim_spec(s);
    if t.len() >= 2 && t.first() == '"' && t.last() == '"' {
        t.subrange(1, t.len() - 1)
    } else {
        t
    }
}

/// Trim a field and strip one surrounding quote pair.
pub fn unquote(v: &Vec<char>) -> (r: Vec<char>)
    ensures
        r@ == unquote_spec(v@),
{
    let t = trim_chars(v);
    if t.len() >= 2 {
        let first_q = t[0] == '"';
        let last_q = t[t.len() - 1] == '"';
        if first_q && last_q {
            return subrange_vec(&t, 1, t.len() - 1);
        }
    }
    t
}

/// The fields of one line: split on the delimiter wherever the quotes
/// seen so far balance, each field trimmed and unquoted.
pub open spec fn split_rec(s: Seq<char>, delim: char, i: int, start: int, inq: bool) -> Seq<Seq<char>>
    decreases s.len() - i,
{
    if i < 0 || i >= s.len() {
        seq![unquote_spec(s.subrange(start, s.len() as int))]
    } else if s[i] == '"' {
        split_rec(s, delim, i + 1, start, !inq)
    } else if s[i] == delim && !inq {
        seq![unquote_spec(s.subrange(start, i))] + split_rec(s, delim, i + 1, i + 1, inq)
    } else {
        split_rec(s, delim, i + 1, start, inq)
    }
}

pub open spec fn split_fields(s: Seq<char>, delim: char) -> Seq<Seq<char>> {
    split_rec(s, delim, 0, 0, false)
}

/// The views of a list of character vectors.
pub open spec fn vec_views(v: Seq<Vec<char>>) -> Seq<Seq<char>> {
    v.map_values(|x: Vec<char>| x@)
}

/// Split one line into its fields, respecting quoted fields.
#[verifier::loop_isolation(false)]
pub fn split_csv_line(line: &Vec<char>, delim: char) -> (r: Vec<Vec<char>>)
    ensures
        vec_views(r@) == split_fields(line@, delim),
        r@.len() >= 1,
{
    let mut fields: Vec<Vec<char>> = Vec::new();
    let mut start: usize = 0;
    let mut inq: bool = false;
    let mut i: usize = 0;
    while i < line.len()
        invariant
            0 <= start <= i <= line@.len(),
            vec_views(fields@) + split_rec(line@, delim, i as int, start as int, inq)
                == split_fields(line@, delim),
        decreases line@.len() - i,
    {
        let c = line[i];
        if c == '"' {
            inq = !inq;
        } else if c == delim && !inq {
            let f = subrange_vec(line, start, i);
            let uf = unquote(&f);
            proof {
                assert(vec_views(fields@.push(uf)) =~= vec_views(fields@).push(uf@));
                assert(vec_views(fields@).push(uf@) + split_rec(line@, delim, i + 1, i + 1, inq)
                    =~= vec_views(fields@) + (seq![unquote_spec(line@.subrange(start as int, i as int))]
                        + split_rec(line@, delim, i + 1, i + 1, inq)));
            }
            fields.push(uf);
            start = i + 1;
        }
        i = i + 1;
    }
    let f = subrange_vec(line, start, line.len());
    let uf = unquote(&f);
    proof {
        assert(vec_views(fields@.push(uf)) =~= vec_views(fields@).push(uf@));
        assert(vec_views(fields@).push(uf@)
            =~= vec_views(fields@) + seq![unquote_spec(line@.subrange(start as int, line@.len() as int))]);
    }
    fields.push(uf);
    fields
}

/// What `looks_like_number` accepts: after trimming, at least one digit,
/// at most one currency or percent symbol, at most one comma, and — with
/// those symbols removed — the shape of a finite decimal literal.
pub open spec fn looks_like_number_spec(s: Seq<char>) -> bool {
    let t = trim_spec(s);
    &&& t.len() > 0
    &&& (exists|i: int| 0 <= i < t.len() && is_digit(#[trigger] t[i]))
    &&& count_char(t, '$') + count_char(t, '%') + count_char(t, '\u{20ac}') + count_char(t, '\u{a3}') <= 1
    &&& count_char(t, ',') <= 1
    &&& is_float_literal(strip_number_symbols(t))
}

/// A numeric string with its currency, percent, and separator characters
/// removed.
pub open spec fn strip_number_symbols(s: Seq<char>) -> Seq<char> {
    s.filter(|c: char| !(c == '$' || c == '%' || c == '\u{20ac}' || c == '\u{a3}' || c == ','))
}

/// Whether a string reads as a number, tolerating one currency or percent
/// symbol and one thousands separator.
pub fn looks_like_number(s: &str) -> (r: bool)
    ensures
        r == looks_like_number_spec(s@),
{
    let chars = chars_vec(s);
    let t = trim_chars(&chars);
    if t.len() == 0 {
        return false;
    }
    let mut has_digit: bool = false;
    let mut symbols: usize = 0;
    let mut commas: usize = 0;
    let mut cleaned: Vec<char> = Vec::new();
    let mut i: usize = 0;
    while i < t.len()
        invariant
            0 <= i <= t@.len(),
            has_digit == (exists|j: int| 0 <= j < i && is_digit(#[trigger] t@[j])),
            symbols == count_char(t@.take(i as int), '$') + count_char(t@.take(i as int), '%')
                + count_char(t@.take(i as int), '\u{20ac}') + count_char(t@.take(i as int), '\u{a3}'),
            commas == count_char(t@.take(i as int), ','),
            symbols <= i && commas <= i,
            cleaned@ == strip_number_symbols(t@.take(i as int)),
        decreases t@.len() - i,
    {
        let c = t[i];
        proof {
            reveal_with_fuel(Seq::<char>::filter, 2);
            assert(t@.take(i + 1).drop_last() =~= t@.take(i as int));
            assert(t@.take(i + 1).last() == t@[i as int]);
        }
        if c >= '0' && c <= '9' {
            has_digit = true;
        }
        if c == '$' || c == '%' || c == '\u{20ac}' || c == '\u{a3}' {
            symbols = symbols + 1;
        } else if c == ',' {
            commas = commas + 1;
        } else {
            cleaned.push(c);
        }
        i = i + 1;
    }
    proof {
        assert(t@.take(t@.len() as int) =~= t@);
    }
    if !has_digit {
        return false;
    }
    if symbols > 1 {
        return false;
    }
    if commas > 1 {
        return false;
    }
    check_float_literal(&cleaned)
}

/// A field is quoted on writing when it holds the delimiter, a quote, or
/// a line break; inner quotes are doubled.
pub open spec fn needs_quoting(s: Seq<char>, delim: char) -> bool {
    s.contains(delim) || s.contains('"') || s.contains('\n') || s.contains('\r')
}

/// `s` with every double quote doubled.
pub open spec fn escape_quotes(s: Seq<char>) -> Seq<char>
    decreases s.len(),
{
    if s.len() == 0 {
        Seq::empty()
    } else if s.last() == '"' {
        escape_quotes(s.drop_last()) + seq!['"', '"']
    } else {
        escape_quotes(s.drop_last()).push(s.last())
    }
}

/// What `quote_csv_field` yields: quoted and escaped when needed, the
/// field itself otherwise.
pub open spec fn quoted_field(s: Seq<char>, delim: char) -> Seq<char> {
    if needs_quoting(s, delim) {
        seq!['"'] + escape_quotes(s) + seq!['"']
    } else {
        s
    }
}

/// Quote a field for writing when it holds the delimiter, a quote, or a
/// line break, doubling inner quotes.
pub fn quote_csv_field(value: &str, delim: char) -> (r: String)
    ensures
        r@ == quoted_field(value@, delim),
{
    let chars = chars_vec(value);
    let mut needs: bool = false;
    let mut i: usize = 0;
    while i < chars.len()
        invariant
            0 <= i <= chars@.len(),
            needs == (exists|j: int| 0 <= j < i
                && (chars@[j] == delim || chars@[j] == '"' || chars@[j] == '\n' || chars@[j] == '\r')),
        decreases chars@.len() - i,
    {
        let c = chars[i];
        if c == delim || c == '"' || c == '\n' || c == '\r' {
            needs = true;
        }
        i = i + 1;
    }
    proof {
        if needs {
            let w = choose|j: int| 0 <= j < chars@.len()
                && (chars@[j] == delim || chars@[j] == '"' || chars@[j] == '\n' || chars@[j] == '\r');
            if chars@[w] == delim {
                assert(chars@.contains(delim));
            } else if chars@[w] == '"' {
                assert(chars@.contains('"'));
            } else if chars@[w] == '\n' {
                assert(chars@.contains('\n'));
            } else {
                assert(chars@.contains('\r'));
            }
        }
        if !needs {
            if chars@.contains(delim) {
                let w = choose|j: int| 0 <= j < chars@.len() && chars@[j] == delim;
            }
            if chars@.contains('"') {
                let w = choose|j: int| 0 <= j < chars@.len() && chars@[j] == '"';
            }
            if chars@.contains('\n') {
                let w = choose|j: int| 0 <= j < chars@.len() && chars@[j] == '\n';
            }
            if chars@.contains('\r') {
                let w = choose|j: int| 0 <= j < chars@.len() && chars@[j] == '\r';
            }
        }
        assert(needs == needs_quoting(chars@, delim));
    }
    if !needs {
        return value.to_owned();
    }
    let mut out: Vec<char> = Vec::new();
    out.push('"');
    let mut k: usize = 0;
    while k < chars.len()
        invariant
            0 <= k <= chars@.len(),
            out@ == seq!['"'] + escape_quotes(chars@.take(k as int)),
        decreases chars@.len() - k,
    {
        let c = chars[k];
        proof {
            assert(chars@.take(k + 1).drop_last() =~= chars@.take(k as int));
            if chars@[k as int] == '"' {
                assert(seq!['"'] + (escape_quotes(chars@.take(k as int)) + seq!['"', '"'])
                    =~= (seq!['"'] + escape_quotes(chars@.take(k as int))).push('"').push('"'));
            } else {
                assert(seq!['"'] + escape_quotes(chars@.take(k as int)).push(chars@[k as int])
                    =~= (seq!['"'] + escape_quotes(chars@.take(k as int))).push(chars@[k as int]));
            }
        }
        if c == '"' {
            out.push('"');
            out.push('"');
        } else {
            out.push(c);
        }
        k = k + 1;
    }
    proof {
        assert(chars@.take(chars@.len() as int) =~= chars@);
        assert(out@.push('"') =~= seq!['"'] + escape_quotes(chars@) + seq!['"']);
    }
    out.push('"');
    string_from_chars(&out)
}

/// A line with a trailing carriage return removed.
pub open spec fn strip_cr(l: Seq<char>) -> Seq<char> {
    if l.len() > 0 && l.last() == '\r' {
        l.drop_last()
    } else {
        l
    }
}

/// Text split at line feeds, each piece without its trailing carriage
/// return.
pub open spec fn split_lines_rec(s: Seq<char>, i: int, start: int) -> Seq<Seq<char>>
    decreases s.len() - i,
{
    if i < 0 || i >= s.len() {
        seq![strip_cr(s.subrange(start, s.len() as int))]
    } else if s[i] == '\n' {
        seq![strip_cr(s.subrange(start, i))] + split_lines_rec(s, i + 1, i + 1)
    } else {
        split_lines_rec(s, i + 1, start)
    }
}

/// The lines of a text: empty text has none, and a trailing line feed
/// does not open a final empty line.
pub open spec fn lines_spec(s: Seq<char>) -> Seq<Seq<char>> {
    if s.len() == 0 {
        Seq::empty()
    } else if s.last() == '\n' {
        split_lines_rec(s, 0, 0).drop_last()
    } else {
        split_lines_rec(s, 0, 0)
    }
}

/// Split text into lines.
#[verifier::loop_isolation(false)]
pub fn split_text_lines(text: &Vec<char>) -> (r: Vec<Vec<char>>)
    ensures
        vec_views(r@) == lines_spec(text@),
{
    if text.len() == 0 {
        proof {
            assert(vec_views(Seq::<Vec<char>>::empty()) =~= Seq::<Seq<char>>::empty());
        }
        return Vec::new();
    }
    let mut out: Vec<Vec<char>> = Vec::new();
    let mut start: usize = 0;
    let mut i: usize = 0;
    while i < text.len()
        invariant
            0 <= start <= i <= text@.len(),
            forall|j: int| start <= j < i ==> text@[j] != '\n',
            vec_views(out@) + split_lines_rec(text@, i as int, start as int)
                == split_lines_rec(text@, 0, 0),
        decreases text@.len() - i,
    {
        if text[i] == '\n' {
            let piece = subrange_vec(text, start, i);
            let stripped = strip_cr_exec(piece);
            proof {
                assert(vec_views(out@.push(stripped)) =~= vec_views(out@).push(stripped@));
                assert(vec_views(out@).push(stripped@) + split_lines_rec(text@, i + 1, i + 1)
                    =~= vec_views(out@) + (seq![strip_cr(text@.subrange(start as int, i as int))]
                        + split_lines_rec(text@, i + 1, i + 1)));
            }
            out.push(stripped);
            start = i + 1;
        }
        i = i + 1;
    }
    if text[text.len() - 1] == '\n' {
        proof {
            assert(start == text@.len());
            assert(text@.subrange(start as int, text@.len() as int) =~= Seq::<char>::empty());
            assert(split_lines_rec(text@, text@.len() as int, start as int)
                == seq![strip_cr(Seq::<char>::empty())]);
            assert(strip_cr(Seq::<char>::empty()) =~= Seq::<char>::empty());
            assert(vec_views(out@) =~= split_lines_rec(text@, 0, 0).drop_last());
        }
        out
    } else {
        let piece = subrange_vec(text, start, text.len());
        let stripped = strip_cr_exec(piece);
        proof {
            assert(vec_views(out@.push(stripped)) =~= vec_views(out@).push(stripped@));
            assert(vec_views(out@).push(stripped@)
                =~= vec_views(out@) + seq![strip_cr(text@.subrange(start as int, text@.len() as int))]);
        }
        out.push(stripped);
        out
    }
}

/// Drop a trailing carriage return.
fn strip_cr_exec(l: Vec<char>) -> (r: Vec<char>)
    ensures
        r@ == strip_cr(l@),
{
    let mut l = l;
    if l.len() > 0 && l[l.len() - 1] == '\r' {
        let _ = l.pop();
    }
    l
}

/// The words a boolean cell sample may hold, lowercased and trimmed.
pub open spec fn is_bool_word(t: Seq<char>) -> bool {
    t == "true"@ || t == "false"@ || t == "yes"@ || t == "no"@
        || t == "1"@ || t == "0"@ || t == "y"@ || t == "n"@
}

/// The shallow date heuristic: dash- or slash-separated text of date
/// length.
pub open spec fn looks_like_date_spec(t: Seq<char>) -> bool {
    (t.contains('-') && 8 <= t.len() <= 10) || (t.contains('/') && 8 <= t.len() <= 10)
}

/// Whether a trimmed string looks like a common date: dash- or
/// slash-separated text of date length.
pub fn looks_like_date(s: &str) -> (r: bool)
    ensures
        r == looks_like_date_spec(trim_spec(s@)),
{
    let chars = chars_vec(s);
    let t = trim_chars(&chars);
    if t.len() < 8 || t.len() > 10 {
        proof {
            if trim_spec(s@).contains('-') || trim_spec(s@).contains('/') {
            }
        }
        return false;
    }
    let mut has_dash: bool = false;
    let mut has_slash: bool = false;
    let mut i: usize = 0;
    while i < t.len()
        invariant
            0 <= i <= t@.len(),
            has_dash == (exists|j: int| 0 <= j < i && t@[j] == '-'),
            has_slash == (exists|j: int| 0 <= j < i && t@[j] == '/'),
        decreases t@.len() - i,
    {
        if t[i] == '-' {
            has_dash = true;
        }
        if t[i] == '/' {
            has_slash = true;
        }
        i = i + 1;
    }
    proof {
        if has_dash {
            let w = choose|j: int| 0 <= j < t@.len() && t@[j] == '-';
        }
        if t@.contains('-') {
            let w = choose|j: int| 0 <= j < t@.len() && t@[j] == '-';
        }
        if has_slash {
            let w = choose|j: int| 0 <= j < t@.len() && t@[j] == '/';
        }
        if t@.contains('/') {
            let w = choose|j: int| 0 <= j < t@.len() && t@[j] == '/';
        }
    }
    has_dash || has_slash
}

/// The sampled values of one column: the raw fields of the first hundred
/// rows whose trimmed text is non-empty.
pub open spec fn sample_spec(rows: Seq<Seq<Seq<char>>>, col: int, limit: int) -> Seq<Seq<char>>
    decreases rows.len(),
{
    if rows.len() == 0 || limit <= 0 {
        Seq::empty()
    } else {
        let rest = sample_spec(rows.drop_first(), col, limit - 1);
        if 0 <= col < rows.first().len() && trim_spec(rows.first()[col]).len() > 0 {
            seq![rows.first()[col]] + rest
        } else {
            rest
        }
    }
}

/// The type inferred for a column from its sample: a number when every
/// sampled value reads as one, else a boolean when every value is a
/// boolean word, else a date when every value looks like one, else text;
/// an empty sample is text.
pub open spec fn infer_spec(rows: Seq<Seq<Seq<char>>>, col: int) -> DataType {
    let smp = sample_spec(rows, col, 100);
    if smp.len() == 0 {
        DataType::Text
    } else if forall|i: int| 0 <= i < smp.len() ==> looks_like_number_spec(#[trigger] smp[i]) {
        DataType::Number
    } else if forall|i: int| 0 <= i < smp.len() ==> is_bool_word(ascii_lower(trim_spec(#[trigger] smp[i]))) {
        DataType::Boolean
    } else if forall|i: int| 0 <= i < smp.len() ==> looks_like_date_spec(trim_spec(#[trigger] smp[i])) {
        DataType::Date
    } else {
        DataType::Text
    }
}

/// Views of a row list.
pub open spec fn rows_views(rows: Seq<Vec<Vec<char>>>) -> Seq<Seq<Seq<char>>> {
    rows.map_values(|r: Vec<Vec<char>>| vec_views(r@))
}

/// Infer a column's type by sampling up to one hundred rows.
#[verifier::loop_isolation(false)]
pub fn infer_column_type(rows: &Vec<Vec<Vec<char>>>, col_idx: usize) -> (r: DataType)
    ensures
        r == infer_spec(rows_views(rows@), col_idx as int),
{
    let mut sample: Vec<Vec<char>> = Vec::new();
    let mut k: usize = 0;
    let n: usize = if rows.len() < 100 { rows.len() } else { 100 };
    proof {
        assert(rows_views(rows@).subrange(0, rows@.len() as int) =~= rows_views(rows@));
        assert(vec_views(sample@) =~= Seq::<Seq<char>>::empty());
        assert(Seq::<Seq<char>>::empty() + sample_spec(rows_views(rows@), col_idx as int, 100)
            =~= sample_spec(rows_views(rows@), col_idx as int, 100));
    }
    while k < n
        invariant
            0 <= k <= n <= rows@.len(),
            n == (if rows@.len() < 100 { rows@.len() as int } else { 100int }),
            sample_spec(rows_views(rows@), col_idx as int, 100)
                == vec_views(sample@) + sample_spec(rows_views(rows@).subrange(k as int, rows@.len() as int), col_idx as int, 100 - k),
        decreases n - k,
    {
        let ghost pre = vec_views(sample@);
        let ghost seg = rows_views(rows@).subrange(k as int, rows@.len() as int);
        proof {
            assert(seg.first() == rows_views(rows@)[k as int]);
            assert(seg.drop_first() =~= rows_views(rows@).subrange(k + 1, rows@.len() as int));
        }
        if col_idx < rows[k].len() {
            let t = trim_chars(&rows[k][col_idx]);
            if t.len() > 0 {
                let f = subrange_vec(&rows[k][col_idx], 0, rows[k][col_idx].len());
                proof {
                    assert(f@ =~= rows_views(rows@)[k as int][col_idx as int]);
                    assert(vec_views(sample@.push(f)) =~= pre.push(f@));
                    assert(pre.push(f@) + sample_spec(seg.drop_first(), col_idx as int, 100 - k - 1)
                        =~= pre + (seq![seg.first()[col_idx as int]] + sample_spec(seg.drop_first(), col_idx as int, 100 - k - 1)));
                }
                sample.push(f);
            }
        }
        k = k + 1;
    }
    proof {
        if rows@.len() >= 100 {
            assert(sample_spec(rows_views(rows@).subrange(100, rows@.len() as int), col_idx as int, 0)
                =~= Seq::<Seq<char>>::empty());
        } else {
            assert(rows_views(rows@).subrange(rows@.len() as int, rows@.len() as int).len() == 0);
        }
        assert(vec_views(sample@) + Seq::<Seq<char>>::empty() =~= vec_views(sample@));
        assert(vec_views(sample@) == sample_spec(rows_views(rows@), col_idx as int, 100));
    }
    if sample.len() == 0 {
        return DataType::Text;
    }
    let mut all_num: bool = true;
    let mut all_bool: bool = true;
    let mut all_date: bool = true;
    let mut i: usize = 0;
    while i < sample.len()
        invariant
            0 <= i <= sample@.len(),
            all_num == (forall|j: int| 0 <= j < i ==> looks_like_number_spec(#[trigger] vec_views(sample@)[j])),
            all_bool == (forall|j: int| 0 <= j < i ==> is_bool_word(ascii_lower(trim_spec(#[trigger] vec_views(sample@)[j])))),
            all_date == (forall|j: int| 0 <= j < i ==> looks_like_date_spec(trim_spec(#[trigger] vec_views(sample@)[j]))),
        decreases sample@.len() - i,
    {
        let s = string_from_chars(&sample[i]);
        if !looks_like_number(s.as_str()) {
            all_num = false;
        }
        let t = trim_chars(&sample[i]);
        let lt = to_lower_vec(&t);
        let is_b = chars_eq_any_bool(&lt);
        if !is_b {
            all_bool = false;
        }
        if !looks_like_date(s.as_str()) {
            all_date = false;
        }
        proof {
            assert(vec_views(sample@)[i as int] == sample@[i as int]@);
        }
        i = i + 1;
    }
    if all_num {
        DataType::Number
    } else if all_bool {
        DataType::Boolean
    } else if all_date {
        DataType::Date
    } else {
        DataType::Text
    }
}

/// Whether lowered trimmed text is one of the boolean words.
fn chars_eq_any_bool(lt: &Vec<char>) -> (r: bool)
    ensures
        r == is_bool_word(lt@),
{
    crate::text::chars_eq(lt, &chars_vec("true"))
        || crate::text::chars_eq(lt, &chars_vec("false"))
        || crate::text::chars_eq(lt, &chars_vec("yes"))
        || crate::text::chars_eq(lt, &chars_vec("no"))
        || crate::text::chars_eq(lt, &chars_vec("1"))
        || crate::text::chars_eq(lt, &chars_vec("0"))
        || crate::text::chars_eq(lt, &chars_vec("y"))
        || crate::text::chars_eq(lt, &chars_vec("n"))
}

/// The data rows a parse sees: every line after the header whose trimmed
/// text is non-empty, split into fields.
pub open spec fn data_rows_spec(ls: Seq<Seq<char>>, delim: char) -> Seq<Seq<Seq<char>>>
    decreases ls.len(),
{
    if ls.len() == 0 {
        Seq::empty()
    } else {
        let rest = data_rows_spec(ls.drop_first(), delim);
        if trim_spec(ls.first()).len() == 0 {
            rest
        } else {
            seq![split_fields(ls.first(), delim)] + rest
        }
    }
}

/// Parse CSV or TSV text into a data source. Returns `EmptyFile` exactly
/// when the text is empty, `TooManyRows` exactly when more than the
/// accepted number of non-blank data lines follow the header, and
/// otherwise a source whose columns carry the trimmed header names and
/// the types inferred from the data, and whose cells are the parsed,
/// trimmed fields of each non-blank line.
#[verifier::loop_isolation(false)]
pub fn parse_csv_content(content: &str, delimiter: char, source_path: Option<&str>) -> (r: Result<DataSource, DataError>)
    ensures
        ({
            let ls = lines_spec(content@);
            let raw = data_rows_spec(ls.skip(1), delimiter);
            match r {
                Err(DataError::EmptyFile) => content@.len() == 0,
                Err(DataError::TooManyRows { rows, max_rows }) => content@.len() > 0
                    && raw.len() > MAX_CSV_ROWS && rows == MAX_CSV_ROWS + 1 && max_rows == MAX_CSV_ROWS,
                Err(_) => false,
                Ok(ds) => {
                    let headers = split_fields(ls[0], delimiter);
                    &&& content@.len() > 0
                    &&& raw.len() <= MAX_CSV_ROWS
                    &&& ds.columns@.len() == headers.len()
                    &&& (forall|i: int| 0 <= i < headers.len() ==> {
                        &&& (#[trigger] ds.columns@[i]).name@ == trim_spec(headers[i])
                        &&& ds.columns@[i].data_type == infer_spec(raw, i)
                        &&& (ds.columns@[i].width is None)
                    })
                    &&& ds.rows@.len() == raw.len()
                    &&& (forall|j: int, i: int| 0 <= j < raw.len() && 0 <= i < raw[j].len()
                        ==> parses_to(trim_spec(raw[j][i]),
                                if i < headers.len() { infer_spec(raw, i) } else { DataType::Text },
                                #[trigger] ds.rows@[j].cells@[i]))
                    &&& (forall|j: int| 0 <= j < raw.len() ==> (#[trigger] ds.rows@[j]).cells@.len() == raw[j].len())
                    &&& ds.name@ == (match source_path {
                        Some(p) => crate::text::file_stem_of(p@),
                        None => "Data"@,
                    })
                    &&& (ds.origin matches DataOrigin::File { path, delimiter: d }
                        && path@ == (match source_path { Some(p) => p@, None => Seq::<char>::empty() })
                        && d == delimiter)
                    &&& !ds.dirty
                    &&& ds.id == 0
                },
            }
        }),
{
    let chars = chars_vec(content);
    let lines = split_text_lines(&chars);
    if lines.len() == 0 {
        proof {
            if content@.len() > 0 {
                lemma_lines_nonempty(content@);
            }
        }
        return Err(DataError::EmptyFile);
    }
    let headers = split_csv_line(&lines[0], delimiter);
    let ghost ls = lines_spec(content@);
    // Collect the non-blank data lines, split into fields.
    let mut raw_rows: Vec<Vec<Vec<char>>> = Vec::new();
    let mut li: usize = 1;
    proof {
        assert(ls.skip(1).subrange(0, ls.len() - 1) =~= ls.skip(1));
        assert(rows_views(raw_rows@) + data_rows_spec(ls.skip(1), delimiter)
            =~= data_rows_spec(ls.skip(1), delimiter));
    }
    while li < lines.len()
        invariant
            1 <= li <= lines@.len(),
            vec_views(lines@) == ls,
            raw_rows@.len() <= MAX_CSV_ROWS,
            data_rows_spec(ls.skip(1), delimiter)
                == rows_views(raw_rows@) + data_rows_spec(ls.skip(li as int), delimiter),
        decreases lines@.len() - li,
    {
        let ghost seg = ls.skip(li as int);
        proof {
            assert(seg.first() == ls[li as int]);
            assert(seg.drop_first() =~= ls.skip(li + 1));
        }
        let t = trim_chars(&lines[li]);
        if t.len() > 0 {
            if raw_rows.len() >= MAX_CSV_ROWS {
                proof {
                    lemma_data_rows_len(ls.skip(li as int), delimiter);
                }
                return Err(DataError::TooManyRows { rows: MAX_CSV_ROWS + 1, max_rows: MAX_CSV_ROWS });
            }
            let fields = split_csv_line(&lines[li], delimiter);
            proof {
                assert(rows_views(raw_rows@.push(fields)) =~= rows_views(raw_rows@).push(vec_views(fields@)));
                assert(rows_views(raw_rows@).push(vec_views(fields@)) + data_rows_spec(ls.skip(li + 1), delimiter)
                    =~= rows_views(raw_rows@) + (seq![split_fields(ls[li as int], delimiter)]
                        + data_rows_spec(ls.skip(li + 1), delimiter)));
            }
            raw_rows.push(fields);
        }
        li = li + 1;
    }
    proof {
        assert(ls.skip(ls.len() as int).len() == 0);
        assert(data_rows_spec(ls.skip(ls.len() as int), delimiter) =~= Seq::<Seq<Seq<char>>>::empty());
        assert(rows_views(raw_rows@) + Seq::<Seq<Seq<char>>>::empty() =~= rows_views(raw_rows@));
        assert(rows_views(raw_rows@) == data_rows_spec(ls.skip(1), delimiter));
    }
    let ghost raw = rows_views(raw_rows@);
    // Column names and inferred types.
    let mut columns: Vec<DataColumn> = Vec::new();
    let mut types: Vec<DataType> = Vec::new();
    let mut ci: usize = 0;
    while ci < headers.len()
        invariant
            0 <= ci <= headers@.len(),
            vec_views(headers@) == split_fields(ls[0], delimiter),
            raw == rows_views(raw_rows@),
            columns@.len() == ci,
            types@.len() == ci,
            forall|i: int| 0 <= i < ci ==> {
                &&& (#[trigger] columns@[i]).name@ == trim_spec(vec_views(headers@)[i])
                &&& columns@[i].data_type == infer_spec(raw, i)
                &&& (columns@[i].width is None)
                &&& types@[i] == infer_spec(raw, i)
            },
        decreases headers@.len() - ci,
    {
        let t = infer_column_type(&raw_rows, ci);
        let name = trim_chars(&headers[ci]);
        let name_s = string_from_chars(&name);
        columns.push(DataColumn { name: name_s, data_type: t, width: None });
        types.push(t);
        ci = ci + 1;
    }
    proof {
        assert forall|i: int| 0 <= i < types@.len() implies types@[i] == infer_spec(raw, i) by {
            assert((#[trigger] columns@[i]).data_type == infer_spec(raw, i));
        }
    }
    // Parse the cells under the inferred types.
    let mut data_rows: Vec<DataRow> = Vec::new();
    let mut rj: usize = 0;
    while rj < raw_rows.len()
        invariant
            0 <= rj <= raw_rows@.len(),
            raw == rows_views(raw_rows@),
            types@.len() == split_fields(ls[0], delimiter).len(),
            forall|i: int| 0 <= i < types@.len() ==> types@[i] == infer_spec(raw, i),
            data_rows@.len() == rj,
            forall|j: int| 0 <= j < rj ==> (#[trigger] data_rows@[j]).cells@.len() == raw[j].len(),
            forall|j: int, i: int| 0 <= j < rj && 0 <= i < raw[j].len()
                ==> parses_to(trim_spec(raw[j][i]),
                    if i < types@.len() { types@[i] } else { DataType::Text },
                    (#[trigger] data_rows@[j].cells@[i])),
        decreases raw_rows@.len() - rj,
    {
        let mut cells: Vec<DataCell> = Vec::new();
        let mut fi: usize = 0;
        while fi < raw_rows[rj].len()
            invariant
                0 <= rj < raw_rows@.len(),
                0 <= fi <= raw_rows@[rj as int]@.len(),
                raw == rows_views(raw_rows@),
                types@.len() == split_fields(ls[0], delimiter).len(),
                forall|i: int| 0 <= i < types@.len() ==> types@[i] == infer_spec(raw, i),
                cells@.len() == fi,
                forall|i: int| 0 <= i < fi
                    ==> parses_to(trim_spec(raw[rj as int][i]),
                        if i < types@.len() { types@[i] } else { DataType::Text },
                        (#[trigger] cells@[i])),
            decreases raw_rows@[rj as int]@.len() - fi,
        {
            let t = trim_chars(&raw_rows[rj][fi]);
            let ts = string_from_chars(&t);
            let hint: DataType = if fi < types.len() { types[fi] } else { DataType::Text };
            let cell = DataCell::parse(ts.as_str(), &hint);
            proof {
                assert(raw[rj as int][fi as int] == raw_rows@[rj as int]@[fi as int]@);
            }
            cells.push(cell);
            fi = fi + 1;
        }
        data_rows.push(DataRow { cells });
        rj = rj + 1;
    }
    let name: String = match source_path {
        Some(p) => {
            let pc = chars_vec(p);
            let stem = crate::text::file_stem_chars(&pc);
            string_from_chars(&stem)
        },
        None => "Data".to_owned(),
    };
    let path: String = match source_path {
        Some(p) => p.to_owned(),
        None => String::new(),
    };
    Ok(DataSource {
        id: 0,
        name,
        columns,
        rows: data_rows,
        origin: DataOrigin::File { path, delimiter },
        dirty: false,
    })
}

/// Non-empty text has at least one line.
proof fn lemma_lines_nonempty(s: Seq<char>)
    requires
        s.len() > 0,
    ensures
        lines_spec(s).len() >= 1,
{
    if s.last() == '\n' {
        lemma_split_lines_two(s, 0);
    } else {
        lemma_split_lines_min(s, 0, 0);
    }
}

/// The split always yields at least one piece.
proof fn lemma_split_lines_min(s: Seq<char>, i: int, st: int)
    ensures
        split_lines_rec(s, i, st).len() >= 1,
    decreases s.len() - i,
{
    if !(i < 0 || i >= s.len()) {
        if s[i] == '\n' {
            lemma_split_lines_min(s, i + 1, i + 1);
        } else {
            lemma_split_lines_min(s, i + 1, st);
        }
    }
}

/// With a line feed at the end and the scan not yet past it, the split
/// yields at least two pieces.
proof fn lemma_split_lines_two(s: Seq<char>, i: int)
    requires
        s.len() > 0,
        s.last() == '\n',
        0 <= i <= s.len() - 1,
    ensures
        split_lines_rec(s, i, i).len() >= 2,
        forall|st: int| split_lines_rec(s, i, st).len() >= split_lines_rec(s, i, i).len(),
    decreases s.len() - i,
{
    assert forall|st: int| #[trigger] split_lines_rec(s, i, st).len() == split_lines_rec(s, i, i).len() by {
        lemma_split_lines_len_start(s, i, st, i);
    }
    if i == s.len() - 1 {
        assert(s[i] == '\n');
        lemma_split_lines_min(s, i + 1, i + 1);
        assert(split_lines_rec(s, i, i) == seq![strip_cr(s.subrange(i, i))] + split_lines_rec(s, i + 1, i + 1));
    } else {
        lemma_split_lines_two(s, i + 1);
        if s[i] == '\n' {
            assert(split_lines_rec(s, i, i) == seq![strip_cr(s.subrange(i, i))] + split_lines_rec(s, i + 1, i + 1));
        } else {
            assert(split_lines_rec(s, i, i) == split_lines_rec(s, i + 1, i));
            assert(split_lines_rec(s, i + 1, i).len() == split_lines_rec(s, i + 1, i + 1).len()) by {
                lemma_split_lines_len_start(s, i + 1, i, i + 1);
            }
        }
    }
}

/// The piece count of the split does not depend on the start marker.
proof fn lemma_split_lines_len_start(s: Seq<char>, i: int, st1: int, st2: int)
    ensures
        split_lines_rec(s, i, st1).len() == split_lines_rec(s, i, st2).len(),
    decreases s.len() - i,
{
    if !(i < 0 || i >= s.len()) {
        if s[i] == '\n' {
            lemma_split_lines_len_start(s, i + 1, i + 1, i + 1);
        } else {
            lemma_split_lines_len_start(s, i + 1, st1, st2);
        }
    }
}

/// A non-blank first element only grows the data-row count.
proof fn lemma_data_rows_len(ls: Seq<Seq<char>>, delim: char)
    ensures
        ls.len() > 0 && trim_spec(ls.first()).len() > 0
            ==> data_rows_spec(ls, delim).len() >= 1,
{
}

/// One line of CSV output: the fields quoted as needed and joined with
/// the delimiter.
pub open spec fn join_with(fields: Seq<Seq<char>>, sep: char) -> Seq<char>
    decreases fields.len(),
{
    if fields.len() == 0 {
        Seq::empty()
    } else if fields.len() == 1 {
        fields.first()
    } else {
        fields.first() + seq![sep] + join_with(fields.drop_first(), sep)
    }
}

/// The text a data source writes back: a header line of quoted column
/// names, then one line per row of quoted cell texts, joined by line
/// feeds.
pub open spec fn written_csv(ds: DataSource, delim: char) -> Seq<char> {
    let header = join_with(ds.columns@.map_values(|c: DataColumn| quoted_field(c.name@, delim)), delim);
    let body = ds.rows@.map_values(|r: DataRow| join_with(
        r.cells@.map_values(|c: DataCell| quoted_field(cell_text(c), delim)), delim));
    join_with(seq![header] + body, '\n')
}

/// Write a data source as CSV text with the given delimiter.
#[verifier::loop_isolation(false)]
pub fn write_csv_content(data_source: &DataSource, delimiter: char) -> (r: String)
    ensures
        r@ == written_csv(*data_source, delimiter),
{
    let mut line_texts: Vec<Vec<char>> = Vec::new();
    // Header line.
    let mut header: Vec<char> = Vec::new();
    let ghost hfields = data_source.columns@.map_values(|c: DataColumn| quoted_field(c.name@, delimiter));
    let mut ci: usize = 0;
    while ci < data_source.columns.len()
        invariant
            0 <= ci <= data_source.columns@.len(),
            hfields == data_source.columns@.map_values(|c: DataColumn| quoted_field(c.name@, delimiter)),
            header@ == join_with(hfields.take(ci as int), delimiter),
        decreases data_source.columns@.len() - ci,
    {
        let q = quote_csv_field(data_source.columns[ci].name.as_str(), delimiter);
        let qc = chars_vec(q.as_str());
        if ci > 0 {
            header.push(delimiter);
        }
        crate::text::append_chars(&mut header, &qc);
        proof {
            lemma_join_step(hfields, ci as int, delimiter);
        }
        ci = ci + 1;
    }
    proof {
        assert(hfields.take(hfields.len() as int) =~= hfields);
    }
    line_texts.push(header);
    // Row lines.
    let ghost body = data_source.rows@.map_values(|rr: DataRow| join_with(
        rr.cells@.map_values(|c: DataCell| quoted_field(cell_text(c), delimiter)), delimiter));
    let mut rj: usize = 0;
    while rj < data_source.rows.len()
        invariant
            0 <= rj <= data_source.rows@.len(),
            hfields == data_source.columns@.map_values(|c: DataColumn| quoted_field(c.name@, delimiter)),
            body == data_source.rows@.map_values(|rr: DataRow| join_with(
                rr.cells@.map_values(|c: DataCell| quoted_field(cell_text(c), delimiter)), delimiter)),
            line_texts@.len() == rj + 1,
            vec_views(line_texts@) == seq![join_with(hfields, delimiter)] + body.take(rj as int),
        decreases data_source.rows@.len() - rj,
    {
        let mut line: Vec<char> = Vec::new();
        let ghost cfields = data_source.rows@[rj as int].cells@.map_values(|c: DataCell| quoted_field(cell_text(c), delimiter));
        let mut fi: usize = 0;
        while fi < data_source.rows[rj].cells.len()
            invariant
                0 <= rj < data_source.rows@.len(),
                0 <= fi <= data_source.rows@[rj as int].cells@.len(),
                cfields == data_source.rows@[rj as int].cells@.map_values(|c: DataCell| quoted_field(cell_text(c), delimiter)),
                line@ == join_with(cfields.take(fi as int), delimiter),
            decreases data_source.rows@[rj as int].cells@.len() - fi,
        {
            let text = data_source.rows[rj].cells[fi].to_string();
            let q = quote_csv_field(text.as_str(), delimiter);
            let qc = chars_vec(q.as_str());
            if fi > 0 {
                line.push(delimiter);
            }
            crate::text::append_chars(&mut line, &qc);
            proof {
                lemma_join_step(cfields, fi as int, delimiter);
            }
            fi = fi + 1;
        }
        proof {
            assert(cfields.take(cfields.len() as int) =~= cfields);
            assert(vec_views(line_texts@.push(line)) =~= vec_views(line_texts@).push(line@));
            assert((seq![join_with(hfields, delimiter)] + body.take(rj as int)).push(body[rj as int])
                =~= seq![join_with(hfields, delimiter)] + body.take(rj + 1));
        }
        line_texts.push(line);
        rj = rj + 1;
    }
    proof {
        assert(body.take(body.len() as int) =~= body);
    }
    // Join all lines with line feeds.
    let mut out: Vec<char> = Vec::new();
    let ghost all = vec_views(line_texts@);
    let mut k: usize = 0;
    while k < line_texts.len()
        invariant
            0 <= k <= line_texts@.len(),
            all == vec_views(line_texts@),
            all.len() == line_texts@.len(),
            out@ == join_with(all.take(k as int), '\n'),
        decreases line_texts@.len() - k,
    {
        if k > 0 {
            out.push('\n');
        }
        crate::text::append_chars(&mut out, &line_texts[k]);
        proof {
            assert(all[k as int] == line_texts@[k as int]@);
            lemma_join_step(all, k as int, '\n');
        }
        k = k + 1;
    }
    proof {
        assert(all.take(all.len() as int) =~= all);
        assert(all =~= seq![join_with(hfields, delimiter)] + body);
    }
    string_from_chars(&out)
}

/// Extending a joined prefix by one field appends the separator (past the
/// first field) and the field.
proof fn lemma_join_step(fields: Seq<Seq<char>>, i: int, sep: char)
    requires
        0 <= i < fields.len(),
    ensures
        i == 0 ==> join_with(fields.take(1), sep) == fields[0],
        i > 0 ==> join_with(fields.take(i + 1), sep)
            == join_with(fields.take(i), sep) + seq![sep] + fields[i],
    decreases i,
{
    let tail = fields.drop_first();
    if i == 0 {
        assert(fields.take(1).len() == 1);
        assert(fields.take(1).first() == fields[0]);
    } else if i == 1 {
        assert(fields.take(2).first() == fields[0]);
        assert(fields.take(2).drop_first() =~= seq![fields[1]]);
        assert(join_with(seq![fields[1]], sep) == fields[1]);
        assert(join_with(fields.take(2), sep) == fields[0] + seq![sep] + fields[1]);
        assert(fields.take(1).len() == 1);
        assert(fields.take(1).first() == fields[0]);
        assert(join_with(fields.take(1), sep) == fields[0]);
    } else {
        lemma_join_step(tail, i - 1, sep);
        assert(tail[i - 1] == fields[i]);
        assert(fields.take(i + 1).first() == fields[0]);
        assert(fields.take(i + 1).drop_first() =~= tail.take(i));
        assert(join_with(fields.take(i + 1), sep) == fields[0] + seq![sep] + join_with(tail.take(i), sep));
        assert(fields.take(i).first() == fields[0]);
        assert(fields.take(i).drop_first() =~= tail.take(i - 1));
        assert(join_with(fields.take(i), sep) == fields[0] + seq![sep] + join_with(tail.take(i - 1), sep));
        assert(join_with(tail.take(i), sep) == join_with(tail.take(i - 1), sep) + seq![sep] + tail[i - 1]);
        assert(fields[0] + seq![sep] + (join_with(tail.take(i - 1), sep) + seq![sep] + tail[i - 1])
            =~= (fields[0] + seq![sep] + join_with(tail.take(i - 1), sep)) + seq![sep] + tail[i - 1]);
    }
}

/// Where the `n`-th line feed sits at or after `i`, or the text's end.
pub open spec fn nth_newline(s: Seq<char>, n: int, i: int) -> int
    decreases s.len() - i,
{
    if i < 0 || i >= s.len() || n <= 0 {
        s.len() as int
    } else if s[i] == '\n' {
        if n == 1 {
            i
        } else {
            nth_newline(s, n - 1, i + 1)
        }
    } else {
        nth_newline(s, n, i + 1)
    }
}

/// The delimiter `detect_delimiter` picks from the counts over the first
/// five lines: tabs win outright, then semicolons over commas, then the
/// comma.
pub open spec fn detected_delimiter(path: Option<Seq<char>>, content: Seq<char>) -> char {
    let is_tsv = match path {
        Some(p) => crate::text::extension_of(p) matches Some(x) && ascii_lower(x) == "tsv"@,
        None => false,
    };
    if is_tsv {
        '\t'
    } else {
        let head = content.take(nth_newline(content, 5, 0));
        let commas = count_char(head, ',');
        let tabs = count_char(head, '\t');
        let semis = count_char(head, ';');
        if tabs > commas && tabs > semis {
            '\t'
        } else if semis > commas {
            ';'
        } else {
            ','
        }
    }
}

/// Pick the delimiter for a file: tab for a `.tsv` extension, otherwise
/// whichever of tab, semicolon and comma dominates the first five lines.
#[verifier::loop_isolation(false)]
pub fn detect_delimiter(path: Option<&str>, content: &str) -> (r: char)
    ensures
        r == detected_delimiter(
            match path { Some(p) => Some(p@), None => None },
            content@),
{
    if let Some(p) = path {
        let pc = chars_vec(p);
        if let Some(e) = crate::text::extension_chars_lower(&pc) {
            if crate::text::chars_eq(&e, &chars_vec("tsv")) {
                return '\t';
            }
        }
    }
    let chars = chars_vec(content);
    // Find the end of the fifth line.
    let mut seen: usize = 0;
    let mut i: usize = 0;
    while i < chars.len() && !(seen == 4 && chars[i] == '\n')
        invariant
            0 <= i <= chars@.len(),
            0 <= seen <= 4,
            nth_newline(chars@, 5, 0) == nth_newline(chars@, 5 - seen, i as int),
        decreases chars@.len() - i,
    {
        if chars[i] == '\n' {
            seen = seen + 1;
        }
        i = i + 1;
    }
    proof {
        assert(nth_newline(chars@, 5, 0) == i);
    }
    let head = subrange_vec(&chars, 0, i);
    let commas = crate::text::count_char_exec(&head, ',');
    let tabs = crate::text::count_char_exec(&head, '\t');
    let semis = crate::text::count_char_exec(&head, ';');
    if tabs > commas && tabs > semis {
        '\t'
    } else if semis > commas {
        ';'
    } else {
        ','
    }
}

/// Whether a path names a data file the pipeline reads: CSV, TSV or JSON.
pub fn is_data_file(path: &str) -> (r: bool)
    ensures
        r == ({
            match crate::text::extension_of(path@) {
                Some(x) => {
                    let e = ascii_lower(x);
                    e == "csv"@ || e == "tsv"@ || e == "json"@
                },
                None => false,
            }
        }),
{
    let chars = chars_vec(path);
    match crate::text::extension_chars_lower(&chars) {
        Some(e) => {
            let c1 = chars_vec("csv");
            let c2 = chars_vec("tsv");
            let c3 = chars_vec("json");
            crate::text::chars_eq(&e, &c1) || crate::text::chars_eq(&e, &c2) || crate::text::chars_eq(&e, &c3)
        },
        None => false,
    }
}

} // verus!
