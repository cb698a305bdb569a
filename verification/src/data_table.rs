//! Table pagination state and row-count display formatting.

use vstd::prelude::*;
use crate::text::{dec_digits, string_from_chars, u64_to_dec, append_chars};

verus! {

/// Pagination and display state of one data table.
#[derive(Clone, Debug)]
pub struct DataTableState {
    /// Whether the table is collapsed to its header.
    pub collapsed: bool,
    /// Current page, counted from zero.
    pub current_page: usize,
    /// Rows per page.
    pub page_size: usize,
    /// Total number of rows.
    pub total_rows: usize,
    /// Whether the page-size dropdown is open.
    pub page_size_dropdown_open: bool,
    /// The row index under the pointer, if any.
    pub hovered_row: Option<usize>,
}

/// How many pages a table spans: at least one, rounding up.
pub open spec fn total_pages_spec(total_rows: int, page_size: int) -> int {
    if total_rows == 0 {
        1
    } else {
        (total_rows + page_size - 1) / page_size
    }
}

impl DataTableState {
    /// The page size is positive and the cursor within the page count.
    pub open spec fn wf(&self) -> bool {
        &&& 1 <= self.page_size <= 1000
        &&& self.total_rows <= 100_000_000
        &&& self.current_page < total_pages_spec(self.total_rows as int, self.page_size as int)
    }

    /// A fresh table over `total_rows` rows: first page, twenty-five rows
    /// a page, expanded.
    pub fn new(total_rows: usize) -> (r: DataTableState)
        requires
            total_rows <= 100_000_000,
        ensures
            r.wf(),
            !r.collapsed,
            r.current_page == 0,
            r.page_size == 25,
            r.total_rows == total_rows,
            !r.page_size_dropdown_open,
            (r.hovered_row is None),
    {
        proof {
            lemma_total_pages_pos(total_rows as int, 25);
        }
        DataTableState {
            collapsed: false,
            current_page: 0,
            page_size: 25,
            total_rows,
            page_size_dropdown_open: false,
            hovered_row: None,
        }
    }

    /// How many pages the table spans.
    pub fn total_pages(&self) -> (r: usize)
        requires
            self.wf(),
        ensures
            r == total_pages_spec(self.total_rows as int, self.page_size as int),
            r >= 1,
    {
        proof {
            lemma_total_pages_pos(self.total_rows as int, self.page_size as int);
        }
        if self.total_rows == 0 {
            1
        } else {
            (self.total_rows + self.page_size - 1) / self.page_size
        }
    }

    /// Whether an earlier page exists.
    pub fn can_go_prev(&self) -> (r: bool)
        ensures
            r == (self.current_page > 0),
    {
        self.current_page > 0
    }

    /// Whether a later page exists.
    pub fn can_go_next(&self) -> (r: bool)
        requires
            self.wf(),
        ensures
            r == (self.current_page + 1 < total_pages_spec(self.total_rows as int, self.page_size as int)),
    {
        self.current_page + 1 < self.total_pages()
    }

    /// Jump to the first page.
    pub fn go_first(&mut self)
        ensures
            *final(self) == (DataTableState { current_page: 0, ..*old(self) }),
    {
        self.current_page = 0;
    }

    /// Step one page back; on the first page, stay.
    pub fn go_prev(&mut self)
        ensures
            final(self).current_page == if old(self).current_page > 0 {
                old(self).current_page - 1
            } else {
                0int
            },
            *final(self) == (DataTableState { current_page: final(self).current_page, ..*old(self) }),
    {
        if self.can_go_prev() {
            self.current_page = self.current_page - 1;
        }
    }

    /// Step one page forward; on the last page, stay.
    pub fn go_next(&mut self)
        requires
            old(self).wf(),
        ensures
            final(self).wf(),
            final(self).current_page == if old(self).current_page + 1
                < total_pages_spec(old(self).total_rows as int, old(self).page_size as int) {
                old(self).current_page + 1
            } else {
                old(self).current_page as int
            },
            *final(self) == (DataTableState { current_page: final(self).current_page, ..*old(self) }),
    {
        if self.can_go_next() {
            self.current_page = self.current_page + 1;
        }
    }

    /// Jump to the last page.
    pub fn go_last(&mut self)
        requires
            old(self).wf(),
        ensures
            final(self).wf(),
            final(self).current_page
                == total_pages_spec(old(self).total_rows as int, old(self).page_size as int) - 1,
            *final(self) == (DataTableState { current_page: final(self).current_page, ..*old(self) }),
    {
        let pages = self.total_pages();
        self.current_page = pages - 1;
    }

    /// Change the page size and return to the first page.
    pub fn set_page_size(&mut self, size: usize)
        requires
            1 <= size <= 1000,
            old(self).total_rows <= 100_000_000,
        ensures
            final(self).wf(),
            *final(self) == (DataTableState { page_size: size, current_page: 0, ..*old(self) }),
    {
        proof {
            lemma_total_pages_pos(self.total_rows as int, size as int);
        }
        self.page_size = size;
        self.current_page = 0;
    }

    /// Collapse or expand the table.
    pub fn toggle_collapsed(&mut self)
        ensures
            *final(self) == (DataTableState { collapsed: !old(self).collapsed, ..*old(self) }),
    {
        self.collapsed = !self.collapsed;
    }

    /// Open or close the page-size dropdown.
    pub fn toggle_page_size_dropdown(&mut self)
        ensures
            *final(self) == (DataTableState {
                page_size_dropdown_open: !old(self).page_size_dropdown_open,
                ..*old(self)
            }),
    {
        self.page_size_dropdown_open = !self.page_size_dropdown_open;
    }

    /// Close the page-size dropdown.
    pub fn close_page_size_dropdown(&mut self)
        ensures
            *final(self) == (DataTableState { page_size_dropdown_open: false, ..*old(self) }),
    {
        self.page_size_dropdown_open = false;
    }

    /// Track the row under the pointer.
    pub fn set_hovered_row(&mut self, row: Option<usize>)
        ensures
            *final(self) == (DataTableState { hovered_row: row, ..*old(self) }),
    {
        self.hovered_row = row;
    }

    /// The rows shown on the current page: from the page's first row up
    /// to the page's end or the table's, whichever comes first.
    pub fn visible_range(&self) -> (r: core::ops::Range<usize>)
        requires
            self.wf(),
        ensures
            r.start == self.current_page * self.page_size,
            r.end == if self.current_page * self.page_size + self.page_size <= self.total_rows {
                self.current_page * self.page_size + self.page_size
            } else {
                self.total_rows as int
            },
    {
        proof {
            lemma_page_start_bound(self.total_rows as int, self.page_size as int, self.current_page as int);
        }
        let start = self.current_page * self.page_size;
        let unclamped = start + self.page_size;
        let end = if unclamped <= self.total_rows { unclamped } else { self.total_rows };
        start..end
    }
}

/// A table always has at least one page.
proof fn lemma_total_pages_pos(total_rows: int, page_size: int)
    requires
        total_rows >= 0,
        page_size >= 1,
    ensures
        total_pages_spec(total_rows, page_size) >= 1,
        total_rows > 0 ==> total_pages_spec(total_rows, page_size) * page_size >= total_rows,
{
    if total_rows > 0 {
        let n = total_rows + page_size - 1;
        vstd::arithmetic::div_mod::lemma_fundamental_div_mod(n, page_size);
        vstd::arithmetic::div_mod::lemma_mod_bound(n, page_size);
        assert(total_pages_spec(total_rows, page_size) >= 1) by (nonlinear_arith)
            requires
                n == page_size * (n / page_size) + n % page_size,
                0 <= n % page_size < page_size,
                n >= page_size,
                total_pages_spec(total_rows, page_size) == n / page_size;
        assert((n / page_size) * page_size >= total_rows) by (nonlinear_arith)
            requires
                n == page_size * (n / page_size) + n % page_size,
                0 <= n % page_size < page_size,
                n == total_rows + page_size - 1;
    }
}

/// The first row of a valid page sits inside the table.
proof fn lemma_page_start_bound(total_rows: int, page_size: int, page: int)
    requires
        total_rows >= 0,
        1 <= page_size,
        0 <= page < total_pages_spec(total_rows, page_size),
    ensures
        page * page_size <= total_rows,
        page * page_size + page_size <= total_rows + page_size,
{
    if total_rows == 0 {
        assert(page == 0);
    } else {
        let n = total_rows + page_size - 1;
        vstd::arithmetic::div_mod::lemma_fundamental_div_mod(n, page_size);
        vstd::arithmetic::div_mod::lemma_mod_bound(n, page_size);
        assert(page * page_size <= total_rows) by (nonlinear_arith)
            requires
                n == page_size * (n / page_size) + n % page_size,
                0 <= n % page_size < page_size,
                n == total_rows + page_size - 1,
                page <= n / page_size - 1,
                page >= 0,
                page_size >= 1;
    }
}

/// The display text for a row count: plain below a thousand, otherwise
/// truncated to one decimal with a `K` or `M` unit.
pub open spec fn row_count_text(count: int) -> Seq<char> {
    let unit = if count == 1 { seq![' ', 'r', 'o', 'w'] } else { seq![' ', 'r', 'o', 'w', 's'] };
    if count >= 1_000_000 {
        dec_digits(count / 1_000_000) + seq!['.']
            + dec_digits((count % 1_000_000) / 100_000) + seq!['M'] + unit
    } else if count >= 1_000 {
        dec_digits(count / 1_000) + seq!['.']
            + dec_digits((count % 1_000) / 100) + seq!['K'] + unit
    } else {
        dec_digits(count) + unit
    }
}

/// Format a row count for display, truncating to one decimal above a
/// thousand: `1 row`, `999 rows`, `1.2K rows`, `1.0M rows`.
pub fn format_row_count(count: usize) -> (r: String)
    requires
        count <= 100_000_000_000,
    ensures
        r@ == row_count_text(count as int),
{
    let mut out: Vec<char> = Vec::new();
    if count >= 1_000_000 {
        let whole = u64_to_dec((count / 1_000_000) as u64);
        let tenth = u64_to_dec(((count % 1_000_000) / 100_000) as u64);
        append_chars(&mut out, &whole);
        out.push('.');
        append_chars(&mut out, &tenth);
        out.push('M');
    } else if count >= 1_000 {
        let whole = u64_to_dec((count / 1_000) as u64);
        let tenth = u64_to_dec(((count % 1_000) / 100) as u64);
        append_chars(&mut out, &whole);
        out.push('.');
        append_chars(&mut out, &tenth);
        out.push('K');
    } else {
        let digits = u64_to_dec(count as u64);
        append_chars(&mut out, &digits);
    }
    out.push(' ');
    out.push('r');
    out.push('o');
    out.push('w');
    if count != 1 {
        out.push('s');
    }
    proof {
        assert(out@ =~= row_count_text(count as int));
    }
    string_from_chars(&out)
}

/// The display text for a row window: one-indexed start and end (capped
/// at the total), over the total in the same truncated form.
pub open spec fn position_text(start: int, end: int, total: int) -> Seq<char> {
    let shown_end = if end <= total { end } else { total };
    let totaltext = if total >= 1_000_000 {
        dec_digits(total / 1_000_000) + seq!['.'] + dec_digits((total % 1_000_000) / 100_000) + seq!['M']
    } else if total >= 1_000 {
        dec_digits(total / 1_000) + seq!['.'] + dec_digits((total % 1_000) / 100) + seq!['K']
    } else {
        dec_digits(total)
    };
    dec_digits(start + 1) + seq!['-'] + dec_digits(shown_end) + seq![' ', 'o', 'f', ' '] + totaltext
}

/// Format a row window for display: `1-50 of 1.2K`.
pub fn format_position(start: usize, end: usize, total: usize) -> (r: String)
    requires
        start < usize::MAX,
        total <= 100_000_000_000,
    ensures
        r@ == position_text(start as int, end as int, total as int),
{
    let mut out: Vec<char> = Vec::new();
    let s = u64_to_dec((start + 1) as u64);
    append_chars(&mut out, &s);
    out.push('-');
    let shown_end: usize = if end <= total { end } else { total };
    let e = u64_to_dec(shown_end as u64);
    append_chars(&mut out, &e);
    out.push(' ');
    out.push('o');
    out.push('f');
    out.push(' ');
    if total >= 1_000_000 {
        let whole = u64_to_dec((total / 1_000_000) as u64);
        let tenth = u64_to_dec(((total % 1_000_000) / 100_000) as u64);
        append_chars(&mut out, &whole);
        out.push('.');
        append_chars(&mut out, &tenth);
        out.push('M');
    } else if total >= 1_000 {
        let whole = u64_to_dec((total / 1_000) as u64);
        let tenth = u64_to_dec(((total % 1_000) / 100) as u64);
        append_chars(&mut out, &whole);
        out.push('.');
        append_chars(&mut out, &tenth);
        out.push('K');
    } else {
        let digits = u64_to_dec(total as u64);
        append_chars(&mut out, &digits);
    }
    proof {
        assert(out@ =~= position_text(start as int, end as int, total as int));
    }
    string_from_chars(&out)
}

} // verus!
