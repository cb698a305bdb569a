//! HTTP Range header parsing and validation for media streaming.
//!
//! A `ByteRange` is a checked slice of a file: inclusive start and end plus
//! the total size. Construction rejects inverted or out-of-file ranges and
//! anything larger than `MAX_RANGE_SIZE`; the end is clamped to the last
//! byte of the file.

use vstd::prelude::*;
use crate::text::{all_digits, chars_vec, dec_value, parse_u64, string_from_chars, u64_to_dec};

verus! {

/// Maximum range size (100 MiB), to keep one request from exhausting memory.
pub const MAX_RANGE_SIZE: u64 = 100 * 1024 * 1024;

/// Parsed and validated byte range: `start..=end` within a file of
/// `total_size` bytes.
#[derive(Clone, Copy, PartialEq, Eq, Structural, Debug)]
pub struct ByteRange {
    /// Start byte (inclusive).
    pub start: u64,
    /// End byte (inclusive).
    pub end: u64,
    /// Total content length.
    pub total_size: u64,
}

/// What `ByteRange::new` accepts and produces: the range must start at or
/// before its end, start inside the file, and — after clamping the end to
/// the last byte — span at most `MAX_RANGE_SIZE` bytes.
pub open spec fn byte_range_new_spec(start: u64, end: u64, total_size: u64) -> Option<ByteRange> {
    if end < start {
        None
    } else if start >= total_size {
        None
    } else {
        let clamped = if end <= total_size - 1 { end as int } else { total_size - 1 };
        if clamped - start + 1 > MAX_RANGE_SIZE {
            None
        } else {
            Some(ByteRange { start, end: clamped as u64, total_size })
        }
    }
}

/// Index of the first occurrence of `c` in `s` at or after `from`, or
/// `s.len()` when there is none.
pub open spec fn find_char(s: Seq<char>, c: char, from: int) -> int
    decreases s.len() - from,
{
    if from < 0 || from >= s.len() {
        s.len() as int
    } else if s[from] == c {
        from
    } else {
        find_char(s, c, from + 1)
    }
}

/// The characters of the literal prefix every Range header starts with.
pub open spec fn bytes_prefix() -> Seq<char> {
    seq!['b', 'y', 't', 'e', 's', '=']
}

/// What `ByteRange::parse_header` accepts: `bytes=` followed by a decimal
/// start, then optionally a dash and a decimal end; a missing or empty end
/// means the last byte of the file. The text between the first and second
/// dash is the end; anything after a second dash is ignored. The resulting
/// range passes the same validation as `ByteRange::new`.
pub open spec fn parse_header_spec(s: Seq<char>, file_size: u64) -> Option<ByteRange> {
    if s.len() < 6 || s.subrange(0, 6) != bytes_prefix() {
        None
    } else {
        let rest = s.subrange(6, s.len() as int);
        let dash = find_char(rest, '-', 0);
        let seg0 = rest.take(dash);
        if seg0.len() == 0 || !all_digits(seg0) || dec_value(seg0) > u64::MAX {
            None
        } else {
            let start = dec_value(seg0) as u64;
            if dash < rest.len() && rest.subrange(dash + 1, find_char(rest, '-', dash + 1)).len() > 0 {
                let seg1 = rest.subrange(dash + 1, find_char(rest, '-', dash + 1));
                if !all_digits(seg1) || dec_value(seg1) > u64::MAX {
                    None
                } else {
                    byte_range_new_spec(start, dec_value(seg1) as u64, file_size)
                }
            } else {
                let default_end = if file_size > 0 { (file_size - 1) as u64 } else { 0u64 };
                byte_range_new_spec(start, default_end, file_size)
            }
        }
    }
}

impl ByteRange {
    /// Create a new validated byte range; `None` exactly when the range is
    /// inverted, starts past the file, or exceeds the size cap.
    pub fn new(start: u64, end: u64, total_size: u64) -> (r: Option<ByteRange>)
        ensures
            r == byte_range_new_spec(start, end, total_size),
            r matches Some(br) ==> br.start == start && br.start <= br.end < total_size
                && br.total_size == total_size && br.end - br.start + 1 <= MAX_RANGE_SIZE,
    {
        if end < start {
            return None;
        }
        if start >= total_size {
            return None;
        }
        let clamped: u64 = if end <= total_size - 1 { end } else { total_size - 1 };
        if clamped - start >= MAX_RANGE_SIZE {
            return None;
        }
        Some(ByteRange { start, end: clamped, total_size })
    }

    /// Parse a Range header value like `bytes=0-1023` against a file of
    /// `file_size` bytes.
    #[verifier::loop_isolation(false)]
    pub fn parse_header(range_header: &str, file_size: u64) -> (r: Option<ByteRange>)
        ensures
            r == parse_header_spec(range_header@, file_size),
    {
        let chars = chars_vec(range_header);
        if chars.len() < 6 {
            return None;
        }
        if chars[0] != 'b' || chars[1] != 'y' || chars[2] != 't' || chars[3] != 'e'
            || chars[4] != 's' || chars[5] != '=' {
            proof {
                assert(range_header@.subrange(0, 6) != bytes_prefix()) by {
                    if range_header@.subrange(0, 6) == bytes_prefix() {
                        assert(forall|j: int| 0 <= j < 6 ==> range_header@[j] == #[trigger] bytes_prefix()[j]) by {
                            assert(forall|j: int| 0 <= j < 6 ==> range_header@.subrange(0, 6)[j] == range_header@[j]);
                        }
                    }
                }
            }
            return None;
        }
        proof {
            assert(range_header@.subrange(0, 6) =~= bytes_prefix());
        }
        let ghost rest = range_header@.subrange(6, range_header@.len() as int);
        // Find the first dash after the prefix.
        let mut dash: usize = 6;
        while dash < chars.len() && chars[dash] != '-'
            invariant
                6 <= dash <= chars@.len(),
                chars@ == range_header@,
                find_char(rest, '-', 0) == find_char(rest, '-', dash - 6),
                forall|j: int| 6 <= j < dash ==> chars@[j] != '-',
            decreases chars@.len() - dash,
        {
            proof {
                assert(rest[dash - 6] == chars@[dash as int]);
            }
            dash = dash + 1;
        }
        proof {
            if dash < chars@.len() {
                assert(rest[dash - 6] == '-');
            }
            assert(find_char(rest, '-', dash - 6) == dash - 6);
        }
        let mut seg0: Vec<char> = Vec::new();
        let mut i: usize = 6;
        while i < dash
            invariant
                6 <= i <= dash <= chars@.len(),
                chars@ == range_header@,
                seg0@ == rest.take(dash - 6).take(i - 6),
            decreases dash - i,
        {
            proof {
                assert(rest.take(dash - 6).take(i - 6 + 1) =~= rest.take(dash - 6).take(i - 6).push(chars@[i as int]));
            }
            seg0.push(chars[i]);
            i = i + 1;
        }
        proof {
            assert(seg0@ =~= rest.take(dash - 6));
        }
        let start: u64 = match parse_u64(&seg0) {
            Some(n) => n,
            None => {
                return None;
            },
        };
        // The end segment runs from past the dash to the next dash, if any.
        if dash < chars.len() {
            let mut dash2: usize = dash + 1;
            while dash2 < chars.len() && chars[dash2] != '-'
                invariant
                    dash + 1 <= dash2 <= chars@.len(),
                    dash < chars@.len(),
                    chars@ == range_header@,
                    find_char(rest, '-', dash + 1 - 6) == find_char(rest, '-', dash2 - 6),
                    forall|j: int| dash + 1 <= j < dash2 ==> chars@[j] != '-',
                decreases chars@.len() - dash2,
            {
                proof {
                    assert(rest[dash2 - 6] == chars@[dash2 as int]);
                }
                dash2 = dash2 + 1;
            }
            proof {
                if dash2 < chars@.len() {
                    assert(rest[dash2 - 6] == '-');
                }
                assert(find_char(rest, '-', dash + 1 - 6) == dash2 - 6);
            }
            if dash2 > dash + 1 {
                let mut seg1: Vec<char> = Vec::new();
                let mut j: usize = dash + 1;
                while j < dash2
                    invariant
                        dash + 1 <= j <= dash2 <= chars@.len(),
                        6 <= dash,
                        chars@ == range_header@,
                        seg1@ == rest.subrange(dash + 1 - 6, dash2 - 6).take(j - (dash + 1)),
                    decreases dash2 - j,
                {
                    proof {
                        let seg = rest.subrange(dash + 1 - 6, dash2 - 6);
                        assert(seg.take(j - (dash + 1) + 1) =~= seg.take(j - (dash + 1)).push(chars@[j as int]));
                    }
                    seg1.push(chars[j]);
                    j = j + 1;
                }
                proof {
                    assert(seg1@ =~= rest.subrange(dash + 1 - 6, dash2 - 6));
                }
                let end: u64 = match parse_u64(&seg1) {
                    Some(n) => n,
                    None => {
                        return None;
                    },
                };
                return Self::new(start, end, file_size);
            }
        }
        let default_end: u64 = if file_size > 0 { file_size - 1 } else { 0 };
        Self::new(start, default_end, file_size)
    }

    /// Length of this range in bytes; on a well-formed range this is
    /// `end - start + 1`, and malformed field values saturate instead of
    /// wrapping.
    pub fn length(&self) -> (r: u64)
        ensures
            self.start <= self.end ==> r == if self.end - self.start + 1 <= u64::MAX {
                self.end - self.start + 1
            } else {
                u64::MAX as int
            },
            self.start > self.end ==> r == 1,
    {
        if self.end < self.start {
            1
        } else if self.end - self.start == u64::MAX {
            u64::MAX
        } else {
            self.end - self.start + 1
        }
    }

    /// The range as an inclusive std range, for slicing files.
    pub fn as_range_inclusive(&self) -> (r: core::ops::RangeInclusive<u64>)
        ensures
            r@.start == self.start,
            r@.end == self.end,
    {
        core::ops::RangeInclusive::new(self.start, self.end)
    }

    /// Format as a Content-Range header value: `bytes start-end/total`.
    pub fn format_content_range(&self) -> (r: String)
        ensures
            r@ == seq!['b', 'y', 't', 'e', 's', ' '] + crate::text::dec_digits(self.start as int)
                + seq!['-'] + crate::text::dec_digits(self.end as int)
                + seq!['/'] + crate::text::dec_digits(self.total_size as int),
    {
        let mut out: Vec<char> = Vec::new();
        out.push('b');
        out.push('y');
        out.push('t');
        out.push('e');
        out.push('s');
        out.push(' ');
        let ghost head = out@;
        let start_digits = u64_to_dec(self.start);
        let mut n: usize = 0;
        while n < start_digits.len()
            invariant
                0 <= n <= start_digits@.len(),
                out@ == head + start_digits@.take(n as int),
            decreases start_digits@.len() - n,
        {
            proof {
                assert(head + start_digits@.take(n + 1) =~= (head + start_digits@.take(n as int)).push(start_digits@[n as int]));
            }
            out.push(start_digits[n]);
            n = n + 1;
        }
        proof {
            assert(start_digits@.take(start_digits@.len() as int) =~= start_digits@);
        }
        out.push('-');
        let ghost head2 = out@;
        let end_digits = u64_to_dec(self.end);
        let mut n2: usize = 0;
        while n2 < end_digits.len()
            invariant
                0 <= n2 <= end_digits@.len(),
                out@ == head2 + end_digits@.take(n2 as int),
            decreases end_digits@.len() - n2,
        {
            proof {
                assert(head2 + end_digits@.take(n2 + 1) =~= (head2 + end_digits@.take(n2 as int)).push(end_digits@[n2 as int]));
            }
            out.push(end_digits[n2]);
            n2 = n2 + 1;
        }
        proof {
            assert(end_digits@.take(end_digits@.len() as int) =~= end_digits@);
        }
        out.push('/');
        let ghost head3 = out@;
        let total_digits = u64_to_dec(self.total_size);
        let mut n3: usize = 0;
        while n3 < total_digits.len()
            invariant
                0 <= n3 <= total_digits@.len(),
                out@ == head3 + total_digits@.take(n3 as int),
            decreases total_digits@.len() - n3,
        {
            proof {
                assert(head3 + total_digits@.take(n3 + 1) =~= (head3 + total_digits@.take(n3 as int)).push(total_digits@[n3 as int]));
            }
            out.push(total_digits[n3]);
            n3 = n3 + 1;
        }
        proof {
            assert(total_digits@.take(total_digits@.len() as int) =~= total_digits@);
            assert(out@ =~= seq!['b', 'y', 't', 'e', 's', ' '] + crate::text::dec_digits(self.start as int)
                + seq!['-'] + crate::text::dec_digits(self.end as int)
                + seq!['/'] + crate::text::dec_digits(self.total_size as int));
        }
        string_from_chars(&out)
    }
}

/// Buffer size for a range, capped at `MAX_RANGE_SIZE` so a hostile length
/// cannot force a huge allocation.
pub fn safe_buffer_size(range_length: u64) -> (r: usize)
    ensures
        r == if range_length <= MAX_RANGE_SIZE { range_length as int } else { MAX_RANGE_SIZE as int },
{
    if range_length <= MAX_RANGE_SIZE {
        range_length as usize
    } else {
        MAX_RANGE_SIZE as usize
    }
}

} // verus!
