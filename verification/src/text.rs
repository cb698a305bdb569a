//! Verified text utilities: character access and decimal conversions.
//!
//! The engine reasons about strings through their character sequences, so
//! this module supplies the few conversions everything else builds on:
//! collecting a `&str` into a character vector, rebuilding a `String`, and
//! parsing and printing unsigned decimal numbers.

use vstd::prelude::*;

verus! {

/// Collects the characters of a string slice into a vector, in order.
pub fn chars_vec(s: &str) -> (v: Vec<char>)
    ensures
        v@ == s@,
{
    broadcast use vstd::string::group_string_axioms;

    let mut v: Vec<char> = Vec::new();
    for c in it: s.chars()
        invariant
            it.seq() == s@,
            v@ == it.history(),
    {
        v.push(c);
    }
    proof {
        assert(v@ =~= s@);
    }
    v
}

/// Relies on `core::iter::Iterator::collect` for `String`: the collected
/// string holds exactly the characters of the vector, in order.
#[verifier::external_body]
pub fn string_from_chars(v: &Vec<char>) -> (s: String)
    ensures
        s@ == v@,
{
    v.iter().collect()
}

/// An ASCII decimal digit.
pub open spec fn is_digit(c: char) -> bool {
    '0' <= c <= '9'
}

pub open spec fn digit_val(c: char) -> int {
    c as int - '0' as int
}

pub open spec fn all_digits(s: Seq<char>) -> bool {
    forall|i: int| 0 <= i < s.len() ==> is_digit(#[trigger] s[i])
}

/// The number a digit string denotes, most significant digit first.
pub open spec fn dec_value(s: Seq<char>) -> int
    decreases s.len(),
{
    if s.len() == 0 {
        0
    } else {
        dec_value(s.drop_last()) * 10 + digit_val(s.last())
    }
}

/// Parses a string of ASCII digits as a `u64`. Returns `None` exactly when
/// the string is empty, holds a non-digit, or denotes a value above
/// `u64::MAX`.
pub fn parse_u64(s: &Vec<char>) -> (r: Option<u64>)
    ensures
        match r {
            Some(n) => s@.len() > 0 && all_digits(s@) && n == dec_value(s@),
            None => s@.len() == 0 || !all_digits(s@) || dec_value(s@) > u64::MAX,
        },
{
    if s.len() == 0 {
        return None;
    }
    let mut acc: u64 = 0;
    let mut i: usize = 0;
    while i < s.len()
        invariant
            0 <= i <= s@.len(),
            all_digits(s@.take(i as int)),
            acc == dec_value(s@.take(i as int)),
        decreases s@.len() - i,
    {
        let c = s[i];
        if c < '0' || c > '9' {
            proof {
                assert(!is_digit(s@[i as int]));
            }
            return None;
        }
        let d: u64 = (c as u32 - '0' as u32) as u64;
        proof {
            assert(s@.take(i + 1).drop_last() =~= s@.take(i as int));
            assert(s@.take(i + 1).last() == s@[i as int]);
        }
        if acc > (u64::MAX - d) / 10 {
            // The next digit would push the value past u64::MAX.
            proof {
                assert(acc * 10 + d > u64::MAX) by (nonlinear_arith)
                    requires acc > (u64::MAX - d) / 10, 0 <= d <= 9, acc >= 0,
                             (u64::MAX - d) / 10 == ((u64::MAX - d) as int) / 10;
                lemma_dec_value_grows(s@, i as int);
            }
            return None;
        }
        proof {
            assert(acc * 10 + d <= u64::MAX) by (nonlinear_arith)
                requires 0 <= acc <= (u64::MAX - d) / 10, 0 <= d <= 9,
                         (u64::MAX - d) / 10 == ((u64::MAX - d) as int) / 10;
        }
        acc = acc * 10 + d;
        i = i + 1;
    }
    proof {
        assert(s@.take(s@.len() as int) =~= s@);
    }
    Some(acc)
}

/// Once a prefix of a digit string already denotes more than `u64::MAX`,
/// the whole string is malformed or denotes more as well.
proof fn lemma_dec_value_grows(s: Seq<char>, i: int)
    requires
        0 <= i < s.len(),
        all_digits(s.take(i)),
        is_digit(s[i]),
        dec_value(s.take(i)) * 10 + digit_val(s[i]) > u64::MAX,
    ensures
        !all_digits(s) || dec_value(s) > u64::MAX,
{
    if all_digits(s) {
        assert(s.take(i + 1).drop_last() =~= s.take(i));
        assert(s.take(i + 1).last() == s[i]);
        assert(dec_value(s.take(i + 1)) > u64::MAX);
        lemma_dec_value_prefix_monotonic(s, i + 1);
    }
}

/// For an all-digit string, the value of any prefix never exceeds the value
/// of the whole string.
proof fn lemma_dec_value_prefix_monotonic(s: Seq<char>, i: int)
    requires
        0 <= i <= s.len(),
        all_digits(s),
    ensures
        dec_value(s.take(i)) <= dec_value(s),
    decreases s.len() - i,
{
    if i < s.len() {
        assert(all_digits(s.take(i))) by {
            assert(forall|j: int| 0 <= j < i ==> s.take(i)[j] == s[j]);
        }
        lemma_dec_value_nonneg(s.take(i));
        assert(s.take(i + 1).drop_last() =~= s.take(i));
        assert(is_digit(s[i]));
        assert(dec_value(s.take(i + 1)) == dec_value(s.take(i)) * 10 + digit_val(s[i]));
        assert(dec_value(s.take(i)) <= dec_value(s.take(i)) * 10 + digit_val(s[i])) by (nonlinear_arith)
            requires dec_value(s.take(i)) >= 0, digit_val(s[i]) >= 0;
        lemma_dec_value_prefix_monotonic(s, i + 1);
    } else {
        assert(s.take(i) =~= s);
    }
}

/// A digit string never denotes a negative number.
pub proof fn lemma_dec_value_nonneg(s: Seq<char>)
    requires
        all_digits(s),
    ensures
        dec_value(s) >= 0,
    decreases s.len(),
{
    if s.len() > 0 {
        assert(all_digits(s.drop_last())) by {
            assert(forall|j: int| 0 <= j < s.len() - 1 ==> s.drop_last()[j] == s[j]);
        }
        lemma_dec_value_nonneg(s.drop_last());
        assert(dec_value(s.drop_last()) * 10 >= 0) by (nonlinear_arith)
            requires dec_value(s.drop_last()) >= 0;
    }
}

/// The canonical decimal spelling of a non-negative number: no leading
/// zeros except for zero itself.
pub open spec fn dec_digits(n: int) -> Seq<char>
    decreases n,
{
    if n <= 0 {
        seq!['0']
    } else if n < 10 {
        seq![(('0' as int + n) as char)]
    } else {
        dec_digits(n / 10).push((('0' as int + n % 10) as char))
    }
}

/// Prints a `u64` in decimal, most significant digit first.
pub fn u64_to_dec(n: u64) -> (v: Vec<char>)
    ensures
        v@ == dec_digits(n as int),
{
    let mut digits_rev: Vec<char> = Vec::new();
    if n == 0 {
        digits_rev.push('0');
        proof {
            assert(digits_rev@ =~= dec_digits(0int));
        }
        return digits_rev;
    }
    let mut rest: u64 = n;
    while rest > 0
        invariant
            0 <= rest <= n,
            rest > 0 ==> dec_digits(n as int) == dec_digits(rest as int) + digits_rev@.reverse(),
            rest == 0 ==> dec_digits(n as int) == digits_rev@.reverse(),
        decreases rest,
    {
        let d: u64 = rest % 10;
        let ghost prev = digits_rev@;
        proof {
            lemma_dec_digits_step(rest as int);
            let dc = (('0' as int + rest as int % 10) as char);
            assert((prev.push(dc)).reverse() =~= seq![dc] + prev.reverse());
            if rest >= 10 {
                assert(dec_digits(rest as int / 10) + (seq![dc] + prev.reverse())
                    =~= (dec_digits(rest as int / 10) + seq![dc]) + prev.reverse());
                assert(dec_digits(rest as int / 10).push(dc) =~= dec_digits(rest as int / 10) + seq![dc]);
            } else {
                assert(dec_digits(rest as int) + prev.reverse() =~= seq![dc] + prev.reverse());
            }
        }
        let dch: char = ('0' as u8 + d as u8) as char;
        proof {
            assert(dch == (('0' as int + rest as int % 10) as char));
        }
        digits_rev.push(dch);
        rest = rest / 10;
    }
    let mut v: Vec<char> = Vec::new();
    let mut i: usize = digits_rev.len();
    while i > 0
        invariant
            0 <= i <= digits_rev@.len(),
            v@ == digits_rev@.subrange(i as int, digits_rev@.len() as int).reverse(),
        decreases i,
    {
        i = i - 1;
        proof {
            let whole = digits_rev@.subrange(i as int, digits_rev@.len() as int);
            let shorter = digits_rev@.subrange(i + 1, digits_rev@.len() as int);
            assert(whole.reverse() =~= shorter.reverse().push(digits_rev@[i as int]));
        }
        v.push(digits_rev[i]);
    }
    proof {
        assert(digits_rev@.subrange(0, digits_rev@.len() as int) =~= digits_rev@);
        assert(v@ == digits_rev@.reverse());
    }
    v
}

/// ASCII lowercase of one character; anything outside `A`..`Z` is kept.
pub open spec fn lower_char(c: char) -> char {
    if 'A' <= c <= 'Z' {
        ((c as int) + 32) as char
    } else {
        c
    }
}

/// ASCII lowercase of a character sequence.
pub open spec fn ascii_lower(s: Seq<char>) -> Seq<char> {
    s.map_values(|c: char| lower_char(c))
}

/// Lowercases one character (ASCII range only).
pub fn lower_char_exec(c: char) -> (r: char)
    ensures
        r == lower_char(c),
{
    if 'A' <= c && c <= 'Z' {
        ((c as u8) + 32) as char
    } else {
        c
    }
}

/// ASCII-lowercases every character of a vector.
pub fn to_lower_vec(v: &Vec<char>) -> (r: Vec<char>)
    ensures
        r@ == ascii_lower(v@),
{
    let mut out: Vec<char> = Vec::new();
    let mut i: usize = 0;
    while i < v.len()
        invariant
            0 <= i <= v@.len(),
            out@ == ascii_lower(v@.take(i as int)),
        decreases v@.len() - i,
    {
        let c = lower_char_exec(v[i]);
        proof {
            assert(ascii_lower(v@.take(i + 1)) =~= ascii_lower(v@.take(i as int)).push(lower_char(v@[i as int])));
        }
        out.push(c);
        i = i + 1;
    }
    proof {
        assert(v@.take(v@.len() as int) =~= v@);
    }
    out
}

/// Compares two character vectors for equality.
pub fn chars_eq(a: &Vec<char>, b: &Vec<char>) -> (r: bool)
    ensures
        r == (a@ == b@),
{
    if a.len() != b.len() {
        return false;
    }
    let mut i: usize = 0;
    while i < a.len()
        invariant
            0 <= i <= a@.len(),
            a@.len() == b@.len(),
            forall|j: int| 0 <= j < i ==> a@[j] == b@[j],
        decreases a@.len() - i,
    {
        if a[i] != b[i] {
            return false;
        }
        i = i + 1;
    }
    proof {
        assert(a@ =~= b@);
    }
    true
}

/// Compares two string slices for equality by their characters.
pub fn str_eq(a: &str, b: &str) -> (r: bool)
    ensures
        r == (a@ == b@),
{
    let av = chars_vec(a);
    let bv = chars_vec(b);
    chars_eq(&av, &bv)
}

/// Whether `pat` occurs as a contiguous run inside `s` starting at `i`.
pub open spec fn matches_at(s: Seq<char>, pat: Seq<char>, i: int) -> bool {
    0 <= i && i + pat.len() <= s.len() && s.subrange(i, i + pat.len() as int) == pat
}

/// Whether `pat` occurs as a contiguous run anywhere inside `s`.
pub open spec fn contains_seq(s: Seq<char>, pat: Seq<char>) -> bool {
    exists|i: int| matches_at(s, pat, i)
}

/// Index of the first occurrence of `pat` in `s`, or `None`.
#[verifier::loop_isolation(false)]
pub fn find_seq(s: &Vec<char>, pat: &Vec<char>) -> (r: Option<usize>)
    ensures
        match r {
            Some(i) => matches_at(s@, pat@, i as int)
                && forall|j: int| 0 <= j < i ==> !matches_at(s@, pat@, j),
            None => !contains_seq(s@, pat@),
        },
{
    if pat.len() > s.len() {
        proof {
            assert(forall|j: int| !matches_at(s@, pat@, j));
        }
        return None;
    }
    if pat.len() == 0 {
        proof {
            assert(s@.subrange(0, 0) =~= pat@);
        }
        return Some(0);
    }
    let mut i: usize = 0;
    while i <= s.len() - pat.len()
        invariant
            pat@.len() <= s@.len(),
            0 <= i <= s@.len() - pat@.len() + 1,
            forall|j: int| 0 <= j < i ==> !matches_at(s@, pat@, j),
        decreases s@.len() - pat@.len() - i + 1,
    {
        let mut k: usize = 0;
        let mut hit: bool = true;
        while k < pat.len()
            invariant
                0 <= k <= pat@.len(),
                hit ==> forall|j: int| 0 <= j < k ==> s@[i + j] == pat@[j],
                !hit ==> !matches_at(s@, pat@, i as int) && k == pat@.len(),
            decreases pat@.len() - k,
        {
            if s[i + k] != pat[k] {
                proof {
                    if matches_at(s@, pat@, i as int) {
                        assert(s@.subrange(i as int, i + pat@.len() as int)[k as int] == pat@[k as int]);
                    }
                }
                hit = false;
                k = pat.len();
            } else {
                proof {
                    assert(s@[i + k] == pat@[k as int]);
                    assert forall|j: int| 0 <= j < k + 1 implies s@[i + j] == pat@[j] by {
                        if j == k {
                            assert(s@[i + j] == pat@[j]);
                        }
                    }
                }
                k = k + 1;
            }
        }
        if hit {
            proof {
                assert(s@.subrange(i as int, i + pat@.len() as int) =~= pat@);
            }
            return Some(i);
        }
        proof {
            if matches_at(s@, pat@, i as int) {
                assert(forall|j: int| 0 <= j < pat@.len()
                    ==> s@[i + j] == #[trigger] s@.subrange(i as int, i + pat@.len() as int)[j]);
            }
        }
        i = i + 1;
    }
    proof {
        assert(forall|j: int| !matches_at(s@, pat@, j) || 0 <= j <= s@.len() - pat@.len());
    }
    None
}

/// Copies `v[from..to]` into a fresh vector.
pub fn subrange_vec(v: &Vec<char>, from: usize, to: usize) -> (r: Vec<char>)
    requires
        from <= to <= v@.len(),
    ensures
        r@ == v@.subrange(from as int, to as int),
{
    let mut r: Vec<char> = Vec::new();
    let mut i: usize = from;
    while i < to
        invariant
            from <= i <= to <= v@.len(),
            r@ == v@.subrange(from as int, i as int),
        decreases to - i,
    {
        proof {
            assert(v@.subrange(from as int, i + 1) =~= v@.subrange(from as int, i as int).push(v@[i as int]));
        }
        r.push(v[i]);
        i = i + 1;
    }
    r
}

/// Appends every character of `src` to `dst`.
pub fn append_chars(dst: &mut Vec<char>, src: &Vec<char>)
    ensures
        final(dst)@ == old(dst)@ + src@,
{
    let ghost base = dst@;
    let mut i: usize = 0;
    while i < src.len()
        invariant
            0 <= i <= src@.len(),
            dst@ == base + src@.take(i as int),
        decreases src@.len() - i,
    {
        proof {
            assert(base + src@.take(i + 1) =~= (base + src@.take(i as int)).push(src@[i as int]));
        }
        dst.push(src[i]);
        i = i + 1;
    }
    proof {
        assert(src@.take(src@.len() as int) =~= src@);
    }
}

/// Index of the last occurrence of `c` in `s`, or `-1`.
pub open spec fn rfind_char(s: Seq<char>, c: char) -> int
    decreases s.len(),
{
    if s.len() == 0 {
        -1
    } else if s.last() == c {
        s.len() - 1
    } else {
        rfind_char(s.drop_last(), c)
    }
}

/// The last occurrence of `c` in `v`, or `None` when `c` does not occur.
pub fn rfind(v: &Vec<char>, c: char) -> (r: Option<usize>)
    ensures
        match r {
            Some(i) => rfind_char(v@, c) == i,
            None => rfind_char(v@, c) == -1,
        },
{
    proof {
        lemma_rfind_range(v@, c);
        assert(v@.take(v@.len() as int) =~= v@);
    }
    let mut i: usize = v.len();
    while i > 0
        invariant
            0 <= i <= v@.len(),
            rfind_char(v@, c) == rfind_char(v@.take(i as int), c),
        decreases i,
    {
        i = i - 1;
        proof {
            assert(v@.take(i + 1).drop_last() =~= v@.take(i as int));
            assert(v@.take(i + 1).last() == v@[i as int]);
        }
        if v[i] == c {
            proof {
                assert(rfind_char(v@.take(i + 1), c) == i);
            }
            return Some(i);
        }
    }
    proof {
        assert(v@.take(0) =~= Seq::<char>::empty());
    }
    None
}

/// The last-occurrence index is always inside the sequence or `-1`.
pub proof fn lemma_rfind_range(s: Seq<char>, c: char)
    ensures
        -1 <= rfind_char(s, c) < s.len(),
        rfind_char(s, c) >= 0 ==> s[rfind_char(s, c)] == c,
    decreases s.len(),
{
    if s.len() > 0 && s.last() != c {
        lemma_rfind_range(s.drop_last(), c);
    }
}

/// The part of a path after its last slash; the whole path when it has no
/// slash.
pub open spec fn file_name_of(path: Seq<char>) -> Seq<char> {
    path.subrange(rfind_char(path, '/') + 1, path.len() as int)
}

/// The extension of a path's file name: the part after the last dot, when
/// that dot is neither missing nor leading.
pub open spec fn extension_of(path: Seq<char>) -> Option<Seq<char>> {
    let name = file_name_of(path);
    let d = rfind_char(name, '.');
    if d <= 0 {
        None
    } else {
        Some(name.subrange(d + 1, name.len() as int))
    }
}

/// A path's file name without its extension.
pub open spec fn file_stem_of(path: Seq<char>) -> Seq<char> {
    let name = file_name_of(path);
    let d = rfind_char(name, '.');
    if d <= 0 {
        name
    } else {
        name.take(d)
    }
}

/// The file name of a path, as characters.
pub fn file_name_chars(path: &Vec<char>) -> (r: Vec<char>)
    ensures
        r@ == file_name_of(path@),
{
    proof {
        lemma_rfind_range(path@, '/');
    }
    let n: usize = path.len();
    let from: usize = match rfind(path, '/') {
        Some(i) => {
            proof {
                assert(i < n);
            }
            i + 1
        },
        None => 0,
    };
    subrange_vec(path, from, n)
}

/// The extension of a path, lowercased, or `None`.
pub fn extension_chars_lower(path: &Vec<char>) -> (r: Option<Vec<char>>)
    ensures
        match r {
            Some(e) => extension_of(path@) matches Some(x) && e@ == ascii_lower(x),
            None => (extension_of(path@) is None),
        },
{
    let name = file_name_chars(path);
    proof {
        lemma_rfind_range(name@, '.');
    }
    let n: usize = name.len();
    match rfind(&name, '.') {
        Some(d) => {
            if d == 0 {
                None
            } else {
                proof {
                    assert(d < n);
                }
                let ext = subrange_vec(&name, d + 1, n);
                Some(to_lower_vec(&ext))
            }
        },
        None => None,
    }
}

/// The file stem of a path, as characters.
pub fn file_stem_chars(path: &Vec<char>) -> (r: Vec<char>)
    ensures
        r@ == file_stem_of(path@),
{
    let name = file_name_chars(path);
    proof {
        lemma_rfind_range(name@, '.');
    }
    match rfind(&name, '.') {
        Some(d) => {
            if d == 0 {
                name
            } else {
                proof {
                    assert(name@.subrange(0, d as int) =~= name@.take(d as int));
                }
                subrange_vec(&name, 0, d)
            }
        },
        None => name,
    }
}

/// How many times `c` occurs in `s`.
pub open spec fn count_char(s: Seq<char>, c: char) -> int
    decreases s.len(),
{
    if s.len() == 0 {
        0
    } else {
        count_char(s.drop_last(), c) + if s.last() == c { 1int } else { 0int }
    }
}

/// Counts the occurrences of `c` in `v`.
pub fn count_char_exec(v: &Vec<char>, c: char) -> (r: usize)
    ensures
        r == count_char(v@, c),
{
    proof {
        lemma_count_char_le_len(v@, c);
    }
    let mut n: usize = 0;
    let mut i: usize = 0;
    while i < v.len()
        invariant
            0 <= i <= v@.len(),
            n == count_char(v@.take(i as int), c),
            n <= i,
        decreases v@.len() - i,
    {
        proof {
            assert(v@.take(i + 1).drop_last() =~= v@.take(i as int));
        }
        if v[i] == c {
            n = n + 1;
        }
        i = i + 1;
    }
    proof {
        assert(v@.take(v@.len() as int) =~= v@);
    }
    n
}

/// A count never exceeds the length counted over.
proof fn lemma_count_char_le_len(s: Seq<char>, c: char)
    ensures
        0 <= count_char(s, c) <= s.len(),
    decreases s.len(),
{
    if s.len() > 0 {
        lemma_count_char_le_len(s.drop_last(), c);
    }
}

/// The shape of a finite decimal number literal: an optional sign, then a
/// mantissa holding at least one digit and at most one dot and nothing
/// else, then optionally an exponent marker `e` or `E` with an optional
/// sign and at least one digit.
pub open spec fn is_float_literal(s: Seq<char>) -> bool {
    let t = if s.len() > 0 && (s[0] == '+' || s[0] == '-') {
        s.drop_first()
    } else {
        s
    };
    let e = find_exp_marker(t, 0);
    let mant = t.take(e);
    &&& mantissa_ok(mant)
    &&& e < t.len() ==> exponent_ok(t.subrange(e + 1, t.len() as int))
}

/// Index of the first `e` or `E` in `s` at or after `from`, or `s.len()`.
pub open spec fn find_exp_marker(s: Seq<char>, from: int) -> int
    decreases s.len() - from,
{
    if from < 0 || from >= s.len() {
        s.len() as int
    } else if s[from] == 'e' || s[from] == 'E' {
        from
    } else {
        find_exp_marker(s, from + 1)
    }
}

/// A mantissa: only digits and at most one dot, with at least one digit.
pub open spec fn mantissa_ok(s: Seq<char>) -> bool {
    &&& forall|i: int| 0 <= i < s.len() ==> is_digit(#[trigger] s[i]) || s[i] == '.'
    &&& count_char(s, '.') <= 1
    &&& exists|i: int| 0 <= i < s.len() && is_digit(#[trigger] s[i])
}

/// An exponent: an optional sign, then at least one digit and nothing else.
pub open spec fn exponent_ok(s: Seq<char>) -> bool {
    let t = if s.len() > 0 && (s[0] == '+' || s[0] == '-') {
        s.drop_first()
    } else {
        s
    };
    t.len() > 0 && all_digits(t)
}

/// Whether `v` spells a finite decimal number as `str::parse` for floats
/// reads one (infinities and non-numbers aside).
#[verifier::loop_isolation(false)]
#[verifier::rlimit(100)]
pub fn check_float_literal(v: &Vec<char>) -> (r: bool)
    ensures
        r == is_float_literal(v@),
{
    let start: usize = if v.len() > 0 && (v[0] == '+' || v[0] == '-') { 1 } else { 0 };
    let ghost t = if start == 1 { v@.drop_first() } else { v@ };
    proof {
        assert(t.len() == v@.len() - start);
        assert(forall|j: int| 0 <= j < t.len() ==> t[j] == v@[start + j]);
    }
    // Find the exponent marker.
    let mut e: usize = start;
    while e < v.len() && v[e] != 'e' && v[e] != 'E'
        invariant
            start <= e <= v@.len(),
            find_exp_marker(t, 0) == find_exp_marker(t, e - start),
            forall|j: int| start <= j < e ==> v@[j] != 'e' && v@[j] != 'E',
        decreases v@.len() - e,
    {
        e = e + 1;
    }
    proof {
        assert(find_exp_marker(t, 0) == e - start);
    }
    // Check the mantissa: digits, at most one dot, at least one digit.
    let mut dots: usize = 0;
    let mut has_digit: bool = false;
    let mut ok: bool = true;
    let mut i: usize = start;
    while i < e
        invariant
            start <= i <= e <= v@.len(),
            dots == count_char(t.take(i - start), '.'),
            dots <= i,
            ok == (forall|j: int| 0 <= j < i - start ==> is_digit(#[trigger] t[j]) || t[j] == '.'),
            has_digit == (exists|j: int| 0 <= j < i - start && is_digit(#[trigger] t[j])),
        decreases e - i,
    {
        let c = v[i];
        proof {
            assert(t.take(i - start + 1).drop_last() =~= t.take(i - start));
            assert(t[i - start] == v@[i as int]);
        }
        if c >= '0' && c <= '9' {
            has_digit = true;
        } else if c == '.' {
            dots = dots + 1;
        } else {
            ok = false;
        }
        i = i + 1;
    }
    let ghost em = e - start;
    let ghost mant = t.take(find_exp_marker(t, 0));
    proof {
        assert(mant =~= t.take(em as int));
    }
    let mant_ok = ok && dots <= 1 && has_digit;
    proof {
        assert(forall|j: int| 0 <= j < mant.len() ==> mant[j] == t[j]);
        if ok && has_digit {
            let w = choose|j: int| 0 <= j < em && is_digit(#[trigger] t[j]);
            assert(is_digit(mant[w]));
        }
        if mantissa_ok(mant) {
            let w = choose|j: int| 0 <= j < mant.len() && is_digit(#[trigger] mant[j]);
            assert(is_digit(t[w]));
        }
        assert(mant_ok == mantissa_ok(mant));
    }
    if !mant_ok {
        return false;
    }
    if e < v.len() {
        // Check the exponent after the marker.
        let ghost ex = t.subrange(e - start + 1, t.len() as int);
        proof {
            assert(forall|j: int| 0 <= j < ex.len() ==> ex[j] == v@[e + 1 + j]);
        }
        let es: usize = if e + 1 < v.len() && (v[e + 1] == '+' || v[e + 1] == '-') { e + 2 } else { e + 1 };
        let ghost ext = if es == e + 2 { ex.drop_first() } else { ex };
        proof {
            assert(forall|j: int| 0 <= j < ext.len() ==> ext[j] == v@[es + j]);
        }
        if es >= v.len() {
            proof {
                assert(ext.len() == 0);
            }
            return false;
        }
        let mut k: usize = es;
        while k < v.len()
            invariant
                es <= k <= v@.len(),
                es < v@.len(),
                forall|j: int| 0 <= j < k - es ==> is_digit(#[trigger] ext[j]),
            decreases v@.len() - k,
        {
            let c = v[k];
            if c < '0' || c > '9' {
                proof {
                    assert(ext[k - es] == v@[k as int]);
                    assert(!is_digit(ext[k - es]));
                }
                return false;
            }
            proof {
                assert(ext[k - es] == v@[k as int]);
                assert forall|j: int| 0 <= j < k - es + 1 implies is_digit(#[trigger] ext[j]) by {}
            }
            k = k + 1;
        }
        proof {
            assert(ext.len() == v@.len() - es);
            assert(all_digits(ext));
            assert(exponent_ok(ex));
        }
        true
    } else {
        true
    }
}

/// Unfolds one step of `dec_digits` for a positive number.
proof fn lemma_dec_digits_step(n: int)
    requires
        n > 0,
    ensures
        n < 10 ==> dec_digits(n) == seq![(('0' as int + n) as char)],
        n >= 10 ==> dec_digits(n) == dec_digits(n / 10).push((('0' as int + n % 10) as char)),
        n < 10 ==> n / 10 == 0 && n % 10 == n,
{
    if n < 10 {
        vstd::arithmetic::div_mod::lemma_fundamental_div_mod_converse(n, 10, 0, n);
    }
}

} // verus!
