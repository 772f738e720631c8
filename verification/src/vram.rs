//! Parsing of the accelerator-memory probe's output: one CSV line of
//! "used, total" in megabytes, degrading to (0, 0) whenever the output is
//! not of that shape.

use vstd::prelude::*;

verus! {

/// ASCII whitespace as the probe's fields may carry it.
pub open spec fn is_space(c: char) -> bool {
    c == ' ' || c == '\t' || c == '\r' || c == '\n'
}

/// A decimal digit.
pub open spec fn is_digit(c: char) -> bool {
    '0' <= c && c <= '9'
}

/// Numeric value of one digit.
pub open spec fn digit_val(c: char) -> int {
    c as int - '0' as int
}

/// Every character is a digit.
pub open spec fn all_digits(s: Seq<char>) -> bool {
    forall|i: int| 0 <= i < s.len() ==> is_digit(s[i])
}

/// The number a digit string denotes, most significant digit first.
pub open spec fn digits_val(s: Seq<char>) -> int
    decreases s.len(),
{
    if s.len() == 0 {
        0
    } else {
        digits_val(s.drop_last()) * 10 + digit_val(s.last())
    }
}

/// The number a field denotes: zero unless it is a non-empty digit string
/// whose value fits in a machine word — the "or zero" fallback of the
/// probe.
pub open spec fn spec_parse_u64(s: Seq<char>) -> u64 {
    if s.len() > 0 && all_digits(s) && digits_val(s) <= u64::MAX {
        digits_val(s) as u64
    } else {
        0
    }
}

/// Whitespace stripped from the front.
pub open spec fn spec_trim_front(s: Seq<char>) -> Seq<char>
    decreases s.len(),
{
    if s.len() > 0 && is_space(s[0]) {
        spec_trim_front(s.drop_first())
    } else {
        s
    }
}

/// Whitespace stripped from the back.
pub open spec fn spec_trim_back(s: Seq<char>) -> Seq<char>
    decreases s.len(),
{
    if s.len() > 0 && is_space(s.last()) {
        spec_trim_back(s.drop_last())
    } else {
        s
    }
}

/// Whitespace stripped from both ends.
pub open spec fn spec_trim(s: Seq<char>) -> Seq<char> {
    spec_trim_back(spec_trim_front(s))
}

/// `i` is the first position where `c` occurs.
pub open spec fn is_first_char(s: Seq<char>, c: char, i: int) -> bool {
    &&& 0 <= i < s.len()
    &&& s[i] == c
    &&& forall|j: int| 0 <= j < i ==> s[j] != c
}

/// `c` occurs somewhere in `s`.
pub open spec fn has_char(s: Seq<char>, c: char) -> bool {
    exists|i: int| 0 <= i < s.len() && s[i] == c
}

/// The position of the first occurrence of `c`.
pub open spec fn first_char_at(s: Seq<char>, c: char) -> int {
    choose|i: int| is_first_char(s, c, i)
}

/// Wherever `c` occurs, a first occurrence exists.
pub proof fn lemma_exists_first_char(s: Seq<char>, c: char, i: int)
    requires
        0 <= i < s.len(),
        s[i] == c,
    ensures
        exists|k: int| is_first_char(s, c, k),
    decreases i,
{
    if forall|j: int| 0 <= j < i ==> s[j] != c {
        assert(is_first_char(s, c, i));
    } else {
        let j = choose|j: int| 0 <= j < i && s[j] == c;
        lemma_exists_first_char(s, c, j);
    }
}

/// The first line of the probe's output: up to the first newline, with a
/// trailing carriage return dropped.
pub open spec fn spec_line(s: Seq<char>) -> Seq<char> {
    let l = if has_char(s, '\n') {
        s.take(first_char_at(s, '\n'))
    } else {
        s
    };
    if l.len() > 0 && l.last() == '\r' {
        l.drop_last()
    } else {
        l
    }
}

/// What the probe's whole output denotes: (used, total) when the first
/// line has exactly two comma-separated fields, each trimmed and read as a
/// number with zero as fallback; (0, 0) for any other shape.
pub open spec fn spec_vram(s: Seq<char>) -> (u64, u64) {
    let line = spec_line(s);
    if has_char(line, ',') {
        let k = first_char_at(line, ',');
        let rest = line.skip(k + 1);
        if has_char(rest, ',') {
            (0u64, 0u64)
        } else {
            (spec_parse_u64(spec_trim(line.take(k))), spec_parse_u64(spec_trim(rest)))
        }
    } else {
        (0u64, 0u64)
    }
}

/// Exec mirror of `is_space`.
pub fn is_space_char(c: char) -> (r: bool)
    ensures
        r == is_space(c),
{
    c == ' ' || c == '\t' || c == '\r' || c == '\n'
}

/// First occurrence of one character, if any.
pub fn find_char(s: &str, c: char) -> (r: Option<usize>)
    ensures
        match r {
            Some(i) => is_first_char(s@, c, i as int),
            None => !has_char(s@, c),
        },
{
    let n = s.unicode_len();
    let mut i: usize = 0;
    while i < n
        invariant
            n == s@.len(),
            i <= n,
            forall|j: int| 0 <= j < i ==> s@[j] != c,
        decreases n - i,
    {
        if s.get_char(i) == c {
            return Some(i);
        }
        i += 1;
    }
    None
}

/// A digit string already seen is never shrunk by reading more digits.
proof fn lemma_digits_nonneg(s: Seq<char>)
    requires
        all_digits(s),
    ensures
        digits_val(s) >= 0,
    decreases s.len(),
{
    if s.len() > 0 {
        assert(all_digits(s.drop_last()));
        lemma_digits_nonneg(s.drop_last());
    }
}

/// The value of the whole digit string dominates the value of any prefix.
proof fn lemma_digits_prefix(s: Seq<char>, i: int)
    requires
        all_digits(s),
        0 <= i <= s.len(),
    ensures
        digits_val(s) >= digits_val(s.take(i)),
    decreases s.len() - i,
{
    if i == s.len() {
        assert(s.take(i) =~= s);
    } else {
        assert(s.take(i + 1).drop_last() =~= s.take(i));
        assert(s.take(i + 1).last() == s[i]);
        assert(all_digits(s.take(i)));
        lemma_digits_nonneg(s.take(i));
        assert(digits_val(s.take(i + 1)) >= digits_val(s.take(i)));
        lemma_digits_prefix(s, i + 1);
    }
}

/// Read a digit string as a number, with zero as the fallback for an empty
/// string, a stray character, or overflow.
pub fn parse_u64_or_zero(s: &str) -> (r: u64)
    ensures
        r == spec_parse_u64(s@),
{
    let n = s.unicode_len();
    if n == 0 {
        return 0;
    }
    let mut acc: u64 = 0;
    let mut i: usize = 0;
    while i < n
        invariant
            n == s@.len(),
            i <= n,
            forall|k: int| 0 <= k < i ==> is_digit(s@[k]),
            acc as int == digits_val(s@.take(i as int)),
        decreases n - i,
    {
        let c = s.get_char(i);
        if !('0' <= c && c <= '9') {
            assert(!all_digits(s@));
            return 0;
        }
        let d = (c as u8 - 48) as u64;
        assert(d as int == digit_val(c));
        if acc > 1844674407370955161u64 || (acc == 1844674407370955161u64 && d > 5) {
            proof {
                assert(s@.take(i as int + 1).drop_last() =~= s@.take(i as int));
                assert(digits_val(s@.take(i as int + 1)) > u64::MAX);
                if all_digits(s@) {
                    lemma_digits_prefix(s@, i as int + 1);
                }
            }
            return 0;
        }
        proof {
            assert(s@.take(i as int + 1).drop_last() =~= s@.take(i as int));
            assert(s@.take(i as int + 1).last() == s@[i as int]);
        }
        acc = acc * 10 + d;
        i += 1;
    }
    proof {
        assert(s@.take(n as int) =~= s@);
    }
    acc
}

/// Whitespace stripped from both ends, then read as a number.
pub fn parse_trimmed(s: &str) -> (r: u64)
    ensures
        r == spec_parse_u64(spec_trim(s@)),
{
    let n = s.unicode_len();
    let mut a: usize = 0;
    while a < n && is_space_char(s.get_char(a))
        invariant
            n == s@.len(),
            a <= n,
            forall|k: int| 0 <= k < a ==> is_space(s@[k]),
        decreases n - a,
    {
        a += 1;
    }
    let mut b: usize = n;
    while b > a && is_space_char(s.get_char(b - 1))
        invariant
            a <= b <= n,
            n == s@.len(),
            forall|k: int| b <= k < n ==> is_space(s@[k]),
        decreases b,
    {
        b -= 1;
    }
    proof {
        lemma_trim_front_skip(s@, a as int);
        lemma_trim_back_take(s@.skip(a as int), b - a);
        assert(s@.skip(a as int).take(b - a) =~= s@.subrange(a as int, b as int));
    }
    parse_u64_or_zero(s.substring_char(a, b))
}

/// Stripping leading whitespace is dropping the leading run of spaces.
proof fn lemma_trim_front_skip(s: Seq<char>, i: int)
    requires
        0 <= i <= s.len(),
        forall|k: int| 0 <= k < i ==> is_space(s[k]),
        i == s.len() || !is_space(s[i]),
    ensures
        spec_trim_front(s) == s.skip(i),
    decreases i,
{
    if i == 0 {
        assert(s.skip(0) =~= s);
    } else {
        assert(is_space(s[0]));
        assert(s.drop_first() =~= s.skip(1));
        lemma_trim_front_skip(s.skip(1), i - 1);
        assert(s.skip(1).skip(i - 1) =~= s.skip(i));
    }
}

/// Stripping trailing whitespace is keeping everything before the trailing
/// run of spaces.
proof fn lemma_trim_back_take(s: Seq<char>, j: int)
    requires
        0 <= j <= s.len(),
        forall|k: int| j <= k < s.len() ==> is_space(s[k]),
        j == 0 || !is_space(s[j - 1]),
    ensures
        spec_trim_back(s) == s.take(j),
    decreases s.len() - j,
{
    if j == s.len() {
        assert(s.take(j) =~= s);
    } else {
        assert(is_space(s.last()));
        lemma_trim_back_take(s.drop_last(), j);
        assert(s.drop_last().take(j) =~= s.take(j));
    }
}

/// What the original probe computes from the raw output: the (used, total)
/// pair of the first CSV line, or (0, 0) on any malformed output.
pub fn parse_vram_output(out: &str) -> (r: (u64, u64))
    ensures
        r == spec_vram(out@),
{
    let n = out.unicode_len();
    let line_end = match find_char(out, '\n') {
        Some(i) => {
            proof {
                lemma_exists_first_char(out@, '\n', i as int);
            }
            i
        },
        None => n,
    };
    let line_end = if line_end > 0 && out.get_char(line_end - 1) == '\r' {
        line_end - 1
    } else {
        line_end
    };
    let line = out.substring_char(0, line_end);
    proof {
        assert(line@ =~= spec_line(out@));
    }
    let lm = line.unicode_len();
    match find_char(line, ',') {
        None => (0, 0),
        Some(k) => {
            proof {
                lemma_exists_first_char(line@, ',', k as int);
            }
            let rest = line.substring_char(k + 1, lm);
            proof {
                assert(rest@ =~= spec_line(out@).skip(k as int + 1));
            }
            match find_char(rest, ',') {
                Some(_) => (0, 0),
                None => {
                    let first = line.substring_char(0, k);
                    proof {
                        assert(first@ =~= spec_line(out@).take(k as int));
                    }
                    (parse_trimmed(first), parse_trimmed(rest))
                },
            }
        },
    }
}

} // verus!
