//! Low-level text scanning used by the version parser.
//!
//! Everything here works on views of strings (`Seq<char>`); the executable
//! functions return positions and numbers proved equal to the corresponding
//! specification functions.

use vstd::prelude::*;

verus! {

/// Horizontal whitespace inside a line (a carriage return before a line
/// feed counts as line-internal whitespace).
pub open spec fn is_ws(c: char) -> bool {
    c == ' ' || c == '\t' || c == '\r'
}

/// ASCII decimal digit.
pub open spec fn is_digit(c: char) -> bool {
    48 <= c as u32 && c as u32 <= 57
}

/// Numeric value of an ASCII decimal digit.
pub open spec fn digit_val(c: char) -> nat {
    (c as u32 - 48) as nat
}

/// Value of a digit sequence read in base ten.
pub open spec fn digits_val(s: Seq<char>) -> nat
    decreases s.len(),
{
    if s.len() == 0 {
        0
    } else {
        digits_val(s.drop_last()) * 10 + digit_val(s.last())
    }
}

pub open spec fn is_digit_seq(s: Seq<char>) -> bool {
    forall|i: int| 0 <= i < s.len() ==> is_digit(s[i])
}

/// A strictly valid numeric version component: non-empty, all digits, no
/// leading zero, and small enough for a `u64`.
pub open spec fn valid_number(s: Seq<char>) -> bool {
    &&& s.len() > 0
    &&& is_digit_seq(s)
    &&& (s.len() == 1 || s[0] != '0')
    &&& digits_val(s) <= u64::MAX
}

pub open spec fn number_of(s: Seq<char>) -> u64 {
    digits_val(s) as u64
}

/// Position of the first occurrence of `c` at or after `from`; the length of
/// `s` when there is none.
pub open spec fn find_from(s: Seq<char>, from: nat, c: char) -> nat
    decreases s.len() - from,
{
    if from >= s.len() {
        s.len()
    } else if s[from as int] == c {
        from
    } else {
        find_from(s, from + 1, c)
    }
}

/// Position of the first non-whitespace character at or after `from`.
pub open spec fn skip_ws_from(s: Seq<char>, from: nat) -> nat
    decreases s.len() - from,
{
    if from >= s.len() {
        s.len()
    } else if is_ws(s[from as int]) {
        skip_ws_from(s, from + 1)
    } else {
        from
    }
}

/// Position of the first non-digit character at or after `from`.
pub open spec fn digit_run_end(s: Seq<char>, from: nat) -> nat
    decreases s.len() - from,
{
    if from >= s.len() {
        s.len()
    } else if is_digit(s[from as int]) {
        digit_run_end(s, from + 1)
    } else {
        from
    }
}

pub open spec fn starts_with(s: Seq<char>, prefix: Seq<char>) -> bool {
    prefix.len() <= s.len() && (forall|i: int| 0 <= i < prefix.len() ==> s[i] == prefix[i])
}

pub proof fn lemma_find_from_bounds(s: Seq<char>, from: nat, c: char)
    requires
        from <= s.len(),
    ensures
        from <= find_from(s, from, c) <= s.len(),
        find_from(s, from, c) < s.len() ==> s[find_from(s, from, c) as int] == c,
        forall|i: int| from <= i < find_from(s, from, c) ==> s[i] != c,
    decreases s.len() - from,
{
    if from < s.len() && s[from as int] != c {
        lemma_find_from_bounds(s, from + 1, c);
    }
}

pub proof fn lemma_skip_ws_bounds(s: Seq<char>, from: nat)
    requires
        from <= s.len(),
    ensures
        from <= skip_ws_from(s, from) <= s.len(),
    decreases s.len() - from,
{
    if from < s.len() && is_ws(s[from as int]) {
        lemma_skip_ws_bounds(s, from + 1);
    }
}

pub proof fn lemma_digit_run_bounds(s: Seq<char>, from: nat)
    requires
        from <= s.len(),
    ensures
        from <= digit_run_end(s, from) <= s.len(),
    decreases s.len() - from,
{
    if from < s.len() && is_digit(s[from as int]) {
        lemma_digit_run_bounds(s, from + 1);
    }
}

/// Appending digits never shrinks the value of a digit sequence.
pub proof fn lemma_digits_val_prefix(s: Seq<char>, k: int)
    requires
        0 <= k <= s.len(),
    ensures
        digits_val(s.subrange(0, k)) <= digits_val(s),
    decreases s.len() - k,
{
    if k < s.len() {
        lemma_digits_val_prefix(s, k + 1);
        assert(s.subrange(0, k + 1).drop_last() =~= s.subrange(0, k));
        assert(digits_val(s.subrange(0, k + 1)) == digits_val(s.subrange(0, k)) * 10
            + digit_val(s.subrange(0, k + 1).last()));
    } else {
        assert(s.subrange(0, k) =~= s);
    }
}

/// First occurrence of `c` in the window `[from, end)` of `s`, given as a
/// position relative to `start`; `end - start` when there is none. The
/// contract speaks of the window's view `s@.subrange(start, end)`.
pub fn window_find(s: &str, start: usize, end: usize, from: usize, c: char) -> (r: usize)
    requires
        start <= end <= s@.len(),
        from <= end - start,
    ensures
        r == find_from(s@.subrange(start as int, end as int), from as nat, c),
        r <= end - start,
{
    let ghost line = s@.subrange(start as int, end as int);
    let mut i: usize = from;
    while i < end - start
        invariant
            start <= end <= s@.len(),
            from <= i <= end - start,
            line == s@.subrange(start as int, end as int),
            find_from(line, from as nat, c) == find_from(line, i as nat, c),
        decreases end - start - i,
    {
        if s.get_char(start + i) == c {
            assert(line[i as int] == s@[start + i as int]);
            assert(find_from(line, i as nat, c) == i);
            return i;
        }
        assert(line[i as int] != c);
        assert(find_from(line, i as nat, c) == find_from(line, (i + 1) as nat, c));
        i = i + 1;
    }
    assert(find_from(line, i as nat, c) == line.len());
    end - start
}

/// First non-whitespace position in the window `[from, end)` of `s`,
/// relative to `start`; `end - start` when all of it is whitespace.
pub fn window_skip_ws(s: &str, start: usize, end: usize, from: usize) -> (r: usize)
    requires
        start <= end <= s@.len(),
        from <= end - start,
    ensures
        r == skip_ws_from(s@.subrange(start as int, end as int), from as nat),
        r <= end - start,
{
    let ghost line = s@.subrange(start as int, end as int);
    let mut i: usize = from;
    while i < end - start
        invariant
            start <= end <= s@.len(),
            from <= i <= end - start,
            line == s@.subrange(start as int, end as int),
            skip_ws_from(line, from as nat) == skip_ws_from(line, i as nat),
        decreases end - start - i,
    {
        let ch = s.get_char(start + i);
        assert(line[i as int] == s@[start + i as int]);
        if !(ch == ' ' || ch == '\t' || ch == '\r') {
            assert(skip_ws_from(line, i as nat) == i);
            return i;
        }
        assert(skip_ws_from(line, i as nat) == skip_ws_from(line, (i + 1) as nat));
        i = i + 1;
    }
    assert(skip_ws_from(line, i as nat) == line.len());
    end - start
}

/// First non-digit position in the window `[from, end)` of `s`, relative to
/// `start`; `end - start` when digits run to the end of the window.
pub fn window_digit_run_end(s: &str, start: usize, end: usize, from: usize) -> (r: usize)
    requires
        start <= end <= s@.len(),
        from <= end - start,
    ensures
        r == digit_run_end(s@.subrange(start as int, end as int), from as nat),
        r <= end - start,
{
    let ghost line = s@.subrange(start as int, end as int);
    let mut i: usize = from;
    while i < end - start
        invariant
            start <= end <= s@.len(),
            from <= i <= end - start,
            line == s@.subrange(start as int, end as int),
            digit_run_end(line, from as nat) == digit_run_end(line, i as nat),
        decreases end - start - i,
    {
        let ch = s.get_char(start + i);
        assert(line[i as int] == s@[start + i as int]);
        let cv = ch as u32;
        if cv < 48 || cv > 57 {
            assert(digit_run_end(line, i as nat) == i);
            return i;
        }
        assert(digit_run_end(line, i as nat) == digit_run_end(line, (i + 1) as nat));
        i = i + 1;
    }
    assert(digit_run_end(line, i as nat) == line.len());
    end - start
}

/// Does the window `[start, end)` of `s` start with `prefix`?
pub fn window_starts_with(s: &str, start: usize, end: usize, prefix: &str) -> (r: bool)
    requires
        start <= end <= s@.len(),
    ensures
        r == starts_with(s@.subrange(start as int, end as int), prefix@),
{
    let ghost line = s@.subrange(start as int, end as int);
    let plen = prefix.unicode_len();
    if plen > end - start {
        return false;
    }
    let mut i: usize = 0;
    while i < plen
        invariant
            start <= end <= s@.len(),
            0 <= i <= plen,
            plen == prefix@.len(),
            plen <= end - start,
            line == s@.subrange(start as int, end as int),
            forall|j: int| 0 <= j < i ==> line[j] == prefix@[j],
        decreases plen - i,
    {
        if s.get_char(start + i) != prefix.get_char(i) {
            assert(line[i as int] == s@[start + i as int]);
            return false;
        }
        assert(line[i as int] == s@[start + i as int]);
        i = i + 1;
    }
    true
}

/// Reads the number in the window `[from, to)` of `s`: `Some` exactly when
/// that window is a strictly valid numeric component (digits only, no
/// leading zero, value at most `u64::MAX`), and then its value.
pub fn parse_number(s: &str, from: usize, to: usize) -> (r: Option<u64>)
    requires
        from <= to <= s@.len(),
    ensures
        match r {
            Some(v) => valid_number(s@.subrange(from as int, to as int)) && v == number_of(
                s@.subrange(from as int, to as int),
            ),
            None => !valid_number(s@.subrange(from as int, to as int)),
        },
{
    let ghost num = s@.subrange(from as int, to as int);
    if from == to {
        return None;
    }
    let first = s.get_char(from);
    assert(num[0] == s@[from as int]);
    if first == '0' && to - from > 1 {
        return None;
    }
    let mut acc: u64 = 0;
    let mut i: usize = from;
    while i < to
        invariant
            from <= i <= to <= s@.len(),
            num == s@.subrange(from as int, to as int),
            num.len() == to - from,
            is_digit_seq(num.subrange(0, i - from)),
            acc == digits_val(num.subrange(0, i - from)),
            acc <= u64::MAX,
        decreases to - i,
    {
        let ch = s.get_char(i);
        assert(num[i - from] == s@[i as int]);
        let cv = ch as u32;
        if cv < 48 || cv > 57 {
            assert(!is_digit(num[i - from]));
            return None;
        }
        let wide: u128 = (acc as u128) * 10 + ((cv - 48) as u128);
        proof {
            assert(num.subrange(0, i - from + 1).drop_last() =~= num.subrange(0, i - from));
            assert(num.subrange(0, i - from + 1).last() == num[i - from]);
        }
        if wide > u64::MAX as u128 {
            proof {
                lemma_digits_val_prefix(num, i - from + 1);
                if is_digit_seq(num) {
                    assert(digits_val(num) > u64::MAX);
                }
            }
            return None;
        }
        acc = wide as u64;
        i = i + 1;
    }
    proof {
        assert(num.subrange(0, to - from) =~= num);
    }
    Some(acc)
}

} // verus!
