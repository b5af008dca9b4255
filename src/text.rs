//! Small operations on text: searching, comparing and reading decimals.
use vstd::prelude::*;

verus! {

/// Index of the first occurrence of `c` in `s`, if any.
pub open spec fn first_index_of(s: Seq<char>, c: char) -> Option<int> {
    if exists|i: int| 0 <= i < s.len() && s[i] == c {
        Some(choose|i: int| 0 <= i < s.len() && s[i] == c && forall|j: int| 0 <= j < i ==> s[j] != c)
    } else {
        None
    }
}

/// Value of a decimal digit character.
pub open spec fn digit_value(c: char) -> nat {
    (c as u32 - '0' as u32) as nat
}

pub open spec fn is_digit(c: char) -> bool {
    '0' <= c && c <= '9'
}

pub open spec fn all_digits(s: Seq<char>) -> bool {
    forall|i: int| 0 <= i < s.len() ==> is_digit(#[trigger] s[i])
}

/// The number written by a sequence of decimal digits.
pub open spec fn digits_value(s: Seq<char>) -> nat
    decreases s.len(),
{
    if s.len() == 0 {
        0
    } else {
        digits_value(s.drop_last()) * 10 + digit_value(s.last())
    }
}

/// The digits of an unsigned decimal: all of `s`, or what follows one leading `+`.
pub open spec fn unsigned_digits(s: Seq<char>) -> Seq<char> {
    if s.len() > 0 && s[0] == '+' {
        s.skip(1)
    } else {
        s
    }
}

/// How an unsigned 32-bit decimal reads: an optional `+`, then at least one
/// digit and nothing else, with a value that fits in 32 bits.
pub open spec fn decimal_u32(s: Seq<char>) -> Option<u32> {
    let d = unsigned_digits(s);
    if d.len() > 0 && all_digits(d) && digits_value(d) <= u32::MAX {
        Some(digits_value(d) as u32)
    } else {
        None
    }
}

proof fn lemma_digits_value_prefix(s: Seq<char>, k: int)
    requires
        0 <= k <= s.len(),
        all_digits(s),
    ensures
        digits_value(s.take(k)) <= digits_value(s),
    decreases s.len() - k,
{
    if k < s.len() {
        lemma_digits_value_prefix(s, k + 1);
        assert(s.take(k + 1).drop_last() =~= s.take(k));
    } else {
        assert(s.take(k) =~= s);
    }
}

/// Position of the first `c` in `s`.
pub fn find_char(s: &str, c: char) -> (r: Option<usize>)
    ensures
        match r {
            Some(i) => i < s@.len() && first_index_of(s@, c) == Some(i as int),
            None => first_index_of(s@, c) is None,
        },
{
    let n = s.unicode_len();
    let mut i: usize = 0;
    while i < n
        invariant
            n == s@.len(),
            i <= n,
            forall|j: int| 0 <= j < i ==> s@[j] != c,
        decreases n - i,
    {
        if s.get_char(i) == c {
            assert(0 <= i < s@.len() && s@[i as int] == c && forall|j: int| 0 <= j < i ==> s@[j] != c);
            return Some(i);
        }
        i = i + 1;
    }
    None
}

/// Whether two texts hold the same characters.
pub fn same_text(a: &str, b: &str) -> (r: bool)
    ensures
        r == (a@ == b@),
{
    let n = a.unicode_len();
    if n != b.unicode_len() {
        return false;
    }
    let mut i: usize = 0;
    while i < n
        invariant
            n == a@.len(),
            n == b@.len(),
            i <= n,
            forall|j: int| 0 <= j < i ==> a@[j] == b@[j],
        decreases n - i,
    {
        if a.get_char(i) != b.get_char(i) {
            return false;
        }
        i = i + 1;
    }
    assert(a@ =~= b@);
    true
}

/// Reads an unsigned 32-bit decimal, as `str::parse::<u32>` does.
pub fn parse_u32(s: &str) -> (r: Option<u32>)
    ensures
        r == decimal_u32(s@),
{
    let n = s.unicode_len();
    let mut i: usize = 0;
    if n > 0 && s.get_char(0) == '+' {
        i = 1;
    }
    let ghost d = unsigned_digits(s@);
    assert(d =~= s@.skip(i as int));
    if i >= n {
        return None;
    }
    let start = i;
    let mut acc: u64 = 0;
    while i < n
        invariant
            start <= i <= n,
            n == s@.len(),
            d =~= s@.skip(start as int),
            d == unsigned_digits(s@),
            all_digits(d.take(i - start)),
            acc as nat == digits_value(d.take(i - start)),
            acc <= u32::MAX,
        decreases n - i,
    {
        let c = s.get_char(i);
        let ghost k: int = i - start;
        assert(d[k] == c);
        if c < '0' || c > '9' {
            assert(!is_digit(d[k]));
            assert(!all_digits(d));
            return None;
        }
        let v = (c as u32 - '0' as u32) as u64;
        let next = acc * 10 + v;
        assert(d.take(k + 1).drop_last() =~= d.take(k));
        assert(d.take(k + 1).last() == c);
        assert(all_digits(d.take(k + 1)));
        assert(digits_value(d.take(k + 1)) == next);
        if next > u32::MAX as u64 {
            proof {
                if all_digits(d) {
                    lemma_digits_value_prefix(d, k + 1);
                }
            }
            return None;
        }
        acc = next;
        i = i + 1;
    }
    assert(d.take(n - start) =~= d);
    Some(acc as u32)
}

} // verus!
