use vstd::prelude::*;

verus! {

/// The value of a decimal number written with an optional leading `+`
/// followed by one or more digits, as Rust's integer parsing reads it; `None`
/// for any other text.
pub open spec fn decimal_value(s: Seq<char>) -> Option<nat> {
    if s.len() > 0 && s[0] == '+' {
        digits_value(s.drop_first())
    } else {
        digits_value(s)
    }
}

/// The value of one or more decimal digits; `None` when `s` is empty or holds another character.
pub open spec fn digits_value(s: Seq<char>) -> Option<nat>
    decreases s.len(),
{
    if s.len() == 0 {
        None
    } else if !('0' <= s.last() <= '9') {
        None
    } else if s.len() == 1 {
        Some((s.last() as nat - '0' as nat) as nat)
    } else {
        match digits_value(s.drop_last()) {
            Some(v) => Some(v * 10 + (s.last() as nat - '0' as nat) as nat),
            None => None,
        }
    }
}

/// What parsing `s` as an unsigned integer no larger than `max` gives.
pub open spec fn parsed_below(s: Seq<char>, max: nat) -> Option<nat> {
    match decimal_value(s) {
        Some(v) => if v <= max {
            Some(v)
        } else {
            None
        },
        None => None,
    }
}

/// A string with a character that is not a digit has no digits value.
proof fn lemma_digits_none_extends(s: Seq<char>, k: int)
    requires
        0 <= k < s.len(),
        !('0' <= s[k] <= '9'),
    ensures
        digits_value(s) is None,
    decreases s.len(),
{
    if k < s.len() - 1 {
        assert(s.drop_last()[k] == s[k]);
        lemma_digits_none_extends(s.drop_last(), k);
    }
}

/// Appending digits never makes a number smaller.
proof fn lemma_digits_grow(s: Seq<char>, j: int)
    requires
        1 <= j <= s.len(),
        digits_value(s) is Some,
        digits_value(s.take(j)) is Some,
    ensures
        digits_value(s).unwrap() >= digits_value(s.take(j)).unwrap(),
    decreases s.len(),
{
    if j == s.len() {
        assert(s.take(j) =~= s);
    } else {
        let p = s.drop_last();
        assert(p.take(j) =~= s.take(j));
        assert(s.len() > 1);
        lemma_digits_grow(p, j);
    }
}

/// A string whose first `k + 1` digits already exceed `max` does not parse within `max`.
proof fn lemma_digits_exceed(s: Seq<char>, k: int, max: nat)
    requires
        0 <= k < s.len(),
        digits_value(s.take(k + 1)) is Some,
        digits_value(s.take(k + 1)).unwrap() > max,
    ensures
        match digits_value(s) {
            Some(v) => v > max,
            None => true,
        },
{
    if digits_value(s) is Some {
        lemma_digits_grow(s, k + 1);
    }
}

/// Whether `s` starts with `prefix`.
pub open spec fn has_prefix(s: Seq<char>, prefix: Seq<char>) -> bool {
    prefix.len() <= s.len() && s.subrange(0, prefix.len() as int) == prefix
}

/// What follows `prefix` in `s`.
pub open spec fn after_prefix(s: Seq<char>, prefix: Seq<char>) -> Seq<char> {
    s.subrange(prefix.len() as int, s.len() as int)
}

/// The parts of `s` before and after the first occurrence of `sep`, if `sep` occurs.
pub open spec fn first_split(s: Seq<char>, sep: char) -> Option<(Seq<char>, Seq<char>)> {
    if s.contains(sep) {
        let k = first_index(s, sep);
        Some((s.subrange(0, k), s.subrange(k + 1, s.len() as int)))
    } else {
        None
    }
}

/// The position of the first occurrence of `sep` in `s` (meaningful when `sep` occurs).
pub open spec fn first_index(s: Seq<char>, sep: char) -> int {
    choose|k: int| 0 <= k < s.len() && #[trigger] s[k] == sep && !s.subrange(0, k).contains(sep)
}

/// Whether two strings hold the same characters.
pub fn str_eq(a: &str, b: &str) -> (r: bool)
    ensures
        r == (a@ == b@),
{
    let n = a.unicode_len();
    if n != b.unicode_len() {
        return false;
    }
    let mut i: usize = 0;
    while i < n
        invariant
            n == a@.len(),
            n == b@.len(),
            i <= n,
            forall|j: int| 0 <= j < i ==> a@[j] == b@[j],
        decreases n - i,
    {
        if a.get_char(i) != b.get_char(i) {
            return false;
        }
        i = i + 1;
    }
    assert(a@ =~= b@);
    true
}

/// The rest of `s` after `prefix`, when `s` starts with `prefix`.
pub fn strip_prefix<'a>(s: &'a str, prefix: &str) -> (r: Option<&'a str>)
    ensures
        match r {
            Some(rest) => has_prefix(s@, prefix@) && rest@ == after_prefix(s@, prefix@),
            None => !has_prefix(s@, prefix@),
        },
{
    let n = s.unicode_len();
    let p = prefix.unicode_len();
    if p > n {
        return None;
    }
    let head = s.substring_char(0, p);
    if !str_eq(head, prefix) {
        return None;
    }
    let rest = s.substring_char(p, n);
    Some(rest)
}

/// Splits `s` at the first occurrence of `sep`, leaving `sep` out.
pub fn split_once<'a>(s: &'a str, sep: char) -> (r: Option<(&'a str, &'a str)>)
    ensures
        match r {
            Some((before, after)) => first_split(s@, sep) == Some((before@, after@)),
            None => first_split(s@, sep) is None,
        },
{
    let n = s.unicode_len();
    let mut i: usize = 0;
    while i < n
        invariant
            n == s@.len(),
            i <= n,
            forall|j: int| 0 <= j < i ==> s@[j] != sep,
        decreases n - i,
    {
        if s.get_char(i) == sep {
            let before = s.substring_char(0, i);
            let after = s.substring_char(i + 1, n);
            proof {
                assert(!s@.subrange(0, i as int).contains(sep)) by {
                    if s@.subrange(0, i as int).contains(sep) {
                        let j = choose|j: int| 0 <= j < i && s@.subrange(0, i as int)[j] == sep;
                        assert(s@[j] == sep);
                    }
                }
                assert(s@.contains(sep));
                assert(0 <= i < s@.len() && s@[i as int] == sep && !s@.subrange(0, i as int).contains(sep));
                let k = first_index(s@, sep);
                assert(0 <= k < s@.len() && s@[k] == sep && !s@.subrange(0, k).contains(sep));
                assert(k == i) by {
                    if k > i {
                        assert(s@.subrange(0, k)[i as int] == sep);
                    }
                }
                assert(first_split(s@, sep) == Some((before@, after@)));
            }
            return Some((before, after));
        }
        i = i + 1;
    }
    proof {
        if s@.contains(sep) {
            let j = choose|j: int| 0 <= j < s@.len() && s@[j] == sep;
        }
    }
    None
}

/// Parses `s` as a decimal unsigned integer no larger than `max`, as Rust's
/// integer parsing does: an optional `+`, then one or more digits; `None`
/// when the text is not such a number or the number exceeds `max`.
pub fn parse_unsigned(s: &str, max: u64) -> (r: Option<u64>)
    ensures
        match r {
            Some(v) => parsed_below(s@, max as nat) == Some(v as nat),
            None => parsed_below(s@, max as nat) is None,
        },
{
    let n = s.unicode_len();
    let mut start: usize = 0;
    if n > 0 && s.get_char(0) == '+' {
        start = 1;
    }
    let ghost digits = s@.subrange(start as int, n as int);
    proof {
        if start == 1 {
            assert(digits =~= s@.drop_first());
        } else {
            assert(digits =~= s@);
        }
        assert(decimal_value(s@) == digits_value(digits));
    }
    if start >= n {
        return None;
    }
    let mut value: u64 = 0;
    let mut i: usize = start;
    while i < n
        invariant
            n == s@.len(),
            start < n,
            start <= i <= n,
            digits == s@.subrange(start as int, n as int),
            decimal_value(s@) == digits_value(digits),
            value <= max,
            i == start ==> value == 0,
            i > start ==> digits_value(s@.subrange(start as int, i as int)) == Some(value as nat),
        decreases n - i,
    {
        let c = s.get_char(i);
        let ghost part = s@.subrange(start as int, i + 1);
        proof {
            assert(part.last() == c);
            assert(part.drop_last() =~= s@.subrange(start as int, i as int));
            assert(part =~= digits.take(i + 1 - start));
            assert(digits[i - start] == c);
        }
        if !('0' <= c && c <= '9') {
            proof {
                lemma_digits_none_extends(digits, (i - start) as int);
            }
            return None;
        }
        let d = (c as u64) - ('0' as u64);
        proof {
            assert(d == c as nat - '0' as nat);
            assert(digits_value(part) == Some((value * 10 + d) as nat));
        }
        let next: u128 = (value as u128) * 10 + (d as u128);
        if next > max as u128 {
            proof {
                lemma_digits_exceed(digits, (i - start) as int, max as nat);
            }
            return None;
        }
        value = next as u64;
        i = i + 1;
    }
    proof {
        assert(s@.subrange(start as int, n as int) =~= digits);
    }
    Some(value)
}

} // verus!
