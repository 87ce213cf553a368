//! Verified helpers on `&str` values: character search, equality,
//! splitting on a separator, and decimal integer parsing.

use vstd::prelude::*;
use vstd::string::StrSliceExecFns;

verus! {

/// Index of the first occurrence of `c` in `s` at or after `from`;
/// `s.len()` when there is none.
pub open spec fn find_from(s: Seq<char>, from: int, c: char) -> int
    decreases s.len() - from,
{
    if from < 0 || from >= s.len() {
        s.len() as int
    } else if s[from] == c {
        from
    } else {
        find_from(s, from + 1, c)
    }
}

/// `find_from` returns exactly the position `k` when nothing before `k`
/// matches and `k` is a match or the end.
pub proof fn lemma_find_from_is(s: Seq<char>, from: int, c: char, k: int)
    requires
        0 <= from <= k <= s.len(),
        forall|t: int| from <= t < k ==> s[t] != c,
        k == s.len() || s[k] == c,
    ensures
        find_from(s, from, c) == k,
    decreases k - from,
{
    if from < k {
        lemma_find_from_is(s, from + 1, c, k);
    }
}

/// Position, character and prefix facts about `find_from`.
pub proof fn lemma_find_from_props(s: Seq<char>, from: int, c: char)
    requires
        0 <= from <= s.len(),
    ensures
        from <= find_from(s, from, c) <= s.len(),
        find_from(s, from, c) < s.len() ==> s[find_from(s, from, c)] == c,
        forall|t: int| from <= t < find_from(s, from, c) ==> s[t] != c,
    decreases s.len() - from,
{
    if from < s.len() && s[from] != c {
        lemma_find_from_props(s, from + 1, c);
    }
}

/// First index of `c` in `s` at or after `from`; `s@.len()` when absent.
pub fn find_char(s: &str, from: usize, c: char) -> (r: usize)
    requires
        from <= s@.len(),
    ensures
        r == find_from(s@, from as int, c),
{
    let n = s.unicode_len();
    let mut j = from;
    while j < n
        invariant
            from <= j <= n,
            n == s@.len(),
            forall|t: int| from <= t < j ==> s@[t] != c,
        decreases n - j,
    {
        if s.get_char(j) == c {
            proof {
                lemma_find_from_is(s@, from as int, c, j as int);
            }
            return j;
        }
        j += 1;
    }
    proof {
        lemma_find_from_is(s@, from as int, c, n as int);
    }
    n
}

/// Character-wise string equality, decided at the level of views.
pub fn str_eq(a: &str, b: &str) -> (r: bool)
    ensures
        r == (a@ == b@),
{
    let na = a.unicode_len();
    let nb = b.unicode_len();
    if na != nb {
        return false;
    }
    let mut i: usize = 0;
    while i < na
        invariant
            0 <= i <= na,
            na == a@.len(),
            nb == b@.len(),
            na == nb,
            forall|t: int| 0 <= t < i ==> a@[t] == b@[t],
        decreases na - i,
    {
        let ca = a.get_char(i);
        let cb = b.get_char(i);
        if ca != cb {
            return false;
        }
        i += 1;
    }
    proof {
        assert(a@ =~= b@);
    }
    true
}

/// A decimal digit.
pub open spec fn is_digit(c: char) -> bool {
    48 <= c as int <= 57
}

/// Numeric value of a digit character.
pub open spec fn digit_val(c: char) -> int {
    c as int - 48
}

/// Value of the digit run `s[i..]` accumulated onto `acc`; `None` at the
/// first non-digit.
pub open spec fn parse_digits(s: Seq<char>, i: int, acc: int) -> Option<int>
    decreases s.len() - i,
{
    if i < 0 || i >= s.len() {
        Some(acc)
    } else if is_digit(s[i]) {
        parse_digits(s, i + 1, acc * 10 + digit_val(s[i]))
    } else {
        None
    }
}

/// What `str::parse::<i32>` accepts: an optional sign followed by one or
/// more decimal digits, with the value in range.
pub open spec fn spec_parse_i32(s: Seq<char>) -> Option<i32> {
    let neg = s.len() > 0 && s[0] == '-';
    let signed = s.len() > 0 && (s[0] == '-' || s[0] == '+');
    let start: int = if signed {
        1
    } else {
        0
    };
    if s.len() <= start {
        None
    } else {
        match parse_digits(s, start, 0) {
            Some(v) => {
                let sv: int = if neg {
                    -v
                } else {
                    v
                };
                if i32::MIN <= sv <= i32::MAX {
                    Some(sv as i32)
                } else {
                    None
                }
            },
            None => None,
        }
    }
}

/// The accumulated value only grows along a digit run.
proof fn lemma_parse_digits_ge(s: Seq<char>, i: int, acc: int)
    requires
        0 <= acc,
    ensures
        match parse_digits(s, i, acc) {
            Some(v) => v >= acc,
            None => true,
        },
    decreases s.len() - i,
{
    if 0 <= i < s.len() && is_digit(s[i]) {
        lemma_parse_digits_ge(s, i + 1, acc * 10 + digit_val(s[i]));
    }
}

/// Decimal integer parsing with the exact acceptance and overflow
/// behaviour of `str::parse::<i32>`.
pub fn parse_i32(s: &str) -> (r: Option<i32>)
    ensures
        r == spec_parse_i32(s@),
{
    let n = s.unicode_len();
    if n == 0 {
        return None;
    }
    let first = s.get_char(0);
    let neg = first == '-';
    let signed = neg || first == '+';
    let start: usize = if signed {
        1
    } else {
        0
    };
    if n <= start {
        return None;
    }
    let mut i: usize = start;
    let mut acc: i64 = 0;
    while i < n
        invariant
            start <= i <= n,
            n == s@.len(),
            s@.len() > 0,
            first == s@[0],
            neg == (s@[0] == '-'),
            signed == (s@[0] == '-' || s@[0] == '+'),
            start as int == (if signed {
                1int
            } else {
                0int
            }),
            0 <= acc <= 0x8000_0000i64,
            parse_digits(s@, start as int, 0) == parse_digits(s@, i as int, acc as int),
        decreases n - i,
    {
        let c = s.get_char(i);
        let u = c as u32;
        if u < 48 || u > 57 {
            assert(!is_digit(s@[i as int]));
            return None;
        }
        assert(is_digit(s@[i as int]));
        let d = (u - 48) as i64;
        acc = acc * 10 + d;
        if acc > 0x8000_0000i64 {
            proof {
                lemma_parse_digits_ge(s@, i as int + 1, acc as int);
            }
            return None;
        }
        i += 1;
    }
    if neg {
        Some((-acc) as i32)
    } else if acc > 0x7fff_ffffi64 {
        None
    } else {
        Some(acc as i32)
    }
}

/// `s` split on `c`, exactly as `str::split` does it: n separators give
/// n + 1 parts, and an empty input gives one empty part.
pub open spec fn split_on(s: Seq<char>, c: char) -> Seq<Seq<char>>
    decreases s.len(),
{
    if s.len() == 0 {
        seq![Seq::<char>::empty()]
    } else if s[0] == c {
        seq![Seq::<char>::empty()] + split_on(s.drop_first(), c)
    } else {
        let r = split_on(s.drop_first(), c);
        seq![seq![s[0]] + r[0]] + r.drop_first()
    }
}

/// A split always has at least one part.
pub proof fn lemma_split_on_len(s: Seq<char>, c: char)
    ensures
        split_on(s, c).len() >= 1,
    decreases s.len(),
{
    if s.len() > 0 {
        lemma_split_on_len(s.drop_first(), c);
    }
}

/// When `s[0..k]` holds no separator and `k` is a separator position or the
/// end, the split is that prefix followed by the split of the remainder.
pub proof fn lemma_split_on_at(s: Seq<char>, c: char, k: int)
    requires
        0 <= k <= s.len(),
        forall|t: int| 0 <= t < k ==> s[t] != c,
        k == s.len() || s[k] == c,
    ensures
        k == s.len() ==> split_on(s, c) == seq![s],
        k < s.len() ==> split_on(s, c) == seq![s.subrange(0, k)] + split_on(
            s.subrange(k + 1, s.len() as int),
            c,
        ),
    decreases k,
{
    if k == 0 {
        if s.len() > 0 && s[0] == c {
            assert(s.subrange(1, s.len() as int) =~= s.drop_first());
            assert(s.subrange(0, 0) =~= Seq::<char>::empty());
            assert(split_on(s, c) =~~= seq![s.subrange(0, 0)] + split_on(
                s.subrange(1, s.len() as int),
                c,
            ));
        } else if s.len() == 0 {
            assert(split_on(s, c) =~~= seq![s]);
        }
    } else {
        let s1 = s.drop_first();
        lemma_split_on_at(s1, c, k - 1);
        lemma_split_on_len(s1, c);
        let r = split_on(s1, c);
        if k == s.len() {
            assert(r == seq![s1]);
            assert(seq![s[0]] + r[0] =~= s);
            assert(r.drop_first() =~~= Seq::<Seq<char>>::empty());
            assert(split_on(s, c) =~~= seq![s]);
        } else {
            let tail = split_on(s1.subrange(k, s1.len() as int), c);
            assert(r == seq![s1.subrange(0, k - 1)] + tail);
            assert(seq![s[0]] + r[0] =~= s.subrange(0, k));
            assert(s1.subrange(k, s1.len() as int) =~= s.subrange(k + 1, s.len() as int));
            assert(r.drop_first() =~~= tail);
            assert(split_on(s, c) =~~= seq![s.subrange(0, k)] + split_on(
                s.subrange(k + 1, s.len() as int),
                c,
            ));
        }
    }
}

/// `s` split on `c`, as owned parts.
pub fn split_str(s: &str, c: char) -> (r: Vec<String>)
    ensures
        r@.len() == split_on(s@, c).len(),
        forall|i: int| 0 <= i < r@.len() ==> (#[trigger] r@[i])@ == split_on(s@, c)[i],
{
    let n = s.unicode_len();
    let mut r: Vec<String> = Vec::new();
    let ghost mut done: Seq<Seq<char>> = Seq::empty();
    let mut start: usize = 0;
    let mut j: usize = 0;
    proof {
        assert(s@.subrange(0, n as int) =~= s@);
        assert(Seq::<Seq<char>>::empty() + split_on(s@, c) =~~= split_on(s@, c));
    }
    while j < n
        invariant
            0 <= start <= j <= n,
            n == s@.len(),
            forall|t: int| start <= t < j ==> s@[t] != c,
            done.len() == r@.len(),
            forall|i: int| 0 <= i < r@.len() ==> (#[trigger] r@[i])@ == done[i],
            split_on(s@, c) == done + split_on(s@.subrange(start as int, n as int), c),
        decreases n - j,
    {
        if s.get_char(j) == c {
            let token = s.substring_char(start, j).to_owned();
            proof {
                let suf = s@.subrange(start as int, n as int);
                assert(forall|t: int| 0 <= t < j - start ==> suf[t] != c);
                assert(suf[j - start] == c);
                lemma_split_on_at(suf, c, j - start);
                assert(suf.subrange(0, j - start) =~= s@.subrange(start as int, j as int));
                assert(suf.subrange(j - start + 1, suf.len() as int) =~= s@.subrange(
                    j as int + 1,
                    n as int,
                ));
                assert(done + split_on(suf, c) =~~= done.push(s@.subrange(start as int, j as int))
                    + split_on(s@.subrange(j as int + 1, n as int), c));
                done = done.push(token@);
            }
            r.push(token);
            start = j + 1;
        }
        j += 1;
    }
    let token = s.substring_char(start, n).to_owned();
    proof {
        let suf = s@.subrange(start as int, n as int);
        assert(forall|t: int| 0 <= t < suf.len() ==> suf[t] != c);
        lemma_split_on_at(suf, c, suf.len() as int);
        assert(done + split_on(suf, c) =~~= done.push(suf));
        done = done.push(token@);
    }
    r.push(token);
    r
}

} // verus!
