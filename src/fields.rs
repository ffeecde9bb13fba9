//! Blank-separated fields and unsigned decimal numbers in fixed point.
use vstd::prelude::*;
use crate::text::{is_blank_char, blank_char};

verus! {

/// Fields of `s` read left to right: the finished ones and the one being
/// read.
pub open spec fn field_split(s: Seq<char>) -> (Seq<Seq<char>>, Seq<char>)
    decreases s.len(),
{
    if s.len() == 0 {
        (Seq::empty(), Seq::empty())
    } else {
        let (done, cur) = field_split(s.drop_last());
        if is_blank_char(s.last()) {
            if cur.len() > 0 { (done.push(cur), Seq::empty()) } else { (done, Seq::empty()) }
        } else {
            (done, cur.push(s.last()))
        }
    }
}

/// The maximal runs of non-blank characters of `s`, in order.
pub open spec fn fields(s: Seq<char>) -> Seq<Seq<char>> {
    let (done, cur) = field_split(s);
    if cur.len() > 0 { done.push(cur) } else { done }
}

/// The runs of non-blank characters of `s`, each as the start and end index
/// of its characters.
pub fn field_bounds(s: &str) -> (r: Vec<(usize, usize)>)
    ensures
        r@.len() == fields(s@).len(),
        forall|k: int| 0 <= k < r@.len() ==> #[trigger] r@[k].0 <= r@[k].1 && r@[k].1 <= s@.len(),
        forall|k: int|
            0 <= k < r@.len() ==> s@.subrange(#[trigger] r@[k].0 as int, r@[k].1 as int) == fields(
                s@,
            )[k],
{
    let n = s.unicode_len();
    let mut done: Vec<(usize, usize)> = Vec::new();
    let mut start: usize = 0;
    let mut i: usize = 0;
    while i < n
        invariant
            n == s@.len(),
            0 <= start <= i <= n,
            done@.len() == field_split(s@.subrange(0, i as int)).0.len(),
            forall|k: int| 0 <= k < done@.len() ==> #[trigger] done@[k].0 <= done@[k].1 && done@[k].1 <= i,
            forall|k: int|
                0 <= k < done@.len() ==> s@.subrange(#[trigger] done@[k].0 as int, done@[k].1 as int)
                    == field_split(s@.subrange(0, i as int)).0[k],
            s@.subrange(start as int, i as int) == field_split(s@.subrange(0, i as int)).1,
        decreases n - i,
    {
        let ghost prev = s@.subrange(0, i as int);
        let ghost next = s@.subrange(0, i + 1);
        assert(next.drop_last() =~= prev);
        let ghost old_done = done;
        let ghost old_start = start;
        let c = s.get_char(i);
        assert(next.last() == c);
        assert(field_split(next) == (if is_blank_char(c) {
            if field_split(prev).1.len() > 0 {
                (field_split(prev).0.push(field_split(prev).1), Seq::<char>::empty())
            } else {
                (field_split(prev).0, Seq::<char>::empty())
            }
        } else {
            (field_split(prev).0, field_split(prev).1.push(c))
        }));
        if blank_char(c) {
            if start < i {
                done.push((start, i));
            }
            start = i + 1;
            assert(s@.subrange(start as int, i + 1) =~= Seq::<char>::empty());
        } else {
            assert(s@.subrange(start as int, i + 1) =~= s@.subrange(start as int, i as int).push(c));
        }
        assert forall|k: int| 0 <= k < done@.len() implies #[trigger] done@[k].0 <= done@[k].1 && done@[k].1 <= i + 1
            && s@.subrange(done@[k].0 as int, done@[k].1 as int) == field_split(next).0[k] by {
            if k < old_done@.len() {
                assert(done@[k] == old_done@[k]);
                assert(field_split(next).0[k] == field_split(prev).0[k]);
            } else {
                assert(done@[k] == (old_start, i));
            }
        }
        i = i + 1;
    }
    assert(s@.subrange(0, n as int) =~= s@);
    if start < n {
        done.push((start, n));
    }
    done
}

pub open spec fn is_digit(c: char) -> bool {
    '0' <= c <= '9'
}

pub open spec fn digit_value(c: char) -> nat {
    (c as u32 - '0' as u32) as nat
}

pub open spec fn all_digits(s: Seq<char>) -> bool {
    forall|i: int| 0 <= i < s.len() ==> is_digit(s[i])
}

/// The number that a run of decimal digits spells.
pub open spec fn digits_value(s: Seq<char>) -> nat
    decreases s.len(),
{
    if s.len() == 0 {
        0
    } else {
        digits_value(s.drop_last()) * 10 + digit_value(s.last())
    }
}

/// How many digits `s` starts with.
pub open spec fn leading_digits(s: Seq<char>) -> nat
    decreases s.len(),
{
    if s.len() > 0 && is_digit(s[0]) {
        1 + leading_digits(s.drop_first())
    } else {
        0
    }
}

/// The first three fraction digits as thousandths; later digits are cut off.
pub open spec fn fraction_milli(f: Seq<char>) -> nat {
    (if f.len() > 0 { digit_value(f[0]) * 100 } else { 0 }) + (if f.len() > 1 {
        digit_value(f[1]) * 10
    } else {
        0
    }) + (if f.len() > 2 { digit_value(f[2]) } else { 0 })
}

/// Most integer digits an accepted number may have.
pub const MAX_INTEGER_DIGITS: usize = 12;

/// An unsigned decimal number (`digits`, optionally followed by `.` and more
/// digits) in thousandths; `None` for anything else, and for more than
/// `MAX_INTEGER_DIGITS` integer digits.
pub open spec fn decimal_milli(s: Seq<char>) -> Option<nat> {
    let k = leading_digits(s) as int;
    if 1 <= k <= MAX_INTEGER_DIGITS && (k == s.len() || (s[k] == '.' && all_digits(
        s.subrange(k + 1, s.len() as int),
    ))) {
        Some(
            digits_value(s.subrange(0, k)) * 1000 + if k == s.len() {
                0
            } else {
                fraction_milli(s.subrange(k + 1, s.len() as int))
            },
        )
    } else {
        None
    }
}

proof fn lemma_leading_digits(s: Seq<char>, i: int)
    requires
        0 <= i <= s.len(),
        all_digits(s.subrange(0, i)),
        i == s.len() || !is_digit(s[i]),
    ensures
        leading_digits(s) == i,
    decreases i,
{
    if i > 0 {
        assert(s.drop_first().subrange(0, i - 1) =~= s.subrange(1, i));
        assert(s.subrange(0, i)[0] == s[0]);
        assert forall|k: int| 0 <= k < i - 1 implies is_digit(#[trigger] s.drop_first().subrange(0, i - 1)[k]) by {
            assert(s.drop_first().subrange(0, i - 1)[k] == s.subrange(0, i)[k + 1]);
        }
        lemma_leading_digits(s.drop_first(), i - 1);
    }
}

fn char_digit(c: char) -> (r: Option<u64>)
    ensures
        r is Some <==> is_digit(c),
        r matches Some(d) ==> d == digit_value(c) && d < 10,
{
    if '0' <= c && c <= '9' {
        Some((c as u32 - '0' as u32) as u64)
    } else {
        None
    }
}

/// Parses an unsigned decimal number of at most `MAX_INTEGER_DIGITS` integer
/// digits into thousandths.
pub fn parse_decimal_milli(s: &str) -> (r: Option<u64>)
    ensures
        r matches Some(v) ==> decimal_milli(s@) == Some(v as nat),
        r is None ==> decimal_milli(s@) is None,
        r matches Some(v) ==> v < 1_000_000_000_000_000,
{
    let n = s.unicode_len();
    let mut i: usize = 0;
    let mut int_part: u64 = 0;
    let mut scanning = true;
    while scanning && i < n
        invariant
            n == s@.len(),
            0 <= i <= n,
            i <= MAX_INTEGER_DIGITS,
            all_digits(s@.subrange(0, i as int)),
            int_part == digits_value(s@.subrange(0, i as int)),
            int_part < pow10(i as nat),
            pow10(i as nat) <= 1_000_000_000_000,
            !scanning ==> i < n && !is_digit(s@[i as int]),
        decreases (n - i) as int + if scanning { 1int } else { 0int },
    {
        match char_digit(s.get_char(i)) {
            None => {
                scanning = false;
            },
            Some(d) => {
                if i == MAX_INTEGER_DIGITS {
                    assert(all_digits(s@.subrange(0, i + 1)));
                    proof {
                        lemma_leading_digits_at_least(s@, (i + 1) as int);
                    }
                    return None;
                }
                assert(s@.subrange(0, i + 1).drop_last() =~= s@.subrange(0, i as int));
                proof {
                    lemma_digits_bound(s@.subrange(0, i + 1));
                    lemma_pow10_small((i + 1) as nat);
                }
                int_part = int_part * 10 + d;
                i = i + 1;
            },
        }
    }
    proof {
        lemma_leading_digits(s@, i as int);
    }
    if i == 0 {
        return None;
    }
    if i == n {
        assert(s@.subrange(0, i as int) =~= s@);
        return Some(int_part * 1000);
    }
    if s.get_char(i) != '.' {
        return None;
    }
    let mut frac: u64 = 0;
    let mut j: usize = i + 1;
    while j < n
        invariant
            n == s@.len(),
            0 < i < n,
            i <= MAX_INTEGER_DIGITS,
            i + 1 <= j <= n,
            leading_digits(s@) == i,
            s@[i as int] == '.',
            int_part == digits_value(s@.subrange(0, i as int)),
            int_part < 1_000_000_000_000,
            all_digits(s@.subrange(i + 1, j as int)),
            frac == fraction_milli(s@.subrange(i + 1, j as int)),
            frac < 1000,
        decreases n - j,
    {
        match char_digit(s.get_char(j)) {
            None => {
                let ghost sub = s@.subrange(i + 1, n as int);
                assert(sub[j - i - 1] == s@[j as int]);
                assert(!is_digit(sub[j - i - 1]));
                assert(!all_digits(sub));
                assert(leading_digits(s@) == i);
                return None;
            },
            Some(d) => {
                let pos = j - i - 1;
                if pos == 0 {
                    frac = frac + d * 100;
                } else if pos == 1 {
                    frac = frac + d * 10;
                } else if pos == 2 {
                    frac = frac + d;
                }
                j = j + 1;
            },
        }
    }
    Some(int_part * 1000 + frac)
}

proof fn lemma_digits_bound(s: Seq<char>)
    requires
        all_digits(s),
        s.len() <= MAX_INTEGER_DIGITS,
    ensures
        digits_value(s) < 10_000_000_000_000,
        digits_value(s) < pow10(s.len()),
    decreases s.len(),
{
    if s.len() > 0 {
        lemma_digits_bound(s.drop_last());
        lemma_pow10_small(s.len());
        assert(digit_value(s.last()) < 10);
        assert(digits_value(s.drop_last()) < pow10((s.len() - 1) as nat));
        assert(digits_value(s.drop_last()) * 10 + digit_value(s.last()) < pow10(s.len())) by (nonlinear_arith)
            requires
                digits_value(s.drop_last()) < pow10((s.len() - 1) as nat),
                digit_value(s.last()) < 10,
                pow10(s.len()) == pow10((s.len() - 1) as nat) * 10,
        ;
    }
}

pub open spec fn pow10(n: nat) -> nat
    decreases n,
{
    if n == 0 { 1 } else { pow10((n - 1) as nat) * 10 }
}

proof fn lemma_pow10_monotone(n: nat, m: nat)
    requires
        n <= m,
    ensures
        pow10(n) <= pow10(m),
    decreases m,
{
    if n < m {
        lemma_pow10_monotone(n, (m - 1) as nat);
    }
}

proof fn lemma_pow10_small(n: nat)
    requires
        n <= MAX_INTEGER_DIGITS,
    ensures
        pow10(n) <= 1_000_000_000_000,
{
    reveal_with_fuel(pow10, 13);
    assert(pow10(12) == 1_000_000_000_000);
    lemma_pow10_monotone(n, 12);
}

proof fn lemma_leading_digits_at_least(s: Seq<char>, i: int)
    requires
        0 <= i <= s.len(),
        all_digits(s.subrange(0, i)),
    ensures
        leading_digits(s) >= i,
    decreases i,
{
    if i > 0 {
        assert(s.drop_first().subrange(0, i - 1) =~= s.subrange(1, i));
        assert(s.subrange(0, i)[0] == s[0]);
        assert forall|k: int| 0 <= k < i - 1 implies is_digit(#[trigger] s.drop_first().subrange(0, i - 1)[k]) by {
            assert(s.drop_first().subrange(0, i - 1)[k] == s.subrange(0, i)[k + 1]);
        }
        lemma_leading_digits_at_least(s.drop_first(), i - 1);
    }
}

} // verus!
