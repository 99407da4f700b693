//! Operations on text that the rest of the library is built from.

use vstd::prelude::*;

verus! {

/// `pattern` occurs in `s` at index `at`.
pub open spec fn occurs_at(s: Seq<char>, pattern: Seq<char>, at: int) -> bool {
    0 <= at && at + pattern.len() <= s.len() && s.subrange(at, at + pattern.len()) == pattern
}

/// `pattern` occurs somewhere in `s`.
pub open spec fn has_infix(s: Seq<char>, pattern: Seq<char>) -> bool {
    exists|at: int| occurs_at(s, pattern, at)
}

/// `s` without its trailing run of `c`.
pub open spec fn without_trailing(s: Seq<char>, c: char) -> Seq<char>
    decreases s.len(),
{
    if s.len() > 0 && s.last() == c {
        without_trailing(s.drop_last(), c)
    } else {
        s
    }
}

/// `s` without its leading repetitions of `pattern`.
pub open spec fn without_leading(s: Seq<char>, pattern: Seq<char>) -> Seq<char>
    decreases s.len(),
{
    if pattern.len() > 0 && occurs_at(s, pattern, 0) {
        without_leading(s.skip(pattern.len() as int), pattern)
    } else {
        s
    }
}

/// The decimal digit for `d`.
pub open spec fn digit_char(d: nat) -> char {
    if d == 0 {
        '0'
    } else if d == 1 {
        '1'
    } else if d == 2 {
        '2'
    } else if d == 3 {
        '3'
    } else if d == 4 {
        '4'
    } else if d == 5 {
        '5'
    } else if d == 6 {
        '6'
    } else if d == 7 {
        '7'
    } else if d == 8 {
        '8'
    } else {
        '9'
    }
}

/// `n` in decimal, without leading zeros.
pub open spec fn decimal(n: nat) -> Seq<char>
    decreases n,
{
    if n < 10 {
        seq![digit_char(n)]
    } else {
        decimal(n / 10).push(digit_char(n % 10))
    }
}

/// A number in decimal is one digit at least, and digits only.
pub proof fn lemma_decimal_digits(n: nat)
    ensures
        decimal(n).len() > 0,
        forall|i: int| 0 <= i < decimal(n).len() ==> '0' <= #[trigger] decimal(n)[i] <= '9',
    decreases n,
{
    if n >= 10 {
        lemma_decimal_digits(n / 10);
    }
}

/// Ten to the power of `k`.
pub open spec fn power_of_ten(k: nat) -> nat
    decreases k,
{
    if k == 0 {
        1
    } else {
        10 * power_of_ten((k - 1) as nat)
    }
}

/// A number below ten to the power of `k` has `k` digits at most.
pub proof fn lemma_decimal_len(n: nat, k: nat)
    requires
        k >= 1,
        n < power_of_ten(k),
    ensures
        decimal(n).len() <= k,
    decreases k,
{
    reveal_with_fuel(power_of_ten, 2);
    if n >= 10 {
        lemma_decimal_len(n / 10, (k - 1) as nat);
    }
}

/// A number of 64 bits has twenty digits at most.
pub proof fn lemma_decimal_len_u64(n: u64)
    ensures
        decimal(n as nat).len() <= 20,
{
    reveal_with_fuel(power_of_ten, 21);
    assert(power_of_ten(20) == 100_000_000_000_000_000_000nat);
    lemma_decimal_len(n as nat, 20);
}

/// Two numbers with the same decimal text are the same number.
pub proof fn lemma_decimal_injective(a: nat, b: nat)
    requires
        decimal(a) == decimal(b),
    ensures
        a == b,
    decreases a,
{
    lemma_decimal_digits(a / 10);
    lemma_decimal_digits(b / 10);
    if a < 10 && b < 10 {
        assert(decimal(a)[0] == digit_char(a));
        assert(decimal(b)[0] == digit_char(b));
    } else if a < 10 {
        assert(decimal(a).len() == 1);
        assert(decimal(b).len() == decimal(b / 10).len() + 1);
    } else if b < 10 {
        assert(decimal(b).len() == 1);
        assert(decimal(a).len() == decimal(a / 10).len() + 1);
    } else {
        let x = decimal(a / 10).push(digit_char(a % 10));
        let y = decimal(b / 10).push(digit_char(b % 10));
        assert(x.drop_last() == decimal(a / 10));
        assert(y.drop_last() == decimal(b / 10));
        assert(x.last() == digit_char(a % 10));
        assert(y.last() == digit_char(b % 10));
        lemma_decimal_injective(a / 10, b / 10);
    }
}

/// Text is cut in one way only into a run of characters of one kind and a
/// rest that does not begin with a character of that kind.
pub proof fn lemma_cut_is_unique(
    run_a: Seq<char>,
    rest_a: Seq<char>,
    run_b: Seq<char>,
    rest_b: Seq<char>,
    kind: spec_fn(char) -> bool,
)
    requires
        run_a + rest_a == run_b + rest_b,
        forall|i: int| 0 <= i < run_a.len() ==> kind(#[trigger] run_a[i]),
        forall|i: int| 0 <= i < run_b.len() ==> kind(#[trigger] run_b[i]),
        rest_a.len() > 0 ==> !kind(rest_a[0]),
        rest_b.len() > 0 ==> !kind(rest_b[0]),
    ensures
        run_a == run_b,
        rest_a == rest_b,
{
    let whole = run_a + rest_a;
    assert(whole.len() == run_a.len() + rest_a.len());
    assert(whole.len() == run_b.len() + rest_b.len());
    if run_a.len() < run_b.len() {
        let at = run_a.len() as int;
        assert(whole[at] == rest_a[0]);
        assert((run_b + rest_b)[at] == run_b[at]);
        assert(false);
    }
    if run_b.len() < run_a.len() {
        let at = run_b.len() as int;
        assert((run_b + rest_b)[at] == rest_b[0]);
        assert(whole[at] == run_a[at]);
        assert(false);
    }
    assert(run_a =~= run_b) by {
        assert forall|i: int| 0 <= i < run_a.len() implies run_a[i] == run_b[i] by {
            assert(whole[i] == run_a[i]);
            assert((run_b + rest_b)[i] == run_b[i]);
        }
    }
    assert(rest_a =~= rest_b) by {
        assert forall|i: int| 0 <= i < rest_a.len() implies rest_a[i] == rest_b[i] by {
            assert(whole[run_a.len() + i] == rest_a[i]);
            assert((run_b + rest_b)[run_b.len() + i] == rest_b[i]);
        }
    }
}

/// Whether two pieces of text are the same.
pub fn same_text(a: &str, b: &str) -> (r: bool)
    ensures
        r == (a@ == b@),
{
    a.to_owned() == b.to_owned()
}

/// Whether `s` begins with `pattern`.
pub fn starts_with(s: &str, pattern: &str) -> (r: bool)
    ensures
        r == occurs_at(s@, pattern@, 0),
{
    let n: usize = s.unicode_len();
    let m: usize = pattern.unicode_len();
    if m > n {
        return false;
    }
    same_text(s.substring_char(0, m), pattern)
}

/// Whether `pattern` occurs in `s`.
pub fn contains(s: &str, pattern: &str) -> (r: bool)
    ensures
        r == has_infix(s@, pattern@),
{
    let n: usize = s.unicode_len();
    let m: usize = pattern.unicode_len();
    if m > n {
        assert(forall|at: int| !occurs_at(s@, pattern@, at));
        return false;
    }
    let last: usize = n - m;
    let mut i: usize = 0;
    loop
        invariant
            n == s@.len(),
            m == pattern@.len(),
            last == n - m,
            i <= last,
            forall|at: int| 0 <= at < i ==> !occurs_at(s@, pattern@, at),
        decreases last - i,
    {
        if same_text(s.substring_char(i, i + m), pattern) {
            assert(occurs_at(s@, pattern@, i as int));
            return true;
        }
        if i == last {
            assert(forall|at: int| !occurs_at(s@, pattern@, at));
            return false;
        }
        i = i + 1;
    }
}

/// `s` without its trailing run of `c`.
pub fn trim_end_matches(s: &str, c: char) -> (r: String)
    ensures
        r@ == without_trailing(s@, c),
{
    let mut end: usize = s.unicode_len();
    assert(s@.subrange(0, end as int) == s@);
    while end > 0 && s.get_char(end - 1) == c
        invariant
            end <= s@.len(),
            without_trailing(s@, c) == without_trailing(s@.subrange(0, end as int), c),
        decreases end,
    {
        assert(s@.subrange(0, end as int).drop_last() == s@.subrange(0, end - 1));
        end = end - 1;
    }
    s.substring_char(0, end).to_owned()
}

/// `s` without its leading repetitions of `pattern`.
pub fn trim_start_matches(s: &str, pattern: &str) -> (r: String)
    ensures
        r@ == without_leading(s@, pattern@),
{
    let n: usize = s.unicode_len();
    let m: usize = pattern.unicode_len();
    if m == 0 {
        return s.to_owned();
    }
    let mut start: usize = 0;
    assert(s@.subrange(0, n as int) == s@);
    while n - start >= m && same_text(s.substring_char(start, start + m), pattern)
        invariant
            n == s@.len(),
            m == pattern@.len(),
            m > 0,
            start <= n,
            without_leading(s@, pattern@) == without_leading(
                s@.subrange(start as int, n as int),
                pattern@,
            ),
        decreases n - start,
    {
        let ghost rest = s@.subrange(start as int, n as int);
        assert(rest.subrange(0, m as int) == s@.subrange(start as int, start + m));
        assert(rest.skip(m as int) == s@.subrange(start + m, n as int));
        start = start + m;
    }
    proof {
        let rest = s@.subrange(start as int, n as int);
        if n - start >= m {
            assert(rest.subrange(0, m as int) == s@.subrange(start as int, start + m));
        }
    }
    s.substring_char(start, n).to_owned()
}

/// `n` in decimal, without leading zeros.
pub fn decimal_text(n: u64) -> (r: String)
    ensures
        r@ == decimal(n as nat),
    decreases n,
{
    let digits = "0123456789";
    proof {
        reveal_strlit("0123456789");
    }
    let d: usize = (n % 10) as usize;
    let last = digits.substring_char(d, d + 1);
    assert(last@ == seq![digit_char(d as nat)]);
    if n < 10 {
        last.to_owned()
    } else {
        let mut out = decimal_text(n / 10);
        out.append(last);
        out
    }
}

} // verus!
