//! Fixed-point reading of the venue's decimal strings ("603.230").
use vstd::prelude::*;

verus! {

/// Number of fractional digits kept by the fixed-point representation.
pub open spec fn frac_digits() -> nat {
    8
}

/// The fixed-point scale, `10^frac_digits()`.
pub open spec fn scale() -> int {
    100_000_000
}

pub open spec fn pow10(n: nat) -> int
    decreases n,
{
    if n == 0 {
        1
    } else {
        10 * pow10((n - 1) as nat)
    }
}

pub open spec fn is_digit(c: char) -> bool {
    '0' <= c && c <= '9'
}

pub open spec fn all_digits(s: Seq<char>) -> bool {
    forall|i: int| 0 <= i < s.len() ==> is_digit(#[trigger] s[i])
}

pub open spec fn digit_value(c: char) -> int {
    c as int - '0' as int
}

/// The integer written by a string of decimal digits.
pub open spec fn digits_value(s: Seq<char>) -> int
    decreases s.len(),
{
    if s.len() == 0 {
        0
    } else {
        digits_value(s.drop_last()) * 10 + digit_value(s.last())
    }
}

/// Index of the first '.' in `s`, or `s.len()` when there is none.
pub open spec fn dot_index(s: Seq<char>) -> int
    decreases s.len(),
{
    if s.len() == 0 {
        0
    } else if s[0] == '.' {
        0
    } else {
        1 + dot_index(s.drop_first())
    }
}

/// The unbounded value of a decimal string in units of `1 / scale()`.
pub open spec fn decimal_raw(s: Seq<char>) -> int {
    let k = dot_index(s);
    if k == s.len() {
        digits_value(s.subrange(0, k)) * scale()
    } else {
        let fp = s.subrange(k + 1, s.len() as int);
        digits_value(s.subrange(0, k)) * scale() + digits_value(fp) * pow10(
            (frac_digits() - fp.len()) as nat,
        )
    }
}

/// Digits, optionally followed by a point (at `k`) and one to `frac_digits()` digits.
pub open spec fn shape_ok_at(s: Seq<char>, k: int) -> bool {
    &&& k > 0
    &&& all_digits(s.subrange(0, k))
    &&& (k == s.len() || (1 <= s.len() - k - 1 <= frac_digits() && all_digits(
        s.subrange(k + 1, s.len() as int),
    )))
}

/// The value of a decimal string in units of `1 / scale()`: digits, optionally
/// followed by a point and one to `frac_digits()` digits. `None` for any other
/// string and for values beyond `u64`; in particular a ninth fractional
/// digit is refused rather than rounded away.
pub open spec fn decimal_value(s: Seq<char>) -> Option<u64> {
    if shape_ok_at(s, dot_index(s)) && decimal_raw(s) <= u64::MAX {
        Some(decimal_raw(s) as u64)
    } else {
        None
    }
}

proof fn lemma_digits_value_nonneg(s: Seq<char>)
    requires
        all_digits(s),
    ensures
        digits_value(s) >= 0,
    decreases s.len(),
{
    if s.len() > 0 {
        assert(all_digits(s.drop_last()));
        lemma_digits_value_nonneg(s.drop_last());
        assert(is_digit(s[s.len() - 1]));
    }
}

/// Extending a digit string never lowers its value.
proof fn lemma_digits_value_grows(s: Seq<char>, i: int)
    requires
        all_digits(s),
        0 <= i <= s.len(),
    ensures
        digits_value(s.subrange(0, i)) <= digits_value(s),
    decreases s.len() - i,
{
    if i < s.len() {
        lemma_digits_value_grows(s, i + 1);
        let t = s.subrange(0, i + 1);
        assert(t.drop_last() =~= s.subrange(0, i));
        assert(all_digits(s.subrange(0, i)));
        lemma_digits_value_nonneg(s.subrange(0, i));
        assert(is_digit(t.last()));
    } else {
        assert(s.subrange(0, i) =~= s);
    }
}

proof fn lemma_dot_index(s: Seq<char>)
    ensures
        0 <= dot_index(s) <= s.len(),
        forall|j: int| 0 <= j < dot_index(s) ==> s[j] != '.',
        dot_index(s) < s.len() ==> s[dot_index(s)] == '.',
    decreases s.len(),
{
    if s.len() > 0 && s[0] != '.' {
        lemma_dot_index(s.drop_first());
        assert forall|j: int| 0 <= j < dot_index(s) implies s[j] != '.' by {
            if j > 0 {
                assert(s[j] == s.drop_first()[j - 1]);
            }
        }
    }
}

proof fn lemma_pow10_pos(n: nat)
    ensures
        pow10(n) >= 1,
    decreases n,
{
    if n > 0 {
        lemma_pow10_pos((n - 1) as nat);
    }
}

proof fn lemma_pow10_small(n: nat)
    requires
        n <= 8,
    ensures
        pow10(n) <= 100_000_000,
        n <= 7 ==> pow10(n) <= 10_000_000,
        n == 8 ==> pow10(n) == 100_000_000,
{
    reveal_with_fuel(pow10, 9);
    if n == 0 {
    } else if n == 1 {
    } else if n == 2 {
    } else if n == 3 {
    } else if n == 4 {
    } else if n == 5 {
    } else if n == 6 {
    } else if n == 7 {
    } else {
    }
}

proof fn lemma_digits_below_pow(s: Seq<char>)
    requires
        all_digits(s),
    ensures
        0 <= digits_value(s) < pow10(s.len()),
    decreases s.len(),
{
    if s.len() > 0 {
        assert(all_digits(s.drop_last()));
        lemma_digits_below_pow(s.drop_last());
        assert(is_digit(s[s.len() - 1]));
        assert(pow10(s.len()) == 10 * pow10(s.drop_last().len()));
    }
}

proof fn lemma_pow10_add(a: nat, b: nat)
    ensures
        pow10(a) * pow10(b) == pow10(a + b),
        pow10(a) >= 1,
    decreases a,
{
    if a > 0 {
        lemma_pow10_add((a - 1) as nat, b);
        assert(pow10(a) * pow10(b) == 10 * (pow10((a - 1) as nat) * pow10(b))) by (nonlinear_arith)
            requires pow10(a) == 10 * pow10((a - 1) as nat);
        assert((a - 1) as nat + b == (a + b - 1) as nat);
    }
}

/// Reads the digits of `s` in `[from, to)`; `None` unless all are digits and
/// their value fits a `u64`.
pub(crate) fn read_digits(s: &str, from: usize, to: usize) -> (r: Option<u64>)
    requires
        from <= to <= s@.len(),
    ensures
        r == (if all_digits(s@.subrange(from as int, to as int)) && digits_value(
            s@.subrange(from as int, to as int),
        ) <= u64::MAX {
            Some(digits_value(s@.subrange(from as int, to as int)) as u64)
        } else {
            None
        }),
{
    let ghost t = s@.subrange(from as int, to as int);
    let mut acc: u64 = 0;
    let mut i: usize = from;
    while i < to
        invariant
            from <= i <= to <= s@.len(),
            t == s@.subrange(from as int, to as int),
            all_digits(t.subrange(0, i - from)),
            acc as int == digits_value(t.subrange(0, i - from)),
        decreases to - i,
    {
        let c = s.get_char(i);
        let ghost p = t.subrange(0, i - from + 1);
        assert(p.drop_last() =~= t.subrange(0, i - from));
        assert(c == t[i - from]);
        if !('0' <= c && c <= '9') {
            return None;
        }
        let d = (c as u32 - '0' as u32) as u64;
        if acc > (u64::MAX - d) / 10 {
            proof {
                assert(all_digits(p));
                assert(digits_value(p) > u64::MAX) by (nonlinear_arith)
                    requires
                        acc > (u64::MAX - d) / 10,
                        digits_value(p) == acc * 10 + d,
                        d <= 9,
                ;
                if all_digits(t) {
                    lemma_digits_value_grows(t, i - from + 1);
                }
            }
            return None;
        }
        acc = acc * 10 + d;
        i = i + 1;
    }
    assert(t.subrange(0, i - from) =~= t);
    Some(acc)
}

/// Reads a decimal string into fixed-point units of `1 / scale()`.
pub fn parse_decimal(s: &str) -> (r: Option<u64>)
    ensures
        r == decimal_value(s@),
{
    let n = s.unicode_len();
    let mut k: usize = 0;
    proof {
        lemma_dot_index(s@);
    }
    while k < n && s.get_char(k) != '.'
        invariant
            0 <= k <= n,
            n == s@.len(),
            forall|j: int| 0 <= j < k ==> s@[j] != '.',
        decreases n - k,
    {
        k = k + 1;
    }
    assert(k == dot_index(s@)) by {
        lemma_dot_index(s@);
        if k < dot_index(s@) {
            assert(s@[k as int] == '.');
        } else if k > dot_index(s@) {
            assert(s@[dot_index(s@)] == '.');
        }
    }
    if k == 0 {
        return None;
    }
    let ghost ips = s@.subrange(0, k as int);
    let ghost fps = if k < n {
        s@.subrange(k + 1, n as int)
    } else {
        Seq::empty()
    };
    let ip = match read_digits(s, 0, k) {
        None => {
            proof {
                if all_digits(ips) && k < n && all_digits(fps) {
                    lemma_digits_value_nonneg(fps);
                    lemma_pow10_pos((8 - fps.len()) as nat);
                    assert(digits_value(fps) * pow10((8 - fps.len()) as nat) >= 0)
                        by (nonlinear_arith)
                        requires digits_value(fps) >= 0, pow10((8 - fps.len()) as nat) >= 1;
                }
            }
            return None;
        },
        Some(v) => v,
    };
    let mut frac_scaled: u64 = 0;
    if k < n {
        let flen = n - k - 1;
        if flen < 1 || flen > 8 {
            return None;
        }
        proof {
            if all_digits(fps) {
                lemma_digits_below_pow(fps);
                lemma_pow10_small(flen as nat);
            }
        }
        let fp = match read_digits(s, k + 1, n) {
            None => {
                return None;
            },
            Some(v) => v,
        };
        let e: usize = 8 - flen;
        let mut mult: u64 = 1;
        let mut j: usize = 0;
        proof {
            lemma_pow10_small(e as nat);
        }
        while j < e
            invariant
                j <= e <= 7,
                mult as int == pow10(j as nat),
            decreases e - j,
        {
            proof {
                lemma_pow10_small(j as nat);
            }
            mult = mult * 10;
            j = j + 1;
        }
        proof {
            lemma_digits_below_pow(fps);
            lemma_pow10_add(flen as nat, e as nat);
            lemma_pow10_small(8);
            assert(fp * mult < 100_000_000) by (nonlinear_arith)
                requires
                    fp < pow10(flen as nat),
                    mult == pow10(e as nat),
                    pow10(flen as nat) * pow10(e as nat) == 100_000_000,
                    fp >= 0,
                    mult >= 0,
            ;
        }
        frac_scaled = fp * mult;
        assert(frac_scaled == digits_value(fps) * pow10((frac_digits() - fps.len()) as nat));
    }
    assert(shape_ok_at(s@, k as int));
    assert(ip * 100_000_000 + frac_scaled == decimal_raw(s@)) by {
        lemma_digits_value_nonneg(ips);
        assert(ip == digits_value(ips));
        assert(dot_index(s@) == k);
        if k == n {
            assert(frac_scaled == 0);
        }
    }
    if ip > (u64::MAX - frac_scaled) / 100_000_000 {
        assert(ip * 100_000_000 + frac_scaled > u64::MAX) by (nonlinear_arith)
            requires
                ip > (u64::MAX - frac_scaled) / 100_000_000,
                frac_scaled < 100_000_000,
        ;
        return None;
    }
    assert(ip * 100_000_000 + frac_scaled <= u64::MAX) by (nonlinear_arith)
        requires
            ip <= (u64::MAX - frac_scaled) / 100_000_000,
            frac_scaled < 100_000_000,
    ;
    Some(ip * 100_000_000 + frac_scaled)
}

} // verus!
