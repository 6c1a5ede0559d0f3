//! Base-10 integers: the value of a digit string, an overflow-checked
//! parser, and the decimal rendering of an unsigned integer.

use vstd::prelude::*;

verus! {

/// Whether `c` is a decimal digit.
pub open spec fn is_digit(c: char) -> bool {
    '0' <= c && c <= '9'
}

/// The value of the digit `c`.
pub open spec fn digit_val(c: char) -> int {
    c as u32 - '0' as u32
}

/// Whether every character of `s` is a decimal digit.
pub open spec fn all_digits(s: Seq<char>) -> bool {
    forall|i: int| 0 <= i < s.len() ==> is_digit(s[i])
}

/// The value of the digit string `s`, most significant digit first.
pub open spec fn dec_val(s: Seq<char>) -> int
    decreases s.len(),
{
    if s.len() == 0 {
        0
    } else {
        dec_val(s.drop_last()) * 10 + digit_val(s.last())
    }
}

/// Whether `s` is a well-formed decimal numeral whose value fits below `max`.
pub open spec fn is_dec(s: Seq<char>, max: int) -> bool {
    s.len() > 0 && all_digits(s) && dec_val(s) <= max
}

pub proof fn lemma_dec_val_nonneg(s: Seq<char>)
    requires
        all_digits(s),
    ensures
        dec_val(s) >= 0,
    decreases s.len(),
{
    if s.len() > 0 {
        assert(all_digits(s.drop_last()));
        lemma_dec_val_nonneg(s.drop_last());
    }
}

/// Extending a digit string by one digit multiplies its value by ten
/// and adds that digit.
pub proof fn lemma_dec_val_step(s: Seq<char>, i: int)
    requires
        0 <= i < s.len(),
    ensures
        dec_val(s.take(i + 1)) == dec_val(s.take(i)) * 10 + digit_val(s[i]),
{
    assert(s.take(i + 1).drop_last() =~= s.take(i));
    assert(s.take(i + 1).last() == s[i]);
}

/// On an all-digit string, the value of a prefix never exceeds the value
/// of a longer prefix.
pub proof fn lemma_dec_val_mono(s: Seq<char>, i: int, j: int)
    requires
        all_digits(s),
        0 <= i <= j <= s.len(),
    ensures
        dec_val(s.take(i)) <= dec_val(s.take(j)),
    decreases j - i,
{
    if i < j {
        lemma_dec_val_mono(s, i, j - 1);
        lemma_dec_val_step(s, j - 1);
        assert(all_digits(s.take(j - 1)));
        lemma_dec_val_nonneg(s.take(j - 1));
    }
}

/// The largest value a `u64` accumulator may hold before a further digit
/// could overflow: `u64::MAX / 10`.
pub const DEC_CUT: u64 = 1844674407370955161;

/// Parses `f` as an unsigned base-10 integer. Succeeds exactly when `f` is
/// non-empty, all digits, and its value fits in a `u64`.
pub fn parse_u64(f: &Vec<char>) -> (r: Result<u64, crate::records::ParseError>)
    ensures
        match r {
            Ok(n) => is_dec(f@, u64::MAX as int) && n as int == dec_val(f@),
            Err(e) => e == crate::records::ParseError::BadNumber && !is_dec(
                f@,
                u64::MAX as int,
            ),
        },
{
    if f.len() == 0 {
        return Err(crate::records::ParseError::BadNumber);
    }
    let mut acc: u64 = 0;
    let mut i: usize = 0;
    while i < f.len()
        invariant
            i <= f@.len(),
            forall|j: int| 0 <= j < i ==> is_digit(f@[j]),
            acc as int == dec_val(f@.take(i as int)),
        decreases f@.len() - i,
    {
        let c = f[i];
        if !(c >= '0' && c <= '9') {
            assert(!all_digits(f@));
            return Err(crate::records::ParseError::BadNumber);
        }
        let d: u64 = (c as u32 - '0' as u32) as u64;
        if acc > DEC_CUT || (acc == DEC_CUT && d > 5) {
            proof {
                lemma_dec_val_step(f@, i as int);
                if all_digits(f@) {
                    lemma_dec_val_mono(f@, i + 1, f@.len() as int);
                    assert(f@.take(f@.len() as int) =~= f@);
                }
            }
            return Err(crate::records::ParseError::BadNumber);
        }
        proof {
            lemma_dec_val_step(f@, i as int);
        }
        acc = acc * 10 + d;
        i = i + 1;
    }
    proof {
        assert(f@.take(f@.len() as int) =~= f@);
    }
    Ok(acc)
}

/// The digit character for the value `d`.
pub open spec fn digit_char(d: int) -> char {
    if d == 0 {
        '0'
    } else if d == 1 {
        '1'
    } else if d == 2 {
        '2'
    } else if d == 3 {
        '3'
    } else if d == 4 {
        '4'
    } else if d == 5 {
        '5'
    } else if d == 6 {
        '6'
    } else if d == 7 {
        '7'
    } else if d == 8 {
        '8'
    } else {
        '9'
    }
}

/// The decimal rendering of `n`, most significant digit first, with no
/// leading zeros (the rendering of zero is the single digit `0`).
pub open spec fn dec_str(n: int) -> Seq<char>
    decreases n,
{
    if n < 10 {
        seq![digit_char(n)]
    } else {
        dec_str(n / 10) + seq![digit_char(n % 10)]
    }
}

fn digit_char_exec(d: u32) -> (c: char)
    requires
        d < 10,
    ensures
        c == digit_char(d as int),
{
    if d == 0 {
        '0'
    } else if d == 1 {
        '1'
    } else if d == 2 {
        '2'
    } else if d == 3 {
        '3'
    } else if d == 4 {
        '4'
    } else if d == 5 {
        '5'
    } else if d == 6 {
        '6'
    } else if d == 7 {
        '7'
    } else if d == 8 {
        '8'
    } else {
        '9'
    }
}

/// The decimal digits of `n`, as characters.
pub fn u32_chars(n: u32) -> (r: Vec<char>)
    ensures
        r@ == dec_str(n as int),
    decreases n,
{
    let d: u32 = n % 10;
    let c = digit_char_exec(d);
    if n < 10 {
        let mut v: Vec<char> = Vec::new();
        v.push(c);
        proof {
            assert(v@ =~= seq![digit_char(n as int)]);
        }
        v
    } else {
        let mut v = u32_chars(n / 10);
        v.push(c);
        proof {
            assert(v@ =~= dec_str(n as int / 10) + seq![digit_char(n as int % 10)]);
        }
        v
    }
}

/// Every power of ten, for digit-count bounds on rendered numbers.
pub open spec fn pow10(k: nat) -> int
    decreases k,
{
    if k == 0 {
        1
    } else {
        10 * pow10((k - 1) as nat)
    }
}

pub proof fn lemma_pow10_pos(k: nat)
    ensures
        pow10(k) >= 1,
    decreases k,
{
    if k > 0 {
        lemma_pow10_pos((k - 1) as nat);
    }
}

/// A non-negative integer below the `k`-th power of ten renders in at
/// most `k` digits.
pub proof fn lemma_dec_str_len(n: int, k: nat)
    requires
        0 <= n < pow10(k),
        k >= 1,
    ensures
        dec_str(n).len() <= k,
    decreases k,
{
    if n < 10 {
    } else {
        lemma_pow10_pos((k - 1) as nat);
        assert(n >= 10 * (n / 10));
        assert(n / 10 < pow10((k - 1) as nat)) by {
            if n / 10 >= pow10((k - 1) as nat) {
                assert(10 * (n / 10) >= 10 * pow10((k - 1) as nat)) by (nonlinear_arith)
                    requires n / 10 >= pow10((k - 1) as nat);
            }
        }
        assert(pow10((k - 1) as nat) > 1);
        assert(k - 1 >= 1);
        lemma_dec_str_len(n / 10, (k - 1) as nat);
    }
}

} // verus!
