//! Numeric literal parsing: counting dots, the executable decimal-to-integer
//! conversion, and the facts about decimal values that its verification needs.

use vstd::prelude::*;

use crate::model::{count_dots, dec_val, int_val, is_digit};

verus! {

/// Every byte of `s` is an ASCII decimal digit.
pub open spec fn all_digits(s: Seq<u8>) -> bool {
    forall|i: int| 0 <= i < s.len() ==> is_digit(s[i])
}

/// The digit part of a numeric literal text: what follows the sign, if any.
pub open spec fn digits_of(s: Seq<u8>) -> Seq<u8> {
    if s.len() > 0 && s[0] == ('-' as u8) {
        s.skip(1)
    } else {
        s
    }
}

/// A well-shaped integer literal text: an optional `-`, then only digits,
/// at least one.
pub open spec fn int_literal_shape(s: Seq<u8>) -> bool {
    digits_of(s).len() > 0 && all_digits(digits_of(s))
}

/// The decimal value of a digit string is never negative.
pub proof fn lemma_dec_val_nonneg(s: Seq<u8>)
    requires
        all_digits(s),
    ensures
        dec_val(s) >= 0,
    decreases s.len(),
{
    if s.len() > 0 {
        assert(all_digits(s.drop_last()));
        lemma_dec_val_nonneg(s.drop_last());
    }
}

/// Extending a digit string on the right never lowers its decimal value.
pub proof fn lemma_dec_val_prefix(s: Seq<u8>, j: int)
    requires
        all_digits(s),
        0 <= j <= s.len(),
    ensures
        dec_val(s.take(j)) <= dec_val(s),
    decreases s.len() - j,
{
    if j == s.len() {
        assert(s.take(j) =~= s);
    } else {
        assert(all_digits(s.take(j))) by {
            assert(forall|i: int| 0 <= i < j ==> s.take(j)[i] == s[i]);
        }
        assert(all_digits(s.take(j + 1))) by {
            assert(forall|i: int| 0 <= i < j + 1 ==> s.take(j + 1)[i] == s[i]);
        }
        lemma_dec_val_nonneg(s.take(j));
        assert(s.take(j + 1).drop_last() =~= s.take(j));
        assert(dec_val(s.take(j + 1)) == dec_val(s.take(j)) * 10 + (s[j] - 48));
        lemma_dec_val_prefix(s, j + 1);
    }
}

/// The dot count is never negative.
pub proof fn lemma_count_dots_nonneg(s: Seq<u8>)
    ensures
        count_dots(s) >= 0,
    decreases s.len(),
{
    if s.len() > 0 {
        lemma_count_dots_nonneg(s.drop_last());
    }
}

/// A byte string whose dot count is zero holds no dot anywhere.
pub proof fn lemma_count_dots_zero(s: Seq<u8>)
    requires
        count_dots(s) == 0,
    ensures
        forall|i: int| 0 <= i < s.len() ==> s[i] != ('.' as u8),
    decreases s.len(),
{
    if s.len() > 0 {
        lemma_count_dots_nonneg(s.drop_last());
        lemma_count_dots_zero(s.drop_last());
        assert(forall|i: int| 0 <= i < s.len() - 1 ==> s[i] == s.drop_last()[i]);
    }
}

/// Counts the dots in a byte string.
pub fn count_dots_exec(s: &Vec<u8>) -> (r: usize)
    ensures
        r as int == count_dots(s@),
{
    let mut c: usize = 0;
    let mut i: usize = 0;
    while i < s.len()
        invariant
            i <= s@.len(),
            c <= i,
            c as int == count_dots(s@.take(i as int)),
        decreases s@.len() - i,
    {
        let ghost prev = s@.take(i as int);
        if s[i] == ('.' as u8) {
            c = c + 1;
        }
        i = i + 1;
        proof {
            assert(s@.take(i as int).drop_last() =~= prev);
            assert(s@.take(i as int).last() == s@[i - 1]);
        }
    }
    proof {
        assert(s@.take(s@.len() as int) =~= s@);
    }
    c
}

/// Parses an integer literal text (an optional `-`, then digits) into a
/// 64-bit signed value; `None` exactly when the value does not fit.
pub fn parse_int(lit: &Vec<u8>) -> (r: Option<i64>)
    requires
        int_literal_shape(lit@),
    ensures
        match r {
            Some(v) => i64::MIN <= int_val(lit@) <= i64::MAX && v as int == int_val(lit@),
            None => !(i64::MIN <= int_val(lit@) <= i64::MAX),
        },
{
    proof {
        if !(lit@.len() > 0 && lit@[0] == ('-' as u8)) {
            assert(digits_of(lit@) == lit@);
        }
    }
    let neg = lit[0] == ('-' as u8);
    let limit: u64 = if neg {
        9223372036854775808
    } else {
        9223372036854775807
    };
    let ghost d0: int = if neg {
        1int
    } else {
        0int
    };
    let ghost digits = digits_of(lit@);
    let mut acc: u64 = 0;
    let mut i: usize = if neg {
        1
    } else {
        0
    };
    proof {
        assert(digits.take(0) =~= Seq::<u8>::empty());
    }
    while i < lit.len()
        invariant
            int_literal_shape(lit@),
            digits == digits_of(lit@),
            neg == (lit@.len() > 0 && lit@[0] == ('-' as u8)),
            d0 == (if neg {
                1int
            } else {
                0int
            }),
            limit == (if neg {
                9223372036854775808u64
            } else {
                9223372036854775807u64
            }),
            d0 <= i <= lit@.len(),
            digits.len() == lit@.len() - d0,
            forall|k: int| 0 <= k < digits.len() ==> digits[k] == lit@[k + d0],
            acc as int == dec_val(digits.take(i - d0)),
            acc <= limit,
        decreases lit@.len() - i,
    {
        proof {
            assert(is_digit(digits[i - d0]));
            assert(digits[i - d0] == lit@[i as int]);
        }
        let d = lit[i];
        let dv: u64 = (d - 48) as u64;
        let ghost taken = digits.take(i - d0);
        proof {
            assert(digits.take(i - d0 + 1).drop_last() =~= taken);
            assert(digits.take(i - d0 + 1).last() == digits[i - d0]);
            assert(dec_val(digits.take(i - d0 + 1)) == (acc as int) * 10 + (d - 48));
        }
        if acc > (limit - dv) / 10 {
            proof {
                let l = (limit - dv) as int;
                assert(l == 10 * (l / 10) + (l % 10) && 0 <= l % 10 < 10) by (nonlinear_arith);
                assert((acc as int) * 10 + (dv as int) > limit as int) by {
                    assert(acc as int >= l / 10 + 1);
                    assert((acc as int) * 10 >= (l / 10 + 1) * 10) by (nonlinear_arith)
                        requires acc as int >= l / 10 + 1;
                }
                assert(all_digits(digits.take(i - d0 + 1))) by {
                    assert(forall|k: int| 0 <= k < i - d0 + 1 ==> digits.take(i - d0 + 1)[k]
                        == digits[k]);
                }
                lemma_dec_val_prefix(digits, i - d0 + 1);
                assert(dec_val(digits) > limit as int);
                if neg {
                    assert(int_val(lit@) == -dec_val(digits));
                } else {
                    assert(int_val(lit@) == dec_val(digits));
                }
            }
            return None;
        }
        proof {
            let l = (limit - dv) as int;
            assert(l == 10 * (l / 10) + (l % 10) && 0 <= l % 10 < 10) by (nonlinear_arith);
            assert((acc as int) * 10 <= (l / 10) * 10) by (nonlinear_arith)
                requires acc as int <= l / 10;
        }
        acc = acc * 10 + dv;
        i = i + 1;
    }
    proof {
        assert(digits.take(lit@.len() - d0) =~= digits);
        assert(acc as int == dec_val(digits));
        if neg {
            assert(int_val(lit@) == -dec_val(digits));
            lemma_dec_val_nonneg(digits);
        } else {
            assert(int_val(lit@) == dec_val(digits));
        }
    }
    if neg {
        if acc >= 9223372036854775808 {
            Some(i64::MIN)
        } else {
            Some(0i64 - (acc as i64))
        }
    } else {
        Some(acc as i64)
    }
}

} // verus!
