use vstd::prelude::*;
use vstd::arithmetic::power2::{
    lemma2_to64, lemma_pow2_adds, lemma_pow2_pos, lemma_pow2_strictly_increases, pow2,
};
use vstd::bits::{lemma_u64_shl_is_mul, lemma_u64_shr_is_div};

verus! {

/// The biased exponent field of a float's bit pattern.
pub open spec fn float_exponent(b: u64) -> int {
    ((b >> 52u64) & 0x7ffu64) as int
}

/// The fraction field of a float's bit pattern.
pub open spec fn float_fraction(b: u64) -> int {
    (b & 0xf_ffff_ffff_ffffu64) as int
}

/// The sign bit of a float's bit pattern.
pub open spec fn float_negative(b: u64) -> bool {
    (b >> 63u64) == 1
}

/// The magnitude of a finite float, truncated toward zero. A normal float is
/// `(2^52 + fraction) * 2^(exponent - 1075)`; a subnormal one is below 1.
pub open spec fn truncated_magnitude(b: u64) -> int {
    let e = float_exponent(b);
    let sig = float_fraction(b) + pow2(52);
    if e == 0 {
        0
    } else if e >= 1075 {
        sig * (pow2((e - 1075) as nat) as int)
    } else {
        sig / (pow2((1075 - e) as nat) as int)
    }
}

/// The float with bit pattern `b` converted to a 64-bit integer: truncated
/// toward zero and saturated at the bounds; NaN converts to zero.
pub open spec fn float_to_int(b: u64) -> int {
    if float_exponent(b) == 0x7ff {
        if float_fraction(b) != 0 {
            0
        } else if float_negative(b) {
            i64::MIN as int
        } else {
            i64::MAX as int
        }
    } else {
        let t = if float_negative(b) {
            -truncated_magnitude(b)
        } else {
            truncated_magnitude(b)
        };
        if t < i64::MIN {
            i64::MIN as int
        } else if t > i64::MAX {
            i64::MAX as int
        } else {
            t
        }
    }
}

proof fn lemma_pow2_53()
    ensures
        pow2(53) == 0x20_0000_0000_0000,
        pow2(63) == 0x8000_0000_0000_0000,
        pow2(52) == 0x10_0000_0000_0000,
        pow2(10) == 1024,
        pow2(11) == 2048,
{
    lemma2_to64();
    lemma_pow2_adds(32, 21);
    lemma_pow2_adds(32, 20);
    lemma_pow2_adds(32, 31);
}

/// Converts the float with bit pattern `b` to an integer, truncating toward zero.
pub fn truncate_float(b: u64) -> (r: i64)
    ensures
        r as int == float_to_int(b),
{
    let e: u64 = (b >> 52u64) & 0x7ffu64;
    let m: u64 = b & 0xf_ffff_ffff_ffffu64;
    let neg: bool = (b >> 63u64) == 1;
    assert(e < 2048) by (bit_vector)
        requires
            e == (b >> 52u64) & 0x7ffu64,
    ;
    assert(m < 0x10_0000_0000_0000) by (bit_vector)
        requires
            m == b & 0xf_ffff_ffff_ffffu64,
    ;
    proof {
        lemma_pow2_53();
    }
    if e == 0x7ff {
        if m != 0 {
            0
        } else if neg {
            i64::MIN
        } else {
            i64::MAX
        }
    } else if e < 1023 {
        proof {
            if e != 0 {
                let s = (1075 - e) as nat;
                if s > 53 {
                    lemma_pow2_strictly_increases(53, s);
                }
                assert(truncated_magnitude(b) == 0) by (nonlinear_arith)
                    requires
                        truncated_magnitude(b) == (m + pow2(52)) / (pow2(s) as int),
                        m + pow2(52) < pow2(53),
                        pow2(53) <= pow2(s),
                ;
            }
        }
        0
    } else if e >= 1086 {
        proof {
            let s = (e - 1075) as nat;
            if s > 11 {
                lemma_pow2_strictly_increases(11, s);
            }
            assert(truncated_magnitude(b) >= 0x8000_0000_0000_0000) by (nonlinear_arith)
                requires
                    truncated_magnitude(b) == (m + pow2(52)) * (pow2(s) as int),
                    m + pow2(52) >= pow2(52),
                    pow2(11) <= pow2(s),
                    pow2(52) * pow2(11) == 0x8000_0000_0000_0000,
            ;
        }
        if neg {
            i64::MIN
        } else {
            i64::MAX
        }
    } else {
        let sig: u64 = m + 0x10_0000_0000_0000u64;
        let mag: u64 = if e >= 1075 {
            let s: u64 = e - 1075;
            proof {
                lemma_pow2_pos(s as nat);
                if s < 10 {
                    lemma_pow2_strictly_increases(s as nat, 10);
                }
                assert(sig * pow2(s as nat) < 0x8000_0000_0000_0000) by (nonlinear_arith)
                    requires
                        sig < 0x20_0000_0000_0000,
                        pow2(s as nat) <= 1024,
                ;
                lemma_u64_shl_is_mul(sig, s);
            }
            sig << s
        } else {
            let s: u64 = 1075 - e;
            proof {
                lemma_pow2_pos(s as nat);
                lemma_u64_shr_is_div(sig, s);
                assert(sig as nat / pow2(s as nat) <= sig) by (nonlinear_arith)
                    requires
                        pow2(s as nat) > 0,
                ;
            }
            sig >> s
        };
        assert(mag as int == truncated_magnitude(b));
        assert(mag < 0x8000_0000_0000_0000);
        if neg {
            -(mag as i64)
        } else {
            mag as i64
        }
    }
}

/// The value of a nonempty run of decimal digits.
pub open spec fn digits_value(s: Seq<char>) -> int
    decreases s.len(),
{
    if s.len() == 0 {
        0
    } else {
        digits_value(s.drop_last()) * 10 + (s.last() as int - '0' as int)
    }
}

/// `s` is a nonempty run of ASCII decimal digits.
pub open spec fn all_digits(s: Seq<char>) -> bool {
    s.len() > 0 && forall|i: int| 0 <= i < s.len() ==> '0' <= #[trigger] s[i] <= '9'
}

/// The integer that the base-10 text `s` denotes: an optional sign, then digits.
pub open spec fn decimal_of(s: Seq<char>) -> Option<int> {
    if s.len() > 0 && s[0] == '-' && all_digits(s.drop_first()) {
        Some(-digits_value(s.drop_first()))
    } else if s.len() > 0 && s[0] == '+' && all_digits(s.drop_first()) {
        Some(digits_value(s.drop_first()))
    } else if all_digits(s) {
        Some(digits_value(s))
    } else {
        None
    }
}

/// The base-10 integer that `s` denotes, when it fits in 64 signed bits.
pub open spec fn parsed_i64(s: Seq<char>) -> Option<int> {
    match decimal_of(s) {
        Some(n) => if i64::MIN <= n <= i64::MAX {
            Some(n)
        } else {
            None
        },
        None => None,
    }
}

/// Relies on `<i64 as FromStr>::from_str`: an optional `+` or `-` and then
/// decimal digits, with no surrounding whitespace, fitting in an `i64`.
#[verifier::external_body]
pub(crate) fn parse_i64(s: &str) -> (r: Option<i64>)
    ensures
        match r {
            Some(n) => parsed_i64(s@) == Some(n as int),
            None => parsed_i64(s@) is None,
        },
{
    s.parse::<i64>().ok()
}

} // verus!
