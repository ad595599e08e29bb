//! Human-friendly byte counts for the allocator's memory report.

use vstd::arithmetic::div_mod::{lemma_div_denominator, lemma_fundamental_div_mod};
use vstd::prelude::*;

verus! {

/// The error `String::from_utf8` gives for bytes that are not UTF-8.
#[verifier::external_type_specification]
#[verifier::external_body]
pub struct ExFromUtf8Error(std::string::FromUtf8Error);

/// The text of UTF-8 bytes.
///
/// Trusted: calls `String::from_utf8`, which the standard library documents
/// to succeed on valid UTF-8; ASCII bytes are valid UTF-8 and each decodes to
/// the character of the same value.
#[verifier::external_body]
fn string_from_utf8(bytes: Vec<u8>) -> (r: Result<String, std::string::FromUtf8Error>)
    requires
        forall|i: int| 0 <= i < bytes@.len() ==> bytes@[i] < 128,
    ensures
        r is Ok,
        r matches Ok(text) ==> text@ == bytes@.map_values(|b: u8| b as char),
{
    String::from_utf8(bytes)
}

/// Build a human-friendly markdown report of allocator metrics. The report's
/// numbers of bytes are written with [`ConsoleMarkdownReport::pretty_print_bytes`].
pub struct ConsoleMarkdownReport {}

/// The order of magnitude of a byte count in units of 1024, at most 4: the
/// largest `k <= 4` with `1024^k <= byte_size`, or 0 for sizes below 1024.
pub open spec fn magnitude(byte_size: int) -> int {
    if byte_size < 0x400 {
        0
    } else if byte_size < 0x10_0000 {
        1
    } else if byte_size < 0x4000_0000 {
        2
    } else if byte_size < 0x100_0000_0000 {
        3
    } else {
        4
    }
}

/// `1024^k` for `k` from 0 to 3.
pub open spec fn unit_divisor(k: int) -> nat {
    if k == 0 {
        1
    } else if k == 1 {
        0x400
    } else if k == 2 {
        0x10_0000
    } else {
        0x4000_0000
    }
}

/// The name of unit `k`: B, KiB, MiB or GiB.
pub open spec fn unit_bytes(k: int) -> Seq<u8> {
    if k == 0 {
        seq![66u8]
    } else if k == 1 {
        seq![75u8, 105u8, 66u8]
    } else if k == 2 {
        seq![77u8, 105u8, 66u8]
    } else {
        seq![71u8, 105u8, 66u8]
    }
}

/// The power of two by which a count is divided to keep its 24 most
/// significant bits, the precision of an `f32`.
pub open spec fn f32_scale(n: nat) -> nat
    decreases n,
{
    if n < 0x100_0000 {
        1
    } else {
        2 * f32_scale(n / 2)
    }
}

/// `n / d` rounded to the nearest integer, ties to the even one.
pub open spec fn round_div_even(n: nat, d: nat) -> nat {
    let q = n / d;
    let r = n % d;
    if 2 * r > d || (2 * r == d && q % 2 == 1) {
        q + 1
    } else {
        q
    }
}

/// The value of a count converted to the nearest `f32` (ties to even).
pub open spec fn as_f32_value(n: nat) -> nat {
    let p = f32_scale(n);
    if p == 1 {
        n
    } else {
        round_div_even(n, p) * p
    }
}

/// A byte count in its unit, in thousandths, rounded to the nearest
/// thousandth, ties to even.
pub open spec fn thousandths(byte_size: nat) -> nat {
    round_div_even(as_f32_value(byte_size) * 1000, unit_divisor(magnitude(byte_size as int)))
}

/// The ASCII code of a decimal digit.
pub open spec fn digit_byte(d: nat) -> u8 {
    (48 + d) as u8
}

/// The decimal digits of `n`, without leading zeros.
pub open spec fn decimal_bytes(n: nat) -> Seq<u8>
    decreases n,
{
    if n < 10 {
        seq![digit_byte(n)]
    } else {
        decimal_bytes(n / 10).push(digit_byte(n % 10))
    }
}

/// The fractional part `f` thousandths: nothing when it is zero, else a
/// point and up to three digits with trailing zeros left out.
pub open spec fn fraction_bytes(f: nat) -> Seq<u8> {
    let d1 = f / 100;
    let d2 = (f / 10) % 10;
    let d3 = f % 10;
    if f == 0 {
        Seq::empty()
    } else if d3 != 0 {
        seq![46u8, digit_byte(d1), digit_byte(d2), digit_byte(d3)]
    } else if d2 != 0 {
        seq![46u8, digit_byte(d1), digit_byte(d2)]
    } else {
        seq![46u8, digit_byte(d1)]
    }
}

/// A byte count as printed: the count in its unit with at most three
/// decimals, then a space and the unit.
pub open spec fn pretty_bytes(byte_size: nat) -> Seq<u8> {
    let t = thousandths(byte_size);
    decimal_bytes(t / 1000) + fraction_bytes(t % 1000) + seq![32u8] + unit_bytes(magnitude(byte_size as int))
}

proof fn lemma_decimal_ascii(n: nat)
    ensures
        forall|i: int| 0 <= i < decimal_bytes(n).len() ==> decimal_bytes(n)[i] < 128,
    decreases n,
{
    if n >= 10 {
        lemma_decimal_ascii(n / 10);
        let prefix = decimal_bytes(n / 10);
        assert(decimal_bytes(n) == prefix.push(digit_byte(n % 10)));
        assert forall|i: int| 0 <= i < decimal_bytes(n).len() implies decimal_bytes(n)[i] < 128 by {
            if i < prefix.len() {
                assert(decimal_bytes(n)[i] == prefix[i]);
            }
        }
    }
}

/// Append the decimal digits of `n`.
fn push_decimal(out: &mut Vec<u8>, n: u64)
    ensures
        final(out)@ == old(out)@ + decimal_bytes(n as nat),
    decreases n,
{
    if n >= 10 {
        push_decimal(out, n / 10);
    }
    let d: u8 = (n % 10) as u8;
    out.push(48 + d);
    proof {
        if n >= 10 {
            assert(old(out)@ + decimal_bytes(n as nat) =~= out@);
        } else {
            assert(old(out)@ + decimal_bytes(n as nat) =~= out@);
        }
    }
}

/// `n / d` rounded to the nearest integer, ties to the even one.
fn round_div_even_exec(n: u64, d: u64) -> (r: u64)
    requires
        d > 0,
        n / d < u64::MAX,
    ensures
        r == round_div_even(n as nat, d as nat),
{
    let q = n / d;
    let r = n % d;
    if r > d - r || (r == d - r && q % 2 == 1) {
        q + 1
    } else {
        q
    }
}

impl ConsoleMarkdownReport {
    pub fn new() -> Self {
        ConsoleMarkdownReport {  }
    }

    /// Compute the order of magnitude in units of 1024, at most 4.
    pub fn order_of_magnitude(byte_size: u64) -> (k: usize)
        ensures
            k == magnitude(byte_size as int),
    {
        if byte_size < 0x400 {
            0
        } else if byte_size < 0x10_0000 {
            1
        } else if byte_size < 0x4000_0000 {
            2
        } else if byte_size < 0x100_0000_0000 {
            3
        } else {
            4
        }
    }

    /// A byte count in the largest unit (B, KiB, MiB, GiB) in which it is at
    /// least one, with at most three decimals and only as many as needed:
    /// `1024` prints as `1 KiB`, `34235` as `33.433 KiB`.
    ///
    /// The count is first converted to the nearest `f32` and the value in its
    /// unit is rounded to thousandths, ties to even. Counts of 1024 GiB and
    /// more have no unit.
    pub fn pretty_print_bytes(byte_size: u64) -> (s: String)
        requires
            byte_size < 0x100_0000_0000,
        ensures
            s@ == pretty_bytes(byte_size as nat).map_values(|b: u8| b as char),
    {
        let order_of_magnitude = Self::order_of_magnitude(byte_size);
        let divisor: u64 = if order_of_magnitude == 0 {
            1
        } else if order_of_magnitude == 1 {
            0x400
        } else if order_of_magnitude == 2 {
            0x10_0000
        } else {
            0x4000_0000
        };

        // the count as the nearest f32
        let mut scale: u64 = 1;
        while byte_size / scale >= 0x100_0000
            invariant
                byte_size < 0x100_0000_0000,
                1 <= scale <= 0x2_0000,
                f32_scale(byte_size as nat) == scale * f32_scale((byte_size / scale) as nat),
                scale == 1 || byte_size / scale >= 0x80_0000,
            decreases byte_size / scale,
        {
            proof {
                let b = byte_size as int;
                let s = scale as int;
                lemma_div_denominator(b, s, 2);
                assert(f32_scale((b / s) as nat) == 2 * f32_scale(((b / s) / 2) as nat));
                assert(b / s >= 0x100_0000);
                assert(s < 0x1_0000) by (nonlinear_arith)
                    requires
                        b / s >= 0x100_0000,
                        b < 0x100_0000_0000,
                        s >= 1,
                {
                    if s >= 0x1_0000 {
                        assert(b / s <= b / 0x1_0000) by {
                            vstd::arithmetic::div_mod::lemma_div_is_ordered_by_denominator(b, 0x1_0000, s);
                        }
                    }
                }
                assert((b / s) / 2 >= 0x80_0000);
                let x = f32_scale(((b / s) / 2) as nat) as int;
                assert(s * (2 * x) == (s * 2) * x) by (nonlinear_arith);
            }
            scale = scale * 2;
        }
        proof {
            let inner = f32_scale((byte_size / scale) as nat);
            assert(inner == 1);
            assert(scale * inner == scale) by (nonlinear_arith)
                requires
                    inner == 1,
            ;
            assert(f32_scale(byte_size as nat) == scale);
        }
        let approx: u64 = if scale == 1 {
            byte_size
        } else {
            proof {
                let b = byte_size as int;
                let s = scale as int;
                lemma_fundamental_div_mod(b, s);
                assert(b / s < 0x100_0000);
            }
            let rounded = round_div_even_exec(byte_size, scale);
            proof {
                assert(rounded <= 0x100_0000);
                assert(rounded * scale <= 0x2_0000_0000_0000) by (nonlinear_arith)
                    requires
                        rounded <= 0x100_0000,
                        scale <= 0x2_0000,
                ;
            }
            rounded * scale
        };
        proof {
            assert(approx == as_f32_value(byte_size as nat));
            assert(approx <= 0x2_0000_0000_0000);
        }
        let numerator: u64 = approx * 1000;
        proof {
            assert(numerator / divisor <= numerator) by {
                vstd::arithmetic::div_mod::lemma_div_is_ordered_by_denominator(numerator as int, 1, divisor as int);
            }
        }
        let t = round_div_even_exec(numerator, divisor);

        let mut out: Vec<u8> = Vec::new();
        push_decimal(&mut out, t / 1000);
        let f = t % 1000;
        if f != 0 {
            out.push(46);
            out.push(48 + (f / 100) as u8);
            if f % 10 != 0 {
                out.push(48 + ((f / 10) % 10) as u8);
                out.push(48 + (f % 10) as u8);
            } else if (f / 10) % 10 != 0 {
                out.push(48 + ((f / 10) % 10) as u8);
            }
        }
        out.push(32);
        if order_of_magnitude == 0 {
            out.push(66);
        } else {
            if order_of_magnitude == 1 {
                out.push(75);
            } else if order_of_magnitude == 2 {
                out.push(77);
            } else {
                out.push(71);
            }
            out.push(105);
            out.push(66);
        }
        proof {
            let tt = t as nat;
            lemma_decimal_ascii(tt / 1000);
            assert(out@ =~= pretty_bytes(byte_size as nat));
        }
        match string_from_utf8(out) {
            Ok(text) => text,
            Err(_) => String::new(),
        }
    }
}

} // verus!
