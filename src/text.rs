//! Decimal and hexadecimal text, as the ledger's hash rule and messages use it.
use vstd::prelude::*;
use vstd::string::StringExecFns;
use vstd::string::StringSliceAdditionalSpecFns;

verus! {

/// The character of a decimal digit.
pub open spec fn digit_char(d: int) -> char {
    seq!['0', '1', '2', '3', '4', '5', '6', '7', '8', '9'][d]
}

/// Decimal digits of a natural number, most significant first, no leading zeros.
pub open spec fn nat_decimal(n: nat) -> Seq<char>
    decreases n,
{
    if n < 10 {
        seq![digit_char(n as int)]
    } else {
        nat_decimal(n / 10).push(digit_char((n % 10) as int))
    }
}

/// Decimal text of an integer: a `-` before the digits of a negative one.
pub open spec fn int_decimal(n: int) -> Seq<char> {
    if n < 0 {
        seq!['-'] + nat_decimal((-n) as nat)
    } else {
        nat_decimal(n as nat)
    }
}

/// The character of a hexadecimal digit, lower case.
pub open spec fn hex_char(d: int) -> char {
    seq!['0', '1', '2', '3', '4', '5', '6', '7', '8', '9', 'a', 'b', 'c', 'd', 'e', 'f'][d]
}

/// Lower-case hexadecimal text of bytes: two digits per byte, high nibble first.
pub open spec fn hex_lower(b: Seq<u8>) -> Seq<char> {
    Seq::new(
        2 * b.len(),
        |i: int| if i % 2 == 0 { hex_char((b[i / 2] / 16) as int) } else { hex_char((b[i / 2] % 16) as int) },
    )
}

/// A byte that is a hexadecimal digit of either case.
pub open spec fn is_hex_digit(c: u8) -> bool {
    (48 <= c <= 57) || (65 <= c <= 70) || (97 <= c <= 102)
}

/// Bytes that decode as hexadecimal: an even number of hex digits.
pub open spec fn hex_decodable(b: Seq<u8>) -> bool {
    b.len() % 2 == 0 && forall|i: int| 0 <= i < b.len() ==> is_hex_digit(#[trigger] b[i])
}

/// Relies on `hex::decode`: it fails on odd length and on any byte that is
/// not a hex digit, and succeeds otherwise.
#[verifier::external_body]
pub(crate) fn decodes_as_hex(s: &str) -> (r: bool)
    ensures
        r == hex_decodable(s.spec_bytes()),
{
    hex::decode(s).is_ok()
}

/// Relies on `hex::encode`: lower-case digits, two per byte.
#[verifier::external_body]
pub(crate) fn to_hex(b: &[u8]) -> (r: String)
    ensures
        r@ == hex_lower(b@),
{
    hex::encode(b)
}

/// Relies on `i128`'s `Display` (through `to_string`): plain decimal, with a
/// leading `-` for negative values.
#[verifier::external_body]
pub(crate) fn i128_decimal(n: i128) -> (r: String)
    ensures
        r@ == int_decimal(n as int),
{
    n.to_string()
}

/// `prefix` followed by `rest`.
pub fn joined(prefix: &str, rest: &str) -> (r: String)
    ensures
        r@ == prefix@ + rest@,
{
    prefix.to_owned().concat(rest)
}

proof fn lemma_nat_decimal_split(h: nat, l: nat)
    requires
        h > 0,
        l < 10,
    ensures
        nat_decimal(10 * h + l) == nat_decimal(h).push(digit_char(l as int)),
{
    let n = 10 * h + l;
    assert(n / 10 == h && n % 10 == l) by (nonlinear_arith)
        requires
            n == 10 * h + l,
            l < 10,
    ;
}

/// Decimal text of the sum `a + b`, which may lie outside the range of `i128`.
pub fn sum_decimal_text(a: i128, b: i128) -> (r: String)
    ensures
        r@ == int_decimal(a + b),
{
    match a.checked_add(b) {
        Some(s) => i128_decimal(s),
        None => {
            if a >= 0 {
                // Both positive: the sum fits in a u128.
                let m: u128 = (a as u128) + (b as u128);
                let h: u128 = m / 10;
                let l: u128 = m % 10;
                proof {
                    lemma_nat_decimal_split(h as nat, l as nat);
                }
                let head = i128_decimal(h as i128);
                let tail = i128_decimal(l as i128);
                joined(head.as_str(), tail.as_str())
            } else {
                // Both negative: split the magnitude into tens and a last digit.
                let ma: u128 = ((-(a + 1)) as u128) + 1;
                let mb: u128 = ((-(b + 1)) as u128) + 1;
                let h: u128 = ma / 10 + mb / 10 + (ma % 10 + mb % 10) / 10;
                let l: u128 = (ma % 10 + mb % 10) % 10;
                assert(ma + mb == 10 * h + l);
                proof {
                    lemma_nat_decimal_split(h as nat, l as nat);
                }
                let head = i128_decimal(-(h as i128));
                let tail = i128_decimal(l as i128);
                joined(head.as_str(), tail.as_str())
            }
        },
    }
}

/// A byte that is a decimal digit.
pub open spec fn is_digit_byte(c: u8) -> bool {
    48 <= c <= 57
}

/// One or more decimal digits.
pub open spec fn all_digits(b: Seq<u8>) -> bool {
    b.len() > 0 && forall|i: int| 0 <= i < b.len() ==> is_digit_byte(#[trigger] b[i])
}

/// The number that decimal digits denote.
pub open spec fn digits_value(b: Seq<u8>) -> int
    decreases b.len(),
{
    if b.len() == 0 {
        0
    } else {
        digits_value(b.drop_last()) * 10 + (b.last() - 48)
    }
}

/// The integer that a decimal text denotes: digits, with an optional leading `-`.
pub open spec fn decimal_value(b: Seq<u8>) -> Option<int> {
    if b.len() > 0 && b[0] == 45 && all_digits(b.drop_first()) {
        Some(-digits_value(b.drop_first()))
    } else if all_digits(b) {
        Some(digits_value(b))
    } else {
        None
    }
}

proof fn lemma_digits_value_grows(b: Seq<u8>, i: int)
    requires
        0 <= i <= b.len(),
        forall|k: int| 0 <= k < b.len() ==> is_digit_byte(#[trigger] b[k]),
    ensures
        0 <= digits_value(b.take(i)) <= digits_value(b),
    decreases b.len() - i,
{
    if i < b.len() {
        lemma_digits_value_grows(b, i + 1);
        assert(b.take(i + 1).drop_last() == b.take(i));
    } else {
        assert(b.take(i) == b);
    }
    lemma_digits_value_nonneg(b);
}

proof fn lemma_digits_value_nonneg(b: Seq<u8>)
    requires
        forall|k: int| 0 <= k < b.len() ==> is_digit_byte(#[trigger] b[k]),
    ensures
        digits_value(b) >= 0,
    decreases b.len(),
{
    if b.len() > 0 {
        lemma_digits_value_nonneg(b.drop_last());
    }
}

/// Reads a signed decimal integer: digits with an optional leading `-`,
/// within the range of `i128`.
pub fn parse_i128(s: &str) -> (r: Option<i128>)
    ensures
        match decimal_value(s.spec_bytes()) {
            Some(v) => if i128::MIN <= v <= i128::MAX {
                r == Some(v as i128)
            } else {
                r is None
            },
            None => r is None,
        },
{
    let b = s.as_bytes();
    let ghost bs = b@;
    let negative = b.len() > 0 && b[0] == 45;
    let start: usize = if negative { 1 } else { 0 };
    let ghost digits = bs.subrange(start as int, bs.len() as int);
    if start >= b.len() {
        assert(!all_digits(digits));
        assert(negative ==> !is_digit_byte(bs[0]));
        assert(negative ==> digits =~= bs.drop_first());
        return None;
    }
    // The negated value of the digits read so far.
    let mut acc: i128 = 0;
    let mut i: usize = start;
    while i < b.len()
        invariant
            start <= i <= b.len(),
            bs == b@,
            bs == s.spec_bytes(),
            negative == (bs.len() > 0 && bs[0] == 45),
            start == (if negative { 1usize } else { 0usize }),
            digits == bs.subrange(start as int, bs.len() as int),
            forall|k: int| start <= k < i ==> is_digit_byte(#[trigger] bs[k]),
            acc == -digits_value(digits.take(i - start)),
            acc <= 0,
        decreases b.len() - i,
    {
        let c = b[i];
        if c < 48 || c > 57 {
            assert(digits[i - start] == c);
            proof {
                assert(!all_digits(digits));
                if negative {
                    assert(digits =~= bs.drop_first());
                    assert(!is_digit_byte(bs[0]));
                    assert(!all_digits(bs));
                } else {
                    assert(digits =~= bs);
                }
                assert(decimal_value(bs) is None);
            }
            return None;
        }
        assert(digits.take(i + 1 - start).drop_last() =~= digits.take(i - start));
        assert(digits.take(i + 1 - start).last() == c);
        let d = (c - 48) as i128;
        // `acc * 10 - d` stays within `i128` exactly when both tests pass.
        let fits = acc >= -17014118346046923173168730371588410572i128 && acc * 10 >= i128::MIN + d;
        if !fits {
            // Once out of range, further digits only move further out.
            proof {
                let p = digits.take(i + 1 - start);
                assert(digits_value(p) == digits_value(digits.take(i - start)) * 10 + (c - 48));
                assert(digits_value(p) > i128::MAX + 1);
                if all_digits(digits) {
                    lemma_digits_value_grows(digits, i + 1 - start);
                }
                if negative {
                    assert(digits =~= bs.drop_first());
                    assert(!is_digit_byte(bs[0]));
                    assert(!all_digits(bs));
                } else {
                    assert(digits =~= bs);
                }
            }
            return None;
        }
        acc = acc * 10 - d;
        i = i + 1;
    }
    proof {
        assert(digits.take(i - start) =~= digits);
        assert(negative ==> digits =~= bs.drop_first());
        assert(!negative ==> digits =~= bs);
    }
    if negative {
        Some(acc)
    } else if acc == i128::MIN {
        None
    } else {
        Some(-acc)
    }
}

} // verus!
