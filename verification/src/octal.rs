//! Octal ASCII numerals as they appear in the numeric fields of a header.
//!
//! A numeric field is a run of the digits `'0'` to `'7'`, most significant
//! first, followed by padding made of NUL bytes and ASCII whitespace. Reading
//! is permissive: a field that is empty once the padding is gone, or that
//! holds any other byte, stands for zero.

use vstd::prelude::*;

verus! {

/// Whether `b` is one of the ASCII digits `'0'` to `'7'`.
pub open spec fn is_octal_digit(b: u8) -> bool {
    0x30 <= b <= 0x37
}

/// Whether `b` may pad the end of a numeric field: NUL, space, or one of the
/// ASCII whitespace controls from horizontal tab to carriage return.
pub open spec fn is_padding(b: u8) -> bool {
    b == 0 || b == 0x20 || 0x09 <= b <= 0x0d
}

/// The field without its trailing padding.
pub open spec fn trim_padding(field: Seq<u8>) -> Seq<u8>
    decreases field.len(),
{
    if field.len() > 0 && is_padding(field.last()) {
        trim_padding(field.drop_last())
    } else {
        field
    }
}

/// Whether every byte of `digits` is an octal digit.
pub open spec fn all_octal(digits: Seq<u8>) -> bool {
    forall|i: int| 0 <= i < digits.len() ==> is_octal_digit(#[trigger] digits[i])
}

/// The number that a run of octal digits denotes, most significant digit first.
pub open spec fn octal_value(digits: Seq<u8>) -> nat
    decreases digits.len(),
{
    if digits.len() == 0 {
        0
    } else {
        8 * octal_value(digits.drop_last()) + (digits.last() - 0x30) as nat
    }
}

/// The number that a numeric field stands for.
pub open spec fn numeric_field(field: Seq<u8>) -> nat {
    let digits = trim_padding(field);
    if digits.len() > 0 && all_octal(digits) {
        octal_value(digits)
    } else {
        0
    }
}

/// Eight to the power `n`.
pub open spec fn pow8(n: nat) -> nat
    decreases n,
{
    if n == 0 {
        1
    } else {
        8 * pow8((n - 1) as nat)
    }
}

/// Trimming yields a prefix of the field that does not end in padding, and
/// everything behind that prefix is padding.
pub proof fn lemma_trim_padding(field: Seq<u8>)
    ensures
        trim_padding(field).len() <= field.len(),
        trim_padding(field) == field.subrange(0, trim_padding(field).len() as int),
        trim_padding(field).len() > 0 ==> !is_padding(trim_padding(field).last()),
        forall|i: int| trim_padding(field).len() <= i < field.len() ==> is_padding(field[i]),
    decreases field.len(),
{
    if field.len() > 0 && is_padding(field.last()) {
        let shorter = field.drop_last();
        lemma_trim_padding(shorter);
        let n = trim_padding(shorter).len() as int;
        assert(shorter.subrange(0, n) =~= field.subrange(0, n));
        assert forall|i: int| n <= i < field.len() implies is_padding(field[i]) by {
            if i < shorter.len() {
                assert(shorter[i] == field[i]);
            }
        }
    } else {
        assert(field =~= field.subrange(0, field.len() as int));
    }
}

/// A run of `n` octal digits denotes a number below `8^n`.
pub proof fn lemma_octal_value_bound(digits: Seq<u8>)
    requires
        all_octal(digits),
    ensures
        octal_value(digits) < pow8(digits.len()),
    decreases digits.len(),
{
    if digits.len() > 0 {
        lemma_octal_value_bound(digits.drop_last());
    }
}

/// The number denoted by the first `n` digits never exceeds the number
/// denoted by the whole run.
pub proof fn lemma_octal_prefix_le(digits: Seq<u8>, n: int)
    requires
        all_octal(digits),
        0 <= n <= digits.len(),
    ensures
        octal_value(digits.subrange(0, n)) <= octal_value(digits),
    decreases digits.len() - n,
{
    if n == digits.len() {
        assert(digits.subrange(0, n) =~= digits);
    } else {
        lemma_octal_prefix_le(digits, n + 1);
        assert(digits.subrange(0, n + 1).drop_last() =~= digits.subrange(0, n));
    }
}

/// A numeric field of `n` bytes stands for a number below `8^n`.
pub proof fn lemma_numeric_field_bound(field: Seq<u8>)
    ensures
        numeric_field(field) < pow8(field.len()),
{
    let digits = trim_padding(field);
    lemma_trim_padding(field);
    lemma_pow8_monotonic(digits.len(), field.len());
    if digits.len() > 0 && all_octal(digits) {
        lemma_octal_value_bound(digits);
    }
}

/// Powers of eight are positive and grow with the exponent.
pub proof fn lemma_pow8_monotonic(m: nat, n: nat)
    requires
        m <= n,
    ensures
        0 < pow8(m) <= pow8(n),
    decreases n,
{
    if n == 0 {
    } else if m == n {
        lemma_pow8_monotonic((m - 1) as nat, (n - 1) as nat);
    } else {
        lemma_pow8_monotonic(m, (n - 1) as nat);
    }
}

/// Tells whether a byte is an octal ASCII digit.
pub fn octal_digit(b: u8) -> (r: bool)
    ensures
        r == is_octal_digit(b),
{
    0x30 <= b && b <= 0x37
}

/// Tells whether a byte counts as padding at the end of a numeric field.
pub fn padding_byte(b: u8) -> (r: bool)
    ensures
        r == is_padding(b),
{
    b == 0 || b == 0x20 || (0x09 <= b && b <= 0x0d)
}

/// Decodes a numeric field.
///
/// The result is the number that the field stands for. Where that number does
/// not fit in 64 bits the field counts as malformed, and the result is zero.
pub fn parse_octal(field: &[u8]) -> (value: u64)
    ensures
        numeric_field(field@) <= u64::MAX ==> value == numeric_field(field@),
        numeric_field(field@) > u64::MAX ==> value == 0,
{
    let mut end: usize = field.len();
    assert(field@.subrange(0, end as int) =~= field@);
    while end > 0 && padding_byte(field[end - 1])
        invariant
            end <= field@.len(),
            trim_padding(field@) == trim_padding(field@.subrange(0, end as int)),
        decreases end,
    {
        proof {
            let head = field@.subrange(0, end as int);
            assert(head.last() == field@[end - 1]);
            assert(head.drop_last() =~= field@.subrange(0, end - 1));
        }
        end -= 1;
    }
    let ghost digits = field@.subrange(0, end as int);
    proof {
        if end > 0 {
            assert(digits.last() == field@[end - 1]);
        }
        assert(trim_padding(field@) == digits);
    }
    if end == 0 {
        return 0;
    }
    let mut acc: u64 = 0;
    let mut i: usize = 0;
    while i < end
        invariant
            i <= end <= field@.len(),
            digits == field@.subrange(0, end as int),
            digits == trim_padding(field@),
            all_octal(digits.subrange(0, i as int)),
            acc == octal_value(digits.subrange(0, i as int)),
        decreases end - i,
    {
        let b: u8 = field[i];
        let ghost head = digits.subrange(0, i + 1);
        proof {
            assert(head.last() == b);
            assert(head.drop_last() =~= digits.subrange(0, i as int));
        }
        if !octal_digit(b) {
            assert(!is_octal_digit(digits[i as int]));
            return 0;
        }
        let d: u64 = (b - 0x30) as u64;
        if acc > (u64::MAX - d) / 8 {
            proof {
                assert(octal_value(head) > u64::MAX);
                if all_octal(digits) {
                    lemma_octal_prefix_le(digits, i + 1);
                }
            }
            return 0;
        }
        acc = acc * 8 + d;
        i += 1;
    }
    proof {
        assert(digits.subrange(0, end as int) =~= digits);
    }
    acc
}

} // verus!
