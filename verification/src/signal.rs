//! Decoding of the remote steering signal: the response body is UTF-8 text
//! holding an optionally signed decimal integer. A body that is anything else
//! is a protocol violation; the decoder rejects it and the caller keeps the
//! previous signal.

use vstd::prelude::*;

verus! {

/// Whether a byte is an ASCII decimal digit.
pub open spec fn spec_is_digit(b: u8) -> bool {
    48 <= b <= 57
}

/// The digits of a signal text: the whole body, with a single leading `+` or
/// `-` stripped.
pub open spec fn spec_digits_of(s: Seq<u8>) -> Seq<u8> {
    if s.len() > 0 && (s[0] == 43 || s[0] == 45) {
        s.subrange(1, s.len() as int)
    } else {
        s
    }
}

/// The sign a signal text carries: negative exactly under a leading `-`.
pub open spec fn spec_sign_of(s: Seq<u8>) -> int {
    if s.len() > 0 && s[0] == 45 {
        -1
    } else {
        1
    }
}

/// The value of a digit string, most significant digit first.
pub open spec fn spec_digits_value(s: Seq<u8>) -> int
    decreases s.len(),
{
    if s.len() == 0 {
        0
    } else {
        spec_digits_value(s.drop_last()) * 10 + (s.last() - 48)
    }
}

/// Whether a body is a signal text: after the optional sign, one or more
/// bytes, all decimal digits.
pub open spec fn spec_is_signal_text(s: Seq<u8>) -> bool {
    &&& spec_digits_of(s).len() > 0
    &&& forall|i: int| 0 <= i < spec_digits_of(s).len() ==> spec_is_digit(#[trigger] spec_digits_of(s)[i])
}

/// The integer a signal text denotes.
pub open spec fn spec_signal_value(s: Seq<u8>) -> int {
    spec_sign_of(s) * spec_digits_value(spec_digits_of(s))
}

/// Whether a body decodes to a signal: it is a signal text and its value
/// fits the signal's integer type.
pub open spec fn spec_valid_signal(s: Seq<u8>) -> bool {
    &&& spec_is_signal_text(s)
    &&& i32::MIN <= spec_signal_value(s) <= i32::MAX
}

/// The value of an all-digit string is never negative.
proof fn lemma_digits_value_nonneg(s: Seq<u8>)
    requires
        forall|i: int| 0 <= i < s.len() ==> spec_is_digit(#[trigger] s[i]),
    ensures
        spec_digits_value(s) >= 0,
    decreases s.len(),
{
    if s.len() > 0 {
        assert(forall|i: int|
            0 <= i < s.drop_last().len() ==> spec_is_digit(#[trigger] s.drop_last()[i]));
        lemma_digits_value_nonneg(s.drop_last());
    }
}

/// Appending digits never shrinks the value: the value of a prefix of an
/// all-digit string is at most the value of the whole string.
proof fn lemma_digits_value_prefix_le(s: Seq<u8>, n: int)
    requires
        forall|i: int| 0 <= i < s.len() ==> spec_is_digit(#[trigger] s[i]),
        0 <= n <= s.len(),
    ensures
        spec_digits_value(s.take(n)) <= spec_digits_value(s),
    decreases s.len() - n,
{
    if n == s.len() {
        assert(s.take(n) =~= s);
    } else {
        assert(s.take(n + 1).drop_last() =~= s.take(n));
        assert(s.take(n + 1).last() == s[n]);
        assert(forall|i: int| 0 <= i < s.take(n).len() ==> spec_is_digit(#[trigger] s.take(n)[i]));
        lemma_digits_value_nonneg(s.take(n));
        assert(spec_digits_value(s.take(n + 1)) == spec_digits_value(s.take(n)) * 10 + (s[n]
            - 48));
        lemma_digits_value_prefix_le(s, n + 1);
    }
}

/// Decodes a response body as a steering signal: `Some` exactly when the
/// body is an optionally signed decimal integer whose value fits `i32`, and
/// then the decoded value is that integer.
pub fn parse_signal(body: &[u8]) -> (r: Option<i32>)
    ensures
        r is Some <==> spec_valid_signal(body@),
        r matches Some(v) ==> v as int == spec_signal_value(body@),
{
    let n = body.len();
    let ghost digits = spec_digits_of(body@);
    let mut neg = false;
    let mut start: usize = 0;
    if n > 0 && (body[0] == 43 || body[0] == 45) {
        neg = body[0] == 45;
        start = 1;
    }
    proof {
        assert(digits =~= body@.subrange(start as int, n as int));
    }
    if start >= n {
        // no digits at all
        return None;
    }
    let mut mag: u64 = 0;
    let mut k: usize = start;
    while k < n
        invariant
            start <= k <= n,
            n == body@.len(),
            digits == spec_digits_of(body@),
            digits =~= body@.subrange(start as int, n as int),
            forall|i: int| 0 <= i < k - start ==> spec_is_digit(#[trigger] digits[i]),
            mag == spec_digits_value(digits.take(k - start)),
            mag <= 0x8000_0000,
        decreases n - k,
    {
        let b = body[k];
        if b < 48 || b > 57 {
            // a non-digit byte: the body is no signal text
            proof {
                assert(digits[k - start] == body@[k as int]);
                assert(!spec_is_digit(digits[k - start]));
                assert(!spec_is_signal_text(body@));
            }
            return None;
        }
        proof {
            assert(digits.take(k - start + 1).drop_last() =~= digits.take(k - start));
            assert(digits.take(k - start + 1).last() == digits[k - start]);
            assert(digits[k - start] == body@[k as int]);
        }
        mag = mag * 10 + (b - 48) as u64;
        if mag > 0x8000_0000 {
            // even the digits so far exceed the signal range, and further
            // digits can only grow the value
            proof {
                if spec_is_signal_text(body@) {
                    assert(forall|i: int| 0 <= i < digits.len() ==> spec_is_digit(
                        #[trigger] digits[i],
                    ));
                    lemma_digits_value_prefix_le(digits, k - start + 1);
                    assert(spec_digits_value(digits) >= mag > 0x8000_0000);
                    assert(!spec_valid_signal(body@));
                }
            }
            return None;
        }
        k = k + 1;
    }
    proof {
        assert(digits.take(n - start) =~= digits);
        assert(spec_is_signal_text(body@));
        lemma_digits_value_nonneg(digits);
    }
    if neg {
        let v = -(mag as i64);
        proof {
            assert(spec_sign_of(body@) == -1);
            assert(spec_signal_value(body@) == -(mag as int));
        }
        Some(v as i32)
    } else {
        if mag > 0x7fff_ffff {
            // the unsigned value 2^31 does not fit a positive signal
            return None;
        }
        proof {
            assert(spec_sign_of(body@) == 1);
            assert(spec_signal_value(body@) == mag as int);
        }
        Some(mag as i32)
    }
}

} // verus!
