//! Text forms of the values the machine exchanges with its streams.
//!
//! The decimal-output instruction renders a number as its digit characters;
//! the integer-input instruction reads one whitespace-delimited decimal
//! token. Both directions are specified here as functions on byte
//! sequences and implemented against those specifications.

use vstd::prelude::*;

verus! {

/// The decimal digit characters of `n`, most significant first.
pub open spec fn decimal_digits(n: nat) -> Seq<u8>
    decreases n,
{
    if n < 10 {
        seq![(48 + n) as u8]
    } else {
        decimal_digits(n / 10).push((48 + n % 10) as u8)
    }
}

/// Appends the decimal rendering of `n` to `out`.
pub fn push_decimal(out: &mut Vec<u8>, n: usize)
    ensures
        final(out)@ == old(out)@ + decimal_digits(n as nat),
    decreases n,
{
    if n < 10 {
        out.push(48 + (n as u8));
        proof {
            assert(out@ =~= old(out)@ + decimal_digits(n as nat));
        }
    } else {
        push_decimal(out, n / 10);
        out.push(48 + ((n % 10) as u8));
        proof {
            assert(out@ =~= old(out)@ + decimal_digits(n as nat));
        }
    }
}

/// Bytes that delimit input tokens: space, tab, line feed, carriage return.
pub open spec fn is_ws(b: u8) -> bool {
    b == 32 || b == 9 || b == 10 || b == 13
}

/// Decimal digit bytes.
pub open spec fn is_digit(b: u8) -> bool {
    48 <= b && b <= 57
}

/// Position of the first non-whitespace byte at or after `pos`.
pub open spec fn skip_ws(input: Seq<u8>, pos: int) -> int
    decreases input.len() - pos,
{
    if 0 <= pos < input.len() && is_ws(input[pos]) {
        skip_ws(input, pos + 1)
    } else {
        pos
    }
}

/// Position of the first whitespace byte at or after `pos`, or the end.
pub open spec fn token_end(input: Seq<u8>, pos: int) -> int
    decreases input.len() - pos,
{
    if 0 <= pos < input.len() && !is_ws(input[pos]) {
        token_end(input, pos + 1)
    } else {
        pos
    }
}

/// Numeric value of a digit string, most significant digit first.
pub open spec fn digits_value(s: Seq<u8>) -> int
    decreases s.len(),
{
    if s.len() == 0 {
        0
    } else {
        digits_value(s.drop_last()) * 10 + (s.last() - 48)
    }
}

/// Whether every byte of `input[start..end)` is a decimal digit.
pub open spec fn all_digits(input: Seq<u8>, start: int, end: int) -> bool {
    forall|i: int| start <= i < end ==> is_digit(#[trigger] input[i])
}

/// What reading one whitespace-delimited integer from `input` at `pos`
/// yields: leading whitespace is skipped, then the token up to the next
/// whitespace (or the end) must be one or more digits whose value fits a
/// `usize`. The second component is the position after the token.
pub open spec fn parse_int_spec(input: Seq<u8>, pos: int) -> (Option<usize>, int) {
    let start = skip_ws(input, pos);
    let end = token_end(input, start);
    if start < end && all_digits(input, start, end) && digits_value(
        input.subrange(start, end),
    ) <= usize::MAX as int {
        (Some(digits_value(input.subrange(start, end)) as usize), end)
    } else {
        (None, end)
    }
}

proof fn lemma_digits_value_nonneg(s: Seq<u8>)
    requires
        forall|i: int| 0 <= i < s.len() ==> is_digit(#[trigger] s[i]),
    ensures
        digits_value(s) >= 0,
    decreases s.len(),
{
    if s.len() > 0 {
        lemma_digits_value_nonneg(s.drop_last());
    }
}

/// The value of a digit string is at least the value of any of its
/// prefixes: appending digits never shrinks the number.
proof fn lemma_digits_value_prefix(s: Seq<u8>, k: int)
    requires
        0 <= k <= s.len(),
        forall|i: int| 0 <= i < s.len() ==> is_digit(#[trigger] s[i]),
    ensures
        digits_value(s.take(k)) <= digits_value(s),
    decreases s.len(),
{
    if k == s.len() {
        assert(s.take(k) =~= s);
    } else {
        lemma_digits_value_prefix(s.drop_last(), k);
        assert(s.drop_last().take(k) =~= s.take(k));
        lemma_digits_value_nonneg(s.drop_last());
        assert(is_digit(s[s.len() - 1]));
    }
}

proof fn lemma_token_end_bounds(input: Seq<u8>, pos: int)
    requires
        0 <= pos <= input.len(),
    ensures
        pos <= token_end(input, pos) <= input.len(),
    decreases input.len() - pos,
{
    if pos < input.len() && !is_ws(input[pos]) {
        lemma_token_end_bounds(input, pos + 1);
    }
}

fn is_ws_byte(b: u8) -> (r: bool)
    ensures
        r == is_ws(b),
{
    b == 32 || b == 9 || b == 10 || b == 13
}

/// Reads one whitespace-delimited integer from `input` at `pos`, exactly
/// as `parse_int_spec` describes: the value if the token is well formed,
/// `None` if the token is empty, holds a non-digit, or overflows; and in
/// either case the position after the token.
pub fn parse_integer(input: &Vec<u8>, pos: usize) -> (r: (Option<usize>, usize))
    requires
        pos <= input.len(),
    ensures
        r.0 == parse_int_spec(input@, pos as int).0,
        r.1 as int == parse_int_spec(input@, pos as int).1,
        pos <= r.1 <= input.len(),
{
    let n = input.len();
    let mut i = pos;
    while i < n && is_ws_byte(input[i])
        invariant
            pos <= i <= n,
            n == input.len(),
            skip_ws(input@, pos as int) == skip_ws(input@, i as int),
        decreases n - i,
    {
        i = i + 1;
    }
    assert(skip_ws(input@, i as int) == i as int);
    let start_i = i;
    let ghost start = i as int;
    let ghost end = token_end(input@, start);
    proof {
        lemma_token_end_bounds(input@, start);
    }
    let mut val: usize = 0;
    let mut good = true;
    while i < n && !is_ws_byte(input[i])
        invariant
            start_i <= i <= n,
            n == input.len(),
            start == start_i as int,
            end == token_end(input@, start),
            token_end(input@, i as int) == end,
            start <= i as int <= end,
            good ==> all_digits(input@, start, i as int) && val == digits_value(
                input@.subrange(start, i as int),
            ),
            !good ==> parse_int_spec(input@, pos as int).0 is None,
            skip_ws(input@, pos as int) == start,
        decreases n - i,
    {
        let b = input[i];
        proof {
            lemma_token_end_bounds(input@, i + 1);
        }
        if b < 48 || b > 57 {
            good = false;
            proof {
                lemma_token_end_bounds(input@, i + 1);
                assert(!is_digit(input@[i as int]));
                assert((i as int) < end);
                assert(!all_digits(input@, start, end));
            }
        } else if good {
            let d = (b - 48) as usize;
            proof {
                assert(input@.subrange(start, i + 1).drop_last() =~= input@.subrange(
                    start,
                    i as int,
                ));
                assert(input@.subrange(start, i + 1).last() == b);
            }
            if val <= (usize::MAX - d) / 10 {
                proof {
                    assert(val * 10 <= ((usize::MAX - d) / 10) * 10) by (nonlinear_arith)
                        requires
                            val <= (usize::MAX - d) / 10,
                    ;
                    assert(((usize::MAX - d) / 10) * 10 <= usize::MAX - d) by (nonlinear_arith);
                }
                val = val * 10 + d;
            } else {
                good = false;
                proof {
                    assert(val * 10 >= ((usize::MAX - d) / 10 + 1) * 10) by (nonlinear_arith)
                        requires
                            val >= (usize::MAX - d) / 10 + 1,
                    ;
                    assert(((usize::MAX - d) / 10 + 1) * 10 > usize::MAX - d) by (nonlinear_arith);
                    let tok1 = input@.subrange(start, i + 1);
                    assert(digits_value(tok1) == val * 10 + d > usize::MAX as int);
                    if all_digits(input@, start, end) && digits_value(
                        input@.subrange(start, end),
                    ) <= usize::MAX as int {
                        let tok = input@.subrange(start, end);
                        assert(forall|j: int| 0 <= j < tok.len() ==> is_digit(#[trigger] tok[j]));
                        lemma_digits_value_prefix(tok, i + 1 - start);
                        assert(tok.take(i + 1 - start) =~= tok1);
                        assert(false);
                    }
                }
            }
            proof {
                assert(good ==> val == digits_value(input@.subrange(start, i + 1)));
            }
        }
        i = i + 1;
    }
    assert(token_end(input@, i as int) == i as int);
    if good && start_i < i {
        (Some(val), i)
    } else {
        (None, i)
    }
}

} // verus!
