use vstd::prelude::*;

use crate::text::{chars_of, push_char};

verus! {

/// A decimal digit character.
pub open spec fn is_digit(c: char) -> bool {
    '0' <= c <= '9'
}

/// The value of a digit character.
pub open spec fn digit_value(c: char) -> int {
    c as int - '0' as int
}

/// The digit character of a value below ten.
pub open spec fn digit_char(d: nat) -> char {
    (48 + d) as char
}

/// The decimal digits of `n`, most significant first, with no leading zero.
pub open spec fn digits_of(n: nat) -> Seq<char>
    decreases n,
{
    if n < 10 {
        seq![digit_char(n)]
    } else {
        digits_of(n / 10).push(digit_char(n % 10))
    }
}

/// The decimal text of `n`: a minus sign before a negative number's digits.
pub open spec fn decimal(n: int) -> Seq<char> {
    if n < 0 {
        seq!['-'] + digits_of((-n) as nat)
    } else {
        digits_of(n as nat)
    }
}

/// One or more digit characters.
pub open spec fn all_digits(s: Seq<char>) -> bool {
    s.len() > 0 && forall|i: int| 0 <= i < s.len() ==> is_digit(#[trigger] s[i])
}

/// The value of a run of digits.
pub open spec fn digits_value(s: Seq<char>) -> int
    decreases s.len(),
{
    if s.len() == 0 {
        0
    } else {
        digits_value(s.drop_last()) * 10 + digit_value(s.last())
    }
}

/// The number a text stands for: digits, with an optional leading `+` or
/// `-`; `None` for any other text.
pub open spec fn signed_value(s: Seq<char>) -> Option<int> {
    if s.len() > 0 && s[0] == '-' && all_digits(s.drop_first()) {
        Some(-digits_value(s.drop_first()))
    } else if s.len() > 0 && s[0] == '+' && all_digits(s.drop_first()) {
        Some(digits_value(s.drop_first()))
    } else if all_digits(s) {
        Some(digits_value(s))
    } else {
        None
    }
}

/// The 64-bit integer a text stands for, where it stands for one in range.
pub open spec fn parsed_i64(s: Seq<char>) -> Option<i64> {
    match signed_value(s) {
        Some(v) => if i64::MIN <= v <= i64::MAX {
            Some(v as i64)
        } else {
            None
        },
        None => None,
    }
}

fn push_digits(out: &mut String, m: u64)
    ensures
        final(out)@ == old(out)@ + digits_of(m as nat),
    decreases m,
{
    if m >= 10 {
        push_digits(out, m / 10);
    }
    let c = (48u8 + (m % 10) as u8) as char;
    push_char(out, c);
    assert(final(out)@ =~= old(out)@ + digits_of(m as nat));
}

/// The decimal text of `n`.
pub fn decimal_text(n: i64) -> (r: String)
    ensures
        r@ == decimal(n as int),
{
    let mut out = String::new();
    if n < 0 {
        push_char(&mut out, '-');
        let m: u64 = if n == i64::MIN {
            9223372036854775808u64
        } else {
            (-n) as u64
        };
        push_digits(&mut out, m);
        assert(out@ =~= decimal(n as int));
    } else {
        push_digits(&mut out, n as u64);
        assert(out@ =~= decimal(n as int));
    }
    out
}

/// The largest magnitude a 64-bit integer can have, plus one: a bound past
/// which digits need not be counted.
const CAP: u128 = 9223372036854775809;

/// Reads a run of digits `s[lo..]`, with its value capped at `CAP`.
fn capped_digits(s: &Vec<char>, lo: usize) -> (r: Option<u128>)
    requires
        lo <= s@.len(),
    ensures
        match r {
            Some(v) => all_digits(s@.subrange(lo as int, s@.len() as int)) && v as int == (if digits_value(
                s@.subrange(lo as int, s@.len() as int),
            ) < CAP {
                digits_value(s@.subrange(lo as int, s@.len() as int))
            } else {
                CAP as int
            }),
            None => !all_digits(s@.subrange(lo as int, s@.len() as int)),
        },
{
    let n = s.len();
    if lo == n {
        return None;
    }
    let mut acc: u128 = 0;
    let mut i: usize = lo;
    while i < n
        invariant
            lo <= i <= n == s@.len(),
            forall|j: int| lo <= j < i ==> is_digit(s@[j]),
            acc as int == (if digits_value(s@.subrange(lo as int, i as int)) < CAP {
                digits_value(s@.subrange(lo as int, i as int))
            } else {
                CAP as int
            }),
            digits_value(s@.subrange(lo as int, i as int)) >= 0,
        decreases n - i,
    {
        let c = s[i];
        if !('0' <= c && c <= '9') {
            assert(!is_digit(s@.subrange(lo as int, n as int)[i - lo]));
            return None;
        }
        let ghost prev = s@.subrange(lo as int, i as int);
        let ghost next = s@.subrange(lo as int, i + 1);
        assert(next.drop_last() =~= prev);
        let d = (c as u32 - 48) as u128;
        assert(d as int == digit_value(c));
        let ghost v = digits_value(prev);
        assert(digits_value(next) == v * 10 + d);
        if acc >= CAP {
            assert(v >= CAP);
            assert(v * 10 + d >= CAP) by (nonlinear_arith)
                requires
                    v >= CAP,
                    d >= 0,
            ;
            acc = CAP;
        } else {
            assert(acc * 10 + d <= CAP * 10 + 9) by (nonlinear_arith)
                requires
                    acc < CAP,
                    d <= 9,
            ;
            let t = acc * 10 + d;
            assert(v >= 0 ==> v * 10 + d >= 0) by (nonlinear_arith)
                requires
                    d >= 0,
            ;
            acc = if t < CAP {
                t
            } else {
                CAP
            };
        }
        i = i + 1;
    }
    assert(s@.subrange(lo as int, n as int).len() > 0);
    Some(acc)
}

/// Reads a 64-bit integer from decimal text: an optional `+` or `-`, then one
/// or more digits, in range.
pub fn parse_i64(text: &str) -> (r: Option<i64>)
    ensures
        r == parsed_i64(text@),
{
    let s = chars_of(text);
    let n = s.len();
    if n == 0 {
        assert(!all_digits(text@));
        return None;
    }
    let negative = s[0] == '-';
    let signed = negative || s[0] == '+';
    let lo: usize = if signed {
        1
    } else {
        0
    };
    assert(s@.subrange(1, n as int) =~= s@.drop_first());
    assert(s@.subrange(0, n as int) =~= s@);
    match capped_digits(&s, lo) {
        None => {
            proof {
                if !signed && all_digits(s@) {
                    assert(false);
                }
                if signed && all_digits(s@) {
                    assert(!is_digit(s@[0]));
                }
            }
            None
        },
        Some(v) => {
            proof {
                if signed {
                    assert(!all_digits(s@)) by {
                        assert(!is_digit(s@[0]));
                    }
                }
            }
            if negative {
                if v <= 9223372036854775808u128 {
                    if v == 9223372036854775808u128 {
                        Some(i64::MIN)
                    } else {
                        Some(-(v as i64))
                    }
                } else {
                    None
                }
            } else {
                if v <= 9223372036854775807u128 {
                    Some(v as i64)
                } else {
                    None
                }
            }
        },
    }
}

proof fn lemma_digits_of(n: nat)
    ensures
        all_digits(digits_of(n)),
        digits_value(digits_of(n)) == n,
    decreases n,
{
    if n >= 10 {
        lemma_digits_of(n / 10);
        let s = digits_of(n);
        assert(s.drop_last() == digits_of(n / 10));
        assert(digit_value(digit_char((n % 10) as nat)) == n % 10);
        assert((n / 10) * 10 + n % 10 == n) by (nonlinear_arith);
        assert(s.last() == digit_char((n % 10) as nat));
        assert(digits_value(s) == digits_value(s.drop_last()) * 10 + digit_value(s.last()));
        assert forall|i: int| 0 <= i < s.len() implies is_digit(#[trigger] s[i]) by {
            if i < s.len() - 1 {
                assert(s[i] == digits_of(n / 10)[i]);
            }
        }
    } else {
        let s = digits_of(n);
        assert(s.drop_last() =~= Seq::<char>::empty());
        assert(digit_value(digit_char(n)) == n);
        assert(s.last() == digit_char(n));
        assert(digits_value(s) == digits_value(s.drop_last()) * 10 + digit_value(s.last()));
        assert(digits_value(s.drop_last()) == 0);
    }
}

/// Reading the decimal text of a 64-bit integer gives the integer back.
pub proof fn lemma_decimal_round_trip(n: i64)
    ensures
        parsed_i64(decimal(n as int)) == Some(n),
{
    if n < 0 {
        let m = (-n) as nat;
        lemma_digits_of(m);
        let s = decimal(n as int);
        assert(s.drop_first() =~= digits_of(m));
        assert(s[0] == '-');
    } else {
        lemma_digits_of(n as nat);
        let s = digits_of(n as nat);
        assert(is_digit(s[0]));
    }
}

} // verus!
