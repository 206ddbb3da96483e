use vstd::prelude::*;

verus! {

// Decimal parsing with per-field defaults, and decimal formatting for the
// index argument of the start/stop command lines.
//
// Parsing follows the grammar of Rust's integer `FromStr`: an optional `+`
// or `-` sign followed by one or more ASCII digits, the whole text and
// nothing else; a value outside the target type's range is a failure.  The
// listing operation substitutes a field-specific default for any field that
// fails to parse.

pub open spec fn is_digit(c: char) -> bool {
    48 <= c as u32 && c as u32 <= 57
}

pub open spec fn digit_val(c: char) -> int {
    c as u32 - 48
}

pub open spec fn all_digits(s: Seq<char>) -> bool {
    forall|i: int| 0 <= i < s.len() ==> is_digit(#[trigger] s[i])
}

/// Value of a sequence of decimal digits, most significant first.
pub open spec fn digits_val(s: Seq<char>) -> int
    decreases s.len(),
{
    if s.len() == 0 {
        0
    } else {
        digits_val(s.drop_last()) * 10 + digit_val(s.last())
    }
}

/// The mathematical integer a piece of text denotes, if any: an optional
/// sign, then one or more digits, nothing else.
pub open spec fn spec_parse_int(s: Seq<char>) -> Option<int> {
    if s.len() == 0 {
        None
    } else {
        let neg = s[0] == '-';
        let ds = if s[0] == '-' || s[0] == '+' {
            s.skip(1)
        } else {
            s
        };
        if ds.len() > 0 && all_digits(ds) {
            Some(
                if neg {
                    -digits_val(ds)
                } else {
                    digits_val(ds)
                },
            )
        } else {
            None
        }
    }
}

/// What best-effort parsing into `i64` yields: the denoted value when there
/// is one and it fits, the given default otherwise.
pub open spec fn spec_parse_i64_or(s: Seq<char>, d: int) -> int {
    match spec_parse_int(s) {
        Some(v) => if i64::MIN <= v && v <= i64::MAX {
            v
        } else {
            d
        },
        None => d,
    }
}

/// What best-effort parsing into `i32` yields: the denoted value when there
/// is one and it fits, the given default otherwise.
pub open spec fn spec_parse_i32_or(s: Seq<char>, d: int) -> int {
    match spec_parse_int(s) {
        Some(v) => if i32::MIN <= v && v <= i32::MAX {
            v
        } else {
            d
        },
        None => d,
    }
}

proof fn lemma_digits_val_nonneg(s: Seq<char>)
    requires
        all_digits(s),
    ensures
        digits_val(s) >= 0,
    decreases s.len(),
{
    if s.len() > 0 {
        lemma_digits_val_nonneg(s.drop_last());
    }
}

/// Appending further digits never shrinks the denoted value.
proof fn lemma_digits_val_prefix(s: Seq<char>, n: int)
    requires
        all_digits(s),
        0 <= n <= s.len(),
    ensures
        digits_val(s) >= digits_val(s.take(n)),
    decreases s.len() - n,
{
    if n < s.len() {
        assert(s.take(n + 1).drop_last() =~= s.take(n));
        assert(all_digits(s.take(n + 1)));
        lemma_digits_val_nonneg(s.take(n));
        assert(digits_val(s.take(n + 1)) >= digits_val(s.take(n)));
        lemma_digits_val_prefix(s, n + 1);
    } else {
        assert(s.take(n) =~= s);
    }
}

/// Reads the digits of `s` from position `start` on, accumulating their
/// value as long as it stays within `limit`.
fn parse_magnitude(s: &Vec<char>, start: usize, limit: u64) -> (r: Option<u64>)
    requires
        start < s@.len(),
    ensures
        (match r {
            Some(m) => all_digits(s@.skip(start as int)) && m == digits_val(s@.skip(start as int))
                && m <= limit,
            None => !all_digits(s@.skip(start as int)) || digits_val(s@.skip(start as int))
                > limit,
        }),
{
    let ghost ds = s@.skip(start as int);
    let mut acc: u64 = 0;
    let mut i: usize = start;
    while i < s.len()
        invariant
            start <= i <= s@.len(),
            ds == s@.skip(start as int),
            all_digits(s@.subrange(start as int, i as int)),
            acc == digits_val(s@.subrange(start as int, i as int)),
            acc <= limit,
        decreases s@.len() - i,
    {
        let c = s[i];
        let cu = c as u32;
        if !(48 <= cu && cu <= 57) {
            proof {
                assert(ds[i - start] == s@[i as int]);
                assert(!is_digit(ds[i - start]));
            }
            return None;
        }
        let dv: u64 = (cu - 48) as u64;
        proof {
            assert(s@.subrange(start as int, i + 1).drop_last() =~= s@.subrange(
                start as int,
                i as int,
            ));
            assert(s@.subrange(start as int, i + 1).last() == s@[i as int]);
            assert(digits_val(s@.subrange(start as int, i + 1)) == acc * 10 + dv);
        }
        if acc > limit / 10 || (acc == limit / 10 && dv > limit % 10) {
            proof {
                assert(acc * 10 + dv > limit) by (nonlinear_arith)
                    requires
                        acc > limit / 10 || (acc == limit / 10 && dv > limit % 10),
                        limit == (limit / 10) * 10 + limit % 10,
                        0 <= limit % 10 < 10,
                        dv >= 0,
                ;
                if all_digits(ds) {
                    assert(s@.subrange(start as int, i + 1) =~= ds.take(i + 1 - start));
                    lemma_digits_val_prefix(ds, i + 1 - start);
                    assert(digits_val(ds) > limit);
                }
            }
            return None;
        }
        proof {
            assert(acc * 10 + dv <= limit) by (nonlinear_arith)
                requires
                    !(acc > limit / 10 || (acc == limit / 10 && dv > limit % 10)),
                    limit == (limit / 10) * 10 + limit % 10,
                    0 <= limit % 10 < 10,
                    0 <= dv < 10,
                    acc >= 0,
            ;
        }
        acc = acc * 10 + dv;
        i += 1;
    }
    proof {
        assert(s@.subrange(start as int, i as int) =~= ds);
    }
    Some(acc)
}

/// Best-effort parse of a field into `i64`: on any failure the given
/// default is returned instead.
pub fn parse_i64_or(s: &Vec<char>, d: i64) -> (r: i64)
    ensures
        r as int == spec_parse_i64_or(s@, d as int),
{
    if s.len() == 0 {
        return d;
    }
    let c0 = s[0];
    let neg = c0 == '-';
    let start: usize = if c0 == '-' || c0 == '+' {
        1
    } else {
        0
    };
    if start >= s.len() {
        return d;
    }
    proof {
        if start == 0 {
            assert(s@.skip(0) =~= s@);
        }
    }
    let limit: u64 = if neg {
        9223372036854775808
    } else {
        9223372036854775807
    };
    match parse_magnitude(s, start, limit) {
        None => d,
        Some(m) => {
            if neg {
                if m == 9223372036854775808 {
                    i64::MIN
                } else {
                    -(m as i64)
                }
            } else {
                m as i64
            }
        },
    }
}

/// Best-effort parse of a field into `i32`: on any failure the given
/// default is returned instead.
pub fn parse_i32_or(s: &Vec<char>, d: i32) -> (r: i32)
    ensures
        r as int == spec_parse_i32_or(s@, d as int),
{
    if s.len() == 0 {
        return d;
    }
    let c0 = s[0];
    let neg = c0 == '-';
    let start: usize = if c0 == '-' || c0 == '+' {
        1
    } else {
        0
    };
    if start >= s.len() {
        return d;
    }
    proof {
        if start == 0 {
            assert(s@.skip(0) =~= s@);
        }
    }
    let limit: u64 = if neg {
        2147483648
    } else {
        2147483647
    };
    match parse_magnitude(s, start, limit) {
        None => d,
        Some(m) => {
            if neg {
                if m == 2147483648 {
                    i32::MIN
                } else {
                    -(m as i32)
                }
            } else {
                m as i32
            }
        },
    }
}

/// The character of a single decimal digit.
pub open spec fn digit_char(d: int) -> char {
    if d == 0 {
        '0'
    } else if d == 1 {
        '1'
    } else if d == 2 {
        '2'
    } else if d == 3 {
        '3'
    } else if d == 4 {
        '4'
    } else if d == 5 {
        '5'
    } else if d == 6 {
        '6'
    } else if d == 7 {
        '7'
    } else if d == 8 {
        '8'
    } else {
        '9'
    }
}

/// The decimal digits of a non-negative value, most significant first,
/// without leading zeroes.
pub open spec fn spec_digits(n: nat) -> Seq<char>
    decreases n,
    via spec_digits_dec
{
    if n < 10 {
        seq![digit_char(n as int)]
    } else {
        spec_digits(n / 10) + seq![digit_char((n % 10) as int)]
    }
}

#[via_fn]
proof fn spec_digits_dec(n: nat) {
    assert(n >= 10 ==> n / 10 < n) by (nonlinear_arith);
}

/// The decimal text of a (possibly negative) value: a minus sign for a
/// negative one, then its digits.
pub open spec fn spec_int_str(v: int) -> Seq<char> {
    if v < 0 {
        seq!['-'] + spec_digits((-v) as nat)
    } else {
        spec_digits(v as nat)
    }
}

fn digit_str(d: u64) -> (r: &'static str)
    requires
        d < 10,
    ensures
        r@ =~= seq![digit_char(d as int)],
{
    proof {
        reveal_strlit("0");
        reveal_strlit("1");
        reveal_strlit("2");
        reveal_strlit("3");
        reveal_strlit("4");
        reveal_strlit("5");
        reveal_strlit("6");
        reveal_strlit("7");
        reveal_strlit("8");
        reveal_strlit("9");
    }
    if d == 0 {
        "0"
    } else if d == 1 {
        "1"
    } else if d == 2 {
        "2"
    } else if d == 3 {
        "3"
    } else if d == 4 {
        "4"
    } else if d == 5 {
        "5"
    } else if d == 6 {
        "6"
    } else if d == 7 {
        "7"
    } else if d == 8 {
        "8"
    } else {
        "9"
    }
}

/// Renders a value in decimal, most significant digit first.
pub fn u64_digits(n: u64) -> (r: String)
    ensures
        r@ == spec_digits(n as nat),
    decreases n,
{
    if n < 10 {
        String::from_str(digit_str(n))
    } else {
        proof {
            assert(n / 10 < n) by (nonlinear_arith)
                requires
                    n >= 10,
            ;
        }
        let mut s = u64_digits(n / 10);
        s.append(digit_str(n % 10));
        s
    }
}

/// Renders an instance index as the decimal argument handed to the
/// manager's start and stop commands.
pub fn index_arg(index: i32) -> (r: String)
    ensures
        r@ == spec_int_str(index as int),
{
    if index < 0 {
        let mag: u64 = if index == i32::MIN {
            2147483648
        } else {
            (-index) as u64
        };
        let mut s = String::from_str("-");
        let digits = u64_digits(mag);
        s.append(digits.as_str());
        proof {
            reveal_strlit("-");
            assert("-"@ =~= seq!['-']);
        }
        s
    } else {
        u64_digits(index as u64)
    }
}

} // verus!
