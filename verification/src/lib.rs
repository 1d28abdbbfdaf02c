//! A rate-limiting library built around the Generic Cell Rate Algorithm
//! (GCRA): a quota model, a pluggable atomic store abstraction, and an
//! engine that decides whether a requested quantity of actions is admitted
//! against a named bucket, recording admitted work as a single persisted
//! "theoretical arrival time" per bucket.

use vstd::prelude::*;

pub mod clock;
pub mod error;
pub mod throttle;
pub mod units;

use error::ThrottleError;

verus! {

/// A decimal digit.
pub open spec fn is_digit_char(c: char) -> bool {
    48 <= c as u32 <= 57
}

/// The value of one decimal digit.
pub open spec fn digit_val(c: char) -> int {
    c as u32 - 48
}

/// The value of a sequence of decimal digits, most significant first.
pub open spec fn digits_val(s: Seq<char>) -> int
    decreases s.len(),
{
    if s.len() == 0 {
        0
    } else {
        digits_val(s.drop_last()) * 10 + digit_val(s.last())
    }
}

/// Whether every character of `s` is a decimal digit.
pub open spec fn all_digits(s: Seq<char>) -> bool {
    forall|j: int| 0 <= j < s.len() ==> is_digit_char(s[j])
}

/// The `i64` denoted by `s`: an optional sign followed by at least one
/// decimal digit, provided the value fits. `None` on any other shape.
pub open spec fn i64_of_decimal(s: Seq<char>) -> Option<int> {
    let digits = if s.len() > 0 && (s[0] == '+' || s[0] == '-') {
        s.drop_first()
    } else {
        s
    };
    if digits.len() == 0 || !all_digits(digits) {
        None
    } else {
        let v = if s.len() > 0 && s[0] == '-' {
            -digits_val(digits)
        } else {
            digits_val(digits)
        };
        if i64::MIN <= v <= i64::MAX {
            Some(v)
        } else {
            None
        }
    }
}

proof fn lemma_digits_val_nonneg(s: Seq<char>)
    requires
        all_digits(s),
    ensures
        digits_val(s) >= 0,
    decreases s.len(),
{
    if s.len() > 0 {
        assert(all_digits(s.drop_last()));
        lemma_digits_val_nonneg(s.drop_last());
    }
}

proof fn lemma_digits_val_prefix(s: Seq<char>, i: int)
    requires
        all_digits(s),
        0 <= i <= s.len(),
    ensures
        digits_val(s.subrange(0, i)) <= digits_val(s),
    decreases s.len() - i,
{
    if i == s.len() {
        assert(s.subrange(0, i) =~= s);
    } else {
        lemma_digits_val_prefix(s, i + 1);
        let t = s.subrange(0, i + 1);
        assert(t.drop_last() =~= s.subrange(0, i));
        assert(all_digits(t.drop_last()));
        lemma_digits_val_nonneg(t.drop_last());
    }
}

/// Parses a caller-supplied token as a signed 64-bit decimal integer,
/// exactly as the host hands it over: an optional sign, then digits,
/// nothing else, value in range. A failure carries the offending token.
pub fn parse_i64(arg: &str) -> (r: Result<i64, ThrottleError>)
    ensures
        r matches Ok(n) ==> i64_of_decimal(arg@) == Some(n as int),
        r is Ok <==> i64_of_decimal(arg@) is Some,
        r matches Err(e) ==> (e matches ThrottleError::Usage(t) && t@ == arg@),
{
    let len = arg.unicode_len();
    if len == 0 {
        return Err(ThrottleError::Usage(arg.to_owned()));
    }
    let c0 = arg.get_char(0);
    let negative = c0 == '-';
    let start: usize = if c0 == '-' || c0 == '+' {
        1
    } else {
        0
    };
    if start == len {
        return Err(ThrottleError::Usage(arg.to_owned()));
    }
    let ghost digits = if start == 1 {
        arg@.drop_first()
    } else {
        arg@
    };
    proof {
        assert(arg@.subrange(start as int, len as int) =~= digits);
    }
    let limit: u64 = if negative {
        9223372036854775808
    } else {
        9223372036854775807
    };
    let mut mag: u64 = 0;
    let mut i: usize = start;
    while i < len
        invariant
            start <= i <= len,
            len == arg@.len(),
            start == 0 || start == 1,
            start == 1 ==> (arg@[0] == '+' || arg@[0] == '-'),
            start == 0 ==> !(arg@[0] == '+' || arg@[0] == '-'),
            negative == (arg@[0] == '-'),
            start < len,
            digits == arg@.subrange(start as int, len as int),
            limit == if negative {
                9223372036854775808u64
            } else {
                9223372036854775807u64
            },
            forall|j: int| start <= j < i ==> is_digit_char(arg@[j]),
            mag == digits_val(arg@.subrange(start as int, i as int)),
            mag <= limit,
        decreases len - i,
    {
        let c = arg.get_char(i);
        let u: u32 = c as u32;
        if u < 48 || u > 57 {
            proof {
                assert(digits[i - start] == arg@[i as int]);
                assert(!all_digits(digits));
            }
            return Err(ThrottleError::Usage(arg.to_owned()));
        }
        let d: u64 = (u - 48) as u64;
        proof {
            assert(arg@.subrange(start as int, (i + 1) as int).drop_last() =~= arg@.subrange(
                start as int,
                i as int,
            ));
        }
        let grown: Option<u64> = match mag.checked_mul(10) {
            Some(m) => m.checked_add(d),
            None => None,
        };
        let next: Option<u64> = match grown {
            Some(v) => if v <= limit {
                Some(v)
            } else {
                None
            },
            None => None,
        };
        match next {
            Some(v) => {
                mag = v;
            },
            None => {
                proof {
                    // Even the digits read so far overrun the representable
                    // magnitude: whatever follows, the token denotes no i64.
                    if all_digits(digits) {
                        let pre = (i + 1) - start as int;
                        assert(arg@.subrange(start as int, (i + 1) as int) =~= digits.subrange(
                            0,
                            pre,
                        ));
                        assert(digit_val(arg@[i as int]) == d);
                        assert(digits_val(digits.subrange(0, pre)) == mag * 10 + d);
                        assert(mag * 10 + d > limit);
                        lemma_digits_val_prefix(digits, pre);
                        assert(digits_val(digits) > limit);
                        if negative {
                            assert(-digits_val(digits) < i64::MIN);
                        } else {
                            assert(digits_val(digits) > i64::MAX);
                        }
                        let sd = if arg@[0] == '+' || arg@[0] == '-' {
                            arg@.drop_first()
                        } else {
                            arg@
                        };
                        assert(sd == digits);
                        assert(i64_of_decimal(arg@) is None);
                    } else {
                        assert(i64_of_decimal(arg@) is None);
                    }
                }
                return Err(ThrottleError::Usage(arg.to_owned()));
            },
        }
        i += 1;
    }
    proof {
        assert(arg@.subrange(start as int, len as int) =~= digits);
        assert(all_digits(digits));
    }
    if negative {
        if mag == 9223372036854775808 {
            Ok(i64::MIN)
        } else {
            Ok(-(mag as i64))
        }
    } else {
        Ok(mag as i64)
    }
}

/// The typed form of one invocation's arguments: the bucket key, the
/// quota parameters, and the requested quantity (defaulted to one action
/// when absent).
pub struct CommandArgs {
    pub bucket: String,
    pub max_burst: i64,
    pub count: i64,
    pub period: i64,
    pub quantity: i64,
}

/// Decodes a caller argument list `throttle <bucket> <max_burst> <count>
/// <period> [<quantity>]` into typed values; the leading element is the
/// command's own name and is ignored. Wrong arity or an unparsable token
/// is a usage error; no range validation happens here — quota validation
/// is the engine boundary's job.
pub fn parse_command_args(args: &Vec<String>) -> (r: Result<CommandArgs, ThrottleError>)
    ensures
        r matches Ok(c) ==> {
            &&& (args@.len() == 5 || args@.len() == 6)
            &&& c.bucket@ == args@[1]@
            &&& i64_of_decimal(args@[2]@) == Some(c.max_burst as int)
            &&& i64_of_decimal(args@[3]@) == Some(c.count as int)
            &&& i64_of_decimal(args@[4]@) == Some(c.period as int)
            &&& (args@.len() == 6 ==> i64_of_decimal(args@[5]@) == Some(c.quantity as int))
            &&& (args@.len() == 5 ==> c.quantity == 1)
        },
        r is Ok <==> ({
            &&& (args@.len() == 5 || args@.len() == 6)
            &&& i64_of_decimal(args@[2]@) is Some
            &&& i64_of_decimal(args@[3]@) is Some
            &&& i64_of_decimal(args@[4]@) is Some
            &&& (args@.len() == 6 ==> i64_of_decimal(args@[5]@) is Some)
        }),
        r matches Err(e) ==> e is Usage,
{
    if args.len() != 5 && args.len() != 6 {
        return Err(
            ThrottleError::Usage(
                "throttle <bucket> <max_burst> <count> <period> [<quantity>]".to_owned(),
            ),
        );
    }
    let bucket = args[1].clone();
    let max_burst = match parse_i64(args[2].as_str()) {
        Ok(n) => n,
        Err(e) => {
            return Err(e);
        },
    };
    let count = match parse_i64(args[3].as_str()) {
        Ok(n) => n,
        Err(e) => {
            return Err(e);
        },
    };
    let period = match parse_i64(args[4].as_str()) {
        Ok(n) => n,
        Err(e) => {
            return Err(e);
        },
    };
    let quantity = if args.len() == 6 {
        match parse_i64(args[5].as_str()) {
            Ok(n) => n,
            Err(e) => {
                return Err(e);
            },
        }
    } else {
        1
    };
    Ok(CommandArgs { bucket, max_burst, count, period, quantity })
}

/// The command under which the rate limiter is registered with a host
/// dispatcher. Holds no state: every invocation builds its own store
/// handle and limiter.
pub struct ThrottleCommand {}

impl ThrottleCommand {
    /// Name under which the command is registered.
    pub fn name() -> (r: &'static str)
        ensures
            r@ == "throttle"@,
    {
        "throttle"
    }

    /// Flag string handed to the host at registration time.
    pub fn str_flags() -> (r: &'static str)
        ensures
            r@ == "readonly"@,
    {
        "readonly"
    }
}

} // verus!
