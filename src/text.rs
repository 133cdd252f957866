use vstd::prelude::*;
use vstd::string::StrSliceExecFns;

verus! {

/// `c` is one of the ASCII digits `0` to `9`.
pub open spec fn is_digit(c: char) -> bool {
    '0' <= c <= '9'
}

/// `s` is a non-empty run of ASCII digits.
pub open spec fn is_digits(s: Seq<char>) -> bool {
    s.len() > 0 && forall|i: int| 0 <= i < s.len() ==> is_digit(#[trigger] s[i])
}

/// The number that the digits `s` write in base ten.
pub open spec fn digits_value(s: Seq<char>) -> nat
    decreases s.len(),
{
    if s.len() == 0 {
        0
    } else {
        digits_value(s.drop_last()) * 10 + ((s.last() as u32) - ('0' as u32)) as nat
    }
}

/// The number that `s` writes, as std reads an unsigned integer: an optional
/// `+`, then one or more digits.
pub open spec fn unsigned_value(s: Seq<char>) -> Option<nat> {
    let body = if s.len() > 0 && s[0] == '+' {
        s.drop_first()
    } else {
        s
    };
    if is_digits(body) {
        Some(digits_value(body))
    } else {
        None
    }
}

/// `s` read as a `usize`: `None` where it is no number or too large.
pub open spec fn usize_value(s: Seq<char>) -> Option<usize> {
    match unsigned_value(s) {
        Some(v) => if v <= usize::MAX {
            Some(v as usize)
        } else {
            None
        },
        None => None,
    }
}

/// `s` read as an `i64`, as std reads it: an optional sign, then one or more
/// digits, in range.
pub open spec fn i64_value(s: Seq<char>) -> Option<i64> {
    if s.len() > 0 && s[0] == '-' {
        let body = s.drop_first();
        if is_digits(body) && digits_value(body) <= 0x8000_0000_0000_0000 {
            Some((0 - digits_value(body)) as i64)
        } else {
            None
        }
    } else {
        match unsigned_value(s) {
            Some(v) => if v <= i64::MAX {
                Some(v as i64)
            } else {
                None
            },
            None => None,
        }
    }
}

/// The digits of `s` from position `from` on, read in base ten, where they
/// are all digits, there is at least one, and the number is at most `limit`.
fn read_digits(s: &str, from: usize, limit: u64) -> (r: Option<u64>)
    requires
        from <= s@.len(),
    ensures
        r == (if is_digits(s@.subrange(from as int, s@.len() as int)) && digits_value(
            s@.subrange(from as int, s@.len() as int),
        ) <= limit {
            Some(digits_value(s@.subrange(from as int, s@.len() as int)) as u64)
        } else {
            None
        }),
{
    let ghost body = s@.subrange(from as int, s@.len() as int);
    let n = s.unicode_len();
    if from >= n {
        return None;
    }
    let mut acc: u64 = 0;
    let mut i: usize = from;
    let mut too_big = false;
    assert(body.subrange(0, 0) =~= Seq::<char>::empty());
    while i < n
        invariant
            from <= i <= n,
            n == s@.len(),
            body == s@.subrange(from as int, s@.len() as int),
            forall|j: int| 0 <= j < i - from ==> is_digit(#[trigger] body[j]),
            !too_big ==> acc == digits_value(body.subrange(0, i - from)),
            !too_big ==> acc <= limit,
            too_big ==> digits_value(body.subrange(0, i - from)) > limit,
        decreases n - i,
    {
        let c = s.get_char(i);
        if !('0' <= c && c <= '9') {
            assert(!is_digit(body[i - from]));
            return None;
        }
        let d = (c as u32 - '0' as u32) as u64;
        assert(body.subrange(0, i + 1 - from).drop_last() =~= body.subrange(0, i - from));
        if !too_big {
            if d > limit || acc > (limit - d) / 10 {
                assert(acc * 10 + d > limit) by (nonlinear_arith)
                    requires
                        d > limit || acc > (limit - d) / 10,
                        d <= 9,
                ;
                too_big = true;
            } else {
                assert(acc * 10 + d <= limit) by (nonlinear_arith)
                    requires
                        d <= limit,
                        acc <= (limit - d) / 10,
                ;
                acc = acc * 10 + d;
            }
        } else {
            assert(digits_value(body.subrange(0, i + 1 - from)) >= digits_value(
                body.subrange(0, i - from),
            )) by (nonlinear_arith)
                requires
                    digits_value(body.subrange(0, i + 1 - from)) == digits_value(
                        body.subrange(0, i - from),
                    ) * 10 + d,
            ;
        }
        i += 1;
    }
    assert(body.subrange(0, body.len() as int) =~= body);
    if too_big {
        None
    } else {
        Some(acc)
    }
}

/// `s` read as a `usize`, as std's `str::parse` reads it.
pub fn parse_usize(s: &str) -> (r: Option<usize>)
    ensures
        r == usize_value(s@),
{
    let n = s.unicode_len();
    let from: usize = if n > 0 && s.get_char(0) == '+' {
        1
    } else {
        0
    };
    assert(s@.subrange(from as int, s@.len() as int) =~= if s@.len() > 0 && s@[0] == '+' {
        s@.drop_first()
    } else {
        s@
    });
    match read_digits(s, from, usize::MAX as u64) {
        Some(v) => Some(v as usize),
        None => None,
    }
}

/// `s` read as an `i64`, as std's `str::parse` reads it.
pub fn parse_i64(s: &str) -> (r: Option<i64>)
    ensures
        r == i64_value(s@),
{
    let n = s.unicode_len();
    if n > 0 && s.get_char(0) == '-' {
        assert(s@.subrange(1, s@.len() as int) =~= s@.drop_first());
        match read_digits(s, 1, 0x8000_0000_0000_0000) {
            Some(v) => {
                if v == 0x8000_0000_0000_0000 {
                    Some(i64::MIN)
                } else {
                    Some(0 - (v as i64))
                }
            },
            None => None,
        }
    } else {
        let from: usize = if n > 0 && s.get_char(0) == '+' {
            1
        } else {
            0
        };
        assert(s@.subrange(from as int, s@.len() as int) =~= if s@.len() > 0 && s@[0] == '+' {
            s@.drop_first()
        } else {
            s@
        });
        match read_digits(s, from, i64::MAX as u64) {
            Some(v) => Some(v as i64),
            None => None,
        }
    }
}

} // verus!
