//! Decimal text for unsigned integers: the subject id inside a session token.

use vstd::prelude::*;

verus! {

pub open spec fn is_digit(c: char) -> bool {
    '0' <= c && c <= '9'
}

pub open spec fn digit_value(c: char) -> nat {
    ((c as u32) - ('0' as u32)) as nat
}

/// A non-empty run of ASCII digits.
pub open spec fn is_decimal(s: Seq<char>) -> bool {
    s.len() > 0 && forall|i: int| 0 <= i < s.len() ==> is_digit(#[trigger] s[i])
}

/// The number that a run of digits denotes, most significant digit first.
pub open spec fn decimal_value(s: Seq<char>) -> nat
    decreases s.len(),
{
    if s.len() == 0 {
        0
    } else {
        decimal_value(s.drop_last()) * 10 + digit_value(s.last())
    }
}

/// The digits after an optional leading `+`.
pub open spec fn unsigned_body(s: Seq<char>) -> Seq<char> {
    if s.len() > 0 && s[0] == '+' {
        s.drop_first()
    } else {
        s
    }
}

/// What reading `s` as a `u64` gives: an optional `+`, then digits whose
/// value fits in 64 bits.
pub open spec fn parsed_u64(s: Seq<char>) -> Option<u64> {
    let body = unsigned_body(s);
    if is_decimal(body) && decimal_value(body) <= u64::MAX {
        Some(decimal_value(body) as u64)
    } else {
        None
    }
}

/// The canonical decimal form of `n`: digits, no leading zero but for `0` itself.
pub open spec fn is_decimal_of(s: Seq<char>, n: nat) -> bool {
    &&& is_decimal(s)
    &&& decimal_value(s) == n
    &&& (s.len() == 1 || s[0] != '0')
}

proof fn lemma_value_push(s: Seq<char>, c: char)
    ensures
        decimal_value(s.push(c)) == decimal_value(s) * 10 + digit_value(c),
{
    assert(s.push(c).drop_last() =~= s);
}

/// Reads `s` as an unsigned 64-bit integer.
pub fn parse_u64(s: &str) -> (r: Option<u64>)
    ensures
        r == parsed_u64(s@),
{
    let len = s.unicode_len();
    let mut start: usize = 0;
    if len > 0 && s.get_char(0) == '+' {
        start = 1;
    }
    let ghost body = unsigned_body(s@);
    assert(body =~= s@.subrange(start as int, len as int));
    if start >= len {
        return None;
    }
    let mut acc: u64 = 0;
    let mut overflow = false;
    let mut i: usize = start;
    while i < len
        invariant
            start <= i <= len,
            len == s@.len(),
            body == unsigned_body(s@),
            body =~= s@.subrange(start as int, len as int),
            forall|j: int| 0 <= j < i - start ==> is_digit(#[trigger] body[j]),
            !overflow ==> acc as nat == decimal_value(body.take(i - start)),
            overflow ==> decimal_value(body.take(i - start)) > u64::MAX,
        decreases len - i,
    {
        let c = s.get_char(i);
        if c < '0' || c > '9' {
            assert(!is_digit(body[i - start]));
            return None;
        }
        let d = (c as u32 - '0' as u32) as u64;
        proof {
            assert(body.take(i - start + 1) =~= body.take(i - start).push(c));
            lemma_value_push(body.take(i - start), c);
        }
        if !overflow {
            match acc.checked_mul(10) {
                Some(m) => match m.checked_add(d) {
                    Some(v) => {
                        acc = v;
                    },
                    None => {
                        overflow = true;
                    },
                },
                None => {
                    overflow = true;
                },
            }
        }
        i = i + 1;
    }
    assert(body.take(len - start) =~= body);
    if overflow {
        None
    } else {
        Some(acc)
    }
}

/// The one-character text of the digit `d`.
fn digit_text(d: u64) -> (r: &'static str)
    requires
        d < 10,
    ensures
        r@.len() == 1,
        is_digit(r@[0]),
        digit_value(r@[0]) == d,
{
    match d {
        0 => {
            proof { reveal_strlit("0"); }
            "0"
        },
        1 => {
            proof { reveal_strlit("1"); }
            "1"
        },
        2 => {
            proof { reveal_strlit("2"); }
            "2"
        },
        3 => {
            proof { reveal_strlit("3"); }
            "3"
        },
        4 => {
            proof { reveal_strlit("4"); }
            "4"
        },
        5 => {
            proof { reveal_strlit("5"); }
            "5"
        },
        6 => {
            proof { reveal_strlit("6"); }
            "6"
        },
        7 => {
            proof { reveal_strlit("7"); }
            "7"
        },
        8 => {
            proof { reveal_strlit("8"); }
            "8"
        },
        _ => {
            proof { reveal_strlit("9"); }
            "9"
        },
    }
}

/// Writes `n` in decimal.
pub fn u64_to_decimal(n: u64) -> (r: String)
    ensures
        is_decimal_of(r@, n as nat),
    decreases n,
{
    if n < 10 {
        let r = digit_text(n).to_owned();
        proof {
            assert(r@ =~= r@.drop_last().push(r@.last()));
            assert(r@.drop_last() =~= Seq::<char>::empty());
            assert(decimal_value(Seq::<char>::empty()) == 0);
        }
        r
    } else {
        let mut r = u64_to_decimal(n / 10);
        let ghost prefix = r@;
        let t = digit_text(n % 10);
        r.append(t);
        proof {
            assert(r@ =~= prefix.push(t@[0]));
            lemma_value_push(prefix, t@[0]);
            if prefix.len() == 1 {
                assert(prefix =~= Seq::<char>::empty().push(prefix[0]));
                lemma_value_push(Seq::<char>::empty(), prefix[0]);
            }
            assert(r@[0] == prefix[0]);
        }
        r
    }
}

/// Reading back the decimal text of a `u64` gives the same `u64`.
pub proof fn lemma_decimal_round_trip(s: Seq<char>, n: u64)
    requires
        is_decimal_of(s, n as nat),
    ensures
        parsed_u64(s) == Some(n),
{
    assert(unsigned_body(s) == s);
}

} // verus!
