//! Decimal numerals on bytes: rendering a length for a Content-Length
//! header, and parsing a Content-Length value the way `usize` parsing does
//! (an optional leading `+`, then one or more digits, rejecting overflow).

use vstd::prelude::*;

verus! {

/// The shortest decimal numeral for `n`, as ASCII digit bytes.
pub open spec fn dec_rep(n: nat) -> Seq<u8>
    decreases n,
{
    if n < 10 {
        seq![(48 + n) as u8]
    } else {
        dec_rep(n / 10) + seq![(48 + n % 10) as u8]
    }
}

pub fn usize_to_decimal(n: usize) -> (r: Vec<u8>)
    ensures
        r@ == dec_rep(n as nat),
    decreases n,
{
    if n < 10 {
        let mut v: Vec<u8> = Vec::new();
        v.push(48 + n as u8);
        proof {
            assert(v@ =~= dec_rep(n as nat));
        }
        v
    } else {
        let mut v = usize_to_decimal(n / 10);
        v.push(48 + (n % 10) as u8);
        proof {
            assert(v@ =~= dec_rep((n / 10) as nat) + seq![(48 + n % 10) as u8]);
        }
        v
    }
}

pub open spec fn is_digit(b: u8) -> bool {
    48 <= b && b <= 57
}

pub open spec fn all_digits(s: Seq<u8>) -> bool {
    forall|i: int| 0 <= i < s.len() ==> is_digit(#[trigger] s[i])
}

/// The value of a sequence of ASCII digits; a byte that is no digit
/// contributes nothing (callers guard with `all_digits`).
pub open spec fn digit_val(b: u8) -> nat {
    if is_digit(b) {
        (b - 48) as nat
    } else {
        0
    }
}

pub open spec fn digits_val(s: Seq<u8>) -> nat
    decreases s.len(),
{
    if s.len() == 0 {
        0
    } else {
        digits_val(s.drop_last()) * 10 + digit_val(s.last())
    }
}

/// The digit part of a numeral: everything after an optional leading `+`.
pub open spec fn sign_stripped(s: Seq<u8>) -> Seq<u8> {
    if s.len() > 0 && s[0] == 43 {
        s.drop_first()
    } else {
        s
    }
}

/// Whether `s` is a numeral that `usize` parsing accepts.
pub open spec fn parses_as_usize(s: Seq<u8>) -> bool {
    let d = sign_stripped(s);
    d.len() > 0 && all_digits(d) && digits_val(d) <= usize::MAX
}

proof fn lemma_digits_val_prefix_le(s: Seq<u8>, k: int)
    requires
        0 <= k <= s.len(),
    ensures
        digits_val(s.take(k)) <= digits_val(s),
    decreases s.len() - k,
{
    if k < s.len() {
        lemma_digits_val_prefix_le(s, k + 1);
        let t = s.take(k + 1);
        assert(t.drop_last() =~= s.take(k));
        assert(digits_val(t) == digits_val(s.take(k)) * 10 + digit_val(t.last()));
    } else {
        assert(s.take(k) =~= s);
    }
}

pub fn parse_usize(v: &Vec<u8>) -> (r: Option<usize>)
    ensures
        match r {
            Some(n) => parses_as_usize(v@) && n == digits_val(sign_stripped(v@)),
            None => !parses_as_usize(v@),
        },
{
    let start: usize = if v.len() > 0 && v[0] == 43 {
        1
    } else {
        0
    };
    proof {
        assert(sign_stripped(v@) =~= v@.subrange(start as int, v@.len() as int));
    }
    let ghost d = sign_stripped(v@);
    if v.len() == start {
        return None;
    }
    let mut acc: usize = 0;
    let mut i: usize = start;
    while i < v.len()
        invariant
            start <= i <= v@.len(),
            v@.len() <= usize::MAX,
            d == v@.subrange(start as int, v@.len() as int),
            d == sign_stripped(v@),
            all_digits(d.take(i - start)),
            acc == digits_val(d.take(i - start)),
        decreases v@.len() - i,
    {
        let b = v[i];
        if !(48 <= b && b <= 57) {
            proof {
                assert(d[i - start] == b);
                assert(!all_digits(d));
            }
            return None;
        }
        let digit: usize = (b - 48) as usize;
        if acc > (usize::MAX - digit) / 10 {
            // the full numeral would exceed usize::MAX
            proof {
                let t = d.take(i - start + 1);
                assert(t.drop_last() =~= d.take(i - start));
                assert(t.last() == b);
                assert(digits_val(t) == acc * 10 + digit);
                assert(acc * 10 + digit > usize::MAX) by (nonlinear_arith)
                    requires
                        acc > (usize::MAX - digit) / 10,
                        digit <= 9,
                        acc <= usize::MAX,
                {};
                lemma_digits_val_prefix_le(d, i - start + 1);
            }
            return None;
        }
        proof {
            let t = d.take(i - start + 1);
            assert(t.drop_last() =~= d.take(i - start));
            assert(t.last() == b);
            assert(acc * 10 + digit <= usize::MAX) by (nonlinear_arith)
                requires
                    acc <= (usize::MAX - digit) / 10,
                    digit <= 9,
            {};
        }
        acc = acc * 10 + digit;
        i += 1;
    }
    proof {
        assert(d.take(v@.len() - start) =~= d);
    }
    Some(acc)
}

} // verus!
