//! Reading literals and input values from their decimal text.
use vstd::prelude::*;

verus! {

/// Values of decimal literals are capped here; anything larger is too large
/// for every type of the language.
pub const DECIMAL_CAP: u64 = 0xffff_ffff_ffff_ffff;

pub open spec fn is_digit(c: char) -> bool {
    '0' <= c && c <= '9'
}

pub open spec fn digit_value(c: char) -> int {
    c as int - '0' as int
}

/// A nonempty run of decimal digits.
pub open spec fn is_decimal(s: Seq<char>) -> bool {
    s.len() > 0 && forall|i: int| 0 <= i < s.len() ==> #[trigger] is_digit(s[i])
}

/// The number that a run of digits denotes.
pub open spec fn decimal_value(s: Seq<char>) -> int
    decreases s.len(),
{
    if s.len() == 0 {
        0
    } else {
        decimal_value(s.drop_last()) * 10 + digit_value(s.last())
    }
}

pub open spec fn min_cap(x: int) -> int {
    if x < DECIMAL_CAP { x } else { DECIMAL_CAP as int }
}

pub proof fn lemma_decimal_nonneg(s: Seq<char>)
    requires
        forall|i: int| 0 <= i < s.len() ==> #[trigger] is_digit(s[i]),
    ensures
        decimal_value(s) >= 0,
    decreases s.len(),
{
    if s.len() > 0 {
        assert(is_digit(s[s.len() - 1]));
        lemma_decimal_nonneg(s.drop_last());
    }
}

/// The value of a decimal text, or `None` when it is not a run of digits or
/// exceeds `bound`.
pub fn parse_decimal(s: &str, bound: u64) -> (r: Option<u64>)
    requires
        bound < DECIMAL_CAP,
    ensures
        r == (if is_decimal(s@) && decimal_value(s@) <= bound {
            Some(decimal_value(s@) as u64)
        } else {
            None::<u64>
        }),
        r matches Some(v) ==> v as int == decimal_value(s@),
{
    let n = s.unicode_len();
    if n == 0 {
        return None;
    }
    let mut acc: u64 = 0;
    let mut i: usize = 0;
    while i < n
        invariant
            n == s@.len(),
            i <= n,
            forall|j: int| 0 <= j < i ==> #[trigger] is_digit(s@[j]),
            acc == min_cap(decimal_value(s@.subrange(0, i as int))),
        decreases n - i,
    {
        let c = s.get_char(i);
        if !('0' <= c && c <= '9') {
            assert(!is_digit(s@[i as int]));
            assert(!is_decimal(s@));
            return None;
        }
        let d = (c as u32 - '0' as u32) as u64;
        proof {
            let pre = s@.subrange(0, i as int);
            let next = s@.subrange(0, i + 1);
            assert(next.drop_last() =~= pre);
            assert(next.last() == c);
            lemma_decimal_nonneg(pre);
            assert(decimal_value(next) == decimal_value(pre) * 10 + d);
        }
        if acc > (DECIMAL_CAP - d) / 10 {
            proof {
                let pre = s@.subrange(0, i as int);
                assert(acc * 10 + d > DECIMAL_CAP) by (nonlinear_arith)
                    requires
                        acc > (DECIMAL_CAP - d) / 10,
                        d <= 9,
                ;
                assert(decimal_value(pre) >= acc);
                assert(decimal_value(pre) * 10 + d >= acc * 10 + d) by (nonlinear_arith)
                    requires
                        decimal_value(pre) >= acc,
                ;
            }
            acc = DECIMAL_CAP;
        } else {
            proof {
                let pre = s@.subrange(0, i as int);
                assert(acc * 10 + d <= DECIMAL_CAP) by (nonlinear_arith)
                    requires
                        acc <= (DECIMAL_CAP - d) / 10,
                        d <= 9,
                ;
                if decimal_value(pre) >= DECIMAL_CAP {
                    assert(acc == DECIMAL_CAP);
                    assert(false) by (nonlinear_arith)
                        requires
                            acc == DECIMAL_CAP,
                            acc <= (DECIMAL_CAP - d) / 10,
                            d <= 9,
                    ;
                }
            }
            acc = acc * 10 + d;
        }
        i = i + 1;
    }
    assert(s@.subrange(0, n as int) =~= s@);
    proof {
        lemma_decimal_nonneg(s@);
    }
    if acc <= bound {
        Some(acc)
    } else {
        None
    }
}

/// `true` or `false`; `None` for any other text.
pub fn parse_boolean(s: &str) -> (r: Option<bool>)
    ensures
        r == (if s@ == seq!['t', 'r', 'u', 'e'] {
            Some(true)
        } else if s@ == seq!['f', 'a', 'l', 's', 'e'] {
            Some(false)
        } else {
            None::<bool>
        }),
{
    let n = s.unicode_len();
    if n == 4 && s.get_char(0) == 't' && s.get_char(1) == 'r' && s.get_char(2) == 'u' && s.get_char(3) == 'e' {
        assert(s@ =~= seq!['t', 'r', 'u', 'e']);
        Some(true)
    } else if n == 5 && s.get_char(0) == 'f' && s.get_char(1) == 'a' && s.get_char(2) == 'l' && s.get_char(3) == 's'
        && s.get_char(4) == 'e' {
        assert(s@ =~= seq!['f', 'a', 'l', 's', 'e']);
        Some(false)
    } else {
        proof {
            if s@ == seq!['t', 'r', 'u', 'e'] {
                assert(s@[0] == 't' && s@[1] == 'r' && s@[2] == 'u' && s@[3] == 'e');
            }
            if s@ == seq!['f', 'a', 'l', 's', 'e'] {
                assert(s@[0] == 'f' && s@[1] == 'a' && s@[2] == 'l' && s@[3] == 's' && s@[4] == 'e');
            }
        }
        None
    }
}

} // verus!
