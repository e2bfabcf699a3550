//! Decimal text of 64-bit integers, as the wire format carries them.
use vstd::prelude::*;

verus! {

/// The digit character for `d` in `0..10`.
pub open spec fn digit_char(d: int) -> char {
    if d == 0 { '0' } else if d == 1 { '1' } else if d == 2 { '2' } else if d == 3 { '3' }
    else if d == 4 { '4' } else if d == 5 { '5' } else if d == 6 { '6' } else if d == 7 { '7' }
    else if d == 8 { '8' } else { '9' }
}

/// The value of a decimal digit character, or -1 for any other character.
pub open spec fn digit_val(c: char) -> int {
    if c == '0' { 0 } else if c == '1' { 1 } else if c == '2' { 2 } else if c == '3' { 3 }
    else if c == '4' { 4 } else if c == '5' { 5 } else if c == '6' { 6 } else if c == '7' { 7 }
    else if c == '8' { 8 } else if c == '9' { 9 } else { -1 }
}

pub open spec fn all_digits(s: Seq<char>) -> bool {
    forall|i: int| 0 <= i < s.len() ==> digit_val(#[trigger] s[i]) >= 0
}

/// The number that a run of digits spells, most significant first.
pub open spec fn digits_value(s: Seq<char>) -> int
    decreases s.len(),
{
    if s.len() == 0 {
        0
    } else {
        digits_value(s.drop_last()) * 10 + digit_val(s.last())
    }
}

/// The shortest decimal text of a natural number.
pub open spec fn nat_text(n: nat) -> Seq<char>
    decreases n,
{
    if n < 10 {
        seq![digit_char(n as int)]
    } else {
        nat_text(n / 10).push(digit_char((n % 10) as int))
    }
}

/// The decimal text of an integer: a minus sign before a negative one.
pub open spec fn int_text(n: int) -> Seq<char> {
    if n < 0 {
        seq!['-'] + nat_text((-n) as nat)
    } else {
        nat_text(n as nat)
    }
}

/// The integer that `s` spells: an optional minus sign and at least one digit.
pub open spec fn parse_int_text(s: Seq<char>) -> Option<int> {
    if s.len() > 0 && s[0] == '-' {
        let rest = s.drop_first();
        if rest.len() > 0 && all_digits(rest) {
            Some(-digits_value(rest))
        } else {
            None
        }
    } else if s.len() > 0 && all_digits(s) {
        Some(digits_value(s))
    } else {
        None
    }
}

/// The 64-bit integer that `s` spells, when it spells one in range.
pub open spec fn parse_i64_text(s: Seq<char>) -> Option<i64> {
    match parse_int_text(s) {
        Some(v) => if i64::MIN <= v <= i64::MAX { Some(v as i64) } else { None },
        None => None,
    }
}

proof fn lemma_digit_round_trip(d: int)
    requires
        0 <= d < 10,
    ensures
        digit_val(digit_char(d)) == d,
{
}

proof fn lemma_nat_text(n: nat)
    ensures
        nat_text(n).len() > 0,
        all_digits(nat_text(n)),
        digits_value(nat_text(n)) == n,
    decreases n,
{
    if n < 10 {
        lemma_digit_round_trip(n as int);
        let s = nat_text(n);
        assert(s.drop_last() =~= Seq::<char>::empty());
        assert(digits_value(s.drop_last()) == 0);
        assert(s.last() == digit_char(n as int));
    } else {
        lemma_nat_text(n / 10);
        lemma_digit_round_trip((n % 10) as int);
        let s = nat_text(n);
        assert(s.drop_last() =~= nat_text(n / 10));
        assert(s.last() == digit_char((n % 10) as int));
        assert(digits_value(s) == (n / 10) * 10 + n % 10);
        assert forall|i: int| 0 <= i < s.len() implies digit_val(#[trigger] s[i]) >= 0 by {
            if i < s.len() - 1 {
                assert(s[i] == nat_text(n / 10)[i]);
            }
        }
    }
}

/// Reading back the decimal text of an integer gives the integer.
pub proof fn lemma_int_text_round_trip(n: int)
    ensures
        parse_int_text(int_text(n)) == Some(n),
{
    if n < 0 {
        let m = (-n) as nat;
        lemma_nat_text(m);
        let s = int_text(n);
        assert(s.drop_first() =~= nat_text(m));
    } else {
        lemma_nat_text(n as nat);
        assert(digit_val('-') < 0);
        assert(nat_text(n as nat)[0] != '-');
    }
}

proof fn lemma_digits_value_grows(s: Seq<char>, k: int)
    requires
        all_digits(s),
        0 <= k <= s.len(),
    ensures
        digits_value(s) >= digits_value(s.subrange(0, k)),
        digits_value(s.subrange(0, k)) >= 0,
    decreases s.len(),
{
    if s.len() == 0 {
        assert(s.subrange(0, k) =~= s);
    } else if k == s.len() {
        assert(s.subrange(0, k) =~= s);
        lemma_digits_value_grows(s.drop_last(), k - 1);
        assert(s.drop_last().subrange(0, k - 1) =~= s.drop_last());
    } else {
        lemma_digits_value_grows(s.drop_last(), k);
        assert(s.drop_last().subrange(0, k) =~= s.subrange(0, k));
        assert(s.drop_last().subrange(0, s.len() - 1) =~= s.drop_last());
        lemma_digits_value_grows(s.drop_last(), s.len() - 1);
        assert(digit_val(s.last()) >= 0);
        assert(digits_value(s.drop_last()) * 10 >= digits_value(s.drop_last())) by (nonlinear_arith)
            requires digits_value(s.drop_last()) >= 0;
    }
}

fn digit_str(d: u64) -> (r: &'static str)
    requires
        d < 10,
    ensures
        r@ == seq![digit_char(d as int)],
{
    if d == 0 { proof { reveal_strlit("0"); } "0" }
    else if d == 1 { proof { reveal_strlit("1"); } "1" }
    else if d == 2 { proof { reveal_strlit("2"); } "2" }
    else if d == 3 { proof { reveal_strlit("3"); } "3" }
    else if d == 4 { proof { reveal_strlit("4"); } "4" }
    else if d == 5 { proof { reveal_strlit("5"); } "5" }
    else if d == 6 { proof { reveal_strlit("6"); } "6" }
    else if d == 7 { proof { reveal_strlit("7"); } "7" }
    else if d == 8 { proof { reveal_strlit("8"); } "8" }
    else { proof { reveal_strlit("9"); } "9" }
}

pub(crate) fn push_nat_text(out: &mut String, n: u64)
    ensures
        final(out)@ == old(out)@ + nat_text(n as nat),
    decreases n,
{
    if n >= 10 {
        push_nat_text(out, n / 10);
    }
    out.append(digit_str(n % 10));
    proof {
        if n >= 10 {
            assert(old(out)@ + nat_text((n / 10) as nat) + seq![digit_char((n % 10) as int)]
                =~= old(out)@ + nat_text(n as nat));
        } else {
            assert(old(out)@ + nat_text(n as nat) =~= old(out)@ + seq![digit_char(n as int)]);
        }
    }
}

/// The decimal text of `n`.
pub fn i64_text(n: i64) -> (r: String)
    ensures
        r@ == int_text(n as int),
{
    let mut out = String::new();
    if n < 0 {
        proof { reveal_strlit("-"); }
        out.append("-");
        let m: u64 = (0i128 - n as i128) as u64;
        push_nat_text(&mut out, m);
    } else {
        push_nat_text(&mut out, n as u64);
    }
    out
}

fn digit_of(c: char) -> (r: Option<u64>)
    ensures
        digit_val(c) >= 0 ==> r == Some(digit_val(c) as u64),
        digit_val(c) < 0 ==> r is None,
{
    if c == '0' { Some(0) } else if c == '1' { Some(1) } else if c == '2' { Some(2) }
    else if c == '3' { Some(3) } else if c == '4' { Some(4) } else if c == '5' { Some(5) }
    else if c == '6' { Some(6) } else if c == '7' { Some(7) } else if c == '8' { Some(8) }
    else if c == '9' { Some(9) } else { None }
}

/// The 64-bit integer that `s` spells in decimal, if it spells one in range.
pub fn parse_i64(s: &str) -> (r: Option<i64>)
    ensures
        r == parse_i64_text(s@),
{
    let n = s.unicode_len();
    if n == 0 {
        return None;
    }
    let neg = s.get_char(0) == '-';
    let start: usize = if neg { 1 } else { 0 };
    if start == n {
        return None;
    }
    let ghost digits = s@.subrange(start as int, n as int);
    proof {
        if neg {
            assert(digits =~= s@.drop_first());
        } else {
            assert(digits =~= s@);
        }
    }
    let mut acc: u64 = 0;
    let mut i: usize = start;
    while i < n
        invariant
            n == s@.len(),
            start <= i <= n,
            digits == s@.subrange(start as int, n as int),
            neg ==> s@.drop_first() == digits,
            !neg ==> s@ == digits,
            neg == (s@[0] == '-'),
            start == (if neg { 1usize } else { 0usize }),
            all_digits(s@.subrange(start as int, i as int)),
            acc as int == digits_value(s@.subrange(start as int, i as int)),
            acc <= 9223372036854775808u64,
        decreases n - i,
    {
        let c = s.get_char(i);
        let d = match digit_of(c) {
            Some(d) => d,
            None => {
                proof {
                    assert(digits[i - start] == c);
                    assert(digit_val(digits[i - start]) < 0);
                    assert(!all_digits(digits));
                    if neg {
                        assert(s@.drop_first() == digits);
                    } else {
                        assert(s@ == digits);
                    }
                    assert(parse_int_text(s@) is None);
                }
                return None;
            },
        };
        let ghost pre = s@.subrange(start as int, i as int);
        let ghost next = s@.subrange(start as int, i + 1);
        proof {
            assert(next.drop_last() =~= pre);
            assert(next.last() == c);
            assert forall|k: int| 0 <= k < next.len() implies digit_val(#[trigger] next[k]) >= 0 by {
                if k < pre.len() {
                    assert(next[k] == pre[k]);
                }
            }
        }
        if acc > (9223372036854775808u64 - d) / 10 {
            proof {
                assert(acc * 10 + d > 9223372036854775808u64) by (nonlinear_arith)
                    requires acc > (9223372036854775808u64 - d) / 10, d < 10;
                assert(digits_value(next) == acc * 10 + d);
                if all_digits(digits) {
                    assert(digits.subrange(0, i + 1 - start) =~= next);
                    lemma_digits_value_grows(digits, i + 1 - start);
                    if neg {
                        assert(s@.drop_first() == digits);
                    } else {
                        assert(s@ == digits);
                    }
                } else {
                    if neg {
                        assert(s@.drop_first() == digits);
                    } else {
                        assert(s@ == digits);
                    }
                }
                assert(parse_i64_text(s@) is None);
            }
            return None;
        }
        acc = acc * 10 + d;
        i += 1;
    }
    proof {
        assert(s@.subrange(start as int, n as int) =~= digits);
    }
    if neg {
        Some((0i128 - acc as i128) as i64)
    } else if acc <= 9223372036854775807u64 {
        Some(acc as i64)
    } else {
        None
    }
}

} // verus!
