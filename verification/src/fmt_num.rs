//! Decimal rendering and parsing of the integers that appear in emitted C++
//! and in the on-disk reproducer files.
use vstd::prelude::*;

verus! {

/// The digit character for a value below ten.
pub open spec fn spec_digit_char(d: nat) -> char {
    if d == 0 {
        '0'
    } else if d == 1 {
        '1'
    } else if d == 2 {
        '2'
    } else if d == 3 {
        '3'
    } else if d == 4 {
        '4'
    } else if d == 5 {
        '5'
    } else if d == 6 {
        '6'
    } else if d == 7 {
        '7'
    } else if d == 8 {
        '8'
    } else {
        '9'
    }
}

/// The usual decimal rendering of a natural number, most significant digit
/// first, no leading zeros.
pub open spec fn spec_dec_nat(n: nat) -> Seq<char>
    decreases n,
{
    if n < 10 {
        seq![spec_digit_char(n)]
    } else {
        spec_dec_nat(n / 10) + seq![spec_digit_char(n % 10)]
    }
}

/// The decimal rendering of an integer: a minus sign for negatives.
pub open spec fn spec_dec_int(v: int) -> Seq<char> {
    if v < 0 {
        seq!['-'] + spec_dec_nat((-v) as nat)
    } else {
        spec_dec_nat(v as nat)
    }
}

pub open spec fn is_digit_char(c: char) -> bool {
    48 <= c as int <= 57
}

pub open spec fn digit_char_val(c: char) -> nat {
    (c as int - 48) as nat
}

/// Every character of a decimal rendering is a digit.
pub proof fn lemma_dec_nat_digits(n: nat)
    ensures
        spec_dec_nat(n).len() >= 1,
        forall|i: int|
            0 <= i < spec_dec_nat(n).len() ==> is_digit_char(#[trigger] spec_dec_nat(n)[i]),
    decreases n,
{
    if n < 10 {
    } else {
        lemma_dec_nat_digits(n / 10);
    }
}

/// The numeric value of a digit string, most significant digit first.
pub open spec fn spec_digits_val(s: Seq<char>) -> nat
    decreases s.len(),
{
    if s.len() == 0 {
        0
    } else {
        spec_digits_val(s.drop_last()) * 10 + digit_char_val(s.last())
    }
}

/// A digit character reads back as its value.
pub proof fn lemma_digit_char_val(d: nat)
    requires
        d < 10,
    ensures
        digit_char_val(spec_digit_char(d)) == d,
        is_digit_char(spec_digit_char(d)),
{
    assert('0' as int == 48);
    assert('1' as int == 49);
    assert('2' as int == 50);
    assert('3' as int == 51);
    assert('4' as int == 52);
    assert('5' as int == 53);
    assert('6' as int == 54);
    assert('7' as int == 55);
    assert('8' as int == 56);
    assert('9' as int == 57);
}

/// Reading back a decimal rendering gives the number it came from.
pub proof fn lemma_dec_nat_val(n: nat)
    ensures
        spec_digits_val(spec_dec_nat(n)) == n,
    decreases n,
{
    let s = spec_dec_nat(n);
    assert(s.len() > 0);
    assert(spec_digits_val(s) == spec_digits_val(s.drop_last()) * 10 + digit_char_val(s.last()));
    if n < 10 {
        lemma_digit_char_val(n);
        assert(s.drop_last() =~= Seq::<char>::empty());
        assert(s.last() == spec_digit_char(n));
        assert(spec_digits_val(s.drop_last()) == 0);
    } else {
        lemma_digit_char_val(n % 10);
        lemma_dec_nat_val(n / 10);
        assert(s.drop_last() =~= spec_dec_nat(n / 10));
        assert(s.last() == spec_digit_char(n % 10));
        assert(n / 10 * 10 + n % 10 == n) by (nonlinear_arith);
    }
}

fn digit_str(d: u64) -> (s: &'static str)
    requires
        d < 10,
    ensures
        s@ =~= seq![spec_digit_char(d as nat)],
{
    proof {
        reveal_strlit("0");
        reveal_strlit("1");
        reveal_strlit("2");
        reveal_strlit("3");
        reveal_strlit("4");
        reveal_strlit("5");
        reveal_strlit("6");
        reveal_strlit("7");
        reveal_strlit("8");
        reveal_strlit("9");
    }
    match d {
        0 => "0",
        1 => "1",
        2 => "2",
        3 => "3",
        4 => "4",
        5 => "5",
        6 => "6",
        7 => "7",
        8 => "8",
        _ => "9",
    }
}

/// Render a 64-bit number in decimal.
pub fn u64_to_dec(n: u64) -> (s: String)
    ensures
        s@ =~= spec_dec_nat(n as nat),
    decreases n,
{
    if n < 10 {
        digit_str(n).to_owned()
    } else {
        let mut s = u64_to_dec(n / 10);
        s.append(digit_str(n % 10));
        s
    }
}

pub fn usize_to_dec(n: usize) -> (s: String)
    ensures
        s@ =~= spec_dec_nat(n as nat),
{
    u64_to_dec(n as u64)
}

pub fn u32_to_dec(n: u32) -> (s: String)
    ensures
        s@ =~= spec_dec_nat(n as nat),
{
    u64_to_dec(n as u64)
}

/// Render a signed 64-bit number in decimal with a leading minus sign when
/// negative.
pub fn i64_to_dec(v: i64) -> (s: String)
    ensures
        s@ =~= spec_dec_int(v as int),
{
    if v >= 0 {
        u64_to_dec(v as u64)
    } else {
        let mag: u64 = if v == i64::MIN {
            proof {
                assert((9223372036854775808u64) as int == -(i64::MIN as int));
            }
            9223372036854775808u64
        } else {
            (-v) as u64
        };
        let mut s = String::new();
        proof {
            reveal_strlit("-");
        }
        s.append("-");
        let rest = u64_to_dec(mag);
        s.append(rest.as_str());
        proof {
            assert("-"@ =~= seq!['-']);
            assert(s@ =~= seq!['-'] + spec_dec_nat(mag as nat));
        }
        s
    }
}

pub fn i32_to_dec(v: i32) -> (s: String)
    ensures
        s@ =~= spec_dec_int(v as int),
{
    i64_to_dec(v as i64)
}

/// Where the run of decimal digits starting at `pos` ends.
pub open spec fn spec_scan_digits(s: Seq<char>, pos: int) -> int
    decreases s.len() - pos,
{
    if 0 <= pos < s.len() && is_digit_char(s[pos]) {
        spec_scan_digits(s, pos + 1)
    } else {
        pos
    }
}

pub proof fn lemma_scan_digits_bounds(s: Seq<char>, pos: int)
    requires
        0 <= pos <= s.len(),
    ensures
        pos <= spec_scan_digits(s, pos) <= s.len(),
        forall|i: int| pos <= i < spec_scan_digits(s, pos) ==> is_digit_char(#[trigger] s[i]),
        spec_scan_digits(s, pos) < s.len() ==> !is_digit_char(s[spec_scan_digits(s, pos)]),
    decreases s.len() - pos,
{
    if pos < s.len() && is_digit_char(s[pos]) {
        lemma_scan_digits_bounds(s, pos + 1);
    }
}

/// In a string whose characters from `pos` to `end` are digits and whose
/// character at `end` is not, the digit scan from `pos` stops at `end`.
pub proof fn lemma_scan_digits_exact(s: Seq<char>, pos: int, end: int)
    requires
        0 <= pos <= end <= s.len(),
        forall|i: int| pos <= i < end ==> is_digit_char(#[trigger] s[i]),
        end < s.len() ==> !is_digit_char(s[end]),
    ensures
        spec_scan_digits(s, pos) == end,
    decreases end - pos,
{
    if pos < end {
        lemma_scan_digits_exact(s, pos + 1, end);
    }
}

} // verus!

verus! {

/// The number starting at `pos` and the position after it, or `None` when no
/// digit stands at `pos`.
pub open spec fn spec_take_num(s: Seq<char>, pos: int) -> Option<(nat, int)> {
    let end = spec_scan_digits(s, pos);
    if end == pos {
        None
    } else {
        Some((spec_digits_val(s.subrange(pos, end)), end))
    }
}

/// Where a decimal rendering is embedded at `pos` with no digit after it, the
/// number scan reads exactly that rendering back.
pub proof fn lemma_take_num_of_dec(n: nat, s: Seq<char>, pos: int)
    requires
        0 <= pos,
        pos + spec_dec_nat(n).len() <= s.len(),
        s.subrange(pos, pos + spec_dec_nat(n).len()) == spec_dec_nat(n),
        pos + spec_dec_nat(n).len() < s.len() ==> !is_digit_char(
            s[pos + spec_dec_nat(n).len()],
        ),
    ensures
        spec_take_num(s, pos) == Some((n, pos + spec_dec_nat(n).len())),
{
    let d = spec_dec_nat(n);
    let end = pos + d.len();
    lemma_dec_nat_digits(n);
    assert forall|i: int| pos <= i < end implies is_digit_char(#[trigger] s[i]) by {
        assert(s[i] == d[i - pos]);
    }
    lemma_scan_digits_exact(s, pos, end);
    lemma_dec_nat_val(n);
    assert(s.subrange(pos, end) == d);
}

/// Read a decimal number at character position `pos`; `None` when no digit
/// stands there or the value exceeds `u64::MAX`.
pub fn take_num_u64(s: &str, pos: usize) -> (r: Option<(u64, usize)>)
    requires
        pos <= s@.len(),
    ensures
        match r {
            Some((v, end)) => spec_take_num(s@, pos as int) == Some((v as nat, end as int)),
            None => (match spec_take_num(s@, pos as int) {
                Some((v, _)) => v > u64::MAX,
                None => true,
            }),
        },
{
    let n = s.unicode_len();
    let mut p: usize = pos;
    let mut acc: u64 = 0;
    let mut overflow = false;
    while p < n
        invariant
            n == s@.len(),
            pos <= p <= n,
            spec_scan_digits(s@, pos as int) == spec_scan_digits(s@, p as int),
            forall|i: int| pos <= i < p ==> is_digit_char(#[trigger] s@[i]),
            !overflow ==> acc == spec_digits_val(s@.subrange(pos as int, p as int)),
            overflow ==> spec_digits_val(s@.subrange(pos as int, p as int)) > u64::MAX,
        ensures
            pos <= p <= n,
            spec_scan_digits(s@, pos as int) == p as int,
            !overflow ==> acc == spec_digits_val(s@.subrange(pos as int, p as int)),
            overflow ==> spec_digits_val(s@.subrange(pos as int, p as int)) > u64::MAX,
        decreases n - p,
    {
        let c = s.get_char(p);
        if !(c >= '0' && c <= '9') {
            proof {
                assert(!is_digit_char(s@[p as int]));
            }
            break ;
        }
        let d = (c as u32) - 48;
        proof {
            assert(is_digit_char(s@[p as int]));
            assert(d <= 9);
            assert(s@.subrange(pos as int, p + 1 as int).drop_last() =~= s@.subrange(
                pos as int,
                p as int,
            ));
            assert(s@.subrange(pos as int, p + 1 as int).last() == s@[p as int]);
        }
        if overflow || acc > (u64::MAX - (d as u64)) / 10 {
            proof {
                if !overflow {
                    assert(acc * 10 + d > u64::MAX) by (nonlinear_arith)
                        requires
                            acc > ((u64::MAX - (d as u64)) / 10) as int,
                            d <= 9,
                    ;
                }
                assert(spec_digits_val(s@.subrange(pos as int, p + 1 as int)) == spec_digits_val(
                    s@.subrange(pos as int, p as int),
                ) * 10 + digit_char_val(s@[p as int]));
                if overflow {
                    assert(spec_digits_val(s@.subrange(pos as int, p as int)) * 10 + digit_char_val(
                        s@[p as int],
                    ) > u64::MAX) by (nonlinear_arith)
                        requires
                            spec_digits_val(s@.subrange(pos as int, p as int)) > u64::MAX,
                            digit_char_val(s@[p as int]) >= 0,
                    ;
                }
            }
            overflow = true;
        } else {
            acc = acc * 10 + (d as u64);
            proof {
                assert(digit_char_val(s@[p as int]) == d);
            }
        }
        p = p + 1;
    }
    if p == pos {
        return None;
    }
    if overflow {
        return None;
    }
    Some((acc, p))
}

} // verus!

verus! {

/// The integer starting at `pos` (optionally signed) and the position after
/// it.
pub open spec fn spec_take_int(s: Seq<char>, pos: int) -> Option<(int, int)> {
    if 0 <= pos < s.len() && s[pos] == '-' {
        match spec_take_num(s, pos + 1) {
            Some((v, e)) => Some((-(v as int), e)),
            None => None,
        }
    } else {
        match spec_take_num(s, pos) {
            Some((v, e)) => Some((v as int, e)),
            None => None,
        }
    }
}

/// Where a signed decimal rendering is embedded at `pos` with no digit after
/// it, the integer scan reads exactly that rendering back.
pub proof fn lemma_take_int_of_dec(v: int, s: Seq<char>, pos: int)
    requires
        0 <= pos,
        pos + spec_dec_int(v).len() <= s.len(),
        s.subrange(pos, pos + spec_dec_int(v).len()) == spec_dec_int(v),
        pos + spec_dec_int(v).len() < s.len() ==> !is_digit_char(s[pos + spec_dec_int(v).len()]),
    ensures
        spec_take_int(s, pos) == Some((v, pos + spec_dec_int(v).len())),
{
    if v < 0 {
        let m = (-v) as nat;
        let d = spec_dec_nat(m);
        let w = spec_dec_int(v);
        let sub = s.subrange(pos, pos + w.len());
        assert(w == seq!['-'] + d);
        assert(w[0] == '-');
        assert(sub[0] == s[pos]);
        assert(s[pos] == '-');
        assert('-' as int == 45);
        assert forall|i: int| 0 <= i < d.len() implies s.subrange(pos + 1, pos + 1 + d.len())[i]
            == d[i] by {
            assert(s[pos + 1 + i] == sub[1 + i]);
            assert(sub[1 + i] == w[1 + i]);
            assert(w[1 + i] == d[i]);
        }
        assert(s.subrange(pos + 1, pos + 1 + d.len()) =~= d);
        lemma_take_num_of_dec(m, s, pos + 1);
    } else {
        lemma_dec_nat_digits(v as nat);
        assert(s[pos] == spec_dec_int(v)[0]);
        assert(is_digit_char(s[pos]));
        assert(s[pos] != '-');
        lemma_take_num_of_dec(v as nat, s, pos);
    }
}

/// Read a signed decimal number at `pos`; `None` when none stands there or
/// it does not fit an `i64`.
pub fn take_int_i64(s: &str, pos: usize) -> (r: Option<(i64, usize)>)
    requires
        pos <= s@.len(),
    ensures
        match r {
            Some((v, end)) => spec_take_int(s@, pos as int) == Some((v as int, end as int)),
            None => (match spec_take_int(s@, pos as int) {
                Some((v, _)) => v > i64::MAX || v < i64::MIN,
                None => true,
            }),
        },
{
    let n = s.unicode_len();
    if pos < n && s.get_char(pos) == '-' {
        match take_num_u64(s, pos + 1) {
            Some((mag, end)) => {
                if mag <= 9223372036854775807u64 {
                    Some((-(mag as i64), end))
                } else if mag == 9223372036854775808u64 {
                    proof {
                        assert(i64::MIN as int == -(9223372036854775808u64 as int));
                    }
                    Some((i64::MIN, end))
                } else {
                    None
                }
            },
            None => None,
        }
    } else {
        match take_num_u64(s, pos) {
            Some((v, end)) => {
                if v <= 9223372036854775807u64 {
                    Some((v as i64, end))
                } else {
                    None
                }
            },
            None => None,
        }
    }
}

} // verus!
