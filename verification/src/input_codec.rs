//! The on-disk codec for captured inputs: each buffer is written as its
//! length, a newline, and its values each followed by a space.  Floats and
//! doubles are carried as their raw IEEE-754 bit patterns, so the round trip
//! is bit-exact.
use vstd::prelude::*;

use crate::fmt_num::{
    spec_dec_nat, spec_dec_int, spec_take_num, spec_take_int, is_digit_char, usize_to_dec,
    u32_to_dec, u64_to_dec, i32_to_dec, take_num_u64, take_int_i64, lemma_dec_nat_digits,
    lemma_take_num_of_dec, lemma_take_int_of_dec,
};

verus! {

/// One captured input for an ARM graph: the integer slots, and the float and
/// double slots as raw bit patterns.
#[derive(Debug, Clone, PartialEq, Eq)]
pub struct ARMCodeFuzzerInputValues {
    pub i_vals: Vec<i32>,
    pub f_bits: Vec<u32>,
    pub d_bits: Vec<u64>,
}

/// The serialized form of a list of signed values: each value then a space.
pub open spec fn spec_ser_i32s(vals: Seq<i32>) -> Seq<char>
    decreases vals.len(),
{
    if vals.len() == 0 {
        Seq::empty()
    } else {
        spec_dec_int(vals[0] as int) + " "@ + spec_ser_i32s(vals.drop_first())
    }
}

pub open spec fn spec_ser_u32s(vals: Seq<u32>) -> Seq<char>
    decreases vals.len(),
{
    if vals.len() == 0 {
        Seq::empty()
    } else {
        spec_dec_nat(vals[0] as nat) + " "@ + spec_ser_u32s(vals.drop_first())
    }
}

pub open spec fn spec_ser_u64s(vals: Seq<u64>) -> Seq<char>
    decreases vals.len(),
{
    if vals.len() == 0 {
        Seq::empty()
    } else {
        spec_dec_nat(vals[0] as nat) + " "@ + spec_ser_u64s(vals.drop_first())
    }
}

/// The serialized form of a whole captured input.
pub open spec fn spec_serialize_input(ivals: Seq<i32>, fbits: Seq<u32>, dbits: Seq<u64>) -> Seq<
    char,
> {
    spec_dec_nat(ivals.len()) + "\n"@ + spec_ser_i32s(ivals) + "\n"@ + spec_dec_nat(fbits.len())
        + "\n"@ + spec_ser_u32s(fbits) + spec_dec_nat(dbits.len()) + "\n"@ + spec_ser_u64s(dbits)
}

/// Parse `count` signed values, each followed by one space.
pub open spec fn spec_parse_i32s(s: Seq<char>, pos: int, count: nat) -> Option<(Seq<i32>, int)>
    decreases count,
{
    if count == 0 {
        Some((Seq::empty(), pos))
    } else {
        match spec_take_int(s, pos) {
            None => None,
            Some((v, e)) => {
                if !(i32::MIN <= v <= i32::MAX) || !(e < s.len() && s[e] == ' ') {
                    None
                } else {
                    match spec_parse_i32s(s, e + 1, (count - 1) as nat) {
                        None => None,
                        Some((rest, end)) => Some((seq![v as i32] + rest, end)),
                    }
                }
            },
        }
    }
}

pub open spec fn spec_parse_u32s(s: Seq<char>, pos: int, count: nat) -> Option<(Seq<u32>, int)>
    decreases count,
{
    if count == 0 {
        Some((Seq::empty(), pos))
    } else {
        match spec_take_num(s, pos) {
            None => None,
            Some((v, e)) => {
                if v > u32::MAX || !(e < s.len() && s[e] == ' ') {
                    None
                } else {
                    match spec_parse_u32s(s, e + 1, (count - 1) as nat) {
                        None => None,
                        Some((rest, end)) => Some((seq![v as u32] + rest, end)),
                    }
                }
            },
        }
    }
}

pub open spec fn spec_parse_u64s(s: Seq<char>, pos: int, count: nat) -> Option<(Seq<u64>, int)>
    decreases count,
{
    if count == 0 {
        Some((Seq::empty(), pos))
    } else {
        match spec_take_num(s, pos) {
            None => None,
            Some((v, e)) => {
                if v > u64::MAX || !(e < s.len() && s[e] == ' ') {
                    None
                } else {
                    match spec_parse_u64s(s, e + 1, (count - 1) as nat) {
                        None => None,
                        Some((rest, end)) => Some((seq![v as u64] + rest, end)),
                    }
                }
            },
        }
    }
}

/// What a serialized input parses back to: three counted lists, with nothing
/// after them.
pub open spec fn spec_deserialize_input(s: Seq<char>) -> Option<(Seq<i32>, Seq<u32>, Seq<u64>)> {
    match spec_take_num(s, 0) {
        None => None,
        Some((ni, p0)) => {
            if !(p0 < s.len() && s[p0] == '\n') {
                None
            } else {
                match spec_parse_i32s(s, p0 + 1, ni) {
                    None => None,
                    Some((ivals, p1)) => {
                        if !(p1 < s.len() && s[p1] == '\n') {
                            None
                        } else {
                        match spec_take_num(s, p1 + 1) {
                            None => None,
                            Some((nf, p2)) => {
                                if !(p2 < s.len() && s[p2] == '\n') {
                                    None
                                } else {
                                    match spec_parse_u32s(s, p2 + 1, nf) {
                                        None => None,
                                        Some((fbits, p3)) => {
                                            match spec_take_num(s, p3) {
                                                None => None,
                                                Some((nd, p4)) => {
                                                    if !(p4 < s.len() && s[p4] == '\n') {
                                                        None
                                                    } else {
                                                        match spec_parse_u64s(s, p4 + 1, nd) {
                                                            None => None,
                                                            Some((dbits, p5)) => {
                                                                if p5 != s.len() {
                                                                    None
                                                                } else {
                                                                    Some((ivals, fbits, dbits))
                                                                }
                                                            },
                                                        }
                                                    }
                                                },
                                            }
                                        },
                                    }
                                }
                            },
                        }
                        }
                    },
                }
            }
        },
    }
}

} // verus!

verus! {

/// A successful parse of `c` counted values consumes at least two characters
/// per value and stays inside the string.
proof fn lemma_parse_i32s_len(s: Seq<char>, pos: int, count: nat)
    requires
        0 <= pos <= s.len(),
    ensures
        spec_parse_i32s(s, pos, count) matches Some((vs, end)) ==> vs.len() == count && pos + 2
            * count <= end <= s.len(),
    decreases count,
{
    if count > 0 {
        match spec_take_int(s, pos) {
            None => {},
            Some((v, e)) => {
                crate::fmt_num::lemma_scan_digits_bounds(s, pos);
                if pos < s.len() && s[pos] == '-' {
                    crate::fmt_num::lemma_scan_digits_bounds(s, pos + 1);
                }
                if i32::MIN <= v <= i32::MAX && e < s.len() && s[e] == ' ' {
                    lemma_parse_i32s_len(s, e + 1, (count - 1) as nat);
                }
            },
        }
    }
}

proof fn lemma_parse_u32s_len(s: Seq<char>, pos: int, count: nat)
    requires
        0 <= pos <= s.len(),
    ensures
        spec_parse_u32s(s, pos, count) matches Some((vs, end)) ==> vs.len() == count && pos + 2
            * count <= end <= s.len(),
    decreases count,
{
    if count > 0 {
        match spec_take_num(s, pos) {
            None => {},
            Some((v, e)) => {
                crate::fmt_num::lemma_scan_digits_bounds(s, pos);
                if v <= u32::MAX && e < s.len() && s[e] == ' ' {
                    lemma_parse_u32s_len(s, e + 1, (count - 1) as nat);
                }
            },
        }
    }
}

proof fn lemma_parse_u64s_len(s: Seq<char>, pos: int, count: nat)
    requires
        0 <= pos <= s.len(),
    ensures
        spec_parse_u64s(s, pos, count) matches Some((vs, end)) ==> vs.len() == count && pos + 2
            * count <= end <= s.len(),
    decreases count,
{
    if count > 0 {
        match spec_take_num(s, pos) {
            None => {},
            Some((v, e)) => {
                crate::fmt_num::lemma_scan_digits_bounds(s, pos);
                if v <= u64::MAX && e < s.len() && s[e] == ' ' {
                    lemma_parse_u64s_len(s, e + 1, (count - 1) as nat);
                }
            },
        }
    }
}

/// Parsing a serialized value list embedded in a larger string reads back
/// exactly the values.
proof fn lemma_parse_i32s_of_ser(vals: Seq<i32>, s: Seq<char>, pos: int)
    requires
        0 <= pos,
        pos + spec_ser_i32s(vals).len() <= s.len(),
        s.subrange(pos, pos + spec_ser_i32s(vals).len()) == spec_ser_i32s(vals),
    ensures
        spec_parse_i32s(s, pos, vals.len()) == Some((vals, pos + spec_ser_i32s(vals).len())),
    decreases vals.len(),
{
    assert(' ' as int == 32);
    if vals.len() == 0 {
        assert(spec_ser_i32s(vals).len() == 0);
    } else {
        let v = vals[0];
        let d = spec_dec_int(v as int);
        let rest = spec_ser_i32s(vals.drop_first());
        let whole = spec_ser_i32s(vals);
        let sub = s.subrange(pos, pos + whole.len());
        assert(whole == d + " "@ + rest);
        assert(" "@ =~= seq![' ']) by {
            reveal_strlit(" ");
        }
        assert forall|i: int| 0 <= i < whole.len() implies s[pos + i] == whole[i] by {
            assert(sub[i] == s[pos + i]);
        }
        assert forall|i: int| 0 <= i < d.len() implies s.subrange(pos, pos + d.len())[i] == d[i] by {
            assert(s[pos + i] == whole[i]);
            assert(whole[i] == d[i]);
        }
        assert(s.subrange(pos, pos + d.len()) =~= d);
        assert(whole[d.len() as int] == ' ');
        assert(s[pos + d.len()] == whole[d.len() as int]);
        assert(!is_digit_char(' '));
        lemma_take_int_of_dec(v as int, s, pos);
        let e = pos + d.len();
        assert forall|i: int| 0 <= i < rest.len() implies s.subrange(e + 1, e + 1 + rest.len())[i]
            == rest[i] by {
            assert(s[pos + (d.len() + 1 + i)] == whole[d.len() + 1 + i]);
            assert(whole[d.len() + 1 + i] == rest[i]);
        }
        assert(s.subrange(e + 1, e + 1 + rest.len()) =~= rest);
        lemma_parse_i32s_of_ser(vals.drop_first(), s, e + 1);
        assert(seq![v] + vals.drop_first() =~= vals);
    }
}

proof fn lemma_parse_u32s_of_ser(vals: Seq<u32>, s: Seq<char>, pos: int)
    requires
        0 <= pos,
        pos + spec_ser_u32s(vals).len() <= s.len(),
        s.subrange(pos, pos + spec_ser_u32s(vals).len()) == spec_ser_u32s(vals),
    ensures
        spec_parse_u32s(s, pos, vals.len()) == Some((vals, pos + spec_ser_u32s(vals).len())),
    decreases vals.len(),
{
    assert(' ' as int == 32);
    if vals.len() == 0 {
        assert(spec_ser_u32s(vals).len() == 0);
    } else {
        let v = vals[0];
        let d = spec_dec_nat(v as nat);
        let rest = spec_ser_u32s(vals.drop_first());
        let whole = spec_ser_u32s(vals);
        let sub = s.subrange(pos, pos + whole.len());
        assert(whole == d + " "@ + rest);
        assert(" "@ =~= seq![' ']) by {
            reveal_strlit(" ");
        }
        assert forall|i: int| 0 <= i < whole.len() implies s[pos + i] == whole[i] by {
            assert(sub[i] == s[pos + i]);
        }
        assert forall|i: int| 0 <= i < d.len() implies s.subrange(pos, pos + d.len())[i] == d[i] by {
            assert(s[pos + i] == whole[i]);
            assert(whole[i] == d[i]);
        }
        assert(s.subrange(pos, pos + d.len()) =~= d);
        assert(whole[d.len() as int] == ' ');
        assert(s[pos + d.len()] == whole[d.len() as int]);
        assert(!is_digit_char(' '));
        lemma_take_num_of_dec(v as nat, s, pos);
        let e = pos + d.len();
        assert forall|i: int| 0 <= i < rest.len() implies s.subrange(e + 1, e + 1 + rest.len())[i]
            == rest[i] by {
            assert(s[pos + (d.len() + 1 + i)] == whole[d.len() + 1 + i]);
            assert(whole[d.len() + 1 + i] == rest[i]);
        }
        assert(s.subrange(e + 1, e + 1 + rest.len()) =~= rest);
        lemma_parse_u32s_of_ser(vals.drop_first(), s, e + 1);
        assert(seq![v] + vals.drop_first() =~= vals);
    }
}

proof fn lemma_parse_u64s_of_ser(vals: Seq<u64>, s: Seq<char>, pos: int)
    requires
        0 <= pos,
        pos + spec_ser_u64s(vals).len() <= s.len(),
        s.subrange(pos, pos + spec_ser_u64s(vals).len()) == spec_ser_u64s(vals),
    ensures
        spec_parse_u64s(s, pos, vals.len()) == Some((vals, pos + spec_ser_u64s(vals).len())),
    decreases vals.len(),
{
    assert(' ' as int == 32);
    if vals.len() == 0 {
        assert(spec_ser_u64s(vals).len() == 0);
    } else {
        let v = vals[0];
        let d = spec_dec_nat(v as nat);
        let rest = spec_ser_u64s(vals.drop_first());
        let whole = spec_ser_u64s(vals);
        let sub = s.subrange(pos, pos + whole.len());
        assert(whole == d + " "@ + rest);
        assert(" "@ =~= seq![' ']) by {
            reveal_strlit(" ");
        }
        assert forall|i: int| 0 <= i < whole.len() implies s[pos + i] == whole[i] by {
            assert(sub[i] == s[pos + i]);
        }
        assert forall|i: int| 0 <= i < d.len() implies s.subrange(pos, pos + d.len())[i] == d[i] by {
            assert(s[pos + i] == whole[i]);
            assert(whole[i] == d[i]);
        }
        assert(s.subrange(pos, pos + d.len()) =~= d);
        assert(whole[d.len() as int] == ' ');
        assert(s[pos + d.len()] == whole[d.len() as int]);
        assert(!is_digit_char(' '));
        lemma_take_num_of_dec(v as nat, s, pos);
        let e = pos + d.len();
        assert forall|i: int| 0 <= i < rest.len() implies s.subrange(e + 1, e + 1 + rest.len())[i]
            == rest[i] by {
            assert(s[pos + (d.len() + 1 + i)] == whole[d.len() + 1 + i]);
            assert(whole[d.len() + 1 + i] == rest[i]);
        }
        assert(s.subrange(e + 1, e + 1 + rest.len()) =~= rest);
        lemma_parse_u64s_of_ser(vals.drop_first(), s, e + 1);
        assert(seq![v] + vals.drop_first() =~= vals);
    }
}

/// Reading back a serialized input gives exactly the buffers it came from:
/// byte-wise for the integers, bit-exact for the float and double patterns.
pub proof fn lemma_input_roundtrip(ivals: Seq<i32>, fbits: Seq<u32>, dbits: Seq<u64>)
    ensures
        spec_deserialize_input(spec_serialize_input(ivals, fbits, dbits)) == Some(
            (ivals, fbits, dbits),
        ),
{
    let s = spec_serialize_input(ivals, fbits, dbits);
    let a = spec_dec_nat(ivals.len());
    let sa = spec_ser_i32s(ivals);
    let b = spec_dec_nat(fbits.len());
    let sb = spec_ser_u32s(fbits);
    let c = spec_dec_nat(dbits.len());
    let sc = spec_ser_u64s(dbits);
    assert('\n' as int == 10);
    assert("\n"@ =~= seq!['\n']) by {
        reveal_strlit("\n");
    }
    lemma_dec_nat_digits(ivals.len());
    lemma_dec_nat_digits(fbits.len());
    lemma_dec_nat_digits(dbits.len());
    let p0 = a.len() as int;
    let p1 = p0 + 1 + sa.len();
    let p2 = p1 + 1 + b.len();
    let p3 = p2 + 1 + sb.len();
    let p4 = p3 + c.len();
    let p5 = p4 + 1 + sc.len();
    assert(s.len() == p5);
    assert(s.subrange(0, p0) =~= a);
    assert(s[p0] == '\n');
    assert(!is_digit_char('\n'));
    lemma_take_num_of_dec(ivals.len(), s, 0);
    assert(s.subrange(p0 + 1, p0 + 1 + sa.len()) =~= sa);
    lemma_parse_i32s_of_ser(ivals, s, p0 + 1);
    assert(s[p1] == '\n');
    assert(s.subrange(p1 + 1, p1 + 1 + b.len()) =~= b);
    assert(s[p2] == '\n');
    lemma_take_num_of_dec(fbits.len(), s, p1 + 1);
    assert(s.subrange(p2 + 1, p2 + 1 + sb.len()) =~= sb);
    lemma_parse_u32s_of_ser(fbits, s, p2 + 1);
    assert(s.subrange(p3, p3 + c.len()) =~= c);
    assert(s[p4] == '\n');
    lemma_take_num_of_dec(dbits.len(), s, p3);
    assert(s.subrange(p4 + 1, p4 + 1 + sc.len()) =~= sc);
    lemma_parse_u64s_of_ser(dbits, s, p4 + 1);
}

} // verus!

verus! {

/// Serialize a captured input to its text form.
pub fn save_input_to_string(input: &ARMCodeFuzzerInputValues) -> (r: String)
    ensures
        r@ =~= spec_serialize_input(input.i_vals@, input.f_bits@, input.d_bits@),
{
    let ghost ivals = input.i_vals@;
    let ghost fbits = input.f_bits@;
    let ghost dbits = input.d_bits@;
    let mut s = usize_to_dec(input.i_vals.len());
    s.append("\n");
    let ghost base_i = s@;
    proof {
        assert(ivals.skip(0) =~= ivals);
    }
    let mut k: usize = 0;
    while k < input.i_vals.len()
        invariant
            ivals == input.i_vals@,
            k <= ivals.len(),
            base_i + spec_ser_i32s(ivals) =~= s@ + spec_ser_i32s(ivals.skip(k as int)),
        decreases ivals.len() - k,
    {
        let ghost before = s@;
        let d = i32_to_dec(input.i_vals[k]);
        s.append(d.as_str());
        s.append(" ");
        proof {
            assert(ivals.skip(k as int)[0] == ivals[k as int]);
            assert(ivals.skip(k as int).drop_first() =~= ivals.skip(k as int + 1));
            assert(spec_ser_i32s(ivals.skip(k as int)) =~= spec_dec_int(ivals[k as int] as int)
                + " "@ + spec_ser_i32s(ivals.skip(k as int + 1)));
            assert(base_i + spec_ser_i32s(ivals) =~= s@ + spec_ser_i32s(ivals.skip(k as int + 1)));
        }
        k = k + 1;
    }
    proof {
        assert(ivals.skip(ivals.len() as int) =~= Seq::<i32>::empty());
        assert(s@ =~= base_i + spec_ser_i32s(ivals));
    }
    s.append("\n");
    let d1 = usize_to_dec(input.f_bits.len());
    s.append(d1.as_str());
    s.append("\n");
    let ghost base_f = s@;
    proof {
        assert(fbits.skip(0) =~= fbits);
    }
    let mut k2: usize = 0;
    while k2 < input.f_bits.len()
        invariant
            fbits == input.f_bits@,
            k2 <= fbits.len(),
            base_f + spec_ser_u32s(fbits) =~= s@ + spec_ser_u32s(fbits.skip(k2 as int)),
        decreases fbits.len() - k2,
    {
        let d = u32_to_dec(input.f_bits[k2]);
        s.append(d.as_str());
        s.append(" ");
        proof {
            assert(fbits.skip(k2 as int)[0] == fbits[k2 as int]);
            assert(fbits.skip(k2 as int).drop_first() =~= fbits.skip(k2 as int + 1));
            assert(spec_ser_u32s(fbits.skip(k2 as int)) =~= spec_dec_nat(fbits[k2 as int] as nat)
                + " "@ + spec_ser_u32s(fbits.skip(k2 as int + 1)));
            assert(base_f + spec_ser_u32s(fbits) =~= s@ + spec_ser_u32s(fbits.skip(k2 as int + 1)));
        }
        k2 = k2 + 1;
    }
    proof {
        assert(fbits.skip(fbits.len() as int) =~= Seq::<u32>::empty());
        assert(s@ =~= base_f + spec_ser_u32s(fbits));
    }
    let d2 = usize_to_dec(input.d_bits.len());
    s.append(d2.as_str());
    s.append("\n");
    let ghost base_d = s@;
    proof {
        assert(dbits.skip(0) =~= dbits);
    }
    let mut k3: usize = 0;
    while k3 < input.d_bits.len()
        invariant
            dbits == input.d_bits@,
            k3 <= dbits.len(),
            base_d + spec_ser_u64s(dbits) =~= s@ + spec_ser_u64s(dbits.skip(k3 as int)),
        decreases dbits.len() - k3,
    {
        let d = u64_to_dec(input.d_bits[k3]);
        s.append(d.as_str());
        s.append(" ");
        proof {
            assert(dbits.skip(k3 as int)[0] == dbits[k3 as int]);
            assert(dbits.skip(k3 as int).drop_first() =~= dbits.skip(k3 as int + 1));
            assert(spec_ser_u64s(dbits.skip(k3 as int)) =~= spec_dec_nat(dbits[k3 as int] as nat)
                + " "@ + spec_ser_u64s(dbits.skip(k3 as int + 1)));
            assert(base_d + spec_ser_u64s(dbits) =~= s@ + spec_ser_u64s(dbits.skip(k3 as int + 1)));
        }
        k3 = k3 + 1;
    }
    proof {
        assert(dbits.skip(dbits.len() as int) =~= Seq::<u64>::empty());
        assert(s@ =~= base_d + spec_ser_u64s(dbits));
    }
    s
}

/// Parse `count` signed values, each followed by one space.
fn parse_i32s(s: &str, pos: usize, count: usize) -> (r: Option<(Vec<i32>, usize)>)
    requires
        pos <= s@.len(),
    ensures
        match r {
            Some((vs, end)) => spec_parse_i32s(s@, pos as int, count as nat) == Some(
                (vs@, end as int),
            ),
            None => spec_parse_i32s(s@, pos as int, count as nat) is None,
        },
{
    let n = s.unicode_len();
    let mut acc: Vec<i32> = Vec::new();
    let mut p: usize = pos;
    let mut k: usize = 0;
    while k < count
        invariant
            n == s@.len(),
            pos <= p <= n,
            k <= count,
            acc@.len() == k as int,
            (match spec_parse_i32s(s@, p as int, (count - k) as nat) {
                Some((rest, end)) => spec_parse_i32s(s@, pos as int, count as nat) == Some(
                    (acc@ + rest, end),
                ),
                None => spec_parse_i32s(s@, pos as int, count as nat) is None,
            }),
        decreases count - k,
    {
        let t = take_int_i64(s, p);
        let (v, e) = match t {
            Some(x) => x,
            None => {
                return None;
            },
        };
        if v < i32::MIN as i64 || v > i32::MAX as i64 {
            return None;
        }
        if !(e < n && s.get_char(e) == ' ') {
            return None;
        }
        let ghost acc0 = acc@;
        acc.push(v as i32);
        proof {
            crate::fmt_num::lemma_scan_digits_bounds(s@, p as int);
            if p < s@.len() && s@[p as int] == '-' {
                crate::fmt_num::lemma_scan_digits_bounds(s@, p + 1);
            }
            lemma_parse_i32s_len(s@, e + 1, (count - k - 1) as nat);
            match spec_parse_i32s(s@, e + 1, (count - k - 1) as nat) {
                None => {
                    assert(spec_parse_i32s(s@, p as int, (count - k) as nat) is None);
                },
                Some((rest2, end2)) => {
                    assert(spec_parse_i32s(s@, p as int, (count - k) as nat) == Some(
                        (seq![v as i32] + rest2, end2),
                    ));
                    assert(acc0 + (seq![v as i32] + rest2) =~= acc@ + rest2);
                },
            }
        }
        p = e + 1;
        k = k + 1;
    }
    Some((acc, p))
}

fn parse_u32s(s: &str, pos: usize, count: usize) -> (r: Option<(Vec<u32>, usize)>)
    requires
        pos <= s@.len(),
    ensures
        match r {
            Some((vs, end)) => spec_parse_u32s(s@, pos as int, count as nat) == Some(
                (vs@, end as int),
            ),
            None => spec_parse_u32s(s@, pos as int, count as nat) is None,
        },
{
    let n = s.unicode_len();
    let mut acc: Vec<u32> = Vec::new();
    let mut p: usize = pos;
    let mut k: usize = 0;
    while k < count
        invariant
            n == s@.len(),
            pos <= p <= n,
            k <= count,
            acc@.len() == k as int,
            (match spec_parse_u32s(s@, p as int, (count - k) as nat) {
                Some((rest, end)) => spec_parse_u32s(s@, pos as int, count as nat) == Some(
                    (acc@ + rest, end),
                ),
                None => spec_parse_u32s(s@, pos as int, count as nat) is None,
            }),
        decreases count - k,
    {
        let t = take_num_u64(s, p);
        let (v, e) = match t {
            Some(x) => x,
            None => {
                return None;
            },
        };
        if v > u32::MAX as u64 {
            return None;
        }
        if !(e < n && s.get_char(e) == ' ') {
            return None;
        }
        let ghost acc0 = acc@;
        acc.push(v as u32);
        proof {
            crate::fmt_num::lemma_scan_digits_bounds(s@, p as int);
            lemma_parse_u32s_len(s@, e + 1, (count - k - 1) as nat);
            match spec_parse_u32s(s@, e + 1, (count - k - 1) as nat) {
                None => {
                    assert(spec_parse_u32s(s@, p as int, (count - k) as nat) is None);
                },
                Some((rest2, end2)) => {
                    assert(spec_parse_u32s(s@, p as int, (count - k) as nat) == Some(
                        (seq![v as u32] + rest2, end2),
                    ));
                    assert(acc0 + (seq![v as u32] + rest2) =~= acc@ + rest2);
                },
            }
        }
        p = e + 1;
        k = k + 1;
    }
    Some((acc, p))
}

fn parse_u64s(s: &str, pos: usize, count: usize) -> (r: Option<(Vec<u64>, usize)>)
    requires
        pos <= s@.len(),
    ensures
        match r {
            Some((vs, end)) => spec_parse_u64s(s@, pos as int, count as nat) == Some(
                (vs@, end as int),
            ),
            None => spec_parse_u64s(s@, pos as int, count as nat) is None,
        },
{
    let n = s.unicode_len();
    let mut acc: Vec<u64> = Vec::new();
    let mut p: usize = pos;
    let mut k: usize = 0;
    while k < count
        invariant
            n == s@.len(),
            pos <= p <= n,
            k <= count,
            acc@.len() == k as int,
            (match spec_parse_u64s(s@, p as int, (count - k) as nat) {
                Some((rest, end)) => spec_parse_u64s(s@, pos as int, count as nat) == Some(
                    (acc@ + rest, end),
                ),
                None => spec_parse_u64s(s@, pos as int, count as nat) is None,
            }),
        decreases count - k,
    {
        let t = take_num_u64(s, p);
        let (v, e) = match t {
            Some(x) => x,
            None => {
                return None;
            },
        };
        if !(e < n && s.get_char(e) == ' ') {
            return None;
        }
        let ghost acc0 = acc@;
        acc.push(v);
        proof {
            crate::fmt_num::lemma_scan_digits_bounds(s@, p as int);
            lemma_parse_u64s_len(s@, e + 1, (count - k - 1) as nat);
            match spec_parse_u64s(s@, e + 1, (count - k - 1) as nat) {
                None => {
                    assert(spec_parse_u64s(s@, p as int, (count - k) as nat) is None);
                },
                Some((rest2, end2)) => {
                    assert(spec_parse_u64s(s@, p as int, (count - k) as nat) == Some(
                        (seq![v] + rest2, end2),
                    ));
                    assert(acc0 + (seq![v] + rest2) =~= acc@ + rest2);
                },
            }
        }
        p = e + 1;
        k = k + 1;
    }
    Some((acc, p))
}

/// Parse the text form of a captured input.
pub fn read_input_from_string(serial: &str) -> (r: Option<ARMCodeFuzzerInputValues>)
    ensures
        match r {
            Some(iv) => spec_deserialize_input(serial@) == Some((iv.i_vals@, iv.f_bits@, iv.d_bits@)),
            None => spec_deserialize_input(serial@) is None,
        },
{
    let n = serial.unicode_len();
    let (ni, p0) = match take_num_u64(serial, 0) {
        Some(x) => x,
        None => {
            proof {
                if let Some((v, e)) = spec_take_num(serial@, 0int) {
                    crate::fmt_num::lemma_scan_digits_bounds(serial@, 0int);
                    if e < serial@.len() && serial@[e] == '\n' {
                        lemma_parse_i32s_len(serial@, e + 1, v);
                    }
                }
            }
            return None;
        },
    };
    if !(p0 < n && serial.get_char(p0) == '\n') {
        return None;
    }
    if ni > n as u64 {
        proof {
            lemma_parse_i32s_len(serial@, p0 + 1, ni as nat);
        }
        return None;
    }
    let (ivals, p1) = match parse_i32s(serial, p0 + 1, ni as usize) {
        Some(x) => x,
        None => {
            return None;
        },
    };
    proof {
        lemma_parse_i32s_len(serial@, p0 + 1, ni as nat);
    }
    if !(p1 < n && serial.get_char(p1) == '\n') {
        return None;
    }
    let (nf, p2) = match take_num_u64(serial, p1 + 1) {
        Some(x) => x,
        None => {
            proof {
                if let Some((v, e)) = spec_take_num(serial@, p1 + 1) {
                    crate::fmt_num::lemma_scan_digits_bounds(serial@, p1 + 1);
                    if e < serial@.len() && serial@[e] == '\n' {
                        lemma_parse_u32s_len(serial@, e + 1, v);
                    }
                }
            }
            return None;
        },
    };
    if !(p2 < n && serial.get_char(p2) == '\n') {
        return None;
    }
    if nf > n as u64 {
        proof {
            lemma_parse_u32s_len(serial@, p2 + 1, nf as nat);
        }
        return None;
    }
    let (fbits, p3) = match parse_u32s(serial, p2 + 1, nf as usize) {
        Some(x) => x,
        None => {
            return None;
        },
    };
    proof {
        lemma_parse_u32s_len(serial@, p2 + 1, nf as nat);
    }
    let (nd, p4) = match take_num_u64(serial, p3) {
        Some(x) => x,
        None => {
            proof {
                if let Some((v, e)) = spec_take_num(serial@, p3 as int) {
                    crate::fmt_num::lemma_scan_digits_bounds(serial@, p3 as int);
                    if e < serial@.len() && serial@[e] == '\n' {
                        lemma_parse_u64s_len(serial@, e + 1, v);
                    }
                }
            }
            return None;
        },
    };
    if !(p4 < n && serial.get_char(p4) == '\n') {
        return None;
    }
    if nd > n as u64 {
        proof {
            lemma_parse_u64s_len(serial@, p4 + 1, nd as nat);
        }
        return None;
    }
    let (dbits, p5) = match parse_u64s(serial, p4 + 1, nd as usize) {
        Some(x) => x,
        None => {
            return None;
        },
    };
    if p5 != n {
        return None;
    }
    Some(ARMCodeFuzzerInputValues { i_vals: ivals, f_bits: fbits, d_bits: dbits })
}

} // verus!
