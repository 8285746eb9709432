//! Plain-text helpers shared by the condition engine and the JSON encoder:
//! decimal renderings of integers and character-level string building.

use vstd::prelude::*;
use vstd::string::StrSliceExecFns;

verus! {

/// The decimal digit `d` (0 to 9) as a character.
pub open spec fn digit_char(d: nat) -> char {
    ((d + 48) as u8) as char
}

/// Decimal representation of `n`, most significant digit first, no sign and
/// no leading zeros (a single '0' for zero).
pub open spec fn spec_dec_nat(n: nat) -> Seq<char>
    decreases n,
{
    if n < 10 {
        seq![digit_char(n)]
    } else {
        spec_dec_nat(n / 10).push(digit_char(n % 10))
    }
}

/// Decimal representation of a signed integer: a leading '-' when negative.
pub open spec fn spec_dec_int(i: int) -> Seq<char> {
    if i >= 0 {
        spec_dec_nat(i as nat)
    } else {
        seq!['-'] + spec_dec_nat((-i) as nat)
    }
}

/// Relies on std's FromIterator for String: collecting characters yields the
/// string holding exactly those characters in order.
#[verifier::external_body]
pub(crate) fn chars_to_string(v: &Vec<char>) -> (s: String)
    ensures
        s@ == v@,
{
    v.iter().collect()
}

/// Appends the characters of `lit` to `out`.
pub fn push_str_chars(lit: &str, out: &mut Vec<char>)
    ensures
        final(out)@ == old(out)@ + lit@,
{
    let n: usize = lit.unicode_len();
    let mut i: usize = 0;
    while i < n
        invariant
            n == lit@.len(),
            i <= n,
            out@ == old(out)@ + lit@.take(i as int),
        decreases n - i,
    {
        let c: char = lit.get_char(i);
        out.push(c);
        i = i + 1;
        proof {
            assert(lit@.take(i as int) =~= lit@.take(i - 1).push(lit@[i - 1]));
            assert(out@ =~= old(out)@ + lit@.take(i as int));
        }
    }
    proof {
        assert(lit@.take(n as int) =~= lit@);
    }
}

/// Appends the decimal digits of `n` to `out`.
pub fn push_dec_usize(n: usize, out: &mut Vec<char>)
    ensures
        final(out)@ == old(out)@ + spec_dec_nat(n as nat),
    decreases n,
{
    if n >= 10 {
        push_dec_usize(n / 10, out);
    }
    let d: u8 = (n % 10) as u8;
    out.push((d + 48) as char);
    proof {
        if n >= 10 {
            assert(out@ =~= old(out)@ + spec_dec_nat(n as nat));
        } else {
            assert(out@ =~= old(out)@ + spec_dec_nat(n as nat));
        }
    }
}

/// Appends the decimal rendering of `v` to `out`, with a '-' when negative.
pub fn push_dec_i32(v: i32, out: &mut Vec<char>)
    ensures
        final(out)@ == old(out)@ + spec_dec_int(v as int),
{
    if v >= 0 {
        push_dec_usize(v as usize, out);
    } else {
        out.push('-');
        let m: i64 = -(v as i64);
        push_dec_usize(m as usize, out);
        proof {
            assert(out@ =~= old(out)@ + spec_dec_int(v as int));
        }
    }
}

/// The decimal rendering of `n` as a string.
pub fn usize_to_string(n: usize) -> (s: String)
    ensures
        s@ == spec_dec_nat(n as nat),
{
    let mut v: Vec<char> = Vec::new();
    push_dec_usize(n, &mut v);
    chars_to_string(&v)
}

/// The decimal rendering of `i` as a string.
pub fn i32_to_string(i: i32) -> (s: String)
    ensures
        s@ == spec_dec_int(i as int),
{
    let mut v: Vec<char> = Vec::new();
    push_dec_i32(i, &mut v);
    chars_to_string(&v)
}


/// Whether `c` is a decimal digit.
pub open spec fn is_digit_char(c: char) -> bool {
    48 <= c as nat <= 57
}

/// Cancelling a shared prefix of two equal character sequences.
pub proof fn lemma_cancel_prefix(p: Seq<char>, x: Seq<char>, y: Seq<char>)
    requires
        p + x == p + y,
    ensures
        x == y,
{
    assert(x =~= (p + x).skip(p.len() as int));
    assert(y =~= (p + y).skip(p.len() as int));
}

/// A decimal rendering is never empty and holds digits only.
pub proof fn lemma_dec_nat_digits(n: nat)
    ensures
        spec_dec_nat(n).len() >= 1,
        forall|i: int|
            0 <= i < spec_dec_nat(n).len() ==> is_digit_char(#[trigger] spec_dec_nat(n)[i]),
    decreases n,
{
    if n < 10 {
        assert(spec_dec_nat(n)[0] == digit_char(n));
    } else {
        lemma_dec_nat_digits(n / 10);
        assert forall|i: int| 0 <= i < spec_dec_nat(n).len() implies is_digit_char(
            spec_dec_nat(n)[i],
        ) by {
            if i < spec_dec_nat(n / 10).len() {
                assert(spec_dec_nat(n)[i] == spec_dec_nat(n / 10)[i]);
            } else {
                assert(spec_dec_nat(n)[i] == digit_char(n % 10));
            }
        }
    }
}

/// Equal decimal renderings come from equal numbers.
pub proof fn lemma_dec_nat_injective(m: nat, n: nat)
    requires
        spec_dec_nat(m) == spec_dec_nat(n),
    ensures
        m == n,
    decreases m,
{
    lemma_dec_nat_digits(m);
    lemma_dec_nat_digits(n);
    if m < 10 && n < 10 {
        assert(spec_dec_nat(m)[0] == digit_char(m));
        assert(spec_dec_nat(n)[0] == digit_char(n));
        assert(digit_char(m) as nat == 48 + m);
        assert(digit_char(n) as nat == 48 + n);
    } else if m < 10 {
        lemma_dec_nat_digits(n / 10);
        assert(spec_dec_nat(n).len() >= 2);
        assert(false);
    } else if n < 10 {
        lemma_dec_nat_digits(m / 10);
        assert(spec_dec_nat(m).len() >= 2);
        assert(false);
    } else {
        assert(spec_dec_nat(m).last() == digit_char(m % 10));
        assert(spec_dec_nat(n).last() == digit_char(n % 10));
        assert(digit_char(m % 10) as nat == 48 + m % 10);
        assert(digit_char(n % 10) as nat == 48 + n % 10);
        assert(m % 10 == n % 10);
        assert(spec_dec_nat(m).drop_last() =~= spec_dec_nat(m / 10));
        assert(spec_dec_nat(n).drop_last() =~= spec_dec_nat(n / 10));
        lemma_dec_nat_injective(m / 10, n / 10);
    }
}

/// A decimal rendering closed by a non-digit is read back unambiguously.
pub proof fn lemma_dec_nat_delimited(m: nat, n: nat, rm: Seq<char>, rn: Seq<char>)
    requires
        spec_dec_nat(m) + rm == spec_dec_nat(n) + rn,
        rm.len() > 0,
        !is_digit_char(rm[0]),
        rn.len() > 0,
        !is_digit_char(rn[0]),
    ensures
        m == n,
        rm == rn,
{
    lemma_dec_nat_digits(m);
    lemma_dec_nat_digits(n);
    let a = spec_dec_nat(m);
    let b = spec_dec_nat(n);
    if a.len() < b.len() {
        assert((a + rm)[a.len() as int] == rm[0]);
        assert((b + rn)[a.len() as int] == b[a.len() as int]);
        assert(false);
    } else if b.len() < a.len() {
        assert((b + rn)[b.len() as int] == rn[0]);
        assert((a + rm)[b.len() as int] == a[b.len() as int]);
        assert(false);
    } else {
        assert forall|i: int| 0 <= i < a.len() implies a[i] == b[i] by {
            assert((a + rm)[i] == a[i]);
            assert((b + rn)[i] == b[i]);
        }
        assert(a =~= b);
        lemma_dec_nat_injective(m, n);
        lemma_cancel_prefix(a, rm, rn);
    }
}

/// A signed decimal rendering closed by a non-digit that is not a minus
/// sign is read back unambiguously.
pub proof fn lemma_dec_int_delimited(i1: int, i2: int, r1: Seq<char>, r2: Seq<char>)
    requires
        spec_dec_int(i1) + r1 == spec_dec_int(i2) + r2,
        r1.len() > 0,
        !is_digit_char(r1[0]),
        r2.len() > 0,
        !is_digit_char(r2[0]),
    ensures
        i1 == i2,
        r1 == r2,
{
    if i1 >= 0 && i2 >= 0 {
        lemma_dec_nat_delimited(i1 as nat, i2 as nat, r1, r2);
    } else if i1 < 0 && i2 < 0 {
        let a = spec_dec_nat((-i1) as nat);
        let b = spec_dec_nat((-i2) as nat);
        assert(a + r1 =~= (spec_dec_int(i1) + r1).drop_first());
        assert(b + r2 =~= (spec_dec_int(i2) + r2).drop_first());
        lemma_dec_nat_delimited((-i1) as nat, (-i2) as nat, r1, r2);
    } else if i1 >= 0 {
        lemma_dec_nat_digits(i1 as nat);
        assert((spec_dec_int(i1) + r1)[0] == spec_dec_nat(i1 as nat)[0]);
        assert((spec_dec_int(i2) + r2)[0] == '-');
        assert(false);
    } else {
        lemma_dec_nat_digits(i2 as nat);
        assert((spec_dec_int(i2) + r2)[0] == spec_dec_nat(i2 as nat)[0]);
        assert((spec_dec_int(i1) + r1)[0] == '-');
        assert(false);
    }
}

} // verus!
