//! Decimal rendering of the expiry timestamp, as ASCII bytes.

use vstd::prelude::*;

verus! {

/// Decimal digits of a natural number, most significant first, no sign and
/// no leading zeros (a single `0` for zero).
pub open spec fn dec_digits(n: nat) -> Seq<u8>
    decreases n,
{
    if n < 10 {
        seq![(0x30 + n) as u8]
    } else {
        dec_digits(n / 10) + seq![(0x30 + n % 10) as u8]
    }
}

/// Decimal rendering of a signed value: a `-` sign followed by the digits of
/// the magnitude when negative, the digits alone otherwise.
pub open spec fn dec_int(v: int) -> Seq<u8> {
    if v < 0 {
        seq![0x2Du8] + dec_digits((-v) as nat)
    } else {
        dec_digits(v as nat)
    }
}

/// Every byte of a decimal rendering is ASCII.
pub proof fn lemma_dec_digits_ascii(n: nat)
    ensures
        forall|i: int| 0 <= i < dec_digits(n).len() ==> dec_digits(n)[i] < 0x80,
    decreases n,
{
    if n >= 10 {
        lemma_dec_digits_ascii(n / 10);
        let d = dec_digits(n);
        let dr = dec_digits(n / 10);
        assert(d == dr + seq![(0x30 + n % 10) as u8]);
        assert forall|i: int| 0 <= i < d.len() implies d[i] < 0x80 by {
            if i < dr.len() {
                assert(d[i] == dr[i]);
            } else {
                assert(d[i] == (0x30 + n % 10) as u8);
            }
        }
    }
}

/// Every byte of a signed decimal rendering is ASCII.
pub proof fn lemma_dec_int_ascii(v: int)
    ensures
        forall|i: int| 0 <= i < dec_int(v).len() ==> dec_int(v)[i] < 0x80,
{
    if v < 0 {
        lemma_dec_digits_ascii((-v) as nat);
        let d = dec_int(v);
        let dm = dec_digits((-v) as nat);
        assert forall|i: int| 0 <= i < d.len() implies d[i] < 0x80 by {
            if i == 0 {
                assert(d[0] == 0x2D);
            } else {
                assert(d[i] == dm[i - 1]);
            }
        }
    } else {
        lemma_dec_digits_ascii(v as nat);
    }
}

proof fn lemma_dec_digits_len(n: nat)
    ensures
        dec_digits(n).len() >= 1,
        n >= 10 ==> dec_digits(n).len() >= 2,
    decreases n,
{
    if n >= 10 {
        lemma_dec_digits_len(n / 10);
    }
}

proof fn lemma_dec_digits_first(n: nat)
    ensures
        0x30 <= dec_digits(n)[0] <= 0x39,
    decreases n,
{
    if n >= 10 {
        lemma_dec_digits_first(n / 10);
        lemma_dec_digits_len(n / 10);
        assert(dec_digits(n)[0] == dec_digits(n / 10)[0]);
    }
}

proof fn lemma_dec_digits_injective(a: nat, b: nat)
    requires
        dec_digits(a) == dec_digits(b),
    ensures
        a == b,
    decreases a,
{
    lemma_dec_digits_len(a);
    lemma_dec_digits_len(b);
    if a < 10 && b < 10 {
        assert(dec_digits(a)[0] == (0x30 + a) as u8);
        assert(dec_digits(b)[0] == (0x30 + b) as u8);
    } else if a < 10 {
        assert(dec_digits(a).len() == 1);
        assert(false);
    } else if b < 10 {
        assert(dec_digits(b).len() == 1);
        assert(false);
    } else {
        let d = dec_digits(a);
        let da = dec_digits(a / 10);
        let db = dec_digits(b / 10);
        assert(d == da + seq![(0x30 + a % 10) as u8]);
        assert(d == db + seq![(0x30 + b % 10) as u8]);
        assert(da.len() == db.len());
        assert(d[d.len() - 1] == (0x30 + a % 10) as u8);
        assert(d[d.len() - 1] == (0x30 + b % 10) as u8);
        assert(a % 10 == b % 10);
        assert(da =~= db) by {
            assert(forall|i: int| 0 <= i < da.len() ==> da[i] == d[i] && db[i] == d[i]);
        }
        lemma_dec_digits_injective(a / 10, b / 10);
        assert(a == 10 * (a / 10) + a % 10);
        assert(b == 10 * (b / 10) + b % 10);
    }
}

/// Law: the decimal rendering is injective. Two instants render to the same
/// `se` field text only when they are the same instant, so a strictly later
/// expiry always changes the rendered field.
pub proof fn lemma_dec_int_injective(a: int, b: int)
    requires
        dec_int(a) == dec_int(b),
    ensures
        a == b,
{
    let ma_n: nat = if a < 0 { (-a) as nat } else { a as nat };
    let mb_n: nat = if b < 0 { (-b) as nat } else { b as nat };
    lemma_dec_digits_len(ma_n);
    lemma_dec_digits_len(mb_n);
    lemma_dec_digits_first(ma_n);
    lemma_dec_digits_first(mb_n);
    if a < 0 && b < 0 {
        let ma = dec_digits((-a) as nat);
        let mb = dec_digits((-b) as nat);
        assert(dec_int(a) == seq![0x2Du8] + ma);
        assert(dec_int(b) == seq![0x2Du8] + mb);
        assert(ma =~= mb) by {
            assert(ma.len() == mb.len());
            assert(forall|i: int| 0 <= i < ma.len() ==> ma[i] == dec_int(a)[i + 1] && mb[i]
                == dec_int(b)[i + 1]);
        }
        lemma_dec_digits_injective((-a) as nat, (-b) as nat);
    } else if a >= 0 && b >= 0 {
        lemma_dec_digits_injective(a as nat, b as nat);
    } else if a < 0 {
        assert(dec_int(a)[0] == 0x2D);
        assert(dec_int(b)[0] == dec_digits(b as nat)[0]);
        assert(false);
    } else {
        assert(dec_int(b)[0] == 0x2D);
        assert(dec_int(a)[0] == dec_digits(a as nat)[0]);
        assert(false);
    }
}

fn push_dec_digits(n: u64, out: &mut Vec<u8>)
    ensures
        final(out)@ == old(out)@ + dec_digits(n as nat),
    decreases n,
{
    if n < 10 {
        out.push(0x30 + (n as u8));
        proof {
            assert(out@ =~= old(out)@ + dec_digits(n as nat));
        }
    } else {
        push_dec_digits(n / 10, out);
        out.push(0x30 + ((n % 10) as u8));
        proof {
            assert(out@ =~= old(out)@ + dec_digits(n as nat));
        }
    }
}

/// Decimal rendering of a signed 64-bit value, as ASCII bytes.
pub fn i64_to_dec(v: i64) -> (r: Vec<u8>)
    ensures
        r@ == dec_int(v as int),
{
    let mut out: Vec<u8> = Vec::new();
    if v < 0 {
        out.push(0x2D);
        let mag: u64 = if v == i64::MIN {
            0x8000_0000_0000_0000u64
        } else {
            (-v) as u64
        };
        proof {
            assert(mag as nat == (-(v as int)) as nat);
        }
        push_dec_digits(mag, &mut out);
        proof {
            assert(out@ =~= dec_int(v as int));
        }
    } else {
        push_dec_digits(v as u64, &mut out);
        proof {
            assert(out@ =~= dec_int(v as int));
        }
    }
    out
}

} // verus!
