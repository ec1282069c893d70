//! Exact decimal text for fixed-point quantities.
//!
//! Venues speak in decimal strings. A quantity of `v` 1e-8 units prints
//! as its whole part, a dot, and exactly eight fraction digits; a venue
//! string parses to the same fixed-point representation, flooring any
//! digits beyond the eighth place.

use vstd::prelude::*;
use crate::lot_size::QTY_SCALE;
use crate::strutil::push_char;

verus! {

/// The digit character for a value below ten.
pub open spec fn digit_char(d: int) -> char
    recommends
        0 <= d < 10,
{
    (((48 + d) as u8) as char)
}

/// `c` is a decimal digit.
pub open spec fn is_digit(c: char) -> bool {
    48 <= c as u32 <= 57
}

/// Numeric value of a digit character.
pub open spec fn digit_val(c: char) -> int {
    c as u32 - 48
}

/// Decimal digits of `n`, most significant first, no leading zeros
/// (a single zero for zero).
pub open spec fn spec_uint_digits(n: int) -> Seq<char>
    recommends
        n >= 0,
    decreases n,
{
    if n < 10 {
        seq![digit_char(n)]
    } else {
        spec_uint_digits(n / 10) + seq![digit_char(n % 10)]
    }
}

/// Decimal digits of `n` padded with leading zeros to `width` places.
pub open spec fn spec_padded_digits(n: int, width: nat) -> Seq<char>
    recommends
        0 <= n < pow10(width),
    decreases width,
{
    if width == 0 {
        seq![]
    } else {
        spec_padded_digits(n / 10, (width - 1) as nat) + seq![digit_char(n % 10)]
    }
}

/// Ten to the `e`.
pub open spec fn pow10(e: nat) -> int
    decreases e,
{
    if e == 0 {
        1
    } else {
        10 * pow10((e - 1) as nat)
    }
}

/// The text a quantity of `v` 1e-8 units prints as: whole part, a dot,
/// and exactly eight fraction digits.
pub open spec fn spec_format_qty(v: u64) -> Seq<char> {
    spec_uint_digits(v as int / QTY_SCALE as int) + seq!['.'] + spec_padded_digits(
        v as int % QTY_SCALE as int,
        8,
    )
}

pub fn push_uint_digits(out: &mut String, n: u64)
    ensures
        final(out)@ == old(out)@ + spec_uint_digits(n as int),
    decreases n,
{
    if n < 10 {
        push_char(out, (48 + (n as u8)) as char);
    } else {
        push_uint_digits(out, n / 10);
        push_char(out, (48 + ((n % 10) as u8)) as char);
        proof {
            assert(old(out)@ + spec_uint_digits(n as int / 10) + seq![digit_char(n as int % 10)]
                =~= old(out)@ + spec_uint_digits(n as int));
        }
    }
}

fn push_padded_digits(out: &mut String, n: u64, width: u32)
    requires
        n < pow10(width as nat),
    ensures
        final(out)@ == old(out)@ + spec_padded_digits(n as int, width as nat),
    decreases width,
{
    if width > 0 {
        proof {
            assert(pow10(width as nat) == 10 * pow10((width - 1) as nat));
            assert(n as int / 10 < pow10((width - 1) as nat)) by (nonlinear_arith)
                requires
                    (n as int) < 10 * pow10((width - 1) as nat),
                    pow10((width - 1) as nat) > 0,
            ;
            assert(pow10((width - 1) as nat) > 0) by {
                lemma_pow10_pos((width - 1) as nat);
            }
        }
        push_padded_digits(out, n / 10, width - 1);
        push_char(out, (48 + ((n % 10) as u8)) as char);
        proof {
            assert(old(out)@ + spec_padded_digits(n as int / 10, (width - 1) as nat) + seq![
                digit_char(n as int % 10)] =~= old(out)@ + spec_padded_digits(
                n as int,
                width as nat,
            ));
        }
    } else {
        proof {
            assert(old(out)@ + spec_padded_digits(n as int, 0) =~= old(out)@);
        }
    }
}

proof fn lemma_pow10_pos(e: nat)
    ensures
        pow10(e) > 0,
    decreases e,
{
    if e > 0 {
        lemma_pow10_pos((e - 1) as nat);
    }
}

/// Append the canonical decimal text of `v` 1e-8 units, as an order
/// quantity is printed into a query string: whole part, dot, eight
/// fraction digits.
pub fn push_qty_8(out: &mut String, v: u64)
    ensures
        final(out)@ == old(out)@ + spec_format_qty(v),
{
    push_uint_digits(out, v / QTY_SCALE);
    push_char(out, '.');
    proof {
        lemma_pow10_pos(8);
        assert(pow10(8) == 100_000_000) by {
            reveal_with_fuel(pow10, 9);
        }
    }
    push_padded_digits(out, v % QTY_SCALE, 8);
    proof {
        assert(old(out)@ + spec_uint_digits(v as int / QTY_SCALE as int) + seq!['.']
            + spec_padded_digits(v as int % QTY_SCALE as int, 8) =~= old(out)@ + spec_format_qty(
            v,
        ));
    }
}

/// The canonical decimal text of `v` 1e-8 units as its own string.
pub fn format_qty_8(v: u64) -> (r: String)
    ensures
        r@ == spec_format_qty(v),
{
    let mut out = String::new();
    push_qty_8(&mut out, v);
    proof {
        assert(Seq::<char>::empty() + spec_format_qty(v) =~= spec_format_qty(v));
    }
    out
}

/// Value of a digit string read most significant first.
pub open spec fn spec_digits_val(s: Seq<char>) -> int
    decreases s.len(),
{
    if s.len() == 0 {
        0
    } else {
        spec_digits_val(s.drop_last()) * 10 + digit_val(s.last())
    }
}

/// Every character is a decimal digit.
pub open spec fn all_digits(s: Seq<char>) -> bool {
    forall|i: int| 0 <= i < s.len() ==> is_digit(#[trigger] s[i])
}

/// Index of the first dot in `s`, or its length when there is none.
pub open spec fn spec_dot_pos(s: Seq<char>) -> int
    decreases s.len(),
{
    if s.len() == 0 {
        0
    } else if s[0] == '.' {
        0
    } else {
        1 + spec_dot_pos(s.drop_first())
    }
}

/// Fraction digits scaled to eight places: extra digits floor away,
/// missing digits count as zeros.
pub open spec fn spec_frac_val_8(s: Seq<char>) -> int {
    if s.len() >= 8 {
        spec_digits_val(s.take(8))
    } else {
        spec_digits_val(s) * pow10((8 - s.len()) as nat)
    }
}

/// What a venue decimal string is worth in 1e-8 units: digits, an
/// optional dot with fraction digits, at least one digit in all;
/// anything else, or a value beyond `u64`, is rejected.
pub open spec fn spec_parse_qty(s: Seq<char>) -> Option<u64> {
    let d = spec_dot_pos(s);
    let ip = s.take(d);
    let fp = if d < s.len() {
        s.skip(d + 1)
    } else {
        Seq::<char>::empty()
    };
    if all_digits(ip) && all_digits(fp) && ip.len() + fp.len() > 0 {
        let v = spec_digits_val(ip) * QTY_SCALE as int + spec_frac_val_8(fp);
        if v <= u64::MAX {
            Some(v as u64)
        } else {
            None
        }
    } else {
        None
    }
}

proof fn lemma_digits_val_nonneg(s: Seq<char>)
    requires
        all_digits(s),
    ensures
        spec_digits_val(s) >= 0,
    decreases s.len(),
{
    if s.len() > 0 {
        assert(all_digits(s.drop_last())) by {
            assert(forall|i: int| 0 <= i < s.len() - 1 ==> s.drop_last()[i] == s[i]);
        }
        lemma_digits_val_nonneg(s.drop_last());
    }
}

proof fn lemma_digits_val_take_step(s: Seq<char>, i: int)
    requires
        0 <= i < s.len(),
    ensures
        spec_digits_val(s.take(i + 1)) == spec_digits_val(s.take(i)) * 10 + digit_val(s[i]),
{
    assert(s.take(i + 1).drop_last() =~= s.take(i));
    assert(s.take(i + 1).last() == s[i]);
}

proof fn lemma_digits_val_grows(s: Seq<char>, i: int)
    requires
        all_digits(s),
        0 <= i <= s.len(),
    ensures
        spec_digits_val(s) >= spec_digits_val(s.take(i)),
    decreases s.len() - i,
{
    if i < s.len() {
        lemma_digits_val_take_step(s, i);
        assert(all_digits(s.take(i))) by {
            assert(forall|j: int| 0 <= j < i ==> s.take(i)[j] == s[j]);
        }
        lemma_digits_val_nonneg(s.take(i));
        assert(spec_digits_val(s.take(i + 1)) >= spec_digits_val(s.take(i)));
        lemma_digits_val_grows(s, i + 1);
        assert(s.take(s.len() as int) =~= s);
    } else {
        assert(s.take(s.len() as int) =~= s);
    }
}

proof fn lemma_digits_val_bound(s: Seq<char>)
    requires
        all_digits(s),
    ensures
        0 <= spec_digits_val(s) < pow10(s.len()),
    decreases s.len(),
{
    if s.len() == 0 {
    } else {
        assert(all_digits(s.drop_last())) by {
            assert(forall|i: int| 0 <= i < s.len() - 1 ==> s.drop_last()[i] == s[i]);
        }
        lemma_digits_val_bound(s.drop_last());
        let p = spec_digits_val(s.drop_last());
        let q = pow10((s.len() - 1) as nat);
        assert(p * 10 + digit_val(s.last()) < q * 10) by (nonlinear_arith)
            requires
                p < q,
                digit_val(s.last()) < 10,
        ;
        assert(pow10(s.len()) == 10 * q);
    }
}

proof fn lemma_dot_pos_props(s: Seq<char>)
    ensures
        0 <= spec_dot_pos(s) <= s.len(),
        spec_dot_pos(s) < s.len() ==> s[spec_dot_pos(s)] == '.',
        forall|j: int| 0 <= j < spec_dot_pos(s) ==> (#[trigger] s[j]) != '.',
    decreases s.len(),
{
    if s.len() > 0 && s[0] != '.' {
        let t = s.drop_first();
        lemma_dot_pos_props(t);
        assert forall|j: int| 0 <= j < spec_dot_pos(s) implies (#[trigger] s[j]) != '.' by {
            if j > 0 {
                assert(t[j - 1] == s[j]);
                assert(t[j - 1] != '.');
            }
        }
    }
}

proof fn lemma_frac8_nonneg(fp: Seq<char>)
    requires
        all_digits(fp),
    ensures
        spec_frac_val_8(fp) >= 0,
{
    if fp.len() >= 8 {
        assert(all_digits(fp.take(8))) by {
            assert(forall|j: int| 0 <= j < 8 ==> fp.take(8)[j] == (#[trigger] fp[j]));
        }
        lemma_digits_val_nonneg(fp.take(8));
    } else {
        lemma_digits_val_nonneg(fp);
        lemma_pow10_pos((8 - fp.len()) as nat);
        assert(spec_digits_val(fp) * pow10((8 - fp.len()) as nat) >= 0) by (nonlinear_arith)
            requires
                spec_digits_val(fp) >= 0,
                pow10((8 - fp.len()) as nat) > 0,
        ;
    }
}

/// Exact power of ten up to the eight fraction places.
fn pow10_u64(e: u32) -> (r: u64)
    requires
        e <= 8,
    ensures
        r == pow10(e as nat),
{
    proof {
        reveal_with_fuel(pow10, 9);
    }
    if e == 0 {
        1
    } else if e == 1 {
        10
    } else if e == 2 {
        100
    } else if e == 3 {
        1_000
    } else if e == 4 {
        10_000
    } else if e == 5 {
        100_000
    } else if e == 6 {
        1_000_000
    } else if e == 7 {
        10_000_000
    } else {
        100_000_000
    }
}

/// Parse a venue decimal string into 1e-8 units, flooring digits past
/// the eighth fraction place; rejects anything that is not a plain
/// decimal number, and values beyond `u64`.
pub fn parse_qty(s: &str) -> (r: Option<u64>)
    ensures
        r == spec_parse_qty(s@),
{
    proof {
        lemma_dot_pos_props(s@);
    }
    let slen = s.unicode_len();
    let ghost d = spec_dot_pos(s@);
    let ghost ip = s@.take(d);
    let ghost fp = if d < s@.len() {
        s@.skip(d + 1)
    } else {
        Seq::<char>::empty()
    };

    // Whole part: scan up to the first dot, accumulating its value.
    let mut i: usize = 0;
    let mut acc: u64 = 0;
    loop
        invariant
            slen == s@.len(),
            d == spec_dot_pos(s@),
            ip == s@.take(d),
            fp == if d < s@.len() {
                s@.skip(d + 1)
            } else {
                Seq::<char>::empty()
            },
            0 <= d <= slen,
            i <= slen,
            i <= d,
            forall|j: int| 0 <= j < i ==> (#[trigger] s@[j]) != '.',
            forall|j: int| 0 <= j < i ==> is_digit(#[trigger] s@[j]),
            acc == spec_digits_val(s@.take(i as int)),
        ensures
            i == d,
            acc == spec_digits_val(ip),
            all_digits(ip),
        decreases slen - i,
    {
        proof {
            lemma_dot_pos_props(s@);
        }
        if i >= slen {
            assert(d == slen) by {
                if d < slen {
                    assert(s@[d] == '.');
                }
            }
            assert(ip =~= s@.take(i as int));
            break;
        }
        let c = s.get_char(i);
        if c == '.' {
            assert(d == i) by {
                assert(s@[i as int] == '.');
                if d < i {
                    assert(s@[d] == '.');
                }
                if d > i {
                    assert(s@[i as int] != '.');
                }
            }
            assert(ip =~= s@.take(i as int));
            break;
        }
        let u = c as u32;
        if u < 48 || u > 57 {
            // A non-digit before the dot: the whole part is malformed.
            assert(i < d) by {
                if d <= i {
                    assert(s@[d] == '.');
                }
            }
            assert(!all_digits(ip)) by {
                assert(ip[i as int] == s@[i as int]);
                assert(!is_digit(ip[i as int]));
            }
            return None;
        }
        let dv = (u - 48) as u64;
        if acc > (u64::MAX - dv) / 10 {
            // The whole part alone no longer fits in 1e-8 units.
            proof {
                lemma_digits_val_take_step(s@, i as int);
                assert(acc * 10 + dv > u64::MAX) by (nonlinear_arith)
                    requires
                        acc > ((u64::MAX - dv) as u64) / 10,
                        dv < 10,
                ;
                assert(i < d) by {
                    if d <= i {
                        assert(s@[d] == '.');
                    }
                }
                if all_digits(ip) && all_digits(fp) && ip.len() + fp.len() > 0 {
                    assert(s@.take(i + 1) =~= ip.take(i + 1));
                    lemma_digits_val_grows(ip, i + 1);
                    lemma_frac8_nonneg(fp);
                    assert(spec_digits_val(ip) * QTY_SCALE as int >= spec_digits_val(ip))
                        by (nonlinear_arith)
                        requires
                            spec_digits_val(ip) > u64::MAX,
                            QTY_SCALE == 100_000_000,
                    ;
                }
            }
            return None;
        }
        acc = acc * 10 + dv;
        proof {
            lemma_digits_val_take_step(s@, i as int);
        }
        i += 1;
    }
    let ip_digits: usize = i;

    // Fraction part: every character after the dot must be a digit;
    // only the first eight contribute to the value.
    let mut facc: u64 = 0;
    let mut fcount: u32 = 0;
    if i < slen {
        let mut j: usize = i + 1;
        while j < slen
            invariant
                slen == s@.len(),
                d == spec_dot_pos(s@),
                ip == s@.take(d),
                all_digits(ip),
                i == d,
                i < slen,
                fp == s@.skip(d + 1),
                fp.len() == slen - i - 1,
                i + 1 <= j <= slen,
                fcount == if j - i - 1 <= 8 {
                    (j - i - 1) as int
                } else {
                    8
                },
                forall|k: int| 0 <= k < j - i - 1 ==> is_digit(#[trigger] fp[k]),
                facc == spec_digits_val(fp.take(fcount as int)),
                facc < pow10(fcount as nat),
            decreases slen - j,
        {
            proof {
                lemma_dot_pos_props(s@);
            }
            let c = s.get_char(j);
            let u = c as u32;
            if u < 48 || u > 57 {
                assert(!all_digits(fp)) by {
                    assert(fp[j - i - 1] == s@[j as int]);
                    assert(!is_digit(fp[j - i - 1]));
                }
                return None;
            }
            if fcount < 8 {
                let dv = (u - 48) as u64;
                proof {
                    lemma_digits_val_take_step(fp, fcount as int);
                    assert(fp[fcount as int] == s@[j as int]);
                    reveal_with_fuel(pow10, 9);
                    assert(facc * 10 + dv < pow10((fcount + 1) as nat)) by (nonlinear_arith)
                        requires
                            facc < pow10(fcount as nat),
                            dv < 10,
                            pow10((fcount + 1) as nat) == 10 * pow10(fcount as nat),
                    ;
                }
                facc = facc * 10 + dv;
                fcount += 1;
            }
            j += 1;
        }
        proof {
            assert(forall|k: int| 0 <= k < fp.len() ==> is_digit(#[trigger] fp[k]));
        }
    } else {
        assert(fp =~= Seq::<char>::empty());
        assert(facc == spec_digits_val(fp.take(0)));
    }
    assert(all_digits(fp));
    assert(fcount as int == if fp.len() <= 8 {
        fp.len() as int
    } else {
        8
    });

    if ip_digits == 0 && i >= slen {
        // The empty string has no digits at all.
        assert(ip.len() + fp.len() == 0);
        return None;
    }
    if ip_digits == 0 && fcount == 0 && i < slen {
        // A bare dot has no digits either.
        assert(ip.len() + fp.len() == 0);
        return None;
    }
    assert(ip.len() + fp.len() > 0);

    // Scale the fraction to eight places.
    proof {
        reveal_with_fuel(pow10, 9);
    }
    let frac: u64 = if fcount < 8 {
        proof {
            assert(fp.take(fcount as int) =~= fp);
            lemma_pow10_mul(fcount as nat, (8 - fcount) as nat);
            assert(facc * pow10((8 - fcount) as nat) < pow10(8)) by (nonlinear_arith)
                requires
                    facc < pow10(fcount as nat),
                    pow10(fcount as nat) > 0,
                    pow10((8 - fcount) as nat) > 0,
                    pow10(8) == pow10(fcount as nat) * pow10((8 - fcount) as nat),
            ;
        }
        facc * pow10_u64(8 - fcount)
    } else {
        assert(fp.len() >= 8 && spec_frac_val_8(fp) == facc);
        facc
    };
    assert(frac == spec_frac_val_8(fp));
    assert(frac < pow10(8));

    // Combine: whole part in 1e-8 units plus the fraction digits.
    proof {
        lemma_digits_val_nonneg(ip);
    }
    if acc > u64::MAX / QTY_SCALE {
        proof {
            assert(acc * QTY_SCALE as int + frac > u64::MAX) by (nonlinear_arith)
                requires
                    acc > (u64::MAX as u64 / QTY_SCALE as u64) as int,
                    QTY_SCALE == 100_000_000,
                    frac >= 0,
                    u64::MAX == 18446744073709551615u64,
            ;
        }
        return None;
    }
    proof {
        assert(acc * QTY_SCALE as int <= u64::MAX) by (nonlinear_arith)
            requires
                acc <= (u64::MAX as u64 / QTY_SCALE as u64) as int,
                QTY_SCALE == 100_000_000,
                u64::MAX == 18446744073709551615u64,
        ;
    }
    let whole: u64 = acc * QTY_SCALE;
    if whole > u64::MAX - frac {
        return None;
    }
    Some(whole + frac)
}

proof fn lemma_pow10_mul(a: nat, b: nat)
    ensures
        pow10(a + b) == pow10(a) * pow10(b),
    decreases a,
{
    if a == 0 {
        assert(pow10(b) == 1 * pow10(b)) by (nonlinear_arith);
    } else {
        lemma_pow10_mul((a - 1) as nat, b);
        assert(10 * (pow10((a - 1) as nat) * pow10(b)) == (10 * pow10((a - 1) as nat)) * pow10(b))
            by (nonlinear_arith);
        assert((a - 1) as nat + b == (a + b - 1) as nat);
    }
}

/// Where the run of digits starting at `pos` ends.
pub open spec fn spec_digit_run_end(t: Seq<char>, pos: int) -> int
    decreases t.len() - pos,
{
    if 0 <= pos < t.len() && is_digit(t[pos]) {
        spec_digit_run_end(t, pos + 1)
    } else {
        pos
    }
}

/// Read an unsigned integer at `pos`: the value of the maximal digit
/// run there and the position after it; nothing without a leading
/// digit.
pub open spec fn spec_scan_uint(t: Seq<char>, pos: int) -> Option<(int, int)> {
    let end = spec_digit_run_end(t, pos);
    if 0 <= pos && end > pos {
        Some((spec_digits_val(t.subrange(pos, end)), end))
    } else {
        None
    }
}

proof fn lemma_digit_run_props(t: Seq<char>, pos: int)
    requires
        0 <= pos <= t.len(),
    ensures
        pos <= spec_digit_run_end(t, pos) <= t.len(),
        forall|j: int| pos <= j < spec_digit_run_end(t, pos) ==> is_digit(#[trigger] t[j]),
        spec_digit_run_end(t, pos) < t.len() ==> !is_digit(t[spec_digit_run_end(t, pos)]),
    decreases t.len() - pos,
{
    if pos < t.len() && is_digit(t[pos]) {
        lemma_digit_run_props(t, pos + 1);
    }
}

proof fn lemma_digit_run_of_region(t: Seq<char>, pos: int, end: int)
    requires
        0 <= pos <= end <= t.len(),
        forall|j: int| pos <= j < end ==> is_digit(#[trigger] t[j]),
        end == t.len() || !is_digit(t[end]),
    ensures
        spec_digit_run_end(t, pos) == end,
    decreases end - pos,
{
    if pos < end {
        lemma_digit_run_of_region(t, pos + 1, end);
    }
}

proof fn lemma_digit_char_val(d: int)
    requires
        0 <= d < 10,
    ensures
        is_digit(digit_char(d)),
        digit_val(digit_char(d)) == d,
{
    assert(((((48 + d) as u8) as char) as u32) == 48 + d);
}

pub proof fn lemma_uint_digits_shape(n: int)
    requires
        n >= 0,
    ensures
        spec_uint_digits(n).len() >= 1,
        all_digits(spec_uint_digits(n)),
        spec_digits_val(spec_uint_digits(n)) == n,
    decreases n,
{
    let d = spec_uint_digits(n);
    if n < 10 {
        lemma_digit_char_val(n);
        assert(d =~= seq![digit_char(n)]);
        assert(d.drop_last() =~= Seq::<char>::empty());
        assert(d.last() == digit_char(n));
        assert(spec_digits_val(d) == spec_digits_val(d.drop_last()) * 10 + digit_val(d.last()));
        assert(spec_digits_val(d.drop_last()) == 0);
        assert(all_digits(d)) by {
            assert(forall|i: int| 0 <= i < d.len() ==> (#[trigger] d[i]) == digit_char(n));
        }
    } else {
        lemma_uint_digits_shape(n / 10);
        lemma_digit_char_val(n % 10);
        let h = spec_uint_digits(n / 10);
        assert(d.drop_last() =~= h);
        assert(d.last() == digit_char(n % 10));
        assert(spec_digits_val(d) == spec_digits_val(h) * 10 + digit_val(digit_char(n % 10)));
        assert(n / 10 * 10 + n % 10 == n);
        assert(all_digits(d)) by {
            assert(forall|i: int|
                0 <= i < d.len() ==> (#[trigger] d[i]) == if i < h.len() {
                    h[i]
                } else {
                    digit_char(n % 10)
                });
        }
    }
}

/// Read an unsigned integer at `pos`: the value of the maximal digit
/// run and the position after it, or nothing when the run is empty or
/// the value does not fit.
pub fn scan_uint(s: &str, pos: usize) -> (r: Option<(u64, usize)>)
    requires
        pos <= s@.len(),
    ensures
        r matches Some(p) ==> spec_scan_uint(s@, pos as int) == Some((p.0 as int, p.1 as int))
            && p.1 <= s@.len(),
        r is None ==> (spec_scan_uint(s@, pos as int) is None || spec_scan_uint(
            s@,
            pos as int,
        )->Some_0.0 > u64::MAX),
{
    proof {
        lemma_digit_run_props(s@, pos as int);
    }
    let ghost end = spec_digit_run_end(s@, pos as int);
    let n = s.unicode_len();
    let mut i: usize = pos;
    let mut acc: u64 = 0;
    let ghost run = s@.subrange(pos as int, end);
    loop
        invariant
            n == s@.len(),
            pos <= i <= n,
            end == spec_digit_run_end(s@, pos as int),
            pos <= end <= n,
            i <= end,
            run == s@.subrange(pos as int, end),
            forall|j: int| pos <= j < end ==> is_digit(#[trigger] s@[j]),
            end < s@.len() ==> !is_digit(s@[end]),
            all_digits(run),
            acc == spec_digits_val(run.take(i - pos)),
        ensures
            i == end,
            acc == spec_digits_val(run.take(i - pos)),
        decreases n - i,
    {
        if i >= n {
            proof {
                assert(i == end);
            }
            break;
        }
        let c = s.get_char(i);
        let u = c as u32;
        if u < 48 || u > 57 {
            proof {
                assert(!is_digit(s@[i as int]));
                assert(i == end) by {
                    if i < end {
                        assert(is_digit(s@[i as int]));
                    }
                }
            }
            break;
        }
        proof {
            assert(is_digit(s@[i as int]));
            assert(i < end) by {
                if i == end {
                    assert(!is_digit(s@[end]));
                }
            }
        }
        let dv = (u - 48) as u64;
        if acc > (u64::MAX - dv) / 10 {
            // The run's value exceeds the representable range.
            proof {
                lemma_digits_val_take_step(run, i - pos);
                assert(run[i - pos] == s@[i as int]);
                assert(acc * 10 + dv > u64::MAX) by (nonlinear_arith)
                    requires
                        acc > ((u64::MAX - dv) as u64) / 10,
                        dv < 10,
                ;
                lemma_digits_val_grows(run, i - pos + 1);
                assert(spec_scan_uint(s@, pos as int)->Some_0.0 == spec_digits_val(run));
            }
            return None;
        }
        acc = acc * 10 + dv;
        proof {
            lemma_digits_val_take_step(run, i - pos);
            assert(run[i - pos] == s@[i as int]);
        }
        i += 1;
    }
    if i == pos {
        proof {
            assert(spec_digit_run_end(s@, pos as int) == pos);
        }
        return None;
    }
    proof {
        assert(run.take(i - pos) =~= run);
    }
    Some((acc, i))
}

/// Reading back the printed digits of `n`, with anything non-digit
/// after them, yields exactly `n` and stops where the digits do.
pub proof fn lemma_scan_uint_inverts(n: u64, t: Seq<char>, pos: int)
    requires
        0 <= pos,
        pos + spec_uint_digits(n as int).len() <= t.len(),
        t.subrange(pos, pos + spec_uint_digits(n as int).len() as int) == spec_uint_digits(
            n as int,
        ),
        pos + spec_uint_digits(n as int).len() == t.len() || !is_digit(
            t[pos + spec_uint_digits(n as int).len()],
        ),
    ensures
        spec_scan_uint(t, pos) == Some(
            (n as int, pos + spec_uint_digits(n as int).len() as int),
        ),
{
    let d = spec_uint_digits(n as int);
    lemma_uint_digits_shape(n as int);
    assert forall|j: int| pos <= j < pos + d.len() implies is_digit(#[trigger] t[j]) by {
        assert(t.subrange(pos, pos + d.len() as int)[j - pos] == t[j]);
        assert(d[j - pos] == t[j]);
        assert(is_digit(d[j - pos]));
    }
    lemma_digit_run_of_region(t, pos, pos + d.len() as int);
}

/// A signed venue decimal: a leading minus, then a plain decimal.
/// Returns the sign and the magnitude in 1e-8 units.
pub open spec fn spec_parse_signed_qty(s: Seq<char>) -> Option<(bool, u64)> {
    if s.len() > 0 && s[0] == '-' {
        match spec_parse_qty(s.skip(1)) {
            Some(m) => Some((true, m)),
            None => None,
        }
    } else {
        match spec_parse_qty(s) {
            Some(m) => Some((false, m)),
            None => None,
        }
    }
}

/// Parse a possibly negative venue decimal into a sign and a magnitude
/// in 1e-8 units.
pub fn parse_signed_qty(s: &str) -> (r: Option<(bool, u64)>)
    ensures
        r == spec_parse_signed_qty(s@),
{
    let slen = s.unicode_len();
    if slen > 0 && s.get_char(0) == '-' {
        let rest = s.substring_char(1, slen);
        match parse_qty(rest) {
            Some(m) => Some((true, m)),
            None => None,
        }
    } else {
        match parse_qty(s) {
            Some(m) => Some((false, m)),
            None => None,
        }
    }
}

} // verus!
