//! Fixed-point decimal numbers.
//!
//! Every coordinate in the library is an `i64` holding the source value
//! scaled by `FIX_SCALE` (10^4), so four decimal digits of the vendor's
//! decimal notation are kept exactly.  This module defines the decimal
//! grammar (parsing) and the decimal renderings (formatting) used by the
//! record decoder and by the emitters, together with their specifications.

use vstd::prelude::*;
use vstd::string::*;

verus! {

/// Scale of the fixed-point representation: one source unit is 10^4.
pub const FIX_SCALE: i64 = 10000;

/// Bound on every value `parse_fixed` can produce: at most eight integer
/// digits, so |v| < 10^12 + 10^4.
pub open spec fn fits_coord(v: int) -> bool {
    -1000000000000 <= v <= 1000000000000
}

pub open spec fn is_digit_char(c: char) -> bool {
    '0' <= c && c <= '9'
}

pub open spec fn digit_of(c: char) -> int {
    c as int - '0' as int
}

pub open spec fn char_of_digit(d: int) -> char {
    if d == 0 { '0' }
    else if d == 1 { '1' }
    else if d == 2 { '2' }
    else if d == 3 { '3' }
    else if d == 4 { '4' }
    else if d == 5 { '5' }
    else if d == 6 { '6' }
    else if d == 7 { '7' }
    else if d == 8 { '8' }
    else { '9' }
}

/// Decimal rendering of a natural number, most significant digit first.
pub open spec fn dec_u(n: nat) -> Seq<char>
    decreases n,
{
    if n < 10 {
        seq![char_of_digit(n as int)]
    } else {
        dec_u(n / 10).push(char_of_digit((n % 10) as int))
    }
}

/// Decimal rendering of an integer, with a leading '-' when negative.
#[verifier::opaque]
pub open spec fn dec_i(v: int) -> Seq<char> {
    if v < 0 {
        seq!['-'] + dec_u((-v) as nat)
    } else {
        dec_u(v as nat)
    }
}

/// `width` digits of `n`, zero padded on the left.
pub open spec fn pad_dec(n: nat, width: nat) -> Seq<char>
    decreases width,
{
    if width == 0 {
        Seq::<char>::empty()
    } else {
        pad_dec(n / 10, (width - 1) as nat).push(char_of_digit((n % 10) as int))
    }
}

/// Value of a digit string, most significant digit first.
pub open spec fn digits_val(s: Seq<char>) -> int
    decreases s.len(),
{
    if s.len() == 0 {
        0
    } else {
        digits_val(s.drop_last()) * 10 + digit_of(s.last())
    }
}

pub open spec fn all_digits(s: Seq<char>) -> bool {
    forall|i: int| 0 <= i < s.len() ==> is_digit_char(#[trigger] s[i])
}

/// Index of the first '.' in `s`, or `s.len()` if there is none.
pub open spec fn dot_pos(s: Seq<char>) -> int
    decreases s.len(),
{
    if s.len() == 0 {
        0
    } else if s[0] == '.' {
        0
    } else {
        1 + dot_pos(s.drop_first())
    }
}

/// Ten to the `e`.
pub open spec fn pow10(e: nat) -> int
    decreases e,
{
    if e == 0 { 1 } else { 10 * pow10((e - 1) as nat) }
}

/// The decimal grammar accepted for a coordinate: an optional '-', up to
/// eight integer digits, optionally a '.' followed by fraction digits (of
/// which the first four count).  At least one digit must be present.  The
/// result is the value scaled by 10^4.
pub open spec fn parse_fixed_spec(s: Seq<char>) -> Option<int> {
    let body = if s.len() > 0 && s[0] == '-' { s.drop_first() } else { s };
    let neg = s.len() > 0 && s[0] == '-';
    let d = dot_pos(body);
    let ip = body.take(d);
    let has_dot = d < body.len();
    let fp = if has_dot { body.skip(d + 1) } else { Seq::<char>::empty() };
    let fp4 = if fp.len() <= 4 { fp } else { fp.take(4) };
    if all_digits(ip) && all_digits(fp) && ip.len() <= 8 && ip.len() + fp.len() >= 1 {
        let mag = digits_val(ip) * 10000 + digits_val(fp4) * pow10((4 - fp4.len()) as nat);
        Some(if neg { -mag } else { mag })
    } else {
        None
    }
}

/// The decimal grammar accepted for a plain integer field: an optional '-'
/// and one to eight digits.
pub open spec fn parse_int_spec(s: Seq<char>) -> Option<int> {
    let body = if s.len() > 0 && s[0] == '-' { s.drop_first() } else { s };
    let neg = s.len() > 0 && s[0] == '-';
    if all_digits(body) && 1 <= body.len() <= 8 {
        let mag = digits_val(body);
        Some(if neg { -mag } else { mag })
    } else {
        None
    }
}

proof fn lemma_digits_val_bound(s: Seq<char>)
    requires
        all_digits(s),
    ensures
        0 <= digits_val(s) < pow10(s.len() as nat),
    decreases s.len(),
{
    if s.len() == 0 {
    } else {
        assert(all_digits(s.drop_last())) by {
            assert(forall|i: int| 0 <= i < s.len() - 1 ==> s.drop_last()[i] == #[trigger] s[i]);
        }
        lemma_digits_val_bound(s.drop_last());
        assert(is_digit_char(s.last()));
        assert(0 <= digit_of(s.last()) <= 9);
        assert(pow10(s.len() as nat) == 10 * pow10((s.len() - 1) as nat));
    }
}

proof fn lemma_pow10_bounds()
    ensures
        pow10(0) == 1,
        pow10(1) == 10,
        pow10(2) == 100,
        pow10(3) == 1000,
        pow10(4) == 10000,
        pow10(8) == 100000000,
{
    assert(pow10(0) == 1);
    assert(pow10(1) == 10);
    assert(pow10(2) == 100);
    assert(pow10(3) == 1000);
    assert(pow10(4) == 10000);
    assert(pow10(5) == 100000);
    assert(pow10(6) == 1000000);
    assert(pow10(7) == 10000000);
    assert(pow10(8) == 100000000);
}

/// Every parsed coordinate is within `fits_coord`.
pub proof fn lemma_parse_fixed_fits(s: Seq<char>)
    ensures
        parse_fixed_spec(s) is Some ==> fits_coord(parse_fixed_spec(s)->Some_0),
{
    if parse_fixed_spec(s) is Some {
        let body = if s.len() > 0 && s[0] == '-' { s.drop_first() } else { s };
        let d = dot_pos(body);
        let ip = body.take(d);
        let has_dot = d < body.len();
        let fp = if has_dot { body.skip(d + 1) } else { Seq::<char>::empty() };
        let fp4 = if fp.len() <= 4 { fp } else { fp.take(4) };
        assert(all_digits(fp4)) by {
            assert(forall|i: int| 0 <= i < fp4.len() ==> fp4[i] == #[trigger] fp[i]);
        }
        lemma_digits_val_bound(ip);
        lemma_digits_val_bound(fp4);
        lemma_pow10_bounds();
        assert(digits_val(ip) < pow10(ip.len() as nat));
        assert(pow10(ip.len() as nat) <= pow10(8)) by {
            lemma_pow10_mono(ip.len() as nat, 8);
        }
        assert(digits_val(fp4) * pow10((4 - fp4.len()) as nat) < 10000) by {
            lemma_frac_bound(fp4);
        }
    }
}

proof fn lemma_pow10_mono(a: nat, b: nat)
    requires
        a <= b,
    ensures
        pow10(a) <= pow10(b),
    decreases b,
{
    if a < b {
        lemma_pow10_mono(a, (b - 1) as nat);
        assert(pow10((b - 1) as nat) >= 1) by { lemma_pow10_pos((b - 1) as nat); }
    }
}

proof fn lemma_pow10_pos(a: nat)
    ensures
        pow10(a) >= 1,
    decreases a,
{
    if a > 0 {
        lemma_pow10_pos((a - 1) as nat);
    }
}

proof fn lemma_frac_bound(fp4: Seq<char>)
    requires
        all_digits(fp4),
        fp4.len() <= 4,
    ensures
        0 <= digits_val(fp4) * pow10((4 - fp4.len()) as nat) < 10000,
{
    lemma_digits_val_bound(fp4);
    lemma_pow10_pos((4 - fp4.len()) as nat);
    lemma_pow10_mul(fp4.len() as nat, (4 - fp4.len()) as nat);
    lemma_pow10_bounds();
    assert(digits_val(fp4) * pow10((4 - fp4.len()) as nat)
        <= (pow10(fp4.len() as nat) - 1) * pow10((4 - fp4.len()) as nat)) by {
        vstd::arithmetic::mul::lemma_mul_inequality(
            digits_val(fp4), pow10(fp4.len() as nat) - 1, pow10((4 - fp4.len()) as nat));
    }
    assert((pow10(fp4.len() as nat) - 1) * pow10((4 - fp4.len()) as nat)
        == pow10(4) - pow10((4 - fp4.len()) as nat)) by {
        vstd::arithmetic::mul::lemma_mul_is_distributive_sub_other_way(
            pow10((4 - fp4.len()) as nat), pow10(fp4.len() as nat), 1);
    }
    assert(digits_val(fp4) * pow10((4 - fp4.len()) as nat) >= 0) by {
        vstd::arithmetic::mul::lemma_mul_nonnegative(
            digits_val(fp4), pow10((4 - fp4.len()) as nat));
    }
}

/// One digit as a string slice.
fn digit_str(d: u64) -> (r: &'static str)
    requires
        d < 10,
    ensures
        r@ == seq![char_of_digit(d as int)],
{
    proof {
        reveal_strlit("0");
        reveal_strlit("1");
        reveal_strlit("2");
        reveal_strlit("3");
        reveal_strlit("4");
        reveal_strlit("5");
        reveal_strlit("6");
        reveal_strlit("7");
        reveal_strlit("8");
        reveal_strlit("9");
    }
    let r: &'static str = if d == 0 { "0" }
    else if d == 1 { "1" }
    else if d == 2 { "2" }
    else if d == 3 { "3" }
    else if d == 4 { "4" }
    else if d == 5 { "5" }
    else if d == 6 { "6" }
    else if d == 7 { "7" }
    else { "9" };
    let r: &'static str = if d == 8 { "8" } else { r };
    assert(r@ =~= seq![char_of_digit(d as int)]);
    r
}

/// Decimal rendering of an unsigned value.
pub fn fmt_u64(n: u64) -> (r: String)
    ensures
        r@ == dec_u(n as nat),
    decreases n,
{
    if n < 10 {
        let mut s = String::new();
        s.append(digit_str(n));
        assert(s@ =~= dec_u(n as nat));
        s
    } else {
        let mut s = fmt_u64(n / 10);
        s.append(digit_str(n % 10));
        assert(s@ =~= dec_u(n as nat));
        s
    }
}

/// Decimal rendering of a signed value.
pub fn fmt_i64(v: i64) -> (r: String)
    requires
        v > i64::MIN,
    ensures
        r@ == dec_i(v as int),
{
    if v < 0 {
        let mut s = String::new();
        proof { reveal_strlit("-"); }
        s.append("-");
        let t = fmt_u64((-v) as u64);
        s.append(t.as_str());
        proof {
            reveal(dec_i);
            assert(s@ =~= dec_i(v as int));
        }
        s
    } else {
        let s = fmt_u64(v as u64);
        proof {
            reveal(dec_i);
        }
        s
    }
}

/// `width` digits of `n`, zero padded.
pub fn fmt_pad(n: u64, width: u64) -> (r: String)
    requires
        width <= 8,
    ensures
        r@ == pad_dec(n as nat, width as nat),
    decreases width,
{
    if width == 0 {
        let s = String::new();
        assert(s@ =~= pad_dec(n as nat, 0));
        s
    } else {
        let mut s = fmt_pad(n / 10, width - 1);
        s.append(digit_str(n % 10));
        assert(s@ =~= pad_dec(n as nat, width as nat));
        s
    }
}

/// Rounding division, half away from zero; `b` must be positive.
pub open spec fn rdiv_half(a: int, b: int) -> int {
    if a >= 0 { (a + b / 2) / b } else { -((-a + b / 2) / b) }
}

/// A fixed-point value rendered with exactly two decimals, rounding half
/// away from zero.
#[verifier::opaque]
pub open spec fn fix2(v: int) -> Seq<char> {
    let c = rdiv_half(v, 100);
    let sign = if c < 0 { seq!['-'] } else { Seq::<char>::empty() };
    let m = if c < 0 { -c } else { c };
    sign + dec_u((m / 100) as nat) + seq!['.'] + pad_dec((m % 100) as nat, 2)
}

/// A fixed-point value rendered with exactly four decimals.
#[verifier::opaque]
pub open spec fn fix4(v: int) -> Seq<char> {
    let sign = if v < 0 { seq!['-'] } else { Seq::<char>::empty() };
    let m = if v < 0 { -v } else { v };
    sign + dec_u((m / 10000) as nat) + seq!['.'] + pad_dec((m % 10000) as nat, 4)
}

/// Trailing '0' characters removed.
pub open spec fn trim_zeros(s: Seq<char>) -> Seq<char>
    decreases s.len(),
{
    if s.len() > 0 && s.last() == '0' {
        trim_zeros(s.drop_last())
    } else {
        s
    }
}

/// A fixed-point value rendered as an integer when it has no fraction,
/// else with up to four decimals, trailing zeros removed.
#[verifier::opaque]
pub open spec fn fix_trim(v: int) -> Seq<char> {
    if v % 10000 == 0 {
        dec_i(v / 10000)
    } else {
        let sign = if v < 0 { seq!['-'] } else { Seq::<char>::empty() };
        let m = if v < 0 { -v } else { v };
        sign + dec_u((m / 10000) as nat) + seq!['.'] + trim_zeros(pad_dec((m % 10000) as nat, 4))
    }
}

fn fmt_sign_mag(neg: bool, m: u64, frac_width: u64, trim: bool) -> (r: String)
    requires
        frac_width == 2 || frac_width == 4,
        frac_width == 2 ==> m % 100 == 0,
    ensures
        ({
            let scaled: int = if frac_width == 2 { m as int / 100 } else { m as int };
            let sign = if neg { seq!['-'] } else { Seq::<char>::empty() };
            let frac = pad_dec((scaled % pow10(frac_width as nat)) as nat, frac_width as nat);
            let frac = if trim { trim_zeros(frac) } else { frac };
            r@ == sign + dec_u((scaled / pow10(frac_width as nat)) as nat) + seq!['.'] + frac
        }),
{
    proof { lemma_pow10_bounds(); }
    let scaled: u64 = if frac_width == 2 { m / 100 } else { m };
    let p: u64 = if frac_width == 2 { 100 } else { 10000 };
    let mut s = String::new();
    if neg {
        proof { reveal_strlit("-"); }
        s.append("-");
    }
    let ipart = fmt_u64(scaled / p);
    s.append(ipart.as_str());
    proof { reveal_strlit("."); }
    s.append(".");
    let mut frac = fmt_pad(scaled % p, frac_width);
    if trim {
        frac = trim_zeros_exec(frac);
    }
    s.append(frac.as_str());
    proof {
        let sign = if neg { seq!['-'] } else { Seq::<char>::empty() };
        let fr0 = pad_dec((scaled % p) as nat, frac_width as nat);
        let fr = if trim { trim_zeros(fr0) } else { fr0 };
        assert(s@ =~= sign + dec_u((scaled / p) as nat) + seq!['.'] + fr);
    }
    s
}

fn trim_zeros_exec(s: String) -> (r: String)
    ensures
        r@ == trim_zeros(s@),
{
    let n = s.as_str().unicode_len();
    let mut end: usize = n;
    proof {
        assert(s@.take(n as int) =~= s@);
    }
    while end > 0 && s.as_str().get_char(end - 1) == '0'
        invariant
            end <= n,
            n == s@.len(),
            trim_zeros(s@) == trim_zeros(s@.take(end as int)),
        decreases end,
    {
        proof {
            assert(s@.take(end as int).last() == s@[end - 1]);
            assert(s@.take(end as int).drop_last() =~= s@.take(end - 1));
        }
        end = end - 1;
    }
    proof {
        if end > 0 {
            assert(s@.take(end as int).last() == s@[end - 1]);
        }
        assert(trim_zeros(s@.take(end as int)) == s@.take(end as int));
    }
    let r = s.as_str().substring_char(0, end).to_owned();
    assert(r@ =~= s@.take(end as int));
    r
}

/// Two-decimal rendering of a fixed-point value.
pub fn fmt_fix2(v: i64) -> (r: String)
    requires
        fits_coord(v as int),
    ensures
        r@ == fix2(v as int),
{
    let c: i64 = if v >= 0 { (v + 50) / 100 } else { -((-v + 50) / 100) };
    assert(c == rdiv_half(v as int, 100));
    let neg = c < 0;
    let m: u64 = if c < 0 { (-c) as u64 } else { c as u64 };
    let r = fmt_sign_mag(neg, m * 100, 2, false);
    proof {
        lemma_pow10_bounds();
        reveal(fix2);
        assert(r@ =~= fix2(v as int));
    }
    r
}

/// Four-decimal rendering of a fixed-point value.
pub fn fmt_fix4(v: i64) -> (r: String)
    requires
        fits_coord(v as int),
    ensures
        r@ == fix4(v as int),
{
    let neg = v < 0;
    let m: u64 = if v < 0 { (-v) as u64 } else { v as u64 };
    let r = fmt_sign_mag(neg, m, 4, false);
    proof {
        lemma_pow10_bounds();
        reveal(fix4);
        assert(r@ =~= fix4(v as int));
    }
    r
}

/// Shortest rendering of a fixed-point value: no decimal point when the
/// value is integral, otherwise up to four decimals.
pub fn fmt_fix_trim(v: i64) -> (r: String)
    requires
        fits_coord(v as int),
    ensures
        r@ == fix_trim(v as int),
{
    if v % 10000 == 0 {
        let r = fmt_i64(v / 10000);
        proof {
            reveal(fix_trim);
        }
        assert(r@ == fix_trim(v as int));
        r
    } else {
        let neg = v < 0;
        let m: u64 = if v < 0 { (-v) as u64 } else { v as u64 };
        let r = fmt_sign_mag(neg, m, 4, true);
        proof {
            lemma_pow10_bounds();
            reveal(fix_trim);
            reveal(dec_i);
            assert(r@ =~= fix_trim(v as int));
        }
        r
    }
}

proof fn lemma_dot_pos(s: Seq<char>)
    ensures
        0 <= dot_pos(s) <= s.len(),
        dot_pos(s) < s.len() ==> s[dot_pos(s)] == '.',
        forall|j: int| 0 <= j < dot_pos(s) ==> s[j] != '.',
    decreases s.len(),
{
    if s.len() > 0 && s[0] != '.' {
        lemma_dot_pos(s.drop_first());
        assert forall|j: int| 0 <= j < dot_pos(s) implies s[j] != '.' by {
            if j > 0 {
                assert(s.drop_first()[j - 1] == s[j]);
            }
        }
    }
}

fn char_digit(c: char) -> (r: Option<u64>)
    ensures
        match r {
            Some(d) => is_digit_char(c) && d == digit_of(c) && d < 10,
            None => !is_digit_char(c),
        },
{
    let u = c as u32;
    if 48 <= u && u <= 57 {
        Some((u - 48) as u64)
    } else {
        None
    }
}

/// Decimal coordinate parser; accepts exactly `parse_fixed_spec`.
pub fn parse_fixed(s: &str) -> (r: Option<i64>)
    ensures
        match r {
            Some(v) => parse_fixed_spec(s@) == Some(v as int) && fits_coord(v as int),
            None => parse_fixed_spec(s@) is None,
        },
{
    let n = s.unicode_len();
    let neg = n > 0 && s.get_char(0) == '-';
    let start: usize = if neg { 1 } else { 0 };
    let ghost body = if neg { s@.drop_first() } else { s@ };
    proof {
        assert(body =~= s@.skip(start as int));
        lemma_dot_pos(body);
        lemma_pow10_bounds();
        assert(pow10(9) == 1000000000);
    }
    let mut i = start;
    let mut ipv: u64 = 0;
    while i < n && i - start < 9 && char_digit(s.get_char(i)).is_some()
        invariant
            start <= i <= n,
            i - start <= 9,
            n == s@.len(),
            body == s@.skip(start as int),
            forall|k: int| 0 <= k < i - start ==> is_digit_char(#[trigger] body[k]),
            ipv == digits_val(body.take(i - start)),
            ipv < 1000000000,
            i - start < 9 ==> ipv < 100000000,
        decreases n - i,
    {
        let d = match char_digit(s.get_char(i)) {
            Some(d) => d,
            None => { return None; },
        };
        proof {
            assert(body[i - start] == s@[i as int]);
            assert(body.take(i - start + 1).drop_last() =~= body.take(i - start));
            assert(body.take(i - start + 1).last() == body[i - start]);
        }
        ipv = ipv * 10 + d;
        i = i + 1;
        proof {
            assert(ipv == digits_val(body.take(i - start)));
            assert forall|k: int| 0 <= k < i - start implies
                is_digit_char(#[trigger] body.take(i - start)[k]) by {
                assert(body.take(i - start)[k] == body[k]);
            }
            lemma_digits_val_bound(body.take(i - start));
            lemma_pow10_bounds();
            assert(pow10(9) == 1000000000);
            lemma_pow10_mono((i - start) as nat, 9);
            if i - start < 9 {
                lemma_pow10_mono((i - start) as nat, 8);
            }
        }
    }
    let idigits = i - start;
    proof {
        lemma_pow10_bounds();
    }
    if idigits == 9 {
        // nine leading digits: the integer part is too long whatever follows
        proof {
            assert(dot_pos(body) >= 9) by {
                if dot_pos(body) < 9 {
                    assert(body[dot_pos(body)] == '.');
                    assert(is_digit_char(body[dot_pos(body)]));
                }
            }
            let ip = body.take(dot_pos(body));
            if all_digits(ip) {
                assert(ip.len() > 8);
            }
        }
        return None;
    }
    if i == n {
        // no fraction part
        proof {
            assert(dot_pos(body) == body.len()) by {
                if dot_pos(body) < body.len() {
                    assert(body[dot_pos(body)] == '.');
                    assert(is_digit_char(body[dot_pos(body)]));
                }
            }
            assert(body.take(body.len() as int) =~= body);
            if idigits > 0 {
                assert forall|k: int| 0 <= k < body.len() implies
                    is_digit_char(#[trigger] body[k]) by {}
                assert(all_digits(body));
            } else {
                assert(body.len() == 0);
            }
        }
        if idigits == 0 {
            return None;
        }
        let v = (ipv as i64) * 10000;
        let v = if neg { -v } else { v };
        proof {
            assert(parse_fixed_spec(s@) == Some(v as int));
        }
        return Some(v);
    }
    let c = s.get_char(i);
    if c != '.' {
        // a stray character inside the integer part
        proof {
            assert(body[i - start] == s@[i as int]);
            assert(body[i - start] != '.');
            assert(!is_digit_char(body[i - start]));
            assert(dot_pos(body) > i - start) by {
                if dot_pos(body) < i - start {
                    assert(body[dot_pos(body)] == '.');
                    assert(is_digit_char(body[dot_pos(body)]));
                }
            }
            let ip = body.take(dot_pos(body));
            assert(ip[i - start] == body[i - start]);
            assert(!all_digits(ip));
        }
        return None;
    }
    proof {
        assert(body[i - start] == s@[i as int]);
        assert(body[i - start] == '.');
        assert(dot_pos(body) == i - start) by {
            if dot_pos(body) < i - start {
                assert(body[dot_pos(body)] == '.');
                assert(is_digit_char(body[dot_pos(body)]));
            }
        }
        assert(body.take(i - start) =~= body.take(dot_pos(body)));
        assert forall|k: int| 0 <= k < i - start implies
            is_digit_char(#[trigger] body.take(i - start)[k]) by {
            assert(body.take(i - start)[k] == body[k]);
        }
        assert(all_digits(body.take(dot_pos(body))));
    }
    let ghost fp = body.skip(i - start + 1);
    let mut j = i + 1;
    let mut f4v: u64 = 0;
    let mut f4c: usize = 0;
    while j < n && char_digit(s.get_char(j)).is_some()
        invariant
            i + 1 <= j <= n,
            n == s@.len(),
            body == s@.skip(start as int),
            start <= i < n,
            fp == body.skip(i - start + 1),
            forall|k: int| 0 <= k < j - i - 1 ==> is_digit_char(#[trigger] fp[k]),
            f4c <= 4,
            f4c == if j - i - 1 <= 4 { j - i - 1 } else { 4 },
            f4v == digits_val(fp.take(f4c as int)),
            f4v < 10000,
        decreases n - j,
    {
        let d = match char_digit(s.get_char(j)) {
            Some(d) => d,
            None => { return None; },
        };
        proof {
            assert(fp[j - i - 1] == s@[j as int]);
            if f4c < 4 {
                assert(fp.take(f4c + 1).drop_last() =~= fp.take(f4c as int));
                assert(fp.take(f4c + 1).last() == fp[f4c as int]);
                lemma_digits_val_bound(fp.take(f4c as int));
                lemma_pow10_bounds();
                assert forall|k: int| 0 <= k < f4c implies
                    is_digit_char(#[trigger] fp.take(f4c as int)[k]) by {
                    assert(fp.take(f4c as int)[k] == fp[k]);
                }
                lemma_pow10_mono((f4c + 1) as nat, 4);
            }
        }
        if f4c < 4 {
            f4v = f4v * 10 + d;
            f4c = f4c + 1;
        }
        j = j + 1;
    }
    if j < n {
        // a stray character inside the fraction part
        proof {
            assert(fp[j - i - 1] == s@[j as int]);
            assert(!is_digit_char(fp[j - i - 1]));
            assert(!all_digits(fp));
        }
        return None;
    }
    if idigits == 0 && j == i + 1 {
        proof {
            assert(fp.len() == 0);
            assert(body.take(dot_pos(body)).len() == 0);
        }
        return None;
    }
    proof {
        assert(fp =~= fp.take(j - i - 1));
        assert forall|k: int| 0 <= k < fp.len() implies is_digit_char(#[trigger] fp[k]) by {}
        assert(all_digits(fp));
        let fp4 = if fp.len() <= 4 { fp } else { fp.take(4) };
        assert(fp4 =~= fp.take(f4c as int));
        lemma_pow10_bounds();
    }
    let scale: u64 = if f4c == 0 { 10000 }
    else if f4c == 1 { 1000 }
    else if f4c == 2 { 100 }
    else if f4c == 3 { 10 }
    else { 1 };
    proof {
        assert(scale == pow10((4 - f4c) as nat));
        assert forall|k: int| 0 <= k < f4c implies
            is_digit_char(#[trigger] fp.take(f4c as int)[k]) by {
            assert(fp.take(f4c as int)[k] == fp[k]);
        }
        lemma_digits_val_bound(fp.take(f4c as int));
        if f4c == 0 {
            assert(fp.take(0) =~= Seq::<char>::empty());
        }
        assert(f4v * scale < 10000);
    }
    let v = (ipv as i64) * 10000 + (f4v * scale) as i64;
    let v = if neg { -v } else { v };
    proof {
        assert(parse_fixed_spec(s@) == Some(v as int));
    }
    Some(v)
}

/// Integer field parser; accepts exactly `parse_int_spec`.
pub fn parse_int(s: &str) -> (r: Option<i64>)
    ensures
        match r {
            Some(v) => parse_int_spec(s@) == Some(v as int) && -100000000 < v < 100000000,
            None => parse_int_spec(s@) is None,
        },
{
    let n = s.unicode_len();
    let neg = n > 0 && s.get_char(0) == '-';
    let start: usize = if neg { 1 } else { 0 };
    let ghost body = if neg { s@.drop_first() } else { s@ };
    proof {
        assert(body =~= s@.skip(start as int));
        lemma_pow10_bounds();
    }
    if n == start || n - start > 8 {
        return None;
    }
    let mut i = start;
    let mut val: u64 = 0;
    while i < n
        invariant
            start <= i <= n,
            n == s@.len(),
            n - start <= 8,
            n > start,
            neg == (s@.len() > 0 && s@[0] == '-'),
            start == if neg { 1int } else { 0int },
            body == s@.skip(start as int),
            forall|k: int| 0 <= k < i - start ==> is_digit_char(#[trigger] body[k]),
            val == digits_val(body.take(i - start)),
            val < 100000000,
        decreases n - i,
    {
        let d = match char_digit(s.get_char(i)) {
            Some(d) => d,
            None => {
                proof {
                    assert(body.len() == n - start);
                    assert(body[i - start] == s@[i as int]);
                    assert(!is_digit_char(body[i - start]));
                    assert(body =~= if s@.len() > 0 && s@[0] == '-' { s@.drop_first() } else { s@ });
                    assert(!all_digits(body));
                }
                return None;
            },
        };
        proof {
            assert(body[i - start] == s@[i as int]);
            assert(body.take(i - start + 1).drop_last() =~= body.take(i - start));
            assert(body.take(i - start + 1).last() == body[i - start]);
            assert forall|k: int| 0 <= k < i - start + 1 implies
                is_digit_char(#[trigger] body.take(i - start + 1)[k]) by {
                assert(body.take(i - start + 1)[k] == body[k]);
            }
            lemma_digits_val_bound(body.take(i - start));
            lemma_pow10_bounds();
            lemma_pow10_mono((i - start + 1) as nat, 8);
        }
        val = val * 10 + d;
        i = i + 1;
    }
    proof {
        assert(body =~= body.take(body.len() as int));
        assert(all_digits(body));
    }
    let v = val as i64;
    let v = if neg { -v } else { v };
    Some(v)
}

proof fn lemma_pow10_mul(a: nat, b: nat)
    ensures
        pow10(a) * pow10(b) == pow10(a + b),
    decreases a,
{
    if a == 0 {
    } else {
        lemma_pow10_mul((a - 1) as nat, b);
        assert(pow10(a) * pow10(b) == 10 * (pow10((a - 1) as nat) * pow10(b))) by {
            vstd::arithmetic::mul::lemma_mul_is_associative(10, pow10((a - 1) as nat), pow10(b));
        }
    }
}

} // verus!
