use vstd::prelude::*;

verus! {

/// The text of one decimal digit.
pub open spec fn digit_text(d: int) -> Seq<char> {
    if d == 0 {
        "0"@
    } else if d == 1 {
        "1"@
    } else if d == 2 {
        "2"@
    } else if d == 3 {
        "3"@
    } else if d == 4 {
        "4"@
    } else if d == 5 {
        "5"@
    } else if d == 6 {
        "6"@
    } else if d == 7 {
        "7"@
    } else if d == 8 {
        "8"@
    } else {
        "9"@
    }
}

/// The decimal numeral of `n`, without leading zeros.
pub open spec fn digits_text(n: nat) -> Seq<char>
    decreases n,
{
    if n < 10 {
        digit_text(n as int)
    } else {
        digits_text(n / 10) + digit_text((n % 10) as int)
    }
}

/// The last `places` decimal digits of `n`, zero-padded.
pub open spec fn places_text(n: nat, places: nat) -> Seq<char>
    decreases places,
{
    if places == 0 {
        Seq::empty()
    } else {
        places_text(n / 10, (places - 1) as nat) + digit_text((n % 10) as int)
    }
}

pub open spec fn pow10(p: nat) -> nat
    decreases p,
{
    if p == 0 {
        1
    } else {
        10 * pow10((p - 1) as nat)
    }
}

pub open spec fn magnitude(v: int) -> nat {
    if v < 0 {
        (-v) as nat
    } else {
        v as nat
    }
}

/// `|v| / scale` in units of `10^-places`, rounded half away from zero.
pub open spec fn rounded(v: int, scale: nat, places: nat) -> nat {
    (2 * magnitude(v) * pow10(places) + scale) / (2 * scale) as nat
}

pub open spec fn sign_text(v: int, plus: bool) -> Seq<char> {
    if v < 0 {
        "-"@
    } else if plus {
        "+"@
    } else {
        Seq::empty()
    }
}

/// The fixed-point value `v / scale` written with `places` decimals: a minus
/// sign when `v` is negative (a plus sign otherwise, when `plus` asks for it),
/// the integral digits, a point and the decimals, rounded half away from zero.
pub open spec fn fixed_text(v: int, scale: nat, places: nat, plus: bool) -> Seq<char> {
    let q = rounded(v, scale, places);
    sign_text(v, plus) + digits_text(q / pow10(places)) + "."@ + places_text(
        q % pow10(places),
        places,
    )
}

fn digit_str(d: u64) -> (r: &'static str)
    requires
        d < 10,
    ensures
        r@ == digit_text(d as int),
{
    if d == 0 {
        "0"
    } else if d == 1 {
        "1"
    } else if d == 2 {
        "2"
    } else if d == 3 {
        "3"
    } else if d == 4 {
        "4"
    } else if d == 5 {
        "5"
    } else if d == 6 {
        "6"
    } else if d == 7 {
        "7"
    } else if d == 8 {
        "8"
    } else {
        "9"
    }
}

/// Appends the decimal numeral of `n`.
pub fn push_digits(out: &mut String, n: u64)
    ensures
        final(out)@ == old(out)@ + digits_text(n as nat),
    decreases n,
{
    if n < 10 {
        out.append(digit_str(n));
    } else {
        push_digits(out, n / 10);
        out.append(digit_str(n % 10));
        assert(final(out)@ == old(out)@ + digits_text(n as nat));
    }
}

/// Appends the last `places` digits of `n`, zero-padded.
fn push_places(out: &mut String, n: u64, places: u32)
    ensures
        final(out)@ == old(out)@ + places_text(n as nat, places as nat),
    decreases places,
{
    if places > 0 {
        push_places(out, n / 10, places - 1);
        out.append(digit_str(n % 10));
        assert(final(out)@ == old(out)@ + places_text(n as nat, places as nat));
    } else {
        assert(places_text(n as nat, 0) =~= Seq::empty());
        assert(final(out)@ =~= old(out)@ + places_text(n as nat, places as nat));
    }
}

/// Appends `fixed_text(v, scale, places, plus)`.
pub fn push_fixed(out: &mut String, v: i64, scale: u64, places: u32, plus: bool)
    requires
        scale == 1_000 || scale == 1_000_000 || scale == 1_000_000_000,
        places == 1 || places == 3,
    ensures
        final(out)@ == old(out)@ + fixed_text(v as int, scale as nat, places as nat, plus),
{
    let p: u128 = if places == 1 {
        10
    } else {
        1000
    };
    assert(pow10(0) == 1);
    assert(pow10(1) == 10);
    assert(pow10(2) == 100);
    assert(pow10(3) == 1000);
    let m: u128 = if v < 0 {
        (-(v as i128)) as u128
    } else {
        v as u128
    };
    assert(m <= 0x8000_0000_0000_0000);
    assert(2 * m * p <= 2 * 0x8000_0000_0000_0000 * 1000) by (nonlinear_arith)
        requires
            m <= 0x8000_0000_0000_0000,
            p <= 1000,
    ;
    let n: u128 = 2 * m * p + scale as u128;
    let d: u128 = 2 * scale as u128;
    let q: u128 = n / d;
    assert(q * d <= n) by {
        vstd::arithmetic::div_mod::lemma_fundamental_div_mod(n as int, d as int);
    };
    assert(q <= m) by (nonlinear_arith)
        requires
            q * d <= n,
            n == 2 * m * p + scale,
            d == 2 * scale,
            p <= scale,
            scale >= 1,
    ;
    let whole: u128 = q / p;
    assert(whole <= q) by (nonlinear_arith)
        requires
            whole == q / p,
            p >= 1,
    ;
    if v < 0 {
        out.append("-");
    } else if plus {
        out.append("+");
    } else {
        assert(old(out)@ + sign_text(v as int, plus) =~= old(out)@);
    }
    push_digits(out, whole as u64);
    out.append(".");
    push_places(out, (q % p) as u64, places);
    assert(final(out)@ =~= old(out)@ + fixed_text(v as int, scale as nat, places as nat, plus));
}

} // verus!
