use vstd::prelude::*;

verus! {

/// The ASCII digits of `n` in base ten, most significant first, no leading zero.
pub open spec fn decimal_digits(n: nat) -> Seq<u8>
    decreases n,
{
    if n < 10 {
        seq![(48 + n) as u8]
    } else {
        decimal_digits(n / 10).push((48 + n % 10) as u8)
    }
}

/// The ASCII decimal text of `n`, with a leading `-` when `n` is negative.
pub open spec fn decimal(n: int) -> Seq<u8> {
    if n < 0 {
        seq![45u8] + decimal_digits((-n) as nat)
    } else {
        decimal_digits(n as nat)
    }
}

/// One pixel of a plain PPM image: the three components in decimal, separated
/// by single spaces and ended by a newline.
pub open spec fn color_line(r: int, g: int, b: int) -> Seq<u8> {
    decimal(r) + seq![32u8] + decimal(g) + seq![32u8] + decimal(b) + seq![10u8]
}

/// The text of a number is made of ASCII digits, at least one, and has more
/// than one digit exactly when the number is ten or more.
pub proof fn lemma_decimal_digits_shape(n: nat)
    ensures
        decimal_digits(n).len() >= 1,
        n < 10 <==> decimal_digits(n).len() == 1,
        forall|k: int| 0 <= k < decimal_digits(n).len() ==> 48 <= #[trigger] decimal_digits(n)[k] <= 57,
    decreases n,
{
    if n >= 10 {
        lemma_decimal_digits_shape(n / 10);
    }
}

/// Different numbers are written differently: the text of a number determines it.
pub proof fn lemma_decimal_digits_injective(a: nat, b: nat)
    requires
        decimal_digits(a) == decimal_digits(b),
    ensures
        a == b,
    decreases a,
{
    lemma_decimal_digits_shape(a);
    lemma_decimal_digits_shape(b);
    if a >= 10 && b >= 10 {
        let da: Seq<u8> = decimal_digits(a);
        let db: Seq<u8> = decimal_digits(b);
        assert(da.drop_last() =~= decimal_digits(a / 10));
        assert(db.drop_last() =~= decimal_digits(b / 10));
        assert(da.last() == (48 + a % 10) as u8);
        assert(db.last() == (48 + b % 10) as u8);
        assert(a % 10 == b % 10);
        lemma_decimal_digits_injective(a / 10, b / 10);
    } else if a < 10 && b < 10 {
        assert(decimal_digits(a)[0] == (48 + a) as u8);
        assert(decimal_digits(b)[0] == (48 + b) as u8);
    }
}

/// The decimal text written for a pixel component determines the component:
/// distinct values never produce the same text.
pub proof fn lemma_decimal_injective(a: int, b: int)
    requires
        decimal(a) == decimal(b),
    ensures
        a == b,
{
    if a < 0 {
        lemma_decimal_digits_shape((-a) as nat);
    } else {
        lemma_decimal_digits_shape(a as nat);
    }
    if b < 0 {
        lemma_decimal_digits_shape((-b) as nat);
    } else {
        lemma_decimal_digits_shape(b as nat);
    }
    if a < 0 && b < 0 {
        assert(decimal(a).skip(1) =~= decimal_digits((-a) as nat));
        assert(decimal(b).skip(1) =~= decimal_digits((-b) as nat));
        lemma_decimal_digits_injective((-a) as nat, (-b) as nat);
    } else if a >= 0 && b >= 0 {
        lemma_decimal_digits_injective(a as nat, b as nat);
    } else if a < 0 {
        assert(decimal(a)[0] == 45u8);
        assert(48 <= decimal_digits(b as nat)[0]);
    } else {
        assert(decimal(b)[0] == 45u8);
        assert(48 <= decimal_digits(a as nat)[0]);
    }
}

fn write_digits(out: &mut Vec<u8>, n: u32)
    ensures
        final(out)@ == old(out)@ + decimal_digits(n as nat),
    decreases n,
{
    if n >= 10 {
        write_digits(out, n / 10);
    }
    let d: u32 = n % 10;
    out.push((48 + d) as u8);
    proof {
        if n >= 10 {
            assert(decimal_digits(n as nat) == decimal_digits((n / 10) as nat).push((48 + n % 10) as u8));
        }
    }
    assert(out@ =~= old(out)@ + decimal_digits(n as nat));
}

/// Appends the decimal text of `n` to `out`.
pub(crate) fn write_decimal(out: &mut Vec<u8>, n: i32)
    ensures
        final(out)@ == old(out)@ + decimal(n as int),
{
    if n < 0 {
        out.push(45u8);
        let m: u32 = (0i64 - (n as i64)) as u32;
        write_digits(out, m);
        assert(out@ =~= old(out)@ + decimal(n as int));
    } else {
        write_digits(out, n as u32);
    }
}

/// Appends one pixel to a plain PPM image: the red, green and blue byte values
/// in decimal, separated by spaces, ended by a newline.
pub fn write_color(out: &mut Vec<u8>, rbyte: i32, gbyte: i32, bbyte: i32)
    ensures
        final(out)@ == old(out)@ + color_line(rbyte as int, gbyte as int, bbyte as int),
{
    write_decimal(out, rbyte);
    out.push(32u8);
    write_decimal(out, gbyte);
    out.push(32u8);
    write_decimal(out, bbyte);
    out.push(10u8);
    assert(out@ =~= old(out)@ + color_line(rbyte as int, gbyte as int, bbyte as int));
}

} // verus!
