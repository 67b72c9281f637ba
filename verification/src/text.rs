//! Deterministic text building blocks for the generator: decimal rendering
//! of integers, fixed-precision rendering of scaled values (tenths and
//! thousandths), and string-literal escaping.

use vstd::prelude::*;
use vstd::string::StrSliceExecFns;
use vstd::string::StringExecFns;

verus! {

/// The decimal digit character for `d` (meaningful for `0 <= d < 10`).
pub open spec fn digit_char(d: int) -> char {
    if d == 0 {
        '0'
    } else if d == 1 {
        '1'
    } else if d == 2 {
        '2'
    } else if d == 3 {
        '3'
    } else if d == 4 {
        '4'
    } else if d == 5 {
        '5'
    } else if d == 6 {
        '6'
    } else if d == 7 {
        '7'
    } else if d == 8 {
        '8'
    } else {
        '9'
    }
}

/// The decimal digit string of `n`, most significant digit first, with no
/// leading zeros (a single `'0'` for zero).
pub open spec fn u64_digits(n: nat) -> Seq<char>
    decreases n,
{
    if n < 10 {
        seq![digit_char(n as int)]
    } else {
        u64_digits(n / 10).push(digit_char((n % 10) as int))
    }
}

/// The decimal string of a signed value: a leading `'-'` for negatives.
pub open spec fn int_digits(v: int) -> Seq<char> {
    if v < 0 {
        seq!['-'] + u64_digits((-v) as nat)
    } else {
        u64_digits(v as nat)
    }
}

/// `v` tenths rendered with exactly one decimal place, e.g. `-35 -> "-3.5"`.
pub open spec fn tenths_str(v: int) -> Seq<char> {
    let mag = if v < 0 {
        (-v) as nat
    } else {
        v as nat
    };
    let sign = if v < 0 {
        seq!['-']
    } else {
        Seq::<char>::empty()
    };
    sign + u64_digits(mag / 10).push('.').push(digit_char((mag % 10) as int))
}

/// `v` thousandths rendered with exactly three decimal places,
/// e.g. `5000 -> "5.000"`, `-500 -> "-0.500"`.
pub open spec fn milli_str(v: int) -> Seq<char> {
    let mag = if v < 0 {
        (-v) as nat
    } else {
        v as nat
    };
    let sign = if v < 0 {
        seq!['-']
    } else {
        Seq::<char>::empty()
    };
    sign + u64_digits(mag / 1000).push('.').push(digit_char((mag / 100 % 10) as int)).push(
        digit_char((mag / 10 % 10) as int),
    ).push(digit_char((mag % 10) as int))
}

/// The generated-language literal for a boolean.
pub open spec fn bool_str(b: bool) -> Seq<char> {
    if b {
        "true"@
    } else {
        "false"@
    }
}

/// Appends the boolean literal for `b`.
pub(crate) fn push_bool(out: &mut String, b: bool)
    ensures
        final(out)@ == old(out)@ + bool_str(b),
{
    if b {
        push_str(out, "true");
    } else {
        push_str(out, "false");
    }
}

/// How one character is made safe for a double-quoted string literal:
/// backslashes are doubled, double quotes are backslash-escaped, everything
/// else passes through verbatim.
pub open spec fn escaped_char(c: char) -> Seq<char> {
    if c == '\\' {
        seq!['\\', '\\']
    } else if c == '"' {
        seq!['\\', '"']
    } else {
        seq![c]
    }
}

/// The whole string made safe for embedding in a double-quoted literal.
pub open spec fn escaped(s: Seq<char>) -> Seq<char>
    decreases s.len(),
{
    if s.len() == 0 {
        Seq::<char>::empty()
    } else {
        escaped(s.drop_last()) + escaped_char(s.last())
    }
}

/// Relies on `String::push`: appends the given character to the string.
#[verifier::external_body]
pub(crate) fn push_char(s: &mut String, c: char)
    ensures
        final(s)@ == old(s)@.push(c),
{
    s.push(c);
}

/// Appends a string slice; a thin verified alias over vstd's `append`.
pub(crate) fn push_str(s: &mut String, t: &str)
    ensures
        final(s)@ == old(s)@ + t@,
{
    s.append(t);
}

pub(crate) fn digit_to_char(d: u64) -> (r: char)
    requires
        d < 10,
    ensures
        r == digit_char(d as int),
{
    if d == 0 {
        '0'
    } else if d == 1 {
        '1'
    } else if d == 2 {
        '2'
    } else if d == 3 {
        '3'
    } else if d == 4 {
        '4'
    } else if d == 5 {
        '5'
    } else if d == 6 {
        '6'
    } else if d == 7 {
        '7'
    } else if d == 8 {
        '8'
    } else {
        '9'
    }
}

/// Appends the decimal digits of `n`.
pub(crate) fn push_u64(out: &mut String, n: u64)
    ensures
        final(out)@ == old(out)@ + u64_digits(n as nat),
    decreases n,
{
    let ghost orig = out@;
    if n >= 10 {
        push_u64(out, n / 10);
    }
    let d = digit_to_char(n % 10);
    push_char(out, d);
    proof {
        assert(out@ =~= orig + u64_digits(n as nat));
    }
}

/// The magnitude of `v` as an unsigned value (total, including `i64::MIN`).
pub(crate) fn i64_mag(v: i64) -> (r: u64)
    ensures
        v < 0 ==> r as int == -(v as int),
        v >= 0 ==> r as int == v as int,
{
    if v < 0 {
        ((-(v + 1)) as u64) + 1
    } else {
        v as u64
    }
}

/// Appends the decimal digits of a signed value.
pub(crate) fn push_i64(out: &mut String, v: i64)
    ensures
        final(out)@ == old(out)@ + int_digits(v as int),
{
    let ghost orig = out@;
    if v < 0 {
        push_char(out, '-');
    }
    let mag = i64_mag(v);
    push_u64(out, mag);
    proof {
        assert(out@ =~= orig + int_digits(v as int));
    }
}

/// Appends `v` tenths with one decimal place.
pub(crate) fn push_tenths(out: &mut String, v: i32)
    ensures
        final(out)@ == old(out)@ + tenths_str(v as int),
{
    let ghost orig = out@;
    if v < 0 {
        push_char(out, '-');
    }
    let mag = i64_mag(v as i64);
    push_u64(out, mag / 10);
    push_char(out, '.');
    let d = digit_to_char(mag % 10);
    push_char(out, d);
    proof {
        assert(out@ =~= orig + tenths_str(v as int));
    }
}

/// Appends `v` thousandths with three decimal places.
pub(crate) fn push_milli(out: &mut String, v: i64)
    ensures
        final(out)@ == old(out)@ + milli_str(v as int),
{
    let ghost orig = out@;
    if v < 0 {
        push_char(out, '-');
    }
    let mag = i64_mag(v);
    push_u64(out, mag / 1000);
    push_char(out, '.');
    let d2 = digit_to_char(mag / 100 % 10);
    push_char(out, d2);
    let d1 = digit_to_char(mag / 10 % 10);
    push_char(out, d1);
    let d0 = digit_to_char(mag % 10);
    push_char(out, d0);
    proof {
        assert(out@ =~= orig + milli_str(v as int));
    }
}

/// Returns `s` with every backslash doubled and every double quote
/// backslash-escaped, safe to embed inside a double-quoted string literal
/// of the generated language. No other characters are transformed.
pub fn escape(s: &str) -> (r: String)
    ensures
        r@ == escaped(s@),
{
    let n = s.unicode_len();
    let mut out = String::new();
    let mut i: usize = 0;
    while i < n
        invariant
            n == s@.len(),
            i <= n,
            out@ == escaped(s@.take(i as int)),
        decreases n - i,
    {
        let c = s.get_char(i);
        proof {
            assert(s@.take(i + 1).drop_last() =~= s@.take(i as int));
            assert(s@.take(i + 1).last() == s@[i as int]);
        }
        if c == '\\' {
            push_char(&mut out, '\\');
            push_char(&mut out, '\\');
        } else if c == '"' {
            push_char(&mut out, '\\');
            push_char(&mut out, '"');
        } else {
            push_char(&mut out, c);
        }
        proof {
            assert(out@ =~= escaped(s@.take(i as int)) + escaped_char(s@[i as int]));
        }
        i = i + 1;
    }
    proof {
        assert(s@.take(n as int) =~= s@);
    }
    out
}

/// Appends the escaped form of `s`.
pub(crate) fn push_escaped(out: &mut String, s: &str)
    ensures
        final(out)@ == old(out)@ + escaped(s@),
{
    let e = escape(s);
    push_str(out, e.as_str());
}

} // verus!
