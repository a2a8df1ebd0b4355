use vstd::prelude::*;

verus! {

/// Relies on std's `String::push`: appends exactly the one character to the
/// end of the string.
pub assume_specification[ String::push ](s: &mut String, ch: char)
    ensures
        final(s)@ == old(s)@.push(ch),
;

/// The decimal digit character for a value below ten.
pub open spec fn digit_char(d: int) -> char {
    if d == 0 {
        '0'
    } else if d == 1 {
        '1'
    } else if d == 2 {
        '2'
    } else if d == 3 {
        '3'
    } else if d == 4 {
        '4'
    } else if d == 5 {
        '5'
    } else if d == 6 {
        '6'
    } else if d == 7 {
        '7'
    } else if d == 8 {
        '8'
    } else {
        '9'
    }
}

/// The decimal digit string of a non-negative number, without padding:
/// `0` is "0", `42` is "42".
pub open spec fn dec_chars(n: nat) -> Seq<char>
    decreases n,
{
    if n < 10 {
        seq![digit_char(n as int)]
    } else {
        dec_chars(n / 10).push(digit_char((n % 10) as int))
    }
}

/// The decimal digit string padded on the left with '0' to at least two
/// digits, as the clock fields of `HH:MM:SS` are written.
pub open spec fn pad2_chars(n: nat) -> Seq<char> {
    if n < 10 {
        seq!['0'].push(digit_char(n as int))
    } else {
        dec_chars(n)
    }
}

/// The decimal string of a possibly negative number: a leading '-' and the
/// digits of the magnitude.
pub open spec fn int_chars(i: int) -> Seq<char> {
    if i < 0 {
        seq!['-'] + dec_chars((-i) as nat)
    } else {
        dec_chars(i as nat)
    }
}

/// A number of tenths written with one fractional digit: `500` is "50.0",
/// `1` is "0.1".
pub open spec fn deci_chars(tenths: nat) -> Seq<char> {
    dec_chars(tenths / 10).push('.').push(digit_char((tenths % 10) as int))
}

/// Accumulated seconds written `HH:MM:SS`: hours unbounded, minutes and
/// seconds modulo sixty, every field padded to two digits.
pub open spec fn hms_chars(total_secs: nat) -> Seq<char> {
    pad2_chars(total_secs / 3600) + seq![':'] + pad2_chars((total_secs / 60) % 60) + seq![':']
        + pad2_chars(total_secs % 60)
}

fn digit_of(d: u64) -> (c: char)
    requires
        d < 10,
    ensures
        c == digit_char(d as int),
{
    if d == 0 {
        '0'
    } else if d == 1 {
        '1'
    } else if d == 2 {
        '2'
    } else if d == 3 {
        '3'
    } else if d == 4 {
        '4'
    } else if d == 5 {
        '5'
    } else if d == 6 {
        '6'
    } else if d == 7 {
        '7'
    } else if d == 8 {
        '8'
    } else {
        '9'
    }
}

fn push_dec(s: &mut String, n: u64)
    ensures
        final(s)@ == old(s)@ + dec_chars(n as nat),
    decreases n,
{
    if n >= 10 {
        push_dec(s, n / 10);
        s.push(digit_of(n % 10));
        proof {
            assert(dec_chars(n as nat) == dec_chars(n as nat / 10).push(
                digit_char((n as nat % 10) as int),
            ));
            assert(final(s)@ =~= old(s)@ + dec_chars(n as nat));
        }
    } else {
        s.push(digit_of(n));
        proof {
            assert(final(s)@ =~= old(s)@ + dec_chars(n as nat));
        }
    }
}

fn push_pad2(s: &mut String, n: u64)
    ensures
        final(s)@ == old(s)@ + pad2_chars(n as nat),
{
    if n < 10 {
        s.push('0');
        s.push(digit_of(n));
        proof {
            assert(final(s)@ =~= old(s)@ + pad2_chars(n as nat));
        }
    } else {
        push_dec(s, n);
    }
}

/// The plain decimal string of an unsigned number.
pub fn u64_to_string(n: u64) -> (r: String)
    ensures
        r@ == dec_chars(n as nat),
{
    let mut s = String::new();
    push_dec(&mut s, n);
    proof {
        assert(s@ =~= dec_chars(n as nat));
    }
    s
}

/// The decimal string of a signed number, with a leading '-' when negative.
pub fn i64_to_string(n: i64) -> (r: String)
    ensures
        r@ == int_chars(n as int),
{
    let mut s = String::new();
    if n < 0 {
        s.push('-');
        let mag: u64 = (-(n as i128)) as u64;
        proof {
            assert(mag as nat == (-(n as int)) as nat);
        }
        push_dec(&mut s, mag);
        proof {
            assert(s@ =~= int_chars(n as int));
        }
    } else {
        push_dec(&mut s, n as u64);
        proof {
            assert(s@ =~= int_chars(n as int));
        }
    }
    s
}

/// A count of tenths written with one fractional digit, as the CPU and
/// memory percentage columns are shown.
pub fn deci_to_string(tenths: u64) -> (r: String)
    ensures
        r@ == deci_chars(tenths as nat),
{
    let mut s = String::new();
    push_dec(&mut s, tenths / 10);
    s.push('.');
    s.push(digit_of(tenths % 10));
    proof {
        assert(s@ =~= deci_chars(tenths as nat));
    }
    s
}

/// Accumulated CPU ticks formatted `HH:MM:SS`: ticks are converted to whole
/// seconds at the given tick rate, hours are unbounded, minutes and seconds
/// run modulo sixty.
pub fn format_time(clock_ticks: u64, tick_rate: u64) -> (r: String)
    requires
        tick_rate >= 1,
    ensures
        r@ == hms_chars((clock_ticks / tick_rate) as nat),
{
    let total: u64 = clock_ticks / tick_rate;
    let mut s = String::new();
    push_pad2(&mut s, total / 3600);
    s.push(':');
    push_pad2(&mut s, (total / 60) % 60);
    s.push(':');
    push_pad2(&mut s, total % 60);
    proof {
        assert(s@ =~= hms_chars(total as nat));
    }
    s
}

} // verus!
